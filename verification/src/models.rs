//! Plain data exchanged with the record store and the template store.
//!
//! Points are held as signed hundredths of a point and percentages as signed
//! hundredths of a percent, so that every derived value is an exact integer.
//! Each type that holds text has a view in which the text is a sequence of
//! characters; the contracts of the store speak of those views.

use vstd::prelude::*;
use vstd::string::StringExecFns;

verus! {

/// How one test is marked: points granted per correct answer, points
/// deducted per wrong answer (both in hundredths of a point), and whether
/// the deduction is applied at all.
#[derive(Clone, Copy, Debug, PartialEq, Eq)]
pub struct MarkingConfig {
    pub correct_points: i16,
    pub wrong_points: i16,
    pub is_negative: bool,
}

/// The question counts of one subject, as entered.
#[derive(Clone, Copy, Debug, PartialEq, Eq)]
pub struct SubjectRaw {
    pub total: u32,
    pub attempted: u32,
    pub correct: u32,
}

/// View of an optional text.
pub open spec fn opt_text(text: Option<String>) -> Option<Seq<char>> {
    match text {
        Some(t) => Some(t@),
        None => None,
    }
}

/// One subject of a test that is being created.
#[derive(Clone, Debug, PartialEq, Eq)]
pub struct SubjectInput {
    pub name: String,
    pub total_q: u32,
    pub attempted_q: u32,
    pub correct_q: u32,
}

/// View of `SubjectInput`.
pub struct SubjectModel {
    pub name: Seq<char>,
    pub raw: SubjectRaw,
}

impl View for SubjectInput {
    type V = SubjectModel;

    open spec fn view(&self) -> SubjectModel {
        SubjectModel {
            name: self.name@,
            raw: SubjectRaw {
                total: self.total_q,
                attempted: self.attempted_q,
                correct: self.correct_q,
            },
        }
    }
}

/// The views of subjects, in their order.
pub open spec fn subject_models(subjects: Seq<SubjectInput>) -> Seq<SubjectModel> {
    subjects.map_values(|s: SubjectInput| s@)
}

/// A test to create, with all its subjects.
#[derive(Clone, Debug, PartialEq, Eq)]
pub struct TestInput {
    pub date: String,
    pub name: Option<String>,
    pub correct_points: i16,
    pub wrong_points: i16,
    pub is_negative: bool,
    pub subjects: Vec<SubjectInput>,
}

/// View of `TestInput`.
pub struct NewTestModel {
    pub date: Seq<char>,
    pub name: Option<Seq<char>>,
    pub marking: MarkingConfig,
    pub subjects: Seq<SubjectModel>,
}

impl View for TestInput {
    type V = NewTestModel;

    open spec fn view(&self) -> NewTestModel {
        NewTestModel {
            date: self.date@,
            name: opt_text(self.name),
            marking: MarkingConfig {
                correct_points: self.correct_points,
                wrong_points: self.wrong_points,
                is_negative: self.is_negative,
            },
            subjects: subject_models(self.subjects@),
        }
    }
}

/// New date, name and marking scheme for a stored test.
#[derive(Clone, Debug, PartialEq, Eq)]
pub struct UpdateTestInput {
    pub id: i64,
    pub date: String,
    pub name: Option<String>,
    pub correct_points: i16,
    pub wrong_points: i16,
    pub is_negative: bool,
}

impl UpdateTestInput {
    /// The marking scheme that the input carries.
    pub open spec fn marking(self) -> MarkingConfig {
        MarkingConfig {
            correct_points: self.correct_points,
            wrong_points: self.wrong_points,
            is_negative: self.is_negative,
        }
    }
}

/// One more subject for a stored test.
#[derive(Clone, Debug, PartialEq, Eq)]
pub struct AddSubjectInput {
    pub test_id: i64,
    pub name: String,
    pub total_q: u32,
    pub attempted_q: u32,
    pub correct_q: u32,
}

impl AddSubjectInput {
    /// The question counts that the input carries.
    pub open spec fn raw(self) -> SubjectRaw {
        SubjectRaw { total: self.total_q, attempted: self.attempted_q, correct: self.correct_q }
    }
}

/// New name and question counts for a stored subject entry.
#[derive(Clone, Debug, PartialEq, Eq)]
pub struct UpdateSubjectInput {
    pub id: i64,
    pub name: String,
    pub total_q: u32,
    pub attempted_q: u32,
    pub correct_q: u32,
}

impl UpdateSubjectInput {
    /// The question counts that the input carries.
    pub open spec fn raw(self) -> SubjectRaw {
        SubjectRaw { total: self.total_q, attempted: self.attempted_q, correct: self.correct_q }
    }
}

/// One subject of a listed test with its three percentages.
#[derive(Clone, Debug, PartialEq, Eq)]
pub struct SubjectStats {
    pub id: i64,
    pub name: String,
    pub attempts_pct: i128,
    pub accuracy_pct: i128,
    pub score_pct: i128,
    pub raw: SubjectRaw,
}

/// View of `SubjectStats`.
pub struct StatsModel {
    pub id: int,
    pub name: Seq<char>,
    pub attempts_pct: int,
    pub accuracy_pct: int,
    pub score_pct: int,
    pub raw: SubjectRaw,
}

impl View for SubjectStats {
    type V = StatsModel;

    open spec fn view(&self) -> StatsModel {
        StatsModel {
            id: self.id as int,
            name: self.name@,
            attempts_pct: self.attempts_pct as int,
            accuracy_pct: self.accuracy_pct as int,
            score_pct: self.score_pct as int,
            raw: self.raw,
        }
    }
}

/// The views of listed subjects, in their order.
pub open spec fn stats_models(subjects: Seq<SubjectStats>) -> Seq<StatsModel> {
    subjects.map_values(|s: SubjectStats| s@)
}

/// One listed test with its grand percentages and its subjects.
#[derive(Clone, Debug, PartialEq, Eq)]
pub struct TestRecord {
    pub id: i64,
    pub date: String,
    pub name: Option<String>,
    pub marking_config: String,
    pub total_score_pct: i128,
    pub total_accuracy_pct: i128,
    pub subjects: Vec<SubjectStats>,
}

/// View of `TestRecord`.
pub struct RecordModel {
    pub id: int,
    pub date: Seq<char>,
    pub name: Option<Seq<char>>,
    pub marking_config: Seq<char>,
    pub total_score_pct: int,
    pub total_accuracy_pct: int,
    pub subjects: Seq<StatsModel>,
}

impl View for TestRecord {
    type V = RecordModel;

    open spec fn view(&self) -> RecordModel {
        RecordModel {
            id: self.id as int,
            date: self.date@,
            name: opt_text(self.name),
            marking_config: self.marking_config@,
            total_score_pct: self.total_score_pct as int,
            total_accuracy_pct: self.total_accuracy_pct as int,
            subjects: stats_models(self.subjects@),
        }
    }
}

/// The views of listed tests, in their order.
pub open spec fn record_models(records: Seq<TestRecord>) -> Seq<RecordModel> {
    records.map_values(|r: TestRecord| r@)
}

/// One subject preset of a template.
#[derive(Clone, Debug, PartialEq, Eq)]
pub struct TemplateSubjectJson {
    pub name: String,
    pub default_total: u32,
}

/// View of `TemplateSubjectJson`.
pub struct PresetModel {
    pub name: Seq<char>,
    pub default_total: u32,
}

impl View for TemplateSubjectJson {
    type V = PresetModel;

    open spec fn view(&self) -> PresetModel {
        PresetModel { name: self.name@, default_total: self.default_total }
    }
}

/// The views of subject presets, in their order.
pub open spec fn preset_models(presets: Seq<TemplateSubjectJson>) -> Seq<PresetModel> {
    presets.map_values(|s: TemplateSubjectJson| s@)
}

/// A named preset of a marking scheme and a list of subjects. The id is
/// absent until the store has assigned one.
#[derive(Clone, Debug, PartialEq, Eq)]
pub struct TemplateDTO {
    pub id: Option<i64>,
    pub name: String,
    pub correct_points: i16,
    pub wrong_points: i16,
    pub is_negative: bool,
    pub subjects: Vec<TemplateSubjectJson>,
}

/// View of `TemplateDTO`, and the form in which the store's model holds a
/// template.
pub struct TemplateModel {
    pub id: Option<int>,
    pub name: Seq<char>,
    pub marking: MarkingConfig,
    pub subjects: Seq<PresetModel>,
}

impl View for TemplateDTO {
    type V = TemplateModel;

    open spec fn view(&self) -> TemplateModel {
        TemplateModel {
            id: match self.id {
                Some(id) => Some(id as int),
                None => None,
            },
            name: self.name@,
            marking: MarkingConfig {
                correct_points: self.correct_points,
                wrong_points: self.wrong_points,
                is_negative: self.is_negative,
            },
            subjects: preset_models(self.subjects@),
        }
    }
}

/// The views of templates, in their order.
pub open spec fn template_models(templates: Seq<TemplateDTO>) -> Seq<TemplateModel> {
    templates.map_values(|t: TemplateDTO| t@)
}

/// Why an operation of the store did not take place.
#[derive(Clone, Copy, Debug, PartialEq, Eq, Structural)]
pub enum StoreError {
    /// The test, entry or template that the operation names is not stored.
    NotFound,
    /// Another template already has the name.
    DuplicateName,
    /// The store cannot take what the operation would write.
    StorageError,
    /// The store is held by another operation.
    LockContention,
}

impl StoreError {
    /// The message that describes the failure to a caller.
    pub open spec fn spec_message(self) -> Seq<char> {
        match self {
            StoreError::NotFound => "Query returned no rows"@,
            StoreError::DuplicateName => "UNIQUE constraint failed: templates.name"@,
            StoreError::StorageError => "database or disk is full"@,
            StoreError::LockContention => "Failed to lock DB"@,
        }
    }

    /// The message that describes the failure to a caller.
    pub fn message(&self) -> (text: String)
        ensures
            text@ == self.spec_message(),
    {
        match self {
            StoreError::NotFound => String::from_str("Query returned no rows"),
            StoreError::DuplicateName => String::from_str(
                "UNIQUE constraint failed: templates.name",
            ),
            StoreError::StorageError => String::from_str("database or disk is full"),
            StoreError::LockContention => String::from_str("Failed to lock DB"),
        }
    }
}

} // verus!
