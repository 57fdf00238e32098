//! Exam performance records with derived score and accuracy percentages
//! that are kept in step with the entries they are computed from.
//!
//! A test holds a marking scheme and any number of subject entries, each
//! with its counts of questions, attempts and correct answers. The store
//! keeps two percentages beside every test, computed from its entries, and
//! computes them anew within every operation that touches the test or one
//! of its entries. Templates are named presets of a marking scheme and a
//! list of subjects.
//!
//! All numbers are exact integers: points are hundredths of a point,
//! percentages are hundredths of a percent.
//!
//! - `models`: the data that callers hand in and get back.
//! - `marking`, `aggregate`: scores and percentages of one subject and of a
//!   whole test.
//! - `text`: the order of texts and the decimal form of points.
//! - `model`: the store as three sequences, and what each operation makes
//!   of them.
//! - `store`: the store itself and its rows.
//! - `db`, `history`, `templates`: the operations.
//! - `invariants`, `seq_lemmas`: the facts that the proofs rest on.
//! - `laws`: what holds of the store whatever the inputs.

pub mod aggregate;
pub mod db;
pub mod history;
pub mod invariants;
pub mod laws;
pub mod marking;
pub mod model;
pub mod models;
pub mod seq_lemmas;
pub mod store;
pub mod templates;
pub mod text;
