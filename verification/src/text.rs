//! Text as the store orders and prints it: the byte-wise order of strings,
//! and the decimal form of points.

use vstd::prelude::*;
use vstd::string::StringExecFns;
use vstd::utf8::{encode_utf8, encode_utf8_decode_utf8};
use crate::models::MarkingConfig;

verus! {

/// `a` and `b` hold the same bytes at every position before `k`.
pub open spec fn agree_before(a: Seq<u8>, b: Seq<u8>, k: int) -> bool {
    &&& 0 <= k <= a.len()
    &&& k <= b.len()
    &&& forall|j: int| 0 <= j < k ==> a[j] == b[j]
}

/// `a` and `b` agree before `k`, and at `k` either `a` ends while `b` goes
/// on, or `a` holds the smaller byte.
pub open spec fn less_at(a: Seq<u8>, b: Seq<u8>, k: int) -> bool {
    &&& agree_before(a, b, k)
    &&& k < b.len()
    &&& k < a.len() ==> a[k] < b[k]
}

/// Lexicographic order of byte strings.
pub open spec fn bytes_less(a: Seq<u8>, b: Seq<u8>) -> bool {
    exists|k: int| less_at(a, b, k)
}

/// Order of texts: the lexicographic order of their UTF-8 encodings.
pub open spec fn spec_text_less(a: Seq<char>, b: Seq<char>) -> bool {
    bytes_less(encode_utf8(a), encode_utf8(b))
}

/// The order of byte strings is transitive.
pub proof fn lemma_bytes_less_transitive(a: Seq<u8>, b: Seq<u8>, c: Seq<u8>)
    requires
        bytes_less(a, b),
        bytes_less(b, c),
    ensures
        bytes_less(a, c),
{
    let k1 = choose|k: int| less_at(a, b, k);
    let k2 = choose|k: int| less_at(b, c, k);
    let k = if k1 <= k2 {
        k1
    } else {
        k2
    };
    assert(less_at(a, c, k));
}

/// No byte string is less than itself, and no two are less than each other.
pub proof fn lemma_bytes_less_asymmetric(a: Seq<u8>, b: Seq<u8>)
    requires
        bytes_less(a, b),
    ensures
        !bytes_less(b, a),
        a != b,
{
    let k1 = choose|k: int| less_at(a, b, k);
    if bytes_less(b, a) {
        // The two places cannot be one, and at the first of them the byte
        // strings both agree and differ.
        let k2 = choose|k: int| less_at(b, a, k);
        if k1 < k2 {
            assert(b[k1] == a[k1]);
        } else if k2 < k1 {
            assert(a[k2] == b[k2]);
        }
    }
}

/// Two byte strings that agree before `n` and are not equal are ordered.
proof fn lemma_bytes_ordered_from(a: Seq<u8>, b: Seq<u8>, n: int)
    requires
        agree_before(a, b, n),
        a != b,
    ensures
        bytes_less(a, b) || bytes_less(b, a),
    decreases a.len() - n,
{
    if n == a.len() {
        if n == b.len() {
            assert(a =~= b);
        } else {
            assert(less_at(a, b, n));
        }
    } else if n == b.len() {
        assert(less_at(b, a, n));
    } else if a[n] < b[n] {
        assert(less_at(a, b, n));
    } else if b[n] < a[n] {
        assert(less_at(b, a, n));
    } else {
        lemma_bytes_ordered_from(a, b, n + 1);
    }
}

/// The order of texts is transitive.
pub proof fn lemma_text_less_transitive(a: Seq<char>, b: Seq<char>, c: Seq<char>)
    requires
        spec_text_less(a, b),
        spec_text_less(b, c),
    ensures
        spec_text_less(a, c),
{
    lemma_bytes_less_transitive(encode_utf8(a), encode_utf8(b), encode_utf8(c));
}

/// No text is less than itself, and no two are less than each other.
pub proof fn lemma_text_less_asymmetric(a: Seq<char>, b: Seq<char>)
    requires
        spec_text_less(a, b),
    ensures
        !spec_text_less(b, a),
        a != b,
{
    lemma_bytes_less_asymmetric(encode_utf8(a), encode_utf8(b));
}

/// Any two different texts are ordered one way or the other.
pub proof fn lemma_text_less_total(a: Seq<char>, b: Seq<char>)
    requires
        a != b,
    ensures
        spec_text_less(a, b) || spec_text_less(b, a),
{
    encode_utf8_decode_utf8(a);
    encode_utf8_decode_utf8(b);
    lemma_bytes_ordered_from(encode_utf8(a), encode_utf8(b), 0);
}

/// Whether `a` comes before `b` in the byte-wise order of texts.
pub fn text_less(a: &str, b: &str) -> (less: bool)
    ensures
        less == spec_text_less(a@, b@),
{
    let x: &[u8] = a.as_bytes();
    let y: &[u8] = b.as_bytes();
    let mut i: usize = 0;
    while i < x.len() && i < y.len()
        invariant
            agree_before(x@, y@, i as int),
            x@ == encode_utf8(a@),
            y@ == encode_utf8(b@),
        decreases x.len() - i,
    {
        if x[i] != y[i] {
            proof {
                if x@[i as int] < y@[i as int] {
                    assert(less_at(x@, y@, i as int));
                } else {
                    assert(less_at(y@, x@, i as int));
                    lemma_bytes_less_asymmetric(y@, x@);
                }
            }
            return x[i] < y[i];
        }
        i = i + 1;
    }
    proof {
        if x.len() < y.len() {
            assert(less_at(x@, y@, i as int));
        } else if y.len() < x.len() {
            assert(less_at(y@, x@, i as int));
            lemma_bytes_less_asymmetric(y@, x@);
        } else {
            assert(x@ =~= y@);
            if bytes_less(x@, y@) {
                lemma_bytes_less_asymmetric(x@, y@);
            }
        }
    }
    x.len() < y.len()
}

/// The character of one decimal digit.
pub open spec fn digit_char(d: int) -> char {
    if d == 0 {
        '0'
    } else if d == 1 {
        '1'
    } else if d == 2 {
        '2'
    } else if d == 3 {
        '3'
    } else if d == 4 {
        '4'
    } else if d == 5 {
        '5'
    } else if d == 6 {
        '6'
    } else if d == 7 {
        '7'
    } else if d == 8 {
        '8'
    } else {
        '9'
    }
}

/// Decimal digits of a natural number, without leading zeros.
pub open spec fn decimal_digits(n: nat) -> Seq<char>
    decreases n,
{
    if n < 10 {
        seq![digit_char(n as int)]
    } else {
        decimal_digits(n / 10).push(digit_char((n % 10) as int))
    }
}

/// The fraction of a number of hundredths: nothing for a whole number,
/// else a point and one or two digits, without a trailing zero.
pub open spec fn fraction_text(hundredths: int) -> Seq<char> {
    if hundredths == 0 {
        Seq::empty()
    } else if hundredths % 10 == 0 {
        seq!['.', digit_char(hundredths / 10)]
    } else {
        seq!['.', digit_char(hundredths / 10), digit_char(hundredths % 10)]
    }
}

/// Decimal form of points held in hundredths: a minus sign for a negative
/// value, the whole points, and the fraction where there is one.
pub open spec fn spec_points_text(points: int) -> Seq<char> {
    let magnitude = if points < 0 {
        -points
    } else {
        points
    };
    let sign = if points < 0 {
        seq!['-']
    } else {
        Seq::empty()
    };
    sign + decimal_digits((magnitude / 100) as nat) + fraction_text(magnitude % 100)
}

/// How a marking scheme is shown: gain and deduction under negative
/// marking, the gain alone under flat marking.
pub open spec fn spec_marking_display(marking: MarkingConfig) -> Seq<char> {
    if marking.is_negative {
        seq!['+'] + spec_points_text(marking.correct_points as int) + seq!['/', '-']
            + spec_points_text(marking.wrong_points as int)
    } else {
        seq!['F', 'l', 'a', 't', ' '] + spec_points_text(marking.correct_points as int)
    }
}

/// The text of one decimal digit.
fn digit_str(d: u32) -> (s: &'static str)
    requires
        d < 10,
    ensures
        s@ == seq![digit_char(d as int)],
{
    proof {
        reveal_strlit("0");
        reveal_strlit("1");
        reveal_strlit("2");
        reveal_strlit("3");
        reveal_strlit("4");
        reveal_strlit("5");
        reveal_strlit("6");
        reveal_strlit("7");
        reveal_strlit("8");
        reveal_strlit("9");
    }
    let s: &'static str = if d == 0 {
        "0"
    } else if d == 1 {
        "1"
    } else if d == 2 {
        "2"
    } else if d == 3 {
        "3"
    } else if d == 4 {
        "4"
    } else if d == 5 {
        "5"
    } else if d == 6 {
        "6"
    } else if d == 7 {
        "7"
    } else if d == 8 {
        "8"
    } else {
        "9"
    };
    assert(s@ =~= seq![digit_char(d as int)]);
    s
}

/// Appends the decimal digits of `n` to `out`.
fn push_decimal(out: &mut String, n: u32)
    ensures
        final(out)@ == old(out)@ + decimal_digits(n as nat),
    decreases n,
{
    if n < 10 {
        out.append(digit_str(n));
    } else {
        push_decimal(out, n / 10);
        out.append(digit_str(n % 10));
        assert(final(out)@ =~= old(out)@ + decimal_digits(n as nat));
    }
}

/// Appends the decimal form of points held in hundredths to `out`.
pub fn push_points(out: &mut String, points: i16)
    ensures
        final(out)@ == old(out)@ + spec_points_text(points as int),
{
    proof {
        reveal_strlit("-");
        reveal_strlit(".");
    }
    let magnitude: u32 = if points < 0 {
        out.append("-");
        (-(points as i32)) as u32
    } else {
        points as u32
    };
    push_decimal(out, magnitude / 100);
    let fraction: u32 = magnitude % 100;
    if fraction != 0 {
        out.append(".");
        out.append(digit_str(fraction / 10));
        if fraction % 10 != 0 {
            out.append(digit_str(fraction % 10));
        }
    }
    assert(final(out)@ =~= old(out)@ + spec_points_text(points as int));
}

/// Decimal form of points held in hundredths.
pub fn points_text(points: i16) -> (text: String)
    ensures
        text@ == spec_points_text(points as int),
{
    let mut text = String::new();
    push_points(&mut text, points);
    assert(text@ =~= spec_points_text(points as int));
    text
}

/// How a marking scheme is shown.
pub fn marking_display(marking: MarkingConfig) -> (text: String)
    ensures
        text@ == spec_marking_display(marking),
{
    proof {
        reveal_strlit("+");
        reveal_strlit("/-");
        reveal_strlit("Flat ");
    }
    let mut text = String::new();
    if marking.is_negative {
        text.append("+");
        push_points(&mut text, marking.correct_points);
        text.append("/-");
        push_points(&mut text, marking.wrong_points);
    } else {
        text.append("Flat ");
        push_points(&mut text, marking.correct_points);
    }
    assert(text@ =~= spec_marking_display(marking));
    text
}

} // verus!
