use vstd::prelude::*;

use crate::text::is_digit;

verus! {

// ---------------------------------------------------------------------------
// Numbers: the float recognizer of `nom`
// ---------------------------------------------------------------------------

pub open spec fn is_sign(c: char) -> bool {
    c == '+' || c == '-'
}

/// The length of an optional sign at `p`
pub open spec fn sign_len(s: Seq<char>, p: int) -> nat {
    if 0 <= p < s.len() && is_sign(s[p]) {
        1
    } else {
        0
    }
}

/// The number of decimal digits in a row from `p` on
pub open spec fn digit_run(s: Seq<char>, p: int) -> nat
    decreases s.len() - p,
{
    if 0 <= p < s.len() && is_digit(s[p]) {
        1 + digit_run(s, p + 1)
    } else {
        0
    }
}

/// Where the mantissa of a literal at the start of `s` ends: an optional sign, then
/// digits with an optional point and optional digits after it, or a point followed
/// by digits; `None` where there is no mantissa
pub open spec fn mantissa_end(s: Seq<char>) -> Option<int> {
    let p = sign_len(s, 0) as int;
    let d = digit_run(s, p);
    if d > 0 {
        let q = p + d;
        if q < s.len() && s[q] == '.' {
            Some(q + 1 + digit_run(s, q + 1))
        } else {
            Some(q)
        }
    } else if p < s.len() && s[p] == '.' && digit_run(s, p + 1) > 0 {
        Some(p + 1 + digit_run(s, p + 1))
    } else {
        None
    }
}

/// `s` starts with the three letters `lower`, each in lower or upper case
pub open spec fn starts_with_letters(s: Seq<char>, lower: Seq<char>, upper: Seq<char>) -> bool {
    &&& s.len() >= 3
    &&& forall|i: int| 0 <= i < 3 ==> (s[i] == lower[i] || s[i] == upper[i])
}

/// What `nom::number::complete::float` does with an input: `None` where it fails
/// for good (an exponent marker not followed by digits), `Some(None)` where no
/// literal starts the input, and `Some(Some(r))` where one does, leaving `r`
/// characters unread. A literal is a mantissa (see [`mantissa_end`]) with an
/// optional exponent (`e` or `E`, an optional sign, digits), or else one of the
/// words `nan` and `inf` in any case (`infinity` reads as `inf`).
pub open spec fn float_literal_scan(s: Seq<char>) -> Option<Option<nat>> {
    match mantissa_end(s) {
        Some(m) => if m < s.len() && (s[m] == 'e' || s[m] == 'E') {
            let e = m + 1 + sign_len(s, m + 1);
            if digit_run(s, e) > 0 {
                Some(Some((s.len() - (e + digit_run(s, e))) as nat))
            } else {
                None
            }
        } else {
            Some(Some((s.len() - m) as nat))
        },
        None => if starts_with_letters(s, seq!['n', 'a', 'n'], seq!['N', 'A', 'N'])
            || starts_with_letters(s, seq!['i', 'n', 'f'], seq!['I', 'N', 'F']) {
            Some(Some((s.len() - 3) as nat))
        } else {
            Some(None)
        },
    }
}

proof fn lemma_digit_run_bound(s: Seq<char>, p: int)
    requires
        0 <= p <= s.len(),
    ensures
        p + digit_run(s, p) <= s.len(),
    decreases s.len() - p,
{
    if p < s.len() {
        lemma_digit_run_bound(s, p + 1);
    }
}

/// A literal that is found takes up at least one character and no more than the input
pub proof fn lemma_float_scan_consumes(s: Seq<char>)
    ensures
        float_literal_scan(s) matches Some(Some(r)) ==> r < s.len(),
{
    let p = sign_len(s, 0) as int;
    lemma_digit_run_bound(s, p);
    if p < s.len() {
        lemma_digit_run_bound(s, p + 1);
    }
    if let Some(m) = mantissa_end(s) {
        let q = p + digit_run(s, p);
        if q < s.len() {
            lemma_digit_run_bound(s, q + 1);
        }
        if m < s.len() && (s[m] == 'e' || s[m] == 'E') {
            lemma_digit_run_bound(s, m + 1 + sign_len(s, m + 1));
        }
    }
}

/// Outcome of scanning for a number literal
pub enum FloatScan {
    /// A literal was recognized; this many characters are left after it
    Matched(usize),
    NoMatch,
    Fatal,
}

impl View for FloatScan {
    type V = Option<Option<nat>>;

    open spec fn view(&self) -> Option<Option<nat>> {
        match self {
            FloatScan::Matched(r) => Some(Some(*r as nat)),
            FloatScan::NoMatch => Some(None),
            FloatScan::Fatal => None,
        }
    }
}

/// Runs `nom::number::complete::float` on the characters of `cs` from `start` on.
/// Trusted: the outcome is [`float_literal_scan`] of that input. In nom's source the
/// function recognizes the literal with `recognize_float` (a `Failure` where `cut`
/// finds no exponent digits), then tries the words `nan`, `inf`, `infinity` with
/// `tag_no_case`, and reads the text as an `f32`; std documents that every text so
/// recognized reads as a number, so a recognized literal is never refused there.
/// The value of the literal is not returned.
#[verifier::external_body]
pub(crate) fn scan_float(cs: &Vec<char>, start: usize) -> (res: FloatScan)
    requires
        start <= cs.len(),
    ensures
        res@ == float_literal_scan(cs@.subrange(start as int, cs.len() as int)),
{
    let text: String = cs[start..].iter().collect();
    match nom::number::complete::float::<&str, nom::error::Error<&str>>(text.as_str()) {
        Ok((remaining, _)) => FloatScan::Matched(remaining.chars().count()),
        Err(nom::Err::Failure(_)) => FloatScan::Fatal,
        Err(_) => FloatScan::NoMatch,
    }
}

} // verus!
