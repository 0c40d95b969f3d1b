//! Text helpers of the front end: trimming and lower-casing a query, and
//! joining lines for the clipboard.

use vstd::prelude::*;
use crate::matcher::texts;

verus! {

/// `text` without its leading and trailing white space, as `str::trim` of
/// the standard library defines it (by Unicode's `White_Space` property).
pub uninterp spec fn trimmed(text: Seq<char>) -> Seq<char>;

/// The lower-case form of `text`, as `str::to_lowercase` of the standard
/// library defines it (by Unicode's `Lowercase` property and case mappings).
pub uninterp spec fn lowercased(text: Seq<char>) -> Seq<char>;

/// Calls `str::trim`. Trusted: the result is the text named `trimmed`.
/// Nothing of what `trim` removes is stated here.
#[verifier::external_body]
pub(crate) fn trim(text: &str) -> (out: &str)
    ensures
        out@ == trimmed(text@),
{
    text.trim()
}

/// Calls `str::to_lowercase`. Trusted: the result is the text named
/// `lowercased`. Nothing of the mapping itself is stated here.
#[verifier::external_body]
pub(crate) fn to_lowercase(text: &str) -> (out: String)
    ensures
        out@ == lowercased(text@),
{
    text.to_lowercase()
}

/// The lines with `sep` between each two neighbours: nothing for no line,
/// and no separator before the first line or after the last.
pub open spec fn joined(lines: Seq<Seq<char>>, sep: Seq<char>) -> Seq<char>
    decreases lines.len(),
{
    if lines.len() == 0 {
        Seq::empty()
    } else if lines.len() == 1 {
        lines[0]
    } else {
        joined(lines.drop_last(), sep) + sep + lines.last()
    }
}

/// Calls `Itertools::join` of the crate itertools on the lines. Trusted: the
/// result is the first line, then for each further line the separator and
/// that line, and the empty string where there is no line.
#[verifier::external_body]
pub(crate) fn join(lines: &[String], sep: &str) -> (out: String)
    ensures
        out@ == joined(texts(lines@), sep@),
{
    itertools::Itertools::join(&mut lines.iter(), sep)
}

/// The text that goes to the clipboard: the lines, one per row, with a line
/// feed between each two.
pub fn clipboard_text(lines: &[String]) -> (out: String)
    ensures
        out@ == joined(texts(lines@), seq!['\n']),
{
    proof {
        reveal_strlit("\n");
        assert("\n"@ =~= seq!['\n']);
    }
    join(lines, "\n")
}

/// The decimal digit for a number below ten.
pub open spec fn digit(d: nat) -> char {
    seq!['0', '1', '2', '3', '4', '5', '6', '7', '8', '9'][d as int]
}

/// The decimal numeral of `n`, without leading zeros.
pub open spec fn decimal(n: nat) -> Seq<char>
    decreases n,
{
    if n < 10 {
        seq![digit(n)]
    } else {
        decimal(n / 10).push(digit(n % 10))
    }
}

/// `unit` written `times` times in a row.
pub open spec fn repeated(unit: Seq<char>, times: nat) -> Seq<char>
    decreases times,
{
    if times == 0 {
        Seq::empty()
    } else {
        repeated(unit, (times - 1) as nat) + unit
    }
}

fn digit_text(d: u32) -> (out: &'static str)
    requires
        d < 10,
    ensures
        out@ == seq![digit(d as nat)],
{
    proof {
        reveal_strlit("0");
        reveal_strlit("1");
        reveal_strlit("2");
        reveal_strlit("3");
        reveal_strlit("4");
        reveal_strlit("5");
        reveal_strlit("6");
        reveal_strlit("7");
        reveal_strlit("8");
        reveal_strlit("9");
    }
    let out = if d == 0 {
        "0"
    } else if d == 1 {
        "1"
    } else if d == 2 {
        "2"
    } else if d == 3 {
        "3"
    } else if d == 4 {
        "4"
    } else if d == 5 {
        "5"
    } else if d == 6 {
        "6"
    } else if d == 7 {
        "7"
    } else if d == 8 {
        "8"
    } else {
        "9"
    };
    assert(out@ =~= seq![digit(d as nat)]);
    out
}

/// The decimal numeral of `n`.
pub fn decimal_text(n: u32) -> (out: String)
    ensures
        out@ == decimal(n as nat),
    decreases n,
{
    if n < 10 {
        digit_text(n).to_owned()
    } else {
        let mut out = decimal_text(n / 10);
        out.append(digit_text(n % 10));
        assert(out@ =~= decimal((n / 10) as nat).push(digit((n % 10) as nat)));
        out
    }
}

/// `unit` written `times` times in a row.
pub fn repeat_text(unit: &str, times: usize) -> (out: String)
    ensures
        out@ == repeated(unit@, times as nat),
{
    let mut out = String::new();
    let mut k: usize = 0;
    while k < times
        invariant
            k <= times,
            out@ == repeated(unit@, k as nat),
        decreases times - k,
    {
        out.append(unit);
        k += 1;
    }
    out
}

} // verus!
