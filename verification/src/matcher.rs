//! The ignore matcher: a path is pruned when any ignore pattern occurs in it
//! as a literal, case-sensitive substring.

use vstd::prelude::*;

verus! {

/// `needle` occurs in `hay` starting at position `at`.
pub open spec fn occurs_at(hay: Seq<char>, needle: Seq<char>, at: int) -> bool {
    &&& 0 <= at
    &&& at + needle.len() <= hay.len()
    &&& hay.subrange(at, at + needle.len()) == needle
}

/// `needle` occurs somewhere in `hay`. The empty needle occurs in every text.
pub open spec fn is_substring(hay: Seq<char>, needle: Seq<char>) -> bool {
    exists|at: int| occurs_at(hay, needle, at)
}

/// Some pattern of `patterns` occurs in `path`.
pub open spec fn prunes(path: Seq<char>, patterns: Seq<Seq<char>>) -> bool {
    exists|k: int| 0 <= k < patterns.len() && is_substring(path, #[trigger] patterns[k])
}

/// The texts of a list of strings.
pub open spec fn texts(list: Seq<String>) -> Seq<Seq<char>> {
    list.map_values(|s: String| s@)
}

/// The characters of `s`, in order.
pub fn chars_of(s: &str) -> (out: Vec<char>)
    ensures
        out@ == s@,
{
    let mut out: Vec<char> = Vec::new();
    for c in it: s.chars()
        invariant
            out@ == it.seq().take(it.index() as int),
            it.seq() == s@,
    {
        out.push(c);
    }
    out
}

/// Whether `needle` stands in `hay` at position `at`.
fn matches_at(hay: &Vec<char>, needle: &Vec<char>, at: usize) -> (hit: bool)
    requires
        at + needle.len() <= hay.len(),
    ensures
        hit == occurs_at(hay@, needle@, at as int),
{
    let mut k: usize = 0;
    while k < needle.len()
        invariant
            k <= needle.len(),
            at + needle.len() <= hay.len(),
            forall|j: int| 0 <= j < k ==> hay@[at + j] == needle@[j],
        decreases needle.len() - k,
    {
        if hay[at + k] != needle[k] {
            proof {
                let window = hay@.subrange(at as int, at + needle.len());
                assert(window[k as int] == hay@[at + k]);
            }
            return false;
        }
        k += 1;
    }
    assert(hay@.subrange(at as int, at + needle.len()) =~= needle@);
    true
}

/// Whether `needle` occurs anywhere in `hay`, both given as characters.
pub fn contains_chars(hay: &Vec<char>, needle: &Vec<char>) -> (found: bool)
    ensures
        found == is_substring(hay@, needle@),
{
    if needle.len() > hay.len() {
        return false;
    }
    let last: usize = hay.len() - needle.len();
    let mut at: usize = 0;
    while at < last
        invariant
            at <= last,
            last == hay.len() - needle.len(),
            needle.len() <= hay.len(),
            forall|j: int| 0 <= j < at ==> !occurs_at(hay@, needle@, j),
        decreases last - at,
    {
        if matches_at(hay, needle, at) {
            return true;
        }
        at += 1;
    }
    matches_at(hay, needle, last)
}

/// Whether `needle` occurs anywhere in `hay`: a literal, case-sensitive
/// test, with no wildcard and no anchoring to path segments.
pub fn contains(hay: &str, needle: &str) -> (found: bool)
    ensures
        found == is_substring(hay@, needle@),
{
    let hay_chars = chars_of(hay);
    let needle_chars = chars_of(needle);
    contains_chars(&hay_chars, &needle_chars)
}

/// The prune decision: true exactly when some pattern occurs in `path`.
pub fn should_prune(path: &str, patterns: &[String]) -> (pruned: bool)
    ensures
        pruned == prunes(path@, texts(patterns@)),
{
    let hay = chars_of(path);
    let mut k: usize = 0;
    while k < patterns.len()
        invariant
            k <= patterns.len(),
            hay@ == path@,
            forall|j: int| 0 <= j < k ==> !is_substring(path@, #[trigger] texts(patterns@)[j]),
        decreases patterns.len() - k,
    {
        let needle = chars_of(patterns[k].as_str());
        assert(texts(patterns@)[k as int] == patterns@[k as int]@);
        if contains_chars(&hay, &needle) {
            return true;
        }
        k += 1;
    }
    false
}

/// The walk's entry filter: true exactly when `path` is kept, that is when
/// no pattern of `ignore_list` occurs in it.
pub fn filter_entry(path: &str, ignore_list: &[String]) -> (kept: bool)
    ensures
        kept == !prunes(path@, texts(ignore_list@)),
{
    !should_prune(path, ignore_list)
}

} // verus!
