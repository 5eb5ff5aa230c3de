//! Searching byte strings.

use vstd::prelude::*;
use vstd::string::*;

verus! {

/// The bytes of a text of ASCII characters.
pub open spec fn ascii(text: Seq<char>) -> Seq<u8> {
    Seq::new(text.len(), |i: int| text[i] as u8)
}

/// The bytes of a text of ASCII characters.
pub(crate) fn ascii_bytes(text: &str) -> (bytes: &[u8])
    requires
        is_ascii(text),
    ensures
        bytes@ == ascii(text@),
{
    broadcast use is_ascii_spec_bytes;

    text.as_bytes()
}

/// `needle` stands in `hay` at index `at`.
pub open spec fn occurs_at(hay: Seq<u8>, needle: Seq<u8>, at: int) -> bool {
    &&& 0 <= at
    &&& at + needle.len() <= hay.len()
    &&& forall|k: int| 0 <= k < needle.len() ==> hay[at + k] == #[trigger] needle[k]
}

/// `needle` stands in `hay` at index `at` and ends no later than `end`.
pub open spec fn occurs_within(hay: Seq<u8>, needle: Seq<u8>, at: int, end: int) -> bool {
    occurs_at(hay, needle, at) && at + needle.len() <= end
}

/// No occurrence of `needle` in `hay` that starts in `from..to` ends by `end`.
pub open spec fn absent_between(hay: Seq<u8>, needle: Seq<u8>, from: int, to: int, end: int) -> bool {
    forall|j: int| from <= j < to ==> !occurs_within(hay, needle, j, end)
}

/// No zero byte in `hay` at the indices `from..to`.
pub open spec fn no_zero_between(hay: Seq<u8>, from: int, to: int) -> bool {
    forall|j: int| from <= j < to ==> hay[j] != 0
}

/// Tests whether `needle` stands in `hay` at index `at`.
pub fn matches_at(hay: &[u8], needle: &[u8], at: usize) -> (found: bool)
    ensures
        found == occurs_at(hay@, needle@, at as int),
{
    if needle.len() > hay.len() || at > hay.len() - needle.len() {
        return false;
    }
    let mut k: usize = 0;
    while k < needle.len()
        invariant
            k <= needle.len(),
            at + needle.len() <= hay.len(),
            forall|j: int| 0 <= j < k ==> hay@[at + j] == #[trigger] needle@[j],
        decreases needle.len() - k,
    {
        if hay[at + k] != needle[k] {
            return false;
        }
        k += 1;
    }
    true
}

/// The first index at or after `from` where `needle` stands in `hay` and
/// ends by `end`.
pub(crate) fn find_within(hay: &[u8], needle: &[u8], from: usize, end: usize) -> (found: Option<usize>)
    requires
        end <= hay.len(),
    ensures
        found matches Some(at) ==> from <= at && occurs_within(hay@, needle@, at as int, end as int)
            && absent_between(hay@, needle@, from as int, at as int, end as int),
        found is None ==> absent_between(hay@, needle@, from as int, end as int + 1, end as int),
{
    if needle.len() > end || from > end - needle.len() {
        return None;
    }
    let last: usize = end - needle.len();
    let mut at: usize = from;
    while at <= last
        invariant
            from <= at <= last + 1,
            last + needle.len() == end,
            end <= hay.len(),
            absent_between(hay@, needle@, from as int, at as int, end as int),
        decreases last + 1 - at,
    {
        if matches_at(hay, needle, at) {
            return Some(at);
        }
        at += 1;
    }
    None
}

/// The index of the first zero byte of `hay` in `from..to`, or `to` if there
/// is none.
pub(crate) fn zero_or_end(hay: &[u8], from: usize, to: usize) -> (at: usize)
    requires
        from <= to <= hay.len(),
    ensures
        from <= at <= to,
        at < to ==> hay@[at as int] == 0,
        no_zero_between(hay@, from as int, at as int),
{
    let mut at: usize = from;
    while at < to
        invariant
            from <= at <= to,
            to <= hay.len(),
            no_zero_between(hay@, from as int, at as int),
        decreases to - at,
    {
        if hay[at] == 0 {
            return at;
        }
        at += 1;
    }
    at
}

} // verus!
