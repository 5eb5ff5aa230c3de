//! Locating the signed pull-history address in a web-view cache blob.
//!
//! The blob is a run of segments separated by the token `1/0/`. A segment
//! that starts with `https://` and mentions `getGachaLog` holds a candidate
//! address, which ends at the first zero byte of the segment. Later segments
//! are more recent, so they are tried first.

use vstd::prelude::*;
use vstd::slice::slice_subrange;
use vstd::string::*;
use crate::error::ExportError;
use crate::outside::{lossy_text, read_response_code, response_code, text_from_bytes};
use crate::bytes::{
    absent_between, ascii, ascii_bytes, find_within, matches_at, no_zero_between, occurs_at,
    occurs_within, zero_or_end,
};

verus! {

/// The token between two segments.
pub open spec fn delimiter() -> Seq<u8> {
    ascii("1/0/"@)
}

/// What a candidate segment starts with.
pub open spec fn scheme() -> Seq<u8> {
    ascii("https://"@)
}

/// What a candidate segment mentions.
pub open spec fn marker() -> Seq<u8> {
    ascii("getGachaLog"@)
}

/// A candidate address inside a blob: the bytes `start..url_end`, found in
/// the segment `start..segment_end`.
#[derive(Clone, Copy, Debug, PartialEq, Eq, Structural)]
pub struct Candidate {
    pub start: usize,
    pub url_end: usize,
    pub segment_end: usize,
}

/// A segment starts at the head of the blob and after every delimiter.
pub open spec fn is_segment_start(blob: Seq<u8>, start: int) -> bool {
    start == 0 || occurs_at(blob, delimiter(), start - delimiter().len())
}

/// `start..end` is one whole segment of the blob.
pub open spec fn is_segment(blob: Seq<u8>, start: int, end: int) -> bool {
    &&& is_segment_start(blob, start)
    &&& start <= end <= blob.len()
    &&& (end == blob.len() || occurs_at(blob, delimiter(), end))
    &&& absent_between(blob, delimiter(), start, end, blob.len() as int)
}

/// `c` marks a candidate address of the blob.
pub open spec fn is_candidate(blob: Seq<u8>, c: Candidate) -> bool {
    &&& is_segment(blob, c.start as int, c.segment_end as int)
    &&& occurs_within(blob, scheme(), c.start as int, c.segment_end as int)
    &&& exists|at: int| c.start <= at && occurs_within(blob, marker(), at, c.segment_end as int)
    &&& c.start <= c.url_end <= c.segment_end
    &&& (c.url_end == c.segment_end || blob[c.url_end as int] == 0)
    &&& no_zero_between(blob, c.start as int, c.url_end as int)
}

/// Two delimiters never overlap.
proof fn lemma_delimiters_apart(blob: Seq<u8>, i: int, j: int)
    requires
        occurs_at(blob, delimiter(), i),
        occurs_at(blob, delimiter(), j),
        i < j,
    ensures
        i + 4 <= j,
{
    reveal_strlit("1/0/");
    let d = delimiter();
    assert(d[0] == '1' as u8 && d[1] == '/' as u8 && d[2] == '0' as u8 && d[3] == '/' as u8);
}

/// A position has at most one segment, and it determines the candidate.
proof fn lemma_candidate_unique(blob: Seq<u8>, a: Candidate, b: Candidate)
    requires
        is_candidate(blob, a),
        is_candidate(blob, b),
        a.start == b.start,
    ensures
        a == b,
{
    let n = blob.len() as int;
    if a.segment_end < b.segment_end {
        assert(occurs_within(blob, delimiter(), a.segment_end as int, n));
    }
    if b.segment_end < a.segment_end {
        assert(occurs_within(blob, delimiter(), b.segment_end as int, n));
    }
}

/// A segment start at or after `start` lies past the end of the segment
/// that begins at `start`.
proof fn lemma_next_segment_start(blob: Seq<u8>, start: int, end: int, other: int)
    requires
        is_segment(blob, start, end),
        is_segment_start(blob, other),
        start < other,
    ensures
        end < blob.len(),
        end + 4 <= other,
{
    reveal_strlit("1/0/");
    let at = other - 4;
    if at < start && start != 0 {
        lemma_delimiters_apart(blob, start - 4, at);
    }
    if at < end {
        assert(occurs_within(blob, delimiter(), at, blob.len() as int));
    }
}

/// `found` lists the candidate addresses of `blob`, each once, the one
/// nearest to the end first.
pub open spec fn lists_candidates(blob: Seq<u8>, found: Seq<Candidate>) -> bool {
    &&& forall|c: Candidate| found.contains(c) <==> is_candidate(blob, c)
    &&& forall|i: int, j: int| 0 <= i < j < found.len() ==> found[i].start > found[j].start
}

/// The candidate addresses of `blob`, the one nearest to the end first.
pub fn find_candidates(blob: &[u8]) -> (found: Vec<Candidate>)
    ensures
        lists_candidates(blob@, found@),
{
    proof {
        reveal_strlit("1/0/");
        reveal_strlit("https://");
        reveal_strlit("getGachaLog");
    }
    let delimiter_bytes = ascii_bytes("1/0/");
    let scheme_bytes = ascii_bytes("https://");
    let marker_bytes = ascii_bytes("getGachaLog");
    let n = blob.len();
    let mut rising: Vec<Candidate> = Vec::new();
    let mut start: usize = 0;
    let mut more = true;
    while more
        invariant
            n == blob.len(),
            delimiter_bytes@ == delimiter(),
            scheme_bytes@ == scheme(),
            marker_bytes@ == marker(),
            delimiter().len() == 4,
            scheme().len() == 8,
            start <= n,
            more ==> is_segment_start(blob@, start as int),
            forall|c: Candidate| #[trigger] rising@.contains(c) ==> is_candidate(blob@, c) && (more ==> c.start < start),
            forall|c: Candidate| is_candidate(blob@, c) && (more ==> c.start < start) ==> rising@.contains(c),
            forall|i: int, j: int| 0 <= i < j < rising.len() ==> rising[i].start < rising[j].start,
        decreases (if more { n - start + 1 } else { 0 }),
    {
        let end = match find_within(blob, delimiter_bytes, start, n) {
            Some(at) => at,
            None => n,
        };
        let has_scheme = end - start >= scheme_bytes.len() && matches_at(blob, scheme_bytes, start);
        let mention = find_within(blob, marker_bytes, start, end);
        let ghost before = rising@;
        let ghost pushed: Option<Candidate> = None;
        if has_scheme && mention.is_some() {
            let url_end = zero_or_end(blob, start, end);
            let c = Candidate { start, url_end, segment_end: end };
            assert(occurs_within(blob@, scheme(), c.start as int, c.segment_end as int));
            rising.push(c);
            proof {
                pushed = Some(c);
            }
        }
        let ghost held = start;
        if end == n {
            more = false;
        } else {
            start = end + delimiter_bytes.len();
        }
        proof {
            assert forall|i: int| 0 <= i < before.len() implies (#[trigger] before[i]).start < held by {
                assert(before.contains(before[i]));
            }
            assert forall|x: Candidate| #[trigger] rising@.contains(x) implies is_candidate(blob@, x) && (more
                ==> x.start < start) by {
                let i = choose|i: int| 0 <= i < rising@.len() && rising@[i] == x;
                if i < before.len() {
                    assert(before.contains(before[i]));
                }
            }
            assert forall|x: Candidate| is_candidate(blob@, x) && (more ==> x.start < start)
                implies rising@.contains(x) by {
                if x.start < held {
                    let i = choose|i: int| 0 <= i < before.len() && before[i] == x;
                    assert(rising@[i] == x);
                } else if x.start == held {
                    if x.segment_end < end {
                        assert(occurs_within(blob@, delimiter(), x.segment_end as int, n as int));
                    }
                    lemma_candidate_unique(blob@, x, pushed.unwrap());
                    assert(rising@[before.len() as int] == x);
                } else {
                    lemma_next_segment_start(blob@, held as int, end as int, x.start as int);
                }
            }
        }
    }
    reversed(rising)
}

/// The same candidates in the opposite order.
fn reversed(rising: Vec<Candidate>) -> (falling: Vec<Candidate>)
    ensures
        falling@ == rising@.reverse(),
        forall|c: Candidate| falling@.contains(c) <==> rising@.contains(c),
{
    let mut falling: Vec<Candidate> = Vec::new();
    let mut left: usize = rising.len();
    while left > 0
        invariant
            left <= rising.len(),
            falling.len() == rising.len() - left,
            forall|i: int| 0 <= i < falling.len() ==> falling[i] == rising[rising.len() - 1 - i],
        decreases left,
    {
        left -= 1;
        falling.push(rising[left]);
    }
    proof {
        assert forall|c: Candidate| falling@.contains(c) implies rising@.contains(c) by {
            let i = choose|i: int| 0 <= i < falling@.len() && falling@[i] == c;
            assert(rising@[rising.len() - 1 - i] == c);
        }
        assert forall|c: Candidate| rising@.contains(c) implies falling@.contains(c) by {
            let i = choose|i: int| 0 <= i < rising@.len() && rising@[i] == c;
            assert(falling@[rising.len() - 1 - i] == c);
        }
    }
    falling
}

/// The text of the address that `c` marks in `blob`.
pub open spec fn url_text(blob: Seq<u8>, c: Candidate) -> Seq<char> {
    lossy_text(blob.subrange(c.start as int, c.url_end as int))
}

/// The text of the address that `c` marks in `blob`, if `c` lies inside
/// `blob`.
pub fn candidate_url(blob: &[u8], c: Candidate) -> (url: Option<String>)
    ensures
        url is Some <==> c.start <= c.url_end <= blob.len(),
        url matches Some(text) ==> text@ == url_text(blob@, c),
{
    if c.start <= c.url_end && c.url_end <= blob.len() {
        Some(text_from_bytes(slice_subrange(blob, c.start, c.url_end)))
    } else {
        None
    }
}

/// Whether the body of a reply confirms the address that was asked: it is a
/// JSON object whose `retcode` is the integer 0.
pub open spec fn confirms(body: Seq<u8>) -> bool {
    code_confirms(response_code(body))
}

/// Whether a reply with this `retcode` confirms an address.
pub open spec fn code_confirms(code: Option<i64>) -> bool {
    code == Some(0i64)
}

/// Tells from the `retcode` of a reply whether it confirms an address.
pub fn is_success_code(code: Option<i64>) -> (ok: bool)
    ensures
        ok == code_confirms(code),
{
    match code {
        Some(n) => n == 0,
        None => false,
    }
}

/// Tells from the body of a reply whether it confirms the address asked.
pub fn reply_confirms(body: &[u8]) -> (ok: bool)
    ensures
        ok == confirms(body@),
{
    is_success_code(read_response_code(body))
}

/// What to do next while looking for a confirmed address. Indices count the
/// candidates from the most recent one.
#[derive(Clone, Copy, Debug, PartialEq, Eq, Structural)]
pub enum ScanStep {
    /// Ask the remote service about this candidate.
    Probe(usize),
    /// This candidate was confirmed: the search is over.
    Found(usize),
    /// The most recent candidate was turned down, and older ones do not count.
    Outdated,
    /// No candidate is left.
    NotFound,
}

impl ScanStep {
    /// The failure that a step stands for, if it ends the search without an
    /// address.
    pub open spec fn as_failure(self) -> Option<ExportError> {
        match self {
            ScanStep::Outdated => Some(ExportError::PullUrlOutdated),
            ScanStep::NotFound => Some(ExportError::PullUrlNotFound),
            _ => None,
        }
    }

    /// The failure that this step stands for, if it ends the search without
    /// an address.
    pub fn failure(&self) -> (failure: Option<ExportError>)
        ensures
            failure == self.as_failure(),
    {
        match self {
            ScanStep::Outdated => Some(ExportError::PullUrlOutdated),
            ScanStep::NotFound => Some(ExportError::PullUrlNotFound),
            _ => None,
        }
    }
}

/// The folders and the file that lead from a game's data directory to the
/// cache blob of the version `version`.
pub open spec fn blob_trail(version: Seq<char>) -> Seq<Seq<char>> {
    seq!["webCaches"@, version, "Cache"@, "Cache_Data"@, "data_2"@]
}

/// The folder below a game's data directory that holds one cache directory
/// for each version.
pub fn cache_root() -> (name: String)
    ensures
        name@ == blob_trail(Seq::empty())[0],
{
    String::from_str("webCaches")
}

/// The folders and the file that lead from a game's data directory to the
/// cache blob of the version `version`.
pub fn blob_path(version: &str) -> (trail: Vec<String>)
    ensures
        trail.deep_view() == blob_trail(version@),
{
    let mut trail: Vec<String> = Vec::new();
    trail.push(String::from_str("webCaches"));
    trail.push(String::from_str(version));
    trail.push(String::from_str("Cache"));
    trail.push(String::from_str("Cache_Data"));
    trail.push(String::from_str("data_2"));
    trail
}

/// The first step of a search among `total` candidates.
pub open spec fn opening_step(total: usize) -> ScanStep {
    if total == 0 {
        ScanStep::NotFound
    } else {
        ScanStep::Probe(0)
    }
}

/// The step after candidate `probed` was answered with `confirmed`.
pub open spec fn following_step(total: usize, probed: usize, confirmed: bool, fallback: bool) -> ScanStep {
    if confirmed {
        ScanStep::Found(probed)
    } else if !fallback {
        ScanStep::Outdated
    } else if probed + 1 < total {
        ScanStep::Probe((probed + 1) as usize)
    } else {
        ScanStep::NotFound
    }
}

/// The first step of a search among `total` candidates.
pub fn first_step(total: usize) -> (step: ScanStep)
    ensures
        step == opening_step(total),
{
    if total == 0 {
        ScanStep::NotFound
    } else {
        ScanStep::Probe(0)
    }
}

/// The step after candidate `probed` was answered with `confirmed`. With
/// `fallback` an older candidate is tried after a refusal; without it a
/// refusal ends the search.
pub fn next_step(total: usize, probed: usize, confirmed: bool, fallback: bool) -> (step: ScanStep)
    ensures
        step == following_step(total, probed, confirmed, fallback),
{
    if confirmed {
        ScanStep::Found(probed)
    } else if !fallback {
        ScanStep::Outdated
    } else if probed < usize::MAX && probed + 1 < total {
        ScanStep::Probe(probed + 1)
    } else {
        ScanStep::NotFound
    }
}

/// The index of the first confirmed candidate at or after `from`.
pub open spec fn first_confirmed(answers: Seq<bool>, from: int) -> Option<int>
    decreases answers.len() - from,
{
    if from < 0 || from >= answers.len() {
        None
    } else if answers[from] {
        Some(from)
    } else {
        first_confirmed(answers, from + 1)
    }
}

/// How a search ends when candidate `i` would be answered with `answers[i]`.
pub open spec fn outcome(answers: Seq<bool>, fallback: bool) -> ScanStep {
    if answers.len() == 0 {
        ScanStep::NotFound
    } else if answers[0] {
        ScanStep::Found(0)
    } else if !fallback {
        ScanStep::Outdated
    } else {
        match first_confirmed(answers, 1) {
            Some(i) => ScanStep::Found(i as usize),
            None => ScanStep::NotFound,
        }
    }
}

/// Where a search that stands at `step` ends when every probe of candidate
/// `i` is answered with `answers[i]`.
pub open spec fn run(step: ScanStep, answers: Seq<bool>, fallback: bool) -> ScanStep
    decreases
        (match step {
            ScanStep::Probe(i) => answers.len() - i,
            _ => 0,
        }),
{
    match step {
        ScanStep::Probe(i) => if i < answers.len() && answers.len() <= usize::MAX {
            run(following_step(answers.len() as usize, i, answers[i as int], fallback), answers, fallback)
        } else {
            step
        },
        _ => step,
    }
}

proof fn lemma_run_with_fallback(answers: Seq<bool>, i: usize)
    requires
        i < answers.len() <= usize::MAX,
    ensures
        run(ScanStep::Probe(i), answers, true) == (match first_confirmed(answers, i as int) {
            Some(k) => ScanStep::Found(k as usize),
            None => ScanStep::NotFound,
        }),
    decreases answers.len() - i,
{
    lemma_first_confirmed(answers, i as int);
    let next = following_step(answers.len() as usize, i, answers[i as int], true);
    if !answers[i as int] && i + 1 < answers.len() {
        lemma_first_confirmed(answers, i + 1);
        lemma_run_with_fallback(answers, (i + 1) as usize);
    }
}

/// The most recent candidate is asked first. An older one is returned only
/// if every more recent one was turned down and fallback is permitted;
/// without fallback a refusal of the most recent candidate ends the search
/// as outdated.
pub proof fn lemma_search_outcome(answers: Seq<bool>, fallback: bool)
    requires
        answers.len() <= usize::MAX,
    ensures
        run(opening_step(answers.len() as usize), answers, fallback) == outcome(answers, fallback),
        answers.len() > 0 && answers[0] ==> outcome(answers, fallback) == ScanStep::Found(0),
        answers.len() > 0 && !answers[0] && !fallback ==> outcome(answers, fallback) == ScanStep::Outdated,
        forall|k: usize| outcome(answers, fallback) == ScanStep::Found(k) && k > 0 ==> {
            &&& fallback
            &&& k < answers.len()
            &&& answers[k as int]
            &&& forall|j: int| 0 <= j < k ==> !answers[j]
        },
        outcome(answers, fallback) == ScanStep::NotFound ==> forall|j: int| 0 <= j < answers.len() ==> !answers[j],
{
    if answers.len() > 0 {
        let total = answers.len() as usize;
        let next = following_step(total, 0, answers[0], fallback);
        assert(run(ScanStep::Probe(0), answers, fallback) == run(next, answers, fallback));
        lemma_first_confirmed(answers, 1);
        if !answers[0] && fallback && answers.len() > 1 {
            lemma_run_with_fallback(answers, 1);
        }
    }
}

proof fn lemma_first_confirmed(answers: Seq<bool>, from: int)
    requires
        0 <= from,
    ensures
        match first_confirmed(answers, from) {
            Some(k) => from <= k < answers.len() && answers[k] && forall|j: int| from <= j < k ==> !answers[j],
            None => forall|j: int| from <= j < answers.len() ==> !answers[j],
        },
    decreases answers.len() - from,
{
    if from < answers.len() && !answers[from] {
        lemma_first_confirmed(answers, from + 1);
    }
}

} // verus!
