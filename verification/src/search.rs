//! The search for a confirmed pull-history address, step by step.
//!
//! The search reads no file and asks no server. `PullSearch::advance` takes
//! the answer to its last request and makes the next one; the caller lists
//! the directory, reads the file or fetches the address and reports back,
//! until the request is `Finish`.

use vstd::prelude::*;
use crate::error::ExportError;
use crate::game::Game;
use crate::pull::{
    blob_path, blob_trail, candidate_url, confirms, find_candidates, first_step, following_step,
    lists_candidates, next_step, opening_step, reply_confirms, url_text, Candidate, ScanStep,
};
use crate::version::{is_latest, no_version, select_latest};

verus! {

/// How far a search has come.
#[derive(Clone, Copy, Debug, PartialEq, Eq, Structural)]
pub enum Stage {
    /// Waiting for the names in the cache folder.
    Listing,
    /// Waiting for the bytes of the cache blob.
    Reading,
    /// Waiting for the reply to a candidate address.
    Probing,
    /// Over.
    Done,
}

/// What the caller is to do next.
#[derive(Debug, PartialEq, Eq)]
pub enum Request {
    /// List the names in the cache folder below the game's data directory.
    /// Answer with `Versions`, or with `NoVersions` if it cannot be listed.
    ListVersions,
    /// Read the file that this trail of folders leads to, from the game's
    /// data directory. Answer with `Blob`, or with `NoBlob` if it cannot be
    /// read.
    ReadBlob(Vec<String>),
    /// Fetch this address. Answer with `Reply` and the body, or with
    /// `NoReply` if the request failed.
    Fetch(String),
    /// The search is over: the confirmed address, or why there is none.
    Finish(Result<String, ExportError>),
}

/// What the caller found.
#[derive(Debug)]
pub enum Answer {
    Versions(Vec<String>),
    NoVersions,
    Blob(Vec<u8>),
    NoBlob,
    Reply(Vec<u8>),
    NoReply,
}

/// A request as plain text.
pub enum Shape {
    ListVersions,
    ReadBlob(Seq<Seq<char>>),
    Fetch(Seq<char>),
    Finish(Result<Seq<char>, ExportError>),
}

impl Request {
    /// This request as plain text.
    pub open spec fn shape(self) -> Shape {
        match self {
            Request::ListVersions => Shape::ListVersions,
            Request::ReadBlob(trail) => Shape::ReadBlob(trail.deep_view()),
            Request::Fetch(url) => Shape::Fetch(url@),
            Request::Finish(Ok(url)) => Shape::Finish(Ok(url@)),
            Request::Finish(Err(e)) => Shape::Finish(Err(e)),
        }
    }
}

/// The request that ends a search in failure.
pub open spec fn failed(e: ExportError) -> Shape {
    Shape::Finish(Err(e))
}

/// A search for the pull-history address of one game.
pub struct PullSearch {
    fallback: bool,
    stage: Stage,
    blob: Vec<u8>,
    found: Vec<Candidate>,
    probing: usize,
}

impl PullSearch {
    /// Whether an older address is tried after a refusal.
    pub closed spec fn fallback(&self) -> bool {
        self.fallback
    }

    /// How far the search has come.
    pub closed spec fn stage(&self) -> Stage {
        self.stage
    }

    /// The cache blob, once it was read.
    pub closed spec fn blob(&self) -> Seq<u8> {
        self.blob@
    }

    /// The candidate addresses of the blob, the most recent first.
    pub closed spec fn found(&self) -> Seq<Candidate> {
        self.found@
    }

    /// The index of the candidate that is being asked about.
    pub closed spec fn probing(&self) -> usize {
        self.probing
    }

    /// While a candidate is asked about, the candidates are those of the
    /// blob and the one asked about is one of them.
    pub closed spec fn wf(&self) -> bool {
        self.stage == Stage::Probing ==> lists_candidates(self.blob@, self.found@) && self.probing
            < self.found.len()
    }

    /// A search that has asked for nothing yet. Its first request is
    /// `ListVersions`.
    pub fn new(fallback: bool) -> (search: PullSearch)
        ensures
            search.wf(),
            search.stage() == Stage::Listing,
            search.fallback() == fallback,
    {
        PullSearch { fallback, stage: Stage::Listing, blob: Vec::new(), found: Vec::new(), probing: 0 }
    }

    /// Whether the search is over.
    pub fn is_done(&self) -> (done: bool)
        ensures
            done == (self.stage() == Stage::Done),
    {
        match self.stage {
            Stage::Done => true,
            _ => false,
        }
    }

    /// What follows when the candidate asked about was answered with
    /// `confirmed`.
    pub open spec fn stepped(old: &PullSearch, new: &PullSearch, request: Request, confirmed: bool) -> bool {
        match following_step(old.found().len() as usize, old.probing(), confirmed, old.fallback()) {
            ScanStep::Probe(next) => {
                &&& new.stage() == Stage::Probing
                &&& new.probing() == next
                &&& new.blob() == old.blob()
                &&& new.found() == old.found()
                &&& request.shape() == Shape::Fetch(url_text(old.blob(), old.found()[next as int]))
            },
            ScanStep::Found(at) => {
                &&& new.stage() == Stage::Done
                &&& request.shape() == Shape::Finish(Ok(url_text(old.blob(), old.found()[at as int])))
            },
            ScanStep::Outdated => new.stage() == Stage::Done && request.shape() == failed(
                ExportError::PullUrlOutdated,
            ),
            ScanStep::NotFound => new.stage() == Stage::Done && request.shape() == failed(
                ExportError::PullUrlNotFound,
            ),
        }
    }

    /// Takes the answer to the last request and makes the next one.
    ///
    /// The latest version directory is read. Its candidates are asked about
    /// from the most recent one on; the first that is confirmed ends the
    /// search. A refusal ends it as outdated, unless older addresses count.
    /// A folder that cannot be listed or holds no version gives
    /// `CacheNotFound`, a blob that cannot be read `BlobUnreadable`, a blob
    /// without a confirmed candidate `PullUrlNotFound`. An answer that does
    /// not fit the last request ends the search without an address.
    pub fn advance(&mut self, answer: Answer) -> (request: Request)
        requires
            old(self).wf(),
        ensures
            final(self).wf(),
            final(self).fallback() == old(self).fallback(),
            match (old(self).stage(), answer) {
                (Stage::Listing, Answer::Versions(names)) => if no_version(names@) {
                    final(self).stage() == Stage::Done && request.shape() == failed(ExportError::CacheNotFound)
                } else {
                    final(self).stage() == Stage::Reading && exists|best: int|
                        is_latest(names@, best) && request.shape() == Shape::ReadBlob(
                            blob_trail(names[best]@),
                        )
                },
                (Stage::Listing, Answer::NoVersions) => final(self).stage() == Stage::Done
                    && request.shape() == failed(ExportError::CacheNotFound),
                (Stage::Reading, Answer::Blob(bytes)) => {
                    &&& lists_candidates(bytes@, final(self).found())
                    &&& final(self).blob() == bytes@
                    &&& match opening_step(final(self).found().len() as usize) {
                        ScanStep::Probe(first) => {
                            &&& final(self).stage() == Stage::Probing
                            &&& final(self).probing() == first
                            &&& request.shape() == Shape::Fetch(url_text(bytes@, final(self).found()[first as int]))
                        },
                        _ => final(self).stage() == Stage::Done && request.shape() == failed(
                            ExportError::PullUrlNotFound,
                        ),
                    }
                },
                (Stage::Reading, Answer::NoBlob) => final(self).stage() == Stage::Done && request.shape()
                    == failed(ExportError::BlobUnreadable),
                (Stage::Probing, Answer::Reply(body)) => PullSearch::stepped(
                    old(self),
                    final(self),
                    request,
                    confirms(body@),
                ),
                (Stage::Probing, Answer::NoReply) => PullSearch::stepped(old(self), final(self), request, false),
                _ => final(self).stage() == Stage::Done && request.shape() == failed(
                    ExportError::PullUrlNotFound,
                ),
            },
    {
        match (self.stage, answer) {
            (Stage::Listing, Answer::Versions(names)) => {
                match select_latest(&names) {
                    Ok(best) => {
                        self.stage = Stage::Reading;
                        Request::ReadBlob(blob_path(names[best].as_str()))
                    },
                    Err(e) => {
                        self.stage = Stage::Done;
                        Request::Finish(Err(e))
                    },
                }
            },
            (Stage::Listing, Answer::NoVersions) => {
                self.stage = Stage::Done;
                Request::Finish(Err(ExportError::CacheNotFound))
            },
            (Stage::Reading, Answer::Blob(bytes)) => {
                self.found = find_candidates(bytes.as_slice());
                self.blob = bytes;
                self.probing = 0;
                let step = first_step(self.found.len());
                self.settle(step)
            },
            (Stage::Reading, Answer::NoBlob) => {
                self.stage = Stage::Done;
                Request::Finish(Err(ExportError::BlobUnreadable))
            },
            (Stage::Probing, Answer::Reply(body)) => {
                let confirmed = reply_confirms(body.as_slice());
                let step = next_step(self.found.len(), self.probing, confirmed, self.fallback);
                self.settle(step)
            },
            (Stage::Probing, Answer::NoReply) => {
                let step = next_step(self.found.len(), self.probing, false, self.fallback);
                self.settle(step)
            },
            _ => {
                self.stage = Stage::Done;
                Request::Finish(Err(ExportError::PullUrlNotFound))
            },
        }
    }

    /// Turns a step of the scan into the request that carries it out.
    fn settle(&mut self, step: ScanStep) -> (request: Request)
        requires
            lists_candidates(old(self).blob@, old(self).found@),
            match step {
                ScanStep::Probe(i) => i < old(self).found.len(),
                ScanStep::Found(i) => i < old(self).found.len(),
                _ => true,
            },
        ensures
            final(self).wf(),
            final(self).fallback == old(self).fallback,
            final(self).blob == old(self).blob,
            final(self).found == old(self).found,
            match step {
                ScanStep::Probe(i) => {
                    &&& final(self).stage == Stage::Probing
                    &&& final(self).probing == i
                    &&& request.shape() == Shape::Fetch(url_text(old(self).blob@, old(self).found[i as int]))
                },
                ScanStep::Found(i) => {
                    &&& final(self).stage == Stage::Done
                    &&& request.shape() == Shape::Finish(Ok(url_text(old(self).blob@, old(self).found[i as int])))
                },
                ScanStep::Outdated => final(self).stage == Stage::Done && request.shape() == failed(
                    ExportError::PullUrlOutdated,
                ),
                ScanStep::NotFound => final(self).stage == Stage::Done && request.shape() == failed(
                    ExportError::PullUrlNotFound,
                ),
            },
    {
        match step {
            ScanStep::Probe(i) => {
                assert(self.found@.contains(self.found[i as int]));
                match candidate_url(self.blob.as_slice(), self.found[i]) {
                    Some(url) => {
                        self.stage = Stage::Probing;
                        self.probing = i;
                        Request::Fetch(url)
                    },
                    None => {
                        assert(false);
                        self.stage = Stage::Done;
                        Request::Finish(Err(ExportError::PullUrlNotFound))
                    },
                }
            },
            ScanStep::Found(i) => {
                assert(self.found@.contains(self.found[i as int]));
                self.stage = Stage::Done;
                match candidate_url(self.blob.as_slice(), self.found[i]) {
                    Some(url) => Request::Finish(Ok(url)),
                    None => {
                        assert(false);
                        Request::Finish(Err(ExportError::PullUrlNotFound))
                    },
                }
            },
            ScanStep::Outdated => {
                self.stage = Stage::Done;
                Request::Finish(Err(ExportError::PullUrlOutdated))
            },
            ScanStep::NotFound => {
                self.stage = Stage::Done;
                Request::Finish(Err(ExportError::PullUrlNotFound))
            },
        }
    }
}

/// Starts the search for the pull-history address of `game` below its data
/// directory: the search, and its first request, which is to list the
/// cache folder. Older addresses count where the game permits it.
pub fn pulls_from_game_path(game: Game) -> (begun: (PullSearch, Request))
    ensures
        begun.0.wf(),
        begun.0.stage() == Stage::Listing,
        begun.0.fallback() == game.older_addresses_count(),
        begun.1.shape() == Shape::ListVersions,
{
    (PullSearch::new(game.allows_fallback()), Request::ListVersions)
}

} // verus!
