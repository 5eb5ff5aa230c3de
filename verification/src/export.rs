//! An achievement export, step by step.
//!
//! The export fetches nothing and captures nothing. `AchievementExport::advance`
//! takes the answer to its last request and makes the next one; the caller
//! fetches the ids, lists the devices, runs the capture workers and the
//! session decoder, and reports what was decoded, until the request is
//! `Finish`.

use vstd::prelude::*;
use crate::devices::{picks_usable, usable_devices, NetworkDevice};
use crate::error::ExportError;
use crate::extract::{complete, replay_from, start, DecodedCommand, Extractor, Progress};
use crate::game::{CaptureSettings, Game};
use crate::keys::{load_keys, loaded_from, SessionKeyTable};

verus! {

/// How far an export has come.
#[derive(Clone, Copy, Debug, PartialEq, Eq, Structural)]
pub enum ExportStage {
    /// Waiting for the ids of all achievements.
    FetchingIds,
    /// Waiting for the list of network devices.
    ListingDevices,
    /// Waiting for decoded commands.
    Capturing,
    /// Over.
    Done,
}

/// What the caller is to do next.
pub enum ExportRequest {
    /// Fetch the ids of all achievements from this address. Answer with
    /// `Ids`, or with `NoIds` if the request failed.
    FetchIds(String),
    /// List the network devices. Answer with `Devices`, or with `NoDevices`
    /// if the capture facility cannot be asked.
    ListDevices,
    /// Start a capture worker on each of these devices, given by their
    /// index in the list that was answered, and a session decoder that
    /// starts from these keys. Answer with the `Commands` of the next
    /// packet, with `Undecodable` if the decoder makes nothing of it, or
    /// with `Closed` when no worker is left.
    Capture { devices: Vec<usize>, settings: CaptureSettings, keys: SessionKeyTable },
    /// Go on receiving. Answer as for `Capture`.
    Receive,
    /// The export is over: the completed ids, or why there are none.
    Finish(Result<Vec<u32>, ExportError>),
}

/// What the caller found.
pub enum ExportAnswer {
    Ids(Vec<u32>),
    NoIds,
    Devices(Vec<NetworkDevice>),
    NoDevices,
    Commands(Vec<DecodedCommand>),
    Undecodable,
    Closed,
}

/// An export of the achievements of one game.
pub struct AchievementExport {
    game: Game,
    bundle: Vec<u8>,
    stage: ExportStage,
    extractor: Option<Extractor>,
}

impl ExportRequest {
    /// This request ends the export in the failure `e`.
    pub open spec fn fails_with(self, e: ExportError) -> bool {
        self matches ExportRequest::Finish(Err(f)) && f == e
    }
}

impl AchievementExport {
    /// The game.
    pub closed spec fn game(&self) -> Game {
        self.game
    }

    /// The key bundle of the game as JSON text.
    pub closed spec fn bundle(&self) -> Seq<u8> {
        self.bundle@
    }

    /// How far the export has come.
    pub closed spec fn stage(&self) -> ExportStage {
        self.stage
    }

    /// The ids that are looked for, once they were fetched.
    pub closed spec fn target(&self) -> Seq<u32> {
        match self.extractor {
            Some(e) => e.target(),
            None => Seq::empty(),
        }
    }

    /// What has been collected so far.
    pub closed spec fn progress(&self) -> Progress {
        match self.extractor {
            Some(e) => e.progress(),
            None => start(),
        }
    }

    /// Once the ids were fetched, and until the export is over, the
    /// collection is sound and not yet complete; before the capture starts
    /// it is empty.
    pub closed spec fn wf(&self) -> bool {
        &&& self.game.has_achievements()
        &&& self.stage == ExportStage::ListingDevices || self.stage == ExportStage::Capturing ==> {
            &&& self.extractor matches Some(e)
            &&& e.wf()
            &&& e.required() == self.game.wanted()
            &&& !complete(e.required(), e.progress())
            &&& self.stage == ExportStage::ListingDevices ==> e.progress() == start()
        }
    }

    /// Starts an export for `game` with the key bundle of the game, for the
    /// games whose achievements can be exported. The first request is to
    /// fetch the ids of all achievements.
    pub fn start(game: Game, bundle: Vec<u8>) -> (begun: Option<(AchievementExport, ExportRequest)>)
        ensures
            begun is Some <==> game.has_achievements(),
            begun matches Some((export, request)) ==> {
                &&& export.wf()
                &&& export.game() == game
                &&& export.bundle() == bundle@
                &&& export.stage() == ExportStage::FetchingIds
                &&& request matches ExportRequest::FetchIds(url)
                &&& Some(url@) == game.ids_page()
            },
    {
        match game.achievement_ids_url() {
            Some(url) => {
                let export = AchievementExport { game, bundle, stage: ExportStage::FetchingIds, extractor: None };
                Some((export, ExportRequest::FetchIds(url)))
            },
            None => None,
        }
    }

    /// Whether the export is over.
    pub fn is_done(&self) -> (done: bool)
        ensures
            done == (self.stage() == ExportStage::Done),
    {
        match self.stage {
            ExportStage::Done => true,
            _ => false,
        }
    }

    /// Takes the answer to the last request and makes the next one.
    ///
    /// Ids that cannot be fetched give `NetworkRequestFailure`, devices that
    /// cannot be listed `DeviceEnumerationFailure`, a key bundle that cannot
    /// be read `KeyBundleInvalid`. Workers are asked for on every usable
    /// device, be there any or none. The commands of each packet are read
    /// in order, and a packet that does not decode is passed over; the
    /// export ends with the collected ids as soon as every wanted kind was
    /// read, and with `NoAchievementsFound` if the stream closes before
    /// that. An answer that does not fit the last request ends the export
    /// without a result.
    pub fn advance(&mut self, answer: ExportAnswer) -> (request: ExportRequest)
        requires
            old(self).wf(),
        ensures
            final(self).wf(),
            final(self).game() == old(self).game(),
            final(self).bundle() == old(self).bundle(),
            match (old(self).stage(), answer) {
                (ExportStage::FetchingIds, ExportAnswer::Ids(ids)) => {
                    &&& final(self).stage() == ExportStage::ListingDevices
                    &&& final(self).target() == ids@
                    &&& final(self).progress() == start()
                    &&& request is ListDevices
                },
                (ExportStage::FetchingIds, ExportAnswer::NoIds) => final(self).stage() == ExportStage::Done
                    && request.fails_with(ExportError::NetworkRequestFailure),
                (ExportStage::ListingDevices, ExportAnswer::Devices(listed)) => {
                    match request {
                        ExportRequest::Capture { devices, settings, keys } => {
                            &&& final(self).stage() == ExportStage::Capturing
                            &&& final(self).target() == old(self).target()
                            &&& final(self).progress() == start()
                            &&& picks_usable(listed@, devices@)
                            &&& Some(settings.filter@) == old(self).game().filter_text()
                            &&& settings.immediate && settings.promiscuous && settings.timeout_ms == 0
                            &&& loaded_from(
                                old(self).game(),
                                old(self).bundle(),
                                Ok::<SessionKeyTable, ExportError>(keys),
                            )
                        },
                        ExportRequest::Finish(Err(e)) => {
                            &&& final(self).stage() == ExportStage::Done
                            &&& e == ExportError::KeyBundleInvalid
                            &&& loaded_from(
                                old(self).game(),
                                old(self).bundle(),
                                Err::<SessionKeyTable, ExportError>(e),
                            )
                        },
                        _ => false,
                    }
                },
                (ExportStage::ListingDevices, ExportAnswer::NoDevices) => final(self).stage()
                    == ExportStage::Done && request.fails_with(ExportError::DeviceEnumerationFailure),
                (ExportStage::Capturing, ExportAnswer::Commands(commands)) => {
                    let after = replay_from(
                        old(self).target(),
                        old(self).game().wanted(),
                        old(self).progress(),
                        commands@,
                    );
                    if complete(old(self).game().wanted(), after) {
                        &&& final(self).stage() == ExportStage::Done
                        &&& request matches ExportRequest::Finish(Ok(ids))
                        &&& ids@ == after.ids
                    } else {
                        &&& final(self).stage() == ExportStage::Capturing
                        &&& final(self).target() == old(self).target()
                        &&& final(self).progress() == after
                        &&& request is Receive
                    }
                },
                (ExportStage::Capturing, ExportAnswer::Undecodable) => {
                    &&& final(self).stage() == ExportStage::Capturing
                    &&& final(self).target() == old(self).target()
                    &&& final(self).progress() == old(self).progress()
                    &&& request is Receive
                },
                (ExportStage::Capturing, ExportAnswer::Closed) => final(self).stage() == ExportStage::Done
                    && request.fails_with(ExportError::NoAchievementsFound),
                _ => final(self).stage() == ExportStage::Done && request.fails_with(
                    ExportError::NoAchievementsFound,
                ),
            },
    {
        match (self.stage, answer) {
            (ExportStage::FetchingIds, ExportAnswer::Ids(ids)) => {
                self.extractor = Some(Extractor::new(ids, self.game.required_kinds()));
                self.stage = ExportStage::ListingDevices;
                ExportRequest::ListDevices
            },
            (ExportStage::FetchingIds, ExportAnswer::NoIds) => {
                self.stage = ExportStage::Done;
                ExportRequest::Finish(Err(ExportError::NetworkRequestFailure))
            },
            (ExportStage::ListingDevices, ExportAnswer::Devices(listed)) => {
                let devices = usable_devices(&listed);
                let loaded = load_keys(self.game, self.bundle.as_slice());
                match (loaded, self.game.capture_settings(), self.extractor.take()) {
                    (Ok(keys), Some(settings), Some(extractor)) => {
                        self.extractor = Some(extractor);
                        self.stage = ExportStage::Capturing;
                        ExportRequest::Capture { devices, settings, keys }
                    },
                    (Err(e), _, _) => {
                        self.stage = ExportStage::Done;
                        ExportRequest::Finish(Err(e))
                    },
                    _ => {
                        assert(false);
                        self.stage = ExportStage::Done;
                        ExportRequest::Finish(Err(ExportError::NoAchievementsFound))
                    },
                }
            },
            (ExportStage::ListingDevices, ExportAnswer::NoDevices) => {
                self.stage = ExportStage::Done;
                ExportRequest::Finish(Err(ExportError::DeviceEnumerationFailure))
            },
            (ExportStage::Capturing, ExportAnswer::Commands(commands)) => {
                match self.extractor.take() {
                    Some(mut extractor) => {
                        extractor.observe_all(&commands);
                        if extractor.is_complete() {
                            self.stage = ExportStage::Done;
                            proof {
                                extractor.lemma_complete_has_ids();
                            }
                            ExportRequest::Finish(extractor.finish())
                        } else {
                            self.extractor = Some(extractor);
                            ExportRequest::Receive
                        }
                    },
                    None => {
                        assert(false);
                        self.stage = ExportStage::Done;
                        ExportRequest::Finish(Err(ExportError::NoAchievementsFound))
                    },
                }
            },
            (ExportStage::Capturing, ExportAnswer::Undecodable) => ExportRequest::Receive,
            _ => {
                self.stage = ExportStage::Done;
                ExportRequest::Finish(Err(ExportError::NoAchievementsFound))
            },
        }
    }
}

impl Game {
    /// Starts an export of the achievements of this game, with the key
    /// bundle of the game. See `AchievementExport::start`.
    pub fn achievements(self, bundle: Vec<u8>) -> (begun: Option<(AchievementExport, ExportRequest)>)
        ensures
            begun is Some <==> self.has_achievements(),
            begun matches Some((export, request)) ==> {
                &&& export.wf()
                &&& export.game() == self
                &&& export.bundle() == bundle@
                &&& export.stage() == ExportStage::FetchingIds
                &&& request matches ExportRequest::FetchIds(url)
                &&& Some(url@) == self.ids_page()
            },
    {
        AchievementExport::start(self, bundle)
    }
}

} // verus!
