//! The life of one capture worker.
//!
//! A worker serves one network device. It opens a capture handle, polls it
//! for packets and hands each payload on. What it does about a failure
//! depends on whether the device has ever delivered a packet: a device that
//! never did is given up at its first failure, one that did is reopened.
//!
//! The worker itself touches no device. `Worker::step` takes what happened
//! and says what to do next; the caller does it and reports back.

use vstd::prelude::*;
use vstd::string::*;
use crate::error::ExportError;
use crate::text::{decimal, decimal_text};

verus! {

/// Where a worker stands.
#[derive(Clone, Copy, Debug, PartialEq, Eq, Structural)]
pub enum Phase {
    /// Waiting for its first capture handle.
    Opening,
    /// Polling an open handle.
    Listening,
    /// Waiting for a new handle after the last one failed.
    Restarting,
    /// Ended: the device failed before it delivered anything.
    Idle,
    /// Ended: no handle could be opened.
    Unusable,
}

/// What can happen to a worker, without the payload.
#[derive(Clone, Copy, Debug, PartialEq, Eq, Structural)]
pub enum EventKind {
    /// A handle was opened and its filter installed.
    Opened,
    /// Opening a handle or installing its filter failed.
    OpenFailed,
    /// A packet was captured.
    Packet,
    /// A poll timed out.
    TimedOut,
    /// A poll failed for another reason.
    Failed,
}

/// What happened, as the caller reports it.
#[derive(Debug)]
pub enum Event {
    Opened,
    OpenFailed,
    Packet(Vec<u8>),
    TimedOut,
    Failed,
}

/// What the caller is to do next.
#[derive(Clone, Copy, Debug, PartialEq, Eq, Structural)]
pub enum Command {
    /// Close the handle, if one is open, open a new one and install the
    /// filter. Report `Opened` or `OpenFailed`.
    Open,
    /// Poll the open handle. Report `Packet`, `TimedOut` or `Failed`.
    Poll,
    /// Close the handle, if one is open, and end the worker.
    Stop,
}

/// A notice for whoever watches the workers.
#[derive(Clone, Copy, Debug, PartialEq, Eq, Structural)]
pub enum Status {
    /// The device is ready and being polled.
    Ready,
    /// The device failed and is being reopened.
    Retrying,
}

/// The state of a worker.
#[derive(Clone, Copy, Debug, PartialEq, Eq, Structural)]
pub struct Worker {
    pub phase: Phase,
    pub has_captured: bool,
}

/// What a step asks of the caller.
#[derive(Debug)]
pub struct Step {
    /// A payload to put on the packet channel.
    pub forward: Option<Vec<u8>>,
    /// A notice to send to the watcher.
    pub status: Option<Status>,
    /// What to do after that.
    pub command: Command,
}

impl Status {
    /// The text of this notice about the device with the number `device`.
    pub open spec fn text(self, device: nat) -> Seq<char> {
        match self {
            Status::Ready => "Device "@ + decimal_text(device) + " Ready~!"@,
            Status::Retrying => "Device "@ + decimal_text(device) + " Error. Starting up again..."@,
        }
    }

    /// The text of this notice about the device with the number `device`.
    pub fn message(&self, device: usize) -> (text: String)
        ensures
            text@ == self.text(device as nat),
    {
        let mut text = String::from_str("Device ");
        text.append(decimal(device).as_str());
        match self {
            Status::Ready => text.append(" Ready~!"),
            Status::Retrying => text.append(" Error. Starting up again..."),
        }
        text
    }
}

impl Event {
    /// The event without its payload.
    pub open spec fn tag(self) -> EventKind {
        match self {
            Event::Opened => EventKind::Opened,
            Event::OpenFailed => EventKind::OpenFailed,
            Event::Packet(_) => EventKind::Packet,
            Event::TimedOut => EventKind::TimedOut,
            Event::Failed => EventKind::Failed,
        }
    }

    /// The payload of a captured packet.
    pub open spec fn payload(self) -> Option<Seq<u8>> {
        match self {
            Event::Packet(data) => Some(data@),
            _ => None,
        }
    }

    /// The event without its payload.
    pub fn kind(&self) -> (kind: EventKind)
        ensures
            kind == self.tag(),
    {
        match self {
            Event::Opened => EventKind::Opened,
            Event::OpenFailed => EventKind::OpenFailed,
            Event::Packet(_) => EventKind::Packet,
            Event::TimedOut => EventKind::TimedOut,
            Event::Failed => EventKind::Failed,
        }
    }
}

/// A worker before anything happened.
pub open spec fn fresh() -> Worker {
    Worker { phase: Phase::Opening, has_captured: false }
}

/// The state after `event` happened in state `w`. An event that cannot
/// happen in a phase leaves the state as it is.
pub open spec fn after(w: Worker, event: EventKind) -> Worker {
    match (w.phase, event) {
        (Phase::Opening, EventKind::Opened) | (Phase::Restarting, EventKind::Opened) => Worker {
            phase: Phase::Listening,
            has_captured: w.has_captured,
        },
        (Phase::Opening, EventKind::OpenFailed) | (Phase::Restarting, EventKind::OpenFailed) => Worker {
            phase: Phase::Unusable,
            has_captured: w.has_captured,
        },
        (Phase::Listening, EventKind::Packet) => Worker { phase: Phase::Listening, has_captured: true },
        (Phase::Listening, EventKind::TimedOut) => if w.has_captured {
            w
        } else {
            Worker { phase: Phase::Idle, has_captured: false }
        },
        (Phase::Listening, EventKind::Failed) => if w.has_captured {
            Worker { phase: Phase::Restarting, has_captured: true }
        } else {
            Worker { phase: Phase::Idle, has_captured: false }
        },
        _ => w,
    }
}

/// The notice that goes out when `event` happens in state `w`.
pub open spec fn notice(w: Worker, event: EventKind) -> Option<Status> {
    match (w.phase, event) {
        (Phase::Opening, EventKind::Opened) | (Phase::Restarting, EventKind::Opened) => Some(Status::Ready),
        (Phase::Listening, EventKind::Failed) => if w.has_captured {
            Some(Status::Retrying)
        } else {
            None
        },
        _ => None,
    }
}

/// Whether the payload of `event` is handed on in state `w`.
pub open spec fn forwards(w: Worker, event: EventKind) -> bool {
    w.phase == Phase::Listening && event == EventKind::Packet
}

/// What the caller is to do in state `w`.
pub open spec fn command_in(w: Worker) -> Command {
    match w.phase {
        Phase::Opening | Phase::Restarting => Command::Open,
        Phase::Listening => Command::Poll,
        Phase::Idle | Phase::Unusable => Command::Stop,
    }
}

/// The failure that a worker in state `w` is in.
pub open spec fn failure_in(w: Worker) -> Option<ExportError> {
    match w.phase {
        Phase::Unusable => Some(ExportError::CaptureOpenFailure),
        Phase::Restarting => Some(ExportError::CaptureTransientFailure),
        _ => None,
    }
}

/// The state after a run of events, from `w`.
pub open spec fn after_all(w: Worker, events: Seq<EventKind>) -> Worker
    decreases events.len(),
{
    if events.len() == 0 {
        w
    } else {
        after(after_all(w, events.drop_last()), events.last())
    }
}

impl Worker {
    /// A worker before anything happened. Its first command is `Open`.
    pub fn new() -> (w: Worker)
        ensures
            w == fresh(),
    {
        Worker { phase: Phase::Opening, has_captured: false }
    }

    /// Whether the worker has ended.
    pub fn is_finished(&self) -> (ended: bool)
        ensures
            ended == (command_in(*self) == Command::Stop),
    {
        match self.phase {
            Phase::Idle | Phase::Unusable => true,
            _ => false,
        }
    }

    /// The failure that the worker is in, if it is in one: a device that
    /// could not be opened, or a device that failed and is being reopened.
    /// A worker that gave up a silent device has not failed.
    pub fn failure(&self) -> (failure: Option<ExportError>)
        ensures
            failure == failure_in(*self),
    {
        match self.phase {
            Phase::Unusable => Some(ExportError::CaptureOpenFailure),
            Phase::Restarting => Some(ExportError::CaptureTransientFailure),
            _ => None,
        }
    }

    /// What the caller is to do in this state.
    pub fn command(&self) -> (command: Command)
        ensures
            command == command_in(*self),
    {
        match self.phase {
            Phase::Opening | Phase::Restarting => Command::Open,
            Phase::Listening => Command::Poll,
            Phase::Idle | Phase::Unusable => Command::Stop,
        }
    }

    /// Takes note of `event` and says what to do about it.
    pub fn step(&mut self, event: Event) -> (step: Step)
        ensures
            *final(self) == after(*old(self), event.tag()),
            step.command == command_in(*final(self)),
            step.status == notice(*old(self), event.tag()),
            step.forward is Some <==> forwards(*old(self), event.tag()),
            step.forward matches Some(data) ==> Some(data@) == event.payload(),
    {
        let mut forward: Option<Vec<u8>> = None;
        let mut status: Option<Status> = None;
        match self.phase {
            Phase::Opening | Phase::Restarting => {
                match event {
                    Event::Opened => {
                        self.phase = Phase::Listening;
                        status = Some(Status::Ready);
                    },
                    Event::OpenFailed => {
                        self.phase = Phase::Unusable;
                    },
                    _ => {},
                }
            },
            Phase::Listening => {
                match event {
                    Event::Packet(data) => {
                        self.has_captured = true;
                        forward = Some(data);
                    },
                    Event::TimedOut => {
                        if !self.has_captured {
                            self.phase = Phase::Idle;
                        }
                    },
                    Event::Failed => {
                        if self.has_captured {
                            self.phase = Phase::Restarting;
                            status = Some(Status::Retrying);
                        } else {
                            self.phase = Phase::Idle;
                        }
                    },
                    _ => {},
                }
            },
            _ => {},
        }
        let command = self.command();
        Step { forward, status, command }
    }
}

/// What holds of every state that a worker can reach: it waits for its
/// first handle or has given up for want of traffic only while nothing was
/// captured, and it restarts only after something was.
pub open spec fn consistent(w: Worker) -> bool {
    &&& w.phase == Phase::Opening ==> !w.has_captured
    &&& w.phase == Phase::Idle ==> !w.has_captured
    &&& w.phase == Phase::Restarting ==> w.has_captured
}

/// Every state that a worker reaches is consistent.
pub proof fn lemma_reachable_consistent(events: Seq<EventKind>)
    ensures
        consistent(after_all(fresh(), events)),
    decreases events.len(),
{
    if events.len() > 0 {
        lemma_reachable_consistent(events.drop_last());
    }
}

proof fn lemma_silent_run(events: Seq<EventKind>)
    requires
        forall|i: int| 0 <= i < events.len() ==> events[i] != EventKind::Packet,
    ensures
        !after_all(fresh(), events).has_captured,
        after_all(fresh(), events).phase != Phase::Restarting,
    decreases events.len(),
{
    if events.len() > 0 {
        lemma_silent_run(events.drop_last());
    }
}

/// A device that never delivers a packet never makes its worker restart:
/// at no point of its life has the worker captured anything or is it
/// restarting.
pub proof fn lemma_silent_device(events: Seq<EventKind>)
    requires
        forall|i: int| 0 <= i < events.len() ==> events[i] != EventKind::Packet,
    ensures
        forall|k: int|
            0 <= k <= events.len() ==> {
                let w = #[trigger] after_all(fresh(), events.take(k));
                !w.has_captured && w.phase != Phase::Restarting
            },
{
    assert forall|k: int| 0 <= k <= events.len() implies {
        let w = #[trigger] after_all(fresh(), events.take(k));
        !w.has_captured && w.phase != Phase::Restarting
    } by {
        lemma_silent_run(events.take(k));
    }
}

/// A worker that has captured nothing ends at its first failed poll, be it
/// a timeout or not, and is told to stop.
pub proof fn lemma_failure_before_capture(w: Worker)
    requires
        w.phase == Phase::Listening,
        !w.has_captured,
    ensures
        after(w, EventKind::TimedOut).phase == Phase::Idle,
        after(w, EventKind::Failed).phase == Phase::Idle,
        notice(w, EventKind::Failed) is None,
        command_in(after(w, EventKind::TimedOut)) == Command::Stop,
        command_in(after(w, EventKind::Failed)) == Command::Stop,
{
}

/// A worker that has captured a packet does not end when a poll fails: it
/// goes to `Restarting`, sends the `Retrying` notice and is told to open the
/// device again. A timeout only makes it poll again.
pub proof fn lemma_failure_after_capture(w: Worker)
    requires
        w.phase == Phase::Listening,
        w.has_captured,
    ensures
        after(w, EventKind::Failed).phase == Phase::Restarting,
        notice(w, EventKind::Failed) == Some(Status::Retrying),
        command_in(after(w, EventKind::Failed)) == Command::Open,
        after(after(w, EventKind::Failed), EventKind::Opened).phase == Phase::Listening,
        after(w, EventKind::TimedOut) == w,
        command_in(after(w, EventKind::TimedOut)) == Command::Poll,
{
}

/// A handle that cannot be opened ends the worker, be it the first handle
/// or a later one, and a worker that has ended stays as it is whatever is
/// reported to it: nothing is tried again.
pub proof fn lemma_open_failure_is_final(w: Worker, event: EventKind)
    ensures
        w.phase == Phase::Opening || w.phase == Phase::Restarting ==> after(w, EventKind::OpenFailed).phase
            == Phase::Unusable,
        command_in(w) == Command::Stop ==> after(w, event) == w && notice(w, event) is None && !forwards(
            w,
            event,
        ),
{
}

/// Once a packet was captured, polling never ends the worker: whatever
/// follows, it has ended only if opening the device failed.
pub proof fn lemma_captured_stays(w: Worker, events: Seq<EventKind>)
    requires
        w.has_captured,
        w.phase == Phase::Listening || w.phase == Phase::Restarting,
    ensures
        after_all(w, events).has_captured,
        after_all(w, events).phase != Phase::Idle,
        after_all(w, events).phase != Phase::Opening,
        after_all(w, events).phase == Phase::Unusable ==> exists|i: int|
            0 <= i < events.len() && events[i] == EventKind::OpenFailed,
    decreases events.len(),
{
    if events.len() > 0 {
        let front = events.drop_last();
        lemma_captured_stays(w, front);
        if after_all(w, events).phase == Phase::Unusable {
            if after_all(w, front).phase == Phase::Unusable {
                let i = choose|i: int| 0 <= i < front.len() && front[i] == EventKind::OpenFailed;
                assert(events[i] == EventKind::OpenFailed);
            } else {
                assert(events[events.len() - 1] == EventKind::OpenFailed);
            }
        }
    }
}

} // verus!
