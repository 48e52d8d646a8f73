//! The session of one download: its phases, the decisions of its run loop
//! and cancellation.

use crate::progress::{
    initial_progress, merged, parse_progress, progress_of, DownloadProgress, ProgressModel,
};
use vstd::prelude::*;

verus! {

/// The phases of a download request.
#[derive(Clone, Copy, Debug, PartialEq, Eq, Structural)]
pub enum Phase {
    Idle,
    FetchingMetadata,
    MetadataReady,
    Downloading,
    Completed,
    Cancelled,
    Failed,
}

/// What moves a request from one phase to the next, up to the download.
#[derive(Clone, Copy, Debug, PartialEq, Eq, Structural)]
pub enum Event {
    /// The request was started.
    Start,
    /// The metadata was derived.
    MetadataObtained,
    /// The metadata could not be had.
    MetadataFailed,
    /// The fetching process runs.
    FetchSpawned,
    /// The fetching process could not be launched.
    SpawnFailed,
}

/// The phase that follows `phase` on `event`. An event that does not
/// belong to the phase changes nothing.
pub open spec fn next_phase(phase: Phase, event: Event) -> Phase {
    match (phase, event) {
        (Phase::Idle, Event::Start) => Phase::FetchingMetadata,
        (Phase::FetchingMetadata, Event::MetadataObtained) => Phase::MetadataReady,
        (Phase::FetchingMetadata, Event::MetadataFailed) => Phase::Failed,
        (Phase::MetadataReady, Event::FetchSpawned) => Phase::Downloading,
        (Phase::MetadataReady, Event::SpawnFailed) => Phase::Failed,
        _ => phase,
    }
}

impl Phase {
    /// Whether the request has ended.
    pub open spec fn is_terminal(self) -> bool {
        self == Phase::Completed || self == Phase::Cancelled || self == Phase::Failed
    }

    /// The phase that follows on `event`.
    pub fn after(self, event: Event) -> (r: Phase)
        ensures
            r == next_phase(self, event),
    {
        match (self, event) {
            (Phase::Idle, Event::Start) => Phase::FetchingMetadata,
            (Phase::FetchingMetadata, Event::MetadataObtained) => Phase::MetadataReady,
            (Phase::FetchingMetadata, Event::MetadataFailed) => Phase::Failed,
            (Phase::MetadataReady, Event::FetchSpawned) => Phase::Downloading,
            (Phase::MetadataReady, Event::SpawnFailed) => Phase::Failed,
            _ => self,
        }
    }
}

/// What a poll of the fetching process found.
#[derive(Clone, Copy, Debug, PartialEq, Eq, Structural)]
pub enum ProcessStatus {
    /// It has not exited.
    Running,
    /// It has exited, with whatever code.
    Exited,
    /// Its state could not be read.
    WaitFailed,
}

/// What the run loop does next.
#[derive(Clone, Copy, Debug, PartialEq, Eq, Structural)]
pub enum LoopAction {
    /// Ask the process to end, then poll again.
    Terminate,
    /// Wait for the next line of output, then poll again.
    ReadLine,
    /// Leave the loop after a cancellation: wait for the process to end,
    /// then remove what it left.
    CleanUp,
    /// Leave the loop: the download is complete.
    Finish,
    /// The session is not downloading: there is nothing to do.
    Nothing,
}

/// The live state of one download.
#[derive(Debug)]
pub struct DownloadProcess {
    pub phase: Phase,
    pub is_playlist: bool,
    pub progress: DownloadProgress,
    pub is_cancelled: bool,
}

/// Mathematical model of a `DownloadProcess`.
pub struct SessionModel {
    pub phase: Phase,
    pub is_playlist: bool,
    pub progress: ProgressModel,
    pub is_cancelled: bool,
}

impl View for DownloadProcess {
    type V = SessionModel;

    open spec fn view(&self) -> SessionModel {
        SessionModel {
            phase: self.phase,
            is_playlist: self.is_playlist,
            progress: self.progress@,
            is_cancelled: self.is_cancelled,
        }
    }
}

/// A process is alive while it runs; one whose state cannot be read counts
/// as gone.
pub open spec fn alive(status: ProcessStatus) -> bool {
    status == ProcessStatus::Running
}

/// The session after a cancel signal.
pub open spec fn cancelled(s: SessionModel) -> SessionModel {
    SessionModel { is_cancelled: true, ..s }
}

/// The session after one turn of the run loop, and what the loop does
/// next. `cancel_requested` says whether the cancel signal was seen set.
pub open spec fn polled(s: SessionModel, status: ProcessStatus, cancel_requested: bool) -> (
    SessionModel,
    LoopAction,
) {
    let stop = s.is_cancelled || cancel_requested;
    if s.phase != Phase::Downloading {
        (s, LoopAction::Nothing)
    } else if alive(status) {
        (
            SessionModel { is_cancelled: stop, ..s },
            if stop {
                LoopAction::Terminate
            } else {
                LoopAction::ReadLine
            },
        )
    } else if stop {
        (SessionModel { is_cancelled: true, phase: Phase::Cancelled, ..s }, LoopAction::CleanUp)
    } else {
        (SessionModel { phase: Phase::Completed, ..s }, LoopAction::Finish)
    }
}

/// The session after a line of output: a progress line replaces the
/// progress, any other line changes nothing.
pub open spec fn with_line(s: SessionModel, line: Seq<char>) -> SessionModel {
    match progress_of(line) {
        Some(fields) => SessionModel { progress: merged(s.progress, fields), ..s },
        None => s,
    }
}

impl DownloadProcess {
    /// The session of a download whose fetching process was just launched.
    pub fn new(id: String, is_playlist: bool) -> (r: DownloadProcess)
        ensures
            r@ == (SessionModel {
                phase: Phase::Downloading,
                is_playlist,
                progress: initial_progress(id@),
                is_cancelled: false,
            }),
            r@.progress.well_formed(),
    {
        DownloadProcess {
            phase: Phase::Downloading,
            is_playlist,
            progress: DownloadProgress::new(id),
            is_cancelled: false,
        }
    }

    /// Whether a poll found the process alive.
    pub fn is_alive(status: ProcessStatus) -> (r: bool)
        ensures
            r == alive(status),
    {
        match status {
            ProcessStatus::Running => true,
            ProcessStatus::Exited => false,
            ProcessStatus::WaitFailed => false,
        }
    }

    /// Records a cancel signal.
    pub fn cancel(&mut self)
        ensures
            final(self)@ == cancelled(old(self)@),
    {
        self.is_cancelled = true;
    }

    /// One turn of the run loop: takes note of the process's state and of
    /// the cancel signal, and decides what the loop does next.
    pub fn run(&mut self, status: ProcessStatus, cancel_requested: bool) -> (r: LoopAction)
        ensures
            (final(self)@, r) == polled(old(self)@, status, cancel_requested),
    {
        if self.phase != Phase::Downloading {
            return LoopAction::Nothing;
        }
        let stop = self.is_cancelled || cancel_requested;
        self.is_cancelled = stop;
        if DownloadProcess::is_alive(status) {
            if stop {
                LoopAction::Terminate
            } else {
                LoopAction::ReadLine
            }
        } else if stop {
            self.phase = Phase::Cancelled;
            LoopAction::CleanUp
        } else {
            self.phase = Phase::Completed;
            LoopAction::Finish
        }
    }

    /// Takes in one line of the process's output. Returns whether the line
    /// reported progress, which is then the session's progress.
    pub fn accept_line(&mut self, line: &str) -> (r: bool)
        ensures
            final(self)@ == with_line(old(self)@, line@),
            r == progress_of(line@) is Some,
            old(self)@.progress.well_formed() ==> final(self)@.progress.well_formed(),
    {
        match parse_progress(line) {
            Some(fields) => {
                self.progress.merge(fields);
                true
            },
            None => false,
        }
    }
}

/// What can happen to a session in its run loop.
pub enum RunEvent {
    /// A turn of the loop: the process's state, and whether the cancel
    /// signal was seen set.
    Poll(ProcessStatus, bool),
    /// A line of output arrived.
    Line(Seq<char>),
}

/// The session after one event of its run loop.
pub open spec fn after_event(s: SessionModel, event: RunEvent) -> SessionModel {
    match event {
        RunEvent::Poll(status, cancel_requested) => polled(s, status, cancel_requested).0,
        RunEvent::Line(line) => with_line(s, line),
    }
}

/// The session after a sequence of events of its run loop.
pub open spec fn after_events(s: SessionModel, events: Seq<RunEvent>) -> SessionModel
    decreases events.len(),
{
    if events.len() == 0 {
        s
    } else {
        after_event(after_events(s, events.drop_last()), events.last())
    }
}

/// The event is a poll that found the process gone.
pub open spec fn finds_process_gone(event: RunEvent) -> bool {
    match event {
        RunEvent::Poll(status, _) => !alive(status),
        RunEvent::Line(_) => false,
    }
}

/// A cancel signal that is repeated has no further effect: the session is
/// the same after two as after one, and a turn of the loop that sees the
/// signal set on a cancelled session does what it does without it.
pub proof fn lemma_cancel_idempotent(s: SessionModel, status: ProcessStatus)
    ensures
        cancelled(cancelled(s)) == cancelled(s),
        polled(cancelled(s), status, true) == polled(cancelled(s), status, false),
{
}

/// While a cancelled download's process lives, every turn of the loop asks
/// it to end and waits for no output; the first turn that finds it gone
/// ends the session as cancelled.
pub proof fn lemma_cancelled_turn(s: SessionModel, status: ProcessStatus, cancel_requested: bool)
    requires
        s.phase == Phase::Downloading,
        s.is_cancelled || cancel_requested,
    ensures
        alive(status) ==> polled(s, status, cancel_requested) == (
            cancelled(s),
            LoopAction::Terminate,
        ),
        !alive(status) ==> polled(s, status, cancel_requested).0.phase == Phase::Cancelled
            && polled(s, status, cancel_requested).1 == LoopAction::CleanUp,
{
}

/// Once a download is cancelled it never completes, however many lines
/// arrive and however often it is polled: it stays cancelled, and is
/// either still downloading or has ended as cancelled. It has ended as
/// cancelled as soon as one poll found the process gone.
pub proof fn lemma_cancelled_never_completes(s: SessionModel, events: Seq<RunEvent>)
    requires
        s.phase == Phase::Downloading,
        s.is_cancelled,
    ensures
        after_events(s, events).is_cancelled,
        after_events(s, events).phase == Phase::Downloading || after_events(s, events).phase
            == Phase::Cancelled,
        (exists|i: int| 0 <= i < events.len() && finds_process_gone(#[trigger] events[i]))
            ==> after_events(s, events).phase == Phase::Cancelled,
        (forall|i: int| 0 <= i < events.len() ==> !finds_process_gone(#[trigger] events[i]))
            ==> after_events(s, events).phase == Phase::Downloading,
    decreases events.len(),
{
    if events.len() > 0 {
        let rest = events.drop_last();
        lemma_cancelled_never_completes(s, rest);
        assert forall|i: int| 0 <= i < rest.len() implies rest[i] == events[i] by {}
        if exists|i: int| 0 <= i < events.len() && finds_process_gone(#[trigger] events[i]) {
            let i = choose|i: int| 0 <= i < events.len() && finds_process_gone(#[trigger] events[i]);
            if i < rest.len() {
                assert(finds_process_gone(rest[i]));
            }
        }
        if forall|i: int| 0 <= i < events.len() ==> !finds_process_gone(#[trigger] events[i]) {
            assert forall|i: int| 0 <= i < rest.len() implies !finds_process_gone(
                #[trigger] rest[i],
            ) by {
                assert(rest[i] == events[i]);
            }
            assert(!finds_process_gone(events[events.len() - 1]));
        }
    }
}

/// The percentage of a session stays between 0 and 100, whatever lines
/// arrive and however often the session is polled.
pub proof fn lemma_progress_stays_in_range(s: SessionModel, events: Seq<RunEvent>)
    requires
        s.progress.well_formed(),
    ensures
        after_events(s, events).progress.well_formed(),
    decreases events.len(),
{
    if events.len() > 0 {
        lemma_progress_stays_in_range(s, events.drop_last());
    }
}

/// A download that is never cancelled completes when its process ends.
pub proof fn lemma_uncancelled_completes(s: SessionModel, status: ProcessStatus)
    requires
        s.phase == Phase::Downloading,
        !s.is_cancelled,
        !alive(status),
    ensures
        polled(s, status, false).0.phase == Phase::Completed,
        polled(s, status, false).1 == LoopAction::Finish,
{
}

} // verus!
