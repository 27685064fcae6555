use vstd::prelude::*;

use crate::file_monitor::{has_been_modified, modified_after, Timestamp};
use crate::lua_desanitizer::{desanitize, desanitized};

verus! {

/// Seconds between two checks of the watched file.
pub const FILE_POLLING_TIME_SECS: u64 = 1;

/// Seconds to wait before looking for the watched file again when no
/// candidate path was found.
pub const DIRECTORY_POLLING_TIME_SECS: u64 = 600;

/// Where the coordinator stands in its cycle.
#[derive(Clone, Copy, Debug, PartialEq, Eq, Structural)]
pub enum Phase {
    /// No file to watch yet: waiting for candidate paths.
    Locating,
    /// Waiting out the poll interval, or for a stop signal.
    Idle,
    /// Waiting for the watched file's modification time.
    Checking,
    /// Waiting for the watched file's contents.
    Reading,
    /// Waiting for the rewritten contents to be written.
    Writing,
    /// Waiting for the clock, read after a successful write.
    Recording,
    /// Stopped for good.
    Stopped,
}

/// The decisions of the watch loop. It owns the reference timestamp and the
/// path of the watched file; whoever runs it performs each returned
/// [`Action`] and hands back what came of it as an [`Event`].
pub struct Coordinator {
    pub phase: Phase,
    /// The last modification time this program produced itself, or the
    /// epoch before its first write.
    pub reference: Timestamp,
    /// The watched file, once one was found.
    pub target: Option<String>,
    /// Seconds between two checks of the watched file.
    pub poll_secs: u64,
}

/// What happened since the last action.
pub enum Event {
    /// The candidate paths of the watched file; only the first is watched.
    PathsFound(Vec<String>),
    /// The back-off after finding no candidate has passed.
    BackoffElapsed,
    /// A request to stop.
    StopSignal,
    /// The poll interval passed without a stop signal.
    PollTimeout,
    /// The watched file's modification time, or `None` if it could not be read.
    LastModified(Option<Timestamp>),
    /// The watched file's contents, or `None` if it could not be read. A
    /// failed read is not fatal: the cycle ends with the reference unchanged,
    /// so the next poll tries again.
    ContentRead(Option<String>),
    /// Whether writing the rewritten contents succeeded. After a failure the
    /// reference stays as it was, so the next poll tries again.
    WriteFinished(bool),
    /// The current time.
    ClockRead(Timestamp),
}

/// What to do next.
#[derive(Debug)]
pub enum Action {
    /// Look up the candidate paths of the watched file.
    FindPaths,
    /// Sleep this many seconds, then report that the back-off has passed.
    Sleep(u64),
    /// Wait up to this many seconds for a stop signal.
    WaitForStop(u64),
    /// Read the modification time of the file at this path.
    CheckModified(String),
    /// Read the contents of the file at this path.
    ReadFile(String),
    /// Overwrite the file at the first path with the second argument.
    WriteFile(String, String),
    /// Read the current time.
    ReadClock,
    /// Report that the loop has stopped, and leave it.
    Stop,
}

/// The coordinator as plain values.
pub struct CoordinatorView {
    pub phase: Phase,
    pub reference: Timestamp,
    pub target: Option<Seq<char>>,
    pub poll_secs: u64,
}

/// An event as plain values.
pub enum EventView {
    PathsFound(Seq<Seq<char>>),
    BackoffElapsed,
    StopSignal,
    PollTimeout,
    LastModified(Option<Timestamp>),
    ContentRead(Option<Seq<char>>),
    WriteFinished(bool),
    ClockRead(Timestamp),
}

/// An action as plain values.
pub enum ActionView {
    FindPaths,
    Sleep(u64),
    WaitForStop(u64),
    CheckModified(Seq<char>),
    ReadFile(Seq<char>),
    WriteFile(Seq<char>, Seq<char>),
    ReadClock,
    Stop,
}

/// An optional string as its characters.
pub open spec fn option_string_view(o: Option<String>) -> Option<Seq<char>> {
    match o {
        Some(s) => Some(s@),
        None => None,
    }
}

impl View for Coordinator {
    type V = CoordinatorView;

    open spec fn view(&self) -> CoordinatorView {
        CoordinatorView {
            phase: self.phase,
            reference: self.reference,
            target: option_string_view(self.target),
            poll_secs: self.poll_secs,
        }
    }
}

impl View for Event {
    type V = EventView;

    open spec fn view(&self) -> EventView {
        match self {
            Event::PathsFound(v) => EventView::PathsFound(v@.map_values(|s: String| s@)),
            Event::BackoffElapsed => EventView::BackoffElapsed,
            Event::StopSignal => EventView::StopSignal,
            Event::PollTimeout => EventView::PollTimeout,
            Event::LastModified(m) => EventView::LastModified(*m),
            Event::ContentRead(c) => EventView::ContentRead(option_string_view(*c)),
            Event::WriteFinished(ok) => EventView::WriteFinished(*ok),
            Event::ClockRead(t) => EventView::ClockRead(*t),
        }
    }
}

impl View for Action {
    type V = ActionView;

    open spec fn view(&self) -> ActionView {
        match self {
            Action::FindPaths => ActionView::FindPaths,
            Action::Sleep(s) => ActionView::Sleep(*s),
            Action::WaitForStop(s) => ActionView::WaitForStop(*s),
            Action::CheckModified(p) => ActionView::CheckModified(p@),
            Action::ReadFile(p) => ActionView::ReadFile(p@),
            Action::WriteFile(p, c) => ActionView::WriteFile(p@, c@),
            Action::ReadClock => ActionView::ReadClock,
            Action::Stop => ActionView::Stop,
        }
    }
}

/// Every phase of a cycle on the watched file has a file to work on.
pub open spec fn well_formed(s: CoordinatorView) -> bool {
    s.phase != Phase::Locating && s.phase != Phase::Stopped ==> s.target is Some
}

/// Back to waiting for the next poll, with everything else kept.
pub open spec fn to_idle(s: CoordinatorView) -> (CoordinatorView, ActionView) {
    (CoordinatorView { phase: Phase::Idle, ..s }, ActionView::WaitForStop(s.poll_secs))
}

/// An event that does not answer the pending action abandons the cycle.
pub open spec fn abandon(s: CoordinatorView) -> (CoordinatorView, ActionView) {
    if s.target is Some {
        to_idle(s)
    } else {
        (CoordinatorView { phase: Phase::Locating, ..s }, ActionView::FindPaths)
    }
}

/// One step of the watch loop: the next state and the action to perform.
pub open spec fn transition(s: CoordinatorView, e: EventView) -> (CoordinatorView, ActionView) {
    if s.phase == Phase::Stopped || e is StopSignal {
        (CoordinatorView { phase: Phase::Stopped, ..s }, ActionView::Stop)
    } else {
        match e {
            EventView::PathsFound(paths) => if s.phase == Phase::Locating {
                if paths.len() == 0 {
                    (s, ActionView::Sleep(DIRECTORY_POLLING_TIME_SECS))
                } else {
                    to_idle(CoordinatorView { target: Some(paths[0]), ..s })
                }
            } else {
                abandon(s)
            },
            EventView::BackoffElapsed => if s.phase == Phase::Locating {
                (s, ActionView::FindPaths)
            } else {
                abandon(s)
            },
            EventView::PollTimeout => if s.phase == Phase::Idle {
                (
                    CoordinatorView { phase: Phase::Checking, ..s },
                    ActionView::CheckModified(s.target->0),
                )
            } else {
                abandon(s)
            },
            EventView::LastModified(m) => if s.phase == Phase::Checking {
                if modified_after(m, s.reference) {
                    (
                        CoordinatorView { phase: Phase::Reading, ..s },
                        ActionView::ReadFile(s.target->0),
                    )
                } else {
                    to_idle(s)
                }
            } else {
                abandon(s)
            },
            EventView::ContentRead(c) => if s.phase == Phase::Reading {
                match c {
                    Some(text) => (
                        CoordinatorView { phase: Phase::Writing, ..s },
                        ActionView::WriteFile(s.target->0, desanitized(text)),
                    ),
                    None => to_idle(s),
                }
            } else {
                abandon(s)
            },
            EventView::WriteFinished(ok) => if s.phase == Phase::Writing {
                if ok {
                    (CoordinatorView { phase: Phase::Recording, ..s }, ActionView::ReadClock)
                } else {
                    to_idle(s)
                }
            } else {
                abandon(s)
            },
            EventView::ClockRead(t) => if s.phase == Phase::Recording {
                to_idle(CoordinatorView { reference: t, ..s })
            } else {
                abandon(s)
            },
            EventView::StopSignal => (s, ActionView::Stop),
        }
    }
}

/// The action that starts a loop run over a coordinator in this state.
pub open spec fn first_action(s: CoordinatorView) -> ActionView {
    if s.target is Some {
        ActionView::WaitForStop(s.poll_secs)
    } else {
        ActionView::FindPaths
    }
}

impl Coordinator {
    /// A coordinator that first has to find the watched file. The reference
    /// starts at the epoch, so the first check after a start always sees the
    /// file as modified.
    pub fn new(poll_secs: u64) -> (r: Coordinator)
        ensures
            r@.phase == Phase::Locating,
            r@.reference.nanos == 0,
            r@.target is None,
            r@.poll_secs == poll_secs,
            well_formed(r@),
    {
        Coordinator { phase: Phase::Locating, reference: Timestamp::epoch(), target: None, poll_secs }
    }

    /// A coordinator that watches the file at `path`, with the reference at
    /// the epoch.
    pub fn watching(path: String, poll_secs: u64) -> (r: Coordinator)
        ensures
            r@.phase == Phase::Idle,
            r@.reference.nanos == 0,
            r@.target == Some(path@),
            r@.poll_secs == poll_secs,
            well_formed(r@),
    {
        Coordinator {
            phase: Phase::Idle,
            reference: Timestamp::epoch(),
            target: Some(path),
            poll_secs,
        }
    }

    /// The action that starts the loop.
    pub fn first_action(&self) -> (r: Action)
        ensures
            r@ == first_action(self@),
    {
        match &self.target {
            Some(_) => Action::WaitForStop(self.poll_secs),
            None => Action::FindPaths,
        }
    }

    fn to_idle(&mut self) -> (r: Action)
        ensures
            (final(self)@, r@) == to_idle(old(self)@),
    {
        self.phase = Phase::Idle;
        Action::WaitForStop(self.poll_secs)
    }

    fn abandon(&mut self) -> (r: Action)
        ensures
            (final(self)@, r@) == abandon(old(self)@),
    {
        match &self.target {
            Some(_) => self.to_idle(),
            None => {
                self.phase = Phase::Locating;
                Action::FindPaths
            },
        }
    }

    /// Takes what came of the last action and decides the next one.
    pub fn step(&mut self, event: Event) -> (r: Action)
        requires
            well_formed(old(self)@),
        ensures
            (final(self)@, r@) == transition(old(self)@, event@),
            well_formed(final(self)@),
    {
        if self.phase == Phase::Stopped {
            return Action::Stop;
        }
        match event {
            Event::StopSignal => {
                self.phase = Phase::Stopped;
                Action::Stop
            },
            Event::PathsFound(paths) => {
                if self.phase != Phase::Locating {
                    return self.abandon();
                }
                if paths.len() == 0 {
                    Action::Sleep(DIRECTORY_POLLING_TIME_SECS)
                } else {
                    self.target = Some(paths[0].clone());
                    self.to_idle()
                }
            },
            Event::BackoffElapsed => {
                if self.phase != Phase::Locating {
                    return self.abandon();
                }
                Action::FindPaths
            },
            Event::PollTimeout => {
                if self.phase != Phase::Idle {
                    return self.abandon();
                }
                match &self.target {
                    Some(path) => {
                        self.phase = Phase::Checking;
                        Action::CheckModified(path.clone())
                    },
                    None => self.abandon(),
                }
            },
            Event::LastModified(m) => {
                if self.phase != Phase::Checking {
                    return self.abandon();
                }
                if !has_been_modified(m, self.reference) {
                    return self.to_idle();
                }
                match &self.target {
                    Some(path) => {
                        self.phase = Phase::Reading;
                        Action::ReadFile(path.clone())
                    },
                    None => self.abandon(),
                }
            },
            Event::ContentRead(content) => {
                if self.phase != Phase::Reading {
                    return self.abandon();
                }
                match (content, &self.target) {
                    (Some(text), Some(path)) => {
                        self.phase = Phase::Writing;
                        Action::WriteFile(path.clone(), desanitize(text.as_str()))
                    },
                    _ => self.to_idle(),
                }
            },
            Event::WriteFinished(ok) => {
                if self.phase != Phase::Writing {
                    return self.abandon();
                }
                if ok {
                    self.phase = Phase::Recording;
                    Action::ReadClock
                } else {
                    self.to_idle()
                }
            },
            Event::ClockRead(t) => {
                if self.phase != Phase::Recording {
                    return self.abandon();
                }
                self.reference = t;
                self.to_idle()
            },
        }
    }
}

/// The program's own write is not taken for an outside change. Once the
/// clock reading taken after a successful write is recorded, the next poll
/// finds the file unmodified as long as its modification time is no later
/// than that reading, and modified as soon as it is later: the next poll
/// then reads the file again.
pub proof fn lemma_own_write_not_detected(s: CoordinatorView, now: Timestamp, mtime: Timestamp)
    requires
        well_formed(s),
        s.phase == Phase::Recording,
    ensures
        ({
            let (recorded, _) = transition(s, EventView::ClockRead(now));
            let (checking, _) = transition(recorded, EventView::PollTimeout);
            let (after, action) = transition(checking, EventView::LastModified(Some(mtime)));
            &&& recorded.reference == now
            &&& modified_after(Some(mtime), recorded.reference) <==> mtime.nanos > now.nanos
            &&& mtime.nanos <= now.nanos ==> action == ActionView::WaitForStop(s.poll_secs)
                && after == recorded
            &&& mtime.nanos > now.nanos ==> action == ActionView::ReadFile(s.target->0)
        }),
{
}

/// A poll that finds the file no newer than the reference does not read or
/// write it, and leaves the reference and the rest of the state as they were.
pub proof fn lemma_unchanged_poll_is_quiet(s: CoordinatorView, mtime: Option<Timestamp>)
    requires
        well_formed(s),
        s.phase == Phase::Idle,
        !modified_after(mtime, s.reference),
    ensures
        ({
            let (checking, first) = transition(s, EventView::PollTimeout);
            let (after, second) = transition(checking, EventView::LastModified(mtime));
            &&& first == ActionView::CheckModified(s.target->0)
            &&& second == ActionView::WaitForStop(s.poll_secs)
            &&& after == s
        }),
{
}

/// Every step keeps the state well formed, and only a recorded clock reading
/// changes the reference.
pub proof fn lemma_reference_changes_only_on_record(s: CoordinatorView, e: EventView)
    requires
        well_formed(s),
    ensures
        well_formed(transition(s, e).0),
        transition(s, e).0.reference != s.reference ==> s.phase == Phase::Recording
            && e == EventView::ClockRead(transition(s, e).0.reference),
{
}

} // verus!
