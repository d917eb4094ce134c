//! Scheduling: the per-feed worker that runs one cycle per tick and gives
//! up after repeated failures, the supervisor's reaction to events, and the
//! notices mailed to the user.
use vstd::prelude::*;
use crate::store::Item;
use crate::text::{decimal, push_decimal};

verus! {

/// Consecutive failed cycles after which a worker stops for good.
pub const MAX_FAILURES: u8 = 3;

/// What a worker does after a cycle.
#[derive(Clone, Copy, Debug, PartialEq, Eq, Structural)]
pub enum WorkerStep {
    /// Wait for the next tick.
    Continue,
    /// Too many failures in a row: notify and stop, taking the other
    /// workers down.
    Fatal,
}

/// The state of one feed's worker.
pub struct FeedWorker {
    failures: u8,
    in_flight: bool,
    stopped: bool,
}

impl FeedWorker {
    /// Consecutive failed cycles so far.
    pub closed spec fn failure_count(&self) -> nat {
        self.failures as nat
    }

    /// Whether a cycle is running.
    pub closed spec fn running(&self) -> bool {
        self.in_flight
    }

    /// Whether the worker has stopped.
    pub closed spec fn halted(&self) -> bool {
        self.stopped
    }

    pub closed spec fn wf(&self) -> bool {
        self.failures < MAX_FAILURES || self.stopped
    }

    pub fn new() -> (r: FeedWorker)
        ensures
            r.wf(),
            r.failure_count() == 0,
            !r.running(),
            !r.halted(),
    {
        FeedWorker { failures: 0, in_flight: false, stopped: false }
    }

    /// A timer tick: whether to start a cycle now. A cycle starts only when
    /// none is running and the worker has not stopped, so a feed never has
    /// two cycles in flight.
    pub fn on_tick(&mut self) -> (start: bool)
        requires
            old(self).wf(),
        ensures
            final(self).wf(),
            start == (!old(self).running() && !old(self).halted()),
            final(self).running() == (old(self).running() || start),
            final(self).failure_count() == old(self).failure_count(),
            final(self).halted() == old(self).halted(),
    {
        if self.in_flight || self.stopped {
            false
        } else {
            self.in_flight = true;
            true
        }
    }

    /// The end of a cycle: a success clears the failure count, a failure
    /// adds one, and the third failure in a row is fatal.
    pub fn on_cycle_end(&mut self, ok: bool) -> (r: WorkerStep)
        requires
            old(self).wf(),
            old(self).running(),
            !old(self).halted(),
        ensures
            final(self).wf(),
            !final(self).running(),
            ok ==> r == WorkerStep::Continue && final(self).failure_count() == 0
                && !final(self).halted(),
            !ok ==> final(self).failure_count() == old(self).failure_count() + 1,
            !ok ==> (r == WorkerStep::Fatal <==> old(self).failure_count() + 1 == MAX_FAILURES),
            final(self).halted() <==> r == WorkerStep::Fatal,
    {
        self.in_flight = false;
        if ok {
            self.failures = 0;
            WorkerStep::Continue
        } else {
            self.failures = self.failures + 1;
            if self.failures == MAX_FAILURES {
                self.stopped = true;
                WorkerStep::Fatal
            } else {
                WorkerStep::Continue
            }
        }
    }

    /// The shutdown signal: no further cycle starts.
    pub fn on_shutdown(&mut self)
        requires
            old(self).wf(),
        ensures
            final(self).wf(),
            final(self).halted(),
            final(self).running() == old(self).running(),
            final(self).failure_count() == old(self).failure_count(),
    {
        self.stopped = true;
    }
}

/// What the supervisor hears about.
#[derive(Clone, Copy, Debug, PartialEq, Eq, Structural)]
pub enum SupervisorEvent {
    /// The configuration file changed (after debouncing).
    ConfigChanged,
    /// An interrupt or termination signal arrived.
    Signal,
    /// A worker stopped after too many failures.
    WorkerFatal,
}

/// What the supervisor does about it.
#[derive(Clone, Copy, Debug, PartialEq, Eq, Structural)]
pub enum SupervisorAction {
    /// Stop the workers, load the configuration again and relaunch.
    Reload,
    /// Stop the workers and exit cleanly.
    Exit,
    /// Stop the workers and exit with an error.
    Fail,
}

pub fn on_event(e: SupervisorEvent) -> (r: SupervisorAction)
    ensures
        r == match e {
            SupervisorEvent::ConfigChanged => SupervisorAction::Reload,
            SupervisorEvent::Signal => SupervisorAction::Exit,
            SupervisorEvent::WorkerFatal => SupervisorAction::Fail,
        },
{
    match e {
        SupervisorEvent::ConfigChanged => SupervisorAction::Reload,
        SupervisorEvent::Signal => SupervisorAction::Exit,
        SupervisorEvent::WorkerFatal => SupervisorAction::Fail,
    }
}

/// Collapses bursts of file-change notifications: a reload is due once no
/// further change has come for a whole window.
pub struct Debouncer {
    pub window_ms: u64,
    pub pending_since: Option<u64>,
}

impl Debouncer {
    pub fn new(window_ms: u64) -> (r: Debouncer)
        ensures
            r.window_ms == window_ms,
            r.pending_since is None,
    {
        Debouncer { window_ms, pending_since: None }
    }

    /// A change notification at `now_ms`; the window starts over.
    pub fn on_change(&mut self, now_ms: u64)
        ensures
            final(self).window_ms == old(self).window_ms,
            final(self).pending_since == Some(now_ms),
    {
        self.pending_since = Some(now_ms);
    }

    /// Whether a reload is due at `now_ms`; a due reload clears the pending
    /// change, so one burst gives one reload.
    pub fn poll(&mut self, now_ms: u64) -> (due: bool)
        ensures
            final(self).window_ms == old(self).window_ms,
            due == (old(self).pending_since matches Some(t) && now_ms >= t && now_ms - t
                >= old(self).window_ms),
            due ==> final(self).pending_since is None,
            !due ==> final(self).pending_since == old(self).pending_since,
    {
        match self.pending_since {
            Some(t) => {
                if now_ms >= t && now_ms - t >= self.window_ms {
                    self.pending_since = None;
                    true
                } else {
                    false
                }
            },
            None => false,
        }
    }
}

/// A mail to the user.
pub struct Notice {
    pub subject: String,
    pub body: String,
}

/// One line per item, `- {title}`, separated by newlines.
pub open spec fn bullet_lines(items: Seq<Item>) -> Seq<char>
    decreases items.len(),
{
    if items.len() == 0 {
        Seq::empty()
    } else if items.len() == 1 {
        "- "@ + items[0].title@
    } else {
        bullet_lines(items.drop_last()) + "\n- "@ + items.last().title@
    }
}

pub open spec fn addition_subject(feed: Seq<char>, n: nat) -> Seq<char> {
    "RSS feed "@ + feed + ": "@ + decimal(n) + " added"@
}

/// The notice for a cycle that added items; none when it added nothing.
pub fn addition_notice(feed: &str, added: &Vec<Item>) -> (r: Option<Notice>)
    ensures
        r is None <==> added@.len() == 0,
        r matches Some(n) ==> n.subject@ == addition_subject(feed@, added@.len())
            && n.body@ == bullet_lines(added@),
{
    if added.len() == 0 {
        return None;
    }
    let mut subject = String::from_str("RSS feed ");
    subject.append(feed);
    subject.append(": ");
    push_decimal(&mut subject, added.len() as u64);
    subject.append(" added");
    let mut body = String::from_str("- ");
    body.append(added[0].title.as_str());
    assert(added@.subrange(0, 1).drop_last() =~= Seq::<Item>::empty());
    assert(body@ == bullet_lines(added@.subrange(0, 1)));
    let mut i: usize = 1;
    while i < added.len()
        invariant
            1 <= i <= added@.len(),
            body@ == bullet_lines(added@.subrange(0, i as int)),
        decreases added.len() - i,
    {
        body.append("\n- ");
        body.append(added[i].title.as_str());
        assert(added@.subrange(0, i + 1).drop_last() =~= added@.subrange(0, i as int));
        i = i + 1;
    }
    assert(added@.subrange(0, i as int) =~= added@);
    assert(subject@ =~= addition_subject(feed@, added@.len()));
    Some(Notice { subject, body })
}

pub open spec fn failure_subject(feed: Seq<char>, error: Seq<char>) -> Seq<char> {
    "RSS feed "@ + feed + " failed: "@ + error
}

/// The notice sent when a feed fails too many times in a row.
pub fn failure_notice(feed: &str, error: &str) -> (r: Notice)
    ensures
        r.subject@ == failure_subject(feed@, error@),
        r.body@ == "Error:\n"@ + error@,
{
    let mut subject = String::from_str("RSS feed ");
    subject.append(feed);
    subject.append(" failed: ");
    subject.append(error);
    let mut body = String::from_str("Error:\n");
    body.append(error);
    Notice { subject, body }
}

} // verus!
