//! The streaming event model, and cancellation.
//!
//! Findings appear as they are discovered, not in a batch at the end, and
//! every long run is cancellable and keeps what it has already measured.
//! Analyses emit these events; the interface applies them as they arrive.

use crate::error::Error;
use crate::finding::{same_finding, Finding};
use crate::text::text_of;
use std::sync::atomic::AtomicBool;
use std::sync::Arc;
use vstd::prelude::*;

verus! {

/// Identifies one long-running piece of work, so the interface can attribute
/// progress and cancel the right thing.
#[derive(Debug, PartialEq, Eq, PartialOrd, Ord, Hash)]
pub struct RunId(pub String);

impl Clone for RunId {
    fn clone(&self) -> (r: Self)
        ensures
            r == *self,
    {
        RunId(self.0.clone())
    }
}

impl RunId {
    /// The identifier, as text.
    pub fn to_string(&self) -> (s: String)
        ensures
            s@ == self.0@,
    {
        text_of(self.0.as_str())
    }
}

/// Everything the engine tells the interface.
///
/// The interface never asks the engine a question and waits for the answer; it
/// applies these as they arrive.
#[derive(Debug, PartialEq, Eq)]
pub enum EngineEvent {
    /// Work has started. `total` is the number of steps where that is known
    /// up front; for a sweep it is the matrix cardinality.
    Started { run: RunId, description: String, total: Option<usize> },
    /// One step finished. `completed` counts steps, not percent; the interface
    /// decides how to render it.
    Progress { run: RunId, completed: usize, message: String },
    /// A finding was discovered. It is already grounded, since a finding cannot
    /// exist otherwise, so the interface renders it without checking.
    Finding { run: RunId, finding: Box<Finding> },
    /// Work finished on its own.
    Finished { run: RunId, summary: String },
    /// The user cancelled. Everything measured so far is kept, and the run can
    /// be resumed.
    Cancelled { run: RunId, completed: usize },
    /// Work failed. The message names the thing that failed.
    Failed { run: RunId, error: String },
}

/// The run an event belongs to.
pub open spec fn event_run(e: EngineEvent) -> RunId {
    match e {
        EngineEvent::Started { run, .. } => run,
        EngineEvent::Progress { run, .. } => run,
        EngineEvent::Finding { run, .. } => run,
        EngineEvent::Finished { run, .. } => run,
        EngineEvent::Cancelled { run, .. } => run,
        EngineEvent::Failed { run, .. } => run,
    }
}

/// Whether an event is the last one for its run.
pub open spec fn terminal(e: EngineEvent) -> bool {
    e is Finished || e is Cancelled || e is Failed
}

/// Two events alike in every field, the finding they carry compared field by
/// field.
pub open spec fn same_event(a: EngineEvent, b: EngineEvent) -> bool {
    match (a, b) {
        (EngineEvent::Finding { run: r1, finding: f1 }, EngineEvent::Finding { run: r2, finding: f2 }) =>
            r1 == r2 && same_finding(*f1, *f2),
        (EngineEvent::Finding { .. }, _) => false,
        (_, EngineEvent::Finding { .. }) => false,
        _ => a == b,
    }
}

impl Clone for EngineEvent {
    fn clone(&self) -> (r: Self)
        ensures
            same_event(r, *self),
    {
        match self {
            EngineEvent::Started { run, description, total } =>
                EngineEvent::Started { run: run.clone(), description: description.clone(), total: *total },
            EngineEvent::Progress { run, completed, message } =>
                EngineEvent::Progress { run: run.clone(), completed: *completed, message: message.clone() },
            EngineEvent::Finding { run, finding } =>
                EngineEvent::Finding { run: run.clone(), finding: Box::new((**finding).clone()) },
            EngineEvent::Finished { run, summary } =>
                EngineEvent::Finished { run: run.clone(), summary: summary.clone() },
            EngineEvent::Cancelled { run, completed } =>
                EngineEvent::Cancelled { run: run.clone(), completed: *completed },
            EngineEvent::Failed { run, error } =>
                EngineEvent::Failed { run: run.clone(), error: error.clone() },
        }
    }
}

impl EngineEvent {
    pub fn run(&self) -> (r: &RunId)
        ensures
            *r == event_run(*self),
    {
        match self {
            EngineEvent::Started { run, .. } => run,
            EngineEvent::Progress { run, .. } => run,
            EngineEvent::Finding { run, .. } => run,
            EngineEvent::Finished { run, .. } => run,
            EngineEvent::Cancelled { run, .. } => run,
            EngineEvent::Failed { run, .. } => run,
        }
    }

    /// Whether this is the last event for its run. The interface stops showing
    /// progress on exactly these.
    pub fn is_terminal(&self) -> (r: bool)
        ensures
            r == terminal(*self),
    {
        match self {
            EngineEvent::Finished { .. } | EngineEvent::Cancelled { .. } | EngineEvent::Failed { .. } => true,
            _ => false,
        }
    }
}

/// Where an analysis sends its events.
///
/// A plain callback rather than a channel, so the engine does not have to
/// agree on an async runtime with the interface.
pub trait EventSink {
    fn emit(&mut self, event: EngineEvent);
}

/// An event sink that drops everything. Used by the headless harness where
/// only the final artifact matters.
pub struct DiscardEvents;

impl EventSink for DiscardEvents {
    fn emit(&mut self, event: EngineEvent) {
    }
}

/// The findings the events in `s` carry, in order.
pub open spec fn carried_findings(s: Seq<EngineEvent>) -> Seq<Finding>
    decreases s.len(),
{
    if s.len() == 0 {
        seq![]
    } else {
        match s.last() {
            EngineEvent::Finding { finding, .. } => carried_findings(s.drop_last()).push(*finding),
            _ => carried_findings(s.drop_last()),
        }
    }
}

/// A sink that keeps every event, for tests and for the eval harness.
#[derive(Debug)]
pub struct RecordedEvents {
    recorded: Vec<EngineEvent>,
}

impl View for RecordedEvents {
    type V = Seq<EngineEvent>;

    closed spec fn view(&self) -> Seq<EngineEvent> {
        self.recorded@
    }
}

impl Default for RecordedEvents {
    fn default() -> (r: Self)
        ensures
            r@ == Seq::<EngineEvent>::empty(),
    {
        RecordedEvents { recorded: Vec::new() }
    }
}

impl RecordedEvents {
    pub fn new() -> (r: Self)
        ensures
            r@ == Seq::<EngineEvent>::empty(),
    {
        RecordedEvents { recorded: Vec::new() }
    }

    /// Every event so far, in the order they were emitted.
    pub fn events(&self) -> (r: Vec<EngineEvent>)
        ensures
            r@.len() == self@.len(),
            forall|i: int| 0 <= i < r@.len() ==> same_event(#[trigger] r@[i], self@[i]),
    {
        let mut r: Vec<EngineEvent> = Vec::new();
        let mut i: usize = 0;
        while i < self.recorded.len()
            invariant
                i <= self.recorded@.len(),
                r@.len() == i,
                forall|j: int| 0 <= j < i ==> same_event(#[trigger] r@[j], self.recorded@[j]),
            decreases self.recorded@.len() - i,
        {
            r.push(self.recorded[i].clone());
            i = i + 1;
        }
        r
    }

    /// The findings among the events so far, in the order they were emitted.
    pub fn findings(&self) -> (r: Vec<Finding>)
        ensures
            r@.len() == carried_findings(self@).len(),
            forall|i: int| 0 <= i < r@.len() ==> same_finding(#[trigger] r@[i], carried_findings(self@)[i]),
    {
        let mut r: Vec<Finding> = Vec::new();
        let mut i: usize = 0;
        while i < self.recorded.len()
            invariant
                i <= self.recorded@.len(),
                r@.len() == carried_findings(self.recorded@.take(i as int)).len(),
                forall|j: int| 0 <= j < r@.len()
                    ==> same_finding(#[trigger] r@[j], carried_findings(self.recorded@.take(i as int))[j]),
            decreases self.recorded@.len() - i,
        {
            let ghost before = carried_findings(self.recorded@.take(i as int));
            assert(self.recorded@.take(i + 1).drop_last() =~= self.recorded@.take(i as int));
            match &self.recorded[i] {
                EngineEvent::Finding { finding, .. } => {
                    r.push((**finding).clone());
                },
                _ => {},
            }
            i = i + 1;
        }
        assert(self.recorded@.take(self.recorded@.len() as int) =~= self.recorded@);
        r
    }
}

impl RecordedEvents {
    /// How many events have been recorded.
    pub fn events_len(&self) -> (n: usize)
        ensures
            n == self@.len(),
    {
        self.recorded.len()
    }

    /// The findings among the events from the `from`th on, in the order they
    /// were emitted.
    pub fn findings_since(&self, from: usize) -> (r: Vec<Finding>)
        requires
            from <= self@.len(),
        ensures
            r@.len() == carried_findings(self@.skip(from as int)).len(),
            forall|i: int| 0 <= i < r@.len() ==> same_finding(#[trigger] r@[i], carried_findings(self@.skip(from as int))[i]),
    {
        let ghost tail = self.recorded@.skip(from as int);
        let mut r: Vec<Finding> = Vec::new();
        let mut i: usize = from;
        while i < self.recorded.len()
            invariant
                from <= i <= self.recorded@.len(),
                tail == self.recorded@.skip(from as int),
                r@.len() == carried_findings(tail.take(i - from)).len(),
                forall|j: int| 0 <= j < r@.len()
                    ==> same_finding(#[trigger] r@[j], carried_findings(tail.take(i - from))[j]),
            decreases self.recorded@.len() - i,
        {
            assert(tail.take(i + 1 - from).drop_last() =~= tail.take(i - from));
            assert(tail.take(i + 1 - from).last() == self.recorded@[i as int]);
            match &self.recorded[i] {
                EngineEvent::Finding { finding, .. } => {
                    r.push((**finding).clone());
                },
                _ => {},
            }
            i = i + 1;
        }
        assert(tail.take(i - from) =~= tail);
        r
    }
}

impl EventSink for RecordedEvents {
    fn emit(&mut self, event: EngineEvent)
        ensures
            final(self)@ == old(self)@.push(event),
    {
        self.recorded.push(event);
    }
}

/// Cooperative cancellation.
///
/// Every long loop checks this between steps. Cancelling never discards what
/// has already been measured: that is the difference between cancelling a
/// sweep and losing an afternoon.
///
/// Every clone shares one flag, so cancelling any clone cancels them all:
/// that is how an interface stops a sweep running on another thread. A read
/// of the flag therefore answers what some holder has done by then, and no
/// contract here says which answer comes back; the loops that read it are
/// verified for either answer.
#[derive(Debug)]
pub struct Cancellation {
    flag: Arc<AtomicBool>,
}

/// `Arc::clone`: another pointer to the same allocation, so the clone is the
/// very same flag.
#[verifier::external_body]
fn share(flag: &Arc<AtomicBool>) -> (r: Arc<AtomicBool>)
    ensures
        r == *flag,
{
    Arc::clone(flag)
}

impl Clone for Cancellation {
    /// Another handle on the same flag.
    fn clone(&self) -> (c: Self)
        ensures
            c == *self,
    {
        Cancellation { flag: share(&self.flag) }
    }
}

impl Default for Cancellation {
    fn default() -> (c: Self) {
        Cancellation::new()
    }
}

impl Cancellation {
    /// A flag nobody has raised yet.
    pub fn new() -> (c: Self) {
        Cancellation { flag: Arc::new(AtomicBool::new(false)) }
    }

    /// Raise the flag, for this handle and every clone of it. It is never
    /// lowered again.
    pub fn cancel(&self) {
        self.flag.store(true, std::sync::atomic::Ordering::SeqCst);
    }

    /// Whether any holder has raised the flag by now.
    pub fn is_cancelled(&self) -> (r: bool) {
        self.flag.load(std::sync::atomic::Ordering::SeqCst)
    }

    /// The form that reads well at the top of a loop body: `Ok` while nobody
    /// has cancelled, and otherwise the cancellation as an error.
    pub fn check(&self) -> (r: Result<(), Error>)
        ensures
            r matches Err(e) ==> e == Error::Cancelled,
    {
        if self.is_cancelled() { Err(Error::Cancelled) } else { Ok(()) }
    }
}

} // verus!
