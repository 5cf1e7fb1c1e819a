//! The fetch scheduler: decides, one step at a time, which chapter to
//! dispatch next so that the chapters are submitted in index order and no
//! more than the concurrency cap are in flight at once. The caller performs
//! the downloads and reports each completion.

use vstd::prelude::*;

verus! {

/// The largest number of downloads in flight by default.
pub const MAX_PARALLEL: usize = 8;

/// What the caller does next.
#[derive(Debug, Clone, Copy, PartialEq, Eq, Structural)]
pub enum Action {
    /// Start the fetch-then-extract unit for this index.
    Dispatch(usize),
    /// Wait for a unit in flight to complete, then report it.
    Wait,
    /// Every unit was submitted and has completed.
    Done,
}

/// The mathematical state of a scheduler.
pub struct SchedulerState {
    pub total: usize,
    pub cap: usize,
    pub submitted: usize,
    pub completed: usize,
}

/// The number of units in flight.
pub open spec fn in_flight(s: SchedulerState) -> int {
    s.submitted - s.completed
}

/// The cap is at least one, nothing completes before it is submitted,
/// nothing beyond the list is submitted, and the units in flight never
/// exceed the cap.
pub open spec fn well_formed(s: SchedulerState) -> bool {
    &&& s.cap >= 1
    &&& s.completed <= s.submitted <= s.total
    &&& in_flight(s) <= s.cap
}

/// The action that the state calls for: dispatch the next index while there
/// is one and room for it, else wait while anything is in flight, else done.
pub open spec fn decision(s: SchedulerState) -> Action {
    if s.submitted < s.total && in_flight(s) < s.cap {
        Action::Dispatch(s.submitted)
    } else if in_flight(s) > 0 {
        Action::Wait
    } else {
        Action::Done
    }
}

/// The state after the action was handed out: a dispatch counts as
/// submitted.
pub open spec fn after_decision(s: SchedulerState) -> SchedulerState {
    if decision(s) is Dispatch {
        SchedulerState { submitted: (s.submitted + 1) as usize, ..s }
    } else {
        s
    }
}

/// The state after one unit in flight completed.
pub open spec fn after_completion(s: SchedulerState) -> SchedulerState {
    SchedulerState { completed: (s.completed + 1) as usize, ..s }
}

/// The concurrency cap for a machine with `parallelism` execution units:
/// that number, at least 1 and at most [`MAX_PARALLEL`].
pub open spec fn cap_for(parallelism: usize) -> usize {
    if parallelism == 0 {
        1
    } else if parallelism < MAX_PARALLEL {
        parallelism
    } else {
        MAX_PARALLEL
    }
}

/// The concurrency cap for a machine with `parallelism` execution units.
pub fn concurrency_cap(parallelism: usize) -> (k: usize)
    ensures
        k == cap_for(parallelism),
        1 <= k <= MAX_PARALLEL,
{
    if parallelism == 0 {
        1
    } else if parallelism < MAX_PARALLEL {
        parallelism
    } else {
        MAX_PARALLEL
    }
}

/// `num_cpus::get`: the number of CPUs available to this process. It
/// depends on the machine, so nothing is stated of it.
#[verifier::external_body]
fn available_cpus() -> usize {
    num_cpus::get()
}

/// The concurrency cap for this machine. Whatever the machine reports, the
/// cap is at least 1 and at most [`MAX_PARALLEL`].
pub fn default_concurrency() -> (k: usize)
    ensures
        1 <= k <= MAX_PARALLEL,
{
    concurrency_cap(available_cpus())
}

/// A scheduler for `total` chapters with at most `cap` in flight.
#[derive(Debug)]
pub struct FetchScheduler {
    total: usize,
    cap: usize,
    submitted: usize,
    completed: usize,
}

impl View for FetchScheduler {
    type V = SchedulerState;

    closed spec fn view(&self) -> SchedulerState {
        SchedulerState {
            total: self.total,
            cap: self.cap,
            submitted: self.submitted,
            completed: self.completed,
        }
    }
}

impl FetchScheduler {
    /// The invariant of the scheduler.
    pub open spec fn wf(&self) -> bool {
        well_formed(self@)
    }

    /// A scheduler that has submitted nothing yet.
    pub fn new(total: usize, cap: usize) -> (r: Self)
        requires
            cap >= 1,
        ensures
            r.wf(),
            r@ == (SchedulerState { total, cap, submitted: 0, completed: 0 }),
    {
        FetchScheduler { total, cap, submitted: 0, completed: 0 }
    }

    /// The number of units in flight.
    pub fn in_flight(&self) -> (r: usize)
        requires
            self.wf(),
        ensures
            r == in_flight(self@),
            r <= self@.cap,
    {
        self.submitted - self.completed
    }

    /// The number of units submitted so far.
    pub fn submitted(&self) -> (r: usize)
        ensures
            r == self@.submitted,
    {
        self.submitted
    }

    /// The number of units completed so far.
    pub fn completed(&self) -> (r: usize)
        ensures
            r == self@.completed,
    {
        self.completed
    }

    /// Decides the next action. A dispatch names the lowest index not yet
    /// submitted and is only given while fewer than `cap` units are in
    /// flight; `Done` comes exactly when all `total` units have completed.
    pub fn next_action(&mut self) -> (r: Action)
        requires
            old(self).wf(),
        ensures
            final(self).wf(),
            r == decision(old(self)@),
            final(self)@ == after_decision(old(self)@),
            r is Done <==> old(self)@.completed == old(self)@.total,
            r is Dispatch ==> in_flight(final(self)@) <= final(self)@.cap,
    {
        let flying = self.submitted - self.completed;
        if self.submitted < self.total && flying < self.cap {
            let index = self.submitted;
            self.submitted = index + 1;
            Action::Dispatch(index)
        } else if flying > 0 {
            Action::Wait
        } else {
            Action::Done
        }
    }

    /// Records that one unit in flight completed, successfully or not.
    /// Returns `false`, and changes nothing, where none is in flight.
    pub fn complete(&mut self) -> (r: bool)
        requires
            old(self).wf(),
        ensures
            final(self).wf(),
            r == (in_flight(old(self)@) > 0),
            r ==> final(self)@ == after_completion(old(self)@),
            !r ==> final(self)@ == old(self)@,
    {
        if self.submitted > self.completed {
            self.completed = self.completed + 1;
            true
        } else {
            false
        }
    }
}

/// Submission follows the list: from a scheduler that has submitted `n`
/// units, the next dispatch is for index `n`, and after it `n + 1` units are
/// submitted with at most `cap` of them in flight.
pub proof fn lemma_dispatch_in_order(s: SchedulerState)
    requires
        well_formed(s),
        decision(s) is Dispatch,
    ensures
        decision(s) == Action::Dispatch(s.submitted),
        after_decision(s).submitted == s.submitted + 1,
        well_formed(after_decision(s)),
        in_flight(after_decision(s)) <= s.cap,
{
}

/// A completion never stalls the schedule: while chapters remain, the state
/// after a completion calls for a dispatch.
pub proof fn lemma_completion_makes_room(s: SchedulerState)
    requires
        well_formed(s),
        in_flight(s) > 0,
    ensures
        well_formed(after_completion(s)),
        s.submitted < s.total ==> decision(after_completion(s)) == Action::Dispatch(s.submitted),
{
}

} // verus!
