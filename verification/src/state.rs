//! The state of the one job that may run at a time. The handle of the
//! running process is of whatever type the caller uses for it; nothing here
//! looks inside. The state is meant to sit behind one lock, each operation
//! being one critical section.
use vstd::prelude::*;

verus! {

/// Whether a job is running, the handle of its process while there is one,
/// and the total duration of its input in millionths of a second (0 where it
/// is not known).
pub struct AppState<H> {
    pub running: bool,
    pub child: Option<H>,
    pub total_duration: u64,
}

/// One thing that may happen to the state while a job is running and has not
/// been wound up.
pub enum JobStep<H> {
    /// The handle of a spawned process is stored.
    ChildStored(H),
    /// The handle is taken out, by the monitor or to stop the process.
    ChildTaken,
    /// The total duration is set.
    DurationSet(u64),
    /// The running flag is set.
    RunningSet(bool),
}

/// The state after one step.
pub open spec fn after_step<H>(state: AppState<H>, step: JobStep<H>) -> AppState<H> {
    match step {
        JobStep::ChildStored(child) => AppState { child: Some(child), ..state },
        JobStep::ChildTaken => AppState { child: None, ..state },
        JobStep::DurationSet(micros) => AppState { total_duration: micros, ..state },
        JobStep::RunningSet(value) => AppState { running: value, ..state },
    }
}

/// The state after a run of steps.
pub open spec fn after_steps<H>(state: AppState<H>, steps: Seq<JobStep<H>>) -> AppState<H>
    decreases steps.len(),
{
    if steps.len() == 0 {
        state
    } else {
        after_step(after_steps(state, steps.drop_last()), steps.last())
    }
}

impl<H> AppState<H> {
    /// The state before any job: not running, no handle, duration unknown.
    pub fn new() -> (state: Self)
        ensures
            !state.running,
            state.child is None,
            state.total_duration == 0,
    {
        AppState { running: false, child: None, total_duration: 0 }
    }

    /// Whether a job is running.
    pub fn is_running(&self) -> (r: bool)
        ensures
            r == self.running,
    {
        self.running
    }

    /// Marks a job as running or not.
    pub fn set_running(&mut self, value: bool)
        ensures
            *final(self) == after_step(*old(self), JobStep::RunningSet(value)),
    {
        self.running = value;
    }

    /// Stores the handle of the running process in place of any other.
    pub fn store_child(&mut self, child: H)
        ensures
            *final(self) == after_step(*old(self), JobStep::ChildStored(child)),
    {
        self.child = Some(child);
    }

    /// Takes the handle out, if there is one. The caller then owns it.
    pub fn take_child(&mut self) -> (child: Option<H>)
        ensures
            child == old(self).child,
            *final(self) == after_step(*old(self), JobStep::ChildTaken),
    {
        self.child.take()
    }

    /// Sets the total duration, in millionths of a second.
    pub fn set_total_duration(&mut self, duration: u64)
        ensures
            *final(self) == after_step(*old(self), JobStep::DurationSet(duration)),
    {
        self.total_duration = duration;
    }

    /// The total duration, in millionths of a second.
    pub fn get_total_duration(&self) -> (r: u64)
        ensures
            r == self.total_duration,
    {
        self.total_duration
    }
}

} // verus!
