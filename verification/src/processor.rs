//! The processor abstraction: the current-task slot and the scheduler's own
//! execution context.

use vstd::prelude::*;
use crate::context::TaskContext;

verus! {

/// The single hart's view of scheduling: at most one task is selected at a
/// time, and one reusable context carries the scheduler itself while no task
/// is selected. The register-level transfer between the two is performed by
/// a hardware-specific switch routine outside this library; the kernel
/// functions here state its observable effect on task state.
pub struct Processor {
    /// The PID of the currently selected task, if any.
    pub current: Option<usize>,
    /// Saved context of the scheduling loop, entered whenever a task gives
    /// control back.
    pub idle_task_cx: TaskContext,
}

impl Processor {
    pub fn new() -> (r: Processor)
        ensures
            r.current is None,
    {
        Processor { current: None, idle_task_cx: TaskContext::zero_init() }
    }

    /// Removes and returns ownership of the current-task slot, leaving it
    /// empty, so no other code can observe a half-updated current task.
    pub fn take_current(&mut self) -> (r: Option<usize>)
        ensures
            r == old(self).current,
            final(self).current is None,
            final(self).idle_task_cx == old(self).idle_task_cx,
    {
        self.current.take()
    }

    /// The currently selected task, if any.
    pub fn current(&self) -> (r: Option<usize>)
        ensures
            r == self.current,
    {
        self.current
    }
}

} // verus!
