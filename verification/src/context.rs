//! The saved kernel-level register context of a task or of the scheduler.

use vstd::prelude::*;
use crate::config::TRAP_RETURN_ENTRY;

verus! {

/// The callee-saved register set of a suspended kernel execution context:
/// return address, stack pointer, and the twelve callee-saved registers.
/// The register-level save/restore that fills and consumes these values is a
/// hardware-specific routine outside this library; here the context is plain
/// data carried by the scheduler.
#[derive(Clone, Copy)]
pub struct TaskContext {
    /// Saved return address: where execution resumes on switch-in.
    pub ra: usize,
    /// Saved kernel stack pointer.
    pub sp: usize,
    /// Saved callee-saved registers s0..s11.
    pub s: [usize; 12],
}

impl TaskContext {
    /// A context of all zeroes, used for slots that are never resumed.
    pub fn zero_init() -> (r: TaskContext)
        ensures
            r.ra == 0,
            r.sp == 0,
            forall|i: int| 0 <= i < 12 ==> r.s@[i] == 0,
    {
        TaskContext { ra: 0, sp: 0, s: [0; 12] }
    }

    /// A context that resumes at the trap-return routine on the given kernel
    /// stack, so a fresh task first enters user mode through its trap frame.
    pub fn goto_trap_return(kstack_top: usize) -> (r: TaskContext)
        ensures
            r.ra == TRAP_RETURN_ENTRY,
            r.sp == kstack_top,
            forall|i: int| 0 <= i < 12 ==> r.s@[i] == 0,
    {
        TaskContext { ra: TRAP_RETURN_ENTRY, sp: kstack_top, s: [0; 12] }
    }
}

} // verus!
