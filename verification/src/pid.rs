//! PID allocation and the per-PID kernel stack.

use vstd::prelude::*;
use crate::config::{KERNEL_STACK_SIZE, MAX_TASKS, PAGE_SIZE, TRAMPOLINE};

verus! {

/// A process identifier issued by the allocator; released back to it when
/// the owning task is destroyed.
pub struct PidHandle(pub usize);

/// Issues process identifiers: fresh ones in increasing order, or ones
/// returned earlier, most recently returned first.
pub struct PidAllocator {
    /// The next identifier never yet issued.
    pub current: usize,
    /// Identifiers returned by destroyed tasks, available for reuse.
    pub recycled: Vec<usize>,
}

impl PidAllocator {
    /// Every recycled identifier was issued before and appears once.
    pub open spec fn wf(&self) -> bool {
        &&& forall|i: int| 0 <= i < self.recycled@.len() ==> self.recycled@[i] < self.current
        &&& self.recycled@.no_duplicates()
        &&& self.current <= MAX_TASKS
    }

    pub fn new() -> (r: PidAllocator)
        ensures
            r.wf(),
            r.current == 0,
            r.recycled@.len() == 0,
    {
        PidAllocator { current: 0, recycled: Vec::new() }
    }

    /// Issues an identifier: the most recently recycled one if any, else the
    /// next fresh one.
    pub fn allocate(&mut self) -> (p: PidHandle)
        requires
            old(self).wf(),
            old(self).current < MAX_TASKS,
        ensures
            final(self).wf(),
            p.0 < final(self).current,
            if old(self).recycled@.len() > 0 {
                &&& p.0 == old(self).recycled@.last()
                &&& final(self).recycled@ == old(self).recycled@.drop_last()
                &&& final(self).current == old(self).current
            } else {
                &&& p.0 == old(self).current
                &&& final(self).recycled@ == old(self).recycled@
                &&& final(self).current == old(self).current + 1
            },
    {
        match self.recycled.pop() {
            Some(pid) => PidHandle(pid),
            None => {
                let pid = self.current;
                self.current = self.current + 1;
                PidHandle(pid)
            }
        }
    }

    /// Returns an issued identifier for reuse.
    pub fn release(&mut self, pid: usize)
        requires
            old(self).wf(),
            pid < old(self).current,
            !old(self).recycled@.contains(pid),
        ensures
            final(self).wf(),
            final(self).recycled@ == old(self).recycled@.push(pid),
            final(self).current == old(self).current,
    {
        self.recycled.push(pid);
    }
}

/// In specifications: the top of the kernel stack belonging to a PID. Stacks
/// hang below the trampoline, one stack and one guard page per PID.
pub open spec fn kernel_stack_top_spec(pid: int) -> int {
    TRAMPOLINE - pid * (KERNEL_STACK_SIZE + PAGE_SIZE)
}

/// The kernel-mode stack region dedicated to one PID.
pub struct KernelStack {
    /// The PID the stack belongs to; fixes the stack's position.
    pub pid: usize,
}

impl KernelStack {
    pub fn new(pid_handle: &PidHandle) -> (r: KernelStack)
        requires
            pid_handle.0 < MAX_TASKS,
        ensures
            r.pid == pid_handle.0,
    {
        KernelStack { pid: pid_handle.0 }
    }

    /// The highest address of this stack, handed to fresh task contexts and
    /// trap frames.
    pub fn get_top(&self) -> (top: usize)
        requires
            self.pid < MAX_TASKS,
        ensures
            top == kernel_stack_top_spec(self.pid as int),
    {
        proof {
            assert((self.pid as int) * ((KERNEL_STACK_SIZE + PAGE_SIZE) as int)
                <= (MAX_TASKS as int) * ((KERNEL_STACK_SIZE + PAGE_SIZE) as int))
                by (nonlinear_arith)
                requires self.pid < MAX_TASKS;
        }
        TRAMPOLINE - self.pid * (KERNEL_STACK_SIZE + PAGE_SIZE)
    }
}

} // verus!
