//! The task control block and its lifecycle operations.

use vstd::prelude::*;
use crate::config::{APP_BASE_ADDRESS, MAX_TASKS, TRAP_HANDLER_ENTRY, TRAP_RETURN_ENTRY,
    USER_STACK_TOP};
use crate::context::TaskContext;
use crate::mem::{check_image, loadable, LoadError, MemorySet};
use crate::pid::{kernel_stack_top_spec, KernelStack, PidHandle};
use crate::trap_context::{TrapContext, TrapContextView};

verus! {

/// The scheduling state of a task.
#[derive(Copy, Clone, PartialEq, Eq, Structural, Debug)]
pub enum TaskStatus {
    /// Eligible for selection, waiting in the ready queue or about to enter it.
    Ready,
    /// The one task the processor is executing.
    Running,
    /// Exited, its exit code not yet collected by a reaper.
    Zombie,
}

/// The mutable part of a task's record, reached only under exclusive access.
pub struct TaskControlBlockInner {
    /// Physical page backing the trap frame inside the owning address space.
    pub trap_cx_ppn: usize,
    /// The task's initial user stack top, recording the extent of its image.
    pub base_size: usize,
    /// Saved kernel-level context, used only for switches between kernel
    /// stacks.
    pub task_cx: TaskContext,
    /// The scheduling state.
    pub task_status: TaskStatus,
    /// The address space the task owns exclusively.
    pub memory_set: MemorySet,
    /// Non-owning reference up the process tree: the parent's PID, absent
    /// only for the root task.
    pub parent: Option<usize>,
    /// Owning references down the process tree: the PIDs of the children, in
    /// insertion order.
    pub children: Vec<usize>,
    /// The code passed to exit; meaningful once the status is Zombie.
    pub exit_code: i32,
}

/// The per-task record: immutable identity plus the exclusively accessed
/// inner state.
pub struct TaskControlBlock {
    /// The task's process identifier, held until the task is reaped.
    pub pid: PidHandle,
    /// The kernel stack dedicated to this PID.
    pub kernel_stack: KernelStack,
    /// The mutable inner record.
    pub inner: TaskControlBlockInner,
}

/// A saved context that resumes at the trap-return routine on the given
/// kernel stack top.
pub open spec fn is_goto_trap_return(c: TaskContext, kstack_top: int) -> bool {
    &&& c.ra == TRAP_RETURN_ENTRY
    &&& c.sp == kstack_top
    &&& forall|i: int| 0 <= i < 12 ==> c.s@[i] == 0
}

/// The frame equal to `f` in everything but the kernel stack top.
pub open spec fn frame_with_kernel_sp(f: TrapContextView, kernel_sp: usize) -> TrapContextView {
    TrapContextView {
        x: f.x,
        from_user: f.from_user,
        sepc: f.sepc,
        kernel_satp: f.kernel_satp,
        kernel_sp: kernel_sp,
        trap_handler: f.trap_handler,
    }
}

/// The initial trap frame of a freshly loaded program.
pub open spec fn is_app_init_frame(
    f: TrapContextView,
    kernel_satp: usize,
    kernel_sp: usize,
) -> bool {
    &&& f.x.len() == 32
    &&& f.x[2] == USER_STACK_TOP
    &&& (forall|i: int| 0 <= i < 32 && i != 2 ==> f.x[i] == 0)
    &&& f.from_user
    &&& f.sepc == APP_BASE_ADDRESS
    &&& f.kernel_satp == kernel_satp
    &&& f.kernel_sp == kernel_sp
    &&& f.trap_handler == TRAP_HANDLER_ENTRY
}

impl TaskControlBlock {
    /// The record's internal consistency: the stack belongs to the PID, the
    /// PID is within the allocator's range, the trap frame is complete, and
    /// the recorded trap-frame page is the one of the owned address space.
    pub open spec fn wf(&self) -> bool {
        &&& self.kernel_stack.pid == self.pid.0
        &&& self.pid.0 < MAX_TASKS
        &&& self.inner.memory_set.trap_cx.wf()
        &&& self.inner.trap_cx_ppn == self.inner.memory_set.token
    }

    /// Exclusive access to the mutable inner record. On a single hart the
    /// exclusivity is the borrow itself.
    pub fn inner_exclusive_access(&mut self) -> (r: &mut TaskControlBlockInner)
        ensures
            *r == old(self).inner,
            final(self).inner == *final(r),
            final(self).pid == old(self).pid,
            final(self).kernel_stack == old(self).kernel_stack,
    {
        &mut self.inner
    }

    /// The task's process identifier.
    pub fn getpid(&self) -> (r: usize)
        ensures
            r == self.pid.0,
    {
        self.pid.0
    }

    /// Builds a fresh task from a loadable program image: a new address
    /// space under the given token, the trap frame populated with the
    /// program entry point, user stack top, kernel address-space token,
    /// kernel stack top and trap-handler address, and a saved context that
    /// resumes at trap return. The task is Ready, with no parent, no
    /// children, and exit code zero.
    pub fn new(
        elf_data: &[u8],
        pid_handle: PidHandle,
        kernel_stack: KernelStack,
        token: usize,
        kernel_satp: usize,
    ) -> (r: TaskControlBlock)
        requires
            loadable(elf_data@),
            kernel_stack.pid == pid_handle.0,
            pid_handle.0 < MAX_TASKS,
        ensures
            r.wf(),
            r.pid.0 == pid_handle.0,
            r.kernel_stack == kernel_stack,
            r.inner.task_status is Ready,
            r.inner.parent is None,
            r.inner.children@.len() == 0,
            r.inner.exit_code == 0,
            r.inner.base_size == USER_STACK_TOP,
            r.inner.memory_set.data@ == elf_data@,
            r.inner.memory_set.token == token,
            is_goto_trap_return(r.inner.task_cx, kernel_stack_top_spec(pid_handle.0 as int)),
            is_app_init_frame(
                r.inner.memory_set.trap_cx@,
                kernel_satp,
                (kernel_stack_top_spec(pid_handle.0 as int) as usize),
            ),
    {
        let (mut memory_set, user_sp, entry_point) = MemorySet::from_elf(elf_data, token);
        let trap_cx_ppn = memory_set.trap_context_ppn();
        let kernel_stack_top = kernel_stack.get_top();
        memory_set.trap_cx = TrapContext::app_init_context(
            entry_point,
            user_sp,
            kernel_satp,
            kernel_stack_top,
            TRAP_HANDLER_ENTRY,
        );
        TaskControlBlock {
            pid: pid_handle,
            kernel_stack,
            inner: TaskControlBlockInner {
                trap_cx_ppn,
                base_size: user_sp,
                task_cx: TaskContext::goto_trap_return(kernel_stack_top),
                task_status: TaskStatus::Ready,
                memory_set,
                parent: None,
                children: Vec::new(),
                exit_code: 0,
            },
        }
    }

    /// Replaces the task's program in place: a new address space and a
    /// reinitialized trap frame under the same PID and kernel stack, the
    /// kernel address-space token carried over from the old frame. Fails
    /// exactly when the image is not loadable, leaving the task unchanged.
    pub fn exec(&mut self, elf_data: &[u8]) -> (r: Result<(), LoadError>)
        requires
            old(self).wf(),
        ensures
            final(self).wf(),
            r is Ok <==> loadable(elf_data@),
            r matches Err(e) ==> {
                &&& (e is TooShort <==> elf_data@.len() < 4)
                &&& *final(self) == *old(self)
            },
            r is Ok ==> {
                &&& final(self).pid == old(self).pid
                &&& final(self).kernel_stack == old(self).kernel_stack
                &&& final(self).inner.task_status == old(self).inner.task_status
                &&& final(self).inner.parent == old(self).inner.parent
                &&& final(self).inner.children == old(self).inner.children
                &&& final(self).inner.exit_code == old(self).inner.exit_code
                &&& final(self).inner.task_cx == old(self).inner.task_cx
                &&& final(self).inner.base_size == old(self).inner.base_size
                &&& final(self).inner.memory_set.data@ == elf_data@
                &&& final(self).inner.memory_set.token == old(self).inner.memory_set.token
                &&& is_app_init_frame(
                    final(self).inner.memory_set.trap_cx@,
                    old(self).inner.memory_set.trap_cx@.kernel_satp,
                    (kernel_stack_top_spec(old(self).pid.0 as int) as usize),
                )
            },
    {
        match check_image(elf_data) {
            Err(e) => Err(e),
            Ok(()) => {
                let kernel_satp = self.inner.memory_set.trap_cx.kernel_satp;
                let token = self.inner.memory_set.get_token();
                let (mut memory_set, user_sp, entry_point) = MemorySet::from_elf(
                    elf_data,
                    token,
                );
                let kernel_stack_top = self.kernel_stack.get_top();
                memory_set.trap_cx = TrapContext::app_init_context(
                    entry_point,
                    user_sp,
                    kernel_satp,
                    kernel_stack_top,
                    TRAP_HANDLER_ENTRY,
                );
                self.inner.trap_cx_ppn = memory_set.trap_context_ppn();
                self.inner.memory_set = memory_set;
                Ok(())
            }
        }
    }

    /// Duplicates the task into a child: a deep, independent copy of the
    /// address space under a new token, a fresh PID and kernel stack, a
    /// saved context resuming at trap return, and a trap frame equal to the
    /// parent's in everything but the kernel stack top. The child is Ready,
    /// has no children, and points back to the caller as its parent; the
    /// caller records it among its own children.
    pub fn fork(&self, pid_handle: PidHandle, kernel_stack: KernelStack, token: usize) -> (child:
        TaskControlBlock)
        requires
            self.wf(),
            kernel_stack.pid == pid_handle.0,
            pid_handle.0 < MAX_TASKS,
        ensures
            child.wf(),
            child.pid.0 == pid_handle.0,
            child.kernel_stack == kernel_stack,
            child.inner.task_status is Ready,
            child.inner.parent == Some(self.pid.0),
            child.inner.children@.len() == 0,
            child.inner.exit_code == 0,
            child.inner.base_size == self.inner.base_size,
            child.inner.memory_set.data@ == self.inner.memory_set.data@,
            child.inner.memory_set.token == token,
            is_goto_trap_return(child.inner.task_cx, kernel_stack_top_spec(pid_handle.0 as int)),
            child.inner.memory_set.trap_cx@ == frame_with_kernel_sp(
                self.inner.memory_set.trap_cx@,
                (kernel_stack_top_spec(pid_handle.0 as int) as usize),
            ),
    {
        let mut memory_set = MemorySet::from_existing_user(&self.inner.memory_set, token);
        let trap_cx_ppn = memory_set.trap_context_ppn();
        let kernel_stack_top = kernel_stack.get_top();
        memory_set.trap_cx.kernel_sp = kernel_stack_top;
        TaskControlBlock {
            pid: pid_handle,
            kernel_stack,
            inner: TaskControlBlockInner {
                trap_cx_ppn,
                base_size: self.inner.base_size,
                task_cx: TaskContext::goto_trap_return(kernel_stack_top),
                task_status: TaskStatus::Ready,
                memory_set,
                parent: Some(self.pid.0),
                children: Vec::new(),
                exit_code: 0,
            },
        }
    }
}

impl TaskControlBlockInner {
    /// The trap frame inside the task's address space.
    pub fn get_trap_cx(&self) -> (r: &TrapContext)
        ensures
            r@ == self.memory_set.trap_cx@,
    {
        &self.memory_set.trap_cx
    }

    /// The activation token of the task's address space.
    pub fn get_user_token(&self) -> (r: usize)
        ensures
            r == self.memory_set.token,
    {
        self.memory_set.get_token()
    }

    /// The task's scheduling state.
    pub fn get_status(&self) -> (r: TaskStatus)
        ensures
            r == self.task_status,
    {
        self.task_status
    }

    /// Whether the task has exited and awaits a reaper.
    pub fn is_zombie(&self) -> (r: bool)
        ensures
            r == (self.task_status is Zombie),
    {
        self.get_status() == TaskStatus::Zombie
    }
}

} // verus!
