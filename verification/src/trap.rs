//! Trap classification and dispatch.
//!
//! Hardware enters the kernel with a cause register and a faulting-value
//! register; the entry stub (outside this library) saves the user registers
//! into the current task's trap frame and hands the cause here. The
//! dispatcher decides what each cause does to the kernel's state; the caller
//! performs what only hardware or the system-call table can do: running the
//! syscall picked out by a `Syscall` outcome and completing it with
//! `complete_syscall`, rearming the timer on `Preempted`, and printing a
//! diagnostic line and halting on the fatal outcomes. Faults abort the whole
//! kernel rather than only the offending task, as the fatal outcomes say.

use vstd::prelude::*;
use vstd::pervasive::unreached;
use crate::kernel::{suspend_current_and_run_next, with_status, Kernel};
use crate::task::TaskStatus;
use crate::trap_context::TrapContextView;

verus! {

/// The four handled trap causes, and the rest, which are unconditionally
/// fatal.
#[derive(Copy, Clone, PartialEq, Eq, Structural, Debug)]
pub enum TrapCause {
    /// A synchronous system call from user mode.
    UserEnvCall,
    /// A store access fault.
    StoreFault,
    /// A store page fault.
    StorePageFault,
    /// An illegal instruction.
    IllegalInstruction,
    /// The supervisor timer interrupt: the sole preemption source.
    SupervisorTimer,
    /// Any other cause.
    Unknown,
}

/// What the caller must do after a trap was dispatched.
#[derive(Copy, Clone, PartialEq, Eq, Structural, Debug)]
pub enum TrapOutcome {
    /// Run the system-call table on these values, then hand the result to
    /// `complete_syscall`.
    Syscall { syscall_id: usize, arg0: usize, arg1: usize, arg2: usize },
    /// A store or page fault: report the faulting address and instruction,
    /// then halt the kernel.
    FatalFault { stval: usize, sepc: usize },
    /// An illegal instruction: report, then halt the kernel.
    FatalIllegalInstruction,
    /// The current task was suspended and re-enqueued: rearm the timer and
    /// return to the run loop.
    Preempted,
    /// An unsupported cause: report the faulting value, then halt.
    FatalUnknown { stval: usize },
}

/// The saved program counter advanced past the four-byte call instruction,
/// wrapping at the address-space limit as the hardware register does.
pub open spec fn wrap_add4(s: usize) -> usize {
    if s + 4 <= usize::MAX {
        (s + 4) as usize
    } else {
        (s - (usize::MAX - 3)) as usize
    }
}

/// The frame equal to `f` in everything but the saved program counter.
pub open spec fn frame_with_sepc(f: TrapContextView, sepc: usize) -> TrapContextView {
    TrapContextView {
        x: f.x,
        from_user: f.from_user,
        sepc: sepc,
        kernel_satp: f.kernel_satp,
        kernel_sp: f.kernel_sp,
        trap_handler: f.trap_handler,
    }
}

/// The frame equal to `f` in everything but one general-purpose register.
pub open spec fn frame_with_reg(f: TrapContextView, idx: int, value: usize) -> TrapContextView {
    TrapContextView {
        x: f.x.update(idx, value),
        from_user: f.from_user,
        sepc: f.sepc,
        kernel_satp: f.kernel_satp,
        kernel_sp: f.kernel_sp,
        trap_handler: f.trap_handler,
    }
}

/// Classifies a trap taken while the given task was running and dispatches
/// it: a system call advances the saved program counter past the call
/// instruction and picks out the call number (x17) and up to three arguments
/// (x10..x12); the timer interrupt suspends and re-enqueues the current
/// task; faults, illegal instructions and unknown causes change nothing and
/// report a fatal outcome.
pub fn trap_handler(kernel: &mut Kernel, cause: TrapCause, stval: usize) -> (r: TrapOutcome)
    requires
        old(kernel).wf(),
        old(kernel).cur() is Some,
    ensures
        final(kernel).wf(),
        ({
            let t = old(kernel).cur()->0 as int;
            let k0 = *old(kernel);
            let k1 = *final(kernel);
            let f0 = k0.task(t).inner.memory_set.trap_cx@;
            match cause {
                TrapCause::UserEnvCall => {
                    &&& r == (TrapOutcome::Syscall {
                        syscall_id: f0.x[17],
                        arg0: f0.x[10],
                        arg1: f0.x[11],
                        arg2: f0.x[12],
                    })
                    &&& k1.task(t).inner.memory_set.trap_cx@ == frame_with_sepc(
                        f0,
                        wrap_add4(f0.sepc),
                    )
                    &&& k1.cur() == k0.cur()
                    &&& k1.queue() == k0.queue()
                    &&& k1.init_pid == k0.init_pid
                    &&& k1.task(t).inner.task_status == k0.task(t).inner.task_status
                    &&& k1.task(t).inner.memory_set.data@ == k0.task(t).inner.memory_set.data@
                    &&& (forall|a: int| k0.valid(a) && a != t ==> k1.task(a) == k0.task(a)
                        && k1.valid(a))
                },
                TrapCause::StoreFault | TrapCause::StorePageFault => {
                    &&& r == (TrapOutcome::FatalFault { stval, sepc: f0.sepc })
                    &&& k1 == k0
                },
                TrapCause::IllegalInstruction => {
                    &&& r == TrapOutcome::FatalIllegalInstruction
                    &&& k1 == k0
                },
                TrapCause::SupervisorTimer => {
                    &&& r == TrapOutcome::Preempted
                    &&& k1.cur() is None
                    &&& k1.status_of(t) is Ready
                    &&& k1.queue() == k0.queue().push(k0.cur()->0)
                    &&& k1.tasks@ == k0.tasks@.update(
                        t,
                        Some(with_status(k0.task(t), TaskStatus::Ready)),
                    )
                    &&& k1.init_pid == k0.init_pid
                },
                TrapCause::Unknown => {
                    &&& r == (TrapOutcome::FatalUnknown { stval })
                    &&& k1 == k0
                },
            }
        }),
{
    match cause {
        TrapCause::UserEnvCall => {
            let t = kernel.processor.current().unwrap();
            proof {
                assert(old(kernel).valid(t as int));
            }
            let (syscall_id, arg0, arg1, arg2, sepc) = match &kernel.tasks[t] {
                Some(task) => {
                    let cx = task.inner.get_trap_cx();
                    (cx.x[17], cx.x[10], cx.x[11], cx.x[12], cx.sepc)
                }
                None => unreached(),
            };
            let new_sepc = if sepc <= usize::MAX - 4 {
                sepc + 4
            } else {
                sepc - (usize::MAX - 3)
            };
            match &mut kernel.tasks[t] {
                Some(task) => {
                    task.inner.memory_set.trap_cx.sepc = new_sepc;
                }
                None => {}
            }
            proof {
                lemma_trap_frame_update(*old(kernel), *kernel, t as int);
            }
            TrapOutcome::Syscall { syscall_id, arg0, arg1, arg2 }
        }
        TrapCause::StoreFault | TrapCause::StorePageFault => {
            let t = kernel.processor.current().unwrap();
            proof {
                assert(old(kernel).valid(t as int));
            }
            let sepc = match &kernel.tasks[t] {
                Some(task) => task.inner.get_trap_cx().sepc,
                None => unreached(),
            };
            TrapOutcome::FatalFault { stval, sepc }
        }
        TrapCause::IllegalInstruction => TrapOutcome::FatalIllegalInstruction,
        TrapCause::SupervisorTimer => {
            suspend_current_and_run_next(kernel);
            TrapOutcome::Preempted
        }
        TrapCause::Unknown => TrapOutcome::FatalUnknown { stval },
    }
}

/// Writes the system-call table's result back into the return-value register
/// (x10) of the current task's trap frame, completing a `Syscall` outcome.
pub fn complete_syscall(kernel: &mut Kernel, ret: isize)
    requires
        old(kernel).wf(),
        old(kernel).cur() is Some,
    ensures
        final(kernel).wf(),
        final(kernel).cur() == old(kernel).cur(),
        final(kernel).queue() == old(kernel).queue(),
        final(kernel).init_pid == old(kernel).init_pid,
        ({
            let t = old(kernel).cur()->0 as int;
            let k0 = *old(kernel);
            let k1 = *final(kernel);
            &&& k1.task(t).inner.memory_set.trap_cx@ == frame_with_reg(
                k0.task(t).inner.memory_set.trap_cx@,
                10,
                (ret as usize),
            )
            &&& k1.task(t).inner.memory_set.trap_cx@.x[10] == ret as usize
            &&& k1.task(t).inner.memory_set.data@ == k0.task(t).inner.memory_set.data@
            &&& k1.task(t).inner.task_status == k0.task(t).inner.task_status
            &&& (forall|a: int| k0.valid(a) && a != t ==> k1.task(a) == k0.task(a) && k1.valid(a))
        }),
{
    let t = kernel.processor.current().unwrap();
    proof {
        assert(old(kernel).valid(t as int));
    }
    match &mut kernel.tasks[t] {
        Some(task) => {
            task.inner.memory_set.trap_cx.x[10] = ret as usize;
        }
        None => {}
    }
    proof {
        lemma_trap_frame_update(*old(kernel), *kernel, t as int);
        assert(kernel.task(t as int).inner.memory_set.trap_cx@.x =~= old(kernel).task(
            t as int,
        ).inner.memory_set.trap_cx@.x.update(10, ret as usize));
    }
}

/// Stores one user register into the current task's trap frame, as the trap
/// entry stub does when hardware transfers control to the kernel.
pub fn store_user_reg(kernel: &mut Kernel, idx: usize, value: usize)
    requires
        old(kernel).wf(),
        old(kernel).cur() is Some,
        idx < 32,
    ensures
        final(kernel).wf(),
        final(kernel).cur() == old(kernel).cur(),
        final(kernel).queue() == old(kernel).queue(),
        final(kernel).init_pid == old(kernel).init_pid,
        ({
            let t = old(kernel).cur()->0 as int;
            let k0 = *old(kernel);
            let k1 = *final(kernel);
            &&& k1.task(t).inner.memory_set.trap_cx@ == frame_with_reg(
                k0.task(t).inner.memory_set.trap_cx@,
                idx as int,
                value,
            )
            &&& k1.task(t).inner.memory_set.data@ == k0.task(t).inner.memory_set.data@
            &&& k1.task(t).inner.task_status == k0.task(t).inner.task_status
            &&& (forall|a: int| k0.valid(a) && a != t ==> k1.task(a) == k0.task(a) && k1.valid(a))
        }),
{
    let t = kernel.processor.current().unwrap();
    proof {
        assert(old(kernel).valid(t as int));
    }
    match &mut kernel.tasks[t] {
        Some(task) => {
            task.inner.memory_set.trap_cx.x[idx] = value;
        }
        None => {}
    }
    proof {
        lemma_trap_frame_update(*old(kernel), *kernel, t as int);
        assert(kernel.task(t as int).inner.memory_set.trap_cx@.x =~= old(kernel).task(
            t as int,
        ).inner.memory_set.trap_cx@.x.update(idx as int, value));
    }
}

/// Stores the faulting program counter into the current task's trap frame,
/// as the hardware does on trap entry.
pub fn store_user_sepc(kernel: &mut Kernel, value: usize)
    requires
        old(kernel).wf(),
        old(kernel).cur() is Some,
    ensures
        final(kernel).wf(),
        final(kernel).cur() == old(kernel).cur(),
        final(kernel).queue() == old(kernel).queue(),
        final(kernel).init_pid == old(kernel).init_pid,
        ({
            let t = old(kernel).cur()->0 as int;
            let k0 = *old(kernel);
            let k1 = *final(kernel);
            &&& k1.task(t).inner.memory_set.trap_cx@ == frame_with_sepc(
                k0.task(t).inner.memory_set.trap_cx@,
                value,
            )
            &&& k1.task(t).inner.memory_set.data@ == k0.task(t).inner.memory_set.data@
            &&& k1.task(t).inner.task_status == k0.task(t).inner.task_status
            &&& (forall|a: int| k0.valid(a) && a != t ==> k1.task(a) == k0.task(a) && k1.valid(a))
        }),
{
    let t = kernel.processor.current().unwrap();
    proof {
        assert(old(kernel).valid(t as int));
    }
    match &mut kernel.tasks[t] {
        Some(task) => {
            task.inner.memory_set.trap_cx.sepc = value;
        }
        None => {}
    }
    proof {
        lemma_trap_frame_update(*old(kernel), *kernel, t as int);
    }
}

/// A trap-frame-only update of the current task keeps the kernel invariant
/// and leaves every other task untouched.
proof fn lemma_trap_frame_update(k0: Kernel, k1: Kernel, t: int)
    requires
        k0.wf(),
        k0.valid(t),
        k0.cur() == Some(t as usize),
        k1.tasks@ == k0.tasks@.update(t, k1.tasks@[t]),
        k1.valid(t),
        k1.task(t).pid == k0.task(t).pid,
        k1.task(t).kernel_stack == k0.task(t).kernel_stack,
        k1.task(t).inner.trap_cx_ppn == k0.task(t).inner.trap_cx_ppn,
        k1.task(t).inner.base_size == k0.task(t).inner.base_size,
        k1.task(t).inner.task_cx == k0.task(t).inner.task_cx,
        k1.task(t).inner.task_status == k0.task(t).inner.task_status,
        k1.task(t).inner.parent == k0.task(t).inner.parent,
        k1.task(t).inner.children == k0.task(t).inner.children,
        k1.task(t).inner.exit_code == k0.task(t).inner.exit_code,
        k1.task(t).inner.memory_set.token == k0.task(t).inner.memory_set.token,
        k1.task(t).inner.memory_set.data == k0.task(t).inner.memory_set.data,
        k1.task(t).inner.memory_set.trap_cx.wf(),
        k1.manager == k0.manager,
        k1.processor == k0.processor,
        k1.pid_allocator == k0.pid_allocator,
        k1.init_pid == k0.init_pid,
    ensures
        k1.wf(),
        forall|a: int| k0.valid(a) && a != t ==> k1.task(a) == k0.task(a) && k1.valid(a),
{
    assert(k0.status_of(t) is Running);
    crate::kernel::lemma_inner_update_preserves(k0, k1, t);
    assert forall|a: int| k0.valid(a) && a != t implies k1.task(a) == k0.task(a) && k1.valid(
        a,
    ) by {}
}

} // verus!