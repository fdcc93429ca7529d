use oskernel::config::{APP_BASE_ADDRESS, TRAMPOLINE, USER_STACK_TOP};
use oskernel::kernel::{add_initproc, run_next_task, Kernel};
use oskernel::mem::{check_image, LoadError};
use oskernel::task::TaskStatus;
use oskernel::trap::{
    complete_syscall, store_user_reg, store_user_sepc, trap_handler, TrapCause, TrapOutcome,
};

fn image(extra: &[u8]) -> Vec<u8> {
    let mut v = vec![0x7f, 0x45, 0x4c, 0x46];
    v.extend_from_slice(extra);
    v
}

fn running_kernel() -> Kernel {
    let mut k = Kernel::new(1);
    add_initproc(&mut k, &image(&[9])).unwrap();
    assert!(run_next_task(&mut k));
    k
}

// the system-call table stands outside the kernel core; the tests play it
fn table(id: usize, a0: usize, a1: usize, a2: usize) -> isize {
    (id * 1000 + a0 * 100 + a1 * 10 + a2) as isize
}

#[test]
fn syscall_advances_pc_and_returns_table_result() {
    let mut k = running_kernel();
    store_user_sepc(&mut k, 0x2000);
    store_user_reg(&mut k, 17, 93);
    store_user_reg(&mut k, 10, 4);
    store_user_reg(&mut k, 11, 5);
    store_user_reg(&mut k, 12, 6);
    let out = trap_handler(&mut k, TrapCause::UserEnvCall, 0);
    assert_eq!(
        out,
        TrapOutcome::Syscall { syscall_id: 93, arg0: 4, arg1: 5, arg2: 6 }
    );
    let cx = k.task_ref(0).inner.get_trap_cx();
    assert_eq!(cx.sepc, 0x2004);
    let ret = match out {
        TrapOutcome::Syscall { syscall_id, arg0, arg1, arg2 } => {
            table(syscall_id, arg0, arg1, arg2)
        }
        _ => panic!("not a syscall"),
    };
    complete_syscall(&mut k, ret);
    let cx = k.task_ref(0).inner.get_trap_cx();
    assert_eq!(cx.x[10], 93456);
    // the other argument registers are untouched
    assert_eq!(cx.x[11], 5);
    assert_eq!(cx.x[12], 6);
    assert_eq!(cx.x[17], 93);
}

#[test]
fn syscall_pc_wraps_at_address_space_end() {
    let mut k = running_kernel();
    store_user_sepc(&mut k, usize::MAX - 1);
    trap_handler(&mut k, TrapCause::UserEnvCall, 0);
    assert_eq!(k.task_ref(0).inner.get_trap_cx().sepc, 2);
}

#[test]
fn timer_interrupt_preempts_and_requeues() {
    let mut k = running_kernel();
    assert_eq!(k.task_ref(0).inner.get_status(), TaskStatus::Running);
    let out = trap_handler(&mut k, TrapCause::SupervisorTimer, 0);
    assert_eq!(out, TrapOutcome::Preempted);
    assert_eq!(k.task_ref(0).inner.get_status(), TaskStatus::Ready);
    assert_eq!(k.current_task(), None);
    // the run loop then selects the next Ready task: the same one here
    assert!(run_next_task(&mut k));
    assert_eq!(k.current_task(), Some(0));
    assert_eq!(k.task_ref(0).inner.get_status(), TaskStatus::Running);
}

#[test]
fn store_fault_is_fatal_with_diagnostics() {
    let mut k = running_kernel();
    store_user_sepc(&mut k, 0x1234);
    let out = trap_handler(&mut k, TrapCause::StoreFault, 0xdead);
    assert_eq!(out, TrapOutcome::FatalFault { stval: 0xdead, sepc: 0x1234 });
    let out = trap_handler(&mut k, TrapCause::StorePageFault, 0xbeef);
    assert_eq!(out, TrapOutcome::FatalFault { stval: 0xbeef, sepc: 0x1234 });
}

#[test]
fn illegal_instruction_and_unknown_causes_are_fatal() {
    let mut k = running_kernel();
    assert_eq!(
        trap_handler(&mut k, TrapCause::IllegalInstruction, 0),
        TrapOutcome::FatalIllegalInstruction
    );
    assert_eq!(
        trap_handler(&mut k, TrapCause::Unknown, 77),
        TrapOutcome::FatalUnknown { stval: 77 }
    );
    // fatal outcomes leave the task still selected and Running
    assert_eq!(k.current_task(), Some(0));
}

#[test]
fn initial_frame_points_at_program_entry() {
    let k = running_kernel();
    let cx = k.task_ref(0).inner.get_trap_cx();
    assert_eq!(cx.sepc, APP_BASE_ADDRESS);
    assert_eq!(cx.x[2], USER_STACK_TOP);
    assert_eq!(cx.kernel_satp, 1);
    assert_eq!(cx.kernel_sp, TRAMPOLINE);
    assert!(cx.from_user);
}

#[test]
fn image_check_rejects_short_and_unmagical() {
    assert_eq!(check_image(&[]), Err(LoadError::TooShort));
    assert_eq!(check_image(&[0x7f, 0x45, 0x4c]), Err(LoadError::TooShort));
    assert_eq!(check_image(&[0x7f, 0x45, 0x4c, 0x47]), Err(LoadError::BadMagic));
    assert_eq!(check_image(&[0, 0x45, 0x4c, 0x46]), Err(LoadError::BadMagic));
    assert_eq!(check_image(&[0x7f, 0x45, 0x4c, 0x46]), Ok(()));
}

#[test]
fn bad_image_fails_boot_and_exec() {
    let mut k = Kernel::new(1);
    assert_eq!(add_initproc(&mut k, &[1, 2]), Err(LoadError::TooShort));
    assert_eq!(add_initproc(&mut k, &[1, 2, 3, 4, 5]), Err(LoadError::BadMagic));
    add_initproc(&mut k, &image(&[])).unwrap();
}
