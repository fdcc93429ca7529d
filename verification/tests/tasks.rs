use oskernel::config::{
    APP_BASE_ADDRESS, KERNEL_STACK_SIZE, PAGE_SIZE, TRAMPOLINE, TRAP_HANDLER_ENTRY,
    TRAP_RETURN_ENTRY, USER_STACK_TOP,
};
use oskernel::context::TaskContext;
use oskernel::manager::TaskManager;
use oskernel::mem::MemorySet;
use oskernel::pid::{KernelStack, PidAllocator};
use oskernel::task::{TaskControlBlock, TaskStatus};

fn image(extra: &[u8]) -> Vec<u8> {
    let mut v = vec![0x7f, 0x45, 0x4c, 0x46];
    v.extend_from_slice(extra);
    v
}

fn build_task(pid: usize, img: &[u8]) -> TaskControlBlock {
    let mut alloc = PidAllocator::new();
    let mut handle = alloc.allocate();
    for _ in 0..pid {
        handle = alloc.allocate();
    }
    let stack = KernelStack::new(&handle);
    TaskControlBlock::new(img, handle, stack, pid, 42)
}

#[test]
fn task_contexts_resume_at_trap_return() {
    let z = TaskContext::zero_init();
    assert_eq!(z.ra, 0);
    assert_eq!(z.sp, 0);
    assert_eq!(z.s, [0; 12]);
    let c = TaskContext::goto_trap_return(0x9000);
    assert_eq!(c.ra, TRAP_RETURN_ENTRY);
    assert_eq!(c.sp, 0x9000);
    assert_eq!(c.s, [0; 12]);
}

#[test]
fn kernel_stacks_hang_below_the_trampoline() {
    let mut alloc = PidAllocator::new();
    let p0 = alloc.allocate();
    let p1 = alloc.allocate();
    let s0 = KernelStack::new(&p0);
    let s1 = KernelStack::new(&p1);
    assert_eq!(s0.get_top(), TRAMPOLINE);
    assert_eq!(s1.get_top(), TRAMPOLINE - (KERNEL_STACK_SIZE + PAGE_SIZE));
    assert_eq!(s1.get_top(), TRAMPOLINE - 12288);
}

#[test]
fn pid_allocator_reuses_most_recent() {
    let mut alloc = PidAllocator::new();
    let p0 = alloc.allocate();
    let p1 = alloc.allocate();
    let p2 = alloc.allocate();
    assert_eq!((p0.0, p1.0, p2.0), (0, 1, 2));
    alloc.release(1);
    alloc.release(0);
    assert_eq!(alloc.allocate().0, 0);
    assert_eq!(alloc.allocate().0, 1);
    assert_eq!(alloc.allocate().0, 3);
}

#[test]
fn new_task_is_ready_with_initialized_frame() {
    let t = build_task(0, &image(&[7, 8]));
    assert_eq!(t.getpid(), 0);
    assert_eq!(t.inner.get_status(), TaskStatus::Ready);
    assert_eq!(t.inner.get_user_token(), 0);
    assert_eq!(t.inner.base_size, USER_STACK_TOP);
    assert!(t.inner.parent.is_none());
    assert!(t.inner.children.is_empty());
    let cx = t.inner.get_trap_cx();
    assert_eq!(cx.sepc, APP_BASE_ADDRESS);
    assert_eq!(cx.x[2], USER_STACK_TOP);
    assert_eq!(cx.kernel_satp, 42);
    assert_eq!(cx.kernel_sp, TRAMPOLINE);
    assert_eq!(cx.trap_handler, TRAP_HANDLER_ENTRY);
    assert_eq!(t.inner.task_cx.ra, TRAP_RETURN_ENTRY);
    assert_eq!(t.inner.task_cx.sp, TRAMPOLINE);
}

#[test]
fn exec_replaces_the_image_in_place() {
    let mut t = build_task(0, &image(&[7, 8]));
    let old_top = t.kernel_stack.get_top();
    t.inner_exclusive_access().exit_code = 3;
    assert_eq!(t.inner.exit_code, 3);
    t.exec(&image(&[1, 1, 2, 3, 5])).unwrap();
    assert_eq!(t.getpid(), 0);
    assert_eq!(t.kernel_stack.get_top(), old_top);
    assert_eq!(t.inner.memory_set.data, image(&[1, 1, 2, 3, 5]));
    let cx = t.inner.get_trap_cx();
    assert_eq!(cx.sepc, APP_BASE_ADDRESS);
    assert_eq!(cx.kernel_sp, old_top);
    // a bad image is rejected and nothing changes
    let before = t.inner.memory_set.data.clone();
    assert!(t.exec(&[0, 1]).is_err());
    assert_eq!(t.inner.memory_set.data, before);
}

#[test]
fn forked_child_differs_only_in_its_kernel_stack() {
    let parent = build_task(0, &image(&[250, 251]));
    let mut alloc = PidAllocator::new();
    let _ = alloc.allocate();
    let handle = alloc.allocate();
    let stack = KernelStack::new(&handle);
    let child = parent.fork(handle, stack, 1);
    assert_eq!(child.getpid(), 1);
    assert_eq!(child.inner.get_status(), TaskStatus::Ready);
    assert_eq!(child.inner.parent, Some(0));
    assert!(child.inner.children.is_empty());
    assert_eq!(child.inner.memory_set.data, parent.inner.memory_set.data);
    let pcx = parent.inner.get_trap_cx();
    let ccx = child.inner.get_trap_cx();
    assert_eq!(ccx.sepc, pcx.sepc);
    assert_eq!(ccx.x, pcx.x);
    assert_ne!(ccx.kernel_sp, pcx.kernel_sp);
    assert_eq!(ccx.kernel_sp, child.kernel_stack.get_top());
}

#[test]
fn ready_queue_is_fifo() {
    let mut m = TaskManager::new();
    assert_eq!(m.fetch(), None);
    m.add(3);
    m.add(1);
    m.add(2);
    assert_eq!(m.len(), 3);
    assert_eq!(m.fetch(), Some(3));
    m.add(9);
    assert_eq!(m.fetch(), Some(1));
    assert_eq!(m.fetch(), Some(2));
    assert_eq!(m.fetch(), Some(9));
    assert_eq!(m.fetch(), None);
}

#[test]
fn memory_copies_are_independent() {
    let (mut a, user_sp, entry) = MemorySet::from_elf(&image(&[10, 20, 30]), 5);
    assert_eq!(user_sp, USER_STACK_TOP);
    assert_eq!(entry, APP_BASE_ADDRESS);
    assert_eq!(a.get_token(), 5);
    let b = MemorySet::from_existing_user(&a, 6);
    assert_eq!(b.get_token(), 6);
    a.write_byte(4, 77);
    assert_eq!(a.read_byte(4), 77);
    assert_eq!(b.read_byte(4), 10);
    a.recycle_data_pages();
    assert!(a.data.is_empty());
    assert_eq!(b.data, image(&[10, 20, 30]));
}
