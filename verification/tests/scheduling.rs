use oskernel::kernel::{
    add_initproc, add_task, exit_current_and_run_next, fork_current, reap_zombie_child,
    run_next_task, suspend_current_and_run_next, write_current_byte, Kernel,
};
use oskernel::task::TaskStatus;

fn image(extra: &[u8]) -> Vec<u8> {
    let mut v = vec![0x7f, 0x45, 0x4c, 0x46];
    v.extend_from_slice(extra);
    v
}

fn booted() -> Kernel {
    let mut k = Kernel::new(7777);
    let img = image(&[1, 2, 3]);
    let pid = add_initproc(&mut k, &img).unwrap();
    assert_eq!(pid, 0);
    k
}

#[test]
fn initproc_is_first_and_ready() {
    let k = booted();
    assert_eq!(k.init_pid, 0);
    let t = k.task_ref(0);
    assert_eq!(t.getpid(), 0);
    assert_eq!(t.inner.get_status(), TaskStatus::Ready);
    assert!(!t.inner.is_zombie());
    assert!(t.inner.parent.is_none());
    assert!(t.inner.children.is_empty());
    assert_eq!(t.inner.exit_code, 0);
    assert_eq!(k.current_task(), None);
}

#[test]
fn run_loop_selects_head_and_marks_running() {
    let mut k = booted();
    assert!(run_next_task(&mut k));
    assert_eq!(k.current_task(), Some(0));
    assert_eq!(k.task_ref(0).inner.get_status(), TaskStatus::Running);
    // with an empty queue and a current task taken, another step does nothing
}

#[test]
fn run_loop_reports_empty_queue() {
    // before any task exists the loop finds nothing and would spin
    let mut empty = Kernel::new(1);
    assert!(!run_next_task(&mut empty));
    assert_eq!(empty.current_task(), None);
    // once the only task is selected, the queue is empty behind it
    let mut k = booted();
    assert!(run_next_task(&mut k));
    suspend_current_and_run_next(&mut k);
    assert!(run_next_task(&mut k));
    assert_eq!(k.current_task(), Some(0));
}

#[test]
fn at_most_one_running_at_any_point() {
    let mut k = booted();
    assert!(run_next_task(&mut k));
    let c1 = fork_current(&mut k);
    add_task(&mut k, c1);
    let c2 = fork_current(&mut k);
    add_task(&mut k, c2);
    let mut running = 0;
    for p in 0..k.tasks.len() {
        if k.tasks[p].is_some() && k.task_ref(p).inner.get_status() == TaskStatus::Running {
            running += 1;
        }
    }
    assert_eq!(running, 1);
    assert_eq!(k.current_task(), Some(0));
}

#[test]
fn fifo_order_two_tasks() {
    let mut k = booted();
    assert!(run_next_task(&mut k));
    let b = fork_current(&mut k);
    add_task(&mut k, b);
    suspend_current_and_run_next(&mut k);
    assert!(run_next_task(&mut k));
    assert_eq!(k.current_task(), Some(b));
    suspend_current_and_run_next(&mut k);
    // the queue is now [0, b]: the run loop dequeues 0 first, then,
    // after 0 suspends, b again — FIFO admission order
    assert!(run_next_task(&mut k));
    assert_eq!(k.current_task(), Some(0));
    suspend_current_and_run_next(&mut k);
    assert!(run_next_task(&mut k));
    assert_eq!(k.current_task(), Some(b));
}

#[test]
fn fork_copies_address_space_deeply() {
    let mut k = booted();
    assert!(run_next_task(&mut k));
    let child = fork_current(&mut k);
    assert_ne!(child, 0);
    // same contents right after the fork
    assert_eq!(k.task_ref(child).inner.memory_set.data, image(&[1, 2, 3]));
    // distinct PID and kernel stack
    assert_ne!(k.task_ref(child).getpid(), k.task_ref(0).getpid());
    assert_ne!(
        k.task_ref(child).kernel_stack.get_top(),
        k.task_ref(0).kernel_stack.get_top()
    );
    // the child is recorded in the parent's children at once
    assert_eq!(k.task_ref(0).inner.children, vec![child]);
    assert_eq!(k.task_ref(child).inner.parent, Some(0));
    // mutating the parent afterwards does not affect the child
    write_current_byte(&mut k, 4, 99);
    assert_eq!(k.read_task_byte(0, 4), 99);
    assert_eq!(k.read_task_byte(child, 4), 1);
    // and the child's writes do not affect the parent
    suspend_current_and_run_next(&mut k);
    add_task(&mut k, child);
    assert!(run_next_task(&mut k));
    assert_eq!(k.current_task(), Some(0));
    suspend_current_and_run_next(&mut k);
    assert!(run_next_task(&mut k));
    assert_eq!(k.current_task(), Some(child));
    write_current_byte(&mut k, 5, 42);
    assert_eq!(k.read_task_byte(child, 5), 42);
    assert_eq!(k.read_task_byte(0, 5), 2);
}

#[test]
fn fork_distinct_tokens() {
    let mut k = booted();
    assert!(run_next_task(&mut k));
    let child = fork_current(&mut k);
    assert_ne!(
        k.task_ref(child).inner.get_user_token(),
        k.task_ref(0).inner.get_user_token()
    );
    assert_eq!(k.current_user_token(), 0);
}

#[test]
fn exit_reparents_children_to_init() {
    let mut k = booted();
    assert!(run_next_task(&mut k));
    // init(0) runs and forks a(1)
    let a = fork_current(&mut k);
    add_task(&mut k, a);
    suspend_current_and_run_next(&mut k);
    assert!(run_next_task(&mut k));
    assert_eq!(k.current_task(), Some(a));
    // a forks c, then exits with code 7
    let c = fork_current(&mut k);
    assert_eq!(k.task_ref(a).inner.children, vec![c]);
    exit_current_and_run_next(&mut k, 7);
    assert!(k.task_ref(a).inner.is_zombie());
    assert_eq!(k.task_ref(a).inner.exit_code, 7);
    assert!(k.task_ref(a).inner.children.is_empty());
    // the orphan now belongs to init, and init's children hold it
    assert_eq!(k.task_ref(c).inner.parent, Some(0));
    assert!(k.task_ref(0).inner.children.contains(&c));
    // the zombie's user data is released at once
    assert!(k.task_ref(a).inner.memory_set.data.is_empty());
}

#[test]
fn reaper_collects_exit_code_then_pid_is_reclaimed() {
    let mut k = booted();
    assert!(run_next_task(&mut k));
    let a = fork_current(&mut k);
    add_task(&mut k, a);
    suspend_current_and_run_next(&mut k);
    assert!(run_next_task(&mut k));
    let c = fork_current(&mut k);
    exit_current_and_run_next(&mut k, 7);
    // init's children are [a, c]; a is the Zombie and is reaped first
    let reaped = reap_zombie_child(&mut k, 0).unwrap();
    assert_eq!(reaped, (a, 7));
    assert!(k.tasks[a].is_none());
    assert!(!k.task_ref(0).inner.children.contains(&a));
    // c is independently schedulable
    assert!(k.task_ref(0).inner.children.contains(&c));
    assert!(run_next_task(&mut k));
    assert_eq!(k.current_task(), Some(0));
    suspend_current_and_run_next(&mut k);
    add_task(&mut k, c);
    assert!(run_next_task(&mut k));
    suspend_current_and_run_next(&mut k);
    assert!(run_next_task(&mut k));
    assert_eq!(k.current_task(), Some(c));
}

#[test]
fn reaper_finds_nothing_without_zombies() {
    let mut k = booted();
    assert!(run_next_task(&mut k));
    let a = fork_current(&mut k);
    add_task(&mut k, a);
    assert_eq!(reap_zombie_child(&mut k, 0), None);
}

#[test]
fn reaped_pid_is_reused() {
    let mut k = booted();
    assert!(run_next_task(&mut k));
    let a = fork_current(&mut k);
    add_task(&mut k, a);
    suspend_current_and_run_next(&mut k);
    assert!(run_next_task(&mut k));
    assert_eq!(k.current_task(), Some(a));
    exit_current_and_run_next(&mut k, 0);
    let (reaped, _) = reap_zombie_child(&mut k, 0).unwrap();
    assert_eq!(reaped, a);
    // the next task takes the freed identifier
    assert!(run_next_task(&mut k));
    let b = fork_current(&mut k);
    assert_eq!(b, a);
}

#[test]
fn exit_code_is_exactly_the_given_value() {
    for code in [0, 1, -1, 12345, i32::MIN, i32::MAX] {
        let mut k = booted();
        assert!(run_next_task(&mut k));
        let a = fork_current(&mut k);
        add_task(&mut k, a);
        suspend_current_and_run_next(&mut k);
        assert!(run_next_task(&mut k));
        exit_current_and_run_next(&mut k, code);
        assert_eq!(k.task_ref(a).inner.exit_code, code);
        assert_eq!(reap_zombie_child(&mut k, 0), Some((a, code)));
    }
}
