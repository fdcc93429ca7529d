//! The kernel's process-wide state and the scheduling operations over it.
//!
//! The shared structures a real hart reaches through guarded globals — the
//! task table, the ready queue, the processor slot, the PID allocator — are
//! held together here and initialized once at kernel start; on a single hart
//! the exclusive-access discipline is the one `&mut Kernel` borrow.

use vstd::prelude::*;
use vstd::pervasive::unreached;
use crate::config::MAX_TASKS;
use crate::manager::TaskManager;
use crate::mem::{check_image, loadable, LoadError};
use crate::pid::{kernel_stack_top_spec, KernelStack, PidAllocator};
use crate::processor::Processor;
use crate::task::{frame_with_kernel_sp, TaskControlBlock, TaskControlBlockInner, TaskStatus};

verus! {

/// The process-wide state: every live task, keyed by PID, plus the ready
/// queue, the processor, the PID allocator, and the identity of the init
/// task.
pub struct Kernel {
    /// The task table: slot `p` holds the task with PID `p`, or nothing once
    /// that PID has been reaped and recycled.
    pub tasks: Vec<Option<TaskControlBlock>>,
    /// The ready queue.
    pub manager: TaskManager,
    /// The current-task slot and the scheduler's own context.
    pub processor: Processor,
    /// Issues and recycles PIDs, in step with the task table.
    pub pid_allocator: PidAllocator,
    /// PID of the distinguished init task, the reaper of orphans.
    pub init_pid: usize,
    /// Activation token of the kernel's own address space, recorded in every
    /// trap frame.
    pub kernel_token: usize,
}

/// The same task with another scheduling state.
pub open spec fn with_status(t: TaskControlBlock, st: TaskStatus) -> TaskControlBlock {
    TaskControlBlock {
        inner: TaskControlBlockInner { task_status: st, ..t.inner },
        ..t
    }
}

impl Kernel {
    /// PID `p` names a live task.
    pub open spec fn valid(self, p: int) -> bool {
        0 <= p < self.tasks@.len() && self.tasks@[p] is Some
    }

    /// The task with PID `p`.
    pub open spec fn task(self, p: int) -> TaskControlBlock {
        self.tasks@[p]->0
    }

    /// The scheduling state of the task with PID `p`.
    pub open spec fn status_of(self, p: int) -> TaskStatus {
        self.task(p).inner.task_status
    }

    /// The ready queue's contents, head first.
    pub open spec fn queue(self) -> Seq<usize> {
        self.manager.ready_queue@
    }

    /// The currently selected task.
    pub open spec fn cur(self) -> Option<usize> {
        self.processor.current
    }

    /// The children of task `p`, in insertion order.
    pub open spec fn children_of(self, p: int) -> Seq<usize> {
        self.task(p).inner.children@
    }

    /// The parent of task `p`.
    pub open spec fn parent_of(self, p: int) -> Option<usize> {
        self.task(p).inner.parent
    }

    /// Exactly the selected task is Running: the current slot names a live
    /// task, and a task is Running exactly when it is the one selected.
    pub open spec fn wf_current(self) -> bool {
        &&& (self.cur() matches Some(c) ==> self.valid(c as int))
        &&& (forall|p: int| #[trigger] self.valid(p) ==> ((self.status_of(p) is Running) <==> self.cur() == Some(p as usize)))
    }

    /// The task at position `i` of the ready queue is live and Ready.
    pub open spec fn queue_entry_ok(self, i: int) -> bool {
        &&& self.valid(self.queue()[i] as int)
        &&& self.status_of(self.queue()[i] as int) is Ready
    }

    /// Queued tasks are live and Ready, and no task is queued twice.
    pub open spec fn wf_queue(self) -> bool {
        &&& (forall|i: int| 0 <= i < self.queue().len() ==> #[trigger] self.queue_entry_ok(i))
        &&& self.queue().no_duplicates()
    }

    /// The process tree: children links point down to live tasks whose
    /// parent link points back; parent links stay inside the table and never
    /// at the task itself; the root has no parent; no child is recorded
    /// twice.
    pub open spec fn wf_tree(self) -> bool {
        &&& (forall|p: int, j: int| self.valid(p) && 0 <= j < self.children_of(p).len() ==> {
            &&& self.valid(#[trigger] self.children_of(p)[j] as int)
            &&& self.parent_of(self.children_of(p)[j] as int) == Some(p as usize)
        })
        &&& (forall|p: int| #[trigger] self.valid(p) ==> match self.parent_of(p) {
            Some(q) => q < self.tasks@.len() && q != p,
            None => true,
        })
        &&& (forall|p: int| #[trigger] self.valid(p) ==> self.children_of(p).no_duplicates())
        &&& (self.tasks@.len() > 0 ==> self.valid(self.init_pid as int)
            && self.parent_of(self.init_pid as int) is None
            && !(self.status_of(self.init_pid as int) is Zombie))
    }

    /// Each task record is internally consistent, sits in the slot of its
    /// own PID, and owns the address space whose token is that PID.
    pub open spec fn wf_tasks(self) -> bool {
        forall|p: int| #[trigger] self.valid(p) ==> {
            &&& self.task(p).wf()
            &&& self.task(p).pid.0 == p
            &&& self.task(p).inner.memory_set.token == p
        }
    }

    /// A Zombie has reparented its children and released its user data; only
    /// its identity, exit code and trap frame remain.
    pub open spec fn wf_zombie(self) -> bool {
        forall|p: int| #[trigger] self.valid(p) && self.status_of(p) is Zombie ==> {
            &&& self.children_of(p).len() == 0
            &&& self.task(p).inner.memory_set.data@.len() == 0
        }
    }

    /// The allocator mirrors the table: fresh PIDs continue past the table's
    /// end, and the recycled ones are exactly the empty slots.
    pub open spec fn wf_alloc(self) -> bool {
        &&& self.pid_allocator.wf()
        &&& self.pid_allocator.current == self.tasks@.len()
        &&& (forall|p: int| 0 <= p < self.tasks@.len() ==> ((self.tasks@[p] is None)
            <==> self.pid_allocator.recycled@.contains(#[trigger] (p as usize))))
    }

    /// The kernel's whole invariant.
    pub open spec fn wf(self) -> bool {
        &&& self.wf_current()
        &&& self.wf_queue()
        &&& self.wf_tree()
        &&& self.wf_tasks()
        &&& self.wf_zombie()
        &&& self.wf_alloc()
    }

    /// A kernel with no tasks yet: empty table, empty queue, no task
    /// selected. Start-up order is explicit: the kernel address space exists
    /// first (its token is given here), the init task comes next, and the
    /// run loop begins only after that.
    pub fn new(kernel_token: usize) -> (k: Kernel)
        ensures
            k.wf(),
            k.tasks@.len() == 0,
            k.queue().len() == 0,
            k.cur() is None,
            k.kernel_token == kernel_token,
    {
        Kernel {
            tasks: Vec::new(),
            manager: TaskManager::new(),
            processor: Processor::new(),
            pid_allocator: PidAllocator::new(),
            init_pid: 0,
            kernel_token,
        }
    }

    /// The currently selected task, if any.
    pub fn current_task(&self) -> (r: Option<usize>)
        ensures
            r == self.cur(),
    {
        self.processor.current()
    }

    /// The activation token of the running task's address space.
    pub fn current_user_token(&self) -> (r: usize)
        requires
            self.wf(),
            self.cur() is Some,
        ensures
            r == self.task(self.cur()->0 as int).inner.memory_set.token,
    {
        let p = self.processor.current().unwrap();
        match &self.tasks[p] {
            Some(t) => t.inner.get_user_token(),
            None => unreached(),
        }
    }

    /// Reads one byte of a live task's user memory.
    pub fn read_task_byte(&self, p: usize, offset: usize) -> (r: u8)
        requires
            self.valid(p as int),
            offset < self.task(p as int).inner.memory_set.data@.len(),
        ensures
            r == self.task(p as int).inner.memory_set.data@[offset as int],
    {
        match &self.tasks[p] {
            Some(t) => t.inner.memory_set.read_byte(offset),
            None => unreached(),
        }
    }
}

/// A kernel whose task table, allocator and init identity agree with a
/// well-formed one keeps every part of the invariant that speaks only of
/// those.
proof fn lemma_frame_preserved(k0: Kernel, k1: Kernel)
    requires
        k0.wf_tree(),
        k0.wf_tasks(),
        k0.wf_zombie(),
        k0.wf_alloc(),
        k1.tasks@ == k0.tasks@,
        k1.init_pid == k0.init_pid,
        k1.pid_allocator == k0.pid_allocator,
    ensures
        k1.wf_tree(),
        k1.wf_tasks(),
        k1.wf_zombie(),
        k1.wf_alloc(),
        forall|a: int| k1.valid(a) <==> k0.valid(a),
{
    assert forall|a: int, j: int| k1.valid(a) && 0 <= j < k1.children_of(a).len() implies
        k1.valid(#[trigger] k1.children_of(a)[j] as int)
        && k1.parent_of(k1.children_of(a)[j] as int) == Some(a as usize) by {
        assert(k0.valid(a));
        assert(k0.valid(#[trigger] k0.children_of(a)[j] as int)
            && k0.parent_of(k0.children_of(a)[j] as int) == Some(a as usize));
    }
    assert forall|a: int| #[trigger] k1.valid(a) implies k1.children_of(a).no_duplicates()
        && match k1.parent_of(a) {
            Some(q) => q < k1.tasks@.len() && q != a,
            None => true,
        } && k1.task(a).wf() && k1.task(a).pid.0 == a && k1.task(a).inner.memory_set.token == a
        && (k1.status_of(a) is Zombie ==> k1.children_of(a).len() == 0
            && k1.task(a).inner.memory_set.data@.len() == 0) by {
        assert(k0.valid(a));
    }
    if k1.tasks@.len() > 0 {
        assert(k0.valid(k0.init_pid as int));
        assert(k1.valid(k1.init_pid as int));
    }
    assert forall|a: int| 0 <= a < k1.tasks@.len() implies ((k1.tasks@[a] is None)
        <==> k1.pid_allocator.recycled@.contains(#[trigger] (a as usize))) by {
        assert((k0.tasks@[a] is None) <==> k0.pid_allocator.recycled@.contains(a as usize));
    }
}

/// Changing one live task's scheduling state to Ready or Running, and
/// touching nothing else, preserves every part of the kernel invariant that
/// does not speak of the current slot or the queue.
proof fn lemma_status_update_preserves(k0: Kernel, k1: Kernel, p: int, st: TaskStatus)
    requires
        k0.wf_tree(),
        k0.wf_tasks(),
        k0.wf_zombie(),
        k0.wf_alloc(),
        k0.valid(p),
        !(st is Zombie),
        k1.tasks@ == k0.tasks@.update(p, Some(with_status(k0.task(p), st))),
        k1.init_pid == k0.init_pid,
        k1.pid_allocator == k0.pid_allocator,
    ensures
        k1.wf_tree(),
        k1.wf_tasks(),
        k1.wf_zombie(),
        k1.wf_alloc(),
        forall|a: int| k1.valid(a) <==> k0.valid(a),
        forall|a: int| #[trigger] k1.valid(a) ==> k1.children_of(a) == k0.children_of(a)
            && k1.parent_of(a) == k0.parent_of(a)
            && (a != p ==> k1.task(a) == k0.task(a)),
{
    assert forall|a: int| k1.valid(a) <==> k0.valid(a) by {
        assert(k1.tasks@.len() == k0.tasks@.len());
    }
    assert forall|a: int| #[trigger] k1.valid(a) implies k1.children_of(a) == k0.children_of(a)
        && k1.parent_of(a) == k0.parent_of(a) && (a != p ==> k1.task(a) == k0.task(a)) by {}
    assert forall|a: int, j: int| k1.valid(a) && 0 <= j < k1.children_of(a).len() implies
        k1.valid(#[trigger] k1.children_of(a)[j] as int)
        && k1.parent_of(k1.children_of(a)[j] as int) == Some(a as usize) by {
        assert(k0.valid(a));
        let c = k0.children_of(a)[j];
        assert(k0.valid(#[trigger] k0.children_of(a)[j] as int)
            && k0.parent_of(k0.children_of(a)[j] as int) == Some(a as usize));
    }
    assert forall|a: int| #[trigger] k1.valid(a) implies k1.children_of(a).no_duplicates()
        && match k1.parent_of(a) {
            Some(q) => q < k1.tasks@.len() && q != a,
            None => true,
        } by {
        assert(k0.valid(a));
    }
    assert forall|a: int| #[trigger] k1.valid(a) implies k1.task(a).wf() && k1.task(a).pid.0 == a
        && k1.task(a).inner.memory_set.token == a by {
        assert(k0.valid(a));
    }
    assert forall|a: int| #[trigger] k1.valid(a) && k1.status_of(a) is Zombie implies
        k1.children_of(a).len() == 0 && k1.task(a).inner.memory_set.data@.len() == 0 by {
        assert(k0.valid(a));
        assert(a != p);
    }
    assert forall|a: int| 0 <= a < k1.tasks@.len() implies ((k1.tasks@[a] is None)
        <==> k1.pid_allocator.recycled@.contains(#[trigger] (a as usize))) by {
        assert((k0.tasks@[a] is None) <==> k0.pid_allocator.recycled@.contains(a as usize));
    }
}

/// Creates the init task from its program image and admits it to the ready
/// queue, as the first task of the kernel. Fails exactly when the image is
/// not loadable, leaving the kernel unchanged.
pub fn add_initproc(kernel: &mut Kernel, elf_data: &[u8]) -> (r: Result<usize, LoadError>)
    requires
        old(kernel).wf(),
        old(kernel).tasks@.len() == 0,
        old(kernel).queue().len() == 0,
        old(kernel).cur() is None,
    ensures
        final(kernel).wf(),
        r is Ok <==> loadable(elf_data@),
        r matches Err(e) ==> {
            &&& (e is TooShort <==> elf_data@.len() < 4)
            &&& *final(kernel) == *old(kernel)
        },
        r matches Ok(p) ==> {
            &&& p == 0
            &&& p == final(kernel).init_pid
            &&& final(kernel).valid(p as int)
            &&& final(kernel).status_of(p as int) is Ready
            &&& final(kernel).parent_of(p as int) is None
            &&& final(kernel).children_of(p as int).len() == 0
            &&& final(kernel).task(p as int).inner.memory_set.data@ == elf_data@
            &&& final(kernel).queue() == seq![p]
            &&& final(kernel).cur() is None
        },
{
    match check_image(elf_data) {
        Err(e) => Err(e),
        Ok(()) => {
            let pid_handle = kernel.pid_allocator.allocate();
            let pid = pid_handle.0;
            let kernel_stack = KernelStack::new(&pid_handle);
            let task = TaskControlBlock::new(
                elf_data,
                pid_handle,
                kernel_stack,
                pid,
                kernel.kernel_token,
            );
            kernel.tasks.push(Some(task));
            kernel.init_pid = pid;
            kernel.manager.add(pid);
            proof {
                assert(kernel.queue() =~= seq![pid]);
                assert(kernel.valid(pid as int));
                assert(forall|a: int| kernel.valid(a) ==> a == pid as int);
            }
            Ok(pid)
        }
    }
}

/// Admits a Ready task to the tail of the ready queue.
pub fn add_task(kernel: &mut Kernel, p: usize)
    requires
        old(kernel).wf(),
        old(kernel).valid(p as int),
        old(kernel).status_of(p as int) is Ready,
        !old(kernel).queue().contains(p),
    ensures
        final(kernel).wf(),
        final(kernel).queue() == old(kernel).queue().push(p),
        final(kernel).tasks@ == old(kernel).tasks@,
        final(kernel).cur() == old(kernel).cur(),
        final(kernel).init_pid == old(kernel).init_pid,
{
    kernel.manager.add(p);
    proof {
        let k = *kernel;
        let k0 = *old(kernel);
        let q0 = old(kernel).queue();
        lemma_frame_preserved(k0, k);
        if k0.cur() is Some {
            assert(k0.valid(k0.cur()->0 as int));
        }
        assert forall|a: int| #[trigger] k.valid(a) implies ((k.status_of(a) is Running)
            <==> k.cur() == Some(a as usize)) by {
            assert(k0.valid(a));
        }
        assert forall|i: int| 0 <= i < k.queue().len() implies #[trigger] k.queue_entry_ok(i) by {
            if i < q0.len() {
                assert(k0.queue_entry_ok(i));
            }
        }
        assert forall|i: int, j: int| 0 <= i < k.queue().len() && 0 <= j < k.queue().len() && i != j
            implies k.queue()[i] != k.queue()[j] by {
            if i < q0.len() && j < q0.len() {
                assert(q0[i] != q0[j]);
            } else if j == q0.len() {
                assert(!q0.contains(p));
                assert(q0[i] != p);
            } else {
                assert(!q0.contains(p));
                assert(q0[j] != p);
            }
        }
        assert(k.wf_current());
        assert(k.wf_queue());
        assert(k.wf());
    }
}

/// One iteration of the processor's run loop: with no task selected, pops
/// the head of the ready queue, marks it Running and installs it as current,
/// then switches from the scheduler's context into the task's saved context.
/// With the queue empty it reports so, and the loop spins until an interrupt
/// makes a task ready.
pub fn run_next_task(kernel: &mut Kernel) -> (switched: bool)
    requires
        old(kernel).wf(),
        old(kernel).cur() is None,
    ensures
        final(kernel).wf(),
        switched <==> old(kernel).queue().len() > 0,
        !switched ==> {
            &&& final(kernel).tasks@ == old(kernel).tasks@
            &&& final(kernel).queue() == old(kernel).queue()
            &&& final(kernel).cur() is None
            &&& final(kernel).init_pid == old(kernel).init_pid
        },
        switched ==> {
            &&& final(kernel).cur() == Some(old(kernel).queue()[0])
            &&& final(kernel).status_of(old(kernel).queue()[0] as int) is Running
            &&& final(kernel).queue() == old(kernel).queue().drop_first()
            &&& final(kernel).tasks@ == old(kernel).tasks@.update(
                old(kernel).queue()[0] as int,
                Some(with_status(old(kernel).task(old(kernel).queue()[0] as int), TaskStatus::Running)),
            )
            &&& final(kernel).init_pid == old(kernel).init_pid
        },
{
    match kernel.manager.fetch() {
        None => {
            proof {
                let k = *kernel;
                let k0 = *old(kernel);
                lemma_frame_preserved(k0, k);
                assert forall|a: int| #[trigger] k.valid(a) implies ((k.status_of(a) is Running)
                    <==> k.cur() == Some(a as usize)) by {
                    assert(k0.valid(a));
                }
                assert forall|i: int| 0 <= i < k.queue().len() implies #[trigger] k.queue_entry_ok(
                    i,
                ) by {
                    assert(k0.queue_entry_ok(i));
                }
                assert(k.wf_current());
                assert(k.wf_queue());
                assert(k.wf());
            }
            false
        }
        Some(p) => {
            proof {
                assert(old(kernel).queue_entry_ok(0));
            }
            match &mut kernel.tasks[p] {
                Some(t) => {
                    t.inner.task_status = TaskStatus::Running;
                }
                None => {}
            }
            kernel.processor.current = Some(p);
            proof {
                let k = *kernel;
                let k0 = *old(kernel);
                let q0 = k0.queue();
                assert(k.tasks@ == k0.tasks@.update(
                    p as int,
                    Some(with_status(k0.task(p as int), TaskStatus::Running)),
                ));
                lemma_status_update_preserves(k0, k, p as int, TaskStatus::Running);
                assert forall|a: int| #[trigger] k.valid(a) implies ((k.status_of(a) is Running)
                    <==> k.cur() == Some(a as usize)) by {
                    if a != p as int {
                        assert(k0.valid(a));
                        assert(k.status_of(a) == k0.status_of(a));
                    }
                }
                assert forall|i: int| 0 <= i < k.queue().len() implies #[trigger] k.queue_entry_ok(
                    i,
                ) by {
                    assert(k.queue()[i] == q0[i + 1]);
                    assert(k0.queue_entry_ok(i + 1));
                    assert(q0[i + 1] != q0[0]);
                }
                assert forall|i: int, j: int| 0 <= i < k.queue().len() && 0 <= j < k.queue().len()
                    && i != j implies k.queue()[i] != k.queue()[j] by {
                    assert(q0[i + 1] != q0[j + 1]);
                }
                assert(k.wf_current());
                assert(k.wf_queue());
                assert(k.wf());
            }
            true
        }
    }
}

/// Suspends the current Running task: marks it Ready, re-enqueues it at the
/// tail, and gives control back to the scheduler's run loop, which picks the
/// new head — possibly the same task, if the queue was otherwise empty.
pub fn suspend_current_and_run_next(kernel: &mut Kernel)
    requires
        old(kernel).wf(),
        old(kernel).cur() is Some,
    ensures
        final(kernel).wf(),
        final(kernel).cur() is None,
        final(kernel).status_of(old(kernel).cur()->0 as int) is Ready,
        final(kernel).queue() == old(kernel).queue().push(old(kernel).cur()->0),
        final(kernel).tasks@ == old(kernel).tasks@.update(
            old(kernel).cur()->0 as int,
            Some(with_status(old(kernel).task(old(kernel).cur()->0 as int), TaskStatus::Ready)),
        ),
        final(kernel).init_pid == old(kernel).init_pid,
{
    let p = kernel.processor.take_current().unwrap();
    match &mut kernel.tasks[p] {
        Some(t) => {
            t.inner.task_status = TaskStatus::Ready;
        }
        None => {}
    }
    kernel.manager.add(p);
    proof {
        let k = *kernel;
        let k0 = *old(kernel);
        let q0 = k0.queue();
        assert(k0.valid(p as int));
        assert(k0.status_of(p as int) is Running);
        assert(k.tasks@ == k0.tasks@.update(
            p as int,
            Some(with_status(k0.task(p as int), TaskStatus::Ready)),
        ));
        lemma_status_update_preserves(k0, k, p as int, TaskStatus::Ready);
        assert forall|a: int| #[trigger] k.valid(a) implies ((k.status_of(a) is Running)
            <==> k.cur() == Some(a as usize)) by {
            if a != p as int {
                assert(k0.valid(a));
                assert(k0.status_of(a) is Running ==> k0.cur() == Some(a as usize));
            }
        }
        assert forall|i: int| 0 <= i < k.queue().len() implies #[trigger] k.queue_entry_ok(i) by {
            if i < q0.len() {
                assert(k0.queue_entry_ok(i));
            }
        }
        assert forall|i: int, j: int| 0 <= i < k.queue().len() && 0 <= j < k.queue().len() && i != j
            implies k.queue()[i] != k.queue()[j] by {
            if i < q0.len() && j < q0.len() {
                assert(q0[i] != q0[j]);
            } else if j == q0.len() {
                assert(k0.queue_entry_ok(i));
            } else {
                assert(k0.queue_entry_ok(j));
            }
        }
        assert(k.wf_current());
        assert(k.wf_queue());
        assert(k.wf());
    }
}

/// The two task records agree in everything but their children collections.
pub open spec fn same_but_children(t1: TaskControlBlock, t2: TaskControlBlock) -> bool {
    &&& t1.pid == t2.pid
    &&& t1.kernel_stack == t2.kernel_stack
    &&& t1.inner.trap_cx_ppn == t2.inner.trap_cx_ppn
    &&& t1.inner.base_size == t2.inner.base_size
    &&& t1.inner.task_cx == t2.inner.task_cx
    &&& t1.inner.task_status == t2.inner.task_status
    &&& t1.inner.memory_set == t2.inner.memory_set
    &&& t1.inner.parent == t2.inner.parent
    &&& t1.inner.exit_code == t2.inner.exit_code
}

/// Duplicates the current task into a child: a fresh PID and kernel stack, a
/// deep, independent copy of the parent's address space, a trap frame equal
/// to the parent's in everything but the new kernel stack top, status Ready,
/// and a parent link back to the caller; the child is recorded at the tail of
/// the parent's children. The child is not yet enqueued; the caller admits it
/// with `add_task`. Returns the child's PID.
pub fn fork_current(kernel: &mut Kernel) -> (child: usize)
    requires
        old(kernel).wf(),
        old(kernel).cur() is Some,
        old(kernel).tasks@.len() < MAX_TASKS,
    ensures
        final(kernel).wf(),
        final(kernel).valid(child as int),
        !old(kernel).valid(child as int),
        child != old(kernel).cur()->0,
        final(kernel).cur() == old(kernel).cur(),
        final(kernel).queue() == old(kernel).queue(),
        final(kernel).init_pid == old(kernel).init_pid,
        ({
            let parent = old(kernel).cur()->0 as int;
            let k1 = *final(kernel);
            let k0 = *old(kernel);
            &&& k1.status_of(child as int) is Ready
            &&& k1.parent_of(child as int) == Some(old(kernel).cur()->0)
            &&& k1.children_of(child as int).len() == 0
            &&& k1.task(child as int).inner.exit_code == 0
            &&& k1.task(child as int).pid.0 == child
            &&& k1.task(child as int).kernel_stack.pid == child
            &&& k1.task(child as int).inner.memory_set.token == child
            &&& k1.task(child as int).inner.memory_set.data@ == k0.task(
                parent,
            ).inner.memory_set.data@
            &&& k1.task(child as int).inner.memory_set.trap_cx@ == frame_with_kernel_sp(
                k0.task(parent).inner.memory_set.trap_cx@,
                (kernel_stack_top_spec(child as int) as usize),
            )
            &&& same_but_children(k1.task(parent), k0.task(parent))
            &&& k1.children_of(parent) == k0.children_of(parent).push(child)
            &&& (forall|a: int| k0.valid(a) && a != parent ==> k1.task(a) == k0.task(a))
            &&& (forall|a: int| k0.valid(a) ==> k1.valid(a))
        }),
{
    let parent = kernel.processor.current().unwrap();
    proof {
        assert(old(kernel).valid(parent as int));
    }
    let pid_handle = kernel.pid_allocator.allocate();
    let child_pid = pid_handle.0;
    let kernel_stack = KernelStack::new(&pid_handle);
    let ghost k0 = *old(kernel);
    let ghost recycled_case = k0.pid_allocator.recycled@.len() > 0;
    proof {
        if recycled_case {
            assert(k0.pid_allocator.recycled@.contains(child_pid));
            assert(!k0.valid(child_pid as int));
            assert(kernel.tasks@[child_pid as int] is None);
        }
        assert(child_pid as int != parent as int);
    }
    let child_tcb = match &kernel.tasks[parent] {
        Some(t) => t.fork(pid_handle, kernel_stack, child_pid),
        None => unreached(),
    };
    if child_pid == kernel.tasks.len() {
        kernel.tasks.push(Some(child_tcb));
    } else {
        kernel.tasks[child_pid] = Some(child_tcb);
    }
    match &mut kernel.tasks[parent] {
        Some(t) => {
            t.inner.children.push(child_pid);
        }
        None => {}
    }
    proof {
        let k = *kernel;
        assert(k.valid(child_pid as int));
        assert(k.valid(parent as int));
        assert(k.children_of(parent as int) =~= k0.children_of(parent as int).push(child_pid));
        assert forall|a: int| k0.valid(a) && a != parent as int implies k.task(a) == k0.task(a)
            && k.valid(a) by {
            assert(a != child_pid as int);
        }
        // the selected task alone is Running
        assert forall|a: int| #[trigger] k.valid(a) implies ((k.status_of(a) is Running)
            <==> k.cur() == Some(a as usize)) by {
            if a != child_pid as int {
                assert(k0.valid(a));
            }
        }
        // queued tasks: unchanged, and none of them is the new child
        assert forall|i: int| 0 <= i < k.queue().len() implies #[trigger] k.queue_entry_ok(i) by {
            assert(k0.queue_entry_ok(i));
            assert(k0.valid(k0.queue()[i] as int));
            assert(k.queue()[i] != child_pid);
        }
        // the process tree
        assert forall|a: int, j: int| k.valid(a) && 0 <= j < k.children_of(a).len() implies
            k.valid(#[trigger] k.children_of(a)[j] as int)
            && k.parent_of(k.children_of(a)[j] as int) == Some(a as usize) by {
            if a == child_pid as int {
            } else {
                assert(k0.valid(a));
                if a == parent as int && j == k0.children_of(a).len() {
                    assert(k.children_of(a)[j] == child_pid);
                } else {
                    assert(k0.valid(#[trigger] k0.children_of(a)[j] as int)
                        && k0.parent_of(k0.children_of(a)[j] as int) == Some(a as usize));
                    assert(k0.children_of(a)[j] != child_pid);
                }
            }
        }
        assert forall|a: int| #[trigger] k.valid(a) implies match k.parent_of(a) {
            Some(q) => q < k.tasks@.len() && q != a,
            None => true,
        } by {
            if a != child_pid as int {
                assert(k0.valid(a));
            }
        }
        assert forall|a: int| #[trigger] k.valid(a) implies k.children_of(a).no_duplicates() by {
            if a == parent as int {
                assert forall|i: int, j: int| 0 <= i < k.children_of(a).len() && 0 <= j
                    < k.children_of(a).len() && i != j implies k.children_of(a)[i]
                    != k.children_of(a)[j] by {
                    let c0 = k0.children_of(a);
                    if i < c0.len() && j < c0.len() {
                        assert(c0[i] != c0[j]);
                    } else if j == c0.len() {
                        assert(k0.valid(#[trigger] c0[i] as int));
                    } else {
                        assert(k0.valid(#[trigger] c0[j] as int));
                    }
                }
            } else if a != child_pid as int {
                assert(k0.valid(a));
            }
        }
        assert(k.tasks@.len() > 0);
        assert(k0.valid(k0.init_pid as int));
        assert(k.valid(k.init_pid as int));
        assert(k.init_pid as int != child_pid as int);
        if k.init_pid as int == parent as int {
            assert(k.parent_of(k.init_pid as int) is None);
        }
        // per-task consistency
        assert forall|a: int| #[trigger] k.valid(a) implies k.task(a).wf() && k.task(a).pid.0 == a
            && k.task(a).inner.memory_set.token == a by {
            if a != child_pid as int && a != parent as int {
                assert(k0.valid(a));
            }
            if a == parent as int {
                assert(k0.valid(a));
            }
        }
        assert forall|a: int| #[trigger] k.valid(a) && k.status_of(a) is Zombie implies
            k.children_of(a).len() == 0 && k.task(a).inner.memory_set.data@.len() == 0 by {
            assert(a != child_pid as int);
            assert(k0.valid(a));
            assert(a != parent as int);
        }
        // the allocator mirror
        assert(k.pid_allocator.current == k.tasks@.len());
        assert forall|a: int| 0 <= a < k.tasks@.len() implies ((k.tasks@[a] is None)
            <==> k.pid_allocator.recycled@.contains(#[trigger] (a as usize))) by {
            let r0 = k0.pid_allocator.recycled@;
            if recycled_case {
                let r1 = r0.drop_last();
                if a == child_pid as int {
                    assert forall|i: int| 0 <= i < r1.len() implies r1[i] != child_pid by {
                        assert(r0[i] != r0[r0.len() - 1]);
                    }
                    assert(!r1.contains(child_pid));
                } else {
                    assert((k0.tasks@[a] is None) <==> r0.contains(a as usize));
                    if r0.contains(a as usize) {
                        let i = choose|i: int| 0 <= i < r0.len() && r0[i] == a as usize;
                        assert(i != r0.len() - 1);
                        assert(r1[i] == a as usize);
                        assert(r1.contains(a as usize));
                    }
                    if r1.contains(a as usize) {
                        let i = choose|i: int| 0 <= i < r1.len() && r1[i] == a as usize;
                        assert(r0[i] == a as usize);
                        assert(r0.contains(a as usize));
                    }
                }
            } else {
                if a < k0.tasks@.len() {
                    assert((k0.tasks@[a] is None) <==> r0.contains(a as usize));
                } else {
                    assert(a == child_pid as int);
                    assert forall|i: int| 0 <= i < r0.len() implies r0[i] != child_pid by {
                        assert(r0[i] < k0.pid_allocator.current);
                    }
                    assert(!r0.contains(child_pid));
                }
            }
        }
        assert(k.wf_current());
        assert(k.wf_queue());
        assert(k.wf_tree());
        assert(k.wf_tasks());
        assert(k.wf_zombie());
        assert(k.wf_alloc());
        assert(k.wf());
    }
    child_pid
}

/// The two task records agree in everything but their parent links.
pub open spec fn same_but_parent(t1: TaskControlBlock, t2: TaskControlBlock) -> bool {
    &&& t1.pid == t2.pid
    &&& t1.kernel_stack == t2.kernel_stack
    &&& t1.inner.trap_cx_ppn == t2.inner.trap_cx_ppn
    &&& t1.inner.base_size == t2.inner.base_size
    &&& t1.inner.task_cx == t2.inner.task_cx
    &&& t1.inner.task_status == t2.inner.task_status
    &&& t1.inner.memory_set == t2.inner.memory_set
    &&& t1.inner.children == t2.inner.children
    &&& t1.inner.exit_code == t2.inner.exit_code
}

/// The record of a task that has just exited with the given code, compared
/// with its record before: identity, saved context, parent link and trap
/// frame retained; status Zombie; children gone; user data released.
pub open spec fn zombified(t1: TaskControlBlock, t0: TaskControlBlock, code: i32) -> bool {
    &&& t1.pid == t0.pid
    &&& t1.kernel_stack == t0.kernel_stack
    &&& t1.inner.trap_cx_ppn == t0.inner.trap_cx_ppn
    &&& t1.inner.base_size == t0.inner.base_size
    &&& t1.inner.task_cx == t0.inner.task_cx
    &&& t1.inner.task_status is Zombie
    &&& t1.inner.exit_code == code
    &&& t1.inner.parent == t0.inner.parent
    &&& t1.inner.children@.len() == 0
    &&& t1.inner.memory_set.data@.len() == 0
    &&& t1.inner.memory_set.token == t0.inner.memory_set.token
    &&& t1.inner.memory_set.trap_cx@ == t0.inner.memory_set.trap_cx@
}

/// Exits the current Running task: marks it Zombie, records the exit code,
/// reparents every child to the init task (appending them, in order, to
/// init's children and pointing their parent links at init), clears its own
/// children, and releases its address space's user data at once. The PID and
/// kernel stack stay held until a reaper collects the exit code. Control goes
/// back to the scheduler's run loop through a throwaway context; the exited task is
/// never resumed. The init task itself never exits.
#[verifier::loop_isolation(false)]
pub fn exit_current_and_run_next(kernel: &mut Kernel, exit_code: i32)
    requires
        old(kernel).wf(),
        old(kernel).cur() is Some,
        old(kernel).cur()->0 != old(kernel).init_pid,
    ensures
        final(kernel).wf(),
        final(kernel).cur() is None,
        final(kernel).queue() == old(kernel).queue(),
        final(kernel).init_pid == old(kernel).init_pid,
        ({
            let t = old(kernel).cur()->0 as int;
            let init = old(kernel).init_pid as int;
            let k1 = *final(kernel);
            let k0 = *old(kernel);
            &&& zombified(k1.task(t), k0.task(t), exit_code)
            &&& same_but_children(k1.task(init), k0.task(init))
            &&& k1.children_of(init) == k0.children_of(init) + k0.children_of(t)
            &&& (forall|j: int| 0 <= j < k0.children_of(t).len() ==> {
                &&& k1.parent_of(#[trigger] k0.children_of(t)[j] as int) == Some(
                    old(kernel).init_pid,
                )
                &&& k1.children_of(init).contains(k0.children_of(t)[j])
                &&& same_but_parent(
                    k1.task(k0.children_of(t)[j] as int),
                    k0.task(k0.children_of(t)[j] as int),
                )
            })
            &&& (forall|a: int| k0.valid(a) && a != t && a != init && !k0.children_of(t).contains(
                a as usize,
            ) ==> k1.task(a) == k0.task(a))
            &&& (forall|a: int| k0.valid(a) ==> k1.valid(a))
        }),
{
    let t = kernel.processor.take_current().unwrap();
    let ghost k0 = *old(kernel);
    let ghost ti = t as int;
    let ghost initi = kernel.init_pid as int;
    proof {
        assert(k0.valid(ti));
        assert(k0.status_of(ti) is Running);
        assert(k0.valid(initi));
    }
    let init_pid = kernel.init_pid;
    let children = match &kernel.tasks[t] {
        Some(task) => crate::mem::copy_words(&task.inner.children),
        None => unreached(),
    };
    let ghost cs = children@;
    proof {
        // every child is live, points back at the exiting task, and so is
        // neither the exiting task, nor init, nor the selected task's slot
        assert forall|j: int| 0 <= j < cs.len() implies k0.valid(cs[j] as int) && k0.parent_of(
            cs[j] as int,
        ) == Some(t) && cs[j] != t && cs[j] != init_pid by {
            assert(k0.valid(#[trigger] k0.children_of(ti)[j] as int));
            assert(k0.parent_of(k0.children_of(ti)[j] as int) == Some(t));
            if cs[j] == init_pid {
                assert(k0.parent_of(initi) is None);
            }
        }
        assert(cs.no_duplicates());
    }
    match &mut kernel.tasks[t] {
        Some(task) => {
            task.inner.task_status = TaskStatus::Zombie;
            task.inner.exit_code = exit_code;
            task.inner.memory_set.recycle_data_pages();
            task.inner.children = Vec::new();
        }
        None => {}
    }
    let ghost kmid = *kernel;
    proof {
        assert(zombified(kmid.task(ti), k0.task(ti), exit_code));
        assert(forall|a: int| kmid.valid(a) <==> k0.valid(a));
        assert(forall|a: int| k0.valid(a) && a != ti ==> kmid.task(a) == k0.task(a));
    }
    let mut i: usize = 0;
    while i < children.len()
        invariant
            i <= cs.len(),
            kernel.tasks@.len() == kmid.tasks@.len(),
            forall|a: int| kernel.valid(a) <==> kmid.valid(a),
            kernel.manager == kmid.manager,
            kernel.processor == kmid.processor,
            kernel.pid_allocator == kmid.pid_allocator,
            kernel.init_pid == kmid.init_pid,
            kernel.kernel_token == kmid.kernel_token,
            kernel.task(ti) == kmid.task(ti),
            same_but_children(kernel.task(initi), kmid.task(initi)),
            kernel.children_of(initi) == kmid.children_of(initi) + cs.subrange(0, i as int),
            forall|j: int| 0 <= j < i ==> same_but_parent(
                kernel.task(#[trigger] cs[j] as int),
                kmid.task(cs[j] as int),
            ) && kernel.parent_of(cs[j] as int) == Some(init_pid),
            forall|j: int| i <= j < cs.len() ==> kernel.task(#[trigger] cs[j] as int) == kmid.task(
                cs[j] as int,
            ),
            forall|a: int| kmid.valid(a) && a != ti && a != initi && !cs.contains(a as usize)
                ==> kernel.task(a) == kmid.task(a),
        decreases cs.len() - i,
    {
        let c = children[i];
        proof {
            assert(k0.valid(cs[i as int] as int));
            assert(kernel.valid(c as int));
        }
        match &mut kernel.tasks[c] {
            Some(ct) => {
                ct.inner.parent = Some(init_pid);
            }
            None => {}
        }
        match &mut kernel.tasks[init_pid] {
            Some(it) => {
                it.inner.children.push(c);
            }
            None => {}
        }
        proof {
            assert(c != t);
            assert(c != init_pid);
            assert(kernel.children_of(initi) =~= kmid.children_of(initi) + cs.subrange(
                0,
                i as int + 1,
            ));
            assert forall|j: int| 0 <= j < i + 1 implies same_but_parent(
                kernel.task(#[trigger] cs[j] as int),
                kmid.task(cs[j] as int),
            ) && kernel.parent_of(cs[j] as int) == Some(init_pid) by {
                if j < i {
                    assert(cs[j] != cs[i as int]);
                    assert(cs[j] != init_pid);
                }
            }
            assert forall|j: int| i + 1 <= j < cs.len() implies kernel.task(
                #[trigger] cs[j] as int,
            ) == kmid.task(cs[j] as int) by {
                assert(cs[j] != cs[i as int]);
                assert(cs[j] != init_pid);
            }
        }
        i = i + 1;
    }
    proof {
        let k = *kernel;
        assert(cs.subrange(0, cs.len() as int) =~= cs);
        assert(k.children_of(initi) == kmid.children_of(initi) + cs);
        // only the exiting task was Running, and nothing is selected now
        assert forall|a: int| #[trigger] k.valid(a) implies ((k.status_of(a) is Running)
            <==> k.cur() == Some(a as usize)) by {
            assert(k0.valid(a));
            if a == ti {
            } else if a == initi {
            } else if cs.contains(a as usize) {
                let j = choose|j: int| 0 <= j < cs.len() && cs[j] == a as usize;
                assert(same_but_parent(k.task(cs[j] as int), kmid.task(cs[j] as int)));
                assert(k.status_of(a) == k0.status_of(a));
            } else {
                assert(k.task(a) == k0.task(a));
            }
            assert(k.status_of(a) == k0.status_of(a) || a == ti);
            assert(k0.status_of(a) is Running ==> a == ti);
        }
        // the queue is untouched and the exiting task was not in it
        assert forall|i2: int| 0 <= i2 < k.queue().len() implies #[trigger] k.queue_entry_ok(
            i2,
        ) by {
            assert(k0.queue_entry_ok(i2));
            let q = k0.queue()[i2];
            assert(k0.status_of(q as int) is Ready);
            assert(q != t);
            if cs.contains(q) {
                let j = choose|j: int| 0 <= j < cs.len() && cs[j] == q;
                assert(same_but_parent(k.task(q as int), kmid.task(q as int)));
            } else if q == init_pid {
                assert(same_but_children(k.task(initi), kmid.task(initi)));
            } else {
                assert(k.task(q as int) == k0.task(q as int));
            }
        }
        // the process tree: children point down, parents point back
        assert forall|a: int, j: int| k.valid(a) && 0 <= j < k.children_of(a).len() implies
            k.valid(#[trigger] k.children_of(a)[j] as int)
            && k.parent_of(k.children_of(a)[j] as int) == Some(a as usize) by {
            assert(k0.valid(a));
            if a == ti {
            } else if a == initi {
                let e = k.children_of(a)[j];
                if j < kmid.children_of(initi).len() {
                    assert(e == k0.children_of(initi)[j]);
                    assert(k0.valid(#[trigger] k0.children_of(initi)[j] as int));
                    assert(k0.parent_of(e as int) == Some(init_pid));
                    if cs.contains(e) {
                        let j2 = choose|j2: int| 0 <= j2 < cs.len() && cs[j2] == e;
                        assert(k0.parent_of(cs[j2] as int) == Some(t));
                        assert(false);
                    }
                    if e == t {
                        assert(k.parent_of(e as int) == k0.parent_of(e as int));
                    } else if e == init_pid {
                        assert(false);
                    } else {
                        assert(k.task(e as int) == k0.task(e as int));
                    }
                } else {
                    let j2 = j - kmid.children_of(initi).len();
                    assert(e == cs[j2]);
                    assert(same_but_parent(k.task(e as int), kmid.task(e as int)));
                    assert(k.parent_of(e as int) == Some(init_pid));
                }
            } else {
                let e = k0.children_of(a)[j];
                assert(k.children_of(a) == k0.children_of(a));
                assert(k0.valid(#[trigger] k0.children_of(a)[j] as int));
                assert(k0.parent_of(e as int) == Some(a as usize));
                if cs.contains(e) {
                    let j2 = choose|j2: int| 0 <= j2 < cs.len() && cs[j2] == e;
                    assert(k0.parent_of(cs[j2] as int) == Some(t));
                    assert(a == ti);
                    assert(false);
                }
                if e == t {
                    assert(k.parent_of(e as int) == k0.parent_of(e as int));
                } else if e == init_pid {
                    assert(k0.parent_of(initi) is None);
                    assert(false);
                } else {
                    assert(k.task(e as int) == k0.task(e as int));
                }
            }
        }
        assert forall|a: int| #[trigger] k.valid(a) implies match k.parent_of(a) {
            Some(q) => q < k.tasks@.len() && q != a,
            None => true,
        } by {
            assert(k0.valid(a));
            if cs.contains(a as usize) {
                assert(init_pid as int != a);
            } else if a == ti || a == initi {
            } else {
                assert(k.task(a) == k0.task(a));
            }
        }
        assert forall|a: int| #[trigger] k.valid(a) implies k.children_of(a).no_duplicates() by {
            assert(k0.valid(a));
            if a == initi {
                let c0 = kmid.children_of(initi);
                assert forall|x: int, y: int| 0 <= x < k.children_of(a).len() && 0 <= y
                    < k.children_of(a).len() && x != y implies k.children_of(a)[x]
                    != k.children_of(a)[y] by {
                    if x < c0.len() && y < c0.len() {
                        assert(c0[x] != c0[y]);
                    } else if x >= c0.len() && y >= c0.len() {
                        assert(cs[x - c0.len()] != cs[y - c0.len()]);
                    } else {
                        let xi = if x < c0.len() { x } else { y };
                        let yi = if x < c0.len() { y } else { x };
                        let e0 = c0[xi];
                        let e1 = cs[yi - c0.len()];
                        assert(k0.parent_of(#[trigger] k0.children_of(initi)[xi] as int) == Some(
                            init_pid,
                        ));
                        assert(k0.parent_of(#[trigger] k0.children_of(ti)[yi - c0.len()] as int)
                            == Some(t));
                    }
                }
            } else if a == ti {
            } else if cs.contains(a as usize) {
                let j = choose|j: int| 0 <= j < cs.len() && cs[j] == a as usize;
                assert(same_but_parent(k.task(a), kmid.task(a)));
            } else {
                assert(k.task(a) == k0.task(a));
            }
        }
        assert(k.valid(k.init_pid as int));
        assert(k.parent_of(k.init_pid as int) is None);
        assert(!(k.status_of(k.init_pid as int) is Zombie));
        // per-task consistency, zombies bare, allocator untouched
        assert forall|a: int| #[trigger] k.valid(a) implies k.task(a).wf() && k.task(a).pid.0 == a
            && k.task(a).inner.memory_set.token == a by {
            assert(k0.valid(a));
            if a == ti {
            } else if a == initi {
            } else if cs.contains(a as usize) {
                let j = choose|j: int| 0 <= j < cs.len() && cs[j] == a as usize;
                assert(same_but_parent(k.task(a), kmid.task(a)));
            } else {
                assert(k.task(a) == k0.task(a));
            }
        }
        assert forall|a: int| #[trigger] k.valid(a) && k.status_of(a) is Zombie implies
            k.children_of(a).len() == 0 && k.task(a).inner.memory_set.data@.len() == 0 by {
            assert(k0.valid(a));
            if a == ti {
            } else if a == initi {
                assert(!(k0.status_of(initi) is Zombie));
            } else if cs.contains(a as usize) {
                let j = choose|j: int| 0 <= j < cs.len() && cs[j] == a as usize;
                assert(same_but_parent(k.task(a), kmid.task(a)));
            } else {
                assert(k.task(a) == k0.task(a));
            }
        }
        assert forall|a: int| 0 <= a < k.tasks@.len() implies ((k.tasks@[a] is None)
            <==> k.pid_allocator.recycled@.contains(#[trigger] (a as usize))) by {
            assert((k0.tasks@[a] is None) <==> k0.pid_allocator.recycled@.contains(a as usize));
            assert(k.valid(a) <==> k0.valid(a));
        }
        assert(k.wf_current());
        assert(k.wf_queue());
        assert(k.wf_tree());
        assert(k.wf_tasks());
        assert(k.wf_zombie());
        assert(k.wf_alloc());
        assert(k.wf());
        // the stated effects
        assert forall|j: int| 0 <= j < k0.children_of(ti).len() implies k.children_of(
            initi,
        ).contains(#[trigger] k0.children_of(ti)[j]) by {
            assert(k.children_of(initi)[kmid.children_of(initi).len() + j] == cs[j]);
        }
    }
}

/// Reaps the first Zombie among a task's children, in insertion order:
/// removes it from the children, returns its PID and exit code, and only
/// then reclaims the PID, the kernel stack and the task's slot. With no
/// Zombie child, changes nothing and returns nothing.
#[verifier::loop_isolation(false)]
#[verifier::rlimit(50)]
pub fn reap_zombie_child(kernel: &mut Kernel, parent: usize) -> (r: Option<(usize, i32)>)
    requires
        old(kernel).wf(),
        old(kernel).valid(parent as int),
    ensures
        final(kernel).wf(),
        final(kernel).queue() == old(kernel).queue(),
        final(kernel).cur() == old(kernel).cur(),
        final(kernel).init_pid == old(kernel).init_pid,
        r is None ==> {
            &&& (forall|j: int| 0 <= j < old(kernel).children_of(parent as int).len()
                ==> !(old(kernel).status_of(
                    #[trigger] old(kernel).children_of(parent as int)[j] as int,
                ) is Zombie))
            &&& *final(kernel) == *old(kernel)
        },
        r matches Some(pc) ==> {
            let k0 = *old(kernel);
            let k1 = *final(kernel);
            let cs = k0.children_of(parent as int);
            &&& exists|idx: int| {
                &&& 0 <= idx < cs.len()
                &&& cs[idx] == pc.0
                &&& (forall|x: int| 0 <= x < idx ==> !(k0.status_of(#[trigger] cs[x] as int)
                    is Zombie))
                &&& k1.children_of(parent as int) == cs.remove(idx)
            }
            &&& k0.status_of(pc.0 as int) is Zombie
            &&& pc.1 == k0.task(pc.0 as int).inner.exit_code
            &&& !k1.valid(pc.0 as int)
            &&& !k1.children_of(parent as int).contains(pc.0)
            &&& same_but_children(k1.task(parent as int), k0.task(parent as int))
            &&& (forall|a: int| k0.valid(a) && a != parent && a != pc.0
                ==> k1.valid(a) && k1.task(a) == k0.task(a))
        },
{
    let ghost k0 = *old(kernel);
    let ghost pi = parent as int;
    let ghost cs = k0.children_of(pi);
    let n = match &kernel.tasks[parent] {
        Some(t) => t.inner.children.len(),
        None => unreached(),
    };
    let mut j: usize = 0;
    let mut found: Option<usize> = None;
    proof {
        assert forall|x: int| 0 <= x < cs.len() implies k0.valid(cs[x] as int) && k0.parent_of(
            cs[x] as int,
        ) == Some(parent) && cs[x] != parent && cs[x] != k0.init_pid by {
            assert(k0.valid(#[trigger] k0.children_of(pi)[x] as int));
            assert(k0.parent_of(k0.children_of(pi)[x] as int) == Some(parent));
            if cs[x] == k0.init_pid {
                assert(k0.parent_of(k0.init_pid as int) is None);
            }
        }
    }
    while j < n
        invariant
            j <= n,
            found is None ==> forall|x: int| 0 <= x < j ==> !(k0.status_of(
                #[trigger] cs[x] as int,
            ) is Zombie),
            found matches Some(idx) ==> {
                &&& 0 <= idx < n
                &&& k0.status_of(cs[idx as int] as int) is Zombie
                &&& (forall|x: int| 0 <= x < idx ==> !(k0.status_of(#[trigger] cs[x] as int)
                    is Zombie))
            },
        decreases n - j,
    {
        if found.is_none() {
            let c = match &kernel.tasks[parent] {
                Some(t) => t.inner.children[j],
                None => unreached(),
            };
            proof {
                assert(k0.valid(cs[j as int] as int));
            }
            let zom = match &kernel.tasks[c] {
                Some(ct) => ct.inner.is_zombie(),
                None => unreached(),
            };
            if zom {
                found = Some(j);
            }
        }
        j = j + 1;
    }
    match found {
        None => None,
        Some(idx) => {
            let c = match &kernel.tasks[parent] {
                Some(t) => t.inner.children[idx],
                None => unreached(),
            };
            proof {
                assert(k0.valid(cs[idx as int] as int));
            }
            let code = match &kernel.tasks[c] {
                Some(ct) => ct.inner.exit_code,
                None => unreached(),
            };
            match &mut kernel.tasks[parent] {
                Some(t) => {
                    t.inner.children.remove(idx);
                }
                None => {}
            }
            kernel.pid_allocator.release(c);
            kernel.tasks[c] = None;
            proof {
                let k = *kernel;
                let ci = c as int;
                cs.remove_ensures(idx as int);
                assert(k.children_of(pi) == cs.remove(idx as int));
                assert forall|e: usize| k.children_of(pi).contains(e) implies cs.contains(e)
                    && e != c by {
                    let x = choose|x: int| 0 <= x < k.children_of(pi).len() && k.children_of(
                        pi,
                    )[x] == e;
                    if x < idx {
                        assert(cs[x] == e);
                        assert(cs[x] != cs[idx as int]);
                    } else {
                        assert(cs[x + 1] == e);
                        assert(cs[x + 1] != cs[idx as int]);
                    }
                }
                assert(!k.children_of(pi).contains(c));
                assert forall|a: int| k0.valid(a) && a != pi && a != ci implies k.valid(a)
                    && k.task(a) == k0.task(a) by {}
                assert forall|a: int| #[trigger] k.valid(a) implies k0.valid(a) && a != ci by {}
                // only c's slot and parent's children changed; statuses all kept
                assert forall|a: int| #[trigger] k.valid(a) implies ((k.status_of(a) is Running)
                    <==> k.cur() == Some(a as usize)) by {
                    assert(k0.valid(a));
                    if a == pi {
                        assert(k.status_of(a) == k0.status_of(a));
                    }
                    if k0.cur() == Some(a as usize) {
                        assert(k0.status_of(a) is Running);
                    }
                    if k.cur() is Some && k.cur()->0 as int == ci {
                        assert(k0.status_of(ci) is Running);
                        assert(false);
                    }
                }
                if k.cur() is Some {
                    let cc = k.cur()->0;
                    assert(k0.valid(cc as int));
                    assert(k0.status_of(cc as int) is Running);
                    assert(cc as int != ci);
                    assert(k.valid(cc as int));
                }
                assert forall|i2: int| 0 <= i2 < k.queue().len() implies #[trigger] k.queue_entry_ok(
                    i2,
                ) by {
                    assert(k0.queue_entry_ok(i2));
                    let q = k0.queue()[i2];
                    assert(k0.status_of(q as int) is Ready);
                    assert(q as int != ci);
                    if q as int == pi {
                        assert(k.status_of(q as int) == k0.status_of(q as int));
                    } else {
                        assert(k.task(q as int) == k0.task(q as int));
                    }
                }
                assert forall|a: int, x: int| k.valid(a) && 0 <= x < k.children_of(a).len() implies
                    k.valid(#[trigger] k.children_of(a)[x] as int)
                    && k.parent_of(k.children_of(a)[x] as int) == Some(a as usize) by {
                    assert(k0.valid(a));
                    let e = k.children_of(a)[x];
                    if a == pi {
                        assert(cs.contains(e));
                        let y = choose|y: int| 0 <= y < cs.len() && cs[y] == e;
                        assert(k0.valid(#[trigger] k0.children_of(pi)[y] as int));
                        assert(k0.parent_of(e as int) == Some(parent));
                        assert(e != c);
                        assert(e as int != pi);
                        assert(k.task(e as int) == k0.task(e as int));
                    } else {
                        assert(k.children_of(a) == k0.children_of(a));
                        assert(k0.valid(#[trigger] k0.children_of(a)[x] as int));
                        assert(k0.parent_of(e as int) == Some(a as usize));
                        if e as int == ci {
                            assert(k0.parent_of(ci) == Some(parent));
                            assert(a == pi);
                            assert(false);
                        }
                        if e as int == pi {
                            assert(k.status_of(pi) == k0.status_of(pi));
                        } else {
                            assert(k.task(e as int) == k0.task(e as int));
                        }
                    }
                }
                assert forall|a: int| #[trigger] k.valid(a) implies (match k.parent_of(a) {
                    Some(q) => q < k.tasks@.len() && q != a,
                    None => true,
                }) && k.children_of(a).no_duplicates() by {
                    assert(k0.valid(a));
                    if a == pi {
                        assert forall|x: int, y: int| 0 <= x < k.children_of(a).len() && 0 <= y
                            < k.children_of(a).len() && x != y implies k.children_of(a)[x]
                            != k.children_of(a)[y] by {
                            let x0: int = if x < idx { x } else { x + 1 };
                            let y0: int = if y < idx { y } else { y + 1 };
                            assert(cs[x0] != cs[y0]);
                        }
                    } else {
                        assert(k.children_of(a) == k0.children_of(a));
                        assert(k.parent_of(a) == k0.parent_of(a));
                    }
                }
                assert(k.tasks@.len() > 0);
                assert(k0.init_pid as int != ci);
                assert(k.valid(k.init_pid as int));
                if k.init_pid as int == pi {
                    assert(k.status_of(pi) == k0.status_of(pi));
                    assert(k.parent_of(pi) == k0.parent_of(pi));
                } else {
                    assert(k.task(k.init_pid as int) == k0.task(k.init_pid as int));
                }
                assert forall|a: int| #[trigger] k.valid(a) implies k.task(a).wf()
                    && k.task(a).pid.0 == a && k.task(a).inner.memory_set.token == a
                    && (k.status_of(a) is Zombie ==> k.children_of(a).len() == 0
                        && k.task(a).inner.memory_set.data@.len() == 0) by {
                    assert(k0.valid(a));
                    if a == pi {
                        if k.status_of(a) is Zombie {
                            assert(k0.status_of(pi) is Zombie);
                            assert(k0.children_of(pi).len() == 0);
                        }
                    } else {
                        assert(k.task(a) == k0.task(a));
                    }
                }
                // the allocator: c goes back, everything else stands
                let r0 = k0.pid_allocator.recycled@;
                let r1 = k.pid_allocator.recycled@;
                assert(r1 == r0.push(c));
                assert forall|a: int| 0 <= a < k.tasks@.len() implies ((k.tasks@[a] is None)
                    <==> r1.contains(#[trigger] (a as usize))) by {
                    assert((k0.tasks@[a] is None) <==> r0.contains(a as usize));
                    if a == ci {
                        assert(r1[r1.len() - 1] == c);
                        assert(r1.contains(c));
                    } else {
                        if r1.contains(a as usize) {
                            let x = choose|x: int| 0 <= x < r1.len() && r1[x] == a as usize;
                            assert(x < r0.len());
                            assert(r0.contains(a as usize));
                        }
                        if r0.contains(a as usize) {
                            let x = choose|x: int| 0 <= x < r0.len() && r0[x] == a as usize;
                            assert(r1[x] == a as usize);
                            assert(r1.contains(a as usize));
                        }
                    }
                }
                assert(k.wf_current());
                assert(k.wf_queue());
                assert(k.wf_tree());
                assert(k.wf_tasks());
                assert(k.wf_zombie());
                assert(k.wf_alloc());
                assert(k.wf());
            }
            Some((c, code))
        }
    }
}

/// Updating one live task's user-memory contents or trap frame — identity,
/// links, status and token untouched — preserves the whole kernel invariant,
/// provided a Zombie's released data stays released.
pub proof fn lemma_inner_update_preserves(k0: Kernel, k1: Kernel, p: int)
    requires
        k0.wf(),
        k0.valid(p),
        k1.tasks@ == k0.tasks@.update(p, k1.tasks@[p]),
        k1.valid(p),
        k1.task(p).pid == k0.task(p).pid,
        k1.task(p).kernel_stack == k0.task(p).kernel_stack,
        k1.task(p).inner.trap_cx_ppn == k0.task(p).inner.trap_cx_ppn,
        k1.task(p).inner.base_size == k0.task(p).inner.base_size,
        k1.task(p).inner.task_cx == k0.task(p).inner.task_cx,
        k1.task(p).inner.task_status == k0.task(p).inner.task_status,
        k1.task(p).inner.parent == k0.task(p).inner.parent,
        k1.task(p).inner.children == k0.task(p).inner.children,
        k1.task(p).inner.exit_code == k0.task(p).inner.exit_code,
        k1.task(p).inner.memory_set.token == k0.task(p).inner.memory_set.token,
        k1.task(p).inner.memory_set.trap_cx.wf(),
        k0.status_of(p) is Zombie ==> k1.task(p).inner.memory_set.data@.len() == 0,
        k1.manager == k0.manager,
        k1.processor == k0.processor,
        k1.pid_allocator == k0.pid_allocator,
        k1.init_pid == k0.init_pid,
    ensures
        k1.wf(),
{
    assert forall|a: int| k1.valid(a) <==> k0.valid(a) by {}
    assert forall|a: int| #[trigger] k1.valid(a) implies ((k1.status_of(a) is Running)
        <==> k1.cur() == Some(a as usize)) by {
        assert(k0.valid(a));
    }
    if k0.cur() is Some {
        assert(k0.valid(k0.cur()->0 as int));
    }
    assert forall|i: int| 0 <= i < k1.queue().len() implies #[trigger] k1.queue_entry_ok(i) by {
        assert(k0.queue_entry_ok(i));
    }
    assert forall|a: int, j: int| k1.valid(a) && 0 <= j < k1.children_of(a).len() implies k1.valid(
        #[trigger] k1.children_of(a)[j] as int,
    ) && k1.parent_of(k1.children_of(a)[j] as int) == Some(a as usize) by {
        assert(k0.valid(a));
        assert(k0.valid(#[trigger] k0.children_of(a)[j] as int) && k0.parent_of(
            k0.children_of(a)[j] as int,
        ) == Some(a as usize));
    }
    assert forall|a: int| #[trigger] k1.valid(a) implies (match k1.parent_of(a) {
        Some(q) => q < k1.tasks@.len() && q != a,
        None => true,
    }) && k1.children_of(a).no_duplicates() && k1.task(a).wf() && k1.task(a).pid.0 == a
        && k1.task(a).inner.memory_set.token == a && (k1.status_of(a) is Zombie
        ==> k1.children_of(a).len() == 0 && k1.task(a).inner.memory_set.data@.len() == 0) by {
        assert(k0.valid(a));
    }
    assert(k1.valid(k1.init_pid as int));
    assert forall|a: int| 0 <= a < k1.tasks@.len() implies ((k1.tasks@[a] is None)
        <==> k1.pid_allocator.recycled@.contains(#[trigger] (a as usize))) by {
        assert((k0.tasks@[a] is None) <==> k0.pid_allocator.recycled@.contains(a as usize));
    }
    assert(k1.wf_current());
    assert(k1.wf_queue());
    assert(k1.wf_tree());
    assert(k1.wf_tasks());
    assert(k1.wf_zombie());
    assert(k1.wf_alloc());
}

impl Kernel {
    /// Borrows a live task's record.
    pub fn task_ref(&self, p: usize) -> (r: &TaskControlBlock)
        requires
            self.valid(p as int),
        ensures
            *r == self.task(p as int),
    {
        match &self.tasks[p] {
            Some(t) => t,
            None => unreached(),
        }
    }
}

/// Writes one byte of the current task's user memory. Each task owns its
/// address space exclusively, so every other task's memory is untouched — in
/// particular a child's copy after a fork.
pub fn write_current_byte(kernel: &mut Kernel, offset: usize, value: u8)
    requires
        old(kernel).wf(),
        old(kernel).cur() is Some,
        offset < old(kernel).task(old(kernel).cur()->0 as int).inner.memory_set.data@.len(),
    ensures
        final(kernel).wf(),
        final(kernel).cur() == old(kernel).cur(),
        final(kernel).queue() == old(kernel).queue(),
        final(kernel).init_pid == old(kernel).init_pid,
        ({
            let t = old(kernel).cur()->0 as int;
            let k0 = *old(kernel);
            let k1 = *final(kernel);
            &&& k1.task(t).inner.memory_set.data@ == k0.task(t).inner.memory_set.data@.update(
                offset as int,
                value,
            )
            &&& k1.task(t).pid == k0.task(t).pid
            &&& k1.task(t).kernel_stack == k0.task(t).kernel_stack
            &&& k1.task(t).inner.task_status == k0.task(t).inner.task_status
            &&& k1.task(t).inner.task_cx == k0.task(t).inner.task_cx
            &&& k1.task(t).inner.parent == k0.task(t).inner.parent
            &&& k1.task(t).inner.children == k0.task(t).inner.children
            &&& k1.task(t).inner.exit_code == k0.task(t).inner.exit_code
            &&& k1.task(t).inner.memory_set.trap_cx@ == k0.task(t).inner.memory_set.trap_cx@
            &&& k1.task(t).inner.memory_set.token == k0.task(t).inner.memory_set.token
            &&& (forall|a: int| k0.valid(a) && a != t ==> k1.task(a) == k0.task(a) && k1.valid(a))
        }),
{
    let t = kernel.processor.current().unwrap();
    proof {
        assert(old(kernel).valid(t as int));
    }
    match &mut kernel.tasks[t] {
        Some(task) => {
            task.inner.memory_set.write_byte(offset, value);
        }
        None => {}
    }
    proof {
        assert(old(kernel).status_of(t as int) is Running);
        lemma_inner_update_preserves(*old(kernel), *kernel, t as int);
    }
}

/// At most one task is Running at any instant: a Running task is the one in
/// the processor's current slot, so two Running tasks are the same task; and
/// whenever a task is selected, that task is Running — the count is never
/// zero while scheduling is active.
pub proof fn lemma_running_unique(k: Kernel, p: int, q: int)
    requires
        k.wf(),
        k.valid(p),
        k.valid(q),
        k.status_of(p) is Running,
        k.status_of(q) is Running,
    ensures
        p == q,
        k.cur() == Some(p as usize),
{
    assert(k.cur() == Some(p as usize));
    assert(k.cur() == Some(q as usize));
}

/// While a task is selected, exactly that task is Running.
pub proof fn lemma_current_is_running(k: Kernel)
    requires
        k.wf(),
        k.cur() is Some,
    ensures
        k.valid(k.cur()->0 as int),
        k.status_of(k.cur()->0 as int) is Running,
        forall|p: int| k.valid(p) && #[trigger] k.status_of(p) is Running ==> p == k.cur()->0 as int,
{
    assert(k.valid(k.cur()->0 as int));
    assert forall|p: int| k.valid(p) && #[trigger] k.status_of(p) is Running implies p == k.cur()->0
        as int by {
        assert(k.cur() == Some(p as usize));
    }
}

} // verus!
