//! The ready queue: every task that is Ready but not currently selected.

use vstd::prelude::*;
use std::collections::VecDeque;

verus! {

/// FIFO queue of the PIDs eligible for selection by the scheduler. Admission
/// appends at the tail, removal takes the head; no priority, no policy — the
/// policy lives in the processor's run loop.
pub struct TaskManager {
    /// The queued PIDs, head first.
    pub ready_queue: VecDeque<usize>,
}

impl TaskManager {
    pub fn new() -> (r: TaskManager)
        ensures
            r.ready_queue@.len() == 0,
    {
        TaskManager { ready_queue: VecDeque::new() }
    }

    /// Appends a task to the tail of the queue.
    pub fn add(&mut self, task: usize)
        ensures
            final(self).ready_queue@ == old(self).ready_queue@.push(task),
    {
        self.ready_queue.push_back(task);
    }

    /// Removes and returns the head of the queue, or signals empty.
    pub fn fetch(&mut self) -> (r: Option<usize>)
        ensures
            old(self).ready_queue@.len() == 0 ==> {
                &&& r is None
                &&& final(self).ready_queue@ == old(self).ready_queue@
            },
            old(self).ready_queue@.len() > 0 ==> {
                &&& r == Some(old(self).ready_queue@[0])
                &&& final(self).ready_queue@ == old(self).ready_queue@.drop_first()
            },
    {
        self.ready_queue.pop_front()
    }

    /// How many tasks are waiting.
    pub fn len(&self) -> (r: usize)
        ensures
            r == self.ready_queue@.len(),
    {
        self.ready_queue.len()
    }
}

/// The position of each queued task among those present when dequeuing
/// starts: after `k` dequeues with no intervening enqueue, these tasks
/// remain, in their original order.
pub open spec fn queue_after_dequeues(q: Seq<usize>, k: int) -> Seq<usize> {
    q.skip(k)
}

/// FIFO law: with no intervening enqueue, the `k`-th dequeue returns the task
/// that stood `k`-th from the head. So for a task admitted at position `i`
/// and one at position `j` with `i <= j`, the first is dequeued no later than
/// the second.
pub proof fn lemma_fifo_order(q: Seq<usize>, i: int, j: int)
    requires
        0 <= i <= j < q.len(),
    ensures
        queue_after_dequeues(q, i)[0] == q[i],
        queue_after_dequeues(q, j)[0] == q[j],
        queue_after_dequeues(q, i + 1) == queue_after_dequeues(q, i).drop_first(),
{
    assert(queue_after_dequeues(q, i + 1) =~= queue_after_dequeues(q, i).drop_first());
}

} // verus!
