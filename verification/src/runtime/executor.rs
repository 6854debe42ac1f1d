use vstd::prelude::*;
use std::collections::VecDeque;

verus! {

/// Runs tasks in the order they became ready.
#[derive(Debug)]
pub struct Executor {
    ready_queue: VecDeque<u64>,
    next_task_id: u64,
}

impl Executor {
    /// The ids of the ready tasks, the next to run first.
    pub closed spec fn spec_queue(&self) -> Seq<u64> {
        self.ready_queue@
    }

    /// The id the next spawned task gets.
    pub closed spec fn spec_next_id(&self) -> u64 {
        self.next_task_id
    }

    pub fn new() -> (r: Self)
        ensures
            r.spec_queue() == Seq::<u64>::empty(),
            r.spec_next_id() == 1,
    {
        Executor { ready_queue: VecDeque::new(), next_task_id: 1 }
    }

    /// A new task, ready to run; ids count up from one and stay at the largest once there.
    pub fn spawn_task(&mut self) -> (r: u64)
        ensures
            r == old(self).spec_next_id(),
            final(self).spec_next_id() == if old(self).spec_next_id() == u64::MAX {
                u64::MAX
            } else {
                (old(self).spec_next_id() + 1) as u64
            },
            final(self).spec_queue() == old(self).spec_queue().push(r),
    {
        let task_id = self.next_task_id;
        self.next_task_id = self.next_task_id.saturating_add(1);
        self.ready_queue.push_back(task_id);
        task_id
    }

    /// Marks a task ready to run.
    pub fn schedule_ready(&mut self, task_id: u64)
        ensures
            final(self).spec_next_id() == old(self).spec_next_id(),
            final(self).spec_queue() == old(self).spec_queue().push(task_id),
    {
        self.ready_queue.push_back(task_id);
    }

    /// The task that became ready first, taken off the queue.
    pub fn poll_ready_task(&mut self) -> (r: Option<u64>)
        ensures
            final(self).spec_next_id() == old(self).spec_next_id(),
            old(self).spec_queue().len() == 0 ==> r is None && final(self).spec_queue()
                == old(self).spec_queue(),
            old(self).spec_queue().len() > 0 ==> r == Some(old(self).spec_queue()[0])
                && final(self).spec_queue() == old(self).spec_queue().drop_first(),
    {
        self.ready_queue.pop_front()
    }

    pub fn pending_tasks(&self) -> (r: usize)
        ensures
            r == self.spec_queue().len(),
    {
        self.ready_queue.len()
    }
}

impl Default for Executor {
    fn default() -> (r: Self)
        ensures
            r.spec_queue() == Seq::<u64>::empty(),
            r.spec_next_id() == 0,
    {
        Executor { ready_queue: VecDeque::new(), next_task_id: 0 }
    }
}

} // verus!
