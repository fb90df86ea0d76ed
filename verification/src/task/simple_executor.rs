//! The cooperative executor: an arena of not-yet-finished tasks keyed by a
//! monotonically assigned identity, a FIFO queue of identities ready to be
//! polled, and idempotent wake bookkeeping.

use crate::task::keyboard::ScancodeQueue;
use crate::task::{KernelTask, TaskPoll};
use crate::vga_buffer::Writer;
use std::collections::VecDeque;
use vstd::prelude::*;

verus! {

/// The executor's bookkeeping, abstracted: which identities hold a live
/// task, which are marked queued, and the FIFO queue of ready identities.
#[verifier::ext_equal]
pub struct ExecutorModel {
    pub alive: Seq<bool>,
    pub queued: Seq<bool>,
    pub ready: Seq<int>,
}

/// Well-formed bookkeeping: the marks cover the same identities as the
/// arena, the ready queue lists exactly the marked identities, each at most
/// once, and only live tasks are marked.
pub open spec fn model_wf(m: ExecutorModel) -> bool {
    &&& m.queued.len() == m.alive.len()
    &&& forall|k: int| 0 <= k < m.ready.len() ==> 0 <= #[trigger] m.ready[k] < m.alive.len()
    &&& forall|k: int| 0 <= k < m.ready.len() ==> m.queued[#[trigger] m.ready[k]]
    &&& forall|k: int| 0 <= k < m.ready.len() ==> m.alive[#[trigger] m.ready[k]]
    &&& forall|i: int| 0 <= i < m.queued.len() && m.queued[i] ==> m.ready.contains(i)
    &&& forall|k1: int, k2: int|
        0 <= k1 < k2 < m.ready.len() ==> #[trigger] m.ready[k1] != #[trigger] m.ready[k2]
}

/// Invoking an identity's waking handle: a live identity that is not yet
/// marked is appended to the ready queue and marked; anything else — an
/// unknown identity, a finished task, or one already marked ready — changes
/// nothing.
pub open spec fn wake_spec(m: ExecutorModel, id: int) -> ExecutorModel {
    if 0 <= id < m.alive.len() && m.alive[id] && !m.queued[id] {
        ExecutorModel { queued: m.queued.update(id, true), ready: m.ready.push(id), ..m }
    } else {
        m
    }
}

/// The state after invoking one waking handle `k` times in a row.
pub open spec fn wake_many(m: ExecutorModel, id: int, k: nat) -> ExecutorModel
    decreases k,
{
    if k == 0 {
        m
    } else {
        wake_spec(wake_many(m, id, (k - 1) as nat), id)
    }
}

/// A task that reported not ready is absent from the ready set until its
/// waking handle is invoked. One invocation re-enqueues it exactly once, and
/// K >= 1 invocations before the next poll act exactly as one: one re-poll,
/// not K.
pub proof fn lemma_wake_exactly_once(m: ExecutorModel, id: int, k: nat)
    requires
        model_wf(m),
        k >= 1,
        0 <= id < m.alive.len(),
        m.alive[id],
        !m.queued[id],
    ensures
        !m.ready.contains(id),
        wake_spec(m, id).ready == m.ready.push(id),
        wake_many(m, id, k) == wake_spec(m, id),
    decreases k,
{
    if m.ready.contains(id) {
        let j = choose|j: int| 0 <= j < m.ready.len() && m.ready[j] == id;
        assert(m.queued[m.ready[j]]);
        assert(false);
    }
    assert(wake_many(m, id, 0) == m);
    assert(wake_many(m, id, 1) == wake_spec(m, id));
    if k > 1 {
        lemma_wake_exactly_once(m, id, (k - 1) as nat);
        assert(wake_many(m, id, k) == wake_spec(wake_spec(m, id), id));
        assert(wake_spec(m, id).queued[id]);
    }
}

/// The cooperative executor. Tasks enter through `spawn` and leave for good
/// when a poll reports them finished; identities are assigned monotonically
/// and never reused. The ready queue holds the identities whose next poll is
/// due, each at most once however often its waking handle was invoked.
pub struct SimpleExecutor<T> {
    tasks: Vec<Option<T>>,
    queued: Vec<bool>,
    task_queue: VecDeque<usize>,
}

impl<T> View for SimpleExecutor<T> {
    type V = ExecutorModel;

    closed spec fn view(&self) -> ExecutorModel {
        ExecutorModel {
            alive: Seq::new(self.tasks@.len(), |i: int| self.tasks@[i] is Some),
            queued: self.queued@,
            ready: Seq::new(self.task_queue@.len(), |k: int| self.task_queue@[k] as int),
        }
    }
}

impl<T: KernelTask> SimpleExecutor<T> {
    /// An executor with no tasks and nothing ready.
    pub fn new() -> (executor: SimpleExecutor<T>)
        ensures
            model_wf(executor@),
            executor@.alive.len() == 0,
            executor@.ready.len() == 0,
    {
        SimpleExecutor { tasks: Vec::new(), queued: Vec::new(), task_queue: VecDeque::new() }
    }

    /// Inserts a task under a fresh identity — the arena slot it occupies,
    /// never used before — and marks it immediately ready to poll.
    pub fn spawn(&mut self, task: T) -> (id: usize)
        requires
            model_wf(old(self)@),
        ensures
            model_wf(final(self)@),
            id as int == old(self)@.alive.len(),
            final(self)@.alive =~= old(self)@.alive.push(true),
            final(self)@.queued =~= old(self)@.queued.push(true),
            final(self)@.ready =~= old(self)@.ready.push(id as int),
    {
        let id = self.tasks.len();
        self.tasks.push(Some(task));
        self.queued.push(true);
        self.task_queue.push_back(id);
        proof {
            assert(self@.alive =~= old(self)@.alive.push(true));
            assert(self@.ready =~= old(self)@.ready.push(id as int));
            assert forall|i: int| 0 <= i < self@.queued.len() && self@.queued[i] implies self@
                .ready.contains(i) by {
                if i < id {
                    assert(old(self)@.ready.contains(i));
                    let j = choose|j: int|
                        0 <= j < old(self)@.ready.len() && old(self)@.ready[j] == i;
                    assert(self@.ready[j] == i);
                } else {
                    assert(self@.ready[old(self)@.ready.len() as int] == id as int);
                }
            }
        }
        id
    }

    /// Invokes an identity's waking handle: marks it ready unless it is
    /// unknown, finished, or already marked.
    pub fn wake(&mut self, id: usize)
        requires
            model_wf(old(self)@),
        ensures
            model_wf(final(self)@),
            final(self)@ =~~= wake_spec(old(self)@, id as int),
    {
        if id < self.tasks.len() {
            if self.tasks[id].is_some() && !self.queued[id] {
                let flag = &mut self.queued[id];
                *flag = true;
                self.task_queue.push_back(id);
                proof {
                    assert(self@.ready =~= old(self)@.ready.push(id as int));
                    assert forall|i: int| 0 <= i < self@.queued.len() && self@.queued[i] implies
                        self@.ready.contains(i) by {
                        if i == id {
                            assert(self@.ready[old(self)@.ready.len() as int] == id as int);
                        } else {
                            assert(old(self)@.queued[i]);
                            let j = choose|j: int|
                                0 <= j < old(self)@.ready.len() && old(self)@.ready[j] == i;
                            assert(self@.ready[j] == i);
                        }
                    }
                    assert forall|k: int| 0 <= k < self@.ready.len() implies self@.queued[
                        #[trigger] self@.ready[k]] by {
                        if k < old(self)@.ready.len() {
                            assert(old(self)@.queued[old(self)@.ready[k]]);
                        }
                    }
                    if old(self)@.ready.contains(id as int) {
                        let j = choose|j: int|
                            0 <= j < old(self)@.ready.len() && old(self)@.ready[j] == id as int;
                        assert(old(self)@.queued[id as int]);
                        assert(false);
                    }
                }
            }
        }
    }

    /// Polls the task at the head of the ready queue, handing it its own
    /// identity as waking handle. The identity leaves the ready set: a task
    /// that reports not ready stays in the arena but is not polled again
    /// until its waking handle is invoked; a finished task leaves the arena
    /// for good. With nothing ready, nothing happens.
    pub fn run_one(&mut self, queue: &mut ScancodeQueue, writer: &mut Writer) -> (polled: Option<
        (usize, TaskPoll),
    >)
        requires
            model_wf(old(self)@),
            old(writer).wf(),
        ensures
            model_wf(final(self)@),
            final(writer).wf(),
            final(queue).capacity() == old(queue).capacity(),
            final(self)@.alive.len() == old(self)@.alive.len(),
            old(self)@.ready.len() == 0 ==> polled is None && final(self)@ =~~= old(self)@
                && *final(queue) == *old(queue) && *final(writer) == *old(writer),
            old(self)@.ready.len() > 0 ==> {
                &&& polled matches Some((id, outcome)) && {
                    &&& id as int == old(self)@.ready[0]
                    &&& final(self)@.ready =~= old(self)@.ready.drop_first()
                    &&& final(self)@.queued =~= old(self)@.queued.update(id as int, false)
                    &&& (outcome == TaskPoll::NotReady ==> final(self)@.alive =~= old(
                        self,
                    )@.alive)
                    &&& (outcome == TaskPoll::Finished ==> final(self)@.alive =~= old(
                        self,
                    )@.alive.update(id as int, false))
                }
            },
    {
        match self.task_queue.pop_front() {
            None => None,
            Some(id) => {
                proof {
                    assert(old(self)@.ready[0] == id as int);
                }
                let flag = &mut self.queued[id];
                *flag = false;
                let slot = &mut self.tasks[id];
                let mut task = slot.take().unwrap();
                let outcome = task.poll(queue, writer, id);
                if let TaskPoll::NotReady = outcome {
                    let slot_back = &mut self.tasks[id];
                    *slot_back = Some(task);
                }
                proof {
                    assert(self@.ready =~= old(self)@.ready.drop_first());
                    assert(self@.queued =~= old(self)@.queued.update(id as int, false));
                    assert forall|i: int| 0 <= i < self@.queued.len() && self@.queued[i] implies
                        self@.ready.contains(i) by {
                        assert(old(self)@.queued[i]);
                        let j = choose|j: int|
                            0 <= j < old(self)@.ready.len() && old(self)@.ready[j] == i;
                        assert(j != 0);
                        assert(self@.ready[j - 1] == i);
                    }
                    assert forall|k: int| 0 <= k < self@.ready.len() implies self@.queued[
                        #[trigger] self@.ready[k]] && self@.alive[self@.ready[k]] && 0 <= self@
                        .ready[k] < self@.alive.len() by {
                        assert(old(self)@.ready[k + 1] == self@.ready[k]);
                        assert(old(self)@.ready[k + 1] != old(self)@.ready[0]);
                    }
                }
                Some((id, outcome))
            },
        }
    }

    /// Runs until nothing is ready: repeatedly polls the head of the ready
    /// queue. Returns with the ready queue empty; a task leaves the arena
    /// only if it was ready when the pass began, so suspended tasks survive
    /// and wait for their waking handles. Parking the processor until the
    /// next interrupt is the embedder's concern.
    pub fn run(&mut self, queue: &mut ScancodeQueue, writer: &mut Writer)
        requires
            model_wf(old(self)@),
            old(writer).wf(),
        ensures
            model_wf(final(self)@),
            final(writer).wf(),
            final(queue).capacity() == old(queue).capacity(),
            final(self)@.ready.len() == 0,
            final(self)@.alive.len() == old(self)@.alive.len(),
            forall|i: int|
                0 <= i < old(self)@.alive.len() && (#[trigger] final(self)@.alive[i]) != old(
                    self,
                )@.alive[i] ==> old(self)@.queued[i],
    {
        loop
            invariant
                model_wf(self@),
                writer.wf(),
                queue.capacity() == old(queue).capacity(),
                self@.alive.len() == old(self)@.alive.len(),
                forall|i: int|
                    0 <= i < self@.queued.len() && (#[trigger] self@.queued[i]) ==> old(
                        self,
                    )@.queued[i],
                forall|i: int|
                    0 <= i < self@.alive.len() && (#[trigger] self@.alive[i]) != old(
                        self,
                    )@.alive[i] ==> old(self)@.queued[i],
            decreases self@.ready.len(),
        {
            if self.task_queue.len() == 0 {
                return;
            }
            self.run_one(queue, writer);
        }
    }
}

} // verus!
