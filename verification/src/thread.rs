//! The bounded worker pool and its workers.
//!
//! The pool keeps the books of a set of worker threads and of the queue of
//! jobs that they share. It starts no thread and runs no job: it says which
//! threads are to be started and which job a thread is to run, and whoever
//! owns the threads does it. Every thread that takes part goes through the
//! pool under one lock, so that each step here happens as a whole.

pub mod life;
pub mod trace;
pub mod worker;

use std::collections::VecDeque;
use vstd::prelude::*;

use crate::thread::worker::{ThreadState, Worker, WorkerView};

verus! {

/// A pool as contracts speak of it.
pub struct PoolView<J> {
    /// The workers, by their number.
    pub workers: Seq<WorkerView>,
    /// The jobs that wait, the oldest first.
    pub queue: Seq<J>,
    /// Whether the pool has been shut down: it takes no job any more.
    pub closed: bool,
}

/// What a worker thread is to do next.
#[derive(Debug, PartialEq, Eq)]
pub enum Dispatch<J> {
    /// Run this job, then report that it is done and ask again.
    Run(J),
    /// Wait until the pool changes, then ask again.
    Wait,
    /// End the thread.
    Exit,
}

/// A job that the pool did not take, because nothing is left that could
/// receive it. The job comes back with the error; it has not been queued.
#[derive(Debug, PartialEq, Eq)]
pub struct SubmitError<J>(pub J);

impl<J> PoolView<J> {
    /// A pool that has just been made with `capacity` workers: each with a
    /// thread to start and a kill switch in `Life`, and no job waiting.
    pub open spec fn fresh(capacity: nat) -> PoolView<J> {
        PoolView {
            workers: Seq::new(
                capacity,
                |i: int| WorkerView { killed: false, thread: ThreadState::Ready },
            ),
            queue: Seq::empty(),
            closed: false,
        }
    }

    /// Whether `id` is the number of a worker.
    pub open spec fn has_worker(self, id: int) -> bool {
        0 <= id < self.workers.len()
    }

    /// The pool with `worker` in place of worker `id`.
    pub open spec fn with_worker(self, id: int, worker: WorkerView) -> PoolView<J> {
        PoolView { workers: self.workers.update(id, worker), ..self }
    }

    /// Whether the pool takes a job: it has not been shut down, and it has a
    /// worker that could receive the job.
    pub open spec fn accepts(self) -> bool {
        !self.closed && self.workers.len() > 0
    }

    /// The pool after `execute`: the job waits behind the others, if the pool
    /// takes jobs.
    pub open spec fn executed(self, job: J) -> PoolView<J> {
        if self.accepts() {
            PoolView { queue: self.queue.push(job), ..self }
        } else {
            self
        }
    }

    /// The pool after `heal`: every worker that needed a thread has one.
    pub open spec fn healed(self) -> PoolView<J> {
        PoolView {
            workers: Seq::new(self.workers.len(), |i: int| self.workers[i].spawned()),
            ..self
        }
    }

    /// The pool after worker `id` has asked what to do. Its thread looks at
    /// the kill switch only if it is not waiting already. Then, waiting, it
    /// takes the oldest job if there is one, ends if there is none and the
    /// pool has been shut down, and waits on otherwise.
    pub open spec fn stepped(self, id: int) -> PoolView<J> {
        if !self.has_worker(id) {
            self
        } else {
            let worker = self.workers[id].looked();
            if !(worker.thread is Parked) {
                self.with_worker(id, worker)
            } else if self.queue.len() > 0 {
                PoolView {
                    workers: self.workers.update(id, worker.took_job()),
                    queue: self.queue.drop_first(),
                    ..self
                }
            } else if self.closed {
                self.with_worker(id, worker.ended())
            } else {
                self.with_worker(id, worker)
            }
        }
    }

    /// What worker `id` is told when it asks what to do.
    pub open spec fn step_gives(self, id: int) -> Dispatch<J> {
        if !self.has_worker(id) {
            Dispatch::Exit
        } else {
            match self.workers[id].looked().thread {
                ThreadState::Parked => if self.queue.len() > 0 {
                    Dispatch::Run(self.queue[0])
                } else if self.closed {
                    Dispatch::Exit
                } else {
                    Dispatch::Wait
                },
                ThreadState::Busy => Dispatch::Wait,
                _ => Dispatch::Exit,
            }
        }
    }

    /// The pool after worker `id` has reported its job done: a busy thread
    /// is ready again.
    pub open spec fn job_done(self, id: int) -> PoolView<J> {
        if self.has_worker(id) {
            self.with_worker(id, self.workers[id].finished_job())
        } else {
            self
        }
    }

    /// The pool after the thread of worker `id` was found to have ended on
    /// its own, as it does when a job panics.
    pub open spec fn thread_ended(self, id: int) -> PoolView<J> {
        if self.has_worker(id) {
            self.with_worker(id, self.workers[id].ended())
        } else {
            self
        }
    }

    /// The pool after `shutdown`: every worker killed, no job taken any
    /// more. The jobs that wait stay for the threads that are waiting.
    pub open spec fn shut_down(self) -> PoolView<J> {
        PoolView {
            workers: Seq::new(
                self.workers.len(),
                |i: int| WorkerView { killed: true, ..self.workers[i] },
            ),
            closed: true,
            ..self
        }
    }
}

/// A bounded pool of workers that share one queue of jobs of type `J`.
pub struct ThreadPool<J> {
    workers: Vec<Worker>,
    queue: VecDeque<J>,
    closed: bool,
}

impl<J> View for ThreadPool<J> {
    type V = PoolView<J>;

    closed spec fn view(&self) -> PoolView<J> {
        PoolView {
            workers: Seq::new(self.workers@.len(), |i: int| self.workers@[i]@),
            queue: self.queue@,
            closed: self.closed,
        }
    }
}

impl<J> ThreadPool<J> {
    /// A pool of `pool` workers. A thread is to be started for each of them.
    pub fn new(pool: u32) -> (made: Self)
        ensures
            made@ == PoolView::<J>::fresh(pool as nat),
    {
        let mut workers: Vec<Worker> = Vec::new();
        let mut i: u32 = 0;
        while i < pool
            invariant
                i <= pool,
                workers@.len() == i,
                forall|k: int|
                    0 <= k < i ==> (#[trigger] workers@[k])@ == (WorkerView {
                        killed: false,
                        thread: ThreadState::Ready,
                    }),
            decreases pool - i,
        {
            workers.push(Worker::new());
            i += 1;
        }
        let made = ThreadPool { workers, queue: VecDeque::new(), closed: false };
        assert(made@.workers =~= PoolView::<J>::fresh(pool as nat).workers);
        made
    }

    /// How many workers the pool has.
    pub fn capacity(&self) -> (capacity: usize)
        ensures
            capacity == self@.workers.len(),
    {
        self.workers.len()
    }

    /// How many jobs wait.
    pub fn queued(&self) -> (queued: usize)
        ensures
            queued == self@.queue.len(),
    {
        self.queue.len()
    }

    /// Whether the pool has been shut down.
    pub fn is_closed(&self) -> (closed: bool)
        ensures
            closed == self@.closed,
    {
        self.closed
    }

    /// Worker `id`, if the pool has one of this number.
    pub fn worker(&self, id: usize) -> (worker: Option<&Worker>)
        ensures
            self@.has_worker(id as int) ==> worker is Some && worker->0@
                == self@.workers[id as int],
            !self@.has_worker(id as int) ==> worker is None,
    {
        if id < self.workers.len() {
            Some(&self.workers[id])
        } else {
            None
        }
    }

    /// Gives every worker that needs one a thread, and returns the numbers
    /// of these workers, in rising order: the caller starts a thread for
    /// each. A worker needs a thread if it has not been killed and has none
    /// that is alive.
    pub fn heal(&mut self) -> (started: Vec<usize>)
        ensures
            final(self)@ == old(self)@.healed(),
            forall|k: int|
                0 <= k < started@.len() ==> old(self)@.has_worker(started@[k] as int) && old(
                    self,
                )@.workers[started@[k] as int].needs_thread(),
            forall|i: int|
                old(self)@.has_worker(i) && old(self)@.workers[i].needs_thread()
                    ==> exists|k: int| 0 <= k < started@.len() && started@[k] == i,
            forall|a: int, b: int| 0 <= a < b < started@.len() ==> started@[a] < started@[b],
    {
        let mut started: Vec<usize> = Vec::new();
        let mut i: usize = 0;
        while i < self.workers.len()
            invariant
                i <= self.workers@.len(),
                self.workers@.len() == old(self).workers@.len(),
                self.queue == old(self).queue,
                self.closed == old(self).closed,
                forall|k: int| 0 <= k < i ==> (#[trigger] self.workers@[k])@ == old(
                    self,
                ).workers@[k]@.spawned(),
                forall|k: int| i <= k < self.workers@.len() ==> (#[trigger] self.workers@[k])
                    == old(self).workers@[k],
                forall|k: int|
                    0 <= k < started@.len() ==> 0 <= #[trigger] started@[k] < i && old(
                        self,
                    ).workers@[started@[k] as int]@.needs_thread(),
                forall|j: int|
                    0 <= j < i && old(self).workers@[j]@.needs_thread() ==> exists|k: int|
                        0 <= k < started@.len() && #[trigger] started@[k] == j,
                forall|a: int, b: int|
                    0 <= a < b < started@.len() ==> #[trigger] started@[a] < #[trigger] started@[b],
            decreases self.workers@.len() - i,
        {
            let ghost before = started@;
            if self.workers[i].spawn() {
                started.push(i);
                assert(started@[before.len() as int] == i);
                assert forall|j: int|
                    0 <= j < i + 1 && old(self).workers@[j]@.needs_thread() implies exists|k: int|
                    0 <= k < started@.len() && #[trigger] started@[k] == j by {
                    if j < i {
                        let k = choose|k: int| 0 <= k < before.len() && before[k] == j;
                        assert(started@[k] == j);
                    }
                }
            }
            i += 1;
        }
        assert(self@.workers =~= old(self)@.healed().workers);
        started
    }

    /// Queues a job behind those that wait. The pool takes the job unless
    /// it has been shut down or has no worker; then the job comes back in the
    /// error, and the pool stays as it was.
    pub fn execute(&mut self, job: J) -> (result: Result<(), SubmitError<J>>)
        ensures
            final(self)@ == old(self)@.executed(job),
            old(self)@.accepts() ==> result is Ok,
            !old(self)@.accepts() ==> result == Err::<(), SubmitError<J>>(SubmitError(job)),
    {
        if self.closed || self.workers.len() == 0 {
            return Err(SubmitError(job));
        }
        self.queue.push_back(job);
        Ok(())
    }

    /// Worker `id` asks what to do, and is told: the answer is
    /// [`PoolView::step_gives`], and the pool goes on as
    /// [`PoolView::stepped`] says. Whoever is no worker of the pool is told
    /// to end.
    pub fn step(&mut self, id: usize) -> (next: Dispatch<J>)
        ensures
            final(self)@ == old(self)@.stepped(id as int),
            next == old(self)@.step_gives(id as int),
    {
        if id >= self.workers.len() {
            return Dispatch::Exit;
        }
        let ghost before = self@;
        if !self.workers[id].look() {
            let thread: ThreadState = self.workers[id].thread();
            assert(self@.workers =~= before.workers.update(
                id as int,
                before.workers[id as int].looked(),
            ));
            return match thread {
                ThreadState::Busy => Dispatch::Wait,
                _ => Dispatch::Exit,
            };
        }
        match self.queue.pop_front() {
            Some(job) => {
                self.workers[id].take_job();
                assert(self@.workers =~= before.workers.update(
                    id as int,
                    before.workers[id as int].looked().took_job(),
                ));
                Dispatch::Run(job)
            },
            None => {
                if self.closed {
                    self.workers[id].end();
                    assert(self@.workers =~= before.workers.update(
                        id as int,
                        before.workers[id as int].looked().ended(),
                    ));
                    Dispatch::Exit
                } else {
                    assert(self@.workers =~= before.workers.update(
                        id as int,
                        before.workers[id as int].looked(),
                    ));
                    Dispatch::Wait
                }
            },
        }
    }

    /// Worker `id` reports that the job it ran is done: its thread is ready
    /// again. For a worker that runs no job nothing changes.
    pub fn job_done(&mut self, id: usize)
        ensures
            final(self)@ == old(self)@.job_done(id as int),
    {
        if id < self.workers.len() {
            let ghost before = self@;
            self.workers[id].finish_job();
            assert(self@.workers =~= before.workers.update(
                id as int,
                before.workers[id as int].finished_job(),
            ));
        }
    }

    /// The thread of worker `id` was found to have ended on its own, as it
    /// does when a job panics. For a worker without a live thread nothing
    /// changes.
    pub fn thread_ended(&mut self, id: usize)
        ensures
            final(self)@ == old(self)@.thread_ended(id as int),
    {
        if id < self.workers.len() {
            let ghost before = self@;
            self.workers[id].end();
            assert(self@.workers =~= before.workers.update(
                id as int,
                before.workers[id as int].ended(),
            ));
        }
    }

    /// Shuts the pool down: every worker is killed and no job is taken any
    /// more. No thread is interrupted. One that runs a job finishes it and
    /// ends when it next looks at its kill switch; one that waits takes a job
    /// that still waits, and ends when none is left.
    pub fn shutdown(&mut self)
        ensures
            final(self)@ == old(self)@.shut_down(),
    {
        let mut i: usize = 0;
        while i < self.workers.len()
            invariant
                i <= self.workers@.len(),
                self.workers@.len() == old(self).workers@.len(),
                self.queue == old(self).queue,
                forall|k: int| 0 <= k < i ==> (#[trigger] self.workers@[k])@ == (WorkerView {
                    killed: true,
                    ..old(self).workers@[k]@
                }),
                forall|k: int| i <= k < self.workers@.len() ==> (#[trigger] self.workers@[k])
                    == old(self).workers@[k],
            decreases self.workers@.len() - i,
        {
            self.workers[i].kill();
            i += 1;
        }
        self.closed = true;
        assert(self@.workers =~= old(self)@.shut_down().workers);
    }
}

} // verus!
