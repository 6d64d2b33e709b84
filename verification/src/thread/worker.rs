//! One worker of the pool: its kill switch and the state of its thread.
//!
//! The thread itself is not here. Whoever runs it reports what the thread
//! does, and the worker keeps the books.

use vstd::prelude::*;

use crate::thread::life::{WorkerLife, WorkerLifeState};

verus! {

/// What the thread of a worker is doing.
#[derive(Clone, Copy, Debug, PartialEq, Eq, Structural)]
pub enum ThreadState {
    /// No thread has been started yet.
    Unstarted,
    /// The thread runs and will look at its kill switch next.
    Ready,
    /// The thread waits for a job.
    Parked,
    /// The thread runs a job.
    Busy,
    /// The thread has ended.
    Finished,
}

impl ThreadState {
    /// Whether there is a thread that has not ended.
    pub open spec fn alive(self) -> bool {
        self is Ready || self is Parked || self is Busy
    }

    /// Whether there is a thread that has not ended.
    pub fn is_alive(&self) -> (alive: bool)
        ensures
            alive == self.alive(),
    {
        match self {
            ThreadState::Ready => true,
            ThreadState::Parked => true,
            ThreadState::Busy => true,
            ThreadState::Unstarted => false,
            ThreadState::Finished => false,
        }
    }
}

/// A worker as contracts speak of it.
pub struct WorkerView {
    /// Whether the worker's kill switch has reached `Die`.
    pub killed: bool,
    /// What its thread is doing.
    pub thread: ThreadState,
}

impl WorkerView {
    /// Whether a thread is to be started for the worker: it has not been
    /// killed, and it has no thread that is alive.
    pub open spec fn needs_thread(self) -> bool {
        !self.killed && !self.thread.alive()
    }

    /// The worker after `spawn`: with a fresh thread where it needed one,
    /// and as it was where it did not.
    pub open spec fn spawned(self) -> WorkerView {
        if self.needs_thread() {
            WorkerView { thread: ThreadState::Ready, ..self }
        } else {
            self
        }
    }

    /// The worker with its thread in `thread`.
    pub open spec fn with_thread(self, thread: ThreadState) -> WorkerView {
        WorkerView { thread, ..self }
    }

    /// The worker once its thread has been given a job: a thread that waits
    /// runs the job. No other thread takes one.
    pub open spec fn took_job(self) -> WorkerView {
        if self.thread is Parked {
            self.with_thread(ThreadState::Busy)
        } else {
            self
        }
    }

    /// The worker once its job is done: a thread that ran one is ready to
    /// look at the kill switch again.
    pub open spec fn finished_job(self) -> WorkerView {
        if self.thread is Busy {
            self.with_thread(ThreadState::Ready)
        } else {
            self
        }
    }

    /// The worker once its thread has ended, because the queue was closed or
    /// because a job panicked.
    pub open spec fn ended(self) -> WorkerView {
        if self.thread.alive() {
            self.with_thread(ThreadState::Finished)
        } else {
            self
        }
    }

    /// The worker once its thread has looked at the kill switch: a thread
    /// that is `Ready` ends where the switch says `Die` and goes on to wait
    /// for a job where it does not. In any other state nothing is looked at.
    pub open spec fn looked(self) -> WorkerView {
        if self.thread is Ready {
            if self.killed {
                self.with_thread(ThreadState::Finished)
            } else {
                self.with_thread(ThreadState::Parked)
            }
        } else {
            self
        }
    }
}

/// One worker of the pool.
#[derive(Debug)]
pub struct Worker {
    thread: ThreadState,
    life: WorkerLife,
}

impl View for Worker {
    type V = WorkerView;

    closed spec fn view(&self) -> WorkerView {
        WorkerView { killed: self.life@ == WorkerLifeState::Die, thread: self.thread }
    }
}

impl Worker {
    /// A worker with a kill switch of its own, in `Life`, and a thread that
    /// is to be started for it.
    pub fn new() -> (worker: Self)
        ensures
            worker@ == (WorkerView { killed: false, thread: ThreadState::Ready }),
    {
        let mut worker = Worker { thread: ThreadState::Unstarted, life: WorkerLife::new() };
        worker.spawn();
        worker
    }

    /// Gives the worker a thread if it needs one, and says whether it did:
    /// the caller then starts the thread. A worker that has been killed gets
    /// none, and neither does one whose thread is alive.
    pub fn spawn(&mut self) -> (started: bool)
        ensures
            started == old(self)@.needs_thread(),
            final(self)@ == old(self)@.spawned(),
    {
        if self.is_killed() || self.thread.is_alive() {
            return false;
        }
        self.thread = ThreadState::Ready;
        true
    }

    /// Moves the worker's kill switch to `Die`. Its thread is not touched:
    /// it ends when it next looks at the switch.
    pub fn kill(&mut self)
        ensures
            final(self)@ == (WorkerView { killed: true, ..old(self)@ }),
    {
        self.life.die();
    }

    /// Whether the worker has been killed.
    pub fn is_killed(&self) -> (killed: bool)
        ensures
            killed == self@.killed,
    {
        self.life.is_die()
    }

    /// What the worker's thread is doing.
    pub fn thread(&self) -> (thread: ThreadState)
        ensures
            thread == self@.thread,
    {
        self.thread
    }

    /// The thread looks at the kill switch before it waits for a job. The
    /// result says whether it goes on to wait.
    pub fn look(&mut self) -> (waits: bool)
        ensures
            final(self)@ == old(self)@.looked(),
            waits == (final(self)@.thread is Parked),
    {
        match self.thread {
            ThreadState::Ready => {
                if self.is_killed() {
                    self.thread = ThreadState::Finished;
                    false
                } else {
                    self.thread = ThreadState::Parked;
                    true
                }
            },
            ThreadState::Parked => true,
            _ => false,
        }
    }

    /// The thread, waiting, has been given a job and runs it.
    pub fn take_job(&mut self)
        ensures
            final(self)@ == old(self)@.took_job(),
    {
        match self.thread {
            ThreadState::Parked => {
                self.thread = ThreadState::Busy;
            },
            _ => {},
        }
    }

    /// The thread has run its job to the end.
    pub fn finish_job(&mut self)
        ensures
            final(self)@ == old(self)@.finished_job(),
    {
        match self.thread {
            ThreadState::Busy => {
                self.thread = ThreadState::Ready;
            },
            _ => {},
        }
    }

    /// The thread has ended.
    pub fn end(&mut self)
        ensures
            final(self)@ == old(self)@.ended(),
    {
        if self.thread.is_alive() {
            self.thread = ThreadState::Finished;
        }
    }
}

} // verus!
