//! What holds of a pool whatever happens to it, in whatever order.
//!
//! A history of a pool is a sequence of events. The laws here speak of every
//! history, so they hold of every way in which threads may take their turns.

use vstd::prelude::*;

use crate::thread::worker::{ThreadState, WorkerView};
use crate::thread::{Dispatch, PoolView};

verus! {

/// One thing that happens to a pool.
pub enum PoolEvent<J> {
    /// A job is handed to `execute`.
    Execute(J),
    /// A worker asks what to do.
    Step(int),
    /// A worker reports its job done.
    JobDone(int),
    /// The thread of a worker was found to have ended on its own.
    ThreadEnded(int),
    /// `heal` is called.
    Heal,
    /// `shutdown` is called.
    Shutdown,
}

/// The pool after `event`.
pub open spec fn apply<J>(pool: PoolView<J>, event: PoolEvent<J>) -> PoolView<J> {
    match event {
        PoolEvent::Execute(job) => pool.executed(job),
        PoolEvent::Step(id) => pool.stepped(id),
        PoolEvent::JobDone(id) => pool.job_done(id),
        PoolEvent::ThreadEnded(id) => pool.thread_ended(id),
        PoolEvent::Heal => pool.healed(),
        PoolEvent::Shutdown => pool.shut_down(),
    }
}

/// The job that `event` puts into the queue, if it puts one.
pub open spec fn accepted<J>(pool: PoolView<J>, event: PoolEvent<J>) -> Seq<J> {
    match event {
        PoolEvent::Execute(job) => if pool.accepts() {
            seq![job]
        } else {
            Seq::empty()
        },
        _ => Seq::empty(),
    }
}

/// The job that `event` hands to a worker to run, if it hands one.
pub open spec fn started<J>(pool: PoolView<J>, event: PoolEvent<J>) -> Seq<J> {
    match event {
        PoolEvent::Step(id) => match pool.step_gives(id) {
            Dispatch::Run(job) => seq![job],
            _ => Seq::empty(),
        },
        _ => Seq::empty(),
    }
}

/// The pool after `events`, in order.
pub open spec fn run<J>(pool: PoolView<J>, events: Seq<PoolEvent<J>>) -> PoolView<J>
    decreases events.len(),
{
    if events.len() == 0 {
        pool
    } else {
        run(apply(pool, events[0]), events.drop_first())
    }
}

/// The jobs that `events` put into the queue, in order.
pub open spec fn accepted_by<J>(pool: PoolView<J>, events: Seq<PoolEvent<J>>) -> Seq<J>
    decreases events.len(),
{
    if events.len() == 0 {
        Seq::empty()
    } else {
        accepted(pool, events[0]) + accepted_by(apply(pool, events[0]), events.drop_first())
    }
}

/// The jobs that `events` hand to workers to run, in order.
pub open spec fn started_by<J>(pool: PoolView<J>, events: Seq<PoolEvent<J>>) -> Seq<J>
    decreases events.len(),
{
    if events.len() == 0 {
        Seq::empty()
    } else {
        started(pool, events[0]) + started_by(apply(pool, events[0]), events.drop_first())
    }
}

/// Events add up: `first` and then `then` is both in a row.
pub proof fn lemma_run_concat<J>(
    pool: PoolView<J>,
    first: Seq<PoolEvent<J>>,
    then: Seq<PoolEvent<J>>,
)
    ensures
        run(pool, first + then) == run(run(pool, first), then),
    decreases first.len(),
{
    if first.len() > 0 {
        assert((first + then).drop_first() =~= first.drop_first() + then);
        lemma_run_concat(apply(pool, first[0]), first.drop_first(), then);
    }
}

/// No job is lost and none is run twice. In every history, the jobs that
/// waited at its start and those that the pool took since are, in this
/// order, the jobs that were handed to workers followed by those that still
/// wait. So a job is handed out at most once, jobs are handed out in the
/// order in which they came, and a job that is not waiting any more has been
/// handed out.
pub proof fn lemma_jobs_conserved<J>(pool: PoolView<J>, events: Seq<PoolEvent<J>>)
    ensures
        pool.queue + accepted_by(pool, events) == started_by(pool, events) + run(
            pool,
            events,
        ).queue,
    decreases events.len(),
{
    if events.len() > 0 {
        let next = apply(pool, events[0]);
        let rest = events.drop_first();
        lemma_jobs_conserved(next, rest);
        assert(pool.queue + accepted(pool, events[0]) =~= started(pool, events[0]) + next.queue);
        assert((started(pool, events[0]) + next.queue) + accepted_by(next, rest) =~= started(
            pool,
            events[0],
        ) + (next.queue + accepted_by(next, rest)));
    }
}

/// Once no job waits, every job that the pool took has been handed to a
/// worker, once.
pub proof fn lemma_drained_pool_ran_all<J>(pool: PoolView<J>, events: Seq<PoolEvent<J>>)
    requires
        run(pool, events).queue.len() == 0,
    ensures
        started_by(pool, events) == pool.queue + accepted_by(pool, events),
{
    lemma_jobs_conserved(pool, events);
}

/// Nothing that happens to a pool changes how many workers it has, revives
/// a worker that has been killed, or opens a pool that has been shut down.
pub proof fn lemma_event_keeps<J>(pool: PoolView<J>, event: PoolEvent<J>)
    ensures
        apply(pool, event).workers.len() == pool.workers.len(),
        pool.closed ==> apply(pool, event).closed,
        forall|i: int|
            pool.has_worker(i) && pool.workers[i].killed ==> #[trigger] apply(
                pool,
                event,
            ).workers[i].killed,
{
}

/// A worker that has been killed and whose thread has ended never runs
/// again: no event gives it a thread.
pub proof fn lemma_dead_worker_stays_dead<J>(pool: PoolView<J>, events: Seq<PoolEvent<J>>, id: int)
    requires
        pool.has_worker(id),
        pool.workers[id].killed,
        !pool.workers[id].thread.alive(),
    ensures
        run(pool, events).has_worker(id),
        run(pool, events).workers[id].killed,
        !run(pool, events).workers[id].thread.alive(),
    decreases events.len(),
{
    if events.len() > 0 {
        lemma_event_keeps(pool, events[0]);
        lemma_dead_worker_stays_dead(apply(pool, events[0]), events.drop_first(), id);
    }
}

/// Shutting down ends the threads. In a pool that has been shut down and
/// in which no job waits, a worker that asks what to do is told to end, and
/// has no live thread from then on, unless it is still at its job.
pub proof fn lemma_shutdown_ends_threads<J>(pool: PoolView<J>, id: int)
    requires
        pool.has_worker(id),
        !(pool.workers[id].thread is Busy),
        pool.queue.len() == 0,
    ensures
        pool.shut_down().step_gives(id) == Dispatch::<J>::Exit,
        !pool.shut_down().stepped(id).workers[id].thread.alive(),
{
}

/// After `heal` the pool has the workers it had, and each of them that has
/// not been killed has a live thread. No job is touched.
pub proof fn lemma_healed<J>(pool: PoolView<J>)
    ensures
        pool.healed().workers.len() == pool.workers.len(),
        pool.healed().queue == pool.queue,
        forall|i: int|
            pool.has_worker(i) ==> (#[trigger] pool.healed().workers[i]).killed
                || pool.healed().workers[i].thread.alive(),
        forall|i: int|
            pool.has_worker(i) && !pool.workers[i].needs_thread() ==> #[trigger] pool.healed().workers[i]
                == pool.workers[i],
{
}

/// How many of `workers` run a job.
pub open spec fn busy(workers: Seq<WorkerView>) -> nat
    decreases workers.len(),
{
    if workers.len() == 0 {
        0
    } else {
        busy(workers.drop_last()) + if workers.last().thread is Busy {
            1nat
        } else {
            0nat
        }
    }
}

/// A pool never runs more jobs at a time than it has workers.
pub proof fn lemma_busy_bounded(workers: Seq<WorkerView>)
    ensures
        busy(workers) <= workers.len(),
    decreases workers.len(),
{
    if workers.len() > 0 {
        lemma_busy_bounded(workers.drop_last());
    }
}

/// The events of handing `jobs` to `execute`, one after the other.
pub open spec fn executes<J>(jobs: Seq<J>) -> Seq<PoolEvent<J>> {
    Seq::new(jobs.len(), |i: int| PoolEvent::Execute(jobs[i]))
}

/// The events of the workers `from`, `from + 1`, up to `to - 1` asking, in
/// this order, what to do.
pub open spec fn steps<J>(from: int, to: int) -> Seq<PoolEvent<J>> {
    Seq::new((to - from) as nat, |i: int| PoolEvent::Step(from + i))
}

/// A pool that takes jobs queues all of `jobs` behind those that wait.
pub proof fn lemma_executes<J>(pool: PoolView<J>, jobs: Seq<J>)
    requires
        pool.accepts(),
    ensures
        run(pool, executes(jobs)) == (PoolView { queue: pool.queue + jobs, ..pool }),
    decreases jobs.len(),
{
    if jobs.len() > 0 {
        let next = pool.executed(jobs[0]);
        assert(executes(jobs).drop_first() =~= executes(jobs.drop_first()));
        lemma_executes(next, jobs.drop_first());
        assert(next.queue + jobs.drop_first() =~= pool.queue + jobs);
    }
}

/// The smaller of two numbers.
pub open spec fn least(a: int, b: int) -> int {
    if a <= b {
        a
    } else {
        b
    }
}

/// Whether `pool` is a pool of `n` workers in which the first `asked`
/// workers have asked what to do since `jobs` were queued, and the others
/// have not: of those that asked, as many as there were jobs run one, the
/// others wait; the jobs that no worker took wait in their order.
pub open spec fn saturating<J>(pool: PoolView<J>, n: int, jobs: Seq<J>, asked: int) -> bool {
    &&& pool.workers.len() == n
    &&& !pool.closed
    &&& 0 <= asked <= n
    &&& pool.queue == jobs.skip(least(asked, jobs.len() as int))
    &&& forall|i: int|
        0 <= i < n ==> #[trigger] pool.workers[i] == (WorkerView {
            killed: false,
            thread: if i >= asked {
                ThreadState::Ready
            } else if i < jobs.len() {
                ThreadState::Busy
            } else {
                ThreadState::Parked
            },
        })
}

proof fn lemma_saturating_step<J>(pool: PoolView<J>, n: int, jobs: Seq<J>, asked: int)
    requires
        saturating(pool, n, jobs, asked),
        asked < n,
    ensures
        saturating(pool.stepped(asked), n, jobs, asked + 1),
        pool.step_gives(asked) == if asked < jobs.len() {
            Dispatch::Run(jobs[asked])
        } else {
            Dispatch::<J>::Wait
        },
{
    if asked < jobs.len() {
        assert(pool.stepped(asked).queue =~= jobs.skip(asked + 1));
    }
}

proof fn lemma_saturating_steps<J>(pool: PoolView<J>, n: int, jobs: Seq<J>, asked: int)
    requires
        saturating(pool, n, jobs, asked),
    ensures
        saturating(run(pool, steps(asked, n)), n, jobs, n),
    decreases n - asked,
{
    if asked < n {
        lemma_saturating_step(pool, n, jobs, asked);
        assert(steps::<J>(asked, n).drop_first() =~= steps::<J>(asked + 1, n));
        lemma_saturating_steps(pool.stepped(asked), n, jobs, asked + 1);
    }
}

proof fn lemma_busy_prefix<J>(pool: PoolView<J>, n: int, jobs: Seq<J>, upto: int)
    requires
        saturating(pool, n, jobs, n),
        0 <= upto <= n,
    ensures
        busy(pool.workers.take(upto)) == least(upto, jobs.len() as int),
    decreases upto,
{
    if upto > 0 {
        lemma_busy_prefix(pool, n, jobs, upto - 1);
        assert(pool.workers.take(upto).drop_last() =~= pool.workers.take(upto - 1));
    }
}

/// A pool works to its capacity and not beyond it. Let a fresh pool of `n`
/// workers be handed `jobs`, and let then each worker ask once what to do.
/// Where there are more jobs than workers, every worker runs a job, worker
/// `i` the job `i`, and the jobs from `n` on wait in their order. Where there
/// are fewer, as many workers as there are jobs run one and the others wait
/// for work. Either way the number of jobs that run is the smaller of the
/// two numbers.
pub proof fn lemma_pool_saturates<J>(n: nat, jobs: Seq<J>)
    requires
        n >= 1,
    ensures
        ({
            let pool = run(PoolView::<J>::fresh(n), executes(jobs) + steps::<J>(0, n as int));
            let m = least(n as int, jobs.len() as int);
            &&& pool.workers.len() == n
            &&& busy(pool.workers) == m
            &&& pool.queue == jobs.skip(m)
            &&& forall|i: int| 0 <= i < m ==> (#[trigger] pool.workers[i]).thread is Busy
            &&& forall|i: int| m <= i < n ==> (#[trigger] pool.workers[i]).thread is Parked
        }),
{
    let fresh = PoolView::<J>::fresh(n);
    let queued = run(fresh, executes(jobs));
    lemma_executes(fresh, jobs);
    lemma_run_concat(fresh, executes(jobs), steps::<J>(0, n as int));
    assert(queued.queue =~= jobs.skip(0));
    lemma_saturating_steps(queued, n as int, jobs, 0);
    let pool = run(queued, steps::<J>(0, n as int));
    lemma_busy_prefix(pool, n as int, jobs, n as int);
    assert(pool.workers.take(n as int) =~= pool.workers);
}

/// A fresh pool of `n` workers has `n` workers, none of them killed and each
/// with a live thread, and it takes jobs if it has a worker at all.
pub proof fn lemma_fresh_pool<J>(n: nat)
    ensures
        PoolView::<J>::fresh(n).workers.len() == n,
        forall|i: int|
            0 <= i < n ==> !(#[trigger] PoolView::<J>::fresh(n).workers[i]).killed
                && PoolView::<J>::fresh(n).workers[i].thread.alive(),
        PoolView::<J>::fresh(n).queue.len() == 0,
        n >= 1 ==> PoolView::<J>::fresh(n).accepts(),
{
}

} // verus!
