//! The server side of the engine: its settings, the decisions of its accept
//! loop, its connections and the grammar of a request head.

pub mod buffer;
pub mod exchange;
pub mod grammar;
pub mod headers;
pub mod registry;
pub mod request;
pub mod socket;
pub mod stream;

use vstd::prelude::*;

use crate::server::exchange::SinkPolicy;
use crate::server::socket::{IpAddress, SocketAddress};
use crate::thread::life::{WorkerLife, WorkerLifeState};

verus! {

/// What a launch is to do: where to listen, with how many workers, on which
/// thread to accept, and what to do when the host's handler fails.
#[derive(Clone, Copy, Debug, PartialEq, Eq)]
pub struct Launch {
    /// The address to bind: the loopback address, at the port asked for.
    pub local_addr: SocketAddress,
    /// How many workers the pool is made with.
    pub pool_capacity: u32,
    /// Whether the accept loop runs on the thread that launches, which then
    /// does not return before the loop ends, or on a thread of its own.
    pub obstruct: bool,
    /// What is done when the host's handler fails.
    pub sink_policy: SinkPolicy,
}

/// The settings of a server and its kill switch.
#[derive(Debug)]
pub struct Server {
    pool_capacity: u32,
    obstruct: bool,
    sink_policy: SinkPolicy,
    life: WorkerLife,
}

/// A server as contracts speak of it.
pub struct ServerView {
    pub pool_capacity: u32,
    pub obstruct: bool,
    pub sink_policy: SinkPolicy,
    pub life: WorkerLifeState,
}

impl View for Server {
    type V = ServerView;

    closed spec fn view(&self) -> ServerView {
        ServerView {
            pool_capacity: self.pool_capacity,
            obstruct: self.obstruct,
            sink_policy: self.sink_policy,
            life: self.life@,
        }
    }
}

/// The loopback address at `port`.
pub open spec fn loopback(port: u16) -> SocketAddress {
    SocketAddress { ip: IpAddress::V4([127u8, 0u8, 0u8, 1u8]), port }
}

impl Server {
    /// A server with one worker, which accepts on a thread of its own, ends
    /// the process when the host's handler fails, and has not been closed.
    pub fn new() -> (server: Self)
        ensures
            server@ == (ServerView {
                pool_capacity: 1,
                obstruct: false,
                sink_policy: SinkPolicy::Crash,
                life: WorkerLifeState::Life,
            }),
    {
        Server {
            pool_capacity: 1,
            obstruct: false,
            sink_policy: SinkPolicy::Crash,
            life: WorkerLife::new(),
        }
    }

    /// How many workers the pool is made with.
    pub fn get_pool_capacity(&self) -> (pool_capacity: u32)
        ensures
            pool_capacity == self@.pool_capacity,
    {
        self.pool_capacity
    }

    /// Sets how many workers the pool is made with.
    pub fn set_pool_capacity(&mut self, pool_capacity: u32)
        ensures
            final(self)@ == (ServerView { pool_capacity, ..old(self)@ }),
    {
        self.pool_capacity = pool_capacity;
    }

    /// Whether launching keeps the thread that launches.
    pub fn get_obstruction(&self) -> (obstruct: bool)
        ensures
            obstruct == self@.obstruct,
    {
        self.obstruct
    }

    /// Sets whether launching keeps the thread that launches.
    pub fn set_obstruction(&mut self, obstruct: bool)
        ensures
            final(self)@ == (ServerView { obstruct, ..old(self)@ }),
    {
        self.obstruct = obstruct;
    }

    /// What is done when the host's handler fails.
    pub fn get_sink_policy(&self) -> (sink_policy: SinkPolicy)
        ensures
            sink_policy == self@.sink_policy,
    {
        self.sink_policy
    }

    /// Sets what is done when the host's handler fails.
    pub fn set_sink_policy(&mut self, sink_policy: SinkPolicy)
        ensures
            final(self)@ == (ServerView { sink_policy, ..old(self)@ }),
    {
        self.sink_policy = sink_policy;
    }

    /// What a launch at `port` is to do with the settings as they stand.
    pub fn launch_on(&self, port: u16) -> (launch: Launch)
        ensures
            launch.local_addr == loopback(port),
            launch.pool_capacity == self@.pool_capacity,
            launch.obstruct == self@.obstruct,
            launch.sink_policy == self@.sink_policy,
    {
        let octets: [u8; 4] = [127, 0, 0, 1];
        Launch {
            local_addr: SocketAddress::new(IpAddress::V4(octets), port),
            pool_capacity: self.pool_capacity,
            obstruct: self.obstruct,
            sink_policy: self.sink_policy,
        }
    }

    /// The state of the kill switch: what the accept loop looks at.
    pub fn life(&self) -> (life: WorkerLifeState)
        ensures
            life == self@.life,
    {
        self.life.get()
    }

    /// Closes the server: its kill switch goes to `Die`. The result says
    /// whether this call closed it; closing a closed server changes nothing.
    pub fn close(&mut self) -> (closed_now: bool)
        ensures
            closed_now == (old(self)@.life == WorkerLifeState::Life),
            final(self)@ == (ServerView { life: WorkerLifeState::Die, ..old(self)@ }),
    {
        let closed_now: bool = !self.life.is_die();
        self.life.die();
        closed_now
    }
}

/// What one call of `accept` on the listener came to.
#[derive(Clone, Copy, Debug, PartialEq, Eq, Structural)]
pub enum Accepted {
    /// A connection.
    Connection,
    /// No connection is waiting.
    WouldBlock,
    /// Any other error.
    Failed,
}

/// What the accept loop does next.
#[derive(Clone, Copy, Debug, PartialEq, Eq, Structural)]
pub enum AcceptAction {
    /// Wrap the connection in a socket and hand it to the pool as a job;
    /// then accept again.
    Dispatch,
    /// Accept again.
    Retry,
    /// Leave the loop.
    Stop,
}

/// What the accept loop does when `accept` came to `accepted` and the
/// server's kill switch says `life`. The switch is looked at only when no
/// connection is waiting: then `Die` ends the loop. A connection is
/// dispatched, and an error other than that is passed over.
pub open spec fn accept_action(accepted: Accepted, life: WorkerLifeState) -> AcceptAction {
    match accepted {
        Accepted::Connection => AcceptAction::Dispatch,
        Accepted::WouldBlock => match life {
            WorkerLifeState::Die => AcceptAction::Stop,
            WorkerLifeState::Life => AcceptAction::Retry,
        },
        Accepted::Failed => AcceptAction::Retry,
    }
}

/// What the accept loop does, given whether it has been left already: a
/// loop that has been left does nothing but stay left.
pub open spec fn decide(stopped: bool, accepted: Accepted, life: WorkerLifeState) -> AcceptAction {
    if stopped {
        AcceptAction::Stop
    } else {
        accept_action(accepted, life)
    }
}

/// What the accept loop does in turn when its calls of `accept` come to
/// `outcomes`, each with the state of the kill switch at that moment.
pub open spec fn decisions(stopped: bool, outcomes: Seq<(Accepted, WorkerLifeState)>) -> Seq<
    AcceptAction,
>
    decreases outcomes.len(),
{
    if outcomes.len() == 0 {
        Seq::empty()
    } else {
        let action = decide(stopped, outcomes[0].0, outcomes[0].1);
        seq![action] + decisions(action == AcceptAction::Stop, outcomes.drop_first())
    }
}

/// A loop that has been left decides nothing but to stay left.
pub proof fn lemma_stopped_stays_stopped(outcomes: Seq<(Accepted, WorkerLifeState)>)
    ensures
        decisions(true, outcomes).len() == outcomes.len(),
        forall|i: int|
            0 <= i < outcomes.len() ==> #[trigger] decisions(true, outcomes)[i]
                == AcceptAction::Stop,
    decreases outcomes.len(),
{
    if outcomes.len() > 0 {
        lemma_stopped_stays_stopped(outcomes.drop_first());
    }
}

/// Once the accept loop has seen `Die` it accepts no more: after the first
/// decision to stop, no connection is dispatched, whatever `accept` gives.
pub proof fn lemma_nothing_dispatched_after_stop(
    stopped: bool,
    outcomes: Seq<(Accepted, WorkerLifeState)>,
    first: int,
    later: int,
)
    requires
        0 <= first < later < outcomes.len(),
        decisions(stopped, outcomes)[first] == AcceptAction::Stop,
    ensures
        decisions(stopped, outcomes)[later] == AcceptAction::Stop,
    decreases outcomes.len(),
{
    let action = decide(stopped, outcomes[0].0, outcomes[0].1);
    let rest = outcomes.drop_first();
    lemma_decisions_len(stopped, outcomes);
    lemma_decisions_len(action == AcceptAction::Stop, rest);
    if first == 0 {
        lemma_stopped_stays_stopped(rest);
    } else {
        lemma_nothing_dispatched_after_stop(action == AcceptAction::Stop, rest, first - 1, later - 1);
    }
}

/// There is one decision for each call of `accept`.
pub proof fn lemma_decisions_len(stopped: bool, outcomes: Seq<(Accepted, WorkerLifeState)>)
    ensures
        decisions(stopped, outcomes).len() == outcomes.len(),
    decreases outcomes.len(),
{
    if outcomes.len() > 0 {
        let action = decide(stopped, outcomes[0].0, outcomes[0].1);
        lemma_decisions_len(action == AcceptAction::Stop, outcomes.drop_first());
    }
}

/// A closed server stops its accept loop at the first call of `accept` that
/// finds no connection waiting: the loop ends within one poll.
pub proof fn lemma_closed_server_stops(stopped: bool)
    ensures
        decide(stopped, Accepted::WouldBlock, WorkerLifeState::Die) == AcceptAction::Stop,
{
}

/// The accept loop's own state: whether it has been left.
#[derive(Debug)]
pub struct Acceptor {
    stopped: bool,
}

impl Acceptor {
    /// Whether the loop has been left.
    pub closed spec fn spec_is_stopped(&self) -> bool {
        self.stopped
    }

    /// An accept loop that is about to begin.
    pub fn new() -> (acceptor: Self)
        ensures
            !acceptor.is_stopped(),
    {
        Acceptor { stopped: false }
    }

    /// Whether the loop has been left.
    #[verifier::when_used_as_spec(spec_is_stopped)]
    pub fn is_stopped(&self) -> (stopped: bool)
        ensures
            stopped == self.spec_is_stopped(),
    {
        self.stopped
    }

    /// Decides what the loop does after one call of `accept`. A loop that
    /// has been left stays left, whatever comes: it dispatches nothing more.
    pub fn next(&mut self, accepted: Accepted, life: WorkerLifeState) -> (action: AcceptAction)
        ensures
            action == decide(old(self).is_stopped(), accepted, life),
            final(self).is_stopped() == (action == AcceptAction::Stop),
    {
        if self.stopped {
            return AcceptAction::Stop;
        }
        let action: AcceptAction = match accepted {
            Accepted::Connection => AcceptAction::Dispatch,
            Accepted::WouldBlock => match life {
                WorkerLifeState::Die => AcceptAction::Stop,
                WorkerLifeState::Life => AcceptAction::Retry,
            },
            Accepted::Failed => AcceptAction::Retry,
        };
        match action {
            AcceptAction::Stop => {
                self.stopped = true;
            },
            _ => {},
        }
        action
    }
}

} // verus!
