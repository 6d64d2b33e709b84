//! The course of one connection's job: read the head, hand the request to
//! the host's handler, shut the connection down.
//!
//! The job itself is run elsewhere. It reports what happened, and is told
//! what to do: so the handler is called once at most, and the connection is
//! shut down once, whatever the order of the reports.

use vstd::prelude::*;

verus! {

/// What is done when the host's handler fails.
#[derive(Clone, Copy, Debug, PartialEq, Eq, Structural)]
pub enum SinkPolicy {
    /// The process ends.
    Crash,
    /// The connection is shut down, and the engine goes on.
    CloseConnection,
}

/// Where a connection's job stands.
#[derive(Clone, Copy, Debug, PartialEq, Eq, Structural)]
pub enum Phase {
    /// The head is being read.
    Reading,
    /// The handler has been called and has not returned.
    Handling,
    /// The connection has been shut down.
    Done,
}

/// What a connection's job reports.
#[derive(Clone, Copy, Debug, PartialEq, Eq, Structural)]
pub enum JobEvent {
    /// The head has been read and is a request.
    HeadParsed,
    /// The head has been read and is no request.
    HeadRefused,
    /// The stream failed while the head was read.
    ReadFailed,
    /// The handler has returned.
    SinkReturned,
    /// The handler has failed.
    SinkFailed,
}

/// What a connection's job is to do.
#[derive(Clone, Copy, Debug, PartialEq, Eq, Structural)]
pub enum JobAction {
    /// Call the handler with the request and the connection.
    InvokeSink,
    /// Shut the connection down.
    Close,
    /// Shut the connection down and end the process.
    Abort,
    /// Nothing: the report is out of place.
    Ignore,
}

/// The phase that follows `phase` on `event`.
pub open spec fn next_phase(phase: Phase, event: JobEvent) -> Phase {
    match (phase, event) {
        (Phase::Reading, JobEvent::HeadParsed) => Phase::Handling,
        (Phase::Reading, JobEvent::HeadRefused) => Phase::Done,
        (Phase::Reading, JobEvent::ReadFailed) => Phase::Done,
        (Phase::Handling, JobEvent::SinkReturned) => Phase::Done,
        (Phase::Handling, JobEvent::SinkFailed) => Phase::Done,
        _ => phase,
    }
}

/// What is to be done in `phase` on `event`. A head that is a request goes
/// to the handler. A head that is none, or a stream that fails, shuts the
/// connection down without the handler. When the handler is through, the
/// connection is shut down, however the handler ended; a handler that failed
/// ends the process too, where the policy says so.
pub open spec fn action_on(phase: Phase, event: JobEvent, policy: SinkPolicy) -> JobAction {
    match (phase, event) {
        (Phase::Reading, JobEvent::HeadParsed) => JobAction::InvokeSink,
        (Phase::Reading, JobEvent::HeadRefused) => JobAction::Close,
        (Phase::Reading, JobEvent::ReadFailed) => JobAction::Close,
        (Phase::Handling, JobEvent::SinkReturned) => JobAction::Close,
        (Phase::Handling, JobEvent::SinkFailed) => match policy {
            SinkPolicy::Crash => JobAction::Abort,
            SinkPolicy::CloseConnection => JobAction::Close,
        },
        _ => JobAction::Ignore,
    }
}

/// What is done in turn when a job that stands in `phase` reports `events`.
pub open spec fn actions(phase: Phase, events: Seq<JobEvent>, policy: SinkPolicy) -> Seq<
    JobAction,
>
    decreases events.len(),
{
    if events.len() == 0 {
        Seq::empty()
    } else {
        seq![action_on(phase, events[0], policy)] + actions(
            next_phase(phase, events[0]),
            events.drop_first(),
            policy,
        )
    }
}

/// How often `action` occurs in `done`.
pub open spec fn count(done: Seq<JobAction>, action: JobAction) -> nat
    decreases done.len(),
{
    if done.len() == 0 {
        0
    } else {
        count(done.drop_first(), action) + if done[0] == action {
            1nat
        } else {
            0nat
        }
    }
}

/// How often the connection is shut down in `done`.
pub open spec fn shutdowns(done: Seq<JobAction>) -> nat {
    count(done, JobAction::Close) + count(done, JobAction::Abort)
}

/// Whatever a job reports and in whatever order: the handler is called once
/// at most, the connection is shut down once at most, and a connection that
/// has been shut down is followed by nothing. A job that has begun to handle
/// does not call the handler again, and one that is done does nothing.
pub proof fn lemma_once(phase: Phase, events: Seq<JobEvent>, policy: SinkPolicy)
    ensures
        count(actions(phase, events, policy), JobAction::InvokeSink) <= if phase is Reading {
            1nat
        } else {
            0nat
        },
        shutdowns(actions(phase, events, policy)) <= if phase is Done {
            0nat
        } else {
            1nat
        },
    decreases events.len(),
{
    if events.len() > 0 {
        lemma_once(next_phase(phase, events[0]), events.drop_first(), policy);
        assert(actions(phase, events, policy).drop_first() =~= actions(
            next_phase(phase, events[0]),
            events.drop_first(),
            policy,
        ));
    }
}

/// A connection whose head is a request and whose handler comes to an end
/// has its handler called once and is shut down once.
pub proof fn lemma_served(events: Seq<JobEvent>, policy: SinkPolicy)
    requires
        events.len() >= 2,
        events[0] == JobEvent::HeadParsed,
        events[1] == JobEvent::SinkReturned || events[1] == JobEvent::SinkFailed,
    ensures
        count(actions(Phase::Reading, events, policy), JobAction::InvokeSink) == 1,
        shutdowns(actions(Phase::Reading, events, policy)) == 1,
{
    let rest = events.drop_first();
    let tail = rest.drop_first();
    let first = actions(Phase::Reading, events, policy);
    let second = actions(Phase::Handling, rest, policy);
    let third = actions(Phase::Done, tail, policy);
    assert(first.drop_first() =~= second);
    assert(second.drop_first() =~= third);
    lemma_once(Phase::Done, tail, policy);
    assert(count(second, JobAction::InvokeSink) == count(third, JobAction::InvokeSink));
    assert(count(first, JobAction::Close) == count(second, JobAction::Close));
    assert(count(first, JobAction::Abort) == count(second, JobAction::Abort));
}

/// The books of one connection's job.
#[derive(Debug)]
pub struct Exchange {
    phase: Phase,
    policy: SinkPolicy,
}

impl Exchange {
    /// Where the job stands.
    pub closed spec fn spec_phase(&self) -> Phase {
        self.phase
    }

    /// What is done when the handler fails.
    pub closed spec fn spec_policy(&self) -> SinkPolicy {
        self.policy
    }

    /// The books of a job that is about to read the head.
    pub fn new(policy: SinkPolicy) -> (exchange: Self)
        ensures
            exchange.phase() == Phase::Reading,
            exchange.policy() == policy,
    {
        Exchange { phase: Phase::Reading, policy }
    }

    /// Where the job stands.
    #[verifier::when_used_as_spec(spec_phase)]
    pub fn phase(&self) -> (phase: Phase)
        ensures
            phase == self.spec_phase(),
    {
        self.phase
    }

    /// What is done when the handler fails.
    #[verifier::when_used_as_spec(spec_policy)]
    pub fn policy(&self) -> (policy: SinkPolicy)
        ensures
            policy == self.spec_policy(),
    {
        self.policy
    }

    /// Takes a report of the job and says what is to be done.
    pub fn on(&mut self, event: JobEvent) -> (action: JobAction)
        ensures
            action == action_on(old(self).phase(), event, old(self).policy()),
            final(self).phase() == next_phase(old(self).phase(), event),
            final(self).policy() == old(self).policy(),
    {
        let (phase, action): (Phase, JobAction) = match (self.phase, event) {
            (Phase::Reading, JobEvent::HeadParsed) => (Phase::Handling, JobAction::InvokeSink),
            (Phase::Reading, JobEvent::HeadRefused) => (Phase::Done, JobAction::Close),
            (Phase::Reading, JobEvent::ReadFailed) => (Phase::Done, JobAction::Close),
            (Phase::Handling, JobEvent::SinkReturned) => (Phase::Done, JobAction::Close),
            (Phase::Handling, JobEvent::SinkFailed) => match self.policy {
                SinkPolicy::Crash => (Phase::Done, JobAction::Abort),
                SinkPolicy::CloseConnection => (Phase::Done, JobAction::Close),
            },
            (phase, _) => (phase, JobAction::Ignore),
        };
        self.phase = phase;
        action
    }
}

} // verus!
