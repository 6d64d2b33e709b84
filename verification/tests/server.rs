use http_engine::server::exchange::{Exchange, JobAction, JobEvent, Phase, SinkPolicy};
use http_engine::server::registry::{HandleNotFound, Registry};
use http_engine::server::socket::{IpAddress, SocketAddress};
use http_engine::server::{AcceptAction, Accepted, Acceptor, Server};
use http_engine::thread::life::WorkerLifeState;

#[test]
fn server_starts_with_one_worker_and_a_thread_of_its_own() {
    let server = Server::new();
    assert_eq!(server.get_pool_capacity(), 1);
    assert!(!server.get_obstruction());
    assert_eq!(server.get_sink_policy(), SinkPolicy::Crash);
    assert_eq!(server.life(), WorkerLifeState::Life);
}

#[test]
fn server_settings_are_kept() {
    let mut server = Server::new();
    server.set_pool_capacity(8);
    server.set_obstruction(true);
    assert_eq!(server.get_pool_capacity(), 8);
    assert!(server.get_obstruction());
    server.set_pool_capacity(0);
    assert_eq!(server.get_pool_capacity(), 0);
    assert!(server.get_obstruction());
    server.set_sink_policy(SinkPolicy::CloseConnection);
    assert_eq!(server.get_sink_policy(), SinkPolicy::CloseConnection);
    assert_eq!(server.launch_on(1).sink_policy, SinkPolicy::CloseConnection);
    assert_eq!(server.get_pool_capacity(), 0);
    assert_eq!(server.life(), WorkerLifeState::Life);
}

#[test]
fn launch_binds_the_loopback_address() {
    let mut server = Server::new();
    server.set_pool_capacity(4);
    let launch = server.launch_on(8080);
    assert_eq!(launch.local_addr, SocketAddress::new(IpAddress::V4([127, 0, 0, 1]), 8080));
    assert_eq!(launch.local_addr.family(), "IPv4");
    assert_eq!(launch.pool_capacity, 4);
    assert!(!launch.obstruct);
    server.set_obstruction(true);
    assert!(server.launch_on(0).obstruct);
    assert_eq!(server.launch_on(65535).local_addr.port, 65535);
}

#[test]
fn closing_twice_is_closing_once() {
    let mut server = Server::new();
    assert!(server.close());
    assert_eq!(server.life(), WorkerLifeState::Die);
    assert!(!server.close());
    assert_eq!(server.life(), WorkerLifeState::Die);
    assert_eq!(server.get_pool_capacity(), 1);
}

#[test]
fn accept_loop_dispatches_connections_and_passes_over_errors() {
    let mut acceptor = Acceptor::new();
    assert!(!acceptor.is_stopped());
    assert_eq!(acceptor.next(Accepted::Connection, WorkerLifeState::Life), AcceptAction::Dispatch);
    assert_eq!(acceptor.next(Accepted::Failed, WorkerLifeState::Life), AcceptAction::Retry);
    assert_eq!(acceptor.next(Accepted::WouldBlock, WorkerLifeState::Life), AcceptAction::Retry);
    assert!(!acceptor.is_stopped());
}

#[test]
fn accept_loop_sees_the_switch_only_when_nothing_waits() {
    let mut acceptor = Acceptor::new();
    assert_eq!(acceptor.next(Accepted::Connection, WorkerLifeState::Die), AcceptAction::Dispatch);
    assert_eq!(acceptor.next(Accepted::Failed, WorkerLifeState::Die), AcceptAction::Retry);
    assert!(!acceptor.is_stopped());
    assert_eq!(acceptor.next(Accepted::WouldBlock, WorkerLifeState::Die), AcceptAction::Stop);
    assert!(acceptor.is_stopped());
}

#[test]
fn accept_loop_that_stopped_accepts_no_more() {
    let mut acceptor = Acceptor::new();
    assert_eq!(acceptor.next(Accepted::WouldBlock, WorkerLifeState::Die), AcceptAction::Stop);
    assert_eq!(acceptor.next(Accepted::Connection, WorkerLifeState::Die), AcceptAction::Stop);
    assert_eq!(acceptor.next(Accepted::Connection, WorkerLifeState::Life), AcceptAction::Stop);
    assert_eq!(acceptor.next(Accepted::WouldBlock, WorkerLifeState::Life), AcceptAction::Stop);
    assert_eq!(acceptor.next(Accepted::Failed, WorkerLifeState::Life), AcceptAction::Stop);
    assert!(acceptor.is_stopped());
}

#[test]
fn request_goes_to_the_handler_once_and_the_connection_is_shut_down_once() {
    let mut exchange = Exchange::new(SinkPolicy::Crash);
    assert_eq!(exchange.phase(), Phase::Reading);
    assert_eq!(exchange.policy(), SinkPolicy::Crash);
    assert_eq!(exchange.on(JobEvent::SinkReturned), JobAction::Ignore);
    assert_eq!(exchange.on(JobEvent::HeadParsed), JobAction::InvokeSink);
    assert_eq!(exchange.phase(), Phase::Handling);
    assert_eq!(exchange.on(JobEvent::HeadParsed), JobAction::Ignore);
    assert_eq!(exchange.on(JobEvent::ReadFailed), JobAction::Ignore);
    assert_eq!(exchange.on(JobEvent::SinkReturned), JobAction::Close);
    assert_eq!(exchange.phase(), Phase::Done);
    for event in [
        JobEvent::HeadParsed,
        JobEvent::HeadRefused,
        JobEvent::ReadFailed,
        JobEvent::SinkReturned,
        JobEvent::SinkFailed,
    ] {
        assert_eq!(exchange.on(event), JobAction::Ignore);
        assert_eq!(exchange.phase(), Phase::Done);
    }
}

#[test]
fn head_that_is_no_request_shuts_the_connection_down_without_the_handler() {
    let mut refused = Exchange::new(SinkPolicy::Crash);
    assert_eq!(refused.on(JobEvent::HeadRefused), JobAction::Close);
    assert_eq!(refused.phase(), Phase::Done);
    let mut failed = Exchange::new(SinkPolicy::Crash);
    assert_eq!(failed.on(JobEvent::ReadFailed), JobAction::Close);
    assert_eq!(failed.phase(), Phase::Done);
}

#[test]
fn failing_handler_is_met_as_the_policy_says() {
    let mut crash = Exchange::new(SinkPolicy::Crash);
    assert_eq!(crash.on(JobEvent::HeadParsed), JobAction::InvokeSink);
    assert_eq!(crash.on(JobEvent::SinkFailed), JobAction::Abort);
    assert_eq!(crash.phase(), Phase::Done);
    let mut close = Exchange::new(SinkPolicy::CloseConnection);
    assert_eq!(close.on(JobEvent::HeadParsed), JobAction::InvokeSink);
    assert_eq!(close.on(JobEvent::SinkFailed), JobAction::Close);
    assert_eq!(close.phase(), Phase::Done);
    assert_eq!(close.policy(), SinkPolicy::CloseConnection);
}

#[test]
fn handles_are_given_out_in_order_and_die_with_their_entry() {
    let mut registry = Registry::<&str>::new();
    assert_eq!(registry.issued(), 0);
    assert_eq!(registry.get(0), Err(HandleNotFound(0)));
    assert_eq!(registry.create("a"), 0);
    assert_eq!(registry.create("b"), 1);
    assert_eq!(registry.issued(), 2);
    assert!(registry.is_live(0));
    assert!(registry.is_live(1));
    assert!(!registry.is_live(2));
    assert_eq!(registry.get(1), Ok(&"b"));
    assert_eq!(registry.remove(0), Ok("a"));
    assert!(!registry.is_live(0));
    assert_eq!(registry.get(0), Err(HandleNotFound(0)));
    assert_eq!(registry.remove(0), Err(HandleNotFound(0)));
    assert_eq!(registry.remove(7), Err(HandleNotFound(7)));
    assert_eq!(registry.create("c"), 2);
    assert_eq!(registry.get(0), Err(HandleNotFound(0)));
    assert_eq!(registry.get(1), Ok(&"b"));
    assert_eq!(registry.get(2), Ok(&"c"));
    assert_eq!(registry.issued(), 3);
}
