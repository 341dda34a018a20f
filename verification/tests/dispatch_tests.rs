use mcservernap::dispatch::dispatch_decision;
use mcservernap::dispatch::shutdown_decision;
use mcservernap::dispatch::DispatchAction;
use mcservernap::handshake::HandshakeOutcome;
use mcservernap::state::StateTag;

#[test]
fn stopped_probe_is_served_without_a_transition() {
    assert_eq!(
        dispatch_decision(StateTag::Stopped, Some(HandshakeOutcome::StatusProbe)),
        DispatchAction::ServeStatus
    );
}

#[test]
fn stopped_login_refuses_and_launches() {
    assert_eq!(
        dispatch_decision(StateTag::Stopped, Some(HandshakeOutcome::Login)),
        DispatchAction::RefuseAndLaunch
    );
}

#[test]
fn stopped_garbage_is_dropped() {
    assert_eq!(
        dispatch_decision(StateTag::Stopped, Some(HandshakeOutcome::Ignore)),
        DispatchAction::DropConnection
    );
    assert_eq!(
        dispatch_decision(StateTag::Stopped, None),
        DispatchAction::DropConnection
    );
}

#[test]
fn starting_probe_is_served() {
    assert_eq!(
        dispatch_decision(StateTag::Starting, Some(HandshakeOutcome::StatusProbe)),
        DispatchAction::ServeStatus
    );
}

#[test]
fn starting_login_is_refused_without_a_second_launch() {
    assert_eq!(
        dispatch_decision(StateTag::Starting, Some(HandshakeOutcome::Login)),
        DispatchAction::RefuseOnly
    );
}

#[test]
fn starting_garbage_is_dropped() {
    assert_eq!(
        dispatch_decision(StateTag::Starting, Some(HandshakeOutcome::Ignore)),
        DispatchAction::DropConnection
    );
}

#[test]
fn running_connections_are_proxied_uninspected() {
    assert_eq!(
        dispatch_decision(StateTag::Running, None),
        DispatchAction::ProxyToServer
    );
}

#[test]
fn shutdown_sends_stop_only_from_running() {
    assert!(!shutdown_decision(StateTag::Stopped));
    assert!(!shutdown_decision(StateTag::Starting));
    assert!(shutdown_decision(StateTag::Running));
}
