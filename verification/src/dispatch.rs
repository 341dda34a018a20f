//! Connection dispatcher decisions: per accepted connection, the action
//! taken under the state lock, determined by the lifecycle state and, when
//! the state is not Running, by the inspected handshake.  The caller owns
//! the listener, performs the action, and keeps accepting.

use vstd::prelude::*;

use crate::handshake::HandshakeOutcome;
use crate::state::transition_legal;
use crate::state::StateTag;

verus! {

/// What the dispatcher does with one accepted connection.
#[derive(Debug, Clone, Copy, PartialEq, Eq, Structural)]
pub enum DispatchAction {
    /// Drop the connection without an answer.
    DropConnection,
    /// Drain the status request and write the status-listing packet.
    ServeStatus,
    /// Write the login-refusal packet, launch the game server, move to
    /// Starting, and spawn the watchdog and the child waiter.
    RefuseAndLaunch,
    /// Write the login-refusal packet; a launch is already under way.
    RefuseOnly,
    /// Splice the connection to the running game server, dialling the
    /// upstream only after the state lock is released.
    ProxyToServer,
}

/// Decide what to do with an accepted connection.  While the state is
/// Running the handshake is not inspected (the real server answers it),
/// so no outcome is passed; in every other state the inspected outcome
/// decides.
pub fn dispatch_decision(state: StateTag, handshake: Option<HandshakeOutcome>) -> (a:
    DispatchAction)
    ensures
        state == StateTag::Running ==> a == DispatchAction::ProxyToServer,
        state == StateTag::Stopped && handshake == Some(HandshakeOutcome::Login) ==> a
            == DispatchAction::RefuseAndLaunch,
        state == StateTag::Starting && handshake == Some(HandshakeOutcome::Login) ==> a
            == DispatchAction::RefuseOnly,
        state != StateTag::Running && handshake == Some(HandshakeOutcome::StatusProbe) ==> a
            == DispatchAction::ServeStatus,
        state != StateTag::Running && (handshake == Some(HandshakeOutcome::Ignore) || handshake
            is None) ==> a == DispatchAction::DropConnection,
        a == DispatchAction::RefuseAndLaunch ==> state == StateTag::Stopped && transition_legal(
            state,
            StateTag::Starting,
        ),
        a == DispatchAction::ProxyToServer ==> state == StateTag::Running,
{
    match state {
        StateTag::Running => DispatchAction::ProxyToServer,
        StateTag::Stopped => match handshake {
            Some(HandshakeOutcome::Login) => DispatchAction::RefuseAndLaunch,
            Some(HandshakeOutcome::StatusProbe) => DispatchAction::ServeStatus,
            _ => DispatchAction::DropConnection,
        },
        StateTag::Starting => match handshake {
            Some(HandshakeOutcome::Login) => DispatchAction::RefuseOnly,
            Some(HandshakeOutcome::StatusProbe) => DispatchAction::ServeStatus,
            _ => DispatchAction::DropConnection,
        },
    }
}

/// Decide the shutdown coordinator's step on the interrupt signal: only a
/// Running server is switched to Stopped and sent the stop command.
pub fn shutdown_decision(state: StateTag) -> (send_stop: bool)
    ensures
        send_stop == (state == StateTag::Running),
{
    match state {
        StateTag::Running => true,
        _ => false,
    }
}

} // verus!
