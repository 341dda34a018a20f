//! Lifecycle state machine: a tagged value with three variants and the
//! owned resources attached to each.  The legal transitions form the graph
//! Stopped -> Starting, Starting -> Running, Starting -> Stopped and
//! Running -> Stopped; Stopped -> Stopped is a no-op; everything else is
//! rejected without touching the state.  Leaving Running cancels the
//! watchdog task whose handle the variant owns.

use vstd::prelude::*;

verus! {

/// The game-server child-process handle, carried through the lifecycle
/// variants but never inspected by the library.
#[verifier::external_type_specification]
#[verifier::external_body]
pub struct ExChild(tokio::process::Child);

/// The error of a joined task, reachable through the task handle's
/// `Future` impl; the library never reads it.
#[verifier::external_type_specification]
#[verifier::external_body]
pub struct ExJoinError(tokio::task::JoinError);

/// The handle of a spawned supervisory task; the Running variant owns the
/// idle watchdog's handle so that leaving Running can cancel it.
#[verifier::external_type_specification]
#[verifier::external_body]
#[verifier::reject_recursive_types(T)]
pub struct ExJoinHandle<T>(tokio::task::JoinHandle<T>);

/// The variant of a lifecycle state, without its owned resources.
#[derive(Debug, Clone, Copy, PartialEq, Eq, Structural)]
pub enum StateTag {
    Stopped,
    Starting,
    Running,
}

/// A rejected transition: the two tags that formed no legal edge.
#[derive(Debug, Clone, Copy, PartialEq, Eq, Structural)]
pub struct InvalidTransition {
    pub from: StateTag,
    pub to: StateTag,
}

/// The server lifecycle state and the resources each variant owns.
pub enum ServerState {
    /// No game server exists; the supervisor answers probes itself.
    Stopped,
    /// The game server process was launched but its admin channel is not
    /// reachable yet.
    Starting { child: tokio::process::Child },
    /// The game server is up; the idle watchdog polls it.
    Running { child: tokio::process::Child, rcon_watchdog_handle: tokio::task::JoinHandle<()> },
}

/// The set of legal transitions, the self-loop on Stopped included.
pub open spec fn transition_legal(from: StateTag, to: StateTag) -> bool {
    ||| (from == StateTag::Stopped && to == StateTag::Stopped)
    ||| (from == StateTag::Stopped && to == StateTag::Starting)
    ||| (from == StateTag::Starting && to == StateTag::Running)
    ||| (from == StateTag::Starting && to == StateTag::Stopped)
    ||| (from == StateTag::Running && to == StateTag::Stopped)
}

/// Relies on tokio::task::JoinHandle::abort to cancel the watchdog task;
/// the handle is dropped afterwards.
#[verifier::external_body]
fn abort_task(handle: tokio::task::JoinHandle<()>) {
    handle.abort();
}

impl ServerState {
    /// The variant of this state.
    pub open spec fn tag_spec(&self) -> StateTag {
        match self {
            ServerState::Stopped => StateTag::Stopped,
            ServerState::Starting { .. } => StateTag::Starting,
            ServerState::Running { .. } => StateTag::Running,
        }
    }

    /// The variant of this state, as a plain value.
    pub fn tag(&self) -> (t: StateTag)
        ensures
            t == self.tag_spec(),
    {
        match self {
            ServerState::Stopped => StateTag::Stopped,
            ServerState::Starting { .. } => StateTag::Starting,
            ServerState::Running { .. } => StateTag::Running,
        }
    }

    /// The variant's name, for callers that log transitions.
    pub fn variant_name(&self) -> (s: &str)
        ensures
            self.tag_spec() == StateTag::Stopped ==> s@ == "Stopped"@,
            self.tag_spec() == StateTag::Starting ==> s@ == "Starting"@,
            self.tag_spec() == StateTag::Running ==> s@ == "Running"@,
    {
        match self {
            ServerState::Stopped => "Stopped",
            ServerState::Starting { .. } => "Starting",
            ServerState::Running { .. } => "Running",
        }
    }

    /// The Starting -> Running transition: carry the owned child forward
    /// and hand the new variant the watchdog task handle.  From any other
    /// variant the transition is rejected, the state is left untouched,
    /// and the handle is cancelled, since no Running variant will ever own
    /// and cancel it.
    pub fn promote_to_running(&mut self, rcon_watchdog_handle: tokio::task::JoinHandle<()>) -> (r:
        Result<(), InvalidTransition>)
        ensures
            r is Ok <==> old(self).tag_spec() == StateTag::Starting,
            *old(self) matches ServerState::Starting { child } ==> *final(self)
                == (ServerState::Running { child, rcon_watchdog_handle }),
            r is Err ==> *final(self) == *old(self) && r == Err::<(), InvalidTransition>(
                InvalidTransition { from: old(self).tag_spec(), to: StateTag::Running },
            ),
    {
        let from_tag = self.tag();
        let mut departed = ServerState::Stopped;
        core::mem::swap(self, &mut departed);
        match departed {
            ServerState::Starting { child } => {
                *self = ServerState::Running { child, rcon_watchdog_handle };
                Ok(())
            },
            other => {
                *self = other;
                abort_task(rcon_watchdog_handle);
                Err(InvalidTransition { from: from_tag, to: StateTag::Running })
            },
        }
    }

    /// Install `new_state` if the transition is legal, consuming the old
    /// variant's resources: leaving Running cancels the watchdog handle.
    /// Stopped -> Stopped succeeds without any effect; an illegal
    /// transition is reported and the state is left untouched.
    pub fn switch_to(&mut self, new_state: ServerState) -> (r: Result<(), InvalidTransition>)
        ensures
            r is Ok <==> transition_legal(old(self).tag_spec(), new_state.tag_spec()),
            old(self).tag_spec() == StateTag::Stopped && new_state.tag_spec() == StateTag::Stopped
                ==> *final(self) == *old(self),
            r is Ok && !(old(self).tag_spec() == StateTag::Stopped && new_state.tag_spec()
                == StateTag::Stopped) ==> *final(self) == new_state,
            r is Err ==> *final(self) == *old(self) && r == Err::<(), InvalidTransition>(
                InvalidTransition { from: old(self).tag_spec(), to: new_state.tag_spec() },
            ),
    {
        let from_tag = self.tag();
        let to_tag = new_state.tag();
        if matches!(from_tag, StateTag::Stopped) && matches!(to_tag, StateTag::Stopped) {
            return Ok(());
        }
        let legal: bool = match (from_tag, to_tag) {
            (StateTag::Stopped, StateTag::Starting) => true,
            (StateTag::Starting, StateTag::Running) => true,
            (StateTag::Starting, StateTag::Stopped) => true,
            (StateTag::Running, StateTag::Stopped) => true,
            _ => false,
        };
        if legal {
            let mut departed = new_state;
            core::mem::swap(self, &mut departed);
            match departed {
                ServerState::Running { child: _, rcon_watchdog_handle } => {
                    abort_task(rcon_watchdog_handle);
                },
                _ => {},
            }
            Ok(())
        } else {
            Err(InvalidTransition { from: from_tag, to: to_tag })
        }
    }
}

} // verus!
