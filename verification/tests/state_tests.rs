use mcservernap::state::InvalidTransition;
use mcservernap::state::StateTag;
use mcservernap::ServerState;

fn with_runtime<F: FnOnce() -> ()>(f: F) {
    let rt = tokio::runtime::Builder::new_multi_thread()
        .enable_all()
        .build()
        .unwrap();
    let _guard = rt.enter();
    f();
}

fn spawn_child() -> tokio::process::Child {
    tokio::process::Command::new("true").spawn().unwrap()
}

fn spawn_task() -> tokio::task::JoinHandle<()> {
    tokio::spawn(async {})
}

#[test]
fn stopped_to_stopped_is_a_no_op_success() {
    let mut state = ServerState::Stopped;
    assert_eq!(state.switch_to(ServerState::Stopped), Ok(()));
    assert_eq!(state.tag(), StateTag::Stopped);
}

#[test]
fn stopped_to_starting_succeeds() {
    with_runtime(|| {
        let mut state = ServerState::Stopped;
        let child = spawn_child();
        assert_eq!(state.switch_to(ServerState::Starting { child }), Ok(()));
        assert_eq!(state.tag(), StateTag::Starting);
    });
}

#[test]
fn starting_to_running_succeeds() {
    with_runtime(|| {
        let mut state = ServerState::Starting { child: spawn_child() };
        let new_state = ServerState::Running {
            child: spawn_child(),
            rcon_watchdog_handle: spawn_task(),
        };
        assert_eq!(state.switch_to(new_state), Ok(()));
        assert_eq!(state.tag(), StateTag::Running);
    });
}

#[test]
fn starting_to_stopped_succeeds() {
    with_runtime(|| {
        let mut state = ServerState::Starting { child: spawn_child() };
        assert_eq!(state.switch_to(ServerState::Stopped), Ok(()));
        assert_eq!(state.tag(), StateTag::Stopped);
    });
}

#[test]
fn running_to_stopped_succeeds_and_cancels_the_watchdog() {
    let rt = tokio::runtime::Builder::new_multi_thread()
        .enable_all()
        .build()
        .unwrap();
    let _guard = rt.enter();
    let handle = rt.spawn(async {
        tokio::time::sleep(tokio::time::Duration::from_secs(3600)).await;
    });
    let abort_checker = handle.abort_handle();
    let mut state = ServerState::Running {
        child: spawn_child(),
        rcon_watchdog_handle: handle,
    };
    assert_eq!(state.switch_to(ServerState::Stopped), Ok(()));
    assert_eq!(state.tag(), StateTag::Stopped);
    // the owned watchdog task was cancelled on the way out of Running
    rt.block_on(async {
        tokio::time::sleep(tokio::time::Duration::from_millis(200)).await;
    });
    assert!(abort_checker.is_finished());
}

#[test]
fn stopped_to_running_is_rejected_without_mutation() {
    with_runtime(|| {
        let mut state = ServerState::Stopped;
        let new_state = ServerState::Running {
            child: spawn_child(),
            rcon_watchdog_handle: spawn_task(),
        };
        assert_eq!(
            state.switch_to(new_state),
            Err(InvalidTransition { from: StateTag::Stopped, to: StateTag::Running })
        );
        assert_eq!(state.tag(), StateTag::Stopped);
    });
}

#[test]
fn starting_to_starting_is_rejected() {
    with_runtime(|| {
        let mut state = ServerState::Starting { child: spawn_child() };
        let err = state
            .switch_to(ServerState::Starting { child: spawn_child() })
            .unwrap_err();
        assert_eq!(err, InvalidTransition { from: StateTag::Starting, to: StateTag::Starting });
        assert_eq!(state.tag(), StateTag::Starting);
    });
}

#[test]
fn running_to_starting_is_rejected() {
    with_runtime(|| {
        let mut state = ServerState::Running {
            child: spawn_child(),
            rcon_watchdog_handle: spawn_task(),
        };
        let err = state
            .switch_to(ServerState::Starting { child: spawn_child() })
            .unwrap_err();
        assert_eq!(err, InvalidTransition { from: StateTag::Running, to: StateTag::Starting });
        assert_eq!(state.tag(), StateTag::Running);
    });
}

#[test]
fn running_to_running_is_rejected() {
    with_runtime(|| {
        let mut state = ServerState::Running {
            child: spawn_child(),
            rcon_watchdog_handle: spawn_task(),
        };
        let new_state = ServerState::Running {
            child: spawn_child(),
            rcon_watchdog_handle: spawn_task(),
        };
        let err = state.switch_to(new_state).unwrap_err();
        assert_eq!(err, InvalidTransition { from: StateTag::Running, to: StateTag::Running });
        assert_eq!(state.tag(), StateTag::Running);
    });
}

#[test]
fn promote_carries_the_child_into_running() {
    with_runtime(|| {
        let mut state = ServerState::Starting { child: spawn_child() };
        assert_eq!(state.promote_to_running(spawn_task()), Ok(()));
        assert_eq!(state.tag(), StateTag::Running);
    });
}

#[test]
fn promote_from_stopped_is_rejected() {
    with_runtime(|| {
        let mut state = ServerState::Stopped;
        assert_eq!(
            state.promote_to_running(spawn_task()),
            Err(InvalidTransition { from: StateTag::Stopped, to: StateTag::Running })
        );
        assert_eq!(state.tag(), StateTag::Stopped);
    });
}

#[test]
fn promote_from_running_is_rejected() {
    with_runtime(|| {
        let mut state = ServerState::Running {
            child: spawn_child(),
            rcon_watchdog_handle: spawn_task(),
        };
        assert_eq!(
            state.promote_to_running(spawn_task()),
            Err(InvalidTransition { from: StateTag::Running, to: StateTag::Running })
        );
        assert_eq!(state.tag(), StateTag::Running);
    });
}

#[test]
fn variant_names() {
    with_runtime(|| {
        assert_eq!(ServerState::Stopped.variant_name(), "Stopped");
        assert_eq!(
            ServerState::Starting { child: spawn_child() }.variant_name(),
            "Starting"
        );
        assert_eq!(
            ServerState::Running {
                child: spawn_child(),
                rcon_watchdog_handle: spawn_task(),
            }
            .variant_name(),
            "Running"
        );
    });
}
