use presence::Coordinator;
use presence::LockAction;
use presence::Phase;
use presence::ReadOutcome;
use presence::Session;
use presence::SessionCommand;

#[test]
fn greeting_is_hi() {
    assert_eq!(presence::greeting(), vec![b'h', b'i']);
}

#[test]
fn probe_byte_is_dot() {
    assert_eq!(presence::probe_byte(), b'.');
}

#[test]
fn wire_constants_match_the_protocol() {
    assert_eq!(presence::KEEPALIVE_SECONDS, 240);
    assert_eq!(presence::WRITE_TIMEOUT_SECONDS, 5);
    assert_eq!(presence::LISTEN_PORT, 5005);
    assert_eq!(presence::MAX_STALENESS, 5);
}

#[test]
fn coordinator_starts_at_zero_released() {
    let c = Coordinator::new();
    assert_eq!(c.count, 0);
    assert!(!c.lock_held);
}

#[test]
fn session_starts_greeting_with_zero_staleness() {
    let s = Session::new();
    assert!(matches!(s.phase, Phase::Greeting));
    assert_eq!(s.staleness, 0);
}

#[test]
fn connect_emits_plus_one_and_monitors() {
    let mut s = Session::new();
    let delta = s.connect();
    assert_eq!(delta, 1);
    assert!(matches!(s.phase, Phase::Monitoring));
    assert_eq!(s.staleness, 0);
}

#[test]
fn disconnect_emits_minus_one_once() {
    let mut s = Session::new();
    s.connect();
    let cmd = s.on_read(ReadOutcome::Received(0));
    assert_eq!(cmd, SessionCommand::Terminate);
    let delta = s.disconnect();
    assert_eq!(delta, -1);
    assert!(matches!(s.phase, Phase::Departed));
}

#[test]
fn data_resets_staleness() {
    let mut s = Session::new();
    s.connect();
    for _ in 0..2 {
        assert_eq!(s.on_read(ReadOutcome::TimedOut), SessionCommand::SendProbe);
        assert_eq!(s.on_probe_result(true), SessionCommand::Proceed);
    }
    assert_eq!(s.staleness, 2);
    let cmd = s.on_read(ReadOutcome::Received(5));
    assert_eq!(cmd, SessionCommand::Proceed);
    assert_eq!(s.staleness, 0);
    assert!(matches!(s.phase, Phase::Monitoring));
}

#[test]
fn zero_length_read_terminates_regardless_of_staleness() {
    let mut s = Session::new();
    s.connect();
    for _ in 0..3 {
        assert_eq!(s.on_read(ReadOutcome::TimedOut), SessionCommand::SendProbe);
        assert_eq!(s.on_probe_result(true), SessionCommand::Proceed);
    }
    assert_eq!(s.staleness, 3);
    let cmd = s.on_read(ReadOutcome::Received(0));
    assert_eq!(cmd, SessionCommand::Terminate);
    assert!(matches!(s.phase, Phase::Terminated));
}

#[test]
fn probe_write_failure_terminates() {
    let mut s = Session::new();
    s.connect();
    assert_eq!(s.on_read(ReadOutcome::TimedOut), SessionCommand::SendProbe);
    let cmd = s.on_probe_result(false);
    assert_eq!(cmd, SessionCommand::Terminate);
    assert!(matches!(s.phase, Phase::Terminated));
}

#[test]
fn five_idle_cycles_continue_sixth_terminates() {
    let mut s = Session::new();
    s.connect();
    for cycle in 1..=5 {
        assert_eq!(s.on_read(ReadOutcome::TimedOut), SessionCommand::SendProbe);
        assert_eq!(s.on_probe_result(true), SessionCommand::Proceed);
        assert_eq!(s.staleness, cycle);
        assert!(matches!(s.phase, Phase::Monitoring));
    }
    assert_eq!(s.on_read(ReadOutcome::TimedOut), SessionCommand::SendProbe);
    let cmd = s.on_probe_result(true);
    assert_eq!(cmd, SessionCommand::Terminate);
    assert!(matches!(s.phase, Phase::Terminated));
    assert_eq!(s.staleness, 6);
}

#[test]
fn negative_count_is_fatal() {
    let mut c = Coordinator::new();
    let action = c.apply(-1);
    assert_eq!(action, LockAction::Fatal);
    assert_eq!(c.count, -1);
}

#[test]
fn acquire_and_release_follow_the_count() {
    let mut c = Coordinator::new();
    assert_eq!(c.apply(1), LockAction::Acquire);
    assert!(c.lock_held);
    assert_eq!(c.apply(1), LockAction::Acquire);
    assert_eq!(c.count, 2);
    assert_eq!(c.apply(-1), LockAction::Acquire);
    assert!(c.lock_held);
    assert_eq!(c.apply(-1), LockAction::Release);
    assert!(!c.lock_held);
    assert_eq!(c.count, 0);
}

#[test]
fn scenario_silent_client_six_timeouts() {
    // A client connects, sends nothing, and the clock advances through six
    // keepalive windows: the session terminates and the count returns to
    // its pre-connect value.
    let mut c = Coordinator::new();
    let mut s = Session::new();
    assert_eq!(c.apply(s.connect()), LockAction::Acquire);
    assert_eq!(c.count, 1);
    let mut terminated = false;
    for _ in 0..6 {
        match s.on_read(ReadOutcome::TimedOut) {
            SessionCommand::SendProbe => match s.on_probe_result(true) {
                SessionCommand::Proceed => {},
                SessionCommand::Terminate => {
                    terminated = true;
                    break;
                },
                SessionCommand::SendProbe => unreachable!(),
            },
            _ => unreachable!(),
        }
    }
    assert!(terminated);
    assert_eq!(c.apply(s.disconnect()), LockAction::Release);
    assert_eq!(c.count, 0);
    assert!(!c.lock_held);
}

#[test]
fn scenario_connect_then_immediate_close() {
    // The sentinel may appear while the client is briefly connected, but
    // must be absent once both events are processed.
    let mut c = Coordinator::new();
    let mut s = Session::new();
    assert_eq!(c.apply(s.connect()), LockAction::Acquire);
    assert!(c.lock_held);
    assert_eq!(s.on_read(ReadOutcome::Received(0)), SessionCommand::Terminate);
    assert_eq!(c.apply(s.disconnect()), LockAction::Release);
    assert!(!c.lock_held);
    assert_eq!(c.count, 0);
}

#[test]
fn scenario_two_concurrent_clients() {
    // Two clients overlap: the sentinel stays present from the first
    // connect to the last disconnect, and the count reaches two.
    let mut c = Coordinator::new();
    let mut s1 = Session::new();
    let mut s2 = Session::new();
    assert_eq!(c.apply(s1.connect()), LockAction::Acquire);
    assert_eq!(c.apply(s2.connect()), LockAction::Acquire);
    assert_eq!(c.count, 2);
    assert_eq!(s1.on_read(ReadOutcome::Received(1)), SessionCommand::Proceed);
    assert_eq!(s2.on_read(ReadOutcome::Received(3)), SessionCommand::Proceed);
    assert_eq!(s1.on_read(ReadOutcome::Received(0)), SessionCommand::Terminate);
    assert_eq!(c.apply(s1.disconnect()), LockAction::Acquire);
    assert!(c.lock_held);
    assert_eq!(c.count, 1);
    assert_eq!(s2.on_read(ReadOutcome::Received(0)), SessionCommand::Terminate);
    assert_eq!(c.apply(s2.disconnect()), LockAction::Release);
    assert!(!c.lock_held);
    assert_eq!(c.count, 0);
}

#[test]
fn scenario_steady_traffic_never_probes() {
    // A client that sends a byte well inside every keepalive window is
    // never probed and never disconnected; staleness stays at zero.
    let mut c = Coordinator::new();
    let mut s = Session::new();
    assert_eq!(c.apply(s.connect()), LockAction::Acquire);
    for _ in 0..100 {
        assert_eq!(s.on_read(ReadOutcome::Received(1)), SessionCommand::Proceed);
        assert_eq!(s.staleness, 0);
        assert!(matches!(s.phase, Phase::Monitoring));
    }
    assert!(c.lock_held);
    assert_eq!(c.count, 1);
}
