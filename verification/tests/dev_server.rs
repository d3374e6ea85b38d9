use equation_exporter::dev_server::{
    dev_server_next, DevServerAction, DevServerEvent, DevServerState, POLL_INTERVAL_MS,
    STARTUP_TIMEOUT_MESSAGE,
};

fn next(state: DevServerState, event: DevServerEvent) -> (DevServerState, DevServerAction) {
    dev_server_next(state, event)
}

#[test]
fn a_listening_server_is_used_as_it_is() {
    let (state, action) = next(DevServerState::Idle, DevServerEvent::Begin);
    assert_eq!(state, DevServerState::CheckingExisting);
    assert!(matches!(action, DevServerAction::CheckListening));
    let (state, action) = next(state, DevServerEvent::Listening(true));
    assert_eq!(state, DevServerState::Done);
    assert!(matches!(action, DevServerAction::UseExisting));
}

#[test]
fn a_started_server_is_polled_until_it_listens() {
    let (state, action) = next(DevServerState::CheckingExisting, DevServerEvent::Listening(false));
    assert!(matches!(action, DevServerAction::SpawnServer));
    let (state, action) = next(state, DevServerEvent::Spawned);
    assert!(matches!(action, DevServerAction::ReadClock));
    let (state, action) = next(state, DevServerEvent::Elapsed(0));
    assert!(matches!(action, DevServerAction::CheckListening));
    let (state, action) = next(state, DevServerEvent::Listening(false));
    assert!(matches!(action, DevServerAction::PollChild));
    let (state, action) = next(state, DevServerEvent::ChildRunning);
    assert!(matches!(action, DevServerAction::Sleep(ms) if ms == POLL_INTERVAL_MS));
    let (state, action) = next(state, DevServerEvent::Slept);
    assert!(matches!(action, DevServerAction::ReadClock));
    let (state, _) = next(state, DevServerEvent::Elapsed(9_999));
    let (state, action) = next(state, DevServerEvent::Listening(true));
    assert_eq!(state, DevServerState::Done);
    assert!(matches!(action, DevServerAction::KeepStarted));
}

#[test]
fn an_exited_server_is_reported_with_its_status() {
    let (state, action) = next(
        DevServerState::PollingChild,
        DevServerEvent::ChildExited("exit status: 1".to_string()),
    );
    assert_eq!(state, DevServerState::Done);
    match action {
        DevServerAction::Fail(message) => assert_eq!(message, "pnpm dev exited with exit status: 1"),
        _ => panic!("expected a failure"),
    }
}

#[test]
fn a_server_that_is_not_listening_after_ten_seconds_is_killed() {
    let (state, action) = next(DevServerState::ReadingClock, DevServerEvent::Elapsed(10_000));
    assert_eq!(state, DevServerState::Done);
    match action {
        DevServerAction::KillAndTimeOut(message) => assert_eq!(message, STARTUP_TIMEOUT_MESSAGE),
        _ => panic!("expected a time-out"),
    }
}

#[test]
fn a_failed_start_is_reported_and_later_events_are_ignored() {
    let (state, action) = next(DevServerState::Spawning, DevServerEvent::SpawnFailed("no pnpm".to_string()));
    assert_eq!(state, DevServerState::Done);
    assert!(matches!(action, DevServerAction::Fail(ref message) if message == "no pnpm"));
    let (state, action) = next(state, DevServerEvent::Listening(true));
    assert_eq!(state, DevServerState::Done);
    assert!(matches!(action, DevServerAction::Ignore));
}
