use monitor_supervisor::prefs::{ui_state_or_default, UiState};
use monitor_supervisor::supervisor::{
    first_available, shutdown_poll_action, Command, ProbeResult, SendError, ShutdownAction,
    Supervisor, MAX_SHUTDOWN_POLLS,
};

#[test]
fn spawn_twice_while_alive_creates_one_process() {
    let mut sup = Supervisor::new();
    assert!(sup.begin_spawn(None));
    sup.confirm_spawn();
    // The worker is alive: the second request must be a no-op success.
    assert!(!sup.begin_spawn(Some(ProbeResult::Alive)));
    assert!(sup.running);
}

#[test]
fn spawn_is_noop_when_probe_fails() {
    let mut sup = Supervisor::new();
    assert!(sup.begin_spawn(None));
    sup.confirm_spawn();
    assert!(!sup.begin_spawn(Some(ProbeResult::Unknown)));
}

#[test]
fn spawn_after_exit_clears_stale_state() {
    let mut sup = Supervisor::new();
    assert!(sup.begin_spawn(None));
    sup.confirm_spawn();
    sup.handle_line("EVT SCAN_PROGRESS 42%");
    // The worker died; the next spawn proceeds and resets the snapshot.
    assert!(sup.begin_spawn(Some(ProbeResult::Exited)));
    sup.confirm_spawn();
    assert!(sup.attach().is_empty());
}

#[test]
fn send_before_start_is_not_running() {
    let sup = Supervisor::new();
    match sup.prepare_send(&Command::Power(true)) {
        Err(SendError::NotRunning) => {}
        other => panic!("expected NotRunning, got {:?}", other),
    }
}

#[test]
fn send_renders_the_fixed_command_set() {
    let mut sup = Supervisor::new();
    sup.begin_spawn(None);
    sup.confirm_spawn();
    let cases = [
        (Command::Power(true), "POWER ON\n"),
        (Command::Power(false), "POWER OFF\n"),
        (Command::Feature(true), "FEATURE ON\n"),
        (Command::Feature(false), "FEATURE OFF\n"),
        (Command::SetSensitivity("1.5".to_string()), "SET_SENS 1.5\n"),
        (Command::Reset, "RESET\n"),
        (Command::Quit, "QUIT\n"),
    ];
    for (cmd, expected) in cases {
        assert_eq!(sup.prepare_send(&cmd).unwrap(), expected);
    }
}

#[test]
fn set_sensitivity_sends_exact_bytes() {
    let mut sup = Supervisor::new();
    sup.begin_spawn(None);
    sup.confirm_spawn();
    let line = sup.prepare_send(&Command::SetSensitivity("1.5".to_string())).unwrap();
    assert_eq!(line.as_bytes(), b"SET_SENS 1.5\n");
}

#[test]
fn shutdown_of_exited_process_finishes_at_once() {
    assert!(matches!(shutdown_poll_action(0, &ProbeResult::Exited), ShutdownAction::Finished));
}

#[test]
fn shutdown_wait_is_bounded() {
    assert!(matches!(shutdown_poll_action(0, &ProbeResult::Alive), ShutdownAction::Wait));
    assert!(matches!(
        shutdown_poll_action(MAX_SHUTDOWN_POLLS - 1, &ProbeResult::Alive),
        ShutdownAction::ForceKill
    ));
    assert!(matches!(shutdown_poll_action(0, &ProbeResult::Unknown), ShutdownAction::ForceKill));
}

#[test]
fn begin_shutdown_untracks_and_detaches() {
    let mut sup = Supervisor::new();
    sup.begin_spawn(None);
    sup.confirm_spawn();
    sup.attach();
    sup.handle_line("EVT REGISTERED dev-1");
    assert!(sup.begin_shutdown());
    assert!(!sup.running);
    assert!(!sup.attached);
    // A second shutdown finds nothing to stop.
    assert!(!sup.begin_shutdown());
}

#[test]
fn attach_after_events_replays_them_in_order() {
    let mut sup = Supervisor::new();
    sup.begin_spawn(None);
    sup.confirm_spawn();
    // Nobody is attached yet: the events are captured but not forwarded.
    assert!(sup.handle_line("EVT INPUT_READY").is_none());
    assert!(sup.handle_line("EVT SCAN_PROGRESS 42%").is_none());
    let replayed = sup.attach();
    let got: Vec<(String, String)> =
        replayed.iter().map(|e| (e.kind.clone(), e.payload.clone())).collect();
    assert_eq!(got, vec![
        ("INPUT_READY".to_string(), "".to_string()),
        ("SCAN_PROGRESS".to_string(), "42%".to_string()),
    ]);
    // No new events arrived: re-attaching replays the same, no duplicates.
    let again = sup.attach();
    assert_eq!(again.len(), 2);
}

#[test]
fn live_events_are_forwarded_once_attached() {
    let mut sup = Supervisor::new();
    sup.begin_spawn(None);
    sup.confirm_spawn();
    sup.attach();
    let fwd = sup.handle_line("EVT REGISTERED dev-1").unwrap();
    assert_eq!(fwd.kind, "REGISTERED");
    assert_eq!(fwd.payload, "dev-1");
    // Malformed lines are dropped silently.
    assert!(sup.handle_line("garbage").is_none());
}

#[test]
fn first_available_picks_the_first_candidate() {
    assert_eq!(first_available(&vec![false, true, true]), Some(1));
    assert_eq!(first_available(&vec![true]), Some(0));
    assert_eq!(first_available(&vec![false, false]), None);
    assert_eq!(first_available(&vec![]), None);
}

#[test]
fn missing_or_malformed_preferences_fall_back_to_defaults() {
    assert!(!ui_state_or_default(None).crosshair_memory);
    assert!(ui_state_or_default(Some(UiState { crosshair_memory: true })).crosshair_memory);
    assert!(!UiState::default().crosshair_memory);
}
