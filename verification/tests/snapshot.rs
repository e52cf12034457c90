use monitor_supervisor::codec::{decode, WorkerEvent};
use monitor_supervisor::snapshot::Snapshot;

fn event(kind: &str, payload: &str) -> WorkerEvent {
    WorkerEvent { kind: kind.to_string(), payload: payload.to_string() }
}

fn kinds_and_payloads(evts: &[WorkerEvent]) -> Vec<(String, String)> {
    evts.iter().map(|e| (e.kind.clone(), e.payload.clone())).collect()
}

#[test]
fn fresh_snapshot_replays_nothing() {
    let snap = Snapshot::new();
    assert!(snap.replay().is_empty());
}

#[test]
fn update_tracks_each_kind() {
    let mut snap = Snapshot::new();
    snap.update(&event("INPUT_READY", ""));
    snap.update(&event("SCAN_PROGRESS", "10%"));
    snap.update(&event("REGISTERED", "dev-1"));
    snap.update(&event("SENS_APPLIED", "1.5"));
    let replayed = kinds_and_payloads(&snap.replay());
    assert_eq!(replayed, vec![
        ("INPUT_READY".to_string(), "".to_string()),
        ("SCAN_PROGRESS".to_string(), "10%".to_string()),
        ("SENS_APPLIED".to_string(), "1.5".to_string()),
        ("REGISTERED".to_string(), "dev-1".to_string()),
    ]);
}

#[test]
fn update_overwrites_previous_value() {
    let mut snap = Snapshot::new();
    snap.update(&event("SCAN_PROGRESS", "10%"));
    snap.update(&event("SCAN_PROGRESS", "20%"));
    let replayed = snap.replay();
    assert_eq!(replayed.len(), 1);
    assert_eq!(replayed[0].payload, "20%");
}

#[test]
fn update_ignores_unknown_kinds() {
    let mut snap = Snapshot::new();
    snap.update(&event("SOMETHING_ELSE", "x"));
    assert!(snap.replay().is_empty());
}

#[test]
fn replay_order_is_fixed() {
    // Events arrive in the order SENS_APPLIED, INPUT_READY, REGISTERED; the
    // replay still leads with readiness and ends with the registration.
    let mut snap = Snapshot::new();
    snap.update(&event("SENS_APPLIED", "1.5"));
    snap.update(&event("INPUT_READY", ""));
    snap.update(&event("REGISTERED", "dev-1"));
    let replayed = kinds_and_payloads(&snap.replay());
    assert_eq!(replayed, vec![
        ("INPUT_READY".to_string(), "".to_string()),
        ("SENS_APPLIED".to_string(), "1.5".to_string()),
        ("REGISTERED".to_string(), "dev-1".to_string()),
    ]);
}

#[test]
fn replay_twice_yields_the_same_sequence() {
    let mut snap = Snapshot::new();
    snap.update(&event("INPUT_READY", ""));
    snap.update(&event("SCAN_PROGRESS", "42%"));
    let first = kinds_and_payloads(&snap.replay());
    let second = kinds_and_payloads(&snap.replay());
    assert_eq!(first, second);
}

#[test]
fn decoded_events_feed_the_snapshot() {
    let mut snap = Snapshot::new();
    snap.update(&decode("EVT SCAN_PROGRESS 42%").unwrap());
    let replayed = snap.replay();
    assert_eq!(replayed.len(), 1);
    assert_eq!(replayed[0].kind, "SCAN_PROGRESS");
    assert_eq!(replayed[0].payload, "42%");
}
