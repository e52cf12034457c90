use monitor_supervisor::codec::{decode, encode, trim};

#[test]
fn decode_valid_line_with_payload() {
    let evt = decode("EVT SCAN_PROGRESS 42%").unwrap();
    assert_eq!(evt.kind, "SCAN_PROGRESS");
    assert_eq!(evt.payload, "42%");
}

#[test]
fn decode_trims_line_and_payload() {
    let evt = decode("  EVT REGISTERED   dev-007  \r\n").unwrap();
    assert_eq!(evt.kind, "REGISTERED");
    assert_eq!(evt.payload, "dev-007");
}

#[test]
fn decode_keeps_spaces_inside_payload() {
    let evt = decode("EVT REGISTERED model X rev 2").unwrap();
    assert_eq!(evt.kind, "REGISTERED");
    assert_eq!(evt.payload, "model X rev 2");
}

#[test]
fn decode_missing_payload_is_empty() {
    let evt = decode("EVT INPUT_READY").unwrap();
    assert_eq!(evt.kind, "INPUT_READY");
    assert_eq!(evt.payload, "");
}

#[test]
fn decode_accepts_unknown_kinds() {
    let evt = decode("EVT SOMETHING_ELSE hello").unwrap();
    assert_eq!(evt.kind, "SOMETHING_ELSE");
    assert_eq!(evt.payload, "hello");
}

#[test]
fn decode_splits_fields_on_any_whitespace() {
    // A doubled space does not make an empty kind token.
    let evt = decode("EVT  K v").unwrap();
    assert_eq!(evt.kind, "K");
    assert_eq!(evt.payload, "v");
    // A tab delimits the kind just like a space.
    let evt = decode("EVT K\tv").unwrap();
    assert_eq!(evt.kind, "K");
    assert_eq!(evt.payload, "v");
    // Only the payload is kept verbatim inside.
    let evt = decode("EVT \t K  v w").unwrap();
    assert_eq!(evt.kind, "K");
    assert_eq!(evt.payload, "v w");
}

#[test]
fn decode_drops_non_event_lines() {
    assert!(decode("").is_none());
    assert!(decode("hello world").is_none());
    assert!(decode("EVT").is_none());
    assert!(decode("EVT ").is_none());
    assert!(decode("EVTX INPUT_READY").is_none());
    assert!(decode("evt INPUT_READY").is_none());
}

#[test]
fn encode_appends_single_newline() {
    assert_eq!(encode("RESET"), "RESET\n");
    assert_eq!(encode("QUIT").as_bytes(), b"QUIT\n");
}

#[test]
fn trim_removes_whitespace_at_both_ends() {
    assert_eq!(trim("  a b \t\r\n"), "a b");
    assert_eq!(trim(""), "");
    assert_eq!(trim(" \t "), "");
    assert_eq!(trim("x"), "x");
}

#[test]
fn trim_removes_unicode_whitespace() {
    assert_eq!(trim("\u{a0}\u{2003}x\u{2028}"), "x");
    assert_eq!(trim("\u{3000}EVT INPUT_READY\u{85}"), "EVT INPUT_READY");
}
