use eww_triad::cli::{focus_window_request, focus_workspace_request, parse_events};
use eww_triad::{BindingKind, Json, Member};

fn parse_events_accepts_csv_body() {
    assert_eq!(
        parse_events("state, window").unwrap(),
        vec!["state".to_string(), "window".to_string()]
    );
}

fn parse_events_rejects_unknown_event_body() {
    let err = parse_events("state,bad").unwrap_err();
    assert!(err.to_string().contains("bad"));
}

fn binding_kind_serializes_to_native_kind_body() {
    assert_eq!(BindingKind::Key.as_str(), "key");
    assert_eq!(BindingKind::Pointer.as_str(), "pointer");
    assert_eq!(BindingKind::Axis.as_str(), "axis");
    assert_eq!(BindingKind::Gesture.as_str(), "gesture");
}

#[test]
fn cli_parse_events_accepts_csv() {
    parse_events_accepts_csv_body();
}

#[test]
fn tests_parse_events_accepts_csv() {
    parse_events_accepts_csv_body();
}

#[test]
fn cli_parse_events_rejects_unknown_event() {
    parse_events_rejects_unknown_event_body();
}

#[test]
fn tests_parse_events_rejects_unknown_event() {
    parse_events_rejects_unknown_event_body();
}

#[test]
fn cli_binding_kind_serializes_to_native_kind() {
    binding_kind_serializes_to_native_kind_body();
}

#[test]
fn tests_binding_kind_serializes_to_native_kind() {
    binding_kind_serializes_to_native_kind_body();
}

#[test]
fn parse_events_trims_and_drops_empty_pieces() {
    assert_eq!(
        parse_events(" layout ,,\twindow,\u{3000}state\n, ").unwrap(),
        vec!["layout".to_string(), "window".to_string(), "state".to_string()]
    );
    assert_eq!(parse_events("").unwrap(), Vec::<String>::new());
    assert_eq!(parse_events(" , ").unwrap(), Vec::<String>::new());
}

#[test]
fn parse_events_names_the_first_unknown_event() {
    let err = parse_events("window, nope, other").unwrap_err();
    assert_eq!(err.to_string(), "unsupported triad event: nope");
}

#[test]
fn focus_requests_are_actions() {
    let value = focus_workspace_request(2);
    let triad = value.get("triad").unwrap();
    assert_eq!(triad.get("action"), Some(&Json::from_str("focus-workspace")));
    assert_eq!(triad.get("workspace_idx"), Some(&Json::from_u64(2)));
    let value = focus_window_request(77);
    let triad = value.get("triad").unwrap();
    assert_eq!(triad.get("action"), Some(&Json::from_str("focus-window")));
    assert_eq!(triad.get("id"), Some(&Json::from_u64(77)));
    assert_eq!(triad.get("request"), Some(&Json::from_str("action")));
    let _ = Member::new("unused", Json::Null);
}
