use eww_triad::state::TriadState;
use eww_triad::{Json, Member};

fn s(x: &str) -> Json {
    Json::from_str(x)
}

fn n(x: u64) -> Json {
    Json::from_u64(x)
}

fn obj(pairs: Vec<(&str, Json)>) -> Json {
    Json::Object(pairs.into_iter().map(|(k, v)| Member::new(k, v)).collect())
}

fn arr(items: Vec<Json>) -> Json {
    Json::Array(items)
}

fn event(name: &str, key: &str, payload: Json) -> Json {
    obj(vec![("triad", obj(vec![("event", s(name)), (key, payload)]))])
}

#[test]
fn layout_event_updates_cached_layout() {
    let mut state = TriadState::new();
    state.replace(obj(vec![("layout", obj(vec![("active_tag", n(1))])), ("windows", arr(vec![]))]));
    let changed = state.apply_event(&event("layout-state-changed", "state", obj(vec![("active_tag", n(2))])));
    assert!(changed);
    let current = state.current().unwrap();
    assert_eq!(current.get("layout").unwrap().get("active_tag"), Some(&n(2)));
}

#[test]
fn window_event_replaces_matching_window() {
    let mut state = TriadState::new();
    state.replace(obj(vec![
        ("layout", obj(vec![])),
        ("windows", arr(vec![obj(vec![("id", n(7)), ("title", s("old"))])])),
    ]));
    let changed = state.apply_event(&event(
        "window-changed",
        "window",
        obj(vec![("id", n(7)), ("title", s("new"))]),
    ));
    assert!(changed);
    let windows = state.current().unwrap().get("windows").unwrap();
    match windows {
        Json::Array(items) => assert_eq!(items[0].get("title"), Some(&s("new"))),
        _ => panic!("windows is not an array"),
    }
}

#[test]
fn window_event_appends_unknown_window() {
    let mut state = TriadState::new();
    state.replace(obj(vec![("windows", arr(vec![obj(vec![("id", n(7))])]))]));
    assert!(state.apply_event(&event("window-changed", "window", obj(vec![("id", n(8))]))));
    assert_eq!(
        state.current().unwrap().get("windows"),
        Some(&arr(vec![obj(vec![("id", n(7))]), obj(vec![("id", n(8))])]))
    );
}

#[test]
fn events_that_do_not_apply_change_nothing() {
    let mut state = TriadState::new();
    assert!(!state.apply_event(&event("layout-state-changed", "state", obj(vec![]))));
    assert!(state.current().is_none());
    assert!(!state.apply_event(&event("window-changed", "window", obj(vec![("id", n(1))]))));
    let initial = obj(vec![("windows", s("none"))]);
    state.replace(initial.clone());
    assert!(!state.apply_event(&event("window-changed", "window", obj(vec![("id", n(1))]))));
    assert!(!state.apply_event(&event("window-changed", "window", obj(vec![("id", s("x"))]))));
    assert!(!state.apply_event(&event("other-event", "state", obj(vec![]))));
    assert!(!state.apply_event(&obj(vec![("ok", Json::Bool(true))])));
    assert_eq!(state.current(), Some(&initial));
}

#[test]
fn state_event_replaces_cached_state() {
    let mut state = TriadState::new();
    assert!(state.apply_event(&event("state-changed", "state", obj(vec![("version", n(3))]))));
    assert_eq!(state.current(), Some(&obj(vec![("version", n(3))])));
}
