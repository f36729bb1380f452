use eww_triad::view::{disconnected_eww_state, disconnected_state, eww_state, EwwState};
use eww_triad::{Error, Json, Member};

fn s(x: &str) -> Json {
    Json::from_str(x)
}

fn n(x: u64) -> Json {
    Json::from_u64(x)
}

fn obj(pairs: Vec<(&str, Json)>) -> Json {
    Json::Object(pairs.into_iter().map(|(k, v)| Member::new(k, v)).collect())
}

fn arr(items: Vec<Json>) -> Json {
    Json::Array(items)
}

fn keys(v: &Json) -> Vec<String> {
    match v {
        Json::Object(members) => members.iter().map(|m| m.key.clone()).collect(),
        _ => panic!("not an object"),
    }
}

#[test]
fn projection_lifts_common_bar_fields() {
    let state = obj(vec![
        ("version", n(11)),
        ("capabilities", obj(vec![("event_stream", Json::Bool(true))])),
        (
            "layout",
            obj(vec![
                ("active_tag", n(4)),
                ("active_workspace_idx", n(2)),
                ("workspaces", arr(vec![obj(vec![("workspace_idx", n(2))])])),
                ("layouts", arr(vec![obj(vec![("id", s("scroller"))])])),
                ("layout_cycle", arr(vec![s("scroller")])),
                (
                    "layout_cycle_entries",
                    arr(vec![obj(vec![("kind", s("builtin")), ("id", s("scroller"))])]),
                ),
            ]),
        ),
        ("windows", arr(vec![obj(vec![("id", n(99)), ("is_focused", Json::Bool(true))])])),
        ("outputs", arr(vec![obj(vec![("name", s("DP-1"))])])),
        ("overview", obj(vec![("is_open", Json::Bool(false))])),
        ("keyboard_layouts", arr(vec![s("us")])),
        ("current_keyboard_layout_idx", n(0)),
    ]);
    let projected = eww_state(&state);
    assert_eq!(projected.schema, "eww-triad.v1");
    assert_eq!(projected.triad_state_version, Some(11));
    assert_eq!(projected.active_tag, Some(4));
    assert_eq!(projected.focused_window_id, Some(99));
    assert_eq!(projected.capabilities.get("event_stream"), Some(&Json::Bool(true)));
    match &projected.layout_cycle_entries {
        Json::Array(items) => assert_eq!(items[0].get("id"), Some(&s("scroller"))),
        _ => panic!("layout_cycle_entries is not an array"),
    }
    assert_eq!(projected.active_workspace_idx, Some(2));
    assert_eq!(projected.current_keyboard_layout_idx, Some(0));
    assert!(projected.connected);
}

#[test]
fn disconnected_payload_keeps_public_shape() {
    let disconnected = disconnected_state();
    let connected = eww_state(&obj(vec![])).to_json();
    assert_eq!(keys(&disconnected), keys(&connected));
    assert_eq!(disconnected.get("connected"), Some(&Json::Bool(false)));
    assert_eq!(disconnected.get("workspaces"), Some(&arr(vec![])));
    assert_eq!(disconnected.get("overview"), Some(&obj(vec![])));
}

#[test]
fn empty_state_projects_to_nulls() {
    let projected = eww_state(&obj(vec![]));
    assert!(projected.connected);
    assert_eq!(projected.windows, Json::Null);
    assert_eq!(projected.capabilities, Json::Null);
    assert_eq!(projected.focused_window_id, None);
}

#[test]
fn focused_window_is_the_first_focused_with_an_id() {
    let state = obj(vec![(
        "windows",
        arr(vec![
            obj(vec![("id", n(1)), ("is_focused", Json::Bool(false))]),
            obj(vec![("id", s("x")), ("is_focused", Json::Bool(true))]),
            obj(vec![("id", n(3)), ("is_focused", Json::Bool(true))]),
            obj(vec![("id", n(4)), ("is_focused", Json::Bool(true))]),
        ]),
    )]);
    assert_eq!(eww_state(&state).focused_window_id, Some(3));
}

#[test]
fn disconnected_state_is_the_documented_object() {
    let e = disconnected_eww_state();
    assert!(!e.connected);
    assert_eq!(e.schema, "eww-triad.v1");
    let json = e.to_json();
    assert_eq!(
        keys(&json),
        vec![
            "schema",
            "connected",
            "triad_state_version",
            "active_tag",
            "active_workspace_idx",
            "focused_window_id",
            "capabilities",
            "workspaces",
            "windows",
            "outputs",
            "layouts",
            "layout_cycle",
            "layout_cycle_entries",
            "overview",
            "keyboard_layouts",
            "current_keyboard_layout_idx",
        ]
    );
    assert_eq!(json.get("active_tag"), Some(&Json::Null));
    assert_eq!(json.get("capabilities"), Some(&obj(vec![])));
}

#[test]
fn eww_state_round_trips_through_json() {
    let state = disconnected_eww_state();
    let encoded = state.to_json();
    let decoded = EwwState::from_json(&encoded).unwrap();
    assert!(!decoded.connected);
    assert_eq!(decoded.schema, "eww-triad.v1");
}

#[test]
fn connected_projection_round_trips_through_json() {
    let state = eww_state(&obj(vec![
        ("version", n(3)),
        ("layout", obj(vec![("active_tag", n(5)), ("workspaces", arr(vec![n(1)]))])),
        ("windows", arr(vec![obj(vec![("id", n(9)), ("is_focused", Json::Bool(true))])])),
    ]));
    let decoded = EwwState::from_json(&state.to_json()).unwrap();
    assert!(decoded.connected);
    assert_eq!(decoded.triad_state_version, Some(3));
    assert_eq!(decoded.active_tag, Some(5));
    assert_eq!(decoded.focused_window_id, Some(9));
    assert_eq!(decoded.workspaces, arr(vec![n(1)]));
    assert_eq!(decoded.capabilities, Json::Null);
    assert_eq!(decoded.to_json(), state.to_json());
}

#[test]
fn from_json_refuses_values_without_a_projection() {
    let mut value = disconnected_eww_state().to_json();
    assert!(EwwState::from_json(&value).is_ok());
    value.insert("active_tag", Json::from_i64(-1));
    assert!(matches!(
        EwwState::from_json(&value),
        Err(Error::Json(m)) if m == "missing or invalid field `active_tag`"
    ));
    let mut value = disconnected_eww_state().to_json();
    value.insert("active_tag", Json::Null);
    assert_eq!(EwwState::from_json(&value).unwrap().active_tag, None);
    let mut value = disconnected_eww_state().to_json();
    value.insert("connected", s("no"));
    assert!(EwwState::from_json(&value).is_err());
    assert!(EwwState::from_json(&arr(vec![])).is_err());
    assert!(EwwState::from_json(&obj(vec![("schema", s("eww-triad.v1")), ("connected", Json::Bool(true))])).is_err());
}

#[test]
fn from_json_names_the_first_refused_field() {
    let message = |v: &Json| match EwwState::from_json(v) {
        Err(Error::Json(m)) => m,
        _ => panic!("accepted"),
    };
    assert_eq!(message(&arr(vec![])), "invalid type: expected an Eww state object");
    assert_eq!(message(&obj(vec![])), "missing or invalid field `schema`");
    assert_eq!(
        message(&obj(vec![("schema", s("eww-triad.v1")), ("connected", Json::Bool(true))])),
        "missing or invalid field `capabilities`"
    );
    let mut value = disconnected_eww_state().to_json();
    value.insert("current_keyboard_layout_idx", s("x"));
    assert_eq!(message(&value), "missing or invalid field `current_keyboard_layout_idx`");
    let mut value = disconnected_eww_state().to_json();
    value.insert("schema", n(1));
    assert_eq!(message(&value), "missing or invalid field `schema`");
}
