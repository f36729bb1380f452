use eww_triad::protocol::{
    action_request, dispatch_binding_request, event_stream_request, event_stream_request_for,
    query_request, reply_ok, request, set_layout_request, state_from_reply, validate_query_reply,
};
use eww_triad::ipc::request_line;
use eww_triad::{Error, Json, Member, Number};

fn s(x: &str) -> Json {
    Json::from_str(x)
}

fn n(x: u64) -> Json {
    Json::from_u64(x)
}

fn i(x: i64) -> Json {
    Json::from_i64(x)
}

fn obj(pairs: Vec<(&str, Json)>) -> Json {
    Json::Object(pairs.into_iter().map(|(k, v)| Member::new(k, v)).collect())
}

fn arr(items: Vec<Json>) -> Json {
    Json::Array(items)
}

fn at(v: &Json, path: &[&str]) -> Option<Json> {
    let mut cur = v.clone();
    for key in path {
        cur = cur.get(key)?.clone();
    }
    Some(cur)
}

fn action_request_merges_payload_fields_body() {
    let value = action_request("focus-workspace", obj(vec![("workspace_idx", n(2))])).unwrap();
    assert_eq!(at(&value, &["triad", "version"]), Some(n(1)));
    assert_eq!(at(&value, &["triad", "request"]), Some(s("action")));
    assert_eq!(at(&value, &["triad", "action"]), Some(s("focus-workspace")));
    assert_eq!(at(&value, &["triad", "workspace_idx"]), Some(n(2)));
}

#[test]
fn protocol_action_request_merges_payload_fields() {
    action_request_merges_payload_fields_body();
}

#[test]
fn tests_action_request_merges_payload_fields() {
    action_request_merges_payload_fields_body();
}

#[test]
fn query_request_accepts_native_reads() {
    let value = query_request("capabilities").unwrap();
    assert_eq!(at(&value, &["triad", "request"]), Some(s("capabilities")));
}

#[test]
fn query_request_rejects_unknown_reads() {
    let err = query_request("not-real").unwrap_err();
    assert!(err.to_string().contains("not-real"));
}

#[test]
fn event_stream_request_can_select_events() {
    let value = event_stream_request_for(&["state", "window"]).unwrap();
    assert_eq!(at(&value, &["triad", "events"]), Some(arr(vec![s("state"), s("window")])));
}

#[test]
fn event_stream_request_rejects_unknown_events() {
    let err = event_stream_request_for(&["state", "bad"]).unwrap_err();
    assert!(err.to_string().contains("bad"));
}

fn set_layout_can_target_workspace_body() {
    let value = set_layout_request("scroller", None, Some(3));
    assert_eq!(at(&value, &["triad", "request"]), Some(s("set-layout")));
    assert_eq!(at(&value, &["triad", "target", "workspace_idx"]), Some(n(3)));
}

#[test]
fn protocol_set_layout_can_target_workspace() {
    set_layout_can_target_workspace_body();
}

#[test]
fn tests_set_layout_can_target_workspace() {
    set_layout_can_target_workspace_body();
}

#[test]
fn dispatch_binding_key_omits_extra_fields() {
    let value = dispatch_binding_request("key", "Super+Return", None).unwrap();
    assert_eq!(at(&value, &["triad", "request"]), Some(s("dispatch-binding")));
    assert_eq!(at(&value, &["triad", "kind"]), Some(s("key")));
    assert_eq!(at(&value, &["triad", "binding"]), Some(s("Super+Return")));
    assert!(at(&value, &["triad", "ticks"]).is_none());
    assert!(at(&value, &["triad", "fingers"]).is_none());
}

#[test]
fn dispatch_binding_pointer_omits_extra_fields() {
    let value = dispatch_binding_request("pointer", "BTN_LEFT", None).unwrap();
    assert_eq!(at(&value, &["triad", "kind"]), Some(s("pointer")));
    assert!(at(&value, &["triad", "ticks"]).is_none());
    assert!(at(&value, &["triad", "fingers"]).is_none());
}

#[test]
fn dispatch_binding_axis_includes_ticks() {
    let value = dispatch_binding_request("axis", "WheelDown", Some(-2)).unwrap();
    assert_eq!(at(&value, &["triad", "ticks"]), Some(i(-2)));
}

#[test]
fn dispatch_binding_axis_defaults_ticks() {
    let value = dispatch_binding_request("axis", "WheelDown", None).unwrap();
    assert_eq!(at(&value, &["triad", "ticks"]), Some(n(1)));
}

#[test]
fn dispatch_binding_gesture_includes_fingers() {
    let value = dispatch_binding_request("gesture", "swipe-up", Some(3)).unwrap();
    assert_eq!(at(&value, &["triad", "fingers"]), Some(n(3)));
}

#[test]
fn dispatch_binding_rejects_bad_payloads() {
    assert!(dispatch_binding_request("bad", "x", None).is_err());
    assert!(dispatch_binding_request("gesture", "swipe-up", None).is_err());
    assert!(dispatch_binding_request("key", "Super+Return", Some(1)).is_err());
}

fn state_reply_rejects_error_envelope_body() {
    let err = state_from_reply(&obj(vec![("ok", Json::Bool(false)), ("error", s("bad"))])).unwrap_err();
    assert!(err.to_string().contains("bad"));
}

#[test]
fn protocol_state_reply_rejects_error_envelope() {
    state_reply_rejects_error_envelope_body();
}

#[test]
fn tests_state_reply_rejects_error_envelope() {
    state_reply_rejects_error_envelope_body();
}

fn reply(kind: &str, key: &str, payload: Json) -> Json {
    obj(vec![
        ("ok", Json::Bool(true)),
        ("triad", obj(vec![("version", n(1)), ("type", s(kind)), (key, payload)])),
    ])
}

#[test]
fn representative_query_replies_match_expected_types() {
    let cases = vec![
        (
            "state",
            reply("state", "state", obj(vec![("version", n(1)), ("layout", obj(vec![])), ("windows", arr(vec![]))])),
        ),
        ("capabilities", reply("capabilities", "capabilities", obj(vec![("event_stream", Json::Bool(true))]))),
        (
            "workspaces",
            reply("workspaces", "workspaces", arr(vec![obj(vec![("tag_id", n(1)), ("workspace_idx", n(1))])])),
        ),
        ("outputs", reply("outputs", "outputs", arr(vec![obj(vec![("name", s("DP-1"))])]))),
        ("windows", reply("windows", "windows", arr(vec![obj(vec![("id", n(7))])]))),
        ("focused-window", reply("focused-window", "window", obj(vec![("id", n(7))]))),
        ("overview-state", reply("overview-state", "overview", obj(vec![("is_open", Json::Bool(false))]))),
        (
            "keyboard-layouts",
            reply(
                "keyboard-layouts",
                "keyboard_layouts",
                obj(vec![("names", arr(vec![s("us")])), ("current_idx", n(0))]),
            ),
        ),
        (
            "layout-state",
            reply("layout-state", "state", obj(vec![("active_tag", n(1)), ("workspaces", arr(vec![]))])),
        ),
        (
            "commands",
            reply("commands", "catalog", obj(vec![("version", n(1)), ("commands", arr(vec![]))])),
        ),
    ];
    for (name, reply) in cases {
        validate_query_reply(name, &reply).unwrap();
    }
}

#[test]
fn query_reply_of_another_type_is_rejected() {
    let r = reply("outputs", "outputs", arr(vec![]));
    match validate_query_reply("windows", &r) {
        Err(Error::UnexpectedReply { expected, actual }) => {
            assert_eq!(expected, "windows");
            assert_eq!(actual, "outputs");
        }
        other => panic!("unexpected result: {:?}", other),
    }
    let untyped = obj(vec![("ok", Json::Bool(true)), ("triad", obj(vec![]))]);
    match validate_query_reply("windows", &untyped) {
        Err(Error::UnexpectedReply { actual, .. }) => assert_eq!(actual, "<missing>"),
        other => panic!("unexpected result: {:?}", other),
    }
    assert!(matches!(
        validate_query_reply("not-real", &r),
        Err(Error::UnsupportedRequest(name)) if name == "not-real"
    ));
}

#[test]
fn reply_ok_reports_failures_and_missing_envelopes() {
    let failed = obj(vec![("ok", Json::Bool(false))]);
    assert_eq!(
        reply_ok(&failed).unwrap_err().to_string(),
        "triad returned an error: unknown triad error"
    );
    let bare = obj(vec![("ok", Json::Bool(true))]);
    assert_eq!(
        reply_ok(&bare).unwrap_err().to_string(),
        "triad returned an error: missing triad reply envelope"
    );
    let good = obj(vec![("triad", obj(vec![("type", s("ack"))]))]);
    assert_eq!(reply_ok(&good).unwrap(), &obj(vec![("type", s("ack"))]));
}

#[test]
fn state_reply_yields_state_and_checks_type() {
    let good = reply("state", "state", obj(vec![("version", n(5))]));
    assert_eq!(state_from_reply(&good).unwrap(), obj(vec![("version", n(5))]));
    let wrong = reply("windows", "windows", arr(vec![]));
    assert_eq!(
        state_from_reply(&wrong).unwrap_err().to_string(),
        "expected triad reply type state, got windows"
    );
    let empty = obj(vec![("triad", obj(vec![("type", s("state"))]))]);
    assert_eq!(
        state_from_reply(&empty).unwrap_err().to_string(),
        "triad returned an error: state reply did not include state"
    );
}

#[test]
fn plain_and_event_stream_requests_have_their_shape() {
    assert_eq!(
        request("state"),
        obj(vec![("triad", obj(vec![("version", n(1)), ("request", s("state"))]))])
    );
    assert_eq!(
        at(&event_stream_request(), &["triad", "events"]),
        Some(arr(vec![s("state"), s("layout"), s("window")]))
    );
}

#[test]
fn action_request_fixed_fields_win_and_payload_must_be_an_object() {
    let value = action_request("close", obj(vec![("request", s("other")), ("id", n(4))])).unwrap();
    assert_eq!(
        value,
        obj(vec![(
            "triad",
            obj(vec![
                ("request", s("action")),
                ("id", n(4)),
                ("version", n(1)),
                ("action", s("close")),
            ])
        )])
    );
    let err = action_request("close", arr(vec![])).unwrap_err();
    assert!(matches!(err, Error::InvalidActionPayload(text) if text == "[]"));
}

#[test]
fn set_layout_prefers_tag_and_may_have_no_target() {
    let value = set_layout_request("tile", Some(2), Some(3));
    assert_eq!(at(&value, &["triad", "target"]), Some(obj(vec![("tag", n(2))])));
    let value = set_layout_request("tile", None, None);
    assert!(at(&value, &["triad", "target"]).is_none());
    assert_eq!(at(&value, &["triad", "layout"]), Some(s("tile")));
}

#[test]
fn dispatch_binding_errors_say_why() {
    assert_eq!(
        dispatch_binding_request("bad", "x", None).unwrap_err().to_string(),
        "invalid dispatch binding: unsupported binding kind: bad"
    );
    assert_eq!(
        dispatch_binding_request("pointer", "BTN_LEFT", Some(2)).unwrap_err().to_string(),
        "invalid dispatch binding: pointer bindings do not take a value"
    );
    assert_eq!(
        dispatch_binding_request("gesture", "swipe", None).unwrap_err().to_string(),
        "invalid dispatch binding: gesture bindings require a finger count"
    );
}

fn payload_error(payload: Json) -> String {
    match action_request("close", payload).unwrap_err() {
        Error::InvalidActionPayload(text) => text,
        other => panic!("unexpected error: {}", other.to_string()),
    }
}

#[test]
fn action_payload_that_is_not_an_object_is_reported_as_its_json_text() {
    assert_eq!(payload_error(Json::Null), "null");
    assert_eq!(payload_error(Json::Bool(true)), "true");
    assert_eq!(payload_error(n(3)), "3");
    assert_eq!(payload_error(i(-7)), "-7");
    assert_eq!(payload_error(Json::Number(Number::Float("1.5".to_string()))), "1.5");
    assert_eq!(payload_error(s("a\"b")), "\"a\\\"b\"");
    assert_eq!(
        payload_error(arr(vec![n(1), obj(vec![("b", n(1)), ("a", s("x"))]), arr(vec![])])),
        "[1,{\"a\":\"x\",\"b\":1},[]]"
    );
    assert_eq!(
        action_request("close", Json::Null).unwrap_err().to_string(),
        "invalid action payload: null"
    );
}

#[test]
fn request_lines_are_the_json_text_and_a_newline() {
    assert_eq!(
        request_line(&request("state")),
        "{\"triad\":{\"request\":\"state\",\"version\":1}}\n"
    );
    assert_eq!(
        request_line(&set_layout_request("tile", None, Some(3))),
        "{\"triad\":{\"layout\":\"tile\",\"request\":\"set-layout\",\"target\":{\"workspace_idx\":3},\"version\":1}}\n"
    );
    assert_eq!(
        request_line(&event_stream_request()),
        "{\"triad\":{\"events\":[\"state\",\"layout\",\"window\"],\"request\":\"event-stream\",\"version\":1}}\n"
    );
}
