use eww_triad::client::{can_reconnect, event_names};
use eww_triad::ipc::{self, ListenSession};
use eww_triad::protocol::{NATIVE_EVENT_NAMES, NATIVE_QUERY_REQUESTS};
use eww_triad::state::TriadState;
use eww_triad::{AsyncClient, BindingKind, Client, Error, EventFilter, Json, Member, QueryRequest};

fn s(x: &str) -> Json {
    Json::from_str(x)
}

fn n(x: u64) -> Json {
    Json::from_u64(x)
}

fn obj(pairs: Vec<(&str, Json)>) -> Json {
    Json::Object(pairs.into_iter().map(|(k, v)| Member::new(k, v)).collect())
}

#[test]
fn query_request_names_are_stable() {
    assert_eq!(QueryRequest::State.as_str(), "state");
    assert_eq!(QueryRequest::FocusedWindow.as_str(), "focused-window");
    assert_eq!(EventFilter::Window.as_str(), "window");
    assert_eq!(BindingKind::Gesture.as_str(), "gesture");
}

#[test]
fn query_request_display_parse_and_all_are_stable() {
    assert_eq!(QueryRequest::ALL.len(), 10);
    assert_eq!(
        QueryRequest::ALL.iter().map(|q| q.to_string()).collect::<Vec<_>>(),
        [
            "state",
            "capabilities",
            "workspaces",
            "outputs",
            "windows",
            "focused-window",
            "overview-state",
            "keyboard-layouts",
            "layout-state",
            "commands"
        ]
    );
    assert_eq!("layout-state".parse::<QueryRequest>().unwrap(), QueryRequest::LayoutState);
    assert!(matches!(
        "not-real".parse::<QueryRequest>(),
        Err(Error::UnsupportedRequest(request)) if request == "not-real"
    ));
}

#[test]
fn event_filter_display_parse_and_all_are_stable() {
    assert_eq!(EventFilter::ALL, [EventFilter::State, EventFilter::Layout, EventFilter::Window]);
    assert_eq!(
        EventFilter::ALL.iter().map(|f| f.to_string()).collect::<Vec<_>>(),
        ["state", "layout", "window"]
    );
    assert_eq!("window".parse::<EventFilter>().unwrap(), EventFilter::Window);
    assert!(matches!(
        "not-real".parse::<EventFilter>(),
        Err(Error::UnsupportedEvent(event)) if event == "not-real"
    ));
}

#[test]
fn binding_kind_display_and_parse_are_stable() {
    assert_eq!(BindingKind::Axis.to_string(), "axis");
    assert_eq!("key".parse::<BindingKind>().unwrap(), BindingKind::Key);
    assert!(matches!(
        "not-real".parse::<BindingKind>(),
        Err(Error::InvalidDispatchBinding(message))
            if message == "unsupported binding kind: not-real"
    ));
}

#[test]
fn every_request_parses_back_from_its_name() {
    for q in QueryRequest::ALL {
        assert_eq!(QueryRequest::parse(q.as_str()).unwrap(), q);
    }
    for f in EventFilter::ALL {
        assert_eq!(EventFilter::parse(f.as_str()).unwrap(), f);
    }
    for k in [BindingKind::Key, BindingKind::Pointer, BindingKind::Axis, BindingKind::Gesture] {
        assert_eq!(BindingKind::parse(k.as_str()).unwrap(), k);
    }
}

#[test]
fn event_names_default_to_every_native_event() {
    assert_eq!(event_names(&[]), vec!["state", "layout", "window"]);
    assert_eq!(event_names(&[EventFilter::Window, EventFilter::State]), vec!["window", "state"]);
}

#[test]
fn socket_paths_resolve_in_order() {
    let client = Client::connect(b"/tmp/triad.sock");
    assert_eq!(client.socket_path(), b"/tmp/triad.sock");
    let c = Client::connect_default(Some(b"/run/a.sock"), Some(b"/run/user/1")).unwrap();
    assert_eq!(c.socket_path(), b"/run/a.sock");
    let c = Client::connect_default(None, Some(b"/run/user/1")).unwrap();
    assert_eq!(c.socket_path(), b"/run/user/1/triad.sock");
    let c = AsyncClient::connect_default(None, Some(b"/run/user/1/")).unwrap();
    assert_eq!(c.socket_path(), b"/run/user/1/triad.sock");
    let err = Client::connect_default(None, None).unwrap_err();
    assert!(matches!(err, Error::MissingSocketPath));
    assert_eq!(AsyncClient::connect(b"x.sock").socket_path(), b"x.sock");
}

#[test]
fn socket_paths_keep_bytes_that_are_not_utf8() {
    let c = Client::connect_default(None, Some(b"/run/\xff\xfe")).unwrap();
    assert_eq!(c.socket_path(), b"/run/\xff\xfe/triad.sock");
    let c = Client::connect_default(Some(b"/tmp/\x80.sock"), None).unwrap();
    assert_eq!(c.socket_path(), b"/tmp/\x80.sock");
    let r = ipc::resolve_socket_path(None, None, Some(b"")).unwrap();
    assert_eq!(r, b"triad.sock".to_vec());
    let r = ipc::resolve_socket_path(Some(b"/explicit"), Some(b"/env"), None).unwrap();
    assert_eq!(r, b"/explicit".to_vec());
}

#[test]
fn reconnects_only_after_connection_failures() {
    assert!(can_reconnect(&Error::StreamDisconnected));
    assert!(can_reconnect(&Error::Io("reset".to_string())));
    assert!(can_reconnect(&Error::SocketMissing("/x".to_string())));
    assert!(can_reconnect(&Error::Json("eof".to_string())));
    assert!(!can_reconnect(&Error::Triad("bad".to_string())));
    assert!(!can_reconnect(&Error::MissingSocketPath));
}

#[test]
fn eww_state_once_projects_a_state_reply() {
    let client = Client::connect(b"/tmp/none.sock");
    let reply = obj(vec![
        ("ok", Json::Bool(true)),
        (
            "triad",
            obj(vec![
                ("version", n(1)),
                ("type", s("state")),
                (
                    "state",
                    obj(vec![
                        ("version", n(7)),
                        ("layout", obj(vec![("active_tag", n(3))])),
                        ("windows", Json::Array(vec![])),
                    ]),
                ),
            ]),
        ),
    ]);
    let state = client.eww_state_once(&reply).unwrap();
    assert_eq!(state.active_tag, Some(3));
    assert_eq!(state.triad_state_version, Some(7));
    let bad = obj(vec![("ok", Json::Bool(false)), ("error", s("no"))]);
    assert!(client.eww_state_once(&bad).is_err());
}

#[test]
fn eww_stream_emits_after_state_events_only() {
    let client = Client::connect(b"/tmp/none.sock");
    let mut session = ListenSession::new();
    let ack = obj(vec![("ok", Json::Bool(true)), ("triad", obj(vec![("type", s("ack"))]))]);
    assert!(session.on_line(&ack).is_none());
    let layout_first = obj(vec![(
        "triad",
        obj(vec![("event", s("layout-state-changed")), ("state", obj(vec![("active_tag", n(2))]))]),
    )]);
    assert!(session.on_line(&layout_first).is_none());
    let state = obj(vec![(
        "triad",
        obj(vec![
            ("event", s("state-changed")),
            ("state", obj(vec![("version", n(4)), ("layout", obj(vec![("active_tag", n(1))]))])),
        ]),
    )]);
    let emitted = session.on_line(&state).unwrap();
    let projected = client.eww_stream(&emitted).unwrap();
    assert!(projected.connected);
    assert_eq!(projected.active_tag, Some(1));
    assert_eq!(projected.triad_state_version, Some(4));
    let emitted = session.on_line(&layout_first).unwrap();
    assert_eq!(client.eww_stream(&emitted).unwrap().active_tag, Some(2));
}

#[test]
fn eww_stream_reads_the_disconnected_state_back() {
    let client = Client::connect(b"/tmp/none.sock");
    let value = ipc::listen_retry(true, Error::StreamDisconnected).unwrap();
    let projected = client.eww_stream(&value).unwrap();
    assert!(!projected.connected);
    assert_eq!(projected.schema, "eww-triad.v1");
    assert_eq!(projected.workspaces, Json::Array(vec![]));
    assert_eq!(projected.overview, Json::Object(vec![]));
    assert_eq!(projected.triad_state_version, None);
    let broken = obj(vec![("connected", Json::Bool(false)), ("schema", s("eww-triad.v1"))]);
    assert!(matches!(
        client.eww_stream(&broken),
        Err(Error::Json(message)) if message == "missing or invalid field `capabilities`"
    ));
    assert!(matches!(
        ipc::listen_retry(false, Error::StreamDisconnected),
        Err(Error::StreamDisconnected)
    ));
}

#[test]
fn async_eww_state_once_projects_a_state_reply() {
    let client = AsyncClient::connect(b"/tmp/none.sock");
    let reply = obj(vec![
        ("ok", Json::Bool(true)),
        ("triad", obj(vec![("type", s("state")), ("state", obj(vec![("version", n(9))]))])),
    ]);
    let state = client.eww_state_once(&reply).unwrap();
    assert_eq!(state.triad_state_version, Some(9));
    assert!(state.connected);
    let wrong = obj(vec![("ok", Json::Bool(true)), ("triad", obj(vec![("type", s("windows"))]))]);
    assert!(matches!(
        client.eww_state_once(&wrong),
        Err(Error::UnexpectedReply { expected, actual }) if expected == "state" && actual == "windows"
    ));
}

#[test]
fn async_eww_stream_skips_acks_and_fails_on_error_replies() {
    let client = AsyncClient::connect(b"/tmp/none.sock");
    let mut state = TriadState::new();
    let ack = obj(vec![("ok", Json::Bool(true)), ("triad", obj(vec![("type", s("ack"))]))]);
    assert!(client.eww_stream(&mut state, &ack).unwrap().is_none());
    assert!(state.current().is_none());
    let failed = obj(vec![("ok", Json::Bool(false)), ("error", s("bad stream"))]);
    assert!(matches!(
        client.eww_stream(&mut state, &failed),
        Err(Error::Triad(message)) if message == "bad stream"
    ));
    let event = obj(vec![(
        "triad",
        obj(vec![("event", s("state-changed")), ("state", obj(vec![("version", n(5))]))]),
    )]);
    let projected = client.eww_stream(&mut state, &event).unwrap().unwrap();
    assert_eq!(projected.triad_state_version, Some(5));
    let other = obj(vec![("triad", obj(vec![("event", s("output-changed"))]))]);
    assert!(client.eww_stream(&mut state, &other).unwrap().is_none());
    assert_eq!(state.current().unwrap().get("version"), Some(&n(5)));
}

#[test]
fn triad_state_default_is_empty_and_clone_keeps_the_cache() {
    let empty = TriadState::default();
    assert!(empty.current().is_none());
    let mut state = TriadState::new();
    state.replace(obj(vec![("version", n(3))]));
    let copy = state.clone();
    assert_eq!(copy.current(), Some(&obj(vec![("version", n(3))])));
}

#[test]
fn native_name_tables_follow_the_enums() {
    assert_eq!(NATIVE_QUERY_REQUESTS.len(), QueryRequest::ALL.len());
    for (name, request) in NATIVE_QUERY_REQUESTS.iter().zip(QueryRequest::ALL.iter()) {
        assert_eq!(*name, request.as_str());
    }
    assert_eq!(NATIVE_EVENT_NAMES.len(), EventFilter::ALL.len());
    for (name, filter) in NATIVE_EVENT_NAMES.iter().zip(EventFilter::ALL.iter()) {
        assert_eq!(*name, filter.as_str());
    }
}

#[test]
fn eww_state_once_reports_the_reply_errors() {
    let client = Client::connect(b"/tmp/none.sock");
    let failed = obj(vec![("ok", Json::Bool(false)), ("error", s("no"))]);
    assert!(matches!(client.eww_state_once(&failed), Err(Error::Triad(m)) if m == "no"));
    let wrong = obj(vec![("ok", Json::Bool(true)), ("triad", obj(vec![("type", s("windows"))]))]);
    assert!(matches!(
        client.eww_state_once(&wrong),
        Err(Error::UnexpectedReply { expected, actual }) if expected == "state" && actual == "windows"
    ));
    let empty = obj(vec![("ok", Json::Bool(true)), ("triad", obj(vec![("type", s("state"))]))]);
    assert!(matches!(
        client.eww_state_once(&empty),
        Err(Error::Triad(m)) if m == "state reply did not include state"
    ));
    let async_client = AsyncClient::connect(b"/tmp/none.sock");
    assert!(matches!(async_client.eww_state_once(&failed), Err(Error::Triad(m)) if m == "no"));
}

#[test]
fn async_eww_stream_retry_emits_the_disconnected_projection() {
    let projected = ipc::eww_stream_retry(true, Error::StreamDisconnected).unwrap();
    assert!(!projected.connected);
    assert_eq!(projected.windows, Json::Array(vec![]));
    assert!(matches!(
        ipc::eww_stream_retry(true, Error::Triad("bad".to_string())),
        Err(Error::Triad(m)) if m == "bad"
    ));
    assert!(matches!(
        ipc::eww_stream_retry(false, Error::StreamDisconnected),
        Err(Error::StreamDisconnected)
    ));
}
