use eww_triad::cli::{parse_action_payload, parse_request_text, trim};
use eww_triad::ipc::read_line_value;
use eww_triad::protocol::{action_request, request};
use eww_triad::{Error, Json, Member, Number};

fn obj(pairs: Vec<(&str, Json)>) -> Json {
    Json::Object(pairs.into_iter().map(|(k, v)| Member::new(k, v)).collect())
}

#[test]
fn socket_lines_are_trimmed_and_read_as_json() {
    let value = read_line_value(20, "  {\"ok\":true,\"triad\":{\"type\":\"state\"}}\n").unwrap();
    assert_eq!(
        value,
        obj(vec![("ok", Json::Bool(true)), ("triad", obj(vec![("type", Json::from_str("state"))]))])
    );
    assert_eq!(read_line_value(3, "-7\n").unwrap(), Json::from_i64(-7));
    assert_eq!(read_line_value(4, "1.5\n").unwrap(), Json::Number(Number::Float("1.5".to_string())));
    assert_eq!(
        read_line_value(12, "[1,\"a\",null]").unwrap(),
        Json::Array(vec![Json::from_u64(1), Json::from_str("a"), Json::Null])
    );
}

#[test]
fn an_empty_read_is_a_closed_stream() {
    assert!(matches!(read_line_value(0, ""), Err(Error::StreamDisconnected)));
    assert!(matches!(read_line_value(0, "{}"), Err(Error::StreamDisconnected)));
}

#[test]
fn a_line_that_is_not_json_is_a_json_error_with_serde_jsons_message() {
    match read_line_value(4, "nope\n") {
        Err(Error::Json(message)) => assert!(message.contains("line 1 column"), "{message}"),
        _ => panic!("accepted a line that is not JSON"),
    }
    match read_line_value(1, "\n") {
        Err(Error::Json(message)) => assert!(message.contains("EOF"), "{message}"),
        _ => panic!("accepted an empty line"),
    }
}

#[test]
fn printed_requests_read_back_as_themselves() {
    let value = request("state");
    let text = value.to_text();
    assert_eq!(text, "{\"triad\":{\"request\":\"state\",\"version\":1}}");
    let back = parse_request_text(&text).unwrap();
    assert_eq!(back.to_text(), text);
    assert_eq!(back.get("triad").unwrap().get("request"), Some(&Json::from_str("state")));
}

#[test]
fn the_request_argument_and_the_payload_are_read_by_serde_json() {
    assert_eq!(parse_request_text("{\"a\":[]}").unwrap(), obj(vec![("a", Json::Array(vec![]))]));
    assert!(matches!(parse_request_text("{"), Err(Error::Json(m)) if m.contains("EOF")));
    let payload = parse_action_payload("{\"workspace_idx\":2}").unwrap();
    assert_eq!(payload, obj(vec![("workspace_idx", Json::from_u64(2))]));
    assert!(matches!(
        parse_action_payload("{\"x\":"),
        Err(Error::InvalidActionPayload(m)) if m.contains("line 1")
    ));
    let payload = parse_action_payload("3").unwrap();
    assert!(matches!(action_request("close", payload), Err(Error::InvalidActionPayload(m)) if m == "3"));
}

#[test]
fn trim_drops_surrounding_whitespace_only() {
    assert_eq!(trim("  a b \n"), "a b");
    assert_eq!(trim("\t\r\n"), "");
    assert_eq!(trim("\u{3000}x\u{a0}"), "x");
    assert_eq!(trim("x"), "x");
}
