//! Triad's native IPC requests, replies and events.
use vstd::prelude::*;

use crate::client::{BindingKind, EventFilter, QueryRequest};
use crate::error::{Error, Result};
use crate::json::{
    keys_distinct, lemma_member_get_at, lemma_member_get_absent, items_view, lemma_array_view, lemma_member_insert_get, member_get, lemma_object_view, member_insert, members_insert, members_view,
    opt_as_bool, opt_as_str, opt_get, json_text, to_json_text, members_wf, lemma_get_wf, lemma_member_insert_wf, lemma_members_push_wf, lemma_object_wf, Json, JsonV, Member,
};
use crate::text::{concat_str, str_eq};

verus! {

/// The version of Triad's native IPC that this library speaks.
pub const TRIAD_IPC_VERSION: u64 = 1;

/// The names of Triad's native read requests.
pub const NATIVE_QUERY_REQUESTS: [&'static str; 10] = [
    "state",
    "capabilities",
    "workspaces",
    "outputs",
    "windows",
    "focused-window",
    "overview-state",
    "keyboard-layouts",
    "layout-state",
    "commands",
];

/// The names of Triad's native event filters.
pub const NATIVE_EVENT_NAMES: [&'static str; 3] = ["state", "layout", "window"];

/// `{"triad": payload}`: every request and reply travels in this envelope.
pub open spec fn envelope(payload: Seq<(Seq<char>, JsonV)>) -> JsonV {
    JsonV::Object(seq![("triad"@, JsonV::Object(payload))])
}

/// The members that open every request.
pub open spec fn request_head(name: Seq<char>) -> Seq<(Seq<char>, JsonV)> {
    seq![("version"@, JsonV::Int(TRIAD_IPC_VERSION as int)), ("request"@, JsonV::Str(name))]
}

/// The plain request named `name`.
pub open spec fn request_v(name: Seq<char>) -> JsonV {
    envelope(request_head(name))
}

/// `name` is one of Triad's native read requests.
pub open spec fn is_native_query(name: Seq<char>) -> bool {
    QueryRequest::from_name(name) is Some
}

/// `name` is one of Triad's native event filters.
pub open spec fn is_native_event(name: Seq<char>) -> bool {
    EventFilter::from_name(name) is Some
}

/// The native event filters, in order.
pub open spec fn native_event_names() -> Seq<Seq<char>> {
    seq!["state"@, "layout"@, "window"@]
}

/// `i` is the first position of a name that is not a native event filter.
pub open spec fn is_first_unsupported_event(events: Seq<Seq<char>>, i: int) -> bool {
    &&& 0 <= i < events.len()
    &&& !is_native_event(events[i])
    &&& forall|j: int| 0 <= j < i ==> is_native_event(events[j])
}

/// The models of a slice of names.
pub open spec fn names_view(events: Seq<&str>) -> Seq<Seq<char>> {
    events.map_values(|e: &str| e@)
}

/// The typed requests are exactly the native reads: the name of every
/// `QueryRequest` is accepted by `query_request`, and every name it accepts
/// is the name of one; likewise for event filters and the event-stream request.
pub proof fn lemma_typed_names_are_native(name: Seq<char>)
    ensures
        forall|q: QueryRequest| is_native_query(#[trigger] q.name()),
        is_native_query(name) <==> exists|q: QueryRequest| #[trigger] q.name() == name,
        forall|f: EventFilter| is_native_event(#[trigger] f.name()),
        is_native_event(name) <==> exists|f: EventFilter| #[trigger] f.name() == name,
{
    crate::client::lemma_query_names_distinct();
    crate::client::lemma_event_filter_names_distinct();
    if is_native_query(name) {
        assert(QueryRequest::from_name(name)->0.name() == name);
    }
    if is_native_event(name) {
        assert(EventFilter::from_name(name)->0.name() == name);
    }
}

/// The event-stream request for the given filters.
pub open spec fn event_stream_request_v(events: Seq<Seq<char>>) -> JsonV {
    envelope(
        request_head("event-stream"@).push(
            ("events"@, JsonV::Array(events.map_values(|e: Seq<char>| JsonV::Str(e)))),
        ),
    )
}

/// The members of an action request: the payload's own members, then the
/// version, the request name and the action name, each of which replaces a
/// payload member of the same name in place.
pub open spec fn action_members(m: Seq<(Seq<char>, JsonV)>, action: Seq<char>) -> Seq<
    (Seq<char>, JsonV),
> {
    member_insert(
        member_insert(
            member_insert(m, "version"@, JsonV::Int(TRIAD_IPC_VERSION as int)),
            "request"@,
            JsonV::Str("action"@),
        ),
        "action"@,
        JsonV::Str(action),
    )
}

/// An action request carries the version, the request name `action` and the
/// action's name, whatever the payload held under those names; every other
/// payload member is passed on unchanged.
pub proof fn lemma_action_members(m: Seq<(Seq<char>, JsonV)>, action: Seq<char>, key: Seq<char>)
    ensures
        member_get(action_members(m, action), "version"@) == Some(JsonV::Int(TRIAD_IPC_VERSION as int)),
        member_get(action_members(m, action), "request"@) == Some(JsonV::Str("action"@)),
        member_get(action_members(m, action), "action"@) == Some(JsonV::Str(action)),
        key != "version"@ && key != "request"@ && key != "action"@ ==> member_get(
            action_members(m, action),
            key,
        ) == member_get(m, key),
{
    reveal_strlit("version");
    reveal_strlit("request");
    reveal_strlit("action");
    assert("version"@ != "request"@) by {
        assert("version"@[0] != "request"@[0]);
    }
    assert("version"@ != "action"@) by {
        assert("version"@[0] != "action"@[0]);
    }
    assert("request"@ != "action"@) by {
        assert("request"@[0] != "action"@[0]);
    }
    let v = JsonV::Int(TRIAD_IPC_VERSION as int);
    let m1 = member_insert(m, "version"@, v);
    let m2 = member_insert(m1, "request"@, JsonV::Str("action"@));
    lemma_member_insert_get(m, "version"@, v, "version"@);
    lemma_member_insert_get(m1, "request"@, JsonV::Str("action"@), "version"@);
    lemma_member_insert_get(m2, "action"@, JsonV::Str(action), "version"@);
    lemma_member_insert_get(m1, "request"@, JsonV::Str("action"@), "request"@);
    lemma_member_insert_get(m2, "action"@, JsonV::Str(action), "request"@);
    lemma_member_insert_get(m2, "action"@, JsonV::Str(action), "action"@);
    lemma_member_insert_get(m, "version"@, v, key);
    lemma_member_insert_get(m1, "request"@, JsonV::Str("action"@), key);
    lemma_member_insert_get(m2, "action"@, JsonV::Str(action), key);
}

/// The set-layout request: a tag target is preferred to a workspace target.
pub open spec fn set_layout_request_v(layout: Seq<char>, tag: Option<u64>, workspace_idx: Option<u64>) -> JsonV {
    let head = request_head("set-layout"@).push(("layout"@, JsonV::Str(layout)));
    envelope(
        match tag {
            Some(t) => head.push(("target"@, JsonV::Object(seq![("tag"@, JsonV::Int(t as int))]))),
            None => match workspace_idx {
                Some(w) => head.push(
                    ("target"@, JsonV::Object(seq![("workspace_idx"@, JsonV::Int(w as int))])),
                ),
                None => head,
            },
        },
    )
}

/// A key or pointer binding takes no value; a gesture binding needs one.
pub open spec fn binding_value_ok(kind: BindingKind, value: Option<i64>) -> bool {
    match kind {
        BindingKind::Key | BindingKind::Pointer => value is None,
        BindingKind::Axis => true,
        BindingKind::Gesture => value is Some,
    }
}

/// How a binding value that `binding_value_ok` refuses is reported.
pub open spec fn binding_value_message(kind: BindingKind) -> Seq<char> {
    match kind {
        BindingKind::Gesture => "gesture bindings require a finger count"@,
        _ => kind.name() + " bindings do not take a value"@,
    }
}

/// The dispatch-binding request: an axis binding carries `ticks` (1 when no
/// value is given), a gesture binding carries `fingers`.
pub open spec fn dispatch_binding_request_v(kind: BindingKind, binding: Seq<char>, value: Option<i64>) -> JsonV {
    let head = request_head("dispatch-binding"@).push(("kind"@, JsonV::Str(kind.name()))).push(
        ("binding"@, JsonV::Str(binding)),
    );
    envelope(
        match kind {
            BindingKind::Axis => head.push(
                (
                    "ticks"@,
                    JsonV::Int(
                        match value {
                            Some(v) => v as int,
                            None => 1,
                        },
                    ),
                ),
            ),
            BindingKind::Gesture => head.push(("fingers"@, JsonV::Int(value->0 as int))),
            _ => head,
        },
    )
}

/// The reply reports a failure: its `ok` member is `false`.
pub open spec fn reply_failed(reply: JsonV) -> bool {
    opt_as_bool(reply.get("ok"@)) == Some(false)
}

/// The text of a failed reply's `error` member, or a stand-in.
pub open spec fn reply_error_text(reply: JsonV) -> Seq<char> {
    match opt_as_str(reply.get("error"@)) {
        Some(s) => s,
        None => "unknown triad error"@,
    }
}

/// The reply's type, or `<missing>`.
pub open spec fn reply_type_or_missing(triad: JsonV) -> Seq<char> {
    match opt_as_str(triad.get("type"@)) {
        Some(s) => s,
        None => "<missing>"@,
    }
}

/// `reply_ok` on a reply: the envelope's contents, or the text of the error.
pub open spec fn reply_ok_v(reply: JsonV) -> std::result::Result<JsonV, Seq<char>> {
    if reply_failed(reply) {
        Err(reply_error_text(reply))
    } else {
        match reply.get("triad"@) {
            Some(t) => Ok(t),
            None => Err("missing triad reply envelope"@),
        }
    }
}

/// The member names that share an object in some request differ.
proof fn lemma_request_names_distinct()
    ensures
        "version"@ != "request"@,
        "version"@ != "events"@,
        "request"@ != "events"@,
        "version"@ != "layout"@,
        "request"@ != "layout"@,
        "version"@ != "target"@,
        "request"@ != "target"@,
        "layout"@ != "target"@,
        "version"@ != "kind"@,
        "request"@ != "kind"@,
        "version"@ != "binding"@,
        "request"@ != "binding"@,
        "kind"@ != "binding"@,
        "version"@ != "ticks"@,
        "request"@ != "ticks"@,
        "kind"@ != "ticks"@,
        "binding"@ != "ticks"@,
        "version"@ != "fingers"@,
        "request"@ != "fingers"@,
        "kind"@ != "fingers"@,
        "binding"@ != "fingers"@,
{
    reveal_strlit("version");
    reveal_strlit("request");
    reveal_strlit("events");
    reveal_strlit("layout");
    reveal_strlit("target");
    reveal_strlit("kind");
    reveal_strlit("binding");
    reveal_strlit("ticks");
    reveal_strlit("fingers");
    assert("version"@[0] == 'v');
    assert("request"@[0] == 'r');
    assert("events"@[0] == 'e');
    assert("layout"@[0] == 'l');
    assert("target"@[0] == 't');
    assert("kind"@[0] == 'k');
    assert("binding"@[0] == 'b');
    assert("ticks"@[0] == 't');
    assert("fingers"@[0] == 'f');
}

/// A set-layout request names the layout, and its target follows the
/// arguments: whenever a tag is given the target is that tag, whatever the
/// workspace; with no tag a given workspace is the target; with neither there
/// is no target (Triad then changes the active workspace).
pub proof fn lemma_set_layout_target(layout: Seq<char>, tag: Option<u64>, workspace_idx: Option<u64>)
    ensures
        ({
            let t = set_layout_request_v(layout, tag, workspace_idx).get("triad"@);
            &&& opt_get(t, "version"@) == Some(JsonV::Int(TRIAD_IPC_VERSION as int))
            &&& opt_get(t, "request"@) == Some(JsonV::Str("set-layout"@))
            &&& opt_get(t, "layout"@) == Some(JsonV::Str(layout))
            &&& (tag matches Some(g) ==> opt_get(t, "target"@) == Some(
                JsonV::Object(seq![("tag"@, JsonV::Int(g as int))]),
            ))
            &&& (tag is None && workspace_idx is Some ==> opt_get(t, "target"@) == Some(
                JsonV::Object(seq![("workspace_idx"@, JsonV::Int(workspace_idx->0 as int))]),
            ))
            &&& (tag is None && workspace_idx is None ==> opt_get(t, "target"@) is None)
        }),
{
    lemma_request_names_distinct();
    let head = request_head("set-layout"@).push(("layout"@, JsonV::Str(layout)));
    let p = match tag {
        Some(g) => head.push(("target"@, JsonV::Object(seq![("tag"@, JsonV::Int(g as int))]))),
        None => match workspace_idx {
            Some(w) => head.push(("target"@, JsonV::Object(seq![("workspace_idx"@, JsonV::Int(w as int))]))),
            None => head,
        },
    };
    let outer = seq![("triad"@, JsonV::Object(p))];
    assert(keys_distinct(outer));
    lemma_member_get_at(outer, 0);
    assert(set_layout_request_v(layout, tag, workspace_idx).get("triad"@) == Some(JsonV::Object(p)));
    assert(keys_distinct(p));
    lemma_member_get_at(p, 0);
    lemma_member_get_at(p, 1);
    lemma_member_get_at(p, 2);
    if p.len() == 4 {
        lemma_member_get_at(p, 3);
    } else {
        lemma_member_get_at(p, 2);
        lemma_member_get_absent(p, "target"@);
    }
}

/// Which binding dispatches are accepted, and what the request carries: an
/// axis binding always (with `ticks`, 1 when no value is given), a gesture
/// binding only with a value (as `fingers`), a key or pointer binding only
/// without one (and then with neither `ticks` nor `fingers`); every accepted
/// request names the kind and the binding.
pub proof fn lemma_dispatch_binding_shape(kind: BindingKind, binding: Seq<char>, value: Option<i64>)
    ensures
        binding_value_ok(kind, value) <==> (kind is Axis || (kind is Gesture && value is Some) || ((
        kind is Key || kind is Pointer) && value is None)),
        ({
            let t = dispatch_binding_request_v(kind, binding, value).get("triad"@);
            &&& opt_get(t, "request"@) == Some(JsonV::Str("dispatch-binding"@))
            &&& opt_get(t, "kind"@) == Some(JsonV::Str(kind.name()))
            &&& opt_get(t, "binding"@) == Some(JsonV::Str(binding))
            &&& (kind is Axis && value is Some ==> opt_get(t, "ticks"@) == Some(JsonV::Int(value->0 as int)))
            &&& (kind is Axis && value is None ==> opt_get(t, "ticks"@) == Some(JsonV::Int(1)))
            &&& (kind is Axis ==> opt_get(t, "fingers"@) is None)
            &&& (kind is Gesture && value is Some ==> opt_get(t, "fingers"@) == Some(
                JsonV::Int(value->0 as int),
            ))
            &&& (kind is Gesture ==> opt_get(t, "ticks"@) is None)
            &&& ((kind is Key || kind is Pointer) ==> opt_get(t, "ticks"@) is None && opt_get(t, "fingers"@)
                is None)
        }),
{
    lemma_request_names_distinct();
    let head = request_head("dispatch-binding"@).push(("kind"@, JsonV::Str(kind.name()))).push(
        ("binding"@, JsonV::Str(binding)),
    );
    let p = match kind {
        BindingKind::Axis => head.push(
            ("ticks"@, JsonV::Int(match value { Some(v) => v as int, None => 1 })),
        ),
        BindingKind::Gesture => head.push(("fingers"@, JsonV::Int(value->0 as int))),
        _ => head,
    };
    let outer = seq![("triad"@, JsonV::Object(p))];
    assert(keys_distinct(outer));
    lemma_member_get_at(outer, 0);
    assert(dispatch_binding_request_v(kind, binding, value).get("triad"@) == Some(JsonV::Object(p)));
    assert(keys_distinct(p));
    lemma_member_get_at(p, 1);
    lemma_member_get_at(p, 2);
    lemma_member_get_at(p, 3);
    if p.len() == 5 {
        lemma_member_get_at(p, 4);
    }
    reveal_strlit("ticks");
    reveal_strlit("fingers");
    assert("ticks"@ != "fingers"@) by {
        assert("ticks"@[0] != "fingers"@[0]);
    }
    if !(kind is Axis) {
        assert forall|i: int| 0 <= i < p.len() implies p[i].0 != "ticks"@ by {}
        lemma_member_get_absent(p, "ticks"@);
    }
    if !(kind is Gesture) {
        assert forall|i: int| 0 <= i < p.len() implies p[i].0 != "fingers"@ by {}
        lemma_member_get_absent(p, "fingers"@);
    }
}

/// The envelope of well-formed members is well formed.
proof fn lemma_envelope_wf(payload: Seq<(Seq<char>, JsonV)>)
    requires
        members_wf(payload),
    ensures
        envelope(payload).wf(),
{
    lemma_object_wf(payload);
    let m = seq![("triad"@, JsonV::Object(payload))];
    lemma_members_push_wf(Seq::empty(), "triad"@, JsonV::Object(payload));
    assert(Seq::<(Seq<char>, JsonV)>::empty().push(("triad"@, JsonV::Object(payload))) =~= m);
    lemma_object_wf(m);
}

/// An array of strings is well formed.
proof fn lemma_str_array_wf(names: Seq<Seq<char>>)
    ensures
        JsonV::Array(names.map_values(|e: Seq<char>| JsonV::Str(e))).wf(),
{
    let a = names.map_values(|e: Seq<char>| JsonV::Str(e));
    assert forall|i: int| 0 <= i < a.len() implies (#[trigger] a[i]).wf() by {
        assert(a[i] == JsonV::Str(names[i]));
    }
}

/// Wraps the members in the `triad` envelope.
fn wrap(payload: Vec<Member>) -> (r: Json)
    ensures
        r@ == envelope(members_view(payload@)),
        members_wf(members_view(payload@)) ==> r@.wf(),
{
    proof {
        if members_wf(members_view(payload@)) {
            lemma_envelope_wf(members_view(payload@));
        }
    }
    let inner = Json::Object(payload);
    proof {
        lemma_object_view(payload);
    }
    let mut outer: Vec<Member> = Vec::new();
    outer.push(Member::new("triad", inner));
    proof {
        lemma_object_view(outer);
        assert(members_view(outer@) =~= seq![("triad"@, inner@)]);
    }
    Json::Object(outer)
}

/// The members that open every request.
fn head(name: &str) -> (r: Vec<Member>)
    ensures
        members_view(r@) == request_head(name@),
        members_wf(members_view(r@)),
{
    proof {
        lemma_request_names_distinct();
        let e = Seq::<(Seq<char>, JsonV)>::empty();
        lemma_members_push_wf(e, "version"@, JsonV::Int(TRIAD_IPC_VERSION as int));
        lemma_members_push_wf(
            e.push(("version"@, JsonV::Int(TRIAD_IPC_VERSION as int))),
            "request"@,
            JsonV::Str(name@),
        );
        assert(e.push(("version"@, JsonV::Int(TRIAD_IPC_VERSION as int))).push(("request"@, JsonV::Str(name@)))
            =~= request_head(name@));
    }
    let mut m: Vec<Member> = Vec::new();
    m.push(Member::new("version", Json::from_u64(TRIAD_IPC_VERSION)));
    m.push(Member::new("request", Json::from_str(name)));
    assert(members_view(m@) =~= request_head(name@));
    m
}

/// Adds a member at the end.
fn push_member(m: &mut Vec<Member>, key: &str, value: Json)
    ensures
        members_view(final(m)@) == members_view(old(m)@).push((key@, value@)),
        members_wf(members_view(old(m)@)) && value@.wf() && (forall|i: int|
            0 <= i < old(m)@.len() ==> members_view(old(m)@)[i].0 != key@) ==> members_wf(
            members_view(final(m)@),
        ),
{
    proof {
        if members_wf(members_view(old(m)@)) && value@.wf() && (forall|i: int|
            0 <= i < old(m)@.len() ==> members_view(old(m)@)[i].0 != key@) {
            lemma_members_push_wf(members_view(old(m)@), key@, value@);
        }
    }
    let ghost v = value@;
    m.push(Member::new(key, value));
    assert(members_view(m@) =~= members_view(old(m)@).push((key@, v)));
}

/// The plain request named `name`.
pub fn request(name: &str) -> (r: Json)
    ensures
        r@ == request_v(name@),
        r@.wf(),
{
    proof {
        lemma_request_names_distinct();
    }
    wrap(head(name))
}

/// The event-stream request for every native event filter.
pub fn event_stream_request() -> (r: Json)
    ensures
        r@ == event_stream_request_v(native_event_names()),
        r@.wf(),
{
    proof {
        lemma_request_names_distinct();
    }
    let mut m = head("event-stream");
    let mut events: Vec<Json> = Vec::new();
    events.push(Json::from_str("state"));
    events.push(Json::from_str("layout"));
    events.push(Json::from_str("window"));
    let ghost ev = items_view(events@);
    let arr = Json::Array(events);
    proof {
        lemma_array_view(events);
        assert(ev =~= native_event_names().map_values(|e: Seq<char>| JsonV::Str(e)));
    }
    proof {
        lemma_str_array_wf(native_event_names());
    }
    push_member(&mut m, "events", arr);
    wrap(m)
}

/// Checks that every name is a native event filter; the error names the
/// first one that is not.
pub fn validate_event_names(events: &[&str]) -> (r: Result<()>)
    ensures
        match r {
            Ok(()) => forall|i: int| 0 <= i < events@.len() ==> is_native_event(#[trigger] names_view(events@)[i]),
            Err(e) => exists|i: int| #[trigger]
                is_first_unsupported_event(names_view(events@), i) && (e matches Error::UnsupportedEvent(s)
                    && s@ == names_view(events@)[i]),
        },
{
    let ghost evs = names_view(events@);
    let mut i: usize = 0;
    while i < events.len()
        invariant
            i <= events@.len(),
            evs == names_view(events@),
            forall|j: int| 0 <= j < i ==> is_native_event(#[trigger] evs[j]),
        decreases events.len() - i,
    {
        match EventFilter::parse(events[i]) {
            Ok(_) => {},
            Err(e) => {
                assert(is_first_unsupported_event(evs, i as int));
                return Err(e);
            },
        }
        i += 1;
    }
    Ok(())
}

/// The event-stream request for the given filters, which must be native.
pub fn event_stream_request_for(events: &[&str]) -> (r: Result<Json>)
    ensures
        match r {
            Ok(v) => (forall|i: int| 0 <= i < events@.len() ==> is_native_event(#[trigger] names_view(events@)[i]))
                && v@ == event_stream_request_v(names_view(events@)) && v@.wf(),
            Err(e) => exists|i: int| #[trigger]
                is_first_unsupported_event(names_view(events@), i) && (e matches Error::UnsupportedEvent(s)
                    && s@ == names_view(events@)[i]),
        },
{
    validate_event_names(events)?;
    proof {
        lemma_request_names_distinct();
    }
    let mut m = head("event-stream");
    let mut list: Vec<Json> = Vec::new();
    let mut i: usize = 0;
    while i < events.len()
        invariant
            i <= events@.len(),
            list@.len() == i,
            forall|j: int| 0 <= j < i ==> #[trigger] list@[j]@ == JsonV::Str(events@[j]@),
        decreases events.len() - i,
    {
        list.push(Json::from_str(events[i]));
        i += 1;
    }
    let ghost lv = items_view(list@);
    let arr = Json::Array(list);
    proof {
        lemma_array_view(list);
        assert(lv =~= names_view(events@).map_values(|e: Seq<char>| JsonV::Str(e)));
    }
    proof {
        lemma_str_array_wf(names_view(events@));
    }
    push_member(&mut m, "events", arr);
    Ok(wrap(m))
}

/// The read request named `name`, which must be one of Triad's native reads.
pub fn query_request(name: &str) -> (r: Result<Json>)
    ensures
        match r {
            Ok(v) => is_native_query(name@) && v@ == request_v(name@) && v@.wf(),
            Err(e) => !is_native_query(name@) && (e matches Error::UnsupportedRequest(s) && s@ == name@),
        },
{
    match QueryRequest::parse(name) {
        Ok(_) => Ok(request(name)),
        Err(e) => Err(e),
    }
}

/// The action request: the payload's members with the version, the request
/// name and the action name set. The payload must be a JSON object; any other
/// payload is refused with its JSON text.
pub fn action_request(action: &str, payload: Json) -> (r: Result<Json>)
    ensures
        match payload@ {
            JsonV::Object(m) => r matches Ok(v) && v@ == envelope(action_members(m, action@)) && (
            payload@.wf() ==> v@.wf()),
            _ => r matches Err(e) && e matches Error::InvalidActionPayload(s) && s@ == json_text(
                payload@,
            ),
        },
{
    match payload {
        Json::Object(mut members) => {
            proof {
                lemma_object_view(members);
            }
            let ghost m0 = members_view(members@);
            members_insert(&mut members, "version", Json::from_u64(TRIAD_IPC_VERSION));
            let ghost m1 = members_view(members@);
            members_insert(&mut members, "request", Json::from_str("action"));
            let ghost m2 = members_view(members@);
            members_insert(&mut members, "action", Json::from_str(action));
            proof {
                if payload@.wf() {
                    lemma_member_insert_wf(m0, "version"@, JsonV::Int(TRIAD_IPC_VERSION as int));
                    lemma_member_insert_wf(m1, "request"@, JsonV::Str("action"@));
                    lemma_member_insert_wf(m2, "action"@, JsonV::Str(action@));
                }
            }
            Ok(wrap(members))
        },
        other => Err(Error::InvalidActionPayload(to_json_text(&other))),
    }
}

/// `{"tag": t}` or `{"workspace_idx": w}`.
fn single(key: &str, n: u64) -> (r: Json)
    ensures
        r@ == JsonV::Object(seq![(key@, JsonV::Int(n as int))]),
        r@.wf(),
{
    let mut m: Vec<Member> = Vec::new();
    push_member(&mut m, key, Json::from_u64(n));
    proof {
        lemma_object_view(m);
        assert(members_view(m@) =~= seq![(key@, JsonV::Int(n as int))]);
        lemma_object_wf(members_view(m@));
    }
    Json::Object(m)
}

/// The set-layout request for the active workspace, a tag, or a workspace.
pub fn set_layout_request(layout: &str, tag: Option<u64>, workspace_idx: Option<u64>) -> (r: Json)
    ensures
        r@ == set_layout_request_v(layout@, tag, workspace_idx),
        r@.wf(),
{
    proof {
        lemma_request_names_distinct();
    }
    let mut m = head("set-layout");
    push_member(&mut m, "layout", Json::from_str(layout));
    match tag {
        Some(t) => push_member(&mut m, "target", single("tag", t)),
        None => match workspace_idx {
            Some(w) => push_member(&mut m, "target", single("workspace_idx", w)),
            None => {},
        },
    }
    wrap(m)
}

/// The dispatch-binding request for a configured binding.
pub fn dispatch_binding_request(kind: &str, binding: &str, value: Option<i64>) -> (r: Result<Json>)
    ensures
        match BindingKind::from_name(kind@) {
            None => r matches Err(e) && e matches Error::InvalidDispatchBinding(s) && s@
                == "unsupported binding kind: "@ + kind@,
            Some(k) => if binding_value_ok(k, value) {
                r matches Ok(v) && v@ == dispatch_binding_request_v(k, binding@, value) && v@.wf()
            } else {
                r matches Err(e) && e matches Error::InvalidDispatchBinding(s) && s@
                    == binding_value_message(k)
            },
        },
{
    let k = BindingKind::parse(kind)?;
    proof {
        lemma_request_names_distinct();
    }
    let mut m = head("dispatch-binding");
    push_member(&mut m, "kind", Json::from_str(k.as_str()));
    push_member(&mut m, "binding", Json::from_str(binding));
    match k {
        BindingKind::Key | BindingKind::Pointer => {
            if value.is_some() {
                return Err(
                    Error::InvalidDispatchBinding(
                        concat_str(k.as_str(), " bindings do not take a value"),
                    ),
                );
            }
        },
        BindingKind::Axis => {
            let ticks = match value {
                Some(v) => v,
                None => 1,
            };
            push_member(&mut m, "ticks", Json::from_i64(ticks));
        },
        BindingKind::Gesture => {
            match value {
                Some(v) => push_member(&mut m, "fingers", Json::from_i64(v)),
                None => {
                    return Err(
                        Error::InvalidDispatchBinding(
                            String::from_str("gesture bindings require a finger count"),
                        ),
                    );
                },
            }
        },
    }
    Ok(wrap(m))
}

/// The contents of a reply's envelope, unless the reply reports a failure or
/// has no envelope.
pub fn reply_ok(value: &Json) -> (r: Result<&Json>)
    ensures
        match reply_ok_v(value@) {
            Ok(t) => r matches Ok(x) && x@ == t,
            Err(m) => r matches Err(e) && e matches Error::Triad(s) && s@ == m,
        },
        value@.wf() ==> (r matches Ok(x) ==> x@.wf()),
{
    proof {
        if value@.wf() {
            lemma_get_wf(value@, "triad"@);
        }
    }
    let failed = match value.get("ok") {
        Some(ok) => match ok.as_bool() {
            Some(b) => !b,
            None => false,
        },
        None => false,
    };
    if failed {
        let message = match value.get("error") {
            Some(e) => match e.as_str() {
                Some(s) => String::from_str(s),
                None => String::from_str("unknown triad error"),
            },
            None => String::from_str("unknown triad error"),
        };
        return Err(Error::Triad(message));
    }
    match value.get("triad") {
        Some(t) => Ok(t),
        None => Err(Error::Triad(String::from_str("missing triad reply envelope"))),
    }
}

/// The `type` member of a reply's envelope contents.
pub fn reply_type(reply: &Json) -> (r: Option<&str>)
    ensures
        match r {
            Some(s) => opt_as_str(reply@.get("type"@)) == Some(s@),
            None => opt_as_str(reply@.get("type"@)) is None,
        },
{
    match reply.get("type") {
        Some(t) => t.as_str(),
        None => None,
    }
}

/// Checks that the reply's type is `expected`.
fn check_type(triad: &Json, expected: &str) -> (r: Result<()>)
    ensures
        match r {
            Ok(()) => reply_type_or_missing(triad@) == expected@,
            Err(e) => reply_type_or_missing(triad@) != expected@ && (e matches Error::UnexpectedReply {
                expected: x,
                actual: a,
            } && x@ == expected@ && a@ == reply_type_or_missing(triad@)),
        },
{
    let actual = match reply_type(triad) {
        Some(t) => t,
        None => "<missing>",
    };
    if str_eq(actual, expected) {
        Ok(())
    } else {
        Err(
            Error::UnexpectedReply {
                expected: String::from_str(expected),
                actual: String::from_str(actual),
            },
        )
    }
}

/// The state carried by a `state` reply.
pub fn state_from_reply(value: &Json) -> (r: Result<Json>)
    ensures
        match reply_ok_v(value@) {
            Err(m) => r matches Err(e) && e matches Error::Triad(s) && s@ == m,
            Ok(t) => if reply_type_or_missing(t) != "state"@ {
                r matches Err(e) && e matches Error::UnexpectedReply { expected: x, actual: a }
                    && x@ == "state"@ && a@ == reply_type_or_missing(t)
            } else {
                match t.get("state"@) {
                    Some(st) => r matches Ok(v) && v@ == st,
                    None => r matches Err(e) && e matches Error::Triad(s) && s@
                        == "state reply did not include state"@,
                }
            },
        },
        value@.wf() ==> (r matches Ok(v) ==> v@.wf()),
{
    let triad = reply_ok(value)?;
    check_type(triad, "state")?;
    proof {
        if value@.wf() {
            lemma_get_wf(triad@, "state"@);
        }
    }
    match triad.get("state") {
        Some(st) => Ok(st.deep_clone()),
        None => Err(Error::Triad(String::from_str("state reply did not include state"))),
    }
}

/// Checks a reply to the native read `name`: it must not report a failure,
/// and its type must be `name`.
pub fn validate_query_reply(name: &str, reply: &Json) -> (r: Result<()>)
    ensures
        !is_native_query(name@) ==> (r matches Err(e) && e matches Error::UnsupportedRequest(s) && s@
            == name@),
        is_native_query(name@) ==> match reply_ok_v(reply@) {
            Err(m) => r matches Err(e) && e matches Error::Triad(s) && s@ == m,
            Ok(t) => if reply_type_or_missing(t) == name@ {
                r is Ok
            } else {
                r matches Err(e) && e matches Error::UnexpectedReply { expected: x, actual: a }
                    && x@ == name@ && a@ == reply_type_or_missing(t)
            },
        },
{
    QueryRequest::parse(name)?;
    let triad = reply_ok(reply)?;
    check_type(triad, name)
}

/// The name of the event that a value announces.
pub fn event_name(value: &Json) -> (r: Option<&str>)
    ensures
        match r {
            Some(s) => opt_as_str(opt_get(value@.get("triad"@), "event"@)) == Some(s@),
            None => opt_as_str(opt_get(value@.get("triad"@), "event"@)) is None,
        },
{
    match value.get("triad") {
        Some(t) => match t.get("event") {
            Some(e) => e.as_str(),
            None => None,
        },
        None => None,
    }
}

/// The contents of an event's envelope.
pub fn event_payload(value: &Json) -> (r: Option<&Json>)
    ensures
        match r {
            Some(p) => value@.get("triad"@) == Some(p@),
            None => value@.get("triad"@) is None,
        },
{
    value.get("triad")
}

} // verus!
