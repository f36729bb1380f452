//! The client's handle on Triad's socket and the names of its requests.
use vstd::prelude::*;

use crate::error::{Error, Result};
use crate::ipc::{opt_bytes, resolve_socket_path, skip_stream_reply, stream_skip_v};
use crate::json::{opt_as_bool, Json};
use crate::protocol::{
    native_event_names, reply_ok_v, reply_type_or_missing, set_layout_request, set_layout_request_v,
    state_from_reply,
};
use crate::state::{apply_event_v, TriadState};
use crate::text::str_eq;
use crate::view::{eww_state, eww_state_error_v, eww_state_from_json_v, eww_state_v, EwwState};

verus! {

/// One of Triad's native read requests.
#[derive(Debug, Clone, Copy, PartialEq, Eq, Structural)]
pub enum QueryRequest {
    State,
    Capabilities,
    Workspaces,
    Outputs,
    Windows,
    FocusedWindow,
    OverviewState,
    KeyboardLayouts,
    LayoutState,
    Commands,
}

/// One of Triad's native event filters.
#[derive(Debug, Clone, Copy, PartialEq, Eq, Structural)]
pub enum EventFilter {
    State,
    Layout,
    Window,
}

/// The kind of a configured Triad binding.
#[derive(Debug, Clone, Copy, PartialEq, Eq, Structural)]
pub enum BindingKind {
    Key,
    Pointer,
    Axis,
    Gesture,
}

/// The workspace whose layout `set-layout` changes.
#[derive(Debug, Clone, Copy, PartialEq, Eq, Structural)]
pub enum LayoutTarget {
    Active,
    Tag(u64),
    Workspace(u64),
}

impl QueryRequest {
    /// Every request, in the order of Triad's documentation.
    pub const ALL: [QueryRequest; 10] = [
        QueryRequest::State,
        QueryRequest::Capabilities,
        QueryRequest::Workspaces,
        QueryRequest::Outputs,
        QueryRequest::Windows,
        QueryRequest::FocusedWindow,
        QueryRequest::OverviewState,
        QueryRequest::KeyboardLayouts,
        QueryRequest::LayoutState,
        QueryRequest::Commands,
    ];

    /// The native name of the request.
    pub open spec fn name(self) -> Seq<char> {
        match self {
            QueryRequest::State => "state"@,
            QueryRequest::Capabilities => "capabilities"@,
            QueryRequest::Workspaces => "workspaces"@,
            QueryRequest::Outputs => "outputs"@,
            QueryRequest::Windows => "windows"@,
            QueryRequest::FocusedWindow => "focused-window"@,
            QueryRequest::OverviewState => "overview-state"@,
            QueryRequest::KeyboardLayouts => "keyboard-layouts"@,
            QueryRequest::LayoutState => "layout-state"@,
            QueryRequest::Commands => "commands"@,
        }
    }

    /// The request with the native name `s`, if there is one.
    pub open spec fn from_name(s: Seq<char>) -> Option<QueryRequest> {
        if s == "state"@ {
            Some(QueryRequest::State)
        } else if s == "capabilities"@ {
            Some(QueryRequest::Capabilities)
        } else if s == "workspaces"@ {
            Some(QueryRequest::Workspaces)
        } else if s == "outputs"@ {
            Some(QueryRequest::Outputs)
        } else if s == "windows"@ {
            Some(QueryRequest::Windows)
        } else if s == "focused-window"@ {
            Some(QueryRequest::FocusedWindow)
        } else if s == "overview-state"@ {
            Some(QueryRequest::OverviewState)
        } else if s == "keyboard-layouts"@ {
            Some(QueryRequest::KeyboardLayouts)
        } else if s == "layout-state"@ {
            Some(QueryRequest::LayoutState)
        } else if s == "commands"@ {
            Some(QueryRequest::Commands)
        } else {
            None
        }
    }

    pub fn as_str(self) -> (r: &'static str)
        ensures
            r@ == self.name(),
    {
        match self {
            QueryRequest::State => "state",
            QueryRequest::Capabilities => "capabilities",
            QueryRequest::Workspaces => "workspaces",
            QueryRequest::Outputs => "outputs",
            QueryRequest::Windows => "windows",
            QueryRequest::FocusedWindow => "focused-window",
            QueryRequest::OverviewState => "overview-state",
            QueryRequest::KeyboardLayouts => "keyboard-layouts",
            QueryRequest::LayoutState => "layout-state",
            QueryRequest::Commands => "commands",
        }
    }

    /// The native name, as an owned string.
    pub fn to_string(&self) -> (r: String)
        ensures
            r@ == self.name(),
    {
        String::from_str(self.as_str())
    }

    /// The request with the given native name.
    pub fn parse(value: &str) -> (r: Result<QueryRequest>)
        ensures
            match QueryRequest::from_name(value@) {
                Some(q) => r matches Ok(x) && x == q,
                None => r matches Err(e) && e matches Error::UnsupportedRequest(s) && s@ == value@,
            },
    {
        if str_eq(value, "state") {
            Ok(QueryRequest::State)
        } else if str_eq(value, "capabilities") {
            Ok(QueryRequest::Capabilities)
        } else if str_eq(value, "workspaces") {
            Ok(QueryRequest::Workspaces)
        } else if str_eq(value, "outputs") {
            Ok(QueryRequest::Outputs)
        } else if str_eq(value, "windows") {
            Ok(QueryRequest::Windows)
        } else if str_eq(value, "focused-window") {
            Ok(QueryRequest::FocusedWindow)
        } else if str_eq(value, "overview-state") {
            Ok(QueryRequest::OverviewState)
        } else if str_eq(value, "keyboard-layouts") {
            Ok(QueryRequest::KeyboardLayouts)
        } else if str_eq(value, "layout-state") {
            Ok(QueryRequest::LayoutState)
        } else if str_eq(value, "commands") {
            Ok(QueryRequest::Commands)
        } else {
            Err(Error::UnsupportedRequest(String::from_str(value)))
        }
    }
}

impl EventFilter {
    /// Every filter, in the order of Triad's documentation.
    pub const ALL: [EventFilter; 3] = [EventFilter::State, EventFilter::Layout, EventFilter::Window];

    /// The native name of the filter.
    pub open spec fn name(self) -> Seq<char> {
        match self {
            EventFilter::State => "state"@,
            EventFilter::Layout => "layout"@,
            EventFilter::Window => "window"@,
        }
    }

    /// The filter with the native name `s`, if there is one.
    pub open spec fn from_name(s: Seq<char>) -> Option<EventFilter> {
        if s == "state"@ {
            Some(EventFilter::State)
        } else if s == "layout"@ {
            Some(EventFilter::Layout)
        } else if s == "window"@ {
            Some(EventFilter::Window)
        } else {
            None
        }
    }

    pub fn as_str(self) -> (r: &'static str)
        ensures
            r@ == self.name(),
    {
        match self {
            EventFilter::State => "state",
            EventFilter::Layout => "layout",
            EventFilter::Window => "window",
        }
    }

    pub fn to_string(&self) -> (r: String)
        ensures
            r@ == self.name(),
    {
        String::from_str(self.as_str())
    }

    /// The filter with the given native name.
    pub fn parse(value: &str) -> (r: Result<EventFilter>)
        ensures
            match EventFilter::from_name(value@) {
                Some(f) => r matches Ok(x) && x == f,
                None => r matches Err(e) && e matches Error::UnsupportedEvent(s) && s@ == value@,
            },
    {
        if str_eq(value, "state") {
            Ok(EventFilter::State)
        } else if str_eq(value, "layout") {
            Ok(EventFilter::Layout)
        } else if str_eq(value, "window") {
            Ok(EventFilter::Window)
        } else {
            Err(Error::UnsupportedEvent(String::from_str(value)))
        }
    }
}

impl BindingKind {
    /// The native name of the kind.
    pub open spec fn name(self) -> Seq<char> {
        match self {
            BindingKind::Key => "key"@,
            BindingKind::Pointer => "pointer"@,
            BindingKind::Axis => "axis"@,
            BindingKind::Gesture => "gesture"@,
        }
    }

    /// The kind with the native name `s`, if there is one.
    pub open spec fn from_name(s: Seq<char>) -> Option<BindingKind> {
        if s == "key"@ {
            Some(BindingKind::Key)
        } else if s == "pointer"@ {
            Some(BindingKind::Pointer)
        } else if s == "axis"@ {
            Some(BindingKind::Axis)
        } else if s == "gesture"@ {
            Some(BindingKind::Gesture)
        } else {
            None
        }
    }

    pub fn as_str(self) -> (r: &'static str)
        ensures
            r@ == self.name(),
    {
        match self {
            BindingKind::Key => "key",
            BindingKind::Pointer => "pointer",
            BindingKind::Axis => "axis",
            BindingKind::Gesture => "gesture",
        }
    }

    pub fn to_string(&self) -> (r: String)
        ensures
            r@ == self.name(),
    {
        String::from_str(self.as_str())
    }

    /// The kind with the given native name.
    pub fn parse(value: &str) -> (r: Result<BindingKind>)
        ensures
            match BindingKind::from_name(value@) {
                Some(k) => r matches Ok(x) && x == k,
                None => r matches Err(e) && e matches Error::InvalidDispatchBinding(s) && s@
                    == "unsupported binding kind: "@ + value@,
            },
    {
        if str_eq(value, "key") {
            Ok(BindingKind::Key)
        } else if str_eq(value, "pointer") {
            Ok(BindingKind::Pointer)
        } else if str_eq(value, "axis") {
            Ok(BindingKind::Axis)
        } else if str_eq(value, "gesture") {
            Ok(BindingKind::Gesture)
        } else {
            Err(
                Error::InvalidDispatchBinding(
                    crate::text::concat_str("unsupported binding kind: ", value),
                ),
            )
        }
    }
}

/// A blocking client for Triad's socket: it knows the socket's path.
#[derive(Debug)]
pub struct Client {
    socket_path: Vec<u8>,
}

/// An asynchronous client for Triad's socket: it knows the socket's path.
#[derive(Debug)]
pub struct AsyncClient {
    socket_path: Vec<u8>,
}

impl Client {
    /// The path of the socket this client talks to.
    pub closed spec fn path(&self) -> Seq<u8> {
        self.socket_path@
    }

    /// A client for the socket at `socket_path`.
    pub fn connect(socket_path: &[u8]) -> (r: Client)
        ensures
            r.path() == socket_path@,
    {
        Client { socket_path: vstd::slice::slice_to_vec(socket_path) }
    }

    /// A client for the default socket: `TRIAD_SOCKET`, else
    /// `$XDG_RUNTIME_DIR/triad.sock` (the values of those variables are given).
    pub fn connect_default(triad_socket: Option<&[u8]>, xdg_runtime_dir: Option<&[u8]>) -> (r: Result<
        Client,
    >)
        ensures
            match crate::ipc::resolve_socket_path_v(None, opt_bytes(triad_socket), opt_bytes(xdg_runtime_dir)) {
                Some(p) => r matches Ok(c) && c.path() == p,
                None => r matches Err(e) && e is MissingSocketPath,
            },
    {
        let path = resolve_socket_path(None, triad_socket, xdg_runtime_dir)?;
        Ok(Client { socket_path: path })
    }

    pub fn socket_path(&self) -> (r: &[u8])
        ensures
            r@ == self.path(),
    {
        self.socket_path.as_slice()
    }

    /// The Eww projection of the state that a reply to the `state` request carries.
    pub fn eww_state_once(&self, reply: &Json) -> (r: Result<EwwState>)
        ensures
            match reply_ok_v(reply@) {
                Err(m) => r matches Err(e) && e matches Error::Triad(s) && s@ == m,
                Ok(t) => if reply_type_or_missing(t) != "state"@ {
                    r matches Err(e) && e matches Error::UnexpectedReply { expected: x, actual: a }
                        && x@ == "state"@ && a@ == reply_type_or_missing(t)
                } else {
                    match t.get("state"@) {
                        Some(st) => r matches Ok(e) && e@ == eww_state_v(st),
                        None => r matches Err(e) && e matches Error::Triad(s) && s@
                            == "state reply did not include state"@,
                    }
                },
            },
    {
        let state = state_from_reply(reply)?;
        Ok(eww_state(&state))
    }

    /// The Eww stream's step for one value that the state stream emitted (the
    /// stream itself is a socket loop that hands each value here): a value
    /// whose `connected` member is `false` stands for a lost connection and is
    /// read as a printed projection; any other value is a Triad state, and is
    /// projected.
    pub fn eww_stream(&self, value: &Json) -> (r: Result<EwwState>)
        ensures
            opt_as_bool(value@.get("connected"@)) == Some(false) ==> match eww_state_from_json_v(value@) {
                Some(e) => r matches Ok(x) && x@ == e,
                None => r matches Err(err) && err matches Error::Json(s) && s@ == eww_state_error_v(value@),
            },
            opt_as_bool(value@.get("connected"@)) != Some(false) ==> (r matches Ok(x) && x@
                == eww_state_v(value@)),
    {
        let disconnected = match value.get("connected") {
            Some(c) => match c.as_bool() {
                Some(b) => !b,
                None => false,
            },
            None => false,
        };
        if disconnected {
            EwwState::from_json(value)
        } else {
            Ok(eww_state(value))
        }
    }
}

impl AsyncClient {
    pub closed spec fn path(&self) -> Seq<u8> {
        self.socket_path@
    }

    /// A client for the socket at `socket_path`.
    pub fn connect(socket_path: &[u8]) -> (r: AsyncClient)
        ensures
            r.path() == socket_path@,
    {
        AsyncClient { socket_path: vstd::slice::slice_to_vec(socket_path) }
    }

    /// A client for the default socket (see [`Client::connect_default`]).
    pub fn connect_default(triad_socket: Option<&[u8]>, xdg_runtime_dir: Option<&[u8]>) -> (r: Result<
        AsyncClient,
    >)
        ensures
            match crate::ipc::resolve_socket_path_v(None, opt_bytes(triad_socket), opt_bytes(xdg_runtime_dir)) {
                Some(p) => r matches Ok(c) && c.path() == p,
                None => r matches Err(e) && e is MissingSocketPath,
            },
    {
        let path = resolve_socket_path(None, triad_socket, xdg_runtime_dir)?;
        Ok(AsyncClient { socket_path: path })
    }

    pub fn socket_path(&self) -> (r: &[u8])
        ensures
            r@ == self.path(),
    {
        self.socket_path.as_slice()
    }

    /// The Eww projection of the state that a reply to the `state` request carries.
    pub fn eww_state_once(&self, reply: &Json) -> (r: Result<EwwState>)
        ensures
            match reply_ok_v(reply@) {
                Err(m) => r matches Err(e) && e matches Error::Triad(s) && s@ == m,
                Ok(t) => if reply_type_or_missing(t) != "state"@ {
                    r matches Err(e) && e matches Error::UnexpectedReply { expected: x, actual: a }
                        && x@ == "state"@ && a@ == reply_type_or_missing(t)
                } else {
                    match t.get("state"@) {
                        Some(st) => r matches Ok(e) && e@ == eww_state_v(st),
                        None => r matches Err(e) && e matches Error::Triad(s) && s@
                            == "state reply did not include state"@,
                    }
                },
            },
    {
        let state = state_from_reply(reply)?;
        Ok(eww_state(&state))
    }

    /// One step of the Eww stream: a line of the event stream is screened as
    /// the raw event stream screens it (a failed reply ends the stream, an
    /// acknowledgement is skipped); any other line is applied to the cache,
    /// and the projection of the cache is given when the line changed it.
    pub fn eww_stream(&self, state: &mut TriadState, line: &Json) -> (r: Result<Option<EwwState>>)
        ensures
            match stream_skip_v(line@) {
                Err(m) => final(state)@ == old(state)@ && (r matches Err(e) && e matches Error::Triad(s)
                    && s@ == m),
                Ok(true) => final(state)@ == old(state)@ && (r matches Ok(o) && o is None),
                Ok(false) => {
                    let (changed, next) = apply_event_v(old(state)@, line@);
                    &&& final(state)@ == next
                    &&& r matches Ok(o)
                    &&& (changed && next is Some) ==> (o matches Some(e) && e@ == eww_state_v(next->0))
                    &&& !(changed && next is Some) ==> o is None
                },
            },
    {
        if skip_stream_reply(line)? {
            return Ok(None);
        }
        if state.apply_event(line) {
            match state.current() {
                Some(current) => Ok(Some(eww_state(current))),
                None => Ok(None),
            }
        } else {
            Ok(None)
        }
    }
}

impl Clone for Client {
    fn clone(&self) -> (r: Client)
        ensures
            r.path() == self.path(),
    {
        Client { socket_path: self.socket_path.clone() }
    }
}

impl Clone for AsyncClient {
    fn clone(&self) -> (r: AsyncClient)
        ensures
            r.path() == self.path(),
    {
        AsyncClient { socket_path: self.socket_path.clone() }
    }
}

impl LayoutTarget {
    /// The tag this target names, if it names one.
    pub open spec fn tag(self) -> Option<u64> {
        match self {
            LayoutTarget::Tag(t) => Some(t),
            _ => None,
        }
    }

    /// The workspace this target names, if it names one.
    pub open spec fn workspace(self) -> Option<u64> {
        match self {
            LayoutTarget::Workspace(w) => Some(w),
            _ => None,
        }
    }
}

/// The set-layout request for a layout and a target workspace.
pub fn layout_target_request(layout: &str, target: LayoutTarget) -> (r: Json)
    ensures
        r@ == set_layout_request_v(layout@, target.tag(), target.workspace()),
{
    let (tag, workspace) = match target {
        LayoutTarget::Active => (None, None),
        LayoutTarget::Tag(tag) => (Some(tag), None),
        LayoutTarget::Workspace(workspace) => (None, Some(workspace)),
    };
    set_layout_request(layout, tag, workspace)
}

/// The event names for a set of filters: every native event when none is given.
pub open spec fn event_names_v(filters: Seq<EventFilter>) -> Seq<Seq<char>> {
    if filters.len() == 0 {
        native_event_names()
    } else {
        filters.map_values(|f: EventFilter| f.name())
    }
}

/// The event names to subscribe to for the given filters.
pub fn event_names(filters: &[EventFilter]) -> (r: Vec<String>)
    ensures
        r@.map_values(|s: String| s@) == event_names_v(filters@),
{
    let mut out: Vec<String> = Vec::new();
    if filters.len() == 0 {
        out.push(String::from_str("state"));
        out.push(String::from_str("layout"));
        out.push(String::from_str("window"));
        assert(out@.map_values(|s: String| s@) =~= native_event_names());
        return out;
    }
    let mut i: usize = 0;
    while i < filters.len()
        invariant
            i <= filters@.len(),
            out@.len() == i,
            forall|j: int| 0 <= j < i ==> #[trigger] out@[j]@ == filters@[j].name(),
        decreases filters.len() - i,
    {
        out.push(filters[i].to_string());
        i += 1;
    }
    assert(out@.map_values(|s: String| s@) =~= filters@.map_values(|f: EventFilter| f.name()));
    out
}

/// The subscription follows the filters: a non-empty filter list gives one
/// name per filter, in order, each of which reads back as its filter; only
/// the empty list subscribes to every native event.
pub proof fn lemma_event_names_follow_filters(filters: Seq<EventFilter>)
    ensures
        filters.len() > 0 ==> event_names_v(filters).len() == filters.len(),
        filters.len() > 0 ==> forall|i: int|
            0 <= i < filters.len() ==> EventFilter::from_name(#[trigger] event_names_v(filters)[i]) == Some(
                filters[i],
            ),
        filters.len() == 0 ==> event_names_v(filters) == seq!["state"@, "layout"@, "window"@],
        forall|i: int|
            0 <= i < event_names_v(filters).len() ==> crate::protocol::is_native_event(
                #[trigger] event_names_v(filters)[i],
            ),
{
    lemma_event_filter_names_distinct();
    if filters.len() == 0 {
        assert(EventFilter::State.name() == "state"@);
        assert(EventFilter::Layout.name() == "layout"@);
        assert(EventFilter::Window.name() == "window"@);
        assert forall|i: int| 0 <= i < event_names_v(filters).len() implies crate::protocol::is_native_event(
            #[trigger] event_names_v(filters)[i],
        ) by {
            if i == 0 {
                assert(EventFilter::from_name(EventFilter::State.name()) == Some(EventFilter::State));
            } else if i == 1 {
                assert(EventFilter::from_name(EventFilter::Layout.name()) == Some(EventFilter::Layout));
            } else {
                assert(EventFilter::from_name(EventFilter::Window.name()) == Some(EventFilter::Window));
            }
        }
    } else {
        assert forall|i: int| 0 <= i < filters.len() implies EventFilter::from_name(
            #[trigger] event_names_v(filters)[i],
        ) == Some(filters[i]) by {
            assert(event_names_v(filters)[i] == filters[i].name());
        }
    }
}

/// Whether an error ends a stream in a way that reconnecting may cure: the
/// socket was missing, failed, sent a line that is not JSON, or closed.
pub fn can_reconnect(err: &Error) -> (r: bool)
    ensures
        r == (err is SocketMissing || err is Io || err is Json || err is StreamDisconnected),
{
    match err {
        Error::SocketMissing(_) | Error::Io(_) | Error::Json(_) | Error::StreamDisconnected => true,
        _ => false,
    }
}

/// Distinct requests have distinct native names, so a name read back with
/// `QueryRequest::parse` gives the request it came from.
pub proof fn lemma_query_names_distinct()
    ensures
        forall|a: QueryRequest, b: QueryRequest| #[trigger] a.name() == #[trigger] b.name() ==> a == b,
        forall|a: QueryRequest| #[trigger] QueryRequest::from_name(a.name()) == Some(a),
        forall|s: Seq<char>| #[trigger] QueryRequest::from_name(s) is Some ==> QueryRequest::from_name(s)->0.name() == s,
{
    broadcast use vstd::string::group_string_axioms;

    reveal_strlit("state");
    reveal_strlit("capabilities");
    reveal_strlit("workspaces");
    reveal_strlit("outputs");
    reveal_strlit("windows");
    reveal_strlit("focused-window");
    reveal_strlit("overview-state");
    reveal_strlit("keyboard-layouts");
    reveal_strlit("layout-state");
    reveal_strlit("commands");
    assert forall|a: QueryRequest, b: QueryRequest| #[trigger] a.name() == #[trigger] b.name() implies a == b by {
        assert(a.name().len() == b.name().len());
        assert(a.name()[0] == b.name()[0]);
        assert(a.name()[1] == b.name()[1]);
        assert(a.name()[2] == b.name()[2]);
    }
    assert forall|a: QueryRequest| #[trigger] QueryRequest::from_name(a.name()) == Some(a) by {
        assert(QueryRequest::State.name() == QueryRequest::State.name());
        assert(QueryRequest::Capabilities.name() == QueryRequest::Capabilities.name());
        assert(QueryRequest::Workspaces.name() == QueryRequest::Workspaces.name());
        assert(QueryRequest::Outputs.name() == QueryRequest::Outputs.name());
        assert(QueryRequest::Windows.name() == QueryRequest::Windows.name());
        assert(QueryRequest::FocusedWindow.name() == QueryRequest::FocusedWindow.name());
        assert(QueryRequest::OverviewState.name() == QueryRequest::OverviewState.name());
        assert(QueryRequest::KeyboardLayouts.name() == QueryRequest::KeyboardLayouts.name());
        assert(QueryRequest::LayoutState.name() == QueryRequest::LayoutState.name());
        assert(QueryRequest::Commands.name() == QueryRequest::Commands.name());
    }
}

/// Distinct filters have distinct native names, so a name read back with
/// `EventFilter::parse` gives the filter it came from.
pub proof fn lemma_event_filter_names_distinct()
    ensures
        forall|a: EventFilter, b: EventFilter| #[trigger] a.name() == #[trigger] b.name() ==> a == b,
        forall|a: EventFilter| #[trigger] EventFilter::from_name(a.name()) == Some(a),
        forall|s: Seq<char>| #[trigger] EventFilter::from_name(s) is Some ==> EventFilter::from_name(s)->0.name() == s,
{
    broadcast use vstd::string::group_string_axioms;

    reveal_strlit("state");
    reveal_strlit("layout");
    reveal_strlit("window");
    assert forall|a: EventFilter, b: EventFilter| #[trigger] a.name() == #[trigger] b.name() implies a == b by {
        assert(a.name().len() == b.name().len());
        assert(a.name()[0] == b.name()[0]);
        assert(a.name()[1] == b.name()[1]);
        assert(a.name()[2] == b.name()[2]);
    }
    assert forall|a: EventFilter| #[trigger] EventFilter::from_name(a.name()) == Some(a) by {
        assert(EventFilter::State.name() == EventFilter::State.name());
        assert(EventFilter::Layout.name() == EventFilter::Layout.name());
        assert(EventFilter::Window.name() == EventFilter::Window.name());
    }
}

/// Distinct binding kinds have distinct native names, so a name read back with
/// `BindingKind::parse` gives the kind it came from.
pub proof fn lemma_binding_kind_names_distinct()
    ensures
        forall|a: BindingKind, b: BindingKind| #[trigger] a.name() == #[trigger] b.name() ==> a == b,
        forall|a: BindingKind| #[trigger] BindingKind::from_name(a.name()) == Some(a),
        forall|s: Seq<char>| #[trigger] BindingKind::from_name(s) is Some ==> BindingKind::from_name(s)->0.name() == s,
{
    broadcast use vstd::string::group_string_axioms;

    reveal_strlit("key");
    reveal_strlit("pointer");
    reveal_strlit("axis");
    reveal_strlit("gesture");
    assert forall|a: BindingKind, b: BindingKind| #[trigger] a.name() == #[trigger] b.name() implies a == b by {
        assert(a.name().len() == b.name().len());
        assert(a.name()[0] == b.name()[0]);
        assert(a.name()[1] == b.name()[1]);
        assert(a.name()[2] == b.name()[2]);
    }
    assert forall|a: BindingKind| #[trigger] BindingKind::from_name(a.name()) == Some(a) by {
        assert(BindingKind::Key.name() == BindingKind::Key.name());
        assert(BindingKind::Pointer.name() == BindingKind::Pointer.name());
        assert(BindingKind::Axis.name() == BindingKind::Axis.name());
        assert(BindingKind::Gesture.name() == BindingKind::Gesture.name());
    }
}

/// `QueryRequest::ALL` lists every request once, and the table of native
/// read names lists their names in the same order; likewise for event filters.
pub proof fn lemma_all_lists_every_request()
    ensures
        forall|q: QueryRequest| QueryRequest::ALL@.contains(q),
        forall|i: int, j: int|
            0 <= i < j < QueryRequest::ALL@.len() ==> QueryRequest::ALL@[i] != QueryRequest::ALL@[j],
        QueryRequest::ALL@.len() == crate::protocol::NATIVE_QUERY_REQUESTS@.len(),
        forall|i: int|
            0 <= i < QueryRequest::ALL@.len() ==> #[trigger] crate::protocol::NATIVE_QUERY_REQUESTS@[i]@
                == QueryRequest::ALL@[i].name(),
        forall|f: EventFilter| EventFilter::ALL@.contains(f),
        forall|i: int, j: int|
            0 <= i < j < EventFilter::ALL@.len() ==> EventFilter::ALL@[i] != EventFilter::ALL@[j],
        EventFilter::ALL@.len() == crate::protocol::NATIVE_EVENT_NAMES@.len(),
        forall|i: int|
            0 <= i < EventFilter::ALL@.len() ==> #[trigger] crate::protocol::NATIVE_EVENT_NAMES@[i]@
                == EventFilter::ALL@[i].name(),
{
    broadcast use vstd::array::lemma_array_index, vstd::array::array_len_matches_n;

    let all = QueryRequest::ALL@;
    assert(all[0] == QueryRequest::State);
    assert forall|q: QueryRequest| all.contains(q) by {
        match q {
            QueryRequest::State => assert(all[0] == q),
            QueryRequest::Capabilities => assert(all[1] == q),
            QueryRequest::Workspaces => assert(all[2] == q),
            QueryRequest::Outputs => assert(all[3] == q),
            QueryRequest::Windows => assert(all[4] == q),
            QueryRequest::FocusedWindow => assert(all[5] == q),
            QueryRequest::OverviewState => assert(all[6] == q),
            QueryRequest::KeyboardLayouts => assert(all[7] == q),
            QueryRequest::LayoutState => assert(all[8] == q),
            QueryRequest::Commands => assert(all[9] == q),
        }
    }
}

impl std::str::FromStr for QueryRequest {
    type Err = Error;

    fn from_str(value: &str) -> (r: Result<QueryRequest>)
        ensures
            match QueryRequest::from_name(value@) {
                Some(q) => r matches Ok(x) && x == q,
                None => r matches Err(e) && e matches Error::UnsupportedRequest(s) && s@ == value@,
            },
    {
        QueryRequest::parse(value)
    }
}

impl std::str::FromStr for EventFilter {
    type Err = Error;

    fn from_str(value: &str) -> (r: Result<EventFilter>)
        ensures
            match EventFilter::from_name(value@) {
                Some(f) => r matches Ok(x) && x == f,
                None => r matches Err(e) && e matches Error::UnsupportedEvent(s) && s@ == value@,
            },
    {
        EventFilter::parse(value)
    }
}

impl std::str::FromStr for BindingKind {
    type Err = Error;

    fn from_str(value: &str) -> (r: Result<BindingKind>)
        ensures
            match BindingKind::from_name(value@) {
                Some(k) => r matches Ok(x) && x == k,
                None => r matches Err(e) && e matches Error::InvalidDispatchBinding(s) && s@
                    == "unsupported binding kind: "@ + value@,
            },
    {
        BindingKind::parse(value)
    }
}

} // verus!
