//! The decisions of the socket conversations: where the socket is, which
//! stream lines to pass on, and when to reconnect.
use vstd::prelude::*;

use crate::client::can_reconnect;
use crate::error::{Error, Result};
use crate::cli::{trim, trim_v};
use crate::json::{json_error_text, json_text, parse_json_text, parsed_json, to_json_text, Json, JsonV};
use vstd::string::StringSliceAdditionalSpecFns;
use crate::protocol::{reply_ok, reply_ok_v};
use crate::state::{apply_event_v, opt_wf, TriadState};
use crate::view::{disconnected_eww_state, disconnected_eww_state_v, disconnected_state, eww_state_json_v, EwwState};

verus! {

/// The socket path, as the bytes of a Unix path: the explicit one, else
/// `TRIAD_SOCKET`, else `triad.sock` in `XDG_RUNTIME_DIR`; `None` when none of
/// them is set.
pub open spec fn resolve_socket_path_v(
    explicit: Option<Seq<u8>>,
    triad_socket: Option<Seq<u8>>,
    runtime_dir: Option<Seq<u8>>,
) -> Option<Seq<u8>> {
    match explicit {
        Some(p) => Some(p),
        None => match triad_socket {
            Some(p) => Some(p),
            None => match runtime_dir {
                Some(d) => Some(join_path_v(d, "triad.sock".spec_bytes())),
                None => None,
            },
        },
    }
}

/// A directory path joined with a relative file name: a `/` goes between
/// them unless the directory is empty or already ends with one.
pub open spec fn join_path_v(dir: Seq<u8>, name: Seq<u8>) -> Seq<u8> {
    if dir.len() == 0 {
        name
    } else if dir.last() == 0x2fu8 {
        dir + name
    } else {
        dir.push(0x2fu8) + name
    }
}

/// Joins a directory path and a relative file name.
pub fn join_path(dir: &[u8], name: &[u8]) -> (r: Vec<u8>)
    ensures
        r@ == join_path_v(dir@, name@),
{
    let mut out = vstd::slice::slice_to_vec(dir);
    if dir.len() > 0 && dir[dir.len() - 1] != 0x2fu8 {
        out.push(0x2fu8);
    }
    let ghost head = out@;
    let mut i: usize = 0;
    while i < name.len()
        invariant
            i <= name@.len(),
            out@ == head + name@.take(i as int),
        decreases name.len() - i,
    {
        out.push(name[i]);
        i += 1;
        assert(out@ =~= head + name@.take(i as int));
    }
    assert(name@.take(name@.len() as int) =~= name@);
    assert(dir@.len() == 0 ==> head + name@ =~= name@);
    out
}

/// The socket path's precedence: an explicit path wins whatever the
/// environment holds; without one `TRIAD_SOCKET` wins whatever
/// `XDG_RUNTIME_DIR` holds; without both, the path is `XDG_RUNTIME_DIR`
/// followed by `triad.sock`, with one `/` between them unless the directory is
/// empty or already ends with one; with none of the three there is no path.
pub proof fn lemma_socket_path_precedence(
    explicit: Option<Seq<u8>>,
    triad_socket: Option<Seq<u8>>,
    runtime_dir: Option<Seq<u8>>,
)
    ensures
        explicit is Some ==> resolve_socket_path_v(explicit, triad_socket, runtime_dir) == explicit,
        explicit is None && triad_socket is Some ==> resolve_socket_path_v(explicit, triad_socket, runtime_dir)
            == triad_socket,
        explicit is None && triad_socket is None && runtime_dir is None ==> resolve_socket_path_v(
            explicit,
            triad_socket,
            runtime_dir,
        ) is None,
        explicit is None && triad_socket is None && runtime_dir is Some ==> ({
            let d = runtime_dir->0;
            let name = "triad.sock".spec_bytes();
            let sep: int = if d.len() == 0 || d.last() == 0x2fu8 { 0 } else { 1 };
            &&& resolve_socket_path_v(explicit, triad_socket, runtime_dir) is Some
            &&& ({
                let r = resolve_socket_path_v(explicit, triad_socket, runtime_dir)->0;
                &&& r.len() == d.len() + sep + name.len()
                &&& r.subrange(0, d.len() as int) == d
                &&& (sep == 1 ==> r[d.len() as int] == 0x2fu8)
                &&& r.subrange(d.len() as int + sep, r.len() as int) == name
            })
        }),
{
    if explicit is None && triad_socket is None && runtime_dir is Some {
        let d = runtime_dir->0;
        let name = "triad.sock".spec_bytes();
        let r = resolve_socket_path_v(explicit, triad_socket, runtime_dir)->0;
        if d.len() == 0 {
            assert(r.subrange(0, 0) =~= d);
            assert(r.subrange(0, r.len() as int) =~= name);
        } else if d.last() == 0x2fu8 {
            assert(r.subrange(0, d.len() as int) =~= d);
            assert(r.subrange(d.len() as int, r.len() as int) =~= name);
        } else {
            assert(r.subrange(0, d.len() as int) =~= d);
            assert(r.subrange(d.len() as int + 1, r.len() as int) =~= name);
        }
    }
}

/// The model of an optional path.
pub open spec fn opt_bytes(o: Option<&[u8]>) -> Option<Seq<u8>> {
    match o {
        Some(s) => Some(s@),
        None => None,
    }
}

/// Resolves the socket path from an explicit path and the values of the
/// `TRIAD_SOCKET` and `XDG_RUNTIME_DIR` variables, each as the bytes of a path.
pub fn resolve_socket_path(
    explicit: Option<&[u8]>,
    triad_socket: Option<&[u8]>,
    runtime_dir: Option<&[u8]>,
) -> (r: Result<Vec<u8>>)
    ensures
        match resolve_socket_path_v(opt_bytes(explicit), opt_bytes(triad_socket), opt_bytes(runtime_dir)) {
            Some(p) => r matches Ok(s) && s@ == p,
            None => r matches Err(e) && e is MissingSocketPath,
        },
{
    match explicit {
        Some(p) => Ok(vstd::slice::slice_to_vec(p)),
        None => match triad_socket {
            Some(p) => Ok(vstd::slice::slice_to_vec(p)),
            None => match runtime_dir {
                Some(d) => Ok(join_path(d, "triad.sock".as_bytes())),
                None => Err(Error::MissingSocketPath),
            },
        },
    }
}

/// The line that carries a request on the socket: the request's JSON text,
/// then a newline.
pub fn request_line(request: &Json) -> (r: String)
    ensures
        r@ == json_text(request@) + "\n"@,
{
    let mut line = to_json_text(request);
    line.append("\n");
    line
}

/// A line on a stream that acknowledges the subscription: a reply that
/// reports no failure and whose envelope has a type.
pub open spec fn is_ack_v(line: JsonV) -> bool {
    match reply_ok_v(line) {
        Ok(t) => t.get("type"@) is Some,
        Err(_) => false,
    }
}

/// One line of the state stream: acknowledgements are skipped; other lines
/// are applied as events, and the cached state is emitted when one changes it.
pub open spec fn listen_step_v(state: Option<JsonV>, line: JsonV) -> (Option<JsonV>, Option<JsonV>) {
    if is_ack_v(line) {
        (state, None)
    } else {
        let (changed, next) = apply_event_v(state, line);
        (next, if changed {
            next
        } else {
            None
        })
    }
}

/// The state of one connection of the state stream: its cache starts empty.
pub struct ListenSession {
    state: TriadState,
}

impl View for ListenSession {
    type V = Option<JsonV>;

    closed spec fn view(&self) -> Option<JsonV> {
        self.state@
    }
}

impl ListenSession {
    /// A new connection's session: nothing is cached.
    pub fn new() -> (r: ListenSession)
        ensures
            r@ is None,
    {
        ListenSession { state: TriadState::new() }
    }

    /// Handles one line of the stream; gives the state to emit, if any.
    pub fn on_line(&mut self, line: &Json) -> (r: Option<Json>)
        ensures
            final(self)@ == listen_step_v(old(self)@, line@).0,
            match listen_step_v(old(self)@, line@).1 {
                Some(s) => r matches Some(x) && x@ == s,
                None => r is None,
            },
            opt_wf(old(self)@) && line@.wf() ==> opt_wf(final(self)@) && (r matches Some(x)
                ==> x@.wf()),
    {
        let is_ack = match reply_ok(line) {
            Ok(t) => t.get("type").is_some(),
            Err(_) => false,
        };
        if is_ack {
            return None;
        }
        if self.state.apply_event(line) {
            match self.state.current() {
                Some(s) => Some(s.deep_clone()),
                None => None,
            }
        } else {
            None
        }
    }
}

/// How the raw event stream treats a line: a line without an `ok` member is
/// passed on (`Ok(false)`); a reply is skipped (`Ok(true)`) when it
/// acknowledges, and ends the stream with the text of its error when it
/// reports a failure.
pub open spec fn stream_skip_v(line: JsonV) -> std::result::Result<bool, Seq<char>> {
    if line.get("ok"@) is None {
        Ok(false)
    } else {
        match reply_ok_v(line) {
            Ok(t) => Ok(t.get("type"@) is Some),
            Err(m) => Err(m),
        }
    }
}

/// Whether a line of the raw event stream is skipped (see [`stream_skip_v`]).
pub fn skip_stream_reply(line: &Json) -> (r: Result<bool>)
    ensures
        match stream_skip_v(line@) {
            Ok(b) => r == Ok::<bool, Error>(b),
            Err(m) => r matches Err(e) && e matches Error::Triad(s) && s@ == m,
        },
{
    if line.get("ok").is_none() {
        return Ok(false);
    }
    let triad = reply_ok(line)?;
    Ok(triad.get("type").is_some())
}

/// A read of a reply line: reading nothing means that the peer closed.
pub fn check_line(bytes_read: usize) -> (r: Result<()>)
    ensures
        bytes_read == 0 ==> (r matches Err(e) && e is StreamDisconnected),
        bytes_read > 0 ==> r is Ok,
{
    if bytes_read == 0 {
        Err(Error::StreamDisconnected)
    } else {
        Ok(())
    }
}

/// A line read from the socket, as a value: reading nothing means that the
/// peer closed; otherwise the line, trimmed, is read by serde_json, and a text
/// that serde_json refuses is a JSON error with its message.
pub fn read_line_value(bytes_read: usize, line: &str) -> (r: Result<Json>)
    ensures
        bytes_read == 0 ==> (r matches Err(e) && e is StreamDisconnected),
        bytes_read > 0 ==> match parsed_json(trim_v(line@)) {
            Some(v) => r matches Ok(x) && x@ == v,
            None => r matches Err(e) && e matches Error::Json(m) && m@ == json_error_text(trim_v(line@)),
        },
{
    check_line(bytes_read)?;
    let text = trim(line);
    match parse_json_text(text.as_str()) {
        Ok(v) => Ok(v),
        Err(m) => Err(Error::Json(m)),
    }
}

/// After the state stream ended with `err`: with reconnecting on, the state
/// that stands for a lost connection, to emit before trying again; else the error.
pub fn listen_retry(reconnect: bool, err: Error) -> (r: Result<Json>)
    ensures
        reconnect ==> (r matches Ok(v) && v@ == eww_state_json_v(disconnected_eww_state_v())),
        !reconnect ==> r == Err::<Json, Error>(err),
{
    if reconnect {
        Ok(disconnected_state())
    } else {
        Err(err)
    }
}

/// After the raw event stream ended with `err`: whether to try again.
pub fn event_stream_retry(reconnect: bool, err: Error) -> (r: Result<()>)
    ensures
        (reconnect && (err is SocketMissing || err is Io || err is Json || err is StreamDisconnected))
            ==> r is Ok,
        !(reconnect && (err is SocketMissing || err is Io || err is Json || err is StreamDisconnected))
            ==> r == Err::<(), Error>(err),
{
    if reconnect && can_reconnect(&err) {
        Ok(())
    } else {
        Err(err)
    }
}

/// After the asynchronous Eww stream ended with `err`: with reconnecting on
/// and an error that reconnecting may cure, the projection that stands for a
/// lost connection, to emit before trying again; else the error.
pub fn eww_stream_retry(reconnect: bool, err: Error) -> (r: Result<EwwState>)
    ensures
        (reconnect && (err is SocketMissing || err is Io || err is Json || err is StreamDisconnected))
            ==> (r matches Ok(e) && e@ == disconnected_eww_state_v()),
        !(reconnect && (err is SocketMissing || err is Io || err is Json || err is StreamDisconnected))
            ==> r == Err::<EwwState, Error>(err),
{
    if reconnect && can_reconnect(&err) {
        Ok(disconnected_eww_state())
    } else {
        Err(err)
    }
}

} // verus!
