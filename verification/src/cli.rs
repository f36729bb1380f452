//! The parts of the command line that compute: reading an event-filter list,
//! and the requests of the short widget commands.
use vstd::prelude::*;

use crate::client::EventFilter;
use crate::error::{Error, Result};
use crate::json::{json_error_text, parse_json_text, parsed_json, Json, JsonV, Member};
use crate::protocol::{action_members, action_request, envelope, is_first_unsupported_event, is_native_event};

verus! {

/// The characters with Unicode's `White_Space` property (those that
/// `char::is_whitespace` accepts).
pub open spec fn is_whitespace_v(c: char) -> bool {
    let n = c as u32;
    ||| 0x9 <= n <= 0xd
    ||| n == 0x20
    ||| n == 0x85
    ||| n == 0xa0
    ||| n == 0x1680
    ||| 0x2000 <= n <= 0x200a
    ||| n == 0x2028
    ||| n == 0x2029
    ||| n == 0x202f
    ||| n == 0x205f
    ||| n == 0x3000
}

/// Whether `c` is a whitespace character.
pub fn is_whitespace(c: char) -> (r: bool)
    ensures
        r == is_whitespace_v(c),
{
    let n = c as u32;
    (0x9 <= n && n <= 0xd) || n == 0x20 || n == 0x85 || n == 0xa0 || n == 0x1680 || (0x2000 <= n
        && n <= 0x200a) || n == 0x2028 || n == 0x2029 || n == 0x202f || n == 0x205f || n == 0x3000
}

/// The text with its leading whitespace removed.
pub open spec fn trim_start_v(s: Seq<char>) -> Seq<char>
    decreases s.len(),
{
    if s.len() > 0 && is_whitespace_v(s[0]) {
        trim_start_v(s.drop_first())
    } else {
        s
    }
}

/// The text with its trailing whitespace removed.
pub open spec fn trim_end_v(s: Seq<char>) -> Seq<char>
    decreases s.len(),
{
    if s.len() > 0 && is_whitespace_v(s.last()) {
        trim_end_v(s.drop_last())
    } else {
        s
    }
}

/// The text with its leading and trailing whitespace removed.
pub open spec fn trim_v(s: Seq<char>) -> Seq<char> {
    trim_end_v(trim_start_v(s))
}

/// The pieces of a text between its commas (one piece more than commas).
pub open spec fn split_commas_v(s: Seq<char>) -> Seq<Seq<char>>
    decreases s.len(),
{
    if s.len() == 0 {
        seq![Seq::empty()]
    } else {
        let p = split_commas_v(s.drop_last());
        if s.last() == ',' {
            p.push(Seq::empty())
        } else {
            p.update(p.len() - 1, p.last().push(s.last()))
        }
    }
}

/// The pieces, trimmed, without those that trimming leaves empty.
pub open spec fn nonempty_trimmed_v(pieces: Seq<Seq<char>>) -> Seq<Seq<char>>
    decreases pieces.len(),
{
    if pieces.len() == 0 {
        Seq::empty()
    } else {
        let rest = nonempty_trimmed_v(pieces.drop_last());
        let t = trim_v(pieces.last());
        if t.len() > 0 {
            rest.push(t)
        } else {
            rest
        }
    }
}

/// The event names that a comma-separated list gives.
pub open spec fn parse_events_v(input: Seq<char>) -> Seq<Seq<char>> {
    nonempty_trimmed_v(split_commas_v(input))
}

proof fn lemma_split_nonempty(s: Seq<char>)
    ensures
        split_commas_v(s).len() >= 1,
    decreases s.len(),
{
    if s.len() > 0 {
        lemma_split_nonempty(s.drop_last());
    }
}

/// The text with leading and trailing whitespace removed (what `str::trim`
/// gives).
pub fn trim(input: &str) -> (r: String)
    ensures
        r@ == trim_v(input@),
{
    let ghost s = input@;
    let n = input.unicode_len();
    let mut lo: usize = 0;
    assert(s.subrange(0, n as int) =~= s);
    while lo < n && is_whitespace(input.get_char(lo))
        invariant
            lo <= n,
            n == s.len(),
            s == input@,
            trim_start_v(s) == trim_start_v(s.subrange(lo as int, n as int)),
        decreases n - lo,
    {
        assert(s.subrange(lo as int, n as int).drop_first() =~= s.subrange(lo + 1, n as int));
        lo += 1;
    }
    assert(s.subrange(0, n as int) =~= s);
    assert(trim_start_v(s) == s.subrange(lo as int, n as int));
    let mut hi = n;
    while hi > lo && is_whitespace(input.get_char(hi - 1))
        invariant
            lo <= hi <= n,
            n == s.len(),
            s == input@,
            trim_end_v(s.subrange(lo as int, n as int)) == trim_end_v(s.subrange(lo as int, hi as int)),
        decreases hi - lo,
    {
        assert(s.subrange(lo as int, hi as int).drop_last() =~= s.subrange(lo as int, hi - 1));
        hi -= 1;
    }
    String::from_str(input.substring_char(lo, hi))
}

/// Adds the trimmed text of `input[a..b]` to `out`, unless it is empty.
fn push_trimmed(out: &mut Vec<String>, input: &str, a: usize, b: usize)
    requires
        a <= b <= input@.len(),
    ensures
        final(out)@.map_values(|s: String| s@) == {
            let t = trim_v(input@.subrange(a as int, b as int));
            if t.len() > 0 {
                old(out)@.map_values(|s: String| s@).push(t)
            } else {
                old(out)@.map_values(|s: String| s@)
            }
        },
{
    let piece = trim(input.substring_char(a, b));
    if piece.as_str().unicode_len() > 0 {
        let ghost t = piece@;
        out.push(piece);
        assert(out@.map_values(|s: String| s@) =~= old(out)@.map_values(|s: String| s@).push(t));
    }
}

/// The event names in a comma-separated list: each piece is trimmed, empty
/// pieces are dropped, and every name must be a native event filter.
pub fn parse_events(input: &str) -> (r: Result<Vec<String>>)
    ensures
        match r {
            Ok(v) => v@.map_values(|s: String| s@) == parse_events_v(input@) && forall|i: int|
                0 <= i < parse_events_v(input@).len() ==> is_native_event(
                    #[trigger] parse_events_v(input@)[i],
                ),
            Err(e) => exists|i: int| #[trigger]
                is_first_unsupported_event(parse_events_v(input@), i) && (e matches Error::UnsupportedEvent(
                    s,
                ) && s@ == parse_events_v(input@)[i]),
        },
{
    let ghost s = input@;
    let n = input.unicode_len();
    let mut out: Vec<String> = Vec::new();
    let ghost mut done: Seq<Seq<char>> = Seq::empty();
    let mut start: usize = 0;
    let mut i: usize = 0;
    assert(s.take(0) =~= Seq::<char>::empty());
    assert(done.push(s.subrange(0, 0)) =~= seq![Seq::<char>::empty()]);
    while i < n
        invariant
            start <= i <= n,
            n == s.len(),
            s == input@,
            split_commas_v(s.take(i as int)) == done.push(s.subrange(start as int, i as int)),
            out@.map_values(|x: String| x@) == nonempty_trimmed_v(done),
        decreases n - i,
    {
        let c = input.get_char(i);
        proof {
            assert(s.take(i + 1).drop_last() =~= s.take(i as int));
            assert(s.take(i + 1).last() == c);
            lemma_split_nonempty(s.take(i as int));
        }
        if c == ',' {
            push_trimmed(&mut out, input, start, i);
            proof {
                assert(done.push(s.subrange(start as int, i as int)).drop_last() =~= done);
                done = done.push(s.subrange(start as int, i as int));
                assert(s.subrange(i + 1, i + 1) =~= Seq::<char>::empty());
            }
            start = i + 1;
        } else {
            proof {
                assert(s.subrange(start as int, i + 1) =~= s.subrange(start as int, i as int).push(c));
                assert(done.push(s.subrange(start as int, i as int)).update(
                    done.len() as int,
                    s.subrange(start as int, i + 1),
                ) =~= done.push(s.subrange(start as int, i + 1)));
            }
        }
        i += 1;
    }
    push_trimmed(&mut out, input, start, n);
    proof {
        assert(done.push(s.subrange(start as int, n as int)).drop_last() =~= done);
        done = done.push(s.subrange(start as int, n as int));
        assert(s.take(n as int) =~= s);
    }
    let ghost evs = parse_events_v(input@);
    let mut j: usize = 0;
    while j < out.len()
        invariant
            j <= out@.len(),
            evs == out@.map_values(|x: String| x@),
            evs == parse_events_v(input@),
            forall|k: int| 0 <= k < j ==> is_native_event(#[trigger] evs[k]),
        decreases out.len() - j,
    {
        match EventFilter::parse(out[j].as_str()) {
            Ok(_) => {},
            Err(e) => {
                assert(evs[j as int] == out@[j as int]@);
                assert(is_first_unsupported_event(evs, j as int));
                return Err(e);
            },
        }
        j += 1;
    }
    Ok(out)
}

/// The request of `focus-workspace IDX`.
pub fn focus_workspace_request(idx: u64) -> (r: Json)
    ensures
        r@ == envelope(action_members(seq![("workspace_idx"@, JsonV::Int(idx as int))], "focus-workspace"@)),
{
    let mut m: Vec<Member> = Vec::new();
    m.push(Member::new("workspace_idx", Json::from_u64(idx)));
    let payload = Json::Object(m);
    proof {
        crate::json::lemma_object_view(m);
        assert(crate::json::members_view(m@) =~= seq![("workspace_idx"@, JsonV::Int(idx as int))]);
    }
    match action_request("focus-workspace", payload) {
        Ok(v) => v,
        Err(_) => Json::Null,
    }
}

/// The request of `focus-window ID`.
pub fn focus_window_request(id: u64) -> (r: Json)
    ensures
        r@ == envelope(action_members(seq![("id"@, JsonV::Int(id as int))], "focus-window"@)),
{
    let mut m: Vec<Member> = Vec::new();
    m.push(Member::new("id", Json::from_u64(id)));
    let payload = Json::Object(m);
    proof {
        crate::json::lemma_object_view(m);
        assert(crate::json::members_view(m@) =~= seq![("id"@, JsonV::Int(id as int))]);
    }
    match action_request("focus-window", payload) {
        Ok(v) => v,
        Err(_) => Json::Null,
    }
}

/// The request that the `request` command sends: its JSON argument, read by
/// serde_json; a text that serde_json refuses is a JSON error with its message.
pub fn parse_request_text(text: &str) -> (r: Result<Json>)
    ensures
        match parsed_json(text@) {
            Some(v) => r matches Ok(x) && x@ == v,
            None => r matches Err(e) && e matches Error::Json(m) && m@ == json_error_text(text@),
        },
{
    match parse_json_text(text) {
        Ok(v) => Ok(v),
        Err(m) => Err(Error::Json(m)),
    }
}

/// The payload of the `action` command: its `--payload` text, read by
/// serde_json; a text that serde_json refuses is an invalid payload with its
/// message. (Whether the payload is an object is for `action_request`.)
pub fn parse_action_payload(text: &str) -> (r: Result<Json>)
    ensures
        match parsed_json(text@) {
            Some(v) => r matches Ok(x) && x@ == v,
            None => r matches Err(e) && e matches Error::InvalidActionPayload(m) && m@ == json_error_text(
                text@,
            ),
        },
{
    match parse_json_text(text) {
        Ok(v) => Ok(v),
        Err(m) => Err(Error::InvalidActionPayload(m)),
    }
}

} // verus!
