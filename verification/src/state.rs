//! The cached Triad state, and how events change it.
use vstd::prelude::*;

use crate::json::{
    lemma_get_wf, lemma_member_insert_get, lemma_member_insert_wf, lemma_object_wf, lemma_array_view, lemma_object_view, member_get, member_insert, members_insert,
    members_view, opt_as_str, opt_as_u64, opt_get, Json, JsonV, Member,
};
use crate::protocol::{event_name, event_payload};
use crate::text::str_eq;

verus! {

/// The last Triad state seen on an event stream, if any.
#[derive(Debug)]
pub struct TriadState {
    state: Option<Json>,
}

impl View for TriadState {
    type V = Option<JsonV>;

    closed spec fn view(&self) -> Option<JsonV> {
        match self.state {
            Some(s) => Some(s@),
            None => None,
        }
    }
}

/// `j` is the first position of a window whose `id` is `id`.
pub open spec fn is_first_window(windows: Seq<JsonV>, id: u64, j: int) -> bool {
    &&& 0 <= j < windows.len()
    &&& opt_as_u64(windows[j].get("id"@)) == Some(id)
    &&& forall|k: int| 0 <= k < j ==> opt_as_u64(#[trigger] windows[k].get("id"@)) != Some(id)
}

/// The position of the first window whose `id` is `id`, if there is one.
pub open spec fn window_index(windows: Seq<JsonV>, id: u64) -> Option<int> {
    if exists|j: int| is_first_window(windows, id, j) {
        Some(choose|j: int| is_first_window(windows, id, j))
    } else {
        None
    }
}

/// The window list after a window changed: the first window with its id is
/// replaced by it, or it is added at the end.
pub open spec fn upsert_window(windows: Seq<JsonV>, id: u64, window: JsonV) -> Seq<JsonV> {
    match window_index(windows, id) {
        Some(j) => windows.update(j, window),
        None => windows.push(window),
    }
}

/// A state-changed event: the event's state replaces the cached one.
pub open spec fn apply_state_changed_v(state: Option<JsonV>, payload: Option<JsonV>) -> (bool, Option<JsonV>) {
    match opt_get(payload, "state"@) {
        Some(s) => (true, Some(s)),
        None => (false, state),
    }
}

/// A layout-state-changed event: the event's state becomes the cached
/// state's `layout` member. A cached state that is not an object is kept.
pub open spec fn apply_layout_changed_v(state: Option<JsonV>, payload: Option<JsonV>) -> (bool, Option<JsonV>) {
    match opt_get(payload, "state"@) {
        Some(layout) => match state {
            Some(JsonV::Object(m)) => (true, Some(JsonV::Object(member_insert(m, "layout"@, layout)))),
            _ => (false, state),
        },
        None => (false, state),
    }
}

/// A window-changed event: the event's window, which must have an integer
/// `id`, takes the place of the cached window with that id, or joins the
/// cached `windows` list, which must be an array.
pub open spec fn apply_window_changed_v(state: Option<JsonV>, payload: Option<JsonV>) -> (bool, Option<JsonV>) {
    match opt_get(payload, "window"@) {
        Some(window) => match opt_as_u64(window.get("id"@)) {
            Some(id) => match state {
                Some(JsonV::Object(m)) => match member_get(m, "windows"@) {
                    Some(JsonV::Array(ws)) => (
                        true,
                        Some(JsonV::Object(member_insert(m, "windows"@, JsonV::Array(upsert_window(ws, id, window))))),
                    ),
                    _ => (false, state),
                },
                _ => (false, state),
            },
            None => (false, state),
        },
        None => (false, state),
    }
}

/// The effect of an event on the cached state: whether it changed, and the
/// state after it. Events of other kinds change nothing.
pub open spec fn apply_event_v(state: Option<JsonV>, event: JsonV) -> (bool, Option<JsonV>) {
    let name = opt_as_str(opt_get(event.get("triad"@), "event"@));
    let payload = event.get("triad"@);
    if name == Some("state-changed"@) {
        apply_state_changed_v(state, payload)
    } else if name == Some("layout-state-changed"@) {
        apply_layout_changed_v(state, payload)
    } else if name == Some("window-changed"@) {
        apply_window_changed_v(state, payload)
    } else {
        (false, state)
    }
}

/// The first window whose `id` is `id`, if there is one.
pub open spec fn window_get(windows: Seq<JsonV>, id: u64) -> Option<JsonV> {
    match window_index(windows, id) {
        Some(j) => Some(windows[j]),
        None => None,
    }
}

/// A window with the id at position `j` means there is a first one.
pub proof fn lemma_first_window_exists(windows: Seq<JsonV>, id: u64, j: int)
    requires
        0 <= j < windows.len(),
        opt_as_u64(windows[j].get("id"@)) == Some(id),
    ensures
        window_index(windows, id) is Some,
    decreases j,
{
    if forall|l: int| 0 <= l < j ==> opt_as_u64(#[trigger] windows[l].get("id"@)) != Some(id) {
        assert(is_first_window(windows, id, j));
    } else {
        let l = choose|l: int| 0 <= l < j && opt_as_u64(#[trigger] windows[l].get("id"@)) == Some(id);
        lemma_first_window_exists(windows, id, l);
    }
}

/// After a window with id `id` is upserted, looking `id` up gives that window,
/// looking up any other id gives what it gave before, and the list grows by
/// one exactly when no window had the id.
pub proof fn lemma_upsert_window(windows: Seq<JsonV>, id: u64, window: JsonV, other: u64)
    requires
        opt_as_u64(window.get("id"@)) == Some(id),
    ensures
        window_get(upsert_window(windows, id, window), id) == Some(window),
        other != id ==> window_get(upsert_window(windows, id, window), other) == window_get(windows, other),
        upsert_window(windows, id, window).len() == windows.len() + if window_index(windows, id) is Some {
            0int
        } else {
            1int
        },
{
    let w2 = upsert_window(windows, id, window);
    match window_index(windows, id) {
        Some(i) => {
            assert(is_first_window(windows, id, i));
            assert(w2 == windows.update(i, window));
            assert(is_first_window(w2, id, i));
            let c = choose|c: int| is_first_window(w2, id, c);
            assert(c == i) by {
                if c < i {
                    assert(opt_as_u64(w2[c].get("id"@)) != Some(id));
                }
                if c > i {
                    assert(opt_as_u64(w2[i].get("id"@)) != Some(id));
                }
            }
            if other != id {
                assert forall|j: int| is_first_window(w2, other, j) implies is_first_window(windows, other, j) by {
                    assert forall|l: int| 0 <= l < j implies opt_as_u64(#[trigger] windows[l].get("id"@))
                        != Some(other) by {
                        if l != i {
                            assert(w2[l] == windows[l]);
                            assert(opt_as_u64(w2[l].get("id"@)) != Some(other));
                        }
                    }
                    assert(j != i);
                    assert(w2[j] == windows[j]);
                }
                assert forall|j: int| is_first_window(windows, other, j) implies is_first_window(w2, other, j) by {
                    assert forall|l: int| 0 <= l < j implies opt_as_u64(#[trigger] w2[l].get("id"@))
                        != Some(other) by {
                        if l != i {
                            assert(w2[l] == windows[l]);
                            assert(opt_as_u64(windows[l].get("id"@)) != Some(other));
                        }
                    }
                    assert(j != i);
                    assert(w2[j] == windows[j]);
                }
                if exists|j: int| is_first_window(windows, other, j) {
                    let c1 = choose|j: int| is_first_window(windows, other, j);
                    let c2 = choose|j: int| is_first_window(w2, other, j);
                    assert(is_first_window(windows, other, c2));
                    assert(c1 == c2) by {
                        if c1 < c2 {
                            assert(opt_as_u64(windows[c1].get("id"@)) != Some(other));
                        }
                        if c2 < c1 {
                            assert(opt_as_u64(windows[c2].get("id"@)) != Some(other));
                        }
                    }
                    assert(w2[c2] == windows[c2]);
                }
            }
        },
        None => {
            assert(w2 == windows.push(window));
            assert(forall|j: int| 0 <= j < windows.len() ==> opt_as_u64(#[trigger] windows[j].get("id"@)) != Some(id)) by {
                if exists|j: int| 0 <= j < windows.len() && opt_as_u64(#[trigger] windows[j].get("id"@)) == Some(id) {
                    let j0 = choose|j: int| 0 <= j < windows.len() && opt_as_u64(#[trigger] windows[j].get("id"@)) == Some(id);
                    lemma_first_window_exists(windows, id, j0);
                }
            }
            let n = windows.len() as int;
            assert(is_first_window(w2, id, n));
            let c = choose|c: int| is_first_window(w2, id, c);
            assert(c == n) by {
                if c < n {
                    assert(w2[c] == windows[c]);
                }
            }
            if other != id {
                assert forall|j: int| is_first_window(w2, other, j) implies is_first_window(windows, other, j) by {
                    assert forall|l: int| 0 <= l < j implies opt_as_u64(#[trigger] windows[l].get("id"@))
                        != Some(other) by {
                        assert(w2[l] == windows[l]);
                        assert(opt_as_u64(w2[l].get("id"@)) != Some(other));
                    }
                    assert(j != n);
                    assert(w2[j] == windows[j]);
                }
                assert forall|j: int| is_first_window(windows, other, j) implies is_first_window(w2, other, j) by {
                    assert forall|l: int| 0 <= l < j implies opt_as_u64(#[trigger] w2[l].get("id"@))
                        != Some(other) by {
                        assert(w2[l] == windows[l]);
                        assert(opt_as_u64(windows[l].get("id"@)) != Some(other));
                    }
                    assert(w2[j] == windows[j]);
                }
                if exists|j: int| is_first_window(windows, other, j) {
                    let c1 = choose|j: int| is_first_window(windows, other, j);
                    let c2 = choose|j: int| is_first_window(w2, other, j);
                    assert(is_first_window(windows, other, c2));
                    assert(c1 == c2) by {
                        if c1 < c2 {
                            assert(opt_as_u64(windows[c1].get("id"@)) != Some(other));
                        }
                        if c2 < c1 {
                            assert(opt_as_u64(windows[c2].get("id"@)) != Some(other));
                        }
                    }
                    assert(w2[c2] == windows[c2]);
                }
            }
        },
    }
}

/// An optional value that, when present, is well formed.
pub open spec fn opt_wf(o: Option<JsonV>) -> bool {
    o matches Some(v) ==> v.wf()
}

/// Upserting a well-formed window into well-formed windows keeps them well formed.
proof fn lemma_upsert_window_wf(windows: Seq<JsonV>, id: u64, window: JsonV)
    requires
        JsonV::Array(windows).wf(),
        window.wf(),
    ensures
        JsonV::Array(upsert_window(windows, id, window)).wf(),
{
    let w2 = upsert_window(windows, id, window);
    crate::json::lemma_array_wf(windows);
    crate::json::lemma_array_wf(w2);
    match window_index(windows, id) {
        Some(j) => {
            assert(is_first_window(windows, id, j));
            assert forall|i: int| 0 <= i < w2.len() implies (#[trigger] w2[i]).wf() by {
                if i != j {
                    assert(w2[i] == windows[i]);
                }
            }
        },
        None => {
            assert forall|i: int| 0 <= i < w2.len() implies (#[trigger] w2[i]).wf() by {
                if i < windows.len() {
                    assert(w2[i] == windows[i]);
                }
            }
        },
    }
}

/// Every event keeps the cache well formed: a well-formed event applied to a
/// well-formed (or empty) cache leaves a well-formed (or empty) cache.
pub proof fn lemma_apply_event_keeps_wf(state: Option<JsonV>, event: JsonV)
    requires
        opt_wf(state),
        event.wf(),
    ensures
        opt_wf(apply_event_v(state, event).1),
{
    lemma_get_wf(event, "triad"@);
    let payload = event.get("triad"@);
    if let Some(p) = payload {
        lemma_get_wf(p, "state"@);
        lemma_get_wf(p, "window"@);
    }
    if let Some(JsonV::Object(m)) = state {
        lemma_object_wf(m);
        if let Some(l) = opt_get(payload, "state"@) {
            lemma_member_insert_wf(m, "layout"@, l);
            lemma_object_wf(member_insert(m, "layout"@, l));
        }
        lemma_get_wf(JsonV::Object(m), "windows"@);
        if let (Some(JsonV::Array(ws)), Some(w)) = (member_get(m, "windows"@), opt_get(payload, "window"@)) {
            if let Some(id) = opt_as_u64(w.get("id"@)) {
                lemma_upsert_window_wf(ws, id, w);
                let u = JsonV::Array(upsert_window(ws, id, w));
                lemma_member_insert_wf(m, "windows"@, u);
                lemma_object_wf(member_insert(m, "windows"@, u));
            }
        }
    }
}

/// An event that does not change the cached state leaves it as it was.
pub proof fn lemma_unapplied_event_keeps_state(state: Option<JsonV>, event: JsonV)
    ensures
        !apply_event_v(state, event).0 ==> apply_event_v(state, event).1 == state,
{
}

/// After a state-changed event with a state, the cache holds that state.
pub proof fn lemma_state_event_reads_back(state: Option<JsonV>, event: JsonV)
    requires
        opt_as_str(opt_get(event.get("triad"@), "event"@)) == Some("state-changed"@),
        opt_get(event.get("triad"@), "state"@) is Some,
    ensures
        apply_event_v(state, event) == (true, opt_get(event.get("triad"@), "state"@)),
{
}

/// After a layout-state-changed event changed the cache, its `layout` member
/// is the event's state and every other member is as it was.
pub proof fn lemma_layout_event_reads_back(state: Option<JsonV>, event: JsonV, key: Seq<char>)
    requires
        opt_as_str(opt_get(event.get("triad"@), "event"@)) == Some("layout-state-changed"@),
        apply_event_v(state, event).0,
    ensures
        opt_get(apply_event_v(state, event).1, "layout"@) == opt_get(event.get("triad"@), "state"@),
        key != "layout"@ ==> opt_get(apply_event_v(state, event).1, key) == opt_get(state, key),
{
    reveal_strlit("state-changed");
    reveal_strlit("layout-state-changed");
    assert("state-changed"@ != "layout-state-changed"@) by {
        assert("state-changed"@.len() != "layout-state-changed"@.len());
    }
    let m = state->0->Object_0;
    let layout = opt_get(event.get("triad"@), "state"@)->0;
    lemma_member_insert_get(m, "layout"@, layout, "layout"@);
    lemma_member_insert_get(m, "layout"@, layout, key);
}

/// After a window-changed event changed the cache, the first cached window
/// with the event window's id is the event's window, the first window with any
/// other id is as it was, and the other members of the state are as they were.
pub proof fn lemma_window_event_reads_back(state: Option<JsonV>, event: JsonV, other: u64, key: Seq<char>)
    requires
        opt_as_str(opt_get(event.get("triad"@), "event"@)) == Some("window-changed"@),
        apply_event_v(state, event).0,
    ensures
        ({
            let window = opt_get(event.get("triad"@), "window"@)->0;
            let id = opt_as_u64(window.get("id"@))->0;
            let before = opt_get(state, "windows"@)->0->Array_0;
            let after = opt_get(apply_event_v(state, event).1, "windows"@)->0->Array_0;
            &&& opt_get(apply_event_v(state, event).1, "windows"@) is Some
            &&& opt_get(apply_event_v(state, event).1, "windows"@)->0 is Array
            &&& window_get(after, id) == Some(window)
            &&& other != id ==> window_get(after, other) == window_get(before, other)
        }),
        key != "windows"@ ==> opt_get(apply_event_v(state, event).1, key) == opt_get(state, key),
{
    reveal_strlit("state-changed");
    reveal_strlit("layout-state-changed");
    reveal_strlit("window-changed");
    assert("state-changed"@ != "window-changed"@) by {
        assert("state-changed"@.len() != "window-changed"@.len());
    }
    assert("layout-state-changed"@ != "window-changed"@) by {
        assert("layout-state-changed"@.len() != "window-changed"@.len());
    }
    let window = opt_get(event.get("triad"@), "window"@)->0;
    let id = opt_as_u64(window.get("id"@))->0;
    let m = state->0->Object_0;
    let ws = member_get(m, "windows"@)->0->Array_0;
    let updated = JsonV::Array(upsert_window(ws, id, window));
    lemma_member_insert_get(m, "windows"@, updated, "windows"@);
    lemma_member_insert_get(m, "windows"@, updated, key);
    lemma_upsert_window(ws, id, window, other);
}

/// A layout-state-changed event that carries a state always changes a cached
/// object state: afterwards its `layout` member is the event's state, and its
/// other members are as they were.
pub proof fn lemma_layout_event_always_applies(m: Seq<(Seq<char>, JsonV)>, event: JsonV, key: Seq<char>)
    requires
        opt_as_str(opt_get(event.get("triad"@), "event"@)) == Some("layout-state-changed"@),
        opt_get(event.get("triad"@), "state"@) is Some,
    ensures
        apply_event_v(Some(JsonV::Object(m)), event).0,
        opt_get(apply_event_v(Some(JsonV::Object(m)), event).1, "layout"@) == opt_get(
            event.get("triad"@),
            "state"@,
        ),
        key != "layout"@ ==> opt_get(apply_event_v(Some(JsonV::Object(m)), event).1, key) == member_get(
            m,
            key,
        ),
{
    reveal_strlit("state-changed");
    reveal_strlit("layout-state-changed");
    assert("state-changed"@ != "layout-state-changed"@) by {
        assert("state-changed"@.len() != "layout-state-changed"@.len());
    }
    assert(apply_event_v(Some(JsonV::Object(m)), event).0);
    lemma_layout_event_reads_back(Some(JsonV::Object(m)), event, key);
}

/// A window-changed event whose window has an integer id always changes a
/// cached object state whose `windows` member is an array, wherever in the
/// list a window with that id stands: afterwards the first window with that
/// id is the event's window, every other id finds what it found before, the
/// list grows by one exactly when no window had the id, and the state's other
/// members are as they were.
pub proof fn lemma_window_event_always_applies(
    m: Seq<(Seq<char>, JsonV)>,
    ws: Seq<JsonV>,
    event: JsonV,
    other: u64,
    key: Seq<char>,
)
    requires
        opt_as_str(opt_get(event.get("triad"@), "event"@)) == Some("window-changed"@),
        opt_get(event.get("triad"@), "window"@) is Some,
        opt_as_u64(opt_get(event.get("triad"@), "window"@)->0.get("id"@)) is Some,
        member_get(m, "windows"@) == Some(JsonV::Array(ws)),
    ensures
        ({
            let window = opt_get(event.get("triad"@), "window"@)->0;
            let id = opt_as_u64(window.get("id"@))->0;
            let (changed, after) = apply_event_v(Some(JsonV::Object(m)), event);
            &&& changed
            &&& opt_get(after, "windows"@) is Some
            &&& opt_get(after, "windows"@)->0 is Array
            &&& ({
                let ws2 = opt_get(after, "windows"@)->0->Array_0;
                &&& window_get(ws2, id) == Some(window)
                &&& other != id ==> window_get(ws2, other) == window_get(ws, other)
                &&& ws2.len() == ws.len() + if window_get(ws, id) is Some {
                    0int
                } else {
                    1int
                }
            })
            &&& key != "windows"@ ==> opt_get(after, key) == member_get(m, key)
        }),
{
    reveal_strlit("state-changed");
    reveal_strlit("layout-state-changed");
    reveal_strlit("window-changed");
    assert("state-changed"@ != "window-changed"@) by {
        assert("state-changed"@.len() != "window-changed"@.len());
    }
    assert("layout-state-changed"@ != "window-changed"@) by {
        assert("layout-state-changed"@.len() != "window-changed"@.len());
    }
    let state = Some(JsonV::Object(m));
    assert(apply_event_v(state, event).0);
    lemma_window_event_reads_back(state, event, other, key);
    let window = opt_get(event.get("triad"@), "window"@)->0;
    let id = opt_as_u64(window.get("id"@))->0;
    lemma_member_insert_get(m, "windows"@, JsonV::Array(upsert_window(ws, id, window)), "windows"@);
    lemma_upsert_window(ws, id, window, other);
}

/// The position of the first window whose `id` is `id`.
fn find_window(windows: &Vec<Json>, id: u64) -> (r: Option<usize>)
    ensures
        match r {
            Some(j) => window_index(crate::json::items_view(windows@), id) == Some(j as int),
            None => window_index(crate::json::items_view(windows@), id) is None,
        },
{
    let ghost ws = crate::json::items_view(windows@);
    let mut j: usize = 0;
    while j < windows.len()
        invariant
            j <= windows.len(),
            ws == crate::json::items_view(windows@),
            forall|k: int| 0 <= k < j ==> opt_as_u64(#[trigger] ws[k].get("id"@)) != Some(id),
        decreases windows.len() - j,
    {
        let matches = match windows[j].get("id") {
            Some(v) => match v.as_u64() {
                Some(n) => n == id,
                None => false,
            },
            None => false,
        };
        if matches {
            assert(is_first_window(ws, id, j as int));
            return Some(j);
        }
        j += 1;
    }
    None
}

impl Default for TriadState {
    /// An empty cache.
    fn default() -> (r: TriadState)
        ensures
            r@ is None,
    {
        TriadState::new()
    }
}

impl Clone for TriadState {
    fn clone(&self) -> (r: TriadState)
        ensures
            r@ == self@,
    {
        match &self.state {
            Some(s) => TriadState { state: Some(s.deep_clone()) },
            None => TriadState { state: None },
        }
    }
}

impl TriadState {
    pub fn new() -> (r: TriadState)
        ensures
            r@ is None,
    {
        TriadState { state: None }
    }

    /// Replaces the cached state.
    pub fn replace(&mut self, state: Json)
        ensures
            final(self)@ == Some(state@),
    {
        self.state = Some(state);
    }

    /// The cached state, if any.
    pub fn current(&self) -> (r: Option<&Json>)
        ensures
            match r {
                Some(s) => self@ == Some(s@),
                None => self@ is None,
            },
    {
        match &self.state {
            Some(s) => Some(s),
            None => None,
        }
    }

    /// Applies a native event to the cached state; says whether it changed.
    pub fn apply_event(&mut self, event: &Json) -> (changed: bool)
        ensures
            (changed, final(self)@) == apply_event_v(old(self)@, event@),
            opt_wf(old(self)@) && event@.wf() ==> opt_wf(final(self)@),
    {
        proof {
            if opt_wf(self@) && event@.wf() {
                lemma_apply_event_keeps_wf(self@, event@);
            }
        }
        match event_name(event) {
            Some(name) => {
                if str_eq(name, "state-changed") {
                    self.apply_state_changed(event)
                } else if str_eq(name, "layout-state-changed") {
                    self.apply_layout_changed(event)
                } else if str_eq(name, "window-changed") {
                    self.apply_window_changed(event)
                } else {
                    false
                }
            },
            None => false,
        }
    }

    fn apply_state_changed(&mut self, event: &Json) -> (changed: bool)
        ensures
            (changed, final(self)@) == apply_state_changed_v(old(self)@, event@.get("triad"@)),
    {
        let state = match event_payload(event) {
            Some(payload) => match payload.get("state") {
                Some(s) => s,
                None => return false,
            },
            None => return false,
        };
        self.replace(state.deep_clone());
        true
    }

    fn apply_layout_changed(&mut self, event: &Json) -> (changed: bool)
        ensures
            (changed, final(self)@) == apply_layout_changed_v(old(self)@, event@.get("triad"@)),
    {
        let layout = match event_payload(event) {
            Some(payload) => match payload.get("state") {
                Some(l) => l,
                None => return false,
            },
            None => return false,
        };
        match self.state.take() {
            Some(Json::Object(mut members)) => {
                proof {
                    lemma_object_view(members);
                }
                members_insert(&mut members, "layout", layout.deep_clone());
                proof {
                    lemma_object_view(members);
                }
                self.state = Some(Json::Object(members));
                true
            },
            other => {
                self.state = other;
                false
            },
        }
    }

    fn apply_window_changed(&mut self, event: &Json) -> (changed: bool)
        ensures
            (changed, final(self)@) == apply_window_changed_v(old(self)@, event@.get("triad"@)),
    {
        let window = match event_payload(event) {
            Some(payload) => match payload.get("window") {
                Some(w) => w,
                None => return false,
            },
            None => return false,
        };
        let id = match window.get("id") {
            Some(v) => match v.as_u64() {
                Some(n) => n,
                None => return false,
            },
            None => return false,
        };
        match self.state.take() {
            Some(Json::Object(mut members)) => {
                proof {
                    lemma_object_view(members);
                }
                let ghost m = members_view(members@);
                let idx = match crate::json::find_member(&members, "windows") {
                    Some(i) => i,
                    None => {
                        self.state = Some(Json::Object(members));
                        return false;
                    },
                };
                let is_array = match &members[idx].value {
                    Json::Array(_) => true,
                    _ => false,
                };
                if !is_array {
                    self.state = Some(Json::Object(members));
                    return false;
                }
                let Member { key, value } = members.remove(idx);
                match value {
                    Json::Array(mut windows) => {
                        proof {
                            lemma_array_view(windows);
                        }
                        let ghost ws = crate::json::items_view(windows@);
                        let copy = window.deep_clone();
                        match find_window(&windows, id) {
                            Some(j) => {
                                windows.set(j, copy);
                                assert(crate::json::items_view(windows@) =~= ws.update(j as int, window@));
                            },
                            None => {
                                windows.push(copy);
                                assert(crate::json::items_view(windows@) =~= ws.push(window@));
                            },
                        }
                        let updated = Json::Array(windows);
                        proof {
                            lemma_array_view(windows);
                        }
                        members.insert(idx, Member { key, value: updated });
                        proof {
                            assert(members_view(members@) =~= m.update(
                                idx as int,
                                ("windows"@, JsonV::Array(upsert_window(ws, id, window@))),
                            ));
                            lemma_object_view(members);
                        }
                        self.state = Some(Json::Object(members));
                        true
                    },
                    other => {
                        members.insert(idx, Member { key, value: other });
                        self.state = Some(Json::Object(members));
                        false
                    },
                }
            },
            other => {
                self.state = other;
                false
            },
        }
    }
}

} // verus!
