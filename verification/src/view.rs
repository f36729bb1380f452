//! The Eww-facing projection of Triad's state.
use vstd::prelude::*;

use crate::error::{Error, Result};
use crate::json::{
    items_view, keys_distinct, member_get, opt_get, lemma_array_view, lemma_get_wf, lemma_member_get_at, lemma_object_view, members_view,
    opt_as_bool, opt_as_str, opt_as_u64, or_null, Json, JsonV, Member, Number,
};

verus! {

/// How the binary prints state: projected for Eww, or as Triad sent it.
#[derive(Debug, Clone, Copy, PartialEq, Eq, Structural)]
pub enum OutputFormat {
    Eww,
    Raw,
}

/// The state that Eww widgets read: a few fields lifted out of Triad's state,
/// and some of its parts passed on whole.
#[derive(Debug)]
pub struct EwwState {
    pub schema: String,
    pub connected: bool,
    pub triad_state_version: Option<u64>,
    pub active_tag: Option<u64>,
    pub active_workspace_idx: Option<u64>,
    pub focused_window_id: Option<u64>,
    pub capabilities: Json,
    pub workspaces: Json,
    pub windows: Json,
    pub outputs: Json,
    pub layouts: Json,
    pub layout_cycle: Json,
    pub layout_cycle_entries: Json,
    pub overview: Json,
    pub keyboard_layouts: Json,
    pub current_keyboard_layout_idx: Option<u64>,
}

/// The model of an [`EwwState`].
pub struct EwwStateV {
    pub schema: Seq<char>,
    pub connected: bool,
    pub triad_state_version: Option<u64>,
    pub active_tag: Option<u64>,
    pub active_workspace_idx: Option<u64>,
    pub focused_window_id: Option<u64>,
    pub capabilities: JsonV,
    pub workspaces: JsonV,
    pub windows: JsonV,
    pub outputs: JsonV,
    pub layouts: JsonV,
    pub layout_cycle: JsonV,
    pub layout_cycle_entries: JsonV,
    pub overview: JsonV,
    pub keyboard_layouts: JsonV,
    pub current_keyboard_layout_idx: Option<u64>,
}

impl EwwStateV {
    /// Every JSON part of the projection is well formed.
    pub open spec fn wf(self) -> bool {
        &&& self.capabilities.wf()
        &&& self.workspaces.wf()
        &&& self.windows.wf()
        &&& self.outputs.wf()
        &&& self.layouts.wf()
        &&& self.layout_cycle.wf()
        &&& self.layout_cycle_entries.wf()
        &&& self.overview.wf()
        &&& self.keyboard_layouts.wf()
    }
}

impl View for EwwState {
    type V = EwwStateV;

    open spec fn view(&self) -> EwwStateV {
        EwwStateV {
            schema: self.schema@,
            connected: self.connected,
            triad_state_version: self.triad_state_version,
            active_tag: self.active_tag,
            active_workspace_idx: self.active_workspace_idx,
            focused_window_id: self.focused_window_id,
            capabilities: self.capabilities@,
            workspaces: self.workspaces@,
            windows: self.windows@,
            outputs: self.outputs@,
            layouts: self.layouts@,
            layout_cycle: self.layout_cycle@,
            layout_cycle_entries: self.layout_cycle_entries@,
            overview: self.overview@,
            keyboard_layouts: self.keyboard_layouts@,
            current_keyboard_layout_idx: self.current_keyboard_layout_idx,
        }
    }
}

/// The schema name that every projection carries.
pub open spec fn schema_name() -> Seq<char> {
    "eww-triad.v1"@
}

/// A window that is focused and has an integer id.
pub open spec fn focused_id_of(window: JsonV) -> Option<u64> {
    if opt_as_bool(window.get("is_focused"@)) == Some(true) {
        opt_as_u64(window.get("id"@))
    } else {
        None
    }
}

/// `j` is the first position of a focused window with an integer id.
pub open spec fn is_first_focused(windows: Seq<JsonV>, j: int) -> bool {
    &&& 0 <= j < windows.len()
    &&& focused_id_of(windows[j]) is Some
    &&& forall|k: int| 0 <= k < j ==> focused_id_of(#[trigger] windows[k]) is None
}

/// The id of the first focused window in a window list.
pub open spec fn focused_window_id_v(windows: JsonV) -> Option<u64> {
    match windows {
        JsonV::Array(ws) => if exists|j: int| is_first_focused(ws, j) {
            focused_id_of(ws[choose|j: int| is_first_focused(ws, j)])
        } else {
            None
        },
        _ => None,
    }
}

/// The projection of a Triad state.
pub open spec fn eww_state_v(state: JsonV) -> EwwStateV {
    let layout = or_null(state.get("layout"@));
    let windows = or_null(state.get("windows"@));
    EwwStateV {
        schema: schema_name(),
        connected: true,
        triad_state_version: opt_as_u64(state.get("version"@)),
        active_tag: opt_as_u64(layout.get("active_tag"@)),
        active_workspace_idx: opt_as_u64(layout.get("active_workspace_idx"@)),
        focused_window_id: focused_window_id_v(windows),
        capabilities: or_null(state.get("capabilities"@)),
        workspaces: or_null(layout.get("workspaces"@)),
        windows: windows,
        outputs: or_null(state.get("outputs"@)),
        layouts: or_null(layout.get("layouts"@)),
        layout_cycle: or_null(layout.get("layout_cycle"@)),
        layout_cycle_entries: or_null(layout.get("layout_cycle_entries"@)),
        overview: or_null(state.get("overview"@)),
        keyboard_layouts: or_null(state.get("keyboard_layouts"@)),
        current_keyboard_layout_idx: opt_as_u64(state.get("current_keyboard_layout_idx"@)),
    }
}

/// The projection that stands for a lost connection.
pub open spec fn disconnected_eww_state_v() -> EwwStateV {
    EwwStateV {
        schema: schema_name(),
        connected: false,
        triad_state_version: None,
        active_tag: None,
        active_workspace_idx: None,
        focused_window_id: None,
        capabilities: JsonV::Object(Seq::empty()),
        workspaces: JsonV::Array(Seq::empty()),
        windows: JsonV::Array(Seq::empty()),
        outputs: JsonV::Array(Seq::empty()),
        layouts: JsonV::Array(Seq::empty()),
        layout_cycle: JsonV::Array(Seq::empty()),
        layout_cycle_entries: JsonV::Array(Seq::empty()),
        overview: JsonV::Object(Seq::empty()),
        keyboard_layouts: JsonV::Array(Seq::empty()),
        current_keyboard_layout_idx: None,
    }
}

/// An optional integer as JSON: the integer, or `null`.
pub open spec fn opt_u64_v(o: Option<u64>) -> JsonV {
    match o {
        Some(n) => JsonV::Int(n as int),
        None => JsonV::Null,
    }
}

/// The JSON object that an [`EwwState`] is printed as, one member per field.
pub open spec fn eww_state_json_v(e: EwwStateV) -> JsonV {
    JsonV::Object(
        seq![
            ("schema"@, JsonV::Str(e.schema)),
            ("connected"@, JsonV::Bool(e.connected)),
            ("triad_state_version"@, opt_u64_v(e.triad_state_version)),
            ("active_tag"@, opt_u64_v(e.active_tag)),
            ("active_workspace_idx"@, opt_u64_v(e.active_workspace_idx)),
            ("focused_window_id"@, opt_u64_v(e.focused_window_id)),
            ("capabilities"@, e.capabilities),
            ("workspaces"@, e.workspaces),
            ("windows"@, e.windows),
            ("outputs"@, e.outputs),
            ("layouts"@, e.layouts),
            ("layout_cycle"@, e.layout_cycle),
            ("layout_cycle_entries"@, e.layout_cycle_entries),
            ("overview"@, e.overview),
            ("keyboard_layouts"@, e.keyboard_layouts),
            ("current_keyboard_layout_idx"@, opt_u64_v(e.current_keyboard_layout_idx)),
        ],
    )
}

/// The member names of a JSON object.
pub open spec fn member_names(v: JsonV) -> Seq<Seq<char>> {
    match v {
        JsonV::Object(m) => m.map_values(|p: (Seq<char>, JsonV)| p.0),
        _ => Seq::empty(),
    }
}

/// Every projection is printed with the same members in the same order, so a
/// lost connection keeps the shape that widgets read.
pub proof fn lemma_eww_state_shape(a: EwwStateV, b: EwwStateV)
    ensures
        member_names(eww_state_json_v(a)) == member_names(eww_state_json_v(b)),
{
    assert(member_names(eww_state_json_v(a)) =~= member_names(eww_state_json_v(b)));
}

/// A projection of Triad state is connected and carries the schema name; the
/// projection for a lost connection is not connected and carries the same name.
pub proof fn lemma_connected_flag(state: JsonV)
    ensures
        eww_state_v(state).connected,
        eww_state_v(state).schema == schema_name(),
        !disconnected_eww_state_v().connected,
        disconnected_eww_state_v().schema == schema_name(),
{
}

/// The printed projection's members have distinct names.
proof fn lemma_eww_fields_distinct(e: EwwStateV)
    ensures
        keys_distinct(eww_state_json_v(e)->Object_0),
{
    reveal_strlit("schema");
    reveal_strlit("connected");
    reveal_strlit("triad_state_version");
    reveal_strlit("active_tag");
    reveal_strlit("active_workspace_idx");
    reveal_strlit("focused_window_id");
    reveal_strlit("capabilities");
    reveal_strlit("workspaces");
    reveal_strlit("windows");
    reveal_strlit("outputs");
    reveal_strlit("layouts");
    reveal_strlit("layout_cycle");
    reveal_strlit("layout_cycle_entries");
    reveal_strlit("overview");
    reveal_strlit("keyboard_layouts");
    reveal_strlit("current_keyboard_layout_idx");
    let m = eww_state_json_v(e)->Object_0;
    assert forall|i: int, j: int| 0 <= i < j < m.len() implies #[trigger] m[i].0 != #[trigger] m[j].0 by {
        assert(m[i].0.len() != m[j].0.len() || m[i].0[0] != m[j].0[0]);
    }
}

/// The projection of a well-formed state is well formed.
proof fn lemma_eww_state_wf(state: JsonV)
    requires
        state.wf(),
    ensures
        eww_state_v(state).wf(),
{
    lemma_get_wf(state, "layout"@);
    lemma_get_wf(state, "windows"@);
    lemma_get_wf(state, "capabilities"@);
    lemma_get_wf(state, "outputs"@);
    lemma_get_wf(state, "overview"@);
    lemma_get_wf(state, "keyboard_layouts"@);
    let layout = or_null(state.get("layout"@));
    lemma_get_wf(layout, "workspaces"@);
    lemma_get_wf(layout, "layouts"@);
    lemma_get_wf(layout, "layout_cycle"@);
    lemma_get_wf(layout, "layout_cycle_entries"@);
}

/// A well-formed projection prints as a well-formed object.
proof fn lemma_eww_state_json_wf(e: EwwStateV)
    requires
        e.wf(),
    ensures
        eww_state_json_v(e).wf(),
{
    lemma_eww_fields_distinct(e);
    let m = eww_state_json_v(e)->Object_0;
    assert forall|i: int| 0 <= i < m.len() implies (#[trigger] m[i]).1.wf() by {
        assert(0 <= i < 16);
    }
}

/// An optional integer field as a printed projection holds it: absent or
/// `null` is `None`, an integer in range is that integer; any other value is
/// refused (the outer `None`).
pub open spec fn opt_u64_field_v(o: Option<JsonV>) -> Option<Option<u64>> {
    match o {
        None => Some(None),
        Some(JsonV::Null) => Some(None),
        Some(JsonV::Int(n)) => if 0 <= n <= u64::MAX {
            Some(Some(n as u64))
        } else {
            None
        },
        _ => None,
    }
}

/// The projection that a JSON value holds in its printed form: an object
/// whose `schema` is a string, whose `connected` is a boolean, whose integer
/// fields are each absent, `null` or an integer in range, and that has every
/// other field (of any value). Other members are ignored.
pub open spec fn eww_state_from_json_v(v: JsonV) -> Option<EwwStateV> {
    let schema = opt_as_str(v.get("schema"@));
    let connected = opt_as_bool(v.get("connected"@));
    let version = opt_u64_field_v(v.get("triad_state_version"@));
    let tag = opt_u64_field_v(v.get("active_tag"@));
    let workspace_idx = opt_u64_field_v(v.get("active_workspace_idx"@));
    let focused = opt_u64_field_v(v.get("focused_window_id"@));
    let keyboard_idx = opt_u64_field_v(v.get("current_keyboard_layout_idx"@));
    let capabilities = v.get("capabilities"@);
    let workspaces = v.get("workspaces"@);
    let windows = v.get("windows"@);
    let outputs = v.get("outputs"@);
    let layouts = v.get("layouts"@);
    let layout_cycle = v.get("layout_cycle"@);
    let layout_cycle_entries = v.get("layout_cycle_entries"@);
    let overview = v.get("overview"@);
    let keyboard_layouts = v.get("keyboard_layouts"@);
    if schema is Some && connected is Some && version is Some && tag is Some && workspace_idx is Some
        && focused is Some && keyboard_idx is Some && capabilities is Some && workspaces is Some
        && windows is Some && outputs is Some && layouts is Some && layout_cycle is Some
        && layout_cycle_entries is Some && overview is Some && keyboard_layouts is Some {
        Some(
            EwwStateV {
                schema: schema->0,
                connected: connected->0,
                triad_state_version: version->0,
                active_tag: tag->0,
                active_workspace_idx: workspace_idx->0,
                focused_window_id: focused->0,
                capabilities: capabilities->0,
                workspaces: workspaces->0,
                windows: windows->0,
                outputs: outputs->0,
                layouts: layouts->0,
                layout_cycle: layout_cycle->0,
                layout_cycle_entries: layout_cycle_entries->0,
                overview: overview->0,
                keyboard_layouts: keyboard_layouts->0,
                current_keyboard_layout_idx: keyboard_idx->0,
            },
        )
    } else {
        None
    }
}

/// A projection printed as JSON reads back as itself: what
/// [`EwwState::to_json`] writes, [`EwwState::from_json`] gives back unchanged.
pub proof fn lemma_eww_state_json_round_trip(e: EwwStateV)
    ensures
        eww_state_from_json_v(eww_state_json_v(e)) == Some(e),
{
    lemma_eww_fields_distinct(e);
    let m = eww_state_json_v(e)->Object_0;
    lemma_member_get_at(m, 0);
    lemma_member_get_at(m, 1);
    lemma_member_get_at(m, 2);
    lemma_member_get_at(m, 3);
    lemma_member_get_at(m, 4);
    lemma_member_get_at(m, 5);
    lemma_member_get_at(m, 6);
    lemma_member_get_at(m, 7);
    lemma_member_get_at(m, 8);
    lemma_member_get_at(m, 9);
    lemma_member_get_at(m, 10);
    lemma_member_get_at(m, 11);
    lemma_member_get_at(m, 12);
    lemma_member_get_at(m, 13);
    lemma_member_get_at(m, 14);
    lemma_member_get_at(m, 15);
}

/// Each member of a printed projection that Triad's state supplies is the
/// state's member of the same name, taken from the state itself or from its
/// `layout` object (`null` where that member is absent; an integer member only
/// where it is an integer in range); the state's `version` becomes
/// `triad_state_version`, and a projection of state is always connected.
pub proof fn lemma_eww_state_members_come_from_state(state: JsonV, k: Seq<char>)
    ensures
        ({
            let printed = eww_state_json_v(eww_state_v(state))->Object_0;
            let layout = state.get("layout"@);
            &&& (k == "capabilities"@ || k == "windows"@ || k == "outputs"@ || k == "overview"@
                || k == "keyboard_layouts"@) ==> member_get(printed, k) == Some(or_null(state.get(k)))
            &&& (k == "workspaces"@ || k == "layouts"@ || k == "layout_cycle"@ || k
                == "layout_cycle_entries"@) ==> member_get(printed, k) == Some(or_null(opt_get(layout, k)))
            &&& (k == "active_tag"@ || k == "active_workspace_idx"@) ==> member_get(printed, k) == Some(
                opt_u64_v(opt_as_u64(opt_get(layout, k))),
            )
            &&& k == "current_keyboard_layout_idx"@ ==> member_get(printed, k) == Some(
                opt_u64_v(opt_as_u64(state.get(k))),
            )
            &&& member_get(printed, "triad_state_version"@) == Some(
                opt_u64_v(opt_as_u64(state.get("version"@))),
            )
            &&& member_get(printed, "connected"@) == Some(JsonV::Bool(true))
            &&& member_get(printed, "schema"@) == Some(JsonV::Str("eww-triad.v1"@))
        }),
{
    let e = eww_state_v(state);
    lemma_eww_fields_distinct(e);
    let m = eww_state_json_v(e)->Object_0;
    lemma_member_get_at(m, 0);
    lemma_member_get_at(m, 1);
    lemma_member_get_at(m, 2);
    lemma_member_get_at(m, 3);
    lemma_member_get_at(m, 4);
    lemma_member_get_at(m, 5);
    lemma_member_get_at(m, 6);
    lemma_member_get_at(m, 7);
    lemma_member_get_at(m, 8);
    lemma_member_get_at(m, 9);
    lemma_member_get_at(m, 10);
    lemma_member_get_at(m, 11);
    lemma_member_get_at(m, 12);
    lemma_member_get_at(m, 13);
    lemma_member_get_at(m, 14);
    lemma_member_get_at(m, 15);
}

/// The state that stands for a lost connection, in the form in which the
/// state stream emits it, says it is not connected and reads back as the
/// disconnected projection.
pub proof fn lemma_disconnected_state_reads_back()
    ensures
        opt_as_bool(eww_state_json_v(disconnected_eww_state_v()).get("connected"@)) == Some(false),
        eww_state_from_json_v(eww_state_json_v(disconnected_eww_state_v())) == Some(
            disconnected_eww_state_v(),
        ),
{
    lemma_eww_fields_distinct(disconnected_eww_state_v());
    lemma_member_get_at(eww_state_json_v(disconnected_eww_state_v())->Object_0, 1);
    lemma_eww_state_json_round_trip(disconnected_eww_state_v());
}

/// How a refused field is reported.
pub open spec fn field_error_v(name: Seq<char>) -> Seq<char> {
    "missing or invalid field `"@ + name + "`"@
}

/// Why a JSON value holds no projection: it is not an object, or the first
/// field, in the order of [`EwwState`]'s fields, that is missing or of the
/// wrong kind.
pub open spec fn eww_state_error_v(v: JsonV) -> Seq<char> {
    if !(v is Object) {
        "invalid type: expected an Eww state object"@
    } else if opt_as_str(v.get("schema"@)) is None {
        field_error_v("schema"@)
    } else if opt_as_bool(v.get("connected"@)) is None {
        field_error_v("connected"@)
    } else if opt_u64_field_v(v.get("triad_state_version"@)) is None {
        field_error_v("triad_state_version"@)
    } else if opt_u64_field_v(v.get("active_tag"@)) is None {
        field_error_v("active_tag"@)
    } else if opt_u64_field_v(v.get("active_workspace_idx"@)) is None {
        field_error_v("active_workspace_idx"@)
    } else if opt_u64_field_v(v.get("focused_window_id"@)) is None {
        field_error_v("focused_window_id"@)
    } else if v.get("capabilities"@) is None {
        field_error_v("capabilities"@)
    } else if v.get("workspaces"@) is None {
        field_error_v("workspaces"@)
    } else if v.get("windows"@) is None {
        field_error_v("windows"@)
    } else if v.get("outputs"@) is None {
        field_error_v("outputs"@)
    } else if v.get("layouts"@) is None {
        field_error_v("layouts"@)
    } else if v.get("layout_cycle"@) is None {
        field_error_v("layout_cycle"@)
    } else if v.get("layout_cycle_entries"@) is None {
        field_error_v("layout_cycle_entries"@)
    } else if v.get("overview"@) is None {
        field_error_v("overview"@)
    } else if v.get("keyboard_layouts"@) is None {
        field_error_v("keyboard_layouts"@)
    } else {
        field_error_v("current_keyboard_layout_idx"@)
    }
}

/// The error for a field that is missing or of the wrong kind.
fn field_error(name: &str) -> (e: Error)
    ensures
        e matches Error::Json(s) && s@ == field_error_v(name@),
{
    let mut text = crate::text::concat_str("missing or invalid field `", name);
    text.append("`");
    Error::Json(text)
}

/// An optional integer field (see [`opt_u64_field_v`]).
fn opt_u64_field(value: &Json, name: &str) -> (r: Result<Option<u64>>)
    ensures
        match opt_u64_field_v(value@.get(name@)) {
            Some(x) => r matches Ok(y) && y == x,
            None => r matches Err(e) && e matches Error::Json(s) && s@ == field_error_v(name@),
        },
{
    match value.get(name) {
        None => Ok(None),
        Some(Json::Null) => Ok(None),
        Some(Json::Number(Number::PosInt(n))) => Ok(Some(*n)),
        Some(Json::Number(Number::NegInt(n))) => if *n >= 0 {
            Ok(Some(*n as u64))
        } else {
            Err(field_error(name))
        },
        _ => Err(field_error(name)),
    }
}

/// A field that must be present, copied.
fn required_field(value: &Json, name: &str) -> (r: Result<Json>)
    ensures
        match value@.get(name@) {
            Some(v) => r matches Ok(x) && x@ == v,
            None => r matches Err(e) && e matches Error::Json(s) && s@ == field_error_v(name@),
        },
{
    match value.get(name) {
        Some(v) => Ok(v.deep_clone()),
        None => Err(field_error(name)),
    }
}

fn or_null_clone(o: Option<&Json>) -> (r: Json)
    ensures
        r@ == or_null(
            match o {
                Some(v) => Some(v@),
                None => None,
            },
        ),
{
    match o {
        Some(v) => v.deep_clone(),
        None => Json::Null,
    }
}

fn opt_u64_of(o: Option<&Json>) -> (r: Option<u64>)
    ensures
        r == opt_as_u64(
            match o {
                Some(v) => Some(v@),
                None => None,
            },
        ),
{
    match o {
        Some(v) => v.as_u64(),
        None => None,
    }
}

fn opt_u64_json(o: Option<u64>) -> (r: Json)
    ensures
        r@ == opt_u64_v(o),
{
    match o {
        Some(n) => Json::from_u64(n),
        None => Json::Null,
    }
}

/// The id of the first window that is focused and has an integer id.
fn focused_window_id(windows: &Json) -> (r: Option<u64>)
    ensures
        r == focused_window_id_v(windows@),
{
    match windows {
        Json::Array(ws) => {
            proof {
                lemma_array_view(*ws);
            }
            let ghost wv = items_view(ws@);
            let mut j: usize = 0;
            while j < ws.len()
                invariant
                    j <= ws.len(),
                    wv == items_view(ws@),
                    windows@ == JsonV::Array(wv),
                    forall|k: int| 0 <= k < j ==> focused_id_of(#[trigger] wv[k]) is None,
                decreases ws.len() - j,
            {
                let w = &ws[j];
                let focused = match w.get("is_focused") {
                    Some(f) => match f.as_bool() {
                        Some(b) => b,
                        None => false,
                    },
                    None => false,
                };
                if focused {
                    let id = opt_u64_of(w.get("id"));
                    if id.is_some() {
                        assert(wv[j as int] == w@);
                        assert(focused_id_of(wv[j as int]) == id);
                        assert(is_first_focused(wv, j as int));
                        let ghost c = choose|c: int| is_first_focused(wv, c);
                        assert(c == j as int) by {
                            if c < j as int {
                                assert(focused_id_of(wv[c]) is None);
                            }
                            if c > j as int {
                                assert(focused_id_of(wv[j as int]) is None);
                            }
                        }
                        return id;
                    }
                }
                j += 1;
            }
            None
        },
        _ => None,
    }
}

/// The Eww projection of a Triad state.
pub fn eww_state(state: &Json) -> (r: EwwState)
    ensures
        r@ == eww_state_v(state@),
        state@.wf() ==> r@.wf(),
{
    proof {
        if state@.wf() {
            lemma_eww_state_wf(state@);
        }
    }
    let null = Json::Null;
    let layout = match state.get("layout") {
        Some(l) => l,
        None => &null,
    };
    let windows = match state.get("windows") {
        Some(w) => w,
        None => &null,
    };
    EwwState {
        schema: String::from_str("eww-triad.v1"),
        connected: true,
        triad_state_version: opt_u64_of(state.get("version")),
        active_tag: opt_u64_of(layout.get("active_tag")),
        active_workspace_idx: opt_u64_of(layout.get("active_workspace_idx")),
        focused_window_id: focused_window_id(windows),
        capabilities: or_null_clone(state.get("capabilities")),
        workspaces: or_null_clone(layout.get("workspaces")),
        windows: windows.deep_clone(),
        outputs: or_null_clone(state.get("outputs")),
        layouts: or_null_clone(layout.get("layouts")),
        layout_cycle: or_null_clone(layout.get("layout_cycle")),
        layout_cycle_entries: or_null_clone(layout.get("layout_cycle_entries")),
        overview: or_null_clone(state.get("overview")),
        keyboard_layouts: or_null_clone(state.get("keyboard_layouts")),
        current_keyboard_layout_idx: opt_u64_of(state.get("current_keyboard_layout_idx")),
    }
}

/// The projection that stands for a lost connection.
pub fn disconnected_eww_state() -> (r: EwwState)
    ensures
        r@ == disconnected_eww_state_v(),
{
    EwwState {
        schema: String::from_str("eww-triad.v1"),
        connected: false,
        triad_state_version: None,
        active_tag: None,
        active_workspace_idx: None,
        focused_window_id: None,
        capabilities: Json::empty_object(),
        workspaces: Json::empty_array(),
        windows: Json::empty_array(),
        outputs: Json::empty_array(),
        layouts: Json::empty_array(),
        layout_cycle: Json::empty_array(),
        layout_cycle_entries: Json::empty_array(),
        overview: Json::empty_object(),
        keyboard_layouts: Json::empty_array(),
        current_keyboard_layout_idx: None,
    }
}

impl EwwState {
    /// This projection as a JSON object, one member per field, in field order.
    pub fn to_json(&self) -> (r: Json)
        ensures
            r@ == eww_state_json_v(self@),
            self@.wf() ==> r@.wf(),
    {
        proof {
            if self@.wf() {
                lemma_eww_state_json_wf(self@);
            }
        }
        let mut m: Vec<Member> = Vec::new();
        m.push(Member::new("schema", Json::Str(self.schema.clone())));
        m.push(Member::new("connected", Json::Bool(self.connected)));
        m.push(Member::new("triad_state_version", opt_u64_json(self.triad_state_version)));
        m.push(Member::new("active_tag", opt_u64_json(self.active_tag)));
        m.push(Member::new("active_workspace_idx", opt_u64_json(self.active_workspace_idx)));
        m.push(Member::new("focused_window_id", opt_u64_json(self.focused_window_id)));
        m.push(Member::new("capabilities", self.capabilities.deep_clone()));
        m.push(Member::new("workspaces", self.workspaces.deep_clone()));
        m.push(Member::new("windows", self.windows.deep_clone()));
        m.push(Member::new("outputs", self.outputs.deep_clone()));
        m.push(Member::new("layouts", self.layouts.deep_clone()));
        m.push(Member::new("layout_cycle", self.layout_cycle.deep_clone()));
        m.push(Member::new("layout_cycle_entries", self.layout_cycle_entries.deep_clone()));
        m.push(Member::new("overview", self.overview.deep_clone()));
        m.push(Member::new("keyboard_layouts", self.keyboard_layouts.deep_clone()));
        m.push(
            Member::new(
                "current_keyboard_layout_idx",
                opt_u64_json(self.current_keyboard_layout_idx),
            ),
        );
        proof {
            lemma_object_view(m);
            assert(members_view(m@) =~= eww_state_json_v(self@)->Object_0);
        }
        Json::Object(m)
    }
}

impl EwwState {
    /// The projection that a JSON value holds in its printed form (see
    /// [`eww_state_from_json_v`]).
    pub fn from_json(value: &Json) -> (r: Result<EwwState>)
        ensures
            match eww_state_from_json_v(value@) {
                Some(e) => r matches Ok(x) && x@ == e,
                None => r matches Err(err) && err matches Error::Json(s) && s@ == eww_state_error_v(value@),
            },
    {
        if !value.is_object() {
            return Err(Error::Json(String::from_str("invalid type: expected an Eww state object")));
        }
        let schema = match value.get("schema") {
            Some(v) => match v.as_str() {
                Some(t) => String::from_str(t),
                None => return Err(field_error("schema")),
            },
            None => return Err(field_error("schema")),
        };
        let connected = match value.get("connected") {
            Some(v) => match v.as_bool() {
                Some(b) => b,
                None => return Err(field_error("connected")),
            },
            None => return Err(field_error("connected")),
        };
        let triad_state_version = opt_u64_field(value, "triad_state_version")?;
        let active_tag = opt_u64_field(value, "active_tag")?;
        let active_workspace_idx = opt_u64_field(value, "active_workspace_idx")?;
        let focused_window_id = opt_u64_field(value, "focused_window_id")?;
        let capabilities = required_field(value, "capabilities")?;
        let workspaces = required_field(value, "workspaces")?;
        let windows = required_field(value, "windows")?;
        let outputs = required_field(value, "outputs")?;
        let layouts = required_field(value, "layouts")?;
        let layout_cycle = required_field(value, "layout_cycle")?;
        let layout_cycle_entries = required_field(value, "layout_cycle_entries")?;
        let overview = required_field(value, "overview")?;
        let keyboard_layouts = required_field(value, "keyboard_layouts")?;
        let current_keyboard_layout_idx = opt_u64_field(value, "current_keyboard_layout_idx")?;
        Ok(
            EwwState {
                schema,
                connected,
                triad_state_version,
                active_tag,
                active_workspace_idx,
                focused_window_id,
                capabilities,
                workspaces,
                windows,
                outputs,
                layouts,
                layout_cycle,
                layout_cycle_entries,
                overview,
                keyboard_layouts,
                current_keyboard_layout_idx,
            },
        )
    }
}

/// The JSON object that stands for a lost connection.
pub fn disconnected_state() -> (r: Json)
    ensures
        r@ == eww_state_json_v(disconnected_eww_state_v()),
        r@.wf(),
{
    let d = disconnected_eww_state();
    assert(d@.wf());
    d.to_json()
}

impl Clone for EwwState {
    fn clone(&self) -> (r: EwwState)
        ensures
            r@ == self@,
    {
        EwwState {
            schema: self.schema.clone(),
            connected: self.connected,
            triad_state_version: self.triad_state_version,
            active_tag: self.active_tag,
            active_workspace_idx: self.active_workspace_idx,
            focused_window_id: self.focused_window_id,
            capabilities: self.capabilities.deep_clone(),
            workspaces: self.workspaces.deep_clone(),
            windows: self.windows.deep_clone(),
            outputs: self.outputs.deep_clone(),
            layouts: self.layouts.deep_clone(),
            layout_cycle: self.layout_cycle.deep_clone(),
            layout_cycle_entries: self.layout_cycle_entries.deep_clone(),
            overview: self.overview.deep_clone(),
            keyboard_layouts: self.keyboard_layouts.deep_clone(),
            current_keyboard_layout_idx: self.current_keyboard_layout_idx,
        }
    }
}

} // verus!
