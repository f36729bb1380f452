//! The JSON values that travel over Triad's socket, and their model.
use vstd::prelude::*;

use crate::text::str_eq;
use serde_json::Value;

verus! {

broadcast use vstd::std_specs::vec::group_vec_axioms;

/// A JSON number: a non-negative integer, a negative integer, or any other
/// number, kept as the text that denotes it.
#[derive(Debug, PartialEq)]
pub enum Number {
    PosInt(u64),
    NegInt(i64),
    Float(String),
}

/// One `"key": value` member of a JSON object.
#[derive(Debug, PartialEq)]
pub struct Member {
    pub key: String,
    pub value: Json,
}

/// A JSON value. An object keeps its members in order.
#[derive(Debug, PartialEq)]
pub enum Json {
    Null,
    Bool(bool),
    Number(Number),
    Str(String),
    Array(Vec<Json>),
    Object(Vec<Member>),
}

/// The mathematical model of a JSON value: strings are sequences of characters,
/// integers are mathematical integers.
pub enum JsonV {
    Null,
    Bool(bool),
    Int(int),
    Float(Seq<char>),
    Str(Seq<char>),
    Array(Seq<JsonV>),
    Object(Seq<(Seq<char>, JsonV)>),
}

impl Json {
    pub open spec fn view_of(self) -> JsonV
        decreases self,
    {
        match self {
            Json::Null => JsonV::Null,
            Json::Bool(b) => JsonV::Bool(b),
            Json::Number(Number::PosInt(n)) => JsonV::Int(n as int),
            Json::Number(Number::NegInt(n)) => JsonV::Int(n as int),
            Json::Number(Number::Float(t)) => JsonV::Float(t@),
            Json::Str(s) => JsonV::Str(s@),
            Json::Array(items) => JsonV::Array(
                Seq::new(
                    items@.len(),
                    |i: int|
                        if 0 <= i < items@.len() {
                            items@[i].view_of()
                        } else {
                            JsonV::Null
                        },
                ),
            ),
            Json::Object(members) => JsonV::Object(
                Seq::new(
                    members@.len(),
                    |i: int|
                        if 0 <= i < members@.len() {
                            (members@[i].key@, members@[i].value.view_of())
                        } else {
                            (Seq::empty(), JsonV::Null)
                        },
                ),
            ),
        }
    }
}

impl View for Json {
    type V = JsonV;

    open spec fn view(&self) -> JsonV {
        self.view_of()
    }
}

/// The model of a sequence of values.
pub open spec fn items_view(items: Seq<Json>) -> Seq<JsonV> {
    Seq::new(items.len(), |i: int| items[i]@)
}

/// The model of a sequence of object members.
pub open spec fn members_view(members: Seq<Member>) -> Seq<(Seq<char>, JsonV)> {
    Seq::new(members.len(), |i: int| (members[i].key@, members[i].value@))
}

/// `i` is the first position of a member named `k`.
pub open spec fn is_first_key(m: Seq<(Seq<char>, JsonV)>, k: Seq<char>, i: int) -> bool {
    &&& 0 <= i < m.len()
    &&& m[i].0 == k
    &&& forall|j: int| 0 <= j < i ==> m[j].0 != k
}

/// The position of the first member named `k`, if there is one.
pub open spec fn key_index(m: Seq<(Seq<char>, JsonV)>, k: Seq<char>) -> Option<int> {
    if exists|i: int| is_first_key(m, k, i) {
        Some(choose|i: int| is_first_key(m, k, i))
    } else {
        None
    }
}

/// The value of the member named `k` (the first one, should there be several).
pub open spec fn member_get(m: Seq<(Seq<char>, JsonV)>, k: Seq<char>) -> Option<JsonV> {
    match key_index(m, k) {
        Some(i) => Some(m[i].1),
        None => None,
    }
}

/// The members after setting `k` to `v`: a member named `k` keeps its place and
/// takes the new value; otherwise the member is added at the end.
pub open spec fn member_insert(m: Seq<(Seq<char>, JsonV)>, k: Seq<char>, v: JsonV) -> Seq<(Seq<char>, JsonV)> {
    match key_index(m, k) {
        Some(i) => m.update(i, (k, v)),
        None => m.push((k, v)),
    }
}

/// No two members share a name.
pub open spec fn keys_distinct(m: Seq<(Seq<char>, JsonV)>) -> bool {
    forall|i: int, j: int| 0 <= i < j < m.len() ==> #[trigger] m[i].0 != #[trigger] m[j].0
}

/// Members with distinct names and well-formed values.
pub open spec fn members_wf(m: Seq<(Seq<char>, JsonV)>) -> bool {
    keys_distinct(m) && forall|i: int| 0 <= i < m.len() ==> (#[trigger] m[i]).1.wf()
}

impl JsonV {
    /// A well-formed value: no object, however deep, has two members of the
    /// same name (as in every JSON object that Triad sends).
    pub open spec fn wf(self) -> bool
        decreases self,
    {
        match self {
            JsonV::Array(s) => forall|i: int| #![trigger s[i]] 0 <= i < s.len() ==> s[i].wf(),
            JsonV::Object(m) => keys_distinct(m) && forall|i: int| 0 <= i < m.len() ==> (#[trigger] m[i]).1.wf(),
            _ => true,
        }
    }

    /// The value of member `k` of an object; `None` for a non-object.
    pub open spec fn get(self, k: Seq<char>) -> Option<JsonV> {
        match self {
            JsonV::Object(m) => member_get(m, k),
            _ => None,
        }
    }

    pub open spec fn as_u64(self) -> Option<u64> {
        match self {
            JsonV::Int(n) => if 0 <= n <= u64::MAX {
                Some(n as u64)
            } else {
                None
            },
            _ => None,
        }
    }

    pub open spec fn as_bool(self) -> Option<bool> {
        match self {
            JsonV::Bool(b) => Some(b),
            _ => None,
        }
    }

    pub open spec fn as_str(self) -> Option<Seq<char>> {
        match self {
            JsonV::Str(s) => Some(s),
            _ => None,
        }
    }
}

/// `o.get(k)` for an optional value.
pub open spec fn opt_get(o: Option<JsonV>, k: Seq<char>) -> Option<JsonV> {
    match o {
        Some(v) => v.get(k),
        None => None,
    }
}

pub open spec fn opt_as_u64(o: Option<JsonV>) -> Option<u64> {
    match o {
        Some(v) => v.as_u64(),
        None => None,
    }
}

pub open spec fn opt_as_bool(o: Option<JsonV>) -> Option<bool> {
    match o {
        Some(v) => v.as_bool(),
        None => None,
    }
}

pub open spec fn opt_as_str(o: Option<JsonV>) -> Option<Seq<char>> {
    match o {
        Some(v) => v.as_str(),
        None => None,
    }
}

/// The value, or `null` when there is none.
pub open spec fn or_null(o: Option<JsonV>) -> JsonV {
    match o {
        Some(v) => v,
        None => JsonV::Null,
    }
}

/// Reading a member after setting it gives the value set; reading another
/// member gives what it was before.
pub proof fn lemma_member_insert_get(m: Seq<(Seq<char>, JsonV)>, k: Seq<char>, v: JsonV, k2: Seq<char>)
    ensures
        member_get(member_insert(m, k, v), k2) == if k2 == k {
            Some(v)
        } else {
            member_get(m, k2)
        },
{
    let m2 = member_insert(m, k, v);
    match key_index(m, k) {
        Some(i) => {
            assert(is_first_key(m, k, i));
            assert(m2 == m.update(i, (k, v)));
            if k2 == k {
                assert(is_first_key(m2, k, i));
                let c = choose|c: int| is_first_key(m2, k, c);
                assert(c == i) by {
                    if c < i {
                        assert(m2[c].0 != k);
                    }
                    if c > i {
                        assert(m2[i].0 != k);
                    }
                }
            } else {
                assert forall|j: int| is_first_key(m2, k2, j) <==> is_first_key(m, k2, j) by {
                    if 0 <= j < m.len() {
                        assert forall|l: int| 0 <= l < j implies (m2[l].0 != k2 <==> m[l].0 != k2) by {
                            if l == i {
                                assert(m2[l].0 == k);
                            }
                        }
                    }
                }
                if exists|j: int| is_first_key(m, k2, j) {
                    let c1 = choose|j: int| is_first_key(m, k2, j);
                    let c2 = choose|j: int| is_first_key(m2, k2, j);
                    assert(is_first_key(m, k2, c2));
                    assert(c1 == c2) by {
                        if c1 < c2 {
                            assert(m[c1].0 != k2);
                        }
                        if c2 < c1 {
                            assert(m[c2].0 != k2);
                        }
                    }
                }
            }
        },
        None => {
            assert(m2 == m.push((k, v)));
            assert(forall|j: int| 0 <= j < m.len() ==> m[j].0 != k) by {
                if exists|j: int| 0 <= j < m.len() && m[j].0 == k {
                    let j0 = choose|j: int| 0 <= j < m.len() && m[j].0 == k;
                    lemma_first_key_exists(m, k, j0);
                }
            }
            if k2 == k {
                assert(is_first_key(m2, k, m.len() as int));
                let c = choose|c: int| is_first_key(m2, k, c);
                assert(c == m.len() as int) by {
                    if c < m.len() {
                        assert(m2[c].0 == m[c].0);
                    }
                }
            } else {
                assert forall|j: int| is_first_key(m2, k2, j) <==> is_first_key(m, k2, j) by {
                    if 0 <= j < m.len() {
                        assert forall|l: int| 0 <= l < j implies m2[l] == m[l] by {}
                    }
                    if j == m.len() {
                        assert(m2[j].0 == k);
                    }
                }
                if exists|j: int| is_first_key(m, k2, j) {
                    let c1 = choose|j: int| is_first_key(m, k2, j);
                    let c2 = choose|j: int| is_first_key(m2, k2, j);
                    assert(is_first_key(m, k2, c2));
                    assert(c1 == c2) by {
                        if c1 < c2 {
                            assert(m[c1].0 != k2);
                        }
                        if c2 < c1 {
                            assert(m[c2].0 != k2);
                        }
                    }
                }
            }
        },
    }
}

/// Setting a member keeps the names distinct and the values well formed.
pub proof fn lemma_member_insert_wf(m: Seq<(Seq<char>, JsonV)>, k: Seq<char>, v: JsonV)
    requires
        members_wf(m),
        v.wf(),
    ensures
        members_wf(member_insert(m, k, v)),
{
    let m2 = member_insert(m, k, v);
    match key_index(m, k) {
        Some(i) => {
            assert(is_first_key(m, k, i));
            assert(forall|j: int| 0 <= j < m.len() ==> #[trigger] m2[j].0 == m[j].0);
        },
        None => {
            assert(forall|j: int| 0 <= j < m.len() ==> m[j].0 != k) by {
                if exists|j: int| 0 <= j < m.len() && m[j].0 == k {
                    let j0 = choose|j: int| 0 <= j < m.len() && m[j].0 == k;
                    lemma_first_key_exists(m, k, j0);
                }
            }
            assert(forall|j: int| 0 <= j < m.len() ==> #[trigger] m2[j] == m[j]);
        },
    }
}

/// A member whose name is new keeps the members well formed.
pub proof fn lemma_members_push_wf(m: Seq<(Seq<char>, JsonV)>, k: Seq<char>, v: JsonV)
    requires
        members_wf(m),
        v.wf(),
        forall|i: int| 0 <= i < m.len() ==> m[i].0 != k,
    ensures
        members_wf(m.push((k, v))),
{
    let m2 = m.push((k, v));
    assert(forall|i: int| 0 <= i < m.len() ==> #[trigger] m2[i] == m[i]);
}

/// An array is well formed exactly when its items are.
pub proof fn lemma_array_wf(items: Seq<JsonV>)
    ensures
        JsonV::Array(items).wf() == forall|i: int| 0 <= i < items.len() ==> (#[trigger] items[i]).wf(),
{
    let a = JsonV::Array(items);
    assert(a->Array_0 == items);
    assert(a.wf() == (forall|i: int| #![trigger items[i]] 0 <= i < items.len() ==> items[i].wf()));
    if JsonV::Array(items).wf() {
        assert forall|i: int| 0 <= i < items.len() implies (#[trigger] items[i]).wf() by {}
    }
    if forall|i: int| 0 <= i < items.len() ==> (#[trigger] items[i]).wf() {
        assert(JsonV::Array(items).wf());
    }
}

/// An object is well formed exactly when its members are.
pub proof fn lemma_object_wf(m: Seq<(Seq<char>, JsonV)>)
    ensures
        JsonV::Object(m).wf() == members_wf(m),
{
}

/// A member of a well-formed object is well formed.
pub proof fn lemma_get_wf(v: JsonV, k: Seq<char>)
    requires
        v.wf(),
    ensures
        v.get(k) matches Some(x) ==> x.wf(),
{
    if let JsonV::Object(m) = v {
        if let Some(i) = key_index(m, k) {
            assert(is_first_key(m, k, i));
            assert(m[i].1.wf());
        }
    }
}

/// A member named `k` at position `j` means there is a first one.
pub proof fn lemma_first_key_exists(m: Seq<(Seq<char>, JsonV)>, k: Seq<char>, j: int)
    requires
        0 <= j < m.len(),
        m[j].0 == k,
    ensures
        key_index(m, k) is Some,
    decreases j,
{
    if forall|l: int| 0 <= l < j ==> m[l].0 != k {
        assert(is_first_key(m, k, j));
    } else {
        let l = choose|l: int| 0 <= l < j && m[l].0 != k == false;
        lemma_first_key_exists(m, k, l);
    }
}

/// In members with distinct names, reading the name at position `p` gives
/// the value at position `p`.
pub proof fn lemma_member_get_at(m: Seq<(Seq<char>, JsonV)>, p: int)
    requires
        keys_distinct(m),
        0 <= p < m.len(),
    ensures
        member_get(m, m[p].0) == Some(m[p].1),
{
    let k = m[p].0;
    assert(is_first_key(m, k, p));
    let c = choose|c: int| is_first_key(m, k, c);
    assert(c == p) by {
        if c < p {
            assert(m[c].0 != m[p].0);
        }
        if c > p {
            assert(m[p].0 != k);
        }
    }
}

/// Where no member has the name `k`, reading `k` gives nothing.
pub proof fn lemma_member_get_absent(m: Seq<(Seq<char>, JsonV)>, k: Seq<char>)
    requires
        forall|i: int| 0 <= i < m.len() ==> m[i].0 != k,
    ensures
        member_get(m, k) is None,
{
    if exists|i: int| is_first_key(m, k, i) {
        let i = choose|i: int| is_first_key(m, k, i);
        assert(m[i].0 == k);
    }
}

pub proof fn lemma_array_view(items: Vec<Json>)
    ensures
        Json::Array(items)@ == JsonV::Array(items_view(items@)),
{
    let v = Json::Array(items);
    let s = v.view_of()->Array_0;
    assert(s =~= items_view(items@));
}

pub proof fn lemma_object_view(members: Vec<Member>)
    ensures
        Json::Object(members)@ == JsonV::Object(members_view(members@)),
{
    let v = Json::Object(members);
    let s = v.view_of()->Object_0;
    assert(s =~= members_view(members@));
}

/// The position of the first member named `key`.
pub fn find_member(members: &Vec<Member>, key: &str) -> (r: Option<usize>)
    ensures
        match r {
            Some(i) => key_index(members_view(members@), key@) == Some(i as int),
            None => key_index(members_view(members@), key@) is None,
        },
{
    let ghost m = members_view(members@);
    let mut i: usize = 0;
    while i < members.len()
        invariant
            i <= members.len(),
            m == members_view(members@),
            forall|j: int| 0 <= j < i ==> m[j].0 != key@,
        decreases members.len() - i,
    {
        if str_eq(members[i].key.as_str(), key) {
            assert(is_first_key(m, key@, i as int));
            return Some(i);
        }
        i += 1;
    }
    None
}

impl Json {
    /// The value of member `key`, for an object.
    pub fn get(&self, key: &str) -> (r: Option<&Json>)
        ensures
            match r {
                Some(v) => self@.get(key@) == Some(v@),
                None => self@.get(key@) is None,
            },
    {
        match self {
            Json::Object(members) => {
                proof {
                    lemma_object_view(*members);
                }
                match find_member(members, key) {
                    Some(i) => Some(&members[i].value),
                    None => None,
                }
            },
            _ => None,
        }
    }

    pub fn as_u64(&self) -> (r: Option<u64>)
        ensures
            r == self@.as_u64(),
    {
        match self {
            Json::Number(Number::PosInt(n)) => Some(*n),
            Json::Number(Number::NegInt(n)) => if *n >= 0 {
                Some(*n as u64)
            } else {
                None
            },
            _ => None,
        }
    }

    pub fn as_bool(&self) -> (r: Option<bool>)
        ensures
            r == self@.as_bool(),
    {
        match self {
            Json::Bool(b) => Some(*b),
            _ => None,
        }
    }

    pub fn as_str(&self) -> (r: Option<&str>)
        ensures
            match r {
                Some(s) => self@.as_str() == Some(s@),
                None => self@.as_str() is None,
            },
    {
        match self {
            Json::Str(s) => Some(s.as_str()),
            _ => None,
        }
    }

    /// A copy of this value, all the way down.
    #[verifier::loop_isolation(false)]
    pub fn deep_clone(&self) -> (r: Json)
        ensures
            r@ == self@,
        decreases self,
    {
        match self {
            Json::Null => Json::Null,
            Json::Bool(b) => Json::Bool(*b),
            Json::Number(Number::PosInt(n)) => Json::Number(Number::PosInt(*n)),
            Json::Number(Number::NegInt(n)) => Json::Number(Number::NegInt(*n)),
            Json::Number(Number::Float(t)) => Json::Number(Number::Float(t.clone())),
            Json::Str(s) => Json::Str(s.clone()),
            Json::Array(items) => {
                let mut out: Vec<Json> = Vec::new();
                let mut i: usize = 0;
                while i < items.len()
                    invariant
                        i <= items.len(),
                        out@.len() == i,
                        forall|j: int| 0 <= j < i ==> out@[j]@ == items@[j]@,
                    decreases items.len() - i,
                {
                    proof {
                        assert(decreases_to!(*items => items@[i as int]));
                    }
                    let c = items[i].deep_clone();
                    out.push(c);
                    i += 1;
                }
                proof {
                    lemma_array_view(*items);
                    lemma_array_view(out);
                    assert(items_view(out@) =~= items_view(items@));
                }
                Json::Array(out)
            },
            Json::Object(members) => {
                let mut out: Vec<Member> = Vec::new();
                let mut i: usize = 0;
                while i < members.len()
                    invariant
                        i <= members.len(),
                        out@.len() == i,
                        forall|j: int|
                            0 <= j < i ==> out@[j].key@ == members@[j].key@ && out@[j].value@
                                == members@[j].value@,
                    decreases members.len() - i,
                {
                    proof {
                        assert(decreases_to!(*members => members@[i as int]));
                    }
                    let v = members[i].value.deep_clone();
                    out.push(Member { key: members[i].key.clone(), value: v });
                    i += 1;
                }
                proof {
                    lemma_object_view(*members);
                    lemma_object_view(out);
                    assert(members_view(out@) =~= members_view(members@));
                }
                Json::Object(out)
            },
        }
    }
}

/// `serde_json::Value`, carried opaque: the library builds one only to have
/// serde_json print it, and reads one only as serde_json parsed it.
#[verifier::external_type_specification]
#[verifier::external_body]
pub struct ExValue(serde_json::Value);

/// A value as serde_json's `Value`, variant for variant and member for
/// member: `Value::Null`, `Value::Bool`, `From<u64>`/`From<i64> for Value`,
/// `FromStr for Number` on a number kept as text (`null` where serde_json does
/// not read it), `Value::String`, `Value::Array`, and `FromIterator<(K, V)>
/// for Value` (serde_json's map, where a later member of a name replaces an
/// earlier one). Trusted conversion code: nothing is proved of it.
#[verifier::external_body]
fn to_outside_value(value: &Json) -> Value {
    match value {
        Json::Null => Value::Null,
        Json::Bool(b) => Value::Bool(*b),
        Json::Number(Number::PosInt(n)) => Value::from(*n),
        Json::Number(Number::NegInt(n)) => Value::from(*n),
        Json::Number(Number::Float(t)) => t.parse().map_or(Value::Null, Value::Number),
        Json::Str(s) => Value::String(s.clone()),
        Json::Array(items) => Value::Array(items.iter().map(to_outside_value).collect()),
        Json::Object(ms) => ms.iter().map(|m| (m.key.clone(), to_outside_value(&m.value))).collect(),
    }
}

/// serde_json's `Value` as a value, variant for variant and member for member:
/// a number is `PosInt` when `Number::as_u64` reads it, else `NegInt` when
/// `Number::as_i64` does, else kept as serde_json's text of it (`Display for
/// Number`); an object's members come in the order of serde_json's map.
/// Trusted conversion code: nothing is proved of it.
#[verifier::external_body]
fn from_outside_value(value: &Value) -> Json {
    match value {
        Value::Null => Json::Null,
        Value::Bool(b) => Json::Bool(*b),
        Value::Number(n) => Json::Number(match (n.as_u64(), n.as_i64()) {
            (Some(u), _) => Number::PosInt(u),
            (None, Some(i)) => Number::NegInt(i),
            (None, None) => Number::Float(n.to_string()),
        }),
        Value::String(s) => Json::Str(s.clone()),
        Value::Array(items) => Json::Array(items.iter().map(from_outside_value).collect()),
        Value::Object(map) => Json::Object(map.iter().map(|(k, v)| Member { key: k.clone(), value: from_outside_value(v) }).collect()),
    }
}

/// The JSON text that serde_json prints for a value: compact, with the
/// members of each object ordered by name.
pub uninterp spec fn json_text(value: JsonV) -> Seq<char>;

/// serde_json's `Display for Value` (through `to_string`) on the value, as
/// `to_outside_value` converts it. The contract claims only that the text
/// depends on the value's model alone, which holds since the conversion is
/// variant for variant and serde_json's printing is deterministic; what the
/// text is, is left to serde_json.
#[verifier::external_body]
pub(crate) fn to_json_text(value: &Json) -> (r: String)
    ensures
        r@ == json_text(value@),
{
    to_outside_value(value).to_string()
}

/// The value that serde_json reads from a text, or `None` where it refuses
/// the text.
pub uninterp spec fn parsed_json(text: Seq<char>) -> Option<JsonV>;

/// The message (`Display for serde_json::Error`) with which serde_json
/// refuses a text.
pub uninterp spec fn json_error_text(text: Seq<char>) -> Seq<char>;

/// serde_json's `from_str::<Value>` on the text, converted back by
/// `from_outside_value`; a refusal gives serde_json's error message. The
/// contract claims only that the outcome depends on the text alone (both
/// the parse and the conversion are deterministic); which texts serde_json
/// reads, and as what, is left to serde_json.
#[verifier::external_body]
pub(crate) fn parse_json_text(text: &str) -> (r: std::result::Result<Json, String>)
    ensures
        match parsed_json(text@) {
            Some(v) => r matches Ok(x) && x@ == v,
            None => r matches Err(m) && m@ == json_error_text(text@),
        },
{
    match serde_json::from_str::<Value>(text) {
        Ok(v) => Ok(from_outside_value(&v)),
        Err(e) => Err(e.to_string()),
    }
}

impl Json {
    /// The JSON text of this value, as serde_json prints it.
    pub fn to_text(&self) -> (r: String)
        ensures
            r@ == json_text(self@),
    {
        to_json_text(self)
    }
}

/// Sets member `key` to `value`: a member of that name keeps its place and
/// takes the new value; otherwise a member is added at the end.
pub fn members_insert(members: &mut Vec<Member>, key: &str, value: Json)
    ensures
        members_view(final(members)@) == member_insert(members_view(old(members)@), key@, value@),
{
    let ghost m = members_view(members@);
    let ghost v = value@;
    match find_member(members, key) {
        Some(i) => {
            members.set(i, Member { key: String::from_str(key), value });
            assert(members_view(members@) =~= m.update(i as int, (key@, v)));
        },
        None => {
            members.push(Member { key: String::from_str(key), value });
            assert(members_view(members@) =~= m.push((key@, v)));
        },
    }
}

impl Member {
    pub fn new(key: &str, value: Json) -> (r: Member)
        ensures
            r.key@ == key@,
            r.value == value,
    {
        Member { key: String::from_str(key), value }
    }
}

impl Json {
    pub fn from_u64(n: u64) -> (r: Json)
        ensures
            r@ == JsonV::Int(n as int),
    {
        Json::Number(Number::PosInt(n))
    }

    pub fn from_i64(n: i64) -> (r: Json)
        ensures
            r@ == JsonV::Int(n as int),
    {
        if n >= 0 {
            Json::Number(Number::PosInt(n as u64))
        } else {
            Json::Number(Number::NegInt(n))
        }
    }

    pub fn from_str(s: &str) -> (r: Json)
        ensures
            r@ == JsonV::Str(s@),
    {
        Json::Str(String::from_str(s))
    }

    pub fn empty_object() -> (r: Json)
        ensures
            r@ == JsonV::Object(Seq::empty()),
    {
        let members: Vec<Member> = Vec::new();
        proof {
            lemma_object_view(members);
            assert(members_view(members@) =~= Seq::empty());
        }
        Json::Object(members)
    }

    pub fn empty_array() -> (r: Json)
        ensures
            r@ == JsonV::Array(Seq::empty()),
    {
        let items: Vec<Json> = Vec::new();
        proof {
            lemma_array_view(items);
            assert(items_view(items@) =~= Seq::empty());
        }
        Json::Array(items)
    }

    pub fn is_object(&self) -> (r: bool)
        ensures
            r == self@ is Object,
    {
        match self {
            Json::Object(_) => true,
            _ => false,
        }
    }

    /// Sets member `key` of this object to `value` (see [`members_insert`]).
    pub fn insert(&mut self, key: &str, value: Json)
        requires
            old(self)@ is Object,
        ensures
            final(self)@ == JsonV::Object(member_insert(old(self)@->Object_0, key@, value@)),
    {
        match self {
            Json::Object(members) => {
                proof {
                    lemma_object_view(*members);
                }
                members_insert(members, key, value);
                proof {
                    lemma_object_view(*members);
                }
            },
            _ => {},
        }
    }
}

impl Clone for Json {
    fn clone(&self) -> (r: Json)
        ensures
            r@ == self@,
    {
        self.deep_clone()
    }
}

} // verus!
