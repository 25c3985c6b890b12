//! JSON values, built and read through `serde_json`.
//!
//! A [`Json`] holds a `serde_json::Value` together with its abstract content, a
//! [`JsonModel`]. Only the functions of this module construct a `Json`, and
//! each states the model of what it builds.
use vstd::prelude::*;

verus! {

#[verifier::external_type_specification]
#[verifier::external_body]
pub struct ExValue(serde_json::Value);

#[verifier::external_type_specification]
#[verifier::external_body]
pub struct ExSerdeJsonError(serde_json::Error);

/// The abstract content of a JSON value.
pub enum JsonModel {
    Null,
    Bool(bool),
    /// An integer (`serde_json` holds non-negative ones as `u64`, negative ones as `i64`).
    Int(int),
    /// A floating-point number, by the bits of its `f64`.
    Float(u64),
    Str(Seq<char>),
    Array(Seq<JsonModel>),
    Object(Map<Seq<char>, JsonModel>),
}

/// The object that a list of entries with distinct keys makes.
pub open spec fn entries_map(entries: Seq<(Seq<char>, JsonModel)>) -> Map<Seq<char>, JsonModel>
    decreases entries.len(),
{
    if entries.len() == 0 {
        Map::empty()
    } else {
        entries_map(entries.drop_last()).insert(entries.last().0, entries.last().1)
    }
}

/// No two entries share a key.
pub open spec fn distinct_keys(entries: Seq<(Seq<char>, JsonModel)>) -> bool {
    forall|i: int, j: int| 0 <= i < j < entries.len() ==> entries[i].0 != entries[j].0
}

/// The text that `serde_json` writes for a value (compact form, object keys in
/// sorted order).
pub uninterp spec fn json_text(v: JsonModel) -> Seq<char>;

/// The value that `serde_json` reads from a text, if the text is JSON.
pub uninterp spec fn json_parse(text: Seq<char>) -> Option<JsonModel>;

/// A JSON value.
pub struct Json {
    value: serde_json::Value,
    model: Ghost<JsonModel>,
}

impl View for Json {
    type V = JsonModel;

    closed spec fn view(&self) -> JsonModel {
        self.model@
    }
}

/// The model of an entry list of `Json` values.
pub open spec fn entries_view(entries: Seq<(String, Json)>) -> Seq<(Seq<char>, JsonModel)> {
    entries.map_values(|e: (String, Json)| (e.0@, e.1@))
}

/// An entry of a list with distinct keys is the object's member under its key.
pub proof fn lemma_entries_map_member(entries: Seq<(Seq<char>, JsonModel)>, i: int)
    requires
        distinct_keys(entries),
        0 <= i < entries.len(),
    ensures
        entries_map(entries).contains_key(entries[i].0),
        entries_map(entries)[entries[i].0] == entries[i].1,
    decreases entries.len(),
{
    if i < entries.len() - 1 {
        let prev = entries.drop_last();
        assert(distinct_keys(prev));
        lemma_entries_map_member(prev, i);
        assert(prev[i] == entries[i]);
    }
}

/// The keys of the object that a list of entries makes are the entries' keys.
pub proof fn lemma_entries_map_keys(entries: Seq<(Seq<char>, JsonModel)>)
    ensures
        forall|k: Seq<char>|
            #[trigger] entries_map(entries).contains_key(k) <==> exists|i: int|
                0 <= i < entries.len() && entries[i].0 == k,
    decreases entries.len(),
{
    if entries.len() > 0 {
        let prev = entries.drop_last();
        lemma_entries_map_keys(prev);
        assert forall|k: Seq<char>|
            #[trigger] entries_map(entries).contains_key(k) <==> exists|i: int|
                0 <= i < entries.len() && entries[i].0 == k by {
            let last = entries.last();
            assert(entries_map(entries) == entries_map(prev).insert(last.0, last.1));
            let in_prev = entries_map(prev).contains_key(k);
            if entries_map(entries).contains_key(k) {
                if k == last.0 {
                    assert(entries[entries.len() - 1].0 == k);
                } else {
                    assert(in_prev);
                    let i = choose|i: int| 0 <= i < prev.len() && prev[i].0 == k;
                    assert(entries[i] == prev[i]);
                }
            }
            if exists|i: int| 0 <= i < entries.len() && entries[i].0 == k {
                let i = choose|i: int| 0 <= i < entries.len() && entries[i].0 == k;
                if i < entries.len() - 1 {
                    assert(prev[i] == entries[i]);
                    assert(in_prev);
                }
            }
        }
    }
}

/// `serde_json::Value::from(u64)`: the number `n`.
#[verifier::external_body]
fn serde_from_u64(n: u64) -> (r: Json)
    ensures
        r@ == JsonModel::Int(n as int),
{
    Json { value: serde_json::Value::from(n), model: Ghost(JsonModel::Int(n as int)) }
}

/// `serde_json::Value::String`: the string `s`.
#[verifier::external_body]
fn serde_string(s: String) -> (r: Json)
    ensures
        r@ == JsonModel::Str(s@),
{
    let ghost m = JsonModel::Str(s@);
    Json { value: serde_json::Value::String(s), model: Ghost(m) }
}

/// `serde_json::Value::Array`: the array of `items`, in order.
#[verifier::external_body]
fn serde_array(items: Vec<Json>) -> (r: Json)
    ensures
        r@ == JsonModel::Array(items@.map_values(|j: Json| j@)),
{
    let ghost m = JsonModel::Array(items@.map_values(|j: Json| j@));
    Json { value: serde_json::Value::Array(items.into_iter().map(|j| j.value).collect()), model: Ghost(m) }
}

/// `serde_json::Value::Object` from `serde_json::Map`'s `FromIterator`: the
/// object with the given entries, whose keys are distinct.
#[verifier::external_body]
fn serde_object(entries: Vec<(String, Json)>) -> (r: Json)
    requires
        distinct_keys(entries_view(entries@)),
    ensures
        r@ == JsonModel::Object(entries_map(entries_view(entries@))),
{
    let ghost m = JsonModel::Object(entries_map(entries_view(entries@)));
    Json {
        value: serde_json::Value::Object(entries.into_iter().map(|e| (e.0, e.1.value)).collect()),
        model: Ghost(m),
    }
}

/// `serde_json::Value`'s `Display` (through `ToString`): the compact JSON text.
#[verifier::external_body]
fn serde_to_text(v: &Json) -> (r: String)
    ensures
        r@ == json_text(v@),
{
    v.value.to_string()
}

/// `serde_json::from_str::<serde_json::Value>`: the value that `text` holds, or
/// an error when `text` is not JSON.
#[verifier::external_body]
fn serde_from_str(text: &str) -> (r: Result<Json, serde_json::Error>)
    ensures
        r is Ok <==> json_parse(text@) is Some,
        r matches Ok(v) ==> json_parse(text@) == Some(v@),
{
    match serde_json::from_str::<serde_json::Value>(text) {
        Ok(value) => Ok(Json { value, model: Ghost(json_parse(text@)->0) }),
        Err(e) => Err(e),
    }
}

/// `serde_json::Value::get` with a string key (then `Clone`): the member `key`
/// of an object; nothing for a missing key or a value that is not an object.
#[verifier::external_body]
fn serde_get(v: &Json, key: &str) -> (r: Option<Json>)
    ensures
        r matches Some(m) ==> v@ matches JsonModel::Object(o) && o.contains_key(key@) && m@ == o[key@],
        r is None ==> !(v@ matches JsonModel::Object(o) && o.contains_key(key@)),
{
    match v.value.get(key) {
        Some(m) => Some(Json { value: m.clone(), model: Ghost(v@->Object_0[key@]) }),
        None => None,
    }
}

/// `serde_json::Value::as_str` (then `ToString`): the text of a string value.
#[verifier::external_body]
fn serde_as_str(v: &Json) -> (r: Option<String>)
    ensures
        r matches Some(s) ==> v@ == JsonModel::Str(s@),
        r is None ==> !(v@ is Str),
{
    match v.value.as_str() {
        Some(s) => Some(s.to_string()),
        None => None,
    }
}

/// `serde_json::Value::as_u64`: a non-negative integer that fits in `u64`.
#[verifier::external_body]
fn serde_as_u64(v: &Json) -> (r: Option<u64>)
    ensures
        r matches Some(n) ==> v@ == JsonModel::Int(n as int),
        r is None ==> !(v@ matches JsonModel::Int(n) && 0 <= n <= u64::MAX),
{
    v.value.as_u64()
}

/// `serde_json::Value::as_bool`: the value of a boolean.
#[verifier::external_body]
fn serde_as_bool(v: &Json) -> (r: Option<bool>)
    ensures
        r matches Some(b) ==> v@ == JsonModel::Bool(b),
        r is None ==> !(v@ is Bool),
{
    v.value.as_bool()
}

/// A text that is not JSON.
#[derive(Clone, Copy, Debug, PartialEq, Eq, Structural)]
pub struct NotJson;

/// The member `key` of an object, if `v` is an object that has it.
pub open spec fn member(v: JsonModel, key: Seq<char>) -> Option<JsonModel> {
    match v {
        JsonModel::Object(o) => if o.contains_key(key) {
            Some(o[key])
        } else {
            None
        },
        _ => None,
    }
}

/// The text of the string member `key` of `v`, if there is one.
pub open spec fn str_member(v: JsonModel, key: Seq<char>) -> Option<Seq<char>> {
    match member(v, key) {
        Some(JsonModel::Str(s)) => Some(s),
        _ => None,
    }
}

/// The `u64` member `key` of `v`, if there is one.
pub open spec fn u64_member(v: JsonModel, key: Seq<char>) -> Option<u64> {
    match member(v, key) {
        Some(JsonModel::Int(n)) => if 0 <= n <= u64::MAX {
            Some(n as u64)
        } else {
            None
        },
        _ => None,
    }
}

/// The boolean member `key` of `v`, if there is one.
pub open spec fn bool_member(v: JsonModel, key: Seq<char>) -> Option<bool> {
    match member(v, key) {
        Some(JsonModel::Bool(b)) => Some(b),
        _ => None,
    }
}

impl Json {
    /// The number `n`.
    pub fn number(n: u64) -> (r: Json)
        ensures
            r@ == JsonModel::Int(n as int),
    {
        serde_from_u64(n)
    }

    /// The string `s`.
    pub fn string(s: String) -> (r: Json)
        ensures
            r@ == JsonModel::Str(s@),
    {
        serde_string(s)
    }

    /// The array of `items`, in order.
    pub fn array(items: Vec<Json>) -> (r: Json)
        ensures
            r@ == JsonModel::Array(items@.map_values(|j: Json| j@)),
    {
        serde_array(items)
    }

    /// The object with the given entries; their keys must be distinct.
    pub fn object(entries: Vec<(String, Json)>) -> (r: Json)
        requires
            distinct_keys(entries_view(entries@)),
        ensures
            r@ == JsonModel::Object(entries_map(entries_view(entries@))),
    {
        serde_object(entries)
    }

    /// The compact JSON text of the value.
    pub fn text(&self) -> (r: String)
        ensures
            r@ == json_text(self@),
    {
        serde_to_text(self)
    }

    /// The value that `text` holds, or [`NotJson`].
    pub fn parse(text: &str) -> (r: Result<Json, NotJson>)
        ensures
            match json_parse(text@) {
                Some(m) => r matches Ok(v) && v@ == m,
                None => r == Err::<Json, NotJson>(NotJson),
            },
    {
        match serde_from_str(text) {
            Ok(v) => Ok(v),
            Err(_) => Err(NotJson),
        }
    }

    /// The text of the string member `key`, if this is an object that has one.
    pub fn get_str(&self, key: &str) -> (r: Option<String>)
        ensures
            match str_member(self@, key@) {
                Some(s) => r matches Some(t) && t@ == s,
                None => r is None,
            },
    {
        match serde_get(self, key) {
            Some(m) => serde_as_str(&m),
            None => None,
        }
    }

    /// The `u64` member `key`, if this is an object that has one.
    pub fn get_u64(&self, key: &str) -> (r: Option<u64>)
        ensures
            r == u64_member(self@, key@),
    {
        match serde_get(self, key) {
            Some(m) => serde_as_u64(&m),
            None => None,
        }
    }

    /// The boolean member `key`, if this is an object that has one.
    pub fn get_bool(&self, key: &str) -> (r: Option<bool>)
        ensures
            r == bool_member(self@, key@),
    {
        match serde_get(self, key) {
            Some(m) => serde_as_bool(&m),
            None => None,
        }
    }

    /// The `serde_json` value that this `Json` holds; its content is `self@`.
    pub closed spec fn serde_value(&self) -> serde_json::Value {
        self.value
    }

    /// The `serde_json` value.
    pub fn value(&self) -> (r: &serde_json::Value)
        ensures
            *r == self.serde_value(),
    {
        &self.value
    }

    /// The `serde_json` value, by value.
    pub fn into_value(self) -> (r: serde_json::Value)
        ensures
            r == self.serde_value(),
    {
        self.value
    }
}

} // verus!
