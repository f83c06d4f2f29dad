//! A plain model of a parsed JSON document, and the parse itself.
use vstd::prelude::*;
use serde_json::Value as SerdeValue;

verus! {

/// A JSON value. Object members keep the order in which they appear in the
/// text; a number is held as an integer where it is one.
pub enum JsonValue {
    Null,
    Bool(bool),
    /// An integer that fits in `i64`.
    Int(i64),
    /// A non-negative integer above `i64::MAX`.
    UInt(u64),
    /// A number with a fraction or an exponent, in its textual form.
    Fractional(String),
    Str(String),
    Array(Vec<JsonValue>),
    Object(Vec<(String, JsonValue)>),
}

/// The deepest nesting handled: the JSON parser refuses deeper values.
pub const NESTING_LIMIT: u32 = 130;

/// Whether the store can hold `v`, nested within `depth` levels: it has no
/// integer above `i64::MAX`, which BSON cannot represent.
pub open spec fn storable(v: JsonValue, depth: nat) -> bool
    decreases depth,
{
    if depth == 0 {
        false
    } else {
        match v {
            JsonValue::UInt(_) => false,
            JsonValue::Array(a) => forall|i: int| 0 <= i < a@.len() ==> storable(#[trigger] a@[i], (depth - 1) as nat),
            JsonValue::Object(m) => forall|i: int| 0 <= i < m@.len() ==> storable(#[trigger] m@[i].1, (depth - 1) as nat),
            _ => true,
        }
    }
}

fn items_storable(items: &Vec<JsonValue>, depth: u32) -> (r: bool)
    requires
        depth > 0,
    ensures
        r == forall|i: int| 0 <= i < items@.len() ==> storable(#[trigger] items@[i], (depth - 1) as nat),
    decreases depth, 0nat,
{
    let mut i: usize = 0;
    while i < items.len()
        invariant
            depth > 0,
            i <= items.len(),
            forall|t: int| 0 <= t < i ==> storable(#[trigger] items@[t], (depth - 1) as nat),
        decreases items.len() - i,
    {
        if !check_storable(&items[i], depth - 1) {
            return false;
        }
        i += 1;
    }
    true
}

fn members_storable(fields: &Vec<(String, JsonValue)>, depth: u32) -> (r: bool)
    requires
        depth > 0,
    ensures
        r == forall|i: int| 0 <= i < fields@.len() ==> storable(#[trigger] fields@[i].1, (depth - 1) as nat),
    decreases depth, 0nat,
{
    let mut i: usize = 0;
    while i < fields.len()
        invariant
            depth > 0,
            i <= fields.len(),
            forall|t: int| 0 <= t < i ==> storable(#[trigger] fields@[t].1, (depth - 1) as nat),
        decreases fields.len() - i,
    {
        if !check_storable(&fields[i].1, depth - 1) {
            return false;
        }
        i += 1;
    }
    true
}

/// Whether the store can hold `v`, nested within `depth` levels.
pub fn check_storable(v: &JsonValue, depth: u32) -> (r: bool)
    ensures
        r == storable(*v, depth as nat),
    decreases depth, 1nat,
{
    if depth == 0 {
        return false;
    }
    match v {
        JsonValue::UInt(_) => false,
        JsonValue::Array(a) => items_storable(a, depth),
        JsonValue::Object(m) => members_storable(m, depth),
        _ => true,
    }
}

/// The value of the first member named `key`.
pub open spec fn member(fields: Seq<(String, JsonValue)>, key: Seq<char>) -> Option<JsonValue>
    decreases fields.len(),
{
    if fields.len() == 0 {
        None
    } else if fields[0].0@ == key {
        Some(fields[0].1)
    } else {
        member(fields.drop_first(), key)
    }
}

/// The member `key` of `v`, where `v` is an object.
pub open spec fn field(v: JsonValue, key: Seq<char>) -> Option<JsonValue> {
    match v {
        JsonValue::Object(fields) => member(fields@, key),
        _ => None,
    }
}

/// The member `key` of `v` where that is a string.
pub open spec fn str_field(v: JsonValue, key: Seq<char>) -> Option<Seq<char>> {
    match field(v, key) {
        Some(JsonValue::Str(s)) => Some(s@),
        _ => None,
    }
}

/// The members of `v`, where it is an object.
pub open spec fn members(v: JsonValue) -> Option<Seq<(String, JsonValue)>> {
    match v {
        JsonValue::Object(fields) => Some(fields@),
        _ => None,
    }
}

/// `v` read as an unsigned integer, where it is one.
pub open spec fn as_unsigned(v: JsonValue) -> Option<u64> {
    match v {
        JsonValue::Int(n) => if n >= 0 { Some(n as u64) } else { None },
        JsonValue::UInt(n) => Some(n),
        _ => None,
    }
}

/// The first member of `fields` named `key`, with its value.
pub fn get_member<'a>(fields: &'a Vec<(String, JsonValue)>, key: &String) -> (r: Option<&'a JsonValue>)
    ensures
        r matches Some(v) ==> member(fields@, key@) == Some(*v),
        r is None ==> member(fields@, key@) is None,
{
    let mut i: usize = 0;
    assert(fields@.subrange(0, fields.len() as int) =~= fields@);
    while i < fields.len()
        invariant
            i <= fields.len(),
            member(fields@, key@) == member(fields@.subrange(i as int, fields.len() as int), key@),
        decreases fields.len() - i,
    {
        let ghost rest = fields@.subrange(i as int, fields.len() as int);
        assert(rest.drop_first() =~= fields@.subrange(i + 1, fields.len() as int));
        if fields[i].0 == *key {
            return Some(&fields[i].1);
        }
        i += 1;
    }
    None
}

/// The member `key` of `v`, where `v` is an object.
pub fn get_field<'a>(v: &'a JsonValue, key: &String) -> (r: Option<&'a JsonValue>)
    ensures
        r matches Some(x) ==> field(*v, key@) == Some(*x),
        r is None ==> field(*v, key@) is None,
{
    match v {
        JsonValue::Object(fields) => get_member(fields, key),
        _ => None,
    }
}

/// A name for what serde_json makes of a text, in the model above: `None`
/// where the text is not JSON.
pub uninterp spec fn parsed_json(text: Seq<char>) -> Option<JsonValue>;

/// Relies on serde_json::from_str into serde_json::Value (with members kept in
/// text order): the result depends on the text alone.
#[verifier::external_body]
pub(crate) fn parse_json(text: &str) -> (r: Option<JsonValue>)
    ensures
        r == parsed_json(text@),
{
    serde_json::from_str::<serde_json::Value>(text).ok().map(|v| from_serde(&v))
}

/// serde_json's parsed value, carried only from the parse into the model.
#[verifier::external_type_specification]
#[verifier::external_body]
pub struct ExSerdeValue(serde_json::Value);

/// Moves a serde_json value into the model, one variant to one variant.
#[verifier::external_body]
fn from_serde(v: &serde_json::Value) -> JsonValue {
    match v {
        SerdeValue::Null => JsonValue::Null,
        SerdeValue::Bool(b) => JsonValue::Bool(*b),
        SerdeValue::Number(n) => match (n.as_i64(), n.as_u64()) {
            (Some(i), _) => JsonValue::Int(i),
            (None, Some(u)) => JsonValue::UInt(u),
            (None, None) => JsonValue::Fractional(n.to_string()),
        },
        SerdeValue::String(s) => JsonValue::Str(s.clone()),
        SerdeValue::Array(a) => JsonValue::Array(a.iter().map(from_serde).collect()),
        SerdeValue::Object(m) => JsonValue::Object(m.iter().map(|e| (e.0.clone(), from_serde(e.1))).collect()),
    }
}

/// Moves a model value back into serde_json, one variant to one variant.
#[verifier::external_body]
pub(crate) fn serde_value(v: &JsonValue) -> serde_json::Value {
    match v {
        JsonValue::Null => SerdeValue::Null,
        JsonValue::Bool(b) => SerdeValue::Bool(*b),
        JsonValue::Int(i) => SerdeValue::from(*i),
        JsonValue::UInt(u) => SerdeValue::from(*u),
        JsonValue::Fractional(t) => serde_json::from_str(t).unwrap_or_default(),
        JsonValue::Str(s) => SerdeValue::String(s.clone()),
        JsonValue::Array(a) => SerdeValue::Array(a.iter().map(serde_value).collect()),
        JsonValue::Object(m) => SerdeValue::Object(m.iter().map(|e| (e.0.clone(), serde_value(&e.1))).collect()),
    }
}

/// A name for the compact JSON text that serde_json writes for a value.
pub uninterp spec fn json_text(v: JsonValue) -> Seq<char>;

/// Relies on serde_json's Display for serde_json::Value: compact JSON text,
/// which depends on the value alone.
#[verifier::external_body]
pub(crate) fn to_json_text(v: &JsonValue) -> (r: String)
    ensures
        r@ == json_text(*v),
{
    serde_value(v).to_string()
}

} // verus!
