//! JSON documents, read and written with `serde_json`.

use vstd::prelude::*;

verus! {

/// A JSON value. What it holds is told by [`json_content`].
#[verifier::external_type_specification]
#[verifier::external_body]
pub struct ExJsonValue(serde_json::Value);

/// What a JSON value holds.
pub enum Json {
    Null,
    Bool(bool),
    /// A number that is a `u64`.
    Whole(u64),
    /// Any other number, as it is written.
    Number(Seq<char>),
    Text(Seq<char>),
    List(Seq<Json>),
    Object(Map<Seq<char>, Json>),
}

/// What a `serde_json::Value` holds.
pub uninterp spec fn json_content(value: serde_json::Value) -> Json;

/// What `serde_json::from_str` reads in a text, if it reads a value.
pub uninterp spec fn json_document(text: Seq<char>) -> Option<Json>;

/// What `serde_json` writes for a value that holds this.
pub uninterp spec fn json_text(content: Json) -> Seq<char>;

/// What the values of a list hold.
pub open spec fn contents(v: Seq<serde_json::Value>) -> Seq<Json> {
    v.map_values(|x: serde_json::Value| json_content(x))
}

/// What is under a key of an object, if there is something.
pub open spec fn field_of(content: Json, key: Seq<char>) -> Option<Json> {
    match content {
        Json::Object(m) => if m.contains_key(key) {
            Some(m[key])
        } else {
            None
        },
        _ => None,
    }
}

/// How many lists and objects may stand in each other for a value to be one that is surely
/// read back. `serde_json::from_str` gives up at a few more.
pub const READ_DEPTH: u64 = 100;

/// Whether a value holds no number but those of a `u64`, and no more than so many lists and
/// objects in each other.
pub open spec fn plain(content: Json, depth: nat) -> bool
    decreases depth,
{
    match content {
        Json::Number(_) => false,
        Json::List(items) => depth > 0 && forall|i: int|
            0 <= i < items.len() ==> plain(#[trigger] items[i], (depth - 1) as nat),
        Json::Object(m) => depth > 0 && forall|k: Seq<char>|
            #[trigger] m.contains_key(k) ==> plain(m[k], (depth - 1) as nat),
        _ => true,
    }
}

/// An object stays plain with a plain entry.
pub broadcast proof fn lemma_plain_entry(
    m: Map<Seq<char>, Json>,
    key: Seq<char>,
    value: Json,
    depth: nat,
)
    requires
        plain(Json::Object(m), depth),
        plain(value, (depth - 1) as nat),
    ensures
        #[trigger] plain(Json::Object(m.insert(key, value)), depth),
{
    let all = m.insert(key, value);
    assert forall|k: Seq<char>| #[trigger] all.contains_key(k) implies plain(
        all[k],
        (depth - 1) as nat,
    ) by {
        if k != key {
            assert(Json::Object(m)->Object_0.contains_key(k));
        }
    }
}

/// What kind of value one is, as far as a reader of text and numbers cares.
pub enum Node<S = String, L = Vec<serde_json::Value>> {
    Text(S),
    Items(L),
    Other,
}

/// Calls `serde_json::from_str`, and drops what it says of a text that is not JSON. The
/// result depends on the text alone.
#[verifier::external_body]
pub(crate) fn parse_json(text: &str) -> (r: Option<serde_json::Value>)
    ensures
        match r {
            Some(v) => json_document(text@) == Some(json_content(v)),
            None => json_document(text@) is None,
        },
{
    serde_json::from_str::<serde_json::Value>(text).ok()
}

/// Calls `serde_json::Value::get` with a key: the entry of an object under it. `None` for
/// an object without one, and for anything that is no object.
#[verifier::external_body]
pub(crate) fn field<'a>(value: &'a serde_json::Value, key: &str) -> (r: Option<
    &'a serde_json::Value,
>)
    ensures
        match r {
            Some(v) => field_of(json_content(*value), key@) == Some(json_content(*v)),
            None => field_of(json_content(*value), key@) is None,
        },
{
    value.get(key)
}

/// Tells the variants of `serde_json::Value` apart, and takes a string's text or an
/// array's items out.
#[verifier::external_body]
pub(crate) fn node(value: &serde_json::Value) -> (r: Node)
    ensures
        match r {
            Node::Text(t) => json_content(*value) == Json::Text(t@),
            Node::Items(v) => json_content(*value) == Json::List(contents(v@)),
            Node::Other => !(json_content(*value) is Text) && !(json_content(*value) is List),
        },
{
    match value {
        serde_json::Value::String(s) => Node::Text(s.clone()),
        serde_json::Value::Array(items) => Node::Items(items.clone()),
        _ => Node::Other,
    }
}

/// Calls `serde_json::Value::as_u64`: the number, where the value is one that a `u64` holds.
#[verifier::external_body]
pub(crate) fn as_u64(value: &serde_json::Value) -> (r: Option<u64>)
    ensures
        r == match json_content(*value) {
            Json::Whole(n) => Some(n),
            _ => None,
        },
{
    value.as_u64()
}

/// Makes a `serde_json::Value::Null`.
#[verifier::external_body]
pub(crate) fn json_null() -> (r: serde_json::Value)
    ensures
        json_content(r) == Json::Null,
{
    serde_json::Value::Null
}

/// Makes a `serde_json::Value::Bool`.
#[verifier::external_body]
pub(crate) fn json_bool(b: bool) -> (r: serde_json::Value)
    ensures
        json_content(r) == Json::Bool(b),
{
    serde_json::Value::Bool(b)
}

/// Calls `serde_json::Value::from` on a `u64`: the number.
#[verifier::external_body]
pub(crate) fn json_u64(n: u64) -> (r: serde_json::Value)
    ensures
        json_content(r) == Json::Whole(n),
{
    serde_json::Value::from(n)
}

/// Makes a `serde_json::Value::String`.
#[verifier::external_body]
pub(crate) fn json_string(s: &str) -> (r: serde_json::Value)
    ensures
        json_content(r) == Json::Text(s@),
{
    serde_json::Value::String(s.to_string())
}

/// Makes a `serde_json::Value::Array`.
#[verifier::external_body]
pub(crate) fn json_list(v: Vec<serde_json::Value>) -> (r: serde_json::Value)
    ensures
        json_content(r) == Json::List(contents(v@)),
{
    serde_json::Value::Array(v)
}

/// Makes a `serde_json::Value::Object` of an empty `serde_json::Map`.
#[verifier::external_body]
pub(crate) fn json_object() -> (r: serde_json::Value)
    ensures
        json_content(r) == Json::Object(Map::<Seq<char>, Json>::empty()),
{
    serde_json::Value::Object(serde_json::Map::new())
}

/// Calls `serde_json::Map::insert` on an object's map: the entry under the key is now this
/// value, and the others stay.
#[verifier::external_body]
pub(crate) fn with_field(object: serde_json::Value, key: &str, value: serde_json::Value) -> (r:
    serde_json::Value)
    requires
        json_content(object) is Object,
    ensures
        json_content(r) == Json::Object(
            json_content(object)->Object_0.insert(key@, json_content(value)),
        ),
{
    match object {
        serde_json::Value::Object(mut m) => {
            m.insert(key.to_string(), value);
            serde_json::Value::Object(m)
        },
        other => other,
    }
}

/// Calls the `Display` of `serde_json::Value`, which writes a value without white space
/// around its parts and an object's entries in the order that the crate's map keeps without
/// further features, that of their keys. The text depends on what the value holds alone; and
/// what is written, `serde_json::from_str` reads back. That is claimed only of numbers that
/// are a `u64`, since others may be written in more than one way, and only of values nested
/// no deeper than the reader goes.
#[verifier::external_body]
pub(crate) fn write_json(value: &serde_json::Value) -> (r: String)
    ensures
        r@ == json_text(json_content(*value)),
        plain(json_content(*value), READ_DEPTH as nat) ==> json_document(r@) == Some(
            json_content(*value),
        ),
{
    value.to_string()
}

} // verus!
