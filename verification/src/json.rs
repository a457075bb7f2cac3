//! JSON documents.
//!
//! A document is a `serde_json::Value`. Contracts speak of it through
//! [`json_view`], the tree that it holds.

use crate::text::sorts_before;
use vstd::prelude::*;
use vstd::utf8::encode_utf8;

verus! {

/// The tree that a JSON document holds. A number is an integer, or the text
/// that it is written with.
pub enum JsonView {
    Null,
    Bool(bool),
    Int(int),
    Float(Seq<char>),
    Str(Seq<char>),
    Array(Seq<JsonView>),
    Object(Map<Seq<char>, JsonView>),
}

/// `serde_json::Value`, a parsed JSON document.
#[verifier::external_type_specification]
#[verifier::external_body]
pub struct ExValue(serde_json::Value);

/// What a `serde_json::Value` holds.
pub uninterp spec fn json_view(v: serde_json::Value) -> JsonView;

/// What `serde_json::from_slice` makes of some bytes: the document that they
/// write, or the text of the error.
pub uninterp spec fn json_parse(bytes: Seq<u8>) -> Result<JsonView, Seq<char>>;

/// The compact JSON text of a document.
pub uninterp spec fn json_compact(v: JsonView) -> Seq<char>;

/// What `serde_json::to_string_pretty` makes of a document: its indented JSON
/// text, or the text of the error.
pub uninterp spec fn json_pretty(v: JsonView) -> Result<Seq<char>, Seq<char>>;

/// The member of an object under `key`.
pub open spec fn member(v: JsonView, key: Seq<char>) -> Option<JsonView> {
    match v {
        JsonView::Object(m) => if m.dom().contains(key) {
            Some(m[key])
        } else {
            None
        },
        _ => None,
    }
}

/// The element of an array at `i`.
pub open spec fn element(v: JsonView, i: int) -> Option<JsonView> {
    match v {
        JsonView::Array(items) => if 0 <= i < items.len() {
            Some(items[i])
        } else {
            None
        },
        _ => None,
    }
}

/// The text of a string.
pub open spec fn as_text(v: JsonView) -> Option<Seq<char>> {
    match v {
        JsonView::Str(s) => Some(s),
        _ => None,
    }
}

/// The text of the string member of an object under `key`.
pub open spec fn text_member(v: JsonView, key: Seq<char>) -> Option<Seq<char>> {
    match member(v, key) {
        Some(m) => as_text(m),
        None => None,
    }
}

/// The member name under which `serde_json` writes a raw document. An object whose
/// first member has it may be read as the document that the member's text writes.
pub const RAW_MEMBER: &'static str = "$serde_json::private::RawValue";

/// Whether an object is not taken for a raw document: no member has that name, or
/// another member is written before it.
pub open spec fn is_told_from_raw(members: Map<Seq<char>, JsonView>) -> bool {
    members.contains_key(RAW_MEMBER@) ==> exists|k: Seq<char>| #[trigger]
        members.contains_key(k) && sorts_before(k, RAW_MEMBER@)
}

/// Whether a document holds no floats and no object that is taken for a raw
/// document, and nests arrays and objects at most `depth` deep.
pub open spec fn is_plain(v: JsonView, depth: nat) -> bool
    decreases depth,
{
    match v {
        JsonView::Float(_) => false,
        JsonView::Array(items) => depth > 0 && forall|i: int|
            0 <= i < items.len() ==> is_plain(#[trigger] items[i], (depth - 1) as nat),
        JsonView::Object(members) => {
            &&& depth > 0
            &&& is_told_from_raw(members)
            &&& forall|k: Seq<char>|
                members.contains_key(k) ==> is_plain(#[trigger] members[k], (depth - 1) as nat)
        },
        _ => true,
    }
}

/// The trees of a list of documents.
pub open spec fn json_views(v: Seq<serde_json::Value>) -> Seq<JsonView> {
    v.map_values(|x: serde_json::Value| json_view(x))
}

/// `serde_json::from_slice` reads a JSON document. What it returns is named by
/// `json_parse`; the error is handed out as its text.
#[verifier::external_body]
pub(crate) fn from_slice(bytes: &[u8]) -> (r: Result<serde_json::Value, String>)
    ensures
        match r {
            Ok(v) => json_parse(bytes@) == Ok::<JsonView, Seq<char>>(json_view(v)),
            Err(e) => json_parse(bytes@) == Err::<JsonView, Seq<char>>(e@),
        },
{
    serde_json::from_slice(bytes).map_err(|e| e.to_string())
}

/// `Value::get` with a string finds the member of an object, and nothing in
/// any other value.
#[verifier::external_body]
pub(crate) fn value_get<'a>(v: &'a serde_json::Value, key: &str) -> (r: Option<
    &'a serde_json::Value,
>)
    ensures
        match r {
            Some(x) => member(json_view(*v), key@) == Some(json_view(*x)),
            None => member(json_view(*v), key@) is None,
        },
{
    v.get(key)
}

/// `Value::get` with an index finds the element of an array, and nothing in any
/// other value.
#[verifier::external_body]
pub(crate) fn value_at(v: &serde_json::Value, i: usize) -> (r: Option<&serde_json::Value>)
    ensures
        match r {
            Some(x) => element(json_view(*v), i as int) == Some(json_view(*x)),
            None => element(json_view(*v), i as int) is None,
        },
{
    v.get(i)
}

/// `Value::as_str` gives the text of a string, and nothing for any other value.
#[verifier::external_body]
pub(crate) fn value_as_str(v: &serde_json::Value) -> (r: Option<&str>)
    ensures
        match r {
            Some(s) => json_view(*v) == JsonView::Str(s@),
            None => !(json_view(*v) is Str),
        },
{
    v.as_str()
}

/// `Value::as_array` gives the elements of an array, and nothing for any other
/// value.
#[verifier::external_body]
pub(crate) fn value_as_array(v: &serde_json::Value) -> (r: Option<&Vec<serde_json::Value>>)
    ensures
        match r {
            Some(items) => json_view(*v) == JsonView::Array(json_views(items@)),
            None => !(json_view(*v) is Array),
        },
{
    v.as_array()
}

/// `Value::clone` copies a document.
#[verifier::external_body]
pub(crate) fn value_clone(v: &serde_json::Value) -> (r: serde_json::Value)
    ensures
        json_view(r) == json_view(*v),
{
    v.clone()
}

/// The variant `Value::Object` around a new map is the object without members.
#[verifier::external_body]
pub(crate) fn value_object() -> (r: serde_json::Value)
    ensures
        json_view(r) == JsonView::Object(Map::empty()),
{
    serde_json::Value::Object(serde_json::Map::new())
}

/// Assigning to `Value::index_mut` of a key gives an object that member, in
/// place of one that it may have had.
#[verifier::external_body]
pub(crate) fn value_set(v: &mut serde_json::Value, key: &str, x: serde_json::Value)
    requires
        json_view(*old(v)) is Object,
    ensures
        json_view(*final(v)) == JsonView::Object(
            json_view(*old(v))->Object_0.insert(key@, json_view(x)),
        ),
{
    v[key] = x;
}

/// The variant `Value::String` is a string.
#[verifier::external_body]
pub(crate) fn value_string(s: String) -> (r: serde_json::Value)
    ensures
        json_view(r) == JsonView::Str(s@),
{
    serde_json::Value::String(s)
}

/// The variant `Value::Bool` is a truth value.
#[verifier::external_body]
pub(crate) fn value_bool(b: bool) -> (r: serde_json::Value)
    ensures
        json_view(r) == JsonView::Bool(b),
{
    serde_json::Value::Bool(b)
}

/// `Value::from` a `u64` is that integer.
#[verifier::external_body]
pub(crate) fn value_u64(n: u64) -> (r: serde_json::Value)
    ensures
        json_view(r) == JsonView::Int(n as int),
{
    serde_json::Value::from(n)
}

/// `Value::from` an `i64` is that integer.
#[verifier::external_body]
pub(crate) fn value_i64(n: i64) -> (r: serde_json::Value)
    ensures
        json_view(r) == JsonView::Int(n as int),
{
    serde_json::Value::from(n)
}

/// The variant `Value::Array` is the array of those elements.
#[verifier::external_body]
pub(crate) fn value_array(items: Vec<serde_json::Value>) -> (r: serde_json::Value)
    ensures
        json_view(r) == JsonView::Array(json_views(items@)),
{
    serde_json::Value::Array(items)
}

/// `Value::to_string` writes a document as compact JSON.
#[verifier::external_body]
pub(crate) fn value_to_string(v: &serde_json::Value) -> (r: String)
    ensures
        r@ == json_compact(json_view(*v)),
{
    v.to_string()
}

/// `serde_json::to_string_pretty` writes a document as indented JSON. What it
/// returns is named by `json_pretty`; the error is handed out as its text. A plain
/// document, nested no deeper than the parser goes, is written, and read back from
/// that text as it was. Nothing of the sort is said of floats, which may be read back with
/// another last digit, and of objects that are taken for a raw document.
#[verifier::external_body]
pub(crate) fn to_string_pretty(v: &serde_json::Value) -> (r: Result<String, String>)
    ensures
        match r {
            Ok(s) => json_pretty(json_view(*v)) == Ok::<Seq<char>, Seq<char>>(s@) && (is_plain(
                json_view(*v),
                127,
            ) ==> json_parse(encode_utf8(s@)) == Ok::<JsonView, Seq<char>>(json_view(*v))),
            Err(e) => json_pretty(json_view(*v)) == Err::<Seq<char>, Seq<char>>(e@) && !is_plain(
                json_view(*v),
                127,
            ),
        },
{
    serde_json::to_string_pretty(v).map_err(|e| e.to_string())
}

/// The text of the string member of an object under `key`.
pub fn text_of(v: &serde_json::Value, key: &str) -> (r: Option<String>)
    ensures
        match r {
            Some(s) => text_member(json_view(*v), key@) == Some(s@),
            None => text_member(json_view(*v), key@) is None,
        },
{
    match value_get(v, key) {
        Some(m) => match value_as_str(m) {
            Some(s) => Some(s.to_string()),
            None => None,
        },
        None => None,
    }
}

/// An object has the member that stands under a key, and nothing else has members.
pub proof fn law_member(v: JsonView, key: Seq<char>)
    ensures
        v is Object && v->Object_0.contains_key(key) ==> member(v, key) == Some(v->Object_0[key]),
        v is Object && !v->Object_0.contains_key(key) ==> member(v, key) is None,
        !(v is Object) ==> member(v, key) is None,
{
}

/// The text of a member is the text of a string, and there is none where the
/// member is missing or no string.
pub proof fn law_text_of(v: &serde_json::Value, key: &str, r: Option<String>)
    requires
        call_ensures(text_of, (v, key), r),
    ensures
        match member(json_view(*v), key@) {
            Some(JsonView::Str(s)) => r is Some && r->0@ == s,
            _ => r is None,
        },
{
}

} // verus!
