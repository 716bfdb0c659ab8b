//! Reading JSON text through the `json` crate.
//!
//! What a parsed document holds is named, as a function of the text and of a
//! path into it, by the spec functions below. A `JsonNode` is built only by the
//! readers of this module, which record the text it was parsed from and the
//! path that led to it.
use vstd::prelude::*;

verus! {

/// One step of a path: `(key, -1)` selects an object member, `(_, i)` with
/// `i >= 0` an array element.
pub type JsonPath = Seq<(Seq<char>, int)>;

/// The text is well-formed JSON.
pub uninterp spec fn json_parses(text: Seq<char>) -> bool;

/// The string at `path`, if the value there is a string.
pub uninterp spec fn json_str_at(text: Seq<char>, path: Seq<(Seq<char>, int)>) -> Option<Seq<char>>;

/// The number at `path`, if it is one that fits an `i64`.
pub uninterp spec fn json_i64_at(text: Seq<char>, path: Seq<(Seq<char>, int)>) -> Option<i64>;

/// The number at `path`, if it is one that fits a `u64`.
pub uninterp spec fn json_u64_at(text: Seq<char>, path: Seq<(Seq<char>, int)>) -> Option<u64>;

/// The boolean at `path`, if the value there is one.
pub uninterp spec fn json_bool_at(text: Seq<char>, path: Seq<(Seq<char>, int)>) -> Option<bool>;

/// Entries of the array or object at `path`; `0` for any other value.
pub uninterp spec fn json_len_at(text: Seq<char>, path: Seq<(Seq<char>, int)>) -> nat;

pub open spec fn member(p: JsonPath, key: Seq<char>) -> JsonPath {
    p.push((key, -1))
}

pub open spec fn element(p: JsonPath, i: int) -> JsonPath {
    p.push((Seq::empty(), i))
}

#[verifier::external_type_specification]
#[verifier::external_body]
pub struct ExJsonValue(json::JsonValue);

/// A value inside a parsed document.
pub struct JsonNode {
    value: json::JsonValue,
    text: Ghost<Seq<char>>,
    path: Ghost<JsonPath>,
}

impl JsonNode {
    /// The text the document was parsed from.
    pub closed spec fn text(&self) -> Seq<char> {
        self.text@
    }

    /// Where in the document this value sits.
    pub closed spec fn path(&self) -> JsonPath {
        self.path@
    }
}

/// Relies on `json::parse`: `Ok` exactly for well-formed JSON text; the root
/// of the document.
#[verifier::external_body]
pub fn json_parse(text: &str) -> (r: Option<JsonNode>)
    ensures
        r is Some <==> json_parses(text@),
        r matches Some(n) ==> n.text() == text@ && n.path() == Seq::<(Seq<char>, int)>::empty(),
{
    match json::parse(text) {
        Ok(value) => Some(JsonNode { value, text: Ghost(text@), path: Ghost(Seq::empty()) }),
        Err(_) => None,
    }
}

/// Relies on `JsonValue`'s `Index<&str>`: the member (null when absent or not an object).
#[verifier::external_body]
pub fn json_member(node: &JsonNode, key: &str) -> (r: JsonNode)
    ensures
        r.text() == node.text(),
        r.path() == member(node.path(), key@),
{
    JsonNode { value: node.value[key].clone(), text: node.text, path: Ghost(member(node.path@, key@)) }
}

/// Relies on `JsonValue`'s `Index<usize>`: the element (null when absent or not an array).
#[verifier::external_body]
pub fn json_element(node: &JsonNode, i: usize) -> (r: JsonNode)
    ensures
        r.text() == node.text(),
        r.path() == element(node.path(), i as int),
{
    JsonNode { value: node.value[i].clone(), text: node.text, path: Ghost(element(node.path@, i as int)) }
}

/// Relies on `JsonValue::len`: entries of an array or object, else `0`.
#[verifier::external_body]
pub fn json_len(node: &JsonNode) -> (r: usize)
    ensures
        r == json_len_at(node.text(), node.path()),
{
    node.value.len()
}

/// Relies on `JsonValue::as_str`: the text of a string value.
#[verifier::external_body]
pub fn json_str(node: &JsonNode) -> (r: Option<String>)
    ensures
        r is Some <==> json_str_at(node.text(), node.path()) is Some,
        r matches Some(s) ==> json_str_at(node.text(), node.path()) == Some(s@),
{
    node.value.as_str().map(String::from)
}

/// Relies on `JsonValue::as_i64`: a number that is an `i64`.
#[verifier::external_body]
pub fn json_i64(node: &JsonNode) -> (r: Option<i64>)
    ensures
        r == json_i64_at(node.text(), node.path()),
{
    node.value.as_i64()
}

/// Relies on `JsonValue::as_u64`: a number that is a `u64`.
#[verifier::external_body]
pub fn json_u64(node: &JsonNode) -> (r: Option<u64>)
    ensures
        r == json_u64_at(node.text(), node.path()),
{
    node.value.as_u64()
}

/// Relies on `JsonValue::as_bool`: the value of a boolean.
#[verifier::external_body]
pub fn json_bool(node: &JsonNode) -> (r: Option<bool>)
    ensures
        r == json_bool_at(node.text(), node.path()),
{
    node.value.as_bool()
}

} // verus!
