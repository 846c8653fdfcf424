//! Reading values out of JSON text.
//!
//! The text is parsed by `serde_json`; a node is addressed by a JSON Pointer
//! (RFC 6901, e.g. `/error/message` or `/items/0`).  What the library reads
//! of a node is its kind, its text (the string itself for a JSON string, the
//! compact serialization otherwise) and, for an array, its length.
use vstd::prelude::*;
use crate::text::{append_v, chars_of, decimal, decimal_v};

verus! {

/// Kind of the node a pointer addresses.
#[derive(Clone, Copy, Debug, PartialEq, Eq, Structural)]
pub enum JsonKind {
    /// The text is not JSON, or the pointer addresses nothing.
    Missing,
    Str,
    Array,
    Object,
    /// A number, a boolean or `null`.
    Scalar,
}

/// What the library reads of one JSON node.
pub struct JsonNode {
    pub kind: JsonKind,
    pub text: String,
    pub len: usize,
}

impl View for JsonNode {
    type V = (JsonKind, Seq<char>, nat);

    open spec fn view(&self) -> (JsonKind, Seq<char>, nat) {
        (self.kind, self.text@, self.len as nat)
    }
}

/// The node that `pointer` addresses in the JSON document `text`: its kind,
/// its text (the string for a JSON string, the compact serialization
/// otherwise, empty when missing) and its length (arrays only).
pub uninterp spec fn json_pointer_node(text: Seq<char>, pointer: Seq<char>) -> (
    JsonKind,
    Seq<char>,
    nat,
);

/// `serde_json::from_str::<Value>` followed by `Value::pointer`: the node that
/// `pointer` addresses.  The contract names the result; it states nothing
/// of how serde_json parses.
#[verifier::external_body]
fn json_at(text: &str, pointer: &str) -> (r: JsonNode)
    ensures
        r@ == json_pointer_node(text@, pointer@),
{
    let doc = serde_json::from_str::<serde_json::Value>(text).ok();
    match doc.as_ref().and_then(|v| v.pointer(pointer)) {
        None => JsonNode { kind: JsonKind::Missing, text: String::new(), len: 0 },
        Some(serde_json::Value::String(s)) => JsonNode { kind: JsonKind::Str, text: s.clone(), len: 0 },
        Some(n @ serde_json::Value::Array(a)) => JsonNode { kind: JsonKind::Array, text: n.to_string(), len: a.len() },
        Some(n @ serde_json::Value::Object(_)) => JsonNode { kind: JsonKind::Object, text: n.to_string(), len: 0 },
        Some(n) => JsonNode { kind: JsonKind::Scalar, text: n.to_string(), len: 0 },
    }
}

/// The node at `pointer`.
pub fn node_at(text: &str, pointer: &Vec<char>) -> (r: JsonNode)
    ensures
        r@ == json_pointer_node(text@, pointer@),
{
    let mut p = String::new();
    crate::text::push_chars(&mut p, pointer);
    json_at(text, p.as_str())
}

/// The string at `pointer`, if the node there is a JSON string.
pub open spec fn str_at(text: Seq<char>, pointer: Seq<char>) -> Option<Seq<char>> {
    let n = json_pointer_node(text, pointer);
    if n.0 == JsonKind::Str {
        Some(n.1)
    } else {
        None
    }
}

pub fn str_at_v(text: &str, pointer: &Vec<char>) -> (r: Option<String>)
    ensures
        match r {
            Some(s) => str_at(text@, pointer@) == Some(s@),
            None => str_at(text@, pointer@) is None,
        },
{
    let n = node_at(text, pointer);
    if n.kind == JsonKind::Str {
        Some(n.text)
    } else {
        None
    }
}

/// Pointer step for an array element: `base` + `/` + decimal index.
pub open spec fn index_pointer(base: Seq<char>, i: nat) -> Seq<char> {
    base.push('/') + decimal(i)
}

pub fn index_pointer_v(base: &Vec<char>, i: usize) -> (r: Vec<char>)
    ensures
        r@ == index_pointer(base@, i as nat),
{
    let mut r: Vec<char> = Vec::new();
    append_v(&mut r, base);
    r.push('/');
    let d = decimal_v(i as u64);
    append_v(&mut r, &d);
    r
}

/// Pointer step for an object member: `base` + `/` + key (keys used by the
/// library hold neither `/` nor `~`).
pub open spec fn key_pointer(base: Seq<char>, key: Seq<char>) -> Seq<char> {
    base.push('/') + key
}

pub fn key_pointer_v(base: &Vec<char>, key: &str) -> (r: Vec<char>)
    ensures
        r@ == key_pointer(base@, key@),
{
    let mut r: Vec<char> = Vec::new();
    append_v(&mut r, base);
    r.push('/');
    let k = chars_of(key);
    append_v(&mut r, &k);
    r
}

/// What `Value`'s `Display` prints for the node that `pointer` addresses in
/// the JSON document `text` (`null` when nothing is there).
pub uninterp spec fn json_pointer_display(text: Seq<char>, pointer: Seq<char>) -> Seq<char>;

/// `serde_json::from_str::<Value>`, `Value::pointer`, then `to_string` of
/// the node (of `Value::Null` when missing). The contract names the result.
#[verifier::external_body]
fn json_display_at(text: &str, pointer: &str) -> (r: String)
    ensures
        r@ == json_pointer_display(text@, pointer@),
{
    let doc = serde_json::from_str::<serde_json::Value>(text).ok();
    match doc.as_ref().and_then(|v| v.pointer(pointer)) {
        Some(n) => n.to_string(),
        None => serde_json::Value::Null.to_string(),
    }
}

/// The displayed node at `pointer`.
pub fn display_at(text: &str, pointer: &Vec<char>) -> (r: String)
    ensures
        r@ == json_pointer_display(text@, pointer@),
{
    let mut p = String::new();
    crate::text::push_chars(&mut p, pointer);
    json_display_at(text, p.as_str())
}

/// The members of the top-level object of the JSON document `text`, in the
/// order serde_json keeps them, each with its value's text when that value
/// is a JSON string (no members when `text` is not a JSON object).
pub uninterp spec fn json_object_strings(text: Seq<char>) -> Seq<(Seq<char>, Option<Seq<char>>)>;

pub open spec fn member_views(v: Seq<(String, Option<String>)>) -> Seq<(Seq<char>, Option<Seq<char>>)> {
    v.map_values(
        |m: (String, Option<String>)|
            (
                m.0@,
                match m.1 {
                    Some(t) => Some(t@),
                    None => None,
                },
            ),
    )
}

/// `serde_json::from_str::<Value>`, then for an object each member's key and
/// `Value::as_str` of its value. The contract names the result.
#[verifier::external_body]
pub(crate) fn object_strings_at(text: &str) -> (r: Vec<(String, Option<String>)>)
    ensures
        member_views(r@) == json_object_strings(text@),
{
    match serde_json::from_str::<serde_json::Value>(text) {
        Ok(serde_json::Value::Object(m)) => {
            m.iter().map(|(k, v)| (k.clone(), v.as_str().map(|t| t.to_string()))).collect()
        },
        _ => Vec::new(),
    }
}

/// What serde_json prints for the object collected from `members` in order,
/// each value a JSON string (collecting into a `Map` keeps the value given
/// last for a repeated key).
pub uninterp spec fn json_string_object(members: Seq<(Seq<char>, Seq<char>)>) -> Seq<char>;

pub open spec fn string_pair_views(v: Seq<(String, String)>) -> Seq<(Seq<char>, Seq<char>)> {
    v.map_values(|p: (String, String)| (p.0@, p.1@))
}

/// A `serde_json::Map` collected from `members` (values as `Value::String`),
/// printed by `Value`'s `Display`. The contract names the result.
#[verifier::external_body]
pub(crate) fn string_object_text(members: &Vec<(String, String)>) -> (r: String)
    ensures
        r@ == json_string_object(string_pair_views(members@)),
{
    let m: serde_json::Map<String, serde_json::Value> =
        members.iter().map(|(k, v)| (k.clone(), serde_json::Value::String(v.clone()))).collect();
    serde_json::Value::Object(m).to_string()
}

} // verus!
