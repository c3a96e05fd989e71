//! Parsed JSON documents, as `serde_json` produces them.
//!
//! A document is carried as an opaque `serde_json::Value`; what it holds
//! is named by the spec-level tree [`JsonTree`], so that the path-walking
//! logic working on documents has an exact contract while the parsing,
//! lookup and serialization themselves are the outside crate's work.

use vstd::prelude::*;
use crate::strmap::lookup;

verus! {

#[verifier::external_type_specification]
#[verifier::external_body]
pub struct ExValue(serde_json::Value);

/// The spec-level shape of a JSON document: numbers appear as their
/// source text, objects as their entries in the crate's storage order.
pub enum JsonTree {
    Null,
    Truth(bool),
    Num(Seq<char>),
    Str(Seq<char>),
    Arr(Seq<JsonTree>),
    Obj(Seq<(Seq<char>, JsonTree)>),
}

/// What `serde_json::from_str::<Value>` says about a text: `None` when
/// the text parses, otherwise the error's display text.  The result
/// depends on the text alone.
pub uninterp spec fn json_err(s: Seq<char>) -> Option<Seq<char>>;

/// The document a parsable text denotes; meaningful where `json_err`
/// is `None`.  The result depends on the text alone.
pub uninterp spec fn json_tree(s: Seq<char>) -> JsonTree;

/// What a `serde_json::Value` holds, as a tree.
pub uninterp spec fn doc_model(v: serde_json::Value) -> JsonTree;

/// The compact text `serde_json::to_string` writes for a document.
/// The result depends on the document alone.
pub uninterp spec fn json_dump(t: JsonTree) -> Seq<char>;

/// The child of a document under a key: object entries are looked up
/// by key; every other document kind has no children, as
/// `serde_json::Value::get` answers for a string index.
pub open spec fn tree_child(t: JsonTree, k: Seq<char>) -> Option<JsonTree> {
    match t {
        JsonTree::Obj(ps) => lookup(ps, k),
        _ => None,
    }
}

/// The descendant of a document under a path of keys, one step per
/// part; `None` as soon as a step is missing.
pub open spec fn tree_walk(t: JsonTree, parts: Seq<Seq<char>>) -> Option<JsonTree>
    decreases parts.len(),
{
    if parts.len() == 0 {
        Some(t)
    } else {
        match tree_child(t, parts[0]) {
            Some(c) => tree_walk(c, parts.skip(1)),
            None => None,
        }
    }
}

/// Relies on `serde_json::from_str::<Value>`: parses the text into a
/// document, or hands back the parse error's display text.
#[verifier::external_body]
pub fn parse_json(s: &str) -> (r: Result<serde_json::Value, String>)
    ensures
        r is Ok <==> json_err(s@) is None,
        r matches Ok(v) ==> doc_model(v) == json_tree(s@),
        r matches Err(e) ==> json_err(s@) == Some(e@),
{
    match serde_json::from_str::<serde_json::Value>(s) {
        Ok(v) => Ok(v),
        Err(e) => Err(e.to_string()),
    }
}

/// Relies on `serde_json::Value::get` with a string index: on an object
/// it looks the key up, on anything else it answers `None`; the hit is
/// cloned out.
#[verifier::external_body]
pub fn json_child(v: &serde_json::Value, key: &str) -> (r: Option<serde_json::Value>)
    ensures
        r is Some <==> tree_child(doc_model(*v), key@) is Some,
        r matches Some(c) ==> tree_child(doc_model(*v), key@) == Some(doc_model(c)),
{
    v.get(key).cloned()
}

/// Relies on `serde_json::to_string`: writing a `Value` cannot fail
/// (its numbers are finite and its keys are strings), so the impossible
/// error collapses to an empty string.
#[verifier::external_body]
pub fn json_text_of(v: &serde_json::Value) -> (r: String)
    ensures
        r@ == json_dump(doc_model(*v)),
{
    serde_json::to_string(v).unwrap_or_default()
}

/// Relies on `serde_json::Value::as_array`: the elements of an array
/// document, cloned out in order; `None` for any other kind.
#[verifier::external_body]
pub fn json_as_array(v: &serde_json::Value) -> (r: Option<Vec<serde_json::Value>>)
    ensures
        (r is Some) == (doc_model(*v) is Arr),
        r matches Some(items) ==> {
            let elems = doc_model(*v)->Arr_0;
            items@.len() == elems.len() && forall|i: int|
                0 <= i < elems.len() ==> doc_model(items@[i]) == elems[i]
        },
{
    v.as_array().cloned()
}

/// Relies on `serde_json::Value::as_str`: the text of a string
/// document, cloned out; `None` for any other kind.
#[verifier::external_body]
pub fn json_as_str(v: &serde_json::Value) -> (r: Option<String>)
    ensures
        (r is Some) == (doc_model(*v) is Str),
        r matches Some(s) ==> doc_model(*v) == JsonTree::Str(s@),
{
    match v.as_str() {
        Some(s) => Some(s.to_string()),
        None => None,
    }
}

} // verus!
