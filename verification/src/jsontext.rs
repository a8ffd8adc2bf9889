//! The boundary to the JSON text parser. Turning a string into a document
//! is the one piece of work this module takes on trust; everything done
//! with the document afterwards is verified.

use vstd::prelude::*;
use crate::json::{Json, JVal};

verus! {

/// The document a string parses to, if it is well-formed JSON.
pub uninterp spec fn json_doc_of(s: Seq<char>) -> Option<JVal>;

/// Declares serde_json's value type; values of it are only ever carried
/// straight from the parser into [`value_to_json`].
#[verifier::external_type_specification]
#[verifier::external_body]
pub struct ExValue(serde_json::Value);

/// Relies on serde_json::from_str::<serde_json::Value>: whether a string
/// is well-formed JSON, and which document it denotes, depend on the
/// string alone. The returned tree is the parsed value carried over
/// variant by variant.
#[verifier::external_body]
pub fn parse_json(s: &str) -> (r: Option<Json>)
    ensures
        match r {
            Some(j) => json_doc_of(s@) == Some(j@),
            None => json_doc_of(s@) is None,
        },
{
    serde_json::from_str::<serde_json::Value>(s).ok().map(value_to_json)
}

/// The JSON text a document renders to.
pub uninterp spec fn json_text_of(j: JVal) -> Seq<char>;

/// Relies on serde_json::to_string over serde_json::Value: the rendered
/// text depends on the document alone, and rendering a value never
/// fails.
#[verifier::external_body]
pub fn json_to_text(j: &Json) -> (r: String)
    ensures
        r@ == json_text_of(j@),
{
    serde_json::to_string(&json_to_value(j)).unwrap_or_default()
}

/// Relies on the public shape of serde_json::Value: each variant of the
/// document is carried back one for one.
#[verifier::external_body]
fn json_to_value(j: &Json) -> serde_json::Value {
    match j {
        Json::Null => serde_json::Value::Null,
        Json::Bool(b) => serde_json::Value::Bool(*b),
        Json::Num(n) => serde_json::Value::Number((*n).into()),
        Json::Str(s) => serde_json::Value::String(s.clone()),
        Json::Arr(a) => serde_json::Value::Array(a.iter().map(json_to_value).collect()),
        Json::Obj(m) => serde_json::Value::Object(
            m.iter().map(|(k, x)| (k.clone(), json_to_value(x))).collect(),
        ),
    }
}

/// Relies on the public shape of serde_json::Value: each variant is moved
/// over one for one. A number that is not a u64 becomes null; the decoders
/// in this crate read no such field.
#[verifier::external_body]
fn value_to_json(v: serde_json::Value) -> Json {
    match v {
        serde_json::Value::Null => Json::Null,
        serde_json::Value::Bool(b) => Json::Bool(b),
        serde_json::Value::Number(n) => match n.as_u64() {
            Some(u) => Json::Num(u),
            None => Json::Null,
        },
        serde_json::Value::String(s) => Json::Str(s),
        serde_json::Value::Array(a) => Json::Arr(a.into_iter().map(value_to_json).collect()),
        serde_json::Value::Object(m) => Json::Obj(
            m.into_iter().map(|(k, x)| (k, value_to_json(x))).collect(),
        ),
    }
}

} // verus!
