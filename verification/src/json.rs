//! The boundary to serde_json.  JSON parsing and serialization are done by
//! the outside crate; the library sees the outcome as plain values, named by
//! the spec functions below.

use vstd::prelude::*;

verus! {

/// One field value of a JSON object, as the header and form logic reads it:
/// either a string, or anything else.
#[derive(Debug, Clone, PartialEq, Eq)]
pub enum JsonField {
    Str(String),
    Other,
}

/// The mathematical image of a field value.
pub enum JsonFieldView {
    Str(Seq<char>),
    Other,
}

impl View for JsonField {
    type V = JsonFieldView;

    open spec fn view(&self) -> JsonFieldView {
        match self {
            JsonField::Str(s) => JsonFieldView::Str(s@),
            JsonField::Other => JsonFieldView::Other,
        }
    }
}

/// What a text looks like once read as JSON: not JSON at all, a JSON value
/// that is not an object, or an object given as its fields in order.
#[derive(Debug, Clone, PartialEq, Eq)]
pub enum JsonObj {
    NotJson,
    NotObject,
    Object(Vec<(String, JsonField)>),
}

/// The mathematical image of a read JSON text.
pub enum JsonObjView {
    NotJson,
    NotObject,
    Object(Seq<(Seq<char>, JsonFieldView)>),
}

impl View for JsonObj {
    type V = JsonObjView;

    open spec fn view(&self) -> JsonObjView {
        match self {
            JsonObj::NotJson => JsonObjView::NotJson,
            JsonObj::NotObject => JsonObjView::NotObject,
            JsonObj::Object(fs) => JsonObjView::Object(
                Seq::new(fs@.len(), |i: int| (fs@[i].0@, fs@[i].1@)),
            ),
        }
    }
}

/// What serde_json::from_str returns on a text, abstracted to the object
/// shape above.  serde_json keeps object members in a map ordered by key, so
/// the result, its field order included, is a function of the text alone.
pub uninterp spec fn json_object_of(s: Seq<char>) -> JsonObjView;

/// The canonical serialization of the JSON value a text parses to (what
/// serde_json::to_string returns on the parsed value), or `None` when the
/// text is not JSON.  A function of the text alone.
pub uninterp spec fn json_canon(s: Seq<char>) -> Option<Seq<char>>;

/// The indented serialization of the JSON value a text parses to (what
/// serde_json::to_string_pretty returns on the parsed value).  A function of
/// the text alone; meaningful only where the text parses.
pub uninterp spec fn pretty_of(s: Seq<char>) -> Seq<char>;

/// Relies on serde_json::from_str::<Value>: a text either fails to parse, or
/// parses to a value; an object's members come out of serde_json's map in
/// key order, a string member as its text.
#[verifier::external_body]
pub(crate) fn parse_json_object(s: &str) -> (r: JsonObj)
    ensures
        r@ == json_object_of(s@),
{
    match serde_json::from_str::<serde_json::Value>(s) {
        Err(_) => JsonObj::NotJson,
        Ok(serde_json::Value::Object(m)) => JsonObj::Object(
            m.into_iter().map(
                |(k, v)| match v {
                    serde_json::Value::String(t) => (k, JsonField::Str(t)),
                    _ => (k, JsonField::Other),
                },
            ).collect(),
        ),
        Ok(_) => JsonObj::NotObject,
    }
}

/// Relies on serde_json::from_str::<Value> and serde_json::to_string_pretty:
/// pretty-printing succeeds exactly on the texts that parse and returns the
/// indented serialization of the parsed value, which parses back to the very
/// same value — its canonical serialization is unchanged.
#[verifier::external_body]
pub(crate) fn pretty_json(s: &str) -> (r: Option<String>)
    ensures
        r is Some <==> json_canon(s@) is Some,
        r matches Some(p) ==> (p@ == pretty_of(s@) && json_canon(p@) == json_canon(s@)),
{
    match serde_json::from_str::<serde_json::Value>(s) {
        Ok(v) => serde_json::to_string_pretty(&v).ok(),
        Err(_) => None,
    }
}

} // verus!
