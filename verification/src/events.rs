//! Ingestion of EVE JSON bodies for the forwarding endpoint. A body is
//! parsed once; an array forwards its items, a lone object forwards itself,
//! anything else is refused. The upstream's answers are folded back into
//! one reply. Parsing leans on serde_json behind two trusted wrappers; the
//! parsed values themselves stay opaque and are carried through untouched.

use vstd::prelude::*;

use serde_json::Value;

verus! {

#[verifier::external_type_specification]
#[verifier::external_body]
pub struct ExValue(serde_json::Value);

/// Whether a byte sequence is one well-formed JSON document, as
/// serde_json's parser decides it. Parsing is a function of the bytes
/// alone.
pub uninterp spec fn json_parses(b: Seq<u8>) -> bool;

/// Relies on `serde_json::from_slice::<Value>`: it succeeds exactly on the
/// byte sequences that are well-formed JSON, and on nothing else.
#[verifier::external_body]
pub(crate) fn parse_json(bytes: &[u8]) -> (r: Result<Value, ()>)
    ensures
        r is Ok <==> json_parses(bytes@),
{
    match serde_json::from_slice::<Value>(bytes) {
        Ok(v) => Ok(v),
        Err(_) => Err(()),
    }
}

/// Relies on the shape of `serde_json::Value`: an array hands over its
/// elements, a lone object hands over itself, and any other document is
/// refused. The values are moved, never altered.
#[verifier::external_body]
fn event_items(v: Value) -> Result<Vec<Value>, ()> {
    match v {
        Value::Array(items) => Ok(items),
        Value::Object(m) => Ok(vec![Value::Object(m)]),
        _ => Err(()),
    }
}

/// A request body, classified.
pub enum EventBody {
    /// The body is not well-formed JSON.
    BadJson,
    /// The document is valid JSON but neither an array nor an object.
    NotEventShape,
    /// The events to forward upstream, one per item, in body order.
    Items(Vec<Value>),
}

/// Split a request body into the events to forward: a JSON array yields its
/// items, a lone object yields one event, and a body that does not parse is
/// the bad-JSON case.
pub fn classify_event_body(bytes: &[u8]) -> (r: EventBody)
    ensures
        r is BadJson <==> !json_parses(bytes@),
{
    match parse_json(bytes) {
        Err(_) => EventBody::BadJson,
        Ok(v) => {
            match event_items(v) {
                Ok(items) => EventBody::Items(items),
                Err(_) => EventBody::NotEventShape,
            }
        },
    }
}

/// The HTTP status a classification settles by itself: both refusals are
/// bad requests; a body with items is decided later, by what the upstream
/// answers.
pub fn event_body_status(r: &EventBody) -> (s: Option<u16>)
    ensures
        (*r) is BadJson ==> s == Some(400u16),
        (*r) is NotEventShape ==> s == Some(400u16),
        (*r) is Items ==> s is None,
{
    match r {
        EventBody::BadJson => Some(400),
        EventBody::NotEventShape => Some(400),
        EventBody::Items(_) => None,
    }
}

/// What the endpoint echoes back.
pub enum EveReply {
    /// The upstream's one answer, echoed alone.
    Single(Value),
    /// The upstream's answers, echoed as an array.
    Many(Vec<Value>),
}

/// Fold the upstream's per-event answers into the reply: no answer at all
/// is the bad-gateway case; one is echoed alone; several are echoed
/// together, in order.
pub fn aggregate_upstream_results(results: Vec<Value>) -> (r: Option<EveReply>)
    ensures
        r is None <==> results@.len() == 0,
        results@.len() == 1 ==> (r matches Some(EveReply::Single(v)) && v == results@[0]),
        results@.len() > 1 ==> (r matches Some(EveReply::Many(vs)) && vs@ == results@),
{
    if results.len() == 0 {
        None
    } else if results.len() == 1 {
        let mut rest = results;
        match rest.pop() {
            Some(v) => Some(EveReply::Single(v)),
            None => None,
        }
    } else {
        Some(EveReply::Many(results))
    }
}

} // verus!
