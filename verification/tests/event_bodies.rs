//! Event-body ingestion and reply aggregation for the forwarding endpoint.

use serde_json::Value;
use suricata_agent::events::{
    aggregate_upstream_results, classify_event_body, event_body_status, EveReply, EventBody,
};

fn value(text: &str) -> Value {
    serde_json::from_str(text).unwrap()
}

#[test]
fn an_array_body_yields_its_items() {
    match classify_event_body(b"[{\"a\":1},{\"b\":2}]") {
        EventBody::Items(items) => {
            assert_eq!(items.len(), 2);
            assert_eq!(items[0], value("{\"a\":1}"));
            assert_eq!(items[1], value("{\"b\":2}"));
        },
        _ => panic!("expected items"),
    }
}

#[test]
fn an_object_body_yields_one_item() {
    match classify_event_body(b"{\"event_type\":\"alert\"}") {
        EventBody::Items(items) => {
            assert_eq!(items.len(), 1);
            assert_eq!(items[0], value("{\"event_type\":\"alert\"}"));
        },
        _ => panic!("expected items"),
    }
}

#[test]
fn a_malformed_body_is_bad_json() {
    assert!(matches!(classify_event_body(b"{not json"), EventBody::BadJson));
    assert!(matches!(classify_event_body(b""), EventBody::BadJson));
}

#[test]
fn a_scalar_body_is_not_an_event_shape() {
    assert!(matches!(classify_event_body(b"42"), EventBody::NotEventShape));
    assert!(matches!(classify_event_body(b"\"text\""), EventBody::NotEventShape));
    assert!(matches!(classify_event_body(b"null"), EventBody::NotEventShape));
}

#[test]
fn refusals_map_to_bad_request() {
    assert_eq!(event_body_status(&classify_event_body(b"oops")), Some(400));
    assert_eq!(event_body_status(&classify_event_body(b"42")), Some(400));
    assert_eq!(event_body_status(&classify_event_body(b"{}")), None);
}

#[test]
fn no_upstream_answer_is_the_gateway_failure() {
    assert!(aggregate_upstream_results(Vec::new()).is_none());
}

#[test]
fn one_answer_is_echoed_alone() {
    match aggregate_upstream_results(vec![value("{\"ok\":true}")]) {
        Some(EveReply::Single(v)) => assert_eq!(v, value("{\"ok\":true}")),
        _ => panic!("expected a single echo"),
    }
}

#[test]
fn several_answers_are_echoed_in_order() {
    match aggregate_upstream_results(vec![value("1"), value("2")]) {
        Some(EveReply::Many(vs)) => {
            assert_eq!(vs.len(), 2);
            assert_eq!(vs[0], value("1"));
            assert_eq!(vs[1], value("2"));
        },
        _ => panic!("expected an array echo"),
    }
}
