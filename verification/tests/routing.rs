//! The routing table, request dispatch with identifier capture, and the
//! CORS policy.

use suricata_agent::routes::{
    create_cors, dispatch, post_route, router_eve_json_log, router_rule, router_suricata, routes,
    Endpoint, HttpMethod,
};

#[test]
fn the_merged_table_has_every_route() {
    let table = routes();
    assert_eq!(table.len(), 9);
    assert_eq!(router_eve_json_log().len(), 1);
    assert_eq!(router_rule().len(), 4);
    assert_eq!(router_suricata().len(), 4);
    assert_eq!(post_route().len(), 1);
}

#[test]
fn fixed_paths_dispatch_to_their_endpoints() {
    let table = routes();
    let cases = [
        (HttpMethod::Post, "/eve_json_log", Endpoint::SendEveJsonLog),
        (HttpMethod::Get, "/rule", Endpoint::ListRules),
        (HttpMethod::Post, "/rule", Endpoint::CreateRule),
        (HttpMethod::Get, "/suricata/status", Endpoint::SuricataStatus),
        (HttpMethod::Get, "/suricata/statistics", Endpoint::SuricataStatistics),
        (HttpMethod::Get, "/suricata/interface", Endpoint::SuricataInterface),
        (HttpMethod::Post, "/suricata/rules/reload", Endpoint::SuricataReloadRules),
    ];
    for (method, path, endpoint) in cases {
        let (e, cap) = dispatch(&table, method, path).unwrap();
        assert_eq!(e, endpoint, "path {:?}", path);
        assert_eq!(cap, None);
    }
}

#[test]
fn capturing_routes_extract_the_identifier() {
    let table = routes();
    let (e, cap) = dispatch(&table, HttpMethod::Get, "/rule/rule_655600d8455ff94b").unwrap();
    assert_eq!(e, Endpoint::GetRule);
    assert_eq!(cap.as_deref(), Some("rule_655600d8455ff94b"));
    let (e2, cap2) = dispatch(&table, HttpMethod::Delete, "/rule/rule_deadbeef").unwrap();
    assert_eq!(e2, Endpoint::DeleteRule);
    assert_eq!(cap2.as_deref(), Some("rule_deadbeef"));
}

#[test]
fn unmatched_requests_dispatch_to_nothing() {
    let table = routes();
    assert!(dispatch(&table, HttpMethod::Get, "/nothing").is_none());
    assert!(dispatch(&table, HttpMethod::Delete, "/rule").is_none());
    assert!(dispatch(&table, HttpMethod::Get, "/rule/a/b").is_none());
    assert!(dispatch(&table, HttpMethod::Get, "/rule/").is_none());
    assert!(dispatch(&table, HttpMethod::Put, "/rule").is_none());
}

#[test]
fn the_post_route_stands_alone() {
    let table = post_route();
    let (e, cap) = dispatch(&table, HttpMethod::Post, "/post").unwrap();
    assert_eq!(e, Endpoint::CreatePost);
    assert_eq!(cap, None);
}

#[test]
fn cors_policy_matches_the_surface_contract() {
    let cors = create_cors();
    assert_eq!(
        cors.methods,
        vec![
            HttpMethod::Get,
            HttpMethod::Post,
            HttpMethod::Put,
            HttpMethod::Delete,
            HttpMethod::Patch,
            HttpMethod::Options,
        ]
    );
    assert_eq!(
        cors.allow_headers,
        vec!["content-type", "authorization", "accept", "origin", "referer", "user-agent"]
    );
    assert!(cors.allow_credentials);
    assert_eq!(cors.allowed_origin, "http://localhost:localhost:8080");
}
