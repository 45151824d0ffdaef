//! Rule identifiers: derived from the text alone, stable across calls, and
//! pinned to FNV-1a 64 over the UTF-8 bytes.

use suricata_agent::rule_id::generate_rule_id;

#[test]
fn id_is_deterministic() {
    let r = "alert tcp any any -> any 80 (msg:\"hi\"; sid:1;)";
    assert_eq!(generate_rule_id(r), generate_rule_id(r));
}

#[test]
fn id_matches_the_pinned_hash() {
    // FNV-1a 64 reference values.
    assert_eq!(generate_rule_id(""), "rule_cbf29ce484222325");
    assert_eq!(generate_rule_id("a"), "rule_af63dc4c8601ec8c");
    assert_eq!(
        generate_rule_id("alert tcp any any -> any 80 (msg:\"hi\"; sid:1;)"),
        "rule_655600d8455ff94b"
    );
    assert_eq!(
        generate_rule_id("alert icmp any any -> any any (msg:\"ping\"; sid:2;)"),
        "rule_c5f7ded85414540d"
    );
}

#[test]
fn distinct_rules_get_distinct_ids() {
    let a = generate_rule_id("alert tcp any any -> any 80 (msg:\"a\"; sid:1;)");
    let b = generate_rule_id("alert tcp any any -> any 80 (msg:\"b\"; sid:2;)");
    assert_ne!(a, b);
}

#[test]
fn id_shape_is_prefix_plus_hex() {
    let id = generate_rule_id("x");
    assert!(id.starts_with("rule_"));
    assert!(id.len() > "rule_".len());
    assert!(id["rule_".len()..].chars().all(|c| c.is_ascii_hexdigit() && !c.is_ascii_uppercase()));
}
