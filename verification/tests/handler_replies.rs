//! The rule endpoints end to end: statuses, envelope messages, and the
//! writes they ask for.

use suricata_agent::handlers::{create_rule, delete_rule, get_rule, get_rules};
use suricata_agent::models::RuleRequest;
use suricata_agent::rule_id::generate_rule_id;

const RULE_A: &str = "alert tcp any any -> any 80 (msg:\"hi\"; sid:1;)";

fn request(rule: &str) -> RuleRequest {
    RuleRequest { rule_content: rule.to_string(), rule_type: None, filename: None }
}

#[test]
fn valid_rule_append_is_created() {
    let reply = create_rule(None, &request(RULE_A));
    assert_eq!(reply.status, 201);
    assert!(reply.body.success);
    assert_eq!(reply.body.message.as_deref(), Some("Rule added and applied successfully"));
    let write = reply.write.unwrap();
    assert_eq!(write.new_content, format!("{}\n", RULE_A));
    assert_eq!(write.rule_id, generate_rule_id(RULE_A));
    assert_eq!(write.backup, None);
}

#[test]
fn invalid_rule_append_is_a_bad_request() {
    let reply = create_rule(None, &request("alert tcp any any -> any 80 (msg:\"hi\";)"));
    assert_eq!(reply.status, 400);
    assert!(!reply.body.success);
    assert_eq!(reply.body.message.as_deref(), Some("Missing required option: sid"));
    assert!(reply.write.is_none());
}

#[test]
fn delete_of_a_missing_id_is_not_found() {
    let content = format!("{}\n", RULE_A).to_string();
    let reply = delete_rule(Some(&content), "rule_deadbeef");
    assert_eq!(reply.status, 404);
    assert!(!reply.body.success);
    assert_eq!(reply.body.message.as_deref(), Some("Rule with ID 'rule_deadbeef' not found"));
    assert!(reply.new_content.is_none());
}

#[test]
fn delete_without_a_rules_file_is_not_found() {
    let reply = delete_rule(None, "rule_deadbeef");
    assert_eq!(reply.status, 404);
    assert_eq!(reply.body.message.as_deref(), Some("Rules file does not exist"));
}

#[test]
fn delete_of_a_stored_rule_succeeds() {
    let content = format!("# keep\n{}\n", RULE_A).to_string();
    let id = generate_rule_id(RULE_A);
    let reply = delete_rule(Some(&content), &id);
    assert_eq!(reply.status, 200);
    assert!(reply.body.success);
    assert_eq!(
        reply.body.message.as_deref(),
        Some("Rule deleted and changes applied successfully")
    );
    assert_eq!(reply.new_content.as_deref(), Some("# keep\n"));
}

#[test]
fn listing_mixed_content_counts_only_rules() {
    let content = format!(
        "# header\n\n{}\nalert tcp any any -> any 81 (msg:\"d\"; sid:2;)\n",
        RULE_A
    )
    .to_string();
    let reply = get_rules(Some(&content));
    assert_eq!(reply.status, 200);
    assert!(reply.body.success);
    let data = reply.body.data.unwrap();
    assert_eq!(data.rules.len(), 2);
    assert_eq!(data.count, 2);
    assert_eq!(data.rules[0].content, RULE_A);
    assert_eq!(
        data.rules[1].content,
        "alert tcp any any -> any 81 (msg:\"d\"; sid:2;)"
    );
}

#[test]
fn listing_without_a_file_is_empty() {
    let reply = get_rules(None);
    assert_eq!(reply.status, 200);
    let data = reply.body.data.unwrap();
    assert_eq!(data.count, 0);
    assert!(data.rules.is_empty());
}

#[test]
fn single_rule_lookup() {
    let content = format!("{}\n", RULE_A).to_string();
    let id = generate_rule_id(RULE_A);
    let found = get_rule(Some(&content), &id);
    assert_eq!(found.status, 200);
    assert!(found.body.success);
    assert_eq!(found.body.data.unwrap().content, RULE_A);
    let missing = get_rule(Some(&content), "rule_deadbeef");
    assert_eq!(missing.status, 404);
    assert_eq!(missing.body.message.as_deref(), Some("Rule with ID 'rule_deadbeef' not found"));
    let no_file = get_rule(None, &id);
    assert_eq!(no_file.status, 404);
    assert_eq!(no_file.body.message.as_deref(), Some("Rules file does not exist"));
}
