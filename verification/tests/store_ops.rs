//! The rules-file store: append then list, append then delete, the
//! oversized-file backup, the mixed-content listing, and option
//! extraction.

use suricata_agent::options::extract_option;
use suricata_agent::rule_id::generate_rule_id;
use suricata_agent::store::{append_rule, find_rule, remove_rule, rules_in};

const RULE_A: &str = "alert tcp any any -> any 80 (msg:\"c\"; sid:1;)";
const RULE_B: &str = "alert tcp any any -> any 81 (msg:\"d\"; sid:2;)";

#[test]
fn append_to_missing_file_then_list() {
    let plan = append_rule(None, RULE_A).unwrap();
    assert_eq!(plan.new_content, format!("{}\n", RULE_A));
    assert_eq!(plan.backup, None);
    assert_eq!(plan.rule_id, generate_rule_id(RULE_A));
    let list = rules_in(&plan.new_content);
    assert_eq!(list.count, 1);
    assert_eq!(list.rules[0].content, RULE_A);
    assert_eq!(list.rules[0].id, plan.rule_id);
}

#[test]
fn append_keeps_an_existing_trailing_newline() {
    let with_newline = format!("{}\n", RULE_A);
    let plan = append_rule(None, &with_newline).unwrap();
    assert_eq!(plan.new_content, with_newline);
    assert_eq!(plan.rule_id, generate_rule_id(RULE_A));
}

#[test]
fn append_refuses_an_invalid_rule() {
    let e = append_rule(None, "alert tcp any any -> any 80 (msg:\"hi\";)").unwrap_err();
    assert_eq!(e, "Missing required option: sid");
}

#[test]
fn append_then_list_shows_exactly_one_new_entry() {
    let base = format!("# header\n\n{}\n", RULE_A);
    let plan = append_rule(Some(&base.to_string()), RULE_B).unwrap();
    assert_eq!(plan.new_content, format!("{}{}\n", base, RULE_B));
    let list = rules_in(&plan.new_content);
    assert_eq!(list.count, 2);
    assert_eq!(list.rules[0].content, RULE_A);
    assert_eq!(list.rules[1].content, RULE_B);
    assert_eq!(list.rules[1].id, generate_rule_id(RULE_B));
    let matching = list.rules.iter().filter(|r| r.content == RULE_B).count();
    assert_eq!(matching, 1);
}

#[test]
fn append_then_delete_restores_the_file() {
    let base = format!("# header\n\n{}\n", RULE_A);
    let plan = append_rule(Some(&base.to_string()), RULE_B).unwrap();
    let restored = remove_rule(&plan.new_content, &plan.rule_id).unwrap();
    assert_eq!(restored, base);
}

#[test]
fn delete_preserves_comments_and_blanks() {
    let content = format!("# keep me\n\n{}\n# tail comment\n", RULE_A);
    let id = generate_rule_id(RULE_A);
    let rewritten = remove_rule(&content, &id).unwrap();
    assert_eq!(rewritten, "# keep me\n\n# tail comment\n");
}

#[test]
fn delete_removes_every_line_with_the_id() {
    let content = format!("{}\n{}\n{}\n", RULE_A, RULE_B, RULE_A);
    let id = generate_rule_id(RULE_A);
    let rewritten = remove_rule(&content, &id).unwrap();
    assert_eq!(rewritten, format!("{}\n", RULE_B));
}

#[test]
fn delete_of_an_unknown_id_reports_not_found() {
    let content = format!("{}\n", RULE_A);
    assert_eq!(remove_rule(&content, "rule_deadbeef"), None);
}

#[test]
fn oversized_file_is_backed_up_byte_for_byte() {
    let mut big = String::new();
    while big.len() <= 1_000_000 {
        big.push_str("# padding line to grow the rules file beyond the threshold\n");
    }
    let plan = append_rule(Some(&big), RULE_A).unwrap();
    assert_eq!(plan.backup.as_deref(), Some(big.as_str()));
    assert_eq!(plan.new_content, format!("{}{}\n", big, RULE_A));
}

#[test]
fn small_file_is_not_backed_up() {
    let small = format!("{}\n", RULE_A);
    let plan = append_rule(Some(&small), RULE_B).unwrap();
    assert_eq!(plan.backup, None);
}

#[test]
fn listing_skips_comments_and_blanks() {
    let content = format!("# header\n\n{}\n{}\n", RULE_A, RULE_B);
    let list = rules_in(&content);
    assert_eq!(list.count, 2);
    assert_eq!(list.rules.len(), 2);
    assert_eq!(list.rules[0].content, RULE_A);
    assert_eq!(list.rules[0].sid.as_deref(), Some("1"));
    assert_eq!(list.rules[0].msg.as_deref(), Some("c"));
    assert_eq!(list.rules[0].action.as_deref(), Some("alert"));
    assert_eq!(list.rules[1].content, RULE_B);
}

#[test]
fn lookup_finds_the_first_match() {
    let content = format!("{}\n{}\n", RULE_A, RULE_B);
    let id = generate_rule_id(RULE_B);
    let rule = find_rule(&content, &id).unwrap();
    assert_eq!(rule.content, RULE_B);
    assert_eq!(rule.id, id);
    assert!(find_rule(&content, "rule_deadbeef").is_none());
}

#[test]
fn option_extraction_strips_matched_quotes() {
    let r = "alert tcp any any -> any 80 (msg:\"hello world\"; sid:1;)";
    assert_eq!(extract_option(r, "msg").as_deref(), Some("hello world"));
    assert_eq!(extract_option(r, "sid").as_deref(), Some("1"));
    assert_eq!(extract_option(r, "rev"), None);
}

#[test]
fn option_extraction_edge_cases() {
    assert_eq!(extract_option("no options here", "sid"), None);
    assert_eq!(extract_option("broken (sid:1;", "sid"), None);
    assert_eq!(extract_option("x (sid:;)", "sid").as_deref(), Some(""));
    assert_eq!(extract_option("x (msg:\"a\"; msg:\"b\";)", "msg").as_deref(), Some("a"));
    assert_eq!(extract_option("x (msg:\";)", "msg").as_deref(), Some("\""));
}
