//! The validator's verdict on well-formed rules, comments, and each way a
//! rule can be malformed, with the exact diagnostic of the first failing
//! check.

use suricata_agent::validate::validate_rule_syntax;

#[test]
fn accepts_a_well_formed_rule() {
    let r = "alert tcp any any -> any 80 (msg:\"hi\"; sid:1;)";
    assert_eq!(validate_rule_syntax(r), Ok(()));
}

#[test]
fn accepts_each_action_word() {
    for action in ["alert", "drop", "reject", "pass", "log"] {
        let r = format!("{} tcp any any -> any 80 (msg:\"hi\"; sid:1;)", action);
        assert_eq!(validate_rule_syntax(&r), Ok(()));
    }
}

#[test]
fn accepts_a_comment() {
    assert_eq!(validate_rule_syntax("# this line is ignored"), Ok(()));
    assert_eq!(validate_rule_syntax("   # leading spaces are trimmed first"), Ok(()));
}

#[test]
fn refuses_an_empty_rule() {
    assert_eq!(validate_rule_syntax(""), Err("Rule cannot be empty".to_string()));
    assert_eq!(validate_rule_syntax("   \t  "), Err("Rule cannot be empty".to_string()));
}

#[test]
fn refuses_a_rule_without_options_part() {
    assert_eq!(
        validate_rule_syntax("alert tcp any any -> any 80"),
        Err("Rule must contain header and options parts separated by '('".to_string())
    );
}

#[test]
fn splits_on_the_first_paren_only() {
    assert_eq!(
        validate_rule_syntax("alert tcp any any -> any 80 (msg:\"a(b)\"; sid:1;)"),
        Ok(())
    );
}

#[test]
fn refuses_a_short_header() {
    assert_eq!(
        validate_rule_syntax("alert tcp any (msg:\"hi\"; sid:1;)"),
        Err(
            "Header must contain at least: action, proto, src_ip, src_port, direction, dst_ip, dst_port"
                .to_string()
        )
    );
}

#[test]
fn refuses_an_unknown_action() {
    assert_eq!(
        validate_rule_syntax("block tcp any any -> any 80 (msg:\"hi\"; sid:1;)"),
        Err("Invalid action: block. Must be one of: alert, drop, reject, pass, log".to_string())
    );
}

#[test]
fn refuses_a_bad_direction_operator() {
    assert_eq!(
        validate_rule_syntax("alert tcp any any => any 80 (msg:\"hi\"; sid:1;)"),
        Err("Invalid direction operator: =>. Must be -> or <>".to_string())
    );
}

#[test]
fn accepts_the_bidirectional_operator() {
    assert_eq!(
        validate_rule_syntax("alert tcp any any <> any 80 (msg:\"hi\"; sid:1;)"),
        Ok(())
    );
}

#[test]
fn refuses_options_without_closing_paren() {
    assert_eq!(
        validate_rule_syntax("alert tcp any any -> any 80 (msg:\"hi\"; sid:1;"),
        Err("Options must end with ')'".to_string())
    );
}

#[test]
fn refuses_empty_options() {
    assert_eq!(
        validate_rule_syntax("alert tcp any any -> any 80 ()"),
        Err("At least one option is required".to_string())
    );
    assert_eq!(
        validate_rule_syntax("alert tcp any any -> any 80 ( ; ; )"),
        Err("At least one option is required".to_string())
    );
}

#[test]
fn an_empty_leading_fragment_does_not_hide_later_options() {
    assert_eq!(
        validate_rule_syntax("alert tcp any any -> any 80 (;msg:\"hi\"; sid:1;)"),
        Ok(())
    );
}

#[test]
fn refuses_a_missing_sid() {
    assert_eq!(
        validate_rule_syntax("alert tcp any any -> any 80 (msg:\"hi\";)"),
        Err("Missing required option: sid".to_string())
    );
}

#[test]
fn refuses_a_missing_msg() {
    assert_eq!(
        validate_rule_syntax("alert tcp any any -> any 80 (sid:1;)"),
        Err("Missing required option: msg".to_string())
    );
}

#[test]
fn refuses_a_non_numeric_sid() {
    assert_eq!(
        validate_rule_syntax("alert tcp any any -> any 80 (msg:\"hi\"; sid:abc;)"),
        Err("Invalid sid format: abc. Must be a number".to_string())
    );
}

#[test]
fn refuses_an_oversized_sid() {
    assert_eq!(
        validate_rule_syntax("alert tcp any any -> any 80 (msg:\"hi\"; sid:99999999999999999999;)"),
        Err("Invalid sid format: 99999999999999999999. Must be a number".to_string())
    );
}

#[test]
fn accepts_sid_values_as_the_standard_parser_would() {
    assert_eq!(
        validate_rule_syntax("alert tcp any any -> any 80 (msg:\"hi\"; sid: 007 ;)"),
        Ok(())
    );
    assert_eq!(
        validate_rule_syntax("alert tcp any any -> any 80 (msg:\"hi\"; sid:+7;)"),
        Ok(())
    );
}

#[test]
fn reports_the_first_bad_sid_of_several() {
    assert_eq!(
        validate_rule_syntax("alert tcp any any -> any 80 (msg:\"hi\"; sid:x; sid:y;)"),
        Err("Invalid sid format: x. Must be a number".to_string())
    );
}
