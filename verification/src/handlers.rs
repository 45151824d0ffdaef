//! The decision cores of the rule endpoints. Each function takes the current
//! rules-file contents (`None` when the file does not exist) and the request,
//! and returns the HTTP status, the response envelope, and what to write
//! back to disk. Reading the file under the store lock, writing the results
//! and serialising the envelope stay with the calling process, as do its
//! I/O failures.

use vstd::prelude::*;

use crate::models::{ApiResponse, Rule, RulesList, RuleRequest};
use crate::rule_id::id_of;
use crate::store::{
    append_rule, appended_text_of, content_rules, find_rule, first_rule_with_id, kept_lines,
    opt_byte_len, opt_content, remove_rule, removable, rules_in, stored_line_of, AppendPlan,
    BACKUP_THRESHOLD_BYTES,
};
use crate::text::{join_spec, split_spec};
use crate::validate::{rule_error, rule_valid};

verus! {

/// The outcome of a rule-creation request: status, envelope, and the writes
/// a successful append asks for.
pub struct CreateRuleReply {
    pub status: u16,
    pub body: ApiResponse<()>,
    pub write: Option<AppendPlan>,
}

/// Decide a rule-creation request. An invalid rule is refused with the
/// validator's message and no write; a valid one yields the new file
/// contents, the backup of an oversized file, and a created envelope.
pub fn create_rule(existing: Option<&String>, request: &RuleRequest) -> (r: CreateRuleReply)
    ensures
        r.body.data is None,
        !rule_valid(request.rule_content@) ==> r.status == 400 && !r.body.success && r.write
            is None && (r.body.message matches Some(m) && rule_error(request.rule_content@)
            == Some(m@)),
        rule_valid(request.rule_content@) ==> r.status == 201 && r.body.success
            && r.body.message.deep_view() == Some("Rule added and applied successfully"@) && (
        r.write matches Some(p) && p.new_content@ == opt_content(existing) + appended_text_of(
            request.rule_content@,
        ) && p.rule_id@ == id_of(stored_line_of(request.rule_content@)) && p.backup.deep_view()
            == (if opt_byte_len(existing) > BACKUP_THRESHOLD_BYTES {
            Some(opt_content(existing))
        } else {
            None::<Seq<char>>
        })),
{
    match append_rule(existing, request.rule_content.as_str()) {
        Err(m) => CreateRuleReply {
            status: 400,
            body: ApiResponse { success: false, message: Some(m), data: None },
            write: None,
        },
        Ok(plan) => CreateRuleReply {
            status: 201,
            body: ApiResponse {
                success: true,
                message: Some(String::from_str("Rule added and applied successfully")),
                data: None,
            },
            write: Some(plan),
        },
    }
}

/// The outcome of a rule-deletion request: status, envelope, and the
/// rewritten file contents when a rule was removed.
pub struct DeleteRuleReply {
    pub status: u16,
    pub body: ApiResponse<()>,
    pub new_content: Option<String>,
}

/// The not-found diagnostic for a rule identifier.
pub open spec fn not_found_message(rule_id: Seq<char>) -> Seq<char> {
    "Rule with ID '"@ + rule_id + "' not found"@
}

fn build_not_found_message(rule_id: &str) -> (r: String)
    ensures
        r@ == not_found_message(rule_id@),
{
    String::from_str("Rule with ID '").concat(rule_id).concat("' not found")
}

/// Decide a rule-deletion request: not found when the file is absent or no
/// stored rule carries the identifier; otherwise every line with that
/// identifier goes, comments and blanks stay, and the surviving lines are
/// the new file contents.
pub fn delete_rule(existing: Option<&String>, rule_id: &str) -> (r: DeleteRuleReply)
    ensures
        r.body.data is None,
        existing is None ==> r.status == 404 && !r.body.success && r.new_content is None
            && r.body.message.deep_view() == Some("Rules file does not exist"@),
        existing matches Some(c) ==> ((!(exists|j: int|
            0 <= j < split_spec(c@, '\n').len() && removable(split_spec(c@, '\n')[j], rule_id@)))
            ==> r.status == 404 && !r.body.success && r.new_content is None
            && r.body.message.deep_view() == Some(not_found_message(rule_id@))),
        existing matches Some(c) ==> ((exists|j: int|
            0 <= j < split_spec(c@, '\n').len() && removable(split_spec(c@, '\n')[j], rule_id@))
            ==> r.status == 200 && r.body.success && r.body.message.deep_view() == Some(
            "Rule deleted and changes applied successfully"@,
        ) && (r.new_content matches Some(s) && s@ == join_spec(
            kept_lines(split_spec(c@, '\n'), rule_id@),
            '\n',
        ))),
{
    match existing {
        None => DeleteRuleReply {
            status: 404,
            body: ApiResponse {
                success: false,
                message: Some(String::from_str("Rules file does not exist")),
                data: None,
            },
            new_content: None,
        },
        Some(c) => {
            match remove_rule(c.as_str(), rule_id) {
                None => DeleteRuleReply {
                    status: 404,
                    body: ApiResponse {
                        success: false,
                        message: Some(build_not_found_message(rule_id)),
                        data: None,
                    },
                    new_content: None,
                },
                Some(s) => DeleteRuleReply {
                    status: 200,
                    body: ApiResponse {
                        success: true,
                        message: Some(
                            String::from_str("Rule deleted and changes applied successfully"),
                        ),
                        data: None,
                    },
                    new_content: Some(s),
                },
            }
        },
    }
}

/// The outcome of a rule-listing request.
pub struct GetRulesReply {
    pub status: u16,
    pub body: ApiResponse<RulesList>,
}

/// List the stored rules: an absent file lists as empty; otherwise the
/// non-comment, non-blank lines are projected in file order.
pub fn get_rules(existing: Option<&String>) -> (r: GetRulesReply)
    ensures
        r.status == 200 && r.body.success && r.body.message is None,
        r.body.data matches Some(l) && l.rules@.map_values(|x: Rule| x@) == content_rules(
            opt_content(existing),
        ) && l.count == l.rules@.len(),
{
    let list = match existing {
        None => {
            proof {
                lemma_no_file_lists_empty();
            }
            let empty = rules_in("");
            proof {
                reveal_strlit("");
                assert(""@ =~= Seq::<char>::empty());
            }
            empty
        },
        Some(c) => rules_in(c.as_str()),
    };
    GetRulesReply {
        status: 200,
        body: ApiResponse { success: true, message: None, data: Some(list) },
    }
}

/// An absent rules file lists no rules.
pub proof fn lemma_no_file_lists_empty()
    ensures
        content_rules(Seq::<char>::empty()) =~= Seq::<crate::models::RuleModel>::empty(),
{
    assert(split_spec(Seq::<char>::empty(), '\n') =~~= seq![Seq::<char>::empty()]);
    assert(seq![Seq::<char>::empty()][0] == Seq::<char>::empty());
    assert(seq![Seq::<char>::empty()].drop_first() =~= Seq::<Seq<char>>::empty());
    assert(!crate::store::line_is_rule(Seq::<char>::empty()));
    assert(crate::store::rules_of_lines(Seq::<Seq<char>>::empty())
        =~= Seq::<crate::models::RuleModel>::empty());
}

/// The outcome of a single-rule lookup.
pub struct GetRuleReply {
    pub status: u16,
    pub body: ApiResponse<Rule>,
}

/// Look one rule up by its identifier: the first stored line whose derived
/// identifier matches, or not found.
pub fn get_rule(existing: Option<&String>, rule_id: &str) -> (r: GetRuleReply)
    ensures
        existing is None ==> r.status == 404 && !r.body.success && r.body.data is None
            && r.body.message.deep_view() == Some("Rules file does not exist"@),
        existing matches Some(c) ==> (first_rule_with_id(split_spec(c@, '\n'), 0, rule_id@)
            is None ==> r.status == 404 && !r.body.success && r.body.data is None
            && r.body.message.deep_view() == Some(not_found_message(rule_id@))),
        existing matches Some(c) ==> (first_rule_with_id(split_spec(c@, '\n'), 0, rule_id@)
            matches Some(m) ==> r.status == 200 && r.body.success && r.body.message is None && (
        r.body.data matches Some(x) && x@ == m)),
{
    match existing {
        None => GetRuleReply {
            status: 404,
            body: ApiResponse {
                success: false,
                message: Some(String::from_str("Rules file does not exist")),
                data: None,
            },
        },
        Some(c) => {
            match find_rule(c.as_str(), rule_id) {
                None => GetRuleReply {
                    status: 404,
                    body: ApiResponse {
                        success: false,
                        message: Some(build_not_found_message(rule_id)),
                        data: None,
                    },
                },
                Some(x) => GetRuleReply {
                    status: 200,
                    body: ApiResponse { success: true, message: None, data: Some(x) },
                },
            }
        },
    }
}

} // verus!
