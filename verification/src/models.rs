//! The data shapes of the control surface: the body of a rule-creation
//! request, the response envelope, and the projection of a stored rule line.

use vstd::prelude::*;

verus! {

/// Body of a rule-creation request.
pub struct RuleRequest {
    pub rule_content: String,
    pub rule_type: Option<String>,
    pub filename: Option<String>,
}

/// The response envelope every JSON reply uses; absent optional fields are
/// left off the wire by the serialising layer.
pub struct ApiResponse<T> {
    pub success: bool,
    pub message: Option<String>,
    pub data: Option<T>,
}

/// In-memory projection of one line of the rules file.
pub struct Rule {
    pub id: String,
    pub content: String,
    pub sid: Option<String>,
    pub msg: Option<String>,
    pub action: Option<String>,
}

/// Mathematical shadow of [`Rule`].
pub struct RuleModel {
    pub id: Seq<char>,
    pub content: Seq<char>,
    pub sid: Option<Seq<char>>,
    pub msg: Option<Seq<char>>,
    pub action: Option<Seq<char>>,
}

impl View for Rule {
    type V = RuleModel;

    open spec fn view(&self) -> RuleModel {
        RuleModel {
            id: self.id@,
            content: self.content@,
            sid: self.sid.deep_view(),
            msg: self.msg.deep_view(),
            action: self.action.deep_view(),
        }
    }
}

/// An ordered listing of the rules on disk, with its count.
pub struct RulesList {
    pub rules: Vec<Rule>,
    pub count: usize,
}

/// The models of the listed rules, in order.
pub open spec fn rule_models(rules: Seq<Rule>) -> Seq<RuleModel> {
    rules.map_values(|x: Rule| x@)
}

} // verus!
