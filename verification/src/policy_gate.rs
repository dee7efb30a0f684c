//! The policy gate itself: which rule applies to a call, what it decides, and the
//! cache of decisions.
use vstd::prelude::*;
use vstd::string::*;

use crate::identity;
use crate::identity::{trust_debug, RequestIdentity, RequestTrustLevel};
use crate::outside;
use crate::policy;
use crate::policy::{
    CelToolAccessPolicy, PolicyConfigError, PolicyDenial, PreDispatchPolicyOutcome,
    ToolAccessPolicyConfig, ToolPolicyContext, ToolRulePolicy, ToolTrustRule,
};
use crate::table::Table;
use crate::text;

verus! {

/// The rule that a list gives a tool: of several, the last.
pub open spec fn last_rule(rules: Seq<ToolTrustRule>, name: Seq<char>) -> Option<ToolTrustRule>
    decreases rules.len(),
{
    if rules.len() == 0 {
        None
    } else if rules.last().tool_name@ == name {
        Some(rules.last())
    } else {
        last_rule(rules.drop_last(), name)
    }
}

/// Whether a table holds, ready to apply, the rules of a list.
pub open spec fn holds_rules(
    table: Map<Seq<char>, ToolRulePolicy>,
    rules: Seq<ToolTrustRule>,
) -> bool {
    forall|name: Seq<char>|
        match last_rule(rules, name) {
            Some(rule) => (#[trigger] table.contains_key(name)) && policy::same_rule(
                table[name],
                rule,
            ),
            None => !table.contains_key(name),
        }
}

fn compile_rules(rules: Vec<ToolTrustRule>) -> (r: Result<
    Table<ToolRulePolicy>,
    PolicyConfigError,
>)
    ensures
        match r {
            Ok(t) => holds_rules(t@, rules@) && forall|i: int|
                0 <= i < rules@.len() ==> policy::rule_error(#[trigger] rules@[i]) is None,
            Err(e) => exists|i: int|
                0 <= i < rules@.len() && policy::rule_error(#[trigger] rules@[i]) == Some(
                    e.message@,
                ) && forall|j: int|
                    0 <= j < i ==> policy::rule_error(#[trigger] rules@[j]) is None,
        },
{
    let ghost all = rules@;
    let mut table: Table<ToolRulePolicy> = Table::new();
    proof {
        assert(all.take(0) =~= seq![]);
    }
    for rule in it: rules
        invariant
            it.seq() == all,
            holds_rules(table@, all.take(it.index() as int)),
            forall|j: int|
                0 <= j < it.index() ==> policy::rule_error(#[trigger] all[j]) is None,
    {
        let ghost i = it.index() as int;
        let ghost current = rule;
        proof {
            assert(current == all[i]);
        }
        match ToolRulePolicy::from_rule(rule) {
            Err(e) => {
                return Err(e);
            },
            Ok(p) => {
                let name: String = p.tool_name.clone();
                let ghost before = table@;
                table.put(name.as_str(), p);
                proof {
                    let t = all.take(i + 1);
                    assert(t.drop_last() =~= all.take(i));
                    assert(t.last() == current);
                    assert forall|n: Seq<char>|
                        match last_rule(t, n) {
                            Some(rule) => (#[trigger] table@.contains_key(n)) && policy::same_rule(
                                table@[n],
                                rule,
                            ),
                            None => !table@.contains_key(n),
                        } by {
                        if n != name@ {
                            assert(before.contains_key(n) == table@.contains_key(n));
                        }
                    }
                }
            },
        }
    }
    proof {
        assert(all.take(all.len() as int) =~= all);
    }
    Ok(table)
}

/// The rules of imported tools. A name without an exact rule falls under the
/// first prefix that it begins with.
#[derive(Debug)]
pub struct FederatedToolPolicies {
    pub rules: Table<ToolRulePolicy>,
    pub prefix_rules: Vec<(String, ToolRulePolicy)>,
}

/// The pairs whose prefix is not empty.
pub open spec fn kept_prefixes(s: Seq<(String, ToolTrustRule)>) -> Seq<(String, ToolTrustRule)>
    decreases s.len(),
{
    if s.len() == 0 {
        seq![]
    } else {
        let rest = kept_prefixes(s.drop_last());
        if s.last().0@.len() == 0 {
            rest
        } else {
            rest.push(s.last())
        }
    }
}

/// The first rule whose prefix a name begins with.
pub open spec fn first_prefix(s: Seq<(String, ToolRulePolicy)>, name: Seq<char>) -> Option<
    ToolRulePolicy,
>
    decreases s.len(),
{
    if s.len() == 0 {
        None
    } else if text::has_prefix(name, s[0].0@) {
        Some(s[0].1)
    } else {
        first_prefix(s.drop_first(), name)
    }
}

/// Whether compiled prefix rules say what configured ones say.
pub open spec fn same_prefixes(
    s: Seq<(String, ToolRulePolicy)>,
    t: Seq<(String, ToolTrustRule)>,
) -> bool {
    &&& s.len() == t.len()
    &&& forall|i: int|
        0 <= i < s.len() ==> (#[trigger] s[i]).0@ == t[i].0@ && policy::same_rule(s[i].1, t[i].1)
}

/// Whether the rule of a pair is refused: a pair without a prefix is passed over.
pub open spec fn prefix_error(pair: (String, ToolTrustRule)) -> Option<Seq<char>> {
    if pair.0@.len() == 0 {
        None
    } else {
        policy::rule_error(pair.1)
    }
}

/// Whether every condition of the rules of imported tools compiles.
pub open spec fn federation_accepted(
    rules: Seq<ToolTrustRule>,
    prefixes: Seq<(String, ToolTrustRule)>,
) -> bool {
    &&& forall|j: int| 0 <= j < rules.len() ==> policy::rule_error(#[trigger] rules[j]) is None
    &&& forall|j: int| 0 <= j < prefixes.len() ==> prefix_error(#[trigger] prefixes[j]) is None
}

/// Why the rules of imported tools are refused: the first exact rule whose
/// condition does not compile, or else the first prefix rule.
pub open spec fn federation_refused(
    rules: Seq<ToolTrustRule>,
    prefixes: Seq<(String, ToolTrustRule)>,
    message: Seq<char>,
) -> bool {
    ||| exists|i: int|
        0 <= i < rules.len() && policy::rule_error(#[trigger] rules[i]) == Some(message)
            && forall|j: int| 0 <= j < i ==> policy::rule_error(#[trigger] rules[j]) is None
    ||| {
        &&& forall|j: int| 0 <= j < rules.len() ==> policy::rule_error(#[trigger] rules[j]) is None
        &&& exists|i: int|
            0 <= i < prefixes.len() && prefix_error(#[trigger] prefixes[i]) == Some(message)
                && forall|j: int| 0 <= j < i ==> prefix_error(#[trigger] prefixes[j]) is None
    }
}

impl FederatedToolPolicies {
    /// No rules.
    pub fn new() -> (r: FederatedToolPolicies)
        ensures
            r.rules@ == Map::<Seq<char>, ToolRulePolicy>::empty(),
            r.prefix_rules@.len() == 0,
    {
        FederatedToolPolicies { rules: Table::new(), prefix_rules: Vec::new() }
    }

    /// Makes rules ready to apply. An empty prefix is passed over, since every
    /// name begins with it.
    pub fn compile(
        rules: Vec<ToolTrustRule>,
        prefix_rules: Vec<(String, ToolTrustRule)>,
    ) -> (r: Result<FederatedToolPolicies, PolicyConfigError>)
        ensures
            match r {
                Ok(p) => federation_accepted(rules@, prefix_rules@) && holds_rules(
                    p.rules@,
                    rules@,
                ) && same_prefixes(p.prefix_rules@, kept_prefixes(prefix_rules@)),
                Err(e) => federation_refused(rules@, prefix_rules@, e.message@),
            },
    {
        let table: Table<ToolRulePolicy> = match compile_rules(rules) {
            Ok(t) => t,
            Err(e) => {
                return Err(e);
            },
        };
        let ghost all = prefix_rules@;
        let mut prefixes: Vec<(String, ToolRulePolicy)> = Vec::new();
        proof {
            assert(all.take(0) =~= seq![]);
        }
        for pair in it: prefix_rules
            invariant
                it.seq() == all,
                same_prefixes(prefixes@, kept_prefixes(all.take(it.index() as int))),
                all == prefix_rules@,
                forall|j: int|
                    0 <= j < rules@.len() ==> policy::rule_error(#[trigger] rules@[j]) is None,
                forall|j: int| 0 <= j < it.index() ==> prefix_error(#[trigger] all[j]) is None,
        {
            let ghost i = it.index() as int;
            proof {
                assert(pair == all[i]);
                assert(all.take(i + 1).drop_last() =~= all.take(i));
                assert(all.take(i + 1).last() == pair);
            }
            let (prefix, rule) = pair;
            if !prefix.as_str().is_empty() {
                match ToolRulePolicy::from_rule(rule) {
                    Err(e) => {
                        proof {
                            assert(prefix_error(all[i]) == Some(e.message@));
                        }
                        return Err(e);
                    },
                    Ok(p) => {
                        prefixes.push((prefix, p));
                    },
                }
            }
        }
        proof {
            assert(all.take(all.len() as int) =~= all);
        }
        Ok(FederatedToolPolicies { rules: table, prefix_rules: prefixes })
    }

    /// The rule that applies to a name.
    pub open spec fn applicable(&self, name: Seq<char>) -> Option<ToolRulePolicy> {
        if self.rules@.contains_key(name) {
            Some(self.rules@[name])
        } else {
            first_prefix(self.prefix_rules@, name)
        }
    }

    /// The rule that applies to a name: the exact one, or the first whose
    /// prefix the name begins with.
    pub fn rule_for(&self, name: &str) -> (r: Option<&ToolRulePolicy>)
        ensures
            match r {
                Some(p) => self.applicable(name@) == Some(*p),
                None => self.applicable(name@) is None,
            },
    {
        if let Some(p) = self.rules.get(name) {
            return Some(p);
        }
        let mut i: usize = 0;
        proof {
            assert(self.prefix_rules@.skip(0) =~= self.prefix_rules@);
        }
        while i < self.prefix_rules.len()
            invariant
                i <= self.prefix_rules@.len(),
                first_prefix(self.prefix_rules@.skip(i as int), name@) == first_prefix(
                    self.prefix_rules@,
                    name@,
                ),
                !self.rules@.contains_key(name@),
            decreases self.prefix_rules.len() - i,
        {
            proof {
                assert(self.prefix_rules@.skip(i as int)[0] == self.prefix_rules@[i as int]);
                assert(self.prefix_rules@.skip(i as int).drop_first() =~= self.prefix_rules@.skip(
                    i + 1,
                ));
            }
            if text::starts_with(name, self.prefix_rules[i].0.as_str()) {
                return Some(&self.prefix_rules[i].1);
            }
            i += 1;
        }
        None
    }
}

/// A federation without a prefix rules over nothing but the tools that it names:
/// every prefix rule that is kept has a prefix that is not empty.
pub proof fn law_no_blanket_prefix(s: Seq<(String, ToolTrustRule)>)
    ensures
        forall|i: int|
            0 <= i < kept_prefixes(s).len() ==> (#[trigger] kept_prefixes(s)[i]).0@.len() > 0,
    decreases s.len(),
{
    if s.len() > 0 {
        law_no_blanket_prefix(s.drop_last());
        let rest = kept_prefixes(s.drop_last());
        assert forall|i: int| 0 <= i < kept_prefixes(s).len() implies (
        #[trigger] kept_prefixes(s)[i]).0@.len() > 0 by {
            if i < rest.len() {
                assert(kept_prefixes(s)[i] == rest[i]);
            }
        }
    }
}

/// The rules of all tools.
#[derive(Debug)]
pub struct ToolAccessPolicy {
    pub default_minimum_trust: RequestTrustLevel,
    pub per_tool_rules: Table<ToolRulePolicy>,
    pub cel_allow_if: Option<CelToolAccessPolicy>,
    pub federated: FederatedToolPolicies,
}

/// The refusal of a caller below the trust floor.
pub open spec fn trust_denial(input: policy::PolicyInput, floor: RequestTrustLevel) ->
    policy::DenialView {
    policy::DenialView {
        code: -32003,
        http_status: 403,
        message: "tool "@ + input.tool_name + " requires trust level "@
            + identity::trust_debug_text(floor) + ", current trust is "@
            + identity::trust_debug_text(input.trust_level),
        audit_reason: "tool_trust_requirement_not_met:"@ + input.tool_name + ":"@
            + identity::trust_debug_text(floor) + ":"@ + identity::trust_debug_text(
            input.trust_level,
        ),
        insufficient_scope: None,
    }
}

/// The refusal of a caller that lacks scopes.
pub open spec fn scope_denial_view(tool_name: Seq<char>, lacking: Seq<Seq<char>>) ->
    policy::DenialView {
    policy::DenialView {
        code: -32003,
        http_status: 403,
        message: "tool "@ + tool_name + " requires OAuth scope(s) "@ + text::joined(
            lacking,
            " "@,
        ) + " not present on the caller's credential"@,
        audit_reason: "tool_insufficient_scope:"@ + tool_name + ":"@ + text::joined(
            lacking,
            ","@,
        ),
        insufficient_scope: Some(lacking),
    }
}

/// The refusal by the condition on every call, given its verdict.
pub open spec fn global_denial(tool_name: Seq<char>, verdict: Result<bool, Seq<char>>) -> Option<
    policy::DenialView,
> {
    match verdict {
        Ok(true) => None,
        Ok(false) => Some(
            policy::DenialView {
                code: -32022,
                http_status: 403,
                message: "tool "@ + tool_name + " was denied by CEL allow_if policy"@,
                audit_reason: "tool_access_cel_allow_if_denied:"@ + tool_name,
                insufficient_scope: None,
            },
        ),
        Err(e) => Some(
            policy::DenialView {
                code: -32603,
                http_status: 500,
                message: "tool access policy evaluation failed"@,
                audit_reason: "tool_access_cel_allow_if_error:"@ + tool_name + ":"@ + e,
                insufficient_scope: None,
            },
        ),
    }
}

/// The refusal by the condition of a tool's rule, given its verdict.
pub open spec fn rule_denial(tool_name: Seq<char>, verdict: Result<bool, Seq<char>>) -> Option<
    policy::DenialView,
> {
    match verdict {
        Ok(true) => None,
        Ok(false) => Some(
            policy::DenialView {
                code: -32005,
                http_status: 403,
                message: "tool "@ + tool_name + " was denied by per-tool CEL allow_if policy"@,
                audit_reason: "tool_access_rule_cel_allow_if_denied:"@ + tool_name,
                insufficient_scope: None,
            },
        ),
        Err(e) => Some(
            policy::DenialView {
                code: -32603,
                http_status: 500,
                message: "tool access policy evaluation failed"@,
                audit_reason: "tool_access_rule_cel_allow_if_error:"@ + tool_name + ":"@ + e,
                insufficient_scope: None,
            },
        ),
    }
}

/// An optional refusal over plain values.
pub open spec fn denial_view(d: Option<PolicyDenial>) -> Option<policy::DenialView> {
    match d {
        Some(x) => Some(x.deep_view()),
        None => None,
    }
}

fn eval_failure(prefix: &str, tool_name: &str, error: &str) -> (r: PolicyDenial)
    ensures
        r.deep_view() == (policy::DenialView {
            code: -32603,
            http_status: 500,
            message: "tool access policy evaluation failed"@,
            audit_reason: prefix@ + tool_name@ + ":"@ + error@,
            insufficient_scope: None,
        }),
{
    let mut reason: String = prefix.to_owned();
    reason.append(tool_name);
    reason.append(":");
    reason.append(error);
    PolicyDenial {
        code: -32603,
        http_status: 500,
        message: "tool access policy evaluation failed".to_owned(),
        audit_reason: reason,
        insufficient_scope: None,
    }
}

/// The refusal by the condition on every call, given its verdict.
pub fn decide_global_cel(tool_name: &str, verdict: Result<bool, String>) -> (r: Option<
    PolicyDenial,
>)
    ensures
        denial_view(r) == global_denial(tool_name@, policy::verdict_view(verdict)),
{
    match verdict {
        Ok(true) => None,
        Ok(false) => {
            let mut message: String = "tool ".to_owned();
            message.append(tool_name);
            message.append(" was denied by CEL allow_if policy");
            let mut audit_reason: String = "tool_access_cel_allow_if_denied:".to_owned();
            audit_reason.append(tool_name);
            Some(
                PolicyDenial {
                    code: -32022,
                    http_status: 403,
                    message,
                    audit_reason,
                    insufficient_scope: None,
                },
            )
        },
        Err(e) => Some(eval_failure("tool_access_cel_allow_if_error:", tool_name, e.as_str())),
    }
}

/// The refusal by the condition of a tool's rule, given its verdict.
pub fn decide_rule_cel(tool_name: &str, verdict: Result<bool, String>) -> (r: Option<PolicyDenial>)
    ensures
        denial_view(r) == rule_denial(tool_name@, policy::verdict_view(verdict)),
{
    match verdict {
        Ok(true) => None,
        Ok(false) => {
            let mut message: String = "tool ".to_owned();
            message.append(tool_name);
            message.append(" was denied by per-tool CEL allow_if policy");
            let mut audit_reason: String = "tool_access_rule_cel_allow_if_denied:".to_owned();
            audit_reason.append(tool_name);
            Some(
                PolicyDenial {
                    code: -32005,
                    http_status: 403,
                    message,
                    audit_reason,
                    insufficient_scope: None,
                },
            )
        },
        Err(e) => Some(eval_failure("tool_access_rule_cel_allow_if_error:", tool_name, e.as_str())),
    }
}

/// Why a configuration is refused: the first rule whose condition does not
/// compile, or else the condition on every call.
pub open spec fn config_refused(config: ToolAccessPolicyConfig, message: Seq<char>) -> bool {
    ||| exists|i: int|
        0 <= i < config.rules@.len() && policy::rule_error(#[trigger] config.rules@[i]) == Some(
            message,
        ) && forall|j: int|
            0 <= j < i ==> policy::rule_error(#[trigger] config.rules@[j]) is None
    ||| {
        &&& forall|j: int|
            0 <= j < config.rules@.len() ==> policy::rule_error(#[trigger] config.rules@[j]) is None
        &&& config.cel_allow_if matches Some(source) && !outside::cel_compiles(source@) && message
            == policy::compile_error_text("policy.tool_access.cel_allow_if"@, source@)
    }
}

/// Whether every condition of a configuration compiles.
pub open spec fn config_accepted(config: ToolAccessPolicyConfig) -> bool {
    &&& forall|j: int|
        0 <= j < config.rules@.len() ==> policy::rule_error(#[trigger] config.rules@[j]) is None
    &&& config.cel_allow_if matches Some(source) ==> outside::cel_compiles(source@)
}

impl ToolAccessPolicy {
    /// Makes a configuration ready to apply.
    pub fn from_config(config: ToolAccessPolicyConfig) -> (r: Result<
        ToolAccessPolicy,
        PolicyConfigError,
    >)
        ensures
            match r {
                Ok(p) => config_accepted(config) && p.configured(config),
                Err(e) => config_refused(config, e.message@),
            },
    {
        let default_minimum_trust: RequestTrustLevel = config.default_minimum_trust;
        let per_tool_rules: Table<ToolRulePolicy> = match compile_rules(config.rules) {
            Ok(t) => t,
            Err(e) => {
                return Err(e);
            },
        };
        let cel_allow_if: Option<CelToolAccessPolicy> = match config.cel_allow_if {
            None => None,
            Some(source) => match CelToolAccessPolicy::compile(
                source,
                "policy.tool_access.cel_allow_if",
            ) {
                Ok(p) => Some(p),
                Err(e) => {
                    return Err(e);
                },
            },
        };
        Ok(
            ToolAccessPolicy {
                default_minimum_trust,
                per_tool_rules,
                cel_allow_if,
                federated: FederatedToolPolicies::new(),
            },
        )
    }

    /// Whether the policy says what a configuration says, with no imported
    /// tools.
    pub open spec fn configured(&self, config: ToolAccessPolicyConfig) -> bool {
        &&& self.default_minimum_trust == config.default_minimum_trust
        &&& holds_rules(self.per_tool_rules@, config.rules@)
        &&& match (self.cel_allow_if, config.cel_allow_if) {
            (Some(p), Some(s)) => p.source() == s@,
            (None, None) => true,
            _ => false,
        }
        &&& self.federated.rules@ == Map::<Seq<char>, ToolRulePolicy>::empty()
        &&& self.federated.prefix_rules@.len() == 0
    }

    /// The rule that applies to a tool: its own, or that of its import.
    pub open spec fn applicable(&self, name: Seq<char>) -> Option<ToolRulePolicy> {
        if self.per_tool_rules@.contains_key(name) {
            Some(self.per_tool_rules@[name])
        } else {
            self.federated.applicable(name)
        }
    }

    /// The trust that a tool demands.
    pub open spec fn floor(&self, name: Seq<char>) -> RequestTrustLevel {
        match self.applicable(name) {
            Some(rule) => rule.minimum_trust,
            None => self.default_minimum_trust,
        }
    }

    /// The scopes that a caller lacks for a tool.
    pub open spec fn lacking(&self, input: policy::PolicyInput) -> Seq<Seq<char>> {
        match self.applicable(input.tool_name) {
            Some(rule) => policy::missing(rule.required_scopes.deep_view(), input.scopes),
            None => seq![],
        }
    }

    /// What the policy gate decides, given the verdicts of the two conditions. A
    /// verdict counts only where there is such a condition.
    pub open spec fn decision(
        &self,
        input: policy::PolicyInput,
        global: Result<bool, Seq<char>>,
        per_tool: Result<bool, Seq<char>>,
    ) -> policy::DecisionView {
        let rule = self.applicable(input.tool_name);
        if input.trust_level.rank() < self.floor(input.tool_name).rank() {
            policy::DecisionView::Deny(trust_denial(input, self.floor(input.tool_name)))
        } else if self.lacking(input).len() > 0 {
            policy::DecisionView::Deny(scope_denial_view(input.tool_name, self.lacking(input)))
        } else if self.cel_allow_if is Some && global_denial(input.tool_name, global) is Some {
            policy::DecisionView::Deny(global_denial(input.tool_name, global)->0)
        } else if rule is Some && (rule->0).cel_allow_if is Some && rule_denial(
            input.tool_name,
            per_tool,
        ) is Some {
            policy::DecisionView::Deny(rule_denial(input.tool_name, per_tool)->0)
        } else {
            policy::DecisionView::Allow
        }
    }

    fn rule_for(&self, name: &str) -> (r: Option<&ToolRulePolicy>)
        ensures
            match r {
                Some(p) => self.applicable(name@) == Some(*p),
                None => self.applicable(name@) is None,
            },
    {
        match self.per_tool_rules.get(name) {
            Some(p) => Some(p),
            None => self.federated.rule_for(name),
        }
    }

    /// The trust that a tool demands.
    pub fn required_trust_for(&self, tool_name: &str) -> (r: RequestTrustLevel)
        ensures
            r == self.floor(tool_name@),
    {
        match self.rule_for(tool_name) {
            Some(rule) => rule.minimum_trust,
            None => self.default_minimum_trust,
        }
    }

    /// The refusal of a caller that lacks scopes for the tool.
    pub fn evaluate_required_scopes(&self, policy_context: &ToolPolicyContext) -> (r: Option<
        PolicyDenial,
    >)
        ensures
            denial_view(r) == (if self.lacking(policy_context.deep_view()).len() > 0 {
                Some(
                    scope_denial_view(
                        policy_context.tool_name@,
                        self.lacking(policy_context.deep_view()),
                    ),
                )
            } else {
                None
            }),
    {
        let rule: &ToolRulePolicy = match self.rule_for(policy_context.tool_name.as_str()) {
            Some(rule) => rule,
            None => {
                return None;
            },
        };
        let lacking: Vec<String> = rule.missing_scopes(policy_context);
        if lacking.len() == 0 {
            return None;
        }
        let mut message: String = "tool ".to_owned();
        message.append(policy_context.tool_name.as_str());
        message.append(" requires OAuth scope(s) ");
        message.append(text::join(&lacking, " ").as_str());
        message.append(" not present on the caller's credential");
        let mut audit_reason: String = "tool_insufficient_scope:".to_owned();
        audit_reason.append(policy_context.tool_name.as_str());
        audit_reason.append(":");
        audit_reason.append(text::join(&lacking, ",").as_str());
        Some(
            PolicyDenial {
                code: -32003,
                http_status: 403,
                message,
                audit_reason,
                insufficient_scope: Some(lacking),
            },
        )
    }

    /// The refusal of a caller below the trust floor.
    fn evaluate_trust(&self, policy_context: &ToolPolicyContext) -> (r: Option<PolicyDenial>)
        ensures
            denial_view(r) == (if policy_context.trust_level.rank() < self.floor(
                policy_context.tool_name@,
            ).rank() {
                Some(
                    trust_denial(
                        policy_context.deep_view(),
                        self.floor(policy_context.tool_name@),
                    ),
                )
            } else {
                None
            }),
    {
        let floor: RequestTrustLevel = self.required_trust_for(policy_context.tool_name.as_str());
        if !policy_context.trust_level.below(floor) {
            return None;
        }
        let mut message: String = "tool ".to_owned();
        message.append(policy_context.tool_name.as_str());
        message.append(" requires trust level ");
        message.append(trust_debug(floor));
        message.append(", current trust is ");
        message.append(trust_debug(policy_context.trust_level));
        let mut audit_reason: String = "tool_trust_requirement_not_met:".to_owned();
        audit_reason.append(policy_context.tool_name.as_str());
        audit_reason.append(":");
        audit_reason.append(trust_debug(floor));
        audit_reason.append(":");
        audit_reason.append(trust_debug(policy_context.trust_level));
        Some(
            PolicyDenial {
                code: -32003,
                http_status: 403,
                message,
                audit_reason,
                insufficient_scope: None,
            },
        )
    }

    /// What the policy gate decides, given the verdicts of the two conditions. A
    /// verdict counts only where there is such a condition.
    pub fn decide(
        &self,
        policy_context: &ToolPolicyContext,
        global: Result<bool, String>,
        per_tool: Result<bool, String>,
    ) -> (r: PreDispatchPolicyOutcome)
        ensures
            r.deep_view() == self.decision(
                policy_context.deep_view(),
                policy::verdict_view(global),
                policy::verdict_view(per_tool),
            ),
    {
        if let Some(d) = self.evaluate_trust(policy_context) {
            return PreDispatchPolicyOutcome::Deny(d);
        }
        if let Some(d) = self.evaluate_required_scopes(policy_context) {
            return PreDispatchPolicyOutcome::Deny(d);
        }
        let tool_name: &str = policy_context.tool_name.as_str();
        if self.cel_allow_if.is_some() {
            if let Some(d) = decide_global_cel(tool_name, global) {
                return PreDispatchPolicyOutcome::Deny(d);
            }
        }
        if let Some(rule) = self.rule_for(tool_name) {
            if rule.cel_allow_if.is_some() {
                if let Some(d) = decide_rule_cel(tool_name, per_tool) {
                    return PreDispatchPolicyOutcome::Deny(d);
                }
            }
        }
        PreDispatchPolicyOutcome::Allow
    }

    /// The refusal by the condition on every call. How its run comes out rests
    /// on the CEL interpreter.
    pub fn evaluate_cel_allow_if(&self, policy_context: &ToolPolicyContext) -> (r: Option<
        PolicyDenial,
    >)
        ensures
            match self.cel_allow_if {
                None => r is None,
                Some(c) => exists|v: Result<bool, Seq<char>>|
                    denial_view(r) == #[trigger] global_denial(policy_context.tool_name@, v)
                        && policy::may_say(c.source(), policy_context.deep_view(), v),
            },
    {
        match &self.cel_allow_if {
            None => None,
            Some(c) => {
                let verdict: Result<bool, String> = c.evaluate(policy_context);
                let ghost v = policy::verdict_view(verdict);
                let r: Option<PolicyDenial> = decide_global_cel(
                    policy_context.tool_name.as_str(),
                    verdict,
                );
                proof {
                    assert(denial_view(r) == global_denial(policy_context.tool_name@, v));
                }
                r
            },
        }
    }

    /// The refusal by the condition of the tool's rule. How its run comes out
    /// rests on the CEL interpreter.
    pub fn evaluate_per_tool_cel_allow_if(&self, policy_context: &ToolPolicyContext) -> (r: Option<
        PolicyDenial,
    >)
        ensures
            match self.applicable(policy_context.tool_name@) {
                Some(rule) if rule.cel_allow_if is Some => exists|v: Result<bool, Seq<char>>|
                    denial_view(r) == #[trigger] rule_denial(policy_context.tool_name@, v)
                        && policy::may_say(
                        (rule.cel_allow_if->0).source(),
                        policy_context.deep_view(),
                        v,
                    ),
                _ => r is None,
            },
    {
        match self.rule_for(policy_context.tool_name.as_str()) {
            None => None,
            Some(rule) => match &rule.cel_allow_if {
                None => None,
                Some(c) => {
                    let verdict: Result<bool, String> = c.evaluate(policy_context);
                    let ghost v = policy::verdict_view(verdict);
                    let r: Option<PolicyDenial> = decide_rule_cel(
                        policy_context.tool_name.as_str(),
                        verdict,
                    );
                    proof {
                        assert(denial_view(r) == rule_denial(policy_context.tool_name@, v));
                    }
                    r
                },
            },
        }
    }

    /// Whether a caller meets the trust floor and holds the scopes of a tool, so
    /// that the conditions are asked.
    pub open spec fn reaches_conditions(&self, input: policy::PolicyInput) -> bool {
        &&& input.trust_level.rank() >= self.floor(input.tool_name).rank()
        &&& self.lacking(input).len() == 0
    }

    /// Whether two verdicts are what the conditions can say of a caller, as far
    /// as they are asked: the condition of the rule is asked only where the
    /// condition on every call does not refuse.
    pub open spec fn may_say_both(
        &self,
        input: policy::PolicyInput,
        global: Result<bool, Seq<char>>,
        per_tool: Result<bool, Seq<char>>,
    ) -> bool {
        let rule = self.applicable(input.tool_name);
        self.reaches_conditions(input) ==> {
            &&& self.cel_allow_if matches Some(c) ==> policy::may_say(c.source(), input, global)
            &&& self.cel_allow_if is Some && global_denial(input.tool_name, global) is Some || !(
            rule is Some && (rule->0).cel_allow_if is Some) || policy::may_say(
                ((rule->0).cel_allow_if->0).source(),
                input,
                per_tool,
            )
        }
    }

    /// Whether a decision is one that the policy comes to, for verdicts that its
    /// conditions can give.
    pub open spec fn decides(&self, input: policy::PolicyInput, d: policy::DecisionView) -> bool {
        exists|g: Result<bool, Seq<char>>, t: Result<bool, Seq<char>>|
            d == #[trigger] self.decision(input, g, t) && self.may_say_both(input, g, t)
    }

    /// Decides on a call, running the conditions as far as they are needed.
    pub fn evaluate(&self, policy_context: &ToolPolicyContext) -> (r: PreDispatchPolicyOutcome)
        ensures
            self.decides(policy_context.deep_view(), r.deep_view()),
    {
        let ghost input = policy_context.deep_view();
        let ghost yes = Ok::<bool, Seq<char>>(true);
        if let Some(d) = self.evaluate_trust(policy_context) {
            proof {
                assert(policy::DecisionView::Deny(d.deep_view()) == self.decision(input, yes, yes));
            }
            return PreDispatchPolicyOutcome::Deny(d);
        }
        if let Some(d) = self.evaluate_required_scopes(policy_context) {
            proof {
                assert(policy::DecisionView::Deny(d.deep_view()) == self.decision(input, yes, yes));
            }
            return PreDispatchPolicyOutcome::Deny(d);
        }
        let global: Option<PolicyDenial> = self.evaluate_cel_allow_if(policy_context);
        let ghost g = if self.cel_allow_if is Some {
            choose|v: Result<bool, Seq<char>>|
                denial_view(global) == #[trigger] global_denial(policy_context.tool_name@, v)
                    && policy::may_say((self.cel_allow_if->0).source(), input, v)
        } else {
            yes
        };
        if let Some(d) = global {
            proof {
                assert(policy::DecisionView::Deny(d.deep_view()) == self.decision(input, g, yes));
            }
            return PreDispatchPolicyOutcome::Deny(d);
        }
        let per_tool: Option<PolicyDenial> = self.evaluate_per_tool_cel_allow_if(policy_context);
        let ghost rule = self.applicable(policy_context.tool_name@);
        let ghost t = if rule is Some && (rule->0).cel_allow_if is Some {
            choose|v: Result<bool, Seq<char>>|
                denial_view(per_tool) == #[trigger] rule_denial(policy_context.tool_name@, v)
                    && policy::may_say(((rule->0).cel_allow_if->0).source(), input, v)
        } else {
            yes
        };
        if let Some(d) = per_tool {
            proof {
                assert(policy::DecisionView::Deny(d.deep_view()) == self.decision(input, g, t));
            }
            return PreDispatchPolicyOutcome::Deny(d);
        }
        proof {
            assert(policy::DecisionView::Allow == self.decision(input, g, t));
        }
        PreDispatchPolicyOutcome::Allow
    }
}

/// Where a tool has no conditions, the decision does not depend on CEL at all.
pub proof fn law_without_conditions_the_decision_is_fixed(
    p: ToolAccessPolicy,
    input: policy::PolicyInput,
    g1: Result<bool, Seq<char>>,
    t1: Result<bool, Seq<char>>,
    g2: Result<bool, Seq<char>>,
    t2: Result<bool, Seq<char>>,
)
    requires
        p.cel_allow_if is None,
        p.applicable(input.tool_name) matches Some(r) ==> r.cel_allow_if is None,
    ensures
        p.decision(input, g1, t1) == p.decision(input, g2, t2),
{
}

/// A call is allowed only to a caller at or above the trust floor that holds
/// every required scope, whatever the conditions say.
pub proof fn law_allowed_callers_meet_floor_and_scopes(
    p: ToolAccessPolicy,
    input: policy::PolicyInput,
    g: Result<bool, Seq<char>>,
    t: Result<bool, Seq<char>>,
)
    requires
        p.decision(input, g, t) == policy::DecisionView::Allow,
    ensures
        input.trust_level.rank() >= p.floor(input.tool_name).rank(),
        p.applicable(input.tool_name) matches Some(r) ==> forall|i: int|
            0 <= i < r.required_scopes.deep_view().len() ==> input.scopes.contains(
                #[trigger] r.required_scopes.deep_view()[i],
            ),
        p.cel_allow_if is Some ==> g == Ok::<bool, Seq<char>>(true),
        p.applicable(input.tool_name) matches Some(r) && r.cel_allow_if is Some ==> t == Ok::<
            bool,
            Seq<char>,
        >(true),
{
    if let Some(r) = p.applicable(input.tool_name) {
        policy::law_nothing_missing_when_all_held(r.required_scopes.deep_view(), input.scopes);
    }
}

/// A caller that is allowed stays allowed when it is trusted more or holds more
/// scopes, as long as the conditions say the same.
pub proof fn law_more_trust_and_scopes_never_deny(
    p: ToolAccessPolicy,
    input: policy::PolicyInput,
    more: policy::PolicyInput,
    g: Result<bool, Seq<char>>,
    t: Result<bool, Seq<char>>,
)
    requires
        p.decision(input, g, t) == policy::DecisionView::Allow,
        more.tool_name == input.tool_name,
        more.trust_level.rank() >= input.trust_level.rank(),
        forall|s: Seq<char>| input.scopes.contains(s) ==> more.scopes.contains(s),
    ensures
        p.decision(more, g, t) == policy::DecisionView::Allow,
{
    if let Some(r) = p.applicable(input.tool_name) {
        policy::law_nothing_missing_when_all_held(r.required_scopes.deep_view(), input.scopes);
        policy::law_nothing_missing_when_all_held(r.required_scopes.deep_view(), more.scopes);
    }
}

/// A tool's own rule is the one that counts, whatever an import says of the
/// same name.
pub proof fn law_own_rule_wins(p: ToolAccessPolicy, name: Seq<char>)
    requires
        p.per_tool_rules@.contains_key(name),
    ensures
        p.applicable(name) == Some(p.per_tool_rules@[name]),
        p.floor(name) == p.per_tool_rules@[name].minimum_trust,
{
}

/// A cached decision, and when it was made, in nanoseconds of a clock that
/// never runs back.
#[derive(Debug)]
pub struct CacheEntry {
    pub outcome: PreDispatchPolicyOutcome,
    pub inserted_at: u64,
}

/// The decisions made lately, up to a number of them.
#[derive(Debug)]
pub struct PolicyCache {
    entries: Table<CacheEntry>,
    ttl_ms: u64,
    max_entries: usize,
}

/// A cached decision over plain values.
pub struct EntryView {
    pub outcome: policy::DecisionView,
    pub inserted_at: int,
}

/// Whether a decision made at one time still counts at another.
pub open spec fn fresh(inserted_at: int, now: int, ttl_ms: int) -> bool {
    now - inserted_at <= ttl_ms * 1_000_000
}

/// The decisions that still count.
pub open spec fn fresh_only(m: Map<Seq<char>, EntryView>, now: int, ttl_ms: int) -> Map<
    Seq<char>,
    EntryView,
> {
    Map::new(
        |k: Seq<char>| m.contains_key(k) && fresh(m[k].inserted_at, now, ttl_ms),
        |k: Seq<char>| m[k],
    )
}

/// The cache after a decision was offered to it. A full cache first drops what
/// no longer counts; one that is still full stays as it is.
pub open spec fn after_put(
    m: Map<Seq<char>, EntryView>,
    ttl_ms: int,
    max_entries: int,
    key: Seq<char>,
    outcome: policy::DecisionView,
    now: int,
) -> Map<Seq<char>, EntryView> {
    let kept = if m.dom().len() >= max_entries {
        fresh_only(m, now, ttl_ms)
    } else {
        m
    };
    if kept.dom().len() >= max_entries {
        kept
    } else {
        kept.insert(key, EntryView { outcome, inserted_at: now })
    }
}

/// What a cache answers for a key.
pub open spec fn cached(m: Map<Seq<char>, EntryView>, ttl_ms: int, key: Seq<char>, now: int) ->
    Option<policy::DecisionView> {
    if m.contains_key(key) && fresh(m[key].inserted_at, now, ttl_ms) {
        Some(m[key].outcome)
    } else {
        None
    }
}

impl PolicyCache {
    /// The decisions, by key.
    pub closed spec fn entries(&self) -> Map<Seq<char>, EntryView> {
        self.entries@.map_values(
            |e: CacheEntry|
                EntryView { outcome: e.outcome.deep_view(), inserted_at: e.inserted_at as int },
        )
    }

    /// How long a decision counts, in milliseconds.
    pub closed spec fn ttl_ms(&self) -> int {
        self.ttl_ms as int
    }

    /// How many decisions are kept.
    pub closed spec fn max_entries(&self) -> int {
        self.max_entries as int
    }

    /// A cache without decisions.
    pub fn new(ttl_ms: u64, max_entries: usize) -> (r: PolicyCache)
        ensures
            r.entries() == Map::<Seq<char>, EntryView>::empty(),
            r.ttl_ms() == ttl_ms,
            r.max_entries() == max_entries,
    {
        let r: PolicyCache = PolicyCache { entries: Table::new(), ttl_ms, max_entries };
        proof {
            assert(r.entries() =~= Map::<Seq<char>, EntryView>::empty());
        }
        r
    }

    fn is_fresh(ttl_ms: u64, inserted_at: u64, now: u64) -> (r: bool)
        ensures
            r == fresh(inserted_at as int, now as int, ttl_ms as int),
    {
        now <= inserted_at || (now - inserted_at) as u128 <= ttl_ms as u128 * 1_000_000
    }

    /// The decision of a key, where it still counts at a time.
    pub fn get(&self, key: &str, now: u64) -> (r: Option<PreDispatchPolicyOutcome>)
        ensures
            r.deep_view() == cached(self.entries(), self.ttl_ms(), key@, now as int),
    {
        match self.entries.get(key) {
            None => None,
            Some(e) => {
                if PolicyCache::is_fresh(self.ttl_ms, e.inserted_at, now) {
                    Some(e.outcome.copy())
                } else {
                    None
                }
            },
        }
    }

    /// Offers a decision made at a time to the cache.
    pub fn put(&mut self, key: &str, outcome: PreDispatchPolicyOutcome, now: u64)
        ensures
            final(self).entries() == after_put(
                old(self).entries(),
                old(self).ttl_ms(),
                old(self).max_entries(),
                key@,
                outcome.deep_view(),
                now as int,
            ),
            final(self).ttl_ms() == old(self).ttl_ms(),
            final(self).max_entries() == old(self).max_entries(),
    {
        let ghost before = self.entries();
        let full: bool = self.entries.len() >= self.max_entries;
        proof {
            assert(self.entries().dom() =~= self.entries@.dom());
        }
        if full {
            self.evict(now);
            let still_full: bool = self.entries.len() >= self.max_entries;
            proof {
                assert(self.entries().dom() =~= self.entries@.dom());
            }
            if still_full {
                return;
            }
        }
        let ghost kept = self.entries();
        self.entries.put(key, CacheEntry { outcome, inserted_at: now });
        proof {
            assert(self.entries() =~= kept.insert(
                key@,
                EntryView { outcome: outcome.deep_view(), inserted_at: now as int },
            ));
        }
    }

    fn evict(&mut self, now: u64)
        ensures
            final(self).entries() == fresh_only(
                old(self).entries(),
                now as int,
                old(self).ttl_ms(),
            ),
            final(self).ttl_ms() == old(self).ttl_ms(),
            final(self).max_entries() == old(self).max_entries(),
    {
        let ghost start = self.entries@;
        let ttl: u64 = self.ttl_ms;
        let mut i: usize = 0;
        while i < self.entries.len()
            invariant
                ttl == self.ttl_ms,
                self.ttl_ms == old(self).ttl_ms,
                self.max_entries == old(self).max_entries,
                start == old(self).entries@,
                i <= self.entries.keys().len(),
                forall|k: Seq<char>| #[trigger]
                    self.entries@.contains_key(k) ==> start.contains_key(k) && self.entries@[k]
                        == start[k],
                forall|k: Seq<char>| #[trigger]
                    start.contains_key(k) && fresh(
                        start[k].inserted_at as int,
                        now as int,
                        ttl as int,
                    ) ==> self.entries@.contains_key(k),
                forall|j: int|
                    0 <= j < i ==> fresh(
                        start[#[trigger] self.entries.keys()[j]].inserted_at as int,
                        now as int,
                        ttl as int,
                    ),
            decreases self.entries.keys().len() - i,
        {
            let e: &CacheEntry = self.entries.value_at(i);
            if PolicyCache::is_fresh(ttl, e.inserted_at, now) {
                i += 1;
            } else {
                let ghost keys = self.entries.keys();
                self.entries.remove_at(i);
                proof {
                    assert forall|j: int| 0 <= j < i implies fresh(
                        start[#[trigger] self.entries.keys()[j]].inserted_at as int,
                        now as int,
                        ttl as int,
                    ) by {
                        assert(self.entries.keys()[j] == keys[j]);
                    }
                }
            }
        }
        proof {
            let target = fresh_only(old(self).entries(), now as int, ttl as int);
            assert forall|k: Seq<char>| #[trigger] self.entries().contains_key(k)
                <==> target.contains_key(k) by {
                if self.entries@.contains_key(k) {
                    self.entries.lemma_key_is_listed(k);
                    let j = choose|j: int|
                        0 <= j < self.entries.keys().len() && self.entries.keys()[j] == k;
                    assert(fresh(
                        start[self.entries.keys()[j]].inserted_at as int,
                        now as int,
                        ttl as int,
                    ));
                }
            }
            assert(self.entries() =~= target);
        }
    }
}

/// What was offered to a cache that had room is answered until its time is up,
/// and not after.
pub proof fn law_cached_decision_lives_its_time(
    m: Map<Seq<char>, EntryView>,
    ttl_ms: int,
    max_entries: int,
    key: Seq<char>,
    outcome: policy::DecisionView,
    now: int,
    later: int,
)
    requires
        m.dom().finite(),
        m.dom().len() < max_entries,
    ensures
        cached(after_put(m, ttl_ms, max_entries, key, outcome, now), ttl_ms, key, later) == (
        if fresh(now, later, ttl_ms) {
            Some(outcome)
        } else {
            None
        }),
{
}

/// Offering a decision never fills a cache beyond its bound.
pub proof fn law_cache_stays_bounded(
    m: Map<Seq<char>, EntryView>,
    ttl_ms: int,
    max_entries: int,
    key: Seq<char>,
    outcome: policy::DecisionView,
    now: int,
)
    requires
        m.dom().finite(),
        m.dom().len() <= max_entries,
    ensures
        after_put(m, ttl_ms, max_entries, key, outcome, now).dom().len() <= max_entries,
        after_put(m, ttl_ms, max_entries, key, outcome, now).dom().finite(),
{
    let f = fresh_only(m, now, ttl_ms);
    assert(f.dom().subset_of(m.dom()));
    vstd::set_lib::lemma_len_subset(f.dom(), m.dom());
    let e = EntryView { outcome, inserted_at: now };
    assert(m.insert(key, e).dom() =~= m.dom().insert(key));
    assert(f.insert(key, e).dom() =~= f.dom().insert(key));
}

/// The policy gate: the policy, and the cache of its decisions where it has one.
#[derive(Debug)]
pub struct PreDispatchPolicyGate {
    pub tool_access_policy: ToolAccessPolicy,
    pub cache: Option<PolicyCache>,
}

/// How decisions are cached.
#[derive(Debug, Clone, Copy, PartialEq, Eq, Structural)]
pub struct PolicyCacheConfig {
    pub enabled: bool,
    pub ttl_ms: u64,
    pub max_entries: usize,
}

impl PreDispatchPolicyGate {
    /// A gate without a cache.
    pub fn try_new(config: ToolAccessPolicyConfig) -> (r: Result<
        PreDispatchPolicyGate,
        PolicyConfigError,
    >)
        ensures
            match r {
                Ok(g) => config_accepted(config) && g.tool_access_policy.configured(config)
                    && g.cache is None,
                Err(e) => config_refused(config, e.message@),
            },
    {
        match ToolAccessPolicy::from_config(config) {
            Ok(p) => Ok(PreDispatchPolicyGate { tool_access_policy: p, cache: None }),
            Err(e) => Err(e),
        }
    }

    /// A gate with a cache, where caching is switched on.
    pub fn try_new_with_cache(
        config: ToolAccessPolicyConfig,
        cache_config: &PolicyCacheConfig,
    ) -> (r: Result<PreDispatchPolicyGate, PolicyConfigError>)
        ensures
            match r {
                Ok(g) => config_accepted(config) && g.tool_access_policy.configured(config) && (
                g.cache is Some <==> cache_config.enabled) && (g.cache matches Some(c) ==> c.entries()
                    == Map::<Seq<char>, EntryView>::empty() && c.ttl_ms() == cache_config.ttl_ms
                    && c.max_entries() == cache_config.max_entries),
                Err(e) => config_refused(config, e.message@),
            },
    {
        let cache: Option<PolicyCache> = if cache_config.enabled {
            Some(PolicyCache::new(cache_config.ttl_ms, cache_config.max_entries))
        } else {
            None
        };
        match ToolAccessPolicy::from_config(config) {
            Ok(p) => Ok(PreDispatchPolicyGate { tool_access_policy: p, cache }),
            Err(e) => Err(e),
        }
    }

    /// Puts new rules for imported tools in place of the old ones. Cached
    /// decisions stay.
    pub fn publish_federated(&mut self, policies: FederatedToolPolicies)
        ensures
            final(self).tool_access_policy.federated == policies,
            final(self).tool_access_policy.default_minimum_trust == old(
                self,
            ).tool_access_policy.default_minimum_trust,
            final(self).tool_access_policy.per_tool_rules == old(
                self,
            ).tool_access_policy.per_tool_rules,
            final(self).tool_access_policy.cel_allow_if == old(
                self,
            ).tool_access_policy.cel_allow_if,
            final(self).cache == old(self).cache,
    {
        self.tool_access_policy.federated = policies;
    }

    /// Whether a decision is one that the policy gate can answer at a time: the cached
    /// one where it still counts, or else one that the policy comes to.
    pub open spec fn may_answer(
        &self,
        input: policy::PolicyInput,
        now: int,
        d: policy::DecisionView,
    ) -> bool {
        match self.cache {
            Some(c) => match cached(c.entries(), c.ttl_ms(), policy::cache_key_text(input), now) {
                Some(o) => d == o,
                None => self.tool_access_policy.decides(input, d),
            },
            None => self.tool_access_policy.decides(input, d),
        }
    }

    /// Whether this is an earlier policy gate after it answered a call with a
    /// decision: the policy is the same, and a decision that was not cached is
    /// offered to the cache.
    pub open spec fn answered(
        &self,
        before: PreDispatchPolicyGate,
        input: policy::PolicyInput,
        now: int,
        d: policy::DecisionView,
    ) -> bool {
        &&& before.may_answer(input, now, d)
        &&& self.tool_access_policy == before.tool_access_policy
        &&& match before.cache {
            None => self.cache is None,
            Some(b) => {
                &&& self.cache matches Some(a)
                &&& a.ttl_ms() == b.ttl_ms()
                &&& a.max_entries() == b.max_entries()
                &&& a.entries() == (match cached(
                    b.entries(),
                    b.ttl_ms(),
                    policy::cache_key_text(input),
                    now,
                ) {
                    Some(_) => b.entries(),
                    None => after_put(
                        b.entries(),
                        b.ttl_ms(),
                        b.max_entries(),
                        policy::cache_key_text(input),
                        d,
                        now,
                    ),
                })
            },
        }
    }

    /// Decides on a call without the cache.
    pub fn evaluate_uncached(&self, policy_context: &ToolPolicyContext) -> (r:
        PreDispatchPolicyOutcome)
        ensures
            self.tool_access_policy.decides(policy_context.deep_view(), r.deep_view()),
    {
        self.tool_access_policy.evaluate(policy_context)
    }

    /// Decides on a call at a time: a cached decision that still counts is
    /// answered again, and any other is made anew and offered to the cache.
    pub fn evaluate_tool_call(&mut self, policy_context: &ToolPolicyContext, now: u64) -> (r:
        PreDispatchPolicyOutcome)
        ensures
            final(self).answered(
                *old(self),
                policy_context.deep_view(),
                now as int,
                r.deep_view(),
            ),
    {
        let key: String = policy_context.cache_key();
        if let Some(c) = &self.cache {
            if let Some(hit) = c.get(key.as_str(), now) {
                return hit;
            }
        }
        let outcome: PreDispatchPolicyOutcome = self.tool_access_policy.evaluate(policy_context);
        let taken: Option<PolicyCache> = self.cache.take();
        if let Some(c) = taken {
            let mut c: PolicyCache = c;
            c.put(key.as_str(), outcome.copy(), now);
            self.cache = Some(c);
        }
        outcome
    }

    /// Whether a tool is shown to a caller: where a call would be allowed.
    pub fn is_tool_visible(&mut self, policy_context: &ToolPolicyContext, now: u64) -> (r: bool)
        ensures
            exists|d: policy::DecisionView| #[trigger]
                final(self).answered(*old(self), policy_context.deep_view(), now as int, d) && r
                    == (d == policy::DecisionView::Allow),
    {
        let outcome: PreDispatchPolicyOutcome = self.evaluate_tool_call(policy_context, now);
        let ghost d = outcome.deep_view();
        match outcome {
            PreDispatchPolicyOutcome::Allow => true,
            PreDispatchPolicyOutcome::Deny(_) => false,
        }
    }
}

impl Default for PreDispatchPolicyGate {
    /// The policy gate of the default configuration: every tool demands a caller that
    /// is at least named by a header.
    fn default() -> (r: PreDispatchPolicyGate)
        ensures
            r.cache is None,
            r.tool_access_policy.default_minimum_trust == RequestTrustLevel::HeaderAsserted,
            r.tool_access_policy.cel_allow_if is None,
            forall|name: Seq<char>| #[trigger] r.tool_access_policy.applicable(name) is None,
    {
        let r: PreDispatchPolicyGate = PreDispatchPolicyGate {
            tool_access_policy: ToolAccessPolicy {
                default_minimum_trust: RequestTrustLevel::HeaderAsserted,
                per_tool_rules: Table::new(),
                cel_allow_if: None,
                federated: FederatedToolPolicies::new(),
            },
            cache: None,
        };
        r
    }
}

/// Whether a caller is trusted as far as a level asks: a proven caller always, one
/// that a header names up to that level, and anybody where nothing is asked.
pub open spec fn trusted_for(caller: RequestIdentity, level: RequestTrustLevel) -> bool {
    match level {
        RequestTrustLevel::Unauthenticated => true,
        RequestTrustLevel::HeaderAsserted => !(caller is Anonymous),
        RequestTrustLevel::Verified => caller is Verified,
    }
}

/// Whether a caller proves a scope: no other claim of its credential counts.
pub open spec fn proves_scope(caller: RequestIdentity, scope: Seq<char>) -> bool {
    caller matches RequestIdentity::Verified { scopes, .. } && exists|j: int|
        0 <= j < scopes@.len() && (#[trigger] scopes@[j])@ == scope
}

/// From the caller to the decision: where neither the policy nor the rule of the
/// tool has a condition, a call is allowed exactly where the caller is trusted as
/// far as the rule asks and proves every scope that it requires, whatever its
/// roles, groups and attributes are.
pub proof fn law_trust_and_scopes_decide(
    p: ToolAccessPolicy,
    caller: RequestIdentity,
    tool_name: Seq<char>,
    rule: ToolRulePolicy,
    d: policy::DecisionView,
)
    requires
        p.cel_allow_if is None,
        p.applicable(tool_name) == Some(rule),
        rule.cel_allow_if is None,
        p.decides(policy::input_of(caller.deep_view(), tool_name), d),
    ensures
        d is Allow <==> trusted_for(caller, rule.minimum_trust) && forall|i: int|
            0 <= i < rule.required_scopes@.len() ==> proves_scope(
                caller,
                (#[trigger] rule.required_scopes@[i])@,
            ),
{
    let input = policy::input_of(caller.deep_view(), tool_name);
    let required = rule.required_scopes.deep_view();
    policy::law_nothing_missing_when_all_held(required, input.scopes);
    assert forall|i: int| 0 <= i < rule.required_scopes@.len() implies proves_scope(
        caller,
        (#[trigger] rule.required_scopes@[i])@,
    ) == input.scopes.contains(required[i]) by {
        if let RequestIdentity::Verified { scopes, .. } = caller {
            assert(input.scopes.len() == scopes@.len());
            assert(forall|j: int| 0 <= j < scopes@.len() ==> input.scopes[j] == #[trigger] scopes@[j]@);
            if proves_scope(caller, required[i]) {
                let j = choose|j: int|
                    0 <= j < scopes@.len() && (#[trigger] scopes@[j])@ == required[i];
                assert(input.scopes[j] == required[i]);
            }
            if input.scopes.contains(required[i]) {
                let j = choose|j: int| 0 <= j < input.scopes.len() && input.scopes[j] == required[i];
                assert(scopes@[j]@ == required[i]);
            }
        }
    }
    if forall|i: int|
        0 <= i < rule.required_scopes@.len() ==> proves_scope(
            caller,
            (#[trigger] rule.required_scopes@[i])@,
        ) {
        assert forall|i: int| 0 <= i < required.len() implies input.scopes.contains(
            #[trigger] required[i],
        ) by {
            assert(required[i] == rule.required_scopes@[i]@);
        }
    } else {
        let i = choose|i: int|
            0 <= i < rule.required_scopes@.len() && !proves_scope(
                caller,
                (#[trigger] rule.required_scopes@[i])@,
            );
        assert(!input.scopes.contains(required[i]));
    }
}

/// A tool without a rule asks for the default trust and for no scope.
pub proof fn law_tools_without_a_rule_ask_for_the_default(
    p: ToolAccessPolicy,
    caller: RequestIdentity,
    tool_name: Seq<char>,
    d: policy::DecisionView,
)
    requires
        p.cel_allow_if is None,
        !p.per_tool_rules@.contains_key(tool_name),
        !p.federated.rules@.contains_key(tool_name),
        p.federated.prefix_rules@.len() == 0,
        p.decides(policy::input_of(caller.deep_view(), tool_name), d),
    ensures
        d is Allow <==> trusted_for(caller, p.default_minimum_trust),
{
}

/// The configuration decides: of a tool's rules in a configuration without
/// conditions the last one counts, with its own trust and its own scopes, and the
/// rules of other tools count nothing.
pub proof fn law_configured_rules_decide(
    p: ToolAccessPolicy,
    config: ToolAccessPolicyConfig,
    i: int,
    caller: RequestIdentity,
    d: policy::DecisionView,
)
    requires
        p.configured(config),
        config.cel_allow_if is None,
        0 <= i < config.rules@.len(),
        config.rules@[i].cel_allow_if is None,
        forall|j: int|
            i < j < config.rules@.len() ==> (#[trigger] config.rules@[j]).tool_name@
                != config.rules@[i].tool_name@,
        p.decides(policy::input_of(caller.deep_view(), config.rules@[i].tool_name@), d),
    ensures
        d is Allow <==> trusted_for(caller, config.rules@[i].minimum_trust) && forall|k: int|
            0 <= k < config.rules@[i].required_scopes@.len() ==> proves_scope(
                caller,
                (#[trigger] config.rules@[i].required_scopes@[k])@,
            ),
{
    let name = config.rules@[i].tool_name@;
    law_last_rule_counts(config.rules@, i);
    let rule = config.rules@[i];
    assert(p.per_tool_rules@.contains_key(name));
    let own = p.per_tool_rules@[name];
    law_trust_and_scopes_decide(p, caller, name, own, d);
    assert(own.required_scopes.deep_view() == rule.required_scopes.deep_view());
    assert(own.required_scopes@.len() == rule.required_scopes@.len()) by {
        assert(own.required_scopes.deep_view().len() == rule.required_scopes.deep_view().len());
    }
    let by_config = forall|k: int|
        0 <= k < rule.required_scopes@.len() ==> proves_scope(
            caller,
            (#[trigger] rule.required_scopes@[k])@,
        );
    let by_policy = forall|k: int|
        0 <= k < own.required_scopes@.len() ==> proves_scope(
            caller,
            (#[trigger] own.required_scopes@[k])@,
        );
    if by_config {
        assert forall|k: int| 0 <= k < own.required_scopes@.len() implies proves_scope(
            caller,
            (#[trigger] own.required_scopes@[k])@,
        ) by {
            assert(own.required_scopes.deep_view()[k] == rule.required_scopes.deep_view()[k]);
            assert(proves_scope(caller, rule.required_scopes@[k]@));
        }
    }
    if by_policy {
        assert forall|k: int| 0 <= k < rule.required_scopes@.len() implies proves_scope(
            caller,
            (#[trigger] rule.required_scopes@[k])@,
        ) by {
            assert(own.required_scopes.deep_view()[k] == rule.required_scopes.deep_view()[k]);
            assert(proves_scope(caller, own.required_scopes@[k]@));
        }
    }
}

/// A tool that a configuration has no rule for asks for the configured default.
pub proof fn law_configured_default_decides(
    p: ToolAccessPolicy,
    config: ToolAccessPolicyConfig,
    tool_name: Seq<char>,
    caller: RequestIdentity,
    d: policy::DecisionView,
)
    requires
        p.configured(config),
        config.cel_allow_if is None,
        forall|j: int|
            0 <= j < config.rules@.len() ==> (#[trigger] config.rules@[j]).tool_name@ != tool_name,
        p.decides(policy::input_of(caller.deep_view(), tool_name), d),
    ensures
        d is Allow <==> trusted_for(caller, config.default_minimum_trust),
{
    lemma_no_rule(config.rules@, tool_name);
    assert(!p.per_tool_rules@.contains_key(tool_name));
}

proof fn lemma_no_rule(rules: Seq<ToolTrustRule>, name: Seq<char>)
    requires
        forall|j: int| 0 <= j < rules.len() ==> (#[trigger] rules[j]).tool_name@ != name,
    ensures
        last_rule(rules, name) is None,
    decreases rules.len(),
{
    if rules.len() > 0 {
        assert(rules.last() == rules[rules.len() - 1]);
        let init = rules.drop_last();
        assert forall|j: int| 0 <= j < init.len() implies (#[trigger] init[j]).tool_name@
            != name by {
            assert(init[j] == rules[j]);
        }
        lemma_no_rule(init, name);
    }
}

/// Of several rules of one tool, the last one counts.
pub proof fn law_last_rule_counts(rules: Seq<ToolTrustRule>, i: int)
    requires
        0 <= i < rules.len(),
        forall|j: int|
            i < j < rules.len() ==> (#[trigger] rules[j]).tool_name@ != rules[i].tool_name@,
    ensures
        last_rule(rules, rules[i].tool_name@) == Some(rules[i]),
    decreases rules.len(),
{
    if i < rules.len() - 1 {
        assert(rules.last() == rules[rules.len() - 1]);
        let init = rules.drop_last();
        assert(init[i] == rules[i]);
        assert forall|j: int| i < j < init.len() implies (#[trigger] init[j]).tool_name@
            != init[i].tool_name@ by {
            assert(init[j] == rules[j]);
        }
        law_last_rule_counts(init, i);
    }
}

/// An imported tool falls under the rule of its own name, or else under the first
/// prefix that its name begins with, or else under none.
pub proof fn law_first_prefix_counts(f: FederatedToolPolicies, name: Seq<char>, i: int)
    requires
        !f.rules@.contains_key(name),
        0 <= i <= f.prefix_rules@.len(),
        forall|j: int|
            0 <= j < i ==> !((#[trigger] f.prefix_rules@[j]).0@.len() <= name.len() && name.take(
                f.prefix_rules@[j].0@.len() as int,
            ) == f.prefix_rules@[j].0@),
    ensures
        i == f.prefix_rules@.len() ==> f.applicable(name) is None,
        i < f.prefix_rules@.len() && f.prefix_rules@[i].0@.len() <= name.len() && name.take(
            f.prefix_rules@[i].0@.len() as int,
        ) == f.prefix_rules@[i].0@ ==> f.applicable(name) == Some(f.prefix_rules@[i].1),
{
    lemma_first_prefix(f.prefix_rules@, name, i);
}

proof fn lemma_first_prefix(s: Seq<(String, ToolRulePolicy)>, name: Seq<char>, i: int)
    requires
        0 <= i <= s.len(),
        forall|j: int|
            0 <= j < i ==> !((#[trigger] s[j]).0@.len() <= name.len() && name.take(
                s[j].0@.len() as int,
            ) == s[j].0@),
    ensures
        i == s.len() ==> first_prefix(s, name) is None,
        i < s.len() && s[i].0@.len() <= name.len() && name.take(s[i].0@.len() as int) == s[i].0@
            ==> first_prefix(s, name) == Some(s[i].1),
    decreases s.len(),
{
    if s.len() > 0 {
        lemma_prefix(name, s[0].0@);
        if i > 0 {
            let rest = s.drop_first();
            assert(forall|j: int| 0 <= j < rest.len() ==> #[trigger] rest[j] == s[j + 1]);
            lemma_first_prefix(rest, name, i - 1);
        }
    }
}

proof fn lemma_prefix(name: Seq<char>, prefix: Seq<char>)
    ensures
        text::has_prefix(name, prefix) <==> prefix.len() <= name.len() && name.take(
            prefix.len() as int,
        ) == prefix,
{
    if text::has_prefix(name, prefix) {
        assert(name.take(prefix.len() as int) =~= prefix);
    }
}

/// Of the configured prefixes exactly the empty ones are passed over.
pub proof fn law_prefixes_are_kept(
    s: Seq<(String, ToolTrustRule)>,
    pair: (String, ToolTrustRule),
)
    ensures
        kept_prefixes(s).contains(pair) <==> s.contains(pair) && pair.0@.len() > 0,
    decreases s.len(),
{
    if s.len() > 0 {
        let init = s.drop_last();
        law_prefixes_are_kept(init, pair);
        let rest = kept_prefixes(init);
        let all = kept_prefixes(s);
        if s.contains(pair) {
            let i = choose|i: int| 0 <= i < s.len() && s[i] == pair;
            if i < init.len() {
                assert(init[i] == pair);
            }
        }
        if init.contains(pair) {
            let i = choose|i: int| 0 <= i < init.len() && init[i] == pair;
            assert(s[i] == pair);
        }
        if all.contains(pair) {
            let i = choose|i: int| 0 <= i < all.len() && all[i] == pair;
            if i < rest.len() {
                assert(rest[i] == pair);
            }
        }
        if rest.contains(pair) {
            let i = choose|i: int| 0 <= i < rest.len() && rest[i] == pair;
            assert(all[i] == pair);
        }
        if s.last() == pair && pair.0@.len() > 0 {
            assert(all[all.len() - 1] == pair);
            assert(s[s.len() - 1] == pair);
        }
    }
}

/// Where a caller reaches the conditions, each of them must say yes: a condition
/// that says no or fails refuses the call, the one on every call before that of
/// the tool's rule, and a refusal tells a no from a failure.
pub proof fn law_conditions_must_say_yes(
    p: ToolAccessPolicy,
    input: policy::PolicyInput,
    g: Result<bool, Seq<char>>,
    t: Result<bool, Seq<char>>,
)
    requires
        p.reaches_conditions(input),
    ensures
        ({
            let own = p.applicable(input.tool_name) matches Some(r) && r.cel_allow_if is Some;
            match p.decision(input, g, t) {
                policy::DecisionView::Allow => (p.cel_allow_if is Some ==> g == Ok::<
                    bool,
                    Seq<char>,
                >(true)) && (own ==> t == Ok::<bool, Seq<char>>(true)),
                policy::DecisionView::Deny(d) => d.insufficient_scope is None && if p.cel_allow_if
                    is Some && g != Ok::<bool, Seq<char>>(true) {
                    if g is Ok {
                        d.code == -32022 && d.http_status == 403
                    } else {
                        d.code == -32603 && d.http_status == 500
                    }
                } else {
                    own && if t == Ok::<bool, Seq<char>>(false) {
                        d.code == -32005 && d.http_status == 403
                    } else {
                        t is Err && d.code == -32603 && d.http_status == 500
                    }
                },
            }
        }),
{
}

/// A caller that is not trusted enough, or lacks scopes, is refused before any
/// condition is asked, with a status that says that it may not; and it is told the
/// scopes that it lacks, all of them and no others.
pub proof fn law_floor_and_scopes_refuse_first(
    p: ToolAccessPolicy,
    caller: RequestIdentity,
    tool_name: Seq<char>,
    rule: ToolRulePolicy,
    g: Result<bool, Seq<char>>,
    t: Result<bool, Seq<char>>,
    scope: Seq<char>,
)
    requires
        p.applicable(tool_name) == Some(rule),
    ensures
        ({
            let d = p.decision(policy::input_of(caller.deep_view(), tool_name), g, t);
            &&& !trusted_for(caller, rule.minimum_trust) ==> (d matches policy::DecisionView::Deny(
                x,
            ) && x.code == -32003 && x.http_status == 403 && x.insufficient_scope is None)
            &&& trusted_for(caller, rule.minimum_trust) && p.lacking(
                policy::input_of(caller.deep_view(), tool_name),
            ).len() > 0 ==> (d matches policy::DecisionView::Deny(x) && x.code == -32003
                && x.http_status == 403 && (x.insufficient_scope matches Some(named) && (
            named.contains(scope) <==> rule.required_scopes.deep_view().contains(scope)
                && !caller.deep_view().scopes().contains(scope))))
        }),
{
    policy::law_missing_is_required_and_not_held(
        rule.required_scopes.deep_view(),
        caller.deep_view().scopes(),
        scope,
    );
}

/// A cached decision is answered for as many milliseconds as the cache keeps
/// decisions, and only under the key that it was kept for; and offering a decision
/// under one key changes what is answered under no other.
pub proof fn law_cache_answers_by_key_and_time(
    m: Map<Seq<char>, EntryView>,
    ttl_ms: int,
    max_entries: int,
    key: Seq<char>,
    other: Seq<char>,
    outcome: policy::DecisionView,
    now: int,
    later: int,
)
    requires
        m.dom().finite(),
        m.dom().len() < max_entries,
        other != key,
    ensures
        ({
            let after = after_put(m, ttl_ms, max_entries, key, outcome, now);
            &&& later - now <= ttl_ms * 1_000_000 ==> cached(after, ttl_ms, key, later) == Some(
                outcome,
            )
            &&& later - now > ttl_ms * 1_000_000 ==> cached(after, ttl_ms, key, later) is None
            &&& cached(after, ttl_ms, other, later) == cached(m, ttl_ms, other, later)
        }),
{
}

/// A full cache drops what no longer counts before it turns a new decision away,
/// and never what still counts.
pub proof fn law_full_cache_keeps_what_counts(
    m: Map<Seq<char>, EntryView>,
    ttl_ms: int,
    max_entries: int,
    key: Seq<char>,
    other: Seq<char>,
    outcome: policy::DecisionView,
    now: int,
)
    requires
        other != key,
    ensures
        cached(after_put(m, ttl_ms, max_entries, key, outcome, now), ttl_ms, other, now) == cached(
            m,
            ttl_ms,
            other,
            now,
        ),
        fresh_only(m, now, ttl_ms).dom().len() < max_entries ==> after_put(
            m,
            ttl_ms,
            max_entries,
            key,
            outcome,
            now,
        ).contains_key(key),
{
}

/// A gate answers a repeated question from its cache for as long as the first
/// answer counts, even where the policy would by then say something else; and
/// without a cache it always asks the policy.
pub proof fn law_repeated_questions_get_the_first_answer(
    before: PreDispatchPolicyGate,
    between: PreDispatchPolicyGate,
    input: policy::PolicyInput,
    now: int,
    later: int,
    d: policy::DecisionView,
    e: policy::DecisionView,
)
    requires
        between.answered(before, input, now, d),
        between.may_answer(input, later, e),
        now <= later,
    ensures
        before.cache is None ==> between.tool_access_policy.decides(input, e),
        before.cache matches Some(c) ==> cached(
            c.entries(),
            c.ttl_ms(),
            policy::cache_key_text(input),
            now,
        ) is None ==> c.entries().dom().len() < c.max_entries() ==> later - now <= c.ttl_ms()
            * 1_000_000 ==> e == d,
{
}

/// From a caller to the verdict on its call: for a tool whose rule has no
/// condition, in a policy without one, a gate without a cache lets exactly those
/// callers pass, and shows the tool to exactly those, that are trusted as far as
/// the rule asks and prove every scope that it requires.
pub proof fn law_gates_let_pass_who_proves_enough(
    gate: &mut PreDispatchPolicyGate,
    caller: RequestIdentity,
    tool_name: &str,
    context: ToolPolicyContext,
    rule: ToolRulePolicy,
    now: u64,
    outcome: PreDispatchPolicyOutcome,
    visible: bool,
    uncached: PreDispatchPolicyOutcome,
)
    requires
        call_ensures(ToolPolicyContext::from_identity, (&caller, tool_name), context),
        call_ensures(PreDispatchPolicyGate::evaluate_tool_call, (gate, &context, now), outcome),
        call_ensures(PreDispatchPolicyGate::is_tool_visible, (gate, &context, now), visible),
        call_ensures(PreDispatchPolicyGate::evaluate_uncached, (&*old(gate), &context), uncached),
        old(gate).cache is None,
        old(gate).tool_access_policy.cel_allow_if is None,
        old(gate).tool_access_policy.applicable(tool_name@) == Some(rule),
        rule.cel_allow_if is None,
    ensures
        ({
            let enough = trusted_for(caller, rule.minimum_trust) && forall|i: int|
                0 <= i < rule.required_scopes@.len() ==> proves_scope(
                    caller,
                    (#[trigger] rule.required_scopes@[i])@,
                );
            &&& outcome is Allow <==> enough
            &&& visible <==> enough
            &&& uncached is Allow <==> enough
        }),
        final(gate).tool_access_policy == old(gate).tool_access_policy,
        final(gate).cache is None,
{
    let p = old(gate).tool_access_policy;
    let input = policy::input_of(caller.deep_view(), tool_name@);
    law_trust_and_scopes_decide(p, caller, tool_name@, rule, outcome.deep_view());
    law_trust_and_scopes_decide(p, caller, tool_name@, rule, uncached.deep_view());
    let d = choose|d: policy::DecisionView| #[trigger]
        final(gate).answered(*old(gate), context.deep_view(), now as int, d) && visible == (d
            == policy::DecisionView::Allow);
    law_trust_and_scopes_decide(p, caller, tool_name@, rule, d);
}

/// A gate that is made from a configuration without conditions holds the callers of
/// a tool to the last rule of that tool, and the callers of other tools to the
/// default.
pub proof fn law_gates_hold_callers_to_their_configuration(
    config: ToolAccessPolicyConfig,
    made: Result<PreDispatchPolicyGate, PolicyConfigError>,
    caller: RequestIdentity,
    tool_name: &str,
    context: ToolPolicyContext,
    outcome: PreDispatchPolicyOutcome,
    i: int,
)
    requires
        call_ensures(PreDispatchPolicyGate::try_new, (config,), made),
        call_ensures(ToolPolicyContext::from_identity, (&caller, tool_name), context),
        made matches Ok(gate) && call_ensures(
            PreDispatchPolicyGate::evaluate_uncached,
            (&gate, &context),
            outcome,
        ),
        config.cel_allow_if is None,
        0 <= i <= config.rules@.len(),
        i < config.rules@.len() ==> config.rules@[i].tool_name@ == tool_name@
            && config.rules@[i].cel_allow_if is None,
        forall|j: int|
            (i < j < config.rules@.len() || i == config.rules@.len() && 0 <= j < i) ==> (
            #[trigger] config.rules@[j]).tool_name@ != tool_name@,
    ensures
        i == config.rules@.len() ==> (outcome is Allow <==> trusted_for(
            caller,
            config.default_minimum_trust,
        )),
        i < config.rules@.len() ==> (outcome is Allow <==> trusted_for(
            caller,
            config.rules@[i].minimum_trust,
        ) && forall|k: int|
            0 <= k < config.rules@[i].required_scopes@.len() ==> proves_scope(
                caller,
                (#[trigger] config.rules@[i].required_scopes@[k])@,
            )),
{
    let p = made->Ok_0.tool_access_policy;
    if i == config.rules@.len() {
        law_configured_default_decides(p, config, tool_name@, caller, outcome.deep_view());
    } else {
        law_configured_rules_decide(p, config, i, caller, outcome.deep_view());
    }
}

/// The default gate lets every caller with a name pass and nobody else.
pub proof fn law_default_gate_asks_for_a_name(
    gate: PreDispatchPolicyGate,
    caller: RequestIdentity,
    tool_name: &str,
    context: ToolPolicyContext,
    outcome: PreDispatchPolicyOutcome,
)
    requires
        call_ensures(PreDispatchPolicyGate::default, (), gate),
        call_ensures(ToolPolicyContext::from_identity, (&caller, tool_name), context),
        call_ensures(PreDispatchPolicyGate::evaluate_uncached, (&gate, &context), outcome),
    ensures
        outcome is Allow <==> !(caller is Anonymous),
{
    assert(gate.tool_access_policy.applicable(tool_name@) is None);
}

/// New rules for imported tools replace the old ones and nothing else: neither the
/// gate's own rules nor what it has kept.
pub proof fn law_imported_rules_are_replaced(
    gate: &mut PreDispatchPolicyGate,
    policies: FederatedToolPolicies,
    name: Seq<char>,
)
    requires
        call_ensures(PreDispatchPolicyGate::publish_federated, (gate, policies), ()),
    ensures
        old(gate).tool_access_policy.per_tool_rules@.contains_key(name) ==> final(gate).tool_access_policy.applicable(name) == old(gate).tool_access_policy.applicable(name),
        !old(gate).tool_access_policy.per_tool_rules@.contains_key(name) ==> final(gate).tool_access_policy.applicable(name) == policies.applicable(name),
        final(gate).tool_access_policy.default_minimum_trust == old(gate).tool_access_policy.default_minimum_trust,
        final(gate).tool_access_policy.cel_allow_if == old(gate).tool_access_policy.cel_allow_if,
        final(gate).cache == old(gate).cache,
{
}

/// A cache that has room answers a question with what was put under its key for as
/// long as that lasts, and not a moment longer, and puts nothing under other keys.
pub proof fn law_caches_give_back_what_was_put(
    cache: &mut PolicyCache,
    key: &str,
    other: &str,
    outcome: PreDispatchPolicyOutcome,
    now: u64,
    later: u64,
    own: Option<PreDispatchPolicyOutcome>,
    of_other: Option<PreDispatchPolicyOutcome>,
    before: Option<PreDispatchPolicyOutcome>,
)
    requires
        call_ensures(PolicyCache::put, (cache, key, outcome, now), ()),
        call_ensures(PolicyCache::get, (&*final(cache), key, later), own),
        call_ensures(PolicyCache::get, (&*final(cache), other, later), of_other),
        call_ensures(PolicyCache::get, (&*old(cache), other, later), before),
        old(cache).entries().dom().finite(),
        old(cache).entries().dom().len() < old(cache).max_entries(),
        other@ != key@,
    ensures
        own is Some <==> later - now <= old(cache).ttl_ms() * 1_000_000,
        own matches Some(o) ==> o.deep_view() == outcome.deep_view(),
        of_other.deep_view() == before.deep_view(),
{
}

/// A refusal for want of trust names the tool, what is asked for and what the caller
/// has, to the caller and on record; one for want of scopes names the tool and every
/// scope that is lacking.
#[verifier::rlimit(40)]
pub proof fn law_refusals_say_what_is_wanting(
    p: ToolAccessPolicy,
    ctx: ToolPolicyContext,
    r: Option<PolicyDenial>,
    trust: policy::DenialView,
    floor: RequestTrustLevel,
)
    requires
        call_ensures(ToolAccessPolicy::evaluate_required_scopes, (&p, &ctx), r),
        trust == trust_denial(ctx.deep_view(), floor),
    ensures
        r matches Some(d) ==> {
            let told = d.deep_view();
            &&& told.code == -32003 && told.http_status == 403
            &&& told.insufficient_scope == Some(p.lacking(ctx.deep_view()))
            &&& text::stands_in(told.message, ctx.tool_name@)
            &&& text::stands_in(told.message, text::joined(p.lacking(ctx.deep_view()), " "@))
            &&& text::stands_in(told.audit_reason, ctx.tool_name@)
            &&& text::ends_with(
                told.audit_reason,
                text::joined(p.lacking(ctx.deep_view()), ","@),
            )
        },
        r is Some <==> p.lacking(ctx.deep_view()).len() > 0,
        text::stands_in(trust.message, ctx.tool_name@),
        text::ends_with(trust.message, identity::trust_debug_text(ctx.trust_level)),
        text::stands_in(trust.message, identity::trust_debug_text(floor)),
        text::stands_in(trust.audit_reason, ctx.tool_name@),
        text::ends_with(trust.audit_reason, identity::trust_debug_text(ctx.trust_level)),
{
    let name = ctx.tool_name@;
    let lacking = p.lacking(ctx.deep_view());
    let spaced = text::joined(lacking, " "@);
    let listed = text::joined(lacking, ","@);
    let a = "tool "@;
    let b = " requires OAuth scope(s) "@;
    let c = " not present on the caller's credential"@;
    text::lemma_stands(a, name, b + spaced + c);
    assert(a + name + (b + spaced + c) =~= a + name + b + spaced + c);
    text::lemma_stands(a + name + b, spaced, c);
    let d = "tool_insufficient_scope:"@;
    let e = ":"@;
    text::lemma_stands(d, name, e + listed);
    assert(d + name + (e + listed) =~= d + name + e + listed);
    text::lemma_stands(d + name + e, listed, seq![]);
    let want = identity::trust_debug_text(floor);
    let have = identity::trust_debug_text(ctx.trust_level);
    let f = " requires trust level "@;
    let g = ", current trust is "@;
    text::lemma_stands(a, name, f + want + g + have);
    assert(a + name + (f + want + g + have) =~= a + name + f + want + g + have);
    text::lemma_stands(a + name + f, want, g + have);
    assert(a + name + f + want + (g + have) =~= a + name + f + want + g + have);
    text::lemma_stands(a + name + f + want + g, have, seq![]);
    let h = "tool_trust_requirement_not_met:"@;
    text::lemma_stands(h, name, e + want + e + have);
    assert(h + name + (e + want + e + have) =~= h + name + e + want + e + have);
    text::lemma_stands(h + name + e + want + e, have, seq![]);
}

/// A configuration is taken exactly where every condition in it can be read, that of
/// each rule and that on every call; and the policy then has its default and its
/// condition.
pub proof fn law_configurations_must_be_readable(
    config: ToolAccessPolicyConfig,
    r: Result<ToolAccessPolicy, PolicyConfigError>,
)
    requires
        call_ensures(ToolAccessPolicy::from_config, (config,), r),
    ensures
        r is Ok <==> (forall|i: int|
            0 <= i < config.rules@.len() ==> ((#[trigger] config.rules@[i]).cel_allow_if
                matches Some(s) ==> outside::cel_compiles(s@))) && (config.cel_allow_if matches Some(
            s,
        ) ==> outside::cel_compiles(s@)),
        r matches Ok(p) ==> p.default_minimum_trust == config.default_minimum_trust && (
        p.cel_allow_if is Some <==> config.cel_allow_if is Some) && (p.cel_allow_if matches Some(c)
            ==> c.source() == config.cel_allow_if->0@),
{
    if r is Err {
        let message = r->Err_0.message@;
        if forall|i: int|
            0 <= i < config.rules@.len() ==> ((#[trigger] config.rules@[i]).cel_allow_if
                matches Some(s) ==> outside::cel_compiles(s@)) {
            assert forall|j: int| 0 <= j < config.rules@.len() implies policy::rule_error(
                #[trigger] config.rules@[j],
            ) is None by {}
        }
    } else {
        assert forall|i: int| 0 <= i < config.rules@.len() implies ((
        #[trigger] config.rules@[i]).cel_allow_if matches Some(s) ==> outside::cel_compiles(s@)) by {
            assert(policy::rule_error(config.rules@[i]) is None);
        }
    }
}

/// What a tool asks for is what its rule says, and the default where it has none.
pub proof fn law_tools_ask_what_their_rule_says(
    p: ToolAccessPolicy,
    tool_name: &str,
    r: RequestTrustLevel,
)
    requires
        call_ensures(ToolAccessPolicy::required_trust_for, (&p, tool_name), r),
    ensures
        p.applicable(tool_name@) matches Some(rule) ==> r == rule.minimum_trust,
        p.applicable(tool_name@) is None ==> r == p.default_minimum_trust,
{
}

/// Conditions refuse where they do not say yes, and the records say of which tool; a
/// condition that fails is a fault of the server, and its words go on record.
pub proof fn law_conditions_refuse_by_name(
    tool_name: &str,
    verdict: Result<bool, String>,
    on_all: Option<PolicyDenial>,
    on_tool: Option<PolicyDenial>,
)
    requires
        call_ensures(decide_global_cel, (tool_name, verdict), on_all),
        call_ensures(decide_rule_cel, (tool_name, verdict), on_tool),
    ensures
        on_all is None <==> verdict == Ok::<bool, String>(true),
        on_tool is None <==> verdict == Ok::<bool, String>(true),
        verdict matches Ok(false) ==> on_all->0.code == -32022 && on_tool->0.code == -32005
            && on_all->0.http_status == 403 && on_tool->0.http_status == 403 && text::ends_with(
            on_all->0.audit_reason@,
            tool_name@,
        ) && text::ends_with(on_tool->0.audit_reason@, tool_name@),
        verdict matches Err(e) ==> on_all->0.code == -32603 && on_tool->0.code == -32603
            && on_all->0.http_status == 500 && on_tool->0.http_status == 500 && text::ends_with(
            on_all->0.audit_reason@,
            e@,
        ) && text::ends_with(on_tool->0.audit_reason@, e@) && on_all->0.message@
            == on_tool->0.message@,
{
    let a = "tool_access_cel_allow_if_denied:"@;
    let b = "tool_access_rule_cel_allow_if_denied:"@;
    let c = "tool_access_cel_allow_if_error:"@;
    let d = "tool_access_rule_cel_allow_if_error:"@;
    text::lemma_stands(a, tool_name@, seq![]);
    text::lemma_stands(b, tool_name@, seq![]);
    if let Err(e) = verdict {
        text::lemma_stands(c + tool_name@ + ":"@, e@, seq![]);
        text::lemma_stands(d + tool_name@ + ":"@, e@, seq![]);
    }
    if on_all is Some {
        assert(on_all->0.deep_view().audit_reason == on_all->0.audit_reason@);
        assert(on_all->0.deep_view().message == on_all->0.message@);
    }
    if on_tool is Some {
        assert(on_tool->0.deep_view().audit_reason == on_tool->0.audit_reason@);
        assert(on_tool->0.deep_view().message == on_tool->0.message@);
    }
}

/// A cache is used exactly where it is switched on, starts empty, and keeps decisions
/// for as long, and as many, as it is set to.
pub proof fn law_caches_are_what_is_set(
    config: ToolAccessPolicyConfig,
    cache_config: PolicyCacheConfig,
    r: Result<PreDispatchPolicyGate, PolicyConfigError>,
    key: Seq<char>,
)
    requires
        call_ensures(PreDispatchPolicyGate::try_new_with_cache, (config, &cache_config), r),
    ensures
        r matches Ok(gate) ==> {
            &&& gate.cache is Some <==> cache_config.enabled
            &&& gate.cache matches Some(c) ==> !c.entries().contains_key(key) && c.ttl_ms()
                == cache_config.ttl_ms && c.max_entries() == cache_config.max_entries
            &&& gate.tool_access_policy.default_minimum_trust == config.default_minimum_trust
        },
        config.cel_allow_if is None && (forall|i: int|
            0 <= i < config.rules@.len() ==> (#[trigger] config.rules@[i]).cel_allow_if is None)
            ==> r is Ok,
{
    if r is Err && config.cel_allow_if is None && (forall|i: int|
        0 <= i < config.rules@.len() ==> (#[trigger] config.rules@[i]).cel_allow_if is None) {
        assert forall|j: int| 0 <= j < config.rules@.len() implies policy::rule_error(
            #[trigger] config.rules@[j],
        ) is None by {
            assert(config.rules@[j].cel_allow_if is None);
        }
    }
}

/// Rules for imported tools are taken as they are configured, the last of a name
/// counting, and a condition that cannot be read spoils them all.
pub proof fn law_imported_rules_are_taken_as_configured(
    rules: Vec<ToolTrustRule>,
    prefix_rules: Vec<(String, ToolTrustRule)>,
    r: Result<FederatedToolPolicies, PolicyConfigError>,
    i: int,
)
    requires
        call_ensures(FederatedToolPolicies::compile, (rules, prefix_rules), r),
        0 <= i < rules@.len(),
        forall|j: int|
            i < j < rules@.len() ==> (#[trigger] rules@[j]).tool_name@ != rules@[i].tool_name@,
    ensures
        r matches Ok(p) ==> (p.applicable(rules@[i].tool_name@) matches Some(rule)
            && rule.minimum_trust == rules@[i].minimum_trust && rule.required_scopes.deep_view()
            == rules@[i].required_scopes.deep_view()),
        rules@[i].cel_allow_if matches Some(s) ==> !outside::cel_compiles(s@) ==> r is Err,
{
    law_last_rule_counts(rules@, i);
    if let Ok(p) = r {
        assert(policy::rule_error(rules@[i]) is None);
        assert(p.rules@.contains_key(rules@[i].tool_name@));
    }
}

/// A call passes only where the condition on every call, and that of its tool's own
/// rule, can say yes of this very caller and tool; and a call that the condition on
/// every call denies is one of which that condition can say no.
pub proof fn law_conditions_are_asked_of_the_caller(
    p: ToolAccessPolicy,
    ctx: ToolPolicyContext,
    outcome: PreDispatchPolicyOutcome,
)
    requires
        call_ensures(ToolAccessPolicy::evaluate, (&p, &ctx), outcome),
    ensures
        outcome is Allow ==> (p.cel_allow_if matches Some(c) ==> outside::cel_may_give(
            c.source(),
            policy::condition_variables(ctx.deep_view()),
            Ok(Ok(true)),
        )),
        outcome is Allow ==> (p.applicable(ctx.tool_name@) matches Some(rule) ==> (rule.cel_allow_if
            matches Some(c) ==> outside::cel_may_give(
            c.source(),
            policy::condition_variables(ctx.deep_view()),
            Ok(Ok(true)),
        ))),
        outcome matches PreDispatchPolicyOutcome::Deny(d) ==> d.code == -32022 ==> (p.cel_allow_if
            matches Some(c) && outside::cel_may_give(
            c.source(),
            policy::condition_variables(ctx.deep_view()),
            Ok(Ok(false)),
        )),
        outcome matches PreDispatchPolicyOutcome::Deny(d) ==> d.code == -32005 ==> (p.applicable(
            ctx.tool_name@,
        ) matches Some(rule) && (rule.cel_allow_if matches Some(c) && outside::cel_may_give(
            c.source(),
            policy::condition_variables(ctx.deep_view()),
            Ok(Ok(false)),
        ))),
{
    let input = ctx.deep_view();
    assert(input.tool_name == ctx.tool_name@);
    let d = outcome.deep_view();
    let (g, t) = choose|g: Result<bool, Seq<char>>, t: Result<bool, Seq<char>>|
        d == #[trigger] p.decision(input, g, t) && p.may_say_both(input, g, t);
    assert(p.decision(input, g, t) == d);
    if outcome is Deny {
        assert(d->Deny_0.code == outcome->Deny_0.code);
    }
}

} // verus!
