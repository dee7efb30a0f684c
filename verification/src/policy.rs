//! The policy gate that every call passes before it is dispatched: a trust
//! floor, required scopes, and conditions in CEL.
use vstd::prelude::*;
use vstd::std_specs::hash::*;
use vstd::string::*;

use std::collections::hash_map::DefaultHasher;
use std::hash::Hasher;

use crate::identity;
use crate::identity::{
    trust_name, trust_of_name, Attributes, RequestIdentity, RequestTrustLevel,
};
use crate::json;
use crate::json::Json;
use crate::order;
use crate::outside;
use crate::outside::CelOutcome;
use crate::text;

verus! {

/// What the policy gate is made from.
#[derive(Debug)]
pub struct ToolAccessPolicyConfig {
    /// The trust that a tool without a rule demands.
    pub default_minimum_trust: RequestTrustLevel,
    /// A condition on every call.
    pub cel_allow_if: Option<String>,
    /// The rules of single tools.
    pub rules: Vec<ToolTrustRule>,
}

impl Default for ToolAccessPolicyConfig {
    fn default() -> (r: ToolAccessPolicyConfig)
        ensures
            r.default_minimum_trust == RequestTrustLevel::HeaderAsserted,
            r.cel_allow_if is None,
            r.rules@.len() == 0,
    {
        ToolAccessPolicyConfig {
            default_minimum_trust: RequestTrustLevel::HeaderAsserted,
            cel_allow_if: None,
            rules: Vec::new(),
        }
    }
}

/// The rule of one tool.
#[derive(Debug)]
pub struct ToolTrustRule {
    pub tool_name: String,
    /// The trust that the tool demands.
    pub minimum_trust: RequestTrustLevel,
    /// A condition on calls of the tool.
    pub cel_allow_if: Option<String>,
    /// The OAuth scopes that a caller must hold.
    pub required_scopes: Vec<String>,
}

/// The identity that a plugin hands on to a call it makes.
#[derive(Debug)]
pub struct PluginIdentity {
    pub kind: String,
    pub trust_level: String,
    pub subject_id: Option<String>,
    pub auth_provider: Option<String>,
    pub issuer: Option<String>,
    pub roles: Vec<String>,
    pub groups: Vec<String>,
    pub scopes: Vec<String>,
    pub attributes: Attributes,
}

/// What the policy gate decides on: the tool and the caller's claims.
#[derive(Debug)]
pub struct ToolPolicyContext {
    pub tool_name: String,
    pub trust_level: RequestTrustLevel,
    pub principal_id: Option<String>,
    pub auth_provider: Option<String>,
    pub identity_kind: String,
    pub roles: Vec<String>,
    pub groups: Vec<String>,
    pub scopes: Vec<String>,
    pub attributes: Attributes,
}

/// What the policy gate decides on, over plain values.
pub struct PolicyInput {
    pub tool_name: Seq<char>,
    pub trust_level: RequestTrustLevel,
    pub principal_id: Option<Seq<char>>,
    pub auth_provider: Option<Seq<char>>,
    pub identity_kind: Seq<char>,
    pub roles: Seq<Seq<char>>,
    pub groups: Seq<Seq<char>>,
    pub scopes: Seq<Seq<char>>,
    pub attributes: Seq<(Seq<char>, Seq<char>)>,
}

impl DeepView for ToolPolicyContext {
    type V = PolicyInput;

    open spec fn deep_view(&self) -> PolicyInput {
        PolicyInput {
            tool_name: self.tool_name@,
            trust_level: self.trust_level,
            principal_id: self.principal_id.deep_view(),
            auth_provider: self.auth_provider.deep_view(),
            identity_kind: self.identity_kind@,
            roles: self.roles.deep_view(),
            groups: self.groups.deep_view(),
            scopes: self.scopes.deep_view(),
            attributes: self.attributes.pairs(),
        }
    }
}

/// The input that an identity and a tool name make.
pub open spec fn input_of(identity: identity::IdentityView, tool_name: Seq<char>) -> PolicyInput {
    PolicyInput {
        tool_name,
        trust_level: identity.trust_level(),
        principal_id: identity.principal_id(),
        auth_provider: identity.auth_provider(),
        identity_kind: identity.label(),
        roles: identity.roles(),
        groups: identity.groups(),
        scopes: identity.scopes(),
        attributes: identity.attributes(),
    }
}

/// A number as so many bytes, the lowest first.
pub open spec fn low_bytes(n: nat, count: nat) -> Seq<u8>
    decreases count,
{
    if count == 0 {
        seq![]
    } else {
        seq![(n % 256) as u8] + low_bytes(n / 256, (count - 1) as nat)
    }
}

fn low_bytes_of(n: u64) -> (r: Vec<u8>)
    ensures
        r@ == low_bytes(n as nat, 8),
{
    let mut out: Vec<u8> = Vec::new();
    let mut rest: u64 = n;
    let mut i: usize = 0;
    proof {
        assert(out@ + low_bytes(n as nat, 8) =~= low_bytes(n as nat, 8));
    }
    while i < 8
        invariant
            i <= 8,
            out@ + low_bytes(rest as nat, (8 - i) as nat) == low_bytes(n as nat, 8),
        decreases 8 - i,
    {
        let b: u8 = (rest % 256) as u8;
        proof {
            assert(out@.push(b) + low_bytes(rest as nat / 256, (8 - i - 1) as nat) =~= out@ + (
            seq![b] + low_bytes(rest as nat / 256, (8 - i - 1) as nat)));
        }
        out.push(b);
        rest = rest / 256;
        i += 1;
    }
    proof {
        assert(out@ + low_bytes(rest as nat, 0) =~= out@);
    }
    out
}

/// The low digits of a number in hexadecimal, the highest first.
pub open spec fn low_hex(n: nat, count: nat) -> Seq<char>
    decreases count,
{
    if count == 0 {
        seq![]
    } else {
        low_hex(n / 16, (count - 1) as nat).push(outside::hex_char((n % 16) as int))
    }
}

fn hex_digit(d: u64) -> (c: char)
    requires
        d < 16,
    ensures
        c == outside::hex_char(d as int),
{
    match d {
        0 => '0',
        1 => '1',
        2 => '2',
        3 => '3',
        4 => '4',
        5 => '5',
        6 => '6',
        7 => '7',
        8 => '8',
        9 => '9',
        10 => 'a',
        11 => 'b',
        12 => 'c',
        13 => 'd',
        14 => 'e',
        _ => 'f',
    }
}

fn low_hex_of(n: u64, count: u32) -> (r: String)
    ensures
        r@ == low_hex(n as nat, count as nat),
    decreases count,
{
    if count == 0 {
        String::new()
    } else {
        let mut s: String = low_hex_of(n / 16, count - 1);
        s.push(hex_digit(n % 16));
        s
    }
}

/// What is fed to the hasher for a text: its bytes and an end mark.
pub open spec fn fed_text(t: Seq<char>) -> Seq<Seq<u8>> {
    seq![vstd::utf8::encode_utf8(t), seq![255u8]]
}

/// What is fed to the hasher for an optional text: whether it is there, and the
/// text.
pub open spec fn fed_opt(t: Option<Seq<char>>) -> Seq<Seq<u8>> {
    match t {
        None => seq![low_bytes(0, 8)],
        Some(s) => seq![low_bytes(1, 8)] + fed_text(s),
    }
}

/// What is fed to the hasher for a run of texts.
pub open spec fn fed_all(s: Seq<Seq<char>>) -> Seq<Seq<u8>>
    decreases s.len(),
{
    if s.len() == 0 {
        seq![]
    } else {
        fed_all(s.drop_last()) + fed_text(s.last())
    }
}

/// What is fed to the hasher for a list, in ascending order: its length and its
/// texts.
pub open spec fn fed_list(s: Seq<Seq<char>>) -> Seq<Seq<u8>> {
    let sorted = order::sorted_texts(s);
    seq![low_bytes(sorted.len(), 8)] + fed_all(sorted)
}

/// What is fed to the hasher for attributes.
pub open spec fn fed_pairs(s: Seq<(Seq<char>, Seq<char>)>) -> Seq<Seq<u8>>
    decreases s.len(),
{
    if s.len() == 0 {
        seq![]
    } else {
        fed_pairs(s.drop_last()) + fed_text(s.last().0) + fed_text(s.last().1)
    }
}

/// What is fed to the hasher for the claims of a caller.
pub open spec fn fed_claims(input: PolicyInput) -> Seq<Seq<u8>> {
    fed_opt(input.auth_provider) + fed_text(input.identity_kind) + fed_list(input.roles) + fed_list(
        input.groups,
    ) + fed_list(input.scopes) + fed_pairs(input.attributes)
}

/// The key under which a decision is cached: subject, tool, trust level and a
/// fingerprint of the claims.
pub open spec fn cache_key_text(input: PolicyInput) -> Seq<char> {
    (match input.principal_id {
        Some(p) => p,
        None => "_anon"@,
    }) + ":"@ + input.tool_name + ":"@ + identity::trust_text(input.trust_level) + ":"@ + low_hex(
        DefaultHasher::spec_finish(fed_claims(input)) as nat,
        16,
    )
}

fn feed_text(h: &mut DefaultHasher, t: &str)
    ensures
        final(h)@ == old(h)@ + fed_text(t@),
{
    h.write(t.as_bytes());
    let end: [u8; 1] = [255];
    h.write(end.as_slice());
    proof {
        assert(end@ =~= seq![255u8]);
        assert(h@ =~= old(h)@ + fed_text(t@));
    }
}

fn feed_number(h: &mut DefaultHasher, n: u64)
    ensures
        final(h)@ == old(h)@.push(low_bytes(n as nat, 8)),
{
    let b: Vec<u8> = low_bytes_of(n);
    h.write(b.as_slice());
}

fn feed_list(h: &mut DefaultHasher, v: &Vec<String>)
    ensures
        final(h)@ == old(h)@ + fed_list(v.deep_view()),
{
    let sorted: Vec<String> = order::sort_texts(v);
    let ghost start = h@;
    feed_number(h, sorted.len() as u64);
    let ghost head = h@;
    let mut i: usize = 0;
    proof {
        assert(sorted.deep_view().take(0) =~= seq![]);
        assert(h@ + fed_all(seq![]) =~= h@);
    }
    while i < sorted.len()
        invariant
            i <= sorted@.len(),
            h@ == head + fed_all(sorted.deep_view().take(i as int)),
        decreases sorted.len() - i,
    {
        proof {
            let t = sorted.deep_view().take(i + 1);
            assert(t.drop_last() =~= sorted.deep_view().take(i as int));
            assert(t.last() == sorted@[i as int]@);
        }
        let ghost before = h@;
        feed_text(h, sorted[i].as_str());
        proof {
            let t = sorted.deep_view().take(i as int);
            assert(before + fed_text(sorted@[i as int]@) =~= head + (fed_all(t) + fed_text(
                sorted@[i as int]@,
            )));
        }
        i += 1;
    }
    proof {
        assert(sorted.deep_view().take(i as int) =~= sorted.deep_view());
        assert(h@ =~= start + fed_list(v.deep_view()));
    }
}

fn feed_attributes(h: &mut DefaultHasher, a: &Attributes)
    ensures
        final(h)@ == old(h)@ + fed_pairs(a.pairs()),
{
    let ghost start = h@;
    let mut i: usize = 0;
    let n: usize = a.len();
    proof {
        assert(a.pairs().take(0) =~= seq![]);
        assert(h@ + fed_pairs(seq![]) =~= h@);
    }
    while i < n
        invariant
            i <= n == a.pairs().len(),
            h@ == start + fed_pairs(a.pairs().take(i as int)),
        decreases n - i,
    {
        let ghost before = h@;
        feed_text(h, a.name_at(i));
        feed_text(h, a.value_at(i));
        proof {
            let t = a.pairs().take(i + 1);
            assert(t.drop_last() =~= a.pairs().take(i as int));
            assert(t.last() == a.pairs()[i as int]);
            let p = a.pairs()[i as int];
            assert(before + fed_text(p.0) + fed_text(p.1) =~= start + (fed_pairs(
                a.pairs().take(i as int),
            ) + fed_text(p.0) + fed_text(p.1)));
        }
        i += 1;
    }
    proof {
        assert(a.pairs().take(i as int) =~= a.pairs());
    }
}

impl ToolPolicyContext {
    /// The context of a caller and a tool.
    pub fn from_identity(identity: &RequestIdentity, tool_name: &str) -> (r: ToolPolicyContext)
        ensures
            r.deep_view() == input_of(identity.deep_view(), tool_name@),
    {
        ToolPolicyContext {
            tool_name: tool_name.to_owned(),
            trust_level: identity.trust_level(),
            principal_id: text::copy_opt_str(identity.principal_id()),
            auth_provider: text::copy_opt_str(identity.auth_provider()),
            identity_kind: identity.label().to_owned(),
            roles: text::copy_texts(identity.roles()),
            groups: text::copy_texts(identity.groups()),
            scopes: text::copy_texts(identity.scopes()),
            attributes: identity.attributes(),
        }
    }

    /// The context of a call that a plugin makes on a caller's behalf. A trust
    /// level that is not known counts as the lowest.
    pub fn from_plugin_identity(identity: &PluginIdentity, tool_name: &str) -> (r:
        ToolPolicyContext)
        ensures
            r.deep_view() == (PolicyInput {
                tool_name: tool_name@,
                trust_level: identity::trust_of_text(identity.trust_level@),
                principal_id: identity.subject_id.deep_view(),
                auth_provider: identity.auth_provider.deep_view(),
                identity_kind: identity.kind@,
                roles: identity.roles.deep_view(),
                groups: identity.groups.deep_view(),
                scopes: identity.scopes.deep_view(),
                attributes: identity.attributes.pairs(),
            }),
    {
        proof {
            assert(identity.roles.deep_view() =~= text::texts(identity.roles@));
            assert(identity.groups.deep_view() =~= text::texts(identity.groups@));
            assert(identity.scopes.deep_view() =~= text::texts(identity.scopes@));
        }
        ToolPolicyContext {
            tool_name: tool_name.to_owned(),
            trust_level: trust_of_name(identity.trust_level.as_str()),
            principal_id: text::copy_opt_str(text::opt_as_str(&identity.subject_id)),
            auth_provider: text::copy_opt_str(text::opt_as_str(&identity.auth_provider)),
            identity_kind: identity.kind.clone(),
            roles: text::copy_texts(identity.roles.as_slice()),
            groups: text::copy_texts(identity.groups.as_slice()),
            scopes: text::copy_texts(identity.scopes.as_slice()),
            attributes: identity.attributes.copy(),
        }
    }

    /// The key under which the decision on this context is cached.
    pub fn cache_key(&self) -> (r: String)
        ensures
            r@ == cache_key_text(self.deep_view()),
    {
        let mut h: DefaultHasher = DefaultHasher::new();
        match &self.auth_provider {
            None => feed_number(&mut h, 0),
            Some(p) => {
                feed_number(&mut h, 1);
                feed_text(&mut h, p.as_str());
            },
        }
        proof {
            assert(h@ =~= fed_opt(self.deep_view().auth_provider));
        }
        feed_text(&mut h, self.identity_kind.as_str());
        feed_list(&mut h, &self.roles);
        feed_list(&mut h, &self.groups);
        feed_list(&mut h, &self.scopes);
        feed_attributes(&mut h, &self.attributes);
        let mut s: String = match &self.principal_id {
            Some(p) => p.clone(),
            None => "_anon".to_owned(),
        };
        s.append(":");
        s.append(self.tool_name.as_str());
        s.append(":");
        s.append(self.trust_level_name());
        s.append(":");
        s.append(low_hex_of(h.finish(), 16).as_str());
        s
    }

    /// The name of the trust level.
    pub fn trust_level_name(&self) -> (r: &'static str)
        ensures
            r@ == identity::trust_text(self.trust_level),
    {
        trust_name(self.trust_level)
    }
}

/// The cache key does not depend on the order in which a caller's roles, groups
/// and scopes are listed.
pub proof fn law_cache_key_forgets_claim_order(a: PolicyInput, b: PolicyInput)
    requires
        a.roles.to_multiset() == b.roles.to_multiset(),
        a.groups.to_multiset() == b.groups.to_multiset(),
        a.scopes.to_multiset() == b.scopes.to_multiset(),
        a == (PolicyInput { roles: a.roles, groups: a.groups, scopes: a.scopes, ..b }),
    ensures
        cache_key_text(a) == cache_key_text(b),
{
    order::law_sorting_forgets_order(a.roles, b.roles);
    order::law_sorting_forgets_order(a.groups, b.groups);
    order::law_sorting_forgets_order(a.scopes, b.scopes);
}

/// A refusal of the policy gate.
#[derive(Debug)]
pub struct PolicyDenial {
    pub code: i32,
    pub http_status: u16,
    pub message: String,
    /// The reason for the audit record.
    pub audit_reason: String,
    /// The scopes that the caller lacks, where that is the reason.
    pub insufficient_scope: Option<Vec<String>>,
}

/// What the policy gate decides.
#[derive(Debug)]
pub enum PreDispatchPolicyOutcome {
    Allow,
    Deny(PolicyDenial),
}

/// A refusal over plain values.
pub struct DenialView {
    pub code: int,
    pub http_status: int,
    pub message: Seq<char>,
    pub audit_reason: Seq<char>,
    pub insufficient_scope: Option<Seq<Seq<char>>>,
}

/// A decision over plain values.
pub enum DecisionView {
    Allow,
    Deny(DenialView),
}

impl DeepView for PolicyDenial {
    type V = DenialView;

    open spec fn deep_view(&self) -> DenialView {
        DenialView {
            code: self.code as int,
            http_status: self.http_status as int,
            message: self.message@,
            audit_reason: self.audit_reason@,
            insufficient_scope: self.insufficient_scope.deep_view(),
        }
    }
}

impl DeepView for PreDispatchPolicyOutcome {
    type V = DecisionView;

    open spec fn deep_view(&self) -> DecisionView {
        match self {
            PreDispatchPolicyOutcome::Allow => DecisionView::Allow,
            PreDispatchPolicyOutcome::Deny(d) => DecisionView::Deny(d.deep_view()),
        }
    }
}

impl PolicyDenial {
    /// A refusal that denotes the same.
    pub fn copy(&self) -> (r: PolicyDenial)
        ensures
            r.deep_view() == self.deep_view(),
    {
        PolicyDenial {
            code: self.code,
            http_status: self.http_status,
            message: self.message.clone(),
            audit_reason: self.audit_reason.clone(),
            insufficient_scope: match &self.insufficient_scope {
                Some(v) => {
                    proof {
                        assert(v.deep_view() =~= text::texts(v@));
                    }
                    Some(text::copy_texts(v.as_slice()))
                },
                None => None,
            },
        }
    }
}

impl PreDispatchPolicyOutcome {
    /// A decision that denotes the same.
    pub fn copy(&self) -> (r: PreDispatchPolicyOutcome)
        ensures
            r.deep_view() == self.deep_view(),
    {
        match self {
            PreDispatchPolicyOutcome::Allow => PreDispatchPolicyOutcome::Allow,
            PreDispatchPolicyOutcome::Deny(d) => PreDispatchPolicyOutcome::Deny(d.copy()),
        }
    }
}

/// A condition in CEL, ready to run.
#[derive(Debug)]
pub struct CelToolAccessPolicy {
    source: String,
    program: cel::Program,
}

/// Why a configuration was refused.
#[derive(Debug)]
pub struct PolicyConfigError {
    /// What failed.
    pub message: String,
    /// The compiler's text.
    pub cause: String,
}

/// The message for a condition that does not compile.
pub open spec fn compile_error_text(path: Seq<char>, source: Seq<char>) -> Seq<char> {
    "failed to compile "@ + path + ": "@ + source
}

/// What a run of a condition says, given how the run came out.
pub open spec fn cel_verdict_view(source: Seq<char>, outcome: CelOutcome) -> Result<
    bool,
    Seq<char>,
> {
    match outcome {
        CelOutcome::Bool(b) => Ok(b),
        CelOutcome::Other(t) => Err("CEL policy must evaluate to a boolean, got "@ + t@),
        CelOutcome::Failed(_) => Err("failed to execute CEL policy: "@ + source),
    }
}

/// A verdict over plain values.
pub open spec fn verdict_view(r: Result<bool, String>) -> Result<bool, Seq<char>> {
    match r {
        Ok(b) => Ok(b),
        Err(e) => Err(e@),
    }
}

/// Whether a condition can say something of a caller: what its source and the
/// caller allow a run to come to says so.
pub open spec fn may_say(
    source: Seq<char>,
    input: PolicyInput,
    verdict: Result<bool, Seq<char>>,
) -> bool {
    exists|outcome: CelOutcome|
        outside::cel_may_give(
            source,
            condition_variables(input),
            #[trigger] outside::outcome_view(outcome),
        ) && verdict == cel_verdict_view(source, outcome)
}

/// What a run of a condition says, given how the run came out.
pub fn cel_verdict(source: &str, outcome: CelOutcome) -> (r: Result<bool, String>)
    ensures
        verdict_view(r) == cel_verdict_view(source@, outcome),
{
    match outcome {
        CelOutcome::Bool(b) => Ok(b),
        CelOutcome::Other(t) => {
            let mut s: String = "CEL policy must evaluate to a boolean, got ".to_owned();
            s.append(t.as_str());
            Err(s)
        },
        CelOutcome::Failed(_) => {
            let mut s: String = "failed to execute CEL policy: ".to_owned();
            s.append(source);
            Err(s)
        },
    }
}

/// A text, or null where there is none.
pub open spec fn text_or_null(o: Option<Seq<char>>) -> json::Tree {
    match o {
        Some(s) => json::Tree::Str(s),
        None => json::Tree::Null,
    }
}

/// The map that pairs of texts make, later ones overriding earlier ones.
pub open spec fn pair_map(s: Seq<(Seq<char>, Seq<char>)>) -> Map<Seq<char>, json::Tree>
    decreases s.len(),
{
    if s.len() == 0 {
        Map::empty()
    } else {
        pair_map(s.drop_last()).insert(s.last().0, json::Tree::Str(s.last().1))
    }
}

/// The `identity` variable of a condition.
pub open spec fn identity_map(input: PolicyInput) -> json::Tree {
    json::object_of(
        seq![
            ("kind"@, json::Tree::Str(input.identity_kind)),
            ("trust_level"@, json::Tree::Str(identity::trust_text(input.trust_level))),
            ("subject_id"@, text_or_null(input.principal_id)),
            ("auth_provider"@, text_or_null(input.auth_provider)),
            ("roles"@, json::Tree::Array(crate::idempotency::text_trees(input.roles))),
            ("groups"@, json::Tree::Array(crate::idempotency::text_trees(input.groups))),
            ("scopes"@, json::Tree::Array(crate::idempotency::text_trees(input.scopes))),
            ("attributes"@, json::Tree::Object(pair_map(input.attributes))),
        ],
    )
}

/// The variables that a condition can read.
pub open spec fn condition_variables(input: PolicyInput) -> json::Tree {
    json::object_of(
        seq![
            ("tool_name"@, json::Tree::Str(input.tool_name)),
            ("trust_level"@, json::Tree::Str(identity::trust_text(input.trust_level))),
            ("principal_id"@, text_or_null(input.principal_id)),
            ("auth_provider"@, text_or_null(input.auth_provider)),
            ("identity_kind"@, json::Tree::Str(input.identity_kind)),
            ("identity"@, identity_map(input)),
        ],
    )
}

fn opt_value(o: &Option<String>) -> (r: Json)
    ensures
        r.tree() == text_or_null(o.deep_view()),
{
    match o {
        Some(s) => Json::text(s.as_str()),
        None => Json::Null,
    }
}

fn list_value(v: &Vec<String>) -> (r: Json)
    ensures
        r.tree() == json::Tree::Array(crate::idempotency::text_trees(v.deep_view())),
{
    let mut out: Vec<Json> = Vec::new();
    let mut i: usize = 0;
    while i < v.len()
        invariant
            i <= v@.len(),
            out@.len() == i,
            forall|j: int| 0 <= j < i ==> (#[trigger] out@[j]).tree() == json::Tree::Str(v@[j]@),
        decreases v.len() - i,
    {
        out.push(Json::text(v[i].as_str()));
        i += 1;
    }
    proof {
        json::lemma_elements(out@);
        assert(json::elements(out@) =~= crate::idempotency::text_trees(v.deep_view()));
    }
    Json::Array(out)
}

fn attributes_value(a: &Attributes) -> (r: Json)
    ensures
        r.tree() == json::Tree::Object(pair_map(a.pairs())),
{
    let mut out: Json = Json::object();
    let mut i: usize = 0;
    let n: usize = a.len();
    proof {
        assert(a.pairs().take(0) =~= seq![]);
    }
    while i < n
        invariant
            i <= n == a.pairs().len(),
            out is Object,
            out.tree() == json::Tree::Object(pair_map(a.pairs().take(i as int))),
        decreases n - i,
    {
        proof {
            let t = a.pairs().take(i + 1);
            assert(t.drop_last() =~= a.pairs().take(i as int));
            assert(t.last() == a.pairs()[i as int]);
        }
        out = out.with(a.name_at(i), Json::text(a.value_at(i)));
        i += 1;
    }
    proof {
        assert(a.pairs().take(i as int) =~= a.pairs());
    }
    out
}

/// The `identity` variable of a condition.
pub fn build_policy_identity_map(ctx: &ToolPolicyContext) -> (r: Json)
    ensures
        r.tree() == identity_map(ctx.deep_view()),
{
    proof {
        reveal_with_fuel(json::map_of, 9);
    }
    Json::object().with("kind", Json::text(ctx.identity_kind.as_str())).with(
        "trust_level",
        Json::text(ctx.trust_level_name()),
    ).with("subject_id", opt_value(&ctx.principal_id)).with(
        "auth_provider",
        opt_value(&ctx.auth_provider),
    ).with("roles", list_value(&ctx.roles)).with("groups", list_value(&ctx.groups)).with(
        "scopes",
        list_value(&ctx.scopes),
    ).with("attributes", attributes_value(&ctx.attributes))
}

/// The variables that a condition can read.
pub fn build_condition_variables(ctx: &ToolPolicyContext) -> (r: Json)
    ensures
        r.tree() == condition_variables(ctx.deep_view()),
{
    proof {
        reveal_with_fuel(json::map_of, 7);
    }
    Json::object().with("tool_name", Json::text(ctx.tool_name.as_str())).with(
        "trust_level",
        Json::text(ctx.trust_level_name()),
    ).with("principal_id", opt_value(&ctx.principal_id)).with(
        "auth_provider",
        opt_value(&ctx.auth_provider),
    ).with("identity_kind", Json::text(ctx.identity_kind.as_str())).with(
        "identity",
        build_policy_identity_map(ctx),
    )
}

impl CelToolAccessPolicy {
    #[verifier::type_invariant]
    spec fn compiled(self) -> bool {
        outside::cel_source(self.program) == self.source@
    }

    /// The source text.
    pub closed spec fn source(&self) -> Seq<char> {
        self.source@
    }

    /// Makes a condition ready to run. `config_path` says where it stands.
    pub fn compile(source: String, config_path: &str) -> (r: Result<
        CelToolAccessPolicy,
        PolicyConfigError,
    >)
        ensures
            match r {
                Ok(p) => outside::cel_compiles(source@) && p.source() == source@,
                Err(e) => !outside::cel_compiles(source@) && e.message@ == compile_error_text(
                    config_path@,
                    source@,
                ),
            },
    {
        match outside::cel_compile(source.as_str()) {
            Ok(program) => Ok(CelToolAccessPolicy { source, program }),
            Err(cause) => {
                let mut m: String = "failed to compile ".to_owned();
                m.append(config_path);
                m.append(": ");
                m.append(source.as_str());
                Err(PolicyConfigError { message: m, cause })
            },
        }
    }

    /// Runs the condition on a caller. How a run comes out rests on the CEL
    /// interpreter; what is made of it is [`cel_verdict`].
    pub fn evaluate(&self, policy_context: &ToolPolicyContext) -> (r: Result<bool, String>)
        ensures
            may_say(self.source(), policy_context.deep_view(), verdict_view(r)),
    {
        proof {
            use_type_invariant(self);
        }
        let variables: Json = build_condition_variables(policy_context);
        let outcome: CelOutcome = outside::cel_execute(&self.program, &variables);
        let ghost seen = outcome;
        let r: Result<bool, String> = cel_verdict(self.source.as_str(), outcome);
        proof {
            assert(outside::cel_may_give(
                self.source(),
                condition_variables(policy_context.deep_view()),
                outside::outcome_view(seen),
            ));
        }
        r
    }
}

/// The rule of one tool, ready to apply.
#[derive(Debug)]
pub struct ToolRulePolicy {
    pub tool_name: String,
    pub minimum_trust: RequestTrustLevel,
    pub cel_allow_if: Option<CelToolAccessPolicy>,
    pub required_scopes: Vec<String>,
}

/// The required texts that are not held, in the order in which they are
/// required.
pub open spec fn missing(required: Seq<Seq<char>>, held: Seq<Seq<char>>) -> Seq<Seq<char>>
    decreases required.len(),
{
    if required.len() == 0 {
        seq![]
    } else {
        let rest = missing(required.drop_last(), held);
        if held.contains(required.last()) {
            rest
        } else {
            rest.push(required.last())
        }
    }
}

/// Where the condition of a tool's rule stands.
pub open spec fn rule_path(tool_name: Seq<char>) -> Seq<char> {
    "policy.tool_access.rules["@ + tool_name + "].cel_allow_if"@
}

/// Why a rule is refused, where it is.
pub open spec fn rule_error(rule: ToolTrustRule) -> Option<Seq<char>> {
    match rule.cel_allow_if {
        Some(source) => if outside::cel_compiles(source@) {
            None
        } else {
            Some(compile_error_text(rule_path(rule.tool_name@), source@))
        },
        None => None,
    }
}

/// Whether a compiled rule says what a configured rule says.
pub open spec fn same_rule(policy: ToolRulePolicy, rule: ToolTrustRule) -> bool {
    &&& policy.tool_name@ == rule.tool_name@
    &&& policy.minimum_trust == rule.minimum_trust
    &&& policy.required_scopes.deep_view() == rule.required_scopes.deep_view()
    &&& match (policy.cel_allow_if, rule.cel_allow_if) {
        (Some(p), Some(s)) => p.source() == s@,
        (None, None) => true,
        _ => false,
    }
}

impl ToolRulePolicy {
    /// Makes a rule ready to apply.
    pub fn from_rule(rule: ToolTrustRule) -> (r: Result<ToolRulePolicy, PolicyConfigError>)
        ensures
            match r {
                Ok(p) => rule_error(rule) is None && same_rule(p, rule),
                Err(e) => rule_error(rule) == Some(e.message@),
            },
    {
        let cel_allow_if: Option<CelToolAccessPolicy> = match rule.cel_allow_if {
            None => None,
            Some(source) => {
                let mut path: String = "policy.tool_access.rules[".to_owned();
                path.append(rule.tool_name.as_str());
                path.append("].cel_allow_if");
                match CelToolAccessPolicy::compile(source, path.as_str()) {
                    Ok(p) => Some(p),
                    Err(e) => {
                        return Err(e);
                    },
                }
            },
        };
        Ok(
            ToolRulePolicy {
                tool_name: rule.tool_name,
                minimum_trust: rule.minimum_trust,
                cel_allow_if,
                required_scopes: rule.required_scopes,
            },
        )
    }

    /// The required scopes that the caller does not hold.
    pub fn missing_scopes(&self, ctx: &ToolPolicyContext) -> (r: Vec<String>)
        ensures
            r.deep_view() == missing(self.required_scopes.deep_view(), ctx.scopes.deep_view()),
    {
        let mut out: Vec<String> = Vec::new();
        let mut i: usize = 0;
        let ghost req = self.required_scopes.deep_view();
        let ghost held = ctx.scopes.deep_view();
        proof {
            assert(req.take(0) =~= seq![]);
            assert(out.deep_view() =~= seq![]);
        }
        while i < self.required_scopes.len()
            invariant
                i <= self.required_scopes@.len(),
                req == self.required_scopes.deep_view(),
                held == ctx.scopes.deep_view(),
                out.deep_view() == missing(req.take(i as int), held),
            decreases self.required_scopes.len() - i,
        {
            proof {
                assert(req.take(i + 1).drop_last() =~= req.take(i as int));
                assert(req.take(i + 1).last() == self.required_scopes@[i as int]@);
            }
            if !text::list_contains(&ctx.scopes, self.required_scopes[i].as_str()) {
                let ghost before = out.deep_view();
                let item: String = self.required_scopes[i].clone();
                out.push(item);
                proof {
                    assert(out.deep_view() =~= before.push(item@));
                }
            }
            i += 1;
        }
        proof {
            assert(req.take(i as int) =~= req);
        }
        out
    }
}

/// A caller lacks nothing exactly where it holds every scope that is required.
pub proof fn law_nothing_missing_when_all_held(required: Seq<Seq<char>>, held: Seq<Seq<char>>)
    ensures
        missing(required, held).len() == 0 <==> forall|i: int|
            0 <= i < required.len() ==> held.contains(#[trigger] required[i]),
    decreases required.len(),
{
    if required.len() > 0 {
        law_nothing_missing_when_all_held(required.drop_last(), held);
        let init = required.drop_last();
        if missing(required, held).len() == 0 {
            assert forall|i: int| 0 <= i < required.len() implies held.contains(
                #[trigger] required[i],
            ) by {
                if i < required.len() - 1 {
                    assert(init[i] == required[i]);
                }
            }
        }
        if forall|i: int| 0 <= i < required.len() ==> held.contains(#[trigger] required[i]) {
            assert forall|i: int| 0 <= i < init.len() implies held.contains(#[trigger] init[i]) by {
                assert(init[i] == required[i]);
            }
            assert(held.contains(required[required.len() - 1]));
        }
    }
}

/// What policies decide on is what the caller proves, each part under its own
/// name: nothing of one part stands in for another.
pub proof fn law_policies_see_the_caller_as_it_is(caller: RequestIdentity, tool_name: Seq<char>)
    ensures
        ({
            let input = input_of(caller.deep_view(), tool_name);
            &&& input.tool_name == tool_name
            &&& match caller {
                RequestIdentity::Verified {
                    subject_id,
                    auth_provider,
                    roles,
                    groups,
                    scopes,
                    attributes,
                    ..
                } => {
                    &&& input.trust_level is Verified
                    &&& input.identity_kind == "verified"@
                    &&& input.principal_id == Some(subject_id@)
                    &&& input.auth_provider == Some(auth_provider@)
                    &&& input.roles == roles.deep_view()
                    &&& input.groups == groups.deep_view()
                    &&& input.scopes == scopes.deep_view()
                    &&& input.attributes == attributes.pairs()
                },
                RequestIdentity::HttpHeader { subject_id, .. } => {
                    &&& input.trust_level is HeaderAsserted
                    &&& input.identity_kind == "http_header"@
                    &&& input.principal_id == Some(subject_id@)
                    &&& input.auth_provider is None
                    &&& input.roles.len() == 0 && input.groups.len() == 0 && input.scopes.len() == 0
                        && input.attributes.len() == 0
                },
                RequestIdentity::Anonymous { .. } => {
                    &&& input.trust_level is Unauthenticated
                    &&& input.identity_kind == "anonymous"@
                    &&& input.principal_id is None
                    &&& input.auth_provider is None
                    &&& input.roles.len() == 0 && input.groups.len() == 0 && input.scopes.len() == 0
                        && input.attributes.len() == 0
                },
            }
        }),
{
}

/// What is missing is what is required and not held, and only that.
pub proof fn law_missing_is_required_and_not_held(
    required: Seq<Seq<char>>,
    held: Seq<Seq<char>>,
    scope: Seq<char>,
)
    ensures
        missing(required, held).contains(scope) <==> required.contains(scope) && !held.contains(
            scope,
        ),
        missing(required, held).len() <= required.len(),
    decreases required.len(),
{
    if required.len() > 0 {
        let init = required.drop_last();
        let last = required.last();
        law_missing_is_required_and_not_held(init, held, scope);
        let rest = missing(init, held);
        let all = missing(required, held);
        if required.contains(scope) {
            let i = choose|i: int| 0 <= i < required.len() && required[i] == scope;
            if i < init.len() {
                assert(init[i] == scope);
            }
        }
        if init.contains(scope) {
            let i = choose|i: int| 0 <= i < init.len() && init[i] == scope;
            assert(required[i] == scope);
        }
        if all.contains(scope) {
            let i = choose|i: int| 0 <= i < all.len() && all[i] == scope;
            if i < rest.len() {
                assert(rest[i] == scope);
            } else {
                assert(required[required.len() - 1] == scope);
            }
        }
        if rest.contains(scope) {
            let i = choose|i: int| 0 <= i < rest.len() && rest[i] == scope;
            assert(all[i] == scope);
        }
        if last == scope && !held.contains(last) {
            assert(all[all.len() - 1] == scope);
            assert(required[required.len() - 1] == scope);
        }
    }
}

/// A condition says yes exactly where its run comes to true; a run that comes to
/// anything but a truth value, or fails, is an error.
pub proof fn law_only_true_is_a_yes(source: Seq<char>, outcome: CelOutcome)
    ensures
        cel_verdict_view(source, outcome) == Ok::<bool, Seq<char>>(true) <==> outcome
            == CelOutcome::Bool(true),
        cel_verdict_view(source, outcome) == Ok::<bool, Seq<char>>(false) <==> outcome
            == CelOutcome::Bool(false),
        cel_verdict_view(source, outcome) is Err <==> outcome is Other || outcome is Failed,
{
}

/// A condition reads each part of the caller under its own name.
pub proof fn law_conditions_read_the_caller(input: PolicyInput)
    ensures
        ({
            let top = condition_variables(input);
            let own = identity_map(input);
            &&& json::tree_get(top, "tool_name"@) == Some(json::Tree::Str(input.tool_name))
            &&& json::tree_get(top, "trust_level"@) == Some(
                json::Tree::Str(identity::trust_text(input.trust_level)),
            )
            &&& json::tree_get(top, "principal_id"@) == Some(
                match input.principal_id {
                    Some(p) => json::Tree::Str(p),
                    None => json::Tree::Null,
                },
            )
            &&& json::tree_get(top, "auth_provider"@) == Some(
                match input.auth_provider {
                    Some(p) => json::Tree::Str(p),
                    None => json::Tree::Null,
                },
            )
            &&& json::tree_get(top, "identity_kind"@) == Some(json::Tree::Str(input.identity_kind))
            &&& json::tree_get(top, "identity"@) == Some(own)
            &&& json::tree_get(own, "kind"@) == Some(json::Tree::Str(input.identity_kind))
            &&& json::tree_get(own, "trust_level"@) == Some(
                json::Tree::Str(identity::trust_text(input.trust_level)),
            )
            &&& json::tree_get(own, "subject_id"@) == Some(
                match input.principal_id {
                    Some(p) => json::Tree::Str(p),
                    None => json::Tree::Null,
                },
            )
            &&& json::tree_get(own, "auth_provider"@) == Some(
                match input.auth_provider {
                    Some(p) => json::Tree::Str(p),
                    None => json::Tree::Null,
                },
            )
            &&& json::tree_get(own, "roles"@) == Some(
                json::Tree::Array(
                    Seq::new(input.roles.len(), |i: int| json::Tree::Str(input.roles[i])),
                ),
            )
            &&& json::tree_get(own, "groups"@) == Some(
                json::Tree::Array(
                    Seq::new(input.groups.len(), |i: int| json::Tree::Str(input.groups[i])),
                ),
            )
            &&& json::tree_get(own, "scopes"@) == Some(
                json::Tree::Array(
                    Seq::new(input.scopes.len(), |i: int| json::Tree::Str(input.scopes[i])),
                ),
            )
        }),
{
    reveal_with_fuel(json::map_of, 9);
    lemma_condition_names();
    assert(crate::idempotency::text_trees(input.roles) =~= Seq::new(
        input.roles.len(),
        |i: int| json::Tree::Str(input.roles[i]),
    ));
    assert(crate::idempotency::text_trees(input.groups) =~= Seq::new(
        input.groups.len(),
        |i: int| json::Tree::Str(input.groups[i]),
    ));
    assert(crate::idempotency::text_trees(input.scopes) =~= Seq::new(
        input.scopes.len(),
        |i: int| json::Tree::Str(input.scopes[i]),
    ));
}

proof fn lemma_condition_names()
    ensures
        "tool_name"@[0] == 't' && "tool_name"@.len() == 9,
        "trust_level"@.len() == 11 && "trust_level"@[0] == 't',
        "principal_id"@.len() == 12,
        "auth_provider"@.len() == 13 && "auth_provider"@[0] == 'a',
        "identity_kind"@.len() == 13 && "identity_kind"@[0] == 'i',
        "identity"@.len() == 8,
        "kind"@.len() == 4,
        "subject_id"@.len() == 10 && "subject_id"@[0] == 's',
        "roles"@.len() == 5,
        "groups"@.len() == 6 && "groups"@[0] == 'g',
        "scopes"@.len() == 6 && "scopes"@[0] == 's',
        "attributes"@.len() == 10 && "attributes"@[0] == 'a',
{
    reveal_strlit("tool_name");
    reveal_strlit("trust_level");
    reveal_strlit("principal_id");
    reveal_strlit("auth_provider");
    reveal_strlit("identity_kind");
    reveal_strlit("identity");
    reveal_strlit("kind");
    reveal_strlit("subject_id");
    reveal_strlit("roles");
    reveal_strlit("groups");
    reveal_strlit("scopes");
    reveal_strlit("attributes");
}

/// A condition reads each attribute of the caller under its name.
pub proof fn law_conditions_read_attributes(s: Seq<(Seq<char>, Seq<char>)>, i: int)
    requires
        0 <= i < s.len(),
        forall|j: int| i < j < s.len() ==> (#[trigger] s[j]).0 != s[i].0,
    ensures
        pair_map(s).contains_key(s[i].0),
        pair_map(s)[s[i].0] == json::Tree::Str(s[i].1),
    decreases s.len(),
{
    if i < s.len() - 1 {
        let init = s.drop_last();
        assert(init[i] == s[i]);
        assert forall|j: int| i < j < init.len() implies (#[trigger] init[j]).0 != init[i].0 by {
            assert(init[j] == s[j]);
        }
        law_conditions_read_attributes(init, i);
        assert(s.last() == s[s.len() - 1]);
    }
}

/// A caller that a plugin describes is judged by what the plugin says of it, each part
/// under its own name; a trust level that is not known counts as none.
pub proof fn law_policies_see_what_plugins_say(
    identity: PluginIdentity,
    tool_name: &str,
    r: ToolPolicyContext,
)
    requires
        call_ensures(ToolPolicyContext::from_plugin_identity, (&identity, tool_name), r),
    ensures
        r.tool_name@ == tool_name@,
        r.principal_id.deep_view() == identity.subject_id.deep_view(),
        r.auth_provider.deep_view() == identity.auth_provider.deep_view(),
        r.identity_kind@ == identity.kind@,
        r.roles.deep_view() == identity.roles.deep_view(),
        r.groups.deep_view() == identity.groups.deep_view(),
        r.scopes.deep_view() == identity.scopes.deep_view(),
        r.attributes.pairs() == identity.attributes.pairs(),
        r.trust_level is Verified <==> identity.trust_level@ == "verified"@,
        r.trust_level is HeaderAsserted <==> identity.trust_level@ == "header_asserted"@,
{
    reveal_strlit("verified");
    reveal_strlit("header_asserted");
    assert("verified"@.len() != "header_asserted"@.len());
    assert(r.deep_view().tool_name == tool_name@);
}

/// A caller is described to the policies by its identity alone, part by part.
pub proof fn law_contexts_hold_the_caller(
    caller: RequestIdentity,
    tool_name: &str,
    r: ToolPolicyContext,
)
    requires
        call_ensures(ToolPolicyContext::from_identity, (&caller, tool_name), r),
    ensures
        r.tool_name@ == tool_name@,
        match caller {
            RequestIdentity::Verified {
                subject_id,
                auth_provider,
                roles,
                groups,
                scopes,
                attributes,
                ..
            } => {
                &&& r.trust_level is Verified
                &&& r.principal_id.deep_view() == Some(subject_id@)
                &&& r.auth_provider.deep_view() == Some(auth_provider@)
                &&& r.roles.deep_view() == roles.deep_view()
                &&& r.groups.deep_view() == groups.deep_view()
                &&& r.scopes.deep_view() == scopes.deep_view()
                &&& r.attributes.pairs() == attributes.pairs()
            },
            RequestIdentity::HttpHeader { subject_id, .. } => {
                &&& r.trust_level is HeaderAsserted
                &&& r.principal_id.deep_view() == Some(subject_id@)
                &&& r.roles.deep_view().len() == 0
                &&& r.groups.deep_view().len() == 0
                &&& r.scopes.deep_view().len() == 0
            },
            RequestIdentity::Anonymous { .. } => {
                &&& r.trust_level is Unauthenticated
                &&& r.principal_id is None
                &&& r.roles.deep_view().len() == 0
                &&& r.groups.deep_view().len() == 0
                &&& r.scopes.deep_view().len() == 0
            },
        },
{
    law_policies_see_the_caller_as_it_is(caller, tool_name@);
    assert(r.deep_view().tool_name == tool_name@);
    assert(r.deep_view().trust_level == r.trust_level);
}

/// A rule is taken as it is configured, or refused where its condition cannot be read;
/// a rule without a condition is never refused.
pub proof fn law_rules_are_taken_as_configured(
    rule: ToolTrustRule,
    r: Result<ToolRulePolicy, PolicyConfigError>,
)
    requires
        call_ensures(ToolRulePolicy::from_rule, (rule,), r),
    ensures
        rule.cel_allow_if is None ==> r is Ok,
        r is Ok <==> (rule.cel_allow_if matches Some(source) ==> outside::cel_compiles(source@)),
        r matches Ok(p) ==> {
            &&& p.tool_name@ == rule.tool_name@
            &&& p.minimum_trust == rule.minimum_trust
            &&& p.required_scopes.deep_view() == rule.required_scopes.deep_view()
            &&& p.cel_allow_if is Some <==> rule.cel_allow_if is Some
            &&& p.cel_allow_if matches Some(c) ==> c.source() == rule.cel_allow_if->0@
        },
{
}

/// The scopes that a caller lacks are those that the rule requires and the caller does
/// not hold, whatever else the caller is.
pub proof fn law_lacking_scopes_are_required(
    rule: ToolRulePolicy,
    ctx: ToolPolicyContext,
    r: Vec<String>,
    scope: Seq<char>,
)
    requires
        call_ensures(ToolRulePolicy::missing_scopes, (&rule, &ctx), r),
    ensures
        r.deep_view().contains(scope) <==> rule.required_scopes.deep_view().contains(scope)
            && !ctx.scopes.deep_view().contains(scope),
{
    law_missing_is_required_and_not_held(
        rule.required_scopes.deep_view(),
        ctx.scopes.deep_view(),
        scope,
    );
}

/// A condition is kept as it is written, and one that cannot be read is refused with
/// where it stands and what it says.
pub proof fn law_conditions_are_kept_as_written(
    source: String,
    config_path: &str,
    r: Result<CelToolAccessPolicy, PolicyConfigError>,
)
    requires
        call_ensures(CelToolAccessPolicy::compile, (source, config_path), r),
    ensures
        r is Ok <==> outside::cel_compiles(source@),
        r matches Ok(p) ==> p.source() == source@,
        r matches Err(e) ==> text::stands_in(e.message@, config_path@) && text::ends_with(
            e.message@,
            source@,
        ),
{
    let a = "failed to compile "@;
    let b = ": "@;
    text::lemma_stands(a, config_path@, b + source@);
    assert(a + config_path@ + (b + source@) =~= a + config_path@ + b + source@);
    text::lemma_stands(a + config_path@ + b, source@, seq![]);
}

/// A condition says of a caller what a run with that caller's own parts comes to, and
/// nothing else.
pub proof fn law_verdicts_are_about_the_caller(
    p: CelToolAccessPolicy,
    ctx: ToolPolicyContext,
    r: Result<bool, String>,
)
    requires
        call_ensures(CelToolAccessPolicy::evaluate, (&p, &ctx), r),
    ensures
        r matches Ok(b) ==> outside::cel_may_give(
            p.source(),
            condition_variables(ctx.deep_view()),
            Ok(Ok(b)),
        ),
{
}

} // verus!
