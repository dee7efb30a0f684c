//! Authorization of calls other than tool calls, and the answers to calls that
//! are refused.
use vstd::prelude::*;
use vstd::string::*;

use crate::clock::Timestamp;
use crate::context;
use crate::context::{
    resumer_owns_pipeline, RequestContext, SessionAccessError, SessionSlot, SessionSnapshot,
};
use crate::identity;
use crate::identity::{trust_of_name, Attributes, RequestTrustLevel};
use crate::json;
use crate::json::Json;
use crate::policy;
use crate::outside;
use crate::policy::{
    PluginIdentity, PolicyDenial, PreDispatchPolicyOutcome, ToolPolicyContext,
};
use crate::policy_gate;
use crate::policy_gate::PreDispatchPolicyGate;
use crate::protocol;
use crate::protocol::{protocol_http_error, ProtocolHttpResponse, SESSION_ID_HEADER};
use crate::text;

verus! {

/// What is told about a failure where debugging is switched on.
#[derive(Debug)]
pub struct DebugInfo {
    pub enabled: bool,
    /// The gateway's own id of the request.
    pub request_id: String,
    pub now: Timestamp,
}

/// The detail of a failure, where debugging is switched on.
pub open spec fn debug_tree(info: DebugInfo, hint: Seq<char>) -> Option<json::Tree> {
    if info.enabled {
        Some(
            json::object_of(
                seq![
                    ("requestId"@, json::Tree::Str(info.request_id@)),
                    ("timestamp"@, json::Tree::Str(info.now.rfc3339_view())),
                    ("hint"@, json::Tree::Str(hint)),
                ],
            ),
        )
    } else {
        None
    }
}

impl DebugInfo {
    /// What may be told about a request at the present time.
    pub fn for_request(enabled: bool, request_context: &RequestContext) -> (r: DebugInfo)
        ensures
            r.enabled == enabled,
            r.request_id@ == request_context.request_id.text(),
    {
        DebugInfo {
            enabled,
            request_id: request_context.request_id.as_str().to_owned(),
            now: Timestamp::now(),
        }
    }

    /// The detail of a failure, where debugging is switched on.
    pub fn debug_error_data(&self, hint: &str) -> (r: Option<Json>)
        ensures
            r.deep_view() == debug_tree(*self, hint@),
    {
        if !self.enabled {
            return None;
        }
        proof {
            reveal_with_fuel(json::map_of, 4);
        }
        Some(
            Json::object().with("requestId", Json::text(self.request_id.as_str())).with(
                "timestamp",
                Json::Str(self.now.to_rfc3339()),
            ).with("hint", Json::text(hint)),
        )
    }
}

/// Without debugging, a failure tells nothing of itself.
pub proof fn law_no_detail_without_debugging(info: DebugInfo, hint: Seq<char>)
    requires
        !info.enabled,
    ensures
        debug_tree(info, hint) is None,
{
}

/// The field of an error that names the scopes that a caller lacks.
pub const INSUFFICIENT_SCOPE_DATA_KEY: &'static str = "insufficient_scope";

/// The detail of a refusal: what debugging tells, and the scopes that the caller
/// lacks, which are told with or without debugging.
pub open spec fn denial_data(
    denial: policy::DenialView,
    info: DebugInfo,
    hint: Seq<char>,
) -> Option<json::Tree> {
    let base = match debug_tree(info, hint) {
        Some(json::Tree::Object(m)) => m,
        _ => Map::empty(),
    };
    match denial.insufficient_scope {
        Some(scopes) => Some(
            json::Tree::Object(
                base.insert(
                    INSUFFICIENT_SCOPE_DATA_KEY@,
                    json::Tree::Str(text::joined(scopes, " "@)),
                ),
            ),
        ),
        None => debug_tree(info, hint),
    }
}

/// The detail of a refusal.
pub fn policy_denial_error_data(denial: &PolicyDenial, info: &DebugInfo, hint: &str) -> (r: Option<
    Json,
>)
    ensures
        r.deep_view() == denial_data(denial.deep_view(), *info, hint@),
{
    let base: Option<Json> = info.debug_error_data(hint);
    match &denial.insufficient_scope {
        None => base,
        Some(scopes) => {
            let object: Json = match base {
                Some(j) => {
                    if j.is_object() {
                        j
                    } else {
                        Json::object()
                    }
                },
                None => Json::object(),
            };
            Some(
                object.with(
                    INSUFFICIENT_SCOPE_DATA_KEY,
                    Json::Str(text::join(scopes, " ")),
                ),
            )
        },
    }
}

/// The answer to a request whose session cannot be used.
pub open spec fn session_error_reply(error: SessionAccessError, id: Option<json::Tree>) ->
    protocol::ReplyView {
    match error {
        SessionAccessError::MissingSessionId => protocol::error_reply(
            400,
            id,
            -32600,
            "missing "@ + SESSION_ID_HEADER@ + " header"@,
            None,
        ),
        SessionAccessError::UnknownSession => protocol::error_reply(
            404,
            id,
            -32001,
            "unknown or expired MCP session"@,
            None,
        ),
        SessionAccessError::NotInitialized => protocol::error_reply(
            400,
            id,
            -32600,
            "session has not completed notifications/initialized"@,
            None,
        ),
    }
}

/// The answer to a request whose session cannot be used.
pub fn map_session_error_to_protocol_response(error: SessionAccessError, id: Option<Json>) -> (r:
    ProtocolHttpResponse)
    ensures
        r.deep_view() == session_error_reply(error, id.deep_view()),
{
    match error {
        SessionAccessError::MissingSessionId => {
            let mut s: String = "missing ".to_owned();
            s.append(SESSION_ID_HEADER);
            s.append(" header");
            protocol_http_error(400, id, -32600, s, None)
        },
        SessionAccessError::UnknownSession => protocol_http_error(
            404,
            id,
            -32001,
            "unknown or expired MCP session".to_owned(),
            None,
        ),
        SessionAccessError::NotInitialized => protocol_http_error(
            400,
            id,
            -32600,
            "session has not completed notifications/initialized".to_owned(),
            None,
        ),
    }
}

/// The name of an error for the error counter.
pub fn session_error_kind(error: SessionAccessError) -> (r: &'static str)
    ensures
        r@ == (match error {
            SessionAccessError::MissingSessionId => "session_missing_id"@,
            SessionAccessError::UnknownSession => "session_not_found"@,
            SessionAccessError::NotInitialized => "session_not_initialized"@,
        }),
{
    match error {
        SessionAccessError::MissingSessionId => "session_missing_id",
        SessionAccessError::UnknownSession => "session_not_found",
        SessionAccessError::NotInitialized => "session_not_initialized",
    }
}

/// The capabilities of the client: those that the request names, or else those
/// of its session, or else none.
pub open spec fn capabilities_of(
    context: RequestContext,
    session: Result<context::SessionView, SessionAccessError>,
) -> json::Tree {
    match context.modern_request_capabilities {
        Some(c) => c.tree(),
        None => match session {
            Ok(s) => s.client_capabilities,
            Err(_) => json::Tree::Object(Map::empty()),
        },
    }
}

/// Whether this is a slot after the capabilities of a client were asked for: where
/// the request does not name them, its session is looked up.
pub open spec fn capabilities_asked(
    before: SessionSlot,
    after: SessionSlot,
    context: RequestContext,
    loaded: Result<SessionSnapshot, SessionAccessError>,
) -> bool {
    if context.modern_request_capabilities is Some {
        after.known() == before.known()
    } else {
        after.looked_up(before, loaded)
    }
}

/// The capabilities of the client. `loaded` is what the session store answers; the
/// session need not be operational.
pub fn client_capabilities_for_context(
    context: &RequestContext,
    slot: &mut SessionSlot,
    loaded: Result<SessionSnapshot, SessionAccessError>,
) -> (r: Json)
    ensures
        capabilities_asked(*old(slot), *final(slot), *context, loaded),
        r.tree() == capabilities_of(*context, context::effective(old(slot).known(), loaded)),
{
    match &context.modern_request_capabilities {
        Some(c) => c.copy(),
        None => match context.load_session_cached(slot, loaded, false) {
            Ok(s) => s.client_capabilities,
            Err(_) => Json::object(),
        },
    }
}

/// The answer to a caller that may not drive a pipeline on. It does not say that
/// there is such a pipeline.
pub fn reject_foreign_pipeline_resumer(
    request_context: &RequestContext,
    owner_principal: Option<&str>,
    owner_session: &str,
    info: &DebugInfo,
) -> (r: Option<ProtocolHttpResponse>)
    ensures
        r.deep_view() == (if context::owns_pipeline(
            owner_principal.deep_view(),
            owner_session@,
            request_context.identity.deep_view().principal_id(),
            request_context.session_id.deep_view(),
        ) {
            None
        } else {
            Some(
                protocol::error_reply(
                    200,
                    None,
                    -32600,
                    "no pending server request found for this response id"@,
                    debug_tree(
                        *info,
                        "the server request may have expired or already been handled"@,
                    ),
                ),
            )
        }),
{
    if resumer_owns_pipeline(
        owner_principal,
        owner_session,
        request_context.identity.principal_id(),
        text::opt_as_str(&request_context.session_id),
    ) {
        return None;
    }
    Some(
        protocol_http_error(
            200,
            None,
            -32600,
            "no pending server request found for this response id".to_owned(),
            info.debug_error_data("the server request may have expired or already been handled"),
        ),
    )
}

/// The identity that an administrator asks about.
#[derive(Debug)]
pub struct TestIdentity {
    pub kind: String,
    pub trust_level: String,
    pub subject_id: Option<String>,
    pub roles: Vec<String>,
    pub groups: Vec<String>,
}

/// The input that a preview makes.
pub open spec fn preview_input(tool_name: Seq<char>, identity: TestIdentity) ->
    policy::PolicyInput {
    policy::PolicyInput {
        tool_name,
        trust_level: identity::trust_of_text(identity.trust_level@),
        principal_id: identity.subject_id.deep_view(),
        auth_provider: None,
        identity_kind: identity.kind@,
        roles: identity.roles.deep_view(),
        groups: identity.groups.deep_view(),
        scopes: seq![],
        attributes: seq![],
    }
}

/// The context that a preview is decided on.
pub fn preview_context(tool_name: &str, identity: &TestIdentity) -> (r: ToolPolicyContext)
    ensures
        r.deep_view() == preview_input(tool_name@, *identity),
{
    let scopes: Vec<String> = Vec::new();
    proof {
        assert(identity.roles.deep_view() =~= text::texts(identity.roles@));
        assert(identity.groups.deep_view() =~= text::texts(identity.groups@));
        assert(scopes.deep_view() =~= seq![]);
    }
    ToolPolicyContext {
        tool_name: tool_name.to_owned(),
        trust_level: trust_of_name(identity.trust_level.as_str()),
        principal_id: identity.subject_id.clone(),
        auth_provider: None,
        identity_kind: identity.kind.clone(),
        roles: text::copy_texts(identity.roles.as_slice()),
        groups: text::copy_texts(identity.groups.as_slice()),
        scopes,
        attributes: Attributes::new(),
    }
}

/// The word for a decision.
pub fn preview_word(outcome: &PreDispatchPolicyOutcome) -> (r: String)
    ensures
        r@ == (if outcome.deep_view() == policy::DecisionView::Allow {
            "allow"@
        } else {
            "deny"@
        }),
{
    match outcome {
        PreDispatchPolicyOutcome::Allow => "allow".to_owned(),
        PreDispatchPolicyOutcome::Deny(_) => "deny".to_owned(),
    }
}

/// What the policy gate would decide on a call of a tool by a given identity. Where the
/// tool has conditions, the word rests on the CEL interpreter.
pub fn evaluate_policy_for_preview(
    gate: &mut PreDispatchPolicyGate,
    tool_name: &str,
    identity: &TestIdentity,
    now: u64,
) -> (r: String)
    ensures
        exists|d: policy::DecisionView| #[trigger]
            final(gate).answered(
                *old(gate),
                preview_input(tool_name@, *identity),
                now as int,
                d,
            ) && r@ == (if d == policy::DecisionView::Allow {
                "allow"@
            } else {
                "deny"@
            }),
{
    let ctx: ToolPolicyContext = preview_context(tool_name, identity);
    let outcome: PreDispatchPolicyOutcome = gate.evaluate_tool_call(&ctx, now);
    let ghost d = outcome.deep_view();
    preview_word(&outcome)
}

/// What a chain of policy engines says.
#[derive(Debug)]
pub enum PolicyChainOutcome {
    Allow,
    NotApplicable,
    Deny { engine: String, reason: String, policy_version: String },
}

/// What one policy engine says of a call.
#[derive(Debug, Clone, Copy, PartialEq, Eq, Structural)]
pub enum PolicyEffect {
    Allow,
    Deny,
    /// The engine has nothing to say.
    NotApplicable,
}

/// The answer of one policy engine.
#[derive(Debug)]
pub struct PolicyDecision {
    pub effect: PolicyEffect,
    pub reason: String,
    pub policy_version: String,
}

/// What a chain of policy engines has come to.
#[derive(Debug)]
pub enum ChainStep {
    /// Ask the engine with the given name.
    Ask { engine: String },
    /// The chain has decided.
    Done(PolicyChainOutcome),
}

/// Whether a chain has come to a step, given the answers of its first engines in
/// their order: the first engine that denies decides, and no engine after it is
/// asked; an engine that allows does not end the chain.
pub open spec fn chain_at(
    engines: Seq<String>,
    answers: Seq<PolicyDecision>,
    step: ChainStep,
) -> bool {
    let denied = exists|i: int|
        0 <= i < answers.len() && #[trigger] answers[i].effect == PolicyEffect::Deny;
    let allowed = exists|i: int|
        0 <= i < answers.len() && #[trigger] answers[i].effect == PolicyEffect::Allow;
    match step {
        ChainStep::Ask { engine } => !denied && answers.len() < engines.len() && engine@
            == engines[answers.len() as int]@,
        ChainStep::Done(PolicyChainOutcome::Deny { engine, reason, policy_version }) => exists|
            i: int,
        |
            {
                &&& 0 <= i < answers.len()
                &&& #[trigger] answers[i].effect == PolicyEffect::Deny
                &&& forall|j: int|
                    0 <= j < i ==> #[trigger] answers[j].effect != PolicyEffect::Deny
                &&& engine@ == engines[i]@
                &&& reason@ == answers[i].reason@
                &&& policy_version@ == answers[i].policy_version@
            },
        ChainStep::Done(PolicyChainOutcome::Allow) => !denied && answers.len() == engines.len()
            && allowed,
        ChainStep::Done(PolicyChainOutcome::NotApplicable) => !denied && answers.len()
            == engines.len() && !allowed,
    }
}

/// What a chain of policy engines has come to, given the answers of its first
/// engines in their order.
pub fn chain_after(engines: &Vec<String>, answers: &Vec<PolicyDecision>) -> (r: ChainStep)
    requires
        answers@.len() <= engines@.len(),
    ensures
        chain_at(engines@, answers@, r),
{
    let mut allowed: bool = false;
    let mut i: usize = 0;
    while i < answers.len()
        invariant
            i <= answers@.len() <= engines@.len(),
            forall|j: int| 0 <= j < i ==> #[trigger] answers@[j].effect != PolicyEffect::Deny,
            allowed == exists|j: int|
                0 <= j < i && #[trigger] answers@[j].effect == PolicyEffect::Allow,
        decreases answers.len() - i,
    {
        match answers[i].effect {
            PolicyEffect::Deny => {
                assert(answers@[i as int].effect == PolicyEffect::Deny);
                return ChainStep::Done(
                    PolicyChainOutcome::Deny {
                        engine: engines[i].clone(),
                        reason: answers[i].reason.clone(),
                        policy_version: answers[i].policy_version.clone(),
                    },
                );
            },
            PolicyEffect::Allow => {
                assert(answers@[i as int].effect == PolicyEffect::Allow);
                allowed = true;
            },
            PolicyEffect::NotApplicable => {},
        }
        i += 1;
    }
    if answers.len() < engines.len() {
        ChainStep::Ask { engine: engines[answers.len()].clone() }
    } else if allowed {
        ChainStep::Done(PolicyChainOutcome::Allow)
    } else {
        ChainStep::Done(PolicyChainOutcome::NotApplicable)
    }
}

/// A chain that one of its engines denies never allows a call, whatever the
/// others say.
pub proof fn law_one_denial_is_enough(
    engines: Seq<String>,
    answers: Seq<PolicyDecision>,
    i: int,
    step: ChainStep,
)
    requires
        0 <= i < answers.len(),
        answers[i].effect == PolicyEffect::Deny,
        chain_at(engines, answers, step),
    ensures
        step matches ChainStep::Done(o) && o is Deny,
{
}

/// What a gate plugin says.
#[derive(Debug)]
pub enum GateDecision {
    Allow {
        metadata: Option<Json>,
        modified_arguments: Option<Json>,
        modified_result: Option<Json>,
    },
    Deny { http_status: u16, code: i32, message: String, error_data: Option<Json> },
    Challenge { http_status: u16, code: i32, message: String, challenge_data: Json },
    PendingApproval(ApprovalRequest),
}

/// What a gate plugin says of a call that someone has to approve.
#[derive(Debug)]
pub struct ApprovalRequest {
    pub approval_id: String,
    /// When the approval comes too late, as text.
    pub deadline_at: String,
    /// What is to be approved, in words.
    pub summary: String,
    /// The notifiers that tell of it.
    pub target_notifiers: Vec<String>,
    /// What else the plugin says.
    pub metadata: Option<Json>,
}

/// What a gate plugin says of a call that someone has to approve, over plain
/// values.
pub struct ApprovalView {
    pub approval_id: Seq<char>,
    pub deadline_at: Seq<char>,
    pub summary: Seq<char>,
    pub target_notifiers: Seq<Seq<char>>,
    pub metadata: Option<json::Tree>,
}

impl DeepView for ApprovalRequest {
    type V = ApprovalView;

    open spec fn deep_view(&self) -> ApprovalView {
        ApprovalView {
            approval_id: self.approval_id@,
            deadline_at: self.deadline_at@,
            summary: self.summary@,
            target_notifiers: self.target_notifiers.deep_view(),
            metadata: self.metadata.deep_view(),
        }
    }
}

impl ApprovalRequest {
    /// A request that denotes the same.
    pub fn copy(&self) -> (r: ApprovalRequest)
        ensures
            r.deep_view() == self.deep_view(),
    {
        let target_notifiers: Vec<String> = text::copy_texts(self.target_notifiers.as_slice());
        proof {
            assert(target_notifiers.deep_view() =~= self.target_notifiers.deep_view());
        }
        ApprovalRequest {
            approval_id: self.approval_id.clone(),
            deadline_at: self.deadline_at.clone(),
            summary: self.summary.clone(),
            target_notifiers,
            metadata: json::copy_opt(self.metadata.as_ref()),
        }
    }
}

/// What is known where an approval is awaited.
#[derive(Debug)]
pub struct AwaitContext {
    pub request: ApprovalRequest,
    pub request_id: String,
    pub tool_name: String,
    pub identity: PluginIdentity,
    pub arguments: Option<Json>,
}

/// What came of waiting for an approval.
#[derive(Debug)]
pub enum ApprovalOutcome {
    Approved,
    Denied { http_status: u16, code: i32, message: String },
}

/// What plugins are told of the request that a call is part of.
#[derive(Debug)]
pub struct PluginContext {
    pub request_id: String,
    pub session_id: Option<String>,
    pub tool_name: String,
    pub surface: String,
    /// Who the caller is.
    pub identity: PluginIdentity,
    pub transport: String,
}

/// A call that is to be authorized.
#[derive(Debug)]
pub struct SurfaceGate {
    /// What the call asks for: a prompt, a resource, a completion.
    pub surface: String,
    /// The point at which the policy engines are asked.
    pub decision_point: String,
    /// The name of what it asks for.
    pub backend_name: String,
    /// What the policy engines and the gating plugins are shown of the call.
    pub arguments: Json,
    /// The JSON-RPC id of the call.
    pub request_id: Json,
    /// Whether there are gate plugins.
    pub has_tool_gates: bool,
}

/// What to do next to authorize a call.
#[derive(Debug)]
pub enum SurfaceStep {
    /// Ask the policy gate.
    AskPolicy,
    /// Ask the gating plugins.
    AskGates,
    /// Wait for the approval that is asked for.
    AwaitApproval(ApprovalRequest),
    /// The call is allowed.
    Allowed,
    /// The call is refused. A reason is given where the refusal is put on
    /// record.
    Refused { reason: Option<String>, response: ProtocolHttpResponse },
}

/// A step over plain values.
pub enum SurfaceStepView {
    AskPolicy,
    AskGates,
    AwaitApproval(ApprovalRequest),
    Allowed,
    Refused { reason: Option<Seq<char>>, response: protocol::ReplyView },
}

impl DeepView for SurfaceStep {
    type V = SurfaceStepView;

    open spec fn deep_view(&self) -> SurfaceStepView {
        match self {
            SurfaceStep::AskPolicy => SurfaceStepView::AskPolicy,
            SurfaceStep::AskGates => SurfaceStepView::AskGates,
            SurfaceStep::AwaitApproval(request) => SurfaceStepView::AwaitApproval(*request),
            SurfaceStep::Allowed => SurfaceStepView::Allowed,
            SurfaceStep::Refused { reason, response } => SurfaceStepView::Refused {
                reason: reason.deep_view(),
                response: response.deep_view(),
            },
        }
    }
}

/// The reason on record for a refusal by a chain of policy engines.
pub open spec fn chain_reason(engine: Seq<char>, policy_version: Seq<char>) -> Seq<char> {
    "policy_chain:"@ + engine + ":"@ + policy_version
}

/// The reason on record for a refusal by a chain of policy engines.
pub fn chain_reason_of(engine: &str, policy_version: &str) -> (r: String)
    ensures
        r@ == chain_reason(engine@, policy_version@),
{
    let mut s: String = "policy_chain:".to_owned();
    s.append(engine);
    s.append(":");
    s.append(policy_version);
    s
}

/// What follows the answer of the policy engines.
pub open spec fn chain_step(
    gate: SurfaceGate,
    outcome: PolicyChainOutcome,
    info: DebugInfo,
) -> SurfaceStepView {
    match outcome {
        PolicyChainOutcome::Deny { engine, reason, policy_version } => SurfaceStepView::Refused {
            reason: Some(chain_reason(engine@, policy_version@)),
            response: protocol::error_reply(
                403,
                Some(gate.request_id.tree()),
                -33000,
                "Policy `"@ + engine@ + "` denied "@ + gate.surface@ + " '"@ + gate.backend_name@
                    + "': "@ + reason@,
                debug_tree(
                    info,
                    "Policy engine `"@ + engine@ + "` denied "@ + gate.surface@ + " '"@
                        + gate.backend_name@ + "'."@,
                ),
            ),
        },
        _ => SurfaceStepView::AskPolicy,
    }
}

/// The answer to a refusal by the policy gate.
pub open spec fn denial_reply(
    denial: policy::DenialView,
    request_id: json::Tree,
    info: DebugInfo,
    hint: Seq<char>,
) -> protocol::ReplyView {
    protocol::error_reply(
        denial.http_status,
        Some(request_id),
        denial.code,
        denial.message,
        denial_data(denial, info, hint),
    )
}

/// What follows the decision of the policy gate.
pub open spec fn policy_step(
    gate: SurfaceGate,
    decision: policy::DecisionView,
    info: DebugInfo,
) -> SurfaceStepView {
    match decision {
        policy::DecisionView::Deny(d) => SurfaceStepView::Refused {
            reason: Some(d.audit_reason),
            response: denial_reply(d, gate.request_id.tree(), info, d.audit_reason),
        },
        policy::DecisionView::Allow => if gate.has_tool_gates {
            SurfaceStepView::AskGates
        } else {
            SurfaceStepView::Allowed
        },
    }
}

/// The answer to a refusal by a gate plugin, where it refuses at once.
pub open spec fn gate_refusal(decision: GateDecision, request_id: json::Tree) -> Option<
    protocol::ReplyView,
> {
    match decision {
        GateDecision::Deny { http_status, code, message, error_data } => Some(
            protocol::error_reply(
                http_status as int,
                Some(request_id),
                code as int,
                message@,
                error_data.deep_view(),
            ),
        ),
        GateDecision::Challenge { http_status, code, message, challenge_data } => Some(
            protocol::error_reply(
                http_status as int,
                Some(request_id),
                code as int,
                message@,
                Some(challenge_data.tree()),
            ),
        ),
        _ => None,
    }
}

/// What follows the answer of the gating plugins.
pub open spec fn gates_step(gate: SurfaceGate, decision: GateDecision) -> SurfaceStepView {
    match decision {
        GateDecision::Allow { .. } => SurfaceStepView::Allowed,
        GateDecision::PendingApproval(request) => SurfaceStepView::AwaitApproval(request),
        _ => SurfaceStepView::Refused {
            reason: None,
            response: gate_refusal(decision, gate.request_id.tree())->0,
        },
    }
}

/// The answer to a call that was not approved.
pub open spec fn approval_refusal(outcome: ApprovalOutcome, request_id: json::Tree) -> Option<
    protocol::ReplyView,
> {
    match outcome {
        ApprovalOutcome::Approved => None,
        ApprovalOutcome::Denied { http_status, code, message } => Some(
            protocol::error_reply(http_status as int, Some(request_id), code as int, message@, None),
        ),
    }
}

/// What follows the wait for an approval.
pub open spec fn approval_step(gate: SurfaceGate, outcome: ApprovalOutcome) -> SurfaceStepView {
    match approval_refusal(outcome, gate.request_id.tree()) {
        None => SurfaceStepView::Allowed,
        Some(response) => SurfaceStepView::Refused { reason: None, response },
    }
}

/// The answer to a refusal by the policy gate.
pub fn denial_response(denial: PolicyDenial, request_id: Json, info: &DebugInfo, hint: &str) -> (r:
    ProtocolHttpResponse)
    ensures
        r.deep_view() == denial_reply(denial.deep_view(), request_id.tree(), *info, hint@),
{
    let data: Option<Json> = policy_denial_error_data(&denial, info, hint);
    protocol_http_error(denial.http_status, Some(request_id), denial.code, denial.message, data)
}

impl SurfaceGate {
    /// Whether a call is authorized as what it is.
    pub open spec fn asks(
        &self,
        surface: Seq<char>,
        decision_point: Seq<char>,
        name: Seq<char>,
        arguments: json::Tree,
        request_id: json::Tree,
        has_tool_gates: bool,
    ) -> bool {
        &&& self.surface@ == surface
        &&& self.decision_point@ == decision_point
        &&& self.backend_name@ == name
        &&& self.arguments.tree() == arguments
        &&& self.request_id.tree() == request_id
        &&& self.has_tool_gates == has_tool_gates
    }

    /// The authorization of a call.
    pub fn new(
        surface: &str,
        decision_point: &str,
        name: &str,
        arguments: Json,
        request_id: Json,
        has_tool_gates: bool,
    ) -> (r: SurfaceGate)
        ensures
            r.asks(
                surface@,
                decision_point@,
                name@,
                arguments.tree(),
                request_id.tree(),
                has_tool_gates,
            ),
    {
        SurfaceGate {
            surface: surface.to_owned(),
            decision_point: decision_point.to_owned(),
            backend_name: name.to_owned(),
            arguments,
            request_id,
            has_tool_gates,
        }
    }

    /// What plugins are told of the request that the call is part of. `identity`
    /// is who the caller is to them.
    pub fn plugin_context(&self, request_context: &RequestContext, identity: PluginIdentity) -> (r:
        PluginContext)
        ensures
            r.identity == identity,
            r.request_id@ == request_context.request_id.text(),
            r.session_id.deep_view() == request_context.session_id.deep_view(),
            r.tool_name@ == self.backend_name@,
            r.surface@ == self.surface@,
            r.transport@ == identity::transport_text(request_context.transport),
    {
        PluginContext {
            request_id: request_context.request_id.as_str().to_owned(),
            session_id: request_context.session_id.clone(),
            tool_name: self.backend_name.clone(),
            surface: self.surface.clone(),
            identity,
            transport: identity::transport_label(&request_context.transport).to_owned(),
        }
    }

    /// What is known where the approval of the call is awaited.
    pub fn await_context(&self, request: &ApprovalRequest, identity: PluginIdentity) -> (r:
        AwaitContext)
        ensures
            r.request.deep_view() == request.deep_view(),
            r.request_id@ == outside::json_text(self.request_id.tree()),
            r.tool_name@ == self.backend_name@,
            r.identity == identity,
            r.arguments.deep_view() == Some(self.arguments.tree()),
    {
        AwaitContext {
            request: request.copy(),
            request_id: outside::json_to_string(&self.request_id),
            tool_name: self.backend_name.clone(),
            identity,
            arguments: Some(self.arguments.copy()),
        }
    }

    /// What follows the answer of the policy engines.
    pub fn after_chain(&self, outcome: PolicyChainOutcome, info: &DebugInfo) -> (r: SurfaceStep)
        ensures
            r.deep_view() == chain_step(*self, outcome, *info),
    {
        match outcome {
            PolicyChainOutcome::Deny { engine, reason, policy_version } => {
                let mut message: String = "Policy `".to_owned();
                message.append(engine.as_str());
                message.append("` denied ");
                message.append(self.surface.as_str());
                message.append(" '");
                message.append(self.backend_name.as_str());
                message.append("': ");
                message.append(reason.as_str());
                let mut hint: String = "Policy engine `".to_owned();
                hint.append(engine.as_str());
                hint.append("` denied ");
                hint.append(self.surface.as_str());
                hint.append(" '");
                hint.append(self.backend_name.as_str());
                hint.append("'.");
                SurfaceStep::Refused {
                    reason: Some(chain_reason_of(engine.as_str(), policy_version.as_str())),
                    response: protocol_http_error(
                        403,
                        Some(self.request_id.copy()),
                        -33000,
                        message,
                        info.debug_error_data(hint.as_str()),
                    ),
                }
            },
            _ => SurfaceStep::AskPolicy,
        }
    }

    /// What follows the decision of the policy gate.
    pub fn after_policy(&self, outcome: PreDispatchPolicyOutcome, info: &DebugInfo) -> (r:
        SurfaceStep)
        ensures
            r.deep_view() == policy_step(*self, outcome.deep_view(), *info),
    {
        match outcome {
            PreDispatchPolicyOutcome::Deny(denial) => {
                let reason: String = denial.audit_reason.clone();
                let response: ProtocolHttpResponse = denial_response(
                    denial,
                    self.request_id.copy(),
                    info,
                    reason.as_str(),
                );
                SurfaceStep::Refused { reason: Some(reason), response }
            },
            PreDispatchPolicyOutcome::Allow => {
                if self.has_tool_gates {
                    SurfaceStep::AskGates
                } else {
                    SurfaceStep::Allowed
                }
            },
        }
    }

    /// What follows the answer of the gating plugins.
    pub fn after_gates(&self, decision: GateDecision) -> (r: SurfaceStep)
        ensures
            r.deep_view() == gates_step(*self, decision),
    {
        match decision {
            GateDecision::Allow { .. } => SurfaceStep::Allowed,
            GateDecision::PendingApproval(request) => SurfaceStep::AwaitApproval(request),
            GateDecision::Deny {
                http_status,
                code,
                message,
                error_data,
            } => SurfaceStep::Refused {
                reason: None,
                response: protocol_http_error(
                    http_status,
                    Some(self.request_id.copy()),
                    code,
                    message,
                    error_data,
                ),
            },
            GateDecision::Challenge {
                http_status,
                code,
                message,
                challenge_data,
            } => SurfaceStep::Refused {
                reason: None,
                response: protocol_http_error(
                    http_status,
                    Some(self.request_id.copy()),
                    code,
                    message,
                    Some(challenge_data),
                ),
            },
        }
    }

    /// What follows the wait for an approval.
    pub fn after_approval(&self, outcome: ApprovalOutcome) -> (r: SurfaceStep)
        ensures
            r.deep_view() == approval_step(*self, outcome),
    {
        match outcome {
            ApprovalOutcome::Approved => SurfaceStep::Allowed,
            ApprovalOutcome::Denied { http_status, code, message } => SurfaceStep::Refused {
                reason: None,
                response: protocol_http_error(
                    http_status,
                    Some(self.request_id.copy()),
                    code,
                    message,
                    None,
                ),
            },
        }
    }

    /// What the policy gate is told of the call: its caller, and the name that it
    /// calls.
    pub fn policy_context(&self, request_context: &RequestContext) -> (r: ToolPolicyContext)
        ensures
            r.deep_view() == policy::input_of(
                request_context.identity.deep_view(),
                self.backend_name@,
            ),
    {
        ToolPolicyContext::from_request_context(request_context, self.backend_name.as_str())
    }

    /// Asks the policy gate about the call.
    pub fn ask_policy(
        &self,
        policies: &mut PreDispatchPolicyGate,
        request_context: &RequestContext,
        now: u64,
    ) -> (r: PreDispatchPolicyOutcome)
        ensures
            final(policies).answered(
                *old(policies),
                policy::input_of(request_context.identity.deep_view(), self.backend_name@),
                now as int,
                r.deep_view(),
            ),
    {
        policies.evaluate_tool_call(&self.policy_context(request_context), now)
    }

    /// Authorizes a call, given what the policy engines, the gating plugins and
    /// an approval would say; the policy gate is asked here. Each layer counts
    /// only where the ones before it let the call pass.
    pub fn evaluate_surface_gate(
        &self,
        policies: &mut PreDispatchPolicyGate,
        request_context: &RequestContext,
        chain: PolicyChainOutcome,
        gates: GateDecision,
        approval: ApprovalOutcome,
        info: &DebugInfo,
        now: u64,
    ) -> (r: Result<(), ProtocolHttpResponse>)
        ensures
            !(chain is Deny) ==> exists|d: policy::DecisionView| #[trigger]
                final(policies).answered(
                    *old(policies),
                    policy::input_of(request_context.identity.deep_view(), self.backend_name@),
                    now as int,
                    d,
                ) && refusal_view(r) == surface_refusal(*self, chain, d, gates, approval, *info),
            chain is Deny ==> *final(policies) == *old(policies) && refusal_view(r) == Some(
                chain_step(*self, chain, *info)->Refused_response,
            ),
    {
        let first: SurfaceStep = self.after_chain(chain, info);
        if let SurfaceStep::Refused { response, .. } = first {
            return Err(response);
        }
        let outcome: PreDispatchPolicyOutcome = self.ask_policy(policies, request_context, now);
        let ghost d = outcome.deep_view();
        match self.after_policy(outcome, info) {
            SurfaceStep::Refused { response, .. } => Err(response),
            SurfaceStep::AskGates => match self.after_gates(gates) {
                SurfaceStep::Refused { response, .. } => Err(response),
                SurfaceStep::AwaitApproval(_) => match self.after_approval(approval) {
                    SurfaceStep::Refused { response, .. } => Err(response),
                    _ => Ok(()),
                },
                _ => Ok(()),
            },
            _ => Ok(()),
        }
    }
}

/// A refusal over plain values.
pub open spec fn refusal_view(r: Result<(), ProtocolHttpResponse>) -> Option<protocol::ReplyView> {
    match r {
        Ok(_) => None,
        Err(e) => Some(e.deep_view()),
    }
}

/// The refusal of a call, given what each layer would say: that of the first
/// layer that refuses.
pub open spec fn surface_refusal(
    gate: SurfaceGate,
    chain: PolicyChainOutcome,
    decision: policy::DecisionView,
    gates: GateDecision,
    approval: ApprovalOutcome,
    info: DebugInfo,
) -> Option<protocol::ReplyView> {
    if let SurfaceStepView::Refused { response, .. } = chain_step(gate, chain, info) {
        Some(response)
    } else if let SurfaceStepView::Refused { response, .. } = policy_step(gate, decision, info) {
        Some(response)
    } else if !gate.has_tool_gates {
        None
    } else if let SurfaceStepView::Refused { response, .. } = gates_step(gate, gates) {
        Some(response)
    } else if gates is PendingApproval {
        approval_refusal(approval, gate.request_id.tree())
    } else {
        None
    }
}

/// A call that is allowed was refused by no layer: neither by the policy
/// engines nor by the policy gate, with or without plugins.
pub proof fn law_every_layer_can_refuse(
    gate: SurfaceGate,
    chain: PolicyChainOutcome,
    decision: policy::DecisionView,
    gates: GateDecision,
    approval: ApprovalOutcome,
    info: DebugInfo,
)
    requires
        surface_refusal(gate, chain, decision, gates, approval, info) is None,
    ensures
        !(chain is Deny),
        decision == policy::DecisionView::Allow,
        gate.has_tool_gates ==> gates is Allow || (gates is PendingApproval && approval is Approved),
{
}

/// Where debugging is on, a failure names the gateway's own id of the request, the
/// time and a hint.
pub proof fn law_debugging_names_the_request(info: DebugInfo, hint: Seq<char>)
    ensures
        debug_tree(info, hint) is Some <==> info.enabled,
        debug_tree(info, hint) matches Some(t) ==> json::tree_get(t, "requestId"@) == Some(
            json::Tree::Str(info.request_id@),
        ) && json::tree_get(t, "hint"@) == Some(json::Tree::Str(hint)) && json::tree_get(
            t,
            "timestamp"@,
        ) == Some(json::Tree::Str(info.now.rfc3339_view())),
{
    reveal_with_fuel(json::map_of, 4);
    reveal_strlit("requestId");
    reveal_strlit("timestamp");
    reveal_strlit("hint");
    assert("requestId"@[0] == 'r' && "timestamp"@[0] == 't' && "hint"@.len() == 4);
    assert("requestId"@.len() == 9 && "timestamp"@.len() == 9);
}

/// A refusal for want of scopes names them to the client with or without debugging,
/// separated by spaces, and no other refusal speaks of scopes.
pub proof fn law_lacking_scopes_are_told(denial: policy::DenialView, info: DebugInfo, hint: Seq<char>)
    ensures
        denial.insufficient_scope matches Some(s) ==> (denial_data(denial, info, hint) matches Some(
            t,
        ) && json::tree_get(t, "insufficient_scope"@) == Some(
            json::Tree::Str(text::joined(s, " "@)),
        )),
        denial.insufficient_scope is None ==> denial_data(denial, info, hint) == debug_tree(
            info,
            hint,
        ),
{
}

/// A refusal by the policy gate is told under the request's id, with the status, the
/// code and the words of the refusal.
pub proof fn law_denials_are_told_as_they_are(
    denial: policy::DenialView,
    request_id: json::Tree,
    info: DebugInfo,
    hint: Seq<char>,
)
    ensures
        denial_reply(denial, request_id, info, hint).http_status == denial.http_status,
        denial_reply(denial, request_id, info, hint).body matches protocol::BodyView::Error {
            id,
            code,
            message,
            ..
        } && id == Some(request_id) && code == denial.code && message == denial.message,
{
}

/// A session that cannot be used is told for what it is: a request without one and a
/// session that was not confirmed as bad requests, an unknown one as not found.
pub proof fn law_session_faults_are_told_apart(error: SessionAccessError, id: Option<json::Tree>)
    ensures
        session_error_reply(error, id).body matches protocol::BodyView::Error {
            id: i,
            code,
            data,
            ..
        } && i == id && data is None && match error {
            SessionAccessError::MissingSessionId => code == -32600 && session_error_reply(
                error,
                id,
            ).http_status == 400,
            SessionAccessError::UnknownSession => code == -32001 && session_error_reply(
                error,
                id,
            ).http_status == 404,
            SessionAccessError::NotInitialized => code == -32600 && session_error_reply(
                error,
                id,
            ).http_status == 400,
        },
{
}

/// What a client can do is what its request says, or else what its session says, or
/// else nothing.
pub proof fn law_requests_speak_before_sessions(
    ctx: RequestContext,
    session: Result<context::SessionView, SessionAccessError>,
)
    ensures
        ctx.modern_request_capabilities matches Some(c) ==> capabilities_of(ctx, session)
            == c.tree(),
        ctx.modern_request_capabilities is None ==> capabilities_of(ctx, session) == (
        match session {
            Ok(s) => s.client_capabilities,
            Err(_) => json::Tree::Object(Map::empty()),
        }),
{
}

/// A caller that does not own a pipeline learns nothing of it, and one that does is
/// let on.
pub proof fn law_foreign_pipelines_look_missing(
    ctx: RequestContext,
    owner: Option<&str>,
    owner_session: &str,
    info: DebugInfo,
    r: Option<ProtocolHttpResponse>,
)
    requires
        call_ensures(reject_foreign_pipeline_resumer, (&ctx, owner, owner_session, &info), r),
    ensures
        owner.deep_view() != ctx.identity.deep_view().principal_id() ==> (r matches Some(a)
            && a.http_status == 200 && (a.response.deep_view() matches protocol::BodyView::Error {
            id,
            code,
            ..
        } && id is None && code == -32600)),
        owner.deep_view() == ctx.identity.deep_view().principal_id() && (owner is None
            || ctx.session_id.deep_view() == Some(owner_session@)) ==> r is None,
{
}

/// A preview asks about the identity that an administrator names, as it is named: a
/// trust level that is not known counts as the lowest, and no scopes are held.
pub proof fn law_previews_ask_about_the_named_identity(
    tool_name: Seq<char>,
    identity: TestIdentity,
)
    ensures
        ({
            let input = preview_input(tool_name, identity);
            &&& input.tool_name == tool_name
            &&& input.principal_id == identity.subject_id.deep_view()
            &&& input.identity_kind == identity.kind@
            &&& input.roles == identity.roles.deep_view()
            &&& input.groups == identity.groups.deep_view()
            &&& input.scopes.len() == 0
            &&& input.auth_provider is None
            &&& input.attributes.len() == 0
            &&& input.trust_level is Verified <==> identity.trust_level@ == "verified"@
            &&& input.trust_level is HeaderAsserted <==> identity.trust_level@
                == "header_asserted"@
        }),
{
    identity::law_trust_is_ordered(identity.trust_level@);
}

/// A chain asks its engines in their order until one denies, and each answer counts
/// for the engine that gave it: the denial that is told is that of the first engine
/// that denies, with its reason and its version.
pub proof fn law_first_denial_is_told(
    engines: Seq<String>,
    answers: Seq<PolicyDecision>,
    i: int,
    step: ChainStep,
)
    requires
        0 <= i < answers.len() <= engines.len(),
        answers[i].effect == PolicyEffect::Deny,
        forall|j: int| 0 <= j < i ==> (#[trigger] answers[j]).effect != PolicyEffect::Deny,
        chain_at(engines, answers, step),
    ensures
        step matches ChainStep::Done(PolicyChainOutcome::Deny { engine, reason, policy_version })
            && engine@ == engines[i]@ && reason@ == answers[i].reason@ && policy_version@
            == answers[i].policy_version@,
{
    if let ChainStep::Done(PolicyChainOutcome::Deny { engine, reason, policy_version }) = step {
        let k = choose|k: int|
            {
                &&& 0 <= k < answers.len()
                &&& #[trigger] answers[k].effect == PolicyEffect::Deny
                &&& forall|j: int| 0 <= j < k ==> #[trigger] answers[j].effect != PolicyEffect::Deny
                &&& engine@ == engines[k]@
                &&& reason@ == answers[k].reason@
                &&& policy_version@ == answers[k].policy_version@
            };
        if k < i {
            assert(answers[k].effect == PolicyEffect::Deny);
        }
        if i < k {
            assert(answers[i].effect == PolicyEffect::Deny);
        }
    }
}

/// A chain without a denial asks on until every engine has answered, and then allows
/// where any engine allowed.
pub proof fn law_chains_ask_every_engine(
    engines: Seq<String>,
    answers: Seq<PolicyDecision>,
    step: ChainStep,
)
    requires
        answers.len() <= engines.len(),
        forall|j: int| 0 <= j < answers.len() ==> (#[trigger] answers[j]).effect
            != PolicyEffect::Deny,
        chain_at(engines, answers, step),
    ensures
        answers.len() < engines.len() ==> (step matches ChainStep::Ask { engine } && engine@
            == engines[answers.len() as int]@),
        answers.len() == engines.len() ==> (step matches ChainStep::Done(o) && (o is Allow
            <==> exists|j: int| 0 <= j < answers.len() && (#[trigger] answers[j]).effect
            == PolicyEffect::Allow) && !(o is Deny)),
{
}

/// Every refusal on the way of a call is told under the call's own id, and the layers
/// are asked in order: the engines, the policy gate, the plugins, an approval.
pub proof fn law_layers_are_asked_in_order(
    gate: SurfaceGate,
    chain: PolicyChainOutcome,
    decision: policy::DecisionView,
    gates: GateDecision,
    approval: ApprovalOutcome,
    info: DebugInfo,
)
    ensures
        match chain_step(gate, chain, info) {
            SurfaceStepView::AskPolicy => !(chain is Deny),
            SurfaceStepView::Refused { response, reason } => chain is Deny && response.http_status
                == 403 && reason is Some && (response.body matches protocol::BodyView::Error {
                id,
                code,
                ..
            } && id == Some(gate.request_id.tree()) && code == -33000),
            _ => false,
        },
        match policy_step(gate, decision, info) {
            SurfaceStepView::AskGates => decision is Allow && gate.has_tool_gates,
            SurfaceStepView::Allowed => decision is Allow && !gate.has_tool_gates,
            SurfaceStepView::Refused { response, reason } => decision
                matches policy::DecisionView::Deny(d) && reason == Some(d.audit_reason)
                && response.http_status == d.http_status && (response.body
                matches protocol::BodyView::Error { id, code, message, .. } && id == Some(
                gate.request_id.tree(),
            ) && code == d.code && message == d.message),
            _ => false,
        },
        match gates_step(gate, gates) {
            SurfaceStepView::Allowed => gates is Allow,
            SurfaceStepView::AwaitApproval(request) => gates == GateDecision::PendingApproval(
                request,
            ),
            SurfaceStepView::Refused { response, .. } => match gates {
                GateDecision::Deny { http_status, code, message, error_data } => response
                    == protocol::error_reply(
                    http_status as int,
                    Some(gate.request_id.tree()),
                    code as int,
                    message@,
                    error_data.deep_view(),
                ),
                GateDecision::Challenge { http_status, code, message, challenge_data } => response
                    == protocol::error_reply(
                    http_status as int,
                    Some(gate.request_id.tree()),
                    code as int,
                    message@,
                    Some(challenge_data.tree()),
                ),
                _ => false,
            },
            _ => false,
        },
        match approval_step(gate, approval) {
            SurfaceStepView::Allowed => approval is Approved,
            SurfaceStepView::Refused { response, .. } => approval matches ApprovalOutcome::Denied {
                http_status,
                code,
                message,
            } && response == protocol::error_reply(
                http_status as int,
                Some(gate.request_id.tree()),
                code as int,
                message@,
                None,
            ),
            _ => false,
        },
{
}

/// A call that no layer refuses is allowed: the layers together let pass what each
/// of them lets pass.
pub proof fn law_calls_that_pass_every_layer_pass(
    gate: SurfaceGate,
    chain: PolicyChainOutcome,
    gates: GateDecision,
    approval: ApprovalOutcome,
    info: DebugInfo,
)
    requires
        !(chain is Deny),
        gates is Allow || gates is PendingApproval && approval is Approved || !gate.has_tool_gates,
    ensures
        surface_refusal(gate, chain, policy::DecisionView::Allow, gates, approval, info) is None,
{
}

/// A plugin that gates a call learns which request it is, in which session and over
/// which transport, what is called on which surface, and who calls.
pub proof fn law_plugins_learn_of_the_call(
    gate: SurfaceGate,
    request_context: RequestContext,
    identity: PluginIdentity,
    r: PluginContext,
)
    requires
        call_ensures(SurfaceGate::plugin_context, (&gate, &request_context, identity), r),
    ensures
        r.identity == identity,
        r.request_id@ == request_context.request_id.text(),
        r.session_id.deep_view() == request_context.session_id.deep_view(),
        r.tool_name@ == gate.backend_name@,
        r.surface@ == gate.surface@,
        r.transport@ == (if request_context.transport is Http {
            "http"@
        } else {
            "stdio"@
        }),
{
}

/// An approval on a surface is awaited for what was asked, with the arguments of the
/// call, by who calls.
pub proof fn law_approvals_are_about_what_is_asked(
    gate: SurfaceGate,
    request: ApprovalRequest,
    identity: PluginIdentity,
    r: AwaitContext,
)
    requires
        call_ensures(SurfaceGate::await_context, (&gate, &request, identity), r),
    ensures
        r.request.deep_view() == request.deep_view(),
        r.tool_name@ == gate.backend_name@,
        r.identity == identity,
        r.arguments matches Some(a) && a.tree() == gate.arguments.tree(),
{
}

/// The policies are asked about the caller and about what is called, and about
/// nothing else of the request.
pub proof fn law_surfaces_ask_about_what_is_called(
    gate: SurfaceGate,
    a: RequestContext,
    b: RequestContext,
    of_a: ToolPolicyContext,
    of_b: ToolPolicyContext,
)
    requires
        call_ensures(SurfaceGate::policy_context, (&gate, &a), of_a),
        call_ensures(SurfaceGate::policy_context, (&gate, &b), of_b),
    ensures
        of_a.tool_name@ == gate.backend_name@,
        a.identity.deep_view() == b.identity.deep_view() ==> of_a.deep_view() == of_b.deep_view(),
        of_a.scopes.deep_view() == a.identity.deep_view().scopes(),
        of_a.trust_level == a.identity.deep_view().trust_level(),
        of_a.principal_id.deep_view() == a.identity.deep_view().principal_id(),
{
    assert(of_a.deep_view().tool_name == gate.backend_name@);
    assert(of_a.deep_view().trust_level == of_a.trust_level);
}

/// The kinds of session faults have names of their own, and a preview says of an
/// outcome what it is.
pub proof fn law_words_tell_outcomes_apart(
    a: SessionAccessError,
    b: SessionAccessError,
    name_a: &str,
    name_b: &str,
    outcome: PreDispatchPolicyOutcome,
    word: String,
)
    requires
        call_ensures(session_error_kind, (a,), name_a),
        call_ensures(session_error_kind, (b,), name_b),
        call_ensures(preview_word, (&outcome,), word),
    ensures
        name_a@ == name_b@ <==> a == b,
        outcome is Allow ==> word@ == "allow"@,
        outcome is Deny ==> word@ == "deny"@,
{
    reveal_strlit("session_missing_id");
    reveal_strlit("session_not_found");
    reveal_strlit("session_not_initialized");
    assert("session_missing_id"@.len() == 18);
    assert("session_not_found"@.len() == 17);
    assert("session_not_initialized"@.len() == 23);
}

/// What a client can do is what its request says, whatever its session says; a request
/// that says nothing has the capabilities of its session, and without one none.
pub proof fn law_clients_can_do_what_they_say(
    request_context: RequestContext,
    slot: &mut SessionSlot,
    loaded: Result<SessionSnapshot, SessionAccessError>,
    r: Json,
)
    requires
        call_ensures(client_capabilities_for_context, (&request_context, slot, loaded), r),
        old(slot).known() is None,
    ensures
        request_context.modern_request_capabilities matches Some(c) ==> r.tree() == c.tree()
            && final(slot).known() is None,
        request_context.modern_request_capabilities is None ==> match loaded {
            Ok(s) => r.tree() == s.client_capabilities.tree(),
            Err(_) => r.tree() == json::Tree::Object(Map::empty()),
        },
{
}

/// A call on any surface passes only where neither the engines nor the plugins, nor an
/// approval that the plugins ask for, refuse it. What the engines refuse is not asked
/// of the policies any more.
pub proof fn law_surfaces_pass_where_all_layers_agree(
    gate: SurfaceGate,
    policies: &mut PreDispatchPolicyGate,
    request_context: RequestContext,
    chain: PolicyChainOutcome,
    gates: GateDecision,
    approval: ApprovalOutcome,
    info: DebugInfo,
    now: u64,
    r: Result<(), ProtocolHttpResponse>,
)
    requires
        call_ensures(
            SurfaceGate::evaluate_surface_gate,
            (&gate, policies, &request_context, chain, gates, approval, &info, now),
            r,
        ),
    ensures
        chain is Deny ==> r is Err && *final(policies) == *old(policies),
        r is Ok && gate.has_tool_gates ==> !(gates is Deny) && !(gates is Challenge) && (gates
            is PendingApproval ==> approval is Approved),
        r is Ok ==> final(policies).tool_access_policy == old(policies).tool_access_policy,
{
    if !(chain is Deny) {
        let d = choose|d: policy::DecisionView| #[trigger]
            final(policies).answered(
                *old(policies),
                policy::input_of(request_context.identity.deep_view(), gate.backend_name@),
                now as int,
                d,
            ) && refusal_view(r) == surface_refusal(gate, chain, d, gates, approval, info);
        assert(final(policies).tool_access_policy == old(policies).tool_access_policy);
    }
}

/// A preview says yes exactly where the described caller would pass: on a tool without
/// a rule of its own, and without a condition or a cache, where its trust reaches the
/// default.
pub proof fn law_previews_foretell_the_decision(
    gate: &mut PreDispatchPolicyGate,
    tool_name: &str,
    identity: TestIdentity,
    now: u64,
    r: String,
)
    requires
        call_ensures(evaluate_policy_for_preview, (gate, tool_name, &identity, now), r),
        old(gate).cache is None,
        old(gate).tool_access_policy.cel_allow_if is None,
        old(gate).tool_access_policy.applicable(tool_name@) is None,
    ensures
        r@ == "allow"@ <==> match old(gate).tool_access_policy.default_minimum_trust {
            RequestTrustLevel::Unauthenticated => true,
            RequestTrustLevel::HeaderAsserted => identity.trust_level@ == "header_asserted"@
                || identity.trust_level@ == "verified"@,
            RequestTrustLevel::Verified => identity.trust_level@ == "verified"@,
        },
        final(gate).tool_access_policy == old(gate).tool_access_policy,
{
    reveal_strlit("allow");
    reveal_strlit("deny");
    assert("allow"@.len() != "deny"@.len());
    let d = choose|d: policy::DecisionView| #[trigger]
        final(gate).answered(
            *old(gate),
            preview_input(tool_name@, identity),
            now as int,
            d,
        ) && r@ == (if d == policy::DecisionView::Allow {
            "allow"@
        } else {
            "deny"@
        });
    assert(old(gate).may_answer(preview_input(tool_name@, identity), now as int, d));
}

/// A call on any surface passes only for a caller whom the policies let pass, and
/// without engines' denials and plugins for every such caller: here for a name without
/// a rule of its own, and without conditions or a cache.
pub proof fn law_surfaces_ask_for_the_callers_trust(
    gate: SurfaceGate,
    policies: &mut PreDispatchPolicyGate,
    request_context: RequestContext,
    chain: PolicyChainOutcome,
    gates: GateDecision,
    approval: ApprovalOutcome,
    info: DebugInfo,
    now: u64,
    r: Result<(), ProtocolHttpResponse>,
)
    requires
        call_ensures(
            SurfaceGate::evaluate_surface_gate,
            (&gate, policies, &request_context, chain, gates, approval, &info, now),
            r,
        ),
        old(policies).cache is None,
        old(policies).tool_access_policy.cel_allow_if is None,
        old(policies).tool_access_policy.applicable(gate.backend_name@) is None,
    ensures
        ({
            let enough = policy_gate::trusted_for(
                request_context.identity,
                old(policies).tool_access_policy.default_minimum_trust,
            );
            &&& r is Ok ==> enough
            &&& !(chain is Deny) && !gate.has_tool_gates ==> (r is Ok <==> enough)
        }),
{
    let input = policy::input_of(request_context.identity.deep_view(), gate.backend_name@);
    if !(chain is Deny) {
        let d = choose|d: policy::DecisionView| #[trigger]
            final(policies).answered(*old(policies), input, now as int, d) && refusal_view(r)
                == surface_refusal(gate, chain, d, gates, approval, info);
        assert(old(policies).tool_access_policy.decides(input, d));
    }
}

} // verus!
