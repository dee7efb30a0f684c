//! The way of a request through the gateway.
use vstd::prelude::*;
use vstd::string::*;

use crate::context;
use crate::context::{RequestContext, SessionAccessError, SessionSlot, SessionSnapshot};
use crate::handlers::completion::CompletionLimiter;
use crate::handlers::tasks;
use crate::handlers::tasks::{TaskOperation, TaskWait};
use crate::handlers::tool_admission;
use crate::handlers::tool_admission::{CallSettings, ToolCall, ToolCallParams, ToolInfo};
use crate::handlers::tool_gates::ReplayCheck;
use crate::handlers::tools_call;
use crate::handlers::tools_call::CallStage;
use crate::identity::GatewayRequestId;
use crate::json;
use crate::json::Json;
use crate::notes;
use crate::notes::{Answer, CallNote};
use crate::policy;
use crate::policy::{PreDispatchPolicyOutcome, ToolPolicyContext};
use crate::policy_eval;
use crate::policy_eval::{
    map_session_error_to_protocol_response, ApprovalOutcome, ChainStep, DebugInfo, GateDecision,
    PolicyChainOutcome, PolicyDecision, PolicyEffect, SurfaceGate, TestIdentity,
};
use crate::policy_gate;
use crate::policy_gate::PreDispatchPolicyGate;
use crate::protocol;
use crate::protocol::{
    protocol_http_error, protocol_http_success, ProtocolHttpResponse, ProtocolVersion,
};

verus! {

/// A question about the gateway itself.
#[derive(Debug, Clone, Copy, PartialEq, Eq, Structural)]
pub enum DiagnosticsOperation {
    Readiness,
    Runtime,
}

/// A message on the life of a session.
#[derive(Debug)]
pub enum LifecycleOperation {
    Initialize { request_id: Json, params: Json },
    Initialized,
    Ping { request_id: Json },
    NotificationAccepted,
    NotificationCancelled { request_id: Json, reason: Option<String> },
    ElicitationComplete { params: Json },
    RootsListChanged,
}

/// A request for what the gateway offers.
#[derive(Debug)]
pub enum CapabilityOperation {
    ToolsList { request_id: Json, params: Json },
    PromptsList { request_id: Json, params: Json },
    PromptsGet { request_id: Json, params: Json },
    ResourcesList { request_id: Json, params: Json },
    ResourcesRead { request_id: Json, params: Json },
    ResourcesSubscribe { request_id: Json, params: Json },
    ResourcesUnsubscribe { request_id: Json, params: Json },
    ResourcesTemplatesList { request_id: Json, params: Json },
    ToolsCall { request_id: Json, params: Json },
    Complete { request_id: Json, params: Json },
}

/// A message of the protocol.
#[derive(Debug)]
pub enum ProtocolOperation {
    Lifecycle(LifecycleOperation),
    Capabilities(CapabilityOperation),
    Tasks { operation: TaskOperation, request_id: Json, params: Json },
    SetLogLevel { request_id: Json, params: Json },
    /// The client's answer to a request of the gateway.
    ServerRequestResponse { response_id: Json, result: Option<Json>, error: Option<Json> },
}

/// What is asked of the gateway.
#[derive(Debug)]
pub enum GatewayOperation {
    Diagnostics(DiagnosticsOperation),
    Protocol(ProtocolOperation),
}

/// The name of a message on the life of a session.
pub open spec fn lifecycle_text(op: LifecycleOperation) -> Seq<char> {
    match op {
        LifecycleOperation::Initialize { .. } => "protocol.lifecycle.initialize"@,
        LifecycleOperation::Initialized => "protocol.lifecycle.initialized"@,
        LifecycleOperation::Ping { .. } => "protocol.lifecycle.ping"@,
        LifecycleOperation::NotificationAccepted => "protocol.lifecycle.notification_accepted"@,
        LifecycleOperation::NotificationCancelled {
            ..
        } => "protocol.lifecycle.notification_cancelled"@,
        LifecycleOperation::ElicitationComplete {
            ..
        } => "protocol.lifecycle.elicitation_complete"@,
        LifecycleOperation::RootsListChanged => "protocol.lifecycle.roots_list_changed"@,
    }
}

/// The name of a request for what the gateway offers.
pub open spec fn capability_text(op: CapabilityOperation) -> Seq<char> {
    match op {
        CapabilityOperation::ToolsList { .. } => "protocol.capabilities.tools_list"@,
        CapabilityOperation::PromptsList { .. } => "protocol.capabilities.prompts_list"@,
        CapabilityOperation::PromptsGet { .. } => "protocol.capabilities.prompts_get"@,
        CapabilityOperation::ResourcesList { .. } => "protocol.capabilities.resources_list"@,
        CapabilityOperation::ResourcesRead { .. } => "protocol.capabilities.resources_read"@,
        CapabilityOperation::ResourcesSubscribe {
            ..
        } => "protocol.capabilities.resources_subscribe"@,
        CapabilityOperation::ResourcesUnsubscribe {
            ..
        } => "protocol.capabilities.resources_unsubscribe"@,
        CapabilityOperation::ResourcesTemplatesList {
            ..
        } => "protocol.capabilities.resources_templates_list"@,
        CapabilityOperation::ToolsCall { .. } => "protocol.capabilities.tools_call"@,
        CapabilityOperation::Complete { .. } => "protocol.capabilities.completion_complete"@,
    }
}

/// The name of a message of the protocol.
pub open spec fn protocol_text(op: ProtocolOperation) -> Seq<char> {
    match op {
        ProtocolOperation::Lifecycle(o) => lifecycle_text(o),
        ProtocolOperation::Capabilities(o) => capability_text(o),
        ProtocolOperation::Tasks { operation, .. } => match operation {
            TaskOperation::Get => "protocol.tasks.get"@,
            TaskOperation::Result => "protocol.tasks.result"@,
            TaskOperation::Cancel => "protocol.tasks.cancel"@,
            TaskOperation::List => "protocol.tasks.list"@,
        },
        ProtocolOperation::SetLogLevel { .. } => "protocol.logging.set_level"@,
        ProtocolOperation::ServerRequestResponse { .. } => "protocol.server_request_response"@,
    }
}

impl ProtocolOperation {
    /// The name of the message.
    pub fn label(&self) -> (r: &'static str)
        ensures
            r@ == protocol_text(*self),
    {
        match self {
            ProtocolOperation::Lifecycle(op) => match op {
                LifecycleOperation::Initialize { .. } => "protocol.lifecycle.initialize",
                LifecycleOperation::Initialized => "protocol.lifecycle.initialized",
                LifecycleOperation::Ping { .. } => "protocol.lifecycle.ping",
                LifecycleOperation::NotificationAccepted => {
                    "protocol.lifecycle.notification_accepted"
                },
                LifecycleOperation::NotificationCancelled { .. } => {
                    "protocol.lifecycle.notification_cancelled"
                },
                LifecycleOperation::ElicitationComplete { .. } => {
                    "protocol.lifecycle.elicitation_complete"
                },
                LifecycleOperation::RootsListChanged => "protocol.lifecycle.roots_list_changed",
            },
            ProtocolOperation::Capabilities(op) => match op {
                CapabilityOperation::ToolsList { .. } => "protocol.capabilities.tools_list",
                CapabilityOperation::PromptsList { .. } => "protocol.capabilities.prompts_list",
                CapabilityOperation::PromptsGet { .. } => "protocol.capabilities.prompts_get",
                CapabilityOperation::ResourcesList { .. } => {
                    "protocol.capabilities.resources_list"
                },
                CapabilityOperation::ResourcesRead { .. } => {
                    "protocol.capabilities.resources_read"
                },
                CapabilityOperation::ResourcesSubscribe { .. } => {
                    "protocol.capabilities.resources_subscribe"
                },
                CapabilityOperation::ResourcesUnsubscribe { .. } => {
                    "protocol.capabilities.resources_unsubscribe"
                },
                CapabilityOperation::ResourcesTemplatesList { .. } => {
                    "protocol.capabilities.resources_templates_list"
                },
                CapabilityOperation::ToolsCall { .. } => "protocol.capabilities.tools_call",
                CapabilityOperation::Complete { .. } => {
                    "protocol.capabilities.completion_complete"
                },
            },
            ProtocolOperation::Tasks { operation, .. } => match operation {
                TaskOperation::Get => "protocol.tasks.get",
                TaskOperation::Result => "protocol.tasks.result",
                TaskOperation::Cancel => "protocol.tasks.cancel",
                TaskOperation::List => "protocol.tasks.list",
            },
            ProtocolOperation::SetLogLevel { .. } => "protocol.logging.set_level",
            ProtocolOperation::ServerRequestResponse { .. } => "protocol.server_request_response",
        }
    }
}

impl GatewayOperation {
    /// The name of what is asked.
    pub open spec fn label_text(&self) -> Seq<char> {
        match self {
            GatewayOperation::Diagnostics(
                DiagnosticsOperation::Readiness,
            ) => "diagnostics.readiness"@,
            GatewayOperation::Diagnostics(
                DiagnosticsOperation::Runtime,
            ) => "diagnostics.runtime"@,
            GatewayOperation::Protocol(op) => protocol_text(*op),
        }
    }

    /// The name of what is asked.
    pub fn label(&self) -> (r: &'static str)
        ensures
            r@ == self.label_text(),
    {
        match self {
            GatewayOperation::Diagnostics(DiagnosticsOperation::Readiness) => {
                "diagnostics.readiness"
            },
            GatewayOperation::Diagnostics(DiagnosticsOperation::Runtime) => "diagnostics.runtime",
            GatewayOperation::Protocol(op) => op.label(),
        }
    }
}

/// The id that a client gave to its request; notifications and answers have
/// none.
pub open spec fn client_id(op: ProtocolOperation) -> Option<json::Tree> {
    match op {
        ProtocolOperation::Lifecycle(LifecycleOperation::Initialize { request_id, .. }) => Some(
            request_id.tree(),
        ),
        ProtocolOperation::Lifecycle(LifecycleOperation::Ping { request_id }) => Some(
            request_id.tree(),
        ),
        ProtocolOperation::Lifecycle(_) => None,
        ProtocolOperation::Capabilities(o) => Some(capability_id(o)),
        ProtocolOperation::Tasks { request_id, .. } => Some(request_id.tree()),
        ProtocolOperation::SetLogLevel { request_id, .. } => Some(request_id.tree()),
        ProtocolOperation::ServerRequestResponse { .. } => None,
    }
}

/// The id of a request for what the gateway offers.
pub open spec fn capability_id(op: CapabilityOperation) -> json::Tree {
    match op {
        CapabilityOperation::ToolsList { request_id, .. } => request_id.tree(),
        CapabilityOperation::PromptsList { request_id, .. } => request_id.tree(),
        CapabilityOperation::PromptsGet { request_id, .. } => request_id.tree(),
        CapabilityOperation::ResourcesList { request_id, .. } => request_id.tree(),
        CapabilityOperation::ResourcesRead { request_id, .. } => request_id.tree(),
        CapabilityOperation::ResourcesSubscribe { request_id, .. } => request_id.tree(),
        CapabilityOperation::ResourcesUnsubscribe { request_id, .. } => request_id.tree(),
        CapabilityOperation::ResourcesTemplatesList { request_id, .. } => request_id.tree(),
        CapabilityOperation::ToolsCall { request_id, .. } => request_id.tree(),
        CapabilityOperation::Complete { request_id, .. } => request_id.tree(),
    }
}

impl ProtocolOperation {
    /// The id that the client gave to its request.
    pub fn client_request_id(&self) -> (r: Option<&Json>)
        ensures
            r.deep_view() == client_id(*self),
    {
        match self {
            ProtocolOperation::Lifecycle(op) => match op {
                LifecycleOperation::Initialize { request_id, .. } => Some(request_id),
                LifecycleOperation::Ping { request_id } => Some(request_id),
                _ => None,
            },
            ProtocolOperation::Capabilities(op) => match op {
                CapabilityOperation::ToolsList { request_id, .. } => Some(request_id),
                CapabilityOperation::PromptsList { request_id, .. } => Some(request_id),
                CapabilityOperation::PromptsGet { request_id, .. } => Some(request_id),
                CapabilityOperation::ResourcesList { request_id, .. } => Some(request_id),
                CapabilityOperation::ResourcesRead { request_id, .. } => Some(request_id),
                CapabilityOperation::ResourcesSubscribe { request_id, .. } => Some(request_id),
                CapabilityOperation::ResourcesUnsubscribe { request_id, .. } => Some(request_id),
                CapabilityOperation::ResourcesTemplatesList { request_id, .. } => Some(request_id),
                CapabilityOperation::ToolsCall { request_id, .. } => Some(request_id),
                CapabilityOperation::Complete { request_id, .. } => Some(request_id),
            },
            ProtocolOperation::Tasks { request_id, .. } => Some(request_id),
            ProtocolOperation::SetLogLevel { request_id, .. } => Some(request_id),
            ProtocolOperation::ServerRequestResponse { .. } => None,
        }
    }
}

/// A request, with what is known of it.
#[derive(Debug)]
pub struct GatewayRequest {
    pub context: RequestContext,
    pub operation: GatewayOperation,
}

impl GatewayRequest {
    /// A request.
    pub fn new(context: RequestContext, operation: GatewayOperation) -> (r: GatewayRequest)
        ensures
            r.context == context,
            r.operation == operation,
    {
        GatewayRequest { context, operation }
    }
}

/// What an answer holds.
#[derive(Debug)]
pub enum GatewayResponsePayload {
    /// Whether the gateway is ready, as JSON.
    Readiness(Json),
    /// How the gateway runs, as JSON.
    Runtime(Json),
    Protocol(ProtocolHttpResponse),
}

/// An answer, with the gateway's own id of its request.
#[derive(Debug)]
pub struct GatewayResponse {
    pub request_id: GatewayRequestId,
    pub payload: GatewayResponsePayload,
}

/// What a request needs.
#[derive(Debug)]
pub enum RequestStep {
    /// A look at whether the gateway is ready.
    Readiness,
    /// A look at how the gateway runs.
    Runtime,
    /// Its handler.
    Dispatch(ProtocolOperation),
    /// Nothing: it is refused.
    Refuse(ProtocolHttpResponse),
}

/// The answer to a request whose id its session has used before.
pub open spec fn duplicate_reply(request_id: json::Tree) -> protocol::ReplyView {
    protocol::error_reply(
        400,
        Some(request_id),
        -32600,
        "duplicate request id on this session"@,
        None,
    )
}

fn duplicate_response(request_id: Json) -> (r: ProtocolHttpResponse)
    ensures
        r.deep_view() == duplicate_reply(request_id.tree()),
{
    protocol_http_error(
        400,
        Some(request_id),
        -32600,
        "duplicate request id on this session".to_owned(),
        None,
    )
}

/// What handles a message of the protocol.
#[derive(Debug, Clone, Copy, PartialEq, Eq, Structural)]
pub enum HandlerKind {
    Lifecycle,
    ToolsCall,
    Completion,
    CapabilitiesList,
    Tasks,
    SetLogLevel,
    ServerRequestResponse,
}

/// What handles a message.
pub open spec fn handler_for(op: ProtocolOperation) -> HandlerKind {
    match op {
        ProtocolOperation::Lifecycle(_) => HandlerKind::Lifecycle,
        ProtocolOperation::Capabilities(CapabilityOperation::ToolsCall { .. }) => {
            HandlerKind::ToolsCall
        },
        ProtocolOperation::Capabilities(CapabilityOperation::Complete { .. }) => {
            HandlerKind::Completion
        },
        ProtocolOperation::Capabilities(_) => HandlerKind::CapabilitiesList,
        ProtocolOperation::Tasks { .. } => HandlerKind::Tasks,
        ProtocolOperation::SetLogLevel { .. } => HandlerKind::SetLogLevel,
        ProtocolOperation::ServerRequestResponse { .. } => HandlerKind::ServerRequestResponse,
    }
}

/// Which handlers a gateway has installed.
#[derive(Debug, Clone, Copy, PartialEq, Eq, Structural)]
pub struct HandlerSet {
    /// Whether the handlers of the wire's revisions are installed.
    pub installed: bool,
    pub legacy: bool,
    pub modern: bool,
}

impl HandlerSet {
    /// Whether there is a handler of a revision.
    pub open spec fn serves(self, version: ProtocolVersion) -> bool {
        match version {
            ProtocolVersion::V_2025_11_25 => self.legacy,
            ProtocolVersion::V_2026_07_28 => self.modern,
        }
    }

    /// Whether there is a handler of a revision.
    pub fn has(self, version: ProtocolVersion) -> (r: bool)
        ensures
            r == self.serves(version),
    {
        match version {
            ProtocolVersion::V_2025_11_25 => self.legacy,
            ProtocolVersion::V_2026_07_28 => self.modern,
        }
    }
}

/// By what a message of the legacy wire is handled.
#[derive(Debug, Clone, Copy, PartialEq, Eq, Structural)]
pub enum LegacyRoute {
    /// The runtime itself.
    Direct,
    /// The installed handler of the legacy wire.
    Handler,
}

/// The answer to a message that no handler takes.
pub open spec fn unhandled(
    handlers: HandlerSet,
    version: ProtocolVersion,
    jsonrpc_id: Option<json::Tree>,
) -> Option<protocol::ReplyView> {
    if !handlers.installed {
        Some(
            protocol::error_reply(
                500,
                jsonrpc_id,
                -32603,
                "gateway runtime not fully initialized"@,
                None,
            ),
        )
    } else if !handlers.serves(version) {
        Some(
            protocol::error_reply(
                500,
                jsonrpc_id,
                -32603,
                "no handler registered for the negotiated protocol version"@,
                None,
            ),
        )
    } else {
        None
    }
}

/// Whether the check of an answer that is to be given again came out right:
/// given the decision of the policy gate and the refusal of the layers together,
/// the layers count where every one of them is asked.
pub open spec fn replay_checked(
    every_layer: bool,
    decision: policy::DecisionView,
    refusal: Option<protocol::ReplyView>,
    r: ReplayCheck,
) -> bool {
    if every_layer {
        match refusal {
            Some(reply) => r matches ReplayCheck::Refused(a) && a.deep_view() == reply,
            None => r == ReplayCheck::Authorized,
        }
    } else if decision == policy::DecisionView::Allow {
        r == ReplayCheck::Authorized
    } else {
        r == ReplayCheck::Revoked
    }
}

/// The gateway: how it is set up, and what its decisions rest on.
pub struct GatewayRuntime {
    pub debug_enabled: bool,
    pub call_settings: CallSettings,
    /// Whether a kept answer is given again only after every layer allows it; the
    /// built-in policy is asked in any case.
    pub idempotency_replay_revalidation: bool,
    /// The policy engines, in the order in which they are asked.
    pub policy_chain: Vec<String>,
    pub pre_dispatch_policy: PreDispatchPolicyGate,
    pub completion_limiter: CompletionLimiter,
    pub handlers: HandlerSet,
}

impl GatewayRuntime {
    /// What may be told about the failure of a request.
    pub fn debug_info(&self, request_context: &RequestContext) -> (r: DebugInfo)
        ensures
            r.enabled == self.debug_enabled,
            r.request_id@ == request_context.request_id.text(),
    {
        DebugInfo::for_request(self.debug_enabled, request_context)
    }

    /// What the policy engines have come to, given what the first of them answered
    /// in their order: the decision, or the engine to ask next.
    pub fn evaluate_pre_dispatch_policy_chain(&self, answers: &Vec<PolicyDecision>) -> (r:
        ChainStep)
        requires
            answers@.len() <= self.policy_chain@.len(),
        ensures
            policy_eval::chain_at(self.policy_chain@, answers@, r),
    {
        policy_eval::chain_after(&self.policy_chain, answers)
    }

    /// What a policy engine says, given its answer; an engine that is not known
    /// has nothing to say.
    pub fn evaluate_policy(&self, answer: Option<PolicyDecision>) -> (r: PolicyDecision)
        ensures
            match answer {
                Some(d) => r == d,
                None => r.effect == PolicyEffect::NotApplicable && r.policy_version@ == ""@
                    && r.reason@ == ""@,
            },
    {
        match answer {
            Some(d) => d,
            None => PolicyDecision {
                effect: PolicyEffect::NotApplicable,
                reason: "".to_owned(),
                policy_version: "".to_owned(),
            },
        }
    }

    /// Sets how many completions a second each session may ask for. Zero, as no
    /// number, lets everything pass.
    pub fn set_completion_rate_limit(&mut self, per_sec: Option<u64>)
        ensures
            final(self).completion_limiter.limit() == per_sec,
            final(self).completion_limiter.contents() == old(self).completion_limiter.contents(),
            *final(self) == (GatewayRuntime {
                completion_limiter: final(self).completion_limiter,
                ..*old(self)
            }),
    {
        self.completion_limiter.set_completion_rate_limit(per_sec);
    }

    /// What the policy gate would decide on a call of a tool by a given identity.
    pub fn evaluate_policy_for_preview(
        &mut self,
        tool_name: &str,
        identity: &TestIdentity,
        now: u64,
    ) -> (r: String)
        ensures
            *final(self) == (GatewayRuntime {
                pre_dispatch_policy: final(self).pre_dispatch_policy,
                ..*old(self)
            }),
            exists|d: policy::DecisionView| #[trigger]
                final(self).pre_dispatch_policy.answered(
                    old(self).pre_dispatch_policy,
                    policy_eval::preview_input(tool_name@, *identity),
                    now as int,
                    d,
                ) && r@ == (if d == policy::DecisionView::Allow {
                    "allow"@
                } else {
                    "deny"@
                }),
    {
        policy_eval::evaluate_policy_for_preview(
            &mut self.pre_dispatch_policy,
            tool_name,
            identity,
            now,
        )
    }

    /// Takes a call of a tool in and says what it waits for first, or answers it
    /// at once. `loaded` is what the session store answers, and `tool` what the
    /// registry knows of the tool.
    pub fn handle_tools_call(
        &self,
        request_id: Json,
        params: ToolCallParams,
        request_context: &RequestContext,
        slot: &mut SessionSlot,
        loaded: Result<SessionSnapshot, SessionAccessError>,
        tool: Option<ToolInfo>,
    ) -> (r: Result<(ToolCall, CallStage), Answer>)
        ensures
            final(slot).looked_up(*old(slot), loaded),
            exists|info: DebugInfo|
                {
                    &&& info.enabled == self.debug_enabled
                    &&& info.request_id@ == request_context.request_id.text()
                    &&& notes::refused(r) == #[trigger] tool_admission::admission_refusal(
                        context::usable(
                            context::effective(old(slot).known(), loaded),
                            true,
                        ),
                        tool,
                        params,
                        request_context.negotiated_version,
                        request_id.tree(),
                        info,
                    )
                },
            r matches Ok((call, stage)) ==> tool_admission::admitted(
                call,
                params,
                *request_context,
                tool->0,
                request_id.tree(),
                self.call_settings,
            ) && stage.deep_view() == tools_call::first(call),
    {
        let info: DebugInfo = self.debug_info(request_context);
        match ToolCall::take_in(
            request_id,
            params,
            request_context,
            slot,
            loaded,
            tool,
            self.call_settings,
            &info,
        ) {
            Ok(call) => {
                let stage: CallStage = call.start();
                Ok((call, stage))
            },
            Err(answer) => Err(answer),
        }
    }

    /// Whether the caller of a call that was answered before may have the answer
    /// again. Every layer is asked where the gateway is set up so, given what
    /// each would say, and the built-in policy alone where it is not.
    pub fn check_replay(
        &mut self,
        surface: &SurfaceGate,
        request_context: &RequestContext,
        chain: PolicyChainOutcome,
        gates: GateDecision,
        approval: ApprovalOutcome,
        info: &DebugInfo,
        now: u64,
    ) -> (r: ReplayCheck)
        ensures
            *final(self) == (GatewayRuntime {
                pre_dispatch_policy: final(self).pre_dispatch_policy,
                ..*old(self)
            }),
            if old(self).idempotency_replay_revalidation && chain is Deny {
                &&& *final(self) == *old(self)
                &&& r matches ReplayCheck::Refused(a)
                &&& a.deep_view() == policy_eval::chain_step(
                    *surface,
                    chain,
                    *info,
                )->Refused_response
            } else {
                exists|d: policy::DecisionView|
                    {
                        &&& #[trigger] final(self).pre_dispatch_policy.answered(
                            old(self).pre_dispatch_policy,
                            policy::input_of(
                                request_context.identity.deep_view(),
                                surface.backend_name@,
                            ),
                            now as int,
                            d,
                        )
                        &&& replay_checked(
                            old(self).idempotency_replay_revalidation,
                            d,
                            policy_eval::surface_refusal(
                                *surface,
                                chain,
                                d,
                                gates,
                                approval,
                                *info,
                            ),
                            r,
                        )
                    }
            },
    {
        if self.idempotency_replay_revalidation {
            ReplayCheck::by_surface_gate(
                surface.evaluate_surface_gate(
                    &mut self.pre_dispatch_policy,
                    request_context,
                    chain,
                    gates,
                    approval,
                    info,
                    now,
                ),
            )
        } else {
            let outcome: PreDispatchPolicyOutcome = surface.ask_policy(
                &mut self.pre_dispatch_policy,
                request_context,
                now,
            );
            let ghost d = outcome.deep_view();
            ReplayCheck::by_policy(&outcome)
        }
    }

    /// Starts a wait for the end of a task, as long as the task store is set to
    /// wait.
    pub fn wait_for_task_terminal(&self, result_wait_ms: u64, now_ms: u64) -> (r: TaskWait)
        requires
            now_ms + tasks::wait_length(result_wait_ms) <= u64::MAX,
        ensures
            r.deadline_ms == now_ms + tasks::wait_length(result_wait_ms),
    {
        TaskWait::starting(result_wait_ms, now_ms)
    }

    /// What a request needs. `repeated` says whether the session has used the
    /// request's id before; requests without an id are never refused for it.
    pub fn handle_request(&self, request: GatewayRequest, repeated: bool) -> (r: (
        RequestContext,
        RequestStep,
    ))
        ensures
            r.0 == request.context,
            match request.operation {
                GatewayOperation::Diagnostics(DiagnosticsOperation::Readiness) => r.1
                    == RequestStep::Readiness,
                GatewayOperation::Diagnostics(DiagnosticsOperation::Runtime) => r.1
                    == RequestStep::Runtime,
                GatewayOperation::Protocol(op) => if repeated && client_id(op) is Some {
                    r.1 matches RequestStep::Refuse(a) && a.deep_view() == duplicate_reply(
                        client_id(op)->0,
                    )
                } else {
                    r.1 == RequestStep::Dispatch(op)
                },
            },
    {
        let step: RequestStep = match request.operation {
            GatewayOperation::Diagnostics(DiagnosticsOperation::Readiness) => {
                RequestStep::Readiness
            },
            GatewayOperation::Diagnostics(DiagnosticsOperation::Runtime) => RequestStep::Runtime,
            GatewayOperation::Protocol(op) => {
                let used: Option<Json> = if repeated {
                    json::copy_opt(op.client_request_id())
                } else {
                    None
                };
                match used {
                    Some(id) => RequestStep::Refuse(duplicate_response(id)),
                    None => RequestStep::Dispatch(op),
                }
            },
        };
        (request.context, step)
    }

    /// The answer to a request: it carries the gateway's own id of the request.
    pub fn respond(&self, context: RequestContext, payload: GatewayResponsePayload) -> (r:
        GatewayResponse)
        ensures
            r.request_id == context.request_id,
            r.payload == payload,
    {
        GatewayResponse { request_id: context.request_id, payload }
    }

    /// The answer to a message that is not handled: one whose id its session has
    /// used before, or one that no handler takes.
    pub fn handle_protocol_message(
        &self,
        jsonrpc_id: Option<Json>,
        version: ProtocolVersion,
        repeated: bool,
    ) -> (r: Option<ProtocolHttpResponse>)
        ensures
            r.deep_view() == (if repeated && jsonrpc_id is Some {
                Some(duplicate_reply(jsonrpc_id->0.tree()))
            } else {
                unhandled(self.handlers, version, jsonrpc_id.deep_view())
            }),
    {
        match jsonrpc_id {
            Some(id) => {
                if repeated {
                    Some(duplicate_response(id))
                } else {
                    self.dispatch_protocol_message(Some(id), version)
                }
            },
            None => self.dispatch_protocol_message(None, version),
        }
    }

    /// The answer to a message that no handler takes.
    pub fn dispatch_protocol_message(&self, jsonrpc_id: Option<Json>, version: ProtocolVersion) -> (r:
        Option<ProtocolHttpResponse>)
        ensures
            r.deep_view() == unhandled(self.handlers, version, jsonrpc_id.deep_view()),
    {
        if !self.handlers.installed {
            return Some(
                protocol_http_error(
                    500,
                    jsonrpc_id,
                    -32603,
                    "gateway runtime not fully initialized".to_owned(),
                    None,
                ),
            );
        }
        if !self.handlers.has(version) {
            return Some(
                protocol_http_error(
                    500,
                    jsonrpc_id,
                    -32603,
                    "no handler registered for the negotiated protocol version".to_owned(),
                    None,
                ),
            );
        }
        None
    }

    /// By what a message of the legacy wire is handled: by the handler of that
    /// wire, never by another revision's, and by the runtime itself where there
    /// is none.
    pub fn dispatch_protocol(&self) -> (r: LegacyRoute)
        ensures
            r == (if self.handlers.installed && self.handlers.legacy {
                LegacyRoute::Handler
            } else {
                LegacyRoute::Direct
            }),
    {
        if self.handlers.installed && self.handlers.legacy {
            LegacyRoute::Handler
        } else {
            LegacyRoute::Direct
        }
    }

    /// What handles a message.
    pub fn handle_protocol_operation(&self, operation: &ProtocolOperation) -> (r: HandlerKind)
        ensures
            r == handler_for(*operation),
    {
        match operation {
            ProtocolOperation::Lifecycle(_) => HandlerKind::Lifecycle,
            ProtocolOperation::Capabilities(CapabilityOperation::ToolsCall { .. }) => {
                HandlerKind::ToolsCall
            },
            ProtocolOperation::Capabilities(CapabilityOperation::Complete { .. }) => {
                HandlerKind::Completion
            },
            ProtocolOperation::Capabilities(_) => HandlerKind::CapabilitiesList,
            ProtocolOperation::Tasks { .. } => HandlerKind::Tasks,
            ProtocolOperation::SetLogLevel { .. } => HandlerKind::SetLogLevel,
            ProtocolOperation::ServerRequestResponse { .. } => {
                HandlerKind::ServerRequestResponse
            },
        }
    }
}

/// Answers a client that set the log level of its session, given whether the
/// session could be found. `level` is the name of the level in lower case.
pub fn set_log_level_response(
    request_id: Json,
    level: &str,
    stored: Result<(), SessionAccessError>,
) -> (r: Answer)
    ensures
        r.deep_view() == (match stored {
            Ok(_) => notes::noted(
                protocol::success_reply(request_id.tree(), json::Tree::Object(Map::empty())),
                notes::NoteView::LogLevelSet { level: level@ },
            ),
            Err(e) => notes::plain(
                policy_eval::session_error_reply(e, Some(request_id.tree())),
            ),
        }),
{
    match stored {
        Ok(_) => Answer::noted(
            protocol_http_success(request_id, Json::object()),
            CallNote::LogLevelSet { level: level.to_owned() },
        ),
        Err(e) => Answer::plain(map_session_error_to_protocol_response(e, Some(request_id))),
    }
}

/// Answers a client whose answer to the gateway comes outside a usable session.
pub fn server_response_start(
    request_context: &RequestContext,
    slot: &mut SessionSlot,
    loaded: Result<SessionSnapshot, SessionAccessError>,
) -> (r: Result<(), ProtocolHttpResponse>)
    ensures
        final(slot).looked_up(*old(slot), loaded),
        policy_eval::refusal_view(r) == (match context::usable(
            context::effective(old(slot).known(), loaded),
            true,
        ) {
            Ok(_) => None,
            Err(e) => Some(policy_eval::session_error_reply(e, None)),
        }),
{
    match request_context.load_session_cached(slot, loaded, true) {
        Ok(_) => Ok(()),
        Err(e) => Err(map_session_error_to_protocol_response(e, None)),
    }
}

/// Notifications and answers have no id, and are never taken for repeated.
pub proof fn law_notifications_are_never_repeated(op: ProtocolOperation)
    requires
        op is ServerRequestResponse || (op matches ProtocolOperation::Lifecycle(l) && !(
        l is Initialize) && !(l is Ping)),
    ensures
        client_id(op) is None,
{
}

/// A request that its session has sent before is refused under its own id, and no
/// message without an id ever is; every other message is handed on as it came, and
/// what is known of the request stays as it was.
pub proof fn law_repeated_requests_are_refused(
    runtime: GatewayRuntime,
    request: GatewayRequest,
    repeated: bool,
    r: (RequestContext, RequestStep),
)
    requires
        call_ensures(GatewayRuntime::handle_request, (&runtime, request, repeated), r),
    ensures
        r.0 == request.context,
        request.operation matches GatewayOperation::Protocol(op) ==> match r.1 {
            RequestStep::Dispatch(handed) => handed == op && !(repeated && client_id(op) is Some),
            RequestStep::Refuse(a) => repeated && a.http_status == 400 && (a.response.deep_view()
                matches protocol::BodyView::Error { id, code, .. } && id == client_id(op) && id
                is Some && code == -32600),
            _ => false,
        },
        request.operation matches GatewayOperation::Diagnostics(op) ==> match op {
            DiagnosticsOperation::Readiness => r.1 is Readiness,
            DiagnosticsOperation::Runtime => r.1 is Runtime,
        },
{
}

/// The id of a request is the one that the client gave it, whatever it asks for;
/// notifications and answers have none.
pub proof fn law_requests_are_known_by_their_id(op: ProtocolOperation)
    ensures
        match op {
            ProtocolOperation::Lifecycle(LifecycleOperation::Initialize { request_id, .. }) => {
                client_id(op) == Some(request_id.tree())
            },
            ProtocolOperation::Lifecycle(LifecycleOperation::Ping { request_id }) => client_id(op)
                == Some(request_id.tree()),
            ProtocolOperation::Lifecycle(_) => client_id(op) is None,
            ProtocolOperation::Capabilities(c) => client_id(op) == Some(
                (match c {
                    CapabilityOperation::ToolsList { request_id, .. } => request_id,
                    CapabilityOperation::PromptsList { request_id, .. } => request_id,
                    CapabilityOperation::PromptsGet { request_id, .. } => request_id,
                    CapabilityOperation::ResourcesList { request_id, .. } => request_id,
                    CapabilityOperation::ResourcesRead { request_id, .. } => request_id,
                    CapabilityOperation::ResourcesSubscribe { request_id, .. } => request_id,
                    CapabilityOperation::ResourcesUnsubscribe { request_id, .. } => request_id,
                    CapabilityOperation::ResourcesTemplatesList { request_id, .. } => request_id,
                    CapabilityOperation::ToolsCall { request_id, .. } => request_id,
                    CapabilityOperation::Complete { request_id, .. } => request_id,
                }).tree(),
            ),
            ProtocolOperation::Tasks { request_id, .. } => client_id(op) == Some(request_id.tree()),
            ProtocolOperation::SetLogLevel { request_id, .. } => client_id(op) == Some(
                request_id.tree(),
            ),
            ProtocolOperation::ServerRequestResponse { .. } => client_id(op) is None,
        },
{
}

/// Each message goes to the handler of its kind, and to no other.
pub proof fn law_messages_find_their_handler(op: ProtocolOperation)
    ensures
        handler_for(op) is Lifecycle <==> op is Lifecycle,
        handler_for(op) is ToolsCall <==> (op matches ProtocolOperation::Capabilities(c) && c
            is ToolsCall),
        handler_for(op) is Completion <==> (op matches ProtocolOperation::Capabilities(c) && c
            is Complete),
        handler_for(op) is CapabilitiesList <==> (op matches ProtocolOperation::Capabilities(c)
            && !(c is ToolsCall) && !(c is Complete)),
        handler_for(op) is Tasks <==> op is Tasks,
        handler_for(op) is SetLogLevel <==> op is SetLogLevel,
        handler_for(op) is ServerRequestResponse <==> op is ServerRequestResponse,
{
}

/// A message is handled exactly where the handlers are installed and there is one
/// of its revision: a revision is never served by another's handler. A message that
/// is not handled is told so under its own id.
pub proof fn law_revisions_have_their_own_handler(
    handlers: HandlerSet,
    version: ProtocolVersion,
    id: Option<json::Tree>,
)
    ensures
        unhandled(handlers, version, id) is None <==> handlers.installed && (version is V_2025_11_25
            ==> handlers.legacy) && (version is V_2026_07_28 ==> handlers.modern),
        unhandled(handlers, version, id) matches Some(a) ==> a.http_status == 500 && (a.body
            matches protocol::BodyView::Error { id: i, code, .. } && i == id && code == -32603),
{
}

/// A repeated message is refused before anything else, under its own id.
pub proof fn law_repetition_is_noticed_first(
    runtime: GatewayRuntime,
    id: Option<Json>,
    version: ProtocolVersion,
    repeated: bool,
    r: Option<ProtocolHttpResponse>,
)
    requires
        call_ensures(
            GatewayRuntime::handle_protocol_message,
            (&runtime, id, version, repeated),
            r,
        ),
    ensures
        repeated ==> (id matches Some(i) ==> (r matches Some(a) && a.http_status == 400 && (
        a.response.deep_view() matches protocol::BodyView::Error { id: told, code, .. } && told
            == Some(i.tree()) && code == -32600))),
        !repeated ==> (r is None <==> unhandled(
            runtime.handlers,
            version,
            id.deep_view(),
        ) is None),
{
}

/// A message of the legacy wire goes to that wire's handler where there is one, and
/// never to the handler of another revision.
pub proof fn law_legacy_messages_stay_legacy(runtime: GatewayRuntime, r: LegacyRoute)
    requires
        call_ensures(GatewayRuntime::dispatch_protocol, (&runtime,), r),
    ensures
        r is Handler <==> runtime.handlers.installed && runtime.handlers.legacy,
{
}

/// An answer carries the gateway's own id of the request that it answers.
pub proof fn law_answers_carry_the_request_id(
    runtime: GatewayRuntime,
    context: RequestContext,
    payload: GatewayResponsePayload,
    r: GatewayResponse,
)
    requires
        call_ensures(GatewayRuntime::respond, (&runtime, context, payload), r),
    ensures
        r.request_id == context.request_id,
        r.payload == payload,
{
}

/// A kept answer is given again only where the layers that are asked allow it: all
/// of them where the gateway asks them all, and else the built-in policy alone.
pub proof fn law_replays_need_what_calls_need(
    every_layer: bool,
    decision: policy::DecisionView,
    refusal: Option<protocol::ReplyView>,
    r: ReplayCheck,
)
    requires
        replay_checked(every_layer, decision, refusal, r),
    ensures
        r is Authorized <==> (if every_layer {
            refusal is None
        } else {
            decision is Allow
        }),
        r matches ReplayCheck::Refused(a) ==> every_layer && refusal == Some(a.deep_view()),
{
}

/// A policy engine that is not known has nothing to say, and one that answered says
/// just that.
pub proof fn law_engines_speak_for_themselves(
    runtime: GatewayRuntime,
    answer: Option<PolicyDecision>,
    r: PolicyDecision,
)
    requires
        call_ensures(GatewayRuntime::evaluate_policy, (&runtime, answer), r),
    ensures
        answer matches Some(d) ==> r == d,
        answer is None ==> r.effect is NotApplicable,
{
}

/// The names of what is asked tell the kinds of requests apart.
#[verifier::rlimit(40)]
pub proof fn law_labels_name_the_operation(op: GatewayOperation)
    ensures
        match op {
            GatewayOperation::Protocol(ProtocolOperation::Capabilities(c)) => op.label_text()
                == "protocol.capabilities."@ + (match c {
                CapabilityOperation::ToolsList { .. } => "tools_list"@,
                CapabilityOperation::PromptsList { .. } => "prompts_list"@,
                CapabilityOperation::PromptsGet { .. } => "prompts_get"@,
                CapabilityOperation::ResourcesList { .. } => "resources_list"@,
                CapabilityOperation::ResourcesRead { .. } => "resources_read"@,
                CapabilityOperation::ResourcesSubscribe { .. } => "resources_subscribe"@,
                CapabilityOperation::ResourcesUnsubscribe { .. } => "resources_unsubscribe"@,
                CapabilityOperation::ResourcesTemplatesList { .. } => "resources_templates_list"@,
                CapabilityOperation::ToolsCall { .. } => "tools_call"@,
                CapabilityOperation::Complete { .. } => "completion_complete"@,
            }),
            GatewayOperation::Protocol(ProtocolOperation::Tasks { operation, .. }) => {
                op.label_text() == "protocol.tasks."@ + (match operation {
                    TaskOperation::Get => "get"@,
                    TaskOperation::Result => "result"@,
                    TaskOperation::Cancel => "cancel"@,
                    TaskOperation::List => "list"@,
                })
            },
            _ => true,
        },
{
    reveal_strlit("protocol.capabilities.");
    reveal_strlit("protocol.tasks.");
    reveal_strlit("tools_list");
    reveal_strlit("prompts_list");
    reveal_strlit("prompts_get");
    reveal_strlit("resources_list");
    reveal_strlit("resources_read");
    reveal_strlit("resources_subscribe");
    reveal_strlit("resources_unsubscribe");
    reveal_strlit("resources_templates_list");
    reveal_strlit("tools_call");
    reveal_strlit("completion_complete");
    reveal_strlit("get");
    reveal_strlit("result");
    reveal_strlit("cancel");
    reveal_strlit("list");
    reveal_strlit("protocol.capabilities.tools_list");
    reveal_strlit("protocol.capabilities.prompts_list");
    reveal_strlit("protocol.capabilities.prompts_get");
    reveal_strlit("protocol.capabilities.resources_list");
    reveal_strlit("protocol.capabilities.resources_read");
    reveal_strlit("protocol.capabilities.resources_subscribe");
    reveal_strlit("protocol.capabilities.resources_unsubscribe");
    reveal_strlit("protocol.capabilities.resources_templates_list");
    reveal_strlit("protocol.capabilities.tools_call");
    reveal_strlit("protocol.capabilities.completion_complete");
    reveal_strlit("protocol.tasks.get");
    reveal_strlit("protocol.tasks.result");
    reveal_strlit("protocol.tasks.cancel");
    reveal_strlit("protocol.tasks.list");
}

/// A client that set its log level is answered under its own id and the level goes
/// on record; one whose session cannot be used is told why.
pub proof fn law_log_levels_are_confirmed(
    request_id: Json,
    level: &str,
    stored: Result<(), SessionAccessError>,
    r: Answer,
)
    requires
        call_ensures(set_log_level_response, (request_id, level, stored), r),
    ensures
        stored is Ok ==> r.deep_view().response.http_status == 200 && (r.deep_view().response.body
            matches protocol::BodyView::Success { id, .. } && id == request_id.tree())
            && r.deep_view().notes.contains(notes::NoteView::LogLevelSet { level: level@ }),
        stored is Err ==> (r.deep_view().response.body matches protocol::BodyView::Error { id, .. }
            && id == Some(request_id.tree())) && r.deep_view().notes.len() == 0,
{
    if stored is Ok {
        assert(r.deep_view().notes[0] == (notes::NoteView::LogLevelSet { level: level@ }));
    }
}

/// An answer to a question of the gateway is taken where its session is operational,
/// and refused under no id otherwise.
pub proof fn law_answers_need_a_session(
    request_context: RequestContext,
    slot: &mut SessionSlot,
    loaded: Result<SessionSnapshot, SessionAccessError>,
    r: Result<(), ProtocolHttpResponse>,
)
    requires
        call_ensures(server_response_start, (&request_context, slot, loaded), r),
        old(slot).known() is None,
    ensures
        r is Ok <==> (loaded matches Ok(s) && s.phase is Operational),
        r matches Err(a) ==> (a.deep_view().body matches protocol::BodyView::Error { id, .. }
            && id is None),
{
}

/// The gateway takes a call in as its settings say and starts it at its first stage; a
/// call whose session is not operational or whose tool is unknown it answers at once,
/// under the call's own id.
pub proof fn law_gateways_take_calls_in(
    runtime: GatewayRuntime,
    request_id: Json,
    params: ToolCallParams,
    request_context: RequestContext,
    slot: &mut SessionSlot,
    loaded: Result<SessionSnapshot, SessionAccessError>,
    tool: Option<ToolInfo>,
    r: Result<(ToolCall, CallStage), Answer>,
)
    requires
        call_ensures(
            GatewayRuntime::handle_tools_call,
            (&runtime, request_id, params, &request_context, slot, loaded, tool),
            r,
        ),
        old(slot).known() is None,
    ensures
        r is Ok ==> tool is Some && (loaded matches Ok(s) && s.phase is Operational),
        r matches Ok((call, stage)) ==> {
            &&& call.settings == runtime.call_settings
            &&& call.name@ == params.name@
            &&& call.arguments.deep_view() == params.arguments.deep_view()
            &&& call.request_id.tree() == request_id.tree()
            &&& call.correlation_id@ == request_context.request_id.text()
            &&& stage.deep_view() == (if runtime.call_settings.dedupe && call.key is Some
                && call.scope is Some {
                tools_call::StageView::Peek
            } else {
                tools_call::StageView::Chain
            })
        },
        r matches Err(a) ==> (a.deep_view().response.body matches protocol::BodyView::Error {
            id,
            ..
        } && id == Some(request_id.tree())),
{
    let info = choose|info: DebugInfo|
        {
            &&& info.enabled == runtime.debug_enabled
            &&& info.request_id@ == request_context.request_id.text()
            &&& notes::refused(r) == #[trigger] tool_admission::admission_refusal(
                context::usable(context::effective(old(slot).known(), loaded), true),
                tool,
                params,
                request_context.negotiated_version,
                request_id.tree(),
                info,
            )
        };
    let session = context::usable(context::effective(old(slot).known(), loaded), true);
    if r is Err {
        tool_admission::law_refused_calls_are_told_why(
            session,
            tool,
            params,
            request_context.negotiated_version,
            request_id.tree(),
            info,
        );
    } else {
        tool_admission::law_only_sound_calls_are_taken_in(
            session,
            tool,
            params,
            request_context.negotiated_version,
            request_id.tree(),
            info,
        );
    }
}

/// A repeated call may have its answer again only where the engines do not refuse it,
/// if all layers are asked anew; what they refuse is told.
pub proof fn law_replays_are_refused_by_the_engines(
    runtime: &mut GatewayRuntime,
    surface: SurfaceGate,
    request_context: RequestContext,
    chain: PolicyChainOutcome,
    gates: GateDecision,
    approval: ApprovalOutcome,
    info: DebugInfo,
    now: u64,
    r: ReplayCheck,
)
    requires
        call_ensures(
            GatewayRuntime::check_replay,
            (runtime, &surface, &request_context, chain, gates, approval, &info, now),
            r,
        ),
    ensures
        old(runtime).idempotency_replay_revalidation && chain is Deny ==> r is Refused,
        old(runtime).idempotency_replay_revalidation ==> !(r is Revoked),
        !old(runtime).idempotency_replay_revalidation ==> !(r is Refused),
        final(runtime).idempotency_replay_revalidation == old(runtime).idempotency_replay_revalidation,
        final(runtime).call_settings == old(runtime).call_settings,
{
}

/// The names of messages of the session's life and of all else tell them apart.
#[verifier::rlimit(40)]
pub proof fn law_labels_name_the_message(op: GatewayOperation, r: &str)
    requires
        call_ensures(GatewayOperation::label, (&op,), r),
    ensures
        op matches GatewayOperation::Protocol(ProtocolOperation::Lifecycle(l)) ==> r@
            == "protocol.lifecycle."@ + (match l {
            LifecycleOperation::Initialize { .. } => "initialize"@,
            LifecycleOperation::Initialized => "initialized"@,
            LifecycleOperation::Ping { .. } => "ping"@,
            LifecycleOperation::NotificationAccepted => "notification_accepted"@,
            LifecycleOperation::NotificationCancelled { .. } => "notification_cancelled"@,
            LifecycleOperation::ElicitationComplete { .. } => "elicitation_complete"@,
            LifecycleOperation::RootsListChanged => "roots_list_changed"@,
        }),
        op matches GatewayOperation::Diagnostics(d) ==> r@ == "diagnostics."@ + (match d {
            DiagnosticsOperation::Readiness => "readiness"@,
            DiagnosticsOperation::Runtime => "runtime"@,
        }),
        op matches GatewayOperation::Protocol(ProtocolOperation::SetLogLevel { .. }) ==> r@
            == "protocol.logging.set_level"@,
        op matches GatewayOperation::Protocol(ProtocolOperation::ServerRequestResponse { .. })
            ==> r@ == "protocol.server_request_response"@,
{
    reveal_strlit("protocol.lifecycle.");
    reveal_strlit("initialize");
    reveal_strlit("initialized");
    reveal_strlit("ping");
    reveal_strlit("notification_accepted");
    reveal_strlit("notification_cancelled");
    reveal_strlit("elicitation_complete");
    reveal_strlit("roots_list_changed");
    reveal_strlit("diagnostics.");
    reveal_strlit("readiness");
    reveal_strlit("runtime");
    reveal_strlit("protocol.lifecycle.initialize");
    reveal_strlit("protocol.lifecycle.initialized");
    reveal_strlit("protocol.lifecycle.ping");
    reveal_strlit("protocol.lifecycle.notification_accepted");
    reveal_strlit("protocol.lifecycle.notification_cancelled");
    reveal_strlit("protocol.lifecycle.elicitation_complete");
    reveal_strlit("protocol.lifecycle.roots_list_changed");
    reveal_strlit("diagnostics.readiness");
    reveal_strlit("diagnostics.runtime");
}

/// Setting how many completions a session may ask for sets that and nothing else.
pub proof fn law_completion_limits_are_set(runtime: &mut GatewayRuntime, per_sec: Option<u64>)
    requires
        call_ensures(GatewayRuntime::set_completion_rate_limit, (runtime, per_sec), ()),
    ensures
        final(runtime).completion_limiter.limit() == per_sec,
        final(runtime).completion_limiter.contents() == old(runtime).completion_limiter.contents(),
        final(runtime).call_settings == old(runtime).call_settings,
        final(runtime).handlers == old(runtime).handlers,
        final(runtime).debug_enabled == old(runtime).debug_enabled,
{
}

/// What may be told about a request is told where debugging is switched on, under the
/// gateway's own id of the request.
pub proof fn law_debugging_is_what_is_set(
    runtime: GatewayRuntime,
    request_context: RequestContext,
    r: DebugInfo,
)
    requires
        call_ensures(GatewayRuntime::debug_info, (&runtime, &request_context), r),
    ensures
        r.enabled <==> runtime.debug_enabled,
        r.request_id@ == request_context.request_id.text(),
{
}

/// A kept answer is given again only to a caller that the policies still let pass, and
/// where the built-in policy alone is asked, to every such caller: here for a tool
/// without a rule of its own, and without conditions or a cache.
pub proof fn law_replays_need_the_trust_of_calls(
    runtime: &mut GatewayRuntime,
    surface: SurfaceGate,
    request_context: RequestContext,
    chain: PolicyChainOutcome,
    gates: GateDecision,
    approval: ApprovalOutcome,
    info: DebugInfo,
    now: u64,
    r: ReplayCheck,
)
    requires
        call_ensures(
            GatewayRuntime::check_replay,
            (runtime, &surface, &request_context, chain, gates, approval, &info, now),
            r,
        ),
        old(runtime).pre_dispatch_policy.cache is None,
        old(runtime).pre_dispatch_policy.tool_access_policy.cel_allow_if is None,
        old(runtime).pre_dispatch_policy.tool_access_policy.applicable(surface.backend_name@)
            is None,
    ensures
        ({
            let enough = policy_gate::trusted_for(
                request_context.identity,
                old(runtime).pre_dispatch_policy.tool_access_policy.default_minimum_trust,
            );
            &&& r is Authorized ==> enough
            &&& !old(runtime).idempotency_replay_revalidation ==> (r is Authorized <==> enough)
        }),
{
    let before = old(runtime).pre_dispatch_policy;
    let after = final(runtime).pre_dispatch_policy;
    let input = policy::input_of(request_context.identity.deep_view(), surface.backend_name@);
    if !(old(runtime).idempotency_replay_revalidation && chain is Deny) {
        let d = choose|d: policy::DecisionView|
            {
                &&& #[trigger] after.answered(before, input, now as int, d)
                &&& replay_checked(
                    old(runtime).idempotency_replay_revalidation,
                    d,
                    policy_eval::surface_refusal(surface, chain, d, gates, approval, info),
                    r,
                )
            };
        assert(before.tool_access_policy.decides(input, d));
    }
}

} // verus!
