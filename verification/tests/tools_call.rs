use mcpg_runtime::clock::Timestamp;
use mcpg_runtime::context::{
    RequestContext, SessionAccessError, SessionPhase, SessionSlot, SessionSnapshot,
};
use mcpg_runtime::handlers::backend_request::SessionFacts;
use mcpg_runtime::handlers::tasks::{
    after_task_run, before_task_run, ModernSuspension, TaskAction, TaskStatus, TerminalEnvelope,
};
use mcpg_runtime::handlers::tool_admission::{
    scope_of_call, CallSettings, RouteKind, TaskParams, TaskSupport, ToolCall, ToolCallParams,
    ToolInfo,
};
use mcpg_runtime::handlers::tool_dispatch::{
    AfterPipeline, AfterReserve, DispatchPlan, PipelineOutcome, TaskCreateError,
    PAYLOAD_CAPTURE_CAP_BYTES,
};
use mcpg_runtime::handlers::tool_gates::{cached_result, AfterGates, QuotaStatus, ReplayCheck};
use mcpg_runtime::handlers::tools_call::{CallEvent, CallStage};
use mcpg_runtime::idempotency::store::{
    CachedOutcome, IdempotencyError, PeekOutcome, ReservationOutcome,
};
use mcpg_runtime::identity::{Attributes, GatewayRequestId, RequestIdentity, TransportKind};
use mcpg_runtime::json::Json;
use mcpg_runtime::message_dispatcher::GatewayMessageDispatcher;
use mcpg_runtime::notes::{Answer, CallNote};
use mcpg_runtime::policy::{PluginIdentity, PolicyDenial, PreDispatchPolicyOutcome};
use mcpg_runtime::policy_eval::{
    ApprovalOutcome, ApprovalRequest, DebugInfo, GateDecision, PolicyChainOutcome,
};
use mcpg_runtime::protocol::{
    ProtocolHttpResponse, ProtocolResponse, ProtocolVersion, ToolCallResult, ToolContent,
};
use mcpg_runtime::quota_gate::{QuotaDecision, QuotaKind};

fn parse(text: &str) -> Json {
    GatewayMessageDispatcher::new().read(text.as_bytes()).expect("valid JSON")
}

fn at(secs: i64) -> Timestamp {
    Timestamp::new(secs, 0).expect("a time")
}

fn info(enabled: bool) -> DebugInfo {
    DebugInfo { enabled, request_id: "r-1".to_owned(), now: at(0) }
}

fn context(identity: RequestIdentity) -> RequestContext {
    RequestContext::new(
        GatewayRequestId::of("gw-1"),
        None,
        Some("s-1".to_owned()),
        None,
        identity,
        TransportKind::Http,
    )
}

fn alice() -> RequestIdentity {
    RequestIdentity::HttpHeader { subject_id: "alice".to_owned(), source: "h".to_owned() }
}

fn anonymous() -> RequestIdentity {
    RequestIdentity::Anonymous { source: "test".to_owned() }
}

fn session() -> Result<SessionSnapshot, SessionAccessError> {
    Ok(SessionSnapshot {
        session_id: "s-1".to_owned(),
        phase: SessionPhase::Operational,
        client_capabilities: Json::object(),
    })
}

const SETTINGS: CallSettings =
    CallSettings { dedupe: true, quota_fail_open: false, revalidate_arguments: false };

fn params(task: bool, meta: Option<Json>) -> ToolCallParams {
    ToolCallParams {
        name: "charge".to_owned(),
        arguments: Some(parse(r#"{"amount":1}"#)),
        task: if task { Some(TaskParams { ttl: None }) } else { None },
        meta,
    }
}

fn tool(route: RouteKind, task_support: Option<TaskSupport>) -> Option<ToolInfo> {
    Some(ToolInfo { route, task_support })
}

fn keyed() -> Option<Json> {
    Some(parse(r#"{"dev.mcpg/idempotency-key":"k-1"}"#))
}

fn take(
    p: ToolCallParams,
    t: Option<ToolInfo>,
    version: ProtocolVersion,
    debugging: bool,
) -> Result<ToolCall, Answer> {
    let ctx = context(alice()).with_negotiated_version(version);
    let mut slot = SessionSlot::new();
    ToolCall::take_in(Json::count(1), p, &ctx, &mut slot, session(), t, SETTINGS, &info(debugging))
}

const LEGACY: ProtocolVersion = ProtocolVersion::V_2025_11_25;
const MODERN: ProtocolVersion = ProtocolVersion::V_2026_07_28;

fn call(task: bool, meta: Option<Json>, route: RouteKind) -> ToolCall {
    let support = if task { Some(TaskSupport::Optional) } else { None };
    match take(params(task, meta), tool(route, support), LEGACY, false) {
        Ok(c) => c,
        Err(a) => panic!("refused: {a:?}"),
    }
}

fn error_of(r: &ProtocolHttpResponse) -> (u16, i32, String) {
    match &r.response {
        ProtocolResponse::JsonRpcError { code, message, .. } => {
            (r.http_status, *code, message.clone())
        }
        other => panic!("expected an error, got {other:?}"),
    }
}

fn data_of(r: &ProtocolHttpResponse) -> Option<Json> {
    match &r.response {
        ProtocolResponse::JsonRpcError { data, .. } => data.as_ref().map(|d| d.copy()),
        other => panic!("expected an error, got {other:?}"),
    }
}

fn result_of(r: &ProtocolHttpResponse) -> &Json {
    match &r.response {
        ProtocolResponse::JsonRpcSuccess { result, .. } => result,
        other => panic!("expected a result, got {other:?}"),
    }
}

fn refusal(r: Result<ToolCall, Answer>) -> (u16, i32, String) {
    error_of(&r.err().expect("a refusal").response)
}

#[test]
fn unknown_tools_are_named() {
    assert_eq!(
        refusal(take(params(false, None), None, LEGACY, false)),
        (200, -32602, "unknown tool: charge".to_owned())
    );
    let shown = take(params(false, None), None, LEGACY, true).err().unwrap();
    assert!(data_of(&shown.response).is_some());
    let bare = take(params(false, None), None, LEGACY, false).err().unwrap();
    assert!(data_of(&bare.response).is_none());
}

#[test]
fn sessions_come_before_tools() {
    let ctx = context(alice());
    let answer = ToolCall::take_in(
        Json::count(1),
        params(false, None),
        &ctx,
        &mut SessionSlot::new(),
        Err(SessionAccessError::UnknownSession),
        None,
        SETTINGS,
        &info(false),
    )
    .err()
    .unwrap();
    assert_eq!(
        error_of(&answer.response),
        (404, -32001, "unknown or expired MCP session".to_owned())
    );
}

#[test]
fn task_support_is_kept_to() {
    let forbidden = tool(RouteKind::Other, Some(TaskSupport::Forbidden));
    assert_eq!(
        refusal(take(params(true, None), forbidden, LEGACY, false)),
        (
            400,
            -32602,
            "Tool 'charge' does not support task-augmented execution (taskSupport = forbidden)"
                .to_owned()
        )
    );
    let required = tool(RouteKind::Other, Some(TaskSupport::Required));
    assert_eq!(
        refusal(take(params(false, None), required, LEGACY, false)),
        (
            400,
            -32602,
            "Tool 'charge' requires task-augmented execution (taskSupport = required)".to_owned()
        )
    );
}

#[test]
fn malformed_metadata_is_refused() {
    let plain = || tool(RouteKind::Other, None);
    let token = Some(parse(r#"{"progressToken":true}"#));
    assert_eq!(
        refusal(take(params(false, token), plain(), LEGACY, false)).2,
        "progressToken must be a string or a number"
    );
    let level = Some(parse(r#"{"io.modelcontextprotocol/logLevel":"loud"}"#));
    assert_eq!(refusal(take(params(false, level), plain(), MODERN, false)).1, -32602);
    let key = Some(parse(r#"{"dev.mcpg/idempotency-key":""}"#));
    assert_eq!(refusal(take(params(false, key), plain(), LEGACY, false)).1, -32013);
}

#[test]
fn scopes_tell_callers_and_tasks_apart() {
    let named = scope_of_call(&alice(), Some("s"), false, "t").unwrap();
    let task = scope_of_call(&alice(), Some("s"), true, "t").unwrap();
    assert_ne!(named.method, task.method);
    assert_eq!(named.method, "tools/call");
    let a = scope_of_call(&anonymous(), Some("s-a"), false, "t").unwrap();
    let b = scope_of_call(&anonymous(), Some("s-b"), false, "t").unwrap();
    assert_ne!((a.tenant_id, a.identity_hash), (b.tenant_id, b.identity_hash));
    assert!(scope_of_call(&anonymous(), None, false, "t").is_none());
}

fn kept(truncated: bool) -> CachedOutcome {
    CachedOutcome {
        envelope: parse(r#"{"content":[],"isError":false}"#),
        original_request_id: Json::count(9),
        original_correlation_id: "gw-0".to_owned(),
        replay_count: 1,
        payload_truncated: truncated,
    }
}

#[test]
fn keys_are_looked_up_first() {
    assert!(matches!(call(false, keyed(), RouteKind::Other).start(), CallStage::Peek));
    assert!(matches!(call(false, None, RouteKind::Other).start(), CallStage::Chain));
}

#[test]
fn calls_in_flight_and_other_bodies_are_refused() {
    let c = call(false, keyed(), RouteKind::Other);
    let busy = CallEvent::Peeked(Ok(Some(PeekOutcome::InFlight { started_at: at(1) })));
    match c.advance(CallStage::Peek, busy, &info(false)) {
        CallStage::Done { answer, .. } => {
            assert_eq!(
                error_of(&answer.response),
                (
                    409,
                    -32011,
                    "another request with this idempotency key is in progress".to_owned()
                )
            );
            assert!(data_of(&answer.response)
                .unwrap()
                .same(&Json::object().with("retry_after_ms", Json::count(1000))));
        }
        other => panic!("unexpected {other:?}"),
    }
    let other =
        CallEvent::Peeked(Ok(Some(PeekOutcome::Conflict { stored_request_hash: [9u8; 32] })));
    match c.advance(CallStage::Peek, other, &info(false)) {
        CallStage::Done { answer, .. } => {
            assert_eq!(error_of(&answer.response).1, -32010);
            assert!(data_of(&answer.response)
                .unwrap()
                .same(&Json::object().with("stored_hash", Json::text(&"09".repeat(32)))));
        }
        other => panic!("unexpected {other:?}"),
    }
}

#[test]
fn a_failing_lookup_lets_the_call_go_on() {
    let c = call(false, keyed(), RouteKind::Other);
    let failed = CallEvent::Peeked(Err(IdempotencyError::Internal("x".to_owned())));
    assert!(matches!(c.advance(CallStage::Peek, failed, &info(false)), CallStage::Chain));
}

#[test]
fn kept_answers_are_given_again_only_to_those_allowed() {
    let c = call(false, keyed(), RouteKind::Other);
    let hit = || {
        c.advance(
            CallStage::Peek,
            CallEvent::Peeked(Ok(Some(PeekOutcome::Completed {
                outcome: kept(false),
                completed_at: at(0),
            }))),
            &info(false),
        )
    };
    let again = CallEvent::ReplayChecked { check: ReplayCheck::Authorized, live_task: None };
    match c.advance(hit(), again, &info(false)) {
        CallStage::Done { answer, .. } => {
            let meta = result_of(&answer.response).get("_meta").unwrap();
            assert_eq!(meta.get("dev.mcpg/idempotency-replayed").unwrap().as_bool(), Some(true));
        }
        other => panic!("unexpected {other:?}"),
    }
    let gone = CallEvent::ReplayChecked { check: ReplayCheck::Revoked, live_task: None };
    assert!(matches!(c.advance(hit(), gone, &info(false)), CallStage::Chain));
}

#[test]
fn answers_too_long_to_keep_are_made_anew() {
    let c = call(false, keyed(), RouteKind::Other);
    let r = c.after_replay_check(ReplayCheck::Authorized, kept(true), at(0), None);
    assert!(r.is_ok());
}

fn run(c: &ToolCall, events: Vec<CallEvent>) -> CallStage {
    let mut stage = c.start();
    for e in events {
        stage = c.advance(stage, e, &info(false));
    }
    stage
}

fn passing() -> Vec<CallEvent> {
    vec![
        CallEvent::Chain(PolicyChainOutcome::NotApplicable),
        CallEvent::Policy(PreDispatchPolicyOutcome::Allow),
        CallEvent::License { status: None, rps_allowed: true },
        CallEvent::Quota(None),
        CallEvent::Gates(None),
        CallEvent::Validated(Ok(())),
        CallEvent::Transformed(None),
    ]
}

#[test]
fn a_call_that_passes_every_layer_is_ready() {
    let c = call(false, None, RouteKind::Other);
    match run(&c, passing()) {
        CallStage::Ready { permit: None, metadata: None, arguments } => {
            assert!(arguments.unwrap().same(&parse(r#"{"amount":1}"#)));
        }
        other => panic!("unexpected {other:?}"),
    }
}

#[test]
fn events_out_of_turn_change_nothing() {
    let c = call(false, None, RouteKind::Other);
    let stage = c.advance(c.start(), CallEvent::Validated(Ok(())), &info(false));
    assert!(matches!(stage, CallStage::Chain));
}

fn refused_at(events: Vec<CallEvent>) -> (u16, i32, String) {
    let c = call(false, None, RouteKind::Other);
    match run(&c, events) {
        CallStage::Done { answer, .. } => error_of(&answer.response),
        other => panic!("unexpected {other:?}"),
    }
}

#[test]
fn each_layer_refuses_in_its_own_words() {
    assert_eq!(
        refused_at(vec![CallEvent::Chain(PolicyChainOutcome::Deny {
            engine: "opa".to_owned(),
            reason: "no".to_owned(),
            policy_version: "v1".to_owned(),
        })]),
        (403, -33000, "Policy `opa` denied tool 'charge': no".to_owned())
    );
    let mut events = passing();
    events.truncate(1);
    events.push(CallEvent::Policy(PreDispatchPolicyOutcome::Deny(PolicyDenial {
        code: -32003,
        http_status: 403,
        message: "too little trust".to_owned(),
        audit_reason: "x".to_owned(),
        insufficient_scope: None,
    })));
    assert_eq!(refused_at(events), (403, -32003, "too little trust".to_owned()));
    let mut events = passing();
    events.truncate(2);
    events.push(CallEvent::License {
        status: Some(QuotaStatus {
            rps_limit: Some(5),
            exhausted: false,
            until: None,
            limit: None,
            remaining: None,
        }),
        rps_allowed: false,
    });
    assert_eq!(
        refused_at(events),
        (
            429,
            -33002,
            "Per-gateway rate limit of 5 requests/second exceeded. Retry shortly.".to_owned()
        )
    );
    let mut events = passing();
    events.truncate(2);
    events.push(CallEvent::License {
        status: Some(QuotaStatus {
            rps_limit: None,
            exhausted: true,
            until: Some(at(0)),
            limit: Some(10),
            remaining: Some(0),
        }),
        rps_allowed: true,
    });
    assert_eq!(
        refused_at(events),
        (
            429,
            -33002,
            "Tool-call quota exhausted for this organization. Resets at 1970-01-01T00:00:00+00:00."
                .to_owned()
        )
    );
    let mut events = passing();
    events.truncate(3);
    events.push(CallEvent::Quota(Some(Ok(QuotaDecision::Deny {
        policy_id: "rl".to_owned(),
        kind: QuotaKind::RateLimit,
        reason: "drained".to_owned(),
    }))));
    assert_eq!(
        refused_at(events),
        (
            429,
            -33001,
            "Quota policy `rl` (rate_limit) refused tool 'charge': drained".to_owned()
        )
    );
    let mut events = passing();
    events.truncate(3);
    events.push(CallEvent::Quota(Some(Err("store down".to_owned()))));
    assert_eq!(
        refused_at(events),
        (
            503,
            -33002,
            "Quota enforcement is temporarily unavailable for tool 'charge'".to_owned()
        )
    );
    let mut events = passing();
    events.truncate(4);
    events.push(CallEvent::Gates(Some(GateDecision::Deny {
        http_status: 451,
        code: -1,
        message: "gate says no".to_owned(),
        error_data: None,
    })));
    assert_eq!(refused_at(events), (451, -1, "gate says no".to_owned()));
    let mut events = passing();
    events.truncate(4);
    events.push(CallEvent::Gates(Some(GateDecision::PendingApproval(approval("a-1")))));
    events.push(CallEvent::Approval(ApprovalOutcome::Denied {
        http_status: 403,
        code: -7,
        message: "not approved".to_owned(),
    }));
    assert_eq!(refused_at(events), (403, -7, "not approved".to_owned()));
}

#[test]
fn bad_arguments_are_an_answer_of_the_tool() {
    let mut events = passing();
    events.truncate(5);
    events.push(CallEvent::Validated(Err("amount must be a string".to_owned())));
    let c = call(false, None, RouteKind::Other);
    match run(&c, events) {
        CallStage::Done { answer, .. } => {
            assert_eq!(
                result_of(&answer.response).get("isError").unwrap().as_bool(),
                Some(true)
            );
        }
        other => panic!("unexpected {other:?}"),
    }
}

#[test]
fn gates_may_rewrite_arguments_and_give_results() {
    let c = call(false, None, RouteKind::Other);
    let mut events = passing();
    events[4] = CallEvent::Gates(Some(GateDecision::Allow {
        metadata: None,
        modified_arguments: Some(parse(r#"{"amount":2}"#)),
        modified_result: None,
    }));
    match run(&c, events) {
        CallStage::Ready { arguments, .. } => {
            assert!(arguments.unwrap().same(&parse(r#"{"amount":2}"#)));
        }
        other => panic!("unexpected {other:?}"),
    }
    let mut events = passing();
    events[4] = CallEvent::Gates(Some(GateDecision::Allow {
        metadata: None,
        modified_arguments: None,
        modified_result: Some(parse(r#"{"content":[]}"#)),
    }));
    events.truncate(6);
    assert!(matches!(run(&c, events), CallStage::Cached { .. }));
}

#[test]
fn calls_are_dispatched_by_their_route() {
    assert_eq!(call(true, None, RouteKind::Other).plan(), DispatchPlan::Task);
    assert_eq!(
        call(false, None, RouteKind::Pipeline { suspends: true }).plan(),
        DispatchPlan::SuspendablePipeline
    );
    assert!(matches!(
        call(false, None, RouteKind::Pipeline { suspends: false }).plan(),
        DispatchPlan::Direct { .. }
    ));
}

#[test]
fn reservations_decide_who_dispatches() {
    let c = call(false, keyed(), RouteKind::Other);
    let won = Some(Ok(ReservationOutcome::Reserved { reservation_id: 1 }));
    assert!(matches!(c.after_reserve(won), AfterReserve::Dispatch { reserved: true }));
    assert!(matches!(c.after_reserve(None), AfterReserve::Dispatch { reserved: false }));
    let down = Some(Err(IdempotencyError::Internal("x".to_owned())));
    assert!(matches!(c.after_reserve(down), AfterReserve::Dispatch { reserved: false }));
    let lost = Some(Ok(ReservationOutcome::InFlight { started_at: at(1) }));
    match c.after_reserve(lost) {
        AfterReserve::Finish(a) => assert_eq!(error_of(&a.response).1, -32011),
        other => panic!("unexpected {other:?}"),
    }
    let task = call(true, keyed(), RouteKind::Other);
    let lost = Some(Ok(ReservationOutcome::InFlight { started_at: at(1) }));
    match task.after_reserve(lost) {
        AfterReserve::Finish(a) => assert_eq!(
            error_of(&a.response).2,
            "another tasks/create with this idempotency key is in progress"
        ),
        other => panic!("unexpected {other:?}"),
    }
}

#[test]
fn tasks_that_cannot_be_made_are_reported() {
    let c = call(true, None, RouteKind::Other);
    let full = c.task_not_created(TaskCreateError::QuotaExceeded { limit: 3 }, &info(false));
    assert_eq!(
        error_of(&full.response),
        (200, -32603, "session already owns the maximum concurrent tasks (3)".to_owned())
    );
    let other = c.task_not_created(TaskCreateError::Other("boom".to_owned()), &info(false));
    assert_eq!(error_of(&other.response).2, "failed to create task: boom");
}

fn outcome(text: &str, is_error: bool) -> ToolCallResult {
    ToolCallResult {
        content: vec![ToolContent::text(text.to_owned())],
        structured_content: None,
        is_error,
        meta: None,
    }
}

#[test]
fn gathered_input_needs_the_modern_wire() {
    let c = call(false, None, RouteKind::Pipeline { suspends: true });
    match c.after_pipeline(PipelineOutcome::SuspendedMulti(vec![Json::text("q")])) {
        AfterPipeline::Refuse(r) => assert_eq!(
            error_of(&r),
            (
                200,
                -32603,
                "multi-entry MRTR (gather step) is only supported on the modern wire".to_owned()
            )
        ),
        other => panic!("unexpected {other:?}"),
    }
    assert!(matches!(
        c.after_pipeline(PipelineOutcome::Complete(outcome("x", false))),
        AfterPipeline::Finish(_)
    ));
    match c.after_pipeline(PipelineOutcome::Suspended(Json::text("q"))) {
        AfterPipeline::Deliver { request, response } => {
            assert!(request.same(&Json::text("q")));
            assert_eq!(response.http_status, 202);
        }
        other => panic!("unexpected {other:?}"),
    }
    let route = RouteKind::Pipeline { suspends: true };
    let modern = take(params(false, None), tool(route, None), MODERN, false).ok().unwrap();
    match modern.after_pipeline(PipelineOutcome::Suspended(Json::text("q"))) {
        AfterPipeline::InputRequired { request } => assert!(request.same(&Json::text("q"))),
        other => panic!("unexpected {other:?}"),
    }
    let several = PipelineOutcome::SuspendedMulti(vec![Json::text("q"), Json::text("w")]);
    match modern.after_pipeline(several) {
        AfterPipeline::InputsRequired { requests } => assert_eq!(requests.len(), 2),
        other => panic!("unexpected {other:?}"),
    }
}

#[test]
fn results_against_their_schema_become_errors() {
    let c = call(false, None, RouteKind::Other);
    let kept = c.check_output(outcome("fine", false), Ok(()));
    assert!(!kept.is_error);
    let failed = c.check_output(outcome("odd", false), Err("missing field".to_owned()));
    assert!(failed.is_error);
}

fn approval(id: &str) -> ApprovalRequest {
    ApprovalRequest {
        approval_id: id.to_owned(),
        deadline_at: "2030-01-01T00:00:00Z".to_owned(),
        summary: "charge a card".to_owned(),
        target_notifiers: vec!["pager".to_owned()],
        metadata: Some(parse(r#"{"level":2}"#)),
    }
}

#[test]
fn approvals_are_awaited_with_all_that_is_known() {
    let c = call(false, None, RouteKind::Other);
    let request = match c.after_gates(Some(GateDecision::PendingApproval(approval("a-1")))) {
        AfterGates::AwaitApproval(request) => request,
        other => panic!("unexpected {other:?}"),
    };
    let waits = c.await_context(&request, &context(alice()), plugin_identity());
    assert_eq!(waits.request.approval_id, "a-1");
    assert_eq!(waits.request.deadline_at, "2030-01-01T00:00:00Z");
    assert_eq!(waits.request.summary, "charge a card");
    assert_eq!(waits.request.target_notifiers, vec!["pager".to_owned()]);
    assert!(waits.request.metadata.unwrap().same(&parse(r#"{"level":2}"#)));
    assert_eq!(waits.tool_name, "charge");
    assert_eq!(waits.request_id, "gw-1");
    assert_eq!(waits.identity.subject_id.as_deref(), Some("alice"));
    assert_eq!(waits.arguments.is_some(), c.arguments.is_some());
}

fn plugin_identity() -> PluginIdentity {
    PluginIdentity {
        kind: "verified".to_owned(),
        trust_level: "verified".to_owned(),
        subject_id: Some("alice".to_owned()),
        auth_provider: None,
        issuer: None,
        roles: Vec::new(),
        groups: Vec::new(),
        scopes: Vec::new(),
        attributes: Attributes::new(),
    }
}

#[test]
fn late_approvals_are_refused() {
    let c = call(false, None, RouteKind::Other);
    let late = Some(GateDecision::PendingApproval(approval("a")));
    let answer = c.after_post_gates(&outcome("x", false), late).err().unwrap();
    assert_eq!(
        error_of(&answer.response),
        (
            500,
            -32603,
            "tool 'charge' post-dispatch gate returned invalid PendingApproval decision".to_owned()
        )
    );
}

#[test]
fn finished_calls_are_kept_for_their_twins() {
    let c = call(false, keyed(), RouteKind::Other);
    let envelope = parse(r#"{"content":[]}"#);
    let done = c.finish(true, envelope.copy());
    let record = done.record.expect("a record");
    assert!(record.envelope.same(&envelope));
    assert!(!record.payload_truncated);
    assert!(result_of(&done.answer.response).same(&envelope));
    assert!(c.finish(false, Json::object()).record.is_none());
}

#[test]
fn answers_beyond_the_cap_are_marked_and_not_kept() {
    let c = call(false, keyed(), RouteKind::Other);
    let long = Json::object().with("t", Json::text(&"x".repeat(PAYLOAD_CAPTURE_CAP_BYTES)));
    let record = c.finish(true, long).record.expect("a record");
    assert!(record.payload_truncated);
    assert!(record.envelope.same(&Json::Null));
    let fitting = "x".repeat(PAYLOAD_CAPTURE_CAP_BYTES - 8);
    let record = c.finish(true, Json::object().with("t", Json::text(&fitting))).record.unwrap();
    assert!(!record.payload_truncated);
}

#[test]
fn created_tasks_are_kept_under_their_key() {
    let c = call(true, keyed(), RouteKind::Other);
    let done = c.task_created(true, "task-1", "alice", Json::object());
    assert!(done.record.is_some());
    assert!(result_of(&done.answer.response).get("task").is_some());
}

#[test]
fn tasks_belong_to_sessions_on_the_legacy_wire_and_to_principals_on_the_modern() {
    let legacy = call(true, None, RouteKind::Other);
    assert_eq!(legacy.task_owner(Some("owner".to_owned())), "s-1");
    let support = tool(RouteKind::Other, Some(TaskSupport::Optional));
    let modern = match take(params(true, None), support, MODERN, false) {
        Ok(c) => c,
        Err(a) => panic!("refused: {a:?}"),
    };
    assert_eq!(modern.task_owner(Some("owner".to_owned())), "owner");
    assert_eq!(modern.task_owner(None), "s-1");
}

#[test]
fn work_on_tasks_ends_in_a_state() {
    assert!(matches!(before_task_run(true), Some(TaskAction::StoreCancelled { .. })));
    assert!(before_task_run(false).is_none());
    match after_task_run(&outcome("x", false)) {
        TaskAction::StoreTerminal { status, .. } => assert_eq!(status, TaskStatus::Completed),
        other => panic!("unexpected {other:?}"),
    }
    match after_task_run(&outcome("x", true)) {
        TaskAction::StoreTerminal { status, .. } => assert_eq!(status, TaskStatus::Failed),
        other => panic!("unexpected {other:?}"),
    }
}

#[test]
fn results_of_plugins_are_read_as_far_as_they_go() {
    let r = cached_result(
        &parse(r#"{"isError":true}"#),
        Some(vec![ToolContent::text("hi".to_owned())]),
    );
    assert!(r.is_error);
    assert_eq!(r.content.len(), 1);
}

#[test]
fn refused_calls_leave_notes() {
    let answer = take(params(false, None), None, LEGACY, false).err().unwrap();
    assert!(answer.notes.iter().any(|n| matches!(n, CallNote::UnknownTool)));
}

#[test]
fn backends_are_told_the_key_and_its_scope() {
    let hint = call(false, keyed(), RouteKind::Other).idempotency_hint().unwrap();
    assert_eq!(hint.key, "k-1");
    let s = scope_of_call(&alice(), Some("s-1"), false, "charge").unwrap();
    let mut fed: Vec<u8> = Vec::new();
    fed.extend_from_slice(s.tenant_id.as_bytes());
    fed.push(b':');
    fed.extend_from_slice(s.identity_hash.as_slice());
    fed.push(b':');
    fed.extend_from_slice(s.method.as_bytes());
    fed.push(b':');
    fed.extend_from_slice(s.tool_name.as_bytes());
    assert_eq!(hint.scope_hash, *blake3::hash(&fed).as_bytes());
    assert!(call(false, None, RouteKind::Other).idempotency_hint().is_none());
}

#[test]
fn reservations_of_tasks_live_as_long_as_the_task() {
    assert_eq!(call(false, None, RouteKind::Other).reserve_ttl(9), None);
    assert_eq!(call(true, None, RouteKind::Other).reserve_ttl(9), Some(9));
    assert_eq!(call(true, None, RouteKind::Other).reserve_ttl(0), Some(1));
}

#[test]
fn rewritten_arguments_are_checked_again_where_that_is_set() {
    let ctx = context(alice());
    let c = ToolCall::take_in(
        Json::count(1),
        params(false, None),
        &ctx,
        &mut SessionSlot::new(),
        session(),
        tool(RouteKind::Other, None),
        CallSettings { revalidate_arguments: true, ..SETTINGS },
        &info(false),
    )
    .ok()
    .unwrap();
    let rewriting = || {
        let mut events = passing();
        events[6] = CallEvent::Transformed(Some(parse(r#"{"amount":3}"#)));
        events
    };
    assert!(matches!(run(&c, passing()), CallStage::Ready { .. }));
    assert!(matches!(run(&c, rewriting()), CallStage::Revalidate { .. }));
    let mut events = rewriting();
    events.push(CallEvent::Revalidated(Ok(())));
    assert!(matches!(run(&c, events), CallStage::Ready { .. }));
    let mut events = rewriting();
    events.push(CallEvent::Revalidated(Err("too much".to_owned())));
    match run(&c, events) {
        CallStage::Done { answer, .. } => {
            let text = result_of(&answer.response).get("content").unwrap();
            match text {
                Json::Array(blocks) => assert_eq!(
                    blocks[0].get("text").unwrap().as_str(),
                    Some(
                        "Input validation failed for tool 'charge' after a gate/transform \
                         plugin rewrote its arguments: too much."
                    )
                ),
                other => panic!("unexpected {other:?}"),
            }
        }
        other => panic!("unexpected {other:?}"),
    }
}

fn failure_of(action: TaskAction) -> String {
    match action {
        TaskAction::StoreTerminal {
            status: TaskStatus::Failed,
            envelope: TerminalEnvelope::Error { code: -32603, message, data: None },
        } => message,
        other => panic!("unexpected {other:?}"),
    }
}

#[test]
fn pipelines_of_tasks_end_or_wait_for_input() {
    let legacy = call(true, None, RouteKind::Pipeline { suspends: true });
    match legacy.after_task_pipeline(
        PipelineOutcome::Complete(outcome("x", false)),
        Err("no".to_owned()),
        None,
    ) {
        TaskAction::StoreTerminal { status, envelope: TerminalEnvelope::Success { result } } => {
            assert_eq!(status, TaskStatus::Failed);
            assert!(result.get("isError").unwrap().same(&Json::Bool(true)));
        }
        other => panic!("unexpected {other:?}"),
    }
    let asked = || PipelineOutcome::Suspended(Json::text("q"));
    match legacy.after_task_pipeline(asked(), Ok(()), None) {
        TaskAction::DeliverRequest { request, status, status_message } => {
            assert!(request.same(&Json::text("q")));
            assert_eq!(status, TaskStatus::InputRequired);
            assert_eq!(status_message, "Pipeline suspended, awaiting input");
        }
        other => panic!("unexpected {other:?}"),
    }
    assert_eq!(
        failure_of(legacy.after_task_pipeline(
            PipelineOutcome::SuspendedMulti(Vec::new()),
            Ok(()),
            None
        )),
        "multi-entry MRTR (gather step) is not supported in task-augmented tool calls"
    );
    let support = tool(RouteKind::Pipeline { suspends: true }, Some(TaskSupport::Optional));
    let modern = take(params(true, None), support, MODERN, false).ok().unwrap();
    let suspended = |request_state, input_requests| {
        modern.after_task_pipeline(
            asked(),
            Ok(()),
            Some(ModernSuspension { request_state, input_requests }),
        )
    };
    assert_eq!(
        failure_of(suspended(None, Ok(Json::object()))),
        "modern MRTR codec is not installed"
    );
    assert_eq!(
        failure_of(suspended(Some(Err("seal".to_owned())), Ok(Json::object()))),
        "modern MRTR requestState encode failed: seal"
    );
    assert_eq!(failure_of(suspended(Some(Ok("st".to_owned())), Err("bad".to_owned()))), "bad");
    match suspended(Some(Ok("st".to_owned())), Ok(Json::object())) {
        TaskAction::AwaitInput { request_state, .. } => assert_eq!(request_state, "st"),
        other => panic!("unexpected {other:?}"),
    }
}

#[test]
fn calls_are_shown_to_the_engines_with_their_arguments() {
    let gate = call(false, None, RouteKind::Other).surface_gate(true);
    assert_eq!((gate.surface.as_str(), gate.decision_point.as_str()), ("tool", "tool.call.pre"));
    assert_eq!(gate.backend_name, "charge");
    assert!(gate.arguments.same(&parse(r#"{"amount":1}"#)));
}

#[test]
fn backends_get_rewritten_arguments_and_expressions_the_callers() {
    let meta = parse(r#"{"dev.mcpg/idempotency-key":"k-1","progressToken":"p"}"#);
    let c = call(false, Some(meta), RouteKind::Other);
    let facts = SessionFacts { log_level: None, loaded: Err(SessionAccessError::UnknownSession) };
    let mut slot = SessionSlot::new();
    let rewritten = Some(parse(r#"{"amount":2}"#));
    let r = c.backend_request(&context(alice()), &mut slot, facts, rewritten);
    assert_eq!(r.tool_name, "charge");
    assert!(r.arguments.unwrap().same(&parse(r#"{"amount":2}"#)));
    assert!(r.expr_ctx.arguments.same(&parse(r#"{"amount":1}"#)));
    assert_eq!(r.expr_ctx.context.principal_id.as_deref(), Some("alice"));
    assert!(r.progress_token.unwrap().same(&Json::text("p")));
    assert_eq!(r.idempotency_hint.unwrap().key, "k-1");
    assert!(r.client_capabilities.same(&Json::object()));
}
