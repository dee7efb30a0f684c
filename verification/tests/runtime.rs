use mcpg_runtime::clock::Timestamp;
use mcpg_runtime::context::{
    RequestContext, SessionAccessError, SessionPhase, SessionSlot, SessionSnapshot,
};
use mcpg_runtime::handlers::completion::CompletionLimiter;
use mcpg_runtime::handlers::tasks::TaskOperation;
use mcpg_runtime::handlers::tool_admission::{
    CallSettings, RouteKind, ToolCallParams, ToolInfo,
};
use mcpg_runtime::handlers::tool_gates::ReplayCheck;
use mcpg_runtime::handlers::tools_call::CallStage;
use mcpg_runtime::identity::{GatewayRequestId, RequestIdentity, RequestTrustLevel, TransportKind};
use mcpg_runtime::inspector_identity::{constant_time_eq, install, verify, INSPECTOR_SUBJECT};
use mcpg_runtime::json::Json;
use mcpg_runtime::message_dispatcher::{
    DispatchResponse, DispatcherError, GatewayMessageDispatcher,
};
use mcpg_runtime::notes::CallNote;
use mcpg_runtime::ping_driver::ServerPingDriver;
use mcpg_runtime::policy_eval::{
    ApprovalOutcome, ChainStep, DebugInfo, GateDecision, PolicyChainOutcome, PolicyDecision,
    PolicyEffect, SurfaceGate, TestIdentity,
};
use mcpg_runtime::policy_gate::PreDispatchPolicyGate;
use mcpg_runtime::protocol::{
    notification_accepted, protocol_http_error, protocol_http_success, ProtocolHttpResponse,
    ProtocolResponse, ProtocolVersion,
};
use mcpg_runtime::runtime::{
    server_response_start, set_log_level_response, CapabilityOperation, DiagnosticsOperation,
    GatewayOperation, GatewayRequest, GatewayResponsePayload, GatewayRuntime, HandlerKind,
    HandlerSet, LegacyRoute, LifecycleOperation, ProtocolOperation, RequestStep,
};

fn runtime(handlers: HandlerSet) -> GatewayRuntime {
    GatewayRuntime {
        debug_enabled: false,
        call_settings: CallSettings {
            dedupe: true,
            quota_fail_open: false,
            revalidate_arguments: false,
        },
        idempotency_replay_revalidation: false,
        policy_chain: Vec::new(),
        pre_dispatch_policy: PreDispatchPolicyGate::default(),
        completion_limiter: CompletionLimiter::new(),
        handlers,
    }
}

const NOTHING: HandlerSet = HandlerSet { installed: false, legacy: false, modern: false };
const LEGACY_ONLY: HandlerSet = HandlerSet { installed: true, legacy: true, modern: false };

fn error_of(r: &ProtocolHttpResponse) -> (u16, i32, String) {
    match &r.response {
        ProtocolResponse::JsonRpcError { code, message, .. } => {
            (r.http_status, *code, message.clone())
        }
        other => panic!("expected an error, got {other:?}"),
    }
}

#[test]
fn malformed_json_returns_invalid_message() {
    let d = GatewayMessageDispatcher::new();
    let err = d.read(b"{not-json").unwrap_err();
    assert_eq!(err.kind_label(), "invalid_message");
    match err {
        DispatcherError::InvalidMessage { reason } => {
            assert!(reason.starts_with("JSON parse: "), "{reason}");
        }
        other => panic!("unexpected {other:?}"),
    }
}

#[test]
fn messages_that_are_not_understood_are_invalid() {
    let d = GatewayMessageDispatcher::new();
    let err = d.request("", Err("MissingJsonRpc".to_owned())).err().unwrap();
    assert_eq!(err.kind_label(), "invalid_message");
}

#[test]
fn empty_session_id_does_not_panic() {
    let d = GatewayMessageDispatcher::new();
    let message = d.read(br#"{"jsonrpc":"2.0","id":1,"method":"ping"}"#).unwrap();
    let id = message.get("id").unwrap().copy();
    let op = ProtocolOperation::Lifecycle(LifecycleOperation::Ping { request_id: id });
    let request = d.request("", Ok(op)).ok().unwrap();
    assert!(request.context.session_id.is_none());
    assert_eq!(request.context.transport, TransportKind::Stdio);
    assert!(request.context.identity.is_anonymous());
    assert_eq!(request.operation.label(), "protocol.lifecycle.ping");
}

#[test]
fn session_ids_of_the_transport_are_kept() {
    let ctx = GatewayMessageDispatcher::new().build_context(Some("s-1".to_owned()));
    assert_eq!(ctx.session_id.as_deref(), Some("s-1"));
    assert_eq!(ctx.negotiated_version, ProtocolVersion::V_2025_11_25);
}

fn bytes_of(payload: GatewayResponsePayload) -> String {
    match GatewayMessageDispatcher::new().reply(payload).unwrap() {
        DispatchResponse::Unary(b) => String::from_utf8(b).unwrap(),
        DispatchResponse::Ack => "ack".to_owned(),
    }
}

#[test]
fn answers_are_written_as_json_rpc() {
    let success = protocol_http_success(Json::count(1), Json::object());
    assert_eq!(
        bytes_of(GatewayResponsePayload::Protocol(success)),
        r#"{"id":1,"jsonrpc":"2.0","result":{}}"#
    );
    let error = protocol_http_error(400, None, -32600, "bad".to_owned(), None);
    assert_eq!(
        bytes_of(GatewayResponsePayload::Protocol(error)),
        r#"{"error":{"code":-32600,"message":"bad"},"id":null,"jsonrpc":"2.0"}"#
    );
    let detailed =
        protocol_http_error(400, Some(Json::text("a")), 5, "m".to_owned(), Some(Json::Bool(true)));
    assert_eq!(
        bytes_of(GatewayResponsePayload::Protocol(detailed)),
        r#"{"error":{"code":5,"data":true,"message":"m"},"id":"a","jsonrpc":"2.0"}"#
    );
    assert_eq!(bytes_of(GatewayResponsePayload::Protocol(notification_accepted())), "ack");
    let ready = Json::object().with("ready", Json::Bool(true));
    assert_eq!(bytes_of(GatewayResponsePayload::Readiness(ready)), r#"{"ready":true}"#);
}

fn context() -> RequestContext {
    RequestContext::new(
        GatewayRequestId::new(),
        None,
        Some("s".to_owned()),
        None,
        RequestIdentity::Anonymous { source: "test".to_owned() },
        TransportKind::Http,
    )
}

fn ping(id: u64) -> ProtocolOperation {
    ProtocolOperation::Lifecycle(LifecycleOperation::Ping { request_id: Json::count(id) })
}

#[test]
fn repeated_request_ids_are_refused() {
    let rt = runtime(NOTHING);
    let request = GatewayRequest::new(context(), GatewayOperation::Protocol(ping(7)));
    let (ctx, step) = rt.handle_request(request, true);
    assert_eq!(ctx.session_id.as_deref(), Some("s"));
    match step {
        RequestStep::Refuse(r) => assert_eq!(
            error_of(&r),
            (400, -32600, "duplicate request id on this session".to_owned())
        ),
        other => panic!("expected Refuse, got {other:?}"),
    }
    let again = GatewayRequest::new(context(), GatewayOperation::Protocol(ping(8)));
    assert!(matches!(rt.handle_request(again, false).1, RequestStep::Dispatch(_)));
}

#[test]
fn notifications_are_never_taken_for_repeated() {
    let rt = runtime(NOTHING);
    let op = ProtocolOperation::Lifecycle(LifecycleOperation::Initialized);
    let request = GatewayRequest::new(context(), GatewayOperation::Protocol(op));
    assert!(matches!(rt.handle_request(request, true).1, RequestStep::Dispatch(_)));
}

#[test]
fn diagnostics_are_answered_by_the_gateway_itself() {
    let rt = runtime(NOTHING);
    let ready = GatewayOperation::Diagnostics(DiagnosticsOperation::Readiness);
    assert_eq!(ready.label(), "diagnostics.readiness");
    let (ctx, step) = rt.handle_request(GatewayRequest::new(context(), ready), true);
    assert!(matches!(step, RequestStep::Readiness));
    let id = ctx.request_id.as_str().to_owned();
    let response = rt.respond(ctx, GatewayResponsePayload::Readiness(Json::object()));
    assert_eq!(response.request_id.as_str(), id);
    let info = GatewayOperation::Diagnostics(DiagnosticsOperation::Runtime);
    let (_, step) = rt.handle_request(GatewayRequest::new(context(), info), false);
    assert!(matches!(step, RequestStep::Runtime));
}

#[test]
fn messages_need_a_handler_of_their_revision() {
    let modern = ProtocolVersion::V_2026_07_28;
    let legacy = ProtocolVersion::V_2025_11_25;
    let boot = runtime(NOTHING).handle_protocol_message(None, legacy, false).unwrap();
    assert_eq!(
        error_of(&boot),
        (500, -32603, "gateway runtime not fully initialized".to_owned())
    );
    let rt = runtime(LEGACY_ONLY);
    let unknown = rt.handle_protocol_message(Some(Json::count(1)), modern, false).unwrap();
    assert_eq!(
        error_of(&unknown),
        (500, -32603, "no handler registered for the negotiated protocol version".to_owned())
    );
    assert!(rt.handle_protocol_message(Some(Json::count(1)), legacy, false).is_none());
    let repeated = rt.handle_protocol_message(Some(Json::count(1)), legacy, true).unwrap();
    assert_eq!(error_of(&repeated).1, -32600);
    assert!(rt.handle_protocol_message(None, legacy, true).is_none());
}

#[test]
fn legacy_operations_go_to_the_legacy_handler_or_to_none() {
    assert_eq!(runtime(NOTHING).dispatch_protocol(), LegacyRoute::Direct);
    assert_eq!(runtime(LEGACY_ONLY).dispatch_protocol(), LegacyRoute::Handler);
    let modern_only = HandlerSet { installed: true, legacy: false, modern: true };
    assert_eq!(runtime(modern_only).dispatch_protocol(), LegacyRoute::Direct);
}

fn capability(make: fn(Json, Json) -> CapabilityOperation) -> ProtocolOperation {
    ProtocolOperation::Capabilities(make(Json::count(3), Json::object()))
}

#[test]
fn operations_are_routed_and_labelled() {
    let rt = runtime(NOTHING);
    let call = capability(|request_id, params| CapabilityOperation::ToolsCall { request_id, params });
    assert_eq!(rt.handle_protocol_operation(&call), HandlerKind::ToolsCall);
    assert_eq!(call.label(), "protocol.capabilities.tools_call");
    let complete =
        capability(|request_id, params| CapabilityOperation::Complete { request_id, params });
    assert_eq!(rt.handle_protocol_operation(&complete), HandlerKind::Completion);
    assert_eq!(complete.label(), "protocol.capabilities.completion_complete");
    let list =
        capability(|request_id, params| CapabilityOperation::ToolsList { request_id, params });
    assert_eq!(rt.handle_protocol_operation(&list), HandlerKind::CapabilitiesList);
    assert!(list.client_request_id().unwrap().same(&Json::count(3)));
    let task = ProtocolOperation::Tasks {
        operation: TaskOperation::Cancel,
        request_id: Json::count(4),
        params: Json::object(),
    };
    assert_eq!(rt.handle_protocol_operation(&task), HandlerKind::Tasks);
    assert_eq!(task.label(), "protocol.tasks.cancel");
    let answer = ProtocolOperation::ServerRequestResponse {
        response_id: Json::count(1),
        result: None,
        error: None,
    };
    assert_eq!(rt.handle_protocol_operation(&answer), HandlerKind::ServerRequestResponse);
    assert!(answer.client_request_id().is_none());
    assert_eq!(answer.label(), "protocol.server_request_response");
}

#[test]
fn log_levels_are_set_on_known_sessions_only() {
    let ok = set_log_level_response(Json::count(1), "warning", Ok(()));
    assert_eq!(ok.response.http_status, 200);
    match ok.notes.as_slice() {
        [CallNote::LogLevelSet { level }] => assert_eq!(level, "warning"),
        other => panic!("unexpected {other:?}"),
    }
    let failed = Err(SessionAccessError::MissingSessionId);
    let missing = set_log_level_response(Json::count(1), "warning", failed);
    assert!(matches!(missing.response.response, ProtocolResponse::JsonRpcError { .. }));
    assert!(missing.notes.is_empty());
}

#[test]
fn answers_of_clients_need_a_usable_session() {
    let ctx = context();
    let session = SessionSnapshot {
        session_id: "s".to_owned(),
        phase: SessionPhase::Initializing,
        client_capabilities: Json::object(),
    };
    let refused = server_response_start(&ctx, &mut SessionSlot::new(), Ok(session)).unwrap_err();
    match refused.response {
        ProtocolResponse::JsonRpcError { id, .. } => assert!(id.is_none()),
        other => panic!("unexpected {other:?}"),
    }
    let ctx = context();
    let session = SessionSnapshot {
        session_id: "s".to_owned(),
        phase: SessionPhase::Operational,
        client_capabilities: Json::object(),
    };
    assert!(server_response_start(&ctx, &mut SessionSlot::new(), Ok(session)).is_ok());
}

#[test]
fn previews_follow_the_policy_gate() {
    let mut rt = runtime(NOTHING);
    let nobody = TestIdentity {
        kind: "anonymous".to_owned(),
        trust_level: "unauthenticated".to_owned(),
        subject_id: None,
        roles: Vec::new(),
        groups: Vec::new(),
    };
    assert_eq!(rt.evaluate_policy_for_preview("t", &nobody, 0), "deny");
    let somebody = TestIdentity { trust_level: "verified".to_owned(), ..nobody };
    assert_eq!(rt.evaluate_policy_for_preview("t", &somebody, 0), "allow");
}

#[test]
fn waits_for_tasks_end() {
    let wait = runtime(NOTHING).wait_for_task_terminal(0, 10);
    assert_eq!(wait.deadline_ms, 11);
    let wait = runtime(NOTHING).wait_for_task_terminal(500, 10);
    assert_eq!(wait.deadline_ms, 510);
}

#[test]
fn pings_wait_at_least_a_second() {
    assert_eq!(ServerPingDriver::new(0).interval_secs, 1);
    assert_eq!(ServerPingDriver::new(30).interval_secs, 30);
}

#[test]
fn every_session_is_pinged_with_an_id_of_its_own() {
    let pings = ServerPingDriver::new(1).round(&vec!["a".to_owned(), "b".to_owned()]);
    assert_eq!(pings.len(), 2);
    assert_eq!(pings[1].session_id, "b");
    let id = |i: usize| pings[i].message.get("id").unwrap().as_str().unwrap().to_owned();
    assert!(id(0).starts_with("srv-ping-"));
    assert_eq!(id(0).len(), "srv-ping-".len() + 36);
    assert_ne!(id(0), id(1));
    assert_eq!(pings[0].message.get("method").unwrap().as_str(), Some("ping"));
    assert_eq!(pings[0].message.get("jsonrpc").unwrap().as_str(), Some("2.0"));
}

#[test]
fn resolves_only_with_token_loopback_and_match() {
    let mut slot = None;
    assert!(verify(&slot, Some("tok"), Some(true)).is_none(), "nothing installed yet");

    install(&mut slot, "secret-token".to_owned());
    install(&mut slot, "second-install-ignored".to_owned());

    assert!(verify(&slot, None, Some(true)).is_none(), "no bearer");
    assert!(verify(&slot, Some("secret-token"), Some(false)).is_none(), "non-loopback peer");
    assert!(verify(&slot, Some("secret-token"), None).is_none(), "unknown peer");
    assert!(verify(&slot, Some("wrong"), Some(true)).is_none(), "mismatch");

    let identity = verify(&slot, Some("secret-token"), Some(true)).expect("resolves");
    assert_eq!(identity.trust_level(), RequestTrustLevel::Verified);
    assert_eq!(identity.principal_id(), Some(INSPECTOR_SUBJECT));
}

#[test]
fn byte_strings_are_compared_in_full() {
    assert!(constant_time_eq(b"abc", b"abc"));
    assert!(!constant_time_eq(b"abc", b"abd"));
    assert!(!constant_time_eq(b"abc", b"ab"));
}

#[test]
fn calls_of_tools_are_taken_in_with_the_settings_of_the_gateway() {
    let rt = runtime(NOTHING);
    let params = |meta: Option<Json>| ToolCallParams {
        name: "t".to_owned(),
        arguments: None,
        task: None,
        meta,
    };
    let loaded = || {
        Ok(SessionSnapshot {
            session_id: "s".to_owned(),
            phase: SessionPhase::Operational,
            client_capabilities: Json::object(),
        })
    };
    let known = || Some(ToolInfo { route: RouteKind::Other, task_support: None });
    let ctx = context();
    let mut slot = SessionSlot::new();
    let (call, stage) = rt
        .handle_tools_call(Json::count(1), params(None), &ctx, &mut slot, loaded(), known())
        .ok()
        .unwrap();
    assert!(call.settings.dedupe);
    assert!(matches!(stage, CallStage::Chain));
    assert!(slot.get().is_some());
    let key = Json::object().with("dev.mcpg/idempotency-key", Json::text("k"));
    let (_, stage) = rt
        .handle_tools_call(Json::count(1), params(Some(key)), &ctx, &mut slot, loaded(), known())
        .ok()
        .unwrap();
    assert!(matches!(stage, CallStage::Peek));
    let unknown = rt
        .handle_tools_call(Json::count(1), params(None), &ctx, &mut slot, loaded(), None)
        .err()
        .unwrap();
    assert_eq!(error_of(&unknown.response).2, "unknown tool: t");
}

#[test]
fn repeated_calls_are_checked_by_every_layer_where_that_is_set() {
    let info = DebugInfo {
        enabled: false,
        request_id: "r".to_owned(),
        now: Timestamp::new(0, 0).unwrap(),
    };
    let surface =
        SurfaceGate::new("tool", "tool.call.pre", "t", Json::object(), Json::count(1), true);
    let check = |all: bool, identity: RequestIdentity, gates: GateDecision| {
        let mut rt = runtime(NOTHING);
        rt.idempotency_replay_revalidation = all;
        let ctx = RequestContext::new(
            GatewayRequestId::of("g"),
            None,
            None,
            None,
            identity,
            TransportKind::Http,
        );
        rt.check_replay(
            &surface,
            &ctx,
            PolicyChainOutcome::NotApplicable,
            gates,
            ApprovalOutcome::Approved,
            &info,
            0,
        )
    };
    let named = || RequestIdentity::HttpHeader {
        subject_id: "alice".to_owned(),
        source: "h".to_owned(),
    };
    let nobody = || RequestIdentity::Anonymous { source: "test".to_owned() };
    let pass =
        || GateDecision::Allow { metadata: None, modified_arguments: None, modified_result: None };
    let stop = || GateDecision::Deny {
        http_status: 418,
        code: -9,
        message: "no".to_owned(),
        error_data: None,
    };
    assert!(matches!(check(false, named(), stop()), ReplayCheck::Authorized));
    assert!(matches!(check(false, nobody(), pass()), ReplayCheck::Revoked));
    assert!(matches!(check(true, named(), pass()), ReplayCheck::Authorized));
    match check(true, named(), stop()) {
        ReplayCheck::Refused(r) => assert_eq!(error_of(&r), (418, -9, "no".to_owned())),
        other => panic!("unexpected {other:?}"),
    }
    assert!(matches!(check(true, nobody(), pass()), ReplayCheck::Refused(_)));
}

#[test]
fn the_first_engine_that_denies_decides() {
    let mut rt = runtime(NOTHING);
    rt.policy_chain = vec!["opa".to_owned(), "cedar".to_owned()];
    let says = |effect| PolicyDecision {
        effect,
        reason: "r".to_owned(),
        policy_version: "v".to_owned(),
    };
    let (allow, deny, pass) =
        (PolicyEffect::Allow, PolicyEffect::Deny, PolicyEffect::NotApplicable);
    match rt.evaluate_pre_dispatch_policy_chain(&vec![]) {
        ChainStep::Ask { engine } => assert_eq!(engine, "opa"),
        other => panic!("unexpected {other:?}"),
    }
    match rt.evaluate_pre_dispatch_policy_chain(&vec![says(allow)]) {
        ChainStep::Ask { engine } => assert_eq!(engine, "cedar"),
        other => panic!("unexpected {other:?}"),
    }
    match rt.evaluate_pre_dispatch_policy_chain(&vec![says(allow), says(deny)]) {
        ChainStep::Done(PolicyChainOutcome::Deny { engine, reason, policy_version }) => {
            assert_eq!((engine.as_str(), reason.as_str()), ("cedar", "r"));
            assert_eq!(policy_version, "v");
        }
        other => panic!("unexpected {other:?}"),
    }
    assert!(matches!(
        rt.evaluate_pre_dispatch_policy_chain(&vec![says(deny)]),
        ChainStep::Done(PolicyChainOutcome::Deny { .. })
    ));
    assert!(matches!(
        rt.evaluate_pre_dispatch_policy_chain(&vec![says(pass), says(allow)]),
        ChainStep::Done(PolicyChainOutcome::Allow)
    ));
    assert!(matches!(
        rt.evaluate_pre_dispatch_policy_chain(&vec![says(pass), says(pass)]),
        ChainStep::Done(PolicyChainOutcome::NotApplicable)
    ));
    assert_eq!(rt.evaluate_policy(None).effect, PolicyEffect::NotApplicable);
    assert_eq!(rt.evaluate_policy(Some(says(deny))).effect, PolicyEffect::Deny);
}
