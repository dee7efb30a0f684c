use mcpg_runtime::clock::Timestamp;
use mcpg_runtime::context::{
    RequestContext, SessionAccessError, SessionPhase, SessionSlot, SessionSnapshot,
};
use mcpg_runtime::handlers::backend_request::{
    prompt_request, resource_request, template_request, SessionFacts,
};
use mcpg_runtime::handlers::capabilities_list::{
    gate_denied, list_response, list_start, managed_id, prompt_get_result, prompt_response,
    prompt_start, resource_arguments, resource_failed, resource_read_managed, resource_read_result,
    resource_ready, resource_response, resource_start, show_contents, subscribe_response,
    subscribe_start, template_arguments, unsubscribe_response, GatewayFacts, ListKind,
    ManagedLookup, PromptSource, ResourceSource, ResourceStep, StoredContent,
};
use mcpg_runtime::handlers::completion::{
    choose_completion, completion_response, completion_start, reference_name, CompletionLimiter,
    CompletionReference, CompletionStep, CompletionValues,
};
use mcpg_runtime::handlers::lifecycle::{
    elicitation_complete, elicitation_payload, initialize_after_count, initialize_after_create,
    initialize_response, initialize_start, initialized_response, initialized_start, ping_response,
    response_id_name, ClientInfo, ElicitationAction, InitializeStep, ServerProfile,
};
use mcpg_runtime::handlers::tasks::{
    handle_tasks_operation, modern_task_status_notification, task_session, Task, TaskAnswer,
    TaskOperation, TaskStatus, TaskStoreError, TaskStoreFault, TaskWait, TerminalEnvelope, WaitStep,
};
use mcpg_runtime::idempotency::store::CachedOutcome;
use mcpg_runtime::idempotency_ops::{
    build_idempotency_replay_response, build_tasks_create_replay_response, replayed_task,
};
use mcpg_runtime::identity::{Attributes, GatewayRequestId, RequestIdentity, TransportKind};
use mcpg_runtime::invocation::{
    PromptGetResult, ResourceContents, ResourceReadResult, ResourceTextContents, SurfaceDecodeError,
};
use mcpg_runtime::json::Json;
use mcpg_runtime::message_dispatcher::GatewayMessageDispatcher;
use mcpg_runtime::notes::{Answer, CallNote};
use mcpg_runtime::policy::PluginIdentity;
use mcpg_runtime::policy_eval::{
    client_capabilities_for_context, reject_foreign_pipeline_resumer, session_error_kind,
    ApprovalOutcome, ApprovalRequest, DebugInfo, GateDecision, PolicyChainOutcome, SurfaceGate,
    SurfaceStep,
};
use mcpg_runtime::policy_gate::PreDispatchPolicyGate;
use mcpg_runtime::protocol::{
    LogLevel, ProtocolHttpResponse, ProtocolResponse, ProtocolVersion, ToolCallResult, ToolContent,
};

fn parse(text: &str) -> Json {
    GatewayMessageDispatcher::new().read(text.as_bytes()).expect("valid JSON")
}

fn at(secs: i64) -> Timestamp {
    Timestamp::new(secs, 0).expect("a time")
}

fn info(enabled: bool) -> DebugInfo {
    DebugInfo { enabled, request_id: "r-1".to_owned(), now: at(0) }
}

fn alice() -> RequestIdentity {
    RequestIdentity::HttpHeader { subject_id: "alice".to_owned(), source: "h".to_owned() }
}

fn anonymous() -> RequestIdentity {
    RequestIdentity::Anonymous { source: "test".to_owned() }
}

fn context(identity: RequestIdentity, session: Option<&str>) -> RequestContext {
    RequestContext::new(
        GatewayRequestId::of("gw-1"),
        None,
        session.map(str::to_owned),
        None,
        identity,
        TransportKind::Http,
    )
}

fn session() -> Result<SessionSnapshot, SessionAccessError> {
    Ok(SessionSnapshot {
        session_id: "s-1".to_owned(),
        phase: SessionPhase::Operational,
        client_capabilities: Json::object(),
    })
}

fn error_of(r: &ProtocolHttpResponse) -> (u16, i32, String) {
    match &r.response {
        ProtocolResponse::JsonRpcError { code, message, .. } => {
            (r.http_status, *code, message.clone())
        }
        other => panic!("expected an error, got {other:?}"),
    }
}

fn data_of(r: &ProtocolHttpResponse) -> Option<Json> {
    match &r.response {
        ProtocolResponse::JsonRpcError { data, .. } => data.as_ref().map(|d| d.copy()),
        other => panic!("expected an error, got {other:?}"),
    }
}

fn result_of(r: &ProtocolHttpResponse) -> &Json {
    match &r.response {
        ProtocolResponse::JsonRpcSuccess { result, .. } => result,
        other => panic!("expected a result, got {other:?}"),
    }
}

fn refusal<T>(r: Result<T, Answer>) -> (u16, i32, String) {
    error_of(&r.err().expect("a refusal").response)
}

#[test]
fn tasks_need_a_session() {
    let refused = task_session(TaskOperation::List, &Json::count(1), None, &info(false));
    assert_eq!(
        error_of(&refused.err().unwrap()),
        (400, -32600, "tasks/list requires an active session".to_owned())
    );
    let kept = task_session(TaskOperation::Get, &Json::count(1), Some("s"), &info(false));
    assert_eq!(kept.ok(), Some("s"));
}

fn failed(op: TaskOperation, fault: TaskStoreFault) -> (u16, i32, String) {
    let error = TaskStoreError { fault, text: "disk".to_owned() };
    let reply = handle_tasks_operation(op, Json::count(1), Err(error), &info(false));
    assert!(!reply.announce_cancellation);
    error_of(&reply.response)
}

#[test]
fn faults_of_the_task_store_are_told_apart() {
    let get = TaskOperation::Get;
    assert_eq!(failed(get, TaskStoreFault::NotFound), (200, -32602, "task not found".to_owned()));
    assert_eq!(
        failed(get, TaskStoreFault::Forbidden),
        (200, -32600, "access denied to task".to_owned())
    );
    assert_eq!(
        failed(TaskOperation::Result, TaskStoreFault::NotCompleted),
        (200, -32602, "task not yet completed".to_owned())
    );
    assert_eq!(
        failed(TaskOperation::Cancel, TaskStoreFault::AlreadyTerminal),
        (200, -32602, "task has already reached a terminal state".to_owned())
    );
    assert_eq!(
        failed(get, TaskStoreFault::Other),
        (200, -32603, "task store error: disk".to_owned())
    );
}

#[test]
fn tasks_are_answered_with_their_state() {
    let task = parse(r#"{"taskId":"t"}"#);
    let r = handle_tasks_operation(
        TaskOperation::Get,
        Json::count(1),
        Ok(TaskAnswer::Task(task.copy())),
        &info(false),
    );
    assert!(result_of(&r.response).same(&task));
    assert!(!r.announce_cancellation);
    let stopped = handle_tasks_operation(
        TaskOperation::Cancel,
        Json::count(1),
        Ok(TaskAnswer::Task(task.copy())),
        &info(false),
    );
    assert!(stopped.announce_cancellation);
    let ended = handle_tasks_operation(
        TaskOperation::Result,
        Json::count(1),
        Ok(TaskAnswer::Terminal(TerminalEnvelope::Error {
            code: -5,
            message: "failed".to_owned(),
            data: None,
        })),
        &info(false),
    );
    assert_eq!(error_of(&ended.response), (200, -5, "failed".to_owned()));
    let page = handle_tasks_operation(
        TaskOperation::List,
        Json::count(1),
        Ok(TaskAnswer::Page { tasks: vec![task], next_cursor: Some("c".to_owned()) }),
        &info(false),
    );
    assert_eq!(result_of(&page.response).get("nextCursor").unwrap().as_str(), Some("c"));
}

#[test]
fn waits_go_on_until_the_task_ends_or_the_time_is_up() {
    let wait = TaskWait::starting(1_000, 0);
    let open = || {
        Err(TaskStoreError { fault: TaskStoreFault::NotCompleted, text: "open".to_owned() })
    };
    assert!(matches!(wait.step(open(), 999), WaitStep::Sleep { millis: 250 }));
    assert!(matches!(wait.step(open(), 1_000), WaitStep::Return(Err(_))));
    let done = Ok(TerminalEnvelope::Success { result: Json::object() });
    assert!(matches!(wait.step(done, 0), WaitStep::Return(Ok(_))));
}

#[test]
fn notifications_carry_the_state_of_a_task() {
    let task = Task {
        task_id: "t-1".to_owned(),
        status: TaskStatus::Working,
        status_message: Some("busy".to_owned()),
        created_at: "a".to_owned(),
        last_updated_at: "b".to_owned(),
        ttl: Some(5),
        poll_interval: Some(7),
    };
    let n = modern_task_status_notification(&task);
    assert_eq!(n.params.task_id, "t-1");
    assert_eq!(n.params.ttl_ms, Some(5));
    assert_eq!(n.params.poll_interval_ms, Some(7));
    assert!(n.params.result.is_none());
}

#[test]
fn sessions_begin_without_an_id() {
    let id = Json::count(1);
    match initialize_start(&id, &context(alice(), Some("s")), &info(false)) {
        InitializeStep::Refused { terminate: None, response } => assert_eq!(
            error_of(&response),
            (400, -32600, "initialize must not include an MCP-Session-Id header".to_owned())
        ),
        other => panic!("unexpected {other:?}"),
    }
    let fresh = context(alice(), None);
    assert!(matches!(
        initialize_start(&id, &fresh, &info(false)),
        InitializeStep::CreateSession
    ));
    match initialize_after_create(String::new(), &id, &fresh, &info(false)) {
        InitializeStep::Refused { response, .. } => assert_eq!(
            error_of(&response),
            (503, -32099, "gateway session capacity exhausted".to_owned())
        ),
        other => panic!("unexpected {other:?}"),
    }
    assert!(matches!(
        initialize_after_create("s-1".to_owned(), &id, &fresh, &info(false)),
        InitializeStep::BindOwner { .. }
    ));
    match initialize_after_count("s-1".to_owned(), false, &id, &info(false)) {
        InitializeStep::Refused { terminate, response } => {
            assert_eq!(terminate.as_deref(), Some("s-1"));
            assert_eq!(
                error_of(&response),
                (429, -32099, "per-tenant session quota exceeded".to_owned())
            );
        }
        other => panic!("unexpected {other:?}"),
    }
}

#[test]
fn new_sessions_are_named_in_the_header() {
    let profile = ServerProfile {
        service_name: "mcpg".to_owned(),
        service_version: "0.1.0".to_owned(),
        has_completions: false,
        idempotency_capability: None,
        apps_capability: None,
    };
    let client = ClientInfo { name: "ide".to_owned(), version: "3".to_owned() };
    let session_id = "s-1".to_owned();
    let answer =
        initialize_response(&profile, Json::count(1), session_id, "2025-11-25", &client, None);
    match answer.notes.as_slice() {
        [CallNote::SessionOpened { session_id, protocol_version, client_name, client_version }] => {
            assert_eq!(session_id, "s-1");
            assert_eq!(protocol_version, "2025-11-25");
            assert_eq!((client_name.as_str(), client_version.as_str()), ("ide", "3"));
        }
        other => panic!("unexpected {other:?}"),
    }
    let r = answer.response;
    assert_eq!(r.session_id_header.as_deref(), Some("s-1"));
    let result = result_of(&r);
    assert_eq!(result.get("protocolVersion").unwrap().as_str(), Some("2025-11-25"));
    assert_eq!(
        result.get("serverInfo").unwrap().get("name").unwrap().as_str(),
        Some("mcpg")
    );
}

#[test]
fn confirmed_sessions_are_accepted() {
    let ctx = context(alice(), Some("s-1"));
    let mut slot = SessionSlot::new();
    assert_eq!(initialized_start(&ctx, &mut slot, session()).ok().as_deref(), Some("s-1"));
    let confirmed = initialized_response(Ok(()));
    assert!(matches!(confirmed.response.response, ProtocolResponse::NotificationAccepted));
    assert!(matches!(confirmed.notes.as_slice(), [CallNote::SessionConfirmed]));
    let unknown = initialized_response(Err(SessionAccessError::UnknownSession));
    assert_eq!(unknown.response.http_status, 404);
    assert!(unknown.notes.is_empty());
    let pong = ping_response(Json::count(1));
    assert!(result_of(&pong.response).same(&Json::object()));
    assert!(matches!(pong.notes.as_slice(), [CallNote::Pinged]));
    assert_eq!(session_error_kind(SessionAccessError::NotInitialized), "session_not_initialized");
}

#[test]
fn elicitations_resume_what_waits_for_them() {
    let content = Some(parse(r#"{"a":1}"#));
    let id = Json::text("e-1");
    let step = elicitation_complete(&id, ElicitationAction::Accept, content, true);
    match step.answer.notes.as_slice() {
        [CallNote::ElicitationCompleted { elicitation_id, action }] => {
            assert_eq!((elicitation_id.as_str(), action.as_str()), ("e-1", "accept"));
        }
        other => panic!("unexpected {other:?}"),
    }
    let resumed = step.resume.expect("something to resume with");
    assert_eq!(resumed.get("action").unwrap().as_str(), Some("accept"));
    assert!(elicitation_complete(&id, ElicitationAction::Decline, None, false).resume.is_none());
    let declined = elicitation_payload(ElicitationAction::Decline, None);
    assert_eq!(declined.get("action").unwrap().as_str(), Some("decline"));
    assert_eq!(response_id_name(&Json::text("x")), "x");
    assert_eq!(response_id_name(&Json::count(7)), "7");
    assert_eq!(response_id_name(&parse(r#"{"a":[1]}"#)), r#"{"a":[1]}"#);
}

fn reference() -> CompletionReference {
    CompletionReference {
        ref_type: "ref/prompt".to_owned(),
        name: Some("p".to_owned()),
        uri: None,
    }
}

#[test]
fn completions_are_limited_per_session() {
    let mut limiter = CompletionLimiter::new();
    limiter.set_completion_rate_limit(Some(2));
    assert!(limiter.allow_completion(Some("a"), 0, 0));
    assert!(limiter.allow_completion(Some("a"), 0, 0));
    assert!(!limiter.allow_completion(Some("a"), 0, 0));
    assert!(limiter.allow_completion(Some("b"), 0, 0));
    assert!(limiter.allow_completion(Some("a"), 1, 5));
    assert_eq!(limiter.last_refill(Some("a"), 9), 5);
    assert!(!limiter.allow_completion(Some("a"), 0, 6));
    limiter.set_completion_rate_limit(None);
    assert!(limiter.allow_completion(Some("a"), 0, 6));
}

#[test]
fn completions_begin_with_the_session_and_the_limit() {
    let mut limiter = CompletionLimiter::new();
    limiter.set_completion_rate_limit(Some(1));
    let id = Json::count(1);
    let ctx = context(alice(), Some("s-1"));
    let mut slot = SessionSlot::new();
    let wanted = parse(r#"{"name":"n","value":"v"}"#);
    match completion_start(&mut limiter, &id, &reference(), wanted, &ctx, &mut slot, session(), true, 0, 0)
    {
        CompletionStep::Authorize(g) => {
            assert_eq!(g.surface, "completion");
            assert_eq!(g.backend_name, "p");
        }
        other => panic!("unexpected {other:?}"),
    }
    let wanted = parse(r#"{"name":"n","value":"v"}"#);
    match completion_start(&mut limiter, &id, &reference(), wanted, &ctx, &mut slot, session(), true, 0, 0)
    {
        CompletionStep::Finish(r) => assert_eq!(
            error_of(&r),
            (429, -32099, "completion rate limit exceeded".to_owned())
        ),
        other => panic!("unexpected {other:?}"),
    }
}

#[test]
fn configured_completions_come_before_those_of_a_backend() {
    let values = |v: &[&str]| CompletionValues::of(v.iter().map(|s| s.to_string()).collect());
    let chosen = choose_completion(values(&["a"]), Some(Ok(values(&["b"]))));
    assert_eq!(chosen.values, vec!["a".to_owned()]);
    let asked = choose_completion(values(&[]), Some(Ok(values(&["b"]))));
    assert_eq!(asked.values, vec!["b".to_owned()]);
    let failed = choose_completion(values(&[]), Some(Err("down".to_owned())));
    assert!(failed.values.is_empty());
    let offered = asked.values.len() as u64;
    let r = completion_response(Json::count(1), &reference(), "who", asked);
    match r.notes.as_slice() {
        [CallNote::CompletionAsked { ref_type, name, argument, count }] => {
            assert_eq!((ref_type.as_str(), name.as_str()), ("ref/prompt", "p"));
            assert_eq!((argument.as_str(), *count), ("who", offered));
        }
        other => panic!("unexpected {other:?}"),
    }
    assert!(result_of(&r.response).same(&parse(r#"{"completion":{"values":["b"]}}"#)));
    let counted = CompletionValues {
        values: vec!["c".to_owned()],
        rest: parse(r#"{"total":9,"hasMore":true,"values":[]}"#),
    };
    let r = completion_response(Json::count(1), &reference(), "who", counted);
    assert!(result_of(&r.response)
        .same(&parse(r#"{"completion":{"values":["c"],"total":9,"hasMore":true}}"#)));
    assert_eq!(reference_name(&reference()), "p");
}

#[test]
fn lists_are_paged() {
    let id = Json::count(1);
    let ctx = context(alice(), Some("s-1"));
    let mut slot = SessionSlot::new();
    let bad = list_start(ListKind::Tools, &id, &ctx, &mut slot, session(), false, &info(false));
    assert_eq!(refusal(bad), (200, -32602, "invalid pagination cursor".to_owned()));
    assert!(list_start(ListKind::Tools, &id, &ctx, &mut slot, session(), true, &info(false)).is_ok());
    let page = list_response(
        ListKind::Tools,
        Json::count(1),
        1,
        Ok(vec![Json::text("t")]),
        Some("n".to_owned()),
        60_000,
    );
    let result = result_of(&page.response);
    assert!(result.get("tools").unwrap().same(&Json::Array(vec![Json::text("t")])));
    assert_eq!(result.get("nextCursor").unwrap().as_str(), Some("n"));
    let rejected =
        list_response(ListKind::Tools, Json::count(1), 1, Err("bad ui".to_owned()), None, 60_000);
    assert_eq!(error_of(&rejected.response), (200, -32603, "bad ui".to_owned()));
}

#[test]
fn unknown_prompts_and_resources_are_named() {
    let id = Json::count(1);
    let ctx = context(alice(), Some("s-1"));
    let mut slot = SessionSlot::new();
    let p = prompt_start(&id, "greet", None, &ctx, &mut slot, session(), false, false, &info(false));
    assert_eq!(refusal(p), (200, -32602, "unknown prompt: greet".to_owned()));
    match resource_start(&id, "r://x", &ctx, &mut slot, session(), None, false, &info(false)) {
        ResourceStep::Finish(a) => {
            assert_eq!(error_of(&a.response), (200, -32602, "unknown resource: r://x".to_owned()));
        }
        other => panic!("unexpected {other:?}"),
    }
    let s = subscribe_start(&id, "r://x", &ctx, &mut slot, session(), false, false, &info(false));
    assert_eq!(refusal(s), (200, -32602, "unknown resource: r://x".to_owned()));
    assert!(matches!(
        resource_start(&id, "mcpg-resource://a/b", &ctx, &mut slot, session(), None, false, &info(false)),
        ResourceStep::Managed { .. }
    ));
}

fn tool_text(body: &str) -> ToolCallResult {
    ToolCallResult {
        content: vec![ToolContent::text(body.to_owned())],
        structured_content: None,
        is_error: false,
        meta: None,
    }
}

#[test]
fn prompts_come_from_their_source() {
    let facts = GatewayFacts {
        service_version: "0.1.0".to_owned(),
        server_bind_address: "127.0.0.1:8787".to_owned(),
        mcp_path: "/mcp".to_owned(),
        tools: 1,
        prompts: 2,
        resources: 3,
    };
    let overview =
        prompt_get_result(PromptSource::OperationalOverview(facts), "o", "c").expect("a prompt");
    assert!(!overview.messages.is_empty());
    let broken = prompt_get_result(PromptSource::Binding(tool_text("{}")), "p", "c");
    let answer = prompt_response(Json::count(1), "p", broken, &info(false));
    assert!(error_of(&answer.response)
        .2
        .starts_with("prompt backend produced a non-conforming response: "));
}

#[test]
fn failures_of_federated_sources_tell_nothing() {
    let r = resource_read_result(
        ResourceSource::Federated(Some(Err("secret host down".to_owned()))),
        "r://x",
        "c-1",
        1,
    );
    let error = r.err().unwrap();
    assert!(!error.message().contains("secret"), "{}", error.message());
    let answer = resource_failed(Json::count(1), &error, &info(false));
    assert_eq!(error_of(&answer.response).1, -32603);
}

#[test]
fn federated_prompts_are_read_or_refused() {
    let unread: Result<PromptGetResult, SurfaceDecodeError> =
        Err(SurfaceDecodeError::BackendError { message: "m".to_owned() });
    let r = prompt_get_result(PromptSource::Federated(Some(Ok(unread))), "p", "c");
    assert!(r.err().unwrap().message().contains('m'));
    let r = prompt_get_result(PromptSource::Federated(Some(Err("host".to_owned()))), "p", "c");
    assert!(r.err().unwrap().message().contains("federated prompt 'p' failed (request id: c)"));
    let r = prompt_get_result(PromptSource::Federated(None), "p", "c");
    assert!(r.err().unwrap().message().contains("federation engine not configured"));
    let given = Ok(PromptGetResult { messages: Vec::new() });
    assert!(prompt_get_result(PromptSource::Federated(Some(Ok(given))), "p", "c").is_ok());
}

fn unknown_session() -> Result<SessionSnapshot, SessionAccessError> {
    Err(SessionAccessError::UnknownSession)
}

fn with_roots(session_id: &str, phase: SessionPhase) -> SessionSnapshot {
    SessionSnapshot {
        session_id: session_id.to_owned(),
        phase,
        client_capabilities: parse(r#"{"roots":{}}"#),
    }
}

#[test]
fn backends_get_what_the_caller_asked_for() {
    let facts = || SessionFacts {
        log_level: Some(LogLevel::Warning),
        loaded: Ok(with_roots("s", SessionPhase::Initializing)),
    };
    let mut slot = SessionSlot::new();
    let slot = &mut slot;
    let meta = parse(r#"{"io.modelcontextprotocol/logLevel":"debug"}"#);
    let bad = parse(r#"{"io.modelcontextprotocol/logLevel":"loud"}"#);
    let ctx = context(alice(), Some("s")).with_negotiated_version(ProtocolVersion::V_2026_07_28);
    let given = Some(parse(r#"{"a":1}"#));
    let p = prompt_request("prof", given, Some(&meta), &ctx, slot, facts());
    assert_eq!(p.tool_name, "prof");
    assert!(p.expr_ctx.arguments.same(&parse(r#"{"a":1}"#)));
    assert_eq!(p.request_log_level, Some(LogLevel::Debug));
    assert_eq!(p.legacy_session_log_level, Some(LogLevel::Warning));
    assert!(p.client_capabilities.same(&parse(r#"{"roots":{}}"#)));
    assert!(p.progress_token.is_none() && p.idempotency_hint.is_none());
    let r = resource_request("prof", "r://x", Some(&bad), &ctx, slot, facts());
    assert_eq!(r.request_log_level, None);
    assert!(r.arguments.unwrap().same(&parse(r#"{"uri":"r://x"}"#)));
    let vars = Attributes::new().with("id", "7");
    let t = template_request("prof", "r://7", &vars, &ctx, slot, facts());
    assert!(t
        .arguments
        .unwrap()
        .same(&parse(r#"{"uri":"r://7","id":"7","template_vars":{"id":"7"}}"#)));
}

#[test]
fn resources_are_answered_as_the_policy_leaves_them() {
    let kept = resource_response(Json::count(1), "r://x", "resource", 4, Ok(Json::object()));
    assert!(result_of(&kept.response).same(&Json::object()));
    let rejected =
        resource_response(Json::count(1), "r://x", "resource", 4, Err("bad csp".to_owned()));
    assert_eq!(error_of(&rejected.response), (200, -32603, "bad csp".to_owned()));
    assert_eq!(resource_arguments("r://x").get("uri").unwrap().as_str(), Some("r://x"));
    let vars = Attributes::new().with("id", "7");
    assert_eq!(template_arguments("r://7", &vars).get("id").unwrap().as_str(), Some("7"));
    let empty = resource_failed(Json::count(1), &SurfaceDecodeError::EmptyResponse, &info(false));
    assert!(error_of(&empty.response)
        .2
        .starts_with("resource backend produced a non-conforming response: "));
}

fn managed(lookup: ManagedLookup, session_id: Option<&str>) -> ProtocolHttpResponse {
    resource_read_managed(
        lookup,
        "mcpg-resource://a/b",
        Json::count(1),
        &context(anonymous(), session_id),
        60_000,
        &info(false),
    )
}

fn stored(owner: Option<&str>) -> ManagedLookup {
    ManagedLookup::Found(StoredContent {
        session_id: owner.map(str::to_owned),
        mime_type: "text/plain".to_owned(),
        bytes: b"hello".to_vec(),
    })
}

#[test]
fn stored_contents_are_read_by_their_session_only() {
    let unknown = (200, -32602, "unknown resource: mcpg-resource://a/b".to_owned());
    assert_eq!(error_of(&managed(ManagedLookup::NoStores, Some("s"))), unknown);
    let nowhere = ManagedLookup::NoProvider { storage_id: "a".to_owned() };
    assert_eq!(error_of(&managed(nowhere, Some("s"))), unknown);
    assert_eq!(error_of(&managed(ManagedLookup::Missing, Some("s"))), unknown);
    assert_eq!(error_of(&managed(stored(Some("other")), Some("s"))), unknown);
    assert_eq!(
        error_of(&managed(ManagedLookup::Failed("disk".to_owned()), Some("s"))),
        (200, -32603, "content store error".to_owned())
    );
    for lookup in [stored(Some("s")), stored(None)] {
        let r = managed(lookup, Some("s"));
        match result_of(&r).get("contents").unwrap() {
            Json::Array(parts) => {
                assert_eq!(parts[0].get("text").unwrap().as_str(), Some("hello"));
            }
            other => panic!("unexpected {other:?}"),
        }
    }
}

#[test]
fn bytes_that_are_no_text_are_shown_in_base64() {
    match show_contents("u", "image/png".to_owned(), &vec![0, 1, 2], None) {
        ResourceContents::Blob(b) => assert_eq!(b.blob, "AAEC"),
        other => panic!("unexpected {other:?}"),
    }
    let broken = ManagedLookup::Found(StoredContent {
        session_id: None,
        mime_type: "text/plain".to_owned(),
        bytes: vec![0xff, 0xfe],
    });
    let r = managed(broken, Some("s"));
    match result_of(&r).get("contents").unwrap() {
        Json::Array(parts) => {
            assert_eq!(parts[0].get("blob").unwrap().as_str(), Some("//4="));
        }
        other => panic!("unexpected {other:?}"),
    }
    assert_eq!(managed_id("b".to_owned(), "a/b"), "b");
}

#[test]
fn subscriptions_are_confirmed() {
    let made = subscribe_response(Json::count(1), "r://x", Ok(()));
    assert!(result_of(&made.response).same(&Json::object()));
    let refused = subscribe_response(Json::count(1), "r://x", Err("full".to_owned()));
    assert_eq!(error_of(&refused.response), (200, -32602, "full".to_owned()));
    let gone = unsubscribe_response(Json::count(1), "r://x", false);
    assert!(result_of(&gone.response).same(&Json::object()));
}

fn gate(has_tool_gates: bool) -> SurfaceGate {
    SurfaceGate::new(
        "prompt",
        "prompt.get.pre",
        "p",
        Json::object(),
        Json::count(1),
        has_tool_gates,
    )
}

fn caller(identity: RequestIdentity) -> RequestContext {
    context(identity, Some("s"))
}

fn pass() -> GateDecision {
    GateDecision::Allow { metadata: None, modified_arguments: None, modified_result: None }
}

#[test]
fn engines_and_plugins_are_shown_what_is_asked_for() {
    let ctx = context(alice(), Some("s"));
    let mut slot = SessionSlot::new();
    let id = Json::count(7);
    let p = prompt_start(
        &id,
        "greet",
        Some(parse(r#"{"who":"bob"}"#)),
        &ctx,
        &mut slot,
        session(),
        true,
        true,
        &info(false),
    )
    .ok()
    .unwrap();
    assert_eq!((p.surface.as_str(), p.decision_point.as_str()), ("prompt", "prompt.get.pre"));
    assert!(p.arguments.same(&parse(r#"{"who":"bob"}"#)));
    match resource_start(&id, "r://x", &ctx, &mut slot, session(), Some(true), false, &info(false)) {
        ResourceStep::Routed { gate: g } => {
            assert_eq!(g.surface, "resource_template");
            assert_eq!(g.decision_point, "resource.read.pre");
            assert!(g.arguments.same(&parse(r#"{"uri":"r://x"}"#)));
        }
        other => panic!("unexpected {other:?}"),
    }
    let s = subscribe_start(&id, "r://x", &ctx, &mut slot, session(), true, false, &info(false))
        .ok()
        .unwrap();
    assert_eq!(s.decision_point, "resource.subscribe.pre");
    let told = s.plugin_context(&ctx, plugin_identity());
    assert_eq!(told.identity.subject_id.as_deref(), Some("alice"));
    assert_eq!(told.request_id, "gw-1");
    assert_eq!(told.session_id.as_deref(), Some("s"));
    assert_eq!(told.tool_name, "r://x");
    assert_eq!(told.surface, "resource");
    assert_eq!(told.transport, "http");
}

fn plugin_identity() -> PluginIdentity {
    PluginIdentity {
        kind: "http_header".to_owned(),
        trust_level: "header_asserted".to_owned(),
        subject_id: Some("alice".to_owned()),
        auth_provider: None,
        issuer: None,
        roles: Vec::new(),
        groups: Vec::new(),
        scopes: Vec::new(),
        attributes: Attributes::new(),
    }
}

#[test]
fn surfaces_await_approvals_with_all_that_is_known() {
    let g = gate(true);
    let asked = ApprovalRequest {
        approval_id: "a-1".to_owned(),
        deadline_at: "soon".to_owned(),
        summary: "read it".to_owned(),
        target_notifiers: vec!["mail".to_owned()],
        metadata: None,
    };
    let request = match g.after_gates(GateDecision::PendingApproval(asked)) {
        SurfaceStep::AwaitApproval(request) => request,
        other => panic!("unexpected {other:?}"),
    };
    let waits = g.await_context(&request, plugin_identity());
    assert_eq!(waits.request.summary, "read it");
    assert_eq!(waits.tool_name, g.backend_name);
    assert!(waits.arguments.unwrap().same(&g.arguments));
    assert_eq!(waits.identity.trust_level, "header_asserted");
}

#[test]
fn surfaces_pass_the_same_layers_as_tools() {
    let mut policies = PreDispatchPolicyGate::default();
    let denied = gate(false)
        .evaluate_surface_gate(
            &mut policies,
            &caller(alice()),
            PolicyChainOutcome::Deny {
                engine: "opa".to_owned(),
                reason: "no".to_owned(),
                policy_version: "1".to_owned(),
            },
            pass(),
            ApprovalOutcome::Approved,
            &info(true),
            0,
        )
        .err()
        .unwrap();
    assert_eq!(error_of(&denied), (403, -33000, "Policy `opa` denied prompt 'p': no".to_owned()));
    assert!(data_of(&denied).is_some());
    let floor = gate(false)
        .evaluate_surface_gate(
            &mut policies,
            &caller(anonymous()),
            PolicyChainOutcome::NotApplicable,
            pass(),
            ApprovalOutcome::Approved,
            &info(false),
            0,
        )
        .err()
        .unwrap();
    assert_eq!(error_of(&floor).1, -32003);
    assert!(data_of(&floor).is_none());
    let plugin = |has_tool_gates: bool, policies: &mut PreDispatchPolicyGate| {
        gate(has_tool_gates).evaluate_surface_gate(
            policies,
            &caller(alice()),
            PolicyChainOutcome::Allow,
            GateDecision::Deny {
                http_status: 418,
                code: -9,
                message: "gate".to_owned(),
                error_data: None,
            },
            ApprovalOutcome::Approved,
            &info(false),
            0,
        )
    };
    assert!(plugin(false, &mut policies).is_ok());
    assert_eq!(error_of(&plugin(true, &mut policies).err().unwrap()).0, 418);
}

#[test]
fn pipelines_are_resumed_by_their_owner_only() {
    let ctx = context(alice(), Some("s"));
    assert!(reject_foreign_pipeline_resumer(&ctx, Some("alice"), "s", &info(false)).is_none());
    assert!(reject_foreign_pipeline_resumer(&ctx, Some("bob"), "s", &info(false)).is_some());
}

#[test]
fn capabilities_of_the_request_come_before_those_of_the_session() {
    let own = Json::object().with("sampling", Json::object());
    let ctx = context(alice(), None).with_modern_request_capabilities(own.copy());
    let loaded = || Ok(with_roots("s", SessionPhase::Initializing));
    let mut slot = SessionSlot::new();
    assert!(client_capabilities_for_context(&ctx, &mut slot, loaded()).same(&own));
    assert!(slot.get().is_none());
    let plain = context(alice(), None);
    let of_session = Json::object().with("roots", Json::object());
    assert!(client_capabilities_for_context(&plain, &mut slot, loaded()).same(&of_session));
    assert!(client_capabilities_for_context(&plain, &mut slot, unknown_session()).same(&of_session));
    let none = client_capabilities_for_context(&plain, &mut SessionSlot::new(), unknown_session());
    assert!(none.same(&Json::object()));
}

fn outcome(envelope: Json) -> CachedOutcome {
    CachedOutcome {
        envelope,
        original_request_id: Json::count(1),
        original_correlation_id: "gw-0".to_owned(),
        replay_count: 2,
        payload_truncated: false,
    }
}

#[test]
fn repeated_calls_get_the_first_answer_marked() {
    let answer = build_idempotency_replay_response(
        Json::count(2),
        "gw-1",
        "k",
        outcome(parse(r#"{"content":[]}"#)),
        at(0),
    );
    let result = result_of(&answer.response);
    let meta = result.get("_meta").unwrap();
    assert_eq!(meta.get("dev.mcpg/idempotency-replayed").unwrap().as_bool(), Some(true));
    assert!(result.get("content").is_some());
}

#[test]
fn repeated_tasks_show_their_present_state() {
    assert!(replayed_task(&outcome(Json::object())).is_none());
    let live = parse(r#"{"taskId":"t","status":"completed"}"#);
    let answer = build_tasks_create_replay_response(
        Json::count(2),
        "gw-1",
        "k",
        outcome(parse(r#"{"task_id":"t","owner":"o"}"#)),
        at(0),
        Some(live.copy()),
    );
    assert!(result_of(&answer.response).get("task").unwrap().same(&live));
}

#[test]
fn padding_fills_the_last_group_of_base64() {
    let shown = |bytes: &[u8]| match show_contents("u", "b/b".to_owned(), &bytes.to_vec(), None) {
        ResourceContents::Blob(b) => b.blob,
        other => panic!("unexpected {other:?}"),
    };
    assert_eq!(shown(b"Man"), "TWFu");
    assert_eq!(shown(b"Ma"), "TWE=");
    assert_eq!(shown(b"M"), "TQ==");
    assert_eq!(shown(b""), "");
    assert_eq!(shown(&[0xfb, 0xff, 0xfe]), "+//+");
}

#[test]
fn refusals_of_gates_are_handed_on_and_noted() {
    let refused = refusal_of_gate();
    let a = gate_denied("prompt", "p", refused);
    assert_eq!(error_of(&a.response), (403, -33000, "Policy `e` denied prompt 'p': r".to_owned()));
    assert!(matches!(
        &a.notes[0],
        CallNote::GateDenied { surface, name } if surface == "prompt" && name == "p"
    ));
}

fn refusal_of_gate() -> ProtocolHttpResponse {
    gate(false)
        .evaluate_surface_gate(
            &mut PreDispatchPolicyGate::default(),
            &caller(alice()),
            PolicyChainOutcome::Deny {
                engine: "e".to_owned(),
                reason: "r".to_owned(),
                policy_version: "1".to_owned(),
            },
            pass(),
            ApprovalOutcome::Approved,
            &info(false),
            0,
        )
        .err()
        .unwrap()
}

#[test]
fn user_interfaces_are_never_shared_by_caches() {
    let part = |uri: &str| ResourceReadResult {
        contents: vec![ResourceContents::Text(ResourceTextContents {
            uri: uri.to_owned(),
            mime_type: None,
            text: "t".to_owned(),
            meta: None,
        })],
        ttl_ms: None,
        cache_scope: None,
        cache_token: None,
    };
    let (body, bytes) = resource_ready("ui://x", part("ui://x"));
    assert_eq!(body.get("cacheScope").unwrap().as_str(), Some("private"));
    let written = r#"{"cacheScope":"private","contents":[{"text":"t","uri":"ui://x"}]}"#;
    assert_eq!(bytes, written.len());
    let (body, _) = resource_ready("file://x", part("file://x"));
    assert!(body.get("cacheScope").is_none());
}
