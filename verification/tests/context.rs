use mcpg_runtime::context::{
    cancellation_requester_is_owner, resumer_owns_pipeline, session_owner_matches,
    CancellationEvent, RegisteredCancellation, RequestContext, SessionAccessError, SessionPhase,
    SessionSlot, SessionSnapshot,
};
use mcpg_runtime::identity::{
    Attributes, GatewayRequestId, RequestIdentity, RequestTrustLevel, TransportKind,
};
use mcpg_runtime::json::Json;
use mcpg_runtime::message_dispatcher::GatewayMessageDispatcher;
use mcpg_runtime::protocol::{
    extract_request_log_level, extract_request_progress_token, LogLevel, ProtocolVersion,
};

const MODERN: ProtocolVersion = ProtocolVersion::V_2026_07_28;
const LEGACY: ProtocolVersion = ProtocolVersion::V_2025_11_25;

fn parse(text: &str) -> Json {
    GatewayMessageDispatcher::new().read(text.as_bytes()).expect("valid JSON")
}

#[test]
fn identified_owner_requires_principal_and_session() {
    assert!(resumer_owns_pipeline(Some("alice"), "sess-1", Some("alice"), Some("sess-1")));
    assert!(!resumer_owns_pipeline(Some("alice"), "sess-1", Some("alice"), Some("sess-2")));
    assert!(!resumer_owns_pipeline(Some("alice"), "sess-1", Some("bob"), Some("sess-1")));
    assert!(!resumer_owns_pipeline(Some("alice"), "sess-1", Some("alice"), None));
}

#[test]
fn anonymous_owner_is_matched_by_principal_alone() {
    assert!(resumer_owns_pipeline(None, "", None, Some("whatever")));
    assert!(resumer_owns_pipeline(None, "ephemeral", None, None));
    assert!(!resumer_owns_pipeline(None, "", Some("alice"), Some("s")));
}

fn registered(owner_principal: Option<&str>, owner_session: Option<&str>) -> RegisteredCancellation {
    RegisteredCancellation {
        owner_session: owner_session.map(str::to_owned),
        owner_principal: owner_principal.map(str::to_owned),
    }
}

fn cancel_event(principal_id: Option<&str>, session_id: &str) -> CancellationEvent {
    CancellationEvent {
        target_id: "t-1".to_owned(),
        session_id: session_id.to_owned(),
        principal_id: principal_id.map(str::to_owned),
        reason: None,
    }
}

#[test]
fn cancellation_requires_owning_principal_and_session() {
    let owner = registered(Some("alice"), Some("sess-1"));
    assert!(cancellation_requester_is_owner(&owner, &cancel_event(Some("alice"), "sess-1")));
    assert!(!cancellation_requester_is_owner(&owner, &cancel_event(Some("bob"), "sess-1")));
    assert!(!cancellation_requester_is_owner(&owner, &cancel_event(Some("alice"), "sess-2")));
}

#[test]
fn anonymous_cancellation_is_matched_by_principal_alone() {
    let owner = registered(None, None);
    assert!(cancellation_requester_is_owner(&owner, &cancel_event(None, "any-session")));
    assert!(!cancellation_requester_is_owner(&owner, &cancel_event(Some("alice"), "any-session")));
}

#[test]
fn session_owner_binding_requires_principal_match() {
    assert!(session_owner_matches(Some("alice"), Some("alice")));
    assert!(!session_owner_matches(Some("alice"), Some("bob")));
    assert!(!session_owner_matches(Some("alice"), None));
    assert!(!session_owner_matches(None, Some("alice")));
    assert!(session_owner_matches(None, None));
}

#[test]
fn modern_progress_token_read_from_namespaced_key() {
    let meta = parse(r#"{ "io.modelcontextprotocol/progressToken": "p-9" }"#);
    let tok = extract_request_progress_token(Some(&meta), MODERN).unwrap();
    assert!(tok.unwrap().same(&Json::text("p-9")));
}

#[test]
fn modern_progress_token_falls_back_to_bare_key() {
    let meta = parse(r#"{ "progressToken": 7 }"#);
    let tok = extract_request_progress_token(Some(&meta), MODERN).unwrap();
    assert!(tok.unwrap().same(&Json::count(7)));
}

#[test]
fn legacy_progress_token_ignores_namespaced_key() {
    let meta = parse(r#"{ "io.modelcontextprotocol/progressToken": "p-9" }"#);
    let tok = extract_request_progress_token(Some(&meta), LEGACY).unwrap();
    assert!(tok.is_none());

    let bare = parse(r#"{ "progressToken": "p-1" }"#);
    let tok = extract_request_progress_token(Some(&bare), LEGACY).unwrap();
    assert!(tok.unwrap().same(&Json::text("p-1")));
}

#[test]
fn malformed_progress_token_is_rejected() {
    let meta = parse(r#"{ "progressToken": { "bad": true } }"#);
    assert!(extract_request_progress_token(Some(&meta), MODERN).is_err());
}

#[test]
fn modern_log_level_parsed_from_namespaced_key() {
    let meta = parse(r#"{ "io.modelcontextprotocol/logLevel": "warning" }"#);
    let lvl = extract_request_log_level(Some(&meta), MODERN).unwrap();
    assert_eq!(lvl, Some(LogLevel::Warning));
}

#[test]
fn modern_log_level_absent_is_none() {
    let meta = parse("{}");
    assert_eq!(extract_request_log_level(Some(&meta), MODERN).unwrap(), None);
    assert_eq!(extract_request_log_level(None, MODERN).unwrap(), None);
}

#[test]
fn legacy_never_reads_log_level() {
    let meta = parse(r#"{ "io.modelcontextprotocol/logLevel": "error" }"#);
    assert_eq!(extract_request_log_level(Some(&meta), LEGACY).unwrap(), None);
}

#[test]
fn malformed_log_level_is_rejected() {
    let bad_str = parse(r#"{ "io.modelcontextprotocol/logLevel": "louder" }"#);
    assert!(extract_request_log_level(Some(&bad_str), MODERN).is_err());
    let bad_type = parse(r#"{ "io.modelcontextprotocol/logLevel": 3 }"#);
    assert!(extract_request_log_level(Some(&bad_type), MODERN).is_err());
}

#[test]
fn log_level_permits_at_or_above_threshold() {
    assert!(LogLevel::Warning.permits(LogLevel::Info));
    assert!(LogLevel::Info.permits(LogLevel::Info));
    assert!(!LogLevel::Debug.permits(LogLevel::Info));
    assert!(LogLevel::Emergency.permits(LogLevel::Debug));
}

fn context(identity: RequestIdentity, session: Option<&str>) -> RequestContext {
    RequestContext::new(
        GatewayRequestId::new(),
        None,
        session.map(str::to_owned),
        None,
        identity,
        TransportKind::Http,
    )
}

fn verified(subject: &str, issuer: &str) -> RequestIdentity {
    RequestIdentity::Verified {
        subject_id: subject.to_owned(),
        issuer: issuer.to_owned(),
        auth_provider: "oidc".to_owned(),
        source: "test".to_owned(),
        roles: vec!["admin".to_owned()],
        groups: Vec::new(),
        scopes: Vec::new(),
        attributes: Attributes::new().with("dept", "eng"),
    }
}

fn header(subject: &str) -> RequestIdentity {
    RequestIdentity::HttpHeader { subject_id: subject.to_owned(), source: "h".to_owned() }
}

fn anonymous() -> RequestIdentity {
    RequestIdentity::Anonymous { source: "test".to_owned() }
}

#[test]
fn tasks_belong_to_principals_or_else_to_sessions() {
    assert_eq!(
        context(verified("alice", "idp"), Some("s")).task_owner_key().as_deref(),
        Some("verified::oidc::idp::alice")
    );
    assert_eq!(
        context(header("alice"), Some("s")).task_owner_key().as_deref(),
        Some("header_asserted::alice")
    );
    assert_eq!(context(anonymous(), Some("s")).task_owner_key().as_deref(), Some("s"));
    assert_eq!(context(anonymous(), None).task_owner_key(), None);
}

#[test]
fn identities_have_labels_and_trust() {
    assert_eq!(anonymous().label(), "anonymous");
    assert_eq!(header("a").trust_level(), RequestTrustLevel::HeaderAsserted);
    assert!(header("a").is_below_verified());
    assert!(!verified("a", "i").is_below_verified());
    assert_eq!(verified("a", "i").issuer(), Some("i"));
    assert_eq!(header("a").auth_provider(), None);
    assert!(anonymous().is_anonymous());
    assert_eq!(verified("a", "i").roles().len(), 1);
    assert_eq!(header("a").roles().len(), 0);
    assert_eq!(verified("a", "i").attributes().get("dept"), Some("eng"));
}

fn snapshot(session_id: &str, phase: SessionPhase) -> SessionSnapshot {
    SessionSnapshot {
        session_id: session_id.to_owned(),
        phase,
        client_capabilities: Json::object(),
    }
}

#[test]
fn a_session_is_looked_up_once() {
    let ctx = context(anonymous(), Some("s"));
    let mut slot = SessionSlot::new();
    assert!(slot.get().is_none());
    let loaded = snapshot("s", SessionPhase::Initializing);
    let first = ctx.load_session_cached(&mut slot, Ok(loaded), true);
    assert!(matches!(first, Err(SessionAccessError::NotInitialized)));
    assert_eq!(slot.get().unwrap().unwrap().session_id, "s");
    let again = ctx.load_session_cached(&mut slot, Err(SessionAccessError::UnknownSession), false);
    assert_eq!(again.unwrap().session_id, "s");
}

#[test]
fn failed_lookups_are_remembered_too() {
    let ctx = context(anonymous(), None);
    let mut slot = SessionSlot::default();
    let missing = Err(SessionAccessError::MissingSessionId);
    assert!(ctx.load_session_cached(&mut slot, missing, false).is_err());
    let loaded = snapshot("s", SessionPhase::Operational);
    assert!(matches!(
        ctx.load_session_cached(&mut slot, Ok(loaded), false),
        Err(SessionAccessError::MissingSessionId)
    ));
}

#[test]
fn ephemeral_sessions_need_no_lookup() {
    let plain = context(anonymous(), None).with_trace_context(Some("00-t".to_owned()));
    let started_at = plain.started_at;
    let (ctx, mut slot) =
        plain.with_ephemeral_session(snapshot("eph", SessionPhase::Operational));
    assert!(ctx.session_ephemeral);
    assert_eq!(ctx.session_id.as_deref(), Some("eph"));
    assert_eq!(ctx.trace_context.as_deref(), Some("00-t"));
    assert_eq!(ctx.started_at, started_at);
    let unknown = Err(SessionAccessError::UnknownSession);
    let seen = ctx.load_session_cached(&mut slot, unknown, true).unwrap();
    assert_eq!(seen.session_id, "eph");
}

#[test]
fn contexts_of_a_request_share_its_session() {
    let ctx = context(verified("alice", "idp"), Some("s"));
    let early = ctx.copy();
    let mut slot = SessionSlot::new();
    let loaded = snapshot("s", SessionPhase::Operational);
    ctx.load_session_cached(&mut slot, Ok(loaded), true).unwrap();
    let late = ctx.copy();
    for copy in [early, late] {
        assert_eq!(copy.request_id.as_str(), ctx.request_id.as_str());
        assert_eq!(copy.identity.principal_id(), Some("alice"));
        assert_eq!(copy.started_at, ctx.started_at);
        let unknown = Err(SessionAccessError::UnknownSession);
        let seen = copy.load_session_cached(&mut slot, unknown, true).unwrap();
        assert_eq!(seen.session_id, "s");
    }
}

#[test]
fn expressions_see_the_caller_and_the_call() {
    let ctx = context(verified("alice", "idp"), Some("s"));
    let e = ctx.to_expr_context("tool", None);
    assert!(e.arguments.same(&Json::object()));
    assert_eq!(e.tool_name, "tool");
    assert_eq!(e.context.principal_id.as_deref(), Some("alice"));
    assert_eq!(e.context.trust_level, "verified");
    assert_eq!(e.context.transport, "http");
}

#[test]
fn white_space_is_what_std_takes_for_it() {
    for n in 0..=0x10ffffu32 {
        if let Some(c) = char::from_u32(n) {
            assert_eq!(mcpg_runtime::text::is_space(c), c.is_whitespace(), "{n:x}");
        }
    }
    assert_eq!(mcpg_runtime::text::trim("\u{a0} a b\t"), "a b");
}

#[test]
fn contexts_keep_what_they_are_given() {
    let ctx = context(anonymous(), Some("s"))
        .with_inbound_bearer(Some("b".to_owned()))
        .with_trace_context(Some("00-1-2-01".to_owned()));
    assert_eq!(ctx.inbound_bearer.as_deref(), Some("b"));
    assert_eq!(ctx.trace_context.as_deref(), Some("00-1-2-01"));
    assert_eq!(ctx.session_id.as_deref(), Some("s"));
}

#[test]
fn fresh_request_ids_are_random_uuids() {
    let id = GatewayRequestId::new();
    let text = id.as_str();
    assert_eq!(text.len(), 36);
    for (i, c) in text.chars().enumerate() {
        if i == 8 || i == 13 || i == 18 || i == 23 {
            assert_eq!(c, '-');
        } else {
            assert!(c.is_ascii_digit() || ('a'..='f').contains(&c));
        }
    }
    assert_eq!(&text[14..15], "4");
    assert!(["8", "9", "a", "b"].contains(&&text[19..20]));
    assert_ne!(text, GatewayRequestId::default().as_str());
}
