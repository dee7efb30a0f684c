//! Which tool calls are taken in, and what is known of a call from then on.
use vstd::prelude::*;
use vstd::string::*;

use crate::context;
use crate::context::{RequestContext, SessionAccessError, SessionSlot, SessionSnapshot};
use crate::idempotency;
use crate::idempotency::store;
use crate::idempotency::store::IdempotencyScope;
use crate::idempotency::{KeyValidation, ERROR_CODE_KEY_MALFORMED};
use crate::identity;
use crate::identity::RequestIdentity;
use crate::json;
use crate::json::Json;
use crate::notes;
use crate::notes::{Answer, CallNote};
use crate::outside;
use crate::policy_eval;
use crate::policy_eval::{map_session_error_to_protocol_response, DebugInfo};
use crate::protocol;
use crate::protocol::{
    extract_request_log_level, extract_request_progress_token, protocol_http_error, LogLevel,
    ProtocolVersion,
};
use crate::text;

verus! {

/// How a call asks to be run as a task.
#[derive(Debug, Clone, Copy, PartialEq, Eq, Structural)]
pub struct TaskParams {
    /// How long the task may live.
    pub ttl: Option<u64>,
}

/// What a tool call asks for.
#[derive(Debug)]
pub struct ToolCallParams {
    pub name: String,
    pub arguments: Option<Json>,
    pub task: Option<TaskParams>,
    pub meta: Option<Json>,
}

/// Whether a tool can run as a task.
#[derive(Debug, Clone, Copy, PartialEq, Eq, Structural)]
pub enum TaskSupport {
    Forbidden,
    Optional,
    Required,
}

/// What a tool is served by.
#[derive(Debug, Clone, Copy, PartialEq, Eq, Structural)]
pub enum RouteKind {
    /// A language model.
    LlmRequest,
    /// A JSON call over the network.
    NetworkJsonCall,
    /// A query over the network.
    NetworkQueryCall,
    /// A pipeline; some wait for input on the way.
    Pipeline { suspends: bool },
    /// Anything else.
    Other,
}

/// What the registry knows of a tool.
#[derive(Debug, Clone, Copy, PartialEq, Eq, Structural)]
pub struct ToolInfo {
    pub route: RouteKind,
    pub task_support: Option<TaskSupport>,
}

/// How calls are handled.
#[derive(Debug, Clone, Copy, PartialEq, Eq, Structural)]
pub struct CallSettings {
    /// Whether repeated calls are recognised.
    pub dedupe: bool,
    /// Whether a call passes where the quota store fails.
    pub quota_fail_open: bool,
    /// Whether arguments are checked again after a plugin rewrote them.
    pub revalidate_arguments: bool,
}

/// A call that was taken in.
#[derive(Debug)]
pub struct ToolCall {
    pub request_id: Json,
    /// The gateway's own id of the request.
    pub correlation_id: String,
    pub session_id: Option<String>,
    pub modern: bool,
    pub name: String,
    pub arguments: Option<Json>,
    /// What the caller says beside the arguments, for the gating plugins.
    pub meta: Option<Json>,
    pub task: Option<TaskParams>,
    pub route: RouteKind,
    pub progress_token: Option<Json>,
    pub log_level: Option<LogLevel>,
    /// The idempotency key that the caller chose.
    pub key: Option<String>,
    /// Whom the key belongs to.
    pub scope: Option<IdempotencyScope>,
    /// The hash of what the call asks for.
    pub request_hash: [u8; 32],
    pub settings: CallSettings,
}

/// The namespace of a call's idempotency key. A plain call and one that makes a
/// task do not share one.
pub open spec fn method_text(as_task: bool) -> Seq<char> {
    if as_task {
        "tasks/create"@
    } else {
        "tools/call"@
    }
}

fn method_name(as_task: bool) -> (r: &'static str)
    ensures
        r@ == method_text(as_task),
{
    if as_task {
        "tasks/create"
    } else {
        "tools/call"
    }
}

/// Whom an idempotency key belongs to: the caller, or the session of a caller
/// without a name. A caller without a name and without a session has no scope.
pub open spec fn call_scope(
    caller: identity::IdentityView,
    session: Option<Seq<char>>,
    method: Seq<char>,
    tool_name: Seq<char>,
) -> Option<store::ScopeView> {
    if caller is Anonymous {
        match session {
            Some(sid) => if sid.len() == 0 {
                None
            } else {
                Some(
                    store::ScopeView {
                        tenant_id: "anon-session:"@ + sid,
                        identity_hash: outside::blake3_digest(
                            idempotency::identity_bytes(
                                Some(sid),
                                Some("anonymous-session"@),
                                None,
                            ),
                        ),
                        method,
                        tool_name,
                    },
                )
            },
            None => None,
        }
    } else {
        Some(
            store::ScopeView {
                tenant_id: match caller.principal_id() {
                    Some(p) => p,
                    None => "anonymous"@,
                },
                identity_hash: outside::blake3_digest(
                    idempotency::identity_bytes(
                        caller.principal_id(),
                        caller.auth_provider(),
                        caller.issuer(),
                    ),
                ),
                method,
                tool_name,
            },
        )
    }
}

/// Whom an idempotency key belongs to.
pub fn scope_of_call(
    caller: &RequestIdentity,
    session: Option<&str>,
    as_task: bool,
    tool_name: &str,
) -> (r: Option<IdempotencyScope>)
    ensures
        r.deep_view() == call_scope(
            caller.deep_view(),
            session.deep_view(),
            method_text(as_task),
            tool_name@,
        ),
{
    if caller.is_anonymous() {
        let sid: &str = match session {
            Some(s) => s,
            None => {
                return None;
            },
        };
        if sid.unicode_len() == 0 {
            return None;
        }
        let mut tenant: String = "anon-session:".to_owned();
        tenant.append(sid);
        return Some(
            IdempotencyScope {
                tenant_id: tenant,
                identity_hash: idempotency::hash_identity(
                    Some(sid),
                    Some("anonymous-session"),
                    None,
                ),
                method: method_name(as_task).to_owned(),
                tool_name: tool_name.to_owned(),
            },
        );
    }
    let tenant: String = match caller.principal_id() {
        Some(p) => p.to_owned(),
        None => "anonymous".to_owned(),
    };
    Some(
        IdempotencyScope {
            tenant_id: tenant,
            identity_hash: idempotency::hash_identity(
                caller.principal_id(),
                caller.auth_provider(),
                caller.issuer(),
            ),
            method: method_name(as_task).to_owned(),
            tool_name: tool_name.to_owned(),
        },
    )
}

/// Callers without a name that are in different sessions never share a scope.
pub proof fn law_anonymous_sessions_are_apart(
    a: identity::IdentityView,
    b: identity::IdentityView,
    session_a: Seq<char>,
    session_b: Seq<char>,
    method: Seq<char>,
    tool_name: Seq<char>,
)
    requires
        a is Anonymous,
        b is Anonymous,
        session_a.len() > 0,
        session_b.len() > 0,
        session_a != session_b,
    ensures
        call_scope(a, Some(session_a), method, tool_name) != call_scope(
            b,
            Some(session_b),
            method,
            tool_name,
        ),
{
    let p = "anon-session:"@;
    let x = call_scope(a, Some(session_a), method, tool_name)->0.tenant_id;
    let y = call_scope(b, Some(session_b), method, tool_name)->0.tenant_id;
    if x == y {
        assert((p + session_a).skip(p.len() as int) =~= session_a);
        assert((p + session_b).skip(p.len() as int) =~= session_b);
    }
}

/// A plain call and a call that makes a task never share a scope, whoever makes
/// them.
pub proof fn law_tasks_have_their_own_scope(
    a: identity::IdentityView,
    b: identity::IdentityView,
    session_a: Option<Seq<char>>,
    session_b: Option<Seq<char>>,
    tool_name: Seq<char>,
)
    requires
        call_scope(a, session_a, method_text(true), tool_name) is Some,
    ensures
        call_scope(a, session_a, method_text(true), tool_name) != call_scope(
            b,
            session_b,
            method_text(false),
            tool_name,
        ),
{
    reveal_strlit("tasks/create");
    reveal_strlit("tools/call");
    assert("tasks/create"@.len() != "tools/call"@.len());
}

/// Whether the progress token of a call is neither a text nor a number.
pub open spec fn bad_progress_token(meta: Option<json::Tree>, version: ProtocolVersion) -> bool {
    match protocol::progress_value(meta, version) {
        Some(t) => !(t is Str || t is Number),
        None => false,
    }
}

/// The log level that a call asks for, or an error where it is none.
pub open spec fn asked_log_level(meta: Option<json::Tree>, version: ProtocolVersion) -> Result<
    Option<LogLevel>,
    (),
> {
    if version != ProtocolVersion::V_2026_07_28 {
        Ok(None)
    } else {
        match protocol::meta_field(meta, protocol::LOG_LEVEL_KEY@) {
            None => Ok(None),
            Some(json::Tree::Str(t)) => match LogLevel::of_text(t) {
                Some(l) => Ok(Some(l)),
                None => Err(()),
            },
            Some(_) => Err(()),
        }
    }
}

/// Why a call's wish to be a task, or not to be one, is not met. On the modern
/// wire the server alone makes a call a task, so none is required there.
pub open spec fn task_refusal(
    support: Option<TaskSupport>,
    as_task: bool,
    modern: bool,
    tool_name: Seq<char>,
) -> Option<Seq<char>> {
    if support == Some(TaskSupport::Forbidden) && as_task {
        Some(
            "Tool '"@ + tool_name
                + "' does not support task-augmented execution (taskSupport = forbidden)"@,
        )
    } else if support == Some(TaskSupport::Required) && !as_task && !modern {
        Some(
            "Tool '"@ + tool_name
                + "' requires task-augmented execution (taskSupport = required)"@,
        )
    } else {
        None
    }
}

fn task_refusal_of(support: Option<TaskSupport>, as_task: bool, modern: bool, tool_name: &str) -> (r:
    Option<String>)
    ensures
        r.deep_view() == task_refusal(support, as_task, modern, tool_name@),
{
    match support {
        Some(TaskSupport::Forbidden) => {
            if as_task {
                let mut s: String = "Tool '".to_owned();
                s.append(tool_name);
                s.append(
                    "' does not support task-augmented execution (taskSupport = forbidden)",
                );
                Some(s)
            } else {
                None
            }
        },
        Some(TaskSupport::Required) => {
            if !as_task && !modern {
                let mut s: String = "Tool '".to_owned();
                s.append(tool_name);
                s.append("' requires task-augmented execution (taskSupport = required)");
                Some(s)
            } else {
                None
            }
        },
        _ => None,
    }
}

/// The answer to a call of a tool that does not exist.
pub open spec fn unknown_tool(
    request_id: json::Tree,
    tool_name: Seq<char>,
    info: DebugInfo,
) -> notes::AnswerView {
    notes::AnswerView {
        response: protocol::error_reply(
            200,
            Some(request_id),
            -32602,
            "unknown tool: "@ + tool_name,
            policy_eval::debug_tree(info, "Use tools/list to discover available tool names."@),
        ),
        notes: seq![notes::NoteView::UnknownTool],
    }
}

/// The answer to a call that is malformed.
pub open spec fn malformed(
    request_id: json::Tree,
    code: int,
    message: Seq<char>,
) -> notes::AnswerView {
    notes::plain(protocol::error_reply(400, Some(request_id), code, message, None))
}

/// The answer to a call that is not taken in: the first fault counts.
pub open spec fn admission_refusal(
    session: Result<context::SessionView, SessionAccessError>,
    tool: Option<ToolInfo>,
    params: ToolCallParams,
    version: ProtocolVersion,
    request_id: json::Tree,
    info: DebugInfo,
) -> Option<notes::AnswerView> {
    let modern = version == ProtocolVersion::V_2026_07_28;
    let meta = params.meta.deep_view();
    match (session, tool) {
        (Err(e), _) => Some(
            notes::plain(policy_eval::session_error_reply(e, Some(request_id))),
        ),
        (Ok(_), None) => Some(unknown_tool(request_id, params.name@, info)),
        (Ok(_), Some(t)) => {
            match task_refusal(t.task_support, params.task is Some, modern, params.name@) {
                Some(m) => Some(malformed(request_id, -32602, m)),
                None => if bad_progress_token(meta, version) {
                    Some(
                        malformed(
                            request_id,
                            -32602,
                            "progressToken must be a string or a number"@,
                        ),
                    )
                } else if asked_log_level(meta, version) is Err {
                    Some(
                        malformed(
                            request_id,
                            -32602,
                            "logLevel must be one of the known log levels"@,
                        ),
                    )
                } else {
                    match idempotency::key_verdict(idempotency::meta_key(meta)) {
                        idempotency::KeyVerdict::Invalid(reason) => Some(
                            malformed(
                                request_id,
                                ERROR_CODE_KEY_MALFORMED as int,
                                idempotency::reason_text(reason),
                            ),
                        ),
                        _ => None,
                    }
                },
            }
        },
    }
}

/// The idempotency key of a call that is taken in.
pub open spec fn call_key(meta: Option<json::Tree>) -> Option<Seq<char>> {
    match idempotency::key_verdict(idempotency::meta_key(meta)) {
        idempotency::KeyVerdict::Valid(k) => Some(k),
        _ => None,
    }
}

/// Whether a call says what its request says.
pub open spec fn admitted(
    call: ToolCall,
    params: ToolCallParams,
    ctx: RequestContext,
    tool: ToolInfo,
    request_id: json::Tree,
    settings: CallSettings,
) -> bool {
    let meta = params.meta.deep_view();
    let method = method_text(params.task is Some);
    &&& call.request_id.tree() == request_id
    &&& call.correlation_id@ == ctx.request_id.text()
    &&& call.session_id.deep_view() == ctx.session_id.deep_view()
    &&& call.modern == (ctx.negotiated_version == ProtocolVersion::V_2026_07_28)
    &&& call.name@ == params.name@
    &&& call.arguments.deep_view() == params.arguments.deep_view()
    &&& call.meta.deep_view() == meta
    &&& call.task == params.task
    &&& call.route == tool.route
    &&& call.progress_token.deep_view() == protocol::progress_value(meta, ctx.negotiated_version)
    &&& Ok::<Option<LogLevel>, ()>(call.log_level) == asked_log_level(meta, ctx.negotiated_version)
    &&& call.key.deep_view() == call_key(meta)
    &&& call.scope.deep_view() == (if call_key(meta) is Some {
        call_scope(ctx.identity.deep_view(), ctx.session_id.deep_view(), method, params.name@)
    } else {
        None
    })
    &&& call.request_hash@ == outside::blake3_digest(
        idempotency::body_bytes(method, params.name@, params.arguments.deep_view()),
    )
    &&& call.settings == settings
}

fn malformed_answer(request_id: Json, code: i32, message: String) -> (r: Answer)
    ensures
        r.deep_view() == malformed(request_id.tree(), code as int, message@),
{
    Answer::plain(protocol_http_error(400, Some(request_id), code, message, None))
}

impl ToolCall {
    /// Takes a call in, or answers it at once. `loaded` is what the session
    /// store answers, and `tool` what the registry knows of the tool.
    pub fn take_in(
        request_id: Json,
        params: ToolCallParams,
        request_context: &RequestContext,
        slot: &mut SessionSlot,
        loaded: Result<SessionSnapshot, SessionAccessError>,
        tool: Option<ToolInfo>,
        settings: CallSettings,
        info: &DebugInfo,
    ) -> (r: Result<ToolCall, Answer>)
        ensures
            final(slot).looked_up(*old(slot), loaded),
            notes::refused(r) == admission_refusal(
                context::usable(
                    context::effective(old(slot).known(), loaded),
                    true,
                ),
                tool,
                params,
                request_context.negotiated_version,
                request_id.tree(),
                *info,
            ),
            r matches Ok(call) ==> admitted(
                call,
                params,
                *request_context,
                tool->0,
                request_id.tree(),
                settings,
            ),
    {
        if let Err(e) = request_context.load_session_cached(slot, loaded, true) {
            return Err(
                Answer::plain(map_session_error_to_protocol_response(e, Some(request_id))),
            );
        }
        let tool: ToolInfo = match tool {
            Some(t) => t,
            None => {
                let mut message: String = "unknown tool: ".to_owned();
                message.append(params.name.as_str());
                let data: Option<Json> = info.debug_error_data(
                    "Use tools/list to discover available tool names.",
                );
                return Err(
                    Answer::plain(
                        protocol_http_error(200, Some(request_id), -32602, message, data),
                    ).noting(CallNote::UnknownTool),
                );
            },
        };
        let version: ProtocolVersion = request_context.negotiated_version;
        let modern: bool = version == ProtocolVersion::V_2026_07_28;
        let as_task: bool = params.task.is_some();
        if let Some(message) = task_refusal_of(
            tool.task_support,
            as_task,
            modern,
            params.name.as_str(),
        ) {
            return Err(malformed_answer(request_id, -32602, message));
        }
        let progress_token: Option<Json> = match extract_request_progress_token(
            params.meta.as_ref(),
            version,
        ) {
            Ok(t) => t,
            Err(message) => {
                return Err(malformed_answer(request_id, -32602, message));
            },
        };
        let log_level: Option<LogLevel> = match extract_request_log_level(
            params.meta.as_ref(),
            version,
        ) {
            Ok(l) => l,
            Err(message) => {
                return Err(malformed_answer(request_id, -32602, message));
            },
        };
        let key: Option<String> = match idempotency::extract_request_key(params.meta.as_ref()) {
            KeyValidation::Absent => None,
            KeyValidation::Valid(k) => Some(k),
            KeyValidation::Invalid(reason) => {
                return Err(
                    malformed_answer(
                        request_id,
                        ERROR_CODE_KEY_MALFORMED,
                        reason.as_message().to_owned(),
                    ),
                );
            },
        };
        let request_hash: [u8; 32] = idempotency::hash_request_body(
            method_name(as_task),
            params.name.as_str(),
            params.arguments.as_ref(),
        );
        let session_id: Option<String> = text::copy_opt_str(
            text::opt_as_str(&request_context.session_id),
        );
        let scope: Option<IdempotencyScope> = if key.is_some() {
            scope_of_call(
                &request_context.identity,
                text::opt_as_str(&request_context.session_id),
                as_task,
                params.name.as_str(),
            )
        } else {
            None
        };
        Ok(
            ToolCall {
                request_id,
                correlation_id: request_context.request_id.as_str().to_owned(),
                session_id,
                modern,
                name: params.name,
                arguments: params.arguments,
                meta: params.meta,
                task: params.task,
                route: tool.route,
                progress_token,
                log_level,
                key,
                scope,
                request_hash,
                settings,
            },
        )
    }
}

/// Callers with different names never share a scope, however they came by their
/// names, and a caller with a name has the same scope in every session and in
/// none.
pub proof fn law_named_callers_have_their_own_scope(
    a: RequestIdentity,
    b: RequestIdentity,
    session: Option<Seq<char>>,
    other_session: Option<Seq<char>>,
    method: Seq<char>,
    tool_name: Seq<char>,
)
    requires
        !(a is Anonymous),
        !(b is Anonymous),
        (match a {
            RequestIdentity::HttpHeader { subject_id, .. } => subject_id@,
            RequestIdentity::Verified { subject_id, .. } => subject_id@,
            RequestIdentity::Anonymous { .. } => seq![],
        }) != (match b {
            RequestIdentity::HttpHeader { subject_id, .. } => subject_id@,
            RequestIdentity::Verified { subject_id, .. } => subject_id@,
            RequestIdentity::Anonymous { .. } => seq![],
        }),
    ensures
        call_scope(a.deep_view(), session, method, tool_name) is Some,
        call_scope(a.deep_view(), session, method, tool_name) != call_scope(
            b.deep_view(),
            other_session,
            method,
            tool_name,
        ),
        call_scope(a.deep_view(), session, method, tool_name) == call_scope(
            a.deep_view(),
            other_session,
            method,
            tool_name,
        ),
{
}

/// A scope names the method and the tool that it is for, so that no two tools and
/// no two methods share one, and it holds the hash of who proved the caller's
/// name: a header, or a provider and an issuer.
pub proof fn law_scopes_name_what_they_are_for(
    caller: RequestIdentity,
    session: Option<Seq<char>>,
    method: Seq<char>,
    tool_name: Seq<char>,
)
    ensures
        call_scope(caller.deep_view(), session, method, tool_name) matches Some(s) ==> s.method
            == method && s.tool_name == tool_name,
        caller matches RequestIdentity::HttpHeader { subject_id, .. } ==> (call_scope(
            caller.deep_view(),
            session,
            method,
            tool_name,
        )->0).identity_hash == outside::blake3_digest(
            idempotency::identity_bytes(Some(subject_id@), None, None),
        ),
        caller matches RequestIdentity::Verified {
            subject_id,
            issuer,
            auth_provider,
            ..
        } ==> (call_scope(caller.deep_view(), session, method, tool_name)->0).identity_hash
            == outside::blake3_digest(
            idempotency::identity_bytes(Some(subject_id@), Some(auth_provider@), Some(issuer@)),
        ),
{
}

/// A caller without a name has a scope exactly where it is in a session, and
/// never one that a caller with a name could have, but for a name that spells out
/// a session.
pub proof fn law_nameless_callers_are_their_session(
    caller: RequestIdentity,
    named: RequestIdentity,
    session: Option<Seq<char>>,
    other_session: Option<Seq<char>>,
    method: Seq<char>,
    tool_name: Seq<char>,
)
    requires
        caller is Anonymous,
        !(named is Anonymous),
        session matches Some(s) ==> (match named {
            RequestIdentity::HttpHeader { subject_id, .. } => subject_id@,
            RequestIdentity::Verified { subject_id, .. } => subject_id@,
            RequestIdentity::Anonymous { .. } => seq![],
        }) != "anon-session:"@ + s,
    ensures
        call_scope(caller.deep_view(), session, method, tool_name) is Some <==> (session
            matches Some(s) && s.len() > 0),
        call_scope(caller.deep_view(), session, method, tool_name) != call_scope(
            named.deep_view(),
            other_session,
            method,
            tool_name,
        ),
{
}

/// A call is taken in exactly where its session can be used, its tool exists, it
/// asks to be a task or not as the tool wants it, and its progress token, its log
/// level and its idempotency key are well formed.
pub proof fn law_only_sound_calls_are_taken_in(
    session: Result<context::SessionView, SessionAccessError>,
    tool: Option<ToolInfo>,
    params: ToolCallParams,
    version: ProtocolVersion,
    request_id: json::Tree,
    info: DebugInfo,
)
    ensures
        admission_refusal(session, tool, params, version, request_id, info) is None <==> {
            &&& session is Ok
            &&& tool is Some
            &&& !((tool->0).task_support == Some(TaskSupport::Forbidden) && params.task is Some)
            &&& !((tool->0).task_support == Some(TaskSupport::Required) && params.task is None
                && version == ProtocolVersion::V_2025_11_25)
            &&& !bad_progress_token(params.meta.deep_view(), version)
            &&& asked_log_level(params.meta.deep_view(), version) is Ok
            &&& !(idempotency::key_verdict(
                idempotency::meta_key(params.meta.deep_view()),
            ) is Invalid)
        },
{
}

/// A call that is not taken in is answered under its own id: a missing tool with
/// an error in a reply that the transport counts as good, a fault of the call
/// itself as a bad request, with a code of its own where the key is at fault.
pub proof fn law_refused_calls_are_told_why(
    session: Result<context::SessionView, SessionAccessError>,
    tool: Option<ToolInfo>,
    params: ToolCallParams,
    version: ProtocolVersion,
    request_id: json::Tree,
    info: DebugInfo,
)
    requires
        admission_refusal(session, tool, params, version, request_id, info) is Some,
    ensures
        ({
            let answer = admission_refusal(session, tool, params, version, request_id, info)->0;
            &&& answer.response.body matches protocol::BodyView::Error { id, code, .. } && id
                == Some(request_id) && match session {
                Err(SessionAccessError::MissingSessionId) => code == -32600
                    && answer.response.http_status == 400,
                Err(SessionAccessError::UnknownSession) => code == -32001
                    && answer.response.http_status == 404,
                Err(SessionAccessError::NotInitialized) => code == -32600
                    && answer.response.http_status == 400,
                Ok(_) => if tool is None {
                    code == -32602 && answer.response.http_status == 200
                } else {
                    answer.response.http_status == 400 && (code == -32602 || code == -32013) && (
                    code == -32013 ==> idempotency::key_verdict(
                        idempotency::meta_key(params.meta.deep_view()),
                    ) is Invalid)
                },
            }
        }),
{
}

/// What a request says reaches the call unchanged: its name, its arguments, its
/// id, its wish to be a task, and the key that its caller chose, trimmed. A call
/// without a key has no scope, and so no twin.
pub proof fn law_calls_say_what_was_asked(
    call: ToolCall,
    params: ToolCallParams,
    ctx: RequestContext,
    tool: ToolInfo,
    request_id: json::Tree,
    settings: CallSettings,
)
    requires
        admitted(call, params, ctx, tool, request_id, settings),
    ensures
        call.name@ == params.name@,
        call.arguments.deep_view() == params.arguments.deep_view(),
        call.meta.deep_view() == params.meta.deep_view(),
        call.request_id.tree() == request_id,
        call.task == params.task,
        call.route == tool.route,
        call.session_id.deep_view() == ctx.session_id.deep_view(),
        call.modern <==> ctx.negotiated_version is V_2026_07_28,
        call.settings == settings,
        call.key is None ==> call.scope is None,
        call.key matches Some(k) ==> (params.meta matches Some(m) && (json::tree_get(
            m.tree(),
            "dev.mcpg/idempotency-key"@,
        ) matches Some(json::Tree::Str(raw)) && k@ == text::trimmed(raw))),
        call.scope matches Some(s) ==> s.tool_name@ == params.name@ && s.method@ == (
        if params.task is Some {
            "tasks/create"@
        } else {
            "tools/call"@
        }),
{
}

/// The log level that a call asks for is read on the modern wire only, under its
/// full name; the progress token must be a text or a number.
pub proof fn law_wishes_are_read_where_they_stand(
    meta: Option<json::Tree>,
    version: ProtocolVersion,
    level: LogLevel,
)
    ensures
        asked_log_level(meta, version) == Ok::<Option<LogLevel>, ()>(Some(level)) ==> version
            is V_2026_07_28 && (meta matches Some(m) && json::tree_get(
            m,
            "io.modelcontextprotocol/logLevel"@,
        ) == Some(json::Tree::Str(level.name_text()))),
        version is V_2026_07_28 && (meta matches Some(m) && json::tree_get(
            m,
            "io.modelcontextprotocol/logLevel"@,
        ) == Some(json::Tree::Str(level.name_text()))) ==> asked_log_level(meta, version) == Ok::<
            Option<LogLevel>,
            (),
        >(Some(level)),
        version is V_2025_11_25 ==> asked_log_level(meta, version) == Ok::<Option<LogLevel>, ()>(
            None,
        ),
        bad_progress_token(meta, version) <==> (protocol::progress_value(meta, version) matches Some(
            t,
        ) && !(t is Str) && !(t is Number)),
{
    if let Some(m) = meta {
        if let Some(json::Tree::Str(t)) = json::tree_get(m, "io.modelcontextprotocol/logLevel"@) {
            protocol::law_level_names_read_back(level, t);
        }
    }
}

/// The name of a caller, or nothing.
pub open spec fn own_name(caller: RequestIdentity) -> Option<Seq<char>> {
    match caller {
        RequestIdentity::HttpHeader { subject_id, .. } => Some(subject_id@),
        RequestIdentity::Verified { subject_id, .. } => Some(subject_id@),
        RequestIdentity::Anonymous { .. } => None,
    }
}

/// Calls of the same tool by callers of different names never fall under one scope,
/// whatever their sessions are; and the calls of one caller fall under one scope in
/// every session, one for plain calls and another for calls that make tasks.
pub proof fn law_scopes_of_calls_are_their_callers(
    a: RequestIdentity,
    b: RequestIdentity,
    session: Option<&str>,
    other_session: Option<&str>,
    as_task: bool,
    tool_name: &str,
    of_a: Option<IdempotencyScope>,
    of_b: Option<IdempotencyScope>,
    elsewhere: Option<IdempotencyScope>,
    otherwise: Option<IdempotencyScope>,
)
    requires
        call_ensures(scope_of_call, (&a, session, as_task, tool_name), of_a),
        call_ensures(scope_of_call, (&b, other_session, as_task, tool_name), of_b),
        call_ensures(scope_of_call, (&a, other_session, as_task, tool_name), elsewhere),
        call_ensures(scope_of_call, (&a, session, !as_task, tool_name), otherwise),
        own_name(a) is Some,
        own_name(b) is Some,
    ensures
        of_a is Some && of_b is Some && elsewhere is Some && otherwise is Some,
        own_name(a) != own_name(b) ==> of_a.deep_view() != of_b.deep_view(),
        of_a.deep_view() == elsewhere.deep_view(),
        of_a.deep_view() != otherwise.deep_view(),
{
    reveal_strlit("tasks/create");
    reveal_strlit("tools/call");
    assert("tasks/create"@.len() == 12);
    assert("tools/call"@.len() == 10);
    assert(of_a.deep_view()->0.method != otherwise.deep_view()->0.method);
}

/// The calls of sessions without a name fall under the scope of their session:
/// another session has another scope, and without a session there is none.
pub proof fn law_scopes_of_nameless_calls_are_their_sessions(
    a: RequestIdentity,
    b: RequestIdentity,
    session: Option<&str>,
    other_session: Option<&str>,
    as_task: bool,
    tool_name: &str,
    of_a: Option<IdempotencyScope>,
    of_b: Option<IdempotencyScope>,
)
    requires
        call_ensures(scope_of_call, (&a, session, as_task, tool_name), of_a),
        call_ensures(scope_of_call, (&b, other_session, as_task, tool_name), of_b),
        a is Anonymous,
        b is Anonymous,
    ensures
        of_a is Some <==> (session matches Some(s) && s@.len() > 0),
        of_a is Some && of_b is Some ==> (of_a.deep_view() == of_b.deep_view()
            <==> session->0@ == other_session->0@),
{
    if of_a is Some && of_b is Some && of_a.deep_view() == of_b.deep_view() {
        let s = session->0@;
        let t = other_session->0@;
        let p = "anon-session:"@;
        assert(of_a.deep_view()->0.tenant_id == p + s);
        assert(of_b.deep_view()->0.tenant_id == p + t);
        assert((p + s).skip(p.len() as int) =~= s);
        assert((p + t).skip(p.len() as int) =~= t);
    }
}

/// A request that is taken in becomes the call that it asks for: it has the gateway's
/// own id of the request, looks for a twin by its caller and the key it chose, and is
/// known by the hash of its method, its tool and its arguments, so that two requests
/// for the same have the same hash.
pub proof fn law_requests_become_their_calls(
    request_id: Json,
    params: ToolCallParams,
    request_context: RequestContext,
    slot: &mut SessionSlot,
    loaded: Result<SessionSnapshot, SessionAccessError>,
    tool: Option<ToolInfo>,
    settings: CallSettings,
    info: DebugInfo,
    r: Result<ToolCall, Answer>,
)
    requires
        call_ensures(
            ToolCall::take_in,
            (request_id, params, &request_context, slot, loaded, tool, settings, &info),
            r,
        ),
        old(slot).known() is None,
    ensures
        r is Ok ==> tool is Some && (loaded matches Ok(s) && s.phase is Operational),
        r matches Ok(call) ==> {
            &&& call.correlation_id@ == request_context.request_id.text()
            &&& call.request_id.tree() == request_id.tree()
            &&& call.name@ == params.name@
            &&& call.arguments.deep_view() == params.arguments.deep_view()
            &&& call.settings == settings
            &&& own_name(request_context.identity) is Some ==> (call.scope is Some
                <==> call.key is Some)
            &&& call.scope matches Some(s) ==> s.tool_name@ == params.name@ && (own_name(
                request_context.identity,
            ) matches Some(n) ==> s.tenant_id@ == n)
            &&& call.request_hash@ == outside::blake3_digest(
                idempotency::body_bytes(
                    if params.task is Some {
                        "tasks/create"@
                    } else {
                        "tools/call"@
                    },
                    params.name@,
                    params.arguments.deep_view(),
                ),
            )
        },
        final(slot).known() == Some(context::lookup_view(loaded)),
{
}

/// A call that is not taken in is told which tool it is about: one that does not exist,
/// and one that cannot be, or must be, a task. A missing tool goes on record.
pub proof fn law_refused_calls_name_their_tool(
    request_id: json::Tree,
    name: Seq<char>,
    info: DebugInfo,
    support: Option<TaskSupport>,
    as_task: bool,
    modern: bool,
)
    ensures
        unknown_tool(request_id, name, info).response.body matches protocol::BodyView::Error {
            message,
            data,
            ..
        } && text::ends_with(message, name) && data is Some == info.enabled,
        unknown_tool(request_id, name, info).notes == seq![notes::NoteView::UnknownTool],
        task_refusal(support, as_task, modern, name) matches Some(m) ==> text::stands_in(m, name),
        task_refusal(support, as_task, modern, name) is Some <==> support == Some(
            TaskSupport::Forbidden,
        ) && as_task || support == Some(TaskSupport::Required) && !as_task && !modern,
        task_refusal(Some(TaskSupport::Forbidden), true, modern, name) != task_refusal(
            Some(TaskSupport::Required),
            false,
            false,
            name,
        ),
{
    text::lemma_stands("unknown tool: "@, name, seq![]);
    let a = "' does not support task-augmented execution (taskSupport = forbidden)"@;
    let b = "' requires task-augmented execution (taskSupport = required)"@;
    text::lemma_stands("Tool '"@, name, a);
    text::lemma_stands("Tool '"@, name, b);
    reveal_strlit("' does not support task-augmented execution (taskSupport = forbidden)");
    reveal_strlit("' requires task-augmented execution (taskSupport = required)");
    let x = "Tool '"@ + name + a;
    let y = "Tool '"@ + name + b;
    assert(a.len() != b.len());
    assert(x.len() != y.len());
}

} // verus!
