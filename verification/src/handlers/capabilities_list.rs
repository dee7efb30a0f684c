//! Lists of what the gateway offers, prompts, and resources.
use vstd::prelude::*;
use vstd::string::*;

use crate::context;
use crate::context::{RequestContext, SessionAccessError, SessionSlot, SessionSnapshot};
use crate::identity::Attributes;
use crate::invocation;
use crate::invocation::{
    BlobResourceContents, PromptGetResult, PromptMessage, PromptMessageContent, ResourceContents,
    ResourceReadResult, ResourceTextContents, SurfaceDecodeError,
};
use crate::json;
use crate::json::Json;
use crate::notes;
use crate::notes::{Answer, CallNote};
use crate::outside;
use crate::policy_eval;
use crate::policy_eval::{map_session_error_to_protocol_response, DebugInfo, SurfaceGate};
use crate::protocol;
use crate::protocol::{
    protocol_http_error, protocol_http_success, CacheScope, ProtocolHttpResponse,
};
use crate::text;

verus! {

/// What is listed.
#[derive(Debug, Clone, Copy, PartialEq, Eq, Structural)]
pub enum ListKind {
    Tools,
    Prompts,
    Resources,
    ResourceTemplates,
}

/// The field that holds a list.
pub open spec fn list_field(kind: ListKind) -> Seq<char> {
    match kind {
        ListKind::Tools => "tools"@,
        ListKind::Prompts => "prompts"@,
        ListKind::Resources => "resources"@,
        ListKind::ResourceTemplates => "resourceTemplates"@,
    }
}

/// The name of what is listed, for the records.
pub open spec fn list_surface(kind: ListKind) -> Seq<char> {
    match kind {
        ListKind::Tools => "tool"@,
        ListKind::Prompts => "prompt"@,
        ListKind::Resources => "resource"@,
        ListKind::ResourceTemplates => "resource_template"@,
    }
}

fn list_names(kind: ListKind) -> (r: (&'static str, &'static str))
    ensures
        r.0@ == list_field(kind),
        r.1@ == list_surface(kind),
{
    match kind {
        ListKind::Tools => ("tools", "tool"),
        ListKind::Prompts => ("prompts", "prompt"),
        ListKind::Resources => ("resources", "resource"),
        ListKind::ResourceTemplates => ("resourceTemplates", "resource_template"),
    }
}

/// The session of a request, as a handler may use it.
pub open spec fn session_of(
    slot: SessionSlot,
    loaded: Result<SessionSnapshot, SessionAccessError>,
) -> Result<context::SessionView, SessionAccessError> {
    context::usable(context::effective(slot.known(), loaded), true)
}

/// The answer to a request without a usable session.
pub open spec fn session_refusal(
    session: Result<context::SessionView, SessionAccessError>,
    request_id: json::Tree,
) -> Option<notes::AnswerView> {
    match session {
        Err(e) => Some(notes::plain(policy_eval::session_error_reply(e, Some(request_id)))),
        Ok(_) => None,
    }
}

/// Answers a request without a usable session.
pub fn require_session(
    request_id: &Json,
    request_context: &RequestContext,
    slot: &mut SessionSlot,
    loaded: Result<SessionSnapshot, SessionAccessError>,
) -> (r: Result<(), Answer>)
    ensures
        final(slot).looked_up(*old(slot), loaded),
        notes::refused(r) == session_refusal(
            session_of(*old(slot), loaded),
            request_id.tree(),
        ),
{
    match request_context.load_session_cached(slot, loaded, true) {
        Ok(_) => Ok(()),
        Err(e) => Err(
            Answer::plain(map_session_error_to_protocol_response(e, Some(request_id.copy()))),
        ),
    }
}

/// The answer to a request for a list that is refused: without a session, or,
/// for tools, with a cursor that this gateway did not hand out.
pub open spec fn list_refusal(
    kind: ListKind,
    session: Result<context::SessionView, SessionAccessError>,
    cursor_valid: bool,
    request_id: json::Tree,
    info: DebugInfo,
) -> Option<notes::AnswerView> {
    match session_refusal(session, request_id) {
        Some(a) => Some(a),
        None => if kind == ListKind::Tools && !cursor_valid {
            Some(
                notes::plain(
                    protocol::error_reply(
                        200,
                        Some(request_id),
                        -32602,
                        "invalid pagination cursor"@,
                        policy_eval::debug_tree(
                            info,
                            "Omit `cursor` to start from the first page; reuse only a `nextCursor` returned by this server."@,
                        ),
                    ),
                ),
            )
        } else {
            None
        },
    }
}

/// Answers a request for a list that is refused.
pub fn list_start(
    kind: ListKind,
    request_id: &Json,
    request_context: &RequestContext,
    slot: &mut SessionSlot,
    loaded: Result<SessionSnapshot, SessionAccessError>,
    cursor_valid: bool,
    info: &DebugInfo,
) -> (r: Result<(), Answer>)
    ensures
        final(slot).looked_up(*old(slot), loaded),
        notes::refused(r) == list_refusal(
            kind,
            session_of(*old(slot), loaded),
            cursor_valid,
            request_id.tree(),
            *info,
        ),
{
    if let Err(a) = require_session(request_id, request_context, slot, loaded) {
        return Err(a);
    }
    if kind == ListKind::Tools && !cursor_valid {
        return Err(
            Answer::plain(
                protocol_http_error(
                    200,
                    Some(request_id.copy()),
                    -32602,
                    "invalid pagination cursor".to_owned(),
                    info.debug_error_data(
                        "Omit `cursor` to start from the first page; reuse only a `nextCursor` returned by this server.",
                    ),
                ),
            ),
        );
    }
    Ok(())
}

/// The JSON of a page of a list. A list is never shared between callers.
pub open spec fn list_tree(
    kind: ListKind,
    page: Seq<json::Tree>,
    next_cursor: Option<Seq<char>>,
    ttl_ms: u64,
) -> json::Tree {
    json::Tree::Object(
        protocol::insert_some(
            json::map_of(
                seq![
                    (list_field(kind), json::Tree::Array(page)),
                    ("ttlMs"@, json::Tree::Number(text::decimal_text(ttl_ms as nat))),
                    ("cacheScope"@, json::Tree::Str("private"@)),
                ],
            ),
            "nextCursor"@,
            invocation::opt_text(next_cursor),
        ),
    )
}

/// The answer to a request for a list. A page that the policy on user interfaces
/// rejects is not handed out.
pub open spec fn list_answer(
    kind: ListKind,
    request_id: json::Tree,
    count: u64,
    page: Result<Seq<json::Tree>, Seq<char>>,
    next_cursor: Option<Seq<char>>,
    ttl_ms: u64,
) -> notes::AnswerView {
    notes::AnswerView {
        response: match page {
            Ok(p) => protocol::success_reply(request_id, list_tree(kind, p, next_cursor, ttl_ms)),
            Err(message) => protocol::error_reply(200, Some(request_id), -32603, message, None),
        },
        notes: seq![notes::NoteView::Listed { surface: list_surface(kind), count }],
    }
}

/// Answers a request for a list. `page` is what the policy on user interfaces
/// leaves of the page, or why it rejects it; `count` is the length of the page.
pub fn list_response(
    kind: ListKind,
    request_id: Json,
    count: u64,
    page: Result<Vec<Json>, String>,
    next_cursor: Option<String>,
    ttl_ms: u64,
) -> (r: Answer)
    ensures
        r.deep_view() == list_answer(
            kind,
            request_id.tree(),
            count,
            match page {
                Ok(p) => Ok(json::elements(p@)),
                Err(e) => Err(e@),
            },
            next_cursor.deep_view(),
            ttl_ms,
        ),
{
    proof {
        reveal_with_fuel(json::map_of, 4);
    }
    let (field, surface): (&'static str, &'static str) = list_names(kind);
    let response: ProtocolHttpResponse = match page {
        Err(message) => protocol_http_error(200, Some(request_id), -32603, message, None),
        Ok(p) => {
            let cursor: Option<Json> = match next_cursor {
                Some(c) => Some(Json::Str(c)),
                None => None,
            };
            let result: Json = protocol::with_some(
                Json::object().with(field, Json::Array(p)).with(
                    "ttlMs",
                    Json::count(ttl_ms),
                ).with("cacheScope", Json::text("private")),
                "nextCursor",
                cursor,
            );
            protocol_http_success(request_id, result)
        },
    };
    Answer::plain(response).noting(CallNote::Listed { surface: surface.to_owned(), count })
}

/// The answer to a request for a prompt that is refused at once.
pub open spec fn prompt_refusal(
    session: Result<context::SessionView, SessionAccessError>,
    known: bool,
    name: Seq<char>,
    request_id: json::Tree,
    info: DebugInfo,
) -> Option<notes::AnswerView> {
    match session_refusal(session, request_id) {
        Some(a) => Some(a),
        None => if known {
            None
        } else {
            Some(
                notes::AnswerView {
                    response: protocol::error_reply(
                        200,
                        Some(request_id),
                        -32602,
                        "unknown prompt: "@ + name,
                        policy_eval::debug_tree(
                            info,
                            "Use prompts/list to discover available prompt names."@,
                        ),
                    ),
                    notes: seq![notes::NoteView::NotFound { surface: "prompt"@, name }],
                },
            )
        },
    }
}

/// The authorization that a request for a prompt needs, or its answer. `known`
/// says whether there is such a prompt.
pub fn prompt_start(
    request_id: &Json,
    name: &str,
    arguments: Option<Json>,
    request_context: &RequestContext,
    slot: &mut SessionSlot,
    loaded: Result<SessionSnapshot, SessionAccessError>,
    known: bool,
    has_tool_gates: bool,
    info: &DebugInfo,
) -> (r: Result<SurfaceGate, Answer>)
    ensures
        final(slot).looked_up(*old(slot), loaded),
        notes::refused(r) == prompt_refusal(
            session_of(*old(slot), loaded),
            known,
            name@,
            request_id.tree(),
            *info,
        ),
        r matches Ok(g) ==> g.asks(
            "prompt"@,
            "prompt.get.pre"@,
            name@,
            json::or_object(arguments.deep_view()),
            request_id.tree(),
            has_tool_gates,
        ),
{
    if let Err(a) = require_session(request_id, request_context, slot, loaded) {
        return Err(a);
    }
    if !known {
        let mut message: String = "unknown prompt: ".to_owned();
        message.append(name);
        return Err(
            Answer::plain(
                protocol_http_error(
                    200,
                    Some(request_id.copy()),
                    -32602,
                    message,
                    info.debug_error_data("Use prompts/list to discover available prompt names."),
                ),
            ).noting(
                CallNote::NotFound { surface: "prompt".to_owned(), name: name.to_owned() },
            ),
        );
    }
    let shown: Json = match arguments {
        Some(a) => a,
        None => Json::object(),
    };
    Ok(
        SurfaceGate::new(
            "prompt",
            "prompt.get.pre",
            name,
            shown,
            request_id.copy(),
            has_tool_gates,
        ),
    )
}

/// Hands on the answer of a gate that refused a prompt or a resource.
pub fn gate_denied(surface: &str, name: &str, response: ProtocolHttpResponse) -> (r: Answer)
    ensures
        r.deep_view() == (notes::AnswerView {
            response: response.deep_view(),
            notes: seq![notes::NoteView::GateDenied { surface: surface@, name: name@ }],
        }),
{
    Answer::plain(response).noting(
        CallNote::GateDenied { surface: surface.to_owned(), name: name.to_owned() },
    )
}

/// What the gateway says of itself in a prompt.
#[derive(Debug)]
pub struct GatewayFacts {
    pub service_version: String,
    pub server_bind_address: String,
    pub mcp_path: String,
    pub tools: u64,
    pub prompts: u64,
    pub resources: u64,
}

/// The text of the prompt on the gateway itself.
pub open spec fn overview_text(facts: GatewayFacts) -> Seq<char> {
    "MCPG "@ + facts.service_version@ + " is running at "@ + facts.server_bind_address@
        + " with MCP endpoint "@ + facts.mcp_path@ + ". Available tools: "@ + text::decimal_text(
        facts.tools as nat,
    ) + ". Available prompts: "@ + text::decimal_text(facts.prompts as nat)
        + ". Available resources: "@ + text::decimal_text(facts.resources as nat) + "."@
}

/// Where a prompt comes from.
#[derive(Debug)]
pub enum PromptSource {
    /// The gateway itself.
    OperationalOverview(GatewayFacts),
    /// A backend, with its answer.
    Binding(protocol::ToolCallResult),
    /// Another server, with what its answer reads as. `None` stands for a gateway
    /// that knows no others; the text of a failure is for the operator alone.
    Federated(Option<Result<Result<PromptGetResult, SurfaceDecodeError>, String>>),
}

/// The one message of the prompt on the gateway itself.
pub open spec fn overview_message(facts: GatewayFacts) -> invocation::PromptMessageView {
    invocation::PromptMessageView {
        role: "system"@,
        content: invocation::PromptContentView::Text { text: overview_text(facts) },
        content_value: protocol::text_block(overview_text(facts)),
        meta: None,
    }
}

/// What a caller is told of a request to another server that failed: nothing
/// but the id under which the operator finds the reason.
pub open spec fn federated_failure(
    what: Seq<char>,
    name: Seq<char>,
    correlation_id: Seq<char>,
) -> invocation::DecodeErrorView {
    invocation::DecodeErrorView::BackendError {
        message: "federated "@ + what + " '"@ + name + "' failed (request id: "@ + correlation_id
            + ")"@,
    }
}

fn federated_error(what: &str, name: &str, correlation_id: &str) -> (r: SurfaceDecodeError)
    ensures
        r.deep_view() == federated_failure(what@, name@, correlation_id@),
{
    let mut message: String = "federated ".to_owned();
    message.append(what);
    message.append(" '");
    message.append(name);
    message.append("' failed (request id: ");
    message.append(correlation_id);
    message.append(")");
    SurfaceDecodeError::BackendError { message }
}

/// A gateway that knows no other servers.
pub open spec fn no_federation() -> invocation::DecodeErrorView {
    invocation::DecodeErrorView::BackendError { message: "federation engine not configured"@ }
}

/// The messages of a prompt, or why there are none.
pub open spec fn prompt_messages(
    source: PromptSource,
    name: Seq<char>,
    correlation_id: Seq<char>,
) -> Result<Seq<invocation::PromptMessageView>, invocation::DecodeErrorView> {
    match source {
        PromptSource::OperationalOverview(facts) => Ok(seq![overview_message(facts)]),
        PromptSource::Binding(result) => invocation::prompt_of_result(result),
        PromptSource::Federated(None) => Err(no_federation()),
        PromptSource::Federated(Some(Ok(Ok(p)))) => Ok(p.messages.deep_view()),
        PromptSource::Federated(Some(Ok(Err(e)))) => Err(e.deep_view()),
        PromptSource::Federated(Some(Err(_))) => Err(
            federated_failure("prompt"@, name, correlation_id),
        ),
    }
}

/// Makes a prompt from what its source gave.
pub fn prompt_get_result(source: PromptSource, name: &str, correlation_id: &str) -> (r: Result<
    PromptGetResult,
    SurfaceDecodeError,
>)
    ensures
        match prompt_messages(source, name@, correlation_id@) {
            Ok(m) => r matches Ok(p) && p.messages.deep_view() == m,
            Err(e) => r matches Err(x) && x.deep_view() == e,
        },
{
    match source {
        PromptSource::OperationalOverview(facts) => {
            let mut s: String = "MCPG ".to_owned();
            s.append(facts.service_version.as_str());
            s.append(" is running at ");
            s.append(facts.server_bind_address.as_str());
            s.append(" with MCP endpoint ");
            s.append(facts.mcp_path.as_str());
            s.append(". Available tools: ");
            s.append(text::decimal(facts.tools).as_str());
            s.append(". Available prompts: ");
            s.append(text::decimal(facts.prompts).as_str());
            s.append(". Available resources: ");
            s.append(text::decimal(facts.resources).as_str());
            s.append(".");
            let content_value: Json = protocol::ToolContent::text(s.clone()).to_json();
            let message: PromptMessage = PromptMessage {
                role: "system".to_owned(),
                content: PromptMessageContent::Text { text: s },
                content_value,
                meta: None,
            };
            let mut messages: Vec<PromptMessage> = Vec::new();
            messages.push(message);
            proof {
                assert(messages.deep_view() =~= seq![overview_message(facts)]);
            }
            Ok(PromptGetResult { messages })
        },
        PromptSource::Binding(result) => invocation::decode_prompt_result(&result),
        PromptSource::Federated(None) => Err(
            SurfaceDecodeError::BackendError {
                message: "federation engine not configured".to_owned(),
            },
        ),
        PromptSource::Federated(Some(Ok(decoded))) => decoded,
        PromptSource::Federated(Some(Err(_))) => Err(
            federated_error("prompt", name, correlation_id),
        ),
    }
}

/// The answer to a request for a prompt.
pub open spec fn prompt_answer(
    request_id: json::Tree,
    name: Seq<char>,
    result: Result<Seq<invocation::PromptMessageView>, invocation::DecodeErrorView>,
    info: DebugInfo,
) -> notes::AnswerView {
    match result {
        Ok(m) => notes::AnswerView {
            response: protocol::success_reply(request_id, invocation::prompt_tree(m)),
            notes: seq![notes::NoteView::Served { surface: "prompt"@, name, bytes: None }],
        },
        Err(e) => notes::plain(
            protocol::error_reply(
                200,
                Some(request_id),
                -32603,
                "prompt backend produced a non-conforming response: "@
                    + invocation::decode_error_text(e),
                policy_eval::debug_tree(
                    info,
                    "The backend for this prompt binding must return `{ messages: [...] }` with spec-shaped entries."@,
                ),
            ),
        ),
    }
}

/// Answers a request for a prompt.
pub fn prompt_response(
    request_id: Json,
    name: &str,
    result: Result<PromptGetResult, SurfaceDecodeError>,
    info: &DebugInfo,
) -> (r: Answer)
    ensures
        r.deep_view() == prompt_answer(
            request_id.tree(),
            name@,
            match result {
                Ok(p) => Ok(p.messages.deep_view()),
                Err(e) => Err(e.deep_view()),
            },
            *info,
        ),
{
    match result {
        Ok(p) => Answer::plain(protocol_http_success(request_id, p.to_json())).noting(
            CallNote::Served {
                surface: "prompt".to_owned(),
                name: name.to_owned(),
                bytes: None,
            },
        ),
        Err(e) => {
            let mut message: String =
                "prompt backend produced a non-conforming response: ".to_owned();
            message.append(e.message().as_str());
            Answer::plain(
                protocol_http_error(
                    200,
                    Some(request_id),
                    -32603,
                    message,
                    info.debug_error_data(
                        "The backend for this prompt binding must return `{ messages: [...] }` with spec-shaped entries.",
                    ),
                ),
            )
        },
    }
}

/// The scheme of resources that the gateway keeps itself.
pub const MANAGED_SCHEME: &'static str = "mcpg-resource://";

/// The name of a resource that is asked for, for the records.
pub open spec fn resource_surface(is_template: bool) -> Seq<char> {
    if is_template {
        "resource_template"@
    } else {
        "resource"@
    }
}

/// The answer to a request for a resource that the gateway does not know. It
/// says the same whatever the reason; only the hint tells.
pub open spec fn unknown_resource(
    uri: Seq<char>,
    hint: Seq<char>,
    request_id: json::Tree,
    info: DebugInfo,
) -> protocol::ReplyView {
    protocol::error_reply(
        200,
        Some(request_id),
        -32602,
        "unknown resource: "@ + uri,
        policy_eval::debug_tree(info, hint),
    )
}

fn unknown_resource_response(uri: &str, hint: &str, request_id: Json, info: &DebugInfo) -> (r:
    ProtocolHttpResponse)
    ensures
        r.deep_view() == unknown_resource(uri@, hint@, request_id.tree(), *info),
{
    let mut message: String = "unknown resource: ".to_owned();
    message.append(uri);
    protocol_http_error(
        200,
        Some(request_id),
        -32602,
        message,
        info.debug_error_data(hint),
    )
}

/// What a request for a resource needs.
#[derive(Debug)]
pub enum ResourceStep {
    /// The authorization of a read from the gateway's own store.
    Managed { gate: SurfaceGate, id: String },
    /// The authorization of a read from elsewhere.
    Routed { gate: SurfaceGate },
    /// Nothing: the request is answered.
    Finish(Answer),
}

/// The step of a request for a resource. `route` says whether there is such a
/// resource, and whether it is one of a template. A resource of the gateway's
/// own store needs no route, but the same authorization.
pub fn resource_start(
    request_id: &Json,
    uri: &str,
    request_context: &RequestContext,
    slot: &mut SessionSlot,
    loaded: Result<SessionSnapshot, SessionAccessError>,
    route: Option<bool>,
    has_tool_gates: bool,
    info: &DebugInfo,
) -> (r: ResourceStep)
    ensures
        final(slot).looked_up(*old(slot), loaded),
        match session_refusal(session_of(*old(slot), loaded), request_id.tree()) {
            Some(a) => r matches ResourceStep::Finish(x) && x.deep_view() == a,
            None => if text::has_prefix(uri@, MANAGED_SCHEME@) {
                r matches ResourceStep::Managed { gate, id } && id@ == uri@.skip(
                    MANAGED_SCHEME@.len() as int,
                ) && gate.asks(
                    "resource"@,
                    "resource.read.pre"@,
                    uri@,
                    json::Tree::Object(uri_arguments(uri@)),
                    request_id.tree(),
                    has_tool_gates,
                )
            } else {
                match route {
                    Some(is_template) => r matches ResourceStep::Routed { gate } && gate.asks(
                        resource_surface(is_template),
                        "resource.read.pre"@,
                        uri@,
                        json::Tree::Object(uri_arguments(uri@)),
                        request_id.tree(),
                        has_tool_gates,
                    ),
                    None => r matches ResourceStep::Finish(x) && x.deep_view() == (
                    notes::AnswerView {
                        response: unknown_resource(
                            uri@,
                            "Use resources/list to discover available resource URIs."@,
                            request_id.tree(),
                            *info,
                        ),
                        notes: seq![
                            notes::NoteView::NotFound { surface: "resource"@, name: uri@ },
                        ],
                    }),
                }
            },
        },
{
    if let Err(a) = require_session(request_id, request_context, slot, loaded) {
        return ResourceStep::Finish(a);
    }
    if let Some(id) = text::strip_prefix(uri, MANAGED_SCHEME) {
        return ResourceStep::Managed {
            gate: SurfaceGate::new(
                "resource",
                "resource.read.pre",
                uri,
                resource_arguments(uri),
                request_id.copy(),
                has_tool_gates,
            ),
            id,
        };
    }
    match route {
        Some(is_template) => {
            let surface: &'static str = if is_template {
                "resource_template"
            } else {
                "resource"
            };
            ResourceStep::Routed {
                gate: SurfaceGate::new(
                    surface,
                    "resource.read.pre",
                    uri,
                    resource_arguments(uri),
                    request_id.copy(),
                    has_tool_gates,
                ),
            }
        },
        None => ResourceStep::Finish(
            Answer::plain(
                unknown_resource_response(
                    uri,
                    "Use resources/list to discover available resource URIs.",
                    request_id.copy(),
                    info,
                ),
            ).noting(
                CallNote::NotFound { surface: "resource".to_owned(), name: uri.to_owned() },
            ),
        ),
    }
}

/// The arguments that a backend gets for a resource.
pub open spec fn uri_arguments(uri: Seq<char>) -> Map<Seq<char>, json::Tree> {
    Map::empty().insert("uri"@, json::Tree::Str(uri))
}

/// The arguments that a backend gets for a resource.
pub fn resource_arguments(uri: &str) -> (r: Json)
    ensures
        r.tree() == json::Tree::Object(uri_arguments(uri@)),
{
    Json::object().with("uri", Json::text(uri))
}

/// A map with the given pairs inserted in order.
pub open spec fn with_pairs(
    base: Map<Seq<char>, json::Tree>,
    pairs: Seq<(Seq<char>, Seq<char>)>,
) -> Map<Seq<char>, json::Tree>
    decreases pairs.len(),
{
    if pairs.len() == 0 {
        base
    } else {
        with_pairs(base, pairs.drop_last()).insert(
            pairs.last().0,
            json::Tree::Str(pairs.last().1),
        )
    }
}

/// The arguments that a backend gets for a resource of a template: its address,
/// each variable under its own name, and all variables together.
pub open spec fn template_tree(uri: Seq<char>, vars: Seq<(Seq<char>, Seq<char>)>) -> json::Tree {
    json::Tree::Object(
        with_pairs(uri_arguments(uri), vars).insert(
            "template_vars"@,
            json::Tree::Object(with_pairs(Map::empty(), vars)),
        ),
    )
}

/// The arguments that a backend gets for a resource of a template.
pub fn template_arguments(uri: &str, vars: &Attributes) -> (r: Json)
    ensures
        r.tree() == template_tree(uri@, vars.pairs()),
{
    let mut args: Json = resource_arguments(uri);
    let mut together: Json = Json::object();
    let mut i: usize = 0;
    let n: usize = vars.len();
    while i < n
        invariant
            i <= n,
            n == vars.pairs().len(),
            args is Object,
            together is Object,
            args.tree() == json::Tree::Object(
                with_pairs(uri_arguments(uri@), vars.pairs().take(i as int)),
            ),
            together.tree() == json::Tree::Object(
                with_pairs(Map::empty(), vars.pairs().take(i as int)),
            ),
        decreases n - i,
    {
        proof {
            assert(vars.pairs().take(i + 1).drop_last() =~= vars.pairs().take(i as int));
        }
        args = args.with(vars.name_at(i), Json::text(vars.value_at(i)));
        together = together.with(vars.name_at(i), Json::text(vars.value_at(i)));
        i += 1;
    }
    proof {
        assert(vars.pairs().take(n as int) =~= vars.pairs());
    }
    args.with("template_vars", together)
}

/// An app that the gateway was configured with.
#[derive(Debug)]
pub struct CompiledApp {
    pub html: String,
    pub descriptor_meta: Json,
    pub cache_token: String,
}

/// Where a resource comes from.
#[derive(Debug)]
pub enum ResourceSource {
    /// The gateway itself, with the text of its state.
    RuntimeOverview { snapshot: String },
    /// An app that the gateway was configured with, if it is known.
    GatewayApp { id: String, mime_type: String, app: Option<CompiledApp> },
    /// A backend, with its answer.
    Binding(protocol::ToolCallResult),
    /// Another server. `None` stands for a gateway that knows no others; the
    /// text of a failure is for the operator alone.
    Federated(Option<Result<ResourceReadResult, String>>),
}

/// One part of text.
pub open spec fn text_part(
    uri: Seq<char>,
    mime_type: Seq<char>,
    body: Seq<char>,
    meta: Option<json::Tree>,
) -> invocation::ContentsView {
    invocation::ContentsView { is_text: true, uri, mime_type: Some(mime_type), body, meta }
}

/// The JSON of a resource, or why there is none.
pub open spec fn resource_tree(
    source: ResourceSource,
    uri: Seq<char>,
    correlation_id: Seq<char>,
    ttl_ms: u64,
) -> Result<json::Tree, invocation::DecodeErrorView> {
    let private = Some(CacheScope::Private);
    match source {
        ResourceSource::RuntimeOverview { snapshot } => Ok(
            invocation::read_tree(
                seq![
                    text_part("mcpg://runtime/overview"@, "application/json"@, snapshot@, None),
                ],
                Some(ttl_ms),
                private,
                None,
            ),
        ),
        ResourceSource::GatewayApp { id, mime_type, app } => match app {
            None => Err(
                invocation::DecodeErrorView::BackendError {
                    message: "gateway app '"@ + id@ + "' is not registered"@,
                },
            ),
            Some(a) => Ok(
                invocation::read_tree(
                    seq![
                        text_part(
                            "ui://mcpg/"@ + id@,
                            mime_type@,
                            a.html@,
                            Some(a.descriptor_meta.tree()),
                        ),
                    ],
                    Some(ttl_ms),
                    private,
                    Some(a.cache_token@),
                ),
            ),
        },
        ResourceSource::Binding(result) => match invocation::resource_of_result(result, uri) {
            Ok(parts) => Ok(invocation::read_tree(parts, Some(ttl_ms), private, None)),
            Err(e) => Err(e),
        },
        ResourceSource::Federated(None) => Err(no_federation()),
        ResourceSource::Federated(Some(Ok(r))) => Ok(r.tree()),
        ResourceSource::Federated(Some(Err(_))) => Err(
            federated_failure("resource"@, uri, correlation_id),
        ),
    }
}

fn one_text(uri: String, mime_type: String, body: String, meta: Option<Json>) -> (r: Vec<
    ResourceContents,
>)
    ensures
        r.deep_view() == seq![text_part(uri@, mime_type@, body@, meta.deep_view())],
{
    let part: ResourceContents = ResourceContents::Text(
        ResourceTextContents { uri, mime_type: Some(mime_type), text: body, meta },
    );
    let mut contents: Vec<ResourceContents> = Vec::new();
    contents.push(part);
    proof {
        assert(contents.deep_view() =~= seq![part.deep_view()]);
    }
    contents
}

/// Makes a resource from what its source gave.
pub fn resource_read_result(
    source: ResourceSource,
    uri: &str,
    correlation_id: &str,
    ttl_ms: u64,
) -> (r: Result<ResourceReadResult, SurfaceDecodeError>)
    ensures
        match resource_tree(source, uri@, correlation_id@, ttl_ms) {
            Ok(t) => r matches Ok(x) && x.tree() == t,
            Err(e) => r matches Err(x) && x.deep_view() == e,
        },
{
    match source {
        ResourceSource::RuntimeOverview { snapshot } => Ok(
            ResourceReadResult {
                contents: one_text(
                    "mcpg://runtime/overview".to_owned(),
                    "application/json".to_owned(),
                    snapshot,
                    None,
                ),
                ttl_ms: Some(ttl_ms),
                cache_scope: Some(CacheScope::Private),
                cache_token: None,
            },
        ),
        ResourceSource::GatewayApp { id, mime_type, app } => match app {
            None => {
                let mut message: String = "gateway app '".to_owned();
                message.append(id.as_str());
                message.append("' is not registered");
                Err(SurfaceDecodeError::BackendError { message })
            },
            Some(a) => {
                let mut address: String = "ui://mcpg/".to_owned();
                address.append(id.as_str());
                Ok(
                    ResourceReadResult {
                        contents: one_text(address, mime_type, a.html, Some(a.descriptor_meta)),
                        ttl_ms: Some(ttl_ms),
                        cache_scope: Some(CacheScope::Private),
                        cache_token: Some(a.cache_token),
                    },
                )
            },
        },
        ResourceSource::Binding(result) => invocation::decode_resource_result(
            &result,
            uri,
            ttl_ms,
        ),
        ResourceSource::Federated(None) => Err(
            SurfaceDecodeError::BackendError {
                message: "federation engine not configured".to_owned(),
            },
        ),
        ResourceSource::Federated(Some(Ok(r))) => Ok(r),
        ResourceSource::Federated(Some(Err(_))) => Err(
            federated_error("resource", uri, correlation_id),
        ),
    }
}

/// The scheme of user interfaces.
pub const UI_SCHEME: &'static str = "ui://";

/// Who may read a resource from a cache: a user interface is never shared.
pub open spec fn guarded_scope(uri: Seq<char>, scope: Option<CacheScope>) -> Option<CacheScope> {
    if text::has_prefix(uri, UI_SCHEME@) {
        Some(CacheScope::Private)
    } else {
        scope
    }
}

/// A resource as it is handed out, with the size of its JSON.
pub fn resource_ready(uri: &str, result: ResourceReadResult) -> (r: (Json, usize))
    ensures
        r.0.tree() == invocation::read_tree(
            result.contents.deep_view(),
            result.ttl_ms,
            guarded_scope(uri@, result.cache_scope),
            result.cache_token.deep_view(),
        ),
        r.1 == vstd::utf8::encode_utf8(outside::json_text(r.0.tree())).len(),
{
    let mut result: ResourceReadResult = result;
    if text::starts_with(uri, UI_SCHEME) {
        result.cache_scope = Some(CacheScope::Private);
    }
    let body: Json = result.to_json();
    let text: String = outside::json_to_string(&body);
    let bytes: usize = text.as_str().as_bytes().len();
    (body, bytes)
}

/// The answer to a request for a resource. One that the policy on user
/// interfaces rejects is not handed out.
pub open spec fn resource_answer(
    request_id: json::Tree,
    uri: Seq<char>,
    surface: Seq<char>,
    bytes: nat,
    clamped: Result<json::Tree, Seq<char>>,
) -> notes::AnswerView {
    notes::AnswerView {
        response: match clamped {
            Ok(t) => protocol::success_reply(request_id, t),
            Err(message) => protocol::error_reply(200, Some(request_id), -32603, message, None),
        },
        notes: seq![notes::NoteView::Served { surface, name: uri, bytes: Some(bytes) }],
    }
}

/// Answers a request for a resource. `clamped` is what the policy on user
/// interfaces leaves of it, or why it rejects it.
pub fn resource_response(
    request_id: Json,
    uri: &str,
    surface: &str,
    bytes: usize,
    clamped: Result<Json, String>,
) -> (r: Answer)
    ensures
        r.deep_view() == resource_answer(
            request_id.tree(),
            uri@,
            surface@,
            bytes as nat,
            match clamped {
                Ok(j) => Ok(j.tree()),
                Err(e) => Err(e@),
            },
        ),
{
    let response: ProtocolHttpResponse = match clamped {
        Ok(j) => protocol_http_success(request_id, j),
        Err(message) => protocol_http_error(200, Some(request_id), -32603, message, None),
    };
    Answer::plain(response).noting(
        CallNote::Served {
            surface: surface.to_owned(),
            name: uri.to_owned(),
            bytes: Some(bytes as u64),
        },
    )
}

/// Answers a request for a resource that could not be made.
pub fn resource_failed(request_id: Json, error: &SurfaceDecodeError, info: &DebugInfo) -> (r:
    Answer)
    ensures
        r.deep_view() == notes::plain(
            protocol::error_reply(
                200,
                Some(request_id.tree()),
                -32603,
                "resource backend produced a non-conforming response: "@
                    + invocation::decode_error_text(error.deep_view()),
                policy_eval::debug_tree(
                    *info,
                    "The backend for this resource binding must return `{ contents: [...] }` with spec-shaped entries."@,
                ),
            ),
        ),
{
    let mut message: String = "resource backend produced a non-conforming response: ".to_owned();
    message.append(error.message().as_str());
    Answer::plain(
        protocol_http_error(
            200,
            Some(request_id),
            -32603,
            message,
            info.debug_error_data(
                "The backend for this resource binding must return `{ contents: [...] }` with spec-shaped entries.",
            ),
        ),
    )
}

/// What the gateway keeps under an id.
#[derive(Debug)]
pub struct StoredContent {
    /// The session that may read it; `None` where every session may.
    pub session_id: Option<String>,
    pub mime_type: String,
    pub bytes: Vec<u8>,
}

/// What a look into the gateway's own store shows.
#[derive(Debug)]
pub enum ManagedLookup {
    /// There is no store.
    NoStores,
    /// There is no store of that name.
    NoProvider { storage_id: String },
    /// The store failed; the text is for the operator.
    Failed(String),
    /// There is nothing under that id.
    Missing,
    Found(StoredContent),
}

/// The id to look for: the one that the address was read as, or the rest of the
/// address where that is empty.
pub fn managed_id(parsed: String, rest: &str) -> (r: String)
    ensures
        r@ == (if parsed@.len() == 0 {
            rest@
        } else {
            parsed@
        }),
{
    if parsed.as_str().unicode_len() == 0 {
        rest.to_owned()
    } else {
        parsed
    }
}

/// Whether contents are shown as text, if they are text.
pub open spec fn text_shaped(mime_type: Seq<char>) -> bool {
    text::has_prefix(mime_type, "text/"@) || mime_type == "application/json"@ || mime_type
        == "application/xml"@
}

/// How contents are shown: as text where they are meant to be and are, and as
/// base64 text otherwise.
pub open spec fn shown_part(
    uri: Seq<char>,
    mime_type: Seq<char>,
    bytes: Seq<u8>,
    as_text: Option<Seq<char>>,
) -> invocation::ContentsView {
    if text_shaped(mime_type) && as_text is Some {
        text_part(uri, mime_type, as_text->0, None)
    } else {
        invocation::ContentsView {
            is_text: false,
            uri,
            mime_type: Some(mime_type),
            body: outside::base64_text(bytes),
            meta: None,
        }
    }
}

/// The answer to a read from the gateway's own store.
pub open spec fn managed_reply(
    lookup: ManagedLookup,
    uri: Seq<char>,
    session_id: Option<Seq<char>>,
    request_id: json::Tree,
    ttl_ms: u64,
    info: DebugInfo,
) -> protocol::ReplyView {
    match lookup {
        ManagedLookup::NoStores => unknown_resource(
            uri,
            "Gateway is configured with no `storage.providers:` block; mcpg-resource:// URIs are not served."@,
            request_id,
            info,
        ),
        ManagedLookup::NoProvider { storage_id } => unknown_resource(
            uri,
            "Storage provider '"@ + storage_id@
                + "' is not configured. Add it to the top-level `storage.providers:` block."@,
            request_id,
            info,
        ),
        ManagedLookup::Failed(e) => protocol::error_reply(
            200,
            Some(request_id),
            -32603,
            "content store error"@,
            policy_eval::debug_tree(info, e@),
        ),
        ManagedLookup::Missing => unknown_resource(
            uri,
            "Resource not found, expired, or evicted from the content store."@,
            request_id,
            info,
        ),
        ManagedLookup::Found(c) => if c.session_id is Some && c.session_id.deep_view()
            != session_id {
            unknown_resource(
                uri,
                "Session-scoped resources cannot be read from a different session."@,
                request_id,
                info,
            )
        } else {
            protocol::success_reply(
                request_id,
                invocation::read_tree(
                    seq![
                        shown_part(
                            uri,
                            c.mime_type@,
                            c.bytes@,
                            outside::utf8_text(c.bytes@),
                        ),
                    ],
                    Some(ttl_ms),
                    Some(CacheScope::Private),
                    None,
                ),
            )
        },
    }
}

/// Shows contents, given what their bytes read as.
pub fn show_contents(uri: &str, mime_type: String, bytes: &Vec<u8>, as_text: Option<String>) -> (r:
    ResourceContents)
    ensures
        r.deep_view() == shown_part(uri@, mime_type@, bytes@, as_text.deep_view()),
{
    let text_like: bool = text::starts_with(mime_type.as_str(), "text/") || text::str_eq(
        mime_type.as_str(),
        "application/json",
    ) || text::str_eq(mime_type.as_str(), "application/xml");
    if text_like {
        if let Some(t) = as_text {
            return ResourceContents::Text(
                ResourceTextContents {
                    uri: uri.to_owned(),
                    mime_type: Some(mime_type),
                    text: t,
                    meta: None,
                },
            );
        }
    }
    ResourceContents::Blob(
        BlobResourceContents {
            uri: uri.to_owned(),
            mime_type: Some(mime_type),
            blob: outside::base64_encode(bytes.as_slice()),
            meta: None,
        },
    )
}

/// Answers a read from the gateway's own store, given what a look into it
/// shows.
pub fn resource_read_managed(
    lookup: ManagedLookup,
    uri: &str,
    request_id: Json,
    request_context: &RequestContext,
    ttl_ms: u64,
    info: &DebugInfo,
) -> (r: ProtocolHttpResponse)
    ensures
        r.deep_view() == managed_reply(
            lookup,
            uri@,
            request_context.session_id.deep_view(),
            request_id.tree(),
            ttl_ms,
            *info,
        ),
{
    match lookup {
        ManagedLookup::NoStores => unknown_resource_response(
            uri,
            "Gateway is configured with no `storage.providers:` block; mcpg-resource:// URIs are not served.",
            request_id,
            info,
        ),
        ManagedLookup::NoProvider { storage_id } => {
            let mut hint: String = "Storage provider '".to_owned();
            hint.append(storage_id.as_str());
            hint.append(
                "' is not configured. Add it to the top-level `storage.providers:` block.",
            );
            unknown_resource_response(uri, hint.as_str(), request_id, info)
        },
        ManagedLookup::Failed(e) => protocol_http_error(
            200,
            Some(request_id),
            -32603,
            "content store error".to_owned(),
            info.debug_error_data(e.as_str()),
        ),
        ManagedLookup::Missing => unknown_resource_response(
            uri,
            "Resource not found, expired, or evicted from the content store.",
            request_id,
            info,
        ),
        ManagedLookup::Found(c) => {
            if c.session_id.is_some() && !text::opt_str_eq(
                text::opt_as_str(&c.session_id),
                text::opt_as_str(&request_context.session_id),
            ) {
                return unknown_resource_response(
                    uri,
                    "Session-scoped resources cannot be read from a different session.",
                    request_id,
                    info,
                );
            }
            let as_text: Option<String> = outside::utf8_decode(c.bytes.as_slice());
            let part: ResourceContents = show_contents(uri, c.mime_type, &c.bytes, as_text);
            let mut contents: Vec<ResourceContents> = Vec::new();
            contents.push(part);
            proof {
                assert(contents.deep_view() =~= seq![part.deep_view()]);
            }
            let result: ResourceReadResult = ResourceReadResult {
                contents,
                ttl_ms: Some(ttl_ms),
                cache_scope: Some(CacheScope::Private),
                cache_token: None,
            };
            protocol_http_success(request_id, result.to_json())
        },
    }
}

/// Without debugging, a resource of another session looks like one that does
/// not exist, and like one of a store that does not exist.
pub proof fn law_foreign_contents_look_missing(
    content: StoredContent,
    storage_id: String,
    uri: Seq<char>,
    session_id: Option<Seq<char>>,
    request_id: json::Tree,
    ttl_ms: u64,
    info: DebugInfo,
)
    requires
        content.session_id is Some,
        content.session_id.deep_view() != session_id,
        !info.enabled,
    ensures
        managed_reply(
            ManagedLookup::Found(content),
            uri,
            session_id,
            request_id,
            ttl_ms,
            info,
        ) == managed_reply(ManagedLookup::Missing, uri, session_id, request_id, ttl_ms, info),
        managed_reply(
            ManagedLookup::Found(content),
            uri,
            session_id,
            request_id,
            ttl_ms,
            info,
        ) == managed_reply(
            ManagedLookup::NoProvider { storage_id },
            uri,
            session_id,
            request_id,
            ttl_ms,
            info,
        ),
{
}

/// The authorization that a subscription needs, or its answer. It has the layers
/// of a read of the same resource.
pub fn subscribe_start(
    request_id: &Json,
    uri: &str,
    request_context: &RequestContext,
    slot: &mut SessionSlot,
    loaded: Result<SessionSnapshot, SessionAccessError>,
    known: bool,
    has_tool_gates: bool,
    info: &DebugInfo,
) -> (r: Result<SurfaceGate, Answer>)
    ensures
        final(slot).looked_up(*old(slot), loaded),
        notes::refused(r) == (match session_refusal(
            session_of(*old(slot), loaded),
            request_id.tree(),
        ) {
            Some(a) => Some(a),
            None => if known {
                None
            } else {
                Some(
                    notes::plain(
                        unknown_resource(
                            uri@,
                            "Use resources/list to discover available resource URIs."@,
                            request_id.tree(),
                            *info,
                        ),
                    ),
                )
            },
        }),
        r matches Ok(g) ==> g.asks(
            "resource"@,
            "resource.subscribe.pre"@,
            uri@,
            json::Tree::Object(uri_arguments(uri@)),
            request_id.tree(),
            has_tool_gates,
        ),
{
    if let Err(a) = require_session(request_id, request_context, slot, loaded) {
        return Err(a);
    }
    if !known {
        return Err(
            Answer::plain(
                unknown_resource_response(
                    uri,
                    "Use resources/list to discover available resource URIs.",
                    request_id.copy(),
                    info,
                ),
            ),
        );
    }
    Ok(
        SurfaceGate::new(
            "resource",
            "resource.subscribe.pre",
            uri,
            resource_arguments(uri),
            request_id.copy(),
            has_tool_gates,
        ),
    )
}

/// Answers a request for a subscription, given whether it was made.
pub fn subscribe_response(request_id: Json, uri: &str, made: Result<(), String>) -> (r: Answer)
    ensures
        r.deep_view() == (match made {
            Ok(_) => notes::AnswerView {
                response: protocol::success_reply(
                    request_id.tree(),
                    json::Tree::Object(Map::empty()),
                ),
                notes: seq![notes::NoteView::Subscribed { uri: uri@ }],
            },
            Err(e) => notes::plain(
                protocol::error_reply(200, Some(request_id.tree()), -32602, e@, None),
            ),
        }),
{
    match made {
        Ok(_) => Answer::plain(protocol_http_success(request_id, Json::object())).noting(
            CallNote::Subscribed { uri: uri.to_owned() },
        ),
        Err(e) => Answer::plain(protocol_http_error(200, Some(request_id), -32602, e, None)),
    }
}

/// Answers a request to end a subscription. It succeeds whether there was one
/// or not.
pub fn unsubscribe_response(request_id: Json, uri: &str, was_subscribed: bool) -> (r: Answer)
    ensures
        r.deep_view() == (notes::AnswerView {
            response: protocol::success_reply(
                request_id.tree(),
                json::Tree::Object(Map::empty()),
            ),
            notes: seq![notes::NoteView::Unsubscribed { uri: uri@, was_subscribed }],
        }),
{
    Answer::plain(protocol_http_success(request_id, Json::object())).noting(
        CallNote::Unsubscribed { uri: uri.to_owned(), was_subscribed },
    )
}

/// A user interface is never handed to a shared cache, whatever its source
/// says.
pub proof fn law_user_interfaces_stay_private(uri: Seq<char>, scope: Option<CacheScope>)
    requires
        text::has_prefix(uri, UI_SCHEME@),
    ensures
        guarded_scope(uri, scope) == Some(CacheScope::Private),
{
}

/// What another server says of a failure never reaches the caller: two failures
/// of the same request are told alike.
pub proof fn law_federated_failures_tell_nothing(
    a: String,
    b: String,
    uri: Seq<char>,
    correlation_id: Seq<char>,
    ttl_ms: u64,
)
    ensures
        resource_tree(
            ResourceSource::Federated(Some(Err(a))),
            uri,
            correlation_id,
            ttl_ms,
        ) == resource_tree(ResourceSource::Federated(Some(Err(b))), uri, correlation_id, ttl_ms),
        prompt_messages(PromptSource::Federated(Some(Err(a))), uri, correlation_id)
            == prompt_messages(PromptSource::Federated(Some(Err(b))), uri, correlation_id),
{
}

proof fn lemma_list_names()
    ensures
        "tools"@.len() == 5 && "tools"@[1] == 'o',
        "prompts"@.len() == 7,
        "resources"@.len() == 9,
        "resourceTemplates"@.len() == 17,
        "ttlMs"@.len() == 5 && "ttlMs"@[1] == 't',
        "cacheScope"@.len() == 10 && "cacheScope"@[0] == 'c',
        "nextCursor"@.len() == 10 && "nextCursor"@[0] == 'n',
        "uri"@.len() == 3,
        "template_vars"@.len() == 13,
{
    reveal_strlit("tools");
    reveal_strlit("prompts");
    reveal_strlit("resources");
    reveal_strlit("resourceTemplates");
    reveal_strlit("ttlMs");
    reveal_strlit("cacheScope");
    reveal_strlit("nextCursor");
    reveal_strlit("uri");
    reveal_strlit("template_vars");
}

/// A page of a list holds what it lists under the name of the list, in order, says
/// where the next page starts where there is one, and is never meant for a shared
/// cache.
pub proof fn law_lists_are_told_under_their_name(
    kind: ListKind,
    page: Seq<json::Tree>,
    next_cursor: Option<Seq<char>>,
    ttl_ms: u64,
)
    ensures
        ({
            let t = list_tree(kind, page, next_cursor, ttl_ms);
            &&& json::tree_get(
                t,
                match kind {
                    ListKind::Tools => "tools"@,
                    ListKind::Prompts => "prompts"@,
                    ListKind::Resources => "resources"@,
                    ListKind::ResourceTemplates => "resourceTemplates"@,
                },
            ) == Some(json::Tree::Array(page))
            &&& json::tree_get(t, "cacheScope"@) == Some(json::Tree::Str("private"@))
            &&& json::tree_get(t, "ttlMs"@) == Some(
                json::Tree::Number(text::decimal_text(ttl_ms as nat)),
            )
            &&& json::tree_get(t, "nextCursor"@) == (match next_cursor {
                Some(c) => Some(json::Tree::Str(c)),
                None => None,
            })
        }),
{
    reveal_with_fuel(json::map_of, 4);
    lemma_list_names();
}

/// A list is answered under its request's id, as a page or as the reason why the page
/// was not handed out, and goes on record either way with its length.
pub proof fn law_lists_answer_their_request(
    kind: ListKind,
    request_id: json::Tree,
    count: u64,
    page: Result<Seq<json::Tree>, Seq<char>>,
    next_cursor: Option<Seq<char>>,
    ttl_ms: u64,
)
    ensures
        ({
            let a = list_answer(kind, request_id, count, page, next_cursor, ttl_ms);
            &&& a.response.http_status == 200
            &&& match (page, a.response.body) {
                (Ok(p), protocol::BodyView::Success { id, result }) => id == request_id && result
                    == list_tree(kind, p, next_cursor, ttl_ms),
                (Err(e), protocol::BodyView::Error { id, code, message, .. }) => id == Some(
                    request_id,
                ) && code == -32603 && message == e,
                _ => false,
            }
            &&& a.notes.len() == 1 && (a.notes[0] matches notes::NoteView::Listed {
                surface,
                count: c,
            } && c == count && surface == (match kind {
                ListKind::Tools => "tool"@,
                ListKind::Prompts => "prompt"@,
                ListKind::Resources => "resource"@,
                ListKind::ResourceTemplates => "resource_template"@,
            }))
        }),
{
}

/// A list is refused exactly where its session cannot be used, and, for tools, where
/// its cursor is not one that was handed out; other lists pay no heed to the cursor.
pub proof fn law_lists_need_a_session(
    kind: ListKind,
    session: Result<context::SessionView, SessionAccessError>,
    cursor_valid: bool,
    request_id: json::Tree,
    info: DebugInfo,
)
    ensures
        list_refusal(kind, session, cursor_valid, request_id, info) is None <==> session is Ok && (
        kind is Tools ==> cursor_valid),
        list_refusal(kind, session, cursor_valid, request_id, info) matches Some(a) ==> (
        a.response.body matches protocol::BodyView::Error { id, code, .. } && id == Some(request_id)
            && (session is Ok ==> code == -32602 && a.response.http_status == 200) && (session
            matches Err(e) ==> (e is UnknownSession <==> a.response.http_status == 404))),
{
}

/// A prompt is refused at once exactly where its session cannot be used or there is no
/// such prompt.
pub proof fn law_prompts_must_be_known(
    session: Result<context::SessionView, SessionAccessError>,
    known: bool,
    name: Seq<char>,
    request_id: json::Tree,
    info: DebugInfo,
)
    ensures
        prompt_refusal(session, known, name, request_id, info) is None <==> session is Ok && known,
        session is Ok && !known ==> (prompt_refusal(session, known, name, request_id, info)
            matches Some(a) && a.response.http_status == 200 && (a.response.body
            matches protocol::BodyView::Error { id, code, .. } && id == Some(request_id) && code
            == -32602) && a.notes == seq![
            notes::NoteView::NotFound { surface: "prompt"@, name },
        ]),
{
}

/// A prompt is what its source gave: a backend's answer as it is read, another
/// server's as it came, and the gateway's own overview as one message of the system.
pub proof fn law_prompts_come_from_their_source(
    source: PromptSource,
    name: Seq<char>,
    correlation_id: Seq<char>,
)
    ensures
        source matches PromptSource::Binding(result) ==> prompt_messages(
            source,
            name,
            correlation_id,
        ) == invocation::prompt_of_result(result),
        source matches PromptSource::Federated(Some(Ok(Ok(p)))) ==> prompt_messages(
            source,
            name,
            correlation_id,
        ) == Ok::<Seq<invocation::PromptMessageView>, invocation::DecodeErrorView>(
            p.messages.deep_view(),
        ),
        source matches PromptSource::Federated(None) ==> prompt_messages(
            source,
            name,
            correlation_id,
        ) is Err,
        source is OperationalOverview ==> (prompt_messages(source, name, correlation_id)
            matches Ok(m) && m.len() == 1 && m[0].role == "system"@ && m[0].content is Text),
{
}

/// A prompt is answered under its request's id with all its messages, or with why there
/// are none, and only one that was handed out goes on record.
pub proof fn law_prompts_answer_their_request(
    request_id: json::Tree,
    name: Seq<char>,
    result: Result<Seq<invocation::PromptMessageView>, invocation::DecodeErrorView>,
    info: DebugInfo,
)
    ensures
        ({
            let a = prompt_answer(request_id, name, result, info);
            &&& a.response.http_status == 200
            &&& match (result, a.response.body) {
                (Ok(m), protocol::BodyView::Success { id, result: told }) => id == request_id
                    && told == invocation::prompt_tree(m) && a.notes.len() == 1,
                (Err(_), protocol::BodyView::Error { id, code, .. }) => id == Some(request_id)
                    && code == -32603 && a.notes.len() == 0,
                _ => false,
            }
        }),
{
}

/// A resource is what its source gave, for its reader alone: a backend's answer as it
/// is read, an app as the page that it was configured with, and another server's as it
/// came.
pub proof fn law_resources_come_from_their_source(
    source: ResourceSource,
    uri: Seq<char>,
    correlation_id: Seq<char>,
    ttl_ms: u64,
)
    ensures
        match (source, resource_tree(source, uri, correlation_id, ttl_ms)) {
            (ResourceSource::Binding(result), Ok(t)) => invocation::resource_of_result(result, uri)
                matches Ok(parts) && t == invocation::read_tree(
                parts,
                Some(ttl_ms),
                Some(CacheScope::Private),
                None,
            ),
            (ResourceSource::Binding(result), Err(e)) => invocation::resource_of_result(
                result,
                uri,
            ) == Err::<Seq<invocation::ContentsView>, invocation::DecodeErrorView>(e),
            (ResourceSource::Federated(Some(Ok(r))), Ok(t)) => t == r.tree(),
            (ResourceSource::Federated(Some(Ok(r))), Err(_)) => false,
            (ResourceSource::Federated(_), Ok(_)) => false,
            (ResourceSource::GatewayApp { app, .. }, Ok(t)) => app matches Some(a)
                && json::tree_get(t, "cacheToken"@) == Some(json::Tree::Str(a.cache_token@))
                && json::tree_get(t, "cacheScope"@) == Some(json::Tree::Str("private"@)) && (
            json::tree_get(t, "contents"@) matches Some(json::Tree::Array(c)) && c.len() == 1
                && json::tree_get(c[0], "text"@) == Some(json::Tree::Str(a.html@))
                && json::tree_get(c[0], "_meta"@) == Some(a.descriptor_meta.tree())),
            (ResourceSource::GatewayApp { app, .. }, Err(_)) => app is None,
            (ResourceSource::RuntimeOverview { snapshot }, Ok(t)) => json::tree_get(
                t,
                "cacheScope"@,
            ) == Some(json::Tree::Str("private"@)) && (json::tree_get(t, "contents"@) matches Some(
                json::Tree::Array(c),
            ) && c.len() == 1 && json::tree_get(c[0], "text"@) == Some(
                json::Tree::Str(snapshot@),
            )),
            (ResourceSource::RuntimeOverview { .. }, Err(_)) => false,
            (ResourceSource::Federated(_), Err(_)) => true,
        },
{
    if let ResourceSource::GatewayApp { id, mime_type, app } = source {
        if let Some(a) = app {
            let part = text_part(
                "ui://mcpg/"@ + id@,
                mime_type@,
                a.html@,
                Some(a.descriptor_meta.tree()),
            );
            lemma_one_part(part, ttl_ms, Some(a.cache_token@));
        }
    }
    if let ResourceSource::RuntimeOverview { snapshot } = source {
        let part = text_part("mcpg://runtime/overview"@, "application/json"@, snapshot@, None);
        lemma_one_part(part, ttl_ms, None);
    }
}

proof fn lemma_one_part(part: invocation::ContentsView, ttl_ms: u64, token: Option<Seq<char>>)
    requires
        part.is_text,
    ensures
        ({
            let t = invocation::read_tree(
                seq![part],
                Some(ttl_ms),
                Some(CacheScope::Private),
                token,
            );
            &&& invocation::text_field(t, "cacheToken"@) == token
            &&& json::tree_get(t, "cacheScope"@) == Some(json::Tree::Str("private"@))
            &&& json::tree_get(t, "contents"@) matches Some(json::Tree::Array(c)) && c.len() == 1
                && json::tree_get(c[0], "text"@) == Some(json::Tree::Str(part.body))
                && json::tree_get(c[0], "_meta"@) == part.meta
        }),
{
    invocation::law_resources_are_read_as_they_are_written(
        seq![part],
        Some(ttl_ms),
        Some(CacheScope::Private),
        token,
        seq![],
    );
    invocation::law_parts_are_read_as_they_are_written(part, 0);
    reveal_strlit("contents");
    reveal_strlit("ttlMs");
    reveal_strlit("cacheScope");
    reveal_strlit("cacheToken");
    assert("contents"@.len() == 8 && "ttlMs"@.len() == 5 && "cacheScope"@.len() == 10
        && "cacheToken"@.len() == 10);
}

/// A backend that serves a resource is given its address; one that serves a template is
/// also given each variable under its own name and all of them together, and a variable
/// never hides the variables as a whole.
pub proof fn law_templates_hand_over_their_variables(
    uri: Seq<char>,
    vars: Seq<(Seq<char>, Seq<char>)>,
    i: int,
)
    requires
        0 <= i < vars.len(),
        forall|j: int| i < j < vars.len() ==> (#[trigger] vars[j]).0 != vars[i].0,
    ensures
        json::tree_get(json::Tree::Object(uri_arguments(uri)), "uri"@) == Some(
            json::Tree::Str(uri),
        ),
        vars[i].0 != "template_vars"@ ==> json::tree_get(template_tree(uri, vars), vars[i].0)
            == Some(json::Tree::Str(vars[i].1)),
        json::tree_get(template_tree(uri, vars), "template_vars"@) matches Some(all)
            && json::tree_get(all, vars[i].0) == Some(json::Tree::Str(vars[i].1)),
        (forall|j: int| 0 <= j < vars.len() ==> (#[trigger] vars[j]).0 != "uri"@) ==> json::tree_get(
            template_tree(uri, vars),
            "uri"@,
        ) == Some(json::Tree::Str(uri)),
{
    lemma_list_names();
    lemma_pair_is_inserted(uri_arguments(uri), vars, i);
    lemma_pair_is_inserted(Map::empty(), vars, i);
    if forall|j: int| 0 <= j < vars.len() ==> (#[trigger] vars[j]).0 != "uri"@ {
        lemma_others_stay(uri_arguments(uri), vars, "uri"@);
    }
}

proof fn lemma_pair_is_inserted(
    base: Map<Seq<char>, json::Tree>,
    pairs: Seq<(Seq<char>, Seq<char>)>,
    i: int,
)
    requires
        0 <= i < pairs.len(),
        forall|j: int| i < j < pairs.len() ==> (#[trigger] pairs[j]).0 != pairs[i].0,
    ensures
        with_pairs(base, pairs).contains_key(pairs[i].0),
        with_pairs(base, pairs)[pairs[i].0] == json::Tree::Str(pairs[i].1),
    decreases pairs.len(),
{
    if i < pairs.len() - 1 {
        let init = pairs.drop_last();
        assert(init[i] == pairs[i]);
        assert forall|j: int| i < j < init.len() implies (#[trigger] init[j]).0 != init[i].0 by {
            assert(init[j] == pairs[j]);
        }
        lemma_pair_is_inserted(base, init, i);
        assert(pairs.last() == pairs[pairs.len() - 1]);
    }
}

proof fn lemma_others_stay(
    base: Map<Seq<char>, json::Tree>,
    pairs: Seq<(Seq<char>, Seq<char>)>,
    name: Seq<char>,
)
    requires
        forall|j: int| 0 <= j < pairs.len() ==> (#[trigger] pairs[j]).0 != name,
    ensures
        with_pairs(base, pairs).contains_key(name) == base.contains_key(name),
        base.contains_key(name) ==> with_pairs(base, pairs)[name] == base[name],
    decreases pairs.len(),
{
    if pairs.len() > 0 {
        let init = pairs.drop_last();
        assert forall|j: int| 0 <= j < init.len() implies (#[trigger] init[j]).0 != name by {
            assert(init[j] == pairs[j]);
        }
        lemma_others_stay(base, init, name);
        assert(pairs.last() == pairs[pairs.len() - 1]);
    }
}

/// Who may share a resource is left to its source for everything but user interfaces.
pub proof fn law_only_user_interfaces_are_guarded(uri: Seq<char>, scope: Option<CacheScope>)
    ensures
        guarded_scope("ui://"@ + uri, scope) == Some(CacheScope::Private),
        !(5 <= uri.len() && uri.take(5) == "ui://"@) ==> guarded_scope(uri, scope) == scope,
{
    reveal_strlit("ui://");
    assert(("ui://"@ + uri).take(5) =~= "ui://"@);
}

/// What is kept for one session is shown to that session and to no other, and what is
/// kept for all is shown to all; nothing that is missing is shown.
pub proof fn law_kept_contents_are_their_sessions(
    lookup: ManagedLookup,
    uri: Seq<char>,
    session_id: Option<Seq<char>>,
    request_id: json::Tree,
    ttl_ms: u64,
    info: DebugInfo,
)
    ensures
        ({
            let r = managed_reply(lookup, uri, session_id, request_id, ttl_ms, info);
            &&& r.http_status == 200
            &&& match r.body {
                protocol::BodyView::Success { id, .. } => id == request_id && (lookup
                    matches ManagedLookup::Found(c) && (c.session_id is None
                    || c.session_id.deep_view() == session_id)),
                protocol::BodyView::Error { id, code, .. } => id == Some(request_id)
                    && match lookup {
                    ManagedLookup::Found(c) => code == -32602 && c.session_id is Some
                        && c.session_id.deep_view() != session_id,
                    ManagedLookup::Failed(_) => code == -32603,
                    _ => code == -32602,
                },
                protocol::BodyView::Accepted => false,
            }
        }),
{
}

/// Kept contents are shown under the address that was asked for, with their own type:
/// as text where their type is one of text and their bytes are text, and else as
/// base64 of their very bytes.
pub proof fn law_contents_are_shown_as_they_are(
    uri: Seq<char>,
    mime_type: Seq<char>,
    bytes: Seq<u8>,
    as_text: Option<Seq<char>>,
)
    ensures
        ({
            let p = shown_part(uri, mime_type, bytes, as_text);
            let texty = 5 <= mime_type.len() && mime_type.take(5) == "text/"@ || mime_type
                == "application/json"@ || mime_type == "application/xml"@;
            &&& p.uri == uri
            &&& p.mime_type == Some(mime_type)
            &&& p.meta is None
            &&& p.is_text <==> texty && as_text is Some
            &&& p.is_text ==> Some(p.body) == as_text
            &&& !p.is_text ==> p.body == outside::base64_text(bytes)
        }),
{
    reveal_strlit("text/");
}

/// A resource that could not be found is told alike whatever the reason, but for the
/// hint that debugging gives.
pub proof fn law_unknown_resources_are_told_alike(
    uri: Seq<char>,
    a: Seq<char>,
    b: Seq<char>,
    request_id: json::Tree,
    info: DebugInfo,
)
    requires
        !info.enabled,
    ensures
        unknown_resource(uri, a, request_id, info) == unknown_resource(uri, b, request_id, info),
        unknown_resource(uri, a, request_id, info).http_status == 200,
        unknown_resource(uri, a, request_id, info).body matches protocol::BodyView::Error {
            id,
            code,
            message,
            ..
        } && id == Some(request_id) && code == -32602 && message == "unknown resource: "@ + uri,
{
}

/// A resource is answered under its request's id, as it is or as the reason why it was
/// not handed out; its size goes on record.
pub proof fn law_resources_answer_their_request(
    request_id: json::Tree,
    uri: Seq<char>,
    surface: Seq<char>,
    bytes: nat,
    clamped: Result<json::Tree, Seq<char>>,
)
    ensures
        ({
            let a = resource_answer(request_id, uri, surface, bytes, clamped);
            &&& a.response.http_status == 200
            &&& match (clamped, a.response.body) {
                (Ok(t), protocol::BodyView::Success { id, result }) => id == request_id && result
                    == t,
                (Err(e), protocol::BodyView::Error { id, code, message, .. }) => id == Some(
                    request_id,
                ) && code == -32603 && message == e,
                _ => false,
            }
            &&& a.notes == seq![notes::NoteView::Served { surface, name: uri, bytes: Some(bytes) }]
        }),
{
}

/// A subscription is confirmed exactly where it was made, and the end of one always.
pub proof fn law_subscriptions_are_confirmed(
    request_id: Json,
    uri: &str,
    made: Result<(), String>,
    was_subscribed: bool,
    begun: Answer,
    ended: Answer,
)
    requires
        call_ensures(subscribe_response, (request_id, uri, made), begun),
        call_ensures(unsubscribe_response, (request_id, uri, was_subscribed), ended),
    ensures
        made is Ok <==> begun.deep_view().response.body is Success,
        made matches Err(e) ==> (begun.deep_view().response.body
            matches protocol::BodyView::Error { id, code, message, .. } && id == Some(
            request_id.tree(),
        ) && code == -32602 && message == e@),
        made is Ok ==> begun.deep_view().notes == seq![notes::NoteView::Subscribed { uri: uri@ }],
        ended.deep_view().response.body matches protocol::BodyView::Success { id, .. } && id
            == request_id.tree(),
        ended.deep_view().notes == seq![
            notes::NoteView::Unsubscribed { uri: uri@, was_subscribed },
        ],
{
}

/// What the gateway's own store looks for is the id that the address was read as, or the
/// rest of the address where that says nothing.
pub proof fn law_managed_ids_are_never_empty(parsed: String, rest: &str, r: String)
    requires
        call_ensures(managed_id, (parsed, rest), r),
        rest@.len() > 0,
    ensures
        r@.len() > 0,
        parsed@.len() > 0 ==> r@ == parsed@,
        parsed@.len() == 0 ==> r@ == rest@,
{
}

/// A prompt is authorized as itself where its session is operational and it is
/// known, with its own name and arguments, and answered at once otherwise; a session
/// that was looked up before is not asked for again.
pub proof fn law_prompts_are_authorized_as_themselves(
    request_id: Json,
    name: &str,
    arguments: Option<Json>,
    request_context: RequestContext,
    slot: &mut SessionSlot,
    loaded: Result<SessionSnapshot, SessionAccessError>,
    known: bool,
    has_tool_gates: bool,
    info: DebugInfo,
    r: Result<SurfaceGate, Answer>,
)
    requires
        call_ensures(
            prompt_start,
            (
                &request_id,
                name,
                arguments,
                &request_context,
                slot,
                loaded,
                known,
                has_tool_gates,
                &info,
            ),
            r,
        ),
    ensures
        old(slot).known() is None ==> (r is Ok <==> known && (loaded matches Ok(s) && s.phase
            is Operational)),
        old(slot).known() matches Some(found) ==> (r is Ok <==> known && (found matches Ok(s)
            && s.phase is Operational)),
        r matches Ok(gate) ==> {
            &&& gate.surface@ == "prompt"@
            &&& gate.decision_point@ == "prompt.get.pre"@
            &&& gate.backend_name@ == name@
            &&& gate.request_id.tree() == request_id.tree()
            &&& gate.has_tool_gates == has_tool_gates
            &&& arguments matches Some(a) ==> gate.arguments.tree() == a.tree()
            &&& arguments is None ==> gate.arguments.tree() == json::Tree::Object(Map::empty())
        },
{
}

/// A resource is authorized under its own address where its session is operational:
/// one of the gateway's own store wherever its address says so, whatever the registry
/// knows, and any other where the registry has a route for it, as a template where it
/// is one.
pub proof fn law_resources_are_authorized_as_themselves(
    request_id: Json,
    uri: &str,
    request_context: RequestContext,
    slot: &mut SessionSlot,
    loaded: Result<SessionSnapshot, SessionAccessError>,
    route: Option<bool>,
    has_tool_gates: bool,
    info: DebugInfo,
    r: ResourceStep,
)
    requires
        call_ensures(
            resource_start,
            (
                &request_id,
                uri,
                &request_context,
                slot,
                loaded,
                route,
                has_tool_gates,
                &info,
            ),
            r,
        ),
        old(slot).known() is None,
    ensures
        ({
            let usable = loaded matches Ok(s) && s.phase is Operational;
            let own = 16 <= uri@.len() && uri@.take(16) == "mcpg-resource://"@;
            &&& r is Managed <==> usable && own
            &&& r is Routed <==> usable && !own && route is Some
            &&& r matches ResourceStep::Managed { gate, id } ==> uri@ == "mcpg-resource://"@ + id@
                && gate.surface@ == "resource"@
            &&& r matches ResourceStep::Routed { gate } ==> gate.surface@ == (if route == Some(
                true,
            ) {
                "resource_template"@
            } else {
                "resource"@
            })
            &&& match r {
                ResourceStep::Finish(a) => a.deep_view().response.body
                    matches protocol::BodyView::Error { id, code, .. } && id == Some(
                    request_id.tree(),
                ) && (usable ==> code == -32602 && a.deep_view().notes == seq![
                    notes::NoteView::NotFound { surface: "resource"@, name: uri@ },
                ]),
                ResourceStep::Managed { gate, .. } => gate.decision_point@ == "resource.read.pre"@
                    && gate.backend_name@ == uri@ && gate.request_id.tree() == request_id.tree()
                    && gate.has_tool_gates == has_tool_gates && json::tree_get(
                    gate.arguments.tree(),
                    "uri"@,
                ) == Some(json::Tree::Str(uri@)),
                ResourceStep::Routed { gate } => gate.decision_point@ == "resource.read.pre"@
                    && gate.backend_name@ == uri@ && gate.request_id.tree() == request_id.tree()
                    && gate.has_tool_gates == has_tool_gates && json::tree_get(
                    gate.arguments.tree(),
                    "uri"@,
                ) == Some(json::Tree::Str(uri@)),
            }
        }),
{
    reveal_strlit("mcpg-resource://");
    let p = "mcpg-resource://"@;
    assert(p.len() == 16);
    if 16 <= uri@.len() && uri@.take(16) == p {
        assert(uri@ =~= p + uri@.skip(16));
    }
    lemma_uri_is_told(uri@);
}

proof fn lemma_uri_is_told(uri: Seq<char>)
    ensures
        json::tree_get(json::Tree::Object(uri_arguments(uri)), "uri"@) == Some(
            json::Tree::Str(uri),
        ),
{
    law_templates_hand_over_their_variables(uri, seq![(""@, ""@)], 0);
}

/// A subscription needs what a read of its resource needs, under a decision point of
/// its own, and an unknown resource cannot be subscribed to.
pub proof fn law_subscriptions_are_authorized(
    request_id: Json,
    uri: &str,
    request_context: RequestContext,
    slot: &mut SessionSlot,
    loaded: Result<SessionSnapshot, SessionAccessError>,
    known: bool,
    has_tool_gates: bool,
    info: DebugInfo,
    r: Result<SurfaceGate, Answer>,
)
    requires
        call_ensures(
            subscribe_start,
            (
                &request_id,
                uri,
                &request_context,
                slot,
                loaded,
                known,
                has_tool_gates,
                &info,
            ),
            r,
        ),
        old(slot).known() is None,
    ensures
        r is Ok <==> known && (loaded matches Ok(s) && s.phase is Operational),
        r matches Ok(gate) ==> {
            &&& gate.surface@ == "resource"@
            &&& gate.decision_point@ == "resource.subscribe.pre"@
            &&& gate.backend_name@ == uri@
            &&& gate.request_id.tree() == request_id.tree()
            &&& gate.has_tool_gates == has_tool_gates
            &&& json::tree_get(gate.arguments.tree(), "uri"@) == Some(json::Tree::Str(uri@))
        },
        r matches Err(a) ==> (a.deep_view().response.body matches protocol::BodyView::Error {
            id,
            code,
            ..
        } && id == Some(request_id.tree()) && (loaded is Ok && loaded->Ok_0.phase is Operational
            ==> code == -32602)),
{
    lemma_uri_is_told(uri@);
}

/// What the layers refuse is told as they put it, and goes on record as refused.
pub proof fn law_refusals_of_the_layers_are_passed_on(
    surface: &str,
    name: &str,
    response: ProtocolHttpResponse,
    r: Answer,
)
    requires
        call_ensures(gate_denied, (surface, name, response), r),
    ensures
        r.deep_view().response == response.deep_view(),
        r.deep_view().notes == seq![
            notes::NoteView::GateDenied { surface: surface@, name: name@ },
        ],
{
}

/// A resource that is read is handed on with all its parts, how long it may be kept
/// and its token; only who may share it is up to the gateway, and only for user
/// interfaces. Its size is that of the text it is sent as.
pub proof fn law_read_resources_are_handed_on(
    uri: &str,
    result: ResourceReadResult,
    r: (Json, usize),
)
    requires
        call_ensures(resource_ready, (uri, result), r),
    ensures
        !(5 <= uri@.len() && uri@.take(5) == "ui://"@) ==> r.0.tree() == result.tree(),
        5 <= uri@.len() && uri@.take(5) == "ui://"@ ==> r.0.tree() == invocation::read_tree(
            result.contents.deep_view(),
            result.ttl_ms,
            Some(CacheScope::Private),
            result.cache_token.deep_view(),
        ),
        r.1 == vstd::utf8::encode_utf8(outside::json_text(r.0.tree())).len(),
{
    reveal_strlit("ui://");
    law_only_user_interfaces_are_guarded(uri@, result.cache_scope);
    if 5 <= uri@.len() && uri@.take(5) == "ui://"@ {
        assert(uri@ =~= "ui://"@ + uri@.skip(5));
        law_only_user_interfaces_are_guarded(uri@.skip(5), result.cache_scope);
    }
}

/// A resource that could not be read is answered under its request's id as a fault of
/// the backend, with what is wrong at the end of the words, and is not on record as
/// served.
pub proof fn law_unread_resources_are_faults(
    request_id: Json,
    error: SurfaceDecodeError,
    info: DebugInfo,
    r: Answer,
)
    requires
        call_ensures(resource_failed, (request_id, &error, &info), r),
    ensures
        r.deep_view().notes.len() == 0,
        r.deep_view().response.http_status == 200,
        r.deep_view().response.body matches protocol::BodyView::Error { id, code, message, data }
            && id == Some(request_id.tree()) && code == -32603 && data is Some == info.enabled && ({
            let why = invocation::decode_error_text(error.deep_view());
            why.len() <= message.len() && message.skip(message.len() - why.len()) == why
        }),
{
    let why = invocation::decode_error_text(error.deep_view());
    let p = "resource backend produced a non-conforming response: "@;
    assert((p + why).skip(p.len() as int) =~= why);
}

/// A failure of another server is told with what was asked for and the id under which
/// the operator finds the reason.
pub proof fn law_federated_failures_name_the_request(
    a: String,
    name: &str,
    correlation_id: &str,
    r: Result<PromptGetResult, SurfaceDecodeError>,
)
    requires
        call_ensures(
            prompt_get_result,
            (PromptSource::Federated(Some(Err(a))), name, correlation_id),
            r,
        ),
    ensures
        r matches Err(e) && (e.deep_view() matches invocation::DecodeErrorView::BackendError {
            message,
        } && text::stands_in(message, name@) && text::stands_in(message, correlation_id@)),
{
    let x = "federated "@ + "prompt"@ + " '"@;
    let y = "' failed (request id: "@;
    let z = ")"@;
    text::lemma_stands(x, name@, y + correlation_id@ + z);
    assert(x + name@ + (y + correlation_id@ + z) =~= x + name@ + y + correlation_id@ + z);
    text::lemma_stands(x + name@ + y, correlation_id@, z);
}

/// The gateway's own overview tells its version, where it listens and how many tools,
/// prompts and resources it has.
#[verifier::spinoff_prover]
#[verifier::rlimit(40)]
pub proof fn law_overview_tells_the_facts(facts: GatewayFacts)
    ensures
        text::stands_in(overview_text(facts), facts.service_version@),
        text::stands_in(overview_text(facts), facts.server_bind_address@),
        text::stands_in(overview_text(facts), facts.mcp_path@),
        text::stands_in(
            overview_text(facts),
            ". Available tools: "@ + text::decimal_text(facts.tools as nat),
        ),
        text::stands_in(
            overview_text(facts),
            ". Available prompts: "@ + text::decimal_text(facts.prompts as nat),
        ),
        text::stands_in(
            overview_text(facts),
            ". Available resources: "@ + text::decimal_text(facts.resources as nat),
        ),
{
    let a = "MCPG "@;
    let v = facts.service_version@;
    let b = " is running at "@;
    let w = facts.server_bind_address@;
    let c = " with MCP endpoint "@;
    let p = facts.mcp_path@;
    let t = ". Available tools: "@ + text::decimal_text(facts.tools as nat);
    let q = ". Available prompts: "@ + text::decimal_text(facts.prompts as nat);
    let s = ". Available resources: "@ + text::decimal_text(facts.resources as nat);
    let e = "."@;
    let whole = overview_text(facts);
    assert(text::stands_in(whole, v)) by {
        text::lemma_stands(a, v, b + w + c + p + t + q + s + e);
        assert(a + v + (b + w + c + p + t + q + s + e) =~= whole);
    }
    assert(text::stands_in(whole, w)) by {
        text::lemma_stands(a + v + b, w, c + p + t + q + s + e);
        assert(a + v + b + w + (c + p + t + q + s + e) =~= whole);
    }
    assert(text::stands_in(whole, p)) by {
        text::lemma_stands(a + v + b + w + c, p, t + q + s + e);
        assert(a + v + b + w + c + p + (t + q + s + e) =~= whole);
    }
    assert(text::stands_in(whole, t)) by {
        text::lemma_stands(a + v + b + w + c + p, t, q + s + e);
        assert(a + v + b + w + c + p + t + (q + s + e) =~= whole);
    }
    assert(text::stands_in(whole, q)) by {
        text::lemma_stands(a + v + b + w + c + p + t, q, s + e);
        assert(a + v + b + w + c + p + t + q + (s + e) =~= whole);
    }
    assert(text::stands_in(whole, s)) by {
        text::lemma_stands(a + v + b + w + c + p + t + q, s, e);
        assert(a + v + b + w + c + p + t + q + s + e =~= whole);
    }
}

/// A prompt that was handed out goes on record under its own name, and a failure of its
/// backend is told at the end of the words.
pub proof fn law_prompts_go_on_record(
    request_id: Json,
    name: &str,
    result: Result<PromptGetResult, SurfaceDecodeError>,
    info: DebugInfo,
    r: Answer,
)
    requires
        call_ensures(prompt_response, (request_id, name, result, &info), r),
    ensures
        result is Ok ==> r.deep_view().notes == seq![
            notes::NoteView::Served { surface: "prompt"@, name: name@, bytes: None },
        ],
        result matches Err(e) ==> (r.deep_view().response.body matches protocol::BodyView::Error {
            message,
            ..
        } && ({
            let why = invocation::decode_error_text(e.deep_view());
            why.len() <= message.len() && message.skip(message.len() - why.len()) == why
        })),
{
    if let Err(e) = result {
        let why = invocation::decode_error_text(e.deep_view());
        let body = r.deep_view().response.body;
        let message = body->message;
        assert(message.skip(message.len() - why.len()) =~= why);
    }
}

/// A list is begun where its session is operational and, for tools, its cursor is one
/// that was handed out; a session that cannot be used is told so before the cursor.
pub proof fn law_lists_begin_in_a_session(
    kind: ListKind,
    request_id: Json,
    request_context: RequestContext,
    slot: &mut SessionSlot,
    loaded: Result<SessionSnapshot, SessionAccessError>,
    cursor_valid: bool,
    info: DebugInfo,
    r: Result<(), Answer>,
)
    requires
        call_ensures(
            list_start,
            (kind, &request_id, &request_context, slot, loaded, cursor_valid, &info),
            r,
        ),
        old(slot).known() is None,
    ensures
        r is Ok <==> (loaded matches Ok(s) && s.phase is Operational) && (kind is Tools
            ==> cursor_valid),
        r matches Err(a) ==> (a.deep_view().response.body matches protocol::BodyView::Error {
            id,
            code,
            ..
        } && id == Some(request_id.tree()) && (loaded is Ok && loaded->Ok_0.phase is Operational
            ==> code == -32602)),
{
}

/// What the gateway keeps for a session is read by requests of that session alone: a
/// request of another session, or of none, is answered as if there were nothing.
pub proof fn law_kept_contents_are_read_in_their_session(
    content: StoredContent,
    uri: &str,
    request_id: Json,
    request_context: RequestContext,
    ttl_ms: u64,
    info: DebugInfo,
    r: ProtocolHttpResponse,
    missing: ProtocolHttpResponse,
)
    requires
        call_ensures(
            resource_read_managed,
            (ManagedLookup::Found(content), uri, request_id, &request_context, ttl_ms, &info),
            r,
        ),
        call_ensures(
            resource_read_managed,
            (ManagedLookup::Missing, uri, request_id, &request_context, ttl_ms, &info),
            missing,
        ),
    ensures
        content.session_id is Some && content.session_id.deep_view()
            != request_context.session_id.deep_view() ==> !(r.deep_view().body is Success) && (
        !info.enabled ==> r.deep_view() == missing.deep_view()),
        content.session_id is None || content.session_id.deep_view()
            == request_context.session_id.deep_view() ==> (r.deep_view().body
            matches protocol::BodyView::Success { id, .. } && id == request_id.tree()),
        missing.deep_view().body matches protocol::BodyView::Error { id, code, .. } && id == Some(
            request_id.tree(),
        ) && code == -32602,
{
}

/// A resource that could be read holds what its source gave, for its reader alone, and a
/// source that gave nothing is a failure.
pub proof fn law_sources_are_read(
    source: ResourceSource,
    uri: &str,
    correlation_id: &str,
    ttl_ms: u64,
    r: Result<ResourceReadResult, SurfaceDecodeError>,
)
    requires
        call_ensures(resource_read_result, (source, uri, correlation_id, ttl_ms), r),
    ensures
        source matches ResourceSource::Federated(Some(Ok(f))) ==> (r matches Ok(x) && x.tree()
            == f.tree()),
        source matches ResourceSource::Federated(Some(Err(_))) ==> r is Err,
        source matches ResourceSource::Federated(None) ==> r is Err,
        source matches ResourceSource::GatewayApp { app, .. } ==> (r is Ok <==> app is Some),
        source is RuntimeOverview ==> (r matches Ok(x) && json::tree_get(x.tree(), "cacheScope"@)
            == Some(json::Tree::Str("private"@))),
        source matches ResourceSource::Binding(result) ==> result.is_error ==> r is Err,
{
    law_resources_come_from_their_source(source, uri@, correlation_id@, ttl_ms);
}

} // verus!
