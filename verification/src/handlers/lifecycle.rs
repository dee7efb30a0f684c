//! How sessions begin, and the messages that keep them.
use vstd::prelude::*;
use vstd::string::*;

use crate::context;
use crate::context::{RequestContext, SessionAccessError, SessionSlot, SessionSnapshot};
use crate::idempotency;
use crate::json;
use crate::json::Json;
use crate::notes;
use crate::notes::{Answer, CallNote};
use crate::outside;
use crate::policy_eval;
use crate::policy_eval::{map_session_error_to_protocol_response, DebugInfo};
use crate::protocol;
use crate::protocol::{
    notification_accepted, protocol_http_error, protocol_http_success, ProtocolHttpResponse,
    ProtocolResponse,
};

verus! {

/// The extension by which a server offers user interfaces.
pub const APPS_EXTENSION_ID: &'static str = "io.modelcontextprotocol/ui";

/// What the gateway says of itself.
#[derive(Debug)]
pub struct ServerProfile {
    pub service_name: String,
    pub service_version: String,
    /// Whether any argument can be completed.
    pub has_completions: bool,
    /// What is said of repeated calls, where they are recognised.
    pub idempotency_capability: Option<Json>,
    /// What is said of user interfaces, where they are offered.
    pub apps_capability: Option<Json>,
}

/// The step by which a session begins.
#[derive(Debug)]
pub enum InitializeStep {
    /// Make a session.
    CreateSession,
    /// Bind the session to its owner, and count it for the same owner. A caller
    /// without a name binds it to nobody.
    BindOwner { session_id: String, owner: Option<String> },
    /// The session has begun.
    Opened { session_id: String },
    /// The session is ended again, where one is named, and the request refused.
    Refused { terminate: Option<String>, response: ProtocolHttpResponse },
}

/// The step by which a session begins, over plain values.
pub enum InitializeView {
    CreateSession,
    BindOwner { session_id: Seq<char>, owner: Option<Seq<char>> },
    Opened { session_id: Seq<char> },
    Refused { terminate: Option<Seq<char>>, response: protocol::ReplyView },
}

impl DeepView for InitializeStep {
    type V = InitializeView;

    open spec fn deep_view(&self) -> InitializeView {
        match self {
            InitializeStep::CreateSession => InitializeView::CreateSession,
            InitializeStep::BindOwner { session_id, owner } => InitializeView::BindOwner {
                session_id: session_id@,
                owner: owner.deep_view(),
            },
            InitializeStep::Opened { session_id } => InitializeView::Opened {
                session_id: session_id@,
            },
            InitializeStep::Refused { terminate, response } => InitializeView::Refused {
                terminate: terminate.deep_view(),
                response: response.deep_view(),
            },
        }
    }
}

/// The first step: a request that begins a session must not name one.
pub open spec fn initialize_first(
    session_id: Option<Seq<char>>,
    request_id: json::Tree,
    info: DebugInfo,
) -> InitializeView {
    if session_id is Some {
        InitializeView::Refused {
            terminate: None,
            response: protocol::error_reply(
                400,
                Some(request_id),
                -32600,
                "initialize must not include an MCP-Session-Id header"@,
                policy_eval::debug_tree(
                    info,
                    "Remove the MCP-Session-Id header from the initialize request. Initialize creates a new session."@,
                ),
            ),
        }
    } else {
        InitializeView::CreateSession
    }
}

/// The first step of a session's beginning.
pub fn initialize_start(request_id: &Json, request_context: &RequestContext, info: &DebugInfo) -> (r:
    InitializeStep)
    ensures
        r.deep_view() == initialize_first(
            request_context.session_id.deep_view(),
            request_id.tree(),
            *info,
        ),
{
    if request_context.session_id.is_some() {
        return InitializeStep::Refused {
            terminate: None,
            response: protocol_http_error(
                400,
                Some(request_id.copy()),
                -32600,
                "initialize must not include an MCP-Session-Id header".to_owned(),
                info.debug_error_data(
                    "Remove the MCP-Session-Id header from the initialize request. Initialize creates a new session.",
                ),
            ),
        };
    }
    InitializeStep::CreateSession
}

/// What follows the making of a session. A store that has no room hands out an
/// empty id.
pub open spec fn initialize_created(
    session_id: Seq<char>,
    owner: Option<Seq<char>>,
    request_id: json::Tree,
    info: DebugInfo,
) -> InitializeView {
    if session_id.len() == 0 {
        InitializeView::Refused {
            terminate: None,
            response: protocol::error_reply(
                503,
                Some(request_id),
                -32099,
                "gateway session capacity exhausted"@,
                policy_eval::debug_tree(
                    info,
                    "raise store.max_sessions, release idle sessions, or scale out"@,
                ),
            ),
        }
    } else {
        InitializeView::BindOwner { session_id, owner }
    }
}

/// What follows the making of a session.
pub fn initialize_after_create(
    session_id: String,
    request_id: &Json,
    request_context: &RequestContext,
    info: &DebugInfo,
) -> (r: InitializeStep)
    ensures
        r.deep_view() == initialize_created(
            session_id@,
            request_context.identity.deep_view().principal_key(),
            request_id.tree(),
            *info,
        ),
{
    if session_id.as_str().unicode_len() == 0 {
        return InitializeStep::Refused {
            terminate: None,
            response: protocol_http_error(
                503,
                Some(request_id.copy()),
                -32099,
                "gateway session capacity exhausted".to_owned(),
                info.debug_error_data(
                    "raise store.max_sessions, release idle sessions, or scale out",
                ),
            ),
        };
    }
    InitializeStep::BindOwner {
        session_id,
        owner: request_context.identity.synthetic_principal_key(),
    }
}

/// What follows the counting of a session: one too many for its owner is ended
/// again.
pub open spec fn initialize_counted(
    session_id: Seq<char>,
    within_quota: bool,
    request_id: json::Tree,
    info: DebugInfo,
) -> InitializeView {
    if within_quota {
        InitializeView::Opened { session_id }
    } else {
        InitializeView::Refused {
            terminate: Some(session_id),
            response: protocol::error_reply(
                429,
                Some(request_id),
                -32099,
                "per-tenant session quota exceeded"@,
                policy_eval::debug_tree(
                    info,
                    "lower max_sessions_per_tenant or release an existing session"@,
                ),
            ),
        }
    }
}

/// What follows the counting of a session.
pub fn initialize_after_count(
    session_id: String,
    within_quota: bool,
    request_id: &Json,
    info: &DebugInfo,
) -> (r: InitializeStep)
    ensures
        r.deep_view() == initialize_counted(
            session_id@,
            within_quota,
            request_id.tree(),
            *info,
        ),
{
    if within_quota {
        return InitializeStep::Opened { session_id };
    }
    InitializeStep::Refused {
        terminate: Some(session_id),
        response: protocol_http_error(
            429,
            Some(request_id.copy()),
            -32099,
            "per-tenant session quota exceeded".to_owned(),
            info.debug_error_data(
                "lower max_sessions_per_tenant or release an existing session",
            ),
        ),
    }
}

/// The extensions that the gateway offers, where it offers any.
pub open spec fn extensions_tree(
    idempotency_capability: Option<json::Tree>,
    apps_capability: Option<json::Tree>,
) -> Option<json::Tree> {
    if idempotency_capability is None && apps_capability is None {
        None
    } else {
        Some(
            json::Tree::Object(
                protocol::insert_some(
                    protocol::insert_some(
                        Map::empty(),
                        idempotency::EXTENSION_ID@,
                        idempotency_capability,
                    ),
                    APPS_EXTENSION_ID@,
                    apps_capability,
                ),
            ),
        )
    }
}

/// An object without fields.
pub open spec fn empty_object() -> json::Tree {
    json::Tree::Object(Map::empty())
}

/// What the gateway can do.
pub open spec fn capabilities_tree(
    has_completions: bool,
    experimental: Option<json::Tree>,
    extensions: Option<json::Tree>,
) -> json::Tree {
    let yes = json::Tree::Bool(true);
    let list_changed = json::object_of(seq![("listChanged"@, yes)]);
    let call = json::object_of(seq![("call"@, empty_object())]);
    let base = json::map_of(
        seq![
            ("logging"@, empty_object()),
            ("prompts"@, list_changed),
            ("resources"@, json::object_of(seq![("listChanged"@, yes), ("subscribe"@, yes)])),
            ("tools"@, list_changed),
            (
                "tasks"@,
                json::object_of(
                    seq![
                        ("list"@, empty_object()),
                        ("cancel"@, empty_object()),
                        ("requests"@, json::object_of(seq![("tools"@, call)])),
                    ],
                ),
            ),
        ],
    );
    json::Tree::Object(
        protocol::insert_some(
            protocol::insert_some(
                protocol::insert_some(
                    base,
                    "completions"@,
                    if has_completions {
                        Some(empty_object())
                    } else {
                        None
                    },
                ),
                "experimental"@,
                experimental,
            ),
            "extensions"@,
            extensions,
        ),
    )
}

fn list_changed() -> (r: Json)
    ensures
        r.tree() == json::object_of(seq![("listChanged"@, json::Tree::Bool(true))]),
{
    proof {
        reveal_with_fuel(json::map_of, 2);
    }
    Json::object().with("listChanged", Json::Bool(true))
}

fn task_capabilities() -> (r: Json)
    ensures
        r.tree() == json::object_of(
            seq![
                ("list"@, empty_object()),
                ("cancel"@, empty_object()),
                (
                    "requests"@,
                    json::object_of(
                        seq![("tools"@, json::object_of(seq![("call"@, empty_object())]))],
                    ),
                ),
            ],
        ),
{
    proof {
        reveal_with_fuel(json::map_of, 4);
    }
    let call: Json = Json::object().with("call", Json::object());
    let requests: Json = Json::object().with("tools", call);
    Json::object().with("list", Json::object()).with("cancel", Json::object()).with(
        "requests",
        requests,
    )
}

fn server_capabilities(profile: &ServerProfile, experimental: Option<&Json>) -> (r: Json)
    ensures
        r.tree() == capabilities_tree(
            profile.has_completions,
            experimental.deep_view(),
            extensions_tree(
                profile.idempotency_capability.deep_view(),
                profile.apps_capability.deep_view(),
            ),
        ),
{
    proof {
        reveal_with_fuel(json::map_of, 6);
    }
    let resources: Json = Json::object().with("listChanged", Json::Bool(true)).with(
        "subscribe",
        Json::Bool(true),
    );
    let base: Json = Json::object().with("logging", Json::object()).with(
        "prompts",
        list_changed(),
    ).with("resources", resources).with("tools", list_changed()).with(
        "tasks",
        task_capabilities(),
    );
    let completions: Option<Json> = if profile.has_completions {
        Some(Json::object())
    } else {
        None
    };
    let extensions: Option<Json> = if profile.idempotency_capability.is_none()
        && profile.apps_capability.is_none() {
        None
    } else {
        Some(
            protocol::with_some(
                protocol::with_some(
                    Json::object(),
                    idempotency::EXTENSION_ID,
                    json::copy_opt(profile.idempotency_capability.as_ref()),
                ),
                APPS_EXTENSION_ID,
                json::copy_opt(profile.apps_capability.as_ref()),
            ),
        )
    };
    protocol::with_some(
        protocol::with_some(
            protocol::with_some(base, "completions", completions),
            "experimental",
            json::copy_opt(experimental),
        ),
        "extensions",
        extensions,
    )
}

/// The result of a request that begins a session.
pub open spec fn initialize_tree(
    profile: ServerProfile,
    version: Seq<char>,
    experimental: Option<json::Tree>,
) -> json::Tree {
    json::object_of(
        seq![
            ("protocolVersion"@, json::Tree::Str(version)),
            (
                "capabilities"@,
                capabilities_tree(
                    profile.has_completions,
                    experimental,
                    extensions_tree(
                        profile.idempotency_capability.deep_view(),
                        profile.apps_capability.deep_view(),
                    ),
                ),
            ),
            (
                "serverInfo"@,
                json::object_of(
                    seq![
                        ("name"@, json::Tree::Str(profile.service_name@)),
                        ("title"@, json::Tree::Str("Model Context Protocol Gateway"@)),
                        ("version"@, json::Tree::Str(profile.service_version@)),
                        (
                            "description"@,
                            json::Tree::Str("MCPG lifecycle bootstrap and gateway runtime server"@),
                        ),
                    ],
                ),
            ),
            (
                "instructions"@,
                json::Tree::Str(
                    "Complete lifecycle bootstrap by sending notifications/initialized before normal MCP operations."@,
                ),
            ),
        ],
    )
}

/// Who begins a session.
#[derive(Debug)]
pub struct ClientInfo {
    pub name: String,
    pub version: String,
}

/// Answers a request that began a session. The answer names the session, and
/// repeats what the client said of its experiments. `version` is the protocol
/// revision that was agreed on.
pub fn initialize_response(
    profile: &ServerProfile,
    request_id: Json,
    session_id: String,
    version: &str,
    client: &ClientInfo,
    experimental: Option<&Json>,
) -> (r: Answer)
    ensures
        r.deep_view() == notes::noted(
            protocol::ReplyView {
                http_status: 200,
                session_id_header: Some(session_id@),
                body: protocol::BodyView::Success {
                    id: request_id.tree(),
                    result: initialize_tree(*profile, version@, experimental.deep_view()),
                },
            },
            notes::NoteView::SessionOpened {
                session_id: session_id@,
                protocol_version: version@,
                client_name: client.name@,
                client_version: client.version@,
            },
        ),
{
    proof {
        reveal_with_fuel(json::map_of, 5);
    }
    let server_info: Json = Json::object().with(
        "name",
        Json::text(profile.service_name.as_str()),
    ).with("title", Json::text("Model Context Protocol Gateway")).with(
        "version",
        Json::text(profile.service_version.as_str()),
    ).with("description", Json::text("MCPG lifecycle bootstrap and gateway runtime server"));
    let result: Json = Json::object().with("protocolVersion", Json::text(version)).with(
        "capabilities",
        server_capabilities(profile, experimental),
    ).with("serverInfo", server_info).with(
        "instructions",
        Json::text(
            "Complete lifecycle bootstrap by sending notifications/initialized before normal MCP operations.",
        ),
    );
    let note: CallNote = CallNote::SessionOpened {
        session_id: session_id.clone(),
        protocol_version: version.to_owned(),
        client_name: client.name.clone(),
        client_version: client.version.clone(),
    };
    Answer::noted(
        ProtocolHttpResponse {
            http_status: 200,
            session_id_header: Some(session_id),
            response: ProtocolResponse::JsonRpcSuccess { id: request_id, result },
        },
        note,
    )
}

/// The session that a client confirms, or the answer where it cannot.
pub fn initialized_start(
    request_context: &RequestContext,
    slot: &mut SessionSlot,
    loaded: Result<SessionSnapshot, SessionAccessError>,
) -> (r: Result<String, ProtocolHttpResponse>)
    ensures
        final(slot).looked_up(*old(slot), loaded),
        match context::effective(old(slot).known(), loaded) {
            Ok(s) => r matches Ok(id) && id@ == s.session_id,
            Err(e) => r matches Err(a) && a.deep_view() == policy_eval::session_error_reply(
                e,
                None,
            ),
        },
{
    match request_context.load_session_cached(slot, loaded, false) {
        Ok(s) => Ok(s.session_id),
        Err(e) => Err(map_session_error_to_protocol_response(e, None)),
    }
}

/// Answers a client that confirmed its session, given whether the session could
/// be made operational.
pub fn initialized_response(transition: Result<(), SessionAccessError>) -> (r: Answer)
    ensures
        r.deep_view() == (match transition {
            Ok(_) => notes::noted(protocol::accepted_reply(), notes::NoteView::SessionConfirmed),
            Err(e) => notes::plain(policy_eval::session_error_reply(e, None)),
        }),
{
    match transition {
        Ok(_) => Answer::noted(notification_accepted(), CallNote::SessionConfirmed),
        Err(e) => Answer::plain(map_session_error_to_protocol_response(e, None)),
    }
}

/// Answers a ping.
pub fn ping_response(request_id: Json) -> (r: Answer)
    ensures
        r.deep_view() == notes::noted(
            protocol::success_reply(request_id.tree(), empty_object()),
            notes::NoteView::Pinged,
        ),
{
    Answer::noted(protocol_http_success(request_id, Json::object()), CallNote::Pinged)
}

/// What a user did with a question.
#[derive(Debug, Clone, Copy, PartialEq, Eq, Structural)]
pub enum ElicitationAction {
    Accept,
    Decline,
    Cancel,
}

/// The word for what a user did.
pub open spec fn action_text(action: ElicitationAction) -> Seq<char> {
    match action {
        ElicitationAction::Accept => "accept"@,
        ElicitationAction::Decline => "decline"@,
        ElicitationAction::Cancel => "cancel"@,
    }
}

/// The word for what a user did.
pub fn action_name(action: ElicitationAction) -> (r: &'static str)
    ensures
        r@ == action_text(action),
{
    match action {
        ElicitationAction::Accept => "accept",
        ElicitationAction::Decline => "decline",
        ElicitationAction::Cancel => "cancel",
    }
}

/// What a pipeline is told that waits for a user.
pub open spec fn elicitation_tree(action: ElicitationAction, content: Option<json::Tree>) ->
    json::Tree {
    json::Tree::Object(
        protocol::insert_some(
            Map::<Seq<char>, json::Tree>::empty().insert(
                "action"@,
                json::Tree::Str(action_text(action)),
            ),
            "content"@,
            content,
        ),
    )
}

/// What a pipeline is told that waits for a user.
pub fn elicitation_payload(action: ElicitationAction, content: Option<Json>) -> (r: Json)
    ensures
        r.tree() == elicitation_tree(action, content.deep_view()),
{
    protocol::with_some(
        Json::object().with("action", Json::text(action_name(action))),
        "content",
        content,
    )
}

/// The name under which an answer of the client is looked for: a text is its
/// own name, any other id is named by its JSON.
pub open spec fn id_name(id: json::Tree) -> Seq<char> {
    match id {
        json::Tree::Str(t) => t,
        other => outside::json_text(other),
    }
}

/// The name under which an answer of the client is looked for.
pub fn response_id_name(id: &Json) -> (r: String)
    ensures
        r@ == id_name(id.tree()),
{
    match id {
        Json::Str(t) => t.clone(),
        other => outside::json_to_string(other),
    }
}

/// What a user's answer leads to. Whatever it is, the notification is accepted.
#[derive(Debug)]
pub struct ElicitationStep {
    /// What the waiting pipeline is told, where there is one.
    pub resume: Option<Json>,
    pub answer: Answer,
}

/// What a user's answer leads to: a pipeline that waits for it goes on, and an
/// answer that nothing waits for is passed over.
pub fn elicitation_complete(
    id: &Json,
    action: ElicitationAction,
    content: Option<Json>,
    pending: bool,
) -> (r: ElicitationStep)
    ensures
        r.resume.deep_view() == (if pending {
            Some(elicitation_tree(action, content.deep_view()))
        } else {
            None
        }),
        r.answer.deep_view() == notes::noted(
            protocol::accepted_reply(),
            notes::NoteView::ElicitationCompleted {
                elicitation_id: id_name(id.tree()),
                action: action_text(action),
            },
        ),
{
    let resume: Option<Json> = if pending {
        Some(elicitation_payload(action, content))
    } else {
        None
    };
    let note: CallNote = CallNote::ElicitationCompleted {
        elicitation_id: response_id_name(id),
        action: action_name(action).to_owned(),
    };
    ElicitationStep { resume, answer: Answer::noted(notification_accepted(), note) }
}

/// A session that its owner has no room for is ended again, and nobody is told
/// its id.
pub proof fn law_no_session_beyond_the_quota(
    session_id: Seq<char>,
    request_id: json::Tree,
    info: DebugInfo,
)
    ensures
        initialize_counted(session_id, false, request_id, info) matches InitializeView::Refused {
            terminate,
            response,
        } && terminate == Some(session_id) && response.session_id_header is None,
{
}

/// Only a store that made a session leads to one: without an id nothing is
/// bound and nothing opened.
pub proof fn law_empty_id_opens_nothing(
    owner: Option<Seq<char>>,
    request_id: json::Tree,
    info: DebugInfo,
)
    ensures
        initialize_created(Seq::empty(), owner, request_id, info) is Refused,
{
}

/// A session begins only for a request that names none; one that does is a bad
/// request, and no session is made or ended for it.
pub proof fn law_sessions_begin_without_one(
    session_id: Option<Seq<char>>,
    request_id: json::Tree,
    info: DebugInfo,
)
    ensures
        session_id is None ==> initialize_first(session_id, request_id, info) is CreateSession,
        session_id is Some ==> (initialize_first(session_id, request_id, info)
            matches InitializeView::Refused { terminate, response } && terminate is None
            && response.http_status == 400 && (response.body matches protocol::BodyView::Error {
            id,
            code,
            ..
        } && id == Some(request_id) && code == -32600)),
{
}

/// A session that was made is bound to the caller that asked for it, by the caller's
/// key, and to nobody where the caller has no name; a store without room is told to
/// the caller.
pub proof fn law_sessions_are_bound_to_their_caller(
    session_id: String,
    request_id: Json,
    ctx: RequestContext,
    info: DebugInfo,
    r: InitializeStep,
)
    requires
        call_ensures(initialize_after_create, (session_id, &request_id, &ctx, &info), r),
    ensures
        session_id@.len() > 0 ==> (r.deep_view() matches InitializeView::BindOwner {
            session_id: s,
            owner,
        } && s == session_id@ && owner == ctx.identity.deep_view().principal_key()),
        session_id@.len() == 0 ==> (r.deep_view() matches InitializeView::Refused {
            terminate,
            response,
        } && terminate is None && response.http_status == 503 && (response.body
            matches protocol::BodyView::Error { id, code, .. } && id == Some(request_id.tree())
            && code == -32099)),
{
}

/// A session within its owner's room is opened under its own id; one beyond it is
/// ended again and its caller told.
pub proof fn law_counted_sessions_open(
    session_id: Seq<char>,
    within_quota: bool,
    request_id: json::Tree,
    info: DebugInfo,
)
    ensures
        within_quota ==> initialize_counted(session_id, within_quota, request_id, info) == (
        InitializeView::Opened { session_id }),
        !within_quota ==> (initialize_counted(session_id, within_quota, request_id, info)
            matches InitializeView::Refused { response, .. } && response.http_status == 429 && (
        response.body matches protocol::BodyView::Error { id, code, .. } && id == Some(request_id)
            && code == -32099)),
{
}

/// The answer that opens a session names it in its header, answers the request's own
/// id, tells the agreed revision and who the server is, and goes on record with who
/// the client is.
pub proof fn law_opening_answers_name_the_session(
    profile: ServerProfile,
    request_id: Json,
    session_id: String,
    version: &str,
    client: ClientInfo,
    experimental: Option<&Json>,
    r: Answer,
)
    requires
        call_ensures(
            initialize_response,
            (&profile, request_id, session_id, version, &client, experimental),
            r,
        ),
    ensures
        r.deep_view().response.http_status == 200,
        r.deep_view().response.session_id_header == Some(session_id@),
        r.deep_view().response.body matches protocol::BodyView::Success { id, result } && id
            == request_id.tree() && json::tree_get(result, "protocolVersion"@) == Some(
            json::Tree::Str(version@),
        ) && (json::tree_get(result, "serverInfo"@) matches Some(s) && json::tree_get(s, "name"@)
            == Some(json::Tree::Str(profile.service_name@)) && json::tree_get(s, "version"@)
            == Some(json::Tree::Str(profile.service_version@))) && (json::tree_get(
            result,
            "capabilities"@,
        ) matches Some(c) && json::tree_get(c, "experimental"@) == experimental.deep_view()),
        r.deep_view().notes.len() == 1 && (r.deep_view().notes[0]
            matches notes::NoteView::SessionOpened {
            session_id: s,
            protocol_version: v,
            client_name,
            client_version,
        } && s == session_id@ && v == version@ && client_name == client.name@ && client_version
            == client.version@),
{
    reveal_with_fuel(json::map_of, 6);
    lemma_initialize_names();
}

proof fn lemma_initialize_names()
    ensures
        "protocolVersion"@.len() == 15,
        "capabilities"@.len() == 12 && "capabilities"@[0] == 'c',
        "serverInfo"@.len() == 10,
        "instructions"@.len() == 12 && "instructions"@[0] == 'i',
        "name"@.len() == 4,
        "title"@.len() == 5,
        "version"@.len() == 7,
        "description"@.len() == 11,
        "experimental"@.len() == 12 && "experimental"@[0] == 'e',
        "extensions"@.len() == 10,
        "completions"@.len() == 11,
        "logging"@.len() == 7 && "logging"@[0] == 'l',
        "prompts"@.len() == 7 && "prompts"@[0] == 'p',
        "resources"@.len() == 9,
        "tools"@.len() == 5 && "tools"@[1] == 'o',
        "tasks"@.len() == 5 && "tasks"@[1] == 'a',
        "listChanged"@.len() == 11 && "subscribe"@.len() == 9,
{
    reveal_strlit("protocolVersion");
    reveal_strlit("capabilities");
    reveal_strlit("serverInfo");
    reveal_strlit("instructions");
    reveal_strlit("name");
    reveal_strlit("title");
    reveal_strlit("version");
    reveal_strlit("description");
    reveal_strlit("experimental");
    reveal_strlit("extensions");
    reveal_strlit("completions");
    reveal_strlit("logging");
    reveal_strlit("prompts");
    reveal_strlit("resources");
    reveal_strlit("tools");
    reveal_strlit("tasks");
    reveal_strlit("listChanged");
    reveal_strlit("subscribe");
}

/// The gateway says that it completes arguments, and that it has extensions, exactly
/// where it does; that its lists of tools, prompts and resources change, and that
/// resources can be subscribed to, it always says.
pub proof fn law_capabilities_are_what_is_offered(
    has_completions: bool,
    experimental: Option<json::Tree>,
    extensions: Option<json::Tree>,
)
    ensures
        ({
            let c = capabilities_tree(has_completions, experimental, extensions);
            let changes = json::Tree::Bool(true);
            &&& json::tree_get(c, "completions"@) is Some <==> has_completions
            &&& json::tree_get(c, "experimental"@) == experimental
            &&& json::tree_get(c, "extensions"@) == extensions
            &&& json::tree_get(c, "logging"@) is Some
            &&& json::tree_get(c, "tasks"@) is Some
            &&& json::tree_get(c, "tools"@) matches Some(t) && json::tree_get(t, "listChanged"@)
                == Some(changes)
            &&& json::tree_get(c, "prompts"@) matches Some(t) && json::tree_get(t, "listChanged"@)
                == Some(changes)
            &&& json::tree_get(c, "resources"@) matches Some(t) && json::tree_get(t, "listChanged"@)
                == Some(changes) && json::tree_get(t, "subscribe"@) == Some(changes)
        }),
{
    reveal_with_fuel(json::map_of, 6);
    lemma_initialize_names();
}

/// Each extension is told under its own name with what is said of it, and no
/// extension is told where there is none.
pub proof fn law_extensions_are_told_by_name(
    idempotency_capability: Option<json::Tree>,
    apps_capability: Option<json::Tree>,
)
    ensures
        extensions_tree(idempotency_capability, apps_capability) is None
            <==> idempotency_capability is None && apps_capability is None,
        extensions_tree(idempotency_capability, apps_capability) matches Some(t)
            ==> json::tree_get(t, "io.modelcontextprotocol/ui"@) == apps_capability
            && json::tree_get(t, "dev.mcpg/idempotency"@) == idempotency_capability,
{
    reveal_strlit("io.modelcontextprotocol/ui");
    reveal_strlit("dev.mcpg/idempotency");
    assert("io.modelcontextprotocol/ui"@.len() != "dev.mcpg/idempotency"@.len());
}

/// A user's answer goes on with what the user did and said to the pipeline that waits
/// for it, and to nothing where none does; the notification is accepted either way,
/// and goes on record under the name of the question.
pub proof fn law_users_answers_reach_their_pipeline(
    id: Json,
    action: ElicitationAction,
    content: Option<Json>,
    pending: bool,
    r: ElicitationStep,
)
    requires
        call_ensures(elicitation_complete, (&id, action, content, pending), r),
    ensures
        r.resume is Some <==> pending,
        r.resume matches Some(told) ==> json::tree_get(told.tree(), "action"@) == Some(
            json::Tree::Str(
                match action {
                    ElicitationAction::Accept => "accept"@,
                    ElicitationAction::Decline => "decline"@,
                    ElicitationAction::Cancel => "cancel"@,
                },
            ),
        ) && json::tree_get(told.tree(), "content"@) == content.deep_view(),
        r.answer.deep_view().response.http_status == 202,
        r.answer.deep_view().response.body is Accepted,
        id matches Json::Str(name) ==> (r.answer.deep_view().notes.len() == 1 && (
        r.answer.deep_view().notes[0] matches notes::NoteView::ElicitationCompleted {
            elicitation_id,
            ..
        } && elicitation_id == name@)),
{
    reveal_strlit("action");
    reveal_strlit("content");
    assert("action"@.len() != "content"@.len());
}

/// A ping is answered with an empty result under its own id, and a confirmation with
/// an acceptance where the session could be confirmed.
pub proof fn law_pings_and_confirmations_are_answered(
    request_id: Json,
    ping: Answer,
    transition: Result<(), SessionAccessError>,
    confirmed: Answer,
)
    requires
        call_ensures(ping_response, (request_id,), ping),
        call_ensures(initialized_response, (transition,), confirmed),
    ensures
        ping.deep_view().response.http_status == 200,
        ping.deep_view().response.body == (protocol::BodyView::Success {
            id: request_id.tree(),
            result: json::Tree::Object(Map::empty()),
        }),
        transition is Ok <==> confirmed.deep_view().response.body is Accepted,
        transition is Ok ==> confirmed.deep_view().response.http_status == 202,
{
}

/// A client confirms the session that its request names, whatever phase that is in;
/// without one that can be found it is told so, under no id, since a notification has
/// none.
pub proof fn law_confirmations_name_their_session(
    request_context: RequestContext,
    slot: &mut SessionSlot,
    loaded: Result<SessionSnapshot, SessionAccessError>,
    r: Result<String, ProtocolHttpResponse>,
)
    requires
        call_ensures(initialized_start, (&request_context, slot, loaded), r),
        old(slot).known() is None,
    ensures
        match loaded {
            Ok(s) => r matches Ok(id) && id@ == s.session_id@,
            Err(e) => r matches Err(a) && (a.deep_view().body matches protocol::BodyView::Error {
                id,
                ..
            } && id is None) && (e is UnknownSession <==> a.deep_view().http_status == 404),
        },
{
}

/// The steps that open a session, as they are taken: none is made for a request that
/// names one, one that was made is bound, and one beyond its owner's room is ended.
pub proof fn law_sessions_are_opened_step_by_step(
    request_id: Json,
    request_context: RequestContext,
    info: DebugInfo,
    session_id: String,
    within_quota: bool,
    first: InitializeStep,
    counted: InitializeStep,
)
    requires
        call_ensures(initialize_start, (&request_id, &request_context, &info), first),
        call_ensures(
            initialize_after_count,
            (session_id, within_quota, &request_id, &info),
            counted,
        ),
    ensures
        first.deep_view() is CreateSession <==> request_context.session_id is None,
        within_quota ==> (counted.deep_view() matches InitializeView::Opened { session_id: s } && s
            == session_id@),
        !within_quota ==> (counted.deep_view() matches InitializeView::Refused {
            terminate,
            response,
        } && terminate == Some(session_id@) && response.http_status == 429),
{
}

/// The answer of a client is looked for under the name of its id: a text is its own
/// name, and any other id is named by its JSON.
pub proof fn law_answers_are_found_by_their_id(id: Json, r: String)
    requires
        call_ensures(response_id_name, (&id,), r),
    ensures
        id matches Json::Str(t) ==> r@ == t@,
        !(id is Str) ==> r@ == outside::json_text(id.tree()),
{
}

/// What a user did goes on record in the protocol's own words, which tell the three
/// things that a user can do apart.
pub proof fn law_users_answers_go_on_record(
    id: Json,
    action: ElicitationAction,
    content: Option<Json>,
    pending: bool,
    r: ElicitationStep,
    other: ElicitationAction,
    word: &str,
    other_word: &str,
)
    requires
        call_ensures(elicitation_complete, (&id, action, content, pending), r),
        call_ensures(action_name, (action,), word),
        call_ensures(action_name, (other,), other_word),
    ensures
        r.answer.deep_view().notes.len() == 1,
        r.answer.deep_view().notes[0] matches notes::NoteView::ElicitationCompleted {
            action: told,
            ..
        } && told == word@,
        word@ == other_word@ <==> action == other,
{
    reveal_strlit("accept");
    reveal_strlit("decline");
    reveal_strlit("cancel");
    assert("accept"@[0] == 'a');
    assert("decline"@[0] == 'd');
    assert("cancel"@[0] == 'c');
}

} // verus!
