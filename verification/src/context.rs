//! What is known of a request while it is handled.
use vstd::prelude::*;
use vstd::string::*;

use crate::clock::Timestamp;
use crate::identity;
use crate::identity::{
    transport_label, trust_name, Attributes, GatewayRequestId, RequestIdentity, TransportKind,
};
use crate::json;
use crate::json::Json;
use crate::policy;
use crate::policy::ToolPolicyContext;
use crate::protocol::{default_negotiated_version, ProtocolVersion};
use crate::text;

verus! {

/// Where a client left off reading a stream of events.
#[derive(Debug, Clone, PartialEq, Eq)]
pub struct ResumeCursor {
    pub last_event_id: String,
}

/// How far a session has come.
#[derive(Debug, Clone, Copy, PartialEq, Eq, Structural)]
pub enum SessionPhase {
    /// The client has asked for it and not yet confirmed.
    Initializing,
    /// The client may use it.
    Operational,
    /// It has ended.
    Terminated,
}

/// What is known of a session.
#[derive(Debug)]
pub struct SessionSnapshot {
    pub session_id: String,
    pub phase: SessionPhase,
    pub client_capabilities: Json,
}

impl SessionSnapshot {
    /// A snapshot that denotes the same.
    pub fn copy(&self) -> (r: SessionSnapshot)
        ensures
            r.deep_view() == self.deep_view(),
    {
        SessionSnapshot {
            session_id: self.session_id.clone(),
            phase: self.phase,
            client_capabilities: self.client_capabilities.copy(),
        }
    }
}

/// What is known of a session, over plain values.
pub struct SessionView {
    pub session_id: Seq<char>,
    pub phase: SessionPhase,
    pub client_capabilities: json::Tree,
}

impl DeepView for SessionSnapshot {
    type V = SessionView;

    open spec fn deep_view(&self) -> SessionView {
        SessionView {
            session_id: self.session_id@,
            phase: self.phase,
            client_capabilities: self.client_capabilities.tree(),
        }
    }
}

/// Why a session cannot be used.
#[derive(Debug, Clone, Copy, PartialEq, Eq, Structural)]
pub enum SessionAccessError {
    /// The request names none.
    MissingSessionId,
    /// There is none of that name.
    UnknownSession,
    /// The client has not confirmed it.
    NotInitialized,
}

/// The outcome of looking a session up, over plain values.
pub open spec fn lookup_view(r: Result<SessionSnapshot, SessionAccessError>) -> Result<
    SessionView,
    SessionAccessError,
> {
    match r {
        Ok(s) => Ok(s.deep_view()),
        Err(e) => Err(e),
    }
}

/// A session as a handler may use it: one that is not operational is refused to
/// handlers that need one.
pub open spec fn usable(
    r: Result<SessionView, SessionAccessError>,
    require_operational: bool,
) -> Result<SessionView, SessionAccessError> {
    match r {
        Ok(s) => if require_operational && s.phase != SessionPhase::Operational {
            Err(SessionAccessError::NotInitialized)
        } else {
            Ok(s)
        },
        Err(e) => Err(e),
    }
}

/// The session of a request: what was looked up first counts.
pub open spec fn effective(
    known: Option<Result<SessionView, SessionAccessError>>,
    loaded: Result<SessionSnapshot, SessionAccessError>,
) -> Result<SessionView, SessionAccessError> {
    match known {
        Some(k) => k,
        None => lookup_view(loaded),
    }
}

/// Where the session of a request is kept once it has been looked up. A request has
/// one slot, whichever of its contexts asks: contexts hold no session themselves, so
/// a copy of one asks the slot that the others ask.
#[derive(Debug)]
pub struct SessionSlot {
    found: Option<Result<SessionSnapshot, SessionAccessError>>,
}

impl SessionSlot {
    /// What the first lookup found, once there was one.
    pub closed spec fn known(&self) -> Option<Result<SessionView, SessionAccessError>> {
        match self.found {
            Some(r) => Some(lookup_view(r)),
            None => None,
        }
    }

    /// Whether this is an earlier slot after a lookup, given what the session store
    /// answers.
    pub open spec fn looked_up(
        &self,
        before: SessionSlot,
        loaded: Result<SessionSnapshot, SessionAccessError>,
    ) -> bool {
        self.known() == Some(effective(before.known(), loaded))
    }

    /// The slot of a request that just arrived.
    pub fn new() -> (r: SessionSlot)
        ensures
            r.known() is None,
    {
        SessionSlot { found: None }
    }

    /// What the first lookup found, once there was one. The session store need not
    /// be asked again.
    pub fn get(&self) -> (r: Option<Result<SessionSnapshot, SessionAccessError>>)
        ensures
            match r {
                Some(found) => self.known() == Some(lookup_view(found)),
                None => self.known() is None,
            },
    {
        match &self.found {
            Some(Ok(s)) => Some(Ok(s.copy())),
            Some(Err(e)) => Some(Err(*e)),
            None => None,
        }
    }
}

impl Default for SessionSlot {
    fn default() -> (r: SessionSlot)
        ensures
            r.known() is None,
    {
        SessionSlot::new()
    }
}

/// What is known of a request.
#[derive(Debug)]
pub struct RequestContext {
    pub request_id: GatewayRequestId,
    pub upstream_request_id: Option<String>,
    pub session_id: Option<String>,
    pub resume_cursor: Option<ResumeCursor>,
    pub identity: RequestIdentity,
    pub transport: TransportKind,
    pub started_at: Timestamp,
    pub negotiated_version: ProtocolVersion,
    /// The trace that the request belongs to, as its header has it.
    pub trace_context: Option<String>,
    /// What the client can do, where the request says so itself.
    pub modern_request_capabilities: Option<Json>,
    /// The bearer token of the request, kept in memory only.
    pub inbound_bearer: Option<String>,
    /// Whether the session was made for this request only and is not stored.
    pub session_ephemeral: bool,
}

/// What is known of a request, over plain values.
pub struct ContextView {
    pub request_id: Seq<char>,
    pub upstream_request_id: Option<Seq<char>>,
    pub session_id: Option<Seq<char>>,
    pub last_event_id: Option<Seq<char>>,
    pub identity: identity::IdentityView,
    pub transport: TransportKind,
    pub started_at: Timestamp,
    pub negotiated_version: ProtocolVersion,
    pub trace_context: Option<Seq<char>>,
    pub modern_request_capabilities: Option<json::Tree>,
    pub inbound_bearer: Option<Seq<char>>,
    pub session_ephemeral: bool,
}

impl DeepView for RequestContext {
    type V = ContextView;

    open spec fn deep_view(&self) -> ContextView {
        ContextView {
            request_id: self.request_id.text(),
            upstream_request_id: self.upstream_request_id.deep_view(),
            session_id: self.session_id.deep_view(),
            last_event_id: match self.resume_cursor {
                Some(c) => Some(c.last_event_id@),
                None => None,
            },
            identity: self.identity.deep_view(),
            transport: self.transport,
            started_at: self.started_at,
            negotiated_version: self.negotiated_version,
            trace_context: self.trace_context.deep_view(),
            modern_request_capabilities: self.modern_request_capabilities.deep_view(),
            inbound_bearer: self.inbound_bearer.deep_view(),
            session_ephemeral: self.session_ephemeral,
        }
    }
}

impl RequestContext {
    /// A context that denotes the same.
    pub fn copy(&self) -> (r: RequestContext)
        ensures
            r.deep_view() == self.deep_view(),
    {
        RequestContext {
            request_id: GatewayRequestId::of(self.request_id.as_str()),
            upstream_request_id: self.upstream_request_id.clone(),
            session_id: self.session_id.clone(),
            resume_cursor: match &self.resume_cursor {
                Some(c) => Some(ResumeCursor { last_event_id: c.last_event_id.clone() }),
                None => None,
            },
            identity: self.identity.copy(),
            transport: self.transport,
            started_at: self.started_at,
            negotiated_version: self.negotiated_version,
            trace_context: self.trace_context.clone(),
            modern_request_capabilities: json::copy_opt(
                self.modern_request_capabilities.as_ref(),
            ),
            inbound_bearer: self.inbound_bearer.clone(),
            session_ephemeral: self.session_ephemeral,
        }
    }

    /// The context of a request that just arrived.
    pub fn new(
        request_id: GatewayRequestId,
        upstream_request_id: Option<String>,
        session_id: Option<String>,
        resume_cursor: Option<ResumeCursor>,
        identity: RequestIdentity,
        transport: TransportKind,
    ) -> (r: RequestContext)
        ensures
            r.request_id == request_id,
            r.upstream_request_id == upstream_request_id,
            r.session_id == session_id,
            r.resume_cursor == resume_cursor,
            r.identity == identity,
            r.transport == transport,
            r.negotiated_version == ProtocolVersion::V_2025_11_25,
            r.trace_context is None,
            r.modern_request_capabilities is None,
            r.inbound_bearer is None,
            !r.session_ephemeral,
    {
        RequestContext {
            request_id,
            upstream_request_id,
            session_id,
            resume_cursor,
            identity,
            transport,
            started_at: Timestamp::now(),
            negotiated_version: default_negotiated_version(),
            trace_context: None,
            modern_request_capabilities: None,
            inbound_bearer: None,
            session_ephemeral: false,
        }
    }

    /// The context bound to a session that is not stored, and its slot: the session
    /// counts as looked up.
    pub fn with_ephemeral_session(self, snapshot: SessionSnapshot) -> (r: (
        RequestContext,
        SessionSlot,
    ))
        ensures
            r.0.session_id.deep_view() == Some(snapshot.session_id@),
            r.0 == (RequestContext {
                session_id: r.0.session_id,
                session_ephemeral: true,
                ..self
            }),
            r.1.known() == Some(Ok::<SessionView, SessionAccessError>(snapshot.deep_view())),
    {
        let mut r: RequestContext = self;
        r.session_id = Some(snapshot.session_id.clone());
        r.session_ephemeral = true;
        (r, SessionSlot { found: Some(Ok(snapshot)) })
    }

    /// The context with another protocol revision.
    pub fn with_negotiated_version(self, version: ProtocolVersion) -> (r: RequestContext)
        ensures
            r == (RequestContext { negotiated_version: version, ..self }),
    {
        let mut r: RequestContext = self;
        r.negotiated_version = version;
        r
    }

    /// The context with what the client says it can do.
    pub fn with_modern_request_capabilities(self, capabilities: Json) -> (r: RequestContext)
        ensures
            r == (RequestContext { modern_request_capabilities: Some(capabilities), ..self }),
    {
        let mut r: RequestContext = self;
        r.modern_request_capabilities = Some(capabilities);
        r
    }

    /// The context with the bearer token of the request.
    pub fn with_inbound_bearer(self, bearer: Option<String>) -> (r: RequestContext)
        ensures
            r == (RequestContext { inbound_bearer: bearer, ..self }),
    {
        let mut r: RequestContext = self;
        r.inbound_bearer = bearer;
        r
    }

    /// The context with the trace that the request belongs to.
    pub fn with_trace_context(self, trace_context: Option<String>) -> (r: RequestContext)
        ensures
            r == (RequestContext { trace_context, ..self }),
    {
        let mut r: RequestContext = self;
        r.trace_context = trace_context;
        r
    }

    /// The session of the request. The first lookup counts for every context of the
    /// request: `loaded` is what the session store answers to the session id of this
    /// one, and is passed over where a lookup has been made before.
    pub fn load_session_cached(
        &self,
        slot: &mut SessionSlot,
        loaded: Result<SessionSnapshot, SessionAccessError>,
        require_operational: bool,
    ) -> (r: Result<SessionSnapshot, SessionAccessError>)
        ensures
            final(slot).known() == Some(effective(old(slot).known(), loaded)),
            lookup_view(r) == usable(effective(old(slot).known(), loaded), require_operational),
    {
        if slot.found.is_none() {
            slot.found = Some(loaded);
        }
        match &slot.found {
            None => Err(SessionAccessError::UnknownSession),
            Some(Err(e)) => Err(*e),
            Some(Ok(s)) => {
                if require_operational && s.phase != SessionPhase::Operational {
                    Err(SessionAccessError::NotInitialized)
                } else {
                    Ok(s.copy())
                }
            },
        }
    }

    /// The key of whoever owns a task: the caller, or the session of a caller
    /// without a name.
    pub open spec fn owner_key(&self) -> Option<Seq<char>> {
        match self.identity.deep_view().principal_key() {
            Some(k) => Some(k),
            None => self.session_id.deep_view(),
        }
    }

    /// The key of whoever owns a task: the caller, or the session of a caller
    /// without a name.
    pub fn task_owner_key(&self) -> (r: Option<String>)
        ensures
            r.deep_view() == self.owner_key(),
    {
        match self.identity.synthetic_principal_key() {
            Some(k) => Some(k),
            None => self.session_id.clone(),
        }
    }

    /// What conditions and expressions may read of the caller.
    pub fn cached_expr_request_context(&self) -> (r: ExprRequestContext)
        ensures
            r.deep_view() == expr_view(
                self.identity.deep_view(),
                self.session_id.deep_view(),
                self.transport,
            ),
    {
        ExprRequestContext {
            principal_id: text::copy_opt_str(self.identity.principal_id()),
            trust_level: trust_name(self.identity.trust_level()).to_owned(),
            auth_provider: text::copy_opt_str(self.identity.auth_provider()),
            session_id: self.session_id.clone(),
            transport: transport_label(&self.transport).to_owned(),
            roles: text::copy_texts(self.identity.roles()),
            groups: text::copy_texts(self.identity.groups()),
            scopes: text::copy_texts(self.identity.scopes()),
            attributes: self.identity.attributes(),
        }
    }

    /// What expressions of a tool's binding may read.
    pub fn to_expr_context(&self, tool_name: &str, arguments: Option<&Json>) -> (r: ExprContext)
        ensures
            r.tool_name@ == tool_name@,
            r.arguments.tree() == json::or_object(arguments.deep_view()),
            r.context.deep_view() == expr_view(
                self.identity.deep_view(),
                self.session_id.deep_view(),
                self.transport,
            ),
    {
        ExprContext {
            arguments: match arguments {
                Some(a) => a.copy(),
                None => Json::object(),
            },
            tool_name: tool_name.to_owned(),
            context: self.cached_expr_request_context(),
        }
    }
}

/// What expressions may read of the caller.
#[derive(Debug)]
pub struct ExprRequestContext {
    pub principal_id: Option<String>,
    pub trust_level: String,
    pub auth_provider: Option<String>,
    pub session_id: Option<String>,
    pub transport: String,
    pub roles: Vec<String>,
    pub groups: Vec<String>,
    pub scopes: Vec<String>,
    pub attributes: Attributes,
}

/// What expressions may read.
#[derive(Debug)]
pub struct ExprContext {
    pub arguments: Json,
    pub tool_name: String,
    pub context: ExprRequestContext,
}

/// What expressions may read of the caller, over plain values.
pub struct ExprView {
    pub principal_id: Option<Seq<char>>,
    pub trust_level: Seq<char>,
    pub auth_provider: Option<Seq<char>>,
    pub session_id: Option<Seq<char>>,
    pub transport: Seq<char>,
    pub roles: Seq<Seq<char>>,
    pub groups: Seq<Seq<char>>,
    pub scopes: Seq<Seq<char>>,
    pub attributes: Seq<(Seq<char>, Seq<char>)>,
}

impl DeepView for ExprRequestContext {
    type V = ExprView;

    open spec fn deep_view(&self) -> ExprView {
        ExprView {
            principal_id: self.principal_id.deep_view(),
            trust_level: self.trust_level@,
            auth_provider: self.auth_provider.deep_view(),
            session_id: self.session_id.deep_view(),
            transport: self.transport@,
            roles: self.roles.deep_view(),
            groups: self.groups.deep_view(),
            scopes: self.scopes.deep_view(),
            attributes: self.attributes.pairs(),
        }
    }
}

/// What expressions may read of a caller.
pub open spec fn expr_view(
    caller: identity::IdentityView,
    session_id: Option<Seq<char>>,
    transport: TransportKind,
) -> ExprView {
    ExprView {
        principal_id: caller.principal_id(),
        trust_level: identity::trust_text(caller.trust_level()),
        auth_provider: caller.auth_provider(),
        session_id,
        transport: identity::transport_text(transport),
        roles: caller.roles(),
        groups: caller.groups(),
        scopes: caller.scopes(),
        attributes: caller.attributes(),
    }
}

impl ToolPolicyContext {
    /// The context of a request and a tool.
    pub fn from_request_context(request_context: &RequestContext, tool_name: &str) -> (r:
        ToolPolicyContext)
        ensures
            r.deep_view() == policy::input_of(request_context.identity.deep_view(), tool_name@),
    {
        ToolPolicyContext::from_identity(&request_context.identity, tool_name)
    }
}

/// Whether a caller may drive a suspended pipeline on: it must be its owner's
/// principal and, where the owner has a name, in the same session.
pub open spec fn owns_pipeline(
    owner_principal: Option<Seq<char>>,
    owner_session: Seq<char>,
    resumer_principal: Option<Seq<char>>,
    resumer_session: Option<Seq<char>>,
) -> bool {
    &&& owner_principal == resumer_principal
    &&& owner_principal is Some ==> resumer_session == Some(owner_session)
}

/// Whether a caller may drive a suspended pipeline on.
pub fn resumer_owns_pipeline(
    owner_principal: Option<&str>,
    owner_session: &str,
    resumer_principal: Option<&str>,
    resumer_session: Option<&str>,
) -> (r: bool)
    ensures
        r == owns_pipeline(
            owner_principal.deep_view(),
            owner_session@,
            resumer_principal.deep_view(),
            resumer_session.deep_view(),
        ),
{
    if !text::opt_str_eq(owner_principal, resumer_principal) {
        return false;
    }
    owner_principal.is_none() || text::opt_str_eq(resumer_session, Some(owner_session))
}

/// Whether a caller is the one that a session belongs to.
pub fn session_owner_matches(owner_principal: Option<&str>, caller_principal: Option<&str>) -> (r:
    bool)
    ensures
        r == (owner_principal.deep_view() == caller_principal.deep_view()),
{
    text::opt_str_eq(owner_principal, caller_principal)
}

/// Who may cancel a piece of work.
#[derive(Debug, Clone)]
pub struct RegisteredCancellation {
    pub owner_session: Option<String>,
    pub owner_principal: Option<String>,
}

/// Who asks for a cancellation.
#[derive(Debug, Clone)]
pub struct CancellationEvent {
    pub target_id: String,
    pub session_id: String,
    pub principal_id: Option<String>,
    pub reason: Option<String>,
}

/// Whether whoever asks for a cancellation owns the work: the principals agree
/// and, where the owner has a name, the sessions too.
pub fn cancellation_requester_is_owner(
    owner: &RegisteredCancellation,
    event: &CancellationEvent,
) -> (r: bool)
    ensures
        r == (owner.owner_principal.deep_view() == event.principal_id.deep_view() && (
        owner.owner_principal is Some ==> owner.owner_session.deep_view() == Some(
            event.session_id@,
        ))),
{
    if !text::opt_str_eq(
        text::opt_as_str(&owner.owner_principal),
        text::opt_as_str(&event.principal_id),
    ) {
        return false;
    }
    owner.owner_principal.is_none() || text::opt_str_eq(
        text::opt_as_str(&owner.owner_session),
        Some(event.session_id.as_str()),
    )
}

/// The first lookup of a request answers every later one, whichever context asks,
/// whatever the session store would say by then and whatever the first asked for:
/// each applies its own filter to what was found first. A failed lookup is kept too.
pub proof fn law_one_lookup_answers_all(
    before: SessionSlot,
    after: SessionSlot,
    later: SessionSlot,
    first: Result<SessionSnapshot, SessionAccessError>,
    second: Result<SessionSnapshot, SessionAccessError>,
    require_operational: bool,
)
    requires
        after.looked_up(before, first),
        later.looked_up(after, second),
    ensures
        later.known() == after.known(),
        effective(after.known(), second) == effective(before.known(), first),
        before.known() is None ==> usable(effective(after.known(), second), require_operational)
            == usable(lookup_view(first), require_operational),
{
}

/// A session that is not stored is never looked up: whatever the session store
/// would say, it is the one that its request uses.
pub proof fn law_ephemeral_session_needs_no_lookup(
    slot: SessionSlot,
    snapshot: SessionView,
    loaded: Result<SessionSnapshot, SessionAccessError>,
)
    requires
        slot.known() == Some(Ok::<SessionView, SessionAccessError>(snapshot)),
    ensures
        effective(slot.known(), loaded) == Ok::<SessionView, SessionAccessError>(snapshot),
{
}

/// No other principal can drive a pipeline on, in whatever session.
pub proof fn law_pipeline_is_its_principals(
    owner: Option<Seq<char>>,
    owner_session: Seq<char>,
    resumer: Option<Seq<char>>,
    resumer_session: Option<Seq<char>>,
)
    requires
        owner != resumer,
    ensures
        !owns_pipeline(owner, owner_session, resumer, resumer_session),
{
}

/// Expressions read each part of the caller under its own name, and of a caller
/// that proves nothing they read no claims at all.
pub proof fn law_expressions_see_the_caller_as_it_is(
    caller: RequestIdentity,
    session_id: Option<Seq<char>>,
    transport: TransportKind,
)
    ensures
        ({
            let v = expr_view(caller.deep_view(), session_id, transport);
            &&& v.session_id == session_id
            &&& v.transport == (if transport is Http {
                "http"@
            } else {
                "stdio"@
            })
            &&& match caller {
                RequestIdentity::Verified {
                    subject_id,
                    auth_provider,
                    roles,
                    groups,
                    scopes,
                    attributes,
                    ..
                } => {
                    &&& v.principal_id == Some(subject_id@)
                    &&& v.auth_provider == Some(auth_provider@)
                    &&& v.trust_level == "verified"@
                    &&& v.roles == roles.deep_view()
                    &&& v.groups == groups.deep_view()
                    &&& v.scopes == scopes.deep_view()
                    &&& v.attributes == attributes.pairs()
                },
                RequestIdentity::HttpHeader { subject_id, .. } => {
                    &&& v.principal_id == Some(subject_id@)
                    &&& v.auth_provider is None
                    &&& v.trust_level == "header_asserted"@
                    &&& v.roles.len() == 0 && v.groups.len() == 0 && v.scopes.len() == 0
                        && v.attributes.len() == 0
                },
                RequestIdentity::Anonymous { .. } => {
                    &&& v.principal_id is None
                    &&& v.auth_provider is None
                    &&& v.trust_level == "unauthenticated"@
                    &&& v.roles.len() == 0 && v.groups.len() == 0 && v.scopes.len() == 0
                        && v.attributes.len() == 0
                },
            }
        }),
{
}

/// A session can be used exactly where it is found and, for a handler that needs
/// it, is operational; a failed lookup is told as it stands.
pub proof fn law_sessions_must_be_operational(
    found: Result<SessionView, SessionAccessError>,
    require_operational: bool,
)
    ensures
        match (found, usable(found, require_operational)) {
            (Ok(s), Ok(u)) => u == s && (require_operational ==> s.phase is Operational),
            (Ok(s), Err(e)) => require_operational && !(s.phase is Operational) && e
                is NotInitialized,
            (Err(a), Err(b)) => a == b,
            (Err(_), Ok(_)) => false,
        },
{
}

/// A task belongs to its caller by the caller's key, in every session, and to the
/// session of a caller without a name; different owners have different keys, but
/// for a session that is named like a caller's key.
pub proof fn law_tasks_are_their_owners(a: RequestContext, b: RequestContext)
    ensures
        a.identity is Anonymous ==> a.owner_key() == a.session_id.deep_view(),
        a.identity matches RequestIdentity::HttpHeader { subject_id: s, .. } ==> (b.identity
            matches RequestIdentity::HttpHeader { subject_id: t, .. } ==> (a.owner_key()
            == b.owner_key() <==> s@ == t@)),
        a.identity is HttpHeader && b.identity is Verified ==> a.owner_key() != b.owner_key(),
        a.identity is Verified && b.identity is HttpHeader ==> a.owner_key() != b.owner_key(),
        !(a.identity is Anonymous) ==> a.owner_key() is Some,
{
    identity::law_keys_tell_subjects_apart(a.identity, b.identity);
    if a.identity is HttpHeader && b.identity is Verified {
        identity::law_header_never_passes_for_verified(
            a.identity.deep_view(),
            b.identity.deep_view(),
        );
    }
    if a.identity is Verified && b.identity is HttpHeader {
        identity::law_header_never_passes_for_verified(
            b.identity.deep_view(),
            a.identity.deep_view(),
        );
    }
}

/// An owner with a name drives its pipeline on from the session that it was started
/// in and from no other; one without a name can do so from wherever its answer
/// comes.
pub proof fn law_pipeline_stays_in_its_session(
    owner: Option<Seq<char>>,
    owner_session: Seq<char>,
    resumer_session: Option<Seq<char>>,
)
    ensures
        owner is Some ==> (owns_pipeline(owner, owner_session, owner, resumer_session)
            <==> resumer_session == Some(owner_session)),
        owner is None ==> owns_pipeline(owner, owner_session, None, resumer_session),
{
}

/// Work is cancelled by its owner alone: the same principal and, where that has a
/// name, in the same session.
pub proof fn law_only_owners_cancel(
    owner: RegisteredCancellation,
    event: CancellationEvent,
    r: bool,
)
    requires
        call_ensures(cancellation_requester_is_owner, (&owner, &event), r),
    ensures
        owner.owner_principal.deep_view() != event.principal_id.deep_view() ==> !r,
        owner.owner_principal is Some && owner.owner_session.deep_view() != Some(event.session_id@)
            ==> !r,
        owner.owner_principal is None && event.principal_id is None ==> r,
        owner.owner_principal is Some && owner.owner_principal.deep_view()
            == event.principal_id.deep_view() && owner.owner_session.deep_view() == Some(
            event.session_id@,
        ) ==> r,
{
}

/// A session belongs to one principal, or to nobody in particular.
pub proof fn law_sessions_have_one_owner(owner: Option<&str>, caller: Option<&str>, r: bool)
    requires
        call_ensures(session_owner_matches, (owner, caller), r),
    ensures
        r <==> owner.deep_view() == caller.deep_view(),
{
}

/// A session is looked up once: the first lookup of a request decides, whatever the
/// session store says later, and what is found can be used where it is operational
/// or need not be.
pub proof fn law_first_lookup_decides(
    request_context: RequestContext,
    slot: &mut SessionSlot,
    loaded: Result<SessionSnapshot, SessionAccessError>,
    require_operational: bool,
    r: Result<SessionSnapshot, SessionAccessError>,
)
    requires
        call_ensures(
            RequestContext::load_session_cached,
            (&request_context, slot, loaded, require_operational),
            r,
        ),
    ensures
        old(slot).known() is Some ==> final(slot).known() == old(slot).known(),
        old(slot).known() is None ==> final(slot).known() == Some(lookup_view(loaded)),
        match final(slot).known() {
            Some(Ok(s)) => if require_operational && !(s.phase is Operational) {
                r matches Err(e) && e is NotInitialized
            } else {
                r matches Ok(found) && found.deep_view() == s
            },
            Some(Err(e)) => r matches Err(x) && x == e,
            None => false,
        },
{
}

/// Each setting of a request changes that setting alone.
pub proof fn law_settings_change_one_thing(
    c: RequestContext,
    version: ProtocolVersion,
    capabilities: Json,
    bearer: Option<String>,
    trace: Option<String>,
    by_version: RequestContext,
    by_capabilities: RequestContext,
    by_bearer: RequestContext,
    by_trace: RequestContext,
)
    requires
        call_ensures(RequestContext::with_negotiated_version, (c, version), by_version),
        call_ensures(
            RequestContext::with_modern_request_capabilities,
            (c, capabilities),
            by_capabilities,
        ),
        call_ensures(RequestContext::with_inbound_bearer, (c, bearer), by_bearer),
        call_ensures(RequestContext::with_trace_context, (c, trace), by_trace),
    ensures
        by_version.negotiated_version == version,
        by_version.identity == c.identity && by_version.session_id == c.session_id
            && by_version.inbound_bearer == c.inbound_bearer,
        by_capabilities.modern_request_capabilities == Some(capabilities),
        by_capabilities.identity == c.identity && by_capabilities.session_id == c.session_id,
        by_bearer.inbound_bearer == bearer,
        by_bearer.identity == c.identity && by_bearer.session_id == c.session_id,
        by_trace.trace_context == trace,
        by_trace.identity == c.identity && by_trace.session_id == c.session_id,
{
}

/// The owner of a request's tasks is its caller by the caller's key, and the session
/// of a caller without a name.
pub proof fn law_task_owners_are_callers(
    c: RequestContext,
    d: RequestContext,
    of_c: Option<String>,
    of_d: Option<String>,
)
    requires
        call_ensures(RequestContext::task_owner_key, (&c,), of_c),
        call_ensures(RequestContext::task_owner_key, (&d,), of_d),
    ensures
        c.identity is Anonymous ==> of_c.deep_view() == c.session_id.deep_view(),
        c.identity == d.identity && !(c.identity is Anonymous) ==> of_c.deep_view()
            == of_d.deep_view() && of_c is Some,
        c.identity matches RequestIdentity::HttpHeader { subject_id: s, .. } ==> (d.identity
            matches RequestIdentity::HttpHeader { subject_id: t, .. } ==> (of_c.deep_view()
            == of_d.deep_view() <==> s@ == t@)),
        c.identity is HttpHeader && d.identity is Verified ==> of_c.deep_view()
            != of_d.deep_view(),
{
    law_tasks_are_their_owners(c, d);
}

/// The policies are asked about the caller of the request and the tool that it named,
/// and about nothing else of the request.
pub proof fn law_policies_are_asked_about_the_caller(
    c: RequestContext,
    d: RequestContext,
    tool_name: &str,
    of_c: ToolPolicyContext,
    of_d: ToolPolicyContext,
)
    requires
        call_ensures(ToolPolicyContext::from_request_context, (&c, tool_name), of_c),
        call_ensures(ToolPolicyContext::from_request_context, (&d, tool_name), of_d),
    ensures
        of_c.tool_name@ == tool_name@,
        c.identity.deep_view() == d.identity.deep_view() ==> of_c.deep_view() == of_d.deep_view(),
        c.identity matches RequestIdentity::Verified {
            subject_id,
            auth_provider,
            roles,
            groups,
            scopes,
            attributes,
            ..
        } ==> {
            &&& of_c.trust_level is Verified
            &&& of_c.principal_id.deep_view() == Some(subject_id@)
            &&& of_c.auth_provider.deep_view() == Some(auth_provider@)
            &&& of_c.scopes.deep_view() == scopes.deep_view()
            &&& of_c.roles.deep_view() == roles.deep_view()
            &&& of_c.groups.deep_view() == groups.deep_view()
            &&& of_c.attributes.pairs() == attributes.pairs()
        },
        c.identity is Anonymous ==> of_c.trust_level is Unauthenticated && of_c.principal_id
            is None && of_c.scopes.deep_view().len() == 0,
        c.identity matches RequestIdentity::HttpHeader { subject_id, .. } ==> of_c.trust_level
            is HeaderAsserted && of_c.principal_id.deep_view() == Some(subject_id@)
            && of_c.scopes.deep_view().len() == 0,
{
    policy::law_policies_see_the_caller_as_it_is(c.identity, tool_name@);
    assert(of_c.deep_view().tool_name == tool_name@);
}

/// Expressions are evaluated with the tool and the arguments of the call, and
/// arguments that were left out are an empty object.
pub proof fn law_expressions_see_the_call(
    c: RequestContext,
    tool_name: &str,
    arguments: Option<&Json>,
    r: ExprContext,
)
    requires
        call_ensures(RequestContext::to_expr_context, (&c, tool_name, arguments), r),
    ensures
        r.tool_name@ == tool_name@,
        arguments matches Some(a) ==> r.arguments.tree() == a.tree(),
        arguments is None ==> r.arguments.tree() == json::Tree::Object(Map::empty()),
        r.context.deep_view().session_id == c.session_id.deep_view(),
        c.identity matches RequestIdentity::Verified { subject_id, scopes, .. } ==> r.context.deep_view().principal_id
            == Some(subject_id@) && r.context.deep_view().scopes == scopes.deep_view(),
        c.identity is Anonymous ==> r.context.deep_view().principal_id is None,
{
    law_expressions_see_the_caller_as_it_is(c.identity, c.session_id.deep_view(), c.transport);
}

/// A session that lives for one request is the session of that request, and a
/// request that just arrived has looked up nothing.
pub proof fn law_passing_sessions_are_known(
    c: RequestContext,
    snapshot: SessionSnapshot,
    r: (RequestContext, SessionSlot),
    fresh: SessionSlot,
)
    requires
        call_ensures(RequestContext::with_ephemeral_session, (c, snapshot), r),
        call_ensures(SessionSlot::new, (), fresh),
    ensures
        r.0.session_id.deep_view() == Some(snapshot.session_id@),
        r.0.session_ephemeral,
        r.0.identity == c.identity,
        r.0.inbound_bearer == c.inbound_bearer,
        r.1.known() == Some(Ok::<SessionView, SessionAccessError>(snapshot.deep_view())),
        fresh.known() is None,
{
}

} // verus!
