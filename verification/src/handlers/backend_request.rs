//! What a backend is given to answer a call.
use vstd::prelude::*;
use vstd::string::*;

use crate::context;
use crate::context::{
    ExprContext, RequestContext, SessionAccessError, SessionSlot, SessionSnapshot,
};
use crate::handlers::capabilities_list;
use crate::handlers::capabilities_list::{resource_arguments, template_arguments};
use crate::handlers::tool_admission;
use crate::handlers::tool_admission::ToolCall;
use crate::handlers::tool_gates::IdempotencyHint;
use crate::idempotency::kv_store;
use crate::identity::Attributes;
use crate::json;
use crate::json::Json;
use crate::outside;
use crate::policy_eval;
use crate::policy_eval::client_capabilities_for_context;
use crate::protocol::{extract_request_log_level, LogLevel, ProtocolVersion};

verus! {

/// What a backend is given to answer a call.
#[derive(Debug)]
pub struct BackendInvocationRequest {
    pub tool_name: String,
    pub arguments: Option<Json>,
    /// What the expressions of the binding may read.
    pub expr_ctx: ExprContext,
    pub progress_token: Option<Json>,
    pub request_log_level: Option<LogLevel>,
    pub legacy_session_log_level: Option<LogLevel>,
    pub client_capabilities: Json,
    pub idempotency_hint: Option<IdempotencyHint>,
}

/// What a backend is given, over plain values.
#[verifier::ext_equal]
pub struct BackendRequestView {
    pub tool_name: Seq<char>,
    pub arguments: Option<json::Tree>,
    pub expr_tool_name: Seq<char>,
    pub expr_arguments: json::Tree,
    pub caller: context::ExprView,
    pub progress_token: Option<json::Tree>,
    pub request_log_level: Option<LogLevel>,
    pub legacy_session_log_level: Option<LogLevel>,
    pub client_capabilities: json::Tree,
    /// The key of the call and the hash of its scope.
    pub hint: Option<(Seq<char>, Seq<u8>)>,
}

/// A hint over plain values.
pub open spec fn hint_view(hint: Option<IdempotencyHint>) -> Option<(Seq<char>, Seq<u8>)> {
    match hint {
        Some(h) => Some((h.key@, h.scope_hash@)),
        None => None,
    }
}

impl DeepView for BackendInvocationRequest {
    type V = BackendRequestView;

    open spec fn deep_view(&self) -> BackendRequestView {
        BackendRequestView {
            tool_name: self.tool_name@,
            arguments: self.arguments.deep_view(),
            expr_tool_name: self.expr_ctx.tool_name@,
            expr_arguments: self.expr_ctx.arguments.tree(),
            caller: self.expr_ctx.context.deep_view(),
            progress_token: self.progress_token.deep_view(),
            request_log_level: self.request_log_level,
            legacy_session_log_level: self.legacy_session_log_level,
            client_capabilities: self.client_capabilities.tree(),
            hint: hint_view(self.idempotency_hint),
        }
    }
}

/// What is known of the session of a call.
#[derive(Debug)]
pub struct SessionFacts {
    /// The log level that was set for the session, on the legacy wire.
    pub log_level: Option<LogLevel>,
    /// What the session store answers.
    pub loaded: Result<SessionSnapshot, SessionAccessError>,
}

/// What a backend is given for a name and arguments, where nothing else is asked
/// for. Expressions read the same arguments.
pub open spec fn plain_request(
    ctx: RequestContext,
    slot: SessionSlot,
    facts: SessionFacts,
    name: Seq<char>,
    arguments: Option<json::Tree>,
    log_level: Option<LogLevel>,
) -> BackendRequestView {
    BackendRequestView {
        tool_name: name,
        arguments,
        expr_tool_name: name,
        expr_arguments: json::or_object(arguments),
        caller: context::expr_view(
            ctx.identity.deep_view(),
            ctx.session_id.deep_view(),
            ctx.transport,
        ),
        progress_token: None,
        request_log_level: log_level,
        legacy_session_log_level: facts.log_level,
        client_capabilities: policy_eval::capabilities_of(
            ctx,
            context::effective(slot.known(), facts.loaded),
        ),
        hint: None,
    }
}

fn plain_request_of(
    ctx: &RequestContext,
    slot: &mut SessionSlot,
    facts: SessionFacts,
    name: &str,
    arguments: Option<Json>,
    log_level: Option<LogLevel>,
) -> (r: BackendInvocationRequest)
    ensures
        policy_eval::capabilities_asked(*old(slot), *final(slot), *ctx, facts.loaded),
        r.deep_view() == plain_request(
            *ctx,
            *old(slot),
            facts,
            name@,
            arguments.deep_view(),
            log_level,
        ),
{
    let expr_ctx: ExprContext = ctx.to_expr_context(name, arguments.as_ref());
    BackendInvocationRequest {
        tool_name: name.to_owned(),
        arguments,
        expr_ctx,
        progress_token: None,
        request_log_level: log_level,
        legacy_session_log_level: facts.log_level,
        client_capabilities: client_capabilities_for_context(ctx, slot, facts.loaded),
        idempotency_hint: None,
    }
}

/// The log level that a prompt or a resource is asked for with. One that is none
/// is passed over.
pub open spec fn lenient_log_level(meta: Option<json::Tree>, version: ProtocolVersion) -> Option<
    LogLevel,
> {
    match tool_admission::asked_log_level(meta, version) {
        Ok(l) => l,
        Err(_) => None,
    }
}

fn lenient_log_level_of(meta: Option<&Json>, version: ProtocolVersion) -> (r: Option<LogLevel>)
    ensures
        r == lenient_log_level(meta.deep_view(), version),
{
    match extract_request_log_level(meta, version) {
        Ok(l) => l,
        Err(_) => None,
    }
}

/// What a backend is given to make a prompt.
pub fn prompt_request(
    profile: &str,
    arguments: Option<Json>,
    meta: Option<&Json>,
    ctx: &RequestContext,
    slot: &mut SessionSlot,
    facts: SessionFacts,
) -> (r: BackendInvocationRequest)
    ensures
        policy_eval::capabilities_asked(*old(slot), *final(slot), *ctx, facts.loaded),
        r.deep_view() == plain_request(
            *ctx,
            *old(slot),
            facts,
            profile@,
            arguments.deep_view(),
            lenient_log_level(meta.deep_view(), ctx.negotiated_version),
        ),
{
    let level: Option<LogLevel> = lenient_log_level_of(meta, ctx.negotiated_version);
    plain_request_of(ctx, slot, facts, profile, arguments, level)
}

/// What a backend is given to read a resource.
pub fn resource_request(
    profile: &str,
    uri: &str,
    meta: Option<&Json>,
    ctx: &RequestContext,
    slot: &mut SessionSlot,
    facts: SessionFacts,
) -> (r: BackendInvocationRequest)
    ensures
        policy_eval::capabilities_asked(*old(slot), *final(slot), *ctx, facts.loaded),
        r.deep_view() == plain_request(
            *ctx,
            *old(slot),
            facts,
            profile@,
            Some(json::Tree::Object(capabilities_list::uri_arguments(uri@))),
            lenient_log_level(meta.deep_view(), ctx.negotiated_version),
        ),
{
    let level: Option<LogLevel> = lenient_log_level_of(meta, ctx.negotiated_version);
    plain_request_of(ctx, slot, facts, profile, Some(resource_arguments(uri)), level)
}

/// What a backend is given to read a resource of a template. No log level is
/// asked for.
pub fn template_request(
    profile: &str,
    uri: &str,
    vars: &Attributes,
    ctx: &RequestContext,
    slot: &mut SessionSlot,
    facts: SessionFacts,
) -> (r: BackendInvocationRequest)
    ensures
        policy_eval::capabilities_asked(*old(slot), *final(slot), *ctx, facts.loaded),
        r.deep_view() == plain_request(
            *ctx,
            *old(slot),
            facts,
            profile@,
            Some(capabilities_list::template_tree(uri@, vars.pairs())),
            None,
        ),
{
    plain_request_of(ctx, slot, facts, profile, Some(template_arguments(uri, vars)), None)
}

impl ToolCall {
    /// What a backend is given to answer the call: the arguments as the plugins
    /// left them, while expressions read those of the caller.
    pub open spec fn request_view(
        &self,
        ctx: RequestContext,
        slot: SessionSlot,
        facts: SessionFacts,
        arguments: Option<json::Tree>,
    ) -> BackendRequestView {
        BackendRequestView {
            arguments,
            progress_token: self.progress_token.deep_view(),
            hint: match (self.key, self.scope) {
                (Some(k), Some(s)) => Some(
                    (k@, outside::blake3_digest(kv_store::scope_bytes(s.deep_view()))),
                ),
                _ => None,
            },
            ..plain_request(
                ctx,
                slot,
                facts,
                self.name@,
                self.arguments.deep_view(),
                self.log_level,
            )
        }
    }

    /// What a backend is given to answer the call with the arguments that its
    /// plugins left.
    pub fn backend_request(
        &self,
        ctx: &RequestContext,
        slot: &mut SessionSlot,
        facts: SessionFacts,
        arguments: Option<Json>,
    ) -> (r: BackendInvocationRequest)
        ensures
            policy_eval::capabilities_asked(*old(slot), *final(slot), *ctx, facts.loaded),
            r.deep_view() == self.request_view(*ctx, *old(slot), facts, arguments.deep_view()),
    {
        let base: BackendInvocationRequest = plain_request_of(
            ctx,
            slot,
            facts,
            self.name.as_str(),
            json::copy_opt(self.arguments.as_ref()),
            self.log_level,
        );
        BackendInvocationRequest {
            arguments,
            progress_token: json::copy_opt(self.progress_token.as_ref()),
            idempotency_hint: self.idempotency_hint(),
            ..base
        }
    }
}

/// A backend is given the arguments that the plugins left, while the expressions of
/// its binding read those that the caller sent; both are told the tool's name, and
/// the token, the level and the key of the call reach the backend as they are.
pub proof fn law_backends_get_what_the_plugins_left(
    call: ToolCall,
    ctx: RequestContext,
    slot: SessionSlot,
    facts: SessionFacts,
    arguments: Option<json::Tree>,
)
    ensures
        ({
            let r = call.request_view(ctx, slot, facts, arguments);
            &&& r.tool_name == call.name@
            &&& r.expr_tool_name == call.name@
            &&& r.arguments == arguments
            &&& r.expr_arguments == (match call.arguments {
                Some(own) => own.tree(),
                None => json::Tree::Object(Map::empty()),
            })
            &&& r.progress_token == call.progress_token.deep_view()
            &&& r.request_log_level == call.log_level
            &&& r.legacy_session_log_level == facts.log_level
            &&& r.hint is Some <==> call.key is Some && call.scope is Some
            &&& r.hint matches Some((key, hash)) ==> key == call.key->0@ && hash
                == outside::blake3_digest(kv_store::scope_bytes(call.scope->0.deep_view()))
        }),
{
}

/// A backend is told of the caller, the session and the transport what expressions
/// may read of them, and of the client's capabilities what the request itself says
/// of them, where it does.
pub proof fn law_backends_are_told_of_the_request(
    call: ToolCall,
    ctx: RequestContext,
    slot: SessionSlot,
    facts: SessionFacts,
    arguments: Option<json::Tree>,
)
    ensures
        call.request_view(ctx, slot, facts, arguments).caller == context::expr_view(
            ctx.identity.deep_view(),
            ctx.session_id.deep_view(),
            ctx.transport,
        ),
        ctx.modern_request_capabilities matches Some(c) ==> call.request_view(
            ctx,
            slot,
            facts,
            arguments,
        ).client_capabilities == c.tree(),
{
}

/// A backend that serves a prompt or a resource is given the name and the arguments
/// that it is asked for, and its expressions read the same; no token and no key go
/// with them.
pub proof fn law_plain_requests_are_passed_on(
    ctx: RequestContext,
    slot: SessionSlot,
    facts: SessionFacts,
    name: Seq<char>,
    arguments: Option<json::Tree>,
    level: Option<LogLevel>,
)
    ensures
        ({
            let r = plain_request(ctx, slot, facts, name, arguments, level);
            &&& r.tool_name == name
            &&& r.expr_tool_name == name
            &&& r.arguments == arguments
            &&& r.expr_arguments == (match arguments {
                Some(t) => t,
                None => json::Tree::Object(Map::empty()),
            })
            &&& r.progress_token is None
            &&& r.hint is None
            &&& r.request_log_level == level
            &&& r.legacy_session_log_level == facts.log_level
        }),
{
}

/// A backend that serves a call gets the arguments as they were left, under the tool's
/// name, while expressions read the caller's own; what the client can do is what the
/// request says, or else its session.
pub proof fn law_calls_reach_their_backend(
    call: ToolCall,
    ctx: RequestContext,
    slot: &mut SessionSlot,
    facts: SessionFacts,
    arguments: Option<Json>,
    r: BackendInvocationRequest,
)
    requires
        call_ensures(ToolCall::backend_request, (&call, &ctx, slot, facts, arguments), r),
        old(slot).known() is None,
    ensures
        r.tool_name@ == call.name@,
        r.arguments.deep_view() == arguments.deep_view(),
        r.expr_ctx.tool_name@ == call.name@,
        call.arguments matches Some(own) ==> r.expr_ctx.arguments.tree() == own.tree(),
        call.arguments is None ==> r.expr_ctx.arguments.tree() == json::Tree::Object(Map::empty()),
        r.progress_token.deep_view() == call.progress_token.deep_view(),
        r.request_log_level == call.log_level,
        r.legacy_session_log_level == facts.log_level,
        match (ctx.modern_request_capabilities, facts.loaded) {
            (Some(c), _) => r.client_capabilities.tree() == c.tree(),
            (None, Ok(s)) => r.client_capabilities.tree() == s.client_capabilities.tree(),
            (None, Err(_)) => r.client_capabilities.tree() == json::Tree::Object(Map::empty()),
        },
        r.idempotency_hint is Some <==> call.key is Some && call.scope is Some,
        r.idempotency_hint matches Some(h) ==> h.key@ == call.key->0@,
{
    let v = r.deep_view();
    assert(v.tool_name == r.tool_name@);
    assert(v.expr_tool_name == r.expr_ctx.tool_name@);
    assert(v.request_log_level == r.request_log_level);
    assert(v.legacy_session_log_level == r.legacy_session_log_level);
    assert(v.hint == hint_view(r.idempotency_hint));
}

/// A prompt's backend gets the prompt's arguments, and a resource's backend its address;
/// neither gets a key or a progress token. A log level that is none is passed over.
pub proof fn law_surfaces_reach_their_backend(
    profile: &str,
    arguments: Option<Json>,
    uri: &str,
    vars: Attributes,
    meta: Json,
    ctx: RequestContext,
    first: &mut SessionSlot,
    second: &mut SessionSlot,
    third: &mut SessionSlot,
    facts: SessionFacts,
    prompt: BackendInvocationRequest,
    resource: BackendInvocationRequest,
    template: BackendInvocationRequest,
)
    requires
        call_ensures(
            prompt_request,
            (profile, arguments, Some(&meta), &ctx, first, facts),
            prompt,
        ),
        call_ensures(
            resource_request,
            (profile, uri, Some(&meta), &ctx, second, facts),
            resource,
        ),
        call_ensures(template_request, (profile, uri, &vars, &ctx, third, facts), template),
    ensures
        prompt.tool_name@ == profile@ && resource.tool_name@ == profile@ && template.tool_name@
            == profile@,
        prompt.arguments.deep_view() == arguments.deep_view(),
        resource.arguments matches Some(a) && json::tree_get(a.tree(), "uri"@) == Some(
            json::Tree::Str(uri@),
        ),
        template.arguments is Some,
        prompt.idempotency_hint is None && resource.idempotency_hint is None
            && template.idempotency_hint is None,
        prompt.progress_token is None && resource.progress_token is None
            && template.progress_token is None,
        template.request_log_level is None,
        ctx.negotiated_version is V_2025_11_25 ==> prompt.request_log_level is None
            && resource.request_log_level is None,
        prompt.request_log_level == resource.request_log_level,
        resource.request_log_level matches Some(level) ==> json::tree_get(
            meta.tree(),
            "io.modelcontextprotocol/logLevel"@,
        ) == Some(json::Tree::Str(level.name_text())),
        prompt.legacy_session_log_level == facts.log_level,
{
    let p = prompt.deep_view();
    let q = resource.deep_view();
    let t = template.deep_view();
    assert(p.tool_name == prompt.tool_name@ && q.tool_name == resource.tool_name@ && t.tool_name
        == template.tool_name@);
    assert(p.hint == hint_view(prompt.idempotency_hint));
    assert(q.hint == hint_view(resource.idempotency_hint));
    assert(t.hint == hint_view(template.idempotency_hint));
    assert(q.arguments == resource.arguments.deep_view());
    assert(t.arguments == template.arguments.deep_view());
    assert(p.progress_token == prompt.progress_token.deep_view());
    assert(q.progress_token == resource.progress_token.deep_view());
    assert(t.progress_token == template.progress_token.deep_view());
    capabilities_list::law_templates_hand_over_their_variables(uri@, seq![(""@, ""@)], 0);
    if let Some(level) = resource.request_log_level {
        tool_admission::law_wishes_are_read_where_they_stand(
            Some(meta.tree()),
            ctx.negotiated_version,
            level,
        );
    }
    tool_admission::law_wishes_are_read_where_they_stand(
        Some(meta.tree()),
        ctx.negotiated_version,
        LogLevel::Debug,
    );
}

} // verus!
