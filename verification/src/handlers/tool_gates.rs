//! The gates that a tool call passes before it is dispatched: repeated calls,
//! policies, quotas, plugins and the check of its arguments.
use vstd::prelude::*;
use vstd::string::*;

use crate::clock::Timestamp;
use crate::context::RequestContext;
use crate::handlers::tool_admission;
use crate::handlers::tool_admission::ToolCall;
use crate::idempotency;
use crate::idempotency::kv_store;
use crate::idempotency::store;
use crate::idempotency::store::{CachedOutcome, IdempotencyError, PeekOutcome};
use crate::idempotency::{ERROR_CODE_CONFLICT, ERROR_CODE_IN_FLIGHT};
use crate::idempotency_ops;
use crate::idempotency_ops::{
    build_idempotency_replay_response, build_tasks_create_replay_response,
};
use crate::json;
use crate::json::Json;
use crate::notes;
use crate::notes::{Answer, CallNote, SampleOutcome};
use crate::outside;
use crate::policy;
use crate::policy::{PluginIdentity, PreDispatchPolicyOutcome};
use crate::policy_eval;
use crate::policy_eval::{
    chain_reason_of, denial_response, ApprovalOutcome, ApprovalRequest, AwaitContext, DebugInfo,
    GateDecision, PolicyChainOutcome, SurfaceGate,
};
use crate::protocol;
use crate::protocol::{
    protocol_http_error, protocol_http_success, ProtocolHttpResponse, ToolCallResult, ToolContent,
};
use crate::quota_gate;
use crate::quota_gate::{ConcurrencyPermit, QuotaDecision};
use crate::text;

verus! {

/// A key that a backend may use to recognise a repeated call.
#[derive(Debug)]
pub struct IdempotencyHint {
    pub key: String,
    pub scope_hash: [u8; 32],
}

/// Whether the caller of a repeated call may still make it.
#[derive(Debug)]
pub enum ReplayCheck {
    /// The policies allow it.
    Authorized,
    /// The built-in policy no longer allows it.
    Revoked,
    /// A full check refused it with an answer of its own.
    Refused(ProtocolHttpResponse),
}

impl ReplayCheck {
    /// The outcome of a check by the built-in policy alone.
    pub fn by_policy(outcome: &PreDispatchPolicyOutcome) -> (r: ReplayCheck)
        ensures
            r == (if outcome.deep_view() == policy::DecisionView::Allow {
                ReplayCheck::Authorized
            } else {
                ReplayCheck::Revoked
            }),
    {
        match outcome {
            PreDispatchPolicyOutcome::Allow => ReplayCheck::Authorized,
            PreDispatchPolicyOutcome::Deny(_) => ReplayCheck::Revoked,
        }
    }

    /// The outcome of a check by every layer.
    pub fn by_surface_gate(outcome: Result<(), ProtocolHttpResponse>) -> (r: ReplayCheck)
        ensures
            r == (match outcome {
                Ok(_) => ReplayCheck::Authorized,
                Err(e) => ReplayCheck::Refused(e),
            }),
    {
        match outcome {
            Ok(_) => ReplayCheck::Authorized,
            Err(e) => ReplayCheck::Refused(e),
        }
    }
}

/// What the control plane last said of the license.
#[derive(Debug)]
pub struct QuotaStatus {
    /// How many requests a second the gateway may serve.
    pub rps_limit: Option<u64>,
    /// Whether the calls of the month are used up.
    pub exhausted: bool,
    /// When the count starts anew.
    pub until: Option<Timestamp>,
    pub limit: Option<u64>,
    pub remaining: Option<u64>,
}

/// What a call was called by: a request, or one that makes a task.
pub open spec fn call_word(as_task: bool) -> Seq<char> {
    if as_task {
        "tasks/create"@
    } else {
        "request"@
    }
}

pub(crate) fn call_word_of(as_task: bool) -> (r: &'static str)
    ensures
        r@ == call_word(as_task),
{
    if as_task {
        "tasks/create"
    } else {
        "request"
    }
}

/// The answer to a call whose twin is still running.
pub open spec fn in_flight_answer(
    request_id: json::Tree,
    word: Seq<char>,
    key: Seq<char>,
    started_at: Timestamp,
    method: Option<Seq<char>>,
) -> notes::AnswerView {
    let base = json::map_of(
        seq![
            ("key_hash"@, json::Tree::Str(idempotency::key_hash_text(key))),
            ("started_at"@, json::Tree::Str(started_at.rfc3339_view())),
        ],
    );
    notes::AnswerView {
        response: protocol::error_reply(
            409,
            Some(request_id),
            ERROR_CODE_IN_FLIGHT as int,
            "another "@ + word + " with this idempotency key is in progress"@,
            Some(
                json::object_of(
                    seq![("retry_after_ms"@, json::Tree::Number(text::decimal_text(1000)))],
                ),
            ),
        ),
        notes: seq![
            notes::NoteView::Idempotency {
                action: "mcpg.idempotency.in_flight"@,
                details: json::Tree::Object(with_method(base, method)),
            },
        ],
    }
}

/// Details that name the method of a call where one is given.
pub open spec fn with_method(
    base: Map<Seq<char>, json::Tree>,
    method: Option<Seq<char>>,
) -> Map<Seq<char>, json::Tree> {
    match method {
        Some(m) => base.insert("method"@, json::Tree::Str(m)),
        None => base,
    }
}

fn add_method(base: Json, method: Option<&str>) -> (r: Json)
    requires
        base is Object,
    ensures
        r.tree() == json::Tree::Object(with_method(base.tree()->Object_0, method.deep_view())),
{
    match method {
        Some(m) => base.with("method", Json::text(m)),
        None => base,
    }
}

pub(crate) fn in_flight(
    request_id: Json,
    word: &str,
    key: &str,
    started_at: Timestamp,
    method: Option<&str>,
) -> (r: Answer)
    ensures
        r.deep_view() == in_flight_answer(
            request_id.tree(),
            word@,
            key@,
            started_at,
            method.deep_view(),
        ),
{
    proof {
        reveal_with_fuel(json::map_of, 3);
    }
    let mut message: String = "another ".to_owned();
    message.append(word);
    message.append(" with this idempotency key is in progress");
    let details: Json = add_method(
        Json::object().with("key_hash", Json::Str(idempotency::key_hash_hex(key))).with(
            "started_at",
            Json::Str(started_at.to_rfc3339()),
        ),
        method,
    );
    let data: Json = Json::object().with("retry_after_ms", Json::count(1000));
    Answer::plain(
        protocol_http_error(409, Some(request_id), ERROR_CODE_IN_FLIGHT, message, Some(data)),
    ).noting(CallNote::Idempotency { action: "mcpg.idempotency.in_flight".to_owned(), details })
}

/// The answer to a call whose key was used for another request.
pub open spec fn conflict_answer(
    request_id: json::Tree,
    word: Seq<char>,
    key: Seq<char>,
    stored_hash: Seq<u8>,
    new_hash: Seq<u8>,
    method: Option<Seq<char>>,
) -> notes::AnswerView {
    let base = json::map_of(
        seq![
            ("key_hash"@, json::Tree::Str(idempotency::key_hash_text(key))),
            ("stored_hash"@, json::Tree::Str(outside::hex_text(stored_hash))),
            ("new_hash"@, json::Tree::Str(outside::hex_text(new_hash))),
        ],
    );
    notes::AnswerView {
        response: protocol::error_reply(
            422,
            Some(request_id),
            ERROR_CODE_CONFLICT as int,
            "request body differs from cached "@ + word + " for this idempotency key"@,
            Some(
                json::object_of(
                    seq![("stored_hash"@, json::Tree::Str(outside::hex_text(stored_hash)))],
                ),
            ),
        ),
        notes: seq![
            notes::NoteView::Idempotency {
                action: "mcpg.idempotency.body_mismatch"@,
                details: json::Tree::Object(with_method(base, method)),
            },
        ],
    }
}

pub(crate) fn conflict(
    request_id: Json,
    word: &str,
    key: &str,
    stored_hash: &[u8; 32],
    new_hash: &[u8; 32],
    method: Option<&str>,
) -> (r: Answer)
    ensures
        r.deep_view() == conflict_answer(
            request_id.tree(),
            word@,
            key@,
            stored_hash@,
            new_hash@,
            method.deep_view(),
        ),
{
    proof {
        reveal_with_fuel(json::map_of, 4);
    }
    let mut message: String = "request body differs from cached ".to_owned();
    message.append(word);
    message.append(" for this idempotency key");
    let stored: String = outside::hex_encode(stored_hash.as_slice());
    let details: Json = add_method(
        Json::object().with("key_hash", Json::Str(idempotency::key_hash_hex(key))).with(
            "stored_hash",
            Json::text(stored.as_str()),
        ).with("new_hash", Json::Str(outside::hex_encode(new_hash.as_slice()))),
        method,
    );
    let data: Json = Json::object().with("stored_hash", Json::Str(stored));
    Answer::plain(
        protocol_http_error(422, Some(request_id), ERROR_CODE_CONFLICT, message, Some(data)),
    ).noting(
        CallNote::Idempotency { action: "mcpg.idempotency.body_mismatch".to_owned(), details },
    )
}

/// What a look at a call's record leads to.
#[derive(Debug)]
pub enum AfterPeek {
    /// The call goes on.
    Proceed,
    /// The call was answered before, if its caller may still make it.
    CheckReplay { outcome: CachedOutcome, completed_at: Timestamp },
    /// The call is answered.
    Finish(Answer),
}

/// What a look at a call's record leads to, over plain values.
pub enum AfterPeekView {
    Proceed,
    CheckReplay { outcome: store::OutcomeView, completed_at: Timestamp },
    Finish(notes::AnswerView),
}

impl DeepView for AfterPeek {
    type V = AfterPeekView;

    open spec fn deep_view(&self) -> AfterPeekView {
        match self {
            AfterPeek::Proceed => AfterPeekView::Proceed,
            AfterPeek::CheckReplay { outcome, completed_at } => AfterPeekView::CheckReplay {
                outcome: outcome.deep_view(),
                completed_at: *completed_at,
            },
            AfterPeek::Finish(a) => AfterPeekView::Finish(a.deep_view()),
        }
    }
}

/// What plugins changed about a call.
#[derive(Debug)]
pub struct GateEffects {
    /// What is added to the result.
    pub metadata: Option<Json>,
    /// The arguments in place of the caller's.
    pub modified_arguments: Option<Json>,
    /// A result that makes the dispatch needless.
    pub cached_result: Option<Json>,
}

/// What plugins changed about a call, over plain values.
pub struct EffectsView {
    pub metadata: Option<json::Tree>,
    pub modified_arguments: Option<json::Tree>,
    pub cached_result: Option<json::Tree>,
}

impl DeepView for GateEffects {
    type V = EffectsView;

    open spec fn deep_view(&self) -> EffectsView {
        EffectsView {
            metadata: self.metadata.deep_view(),
            modified_arguments: self.modified_arguments.deep_view(),
            cached_result: self.cached_result.deep_view(),
        }
    }
}

/// No changes.
pub open spec fn no_effects() -> EffectsView {
    EffectsView { metadata: None, modified_arguments: None, cached_result: None }
}

impl GateEffects {
    /// No changes.
    pub fn none() -> (r: GateEffects)
        ensures
            r.deep_view() == no_effects(),
    {
        GateEffects { metadata: None, modified_arguments: None, cached_result: None }
    }
}

/// What the answer of the gating plugins leads to.
#[derive(Debug)]
pub enum AfterGates {
    Proceed(GateEffects),
    AwaitApproval(ApprovalRequest),
    Finish(Answer),
}

/// What the answer of the gating plugins leads to, over plain values.
pub enum AfterGatesView {
    Proceed(EffectsView),
    AwaitApproval(ApprovalRequest),
    Finish(notes::AnswerView),
}

impl DeepView for AfterGates {
    type V = AfterGatesView;

    open spec fn deep_view(&self) -> AfterGatesView {
        match self {
            AfterGates::Proceed(e) => AfterGatesView::Proceed(e.deep_view()),
            AfterGates::AwaitApproval(request) => AfterGatesView::AwaitApproval(*request),
            AfterGates::Finish(a) => AfterGatesView::Finish(a.deep_view()),
        }
    }
}

impl ToolCall {
    /// Whether the call looks for a record of an earlier one.
    pub open spec fn dedupes(&self) -> bool {
        self.settings.dedupe && self.key is Some && self.scope is Some
    }

    /// Whether the call looks for a record of an earlier one.
    pub fn looks_for_twin(&self) -> (r: bool)
        ensures
            r == self.dedupes(),
    {
        self.settings.dedupe && self.key.is_some() && self.scope.is_some()
    }

    /// The key of the call, or an empty text.
    pub open spec fn key_text(&self) -> Seq<char> {
        match self.key {
            Some(k) => k@,
            None => ""@,
        }
    }

    pub(crate) fn key_str(&self) -> (r: &str)
        ensures
            r@ == self.key_text(),
    {
        match &self.key {
            Some(k) => k.as_str(),
            None => "",
        }
    }

    /// The authorization of the call by the policy engines and the gating plugins.
    pub fn surface_gate(&self, has_tool_gates: bool) -> (r: SurfaceGate)
        ensures
            r.asks(
                "tool"@,
                "tool.call.pre"@,
                self.name@,
                json::or_object(self.arguments.deep_view()),
                self.request_id.tree(),
                has_tool_gates,
            ),
    {
        SurfaceGate::new(
            "tool",
            "tool.call.pre",
            self.name.as_str(),
            self.arguments_for_transforms(None),
            self.request_id.copy(),
            has_tool_gates,
        )
    }

    /// The key that backends may use to recognise a repeated call.
    pub fn idempotency_hint(&self) -> (r: Option<IdempotencyHint>)
        ensures
            r is Some == (self.key is Some && self.scope is Some),
            r matches Some(h) ==> h.key@ == self.key_text() && h.scope_hash@
                == outside::blake3_digest(kv_store::scope_bytes(self.scope->0.deep_view())),
    {
        match (&self.key, &self.scope) {
            (Some(k), Some(s)) => Some(
                IdempotencyHint { key: k.clone(), scope_hash: kv_store::scope_hash(s) },
            ),
            _ => None,
        }
    }

    /// What a look at the call's record leads to. A store that fails does not
    /// stop the call.
    pub open spec fn peek_step(
        &self,
        peeked: Result<Option<PeekOutcome>, IdempotencyError>,
    ) -> AfterPeekView {
        let method = Some(tool_admission::method_text(self.task is Some));
        match peeked {
            Ok(Some(PeekOutcome::Completed { outcome, completed_at })) => {
                AfterPeekView::CheckReplay { outcome: outcome.deep_view(), completed_at }
            },
            Ok(Some(PeekOutcome::InFlight { started_at })) => AfterPeekView::Finish(
                in_flight_answer(
                    self.request_id.tree(),
                    "request"@,
                    self.key_text(),
                    started_at,
                    method,
                ),
            ),
            Ok(Some(PeekOutcome::Conflict { stored_request_hash })) => AfterPeekView::Finish(
                conflict_answer(
                    self.request_id.tree(),
                    "request"@,
                    self.key_text(),
                    stored_request_hash@,
                    self.request_hash@,
                    method,
                ),
            ),
            Ok(None) => AfterPeekView::Proceed,
            Err(_) => AfterPeekView::Proceed,
        }
    }

    /// What a look at the call's record leads to.
    pub fn after_peek(&self, peeked: Result<Option<PeekOutcome>, IdempotencyError>) -> (r:
        AfterPeek)
        ensures
            r.deep_view() == self.peek_step(peeked),
    {
        let method: &'static str = if self.task.is_some() {
            "tasks/create"
        } else {
            "tools/call"
        };
        match peeked {
            Ok(Some(PeekOutcome::Completed { outcome, completed_at })) => AfterPeek::CheckReplay {
                outcome,
                completed_at,
            },
            Ok(Some(PeekOutcome::InFlight { started_at })) => AfterPeek::Finish(
                in_flight(
                    self.request_id.copy(),
                    "request",
                    self.key_str(),
                    started_at,
                    Some(method),
                ),
            ),
            Ok(Some(PeekOutcome::Conflict { stored_request_hash })) => AfterPeek::Finish(
                conflict(
                    self.request_id.copy(),
                    "request",
                    self.key_str(),
                    &stored_request_hash,
                    &self.request_hash,
                    Some(method),
                ),
            ),
            Ok(None) => AfterPeek::Proceed,
            Err(_) => AfterPeek::Proceed,
        }
    }

    /// The answer that gives the kept result again.
    pub open spec fn replay_view(
        &self,
        outcome: store::OutcomeView,
        completed_at: Timestamp,
        live_task: Option<json::Tree>,
    ) -> notes::AnswerView {
        if self.task is Some {
            idempotency_ops::task_replay_answer(
                self.request_id.tree(),
                self.correlation_id@,
                self.key_text(),
                outcome,
                completed_at,
                live_task,
            )
        } else {
            idempotency_ops::replay_answer(
                self.request_id.tree(),
                self.correlation_id@,
                self.key_text(),
                outcome,
                completed_at,
            )
        }
    }

    /// Gives the kept result again. `live_task` is the task that a kept handle
    /// names, where there still is one.
    pub fn replay(
        &self,
        outcome: CachedOutcome,
        completed_at: Timestamp,
        live_task: Option<Json>,
    ) -> (r: Answer)
        ensures
            r.deep_view() == self.replay_view(
                outcome.deep_view(),
                completed_at,
                live_task.deep_view(),
            ),
    {
        if self.task.is_some() {
            build_tasks_create_replay_response(
                self.request_id.copy(),
                self.correlation_id.as_str(),
                self.key_str(),
                outcome,
                completed_at,
                live_task,
            )
        } else {
            build_idempotency_replay_response(
                self.request_id.copy(),
                self.correlation_id.as_str(),
                self.key_str(),
                outcome,
                completed_at,
            )
        }
    }

    /// The answer to a call that was answered before: the kept result, where
    /// it was kept and the caller may still make the call.
    pub open spec fn replay_refusal(
        &self,
        check: ReplayCheck,
        outcome: store::OutcomeView,
        completed_at: Timestamp,
        live_task: Option<json::Tree>,
    ) -> Option<notes::AnswerView> {
        match check {
            ReplayCheck::Refused(response) => Some(notes::plain(response.deep_view())),
            ReplayCheck::Revoked => None,
            ReplayCheck::Authorized => if outcome.payload_truncated {
                None
            } else {
                Some(self.replay_view(outcome, completed_at, live_task))
            },
        }
    }

    /// Answers a call that was answered before, or lets it go on.
    pub fn after_replay_check(
        &self,
        check: ReplayCheck,
        outcome: CachedOutcome,
        completed_at: Timestamp,
        live_task: Option<Json>,
    ) -> (r: Result<(), Answer>)
        ensures
            notes::refused(r) == self.replay_refusal(
                check,
                outcome.deep_view(),
                completed_at,
                live_task.deep_view(),
            ),
    {
        match check {
            ReplayCheck::Refused(response) => Err(Answer::plain(response)),
            ReplayCheck::Revoked => Ok(()),
            ReplayCheck::Authorized => {
                if outcome.payload_truncated {
                    Ok(())
                } else {
                    Err(self.replay(outcome, completed_at, live_task))
                }
            },
        }
    }

    /// The answer to a call that the policy engines refuse.
    pub open spec fn chain_refusal(&self, outcome: PolicyChainOutcome, info: DebugInfo) -> Option<
        notes::AnswerView,
    > {
        match outcome {
            PolicyChainOutcome::Deny { engine, reason, policy_version } => Some(
                notes::AnswerView {
                    response: protocol::error_reply(
                        403,
                        Some(self.request_id.tree()),
                        -33000,
                        "Policy `"@ + engine@ + "` denied tool '"@ + self.name@ + "': "@ + reason@,
                        policy_eval::debug_tree(
                            info,
                            "Policy engine `"@ + engine@ + "` denied tool '"@ + self.name@
                                + "'. Check the engine's bundle and request shape."@,
                        ),
                    ),
                    notes: seq![
                        notes::NoteView::PolicyDenial {
                            reason: policy_eval::chain_reason(engine@, policy_version@),
                        },
                        notes::NoteView::Sample {
                            outcome: SampleOutcome::PolicyDenied,
                            error_code: Some("policy:"@ + engine@),
                            error_text: Some(reason@),
                            correlation_id: self.correlation_id@,
                        },
                    ],
                },
            ),
            _ => None,
        }
    }

    /// Answers a call that the policy engines refuse.
    pub fn after_chain(&self, outcome: PolicyChainOutcome, info: &DebugInfo) -> (r: Result<
        (),
        Answer,
    >)
        ensures
            notes::refused(r) == self.chain_refusal(outcome, *info),
    {
        match outcome {
            PolicyChainOutcome::Deny { engine, reason, policy_version } => {
                let mut message: String = "Policy `".to_owned();
                message.append(engine.as_str());
                message.append("` denied tool '");
                message.append(self.name.as_str());
                message.append("': ");
                message.append(reason.as_str());
                let mut hint: String = "Policy engine `".to_owned();
                hint.append(engine.as_str());
                hint.append("` denied tool '");
                hint.append(self.name.as_str());
                hint.append("'. Check the engine's bundle and request shape.");
                let mut code: String = "policy:".to_owned();
                code.append(engine.as_str());
                let response: ProtocolHttpResponse = protocol_http_error(
                    403,
                    Some(self.request_id.copy()),
                    -33000,
                    message,
                    info.debug_error_data(hint.as_str()),
                );
                Err(
                    Answer::plain(response).noting(
                        CallNote::PolicyDenial {
                            reason: chain_reason_of(engine.as_str(), policy_version.as_str()),
                        },
                    ).noting(
                        CallNote::Sample {
                            outcome: SampleOutcome::PolicyDenied,
                            error_code: Some(code),
                            error_text: Some(reason),
                            correlation_id: self.correlation_id.clone(),
                        },
                    ),
                )
            },
            _ => Ok(()),
        }
    }

    /// The answer to a call that the policy gate refuses.
    pub open spec fn policy_refusal(&self, decision: policy::DecisionView, info: DebugInfo) -> Option<
        notes::AnswerView,
    > {
        match decision {
            policy::DecisionView::Allow => None,
            policy::DecisionView::Deny(d) => Some(
                notes::AnswerView {
                    response: policy_eval::denial_reply(
                        d,
                        self.request_id.tree(),
                        info,
                        "Policy denied tool '"@ + self.name@
                            + "'. Check identity trust level and policy rules."@,
                    ),
                    notes: seq![
                        notes::NoteView::PolicyDenial { reason: d.audit_reason },
                        notes::NoteView::AccessDenied { reason: d.audit_reason },
                        notes::NoteView::Sample {
                            outcome: SampleOutcome::PolicyDenied,
                            error_code: Some("policy:pre_dispatch"@),
                            error_text: Some(d.audit_reason),
                            correlation_id: self.correlation_id@,
                        },
                    ],
                },
            ),
        }
    }

    /// Answers a call that the policy gate refuses.
    pub fn after_policy(&self, outcome: PreDispatchPolicyOutcome, info: &DebugInfo) -> (r: Result<
        (),
        Answer,
    >)
        ensures
            notes::refused(r) == self.policy_refusal(outcome.deep_view(), *info),
    {
        match outcome {
            PreDispatchPolicyOutcome::Allow => Ok(()),
            PreDispatchPolicyOutcome::Deny(denial) => {
                let reason: String = denial.audit_reason.clone();
                let mut hint: String = "Policy denied tool '".to_owned();
                hint.append(self.name.as_str());
                hint.append("'. Check identity trust level and policy rules.");
                let response: ProtocolHttpResponse = denial_response(
                    denial,
                    self.request_id.copy(),
                    info,
                    hint.as_str(),
                );
                Err(
                    Answer::plain(response).noting(
                        CallNote::PolicyDenial { reason: reason.clone() },
                    ).noting(CallNote::AccessDenied { reason: reason.clone() }).noting(
                        CallNote::Sample {
                            outcome: SampleOutcome::PolicyDenied,
                            error_code: Some("policy:pre_dispatch".to_owned()),
                            error_text: Some(reason),
                            correlation_id: self.correlation_id.clone(),
                        },
                    ),
                )
            },
        }
    }

    /// The answer to a call that the license does not cover.
    pub open spec fn license_answer(
        &self,
        kind: Seq<char>,
        reason: Seq<char>,
        code: Seq<char>,
        message: Seq<char>,
        hint: Seq<char>,
        info: DebugInfo,
    ) -> notes::AnswerView {
        notes::AnswerView {
            response: protocol::error_reply(
                429,
                Some(self.request_id.tree()),
                -33002,
                message,
                policy_eval::debug_tree(info, hint),
            ),
            notes: seq![
                notes::NoteView::QuotaExceeded { policy_id: "cp_license"@, kind, reason },
                notes::NoteView::Sample {
                    outcome: SampleOutcome::QuotaExceeded,
                    error_code: Some(code),
                    error_text: Some(reason),
                    correlation_id: self.correlation_id@,
                },
            ],
        }
    }

    fn license_refused(
        &self,
        kind: &str,
        reason: String,
        code: &str,
        message: String,
        hint: String,
        info: &DebugInfo,
    ) -> (r: Answer)
        ensures
            r.deep_view() == self.license_answer(kind@, reason@, code@, message@, hint@, *info),
    {
        let response: ProtocolHttpResponse = protocol_http_error(
            429,
            Some(self.request_id.copy()),
            -33002,
            message,
            info.debug_error_data(hint.as_str()),
        );
        Answer::plain(response).noting(
            CallNote::QuotaExceeded {
                policy_id: "cp_license".to_owned(),
                kind: kind.to_owned(),
                reason: reason.clone(),
            },
        ).noting(
            CallNote::Sample {
                outcome: SampleOutcome::QuotaExceeded,
                error_code: Some(code.to_owned()),
                error_text: Some(reason),
                correlation_id: self.correlation_id.clone(),
            },
        )
    }

    /// The answer to a call that the license does not cover: too many requests
    /// in one second come first, then a used-up month.
    pub open spec fn license_refusal(
        &self,
        status: Option<QuotaStatus>,
        rps_allowed: bool,
        info: DebugInfo,
    ) -> Option<notes::AnswerView> {
        match status {
            None => None,
            Some(qs) => if qs.rps_limit is Some && !rps_allowed {
                let rps = text::decimal_text(qs.rps_limit->0 as nat);
                Some(
                    self.license_answer(
                        "rps_per_gateway"@,
                        "per-gateway rate limit exceeded (limit="@ + rps + "/s)"@,
                        "cp:rps_exceeded"@,
                        "Per-gateway rate limit of "@ + rps
                            + " requests/second exceeded. Retry shortly."@,
                        "The license caps this gateway at "@ + rps
                            + " requests/second. Requests above it are shed before dispatch and are not billed. Add replicas or raise the plan to lift it."@,
                        info,
                    ),
                )
            } else if qs.exhausted {
                let until = until_text(qs.until);
                Some(
                    self.license_answer(
                        "tool_calls_per_month"@,
                        "tool-call quota exhausted (limit="@ + text::debug_opt_text(qs.limit)
                            + ", remaining="@ + text::debug_opt_text(qs.remaining)
                            + ", resets_at="@ + until + ")"@,
                        "cp:quota_exhausted"@,
                        "Tool-call quota exhausted for this organization. Resets at "@ + until
                            + "."@,
                        "Control-plane reported tool-call quota exhausted; new calls will be refused until "@
                            + until + ". Contact your billing admin to raise the limit."@,
                        info,
                    ),
                )
            } else {
                None
            },
        }
    }

    /// Answers a call that the license does not cover. `rps_allowed` is what the
    /// limiter of requests per second says.
    pub fn after_license(
        &self,
        status: Option<QuotaStatus>,
        rps_allowed: bool,
        info: &DebugInfo,
    ) -> (r: Result<(), Answer>)
        ensures
            notes::refused(r) == self.license_refusal(status, rps_allowed, *info),
    {
        let qs: QuotaStatus = match status {
            None => {
                return Ok(());
            },
            Some(qs) => qs,
        };
        if let Some(limit) = qs.rps_limit {
            if !rps_allowed {
                let rps: String = text::decimal(limit);
                let mut reason: String = "per-gateway rate limit exceeded (limit=".to_owned();
                reason.append(rps.as_str());
                reason.append("/s)");
                let mut message: String = "Per-gateway rate limit of ".to_owned();
                message.append(rps.as_str());
                message.append(" requests/second exceeded. Retry shortly.");
                let mut hint: String = "The license caps this gateway at ".to_owned();
                hint.append(rps.as_str());
                hint.append(
                    " requests/second. Requests above it are shed before dispatch and are not billed. Add replicas or raise the plan to lift it.",
                );
                return Err(
                    self.license_refused(
                        "rps_per_gateway",
                        reason,
                        "cp:rps_exceeded",
                        message,
                        hint,
                        info,
                    ),
                );
            }
        }
        if !qs.exhausted {
            return Ok(());
        }
        let until: String = match qs.until {
            Some(t) => t.to_rfc3339(),
            None => "unknown".to_owned(),
        };
        let mut reason: String = "tool-call quota exhausted (limit=".to_owned();
        reason.append(text::debug_opt(qs.limit).as_str());
        reason.append(", remaining=");
        reason.append(text::debug_opt(qs.remaining).as_str());
        reason.append(", resets_at=");
        reason.append(until.as_str());
        reason.append(")");
        let mut message: String =
            "Tool-call quota exhausted for this organization. Resets at ".to_owned();
        message.append(until.as_str());
        message.append(".");
        let mut hint: String =
            "Control-plane reported tool-call quota exhausted; new calls will be refused until ".to_owned();
        hint.append(until.as_str());
        hint.append(". Contact your billing admin to raise the limit.");
        Err(
            self.license_refused(
                "tool_calls_per_month",
                reason,
                "cp:quota_exhausted",
                message,
                hint,
                info,
            ),
        )
    }

    /// The answer to a call that the quota gate refuses, or that it could not
    /// decide on. A gate that fails lets the call pass only where that is set.
    pub open spec fn quota_refusal(
        &self,
        decision: Option<Result<QuotaDecision, String>>,
        info: DebugInfo,
    ) -> Option<notes::AnswerView> {
        match decision {
            None => None,
            Some(Ok(QuotaDecision::Allow { permit })) => None,
            Some(Ok(QuotaDecision::Deny { policy_id, kind, reason })) => {
                let word = quota_gate::kind_text(kind);
                Some(
                    notes::AnswerView {
                        response: protocol::error_reply(
                            429,
                            Some(self.request_id.tree()),
                            -33001,
                            "Quota policy `"@ + policy_id@ + "` ("@ + word + ") refused tool '"@
                                + self.name@ + "': "@ + reason@,
                            policy_eval::debug_tree(
                                info,
                                "Quota gate denied tool '"@ + self.name@ + "' under policy `"@
                                    + policy_id@ + "` ("@ + word
                                    + "). Check governance.quotas."@ + word
                                    + "[].id and the binding's quotas: ref."@,
                            ),
                        ),
                        notes: seq![
                            notes::NoteView::QuotaExceeded {
                                policy_id: policy_id@,
                                kind: word,
                                reason: reason@,
                            },
                        ],
                    },
                )
            },
            Some(Err(e)) => if self.settings.quota_fail_open {
                None
            } else {
                Some(
                    notes::AnswerView {
                        response: protocol::error_reply(
                            503,
                            Some(self.request_id.tree()),
                            -33002,
                            "Quota enforcement is temporarily unavailable for tool '"@ + self.name@
                                + "'"@,
                            policy_eval::debug_tree(
                                info,
                                "The quota store errored and governance.quotas.on_error is `deny` (fail-closed). Retry, or set governance.quotas.on_error: allow to fail open."@,
                            ),
                        ),
                        notes: seq![
                            notes::NoteView::QuotaExceeded {
                                policy_id: "none"@,
                                kind: "error"@,
                                reason: e@,
                            },
                        ],
                    },
                )
            },
        }
    }

    /// The slot that a call holds after the quota gate.
    pub open spec fn quota_permit(decision: Option<Result<QuotaDecision, String>>) -> Option<
        Seq<char>,
    > {
        match decision {
            Some(Ok(QuotaDecision::Allow { permit: Some(p) })) => Some(p.key()),
            _ => None,
        }
    }

    /// Answers a call that the quota gate refuses, or hands out the slot that
    /// it holds while it runs. `None` stands for a gateway without quotas.
    pub fn after_quota(
        &self,
        decision: Option<Result<QuotaDecision, String>>,
        info: &DebugInfo,
    ) -> (r: Result<Option<ConcurrencyPermit>, Answer>)
        ensures
            notes::refused(r) == self.quota_refusal(decision, *info),
            r matches Ok(p) ==> permit_view(p) == ToolCall::quota_permit(decision),
    {
        match decision {
            None => Ok(None),
            Some(Ok(QuotaDecision::Allow { permit })) => Ok(permit),
            Some(Ok(QuotaDecision::Deny { policy_id, kind, reason })) => {
                let word: &'static str = kind.as_str();
                let mut message: String = "Quota policy `".to_owned();
                message.append(policy_id.as_str());
                message.append("` (");
                message.append(word);
                message.append(") refused tool '");
                message.append(self.name.as_str());
                message.append("': ");
                message.append(reason.as_str());
                let mut hint: String = "Quota gate denied tool '".to_owned();
                hint.append(self.name.as_str());
                hint.append("' under policy `");
                hint.append(policy_id.as_str());
                hint.append("` (");
                hint.append(word);
                hint.append("). Check governance.quotas.");
                hint.append(word);
                hint.append("[].id and the binding's quotas: ref.");
                let response: ProtocolHttpResponse = protocol_http_error(
                    429,
                    Some(self.request_id.copy()),
                    -33001,
                    message,
                    info.debug_error_data(hint.as_str()),
                );
                Err(
                    Answer::plain(response).noting(
                        CallNote::QuotaExceeded { policy_id, kind: word.to_owned(), reason },
                    ),
                )
            },
            Some(Err(e)) => {
                if self.settings.quota_fail_open {
                    return Ok(None);
                }
                let mut message: String =
                    "Quota enforcement is temporarily unavailable for tool '".to_owned();
                message.append(self.name.as_str());
                message.append("'");
                let response: ProtocolHttpResponse = protocol_http_error(
                    503,
                    Some(self.request_id.copy()),
                    -33002,
                    message,
                    info.debug_error_data(
                        "The quota store errored and governance.quotas.on_error is `deny` (fail-closed). Retry, or set governance.quotas.on_error: allow to fail open.",
                    ),
                );
                Err(
                    Answer::plain(response).noting(
                        CallNote::QuotaExceeded {
                            policy_id: "none".to_owned(),
                            kind: "error".to_owned(),
                            reason: e,
                        },
                    ),
                )
            },
        }
    }

    /// What the answer of the gating plugins leads to. `None` stands for a
    /// gateway without such plugins.
    pub open spec fn gates_step(&self, decision: Option<GateDecision>) -> AfterGatesView {
        match decision {
            None => AfterGatesView::Proceed(no_effects()),
            Some(GateDecision::Allow { metadata, modified_arguments, modified_result }) => {
                AfterGatesView::Proceed(
                    EffectsView {
                        metadata: metadata.deep_view(),
                        modified_arguments: modified_arguments.deep_view(),
                        cached_result: modified_result.deep_view(),
                    },
                )
            },
            Some(GateDecision::PendingApproval(request)) => AfterGatesView::AwaitApproval(request),
            Some(d) => AfterGatesView::Finish(
                notes::plain(policy_eval::gate_refusal(d, self.request_id.tree())->0),
            ),
        }
    }

    /// What the answer of the gating plugins leads to.
    pub fn after_gates(&self, decision: Option<GateDecision>) -> (r: AfterGates)
        ensures
            r.deep_view() == self.gates_step(decision),
    {
        match decision {
            None => AfterGates::Proceed(GateEffects::none()),
            Some(GateDecision::Allow { metadata, modified_arguments, modified_result }) => {
                AfterGates::Proceed(
                    GateEffects { metadata, modified_arguments, cached_result: modified_result },
                )
            },
            Some(GateDecision::PendingApproval(request)) => AfterGates::AwaitApproval(request),
            Some(GateDecision::Deny { http_status, code, message, error_data }) => {
                AfterGates::Finish(
                    Answer::plain(
                        protocol_http_error(
                            http_status,
                            Some(self.request_id.copy()),
                            code,
                            message,
                            error_data,
                        ),
                    ),
                )
            },
            Some(GateDecision::Challenge { http_status, code, message, challenge_data }) => {
                AfterGates::Finish(
                    Answer::plain(
                        protocol_http_error(
                            http_status,
                            Some(self.request_id.copy()),
                            code,
                            message,
                            Some(challenge_data),
                        ),
                    ),
                )
            },
        }
    }

    /// What is known where the approval of the call is awaited. `identity` is who
    /// the caller is to plugins.
    pub fn await_context(
        &self,
        request: &ApprovalRequest,
        request_context: &RequestContext,
        identity: PluginIdentity,
    ) -> (r: AwaitContext)
        ensures
            r.request.deep_view() == request.deep_view(),
            r.request_id@ == request_context.request_id.text(),
            r.tool_name@ == self.name@,
            r.identity == identity,
            r.arguments.deep_view() == self.arguments.deep_view(),
    {
        AwaitContext {
            request: request.copy(),
            request_id: request_context.request_id.as_str().to_owned(),
            tool_name: self.name.clone(),
            identity,
            arguments: json::copy_opt(self.arguments.as_ref()),
        }
    }

    /// The answer to a call that was not approved.
    pub open spec fn approval_refusal(&self, outcome: ApprovalOutcome) -> Option<
        notes::AnswerView,
    > {
        match policy_eval::approval_refusal(outcome, self.request_id.tree()) {
            Some(response) => Some(notes::plain(response)),
            None => None,
        }
    }

    /// Answers a call that was not approved.
    pub fn after_approval(&self, outcome: ApprovalOutcome) -> (r: Result<(), Answer>)
        ensures
            notes::refused(r) == self.approval_refusal(outcome),
    {
        match outcome {
            ApprovalOutcome::Approved => Ok(()),
            ApprovalOutcome::Denied { http_status, code, message } => Err(
                Answer::plain(
                    protocol_http_error(
                        http_status,
                        Some(self.request_id.copy()),
                        code,
                        message,
                        None,
                    ),
                ),
            ),
        }
    }

    /// What the model is told of arguments that do not fit the tool's schema.
    pub open spec fn invalid_text(&self, detail: Seq<char>, rewritten: bool) -> Seq<char> {
        if rewritten {
            "Input validation failed for tool '"@ + self.name@
                + "' after a gate/transform plugin rewrote its arguments: "@ + detail + "."@
        } else {
            "Input validation failed for tool '"@ + self.name@ + "': "@ + detail
                + ". Inspect the tool's inputSchema via tools/list and retry."@
        }
    }

    /// The answer to a call whose arguments do not fit the tool's schema. It is
    /// a result, so that the model can read it.
    pub open spec fn invalid_answer(&self, detail: Seq<char>, rewritten: bool) -> notes::AnswerView {
        notes::plain(
            protocol::success_reply(
                self.request_id.tree(),
                tool_error_tree(self.invalid_text(detail, rewritten)),
            ),
        )
    }

    /// Answers a call whose arguments do not fit the tool's schema.
    pub fn after_validation(&self, checked: Result<(), String>, rewritten: bool) -> (r: Result<
        (),
        Answer,
    >)
        ensures
            notes::refused(r) == (match checked {
                Ok(_) => None,
                Err(detail) => Some(self.invalid_answer(detail@, rewritten)),
            }),
    {
        let detail: String = match checked {
            Ok(_) => {
                return Ok(());
            },
            Err(d) => d,
        };
        let mut message: String = "Input validation failed for tool '".to_owned();
        message.append(self.name.as_str());
        if rewritten {
            message.append("' after a gate/transform plugin rewrote its arguments: ");
            message.append(detail.as_str());
            message.append(".");
        } else {
            message.append("': ");
            message.append(detail.as_str());
            message.append(". Inspect the tool's inputSchema via tools/list and retry.");
        }
        Err(
            Answer::plain(
                protocol_http_success(self.request_id.copy(), tool_error_json(message)),
            ),
        )
    }

    /// The arguments that the backend gets: those of the caller, or those of a
    /// gate plugin in their place, as the transforms leave them; and whether
    /// any plugin changed them.
    pub open spec fn final_arguments(
        &self,
        modified: Option<json::Tree>,
        transformed: Option<json::Tree>,
    ) -> (Option<json::Tree>, bool) {
        let base = if modified is Some {
            modified
        } else {
            self.arguments.deep_view()
        };
        match transformed {
            Some(t) => if t != json::or_object(base) {
                (Some(t), true)
            } else {
                (base, modified is Some)
            },
            None => (base, modified is Some),
        }
    }

    /// The arguments that the transforms are given.
    pub fn arguments_for_transforms(&self, modified: Option<&Json>) -> (r: Json)
        ensures
            r.tree() == json::or_object(
                if modified is Some {
                    modified.deep_view()
                } else {
                    self.arguments.deep_view()
                },
            ),
    {
        match modified {
            Some(m) => m.copy(),
            None => match &self.arguments {
                Some(a) => a.copy(),
                None => Json::object(),
            },
        }
    }

    /// The arguments that the backend gets, and whether any plugin changed them.
    /// `transformed` is what the transforms made of the arguments, where there
    /// are transforms.
    pub fn settle_arguments(&self, modified: Option<Json>, transformed: Option<Json>) -> (r: (
        Option<Json>,
        bool,
    ))
        ensures
            (r.0.deep_view(), r.1) == self.final_arguments(
                modified.deep_view(),
                transformed.deep_view(),
            ),
    {
        let rewritten: bool = modified.is_some();
        let current: Json = self.arguments_for_transforms(modified.as_ref());
        let base: Option<Json> = match modified {
            Some(m) => Some(m),
            None => json::copy_opt(self.arguments.as_ref()),
        };
        match transformed {
            Some(t) => {
                if t.same(&current) {
                    (base, rewritten)
                } else {
                    (Some(t), true)
                }
            },
            None => (base, rewritten),
        }
    }
}

/// When a quota starts anew.
pub open spec fn until_text(until: Option<Timestamp>) -> Seq<char> {
    match until {
        Some(t) => t.rfc3339_view(),
        None => "unknown"@,
    }
}

/// The slot that a call holds, over plain values.
pub open spec fn permit_view(p: Option<ConcurrencyPermit>) -> Option<Seq<char>> {
    match p {
        Some(p) => Some(p.key()),
        None => None,
    }
}

/// A tool result that says that the call failed.
pub open spec fn tool_error_tree(message: Seq<char>) -> json::Tree {
    json::object_of(
        seq![
            (
                "content"@,
                json::Tree::Array(seq![protocol::text_block(message)]),
            ),
            ("isError"@, json::Tree::Bool(true)),
        ],
    )
}

fn tool_error_json(message: String) -> (r: Json)
    ensures
        r.tree() == tool_error_tree(message@),
{
    proof {
        reveal_with_fuel(json::map_of, 3);
    }
    let block: Json = ToolContent::text(message).to_json();
    let mut blocks: Vec<Json> = Vec::new();
    blocks.push(block);
    proof {
        json::lemma_elements(blocks@);
        assert(json::elements(blocks@) =~= seq![block.tree()]);
    }
    Json::object().with("content", Json::Array(blocks)).with("isError", Json::Bool(true))
}

/// The truth value of a field, or false.
pub open spec fn flag(t: json::Tree, name: Seq<char>) -> bool {
    json::tree_get(t, name) == Some(json::Tree::Bool(true))
}

/// The tool result that a plugin hands out in place of a dispatch. `content` is
/// what its blocks were read as, where they could be read.
pub fn cached_result(cached: &Json, content: Option<Vec<ToolContent>>) -> (r: ToolCallResult)
    ensures
        r.content@ == (match content {
            Some(c) => c@,
            None => seq![],
        }),
        r.structured_content.deep_view() == json::tree_get(cached.tree(), "structuredContent"@),
        r.is_error == flag(cached.tree(), "isError"@),
        r.meta.deep_view() == json::tree_get(cached.tree(), "_meta"@),
{
    let is_error: bool = match cached.get("isError") {
        Some(v) => match v.as_bool() {
            Some(b) => b,
            None => false,
        },
        None => false,
    };
    ToolCallResult {
        content: match content {
            Some(c) => c,
            None => Vec::new(),
        },
        structured_content: json::copy_opt(cached.get("structuredContent")),
        is_error,
        meta: json::copy_opt(cached.get("_meta")),
    }
}

/// A kept result is given again only to a caller that may still make the call,
/// and only where it was kept whole.
pub proof fn law_replay_needs_authorization(
    call: ToolCall,
    check: ReplayCheck,
    outcome: store::OutcomeView,
    completed_at: Timestamp,
    live_task: Option<json::Tree>,
)
    requires
        !(check is Authorized) || outcome.payload_truncated,
        !(check is Refused),
    ensures
        call.replay_refusal(check, outcome, completed_at, live_task) is None,
{
}

/// A quota store that fails stops every call, unless the gateway is set to let
/// calls pass.
pub proof fn law_failing_quota_store_stops_calls(call: ToolCall, error: String, info: DebugInfo)
    ensures
        call.quota_refusal(Some(Err(error)), info) is Some <==> !call.settings.quota_fail_open,
{
}

/// A policy engine that refuses a call is named in the answer beside the tool, its
/// reason closes it, and the records get the engine, its version and the reason.
#[verifier::rlimit(40)]
pub proof fn law_engines_are_named_in_their_refusals(
    call: ToolCall,
    outcome: PolicyChainOutcome,
    info: DebugInfo,
    r: Result<(), Answer>,
)
    requires
        call_ensures(ToolCall::after_chain, (&call, outcome, &info), r),
    ensures
        r is Err <==> outcome is Deny,
        outcome matches PolicyChainOutcome::Deny { engine, reason, policy_version } ==> ({
            let answer = r->Err_0.deep_view();
            &&& answer.response.http_status == 403
            &&& answer.response.body matches protocol::BodyView::Error { id, code, message, data }
            &&& id == Some(call.request_id.tree())
            &&& code == -33000
            &&& text::stands_in(message, engine@)
            &&& text::stands_in(message, call.name@)
            &&& text::ends_with(message, reason@)
            &&& data is Some == info.enabled
            &&& answer.notes.len() == 2
            &&& answer.notes[0] matches notes::NoteView::PolicyDenial { reason: on_record }
            &&& text::stands_in(on_record, engine@)
            &&& text::ends_with(on_record, policy_version@)
            &&& answer.notes[1] matches notes::NoteView::Sample {
                outcome: counted,
                error_code,
                error_text,
                correlation_id,
            }
            &&& counted == SampleOutcome::PolicyDenied
            &&& error_code == Some("policy:"@ + engine@)
            &&& error_text == Some(reason@)
            &&& correlation_id == call.correlation_id@
        }),
{
    if let PolicyChainOutcome::Deny { engine, reason, policy_version } = outcome {
        let a = "Policy `"@;
        let b = "` denied tool '"@;
        let c = "': "@;
        let message = a + engine@ + b + call.name@ + c + reason@;
        text::lemma_stands(a, engine@, b + call.name@ + c + reason@);
        assert(a + engine@ + (b + call.name@ + c + reason@) =~= message);
        text::lemma_stands(a + engine@ + b, call.name@, c + reason@);
        assert(a + engine@ + b + call.name@ + (c + reason@) =~= message);
        text::lemma_stands(a + engine@ + b + call.name@ + c, reason@, seq![]);
        let p = "policy_chain:"@;
        let q = ":"@;
        text::lemma_stands(p, engine@, q + policy_version@);
        assert(p + engine@ + (q + policy_version@) =~= p + engine@ + q + policy_version@);
        text::lemma_stands(p + engine@ + q, policy_version@, seq![]);
    }
}

/// A denial of the policy gate is told with its own status, code and words, and
/// its reason for the records goes to the records alone, as a denial, as a refused
/// access and as a counted call.
pub proof fn law_policy_denials_go_on_record(
    call: ToolCall,
    outcome: PreDispatchPolicyOutcome,
    info: DebugInfo,
    r: Result<(), Answer>,
)
    requires
        call_ensures(ToolCall::after_policy, (&call, outcome, &info), r),
    ensures
        r is Err <==> outcome is Deny,
        outcome matches PreDispatchPolicyOutcome::Deny(denial) ==> ({
            let answer = r->Err_0.deep_view();
            &&& answer.response.http_status == denial.http_status
            &&& answer.response.body matches protocol::BodyView::Error { id, code, message, .. }
            &&& id == Some(call.request_id.tree())
            &&& code == denial.code
            &&& message == denial.message@
            &&& answer.notes == seq![
                notes::NoteView::PolicyDenial { reason: denial.audit_reason@ },
                notes::NoteView::AccessDenied { reason: denial.audit_reason@ },
                notes::NoteView::Sample {
                    outcome: SampleOutcome::PolicyDenied,
                    error_code: Some("policy:pre_dispatch"@),
                    error_text: Some(denial.audit_reason@),
                    correlation_id: call.correlation_id@,
                },
            ]
        }),
{
}

/// The license refuses a call exactly where the requests of the second are too
/// many for a limit that is set, or the calls of the month are used up. Where both
/// hold, the caller is told of the second, not of the month.
#[verifier::rlimit(40)]
pub proof fn law_license_refuses_what_it_does_not_cover(
    call: ToolCall,
    status: Option<QuotaStatus>,
    rps_allowed: bool,
    info: DebugInfo,
    r: Result<(), Answer>,
)
    requires
        call_ensures(ToolCall::after_license, (&call, status, rps_allowed, &info), r),
    ensures
        status is None ==> r is Ok,
        status matches Some(s) ==> {
            let too_fast = s.rps_limit is Some && !rps_allowed;
            &&& r is Err <==> too_fast || s.exhausted
            &&& r matches Err(a) ==> ({
                let answer = a.deep_view();
                &&& answer.response.http_status == 429
                &&& answer.response.body matches protocol::BodyView::Error { id, code, message, data }
                &&& id == Some(call.request_id.tree())
                &&& code == -33002
                &&& data is Some == info.enabled
                &&& too_fast ==> text::stands_in(message, text::decimal_text(s.rps_limit->0 as nat))
                &&& !too_fast ==> (s.until matches Some(t) ==> text::stands_in(message, t.rfc3339_view()))
                &&& answer.notes.len() == 2
                &&& answer.notes[0] matches notes::NoteView::QuotaExceeded {
                    policy_id,
                    kind,
                    reason,
                }
                &&& policy_id == "cp_license"@
                &&& kind == (if too_fast {
                    "rps_per_gateway"@
                } else {
                    "tool_calls_per_month"@
                })
                &&& answer.notes[1] == (notes::NoteView::Sample {
                    outcome: SampleOutcome::QuotaExceeded,
                    error_code: Some(
                        if too_fast {
                            "cp:rps_exceeded"@
                        } else {
                            "cp:quota_exhausted"@
                        },
                    ),
                    error_text: Some(reason),
                    correlation_id: call.correlation_id@,
                })
            })
        },
{
    if let Some(s) = status {
        if s.rps_limit is Some && !rps_allowed {
            let rps = text::decimal_text(s.rps_limit->0 as nat);
            text::lemma_stands(
                "Per-gateway rate limit of "@,
                rps,
                " requests/second exceeded. Retry shortly."@,
            );
        } else if s.exhausted {
            text::lemma_stands(
                "Tool-call quota exhausted for this organization. Resets at "@,
                until_text(s.until),
                "."@,
            );
        }
    }
}

/// A quota that refuses a call is named in the answer beside the tool, its reason
/// closes it, and both go on record with the kind of the quota. A quota store that
/// fails is told as a fault of the gateway and not as a used-up quota.
#[verifier::rlimit(40)]
pub proof fn law_quotas_are_named_in_their_refusals(
    call: ToolCall,
    decision: Option<Result<QuotaDecision, String>>,
    info: DebugInfo,
    r: Result<Option<ConcurrencyPermit>, Answer>,
)
    requires
        call_ensures(ToolCall::after_quota, (&call, decision, &info), r),
    ensures
        decision is None ==> (r matches Ok(held) && held is None),
        decision matches Some(Ok(QuotaDecision::Allow { permit })) ==> (r matches Ok(held)
            && permit_view(held) == permit_view(permit)),
        decision matches Some(Ok(QuotaDecision::Deny { policy_id, kind, reason })) ==> ({
            &&& r is Err
            &&& ({
                let answer = r->Err_0.deep_view();
                &&& answer.response.http_status == 429
                &&& answer.response.body matches protocol::BodyView::Error { id, code, message, .. }
                &&& id == Some(call.request_id.tree())
                &&& code == -33001
                &&& text::stands_in(message, policy_id@)
                &&& text::stands_in(message, call.name@)
                &&& text::ends_with(message, reason@)
                &&& answer.notes == seq![
                    notes::NoteView::QuotaExceeded {
                        policy_id: policy_id@,
                        kind: quota_gate::kind_text(kind),
                        reason: reason@,
                    },
                ]
            })
        }),
        decision matches Some(Err(fault)) ==> (r matches Ok(held) ==> held is None
            && call.settings.quota_fail_open) && (r matches Err(a) ==> ({
            let answer = a.deep_view();
            &&& !call.settings.quota_fail_open
            &&& answer.response.http_status == 503
            &&& answer.response.body matches protocol::BodyView::Error { id, code, message, .. }
            &&& id == Some(call.request_id.tree())
            &&& code == -33002
            &&& text::stands_in(message, call.name@)
            &&& answer.notes == seq![
                notes::NoteView::QuotaExceeded {
                    policy_id: "none"@,
                    kind: "error"@,
                    reason: fault@,
                },
            ]
        })),
{
    if let Some(Ok(QuotaDecision::Deny { policy_id, kind, reason })) = decision {
        let a = "Quota policy `"@;
        let b = "` ("@ + quota_gate::kind_text(kind) + ") refused tool '"@;
        let c = "': "@;
        let message = "Quota policy `"@ + policy_id@ + "` ("@ + quota_gate::kind_text(kind)
            + ") refused tool '"@ + call.name@ + "': "@ + reason@;
        text::lemma_stands(a, policy_id@, b + call.name@ + c + reason@);
        assert(a + policy_id@ + (b + call.name@ + c + reason@) =~= message);
        text::lemma_stands(a + policy_id@ + b, call.name@, c + reason@);
        assert(a + policy_id@ + b + call.name@ + (c + reason@) =~= message);
        text::lemma_stands(a + policy_id@ + b + call.name@ + c, reason@, seq![]);
        assert(a + policy_id@ + b + call.name@ + c + reason@ =~= message);
    }
    if let Some(Err(fault)) = decision {
        text::lemma_stands(
            "Quota enforcement is temporarily unavailable for tool '"@,
            call.name@,
            "'"@,
        );
    }
}

/// A call whose twin still runs is told to come back in a second, and the records
/// say since when the twin runs and by which method the call came.
pub proof fn law_running_twins_are_waited_for(
    call: ToolCall,
    started_at: Timestamp,
    r: AfterPeek,
)
    requires
        call_ensures(
            ToolCall::after_peek,
            (&call, Ok(Some(PeekOutcome::InFlight { started_at }))),
            r,
        ),
    ensures
        r matches AfterPeek::Finish(a) && ({
            let answer = a.deep_view();
            &&& answer.response.http_status == 409
            &&& answer.response.body matches protocol::BodyView::Error { id, code, data, .. }
            &&& id == Some(call.request_id.tree())
            &&& code == -32011
            &&& data matches Some(d)
            &&& json::tree_get(d, "retry_after_ms"@) == Some(
                json::Tree::Number(text::decimal_text(1000)),
            )
            &&& answer.notes.len() == 1
            &&& answer.notes[0] matches notes::NoteView::Idempotency { action, details }
            &&& action == "mcpg.idempotency.in_flight"@
            &&& json::tree_get(details, "started_at"@) == Some(
                json::Tree::Str(started_at.rfc3339_view()),
            )
            &&& json::tree_get(details, "method"@) == Some(
                json::Tree::Str(
                    if call.task is Some {
                        "tasks/create"@
                    } else {
                        "tools/call"@
                    },
                ),
            )
        }),
{
    reveal_with_fuel(json::map_of, 3);
    lemma_note_names_differ();
}

proof fn lemma_note_names_differ()
    ensures
        "key_hash"@ != "started_at"@,
        "key_hash"@ != "method"@,
        "started_at"@ != "method"@,
        "stored_hash"@ != "method"@,
        "new_hash"@ != "method"@,
        "stored_hash"@ != "new_hash"@,
        "key_hash"@ != "stored_hash"@,
        "key_hash"@ != "new_hash"@,
{
    reveal_strlit("key_hash");
    reveal_strlit("started_at");
    reveal_strlit("method");
    reveal_strlit("stored_hash");
    reveal_strlit("new_hash");
    assert("key_hash"@[0] == 'k');
    assert("new_hash"@[0] == 'n');
    assert("started_at"@.len() == 10);
    assert("method"@.len() == 6);
    assert("stored_hash"@.len() == 11);
    assert("new_hash"@.len() == 8);
}

/// A key that was used for another request is refused: the caller learns what was
/// kept under the key, and the records hold both what was kept and what came now.
pub proof fn law_reused_keys_are_told_apart(call: ToolCall, stored: [u8; 32], r: AfterPeek)
    requires
        call_ensures(
            ToolCall::after_peek,
            (&call, Ok(Some(PeekOutcome::Conflict { stored_request_hash: stored }))),
            r,
        ),
    ensures
        r matches AfterPeek::Finish(a) && ({
            let answer = a.deep_view();
            let kept = json::Tree::Str(outside::hex_text(stored@));
            let now = json::Tree::Str(outside::hex_text(call.request_hash@));
            &&& answer.response.http_status == 422
            &&& answer.response.body matches protocol::BodyView::Error { id, code, data, .. }
            &&& id == Some(call.request_id.tree())
            &&& code == -32010
            &&& data matches Some(d)
            &&& json::tree_get(d, "stored_hash"@) == Some(kept)
            &&& answer.notes.len() == 1
            &&& answer.notes[0] matches notes::NoteView::Idempotency { action, details }
            &&& action == "mcpg.idempotency.body_mismatch"@
            &&& json::tree_get(details, "stored_hash"@) == Some(kept)
            &&& json::tree_get(details, "new_hash"@) == Some(now)
            &&& json::tree_get(details, "method"@) == Some(
                json::Tree::Str(
                    if call.task is Some {
                        "tasks/create"@
                    } else {
                        "tools/call"@
                    },
                ),
            )
        }),
{
    reveal_with_fuel(json::map_of, 4);
    lemma_note_names_differ();
}

/// A call that was not made before, and one whose record cannot be read, go on; a
/// call that was answered before is looked at with what was kept, unchanged.
pub proof fn law_unknown_calls_go_on(
    call: ToolCall,
    peeked: Result<Option<PeekOutcome>, IdempotencyError>,
    r: AfterPeek,
)
    requires
        call_ensures(ToolCall::after_peek, (&call, peeked), r),
    ensures
        r is Proceed <==> (peeked is Err || peeked->Ok_0 is None),
        peeked matches Ok(Some(PeekOutcome::Completed { outcome, completed_at })) ==> (r
            matches AfterPeek::CheckReplay { outcome: kept, completed_at: at } && kept.deep_view()
            == outcome.deep_view() && at == completed_at),
{
}

/// A call looks for an earlier one exactly where this is switched on and it has
/// both a key and a scope; and exactly the calls with both have a hint for the
/// backend, which carries the key itself.
pub proof fn law_only_keyed_calls_look_for_twins(
    call: ToolCall,
    looks: bool,
    hint: Option<IdempotencyHint>,
)
    requires
        call_ensures(ToolCall::looks_for_twin, (&call,), looks),
        call_ensures(ToolCall::idempotency_hint, (&call,), hint),
    ensures
        looks == (call.settings.dedupe && call.key is Some && call.scope is Some),
        hint is Some == (call.key is Some && call.scope is Some),
        hint matches Some(h) ==> h.key@ == call.key->0@,
{
}

/// The hints of two calls of one scope differ in their keys alone: the backend sees
/// the same hash of the scope.
pub proof fn law_hints_tell_scopes_by_their_hash(
    a: ToolCall,
    b: ToolCall,
    hint_a: Option<IdempotencyHint>,
    hint_b: Option<IdempotencyHint>,
)
    requires
        call_ensures(ToolCall::idempotency_hint, (&a,), hint_a),
        call_ensures(ToolCall::idempotency_hint, (&b,), hint_b),
        a.key is Some && a.scope is Some,
        b.key is Some && b.scope is Some,
        a.scope->0.deep_view() == b.scope->0.deep_view(),
    ensures
        hint_a is Some && hint_b is Some,
        hint_a->0.scope_hash@ == hint_b->0.scope_hash@,
        hint_a->0.key@ == hint_b->0.key@ <==> a.key->0@ == b.key->0@,
{
}

/// A call asks the policy engines and the plugins as itself: as a tool call, with
/// its own name, arguments and id. Arguments that were left out are an empty object.
pub proof fn law_calls_are_authorized_as_themselves(
    call: ToolCall,
    has_tool_gates: bool,
    gate: SurfaceGate,
)
    requires
        call_ensures(ToolCall::surface_gate, (&call, has_tool_gates), gate),
    ensures
        gate.surface@ == "tool"@,
        gate.decision_point@ == "tool.call.pre"@,
        gate.backend_name@ == call.name@,
        gate.request_id.tree() == call.request_id.tree(),
        gate.has_tool_gates == has_tool_gates,
        call.arguments matches Some(a) ==> gate.arguments.tree() == a.tree(),
        call.arguments is None ==> gate.arguments.tree() == json::Tree::Object(Map::empty()),
{
}

/// Who waits for the approval of a call waits for what the plugin asked for, about
/// this tool with the caller's own arguments, and under the gateway's own id.
pub proof fn law_approvals_are_about_the_call(
    call: ToolCall,
    request: ApprovalRequest,
    request_context: RequestContext,
    identity: PluginIdentity,
    r: AwaitContext,
)
    requires
        call_ensures(ToolCall::await_context, (&call, &request, &request_context, identity), r),
    ensures
        r.request.deep_view() == request.deep_view(),
        r.request_id@ == request_context.request_id.text(),
        r.tool_name@ == call.name@,
        r.identity == identity,
        match call.arguments {
            Some(own) => r.arguments matches Some(a) && a.tree() == own.tree(),
            None => r.arguments is None,
        },
{
}

/// A result of a plugin is handed out as it stands: its blocks, its structured
/// content and its additions, and as a failure only where it says so with the truth
/// value itself.
pub proof fn law_plugin_results_are_handed_out(
    cached: Json,
    content: Option<Vec<ToolContent>>,
    r: ToolCallResult,
)
    requires
        call_ensures(cached_result, (&cached, content), r),
    ensures
        content matches Some(c) ==> r.content@ == c@,
        content is None ==> r.content@.len() == 0,
        r.is_error <==> json::tree_get(cached.tree(), "isError"@) == Some(json::Tree::Bool(true)),
        r.structured_content.deep_view() == json::tree_get(cached.tree(), "structuredContent"@),
        r.meta.deep_view() == json::tree_get(cached.tree(), "_meta"@),
{
}

/// A repeated call is judged as the policies judge it now: allowed, it may have its
/// result again; denied by the built-in policy, it is made anew; refused by any of
/// the layers, it gets that layer's answer.
pub proof fn law_replays_are_judged_anew(
    call: ToolCall,
    outcome: PreDispatchPolicyOutcome,
    by_policy: ReplayCheck,
    layers: Result<(), ProtocolHttpResponse>,
    by_layers: ReplayCheck,
    kept: CachedOutcome,
    completed_at: Timestamp,
    live_task: Option<Json>,
    after_layers: Result<(), Answer>,
)
    requires
        call_ensures(ReplayCheck::by_policy, (&outcome,), by_policy),
        call_ensures(ReplayCheck::by_surface_gate, (layers,), by_layers),
        call_ensures(
            ToolCall::after_replay_check,
            (&call, by_layers, kept, completed_at, live_task),
            after_layers,
        ),
    ensures
        by_policy is Authorized <==> outcome is Allow,
        by_policy is Revoked <==> outcome is Deny,
        layers matches Err(refusal) ==> (after_layers matches Err(a) && a.deep_view().response
            == refusal.deep_view() && a.deep_view().notes.len() == 0),
        layers is Ok ==> (after_layers is Ok <==> kept.payload_truncated),
{
}

/// What the model is told of arguments that do not fit names the tool and what is
/// wrong, and is the only block of a result that says that it failed.
#[verifier::rlimit(40)]
pub proof fn law_misfits_are_explained(
    call: ToolCall,
    detail: String,
    rewritten: bool,
    r: Result<(), Answer>,
)
    requires
        call_ensures(ToolCall::after_validation, (&call, Err(detail), rewritten), r),
    ensures
        r is Err,
        ({
            let answer = r->Err_0.deep_view();
            &&& answer.notes.len() == 0
            &&& answer.response.http_status == 200
            &&& answer.response.body matches protocol::BodyView::Success { id, result }
            &&& id == call.request_id.tree()
            &&& json::tree_get(result, "isError"@) == Some(json::Tree::Bool(true))
            &&& json::tree_get(result, "content"@) matches Some(json::Tree::Array(blocks))
            &&& blocks.len() == 1
            &&& json::tree_get(blocks[0], "text"@) matches Some(json::Tree::Str(told))
            &&& text::stands_in(told, call.name@)
            &&& text::stands_in(told, detail@)
        }),
{
    reveal_with_fuel(json::map_of, 3);
    reveal_strlit("content");
    reveal_strlit("isError");
    reveal_strlit("type");
    reveal_strlit("text");
    assert("content"@[0] == 'c');
    assert("isError"@[0] == 'i');
    assert("type"@[1] == 'y');
    assert("text"@[1] == 'e');
    let a = "Input validation failed for tool '"@;
    let b = if rewritten {
        "' after a gate/transform plugin rewrote its arguments: "@
    } else {
        "': "@
    };
    let c = if rewritten {
        "."@
    } else {
        ". Inspect the tool's inputSchema via tools/list and retry."@
    };
    let told = call.invalid_text(detail@, rewritten);
    text::lemma_stands(a, call.name@, b + detail@ + c);
    assert(a + call.name@ + (b + detail@ + c) =~= told);
    text::lemma_stands(a + call.name@ + b, detail@, c);
}

/// The transforms are given what the gating plugins left, and what they make of it is
/// what the backend gets: a value of theirs that differs replaces the arguments, and
/// one that does not leaves them as they were. The arguments count as rewritten exactly
/// where a plugin gave its own or a transform changed them.
pub proof fn law_transforms_have_the_last_word(
    call: ToolCall,
    modified: Option<Json>,
    given: Json,
    transformed: Option<Json>,
    r: (Option<Json>, bool),
)
    requires
        call_ensures(
            ToolCall::arguments_for_transforms,
            (
                &call,
                match modified {
                    Some(m) => Some(&m),
                    None => None,
                },
            ),
            given,
        ),
        call_ensures(ToolCall::settle_arguments, (&call, modified, transformed), r),
    ensures
        match (modified, call.arguments) {
            (Some(m), _) => given.tree() == m.tree(),
            (None, Some(own)) => given.tree() == own.tree(),
            (None, None) => given.tree() == json::Tree::Object(Map::empty()),
        },
        transformed matches Some(t) ==> json::or_object(r.0.deep_view()) == t.tree(),
        transformed is None ==> match modified {
            Some(m) => r.0 matches Some(a) && a.tree() == m.tree(),
            None => r.0.deep_view() == call.arguments.deep_view(),
        },
        r.1 <==> modified is Some || (transformed matches Some(t) && t.tree() != given.tree()),
{
    if let Some(m) = modified {
        assert(modified.deep_view() == Some(m.tree()));
    }
}

/// A call that was answered before gets the kept result under its own id, or the task
/// as it is now where it made one.
pub proof fn law_kept_results_are_given_again(
    call: ToolCall,
    outcome: CachedOutcome,
    completed_at: Timestamp,
    live_task: Option<Json>,
    r: Answer,
    field: Seq<char>,
)
    requires
        call_ensures(ToolCall::replay, (&call, outcome, completed_at, live_task), r),
        outcome.envelope.tree() is Object,
        field != "_meta"@,
    ensures
        r.deep_view().response.http_status == 200,
        r.deep_view().response.body matches protocol::BodyView::Success { id, result } && id
            == call.request_id.tree() && (call.task is None ==> json::tree_get(result, field)
            == json::tree_get(outcome.envelope.tree(), field)) && (call.task is Some ==> (live_task
            matches Some(t) ==> json::tree_get(result, "task"@) == Some(t.tree()))),
{
    idempotency_ops::law_replays_answer_who_asks(
        call.request_id.tree(),
        call.correlation_id@,
        call.key_text(),
        outcome.deep_view(),
        completed_at,
        field,
    );
    idempotency_ops::law_repeated_tasks_are_told_live(
        call.request_id.tree(),
        call.correlation_id@,
        call.key_text(),
        outcome.deep_view(),
        completed_at,
        live_task.deep_view(),
    );
}

/// The records of a repeated call never hold its key but a short hash of it, so that the
/// same key leaves the same trace, whatever became of the call.
pub proof fn law_records_hold_no_keys(
    call: ToolCall,
    started_at: Timestamp,
    stored: [u8; 32],
    running: AfterPeek,
    conflicting: AfterPeek,
)
    requires
        call_ensures(
            ToolCall::after_peek,
            (&call, Ok(Some(PeekOutcome::InFlight { started_at }))),
            running,
        ),
        call_ensures(
            ToolCall::after_peek,
            (&call, Ok(Some(PeekOutcome::Conflict { stored_request_hash: stored }))),
            conflicting,
        ),
        call.key is Some,
    ensures
        ({
            let digest = outside::blake3_digest(vstd::utf8::encode_utf8(call.key->0@));
            let trace = json::Tree::Str(outside::hex_text(digest.take(16)));
            &&& running matches AfterPeek::Finish(a)
            &&& a.deep_view().notes[0] matches notes::NoteView::Idempotency { details, .. }
            &&& json::tree_get(details, "key_hash"@) == Some(trace)
            &&& conflicting matches AfterPeek::Finish(b)
            &&& b.deep_view().notes[0] matches notes::NoteView::Idempotency { details: other, .. }
            &&& json::tree_get(other, "key_hash"@) == Some(trace)
        }),
{
    reveal_with_fuel(json::map_of, 4);
    lemma_note_names_differ();
}

} // verus!
