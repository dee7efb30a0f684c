//! How a tool call that passed its gates is dispatched and answered.
use vstd::prelude::*;
use vstd::string::*;

use crate::clock::Timestamp;
use crate::handlers::tool_admission::{RouteKind, ToolCall};
use crate::handlers::tool_gates;
use crate::idempotency;
use crate::idempotency::store;
use crate::idempotency::store::{CachedOutcome, IdempotencyError, ReservationOutcome};
use crate::idempotency_ops;
use crate::json;
use crate::json::Json;
use crate::notes;
use crate::notes::{Answer, CallNote};
use crate::outside;
use crate::policy_eval;
use crate::policy_eval::{DebugInfo, GateDecision};
use crate::protocol;
use crate::protocol::{
    notification_accepted, protocol_http_error, protocol_http_success, ProtocolHttpResponse,
    ToolCallResult,
};
use crate::text;

verus! {

/// The size above which a result is not kept, in bytes of its JSON.
pub const PAYLOAD_CAPTURE_CAP_BYTES: usize = 262_144;

/// How a call is run.
#[derive(Debug, Clone, Copy, PartialEq, Eq, Structural)]
pub enum DispatchPlan {
    /// In the background, as a task.
    Task,
    /// As a pipeline that may wait for input.
    SuspendablePipeline,
    /// At once; the result may arrive in parts.
    Direct { streams: bool },
}

/// What a reservation leads to.
#[derive(Debug)]
pub enum AfterReserve {
    /// The call is dispatched; `reserved` says whether its result is to be kept.
    Dispatch { reserved: bool },
    /// The call was answered while its gates were passed.
    Replay { outcome: CachedOutcome, completed_at: Timestamp },
    /// The call is answered.
    Finish(Answer),
}

/// What a reservation leads to, over plain values.
pub enum AfterReserveView {
    Dispatch { reserved: bool },
    Replay { outcome: store::OutcomeView, completed_at: Timestamp },
    Finish(notes::AnswerView),
}

impl DeepView for AfterReserve {
    type V = AfterReserveView;

    open spec fn deep_view(&self) -> AfterReserveView {
        match self {
            AfterReserve::Dispatch { reserved } => AfterReserveView::Dispatch {
                reserved: *reserved,
            },
            AfterReserve::Replay { outcome, completed_at } => AfterReserveView::Replay {
                outcome: outcome.deep_view(),
                completed_at: *completed_at,
            },
            AfterReserve::Finish(a) => AfterReserveView::Finish(a.deep_view()),
        }
    }
}

/// Why a task could not be made.
#[derive(Debug)]
pub enum TaskCreateError {
    /// The owner has as many tasks as it may have.
    QuotaExceeded { limit: u64 },
    /// Anything else.
    Other(String),
}

/// What a pipeline came to.
#[derive(Debug)]
pub enum PipelineOutcome {
    /// It ran to its end.
    Complete(ToolCallResult),
    /// It waits for the client's answer to a request.
    Suspended(Json),
    /// It waits for the client's answers to several requests.
    SuspendedMulti(Vec<Json>),
}

/// What the outcome of a pipeline leads to.
#[derive(Debug)]
pub enum AfterPipeline {
    /// The result is finished as any other.
    Finish(ToolCallResult),
    /// The client is asked for input in the answer itself.
    InputRequired { request: Json },
    /// The client is asked for several inputs in the answer itself.
    InputsRequired { requests: Vec<Json> },
    /// The client is asked for input beside the answer, which says that the
    /// call was taken in.
    Deliver { request: Json, response: ProtocolHttpResponse },
    /// The call is answered.
    Refuse(ProtocolHttpResponse),
}

/// What is left to do once a call has its result.
#[derive(Debug)]
pub struct Finish {
    /// What is kept for repeated calls.
    pub record: Option<CachedOutcome>,
    /// What is put on record if the result could be kept.
    pub on_stored: Option<CallNote>,
    pub answer: Answer,
}

/// What is left to do once a call has its result, over plain values.
#[verifier::ext_equal]
pub struct FinishView {
    pub record: Option<store::OutcomeView>,
    pub on_stored: Option<notes::NoteView>,
    pub answer: notes::AnswerView,
}

impl DeepView for Finish {
    type V = FinishView;

    open spec fn deep_view(&self) -> FinishView {
        FinishView {
            record: self.record.deep_view(),
            on_stored: self.on_stored.deep_view(),
            answer: self.answer.deep_view(),
        }
    }
}

/// The size of a result's JSON, where it can be written.
pub open spec fn json_size(t: json::Tree) -> Option<nat> {
    match outside::json_bytes(t) {
        Ok(b) => Some(b.len()),
        Err(_) => None,
    }
}

impl ToolCall {
    /// Whether the result of the call may arrive in parts.
    pub open spec fn streams(&self) -> bool {
        &&& self.route is LlmRequest || self.route is NetworkJsonCall
            || self.route is NetworkQueryCall
        &&& self.progress_token is Some
        &&& self.session_id is Some
    }

    fn may_stream(&self) -> (r: bool)
        ensures
            r == self.streams(),
    {
        let by_route: bool = match self.route {
            RouteKind::LlmRequest => true,
            RouteKind::NetworkJsonCall => true,
            RouteKind::NetworkQueryCall => true,
            RouteKind::Pipeline { .. } => false,
            RouteKind::Other => false,
        };
        by_route && self.progress_token.is_some() && self.session_id.is_some()
    }

    /// How the call is run.
    pub open spec fn plan_of(&self) -> DispatchPlan {
        if self.task is Some {
            DispatchPlan::Task
        } else if self.route == (RouteKind::Pipeline { suspends: true }) {
            DispatchPlan::SuspendablePipeline
        } else {
            DispatchPlan::Direct { streams: self.streams() }
        }
    }

    /// How the call is run.
    pub fn plan(&self) -> (r: DispatchPlan)
        ensures
            r == self.plan_of(),
    {
        if self.task.is_some() {
            return DispatchPlan::Task;
        }
        if let RouteKind::Pipeline { suspends: true } = self.route {
            return DispatchPlan::SuspendablePipeline;
        }
        DispatchPlan::Direct { streams: self.may_stream() }
    }

    /// How long the reservation of a call that makes a task lives: as long as
    /// the task. Other reservations live as long as the store lets them.
    pub open spec fn reserve_ttl_of(&self, default_task_ttl: u64) -> Option<u64> {
        match self.task {
            None => None,
            Some(t) => {
                let ttl = match t.ttl {
                    Some(ms) => ms,
                    None => default_task_ttl,
                };
                Some(
                    if ttl == 0 {
                        1
                    } else {
                        ttl
                    },
                )
            },
        }
    }

    /// How long the reservation of the call lives, where the call says so.
    pub fn reserve_ttl(&self, default_task_ttl: u64) -> (r: Option<u64>)
        ensures
            r == self.reserve_ttl_of(default_task_ttl),
    {
        match self.task {
            None => None,
            Some(t) => {
                let ttl: u64 = match t.ttl {
                    Some(ms) => ms,
                    None => default_task_ttl,
                };
                if ttl == 0 {
                    Some(1)
                } else {
                    Some(ttl)
                }
            },
        }
    }

    /// The method that is put on record with a reservation.
    pub open spec fn recorded_method(&self) -> Option<Seq<char>> {
        if self.task is Some {
            Some("tasks/create"@)
        } else {
            None
        }
    }

    /// What a reservation leads to. `None` stands for a call that makes none. A
    /// store that fails does not stop the call, but its result is not kept.
    pub open spec fn reserve_step(
        &self,
        reserved: Option<Result<ReservationOutcome, IdempotencyError>>,
    ) -> AfterReserveView {
        let word = tool_gates::call_word(self.task is Some);
        match reserved {
            None => AfterReserveView::Dispatch { reserved: false },
            Some(Err(_)) => AfterReserveView::Dispatch { reserved: false },
            Some(Ok(ReservationOutcome::Reserved { reservation_id })) => {
                AfterReserveView::Dispatch { reserved: true }
            },
            Some(Ok(ReservationOutcome::InFlight { started_at })) => AfterReserveView::Finish(
                tool_gates::in_flight_answer(
                    self.request_id.tree(),
                    word,
                    self.key_text(),
                    started_at,
                    self.recorded_method(),
                ),
            ),
            Some(Ok(ReservationOutcome::Completed { outcome, completed_at })) => {
                if outcome.payload_truncated {
                    AfterReserveView::Dispatch { reserved: true }
                } else {
                    AfterReserveView::Replay { outcome: outcome.deep_view(), completed_at }
                }
            },
            Some(Ok(ReservationOutcome::Conflict { stored_request_hash })) => {
                AfterReserveView::Finish(
                    tool_gates::conflict_answer(
                        self.request_id.tree(),
                        word,
                        self.key_text(),
                        stored_request_hash@,
                        self.request_hash@,
                        self.recorded_method(),
                    ),
                )
            },
        }
    }

    /// What a reservation leads to.
    pub fn after_reserve(
        &self,
        reserved: Option<Result<ReservationOutcome, IdempotencyError>>,
    ) -> (r: AfterReserve)
        ensures
            r.deep_view() == self.reserve_step(reserved),
    {
        let word: &'static str = tool_gates::call_word_of(self.task.is_some());
        let method: Option<&str> = if self.task.is_some() {
            Some("tasks/create")
        } else {
            None
        };
        match reserved {
            None => AfterReserve::Dispatch { reserved: false },
            Some(Err(_)) => AfterReserve::Dispatch { reserved: false },
            Some(Ok(ReservationOutcome::Reserved { .. })) => AfterReserve::Dispatch {
                reserved: true,
            },
            Some(Ok(ReservationOutcome::InFlight { started_at })) => AfterReserve::Finish(
                tool_gates::in_flight(
                    self.request_id.copy(),
                    word,
                    self.key_str(),
                    started_at,
                    method,
                ),
            ),
            Some(Ok(ReservationOutcome::Completed { outcome, completed_at })) => {
                if outcome.payload_truncated {
                    AfterReserve::Dispatch { reserved: true }
                } else {
                    AfterReserve::Replay { outcome, completed_at }
                }
            },
            Some(Ok(ReservationOutcome::Conflict { stored_request_hash })) => {
                AfterReserve::Finish(
                    tool_gates::conflict(
                        self.request_id.copy(),
                        word,
                        self.key_str(),
                        &stored_request_hash,
                        &self.request_hash,
                        method,
                    ),
                )
            },
        }
    }

    /// The owner of the task that the call makes: on the modern wire the caller,
    /// so that the task can be found from any node; on the legacy wire the
    /// session. `owner_key` is the caller's key, where it has one.
    pub open spec fn task_owner_text(&self, owner_key: Option<Seq<char>>) -> Seq<char> {
        let session = match self.session_id {
            Some(s) => s@,
            None => ""@,
        };
        if self.modern && owner_key is Some {
            owner_key->0
        } else {
            session
        }
    }

    /// The owner of the task that the call makes.
    pub fn task_owner(&self, owner_key: Option<String>) -> (r: String)
        ensures
            r@ == self.task_owner_text(owner_key.deep_view()),
    {
        if self.modern {
            if let Some(k) = owner_key {
                return k;
            }
        }
        match &self.session_id {
            Some(s) => s.clone(),
            None => "".to_owned(),
        }
    }

    /// The answer to a call whose task could not be made.
    pub open spec fn create_refusal(
        &self,
        error: TaskCreateError,
        info: DebugInfo,
    ) -> notes::AnswerView {
        notes::plain(
            match error {
                TaskCreateError::QuotaExceeded { limit } => protocol::error_reply(
                    200,
                    Some(self.request_id.tree()),
                    -32603,
                    "session already owns the maximum concurrent tasks ("@ + text::decimal_text(
                        limit as nat,
                    ) + ")"@,
                    policy_eval::debug_tree(
                        info,
                        "Cancel or wait for existing tasks before creating more"@,
                    ),
                ),
                TaskCreateError::Other(e) => protocol::error_reply(
                    200,
                    Some(self.request_id.tree()),
                    -32603,
                    "failed to create task: "@ + e@,
                    None,
                ),
            },
        )
    }

    /// Answers a call whose task could not be made.
    pub fn task_not_created(&self, error: TaskCreateError, info: &DebugInfo) -> (r: Answer)
        ensures
            r.deep_view() == self.create_refusal(error, *info),
    {
        match error {
            TaskCreateError::QuotaExceeded { limit } => {
                let mut message: String =
                    "session already owns the maximum concurrent tasks (".to_owned();
                message.append(text::decimal(limit).as_str());
                message.append(")");
                Answer::plain(
                    protocol_http_error(
                        200,
                        Some(self.request_id.copy()),
                        -32603,
                        message,
                        info.debug_error_data(
                            "Cancel or wait for existing tasks before creating more",
                        ),
                    ),
                )
            },
            TaskCreateError::Other(e) => {
                let mut message: String = "failed to create task: ".to_owned();
                message.append(e.as_str());
                Answer::plain(
                    protocol_http_error(200, Some(self.request_id.copy()), -32603, message, None),
                )
            },
        }
    }

    /// What is kept of a result, with the ids of the call.
    pub open spec fn kept(&self, envelope: json::Tree, payload_truncated: bool) ->
        store::OutcomeView {
        store::OutcomeView {
            envelope,
            original_request_id: self.request_id.tree(),
            original_correlation_id: self.correlation_id@,
            replay_count: 0,
            payload_truncated,
        }
    }

    fn keep(&self, envelope: Json, payload_truncated: bool) -> (r: CachedOutcome)
        ensures
            r.deep_view() == self.kept(envelope.tree(), payload_truncated),
    {
        CachedOutcome {
            envelope,
            original_request_id: self.request_id.copy(),
            original_correlation_id: self.correlation_id.clone(),
            replay_count: 0,
            payload_truncated,
        }
    }

    /// What follows the making of a task: the answer names the task, and a
    /// handle of it is kept where the call reserved its key.
    pub open spec fn created_finish(
        &self,
        reserved: bool,
        task_id: Seq<char>,
        owner: Seq<char>,
        task: json::Tree,
    ) -> FinishView {
        FinishView {
            record: if reserved {
                Some(
                    self.kept(
                        json::object_of(
                            seq![
                                ("task_id"@, json::Tree::Str(task_id)),
                                ("session_id"@, json::Tree::Str(owner)),
                            ],
                        ),
                        false,
                    ),
                )
            } else {
                None
            },
            on_stored: None,
            answer: notes::plain(
                protocol::success_reply(
                    self.request_id.tree(),
                    idempotency_ops::create_task_tree(task),
                ),
            ),
        }
    }

    /// Answers a call that made a task. `task` is the JSON of the task.
    pub fn task_created(&self, reserved: bool, task_id: &str, owner: &str, task: Json) -> (r:
        Finish)
        ensures
            r.deep_view() == self.created_finish(reserved, task_id@, owner@, task.tree()),
    {
        proof {
            reveal_with_fuel(json::map_of, 3);
        }
        let record: Option<CachedOutcome> = if reserved {
            let handle: Json = Json::object().with("task_id", Json::text(task_id)).with(
                "session_id",
                Json::text(owner),
            );
            Some(self.keep(handle, false))
        } else {
            None
        };
        Finish {
            record,
            on_stored: None,
            answer: Answer::plain(
                protocol_http_success(
                    self.request_id.copy(),
                    idempotency_ops::create_task_result(task),
                ),
            ),
        }
    }

    /// What the outcome of a pipeline leads to. Only the modern wire can ask
    /// for several answers at once.
    pub fn after_pipeline(&self, outcome: PipelineOutcome) -> (r: AfterPipeline)
        ensures
            match outcome {
                PipelineOutcome::Complete(result) => r == AfterPipeline::Finish(result),
                PipelineOutcome::Suspended(asked) => if self.modern {
                    r == (AfterPipeline::InputRequired { request: asked })
                } else {
                    r matches AfterPipeline::Deliver { request, response } && request == asked
                        && response.deep_view() == protocol::accepted_reply()
                },
                PipelineOutcome::SuspendedMulti(asked) => if self.modern {
                    r == (AfterPipeline::InputsRequired { requests: asked })
                } else {
                    r matches AfterPipeline::Refuse(a) && a.deep_view() == protocol::error_reply(
                        200,
                        Some(self.request_id.tree()),
                        -32603,
                        "multi-entry MRTR (gather step) is only supported on the modern wire"@,
                        None,
                    )
                },
            },
    {
        match outcome {
            PipelineOutcome::Complete(result) => AfterPipeline::Finish(result),
            PipelineOutcome::Suspended(request) => {
                if self.modern {
                    AfterPipeline::InputRequired { request }
                } else {
                    AfterPipeline::Deliver { request, response: notification_accepted() }
                }
            },
            PipelineOutcome::SuspendedMulti(requests) => {
                if self.modern {
                    AfterPipeline::InputsRequired { requests }
                } else {
                    AfterPipeline::Refuse(
                        protocol_http_error(
                            200,
                            Some(self.request_id.copy()),
                            -32603,
                            "multi-entry MRTR (gather step) is only supported on the modern wire".to_owned(),
                            None,
                        ),
                    )
                }
            },
        }
    }

    /// The JSON of a result once it was held against the tool's output schema.
    /// A result that is an error already is not checked.
    pub open spec fn checked_tree(
        &self,
        result: ToolCallResult,
        checked: Result<(), String>,
    ) -> json::Tree {
        match checked {
            Err(detail) => if result.is_error {
                result.tree()
            } else {
                protocol::result_tree(
                    protocol::content_trees(result.content@).push(
                        (protocol::text_block(
                            protocol::schema_failure(self.name@, detail@),
                        )),
                    ),
                    None,
                    true,
                    result.meta.deep_view(),
                )
            },
            Ok(_) => result.tree(),
        }
    }

    /// Holds a result against the tool's output schema: one that does not fit
    /// becomes an error.
    pub fn check_output(&self, result: ToolCallResult, checked: Result<(), String>) -> (r:
        ToolCallResult)
        ensures
            r.tree() == self.checked_tree(result, checked),
            r.is_error == (result.is_error || checked is Err),
    {
        match checked {
            Ok(_) => result,
            Err(detail) => {
                if result.is_error {
                    result
                } else {
                    result.fail_schema(self.name.as_str(), detail.as_str())
                }
            },
        }
    }

    /// The answer of a plugin that refuses a result.
    pub open spec fn post_refusal(&self, decision: Option<GateDecision>) -> Option<
        notes::AnswerView,
    > {
        match decision {
            Some(GateDecision::PendingApproval(_)) => Some(
                notes::plain(
                    protocol::error_reply(
                        500,
                        Some(self.request_id.tree()),
                        -32603,
                        "tool '"@ + self.name@
                            + "' post-dispatch gate returned invalid PendingApproval decision"@,
                        None,
                    ),
                ),
            ),
            Some(d) => match policy_eval::gate_refusal(d, self.request_id.tree()) {
                Some(response) => Some(notes::plain(response)),
                None => None,
            },
            None => None,
        }
    }

    /// The result after the gating plugins: their own where they give one.
    pub open spec fn gated_tree(result: json::Tree, decision: Option<GateDecision>) -> json::Tree {
        match decision {
            Some(GateDecision::Allow { modified_result: Some(m), .. }) => m.tree(),
            _ => result,
        }
    }

    /// What the gating plugins make of a result. A result cannot wait for an
    /// approval.
    pub fn after_post_gates(&self, result: &ToolCallResult, decision: Option<GateDecision>) -> (r:
        Result<Json, Answer>)
        ensures
            notes::refused(r) == self.post_refusal(decision),
            r matches Ok(j) ==> j.tree() == ToolCall::gated_tree(result.tree(), decision),
    {
        match decision {
            None => Ok(result.to_json()),
            Some(GateDecision::Allow { modified_result, .. }) => match modified_result {
                Some(m) => Ok(m),
                None => Ok(result.to_json()),
            },
            Some(GateDecision::Deny { http_status, code, message, error_data }) => Err(
                Answer::plain(
                    protocol_http_error(
                        http_status,
                        Some(self.request_id.copy()),
                        code,
                        message,
                        error_data,
                    ),
                ),
            ),
            Some(GateDecision::Challenge { http_status, code, message, challenge_data }) => Err(
                Answer::plain(
                    protocol_http_error(
                        http_status,
                        Some(self.request_id.copy()),
                        code,
                        message,
                        Some(challenge_data),
                    ),
                ),
            ),
            Some(GateDecision::PendingApproval(_)) => {
                let mut message: String = "tool '".to_owned();
                message.append(self.name.as_str());
                message.append("' post-dispatch gate returned invalid PendingApproval decision");
                Err(
                    Answer::plain(
                        protocol_http_error(
                            500,
                            Some(self.request_id.copy()),
                            -32603,
                            message,
                            None,
                        ),
                    ),
                )
            },
        }
    }

    /// What follows the final result of a call. Where the call reserved its
    /// key, the result is kept; one that is too large is not, but a mark is left
    /// that it was too large.
    pub open spec fn finish_view(&self, reserved: bool, envelope: json::Tree) -> FinishView {
        let reply = protocol::success_reply(self.request_id.tree(), envelope);
        let size = match json_size(envelope) {
            Some(n) => n,
            None => 0,
        };
        let base = json::map_of(
            seq![
                ("key_hash"@, json::Tree::Str(idempotency::key_hash_text(self.key_text()))),
                ("bytes"@, json::Tree::Number(text::decimal_text(size))),
            ],
        );
        if !(reserved && self.key is Some && self.scope is Some) {
            FinishView { record: None, on_stored: None, answer: notes::plain(reply) }
        } else if size > PAYLOAD_CAPTURE_CAP_BYTES {
            FinishView {
                record: Some(self.kept(json::Tree::Null, true)),
                on_stored: None,
                answer: notes::AnswerView {
                    response: reply,
                    notes: seq![
                        notes::NoteView::Idempotency {
                            action: "mcpg.idempotency.payload_truncated"@,
                            details: json::Tree::Object(
                                base.insert(
                                    "cap"@,
                                    json::Tree::Number(
                                        text::decimal_text(PAYLOAD_CAPTURE_CAP_BYTES as nat),
                                    ),
                                ),
                            ),
                        },
                    ],
                },
            }
        } else {
            FinishView {
                record: Some(self.kept(envelope, false)),
                on_stored: if self.streams() {
                    Some(
                        notes::NoteView::Idempotency {
                            action: "mcpg.idempotency.stream_completion_cached"@,
                            details: json::Tree::Object(base),
                        },
                    )
                } else {
                    None
                },
                answer: notes::plain(reply),
            }
        }
    }

    /// Answers a call with its final result.
    pub fn finish(&self, reserved: bool, envelope: Json) -> (r: Finish)
        ensures
            r.deep_view() == self.finish_view(reserved, envelope.tree()),
    {
        proof {
            reveal_with_fuel(json::map_of, 3);
        }
        if !(reserved && self.key.is_some() && self.scope.is_some()) {
            return Finish {
                record: None,
                on_stored: None,
                answer: Answer::plain(protocol_http_success(self.request_id.copy(), envelope)),
            };
        }
        let size: usize = match outside::json_to_vec(&envelope) {
            Ok(b) => b.len(),
            Err(_) => 0,
        };
        let details: Json = Json::object().with(
            "key_hash",
            Json::Str(idempotency::key_hash_hex(self.key_str())),
        ).with("bytes", Json::count(size as u64));
        if size > PAYLOAD_CAPTURE_CAP_BYTES {
            return Finish {
                record: Some(self.keep(Json::Null, true)),
                on_stored: None,
                answer: Answer::plain(
                    protocol_http_success(self.request_id.copy(), envelope),
                ).noting(
                    CallNote::Idempotency {
                        action: "mcpg.idempotency.payload_truncated".to_owned(),
                        details: details.with(
                            "cap",
                            Json::count(PAYLOAD_CAPTURE_CAP_BYTES as u64),
                        ),
                    },
                ),
            };
        }
        let on_stored: Option<CallNote> = if self.may_stream() {
            Some(
                CallNote::Idempotency {
                    action: "mcpg.idempotency.stream_completion_cached".to_owned(),
                    details,
                },
            )
        } else {
            None
        };
        Finish {
            record: Some(self.keep(envelope.copy(), false)),
            on_stored,
            answer: Answer::plain(protocol_http_success(self.request_id.copy(), envelope)),
        }
    }
}

/// What a call keeps for its twins is the very result that it answers with, or
/// a mark that is never given as a result.
pub proof fn law_kept_result_is_the_answer(call: ToolCall, reserved: bool, envelope: json::Tree)
    ensures
        call.finish_view(reserved, envelope).answer.response == protocol::success_reply(
            call.request_id.tree(),
            envelope,
        ),
        call.finish_view(reserved, envelope).record matches Some(k) ==> if k.payload_truncated {
            k.envelope == json::Tree::Null
        } else {
            k.envelope == envelope
        },
{
}

/// A repeated call is answered with the result of the first one, marked, as
/// long as that was small enough to be kept.
pub proof fn law_repeated_call_gets_the_first_result(
    first: ToolCall,
    second: ToolCall,
    envelope: json::Tree,
    completed_at: Timestamp,
)
    requires
        first.key is Some,
        first.scope is Some,
        first.task is None,
        second.task is None,
        json_size(envelope) matches Some(n) ==> n <= PAYLOAD_CAPTURE_CAP_BYTES,
    ensures
        ({
            let kept = first.finish_view(true, envelope).record->0;
            second.replay_refusal(
                tool_gates::ReplayCheck::Authorized,
                kept,
                completed_at,
                None,
            )->0.response == protocol::success_reply(
                second.request_id.tree(),
                idempotency::marked(envelope, completed_at.rfc3339_view()),
            )
        }),
{
}

/// A pipeline that ran to its end hands on its very result; one that waits asks in
/// the answer on the modern wire, and on the legacy wire beside it, where several
/// requests at once cannot be asked.
pub proof fn law_pipelines_hand_on_what_they_made(
    call: ToolCall,
    outcome: PipelineOutcome,
    r: AfterPipeline,
)
    requires
        call_ensures(ToolCall::after_pipeline, (&call, outcome), r),
    ensures
        match (outcome, call.modern) {
            (PipelineOutcome::Complete(result), _) => r == AfterPipeline::Finish(result),
            (PipelineOutcome::Suspended(asked), true) => r == (AfterPipeline::InputRequired {
                request: asked,
            }),
            (PipelineOutcome::SuspendedMulti(asked), true) => r == (AfterPipeline::InputsRequired {
                requests: asked,
            }),
            (PipelineOutcome::Suspended(asked), false) => r matches AfterPipeline::Deliver {
                request,
                response,
            } && request == asked && response.http_status == 202,
            (PipelineOutcome::SuspendedMulti(_), false) => r matches AfterPipeline::Refuse(a)
                && a.http_status == 200 && (a.response.deep_view()
                matches protocol::BodyView::Error { id, code, .. } && id == Some(
                call.request_id.tree(),
            ) && code == -32603),
        },
{
}

/// How a call is run follows from what it asks and from what serves its tool: a
/// task where it asks for one, a pipeline where one may wait, and else at once, in
/// parts only where the caller can follow them and the backend can give them.
pub proof fn law_plans_follow_the_request(call: ToolCall)
    ensures
        call.plan_of() is Task <==> call.task is Some,
        call.plan_of() is SuspendablePipeline <==> call.task is None && (call.route
            matches RouteKind::Pipeline { suspends } && suspends),
        call.plan_of() matches DispatchPlan::Direct { streams } ==> (streams
            <==> call.progress_token is Some && call.session_id is Some && (call.route
            is LlmRequest || call.route is NetworkJsonCall || call.route is NetworkQueryCall)),
{
}

/// A reservation of a call that makes a task lives as long as the task, and at
/// least a moment; that of another call is left to the store.
pub proof fn law_task_reservations_live_with_their_task(call: ToolCall, default_ttl: u64)
    ensures
        call.reserve_ttl_of(default_ttl) is Some <==> call.task is Some,
        call.reserve_ttl_of(default_ttl) matches Some(ms) ==> ms >= 1 && (call.task matches Some(t)
            && match t.ttl {
            Some(asked) => asked > 0 ==> ms == asked,
            None => default_ttl > 0 ==> ms == default_ttl,
        }),
{
}

/// A call is dispatched exactly where no other one has its key or an answer to
/// give, and where the store fails; its result is to be kept only where it holds
/// the key. One that lost the race is told so as one that came late is.
pub proof fn law_reservations_decide_on_dispatch(
    call: ToolCall,
    reserved: Option<Result<ReservationOutcome, IdempotencyError>>,
)
    ensures
        match call.reserve_step(reserved) {
            AfterReserveView::Dispatch { reserved: keep } => match reserved {
                None => !keep,
                Some(Err(_)) => !keep,
                Some(Ok(ReservationOutcome::Reserved { .. })) => keep,
                Some(Ok(ReservationOutcome::Completed { outcome, .. })) => keep
                    && outcome.payload_truncated,
                _ => false,
            },
            AfterReserveView::Replay { outcome: o, completed_at: at } => reserved matches Some(
                Ok(ReservationOutcome::Completed { outcome, completed_at }),
            ) && !outcome.payload_truncated && o == outcome.deep_view() && at == completed_at,
            AfterReserveView::Finish(answer) => match reserved {
                Some(Ok(ReservationOutcome::InFlight { .. })) => answer.response.http_status == 409
                    && (answer.response.body matches protocol::BodyView::Error { id, code, .. }
                    && id == Some(call.request_id.tree()) && code == -32011),
                Some(Ok(ReservationOutcome::Conflict { .. })) => answer.response.http_status == 422
                    && (answer.response.body matches protocol::BodyView::Error { id, code, .. }
                    && id == Some(call.request_id.tree()) && code == -32010),
                _ => false,
            },
        },
{
}

/// On the modern wire a task belongs to its caller, whatever the session, where the
/// caller has a key; on the legacy wire it belongs to the session, whoever calls.
pub proof fn law_tasks_belong_to_caller_or_session(
    call: ToolCall,
    other: ToolCall,
    key: Option<Seq<char>>,
    other_key: Option<Seq<char>>,
)
    requires
        call.modern == other.modern,
    ensures
        call.modern && key is Some ==> call.task_owner_text(key) == key->0,
        call.modern && key is Some && other_key is Some ==> (call.task_owner_text(key)
            == other.task_owner_text(other_key) <==> key == other_key),
        !call.modern ==> (call.session_id matches Some(s) ==> call.task_owner_text(key) == s@),
        !call.modern && call.session_id.deep_view() == other.session_id.deep_view()
            ==> call.task_owner_text(key) == other.task_owner_text(other_key),
        call.modern && key is None ==> (call.session_id matches Some(s) ==> call.task_owner_text(
            key,
        ) == s@),
{
}

/// What is kept for repeated calls names the call that made it and has never been
/// given again; a result is kept exactly where the call holds its key, whole where
/// it is small enough and as a mark where it is not.
pub proof fn law_results_are_kept_for_their_key(
    call: ToolCall,
    reserved: bool,
    envelope: json::Tree,
)
    ensures
        call.finish_view(reserved, envelope).record is Some <==> reserved && call.key is Some
            && call.scope is Some,
        call.finish_view(reserved, envelope).record matches Some(k) ==> {
            &&& k.original_request_id == call.request_id.tree()
            &&& k.original_correlation_id == call.correlation_id@
            &&& k.replay_count == 0
            &&& k.payload_truncated <==> (outside::json_bytes(envelope) matches Ok(b) && b.len()
                > 256 * 1024)
        },
{
}

/// A call that made a task answers with the task, and keeps a handle of it by which
/// the task is found again under its owner, where the call holds its key.
pub proof fn law_task_handles_name_the_task(
    call: ToolCall,
    reserved: bool,
    task_id: Seq<char>,
    owner: Seq<char>,
    task: json::Tree,
)
    ensures
        ({
            let done = call.created_finish(reserved, task_id, owner, task);
            &&& done.answer.response.http_status == 200
            &&& done.answer.response.body matches protocol::BodyView::Success { id, result } && id
                == call.request_id.tree() && json::tree_get(result, "task"@) == Some(task)
            &&& done.record is Some <==> reserved
            &&& done.record matches Some(k) ==> !k.payload_truncated
                && idempotency_ops::handle_field(k.envelope, "task_id"@) == Some(task_id)
                && idempotency_ops::handle_field(k.envelope, "session_id"@) == Some(owner)
        }),
{
    reveal_with_fuel(json::map_of, 3);
    reveal_strlit("task_id");
    reveal_strlit("session_id");
    assert("task_id"@.len() != "session_id"@.len());
}

/// A result that does not fit the tool's output schema becomes an error without a
/// structured part, which keeps the blocks that it had and says what failed; one
/// that fits, or is an error already, stays as it is.
pub proof fn law_unfit_results_become_errors(
    call: ToolCall,
    result: ToolCallResult,
    checked: Result<(), String>,
)
    ensures
        ({
            let t = call.checked_tree(result, checked);
            if checked is Ok || result.is_error {
                t == result.tree()
            } else {
                &&& json::tree_get(t, "isError"@) == Some(json::Tree::Bool(true))
                &&& json::tree_get(t, "structuredContent"@) is None
                &&& json::tree_get(t, "_meta"@) == result.meta.deep_view()
                &&& json::tree_get(t, "content"@) matches Some(json::Tree::Array(blocks))
                    && blocks.len() == result.content@.len() + 1 && forall|i: int|
                    0 <= i < result.content@.len() ==> #[trigger] blocks[i]
                        == result.content@[i].tree()
            }
        }),
{
    reveal_strlit("isError");
    reveal_strlit("structuredContent");
    reveal_strlit("_meta");
    reveal_strlit("content");
    assert("isError"@[0] == 'i' && "content"@[0] == 'c');
    assert("isError"@.len() == 7 && "structuredContent"@.len() == 17 && "_meta"@.len() == 5
        && "content"@.len() == 7);
}

/// After the backend, the gating plugins have the last word: a result of theirs is
/// the answer, a refusal of theirs is told as it stands, a wait for an approval is a
/// fault of theirs, and otherwise the backend's result is the answer.
pub proof fn law_gate_plugins_have_the_last_word(
    call: ToolCall,
    result: json::Tree,
    decision: Option<GateDecision>,
)
    ensures
        match decision {
            None => call.post_refusal(decision) is None && ToolCall::gated_tree(result, decision)
                == result,
            Some(GateDecision::Allow { modified_result, .. }) => call.post_refusal(decision) is None
                && ToolCall::gated_tree(result, decision) == (match modified_result {
                Some(m) => m.tree(),
                None => result,
            }),
            Some(GateDecision::Deny { http_status, code, message, error_data }) => {
                call.post_refusal(decision) matches Some(answer) && answer.response
                    == protocol::error_reply(
                    http_status as int,
                    Some(call.request_id.tree()),
                    code as int,
                    message@,
                    error_data.deep_view(),
                )
            },
            Some(GateDecision::Challenge { http_status, code, message, challenge_data }) => {
                call.post_refusal(decision) matches Some(answer) && answer.response
                    == protocol::error_reply(
                    http_status as int,
                    Some(call.request_id.tree()),
                    code as int,
                    message@,
                    Some(challenge_data.tree()),
                )
            },
            Some(GateDecision::PendingApproval(_)) => call.post_refusal(decision) matches Some(
                answer,
            ) && answer.response.http_status == 500 && (answer.response.body
                matches protocol::BodyView::Error { id, code, .. } && id == Some(
                call.request_id.tree(),
            ) && code == -32603),
        },
{
}

/// A call whose task could not be made is told so under its own id, as a failure of
/// the server in a reply that the transport counts as good.
pub proof fn law_failed_tasks_are_told(call: ToolCall, error: TaskCreateError, info: DebugInfo)
    ensures
        call.create_refusal(error, info).response.http_status == 200,
        call.create_refusal(error, info).response.body matches protocol::BodyView::Error {
            id,
            code,
            ..
        } && id == Some(call.request_id.tree()) && code == -32603,
{
}

/// A call that may not make another task is told how many it may have, and one whose
/// task could not be made for another reason is told that reason.
pub proof fn law_missing_tasks_are_explained(
    call: ToolCall,
    error: TaskCreateError,
    info: DebugInfo,
    r: Answer,
)
    requires
        call_ensures(ToolCall::task_not_created, (&call, error, &info), r),
    ensures
        r.deep_view().notes.len() == 0,
        r.deep_view().response.body matches protocol::BodyView::Error { id, code, message, data }
            && id == Some(call.request_id.tree()) && code == -32603 && match error {
            TaskCreateError::QuotaExceeded { limit } => text::stands_in(
                message,
                text::decimal_text(limit as nat),
            ) && data is Some == info.enabled,
            TaskCreateError::Other(e) => text::ends_with(message, e@) && data is None,
        },
{
    match error {
        TaskCreateError::QuotaExceeded { limit } => {
            text::lemma_stands(
                "session already owns the maximum concurrent tasks ("@,
                text::decimal_text(limit as nat),
                ")"@,
            );
        },
        TaskCreateError::Other(e) => {
            text::lemma_stands("failed to create task: "@, e@, seq![]);
        },
    }
}

/// A result that is too large to be kept is answered all the same, and the records say
/// how large it was and how large it may be; a result that came in parts and was kept
/// goes on record once it is stored, and any other does not.
pub proof fn law_large_results_leave_a_mark(
    call: ToolCall,
    envelope: Json,
    r: Finish,
    size: nat,
)
    requires
        call_ensures(ToolCall::finish, (&call, true, envelope), r),
        call.key is Some && call.scope is Some,
        outside::json_bytes(envelope.tree()) matches Ok(b) && b.len() == size,
    ensures
        ({
            let done = r.deep_view();
            let large = size > 256 * 1024;
            &&& done.answer.response.http_status == 200
            &&& done.answer.response.body == (protocol::BodyView::Success {
                id: call.request_id.tree(),
                result: envelope.tree(),
            })
            &&& large ==> done.on_stored is None && done.answer.notes.len() == 1 && (
            done.answer.notes[0] matches notes::NoteView::Idempotency { action, details } && action
                == "mcpg.idempotency.payload_truncated"@ && json::tree_get(details, "bytes"@)
                == Some(json::Tree::Number(text::decimal_text(size))) && json::tree_get(
                details,
                "cap"@,
            ) == Some(json::Tree::Number(text::decimal_text(262_144))))
            &&& !large ==> done.answer.notes.len() == 0 && (done.on_stored is Some
                <==> call.progress_token is Some && call.session_id is Some && (call.route
                is LlmRequest || call.route is NetworkJsonCall || call.route is NetworkQueryCall))
        }),
{
    reveal_with_fuel(json::map_of, 3);
    reveal_strlit("key_hash");
    reveal_strlit("bytes");
    reveal_strlit("cap");
    assert("key_hash"@.len() == 8 && "bytes"@.len() == 5 && "cap"@.len() == 3);
    law_plans_follow_the_request(call);
}

/// A call that lost the race for its key is told what one that came late is told: to
/// come back in a second, or what was kept under the key.
pub proof fn law_losers_are_told_like_late_comers(
    call: ToolCall,
    started_at: Timestamp,
    stored: [u8; 32],
    running: AfterReserve,
    conflicting: AfterReserve,
)
    requires
        call_ensures(
            ToolCall::after_reserve,
            (&call, Some(Ok(ReservationOutcome::InFlight { started_at }))),
            running,
        ),
        call_ensures(
            ToolCall::after_reserve,
            (&call, Some(Ok(ReservationOutcome::Conflict { stored_request_hash: stored }))),
            conflicting,
        ),
    ensures
        running.deep_view() matches AfterReserveView::Finish(answer) && answer.response.http_status
            == 409 && (answer.response.body matches protocol::BodyView::Error { code, data, .. }
            && code == -32011 && (data matches Some(d) && json::tree_get(d, "retry_after_ms"@)
            == Some(json::Tree::Number(text::decimal_text(1000))))),
        conflicting.deep_view() matches AfterReserveView::Finish(answer)
            && answer.response.http_status == 422 && (answer.response.body
            matches protocol::BodyView::Error { code, data, .. } && code == -32010 && (data
            matches Some(d) && json::tree_get(d, "stored_hash"@) == Some(
            json::Tree::Str(outside::hex_text(stored@)),
        ))),
{
    reveal_with_fuel(json::map_of, 2);
}

} // verus!
