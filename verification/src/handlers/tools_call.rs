//! The way of a tool call through its gates, one question after the other.
use vstd::prelude::*;
use vstd::string::*;

use crate::clock::Timestamp;
use crate::handlers::tool_admission::ToolCall;
use crate::handlers::tool_gates;
use crate::handlers::tool_gates::{
    AfterGates, AfterPeek, GateEffects, QuotaStatus, ReplayCheck,
};
use crate::idempotency::store;
use crate::idempotency::store::{CachedOutcome, IdempotencyError, PeekOutcome};
use crate::json;
use crate::json::Json;
use crate::notes;
use crate::notes::Answer;
use crate::policy;
use crate::policy::PreDispatchPolicyOutcome;
use crate::policy_eval::{
    ApprovalOutcome, ApprovalRequest, DebugInfo, GateDecision, PolicyChainOutcome,
};
use crate::protocol;
use crate::quota_gate::{ConcurrencyPermit, QuotaDecision};

verus! {

/// What a call waits for. From the quota gate on, a call may hold a slot.
#[derive(Debug)]
pub enum CallStage {
    /// A look at the record of an earlier call.
    Peek,
    /// Whether the caller may still make a call that was answered before.
    CheckReplay { outcome: CachedOutcome, completed_at: Timestamp },
    /// The policy engines.
    Chain,
    /// The policy gate.
    Policy,
    /// The license.
    License,
    /// The quota gate.
    Quota,
    /// The gating plugins.
    Gates { permit: Option<ConcurrencyPermit> },
    /// An approval.
    Approval { permit: Option<ConcurrencyPermit>, request: ApprovalRequest },
    /// The check of the caller's arguments.
    Validate { permit: Option<ConcurrencyPermit>, effects: GateEffects },
    /// The transforms.
    Transform { permit: Option<ConcurrencyPermit>, effects: GateEffects },
    /// The check of rewritten arguments.
    Revalidate {
        permit: Option<ConcurrencyPermit>,
        metadata: Option<Json>,
        arguments: Option<Json>,
    },
    /// The call may be dispatched.
    Ready {
        permit: Option<ConcurrencyPermit>,
        metadata: Option<Json>,
        arguments: Option<Json>,
    },
    /// A plugin gave the result; the call is finished without a dispatch.
    Cached { permit: Option<ConcurrencyPermit>, metadata: Option<Json>, result: Json },
    /// The call is answered, and its slot is given back.
    Done { permit: Option<ConcurrencyPermit>, answer: Answer },
}

/// What a call waits for, over plain values. A slot is named by its counter.
pub enum StageView {
    Peek,
    CheckReplay { outcome: store::OutcomeView, completed_at: Timestamp },
    Chain,
    Policy,
    License,
    Quota,
    Gates { permit: Option<Seq<char>> },
    Approval { permit: Option<Seq<char>>, request: ApprovalRequest },
    Validate { permit: Option<Seq<char>>, effects: tool_gates::EffectsView },
    Transform { permit: Option<Seq<char>>, effects: tool_gates::EffectsView },
    Revalidate {
        permit: Option<Seq<char>>,
        metadata: Option<json::Tree>,
        arguments: Option<json::Tree>,
    },
    Ready {
        permit: Option<Seq<char>>,
        metadata: Option<json::Tree>,
        arguments: Option<json::Tree>,
    },
    Cached { permit: Option<Seq<char>>, metadata: Option<json::Tree>, result: json::Tree },
    Done { permit: Option<Seq<char>>, answer: notes::AnswerView },
}

impl DeepView for CallStage {
    type V = StageView;

    open spec fn deep_view(&self) -> StageView {
        match self {
            CallStage::Peek => StageView::Peek,
            CallStage::CheckReplay { outcome, completed_at } => StageView::CheckReplay {
                outcome: outcome.deep_view(),
                completed_at: *completed_at,
            },
            CallStage::Chain => StageView::Chain,
            CallStage::Policy => StageView::Policy,
            CallStage::License => StageView::License,
            CallStage::Quota => StageView::Quota,
            CallStage::Gates { permit } => StageView::Gates {
                permit: tool_gates::permit_view(*permit),
            },
            CallStage::Approval { permit, request } => StageView::Approval {
                permit: tool_gates::permit_view(*permit),
                request: *request,
            },
            CallStage::Validate { permit, effects } => StageView::Validate {
                permit: tool_gates::permit_view(*permit),
                effects: effects.deep_view(),
            },
            CallStage::Transform { permit, effects } => StageView::Transform {
                permit: tool_gates::permit_view(*permit),
                effects: effects.deep_view(),
            },
            CallStage::Revalidate { permit, metadata, arguments } => StageView::Revalidate {
                permit: tool_gates::permit_view(*permit),
                metadata: metadata.deep_view(),
                arguments: arguments.deep_view(),
            },
            CallStage::Ready { permit, metadata, arguments } => StageView::Ready {
                permit: tool_gates::permit_view(*permit),
                metadata: metadata.deep_view(),
                arguments: arguments.deep_view(),
            },
            CallStage::Cached { permit, metadata, result } => StageView::Cached {
                permit: tool_gates::permit_view(*permit),
                metadata: metadata.deep_view(),
                result: result.tree(),
            },
            CallStage::Done { permit, answer } => StageView::Done {
                permit: tool_gates::permit_view(*permit),
                answer: answer.deep_view(),
            },
        }
    }
}

/// An answer to what a call waits for.
#[derive(Debug)]
pub enum CallEvent {
    Peeked(Result<Option<PeekOutcome>, IdempotencyError>),
    /// The check of a repeated call, and the task that a kept handle names.
    ReplayChecked { check: ReplayCheck, live_task: Option<Json> },
    Chain(PolicyChainOutcome),
    Policy(PreDispatchPolicyOutcome),
    License { status: Option<QuotaStatus>, rps_allowed: bool },
    Quota(Option<Result<QuotaDecision, String>>),
    Gates(Option<GateDecision>),
    Approval(ApprovalOutcome),
    Validated(Result<(), String>),
    /// What the transforms made of the arguments, where there are transforms.
    Transformed(Option<Json>),
    Revalidated(Result<(), String>),
}

/// A call that is answered where an answer is given, or goes on.
pub open spec fn done_or(
    refusal: Option<notes::AnswerView>,
    permit: Option<Seq<char>>,
    otherwise: StageView,
) -> StageView {
    match refusal {
        Some(answer) => StageView::Done { permit, answer },
        None => otherwise,
    }
}

/// What follows the effects of the gating plugins: a result of theirs ends the
/// call's way.
pub open spec fn after_effects(
    permit: Option<Seq<char>>,
    effects: tool_gates::EffectsView,
) -> StageView {
    match effects.cached_result {
        Some(result) => StageView::Cached { permit, metadata: effects.metadata, result },
        None => StageView::Validate { permit, effects },
    }
}

/// What a call waits for next.
pub open spec fn next(
    call: ToolCall,
    stage: StageView,
    event: CallEvent,
    info: DebugInfo,
) -> StageView {
    match (stage, event) {
        (StageView::Peek, CallEvent::Peeked(peeked)) => match call.peek_step(peeked) {
            tool_gates::AfterPeekView::Proceed => StageView::Chain,
            tool_gates::AfterPeekView::CheckReplay { outcome, completed_at } => {
                StageView::CheckReplay { outcome, completed_at }
            },
            tool_gates::AfterPeekView::Finish(answer) => StageView::Done { permit: None, answer },
        },
        (
            StageView::CheckReplay { outcome, completed_at },
            CallEvent::ReplayChecked { check, live_task },
        ) => done_or(
            call.replay_refusal(check, outcome, completed_at, live_task.deep_view()),
            None,
            StageView::Chain,
        ),
        (StageView::Chain, CallEvent::Chain(outcome)) => done_or(
            call.chain_refusal(outcome, info),
            None,
            StageView::Policy,
        ),
        (StageView::Policy, CallEvent::Policy(outcome)) => done_or(
            call.policy_refusal(outcome.deep_view(), info),
            None,
            StageView::License,
        ),
        (StageView::License, CallEvent::License { status, rps_allowed }) => done_or(
            call.license_refusal(status, rps_allowed, info),
            None,
            StageView::Quota,
        ),
        (StageView::Quota, CallEvent::Quota(decision)) => done_or(
            call.quota_refusal(decision, info),
            None,
            StageView::Gates { permit: ToolCall::quota_permit(decision) },
        ),
        (StageView::Gates { permit }, CallEvent::Gates(decision)) => match call.gates_step(
            decision,
        ) {
            tool_gates::AfterGatesView::Proceed(effects) => after_effects(permit, effects),
            tool_gates::AfterGatesView::AwaitApproval(request) => StageView::Approval {
                permit,
                request,
            },
            tool_gates::AfterGatesView::Finish(answer) => StageView::Done { permit, answer },
        },
        (StageView::Approval { permit, .. }, CallEvent::Approval(outcome)) => done_or(
            call.approval_refusal(outcome),
            permit,
            StageView::Validate { permit, effects: tool_gates::no_effects() },
        ),
        (StageView::Validate { permit, effects }, CallEvent::Validated(checked)) => done_or(
            match checked {
                Ok(_) => None,
                Err(detail) => Some(call.invalid_answer(detail@, false)),
            },
            permit,
            StageView::Transform { permit, effects },
        ),
        (StageView::Transform { permit, effects }, CallEvent::Transformed(transformed)) => {
            let (arguments, rewritten) = call.final_arguments(
                effects.modified_arguments,
                transformed.deep_view(),
            );
            if rewritten && call.settings.revalidate_arguments {
                StageView::Revalidate { permit, metadata: effects.metadata, arguments }
            } else {
                StageView::Ready { permit, metadata: effects.metadata, arguments }
            }
        },
        (
            StageView::Revalidate { permit, metadata, arguments },
            CallEvent::Revalidated(checked),
        ) => done_or(
            match checked {
                Ok(_) => None,
                Err(detail) => Some(call.invalid_answer(detail@, true)),
            },
            permit,
            StageView::Ready { permit, metadata, arguments },
        ),
        (s, _) => s,
    }
}

/// What a call waits for first.
pub open spec fn first(call: ToolCall) -> StageView {
    if call.dedupes() {
        StageView::Peek
    } else {
        StageView::Chain
    }
}

fn finish_or(refused: Result<(), Answer>, permit: Option<ConcurrencyPermit>, otherwise: CallStage) -> (r:
    CallStage)
    ensures
        r.deep_view() == done_or(
            notes::refused(refused),
            tool_gates::permit_view(permit),
            otherwise.deep_view(),
        ),
{
    match refused {
        Ok(_) => otherwise,
        Err(answer) => CallStage::Done { permit, answer },
    }
}

impl ToolCall {
    /// What the call waits for first.
    pub fn start(&self) -> (r: CallStage)
        ensures
            r.deep_view() == first(*self),
    {
        if self.looks_for_twin() {
            CallStage::Peek
        } else {
            CallStage::Chain
        }
    }

    /// What the call waits for next. An event that does not answer what the
    /// call waits for changes nothing.
    pub fn advance(&self, stage: CallStage, event: CallEvent, info: &DebugInfo) -> (r: CallStage)
        ensures
            r.deep_view() == next(*self, stage.deep_view(), event, *info),
    {
        match (stage, event) {
            (CallStage::Peek, CallEvent::Peeked(peeked)) => match self.after_peek(peeked) {
                AfterPeek::Proceed => CallStage::Chain,
                AfterPeek::CheckReplay { outcome, completed_at } => CallStage::CheckReplay {
                    outcome,
                    completed_at,
                },
                AfterPeek::Finish(answer) => CallStage::Done { permit: None, answer },
            },
            (
                CallStage::CheckReplay { outcome, completed_at },
                CallEvent::ReplayChecked { check, live_task },
            ) => finish_or(
                self.after_replay_check(check, outcome, completed_at, live_task),
                None,
                CallStage::Chain,
            ),
            (CallStage::Chain, CallEvent::Chain(outcome)) => finish_or(
                self.after_chain(outcome, info),
                None,
                CallStage::Policy,
            ),
            (CallStage::Policy, CallEvent::Policy(outcome)) => finish_or(
                self.after_policy(outcome, info),
                None,
                CallStage::License,
            ),
            (CallStage::License, CallEvent::License { status, rps_allowed }) => finish_or(
                self.after_license(status, rps_allowed, info),
                None,
                CallStage::Quota,
            ),
            (CallStage::Quota, CallEvent::Quota(decision)) => match self.after_quota(
                decision,
                info,
            ) {
                Ok(permit) => CallStage::Gates { permit },
                Err(answer) => CallStage::Done { permit: None, answer },
            },
            (CallStage::Gates { permit }, CallEvent::Gates(decision)) => match self.after_gates(
                decision,
            ) {
                AfterGates::Proceed(effects) => match effects.cached_result {
                    Some(result) => CallStage::Cached {
                        permit,
                        metadata: effects.metadata,
                        result,
                    },
                    None => CallStage::Validate {
                        permit,
                        effects: GateEffects {
                            metadata: effects.metadata,
                            modified_arguments: effects.modified_arguments,
                            cached_result: None,
                        },
                    },
                },
                AfterGates::AwaitApproval(request) => CallStage::Approval { permit, request },
                AfterGates::Finish(answer) => CallStage::Done { permit, answer },
            },
            (CallStage::Approval { permit, .. }, CallEvent::Approval(outcome)) => {
                match self.after_approval(outcome) {
                    Ok(_) => CallStage::Validate { permit, effects: GateEffects::none() },
                    Err(answer) => CallStage::Done { permit, answer },
                }
            },
            (CallStage::Validate { permit, effects }, CallEvent::Validated(checked)) => {
                match self.after_validation(checked, false) {
                    Ok(_) => CallStage::Transform { permit, effects },
                    Err(answer) => CallStage::Done { permit, answer },
                }
            },
            (CallStage::Transform { permit, effects }, CallEvent::Transformed(transformed)) => {
                let (arguments, rewritten): (Option<Json>, bool) = self.settle_arguments(
                    effects.modified_arguments,
                    transformed,
                );
                let metadata: Option<Json> = effects.metadata;
                if rewritten && self.settings.revalidate_arguments {
                    CallStage::Revalidate { permit, metadata, arguments }
                } else {
                    CallStage::Ready { permit, metadata, arguments }
                }
            },
            (
                CallStage::Revalidate { permit, metadata, arguments },
                CallEvent::Revalidated(checked),
            ) => match self.after_validation(checked, true) {
                Ok(_) => CallStage::Ready { permit, metadata, arguments },
                Err(answer) => CallStage::Done { permit, answer },
            },
            (s, _) => s,
        }
    }
}

/// What a call waits for after a run of events.
pub open spec fn reached(call: ToolCall, events: Seq<CallEvent>, info: DebugInfo) -> StageView
    decreases events.len(),
{
    if events.len() == 0 {
        first(call)
    } else {
        next(call, reached(call, events.drop_last(), info), events.last(), info)
    }
}

/// Whether some event of a run satisfies a condition.
pub open spec fn some_event(events: Seq<CallEvent>, p: spec_fn(CallEvent) -> bool) -> bool {
    exists|i: int| 0 <= i < events.len() && p(#[trigger] events[i])
}

proof fn lemma_some_event(events: Seq<CallEvent>, p: spec_fn(CallEvent) -> bool)
    requires
        events.len() > 0,
    ensures
        some_event(events.drop_last(), p) ==> some_event(events, p),
        p(events.last()) ==> some_event(events, p),
{
    if some_event(events.drop_last(), p) {
        let i = choose|i: int|
            0 <= i < events.drop_last().len() && p(#[trigger] events.drop_last()[i]);
        assert(p(events[i]));
    }
    if p(events.last()) {
        assert(p(events[events.len() - 1]));
    }
}

/// An event by which the policy engines let a call pass.
pub open spec fn passes_chain() -> spec_fn(CallEvent) -> bool {
    |e: CallEvent| e matches CallEvent::Chain(o) && !(o is Deny)
}

/// An event by which the policy gate allows a call.
pub open spec fn passes_policy() -> spec_fn(CallEvent) -> bool {
    |e: CallEvent|
        e matches CallEvent::Policy(o) && o.deep_view() == policy::DecisionView::Allow
}

/// An event by which the quota gate lets a call pass.
pub open spec fn passes_quota(call: ToolCall, info: DebugInfo) -> spec_fn(CallEvent) -> bool {
    |e: CallEvent| e matches CallEvent::Quota(d) && call.quota_refusal(d, info) is None
}

/// An event by which the license covers a call.
pub open spec fn passes_license(call: ToolCall, info: DebugInfo) -> spec_fn(CallEvent) -> bool {
    |e: CallEvent|
        e matches CallEvent::License { status, rps_allowed } && call.license_refusal(
            status,
            rps_allowed,
            info,
        ) is None
}

/// An event by which the gating plugins let a call pass.
pub open spec fn passes_gates() -> spec_fn(CallEvent) -> bool {
    |e: CallEvent|
        e matches CallEvent::Gates(d) && (d matches Some(g) ==> g is Allow) || e
            == CallEvent::Approval(ApprovalOutcome::Approved)
}

/// An event by which the caller's arguments fit the tool's schema.
pub open spec fn fits_schema() -> spec_fn(CallEvent) -> bool {
    |e: CallEvent| e matches CallEvent::Validated(c) && c is Ok
}

/// How far a call has come along its gates.
pub open spec fn depth(stage: StageView) -> int {
    match stage {
        StageView::Peek => 0,
        StageView::CheckReplay { .. } => 0,
        StageView::Chain => 0,
        StageView::Policy => 1,
        StageView::License => 2,
        StageView::Quota => 3,
        StageView::Gates { .. } => 4,
        StageView::Approval { .. } => 4,
        StageView::Validate { .. } => 5,
        StageView::Cached { .. } => 5,
        StageView::Transform { .. } => 6,
        StageView::Revalidate { .. } => 6,
        StageView::Ready { .. } => 6,
        StageView::Done { .. } => 0,
    }
}

proof fn lemma_gates_behind(call: ToolCall, events: Seq<CallEvent>, info: DebugInfo)
    ensures
        depth(reached(call, events, info)) >= 1 ==> some_event(events, passes_chain()),
        depth(reached(call, events, info)) >= 2 ==> some_event(events, passes_policy()),
        depth(reached(call, events, info)) >= 3 ==> some_event(
            events,
            passes_license(call, info),
        ),
        depth(reached(call, events, info)) >= 4 ==> some_event(events, passes_quota(call, info)),
        depth(reached(call, events, info)) >= 5 ==> some_event(events, passes_gates()),
        depth(reached(call, events, info)) >= 6 ==> some_event(events, fits_schema()),
    decreases events.len(),
{
    if events.len() > 0 {
        lemma_gates_behind(call, events.drop_last(), info);
        lemma_some_event(events, passes_chain());
        lemma_some_event(events, passes_policy());
        lemma_some_event(events, passes_license(call, info));
        lemma_some_event(events, passes_quota(call, info));
        lemma_some_event(events, passes_gates());
        lemma_some_event(events, fits_schema());
    }
}

/// However a call comes to be dispatched, every gate has let it pass: the policy
/// engines, the policy gate, the license, the quota gate and the gating plugins,
/// and its arguments fit the tool's schema.
pub proof fn law_dispatch_needs_every_gate(
    call: ToolCall,
    events: Seq<CallEvent>,
    info: DebugInfo,
)
    requires
        reached(call, events, info) is Ready,
    ensures
        some_event(events, passes_chain()),
        some_event(events, passes_policy()),
        some_event(events, passes_license(call, info)),
        some_event(events, passes_quota(call, info)),
        some_event(events, passes_gates()),
        some_event(events, fits_schema()),
{
    lemma_gates_behind(call, events, info);
}

/// A result that a plugin gives in place of a dispatch passes the same gates
/// before it: the policies, the license and the quotas.
pub proof fn law_cached_result_needs_the_policies(
    call: ToolCall,
    events: Seq<CallEvent>,
    info: DebugInfo,
)
    requires
        reached(call, events, info) is Cached,
    ensures
        some_event(events, passes_chain()),
        some_event(events, passes_policy()),
        some_event(events, passes_license(call, info)),
        some_event(events, passes_quota(call, info)),
        some_event(events, passes_gates()),
{
    lemma_gates_behind(call, events, info);
}

/// An event by which rewritten arguments fit the tool's schema.
pub open spec fn fits_schema_again() -> spec_fn(CallEvent) -> bool {
    |e: CallEvent| e matches CallEvent::Revalidated(c) && c is Ok
}

/// Where rewritten arguments are to be checked, no call reaches a backend with
/// arguments that differ from its caller's and were not held against the tool's
/// schema again.
pub proof fn law_rewritten_arguments_are_checked_again(
    call: ToolCall,
    events: Seq<CallEvent>,
    info: DebugInfo,
)
    requires
        call.settings.revalidate_arguments,
        reached(call, events, info) is Ready,
        reached(call, events, info)->Ready_arguments != call.arguments.deep_view(),
    ensures
        some_event(events, fits_schema_again()),
    decreases events.len(),
{
    let before = reached(call, events.drop_last(), info);
    lemma_some_event(events, fits_schema_again());
    if before is Ready {
        law_rewritten_arguments_are_checked_again(call, events.drop_last(), info);
    }
}

/// A call that is answered or ready stays so, whatever else is reported.
pub proof fn law_ends_are_final(
    call: ToolCall,
    stage: StageView,
    event: CallEvent,
    info: DebugInfo,
)
    requires
        stage is Ready || stage is Cached || stage is Done,
    ensures
        next(call, stage, event, info) == stage,
{
}

/// The slot that a call holds, if it holds one.
pub open spec fn held(stage: StageView) -> Option<Seq<char>> {
    match stage {
        StageView::Gates { permit } => permit,
        StageView::Approval { permit, .. } => permit,
        StageView::Validate { permit, .. } => permit,
        StageView::Transform { permit, .. } => permit,
        StageView::Revalidate { permit, .. } => permit,
        StageView::Ready { permit, .. } => permit,
        StageView::Cached { permit, .. } => permit,
        StageView::Done { permit, .. } => permit,
        _ => None,
    }
}

impl CallStage {
    /// Takes the slot that a call holds out of a stage at which the call is given up.
    pub fn into_permit(self) -> (r: Option<ConcurrencyPermit>)
        ensures
            tool_gates::permit_view(r) == held(self.deep_view()),
    {
        match self {
            CallStage::Gates { permit } => permit,
            CallStage::Approval { permit, .. } => permit,
            CallStage::Validate { permit, .. } => permit,
            CallStage::Transform { permit, .. } => permit,
            CallStage::Revalidate { permit, .. } => permit,
            CallStage::Ready { permit, .. } => permit,
            CallStage::Cached { permit, .. } => permit,
            CallStage::Done { permit, .. } => permit,
            _ => None,
        }
    }
}

/// A slot that a call holds is never lost: it is held by every later stage, and
/// by the answer where the call is refused, so that it can be given back.
pub proof fn law_slots_are_never_lost(
    call: ToolCall,
    stage: StageView,
    event: CallEvent,
    info: DebugInfo,
)
    requires
        held(stage) is Some,
    ensures
        held(next(call, stage, event, info)) == held(stage),
{
}

/// The transforms have the last word on the arguments: where they answer with a
/// value, the backend gets what it denotes, and where they do not, it gets the
/// arguments of the gating plugins, or else those of the caller. What the plugins
/// add to the result and the slot of the call stay as they are.
pub proof fn law_backend_gets_the_transformed_arguments(
    call: ToolCall,
    permit: Option<Seq<char>>,
    effects: tool_gates::EffectsView,
    transformed: Option<Json>,
    info: DebugInfo,
)
    ensures
        match next(
            call,
            StageView::Transform { permit, effects },
            CallEvent::Transformed(transformed),
            info,
        ) {
            StageView::Ready { permit: p, metadata: m, arguments: a } => p == permit && m
                == effects.metadata && (call.settings.revalidate_arguments
                ==> effects.modified_arguments is None && a == call.arguments.deep_view())
                && match transformed {
                Some(t) => json::or_object(a) == t.tree(),
                None => match (effects.modified_arguments, call.arguments) {
                    (Some(changed), _) => a == Some(changed),
                    (None, Some(own)) => a == Some(own.tree()),
                    (None, None) => a is None,
                },
            },
            StageView::Revalidate { permit: p, metadata: m, arguments: a } => p == permit && m
                == effects.metadata && call.settings.revalidate_arguments && match transformed {
                Some(t) => json::or_object(a) == t.tree(),
                None => a == effects.modified_arguments && a is Some,
            },
            _ => false,
        },
{
}

/// The arguments that are checked again are the ones that the backend gets: a
/// second check that passes changes nothing, and one that fails answers the call.
pub proof fn law_checked_arguments_are_the_used_ones(
    call: ToolCall,
    permit: Option<Seq<char>>,
    metadata: Option<json::Tree>,
    arguments: Option<json::Tree>,
    checked: Result<(), String>,
    info: DebugInfo,
)
    ensures
        match next(
            call,
            StageView::Revalidate { permit, metadata, arguments },
            CallEvent::Revalidated(checked),
            info,
        ) {
            StageView::Ready { permit: p, metadata: m, arguments: a } => checked is Ok && p
                == permit && m == metadata && a == arguments,
            StageView::Done { permit: p, answer } => checked is Err && p == permit
                && answer.response.http_status == 200 && (answer.response.body
                matches protocol::BodyView::Success { id, result } && id == call.request_id.tree()
                && json::tree_get(result, "isError"@) == Some(json::Tree::Bool(true))),
            _ => false,
        },
{
    lemma_error_result_says_so(call, checked, true);
}

proof fn lemma_error_result_says_so(call: ToolCall, checked: Result<(), String>, rewritten: bool)
    ensures
        checked matches Err(detail) ==> json::tree_get(
            tool_gates::tool_error_tree(call.invalid_text(detail@, rewritten)),
            "isError"@,
        ) == Some(json::Tree::Bool(true)),
{
    reveal_with_fuel(json::map_of, 3);
}

/// The first check of the arguments lets a call pass with all that the plugins
/// changed, or answers it with a result that says that it failed.
pub proof fn law_invalid_arguments_answer_the_call(
    call: ToolCall,
    permit: Option<Seq<char>>,
    effects: tool_gates::EffectsView,
    checked: Result<(), String>,
    info: DebugInfo,
)
    ensures
        match next(
            call,
            StageView::Validate { permit, effects },
            CallEvent::Validated(checked),
            info,
        ) {
            StageView::Transform { permit: p, effects: e } => checked is Ok && p == permit && e
                == effects,
            StageView::Done { permit: p, answer } => checked is Err && p == permit
                && answer.response.http_status == 200 && (answer.response.body
                matches protocol::BodyView::Success { id, result } && id == call.request_id.tree()
                && json::tree_get(result, "isError"@) == Some(json::Tree::Bool(true))),
            _ => false,
        },
{
    lemma_error_result_says_so(call, checked, false);
}

/// What the gating plugins answer takes effect as it stands: a result of theirs
/// ends the call before the backend, changed arguments and additions go on with
/// it, a refusal is told with its own status, code, words and detail, and a wait
/// for an approval is a wait for that approval. Without such plugins nothing
/// changes.
pub proof fn law_gate_plugins_are_obeyed(
    call: ToolCall,
    permit: Option<Seq<char>>,
    decision: Option<GateDecision>,
    info: DebugInfo,
)
    ensures
        ({
            let after = next(call, StageView::Gates { permit }, CallEvent::Gates(decision), info);
            match decision {
                None => after matches StageView::Validate { permit: p, effects } && p == permit
                    && effects.metadata is None && effects.modified_arguments is None,
                Some(GateDecision::Allow { metadata, modified_arguments, modified_result }) => {
                    match modified_result {
                        Some(result) => after == (StageView::Cached {
                            permit,
                            metadata: metadata.deep_view(),
                            result: result.tree(),
                        }),
                        None => after matches StageView::Validate { permit: p, effects } && p
                            == permit && effects.metadata == metadata.deep_view()
                            && effects.modified_arguments == modified_arguments.deep_view(),
                    }
                },
                Some(GateDecision::Deny { http_status, code, message, error_data }) => after
                    matches StageView::Done { permit: p, answer } && p == permit
                    && answer.response == (protocol::ReplyView {
                    http_status: http_status as int,
                    session_id_header: None,
                    body: protocol::BodyView::Error {
                        id: Some(call.request_id.tree()),
                        code: code as int,
                        message: message@,
                        data: error_data.deep_view(),
                    },
                }),
                Some(GateDecision::Challenge { http_status, code, message, challenge_data }) => {
                    after matches StageView::Done { permit: p, answer } && p == permit
                        && answer.response == (protocol::ReplyView {
                        http_status: http_status as int,
                        session_id_header: None,
                        body: protocol::BodyView::Error {
                            id: Some(call.request_id.tree()),
                            code: code as int,
                            message: message@,
                            data: Some(challenge_data.tree()),
                        },
                    })
                },
                Some(GateDecision::PendingApproval(request)) => after == (StageView::Approval {
                    permit,
                    request,
                }),
            }
        }),
{
}

/// An approved call goes on with its own arguments, and one that is not approved
/// is told why, with its slot still held until it ends.
pub proof fn law_approval_decides(
    call: ToolCall,
    permit: Option<Seq<char>>,
    request: ApprovalRequest,
    outcome: ApprovalOutcome,
    info: DebugInfo,
)
    ensures
        ({
            let after = next(
                call,
                StageView::Approval { permit, request },
                CallEvent::Approval(outcome),
                info,
            );
            match outcome {
                ApprovalOutcome::Approved => after matches StageView::Validate {
                    permit: p,
                    effects,
                } && p == permit && effects.modified_arguments is None && effects.metadata is None,
                ApprovalOutcome::Denied { http_status, code, message } => after
                    matches StageView::Done { permit: p, answer } && p == permit
                    && answer.response == (protocol::ReplyView {
                    http_status: http_status as int,
                    session_id_header: None,
                    body: protocol::BodyView::Error {
                        id: Some(call.request_id.tree()),
                        code: code as int,
                        message: message@,
                        data: None,
                    },
                }),
            }
        }),
{
}

/// Each of the checks before the gating plugins hands a call that it lets pass to
/// the next one, in the order engines, policy, license, quota; and a call that one
/// of them refuses is answered as an error with its own id and holds no slot.
pub proof fn law_checks_come_in_order(call: ToolCall, event: CallEvent, info: DebugInfo)
    ensures
        event matches CallEvent::Chain(outcome) ==> match next(
            call,
            StageView::Chain,
            event,
            info,
        ) {
            StageView::Policy => !(outcome is Deny),
            StageView::Done { permit, answer } => outcome is Deny && permit is None
                && error_of(answer, call.request_id.tree(), 403, -33000),
            _ => false,
        },
        event matches CallEvent::Policy(outcome) ==> match next(
            call,
            StageView::Policy,
            event,
            info,
        ) {
            StageView::License => outcome is Allow,
            StageView::Done { permit, answer } => permit is None && match outcome {
                PreDispatchPolicyOutcome::Deny(d) => error_of(
                    answer,
                    call.request_id.tree(),
                    d.http_status as int,
                    d.code as int,
                ) && answer.response.body->message == d.message@,
                PreDispatchPolicyOutcome::Allow => false,
            },
            _ => false,
        },
        event matches CallEvent::License { status, rps_allowed } ==> match next(
            call,
            StageView::License,
            event,
            info,
        ) {
            StageView::Quota => status matches Some(s) ==> !s.exhausted && (s.rps_limit is None
                || rps_allowed),
            StageView::Done { permit, answer } => permit is None && (status matches Some(s) && (
            s.exhausted || s.rps_limit is Some && !rps_allowed)) && error_of(
                answer,
                call.request_id.tree(),
                429,
                -33002,
            ),
            _ => false,
        },
        event matches CallEvent::Quota(decision) ==> match next(
            call,
            StageView::Quota,
            event,
            info,
        ) {
            StageView::Gates { permit } => match decision {
                None => permit is None,
                Some(Ok(QuotaDecision::Allow { permit: held })) => permit
                    == tool_gates::permit_view(held),
                Some(Ok(QuotaDecision::Deny { .. })) => false,
                Some(Err(_)) => permit is None && call.settings.quota_fail_open,
            },
            StageView::Done { permit, answer } => permit is None && match decision {
                Some(Ok(QuotaDecision::Deny { .. })) => error_of(
                    answer,
                    call.request_id.tree(),
                    429,
                    -33001,
                ),
                Some(Err(_)) => !call.settings.quota_fail_open && error_of(
                    answer,
                    call.request_id.tree(),
                    503,
                    -33002,
                ),
                _ => false,
            },
            _ => false,
        },
{
}

/// Whether an answer is an error with the given id, status and code.
pub open spec fn error_of(answer: notes::AnswerView, id: json::Tree, status: int, code: int) -> bool {
    &&& answer.response.http_status == status
    &&& answer.response.session_id_header is None
    &&& answer.response.body matches protocol::BodyView::Error { id: i, code: c, .. } && i == Some(id) && c
        == code
}

/// A look at the record of an earlier call decides as follows: a call that still
/// runs and a key that was used for something else are told so, an answer that was
/// kept is checked before it is given again, and otherwise the call goes on, also
/// where the store fails.
pub proof fn law_records_decide_on_repeated_calls(
    call: ToolCall,
    peeked: Result<Option<PeekOutcome>, IdempotencyError>,
    info: DebugInfo,
)
    ensures
        ({
            let after = next(call, StageView::Peek, CallEvent::Peeked(peeked), info);
            match peeked {
                Ok(Some(PeekOutcome::Completed { outcome, completed_at })) => after == (
                StageView::CheckReplay { outcome: outcome.deep_view(), completed_at }),
                Ok(Some(PeekOutcome::InFlight { .. })) => after matches StageView::Done {
                    permit,
                    answer,
                } && permit is None && error_of(answer, call.request_id.tree(), 409, -32011),
                Ok(Some(PeekOutcome::Conflict { .. })) => after matches StageView::Done {
                    permit,
                    answer,
                } && permit is None && error_of(answer, call.request_id.tree(), 422, -32010),
                _ => after is Chain,
            }
        }),
{
}

/// A call that waits for its transforms and is told what they made of its arguments
/// goes on with exactly that: the stage that follows holds arguments that denote the
/// value the transforms gave, or, where there are no transforms, those of the gating
/// plugins, or else the caller's own.
pub proof fn law_advancing_keeps_the_transformed_arguments(
    call: ToolCall,
    stage: CallStage,
    transformed: Option<Json>,
    info: DebugInfo,
    r: CallStage,
)
    requires
        stage is Transform,
        call_ensures(
            ToolCall::advance,
            (&call, stage, CallEvent::Transformed(transformed), &info),
            r,
        ),
    ensures
        r is Ready || r is Revalidate,
        ({
            let given = match r {
                CallStage::Ready { arguments, .. } => arguments.deep_view(),
                CallStage::Revalidate { arguments, .. } => arguments.deep_view(),
                _ => None,
            };
            let of_gates = stage->Transform_effects.modified_arguments;
            &&& transformed matches Some(t) ==> json::or_object(given) == t.tree()
            &&& transformed is None ==> match of_gates {
                Some(m) => given == Some(m.tree()),
                None => given == call.arguments.deep_view(),
            }
        }),
        r is Revalidate ==> call.settings.revalidate_arguments,
{
    law_backend_gets_the_transformed_arguments(
        call,
        tool_gates::permit_view(stage->Transform_permit),
        stage->Transform_effects.deep_view(),
        transformed,
        info,
    );
}

/// A call starts with a look for its twin exactly where it has a key and a scope and
/// this is switched on, and with the policy engines otherwise.
pub proof fn law_calls_start_with_their_record(call: ToolCall, r: CallStage)
    requires
        call_ensures(ToolCall::start, (&call,), r),
    ensures
        r is Peek <==> call.settings.dedupe && call.key is Some && call.scope is Some,
        r is Peek || r is Chain,
{
}

/// A call that is given up in the middle hands back the slot that it holds.
pub proof fn law_given_up_calls_hand_back_their_slot(
    stage: CallStage,
    r: Option<ConcurrencyPermit>,
)
    requires
        call_ensures(CallStage::into_permit, (stage,), r),
    ensures
        stage matches CallStage::Gates { permit } ==> tool_gates::permit_view(r)
            == tool_gates::permit_view(permit),
        stage matches CallStage::Approval { permit, .. } ==> tool_gates::permit_view(r)
            == tool_gates::permit_view(permit),
        stage matches CallStage::Validate { permit, .. } ==> tool_gates::permit_view(r)
            == tool_gates::permit_view(permit),
        stage matches CallStage::Transform { permit, .. } ==> tool_gates::permit_view(r)
            == tool_gates::permit_view(permit),
        stage matches CallStage::Revalidate { permit, .. } ==> tool_gates::permit_view(r)
            == tool_gates::permit_view(permit),
        stage matches CallStage::Ready { permit, .. } ==> tool_gates::permit_view(r)
            == tool_gates::permit_view(permit),
        stage matches CallStage::Cached { permit, .. } ==> tool_gates::permit_view(r)
            == tool_gates::permit_view(permit),
        stage matches CallStage::Done { permit, .. } ==> tool_gates::permit_view(r)
            == tool_gates::permit_view(permit),
{
}

/// An answer to what a call does not wait for changes nothing: each stage hears its own
/// event alone.
pub proof fn law_stages_hear_their_own_event(
    call: ToolCall,
    stage: StageView,
    event: CallEvent,
    info: DebugInfo,
)
    ensures
        stage is Peek && !(event is Peeked) ==> next(call, stage, event, info) == stage,
        stage is CheckReplay && !(event is ReplayChecked) ==> next(call, stage, event, info)
            == stage,
        stage is Chain && !(event is Chain) ==> next(call, stage, event, info) == stage,
        stage is Policy && !(event is Policy) ==> next(call, stage, event, info) == stage,
        stage is License && !(event is License) ==> next(call, stage, event, info) == stage,
        stage is Quota && !(event is Quota) ==> next(call, stage, event, info) == stage,
        stage is Gates && !(event is Gates) ==> next(call, stage, event, info) == stage,
        stage is Approval && !(event is Approval) ==> next(call, stage, event, info) == stage,
        stage is Validate && !(event is Validated) ==> next(call, stage, event, info) == stage,
        stage is Transform && !(event is Transformed) ==> next(call, stage, event, info) == stage,
        stage is Revalidate && !(event is Revalidated) ==> next(call, stage, event, info) == stage,
{
}

/// A call that was answered before is answered again where its caller may still make it
/// and the answer was kept whole, is refused with the answer of the layer that refuses
/// it, and otherwise goes on to the policy engines like any call.
pub proof fn law_repeated_calls_are_checked(
    call: ToolCall,
    outcome: CachedOutcome,
    completed_at: Timestamp,
    check: ReplayCheck,
    live_task: Option<Json>,
    info: DebugInfo,
    r: CallStage,
)
    requires
        call_ensures(
            ToolCall::advance,
            (
                &call,
                CallStage::CheckReplay { outcome, completed_at },
                CallEvent::ReplayChecked { check, live_task },
                &info,
            ),
            r,
        ),
    ensures
        r is Chain <==> check is Revoked || check is Authorized && outcome.payload_truncated,
        check matches ReplayCheck::Refused(response) ==> (r matches CallStage::Done {
            permit,
            answer,
        } && permit is None && answer.deep_view().response == response.deep_view()),
        check is Authorized && !outcome.payload_truncated ==> (r matches CallStage::Done {
            permit,
            answer,
        } && permit is None && answer.deep_view().response.http_status == 200 && (
        answer.deep_view().response.body matches protocol::BodyView::Success { id, .. } && id
            == call.request_id.tree())),
{
    let v = r.deep_view();
    assert(outcome.deep_view().payload_truncated == outcome.payload_truncated);
    if r is Done {
        assert(v is Done);
        assert(v->Done_answer == r->Done_answer.deep_view());
        assert(v->Done_permit == tool_gates::permit_view(r->Done_permit));
    }
}

/// Arguments that nobody changed are not checked again: where the gating plugins gave
/// none and the transforms hand back what they were given, the call goes on with the
/// caller's own.
pub proof fn law_unchanged_arguments_are_the_callers(
    call: ToolCall,
    permit: Option<Seq<char>>,
    metadata: Option<json::Tree>,
    transformed: Json,
    info: DebugInfo,
)
    requires
        transformed.tree() == json::or_object(call.arguments.deep_view()),
    ensures
        next(
            call,
            StageView::Transform {
                permit,
                effects: (tool_gates::EffectsView {
                    metadata,
                    modified_arguments: None,
                    cached_result: None,
                }),
            },
            CallEvent::Transformed(Some(transformed)),
            info,
        ) == (StageView::Ready { permit, metadata, arguments: call.arguments.deep_view() }),
{
}

} // verus!
