//! Answers that are given again for a request that was made before.
use vstd::prelude::*;
use vstd::string::*;

use crate::clock::Timestamp;
use crate::idempotency;
use crate::idempotency::store;
use crate::idempotency::store::CachedOutcome;
use crate::json;
use crate::json::Json;
use crate::notes;
use crate::notes::{Answer, CallNote, SampleOutcome};
use crate::policy;
use crate::protocol;
use crate::protocol::protocol_http_success;
use crate::text;

verus! {

/// What is put on record when an answer is given again.
pub open spec fn replay_details(
    key: Seq<char>,
    outcome: store::OutcomeView,
    completed_at: Timestamp,
) -> Map<Seq<char>, json::Tree> {
    json::map_of(
        seq![
            ("key_hash"@, json::Tree::Str(idempotency::key_hash_text(key))),
            ("original_completed_at"@, json::Tree::Str(completed_at.rfc3339_view())),
            ("original_request_id"@, outcome.original_request_id),
            (
                "replay_count"@,
                json::Tree::Number(text::decimal_text(outcome.replay_count as nat)),
            ),
        ],
    )
}

fn replay_details_of(key: &str, outcome: &CachedOutcome, completed_at: Timestamp) -> (r: Json)
    ensures
        r is Object,
        r.tree() == json::Tree::Object(replay_details(key@, outcome.deep_view(), completed_at)),
{
    proof {
        reveal_with_fuel(json::map_of, 5);
    }
    Json::object().with("key_hash", Json::Str(idempotency::key_hash_hex(key))).with(
        "original_completed_at",
        Json::Str(completed_at.to_rfc3339()),
    ).with("original_request_id", outcome.original_request_id.copy()).with(
        "replay_count",
        Json::count(outcome.replay_count as u64),
    )
}

/// The id under which a replay is counted: that of the first call, or its own
/// where the first call's was not kept.
pub open spec fn billed_id(outcome: store::OutcomeView, own: Seq<char>) -> Seq<char> {
    if outcome.original_correlation_id.len() == 0 {
        own
    } else {
        outcome.original_correlation_id
    }
}

/// How a replay is counted.
pub open spec fn replay_sample(outcome: store::OutcomeView, own: Seq<char>) -> notes::NoteView {
    notes::NoteView::Sample {
        outcome: SampleOutcome::IdempotentReplay,
        error_code: Some("idempotent_replay"@),
        error_text: None,
        correlation_id: billed_id(outcome, own),
    }
}

fn replay_sample_of(outcome: &CachedOutcome, own: &str) -> (r: CallNote)
    ensures
        r.deep_view() == replay_sample(outcome.deep_view(), own@),
{
    let id: String = if outcome.original_correlation_id.as_str().unicode_len() == 0 {
        own.to_owned()
    } else {
        outcome.original_correlation_id.clone()
    };
    CallNote::Sample {
        outcome: SampleOutcome::IdempotentReplay,
        error_code: Some("idempotent_replay".to_owned()),
        error_text: None,
        correlation_id: id,
    }
}

/// The answer that gives a kept result again.
pub open spec fn replay_answer(
    request_id: json::Tree,
    own_id: Seq<char>,
    key: Seq<char>,
    outcome: store::OutcomeView,
    completed_at: Timestamp,
) -> notes::AnswerView {
    notes::AnswerView {
        response: protocol::success_reply(
            request_id,
            idempotency::marked(outcome.envelope, completed_at.rfc3339_view()),
        ),
        notes: seq![
            notes::NoteView::Idempotency {
                action: "mcpg.idempotency.replay"@,
                details: json::Tree::Object(replay_details(key, outcome, completed_at)),
            },
            replay_sample(outcome, own_id),
        ],
    }
}

/// Gives a kept result again, marked as a replay.
pub fn build_idempotency_replay_response(
    request_id: Json,
    own_id: &str,
    key: &str,
    outcome: CachedOutcome,
    completed_at: Timestamp,
) -> (r: Answer)
    ensures
        r.deep_view() == replay_answer(
            request_id.tree(),
            own_id@,
            key@,
            outcome.deep_view(),
            completed_at,
        ),
{
    let details: Json = replay_details_of(key, &outcome, completed_at);
    let sample: CallNote = replay_sample_of(&outcome, own_id);
    let envelope: Json = idempotency::stamp_replay_marker(outcome.envelope, completed_at);
    Answer::plain(protocol_http_success(request_id, envelope)).noting(
        CallNote::Idempotency { action: "mcpg.idempotency.replay".to_owned(), details },
    ).noting(sample)
}

/// The field of a kept task handle.
pub open spec fn handle_field(envelope: json::Tree, name: Seq<char>) -> Option<Seq<char>> {
    match json::tree_get(envelope, name) {
        Some(json::Tree::Str(t)) => Some(t),
        _ => None,
    }
}

fn handle_text(envelope: &Json, name: &str) -> (r: Option<String>)
    ensures
        r.deep_view() == handle_field(envelope.tree(), name@),
{
    match envelope.get(name) {
        Some(v) => text::copy_opt_str(v.as_str()),
        None => None,
    }
}

/// The task that a kept handle names: its id and its owner.
pub fn replayed_task(outcome: &CachedOutcome) -> (r: Option<(String, String)>)
    ensures
        match (
            handle_field(outcome.envelope.tree(), "task_id"@),
            handle_field(outcome.envelope.tree(), "session_id"@),
        ) {
            (Some(t), Some(s)) => r matches Some(p) && p.0@ == t && p.1@ == s,
            _ => r is None,
        },
{
    match (
        handle_text(&outcome.envelope, "task_id"),
        handle_text(&outcome.envelope, "session_id"),
    ) {
        (Some(t), Some(s)) => Some((t, s)),
        _ => None,
    }
}

/// The result of a request that made a task.
pub open spec fn create_task_tree(task: json::Tree) -> json::Tree {
    json::object_of(seq![("task"@, task)])
}

/// The result of a request that made a task.
pub fn create_task_result(task: Json) -> (r: Json)
    ensures
        r.tree() == create_task_tree(task.tree()),
{
    proof {
        reveal_with_fuel(json::map_of, 2);
    }
    Json::object().with("task", task)
}

/// The answer to a repeated request that made a task: the task as it is now, or
/// the kept handle where the task is gone.
pub open spec fn task_replay_answer(
    request_id: json::Tree,
    own_id: Seq<char>,
    key: Seq<char>,
    outcome: store::OutcomeView,
    completed_at: Timestamp,
    live_task: Option<json::Tree>,
) -> notes::AnswerView {
    let envelope = match live_task {
        Some(task) => create_task_tree(task),
        None => outcome.envelope,
    };
    notes::AnswerView {
        response: protocol::success_reply(
            request_id,
            idempotency::marked(envelope, completed_at.rfc3339_view()),
        ),
        notes: seq![
            notes::NoteView::Idempotency {
                action: "mcpg.idempotency.replay"@,
                details: json::Tree::Object(
                    replay_details(key, outcome, completed_at).insert(
                        "method"@,
                        json::Tree::Str("tasks/create"@),
                    ).insert(
                        "task_id"@,
                        policy::text_or_null(handle_field(outcome.envelope, "task_id"@)),
                    ),
                ),
            },
            replay_sample(outcome, own_id),
        ],
    }
}

/// Answers a repeated request that made a task. `live_task` is the task that
/// the kept handle names, where there still is one.
pub fn build_tasks_create_replay_response(
    request_id: Json,
    own_id: &str,
    key: &str,
    outcome: CachedOutcome,
    completed_at: Timestamp,
    live_task: Option<Json>,
) -> (r: Answer)
    ensures
        r.deep_view() == task_replay_answer(
            request_id.tree(),
            own_id@,
            key@,
            outcome.deep_view(),
            completed_at,
            live_task.deep_view(),
        ),
{
    let task_id: Json = match handle_text(&outcome.envelope, "task_id") {
        Some(t) => Json::Str(t),
        None => Json::Null,
    };
    let details: Json = replay_details_of(key, &outcome, completed_at).with(
        "method",
        Json::text("tasks/create"),
    ).with("task_id", task_id);
    let sample: CallNote = replay_sample_of(&outcome, own_id);
    let envelope: Json = match live_task {
        Some(task) => create_task_result(task),
        None => outcome.envelope,
    };
    let marked: Json = idempotency::stamp_replay_marker(envelope, completed_at);
    Answer::plain(protocol_http_success(request_id, marked)).noting(
        CallNote::Idempotency { action: "mcpg.idempotency.replay".to_owned(), details },
    ).noting(sample)
}

/// A replay is never counted as a call of its own: it is counted under the
/// first call, as a replay.
pub proof fn law_replays_name_the_first_call(
    request_id: json::Tree,
    own_id: Seq<char>,
    key: Seq<char>,
    outcome: store::OutcomeView,
    completed_at: Timestamp,
)
    requires
        outcome.original_correlation_id.len() > 0,
    ensures
        replay_answer(request_id, own_id, key, outcome, completed_at).notes.contains(
            notes::NoteView::Sample {
                outcome: SampleOutcome::IdempotentReplay,
                error_code: Some("idempotent_replay"@),
                error_text: None,
                correlation_id: outcome.original_correlation_id,
            },
        ),
{
    assert(replay_answer(request_id, own_id, key, outcome, completed_at).notes[1]
        == replay_sample(outcome, own_id));
}

/// A replay answers the request that asks for it: under its own id, with status 200
/// and with the kept result, marked. The record of it names the first call.
pub proof fn law_replays_answer_who_asks(
    request_id: json::Tree,
    own_id: Seq<char>,
    key: Seq<char>,
    outcome: store::OutcomeView,
    completed_at: Timestamp,
    field: Seq<char>,
)
    requires
        outcome.envelope is Object,
        field != "_meta"@,
    ensures
        ({
            let answer = replay_answer(request_id, own_id, key, outcome, completed_at);
            &&& answer.response.http_status == 200
            &&& answer.response.body matches protocol::BodyView::Success { id, result } && id
                == request_id && json::tree_get(result, field) == json::tree_get(
                outcome.envelope,
                field,
            )
            &&& answer.notes.len() == 2
            &&& answer.notes[1] matches notes::NoteView::Sample { outcome: o, correlation_id, .. }
                && o is IdempotentReplay && correlation_id == (if outcome.original_correlation_id.len()
                == 0 {
                own_id
            } else {
                outcome.original_correlation_id
            })
        }),
{
}

/// A repeated call that made a task is told of the task as it is now, and of the
/// kept handle where the task is gone.
pub proof fn law_repeated_tasks_are_told_live(
    request_id: json::Tree,
    own_id: Seq<char>,
    key: Seq<char>,
    outcome: store::OutcomeView,
    completed_at: Timestamp,
    live_task: Option<json::Tree>,
)
    requires
        outcome.envelope is Object,
    ensures
        ({
            let answer = task_replay_answer(
                request_id,
                own_id,
                key,
                outcome,
                completed_at,
                live_task,
            );
            &&& answer.response.http_status == 200
            &&& answer.response.body matches protocol::BodyView::Success { id, result } && id
                == request_id && match live_task {
                Some(task) => json::tree_get(result, "task"@) == Some(task),
                None => json::tree_get(result, "task_id"@) == json::tree_get(
                    outcome.envelope,
                    "task_id"@,
                ),
            }
        }),
{
    reveal_with_fuel(json::map_of, 2);
    reveal_strlit("_meta");
    reveal_strlit("task");
    reveal_strlit("task_id");
    assert("_meta"@.len() == 5 && "task"@.len() == 4 && "task_id"@.len() == 7);
}

/// The record of a replay says which call is given again, when it was answered and how
/// often it has been given, and never the key itself but its hash.
pub proof fn law_replays_go_on_record(
    request_id: Json,
    own_id: &str,
    key: &str,
    outcome: CachedOutcome,
    completed_at: Timestamp,
    r: Answer,
)
    requires
        call_ensures(
            build_idempotency_replay_response,
            (request_id, own_id, key, outcome, completed_at),
            r,
        ),
    ensures
        r.deep_view().notes.len() == 2,
        r.deep_view().notes[0] matches notes::NoteView::Idempotency { action, details } && action
            == "mcpg.idempotency.replay"@ && json::tree_get(details, "original_completed_at"@)
            == Some(json::Tree::Str(completed_at.rfc3339_view())) && json::tree_get(
            details,
            "original_request_id"@,
        ) == Some(outcome.original_request_id.tree()) && json::tree_get(details, "replay_count"@)
            == Some(json::Tree::Number(text::decimal_text(outcome.replay_count as nat)))
            && json::tree_get(details, "key_hash"@) == Some(
            json::Tree::Str(idempotency::key_hash_text(key@)),
        ),
{
    reveal_with_fuel(json::map_of, 5);
    reveal_strlit("key_hash");
    reveal_strlit("original_completed_at");
    reveal_strlit("original_request_id");
    reveal_strlit("replay_count");
    assert("key_hash"@.len() == 8);
    assert("original_completed_at"@.len() == 21);
    assert("original_request_id"@.len() == 19);
    assert("replay_count"@.len() == 12);
}

/// A kept handle leads back to its task and its owner where it names both, and nowhere
/// otherwise.
pub proof fn law_handles_lead_to_their_task(
    outcome: CachedOutcome,
    r: Option<(String, String)>,
)
    requires
        call_ensures(replayed_task, (&outcome,), r),
    ensures
        r matches Some(p) ==> json::tree_get(outcome.envelope.tree(), "task_id"@) == Some(
            json::Tree::Str(p.0@),
        ) && json::tree_get(outcome.envelope.tree(), "session_id"@) == Some(
            json::Tree::Str(p.1@),
        ),
        r is None ==> !(json::tree_get(outcome.envelope.tree(), "task_id"@) matches Some(
            json::Tree::Str(_),
        )) || !(json::tree_get(outcome.envelope.tree(), "session_id"@) matches Some(
            json::Tree::Str(_),
        )),
{
}

} // verus!
