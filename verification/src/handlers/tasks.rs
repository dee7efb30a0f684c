//! Tasks: questions about them, the wait for their end, and how a tool call
//! runs as one.
use vstd::prelude::*;
use vstd::string::*;

use crate::handlers::tool_admission::ToolCall;
use crate::handlers::tool_dispatch::PipelineOutcome;
use crate::json;
use crate::json::Json;
use crate::policy_eval;
use crate::policy_eval::DebugInfo;
use crate::protocol;
use crate::protocol::{
    protocol_http_error, protocol_http_success, ProtocolHttpResponse, ToolCallResult,
};
use crate::text;

verus! {

/// How far a task has come.
#[derive(Debug, Clone, Copy, PartialEq, Eq, Structural)]
pub enum TaskStatus {
    Working,
    InputRequired,
    Completed,
    Failed,
    Cancelled,
}

/// What is known of a task.
#[derive(Debug)]
pub struct Task {
    pub task_id: String,
    pub status: TaskStatus,
    pub status_message: Option<String>,
    pub created_at: String,
    pub last_updated_at: String,
    /// How long the task is kept, in milliseconds.
    pub ttl: Option<u64>,
    /// How long to wait between two questions, in milliseconds.
    pub poll_interval: Option<u64>,
}

/// A task as the modern wire shows it.
#[derive(Debug)]
pub struct ModernTask {
    pub task_id: String,
    pub status: TaskStatus,
    pub status_message: Option<String>,
    pub created_at: String,
    pub last_updated_at: String,
    pub ttl_ms: Option<u64>,
    pub poll_interval_ms: Option<u64>,
    pub result: Option<Json>,
    pub error: Option<Json>,
    pub input_requests: Option<Json>,
    pub request_state: Option<String>,
}

/// Tells a client of the modern wire how far a task has come.
#[derive(Debug)]
pub struct TaskStatusNotification {
    pub params: ModernTask,
}

/// The notification of a task's state. It says how far the task has come and
/// never what came of it.
pub fn modern_task_status_notification(task: &Task) -> (r: TaskStatusNotification)
    ensures
        r.params.task_id@ == task.task_id@,
        r.params.status == task.status,
        r.params.status_message.deep_view() == task.status_message.deep_view(),
        r.params.created_at@ == task.created_at@,
        r.params.last_updated_at@ == task.last_updated_at@,
        r.params.ttl_ms == task.ttl,
        r.params.poll_interval_ms == task.poll_interval,
        r.params.result is None,
        r.params.error is None,
        r.params.input_requests is None,
        r.params.request_state is None,
{
    TaskStatusNotification {
        params: ModernTask {
            task_id: task.task_id.clone(),
            status: task.status,
            status_message: text::copy_opt_str(text::opt_as_str(&task.status_message)),
            created_at: task.created_at.clone(),
            last_updated_at: task.last_updated_at.clone(),
            ttl_ms: task.ttl,
            poll_interval_ms: task.poll_interval,
            result: None,
            error: None,
            input_requests: None,
            request_state: None,
        },
    }
}

/// What a task store failed on.
#[derive(Debug, Clone, Copy, PartialEq, Eq, Structural)]
pub enum TaskStoreFault {
    NotFound,
    Forbidden,
    NotCompleted,
    AlreadyTerminal,
    Other,
}

/// Why a task store could not answer, with its own text.
#[derive(Debug)]
pub struct TaskStoreError {
    pub fault: TaskStoreFault,
    pub text: String,
}

/// What came of a task.
#[derive(Debug)]
pub enum TerminalEnvelope {
    Success { result: Json },
    Error { code: i32, message: String, data: Option<Json> },
}

/// A question about tasks.
#[derive(Debug, Clone, Copy, PartialEq, Eq, Structural)]
pub enum TaskOperation {
    Get,
    Result,
    Cancel,
    List,
}

/// The method that asks a question.
pub open spec fn operation_text(op: TaskOperation) -> Seq<char> {
    match op {
        TaskOperation::Get => "tasks/get"@,
        TaskOperation::Result => "tasks/result"@,
        TaskOperation::Cancel => "tasks/cancel"@,
        TaskOperation::List => "tasks/list"@,
    }
}

fn operation_name(op: TaskOperation) -> (r: &'static str)
    ensures
        r@ == operation_text(op),
{
    match op {
        TaskOperation::Get => "tasks/get",
        TaskOperation::Result => "tasks/result",
        TaskOperation::Cancel => "tasks/cancel",
        TaskOperation::List => "tasks/list",
    }
}

/// The answer to a question without a session.
pub open spec fn no_session_reply(
    op: TaskOperation,
    request_id: json::Tree,
    info: DebugInfo,
) -> protocol::ReplyView {
    protocol::error_reply(
        400,
        Some(request_id),
        -32600,
        operation_text(op) + " requires an active session"@,
        policy_eval::debug_tree(info, "Include MCP-Session-Id header"@),
    )
}

/// The session that a question is asked in, or the answer where there is none.
pub fn task_session<'a>(
    op: TaskOperation,
    request_id: &Json,
    session_id: Option<&'a str>,
    info: &DebugInfo,
) -> (r: Result<&'a str, ProtocolHttpResponse>)
    ensures
        match session_id {
            Some(s) => r matches Ok(t) && t@ == s@,
            None => r matches Err(e) && e.deep_view() == no_session_reply(
                op,
                request_id.tree(),
                *info,
            ),
        },
{
    match session_id {
        Some(s) => Ok(s),
        None => {
            let mut message: String = operation_name(op).to_owned();
            message.append(" requires an active session");
            Err(
                protocol_http_error(
                    400,
                    Some(request_id.copy()),
                    -32600,
                    message,
                    info.debug_error_data("Include MCP-Session-Id header"),
                ),
            )
        },
    }
}

/// The answer to a question that the task store could not answer. Which faults
/// have an answer of their own depends on the question.
pub open spec fn fault_reply(
    op: TaskOperation,
    error: TaskStoreError,
    request_id: json::Tree,
    info: DebugInfo,
) -> protocol::ReplyView {
    let id = Some(request_id);
    if op != TaskOperation::List && error.fault == TaskStoreFault::NotFound {
        protocol::error_reply(
            200,
            id,
            -32602,
            "task not found"@,
            policy_eval::debug_tree(info, "Task may have expired or does not exist"@),
        )
    } else if op != TaskOperation::List && error.fault == TaskStoreFault::Forbidden {
        protocol::error_reply(
            200,
            id,
            -32600,
            "access denied to task"@,
            policy_eval::debug_tree(info, "Task belongs to a different session"@),
        )
    } else if op == TaskOperation::Result && error.fault == TaskStoreFault::NotCompleted {
        protocol::error_reply(
            200,
            id,
            -32602,
            "task not yet completed"@,
            policy_eval::debug_tree(
                info,
                "Use tasks/get to check status, then retrieve result when completed or failed"@,
            ),
        )
    } else if op == TaskOperation::Cancel && error.fault == TaskStoreFault::AlreadyTerminal {
        protocol::error_reply(
            200,
            id,
            -32602,
            "task has already reached a terminal state"@,
            policy_eval::debug_tree(
                info,
                "MCP 2025-11-25 forbids cancelling tasks that are already completed, failed, or cancelled"@,
            ),
        )
    } else {
        protocol::error_reply(200, id, -32603, "task store error: "@ + error.text@, None)
    }
}

fn fault_answer(op: TaskOperation, error: TaskStoreError, request_id: Json, info: &DebugInfo) -> (r:
    ProtocolHttpResponse)
    ensures
        r.deep_view() == fault_reply(op, error, request_id.tree(), *info),
{
    if op != TaskOperation::List && error.fault == TaskStoreFault::NotFound {
        protocol_http_error(
            200,
            Some(request_id),
            -32602,
            "task not found".to_owned(),
            info.debug_error_data("Task may have expired or does not exist"),
        )
    } else if op != TaskOperation::List && error.fault == TaskStoreFault::Forbidden {
        protocol_http_error(
            200,
            Some(request_id),
            -32600,
            "access denied to task".to_owned(),
            info.debug_error_data("Task belongs to a different session"),
        )
    } else if op == TaskOperation::Result && error.fault == TaskStoreFault::NotCompleted {
        protocol_http_error(
            200,
            Some(request_id),
            -32602,
            "task not yet completed".to_owned(),
            info.debug_error_data(
                "Use tasks/get to check status, then retrieve result when completed or failed",
            ),
        )
    } else if op == TaskOperation::Cancel && error.fault == TaskStoreFault::AlreadyTerminal {
        protocol_http_error(
            200,
            Some(request_id),
            -32602,
            "task has already reached a terminal state".to_owned(),
            info.debug_error_data(
                "MCP 2025-11-25 forbids cancelling tasks that are already completed, failed, or cancelled",
            ),
        )
    } else {
        let mut message: String = "task store error: ".to_owned();
        message.append(error.text.as_str());
        protocol_http_error(200, Some(request_id), -32603, message, None)
    }
}

/// What a task store answers to a question.
#[derive(Debug)]
pub enum TaskAnswer {
    /// The JSON of a task.
    Task(Json),
    /// What came of a task.
    Terminal(TerminalEnvelope),
    /// A page of tasks, and where the next one starts.
    Page { tasks: Vec<Json>, next_cursor: Option<String> },
}

/// The JSON of a page of tasks.
pub open spec fn page_tree(tasks: Seq<json::Tree>, next_cursor: Option<Seq<char>>) -> json::Tree {
    json::Tree::Object(
        protocol::insert_some(
            Map::<Seq<char>, json::Tree>::empty().insert("tasks"@, json::Tree::Array(tasks)),
            "nextCursor"@,
            match next_cursor {
                Some(c) => Some(json::Tree::Str(c)),
                None => None,
            },
        ),
    )
}

/// The answer to a question about tasks.
pub open spec fn task_reply(answer: TaskAnswer, request_id: json::Tree) -> protocol::ReplyView {
    match answer {
        TaskAnswer::Task(task) => protocol::success_reply(request_id, task.tree()),
        TaskAnswer::Terminal(TerminalEnvelope::Success { result }) => protocol::success_reply(
            request_id,
            result.tree(),
        ),
        TaskAnswer::Terminal(TerminalEnvelope::Error { code, message, data }) => {
            protocol::error_reply(200, Some(request_id), code as int, message@, data.deep_view())
        },
        TaskAnswer::Page { tasks, next_cursor } => protocol::success_reply(
            request_id,
            page_tree(json::elements(tasks@), next_cursor.deep_view()),
        ),
    }
}

/// The answer to a question about tasks.
#[derive(Debug)]
pub struct TaskReply {
    pub response: ProtocolHttpResponse,
    /// Whether a task was cancelled: its session is then told of its state, and
    /// whoever works on it is told to stop.
    pub announce_cancellation: bool,
}

/// Answers a question about tasks, given what the task store answers.
pub fn handle_tasks_operation(
    op: TaskOperation,
    request_id: Json,
    answer: Result<TaskAnswer, TaskStoreError>,
    info: &DebugInfo,
) -> (r: TaskReply)
    ensures
        r.response.deep_view() == (match answer {
            Ok(a) => task_reply(a, request_id.tree()),
            Err(e) => fault_reply(op, e, request_id.tree(), *info),
        }),
        r.announce_cancellation == (op == TaskOperation::Cancel && answer is Ok),
{
    let announce_cancellation: bool = op == TaskOperation::Cancel && answer.is_ok();
    let response: ProtocolHttpResponse = match answer {
        Err(e) => fault_answer(op, e, request_id, info),
        Ok(TaskAnswer::Task(task)) => protocol_http_success(request_id, task),
        Ok(TaskAnswer::Terminal(TerminalEnvelope::Success { result })) => protocol_http_success(
            request_id,
            result,
        ),
        Ok(TaskAnswer::Terminal(TerminalEnvelope::Error { code, message, data })) => {
            protocol_http_error(200, Some(request_id), code, message, data)
        },
        Ok(TaskAnswer::Page { tasks, next_cursor }) => {
            let cursor: Option<Json> = match next_cursor {
                Some(c) => Some(Json::Str(c)),
                None => None,
            };
            let page: Json = protocol::with_some(
                Json::object().with("tasks", Json::Array(tasks)),
                "nextCursor",
                cursor,
            );
            protocol_http_success(request_id, page)
        },
    };
    TaskReply { response, announce_cancellation }
}

/// How many tasks a page holds.
pub const TASK_PAGE_SIZE: usize = 50;

/// How long to wait between two looks at a task, in milliseconds.
pub const POLL_INTERVAL_MS: u64 = 250;

/// The wait for the end of a task.
#[derive(Debug, Clone, Copy, PartialEq, Eq, Structural)]
pub struct TaskWait {
    /// When the wait is over, in milliseconds.
    pub deadline_ms: u64,
}

/// What follows a look at a task.
#[derive(Debug)]
pub enum WaitStep {
    /// The wait is over.
    Return(Result<TerminalEnvelope, TaskStoreError>),
    /// Look again after a pause.
    Sleep { millis: u64 },
}

/// How long a wait lasts: as long as the store is set to, and at least a
/// millisecond.
pub open spec fn wait_length(result_wait_ms: u64) -> int {
    if result_wait_ms == 0 {
        1
    } else {
        result_wait_ms as int
    }
}

impl TaskWait {
    /// Starts a wait.
    pub fn starting(result_wait_ms: u64, now_ms: u64) -> (r: TaskWait)
        requires
            now_ms + wait_length(result_wait_ms) <= u64::MAX,
        ensures
            r.deadline_ms == now_ms + wait_length(result_wait_ms),
    {
        let length: u64 = if result_wait_ms == 0 {
            1
        } else {
            result_wait_ms
        };
        TaskWait { deadline_ms: now_ms + length }
    }

    /// What follows a look at the task: only a task that is not completed is
    /// looked at again, and only before the deadline.
    pub fn step(&self, looked: Result<TerminalEnvelope, TaskStoreError>, now_ms: u64) -> (r:
        WaitStep)
        ensures
            if looked is Err && looked->Err_0.fault == TaskStoreFault::NotCompleted && now_ms
                < self.deadline_ms {
                r == (WaitStep::Sleep { millis: POLL_INTERVAL_MS })
            } else {
                r == WaitStep::Return(looked)
            },
    {
        match looked {
            Ok(envelope) => WaitStep::Return(Ok(envelope)),
            Err(e) => {
                if e.fault == TaskStoreFault::NotCompleted && now_ms < self.deadline_ms {
                    WaitStep::Sleep { millis: POLL_INTERVAL_MS }
                } else {
                    WaitStep::Return(Err(e))
                }
            },
        }
    }
}

/// What is done with a task after a part of its work.
#[derive(Debug)]
pub enum TaskAction {
    /// The task ends as cancelled.
    StoreCancelled { message: String },
    /// The task ends.
    StoreTerminal { status: TaskStatus, envelope: TerminalEnvelope },
    /// The task waits for input that is asked for when the task is looked at.
    AwaitInput { request_state: String, input_requests: Json },
    /// The task waits for input that is asked for on the session's stream.
    DeliverRequest { request: Json, status: TaskStatus, status_message: String },
}

/// A task's action over plain values.
pub enum TaskActionView {
    StoreCancelled { message: Seq<char> },
    StoreResult { status: TaskStatus, result: json::Tree },
    StoreError { status: TaskStatus, code: int, message: Seq<char>, data: Option<json::Tree> },
    AwaitInput { request_state: Seq<char>, input_requests: json::Tree },
    DeliverRequest { request: json::Tree, status: TaskStatus, status_message: Seq<char> },
}

impl DeepView for TaskAction {
    type V = TaskActionView;

    open spec fn deep_view(&self) -> TaskActionView {
        match self {
            TaskAction::StoreCancelled { message } => TaskActionView::StoreCancelled {
                message: message@,
            },
            TaskAction::StoreTerminal {
                status,
                envelope: TerminalEnvelope::Success { result },
            } => TaskActionView::StoreResult { status: *status, result: result.tree() },
            TaskAction::StoreTerminal {
                status,
                envelope: TerminalEnvelope::Error { code, message, data },
            } => TaskActionView::StoreError {
                status: *status,
                code: *code as int,
                message: message@,
                data: data.deep_view(),
            },
            TaskAction::AwaitInput { request_state, input_requests } => {
                TaskActionView::AwaitInput {
                    request_state: request_state@,
                    input_requests: input_requests.tree(),
                }
            },
            TaskAction::DeliverRequest { request, status, status_message } => {
                TaskActionView::DeliverRequest {
                    request: request.tree(),
                    status: *status,
                    status_message: status_message@,
                }
            },
        }
    }
}

/// The end of a task that failed within the gateway.
pub open spec fn task_failure(message: Seq<char>) -> TaskActionView {
    TaskActionView::StoreError { status: TaskStatus::Failed, code: -32603, message, data: None }
}

fn fail_task(message: String) -> (r: TaskAction)
    ensures
        r.deep_view() == task_failure(message@),
{
    TaskAction::StoreTerminal {
        status: TaskStatus::Failed,
        envelope: TerminalEnvelope::Error { code: -32603, message, data: None },
    }
}

/// What is done with a task that is about to run: one that was cancelled in the
/// meantime does not run.
pub fn before_task_run(cancelled: bool) -> (r: Option<TaskAction>)
    ensures
        r.deep_view() == (if cancelled {
            Some(TaskActionView::StoreCancelled { message: "cancelled before execution"@ })
        } else {
            None
        }),
{
    if cancelled {
        Some(TaskAction::StoreCancelled { message: "cancelled before execution".to_owned() })
    } else {
        None
    }
}

/// The end of a task whose tool has answered. An answer that is an error is an
/// answer all the same.
pub open spec fn task_end(result: json::Tree, is_error: bool) -> TaskActionView {
    TaskActionView::StoreResult {
        status: if is_error {
            TaskStatus::Failed
        } else {
            TaskStatus::Completed
        },
        result,
    }
}

/// What is done with a task whose tool has answered.
pub fn after_task_run(result: &ToolCallResult) -> (r: TaskAction)
    ensures
        r.deep_view() == task_end(result.tree(), result.is_error),
{
    let status: TaskStatus = if result.is_error {
        TaskStatus::Failed
    } else {
        TaskStatus::Completed
    };
    TaskAction::StoreTerminal {
        status,
        envelope: TerminalEnvelope::Success { result: result.to_json() },
    }
}

/// What a pipeline needs to ask its client for input on the modern wire.
#[derive(Debug)]
pub struct ModernSuspension {
    /// The handle of the pipeline, sealed for its owner; `None` where nothing
    /// can seal it.
    pub request_state: Option<Result<String, String>>,
    /// What the client is asked for.
    pub input_requests: Result<Json, String>,
}

/// What is done with a task whose pipeline waits for the client's answer to a
/// request.
pub open spec fn suspended_task(
    request: json::Tree,
    modern: Option<ModernSuspension>,
) -> TaskActionView {
    match modern {
        None => TaskActionView::DeliverRequest {
            request,
            status: TaskStatus::InputRequired,
            status_message: "Pipeline suspended, awaiting input"@,
        },
        Some(s) => match s.request_state {
            None => task_failure("modern MRTR codec is not installed"@),
            Some(Err(e)) => task_failure("modern MRTR requestState encode failed: "@ + e@),
            Some(Ok(state)) => match s.input_requests {
                Err(e) => task_failure(e@),
                Ok(requests) => TaskActionView::AwaitInput {
                    request_state: state@,
                    input_requests: requests.tree(),
                },
            },
        },
    }
}

fn suspend_task(request: Json, modern: Option<ModernSuspension>) -> (r: TaskAction)
    ensures
        r.deep_view() == suspended_task(request.tree(), modern),
{
    match modern {
        None => TaskAction::DeliverRequest {
            request,
            status: TaskStatus::InputRequired,
            status_message: "Pipeline suspended, awaiting input".to_owned(),
        },
        Some(s) => match s.request_state {
            None => fail_task("modern MRTR codec is not installed".to_owned()),
            Some(Err(e)) => {
                let mut message: String = "modern MRTR requestState encode failed: ".to_owned();
                message.append(e.as_str());
                fail_task(message)
            },
            Some(Ok(state)) => match s.input_requests {
                Err(e) => fail_task(e),
                Ok(requests) => TaskAction::AwaitInput {
                    request_state: state,
                    input_requests: requests,
                },
            },
        },
    }
}

impl ToolCall {
    /// What is done with a task after its pipeline ran. A result is held against
    /// the tool's output schema; `suspension` is given on the modern wire.
    pub open spec fn pipeline_task(
        &self,
        outcome: PipelineOutcome,
        checked: Result<(), String>,
        suspension: Option<ModernSuspension>,
    ) -> TaskActionView {
        match outcome {
            PipelineOutcome::Complete(result) => task_end(
                self.checked_tree(result, checked),
                result.is_error || checked is Err,
            ),
            PipelineOutcome::Suspended(request) => suspended_task(
                request.tree(),
                if self.modern {
                    suspension
                } else {
                    None
                },
            ),
            PipelineOutcome::SuspendedMulti(_) => task_failure(
                "multi-entry MRTR (gather step) is not supported in task-augmented tool calls"@,
            ),
        }
    }

    /// What is done with a task after its pipeline ran.
    pub fn after_task_pipeline(
        &self,
        outcome: PipelineOutcome,
        checked: Result<(), String>,
        suspension: Option<ModernSuspension>,
    ) -> (r: TaskAction)
        requires
            self.modern && outcome is Suspended ==> suspension is Some,
        ensures
            r.deep_view() == self.pipeline_task(outcome, checked, suspension),
    {
        match outcome {
            PipelineOutcome::Complete(result) => {
                let result: ToolCallResult = self.check_output(result, checked);
                after_task_run(&result)
            },
            PipelineOutcome::Suspended(request) => {
                if self.modern {
                    suspend_task(request, suspension)
                } else {
                    suspend_task(request, None)
                }
            },
            PipelineOutcome::SuspendedMulti(_) => fail_task(
                "multi-entry MRTR (gather step) is not supported in task-augmented tool calls".to_owned(),
            ),
        }
    }
}

/// Only a session that may see a task learns anything of it: to any other, a
/// look at the task, its result and its cancellation are answered alike.
pub proof fn law_foreign_tasks_look_alike(
    a: TaskOperation,
    b: TaskOperation,
    error: TaskStoreError,
    request_id: json::Tree,
    info: DebugInfo,
)
    requires
        a != TaskOperation::List,
        b != TaskOperation::List,
        error.fault == TaskStoreFault::Forbidden || error.fault == TaskStoreFault::NotFound,
    ensures
        fault_reply(a, error, request_id, info) == fault_reply(b, error, request_id, info),
{
}

/// A notification tells how far its task has come, as the task store has it, and
/// never what came of it.
pub proof fn law_notifications_tell_the_state_only(task: Task, r: TaskStatusNotification)
    requires
        call_ensures(modern_task_status_notification, (&task,), r),
    ensures
        r.params.task_id@ == task.task_id@,
        r.params.status == task.status,
        r.params.created_at@ == task.created_at@,
        r.params.last_updated_at@ == task.last_updated_at@,
        r.params.ttl_ms == task.ttl,
        r.params.poll_interval_ms == task.poll_interval,
        r.params.result is None && r.params.error is None && r.params.input_requests is None,
{
}

/// A question about tasks is answered under its own id with what the task store
/// says: a task and a result as they are, an error of the task as that error, and a
/// page with its tasks in order and where to go on, if anywhere.
pub proof fn law_task_answers_are_passed_on(answer: TaskAnswer, request_id: json::Tree)
    ensures
        match (answer, task_reply(answer, request_id).body) {
            (TaskAnswer::Task(task), protocol::BodyView::Success { id, result }) => id == request_id
                && result == task.tree(),
            (
                TaskAnswer::Terminal(TerminalEnvelope::Success { result: kept }),
                protocol::BodyView::Success { id, result },
            ) => id == request_id && result == kept.tree(),
            (
                TaskAnswer::Terminal(TerminalEnvelope::Error { code, message, data }),
                protocol::BodyView::Error { id, code: c, message: m, data: d },
            ) => id == Some(request_id) && c == code && m == message@ && d == data.deep_view(),
            (
                TaskAnswer::Page { tasks, next_cursor },
                protocol::BodyView::Success { id, result },
            ) => id == request_id && json::tree_get(result, "tasks"@) == Some(
                json::Tree::Array(json::elements(tasks@)),
            ) && json::tree_get(result, "nextCursor"@) == (match next_cursor {
                Some(c) => Some(json::Tree::Str(c@)),
                None => None,
            }),
            _ => false,
        },
        task_reply(answer, request_id).http_status == 200,
{
    reveal_strlit("tasks");
    reveal_strlit("nextCursor");
    assert("tasks"@.len() != "nextCursor"@.len());
}

/// A cancellation is announced exactly where a task was cancelled.
pub proof fn law_only_cancellations_are_announced(
    op: TaskOperation,
    request_id: Json,
    answer: Result<TaskAnswer, TaskStoreError>,
    info: DebugInfo,
    r: TaskReply,
)
    requires
        call_ensures(handle_tasks_operation, (op, request_id, answer, &info), r),
    ensures
        r.announce_cancellation <==> op is Cancel && answer is Ok,
        answer matches Ok(a) ==> r.response.deep_view() == task_reply(a, request_id.tree()),
        answer matches Err(e) ==> r.response.deep_view() == fault_reply(
            op,
            e,
            request_id.tree(),
            info,
        ),
{
}

/// A question that the task store could not answer is told so under its own id in a
/// reply that the transport counts as good: a missing task and one that has not come
/// to its end as faults of the question, a foreign one as one that may not be asked
/// about, and anything else as a failure of the server.
pub proof fn law_task_faults_are_told_apart(
    op: TaskOperation,
    error: TaskStoreError,
    request_id: json::Tree,
    info: DebugInfo,
)
    ensures
        fault_reply(op, error, request_id, info).http_status == 200,
        fault_reply(op, error, request_id, info).body matches protocol::BodyView::Error {
            id,
            code,
            ..
        } && id == Some(request_id) && code == (match (op, error.fault) {
            (TaskOperation::List, _) => -32603int,
            (_, TaskStoreFault::NotFound) => -32602int,
            (_, TaskStoreFault::Forbidden) => -32600int,
            (TaskOperation::Result, TaskStoreFault::NotCompleted) => -32602int,
            (TaskOperation::Cancel, TaskStoreFault::AlreadyTerminal) => -32602int,
            _ => -32603int,
        }),
{
}

/// Questions about tasks are asked in a session: the one that the request names, and
/// without one the question is a bad request.
pub proof fn law_task_questions_need_a_session(
    op: TaskOperation,
    request_id: Json,
    session_id: Option<&str>,
    info: DebugInfo,
    r: Result<&str, ProtocolHttpResponse>,
)
    requires
        call_ensures(task_session, (op, &request_id, session_id, &info), r),
    ensures
        match (session_id, r) {
            (Some(s), Ok(t)) => t@ == s@,
            (None, Err(a)) => a.http_status == 400 && (a.response.deep_view()
                matches protocol::BodyView::Error { id, code, .. } && id == Some(
                request_id.tree(),
            ) && code == -32600),
            _ => false,
        },
{
}

/// A wait ends with the first look that finds anything but an unfinished task, and at
/// its deadline at the latest; until then the task is looked at again after a pause.
pub proof fn law_waits_end(
    wait: TaskWait,
    looked: Result<TerminalEnvelope, TaskStoreError>,
    now_ms: u64,
    r: WaitStep,
)
    requires
        call_ensures(TaskWait::step, (&wait, looked, now_ms), r),
    ensures
        match r {
            WaitStep::Return(found) => found == looked && (looked is Ok || now_ms
                >= wait.deadline_ms || !(looked->Err_0.fault is NotCompleted)),
            WaitStep::Sleep { millis } => millis == 250 && now_ms < wait.deadline_ms && (looked
                matches Err(e) && e.fault is NotCompleted),
        },
{
}

/// A wait lasts as long as the task store is set to wait, and at least a moment.
pub proof fn law_waits_last_as_set(result_wait_ms: u64, now_ms: u64, r: TaskWait)
    requires
        now_ms + result_wait_ms < u64::MAX,
        call_ensures(TaskWait::starting, (result_wait_ms, now_ms), r),
    ensures
        result_wait_ms > 0 ==> r.deadline_ms == now_ms + result_wait_ms,
        r.deadline_ms > now_ms,
{
}

/// A task whose tool has answered ends with that very answer: as failed where the
/// answer says so, and as completed where it does not.
pub proof fn law_tasks_end_with_their_answer(result: ToolCallResult, r: TaskAction)
    requires
        call_ensures(after_task_run, (&result,), r),
    ensures
        r matches TaskAction::StoreTerminal { status, envelope } && (envelope
            matches TerminalEnvelope::Success { result: kept } && kept.tree() == result.tree()) && (
        status is Failed <==> result.is_error) && (status is Completed <==> !result.is_error),
{
}

/// A task that was cancelled before it ran does not run, and any other does.
pub proof fn law_cancelled_tasks_do_not_run(cancelled: bool, r: Option<TaskAction>)
    requires
        call_ensures(before_task_run, (cancelled,), r),
    ensures
        r is Some <==> cancelled,
        r matches Some(action) ==> action is StoreCancelled,
{
}

/// After its pipeline ran, a task ends with the result, held against the tool's
/// schema, or waits for input: on the modern wire for what the sealed handle asks, on
/// the legacy wire for the pipeline's own request. What cannot be asked fails the
/// task.
pub proof fn law_pipelines_of_tasks_go_on(
    call: ToolCall,
    outcome: PipelineOutcome,
    checked: Result<(), String>,
    suspension: Option<ModernSuspension>,
)
    requires
        call.modern && outcome is Suspended ==> suspension is Some,
    ensures
        match (outcome, call.pipeline_task(outcome, checked, suspension)) {
            (
                PipelineOutcome::Complete(result),
                TaskActionView::StoreResult { status, result: kept },
            ) => kept == call.checked_tree(result, checked) && (status is Failed
                <==> result.is_error || checked is Err) && (status is Failed || status is Completed),
            (
                PipelineOutcome::Suspended(request),
                TaskActionView::DeliverRequest { request: asked, status, .. },
            ) => !call.modern && asked == request.tree() && status is InputRequired,
            (
                PipelineOutcome::Suspended(_),
                TaskActionView::AwaitInput { request_state, input_requests },
            ) => call.modern && (suspension matches Some(s) && (s.request_state matches Some(
                Ok(state),
            ) && request_state == state@) && (s.input_requests matches Ok(requests)
                && input_requests == requests.tree())),
            (
                PipelineOutcome::Suspended(_),
                TaskActionView::StoreError { status, code, .. },
            ) => call.modern && status is Failed && code == -32603 && (suspension matches Some(s)
                && (!(s.request_state matches Some(Ok(_))) || s.input_requests is Err)),
            (
                PipelineOutcome::SuspendedMulti(_),
                TaskActionView::StoreError { status, code, .. },
            ) => status is Failed && code == -32603,
            _ => false,
        },
{
}

/// A notification passes on what the task store says of the task's state in words, and
/// holds no handle by which a waiting task could be driven on.
pub proof fn law_notifications_hold_no_handle(task: Task, r: TaskStatusNotification)
    requires
        call_ensures(modern_task_status_notification, (&task,), r),
    ensures
        r.params.status_message.deep_view() == task.status_message.deep_view(),
        r.params.request_state is None,
        r.params.input_requests is None,
{
}

} // verus!
