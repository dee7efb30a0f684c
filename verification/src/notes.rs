//! What the handling of a request puts on record.
use vstd::prelude::*;
use vstd::string::*;

use crate::json;
use crate::json::Json;
use crate::protocol;
use crate::protocol::ProtocolHttpResponse;

verus! {

/// How a call that was not dispatched is counted.
#[derive(Debug, Clone, Copy, PartialEq, Eq, Structural)]
pub enum SampleOutcome {
    /// A policy refused it.
    PolicyDenied,
    /// A quota refused it.
    QuotaExceeded,
    /// A kept answer was given again.
    IdempotentReplay,
}

/// An entry for the records.
#[derive(Debug)]
pub enum CallNote {
    /// A policy refused the call.
    PolicyDenial { reason: String },
    /// The access to a tool was denied.
    AccessDenied { reason: String },
    /// A quota was exceeded.
    QuotaExceeded { policy_id: String, kind: String, reason: String },
    /// The tool does not exist.
    UnknownTool,
    /// A list was handed out.
    Listed { surface: String, count: u64 },
    /// Something was asked for that does not exist.
    NotFound { surface: String, name: String },
    /// Something was asked for that the caller may not have.
    GateDenied { surface: String, name: String },
    /// Something was handed out; for a resource, its size is noted.
    Served { surface: String, name: String, bytes: Option<u64> },
    /// A resource was subscribed to.
    Subscribed { uri: String },
    /// A subscription was ended, if there was one.
    Unsubscribed { uri: String, was_subscribed: bool },
    /// A session was opened.
    SessionOpened {
        session_id: String,
        protocol_version: String,
        client_name: String,
        client_version: String,
    },
    /// A session was confirmed by its client.
    SessionConfirmed,
    /// A ping was answered.
    Pinged,
    /// A user answered a question.
    ElicitationCompleted { elicitation_id: String, action: String },
    /// A client set the log level of its session.
    LogLevelSet { level: String },
    /// A completion was asked for; so many values were offered.
    CompletionAsked { ref_type: String, name: String, argument: String, count: u64 },
    /// Something happened to an idempotency record.
    Idempotency { action: String, details: Json },
    /// A call is counted without having been dispatched.
    Sample {
        outcome: SampleOutcome,
        error_code: Option<String>,
        /// The text that is hashed into the sample.
        error_text: Option<String>,
        correlation_id: String,
    },
}

/// An entry over plain values.
pub enum NoteView {
    PolicyDenial { reason: Seq<char> },
    AccessDenied { reason: Seq<char> },
    QuotaExceeded { policy_id: Seq<char>, kind: Seq<char>, reason: Seq<char> },
    UnknownTool,
    Listed { surface: Seq<char>, count: u64 },
    NotFound { surface: Seq<char>, name: Seq<char> },
    GateDenied { surface: Seq<char>, name: Seq<char> },
    Served { surface: Seq<char>, name: Seq<char>, bytes: Option<nat> },
    Subscribed { uri: Seq<char> },
    Unsubscribed { uri: Seq<char>, was_subscribed: bool },
    SessionOpened {
        session_id: Seq<char>,
        protocol_version: Seq<char>,
        client_name: Seq<char>,
        client_version: Seq<char>,
    },
    SessionConfirmed,
    Pinged,
    ElicitationCompleted { elicitation_id: Seq<char>, action: Seq<char> },
    LogLevelSet { level: Seq<char> },
    CompletionAsked { ref_type: Seq<char>, name: Seq<char>, argument: Seq<char>, count: nat },
    Idempotency { action: Seq<char>, details: json::Tree },
    Sample {
        outcome: SampleOutcome,
        error_code: Option<Seq<char>>,
        error_text: Option<Seq<char>>,
        correlation_id: Seq<char>,
    },
}

impl DeepView for CallNote {
    type V = NoteView;

    open spec fn deep_view(&self) -> NoteView {
        match self {
            CallNote::PolicyDenial { reason } => NoteView::PolicyDenial { reason: reason@ },
            CallNote::AccessDenied { reason } => NoteView::AccessDenied { reason: reason@ },
            CallNote::QuotaExceeded { policy_id, kind, reason } => NoteView::QuotaExceeded {
                policy_id: policy_id@,
                kind: kind@,
                reason: reason@,
            },
            CallNote::UnknownTool => NoteView::UnknownTool,
            CallNote::Listed { surface, count } => NoteView::Listed {
                surface: surface@,
                count: *count,
            },
            CallNote::NotFound { surface, name } => NoteView::NotFound {
                surface: surface@,
                name: name@,
            },
            CallNote::GateDenied { surface, name } => NoteView::GateDenied {
                surface: surface@,
                name: name@,
            },
            CallNote::Served { surface, name, bytes } => NoteView::Served {
                surface: surface@,
                name: name@,
                bytes: match bytes {
                    Some(n) => Some(*n as nat),
                    None => None,
                },
            },
            CallNote::Subscribed { uri } => NoteView::Subscribed { uri: uri@ },
            CallNote::Unsubscribed { uri, was_subscribed } => NoteView::Unsubscribed {
                uri: uri@,
                was_subscribed: *was_subscribed,
            },
            CallNote::SessionOpened {
                session_id,
                protocol_version,
                client_name,
                client_version,
            } => NoteView::SessionOpened {
                session_id: session_id@,
                protocol_version: protocol_version@,
                client_name: client_name@,
                client_version: client_version@,
            },
            CallNote::SessionConfirmed => NoteView::SessionConfirmed,
            CallNote::Pinged => NoteView::Pinged,
            CallNote::ElicitationCompleted {
                elicitation_id,
                action,
            } => NoteView::ElicitationCompleted {
                elicitation_id: elicitation_id@,
                action: action@,
            },
            CallNote::LogLevelSet { level } => NoteView::LogLevelSet { level: level@ },
            CallNote::CompletionAsked {
                ref_type,
                name,
                argument,
                count,
            } => NoteView::CompletionAsked {
                ref_type: ref_type@,
                name: name@,
                argument: argument@,
                count: *count as nat,
            },
            CallNote::Idempotency { action, details } => NoteView::Idempotency {
                action: action@,
                details: details.tree(),
            },
            CallNote::Sample {
                outcome,
                error_code,
                error_text,
                correlation_id,
            } => NoteView::Sample {
                outcome: *outcome,
                error_code: error_code.deep_view(),
                error_text: error_text.deep_view(),
                correlation_id: correlation_id@,
            },
        }
    }
}

/// An answer, with what is put on record before it is sent.
#[derive(Debug)]
pub struct Answer {
    pub response: ProtocolHttpResponse,
    pub notes: Vec<CallNote>,
}

/// An answer over plain values.
#[verifier::ext_equal]
pub struct AnswerView {
    pub response: protocol::ReplyView,
    pub notes: Seq<NoteView>,
}

impl DeepView for Answer {
    type V = AnswerView;

    open spec fn deep_view(&self) -> AnswerView {
        AnswerView { response: self.response.deep_view(), notes: self.notes.deep_view() }
    }
}

/// The answer that ends the handling, where it ends.
pub open spec fn refused<T>(r: Result<T, Answer>) -> Option<AnswerView> {
    match r {
        Ok(_) => None,
        Err(a) => Some(a.deep_view()),
    }
}

/// An answer that puts nothing on record.
pub open spec fn plain(response: protocol::ReplyView) -> AnswerView {
    AnswerView { response, notes: seq![] }
}

/// An answer that puts one entry on record.
pub open spec fn noted(response: protocol::ReplyView, note: NoteView) -> AnswerView {
    AnswerView { response, notes: seq![note] }
}

impl Answer {
    /// An answer that puts one entry on record.
    pub fn noted(response: ProtocolHttpResponse, note: CallNote) -> (r: Answer)
        ensures
            r.deep_view() == noted(response.deep_view(), note.deep_view()),
    {
        let r: Answer = Answer::plain(response).noting(note);
        proof {
            assert(r.deep_view() =~= noted(response.deep_view(), note.deep_view()));
        }
        r
    }

    /// An answer that puts nothing on record.
    pub fn plain(response: ProtocolHttpResponse) -> (r: Answer)
        ensures
            r.deep_view() == plain(response.deep_view()),
    {
        let notes: Vec<CallNote> = Vec::new();
        proof {
            assert(notes.deep_view() =~= seq![]);
        }
        Answer { response, notes }
    }

    /// An answer with one more entry for the records.
    pub fn noting(self, note: CallNote) -> (r: Answer)
        ensures
            r.deep_view() == (AnswerView {
                response: self.response.deep_view(),
                notes: self.notes.deep_view().push(note.deep_view()),
            }),
    {
        let mut notes: Vec<CallNote> = self.notes;
        let ghost before = notes.deep_view();
        notes.push(note);
        proof {
            assert(notes.deep_view() =~= before.push(note.deep_view()));
        }
        Answer { response: self.response, notes }
    }
}

/// An entry for the records comes after those before it and changes neither them nor
/// the answer; an answer starts without entries.
pub proof fn law_entries_are_kept_in_order(
    response: ProtocolHttpResponse,
    first: CallNote,
    second: CallNote,
    empty: Answer,
    one: Answer,
    two: Answer,
)
    requires
        call_ensures(Answer::plain, (response,), empty),
        call_ensures(Answer::noting, (empty, first), one),
        call_ensures(Answer::noting, (one, second), two),
    ensures
        empty.deep_view().notes.len() == 0,
        two.deep_view().response == response.deep_view(),
        two.deep_view().notes.len() == 2,
        two.deep_view().notes[0] == first.deep_view(),
        two.deep_view().notes[1] == second.deep_view(),
{
    assert(empty.deep_view().notes.len() == 0);
    assert(one.deep_view().notes == empty.deep_view().notes.push(first.deep_view()));
    assert(two.deep_view().notes == one.deep_view().notes.push(second.deep_view()));
}

} // verus!
