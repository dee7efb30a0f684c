//! Messages of transports that carry bytes and know nothing of their callers.
use vstd::prelude::*;
use vstd::string::*;

use crate::context::RequestContext;
use crate::identity;
use crate::identity::{GatewayRequestId, RequestIdentity, TransportKind};
use crate::json;
use crate::json::Json;
use crate::outside;
use crate::protocol;
use crate::protocol::{ProtocolResponse, ProtocolVersion};
use crate::runtime::{GatewayOperation, GatewayRequest, GatewayResponsePayload, ProtocolOperation};
use crate::text;

verus! {

/// Why a message was not answered.
#[derive(Debug, Clone)]
pub enum DispatcherError {
    /// The message is none.
    InvalidMessage { reason: String },
    /// The answer could not be written.
    Internal { reason: String },
}

/// An error over plain values.
pub enum DispatcherErrorView {
    InvalidMessage { reason: Seq<char> },
    Internal { reason: Seq<char> },
}

impl DeepView for DispatcherError {
    type V = DispatcherErrorView;

    open spec fn deep_view(&self) -> DispatcherErrorView {
        match self {
            DispatcherError::InvalidMessage { reason } => DispatcherErrorView::InvalidMessage {
                reason: reason@,
            },
            DispatcherError::Internal { reason } => DispatcherErrorView::Internal {
                reason: reason@,
            },
        }
    }
}

impl DispatcherError {
    /// The name of the kind of error.
    pub fn kind_label(&self) -> (r: &'static str)
        ensures
            r@ == (match self {
                DispatcherError::InvalidMessage { .. } => "invalid_message"@,
                DispatcherError::Internal { .. } => "internal"@,
            }),
    {
        match self {
            DispatcherError::InvalidMessage { .. } => "invalid_message",
            DispatcherError::Internal { .. } => "internal",
        }
    }
}

/// What is sent back for a message.
#[derive(Debug, Clone, PartialEq, Eq)]
pub enum DispatchResponse {
    /// Nothing: the message was a notification.
    Ack,
    /// The bytes of an answer.
    Unary(Vec<u8>),
}

/// What is sent back for a message, over plain values.
pub enum DispatchView {
    Ack,
    Unary(Seq<u8>),
}

/// What comes of a message, over plain values.
pub open spec fn sent(r: Result<DispatchResponse, DispatcherError>) -> Result<
    DispatchView,
    DispatcherErrorView,
> {
    match r {
        Ok(DispatchResponse::Ack) => Ok(DispatchView::Ack),
        Ok(DispatchResponse::Unary(b)) => Ok(DispatchView::Unary(b@)),
        Err(e) => Err(e.deep_view()),
    }
}

/// Hands the messages of a transport on.
#[derive(Debug, Clone, Copy, PartialEq, Eq, Structural)]
pub struct GatewayMessageDispatcher;

/// Whether a context is that of a message whose sender is unknown.
pub open spec fn anonymous_context(ctx: RequestContext, session_id: Option<Seq<char>>) -> bool {
    &&& ctx.session_id.deep_view() == session_id
    &&& ctx.identity.deep_view() == (identity::IdentityView::Anonymous {
        source: "transport-dispatcher"@,
    })
    &&& ctx.transport == TransportKind::Stdio
    &&& ctx.upstream_request_id is None
    &&& ctx.resume_cursor is None
    &&& ctx.negotiated_version == ProtocolVersion::V_2025_11_25
}

/// The JSON of an answer: a result, or an error with its code, its text and what
/// else is told of it.
pub open spec fn envelope(body: protocol::BodyView) -> Option<json::Tree> {
    match body {
        protocol::BodyView::Success { id, result } => Some(
            json::object_of(
                seq![("jsonrpc"@, json::Tree::Str("2.0"@)), ("id"@, id), ("result"@, result)],
            ),
        ),
        protocol::BodyView::Error { id, code, message, data } => Some(
            json::object_of(
                seq![
                    ("jsonrpc"@, json::Tree::Str("2.0"@)),
                    (
                        "id"@,
                        match id {
                            Some(t) => t,
                            None => json::Tree::Null,
                        },
                    ),
                    (
                        "error"@,
                        json::Tree::Object(
                            protocol::insert_some(
                                json::map_of(
                                    seq![
                                        ("code"@, json::Tree::Number(text::signed_text(code))),
                                        ("message"@, json::Tree::Str(message)),
                                    ],
                                ),
                                "data"@,
                                data,
                            ),
                        ),
                    ),
                ],
            ),
        ),
        protocol::BodyView::Accepted => None,
    }
}

fn envelope_of(body: ProtocolResponse) -> (r: Option<Json>)
    ensures
        r.deep_view() == envelope(body.deep_view()),
{
    proof {
        reveal_with_fuel(json::map_of, 4);
    }
    match body {
        ProtocolResponse::JsonRpcSuccess { id, result } => Some(
            Json::object().with("jsonrpc", Json::text("2.0")).with("id", id).with(
                "result",
                result,
            ),
        ),
        ProtocolResponse::JsonRpcError { id, code, message, data } => {
            let error: Json = protocol::with_some(
                Json::object().with(
                    "code",
                    Json::Number(text::signed_decimal(code as i64)),
                ).with("message", Json::Str(message)),
                "data",
                data,
            );
            let id: Json = match id {
                Some(j) => j,
                None => Json::Null,
            };
            Some(
                Json::object().with("jsonrpc", Json::text("2.0")).with("id", id).with(
                    "error",
                    error,
                ),
            )
        },
        ProtocolResponse::NotificationAccepted => None,
    }
}

/// What is sent back for a value: its bytes.
pub open spec fn unary(t: json::Tree) -> Result<DispatchView, DispatcherErrorView> {
    match outside::json_bytes(t) {
        Ok(b) => Ok(DispatchView::Unary(b)),
        Err(e) => Err(DispatcherErrorView::Internal { reason: "response serialize: "@ + e }),
    }
}

/// What is sent back for an answer.
pub open spec fn delivered(payload: GatewayResponsePayload) -> Result<
    DispatchView,
    DispatcherErrorView,
> {
    match payload {
        GatewayResponsePayload::Protocol(p) => match envelope(p.response.deep_view()) {
            Some(t) => unary(t),
            None => Ok(DispatchView::Ack),
        },
        GatewayResponsePayload::Readiness(snapshot) => unary(snapshot.tree()),
        GatewayResponsePayload::Runtime(snapshot) => unary(snapshot.tree()),
    }
}

fn serialise_json_reply(value: &Json) -> (r: Result<DispatchResponse, DispatcherError>)
    ensures
        sent(r) == unary(value.tree()),
{
    match outside::json_to_vec(value) {
        Ok(b) => Ok(DispatchResponse::Unary(b)),
        Err(e) => {
            let mut reason: String = "response serialize: ".to_owned();
            reason.append(e.as_str());
            Err(DispatcherError::Internal { reason })
        },
    }
}

impl GatewayMessageDispatcher {
    /// A dispatcher.
    pub fn new() -> (r: GatewayMessageDispatcher) {
        GatewayMessageDispatcher
    }

    /// The context of a message. The transport says nothing of its caller, so
    /// the caller is nobody in particular.
    pub fn build_context(&self, session_id: Option<String>) -> (r: RequestContext)
        ensures
            anonymous_context(r, session_id.deep_view()),
    {
        RequestContext::new(
            GatewayRequestId::new(),
            None,
            session_id,
            None,
            RequestIdentity::Anonymous { source: "transport-dispatcher".to_owned() },
            TransportKind::Stdio,
        )
    }

    /// Reads the JSON of a message.
    pub fn read(&self, message: &[u8]) -> (r: Result<Json, DispatcherError>)
        ensures
            match outside::json_parsed_bytes(message@) {
                Err(e) => r matches Err(x) && x.deep_view() == (
                DispatcherErrorView::InvalidMessage { reason: "JSON parse: "@ + e }),
                Ok(t) => r matches Ok(v) && v.tree() == t,
            },
    {
        match outside::json_from_slice(message) {
            Err(e) => {
                let mut reason: String = "JSON parse: ".to_owned();
                reason.append(e.as_str());
                Err(DispatcherError::InvalidMessage { reason })
            },
            Ok(v) => Ok(v),
        }
    }

    /// Makes a request of what a message was understood to ask for; the text says
    /// why it was not understood. An empty session id stands for no session yet.
    pub fn request(&self, session_id: &str, understood: Result<ProtocolOperation, String>) -> (r:
        Result<GatewayRequest, DispatcherError>)
        ensures
            match understood {
                Err(e) => r matches Err(x) && x.deep_view() == (
                DispatcherErrorView::InvalidMessage { reason: e@ }),
                Ok(op) => r matches Ok(q) && q.operation == GatewayOperation::Protocol(op)
                    && anonymous_context(
                    q.context,
                    if session_id@.len() == 0 {
                        None
                    } else {
                        Some(session_id@)
                    },
                ),
            },
    {
        let operation: ProtocolOperation = match understood {
            Ok(op) => op,
            Err(reason) => {
                return Err(DispatcherError::InvalidMessage { reason });
            },
        };
        let session: Option<String> = if session_id.unicode_len() == 0 {
            None
        } else {
            Some(session_id.to_owned())
        };
        let context: RequestContext = self.build_context(session);
        Ok(GatewayRequest::new(context, GatewayOperation::Protocol(operation)))
    }

    /// Writes the answer to a message.
    pub fn reply(&self, payload: GatewayResponsePayload) -> (r: Result<
        DispatchResponse,
        DispatcherError,
    >)
        ensures
            sent(r) == delivered(payload),
    {
        match payload {
            GatewayResponsePayload::Protocol(p) => match envelope_of(p.response) {
                Some(value) => serialise_json_reply(&value),
                None => Ok(DispatchResponse::Ack),
            },
            GatewayResponsePayload::Readiness(snapshot) => serialise_json_reply(&snapshot),
            GatewayResponsePayload::Runtime(snapshot) => serialise_json_reply(&snapshot),
        }
    }
}

/// A caller that comes over such a transport is trusted as little as any caller,
/// and only notifications go unanswered.
pub proof fn law_transports_lend_no_trust(
    ctx: RequestContext,
    session_id: Option<Seq<char>>,
    payload: GatewayResponsePayload,
)
    requires
        anonymous_context(ctx, session_id),
    ensures
        ctx.identity.deep_view().trust_level() == identity::RequestTrustLevel::Unauthenticated,
        ctx.identity.deep_view().principal_id() is None,
        delivered(payload) == Ok::<DispatchView, DispatcherErrorView>(DispatchView::Ack) ==> (
        payload matches GatewayResponsePayload::Protocol(p)
            && p.response.deep_view() is Accepted),
{
}

/// The names of an answer's fields are told apart.
proof fn lemma_envelope_names()
    ensures
        "jsonrpc"@.len() == 7,
        "id"@.len() == 2,
        "result"@.len() == 6,
        "error"@.len() == 5,
        "code"@.len() == 4 && "code"@[0] == 'c',
        "message"@.len() == 7,
        "data"@.len() == 4 && "data"@[0] == 'd',
{
    reveal_strlit("jsonrpc");
    reveal_strlit("id");
    reveal_strlit("result");
    reveal_strlit("error");
    reveal_strlit("code");
    reveal_strlit("message");
    reveal_strlit("data");
}

/// An answer is written as JSON-RPC has it: its version, the id of its request, and
/// either its result or its error, never both; the error with its code, its words
/// and its detail where it has one. Only a notification goes unanswered.
pub proof fn law_answers_are_json_rpc(body: protocol::BodyView)
    ensures
        envelope(body) is None <==> body is Accepted,
        envelope(body) matches Some(t) ==> json::tree_get(t, "jsonrpc"@) == Some(
            json::Tree::Str("2.0"@),
        ),
        body matches protocol::BodyView::Success { id, result } ==> (envelope(body) matches Some(t)
            && json::tree_get(t, "id"@) == Some(id) && json::tree_get(t, "result"@) == Some(result)
            && json::tree_get(t, "error"@) is None),
        body matches protocol::BodyView::Error { id, code, message, data } ==> (envelope(
            body,
        ) matches Some(t) && json::tree_get(t, "id"@) == Some(
            match id {
                Some(i) => i,
                None => json::Tree::Null,
            },
        ) && json::tree_get(t, "result"@) is None && (json::tree_get(t, "error"@) matches Some(e)
            && json::tree_get(e, "code"@) == Some(json::Tree::Number(text::signed_text(code)))
            && json::tree_get(e, "message"@) == Some(json::Tree::Str(message)) && json::tree_get(
            e,
            "data"@,
        ) == data)),
{
    reveal_with_fuel(json::map_of, 4);
    lemma_envelope_names();
}

/// A message that was understood becomes a request for just that, in the session
/// that the transport names, if any; one that was not understood is told why.
pub proof fn law_messages_become_requests(
    dispatcher: GatewayMessageDispatcher,
    session_id: &str,
    understood: Result<ProtocolOperation, String>,
    r: Result<GatewayRequest, DispatcherError>,
)
    requires
        call_ensures(
            GatewayMessageDispatcher::request,
            (&dispatcher, session_id, understood),
            r,
        ),
    ensures
        match (understood, r) {
            (Ok(op), Ok(q)) => q.operation == GatewayOperation::Protocol(op)
                && q.context.identity is Anonymous && (session_id@.len() > 0
                ==> q.context.session_id.deep_view() == Some(session_id@)) && (session_id@.len() == 0
                ==> q.context.session_id is None),
            (Err(e), Err(DispatcherError::InvalidMessage { reason })) => reason@ == e@,
            _ => false,
        },
{
}

/// The bytes that are sent are those of the answer itself.
pub proof fn law_the_answer_is_what_is_sent(payload: GatewayResponsePayload, bytes: Seq<u8>)
    requires
        delivered(payload) == Ok::<DispatchView, DispatcherErrorView>(DispatchView::Unary(bytes)),
    ensures
        match payload {
            GatewayResponsePayload::Protocol(p) => envelope(p.response.deep_view()) matches Some(t)
                && outside::json_bytes(t) == Ok::<Seq<u8>, Seq<char>>(bytes),
            GatewayResponsePayload::Readiness(s) => outside::json_bytes(s.tree()) == Ok::<
                Seq<u8>,
                Seq<char>,
            >(bytes),
            GatewayResponsePayload::Runtime(s) => outside::json_bytes(s.tree()) == Ok::<
                Seq<u8>,
                Seq<char>,
            >(bytes),
        },
{
}

/// A message that is no JSON is told to be invalid, one that is JSON is what it
/// denotes, and the two kinds of faults have names of their own.
pub proof fn law_only_json_is_read(
    dispatcher: GatewayMessageDispatcher,
    message: &[u8],
    r: Result<Json, DispatcherError>,
    e: DispatcherError,
    label: &str,
)
    requires
        call_ensures(GatewayMessageDispatcher::read, (&dispatcher, message), r),
        call_ensures(DispatcherError::kind_label, (&e,), label),
    ensures
        r is Ok <==> outside::json_parsed_bytes(message@) is Ok,
        r matches Ok(v) ==> outside::json_parsed_bytes(message@) == Ok::<json::Tree, Seq<char>>(
            v.tree(),
        ),
        r matches Err(x) ==> x is InvalidMessage,
        e is InvalidMessage ==> label@ == "invalid_message"@,
        e is Internal ==> label@ == "internal"@,
{
}

/// A message that comes over such a transport is a request of nobody in particular, in
/// the session that the transport names and in the older revision; only a notification
/// is merely acknowledged.
pub proof fn law_messages_come_from_nobody(
    dispatcher: GatewayMessageDispatcher,
    session_id: Option<String>,
    context: RequestContext,
    payload: GatewayResponsePayload,
    r: Result<DispatchResponse, DispatcherError>,
)
    requires
        call_ensures(GatewayMessageDispatcher::build_context, (&dispatcher, session_id), context),
        call_ensures(GatewayMessageDispatcher::reply, (&dispatcher, payload), r),
    ensures
        context.identity is Anonymous,
        context.session_id.deep_view() == session_id.deep_view(),
        context.negotiated_version is V_2025_11_25,
        context.transport is Stdio,
        r matches Ok(d) ==> (sent(r) == Ok::<DispatchView, DispatcherErrorView>(DispatchView::Ack)
            <==> (payload matches GatewayResponsePayload::Protocol(p) && p.response.deep_view()
            is Accepted)),
{
}

} // verus!
