//! How arguments are completed.
use vstd::prelude::*;
use vstd::string::*;

use crate::context;
use crate::context::{RequestContext, SessionAccessError, SessionSlot, SessionSnapshot};
use crate::json;
use crate::json::Json;
use crate::notes;
use crate::notes::{Answer, CallNote};
use crate::outside;
use crate::policy_eval;
use crate::policy_eval::{map_session_error_to_protocol_response, SurfaceGate};
use crate::protocol;
use crate::protocol::{protocol_http_error, protocol_http_success, ProtocolHttpResponse};
use crate::text;

verus! {

/// What is completed: a prompt by its name, or a resource by its address.
#[derive(Debug)]
pub struct CompletionReference {
    pub ref_type: String,
    pub name: Option<String>,
    pub uri: Option<String>,
}

/// The name of what is completed.
pub open spec fn reference_text(reference: CompletionReference) -> Seq<char> {
    match (reference.name, reference.uri) {
        (Some(n), _) => n@,
        (None, Some(u)) => u@,
        (None, None) => reference.ref_type@,
    }
}

/// The name of what is completed.
pub fn reference_name(reference: &CompletionReference) -> (r: String)
    ensures
        r@ == reference_text(*reference),
{
    match (&reference.name, &reference.uri) {
        (Some(n), _) => n.clone(),
        (None, Some(u)) => u.clone(),
        (None, None) => reference.ref_type.clone(),
    }
}

/// How often each session may ask for completions. Each session has a bucket of
/// tokens that fills up over time.
#[derive(Debug)]
pub struct CompletionLimiter {
    per_sec: Option<u64>,
    buckets: dashmap::DashMap<String, (u64, u64)>,
}

/// The bucket of a session.
pub open spec fn bucket_key(session_id: Option<Seq<char>>) -> Seq<char> {
    match session_id {
        Some(s) => s,
        None => "anon"@,
    }
}

/// A bucket before it is used: its tokens, and when it was last filled. A new
/// one is full.
pub open spec fn bucket_of(
    buckets: Map<Seq<char>, (u64, u64)>,
    key: Seq<char>,
    cap: u64,
    now: u64,
) -> (u64, u64) {
    if buckets.contains_key(key) {
        buckets[key]
    } else {
        (cap, now)
    }
}

/// A bucket after tokens were added, never above its size.
pub open spec fn filled(bucket: (u64, u64), cap: u64, refill: u64, now: u64) -> (u64, u64) {
    if refill > 0 {
        let sum = bucket.0 + refill;
        (
            if sum < cap {
                sum as u64
            } else {
                cap
            },
            now,
        )
    } else {
        bucket
    }
}

/// What a request for a token comes to: whether there is one, and the buckets
/// afterwards. Without a limit there always is one.
pub open spec fn drawn(
    limit: Option<u64>,
    buckets: Map<Seq<char>, (u64, u64)>,
    key: Seq<char>,
    refill: u64,
    now: u64,
) -> (bool, Map<Seq<char>, (u64, u64)>) {
    if limit is None || limit == Some(0u64) {
        (true, buckets)
    } else {
        let b = filled(bucket_of(buckets, key, limit->0, now), limit->0, refill, now);
        if b.0 > 0 {
            (true, buckets.insert(key, ((b.0 - 1) as u64, b.1)))
        } else {
            (false, buckets.insert(key, b))
        }
    }
}

impl CompletionLimiter {
    /// The limit that is set.
    pub closed spec fn limit(&self) -> Option<u64> {
        self.per_sec
    }

    /// The buckets of all sessions.
    pub closed spec fn contents(&self) -> Map<Seq<char>, (u64, u64)> {
        outside::dash_entries(self.buckets)
    }

    /// A limiter that lets everything pass.
    pub fn new() -> (r: CompletionLimiter)
        ensures
            r.limit() is None,
            r.contents() == Map::<Seq<char>, (u64, u64)>::empty(),
    {
        let r: CompletionLimiter = CompletionLimiter {
            per_sec: None,
            buckets: outside::dash_new(),
        };
        proof {
            assert(r.contents() =~= Map::<Seq<char>, (u64, u64)>::empty());
        }
        r
    }

    /// Sets how many completions a second each session may ask for. Zero, as no
    /// number, lets everything pass.
    pub fn set_completion_rate_limit(&mut self, per_sec: Option<u64>)
        ensures
            final(self).limit() == per_sec,
            final(self).contents() == old(self).contents(),
    {
        self.per_sec = per_sec;
    }

    /// When the bucket of a session was last filled.
    pub fn last_refill(&self, session_id: Option<&str>, now: u64) -> (r: u64)
        ensures
            r == bucket_of(self.contents(), bucket_key(session_id.deep_view()), 0, now).1,
    {
        let key: &str = match session_id {
            Some(s) => s,
            None => "anon",
        };
        match outside::dash_get(&self.buckets, key) {
            Some((_, last)) => last,
            None => now,
        }
    }

    /// Whether a session may ask for a completion, which takes a token from its
    /// bucket. `refill` is how many tokens have come since the last refill.
    pub fn allow_completion(&mut self, session_id: Option<&str>, refill: u64, now: u64) -> (r: bool)
        ensures
            final(self).limit() == old(self).limit(),
            (r, final(self).contents()) == drawn(
                old(self).limit(),
                old(self).contents(),
                bucket_key(session_id.deep_view()),
                refill,
                now,
            ),
    {
        let cap: u64 = match self.per_sec {
            None => {
                return true;
            },
            Some(c) => c,
        };
        if cap == 0 {
            return true;
        }
        let key: &str = match session_id {
            Some(s) => s,
            None => "anon",
        };
        let (mut tokens, mut last): (u64, u64) = match outside::dash_get(&self.buckets, key) {
            Some(b) => b,
            None => (cap, now),
        };
        if refill > 0 {
            tokens = match tokens.checked_add(refill) {
                Some(sum) => {
                    if sum < cap {
                        sum
                    } else {
                        cap
                    }
                },
                None => cap,
            };
            last = now;
        }
        let allowed: bool = tokens > 0;
        if allowed {
            tokens = tokens - 1;
        }
        outside::dash_insert(&mut self.buckets, key, (tokens, last));
        allowed
    }
}

/// What a request for a completion needs next.
#[derive(Debug)]
pub enum CompletionStep {
    /// The authorization of the request.
    Authorize(SurfaceGate),
    /// Nothing: the request is answered.
    Finish(ProtocolHttpResponse),
}

/// The answer to a request for a completion that is refused at once.
pub open spec fn completion_refusal(
    session: Result<context::SessionView, SessionAccessError>,
    allowed: bool,
    request_id: json::Tree,
) -> Option<protocol::ReplyView> {
    match session {
        Err(e) => Some(policy_eval::session_error_reply(e, Some(request_id))),
        Ok(_) => if allowed {
            None
        } else {
            Some(
                protocol::error_reply(
                    429,
                    Some(request_id),
                    -32099,
                    "completion rate limit exceeded"@,
                    None,
                ),
            )
        },
    }
}

/// The first step of a completion. `argument` is the JSON of what is to be
/// completed, and `refill` is how many tokens have come to the session's bucket.
/// A request without a session takes no token.
pub fn completion_start(
    limiter: &mut CompletionLimiter,
    request_id: &Json,
    reference: &CompletionReference,
    argument: Json,
    request_context: &RequestContext,
    slot: &mut SessionSlot,
    loaded: Result<SessionSnapshot, SessionAccessError>,
    has_tool_gates: bool,
    refill: u64,
    now: u64,
) -> (r: CompletionStep)
    ensures
        final(slot).looked_up(*old(slot), loaded),
        ({
            let session = context::usable(
                context::effective(old(slot).known(), loaded),
                true,
            );
            let (allowed, buckets) = drawn(
                old(limiter).limit(),
                old(limiter).contents(),
                bucket_key(request_context.session_id.deep_view()),
                refill,
                now,
            );
            &&& final(limiter).contents() == (if session is Err {
                old(limiter).contents()
            } else {
                buckets
            })
            &&& match completion_refusal(session, allowed, request_id.tree()) {
                Some(reply) => r matches CompletionStep::Finish(a) && a.deep_view() == reply,
                None => r matches CompletionStep::Authorize(g) && g.asks(
                    "completion"@,
                    "completion.complete.pre"@,
                    reference_text(*reference),
                    argument.tree(),
                    request_id.tree(),
                    has_tool_gates,
                ),
            }
        }),
        final(limiter).limit() == old(limiter).limit(),
{
    if let Err(e) = request_context.load_session_cached(slot, loaded, true) {
        return CompletionStep::Finish(
            map_session_error_to_protocol_response(e, Some(request_id.copy())),
        );
    }
    if !limiter.allow_completion(text::opt_as_str(&request_context.session_id), refill, now) {
        return CompletionStep::Finish(
            protocol_http_error(
                429,
                Some(request_id.copy()),
                -32099,
                "completion rate limit exceeded".to_owned(),
                None,
            ),
        );
    }
    CompletionStep::Authorize(
        SurfaceGate::new(
            "completion",
            "completion.complete.pre",
            reference_name(reference).as_str(),
            argument,
            request_id.copy(),
            has_tool_gates,
        ),
    )
}

/// What a completion offers.
#[derive(Debug)]
pub struct CompletionValues {
    pub values: Vec<String>,
    /// What else the completion's JSON says: how many values there are in all, and
    /// whether there are more.
    pub rest: Json,
}

/// The JSON of a completion: the values that it offers, and what else it says.
pub open spec fn completion_tree(values: Seq<Seq<char>>, rest: json::Tree) -> json::Tree {
    json::Tree::Object(
        (match rest {
            json::Tree::Object(m) => m,
            _ => Map::empty(),
        }).insert(
            "values"@,
            json::Tree::Array(Seq::new(values.len(), |i: int| json::Tree::Str(values[i]))),
        ),
    )
}

fn text_list(values: Vec<String>) -> (r: Json)
    ensures
        r.tree() == json::Tree::Array(
            Seq::new(values@.len(), |i: int| json::Tree::Str(values.deep_view()[i])),
        ),
{
    let ghost texts = values.deep_view();
    let mut out: Vec<Json> = Vec::new();
    let mut i: usize = 0;
    while i < values.len()
        invariant
            i <= values@.len(),
            texts == values.deep_view(),
            out@.len() == i,
            forall|j: int| 0 <= j < i ==> (#[trigger] out@[j]).tree() == json::Tree::Str(texts[j]),
        decreases values.len() - i,
    {
        out.push(Json::text(values[i].as_str()));
        i += 1;
    }
    proof {
        json::lemma_elements(out@);
        assert(json::elements(out@) =~= Seq::new(
            values@.len(),
            |i: int| json::Tree::Str(texts[i]),
        ));
    }
    Json::Array(out)
}

impl CompletionValues {
    /// A completion that offers the given values and says nothing else.
    pub fn of(values: Vec<String>) -> (r: CompletionValues)
        ensures
            r.values == values,
            r.rest.tree() == json::Tree::Object(Map::empty()),
            completion_tree(r.values.deep_view(), r.rest.tree()) == json::object_of(
                seq![
                    (
                        "values"@,
                        json::Tree::Array(
                            Seq::new(
                                values@.len(),
                                |i: int| json::Tree::Str(values.deep_view()[i]),
                            ),
                        ),
                    ),
                ],
            ),
    {
        proof {
            reveal_with_fuel(json::map_of, 2);
        }
        CompletionValues { values, rest: Json::object() }
    }

    /// The JSON of the completion.
    pub fn body(self) -> (r: Json)
        ensures
            r.tree() == completion_tree(self.values.deep_view(), self.rest.tree()),
    {
        let base: Json = if self.rest.is_object() {
            self.rest
        } else {
            Json::object()
        };
        base.with("values", text_list(self.values))
    }
}

/// The completion that is offered: what is configured, or else what a backend
/// said. A backend that failed, or took too long, offers nothing.
pub fn choose_completion(
    configured: CompletionValues,
    dynamic: Option<Result<CompletionValues, String>>,
) -> (r: CompletionValues)
    ensures
        r == (if configured.values@.len() == 0 && dynamic matches Some(Ok(v)) {
            dynamic->0->Ok_0
        } else {
            configured
        }),
{
    if configured.values.len() == 0 {
        if let Some(Ok(v)) = dynamic {
            return v;
        }
    }
    configured
}

/// Answers a request for the completion of an argument.
pub fn completion_response(
    request_id: Json,
    reference: &CompletionReference,
    argument_name: &str,
    completion: CompletionValues,
) -> (r: Answer)
    ensures
        r.deep_view() == notes::noted(
            protocol::success_reply(
                request_id.tree(),
                json::object_of(
                    seq![
                        (
                            "completion"@,
                            completion_tree(
                                completion.values.deep_view(),
                                completion.rest.tree(),
                            ),
                        ),
                    ],
                ),
            ),
            notes::NoteView::CompletionAsked {
                ref_type: reference.ref_type@,
                name: reference_text(*reference),
                argument: argument_name@,
                count: completion.values@.len(),
            },
        ),
{
    proof {
        reveal_with_fuel(json::map_of, 2);
    }
    let note: CallNote = CallNote::CompletionAsked {
        ref_type: reference.ref_type.clone(),
        name: reference_name(reference),
        argument: argument_name.to_owned(),
        count: completion.values.len() as u64,
    };
    Answer::noted(
        protocol_http_success(request_id, Json::object().with("completion", completion.body())),
        note,
    )
}

/// The longest that a backend may take to complete an argument, in milliseconds.
pub const DYNAMIC_COMPLETION_TIMEOUT_MS: u64 = 3_000;

/// A bucket never holds more tokens than its size, however long it is left
/// alone.
pub proof fn law_bucket_never_overflows(bucket: (u64, u64), cap: u64, refill: u64, now: u64)
    requires
        bucket.0 <= cap,
    ensures
        filled(bucket, cap, refill, now).0 <= cap,
        filled(bucket, cap, refill, now).0 >= bucket.0,
{
}

/// How many of a run of requests are let pass while no tokens come.
pub open spec fn granted(bucket: (u64, u64), cap: u64, now: u64, requests: nat) -> nat
    decreases requests,
{
    if requests == 0 {
        0
    } else {
        let before = granted(bucket, cap, now, (requests - 1) as nat);
        let left = filled(((bucket.0 - before) as u64, bucket.1), cap, 0, now);
        if left.0 > 0 {
            before + 1
        } else {
            before
        }
    }
}

/// While no tokens come, a session is let pass exactly as often as its bucket
/// has tokens.
pub proof fn law_each_request_takes_a_token(
    bucket: (u64, u64),
    cap: u64,
    now: u64,
    requests: nat,
)
    ensures
        granted(bucket, cap, now, requests) == (if requests < bucket.0 {
            requests
        } else {
            bucket.0 as nat
        }),
    decreases requests,
{
    if requests > 0 {
        law_each_request_takes_a_token(bucket, cap, now, (requests - 1) as nat);
    }
}

/// Each session has its own bucket: what one asks for leaves every other session as
/// it was, and those without a session share one.
pub proof fn law_sessions_have_their_own_bucket(
    limit: Option<u64>,
    buckets: Map<Seq<char>, (u64, u64)>,
    session: Option<Seq<char>>,
    other: Option<Seq<char>>,
    refill: u64,
    now: u64,
)
    requires
        session matches Some(s) ==> s != "anon"@,
        other matches Some(s) ==> s != "anon"@,
        session != other,
    ensures
        ({
            let after = drawn(limit, buckets, bucket_key(session), refill, now).1;
            drawn(limit, after, bucket_key(other), refill, now).0 == drawn(
                limit,
                buckets,
                bucket_key(other),
                refill,
                now,
            ).0
        }),
{
}

/// Without a limit, and with a limit of zero, every request passes; with one, a
/// request passes exactly where its bucket holds a token once it is filled, and takes
/// one; a new session has as many as the limit says, and a full bucket holds no more.
pub proof fn law_limits_are_what_is_set(
    limit: Option<u64>,
    buckets: Map<Seq<char>, (u64, u64)>,
    key: Seq<char>,
    refill: u64,
    now: u64,
)
    ensures
        limit is None || limit == Some(0u64) ==> drawn(limit, buckets, key, refill, now) == (
            true,
            buckets,
        ),
        limit matches Some(cap) ==> cap > 0 ==> ({
            let (passed, after) = drawn(limit, buckets, key, refill, now);
            let held: int = if buckets.contains_key(key) {
                buckets[key].0 as int
            } else {
                cap as int
            };
            let full: int = if refill == 0 {
                held
            } else if held + refill < cap {
                held + refill
            } else {
                cap as int
            };
            &&& passed <==> full > 0
            &&& after.contains_key(key)
            &&& after[key].0 == if passed {
                full - 1
            } else {
                full
            }
            &&& refill > 0 || !buckets.contains_key(key) ==> after[key].1 == now
            &&& refill == 0 && buckets.contains_key(key) ==> after[key].1 == buckets[key].1
        }),
{
}

/// What is completed is named by its name, or else by its address, or else by its
/// kind.
pub proof fn law_references_are_named(reference: CompletionReference)
    ensures
        reference.name matches Some(n) ==> reference_text(reference) == n@,
        reference.name is None ==> (reference.uri matches Some(u) ==> reference_text(reference)
            == u@),
        reference.name is None && reference.uri is None ==> reference_text(reference)
            == reference.ref_type@,
{
}

/// A request for a completion is refused at once exactly where its session cannot be
/// used or its bucket is empty, under its own id.
pub proof fn law_completions_are_limited(
    session: Result<context::SessionView, SessionAccessError>,
    allowed: bool,
    request_id: json::Tree,
)
    ensures
        completion_refusal(session, allowed, request_id) is None <==> session is Ok && allowed,
        session is Ok && !allowed ==> (completion_refusal(session, allowed, request_id)
            matches Some(a) && a.http_status == 429 && (a.body matches protocol::BodyView::Error {
            id,
            code,
            ..
        } && id == Some(request_id) && code == -32099)),
        session is Err ==> (completion_refusal(session, allowed, request_id) matches Some(a)
            && a.http_status != 429),
{
}

/// What is configured is offered where there is any, and what a backend says only
/// where nothing is configured and the backend answered.
pub proof fn law_configured_values_come_first(
    configured: CompletionValues,
    dynamic: Option<Result<CompletionValues, String>>,
    r: CompletionValues,
)
    requires
        call_ensures(choose_completion, (configured, dynamic), r),
    ensures
        configured.values@.len() > 0 ==> r == configured,
        configured.values@.len() == 0 ==> match dynamic {
            Some(Ok(v)) => r == v,
            _ => r == configured,
        },
{
}

/// A completion is told as a result under its request's id: the values in their
/// order, and all else that was said of them.
pub proof fn law_completions_are_told_whole(
    request_id: Json,
    reference: CompletionReference,
    argument: &str,
    completion: CompletionValues,
    field: Seq<char>,
    r: Answer,
)
    requires
        call_ensures(completion_response, (request_id, &reference, argument, completion), r),
        completion.rest.tree() is Object,
        field != "values"@,
    ensures
        r.deep_view().response.http_status == 200,
        r.deep_view().response.body matches protocol::BodyView::Success { id, result } && id
            == request_id.tree() && (json::tree_get(result, "completion"@) matches Some(c) && (
        json::tree_get(c, "values"@) matches Some(json::Tree::Array(v)) && v.len()
            == completion.values@.len() && forall|i: int|
            0 <= i < v.len() ==> #[trigger] v[i] == json::Tree::Str(completion.values@[i]@))
            && json::tree_get(c, field) == json::tree_get(completion.rest.tree(), field)),
{
    reveal_with_fuel(json::map_of, 2);
}

/// A completion is authorized under the name of what it completes, with the argument
/// as it came, where its session is operational and its bucket holds a token; a
/// request whose session cannot be used costs no token, and the limit stays as it was
/// set.
pub proof fn law_completions_are_authorized_as_themselves(
    limiter: &mut CompletionLimiter,
    request_id: Json,
    reference: CompletionReference,
    argument: Json,
    request_context: RequestContext,
    slot: &mut SessionSlot,
    loaded: Result<SessionSnapshot, SessionAccessError>,
    has_tool_gates: bool,
    refill: u64,
    now: u64,
    r: CompletionStep,
)
    requires
        call_ensures(
            completion_start,
            (
                limiter,
                &request_id,
                &reference,
                argument,
                &request_context,
                slot,
                loaded,
                has_tool_gates,
                refill,
                now,
            ),
            r,
        ),
        old(slot).known() is None,
    ensures
        ({
            let usable = loaded matches Ok(s) && s.phase is Operational;
            &&& !usable ==> r is Finish && final(limiter).contents() == old(limiter).contents()
            &&& usable && old(limiter).limit() is None ==> r is Authorize
            &&& usable && !(r is Authorize) ==> (r matches CompletionStep::Finish(a)
                && a.deep_view().http_status == 429)
            &&& r matches CompletionStep::Authorize(gate) ==> {
                &&& usable
                &&& gate.surface@ == "completion"@
                &&& gate.decision_point@ == "completion.complete.pre"@
                &&& reference.name matches Some(n) ==> gate.backend_name@ == n@
                &&& gate.arguments.tree() == argument.tree()
                &&& gate.request_id.tree() == request_id.tree()
                &&& gate.has_tool_gates == has_tool_gates
            }
            &&& r matches CompletionStep::Finish(a) ==> (a.deep_view().body
                matches protocol::BodyView::Error { id, .. } && id == Some(request_id.tree()))
        }),
        final(limiter).limit() == old(limiter).limit(),
{
}

/// What another session asks for changes nothing for a session: while no tokens come,
/// it is let pass where its own bucket holds one, and takes it. A session that just
/// came has as many as the limit says.
pub proof fn law_limiters_count_sessions_apart(
    limiter: &mut CompletionLimiter,
    next: &mut CompletionLimiter,
    session: &str,
    other: &str,
    now: u64,
    first: bool,
    second: bool,
)
    requires
        call_ensures(CompletionLimiter::allow_completion, (limiter, Some(other), 0u64, now), first),
        *old(next) == *final(limiter),
        call_ensures(CompletionLimiter::allow_completion, (next, Some(session), 0u64, now), second),
        session@ != other@,
        old(limiter).limit() matches Some(cap) && cap > 0,
    ensures
        !old(limiter).contents().contains_key(session@) ==> second && final(next).contents()[session@].0
            == old(limiter).limit()->0 - 1,
        old(limiter).contents().contains_key(session@) ==> (second <==> old(limiter).contents()[session@].0 > 0),
        second && old(limiter).contents().contains_key(session@) ==> final(next).contents()[session@].0 == old(limiter).contents()[session@].0 - 1,
        final(next).contents()[other@] == final(limiter).contents()[other@],
{
}

/// A completion goes on record with what was completed, which argument, and how many
/// values were offered.
pub proof fn law_completions_go_on_record(
    request_id: Json,
    reference: CompletionReference,
    argument: &str,
    completion: CompletionValues,
    r: Answer,
    values: Vec<String>,
    made: CompletionValues,
)
    requires
        call_ensures(completion_response, (request_id, &reference, argument, completion), r),
        call_ensures(CompletionValues::of, (values,), made),
    ensures
        r.deep_view().notes.len() == 1,
        r.deep_view().notes[0] matches notes::NoteView::CompletionAsked {
            ref_type,
            name,
            argument: asked,
            count,
        } && ref_type == reference.ref_type@ && asked == argument@ && count
            == completion.values@.len() && (reference.name matches Some(n) ==> name == n@),
        made.values == values,
        made.rest.tree() == json::Tree::Object(Map::empty()),
{
}

} // verus!
