//! An idempotency store over a key-value store.
//!
//! The decisions are functions of what the key-value store returned: what to
//! answer, what to write and for how long. [`Reservation`] drives a claim
//! against any key-value store; [`KvBackedIdempotencyStore`] runs the same
//! decisions over records in memory.
use vstd::prelude::*;
use vstd::string::*;

use crate::clock::Timestamp;
use crate::idempotency;
use crate::idempotency::store;
use crate::idempotency::store::{
    CachedOutcome, IdempotencyError, IdempotencyScope, IdempotencyStore, PeekOutcome,
    ReservationOutcome,
};
use crate::outside;
use crate::table::Table;
use crate::text;

verus! {

/// How long records are kept.
#[derive(Debug, Clone, Copy, PartialEq, Eq, Structural)]
pub struct IdempotencyRetentionPolicy {
    /// The life of a new record, in milliseconds.
    pub default_ttl_ms: u64,
    /// The longest life that may be configured, in milliseconds.
    pub max_ttl_ms: u64,
}

impl Default for IdempotencyRetentionPolicy {
    fn default() -> (r: IdempotencyRetentionPolicy)
        ensures
            r.default_ttl_ms == 86_400_000,
            r.max_ttl_ms == 604_800_000,
    {
        IdempotencyRetentionPolicy { default_ttl_ms: 86_400_000, max_ttl_ms: 604_800_000 }
    }
}

/// Whether the request of a record is running or answered.
#[derive(Debug, Clone, Copy, PartialEq, Eq, Structural)]
pub enum RecordState {
    InFlight,
    Completed,
}

/// The record of a key.
#[derive(Debug)]
pub struct IdempotencyRecord {
    /// The hash of the request body.
    pub request_hash: [u8; 32],
    /// Whether the request is running or answered.
    pub state: RecordState,
    /// The id of the claim.
    pub reservation_id: u128,
    /// The answer, once there is one.
    pub outcome: Option<CachedOutcome>,
    /// The tenant that owns the record.
    pub tenant_id: String,
    /// The identity that owns the record, as hexadecimal text of its hash.
    pub identity_hash_hex: String,
    /// The method of the request.
    pub method: String,
    /// The tool of the request.
    pub tool_name: String,
    /// When the key was claimed.
    pub created_at: Timestamp,
    /// When the record expires.
    pub expires_at: Timestamp,
    /// When the answer came. A record written without it counts as answered when
    /// it was claimed.
    pub completed_at: Option<Timestamp>,
    /// How often the answer has been replayed.
    pub replay_count: u32,
}

/// A record over plain values.
pub struct RecordView {
    pub request_hash: Seq<u8>,
    pub state: RecordState,
    pub reservation_id: u128,
    pub outcome: Option<store::OutcomeView>,
    pub tenant_id: Seq<char>,
    pub identity_hash_hex: Seq<char>,
    pub method: Seq<char>,
    pub tool_name: Seq<char>,
    pub created_at: Timestamp,
    pub expires_at: Timestamp,
    pub completed_at: Option<Timestamp>,
    pub replay_count: u32,
}

impl DeepView for IdempotencyRecord {
    type V = RecordView;

    open spec fn deep_view(&self) -> RecordView {
        RecordView {
            request_hash: self.request_hash@,
            state: self.state,
            reservation_id: self.reservation_id,
            outcome: self.outcome.deep_view(),
            tenant_id: self.tenant_id@,
            identity_hash_hex: self.identity_hash_hex@,
            method: self.method@,
            tool_name: self.tool_name@,
            created_at: self.created_at,
            expires_at: self.expires_at,
            completed_at: self.completed_at,
            replay_count: self.replay_count,
        }
    }
}

impl IdempotencyRecord {
    /// A record that denotes the same.
    pub fn copy(&self) -> (r: IdempotencyRecord)
        ensures
            r.deep_view() == self.deep_view(),
    {
        IdempotencyRecord {
            request_hash: copy_hash(&self.request_hash),
            state: self.state,
            reservation_id: self.reservation_id,
            outcome: match &self.outcome {
                Some(o) => Some(o.copy()),
                None => None,
            },
            tenant_id: self.tenant_id.clone(),
            identity_hash_hex: self.identity_hash_hex.clone(),
            method: self.method.clone(),
            tool_name: self.tool_name.clone(),
            created_at: self.created_at,
            expires_at: self.expires_at,
            completed_at: self.completed_at,
            replay_count: self.replay_count,
        }
    }
}

fn copy_hash(h: &[u8; 32]) -> (r: [u8; 32])
    ensures
        r@ == h@,
{
    *h
}

/// Whether two hashes agree.
pub fn hash_eq(a: &[u8; 32], b: &[u8; 32]) -> (r: bool)
    ensures
        r == (a@ == b@),
{
    let mut i: usize = 0;
    while i < 32
        invariant
            i <= 32,
            a@.len() == 32,
            b@.len() == 32,
            forall|j: int| 0 <= j < i ==> a@[j] == b@[j],
        decreases 32 - i,
    {
        if a[i] != b[i] {
            return false;
        }
        i += 1;
    }
    proof {
        assert(a@ =~= b@);
    }
    true
}

/// The bytes that stand for a scope: its four parts, separated by colons.
pub open spec fn scope_bytes(scope: store::ScopeView) -> Seq<u8> {
    vstd::utf8::encode_utf8(scope.tenant_id) + seq![58u8] + scope.identity_hash + seq![58u8]
        + vstd::utf8::encode_utf8(scope.method) + seq![58u8] + vstd::utf8::encode_utf8(
        scope.tool_name,
    )
}

/// The hash of a scope.
pub fn scope_hash(scope: &IdempotencyScope) -> (r: [u8; 32])
    ensures
        r@ == outside::blake3_digest(scope_bytes(scope.deep_view())),
{
    let mut data: Vec<u8> = Vec::new();
    idempotency::push_bytes(&mut data, scope.tenant_id.as_str().as_bytes());
    data.push(58);
    idempotency::push_bytes(&mut data, scope.identity_hash.as_slice());
    data.push(58);
    idempotency::push_bytes(&mut data, scope.method.as_str().as_bytes());
    data.push(58);
    idempotency::push_bytes(&mut data, scope.tool_name.as_str().as_bytes());
    proof {
        assert(data@ =~= scope_bytes(scope.deep_view()));
    }
    outside::blake3_hash(data.as_slice())
}

/// The key under which a record is stored.
pub open spec fn storage_key_text(scope: store::ScopeView, key: Seq<char>) -> Seq<char> {
    "idempotency/"@ + idempotency::short_hex(outside::blake3_digest(scope_bytes(scope))) + "/"@
        + key
}

/// Whether a record belongs to a scope.
pub open spec fn owned_by(record: RecordView, scope: store::ScopeView) -> bool {
    &&& record.tenant_id == scope.tenant_id
    &&& record.identity_hash_hex == outside::hex_text(scope.identity_hash)
    &&& record.method == scope.method
    &&& record.tool_name == scope.tool_name
}

/// The record that a scope may see: one that belongs to it.
pub open spec fn visible(found: Option<RecordView>, scope: store::ScopeView) -> Option<RecordView> {
    match found {
        Some(r) => if owned_by(r, scope) {
            Some(r)
        } else {
            None
        },
        None => None,
    }
}

/// A counter one higher, which stays at its top.
pub open spec fn bumped(n: u32) -> u32 {
    if n == u32::MAX {
        n
    } else {
        (n + 1) as u32
    }
}

/// When the call of a record was answered.
pub open spec fn answered_at(record: RecordView) -> Timestamp {
    match record.completed_at {
        Some(t) => t,
        None => record.created_at,
    }
}

/// What a record says to a request with the given body hash. An answer that was
/// given before is counted as a replay.
pub open spec fn verdict(record: RecordView, request_hash: Seq<u8>) -> Result<
    store::ReservationView,
    Seq<char>,
> {
    if record.request_hash != request_hash {
        Ok(store::ReservationView::Conflict { stored_request_hash: record.request_hash })
    } else {
        match record.state {
            RecordState::InFlight => Ok(
                store::ReservationView::InFlight { started_at: record.created_at },
            ),
            RecordState::Completed => match record.outcome {
                None => Err("completed record missing envelope"@),
                Some(o) => Ok(
                    store::ReservationView::Completed {
                        outcome: store::OutcomeView {
                            replay_count: bumped(record.replay_count),
                            ..o
                        },
                        completed_at: answered_at(record),
                    },
                ),
            },
        }
    }
}

/// The record after one more replay.
pub open spec fn replayed(record: RecordView) -> RecordView {
    RecordView { replay_count: bumped(record.replay_count), ..record }
}

/// A result over plain values.
pub open spec fn outcome_view(r: Result<ReservationOutcome, IdempotencyError>) -> Result<
    store::ReservationView,
    Seq<char>,
> {
    match r {
        Ok(o) => Ok(o.deep_view()),
        Err(e) => Err(e.detail()),
    }
}

fn classify(record: &IdempotencyRecord, request_hash: &[u8; 32]) -> (r: Result<
    ReservationOutcome,
    IdempotencyError,
>)
    ensures
        outcome_view(r) == verdict(record.deep_view(), request_hash@),
{
    if !hash_eq(&record.request_hash, request_hash) {
        return Ok(
            ReservationOutcome::Conflict { stored_request_hash: copy_hash(&record.request_hash) },
        );
    }
    match record.state {
        RecordState::InFlight => Ok(ReservationOutcome::InFlight { started_at: record.created_at }),
        RecordState::Completed => match &record.outcome {
            None => Err(
                IdempotencyError::Internal("completed record missing envelope".to_owned()),
            ),
            Some(o) => {
                let mut outcome: CachedOutcome = o.copy();
                outcome.replay_count = record.replay_count.saturating_add(1);
                let completed_at: Timestamp = match record.completed_at {
                    Some(t) => t,
                    None => record.created_at,
                };
                Ok(ReservationOutcome::Completed { outcome, completed_at })
            },
        },
    }
}

fn count_replay(record: IdempotencyRecord) -> (r: IdempotencyRecord)
    ensures
        r.deep_view() == replayed(record.deep_view()),
{
    let mut updated: IdempotencyRecord = record;
    updated.replay_count = updated.replay_count.saturating_add(1);
    updated
}

/// The number of milliseconds that a life counts as in date arithmetic, where
/// numbers beyond the signed range count as negative.
pub open spec fn signed_millis(ttl_ms: u64) -> int {
    if ttl_ms <= i64::MAX {
        ttl_ms as int
    } else {
        ttl_ms - 0x1_0000_0000_0000_0000
    }
}

fn to_signed_millis(ttl_ms: u64) -> (r: i64)
    ensures
        r == signed_millis(ttl_ms),
{
    if ttl_ms <= 0x7fff_ffff_ffff_ffff {
        ttl_ms as i64
    } else {
        let gap: u64 = u64::MAX - ttl_ms;
        -(gap as i64) - 1
    }
}

/// The life of a new record: the default, or a shorter override of at least one
/// millisecond.
pub open spec fn claim_ttl(policy: IdempotencyRetentionPolicy, ttl_override_ms: Option<u64>) -> u64 {
    match ttl_override_ms {
        Some(o) => {
            let bound = if o < 1 {
                1
            } else {
                o
            };
            if policy.default_ttl_ms < bound {
                policy.default_ttl_ms
            } else {
                bound
            }
        },
        None => policy.default_ttl_ms,
    }
}

/// How far in the future a new record expires, in milliseconds.
pub open spec fn claim_shift(ttl_ms: u64) -> int {
    if signed_millis(ttl_ms) < 1 {
        1
    } else {
        signed_millis(ttl_ms)
    }
}

/// A life of at least one millisecond.
pub open spec fn at_least_one(ttl_ms: u64) -> u64 {
    if ttl_ms < 1 {
        1
    } else {
        ttl_ms
    }
}

/// The record that a claim writes.
pub open spec fn claim_record(
    scope: store::ScopeView,
    request_hash: Seq<u8>,
    reservation_id: u128,
    created_at: Timestamp,
    expires_at: Timestamp,
) -> RecordView {
    RecordView {
        request_hash,
        state: RecordState::InFlight,
        reservation_id,
        outcome: None,
        tenant_id: scope.tenant_id,
        identity_hash_hex: outside::hex_text(scope.identity_hash),
        method: scope.method,
        tool_name: scope.tool_name,
        created_at,
        expires_at,
        completed_at: None,
        replay_count: 0,
    }
}

/// The record that an answer writes where the claim is gone.
pub open spec fn late_record(
    scope: store::ScopeView,
    request_hash: Seq<u8>,
    outcome: store::OutcomeView,
    reservation_id: u128,
    created_at: Timestamp,
    expires_at: Timestamp,
) -> RecordView {
    RecordView {
        request_hash,
        state: RecordState::Completed,
        reservation_id,
        outcome: Some(outcome),
        tenant_id: scope.tenant_id,
        identity_hash_hex: outside::hex_text(scope.identity_hash),
        method: scope.method,
        tool_name: scope.tool_name,
        created_at,
        expires_at,
        completed_at: Some(created_at),
        replay_count: 0,
    }
}

/// The record that an answer makes of a claim.
pub open spec fn answered(
    record: RecordView,
    outcome: store::OutcomeView,
    now: Timestamp,
) -> RecordView {
    RecordView {
        state: RecordState::Completed,
        outcome: Some(outcome),
        completed_at: Some(now),
        ..record
    }
}

/// What the key-value store found under a key, or why it could not say.
#[derive(Debug)]
pub enum KvRead {
    /// Nothing, or a record.
    Found(Option<IdempotencyRecord>),
    /// The key-value store failed.
    Failed(String),
    /// What was found is no record.
    Undecodable(String),
}

/// What a read shows to a scope.
pub open spec fn read_view(read: KvRead, scope: store::ScopeView) -> Result<
    Option<RecordView>,
    Seq<char>,
> {
    match read {
        KvRead::Found(found) => Ok(visible(found.deep_view(), scope)),
        KvRead::Failed(e) => Err("kv get: "@ + e@),
        KvRead::Undecodable(e) => Err("decode IdempotencyRecord: "@ + e@),
    }
}

fn internal(prefix: &str, detail: &str) -> (r: IdempotencyError)
    ensures
        r.detail() == prefix@ + detail@,
{
    let mut s: String = prefix.to_owned();
    s.append(detail);
    IdempotencyError::Internal(s)
}

/// The record that a scope may see in what was read.
pub fn read_record(scope: &IdempotencyScope, read: KvRead) -> (r: Result<
    Option<IdempotencyRecord>,
    IdempotencyError,
>)
    ensures
        match r {
            Ok(found) => read_view(read, scope.deep_view()) == Ok::<Option<RecordView>, Seq<char>>(
                found.deep_view(),
            ),
            Err(e) => read_view(read, scope.deep_view()) == Err::<Option<RecordView>, Seq<char>>(
                e.detail(),
            ),
        },
{
    match read {
        KvRead::Failed(e) => Err(internal("kv get: ", e.as_str())),
        KvRead::Undecodable(e) => Err(internal("decode IdempotencyRecord: ", e.as_str())),
        KvRead::Found(None) => Ok(None),
        KvRead::Found(Some(record)) => {
            let expected: String = outside::hex_encode(scope.identity_hash.as_slice());
            if text::str_eq(record.tenant_id.as_str(), scope.tenant_id.as_str()) && text::str_eq(
                record.identity_hash_hex.as_str(),
                expected.as_str(),
            ) && text::str_eq(record.method.as_str(), scope.method.as_str()) && text::str_eq(
                record.tool_name.as_str(),
                scope.tool_name.as_str(),
            ) {
                Ok(Some(record))
            } else {
                Ok(None)
            }
        },
    }
}

/// What to do after a record was looked at.
#[derive(Debug)]
pub enum PeekStep {
    /// Answer, and write nothing.
    Answer(Result<Option<PeekOutcome>, IdempotencyError>),
    /// Write the record back for the given time, whether that succeeds or not,
    /// and answer.
    Rewrite { record: IdempotencyRecord, ttl_ms: u64, outcome: PeekOutcome },
}

/// What a step answers, over plain values.
pub open spec fn peek_answer(step: PeekStep) -> Result<Option<store::ReservationView>, Seq<char>> {
    match step {
        PeekStep::Answer(Ok(o)) => Ok(o.deep_view()),
        PeekStep::Answer(Err(e)) => Err(e.detail()),
        PeekStep::Rewrite { outcome, .. } => Ok(Some(outcome.deep_view())),
    }
}

/// What a look answers, given the record that the scope may see.
pub open spec fn peek_result(seen: Option<RecordView>, request_hash: Seq<u8>) -> Result<
    Option<store::ReservationView>,
    Seq<char>,
> {
    match seen {
        None => Ok(None),
        Some(r) => match verdict(r, request_hash) {
            Ok(v) => Ok(Some(v)),
            Err(e) => Err(e),
        },
    }
}

/// Whether a record is written back with a higher replay count: where it is
/// answered as completed.
pub open spec fn counts_replay(seen: Option<RecordView>, request_hash: Seq<u8>) -> bool {
    seen matches Some(r) && verdict(r, request_hash) matches Ok(
        store::ReservationView::Completed { .. },
    )
}

/// Decides what a look answers and writes, given what was read.
pub fn peek_step(
    scope: &IdempotencyScope,
    request_hash: &[u8; 32],
    read: KvRead,
    now: Timestamp,
) -> (r: PeekStep)
    ensures
        match read_view(read, scope.deep_view()) {
            Err(e) => peek_answer(r) == Err::<Option<store::ReservationView>, Seq<char>>(e)
                && r is Answer,
            Ok(seen) => peek_answer(r) == peek_result(seen, request_hash@) && match r {
                PeekStep::Answer(_) => !counts_replay(seen, request_hash@),
                PeekStep::Rewrite { record, ttl_ms, .. } => counts_replay(seen, request_hash@)
                    && record.deep_view() == replayed(seen->0) && ttl_ms
                    == record.expires_at.millis_since(now),
            },
        },
{
    let existing: IdempotencyRecord = match read_record(scope, read) {
        Err(e) => {
            return PeekStep::Answer(Err(e));
        },
        Ok(None) => {
            return PeekStep::Answer(Ok(None));
        },
        Ok(Some(r)) => r,
    };
    match classify(&existing, request_hash) {
        Err(e) => PeekStep::Answer(Err(e)),
        Ok(ReservationOutcome::Reserved { reservation_id }) => PeekStep::Answer(Ok(None)),
        Ok(ReservationOutcome::InFlight { started_at }) => PeekStep::Answer(
            Ok(Some(PeekOutcome::InFlight { started_at })),
        ),
        Ok(ReservationOutcome::Conflict { stored_request_hash }) => PeekStep::Answer(
            Ok(Some(PeekOutcome::Conflict { stored_request_hash })),
        ),
        Ok(ReservationOutcome::Completed { outcome, completed_at }) => {
            let record: IdempotencyRecord = count_replay(existing);
            let ttl_ms: u64 = KvBackedIdempotencyStore::remaining_ttl(&record, now);
            PeekStep::Rewrite {
                record,
                ttl_ms,
                outcome: PeekOutcome::Completed { outcome, completed_at },
            }
        },
    }
}

/// A claim that is under way.
#[derive(Debug)]
pub struct Reservation {
    /// Whose claim it is.
    pub scope: IdempotencyScope,
    /// The hash of the request body.
    pub request_hash: [u8; 32],
    /// The record that the claim writes.
    pub record: IdempotencyRecord,
    /// How long the record is to live in the key-value store, in milliseconds.
    pub ttl_ms: u64,
    /// How often the claim may still be tried.
    pub tries_left: u8,
}

/// What to do next to reserve a key.
#[derive(Debug)]
pub enum ReserveStep {
    /// Answer.
    Finish(Result<ReservationOutcome, IdempotencyError>),
    /// Write the record back for the given time, whether that succeeds or not,
    /// and answer.
    Rewrite { record: IdempotencyRecord, ttl_ms: u64, outcome: ReservationOutcome },
    /// Write the claim's record if the key is free.
    Claim(Reservation),
    /// The key was taken: read who has it.
    ReadWinner(Reservation),
}

/// How often a claim is tried.
pub const CLAIM_TRIES: u8 = 3;

/// A claim over plain values.
pub struct ClaimView {
    pub scope: store::ScopeView,
    pub request_hash: Seq<u8>,
    pub record: RecordView,
    pub ttl_ms: u64,
    pub tries_left: u8,
}

impl DeepView for Reservation {
    type V = ClaimView;

    open spec fn deep_view(&self) -> ClaimView {
        ClaimView {
            scope: self.scope.deep_view(),
            request_hash: self.request_hash@,
            record: self.record.deep_view(),
            ttl_ms: self.ttl_ms,
            tries_left: self.tries_left,
        }
    }
}

/// A step over plain values.
pub enum StepView {
    Finish(Result<store::ReservationView, Seq<char>>),
    Rewrite { record: RecordView, ttl_ms: int, outcome: store::ReservationView },
    Claim(ClaimView),
    ReadWinner(ClaimView),
}

impl DeepView for ReserveStep {
    type V = StepView;

    open spec fn deep_view(&self) -> StepView {
        match self {
            ReserveStep::Finish(r) => StepView::Finish(outcome_view(*r)),
            ReserveStep::Rewrite { record, ttl_ms, outcome } => StepView::Rewrite {
                record: record.deep_view(),
                ttl_ms: *ttl_ms as int,
                outcome: outcome.deep_view(),
            },
            ReserveStep::Claim(c) => StepView::Claim(c.deep_view()),
            ReserveStep::ReadWinner(c) => StepView::ReadWinner(c.deep_view()),
        }
    }
}

/// Whether a claim made at a time stays within the calendar.
pub open spec fn claim_fits(
    policy: IdempotencyRetentionPolicy,
    ttl_override_ms: Option<u64>,
    now: Timestamp,
) -> bool {
    now.can_shift(claim_shift(claim_ttl(policy, ttl_override_ms)))
}

/// The detail of the error where a record would expire past the calendar.
pub open spec fn out_of_range() -> Seq<char> {
    "record expiry out of range"@
}

fn range_error() -> (r: IdempotencyError)
    ensures
        r.detail() == out_of_range(),
{
    IdempotencyError::Internal("record expiry out of range".to_owned())
}

/// What follows where a record was seen: its verdict is the answer, and a
/// replayed record is written back with its count raised, for what is left of
/// its life.
pub open spec fn seen_step(seen: RecordView, request_hash: Seq<u8>, now: Timestamp) -> StepView {
    match verdict(seen, request_hash) {
        Ok(store::ReservationView::Completed { outcome, completed_at }) => StepView::Rewrite {
            record: replayed(seen),
            ttl_ms: seen.expires_at.millis_since(now),
            outcome: store::ReservationView::Completed { outcome, completed_at },
        },
        v => StepView::Finish(v),
    }
}

fn answer_seen(existing: IdempotencyRecord, request_hash: &[u8; 32], now: Timestamp) -> (r:
    ReserveStep)
    ensures
        r.deep_view() == seen_step(existing.deep_view(), request_hash@, now),
{
    match classify(&existing, request_hash) {
        Ok(ReservationOutcome::Completed { outcome, completed_at }) => {
            let record: IdempotencyRecord = count_replay(existing);
            let ttl_ms: u64 = KvBackedIdempotencyStore::remaining_ttl(&record, now);
            ReserveStep::Rewrite {
                record,
                ttl_ms,
                outcome: ReservationOutcome::Completed { outcome, completed_at },
            }
        },
        answer => ReserveStep::Finish(answer),
    }
}

/// Decides what a reservation answers, writes or claims, given what was read
/// first. A claim whose record would expire past the calendar is an error.
pub fn reserve_first(
    policy: IdempotencyRetentionPolicy,
    scope: &IdempotencyScope,
    request_hash: &[u8; 32],
    ttl_override_ms: Option<u64>,
    read: KvRead,
    now: Timestamp,
    reservation_id: u128,
) -> (r: ReserveStep)
    ensures
        match read_view(read, scope.deep_view()) {
            Err(e) => r.deep_view() == StepView::Finish(Err(e)),
            Ok(Some(seen)) => r.deep_view() == seen_step(seen, request_hash@, now),
            Ok(None) => if claim_fits(policy, ttl_override_ms, now) {
                r matches ReserveStep::Claim(c) && c.scope.deep_view() == scope.deep_view()
                    && c.request_hash@ == request_hash@ && c.tries_left == CLAIM_TRIES && c.ttl_ms == at_least_one(
                    claim_ttl(policy, ttl_override_ms),
                ) && c.record.expires_at.total() == now.total()
                    + claim_shift(claim_ttl(policy, ttl_override_ms)) * 1_000_000
                    && c.record.deep_view() == claim_record(
                    scope.deep_view(),
                    request_hash@,
                    reservation_id,
                    now,
                    c.record.expires_at,
                )
            } else {
                r.deep_view() == StepView::Finish(Err(out_of_range()))
            },
        },
{
    match read_record(scope, read) {
        Err(e) => ReserveStep::Finish(Err(e)),
        Ok(Some(existing)) => answer_seen(existing, request_hash, now),
        Ok(None) => {
            let ttl: u64 = claim_ttl_of(policy, ttl_override_ms);
            let signed: i64 = to_signed_millis(ttl);
            let shift: i64 = if signed < 1 {
                1
            } else {
                signed
            };
            if !now.fits_shift(shift) {
                return ReserveStep::Finish(Err(range_error()));
            }
            let record: IdempotencyRecord = IdempotencyRecord {
                request_hash: copy_hash(request_hash),
                state: RecordState::InFlight,
                reservation_id,
                outcome: None,
                tenant_id: scope.tenant_id.clone(),
                identity_hash_hex: outside::hex_encode(scope.identity_hash.as_slice()),
                method: scope.method.clone(),
                tool_name: scope.tool_name.clone(),
                created_at: now,
                expires_at: now.shift_millis(shift),
                completed_at: None,
                replay_count: 0,
            };
            ReserveStep::Claim(
                Reservation {
                    scope: copy_scope(scope),
                    request_hash: copy_hash(request_hash),
                    record,
                    ttl_ms: if ttl < 1 {
                        1
                    } else {
                        ttl
                    },
                    tries_left: CLAIM_TRIES,
                },
            )
        },
    }
}

fn copy_scope(scope: &IdempotencyScope) -> (r: IdempotencyScope)
    ensures
        r.deep_view() == scope.deep_view(),
{
    IdempotencyScope {
        tenant_id: scope.tenant_id.clone(),
        identity_hash: copy_hash(&scope.identity_hash),
        method: scope.method.clone(),
        tool_name: scope.tool_name.clone(),
    }
}

/// What follows a try to claim the key: the winner has it, and a loser reads
/// who has.
pub open spec fn claim_step(claim: ClaimView, claimed: Result<bool, Seq<char>>) -> StepView {
    match claimed {
        Err(e) => StepView::Finish(Err("kv put_if_absent: "@ + e)),
        Ok(true) => StepView::Finish(
            Ok(store::ReservationView::Reserved { reservation_id: claim.record.reservation_id }),
        ),
        Ok(false) => StepView::ReadWinner(
            ClaimView {
                tries_left: if claim.tries_left > 0 {
                    (claim.tries_left - 1) as u8
                } else {
                    0
                },
                ..claim
            },
        ),
    }
}

/// What follows the look at the record that kept a claim out. One that is gone
/// leads to another try, and to `InFlight` once none is left.
pub open spec fn winner_step(
    claim: ClaimView,
    read: Result<Option<RecordView>, Seq<char>>,
    now: Timestamp,
) -> StepView {
    match read {
        Err(e) => StepView::Finish(Err(e)),
        Ok(Some(seen)) => seen_step(seen, claim.request_hash, now),
        Ok(None) => if claim.tries_left > 0 {
            StepView::Claim(claim)
        } else {
            StepView::Finish(
                Ok(store::ReservationView::InFlight { started_at: claim.record.created_at }),
            )
        },
    }
}

impl Reservation {
    /// Decides what follows a try to claim the key.
    pub fn on_claim(self, claimed: Result<bool, String>) -> (r: ReserveStep)
        ensures
            r.deep_view() == claim_step(
                self.deep_view(),
                match claimed {
                    Ok(b) => Ok(b),
                    Err(e) => Err(e@),
                },
            ),
    {
        match claimed {
            Err(e) => ReserveStep::Finish(Err(internal("kv put_if_absent: ", e.as_str()))),
            Ok(true) => ReserveStep::Finish(
                Ok(ReservationOutcome::Reserved { reservation_id: self.record.reservation_id }),
            ),
            Ok(false) => {
                let mut next: Reservation = self;
                next.tries_left = next.tries_left.saturating_sub(1);
                ReserveStep::ReadWinner(next)
            },
        }
    }

    /// Decides what follows the look, at a time, at the record that kept the
    /// claim out.
    pub fn on_winner(self, read: KvRead, now: Timestamp) -> (r: ReserveStep)
        ensures
            r.deep_view() == winner_step(
                self.deep_view(),
                read_view(read, self.scope.deep_view()),
                now,
            ),
    {
        match read_record(&self.scope, read) {
            Err(e) => ReserveStep::Finish(Err(e)),
            Ok(Some(seen)) => answer_seen(seen, &self.request_hash, now),
            Ok(None) => {
                if self.tries_left > 0 {
                    ReserveStep::Claim(self)
                } else {
                    ReserveStep::Finish(
                        Ok(ReservationOutcome::InFlight { started_at: self.record.created_at }),
                    )
                }
            },
        }
    }
}

/// Whether a record written at a time for an answer without a claim stays
/// within the calendar.
pub open spec fn late_fits(policy: IdempotencyRetentionPolicy, now: Timestamp) -> bool {
    now.can_shift(signed_millis(policy.default_ttl_ms))
}

/// Decides what an answer writes and for how long, given what was read. Where
/// no record is seen, a life that reaches past the calendar is an error.
pub fn complete_step(
    policy: IdempotencyRetentionPolicy,
    scope: &IdempotencyScope,
    request_hash: &[u8; 32],
    outcome: CachedOutcome,
    read: KvRead,
    now: Timestamp,
    reservation_id: u128,
) -> (r: Result<(IdempotencyRecord, u64), IdempotencyError>)
    ensures
        match read_view(read, scope.deep_view()) {
            Err(e) => r matches Err(d) && d.detail() == e,
            Ok(Some(seen)) => r matches Ok((record, ttl_ms)) && record.deep_view() == answered(
                seen,
                outcome.deep_view(),
                now,
            ) && ttl_ms == seen.expires_at.millis_since(now),
            Ok(None) => if late_fits(policy, now) {
                r matches Ok((record, ttl_ms)) && record.expires_at.total() == now.total()
                    + signed_millis(policy.default_ttl_ms) * 1_000_000 && record.deep_view()
                    == late_record(
                    scope.deep_view(),
                    request_hash@,
                    outcome.deep_view(),
                    reservation_id,
                    now,
                    record.expires_at,
                ) && ttl_ms == at_least_one(policy.default_ttl_ms)
            } else {
                r matches Err(d) && d.detail() == out_of_range()
            },
        },
{
    match read_record(scope, read) {
        Err(e) => Err(e),
        Ok(Some(existing)) => {
            let mut record: IdempotencyRecord = existing;
            record.state = RecordState::Completed;
            record.outcome = Some(outcome);
            record.completed_at = Some(now);
            let ttl_ms: u64 = KvBackedIdempotencyStore::remaining_ttl(&record, now);
            Ok((record, ttl_ms))
        },
        Ok(None) => {
            let shift: i64 = to_signed_millis(policy.default_ttl_ms);
            if !now.fits_shift(shift) {
                return Err(range_error());
            }
            let record: IdempotencyRecord = IdempotencyRecord {
                request_hash: copy_hash(request_hash),
                state: RecordState::Completed,
                reservation_id,
                outcome: Some(outcome),
                tenant_id: scope.tenant_id.clone(),
                identity_hash_hex: outside::hex_encode(scope.identity_hash.as_slice()),
                method: scope.method.clone(),
                tool_name: scope.tool_name.clone(),
                created_at: now,
                expires_at: now.shift_millis(shift),
                completed_at: Some(now),
                replay_count: 0,
            };
            let ttl_ms: u64 = if policy.default_ttl_ms < 1 {
                1
            } else {
                policy.default_ttl_ms
            };
            Ok((record, ttl_ms))
        },
    }
}

/// The error of a write that failed.
pub fn put_error(detail: &str) -> (r: IdempotencyError)
    ensures
        r.detail() == "kv put: "@ + detail@,
{
    internal("kv put: ", detail)
}

/// The key under which a record is stored.
pub fn storage_key(scope: &IdempotencyScope, key: &str) -> (r: String)
    ensures
        r@ == storage_key_text(scope.deep_view(), key@),
{
    let digest: [u8; 32] = scope_hash(scope);
    let mut s: String = "idempotency/".to_owned();
    s.append(idempotency::short_hex_of(&digest).as_str());
    s.append("/");
    s.append(key);
    s
}

/// A record in memory, and the end of its life in nanoseconds since the epoch.
#[derive(Debug)]
pub struct KvCell {
    pub record: IdempotencyRecord,
    pub deadline: i128,
}

/// A record in memory over plain values.
pub struct CellView {
    pub record: RecordView,
    pub deadline: int,
}

impl DeepView for KvCell {
    type V = CellView;

    open spec fn deep_view(&self) -> CellView {
        CellView { record: self.record.deep_view(), deadline: self.deadline as int }
    }
}

/// The record that a key has at a time: one whose life has not ended.
pub open spec fn live(cells: Map<Seq<char>, CellView>, key: Seq<char>, now: Timestamp) -> Option<
    RecordView,
> {
    if cells.contains_key(key) && now.total() < cells[key].deadline {
        Some(cells[key].record)
    } else {
        None
    }
}

/// The record that a scope sees under one of its keys at a time.
pub open spec fn seen(
    cells: Map<Seq<char>, CellView>,
    scope: store::ScopeView,
    key: Seq<char>,
    now: Timestamp,
) -> Option<RecordView> {
    visible(live(cells, storage_key_text(scope, key), now), scope)
}

/// A record written at a time for so many milliseconds.
pub open spec fn cell(record: RecordView, now: Timestamp, ttl_ms: int) -> CellView {
    CellView { record, deadline: now.total() + ttl_ms * 1_000_000 }
}

/// The cells after a look or a reservation: a replayed record is written back
/// with its count raised, for what is left of its life.
pub open spec fn after_replay(
    cells: Map<Seq<char>, CellView>,
    scope: store::ScopeView,
    key: Seq<char>,
    request_hash: Seq<u8>,
    now: Timestamp,
) -> Map<Seq<char>, CellView> {
    let found = seen(cells, scope, key, now);
    if counts_replay(found, request_hash) {
        cells.insert(
            storage_key_text(scope, key),
            cell(replayed(found->0), now, found->0.expires_at.millis_since(now)),
        )
    } else {
        cells
    }
}

/// What a reservation answers.
pub open spec fn reserve_result(
    cells: Map<Seq<char>, CellView>,
    policy: IdempotencyRetentionPolicy,
    scope: store::ScopeView,
    key: Seq<char>,
    request_hash: Seq<u8>,
    ttl_override_ms: Option<u64>,
    now: Timestamp,
    reservation_id: u128,
) -> Result<store::ReservationView, Seq<char>> {
    match seen(cells, scope, key, now) {
        Some(r) => verdict(r, request_hash),
        None => if !claim_fits(policy, ttl_override_ms, now) {
            Err(out_of_range())
        } else if live(cells, storage_key_text(scope, key), now) is Some {
            Ok(store::ReservationView::InFlight { started_at: now })
        } else {
            Ok(store::ReservationView::Reserved { reservation_id })
        },
    }
}

/// An idempotency store that keeps its records in memory.
#[derive(Debug)]
pub struct KvBackedIdempotencyStore {
    cells: Table<KvCell>,
    policy: IdempotencyRetentionPolicy,
}

impl KvBackedIdempotencyStore {
    /// The records, by storage key.
    pub closed spec fn cells(&self) -> Map<Seq<char>, CellView> {
        self.cells@.map_values(|c: KvCell| c.deep_view())
    }

    /// How long records are kept.
    pub closed spec fn policy(&self) -> IdempotencyRetentionPolicy {
        self.policy
    }

    /// A store without records.
    pub fn new_in_memory(policy: IdempotencyRetentionPolicy) -> (r: KvBackedIdempotencyStore)
        ensures
            r.cells() == Map::<Seq<char>, CellView>::empty(),
            r.policy() == policy,
    {
        let r: KvBackedIdempotencyStore = KvBackedIdempotencyStore { cells: Table::new(), policy };
        proof {
            assert(r.cells() =~= Map::<Seq<char>, CellView>::empty());
        }
        r
    }

    /// A store without records, with the default policy.
    pub fn new_in_memory_default() -> (r: KvBackedIdempotencyStore)
        ensures
            r.cells() == Map::<Seq<char>, CellView>::empty(),
            r.policy().default_ttl_ms == 86_400_000,
            r.policy().max_ttl_ms == 604_800_000,
    {
        KvBackedIdempotencyStore::new_in_memory(IdempotencyRetentionPolicy::default())
    }

    /// How long a record has left at a time, in milliseconds. A record past its
    /// life has one left, so that it is still written with an end.
    pub fn remaining_ttl(record: &IdempotencyRecord, now: Timestamp) -> (r: u64)
        ensures
            r == record.expires_at.millis_since(now),
    {
        record.expires_at.wait_from(now)
    }

    fn read(&self, key: &str, now: Timestamp) -> (r: KvRead)
        ensures
            r matches KvRead::Found(found) && found.deep_view() == live(self.cells(), key@, now),
    {
        match self.cells.get(key) {
            Some(c) => {
                if now.total_nanos() < c.deadline {
                    KvRead::Found(Some(c.record.copy()))
                } else {
                    KvRead::Found(None)
                }
            },
            None => KvRead::Found(None),
        }
    }

    fn write(&mut self, key: &str, record: IdempotencyRecord, now: Timestamp, ttl_ms: u64)
        ensures
            final(self).cells() == old(self).cells().insert(
                key@,
                cell(record.deep_view(), now, ttl_ms as int),
            ),
            final(self).policy() == old(self).policy(),
    {
        let deadline: i128 = now.total_nanos() + ttl_ms as i128 * 1_000_000;
        self.cells.put(key, KvCell { record, deadline });
        proof {
            assert(self.cells() =~= old(self).cells().insert(
                key@,
                cell(record.deep_view(), now, ttl_ms as int),
            ));
        }
    }

    /// Looks at the record of a key at a given time.
    pub fn peek_at(
        &mut self,
        scope: &IdempotencyScope,
        key: &str,
        request_hash: &[u8; 32],
        now: Timestamp,
    ) -> (r: Result<Option<PeekOutcome>, IdempotencyError>)
        ensures
            peek_answer(PeekStep::Answer(r)) == peek_result(
                seen(old(self).cells(), scope.deep_view(), key@, now),
                request_hash@,
            ),
            final(self).cells() == after_replay(
                old(self).cells(),
                scope.deep_view(),
                key@,
                request_hash@,
                now,
            ),
            final(self).policy() == old(self).policy(),
    {
        let k: String = storage_key(scope, key);
        let read: KvRead = self.read(k.as_str(), now);
        match peek_step(scope, request_hash, read, now) {
            PeekStep::Answer(r) => r,
            PeekStep::Rewrite { record, ttl_ms, outcome } => {
                self.write(k.as_str(), record, now, ttl_ms);
                Ok(Some(outcome))
            },
        }
    }

    /// Claims a key at a given time, with a given id, or returns what its
    /// record says. A claim whose record would expire past the calendar is an
    /// error.
    pub fn reserve_or_get_at(
        &mut self,
        scope: &IdempotencyScope,
        key: &str,
        request_hash: &[u8; 32],
        ttl_override_ms: Option<u64>,
        now: Timestamp,
        reservation_id: u128,
    ) -> (r: Result<ReservationOutcome, IdempotencyError>)
        ensures
            outcome_view(r) == reserve_result(
                old(self).cells(),
                old(self).policy(),
                scope.deep_view(),
                key@,
                request_hash@,
                ttl_override_ms,
                now,
                reservation_id,
            ),
            reserved(
                old(self).cells(),
                final(self).cells(),
                old(self).policy(),
                scope.deep_view(),
                key@,
                request_hash@,
                ttl_override_ms,
                now,
                reservation_id,
            ),
            final(self).policy() == old(self).policy(),
    {
        let k: String = storage_key(scope, key);
        let read: KvRead = self.read(k.as_str(), now);
        let free: bool = match &read {
            KvRead::Found(None) => true,
            _ => false,
        };
        let first: ReserveStep = reserve_first(
            self.policy,
            scope,
            request_hash,
            ttl_override_ms,
            read,
            now,
            reservation_id,
        );
        let mut claim: Reservation = match first {
            ReserveStep::Finish(r) => {
                return r;
            },
            ReserveStep::Rewrite { record, ttl_ms, outcome } => {
                self.write(k.as_str(), record, now, ttl_ms);
                return Ok(outcome);
            },
            ReserveStep::ReadWinner(c) => c,
            ReserveStep::Claim(c) => c,
        };
        if free {
            let record: IdempotencyRecord = claim.record.copy();
            self.write(k.as_str(), record, now, claim.ttl_ms);
            return Ok(ReservationOutcome::Reserved { reservation_id });
        }
        while claim.tries_left > 0
            invariant
                self.cells() == old(self).cells(),
                self.policy() == old(self).policy(),
                k@ == storage_key_text(scope.deep_view(), key@),
                claim.scope.deep_view() == scope.deep_view(),
                claim.record.created_at == now,
                claim_fits(self.policy(), ttl_override_ms, now),
                seen(self.cells(), scope.deep_view(), key@, now) is None,
                live(self.cells(), k@, now) is Some,
            decreases claim.tries_left,
        {
            let lost: ReserveStep = claim.on_claim(Ok(false));
            let reader: Reservation = match lost {
                ReserveStep::ReadWinner(c) => c,
                ReserveStep::Claim(c) => c,
                ReserveStep::Finish(r) => {
                    return r;
                },
                ReserveStep::Rewrite { record, ttl_ms, outcome } => {
                    return Ok(outcome);
                },
            };
            let winner: KvRead = self.read(k.as_str(), now);
            claim = match reader.on_winner(winner, now) {
                ReserveStep::Claim(c) => c,
                ReserveStep::ReadWinner(c) => c,
                ReserveStep::Finish(r) => {
                    return r;
                },
                ReserveStep::Rewrite { record, ttl_ms, outcome } => {
                    return Ok(outcome);
                },
            };
        }
        Ok(ReservationOutcome::InFlight { started_at: claim.record.created_at })
    }

    /// Writes the answer of a key at a given time. `reservation_id` is used
    /// where the claim is gone; there a life that reaches past the calendar is
    /// an error.
    pub fn complete_at(
        &mut self,
        scope: &IdempotencyScope,
        key: &str,
        request_hash: &[u8; 32],
        outcome: CachedOutcome,
        now: Timestamp,
        reservation_id: u128,
    ) -> (r: Result<(), IdempotencyError>)
        ensures
            match r {
                Ok(_) => completes(old(self).cells(), old(self).policy(), scope.deep_view(), key@, now)
                    && completed(
                    old(self).cells(),
                    final(self).cells(),
                    old(self).policy(),
                    scope.deep_view(),
                    key@,
                    request_hash@,
                    outcome.deep_view(),
                    now,
                    reservation_id,
                ),
                Err(e) => !completes(
                    old(self).cells(),
                    old(self).policy(),
                    scope.deep_view(),
                    key@,
                    now,
                ) && e.detail() == out_of_range() && final(self).cells() == old(self).cells(),
            },
            final(self).policy() == old(self).policy(),
    {
        let k: String = storage_key(scope, key);
        let read: KvRead = self.read(k.as_str(), now);
        match complete_step(self.policy, scope, request_hash, outcome, read, now, reservation_id) {
            Err(e) => Err(e),
            Ok((record, ttl_ms)) => {
                self.write(k.as_str(), record, now, ttl_ms);
                Ok(())
            },
        }
    }
}

/// How a successful claim changes the cells: it writes a record that is in
/// flight and expires with its time to live.
pub open spec fn claimed(
    before: Map<Seq<char>, CellView>,
    after: Map<Seq<char>, CellView>,
    policy: IdempotencyRetentionPolicy,
    scope: store::ScopeView,
    key: Seq<char>,
    request_hash: Seq<u8>,
    ttl_override_ms: Option<u64>,
    now: Timestamp,
    reservation_id: u128,
) -> bool {
    let k = storage_key_text(scope, key);
    let ttl = claim_ttl(policy, ttl_override_ms);
    let record = after[k].record;
    &&& after == before.insert(k, after[k])
    &&& after[k] == cell(record, now, at_least_one(ttl) as int)
    &&& record == claim_record(scope, request_hash, reservation_id, now, record.expires_at)
    &&& record.expires_at.total() == now.total() + claim_shift(ttl) * 1_000_000
}

/// How a reservation changes the cells: a claim writes its record, a replay
/// raises a count, and anything else leaves them as they were.
pub open spec fn reserved(
    before: Map<Seq<char>, CellView>,
    after: Map<Seq<char>, CellView>,
    policy: IdempotencyRetentionPolicy,
    scope: store::ScopeView,
    key: Seq<char>,
    request_hash: Seq<u8>,
    ttl_override_ms: Option<u64>,
    now: Timestamp,
    reservation_id: u128,
) -> bool {
    if reserve_result(
        before,
        policy,
        scope,
        key,
        request_hash,
        ttl_override_ms,
        now,
        reservation_id,
    ) matches Ok(store::ReservationView::Reserved { .. }) {
        claimed(
            before,
            after,
            policy,
            scope,
            key,
            request_hash,
            ttl_override_ms,
            now,
            reservation_id,
        )
    } else {
        after == after_replay(before, scope, key, request_hash, now)
    }
}

/// Whether an answer can be written at a time: always where the scope sees a
/// record, and otherwise where a new one expires within the calendar.
pub open spec fn completes(
    cells: Map<Seq<char>, CellView>,
    policy: IdempotencyRetentionPolicy,
    scope: store::ScopeView,
    key: Seq<char>,
    now: Timestamp,
) -> bool {
    seen(cells, scope, key, now) is Some || late_fits(policy, now)
}

/// How an answer changes the cells: the record that the scope sees becomes
/// completed and keeps its expiry; where it sees none, a new one is written.
pub open spec fn completed(
    before: Map<Seq<char>, CellView>,
    after: Map<Seq<char>, CellView>,
    policy: IdempotencyRetentionPolicy,
    scope: store::ScopeView,
    key: Seq<char>,
    request_hash: Seq<u8>,
    outcome: store::OutcomeView,
    now: Timestamp,
    reservation_id: u128,
) -> bool {
    let k = storage_key_text(scope, key);
    let record = after[k].record;
    &&& after == before.insert(k, after[k])
    &&& match seen(before, scope, key, now) {
        Some(r) => after[k] == cell(
            answered(r, outcome, now),
            now,
            r.expires_at.millis_since(now),
        ),
        None => {
            &&& after[k] == cell(record, now, at_least_one(policy.default_ttl_ms) as int)
            &&& record == late_record(
                scope,
                request_hash,
                outcome,
                reservation_id,
                now,
                record.expires_at,
            )
            &&& record.expires_at.total() == now.total() + signed_millis(policy.default_ttl_ms)
                * 1_000_000
        },
    }
}

impl IdempotencyStore for KvBackedIdempotencyStore {
    /// As [`KvBackedIdempotencyStore::peek_at`], now.
    fn peek(&mut self, scope: &IdempotencyScope, key: &str, request_hash: &[u8; 32]) -> (r: Result<
        Option<PeekOutcome>,
        IdempotencyError,
    >)
        ensures
            exists|now: Timestamp|
                now.total() >= 0 && #[trigger] peek_result(
                    seen(old(self).cells(), scope.deep_view(), key@, now),
                    request_hash@,
                ) == peek_answer(PeekStep::Answer(r)) && final(self).cells() == after_replay(
                    old(self).cells(),
                    scope.deep_view(),
                    key@,
                    request_hash@,
                    now,
                ),
            final(self).policy() == old(self).policy(),
    {
        let now: Timestamp = Timestamp::now();
        self.peek_at(scope, key, request_hash, now)
    }

    /// As [`KvBackedIdempotencyStore::reserve_or_get_at`], now and with a fresh
    /// id.
    fn reserve_or_get(
        &mut self,
        scope: &IdempotencyScope,
        key: &str,
        request_hash: &[u8; 32],
        ttl_override_ms: Option<u64>,
    ) -> (r: Result<ReservationOutcome, IdempotencyError>)
        ensures
            exists|now: Timestamp, id: u128|
                {
                    &&& now.total() >= 0
                    &&& outcome_view(r) == #[trigger] reserve_result(
                        old(self).cells(),
                        old(self).policy(),
                        scope.deep_view(),
                        key@,
                        request_hash@,
                        ttl_override_ms,
                        now,
                        id,
                    )
                    &&& reserved(
                        old(self).cells(),
                        final(self).cells(),
                        old(self).policy(),
                        scope.deep_view(),
                        key@,
                        request_hash@,
                        ttl_override_ms,
                        now,
                        id,
                    )
                },
            final(self).policy() == old(self).policy(),
    {
        let now: Timestamp = Timestamp::now();
        let reservation_id: u128 = outside::random_uuid();
        self.reserve_or_get_at(scope, key, request_hash, ttl_override_ms, now, reservation_id)
    }

    /// As [`KvBackedIdempotencyStore::complete_at`], now and with a fresh id.
    fn complete(
        &mut self,
        scope: &IdempotencyScope,
        key: &str,
        request_hash: &[u8; 32],
        outcome: CachedOutcome,
    ) -> (r: Result<(), IdempotencyError>)
        ensures
            exists|now: Timestamp, id: u128|
                {
                    &&& now.total() >= 0
                    &&& r is Ok <==> completes(
                        old(self).cells(),
                        old(self).policy(),
                        scope.deep_view(),
                        key@,
                        now,
                    )
                    &&& r is Ok ==> #[trigger] completed(
                        old(self).cells(),
                        final(self).cells(),
                        old(self).policy(),
                        scope.deep_view(),
                        key@,
                        request_hash@,
                        outcome.deep_view(),
                        now,
                        id,
                    )
                    &&& r matches Err(e) ==> e.detail() == out_of_range() && final(self).cells()
                        == old(self).cells()
                },
            final(self).policy() == old(self).policy(),
    {
        let now: Timestamp = Timestamp::now();
        let reservation_id: u128 = outside::random_uuid();
        let ghost start = self.cells();
        let r: Result<(), IdempotencyError> = self.complete_at(
            scope,
            key,
            request_hash,
            outcome,
            now,
            reservation_id,
        );
        proof {
            let _ = completed(
                start,
                self.cells(),
                self.policy(),
                scope.deep_view(),
                key@,
                request_hash@,
                outcome.deep_view(),
                now,
                reservation_id,
            );
        }
        r
    }

    /// Nothing is swept: a record past its life is no longer found.
    fn gc_expired(&mut self) -> (r: usize)
        ensures
            r == 0,
            final(self).cells() == old(self).cells(),
            final(self).policy() == old(self).policy(),
    {
        0
    }
}

fn claim_ttl_of(policy: IdempotencyRetentionPolicy, ttl_override_ms: Option<u64>) -> (r: u64)
    ensures
        r == claim_ttl(policy, ttl_override_ms),
{
    match ttl_override_ms {
        Some(o) => {
            let bound: u64 = if o < 1 {
                1
            } else {
                o
            };
            if policy.default_ttl_ms < bound {
                policy.default_ttl_ms
            } else {
                bound
            }
        },
        None => policy.default_ttl_ms,
    }
}

/// A key that was claimed is in flight to every later request with the same
/// body, and in conflict with every other body, until its life ends.
pub proof fn law_claim_keeps_others_out(
    before: Map<Seq<char>, CellView>,
    after: Map<Seq<char>, CellView>,
    policy: IdempotencyRetentionPolicy,
    scope: store::ScopeView,
    key: Seq<char>,
    request_hash: Seq<u8>,
    ttl_override_ms: Option<u64>,
    now: Timestamp,
    reservation_id: u128,
    later: Timestamp,
    later_hash: Seq<u8>,
    later_override_ms: Option<u64>,
    later_id: u128,
)
    requires
        claimed(
            before,
            after,
            policy,
            scope,
            key,
            request_hash,
            ttl_override_ms,
            now,
            reservation_id,
        ),
        later.total() < now.total() + at_least_one(claim_ttl(policy, ttl_override_ms)) * 1_000_000,
    ensures
        reserve_result(
            after,
            policy,
            scope,
            key,
            later_hash,
            later_override_ms,
            later,
            later_id,
        ) == (if later_hash
            == request_hash {
            Ok::<store::ReservationView, Seq<char>>(
                store::ReservationView::InFlight { started_at: now },
            )
        } else {
            Ok::<store::ReservationView, Seq<char>>(
                store::ReservationView::Conflict { stored_request_hash: request_hash },
            )
        }),
        peek_result(seen(after, scope, key, later), later_hash) == (if later_hash == request_hash {
            Ok::<Option<store::ReservationView>, Seq<char>>(
                Some(store::ReservationView::InFlight { started_at: now }),
            )
        } else {
            Ok::<Option<store::ReservationView>, Seq<char>>(
                Some(store::ReservationView::Conflict { stored_request_hash: request_hash }),
            )
        }),
{
}

/// Once a claimed key is completed, later requests with the same body get the
/// answer that was written and when it came, counted as a replay, and requests
/// with another body are in conflict.
pub proof fn law_completed_key_replays(
    before: Map<Seq<char>, CellView>,
    after: Map<Seq<char>, CellView>,
    policy: IdempotencyRetentionPolicy,
    scope: store::ScopeView,
    key: Seq<char>,
    request_hash: Seq<u8>,
    outcome: store::OutcomeView,
    now: Timestamp,
    reservation_id: u128,
    later: Timestamp,
    later_hash: Seq<u8>,
    later_override_ms: Option<u64>,
    later_id: u128,
)
    requires
        completed(before, after, policy, scope, key, request_hash, outcome, now, reservation_id),
        seen(before, scope, key, now) is Some,
        later.total() < now.total() + (seen(before, scope, key, now)->0).expires_at.millis_since(
            now,
        ) * 1_000_000,
    ensures
        ({
            let claim = seen(before, scope, key, now)->0;
            reserve_result(
                after,
                policy,
                scope,
                key,
                later_hash,
                later_override_ms,
                later,
                later_id,
            ) == (if claim.request_hash == later_hash {
                Ok::<store::ReservationView, Seq<char>>(
                    store::ReservationView::Completed {
                        outcome: store::OutcomeView {
                            replay_count: bumped(claim.replay_count),
                            ..outcome
                        },
                        completed_at: now,
                    },
                )
            } else {
                Ok::<store::ReservationView, Seq<char>>(
                    store::ReservationView::Conflict { stored_request_hash: claim.request_hash },
                )
            })
        }),
        after[storage_key_text(scope, key)].record.expires_at == (seen(
            before,
            scope,
            key,
            now,
        )->0).expires_at,
{
}

/// What a request is told that is the first to come after a late answer.
pub open spec fn late_answer(
    request_hash: Seq<u8>,
    outcome: store::OutcomeView,
    completed_at: Timestamp,
    later_hash: Seq<u8>,
) -> store::ReservationView {
    if later_hash == request_hash {
        store::ReservationView::Completed {
            outcome: store::OutcomeView { replay_count: 1, ..outcome },
            completed_at,
        }
    } else {
        store::ReservationView::Conflict { stored_request_hash: request_hash }
    }
}

/// An answer that came after its claim was gone is replayed all the same: later
/// requests with the same body get it, counted as a replay, and requests with another
/// body are in conflict.
pub proof fn law_late_answer_replays(
    before: Map<Seq<char>, CellView>,
    after: Map<Seq<char>, CellView>,
    policy: IdempotencyRetentionPolicy,
    scope: store::ScopeView,
    key: Seq<char>,
    request_hash: Seq<u8>,
    outcome: store::OutcomeView,
    now: Timestamp,
    reservation_id: u128,
    later: Timestamp,
    later_hash: Seq<u8>,
    later_override_ms: Option<u64>,
    later_id: u128,
)
    requires
        seen(before, scope, key, now) is None,
        completed(before, after, policy, scope, key, request_hash, outcome, now, reservation_id),
        later.total() < now.total() + at_least_one(policy.default_ttl_ms) * 1_000_000,
    ensures
        reserve_result(
            after,
            policy,
            scope,
            key,
            later_hash,
            later_override_ms,
            later,
            later_id,
        ) == Ok::<store::ReservationView, Seq<char>>(
            late_answer(request_hash, outcome, now, later_hash),
        ),
        peek_result(seen(after, scope, key, later), later_hash) == Ok::<
            Option<store::ReservationView>,
            Seq<char>,
        >(Some(late_answer(request_hash, outcome, now, later_hash))),
{
}

/// Each replay is counted: the next one reports a count one higher, and the
/// answer is otherwise the same.
pub proof fn law_replays_are_counted(
    cells: Map<Seq<char>, CellView>,
    scope: store::ScopeView,
    key: Seq<char>,
    request_hash: Seq<u8>,
    now: Timestamp,
    later: Timestamp,
)
    requires
        counts_replay(seen(cells, scope, key, now), request_hash),
        later.total() < now.total() + (seen(cells, scope, key, now)->0).expires_at.millis_since(now)
            * 1_000_000,
    ensures
        ({
            let first = verdict(seen(cells, scope, key, now)->0, request_hash)->Ok_0;
            let next_cells = after_replay(cells, scope, key, request_hash, now);
            &&& seen(next_cells, scope, key, later) is Some
            &&& verdict(seen(next_cells, scope, key, later)->0, request_hash) == Ok::<
                store::ReservationView,
                Seq<char>,
            >(
                store::ReservationView::Completed {
                    outcome: store::OutcomeView {
                        replay_count: bumped(first->outcome.replay_count),
                        ..first->outcome
                    },
                    completed_at: first->completed_at,
                },
            )
        }),
{
}

/// A record is never shown to a scope that it does not belong to.
pub proof fn law_records_stay_in_scope(
    cells: Map<Seq<char>, CellView>,
    scope: store::ScopeView,
    key: Seq<char>,
    now: Timestamp,
)
    ensures
        seen(cells, scope, key, now) matches Some(r) ==> owned_by(r, scope),
{
}

/// A record never outlives the bound that its claim gave, so a claim made for a
/// task does not outlive the task.
pub proof fn law_claim_respects_override(policy: IdempotencyRetentionPolicy, bound: u64)
    ensures
        claim_ttl(policy, Some(bound)) <= at_least_one(bound),
        claim_ttl(policy, Some(bound)) <= policy.default_ttl_ms,
{
}

/// One of several callers that reserve a key at once. Callers take turns at the
/// key-value store; a turn is a claim, or the look that makes one needless.
pub struct Racer {
    /// The claim that the caller makes where it first finds nothing.
    pub claim: ClaimView,
    /// How many turns were over when the caller first looked.
    pub looked: nat,
    /// How many turns were over when the caller, having lost, looked again.
    pub reread: nat,
    /// When the caller looks.
    pub now: Timestamp,
}

/// What an atomic write of an absent key leaves.
pub open spec fn put_if_absent(slot: Option<RecordView>, record: RecordView) -> Option<RecordView> {
    match slot {
        Some(r) => Some(r),
        None => Some(record),
    }
}

/// What the key holds after so many turns of callers that found nothing there
/// at the start.
pub open spec fn slot_after(racers: Seq<Racer>, turns: nat) -> Option<RecordView>
    decreases turns,
{
    if turns == 0 || turns > racers.len() {
        None
    } else {
        let i = (turns - 1) as nat;
        let racer = racers[i as int];
        let before = slot_after(racers, i);
        if racer.looked <= i && visible(
            slot_after(racers, racer.looked),
            racer.claim.scope,
        ) is Some {
            before
        } else {
            put_if_absent(before, racer.claim.record)
        }
    }
}

/// What the caller whose turn comes after so many others is told: what its
/// first look shows, or else what its claim and the look after a lost one give.
pub open spec fn race_step(racers: Seq<Racer>, i: int) -> StepView {
    let racer = racers[i];
    match visible(slot_after(racers, racer.looked), racer.claim.scope) {
        Some(seen) => seen_step(seen, racer.claim.request_hash, racer.now),
        None => match claim_step(racer.claim, Ok(slot_after(racers, i as nat) is None)) {
            StepView::ReadWinner(lost) => winner_step(
                lost,
                Ok(visible(slot_after(racers, racer.reread), lost.scope)),
                racer.now,
            ),
            step => step,
        },
    }
}

/// Whether callers race for one key with one request: each looks before its turn,
/// and looks again after it where it has lost.
pub open spec fn races(racers: Seq<Racer>, scope: store::ScopeView, request_hash: Seq<u8>) -> bool {
    forall|i: int|
        0 <= i < racers.len() ==> {
            let racer = #[trigger] racers[i];
            let record = racer.claim.record;
            &&& racer.claim.scope == scope
            &&& racer.claim.request_hash == request_hash
            &&& record == claim_record(
                scope,
                request_hash,
                record.reservation_id,
                record.created_at,
                record.expires_at,
            )
            &&& racer.looked <= i
            &&& i < racer.reread <= racers.len()
        }
}

proof fn lemma_first_claim_stays(
    racers: Seq<Racer>,
    scope: store::ScopeView,
    request_hash: Seq<u8>,
    turns: nat,
)
    requires
        races(racers, scope, request_hash),
        0 < turns <= racers.len(),
    ensures
        slot_after(racers, turns) == Some(racers[0].claim.record),
    decreases turns,
{
    reveal_with_fuel(slot_after, 2);
    assert(racers[turns - 1].looked <= turns - 1);
    if turns > 1 {
        lemma_first_claim_stays(racers, scope, request_hash, (turns - 1) as nat);
    }
}

/// Of any number of callers that reserve a free key at once with one request,
/// exactly one gets the key, and each of the others is told that it is in flight.
/// This holds in whatever order the callers take turns and look, as long as the
/// key-value store writes an absent key atomically and nothing expires or is
/// completed meanwhile.
pub proof fn law_one_racer_wins(
    racers: Seq<Racer>,
    scope: store::ScopeView,
    request_hash: Seq<u8>,
)
    requires
        races(racers, scope, request_hash),
    ensures
        forall|i: int|
            0 <= i < racers.len() ==> #[trigger] race_step(racers, i) == StepView::Finish(
                Ok(
                    if i == 0 {
                        store::ReservationView::Reserved {
                            reservation_id: racers[0].claim.record.reservation_id,
                        }
                    } else {
                        store::ReservationView::InFlight {
                            started_at: racers[0].claim.record.created_at,
                        }
                    },
                ),
            ),
{
    assert forall|i: int| 0 <= i < racers.len() implies #[trigger] race_step(racers, i)
        == StepView::Finish(
        Ok(
            if i == 0 {
                store::ReservationView::Reserved {
                    reservation_id: racers[0].claim.record.reservation_id,
                }
            } else {
                store::ReservationView::InFlight { started_at: racers[0].claim.record.created_at }
            },
        ),
    ) by {
        let racer = racers[i];
        if racer.looked > 0 {
            lemma_first_claim_stays(racers, scope, request_hash, racer.looked);
        }
        if i > 0 {
            lemma_first_claim_stays(racers, scope, request_hash, i as nat);
        }
        lemma_first_claim_stays(racers, scope, request_hash, racer.reread);
        assert(racers[0].claim.scope == scope);
    }
}

proof fn lemma_hex_digits(a: int, b: int)
    requires
        0 <= a < 16,
        0 <= b < 16,
        outside::hex_char(a) == outside::hex_char(b),
    ensures
        a == b,
{
}

/// Hashes are told apart by their hexadecimal text.
pub proof fn lemma_hex_tells_apart(a: Seq<u8>, b: Seq<u8>)
    requires
        outside::hex_text(a) == outside::hex_text(b),
    ensures
        a == b,
{
    let x = outside::hex_text(a);
    let y = outside::hex_text(b);
    assert(x.len() == 2 * a.len() && y.len() == 2 * b.len());
    assert forall|i: int| 0 <= i < a.len() implies a[i] == b[i] by {
        assert(x[2 * i] == outside::hex_char(a[i] as int / 16));
        assert(y[2 * i] == outside::hex_char(b[i] as int / 16));
        assert(x[2 * i + 1] == outside::hex_char(a[i] as int % 16));
        assert(y[2 * i + 1] == outside::hex_char(b[i] as int % 16));
        lemma_hex_digits(a[i] as int / 16, b[i] as int / 16);
        lemma_hex_digits(a[i] as int % 16, b[i] as int % 16);
    }
    assert(a =~= b);
}

/// What a scope writes, by a claim or by a late answer, that scope sees, and no
/// other scope does, however little the two differ.
pub proof fn law_records_are_seen_by_their_scope_only(
    owner: store::ScopeView,
    reader: store::ScopeView,
    request_hash: Seq<u8>,
    outcome: store::OutcomeView,
    reservation_id: u128,
    created_at: Timestamp,
    expires_at: Timestamp,
)
    ensures
        visible(
            Some(claim_record(owner, request_hash, reservation_id, created_at, expires_at)),
            reader,
        ) is Some <==> owner == reader,
        visible(
            Some(
                late_record(owner, request_hash, outcome, reservation_id, created_at, expires_at),
            ),
            reader,
        ) is Some <==> owner == reader,
{
    if outside::hex_text(owner.identity_hash) == outside::hex_text(reader.identity_hash) {
        lemma_hex_tells_apart(owner.identity_hash, reader.identity_hash);
    }
}

/// Two keys of one scope are kept apart, and a key of two scopes is kept apart
/// wherever the hashes of the scopes are told apart by their first half.
pub proof fn law_keys_are_kept_apart(
    a: store::ScopeView,
    b: store::ScopeView,
    key_a: Seq<char>,
    key_b: Seq<char>,
)
    ensures
        key_a != key_b ==> storage_key_text(a, key_a) != storage_key_text(a, key_b),
        outside::blake3_digest(scope_bytes(a)).take(16) != outside::blake3_digest(
            scope_bytes(b),
        ).take(16) && outside::blake3_digest(scope_bytes(a)).len() == 32 && outside::blake3_digest(
            scope_bytes(b),
        ).len() == 32 ==> storage_key_text(a, key_a) != storage_key_text(b, key_b),
{
    let p = "idempotency/"@;
    let da = outside::blake3_digest(scope_bytes(a));
    let db = outside::blake3_digest(scope_bytes(b));
    let ha = idempotency::short_hex(da);
    let hb = idempotency::short_hex(db);
    let n = (p + ha + "/"@).len() as int;
    if storage_key_text(a, key_a) == storage_key_text(a, key_b) {
        assert(key_a =~= storage_key_text(a, key_a).skip(n));
        assert(key_b =~= storage_key_text(a, key_b).skip(n));
    }
    if da.len() == 32 && db.len() == 32 && storage_key_text(a, key_a) == storage_key_text(b, key_b) {
        assert(ha.len() == 32 && hb.len() == 32);
        let k = p.len() as int;
        assert(ha =~= storage_key_text(a, key_a).subrange(k, k + 32));
        assert(hb =~= storage_key_text(b, key_b).subrange(k, k + 32));
        lemma_hex_tells_apart(da.take(16), db.take(16));
    }
}

/// Whether a text holds no colon, so that it can be told from what follows it
/// where parts are separated by colons.
pub open spec fn without_colon(t: Seq<char>) -> bool {
    forall|i: int| 0 <= i < t.len() ==> #[trigger] t[i] as u32 != 58
}

/// Scopes are told apart before they are hashed: the same bytes stand for the
/// same tenant, caller, method and tool. Left out are tenants and methods that
/// hold a colon.
pub proof fn law_scopes_are_told_apart(a: store::ScopeView, b: store::ScopeView)
    requires
        without_colon(a.tenant_id),
        without_colon(b.tenant_id),
        without_colon(a.method),
        without_colon(b.method),
        a.identity_hash.len() == b.identity_hash.len(),
        scope_bytes(a) == scope_bytes(b),
    ensures
        a == b,
{
    let ma = vstd::utf8::encode_utf8(a.method) + seq![58u8] + vstd::utf8::encode_utf8(a.tool_name);
    let mb = vstd::utf8::encode_utf8(b.method) + seq![58u8] + vstd::utf8::encode_utf8(b.tool_name);
    let ra = a.identity_hash + seq![58u8] + ma;
    let rb = b.identity_hash + seq![58u8] + mb;
    assert(scope_bytes(a) =~= vstd::utf8::encode_utf8(a.tenant_id) + seq![58u8] + ra);
    assert(scope_bytes(b) =~= vstd::utf8::encode_utf8(b.tenant_id) + seq![58u8] + rb);
    idempotency::lemma_split_at_mark(a.tenant_id, ra, b.tenant_id, rb, 58);
    let n = a.identity_hash.len() as int;
    assert(a.identity_hash =~= ra.take(n));
    assert(b.identity_hash =~= rb.take(n));
    assert(ma =~= ra.skip(n + 1));
    assert(mb =~= rb.skip(n + 1));
    idempotency::lemma_split_at_mark(
        a.method,
        vstd::utf8::encode_utf8(a.tool_name),
        b.method,
        vstd::utf8::encode_utf8(b.tool_name),
        58,
    );
    vstd::utf8::encode_utf8_decode_utf8(a.tool_name);
    vstd::utf8::encode_utf8_decode_utf8(b.tool_name);
}

/// A claim lives as long as the store keeps records, or as long as it asks for
/// where that is shorter, and a record that nobody answered is gone after that:
/// the key can be claimed anew.
pub proof fn law_claims_live_their_time(
    before: Map<Seq<char>, CellView>,
    after: Map<Seq<char>, CellView>,
    policy: IdempotencyRetentionPolicy,
    scope: store::ScopeView,
    key: Seq<char>,
    request_hash: Seq<u8>,
    ttl_override_ms: Option<u64>,
    now: Timestamp,
    reservation_id: u128,
    later: Timestamp,
    later_hash: Seq<u8>,
    later_id: u128,
)
    requires
        policy.default_ttl_ms > 0,
        claimed(
            before,
            after,
            policy,
            scope,
            key,
            request_hash,
            ttl_override_ms,
            now,
            reservation_id,
        ),
    ensures
        ({
            let asked: int = match ttl_override_ms {
                Some(o) => if o == 0 {
                    1
                } else {
                    o as int
                },
                None => policy.default_ttl_ms as int,
            };
            let life: int = if asked < policy.default_ttl_ms {
                asked
            } else {
                policy.default_ttl_ms as int
            };
            &&& seen(after, scope, key, later) is Some <==> later.total() < now.total() + life
                * 1_000_000
            &&& later.total() >= now.total() + life * 1_000_000 && claim_fits(
                policy,
                None,
                later,
            ) ==> reserve_result(
                after,
                policy,
                scope,
                key,
                later_hash,
                None,
                later,
                later_id,
            ) == Ok::<store::ReservationView, Seq<char>>(
                store::ReservationView::Reserved { reservation_id: later_id },
            )
        }),
{
    law_records_are_seen_by_their_scope_only(
        scope,
        scope,
        request_hash,
        store::OutcomeView {
            envelope: crate::json::Tree::Null,
            original_request_id: crate::json::Tree::Null,
            original_correlation_id: seq![],
            replay_count: 0,
            payload_truncated: false,
        },
        reservation_id,
        now,
        after[storage_key_text(scope, key)].record.expires_at,
    );
}

/// What one key holds does not depend on what is done under another: a claim, an
/// answer and a replay touch the record of their own key alone.
pub proof fn law_other_keys_are_untouched(
    before: Map<Seq<char>, CellView>,
    after: Map<Seq<char>, CellView>,
    policy: IdempotencyRetentionPolicy,
    scope: store::ScopeView,
    key: Seq<char>,
    request_hash: Seq<u8>,
    ttl_override_ms: Option<u64>,
    outcome: store::OutcomeView,
    now: Timestamp,
    reservation_id: u128,
    other: Seq<char>,
    later: Timestamp,
)
    requires
        other != key,
        reserved(
            before,
            after,
            policy,
            scope,
            key,
            request_hash,
            ttl_override_ms,
            now,
            reservation_id,
        ) || completed(
            before,
            after,
            policy,
            scope,
            key,
            request_hash,
            outcome,
            now,
            reservation_id,
        ),
    ensures
        seen(after, scope, other, later) == seen(before, scope, other, later),
{
    law_keys_are_kept_apart(scope, scope, key, other);
}

/// The life of a key in a store that starts empty: the first call claims it, the same
/// call made again meanwhile is in flight since then, and once the answer is written,
/// the same call gets the very answer and when it came, and a call that asks for
/// something else is in conflict with what was asked first.
pub proof fn law_stores_remember_answers(
    policy: IdempotencyRetentionPolicy,
    fresh: KvBackedIdempotencyStore,
    at_claim: &mut KvBackedIdempotencyStore,
    at_twin: &mut KvBackedIdempotencyStore,
    at_answer: &mut KvBackedIdempotencyStore,
    at_look: &mut KvBackedIdempotencyStore,
    scope: IdempotencyScope,
    key: &str,
    asked: [u8; 32],
    later_asked: [u8; 32],
    outcome: CachedOutcome,
    now: Timestamp,
    then: Timestamp,
    later: Timestamp,
    id: u128,
    other_id: u128,
    claimed_as: Result<ReservationOutcome, IdempotencyError>,
    twin: Result<ReservationOutcome, IdempotencyError>,
    written: Result<(), IdempotencyError>,
    looked: Result<Option<PeekOutcome>, IdempotencyError>,
)
    requires
        call_ensures(KvBackedIdempotencyStore::new_in_memory, (policy,), fresh),
        *old(at_claim) == fresh,
        call_ensures(
            KvBackedIdempotencyStore::reserve_or_get_at,
            (at_claim, &scope, key, &asked, None::<u64>, now, id),
            claimed_as,
        ),
        *old(at_twin) == *final(at_claim),
        call_ensures(
            KvBackedIdempotencyStore::reserve_or_get_at,
            (at_twin, &scope, key, &asked, None::<u64>, then, other_id),
            twin,
        ),
        *old(at_answer) == *final(at_twin),
        call_ensures(
            KvBackedIdempotencyStore::complete_at,
            (at_answer, &scope, key, &asked, outcome, then, other_id),
            written,
        ),
        *old(at_look) == *final(at_answer),
        call_ensures(
            KvBackedIdempotencyStore::peek_at,
            (at_look, &scope, key, &later_asked, later),
            looked,
        ),
        0 < policy.default_ttl_ms <= policy.max_ttl_ms <= 604_800_000,
        now.can_shift(policy.default_ttl_ms as int),
        now.total() <= then.total() <= later.total(),
        later.total() + 1_000_000 <= now.total() + policy.default_ttl_ms * 1_000_000,
    ensures
        claimed_as matches Ok(ReservationOutcome::Reserved { reservation_id }) && reservation_id
            == id,
        twin matches Ok(ReservationOutcome::InFlight { started_at }) && started_at == now,
        written is Ok,
        later_asked@ == asked@ ==> (looked matches Ok(Some(PeekOutcome::Completed {
            outcome: told,
            completed_at,
        })) && completed_at == then && told.envelope.tree() == outcome.envelope.tree()
            && told.original_request_id.tree() == outcome.original_request_id.tree()
            && told.original_correlation_id@ == outcome.original_correlation_id@
            && told.payload_truncated == outcome.payload_truncated && told.replay_count == 1),
        later_asked@ != asked@ ==> (looked matches Ok(Some(PeekOutcome::Conflict {
            stored_request_hash,
        })) && stored_request_hash@ == asked@),
{
    let s = scope.deep_view();
    let k = storage_key_text(s, key@);
    let before = old(at_claim).cells();
    assert(!before.contains_key(k));
    assert(seen(before, s, key@, now) is None);
    let after = final(at_claim).cells();
    assert(seen(after, s, key@, then) is Some);
    assert(final(at_twin).cells() == after);
    let done = final(at_answer).cells();
    assert(seen(done, s, key@, later) is Some);
}

/// What a look finds depends on the key that it asks for: a store that starts empty
/// knows of no key but those that were claimed or answered.
pub proof fn law_fresh_stores_know_nothing(
    policy: IdempotencyRetentionPolicy,
    fresh: KvBackedIdempotencyStore,
    at_look: &mut KvBackedIdempotencyStore,
    scope: IdempotencyScope,
    key: &str,
    asked: [u8; 32],
    now: Timestamp,
    looked: Result<Option<PeekOutcome>, IdempotencyError>,
)
    requires
        call_ensures(KvBackedIdempotencyStore::new_in_memory, (policy,), fresh),
        *old(at_look) == fresh,
        call_ensures(
            KvBackedIdempotencyStore::peek_at,
            (at_look, &scope, key, &asked, now),
            looked,
        ),
    ensures
        looked matches Ok(None),
        final(at_look).cells() == fresh.cells(),
{
}

/// A read of a store that fails, or that gives back what is no record, is an error
/// with its words and never a free key.
pub proof fn law_broken_reads_are_errors(
    policy: IdempotencyRetentionPolicy,
    scope: IdempotencyScope,
    asked: [u8; 32],
    ttl_override_ms: Option<u64>,
    read: KvRead,
    now: Timestamp,
    id: u128,
    looked: PeekStep,
    claim: ReserveStep,
    outcome: CachedOutcome,
    written: Result<(IdempotencyRecord, u64), IdempotencyError>,
)
    requires
        call_ensures(peek_step, (&scope, &asked, read, now), looked),
        call_ensures(
            reserve_first,
            (policy, &scope, &asked, ttl_override_ms, read, now, id),
            claim,
        ),
        call_ensures(
            complete_step,
            (policy, &scope, &asked, outcome, read, now, id),
            written,
        ),
        !(read is Found),
    ensures
        looked matches PeekStep::Answer(Err(_)),
        claim matches ReserveStep::Finish(Err(_)),
        written is Err,
        looked->Answer_0->Err_0.detail() == written->Err_0.detail(),
        claim->Finish_0->Err_0.detail() == written->Err_0.detail(),
        read matches KvRead::Failed(e) ==> ({
            let told = written->Err_0.detail();
            e@.len() <= told.len() && told.skip(told.len() - e@.len()) == e@
        }),
{
    if let KvRead::Failed(e) = read {
        let p = "kv get: "@;
        assert((p + e@).skip(p.len() as int) =~= e@);
    }
}

/// An answer completes the record that it finds and keeps who may see it, when it was
/// made and when it ends; where the record belongs to somebody else or is gone, the
/// answer is a record of its own for its own scope and request.
pub proof fn law_answers_complete_their_record(
    policy: IdempotencyRetentionPolicy,
    scope: IdempotencyScope,
    asked: [u8; 32],
    outcome: CachedOutcome,
    found: Option<IdempotencyRecord>,
    now: Timestamp,
    id: u128,
    written: Result<(IdempotencyRecord, u64), IdempotencyError>,
)
    requires
        call_ensures(
            complete_step,
            (policy, &scope, &asked, outcome, KvRead::Found(found), now, id),
            written,
        ),
    ensures
        written matches Ok((record, ttl_ms)) ==> {
            let r = record.deep_view();
            &&& r.state is Completed
            &&& r.outcome == Some(outcome.deep_view())
            &&& r.completed_at == Some(now)
            &&& owned_by(r, scope.deep_view())
            &&& found matches Some(f) ==> owned_by(f.deep_view(), scope.deep_view()) ==> r.request_hash
                == f.deep_view().request_hash && r.created_at == f.deep_view().created_at
                && r.expires_at == f.deep_view().expires_at && r.reservation_id
                == f.deep_view().reservation_id
            &&& found is None ==> r.request_hash == asked@ && r.created_at == now
                && r.reservation_id == id && ttl_ms == at_least_one(policy.default_ttl_ms)
        },
        found matches Some(f) ==> owned_by(f.deep_view(), scope.deep_view()) ==> written is Ok,
{
}

/// A claim that meets a store that can write takes the key; one that finds it taken
/// looks who has it, and one that the store refuses is an error.
pub proof fn law_claims_are_settled_by_the_store(
    claim: Reservation,
    answer: Result<bool, String>,
    r: ReserveStep,
)
    requires
        call_ensures(Reservation::on_claim, (claim, answer), r),
    ensures
        answer matches Ok(true) ==> (r matches ReserveStep::Finish(
            Ok(ReservationOutcome::Reserved { reservation_id }),
        ) && reservation_id == claim.record.reservation_id),
        answer matches Ok(false) ==> (r matches ReserveStep::ReadWinner(c) && c.record.deep_view()
            == claim.record.deep_view() && c.scope.deep_view() == claim.scope.deep_view()
            && c.request_hash@ == claim.request_hash@),
        answer matches Err(_) ==> (r matches ReserveStep::Finish(Err(_))),
{
}

/// Whether two hashes are the same is decided by all their bytes.
pub proof fn law_hashes_are_compared_whole(a: [u8; 32], b: [u8; 32], r: bool)
    requires
        call_ensures(hash_eq, (&a, &b), r),
    ensures
        r <==> forall|i: int| 0 <= i < 32 ==> #[trigger] a@[i] == b@[i],
{
    if forall|i: int| 0 <= i < 32 ==> #[trigger] a@[i] == b@[i] {
        assert(a@ =~= b@);
    }
}

/// A claim that lost looks who won: what it sees decides as it would have at first; a
/// record that is gone, or that belongs to another scope, leads to another try with
/// the same claim, and to a wait once the tries are used up.
pub proof fn law_losers_look_who_won(
    claim: Reservation,
    found: Option<IdempotencyRecord>,
    now: Timestamp,
    r: ReserveStep,
)
    requires
        call_ensures(Reservation::on_winner, (claim, KvRead::Found(found), now), r),
    ensures
        ({
            let mine = found matches Some(f) && owned_by(f.deep_view(), claim.scope.deep_view());
            &&& !mine && claim.tries_left > 0 ==> (r matches ReserveStep::Claim(c)
                && c.record.deep_view() == claim.record.deep_view() && c.scope.deep_view()
                == claim.scope.deep_view() && c.request_hash@ == claim.request_hash@)
            &&& !mine && claim.tries_left == 0 ==> (r matches ReserveStep::Finish(
                Ok(ReservationOutcome::InFlight { started_at }),
            ) && started_at == claim.record.created_at)
            &&& mine && found->0.request_hash@ != claim.request_hash@ ==> (r
                matches ReserveStep::Finish(
                Ok(ReservationOutcome::Conflict { stored_request_hash }),
            ) && stored_request_hash@ == found->0.request_hash@)
            &&& mine && found->0.request_hash@ == claim.request_hash@ && found->0.state
                is InFlight ==> (r matches ReserveStep::Finish(
                Ok(ReservationOutcome::InFlight { started_at }),
            ) && started_at == found->0.created_at)
        }),
{
    if let Some(f) = found {
        assert(f.deep_view().request_hash == f.request_hash@);
        assert(f.deep_view().state == f.state);
    }
}

/// A call that finds nothing under its key claims it: for its own scope and request, in
/// flight from now on and for no longer than it may be.
pub proof fn law_free_keys_are_claimed(
    policy: IdempotencyRetentionPolicy,
    scope: IdempotencyScope,
    asked: [u8; 32],
    ttl_override_ms: Option<u64>,
    now: Timestamp,
    id: u128,
    r: ReserveStep,
)
    requires
        call_ensures(
            reserve_first,
            (policy, &scope, &asked, ttl_override_ms, KvRead::Found(None), now, id),
            r,
        ),
    ensures
        match r {
            ReserveStep::Claim(c) => {
                &&& c.scope.deep_view() == scope.deep_view()
                &&& c.request_hash@ == asked@
                &&& owned_by(c.record.deep_view(), scope.deep_view())
                &&& c.record.deep_view().request_hash == asked@
                &&& c.record.deep_view().state is InFlight
                &&& c.record.deep_view().outcome is None
                &&& c.record.deep_view().reservation_id == id
                &&& c.record.deep_view().created_at == now
                &&& c.record.deep_view().replay_count == 0
                &&& ttl_override_ms matches Some(o) ==> o > 0 ==> c.ttl_ms <= o
                    || policy.default_ttl_ms == 0
                &&& policy.default_ttl_ms > 0 ==> c.ttl_ms <= policy.default_ttl_ms
                &&& c.tries_left == 3
            },
            ReserveStep::Finish(Err(_)) => true,
            _ => false,
        },
{
}

/// Unless it is set otherwise, a record is kept for a day, and never for more than a
/// week.
pub proof fn law_records_are_kept_a_day(policy: IdempotencyRetentionPolicy)
    requires
        call_ensures(IdempotencyRetentionPolicy::default, (), policy),
    ensures
        policy.default_ttl_ms == 24 * 60 * 60 * 1000,
        policy.max_ttl_ms == 7 * policy.default_ttl_ms,
{
}

} // verus!
