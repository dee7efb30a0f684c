//! The records and answers of an idempotency store.
use vstd::prelude::*;
use vstd::string::*;

use crate::clock::Timestamp;
use crate::json;
use crate::json::Json;
use crate::outside;

verus! {

/// What a record belongs to. Two requests share a record only where all four
/// parts agree.
#[derive(Debug, Clone)]
pub struct IdempotencyScope {
    pub tenant_id: String,
    pub identity_hash: [u8; 32],
    pub method: String,
    pub tool_name: String,
}

/// A scope over plain values.
pub struct ScopeView {
    pub tenant_id: Seq<char>,
    pub identity_hash: Seq<u8>,
    pub method: Seq<char>,
    pub tool_name: Seq<char>,
}

impl DeepView for IdempotencyScope {
    type V = ScopeView;

    open spec fn deep_view(&self) -> ScopeView {
        ScopeView {
            tenant_id: self.tenant_id@,
            identity_hash: self.identity_hash@,
            method: self.method@,
            tool_name: self.tool_name@,
        }
    }
}

/// The answer that is kept for a completed request.
#[derive(Debug)]
pub struct CachedOutcome {
    /// The result that the first call produced.
    pub envelope: Json,
    /// The JSON-RPC id of the first call.
    pub original_request_id: Json,
    /// The gateway's own id of the first call.
    pub original_correlation_id: String,
    /// How often the answer has been replayed.
    pub replay_count: u32,
    /// Whether the answer was too large to keep.
    pub payload_truncated: bool,
}

/// A kept answer over plain values.
pub struct OutcomeView {
    pub envelope: json::Tree,
    pub original_request_id: json::Tree,
    pub original_correlation_id: Seq<char>,
    pub replay_count: u32,
    pub payload_truncated: bool,
}

impl DeepView for CachedOutcome {
    type V = OutcomeView;

    open spec fn deep_view(&self) -> OutcomeView {
        OutcomeView {
            envelope: self.envelope.tree(),
            original_request_id: self.original_request_id.tree(),
            original_correlation_id: self.original_correlation_id@,
            replay_count: self.replay_count,
            payload_truncated: self.payload_truncated,
        }
    }
}

impl CachedOutcome {
    /// An answer that denotes the same.
    pub fn copy(&self) -> (r: CachedOutcome)
        ensures
            r.deep_view() == self.deep_view(),
    {
        CachedOutcome {
            envelope: self.envelope.copy(),
            original_request_id: self.original_request_id.copy(),
            original_correlation_id: self.original_correlation_id.clone(),
            replay_count: self.replay_count,
            payload_truncated: self.payload_truncated,
        }
    }
}

/// What came of asking for a reservation.
#[derive(Debug)]
pub enum ReservationOutcome {
    /// The caller is the first and must dispatch.
    Reserved { reservation_id: u128 },
    /// Another caller is running the request.
    InFlight { started_at: Timestamp },
    /// The request has been answered before.
    Completed { outcome: CachedOutcome, completed_at: Timestamp },
    /// The key was used with another request body.
    Conflict { stored_request_hash: [u8; 32] },
}

/// A reservation answer over plain values.
pub enum ReservationView {
    Reserved { reservation_id: u128 },
    InFlight { started_at: Timestamp },
    Completed { outcome: OutcomeView, completed_at: Timestamp },
    Conflict { stored_request_hash: Seq<u8> },
}

impl DeepView for ReservationOutcome {
    type V = ReservationView;

    open spec fn deep_view(&self) -> ReservationView {
        match self {
            ReservationOutcome::Reserved { reservation_id } => ReservationView::Reserved {
                reservation_id: *reservation_id,
            },
            ReservationOutcome::InFlight { started_at } => ReservationView::InFlight {
                started_at: *started_at,
            },
            ReservationOutcome::Completed {
                outcome,
                completed_at,
            } => ReservationView::Completed {
                outcome: outcome.deep_view(),
                completed_at: *completed_at,
            },
            ReservationOutcome::Conflict {
                stored_request_hash,
            } => ReservationView::Conflict { stored_request_hash: stored_request_hash@ },
        }
    }
}

/// What a look at a record shows, without reserving anything.
#[derive(Debug)]
pub enum PeekOutcome {
    /// Another caller is running the request.
    InFlight { started_at: Timestamp },
    /// The request has been answered before.
    Completed { outcome: CachedOutcome, completed_at: Timestamp },
    /// The key was used with another request body.
    Conflict { stored_request_hash: [u8; 32] },
}

impl DeepView for PeekOutcome {
    type V = ReservationView;

    open spec fn deep_view(&self) -> ReservationView {
        match self {
            PeekOutcome::InFlight { started_at } => ReservationView::InFlight {
                started_at: *started_at,
            },
            PeekOutcome::Completed { outcome, completed_at } => ReservationView::Completed {
                outcome: outcome.deep_view(),
                completed_at: *completed_at,
            },
            PeekOutcome::Conflict { stored_request_hash } => ReservationView::Conflict {
                stored_request_hash: stored_request_hash@,
            },
        }
    }
}

/// Why a store could not answer.
#[derive(Debug, Clone)]
pub enum IdempotencyError {
    /// The store failed; the text says how.
    Internal(String),
}

impl IdempotencyError {
    /// The detail text.
    pub open spec fn detail(self) -> Seq<char> {
        match self {
            IdempotencyError::Internal(m) => m@,
        }
    }

    /// The error's text.
    pub fn message(&self) -> (r: String)
        ensures
            r@ == "idempotency store error: "@ + self.detail(),
    {
        match self {
            IdempotencyError::Internal(m) => {
                let mut s: String = "idempotency store error: ".to_owned();
                s.append(m.as_str());
                s
            },
        }
    }
}

/// A store of idempotency records. A caller looks at a record with `peek`,
/// claims it with `reserve_or_get` just before it dispatches, and writes the
/// answer with `complete`.
pub trait IdempotencyStore {
    /// Looks at the record of a key without reserving it.
    fn peek(&mut self, scope: &IdempotencyScope, key: &str, request_hash: &[u8; 32]) -> Result<
        Option<PeekOutcome>,
        IdempotencyError,
    >;

    /// Claims a key, or returns what its record says. `ttl_override_ms` bounds
    /// the life of a new record below the store's default.
    fn reserve_or_get(
        &mut self,
        scope: &IdempotencyScope,
        key: &str,
        request_hash: &[u8; 32],
        ttl_override_ms: Option<u64>,
    ) -> Result<ReservationOutcome, IdempotencyError>;

    /// Writes the answer of a claimed key to a request with the given body hash.
    fn complete(
        &mut self,
        scope: &IdempotencyScope,
        key: &str,
        request_hash: &[u8; 32],
        outcome: CachedOutcome,
    ) -> Result<(), IdempotencyError>;

    /// Drops expired records, and says how many were dropped.
    fn gc_expired(&mut self) -> usize;
}

/// The store of a gateway that has the extension switched off: nothing is kept,
/// and every claim succeeds.
#[derive(Debug, Clone, Copy, PartialEq, Eq, Structural)]
pub struct NoopIdempotencyStore;

impl IdempotencyStore for NoopIdempotencyStore {
    fn peek(&mut self, scope: &IdempotencyScope, key: &str, request_hash: &[u8; 32]) -> (r: Result<
        Option<PeekOutcome>,
        IdempotencyError,
    >)
        ensures
            r == Ok::<Option<PeekOutcome>, IdempotencyError>(None),
            *final(self) == *old(self),
    {
        Ok(None)
    }

    fn reserve_or_get(
        &mut self,
        scope: &IdempotencyScope,
        key: &str,
        request_hash: &[u8; 32],
        ttl_override_ms: Option<u64>,
    ) -> (r: Result<ReservationOutcome, IdempotencyError>)
        ensures
            r matches Ok(ReservationOutcome::Reserved { .. }),
            *final(self) == *old(self),
    {
        Ok(ReservationOutcome::Reserved { reservation_id: outside::random_uuid() })
    }

    fn complete(
        &mut self,
        scope: &IdempotencyScope,
        key: &str,
        request_hash: &[u8; 32],
        outcome: CachedOutcome,
    ) -> (r: Result<(), IdempotencyError>)
        ensures
            r == Ok::<(), IdempotencyError>(()),
            *final(self) == *old(self),
    {
        Ok(())
    }

    fn gc_expired(&mut self) -> (r: usize)
        ensures
            r == 0,
            *final(self) == *old(self),
    {
        0
    }
}

/// The store of a gateway that has the extension switched off.
pub fn noop_idempotency_store() -> (r: NoopIdempotencyStore)
    ensures
        r == NoopIdempotencyStore,
{
    NoopIdempotencyStore
}

/// A gateway without the extension knows of no call and stops none.
pub proof fn law_without_records_every_call_is_the_first(
    store: &mut NoopIdempotencyStore,
    scope: IdempotencyScope,
    key: &str,
    request_hash: [u8; 32],
    ttl_override_ms: Option<u64>,
    looked: Result<Option<PeekOutcome>, IdempotencyError>,
    claimed: Result<ReservationOutcome, IdempotencyError>,
)
    requires
        call_ensures(
            NoopIdempotencyStore::peek,
            (store, &scope, key, &request_hash),
            looked,
        ),
        call_ensures(
            NoopIdempotencyStore::reserve_or_get,
            (store, &scope, key, &request_hash, ttl_override_ms),
            claimed,
        ),
    ensures
        looked matches Ok(None),
        claimed matches Ok(ReservationOutcome::Reserved { .. }),
        *final(store) == *old(store),
{
}

/// What a store says of its fault ends with the fault.
pub proof fn law_faults_are_told_with_their_detail(e: IdempotencyError, r: String)
    requires
        call_ensures(IdempotencyError::message, (&e,), r),
    ensures
        e matches IdempotencyError::Internal(m) ==> m@.len() <= r@.len() && r@.skip(
            r@.len() - m@.len(),
        ) == m@,
{
    if let IdempotencyError::Internal(m) = e {
        let p = "idempotency store error: "@;
        assert((p + m@).skip(p.len() as int) =~= m@);
    }
}

} // verus!
