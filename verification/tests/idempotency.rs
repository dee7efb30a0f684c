use mcpg_runtime::clock::Timestamp;
use mcpg_runtime::idempotency::kv_store::{
    storage_key, IdempotencyRecord, IdempotencyRetentionPolicy, KvBackedIdempotencyStore, KvRead,
    PeekStep, RecordState, Reservation, ReserveStep, CLAIM_TRIES,
};
use mcpg_runtime::idempotency::kv_store::{complete_step, peek_step, put_error, reserve_first};
use mcpg_runtime::idempotency::store::{
    noop_idempotency_store, CachedOutcome, IdempotencyError, IdempotencyScope, IdempotencyStore,
    NoopIdempotencyStore, PeekOutcome, ReservationOutcome,
};
use mcpg_runtime::idempotency::{
    capability_advertisement, extract_request_key, hash_identity, hash_request_body, key_hash_hex,
    stamp_replay_marker, validate_request_key, KeyMalformedReason, KeyValidation, MAX_KEY_LEN,
    META_KEY_ORIGINAL_COMPLETED_AT, META_KEY_REPLAYED,
};
use mcpg_runtime::json::Json;
use mcpg_runtime::message_dispatcher::{DispatchResponse, GatewayMessageDispatcher};
use mcpg_runtime::runtime::GatewayResponsePayload;

fn parse(text: &str) -> Json {
    GatewayMessageDispatcher::new().read(text.as_bytes()).expect("valid JSON")
}

fn at(secs: i64) -> Timestamp {
    Timestamp::new(secs, 0).expect("a time")
}

fn store() -> KvBackedIdempotencyStore {
    KvBackedIdempotencyStore::new_in_memory_default()
}

fn scope() -> IdempotencyScope {
    IdempotencyScope {
        tenant_id: "tenant-a".to_owned(),
        identity_hash: [1u8; 32],
        method: "tools/call".to_owned(),
        tool_name: "charge".to_owned(),
    }
}

fn other_tenant_scope() -> IdempotencyScope {
    IdempotencyScope { tenant_id: "tenant-b".to_owned(), ..scope() }
}

fn outcome(envelope: Json) -> CachedOutcome {
    CachedOutcome {
        envelope,
        original_request_id: Json::count(1),
        original_correlation_id: String::new(),
        replay_count: 0,
        payload_truncated: false,
    }
}

#[test]
fn reserve_returns_reserved_for_first_call() {
    let mut store = store();
    let res = store.reserve_or_get(&scope(), "key-1", &[7u8; 32], None).unwrap();
    assert!(matches!(res, ReservationOutcome::Reserved { .. }));
}

#[test]
fn second_call_with_same_key_returns_in_flight() {
    let mut store = store();
    let _ = store.reserve_or_get(&scope(), "key-1", &[7u8; 32], None).unwrap();
    let res = store.reserve_or_get(&scope(), "key-1", &[7u8; 32], None).unwrap();
    assert!(matches!(res, ReservationOutcome::InFlight { .. }), "expected InFlight, got {res:?}");
}

#[test]
fn reserve_then_complete_returns_completed_on_replay() {
    let mut store = store();
    let _ = store.reserve_or_get(&scope(), "key-1", &[7u8; 32], None).unwrap();
    store
        .complete(&scope(), "key-1", &[7u8; 32], outcome(parse(r#"{"content": [], "isError": false}"#)))
        .unwrap();
    let res = store.reserve_or_get(&scope(), "key-1", &[7u8; 32], None).unwrap();
    match res {
        ReservationOutcome::Completed { outcome, .. } => {
            assert_eq!(outcome.envelope.get("isError").unwrap().as_bool(), Some(false));
            assert!(outcome.replay_count >= 1, "replay_count must bump");
        }
        other => panic!("expected Completed, got {other:?}"),
    }
}

#[test]
fn body_mismatch_returns_conflict() {
    let mut store = store();
    let _ = store.reserve_or_get(&scope(), "key-1", &[7u8; 32], None).unwrap();
    let res = store.reserve_or_get(&scope(), "key-1", &[8u8; 32], None).unwrap();
    match res {
        ReservationOutcome::Conflict { stored_request_hash } => {
            assert_eq!(stored_request_hash, [7u8; 32]);
        }
        other => panic!("expected Conflict, got {other:?}"),
    }
}

#[test]
fn cross_tenant_lookup_treats_record_as_missing() {
    let mut store = store();
    let _ = store.reserve_or_get(&scope(), "key-1", &[7u8; 32], None).unwrap();
    let res = store.reserve_or_get(&other_tenant_scope(), "key-1", &[7u8; 32], None).unwrap();
    assert!(matches!(res, ReservationOutcome::Reserved { .. }));
}

#[test]
fn replay_count_increments_on_each_replay() {
    let mut store = store();
    let _ = store.reserve_or_get(&scope(), "key-1", &[7u8; 32], None).unwrap();
    store.complete(&scope(), "key-1", &[7u8; 32], outcome(parse(r#"{"content": []}"#))).unwrap();
    let mut counts = Vec::new();
    for _ in 0..3 {
        let res = store.reserve_or_get(&scope(), "key-1", &[7u8; 32], None).unwrap();
        if let ReservationOutcome::Completed { outcome, .. } = res {
            counts.push(outcome.replay_count);
        }
    }
    assert!(counts[2] > counts[0], "replay_count climbed: {counts:?}");
    assert_eq!(counts, vec![1, 2, 3]);
}

fn record(expires_at: Timestamp) -> IdempotencyRecord {
    IdempotencyRecord {
        request_hash: [0; 32],
        state: RecordState::Completed,
        reservation_id: 7,
        outcome: None,
        tenant_id: "t".to_owned(),
        identity_hash_hex: "00".repeat(32),
        method: "tools/call".to_owned(),
        tool_name: "x".to_owned(),
        created_at: at(1_000),
        expires_at,
        completed_at: None,
        replay_count: 0,
    }
}

#[test]
fn ttl_remaining_is_capped_to_at_least_one_ms() {
    let now = Timestamp::now();
    let mut record = record(now.shift_millis(-60_000));
    let ttl = KvBackedIdempotencyStore::remaining_ttl(&record, now);
    assert_eq!(ttl, 1);
    record.expires_at = now.shift_millis(60_000);
    let ttl = KvBackedIdempotencyStore::remaining_ttl(&record, now);
    assert!(ttl / 1_000 >= 59 && ttl / 1_000 <= 61, "ttl in expected window: {ttl:?}");
    assert_eq!(ttl, 60_000);
}

#[test]
fn peek_returns_none_for_clean_miss() {
    let mut store = store();
    let res = store.peek(&scope(), "key-missing", &[7u8; 32]).unwrap();
    assert!(res.is_none());
}

#[test]
fn peek_returns_completed_for_replay_hits() {
    let mut store = store();
    let _ = store.reserve_or_get(&scope(), "key-1", &[7u8; 32], None).unwrap();
    store.complete(&scope(), "key-1", &[7u8; 32], outcome(parse(r#"{"ok": true}"#))).unwrap();
    let res = store.peek(&scope(), "key-1", &[7u8; 32]).unwrap();
    match res {
        Some(PeekOutcome::Completed { outcome, .. }) => {
            assert_eq!(outcome.envelope.get("ok").unwrap().as_bool(), Some(true));
            assert!(outcome.replay_count >= 1);
        }
        other => panic!("expected Completed, got {other:?}"),
    }
}

#[test]
fn peek_returns_conflict_on_body_mismatch() {
    let mut store = store();
    let _ = store.reserve_or_get(&scope(), "key-1", &[7u8; 32], None).unwrap();
    let res = store.peek(&scope(), "key-1", &[8u8; 32]).unwrap();
    assert!(matches!(res, Some(PeekOutcome::Conflict { .. })));
}

#[test]
fn concurrent_reserves_serialise_one_winner() {
    let store = std::sync::Arc::new(std::sync::Mutex::new(store()));
    let racers: Vec<ReservationOutcome> = (0..2)
        .map(|_| {
            let store = store.clone();
            let mut held = store.lock().unwrap();
            held.reserve_or_get(&scope(), "key-1", &[42u8; 32], None).unwrap()
        })
        .collect();
    let reserved =
        racers.iter().filter(|r| matches!(r, ReservationOutcome::Reserved { .. })).count();
    let inflight =
        racers.iter().filter(|r| matches!(r, ReservationOutcome::InFlight { .. })).count();
    assert_eq!(reserved, 1, "exactly one racer must win Reserved: {racers:?}");
    assert_eq!(inflight, 1, "the loser must observe InFlight: {racers:?}");
}

#[test]
fn a_claim_lost_to_another_replica_reads_the_winner() {
    let now = at(5_000);
    let first = reserve_first(
        IdempotencyRetentionPolicy::default(),
        &scope(),
        &[7u8; 32],
        None,
        KvRead::Found(None),
        now,
        11,
    );
    let claim = match first {
        ReserveStep::Claim(claim) => claim,
        other => panic!("expected Claim, got {other:?}"),
    };
    assert_eq!(claim.ttl_ms, 86_400_000);
    assert_eq!(claim.tries_left, CLAIM_TRIES);
    let claim = match claim.on_claim(Ok(false)) {
        ReserveStep::ReadWinner(claim) => claim,
        other => panic!("expected ReadWinner, got {other:?}"),
    };
    let mut winner = claim.record.copy();
    winner.reservation_id = 12;
    winner.created_at = at(4_999);
    match claim.on_winner(KvRead::Found(Some(winner)), at(5_000)) {
        ReserveStep::Finish(Ok(ReservationOutcome::InFlight { started_at })) => {
            assert_eq!(started_at.secs(), 4_999);
        }
        other => panic!("expected InFlight, got {other:?}"),
    }
}

#[test]
fn replays_say_when_the_answer_came() {
    let mut store = store();
    let hash = [7u8; 32];
    store.reserve_or_get_at(&scope(), "k", &hash, None, at(10_000), 1).unwrap();
    store.complete_at(&scope(), "k", &[7u8; 32], outcome(Json::object()), at(10_030), 2).unwrap();
    match store.reserve_or_get_at(&scope(), "k", &hash, None, at(10_050), 3).unwrap() {
        ReservationOutcome::Completed { completed_at, .. } => {
            assert_eq!(completed_at.secs(), 10_030);
        }
        other => panic!("expected Completed, got {other:?}"),
    }
    match store.peek_at(&scope(), "k", &hash, at(10_060)).unwrap() {
        Some(PeekOutcome::Completed { completed_at, .. }) => {
            assert_eq!(completed_at.secs(), 10_030);
        }
        other => panic!("expected Completed, got {other:?}"),
    }
}

#[test]
fn failures_of_the_key_value_store_are_reported() {
    let now = at(5_000);
    match peek_step(&scope(), &[7u8; 32], KvRead::Failed("down".to_owned()), now) {
        PeekStep::Answer(Err(IdempotencyError::Internal(e))) => assert_eq!(e, "kv get: down"),
        other => panic!("unexpected {other:?}"),
    }
    match peek_step(&scope(), &[7u8; 32], KvRead::Undecodable("bad".to_owned()), now) {
        PeekStep::Answer(Err(IdempotencyError::Internal(_))) => {}
        other => panic!("unexpected {other:?}"),
    }
    let IdempotencyError::Internal(e) = put_error("full");
    assert_eq!(e, "kv put: full");
}

#[test]
fn records_end_with_their_life() {
    let mut store = store();
    let start = at(10_000);
    let first = store.reserve_or_get_at(&scope(), "k", &[7u8; 32], Some(5_000), start, 1).unwrap();
    assert!(matches!(first, ReservationOutcome::Reserved { reservation_id: 1 }));
    let held = store.reserve_or_get_at(&scope(), "k", &[7u8; 32], None, at(10_004), 2).unwrap();
    assert!(matches!(held, ReservationOutcome::InFlight { .. }));
    let again = store.reserve_or_get_at(&scope(), "k", &[7u8; 32], None, at(10_005), 3).unwrap();
    assert!(matches!(again, ReservationOutcome::Reserved { reservation_id: 3 }));
}

#[test]
fn an_answer_without_a_claim_is_kept_all_the_same() {
    let mut store = store();
    store.complete_at(&scope(), "k", &[7u8; 32], outcome(Json::object()), at(1_000), 9).unwrap();
    match store.peek_at(&scope(), "k", &[7u8; 32], at(1_001)).unwrap() {
        Some(PeekOutcome::Completed { outcome, completed_at }) => {
            assert_eq!(outcome.replay_count, 1);
            assert_eq!(completed_at.secs(), 1_000);
        }
        other => panic!("expected Completed, got {other:?}"),
    }
    match store.reserve_or_get_at(&scope(), "k", &[7u8; 32], None, at(1_002), 10).unwrap() {
        ReservationOutcome::Completed { outcome, .. } => assert_eq!(outcome.replay_count, 2),
        other => panic!("expected Completed, got {other:?}"),
    }
    match store.reserve_or_get_at(&scope(), "k", &[8u8; 32], None, at(1_003), 11).unwrap() {
        ReservationOutcome::Conflict { stored_request_hash } => {
            assert_eq!(stored_request_hash, [7u8; 32]);
        }
        other => panic!("expected Conflict, got {other:?}"),
    }
    let step = complete_step(
        IdempotencyRetentionPolicy::default(),
        &scope(),
        &[7u8; 32],
        outcome(Json::object()),
        KvRead::Failed("x".to_owned()),
        at(1_000),
        9,
    );
    assert!(step.is_err());
}

fn claim(read: KvRead, now: Timestamp) -> ReserveStep {
    reserve_first(IdempotencyRetentionPolicy::default(), &scope(), &[7u8; 32], None, read, now, 11)
}

fn lost(step: ReserveStep) -> Reservation {
    let claim = match step {
        ReserveStep::Claim(claim) => claim,
        other => panic!("expected Claim, got {other:?}"),
    };
    match claim.on_claim(Ok(false)) {
        ReserveStep::ReadWinner(claim) => claim,
        other => panic!("expected ReadWinner, got {other:?}"),
    }
}

#[test]
fn an_answer_seen_after_a_lost_claim_counts_as_a_replay() {
    let reader = lost(claim(KvRead::Found(None), at(5_000)));
    let mut winner = reader.record.copy();
    winner.state = RecordState::Completed;
    winner.outcome = Some(outcome(Json::object()));
    winner.replay_count = 4;
    match reader.on_winner(KvRead::Found(Some(winner)), at(5_001)) {
        ReserveStep::Rewrite { record, ttl_ms, outcome } => {
            assert_eq!(record.replay_count, 5);
            assert_eq!(ttl_ms, 86_399_000);
            match outcome {
                ReservationOutcome::Completed { outcome, .. } => {
                    assert_eq!(outcome.replay_count, 5);
                }
                other => panic!("expected Completed, got {other:?}"),
            }
        }
        other => panic!("expected Rewrite, got {other:?}"),
    }
}

#[test]
fn replay_counts_stay_at_their_top() {
    let reader = lost(claim(KvRead::Found(None), at(5_000)));
    let mut winner = reader.record.copy();
    winner.state = RecordState::Completed;
    winner.outcome = Some(outcome(Json::object()));
    winner.replay_count = u32::MAX;
    match claim(KvRead::Found(Some(winner)), at(5_001)) {
        ReserveStep::Rewrite { record, .. } => assert_eq!(record.replay_count, u32::MAX),
        other => panic!("expected Rewrite, got {other:?}"),
    }
}

#[test]
fn racers_for_one_key_have_one_winner() {
    let mut slot: Option<IdempotencyRecord> = None;
    let mut claims = Vec::new();
    for i in 0..5 {
        let seen = slot.as_ref().map(|r| r.copy());
        match claim(KvRead::Found(seen), at(5_000 + i)) {
            ReserveStep::Claim(c) => claims.push(c),
            other => panic!("expected Claim, got {other:?}"),
        }
    }
    let mut reserved = 0;
    let mut in_flight = 0;
    for c in claims {
        let free = slot.is_none();
        if free {
            slot = Some(c.record.copy());
        }
        let seen = slot.as_ref().map(|r| r.copy());
        let step = match c.on_claim(Ok(free)) {
            ReserveStep::ReadWinner(c) => c.on_winner(KvRead::Found(seen), at(6_000)),
            step => step,
        };
        match step {
            ReserveStep::Finish(Ok(ReservationOutcome::Reserved { .. })) => reserved += 1,
            ReserveStep::Finish(Ok(ReservationOutcome::InFlight { started_at })) => {
                assert_eq!(started_at.secs(), 5_000);
                in_flight += 1;
            }
            other => panic!("unexpected {other:?}"),
        }
    }
    assert_eq!((reserved, in_flight), (1, 4));
}

#[test]
fn records_past_the_calendar_are_errors() {
    let policy = IdempotencyRetentionPolicy { default_ttl_ms: i64::MAX as u64, max_ttl_ms: 0 };
    let mut store = KvBackedIdempotencyStore::new_in_memory(policy);
    let now = at(1_000);
    let IdempotencyError::Internal(e) =
        store.reserve_or_get_at(&scope(), "k", &[7u8; 32], None, now, 1).unwrap_err();
    assert_eq!(e, "record expiry out of range");
    let IdempotencyError::Internal(e) =
        store.complete_at(&scope(), "k", &[7u8; 32], outcome(Json::object()), now, 2).unwrap_err();
    assert_eq!(e, "record expiry out of range");
    let held = store.reserve_or_get_at(&scope(), "k", &[7u8; 32], Some(60_000), now, 3).unwrap();
    assert!(matches!(held, ReservationOutcome::Reserved { reservation_id: 3 }));
    let again = store.reserve_or_get_at(&scope(), "k", &[7u8; 32], None, now, 4).unwrap();
    assert!(matches!(again, ReservationOutcome::InFlight { .. }));
    store.complete_at(&scope(), "k", &[7u8; 32], outcome(Json::object()), now, 5).unwrap();
    let done = store.reserve_or_get_at(&scope(), "k", &[7u8; 32], None, now, 6).unwrap();
    assert!(matches!(done, ReservationOutcome::Completed { .. }));
}

#[test]
fn storage_keys_tell_scopes_and_keys_apart() {
    assert_ne!(storage_key(&scope(), "k"), storage_key(&other_tenant_scope(), "k"));
    assert_ne!(storage_key(&scope(), "k"), storage_key(&scope(), "l"));
    assert_eq!(storage_key(&scope(), "k"), storage_key(&scope(), "k"));
}

#[test]
fn validate_accepts_valid_ascii_key() {
    let v = Json::text("01J9X8N3QKHA0V9C4D8TYR2ABC");
    match validate_request_key(Some(&v)) {
        KeyValidation::Valid(s) => assert_eq!(s, "01J9X8N3QKHA0V9C4D8TYR2ABC"),
        other => panic!("expected Valid, got {other:?}"),
    }
}

#[test]
fn validate_trims_surrounding_whitespace() {
    let v = Json::text("  abc  ");
    match validate_request_key(Some(&v)) {
        KeyValidation::Valid(s) => assert_eq!(s, "abc"),
        other => panic!("expected Valid, got {other:?}"),
    }
}

#[test]
fn validate_rejects_empty_string() {
    let v = Json::text("   ");
    assert_eq!(validate_request_key(Some(&v)), KeyValidation::Invalid(KeyMalformedReason::Empty));
}

#[test]
fn validate_rejects_non_ascii() {
    let v = Json::text("naïve-key");
    assert_eq!(
        validate_request_key(Some(&v)),
        KeyValidation::Invalid(KeyMalformedReason::NonAscii)
    );
}

#[test]
fn validate_rejects_too_long() {
    let v = Json::text(&"a".repeat(MAX_KEY_LEN + 1));
    assert_eq!(validate_request_key(Some(&v)), KeyValidation::Invalid(KeyMalformedReason::TooLong));
    let longest = Json::text(&"a".repeat(MAX_KEY_LEN));
    assert_eq!(
        validate_request_key(Some(&longest)),
        KeyValidation::Valid("a".repeat(MAX_KEY_LEN))
    );
}

#[test]
fn validate_rejects_non_string() {
    let v = Json::count(42);
    assert_eq!(
        validate_request_key(Some(&v)),
        KeyValidation::Invalid(KeyMalformedReason::NotAString)
    );
}

#[test]
fn absent_when_missing_or_null() {
    assert_eq!(validate_request_key(None), KeyValidation::Absent);
    assert_eq!(validate_request_key(Some(&Json::Null)), KeyValidation::Absent);
}

#[test]
fn extract_from_meta_finds_well_known_key() {
    let meta = parse(r#"{"dev.mcpg/idempotency-key": "abc"}"#);
    assert!(matches!(
        extract_request_key(Some(&meta)),
        KeyValidation::Valid(s) if s == "abc"
    ));
}

#[test]
fn extract_returns_absent_when_meta_lacks_key() {
    let meta = parse(r#"{"progressToken": "p"}"#);
    assert_eq!(extract_request_key(Some(&meta)), KeyValidation::Absent);
}

#[test]
fn hash_request_body_deterministic_and_distinct() {
    let a = hash_request_body("tools/call", "charge", Some(&parse(r#"{"amount": 100}"#)));
    let b = hash_request_body("tools/call", "charge", Some(&parse(r#"{"amount": 100}"#)));
    let c = hash_request_body("tools/call", "charge", Some(&parse(r#"{"amount": 200}"#)));
    assert_eq!(a, b, "same input ⇒ same hash");
    assert_ne!(a, c, "different arguments ⇒ different hash");
}

#[test]
fn hash_request_body_hashes_the_separated_parts() {
    let expected = blake3::hash(b"tools/call\0charge\0{\"amount\":100}");
    let got = hash_request_body("tools/call", "charge", Some(&parse(r#"{"amount": 100}"#)));
    assert_eq!(&got, expected.as_bytes());
    let bare = blake3::hash(b"tools/call\0charge\0");
    assert_eq!(&hash_request_body("tools/call", "charge", None), bare.as_bytes());
}

#[test]
fn hash_identity_distinct_per_subject() {
    let a = hash_identity(Some("alice"), Some("oidc"), Some("issuer-a"));
    let b = hash_identity(Some("bob"), Some("oidc"), Some("issuer-a"));
    assert_ne!(a, b);
    assert_eq!(&a, blake3::hash(b"alice\0oidc\0issuer-a").as_bytes());
}

#[test]
fn stamp_replay_marker_idempotent() {
    let env = parse(r#"{"content": [], "isError": false}"#);
    let stamped = stamp_replay_marker(env, Timestamp::now());
    let meta = stamped.get("_meta").unwrap();
    assert_eq!(meta.get(META_KEY_REPLAYED).unwrap().as_bool(), Some(true));
    assert!(meta.get(META_KEY_ORIGINAL_COMPLETED_AT).unwrap().as_str().is_some());
    let twice = stamp_replay_marker(
        stamp_replay_marker(Json::object(), at(0)),
        at(0),
    );
    assert!(twice.same(&stamp_replay_marker(Json::object(), at(0))));
}

#[test]
fn values_that_are_no_objects_are_not_marked() {
    assert!(stamp_replay_marker(Json::text("x"), at(0)).same(&Json::text("x")));
}

#[test]
fn key_hash_hex_short() {
    let h = key_hash_hex("abc");
    assert_eq!(h.len(), 32, "16 bytes → 32 hex chars");
    assert_eq!(h, hex::encode(&blake3::hash(b"abc").as_bytes()[..16]));
}

#[test]
fn capability_advertisement_shape() {
    let v = capability_advertisement(
        86400,
        604800,
        "per-identity",
        &["tools/call", "tasks/create"],
        "reject",
    );
    assert_eq!(v.get("scope").unwrap().as_str(), Some("per-identity"));
    assert!(v.get("default_ttl_seconds").unwrap().same(&Json::count(86400)));
    assert!(v.get("max_ttl_seconds").unwrap().same(&Json::count(604800)));
    assert_eq!(v.get("supports_replay_marker").unwrap().as_bool(), Some(true));
    assert_eq!(v.get("conflict_policy").unwrap().as_str(), Some("reject"));
    match v.get("supported_methods").unwrap() {
        Json::Array(methods) => assert_eq!(methods[0].as_str(), Some("tools/call")),
        other => panic!("expected a list, got {other:?}"),
    }
}

#[test]
fn dispatcher_scope_construction_is_stable() {
    let id_a = hash_identity(Some("alice"), Some("oidc"), Some("issuer"));
    let id_b = hash_identity(Some("bob"), Some("oidc"), Some("issuer"));
    assert_eq!(id_a, hash_identity(Some("alice"), Some("oidc"), Some("issuer")));
    assert_ne!(id_a, id_b);
}

#[test]
fn dispatcher_hit_completed_returns_replay_envelope() {
    let original_completed_at = Timestamp::now();
    let envelope = parse(r#"{"content": [], "isError": false}"#);
    let stamped = stamp_replay_marker(envelope.copy(), original_completed_at);
    let meta = stamped.get("_meta").unwrap();
    assert_eq!(meta.get(META_KEY_REPLAYED).unwrap().as_bool(), Some(true));
    assert_eq!(
        meta.get(META_KEY_ORIGINAL_COMPLETED_AT).unwrap().as_str(),
        Some(original_completed_at.to_rfc3339().as_str())
    );
    assert!(stamped.get("content").unwrap().same(envelope.get("content").unwrap()));
}

#[test]
fn dispatcher_hit_in_flight_emits_audit_payload() {
    let key = "in-flight-test-key";
    let payload = Json::object()
        .with("key_hash", Json::Str(key_hash_hex(key)))
        .with("started_at", Json::Str(Timestamp::now().to_rfc3339()));
    let started = payload.get("started_at").unwrap().copy();
    let body_text = match GatewayMessageDispatcher::new()
        .reply(GatewayResponsePayload::Runtime(payload))
        .unwrap()
    {
        DispatchResponse::Unary(bytes) => String::from_utf8(bytes).unwrap(),
        other => panic!("unexpected {other:?}"),
    };
    assert!(!body_text.contains(key), "literal key leaked into audit");
    assert!(started.as_str().is_some());
}

#[test]
fn dispatcher_hit_conflict_carries_stored_hash() {
    let mut store = store();
    let _ = store.reserve_or_get(&scope(), "k", &[9u8; 32], None).unwrap();
    match store.peek(&scope(), "k", &[3u8; 32]).unwrap() {
        Some(PeekOutcome::Conflict { stored_request_hash }) => {
            assert_eq!(hex::encode(stored_request_hash).len(), 64);
            assert_ne!(hex::encode(stored_request_hash), hex::encode([3u8; 32]));
        }
        other => panic!("expected Conflict, got {other:?}"),
    }
}

#[test]
fn times_are_written_as_chrono_writes_them() {
    assert_eq!(at(0).to_rfc3339(), "1970-01-01T00:00:00+00:00");
    assert_eq!(
        Timestamp::new(1_700_000_000, 500_000_000).unwrap().to_rfc3339(),
        "2023-11-14T22:13:20.500+00:00"
    );
    assert!(Timestamp::new(0, 1_000_000_000).is_none());
}

#[test]
fn trait_object_compiles_and_dispatches() {
    fn assert_send_sync<T: Send + Sync>() {}
    assert_send_sync::<NoopIdempotencyStore>();
    let mut store: Box<dyn IdempotencyStore> = Box::new(noop_idempotency_store());
    assert_eq!(store.gc_expired(), 0);
}

fn sample_scope() -> IdempotencyScope {
    IdempotencyScope {
        tenant_id: "tenant-alpha".to_owned(),
        identity_hash: [7u8; 32],
        method: "tools/call".to_owned(),
        tool_name: "charge_customer".to_owned(),
    }
}

#[test]
fn noop_store_always_reserves_fresh() {
    let mut store = NoopIdempotencyStore;
    let scope = sample_scope();
    assert!(store.peek(&scope, "k1", &[1u8; 32]).unwrap().is_none());
    let outcome = store.reserve_or_get(&scope, "k1", &[1u8; 32], None).unwrap();
    assert!(matches!(outcome, ReservationOutcome::Reserved { .. }));
    store
        .complete(
            &scope,
            "k1",
            &[1u8; 32],
            CachedOutcome {
                envelope: Json::object(),
                original_request_id: Json::count(1),
                original_correlation_id: String::new(),
                replay_count: 0,
                payload_truncated: false,
            },
        )
        .unwrap();
    assert_eq!(store.gc_expired(), 0);
}

#[test]
fn errors_say_what_failed() {
    assert_eq!(
        IdempotencyError::Internal("boom".to_owned()).message(),
        "idempotency store error: boom"
    );
}

#[test]
fn the_present_time_is_that_of_the_systems_clock() {
    let before = chrono::Utc::now();
    let now = Timestamp::now();
    let after = chrono::Utc::now();
    assert!(now.secs() >= 0);
    let read = (now.secs(), now.nanos());
    assert!((before.timestamp(), before.timestamp_subsec_nanos()) <= read);
    assert!(read <= (after.timestamp(), after.timestamp_subsec_nanos()));
}
