use mcpg_runtime::identity::{Attributes, RequestIdentity};
use mcpg_runtime::quota_gate::{
    budget_state_ttl_ms, budget_window_ms, check_budget_pre_flight, scope_key, window_overflows,
    window_to_ms, BackendQuotasRef, BudgetCounters, BudgetPolicy, ConcurrencyPolicy, QuotaAction,
    QuotaDecision, QuotaEvalContext, QuotaGate, QuotaKind, QuotasConfig, RateLimitPolicy,
};
use mcpg_runtime::table::Table;

fn rate_limit_policy(id: &str, calls_per_minute: u32, burst: Option<u32>) -> RateLimitPolicy {
    RateLimitPolicy {
        id: id.into(),
        scope: "global".into(),
        identity_claim: None,
        calls_per_minute,
        burst,
    }
}

fn no_quotas() -> QuotasConfig {
    QuotasConfig {
        rate_limits: Vec::new(),
        budgets: Vec::new(),
        concurrency: Vec::new(),
        fail_open_on_error: false,
    }
}

fn no_ref() -> BackendQuotasRef {
    BackendQuotasRef { rate_limit: None, budget: None, concurrency: None }
}

fn anonymous() -> RequestIdentity {
    RequestIdentity::Anonymous { source: "test".into() }
}

#[test]
fn window_to_ms_handles_basic_units() {
    assert_eq!(window_to_ms("60s"), Some(60_000));
    assert_eq!(window_to_ms("5m"), Some(300_000));
    assert_eq!(window_to_ms("24h"), Some(86_400_000));
    assert_eq!(window_to_ms("1d"), Some(86_400_000));
}

#[test]
fn window_to_ms_returns_none_on_garbage() {
    assert_eq!(window_to_ms(""), None);
    assert_eq!(window_to_ms("60"), None);
    assert_eq!(window_to_ms("60x"), None);
    assert_eq!(window_to_ms("abc"), None);
}

#[test]
fn windows_beyond_the_clock_are_told_apart() {
    assert!(window_overflows("9223372036854775807d"));
    assert!(!window_overflows("24h"));
    assert_eq!(window_to_ms("99999999999999999999s"), None);
    assert_eq!(window_to_ms(" 2m "), Some(120_000));
    assert_eq!(window_to_ms("60sec"), None);
    assert_eq!(window_to_ms("60s x"), None);
    assert_eq!(window_to_ms("5mm"), None);
}

#[test]
fn scope_key_per_tool_uses_tool_name() {
    let identity = anonymous();
    let bref = no_ref();
    let ctx = QuotaEvalContext {
        bref: &bref,
        tool_name: "my-tool",
        session_id: None,
        identity: &identity,
    };
    assert_eq!(scope_key("per_tool", None, &ctx), "my-tool");
}

#[test]
fn scope_key_per_identity_falls_back_to_anonymous() {
    let identity = anonymous();
    let bref = no_ref();
    let ctx = QuotaEvalContext {
        bref: &bref,
        tool_name: "my-tool",
        session_id: None,
        identity: &identity,
    };
    assert_eq!(scope_key("per_identity", None, &ctx), "anonymous");
}

#[test]
fn scope_key_per_identity_resolves_claim_from_attributes() {
    let identity = RequestIdentity::Verified {
        subject_id: "user-1".into(),
        issuer: "iss".into(),
        auth_provider: "oidc".into(),
        source: "test".into(),
        roles: Vec::new(),
        groups: Vec::new(),
        scopes: Vec::new(),
        attributes: Attributes::new().with("org_id", "acme-corp"),
    };
    let bref = no_ref();
    let ctx = QuotaEvalContext {
        bref: &bref,
        tool_name: "my-tool",
        session_id: None,
        identity: &identity,
    };
    assert_eq!(scope_key("per_identity", Some("org_id"), &ctx), "acme-corp");
    assert_eq!(scope_key("per_identity", Some("team"), &ctx), "user-1");
    assert_eq!(scope_key("per_session", None, &ctx), "no-session");
}

#[test]
fn scope_key_global_is_constant() {
    let identity = anonymous();
    let bref = no_ref();
    let ctx = QuotaEvalContext {
        bref: &bref,
        tool_name: "my-tool",
        session_id: Some("sess-1"),
        identity: &identity,
    };
    assert_eq!(scope_key("global", None, &ctx), "global");
    assert_eq!(scope_key("galactic", None, &ctx), "global");
    assert_eq!(scope_key("per_session", None, &ctx), "sess-1");
}

#[test]
fn gate_allows_when_no_refs_set() {
    let mut gate = QuotaGate::new(no_quotas(), Table::new());
    let bref = no_ref();
    let identity = anonymous();
    let decision = gate.evaluate(
        &QuotaEvalContext {
            bref: &bref,
            tool_name: "my-tool",
            session_id: None,
            identity: &identity,
        },
        false,
        false,
    );
    assert!(matches!(decision, QuotaDecision::Allow { .. }));
}

#[test]
fn gate_denies_on_drained_rate_limit() {
    let mut qc = no_quotas();
    qc.rate_limits.push(rate_limit_policy("rl", 60, Some(1)));
    let mut gate = QuotaGate::new(qc, Table::new());
    let bref = BackendQuotasRef { rate_limit: Some("rl".into()), ..no_ref() };
    let identity = anonymous();
    let ctx = QuotaEvalContext {
        bref: &bref,
        tool_name: "my-tool",
        session_id: None,
        identity: &identity,
    };
    assert!(matches!(gate.evaluate(&ctx, true, true), QuotaDecision::Allow { .. }));
    match gate.evaluate(&ctx, false, true) {
        QuotaDecision::Deny { policy_id, kind, reason } => {
            assert_eq!(policy_id, "rl");
            assert_eq!(kind, QuotaKind::RateLimit);
            assert_eq!(reason, "rate-limit `rl` exhausted for scope `global`");
        }
        QuotaDecision::Allow { .. } => panic!("expected Deny"),
    }
}

fn concurrency_gate(max_concurrent: u32) -> (QuotaGate, BackendQuotasRef) {
    let mut qc = no_quotas();
    qc.concurrency.push(ConcurrencyPolicy {
        id: "cc".into(),
        max_concurrent,
        scope: "global".into(),
        identity_claim: None,
    });
    let bref = BackendQuotasRef { concurrency: Some("cc".into()), ..no_ref() };
    (QuotaGate::new(qc, Table::new()), bref)
}

#[test]
fn gate_denies_on_full_concurrency_cap() {
    let (mut gate, bref) = concurrency_gate(1);
    let identity = anonymous();
    let ctx = QuotaEvalContext {
        bref: &bref,
        tool_name: "my-tool",
        session_id: None,
        identity: &identity,
    };
    let held = match gate.evaluate(&ctx, true, true) {
        QuotaDecision::Allow { permit: Some(permit) } => permit,
        other => panic!("expected a permit, got {other:?}"),
    };

    match gate.evaluate(&ctx, true, true) {
        QuotaDecision::Deny { kind, reason, .. } => {
            assert_eq!(kind, QuotaKind::Concurrency);
            assert_eq!(
                reason,
                "concurrency cap `cc` reached for scope `global` (1/1 in flight)"
            );
        }
        QuotaDecision::Allow { .. } => panic!("expected Deny on cap"),
    }

    gate.release(held);
    let third = gate.evaluate(&ctx, true, true);
    assert!(matches!(third, QuotaDecision::Allow { permit: Some(_) }));
}

#[test]
fn evaluate_for_tool_short_circuits_when_no_binding_ref() {
    let mut qc = no_quotas();
    qc.rate_limits.push(rate_limit_policy("rl", 60, Some(1)));
    let mut gate = QuotaGate::new(qc, Table::new());
    let identity = anonymous();
    let bref = BackendQuotasRef { rate_limit: Some("rl".into()), ..no_ref() };
    let drained = gate.evaluate(
        &QuotaEvalContext {
            bref: &bref,
            tool_name: "drained",
            session_id: None,
            identity: &identity,
        },
        false,
        false,
    );
    assert!(matches!(drained, QuotaDecision::Deny { .. }));
    for _ in 0..10 {
        let dec = gate.evaluate_for_tool("any-tool", None, &identity, false, false);
        assert!(
            matches!(dec, QuotaDecision::Allow { permit: None }),
            "no binding ref → fast Allow"
        );
    }
}

#[test]
fn evaluate_for_tool_uses_binding_ref_when_present() {
    let mut qc = no_quotas();
    qc.rate_limits.push(rate_limit_policy("rl", 60, Some(1)));
    let mut refs = Table::new();
    refs.put("my-tool", BackendQuotasRef { rate_limit: Some("rl".into()), ..no_ref() });
    let mut gate = QuotaGate::new(qc, refs);
    let identity = anonymous();
    let first = gate.evaluate_for_tool("my-tool", None, &identity, true, true);
    assert!(matches!(first, QuotaDecision::Allow { .. }));
    let second = gate.evaluate_for_tool("my-tool", None, &identity, false, true);
    assert!(matches!(second, QuotaDecision::Deny { .. }));
    let other = gate.evaluate_for_tool("other-tool", None, &identity, false, true);
    assert!(matches!(other, QuotaDecision::Allow { permit: None }));
}

#[test]
fn evaluate_for_tool_skips_empty_ref() {
    let mut refs = Table::new();
    refs.put("my-tool", no_ref());
    let mut gate = QuotaGate::new(no_quotas(), refs);
    let identity = anonymous();
    let dec = gate.evaluate_for_tool("my-tool", None, &identity, false, false);
    assert!(
        matches!(dec, QuotaDecision::Allow { permit: None }),
        "empty BackendQuotasRef short-circuits to Allow"
    );
}

#[test]
fn is_empty_returns_true_when_no_refs_or_policies() {
    let gate = QuotaGate::new(no_quotas(), Table::new());
    assert!(gate.is_empty());
}

#[test]
fn is_empty_returns_false_when_refs_present() {
    let mut refs = Table::new();
    refs.put("tool", no_ref());
    let gate = QuotaGate::new(no_quotas(), refs);
    assert!(!gate.is_empty());
}

fn budget() -> BudgetPolicy {
    BudgetPolicy {
        id: "b".into(),
        scope: "per_tool".into(),
        identity_claim: None,
        window: "1m".into(),
        cap_token_count: Some(100),
        cap_calls: Some(2),
    }
}

#[test]
fn budgets_cap_calls_and_tokens_within_a_window() {
    let p = budget();
    let w = budget_window_ms(&p);
    assert_eq!(w, 60_000);
    assert_eq!(budget_state_ttl_ms(w), 120_000);
    let first = check_budget_pre_flight(&p, None, w, false, false, 0);
    assert!(first.allowed);
    let second = check_budget_pre_flight(&p, Some(first.counters), w, false, false, 1);
    assert!(second.allowed);
    assert_eq!(second.counters.calls, 2);
    let third = check_budget_pre_flight(&p, Some(second.counters), w, false, false, 2);
    assert!(!third.allowed);
    assert_eq!(third.counters.calls, 2);
    let rolled = check_budget_pre_flight(&p, Some(third.counters), w, false, false, 60_000);
    assert!(rolled.allowed && rolled.rolled);
    assert_eq!(rolled.counters.calls, 1);
    let spent = BudgetCounters { tokens: 100, calls: 0, window_started_unix_ms: 0 };
    assert!(!check_budget_pre_flight(&p, Some(spent), w, false, false, 1).allowed);
    let fresh = BudgetCounters { tokens: 0, calls: 0, window_started_unix_ms: 0 };
    assert!(!check_budget_pre_flight(&p, Some(fresh), w, true, false, 1).allowed);
}

#[test]
fn budgets_are_asked_after_rate_limits_and_before_slots() {
    let mut qc = no_quotas();
    qc.budgets.push(budget());
    qc.concurrency.push(ConcurrencyPolicy {
        id: "cc".into(),
        max_concurrent: 1,
        scope: "global".into(),
        identity_claim: None,
    });
    let bref = BackendQuotasRef {
        rate_limit: None,
        budget: Some("b".into()),
        concurrency: Some("cc".into()),
    };
    let mut gate = QuotaGate::new(qc, Table::new());
    let identity = anonymous();
    let ctx = QuotaEvalContext {
        bref: &bref,
        tool_name: "t",
        session_id: None,
        identity: &identity,
    };
    let drawn = match gate.start(&ctx) {
        QuotaAction::ChargeBudget(drawn) => drawn,
        other => panic!("expected a budget, got {other:?}"),
    };
    match gate.after_budget(&ctx, &drawn, false) {
        QuotaDecision::Deny { kind, reason, .. } => {
            assert_eq!(kind, QuotaKind::Budget);
            assert_eq!(reason, "budget `b` exhausted for scope `t`");
        }
        other => panic!("expected Deny, got {other:?}"),
    }
    let allowed = gate.evaluate(&ctx, true, true);
    assert!(matches!(allowed, QuotaDecision::Allow { permit: Some(_) }), "no slot was lost");
    assert_eq!(QuotaKind::Budget.as_str(), "budget");
}
