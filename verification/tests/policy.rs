use mcpg_runtime::context::RequestContext;
use mcpg_runtime::identity::{
    Attributes, GatewayRequestId, RequestIdentity, RequestTrustLevel, TransportKind,
};
use mcpg_runtime::policy::{
    cel_verdict, CelToolAccessPolicy, PluginIdentity, PreDispatchPolicyOutcome,
    ToolAccessPolicyConfig, ToolPolicyContext, ToolTrustRule,
};
use mcpg_runtime::outside::CelOutcome;
use mcpg_runtime::policy_gate::{
    decide_global_cel, decide_rule_cel, FederatedToolPolicies, PolicyCache, PolicyCacheConfig,
    PreDispatchPolicyGate,
};

fn sample_context(identity: RequestIdentity) -> RequestContext {
    RequestContext::new(
        GatewayRequestId::new(),
        None,
        Some("session-1".to_owned()),
        None,
        identity,
        TransportKind::Http,
    )
}

fn header_user(tool: &str) -> ToolPolicyContext {
    ToolPolicyContext::from_request_context(
        &sample_context(RequestIdentity::HttpHeader {
            subject_id: "user-1".to_owned(),
            source: "x-mcpg-subject-id".to_owned(),
        }),
        tool,
    )
}

fn anonymous(tool: &str) -> ToolPolicyContext {
    ToolPolicyContext::from_request_context(
        &sample_context(RequestIdentity::Anonymous { source: "test".to_owned() }),
        tool,
    )
}

#[test]
fn tool_policy_context_normalizes_request_identity() {
    let context = header_user("mcpg.runtime.snapshot");

    assert_eq!(context.tool_name, "mcpg.runtime.snapshot");
    assert_eq!(context.trust_level, RequestTrustLevel::HeaderAsserted);
    assert_eq!(context.principal_id.as_deref(), Some("user-1"));
    assert_eq!(context.identity_kind, "http_header");
}

#[test]
fn pre_dispatch_policy_denies_when_trust_is_below_requirement() {
    let mut gate = PreDispatchPolicyGate::try_new(ToolAccessPolicyConfig::default())
        .expect("default policy valid");
    let context = anonymous("mcpg.runtime.snapshot");

    match gate.evaluate_tool_call(&context, 0) {
        PreDispatchPolicyOutcome::Deny(denial) => {
            assert_eq!(denial.http_status, 403);
            assert_eq!(denial.code, -32003);
            assert!(denial.audit_reason.contains("tool_trust_requirement_not_met"));
        }
        PreDispatchPolicyOutcome::Allow => panic!("anonymous request should be denied"),
    }
}

fn rule(tool: &str, trust: RequestTrustLevel, condition: Option<&str>) -> ToolTrustRule {
    ToolTrustRule {
        tool_name: tool.to_owned(),
        minimum_trust: trust,
        cel_allow_if: condition.map(str::to_owned),
        required_scopes: Vec::new(),
    }
}

#[test]
fn federated_tools_inherit_their_federation_governance() {
    let mut gate = PreDispatchPolicyGate::try_new(ToolAccessPolicyConfig::default())
        .expect("default policy valid");
    gate.publish_federated(
        FederatedToolPolicies::compile(
            vec![
                rule("notion.search", RequestTrustLevel::Unauthenticated, None),
                rule("notion.admin", RequestTrustLevel::Verified, None),
            ],
            vec![],
        )
        .expect("compile federated rules"),
    );
    assert!(matches!(
        gate.evaluate_tool_call(&anonymous("notion.search"), 0),
        PreDispatchPolicyOutcome::Allow
    ));
    assert!(matches!(
        gate.evaluate_tool_call(&anonymous("notion.admin"), 0),
        PreDispatchPolicyOutcome::Deny(_)
    ));
}

#[test]
fn the_first_prefix_of_an_import_counts() {
    let mut gate = PreDispatchPolicyGate::try_new(ToolAccessPolicyConfig::default())
        .expect("default policy valid");
    gate.publish_federated(
        FederatedToolPolicies::compile(
            vec![],
            vec![
                ("a.b.".to_owned(), rule("a.b.", RequestTrustLevel::Verified, None)),
                ("a.".to_owned(), rule("a.", RequestTrustLevel::Unauthenticated, None)),
                ("a.x".to_owned(), rule("a.x", RequestTrustLevel::Verified, None)),
                (String::new(), rule("", RequestTrustLevel::Unauthenticated, None)),
            ],
        )
        .expect("compile prefix rules"),
    );
    assert!(gate.is_tool_visible(&anonymous("a.x"), 0));
    assert!(!gate.is_tool_visible(&anonymous("a.b.x"), 0));
    assert!(!gate.is_tool_visible(&anonymous("z"), 0));
}

fn compile_failure(rules: Vec<ToolTrustRule>, prefixes: Vec<(String, ToolTrustRule)>) -> String {
    FederatedToolPolicies::compile(rules, prefixes).err().expect("a refusal").message
}

#[test]
fn the_first_rule_that_does_not_compile_is_named() {
    let low = RequestTrustLevel::Unauthenticated;
    let bad = |name: &str| rule(name, low, Some("1 +"));
    let good = |name: &str| rule(name, low, None);
    let exact = compile_failure(
        vec![good("a"), bad("b"), bad("c")],
        vec![("p.".to_owned(), bad("p."))],
    );
    assert!(exact.contains("b"), "{exact}");
    assert_eq!(exact, compile_failure(vec![bad("b")], vec![]));
    let prefixes = vec![
        (String::new(), bad("skipped")),
        ("p.".to_owned(), good("p.")),
        ("q.".to_owned(), bad("q.")),
        ("r.".to_owned(), bad("r.")),
    ];
    let prefix = compile_failure(vec![good("a")], prefixes);
    assert_eq!(prefix, compile_failure(vec![bad("q.")], vec![]));
}

#[test]
fn pre_dispatch_policy_honors_per_tool_override() {
    let mut gate = PreDispatchPolicyGate::try_new(ToolAccessPolicyConfig {
        default_minimum_trust: RequestTrustLevel::HeaderAsserted,
        cel_allow_if: None,
        rules: vec![rule("mcpg.runtime.snapshot", RequestTrustLevel::Unauthenticated, None)],
    })
    .expect("policy valid");
    assert!(matches!(
        gate.evaluate_tool_call(&anonymous("mcpg.runtime.snapshot"), 0),
        PreDispatchPolicyOutcome::Allow
    ));
}

#[test]
fn pre_dispatch_policy_honors_cel_allow_if_expression() {
    let mut gate = PreDispatchPolicyGate::try_new(ToolAccessPolicyConfig {
        default_minimum_trust: RequestTrustLevel::HeaderAsserted,
        cel_allow_if: Some(
            "tool_name == \"mcpg.runtime.snapshot\" && trust_level == \"header_asserted\""
                .to_owned(),
        ),
        rules: Vec::new(),
    })
    .expect("policy valid");
    assert!(matches!(
        gate.evaluate_tool_call(&header_user("mcpg.runtime.snapshot"), 0),
        PreDispatchPolicyOutcome::Allow
    ));
}

#[test]
fn pre_dispatch_policy_denies_when_cel_allow_if_returns_false() {
    let mut gate = PreDispatchPolicyGate::try_new(ToolAccessPolicyConfig {
        default_minimum_trust: RequestTrustLevel::HeaderAsserted,
        cel_allow_if: Some("principal_id == \"admin\"".to_owned()),
        rules: Vec::new(),
    })
    .expect("policy valid");

    match gate.evaluate_tool_call(&header_user("mcpg.runtime.snapshot"), 0) {
        PreDispatchPolicyOutcome::Deny(denial) => {
            assert_eq!(denial.http_status, 403);
            assert_eq!(denial.code, -32022);
            assert!(denial.audit_reason.contains("tool_access_cel_allow_if_denied"));
        }
        PreDispatchPolicyOutcome::Allow => panic!("policy should deny when CEL returns false"),
    }
}

#[test]
fn pre_dispatch_policy_denies_on_missing_required_scope() {
    let mut gate = PreDispatchPolicyGate::try_new(ToolAccessPolicyConfig {
        default_minimum_trust: RequestTrustLevel::HeaderAsserted,
        cel_allow_if: None,
        rules: vec![ToolTrustRule {
            tool_name: "admin.delete".to_owned(),
            minimum_trust: RequestTrustLevel::Verified,
            cel_allow_if: None,
            required_scopes: vec!["admin.write".to_owned(), "audit.read".to_owned()],
        }],
    })
    .expect("policy valid");

    let under_scoped = verified_context_with_claims(vec![], vec![], vec!["admin.write"], vec![]);
    match gate.evaluate_tool_call(&under_scoped, 0) {
        PreDispatchPolicyOutcome::Deny(denial) => {
            assert_eq!(denial.http_status, 403);
            assert_eq!(denial.code, -32003);
            assert_eq!(
                denial.insufficient_scope.as_deref(),
                Some(["audit.read".to_owned()].as_slice()),
            );
            assert!(denial.audit_reason.contains("tool_insufficient_scope"));
        }
        PreDispatchPolicyOutcome::Allow => {
            panic!("under-scoped caller must be denied")
        }
    }

    let scoped =
        verified_context_with_claims(vec![], vec![], vec!["admin.write", "audit.read"], vec![]);
    assert!(matches!(gate.evaluate_tool_call(&scoped, 0), PreDispatchPolicyOutcome::Allow));
}

#[test]
fn pre_dispatch_policy_rejects_invalid_cel_expression_at_construction() {
    let error = PreDispatchPolicyGate::try_new(ToolAccessPolicyConfig {
        default_minimum_trust: RequestTrustLevel::HeaderAsserted,
        cel_allow_if: Some("tool_name == ".to_owned()),
        rules: Vec::new(),
    })
    .err()
    .expect("invalid CEL should fail");

    assert!(error.message.contains("failed to compile policy.tool_access.cel_allow_if"));
}

#[test]
fn pre_dispatch_policy_honors_per_tool_cel_allow_if_expression() {
    let mut gate = PreDispatchPolicyGate::try_new(ToolAccessPolicyConfig {
        default_minimum_trust: RequestTrustLevel::HeaderAsserted,
        cel_allow_if: None,
        rules: vec![rule(
            "mcpg.runtime.snapshot",
            RequestTrustLevel::HeaderAsserted,
            Some("principal_id == \"user-1\""),
        )],
    })
    .expect("policy valid");
    assert!(matches!(
        gate.evaluate_tool_call(&header_user("mcpg.runtime.snapshot"), 0),
        PreDispatchPolicyOutcome::Allow
    ));
}

#[test]
fn pre_dispatch_policy_denies_when_per_tool_cel_allow_if_returns_false() {
    let mut gate = PreDispatchPolicyGate::try_new(ToolAccessPolicyConfig {
        default_minimum_trust: RequestTrustLevel::HeaderAsserted,
        cel_allow_if: None,
        rules: vec![rule(
            "mcpg.runtime.snapshot",
            RequestTrustLevel::HeaderAsserted,
            Some("principal_id == \"admin\""),
        )],
    })
    .expect("policy valid");

    match gate.evaluate_tool_call(&header_user("mcpg.runtime.snapshot"), 0) {
        PreDispatchPolicyOutcome::Deny(denial) => {
            assert_eq!(denial.http_status, 403);
            assert_eq!(denial.code, -32005);
            assert!(denial.audit_reason.contains("tool_access_rule_cel_allow_if_denied"));
        }
        PreDispatchPolicyOutcome::Allow => {
            panic!("policy should deny when per-tool CEL returns false")
        }
    }
}

#[test]
fn pre_dispatch_policy_rejects_invalid_per_tool_cel_expression_at_construction() {
    let error = PreDispatchPolicyGate::try_new(ToolAccessPolicyConfig {
        default_minimum_trust: RequestTrustLevel::HeaderAsserted,
        cel_allow_if: None,
        rules: vec![rule(
            "mcpg.runtime.snapshot",
            RequestTrustLevel::HeaderAsserted,
            Some("principal_id == "),
        )],
    })
    .err()
    .expect("invalid per-tool CEL should fail");

    assert!(error.message.contains(
        "failed to compile policy.tool_access.rules[mcpg.runtime.snapshot].cel_allow_if"
    ));
}

#[test]
fn policy_cache_returns_cached_outcome() {
    let mut cache = PolicyCache::new(60, 100);
    let key = "user-1:my_tool:verified";

    assert!(cache.get(key, 0).is_none());

    cache.put(key, PreDispatchPolicyOutcome::Allow, 0);

    let cached = cache.get(key, 60_000_000).expect("should be cached");
    assert!(matches!(cached, PreDispatchPolicyOutcome::Allow));
    assert!(cache.get(key, 60_000_001).is_none());
}

#[test]
fn policy_cache_expires_after_ttl() {
    let mut cache = PolicyCache::new(0, 100);
    let key = "user-1:my_tool:verified";

    cache.put(key, PreDispatchPolicyOutcome::Allow, 0);

    assert!(cache.get(key, 10_000_000).is_none());
}

#[test]
fn policy_cache_evicts_expired_entries_when_full() {
    let mut cache = PolicyCache::new(0, 2);

    cache.put("a:tool:v", PreDispatchPolicyOutcome::Allow, 0);
    cache.put("b:tool:v", PreDispatchPolicyOutcome::Allow, 0);

    cache.put("c:tool:v", PreDispatchPolicyOutcome::Allow, 10_000_000);

    assert!(cache.get("a:tool:v", 0).is_none());
    assert!(cache.get("b:tool:v", 0).is_none());
    assert!(cache.get("c:tool:v", 10_000_000).is_some());
}

#[test]
fn a_full_cache_of_fresh_entries_takes_no_more() {
    let mut cache = PolicyCache::new(60, 1);
    cache.put("a", PreDispatchPolicyOutcome::Allow, 0);
    cache.put("b", PreDispatchPolicyOutcome::Allow, 1);
    assert!(cache.get("a", 1).is_some());
    assert!(cache.get("b", 1).is_none());
}

#[test]
fn policy_gate_with_cache_returns_cached_decisions() {
    let cache_config = PolicyCacheConfig { enabled: true, ttl_ms: 60, max_entries: 100 };
    let mut gate =
        PreDispatchPolicyGate::try_new_with_cache(ToolAccessPolicyConfig::default(), &cache_config)
            .expect("valid");

    let context = header_user("mcpg.runtime.snapshot");

    let first = gate.evaluate_tool_call(&context, 0);
    assert!(matches!(first, PreDispatchPolicyOutcome::Allow));

    let second = gate.evaluate_tool_call(&context, 1);
    assert!(matches!(second, PreDispatchPolicyOutcome::Allow));
}

#[test]
fn cached_decisions_outlive_new_rules() {
    let cache_config = PolicyCacheConfig { enabled: true, ttl_ms: 60, max_entries: 100 };
    let mut gate =
        PreDispatchPolicyGate::try_new_with_cache(ToolAccessPolicyConfig::default(), &cache_config)
            .expect("valid");
    let context = header_user("t");
    assert!(gate.is_tool_visible(&context, 0));
    gate.publish_federated(
        FederatedToolPolicies::compile(vec![rule("t", RequestTrustLevel::Verified, None)], vec![])
            .expect("valid"),
    );
    assert!(gate.is_tool_visible(&context, 60_000_000));
    assert!(!gate.is_tool_visible(&context, 60_000_001));
}

#[test]
fn policy_cache_key_format_is_correct() {
    let ctx = ToolPolicyContext {
        tool_name: "my_tool".to_owned(),
        trust_level: RequestTrustLevel::Verified,
        principal_id: Some("user-1".to_owned()),
        auth_provider: None,
        identity_kind: "verified".to_owned(),
        roles: Vec::new(),
        groups: Vec::new(),
        scopes: Vec::new(),
        attributes: Attributes::new(),
    };
    assert!(ctx.cache_key().starts_with("user-1:my_tool:verified:"), "{}", ctx.cache_key());

    let anon_ctx = ToolPolicyContext {
        tool_name: "my_tool".to_owned(),
        trust_level: RequestTrustLevel::Unauthenticated,
        principal_id: None,
        auth_provider: None,
        identity_kind: "anonymous".to_owned(),
        roles: Vec::new(),
        groups: Vec::new(),
        scopes: Vec::new(),
        attributes: Attributes::new(),
    };
    assert!(
        anon_ctx.cache_key().starts_with("_anon:my_tool:unauthenticated:"),
        "{}",
        anon_ctx.cache_key()
    );
}

fn claims(roles: &[&str], scopes: &[&str], provider: &str, attrs: &[(&str, &str)]) -> ToolPolicyContext {
    let mut attributes = Attributes::new();
    for (k, v) in attrs {
        attributes = attributes.with(k, v);
    }
    ToolPolicyContext {
        tool_name: "t".to_owned(),
        trust_level: RequestTrustLevel::Verified,
        principal_id: Some("user-1".to_owned()),
        auth_provider: Some(provider.to_owned()),
        identity_kind: "verified".to_owned(),
        roles: roles.iter().map(|s| s.to_string()).collect(),
        groups: Vec::new(),
        scopes: scopes.iter().map(|s| s.to_string()).collect(),
        attributes,
    }
}

#[test]
fn policy_cache_key_distinguishes_claim_sets() {
    let k_base = claims(&["viewer"], &["read"], "oidc", &[]).cache_key();

    let more_roles = claims(&["viewer", "admin"], &["read"], "oidc", &[]);
    assert_ne!(k_base, more_roles.cache_key());

    let fewer_scopes = claims(&["viewer"], &[], "oidc", &[]);
    assert_ne!(k_base, fewer_scopes.cache_key());

    let attr = claims(&["viewer"], &["read"], "oidc", &[("dept", "eng")]);
    assert_ne!(k_base, attr.cache_key());

    let prov = claims(&["viewer"], &["read"], "saml", &[]);
    assert_ne!(k_base, prov.cache_key());

    let permuted = claims(&["viewer"], &["read"], "oidc", &[]);
    assert_eq!(k_base, permuted.cache_key());
}

#[test]
fn policy_cache_key_forgets_the_order_of_claims() {
    let a = claims(&["viewer", "admin"], &["read", "write"], "oidc", &[("a", "1"), ("b", "2")]);
    let b = claims(&["admin", "viewer"], &["write", "read"], "oidc", &[("b", "2"), ("a", "1")]);
    assert_eq!(a.cache_key(), b.cache_key());
}

#[test]
fn policy_cache_key_keeps_lists_and_texts_apart() {
    let roles = claims(&["x"], &[], "oidc", &[]);
    let scopes = claims(&[], &["x"], "oidc", &[]);
    assert_ne!(roles.cache_key(), scopes.cache_key());
    let one = claims(&["ab"], &[], "oidc", &[]);
    let two = claims(&["a", "b"], &[], "oidc", &[]);
    assert_ne!(one.cache_key(), two.cache_key());
    let twice = claims(&["a", "a"], &[], "oidc", &[]);
    let once = claims(&["a"], &[], "oidc", &[]);
    assert_ne!(twice.cache_key(), once.cache_key());
    let pair = claims(&[], &[], "oidc", &[("ab", "c")]);
    let other = claims(&[], &[], "oidc", &[("a", "bc")]);
    assert_ne!(pair.cache_key(), other.cache_key());
}

fn verified_context_with_claims(
    roles: Vec<&str>,
    groups: Vec<&str>,
    scopes: Vec<&str>,
    attrs: Vec<(&str, &str)>,
) -> ToolPolicyContext {
    let mut attributes = Attributes::new();
    for (k, v) in attrs {
        attributes = attributes.with(k, v);
    }
    ToolPolicyContext {
        tool_name: "admin.delete".to_owned(),
        trust_level: RequestTrustLevel::Verified,
        principal_id: Some("user-1".to_owned()),
        auth_provider: Some("oidc".to_owned()),
        identity_kind: "verified".to_owned(),
        roles: roles.into_iter().map(str::to_owned).collect(),
        groups: groups.into_iter().map(str::to_owned).collect(),
        scopes: scopes.into_iter().map(str::to_owned).collect(),
        attributes,
    }
}

fn compile(source: &str) -> CelToolAccessPolicy {
    CelToolAccessPolicy::compile(source.to_owned(), "test").expect("compiles")
}

#[test]
fn cel_policy_role_check_in_operator() {
    let policy = compile(r#""admin" in identity.roles"#);

    let ctx = verified_context_with_claims(vec!["admin", "user"], vec![], vec![], vec![]);
    assert!(policy.evaluate(&ctx).unwrap());

    let ctx_no_role = verified_context_with_claims(vec!["user"], vec![], vec![], vec![]);
    assert!(!policy.evaluate(&ctx_no_role).unwrap());
}

#[test]
fn cel_policy_scope_check() {
    let policy = compile(r#""read" in identity.scopes"#);

    let ctx = verified_context_with_claims(vec![], vec![], vec!["read", "write"], vec![]);
    assert!(policy.evaluate(&ctx).unwrap());

    let ctx_no_scope = verified_context_with_claims(vec![], vec![], vec!["write"], vec![]);
    assert!(!policy.evaluate(&ctx_no_scope).unwrap());
}

#[test]
fn cel_policy_group_check() {
    let policy = compile(r#""engineering" in identity.groups"#);

    let ctx = verified_context_with_claims(vec![], vec!["engineering", "billing"], vec![], vec![]);
    assert!(policy.evaluate(&ctx).unwrap());
}

#[test]
fn cel_policy_attribute_check() {
    let policy = compile(r#"identity.attributes["department"] == "eng""#);

    let ctx = verified_context_with_claims(vec![], vec![], vec![], vec![("department", "eng")]);
    assert!(policy.evaluate(&ctx).unwrap());

    let ctx_wrong =
        verified_context_with_claims(vec![], vec![], vec![], vec![("department", "sales")]);
    assert!(!policy.evaluate(&ctx_wrong).unwrap());
}

#[test]
fn cel_policy_compound_rbac_expression() {
    let policy = compile(
        r#"trust_level == "verified" && "admin" in identity.roles && "nuclear.launch" in identity.scopes"#,
    );

    let ctx = verified_context_with_claims(
        vec!["admin"],
        vec![],
        vec!["nuclear.launch", "read"],
        vec![],
    );
    assert!(policy.evaluate(&ctx).unwrap());

    let ctx_no_scope = verified_context_with_claims(vec!["admin"], vec![], vec!["read"], vec![]);
    assert!(!policy.evaluate(&ctx_no_scope).unwrap());
}

#[test]
fn cel_policy_claims_empty_for_anonymous() {
    let policy = compile(r#""admin" in identity.roles"#);

    let ctx = ToolPolicyContext {
        tool_name: "admin.delete".to_owned(),
        trust_level: RequestTrustLevel::Unauthenticated,
        principal_id: None,
        auth_provider: None,
        identity_kind: "anonymous".to_owned(),
        roles: Vec::new(),
        groups: Vec::new(),
        scopes: Vec::new(),
        attributes: Attributes::new(),
    };
    assert!(!policy.evaluate(&ctx).unwrap());
}

#[test]
fn conditions_must_give_a_truth_value() {
    let ctx = verified_context_with_claims(vec![], vec![], vec![], vec![]);
    let text = compile(r#""yes""#).evaluate(&ctx).unwrap_err();
    assert!(text.starts_with("CEL policy must evaluate to a boolean, got "), "{text}");
    let failed = compile("no_such_variable == 1").evaluate(&ctx).unwrap_err();
    assert_eq!(failed, "failed to execute CEL policy: no_such_variable == 1");
}

#[test]
fn verdicts_follow_from_runs() {
    assert_eq!(cel_verdict("s", CelOutcome::Bool(true)), Ok(true));
    assert_eq!(
        cel_verdict("s", CelOutcome::Failed("x".to_owned())),
        Err("failed to execute CEL policy: s".to_owned())
    );
    assert!(decide_global_cel("t", Ok(true)).is_none());
    assert!(decide_rule_cel("t", Ok(true)).is_none());
    let global = decide_global_cel("t", Err("boom".to_owned())).unwrap();
    assert!(global.audit_reason.contains("tool_access_cel_allow_if_error"), "{global:?}");
    let per_tool = decide_rule_cel("t", Err("boom".to_owned())).unwrap();
    assert!(per_tool.audit_reason.contains("tool_access_rule_cel_allow_if_error"), "{per_tool:?}");
}

#[test]
fn identities_of_plugins_are_taken_at_their_word() {
    let identity = PluginIdentity {
        kind: "verified".to_owned(),
        trust_level: "verified".to_owned(),
        subject_id: Some("alice".to_owned()),
        auth_provider: Some("oidc".to_owned()),
        issuer: None,
        roles: vec!["admin".to_owned()],
        groups: Vec::new(),
        scopes: Vec::new(),
        attributes: Attributes::new().with("k", "v"),
    };
    let ctx = ToolPolicyContext::from_plugin_identity(&identity, "t");
    assert_eq!(ctx.trust_level, RequestTrustLevel::Verified);
    assert_eq!(ctx.principal_id.as_deref(), Some("alice"));
    assert_eq!(ctx.roles, vec!["admin".to_owned()]);
    assert_eq!(ctx.attributes.get("k"), Some("v"));
    assert_eq!(ctx.trust_level_name(), "verified");
}
