//! The quota gate: rate limits, budgets and concurrency caps, checked in this
//! order before a call is dispatched.
//!
//! The token bucket and the cost account of a budget count in fractions and are
//! kept by the caller. The quota gate says which of them a call draws on, decides on
//! what they answer, and counts the calls in flight itself.
use vstd::prelude::*;
use vstd::string::*;

use crate::identity;
use crate::identity::RequestIdentity;
use crate::outside;
use crate::table::Table;
use crate::text;
use crate::text::str_eq;

verus! {

/// A limit on how often something is called.
#[derive(Debug)]
pub struct RateLimitPolicy {
    pub id: String,
    pub scope: String,
    pub identity_claim: Option<String>,
    pub calls_per_minute: u32,
    pub burst: Option<u32>,
}

/// A limit on what is spent in a window of time. A cap on cost is kept by the
/// caller.
#[derive(Debug)]
pub struct BudgetPolicy {
    pub id: String,
    pub scope: String,
    pub identity_claim: Option<String>,
    pub window: String,
    pub cap_token_count: Option<u64>,
    pub cap_calls: Option<u64>,
}

/// A limit on how many calls are in flight.
#[derive(Debug)]
pub struct ConcurrencyPolicy {
    pub id: String,
    pub scope: String,
    pub identity_claim: Option<String>,
    pub max_concurrent: u32,
}

/// The policies that a binding names.
#[derive(Debug)]
pub struct BackendQuotasRef {
    pub rate_limit: Option<String>,
    pub budget: Option<String>,
    pub concurrency: Option<String>,
}

impl BackendQuotasRef {
    /// Whether no policy is named.
    pub fn is_empty(&self) -> (r: bool)
        ensures
            r == (self.rate_limit is None && self.budget is None && self.concurrency is None),
    {
        self.rate_limit.is_none() && self.budget.is_none() && self.concurrency.is_none()
    }
}

/// The configured policies.
#[derive(Debug)]
pub struct QuotasConfig {
    pub rate_limits: Vec<RateLimitPolicy>,
    pub budgets: Vec<BudgetPolicy>,
    pub concurrency: Vec<ConcurrencyPolicy>,
    /// Whether a call proceeds when the quota gate itself fails.
    pub fail_open_on_error: bool,
}

/// A slot of a concurrency cap, to be given back when the call ends.
#[derive(Debug)]
pub struct ConcurrencyPermit {
    key: String,
}

impl ConcurrencyPermit {
    /// The counter that the slot belongs to.
    pub closed spec fn key(&self) -> Seq<char> {
        self.key@
    }
}

/// Which kind of policy refused a call.
#[derive(Debug, Clone, Copy, PartialEq, Eq, Structural)]
pub enum QuotaKind {
    RateLimit,
    Budget,
    Concurrency,
}

/// The name of a kind.
pub open spec fn kind_text(kind: QuotaKind) -> Seq<char> {
    match kind {
        QuotaKind::RateLimit => "rate_limit"@,
        QuotaKind::Budget => "budget"@,
        QuotaKind::Concurrency => "concurrency"@,
    }
}

impl QuotaKind {
    /// The name of the kind.
    pub fn as_str(self) -> (r: &'static str)
        ensures
            r@ == kind_text(self),
    {
        match self {
            QuotaKind::RateLimit => "rate_limit",
            QuotaKind::Budget => "budget",
            QuotaKind::Concurrency => "concurrency",
        }
    }
}

/// What the quota gate decides.
#[derive(Debug)]
pub enum QuotaDecision {
    /// The call may proceed, and holds the permit while it runs.
    Allow { permit: Option<ConcurrencyPermit> },
    /// The call is refused.
    Deny { policy_id: String, kind: QuotaKind, reason: String },
}

/// A decision over plain values.
pub enum QuotaView {
    Allow { permit: Option<Seq<char>> },
    Deny { policy_id: Seq<char>, kind: QuotaKind, reason: Seq<char> },
}

impl DeepView for QuotaDecision {
    type V = QuotaView;

    open spec fn deep_view(&self) -> QuotaView {
        match self {
            QuotaDecision::Allow { permit } => QuotaView::Allow {
                permit: match permit {
                    Some(p) => Some(p.key()),
                    None => None,
                },
            },
            QuotaDecision::Deny { policy_id, kind, reason } => QuotaView::Deny {
                policy_id: policy_id@,
                kind: *kind,
                reason: reason@,
            },
        }
    }
}

/// What is known of a call that the quota gate looks at.
pub struct QuotaEvalContext<'a> {
    /// The policies that the binding names.
    pub bref: &'a BackendQuotasRef,
    pub tool_name: &'a str,
    pub session_id: Option<&'a str>,
    pub identity: &'a RequestIdentity,
}

/// The key that says who shares a counter.
pub open spec fn scope_key_text(
    scope: Seq<char>,
    identity_claim: Option<Seq<char>>,
    tool_name: Seq<char>,
    session_id: Option<Seq<char>>,
    caller: identity::IdentityView,
) -> Seq<char> {
    let subject = match caller.principal_id() {
        Some(p) => p,
        None => "anonymous"@,
    };
    if scope == "per_identity"@ {
        match identity_claim {
            Some(claim) => match identity::pair_value(caller.attributes(), claim) {
                Some(v) => v,
                None => subject,
            },
            None => subject,
        }
    } else if scope == "per_session"@ {
        match session_id {
            Some(s) => s,
            None => "no-session"@,
        }
    } else if scope == "per_tool"@ {
        tool_name
    } else {
        "global"@
    }
}

/// The key that says who shares a counter: the value of a claim or the subject,
/// the session, the tool, or everybody. A scope that is not known is shared by
/// everybody.
pub fn scope_key(scope: &str, identity_claim: Option<&str>, ctx: &QuotaEvalContext) -> (r: String)
    ensures
        r@ == scope_key_text(
            scope@,
            identity_claim.deep_view(),
            ctx.tool_name@,
            ctx.session_id.deep_view(),
            ctx.identity.deep_view(),
        ),
{
    if str_eq(scope, "per_identity") {
        if let Some(claim) = identity_claim {
            if let RequestIdentity::Verified { attributes, .. } = ctx.identity {
                if let Some(v) = attributes.get(claim) {
                    return v.to_owned();
                }
            }
        }
        match ctx.identity.principal_id() {
            Some(p) => p.to_owned(),
            None => "anonymous".to_owned(),
        }
    } else if str_eq(scope, "per_session") {
        match ctx.session_id {
            Some(s) => s.to_owned(),
            None => "no-session".to_owned(),
        }
    } else if str_eq(scope, "per_tool") {
        ctx.tool_name.to_owned()
    } else {
        "global".to_owned()
    }
}

/// How many decimal digits a text begins with.
pub open spec fn leading_digits(s: Seq<char>) -> nat
    decreases s.len(),
{
    if s.len() == 0 || !('0' <= s[0] <= '9') {
        0
    } else {
        1 + leading_digits(s.drop_first())
    }
}

/// The number that decimal digits stand for.
pub open spec fn digits_value(s: Seq<char>) -> int
    decreases s.len(),
{
    if s.len() == 0 {
        0
    } else {
        digits_value(s.drop_last()) * 10 + (s.last() as int - 48)
    }
}

/// The milliseconds of a unit of time.
pub open spec fn unit_ms(c: char) -> Option<int> {
    if c == 's' {
        Some(1_000)
    } else if c == 'm' {
        Some(60_000)
    } else if c == 'h' {
        Some(3_600_000)
    } else if c == 'd' {
        Some(86_400_000)
    } else {
        None
    }
}

/// The number and the unit of a window such as `24h`. Nothing may follow the
/// unit, and a number beyond 64 bits is none.
pub open spec fn window_parts(s: Seq<char>) -> Option<(int, int)> {
    let t = text::trimmed(s);
    let k = leading_digits(t) as int;
    if k == 0 || k + 1 != t.len() || digits_value(t.take(k)) > i64::MAX {
        None
    } else {
        match unit_ms(t[k]) {
            Some(u) => Some((digits_value(t.take(k)), u)),
            None => None,
        }
    }
}

/// Whether a window is so long that its milliseconds do not fit 64 bits.
pub open spec fn window_too_long(s: Seq<char>) -> bool {
    window_parts(s) matches Some((n, u)) && n * u > i64::MAX
}

/// Whether a window in milliseconds, written as text, fits.
pub open spec fn window_value(s: Seq<char>) -> Option<int> {
    match window_parts(s) {
        Some((n, u)) => Some(n * u),
        None => None,
    }
}

proof fn lemma_leading_digits(s: Seq<char>, k: int)
    requires
        0 <= k <= s.len(),
        forall|j: int| 0 <= j < k ==> '0' <= #[trigger] s[j] <= '9',
        k < s.len() ==> !('0' <= s[k] <= '9'),
    ensures
        leading_digits(s) == k,
    decreases s.len(),
{
    if k > 0 {
        let t = s.drop_first();
        assert forall|j: int| 0 <= j < k - 1 implies '0' <= #[trigger] t[j] <= '9' by {
            assert(t[j] == s[j + 1]);
        }
        lemma_leading_digits(t, k - 1);
    }
}

proof fn lemma_digits_grow(s: Seq<char>, i: int, k: int)
    requires
        0 <= i <= k <= s.len(),
        forall|j: int| 0 <= j < k ==> '0' <= #[trigger] s[j] <= '9',
    ensures
        0 <= digits_value(s.take(i)) <= digits_value(s.take(k)),
    decreases k,
{
    if k > 0 {
        assert(s.take(k).drop_last() =~= s.take(k - 1));
        if i < k {
            lemma_digits_grow(s, i, k - 1);
        } else {
            lemma_digits_grow(s, k - 1, k - 1);
        }
    }
}

fn digit_value(c: char) -> (r: i64)
    requires
        '0' <= c <= '9',
    ensures
        r == c as int - 48,
{
    match c {
        '0' => 0,
        '1' => 1,
        '2' => 2,
        '3' => 3,
        '4' => 4,
        '5' => 5,
        '6' => 6,
        '7' => 7,
        '8' => 8,
        _ => 9,
    }
}

fn parts_of(s: &str) -> (r: Option<(i64, i64)>)
    ensures
        match r {
            Some((n, u)) => window_parts(s@) == Some((n as int, u as int)) && 0 <= n && 1_000 <= u
                <= 86_400_000,
            None => window_parts(s@) is None,
        },
{
    let trimmed: String = text::trim(s);
    let cs: Vec<char> = text::chars_of(trimmed.as_str());
    let ghost t = text::trimmed(s@);
    let mut k: usize = 0;
    while k < cs.len() && '0' <= cs[k] && cs[k] <= '9'
        invariant
            k <= cs@.len(),
            cs@ == t,
            forall|j: int| 0 <= j < k ==> '0' <= #[trigger] t[j] <= '9',
        decreases cs.len() - k,
    {
        k += 1;
    }
    proof {
        lemma_leading_digits(t, k as int);
    }
    if k == 0 || cs.len() - k != 1 {
        return None;
    }
    let mut n: i64 = 0;
    let mut i: usize = 0;
    proof {
        assert(t.take(0) =~= seq![]);
    }
    while i < k
        invariant
            i <= k,
            k + 1 == cs@.len(),
            cs@ == t,
            forall|j: int| 0 <= j < k ==> '0' <= #[trigger] t[j] <= '9',
            n == digits_value(t.take(i as int)),
            0 <= n,
            t == text::trimmed(s@),
            k == leading_digits(t),
        decreases k - i,
    {
        proof {
            assert(t.take(i + 1).drop_last() =~= t.take(i as int));
            assert(t.take(i + 1).last() == t[i as int]);
        }
        let d: i64 = digit_value(cs[i]);
        if n > (i64::MAX - d) / 10 {
            proof {
                assert(digits_value(t.take(i + 1)) > i64::MAX);
                lemma_digits_grow(t, i + 1, k as int);
            }
            return None;
        }
        n = n * 10 + d;
        i += 1;
    }
    let unit: i64 = match cs[k] {
        's' => 1_000,
        'm' => 60_000,
        'h' => 3_600_000,
        'd' => 86_400_000,
        _ => {
            return None;
        },
    };
    Some((n, unit))
}

/// Whether a window is so long that its milliseconds do not fit.
pub fn window_overflows(s: &str) -> (r: bool)
    ensures
        r == window_too_long(s@),
{
    match parts_of(s) {
        None => false,
        Some((n, u)) => n as i128 * u as i128 > i64::MAX as i128,
    }
}

/// The milliseconds of a window such as `60s`, `5m`, `24h` or `1d`.
pub fn window_to_ms(s: &str) -> (r: Option<i64>)
    requires
        !window_too_long(s@),
    ensures
        match r {
            Some(ms) => window_value(s@) == Some(ms as int),
            None => window_value(s@) is None,
        },
{
    match parts_of(s) {
        None => None,
        Some((n, u)) => {
            proof {
                assert(0 <= n * u) by (nonlinear_arith)
                    requires
                        0 <= n,
                        0 <= u,
                ;
            }
            Some(n * u)
        },
    }
}

/// The counters of a budget in its current window.
#[derive(Debug, Clone, Copy, PartialEq, Eq, Structural)]
pub struct BudgetCounters {
    pub tokens: u64,
    pub calls: u64,
    pub window_started_unix_ms: i64,
}

/// What a look at a budget comes to.
#[derive(Debug, Clone, Copy, PartialEq, Eq, Structural)]
pub struct BudgetCheck {
    /// The counters to store.
    pub counters: BudgetCounters,
    /// Whether a new window has begun, so that the cost counts from zero.
    pub rolled: bool,
    /// Whether the call may proceed.
    pub allowed: bool,
}

/// The counters at a time: fresh ones where there are none or their window is
/// over.
pub open spec fn rolled_counters(prev: Option<BudgetCounters>, window_ms: int, now_ms: i64) -> (
    BudgetCounters,
    bool,
) {
    let zero = BudgetCounters { tokens: 0, calls: 0, window_started_unix_ms: now_ms };
    match prev {
        None => (zero, 0 >= window_ms),
        Some(c) => if now_ms - c.window_started_unix_ms >= window_ms {
            (zero, true)
        } else {
            (c, false)
        },
    }
}

/// What a look at a budget comes to. Any cap that has been reached refuses the
/// call; a call that is allowed is counted.
pub open spec fn budget_check(
    policy: BudgetPolicy,
    prev: Option<BudgetCounters>,
    window_ms: int,
    cost_reached: bool,
    zero_cost_reached: bool,
    now_ms: i64,
) -> BudgetCheck {
    let (c, rolled) = rolled_counters(prev, window_ms, now_ms);
    let by_calls = policy.cap_calls matches Some(cap) && c.calls >= cap;
    let by_tokens = policy.cap_token_count matches Some(cap) && c.tokens >= cap;
    let by_cost = if rolled || prev is None {
        zero_cost_reached
    } else {
        cost_reached
    };
    let allowed = !(by_calls || by_tokens || by_cost);
    BudgetCheck {
        counters: if allowed {
            BudgetCounters {
                calls: if c.calls == u64::MAX {
                    c.calls
                } else {
                    (c.calls + 1) as u64
                },
                ..c
            }
        } else {
            c
        },
        rolled,
        allowed,
    }
}

/// Begins a new window where the old one is over.
pub fn maybe_roll_window(state: &mut BudgetCounters, window_ms: i64, now_ms: i64) -> (r: bool)
    requires
        i64::MIN <= now_ms - old(state).window_started_unix_ms <= i64::MAX,
    ensures
        (*final(state), r) == rolled_counters(Some(*old(state)), window_ms as int, now_ms),
{
    let elapsed: i64 = now_ms - state.window_started_unix_ms;
    if elapsed >= window_ms {
        state.tokens = 0;
        state.calls = 0;
        state.window_started_unix_ms = now_ms;
        true
    } else {
        false
    }
}

/// Looks at a budget before a call. `cost_reached` says whether the recorded
/// cost has reached a cap on cost, and `zero_cost_reached` whether no cost at
/// all would.
pub fn check_budget_pre_flight(
    policy: &BudgetPolicy,
    prev: Option<BudgetCounters>,
    window_ms: i64,
    cost_reached: bool,
    zero_cost_reached: bool,
    now_ms: i64,
) -> (r: BudgetCheck)
    requires
        prev matches Some(c) ==> i64::MIN <= now_ms - c.window_started_unix_ms <= i64::MAX,
    ensures
        r == budget_check(
            *policy,
            prev,
            window_ms as int,
            cost_reached,
            zero_cost_reached,
            now_ms,
        ),
{
    let mut state: BudgetCounters = match prev {
        Some(c) => c,
        None => BudgetCounters { tokens: 0, calls: 0, window_started_unix_ms: now_ms },
    };
    let rolled: bool = maybe_roll_window(&mut state, window_ms, now_ms);
    let by_calls: bool = match policy.cap_calls {
        Some(cap) => state.calls >= cap,
        None => false,
    };
    let by_tokens: bool = match policy.cap_token_count {
        Some(cap) => state.tokens >= cap,
        None => false,
    };
    let by_cost: bool = if rolled || prev.is_none() {
        zero_cost_reached
    } else {
        cost_reached
    };
    let allowed: bool = !(by_calls || by_tokens || by_cost);
    if allowed {
        state.calls = state.calls.saturating_add(1);
    }
    BudgetCheck { counters: state, rolled, allowed }
}

/// The window of a budget in milliseconds, a day where it cannot be read.
pub fn budget_window_ms(policy: &BudgetPolicy) -> (r: i64)
    requires
        !window_too_long(policy.window@),
    ensures
        r == (match window_value(policy.window@) {
            Some(ms) => ms,
            None => 86_400_000,
        }),
{
    match window_to_ms(policy.window.as_str()) {
        Some(ms) => ms,
        None => 86_400_000,
    }
}

/// How long the state of a budget is kept: twice its window, as far as that can
/// be counted.
pub fn budget_state_ttl_ms(window_ms: i64) -> (r: u64)
    requires
        0 <= window_ms,
    ensures
        r == 2 * window_ms,
{
    window_ms as u64 * 2
}

/// Within one window, the calls that a cap on calls lets through never exceed
/// the cap.
pub proof fn law_budget_caps_calls(
    policy: BudgetPolicy,
    prev: Option<BudgetCounters>,
    window_ms: int,
    cost_reached: bool,
    zero_cost_reached: bool,
    now_ms: i64,
    cap: u64,
)
    requires
        policy.cap_calls == Some(cap),
        prev matches Some(c) ==> c.calls <= cap,
    ensures
        budget_check(
            policy,
            prev,
            window_ms,
            cost_reached,
            zero_cost_reached,
            now_ms,
        ).counters.calls <= cap,
{
}

/// A refused call is not counted.
pub proof fn law_refused_call_is_not_counted(
    policy: BudgetPolicy,
    prev: Option<BudgetCounters>,
    window_ms: int,
    cost_reached: bool,
    zero_cost_reached: bool,
    now_ms: i64,
)
    requires
        !budget_check(policy, prev, window_ms, cost_reached, zero_cost_reached, now_ms).allowed,
    ensures
        budget_check(
            policy,
            prev,
            window_ms,
            cost_reached,
            zero_cost_reached,
            now_ms,
        ).counters == rolled_counters(prev, window_ms, now_ms).0,
{
}

/// A counter of calls in flight, and its cap.
#[derive(Debug, Clone, Copy, PartialEq, Eq, Structural)]
pub struct Slots {
    pub max: u64,
    pub used: u64,
}

/// The counters of calls in flight.
#[derive(Debug)]
pub struct ConcurrencyTracker {
    slots: dashmap::DashMap<String, (u64, u64)>,
}

/// The counter of a key: a new one where there is none, with the given cap.
pub open spec fn slots_for(m: Map<Seq<char>, Slots>, key: Seq<char>, max: u32) -> Slots {
    if m.contains_key(key) {
        m[key]
    } else {
        Slots { max: max as u64, used: 0 }
    }
}

impl ConcurrencyTracker {
    /// The counters, by key.
    pub closed spec fn slots(&self) -> Map<Seq<char>, Slots> {
        outside::dash_entries(self.slots).map_values(
            |t: (u64, u64)| Slots { max: t.0, used: t.1 },
        )
    }

    /// No counters.
    pub fn new() -> (r: ConcurrencyTracker)
        ensures
            r.slots() == Map::<Seq<char>, Slots>::empty(),
    {
        let r: ConcurrencyTracker = ConcurrencyTracker { slots: outside::dash_new() };
        proof {
            assert(r.slots() =~= Map::<Seq<char>, Slots>::empty());
        }
        r
    }

    /// Takes a slot of a key, where one is free. The cap of a key is the one
    /// with which it was first asked for.
    pub fn try_acquire(&mut self, key: &str, max: u32) -> (r: Option<ConcurrencyPermit>)
        ensures
            ({
                let s = slots_for(old(self).slots(), key@, max);
                if s.used < s.max {
                    &&& r matches Some(p) && p.key() == key@
                    &&& final(self).slots() == old(self).slots().insert(
                        key@,
                        Slots { max: s.max, used: (s.used + 1) as u64 },
                    )
                } else {
                    &&& r is None
                    &&& final(self).slots() == old(self).slots().insert(key@, s)
                }
            }),
    {
        let s: Slots = match outside::dash_get(&self.slots, key) {
            Some((max, used)) => Slots { max, used },
            None => Slots { max: max as u64, used: 0 },
        };
        if s.used < s.max {
            outside::dash_insert(&mut self.slots, key, (s.max, s.used + 1));
            proof {
                assert(self.slots() =~= old(self).slots().insert(
                    key@,
                    Slots { max: s.max, used: (s.used + 1) as u64 },
                ));
            }
            Some(ConcurrencyPermit { key: key.to_owned() })
        } else {
            outside::dash_insert(&mut self.slots, key, (s.max, s.used));
            proof {
                assert(self.slots() =~= old(self).slots().insert(key@, s));
            }
            None
        }
    }

    /// Gives a slot back.
    pub fn release(&mut self, permit: ConcurrencyPermit)
        ensures
            ({
                let m = old(self).slots();
                let k = permit.key();
                final(self).slots() == (if m.contains_key(k) && m[k].used > 0 {
                    m.insert(k, Slots { max: m[k].max, used: (m[k].used - 1) as u64 })
                } else {
                    m
                })
            }),
    {
        if let Some((max, used)) = outside::dash_get(&self.slots, permit.key.as_str()) {
            if used > 0 {
                outside::dash_insert(&mut self.slots, permit.key.as_str(), (max, used - 1));
                proof {
                    assert(self.slots() =~= old(self).slots().insert(
                        permit.key(),
                        Slots { max, used: (used - 1) as u64 },
                    ));
                }
            }
        }
    }
}

/// Taking a slot and giving it back leaves the count of a key as it was.
pub proof fn law_release_undoes_acquire(m: Map<Seq<char>, Slots>, key: Seq<char>, max: u32)
    requires
        slots_for(m, key, max).used < slots_for(m, key, max).max,
    ensures
        ({
            let s = slots_for(m, key, max);
            let taken = m.insert(key, Slots { max: s.max, used: (s.used + 1) as u64 });
            let given = taken.insert(
                key,
                Slots { max: taken[key].max, used: (taken[key].used - 1) as u64 },
            );
            given == m.insert(key, s)
        }),
{
    let s = slots_for(m, key, max);
    let taken = m.insert(key, Slots { max: s.max, used: (s.used + 1) as u64 });
    let given = taken.insert(
        key,
        Slots { max: taken[key].max, used: (taken[key].used - 1) as u64 },
    );
    assert(given =~= m.insert(key, s));
}

/// A bucket or an account that a call draws on.
#[derive(Debug)]
pub struct BucketUse {
    pub policy_id: String,
    pub scope_key: String,
    /// The key under which its state is stored.
    pub key: String,
}

/// A draw over plain values.
pub struct UseView {
    pub policy_id: Seq<char>,
    pub scope_key: Seq<char>,
    pub key: Seq<char>,
}

impl DeepView for BucketUse {
    type V = UseView;

    open spec fn deep_view(&self) -> UseView {
        UseView { policy_id: self.policy_id@, scope_key: self.scope_key@, key: self.key@ }
    }
}

/// What to do next to decide on a call.
#[derive(Debug)]
pub enum QuotaAction {
    /// Take one token of a bucket, and say whether there was one.
    ConsumeToken(BucketUse),
    /// Look at a budget, and say whether it allows the call.
    ChargeBudget(BucketUse),
    /// The decision.
    Finish(QuotaDecision),
}

/// An action over plain values.
pub enum ActionView {
    ConsumeToken(UseView),
    ChargeBudget(UseView),
    Finish(QuotaView),
}

impl DeepView for QuotaAction {
    type V = ActionView;

    open spec fn deep_view(&self) -> ActionView {
        match self {
            QuotaAction::ConsumeToken(u) => ActionView::ConsumeToken(u.deep_view()),
            QuotaAction::ChargeBudget(u) => ActionView::ChargeBudget(u.deep_view()),
            QuotaAction::Finish(d) => ActionView::Finish(d.deep_view()),
        }
    }
}

/// The quota gate.
#[derive(Debug)]
pub struct QuotaGate {
    rate_limits: Table<RateLimitPolicy>,
    budgets: Table<BudgetPolicy>,
    concurrency_policies: Table<ConcurrencyPolicy>,
    concurrency: ConcurrencyTracker,
    binding_refs: Table<BackendQuotasRef>,
    fail_open_on_error: bool,
}

/// The last policy of a list with a given id.
pub open spec fn last_rate(s: Seq<RateLimitPolicy>, id: Seq<char>) -> Option<RateLimitPolicy>
    decreases s.len(),
{
    if s.len() == 0 {
        None
    } else if s.last().id@ == id {
        Some(s.last())
    } else {
        last_rate(s.drop_last(), id)
    }
}

/// The last policy of a list with a given id.
pub open spec fn last_budget(s: Seq<BudgetPolicy>, id: Seq<char>) -> Option<BudgetPolicy>
    decreases s.len(),
{
    if s.len() == 0 {
        None
    } else if s.last().id@ == id {
        Some(s.last())
    } else {
        last_budget(s.drop_last(), id)
    }
}

/// The last policy of a list with a given id.
pub open spec fn last_concurrency(s: Seq<ConcurrencyPolicy>, id: Seq<char>) -> Option<
    ConcurrencyPolicy,
>
    decreases s.len(),
{
    if s.len() == 0 {
        None
    } else if s.last().id@ == id {
        Some(s.last())
    } else {
        last_concurrency(s.drop_last(), id)
    }
}

/// The value of a key.
pub open spec fn lookup<V>(m: Map<Seq<char>, V>, key: Seq<char>) -> Option<V> {
    if m.contains_key(key) {
        Some(m[key])
    } else {
        None
    }
}

/// The policy that an optional id names.
pub open spec fn named<V>(m: Map<Seq<char>, V>, id: Option<Seq<char>>) -> Option<V> {
    match id {
        Some(i) => lookup(m, i),
        None => None,
    }
}

/// The key of a call under a policy's scope.
pub open spec fn call_scope(
    scope: String,
    identity_claim: Option<String>,
    ctx: QuotaEvalContext,
) -> Seq<char> {
    scope_key_text(
        scope@,
        identity_claim.deep_view(),
        ctx.tool_name@,
        ctx.session_id.deep_view(),
        ctx.identity.deep_view(),
    )
}

/// The draw of a call on a bucket or an account.
pub open spec fn use_view(prefix: Seq<char>, id: Seq<char>, scope_key: Seq<char>) -> UseView {
    UseView { policy_id: id, scope_key, key: prefix + id + "."@ + scope_key }
}

/// The refusal by an exhausted rate limit.
pub open spec fn rate_refusal(u: UseView) -> QuotaView {
    QuotaView::Deny {
        policy_id: u.policy_id,
        kind: QuotaKind::RateLimit,
        reason: "rate-limit `"@ + u.policy_id + "` exhausted for scope `"@ + u.scope_key + "`"@,
    }
}

/// The refusal by an exhausted budget.
pub open spec fn budget_refusal(u: UseView) -> QuotaView {
    QuotaView::Deny {
        policy_id: u.policy_id,
        kind: QuotaKind::Budget,
        reason: "budget `"@ + u.policy_id + "` exhausted for scope `"@ + u.scope_key + "`"@,
    }
}

/// The refusal by a concurrency cap.
pub open spec fn concurrency_refusal(p: ConcurrencyPolicy, scope_key: Seq<char>) -> QuotaView {
    QuotaView::Deny {
        policy_id: p.id@,
        kind: QuotaKind::Concurrency,
        reason: "concurrency cap `"@ + p.id@ + "` reached for scope `"@ + scope_key + "` ("@
            + text::decimal_text(p.max_concurrent as nat) + "/"@ + text::decimal_text(
            p.max_concurrent as nat,
        ) + " in flight)"@,
    }
}

impl QuotaGate {
    /// The rate limits, by id.
    pub closed spec fn rates(&self) -> Map<Seq<char>, RateLimitPolicy> {
        self.rate_limits@
    }

    /// The budgets, by id.
    pub closed spec fn accounts(&self) -> Map<Seq<char>, BudgetPolicy> {
        self.budgets@
    }

    /// The concurrency caps, by id.
    pub closed spec fn caps(&self) -> Map<Seq<char>, ConcurrencyPolicy> {
        self.concurrency_policies@
    }

    /// The policies that bindings name.
    pub closed spec fn bindings(&self) -> Map<Seq<char>, BackendQuotasRef> {
        self.binding_refs@
    }

    /// The counters of calls in flight.
    pub closed spec fn in_flight(&self) -> Map<Seq<char>, Slots> {
        self.concurrency.slots()
    }

    /// Whether a call proceeds when the quota gate itself fails.
    pub closed spec fn fails_open(&self) -> bool {
        self.fail_open_on_error
    }

    /// Whether another gate has the same policies.
    pub open spec fn same_policies(&self, other: &QuotaGate) -> bool {
        &&& self.rates() == other.rates()
        &&& self.accounts() == other.accounts()
        &&& self.caps() == other.caps()
        &&& self.bindings() == other.bindings()
        &&& self.fails_open() == other.fails_open()
    }

    /// The quota gate of a configuration.
    pub fn new(quotas: QuotasConfig, binding_refs: Table<BackendQuotasRef>) -> (r: QuotaGate)
        ensures
            forall|id: Seq<char>| #[trigger]
                lookup(r.rates(), id) == last_rate(quotas.rate_limits@, id),
            forall|id: Seq<char>| #[trigger]
                lookup(r.accounts(), id) == last_budget(quotas.budgets@, id),
            forall|id: Seq<char>| #[trigger]
                lookup(r.caps(), id) == last_concurrency(quotas.concurrency@, id),
            r.bindings() == binding_refs@,
            r.in_flight() == Map::<Seq<char>, Slots>::empty(),
            r.fails_open() == quotas.fail_open_on_error,
    {
        let ghost rs = quotas.rate_limits@;
        let ghost bs = quotas.budgets@;
        let ghost cs = quotas.concurrency@;
        let mut rate_limits: Table<RateLimitPolicy> = Table::new();
        proof {
            assert(rs.take(0) =~= seq![]);
            assert(bs.take(0) =~= seq![]);
            assert(cs.take(0) =~= seq![]);
        }
        for p in it: quotas.rate_limits
            invariant
                it.seq() == rs,
                forall|id: Seq<char>| #[trigger]
                    lookup(rate_limits@, id) == last_rate(rs.take(it.index() as int), id),
        {
            let ghost i = it.index() as int;
            let id: String = p.id.clone();
            let ghost before = rate_limits@;
            proof {
                assert(p == rs[i]);
                assert(rs.take(i + 1).drop_last() =~= rs.take(i));
                assert(rs.take(i + 1).last() == p);
            }
            rate_limits.put(id.as_str(), p);
            proof {
                assert forall|k: Seq<char>| #[trigger] lookup(rate_limits@, k) == last_rate(
                    rs.take(i + 1),
                    k,
                ) by {
                    assert(lookup(before, k) == last_rate(rs.take(i), k));
                }
            }
        }
        let mut budgets: Table<BudgetPolicy> = Table::new();
        for p in it: quotas.budgets
            invariant
                it.seq() == bs,
                forall|id: Seq<char>| #[trigger]
                    lookup(budgets@, id) == last_budget(bs.take(it.index() as int), id),
        {
            let ghost i = it.index() as int;
            let id: String = p.id.clone();
            let ghost before = budgets@;
            proof {
                assert(p == bs[i]);
                assert(bs.take(i + 1).drop_last() =~= bs.take(i));
                assert(bs.take(i + 1).last() == p);
            }
            budgets.put(id.as_str(), p);
            proof {
                assert forall|k: Seq<char>| #[trigger] lookup(budgets@, k) == last_budget(
                    bs.take(i + 1),
                    k,
                ) by {
                    assert(lookup(before, k) == last_budget(bs.take(i), k));
                }
            }
        }
        let mut concurrency_policies: Table<ConcurrencyPolicy> = Table::new();
        for p in it: quotas.concurrency
            invariant
                it.seq() == cs,
                forall|id: Seq<char>| #[trigger]
                    lookup(concurrency_policies@, id) == last_concurrency(
                        cs.take(it.index() as int),
                        id,
                    ),
        {
            let ghost i = it.index() as int;
            let id: String = p.id.clone();
            let ghost before = concurrency_policies@;
            proof {
                assert(p == cs[i]);
                assert(cs.take(i + 1).drop_last() =~= cs.take(i));
                assert(cs.take(i + 1).last() == p);
            }
            concurrency_policies.put(id.as_str(), p);
            proof {
                assert forall|k: Seq<char>| #[trigger] lookup(concurrency_policies@, k)
                    == last_concurrency(cs.take(i + 1), k) by {
                    assert(lookup(before, k) == last_concurrency(cs.take(i), k));
                }
            }
        }
        proof {
            assert(rs.take(rs.len() as int) =~= rs);
            assert(bs.take(bs.len() as int) =~= bs);
            assert(cs.take(cs.len() as int) =~= cs);
        }
        QuotaGate {
            rate_limits,
            budgets,
            concurrency_policies,
            concurrency: ConcurrencyTracker::new(),
            binding_refs,
            fail_open_on_error: quotas.fail_open_on_error,
        }
    }

    /// Whether a call proceeds when the quota gate itself fails.
    pub fn fail_open_on_error(&self) -> (r: bool)
        ensures
            r == self.fails_open(),
    {
        self.fail_open_on_error
    }

    /// Whether there are no policies and no bindings that name any.
    pub fn is_empty(&self) -> (r: bool)
        ensures
            r == (self.rates().dom().len() == 0 && self.accounts().dom().len() == 0
                && self.caps().dom().len() == 0 && self.bindings().dom().len() == 0),
    {
        self.rate_limits.len() == 0 && self.budgets.len() == 0 && self.concurrency_policies.len()
            == 0 && self.binding_refs.len() == 0
    }

    /// What to do to decide on a call from its concurrency cap on, given the
    /// calls in flight: the decision, and the calls in flight after it.
    pub open spec fn from_concurrency(&self, ctx: QuotaEvalContext) -> (
        QuotaView,
        Map<Seq<char>, Slots>,
    ) {
        match named(self.caps(), ctx.bref.concurrency.deep_view()) {
            None => (QuotaView::Allow { permit: None }, self.in_flight()),
            Some(p) => {
                let scope = call_scope(p.scope, p.identity_claim, ctx);
                let key = p.id@ + "."@ + scope;
                let s = slots_for(self.in_flight(), key, p.max_concurrent);
                if s.used < s.max {
                    (
                        QuotaView::Allow { permit: Some(key) },
                        self.in_flight().insert(
                            key,
                            Slots { max: s.max, used: (s.used + 1) as u64 },
                        ),
                    )
                } else {
                    (concurrency_refusal(p, scope), self.in_flight().insert(key, s))
                }
            },
        }
    }

    /// The bucket that a call draws on.
    pub open spec fn rate_use(&self, ctx: QuotaEvalContext) -> Option<UseView> {
        match named(self.rates(), ctx.bref.rate_limit.deep_view()) {
            Some(p) => Some(
                use_view(
                    "quotas.rate_limit."@,
                    p.id@,
                    call_scope(p.scope, p.identity_claim, ctx),
                ),
            ),
            None => None,
        }
    }

    /// The budget that a call draws on.
    pub open spec fn budget_use(&self, ctx: QuotaEvalContext) -> Option<UseView> {
        match named(self.accounts(), ctx.bref.budget.deep_view()) {
            Some(p) => Some(
                use_view("quotas.budget."@, p.id@, call_scope(p.scope, p.identity_claim, ctx)),
            ),
            None => None,
        }
    }

    /// What to do to decide on a call from its budget on.
    pub open spec fn from_budget(&self, ctx: QuotaEvalContext) -> (
        ActionView,
        Map<Seq<char>, Slots>,
    ) {
        match self.budget_use(ctx) {
            Some(u) => (ActionView::ChargeBudget(u), self.in_flight()),
            None => {
                let (d, m) = self.from_concurrency(ctx);
                (ActionView::Finish(d), m)
            },
        }
    }

    /// The decision on a call, given what its bucket and its budget answer
    /// where it has them, and the calls in flight after it.
    pub open spec fn decision(
        &self,
        ctx: QuotaEvalContext,
        rate_allowed: bool,
        budget_allowed: bool,
    ) -> (QuotaView, Map<Seq<char>, Slots>) {
        if self.rate_use(ctx) is Some && !rate_allowed {
            (rate_refusal(self.rate_use(ctx)->0), self.in_flight())
        } else if self.budget_use(ctx) is Some && !budget_allowed {
            (budget_refusal(self.budget_use(ctx)->0), self.in_flight())
        } else {
            self.from_concurrency(ctx)
        }
    }

    fn draw(
        prefix: &str,
        id: &str,
        scope: &str,
        identity_claim: &Option<String>,
        ctx: &QuotaEvalContext,
    ) -> (r: BucketUse)
        ensures
            r.deep_view() == use_view(
                prefix@,
                id@,
                scope_key_text(
                    scope@,
                    identity_claim.deep_view(),
                    ctx.tool_name@,
                    ctx.session_id.deep_view(),
                    ctx.identity.deep_view(),
                ),
            ),
    {
        let shared: String = scope_key(scope, text::opt_as_str(identity_claim), ctx);
        let mut key: String = prefix.to_owned();
        key.append(id);
        key.append(".");
        key.append(shared.as_str());
        BucketUse { policy_id: id.to_owned(), scope_key: shared, key }
    }

    fn rate_draw(&self, ctx: &QuotaEvalContext) -> (r: Option<BucketUse>)
        ensures
            r.deep_view() == self.rate_use(*ctx),
    {
        match &ctx.bref.rate_limit {
            None => None,
            Some(id) => match self.rate_limits.get(id.as_str()) {
                None => None,
                Some(p) => Some(
                    QuotaGate::draw(
                        "quotas.rate_limit.",
                        p.id.as_str(),
                        p.scope.as_str(),
                        &p.identity_claim,
                        ctx,
                    ),
                ),
            },
        }
    }

    fn budget_draw(&self, ctx: &QuotaEvalContext) -> (r: Option<BucketUse>)
        ensures
            r.deep_view() == self.budget_use(*ctx),
    {
        match &ctx.bref.budget {
            None => None,
            Some(id) => match self.budgets.get(id.as_str()) {
                None => None,
                Some(p) => Some(
                    QuotaGate::draw(
                        "quotas.budget.",
                        p.id.as_str(),
                        p.scope.as_str(),
                        &p.identity_claim,
                        ctx,
                    ),
                ),
            },
        }
    }

    fn acquire(&mut self, ctx: &QuotaEvalContext) -> (r: QuotaDecision)
        ensures
            (r.deep_view(), final(self).in_flight()) == old(self).from_concurrency(*ctx),
            final(self).same_policies(old(self)),
    {
        let id: &String = match &ctx.bref.concurrency {
            None => {
                return QuotaDecision::Allow { permit: None };
            },
            Some(id) => id,
        };
        let p: &ConcurrencyPolicy = match self.concurrency_policies.get(id.as_str()) {
            None => {
                return QuotaDecision::Allow { permit: None };
            },
            Some(p) => p,
        };
        let shared: String = scope_key(
            p.scope.as_str(),
            text::opt_as_str(&p.identity_claim),
            ctx,
        );
        let mut key: String = p.id.clone();
        key.append(".");
        key.append(shared.as_str());
        let policy_id: String = p.id.clone();
        let max: u32 = p.max_concurrent;
        match self.concurrency.try_acquire(key.as_str(), max) {
            Some(permit) => QuotaDecision::Allow { permit: Some(permit) },
            None => {
                let cap: String = text::decimal(max as u64);
                let mut reason: String = "concurrency cap `".to_owned();
                reason.append(policy_id.as_str());
                reason.append("` reached for scope `");
                reason.append(shared.as_str());
                reason.append("` (");
                reason.append(cap.as_str());
                reason.append("/");
                reason.append(cap.as_str());
                reason.append(" in flight)");
                QuotaDecision::Deny { policy_id, kind: QuotaKind::Concurrency, reason }
            },
        }
    }

    fn past_rate(&mut self, ctx: &QuotaEvalContext) -> (r: QuotaAction)
        ensures
            (r.deep_view(), final(self).in_flight()) == old(self).from_budget(*ctx),
            final(self).same_policies(old(self)),
    {
        match self.budget_draw(ctx) {
            Some(u) => QuotaAction::ChargeBudget(u),
            None => QuotaAction::Finish(self.acquire(ctx)),
        }
    }

    fn refuse(kind: QuotaKind, head: &str, u: &BucketUse) -> (r: QuotaDecision)
        ensures
            r.deep_view() == (QuotaView::Deny {
                policy_id: u.policy_id@,
                kind,
                reason: head@ + u.policy_id@ + "` exhausted for scope `"@ + u.scope_key@ + "`"@,
            }),
    {
        let mut reason: String = head.to_owned();
        reason.append(u.policy_id.as_str());
        reason.append("` exhausted for scope `");
        reason.append(u.scope_key.as_str());
        reason.append("`");
        QuotaDecision::Deny { policy_id: u.policy_id.clone(), kind, reason }
    }

    /// Begins to decide on a call.
    pub fn start(&mut self, ctx: &QuotaEvalContext) -> (r: QuotaAction)
        ensures
            match old(self).rate_use(*ctx) {
                Some(u) => r.deep_view() == ActionView::ConsumeToken(u) && final(self).in_flight()
                    == old(self).in_flight(),
                None => (r.deep_view(), final(self).in_flight()) == old(self).from_budget(*ctx),
            },
            final(self).same_policies(old(self)),
    {
        match self.rate_draw(ctx) {
            Some(u) => QuotaAction::ConsumeToken(u),
            None => self.past_rate(ctx),
        }
    }

    /// Goes on after the bucket answered.
    pub fn after_rate(&mut self, ctx: &QuotaEvalContext, drawn: &BucketUse, allowed: bool) -> (r:
        QuotaAction)
        ensures
            if allowed {
                (r.deep_view(), final(self).in_flight()) == old(self).from_budget(*ctx)
            } else {
                r.deep_view() == ActionView::Finish(rate_refusal(drawn.deep_view()))
                    && final(self).in_flight() == old(self).in_flight()
            },
            final(self).same_policies(old(self)),
    {
        if allowed {
            self.past_rate(ctx)
        } else {
            QuotaAction::Finish(QuotaGate::refuse(QuotaKind::RateLimit, "rate-limit `", drawn))
        }
    }

    /// Goes on after the budget answered.
    pub fn after_budget(&mut self, ctx: &QuotaEvalContext, drawn: &BucketUse, allowed: bool) -> (r:
        QuotaDecision)
        ensures
            if allowed {
                (r.deep_view(), final(self).in_flight()) == old(self).from_concurrency(*ctx)
            } else {
                r.deep_view() == budget_refusal(drawn.deep_view()) && final(self).in_flight()
                    == old(self).in_flight()
            },
            final(self).same_policies(old(self)),
    {
        if allowed {
            self.acquire(ctx)
        } else {
            QuotaGate::refuse(QuotaKind::Budget, "budget `", drawn)
        }
    }

    /// Decides on a call, given what its bucket and its budget answer where it
    /// has them.
    pub fn evaluate(
        &mut self,
        ctx: &QuotaEvalContext,
        rate_allowed: bool,
        budget_allowed: bool,
    ) -> (r: QuotaDecision)
        ensures
            (r.deep_view(), final(self).in_flight()) == old(self).decision(
                *ctx,
                rate_allowed,
                budget_allowed,
            ),
            final(self).same_policies(old(self)),
    {
        let mut action: QuotaAction = self.start(ctx);
        if let QuotaAction::ConsumeToken(u) = action {
            action = self.after_rate(ctx, &u, rate_allowed);
        }
        match action {
            QuotaAction::ConsumeToken(u) => QuotaGate::refuse(
                QuotaKind::RateLimit,
                "rate-limit `",
                &u,
            ),
            QuotaAction::ChargeBudget(u) => self.after_budget(ctx, &u, budget_allowed),
            QuotaAction::Finish(d) => d,
        }
    }

    /// The policies that a tool's binding names, where it names any.
    pub fn binding_ref(&self, tool_name: &str) -> (r: Option<&BackendQuotasRef>)
        ensures
            match r {
                Some(b) => lookup(self.bindings(), tool_name@) == Some(*b) && !(
                b.rate_limit is None && b.budget is None && b.concurrency is None),
                None => lookup(self.bindings(), tool_name@) matches Some(b) ==> b.rate_limit is None
                    && b.budget is None && b.concurrency is None,
            },
    {
        match self.binding_refs.get(tool_name) {
            None => None,
            Some(b) => {
                if b.is_empty() {
                    None
                } else {
                    Some(b)
                }
            },
        }
    }

    /// Decides on a call of a tool. A tool whose binding names no policy is
    /// allowed without a permit.
    pub fn evaluate_for_tool(
        &mut self,
        tool_name: &str,
        session_id: Option<&str>,
        identity: &RequestIdentity,
        rate_allowed: bool,
        budget_allowed: bool,
    ) -> (r: QuotaDecision)
        ensures
            final(self).same_policies(old(self)),
            match lookup(old(self).bindings(), tool_name@) {
                None => r.deep_view() == (QuotaView::Allow { permit: None })
                    && final(self).in_flight() == old(self).in_flight(),
                Some(b) => (r.deep_view(), final(self).in_flight()) == old(self).decision(
                    QuotaEvalContext { bref: &b, tool_name, session_id, identity },
                    rate_allowed,
                    budget_allowed,
                ),
            },
    {
        let bref: BackendQuotasRef = match self.binding_refs.get(tool_name) {
            None => {
                return QuotaDecision::Allow { permit: None };
            },
            Some(b) => {
                if b.is_empty() {
                    return QuotaDecision::Allow { permit: None };
                }
                BackendQuotasRef {
                    rate_limit: b.rate_limit.clone(),
                    budget: b.budget.clone(),
                    concurrency: b.concurrency.clone(),
                }
            },
        };
        let ctx: QuotaEvalContext = QuotaEvalContext {
            bref: &bref,
            tool_name,
            session_id,
            identity,
        };
        self.evaluate(&ctx, rate_allowed, budget_allowed)
    }

    /// Gives back the slot that a call held.
    pub fn release(&mut self, permit: ConcurrencyPermit)
        ensures
            final(self).same_policies(old(self)),
            ({
                let m = old(self).in_flight();
                let k = permit.key();
                final(self).in_flight() == (if m.contains_key(k) && m[k].used > 0 {
                    m.insert(k, Slots { max: m[k].max, used: (m[k].used - 1) as u64 })
                } else {
                    m
                })
            }),
    {
        self.concurrency.release(permit);
    }
}

/// A call that is refused holds no slot: the calls in flight are as before.
pub proof fn law_refusal_holds_no_slot(
    gate: QuotaGate,
    ctx: QuotaEvalContext,
    rate_allowed: bool,
    budget_allowed: bool,
    key: Seq<char>,
)
    requires
        gate.decision(ctx, rate_allowed, budget_allowed).0 is Deny,
    ensures
        ({
            let after = gate.decision(ctx, rate_allowed, budget_allowed).1;
            (if after.contains_key(key) {
                after[key].used
            } else {
                0
            }) == (if gate.in_flight().contains_key(key) {
                gate.in_flight()[key].used
            } else {
                0
            })
        }),
{
}

/// No counter ever passes its cap.
pub proof fn law_cap_is_exact(
    gate: QuotaGate,
    ctx: QuotaEvalContext,
    rate_allowed: bool,
    budget_allowed: bool,
)
    requires
        forall|k: Seq<char>| #[trigger]
            gate.in_flight().contains_key(k) ==> gate.in_flight()[k].used
                <= gate.in_flight()[k].max,
    ensures
        ({
            let after = gate.decision(ctx, rate_allowed, budget_allowed).1;
            forall|k: Seq<char>| #[trigger] after.contains_key(k) ==> after[k].used <= after[k].max
        }),
{
}

/// The limits are checked in order, and the first that is reached decides: an
/// exhausted rate limit refuses whatever the budget says.
pub proof fn law_rate_limit_comes_first(
    gate: QuotaGate,
    ctx: QuotaEvalContext,
    budget_allowed: bool,
)
    requires
        gate.rate_use(ctx) is Some,
    ensures
        gate.decision(ctx, false, budget_allowed) == (
            rate_refusal(gate.rate_use(ctx)->0),
            gate.in_flight(),
        ),
{
}

/// How many calls are in flight under a key.
pub open spec fn used_slots(m: Map<Seq<char>, Slots>, key: Seq<char>) -> int {
    if m.contains_key(key) {
        m[key].used as int
    } else {
        0
    }
}

/// Those who share a cap share it by their scope key, and nobody else's calls
/// count: a call changes the number in flight of its own scope key alone, and a
/// call whose scope key has free slots is allowed, whatever the others hold.
pub proof fn law_scope_keys_are_counted_apart(
    gate: QuotaGate,
    p: ConcurrencyPolicy,
    ctx: QuotaEvalContext,
    other: QuotaEvalContext,
    rate_allowed: bool,
    budget_allowed: bool,
)
    requires
        named(gate.caps(), ctx.bref.concurrency.deep_view()) == Some(p),
        named(gate.caps(), other.bref.concurrency.deep_view()) == Some(p),
        call_scope(p.scope, p.identity_claim, ctx) != call_scope(p.scope, p.identity_claim, other),
    ensures
        ({
            let (own, after) = gate.decision(ctx, rate_allowed, budget_allowed);
            let alone = gate.decision(other, rate_allowed, budget_allowed).0;
            // What the other call is answered once this one has been let in or refused.
            &&& forall|later: QuotaGate|
                later.caps() == gate.caps() && later.rates() == gate.rates() && later.accounts()
                    == gate.accounts() && later.in_flight() == after ==> #[trigger] later.decision(
                    other,
                    rate_allowed,
                    budget_allowed,
                ).0 == alone
            &&& own matches QuotaView::Allow { permit: Some(k) } ==> (alone matches QuotaView::Allow {
                permit: Some(j),
            } ==> k != j && used_slots(after, j) == used_slots(gate.in_flight(), j))
        }),
{
    let a = call_scope(p.scope, p.identity_claim, ctx);
    let b = call_scope(p.scope, p.identity_claim, other);
    let ka = p.id@ + "."@ + a;
    let kb = p.id@ + "."@ + b;
    let n = (p.id@ + "."@).len() as int;
    if ka == kb {
        assert(a =~= ka.skip(n));
        assert(b =~= kb.skip(n));
    }
    let after = gate.decision(ctx, rate_allowed, budget_allowed).1;
    assert forall|later: QuotaGate|
        later.caps() == gate.caps() && later.rates() == gate.rates() && later.accounts()
            == gate.accounts() && later.in_flight() == after implies #[trigger] later.decision(
        other,
        rate_allowed,
        budget_allowed,
    ).0 == gate.decision(other, rate_allowed, budget_allowed).0 by {
        assert(slots_for(after, kb, p.max_concurrent) == slots_for(
            gate.in_flight(),
            kb,
            p.max_concurrent,
        ));
    }
}

/// A cap lets as many calls of one scope key run at once as it says and no more:
/// a call that holds no slot yet is allowed exactly where fewer are in flight, it
/// then holds one more slot, and the next call finds that one taken.
pub proof fn law_cap_admits_up_to_its_number(
    gate: QuotaGate,
    p: ConcurrencyPolicy,
    ctx: QuotaEvalContext,
)
    requires
        named(gate.caps(), ctx.bref.concurrency.deep_view()) == Some(p),
        ctx.bref.rate_limit is None,
        ctx.bref.budget is None,
        forall|k: Seq<char>| #[trigger]
            gate.in_flight().contains_key(k) ==> gate.in_flight()[k].max == p.max_concurrent,
    ensures
        ({
            let (d, after) = gate.decision(ctx, true, true);
            match d {
                QuotaView::Allow { permit: Some(k) } => {
                    &&& used_slots(gate.in_flight(), k) < p.max_concurrent
                    &&& used_slots(after, k) == used_slots(gate.in_flight(), k) + 1
                    &&& forall|j: Seq<char>|
                        j != k ==> #[trigger] used_slots(after, j) == used_slots(
                            gate.in_flight(),
                            j,
                        )
                },
                QuotaView::Allow { permit: None } => false,
                QuotaView::Deny { policy_id, kind, .. } => {
                    &&& policy_id == p.id@
                    &&& kind is Concurrency
                    &&& p.max_concurrent == 0 || exists|k: Seq<char>|
                        #[trigger] used_slots(gate.in_flight(), k) >= p.max_concurrent
                },
            }
        }),
{
    let key = p.id@ + "."@ + call_scope(p.scope, p.identity_claim, ctx);
    let d = gate.decision(ctx, true, true).0;
    if d is Deny && p.max_concurrent > 0 {
        assert(used_slots(gate.in_flight(), key) >= p.max_concurrent);
    }
}

/// A gate without calls in flight admits the first call of every scope key, unless
/// the cap is zero.
pub proof fn law_first_call_finds_a_slot(
    gate: QuotaGate,
    p: ConcurrencyPolicy,
    ctx: QuotaEvalContext,
    rate_allowed: bool,
    budget_allowed: bool,
)
    requires
        named(gate.caps(), ctx.bref.concurrency.deep_view()) == Some(p),
        gate.in_flight() == Map::<Seq<char>, Slots>::empty(),
        rate_allowed,
        budget_allowed,
    ensures
        gate.decision(ctx, rate_allowed, budget_allowed).0 is Allow <==> p.max_concurrent > 0,
{
}

/// Who shares a counter: under `per_identity` the callers of one subject, or of
/// one value of the named claim where they prove it; under `per_session` the calls
/// of one session; under `per_tool` those of one tool; and under anything else all
/// calls.
pub proof fn law_scopes_say_who_shares(
    scope: Seq<char>,
    claim: Option<Seq<char>>,
    tool_name: Seq<char>,
    session_id: Option<Seq<char>>,
    caller: RequestIdentity,
)
    ensures
        ({
            let key = scope_key_text(scope, claim, tool_name, session_id, caller.deep_view());
            &&& scope == "per_identity"@ ==> match caller {
                RequestIdentity::Verified { subject_id, attributes, .. } => match claim {
                    Some(c) => match identity::pair_value(attributes.pairs(), c) {
                        Some(v) => key == v,
                        None => key == subject_id@,
                    },
                    None => key == subject_id@,
                },
                RequestIdentity::HttpHeader { subject_id, .. } => key == subject_id@,
                RequestIdentity::Anonymous { .. } => key == "anonymous"@,
            }
            &&& scope == "per_session"@ ==> key == (match session_id {
                Some(s) => s,
                None => "no-session"@,
            })
            &&& scope == "per_tool"@ ==> key == tool_name
            &&& scope != "per_identity"@ && scope != "per_session"@ && scope != "per_tool"@ ==> key
                == "global"@
        }),
{
    reveal_strlit("per_identity");
    reveal_strlit("per_session");
    reveal_strlit("per_tool");
    assert("per_identity"@.len() == 12 && "per_session"@.len() == 11 && "per_tool"@.len() == 8);
}

/// Under a policy, calls of different scope keys draw on different buckets and
/// budgets, calls of the same scope key on the same ones, and a bucket is never a
/// budget.
pub proof fn law_draws_are_kept_apart(
    gate: QuotaGate,
    a: QuotaEvalContext,
    b: QuotaEvalContext,
)
    ensures
        gate.rate_use(a) matches Some(u) ==> (gate.rate_use(b) matches Some(v) ==> (u.policy_id
            == v.policy_id ==> (u.key == v.key <==> u.scope_key == v.scope_key))),
        gate.budget_use(a) matches Some(u) ==> (gate.budget_use(b) matches Some(v) ==> (u.policy_id
            == v.policy_id ==> (u.key == v.key <==> u.scope_key == v.scope_key))),
        gate.rate_use(a) matches Some(u) ==> (gate.budget_use(b) matches Some(v) ==> u.key
            != v.key),
        gate.rate_use(a) matches Some(u) ==> (named(
            gate.rates(),
            a.bref.rate_limit.deep_view(),
        ) matches Some(p) && u.policy_id == p.id@ && u.scope_key == scope_key_text(
            p.scope@,
            p.identity_claim.deep_view(),
            a.tool_name@,
            a.session_id.deep_view(),
            a.identity.deep_view(),
        )),
        gate.budget_use(a) matches Some(u) ==> (named(
            gate.accounts(),
            a.bref.budget.deep_view(),
        ) matches Some(p) && u.policy_id == p.id@ && u.scope_key == scope_key_text(
            p.scope@,
            p.identity_claim.deep_view(),
            a.tool_name@,
            a.session_id.deep_view(),
            a.identity.deep_view(),
        )),
{
    if let Some(u) = gate.rate_use(a) {
        if let Some(v) = gate.rate_use(b) {
            let n = ("quotas.rate_limit."@ + u.policy_id + "."@).len() as int;
            assert(u.scope_key =~= u.key.skip(n));
            if u.policy_id == v.policy_id {
                assert(v.scope_key =~= v.key.skip(n));
            }
        }
        if let Some(v) = gate.budget_use(b) {
            reveal_strlit("quotas.rate_limit.");
            reveal_strlit("quotas.budget.");
            assert(u.key[7] == 'r');
            assert(v.key[7] == 'b');
        }
    }
    if let Some(u) = gate.budget_use(a) {
        if let Some(v) = gate.budget_use(b) {
            let n = ("quotas.budget."@ + u.policy_id + "."@).len() as int;
            assert(u.scope_key =~= u.key.skip(n));
            if u.policy_id == v.policy_id {
                assert(v.scope_key =~= v.key.skip(n));
            }
        }
    }
}

/// A call is refused exactly where a limit that its binding names is reached: its
/// bucket, then its budget, then its cap; and the refusal names the policy and its
/// kind.
pub proof fn law_refusals_name_the_limit(
    gate: QuotaGate,
    ctx: QuotaEvalContext,
    rate_allowed: bool,
    budget_allowed: bool,
)
    ensures
        match gate.decision(ctx, rate_allowed, budget_allowed).0 {
            QuotaView::Deny { policy_id, kind, .. } => match kind {
                QuotaKind::RateLimit => !rate_allowed && (named(
                    gate.rates(),
                    ctx.bref.rate_limit.deep_view(),
                ) matches Some(p) && policy_id == p.id@),
                QuotaKind::Budget => !budget_allowed && (named(
                    gate.accounts(),
                    ctx.bref.budget.deep_view(),
                ) matches Some(p) && policy_id == p.id@) && (rate_allowed || named(
                    gate.rates(),
                    ctx.bref.rate_limit.deep_view(),
                ) is None),
                QuotaKind::Concurrency => (named(
                    gate.caps(),
                    ctx.bref.concurrency.deep_view(),
                ) matches Some(p) && policy_id == p.id@),
            },
            QuotaView::Allow { permit } => {
                &&& rate_allowed || named(gate.rates(), ctx.bref.rate_limit.deep_view()) is None
                &&& budget_allowed || named(gate.accounts(), ctx.bref.budget.deep_view()) is None
                &&& permit is Some <==> named(
                    gate.caps(),
                    ctx.bref.concurrency.deep_view(),
                ) is Some
            },
        },
        gate.decision(ctx, rate_allowed, budget_allowed).0 matches QuotaView::Deny { kind, .. }
            ==> !(kind is Concurrency) ==> gate.decision(ctx, rate_allowed, budget_allowed).1
            == gate.in_flight(),
{
}

/// The kinds of policies are named as their configuration names them.
pub proof fn law_kinds_are_named_apart(a: QuotaKind, b: QuotaKind)
    ensures
        kind_text(a) == kind_text(b) <==> a == b,
        kind_text(QuotaKind::RateLimit) == "rate_limit"@,
        kind_text(QuotaKind::Budget) == "budget"@,
        kind_text(QuotaKind::Concurrency) == "concurrency"@,
{
    reveal_strlit("rate_limit");
    reveal_strlit("budget");
    reveal_strlit("concurrency");
    assert("rate_limit"@.len() == 10 && "budget"@.len() == 6 && "concurrency"@.len() == 11);
}

/// A call passes a budget exactly where no cap of its window is reached, and is
/// then counted once; a window that is over counts from zero and begins now, and
/// one that is not over keeps its start and its tokens.
pub proof fn law_budgets_count_by_window(
    policy: BudgetPolicy,
    prev: BudgetCounters,
    window_ms: int,
    cost_reached: bool,
    zero_cost_reached: bool,
    now_ms: i64,
)
    ensures
        ({
            let r = budget_check(
                policy,
                Some(prev),
                window_ms,
                cost_reached,
                zero_cost_reached,
                now_ms,
            );
            let over = now_ms - prev.window_started_unix_ms >= window_ms;
            let calls: int = if over {
                0
            } else {
                prev.calls as int
            };
            let tokens: int = if over {
                0
            } else {
                prev.tokens as int
            };
            &&& r.rolled == over
            &&& r.allowed <==> (policy.cap_calls matches Some(cap) ==> calls < cap) && (
            policy.cap_token_count matches Some(cap) ==> tokens < cap) && (if over {
                !zero_cost_reached
            } else {
                !cost_reached
            })
            &&& r.counters.tokens == tokens
            &&& r.counters.window_started_unix_ms == if over {
                now_ms
            } else {
                prev.window_started_unix_ms
            }
            &&& !r.allowed ==> r.counters.calls == calls
            &&& r.allowed && calls < u64::MAX ==> r.counters.calls == calls + 1
        }),
{
}

/// A budget that nobody has drawn on counts from zero, from now on.
pub proof fn law_fresh_budgets_start_now(
    policy: BudgetPolicy,
    window_ms: int,
    cost_reached: bool,
    zero_cost_reached: bool,
    now_ms: i64,
)
    ensures
        ({
            let r = budget_check(
                policy,
                None,
                window_ms,
                cost_reached,
                zero_cost_reached,
                now_ms,
            );
            &&& r.counters.window_started_unix_ms == now_ms
            &&& r.counters.tokens == 0
            &&& r.allowed <==> policy.cap_calls != Some(0u64) && policy.cap_token_count != Some(0u64)
                && !zero_cost_reached
            &&& r.counters.calls == if r.allowed {
                1int
            } else {
                0int
            }
        }),
{
}

/// A window is its number times its unit: seconds, minutes, hours or days, written
/// right behind the digits with nothing after it.
pub proof fn law_windows_are_numbers_of_units(digits: Seq<char>, unit: char)
    requires
        digits.len() > 0,
        forall|i: int| 0 <= i < digits.len() ==> '0' <= #[trigger] digits[i] <= '9',
        digits_value(digits) <= i64::MAX,
        text::trimmed(digits.push(unit)) == digits.push(unit),
        !('0' <= unit <= '9'),
    ensures
        window_value(digits.push(unit)) == (match unit {
            's' => Some(digits_value(digits) * 1_000),
            'm' => Some(digits_value(digits) * 60 * 1_000),
            'h' => Some(digits_value(digits) * 60 * 60 * 1_000),
            'd' => Some(digits_value(digits) * 24 * 60 * 60 * 1_000),
            _ => None,
        }),
{
    let t = digits.push(unit);
    assert forall|j: int| 0 <= j < digits.len() implies '0' <= #[trigger] t[j] <= '9' by {
        assert(t[j] == digits[j]);
    }
    lemma_leading_digits(t, digits.len() as int);
    assert(t.take(digits.len() as int) =~= digits);
    let n = digits_value(digits);
    assert(n * 3_600_000 == n * 60 * 60 * 1_000) by (nonlinear_arith);
    assert(n * 86_400_000 == n * 24 * 60 * 60 * 1_000) by (nonlinear_arith);
    assert(n * 60_000 == n * 60 * 1_000) by (nonlinear_arith);
}

/// Digits stand for the number that they are in the decimal system: one more digit
/// is ten times the number and the digit.
pub proof fn law_digits_are_decimal(digits: Seq<char>, digit: char)
    requires
        '0' <= digit <= '9',
    ensures
        digits_value(seq![]) == 0,
        digits_value(digits.push(digit)) == 10 * digits_value(digits) + (digit as int - '0' as int),
{
    assert(digits.push(digit).drop_last() =~= digits);
}

/// A call is held to the policies that the binding of its own tool names, and to no
/// others: a tool without a binding is allowed and holds no slot.
pub proof fn law_calls_are_held_to_their_own_binding(
    gate: &mut QuotaGate,
    tool_name: &str,
    session_id: Option<&str>,
    identity: RequestIdentity,
    rate_allowed: bool,
    budget_allowed: bool,
    r: QuotaDecision,
)
    requires
        call_ensures(
            QuotaGate::evaluate_for_tool,
            (gate, tool_name, session_id, &identity, rate_allowed, budget_allowed),
            r,
        ),
    ensures
        !old(gate).bindings().contains_key(tool_name@) ==> r.deep_view() == (QuotaView::Allow {
            permit: None,
        }),
        old(gate).bindings().contains_key(tool_name@) ==> r.deep_view() == old(gate).decision(
            QuotaEvalContext {
                bref: &old(gate).bindings()[tool_name@],
                tool_name,
                session_id,
                identity: &identity,
            },
            rate_allowed,
            budget_allowed,
        ).0,
        rate_allowed && budget_allowed && old(gate).bindings().contains_key(tool_name@) && old(
            gate,
        ).bindings()[tool_name@].concurrency is None ==> r.deep_view() == (QuotaView::Allow {
            permit: None,
        }),
{
}

/// A slot that is given back frees one place under its own key and changes no other.
pub proof fn law_slots_are_given_back(
    gate: &mut QuotaGate,
    permit: ConcurrencyPermit,
    key: Seq<char>,
)
    requires
        call_ensures(QuotaGate::release, (gate, permit), ()),
    ensures
        used_slots(final(gate).in_flight(), key) == (if key == permit.key() && used_slots(
            old(gate).in_flight(),
            key,
        ) > 0 {
            used_slots(old(gate).in_flight(), key) - 1
        } else {
            used_slots(old(gate).in_flight(), key)
        }),
{
}

/// The last configured policy of an id is the one that counts, each kind by itself.
pub proof fn law_last_configured_policy_counts(
    quotas: QuotasConfig,
    bindings: Table<BackendQuotasRef>,
    gate: QuotaGate,
    i: int,
)
    requires
        call_ensures(QuotaGate::new, (quotas, bindings), gate),
        0 <= i < quotas.concurrency@.len(),
        forall|j: int|
            i < j < quotas.concurrency@.len() ==> (#[trigger] quotas.concurrency@[j]).id@
                != quotas.concurrency@[i].id@,
    ensures
        gate.caps().contains_key(quotas.concurrency@[i].id@),
        gate.caps()[quotas.concurrency@[i].id@] == quotas.concurrency@[i],
        gate.bindings() == bindings@,
        gate.fails_open() == quotas.fail_open_on_error,
        gate.in_flight() == Map::<Seq<char>, Slots>::empty(),
{
    lemma_last_concurrency(quotas.concurrency@, i);
    assert(lookup(gate.caps(), quotas.concurrency@[i].id@) == Some(quotas.concurrency@[i]));
}

proof fn lemma_last_concurrency(s: Seq<ConcurrencyPolicy>, i: int)
    requires
        0 <= i < s.len(),
        forall|j: int| i < j < s.len() ==> (#[trigger] s[j]).id@ != s[i].id@,
    ensures
        last_concurrency(s, s[i].id@) == Some(s[i]),
    decreases s.len(),
{
    if i < s.len() - 1 {
        let init = s.drop_last();
        assert(s.last() == s[s.len() - 1]);
        assert(init[i] == s[i]);
        assert forall|j: int| i < j < init.len() implies (#[trigger] init[j]).id@ != init[i].id@ by {
            assert(init[j] == s[j]);
        }
        lemma_last_concurrency(init, i);
    }
}

/// The last configured rate limit of an id is the one that counts.
pub proof fn law_last_rate_limit_counts(
    quotas: QuotasConfig,
    bindings: Table<BackendQuotasRef>,
    gate: QuotaGate,
    i: int,
)
    requires
        call_ensures(QuotaGate::new, (quotas, bindings), gate),
        0 <= i < quotas.rate_limits@.len(),
        forall|j: int|
            i < j < quotas.rate_limits@.len() ==> (#[trigger] quotas.rate_limits@[j]).id@
                != quotas.rate_limits@[i].id@,
    ensures
        gate.rates().contains_key(quotas.rate_limits@[i].id@),
        gate.rates()[quotas.rate_limits@[i].id@] == quotas.rate_limits@[i],
{
    lemma_last_rate(quotas.rate_limits@, i);
    assert(lookup(gate.rates(), quotas.rate_limits@[i].id@) == Some(quotas.rate_limits@[i]));
}

proof fn lemma_last_rate(s: Seq<RateLimitPolicy>, i: int)
    requires
        0 <= i < s.len(),
        forall|j: int| i < j < s.len() ==> (#[trigger] s[j]).id@ != s[i].id@,
    ensures
        last_rate(s, s[i].id@) == Some(s[i]),
    decreases s.len(),
{
    if i < s.len() - 1 {
        let init = s.drop_last();
        assert(s.last() == s[s.len() - 1]);
        assert(init[i] == s[i]);
        assert forall|j: int| i < j < init.len() implies (#[trigger] init[j]).id@ != init[i].id@ by {
            assert(init[j] == s[j]);
        }
        lemma_last_rate(init, i);
    }
}

/// The last configured budget of an id is the one that counts.
pub proof fn law_last_budget_counts(
    quotas: QuotasConfig,
    bindings: Table<BackendQuotasRef>,
    gate: QuotaGate,
    i: int,
)
    requires
        call_ensures(QuotaGate::new, (quotas, bindings), gate),
        0 <= i < quotas.budgets@.len(),
        forall|j: int|
            i < j < quotas.budgets@.len() ==> (#[trigger] quotas.budgets@[j]).id@
                != quotas.budgets@[i].id@,
    ensures
        gate.accounts().contains_key(quotas.budgets@[i].id@),
        gate.accounts()[quotas.budgets@[i].id@] == quotas.budgets@[i],
{
    lemma_last_budget(quotas.budgets@, i);
    assert(lookup(gate.accounts(), quotas.budgets@[i].id@) == Some(quotas.budgets@[i]));
}

proof fn lemma_last_budget(s: Seq<BudgetPolicy>, i: int)
    requires
        0 <= i < s.len(),
        forall|j: int| i < j < s.len() ==> (#[trigger] s[j]).id@ != s[i].id@,
    ensures
        last_budget(s, s[i].id@) == Some(s[i]),
    decreases s.len(),
{
    if i < s.len() - 1 {
        let init = s.drop_last();
        assert(s.last() == s[s.len() - 1]);
        assert(init[i] == s[i]);
        assert forall|j: int| i < j < init.len() implies (#[trigger] init[j]).id@ != init[i].id@ by {
            assert(init[j] == s[j]);
        }
        lemma_last_budget(init, i);
    }
}

/// A budget whose window cannot be read counts by the day, and its state outlives its
/// window once over.
pub proof fn law_unreadable_windows_are_a_day(policy: BudgetPolicy, ms: i64, ttl: u64)
    requires
        !window_too_long(policy.window@),
        call_ensures(budget_window_ms, (&policy,), ms),
        ms >= 0,
        call_ensures(budget_state_ttl_ms, (ms,), ttl),
    ensures
        window_value(policy.window@) is None ==> ms == 24 * 60 * 60 * 1_000,
        window_value(policy.window@) matches Some(v) ==> ms == v,
        ttl == 2 * ms,
{
}

/// A counter is shared by the calls that its scope puts together: those of one caller,
/// of one session, of one tool, or all.
pub proof fn law_counters_are_shared_by_scope(
    scope: &str,
    claim: Option<&str>,
    ctx: QuotaEvalContext,
    r: String,
)
    requires
        call_ensures(scope_key, (scope, claim, &ctx), r),
    ensures
        scope@ == "per_tool"@ ==> r@ == ctx.tool_name@,
        scope@ == "per_session"@ ==> (ctx.session_id matches Some(s) ==> r@ == s@),
        scope@ == "per_identity"@ && claim is None ==> match *ctx.identity {
            RequestIdentity::Verified { subject_id, .. } => r@ == subject_id@,
            RequestIdentity::HttpHeader { subject_id, .. } => r@ == subject_id@,
            RequestIdentity::Anonymous { .. } => r@ == "anonymous"@,
        },
        scope@ != "per_tool"@ && scope@ != "per_session"@ && scope@ != "per_identity"@ ==> r@
            == "global"@,
{
    reveal_strlit("per_identity");
    reveal_strlit("per_session");
    reveal_strlit("per_tool");
    assert("per_identity"@.len() == 12 && "per_session"@.len() == 11 && "per_tool"@.len() == 8);
}

/// A tool is bound to its quotas exactly where its binding names any.
pub proof fn law_bindings_name_their_quotas(
    gate: QuotaGate,
    tool_name: &str,
    r: Option<&BackendQuotasRef>,
    bref: BackendQuotasRef,
    empty: bool,
)
    requires
        call_ensures(QuotaGate::binding_ref, (&gate, tool_name), r),
        call_ensures(BackendQuotasRef::is_empty, (&bref,), empty),
    ensures
        r matches Some(b) ==> gate.bindings().contains_key(tool_name@)
            && gate.bindings()[tool_name@] == *b && (b.rate_limit is Some || b.budget is Some
            || b.concurrency is Some),
        r is None && gate.bindings().contains_key(tool_name@) ==> gate.bindings()[tool_name@].rate_limit
            is None && gate.bindings()[tool_name@].budget is None
            && gate.bindings()[tool_name@].concurrency is None,
        empty <==> bref.rate_limit is None && bref.budget is None && bref.concurrency is None,
{
}

/// The state of a budget is kept for two of its windows, so that it outlives the window
/// it counts.
pub proof fn law_budgets_outlive_their_window(window_ms: i64, r: u64)
    requires
        0 < window_ms,
        call_ensures(budget_state_ttl_ms, (window_ms,), r),
    ensures
        r == window_ms + window_ms,
        r > window_ms,
{
}

/// A new gate has no call in flight and the bindings that it was given, and lets calls
/// pass where its store fails exactly where it is set to.
pub proof fn law_new_gates_count_from_nothing(
    quotas: QuotasConfig,
    binding_refs: Table<BackendQuotasRef>,
    gate: QuotaGate,
    key: Seq<char>,
    open: bool,
)
    requires
        call_ensures(QuotaGate::new, (quotas, binding_refs), gate),
        call_ensures(QuotaGate::fail_open_on_error, (&gate,), open),
    ensures
        !gate.in_flight().contains_key(key),
        gate.bindings() == binding_refs@,
        open == quotas.fail_open_on_error,
{
}

/// A slot is given out exactly where fewer are used than the counter of that key has,
/// and is taken from that counter alone; giving it back makes room again.
pub proof fn law_slots_are_counted_by_key(
    taking: &mut ConcurrencyTracker,
    giving: &mut ConcurrencyTracker,
    key: &str,
    max: u32,
    other: Seq<char>,
    r: Option<ConcurrencyPermit>,
)
    requires
        call_ensures(ConcurrencyTracker::try_acquire, (taking, key, max), r),
        *old(giving) == *final(taking),
        r matches Some(p) ==> call_ensures(ConcurrencyTracker::release, (giving, p), ()),
        other != key@,
    ensures
        !old(taking).slots().contains_key(key@) ==> (r is Some <==> max > 0),
        old(taking).slots().contains_key(key@) ==> (r is Some <==> old(taking).slots()[key@].used
            < old(taking).slots()[key@].max),
        final(taking).slots().contains_key(other) == old(taking).slots().contains_key(other),
        old(taking).slots().contains_key(other) ==> final(taking).slots()[other] == old(taking).slots()[other],
        r matches Some(p) ==> p.key() == key@ && final(giving).slots()[key@].used + 1 == final(taking).slots()[key@].used,
        r is Some && old(taking).slots().contains_key(key@) ==> final(giving).slots()[key@]
            == old(taking).slots()[key@],
{
}

/// A bucket or a budget that has nothing left refuses the call by name and takes no
/// slot; one that has something left hands the call on to what comes next.
pub proof fn law_empty_buckets_take_no_slot(
    by_rate: &mut QuotaGate,
    by_budget: &mut QuotaGate,
    ctx: QuotaEvalContext,
    drawn: BucketUse,
    rate: QuotaAction,
    budget: QuotaDecision,
)
    requires
        call_ensures(QuotaGate::after_rate, (by_rate, &ctx, &drawn, false), rate),
        call_ensures(QuotaGate::after_budget, (by_budget, &ctx, &drawn, false), budget),
    ensures
        final(by_rate).in_flight() == old(by_rate).in_flight(),
        final(by_budget).in_flight() == old(by_budget).in_flight(),
        rate.deep_view() matches ActionView::Finish(QuotaView::Deny { policy_id, kind, .. })
            && policy_id == drawn.policy_id@ && kind is RateLimit,
        budget.deep_view() matches QuotaView::Deny { policy_id, kind, .. } && policy_id
            == drawn.policy_id@ && kind is Budget,
{
}

/// A look at a budget refuses exactly where a cap is reached within its window, counts
/// the call where it does not, and starts anew once the window is over.
pub proof fn law_budgets_are_looked_at(
    policy: BudgetPolicy,
    prev: BudgetCounters,
    window_ms: i64,
    cost_reached: bool,
    zero_cost_reached: bool,
    now_ms: i64,
    r: BudgetCheck,
)
    requires
        i64::MIN <= now_ms - prev.window_started_unix_ms <= i64::MAX,
        call_ensures(
            check_budget_pre_flight,
            (&policy, Some(prev), window_ms, cost_reached, zero_cost_reached, now_ms),
            r,
        ),
        now_ms - prev.window_started_unix_ms < window_ms,
    ensures
        !r.rolled,
        r.allowed <==> !cost_reached && (policy.cap_calls matches Some(cap) ==> prev.calls < cap)
            && (policy.cap_token_count matches Some(cap) ==> prev.tokens < cap),
        r.allowed && prev.calls < u64::MAX ==> r.counters.calls == prev.calls + 1,
        !r.allowed ==> r.counters == prev,
        r.counters.window_started_unix_ms == prev.window_started_unix_ms,
{
}

/// A window that is over starts anew, and one that is not goes on as it was.
pub proof fn law_windows_roll_over(
    state: &mut BudgetCounters,
    window_ms: i64,
    now_ms: i64,
    r: bool,
)
    requires
        i64::MIN <= now_ms - old(state).window_started_unix_ms <= i64::MAX,
        call_ensures(maybe_roll_window, (state, window_ms, now_ms), r),
    ensures
        r <==> now_ms - old(state).window_started_unix_ms >= window_ms,
        !r ==> *final(state) == *old(state),
        r ==> final(state).calls == 0 && final(state).tokens == 0 && final(state).window_started_unix_ms == now_ms,
{
}

/// A call is held to its limits in order: first to its rate limit, where its binding
/// names one, then to its budget, and only then to the number of calls at once. What
/// has room at one step is handed on to the next and to none beyond it.
pub proof fn law_limits_come_in_order(
    beginning: &mut QuotaGate,
    past_rate: &mut QuotaGate,
    ctx: QuotaEvalContext,
    drawn: BucketUse,
    first: QuotaAction,
    second: QuotaAction,
)
    requires
        call_ensures(QuotaGate::start, (beginning, &ctx), first),
        call_ensures(QuotaGate::after_rate, (past_rate, &ctx, &drawn, true), second),
    ensures
        first.deep_view() is ConsumeToken <==> old(beginning).rate_use(ctx) is Some,
        first.deep_view() is ConsumeToken ==> final(beginning).in_flight() == old(beginning).in_flight(),
        first.deep_view() is ChargeBudget <==> old(beginning).rate_use(ctx) is None && old(beginning).budget_use(ctx) is Some,
        second.deep_view() is ChargeBudget <==> old(past_rate).budget_use(ctx) is Some,
        second.deep_view() is ChargeBudget ==> final(past_rate).in_flight() == old(past_rate).in_flight(),
        second.deep_view() is Finish <==> old(past_rate).budget_use(ctx) is None,
        second.deep_view() matches ActionView::ChargeBudget(u) ==> old(past_rate).budget_use(ctx)
            == Some(u),
        first.deep_view() matches ActionView::ConsumeToken(u) ==> old(beginning).rate_use(ctx)
            == Some(u),
{
}

} // verus!
