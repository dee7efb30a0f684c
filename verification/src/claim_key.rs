//! What the keys of cached decisions tell apart.
//!
//! A key holds a hash of the caller's claims. The bytes that are hashed are the
//! same for two callers exactly if their claims are, up to the order of roles,
//! groups and scopes, so that a cached decision outlives no change of claims,
//! unless two hashes collide.
use vstd::prelude::*;
use vstd::std_specs::hash::*;

use std::collections::hash_map::DefaultHasher;

use crate::identity;
use crate::order;
use crate::policy;
use crate::policy::PolicyInput;

verus! {

/// The bytes that are hashed for the claims of a caller.
pub open spec fn hashed_bytes(input: PolicyInput) -> Seq<u8> {
    policy::fed_claims(input).flatten()
}

/// Whether two callers make the same claims, in whatever order they list their
/// roles, groups and scopes.
pub open spec fn same_claims(a: PolicyInput, b: PolicyInput) -> bool {
    &&& a.auth_provider == b.auth_provider
    &&& a.identity_kind == b.identity_kind
    &&& a.roles.to_multiset() == b.roles.to_multiset()
    &&& a.groups.to_multiset() == b.groups.to_multiset()
    &&& a.scopes.to_multiset() == b.scopes.to_multiset()
    &&& a.attributes == b.attributes
}

/// Whether the lists of a caller are no longer than a machine can hold.
pub open spec fn lists_fit(input: PolicyInput) -> bool {
    &&& input.roles.len() <= u64::MAX
    &&& input.groups.len() <= u64::MAX
    &&& input.scopes.len() <= u64::MAX
}

/// The bytes of a text, with the mark at its end.
spec fn text_bytes(t: Seq<char>) -> Seq<u8> {
    vstd::utf8::encode_utf8(t).push(255u8)
}

/// The bytes of texts, one after another.
spec fn all_bytes(s: Seq<Seq<char>>) -> Seq<u8>
    decreases s.len(),
{
    if s.len() == 0 {
        seq![]
    } else {
        text_bytes(s[0]) + all_bytes(s.skip(1))
    }
}

spec fn opt_bytes(t: Option<Seq<char>>) -> Seq<u8> {
    match t {
        None => policy::low_bytes(0, 8),
        Some(s) => policy::low_bytes(1, 8) + text_bytes(s),
    }
}

spec fn list_bytes(s: Seq<Seq<char>>) -> Seq<u8> {
    let sorted = order::sorted_texts(s);
    policy::low_bytes(sorted.len(), 8) + all_bytes(sorted)
}

/// The names and values of attributes, in turn.
spec fn unzipped(s: Seq<(Seq<char>, Seq<char>)>) -> Seq<Seq<char>>
    decreases s.len(),
{
    if s.len() == 0 {
        seq![]
    } else {
        unzipped(s.drop_last()).push(s.last().0).push(s.last().1)
    }
}

proof fn lemma_flatten_joins(a: Seq<Seq<u8>>, b: Seq<Seq<u8>>)
    ensures
        (a + b).flatten() == a.flatten() + b.flatten(),
    decreases a.len(),
{
    if a.len() == 0 {
        assert(a + b =~= b);
    } else {
        assert((a + b).drop_first() =~= a.drop_first() + b);
        lemma_flatten_joins(a.drop_first(), b);
    }
}

proof fn lemma_fed_text(t: Seq<char>)
    ensures
        policy::fed_text(t).flatten() == text_bytes(t),
{
    let f = policy::fed_text(t);
    assert(f.drop_first().drop_first() =~= seq![]);
    reveal_with_fuel(Seq::<Seq<u8>>::flatten, 3);
}

proof fn lemma_one_chunk(b: Seq<u8>)
    ensures
        seq![b].flatten() == b,
{
    assert(seq![b].drop_first() =~= seq![]);
    reveal_with_fuel(Seq::<Seq<u8>>::flatten, 2);
}

proof fn lemma_all_bytes_last(s: Seq<Seq<char>>)
    requires
        s.len() > 0,
    ensures
        all_bytes(s) == all_bytes(s.drop_last()) + text_bytes(s.last()),
    decreases s.len(),
{
    if s.len() == 1 {
        assert(s.skip(1) =~= seq![]);
        assert(s.drop_last() =~= seq![]);
    } else {
        lemma_all_bytes_last(s.skip(1));
        assert(s.skip(1).drop_last() =~= s.drop_last().skip(1));
    }
}

proof fn lemma_fed_all(s: Seq<Seq<char>>)
    ensures
        policy::fed_all(s).flatten() == all_bytes(s),
    decreases s.len(),
{
    if s.len() > 0 {
        lemma_fed_all(s.drop_last());
        lemma_fed_text(s.last());
        lemma_flatten_joins(policy::fed_all(s.drop_last()), policy::fed_text(s.last()));
        lemma_all_bytes_last(s);
    }
}

proof fn lemma_fed_pairs(s: Seq<(Seq<char>, Seq<char>)>)
    ensures
        policy::fed_pairs(s).flatten() == all_bytes(unzipped(s)),
    decreases s.len(),
{
    if s.len() > 0 {
        let rest = policy::fed_pairs(s.drop_last());
        let (name, value) = s.last();
        lemma_fed_pairs(s.drop_last());
        lemma_fed_text(name);
        lemma_fed_text(value);
        lemma_flatten_joins(rest, policy::fed_text(name));
        lemma_flatten_joins(rest + policy::fed_text(name), policy::fed_text(value));
        let named = unzipped(s.drop_last()).push(name);
        assert(named.drop_last() =~= unzipped(s.drop_last()));
        assert(named.push(value).drop_last() =~= named);
        lemma_all_bytes_last(named);
        lemma_all_bytes_last(named.push(value));
    }
}

proof fn lemma_hashed_bytes(input: PolicyInput)
    ensures
        hashed_bytes(input) == opt_bytes(input.auth_provider) + (text_bytes(input.identity_kind) + (
        list_bytes(input.roles) + (list_bytes(input.groups) + (list_bytes(input.scopes) + all_bytes(
            unzipped(input.attributes),
        ))))),
{
    let o = policy::fed_opt(input.auth_provider);
    let k = policy::fed_text(input.identity_kind);
    let r = policy::fed_list(input.roles);
    let g = policy::fed_list(input.groups);
    let s = policy::fed_list(input.scopes);
    let p = policy::fed_pairs(input.attributes);
    lemma_flatten_joins(o, k);
    lemma_flatten_joins(o + k, r);
    lemma_flatten_joins(o + k + r, g);
    lemma_flatten_joins(o + k + r + g, s);
    lemma_flatten_joins(o + k + r + g + s, p);
    match input.auth_provider {
        None => {
            lemma_one_chunk(policy::low_bytes(0, 8));
        },
        Some(t) => {
            lemma_one_chunk(policy::low_bytes(1, 8));
            lemma_fed_text(t);
            lemma_flatten_joins(seq![policy::low_bytes(1, 8)], policy::fed_text(t));
        },
    }
    lemma_fed_text(input.identity_kind);
    lemma_fed_list(input.roles);
    lemma_fed_list(input.groups);
    lemma_fed_list(input.scopes);
    lemma_fed_pairs(input.attributes);
    assert(hashed_bytes(input) =~= opt_bytes(input.auth_provider) + (text_bytes(
        input.identity_kind,
    ) + (list_bytes(input.roles) + (list_bytes(input.groups) + (list_bytes(input.scopes)
        + all_bytes(unzipped(input.attributes)))))));
}

proof fn lemma_fed_list(s: Seq<Seq<char>>)
    ensures
        policy::fed_list(s).flatten() == list_bytes(s),
{
    let sorted = order::sorted_texts(s);
    lemma_one_chunk(policy::low_bytes(sorted.len(), 8));
    lemma_fed_all(sorted);
    lemma_flatten_joins(seq![policy::low_bytes(sorted.len(), 8)], policy::fed_all(sorted));
}

/// No byte of a text is the mark at its end.
proof fn lemma_no_mark(t: Seq<char>)
    ensures
        forall|i: int|
            0 <= i < vstd::utf8::encode_utf8(t).len() ==> #[trigger] vstd::utf8::encode_utf8(t)[i]
                != 255,
    decreases t.len(),
{
    if t.len() > 0 {
        lemma_no_mark(t.drop_first());
        let c = t[0] as u32;
        assert((c & 0x7F) as u8 != 255u8) by (bit_vector);
        assert(0xC0u8 | ((c >> 6) & 0x1F) as u8 != 255u8) by (bit_vector);
        assert(0xE0u8 | ((c >> 12) & 0x0F) as u8 != 255u8) by (bit_vector);
        assert(0xF0u8 | ((c >> 18) & 0x7) as u8 != 255u8) by (bit_vector);
        assert(0x80u8 | (c & 0x3F) as u8 != 255u8) by (bit_vector);
        assert(0x80u8 | ((c >> 6) & 0x3F) as u8 != 255u8) by (bit_vector);
        assert(0x80u8 | ((c >> 12) & 0x3F) as u8 != 255u8) by (bit_vector);
        let head = vstd::utf8::encode_scalar(c);
        let rest = vstd::utf8::encode_utf8(t.drop_first());
        assert forall|i: int| 0 <= i < head.len() + rest.len() implies #[trigger] (head + rest)[i]
            != 255 by {
            if i >= head.len() {
                assert((head + rest)[i] == rest[i - head.len()]);
            }
        }
    }
}

proof fn lemma_text_split(s: Seq<char>, a: Seq<u8>, t: Seq<char>, b: Seq<u8>)
    requires
        text_bytes(s) + a == text_bytes(t) + b,
    ensures
        s == t,
        a == b,
{
    lemma_no_mark(s);
    lemma_no_mark(t);
    let x = vstd::utf8::encode_utf8(s);
    let y = vstd::utf8::encode_utf8(t);
    let l = text_bytes(s) + a;
    let r = text_bytes(t) + b;
    assert(l[x.len() as int] == 255 && r[y.len() as int] == 255);
    if x.len() < y.len() {
        assert(r[x.len() as int] == y[x.len() as int]);
    }
    if y.len() < x.len() {
        assert(l[y.len() as int] == x[y.len() as int]);
    }
    assert(x =~= y) by {
        assert(l.take(x.len() as int) =~= x);
        assert(r.take(y.len() as int) =~= y);
    }
    assert(a =~= l.skip((x.len() + 1) as int));
    assert(b =~= r.skip((y.len() + 1) as int));
    vstd::utf8::encode_utf8_decode_utf8(s);
    vstd::utf8::encode_utf8_decode_utf8(t);
}

proof fn lemma_low_bytes(m: nat, n: nat, count: nat)
    requires
        m < vstd::arithmetic::power::pow(256, count),
        n < vstd::arithmetic::power::pow(256, count),
        policy::low_bytes(m, count) == policy::low_bytes(n, count),
    ensures
        m == n,
    decreases count,
{
    vstd::arithmetic::power::lemma_pow0(256);
    if count > 0 {
        let rest = (count - 1) as nat;
        vstd::arithmetic::power::lemma_pow_adds(256, 1, rest);
        vstd::arithmetic::power::lemma_pow1(256);
        let p = vstd::arithmetic::power::pow(256, rest);
        let x = policy::low_bytes(m, count);
        let y = policy::low_bytes(n, count);
        assert(x[0] == m % 256 && y[0] == n % 256);
        assert(x.skip(1) =~= policy::low_bytes(m / 256, rest));
        assert(y.skip(1) =~= policy::low_bytes(n / 256, rest));
        assert(m / 256 < p) by (nonlinear_arith)
            requires
                m < 256 * p,
        ;
        assert(n / 256 < p) by (nonlinear_arith)
            requires
                n < 256 * p,
        ;
        lemma_low_bytes(m / 256, n / 256, rest);
    }
}

proof fn lemma_low_bytes_len(n: nat, count: nat)
    ensures
        policy::low_bytes(n, count).len() == count,
    decreases count,
{
    if count > 0 {
        lemma_low_bytes_len(n / 256, (count - 1) as nat);
    }
}

proof fn lemma_number_split(m: nat, a: Seq<u8>, n: nat, b: Seq<u8>)
    requires
        m <= u64::MAX,
        n <= u64::MAX,
        policy::low_bytes(m, 8) + a == policy::low_bytes(n, 8) + b,
    ensures
        m == n,
        a == b,
{
    let x = policy::low_bytes(m, 8);
    let y = policy::low_bytes(n, 8);
    lemma_low_bytes_len(m, 8);
    lemma_low_bytes_len(n, 8);
    assert((x + a).take(8) =~= x);
    assert((y + b).take(8) =~= y);
    assert((x + a).skip(8) =~= a);
    assert((y + b).skip(8) =~= b);
    assert(vstd::arithmetic::power::pow(256, 8) == 0x1_0000_0000_0000_0000) by {
        reveal(vstd::arithmetic::power::pow);
        reveal_with_fuel(vstd::arithmetic::power::pow, 9);
    }
    lemma_low_bytes(m, n, 8);
}

proof fn lemma_opt_split(s: Option<Seq<char>>, a: Seq<u8>, t: Option<Seq<char>>, b: Seq<u8>)
    requires
        opt_bytes(s) + a == opt_bytes(t) + b,
    ensures
        s == t,
        a == b,
{
    let x = match s {
        None => a,
        Some(v) => text_bytes(v) + a,
    };
    let y = match t {
        None => b,
        Some(v) => text_bytes(v) + b,
    };
    let m: nat = if s is Some {
        1
    } else {
        0
    };
    let n: nat = if t is Some {
        1
    } else {
        0
    };
    assert(opt_bytes(s) + a =~= policy::low_bytes(m, 8) + x);
    assert(opt_bytes(t) + b =~= policy::low_bytes(n, 8) + y);
    lemma_number_split(m, x, n, y);
    if s is Some {
        lemma_text_split(s->0, a, t->0, b);
    }
}

proof fn lemma_all_split(s: Seq<Seq<char>>, a: Seq<u8>, t: Seq<Seq<char>>, b: Seq<u8>)
    requires
        s.len() == t.len(),
        all_bytes(s) + a == all_bytes(t) + b,
    ensures
        s == t,
        a == b,
    decreases s.len(),
{
    if s.len() == 0 {
        assert(all_bytes(s) + a =~= a);
        assert(all_bytes(t) + b =~= b);
        assert(s =~= t);
    } else {
        let x = all_bytes(s.skip(1)) + a;
        let y = all_bytes(t.skip(1)) + b;
        assert(all_bytes(s) + a =~= text_bytes(s[0]) + x);
        assert(all_bytes(t) + b =~= text_bytes(t[0]) + y);
        lemma_text_split(s[0], x, t[0], y);
        lemma_all_split(s.skip(1), a, t.skip(1), b);
        assert(s =~= seq![s[0]] + s.skip(1));
        assert(t =~= seq![t[0]] + t.skip(1));
    }
}

proof fn lemma_all_distinct(s: Seq<Seq<char>>, t: Seq<Seq<char>>)
    requires
        all_bytes(s) == all_bytes(t),
    ensures
        s == t,
    decreases s.len(),
{
    if s.len() > 0 && t.len() > 0 {
        lemma_text_split(s[0], all_bytes(s.skip(1)), t[0], all_bytes(t.skip(1)));
        lemma_all_distinct(s.skip(1), t.skip(1));
        assert(s =~= seq![s[0]] + s.skip(1));
        assert(t =~= seq![t[0]] + t.skip(1));
    } else {
        assert(s.len() > 0 ==> all_bytes(s).len() > 0);
        assert(t.len() > 0 ==> all_bytes(t).len() > 0);
        assert(s.len() == t.len());
        assert(s =~= t);
    }
}

proof fn lemma_list_split(s: Seq<Seq<char>>, a: Seq<u8>, t: Seq<Seq<char>>, b: Seq<u8>)
    requires
        s.len() <= u64::MAX,
        t.len() <= u64::MAX,
        list_bytes(s) + a == list_bytes(t) + b,
    ensures
        s.to_multiset() == t.to_multiset(),
        a == b,
{
    let x = order::sorted_texts(s);
    let y = order::sorted_texts(t);
    order::lemma_total_order();
    s.lemma_sort_by_ensures(order::text_order());
    t.lemma_sort_by_ensures(order::text_order());
    s.to_multiset_ensures();
    t.to_multiset_ensures();
    x.to_multiset_ensures();
    y.to_multiset_ensures();
    assert(list_bytes(s) + a =~= policy::low_bytes(x.len(), 8) + (all_bytes(x) + a));
    assert(list_bytes(t) + b =~= policy::low_bytes(y.len(), 8) + (all_bytes(y) + b));
    lemma_number_split(x.len(), all_bytes(x) + a, y.len(), all_bytes(y) + b);
    lemma_all_split(x, a, y, b);
}

proof fn lemma_unzipped(s: Seq<(Seq<char>, Seq<char>)>, t: Seq<(Seq<char>, Seq<char>)>)
    requires
        unzipped(s) == unzipped(t),
    ensures
        s == t,
    decreases s.len(),
{
    if s.len() > 0 && t.len() > 0 {
        let x = unzipped(s);
        let y = unzipped(t);
        assert(x.drop_last().drop_last() =~= unzipped(s.drop_last()));
        assert(y.drop_last().drop_last() =~= unzipped(t.drop_last()));
        assert(x.last() == s.last().1 && x.drop_last().last() == s.last().0);
        assert(y.last() == t.last().1 && y.drop_last().last() == t.last().0);
        lemma_unzipped(s.drop_last(), t.drop_last());
        assert(s =~= s.drop_last().push(s.last()));
        assert(t =~= t.drop_last().push(t.last()));
    } else {
        assert(s.len() > 0 ==> unzipped(s).len() > 0);
        assert(t.len() > 0 ==> unzipped(t).len() > 0);
        assert(s =~= t);
    }
}

proof fn lemma_low_hex(m: nat, n: nat, count: nat)
    requires
        m < vstd::arithmetic::power::pow(16, count),
        n < vstd::arithmetic::power::pow(16, count),
        policy::low_hex(m, count) == policy::low_hex(n, count),
    ensures
        m == n,
    decreases count,
{
    vstd::arithmetic::power::lemma_pow0(16);
    if count > 0 {
        let rest = (count - 1) as nat;
        vstd::arithmetic::power::lemma_pow_adds(16, 1, rest);
        vstd::arithmetic::power::lemma_pow1(16);
        let p = vstd::arithmetic::power::pow(16, rest);
        let x = policy::low_hex(m, count);
        let y = policy::low_hex(n, count);
        assert(x.drop_last() =~= policy::low_hex(m / 16, rest));
        assert(y.drop_last() =~= policy::low_hex(n / 16, rest));
        assert(x.last() == y.last());
        assert(m / 16 < p) by (nonlinear_arith)
            requires
                m < 16 * p,
        ;
        assert(n / 16 < p) by (nonlinear_arith)
            requires
                n < 16 * p,
        ;
        lemma_low_hex(m / 16, n / 16, rest);
    }
}

/// Different claims are hashed from different bytes: the bytes of two callers
/// are the same exactly if their claims are, up to the order in which roles,
/// groups and scopes are listed.
pub proof fn law_claims_are_told_apart(a: PolicyInput, b: PolicyInput)
    requires
        lists_fit(a),
        lists_fit(b),
    ensures
        hashed_bytes(a) == hashed_bytes(b) <==> same_claims(a, b),
{
    lemma_hashed_bytes(a);
    lemma_hashed_bytes(b);
    if hashed_bytes(a) == hashed_bytes(b) {
        let a4 = all_bytes(unzipped(a.attributes));
        let b4 = all_bytes(unzipped(b.attributes));
        let a3 = list_bytes(a.scopes) + a4;
        let b3 = list_bytes(b.scopes) + b4;
        let a2 = list_bytes(a.groups) + a3;
        let b2 = list_bytes(b.groups) + b3;
        let a1 = list_bytes(a.roles) + a2;
        let b1 = list_bytes(b.roles) + b2;
        lemma_opt_split(
            a.auth_provider,
            text_bytes(a.identity_kind) + a1,
            b.auth_provider,
            text_bytes(b.identity_kind) + b1,
        );
        lemma_text_split(a.identity_kind, a1, b.identity_kind, b1);
        lemma_list_split(a.roles, a2, b.roles, b2);
        lemma_list_split(a.groups, a3, b.groups, b3);
        lemma_list_split(a.scopes, a4, b.scopes, b4);
        lemma_all_distinct(unzipped(a.attributes), unzipped(b.attributes));
        lemma_unzipped(a.attributes, b.attributes);
    }
    if same_claims(a, b) {
        order::law_sorting_forgets_order(a.roles, b.roles);
        order::law_sorting_forgets_order(a.groups, b.groups);
        order::law_sorting_forgets_order(a.scopes, b.scopes);
    }
}

/// Two callers of the same name, trust level and tool share a key exactly if the
/// hashes of their claims agree.
pub proof fn law_key_is_subject_and_hash(a: PolicyInput, b: PolicyInput)
    requires
        a.principal_id == b.principal_id,
        a.tool_name == b.tool_name,
        a.trust_level == b.trust_level,
    ensures
        policy::cache_key_text(a) == policy::cache_key_text(b) <==> DefaultHasher::spec_finish(
            policy::fed_claims(a),
        ) == DefaultHasher::spec_finish(policy::fed_claims(b)),
{
    let x = DefaultHasher::spec_finish(policy::fed_claims(a)) as nat;
    let y = DefaultHasher::spec_finish(policy::fed_claims(b)) as nat;
    let k = policy::cache_key_text(a);
    let l = policy::cache_key_text(b);
    if k == l {
        let h = policy::low_hex(x, 16);
        let g = policy::low_hex(y, 16);
        assert(k.skip(k.len() - h.len()) =~= h);
        assert(l.skip(l.len() - g.len()) =~= g);
        assert(vstd::arithmetic::power::pow(16, 16) == 0x1_0000_0000_0000_0000) by {
            reveal(vstd::arithmetic::power::pow);
            reveal_with_fuel(vstd::arithmetic::power::pow, 17);
        }
        lemma_low_hex(x, y, 16);
    }
}

proof fn lemma_low_hex_len(n: nat, count: nat)
    ensures
        policy::low_hex(n, count).len() == count,
    decreases count,
{
    if count > 0 {
        lemma_low_hex_len(n / 16, (count - 1) as nat);
    }
}

/// The subject of a caller as a key tells it: a caller without a name has a stand-in.
pub open spec fn told_subject(input: PolicyInput) -> Seq<char> {
    match input.principal_id {
        Some(p) => p,
        None => "_anon"@,
    }
}

/// A decision is kept for one subject, one tool and one trust level: callers that
/// share a key are trusted alike, the same caller has a key for each tool, and no
/// tool has one key for two callers of different names.
pub proof fn law_keys_name_subject_tool_and_trust(a: PolicyInput, b: PolicyInput)
    requires
        policy::cache_key_text(a) == policy::cache_key_text(b),
    ensures
        a.trust_level == b.trust_level,
        told_subject(a) == told_subject(b) <==> a.tool_name == b.tool_name,
        a.principal_id is Some && b.principal_id is Some && a.tool_name == b.tool_name
            ==> a.principal_id == b.principal_id,
{
    let x = policy::low_hex(DefaultHasher::spec_finish(policy::fed_claims(a)) as nat, 16);
    let y = policy::low_hex(DefaultHasher::spec_finish(policy::fed_claims(b)) as nat, 16);
    lemma_low_hex_len(DefaultHasher::spec_finish(policy::fed_claims(a)) as nat, 16);
    lemma_low_hex_len(DefaultHasher::spec_finish(policy::fed_claims(b)) as nat, 16);
    reveal_strlit(":");
    reveal_strlit("unauthenticated");
    reveal_strlit("header_asserted");
    reveal_strlit("verified");
    let s = identity::trust_text(a.trust_level);
    let t = identity::trust_text(b.trust_level);
    let k = policy::cache_key_text(a);
    let l = policy::cache_key_text(b);
    let n = k.len() as int;
    assert(k[n - 21] == s[s.len() - 4]);
    assert(l[n - 21] == t[t.len() - 4]);
    assert("unauthenticated"@[11] == 'a');
    assert("header_asserted"@[11] == 'r');
    assert("verified"@[4] == 'f');
    assert(a.trust_level == b.trust_level);
    let m = n - 18 - s.len();
    let p = told_subject(a) + ":"@ + a.tool_name;
    let q = told_subject(b) + ":"@ + b.tool_name;
    assert(k.take(m) =~= p);
    assert(l.take(m) =~= q);
    if told_subject(a) == told_subject(b) {
        let c = told_subject(a).len() as int;
        assert(p.skip(c + 1) =~= a.tool_name);
        assert(q.skip(c + 1) =~= b.tool_name);
    }
    if a.tool_name == b.tool_name {
        let c = m - 1 - a.tool_name.len();
        assert(p.take(c) =~= told_subject(a));
        assert(q.take(c) =~= told_subject(b));
    }
}

} // verus!
