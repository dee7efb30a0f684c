//! The order of texts, and sorting by it.
use vstd::prelude::*;
use vstd::relations;
use vstd::string::*;

use crate::text::chars_of;

verus! {

/// Whether one text comes before another, or is the same: the first character
/// in which they differ decides, and a text comes before what it begins.
pub open spec fn lex_le(a: Seq<char>, b: Seq<char>) -> bool
    decreases a.len(),
{
    if a.len() == 0 {
        true
    } else if b.len() == 0 {
        false
    } else if a[0] != b[0] {
        a[0] < b[0]
    } else {
        lex_le(a.drop_first(), b.drop_first())
    }
}

/// The order of texts as a relation.
pub open spec fn text_order() -> spec_fn(Seq<char>, Seq<char>) -> bool {
    |a: Seq<char>, b: Seq<char>| lex_le(a, b)
}

proof fn lemma_reflexive(a: Seq<char>)
    ensures
        lex_le(a, a),
    decreases a.len(),
{
    if a.len() > 0 {
        lemma_reflexive(a.drop_first());
    }
}

proof fn lemma_antisymmetric(a: Seq<char>, b: Seq<char>)
    requires
        lex_le(a, b),
        lex_le(b, a),
    ensures
        a == b,
    decreases a.len(),
{
    if a.len() > 0 && b.len() > 0 {
        lemma_antisymmetric(a.drop_first(), b.drop_first());
        assert(a =~= seq![a[0]] + a.drop_first());
        assert(b =~= seq![b[0]] + b.drop_first());
    } else {
        assert(a =~= b);
    }
}

proof fn lemma_transitive(a: Seq<char>, b: Seq<char>, c: Seq<char>)
    requires
        lex_le(a, b),
        lex_le(b, c),
    ensures
        lex_le(a, c),
    decreases a.len(),
{
    if a.len() > 0 && b.len() > 0 && c.len() > 0 && a[0] == b[0] && b[0] == c[0] {
        lemma_transitive(a.drop_first(), b.drop_first(), c.drop_first());
    }
}

proof fn lemma_connected(a: Seq<char>, b: Seq<char>)
    ensures
        lex_le(a, b) || lex_le(b, a),
    decreases a.len(),
{
    if a.len() > 0 && b.len() > 0 && a[0] == b[0] {
        lemma_connected(a.drop_first(), b.drop_first());
    }
}

/// The order of texts is total.
pub proof fn lemma_total_order()
    ensures
        relations::total_ordering(text_order()),
{
    let r = text_order();
    assert forall|a: Seq<char>| #[trigger] r(a, a) by {
        lemma_reflexive(a);
    }
    assert forall|a: Seq<char>, b: Seq<char>| #[trigger] r(a, b) && #[trigger] r(b, a) implies a
        == b by {
        lemma_antisymmetric(a, b);
    }
    assert forall|a: Seq<char>, b: Seq<char>, c: Seq<char>| #[trigger] r(a, b) && #[trigger] r(
        b,
        c,
    ) implies r(a, c) by {
        lemma_transitive(a, b, c);
    }
    assert forall|a: Seq<char>, b: Seq<char>| #[trigger] r(a, b) || #[trigger] r(b, a) by {
        lemma_connected(a, b);
    }
}

/// Whether one text comes before another, or is the same.
pub fn str_le(a: &str, b: &str) -> (r: bool)
    ensures
        r == lex_le(a@, b@),
{
    let x: Vec<char> = chars_of(a);
    let y: Vec<char> = chars_of(b);
    let mut i: usize = 0;
    proof {
        assert(x@.skip(0) =~= x@);
        assert(y@.skip(0) =~= y@);
    }
    while i < x.len() && i < y.len()
        invariant
            i <= x@.len(),
            i <= y@.len(),
            x@ == a@,
            y@ == b@,
            lex_le(a@, b@) == lex_le(x@.skip(i as int), y@.skip(i as int)),
        decreases x.len() - i,
    {
        proof {
            assert(x@.skip(i as int)[0] == x@[i as int]);
            assert(y@.skip(i as int)[0] == y@[i as int]);
            assert(x@.skip(i as int).drop_first() =~= x@.skip(i + 1));
            assert(y@.skip(i as int).drop_first() =~= y@.skip(i + 1));
        }
        if x[i] != y[i] {
            return x[i] < y[i];
        }
        i += 1;
    }
    i == x.len()
}

/// Texts in ascending order.
pub open spec fn sorted_texts(s: Seq<Seq<char>>) -> Seq<Seq<char>> {
    s.sort_by(text_order())
}

/// Sorting does not depend on the order in which the texts were given.
pub proof fn law_sorting_forgets_order(a: Seq<Seq<char>>, b: Seq<Seq<char>>)
    requires
        a.to_multiset() == b.to_multiset(),
    ensures
        sorted_texts(a) == sorted_texts(b),
{
    lemma_total_order();
    a.lemma_sort_by_ensures(text_order());
    b.lemma_sort_by_ensures(text_order());
    vstd::seq_lib::lemma_sorted_unique(sorted_texts(a), sorted_texts(b), text_order());
}

/// The texts of a list, in ascending order.
pub fn sort_texts(v: &Vec<String>) -> (r: Vec<String>)
    ensures
        r.deep_view() == sorted_texts(v.deep_view()),
{
    let mut out: Vec<String> = Vec::new();
    let mut i: usize = 0;
    proof {
        lemma_total_order();
        assert(v.deep_view().take(0) =~= seq![]);
        assert(out.deep_view() =~= seq![]);
    }
    while i < v.len()
        invariant
            i <= v@.len(),
            relations::sorted_by(out.deep_view(), text_order()),
            out.deep_view().to_multiset() == v.deep_view().take(i as int).to_multiset(),
        decreases v.len() - i,
    {
        let mut at: usize = 0;
        let ghost before = out.deep_view();
        while at < out.len() && str_le(out[at].as_str(), v[i].as_str())
            invariant
                at <= out@.len(),
                i < v@.len(),
                out.deep_view() == before,
                forall|j: int| 0 <= j < at ==> lex_le(#[trigger] before[j], v@[i as int]@),
            decreases out.len() - at,
        {
            at += 1;
        }
        let item: String = v[i].clone();
        out.insert(at, item);
        proof {
            broadcast use vstd::seq_lib::group_to_multiset_ensures;

            lemma_total_order();
            let x = item@;
            let after = out.deep_view();
            assert(after =~= before.insert(at as int, x));
            vstd::seq_lib::to_multiset_insert(before, at as int, x);
            assert(v.deep_view().take(i + 1) =~= v.deep_view().take(i as int).push(x));
            assert forall|p: int, q: int| 0 <= p < q < after.len() implies #[trigger] text_order()(
                after[p],
                after[q],
            ) by {
                let p0 = if p < at { p } else { p - 1 };
                let q0 = if q < at { q } else { q - 1 };
                if p != at && q != at {
                    assert(text_order()(before[p0], before[q0]));
                } else if q == at {
                    assert(lex_le(before[p0], x));
                } else {
                    assert(at < before.len());
                    assert(!lex_le(before[at as int], x));
                    lemma_connected(before[at as int], x);
                    if q0 > at {
                        assert(text_order()(before[at as int], before[q0]));
                        lemma_transitive(x, before[at as int], before[q0]);
                    }
                }
            }
        }
        i += 1;
    }
    proof {
        let s = v.deep_view();
        assert(s.take(s.len() as int) =~= s);
        s.lemma_sort_by_ensures(text_order());
        vstd::seq_lib::lemma_sorted_unique(out.deep_view(), sorted_texts(s), text_order());
    }
    out
}

/// The first character in which two texts differ decides which comes first, the one
/// with the lower code, and a text comes before what it begins.
pub proof fn law_first_difference_decides(
    common: Seq<char>,
    a: char,
    b: char,
    x: Seq<char>,
    y: Seq<char>,
)
    requires
        a != b,
    ensures
        lex_le(common + seq![a] + x, common + seq![b] + y) <==> a < b,
        lex_le(common, common + seq![a] + x),
        !lex_le(common + seq![a] + x, common),
    decreases common.len(),
{
    let p = common + seq![a] + x;
    let q = common + seq![b] + y;
    if common.len() == 0 {
        assert(p[0] == a && q[0] == b);
    } else {
        let rest = common.drop_first();
        law_first_difference_decides(rest, a, b, x, y);
        assert(p.drop_first() =~= rest + seq![a] + x);
        assert(q.drop_first() =~= rest + seq![b] + y);
        assert(p[0] == common[0] && q[0] == common[0]);
    }
}

/// Sorting keeps every text as often as it was given, and puts them in order.
pub proof fn law_sorting_puts_in_order(v: Vec<String>, r: Vec<String>, i: int, j: int)
    requires
        call_ensures(sort_texts, (&v,), r),
        0 <= i < j < r@.len(),
    ensures
        lex_le(r@[i]@, r@[j]@),
        r@.len() == v@.len(),
        r.deep_view().to_multiset() == v.deep_view().to_multiset(),
{
    broadcast use vstd::seq_lib::group_to_multiset_ensures;

    lemma_total_order();
    let s = v.deep_view();
    s.lemma_sort_by_ensures(text_order());
    let t = r.deep_view();
    assert(t.len() == s.len()) by {
        assert(t.to_multiset().len() == t.len());
        assert(s.to_multiset().len() == s.len());
    }
    assert(text_order()(t[i], t[j]));
}

} // verus!
