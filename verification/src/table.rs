//! A map from texts to values, kept as a list of rows with distinct keys.
use vstd::prelude::*;
use vstd::string::*;

use crate::text::str_eq;

verus! {

/// A map from texts to values.
#[derive(Debug)]
pub struct Table<V> {
    rows: Vec<(String, V)>,
}

spec fn row_map<V>(rows: Seq<(String, V)>) -> Map<Seq<char>, V>
    decreases rows.len(),
{
    if rows.len() == 0 {
        Map::empty()
    } else {
        row_map(rows.drop_last()).insert(rows.last().0@, rows.last().1)
    }
}

spec fn distinct<V>(rows: Seq<(String, V)>) -> bool {
    forall|i: int, j: int|
        0 <= i < j < rows.len() ==> (#[trigger] rows[i]).0@ != (#[trigger] rows[j]).0@
}

proof fn lemma_rows<V>(rows: Seq<(String, V)>)
    requires
        distinct(rows),
    ensures
        forall|i: int|
            0 <= i < rows.len() ==> row_map(rows).contains_key((#[trigger] rows[i]).0@)
                && row_map(rows)[rows[i].0@] == rows[i].1,
        forall|k: Seq<char>| #[trigger]
            row_map(rows).contains_key(k) ==> exists|i: int|
                0 <= i < rows.len() && (#[trigger] rows[i]).0@ == k,
        row_map(rows).dom().finite(),
        row_map(rows).dom().len() == rows.len(),
    decreases rows.len(),
{
    if rows.len() > 0 {
        let init = rows.drop_last();
        assert(distinct(init)) by {
            assert forall|i: int, j: int| 0 <= i < j < init.len() implies (#[trigger] init[i]).0@
                != (#[trigger] init[j]).0@ by {
                assert(init[i] == rows[i] && init[j] == rows[j]);
            }
        }
        lemma_rows(init);
        let last = rows.last();
        assert forall|i: int| 0 <= i < rows.len() implies row_map(rows).contains_key(
            (#[trigger] rows[i]).0@,
        ) && row_map(rows)[rows[i].0@] == rows[i].1 by {
            if i < rows.len() - 1 {
                assert(init[i] == rows[i]);
                assert(rows[i].0@ != rows[rows.len() - 1].0@);
            }
        }
        assert forall|k: Seq<char>| #[trigger] row_map(rows).contains_key(k) implies exists|i: int|
            0 <= i < rows.len() && (#[trigger] rows[i]).0@ == k by {
            if k == last.0@ {
                assert(rows[rows.len() - 1].0@ == k);
            } else {
                assert(row_map(init).contains_key(k));
                let i = choose|i: int| 0 <= i < init.len() && (#[trigger] init[i]).0@ == k;
                assert(rows[i] == init[i]);
            }
        }
        assert(!row_map(init).contains_key(last.0@)) by {
            if row_map(init).contains_key(last.0@) {
                let i = choose|i: int| 0 <= i < init.len() && (#[trigger] init[i]).0@ == last.0@;
                assert(rows[i] == init[i]);
                assert(rows[i].0@ != rows[rows.len() - 1].0@);
            }
        }
        assert(row_map(rows).dom() =~= row_map(init).dom().insert(last.0@));
    }
}

/// The map of distinct rows is settled by the rows' keys and values.
proof fn lemma_same<V>(rows: Seq<(String, V)>, m: Map<Seq<char>, V>)
    requires
        distinct(rows),
        forall|i: int|
            0 <= i < rows.len() ==> m.contains_key((#[trigger] rows[i]).0@) && m[rows[i].0@]
                == rows[i].1,
        forall|k: Seq<char>| #[trigger]
            m.contains_key(k) ==> exists|i: int| 0 <= i < rows.len() && (#[trigger] rows[i]).0@ == k,
    ensures
        row_map(rows) == m,
{
    lemma_rows(rows);
    assert forall|k: Seq<char>| #[trigger] row_map(rows).contains_key(k) <==> m.contains_key(k) by {
        if row_map(rows).contains_key(k) {
            let i = choose|i: int| 0 <= i < rows.len() && (#[trigger] rows[i]).0@ == k;
            assert(m.contains_key(rows[i].0@));
        }
        if m.contains_key(k) {
            let i = choose|i: int| 0 <= i < rows.len() && (#[trigger] rows[i]).0@ == k;
            assert(row_map(rows).contains_key(rows[i].0@));
        }
    }
    assert forall|k: Seq<char>| row_map(rows).contains_key(k) implies row_map(rows)[k] == m[k] by {
        let i = choose|i: int| 0 <= i < rows.len() && (#[trigger] rows[i]).0@ == k;
        assert(m[rows[i].0@] == rows[i].1);
    }
    assert(row_map(rows) =~= m);
}

proof fn lemma_listed<V>(rows: Seq<(String, V)>, key: Seq<char>)
    requires
        row_map(rows).contains_key(key),
    ensures
        exists|i: int| 0 <= i < rows.len() && (#[trigger] rows[i]).0@ == key,
    decreases rows.len(),
{
    if rows.len() > 0 {
        if rows.last().0@ == key {
            assert(rows[rows.len() - 1].0@ == key);
        } else {
            lemma_listed(rows.drop_last(), key);
            let i = choose|i: int|
                0 <= i < rows.drop_last().len() && (#[trigger] rows.drop_last()[i]).0@ == key;
            assert(rows[i].0@ == key);
        }
    }
}

impl<V> View for Table<V> {
    type V = Map<Seq<char>, V>;

    closed spec fn view(&self) -> Map<Seq<char>, V> {
        row_map(self.rows@)
    }
}

impl<V> Table<V> {
    #[verifier::type_invariant]
    spec fn keys_distinct(self) -> bool {
        distinct(self.rows@)
    }

    /// The keys, in the order of the rows.
    pub closed spec fn keys(&self) -> Seq<Seq<char>> {
        Seq::new(self.rows@.len(), |i: int| self.rows@[i].0@)
    }

    /// Every key is listed.
    pub proof fn lemma_key_is_listed(&self, key: Seq<char>)
        requires
            self@.contains_key(key),
        ensures
            self.keys().contains(key),
    {
        lemma_listed(self.rows@, key);
        let i = choose|i: int| 0 <= i < self.rows@.len() && (#[trigger] self.rows@[i]).0@ == key;
        assert(self.keys()[i] == key);
    }

    /// The empty map.
    pub fn new() -> (r: Table<V>)
        ensures
            r@ == Map::<Seq<char>, V>::empty(),
            r.keys() == Seq::<Seq<char>>::empty(),
    {
        Table { rows: Vec::new() }
    }

    /// The number of keys.
    pub fn len(&self) -> (r: usize)
        ensures
            r == self@.dom().len(),
            r == self.keys().len(),
            self@.dom().finite(),
    {
        proof {
            use_type_invariant(self);
            lemma_rows(self.rows@);
        }
        self.rows.len()
    }

    fn position(&self, key: &str) -> (r: Option<usize>)
        ensures
            match r {
                Some(i) => i < self.rows@.len() && self.rows@[i as int].0@ == key@,
                None => forall|j: int|
                    0 <= j < self.rows@.len() ==> (#[trigger] self.rows@[j]).0@ != key@,
            },
    {
        let mut i: usize = 0;
        while i < self.rows.len()
            invariant
                i <= self.rows@.len(),
                forall|j: int| 0 <= j < i ==> (#[trigger] self.rows@[j]).0@ != key@,
            decreases self.rows@.len() - i,
        {
            if str_eq(self.rows[i].0.as_str(), key) {
                return Some(i);
            }
            i += 1;
        }
        None
    }

    /// The value of a key.
    pub fn get(&self, key: &str) -> (r: Option<&V>)
        ensures
            match r {
                Some(v) => self@.contains_key(key@) && *v == self@[key@],
                None => !self@.contains_key(key@),
            },
    {
        proof {
            use_type_invariant(self);
            lemma_rows(self.rows@);
        }
        match self.position(key) {
            Some(i) => Some(&self.rows[i].1),
            None => None,
        }
    }

    /// Whether the map has a key.
    pub fn contains(&self, key: &str) -> (r: bool)
        ensures
            r == self@.contains_key(key@),
    {
        self.get(key).is_some()
    }

    /// The value of a row.
    pub fn value_at(&self, i: usize) -> (r: &V)
        requires
            i < self.keys().len(),
        ensures
            *r == self@[self.keys()[i as int]],
            self@.contains_key(self.keys()[i as int]),
    {
        proof {
            use_type_invariant(self);
            lemma_rows(self.rows@);
        }
        &self.rows[i].1
    }

    /// Gives a key a value, in place of one that it had.
    pub fn put(&mut self, key: &str, value: V)
        ensures
            final(self)@ == old(self)@.insert(key@, value),
            final(self).keys() == (if old(self)@.contains_key(key@) {
                old(self).keys()
            } else {
                old(self).keys().push(key@)
            }),
    {
        proof {
            use_type_invariant(&*self);
            lemma_rows(self.rows@);
        }
        let row: (String, V) = (key.to_owned(), value);
        let found: Option<usize> = self.position(key);
        let ghost before = self.rows@;
        let mut rows: Vec<(String, V)> = Vec::new();
        core::mem::swap(&mut rows, &mut self.rows);
        match found {
            Some(i) => {
                rows.set(i, row);
                proof {
                    assert(rows@ =~= before.update(i as int, row));
                    assert(distinct(rows@)) by {
                        assert forall|a: int, b: int| 0 <= a < b < rows@.len() implies (
                        #[trigger] rows@[a]).0@ != (#[trigger] rows@[b]).0@ by {
                            assert(before[a].0@ != before[b].0@);
                        }
                    }
                    let m = row_map(before).insert(key@, value);
                    assert forall|a: int| 0 <= a < rows@.len() implies m.contains_key(
                        (#[trigger] rows@[a]).0@,
                    ) && m[rows@[a].0@] == rows@[a].1 by {
                        if a != i {
                            assert(before[a].0@ != before[i as int].0@);
                        }
                    }
                    assert forall|k: Seq<char>| #[trigger] m.contains_key(k) implies exists|a: int|
                        0 <= a < rows@.len() && (#[trigger] rows@[a]).0@ == k by {
                        if k == key@ {
                            assert(rows@[i as int].0@ == k);
                        } else {
                            assert(row_map(before).contains_key(k));
                            let a = choose|a: int|
                                0 <= a < before.len() && (#[trigger] before[a]).0@ == k;
                            assert(rows@[a].0@ == k);
                        }
                    }
                    lemma_same(rows@, m);
                    assert(row_map(before).contains_key(before[i as int].0@));
                }
            },
            None => {
                rows.push(row);
                proof {
                    assert(rows@.drop_last() =~= before);
                    assert(distinct(rows@)) by {
                        assert forall|a: int, b: int| 0 <= a < b < rows@.len() implies (
                        #[trigger] rows@[a]).0@ != (#[trigger] rows@[b]).0@ by {
                            assert(before[a].0@ != key@);
                        }
                    }
                }
            },
        }
        self.rows = rows;
        proof {
            assert(self.keys() =~= (if row_map(before).contains_key(key@) {
                Seq::new(before.len(), |i: int| before[i].0@)
            } else {
                Seq::new(before.len(), |i: int| before[i].0@).push(key@)
            }));
        }
    }

    /// Takes a row out.
    pub fn remove_at(&mut self, i: usize)
        requires
            i < old(self).keys().len(),
        ensures
            final(self)@ == old(self)@.remove(old(self).keys()[i as int]),
            final(self).keys() == old(self).keys().remove(i as int),
    {
        proof {
            use_type_invariant(&*self);
            lemma_rows(self.rows@);
        }
        let ghost before = self.rows@;
        let mut rows: Vec<(String, V)> = Vec::new();
        core::mem::swap(&mut rows, &mut self.rows);
        rows.remove(i);
        proof {
            let key = before[i as int].0@;
            assert(rows@ =~= before.remove(i as int));
            assert(distinct(rows@)) by {
                assert forall|a: int, b: int| 0 <= a < b < rows@.len() implies (
                #[trigger] rows@[a]).0@ != (#[trigger] rows@[b]).0@ by {
                    let a0 = if a < i {
                        a
                    } else {
                        a + 1
                    };
                    let b0 = if b < i {
                        b
                    } else {
                        b + 1
                    };
                    assert(before[a0].0@ != before[b0].0@);
                }
            }
            let m = row_map(before).remove(key);
            assert forall|a: int| 0 <= a < rows@.len() implies m.contains_key(
                (#[trigger] rows@[a]).0@,
            ) && m[rows@[a].0@] == rows@[a].1 by {
                let a0 = if a < i {
                    a
                } else {
                    a + 1
                };
                assert(rows@[a] == before[a0]);
                if a0 < i {
                    assert(before[a0].0@ != before[i as int].0@);
                } else {
                    assert(before[i as int].0@ != before[a0].0@);
                }
            }
            assert forall|k: Seq<char>| #[trigger] m.contains_key(k) implies exists|a: int|
                0 <= a < rows@.len() && (#[trigger] rows@[a]).0@ == k by {
                assert(row_map(before).contains_key(k));
                let a0 = choose|a: int| 0 <= a < before.len() && (#[trigger] before[a]).0@ == k;
                let a = if a0 < i {
                    a0
                } else {
                    a0 - 1
                };
                assert(rows@[a] == before[a0]);
            }
            lemma_same(rows@, m);
        }
        self.rows = rows;
        proof {
            assert(self.keys() =~= Seq::new(before.len(), |j: int| before[j].0@).remove(i as int));
        }
    }

    /// Takes a key out.
    pub fn remove(&mut self, key: &str)
        ensures
            final(self)@ == old(self)@.remove(key@),
    {
        proof {
            use_type_invariant(&*self);
            lemma_rows(self.rows@);
        }
        match self.position(key) {
            Some(i) => self.remove_at(i),
            None => {
                proof {
                    assert(self@.remove(key@) =~= self@) by {
                        if self@.contains_key(key@) {
                            let j = choose|j: int|
                                0 <= j < self.rows@.len() && (#[trigger] self.rows@[j]).0@ == key@;
                            assert(false);
                        }
                    }
                }
            },
        }
    }
}

/// What was put under a name is found there, and what was taken out is not; other
/// names keep what they have.
pub proof fn law_tables_hold_what_was_put<V>(
    put: &mut Table<V>,
    taken: &mut Table<V>,
    key: &str,
    value: V,
    other: Seq<char>,
)
    requires
        call_ensures(Table::<V>::put, (put, key, value), ()),
        call_ensures(Table::<V>::remove, (taken, key), ()),
        other != key@,
    ensures
        final(put)@.contains_key(key@) && final(put)@[key@] == value,
        !final(taken)@.contains_key(key@),
        final(put)@.contains_key(other) == old(put)@.contains_key(other),
        old(put)@.contains_key(other) ==> final(put)@[other] == old(put)@[other],
        final(taken)@.contains_key(other) == old(taken)@.contains_key(other),
        old(taken)@.contains_key(other) ==> final(taken)@[other] == old(taken)@[other],
{
}

} // verus!
