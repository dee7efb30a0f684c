//! JSON values as the runtime reads and writes them.
use vstd::prelude::*;
use vstd::string::*;

use crate::text;
use crate::text::{chars_of, decimal, str_eq};

verus! {

/// A JSON value. A number is kept as its text; of two fields of one object
/// with the same name, the later one counts.
#[derive(Debug)]
pub enum Json {
    Null,
    Bool(bool),
    Number(String),
    Str(String),
    Array(Vec<Json>),
    Object(Vec<Field>),
}

/// One field of a JSON object.
#[derive(Debug)]
pub struct Field {
    pub name: String,
    pub value: Json,
}

/// What a JSON value denotes.
pub enum Tree {
    Null,
    Bool(bool),
    Number(Seq<char>),
    Str(Seq<char>),
    Array(Seq<Tree>),
    Object(Map<Seq<char>, Tree>),
}

/// The values that a run of elements denotes.
pub open spec fn elements(s: Seq<Json>) -> Seq<Tree>
    decreases s,
{
    if s.len() == 0 {
        seq![]
    } else {
        elements(s.drop_last()).push(s.last().tree())
    }
}

/// The map that a run of fields denotes: later fields override earlier ones.
pub open spec fn members(s: Seq<Field>) -> Map<Seq<char>, Tree>
    decreases s,
{
    if s.len() == 0 {
        Map::empty()
    } else {
        members(s.drop_last()).insert(s.last().name@, s.last().value.tree())
    }
}

impl Json {
    /// What the value denotes.
    pub open spec fn tree(self) -> Tree
        decreases self,
    {
        match self {
            Json::Null => Tree::Null,
            Json::Bool(b) => Tree::Bool(b),
            Json::Number(t) => Tree::Number(t@),
            Json::Str(t) => Tree::Str(t@),
            Json::Array(v) => Tree::Array(elements(v@)),
            Json::Object(v) => Tree::Object(members(v@)),
        }
    }
}

impl DeepView for Json {
    type V = Tree;

    open spec fn deep_view(&self) -> Tree {
        self.tree()
    }
}

/// The value of a field, where the value is an object that has it.
pub open spec fn tree_get(t: Tree, name: Seq<char>) -> Option<Tree> {
    match t {
        Tree::Object(m) => if m.contains_key(name) {
            Some(m[name])
        } else {
            None
        },
        _ => None,
    }
}

/// The object that has just the given fields, later ones overriding earlier ones.
pub open spec fn object_of(fields: Seq<(Seq<char>, Tree)>) -> Tree {
    Tree::Object(map_of(fields))
}

/// The map made by inserting the given pairs in order.
pub open spec fn map_of(fields: Seq<(Seq<char>, Tree)>) -> Map<Seq<char>, Tree>
    decreases fields.len(),
{
    if fields.len() == 0 {
        Map::empty()
    } else {
        map_of(fields.drop_last()).insert(fields.last().0, fields.last().1)
    }
}

/// A value, or an object without fields where there is none.
pub open spec fn or_object(v: Option<Tree>) -> Tree {
    match v {
        Some(t) => t,
        None => Tree::Object(Map::empty()),
    }
}

proof fn lemma_elements_len(s: Seq<Json>)
    ensures
        elements(s).len() == s.len(),
        forall|i: int| 0 <= i < s.len() ==> #[trigger] elements(s)[i] == s[i].tree(),
    decreases s.len(),
{
    if s.len() > 0 {
        lemma_elements_len(s.drop_last());
        assert forall|i: int| 0 <= i < s.len() implies #[trigger] elements(s)[i]
            == s[i].tree() by {
            if i < s.len() - 1 {
                assert(s.drop_last()[i] == s[i]);
            }
        }
    }
}

/// The elements of an array are the values of its entries, in order.
pub proof fn lemma_elements(s: Seq<Json>)
    ensures
        elements(s).len() == s.len(),
        forall|i: int| 0 <= i < s.len() ==> #[trigger] elements(s)[i] == s[i].tree(),
{
    lemma_elements_len(s);
}

proof fn lemma_members_last(s: Seq<Field>, name: Seq<char>, at: int)
    requires
        0 <= at < s.len(),
        s[at].name@ == name,
        forall|j: int| at < j < s.len() ==> (#[trigger] s[j]).name@ != name,
    ensures
        members(s).contains_key(name),
        members(s)[name] == s[at].value.tree(),
    decreases s.len(),
{
    if at < s.len() - 1 {
        assert(s[s.len() - 1].name@ != name);
        lemma_members_last(s.drop_last(), name, at);
    }
}

proof fn lemma_members_absent(s: Seq<Field>, name: Seq<char>)
    requires
        forall|j: int| 0 <= j < s.len() ==> (#[trigger] s[j]).name@ != name,
    ensures
        !members(s).contains_key(name),
    decreases s.len(),
{
    if s.len() > 0 {
        assert(s[s.len() - 1].name@ != name);
        assert forall|j: int| 0 <= j < s.drop_last().len() implies (
        #[trigger] s.drop_last()[j]).name@ != name by {
            assert(s.drop_last()[j] == s[j]);
        }
        lemma_members_absent(s.drop_last(), name);
    }
}

fn clone_all(v: &Vec<Json>) -> (r: Vec<Json>)
    ensures
        elements(r@) == elements(v@),
    decreases v,
{
    let mut out: Vec<Json> = Vec::new();
    let mut i: usize = 0;
    while i < v.len()
        invariant
            i <= v@.len(),
            elements(out@) == elements(v@.take(i as int)),
        decreases v.len() - i,
    {
        let e: Json = v[i].copy();
        proof {
            assert(v@.take(i + 1).drop_last() =~= v@.take(i as int));
            assert(out@.push(e).drop_last() =~= out@);
        }
        out.push(e);
        i += 1;
    }
    proof {
        assert(v@.take(v@.len() as int) =~= v@);
    }
    out
}

fn clone_fields(v: &Vec<Field>) -> (r: Vec<Field>)
    ensures
        members(r@) == members(v@),
    decreases v,
{
    let mut out: Vec<Field> = Vec::new();
    let mut i: usize = 0;
    while i < v.len()
        invariant
            i <= v@.len(),
            members(out@) == members(v@.take(i as int)),
        decreases v.len() - i,
    {
        let e: Field = Field { name: v[i].name.clone(), value: v[i].value.copy() };
        proof {
            assert(v@.take(i + 1).drop_last() =~= v@.take(i as int));
            assert(out@.push(e).drop_last() =~= out@);
        }
        out.push(e);
        i += 1;
    }
    proof {
        assert(v@.take(v@.len() as int) =~= v@);
    }
    out
}

impl Json {
    /// A value that denotes the same.
    pub fn copy(&self) -> (r: Json)
        ensures
            r.tree() == self.tree(),
        decreases self,
    {
        match self {
            Json::Null => Json::Null,
            Json::Bool(b) => Json::Bool(*b),
            Json::Number(t) => Json::Number(t.clone()),
            Json::Str(t) => Json::Str(t.clone()),
            Json::Array(v) => Json::Array(clone_all(v)),
            Json::Object(v) => Json::Object(clone_fields(v)),
        }
    }

    /// The text value.
    pub fn text(s: &str) -> (r: Json)
        ensures
            r.tree() == Tree::Str(s@),
    {
        Json::Str(s.to_owned())
    }

    /// The number value of a natural number.
    pub fn count(n: u64) -> (r: Json)
        ensures
            r.tree() == Tree::Number(text::decimal_text(n as nat)),
    {
        Json::Number(decimal(n))
    }

    /// The object without fields.
    pub fn object() -> (r: Json)
        ensures
            r.tree() == Tree::Object(Map::empty()),
            r is Object,
    {
        Json::Object(Vec::new())
    }

    /// The object with one more field, or with a new value for a field it has.
    pub fn with(self, name: &str, value: Json) -> (r: Json)
        requires
            self is Object,
        ensures
            r is Object,
            r.tree() == Tree::Object(self.tree()->Object_0.insert(name@, value.tree())),
    {
        match self {
            Json::Object(v) => {
                let mut v: Vec<Field> = v;
                let ghost before = v@;
                let f: Field = Field { name: name.to_owned(), value };
                v.push(f);
                proof {
                    assert(v@.drop_last() =~= before);
                }
                Json::Object(v)
            },
            other => other,
        }
    }

    /// The value of a field, where this is an object that has it.
    pub fn get(&self, name: &str) -> (r: Option<&Json>)
        ensures
            r.deep_view() == tree_get(self.tree(), name@),
    {
        match self {
            Json::Object(v) => {
                let mut i: usize = v.len();
                while i > 0
                    invariant
                        i <= v@.len(),
                        self.tree() == Tree::Object(members(v@)),
                        forall|j: int| i <= j < v@.len() ==> (#[trigger] v@[j]).name@ != name@,
                    decreases i,
                {
                    i -= 1;
                    if str_eq(v[i].name.as_str(), name) {
                        proof {
                            lemma_members_last(v@, name@, i as int);
                        }
                        return Some(&v[i].value);
                    }
                }
                proof {
                    lemma_members_absent(v@, name@);
                }
                None
            },
            _ => None,
        }
    }

    /// The text, where this is a text value.
    pub fn as_str(&self) -> (r: Option<&str>)
        ensures
            r.deep_view() == (match self.tree() {
                Tree::Str(t) => Some(t),
                _ => None,
            }),
    {
        match self {
            Json::Str(s) => Some(s.as_str()),
            _ => None,
        }
    }

    /// The truth value, where this is one.
    pub fn as_bool(&self) -> (r: Option<bool>)
        ensures
            r == (match self.tree() {
                Tree::Bool(b) => Some(b),
                _ => None,
            }),
    {
        match self {
            Json::Bool(b) => Some(*b),
            _ => None,
        }
    }

    /// Whether this is the null value.
    pub fn is_null(&self) -> (r: bool)
        ensures
            r == (self.tree() == Tree::Null),
    {
        match self {
            Json::Null => true,
            _ => false,
        }
    }

    /// Whether this is an object.
    pub fn is_object(&self) -> (r: bool)
        ensures
            r == (self is Object),
            r == (self.tree() is Object),
    {
        match self {
            Json::Object(_) => true,
            _ => false,
        }
    }
}

proof fn lemma_members_named(s: Seq<Field>, name: Seq<char>)
    ensures
        members(s).contains_key(name) <==> exists|j: int|
            0 <= j < s.len() && (#[trigger] s[j]).name@ == name,
    decreases s.len(),
{
    if s.len() > 0 {
        let t = s.drop_last();
        lemma_members_named(t, name);
        if s.last().name@ == name {
            assert(s[s.len() - 1].name@ == name);
        }
        assert(forall|j: int| 0 <= j < t.len() ==> t[j] == s[j]);
        if members(t).contains_key(name) {
            let j = choose|j: int| 0 <= j < t.len() && (#[trigger] t[j]).name@ == name;
            assert(s[j].name@ == name);
        }
    }
}

fn same_elements(a: &Vec<Json>, b: &Vec<Json>) -> (r: bool)
    ensures
        r == (elements(a@) == elements(b@)),
    decreases a,
{
    proof {
        lemma_elements(a@);
        lemma_elements(b@);
    }
    if a.len() != b.len() {
        return false;
    }
    let mut i: usize = 0;
    while i < a.len()
        invariant
            i <= a@.len(),
            a@.len() == b@.len(),
            elements(a@).len() == a@.len(),
            elements(b@).len() == b@.len(),
            forall|j: int| 0 <= j < a@.len() ==> #[trigger] elements(a@)[j] == a@[j].tree(),
            forall|j: int| 0 <= j < b@.len() ==> #[trigger] elements(b@)[j] == b@[j].tree(),
            forall|j: int| 0 <= j < i ==> #[trigger] elements(a@)[j] == elements(b@)[j],
        decreases a.len() - i,
    {
        if !a[i].same(&b[i]) {
            proof {
                assert(elements(a@)[i as int] != elements(b@)[i as int]);
            }
            return false;
        }
        i += 1;
    }
    proof {
        assert(elements(a@) =~= elements(b@));
    }
    true
}

fn same_fields(a: &Vec<Field>, b: &Json) -> (r: bool)
    requires
        b is Object,
    ensures
        r == (Tree::Object(members(a@)) == b.tree()),
    decreases a,
{
    let ghost other = b.tree()->Object_0;
    let mut i: usize = 0;
    while i < a.len()
        invariant
            i <= a@.len(),
            b is Object,
            other == b.tree()->Object_0,
            forall|j: int|
                0 <= j < i ==> other.contains_key((#[trigger] a@[j]).name@) && members(
                    a@,
                ).contains_key(a@[j].name@) && members(a@)[a@[j].name@] == other[a@[j].name@],
        decreases a.len() - i,
    {
        let mut p: usize = a.len() - 1;
        while !str_eq(a[p].name.as_str(), a[i].name.as_str())
            invariant
                i <= p < a@.len(),
                forall|j: int| p < j < a@.len() ==> (#[trigger] a@[j]).name@ != a@[i as int].name@,
            decreases p,
        {
            p -= 1;
        }
        proof {
            lemma_members_last(a@, a@[i as int].name@, p as int);
        }
        match b.get(a[i].name.as_str()) {
            None => {
                return false;
            },
            Some(v) => {
                if !a[p].value.same(v) {
                    return false;
                }
            },
        }
        i += 1;
    }
    if let Json::Object(w) = b {
        let mut k: usize = 0;
        while k < w.len()
            invariant
                k <= w@.len(),
                *b == Json::Object(*w),
                other == members(w@),
                b.tree() == Tree::Object(other),
                forall|j: int|
                    0 <= j < k ==> members(a@).contains_key((#[trigger] w@[j]).name@),
            decreases w.len() - k,
        {
            let mut found: bool = false;
            let mut q: usize = 0;
            while q < a.len()
                invariant
                    q <= a@.len(),
                    found ==> members(a@).contains_key(w@[k as int].name@),
                    k < w@.len(),
                    !found ==> forall|j: int|
                        0 <= j < q ==> (#[trigger] a@[j]).name@ != w@[k as int].name@,
                decreases a.len() - q,
            {
                if str_eq(a[q].name.as_str(), w[k].name.as_str()) {
                    proof {
                        lemma_members_named(a@, w@[k as int].name@);
                        assert(a@[q as int].name@ == w@[k as int].name@);
                    }
                    found = true;
                }
                q += 1;
            }
            if !found {
                proof {
                    lemma_members_absent(a@, w@[k as int].name@);
                    lemma_members_named(w@, w@[k as int].name@);
                    assert(other.contains_key(w@[k as int].name@));
                }
                return false;
            }
            k += 1;
        }
        proof {
            assert forall|n: Seq<char>| members(a@).contains_key(n) <==> other.contains_key(n) by {
                lemma_members_named(a@, n);
                lemma_members_named(w@, n);
            }
            assert forall|n: Seq<char>| members(a@).contains_key(n) implies members(a@)[n]
                == other[n] by {
                lemma_members_named(a@, n);
            }
            assert(members(a@) =~= other);
        }
    }
    true
}

impl Json {
    /// Whether two values denote the same.
    pub fn same(&self, other: &Json) -> (r: bool)
        ensures
            r == (self.tree() == other.tree()),
        decreases self,
    {
        match self {
            Json::Null => other.is_null(),
            Json::Bool(a) => match other {
                Json::Bool(b) => *a == *b,
                _ => false,
            },
            Json::Number(a) => match other {
                Json::Number(b) => str_eq(a.as_str(), b.as_str()),
                _ => false,
            },
            Json::Str(a) => match other {
                Json::Str(b) => str_eq(a.as_str(), b.as_str()),
                _ => false,
            },
            Json::Array(a) => match other {
                Json::Array(b) => same_elements(a, b),
                _ => false,
            },
            Json::Object(a) => if other.is_object() {
                same_fields(a, other)
            } else {
                false
            },
        }
    }
}

impl Clone for Json {
    fn clone(&self) -> (r: Json)
        ensures
            r.deep_view() == self.deep_view(),
    {
        self.copy()
    }
}

/// A copy of an optional value.
pub fn copy_opt(v: Option<&Json>) -> (r: Option<Json>)
    ensures
        r.deep_view() == v.deep_view(),
{
    match v {
        Some(j) => Some(j.copy()),
        None => None,
    }
}

/// A field that is added is found under its name, in place of an earlier one of that
/// name, and changes no other field.
pub proof fn law_fields_hold_what_was_added(
    before: Json,
    name: &str,
    value: Json,
    after: Json,
    other: Seq<char>,
)
    requires
        before is Object,
        call_ensures(Json::with, (before, name, value), after),
        other != name@,
    ensures
        tree_get(after.tree(), name@) == Some(value.tree()),
        tree_get(after.tree(), other) == tree_get(before.tree(), other),
{
}

/// Of several fields of one name the last one counts.
pub proof fn law_later_fields_count(fields: Seq<Field>, i: int)
    requires
        0 <= i < fields.len(),
        forall|j: int| i < j < fields.len() ==> (#[trigger] fields[j]).name@ != fields[i].name@,
    ensures
        members(fields).contains_key(fields[i].name@),
        members(fields)[fields[i].name@] == fields[i].value.tree(),
    decreases fields.len(),
{
    if i < fields.len() - 1 {
        let init = fields.drop_last();
        assert(init[i] == fields[i]);
        assert forall|j: int| i < j < init.len() implies (#[trigger] init[j]).name@
            != init[i].name@ by {
            assert(init[j] == fields[j]);
        }
        law_later_fields_count(init, i);
        assert(fields.last() == fields[fields.len() - 1]);
    }
}

/// What is read out of a value is there: a field by its name, a text as a text and a
/// truth value as one, and nothing as anything else.
pub proof fn law_values_are_read_as_they_are(
    v: Json,
    name: &str,
    field: Option<&Json>,
    as_text: Option<&str>,
    as_truth: Option<bool>,
    null: bool,
    object: bool,
)
    requires
        call_ensures(Json::get, (&v, name), field),
        call_ensures(Json::as_str, (&v,), as_text),
        call_ensures(Json::as_bool, (&v,), as_truth),
        call_ensures(Json::is_null, (&v,), null),
        call_ensures(Json::is_object, (&v,), object),
    ensures
        v matches Json::Str(t) ==> as_text.deep_view() == Some(t@),
        !(v is Str) ==> as_text is None,
        v matches Json::Bool(b) ==> as_truth == Some(b),
        !(v is Bool) ==> as_truth is None,
        null <==> v is Null,
        object <==> v is Object,
        !(v is Object) ==> field is None,
        v matches Json::Object(fields) ==> (field is Some <==> members(fields@).contains_key(
            name@,
        )),
        v matches Json::Object(fields) ==> (field matches Some(f) ==> f.tree()
            == members(fields@)[name@]),
{
}

/// Two values are the same exactly where they denote the same, whatever order their
/// fields were written in, and a copy is the same as what it was copied from.
pub proof fn law_sameness_is_of_what_is_denoted(a: Json, b: Json, r: bool, copy: Json)
    requires
        call_ensures(Json::same, (&a, &b), r),
        call_ensures(Json::copy, (&a,), copy),
    ensures
        r <==> a.tree() == b.tree(),
        copy.tree() == a.tree(),
        a is Null && b is Bool ==> !r,
        a is Str && b is Number ==> !r,
{
}

/// Numbers are written in decimal, and an object starts without fields.
pub proof fn law_numbers_are_told_in_decimal(
    n: u64,
    m: u64,
    a: Json,
    b: Json,
    empty: Json,
    name: Seq<char>,
)
    requires
        call_ensures(Json::count, (n,), a),
        call_ensures(Json::count, (m,), b),
        call_ensures(Json::object, (), empty),
    ensures
        a.tree() == b.tree() <==> n == m,
        a.tree() is Number,
        tree_get(empty.tree(), name) is None,
        empty.tree() is Object,
{
    if a.tree() == b.tree() {
        text::law_numbers_are_told_apart(n as int, m as int);
    }
}

} // verus!
