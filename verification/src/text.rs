//! Text helpers whose results are stated over sequences of characters.
use vstd::prelude::*;
use vstd::string::*;

verus! {

/// Whether a character has the Unicode property `White_Space`.
pub open spec fn is_white_space(c: char) -> bool {
    let n = c as u32;
    ||| 0x9 <= n <= 0xd
    ||| n == 0x20
    ||| n == 0x85
    ||| n == 0xa0
    ||| n == 0x1680
    ||| 0x2000 <= n <= 0x200a
    ||| n == 0x2028
    ||| n == 0x2029
    ||| n == 0x202f
    ||| n == 0x205f
    ||| n == 0x3000
}

/// Whether a character has the Unicode property `White_Space`.
pub fn is_space(c: char) -> (r: bool)
    ensures
        r == is_white_space(c),
{
    let n: u32 = c as u32;
    (0x9 <= n && n <= 0xd) || n == 0x20 || n == 0x85 || n == 0xa0 || n == 0x1680 || (0x2000 <= n
        && n <= 0x200a) || n == 0x2028 || n == 0x2029 || n == 0x202f || n == 0x205f || n == 0x3000
}

/// `String::push` appends one character at the end.
pub assume_specification[ String::push ](s: &mut String, c: char)
    ensures
        final(s)@ == old(s)@.push(c),
;

/// The text between the first and the last character that is not white space.
pub open spec fn trimmed(s: Seq<char>) -> Seq<char>
    decreases s.len(),
{
    if s.len() == 0 {
        s
    } else if is_white_space(s[0]) {
        trimmed(s.drop_first())
    } else if is_white_space(s.last()) {
        trimmed(s.drop_last())
    } else {
        s
    }
}

/// Trimming leaves nothing to trim: the ends of the result are not white space,
/// and trimming it again changes nothing.
pub proof fn law_trim_is_idempotent(s: Seq<char>)
    ensures
        trimmed(s).len() > 0 ==> !is_white_space(trimmed(s)[0]) && !is_white_space(
            trimmed(s).last(),
        ),
        trimmed(trimmed(s)) == trimmed(s),
    decreases s.len(),
{
    if s.len() > 0 {
        if is_white_space(s[0]) {
            law_trim_is_idempotent(s.drop_first());
        } else if is_white_space(s.last()) {
            law_trim_is_idempotent(s.drop_last());
        }
    }
}

/// Whether two texts hold the same characters.
pub fn str_eq(a: &str, b: &str) -> (r: bool)
    ensures
        r == (a@ == b@),
{
    a.to_owned() == b.to_owned()
}

/// Whether two optional texts are both absent or hold the same characters.
pub fn opt_str_eq(a: Option<&str>, b: Option<&str>) -> (r: bool)
    ensures
        r == (a.deep_view() == b.deep_view()),
{
    match (a, b) {
        (None, None) => true,
        (Some(x), Some(y)) => str_eq(x, y),
        _ => false,
    }
}

/// The characters of a text, in order.
pub fn chars_of(s: &str) -> (r: Vec<char>)
    ensures
        r@ == s@,
{
    let mut out: Vec<char> = Vec::new();
    for c in it: s.chars()
        invariant
            it.seq() == s@,
            out@ == s@.take(it.index() as int),
    {
        proof {
            assert(s@.take(it.index() + 1) =~= s@.take(it.index() as int).push(c));
        }
        out.push(c);
    }
    proof {
        assert(s@.take(s@.len() as int) =~= s@);
    }
    out
}

/// The text without leading and trailing white space.
pub fn trim(s: &str) -> (r: String)
    ensures
        r@ == trimmed(s@),
{
    let cs: Vec<char> = chars_of(s);
    let mut lo: usize = 0;
    let mut hi: usize = cs.len();
    proof {
        assert(cs@.subrange(0, cs@.len() as int) =~= cs@);
    }
    while lo < hi && is_space(cs[lo])
        invariant
            lo <= hi == cs@.len(),
            trimmed(cs@.subrange(lo as int, hi as int)) == trimmed(cs@),
        decreases hi - lo,
    {
        proof {
            assert(cs@.subrange(lo as int, hi as int).drop_first() =~= cs@.subrange(
                lo + 1,
                hi as int,
            ));
        }
        lo += 1;
    }
    while lo < hi && is_space(cs[hi - 1])
        invariant
            lo <= hi <= cs@.len(),
            lo < hi ==> !is_white_space(cs@[lo as int]),
            trimmed(cs@.subrange(lo as int, hi as int)) == trimmed(cs@),
        decreases hi - lo,
    {
        proof {
            assert(cs@.subrange(lo as int, hi as int).drop_last() =~= cs@.subrange(
                lo as int,
                hi - 1,
            ));
        }
        hi -= 1;
    }
    proof {
        let t = cs@.subrange(lo as int, hi as int);
        assert(trimmed(t) == t);
    }
    let mut out: String = String::new();
    let mut i: usize = lo;
    while i < hi
        invariant
            lo <= i <= hi <= cs@.len(),
            out@ == cs@.subrange(lo as int, i as int),
        decreases hi - i,
    {
        proof {
            assert(cs@.subrange(lo as int, i + 1) =~= cs@.subrange(lo as int, i as int).push(
                cs@[i as int],
            ));
        }
        out.push(cs[i]);
        i += 1;
    }
    out
}

/// Whether `s` begins with `p`.
pub open spec fn has_prefix(s: Seq<char>, p: Seq<char>) -> bool {
    p.len() <= s.len() && s.take(p.len() as int) == p
}

/// Whether `s` begins with `p`.
pub fn starts_with(s: &str, p: &str) -> (r: bool)
    ensures
        r == has_prefix(s@, p@),
{
    let a: Vec<char> = chars_of(s);
    let b: Vec<char> = chars_of(p);
    if b.len() > a.len() {
        return false;
    }
    let mut i: usize = 0;
    while i < b.len()
        invariant
            i <= b@.len() <= a@.len(),
            a@ == s@,
            b@ == p@,
            forall|j: int| 0 <= j < i ==> a@[j] == b@[j],
        decreases b.len() - i,
    {
        if a[i] != b[i] {
            proof {
                assert(s@.take(p@.len() as int)[i as int] != p@[i as int]);
            }
            return false;
        }
        i += 1;
    }
    proof {
        assert(s@.take(p@.len() as int) =~= p@);
    }
    true
}

/// What follows `p` in `s`, where `s` begins with `p`.
pub fn strip_prefix(s: &str, p: &str) -> (r: Option<String>)
    ensures
        r.deep_view() == (if has_prefix(s@, p@) {
            Some(s@.skip(p@.len() as int))
        } else {
            None
        }),
{
    if !starts_with(s, p) {
        return None;
    }
    let n: usize = p.unicode_len();
    let total: usize = s.unicode_len();
    let rest: String = s.substring_char(n, total).to_owned();
    proof {
        assert(s@.subrange(n as int, total as int) =~= s@.skip(p@.len() as int));
    }
    Some(rest)
}

/// The ASCII character of a decimal digit.
pub open spec fn digit_char(d: int) -> char {
    (48 + d) as char
}

/// The decimal digits of a number, most significant first.
pub open spec fn decimal_text(n: nat) -> Seq<char>
    decreases n,
{
    if n < 10 {
        seq![digit_char(n as int)]
    } else {
        decimal_text(n / 10).push(digit_char((n % 10) as int))
    }
}

fn digit_of(d: u64) -> (c: char)
    requires
        d < 10,
    ensures
        c == digit_char(d as int),
{
    match d {
        0 => '0',
        1 => '1',
        2 => '2',
        3 => '3',
        4 => '4',
        5 => '5',
        6 => '6',
        7 => '7',
        8 => '8',
        _ => '9',
    }
}

/// The decimal digits of a number.
pub fn decimal(n: u64) -> (r: String)
    ensures
        r@ == decimal_text(n as nat),
    decreases n,
{
    if n < 10 {
        let mut s: String = String::new();
        s.push(digit_of(n));
        proof {
            assert(s@ =~= seq![digit_char(n as int)]);
        }
        s
    } else {
        let mut s: String = decimal(n / 10);
        s.push(digit_of(n % 10));
        s
    }
}

/// The text of a signed number: a minus sign before the digits of a negative one.
pub open spec fn signed_text(n: int) -> Seq<char> {
    if n < 0 {
        seq!['-'] + decimal_text((-n) as nat)
    } else {
        decimal_text(n as nat)
    }
}

/// The decimal text of a number that may be negative.
pub fn signed_decimal(n: i64) -> (r: String)
    ensures
        r@ == signed_text(n as int),
{
    if n >= 0 {
        return decimal(n as u64);
    }
    let mut s: String = String::new();
    s.push('-');
    let magnitude: u64 = (-(n as i128)) as u64;
    s.append(decimal(magnitude).as_str());
    s
}

/// How `Option<u64>` is printed by its debug format.
pub open spec fn debug_opt_text(n: Option<u64>) -> Seq<char> {
    match n {
        Some(v) => "Some("@ + decimal_text(v as nat) + ")"@,
        None => "None"@,
    }
}

/// The debug text of an optional number.
pub fn debug_opt(n: Option<u64>) -> (r: String)
    ensures
        r@ == debug_opt_text(n),
{
    match n {
        Some(v) => {
            let mut s: String = "Some(".to_owned();
            s.append(decimal(v).as_str());
            s.append(")");
            s
        },
        None => "None".to_owned(),
    }
}

/// The texts of a list.
pub open spec fn texts(s: Seq<String>) -> Seq<Seq<char>> {
    Seq::new(s.len(), |i: int| s[i]@)
}

/// A list with the same texts.
pub fn copy_texts(v: &[String]) -> (r: Vec<String>)
    ensures
        r.deep_view() == texts(v@),
{
    let mut out: Vec<String> = Vec::new();
    let mut i: usize = 0;
    while i < v.len()
        invariant
            i <= v@.len(),
            out@.len() == i,
            forall|j: int| 0 <= j < i ==> (#[trigger] out@[j])@ == v@[j]@,
        decreases v.len() - i,
    {
        out.push(v[i].clone());
        i += 1;
    }
    proof {
        assert(out.deep_view() =~= texts(v@));
    }
    out
}

/// The texts with a separator between each two.
pub open spec fn joined(s: Seq<Seq<char>>, sep: Seq<char>) -> Seq<char>
    decreases s.len(),
{
    if s.len() == 0 {
        seq![]
    } else if s.len() == 1 {
        s[0]
    } else {
        joined(s.drop_last(), sep) + sep + s.last()
    }
}

/// The texts with a separator between each two.
pub fn join(v: &Vec<String>, sep: &str) -> (r: String)
    ensures
        r@ == joined(v.deep_view(), sep@),
{
    let mut out: String = String::new();
    let mut i: usize = 0;
    proof {
        assert(v.deep_view().take(0) =~= seq![]);
    }
    while i < v.len()
        invariant
            i <= v@.len(),
            out@ == joined(v.deep_view().take(i as int), sep@),
        decreases v.len() - i,
    {
        proof {
            let t = v.deep_view().take(i + 1);
            assert(t.drop_last() =~= v.deep_view().take(i as int));
            assert(t.last() == v@[i as int]@);
            if i == 0 {
                assert(seq![] + v@[0]@ =~= v@[0]@);
            }
        }
        if i > 0 {
            out.append(sep);
        }
        out.append(v[i].as_str());
        i += 1;
    }
    proof {
        assert(v.deep_view().take(v@.len() as int) =~= v.deep_view());
    }
    out
}

/// Whether a list holds a text.
pub fn list_contains(v: &Vec<String>, x: &str) -> (r: bool)
    ensures
        r == v.deep_view().contains(x@),
{
    let mut i: usize = 0;
    while i < v.len()
        invariant
            i <= v@.len(),
            forall|j: int| 0 <= j < i ==> (#[trigger] v@[j])@ != x@,
        decreases v.len() - i,
    {
        if str_eq(v[i].as_str(), x) {
            proof {
                assert(v.deep_view()[i as int] == x@);
            }
            return true;
        }
        i += 1;
    }
    proof {
        assert forall|j: int| 0 <= j < v.deep_view().len() implies v.deep_view()[j] != x@ by {
            assert(v@[j]@ != x@);
        }
    }
    false
}

/// A copy of an optional text.
pub fn copy_opt_str(o: Option<&str>) -> (r: Option<String>)
    ensures
        r.deep_view() == o.deep_view(),
{
    match o {
        Some(s) => Some(s.to_owned()),
        None => None,
    }
}

/// The text that an optional text holds.
pub fn opt_as_str(o: &Option<String>) -> (r: Option<&str>)
    ensures
        r.deep_view() == o.deep_view(),
{
    match o {
        Some(s) => Some(s.as_str()),
        None => None,
    }
}

/// A number is written in the decimal system: its last digit is what is left of it
/// by ten, and the digits before it write the rest.
pub proof fn law_numbers_are_written_in_decimal(n: nat)
    ensures
        decimal_text(n).len() > 0,
        decimal_text(n).last() as int == '0' as int + n % 10,
        n >= 10 ==> decimal_text(n).drop_last() == decimal_text(n / 10),
        n < 10 ==> decimal_text(n).len() == 1,
        forall|i: int| 0 <= i < decimal_text(n).len() ==> '0' <= #[trigger] decimal_text(n)[i] <= '9',
    decreases n,
{
    if n >= 10 {
        law_numbers_are_written_in_decimal(n / 10);
        assert(decimal_text(n).drop_last() =~= decimal_text(n / 10));
    }
}

/// Different numbers are written differently, with their sign where they are below
/// zero.
pub proof fn law_numbers_are_told_apart(m: int, n: int)
    ensures
        signed_text(m) == signed_text(n) <==> m == n,
        n < 0 ==> signed_text(n)[0] == '-',
{
    if m >= 0 && n >= 0 && signed_text(m) == signed_text(n) {
        lemma_decimal_told_apart(m as nat, n as nat);
    }
    if m < 0 && n < 0 && signed_text(m) == signed_text(n) {
        let a = decimal_text((-m) as nat);
        let b = decimal_text((-n) as nat);
        assert(a =~= signed_text(m).skip(1));
        assert(b =~= signed_text(n).skip(1));
        lemma_decimal_told_apart((-m) as nat, (-n) as nat);
    }
    if m >= 0 {
        law_numbers_are_written_in_decimal(m as nat);
        assert('0' <= decimal_text(m as nat)[0]);
    }
    if n >= 0 {
        law_numbers_are_written_in_decimal(n as nat);
        assert('0' <= decimal_text(n as nat)[0]);
    }
}

proof fn lemma_decimal_told_apart(m: nat, n: nat)
    requires
        decimal_text(m) == decimal_text(n),
    ensures
        m == n,
    decreases m,
{
    law_numbers_are_written_in_decimal(m);
    law_numbers_are_written_in_decimal(n);
    if m >= 10 {
        if n < 10 {
            law_numbers_are_written_in_decimal(m / 10);
            assert(decimal_text(m).drop_last().len() == decimal_text(m).len() - 1);
        }
        lemma_decimal_told_apart(m / 10, n / 10);
    } else if n >= 10 {
        law_numbers_are_written_in_decimal(n / 10);
        assert(decimal_text(n).drop_last().len() == decimal_text(n).len() - 1);
    }
}

/// Whether a text holds nothing but white space outside a range.
pub open spec fn blank_outside(s: Seq<char>, i: int, j: int) -> bool {
    forall|k: int| 0 <= k < s.len() && !(i <= k < j) ==> is_white_space(#[trigger] s[k])
}

/// Trimming takes white space from the two ends and nothing else: what is left is a
/// range of the text, as it stands, with nothing but white space around it.
pub proof fn law_trim_takes_white_space_only(s: Seq<char>) -> (range: (int, int))
    ensures
        0 <= range.0 <= range.1 <= s.len(),
        trimmed(s) == s.subrange(range.0, range.1),
        blank_outside(s, range.0, range.1),
    decreases s.len(),
{
    if s.len() == 0 {
        assert(trimmed(s) =~= s.subrange(0, 0));
        (0, 0)
    } else if is_white_space(s[0]) {
        let t = s.drop_first();
        let (i, j) = law_trim_takes_white_space_only(t);
        assert(t.subrange(i, j) =~= s.subrange(i + 1, j + 1));
        assert(blank_outside(s, i + 1, j + 1)) by {
            assert forall|k: int| 0 <= k < s.len() && !(i + 1 <= k < j + 1) implies is_white_space(
                #[trigger] s[k],
            ) by {
                if k > 0 {
                    assert(t[k - 1] == s[k]);
                }
            }
        }
        (i + 1, j + 1)
    } else if is_white_space(s.last()) {
        let t = s.drop_last();
        let (i, j) = law_trim_takes_white_space_only(t);
        assert(t.subrange(i, j) =~= s.subrange(i, j));
        assert(blank_outside(s, i, j)) by {
            assert forall|k: int| 0 <= k < s.len() && !(i <= k < j) implies is_white_space(
                #[trigger] s[k],
            ) by {
                if k < t.len() {
                    assert(t[k] == s[k]);
                }
            }
        }
        (i, j)
    } else {
        assert(s.subrange(0, s.len() as int) =~= s);
        (0, s.len() as int)
    }
}

/// Texts are joined in order, with the separator between each two and nowhere else.
pub proof fn law_texts_are_joined_in_order(s: Seq<Seq<char>>, t: Seq<char>, sep: Seq<char>)
    ensures
        joined(seq![], sep) == Seq::<char>::empty(),
        joined(seq![t], sep) == t,
        s.len() > 0 ==> joined(s.push(t), sep) == joined(s, sep) + sep + t,
{
    assert(s.push(t).drop_last() =~= s);
}

/// A text begins with another exactly where it is that text with something behind
/// it.
pub proof fn law_prefix_is_the_beginning(s: Seq<char>, p: Seq<char>)
    ensures
        has_prefix(p + s, p),
        has_prefix(s, p) ==> s == p + s.skip(p.len() as int),
        has_prefix(s, p) <==> exists|rest: Seq<char>| s == #[trigger] (p + rest),
{
    assert((p + s).take(p.len() as int) =~= p);
    if has_prefix(s, p) {
        assert(s =~= p + s.skip(p.len() as int));
    }
    if exists|rest: Seq<char>| s == #[trigger] (p + rest) {
        let rest = choose|rest: Seq<char>| s == #[trigger] (p + rest);
        assert(s.take(p.len() as int) =~= p);
    }
}

/// The characters that count as white space are the twenty-five that Unicode lists.
pub proof fn law_white_space_is_what_unicode_lists(c: char)
    ensures
        is_white_space(c) <==> seq![
            0x9int,
            0xa,
            0xb,
            0xc,
            0xd,
            0x20,
            0x85,
            0xa0,
            0x1680,
            0x2000,
            0x2001,
            0x2002,
            0x2003,
            0x2004,
            0x2005,
            0x2006,
            0x2007,
            0x2008,
            0x2009,
            0x200a,
            0x2028,
            0x2029,
            0x202f,
            0x205f,
            0x3000,
        ].contains(c as int),
{
    let s = seq![
        0x9int,
        0xa,
        0xb,
        0xc,
        0xd,
        0x20,
        0x85,
        0xa0,
        0x1680,
        0x2000,
        0x2001,
        0x2002,
        0x2003,
        0x2004,
        0x2005,
        0x2006,
        0x2007,
        0x2008,
        0x2009,
        0x200a,
        0x2028,
        0x2029,
        0x202f,
        0x205f,
        0x3000,
    ];
    let n = c as int;
    assert(s[0] == 0x9 && s[1] == 0xa && s[2] == 0xb && s[3] == 0xc && s[4] == 0xd && s[5] == 0x20
        && s[6] == 0x85 && s[7] == 0xa0 && s[8] == 0x1680);
    assert(s[9] == 0x2000 && s[10] == 0x2001 && s[11] == 0x2002 && s[12] == 0x2003 && s[13]
        == 0x2004 && s[14] == 0x2005 && s[15] == 0x2006 && s[16] == 0x2007 && s[17] == 0x2008
        && s[18] == 0x2009 && s[19] == 0x200a);
    assert(s[20] == 0x2028 && s[21] == 0x2029 && s[22] == 0x202f && s[23] == 0x205f && s[24]
        == 0x3000);
    if s.contains(n) {
        let i = choose|i: int| 0 <= i < s.len() && s[i] == n;
        assert(0 <= i < 25);
    }
}

/// Whether a part stands at a place in a text.
pub open spec fn stands_at(text: Seq<char>, part: Seq<char>, at: int) -> bool {
    0 <= at && at + part.len() <= text.len() && text.subrange(at, at + part.len()) == part
}

/// Whether a part stands somewhere in a text.
pub open spec fn stands_in(text: Seq<char>, part: Seq<char>) -> bool {
    exists|at: int| #[trigger] stands_at(text, part, at)
}

/// Whether a text ends with a part.
pub open spec fn ends_with(text: Seq<char>, part: Seq<char>) -> bool {
    stands_at(text, part, text.len() - part.len())
}

/// A part stands where it was put.
pub proof fn lemma_stands(before: Seq<char>, part: Seq<char>, after: Seq<char>)
    ensures
        stands_in(before + part + after, part),
        ends_with(before + part, part),
{
    assert((before + part + after).subrange(before.len() as int, (before.len() + part.len()) as int)
        =~= part);
    assert(stands_at(before + part + after, part, before.len() as int));
    assert((before + part).subrange(before.len() as int, (before.len() + part.len()) as int)
        =~= part);
}

} // verus!
