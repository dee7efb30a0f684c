//! The text of a token's claims.
//!
//! An object that gives a claim twice is no set of claims, though a JSON value is
//! made of it all the same, in which the claim given last counts. So the text itself
//! is looked at.
use vstd::prelude::*;
use vstd::slice::slice_subrange;
use vstd::string::*;

use crate::json;
use crate::json::Json;
use crate::outside;
use crate::text::{chars_of, str_eq};

verus! {

/// Where the first dot of a text stands from a place on, or its end.
pub open spec fn dot_from(s: Seq<char>, i: int) -> int
    decreases s.len() - i,
{
    if i >= s.len() {
        s.len() as int
    } else if s[i] == '.' {
        i
    } else {
        dot_from(s, i + 1)
    }
}

/// The part of a token that holds its claims: what stands between its first two
/// dots.
pub open spec fn claims_part(token: Seq<char>) -> Option<Seq<char>> {
    let start = dot_from(token, 0) + 1;
    if start > token.len() {
        None
    } else {
        Some(token.subrange(start, dot_from(token, start)))
    }
}

fn find_dot(chars: &Vec<char>, from: usize) -> (r: usize)
    requires
        from <= chars.len(),
    ensures
        r == dot_from(chars@, from as int),
        from <= r <= chars.len(),
{
    let mut i: usize = from;
    while i < chars.len()
        invariant
            from <= i <= chars.len(),
            dot_from(chars@, i as int) == dot_from(chars@, from as int),
        decreases chars.len() - i,
    {
        if chars[i] == '.' {
            return i;
        }
        i += 1;
    }
    i
}

fn claims_part_of(token: &str) -> (r: Option<String>)
    ensures
        r.deep_view() == claims_part(token@),
{
    let chars: Vec<char> = chars_of(token);
    let first: usize = find_dot(&chars, 0);
    if first == chars.len() {
        return None;
    }
    let end: usize = find_dot(&chars, first + 1);
    let mut part: String = String::new();
    let mut i: usize = first + 1;
    while i < end
        invariant
            first < i <= end <= chars.len(),
            part@ == chars@.subrange(first + 1, i as int),
        decreases end - i,
    {
        part.push(chars[i]);
        i += 1;
        proof {
            assert(chars@.subrange(first + 1, i as int) =~= chars@.subrange(
                first + 1,
                i - 1,
            ).push(chars@[i - 1]));
        }
    }
    Some(part)
}

/// Where the quote stands that closes a JSON text, from a place inside it on, or the
/// end.
pub open spec fn closing_quote(data: Seq<u8>, i: int) -> int
    decreases data.len() - i + 1,
{
    if i >= data.len() {
        data.len() as int
    } else if data[i] == 34 {
        i
    } else if data[i] == 92 {
        closing_quote(data, i + 2)
    } else {
        closing_quote(data, i + 1)
    }
}

/// Whether a byte is white space between the parts of JSON.
pub open spec fn json_space(b: u8) -> bool {
    b == 32 || b == 9 || b == 10 || b == 13
}

/// Whether a colon comes next from a place on.
pub open spec fn colon_follows(data: Seq<u8>, i: int) -> bool
    decreases data.len() - i,
{
    if i >= data.len() {
        false
    } else if json_space(data[i]) {
        colon_follows(data, i + 1)
    } else {
        data[i] == 58
    }
}

/// How often a JSON object gives a member of a name, from a place on that stands in
/// so many brackets. A text in the object's own brackets before a colon is a
/// member's name.
pub open spec fn times_given(data: Seq<u8>, i: int, depth: int, name: Seq<char>) -> nat
    decreases data.len() - i,
{
    if i >= data.len() {
        0
    } else if data[i] == 34 {
        let end = closing_quote(data, i + 1);
        if i < end < data.len() {
            (if depth == 1 && colon_follows(data, end + 1) && outside::json_parsed_bytes(
                data.subrange(i, end + 1),
            ) == Ok::<json::Tree, Seq<char>>(json::Tree::Str(name)) {
                1nat
            } else {
                0nat
            }) + times_given(data, end + 1, depth, name)
        } else {
            0
        }
    } else if data[i] == 123 || data[i] == 91 {
        times_given(data, i + 1, depth + 1, name)
    } else if data[i] == 125 || data[i] == 93 {
        times_given(data, i + 1, depth - 1, name)
    } else {
        times_given(data, i + 1, depth, name)
    }
}

fn find_quote(data: &Vec<u8>, from: usize) -> (r: usize)
    requires
        from <= data.len(),
    ensures
        r == closing_quote(data@, from as int),
        from <= r <= data.len(),
{
    let mut i: usize = from;
    while i < data.len()
        invariant
            from <= i <= data.len(),
            closing_quote(data@, i as int) == closing_quote(data@, from as int),
        decreases data.len() - i,
    {
        if data[i] == 34 {
            return i;
        }
        if data[i] == 92 {
            if data.len() - i <= 2 {
                proof {
                    assert(closing_quote(data@, i + 2) == data.len());
                }
                return data.len();
            }
            i += 2;
        } else {
            i += 1;
        }
    }
    i
}

fn finds_colon(data: &Vec<u8>, from: usize) -> (r: bool)
    requires
        from <= data.len(),
    ensures
        r == colon_follows(data@, from as int),
{
    let mut i: usize = from;
    while i < data.len()
        invariant
            from <= i <= data.len(),
            colon_follows(data@, i as int) == colon_follows(data@, from as int),
        decreases data.len() - i,
    {
        let b: u8 = data[i];
        if b == 32 || b == 9 || b == 10 || b == 13 {
            i += 1;
        } else {
            return b == 58;
        }
    }
    false
}

fn is_name(data: &Vec<u8>, start: usize, end: usize, name: &str) -> (r: bool)
    requires
        start <= end <= data.len(),
    ensures
        r == (outside::json_parsed_bytes(data@.subrange(start as int, end as int)) == Ok::<
            json::Tree,
            Seq<char>,
        >(json::Tree::Str(name@))),
{
    match outside::json_from_slice(slice_subrange(data.as_slice(), start, end)) {
        Ok(Json::Str(t)) => str_eq(t.as_str(), name),
        _ => false,
    }
}

/// Whether a JSON object gives a member of a name twice.
pub fn given_twice(data: &Vec<u8>, name: &str) -> (r: bool)
    ensures
        r == (times_given(data@, 0, 0, name@) >= 2),
{
    let mut i: usize = 0;
    let mut depth: i128 = 0;
    let mut times: usize = 0;
    while i < data.len()
        invariant
            i <= data.len(),
            -i <= depth <= i,
            times <= i,
            times + times_given(data@, i as int, depth as int, name@) == times_given(
                data@,
                0,
                0,
                name@,
            ),
        decreases data.len() - i,
    {
        let b: u8 = data[i];
        if b == 34 {
            let end: usize = find_quote(data, i + 1);
            if end == data.len() {
                return times >= 2;
            }
            if depth == 1 && finds_colon(data, end + 1) && is_name(data, i, end + 1, name) {
                times += 1;
            }
            i = end + 1;
        } else {
            if b == 123 || b == 91 {
                depth += 1;
            } else if b == 125 || b == 93 {
                depth -= 1;
            }
            i += 1;
        }
    }
    times >= 2
}

/// Whether the claims of a token give a claim twice.
pub open spec fn claims_repeat(token: Seq<char>, name: Seq<char>) -> bool {
    match claims_part(token) {
        Some(part) => match outside::url64_bytes(part) {
            Some(data) => times_given(data, 0, 0, name) >= 2,
            None => false,
        },
        None => false,
    }
}

/// Whether the claims of a token give a claim twice.
pub fn repeats_claim(token: &str, name: &str) -> (r: bool)
    ensures
        r == claims_repeat(token@, name@),
{
    match claims_part_of(token) {
        Some(part) => match outside::url64_decode(part.as_str()) {
            Some(data) => given_twice(&data, name),
            None => false,
        },
        None => false,
    }
}

/// The claims of a token stand between its first two dots, whatever is around them.
pub proof fn law_claims_stand_between_the_dots(
    head: Seq<char>,
    claims: Seq<char>,
    signature: Seq<char>,
)
    requires
        forall|i: int| 0 <= i < head.len() ==> #[trigger] head[i] != '.',
        forall|i: int| 0 <= i < claims.len() ==> #[trigger] claims[i] != '.',
    ensures
        claims_part(head + seq!['.'] + claims + seq!['.'] + signature) == Some(claims),
        claims_part(head + seq!['.'] + claims) == Some(claims),
        claims_part(head) is None,
{
    let whole = head + seq!['.'] + claims + seq!['.'] + signature;
    let short = head + seq!['.'] + claims;
    let n = head.len() as int;
    let m = n + 1 + claims.len();
    assert forall|i: int| 0 <= i < n implies #[trigger] whole[i] != '.' && short[i] != '.' by {
        assert(whole[i] == head[i] && short[i] == head[i]);
    }
    assert forall|i: int| n + 1 <= i < m implies #[trigger] whole[i] != '.' && short[i] != '.' by {
        assert(whole[i] == claims[i - n - 1] && short[i] == claims[i - n - 1]);
    }
    lemma_first_dot(whole, 0, n);
    lemma_first_dot(whole, n + 1, m);
    lemma_first_dot(short, 0, n);
    lemma_first_dot(short, n + 1, m);
    lemma_first_dot(head, 0, n);
    assert(whole.subrange(n + 1, m) =~= claims);
    assert(short.subrange(n + 1, m) =~= claims);
}

proof fn lemma_first_dot(s: Seq<char>, from: int, at: int)
    requires
        0 <= from <= at <= s.len(),
        at < s.len() ==> s[at] == '.',
        forall|i: int| from <= i < at ==> #[trigger] s[i] != '.',
    ensures
        dot_from(s, from) == at,
    decreases at - from,
{
    if from < at {
        lemma_first_dot(s, from + 1, at);
    }
}

/// A JSON text ends at its first quote that no backslash precedes.
pub proof fn law_escaped_quotes_do_not_close(data: Seq<u8>, i: int)
    requires
        0 <= i < data.len(),
    ensures
        data[i] == 34 ==> closing_quote(data, i) == i,
        data[i] == 92 ==> closing_quote(data, i) == closing_quote(data, i + 2),
        data[i] != 34 && data[i] != 92 ==> closing_quote(data, i) == closing_quote(data, i + 1),
{
}

/// Whether bytes are all white space between the parts of JSON: blanks, tabs and line
/// ends, and nothing else.
pub open spec fn all_blank(s: Seq<u8>) -> bool {
    forall|i: int|
        0 <= i < s.len() ==> #[trigger] s[i] == 0x20 || s[i] == 0x09 || s[i] == 0x0a || s[i] == 0x0d
}

/// A name may be parted from its colon by white space, and by nothing else.
pub proof fn law_names_stand_before_a_colon(
    before: Seq<u8>,
    blanks: Seq<u8>,
    next: u8,
    after: Seq<u8>,
)
    requires
        all_blank(blanks),
        next != 0x20 && next != 0x09 && next != 0x0a && next != 0x0d,
    ensures
        colon_follows(before + blanks + seq![next] + after, before.len() as int) <==> next == 0x3a,
        !colon_follows(before + blanks, before.len() as int),
    decreases blanks.len(),
{
    let data = before + blanks + seq![next] + after;
    let short = before + blanks;
    let n = before.len() as int;
    if blanks.len() == 0 {
        assert(data[n] == next);
    } else {
        let more = before.push(blanks[0]);
        let rest = blanks.drop_first();
        assert(all_blank(rest)) by {
            assert forall|i: int| 0 <= i < rest.len() implies #[trigger] rest[i] == 0x20 || rest[i]
                == 0x09 || rest[i] == 0x0a || rest[i] == 0x0d by {
                assert(rest[i] == blanks[i + 1]);
            }
        }
        law_names_stand_before_a_colon(more, rest, next, after);
        assert(more + rest + seq![next] + after =~= data);
        assert(more + rest =~= short);
        assert(data[n] == blanks[0]);
        assert(short[n] == blanks[0]);
    }
}

/// Only a name in the object's own brackets is counted: a text deeper inside, and one
/// that no colon follows, count nothing; what stands between texts counts nothing
/// either.
pub proof fn law_only_own_members_are_counted(data: Seq<u8>, i: int, depth: int, name: Seq<char>)
    requires
        0 <= i < data.len(),
    ensures
        ({
            let end = closing_quote(data, i + 1);
            &&& data[i] == 34 && i < end < data.len() && (depth != 1 || !colon_follows(
                data,
                end + 1,
            )) ==> times_given(data, i, depth, name) == times_given(data, end + 1, depth, name)
            &&& data[i] == 34 && i < end < data.len() ==> times_given(data, i, depth, name)
                <= times_given(data, end + 1, depth, name) + 1
        }),
        data[i] == 123 || data[i] == 91 ==> times_given(data, i, depth, name) == times_given(
            data,
            i + 1,
            depth + 1,
            name,
        ),
        data[i] == 125 || data[i] == 93 ==> times_given(data, i, depth, name) == times_given(
            data,
            i + 1,
            depth - 1,
            name,
        ),
        data[i] == 58 || data[i] == 44 ==> times_given(data, i, depth, name) == times_given(
            data,
            i + 1,
            depth,
            name,
        ),
{
}

/// A token repeats a claim exactly where the object between its dots gives it more than
/// once.
pub proof fn law_repeated_claims_are_noticed(data: Vec<u8>, name: &str, r: bool)
    requires
        call_ensures(given_twice, (&data, name), r),
    ensures
        r <==> times_given(data@, 0, 0, name@) > 1,
        data@.len() == 0 ==> !r,
{
}

} // verus!
