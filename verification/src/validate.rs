//! Validation of LLM batch replies.
//!
//! A reply is accepted only when it parses as a JSON object of strings
//! (after repair, or sliced to its outermost braces as a last resort),
//! carries exactly the expected index keys, and none of its values is blank
//! or a merge annotation.

use vstd::prelude::*;
use vstd::string::*;
use crate::chars::{
    chars_of_str, contains_chars, is_blank_chars, spec_contains_seq, spec_is_blank,
    string_from_chars,
};
use crate::jsontext::{
    brace_slice, json_string_map_of, parse_json_string_map, repair_json, spec_brace_slice,
    spec_pairs_view, spec_repair_json,
};
use crate::num::{dec_chars, spec_dec};

verus! {

/// A value passes when it is not blank and carries none of the merge
/// annotations with which a model marks entries it folded together.
pub open spec fn spec_value_ok(v: Seq<char>) -> bool {
    &&& !spec_is_blank(v)
    &&& !spec_contains_seq(v, "已合并"@)
    &&& !spec_contains_seq(v, "已并入"@)
    &&& !spec_contains_seq(v, "同上"@)
    &&& !spec_contains_seq(v, "（见第"@)
    &&& !spec_contains_seq(v, "(见第"@)
    &&& !spec_contains_seq(v, "合并至"@)
}

/// Every value of the reply passes [`spec_value_ok`].
pub open spec fn spec_content_ok(pairs: Seq<(Seq<char>, Seq<char>)>) -> bool {
    forall|i: int| 0 <= i < pairs.len() ==> spec_value_ok((#[trigger] pairs[i]).1)
}

fn value_ok(v: &String) -> (r: bool)
    ensures
        r == spec_value_ok(v@),
{
    let chars = chars_of_str(v.as_str());
    if is_blank_chars(&chars) {
        return false;
    }
    let m1 = chars_of_str("已合并");
    let m2 = chars_of_str("已并入");
    let m3 = chars_of_str("同上");
    let m4 = chars_of_str("（见第");
    let m5 = chars_of_str("(见第");
    let m6 = chars_of_str("合并至");
    if contains_chars(&chars, &m1) || contains_chars(&chars, &m2) || contains_chars(&chars, &m3)
        || contains_chars(&chars, &m4) || contains_chars(&chars, &m5) || contains_chars(
        &chars,
        &m6,
    ) {
        return false;
    }
    true
}

/// Check reply content beyond key matching: no empty or whitespace value,
/// and no merge-annotation marker in any value.
pub fn validate_content(pairs: &Vec<(String, String)>) -> (r: bool)
    ensures
        r == spec_content_ok(spec_pairs_view(pairs@)),
{
    let mut i: usize = 0;
    while i < pairs.len()
        invariant
            i <= pairs@.len(),
            forall|k: int|
                0 <= k < i ==> spec_value_ok((#[trigger] spec_pairs_view(pairs@)[k]).1),
        decreases pairs.len() - i,
    {
        if !value_ok(&pairs[i].1) {
            assert(!spec_value_ok(spec_pairs_view(pairs@)[i as int].1));
            return false;
        }
        i += 1;
    }
    true
}

/// The first value stored under `key`, if any.
pub open spec fn spec_lookup(pairs: Seq<(Seq<char>, Seq<char>)>, key: Seq<char>) -> Option<
    Seq<char>,
>
    decreases pairs.len(),
{
    if pairs.len() == 0 {
        None
    } else if pairs[0].0 == key {
        Some(pairs[0].1)
    } else {
        spec_lookup(pairs.drop_first(), key)
    }
}

fn chars_eq(a: &Vec<char>, b: &Vec<char>) -> (r: bool)
    ensures
        r == (a@ == b@),
{
    if a.len() != b.len() {
        return false;
    }
    let mut i: usize = 0;
    while i < a.len()
        invariant
            i <= a@.len(),
            a@.len() == b@.len(),
            a@.take(i as int) == b@.take(i as int),
        decreases a.len() - i,
    {
        if a[i] != b[i] {
            assert(a@[i as int] != b@[i as int]);
            return false;
        }
        assert(a@.take(i + 1) =~= a@.take(i as int).push(a@[i as int]));
        assert(b@.take(i + 1) =~= b@.take(i as int).push(b@[i as int]));
        i += 1;
    }
    assert(a@.take(a@.len() as int) =~= a@);
    assert(b@.take(b@.len() as int) =~= b@);
    true
}

fn lookup_pair(pairs: &Vec<(String, String)>, key: &Vec<char>) -> (r: Option<String>)
    ensures
        match r {
            Some(v) => spec_lookup(spec_pairs_view(pairs@), key@) == Some(v@),
            None => spec_lookup(spec_pairs_view(pairs@), key@) is None,
        },
{
    let ghost m = spec_pairs_view(pairs@);
    let n = pairs.len();
    proof {
        assert(m.skip(0) =~= m);
    }
    let mut i: usize = 0;
    while i < n
        invariant
            i <= n,
            n == pairs@.len(),
            m == spec_pairs_view(pairs@),
            spec_lookup(m, key@) == spec_lookup(m.skip(i as int), key@),
        decreases n - i,
    {
        proof {
            assert(m.skip(i as int)[0] == m[i as int]);
            assert(m.skip(i as int).drop_first() =~= m.skip(i + 1));
        }
        let k = chars_of_str(pairs[i].0.as_str());
        if chars_eq(&k, key) {
            return Some(pairs[i].1.clone());
        }
        i += 1;
    }
    assert(m.skip(n as int) =~= Seq::<(Seq<char>, Seq<char>)>::empty());
    None
}

/// A parsed reply accepted against `expected`: it must have exactly as many
/// entries as expected indices, hold a value under every expected decimal
/// key, and pass the content checks; the values then come back in expected
/// order.
pub open spec fn spec_attempt(s: Seq<char>, expected: Seq<u64>) -> Option<Seq<Seq<char>>> {
    match json_string_map_of(s) {
        None => None,
        Some(pairs) => {
            if pairs.len() == expected.len() && (forall|i: int|
                0 <= i < expected.len() ==> spec_lookup(
                    pairs,
                    spec_dec(#[trigger] expected[i] as nat),
                ) is Some) && spec_content_ok(pairs) {
                Some(
                    Seq::new(
                        expected.len(),
                        |i: int| spec_lookup(pairs, spec_dec(expected[i] as nat))->0,
                    ),
                )
            } else {
                None
            }
        },
    }
}

/// One parse round: the text as it stands; after repair when it does not
/// parse at all.
pub open spec fn spec_try_parse_map(s: Seq<char>, expected: Seq<u64>) -> Option<Seq<Seq<char>>> {
    if json_string_map_of(s) is Some {
        spec_attempt(s, expected)
    } else {
        spec_attempt(spec_repair_json(s), expected)
    }
}

/// The full acceptance pipeline: the raw reply, then — if that fails — the
/// slice between the first `{` and the last `}`.
pub open spec fn spec_parse_validate(raw: Seq<char>, expected: Seq<u64>) -> Option<Seq<Seq<char>>> {
    match spec_try_parse_map(raw, expected) {
        Some(v) => Some(v),
        None => match spec_brace_slice(raw) {
            Some(sl) => spec_try_parse_map(sl, expected),
            None => None,
        },
    }
}

/// The views of a string vector.
pub open spec fn spec_strings_view(v: Seq<String>) -> Seq<Seq<char>> {
    v.map_values(|s: String| s@)
}

fn attempt_pairs(pairs: &Vec<(String, String)>, expected: &Vec<u64>, Ghost(src): Ghost<Seq<char>>)
    -> (r: Option<Vec<String>>)
    requires
        json_string_map_of(src) matches Some(m) && m == spec_pairs_view(pairs@),
    ensures
        match r {
            Some(v) => spec_attempt(src, expected@) == Some(spec_strings_view(v@)),
            None => spec_attempt(src, expected@) is None,
        },
{
    let ghost m = spec_pairs_view(pairs@);
    if pairs.len() != expected.len() {
        return None;
    }
    if !validate_content(pairs) {
        return None;
    }
    let mut out: Vec<String> = Vec::new();
    let mut i: usize = 0;
    while i < expected.len()
        invariant
            i <= expected@.len(),
            m == spec_pairs_view(pairs@),
            json_string_map_of(src) == Some(m),
            m.len() == expected@.len(),
            spec_content_ok(m),
            out@.len() == i,
            forall|k: int|
                0 <= k < i ==> spec_lookup(m, spec_dec(#[trigger] expected@[k] as nat)) == Some(
                    (#[trigger] out@[k])@,
                ),
        decreases expected.len() - i,
    {
        let key = dec_chars(expected[i]);
        match lookup_pair(pairs, &key) {
            Some(v) => {
                out.push(v);
            },
            None => {
                proof {
                    assert(!(forall|k: int|
                        0 <= k < expected@.len() ==> spec_lookup(
                            m,
                            spec_dec(#[trigger] expected@[k] as nat),
                        ) is Some)) by {
                        assert(spec_lookup(m, spec_dec(expected@[i as int] as nat)) is None);
                    }
                }
                return None;
            },
        }
        i += 1;
    }
    proof {
        assert forall|k: int| 0 <= k < expected@.len() implies spec_lookup(
            m,
            spec_dec(#[trigger] expected@[k] as nat),
        ) is Some by {
            assert(spec_lookup(m, spec_dec(expected@[k] as nat)) == Some((out@[k])@));
        }
        assert(spec_attempt(src, expected@) == Some(
            Seq::new(
                expected@.len(),
                |i: int| spec_lookup(m, spec_dec(expected@[i] as nat))->0,
            ),
        ));
        assert(spec_strings_view(out@) =~= Seq::new(
            expected@.len(),
            |i: int| spec_lookup(m, spec_dec(expected@[i] as nat))->0,
        ));
    }
    Some(out)
}

fn try_parse_map(s: &str, expected: &Vec<u64>) -> (r: Option<Vec<String>>)
    ensures
        match r {
            Some(v) => spec_try_parse_map(s@, expected@) == Some(spec_strings_view(v@)),
            None => spec_try_parse_map(s@, expected@) is None,
        },
{
    match parse_json_string_map(s) {
        Some(pairs) => {
            proof {
                assert(spec_pairs_view(pairs@) =~= json_string_map_of(s@)->0);
            }
            attempt_pairs(&pairs, expected, Ghost(s@))
        },
        None => {
            let repaired = repair_json(s);
            match parse_json_string_map(repaired.as_str()) {
                Some(pairs) => {
                    proof {
                        assert(spec_pairs_view(pairs@) =~= json_string_map_of(repaired@)->0);
                    }
                    attempt_pairs(&pairs, expected, Ghost(repaired@))
                },
                None => None,
            }
        },
    }
}

/// Parse a model reply against the expected indices.
///
/// Accepts the reply exactly when one of the three candidate texts — the
/// reply itself, its repaired form, or the slice between its outermost
/// braces (repaired in turn if needed) — parses as a JSON object holding
/// precisely the expected decimal index keys, with no blank value and no
/// merge annotation. The accepted values come back in the order of
/// `expected`.
pub fn parse_and_validate(raw: &str, expected: &Vec<u64>) -> (r: Option<Vec<String>>)
    ensures
        match r {
            Some(v) => spec_parse_validate(raw@, expected@) == Some(spec_strings_view(v@))
                && v@.len() == expected@.len(),
            None => spec_parse_validate(raw@, expected@) is None,
        },
{
    match try_parse_map(raw, expected) {
        Some(v) => {
            proof {
                assert(spec_strings_view(v@).len() == v@.len());
            }
            Some(v)
        },
        None => {
            let chars = chars_of_str(raw);
            match brace_slice(&chars) {
                Some(slice) => {
                    let s = string_from_chars(&slice);
                    match try_parse_map(s.as_str(), expected) {
                        Some(v) => {
                            proof {
                                assert(spec_strings_view(v@).len() == v@.len());
                            }
                            Some(v)
                        },
                        None => None,
                    }
                },
                None => None,
            }
        },
    }
}

} // verus!
