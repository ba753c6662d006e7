//! JSON text handling for the LLM batch protocol: building the
//! `{"index": "text"}` payloads, best-effort repair of model replies, and
//! the parse of a reply into string pairs.

use vstd::prelude::*;
use vstd::string::*;
use crate::chars::{
    chars_of_str, is_space_char, push_range, push_str_chars, string_from_chars,
};

verus! {

// ── Reply parsing (trusted) ─────────────────────────────────────────────────

/// What parsing `s` as a JSON object of strings yields: `None` when `s` is
/// not such an object, else its entries sorted by key.
pub uninterp spec fn json_string_map_of(s: Seq<char>) -> Option<Seq<(Seq<char>, Seq<char>)>>;

/// Relies on `serde_json::from_str` with a `BTreeMap<String, String>`
/// target: accepts exactly a JSON object whose values are all strings, and
/// returns its entries ordered by key. The result depends on the input text
/// alone.
#[verifier::external_body]
pub fn parse_json_string_map(s: &str) -> (r: Option<Vec<(String, String)>>)
    ensures
        r is Some <==> json_string_map_of(s@) is Some,
        r matches Some(v) ==> {
            let m = json_string_map_of(s@)->0;
            &&& v@.len() == m.len()
            &&& forall|i: int|
                0 <= i < v@.len() ==> (#[trigger] v@[i]).0@ == m[i].0 && v@[i].1@ == m[i].1
        },
{
    match serde_json::from_str::<std::collections::BTreeMap<String, String>>(s) {
        Ok(m) => Some(m.into_iter().collect()),
        Err(_) => None,
    }
}

// ── Repair ──────────────────────────────────────────────────────────────────

/// Smart or CJK quotes become their ASCII counterparts.
pub open spec fn spec_quote_fix(c: char) -> char {
    if c == '\u{201C}' || c == '\u{201D}' {
        '"'
    } else if c == '\u{2018}' || c == '\u{2019}' {
        '\''
    } else {
        c
    }
}

/// From position `j` on, only whitespace stands before a `}` or `]`.
pub open spec fn spec_closes_after_ws(s: Seq<char>, j: int) -> bool
    decreases s.len() - j,
{
    if j < 0 || j >= s.len() {
        false
    } else if s[j] == '}' || s[j] == ']' {
        true
    } else if is_space_char(s[j]) {
        spec_closes_after_ws(s, j + 1)
    } else {
        false
    }
}

/// The text from position `i` on, with each comma that only precedes a
/// closing bracket removed.
pub open spec fn spec_strip_trailing_commas_from(s: Seq<char>, i: int) -> Seq<char>
    decreases s.len() - i,
{
    if i < 0 || i >= s.len() {
        Seq::empty()
    } else if s[i] == ',' && spec_closes_after_ws(s, i + 1) {
        spec_strip_trailing_commas_from(s, i + 1)
    } else {
        seq![s[i]] + spec_strip_trailing_commas_from(s, i + 1)
    }
}

/// The repaired form of a model reply: ASCII quotes restored, trailing
/// commas before `}` or `]` removed.
pub open spec fn spec_repair_json(s: Seq<char>) -> Seq<char> {
    spec_strip_trailing_commas_from(s.map_values(|c: char| spec_quote_fix(c)), 0)
}

fn closes_after_ws(v: &Vec<char>, j: usize) -> (r: bool)
    ensures
        r == spec_closes_after_ws(v@, j as int),
    decreases v@.len() - j,
{
    if j >= v.len() {
        false
    } else if v[j] == '}' || v[j] == ']' {
        true
    } else if crate::chars::char_is_space(v[j]) {
        closes_after_ws(v, j + 1)
    } else {
        false
    }
}

/// Repair common LLM JSON output issues before parsing: replace smart and
/// CJK quotes with ASCII ones, and strip trailing commas before `}` or `]`.
pub fn repair_json(s: &str) -> (r: String)
    ensures
        r@ == spec_repair_json(s@),
{
    let src = chars_of_str(s);
    let mut fixed: Vec<char> = Vec::new();
    let mut i: usize = 0;
    while i < src.len()
        invariant
            i <= src@.len(),
            src@ == s@,
            fixed@ == s@.take(i as int).map_values(|c: char| spec_quote_fix(c)),
        decreases src.len() - i,
    {
        let c = src[i];
        if c == '\u{201C}' || c == '\u{201D}' {
            fixed.push('"');
        } else if c == '\u{2018}' || c == '\u{2019}' {
            fixed.push('\'');
        } else {
            fixed.push(c);
        }
        assert(fixed@ =~= s@.take(i + 1).map_values(|c: char| spec_quote_fix(c)));
        i += 1;
    }
    assert(s@.take(s@.len() as int) =~= s@);
    let q: Ghost<Seq<char>> = Ghost(s@.map_values(|c: char| spec_quote_fix(c)));
    assert(fixed@ == q@);
    let mut out: Vec<char> = Vec::new();
    let mut k: usize = 0;
    while k < fixed.len()
        invariant
            k <= fixed@.len(),
            fixed@ == q@,
            out@ + spec_strip_trailing_commas_from(q@, k as int) == spec_strip_trailing_commas_from(
                q@,
                0,
            ),
        decreases fixed.len() - k,
    {
        let c = fixed[k];
        if c == ',' && closes_after_ws(&fixed, k + 1) {
            // dropped: only whitespace and a closing bracket follow
        } else {
            out.push(c);
            assert(out@ + spec_strip_trailing_commas_from(q@, k + 1)
                =~= spec_strip_trailing_commas_from(q@, 0));
        }
        k += 1;
    }
    assert(out@ =~= spec_strip_trailing_commas_from(q@, 0));
    string_from_chars(&out)
}

// ── Brace extraction ────────────────────────────────────────────────────────

/// The positions of the first `{` and the last `}` when both exist in that
/// order: the last-resort slice of a reply.
pub open spec fn spec_brace_slice(s: Seq<char>) -> Option<Seq<char>> {
    if (exists|i: int| 0 <= i < s.len() && s[i] == '{') && (exists|j: int|
        0 <= j < s.len() && s[j] == '}') {
        let i = spec_first_brace(s);
        let j = spec_last_close(s);
        if i <= j {
            Some(s.subrange(i, j + 1))
        } else {
            None
        }
    } else {
        None
    }
}

/// First index of `{` in `s` (unspecified when there is none).
pub open spec fn spec_first_brace(s: Seq<char>) -> int {
    choose|i: int|
        0 <= i < s.len() && s[i] == '{' && forall|k: int| 0 <= k < i ==> s[k] != '{'
}

/// Last index of `}` in `s` (unspecified when there is none).
pub open spec fn spec_last_close(s: Seq<char>) -> int {
    choose|j: int|
        0 <= j < s.len() && s[j] == '}' && forall|k: int| j < k < s.len() ==> s[k] != '}'
}

/// The slice between the first `{` and the last `}`, inclusive, if any.
pub fn brace_slice(v: &Vec<char>) -> (r: Option<Vec<char>>)
    ensures
        match r {
            Some(out) => spec_brace_slice(v@) == Some(out@),
            None => spec_brace_slice(v@) is None,
        },
{
    let first = crate::chars::find_char(v, '{');
    let last = crate::chars::rfind_char(v, '}');
    match (first, last) {
        (Some(i), Some(j)) => {
            proof {
                assert(spec_first_brace(v@) == i as int) by {
                    assert(0 <= i < v@.len() && v@[i as int] == '{' && forall|k: int|
                        0 <= k < i ==> v@[k] != '{');
                    let w = spec_first_brace(v@);
                    assert(0 <= w < v@.len() && v@[w] == '{' && forall|k: int|
                        0 <= k < w ==> v@[k] != '{');
                    if w < i {
                        assert(v@[w] != '{');
                    }
                    if i < w {
                        assert(v@[i as int] != '{');
                    }
                }
                assert(spec_last_close(v@) == j as int) by {
                    let w = spec_last_close(v@);
                    assert(0 <= w < v@.len() && v@[w] == '}' && forall|k: int|
                        w < k < v@.len() ==> v@[k] != '}');
                    if w < j {
                        assert(v@[j as int] != '}');
                    }
                    if j < w {
                        assert(v@[w] != '}');
                    }
                }
            }
            let n = v.len();
            assert(j < n);
            if i <= j {
                let mut out: Vec<char> = Vec::new();
                push_range(&mut out, v, i, j + 1);
                Some(out)
            } else {
                None
            }
        },
        _ => {
            proof {
                if v@.contains('{') && v@.contains('}') {
                    let i = choose|i: int| 0 <= i < v@.len() && v@[i] == '{';
                    let j = choose|j: int| 0 <= j < v@.len() && v@[j] == '}';
                    assert(v@[i] == '{');
                    assert(v@[j] == '}');
                }
            }
            None
        },
    }
}

// ── Encoding ────────────────────────────────────────────────────────────────

/// Hex digit for a value below sixteen.
pub open spec fn spec_hex_char(d: nat) -> char {
    if d < 10 {
        crate::num::spec_digit_char(d)
    } else if d == 10 {
        'a'
    } else if d == 11 {
        'b'
    } else if d == 12 {
        'c'
    } else if d == 13 {
        'd'
    } else if d == 14 {
        'e'
    } else {
        'f'
    }
}

/// JSON escape of one character inside a string literal.
pub open spec fn spec_escape_char(c: char) -> Seq<char> {
    if c == '"' {
        seq!['\\', '"']
    } else if c == '\\' {
        seq!['\\', '\\']
    } else if c == '\n' {
        seq!['\\', 'n']
    } else if c == '\r' {
        seq!['\\', 'r']
    } else if c == '\t' {
        seq!['\\', 't']
    } else if (c as u32) < 32 {
        seq!['\\', 'u', '0', '0', spec_hex_char((c as u32 / 16) as nat), spec_hex_char(
            (c as u32 % 16) as nat,
        )]
    } else {
        seq![c]
    }
}

/// JSON escape of a whole string body.
pub open spec fn spec_json_escape(s: Seq<char>) -> Seq<char>
    decreases s.len(),
{
    if s.len() == 0 {
        Seq::empty()
    } else {
        spec_escape_char(s[0]) + spec_json_escape(s.drop_first())
    }
}

proof fn lemma_escape_push(s: Seq<char>, c: char)
    ensures
        spec_json_escape(s.push(c)) == spec_json_escape(s) + spec_escape_char(c),
    decreases s.len(),
{
    let t = s.push(c);
    if s.len() == 0 {
        assert(t[0] == c);
        assert(t.drop_first() =~= Seq::<char>::empty());
        assert(spec_json_escape(Seq::<char>::empty()) == Seq::<char>::empty());
        assert(spec_json_escape(t) == spec_escape_char(c) + spec_json_escape(t.drop_first()));
        assert(spec_json_escape(t) =~= spec_json_escape(s) + spec_escape_char(c));
    } else {
        assert(t[0] == s[0]);
        assert(t.drop_first() =~= s.drop_first().push(c));
        lemma_escape_push(s.drop_first(), c);
        assert(spec_json_escape(t) == spec_escape_char(s[0]) + (spec_json_escape(s.drop_first())
            + spec_escape_char(c)));
        assert(spec_json_escape(s) == spec_escape_char(s[0]) + spec_json_escape(s.drop_first()));
        assert(spec_json_escape(t) =~= spec_json_escape(s) + spec_escape_char(c));
    }
}

fn hex_char(d: u32) -> (c: char)
    requires
        d < 16,
    ensures
        c == spec_hex_char(d as nat),
{
    if d == 0 {
        '0'
    } else if d == 1 {
        '1'
    } else if d == 2 {
        '2'
    } else if d == 3 {
        '3'
    } else if d == 4 {
        '4'
    } else if d == 5 {
        '5'
    } else if d == 6 {
        '6'
    } else if d == 7 {
        '7'
    } else if d == 8 {
        '8'
    } else if d == 9 {
        '9'
    } else if d == 10 {
        'a'
    } else if d == 11 {
        'b'
    } else if d == 12 {
        'c'
    } else if d == 13 {
        'd'
    } else if d == 14 {
        'e'
    } else {
        'f'
    }
}

/// Append the JSON escape of `s` to `out`.
pub fn push_json_escaped(out: &mut Vec<char>, s: &Vec<char>)
    ensures
        final(out)@ == old(out)@ + spec_json_escape(s@),
{
    let mut i: usize = 0;
    while i < s.len()
        invariant
            i <= s@.len(),
            out@ == old(out)@ + spec_json_escape(s@.take(i as int)),
        decreases s.len() - i,
    {
        let c = s[i];
        if c == '"' {
            out.push('\\');
            out.push('"');
        } else if c == '\\' {
            out.push('\\');
            out.push('\\');
        } else if c == '\n' {
            out.push('\\');
            out.push('n');
        } else if c == '\r' {
            out.push('\\');
            out.push('r');
        } else if c == '\t' {
            out.push('\\');
            out.push('t');
        } else if (c as u32) < 32 {
            out.push('\\');
            out.push('u');
            out.push('0');
            out.push('0');
            out.push(hex_char((c as u32) / 16));
            out.push(hex_char((c as u32) % 16));
        } else {
            out.push(c);
        }
        proof {
            lemma_escape_push(s@.take(i as int), s@[i as int]);
            assert(s@.take(i + 1) =~= s@.take(i as int).push(s@[i as int]));
            assert(out@ =~= old(out)@ + spec_json_escape(s@.take(i + 1)));
        }
        i += 1;
    }
    assert(s@.take(s@.len() as int) =~= s@);
}

/// One `"key": "value"` member.
pub open spec fn spec_json_member(k: Seq<char>, v: Seq<char>) -> Seq<char> {
    seq!['"'] + spec_json_escape(k) + seq!['"', ':', '"'] + spec_json_escape(v) + seq!['"']
}

/// The members of an object, comma-separated.
pub open spec fn spec_json_members(pairs: Seq<(Seq<char>, Seq<char>)>) -> Seq<char>
    decreases pairs.len(),
{
    if pairs.len() == 0 {
        Seq::empty()
    } else if pairs.len() == 1 {
        spec_json_member(pairs[0].0, pairs[0].1)
    } else {
        spec_json_member(pairs[0].0, pairs[0].1) + seq![','] + spec_json_members(
            pairs.drop_first(),
        )
    }
}

/// A flat JSON object of string keys and string values.
pub open spec fn spec_json_object(pairs: Seq<(Seq<char>, Seq<char>)>) -> Seq<char> {
    seq!['{'] + spec_json_members(pairs) + seq!['}']
}

proof fn lemma_members_push(pairs: Seq<(Seq<char>, Seq<char>)>, p: (Seq<char>, Seq<char>))
    ensures
        pairs.len() == 0 ==> spec_json_members(pairs.push(p)) == spec_json_member(p.0, p.1),
        pairs.len() > 0 ==> spec_json_members(pairs.push(p)) == spec_json_members(pairs) + seq![',']
            + spec_json_member(p.0, p.1),
    decreases pairs.len(),
{
    if pairs.len() == 0 {
        assert(pairs.push(p) =~= seq![p]);
        assert(spec_json_members(seq![p]) == spec_json_member(seq![p][0].0, seq![p][0].1));
    } else {
        assert(pairs.push(p)[0] == pairs[0]);
        assert(pairs.push(p).drop_first() =~= pairs.drop_first().push(p));
        lemma_members_push(pairs.drop_first(), p);
        if pairs.len() == 1 {
            assert(spec_json_members(pairs.push(p)) =~= spec_json_members(pairs) + seq![',']
                + spec_json_member(p.0, p.1));
        } else {
            assert(spec_json_members(pairs.push(p)) =~= spec_json_members(pairs) + seq![',']
                + spec_json_member(p.0, p.1));
        }
    }
}

/// The views of a pair vector: each `(String, String)` as its two
/// character sequences.
pub open spec fn spec_pairs_view(pairs: Seq<(String, String)>) -> Seq<(Seq<char>, Seq<char>)> {
    pairs.map_values(|p: (String, String)| (p.0@, p.1@))
}

/// Encode `pairs` as the flat JSON object `{"k": "v", ...}`, in order.
pub fn encode_json_object(pairs: &Vec<(String, String)>) -> (r: String)
    ensures
        r@ == spec_json_object(spec_pairs_view(pairs@)),
{
    let ghost m = spec_pairs_view(pairs@);
    let mut out: Vec<char> = Vec::new();
    out.push('{');
    let mut i: usize = 0;
    while i < pairs.len()
        invariant
            i <= pairs@.len(),
            m == spec_pairs_view(pairs@),
            out@ == seq!['{'] + spec_json_members(m.take(i as int)),
        decreases pairs.len() - i,
    {
        if i > 0 {
            out.push(',');
        }
        out.push('"');
        let k = chars_of_str(pairs[i].0.as_str());
        push_json_escaped(&mut out, &k);
        out.push('"');
        out.push(':');
        out.push('"');
        let v = chars_of_str(pairs[i].1.as_str());
        push_json_escaped(&mut out, &v);
        out.push('"');
        proof {
            lemma_members_push(m.take(i as int), m[i as int]);
            assert(m.take(i + 1) =~= m.take(i as int).push(m[i as int]));
            assert(out@ =~= seq!['{'] + spec_json_members(m.take(i + 1)));
        }
        i += 1;
    }
    out.push('}');
    proof {
        assert(m.take(m.len() as int) =~= m);
        assert(out@ =~= spec_json_object(m));
    }
    string_from_chars(&out)
}

} // verus!
