//! Character-level text utilities: conversions between `String` and
//! `Vec<char>`, substring search, and stem sanitization.

use vstd::prelude::*;
use vstd::string::*;

verus! {

/// Whether `c` counts as alphanumeric, as `char::is_alphanumeric` decides it.
pub uninterp spec fn is_alnum_char(c: char) -> bool;

/// Whether `c` counts as whitespace, as `char::is_whitespace` decides it.
pub uninterp spec fn is_space_char(c: char) -> bool;

/// Relies on `char::is_alphanumeric`: the result depends on the character alone.
#[verifier::external_body]
pub fn char_is_alnum(c: char) -> (r: bool)
    ensures
        r == is_alnum_char(c),
{
    c.is_alphanumeric()
}

/// Relies on `char::is_whitespace`: the result depends on the character alone.
#[verifier::external_body]
pub fn char_is_space(c: char) -> (r: bool)
    ensures
        r == is_space_char(c),
{
    c.is_whitespace()
}

/// Relies on `String: FromIterator<char>` (`collect`): the resulting string
/// holds exactly the characters of `v` in order.
#[verifier::external_body]
pub fn string_from_chars(v: &Vec<char>) -> (s: String)
    ensures
        s@ == v@,
{
    v.iter().collect()
}

/// The characters of `s`, as a vector.
pub fn chars_of_str(s: &str) -> (v: Vec<char>)
    ensures
        v@ == s@,
{
    let n = s.unicode_len();
    let mut v: Vec<char> = Vec::new();
    let mut i: usize = 0;
    while i < n
        invariant
            i <= n,
            n == s@.len(),
            v@ == s@.take(i as int),
        decreases n - i,
    {
        v.push(s.get_char(i));
        assert(v@ =~= s@.take(i + 1));
        i += 1;
    }
    assert(s@.take(n as int) =~= s@);
    v
}

/// Append the characters of `s` to `out`.
pub fn push_str_chars(out: &mut Vec<char>, s: &str)
    ensures
        final(out)@ == old(out)@ + s@,
{
    let n = s.unicode_len();
    let mut i: usize = 0;
    while i < n
        invariant
            i <= n,
            n == s@.len(),
            out@ == old(out)@ + s@.take(i as int),
        decreases n - i,
    {
        out.push(s.get_char(i));
        assert(out@ =~= old(out)@ + s@.take(i + 1));
        i += 1;
    }
    assert(s@.take(n as int) =~= s@);
}

/// Append a slice of `src` to `out`.
pub fn push_range(out: &mut Vec<char>, src: &Vec<char>, from: usize, to: usize)
    requires
        from <= to <= src@.len(),
    ensures
        final(out)@ == old(out)@ + src@.subrange(from as int, to as int),
{
    let mut i: usize = from;
    while i < to
        invariant
            from <= i <= to <= src@.len(),
            out@ == old(out)@ + src@.subrange(from as int, i as int),
        decreases to - i,
    {
        out.push(src[i]);
        assert(out@ =~= old(out)@ + src@.subrange(from as int, i + 1));
        i += 1;
    }
}

/// `needle` occurs in `hay` starting at position `i`.
pub open spec fn spec_occurs_at(hay: Seq<char>, needle: Seq<char>, i: int) -> bool {
    0 <= i && i + needle.len() <= hay.len() && hay.subrange(i, i + needle.len()) == needle
}

/// `needle` occurs somewhere in `hay`.
pub open spec fn spec_contains_seq(hay: Seq<char>, needle: Seq<char>) -> bool {
    exists|i: int| spec_occurs_at(hay, needle, i)
}

fn matches_at(hay: &Vec<char>, needle: &Vec<char>, i: usize) -> (r: bool)
    requires
        i + needle@.len() <= hay@.len(),
    ensures
        r == spec_occurs_at(hay@, needle@, i as int),
{
    let hlen = hay.len();
    let nlen = needle.len();
    let mut j: usize = 0;
    while j < nlen
        invariant
            j <= nlen,
            nlen == needle@.len(),
            hlen == hay@.len(),
            i + nlen <= hlen,
            hay@.subrange(i as int, i + j) =~= needle@.take(j as int),
        decreases nlen - j,
    {
        if hay[i + j] != needle[j] {
            assert(!spec_occurs_at(hay@, needle@, i as int)) by {
                if hay@.subrange(i as int, i + needle@.len()) == needle@ {
                    assert(hay@.subrange(i as int, i + needle@.len())[j as int] == needle@[j as int]);
                }
            }
            return false;
        }
        assert(hay@.subrange(i as int, i + j + 1) =~= needle@.take(j + 1));
        j += 1;
    }
    assert(hay@.subrange(i as int, i + needle@.len()) =~= needle@);
    true
}

/// Does `needle` occur anywhere in `hay`?
pub fn contains_chars(hay: &Vec<char>, needle: &Vec<char>) -> (r: bool)
    ensures
        r == spec_contains_seq(hay@, needle@),
{
    if needle.len() == 0 {
        assert(spec_occurs_at(hay@, needle@, 0)) by {
            assert(hay@.subrange(0, 0) =~= needle@);
        }
        return true;
    }
    if needle.len() > hay.len() {
        assert(!spec_contains_seq(hay@, needle@)) by {
            assert(forall|i: int| !spec_occurs_at(hay@, needle@, i));
        }
        return false;
    }
    let last = hay.len() - needle.len();
    let mut i: usize = 0;
    while i <= last
        invariant
            needle@.len() >= 1,
            i <= last + 1,
            last == hay@.len() - needle@.len(),
            hay@.len() <= usize::MAX,
            forall|k: int| 0 <= k < i ==> !spec_occurs_at(hay@, needle@, k),
        decreases last - i + 1,
    {
        if matches_at(hay, needle, i) {
            return true;
        }
        i += 1;
    }
    assert(forall|k: int| !spec_occurs_at(hay@, needle@, k));
    false
}

/// The first position of `c` in `v`, if any.
pub fn find_char(v: &Vec<char>, c: char) -> (r: Option<usize>)
    ensures
        match r {
            Some(i) => i < v@.len() && v@[i as int] == c && forall|k: int|
                0 <= k < i ==> v@[k] != c,
            None => forall|k: int| 0 <= k < v@.len() ==> v@[k] != c,
        },
{
    let mut i: usize = 0;
    while i < v.len()
        invariant
            i <= v@.len(),
            forall|k: int| 0 <= k < i ==> v@[k] != c,
        decreases v.len() - i,
    {
        if v[i] == c {
            return Some(i);
        }
        i += 1;
    }
    None
}

/// The last position of `c` in `v`, if any.
pub fn rfind_char(v: &Vec<char>, c: char) -> (r: Option<usize>)
    ensures
        match r {
            Some(i) => i < v@.len() && v@[i as int] == c && forall|k: int|
                i < k < v@.len() ==> v@[k] != c,
            None => forall|k: int| 0 <= k < v@.len() ==> v@[k] != c,
        },
{
    let mut i: usize = v.len();
    while i > 0
        invariant
            i <= v@.len(),
            forall|k: int| i <= k < v@.len() ==> v@[k] != c,
        decreases i,
    {
        i -= 1;
        if v[i] == c {
            return Some(i);
        }
    }
    None
}

/// Every character of `s` is whitespace (an empty `s` counts).
pub open spec fn spec_is_blank(s: Seq<char>) -> bool {
    forall|i: int| 0 <= i < s.len() ==> is_space_char(#[trigger] s[i])
}

/// Is `v` empty or whitespace only?
pub fn is_blank_chars(v: &Vec<char>) -> (r: bool)
    ensures
        r == spec_is_blank(v@),
{
    let mut i: usize = 0;
    while i < v.len()
        invariant
            i <= v@.len(),
            forall|k: int| 0 <= k < i ==> is_space_char(#[trigger] v@[k]),
        decreases v.len() - i,
    {
        if !char_is_space(v[i]) {
            return false;
        }
        i += 1;
    }
    true
}

/// `parts` joined by `sep`.
pub open spec fn spec_join_with(parts: Seq<Seq<char>>, sep: Seq<char>) -> Seq<char>
    decreases parts.len(),
{
    if parts.len() == 0 {
        Seq::empty()
    } else if parts.len() == 1 {
        parts[0]
    } else {
        parts[0] + sep + spec_join_with(parts.drop_first(), sep)
    }
}

proof fn lemma_join_push(parts: Seq<Seq<char>>, sep: Seq<char>, p: Seq<char>)
    ensures
        parts.len() == 0 ==> spec_join_with(parts.push(p), sep) == p,
        parts.len() > 0 ==> spec_join_with(parts.push(p), sep) == spec_join_with(parts, sep) + sep
            + p,
    decreases parts.len(),
{
    if parts.len() == 0 {
        assert(parts.push(p) =~= seq![p]);
    } else {
        assert(parts.push(p)[0] == parts[0]);
        assert(parts.push(p).drop_first() =~= parts.drop_first().push(p));
        lemma_join_push(parts.drop_first(), sep, p);
        if parts.len() == 1 {
            assert(spec_join_with(parts.push(p), sep) =~= spec_join_with(parts, sep) + sep + p);
        } else {
            assert(spec_join_with(parts.push(p), sep) =~= spec_join_with(parts, sep) + sep + p);
        }
    }
}

/// The views of a string vector.
pub open spec fn spec_views_of(parts: Seq<String>) -> Seq<Seq<char>> {
    parts.map_values(|s: String| s@)
}

/// Join `parts` with the separator `sep`.
pub fn join_with(parts: &Vec<String>, sep: &str) -> (r: String)
    ensures
        r@ == spec_join_with(spec_views_of(parts@), sep@),
{
    let ghost m = spec_views_of(parts@);
    let mut out: Vec<char> = Vec::new();
    let mut i: usize = 0;
    while i < parts.len()
        invariant
            i <= parts@.len(),
            m == spec_views_of(parts@),
            out@ == spec_join_with(m.take(i as int), sep@),
        decreases parts.len() - i,
    {
        if i > 0 {
            push_str_chars(&mut out, sep);
        }
        push_str_chars(&mut out, parts[i].as_str());
        proof {
            lemma_join_push(m.take(i as int), sep@, m[i as int]);
            assert(m.take(i + 1) =~= m.take(i as int).push(m[i as int]));
            if i == 0 {
                assert(out@ =~= spec_join_with(m.take(i + 1), sep@));
            } else {
                assert(out@ =~= spec_join_with(m.take(i + 1), sep@));
            }
        }
        i += 1;
    }
    proof {
        assert(m.take(m.len() as int) =~= m);
    }
    string_from_chars(&out)
}

/// A stem character is kept when alphanumeric, `-` or `_`; anything else
/// becomes `_`.
pub open spec fn spec_sanitize_char(c: char) -> char {
    if is_alnum_char(c) || c == '-' || c == '_' {
        c
    } else {
        '_'
    }
}

/// Sanitize a file stem: keep alphanumeric characters, `-` and `_`; replace
/// every other character with `_`.
pub fn sanitize_stem(s: &str) -> (r: String)
    ensures
        r@ == s@.map_values(|c: char| spec_sanitize_char(c)),
{
    let v = chars_of_str(s);
    let mut out: Vec<char> = Vec::new();
    let mut i: usize = 0;
    while i < v.len()
        invariant
            i <= v@.len(),
            v@ == s@,
            out@ == s@.take(i as int).map_values(|c: char| spec_sanitize_char(c)),
        decreases v.len() - i,
    {
        let c = v[i];
        if char_is_alnum(c) || c == '-' || c == '_' {
            out.push(c);
        } else {
            out.push('_');
        }
        assert(out@ =~= s@.take(i + 1).map_values(|c: char| spec_sanitize_char(c)));
        i += 1;
    }
    assert(s@.take(s@.len() as int) =~= s@);
    assert(out@ =~= s@.map_values(|c: char| spec_sanitize_char(c)));
    string_from_chars(&out)
}

} // verus!
