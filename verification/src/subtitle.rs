//! Subtitles in integer milliseconds, the SRT codec, and the assembly of
//! translated output.

use vstd::prelude::*;
use vstd::string::*;
use crate::chars::{push_str_chars, string_from_chars};
use crate::num::{push_dec, push_dec_pad, spec_dec, spec_dec_pad};

verus! {

/// One timecoded subtitle line, times in milliseconds.
#[derive(Debug, Clone, PartialEq, Eq)]
pub struct SubtitleItem {
    pub id: u32,
    pub start_ms: u64,
    pub end_ms: u64,
    pub text: String,
}

/// The SRT timestamp of an instant: `HH:MM:SS,mmm`, hours unbounded.
pub open spec fn spec_srt_time(t: nat) -> Seq<char> {
    spec_dec_pad(t / 3600000, 2) + ":"@ + spec_dec_pad((t / 60000) % 60, 2) + ":"@ + spec_dec_pad(
        (t / 1000) % 60,
        2,
    ) + ","@ + spec_dec_pad(t % 1000, 3)
}

/// Format an instant as an SRT timestamp.
pub fn srt_time(total_ms: u64) -> (r: String)
    ensures
        r@ == spec_srt_time(total_ms as nat),
{
    let mut out: Vec<char> = Vec::new();
    push_dec_pad(total_ms / 3600000, 2, &mut out);
    push_str_chars(&mut out, ":");
    push_dec_pad((total_ms / 60000) % 60, 2, &mut out);
    push_str_chars(&mut out, ":");
    push_dec_pad((total_ms / 1000) % 60, 2, &mut out);
    push_str_chars(&mut out, ",");
    push_dec_pad(total_ms % 1000, 3, &mut out);
    proof {
        assert(out@ =~= spec_srt_time(total_ms as nat));
    }
    string_from_chars(&out)
}

/// One encoded SRT entry: index line, time line, text, blank line.
pub open spec fn spec_srt_entry(sub: SubtitleItem) -> Seq<char> {
    spec_dec(sub.id as nat) + "\n"@ + spec_srt_time(sub.start_ms as nat) + " --> "@
        + spec_srt_time(sub.end_ms as nat) + "\n"@ + sub.text@ + "\n\n"@
}

/// A whole SRT document: the entries in order.
pub open spec fn spec_srt_doc(subs: Seq<SubtitleItem>) -> Seq<char>
    decreases subs.len(),
{
    if subs.len() == 0 {
        Seq::empty()
    } else {
        spec_srt_entry(subs[0]) + spec_srt_doc(subs.drop_first())
    }
}

proof fn lemma_srt_doc_push(subs: Seq<SubtitleItem>, sub: SubtitleItem)
    ensures
        spec_srt_doc(subs.push(sub)) == spec_srt_doc(subs) + spec_srt_entry(sub),
    decreases subs.len(),
{
    let t = subs.push(sub);
    if subs.len() == 0 {
        assert(t[0] == sub);
        assert(t.drop_first() =~= Seq::<SubtitleItem>::empty());
        assert(spec_srt_doc(Seq::<SubtitleItem>::empty()) == Seq::<char>::empty());
        assert(spec_srt_doc(t) == spec_srt_entry(sub) + spec_srt_doc(t.drop_first()));
        assert(spec_srt_doc(t) =~= spec_srt_doc(subs) + spec_srt_entry(sub));
    } else {
        assert(t[0] == subs[0]);
        assert(t.drop_first() =~= subs.drop_first().push(sub));
        lemma_srt_doc_push(subs.drop_first(), sub);
        assert(spec_srt_doc(t) == spec_srt_entry(subs[0]) + (spec_srt_doc(subs.drop_first())
            + spec_srt_entry(sub)));
        assert(spec_srt_doc(subs) == spec_srt_entry(subs[0]) + spec_srt_doc(subs.drop_first()));
        assert(spec_srt_doc(t) =~= spec_srt_doc(subs) + spec_srt_entry(sub));
    }
}

/// Encode subtitles as an SRT document.
pub fn build_srt(subtitles: &Vec<SubtitleItem>) -> (r: String)
    ensures
        r@ == spec_srt_doc(subtitles@),
{
    let mut out: Vec<char> = Vec::new();
    let mut i: usize = 0;
    proof {
        assert(out@ =~= spec_srt_doc(subtitles@.take(0)));
    }
    while i < subtitles.len()
        invariant
            i <= subtitles@.len(),
            out@ == spec_srt_doc(subtitles@.take(i as int)),
        decreases subtitles.len() - i,
    {
        let sub = &subtitles[i];
        push_dec(sub.id as u64, &mut out);
        push_str_chars(&mut out, "\n");
        let st = srt_time(sub.start_ms);
        push_str_chars(&mut out, st.as_str());
        push_str_chars(&mut out, " --> ");
        let et = srt_time(sub.end_ms);
        push_str_chars(&mut out, et.as_str());
        push_str_chars(&mut out, "\n");
        push_str_chars(&mut out, sub.text.as_str());
        push_str_chars(&mut out, "\n\n");
        proof {
            lemma_srt_doc_push(subtitles@.take(i as int), subtitles@[i as int]);
            assert(subtitles@.take(i + 1) =~= subtitles@.take(i as int).push(
                subtitles@[i as int],
            ));
            assert(out@ =~= spec_srt_doc(subtitles@.take(i + 1)));
        }
        i += 1;
    }
    proof {
        assert(subtitles@.take(subtitles@.len() as int) =~= subtitles@);
    }
    string_from_chars(&out)
}

// ── Decoding ────────────────────────────────────────────────────────────────

/// End of the digit run starting at `i`: the first position at or after
/// `i` holding no digit.
pub open spec fn spec_run_end(s: Seq<char>, i: int) -> int
    decreases s.len() - i,
{
    if i < 0 || i >= s.len() {
        i
    } else if crate::num::spec_is_digit(s[i]) {
        spec_run_end(s, i + 1)
    } else {
        i
    }
}

/// The number read at `i`: its digit run's value and the position after.
pub open spec fn spec_scan_number(s: Seq<char>, i: int) -> Option<(nat, int)> {
    let j = spec_run_end(s, i);
    if j == i {
        None
    } else {
        Some((crate::num::spec_dec_val(s.subrange(i, j)), j))
    }
}

/// The literal expected at `i`: the position after it when it is there.
pub open spec fn spec_expect(s: Seq<char>, i: int, lit: Seq<char>) -> Option<int> {
    if 0 <= i && i + lit.len() <= s.len() && s.subrange(i, i + lit.len()) == lit {
        Some(i + lit.len())
    } else {
        None
    }
}

/// The timestamp read at `i`: hours, `:`, minutes, `:`, seconds, `,`,
/// milliseconds — recombined into one instant in milliseconds.
pub open spec fn spec_scan_time(s: Seq<char>, i: int) -> Option<(nat, int)> {
    match spec_scan_number(s, i) {
        None => None,
        Some((h, i1)) => match spec_expect(s, i1, ":"@) {
            None => None,
            Some(i2) => match spec_scan_number(s, i2) {
                None => None,
                Some((m, i3)) => match spec_expect(s, i3, ":"@) {
                    None => None,
                    Some(i4) => match spec_scan_number(s, i4) {
                        None => None,
                        Some((sec, i5)) => match spec_expect(s, i5, ","@) {
                            None => None,
                            Some(i6) => match spec_scan_number(s, i6) {
                                None => None,
                                Some((f, i7)) => Some(
                                    (h * 3600000 + m * 60000 + sec * 1000 + f, i7),
                                ),
                            },
                        },
                    },
                },
            },
        },
    }
}

/// Decoding one encoded SRT entry: the index line, the two timestamps,
/// and the text up to the closing blank line (which must be the only
/// blank line of the entry).
pub open spec fn spec_decode_srt_entry(s: Seq<char>) -> Option<(nat, nat, nat, Seq<char>)> {
    match spec_scan_number(s, 0) {
        None => None,
        Some((id, i1)) => match spec_expect(s, i1, "\n"@) {
            None => None,
            Some(i2) => match spec_scan_time(s, i2) {
                None => None,
                Some((st, i3)) => match spec_expect(s, i3, " --> "@) {
                    None => None,
                    Some(i4) => match spec_scan_time(s, i4) {
                        None => None,
                        Some((et, i5)) => match spec_expect(s, i5, "\n"@) {
                            None => None,
                            Some(i6) => {
                                if s.len() >= i6 + 2 && s.subrange(s.len() - 2, s.len() as int)
                                    == "\n\n"@ && (forall|k: int|
                                    i6 <= k < s.len() - 2 ==> !((#[trigger] s[k]) == '\n' && s[k
                                        + 1] == '\n')) {
                                    Some((id, st, et, s.subrange(i6, s.len() - 2)))
                                } else {
                                    None
                                }
                            },
                        },
                    },
                },
            },
        },
    }
}

/// The digit run's basic properties: it stays inside the text and covers
/// digits only.
proof fn lemma_run_end_props(s: Seq<char>, i: int)
    requires
        0 <= i <= s.len(),
    ensures
        i <= spec_run_end(s, i) <= s.len(),
        forall|k: int| i <= k < spec_run_end(s, i) ==> crate::num::spec_is_digit(#[trigger] s[k]),
    decreases s.len() - i,
{
    if i < s.len() && crate::num::spec_is_digit(s[i]) {
        lemma_run_end_props(s, i + 1);
    }
}

/// A digit run from `i` to `j` with a non-digit (or the end) at `j` ends
/// exactly at `j`.
proof fn lemma_run_end_is(s: Seq<char>, i: int, j: int)
    requires
        0 <= i <= j <= s.len(),
        forall|k: int| i <= k < j ==> crate::num::spec_is_digit(#[trigger] s[k]),
        j == s.len() || !crate::num::spec_is_digit(s[j]),
    ensures
        spec_run_end(s, i) == j,
    decreases j - i,
{
    if i < j {
        lemma_run_end_is(s, i + 1, j);
    }
}

/// Zero digits in front change no value.
proof fn lemma_dec_val_zeros(k: nat)
    ensures
        crate::num::spec_dec_val(crate::num::seq_repeat_zero(k)) == 0,
    decreases k,
{
    if k > 0 {
        let z = crate::num::seq_repeat_zero(k);
        assert(z.drop_last() =~= crate::num::seq_repeat_zero((k - 1) as nat));
        lemma_dec_val_zeros((k - 1) as nat);
        assert(z.last() == '0');
        assert('0' as u32 == 48);
    }
}

proof fn lemma_dec_val_zero_prefix(k: nat, s: Seq<char>)
    ensures
        crate::num::spec_dec_val(crate::num::seq_repeat_zero(k) + s) == crate::num::spec_dec_val(
            s,
        ),
    decreases s.len(),
{
    let z = crate::num::seq_repeat_zero(k);
    if s.len() == 0 {
        assert(z + s =~= z);
        lemma_dec_val_zeros(k);
    } else {
        assert((z + s).drop_last() =~= z + s.drop_last());
        assert((z + s).last() == s.last());
        lemma_dec_val_zero_prefix(k, s.drop_last());
    }
}

/// A zero-padded number still reads back as itself, in digits only.
proof fn lemma_dec_pad_val(n: nat, w: nat)
    ensures
        crate::num::spec_dec_val(crate::num::spec_dec_pad(n, w)) == n,
        crate::num::spec_all_digits(crate::num::spec_dec_pad(n, w)),
        crate::num::spec_dec_pad(n, w).len() >= 1,
{
    crate::num::lemma_spec_dec_digits(n);
    crate::num::lemma_dec_round_trip(n);
    let d = crate::num::spec_dec(n);
    if d.len() < w {
        let k = (w - d.len()) as nat;
        lemma_dec_val_zero_prefix(k, d);
        assert(crate::num::spec_all_digits(crate::num::seq_repeat_zero(k) + d)) by {
            assert('0' as u32 == 48);
        }
    }
}

/// Reading a placed number: a window holding only digits, bounded by a
/// non-digit, scans to its value.
proof fn lemma_scan_number_at(s: Seq<char>, i: int, j: int, n: nat)
    requires
        0 <= i < j <= s.len(),
        forall|k: int| i <= k < j ==> crate::num::spec_is_digit(#[trigger] s[k]),
        j == s.len() || !crate::num::spec_is_digit(s[j]),
        crate::num::spec_dec_val(s.subrange(i, j)) == n,
    ensures
        spec_scan_number(s, i) == Some((n, j)),
{
    lemma_run_end_is(s, i, j);
}

/// Reading a placed timestamp: a window holding `spec_srt_time(t)`,
/// bounded by a non-digit, scans back to `t`.
#[verifier::rlimit(100)]
#[verifier::spinoff_prover]
proof fn lemma_scan_time_at(s: Seq<char>, i: int, t: nat)
    requires
        0 <= i,
        i + spec_srt_time(t).len() <= s.len(),
        s.subrange(i, i + spec_srt_time(t).len()) == spec_srt_time(t),
        i + spec_srt_time(t).len() == s.len() || !crate::num::spec_is_digit(
            s[i + spec_srt_time(t).len()],
        ),
    ensures
        spec_scan_time(s, i) == Some((t, i + spec_srt_time(t).len())),
{
    reveal_strlit(":");
    reveal_strlit(",");
    assert(":"@.len() == 1 && ","@.len() == 1);
    assert(':' as u32 == 58 && ',' as u32 == 44);
    let p1 = crate::num::spec_dec_pad(t / 3600000, 2);
    let p2 = crate::num::spec_dec_pad((t / 60000) % 60, 2);
    let p3 = crate::num::spec_dec_pad((t / 1000) % 60, 2);
    let p4 = crate::num::spec_dec_pad(t % 1000, 3);
    lemma_dec_pad_val(t / 3600000, 2);
    lemma_dec_pad_val((t / 60000) % 60, 2);
    lemma_dec_pad_val((t / 1000) % 60, 2);
    lemma_dec_pad_val(t % 1000, 3);
    let w = spec_srt_time(t);
    assert(w.len() == p1.len() + 1 + p2.len() + 1 + p3.len() + 1 + p4.len());
    let o1 = i + p1.len();
    let o2 = o1 + 1;
    let o3 = o2 + p2.len();
    let o4 = o3 + 1;
    let o5 = o4 + p3.len();
    let o6 = o5 + 1;
    let o7 = o6 + p4.len();
    assert forall|k: int| i <= k < o1 implies crate::num::spec_is_digit(#[trigger] s[k]) by {
        assert(s[k] == w[k - i]);
        assert(w[k - i] == p1[k - i]);
    }
    assert(s[o1] == ':') by {
        assert(s[o1] == w[o1 - i]);
    }
    assert(s.subrange(i, o1) =~= p1) by {
        assert forall|k: int| 0 <= k < p1.len() implies s.subrange(i, o1)[k] == p1[k] by {
            assert(s[i + k] == w[i + k - i]);
        }
    }
    lemma_scan_number_at(s, i, o1, t / 3600000);
    assert(spec_expect(s, o1, ":"@) == Some(o2)) by {
        assert(s.subrange(o1, o1 + 1) =~= ":"@);
    }
    assert forall|k: int| o2 <= k < o3 implies crate::num::spec_is_digit(#[trigger] s[k]) by {
        assert(s[k] == w[k - i]);
        assert(w[k - i] == p2[k - o2]);
    }
    assert(s[o3] == ':') by {
        assert(s[o3] == w[o3 - i]);
    }
    assert(s.subrange(o2, o3) =~= p2) by {
        assert forall|k: int| 0 <= k < p2.len() implies s.subrange(o2, o3)[k] == p2[k] by {
            assert(s[o2 + k] == w[o2 + k - i]);
        }
    }
    lemma_scan_number_at(s, o2, o3, (t / 60000) % 60);
    assert(spec_expect(s, o3, ":"@) == Some(o4)) by {
        assert(s.subrange(o3, o3 + 1) =~= ":"@);
    }
    assert forall|k: int| o4 <= k < o5 implies crate::num::spec_is_digit(#[trigger] s[k]) by {
        assert(s[k] == w[k - i]);
        assert(w[k - i] == p3[k - o4]);
    }
    assert(s[o5] == ',') by {
        assert(s[o5] == w[o5 - i]);
    }
    assert(s.subrange(o4, o5) =~= p3) by {
        assert forall|k: int| 0 <= k < p3.len() implies s.subrange(o4, o5)[k] == p3[k] by {
            assert(s[o4 + k] == w[o4 + k - i]);
        }
    }
    lemma_scan_number_at(s, o4, o5, (t / 1000) % 60);
    assert(spec_expect(s, o5, ","@) == Some(o6)) by {
        assert(s.subrange(o5, o5 + 1) =~= ","@);
    }
    assert forall|k: int| o6 <= k < o7 implies crate::num::spec_is_digit(#[trigger] s[k]) by {
        assert(s[k] == w[k - i]);
        assert(w[k - i] == p4[k - o6]);
    }
    assert(s.subrange(o6, o7) =~= p4) by {
        assert forall|k: int| 0 <= k < p4.len() implies s.subrange(o6, o7)[k] == p4[k] by {
            assert(s[o6 + k] == w[o6 + k - i]);
        }
    }
    lemma_scan_number_at(s, o6, o7, t % 1000);
    lemma_time_recompose(t);
}

/// An instant splits into hours, minutes, seconds and milliseconds and
/// back.
proof fn lemma_time_recompose(t: nat)
    ensures
        (t / 3600000) * 3600000 + ((t / 60000) % 60) * 60000 + ((t / 1000) % 60) * 1000 + t % 1000
            == t,
{
    vstd::arithmetic::div_mod::lemma_fundamental_div_mod(t as int, 1000);
    vstd::arithmetic::div_mod::lemma_fundamental_div_mod(t as int / 1000, 60);
    vstd::arithmetic::div_mod::lemma_fundamental_div_mod(t as int / 60000, 60);
    vstd::arithmetic::div_mod::lemma_div_denominator(t as int, 1000, 60);
    vstd::arithmetic::div_mod::lemma_div_denominator(t as int, 60000, 60);
}

/// Offsets of the pieces of an encoded entry.
pub open spec fn spec_entry_off1(sub: SubtitleItem) -> int {
    spec_dec(sub.id as nat).len() as int
}

pub open spec fn spec_entry_off2(sub: SubtitleItem) -> int {
    spec_entry_off1(sub) + 1
}

pub open spec fn spec_entry_off3(sub: SubtitleItem) -> int {
    spec_entry_off2(sub) + spec_srt_time(sub.start_ms as nat).len()
}

pub open spec fn spec_entry_off4(sub: SubtitleItem) -> int {
    spec_entry_off3(sub) + 5
}

pub open spec fn spec_entry_off5(sub: SubtitleItem) -> int {
    spec_entry_off4(sub) + spec_srt_time(sub.end_ms as nat).len()
}

pub open spec fn spec_entry_off6(sub: SubtitleItem) -> int {
    spec_entry_off5(sub) + 1
}

#[verifier::rlimit(100)]
#[verifier::spinoff_prover]
proof fn lemma_entry_head(sub: SubtitleItem)
    ensures
        spec_scan_number(spec_srt_entry(sub), 0) == Some(
            ((sub.id as nat), spec_entry_off1(sub)),
        ),
        spec_expect(spec_srt_entry(sub), spec_entry_off1(sub), "\n"@) == Some(
            spec_entry_off2(sub),
        ),
{
    reveal_strlit("\n");
    assert("\n"@.len() == 1 && "\n"@[0] == '\n');
    assert('\n' as u32 == 10);
    let s = spec_srt_entry(sub);
    let a = spec_dec(sub.id as nat);
    let a1 = spec_entry_off1(sub);
    crate::num::lemma_spec_dec_digits(sub.id as nat);
    crate::num::lemma_dec_round_trip(sub.id as nat);
    assert forall|k: int| 0 <= k < a1 implies crate::num::spec_is_digit(#[trigger] s[k]) by {
        assert(s[k] == a[k]);
    }
    assert(s[a1] == '\n');
    assert(s.subrange(0, a1) =~= a);
    lemma_scan_number_at(s, 0, a1, sub.id as nat);
    assert(s.subrange(a1, a1 + 1) =~= "\n"@);
}

#[verifier::rlimit(100)]
#[verifier::spinoff_prover]
proof fn lemma_entry_time1(sub: SubtitleItem)
    ensures
        spec_scan_time(spec_srt_entry(sub), spec_entry_off2(sub)) == Some(
            ((sub.start_ms as nat), spec_entry_off3(sub)),
        ),
        spec_expect(spec_srt_entry(sub), spec_entry_off3(sub), " --> "@) == Some(
            spec_entry_off4(sub),
        ),
{
    reveal_strlit("\n");
    reveal_strlit(" --> ");
    reveal_strlit("\n\n");
    assert("\n"@.len() == 1 && " --> "@.len() == 5 && "\n\n"@.len() == 2);
    assert(" --> "@[0] == ' ');
    assert(' ' as u32 == 32);
    let s = spec_srt_entry(sub);
    let t1 = spec_srt_time(sub.start_ms as nat);
    let a2 = spec_entry_off2(sub);
    let a3 = spec_entry_off3(sub);
    assert(s.subrange(a2, a3) =~= t1) by {
        assert forall|k: int| 0 <= k < t1.len() implies s.subrange(a2, a3)[k] == t1[k] by {
            assert(s[a2 + k] == t1[k]);
        }
    }
    assert(s[a3] == ' ');
    lemma_scan_time_at(s, a2, sub.start_ms as nat);
    assert(s.subrange(a3, a3 + 5) =~= " --> "@);
}

#[verifier::rlimit(100)]
#[verifier::spinoff_prover]
proof fn lemma_entry_time2_scan(sub: SubtitleItem)
    ensures
        spec_scan_time(spec_srt_entry(sub), spec_entry_off4(sub)) == Some(
            ((sub.end_ms as nat), spec_entry_off5(sub)),
        ),
{
    reveal_strlit("\n");
    reveal_strlit(" --> ");
    reveal_strlit("\n\n");
    assert("\n"@.len() == 1 && " --> "@.len() == 5 && "\n\n"@.len() == 2);
    assert("\n"@[0] == '\n');
    assert('\n' as u32 == 10);
    let s = spec_srt_entry(sub);
    let t2 = spec_srt_time(sub.end_ms as nat);
    let a4 = spec_entry_off4(sub);
    let a5 = spec_entry_off5(sub);
    assert(s.subrange(a4, a5) =~= t2) by {
        assert forall|k: int| 0 <= k < t2.len() implies s.subrange(a4, a5)[k] == t2[k] by {
            assert(s[a4 + k] == t2[k]);
        }
    }
    assert(s[a5] == '\n');
    lemma_scan_time_at(s, a4, sub.end_ms as nat);
}

#[verifier::rlimit(100)]
#[verifier::spinoff_prover]
proof fn lemma_entry_time2_expect(sub: SubtitleItem)
    ensures
        spec_expect(spec_srt_entry(sub), spec_entry_off5(sub), "\n"@) == Some(
            spec_entry_off6(sub),
        ),
{
    reveal_strlit("\n");
    reveal_strlit(" --> ");
    reveal_strlit("\n\n");
    assert("\n"@.len() == 1 && " --> "@.len() == 5 && "\n\n"@.len() == 2);
    assert("\n"@[0] == '\n');
    let s = spec_srt_entry(sub);
    let a5 = spec_entry_off5(sub);
    assert(s.subrange(a5, a5 + 1) =~= "\n"@);
}

#[verifier::rlimit(100)]
#[verifier::spinoff_prover]
proof fn lemma_entry_tail(sub: SubtitleItem)
    requires
        forall|k: int|
            0 <= k < sub.text@.len() - 1 ==> !((#[trigger] sub.text@[k]) == '\n' && sub.text@[k
                + 1] == '\n'),
        sub.text@.len() > 0 ==> sub.text@.last() != '\n',
    ensures
        spec_srt_entry(sub).len() == spec_entry_off6(sub) + sub.text@.len() + 2,
        spec_srt_entry(sub).subrange(
            spec_srt_entry(sub).len() - 2,
            spec_srt_entry(sub).len() as int,
        ) == "\n\n"@,
        forall|k: int|
            spec_entry_off6(sub) <= k < spec_srt_entry(sub).len() - 2 ==> !((#[trigger] spec_srt_entry(
                sub,
            )[k]) == '\n' && spec_srt_entry(sub)[k + 1] == '\n'),
        spec_srt_entry(sub).subrange(spec_entry_off6(sub), spec_srt_entry(sub).len() - 2)
            == sub.text@,
{
    reveal_strlit("\n");
    reveal_strlit(" --> ");
    reveal_strlit("\n\n");
    assert("\n"@.len() == 1 && " --> "@.len() == 5 && "\n\n"@.len() == 2);
    assert("\n\n"@[0] == '\n' && "\n\n"@[1] == '\n');
    let s = spec_srt_entry(sub);
    let x = sub.text@;
    let a6 = spec_entry_off6(sub);
    assert(s.len() == a6 + x.len() + 2);
    assert(s.subrange(s.len() - 2, s.len() as int) =~= "\n\n"@);
    assert forall|k: int|
        a6 <= k < s.len() - 2 implies !((#[trigger] s[k]) == '\n' && s[k + 1] == '\n') by {
        assert(s[k] == x[k - a6]);
        if k < s.len() - 3 {
            assert(s[k + 1] == x[k + 1 - a6]);
        } else {
            assert(x[k - a6] == x.last());
        }
    }
    assert(s.subrange(a6, s.len() - 2) =~= x);
}

/// The SRT round trip: decoding an encoded entry recovers the subtitle's
/// id, both timestamps to the millisecond, and its text — for every
/// subtitle whose text holds no blank line and no trailing line break.
#[verifier::rlimit(100)]
#[verifier::spinoff_prover]
pub proof fn lemma_srt_entry_round_trip(sub: SubtitleItem)
    requires
        forall|k: int|
            0 <= k < sub.text@.len() - 1 ==> !((#[trigger] sub.text@[k]) == '\n' && sub.text@[k
                + 1] == '\n'),
        sub.text@.len() > 0 ==> sub.text@.last() != '\n',
    ensures
        spec_decode_srt_entry(spec_srt_entry(sub)) == Some(
            ((sub.id as nat), (sub.start_ms as nat), (sub.end_ms as nat), sub.text@),
        ),
{
    lemma_entry_head(sub);
    lemma_entry_time1(sub);
    lemma_entry_time2_scan(sub);
    lemma_entry_time2_expect(sub);
    lemma_entry_tail(sub);
}

fn contains_blank_pair(v: &Vec<char>, from: usize, to: usize) -> (r: bool)
    requires
        from <= to,
        to + 1 <= v@.len(),
    ensures
        r == (exists|j: int|
            from <= j < to && (#[trigger] v@[j]) == '\n' && v@[j + 1] == '\n'),
{
    let mut k = from;
    while k < to
        invariant
            from <= k <= to,
            to + 1 <= v@.len(),
            forall|j: int| from <= j < k ==> !((#[trigger] v@[j]) == '\n' && v@[j + 1] == '\n'),
        decreases to - k,
    {
        if v[k] == '\n' && v[k + 1] == '\n' {
            return true;
        }
        k += 1;
    }
    false
}

fn is_digit_at(v: &Vec<char>, j: usize) -> (r: bool)
    requires
        j < v@.len(),
    ensures
        r == crate::num::spec_is_digit(v@[j as int]),
{
    let cu = v[j] as u32;
    48 <= cu && cu <= 57
}

fn run_end_exec(v: &Vec<char>, i: usize) -> (j: usize)
    requires
        i <= v@.len(),
    ensures
        j as int == spec_run_end(v@, i as int),
        i <= j <= v@.len(),
{
    let n = v.len();
    let mut j = i;
    while j < n && is_digit_at(v, j)
        invariant
            i <= j <= n,
            n == v@.len(),
            forall|k: int| i <= k < j ==> crate::num::spec_is_digit(#[trigger] v@[k]),
        decreases n - j,
    {
        j += 1;
    }
    proof {
        lemma_run_end_is(v@, i as int, j as int);
    }
    j
}

fn scan_number_exec(v: &Vec<char>, i: usize) -> (r: Option<(u64, usize)>)
    requires
        i <= v@.len(),
    ensures
        match (r, spec_scan_number(v@, i as int)) {
            (Some(q), Some(m)) => m.0 == q.0 && m.1 == q.1,
            (None, None) => true,
            (None, Some(m)) => m.0 > u64::MAX,
            (Some(_), None) => false,
        },
        r matches Some(q) ==> i <= q.1 <= v@.len(),
{
    proof {
        lemma_run_end_props(v@, i as int);
    }
    let j = run_end_exec(v, i);
    if j == i {
        return None;
    }
    let mut digits: Vec<char> = Vec::new();
    crate::chars::push_range(&mut digits, v, i, j);
    proof {
        assert(digits@ =~= v@.subrange(i as int, j as int));
    }
    proof {
        assert(crate::num::spec_all_digits(digits@)) by {
            assert forall|k: int|
                0 <= k < digits@.len() implies crate::num::spec_is_digit(
                #[trigger] digits@[k],
            ) by {
                assert(digits@[k] == v@[i + k]);
            }
        }
    }
    match crate::num::parse_u64_chars(&digits) {
        Some(n) => Some((n, j)),
        None => None,
    }
}

fn expect_exec(v: &Vec<char>, i: usize, lit: &str) -> (r: Option<usize>)
    requires
        i <= v@.len(),
    ensures
        match (r, spec_expect(v@, i as int, lit@)) {
            (Some(q), Some(m)) => q == m,
            (None, None) => true,
            _ => false,
        },
        r matches Some(q) ==> i <= q <= v@.len(),
{
    let n = lit.unicode_len();
    if n > v.len() - i {
        return None;
    }
    let mut k: usize = 0;
    while k < n
        invariant
            k <= n,
            n == lit@.len(),
            i + n <= v@.len(),
            v@.len() <= usize::MAX,
            v@.subrange(i as int, i + k) =~= lit@.take(k as int),
        decreases n - k,
    {
        if v[i + k] != lit.get_char(k) {
            proof {
                assert(v@.subrange(i as int, i + n)[k as int] != lit@[k as int]);
            }
            return None;
        }
        proof {
            assert(v@.subrange(i as int, i + k + 1) =~= v@.subrange(i as int, i + k).push(
                v@[i + k],
            ));
            assert(lit@.take(k + 1) =~= lit@.take(k as int).push(lit@[k as int]));
        }
        k += 1;
    }
    proof {
        assert(v@.subrange(i as int, i + n) =~= lit@);
    }
    Some(i + n)
}

fn scan_time_exec(v: &Vec<char>, i: usize) -> (r: Option<(u64, usize)>)
    requires
        i <= v@.len(),
    ensures
        match (r, spec_scan_time(v@, i as int)) {
            (Some(q), Some(m)) => m.0 == q.0 && m.1 == q.1,
            (None, None) => true,
            (None, Some(m)) => m.0 > u64::MAX,
            (Some(_), None) => false,
        },
        r matches Some(q) ==> i <= q.1 <= v@.len(),
{
    let ghost spec_result = spec_scan_time(v@, i as int);
    let (h, i1) = match scan_number_exec(v, i) {
        Some(q) => q,
        None => {
            proof {
                if spec_scan_time(v@, i as int) is Some {
                    lemma_time_value_lower(v@, i as int);
                }
            }
            return None;
        },
    };
    let i2 = match expect_exec(v, i1, ":") {
        Some(q) => q,
        None => {
            return None;
        },
    };
    let (m, i3) = match scan_number_exec(v, i2) {
        Some(q) => q,
        None => {
            proof {
                if spec_scan_time(v@, i as int) is Some {
                    lemma_time_value_lower(v@, i as int);
                }
            }
            return None;
        },
    };
    let i4 = match expect_exec(v, i3, ":") {
        Some(q) => q,
        None => {
            return None;
        },
    };
    let (sec, i5) = match scan_number_exec(v, i4) {
        Some(q) => q,
        None => {
            proof {
                if spec_scan_time(v@, i as int) is Some {
                    lemma_time_value_lower(v@, i as int);
                }
            }
            return None;
        },
    };
    let i6 = match expect_exec(v, i5, ",") {
        Some(q) => q,
        None => {
            return None;
        },
    };
    let (f, i7) = match scan_number_exec(v, i6) {
        Some(q) => q,
        None => {
            proof {
                if spec_scan_time(v@, i as int) is Some {
                    lemma_time_value_lower(v@, i as int);
                }
            }
            return None;
        },
    };
    let wide: u128 = (h as u128) * 3600000 + (m as u128) * 60000 + (sec as u128) * 1000 + (
    f as u128);
    if wide > (u64::MAX as u128) {
        return None;
    }
    Some((wide as u64, i7))
}

/// When the timestamp at `i` reads as a whole, its value dominates each
/// component's contribution.
proof fn lemma_time_value_lower(s: Seq<char>, i: int)
    requires
        spec_scan_time(s, i) is Some,
    ensures
        ({
            let t = (spec_scan_time(s, i)->0).0;
            match spec_scan_number(s, i) {
                Some(m0) => {
                    let i1 = m0.1;
                    &&& t >= m0.0 * 3600000
                    &&& match spec_expect(s, i1, ":"@) {
                        Some(i2) => match spec_scan_number(s, i2) {
                            Some(m1) => t >= m1.0 * 60000 && (match spec_expect(
                                s,
                                m1.1,
                                ":"@,
                            ) {
                                Some(i4) => match spec_scan_number(s, i4) {
                                    Some(m2) => t >= m2.0 * 1000 && (match spec_expect(
                                        s,
                                        m2.1,
                                        ","@,
                                    ) {
                                        Some(i6) => match spec_scan_number(s, i6) {
                                            Some(m3) => t >= m3.0,
                                            None => true,
                                        },
                                        None => true,
                                    }),
                                    None => true,
                                },
                                None => true,
                            }),
                            None => true,
                        },
                        None => true,
                    }
                },
                None => true,
            }
        }),
{
}

/// Decode one encoded SRT entry into its id, start, end (both in
/// milliseconds) and text. `None` when the text is no well-formed entry,
/// or when one of its numbers exceeds the machine range.
pub fn decode_srt_entry(s: &str) -> (r: Option<(u32, u64, u64, String)>)
    ensures
        match (r, spec_decode_srt_entry(s@)) {
            (Some(q), Some(m)) => m.0 == q.0 && m.1 == q.1 && m.2 == q.2 && m.3 == q.3@,
            (None, None) => true,
            (None, Some(m)) => m.0 > u32::MAX || m.1 > u64::MAX || m.2 > u64::MAX,
            (Some(_), None) => false,
        },
{
    let v = crate::chars::chars_of_str(s);
    let (id_wide, i1) = match scan_number_exec(&v, 0) {
        Some(q) => q,
        None => {
            return None;
        },
    };
    let i2 = match expect_exec(&v, i1, "\n") {
        Some(q) => q,
        None => {
            return None;
        },
    };
    let (st, i3) = match scan_time_exec(&v, i2) {
        Some(q) => q,
        None => {
            return None;
        },
    };
    let i4 = match expect_exec(&v, i3, " --> ") {
        Some(q) => q,
        None => {
            return None;
        },
    };
    let (et, i5) = match scan_time_exec(&v, i4) {
        Some(q) => q,
        None => {
            return None;
        },
    };
    let i6 = match expect_exec(&v, i5, "\n") {
        Some(q) => q,
        None => {
            return None;
        },
    };
    let n = v.len();
    if n < 2 || n - 2 < i6 {
        return None;
    }
    if !(v[n - 2] == '\n' && v[n - 1] == '\n') {
        proof {
            assert(spec_decode_srt_entry(s@) is None) by {
                assert(s@.subrange(s@.len() - 2, s@.len() as int)[0] == s@[s@.len() - 2]);
                assert(s@.subrange(s@.len() - 2, s@.len() as int)[1] == s@[s@.len() - 1]);
                reveal_strlit("\n\n");
                assert("\n\n"@.len() == 2 && "\n\n"@[0] == '\n' && "\n\n"@[1] == '\n');
            }
        }
        return None;
    }
    if contains_blank_pair(&v, i6, n - 2) {
        return None;
    }
    let mut text_chars: Vec<char> = Vec::new();
    crate::chars::push_range(&mut text_chars, &v, i6, n - 2);
    let text = crate::chars::string_from_chars(&text_chars);
    if id_wide > (u32::MAX as u64) {
        return None;
    }
    proof {
        reveal_strlit("\n\n");
        assert("\n\n"@.len() == 2 && "\n\n"@[0] == '\n' && "\n\n"@[1] == '\n');
        assert(s@.subrange(s@.len() - 2, s@.len() as int) =~= "\n\n"@);
    }
    Some((id_wide as u32, st, et, text))
}

/// Replace each subtitle's text with the corresponding produced text,
/// keeping id and both timestamps.
pub fn assemble_result(subtitles: &Vec<SubtitleItem>, texts: &Vec<String>) -> (r: Vec<
    SubtitleItem,
>)
    requires
        subtitles@.len() == texts@.len(),
    ensures
        r@.len() == subtitles@.len(),
        forall|i: int|
            0 <= i < r@.len() ==> (#[trigger] r@[i]).id == subtitles@[i].id && r@[i].start_ms
                == subtitles@[i].start_ms && r@[i].end_ms == subtitles@[i].end_ms && r@[i].text
                == texts@[i],
{
    let mut out: Vec<SubtitleItem> = Vec::new();
    let mut i: usize = 0;
    while i < subtitles.len()
        invariant
            i <= subtitles@.len(),
            subtitles@.len() == texts@.len(),
            out@.len() == i,
            forall|k: int|
                0 <= k < i ==> (#[trigger] out@[k]).id == subtitles@[k].id && out@[k].start_ms
                    == subtitles@[k].start_ms && out@[k].end_ms == subtitles@[k].end_ms
                    && out@[k].text == texts@[k],
        decreases subtitles.len() - i,
    {
        let sub = &subtitles[i];
        out.push(
            SubtitleItem {
                id: sub.id,
                start_ms: sub.start_ms,
                end_ms: sub.end_ms,
                text: texts[i].clone(),
            },
        );
        i += 1;
    }
    out
}

} // verus!
