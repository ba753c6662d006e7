//! Decimal text for integers: formatting, zero-padding, and parsing,
//! with a proved round trip.

use vstd::prelude::*;

verus! {

/// The digit character for a value below ten.
pub open spec fn spec_digit_char(d: nat) -> char {
    if d == 0 {
        '0'
    } else if d == 1 {
        '1'
    } else if d == 2 {
        '2'
    } else if d == 3 {
        '3'
    } else if d == 4 {
        '4'
    } else if d == 5 {
        '5'
    } else if d == 6 {
        '6'
    } else if d == 7 {
        '7'
    } else if d == 8 {
        '8'
    } else {
        '9'
    }
}

/// The shortest decimal form of `n` (no leading zeros, `0` for zero).
pub open spec fn spec_dec(n: nat) -> Seq<char>
    decreases n,
{
    if n < 10 {
        seq![spec_digit_char(n)]
    } else {
        spec_dec(n / 10).push(spec_digit_char(n % 10))
    }
}

/// Is `c` an ASCII decimal digit?
pub open spec fn spec_is_digit(c: char) -> bool {
    48 <= c as u32 <= 57
}

/// The numeric value of a digit character.
pub open spec fn spec_digit_val(c: char) -> nat {
    (c as u32 - 48) as nat
}

/// The value of a digit sequence read in base ten.
pub open spec fn spec_dec_val(s: Seq<char>) -> nat
    decreases s.len(),
{
    if s.len() == 0 {
        0
    } else {
        spec_dec_val(s.drop_last()) * 10 + spec_digit_val(s.last())
    }
}

/// Every character of `s` is a decimal digit.
pub open spec fn spec_all_digits(s: Seq<char>) -> bool {
    forall|i: int| 0 <= i < s.len() ==> spec_is_digit(#[trigger] s[i])
}

pub proof fn lemma_spec_dec_digits(n: nat)
    ensures
        spec_all_digits(spec_dec(n)),
        spec_dec(n).len() >= 1,
    decreases n,
{
    if n >= 10 {
        lemma_spec_dec_digits(n / 10);
        assert forall|i: int| 0 <= i < spec_dec(n).len() implies spec_is_digit(
            #[trigger] spec_dec(n)[i],
        ) by {
            if i < spec_dec(n).len() - 1 {
                assert(spec_dec(n)[i] == spec_dec(n / 10)[i]);
            }
        }
    }
}

proof fn lemma_digit_char_val(d: nat)
    requires
        d < 10,
    ensures
        spec_digit_val(spec_digit_char(d)) == d,
        spec_is_digit(spec_digit_char(d)),
{
    assert('0' as u32 == 48 && '1' as u32 == 49 && '2' as u32 == 50 && '3' as u32 == 51 && '4'
        as u32 == 52 && '5' as u32 == 53 && '6' as u32 == 54 && '7' as u32 == 55 && '8' as u32
        == 56 && '9' as u32 == 57);
}

/// Reading the decimal form of `n` back gives `n`.
pub proof fn lemma_dec_round_trip(n: nat)
    ensures
        spec_dec_val(spec_dec(n)) == n,
    decreases n,
{
    if n < 10 {
        lemma_digit_char_val(n);
        let s = spec_dec(n);
        assert(s == seq![spec_digit_char(n)]);
        assert(s.len() == 1);
        assert(s.last() == spec_digit_char(n));
        assert(s.drop_last() =~= Seq::<char>::empty());
        assert(spec_dec_val(Seq::<char>::empty()) == 0);
        assert(spec_dec_val(s) == spec_dec_val(s.drop_last()) * 10 + spec_digit_val(s.last()));
    } else {
        lemma_dec_round_trip(n / 10);
        lemma_digit_char_val(n % 10);
        let s = spec_dec(n);
        assert(s == spec_dec(n / 10).push(spec_digit_char(n % 10)));
        assert(s.len() >= 1);
        assert(s.last() == spec_digit_char(n % 10));
        assert(s.drop_last() =~= spec_dec(n / 10));
        assert(spec_dec_val(s) == spec_dec_val(s.drop_last()) * 10 + spec_digit_val(s.last()));
        assert(spec_dec_val(s) == (n / 10) * 10 + n % 10);
    }
}

fn digit_char(d: u64) -> (c: char)
    requires
        d < 10,
    ensures
        c == spec_digit_char(d as nat),
{
    if d == 0 {
        '0'
    } else if d == 1 {
        '1'
    } else if d == 2 {
        '2'
    } else if d == 3 {
        '3'
    } else if d == 4 {
        '4'
    } else if d == 5 {
        '5'
    } else if d == 6 {
        '6'
    } else if d == 7 {
        '7'
    } else if d == 8 {
        '8'
    } else {
        '9'
    }
}

/// Append the decimal form of `n` to `out`.
pub fn push_dec(n: u64, out: &mut Vec<char>)
    ensures
        final(out)@ == old(out)@ + spec_dec(n as nat),
    decreases n,
{
    if n < 10 {
        out.push(digit_char(n));
        assert(out@ =~= old(out)@ + spec_dec(n as nat));
    } else {
        push_dec(n / 10, out);
        out.push(digit_char(n % 10));
        assert(out@ =~= old(out)@ + spec_dec(n as nat));
    }
}

/// The decimal characters of `n`.
pub fn dec_chars(n: u64) -> (v: Vec<char>)
    ensures
        v@ == spec_dec(n as nat),
{
    let mut v: Vec<char> = Vec::new();
    push_dec(n, &mut v);
    assert(v@ =~= spec_dec(n as nat));
    v
}

/// The decimal form of `n`, left-padded with zeros to at least `width` characters.
pub open spec fn spec_dec_pad(n: nat, width: nat) -> Seq<char> {
    let d = spec_dec(n);
    if d.len() >= width {
        d
    } else {
        seq_repeat_zero((width - d.len()) as nat) + d
    }
}

/// `k` copies of the zero digit.
pub open spec fn seq_repeat_zero(k: nat) -> Seq<char> {
    Seq::new(k, |i: int| '0')
}

/// Append the decimal form of `n`, zero-padded to at least `width` characters.
pub fn push_dec_pad(n: u64, width: usize, out: &mut Vec<char>)
    ensures
        final(out)@ == old(out)@ + spec_dec_pad(n as nat, width as nat),
{
    let digits = dec_chars(n);
    if digits.len() < width {
        let pad = width - digits.len();
        let mut i: usize = 0;
        while i < pad
            invariant
                i <= pad,
                out@ == old(out)@ + seq_repeat_zero(i as nat),
            decreases pad - i,
        {
            out.push('0');
            assert(out@ =~= old(out)@ + seq_repeat_zero((i + 1) as nat));
            i += 1;
        }
        let mut j: usize = 0;
        while j < digits.len()
            invariant
                j <= digits.len(),
                digits@ == spec_dec(n as nat),
                out@ == old(out)@ + seq_repeat_zero(pad as nat) + digits@.take(j as int),
            decreases digits.len() - j,
        {
            out.push(digits[j]);
            assert(out@ =~= old(out)@ + seq_repeat_zero(pad as nat) + digits@.take(j + 1));
            j += 1;
        }
        assert(digits@.take(digits.len() as int) =~= digits@);
        assert(out@ =~= old(out)@ + spec_dec_pad(n as nat, width as nat));
    } else {
        let mut j: usize = 0;
        while j < digits.len()
            invariant
                j <= digits.len(),
                digits@ == spec_dec(n as nat),
                out@ == old(out)@ + digits@.take(j as int),
            decreases digits.len() - j,
        {
            out.push(digits[j]);
            assert(out@ =~= old(out)@ + digits@.take(j + 1));
            j += 1;
        }
        assert(digits@.take(digits.len() as int) =~= digits@);
    }
}

/// Parse `v` as an unsigned decimal number.
///
/// Returns `None` when `v` is empty, holds a non-digit, or overflows `u64`.
pub fn parse_u64_chars(v: &Vec<char>) -> (r: Option<u64>)
    ensures
        r is Some ==> v@.len() > 0 && spec_all_digits(v@) && r->0 == spec_dec_val(v@),
        v@.len() > 0 && spec_all_digits(v@) && spec_dec_val(v@) <= u64::MAX ==> r is Some,
{
    if v.len() == 0 {
        return None;
    }
    let mut acc: u64 = 0;
    let mut i: usize = 0;
    while i < v.len()
        invariant
            i <= v.len(),
            spec_all_digits(v@.take(i as int)),
            acc == spec_dec_val(v@.take(i as int)),
            spec_dec_val(v@.take(i as int)) <= u64::MAX,
        decreases v.len() - i,
    {
        let c = v[i];
        let cu = c as u32;
        if cu < 48 || cu > 57 {
            assert(!spec_is_digit(v@[i as int]));
            return None;
        }
        let d = (cu - 48) as u64;
        let wide: u128 = (acc as u128) * 10 + (d as u128);
        proof {
            assert(v@.take(i + 1).drop_last() =~= v@.take(i as int));
            assert(spec_dec_val(v@.take(i + 1)) == wide);
        }
        if wide > u64::MAX as u128 {
            proof {
                if spec_all_digits(v@) {
                    lemma_prefix_monotone(v@, i + 1);
                }
            }
            return None;
        }
        acc = wide as u64;
        i += 1;
    }
    assert(v@.take(v@.len() as int) =~= v@);
    Some(acc)
}

/// If a prefix of a digit sequence already exceeds `u64::MAX`, so does the whole.
proof fn lemma_prefix_monotone(s: Seq<char>, k: int)
    requires
        0 < k <= s.len(),
        spec_all_digits(s),
        spec_dec_val(s.take(k)) > u64::MAX,
    ensures
        spec_dec_val(s) > u64::MAX,
    decreases s.len() - k,
{
    if k < s.len() {
        assert(s.take(k + 1).drop_last() =~= s.take(k));
        assert(spec_is_digit(s[k]));
        assert(spec_dec_val(s.take(k + 1)) == spec_dec_val(s.take(k)) * 10 + spec_digit_val(
            s.take(k + 1).last(),
        ));
        lemma_prefix_monotone(s, k + 1);
    } else {
        assert(s.take(k) =~= s);
    }
}

} // verus!
