//! Byte-sequence helpers: copying, comparing, decimal printing and parsing.
use vstd::prelude::*;

verus! {

/// The ASCII digit `0`.
pub const DIGIT_ZERO: u8 = 48;

/// Whether `b` is an ASCII decimal digit.
pub open spec fn is_digit(b: u8) -> bool {
    DIGIT_ZERO <= b && b <= DIGIT_ZERO + 9
}

/// The decimal digits of `n`, most significant first, with no leading zero.
pub open spec fn dec_digits(n: nat) -> Seq<u8>
    decreases n,
{
    if n < 10 {
        seq![(DIGIT_ZERO + n) as u8]
    } else {
        dec_digits(n / 10).push((DIGIT_ZERO + n % 10) as u8)
    }
}

/// The number that a sequence of decimal digits spells.
pub open spec fn dec_value(s: Seq<u8>) -> nat
    decreases s.len(),
{
    if s.len() == 0 {
        0
    } else {
        dec_value(s.drop_last()) * 10 + (s.last() - DIGIT_ZERO) as nat
    }
}

/// Whether `s` is a non-empty run of decimal digits.
pub open spec fn all_digits(s: Seq<u8>) -> bool {
    s.len() > 0 && forall|i: int| 0 <= i < s.len() ==> is_digit(#[trigger] s[i])
}

/// The bytes of an optional slice.
pub open spec fn opt_bytes(o: Option<&[u8]>) -> Option<Seq<u8>> {
    match o {
        Some(s) => Some(s@),
        None => None,
    }
}

/// Appends `src` to `out`.
pub fn append_bytes(out: &mut Vec<u8>, src: &[u8])
    ensures
        final(out)@ == old(out)@ + src@,
{
    let ghost start = out@;
    let mut i: usize = 0;
    while i < src.len()
        invariant
            i <= src@.len(),
            out@ == start + src@.take(i as int),
        decreases src@.len() - i,
    {
        out.push(src[i]);
        i = i + 1;
        assert(src@.take(i as int) =~= src@.take(i as int - 1).push(src@[i as int - 1]));
    }
    assert(src@.take(i as int) =~= src@);
}

/// A fresh vector holding `src[start..end]`.
pub fn copy_range(src: &[u8], start: usize, end: usize) -> (r: Vec<u8>)
    requires
        start <= end <= src@.len(),
    ensures
        r@ == src@.subrange(start as int, end as int),
{
    let mut r: Vec<u8> = Vec::new();
    let mut i: usize = start;
    while i < end
        invariant
            start <= i <= end <= src@.len(),
            r@ == src@.subrange(start as int, i as int),
        decreases end - i,
    {
        r.push(src[i]);
        i = i + 1;
        assert(r@ =~= src@.subrange(start as int, i as int));
    }
    r
}

/// Whether `src[start..end]` equals `pat`.
pub fn range_eq(src: &[u8], start: usize, end: usize, pat: &[u8]) -> (r: bool)
    requires
        start <= end <= src@.len(),
    ensures
        r == (src@.subrange(start as int, end as int) == pat@),
{
    if end - start != pat.len() {
        return false;
    }
    let mut i: usize = 0;
    while i < pat.len()
        invariant
            start <= end <= src@.len(),
            end - start == pat@.len(),
            i <= pat@.len(),
            forall|k: int| 0 <= k < i ==> src@[start + k] == pat@[k],
        decreases pat@.len() - i,
    {
        if src[start + i] != pat[i] {
            assert(src@.subrange(start as int, end as int)[i as int] != pat@[i as int]);
            return false;
        }
        i = i + 1;
    }
    assert(src@.subrange(start as int, end as int) =~= pat@);
    true
}

/// Whether `s` equals `pat`.
pub fn bytes_eq(s: &[u8], pat: &[u8]) -> (r: bool)
    ensures
        r == (s@ == pat@),
{
    let r = range_eq(s, 0, s.len(), pat);
    assert(s@.subrange(0, s@.len() as int) =~= s@);
    r
}

/// Whether `s` begins with `prefix`.
pub fn starts_with(s: &[u8], prefix: &[u8]) -> (r: bool)
    ensures
        r == (prefix@.len() <= s@.len() && s@.take(prefix@.len() as int) == prefix@),
{
    if prefix.len() > s.len() {
        return false;
    }
    range_eq(s, 0, prefix.len(), prefix)
}

/// Appends the decimal digits of `n` to `out`.
pub fn push_decimal(out: &mut Vec<u8>, n: usize)
    ensures
        final(out)@ == old(out)@ + dec_digits(n as nat),
    decreases n,
{
    if n >= 10 {
        push_decimal(out, n / 10);
    }
    out.push(DIGIT_ZERO + (n % 10) as u8);
    assert(final(out)@ =~= old(out)@ + dec_digits(n as nat));
}

proof fn lemma_dec_value_prefix_grows(s: Seq<u8>, i: int)
    requires
        0 <= i <= s.len(),
        forall|k: int| 0 <= k < s.len() ==> is_digit(#[trigger] s[k]),
    ensures
        dec_value(s.take(i)) <= dec_value(s),
    decreases s.len() - i,
{
    if i < s.len() {
        lemma_dec_value_prefix_grows(s, i + 1);
        assert(s.take(i + 1).drop_last() =~= s.take(i));
        assert(dec_value(s.take(i + 1)) >= dec_value(s.take(i)) * 10);
    } else {
        assert(s.take(i) =~= s);
    }
}

/// Parses a non-empty run of decimal digits that fits in `usize`.
pub fn parse_decimal(s: &[u8]) -> (r: Option<usize>)
    ensures
        r matches Some(n) <==> all_digits(s@) && dec_value(s@) <= usize::MAX,
        r matches Some(n) ==> n as nat == dec_value(s@),
{
    if s.len() == 0 {
        return None;
    }
    let mut v: usize = 0;
    let mut i: usize = 0;
    while i < s.len()
        invariant
            i <= s@.len(),
            forall|k: int| 0 <= k < i ==> is_digit(#[trigger] s@[k]),
            v as nat == dec_value(s@.take(i as int)),
        decreases s@.len() - i,
    {
        let b = s[i];
        if b < DIGIT_ZERO || b > DIGIT_ZERO + 9 {
            assert(!is_digit(s@[i as int]));
            return None;
        }
        let d: usize = (b - DIGIT_ZERO) as usize;
        assert(s@.take(i as int + 1).drop_last() =~= s@.take(i as int));
        if v > (usize::MAX - d) / 10 {
            proof {
                assert(dec_value(s@.take(i as int + 1)) > usize::MAX) by (nonlinear_arith)
                    requires
                        v > (usize::MAX - d) / 10,
                        dec_value(s@.take(i as int + 1)) == v * 10 + d,
                        d <= 9,
                ;
                if all_digits(s@) {
                    lemma_dec_value_prefix_grows(s@, i as int + 1);
                }
            }
            return None;
        }
        proof {
            assert(v * 10 + d <= usize::MAX) by (nonlinear_arith)
                requires
                    v <= (usize::MAX - d) / 10,
                    d <= 9,
            ;
        }
        v = v * 10 + d;
        i = i + 1;
    }
    assert(s@.take(i as int) =~= s@);
    Some(v)
}

} // verus!
