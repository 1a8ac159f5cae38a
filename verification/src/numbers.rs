//! Decimal decoding of the numeric header fields: a subscription id
//! and a declared payload length, written as non-negative decimal
//! integers with an optional leading `+`.

use vstd::prelude::*;

verus! {

/// An ASCII decimal digit.
pub open spec fn dec_digit(c: u8) -> bool {
    0x30 <= c && c <= 0x39
}

/// Every byte of `s` is a decimal digit.
pub open spec fn all_dec_digits(s: Seq<u8>) -> bool {
    forall|i: int| 0 <= i < s.len() ==> dec_digit(s[i])
}

/// The value of `s` read as a decimal numeral, most significant
/// digit first.
pub open spec fn dec_val(s: Seq<u8>) -> int
    decreases s.len()
{
    if s.len() == 0 {
        0
    } else {
        dec_val(s.drop_last()) * 10 + (s.last() - 0x30)
    }
}

/// The digit bytes of a numeral token: the token itself, or the rest
/// after a single leading `+`.
pub open spec fn digits_of(s: Seq<u8>) -> Seq<u8> {
    if s.len() > 0 && s[0] == 0x2b {
        s.skip(1)
    } else {
        s
    }
}

/// The token is a well-formed non-negative decimal numeral: at least
/// one digit after the optional leading `+`, and nothing else.
pub open spec fn dec_token(s: Seq<u8>) -> bool {
    digits_of(s).len() > 0 && all_dec_digits(digits_of(s))
}

/// The value of a digit sequence is never negative.
proof fn lemma_dec_val_nonneg(s: Seq<u8>)
    requires
        all_dec_digits(s),
    ensures
        dec_val(s) >= 0,
    decreases s.len(),
{
    if s.len() > 0 {
        assert(all_dec_digits(s.drop_last()));
        lemma_dec_val_nonneg(s.drop_last());
    }
}

/// Reading one more digit of a numeral multiplies the value so far by
/// ten and adds that digit.
proof fn lemma_dec_val_step(s: Seq<u8>, i: int)
    requires
        0 <= i < s.len(),
    ensures
        dec_val(s.take(i + 1)) == dec_val(s.take(i)) * 10 + (s[i] - 0x30),
{
    assert(s.take(i + 1).drop_last() =~= s.take(i));
    assert(s.take(i + 1).last() == s[i]);
}

/// Extending a digit sequence never shrinks its value.
proof fn lemma_dec_val_mono(s: Seq<u8>, i: int)
    requires
        0 <= i <= s.len(),
        all_dec_digits(s),
    ensures
        dec_val(s) >= dec_val(s.take(i)),
    decreases s.len() - i,
{
    if i < s.len() {
        assert(all_dec_digits(s.take(i)));
        lemma_dec_val_nonneg(s.take(i));
        lemma_dec_val_step(s, i);
        lemma_dec_val_mono(s, i + 1);
    } else {
        assert(s.take(i) =~= s);
    }
}

/// Decodes a decimal numeral token into a 64-bit value, accepting an
/// optional leading `+` and refusing anything else, as well as any
/// value that does not fit.
pub fn parse_u64(tok: &[u8]) -> (r: Option<u64>)
    ensures
        r is Some <==> dec_token(tok@) && dec_val(digits_of(tok@)) <= u64::MAX,
        r matches Some(v) ==> v == dec_val(digits_of(tok@)),
{
    let n = tok.len();
    let start: usize = if n > 0 && tok[0] == 0x2b {
        1
    } else {
        0
    };
    let ghost d = digits_of(tok@);
    assert(d =~= tok@.subrange(start as int, n as int));
    if start >= n {
        assert(d.len() == 0);
        return None;
    }
    let mut val: u64 = 0;
    let mut i: usize = start;
    while i < n
        invariant
            start <= i <= n,
            n == tok@.len(),
            d == digits_of(tok@),
            d == tok@.subrange(start as int, n as int),
            all_dec_digits(d.take(i - start)),
            val == dec_val(d.take(i - start)),
        decreases n - i,
    {
        let c = tok[i];
        if c < 0x30 || c > 0x39 {
            assert(d[i - start] == c && !dec_digit(c));
            assert(!all_dec_digits(d));
            return None;
        }
        let dig: u64 = (c - 0x30) as u64;
        proof {
            lemma_dec_val_step(d, i - start);
        }
        if val > 1844674407370955161u64 || (val == 1844674407370955161u64 && dig > 5) {
            proof {
                assert(u64::MAX == 1844674407370955161u64 * 10 + 5);
                assert(dec_val(d.take(i - start + 1)) > u64::MAX);
                if all_dec_digits(d) {
                    lemma_dec_val_mono(d, i - start + 1);
                }
            }
            return None;
        }
        val = val * 10 + dig;
        i = i + 1;
    }
    assert(d.take(i - start) =~= d);
    Some(val)
}

/// Decodes a decimal numeral token into a 32-bit value.
pub fn parse_u32(tok: &[u8]) -> (r: Option<u32>)
    ensures
        r is Some <==> dec_token(tok@) && dec_val(digits_of(tok@)) <= u32::MAX,
        r matches Some(v) ==> v == dec_val(digits_of(tok@)),
{
    match parse_u64(tok) {
        Some(v) => if v <= 0xffff_ffffu64 {
            Some(v as u32)
        } else {
            None
        },
        None => None,
    }
}

/// Decodes a decimal numeral token into a machine-word value.
pub fn parse_usize(tok: &[u8]) -> (r: Option<usize>)
    ensures
        r is Some <==> dec_token(tok@) && dec_val(digits_of(tok@)) <= usize::MAX,
        r matches Some(v) ==> v == dec_val(digits_of(tok@)),
{
    match parse_u64(tok) {
        Some(v) => if v <= usize::MAX as u64 {
            Some(v as usize)
        } else {
            None
        },
        None => None,
    }
}

} // verus!
