//! The compact length prefix: a variable-width encoding of an unsigned count
//! below 2^32, used in front of every variable-length byte sequence.  The two
//! most significant bits of the first byte select the width, so small counts
//! cost one byte and the prefix is unambiguous and self-terminating:
//!
//! - `00` — the count itself, below 0x40, in the one byte;
//! - `01` — one extra byte: the low six bits hold the top of the count, the
//!   next byte the rest (counts below 0x4000), most significant first;
//! - `10` — three extra bytes in the same big-endian layout (below 0x4000_0000);
//! - `11` — the low six bits must be zero; four extra bytes hold the full
//!   count, most significant first.

use vstd::arithmetic::div_mod::lemma_div_denominator;
use vstd::arithmetic::div_mod::lemma_fundamental_div_mod;
use vstd::arithmetic::div_mod::lemma_mod_division_less_than_divisor;
use vstd::arithmetic::div_mod::lemma_multiply_divide_lt;
use vstd::prelude::*;

use crate::error::DecodeError;

verus! {

/// The prefix bytes that stand for the count `n`.
pub open spec fn spec_encode(n: int) -> Seq<u8>
    recommends
        0 <= n < 0x100000000,
{
    if n < 0x40 {
        seq![n as u8]
    } else if n < 0x4000 {
        seq![(0x40 + n / 0x100) as u8, (n % 0x100) as u8]
    } else if n < 0x40000000 {
        seq![
            (0x80 + n / 0x1000000) as u8,
            ((n / 0x10000) % 0x100) as u8,
            ((n / 0x100) % 0x100) as u8,
            (n % 0x100) as u8,
        ]
    } else {
        seq![
            0xC0u8,
            ((n / 0x1000000) % 0x100) as u8,
            ((n / 0x10000) % 0x100) as u8,
            ((n / 0x100) % 0x100) as u8,
            (n % 0x100) as u8,
        ]
    }
}

/// Reads a count at `pos`.  The width is taken from the first byte's two top
/// bits; a first byte of the widest mode with nonzero low bits would declare
/// a count beyond 2^32 and is rejected as an unknown discriminant.
pub open spec fn spec_decode(s: Seq<u8>, pos: int) -> Result<(int, int), DecodeError>
    recommends
        0 <= pos,
{
    if pos + 1 > s.len() {
        Err(DecodeError::TruncatedInput)
    } else {
        let b0 = s[pos] as int;
        if b0 < 0x40 {
            Ok((b0, pos + 1))
        } else if b0 < 0x80 {
            if pos + 2 <= s.len() {
                Ok(((b0 - 0x40) * 0x100 + (s[pos + 1] as int), pos + 2))
            } else {
                Err(DecodeError::TruncatedInput)
            }
        } else if b0 < 0xC0 {
            if pos + 4 <= s.len() {
                Ok(
                    (
                        (b0 - 0x80) * 0x1000000 + (s[pos + 1] as int) * 0x10000 + (s[pos
                            + 2] as int) * 0x100 + (s[pos + 3] as int),
                        pos + 4,
                    ),
                )
            } else {
                Err(DecodeError::TruncatedInput)
            }
        } else if b0 == 0xC0 {
            if pos + 5 <= s.len() {
                Ok(
                    (
                        (s[pos + 1] as int) * 0x1000000 + (s[pos + 2] as int) * 0x10000 + (s[pos
                            + 3] as int) * 0x100 + (s[pos + 4] as int),
                        pos + 5,
                    ),
                )
            } else {
                Err(DecodeError::TruncatedInput)
            }
        } else {
            Err(DecodeError::UnknownDiscriminant)
        }
    }
}

/// Appends the prefix for the count `n` to `out`.
pub fn encode_to(out: &mut Vec<u8>, n: u32)
    ensures
        final(out)@ == old(out)@ + spec_encode(n as int),
{
    if n < 0x40 {
        out.push(n as u8);
    } else if n < 0x4000 {
        out.push((0x40 + n / 0x100) as u8);
        out.push((n % 0x100) as u8);
    } else if n < 0x40000000 {
        out.push((0x80 + n / 0x1000000) as u8);
        out.push(((n / 0x10000) % 0x100) as u8);
        out.push(((n / 0x100) % 0x100) as u8);
        out.push((n % 0x100) as u8);
    } else {
        out.push(0xC0);
        out.push(((n / 0x1000000) % 0x100) as u8);
        out.push(((n / 0x10000) % 0x100) as u8);
        out.push(((n / 0x100) % 0x100) as u8);
        out.push((n % 0x100) as u8);
    }
    assert(out@ =~= old(out)@ + spec_encode(n as int));
}

/// Reads the count declared at `pos`; on success the returned position is the
/// first byte after the prefix.
pub fn decode(input: &[u8], pos: usize) -> (r: Result<(u32, usize), DecodeError>)
    requires
        pos <= input@.len(),
    ensures
        match r {
            Ok((v, n)) => spec_decode(input@, pos as int) == Ok::<_, DecodeError>((
                v as int,
                n as int,
            )) && pos < n <= input@.len(),
            Err(e) => spec_decode(input@, pos as int) == Err::<(int, int), _>(e),
        },
{
    let rem = input.len() - pos;
    if rem < 1 {
        return Err(DecodeError::TruncatedInput);
    }
    let b0 = input[pos];
    if b0 < 0x40 {
        Ok((b0 as u32, pos + 1))
    } else if b0 < 0x80 {
        if rem < 2 {
            return Err(DecodeError::TruncatedInput);
        }
        Ok((((b0 - 0x40) as u32) * 0x100 + input[pos + 1] as u32, pos + 2))
    } else if b0 < 0xC0 {
        if rem < 4 {
            return Err(DecodeError::TruncatedInput);
        }
        let v = ((b0 - 0x80) as u32) * 0x1000000 + (input[pos + 1] as u32) * 0x10000 + (input[pos
            + 2] as u32) * 0x100 + input[pos + 3] as u32;
        Ok((v, pos + 4))
    } else if b0 == 0xC0 {
        if rem < 5 {
            return Err(DecodeError::TruncatedInput);
        }
        let v = (input[pos + 1] as u32) * 0x1000000 + (input[pos + 2] as u32) * 0x10000 + (input[pos
            + 3] as u32) * 0x100 + input[pos + 4] as u32;
        Ok((v, pos + 5))
    } else {
        Err(DecodeError::UnknownDiscriminant)
    }
}

/// A count below 2^32 is the big-endian recomposition of its four base-256
/// digits, each of which lies below 0x100.
proof fn lemma_base256_digits(n: int)
    requires
        0 <= n < 0x100000000,
    ensures
        n == (n / 0x1000000) * 0x1000000 + ((n / 0x10000) % 0x100) * 0x10000 + ((n / 0x100)
            % 0x100) * 0x100 + n % 0x100,
        0 <= n / 0x1000000 < 0x100,
        0 <= (n / 0x10000) % 0x100 < 0x100,
        0 <= (n / 0x100) % 0x100 < 0x100,
        0 <= n % 0x100 < 0x100,
{
    lemma_fundamental_div_mod(n, 0x100);
    lemma_fundamental_div_mod(n / 0x100, 0x100);
    lemma_fundamental_div_mod(n / 0x10000, 0x100);
    lemma_div_denominator(n, 0x100, 0x100);
    lemma_div_denominator(n, 0x10000, 0x100);
    lemma_mod_division_less_than_divisor(n, 0x100);
    lemma_mod_division_less_than_divisor(n / 0x100, 0x100);
    lemma_mod_division_less_than_divisor(n / 0x10000, 0x100);
    lemma_multiply_divide_lt(n, 0x1000000, 0x100);
    assert(0x100 * 0x100 == 0x10000);
    assert(0x10000 * 0x100 == 0x1000000);
    assert((n / 0x100) / 0x100 == n / 0x10000);
    assert((n / 0x10000) / 0x100 == n / 0x1000000);
    assert(n / 0x100 == 0x100 * (n / 0x10000) + (n / 0x100) % 0x100);
    assert(n / 0x10000 == 0x100 * (n / 0x1000000) + (n / 0x10000) % 0x100);
    assert(n == 0x100 * (n / 0x100) + n % 0x100);
}

/// Law: a count decodes back from its own prefix wherever that prefix stands
/// in a larger buffer, consuming exactly its own bytes.
pub proof fn lemma_round_trip(n: int, s: Seq<u8>, pos: int)
    requires
        0 <= n < 0x100000000,
        0 <= pos,
        pos + spec_encode(n).len() <= s.len(),
        s.subrange(pos, pos + spec_encode(n).len() as int) == spec_encode(n),
    ensures
        spec_decode(s, pos) == Ok::<_, DecodeError>((n, pos + spec_encode(n).len())),
{
    let e = spec_encode(n);
    assert forall|i: int| 0 <= i < e.len() implies s[pos + i] == e[i] by {
        assert(e[i] == s.subrange(pos, pos + e.len() as int)[i]);
    }
    assert(e.len() >= 1 && s[pos + 0] == e[0]);
    assert(e.len() >= 2 ==> s[pos + 1] == e[1]);
    assert(e.len() >= 4 ==> s[pos + 2] == e[2] && s[pos + 3] == e[3]);
    assert(e.len() >= 5 ==> s[pos + 4] == e[4]);
    assert(s[pos] == e[0]);
    lemma_base256_digits(n);
    if n < 0x40 {
        assert(s[pos] == (n as u8));
        assert((n as u8) as int == n);
    } else if n < 0x4000 {
        lemma_multiply_divide_lt(n, 0x100, 0x40);
        lemma_fundamental_div_mod(n, 0x100);
        assert(s[pos] as int == 0x40 + n / 0x100);
        assert(s[pos + 1] as int == n % 0x100);
        assert((0x40 + n / 0x100 - 0x40) * 0x100 == 0x100 * (n / 0x100));
    } else if n < 0x40000000 {
        lemma_multiply_divide_lt(n, 0x1000000, 0x40);
        assert(s[pos] as int == 0x80 + n / 0x1000000);
        assert(s[pos + 1] as int == (n / 0x10000) % 0x100);
        assert(s[pos + 2] as int == (n / 0x100) % 0x100);
        assert(s[pos + 3] as int == n % 0x100);
        assert((0x80 + n / 0x1000000 - 0x80) * 0x1000000 == (n / 0x1000000) * 0x1000000);
    } else {
        assert(s[pos] as int == 0xC0);
        assert(n / 0x1000000 < 0x100);
        vstd::arithmetic::div_mod::lemma_small_mod((n / 0x1000000) as nat, 0x100);
        assert(s[pos + 1] as int == n / 0x1000000);
        assert(s[pos + 2] as int == (n / 0x10000) % 0x100);
        assert(s[pos + 3] as int == (n / 0x100) % 0x100);
        assert(s[pos + 4] as int == n % 0x100);
    }
}

} // verus!
