//! Variable-length byte sequences: a compact prefix declaring the element
//! count, then the raw bytes.  A decode reads the count first and consumes
//! exactly that many bytes; if fewer remain than declared, it fails with a
//! truncation error instead of reading past the end.

use vstd::prelude::*;
use vstd::slice::slice_subrange;
use vstd::slice::slice_to_vec;

use crate::compact;
use crate::error::DecodeError;

verus! {

/// Whether the sequence is short enough for its length to have a compact
/// prefix.
pub open spec fn fits_length_prefix(b: Seq<u8>) -> bool {
    b.len() < 0x100000000
}

/// The prefix of the sequence's length, then the bytes themselves.
pub open spec fn spec_encode(b: Seq<u8>) -> Seq<u8>
    recommends
        fits_length_prefix(b),
{
    compact::spec_encode(b.len() as int) + b
}

/// Reads the declared count at `pos`, then exactly that many bytes.
pub open spec fn spec_decode(s: Seq<u8>, pos: int) -> Result<(Seq<u8>, int), DecodeError>
    recommends
        0 <= pos,
{
    match compact::spec_decode(s, pos) {
        Err(e) => Err(e),
        Ok((n, p)) => if p + n <= s.len() {
            Ok((s.subrange(p, p + n), p + n))
        } else {
            Err(DecodeError::TruncatedInput)
        },
    }
}

/// Appends the encoding of `data` to `out`.
pub fn encode_to(out: &mut Vec<u8>, data: &[u8])
    requires
        fits_length_prefix(data@),
    ensures
        final(out)@ == old(out)@ + spec_encode(data@),
{
    compact::encode_to(out, data.len() as u32);
    out.extend_from_slice(data);
    assert(out@ =~= old(out)@ + spec_encode(data@));
}

/// Decodes a length-prefixed byte sequence at `pos`; on success the returned
/// position is the first byte after the sequence.
pub fn decode(input: &[u8], pos: usize) -> (r: Result<(Vec<u8>, usize), DecodeError>)
    requires
        pos <= input@.len(),
    ensures
        match r {
            Ok((v, n)) => spec_decode(input@, pos as int) == Ok::<_, DecodeError>((v@, n as int))
                && pos < n <= input@.len() && fits_length_prefix(v@),
            Err(e) => spec_decode(input@, pos as int) == Err::<(Seq<u8>, int), _>(e),
        },
{
    let (len, p) = match compact::decode(input, pos) {
        Ok(x) => x,
        Err(e) => {
            return Err(e);
        },
    };
    let len_us = len as usize;
    if len_us > input.len() - p {
        return Err(DecodeError::TruncatedInput);
    }
    let v = slice_to_vec(slice_subrange(input, p, p + len_us));
    Ok((v, p + len_us))
}

/// Where a buffer holds the concatenation `a + b` at `pos`, it holds `a` at
/// `pos` and `b` right after it.
pub proof fn lemma_concat_fields(s: Seq<u8>, pos: int, a: Seq<u8>, b: Seq<u8>)
    requires
        0 <= pos,
        pos + a.len() + b.len() <= s.len(),
        s.subrange(pos, pos + a.len() + b.len()) == a + b,
    ensures
        s.subrange(pos, pos + a.len() as int) == a,
        s.subrange(pos + a.len() as int, pos + a.len() + b.len()) == b,
{
    assert forall|i: int| 0 <= i < a.len() implies s.subrange(pos, pos + a.len() as int)[i]
        == a[i] by {
        assert(s.subrange(pos, pos + a.len() + b.len())[i] == (a + b)[i]);
    }
    assert(s.subrange(pos, pos + a.len() as int) =~= a);
    assert forall|i: int| 0 <= i < b.len() implies s.subrange(
        pos + a.len() as int,
        pos + a.len() + b.len(),
    )[i] == b[i] by {
        assert(s.subrange(pos + a.len() as int, pos + a.len() + b.len())[i] == s[pos + a.len()
            + i]);
        assert(s.subrange(pos, pos + a.len() + b.len())[a.len() + i] == s[pos + a.len() + i]);
        assert((a + b)[a.len() + i] == b[i]);
    }
    assert(s.subrange(pos + a.len() as int, pos + a.len() + b.len()) =~= b);
}

/// Law: a byte sequence decodes back from its own encoding wherever that
/// encoding stands in a larger buffer, consuming exactly its own bytes.
pub proof fn lemma_round_trip(b: Seq<u8>, s: Seq<u8>, pos: int)
    requires
        fits_length_prefix(b),
        0 <= pos,
        pos + spec_encode(b).len() <= s.len(),
        s.subrange(pos, pos + spec_encode(b).len() as int) == spec_encode(b),
    ensures
        spec_decode(s, pos) == Ok::<_, DecodeError>((b, pos + spec_encode(b).len())),
{
    let c = compact::spec_encode(b.len() as int);
    lemma_concat_fields(s, pos, c, b);
    compact::lemma_round_trip(b.len() as int, s, pos);
    assert(s.subrange(pos + c.len() as int, pos + c.len() + b.len()) == b);
}

/// Law: where the count declared by the prefix exceeds the bytes that remain,
/// the decode fails with `TruncatedInput`.
pub proof fn lemma_truncation(s: Seq<u8>, pos: int, n: int, p: int)
    requires
        compact::spec_decode(s, pos) == Ok::<_, DecodeError>((n, p)),
        p + n > s.len(),
    ensures
        spec_decode(s, pos) == Err::<(Seq<u8>, int), _>(DecodeError::TruncatedInput),
{
}

} // verus!
