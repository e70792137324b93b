use vstd::prelude::*;
use vstd::string::StringExecFns;

use crate::error::DecodeError;

verus! {

/// The closed set of signature schemes under which a payload can be
/// attributed to a public key.  Exactly these three variants exist, with the
/// stable tags 0, 1 and 2; a decoder meeting any other tag byte fails rather
/// than defaulting.
#[derive(Clone, Copy, Debug, PartialEq, Eq, Structural)]
pub enum Encryption {
    Ed25519,
    Sr25519,
    Ecdsa,
}

/// Public-key length in bytes for each scheme.  The table is a pure function
/// of the scheme: it gates how many bytes a decoder consumes for a key field
/// and is never inferred from the remaining buffer.
pub open spec fn spec_key_length(e: Encryption) -> int {
    match e {
        Encryption::Ed25519 => 32,
        Encryption::Sr25519 => 32,
        Encryption::Ecdsa => 33,
    }
}

/// Signature length in bytes for each scheme; a pure function of the scheme,
/// as [`spec_key_length`] is.
pub open spec fn spec_signature_length(e: Encryption) -> int {
    match e {
        Encryption::Ed25519 => 64,
        Encryption::Sr25519 => 64,
        Encryption::Ecdsa => 65,
    }
}

/// A scheme encodes as its single tag byte.
pub open spec fn spec_encode(e: Encryption) -> Seq<u8> {
    match e {
        Encryption::Ed25519 => seq![0u8],
        Encryption::Sr25519 => seq![1u8],
        Encryption::Ecdsa => seq![2u8],
    }
}

/// Reads one tag byte at `pos`: 0, 1 and 2 name a scheme, anything else is an
/// unknown discriminant, and an exhausted buffer is a truncation.
pub open spec fn spec_decode(s: Seq<u8>, pos: int) -> Result<(Encryption, int), DecodeError> {
    if pos + 1 > s.len() {
        Err(DecodeError::TruncatedInput)
    } else if s[pos] == 0 {
        Ok((Encryption::Ed25519, pos + 1))
    } else if s[pos] == 1 {
        Ok((Encryption::Sr25519, pos + 1))
    } else if s[pos] == 2 {
        Ok((Encryption::Ecdsa, pos + 1))
    } else {
        Err(DecodeError::UnknownDiscriminant)
    }
}

impl Encryption {
    /// The scheme's human-readable name.
    pub open spec fn spec_name(&self) -> Seq<char> {
        match self {
            Encryption::Ed25519 => "Ed25519"@,
            Encryption::Sr25519 => "Sr25519"@,
            Encryption::Ecdsa => "Ecdsa"@,
        }
    }

    /// Length in bytes of a public key under this scheme.
    pub fn key_length(&self) -> (r: usize)
        ensures
            r == spec_key_length(*self),
    {
        match self {
            Encryption::Ed25519 => 32,
            Encryption::Sr25519 => 32,
            Encryption::Ecdsa => 33,
        }
    }

    /// Length in bytes of a signature under this scheme.
    pub fn signature_length(&self) -> (r: usize)
        ensures
            r == spec_signature_length(*self),
    {
        match self {
            Encryption::Ed25519 => 64,
            Encryption::Sr25519 => 64,
            Encryption::Ecdsa => 65,
        }
    }

    /// The scheme's name as text.
    pub fn name(&self) -> (s: String)
        ensures
            s@ == self.spec_name(),
    {
        match self {
            Encryption::Ed25519 => String::from_str("Ed25519"),
            Encryption::Sr25519 => String::from_str("Sr25519"),
            Encryption::Ecdsa => String::from_str("Ecdsa"),
        }
    }

    /// Appends this scheme's one-byte encoding to `out`.
    pub fn encode_to(&self, out: &mut Vec<u8>)
        ensures
            final(out)@ == old(out)@ + spec_encode(*self),
    {
        match self {
            Encryption::Ed25519 => out.push(0u8),
            Encryption::Sr25519 => out.push(1u8),
            Encryption::Ecdsa => out.push(2u8),
        }
        assert(out@ =~= old(out)@ + spec_encode(*self));
    }

    /// Encodes this scheme as its single tag byte.
    pub fn encode(&self) -> (r: Vec<u8>)
        ensures
            r@ == spec_encode(*self),
    {
        let mut out: Vec<u8> = Vec::new();
        self.encode_to(&mut out);
        assert(out@ =~= spec_encode(*self));
        out
    }

    /// Decodes a scheme from its tag byte at `pos`; on success the returned
    /// position is the first byte after it.
    pub fn decode(input: &[u8], pos: usize) -> (r: Result<(Self, usize), DecodeError>)
        requires
            pos <= input@.len(),
        ensures
            match r {
                Ok((v, n)) => spec_decode(input@, pos as int) == Ok::<_, DecodeError>((
                    v,
                    n as int,
                )) && pos < n <= input@.len(),
                Err(e) => spec_decode(input@, pos as int) == Err::<(Encryption, int), _>(e),
            },
    {
        if input.len() - pos < 1 {
            return Err(DecodeError::TruncatedInput);
        }
        let tag = input[pos];
        if tag == 0 {
            Ok((Encryption::Ed25519, pos + 1))
        } else if tag == 1 {
            Ok((Encryption::Sr25519, pos + 1))
        } else if tag == 2 {
            Ok((Encryption::Ecdsa, pos + 1))
        } else {
            Err(DecodeError::UnknownDiscriminant)
        }
    }
}

/// Law: a decoder accepts exactly the tag bytes 0, 1 and 2, mapping them to
/// `Ed25519`, `Sr25519` and `Ecdsa` in that order, and rejects every other
/// byte as an unknown discriminant.
pub proof fn lemma_tag_validation(s: Seq<u8>, pos: int)
    requires
        0 <= pos < s.len(),
    ensures
        s[pos] == 0 ==> spec_decode(s, pos) == Ok::<_, DecodeError>((Encryption::Ed25519, pos + 1)),
        s[pos] == 1 ==> spec_decode(s, pos) == Ok::<_, DecodeError>((Encryption::Sr25519, pos + 1)),
        s[pos] == 2 ==> spec_decode(s, pos) == Ok::<_, DecodeError>((Encryption::Ecdsa, pos + 1)),
        s[pos] > 2 ==> spec_decode(s, pos) == Err::<(Encryption, int), _>(
            DecodeError::UnknownDiscriminant,
        ),
{
}

/// Law: a scheme decodes back from its own encoding wherever that encoding
/// stands in a larger buffer, consuming exactly its own bytes.
pub proof fn lemma_round_trip(e: Encryption, s: Seq<u8>, pos: int)
    requires
        0 <= pos,
        pos + spec_encode(e).len() <= s.len(),
        s.subrange(pos, pos + spec_encode(e).len() as int) == spec_encode(e),
    ensures
        spec_decode(s, pos) == Ok::<_, DecodeError>((e, pos + spec_encode(e).len())),
{
    assert(s[pos] == spec_encode(e)[0]);
}

/// Law: round trip — decoding the encoding of any scheme yields the scheme
/// back with no bytes remaining.
pub proof fn lemma_round_trip_exact(e: Encryption)
    ensures
        spec_decode(spec_encode(e), 0) == Ok::<_, DecodeError>((e, spec_encode(e).len() as int)),
{
    let enc = spec_encode(e);
    assert(enc.subrange(0, enc.len() as int) =~= enc);
    lemma_round_trip(e, enc, 0);
}

} // verus!
