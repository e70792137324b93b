//! Attribution of a payload to a public key under one of the supported
//! signature schemes.  A signer encodes as its scheme's tag byte followed by
//! the raw key — a fixed-size array whose length the scheme table fixes, so
//! no length prefix is written and none is read.

use vstd::prelude::*;
use vstd::slice::slice_subrange;
use vstd::slice::slice_to_vec;

use crate::blob;
use crate::error::DecodeError;
use crate::scheme;
use crate::scheme::Encryption;

verus! {

/// Who produced or owns a payload: a public key under one of the three
/// schemes.  The key is carried raw; a well-formed value holds exactly as
/// many bytes as its scheme's fixed key length.
#[derive(Clone, Debug)]
pub enum MultiSigner {
    Ed25519(Vec<u8>),
    Sr25519(Vec<u8>),
    Ecdsa(Vec<u8>),
}

/// The mathematical model of a signer: the same three variants over the key's
/// byte sequence.
#[verifier::ext_equal]
pub enum SignerView {
    Ed25519(Seq<u8>),
    Sr25519(Seq<u8>),
    Ecdsa(Seq<u8>),
}

impl View for MultiSigner {
    type V = SignerView;

    open spec fn view(&self) -> SignerView {
        match self {
            MultiSigner::Ed25519(k) => SignerView::Ed25519(k@),
            MultiSigner::Sr25519(k) => SignerView::Sr25519(k@),
            MultiSigner::Ecdsa(k) => SignerView::Ecdsa(k@),
        }
    }
}

/// The scheme a signer's variant names.
pub open spec fn spec_scheme(v: SignerView) -> Encryption {
    match v {
        SignerView::Ed25519(_) => Encryption::Ed25519,
        SignerView::Sr25519(_) => Encryption::Sr25519,
        SignerView::Ecdsa(_) => Encryption::Ecdsa,
    }
}

/// The key bytes a signer carries.
pub open spec fn spec_key(v: SignerView) -> Seq<u8> {
    match v {
        SignerView::Ed25519(k) => k,
        SignerView::Sr25519(k) => k,
        SignerView::Ecdsa(k) => k,
    }
}

/// The signer with the given scheme and key bytes.
pub open spec fn spec_make(e: Encryption, k: Seq<u8>) -> SignerView {
    match e {
        Encryption::Ed25519 => SignerView::Ed25519(k),
        Encryption::Sr25519 => SignerView::Sr25519(k),
        Encryption::Ecdsa => SignerView::Ecdsa(k),
    }
}

/// A well-formed signer's key has exactly the length its scheme fixes.
pub open spec fn spec_wf(v: SignerView) -> bool {
    spec_key(v).len() == scheme::spec_key_length(spec_scheme(v))
}

/// The scheme's tag byte, then the raw key.
pub open spec fn spec_encode(v: SignerView) -> Seq<u8>
    recommends
        spec_wf(v),
{
    scheme::spec_encode(spec_scheme(v)) + spec_key(v)
}

/// Reads a scheme tag at `pos`, then exactly the key length that the scheme
/// table fixes for it — never a length inferred from the remaining buffer.
pub open spec fn spec_decode(s: Seq<u8>, pos: int) -> Result<(SignerView, int), DecodeError>
    recommends
        0 <= pos,
{
    match scheme::spec_decode(s, pos) {
        Err(e) => Err(e),
        Ok((e, p)) => {
            let n = scheme::spec_key_length(e);
            if p + n <= s.len() {
                Ok((spec_make(e, s.subrange(p, p + n)), p + n))
            } else {
                Err(DecodeError::TruncatedInput)
            }
        },
    }
}

impl MultiSigner {
    /// Well-formedness: the key has exactly the scheme's fixed length.
    pub open spec fn wf(&self) -> bool {
        spec_wf(self@)
    }

    /// The scheme under which this signer's key lives.
    pub fn scheme(&self) -> (r: Encryption)
        ensures
            r == spec_scheme(self@),
    {
        match self {
            MultiSigner::Ed25519(_) => Encryption::Ed25519,
            MultiSigner::Sr25519(_) => Encryption::Sr25519,
            MultiSigner::Ecdsa(_) => Encryption::Ecdsa,
        }
    }

    /// Appends this signer's encoding to `out`.
    pub fn encode_to(&self, out: &mut Vec<u8>)
        ensures
            final(out)@ == old(out)@ + spec_encode(self@),
    {
        match self {
            MultiSigner::Ed25519(k) => {
                out.push(0u8);
                out.extend_from_slice(k.as_slice());
            },
            MultiSigner::Sr25519(k) => {
                out.push(1u8);
                out.extend_from_slice(k.as_slice());
            },
            MultiSigner::Ecdsa(k) => {
                out.push(2u8);
                out.extend_from_slice(k.as_slice());
            },
        }
        assert(out@ =~= old(out)@ + spec_encode(self@));
    }

    /// Encodes this signer: the scheme's tag byte, then the raw key.
    pub fn encode(&self) -> (r: Vec<u8>)
        ensures
            r@ == spec_encode(self@),
    {
        let mut out: Vec<u8> = Vec::new();
        self.encode_to(&mut out);
        assert(out@ =~= spec_encode(self@));
        out
    }

    /// Decodes a signer at `pos`; on success the returned position is the
    /// first byte after the key, and the signer is well formed.
    pub fn decode(input: &[u8], pos: usize) -> (r: Result<(Self, usize), DecodeError>)
        requires
            pos <= input@.len(),
        ensures
            match r {
                Ok((v, n)) => spec_decode(input@, pos as int) == Ok::<_, DecodeError>((
                    v@,
                    n as int,
                )) && pos < n <= input@.len() && v.wf(),
                Err(e) => spec_decode(input@, pos as int) == Err::<(SignerView, int), _>(e),
            },
    {
        let (e, p) = match Encryption::decode(input, pos) {
            Ok(x) => x,
            Err(er) => {
                return Err(er);
            },
        };
        let klen = e.key_length();
        if klen > input.len() - p {
            return Err(DecodeError::TruncatedInput);
        }
        let k = slice_to_vec(slice_subrange(input, p, p + klen));
        let v = match e {
            Encryption::Ed25519 => MultiSigner::Ed25519(k),
            Encryption::Sr25519 => MultiSigner::Sr25519(k),
            Encryption::Ecdsa => MultiSigner::Ecdsa(k),
        };
        Ok((v, p + klen))
    }
}

/// Law: a well-formed signer's encoding is exactly one tag byte plus its
/// scheme's fixed key length.
pub proof fn lemma_encoded_length(v: SignerView)
    requires
        spec_wf(v),
    ensures
        spec_encode(v).len() == 1 + scheme::spec_key_length(spec_scheme(v)),
{
}

/// Law: a well-formed signer decodes back from its own encoding wherever that
/// encoding stands in a larger buffer, consuming exactly its own bytes.
pub proof fn lemma_round_trip(v: SignerView, s: Seq<u8>, pos: int)
    requires
        spec_wf(v),
        0 <= pos,
        pos + spec_encode(v).len() <= s.len(),
        s.subrange(pos, pos + spec_encode(v).len() as int) == spec_encode(v),
    ensures
        spec_decode(s, pos) == Ok::<_, DecodeError>((v, pos + spec_encode(v).len())),
{
    let t = scheme::spec_encode(spec_scheme(v));
    let k = spec_key(v);
    blob::lemma_concat_fields(s, pos, t, k);
    scheme::lemma_round_trip(spec_scheme(v), s, pos);
    assert(spec_make(spec_scheme(v), k) == v);
}

/// Law: round trip — decoding the encoding of any well-formed signer yields
/// the signer back with no bytes remaining.
pub proof fn lemma_round_trip_exact(v: SignerView)
    requires
        spec_wf(v),
    ensures
        spec_decode(spec_encode(v), 0) == Ok::<_, DecodeError>((v, spec_encode(v).len() as int)),
{
    let e = spec_encode(v);
    assert(e.subrange(0, e.len() as int) =~= e);
    lemma_round_trip(v, e, 0);
}

} // verus!
