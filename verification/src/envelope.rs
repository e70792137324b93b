//! The outer transfer envelope: an already-encoded payload, the companion's
//! signature over it, and the companion's raw public key.  The key carries no
//! scheme tag of its own — which scheme governs it is context the caller must
//! supply, so a checker for that context is offered beside the codec.

use vstd::prelude::*;

use crate::blob;
use crate::error::DecodeError;
use crate::scheme;
use crate::scheme::Encryption;

verus! {

/// Proof that a companion endorsed a blob before forwarding it: the blob, a
/// signature over it, and the raw public key that made the signature.
#[derive(Debug)]
pub struct TransferData {
    pub encoded_data: Vec<u8>,
    pub companion_signature: Vec<u8>,
    pub companion_public_key: Vec<u8>,
}

/// The mathematical model of a transfer envelope.
#[verifier::ext_equal]
pub struct TransferDataView {
    pub encoded_data: Seq<u8>,
    pub companion_signature: Seq<u8>,
    pub companion_public_key: Seq<u8>,
}

impl View for TransferData {
    type V = TransferDataView;

    open spec fn view(&self) -> TransferDataView {
        TransferDataView {
            encoded_data: self.encoded_data@,
            companion_signature: self.companion_signature@,
            companion_public_key: self.companion_public_key@,
        }
    }
}

/// A well-formed envelope: each field is short enough for a length prefix.
pub open spec fn spec_wf(v: TransferDataView) -> bool {
    &&& blob::fits_length_prefix(v.encoded_data)
    &&& blob::fits_length_prefix(v.companion_signature)
    &&& blob::fits_length_prefix(v.companion_public_key)
}

/// The three fields, each length-prefixed, in declared order.
pub open spec fn spec_encode(v: TransferDataView) -> Seq<u8>
    recommends
        spec_wf(v),
{
    blob::spec_encode(v.encoded_data) + blob::spec_encode(v.companion_signature)
        + blob::spec_encode(v.companion_public_key)
}

/// Reads the three length-prefixed fields at `pos`, in declared order.
pub open spec fn spec_decode(s: Seq<u8>, pos: int) -> Result<(TransferDataView, int), DecodeError>
    recommends
        0 <= pos,
{
    match blob::spec_decode(s, pos) {
        Err(e) => Err(e),
        Ok((d, p1)) => match blob::spec_decode(s, p1) {
            Err(e) => Err(e),
            Ok((sig, p2)) => match blob::spec_decode(s, p2) {
                Err(e) => Err(e),
                Ok((k, p3)) => Ok(
                    (
                        TransferDataView {
                            encoded_data: d,
                            companion_signature: sig,
                            companion_public_key: k,
                        },
                        p3,
                    ),
                ),
            },
        },
    }
}

/// A strict top-level decode: the whole buffer must be one envelope, with no
/// bytes left over.
pub open spec fn spec_decode_all(s: Seq<u8>) -> Result<TransferDataView, DecodeError> {
    match spec_decode(s, 0) {
        Err(e) => Err(e),
        Ok((v, n)) => if n == s.len() {
            Ok(v)
        } else {
            Err(DecodeError::TrailingBytes)
        },
    }
}

impl TransferData {
    /// Well-formedness of the envelope.
    pub open spec fn wf(&self) -> bool {
        spec_wf(self@)
    }

    /// Appends this envelope's encoding to `out`.
    pub fn encode_to(&self, out: &mut Vec<u8>)
        requires
            self.wf(),
        ensures
            final(out)@ == old(out)@ + spec_encode(self@),
    {
        blob::encode_to(out, self.encoded_data.as_slice());
        blob::encode_to(out, self.companion_signature.as_slice());
        blob::encode_to(out, self.companion_public_key.as_slice());
        assert(out@ =~= old(out)@ + spec_encode(self@));
    }

    /// Encodes this envelope: the three fields, each length-prefixed.
    pub fn encode(&self) -> (r: Vec<u8>)
        requires
            self.wf(),
        ensures
            r@ == spec_encode(self@),
    {
        let mut out: Vec<u8> = Vec::new();
        self.encode_to(&mut out);
        assert(out@ =~= spec_encode(self@));
        out
    }

    /// Decodes an envelope at `pos`; on success the returned position is the
    /// first byte after the key, and the envelope is well formed.
    pub fn decode(input: &[u8], pos: usize) -> (r: Result<(Self, usize), DecodeError>)
        requires
            pos <= input@.len(),
        ensures
            match r {
                Ok((v, n)) => spec_decode(input@, pos as int) == Ok::<_, DecodeError>((
                    v@,
                    n as int,
                )) && pos < n <= input@.len() && v.wf(),
                Err(e) => spec_decode(input@, pos as int) == Err::<(TransferDataView, int), _>(e),
            },
    {
        let (d, p1) = match blob::decode(input, pos) {
            Ok(x) => x,
            Err(e) => {
                return Err(e);
            },
        };
        let (sig, p2) = match blob::decode(input, p1) {
            Ok(x) => x,
            Err(e) => {
                return Err(e);
            },
        };
        let (k, p3) = match blob::decode(input, p2) {
            Ok(x) => x,
            Err(e) => {
                return Err(e);
            },
        };
        Ok(
            (
                TransferData {
                    encoded_data: d,
                    companion_signature: sig,
                    companion_public_key: k,
                },
                p3,
            ),
        )
    }

    /// Strict top-level decode: the whole buffer must be one envelope, with
    /// no bytes left over.
    pub fn decode_all(input: &[u8]) -> (r: Result<Self, DecodeError>)
        ensures
            match r {
                Ok(v) => spec_decode_all(input@) == Ok::<_, DecodeError>(v@) && v.wf(),
                Err(e) => spec_decode_all(input@) == Err::<TransferDataView, _>(e),
            },
    {
        let (v, n) = match Self::decode(input, 0) {
            Ok(x) => x,
            Err(e) => {
                return Err(e);
            },
        };
        if n != input.len() {
            return Err(DecodeError::TrailingBytes);
        }
        Ok(v)
    }

    /// Whether the raw public key has the length that the given scheme fixes.
    /// The envelope embeds no scheme of its own, so the governing scheme is
    /// context the caller passes in explicitly.
    pub fn key_matches_scheme(&self, scheme: Encryption) -> (r: bool)
        ensures
            r == (self@.companion_public_key.len() == scheme::spec_key_length(scheme)),
    {
        self.companion_public_key.len() == scheme.key_length()
    }
}

/// Law: a well-formed envelope decodes back from its own encoding wherever
/// that encoding stands in a larger buffer, consuming exactly its own bytes.
pub proof fn lemma_round_trip(v: TransferDataView, s: Seq<u8>, pos: int)
    requires
        spec_wf(v),
        0 <= pos,
        pos + spec_encode(v).len() <= s.len(),
        s.subrange(pos, pos + spec_encode(v).len() as int) == spec_encode(v),
    ensures
        spec_decode(s, pos) == Ok::<_, DecodeError>((v, pos + spec_encode(v).len())),
{
    let b1 = blob::spec_encode(v.encoded_data);
    let b2 = blob::spec_encode(v.companion_signature);
    let b3 = blob::spec_encode(v.companion_public_key);
    assert(spec_encode(v) =~= b1 + (b2 + b3));
    assert(s.subrange(pos, pos + b1.len() + (b2 + b3).len()) == b1 + (b2 + b3));
    blob::lemma_concat_fields(s, pos, b1, b2 + b3);
    blob::lemma_concat_fields(s, pos + b1.len() as int, b2, b3);
    blob::lemma_round_trip(v.encoded_data, s, pos);
    blob::lemma_round_trip(v.companion_signature, s, pos + b1.len());
    blob::lemma_round_trip(v.companion_public_key, s, pos + b1.len() + b2.len());
}

/// Law: round trip — strictly decoding the encoding of any well-formed
/// envelope yields the envelope back, with no bytes remaining.
pub proof fn lemma_round_trip_exact(v: TransferDataView)
    requires
        spec_wf(v),
    ensures
        spec_decode(spec_encode(v), 0) == Ok::<_, DecodeError>((v, spec_encode(v).len() as int)),
        spec_decode_all(spec_encode(v)) == Ok::<_, DecodeError>(v),
{
    let e = spec_encode(v);
    assert(e.subrange(0, e.len() as int) =~= e);
    lemma_round_trip(v, e, 0);
}

} // verus!
