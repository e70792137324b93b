//! A key-derivation request: a derivation path as UTF-8 text, and a flag
//! saying whether a password must accompany it.  The path travels as a
//! length-prefixed byte sequence; a decoder rejects bytes that are not valid
//! UTF-8 instead of constructing a garbled path.

use vstd::prelude::*;
use vstd::utf8::decode_utf8;
use vstd::utf8::decode_utf8_encode_utf8;
use vstd::utf8::encode_utf8;
use vstd::utf8::encode_utf8_decode_utf8;
use vstd::utf8::encode_utf8_valid_utf8;
use vstd::utf8::valid_utf8;

use crate::blob;
use crate::error::DecodeError;

verus! {

/// A derivation path together with the flag that says whether a password is
/// required alongside it.
#[derive(Debug)]
pub struct DerivationInfo {
    pub cut_path: String,
    pub has_pwd: bool,
}

/// The mathematical model of a derivation request: the path's characters and
/// the flag.
#[verifier::ext_equal]
pub struct DerivationInfoView {
    pub cut_path: Seq<char>,
    pub has_pwd: bool,
}

impl View for DerivationInfo {
    type V = DerivationInfoView;

    open spec fn view(&self) -> DerivationInfoView {
        DerivationInfoView { cut_path: self.cut_path@, has_pwd: self.has_pwd }
    }
}

/// The UTF-8 bytes of the path.
pub open spec fn spec_path_bytes(v: DerivationInfoView) -> Seq<u8> {
    encode_utf8(v.cut_path)
}

/// A well-formed request's path is short enough for a length prefix.
pub open spec fn spec_wf(v: DerivationInfoView) -> bool {
    blob::fits_length_prefix(spec_path_bytes(v))
}

/// The byte a boolean travels as.
pub open spec fn spec_bool_byte(b: bool) -> u8 {
    if b {
        1u8
    } else {
        0u8
    }
}

/// The length-prefixed UTF-8 bytes of the path, then one flag byte.
pub open spec fn spec_encode(v: DerivationInfoView) -> Seq<u8>
    recommends
        spec_wf(v),
{
    blob::spec_encode(spec_path_bytes(v)) + seq![spec_bool_byte(v.has_pwd)]
}

/// Reads the length-prefixed text at `pos` — rejecting bytes that are not
/// valid UTF-8 — then the flag byte, which must be 0 or 1.
pub open spec fn spec_decode(s: Seq<u8>, pos: int) -> Result<(DerivationInfoView, int), DecodeError>
    recommends
        0 <= pos,
{
    match blob::spec_decode(s, pos) {
        Err(e) => Err(e),
        Ok((b, p)) => if !valid_utf8(b) {
            Err(DecodeError::MalformedText)
        } else if p + 1 > s.len() {
            Err(DecodeError::TruncatedInput)
        } else if s[p] == 0 {
            Ok((DerivationInfoView { cut_path: decode_utf8(b), has_pwd: false }, p + 1))
        } else if s[p] == 1 {
            Ok((DerivationInfoView { cut_path: decode_utf8(b), has_pwd: true }, p + 1))
        } else {
            Err(DecodeError::UnknownDiscriminant)
        },
    }
}

/// Relies on String::from_utf8: it returns the string reading exactly the
/// given bytes when they are valid UTF-8, and reports the defect otherwise
/// (mapped here to `None`).
#[verifier::external_body]
fn string_from_utf8(bytes: Vec<u8>) -> (r: Option<String>)
    ensures
        r is Some <==> valid_utf8(bytes@),
        r is Some ==> r.unwrap()@ == decode_utf8(bytes@),
{
    match String::from_utf8(bytes) {
        Ok(s) => Some(s),
        Err(_) => None,
    }
}

impl DerivationInfo {
    /// Well-formedness: the path's UTF-8 form is short enough for a length
    /// prefix.
    pub open spec fn wf(&self) -> bool {
        spec_wf(self@)
    }

    /// Appends this request's encoding to `out`.
    pub fn encode_to(&self, out: &mut Vec<u8>)
        requires
            self.wf(),
        ensures
            final(out)@ == old(out)@ + spec_encode(self@),
    {
        blob::encode_to(out, self.cut_path.as_str().as_bytes());
        out.push(if self.has_pwd {
            1u8
        } else {
            0u8
        });
        assert(out@ =~= old(out)@ + spec_encode(self@));
    }

    /// Encodes this request: the length-prefixed path, then the flag byte.
    pub fn encode(&self) -> (r: Vec<u8>)
        requires
            self.wf(),
        ensures
            r@ == spec_encode(self@),
    {
        let mut out: Vec<u8> = Vec::new();
        self.encode_to(&mut out);
        assert(out@ =~= spec_encode(self@));
        out
    }

    /// Decodes a request at `pos`; on success the returned position is the
    /// first byte after the flag, and the request is well formed.
    pub fn decode(input: &[u8], pos: usize) -> (r: Result<(Self, usize), DecodeError>)
        requires
            pos <= input@.len(),
        ensures
            match r {
                Ok((v, n)) => spec_decode(input@, pos as int) == Ok::<_, DecodeError>((
                    v@,
                    n as int,
                )) && pos < n <= input@.len() && v.wf(),
                Err(e) => spec_decode(input@, pos as int) == Err::<(DerivationInfoView, int), _>(e),
            },
    {
        let (b, p) = match blob::decode(input, pos) {
            Ok(x) => x,
            Err(e) => {
                return Err(e);
            },
        };
        let ghost bseq = b@;
        let text = match string_from_utf8(b) {
            Some(s) => s,
            None => {
                return Err(DecodeError::MalformedText);
            },
        };
        if input.len() - p < 1 {
            return Err(DecodeError::TruncatedInput);
        }
        proof {
            decode_utf8_encode_utf8(bseq);
        }
        let flag = input[p];
        if flag == 0 {
            Ok((DerivationInfo { cut_path: text, has_pwd: false }, p + 1))
        } else if flag == 1 {
            Ok((DerivationInfo { cut_path: text, has_pwd: true }, p + 1))
        } else {
            Err(DecodeError::UnknownDiscriminant)
        }
    }
}

/// Law: a well-formed request decodes back from its own encoding wherever
/// that encoding stands in a larger buffer, consuming exactly its own bytes.
pub proof fn lemma_round_trip(v: DerivationInfoView, s: Seq<u8>, pos: int)
    requires
        spec_wf(v),
        0 <= pos,
        pos + spec_encode(v).len() <= s.len(),
        s.subrange(pos, pos + spec_encode(v).len() as int) == spec_encode(v),
    ensures
        spec_decode(s, pos) == Ok::<_, DecodeError>((v, pos + spec_encode(v).len())),
{
    let pb = spec_path_bytes(v);
    let a = blob::spec_encode(pb);
    let fb = seq![spec_bool_byte(v.has_pwd)];
    blob::lemma_concat_fields(s, pos, a, fb);
    blob::lemma_round_trip(pb, s, pos);
    encode_utf8_valid_utf8(v.cut_path);
    encode_utf8_decode_utf8(v.cut_path);
    assert(s.subrange(pos + a.len() as int, pos + a.len() + 1)[0] == s[pos + a.len() as int]);
    assert(s[pos + a.len() as int] == spec_bool_byte(v.has_pwd));
}

/// Law: round trip — decoding the encoding of any well-formed request yields
/// the request back with no bytes remaining.
pub proof fn lemma_round_trip_exact(v: DerivationInfoView)
    requires
        spec_wf(v),
    ensures
        spec_decode(spec_encode(v), 0) == Ok::<_, DecodeError>((v, spec_encode(v).len() as int)),
{
    let e = spec_encode(v);
    assert(e.subrange(0, e.len() as int) =~= e);
    lemma_round_trip(v, e, 0);
}

} // verus!
