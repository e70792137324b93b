//! The message catalog itself: the closed union of contents a companion may
//! transmit, and the bodies its variants carry.  Every body is an ordered
//! struct — fields encode by concatenation in declared order and decode in
//! the same order, threading the cursor through each step.

use vstd::prelude::*;
use vstd::slice::slice_subrange;
use vstd::slice::slice_to_vec;

use crate::blob;
use crate::derivation;
use crate::derivation::DerivationInfo;
use crate::derivation::DerivationInfoView;
use crate::error::DecodeError;
use crate::signer;
use crate::signer::MultiSigner;
use crate::signer::SignerView;

verus! {

/// An arbitrary byte blob together with the signer who supplied it.
#[derive(Debug)]
pub struct Bytes {
    pub bytes_uncut: Vec<u8>,
    pub signer: MultiSigner,
}

/// The mathematical model of a [`Bytes`] body.
#[verifier::ext_equal]
pub struct BytesView {
    pub bytes_uncut: Seq<u8>,
    pub signer: SignerView,
}

impl View for Bytes {
    type V = BytesView;

    open spec fn view(&self) -> BytesView {
        BytesView { bytes_uncut: self.bytes_uncut@, signer: self.signer@ }
    }
}

/// A transaction to be signed: the chain's 32-byte genesis identifier, the
/// encoded short chain metadata, the encoded transaction body, and the signer.
#[derive(Debug)]
pub struct Transaction {
    pub genesis_hash: Vec<u8>,
    pub encoded_short_meta: Vec<u8>,
    pub encoded_signable_transaction: Vec<u8>,
    pub signer: MultiSigner,
}

/// The mathematical model of a [`Transaction`] body.
#[verifier::ext_equal]
pub struct TransactionView {
    pub genesis_hash: Seq<u8>,
    pub encoded_short_meta: Seq<u8>,
    pub encoded_signable_transaction: Seq<u8>,
    pub signer: SignerView,
}

impl View for Transaction {
    type V = TransactionView;

    open spec fn view(&self) -> TransactionView {
        TransactionView {
            genesis_hash: self.genesis_hash@,
            encoded_short_meta: self.encoded_short_meta@,
            encoded_signable_transaction: self.encoded_signable_transaction@,
            signer: self.signer@,
        }
    }
}

/// The closed set of contents the companion may transmit, with the stable
/// tags 0 to 3.
#[derive(Debug)]
pub enum TransmittableContent {
    KampelaStop,
    Bytes(Bytes),
    Derivation(DerivationInfo),
    SignableTransaction(Transaction),
}

/// The mathematical model of a [`TransmittableContent`].
#[verifier::ext_equal]
pub enum ContentView {
    KampelaStop,
    Bytes(BytesView),
    Derivation(DerivationInfoView),
    SignableTransaction(TransactionView),
}

impl View for TransmittableContent {
    type V = ContentView;

    open spec fn view(&self) -> ContentView {
        match self {
            TransmittableContent::KampelaStop => ContentView::KampelaStop,
            TransmittableContent::Bytes(b) => ContentView::Bytes(b@),
            TransmittableContent::Derivation(d) => ContentView::Derivation(d@),
            TransmittableContent::SignableTransaction(t) => ContentView::SignableTransaction(t@),
        }
    }
}

/// The number of bytes of a genesis identifier: fixed by the type, not by a
/// scheme and not by the remaining buffer.
pub open spec fn spec_genesis_hash_length() -> int {
    32
}

/// A well-formed blob body: the bytes are short enough for a length prefix
/// and the signer is well formed.
pub open spec fn spec_wf_bytes(v: BytesView) -> bool {
    blob::fits_length_prefix(v.bytes_uncut) && signer::spec_wf(v.signer)
}

/// Length-prefixed blob, then the signer.
pub open spec fn spec_encode_bytes(v: BytesView) -> Seq<u8>
    recommends
        spec_wf_bytes(v),
{
    blob::spec_encode(v.bytes_uncut) + signer::spec_encode(v.signer)
}

/// Reads the length-prefixed blob at `pos`, then the signer.
pub open spec fn spec_decode_bytes(s: Seq<u8>, pos: int) -> Result<(BytesView, int), DecodeError>
    recommends
        0 <= pos,
{
    match blob::spec_decode(s, pos) {
        Err(e) => Err(e),
        Ok((b, p)) => match signer::spec_decode(s, p) {
            Err(e) => Err(e),
            Ok((sg, p2)) => Ok((BytesView { bytes_uncut: b, signer: sg }, p2)),
        },
    }
}

/// A well-formed transaction body: a 32-byte genesis identifier, both encoded
/// blobs short enough for a length prefix, and a well-formed signer.
pub open spec fn spec_wf_transaction(v: TransactionView) -> bool {
    &&& v.genesis_hash.len() == spec_genesis_hash_length()
    &&& blob::fits_length_prefix(v.encoded_short_meta)
    &&& blob::fits_length_prefix(v.encoded_signable_transaction)
    &&& signer::spec_wf(v.signer)
}

/// The raw genesis identifier (no prefix), the two length-prefixed blobs,
/// then the signer.
pub open spec fn spec_encode_transaction(v: TransactionView) -> Seq<u8>
    recommends
        spec_wf_transaction(v),
{
    v.genesis_hash + blob::spec_encode(v.encoded_short_meta) + blob::spec_encode(
        v.encoded_signable_transaction,
    ) + signer::spec_encode(v.signer)
}

/// Reads exactly 32 raw bytes, the two length-prefixed blobs, then the
/// signer, in declared order.
pub open spec fn spec_decode_transaction(s: Seq<u8>, pos: int) -> Result<
    (TransactionView, int),
    DecodeError,
>
    recommends
        0 <= pos,
{
    if pos + spec_genesis_hash_length() > s.len() {
        Err(DecodeError::TruncatedInput)
    } else {
        match blob::spec_decode(s, pos + spec_genesis_hash_length()) {
            Err(e) => Err(e),
            Ok((m, p1)) => match blob::spec_decode(s, p1) {
                Err(e) => Err(e),
                Ok((t, p2)) => match signer::spec_decode(s, p2) {
                    Err(e) => Err(e),
                    Ok((sg, p3)) => Ok(
                        (
                            TransactionView {
                                genesis_hash: s.subrange(pos, pos + spec_genesis_hash_length()),
                                encoded_short_meta: m,
                                encoded_signable_transaction: t,
                                signer: sg,
                            },
                            p3,
                        ),
                    ),
                },
            },
        }
    }
}

/// A well-formed content: its body, if any, is well formed.
pub open spec fn spec_wf_content(v: ContentView) -> bool {
    match v {
        ContentView::KampelaStop => true,
        ContentView::Bytes(b) => spec_wf_bytes(b),
        ContentView::Derivation(d) => derivation::spec_wf(d),
        ContentView::SignableTransaction(t) => spec_wf_transaction(t),
    }
}

/// One tag byte — the variant's declared index — then the variant's body,
/// empty for the stop sentinel.
pub open spec fn spec_encode_content(v: ContentView) -> Seq<u8>
    recommends
        spec_wf_content(v),
{
    match v {
        ContentView::KampelaStop => seq![0u8],
        ContentView::Bytes(b) => seq![1u8] + spec_encode_bytes(b),
        ContentView::Derivation(d) => seq![2u8] + derivation::spec_encode(d),
        ContentView::SignableTransaction(t) => seq![3u8] + spec_encode_transaction(t),
    }
}

/// Reads the tag byte at `pos` and then the named variant's body; a tag
/// outside 0 to 3 is an unknown discriminant, never a silent default.
pub open spec fn spec_decode_content(s: Seq<u8>, pos: int) -> Result<(ContentView, int), DecodeError>
    recommends
        0 <= pos,
{
    if pos + 1 > s.len() {
        Err(DecodeError::TruncatedInput)
    } else if s[pos] == 0 {
        Ok((ContentView::KampelaStop, pos + 1))
    } else if s[pos] == 1 {
        match spec_decode_bytes(s, pos + 1) {
            Err(e) => Err(e),
            Ok((b, p)) => Ok((ContentView::Bytes(b), p)),
        }
    } else if s[pos] == 2 {
        match derivation::spec_decode(s, pos + 1) {
            Err(e) => Err(e),
            Ok((d, p)) => Ok((ContentView::Derivation(d), p)),
        }
    } else if s[pos] == 3 {
        match spec_decode_transaction(s, pos + 1) {
            Err(e) => Err(e),
            Ok((t, p)) => Ok((ContentView::SignableTransaction(t), p)),
        }
    } else {
        Err(DecodeError::UnknownDiscriminant)
    }
}

/// A strict top-level decode: the whole buffer must be one content, with no
/// bytes left over.
pub open spec fn spec_decode_content_all(s: Seq<u8>) -> Result<ContentView, DecodeError> {
    match spec_decode_content(s, 0) {
        Err(e) => Err(e),
        Ok((v, n)) => if n == s.len() {
            Ok(v)
        } else {
            Err(DecodeError::TrailingBytes)
        },
    }
}

impl Bytes {
    /// Well-formedness of the body.
    pub open spec fn wf(&self) -> bool {
        spec_wf_bytes(self@)
    }

    /// Appends this body's encoding to `out`.
    pub fn encode_to(&self, out: &mut Vec<u8>)
        requires
            self.wf(),
        ensures
            final(out)@ == old(out)@ + spec_encode_bytes(self@),
    {
        blob::encode_to(out, self.bytes_uncut.as_slice());
        self.signer.encode_to(out);
        assert(out@ =~= old(out)@ + spec_encode_bytes(self@));
    }

    /// Encodes this body: the length-prefixed blob, then the signer.
    pub fn encode(&self) -> (r: Vec<u8>)
        requires
            self.wf(),
        ensures
            r@ == spec_encode_bytes(self@),
    {
        let mut out: Vec<u8> = Vec::new();
        self.encode_to(&mut out);
        assert(out@ =~= spec_encode_bytes(self@));
        out
    }

    /// Decodes a body at `pos`; on success the returned position is the first
    /// byte after the signer, and the body is well formed.
    pub fn decode(input: &[u8], pos: usize) -> (r: Result<(Self, usize), DecodeError>)
        requires
            pos <= input@.len(),
        ensures
            match r {
                Ok((v, n)) => spec_decode_bytes(input@, pos as int) == Ok::<_, DecodeError>((
                    v@,
                    n as int,
                )) && pos < n <= input@.len() && v.wf(),
                Err(e) => spec_decode_bytes(input@, pos as int) == Err::<(BytesView, int), _>(e),
            },
    {
        let (b, p) = match blob::decode(input, pos) {
            Ok(x) => x,
            Err(e) => {
                return Err(e);
            },
        };
        let (sg, p2) = match MultiSigner::decode(input, p) {
            Ok(x) => x,
            Err(e) => {
                return Err(e);
            },
        };
        Ok((Bytes { bytes_uncut: b, signer: sg }, p2))
    }
}

impl Transaction {
    /// Well-formedness of the body.
    pub open spec fn wf(&self) -> bool {
        spec_wf_transaction(self@)
    }

    /// Appends this body's encoding to `out`.
    pub fn encode_to(&self, out: &mut Vec<u8>)
        requires
            self.wf(),
        ensures
            final(out)@ == old(out)@ + spec_encode_transaction(self@),
    {
        out.extend_from_slice(self.genesis_hash.as_slice());
        blob::encode_to(out, self.encoded_short_meta.as_slice());
        blob::encode_to(out, self.encoded_signable_transaction.as_slice());
        self.signer.encode_to(out);
        assert(out@ =~= old(out)@ + spec_encode_transaction(self@));
    }

    /// Encodes this body: the raw genesis identifier, the two
    /// length-prefixed blobs, then the signer.
    pub fn encode(&self) -> (r: Vec<u8>)
        requires
            self.wf(),
        ensures
            r@ == spec_encode_transaction(self@),
    {
        let mut out: Vec<u8> = Vec::new();
        self.encode_to(&mut out);
        assert(out@ =~= spec_encode_transaction(self@));
        out
    }

    /// Decodes a body at `pos`; on success the returned position is the first
    /// byte after the signer, and the body is well formed.
    pub fn decode(input: &[u8], pos: usize) -> (r: Result<(Self, usize), DecodeError>)
        requires
            pos <= input@.len(),
        ensures
            match r {
                Ok((v, n)) => spec_decode_transaction(input@, pos as int) == Ok::<_, DecodeError>((
                    v@,
                    n as int,
                )) && pos < n <= input@.len() && v.wf(),
                Err(e) => spec_decode_transaction(input@, pos as int) == Err::<
                    (TransactionView, int),
                    _,
                >(e),
            },
    {
        if input.len() - pos < 32 {
            return Err(DecodeError::TruncatedInput);
        }
        let gh = slice_to_vec(slice_subrange(input, pos, pos + 32));
        let (m, p1) = match blob::decode(input, pos + 32) {
            Ok(x) => x,
            Err(e) => {
                return Err(e);
            },
        };
        let (t, p2) = match blob::decode(input, p1) {
            Ok(x) => x,
            Err(e) => {
                return Err(e);
            },
        };
        let (sg, p3) = match MultiSigner::decode(input, p2) {
            Ok(x) => x,
            Err(e) => {
                return Err(e);
            },
        };
        Ok(
            (
                Transaction {
                    genesis_hash: gh,
                    encoded_short_meta: m,
                    encoded_signable_transaction: t,
                    signer: sg,
                },
                p3,
            ),
        )
    }
}

impl TransmittableContent {
    /// Well-formedness of the content.
    pub open spec fn wf(&self) -> bool {
        spec_wf_content(self@)
    }

    /// Appends this content's encoding to `out`.
    pub fn encode_to(&self, out: &mut Vec<u8>)
        requires
            self.wf(),
        ensures
            final(out)@ == old(out)@ + spec_encode_content(self@),
    {
        match self {
            TransmittableContent::KampelaStop => {
                out.push(0u8);
            },
            TransmittableContent::Bytes(b) => {
                out.push(1u8);
                b.encode_to(out);
            },
            TransmittableContent::Derivation(d) => {
                out.push(2u8);
                d.encode_to(out);
            },
            TransmittableContent::SignableTransaction(t) => {
                out.push(3u8);
                t.encode_to(out);
            },
        }
        assert(out@ =~= old(out)@ + spec_encode_content(self@));
    }

    /// Encodes this content: the variant's tag byte, then its body.
    pub fn encode(&self) -> (r: Vec<u8>)
        requires
            self.wf(),
        ensures
            r@ == spec_encode_content(self@),
    {
        let mut out: Vec<u8> = Vec::new();
        self.encode_to(&mut out);
        assert(out@ =~= spec_encode_content(self@));
        out
    }

    /// Decodes a content at `pos`; on success the returned position is the
    /// first byte after the body, and the content is well formed.
    pub fn decode(input: &[u8], pos: usize) -> (r: Result<(Self, usize), DecodeError>)
        requires
            pos <= input@.len(),
        ensures
            match r {
                Ok((v, n)) => spec_decode_content(input@, pos as int) == Ok::<_, DecodeError>((
                    v@,
                    n as int,
                )) && pos < n <= input@.len() && v.wf(),
                Err(e) => spec_decode_content(input@, pos as int) == Err::<(ContentView, int), _>(
                    e,
                ),
            },
    {
        if input.len() - pos < 1 {
            return Err(DecodeError::TruncatedInput);
        }
        let tag = input[pos];
        if tag == 0 {
            Ok((TransmittableContent::KampelaStop, pos + 1))
        } else if tag == 1 {
            match Bytes::decode(input, pos + 1) {
                Ok((b, p)) => Ok((TransmittableContent::Bytes(b), p)),
                Err(e) => Err(e),
            }
        } else if tag == 2 {
            match DerivationInfo::decode(input, pos + 1) {
                Ok((d, p)) => Ok((TransmittableContent::Derivation(d), p)),
                Err(e) => Err(e),
            }
        } else if tag == 3 {
            match Transaction::decode(input, pos + 1) {
                Ok((t, p)) => Ok((TransmittableContent::SignableTransaction(t), p)),
                Err(e) => Err(e),
            }
        } else {
            Err(DecodeError::UnknownDiscriminant)
        }
    }

    /// Strict top-level decode: the whole buffer must be one content, with no
    /// bytes left over.
    pub fn decode_all(input: &[u8]) -> (r: Result<Self, DecodeError>)
        ensures
            match r {
                Ok(v) => spec_decode_content_all(input@) == Ok::<_, DecodeError>(v@) && v.wf(),
                Err(e) => spec_decode_content_all(input@) == Err::<ContentView, _>(e),
            },
    {
        let (v, n) = match Self::decode(input, 0) {
            Ok(x) => x,
            Err(e) => {
                return Err(e);
            },
        };
        if n != input.len() {
            return Err(DecodeError::TrailingBytes);
        }
        Ok(v)
    }
}

/// Law: a well-formed blob body decodes back from its own encoding wherever
/// that encoding stands in a larger buffer, consuming exactly its own bytes.
pub proof fn lemma_bytes_round_trip(v: BytesView, s: Seq<u8>, pos: int)
    requires
        spec_wf_bytes(v),
        0 <= pos,
        pos + spec_encode_bytes(v).len() <= s.len(),
        s.subrange(pos, pos + spec_encode_bytes(v).len() as int) == spec_encode_bytes(v),
    ensures
        spec_decode_bytes(s, pos) == Ok::<_, DecodeError>((v, pos + spec_encode_bytes(v).len())),
{
    let a = blob::spec_encode(v.bytes_uncut);
    let b = signer::spec_encode(v.signer);
    blob::lemma_concat_fields(s, pos, a, b);
    blob::lemma_round_trip(v.bytes_uncut, s, pos);
    signer::lemma_round_trip(v.signer, s, pos + a.len());
}

/// Law: round trip — decoding the encoding of any well-formed blob body
/// yields the body back with no bytes remaining.
pub proof fn lemma_bytes_round_trip_exact(v: BytesView)
    requires
        spec_wf_bytes(v),
    ensures
        spec_decode_bytes(spec_encode_bytes(v), 0) == Ok::<_, DecodeError>((
            v,
            spec_encode_bytes(v).len() as int,
        )),
{
    let e = spec_encode_bytes(v);
    assert(e.subrange(0, e.len() as int) =~= e);
    lemma_bytes_round_trip(v, e, 0);
}

/// Law: a well-formed transaction body decodes back from its own encoding
/// wherever that encoding stands in a larger buffer, consuming exactly its
/// own bytes.
pub proof fn lemma_transaction_round_trip(v: TransactionView, s: Seq<u8>, pos: int)
    requires
        spec_wf_transaction(v),
        0 <= pos,
        pos + spec_encode_transaction(v).len() <= s.len(),
        s.subrange(pos, pos + spec_encode_transaction(v).len() as int) == spec_encode_transaction(
            v,
        ),
    ensures
        spec_decode_transaction(s, pos) == Ok::<_, DecodeError>((
            v,
            pos + spec_encode_transaction(v).len(),
        )),
{
    let gh = v.genesis_hash;
    let b1 = blob::spec_encode(v.encoded_short_meta);
    let b2 = blob::spec_encode(v.encoded_signable_transaction);
    let sg = signer::spec_encode(v.signer);
    let e = spec_encode_transaction(v);
    assert(e =~= gh + (b1 + (b2 + sg)));
    assert(s.subrange(pos, pos + gh.len() + (b1 + (b2 + sg)).len()) == gh + (b1 + (b2 + sg)));
    blob::lemma_concat_fields(s, pos, gh, b1 + (b2 + sg));
    blob::lemma_concat_fields(s, pos + gh.len() as int, b1, b2 + sg);
    blob::lemma_concat_fields(s, pos + gh.len() + b1.len(), b2, sg);
    blob::lemma_round_trip(v.encoded_short_meta, s, pos + 32);
    blob::lemma_round_trip(v.encoded_signable_transaction, s, pos + 32 + b1.len());
    signer::lemma_round_trip(v.signer, s, pos + 32 + b1.len() + b2.len());
    assert(s.subrange(pos, pos + 32) == gh);
}

/// Law: round trip — decoding the encoding of any well-formed transaction
/// body yields the body back with no bytes remaining.
pub proof fn lemma_transaction_round_trip_exact(v: TransactionView)
    requires
        spec_wf_transaction(v),
    ensures
        spec_decode_transaction(spec_encode_transaction(v), 0) == Ok::<_, DecodeError>((
            v,
            spec_encode_transaction(v).len() as int,
        )),
{
    let e = spec_encode_transaction(v);
    assert(e.subrange(0, e.len() as int) =~= e);
    lemma_transaction_round_trip(v, e, 0);
}

/// Law: a well-formed content decodes back from its own encoding wherever
/// that encoding stands in a larger buffer, consuming exactly its own bytes.
pub proof fn lemma_content_round_trip(v: ContentView, s: Seq<u8>, pos: int)
    requires
        spec_wf_content(v),
        0 <= pos,
        pos + spec_encode_content(v).len() <= s.len(),
        s.subrange(pos, pos + spec_encode_content(v).len() as int) == spec_encode_content(v),
    ensures
        spec_decode_content(s, pos) == Ok::<_, DecodeError>((
            v,
            pos + spec_encode_content(v).len(),
        )),
{
    let e = spec_encode_content(v);
    assert(s.subrange(pos, pos + e.len() as int)[0] == s[pos]);
    match v {
        ContentView::KampelaStop => {
            assert(s[pos] == 0);
        },
        ContentView::Bytes(b) => {
            blob::lemma_concat_fields(s, pos, seq![1u8], spec_encode_bytes(b));
            assert(s.subrange(pos, pos + 1)[0] == s[pos]);
            lemma_bytes_round_trip(b, s, pos + 1);
        },
        ContentView::Derivation(d) => {
            blob::lemma_concat_fields(s, pos, seq![2u8], derivation::spec_encode(d));
            assert(s.subrange(pos, pos + 1)[0] == s[pos]);
            derivation::lemma_round_trip(d, s, pos + 1);
        },
        ContentView::SignableTransaction(t) => {
            blob::lemma_concat_fields(s, pos, seq![3u8], spec_encode_transaction(t));
            assert(s.subrange(pos, pos + 1)[0] == s[pos]);
            lemma_transaction_round_trip(t, s, pos + 1);
        },
    }
}

/// Law: round trip — strictly decoding the encoding of any well-formed
/// content yields the content back, with no bytes remaining.
pub proof fn lemma_content_round_trip_exact(v: ContentView)
    requires
        spec_wf_content(v),
    ensures
        spec_decode_content(spec_encode_content(v), 0) == Ok::<_, DecodeError>((
            v,
            spec_encode_content(v).len() as int,
        )),
        spec_decode_content_all(spec_encode_content(v)) == Ok::<_, DecodeError>(v),
{
    let e = spec_encode_content(v);
    assert(e.subrange(0, e.len() as int) =~= e);
    lemma_content_round_trip(v, e, 0);
}

} // verus!
