//! A compact, self-describing binary codec for the envelope messages that an
//! offline signing device and its online companion exchange over a narrow
//! channel.  Every entity encodes to a byte sequence built from four rules —
//! tagged unions, compact-length-prefixed byte sequences, fixed-size
//! cryptographic arrays, and ordered struct concatenation — and decodes back,
//! rejecting malformed input instead of guessing.

pub mod blob;
pub mod compact;
pub mod derivation;
pub mod envelope;
pub mod error;
pub mod payload;
pub mod scheme;
pub mod signer;

pub use derivation::DerivationInfo;
pub use envelope::TransferData;
pub use error::DecodeError;
pub use payload::Bytes;
pub use payload::Transaction;
pub use payload::TransmittableContent;
pub use scheme::Encryption;
pub use signer::MultiSigner;
