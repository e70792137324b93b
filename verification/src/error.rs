use vstd::prelude::*;

verus! {

/// Why a decode rejected its input.  A failing decode reports the first
/// error it meets and constructs no partial value.
#[derive(Clone, Copy, Debug, PartialEq, Eq, Structural)]
pub enum DecodeError {
    /// A tag byte outside the declared set of a tagged union.
    UnknownDiscriminant,
    /// A declared or implied length exceeds the bytes that remain.
    TruncatedInput,
    /// A length-prefixed text field is not valid UTF-8.
    MalformedText,
    /// Bytes left unconsumed after a strict top-level decode.
    TrailingBytes,
}

} // verus!
