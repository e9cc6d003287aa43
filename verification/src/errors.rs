use vstd::prelude::*;

verus! {

/// The ways a decode attempt can fail.
///
/// `IoFailure` is reported by collaborators that read the file; the codec
/// functions themselves only produce the other three variants.
#[derive(Clone, Copy, Debug, PartialEq, Eq, Structural)]
pub enum CodecError {
    /// The first four plaintext bytes are not the expected magic.
    MagicMismatch,
    /// The ciphertext is not exactly one record long.
    UnexpectedLength,
    /// A fixed-size field would run past the end of the buffer.
    TruncatedRecord,
    /// The record file could not be read at all.
    IoFailure,
}

} // verus!
