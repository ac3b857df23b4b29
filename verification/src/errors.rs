//! Error taxonomy of the codec.

use vstd::prelude::*;

verus! {

/// Every way an obfuscate, deobfuscate or verify operation can fail.
///
/// Each failure is fatal to the current operation; nothing is retried.
#[derive(Clone, Copy, Debug, PartialEq, Eq, Structural)]
pub enum ObfsError {
    /// The leading bytes already equal the configured magic during obfuscate.
    AlreadyObfuscated,
    /// The leading bytes do not match the configured magic during
    /// deobfuscate or verify.
    NotObfuscated,
    /// Fewer bytes than a whole header were available where one was expected.
    HeaderTooSmall,
    /// The four signature bytes at the header position do not match.
    BadSignature,
    /// The header's version byte is not the one this crate understands.
    UnsupportedVersion,
    /// The header's recorded magic length disagrees with the configuration.
    MagicLengthMismatch,
    /// The recorded original length exceeds the current file size, or bytes
    /// required by the container layout are missing.
    TruncatedOrCorrupt,
    /// The recomputed digest disagrees with the one stored in the header.
    ChecksumMismatch,
    /// An underlying read, write, seek or rename failed.
    IoFailure,
    /// The destination exists and overwriting was not requested.
    OverwriteRefused,
}

/// Every way a magic-byte argument can be rejected.
#[derive(Clone, Copy, Debug, PartialEq, Eq, Structural)]
pub enum MagicParseError {
    /// The argument, or the hex payload left after stripping markers, is empty.
    Empty,
    /// A hex-formatted argument has an odd number of digits.
    OddHexLength,
    /// A hex-formatted argument holds a character that is no hex digit.
    InvalidHexDigit,
    /// More magic bytes than the format can record.
    TooLong,
}

} // verus!
