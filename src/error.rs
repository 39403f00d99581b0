use vstd::prelude::*;

verus! {

/// Why a compressed image stream could not be inflated.
#[derive(Debug, Clone, Copy, PartialEq, Eq, Structural)]
pub enum CompressionError {
    /// The first byte of the stream is not zero.
    InvalidHeader,
    /// A back-reference points before the start of the output.
    InvalidOffset,
    /// The unary prefix of a copy length is too long.
    InvalidLength,
    /// The output would grow past the size ceiling.
    SizeLimitExceeded,
}

/// Errors of reading a character file.
#[derive(Debug, Clone, Copy, PartialEq, Eq, Structural)]
pub enum AcsError {
    /// The input ends before a field that it should hold.
    Truncated,
    /// The file does not start with the expected magic number.
    BadMagic,
    /// An image or audio index, or a pixel position, is out of range.
    IndexOutOfRange,
    /// A pixel refers to a palette entry that does not exist.
    InvalidPaletteIndex,
    /// An image's compressed data is malformed.
    InvalidCompressedData(CompressionError),
}

pub type AcsResult<T> = Result<T, AcsError>;

} // verus!
