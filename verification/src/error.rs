use vstd::prelude::*;

verus! {

/// Failure taxonomy of the pixel pipeline.
///
/// - `Decode`: the source bitstream cannot be decoded (or its format is not
///   supported at all, as for PNG input).
/// - `MalformedInput`: a decoded byte count is inconsistent with the declared
///   dimensions (not a multiple of 3, or the triplet count differs from
///   `width * height`).
/// - `IoWrite`: a destination file cannot be created or a write fails; raised
///   only by unverified I/O code around this library.
#[derive(Clone, Copy, Debug, PartialEq, Eq, Structural)]
pub enum ImageError {
    Decode,
    MalformedInput,
    IoWrite,
}

} // verus!
