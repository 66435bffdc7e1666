use vstd::prelude::*;
use crate::binary32::Binary32;

verus! {

/// What can go wrong between a builder call and a finished thumbnail.
///
/// The first two come from the builder, before any file is touched. The
/// others are met while a file is processed.
#[derive(Debug, Clone, PartialEq, Eq)]
pub enum ThumbnailerError {
    /// The seek fraction does not lie in `[0, 1]`.
    InvalidSeekPercentage(Binary32),
    /// The quality does not lie in `[0, 100]`.
    InvalidQuality(Binary32),
    /// The input could not be opened.
    OpenFailed,
    /// The decoder could not move to the requested second.
    SeekFailed,
    /// The decoder produced no usable frame.
    DecodeFailed,
    /// The extension of the output path names no known format.
    UnsupportedExtension(String),
    /// The encoder refused the frame.
    EncodeFailed,
    /// The output could not be written.
    IoFailed,
}

} // verus!
