//! Why a buffer could not be decoded.

use vstd::prelude::*;

verus! {

/// The reason a texture or an index was refused. None of these is retried:
/// the same bytes are refused again.
#[derive(Clone, Copy, Debug, PartialEq, Eq, Structural)]
pub enum DecodeError {
    /// The buffer ends before a field, a record or the pixel data it must
    /// hold.
    Truncated,
    /// The container starts with neither `"DDS "` nor `"GC"`.
    UnknownFormat,
    /// A native texture placed at a non-zero x or y offset.
    UnsupportedOffset,
    /// A native texture whose pixel format byte is not zero.
    UnsupportedPixelFormat,
    /// A DDS texture that declares no alpha channel.
    NonRgbaDds,
    /// The textures of an atlas differ in width.
    WidthMismatch,
    /// The heights of the textures of an atlas add up to more than 32 bits
    /// hold.
    AtlasTooTall,
    /// A rectangle reaches beyond the image it is cut from.
    OutOfBounds,
    /// A texture path or a sprite name that is not UTF-8.
    InvalidText,
    /// A texture path that does not start with `/`.
    RelativePath,
    /// The number of texture files handed in is not the number the index
    /// names.
    TextureCountMismatch,
    /// The sprite table holds more sprites than a 16-bit index can number.
    TooManySprites,
    /// The reader could not hand over a file.
    Unreadable,
}

} // verus!
