//! The three builds an index file can come from, and how each lays out
//! its integers.

use crate::bytes::{be_u16, be_u32, le_u16, le_u32, read_u16_be, read_u16_le, read_u32_be, read_u32_le};
use vstd::prelude::*;

verus! {

/// The build that produced an index file and its textures.
#[derive(Clone, Copy, Debug, PartialEq, Eq, Structural)]
pub enum SourcePlatform {
    /// The arcade board: big-endian throughout.
    Firebeat,
    /// The handheld build: little-endian throughout.
    Python,
    /// The PC build: little-endian, except for the length in front of each
    /// chunk, which is big-endian.
    PC,
}

impl SourcePlatform {
    /// Whether 16- and 32-bit fields, and packed pixels, are big-endian.
    pub open spec fn spec_big_endian(self) -> bool {
        self == SourcePlatform::Firebeat
    }

    /// Whether the length in front of each chunk is big-endian.
    pub open spec fn spec_chunk_size_big_endian(self) -> bool {
        self == SourcePlatform::Firebeat || self == SourcePlatform::PC
    }

    /// Whether 16- and 32-bit fields, and packed pixels, are big-endian.
    /// Decoded pixels follow: red first where this holds, blue first where
    /// it does not.
    #[verifier::when_used_as_spec(spec_big_endian)]
    pub fn big_endian(self) -> (yes: bool)
        ensures
            yes == self.spec_big_endian(),
    {
        match self {
            SourcePlatform::Firebeat => true,
            SourcePlatform::Python => false,
            SourcePlatform::PC => false,
        }
    }

    /// Whether the length in front of each chunk is big-endian.
    #[verifier::when_used_as_spec(spec_chunk_size_big_endian)]
    pub fn chunk_size_big_endian(self) -> (yes: bool)
        ensures
            yes == self.spec_chunk_size_big_endian(),
    {
        match self {
            SourcePlatform::Firebeat => true,
            SourcePlatform::Python => false,
            SourcePlatform::PC => true,
        }
    }
}

/// The 32-bit field at `at`, in the platform's byte order.
pub open spec fn formatted_u32(format: SourcePlatform, s: Seq<u8>, at: int) -> int {
    if format.big_endian() {
        be_u32(s, at)
    } else {
        le_u32(s, at)
    }
}

/// The chunk length at `at`, in the byte order the platform uses for it.
pub open spec fn formatted_chunk_size(format: SourcePlatform, s: Seq<u8>, at: int) -> int {
    if format.chunk_size_big_endian() {
        be_u32(s, at)
    } else {
        le_u32(s, at)
    }
}

/// The 16-bit field at `at`, in the platform's byte order.
pub open spec fn formatted_u16(format: SourcePlatform, s: Seq<u8>, at: int) -> int {
    if format.big_endian() {
        be_u16(s, at)
    } else {
        le_u16(s, at)
    }
}

/// The platform an index buffer of at least 12 bytes is taken to come from.
///
/// The words at offsets 0 and 8, read little-endian, are offsets on the
/// little-endian platforms. A word larger than the buffer cannot be one, so
/// it was written in the other byte order.
pub open spec fn detected_platform(buf: Seq<u8>) -> SourcePlatform {
    let val1 = le_u32(buf, 0);
    let val2 = le_u32(buf, 8);
    if val1 > buf.len() && val2 > buf.len() {
        SourcePlatform::Firebeat
    } else if val1 > buf.len() {
        SourcePlatform::PC
    } else {
        SourcePlatform::Python
    }
}

/// Reads the 32-bit field at `offset`, in the platform's byte order.
pub fn read_formatted_u32(format: &SourcePlatform, buf: &Vec<u8>, offset: usize) -> (value: u32)
    requires
        offset + 4 <= buf@.len(),
    ensures
        value == formatted_u32(*format, buf@, offset as int),
{
    if format.big_endian() {
        read_u32_be(buf.as_slice(), offset)
    } else {
        read_u32_le(buf.as_slice(), offset)
    }
}

/// Reads the chunk length at `offset`, in the byte order the platform uses
/// for it.
pub fn read_formatted_u32_chunk_size(format: &SourcePlatform, buf: &Vec<u8>, offset: usize) -> (value:
    u32)
    requires
        offset + 4 <= buf@.len(),
    ensures
        value == formatted_chunk_size(*format, buf@, offset as int),
{
    if format.chunk_size_big_endian() {
        read_u32_be(buf.as_slice(), offset)
    } else {
        read_u32_le(buf.as_slice(), offset)
    }
}

/// Reads the 16-bit field at `offset`, in the platform's byte order.
pub fn read_formatted_u16(format: &SourcePlatform, buf: &Vec<u8>, offset: usize) -> (value: u16)
    requires
        offset + 2 <= buf@.len(),
    ensures
        value == formatted_u16(*format, buf@, offset as int),
{
    if format.big_endian() {
        read_u16_be(buf.as_slice(), offset)
    } else {
        read_u16_le(buf.as_slice(), offset)
    }
}

/// Tells the platform of an index buffer from its first twelve bytes and
/// its length. This is a guess from what offsets are plausible, not a tag
/// that the file carries: a caller who knows the platform should say so.
pub fn get_detected_platform_from_index_format(buf: &Vec<u8>) -> (platform: SourcePlatform)
    requires
        buf@.len() >= 12,
    ensures
        platform == detected_platform(buf@),
{
    let val1: usize = read_u32_le(buf.as_slice(), 0) as usize;
    let val2: usize = read_u32_le(buf.as_slice(), 8) as usize;
    if val1 > buf.len() && val2 > buf.len() {
        SourcePlatform::Firebeat
    } else if val1 > buf.len() {
        SourcePlatform::PC
    } else {
        SourcePlatform::Python
    }
}

/// Detection reads the first twelve bytes and the buffer's length, nothing
/// else: two buffers that agree on the twelve bytes, and whose lengths fall
/// on the same side of both words, are classified alike.
pub proof fn lemma_detection_reads_header_and_length(a: Seq<u8>, b: Seq<u8>)
    requires
        a.len() >= 12,
        b.len() >= 12,
        a.subrange(0, 12) == b.subrange(0, 12),
        le_u32(a, 0) > a.len() <==> le_u32(a, 0) > b.len(),
        le_u32(a, 8) > a.len() <==> le_u32(a, 8) > b.len(),
    ensures
        detected_platform(a) == detected_platform(b),
{
    assert forall|i: int| 0 <= i < 12 implies a[i] == b[i] by {
        assert(a.subrange(0, 12)[i] == a[i]);
        assert(b.subrange(0, 12)[i] == b[i]);
    }
}

} // verus!
