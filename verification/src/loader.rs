//! Texture containers: a header that gives the size of the image and the
//! place of its channels, then packed pixels.
//!
//! Two containers are known. The native one starts with `"GC"` and has a
//! 24-byte header with big-endian fields. The other starts with `"DDS "`
//! and has a 128-byte header with little-endian fields.

use crate::bytes::{be_u16, le_u16, le_u32, read_u16_be, read_u16_le, read_u32_le};
use crate::error::DecodeError;
use crate::gcz::{decompressed, gcz_decompress};
use crate::pixel::{raw_to_rgba, rgba_bytes, ChannelMasks};
use crate::platform::SourcePlatform;
use crate::texture::{pixel_count, raster_of, Raster, RgbaTexture};
use vstd::prelude::*;
use vstd::slice::slice_subrange;

verus! {

/// Length of the native header.
pub const GC_HEADER_SIZE: usize = 0x18;

/// Length of the DDS header.
pub const DDS_HEADER_SIZE: usize = 0x80;

/// What a container's header says of the image behind it.
#[derive(Clone, Copy, Debug, PartialEq, Eq, Structural)]
pub struct TextureHeader {
    pub width: u32,
    pub height: u32,
    pub masks: ChannelMasks,
    /// Where the packed pixels start.
    pub data_start: usize,
}

/// Whether the buffer starts with `"DDS "`.
pub open spec fn is_dds(buf: Seq<u8>) -> bool {
    buf.len() >= 4 && buf[0] == 0x44 && buf[1] == 0x44 && buf[2] == 0x53 && buf[3] == 0x20
}

/// Whether the buffer starts with `"GC"`.
pub open spec fn is_gc(buf: Seq<u8>) -> bool {
    buf.len() >= 2 && buf[0] == 0x47 && buf[1] == 0x43
}

/// The header of a native container.
///
/// Width and height are at `0x0c` and `0x0e`. The x and y offsets at `0x08`
/// and `0x0a`, and the pixel format at `0x13`, must be zero. The byte at
/// `0x02` tells where the channels are: `0x20` for blue on top, anything
/// else for red on top.
pub open spec fn gc_header(buf: Seq<u8>) -> Result<TextureHeader, DecodeError> {
    if buf.len() < GC_HEADER_SIZE {
        Err(DecodeError::Truncated)
    } else if be_u16(buf, 0x08) != 0 || be_u16(buf, 0x0a) != 0 {
        Err(DecodeError::UnsupportedOffset)
    } else if buf[0x13] != 0 {
        Err(DecodeError::UnsupportedPixelFormat)
    } else {
        Ok(
            TextureHeader {
                width: be_u16(buf, 0x0c) as u32,
                height: be_u16(buf, 0x0e) as u32,
                masks: if buf[0x02] == 0x20 {
                    ChannelMasks::spec_bgr555()
                } else {
                    ChannelMasks::spec_rgb555()
                },
                data_start: GC_HEADER_SIZE,
            },
        )
    }
}

/// The header of a DDS container.
///
/// Bit 6 of the byte at `0x50` says that the pixels carry alpha, and must be
/// set. Width and height are at `0x0c` and `0x10`, and the masks of red,
/// green, blue and alpha at `0x58`, `0x5c`, `0x60` and `0x64`.
pub open spec fn dds_header(buf: Seq<u8>) -> Result<TextureHeader, DecodeError> {
    if buf.len() < DDS_HEADER_SIZE {
        Err(DecodeError::Truncated)
    } else if (buf[0x50] / 64) % 2 == 0 {
        Err(DecodeError::NonRgbaDds)
    } else {
        Ok(
            TextureHeader {
                width: le_u32(buf, 0x0c) as u32,
                height: le_u32(buf, 0x10) as u32,
                masks: ChannelMasks {
                    r: le_u16(buf, 0x58) as u16,
                    g: le_u16(buf, 0x5c) as u16,
                    b: le_u16(buf, 0x60) as u16,
                    a: le_u16(buf, 0x64) as u16,
                },
                data_start: DDS_HEADER_SIZE,
            },
        )
    }
}

/// The header of a container of either kind.
pub open spec fn texture_header(buf: Seq<u8>) -> Result<TextureHeader, DecodeError> {
    if is_dds(buf) {
        dds_header(buf)
    } else if is_gc(buf) {
        gc_header(buf)
    } else {
        Err(DecodeError::UnknownFormat)
    }
}

/// The number of bytes that the packed pixels of an image take.
pub open spec fn packed_size(header: TextureHeader) -> nat {
    2 * (header.width as nat * header.height as nat)
}

/// The image behind a header: the packed pixels from `data_start` on,
/// decoded. The buffer must hold all of them.
pub open spec fn decoded_texture(
    format: SourcePlatform,
    buf: Seq<u8>,
    header: TextureHeader,
) -> Result<Raster, DecodeError> {
    if header.data_start + packed_size(header) > buf.len() {
        Err(DecodeError::Truncated)
    } else {
        Ok(
            Raster {
                width: header.width as nat,
                height: header.height as nat,
                pixels: rgba_bytes(
                    format,
                    buf.subrange(
                        header.data_start as int,
                        header.data_start + packed_size(header),
                    ),
                    header.masks,
                ),
            },
        )
    }
}

/// The image that a header, or the failure to read one, leads to.
pub open spec fn texture_behind(
    format: SourcePlatform,
    buf: Seq<u8>,
    header: Result<TextureHeader, DecodeError>,
) -> Result<Raster, DecodeError> {
    match header {
        Ok(header) => decoded_texture(format, buf, header),
        Err(e) => Err(e),
    }
}

/// The image in a container of either kind.
pub open spec fn loaded_texture(format: SourcePlatform, buf: Seq<u8>) -> Result<
    Raster,
    DecodeError,
> {
    texture_behind(format, buf, texture_header(buf))
}

/// The image in a compressed container.
pub open spec fn loaded_compressed_texture(format: SourcePlatform, gcz: Seq<u8>) -> Result<
    Raster,
    DecodeError,
> {
    if gcz.len() < 4 {
        Err(DecodeError::Truncated)
    } else {
        loaded_texture(format, decompressed(gcz))
    }
}

/// Reads the header of a native container.
pub fn read_gc_header(buf: &[u8]) -> (header: Result<TextureHeader, DecodeError>)
    ensures
        header == gc_header(buf@),
{
    if buf.len() < GC_HEADER_SIZE {
        return Err(DecodeError::Truncated);
    }
    let img_x: u16 = read_u16_be(buf, 0x08);
    let img_y: u16 = read_u16_be(buf, 0x0a);
    let img_w: u16 = read_u16_be(buf, 0x0c);
    let img_h: u16 = read_u16_be(buf, 0x0e);
    let img_format: u8 = buf[0x13];
    if img_x != 0 || img_y != 0 {
        return Err(DecodeError::UnsupportedOffset);
    }
    if img_format != 0x00 {
        return Err(DecodeError::UnsupportedPixelFormat);
    }
    let masks: ChannelMasks = if buf[0x02] == 0x20 {
        ChannelMasks::bgr555()
    } else {
        ChannelMasks::rgb555()
    };
    Ok(
        TextureHeader {
            width: img_w as u32,
            height: img_h as u32,
            masks,
            data_start: GC_HEADER_SIZE,
        },
    )
}

/// Reads the header of a DDS container.
pub fn read_dds_header(buf: &[u8]) -> (header: Result<TextureHeader, DecodeError>)
    ensures
        header == dds_header(buf@),
{
    if buf.len() < DDS_HEADER_SIZE {
        return Err(DecodeError::Truncated);
    }
    let flags: u8 = buf[0x50];
    assert(flags & 0x40 == 0 <==> (flags / 64) % 2 == 0) by (bit_vector);
    if (flags & 0x40) == 0 {
        return Err(DecodeError::NonRgbaDds);
    }
    let img_w: u32 = read_u32_le(buf, 0x0c);
    let img_h: u32 = read_u32_le(buf, 0x10);
    let masks = ChannelMasks {
        r: read_u16_le(buf, 0x58),
        g: read_u16_le(buf, 0x5c),
        b: read_u16_le(buf, 0x60),
        a: read_u16_le(buf, 0x64),
    };
    Ok(TextureHeader { width: img_w, height: img_h, masks, data_start: DDS_HEADER_SIZE })
}

/// Decodes the packed pixels behind a header.
pub fn decode_texture_data(format: &SourcePlatform, buf: &[u8], header: &TextureHeader) -> (loaded:
    Result<RgbaTexture, DecodeError>)
    ensures
        raster_of(loaded) == decoded_texture(*format, buf@, *header),
        loaded matches Ok(texture) ==> texture@.well_formed(),
{
    if header.data_start > buf.len() {
        return Err(DecodeError::Truncated);
    }
    let pixels: u64 = pixel_count(header.width, header.height);
    let room: u64 = (buf.len() - header.data_start) as u64;
    if pixels > room / 2 {
        return Err(DecodeError::Truncated);
    }
    let data_end: usize = header.data_start + 2 * (pixels as usize);
    let packed: &[u8] = slice_subrange(buf, header.data_start, data_end);
    let rgba: Vec<u8> = raw_to_rgba(
        format,
        packed,
        header.masks.r,
        header.masks.g,
        header.masks.b,
        header.masks.a,
    );
    Ok(RgbaTexture::from_parts(header.width, header.height, rgba))
}

/// Loads the image of a DDS container.
pub fn load_dds_texture_from_memory(format: &SourcePlatform, buf: &[u8]) -> (loaded: Result<
    RgbaTexture,
    DecodeError,
>)
    ensures
        raster_of(loaded) == texture_behind(*format, buf@, dds_header(buf@)),
        loaded matches Ok(texture) ==> texture@.well_formed(),
{
    match read_dds_header(buf) {
        Ok(header) => decode_texture_data(format, buf, &header),
        Err(e) => Err(e),
    }
}

/// Loads the image of a native container.
pub fn load_gc_texture_from_memory(format: &SourcePlatform, buf: &[u8]) -> (loaded: Result<
    RgbaTexture,
    DecodeError,
>)
    ensures
        raster_of(loaded) == texture_behind(*format, buf@, gc_header(buf@)),
        loaded matches Ok(texture) ==> texture@.well_formed(),
{
    match read_gc_header(buf) {
        Ok(header) => decode_texture_data(format, buf, &header),
        Err(e) => Err(e),
    }
}

/// Loads the image of a container, whichever of the two kinds it is.
pub fn load_texture_from_memory(format: &SourcePlatform, buf: &[u8]) -> (loaded: Result<
    RgbaTexture,
    DecodeError,
>)
    ensures
        raster_of(loaded) == loaded_texture(*format, buf@),
        loaded matches Ok(texture) ==> texture@.well_formed(),
{
    if buf.len() >= 4 && buf[0] == 0x44 && buf[1] == 0x44 && buf[2] == 0x53 && buf[3] == 0x20 {
        load_dds_texture_from_memory(format, buf)
    } else if buf.len() >= 2 && buf[0] == 0x47 && buf[1] == 0x43 {
        load_gc_texture_from_memory(format, buf)
    } else {
        Err(DecodeError::UnknownFormat)
    }
}

/// Decompresses a GCZ stream and loads the image of the container in it.
pub fn load_texture_from_gcz(format: &SourcePlatform, gcz: &Vec<u8>) -> (loaded: Result<
    RgbaTexture,
    DecodeError,
>)
    ensures
        raster_of(loaded) == loaded_compressed_texture(*format, gcz@),
        loaded matches Ok(texture) ==> texture@.well_formed(),
{
    if gcz.len() < 4 {
        return Err(DecodeError::Truncated);
    }
    let container: Vec<u8> = gcz_decompress(gcz);
    load_texture_from_memory(format, container.as_slice())
}

/// What a reader made of a request, as contracts see it.
pub open spec fn bytes_read(contents: Option<Vec<u8>>) -> Option<Seq<u8>> {
    match contents {
        Some(bytes) => Some(bytes@),
        None => None,
    }
}

/// The image in a compressed texture file, given what reading the file
/// gave.
pub open spec fn texture_in_file(format: SourcePlatform, contents: Option<Seq<u8>>) -> Result<
    Raster,
    DecodeError,
> {
    match contents {
        Some(gcz) => loaded_compressed_texture(format, gcz),
        None => Err(DecodeError::Unreadable),
    }
}

/// Loads the image of a compressed texture file. The file is read by one
/// call of `reader` on `filename`; what the reader gives decides the rest.
pub fn load_texture_from_file<P, R: Fn(&P) -> Option<Vec<u8>>>(
    format: &SourcePlatform,
    filename: &P,
    reader: &R,
) -> (loaded: Result<RgbaTexture, DecodeError>)
    requires
        call_requires(*reader, (filename,)),
    ensures
        exists|contents: Option<Vec<u8>>|
            call_ensures(*reader, (filename,), contents) && raster_of(loaded) == texture_in_file(
                *format,
                bytes_read(contents),
            ),
        loaded matches Ok(texture) ==> texture@.well_formed(),
{
    let contents: Option<Vec<u8>> = reader(filename);
    let loaded: Result<RgbaTexture, DecodeError> = match &contents {
        Some(gcz) => load_texture_from_gcz(format, gcz),
        None => Err(DecodeError::Unreadable),
    };
    assert(call_ensures(*reader, (filename,), contents) && raster_of(loaded) == texture_in_file(
        *format,
        bytes_read(contents),
    ));
    loaded
}

} // verus!
