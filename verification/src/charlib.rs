//! The charlib index: a run of chunks, each behind its length.
//!
//! Chunk 0 names the texture files of the atlas and holds the table of
//! sprite rectangles. Chunk 1, where there is one, names sprites. What
//! later chunks hold is not known: they are split off and counted, no more.

use crate::bytes::{le_u16, read_u16_le};
use crate::collect::{behind, collected, lemma_collected_fails};
use crate::error::DecodeError;
use crate::platform::{
    detected_platform,
    formatted_chunk_size,
    formatted_u16,
    formatted_u32,
    get_detected_platform_from_index_format,
    read_formatted_u16,
    read_formatted_u32,
    read_formatted_u32_chunk_size,
    SourcePlatform,
};
use crate::text::{find_nul, lemma_nul_within, nul_within, string_from_utf8};
use std::collections::HashMap;
use vstd::prelude::*;
use vstd::slice::{slice_subrange, slice_to_vec};
use vstd::std_specs::hash::group_hash_axioms;
use vstd::utf8::{decode_utf8, valid_utf8};

verus! {

/// The payloads of the chunks from `offset` to the end of the buffer.
///
/// A chunk is a 32-bit length and then that many bytes. The buffer must end
/// where a chunk ends.
pub open spec fn chunks_from(format: SourcePlatform, buf: Seq<u8>, offset: int) -> Result<
    Seq<Seq<u8>>,
    DecodeError,
>
    decreases buf.len() - offset,
{
    if offset >= buf.len() {
        Ok(Seq::empty())
    } else if offset < 0 || offset + 4 > buf.len() {
        Err(DecodeError::Truncated)
    } else {
        let start = offset + 4;
        let end = start + formatted_chunk_size(format, buf, offset);
        if end > buf.len() {
            Err(DecodeError::Truncated)
        } else {
            behind(seq![buf.subrange(start, end)], chunks_from(format, buf, end))
        }
    }
}

/// A buffer that is not empty and splits into chunks has a chunk 0.
pub proof fn lemma_first_chunk(format: SourcePlatform, buf: Seq<u8>)
    requires
        buf.len() > 0,
    ensures
        chunks_from(format, buf, 0) matches Ok(chunks) ==> chunks.len() >= 1,
{
}

/// The chunks of an index buffer. The buffer must hold the twelve bytes
/// that tell its platform.
pub open spec fn index_chunks(buf: Seq<u8>) -> Result<Seq<Seq<u8>>, DecodeError> {
    if buf.len() < 12 {
        Err(DecodeError::Truncated)
    } else {
        chunks_from(detected_platform(buf), buf, 0)
    }
}

/// The byte sequences that the buffers hold.
pub open spec fn byte_views(buffers: Seq<Vec<u8>>) -> Seq<Seq<u8>> {
    Seq::new(buffers.len(), |i: int| buffers[i]@)
}

/// What a returned list of chunks is to a contract.
pub open spec fn chunks_of(split: Result<Vec<Vec<u8>>, DecodeError>) -> Result<
    Seq<Seq<u8>>,
    DecodeError,
> {
    match split {
        Ok(chunks) => Ok(byte_views(chunks@)),
        Err(e) => Err(e),
    }
}

/// Splits a buffer into its chunks, reading lengths as `format` has them.
pub fn split_chunks(format: &SourcePlatform, buf: &Vec<u8>) -> (split: Result<
    Vec<Vec<u8>>,
    DecodeError,
>)
    ensures
        chunks_of(split) == chunks_from(*format, buf@, 0),
{
    let mut chunks: Vec<Vec<u8>> = Vec::new();
    let mut offset: usize = 0;
    while offset < buf.len()
        invariant
            offset <= buf@.len(),
            behind(byte_views(chunks@), chunks_from(*format, buf@, offset as int)) == chunks_from(
                *format,
                buf@,
                0,
            ),
        decreases buf@.len() - offset,
    {
        if buf.len() - offset < 4 {
            return Err(DecodeError::Truncated);
        }
        let chunk_size: usize = read_formatted_u32_chunk_size(format, buf, offset) as usize;
        let start: usize = offset + 4;
        if chunk_size > buf.len() - start {
            return Err(DecodeError::Truncated);
        }
        let end: usize = start + chunk_size;
        let ghost before = byte_views(chunks@);
        let chunk: Vec<u8> = slice_to_vec(slice_subrange(buf.as_slice(), start, end));
        chunks.push(chunk);
        proof {
            let rest = chunks_from(*format, buf@, end as int);
            assert(byte_views(chunks@) =~= before.push(buf@.subrange(start as int, end as int)));
            match rest {
                Ok(rest) => {
                    assert(before + (seq![buf@.subrange(start as int, end as int)] + rest)
                        =~= before.push(buf@.subrange(start as int, end as int)) + rest);
                },
                Err(e) => {},
            }
        }
        offset = end;
    }
    assert(byte_views(chunks@) + Seq::<Seq<u8>>::empty() =~= byte_views(chunks@));
    Ok(chunks)
}

/// Splits an index buffer into its chunks.
pub fn get_index_chunks(buf: Vec<u8>) -> (split: Result<Vec<Vec<u8>>, DecodeError>)
    ensures
        chunks_of(split) == index_chunks(buf@),
{
    if buf.len() < 12 {
        return Err(DecodeError::Truncated);
    }
    let platform: SourcePlatform = get_detected_platform_from_index_format(&buf);
    split_chunks(&platform, &buf)
}

/// The names that the records of a name chunk add to `names`, read from
/// `offset` on.
///
/// A record is a name, a zero byte and a 16-bit little-endian sprite index.
/// The records end at a record that starts with a zero byte, or where fewer
/// than four bytes are left. A later record for an index replaces an
/// earlier one.
pub open spec fn names_from(buf: Seq<u8>, offset: int, names: Map<u16, Seq<char>>) -> Result<
    Map<u16, Seq<char>>,
    DecodeError,
>
    decreases buf.len() - offset,
    via names_from_decreases
{
    if offset < 0 || offset + 3 >= buf.len() || buf[offset] == 0 {
        Ok(names)
    } else {
        let end = nul_within(buf, offset, buf.len() as int);
        let name = buf.subrange(offset, end);
        if end >= buf.len() {
            Err(DecodeError::Truncated)
        } else if !valid_utf8(name) {
            Err(DecodeError::InvalidText)
        } else if end + 3 > buf.len() {
            Err(DecodeError::Truncated)
        } else {
            names_from(buf, end + 3, names.insert(le_u16(buf, end + 1) as u16, decode_utf8(name)))
        }
    }
}

#[via_fn]
proof fn names_from_decreases(buf: Seq<u8>, offset: int, names: Map<u16, Seq<char>>) {
    if 0 <= offset && offset + 3 < buf.len() {
        lemma_nul_within(buf, offset, buf.len() as int);
    }
}

/// The names of a name chunk, by sprite index.
pub open spec fn chunk_names(buf: Seq<u8>) -> Result<Map<u16, Seq<char>>, DecodeError> {
    names_from(buf, 0, Map::empty())
}

/// The names as contracts see them.
pub open spec fn name_views(names: Map<u16, String>) -> Map<u16, Seq<char>> {
    Map::new(|k: u16| names.contains_key(k), |k: u16| names[k]@)
}

/// What a returned name table is to a contract.
pub open spec fn names_of(read: Result<HashMap<u16, String>, DecodeError>) -> Result<
    Map<u16, Seq<char>>,
    DecodeError,
> {
    match read {
        Ok(names) => Ok(name_views(names@)),
        Err(e) => Err(e),
    }
}

/// Reads the sprite names of a name chunk.
pub fn read_names_from_chunk(buf: &Vec<u8>) -> (read: Result<HashMap<u16, String>, DecodeError>)
    ensures
        names_of(read) == chunk_names(buf@),
{
    broadcast use group_hash_axioms;

    let mut sprite_names: HashMap<u16, String> = HashMap::new();
    let mut offset: usize = 0;
    assert(name_views(sprite_names@) =~= Map::<u16, Seq<char>>::empty());
    while buf.len() - offset > 3 && buf[offset] != 0
        invariant
            offset <= buf@.len(),
            names_from(buf@, offset as int, name_views(sprite_names@)) == chunk_names(buf@),
        decreases buf@.len() - offset,
    {
        let end: usize = find_nul(buf.as_slice(), offset, buf.len());
        if end >= buf.len() {
            return Err(DecodeError::Truncated);
        }
        let bytes: Vec<u8> = slice_to_vec(slice_subrange(buf.as_slice(), offset, end));
        let name: String = match string_from_utf8(bytes) {
            Some(name) => name,
            None => {
                return Err(DecodeError::InvalidText);
            },
        };
        if buf.len() - end < 3 {
            return Err(DecodeError::Truncated);
        }
        let k: u16 = read_u16_le(buf.as_slice(), end + 1);
        let ghost before = name_views(sprite_names@);
        sprite_names.insert(k, name);
        assert(name_views(sprite_names@) =~= before.insert(k, name@));
        proof {
            lemma_nul_within(buf@, offset as int, buf@.len() as int);
        }
        offset = end + 3;
    }
    Ok(sprite_names)
}

/// Where the table of texture paths starts in chunk 0.
pub const TEXTURE_TABLE_START: usize = 0x14;

/// The length of one record of the table of texture paths.
pub const TEXTURE_RECORD_SIZE: usize = 0x20;

/// The number of texture files that chunk 0 names.
pub open spec fn texture_count(format: SourcePlatform, chunk: Seq<u8>) -> nat {
    formatted_u16(format, chunk, 2) as nat
}

/// The path in record `i` of the table of texture paths, without the `/`
/// it starts with.
///
/// The path runs to the first zero byte of the record, or fills the record.
/// The last record may be cut short behind its zero byte.
pub open spec fn texture_path_at(chunk: Seq<u8>, i: int) -> Result<Seq<char>, DecodeError> {
    let start = TEXTURE_TABLE_START + TEXTURE_RECORD_SIZE * i;
    let limit = if start + TEXTURE_RECORD_SIZE < chunk.len() {
        start + TEXTURE_RECORD_SIZE
    } else {
        chunk.len() as int
    };
    let end = nul_within(chunk, start, limit);
    if start >= chunk.len() || (end == limit && limit < start + TEXTURE_RECORD_SIZE) {
        Err(DecodeError::Truncated)
    } else if end == start || chunk[start] != 0x2f {
        Err(DecodeError::RelativePath)
    } else if !valid_utf8(chunk.subrange(start + 1, end)) {
        Err(DecodeError::InvalidText)
    } else {
        Ok(decode_utf8(chunk.subrange(start + 1, end)))
    }
}

/// The records of the table of texture paths, by their number.
pub open spec fn texture_path_records(chunk: Seq<u8>) -> spec_fn(int) -> Result<
    Seq<char>,
    DecodeError,
> {
    |i: int| texture_path_at(chunk, i)
}

/// The texture paths of chunk 0, in the order of its table.
pub open spec fn texture_paths_in(format: SourcePlatform, chunk: Seq<u8>) -> Result<
    Seq<Seq<char>>,
    DecodeError,
> {
    if chunk.len() < 4 {
        Err(DecodeError::Truncated)
    } else {
        collected(texture_path_records(chunk), texture_count(format, chunk))
    }
}

/// The strings as contracts see them.
pub open spec fn text_views(texts: Seq<String>) -> Seq<Seq<char>> {
    Seq::new(texts.len(), |i: int| texts[i]@)
}

/// What a returned list of paths is to a contract.
pub open spec fn paths_of(read: Result<Vec<String>, DecodeError>) -> Result<
    Seq<Seq<char>>,
    DecodeError,
> {
    match read {
        Ok(paths) => Ok(text_views(paths@)),
        Err(e) => Err(e),
    }
}

/// Reads the path in record `i` of the table of texture paths.
fn read_texture_path(chunk: &Vec<u8>, i: usize) -> (read: Result<String, DecodeError>)
    requires
        i <= u16::MAX,
    ensures
        match read {
            Ok(path) => texture_path_at(chunk@, i as int) == Ok::<Seq<char>, DecodeError>(path@),
            Err(e) => texture_path_at(chunk@, i as int) == Err::<Seq<char>, DecodeError>(e),
        },
{
    let start: usize = TEXTURE_TABLE_START + TEXTURE_RECORD_SIZE * i;
    if start >= chunk.len() {
        return Err(DecodeError::Truncated);
    }
    let limit: usize = if chunk.len() - start > TEXTURE_RECORD_SIZE {
        start + TEXTURE_RECORD_SIZE
    } else {
        chunk.len()
    };
    let end: usize = find_nul(chunk.as_slice(), start, limit);
    if end == limit && limit - start < TEXTURE_RECORD_SIZE {
        return Err(DecodeError::Truncated);
    }
    if end == start || chunk[start] != 0x2f {
        return Err(DecodeError::RelativePath);
    }
    let bytes: Vec<u8> = slice_to_vec(slice_subrange(chunk.as_slice(), start + 1, end));
    match string_from_utf8(bytes) {
        Some(path) => Ok(path),
        None => Err(DecodeError::InvalidText),
    }
}

/// Reads the texture paths of chunk 0. Each comes without the `/` it
/// starts with, ready to be joined to the directory of the textures.
pub fn read_texture_paths(format: &SourcePlatform, chunk: &Vec<u8>) -> (read: Result<
    Vec<String>,
    DecodeError,
>)
    ensures
        paths_of(read) == texture_paths_in(*format, chunk@),
{
    if chunk.len() < 4 {
        return Err(DecodeError::Truncated);
    }
    let image_count: usize = read_formatted_u16(format, chunk, 0x02) as usize;
    let ghost item = texture_path_records(chunk@);
    let mut paths: Vec<String> = Vec::new();
    let mut i: usize = 0;
    assert(text_views(paths@) =~= Seq::<Seq<char>>::empty());
    while i < image_count
        invariant
            i <= image_count <= u16::MAX,
            chunk@.len() >= 4,
            image_count == texture_count(*format, chunk@),
            item == texture_path_records(chunk@),
            collected(item, i as nat) == Ok::<Seq<Seq<char>>, DecodeError>(text_views(paths@)),
        decreases image_count - i,
    {
        let ghost before = text_views(paths@);
        match read_texture_path(chunk, i) {
            Ok(path) => {
                paths.push(path);
                assert(text_views(paths@) =~= before.push(path@));
            },
            Err(e) => {
                proof {
                    lemma_collected_fails(item, i as nat, image_count as nat);
                }
                return Err(e);
            },
        }
        i += 1;
    }
    Ok(paths)
}

/// A rectangle of the atlas.
#[derive(Clone, Copy, Debug, PartialEq, Eq, Structural)]
pub struct SpriteRect {
    pub x: u16,
    pub y: u16,
    pub w: u16,
    pub h: u16,
}

/// The length of one record of the sprite table.
pub const SPRITE_RECORD_SIZE: usize = 8;

/// The record of the sprite table at `offset`: x, y, width and height, 16
/// bits each in the platform's byte order.
pub open spec fn sprite_rect_at(format: SourcePlatform, chunk: Seq<u8>, offset: int) -> SpriteRect {
    SpriteRect {
        x: formatted_u16(format, chunk, offset) as u16,
        y: formatted_u16(format, chunk, offset + 2) as u16,
        w: formatted_u16(format, chunk, offset + 4) as u16,
        h: formatted_u16(format, chunk, offset + 6) as u16,
    }
}

/// A record without width or without height ends the sprite table.
pub open spec fn is_sentinel(rect: SpriteRect) -> bool {
    rect.w == 0 || rect.h == 0
}

/// The rectangles of the sprite table from `offset` on: the records up to
/// the first sentinel, or up to the end of the chunk where none comes. What
/// follows the sentinel is not read.
pub open spec fn sprite_rects_from(format: SourcePlatform, chunk: Seq<u8>, offset: int) -> Result<
    Seq<SpriteRect>,
    DecodeError,
>
    decreases chunk.len() - offset,
{
    if offset < 0 || offset >= chunk.len() {
        Ok(Seq::empty())
    } else if offset + SPRITE_RECORD_SIZE > chunk.len() {
        Err(DecodeError::Truncated)
    } else if is_sentinel(sprite_rect_at(format, chunk, offset)) {
        Ok(Seq::empty())
    } else {
        behind(
            seq![sprite_rect_at(format, chunk, offset)],
            sprite_rects_from(format, chunk, offset + SPRITE_RECORD_SIZE),
        )
    }
}

/// Where the sprite table starts in chunk 0.
pub open spec fn sprite_table_start(format: SourcePlatform, chunk: Seq<u8>) -> int {
    formatted_u32(format, chunk, 4)
}

/// The rectangles of the sprite table of chunk 0.
pub open spec fn sprite_rects_in(format: SourcePlatform, chunk: Seq<u8>) -> Result<
    Seq<SpriteRect>,
    DecodeError,
> {
    if chunk.len() < 8 {
        Err(DecodeError::Truncated)
    } else {
        sprite_rects_from(format, chunk, sprite_table_start(format, chunk))
    }
}

/// The sprite table ends at its first sentinel: every rectangle found has a
/// width and a height, rectangle `i` is record `i` of the table, and behind
/// the last one comes a sentinel or the end of the chunk.
pub proof fn lemma_sprite_rects_end_at_sentinel(
    format: SourcePlatform,
    chunk: Seq<u8>,
    offset: int,
)
    requires
        0 <= offset,
    ensures
        sprite_rects_from(format, chunk, offset) matches Ok(rects) ==> {
            &&& forall|i: int|
                0 <= i < rects.len() ==> #[trigger] rects[i] == sprite_rect_at(
                    format,
                    chunk,
                    offset + SPRITE_RECORD_SIZE * i,
                ) && !is_sentinel(rects[i])
            &&& offset + SPRITE_RECORD_SIZE * rects.len() >= chunk.len() || is_sentinel(
                sprite_rect_at(format, chunk, offset + SPRITE_RECORD_SIZE * rects.len()),
            )
        },
    decreases chunk.len() - offset,
{
    if offset < chunk.len() && offset + SPRITE_RECORD_SIZE <= chunk.len() && !is_sentinel(
        sprite_rect_at(format, chunk, offset),
    ) {
        lemma_sprite_rects_end_at_sentinel(format, chunk, offset + SPRITE_RECORD_SIZE);
        match sprite_rects_from(format, chunk, offset + SPRITE_RECORD_SIZE) {
            Ok(rest) => {
                let rects = seq![sprite_rect_at(format, chunk, offset)] + rest;
                assert forall|i: int| 0 <= i < rects.len() implies #[trigger] rects[i]
                    == sprite_rect_at(format, chunk, offset + SPRITE_RECORD_SIZE * i)
                    && !is_sentinel(rects[i]) by {}
            },
            Err(e) => {},
        }
    }
}

/// What a returned list of rectangles is to a contract.
pub open spec fn rects_of(read: Result<Vec<SpriteRect>, DecodeError>) -> Result<
    Seq<SpriteRect>,
    DecodeError,
> {
    match read {
        Ok(rects) => Ok(rects@),
        Err(e) => Err(e),
    }
}

/// Reads the sprite table of chunk 0.
pub fn read_sprite_rects(format: &SourcePlatform, chunk: &Vec<u8>) -> (read: Result<
    Vec<SpriteRect>,
    DecodeError,
>)
    ensures
        rects_of(read) == sprite_rects_in(*format, chunk@),
{
    if chunk.len() < 8 {
        return Err(DecodeError::Truncated);
    }
    let sprites_table_offset: usize = read_formatted_u32(format, chunk, 0x04) as usize;
    let ghost goal = sprite_rects_from(*format, chunk@, sprites_table_offset as int);
    let mut rects: Vec<SpriteRect> = Vec::new();
    let mut offset: usize = sprites_table_offset;
    while offset < chunk.len()
        invariant
            goal == sprite_rects_in(*format, chunk@),
            behind(rects@, sprite_rects_from(*format, chunk@, offset as int)) == goal,
        decreases chunk@.len() - offset,
    {
        if chunk.len() - offset < SPRITE_RECORD_SIZE {
            return Err(DecodeError::Truncated);
        }
        let x: u16 = read_formatted_u16(format, chunk, offset);
        let y: u16 = read_formatted_u16(format, chunk, offset + 0x02);
        let w: u16 = read_formatted_u16(format, chunk, offset + 0x04);
        let h: u16 = read_formatted_u16(format, chunk, offset + 0x06);
        if w == 0 || h == 0 {
            return Ok(rects);
        }
        let rect = SpriteRect { x, y, w, h };
        let ghost before = rects@;
        rects.push(rect);
        proof {
            match sprite_rects_from(*format, chunk@, offset + SPRITE_RECORD_SIZE) {
                Ok(rest) => {
                    assert(before + (seq![rect] + rest) =~= before.push(rect) + rest);
                },
                Err(e) => {},
            }
        }
        offset += SPRITE_RECORD_SIZE;
    }
    Ok(rects)
}

} // verus!
