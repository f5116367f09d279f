//! The sprite sheet of an index: the atlas that its textures stack up to,
//! and the sprites that its table cuts out of the atlas.

use crate::atlas::{crop, cropped, generate_atlas, rasters, stacked};
use crate::charlib::{
    byte_views,
    chunk_names,
    index_chunks,
    lemma_first_chunk,
    name_views,
    paths_of,
    read_names_from_chunk,
    read_sprite_rects,
    read_texture_paths,
    split_chunks,
    sprite_rects_in,
    text_views,
    texture_paths_in,
    SpriteRect,
};
use crate::collect::{collected, lemma_collected, lemma_collected_fails};
use crate::error::DecodeError;
use crate::loader::{load_texture_from_gcz, loaded_compressed_texture};
use crate::platform::{detected_platform, get_detected_platform_from_index_format, SourcePlatform};
use crate::texture::{raster_of, Raster, RgbaTexture};
use std::collections::HashMap;
use vstd::prelude::*;
use vstd::std_specs::hash::group_hash_axioms;

verus! {

/// One sprite: its number in the sprite table, its name where the index
/// gives one, its rectangle in the atlas, and its own copy of the pixels in
/// that rectangle.
#[derive(Debug, PartialEq, Eq)]
pub struct SpriteRecord {
    pub index: u16,
    pub name: Option<String>,
    pub rect: SpriteRect,
    pub image: RgbaTexture,
}

impl Clone for SpriteRecord {
    fn clone(&self) -> (copy: SpriteRecord)
        ensures
            copy@ == self@,
    {
        let name: Option<String> = match &self.name {
            Some(name) => Some(name.clone()),
            None => None,
        };
        SpriteRecord { index: self.index, name, rect: self.rect, image: self.image.clone() }
    }
}

/// A sprite as contracts see it.
pub struct Sprite {
    pub index: u16,
    pub name: Option<Seq<char>>,
    pub rect: SpriteRect,
    pub image: Raster,
}

impl View for SpriteRecord {
    type V = Sprite;

    open spec fn view(&self) -> Sprite {
        Sprite {
            index: self.index,
            name: match self.name {
                Some(name) => Some(name@),
                None => None,
            },
            rect: self.rect,
            image: self.image@,
        }
    }
}

/// What an index and its texture files decode to.
#[derive(Debug)]
pub struct SpriteSheet {
    /// The textures of the index, stacked.
    pub atlas: RgbaTexture,
    /// The sprites, in the order of the sprite table.
    pub sprites: Vec<SpriteRecord>,
    /// The number of chunks in the index. More than two means that the
    /// index holds chunks that were not looked into.
    pub chunk_count: usize,
}

/// A sprite sheet as contracts see it.
pub struct Sheet {
    pub atlas: Raster,
    pub sprites: Seq<Sprite>,
    pub chunk_count: nat,
}

impl View for SpriteSheet {
    type V = Sheet;

    open spec fn view(&self) -> Sheet {
        Sheet {
            atlas: self.atlas@,
            sprites: sprite_views(self.sprites@),
            chunk_count: self.chunk_count as nat,
        }
    }
}

/// The sprites as contracts see them.
pub open spec fn sprite_views(sprites: Seq<SpriteRecord>) -> Seq<Sprite> {
    Seq::new(sprites.len(), |i: int| sprites[i]@)
}

/// The name of sprite `index`, where the name table has one.
pub open spec fn name_of(names: Map<u16, Seq<char>>, index: u16) -> Option<Seq<char>> {
    if names.contains_key(index) {
        Some(names[index])
    } else {
        None
    }
}

/// Sprite `i`: the rectangle `rects[i]` cut out of the atlas, which must
/// hold all of it.
pub open spec fn sprite_at(
    atlas: Raster,
    names: Map<u16, Seq<char>>,
    rects: Seq<SpriteRect>,
    i: int,
) -> Result<Sprite, DecodeError> {
    match cropped(
        atlas,
        rects[i].x as nat,
        rects[i].y as nat,
        rects[i].w as nat,
        rects[i].h as nat,
    ) {
        Ok(image) => Ok(
            Sprite { index: i as u16, name: name_of(names, i as u16), rect: rects[i], image },
        ),
        Err(e) => Err(e),
    }
}

/// The sprites of a sprite table, by their number.
pub open spec fn sprite_items(
    atlas: Raster,
    names: Map<u16, Seq<char>>,
    rects: Seq<SpriteRect>,
) -> spec_fn(int) -> Result<Sprite, DecodeError> {
    |i: int| sprite_at(atlas, names, rects, i)
}

/// The most sprites that 16-bit indexes can number.
pub const MAX_SPRITES: usize = 0x10000;

/// The sprites of a sprite table, numbered from zero in the order of the
/// table.
pub open spec fn sprites_cut(
    atlas: Raster,
    names: Map<u16, Seq<char>>,
    rects: Seq<SpriteRect>,
) -> Result<Seq<Sprite>, DecodeError> {
    if rects.len() > MAX_SPRITES {
        Err(DecodeError::TooManySprites)
    } else {
        collected(sprite_items(atlas, names, rects), rects.len())
    }
}

/// The sprites of a sheet are numbered by their place in the sprite table.
/// Each keeps its rectangle, bears the name that the name table has for its
/// number, and holds the pixels of the atlas in its rectangle.
pub proof fn lemma_sprites_cut(atlas: Raster, names: Map<u16, Seq<char>>, rects: Seq<SpriteRect>)
    ensures
        sprites_cut(atlas, names, rects) matches Ok(sprites) ==> {
            &&& sprites.len() == rects.len()
            &&& forall|i: int|
                0 <= i < sprites.len() ==> {
                    &&& (#[trigger] sprites[i]).index == i
                    &&& sprites[i].rect == rects[i]
                    &&& sprites[i].name == name_of(names, i as u16)
                    &&& sprites[i].image.width == rects[i].w
                    &&& sprites[i].image.height == rects[i].h
                    &&& cropped(
                        atlas,
                        rects[i].x as nat,
                        rects[i].y as nat,
                        rects[i].w as nat,
                        rects[i].h as nat,
                    ) == Ok::<Raster, DecodeError>(sprites[i].image)
                }
        },
{
    let item = sprite_items(atlas, names, rects);
    lemma_collected(item, rects.len());
    match sprites_cut(atlas, names, rects) {
        Ok(sprites) => {
            assert forall|i: int| 0 <= i < sprites.len() implies {
                &&& (#[trigger] sprites[i]).index == i
                &&& sprites[i].rect == rects[i]
                &&& sprites[i].name == name_of(names, i as u16)
                &&& sprites[i].image.width == rects[i].w
                &&& sprites[i].image.height == rects[i].h
                &&& cropped(
                    atlas,
                    rects[i].x as nat,
                    rects[i].y as nat,
                    rects[i].w as nat,
                    rects[i].h as nat,
                ) == Ok::<Raster, DecodeError>(sprites[i].image)
            } by {
                assert(item(i) == Ok::<Sprite, DecodeError>(sprites[i]));
            }
        },
        Err(e) => {},
    }
}

/// What a returned list of sprites is to a contract.
pub open spec fn sprites_of(cut: Result<Vec<SpriteRecord>, DecodeError>) -> Result<
    Seq<Sprite>,
    DecodeError,
> {
    match cut {
        Ok(sprites) => Ok(sprite_views(sprites@)),
        Err(e) => Err(e),
    }
}

/// Cuts sprite `i` out of the atlas.
fn cut_sprite(
    atlas: &RgbaTexture,
    names: &HashMap<u16, String>,
    rects: &Vec<SpriteRect>,
    i: usize,
) -> (cut: Result<SpriteRecord, DecodeError>)
    requires
        i < rects@.len(),
        i < MAX_SPRITES,
    ensures
        match cut {
            Ok(sprite) => sprite_at(atlas@, name_views(names@), rects@, i as int) == Ok::<
                Sprite,
                DecodeError,
            >(sprite@),
            Err(e) => sprite_at(atlas@, name_views(names@), rects@, i as int) == Err::<
                Sprite,
                DecodeError,
            >(e),
        },
{
    broadcast use group_hash_axioms;

    let rect: SpriteRect = rects[i];
    let image: RgbaTexture = match crop(
        atlas,
        rect.x as u32,
        rect.y as u32,
        rect.w as u32,
        rect.h as u32,
    ) {
        Ok(image) => image,
        Err(e) => {
            return Err(e);
        },
    };
    let index: u16 = i as u16;
    let name: Option<String> = match names.get(&index) {
        Some(name) => Some(name.clone()),
        None => None,
    };
    Ok(SpriteRecord { index, name, rect, image })
}

/// Cuts the sprites of a sprite table out of the atlas, and names those
/// that the name table knows.
pub fn cut_sprites(
    atlas: &RgbaTexture,
    names: &HashMap<u16, String>,
    rects: &Vec<SpriteRect>,
) -> (cut: Result<Vec<SpriteRecord>, DecodeError>)
    ensures
        sprites_of(cut) == sprites_cut(atlas@, name_views(names@), rects@),
{
    let count: usize = rects.len();
    if count > MAX_SPRITES {
        return Err(DecodeError::TooManySprites);
    }
    let ghost item = sprite_items(atlas@, name_views(names@), rects@);
    let mut sprites: Vec<SpriteRecord> = Vec::new();
    let mut i: usize = 0;
    assert(sprite_views(sprites@) =~= Seq::<Sprite>::empty());
    while i < count
        invariant
            i <= count <= MAX_SPRITES,
            count == rects@.len(),
            item == sprite_items(atlas@, name_views(names@), rects@),
            collected(item, i as nat) == Ok::<Seq<Sprite>, DecodeError>(sprite_views(sprites@)),
        decreases count - i,
    {
        let ghost before = sprite_views(sprites@);
        match cut_sprite(atlas, names, rects, i) {
            Ok(sprite) => {
                sprites.push(sprite);
                assert(sprite_views(sprites@) =~= before.push(sprite@));
            },
            Err(e) => {
                proof {
                    lemma_collected_fails(item, i as nat, count as nat);
                }
                return Err(e);
            },
        }
        i += 1;
    }
    Ok(sprites)
}

/// The images in the compressed texture files, by their number.
pub open spec fn compressed_textures(format: SourcePlatform, files: Seq<Seq<u8>>) -> spec_fn(
    int,
) -> Result<Raster, DecodeError> {
    |i: int| loaded_compressed_texture(format, files[i])
}

/// The atlas of the compressed texture files: each decompressed and
/// decoded, then all stacked in the order given.
pub open spec fn atlas_of(format: SourcePlatform, files: Seq<Seq<u8>>) -> Result<
    Raster,
    DecodeError,
> {
    match collected(compressed_textures(format, files), files.len()) {
        Ok(images) => stacked(images),
        Err(e) => Err(e),
    }
}

/// Decodes the compressed texture files and stacks them into the atlas.
pub fn load_atlas(format: &SourcePlatform, files: &Vec<Vec<u8>>) -> (atlas: Result<
    RgbaTexture,
    DecodeError,
>)
    ensures
        raster_of(atlas) == atlas_of(*format, byte_views(files@)),
        atlas matches Ok(texture) ==> texture@.well_formed(),
{
    let count: usize = files.len();
    let ghost item = compressed_textures(*format, byte_views(files@));
    let mut textures: Vec<RgbaTexture> = Vec::new();
    let mut i: usize = 0;
    assert(rasters(textures@) =~= Seq::<Raster>::empty());
    while i < count
        invariant
            i <= count,
            count == files@.len(),
            item == compressed_textures(*format, byte_views(files@)),
            collected(item, i as nat) == Ok::<Seq<Raster>, DecodeError>(rasters(textures@)),
        decreases count - i,
    {
        let ghost before = rasters(textures@);
        match load_texture_from_gcz(format, &files[i]) {
            Ok(texture) => {
                textures.push(texture);
                assert(rasters(textures@) =~= before.push(texture@));
            },
            Err(e) => {
                proof {
                    lemma_collected_fails(item, i as nat, count as nat);
                }
                return Err(e);
            },
        }
        i += 1;
    }
    generate_atlas(&textures)
}

/// The sprite names of an index: those of chunk 1, or none where the index
/// has no chunk 1.
pub open spec fn index_names(chunks: Seq<Seq<u8>>) -> Result<Map<u16, Seq<char>>, DecodeError> {
    if chunks.len() >= 2 {
        chunk_names(chunks[1])
    } else {
        Ok(Map::empty())
    }
}

/// The sprite sheet of an index that has been split into chunks.
///
/// `files` holds the compressed texture files that chunk 0 names, in the
/// order of its table, and as many as it names.
pub open spec fn sheet_of_chunks(
    format: SourcePlatform,
    chunks: Seq<Seq<u8>>,
    files: Seq<Seq<u8>>,
) -> Result<Sheet, DecodeError> {
    match texture_paths_in(format, chunks[0]) {
        Err(e) => Err(e),
        Ok(paths) => if paths.len() != files.len() {
            Err(DecodeError::TextureCountMismatch)
        } else {
            match index_names(chunks) {
                Err(e) => Err(e),
                Ok(names) => match atlas_of(format, files) {
                    Err(e) => Err(e),
                    Ok(atlas) => match sprite_rects_in(format, chunks[0]) {
                        Err(e) => Err(e),
                        Ok(rects) => match sprites_cut(atlas, names, rects) {
                            Err(e) => Err(e),
                            Ok(sprites) => Ok(Sheet { atlas, sprites, chunk_count: chunks.len() }),
                        },
                    },
                },
            }
        },
    }
}

/// The sprite sheet of an index buffer and its texture files.
pub open spec fn parsed_index(buf: Seq<u8>, files: Seq<Seq<u8>>) -> Result<Sheet, DecodeError> {
    match index_chunks(buf) {
        Err(e) => Err(e),
        Ok(chunks) => sheet_of_chunks(detected_platform(buf), chunks, files),
    }
}

/// The texture paths that an index buffer names.
pub open spec fn index_texture_paths(buf: Seq<u8>) -> Result<Seq<Seq<char>>, DecodeError> {
    match index_chunks(buf) {
        Err(e) => Err(e),
        Ok(chunks) => texture_paths_in(detected_platform(buf), chunks[0]),
    }
}

/// What a returned sprite sheet is to a contract.
pub open spec fn sheet_of(parsed: Result<SpriteSheet, DecodeError>) -> Result<Sheet, DecodeError> {
    match parsed {
        Ok(sheet) => Ok(sheet@),
        Err(e) => Err(e),
    }
}

/// Lists the texture files that an index names, in the order in which
/// `parse_index` wants their contents.
pub fn texture_paths(buf: &Vec<u8>) -> (read: Result<Vec<String>, DecodeError>)
    ensures
        paths_of(read) == index_texture_paths(buf@),
{
    if buf.len() < 12 {
        return Err(DecodeError::Truncated);
    }
    let platform: SourcePlatform = get_detected_platform_from_index_format(buf);
    let chunks: Vec<Vec<u8>> = match split_chunks(&platform, buf) {
        Ok(chunks) => chunks,
        Err(e) => {
            return Err(e);
        },
    };
    proof {
        lemma_first_chunk(platform, buf@);
    }
    read_texture_paths(&platform, &chunks[0])
}

/// Decodes an index and the texture files that it names into the atlas and
/// the sprites. `files` holds the contents of the files that
/// `texture_paths` lists, in that order.
pub fn parse_index_with_textures(buf: &Vec<u8>, files: &Vec<Vec<u8>>) -> (parsed: Result<
    SpriteSheet,
    DecodeError,
>)
    ensures
        sheet_of(parsed) == parsed_index(buf@, byte_views(files@)),
{
    if buf.len() < 12 {
        return Err(DecodeError::Truncated);
    }
    let platform: SourcePlatform = get_detected_platform_from_index_format(buf);
    let chunks: Vec<Vec<u8>> = match split_chunks(&platform, buf) {
        Ok(chunks) => chunks,
        Err(e) => {
            return Err(e);
        },
    };
    proof {
        lemma_first_chunk(platform, buf@);
    }
    let paths: Vec<String> = match read_texture_paths(&platform, &chunks[0]) {
        Ok(paths) => paths,
        Err(e) => {
            return Err(e);
        },
    };
    if paths.len() != files.len() {
        return Err(DecodeError::TextureCountMismatch);
    }
    let sprite_names: HashMap<u16, String> = if chunks.len() >= 2 {
        match read_names_from_chunk(&chunks[1]) {
            Ok(names) => names,
            Err(e) => {
                return Err(e);
            },
        }
    } else {
        let names: HashMap<u16, String> = HashMap::new();
        proof {
            broadcast use group_hash_axioms;

            assert(name_views(names@) =~= Map::<u16, Seq<char>>::empty());
        }
        names
    };
    let atlas: RgbaTexture = match load_atlas(&platform, files) {
        Ok(atlas) => atlas,
        Err(e) => {
            return Err(e);
        },
    };
    let rects: Vec<SpriteRect> = match read_sprite_rects(&platform, &chunks[0]) {
        Ok(rects) => rects,
        Err(e) => {
            return Err(e);
        },
    };
    let sprites: Vec<SpriteRecord> = match cut_sprites(&atlas, &sprite_names, &rects) {
        Ok(sprites) => sprites,
        Err(e) => {
            return Err(e);
        },
    };
    Ok(SpriteSheet { atlas, sprites, chunk_count: chunks.len() })
}

/// Whether `reader` may have answered the request for each of `paths` with
/// the file of the same number in `files`.
pub open spec fn read_by<R: Fn(&String) -> Option<Vec<u8>>>(
    reader: R,
    paths: Seq<String>,
    files: Seq<Vec<u8>>,
) -> bool {
    &&& files.len() == paths.len()
    &&& forall|i: int|
        0 <= i < paths.len() ==> call_ensures(reader, (&#[trigger] paths[i],), Some(files[i]))
}

/// Whether `reader` may have failed on one of `paths`.
pub open spec fn failed_by<R: Fn(&String) -> Option<Vec<u8>>>(
    reader: R,
    paths: Seq<String>,
) -> bool {
    exists|k: int|
        0 <= k < paths.len() && call_ensures(reader, (&#[trigger] paths[k],), None::<Vec<u8>>)
}

/// What `parse_index` may return for an index whose texture paths are
/// `paths`: `Unreadable` where the reader failed on one of them, and else
/// what the index and the files that the reader gave decode to.
pub open spec fn parsed_through<R: Fn(&String) -> Option<Vec<u8>>>(
    buf: Seq<u8>,
    reader: R,
    paths: Seq<String>,
    parsed: Result<Sheet, DecodeError>,
) -> bool {
    ||| parsed == Err::<Sheet, DecodeError>(DecodeError::Unreadable) && failed_by(reader, paths)
    ||| exists|files: Seq<Vec<u8>>| #[trigger]
        read_by(reader, paths, files) && parsed == parsed_index(buf, byte_views(files))
}

/// Decodes an index into the atlas and the sprites, and reads the texture
/// files that it names through `reader`.
///
/// The reader is handed each path as `texture_paths` lists it, in that
/// order, and gives the contents of the file, or nothing where it cannot.
/// Where the files lie is the reader's business. After the first file that
/// it cannot give, no more is asked of it.
pub fn parse_index<R: Fn(&String) -> Option<Vec<u8>>>(buf: &Vec<u8>, reader: &R) -> (parsed: Result<
    SpriteSheet,
    DecodeError,
>)
    requires
        forall|path: &String| call_requires(*reader, (path,)),
    ensures
        match index_texture_paths(buf@) {
            Err(e) => sheet_of(parsed) == Err::<Sheet, DecodeError>(e),
            Ok(wanted) => exists|paths: Seq<String>| #[trigger]
                text_views(paths) == wanted && parsed_through(buf@, *reader, paths, sheet_of(parsed)),
        },
{
    let paths: Vec<String> = match texture_paths(buf) {
        Ok(paths) => paths,
        Err(e) => {
            return Err(e);
        },
    };
    let mut files: Vec<Vec<u8>> = Vec::new();
    let mut i: usize = 0;
    while i < paths.len()
        invariant
            i <= paths@.len(),
            files@.len() == i,
            forall|path: &String| call_requires(*reader, (path,)),
            index_texture_paths(buf@) == Ok::<Seq<Seq<char>>, DecodeError>(text_views(paths@)),
            forall|j: int|
                0 <= j < i ==> call_ensures(*reader, (&#[trigger] paths@[j],), Some(files@[j])),
        decreases paths@.len() - i,
    {
        match reader(&paths[i]) {
            Some(file) => {
                files.push(file);
            },
            None => {
                return Err(DecodeError::Unreadable);
            },
        }
        i += 1;
    }
    let parsed = parse_index_with_textures(buf, &files);
    assert(read_by(*reader, paths@, files@));
    parsed
}

} // verus!
