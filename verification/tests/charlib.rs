use gcz_charlib::charlib::{
    get_index_chunks, read_names_from_chunk, read_sprite_rects, read_texture_paths, split_chunks,
    SpriteRect,
};
use gcz_charlib::error::DecodeError;
use gcz_charlib::platform::SourcePlatform;
use gcz_charlib::sheet::{
    cut_sprites, load_atlas, parse_index, parse_index_with_textures, texture_paths,
};
use gcz_charlib::text::{atlas_file_name, find_nul, sprite_file_name};
use gcz_charlib::texture::RgbaTexture;
use std::collections::HashMap;

const PLATFORMS: [SourcePlatform; 3] =
    [SourcePlatform::Firebeat, SourcePlatform::Python, SourcePlatform::PC];

fn u16_bytes(format: SourcePlatform, value: u16) -> [u8; 2] {
    match format {
        SourcePlatform::Firebeat => value.to_be_bytes(),
        _ => value.to_le_bytes(),
    }
}

fn u32_bytes(format: SourcePlatform, value: u32) -> [u8; 4] {
    match format {
        SourcePlatform::Firebeat => value.to_be_bytes(),
        _ => value.to_le_bytes(),
    }
}

fn size_bytes(format: SourcePlatform, value: u32) -> [u8; 4] {
    match format {
        SourcePlatform::Python => value.to_le_bytes(),
        _ => value.to_be_bytes(),
    }
}

fn rect_bytes(format: SourcePlatform, rect: (u16, u16, u16, u16)) -> Vec<u8> {
    let mut bytes = Vec::new();
    for field in [rect.0, rect.1, rect.2, rect.3] {
        bytes.extend_from_slice(&u16_bytes(format, field));
    }
    bytes
}

/// Chunk 0 with the given paths, one to a record, and the sprite table
/// behind them.
fn chunk0(format: SourcePlatform, paths: &[&[u8]], table: &[(u16, u16, u16, u16)]) -> Vec<u8> {
    let mut chunk = vec![0u8; 0x14];
    chunk[0x02..0x04].copy_from_slice(&u16_bytes(format, paths.len() as u16));
    let table_start = 0x14 + 0x20 * paths.len() as u32;
    chunk[0x04..0x08].copy_from_slice(&u32_bytes(format, table_start));
    for path in paths {
        let mut record = [0u8; 0x20];
        record[..path.len()].copy_from_slice(path);
        chunk.extend_from_slice(&record);
    }
    for rect in table {
        chunk.extend_from_slice(&rect_bytes(format, *rect));
    }
    chunk
}

fn index(format: SourcePlatform, chunks: &[Vec<u8>]) -> Vec<u8> {
    let mut buf = Vec::new();
    for chunk in chunks {
        buf.extend_from_slice(&size_bytes(format, chunk.len() as u32));
        buf.extend_from_slice(chunk);
    }
    buf
}

fn name_record(name: &[u8], sprite: u16) -> Vec<u8> {
    let mut record = name.to_vec();
    record.push(0);
    record.extend_from_slice(&sprite.to_le_bytes());
    record
}

fn store(data: &[u8]) -> Vec<u8> {
    let mut gcz = (data.len() as u32).to_le_bytes().to_vec();
    for group in data.chunks(8) {
        gcz.push(0xff);
        gcz.extend_from_slice(group);
    }
    gcz
}

/// A compressed native texture whose pixel in column x of row y has the red
/// value `x + base` and the green value `y`, both below 32. Decoded, the
/// pixel is `texel(format, x + base, y)`.
fn texture_file(format: SourcePlatform, width: u16, height: u16, base: u16) -> Vec<u8> {
    let mut container = vec![0u8; 0x18];
    container[0] = b'G';
    container[1] = b'C';
    container[0x0c..0x0e].copy_from_slice(&width.to_be_bytes());
    container[0x0e..0x10].copy_from_slice(&height.to_be_bytes());
    for y in 0..height {
        for x in 0..width {
            let word = 0x8000 | ((x + base) << 10) | (y << 5);
            container.extend_from_slice(&u16_bytes(format, word));
        }
    }
    store(&container)
}

fn scale(v: u16) -> u8 {
    ((v << 3) | (v >> 2)) as u8
}

fn texel(format: SourcePlatform, red: u16, green: u16) -> [u8; 4] {
    match format {
        SourcePlatform::Firebeat => [scale(red), scale(green), 0, 255],
        _ => [0, scale(green), scale(red), 255],
    }
}

fn names(entries: &[(u16, &str)]) -> HashMap<u16, String> {
    entries.iter().map(|(k, v)| (*k, v.to_string())).collect()
}

#[test]
fn chunks_are_split_at_their_lengths() {
    for format in PLATFORMS {
        let chunks = vec![vec![1, 2, 3], vec![], vec![4; 300], vec![5]];
        let buf = index(format, &chunks);
        assert_eq!(split_chunks(&format, &buf), Ok(chunks));
    }
    assert_eq!(split_chunks(&SourcePlatform::PC, &vec![]), Ok(vec![]));
}

#[test]
fn chunks_must_fill_the_buffer() {
    for format in PLATFORMS {
        let buf = index(format, &[vec![1, 2, 3], vec![4, 5]]);
        assert_eq!(split_chunks(&format, &buf[..buf.len() - 1].to_vec()), Err(DecodeError::Truncated));
        for extra in 1..4 {
            let mut longer = buf.clone();
            longer.extend_from_slice(&vec![0; extra]);
            assert_eq!(split_chunks(&format, &longer), Err(DecodeError::Truncated));
        }
        let mut longer = buf.clone();
        longer.extend_from_slice(&[0; 4]);
        assert_eq!(split_chunks(&format, &longer), Ok(vec![vec![1, 2, 3], vec![4, 5], vec![]]));
    }
    let huge = vec![0xff, 0xff, 0xff, 0xff, 1, 2, 3];
    assert_eq!(split_chunks(&SourcePlatform::Python, &huge), Err(DecodeError::Truncated));
}

#[test]
fn index_chunks_follow_the_detected_platform() {
    for format in PLATFORMS {
        let chunks = vec![chunk0(format, &[b"/a"], &[(0, 0, 1, 1)]), vec![7; 5], vec![8; 2]];
        assert_eq!(get_index_chunks(index(format, &chunks)), Ok(chunks));
    }
}

#[test]
fn index_needs_twelve_bytes() {
    assert_eq!(get_index_chunks(vec![]), Err(DecodeError::Truncated));
    assert_eq!(get_index_chunks(vec![7, 0, 0, 0, 1, 2, 3, 4, 5, 6, 7]), Err(DecodeError::Truncated));
    assert_eq!(
        get_index_chunks(vec![8, 0, 0, 0, 1, 2, 3, 4, 5, 6, 7, 8]),
        Ok(vec![vec![1, 2, 3, 4, 5, 6, 7, 8]])
    );
    assert_eq!(texture_paths(&vec![0; 11]), Err(DecodeError::Truncated));
    assert_eq!(parse_index_with_textures(&vec![0; 11], &vec![]).err(), Some(DecodeError::Truncated));
}

#[test]
fn names_are_read_up_to_a_leading_zero() {
    let mut chunk = name_record(b"head", 1);
    chunk.extend_from_slice(&name_record(b"left arm", 0x0203));
    chunk.extend_from_slice(&name_record("\u{8db3}".as_bytes(), 7));
    chunk.extend_from_slice(&[0, 0, 0, 0]);
    chunk.extend_from_slice(&name_record(b"unread", 9));
    assert_eq!(
        read_names_from_chunk(&chunk),
        Ok(names(&[(1, "head"), (0x0203, "left arm"), (7, "\u{8db3}")]))
    );
}

#[test]
fn names_are_read_up_to_the_end() {
    let mut chunk = name_record(b"a", 0);
    chunk.extend_from_slice(&name_record(b"b", 1));
    assert_eq!(read_names_from_chunk(&chunk), Ok(names(&[(0, "a"), (1, "b")])));
    // Fewer than four bytes cannot hold a record.
    for rest in [&b"x"[..], &b"xy"[..], &b"x\0\x05"[..]] {
        let mut longer = chunk.clone();
        longer.extend_from_slice(rest);
        assert_eq!(read_names_from_chunk(&longer), Ok(names(&[(0, "a"), (1, "b")])));
    }
    assert_eq!(read_names_from_chunk(&vec![]), Ok(HashMap::new()));
    assert_eq!(read_names_from_chunk(&vec![0; 9]), Ok(HashMap::new()));
}

#[test]
fn later_name_replaces_earlier() {
    let mut chunk = name_record(b"first", 3);
    chunk.extend_from_slice(&name_record(b"second", 3));
    assert_eq!(read_names_from_chunk(&chunk), Ok(names(&[(3, "second")])));
}

#[test]
fn name_table_cut_short_is_refused() {
    assert_eq!(read_names_from_chunk(&b"head".to_vec()), Err(DecodeError::Truncated));
    assert_eq!(read_names_from_chunk(&b"head\0\x01".to_vec()), Err(DecodeError::Truncated));
    assert_eq!(read_names_from_chunk(&b"hea\0".to_vec()), Err(DecodeError::Truncated));
    let mut chunk = name_record(b"ok", 1);
    chunk.extend_from_slice(b"tail");
    assert_eq!(read_names_from_chunk(&chunk), Err(DecodeError::Truncated));
}

#[test]
fn name_that_is_not_utf8_is_refused() {
    assert_eq!(read_names_from_chunk(&name_record(&[b'a', 0xff], 1)), Err(DecodeError::InvalidText));
    assert_eq!(read_names_from_chunk(&name_record(&[0xe8, 0xb6], 1)), Err(DecodeError::InvalidText));
    assert_eq!(read_names_from_chunk(&name_record(&[0xc0, 0xaf], 1)), Err(DecodeError::InvalidText));
    // Found before the missing index is.
    assert_eq!(read_names_from_chunk(&vec![0x80, 0x80, 0x80, 0]), Err(DecodeError::InvalidText));
}

#[test]
fn zero_byte_is_found() {
    let buf = [1, 2, 0, 3, 0];
    assert_eq!(find_nul(&buf, 0, 5), 2);
    assert_eq!(find_nul(&buf, 2, 5), 2);
    assert_eq!(find_nul(&buf, 3, 5), 4);
    assert_eq!(find_nul(&buf, 0, 2), 2);
    assert_eq!(find_nul(&buf, 0, 1), 1);
    assert_eq!(find_nul(&buf, 3, 4), 4);
    assert_eq!(find_nul(&buf, 5, 5), 5);
}

#[test]
fn texture_paths_lose_their_leading_slash() {
    for format in PLATFORMS {
        let chunk = chunk0(format, &[b"/data/tex/a.gcz", b"/b.gcz", b"//c", b"/"], &[]);
        assert_eq!(
            read_texture_paths(&format, &chunk),
            Ok(vec!["data/tex/a.gcz".to_string(), "b.gcz".to_string(), "/c".to_string(), String::new()])
        );
        let buf = index(format, &[chunk, vec![]]);
        assert_eq!(texture_paths(&buf).unwrap().len(), 4);
    }
}

#[test]
fn texture_path_may_fill_its_record() {
    let full = b"/234567890123456789012345678901x";
    assert_eq!(full.len(), 0x20);
    let chunk = chunk0(SourcePlatform::Python, &[full, b"/next"], &[]);
    assert_eq!(
        read_texture_paths(&SourcePlatform::Python, &chunk),
        Ok(vec!["234567890123456789012345678901x".to_string(), "next".to_string()])
    );
}

#[test]
fn texture_path_in_other_than_ascii() {
    let chunk = chunk0(SourcePlatform::PC, &["/t\u{e9}x/\u{8db3}.gcz".as_bytes()], &[]);
    assert_eq!(
        read_texture_paths(&SourcePlatform::PC, &chunk),
        Ok(vec!["t\u{e9}x/\u{8db3}.gcz".to_string()])
    );
}

#[test]
fn last_texture_record_may_end_behind_its_zero() {
    let mut chunk = chunk0(SourcePlatform::Python, &[b"/a", b"/bc"], &[]);
    chunk.truncate(0x14 + 0x20 + 4);
    assert_eq!(
        read_texture_paths(&SourcePlatform::Python, &chunk),
        Ok(vec!["a".to_string(), "bc".to_string()])
    );
    chunk.truncate(0x14 + 0x20 + 3);
    assert_eq!(read_texture_paths(&SourcePlatform::Python, &chunk), Err(DecodeError::Truncated));
    chunk.truncate(0x14 + 0x20);
    assert_eq!(read_texture_paths(&SourcePlatform::Python, &chunk), Err(DecodeError::Truncated));
}

#[test]
fn texture_table_cut_short_is_refused() {
    let mut chunk = chunk0(SourcePlatform::Firebeat, &[], &[]);
    chunk[3] = 1;
    assert_eq!(read_texture_paths(&SourcePlatform::Firebeat, &chunk), Err(DecodeError::Truncated));
    assert_eq!(read_texture_paths(&SourcePlatform::Firebeat, &vec![0, 0, 0]), Err(DecodeError::Truncated));
    assert_eq!(read_texture_paths(&SourcePlatform::Firebeat, &vec![0, 0, 0, 0]), Ok(vec![]));
}

#[test]
fn relative_texture_path_is_refused() {
    for path in [&b"data/a.gcz"[..], &b""[..], &b"\\a"[..]] {
        let chunk = chunk0(SourcePlatform::Python, &[b"/ok", path], &[]);
        assert_eq!(read_texture_paths(&SourcePlatform::Python, &chunk), Err(DecodeError::RelativePath));
    }
}

#[test]
fn texture_path_that_is_not_utf8_is_refused() {
    let chunk = chunk0(SourcePlatform::Python, &[b"/a\xff"], &[]);
    assert_eq!(read_texture_paths(&SourcePlatform::Python, &chunk), Err(DecodeError::InvalidText));
}

#[test]
fn first_bad_texture_path_decides() {
    let chunk = chunk0(SourcePlatform::Python, &[b"/a", b"/\xff", b"relative"], &[]);
    assert_eq!(read_texture_paths(&SourcePlatform::Python, &chunk), Err(DecodeError::InvalidText));
    let chunk = chunk0(SourcePlatform::Python, &[b"/a", b"relative", b"/\xff"], &[]);
    assert_eq!(read_texture_paths(&SourcePlatform::Python, &chunk), Err(DecodeError::RelativePath));
}

#[test]
fn sprite_table_ends_at_the_first_sentinel() {
    for format in PLATFORMS {
        let table = [(0, 0, 16, 16), (0, 16, 16, 16), (0, 0, 0, 0), (99, 99, 5, 5)];
        let chunk = chunk0(format, &[b"/a"], &table);
        assert_eq!(
            read_sprite_rects(&format, &chunk),
            Ok(vec![
                SpriteRect { x: 0, y: 0, w: 16, h: 16 },
                SpriteRect { x: 0, y: 16, w: 16, h: 16 },
            ])
        );
    }
}

#[test]
fn sentinel_lacks_width_or_height() {
    let format = SourcePlatform::Firebeat;
    for sentinel in [(7, 7, 0, 9), (7, 7, 9, 0), (0, 0, 0, 0)] {
        let chunk = chunk0(format, &[], &[(1, 2, 3, 4), sentinel, (5, 6, 7, 8)]);
        assert_eq!(
            read_sprite_rects(&format, &chunk),
            Ok(vec![SpriteRect { x: 1, y: 2, w: 3, h: 4 }])
        );
    }
    let chunk = chunk0(format, &[], &[(0, 0, 0, 0), (5, 6, 7, 8)]);
    assert_eq!(read_sprite_rects(&format, &chunk), Ok(vec![]));
}

#[test]
fn sprite_table_may_end_with_the_chunk() {
    let format = SourcePlatform::PC;
    let chunk = chunk0(format, &[b"/a"], &[(1, 2, 3, 4), (0x0102, 0x0304, 0x0506, 0x0708)]);
    assert_eq!(
        read_sprite_rects(&format, &chunk),
        Ok(vec![
            SpriteRect { x: 1, y: 2, w: 3, h: 4 },
            SpriteRect { x: 0x0102, y: 0x0304, w: 0x0506, h: 0x0708 },
        ])
    );
    let mut beyond = chunk0(format, &[], &[]);
    beyond[0x04..0x08].copy_from_slice(&1000u32.to_le_bytes());
    assert_eq!(read_sprite_rects(&format, &beyond), Ok(vec![]));
}

#[test]
fn sprite_table_cut_short_is_refused() {
    let format = SourcePlatform::Python;
    let chunk = chunk0(format, &[], &[(1, 2, 3, 4), (5, 6, 7, 8)]);
    for cut in 1..8 {
        let short = chunk[..chunk.len() - cut].to_vec();
        assert_eq!(read_sprite_rects(&format, &short), Err(DecodeError::Truncated));
    }
    assert_eq!(read_sprite_rects(&format, &chunk[..7].to_vec()), Err(DecodeError::Truncated));
}

#[test]
fn sprites_are_cut_and_named() {
    let atlas = RgbaTexture::from_raw(2, 2, (0..16).collect()).unwrap();
    let rects = vec![
        SpriteRect { x: 0, y: 0, w: 1, h: 2 },
        SpriteRect { x: 1, y: 1, w: 1, h: 1 },
        SpriteRect { x: 0, y: 1, w: 2, h: 1 },
    ];
    let sprites = cut_sprites(&atlas, &names(&[(1, "head"), (9, "none")]), &rects).unwrap();
    assert_eq!(sprites.len(), 3);
    for (i, sprite) in sprites.iter().enumerate() {
        assert_eq!(sprite.index as usize, i);
        assert_eq!(sprite.rect, rects[i]);
        assert_eq!((sprite.image.width(), sprite.image.height()), (rects[i].w as u32, rects[i].h as u32));
    }
    assert_eq!(sprites[0].name, None);
    assert_eq!(sprites[1].name, Some("head".to_string()));
    assert_eq!(sprites[2].name, None);
    assert_eq!(sprites[0].image.as_raw(), &vec![0, 1, 2, 3, 8, 9, 10, 11]);
    assert_eq!(sprites[1].image.as_raw(), &vec![12, 13, 14, 15]);
    assert_eq!(sprites[2].image.as_raw(), &vec![8, 9, 10, 11, 12, 13, 14, 15]);
    assert_eq!(sprites[1].clone(), sprites[1]);
}

#[test]
fn sprite_beyond_the_atlas_is_refused() {
    let atlas = RgbaTexture::from_raw(2, 2, vec![0; 16]).unwrap();
    let rects = vec![SpriteRect { x: 0, y: 0, w: 2, h: 2 }, SpriteRect { x: 1, y: 0, w: 2, h: 1 }];
    assert_eq!(cut_sprites(&atlas, &HashMap::new(), &rects), Err(DecodeError::OutOfBounds));
    let rects = vec![SpriteRect { x: 0xffff, y: 0xffff, w: 0xffff, h: 0xffff }];
    assert_eq!(cut_sprites(&atlas, &HashMap::new(), &rects), Err(DecodeError::OutOfBounds));
}

#[test]
fn sprite_numbers_have_sixteen_bits() {
    let atlas = RgbaTexture::from_raw(1, 1, vec![1, 2, 3, 4]).unwrap();
    let mut rects = vec![SpriteRect { x: 0, y: 0, w: 1, h: 1 }; 0x10000];
    let sprites = cut_sprites(&atlas, &names(&[(0xffff, "last")]), &rects).unwrap();
    assert_eq!(sprites.len(), 0x10000);
    assert_eq!(sprites[0xffff].index, 0xffff);
    assert_eq!(sprites[0xffff].name, Some("last".to_string()));
    rects.push(SpriteRect { x: 0, y: 0, w: 1, h: 1 });
    assert_eq!(cut_sprites(&atlas, &HashMap::new(), &rects), Err(DecodeError::TooManySprites));
    // Counted before any rectangle is looked at.
    rects[0].x = 5;
    assert_eq!(cut_sprites(&atlas, &HashMap::new(), &rects), Err(DecodeError::TooManySprites));
}

#[test]
fn atlas_is_loaded_from_compressed_files() {
    for format in PLATFORMS {
        let files = vec![texture_file(format, 2, 1, 0), texture_file(format, 2, 2, 10)];
        let atlas = load_atlas(&format, &files).unwrap();
        assert_eq!((atlas.width(), atlas.height()), (2, 3));
        let mut expected = Vec::new();
        for (red, green) in [(0, 0), (1, 0), (10, 0), (11, 0), (10, 1), (11, 1)] {
            expected.extend_from_slice(&texel(format, red, green));
        }
        assert_eq!(atlas.as_raw(), &expected);
    }
}

#[test]
fn atlas_errors() {
    let format = SourcePlatform::Python;
    let files = vec![texture_file(format, 2, 1, 0), texture_file(format, 3, 1, 0)];
    assert_eq!(load_atlas(&format, &files), Err(DecodeError::WidthMismatch));
    let files = vec![texture_file(format, 2, 1, 0), vec![1, 2, 3]];
    assert_eq!(load_atlas(&format, &files), Err(DecodeError::Truncated));
    let files = vec![store(b"PNG and so on"), texture_file(format, 3, 1, 0)];
    assert_eq!(load_atlas(&format, &files), Err(DecodeError::UnknownFormat));
    let atlas = load_atlas(&format, &vec![]).unwrap();
    assert_eq!((atlas.width(), atlas.height()), (0, 0));
}

#[test]
fn file_names() {
    assert_eq!(sprite_file_name(0, None), "00000.png");
    assert_eq!(sprite_file_name(7, None), "00007.png");
    assert_eq!(sprite_file_name(42, None), "00042.png");
    assert_eq!(sprite_file_name(105, None), "00105.png");
    assert_eq!(sprite_file_name(9999, None), "09999.png");
    assert_eq!(sprite_file_name(12345, None), "12345.png");
    assert_eq!(sprite_file_name(65535, None), "65535.png");
    assert_eq!(sprite_file_name(1, Some(&"head".to_string())), "00001_head.png");
    assert_eq!(sprite_file_name(60000, Some(&String::new())), "60000_.png");
    assert_eq!(sprite_file_name(3, Some(&"\u{8db3} a".to_string())), "00003_\u{8db3} a.png");
    for index in [0u16, 9, 10, 99, 100, 999, 1000, 9999, 10000, 54321, 65535] {
        assert_eq!(sprite_file_name(index, None), format!("{:05}.png", index));
        let name = "n".to_string();
        assert_eq!(sprite_file_name(index, Some(&name)), format!("{:05}_{}.png", index, name));
    }
    assert_eq!(atlas_file_name(), "_atlas.png");
}

#[test]
fn named_sprite_gets_its_name_in_the_file_name() {
    let format = SourcePlatform::Python;
    let table = [(0, 0, 1, 1), (1, 0, 1, 1), (0, 1, 2, 1)];
    let buf = index(format, &[chunk0(format, &[b"/a.gcz"], &table), name_record(b"head", 1)]);
    let sheet = parse_index_with_textures(&buf, &vec![texture_file(format, 2, 2, 0)]).unwrap();
    let file_names: Vec<String> = sheet
        .sprites
        .iter()
        .map(|sprite| sprite_file_name(sprite.index, sprite.name.as_ref()))
        .collect();
    assert_eq!(file_names, vec!["00000.png", "00001_head.png", "00002.png"]);
}

#[test]
fn index_with_two_chunks() {
    for format in PLATFORMS {
        let table = [(0, 0, 2, 2), (2, 1, 2, 3)];
        let chunks = [chunk0(format, &[b"/tex/atlas.gcz"], &table), name_record(b"head", 1)];
        let buf = index(format, &chunks);
        assert_eq!(texture_paths(&buf), Ok(vec!["tex/atlas.gcz".to_string()]));
        let sheet = parse_index_with_textures(&buf, &vec![texture_file(format, 4, 4, 0)]).unwrap();
        assert_eq!(sheet.chunk_count, 2);
        assert_eq!((sheet.atlas.width(), sheet.atlas.height()), (4, 4));
        let mut expected = Vec::new();
        for y in 0..4 {
            for x in 0..4 {
                expected.extend_from_slice(&texel(format, x, y));
            }
        }
        assert_eq!(sheet.atlas.as_raw(), &expected);
        assert_eq!(sheet.sprites.len(), 2);
        let first = &sheet.sprites[0];
        assert_eq!((first.index, &first.name), (0, &None));
        assert_eq!(first.rect, SpriteRect { x: 0, y: 0, w: 2, h: 2 });
        assert_eq!((first.image.width(), first.image.height()), (2, 2));
        let mut expected = Vec::new();
        for (x, y) in [(0, 0), (1, 0), (0, 1), (1, 1)] {
            expected.extend_from_slice(&texel(format, x, y));
        }
        assert_eq!(first.image.as_raw(), &expected);
        let second = &sheet.sprites[1];
        assert_eq!((second.index, &second.name), (1, &Some("head".to_string())));
        assert_eq!(second.rect, SpriteRect { x: 2, y: 1, w: 2, h: 3 });
        assert_eq!((second.image.width(), second.image.height()), (2, 3));
        let mut expected = Vec::new();
        for (x, y) in [(2, 1), (3, 1), (2, 2), (3, 2), (2, 3), (3, 3)] {
            expected.extend_from_slice(&texel(format, x, y));
        }
        assert_eq!(second.image.as_raw(), &expected);
    }
}

#[test]
fn index_with_several_textures() {
    for format in PLATFORMS {
        let table = [(0, 0, 16, 16), (0, 16, 16, 16), (0, 0, 0, 0), (99, 99, 5, 5)];
        let buf = index(format, &[chunk0(format, &[b"/a", b"/b"], &table), vec![]]);
        let files = vec![texture_file(format, 16, 20, 0), texture_file(format, 16, 12, 16)];
        let sheet = parse_index_with_textures(&buf, &files).unwrap();
        assert_eq!((sheet.atlas.width(), sheet.atlas.height()), (16, 32));
        assert_eq!(sheet.sprites.len(), 2);
        // The second sprite straddles both textures.
        let image = &sheet.sprites[1].image;
        assert_eq!(&image.as_raw()[..4], &texel(format, 0, 16));
        assert_eq!(&image.as_raw()[4 * 16 * 4..4 * 16 * 4 + 4], &texel(format, 16, 0));
        assert_eq!(&image.as_raw()[4 * (16 * 15 + 15)..], &texel(format, 31, 11));
    }
}

#[test]
fn index_without_name_chunk() {
    let format = SourcePlatform::Python;
    let buf = index(format, &[chunk0(format, &[b"/a"], &[(0, 0, 1, 1), (1, 1, 1, 1)])]);
    let sheet = parse_index_with_textures(&buf, &vec![texture_file(format, 2, 2, 0)]).unwrap();
    assert_eq!(sheet.chunk_count, 1);
    assert_eq!(sheet.sprites.len(), 2);
    assert!(sheet.sprites.iter().all(|sprite| sprite.name.is_none()));
}

#[test]
fn later_chunks_are_counted_only() {
    let format = SourcePlatform::Firebeat;
    let chunks = [
        chunk0(format, &[b"/a"], &[(0, 0, 1, 1)]),
        name_record(b"only", 0),
        vec![0xff; 40],
        vec![],
        b"not\0looked\0at".to_vec(),
    ];
    let sheet = parse_index_with_textures(&index(format, &chunks), &vec![texture_file(format, 1, 1, 3)]).unwrap();
    assert_eq!(sheet.chunk_count, 5);
    assert_eq!(sheet.sprites.len(), 1);
    assert_eq!(sheet.sprites[0].name, Some("only".to_string()));
    assert_eq!(sheet.sprites[0].image.as_raw(), &texel(format, 3, 0).to_vec());
}

#[test]
fn index_without_textures_or_sprites() {
    let format = SourcePlatform::Python;
    let buf = index(format, &[chunk0(format, &[], &[])]);
    let sheet = parse_index_with_textures(&buf, &vec![]).unwrap();
    assert_eq!((sheet.atlas.width(), sheet.atlas.height()), (0, 0));
    assert!(sheet.sprites.is_empty());
}

#[test]
fn index_errors() {
    let format = SourcePlatform::Python;
    let file = texture_file(format, 2, 2, 0);
    let parse = |chunks: &[Vec<u8>], files: Vec<Vec<u8>>| {
        parse_index_with_textures(&index(format, chunks), &files).err()
    };
    let good = chunk0(format, &[b"/a"], &[(0, 0, 2, 2)]);
    assert_eq!(parse(&[good.clone()], vec![file.clone()]), None);
    assert_eq!(parse(&[good.clone()], vec![]), Some(DecodeError::TextureCountMismatch));
    assert_eq!(
        parse(&[good.clone()], vec![file.clone(), file.clone()]),
        Some(DecodeError::TextureCountMismatch)
    );
    assert_eq!(parse(&[good.clone(), b"cut".to_vec()], vec![file.clone()]), None);
    assert_eq!(
        parse(&[good.clone(), b"cut short".to_vec()], vec![file.clone()]),
        Some(DecodeError::Truncated)
    );
    assert_eq!(
        parse(&[good.clone(), name_record(&[0xff], 0)], vec![file.clone()]),
        Some(DecodeError::InvalidText)
    );
    assert_eq!(
        parse(&[chunk0(format, &[b"a"], &[])], vec![file.clone()]),
        Some(DecodeError::RelativePath)
    );
    assert_eq!(
        parse(&[chunk0(format, &[b"/a"], &[(1, 1, 2, 2)])], vec![file.clone()]),
        Some(DecodeError::OutOfBounds)
    );
    assert_eq!(
        parse(&[good.clone()], vec![store(b"no texture")]),
        Some(DecodeError::UnknownFormat)
    );
    assert_eq!(
        parse(
            &[chunk0(format, &[b"/a", b"/b"], &[])],
            vec![file.clone(), texture_file(format, 3, 1, 0)]
        ),
        Some(DecodeError::WidthMismatch)
    );
    let mut cut = good.clone();
    cut.truncate(cut.len() - 1);
    assert_eq!(parse(&[cut], vec![file.clone()]), Some(DecodeError::Truncated));
    let mut buf = index(format, &[good]);
    buf.push(0);
    assert_eq!(parse_index_with_textures(&buf, &vec![file]).err(), Some(DecodeError::Truncated));
}

#[test]
fn index_with_too_many_sprites() {
    let format = SourcePlatform::Python;
    let table = vec![(0, 0, 1, 1); 0x10001];
    let buf = index(format, &[chunk0(format, &[b"/a"], &table)]);
    let file = texture_file(format, 1, 1, 0);
    assert_eq!(parse_index_with_textures(&buf, &vec![file]).err(), Some(DecodeError::TooManySprites));
}

#[test]
fn index_read_through_a_reader() {
    for format in PLATFORMS {
        let table = [(0, 0, 2, 2), (2, 1, 2, 3)];
        let chunks = [chunk0(format, &[b"/tex/atlas.gcz"], &table), name_record(b"head", 1)];
        let buf = index(format, &chunks);
        let file = texture_file(format, 4, 4, 0);
        let reader = |path: &String| {
            if path == "tex/atlas.gcz" {
                Some(file.clone())
            } else {
                None
            }
        };
        let sheet = parse_index(&buf, &reader).unwrap();
        assert_eq!((sheet.atlas.width(), sheet.atlas.height()), (4, 4));
        assert_eq!(sheet.sprites.len(), 2);
        assert_eq!(sheet.sprites[0].rect, SpriteRect { x: 0, y: 0, w: 2, h: 2 });
        assert_eq!(sheet.sprites[1].rect, SpriteRect { x: 2, y: 1, w: 2, h: 3 });
        assert_eq!(sheet.sprites[1].name, Some("head".to_string()));
        let direct = parse_index_with_textures(&buf, &vec![file.clone()]).unwrap();
        assert_eq!(sheet.atlas, direct.atlas);
        assert_eq!(sheet.sprites, direct.sprites);
        assert_eq!(sheet.chunk_count, direct.chunk_count);
    }
}

#[test]
fn reader_is_asked_for_each_texture_in_order() {
    let format = SourcePlatform::PC;
    let buf = index(format, &[chunk0(format, &[b"/b", b"/a", b"/b"], &[(0, 0, 1, 3)])]);
    let asked = std::cell::RefCell::new(Vec::new());
    let reader = |path: &String| {
        asked.borrow_mut().push(path.clone());
        let red = if path == "a" { 20 } else { 10 };
        Some(texture_file(format, 1, 1, red))
    };
    let sheet = parse_index(&buf, &reader).unwrap();
    assert_eq!(*asked.borrow(), vec!["b", "a", "b"]);
    let mut expected = Vec::new();
    for red in [10, 20, 10] {
        expected.extend_from_slice(&texel(format, red, 0));
    }
    assert_eq!(sheet.atlas.as_raw(), &expected);
    assert_eq!(sheet.sprites[0].image.as_raw(), &expected);
}

#[test]
fn reader_that_fails_stops_the_parse() {
    let format = SourcePlatform::Python;
    let buf = index(format, &[chunk0(format, &[b"/a", b"/missing", b"/c"], &[])]);
    let asked = std::cell::RefCell::new(Vec::new());
    let reader = |path: &String| {
        asked.borrow_mut().push(path.clone());
        if path == "missing" {
            None
        } else {
            Some(texture_file(format, 1, 1, 0))
        }
    };
    assert_eq!(parse_index(&buf, &reader).err(), Some(DecodeError::Unreadable));
    assert_eq!(*asked.borrow(), vec!["a", "missing"]);
}

#[test]
fn reader_is_not_asked_for_a_bad_index() {
    let reader = |_: &String| -> Option<Vec<u8>> { panic!("nothing to read") };
    assert_eq!(parse_index(&vec![0; 5], &reader).err(), Some(DecodeError::Truncated));
    let format = SourcePlatform::Python;
    let buf = index(format, &[chunk0(format, &[b"relative"], &[])]);
    assert_eq!(parse_index(&buf, &reader).err(), Some(DecodeError::RelativePath));
    let buf = index(format, &[chunk0(format, &[], &[])]);
    assert!(parse_index(&buf, &reader).is_ok());
}
