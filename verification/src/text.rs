//! Text in an index: the bytes of names and paths, and the file name a
//! sprite is saved under.

use vstd::prelude::*;
use vstd::string::StringExecFns;
use vstd::utf8::{decode_utf8, valid_utf8};

verus! {

/// Calls `String::from_utf8` of the standard library. Trusted, not proved:
/// the call succeeds exactly on the byte sequences that are UTF-8, and the
/// string it then gives holds the characters that those bytes encode.
#[verifier::external_body]
pub(crate) fn string_from_utf8(bytes: Vec<u8>) -> (text: Option<String>)
    ensures
        text is Some <==> valid_utf8(bytes@),
        text matches Some(s) ==> s@ == decode_utf8(bytes@),
{
    String::from_utf8(bytes).ok()
}

/// The position of the first zero byte of `buf` in `from..limit`, or
/// `limit` where there is none.
pub open spec fn nul_within(buf: Seq<u8>, from: int, limit: int) -> int
    decreases limit - from,
{
    if from >= limit {
        limit
    } else if buf[from] == 0 {
        from
    } else {
        nul_within(buf, from + 1, limit)
    }
}

/// What `nul_within` finds: no byte before it is zero, and it stops at a
/// zero byte unless it reaches the limit.
pub proof fn lemma_nul_within(buf: Seq<u8>, from: int, limit: int)
    requires
        from <= limit,
    ensures
        from <= nul_within(buf, from, limit) <= limit,
        forall|i: int| from <= i < nul_within(buf, from, limit) ==> buf[i] != 0,
        nul_within(buf, from, limit) < limit ==> buf[nul_within(buf, from, limit)] == 0,
    decreases limit - from,
{
    if from < limit && buf[from] != 0 {
        lemma_nul_within(buf, from + 1, limit);
    }
}

/// Finds the first zero byte of `buf` in `from..limit`.
pub fn find_nul(buf: &[u8], from: usize, limit: usize) -> (end: usize)
    requires
        from <= limit <= buf@.len(),
    ensures
        end == nul_within(buf@, from as int, limit as int),
        from <= end <= limit,
{
    let mut end: usize = from;
    while end < limit && buf[end] != 0
        invariant
            from <= end <= limit <= buf@.len(),
            nul_within(buf@, end as int, limit as int) == nul_within(
                buf@,
                from as int,
                limit as int,
            ),
        decreases limit - end,
    {
        end += 1;
    }
    end
}

/// The decimal digit `d` as a character.
pub open spec fn digit_char(d: int) -> char {
    if d == 0 {
        '0'
    } else if d == 1 {
        '1'
    } else if d == 2 {
        '2'
    } else if d == 3 {
        '3'
    } else if d == 4 {
        '4'
    } else if d == 5 {
        '5'
    } else if d == 6 {
        '6'
    } else if d == 7 {
        '7'
    } else if d == 8 {
        '8'
    } else {
        '9'
    }
}

/// A sprite index in five decimal digits, with leading zeros.
pub open spec fn index_digits(index: u16) -> Seq<char> {
    seq![
        digit_char(index as int / 10000),
        digit_char(index as int / 1000 % 10),
        digit_char(index as int / 100 % 10),
        digit_char(index as int / 10 % 10),
        digit_char(index as int % 10),
    ]
}

/// The file name of a sprite: its index in five digits, then `_` and its
/// name where it has one, then `.png`.
pub open spec fn sprite_file_name_of(index: u16, name: Option<Seq<char>>) -> Seq<char> {
    let stem = match name {
        Some(name) => index_digits(index) + seq!['_'] + name,
        None => index_digits(index),
    };
    stem + seq!['.', 'p', 'n', 'g']
}

/// The file name of the atlas.
pub open spec fn atlas_file_name_of() -> Seq<char> {
    seq!['_', 'a', 't', 'l', 'a', 's', '.', 'p', 'n', 'g']
}

fn digit_str(d: u16) -> (s: &'static str)
    requires
        d < 10,
    ensures
        s@ == seq![digit_char(d as int)],
{
    proof {
        reveal_strlit("0");
        reveal_strlit("1");
        reveal_strlit("2");
        reveal_strlit("3");
        reveal_strlit("4");
        reveal_strlit("5");
        reveal_strlit("6");
        reveal_strlit("7");
        reveal_strlit("8");
        reveal_strlit("9");
    }
    let s: &'static str = match d {
        0 => "0",
        1 => "1",
        2 => "2",
        3 => "3",
        4 => "4",
        5 => "5",
        6 => "6",
        7 => "7",
        8 => "8",
        _ => "9",
    };
    s
}

/// The file name a sprite is saved under.
pub fn sprite_file_name(index: u16, name: Option<&String>) -> (file_name: String)
    ensures
        file_name@ == sprite_file_name_of(
            index,
            match name {
                Some(name) => Some(name@),
                None => None,
            },
        ),
{
    let mut file_name: String = String::new();
    file_name.append(digit_str(index / 10000));
    file_name.append(digit_str(index / 1000 % 10));
    file_name.append(digit_str(index / 100 % 10));
    file_name.append(digit_str(index / 10 % 10));
    file_name.append(digit_str(index % 10));
    match name {
        Some(name) => {
            proof {
                reveal_strlit("_");
            }
            file_name.append("_");
            file_name.append(name.as_str());
        },
        None => {},
    }
    proof {
        reveal_strlit(".png");
    }
    file_name.append(".png");
    file_name
}

/// The file name the atlas is saved under.
pub fn atlas_file_name() -> (file_name: String)
    ensures
        file_name@ == atlas_file_name_of(),
{
    proof {
        reveal_strlit("_atlas.png");
    }
    let file_name: String = String::from_str("_atlas.png");
    file_name
}

} // verus!
