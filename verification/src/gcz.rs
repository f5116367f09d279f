//! The GCZ stream: a 32-bit little-endian size, then LZSS tokens over a
//! 4096-byte sliding window.
//!
//! Tokens come in groups of eight behind a flag byte, whose bits are read
//! from the lowest up. A set bit announces a literal byte. A clear bit
//! announces a two-byte back-reference: a slot of the window and a run
//! length. The window starts out zero-filled, with the write position at
//! slot `0xfee`.

use crate::bytes::{le_u32, read_u32_le};
use vstd::prelude::*;

verus! {

/// Number of slots in the sliding window.
pub const WINDOW_SIZE: usize = 0x1000;

/// The slot the first decoded byte is written to.
pub const WINDOW_START: usize = 0xfee;

/// The shortest run a back-reference can ask for.
pub const MIN_RUN: usize = 3;

/// The size of the decoded data that the stream declares in its first four
/// bytes.
pub open spec fn declared_size(input: Seq<u8>) -> nat {
    le_u32(input, 0) as nat
}

/// The window slot that the next byte goes to once `emitted` bytes are out.
pub open spec fn window_index(emitted: nat) -> int {
    (WINDOW_START + emitted) % (WINDOW_SIZE as int)
}

/// The window slot a back-reference names: the first byte, with the low
/// nibble of the second byte on top.
pub open spec fn run_slot(b0: u8, b1: u8) -> int {
    b0 as int + 256 * (b1 as int % 16)
}

/// The run length a back-reference names: the high nibble of its second
/// byte, plus three.
pub open spec fn run_length(b1: u8) -> int {
    b1 as int / 16 + MIN_RUN
}

/// How far behind the write position the slot `slot` was last written, once
/// `emitted` bytes are out: between 1 and 4096. The slot of the write
/// position itself is a whole window back.
pub open spec fn back_distance(emitted: nat, slot: int) -> int {
    let w = window_index(emitted);
    if slot >= w {
        WINDOW_SIZE - (slot - w)
    } else {
        w - slot
    }
}

/// The byte at position `at` of the output, where the positions before the
/// first byte stand for the zero-filled window.
pub open spec fn window_byte(out: Seq<u8>, at: int) -> u8 {
    if at < 0 {
        0
    } else {
        out[at]
    }
}

/// `out` with `count` more bytes, each a copy of the byte `distance` places
/// before it. Bytes are copied one at a time, so a run longer than
/// `distance` repeats what it has just written.
pub open spec fn copy_run(out: Seq<u8>, distance: int, count: nat) -> Seq<u8>
    decreases count,
{
    if count == 0 {
        out
    } else {
        copy_run(out.push(window_byte(out, out.len() - distance)), distance, (count - 1) as nat)
    }
}

/// The smaller of a back-reference's run length and the room left in an
/// output of `size` bytes.
pub open spec fn clipped_run(size: nat, emitted: nat, b1: u8) -> nat {
    if run_length(b1) < size - emitted {
        run_length(b1) as nat
    } else {
        (size - emitted) as nat
    }
}

/// What the decoder has emitted when it stops, having started at input
/// position `pos` with `out` emitted, and with `left` tokens still owed by
/// the flag bits in `flags`.
///
/// The decoder stops when `size` bytes are out, or when the input ends
/// before the next flag byte or token is complete.
pub open spec fn decode_from(
    input: Seq<u8>,
    size: nat,
    pos: int,
    flags: int,
    left: nat,
    out: Seq<u8>,
) -> Seq<u8>
    decreases input.len() - pos,
{
    if out.len() >= size || pos >= input.len() || pos < 0 {
        out
    } else if left == 0 {
        decode_from(input, size, pos + 1, input[pos] as int, 8, out)
    } else if flags % 2 == 1 {
        decode_from(input, size, pos + 1, flags / 2, (left - 1) as nat, out.push(input[pos]))
    } else if pos + 1 >= input.len() {
        out
    } else {
        let distance = back_distance(out.len(), run_slot(input[pos], input[pos + 1]));
        let count = clipped_run(size, out.len(), input[pos + 1]);
        decode_from(
            input,
            size,
            pos + 2,
            flags / 2,
            (left - 1) as nat,
            copy_run(out, distance, count),
        )
    }
}

/// The bytes that the tokens of a stream decode to.
pub open spec fn decoded_prefix(input: Seq<u8>) -> Seq<u8> {
    decode_from(input, declared_size(input), 4, 0, 0, Seq::empty())
}

/// The decoded data of a stream: what its tokens decode to, zero-filled up
/// to the declared size.
pub open spec fn decompressed(input: Seq<u8>) -> Seq<u8> {
    let decoded = decoded_prefix(input);
    decoded + Seq::new((declared_size(input) - decoded.len()) as nat, |i: int| 0u8)
}

/// A run adds `count` bytes behind `out`, and each of them equals the byte
/// `distance` places before it in the result.
pub proof fn lemma_copy_run(out: Seq<u8>, distance: int, count: nat)
    requires
        distance >= 1,
    ensures
        copy_run(out, distance, count).len() == out.len() + count,
        forall|i: int| 0 <= i < out.len() ==> copy_run(out, distance, count)[i] == out[i],
        forall|i: int|
            out.len() <= i < out.len() + count ==> #[trigger] copy_run(out, distance, count)[i]
                == window_byte(copy_run(out, distance, count), i - distance),
    decreases count,
{
    if count > 0 {
        let next = out.push(window_byte(out, out.len() - distance));
        lemma_copy_run(next, distance, (count - 1) as nat);
        let done = copy_run(out, distance, count);
        assert forall|i: int| 0 <= i < out.len() implies done[i] == out[i] by {
            assert(next[i] == out[i]);
        }
        assert forall|i: int| out.len() <= i < out.len() + count implies #[trigger] done[i]
            == window_byte(done, i - distance) by {
            if i == out.len() {
                assert(done[i] == next[i]);
            }
        }
    }
}

/// The distance of a back-reference lies between 1 and the window size.
pub proof fn lemma_back_distance_range(emitted: nat, b0: u8, b1: u8)
    ensures
        1 <= back_distance(emitted, run_slot(b0, b1)) <= WINDOW_SIZE,
{
}

/// The decoder never emits more than `size` bytes, and keeps what was
/// already out.
pub proof fn lemma_decode_from(
    input: Seq<u8>,
    size: nat,
    pos: int,
    flags: int,
    left: nat,
    out: Seq<u8>,
)
    requires
        out.len() <= size,
    ensures
        out.len() <= decode_from(input, size, pos, flags, left, out).len() <= size,
        forall|i: int|
            0 <= i < out.len() ==> decode_from(input, size, pos, flags, left, out)[i] == out[i],
    decreases input.len() - pos,
{
    if out.len() >= size || pos >= input.len() || pos < 0 {
    } else if left == 0 {
        lemma_decode_from(input, size, pos + 1, input[pos] as int, 8, out);
    } else if flags % 2 == 1 {
        let next = out.push(input[pos]);
        lemma_decode_from(input, size, pos + 1, flags / 2, (left - 1) as nat, next);
        assert forall|i: int| 0 <= i < out.len() implies decode_from(
            input,
            size,
            pos,
            flags,
            left,
            out,
        )[i] == out[i] by {
            assert(next[i] == out[i]);
        }
    } else if pos + 1 >= input.len() {
    } else {
        let distance = back_distance(out.len(), run_slot(input[pos], input[pos + 1]));
        let count = clipped_run(size, out.len(), input[pos + 1]);
        let next = copy_run(out, distance, count);
        lemma_back_distance_range(out.len(), input[pos], input[pos + 1]);
        lemma_copy_run(out, distance, count);
        lemma_decode_from(input, size, pos + 2, flags / 2, (left - 1) as nat, next);
    }
}

/// The decoded data has the declared size, whatever the stream holds after
/// its first four bytes.
pub proof fn lemma_decompressed_len(input: Seq<u8>)
    ensures
        decompressed(input).len() == declared_size(input),
{
    lemma_decode_from(input, declared_size(input), 4, 0, 0, Seq::empty());
}

/// Where the tokens give out early, the rest of the decoded data is zero.
pub proof fn lemma_decompressed_zero_fill(input: Seq<u8>, i: int)
    requires
        decoded_prefix(input).len() <= i < declared_size(input),
    ensures
        decompressed(input)[i] == 0,
        decoded_prefix(input).len() <= declared_size(input),
        forall|j: int|
            0 <= j < decoded_prefix(input).len() ==> decompressed(input)[j] == decoded_prefix(
                input,
            )[j],
{
    lemma_decode_from(input, declared_size(input), 4, 0, 0, Seq::empty());
}

/// Decoding is a function of the stream's bytes: two runs over the same
/// bytes yield the same data.
pub proof fn lemma_decompress_deterministic(first: Seq<u8>, second: Seq<u8>)
    requires
        first =~= second,
    ensures
        decompressed(first) == decompressed(second),
{
}

/// The distance back from the write position that a back-reference asks
/// for, once `emitted` bytes are out.
fn reference_distance(emitted: usize, b0: u8, b1: u8) -> (distance: usize)
    ensures
        distance == back_distance(emitted as nat, run_slot(b0, b1)),
        1 <= distance <= WINDOW_SIZE,
{
    let slot: usize = b0 as usize + 256 * ((b1 % 16) as usize);
    let window: usize = (emitted % WINDOW_SIZE + WINDOW_START) % WINDOW_SIZE;
    if slot >= window {
        WINDOW_SIZE - (slot - window)
    } else {
        window - slot
    }
}

/// Appends a run of `count` bytes to `out`, one byte at a time, each taken
/// `distance` places before the end.
fn append_run(out: &mut Vec<u8>, distance: usize, count: usize)
    requires
        1 <= distance,
    ensures
        final(out)@ == copy_run(old(out)@, distance as int, count as nat),
{
    let ghost start: Seq<u8> = out@;
    let mut copied: usize = 0;
    while copied < count
        invariant
            copied <= count,
            1 <= distance,
            copy_run(out@, distance as int, (count - copied) as nat) == copy_run(
                start,
                distance as int,
                count as nat,
            ),
        decreases count - copied,
    {
        let at: usize = out.len();
        let byte: u8 = if at < distance {
            0
        } else {
            out[at - distance]
        };
        out.push(byte);
        copied += 1;
    }
}

/// Decodes a GCZ stream. The result always has the size that the stream
/// declares: a stream that ends early leaves the rest zero.
pub fn gcz_decompress(buf: &Vec<u8>) -> (out: Vec<u8>)
    requires
        buf@.len() >= 4,
    ensures
        out@ == decompressed(buf@),
        out@.len() == declared_size(buf@),
{
    let expected_size: usize = read_u32_le(buf.as_slice(), 0) as usize;
    let ghost size: nat = declared_size(buf@);
    let ghost goal: Seq<u8> = decoded_prefix(buf@);
    let mut out: Vec<u8> = Vec::new();
    let mut idx: usize = 4;
    let mut flags: u8 = 0;
    let mut left: u8 = 0;
    while out.len() < expected_size
        invariant_except_break
            decode_from(buf@, size, idx as int, flags as int, left as nat, out@) == goal,
        invariant
            expected_size == size,
            out@.len() <= size,
            4 <= idx <= buf@.len(),
            left <= 8,
        ensures
            out@ == goal,
        decreases buf@.len() - idx,
    {
        if left == 0 {
            if idx >= buf.len() {
                break ;
            }
            flags = buf[idx];
            idx += 1;
            left = 8;
        }
        assert(decode_from(buf@, size, idx as int, flags as int, left as nat, out@) == goal);
        if idx >= buf.len() {
            break ;
        }
        if flags % 2 == 1 {
            out.push(buf[idx]);
            idx += 1;
        } else {
            if buf.len() - idx < 2 {
                break ;
            }
            let b1: u8 = buf[idx + 1];
            let distance: usize = reference_distance(out.len(), buf[idx], b1);
            let length: usize = (b1 / 16) as usize + MIN_RUN;
            let room: usize = expected_size - out.len();
            let count: usize = if length < room {
                length
            } else {
                room
            };
            proof {
                lemma_copy_run(out@, distance as int, count as nat);
            }
            append_run(&mut out, distance, count);
            idx += 2;
        }
        flags = flags / 2;
        left -= 1;
    }
    proof {
        lemma_decode_from(buf@, size, 4, 0, 0, Seq::empty());
    }
    let ghost decoded: Seq<u8> = out@;
    while out.len() < expected_size
        invariant
            expected_size == size,
            decoded.len() <= out@.len() <= size,
            out@ == decoded + Seq::new((out@.len() - decoded.len()) as nat, |i: int| 0u8),
        decreases expected_size - out.len(),
    {
        out.push(0);
    }
    out
}

} // verus!
