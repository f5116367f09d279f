//! Packed 16-bit pixels to 8-bit RGBA.
//!
//! A packed pixel holds three colour channels and one alpha bit, each at the
//! place its mask names. The big-endian platform stores the pixel word
//! big-endian and wants its output as R, G, B, A; the others store it
//! little-endian and want B, G, R, A.

use crate::bytes::{read_u16_be, read_u16_le};
use crate::platform::{formatted_u16, SourcePlatform};
use vstd::prelude::*;
use vstd::std_specs::bits::{axiom_u16_trailing_zeros, u16_trailing_zeros};

verus! {

/// Where each channel sits in a packed pixel.
#[derive(Clone, Copy, Debug, PartialEq, Eq, Structural)]
pub struct ChannelMasks {
    pub r: u16,
    pub g: u16,
    pub b: u16,
    pub a: u16,
}

impl ChannelMasks {
    /// Blue in the high bits, red in the low bits.
    pub open spec fn spec_bgr555() -> ChannelMasks {
        ChannelMasks { r: 0x1f, g: 0x3e0, b: 0x7c00, a: 0x8000 }
    }

    /// Red in the high bits, blue in the low bits.
    pub open spec fn spec_rgb555() -> ChannelMasks {
        ChannelMasks { r: 0x7c00, g: 0x3e0, b: 0x1f, a: 0x8000 }
    }

    #[verifier::when_used_as_spec(spec_bgr555)]
    pub fn bgr555() -> (masks: ChannelMasks)
        ensures
            masks == Self::spec_bgr555(),
    {
        ChannelMasks { r: 0x1f, g: 0x3e0, b: 0x7c00, a: 0x8000 }
    }

    #[verifier::when_used_as_spec(spec_rgb555)]
    pub fn rgb555() -> (masks: ChannelMasks)
        ensures
            masks == Self::spec_rgb555(),
    {
        ChannelMasks { r: 0x7c00, g: 0x3e0, b: 0x1f, a: 0x8000 }
    }
}

/// The field of `pix` under `mask`, moved down to bit 0. An empty mask
/// selects nothing.
pub open spec fn channel_bits(pix: u16, mask: u16) -> u16 {
    if mask == 0 {
        0
    } else {
        (pix & mask) >> u16_trailing_zeros(mask)
    }
}

/// A channel value stretched to eight bits: the value moved up by three
/// bits, with its own top bits repeated below. A five-bit value fills the
/// byte exactly; of a wider one the low eight bits are kept.
pub open spec fn expand_channel(v: u16) -> u8 {
    (((v << 3) | (v >> 2)) & 0xff) as u8
}

/// Opaque where any bit under the alpha mask is set, else transparent.
pub open spec fn alpha_of(pix: u16, mask: u16) -> u8 {
    if pix & mask != 0 {
        0xff
    } else {
        0x00
    }
}

/// The four output bytes of one packed pixel.
pub open spec fn decoded_pixel(format: SourcePlatform, pix: u16, masks: ChannelMasks) -> Seq<u8> {
    let r = expand_channel(channel_bits(pix, masks.r));
    let g = expand_channel(channel_bits(pix, masks.g));
    let b = expand_channel(channel_bits(pix, masks.b));
    let a = alpha_of(pix, masks.a);
    if format.big_endian() {
        seq![r, g, b, a]
    } else {
        seq![b, g, r, a]
    }
}

/// The RGBA bytes of a buffer of packed pixels: four bytes for every two of
/// the input. A last byte without a partner is no pixel.
pub open spec fn rgba_bytes(format: SourcePlatform, buf: Seq<u8>, masks: ChannelMasks) -> Seq<u8> {
    Seq::new(
        (4 * (buf.len() / 2)) as nat,
        |k: int| decoded_pixel(format, formatted_u16(format, buf, 2 * (k / 4)) as u16, masks)[k % 4],
    )
}

/// The number of trailing zeros of a mask is the place of its lowest set
/// bit.
pub proof fn lemma_trailing_zeros_is_lowest_bit(mask: u16, place: u16)
    requires
        place < 16,
        (mask >> place) & 1 == 1,
        forall|j: u16| j < place ==> #[trigger] (mask >> j) & 1 == 0,
    ensures
        u16_trailing_zeros(mask) == place,
{
    axiom_u16_trailing_zeros(mask);
    let tz = u16_trailing_zeros(mask);
    assert(mask != 0) by (bit_vector)
        requires
            place < 16,
            (mask >> place) & 1 == 1,
    ;
    if tz < place {
        assert((mask >> (tz as u16)) & 1 == 0);
    } else if tz > place {
        assert((mask >> place) & 1 == 0);
    }
}

/// A five-bit channel value `v` comes out as `(v << 3) | (v >> 2)`, which
/// keeps `v` in its top five bits: 0 gives 0, 16 gives 132 and 31 gives
/// 255.
pub proof fn lemma_expand_five_bits(v: u16)
    requires
        v <= 31,
    ensures
        expand_channel(v) == (v << 3) | (v >> 2),
        expand_channel(v) >> 3 == v,
        v == 0 ==> expand_channel(v) == 0,
        v == 16 ==> expand_channel(v) == 132,
        v == 31 ==> expand_channel(v) == 255,
{
    let wide: u16 = (v << 3) | (v >> 2);
    assert(wide & 0xff == wide && wide < 256 && wide >> 3 == v && (v == 0 ==> wide == 0) && (v == 16
        ==> wide == 132) && (v == 31 ==> wide == 255)) by (bit_vector)
        requires
            v <= 31,
            wide == (v << 3) | (v >> 2),
    ;
    let narrow: u8 = wide as u8;
    assert(narrow >> 3 == wide >> 3) by (bit_vector)
        requires
            wide < 256,
            narrow == wide as u8,
    ;
}

/// A pixel whose five bits from bit `shift` up hold `v` decodes, under the
/// five-bit mask at that place, to `(v << 3) | (v >> 2)`.
pub proof fn lemma_five_bit_channel(pix: u16, shift: u16, v: u16)
    requires
        shift <= 11,
        (pix >> shift) & 0x1f == v,
    ensures
        channel_bits(pix, 0x1fu16 << shift) == v,
        expand_channel(channel_bits(pix, 0x1fu16 << shift)) == (v << 3) | (v >> 2),
{
    let mask: u16 = 0x1fu16 << shift;
    assert(mask != 0 && (mask >> shift) & 1 == 1) by (bit_vector)
        requires
            shift <= 11,
            mask == 0x1fu16 << shift,
    ;
    assert forall|j: u16| j < shift implies #[trigger] (mask >> j) & 1 == 0 by {
        assert((mask >> j) & 1 == 0) by (bit_vector)
            requires
                shift <= 11,
                j < shift,
                mask == 0x1fu16 << shift,
        ;
    }
    lemma_trailing_zeros_is_lowest_bit(mask, shift);
    assert((pix & mask) >> shift == v && v <= 31) by (bit_vector)
        requires
            shift <= 11,
            mask == 0x1fu16 << shift,
            (pix >> shift) & 0x1f == v,
    ;
    lemma_expand_five_bits(v);
}

/// Under the preset with red on top, the colour bytes of a decoded pixel
/// are its three five-bit fields, each `v` stretched to `(v << 3) | (v >>
/// 2)`, and its alpha byte follows bit 15. The preset with blue on top
/// swaps red and blue.
pub proof fn lemma_decoded_preset_pixel(format: SourcePlatform, pix: u16)
    ensures
        ({
            let top = (pix >> 10) & 0x1f;
            let mid = (pix >> 5) & 0x1f;
            let low = pix & 0x1f;
            let first = ((top << 3) | (top >> 2)) as u8;
            let second = ((mid << 3) | (mid >> 2)) as u8;
            let third = ((low << 3) | (low >> 2)) as u8;
            let alpha = if pix & 0x8000 != 0 {
                0xffu8
            } else {
                0x00u8
            };
            &&& decoded_pixel(format, pix, ChannelMasks::spec_rgb555()) == if format.big_endian() {
                seq![first, second, third, alpha]
            } else {
                seq![third, second, first, alpha]
            }
            &&& decoded_pixel(format, pix, ChannelMasks::spec_bgr555()) == if format.big_endian() {
                seq![third, second, first, alpha]
            } else {
                seq![first, second, third, alpha]
            }
        }),
{
    let top = (pix >> 10) & 0x1f;
    let mid = (pix >> 5) & 0x1f;
    let low = pix & 0x1f;
    assert(0x1fu16 << 10u16 == 0x7c00 && 0x1fu16 << 5u16 == 0x3e0 && 0x1fu16 << 0u16 == 0x1f)
        by (bit_vector);
    assert((pix >> 0u16) & 0x1f == pix & 0x1f) by (bit_vector);
    lemma_five_bit_channel(pix, 10, top);
    lemma_five_bit_channel(pix, 5, mid);
    lemma_five_bit_channel(pix, 0, low);
    assert(top <= 31 && mid <= 31 && low <= 31) by (bit_vector)
        requires
            top == (pix >> 10) & 0x1f,
            mid == (pix >> 5) & 0x1f,
            low == pix & 0x1f,
    ;
    lemma_expand_five_bits(top);
    lemma_expand_five_bits(mid);
    lemma_expand_five_bits(low);
}

/// The eight-bit value of the channel of `pix` under `mask`.
fn channel(pix: u16, mask: u16) -> (value: u8)
    ensures
        value == expand_channel(channel_bits(pix, mask)),
{
    let val: u16 = if mask == 0 {
        0
    } else {
        proof {
            axiom_u16_trailing_zeros(mask);
        }
        (pix & mask) >> mask.trailing_zeros()
    };
    let wide: u16 = ((val << 3) | (val >> 2)) & 0xff;
    assert(wide < 256) by (bit_vector)
        requires
            wide == ((val << 3) | (val >> 2)) & 0xff,
    ;
    wide as u8
}

/// Decodes a buffer of packed pixels, two bytes each, to RGBA, four bytes
/// each. A last byte without a partner is left out.
pub fn raw_to_rgba(
    format: &SourcePlatform,
    buf: &[u8],
    r_mask: u16,
    g_mask: u16,
    b_mask: u16,
    a_mask: u16,
) -> (output: Vec<u8>)
    ensures
        output@ == rgba_bytes(
            *format,
            buf@,
            (ChannelMasks { r: r_mask, g: g_mask, b: b_mask, a: a_mask }),
        ),
        output@.len() == 4 * (buf@.len() / 2),
{
    let ghost masks = ChannelMasks { r: r_mask, g: g_mask, b: b_mask, a: a_mask };
    let mut output: Vec<u8> = Vec::new();
    let pixels: usize = buf.len() / 2;
    let mut i: usize = 0;
    while i < pixels
        invariant
            i <= pixels,
            pixels == buf.len() / 2,
            buf.len() == buf@.len(),
            masks == (ChannelMasks { r: r_mask, g: g_mask, b: b_mask, a: a_mask }),
            output@.len() == 4 * i,
            forall|k: int|
                0 <= k < 4 * i ==> output@[k] == decoded_pixel(
                    *format,
                    formatted_u16(*format, buf@, 2 * (k / 4)) as u16,
                    masks,
                )[k % 4],
        decreases pixels - i,
    {
        let pix: u16 = if format.big_endian() {
            read_u16_be(buf, 2 * i)
        } else {
            read_u16_le(buf, 2 * i)
        };
        let r: u8 = channel(pix, r_mask);
        let g: u8 = channel(pix, g_mask);
        let b: u8 = channel(pix, b_mask);
        let a: u8 = if (pix & a_mask) != 0 {
            0xff
        } else {
            0x00
        };
        if format.big_endian() {
            output.push(r);
            output.push(g);
            output.push(b);
        } else {
            output.push(b);
            output.push(g);
            output.push(r);
        }
        output.push(a);
        i += 1;
    }
    output
}

} // verus!
