//! Decoded images: eight bits per channel, four channels per pixel, rows
//! from the top down.

use crate::error::DecodeError;
use vstd::prelude::*;

verus! {

/// An image as contracts see it.
pub struct Raster {
    pub width: nat,
    pub height: nat,
    pub pixels: Seq<u8>,
}

impl Raster {
    /// Four bytes for every pixel, no more and no less.
    pub open spec fn well_formed(self) -> bool {
        self.pixels.len() == 4 * (self.width * self.height)
    }

    /// Channel `c` of the pixel in column `x` of row `y`.
    pub open spec fn sample(self, x: int, y: int, c: int) -> u8 {
        self.pixels[4 * (y * self.width + x) + c]
    }
}

/// An RGBA image that owns its pixels. Its buffer always holds exactly
/// `width * height * 4` bytes.
#[derive(Debug, PartialEq, Eq)]
pub struct RgbaTexture {
    width: u32,
    height: u32,
    pixels: Vec<u8>,
}

impl View for RgbaTexture {
    type V = Raster;

    closed spec fn view(&self) -> Raster {
        Raster { width: self.width as nat, height: self.height as nat, pixels: self.pixels@ }
    }
}

impl Clone for RgbaTexture {
    fn clone(&self) -> (copy: RgbaTexture)
        ensures
            copy@ == self@,
    {
        proof {
            use_type_invariant(self);
        }
        RgbaTexture { width: self.width, height: self.height, pixels: self.pixels.clone() }
    }
}

impl RgbaTexture {
    #[verifier::type_invariant]
    spec fn buffer_fits(self) -> bool {
        self.pixels@.len() == 4 * (self.width as nat * self.height as nat)
    }

    /// An image of the given size over `pixels`, which holds exactly the
    /// bytes of that many pixels.
    pub(crate) fn from_parts(width: u32, height: u32, pixels: Vec<u8>) -> (texture: RgbaTexture)
        requires
            pixels@.len() == 4 * (width as nat * height as nat),
        ensures
            texture@ == (Raster { width: width as nat, height: height as nat, pixels: pixels@ }),
            texture@.well_formed(),
    {
        RgbaTexture { width, height, pixels }
    }

    /// An image of the given size over `pixels`, or nothing where `pixels`
    /// does not hold exactly `width * height * 4` bytes.
    pub fn from_raw(width: u32, height: u32, pixels: Vec<u8>) -> (made: Option<RgbaTexture>)
        ensures
            made is Some <==> pixels@.len() == 4 * (width as nat * height as nat),
            made matches Some(texture) ==> texture@ == (Raster {
                width: width as nat,
                height: height as nat,
                pixels: pixels@,
            }) && texture@.well_formed(),
    {
        let area: u64 = pixel_count(width, height);
        let len: u64 = pixels.len() as u64;
        if len % 4 == 0 && len / 4 == area {
            Some(RgbaTexture { width, height, pixels })
        } else {
            None
        }
    }

    pub fn width(&self) -> (width: u32)
        ensures
            width == self@.width,
            self@.well_formed(),
    {
        proof {
            use_type_invariant(self);
        }
        self.width
    }

    pub fn height(&self) -> (height: u32)
        ensures
            height == self@.height,
            self@.well_formed(),
    {
        proof {
            use_type_invariant(self);
        }
        self.height
    }

    /// The pixel bytes, row after row.
    pub fn as_raw(&self) -> (pixels: &Vec<u8>)
        ensures
            pixels@ == self@.pixels,
            self@.well_formed(),
    {
        proof {
            use_type_invariant(self);
        }
        &self.pixels
    }

    /// The pixel bytes, row after row.
    pub fn into_raw(self) -> (pixels: Vec<u8>)
        ensures
            pixels@ == self@.pixels,
            self@.well_formed(),
    {
        proof {
            use_type_invariant(&self);
        }
        self.pixels
    }
}

/// What a returned image is to a contract.
pub open spec fn raster_of(loaded: Result<RgbaTexture, DecodeError>) -> Result<
    Raster,
    DecodeError,
> {
    match loaded {
        Ok(texture) => Ok(texture@),
        Err(e) => Err(e),
    }
}

/// The number of pixels of a `width` by `height` image.
pub fn pixel_count(width: u32, height: u32) -> (count: u64)
    ensures
        count == width as nat * height as nat,
{
    assert(width as nat * height as nat <= 0xffff_ffff * 0xffff_ffff) by (nonlinear_arith)
        requires
            width <= 0xffff_ffff,
            height <= 0xffff_ffff,
    ;
    (width as u64) * (height as u64)
}

} // verus!
