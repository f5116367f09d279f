//! Stacking textures into one atlas, and cutting rectangles out of it.

use crate::error::DecodeError;
use crate::texture::{raster_of, Raster, RgbaTexture};
use vstd::arithmetic::div_mod::lemma_fundamental_div_mod_converse;
use vstd::prelude::*;
use vstd::slice::slice_subrange;

verus! {

/// The images as contracts see them.
pub open spec fn rasters(textures: Seq<RgbaTexture>) -> Seq<Raster> {
    Seq::new(textures.len(), |i: int| textures[i]@)
}

/// Whether every image is as wide as the first.
pub open spec fn widths_agree(images: Seq<Raster>) -> bool {
    forall|i: int| 0 <= i < images.len() ==> (#[trigger] images[i]).width == images[0].width
}

/// The width of the first image, or zero where there is none.
pub open spec fn common_width(images: Seq<Raster>) -> nat {
    if images.len() == 0 {
        0
    } else {
        images[0].width
    }
}

/// The heights of the images, added up.
pub open spec fn total_height(images: Seq<Raster>) -> nat
    decreases images.len(),
{
    if images.len() == 0 {
        0
    } else {
        total_height(images.drop_last()) + images.last().height
    }
}

/// The pixel bytes of the images, one image after the other.
pub open spec fn stacked_pixels(images: Seq<Raster>) -> Seq<u8>
    decreases images.len(),
{
    if images.len() == 0 {
        Seq::empty()
    } else {
        stacked_pixels(images.drop_last()) + images.last().pixels
    }
}

/// The images stacked from the top down in the order given. They must
/// agree in width, and their heights must add up to no more than 32 bits
/// hold. No image at all gives an atlas of no pixels.
pub open spec fn stacked(images: Seq<Raster>) -> Result<Raster, DecodeError> {
    if !widths_agree(images) {
        Err(DecodeError::WidthMismatch)
    } else if total_height(images) > u32::MAX {
        Err(DecodeError::AtlasTooTall)
    } else {
        Ok(
            Raster {
                width: common_width(images),
                height: total_height(images),
                pixels: stacked_pixels(images),
            },
        )
    }
}

/// The `width` by `height` rectangle of `image` whose top left corner is
/// the pixel in column `x` of row `y`. The rectangle must lie within the
/// image.
pub open spec fn cropped(image: Raster, x: nat, y: nat, width: nat, height: nat) -> Result<
    Raster,
    DecodeError,
> {
    if x + width > image.width || y + height > image.height {
        Err(DecodeError::OutOfBounds)
    } else {
        Ok(
            Raster {
                width,
                height,
                pixels: Seq::new(
                    4 * (width * height),
                    |k: int|
                        image.sample(x + (k / 4) % (width as int), y + (k / 4) / (width as int), k % 4),
                ),
            },
        )
    }
}

/// Stacking well-formed images of one width gives a well-formed image.
pub proof fn lemma_stacked_well_formed(images: Seq<Raster>)
    requires
        widths_agree(images),
        forall|i: int| 0 <= i < images.len() ==> (#[trigger] images[i]).well_formed(),
    ensures
        stacked_pixels(images).len() == 4 * (common_width(images) * total_height(images)),
    decreases images.len(),
{
    if images.len() > 0 {
        let front = images.drop_last();
        let w = images[0].width;
        let last = images.last();
        assert forall|i: int| 0 <= i < front.len() implies (#[trigger] front[i]).well_formed()
            && front[i].width == w by {}
        lemma_stacked_well_formed(front);
        assert(4 * (w * total_height(front)) + 4 * (w * last.height) == 4 * (w * (total_height(
            front,
        ) + last.height))) by (nonlinear_arith);
        if front.len() == 0 {
            assert(4 * (w * 0) == 0) by (nonlinear_arith);
        }
    } else {
        assert(4 * (0 * 0) == 0nat) by (nonlinear_arith);
    }
}

/// The number of rows of the atlas above image `k`.
pub open spec fn rows_above(images: Seq<Raster>, k: int) -> nat {
    total_height(images.take(k))
}

/// The images keep their order in the atlas, from the top down: the pixel
/// in column `x` of row `y` of image `k` is the pixel of the atlas in the
/// same column, `y` rows below the rows of the images before `k`.
pub proof fn lemma_stacked_sample(images: Seq<Raster>, k: int, x: int, y: int, c: int)
    requires
        widths_agree(images),
        forall|i: int| 0 <= i < images.len() ==> (#[trigger] images[i]).well_formed(),
        0 <= k < images.len(),
        0 <= x < images[k].width,
        0 <= y < images[k].height,
        0 <= c < 4,
    ensures
        stacked(images) matches Ok(atlas) ==> atlas.sample(x, rows_above(images, k) + y, c)
            == images[k].sample(x, y, c),
        rows_above(images, k) + images[k].height <= total_height(images),
    decreases images.len(),
{
    let front = images.drop_last();
    let w = images[0].width;
    assert forall|i: int| 0 <= i < front.len() implies (#[trigger] front[i]).well_formed()
        && front[i].width == w by {}
    lemma_stacked_well_formed(front);
    let at = 4 * (y * w + x) + c;
    assert(0 <= at < 4 * (w * images[k].height)) by (nonlinear_arith)
        requires
            0 <= x < w,
            0 <= y < images[k].height,
            0 <= c < 4,
            at == 4 * (y * w + x) + c,
    ;
    if k == images.len() - 1 {
        let above = total_height(front);
        assert(4 * ((above + y) * w + x) + c == 4 * (w * above) + at) by (nonlinear_arith)
            requires
                at == 4 * (y * w + x) + c,
        ;
        if front.len() == 0 {
            assert(4 * (0 * 0) == 0nat) by (nonlinear_arith);
            assert(4 * (w * 0) == 0) by (nonlinear_arith);
        }
    } else {
        assert(images.take(k) == front.take(k));
        lemma_stacked_sample(front, k, x, y, c);
        let above = rows_above(front, k);
        let low = 4 * ((above + y) * w + x) + c;
        assert(0 <= low < 4 * (w * total_height(front))) by (nonlinear_arith)
            requires
                0 <= x < w,
                0 <= c < 4,
                0 <= above,
                0 <= y,
                above + y < total_height(front),
                low == 4 * ((above + y) * w + x) + c,
        ;
    }
}

/// Same-width images always stack, unless they are too tall together, and
/// the atlas is as tall as all of them together: three images 64 wide and
/// 10, 20 and 30 high give an atlas of 64 by 60.
pub proof fn lemma_stacked_size(images: Seq<Raster>)
    ensures
        !widths_agree(images) ==> stacked(images) == Err::<Raster, DecodeError>(
            DecodeError::WidthMismatch,
        ),
        widths_agree(images) && total_height(images) <= u32::MAX ==> (stacked(images) matches Ok(
            atlas,
        ) && atlas.width == common_width(images) && atlas.height == total_height(images)),
{
}

/// An atlas of one image is that image.
pub proof fn lemma_stacked_alone(image: Raster)
    requires
        image.height <= u32::MAX,
    ensures
        stacked(seq![image]) == Ok::<Raster, DecodeError>(image),
{
    let images = seq![image];
    assert(total_height(images.drop_last()) == 0);
    assert(stacked_pixels(images.drop_last()) =~= Seq::<u8>::empty());
}

/// Where column `i` of row `j` of a `width` wide image sits among its
/// bytes, and back.
proof fn lemma_pixel_place(width: int, i: int, j: int, c: int)
    requires
        0 <= i < width,
        0 <= j,
        0 <= c < 4,
    ensures
        (4 * (j * width + i) + c) / 4 == j * width + i,
        (4 * (j * width + i) + c) % 4 == c,
        (j * width + i) / width == j,
        (j * width + i) % width == i,
{
    lemma_fundamental_div_mod_converse(4 * (j * width + i) + c, 4, j * width + i, c);
    lemma_fundamental_div_mod_converse(j * width + i, width, j, i);
}

/// The pixel in column `i` of row `j` of a rectangle cut out at `(x, y)` is
/// the pixel in column `x + i` of row `y + j` of the image.
pub proof fn lemma_cropped_sample(
    image: Raster,
    x: nat,
    y: nat,
    width: nat,
    height: nat,
    i: int,
    j: int,
    c: int,
)
    requires
        x + width <= image.width,
        y + height <= image.height,
        0 <= i < width,
        0 <= j < height,
        0 <= c < 4,
    ensures
        cropped(image, x, y, width, height) matches Ok(cut) && cut.well_formed() && cut.sample(
            i,
            j,
            c,
        ) == image.sample(x + i, y + j, c),
{
    let k = 4 * (j * width + i) + c;
    lemma_pixel_place(width as int, i, j, c);
    assert(0 <= k < 4 * (width * height)) by (nonlinear_arith)
        requires
            0 <= i < width,
            0 <= j < height,
            0 <= c < 4,
            k == 4 * (j * width + i) + c,
    ;
}

/// Stacks the textures into one atlas, from the top down in the order
/// given.
pub fn generate_atlas(textures: &Vec<RgbaTexture>) -> (atlas: Result<RgbaTexture, DecodeError>)
    ensures
        raster_of(atlas) == stacked(rasters(textures@)),
        atlas matches Ok(texture) ==> texture@.well_formed(),
{
    let ghost images = rasters(textures@);
    let count: usize = textures.len();
    let mut texture_w: u32 = 0;
    let mut i: usize = 0;
    while i < count
        invariant
            i <= count,
            count == textures@.len(),
            images == rasters(textures@),
            i == 0 ==> texture_w == 0,
            i > 0 ==> texture_w == images[0].width,
            forall|j: int| 0 <= j < i ==> (#[trigger] images[j]).width == images[0].width,
        decreases count - i,
    {
        let w: u32 = textures[i].width();
        if i == 0 {
            texture_w = w;
        } else if texture_w != w {
            assert(images[i as int].width != images[0].width);
            return Err(DecodeError::WidthMismatch);
        }
        i += 1;
    }
    let mut texture_h: u32 = 0;
    let mut pixels: Vec<u8> = Vec::new();
    let mut i: usize = 0;
    while i < count
        invariant
            i <= count,
            count == textures@.len(),
            images == rasters(textures@),
            widths_agree(images),
            texture_w == common_width(images),
            texture_h == total_height(images.take(i as int)),
            pixels@ == stacked_pixels(images.take(i as int)),
            forall|j: int| 0 <= j < i ==> (#[trigger] images[j]).well_formed(),
            total_height(images.take(i as int)) <= total_height(images) || total_height(images)
                > u32::MAX,
        decreases count - i,
    {
        let texture: &RgbaTexture = &textures[i];
        let h: u32 = texture.height();
        let ghost before = images.take(i as int);
        let ghost after = images.take(i + 1);
        assert(after.drop_last() == before);
        proof {
            lemma_total_height_grows(images, i + 1);
        }
        if h > u32::MAX - texture_h {
            return Err(DecodeError::AtlasTooTall);
        }
        texture_h = texture_h + h;
        pixels.extend_from_slice(texture.as_raw().as_slice());
        i += 1;
    }
    assert(images.take(count as int) == images);
    proof {
        lemma_stacked_well_formed(images);
    }
    Ok(RgbaTexture::from_parts(texture_w, texture_h, pixels))
}

/// The first `n` images are no taller together than all of them.
pub proof fn lemma_total_height_grows(images: Seq<Raster>, n: int)
    requires
        0 <= n <= images.len(),
    ensures
        total_height(images.take(n)) <= total_height(images),
    decreases images.len() - n,
{
    if n < images.len() {
        lemma_total_height_grows(images, n + 1);
        assert(images.take(n + 1).drop_last() == images.take(n));
    } else {
        assert(images.take(n) == images);
    }
}

/// Cuts the `width` by `height` rectangle at column `x`, row `y` out of an
/// image.
pub fn crop(image: &RgbaTexture, x: u32, y: u32, width: u32, height: u32) -> (cut: Result<
    RgbaTexture,
    DecodeError,
>)
    ensures
        raster_of(cut) == cropped(image@, x as nat, y as nat, width as nat, height as nat),
        cut matches Ok(texture) ==> texture@.well_formed(),
{
    let src_w: u32 = image.width();
    let src_h: u32 = image.height();
    if x as u64 + width as u64 > src_w as u64 || y as u64 + height as u64 > src_h as u64 {
        return Err(DecodeError::OutOfBounds);
    }
    let src: &Vec<u8> = image.as_raw();
    let size: usize = src.len();
    let mut out: Vec<u8> = Vec::new();
    let ghost whole = image@;
    if width == 0 || height == 0 {
        assert(4 * (width as nat * height as nat) == 0) by (nonlinear_arith)
            requires
                width == 0 || height == 0,
        ;
        assert(out@ =~= cropped(whole, x as nat, y as nat, width as nat, height as nat)->Ok_0.pixels);
        return Ok(RgbaTexture::from_parts(width, height, out));
    }
    assert(4 * src_w <= src@.len() && 4 * width <= 4 * src_w) by (nonlinear_arith)
        requires
            src@.len() == 4 * (src_w as nat * src_h as nat),
            src_h >= 1,
            width <= src_w,
    ;
    let stride: usize = 4 * (src_w as usize);
    let row_len: usize = 4 * (width as usize);
    let mut row: u32 = 0;
    while row < height
        invariant
            row <= height,
            width > 0,
            x + width <= src_w,
            y + height <= src_h,
            stride == 4 * src_w,
            row_len == 4 * width,
            size == src@.len(),
            whole == image@,
            whole.width == src_w,
            whole.height == src_h,
            whole.pixels == src@,
            src@.len() == 4 * (src_w as nat * src_h as nat),
            out@.len() == 4 * (width as nat * row as nat),
            forall|k: int|
                0 <= k < out@.len() ==> out@[k] == whole.sample(
                    x + (k / 4) % (width as int),
                    y + (k / 4) / (width as int),
                    k % 4,
                ),
        decreases height - row,
    {
        let line: usize = (y + row) as usize;
        assert(0 <= line * stride && line * stride + 4 * x + row_len <= src@.len())
            by (nonlinear_arith)
            requires
                0 <= line < src_h,
                stride == 4 * src_w,
                row_len == 4 * width,
                x + width <= src_w,
                src@.len() == 4 * (src_w as nat * src_h as nat),
        ;
        let start: usize = line * stride + 4 * (x as usize);
        let ghost before = out@;
        out.extend_from_slice(slice_subrange(src.as_slice(), start, start + row_len));
        assert(4 * (width as nat * (row + 1) as nat) == 4 * (width as nat * row as nat) + 4
            * width) by (nonlinear_arith);
        assert forall|k: int| 0 <= k < out@.len() implies out@[k] == whole.sample(
            x + (k / 4) % (width as int),
            y + (k / 4) / (width as int),
            k % 4,
        ) by {
            if k >= before.len() {
                let j = k - before.len();
                let i = j / 4;
                let c = j % 4;
                assert(k == 4 * (row * width + i) + c) by (nonlinear_arith)
                    requires
                        k == 4 * (width as nat * row as nat) + j,
                        j == 4 * i + c,
                ;
                lemma_pixel_place(width as int, i, row as int, c);
                assert(start + j == 4 * ((y + row) * whole.width + (x + i)) + c)
                    by (nonlinear_arith)
                    requires
                        start == line * stride + 4 * x,
                        line == y + row,
                        stride == 4 * src_w,
                        whole.width == src_w,
                        j == 4 * i + c,
                ;
            }
        }
        row += 1;
    }
    assert(out@ =~= cropped(whole, x as nat, y as nat, width as nat, height as nat)->Ok_0.pixels);
    Ok(RgbaTexture::from_parts(width, height, out))
}

} // verus!
