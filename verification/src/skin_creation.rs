//! Skin images and the compositing that puts a player's head band over the
//! base skin.

use vstd::arithmetic::div_mod::{lemma_fundamental_div_mod, lemma_mod_bound};
use crate::api::{is_error, modified_skin_path, modified_skin_path_spec, APIError, Status};
use crate::mojang::{cached_skin_path, cached_skin_path_spec};
use crate::png::{
    block_rgba, channels, composed_samples, compose, decode_png, decoded_png, encode_png, is_decoded_png,
    is_wide, lemma_narrow_round_trip, lemma_pixel_in_image, lemma_pixel_index, lemma_sample_in_image, native_sample, png_file, rgba_channel, PngColor,
    PngImage,
};
use vstd::prelude::*;
use vstd::string::*;

verus! {

/// An RGBA image with 8 bits per channel, rows top to bottom, four bytes per pixel.
#[derive(Clone, Debug)]
pub struct SkinImage {
    pub width: u32,
    pub height: u32,
    pub pixels: Vec<u8>,
}

/// Byte `c` (0 red, 1 green, 2 blue, 3 alpha) of pixel (`px`, `py`) of an
/// image `width` pixels wide held in `pixels`.
pub open spec fn byte_at(pixels: Seq<u8>, width: int, px: int, py: int, c: int) -> u8 {
    pixels[4 * (py * width + px) + c]
}

impl SkinImage {
    /// The buffer holds exactly four bytes for each pixel.
    pub open spec fn wf(&self) -> bool {
        self.pixels@.len() == 4 * self.width * self.height
    }

    /// Byte `c` of pixel (`px`, `py`).
    pub open spec fn byte(&self, px: int, py: int, c: int) -> u8 {
        byte_at(self.pixels@, self.width as int, px, py, c)
    }

    /// An image of the given size over `pixels`, where the buffer holds
    /// exactly four bytes per pixel.
    pub fn from_rgba(width: u32, height: u32, pixels: Vec<u8>) -> (r: Option<SkinImage>)
        ensures
            match r {
                Some(img) => img.wf() && img.width == width && img.height == height && img.pixels
                    == pixels,
                None => pixels@.len() != 4 * width * height,
            },
    {
        let w = width as u128;
        let h = height as u128;
        assert(w * h <= 0xffff_ffff_ffff_ffff) by (nonlinear_arith)
            requires
                w <= 0xffff_ffff,
                h <= 0xffff_ffff,
        ;
        let needed: u128 = 4 * (w * h);
        assert(needed == 4 * width * height) by (nonlinear_arith)
            requires
                needed == 4 * (w * h),
                w == width,
                h == height,
        ;
        if pixels.len() as u128 == needed {
            Some(SkinImage { width, height, pixels })
        } else {
            None
        }
    }
}

/// Where a crop starting at `at` begins along a side of length `dim`.
pub open spec fn crop_origin(dim: u32, at: u32) -> u32 {
    if at <= dim {
        at
    } else {
        dim
    }
}

/// How long a crop of length `len` starting at `at` is along a side of length `dim`.
pub open spec fn crop_extent(dim: u32, at: u32, len: u32) -> u32 {
    if len <= dim - crop_origin(dim, at) {
        len
    } else {
        (dim - crop_origin(dim, at)) as u32
    }
}

/// A crop along a side of length `dim`, asked to start at `at` with length
/// `len`, starts at `at` or at the end of the side if `at` lies beyond it,
/// and is as long as asked where the side allows, else reaches the side's end.
pub proof fn lemma_crop_bounds(dim: u32, at: u32, len: u32)
    ensures
        crop_origin(dim, at) == if at <= dim {
            at
        } else {
            dim
        },
        crop_extent(dim, at, len) <= len,
        crop_origin(dim, at) + crop_extent(dim, at, len) <= dim,
        crop_extent(dim, at, len) == len || crop_origin(dim, at) + crop_extent(dim, at, len) == dim,
{
}

proof fn lemma_row_in_bounds(w: int, h: int, x: int, cw: int, y: int, j: int, k: int)
    requires
        0 <= x,
        0 <= cw,
        x + cw <= w,
        0 <= y,
        0 <= j,
        y + j < h,
        0 <= k < 4 * cw,
    ensures
        0 <= 4 * (w * (y + j) + x) + k < 4 * w * h,
        4 * (w * (y + j) + x) + k == 4 * ((y + j) * w + (x + k / 4)) + k % 4,
{
    assert(0 <= w * (y + j)) by (nonlinear_arith)
        requires
            0 <= w,
            0 <= y + j,
    ;
    assert(w * (y + j) + w <= w * h) by (nonlinear_arith)
        requires
            0 <= w,
            y + j + 1 <= h,
    ;
    assert((y + j) * w == w * (y + j)) by (nonlinear_arith);
    assert(4 * (w * h) == 4 * w * h) by (nonlinear_arith);
    assert(k == 4 * (k / 4) + k % 4);
}

proof fn lemma_out_index(rw: int, j: int, i: int, py: int, px: int, c: int)
    requires
        0 <= rw,
        0 <= px < rw,
        0 <= py,
        0 <= c < 4,
        py < j || (py == j && px < i),
        0 <= i <= rw,
    ensures
        0 <= 4 * (py * rw + px) + c < 4 * (j * rw + i),
{
    if py < j {
        assert(py * rw + rw <= j * rw) by (nonlinear_arith)
            requires
                py + 1 <= j,
                0 <= rw,
        ;
    }
    assert(0 <= py * rw) by (nonlinear_arith)
        requires
            0 <= py,
            0 <= rw,
    ;
}

/// The bytes of the `rw` × `rh` block of an image `width` pixels wide whose
/// top left pixel is (`ox`, `oy`), row by row.
pub open spec fn block_pixels(pixels: Seq<u8>, width: u32, ox: u32, oy: u32, rw: u32, rh: u32) -> Seq<
    u8,
> {
    Seq::new(
        (4 * rw * rh) as nat,
        |k: int| byte_at(pixels, width as int, ox + (k / 4) % (rw as int), oy + (k / 4) / (rw as int), k % 4),
    )
}

proof fn lemma_split_index(k: int, rw: int, rh: int)
    requires
        0 < rw,
        0 <= rh,
        0 <= k < 4 * rw * rh,
    ensures
        0 <= (k / 4) % rw < rw,
        0 <= (k / 4) / rw < rh,
        0 <= k % 4 < 4,
        k == 4 * (((k / 4) / rw) * rw + (k / 4) % rw) + k % 4,
{
    let p = k / 4;
    lemma_fundamental_div_mod(k, 4);
    lemma_mod_bound(k, 4);
    lemma_fundamental_div_mod(p, rw);
    lemma_mod_bound(p, rw);
    assert(p < rw * rh) by (nonlinear_arith)
        requires
            k == 4 * p + k % 4,
            0 <= k % 4,
            k < 4 * rw * rh,
    ;
    assert(0 <= p / rw < rh) by (nonlinear_arith)
        requires
            p == rw * (p / rw) + p % rw,
            0 <= p % rw < rw,
            0 <= p < rw * rh,
            0 < rw,
    ;
    assert((p / rw) * rw == rw * (p / rw)) by (nonlinear_arith);
}

/// The part of `img` in the rectangle at (`x`, `y`) of size `cw` × `ch`, cut
/// back to the image: the origin is clamped to the image and the size to what
/// remains from there. This is what `image`'s `crop` returns.
pub fn crop(img: &SkinImage, x: u32, y: u32, cw: u32, ch: u32) -> (r: SkinImage)
    requires
        img.wf(),
    ensures
        r.wf(),
        r.width == crop_extent(img.width, x, cw),
        r.height == crop_extent(img.height, y, ch),
        forall|px: int, py: int, c: int|
            0 <= px < r.width && 0 <= py < r.height && 0 <= c < 4 ==> #[trigger] r.byte(px, py, c)
                == img.byte(crop_origin(img.width, x) + px, crop_origin(img.height, y) + py, c),
        r.pixels@ == block_pixels(
            img.pixels@,
            img.width,
            crop_origin(img.width, x),
            crop_origin(img.height, y),
            r.width,
            r.height,
        ),
{
    let ox: u32 = if x <= img.width { x } else { img.width };
    let oy: u32 = if y <= img.height { y } else { img.height };
    let rw: u32 = if cw <= img.width - ox { cw } else { img.width - ox };
    let rh: u32 = if ch <= img.height - oy { ch } else { img.height - oy };
    let ghost src = img.pixels@;
    let ghost w = img.width as int;
    let total = img.pixels.len();
    let mut out: Vec<u8> = Vec::new();
    let mut j: u32 = 0;
    while j < rh
        invariant
            img.wf(),
            src == img.pixels@,
            total == img.pixels@.len(),
            w == img.width,
            ox == crop_origin(img.width, x),
            oy == crop_origin(img.height, y),
            rw == crop_extent(img.width, x, cw),
            rh == crop_extent(img.height, y, ch),
            j <= rh,
            out@.len() == 4 * (j * rw),
            forall|px: int, py: int, c: int|
                0 <= px < rw && 0 <= py < j && 0 <= c < 4 ==> #[trigger] byte_at(
                    out@,
                    rw as int,
                    px,
                    py,
                    c,
                ) == byte_at(src, w, ox + px, oy + py, c),
        decreases rh - j,
    {
        let mut i: u32 = 0;
        while i < rw
            invariant
                img.wf(),
                src == img.pixels@,
                total == img.pixels@.len(),
                w == img.width,
                ox == crop_origin(img.width, x),
                oy == crop_origin(img.height, y),
                rw == crop_extent(img.width, x, cw),
                rh == crop_extent(img.height, y, ch),
                j < rh,
                i <= rw,
                out@.len() == 4 * (j * rw + i),
                forall|px: int, py: int, c: int|
                    0 <= px < rw && 0 <= c < 4 && ((0 <= py < j) || (py == j && 0 <= px < i))
                        ==> #[trigger] byte_at(out@, rw as int, px, py, c) == byte_at(
                        src,
                        w,
                        ox + px,
                        oy + py,
                        c,
                    ),
            decreases rw - i,
        {
            let ghost before = out@;
            proof {
                lemma_row_in_bounds(w, img.height as int, ox as int, rw as int, oy as int, j as int, 4 * i as int);
                lemma_row_in_bounds(w, img.height as int, ox as int, rw as int, oy as int, j as int, 4 * i + 3);
            }
            assert(img.pixels@.len() <= usize::MAX);
            assert(w * (oy + j) + (ox + i) < w * img.height) by (nonlinear_arith)
                requires
                    ox + i < w,
                    oy + j + 1 <= img.height,
                    0 <= w,
            ;
            assert(4 * (w * img.height) == img.pixels@.len()) by (nonlinear_arith)
                requires
                    img.pixels@.len() == 4 * img.width * img.height,
                    w == img.width,
            ;
            assert((img.width as u64) * ((oy + j) as u64) == w * (oy + j));
            let base: u64 = 4 * ((img.width as u64) * ((oy + j) as u64) + ((ox + i) as u64));
            let b: usize = base as usize;
            out.push(img.pixels[b]);
            out.push(img.pixels[b + 1]);
            out.push(img.pixels[b + 2]);
            out.push(img.pixels[b + 3]);
            proof {
                assert forall|px: int, py: int, c: int|
                    0 <= px < rw && 0 <= c < 4 && ((0 <= py < j) || (py == j && 0 <= px < i + 1))
                        implies #[trigger] byte_at(out@, rw as int, px, py, c) == byte_at(
                        src,
                        w,
                        ox + px,
                        oy + py,
                        c,
                    ) by {
                    if py == j && px == i {
                        assert(4 * (py * rw + px) + c == 4 * (j * rw + i) + c);
                        assert(base + c == 4 * ((oy + py) * w + (ox + px)) + c) by (nonlinear_arith)
                            requires
                                base == 4 * (w * (oy + j) + (ox + i)),
                                py == j,
                                px == i,
                        ;
                    } else {
                        lemma_out_index(rw as int, j as int, i as int, py, px, c);
                        assert(byte_at(out@, rw as int, px, py, c) == byte_at(before, rw as int, px, py, c));
                    }
                }
            }
            i += 1;
        }
        assert(4 * (j * rw + rw) == 4 * ((j + 1) * rw)) by (nonlinear_arith);
        j += 1;
    }
    let r = SkinImage { width: rw, height: rh, pixels: out };
    assert(r.wf()) by {
        assert(4 * (rh * rw) == 4 * rw * rh) by (nonlinear_arith);
    }
    assert(r.pixels@ =~= block_pixels(src, img.width, ox, oy, rw, rh)) by {
        assert forall|k: int| 0 <= k < r.pixels@.len() implies r.pixels@[k] == block_pixels(
            src,
            img.width,
            ox,
            oy,
            rw,
            rh,
        )[k] by {
            if rw == 0 {
                assert(4 * rw * rh == 0) by (nonlinear_arith)
                    requires
                        rw == 0,
                ;
            }
            lemma_split_index(k, rw as int, rh as int);
            let px = (k / 4) % (rw as int);
            let py = (k / 4) / (rw as int);
            assert(byte_at(r.pixels@, rw as int, px, py, k % 4) == byte_at(src, w, ox + px, oy + py, k % 4));
        }
    }
    r
}

/// The pixels of a `bottom_width` × `bottom_height` image after `image`'s
/// `imageops::overlay` has blended a `top_width` × `top_height` image over it
/// with its top left corner at (`x`, `y`).
pub uninterp spec fn overlaid_pixels(
    bottom_width: u32,
    bottom_height: u32,
    bottom: Seq<u8>,
    top_width: u32,
    top_height: u32,
    top: Seq<u8>,
    x: u32,
    y: u32,
) -> Seq<u8>;

/// Pixel (`px`, `py`) lies in the `w` × `h` rectangle whose top left pixel is (`x`, `y`).
pub open spec fn in_rect(px: int, py: int, x: int, y: int, w: int, h: int) -> bool {
    x <= px < x + w && y <= py < y + h
}

/// Blends `top` over `bottom` with its top left corner at (`x`, `y`), by
/// `image::imageops::overlay` on RGBA buffers.
/// Claimed of it: `bottom` keeps its size and buffer length, its pixels become
/// the named result, no pixel outside the rectangle that `top` covers changes
/// (the function only writes the overlap of the two images), and inside it a
/// fully transparent top pixel leaves the bottom pixel as it is while a fully
/// opaque one replaces it (the two shortcuts at the head of `Rgba::blend`).
/// What other alpha values give is left to the named result.
#[verifier::external_body]
pub(crate) fn overlay(bottom: &mut SkinImage, top: &SkinImage, x: u32, y: u32)
    requires
        old(bottom).wf(),
        top.wf(),
    ensures
        final(bottom).wf(),
        final(bottom).width == old(bottom).width,
        final(bottom).height == old(bottom).height,
        final(bottom).pixels@ == overlaid_pixels(
            old(bottom).width,
            old(bottom).height,
            old(bottom).pixels@,
            top.width,
            top.height,
            top.pixels@,
            x,
            y,
        ),
        forall|px: int, py: int, c: int|
            0 <= px < old(bottom).width && 0 <= py < old(bottom).height && 0 <= c < 4 && !in_rect(
                px,
                py,
                x as int,
                y as int,
                top.width as int,
                top.height as int,
            ) ==> #[trigger] final(bottom).byte(px, py, c) == old(bottom).byte(px, py, c),
        forall|px: int, py: int, c: int|
            0 <= px < old(bottom).width && 0 <= py < old(bottom).height && 0 <= c < 4 && in_rect(
                px,
                py,
                x as int,
                y as int,
                top.width as int,
                top.height as int,
            ) ==> {
                &&& top.byte(px - x, py - y, 3) == 0 ==> #[trigger] final(bottom).byte(px, py, c)
                    == old(bottom).byte(px, py, c)
                &&& top.byte(px - x, py - y, 3) == 255 ==> final(bottom).byte(px, py, c)
                    == top.byte(px - x, py - y, c)
            },
{
    let pixels = std::mem::take(&mut bottom.pixels);
    let mut base = image::RgbaImage::from_raw(bottom.width, bottom.height, pixels).unwrap();
    let layer = image::RgbaImage::from_raw(top.width, top.height, top.pixels.clone()).unwrap();
    image::imageops::overlay(&mut base, &layer, i64::from(x), i64::from(y));
    bottom.pixels = base.into_raw();
}

/// What `image::load_from_memory` decodes from `bytes` (its format guessed
/// from the content), as width, height and RGBA bytes, or the text of its error.
pub uninterp spec fn decoded_rgba(bytes: Seq<u8>) -> Result<(u32, u32, Seq<u8>), Seq<char>>;

/// Decodes an encoded image with `image::load_from_memory` and converts it to
/// 8-bit RGBA with `to_rgba8`.
/// Claimed of it: the result is the named decoding of `bytes`, and a decoded
/// buffer holds four bytes per pixel (`to_rgba8` builds a fresh buffer of
/// exactly that size, or clones one that a decoder filled to that size).
#[verifier::external_body]
fn decode_rgba(bytes: &[u8]) -> (r: Result<(u32, u32, Vec<u8>), String>)
    ensures
        match r {
            Err(msg) => decoded_rgba(bytes@) == Err::<(u32, u32, Seq<u8>), Seq<char>>(msg@),
            Ok(t) => decoded_rgba(bytes@) == Ok::<(u32, u32, Seq<u8>), Seq<char>>((t.0, t.1, t.2@))
                && t.2@.len() == 4 * t.0 * t.1,
        },
{
    match image::load_from_memory(bytes) {
        Ok(img) => {
            let rgba = img.to_rgba8();
            Ok((rgba.width(), rgba.height(), rgba.into_raw()))
        },
        Err(err) => Err(format!("{}", err)),
    }
}

/// `img` is the image `decoded` describes.
pub open spec fn is_decoded(img: SkinImage, decoded: (u32, u32, Seq<u8>)) -> bool {
    img.wf() && img.width == decoded.0 && img.height == decoded.1 && img.pixels@ == decoded.2
}

/// The image encoded in `bytes`, its format guessed from the content, or
/// `None` where it does not decode.
pub fn decode_skin(bytes: &[u8]) -> (r: Option<SkinImage>)
    ensures
        match decoded_rgba(bytes@) {
            Ok(t) => r matches Some(img) && is_decoded(img, t),
            Err(_) => r is None,
        },
{
    match decode_rgba(bytes) {
        Ok((width, height, pixels)) => SkinImage::from_rgba(width, height, pixels),
        Err(_) => None,
    }
}

/// Width of the band of a skin that is laid over the base skin.
pub const BAND_WIDTH: u32 = 64;

/// Height of the band of a skin that is laid over the base skin.
pub const BAND_HEIGHT: u32 = 16;

/// The samples of a `width` × `height` base skin with samples `base` in
/// layout `color` after the 8-bit RGBA image `band` (`bw` × `bh`) is blended
/// over its top left corner: the block of the base under the band is read as
/// RGBA, `image`'s overlay lays the band over it, and each of its pixels is
/// stored back in the base's layout; every other pixel is kept.
pub open spec fn band_laid(
    color: PngColor,
    width: u32,
    height: u32,
    base: Seq<u16>,
    bw: u32,
    bh: u32,
    band: Seq<u8>,
) -> Seq<u16> {
    let rw = if bw <= width {
        bw
    } else {
        width
    };
    let rh = if bh <= height {
        bh
    } else {
        height
    };
    composed_samples(
        color,
        width,
        base,
        overlaid_pixels(rw, rh, block_rgba(color, base, width, rw, rh), bw, bh, band, 0, 0),
        rw,
        rh,
    )
}

/// Sample `i` of pixel (`px`, `py`) of an image `width` pixels wide in
/// layout `color` with samples `s`.
pub open spec fn sample_of(s: Seq<u16>, color: PngColor, width: u32, px: int, py: int, i: int) -> u16 {
    s[channels(color) * (py * width + px) + i]
}

/// What laying the RGBA image `band` (`bw` × `bh`) over the top left corner
/// of a `width` × `height` image with samples `base` in layout `color`
/// promises of the resulting samples `out`: every pixel the band
/// does not cover is kept; a covered pixel under a transparent band pixel
/// becomes the base pixel read as RGBA and stored back (for an 8-bit layout,
/// the base pixel itself), and one under an opaque band pixel takes the band
/// pixel's colour in the base's layout.
pub open spec fn band_facts(
    color: PngColor,
    width: u32,
    height: u32,
    base: Seq<u16>,
    bw: u32,
    bh: u32,
    band: Seq<u8>,
    out: Seq<u16>,
) -> bool {
    forall|px: int, py: int, i: int|
        0 <= px < width && 0 <= py < height && 0 <= i < channels(color) ==> {
            let q = py * width + px;
            let v = #[trigger] sample_of(out, color, width, px, py, i);
            &&& (px >= bw || py >= bh) ==> v == sample_of(base, color, width, px, py, i)
            &&& px < bw && py < bh && byte_at(band, bw as int, px, py, 3) == 0 ==> v
                == native_sample(
                color,
                rgba_channel(color, base, q, 0),
                rgba_channel(color, base, q, 1),
                rgba_channel(color, base, q, 2),
                rgba_channel(color, base, q, 3),
                i,
            )
            &&& px < bw && py < bh && byte_at(band, bw as int, px, py, 3) == 0 && !is_wide(
                color,
            ) ==> v == sample_of(base, color, width, px, py, i)
            &&& px < bw && py < bh && byte_at(band, bw as int, px, py, 3) == 255 ==> v
                == native_sample(
                color,
                byte_at(band, bw as int, px, py, 0),
                byte_at(band, bw as int, px, py, 1),
                byte_at(band, bw as int, px, py, 2),
                byte_at(band, bw as int, px, py, 3),
                i,
            )
        }
}

/// Blends `band` over the top left corner of `base`, as `image`'s overlay
/// does on a `DynamicImage`: every base pixel the band does not cover is kept;
/// a covered pixel is read as RGBA, blended, and stored back in the base's
/// layout.
pub fn lay_band(base: &PngImage, band: &SkinImage) -> (r: PngImage)
    requires
        base.wf(),
        band.wf(),
    ensures
        r.wf(),
        r.color == base.color,
        r.width == base.width,
        r.height == base.height,
        r.samples@ == band_laid(
            base.color,
            base.width,
            base.height,
            base.samples@,
            band.width,
            band.height,
            band.pixels@,
        ),
        band_facts(
            base.color,
            base.width,
            base.height,
            base.samples@,
            band.width,
            band.height,
            band.pixels@,
            r.samples@,
        ),
{
    let rw = if band.width <= base.width {
        band.width
    } else {
        base.width
    };
    let rh = if band.height <= base.height {
        band.height
    } else {
        base.height
    };
    proof {
        assert(4 * rw * rh <= 4 * band.width * band.height) by (nonlinear_arith)
            requires
                rw <= band.width,
                rh <= band.height,
        ;
    }
    let blen = band.pixels.len();
    let mut block = base.rgba_block(rw, rh);
    let ghost read = block;
    overlay(&mut block, band, 0, 0);
    let r = compose(base, &block);
    let ghost n = channels(base.color) as int;
    let ghost w = base.width as int;
    assert forall|px: int, py: int, c: int|
        0 <= px < rw && 0 <= py < rh && 0 <= c < 4 implies #[trigger] read.byte(px, py, c)
        == rgba_channel(base.color, base.samples@, py * base.width + px, c) by {
        lemma_pixel_index(4, rw as int, px, py, c);
        lemma_pixel_in_image(rw as int, rh as int, px, py);
        assert(4 * (rw * rh) == 4 * rw * rh) by (nonlinear_arith);
    }
    assert forall|px: int, py: int, i: int|
        0 <= px < base.width && 0 <= py < base.height && 0 <= i < channels(base.color) implies {
        let q = py * base.width + px;
        let v = #[trigger] sample_of(r.samples@, base.color, base.width, px, py, i);
        &&& (px >= band.width || py >= band.height) ==> v == base.sample(px, py, i)
        &&& px < band.width && py < band.height && byte_at(band.pixels@, band.width as int, px, py, 3)
            == 0 ==> v == native_sample(
            base.color,
            rgba_channel(base.color, base.samples@, q, 0),
            rgba_channel(base.color, base.samples@, q, 1),
            rgba_channel(base.color, base.samples@, q, 2),
            rgba_channel(base.color, base.samples@, q, 3),
            i,
        )
        &&& px < band.width && py < band.height && byte_at(band.pixels@, band.width as int, px, py, 3)
            == 0 && !is_wide(base.color) ==> v == base.sample(px, py, i)
        &&& px < band.width && py < band.height && byte_at(band.pixels@, band.width as int, px, py, 3)
            == 255 ==> v == native_sample(
            base.color,
            byte_at(band.pixels@, band.width as int, px, py, 0),
            byte_at(band.pixels@, band.width as int, px, py, 1),
            byte_at(band.pixels@, band.width as int, px, py, 2),
            byte_at(band.pixels@, band.width as int, px, py, 3),
            i,
        )
    } by {
        lemma_pixel_index(n, w, px, py, i);
        let q = py * w + px;
        lemma_pixel_in_image(w, base.height as int, px, py);
        lemma_sample_in_image(n, q, w * base.height);
        assert(n * (w * base.height) == n * w * base.height) by (nonlinear_arith);
        let k = n * q + i;
        assert(0 <= k < base.samples@.len());
        assert(sample_of(r.samples@, base.color, base.width, px, py, i) == r.samples@[k]);
        assert(base.sample(px, py, i) == base.samples@[k]);
        if px < band.width && py < band.height {
            assert(px < rw && py < rh);
            assert(r.samples@[k] == native_sample(
                base.color,
                block.byte(px, py, 0),
                block.byte(px, py, 1),
                block.byte(px, py, 2),
                block.byte(px, py, 3),
                i,
            ));
            assert(read.byte(px, py, 0) == rgba_channel(base.color, base.samples@, q, 0));
            assert(read.byte(px, py, 1) == rgba_channel(base.color, base.samples@, q, 1));
            assert(read.byte(px, py, 2) == rgba_channel(base.color, base.samples@, q, 2));
            assert(read.byte(px, py, 3) == rgba_channel(base.color, base.samples@, q, 3));
            if !is_wide(base.color) {
                lemma_narrow_round_trip(base.color, base.samples@, q, i);
            }
        } else {
            assert(!(px < rw && py < rh));
            assert(r.samples@[k] == base.samples@[k]);
        }
    }
    r
}

/// The samples of `base` with the top band of the decoded PNG skin `skin`
/// (width, height, layout, samples) laid over it: the skin's first
/// `BAND_HEIGHT` rows, at most `BAND_WIDTH` pixels wide, read as RGBA.
pub open spec fn diamondagified(base: PngImage, skin: (u32, u32, PngColor, Seq<u16>)) -> Seq<u16> {
    band_laid(
        base.color,
        base.width,
        base.height,
        base.samples@,
        crop_extent(skin.0, 0, BAND_WIDTH),
        crop_extent(skin.1, 0, BAND_HEIGHT),
        skin_band(skin),
    )
}

/// The top band of the decoded PNG skin `skin` as RGBA: what `crop(0, 0,
/// BAND_WIDTH, BAND_HEIGHT)` cuts out of it, each pixel read as RGBA.
pub open spec fn skin_band(skin: (u32, u32, PngColor, Seq<u16>)) -> Seq<u8> {
    block_rgba(
        skin.2,
        skin.3,
        skin.0,
        crop_extent(skin.0, 0, BAND_WIDTH),
        crop_extent(skin.1, 0, BAND_HEIGHT),
    )
}

/// The band cut from a decoded skin is the skin's top left corner: pixel
/// (x, y) of the band is pixel (x, y) of the skin, read as RGBA.
pub proof fn lemma_skin_band_is_the_head(skin: (u32, u32, PngColor, Seq<u16>))
    ensures
        forall|px: int, py: int, c: int|
            0 <= px < crop_extent(skin.0, 0, BAND_WIDTH) && 0 <= py < crop_extent(
                skin.1,
                0,
                BAND_HEIGHT,
            ) && 0 <= c < 4 ==> #[trigger] byte_at(
                skin_band(skin),
                crop_extent(skin.0, 0, BAND_WIDTH) as int,
                px,
                py,
                c,
            ) == rgba_channel(skin.2, skin.3, py * skin.0 + px, c),
{
    let bw = crop_extent(skin.0, 0, BAND_WIDTH) as int;
    let bh = crop_extent(skin.1, 0, BAND_HEIGHT) as int;
    assert forall|px: int, py: int, c: int| 0 <= px < bw && 0 <= py < bh && 0 <= c < 4 implies #[trigger] byte_at(
        skin_band(skin),
        bw,
        px,
        py,
        c,
    ) == rgba_channel(skin.2, skin.3, py * skin.0 + px, c) by {
        lemma_pixel_index(4, bw, px, py, c);
        lemma_pixel_in_image(bw, bh, px, py);
        assert(4 * (bw * bh) == 4 * bw * bh) by (nonlinear_arith);
    }
}

/// What laying the head of the decoded skin `skin` (width, height, layout,
/// samples) over a `width` × `height` base with samples `base` in layout
/// `color` gives for the samples `out`: every opaque pixel of the skin's top
/// left 64 × 16 block (as far as skin and base reach), read as RGBA, shows at
/// the same place, stored in the base's layout, and every pixel of the base
/// outside that block is kept.
pub open spec fn png_head_shows(
    color: PngColor,
    width: u32,
    height: u32,
    base: Seq<u16>,
    out: Seq<u16>,
    skin: (u32, u32, PngColor, Seq<u16>),
) -> bool {
    forall|px: int, py: int, i: int|
        0 <= px < width && 0 <= py < height && 0 <= i < channels(color) ==> {
            &&& px < 64 && px < skin.0 && py < 16 && py < skin.1 && rgba_channel(
                skin.2,
                skin.3,
                py * skin.0 + px,
                3,
            ) == 255 ==> #[trigger] sample_of(out, color, width, px, py, i) == native_sample(
                color,
                rgba_channel(skin.2, skin.3, py * skin.0 + px, 0),
                rgba_channel(skin.2, skin.3, py * skin.0 + px, 1),
                rgba_channel(skin.2, skin.3, py * skin.0 + px, 2),
                rgba_channel(skin.2, skin.3, py * skin.0 + px, 3),
                i,
            )
            &&& !(px < 64 && px < skin.0 && py < 16 && py < skin.1) ==> sample_of(
                out,
                color,
                width,
                px,
                py,
                i,
            ) == sample_of(base, color, width, px, py, i)
        }
}

/// Laying a decoded skin's top band over the base shows the player's head:
/// every opaque pixel of the skin's top left 64 × 16 block lands on the same
/// pixel of the base.
pub proof fn lemma_png_head_shows_through(
    color: PngColor,
    width: u32,
    height: u32,
    base: Seq<u16>,
    skin: (u32, u32, PngColor, Seq<u16>),
    out: Seq<u16>,
)
    requires
        band_facts(
            color,
            width,
            height,
            base,
            crop_extent(skin.0, 0, BAND_WIDTH),
            crop_extent(skin.1, 0, BAND_HEIGHT),
            skin_band(skin),
            out,
        ),
    ensures
        png_head_shows(color, width, height, base, out, skin),
{
    lemma_skin_band_is_the_head(skin);
    let bw = crop_extent(skin.0, 0, BAND_WIDTH);
    assert forall|px: int, py: int, i: int|
        0 <= px < width && 0 <= py < height && 0 <= i < channels(color) && px < bw && py
            < crop_extent(skin.1, 0, BAND_HEIGHT) && rgba_channel(skin.2, skin.3, py * skin.0 + px, 3)
            == 255 implies #[trigger] sample_of(out, color, width, px, py, i) == native_sample(
        color,
        rgba_channel(skin.2, skin.3, py * skin.0 + px, 0),
        rgba_channel(skin.2, skin.3, py * skin.0 + px, 1),
        rgba_channel(skin.2, skin.3, py * skin.0 + px, 2),
        rgba_channel(skin.2, skin.3, py * skin.0 + px, 3),
        i,
    ) by {
        assert(byte_at(skin_band(skin), bw as int, px, py, 0) == rgba_channel(skin.2, skin.3, py * skin.0 + px, 0));
        assert(byte_at(skin_band(skin), bw as int, px, py, 1) == rgba_channel(skin.2, skin.3, py * skin.0 + px, 1));
        assert(byte_at(skin_band(skin), bw as int, px, py, 2) == rgba_channel(skin.2, skin.3, py * skin.0 + px, 2));
        assert(byte_at(skin_band(skin), bw as int, px, py, 3) == rgba_channel(skin.2, skin.3, py * skin.0 + px, 3));
    }
}

/// The path of the base skin every generated skin starts from.
pub open spec fn base_skin_path_spec() -> Seq<char> {
    "./diamonddagger.png"@
}

/// The path of the base skin.
pub fn base_skin_path() -> (r: String)
    ensures
        r@ == base_skin_path_spec(),
{
    String::from_str("./diamonddagger.png")
}

/// Where generating the skin of a player stands.
pub enum DiamondagifyState {
    /// Waiting for the base skin's file.
    ReadingBase,
    /// The base skin is decoded; waiting for the player's downloaded skin file.
    ReadingSkin(PngImage),
    /// Waiting for the result to be written.
    Writing,
    /// Nothing more to do.
    Done,
}

/// What happened since the generation last decided.
pub enum DiamondagifyEvent {
    /// The generation begins.
    Started,
    /// The requested file's bytes, or the text of the error reading it.
    FileRead(Result<Vec<u8>, String>),
    /// Whether the result was written, with the text of the error if not.
    Written(Result<(), String>),
}

/// What the generation does next.
pub enum DiamondagifyAction {
    /// Read the file at this path.
    Read(String),
    /// Write these bytes to the file at this path.
    Write(Vec<u8>, String),
    /// The generation is over: the path of the generated skin, or the error.
    Finish(Result<String, APIError>),
}

/// The events the generation expects in each state.
pub open spec fn diamondagify_accepts(state: DiamondagifyState, event: DiamondagifyEvent) -> bool {
    match (state, event) {
        (DiamondagifyState::ReadingBase, DiamondagifyEvent::Started) => true,
        (DiamondagifyState::ReadingBase, DiamondagifyEvent::FileRead(_)) => true,
        (DiamondagifyState::ReadingSkin(base), DiamondagifyEvent::FileRead(_)) => base.wf(),
        (DiamondagifyState::Writing, DiamondagifyEvent::Written(_)) => true,
        _ => false,
    }
}

/// The generation ends with error `msg` and status 500.
pub open spec fn diamondagify_fails(r: (DiamondagifyState, DiamondagifyAction), msg: Seq<char>) -> bool {
    &&& r.0 is Done
    &&& (r.1 matches DiamondagifyAction::Finish(Err(e)) && is_error(
        e,
        msg,
        Status::InternalServerError,
    ))
}

/// The only files the generation reads are the base skin and the downloaded
/// skin of `uuid`, and the only file it writes is the generated skin of `uuid`.
pub open spec fn diamondagify_touches(uuid: Seq<char>, a: DiamondagifyAction) -> bool {
    match a {
        DiamondagifyAction::Read(p) => p@ == base_skin_path_spec() || p@ == cached_skin_path_spec(
            uuid,
        ),
        DiamondagifyAction::Write(_, p) => p@ == modified_skin_path_spec(uuid),
        DiamondagifyAction::Finish(_) => true,
    }
}

/// What every step of the generation keeps to, from state `s` on event `e`
/// to state `next` with action `a`: it touches only its three files, and it
/// writes only once the base skin (at the step before) and the downloaded
/// skin (at this step) have both been read and decoded.
pub open spec fn generation_step(
    uuid: Seq<char>,
    s: DiamondagifyState,
    e: DiamondagifyEvent,
    next: DiamondagifyState,
    a: DiamondagifyAction,
) -> bool {
    &&& diamondagify_touches(uuid, a)
    &&& (a is Write ==> s is ReadingSkin && (e matches DiamondagifyEvent::FileRead(Ok(bytes))
        && decoded_png(bytes@) is Ok))
    &&& (next is ReadingSkin ==> s is ReadingBase && (e matches DiamondagifyEvent::FileRead(Ok(bytes))
        && decoded_png(bytes@) is Ok))
}

/// Over any run of the generation from its start (`states[i]` and `events[i]` give
/// `states[i + 1]` and `actions[i]`): the only files read are the base skin
/// and the downloaded skin of `uuid`, the only file written is the generated
/// skin of `uuid`, and a write comes only right after the base skin was read
/// and decoded, on reading and decoding the downloaded skin.
pub proof fn lemma_generation_run(
    uuid: Seq<char>,
    states: Seq<DiamondagifyState>,
    events: Seq<DiamondagifyEvent>,
    actions: Seq<DiamondagifyAction>,
)
    requires
        states.len() == events.len() + 1,
        actions.len() == events.len(),
        states[0] is ReadingBase,
        forall|i: int|
            0 <= i < events.len() ==> generation_step(
                uuid,
                #[trigger] states[i],
                events[i],
                states[i + 1],
                actions[i],
            ),
    ensures
        forall|i: int| 0 <= i < actions.len() ==> diamondagify_touches(uuid, #[trigger] actions[i]),
        forall|i: int|
            0 <= i < actions.len() && #[trigger] actions[i] is Write ==> {
                &&& 1 <= i
                &&& (events[i - 1] matches DiamondagifyEvent::FileRead(Ok(base)) && decoded_png(
                    base@,
                ) is Ok)
                &&& (events[i] matches DiamondagifyEvent::FileRead(Ok(skin)) && decoded_png(
                    skin@,
                ) is Ok)
            },
{
    assert forall|i: int| 0 <= i < actions.len() implies diamondagify_touches(uuid, #[trigger] actions[i]) by {
        assert(generation_step(uuid, states[i], events[i], states[i + 1], actions[i]));
    }
    assert forall|i: int| 0 <= i < actions.len() && #[trigger] actions[i] is Write implies {
        &&& 1 <= i
        &&& (events[i - 1] matches DiamondagifyEvent::FileRead(Ok(base)) && decoded_png(base@) is Ok)
        &&& (events[i] matches DiamondagifyEvent::FileRead(Ok(skin)) && decoded_png(skin@) is Ok)
    } by {
        assert(generation_step(uuid, states[i], events[i], states[i + 1], actions[i]));
        if i > 0 {
            assert(generation_step(uuid, states[i - 1], events[i - 1], states[i], actions[i - 1]));
        }
    }
}

/// The next step of generating the skin of `uuid`: read and decode the base
/// skin, then the downloaded skin `./skins/cache/<uuid>.png` (both as PNG), lay
/// the downloaded skin's top band over the base, encode the result as PNG in
/// the base skin's own sample layout and write it to `./skins/modified/<uuid>.png`, whose path is the outcome. Any
/// failure ends the generation with the text of its error and status 500.
pub fn diamondagify(uuid: &str, state: DiamondagifyState, event: DiamondagifyEvent) -> (r: (
    DiamondagifyState,
    DiamondagifyAction,
))
    requires
        diamondagify_accepts(state, event),
    ensures
        generation_step(uuid@, state, event, r.0, r.1),
        match (state, event) {
            (DiamondagifyState::ReadingBase, DiamondagifyEvent::Started) => {
                &&& r.0 is ReadingBase
                &&& (r.1 matches DiamondagifyAction::Read(p) && p@ == base_skin_path_spec())
            },
            (_, DiamondagifyEvent::FileRead(Err(msg))) => diamondagify_fails(r, msg@),
            (DiamondagifyState::ReadingBase, DiamondagifyEvent::FileRead(Ok(bytes))) => match decoded_png(
                bytes@,
            ) {
                Err(msg) => diamondagify_fails(r, msg),
                Ok(t) => {
                    &&& (r.0 matches DiamondagifyState::ReadingSkin(b) && is_decoded_png(b, t))
                    &&& (r.1 matches DiamondagifyAction::Read(p) && p@ == cached_skin_path_spec(
                        uuid@,
                    ))
                },
            },
            (DiamondagifyState::ReadingSkin(base), DiamondagifyEvent::FileRead(Ok(bytes))) => match decoded_png(
                bytes@,
            ) {
                Err(msg) => diamondagify_fails(r, msg),
                Ok(t) => band_facts(
                    base.color,
                    base.width,
                    base.height,
                    base.samples@,
                    crop_extent(t.0, 0, BAND_WIDTH),
                    crop_extent(t.1, 0, BAND_HEIGHT),
                    skin_band(t),
                    diamondagified(base, t),
                ) && png_head_shows(
                    base.color,
                    base.width,
                    base.height,
                    base.samples@,
                    diamondagified(base, t),
                    t,
                )
                    && match png_file(base.width, base.height, base.color, diamondagified(base, t)) {
                    Err(msg) => diamondagify_fails(r, msg),
                    Ok(png) => {
                        &&& r.0 is Writing
                        &&& (r.1 matches DiamondagifyAction::Write(b, p) && b@ == png && p@
                            == modified_skin_path_spec(uuid@))
                    },
                },
            },
            (DiamondagifyState::Writing, DiamondagifyEvent::Written(Ok(()))) => {
                &&& r.0 is Done
                &&& (r.1 matches DiamondagifyAction::Finish(Ok(p)) && p@ == modified_skin_path_spec(
                    uuid@,
                ))
            },
            (DiamondagifyState::Writing, DiamondagifyEvent::Written(Err(msg))) => diamondagify_fails(
                r,
                msg@,
            ),
            _ => false,
        },
{
    match (state, event) {
        (DiamondagifyState::ReadingBase, DiamondagifyEvent::Started) => (
            DiamondagifyState::ReadingBase,
            DiamondagifyAction::Read(base_skin_path()),
        ),
        (DiamondagifyState::ReadingBase, DiamondagifyEvent::FileRead(Ok(bytes))) => {
            match decode_png(bytes.as_slice()) {
                Ok(base) => (
                    DiamondagifyState::ReadingSkin(base),
                    DiamondagifyAction::Read(cached_skin_path(uuid)),
                ),
                Err(msg) => generation_error(msg),
            }
        },
        (DiamondagifyState::ReadingSkin(base), DiamondagifyEvent::FileRead(Ok(bytes))) => {
            match decode_png(bytes.as_slice()) {
                Ok(skin) => {
                    let bw = if BAND_WIDTH <= skin.width {
                        BAND_WIDTH
                    } else {
                        skin.width
                    };
                    let bh = if BAND_HEIGHT <= skin.height {
                        BAND_HEIGHT
                    } else {
                        skin.height
                    };
                    assert(4 * bw * bh <= 4096) by (nonlinear_arith)
                        requires
                            bw <= 64,
                            bh <= 16,
                    ;
                    let band = skin.rgba_block(bw, bh);
                    let out = lay_band(&base, &band);
                    proof {
                        lemma_png_head_shows_through(
                            base.color,
                            base.width,
                            base.height,
                            base.samples@,
                            (skin.width, skin.height, skin.color, skin.samples@),
                            out.samples@,
                        );
                    }
                    match encode_png(&out) {
                        Ok(png) => (
                            DiamondagifyState::Writing,
                            DiamondagifyAction::Write(png, modified_skin_path(uuid)),
                        ),
                        Err(msg) => generation_error(msg),
                    }
                },
                Err(msg) => generation_error(msg),
            }
        },
        (_, DiamondagifyEvent::FileRead(Err(msg))) => generation_error(msg),
        (DiamondagifyState::Writing, DiamondagifyEvent::Written(Ok(()))) => (
            DiamondagifyState::Done,
            DiamondagifyAction::Finish(Ok(modified_skin_path(uuid))),
        ),
        (_, DiamondagifyEvent::Written(Err(msg))) => generation_error(msg),
        (_, _) => generation_error(String::new()),
    }
}

/// Ends the generation with error `msg` and status 500.
fn generation_error(msg: String) -> (r: (DiamondagifyState, DiamondagifyAction))
    ensures
        diamondagify_fails(r, msg@),
{
    (DiamondagifyState::Done, DiamondagifyAction::Finish(Err(APIError(msg, Status::InternalServerError))))
}

} // verus!
