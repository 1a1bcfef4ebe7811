//! Decoded PNG images in their own sample layout, and the conversions between
//! that layout and 8-bit RGBA that `image` applies when it reads a pixel of a
//! `DynamicImage` or writes one into it.

use vstd::arithmetic::div_mod::{
    lemma_div_pos_is_pos, lemma_fundamental_div_mod_converse,
    lemma_mod_bound, lemma_multiply_divide_lt,
};
use crate::skin_creation::{byte_at, SkinImage};
use image::DynamicImage::{
    ImageLuma16, ImageLuma8, ImageLumaA16, ImageLumaA8, ImageRgb16, ImageRgb8, ImageRgba16,
    ImageRgba8,
};
use image::ImageBuffer;
use vstd::prelude::*;

verus! {

/// The sample layouts the PNG decoder yields: grey, grey and alpha, RGB and
/// RGBA, with 8 or 16 bits per sample.
#[derive(Clone, Copy, Debug, PartialEq, Eq, Structural)]
pub enum PngColor {
    L8,
    La8,
    Rgb8,
    Rgba8,
    L16,
    La16,
    Rgb16,
    Rgba16,
}

/// How many samples a pixel in layout `color` has.
pub open spec fn channels(color: PngColor) -> nat {
    match color {
        PngColor::L8 => 1,
        PngColor::L16 => 1,
        PngColor::La8 => 2,
        PngColor::La16 => 2,
        PngColor::Rgb8 => 3,
        PngColor::Rgb16 => 3,
        PngColor::Rgba8 => 4,
        PngColor::Rgba16 => 4,
    }
}

/// Whether layout `color` has 16 bits per sample.
pub open spec fn is_wide(color: PngColor) -> bool {
    match color {
        PngColor::L16 => true,
        PngColor::La16 => true,
        PngColor::Rgb16 => true,
        PngColor::Rgba16 => true,
        _ => false,
    }
}

/// The number of samples per pixel in layout `color`.
pub fn channel_count(color: PngColor) -> (n: usize)
    ensures
        n == channels(color),
        1 <= n <= 4,
{
    match color {
        PngColor::L8 => 1,
        PngColor::L16 => 1,
        PngColor::La8 => 2,
        PngColor::La16 => 2,
        PngColor::Rgb8 => 3,
        PngColor::Rgb16 => 3,
        PngColor::Rgba8 => 4,
        PngColor::Rgba16 => 4,
    }
}

/// Whether layout `color` has 16 bits per sample.
pub fn wide(color: PngColor) -> (r: bool)
    ensures
        r == is_wide(color),
{
    match color {
        PngColor::L16 => true,
        PngColor::La16 => true,
        PngColor::Rgb16 => true,
        PngColor::Rgba16 => true,
        _ => false,
    }
}

/// `image`'s conversion of a 16-bit sample to 8 bits: round(v · 255 / 65535).
pub open spec fn narrow_sample(v: u16) -> u8 {
    ((v + 128) / 257) as u8
}

/// `image`'s conversion of an 8-bit sample to 16 bits: v · 257.
pub open spec fn widen_sample(v: u8) -> u16 {
    (v * 257) as u16
}

/// `image`'s luminance of an 8-bit RGB colour: (2126 r + 7152 g + 722 b) / 10000.
pub open spec fn luma(r: u8, g: u8, b: u8) -> u8 {
    ((2126 * r + 7152 * g + 722 * b) / 10000) as u8
}

/// A stored sample of layout `color` as an 8-bit sample.
pub open spec fn sample8(color: PngColor, v: u16) -> u8 {
    if is_wide(color) {
        narrow_sample(v)
    } else {
        v as u8
    }
}

/// Channel `c` (0 red, 1 green, 2 blue, 3 alpha) of pixel `q` of the samples
/// `s` in layout `color`, as 8-bit RGBA: grey is copied to the three colour
/// channels, a missing alpha is opaque, 16-bit samples are narrowed. This is
/// the pixel `DynamicImage::get_pixel` reads.
pub open spec fn rgba_channel(color: PngColor, s: Seq<u16>, q: int, c: int) -> u8 {
    let at = channels(color) * q;
    match color {
        PngColor::L8 | PngColor::L16 => if c < 3 {
            sample8(color, s[at])
        } else {
            255
        },
        PngColor::La8 | PngColor::La16 => if c < 3 {
            sample8(color, s[at])
        } else {
            sample8(color, s[at + 1])
        },
        PngColor::Rgb8 | PngColor::Rgb16 => if c < 3 {
            sample8(color, s[at + c])
        } else {
            255
        },
        _ => sample8(color, s[at + c]),
    }
}

/// Sample `i` of the pixel that layout `color` stores for the 8-bit RGBA
/// colour (`r`, `g`, `b`, `a`): grey layouts keep its luminance, layouts
/// without alpha drop the alpha, 16-bit layouts widen. This is the pixel
/// `DynamicImage::put_pixel` writes.
pub open spec fn native_sample(color: PngColor, r: u8, g: u8, b: u8, a: u8, i: int) -> u16 {
    let v: u8 = match color {
        PngColor::L8 | PngColor::L16 => luma(r, g, b),
        PngColor::La8 | PngColor::La16 => if i == 0 {
            luma(r, g, b)
        } else {
            a
        },
        _ => if i == 0 {
            r
        } else if i == 1 {
            g
        } else if i == 2 {
            b
        } else {
            a
        },
    };
    if is_wide(color) {
        widen_sample(v)
    } else {
        v as u16
    }
}

fn sample8_of(color: PngColor, v: u16) -> (r: u8)
    requires
        !is_wide(color) ==> v < 256,
    ensures
        r == sample8(color, v),
{
    if wide(color) {
        ((v as u32 + 128) / 257) as u8
    } else {
        v as u8
    }
}

fn native_sample_of(color: PngColor, r: u8, g: u8, b: u8, a: u8, i: usize) -> (v: u16)
    ensures
        v == native_sample(color, r, g, b, a, i as int),
        !is_wide(color) ==> v < 256,
{
    let y: u8 = ((2126 * r as u32 + 7152 * g as u32 + 722 * b as u32) / 10000) as u8;
    let x: u8 = match color {
        PngColor::L8 | PngColor::L16 => y,
        PngColor::La8 | PngColor::La16 => if i == 0 {
            y
        } else {
            a
        },
        _ => if i == 0 {
            r
        } else if i == 1 {
            g
        } else if i == 2 {
            b
        } else {
            a
        },
    };
    if wide(color) {
        x as u16 * 257
    } else {
        x as u16
    }
}

/// A decoded image in its own layout: `channels(color)` samples per pixel,
/// rows top to bottom; 8-bit samples are held as 16-bit integers.
#[derive(Clone, Debug)]
pub struct PngImage {
    pub color: PngColor,
    pub width: u32,
    pub height: u32,
    pub samples: Vec<u16>,
}

impl PngImage {
    /// The buffer holds exactly the samples of every pixel, and the samples
    /// of an 8-bit layout are below 256.
    pub open spec fn wf(&self) -> bool {
        &&& self.samples@.len() == channels(self.color) * self.width * self.height
        &&& !is_wide(self.color) ==> forall|k: int|
            0 <= k < self.samples@.len() ==> #[trigger] self.samples@[k] < 256
    }

    /// Sample `i` of pixel (`px`, `py`).
    pub open spec fn sample(&self, px: int, py: int, i: int) -> u16 {
        self.samples@[channels(self.color) * (py * self.width + px) + i]
    }
}

/// The 8-bit RGBA pixels of the `rw` × `rh` top left block of an image
/// `width` pixels wide with samples `s` in layout `color`, row by row.
pub open spec fn block_rgba(color: PngColor, s: Seq<u16>, width: u32, rw: u32, rh: u32) -> Seq<u8> {
    Seq::new(
        (4 * rw * rh) as nat,
        |k: int| rgba_channel(color, s, ((k / 4) / (rw as int)) * width + (k / 4) % (rw as int), k % 4),
    )
}

/// The samples of a `width`-wide image with samples `base` in layout `color`
/// after each pixel of its `rw` × `rh` top left block is replaced by the pixel
/// its layout stores for the matching 8-bit RGBA pixel of `block` (a
/// `rw` × `rh` image).
pub open spec fn composed_samples(
    color: PngColor,
    width: u32,
    base: Seq<u16>,
    block: Seq<u8>,
    rw: u32,
    rh: u32,
) -> Seq<u16> {
    Seq::new(
        base.len(),
        |k: int|
            {
                let q = k / (channels(color) as int);
                let x = q % (width as int);
                let y = q / (width as int);
                if x < rw && y < rh {
                    native_sample(
                        color,
                        byte_at(block, rw as int, x, y, 0),
                        byte_at(block, rw as int, x, y, 1),
                        byte_at(block, rw as int, x, y, 2),
                        byte_at(block, rw as int, x, y, 3),
                        k % (channels(color) as int),
                    )
                } else {
                    base[k]
                }
            },
    )
}

/// Pixel (`x`, `y`) of a `w` × `h` image is pixel number `y * w + x`.
pub proof fn lemma_pixel_in_image(w: int, h: int, x: int, y: int)
    requires
        0 <= x < w,
        0 <= y < h,
    ensures
        0 <= y * w + x < w * h,
{
    assert(0 <= y * w) by (nonlinear_arith)
        requires
            0 <= y,
            0 <= w,
    ;
    assert(y * w + w <= w * h) by (nonlinear_arith)
        requires
            y + 1 <= h,
            0 <= w,
    ;
}

/// The samples of pixel `q` of an image of `npix` pixels with `n` samples
/// each lie within its buffer.
pub proof fn lemma_sample_in_image(n: int, q: int, npix: int)
    requires
        1 <= n,
        0 <= q < npix,
    ensures
        0 <= n * q,
        n * q + n <= n * npix,
{
    assert(0 <= n * q) by (nonlinear_arith)
        requires
            1 <= n,
            0 <= q,
    ;
    assert(n * q + n <= n * npix) by (nonlinear_arith)
        requires
            1 <= n,
            q + 1 <= npix,
    ;
}

fn rgba_channel_of(img: &PngImage, q: usize, c: usize) -> (v: u8)
    requires
        img.wf(),
        q < img.width * img.height,
        c < 4,
    ensures
        v == rgba_channel(img.color, img.samples@, q as int, c as int),
{
    let n = channel_count(img.color);
    let len = img.samples.len();
    proof {
        lemma_sample_in_image(n as int, q as int, img.width * img.height);
        assert(n * (img.width * img.height) == n * img.width * img.height) by (nonlinear_arith);
    }
    let at = n * q;
    match img.color {
        PngColor::L8 | PngColor::L16 => if c < 3 {
            sample8_of(img.color, img.samples[at])
        } else {
            255
        },
        PngColor::La8 | PngColor::La16 => if c < 3 {
            sample8_of(img.color, img.samples[at])
        } else {
            sample8_of(img.color, img.samples[at + 1])
        },
        PngColor::Rgb8 | PngColor::Rgb16 => if c < 3 {
            sample8_of(img.color, img.samples[at + c])
        } else {
            255
        },
        _ => sample8_of(img.color, img.samples[at + c]),
    }
}

impl PngImage {
    /// The `rw` × `rh` top left block of the image as 8-bit RGBA, each pixel
    /// as `DynamicImage::get_pixel` reads it.
    pub fn rgba_block(&self, rw: u32, rh: u32) -> (r: SkinImage)
        requires
            self.wf(),
            rw <= self.width,
            rh <= self.height,
            4 * rw * rh <= usize::MAX,
        ensures
            r.wf(),
            r.width == rw,
            r.height == rh,
            r.pixels@ == block_rgba(self.color, self.samples@, self.width, rw, rh),
    {
        let n = channel_count(self.color);
        let len = self.samples.len();
        assert(rw * rh <= 4 * rw * rh) by (nonlinear_arith);
        assert(4 * (rw * rh) == 4 * rw * rh) by (nonlinear_arith);
        let total: usize = 4 * ((rw as usize) * (rh as usize));
        let w = self.width as usize;
        proof {
            assert(n * self.width * self.height == n * (self.width * self.height)) by (nonlinear_arith);
            assert(self.width * self.height <= n * (self.width * self.height)) by (nonlinear_arith)
                requires
                    1 <= n,
            ;
        }
        let mut out: Vec<u8> = Vec::new();
        let mut k: usize = 0;
        while k < total
            invariant
                self.wf(),
                n == channels(self.color),
                w == self.width,
                rw <= self.width,
                rh <= self.height,
                total == 4 * rw * rh,
                self.width * self.height <= usize::MAX,
                k <= total,
                out@.len() == k,
                forall|j: int|
                    0 <= j < k ==> #[trigger] out@[j] == block_rgba(
                        self.color,
                        self.samples@,
                        self.width,
                        rw,
                        rh,
                    )[j],
            decreases total - k,
        {
            let p = k / 4;
            let c = k % 4;
            proof {
                assert(4 * rw * rh == 4 * (rw * rh)) by (nonlinear_arith);
                lemma_multiply_divide_lt(k as int, 4, rw * rh);
                if rw == 0 {
                    assert(rw * rh == 0) by (nonlinear_arith)
                        requires
                            rw == 0,
                    ;
                }
                lemma_multiply_divide_lt(p as int, rw as int, rh as int);
                lemma_mod_bound(p as int, rw as int);
                lemma_div_pos_is_pos(p as int, rw as int);
            }
            let x = p % (rw as usize);
            let y = p / (rw as usize);
            proof {
                lemma_pixel_in_image(self.width as int, self.height as int, x as int, y as int);
            }
            let q = y * w + x;
            out.push(rgba_channel_of(self, q, c));
            k += 1;
        }
        let r = SkinImage { width: rw, height: rh, pixels: out };
        assert(r.pixels@ =~= block_rgba(self.color, self.samples@, self.width, rw, rh));
        r
    }
}

/// The image `base` with each pixel of its top left block, the size of
/// `block`, replaced by the pixel its layout stores for the matching pixel
/// of `block`.
pub fn compose(base: &PngImage, block: &SkinImage) -> (r: PngImage)
    requires
        base.wf(),
        block.wf(),
        block.width <= base.width,
        block.height <= base.height,
    ensures
        r.wf(),
        r.color == base.color,
        r.width == base.width,
        r.height == base.height,
        r.samples@ == composed_samples(
            base.color,
            base.width,
            base.samples@,
            block.pixels@,
            block.width,
            block.height,
        ),
{
    let n = channel_count(base.color);
    let total = base.samples.len();
    let w = base.width as usize;
    let rw = block.width as usize;
    let rh = block.height as usize;
    let blen = block.pixels.len();
    let ghost spec_out = composed_samples(
        base.color,
        base.width,
        base.samples@,
        block.pixels@,
        block.width,
        block.height,
    );
    let mut out: Vec<u16> = Vec::new();
    let mut k: usize = 0;
    while k < total
        invariant
            base.wf(),
            block.wf(),
            block.width <= base.width,
            block.height <= base.height,
            n == channels(base.color),
            total == base.samples@.len(),
            w == base.width,
            rw == block.width,
            rh == block.height,
            blen == block.pixels@.len(),
            spec_out == composed_samples(
                base.color,
                base.width,
                base.samples@,
                block.pixels@,
                block.width,
                block.height,
            ),
            k <= total,
            out@.len() == k,
            forall|j: int| 0 <= j < k ==> #[trigger] out@[j] == spec_out[j],
            !is_wide(base.color) ==> forall|j: int| 0 <= j < k ==> #[trigger] out@[j] < 256,
        decreases total - k,
    {
        proof {
            if w == 0 {
                assert(n * base.width * base.height == 0) by (nonlinear_arith)
                    requires
                        base.width == 0,
                ;
            }
        }
        let q = k / n;
        let i = k % n;
        let x = q % w;
        let y = q / w;
        let v: u16 = if x < rw && y < rh {
            proof {
                lemma_pixel_in_image(rw as int, rh as int, x as int, y as int);
                assert(4 * (rw * rh) == 4 * rw * rh) by (nonlinear_arith);
            }
            let o = 4 * (y * rw + x);
            native_sample_of(
                base.color,
                block.pixels[o],
                block.pixels[o + 1],
                block.pixels[o + 2],
                block.pixels[o + 3],
                i,
            )
        } else {
            base.samples[k]
        };
        out.push(v);
        k += 1;
    }
    let r = PngImage { color: base.color, width: base.width, height: base.height, samples: out };
    assert(r.samples@ =~= spec_out);
    r
}

/// The samples of a decoded PNG image in each of its layouts, row by row.
pub enum PngSamples {
    L8(Vec<u8>),
    La8(Vec<u8>),
    Rgb8(Vec<u8>),
    Rgba8(Vec<u8>),
    L16(Vec<u16>),
    La16(Vec<u16>),
    Rgb16(Vec<u16>),
    Rgba16(Vec<u16>),
}

/// Eight-bit samples held as 16-bit integers of the same value.
pub open spec fn widened(v: Seq<u8>) -> Seq<u16> {
    v.map_values(|b: u8| b as u16)
}

/// The layout of `s` and its samples, 8-bit ones held as 16-bit integers.
pub open spec fn layout_of(s: PngSamples) -> (PngColor, Seq<u16>) {
    match s {
        PngSamples::L8(v) => (PngColor::L8, widened(v@)),
        PngSamples::La8(v) => (PngColor::La8, widened(v@)),
        PngSamples::Rgb8(v) => (PngColor::Rgb8, widened(v@)),
        PngSamples::Rgba8(v) => (PngColor::Rgba8, widened(v@)),
        PngSamples::L16(v) => (PngColor::L16, v@),
        PngSamples::La16(v) => (PngColor::La16, v@),
        PngSamples::Rgb16(v) => (PngColor::Rgb16, v@),
        PngSamples::Rgba16(v) => (PngColor::Rgba16, v@),
    }
}

/// What `image::load_from_memory_with_format` decodes from `bytes` read as
/// PNG, as width, height, layout and samples (8-bit ones held as 16-bit
/// integers), or the text of its error.
pub uninterp spec fn decoded_png(bytes: Seq<u8>) -> Result<(u32, u32, PngColor, Seq<u16>), Seq<char>>;

/// Decodes a PNG file's bytes with `image::load_from_memory_with_format`, as
/// `image::open` does for a file whose name ends in `.png`, and hands out the
/// decoded buffer as it is. The PNG decoder yields only the eight layouts of
/// `PngColor`; any other image would be converted to 16-bit RGBA.
/// Claimed of it: the result is the named decoding of `bytes`, and the buffer
/// holds exactly the samples of every pixel (each decoder fills a buffer of
/// exactly that size).
#[verifier::external_body]
fn decode_png_samples(bytes: &[u8]) -> (r: Result<(u32, u32, PngSamples), String>)
    ensures
        match r {
            Err(msg) => decoded_png(bytes@) == Err::<(u32, u32, PngColor, Seq<u16>), Seq<char>>(
                msg@,
            ),
            Ok(t) => decoded_png(bytes@) == Ok::<(u32, u32, PngColor, Seq<u16>), Seq<char>>(
                (t.0, t.1, layout_of(t.2).0, layout_of(t.2).1),
            ) && layout_of(t.2).1.len() == channels(layout_of(t.2).0) * t.0 * t.1,
        },
{
    let img = match image::load_from_memory_with_format(bytes, image::ImageFormat::Png) {
        Ok(img) => img,
        Err(err) => return Err(format!("{}", err)),
    };
    Ok((img.width(), img.height(), match img {
        ImageLuma8(b) => PngSamples::L8(b.into_raw()),
        ImageLumaA8(b) => PngSamples::La8(b.into_raw()),
        ImageRgb8(b) => PngSamples::Rgb8(b.into_raw()),
        ImageRgba8(b) => PngSamples::Rgba8(b.into_raw()),
        ImageLuma16(b) => PngSamples::L16(b.into_raw()),
        ImageLumaA16(b) => PngSamples::La16(b.into_raw()),
        ImageRgb16(b) => PngSamples::Rgb16(b.into_raw()),
        other => PngSamples::Rgba16(other.into_rgba16().into_raw()),
    }))
}

fn widen_all(v: Vec<u8>) -> (r: Vec<u16>)
    ensures
        r@ == widened(v@),
{
    let mut r: Vec<u16> = Vec::new();
    let mut k: usize = 0;
    while k < v.len()
        invariant
            k <= v@.len(),
            r@ == widened(v@.take(k as int)),
        decreases v@.len() - k,
    {
        assert(v@.take(k + 1) =~= v@.take(k as int).push(v@[k as int]));
        r.push(v[k] as u16);
        k += 1;
        assert(r@ =~= widened(v@.take(k as int)));
    }
    assert(v@.take(k as int) =~= v@);
    r
}

fn narrow_all(v: &Vec<u16>) -> (r: Vec<u8>)
    requires
        forall|k: int| 0 <= k < v@.len() ==> #[trigger] v@[k] < 256,
    ensures
        widened(r@) == v@,
{
    let mut r: Vec<u8> = Vec::new();
    let mut k: usize = 0;
    while k < v.len()
        invariant
            forall|j: int| 0 <= j < v@.len() ==> #[trigger] v@[j] < 256,
            k <= v@.len(),
            r@.len() == k,
            widened(r@) == v@.take(k as int),
        decreases v@.len() - k,
    {
        let ghost before = r@;
        let b = v[k] as u8;
        assert(b as u16 == v@[k as int]);
        r.push(b);
        k += 1;
        assert forall|j: int| 0 <= j < k implies #[trigger] widened(r@)[j] == v@.take(k as int)[j] by {
            assert(widened(r@)[j] == r@[j] as u16);
            if j < k - 1 {
                assert(r@[j] == before[j]);
                assert(widened(before)[j] == before[j] as u16);
                assert(widened(before)[j] == v@.take(k - 1)[j]);
            } else {
                assert(r@[j] == b);
            }
        }
        assert(widened(r@) =~= v@.take(k as int));
    }
    assert(v@.take(k as int) =~= v@);
    r
}

/// `img` is the image `decoded` describes.
pub open spec fn is_decoded_png(img: PngImage, decoded: (u32, u32, PngColor, Seq<u16>)) -> bool {
    &&& img.wf()
    &&& img.width == decoded.0
    &&& img.height == decoded.1
    &&& img.color == decoded.2
    &&& img.samples@ == decoded.3
}

/// The PNG image in `bytes` in its own layout, or the text of the decoding error.
pub fn decode_png(bytes: &[u8]) -> (r: Result<PngImage, String>)
    ensures
        match decoded_png(bytes@) {
            Ok(t) => r matches Ok(img) && is_decoded_png(img, t),
            Err(msg) => r matches Err(m) && m@ == msg,
        },
{
    match decode_png_samples(bytes) {
        Ok((width, height, samples)) => {
            let ghost expected = layout_of(samples);
            let (color, wide_samples) = match samples {
                PngSamples::L8(v) => (PngColor::L8, widen_all(v)),
                PngSamples::La8(v) => (PngColor::La8, widen_all(v)),
                PngSamples::Rgb8(v) => (PngColor::Rgb8, widen_all(v)),
                PngSamples::Rgba8(v) => (PngColor::Rgba8, widen_all(v)),
                PngSamples::L16(v) => (PngColor::L16, v),
                PngSamples::La16(v) => (PngColor::La16, v),
                PngSamples::Rgb16(v) => (PngColor::Rgb16, v),
                PngSamples::Rgba16(v) => (PngColor::Rgba16, v),
            };
            assert(color == expected.0 && wide_samples@ == expected.1);
            let img = PngImage { color, width, height, samples: wide_samples };
            assert(!is_wide(color) ==> forall|k: int|
                0 <= k < img.samples@.len() ==> #[trigger] img.samples@[k] < 256);
            Ok(img)
        },
        Err(msg) => Err(msg),
    }
}

/// The PNG file `image` writes for a `width` × `height` image whose samples
/// in layout `color` are `samples` (8-bit ones held as 16-bit integers), or
/// the text of its error.
pub uninterp spec fn png_file(width: u32, height: u32, color: PngColor, samples: Seq<u16>) -> Result<
    Seq<u8>,
    Seq<char>,
>;

/// Encodes an image with 8-bit samples as PNG with `DynamicImage::write_to`,
/// the encoder `DynamicImage::save` uses for a file whose name ends in `.png`.
/// Claimed of it: the result is the named encoding of the image.
#[verifier::external_body]
fn encode_png8(width: u32, height: u32, color: PngColor, samples: Vec<u8>) -> (r: Result<
    Vec<u8>,
    String,
>)
    requires
        !is_wide(color),
        samples@.len() == channels(color) * width * height,
    ensures
        match r {
            Err(msg) => png_file(width, height, color, widened(samples@)) == Err::<
                Seq<u8>,
                Seq<char>,
            >(msg@),
            Ok(v) => png_file(width, height, color, widened(samples@)) == Ok::<Seq<u8>, Seq<char>>(
                v@,
            ),
        },
{
    let img = match color {
        PngColor::L8 => ImageBuffer::from_raw(width, height, samples).map(ImageLuma8),
        PngColor::La8 => ImageBuffer::from_raw(width, height, samples).map(ImageLumaA8),
        PngColor::Rgb8 => ImageBuffer::from_raw(width, height, samples).map(ImageRgb8),
        _ => ImageBuffer::from_raw(width, height, samples).map(ImageRgba8),
    };
    let mut out = std::io::Cursor::new(Vec::new());
    match img.unwrap().write_to(&mut out, image::ImageFormat::Png) {
        Ok(()) => Ok(out.into_inner()),
        Err(err) => Err(format!("{}", err)),
    }
}

/// Encodes an image with 16-bit samples as PNG with `DynamicImage::write_to`.
/// Claimed of it: the result is the named encoding of the image.
#[verifier::external_body]
fn encode_png16(width: u32, height: u32, color: PngColor, samples: Vec<u16>) -> (r: Result<
    Vec<u8>,
    String,
>)
    requires
        is_wide(color),
        samples@.len() == channels(color) * width * height,
    ensures
        match r {
            Err(msg) => png_file(width, height, color, samples@) == Err::<Seq<u8>, Seq<char>>(
                msg@,
            ),
            Ok(v) => png_file(width, height, color, samples@) == Ok::<Seq<u8>, Seq<char>>(v@),
        },
{
    let img = match color {
        PngColor::L16 => ImageBuffer::from_raw(width, height, samples).map(ImageLuma16),
        PngColor::La16 => ImageBuffer::from_raw(width, height, samples).map(ImageLumaA16),
        PngColor::Rgb16 => ImageBuffer::from_raw(width, height, samples).map(ImageRgb16),
        _ => ImageBuffer::from_raw(width, height, samples).map(ImageRgba16),
    };
    let mut out = std::io::Cursor::new(Vec::new());
    match img.unwrap().write_to(&mut out, image::ImageFormat::Png) {
        Ok(()) => Ok(out.into_inner()),
        Err(err) => Err(format!("{}", err)),
    }
}

/// The PNG file of `img`, in its own layout, or the text of the encoding error.
pub fn encode_png(img: &PngImage) -> (r: Result<Vec<u8>, String>)
    requires
        img.wf(),
    ensures
        match png_file(img.width, img.height, img.color, img.samples@) {
            Ok(png) => r matches Ok(v) && v@ == png,
            Err(msg) => r matches Err(m) && m@ == msg,
        },
{
    if wide(img.color) {
        encode_png16(img.width, img.height, img.color, img.samples.clone())
    } else {
        let narrow = narrow_all(&img.samples);
        encode_png8(img.width, img.height, img.color, narrow)
    }
}

/// Sample `i` of pixel (`px`, `py`) of an image `w` pixels wide with `n`
/// samples per pixel sits at index `n * (py * w + px) + i`, and that index
/// gives the pixel and sample back.
pub proof fn lemma_pixel_index(n: int, w: int, px: int, py: int, i: int)
    requires
        1 <= n,
        0 <= px < w,
        0 <= py,
        0 <= i < n,
    ensures
        (n * (py * w + px) + i) / n == py * w + px,
        (n * (py * w + px) + i) % n == i,
        (py * w + px) % w == px,
        (py * w + px) / w == py,
{
    assert((py * w + px) * n == n * (py * w + px)) by (nonlinear_arith);
    lemma_fundamental_div_mod_converse(n * (py * w + px) + i, n, py * w + px, i);
    lemma_fundamental_div_mod_converse(py * w + px, w, py, px);
}

/// Reading a pixel of an 8-bit layout as RGBA and storing it back gives the
/// pixel as it was.
pub proof fn lemma_narrow_round_trip(color: PngColor, s: Seq<u16>, q: int, i: int)
    requires
        !is_wide(color),
        0 <= i < channels(color),
        0 <= channels(color) * q,
        channels(color) * q + channels(color) <= s.len(),
        forall|k: int| 0 <= k < s.len() ==> #[trigger] s[k] < 256,
    ensures
        native_sample(
            color,
            rgba_channel(color, s, q, 0),
            rgba_channel(color, s, q, 1),
            rgba_channel(color, s, q, 2),
            rgba_channel(color, s, q, 3),
            i,
        ) == s[channels(color) * q + i],
{
    let at = channels(color) * q;
    assert(s[at] < 256);
    assert(s[at + i] < 256);
    let l = s[at] as u8;
    assert((2126 * l + 7152 * l + 722 * l) / 10000 == l);
}

} // verus!
