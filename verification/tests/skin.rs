use diamond_dagger::api::Status;
use diamond_dagger::png::{decode_png, encode_png, PngColor, PngImage};
use diamond_dagger::skin_creation::{
    base_skin_path, crop, decode_skin, diamondagify, lay_band, DiamondagifyAction,
    DiamondagifyEvent, DiamondagifyState, SkinImage,
};

fn image(width: u32, height: u32, f: impl Fn(u32, u32) -> [u8; 4]) -> SkinImage {
    let mut pixels = Vec::new();
    for y in 0..height {
        for x in 0..width {
            pixels.extend_from_slice(&f(x, y));
        }
    }
    SkinImage::from_rgba(width, height, pixels).unwrap()
}

fn pixel(img: &SkinImage, x: u32, y: u32) -> [u8; 4] {
    let i = 4 * (y * img.width + x) as usize;
    [img.pixels[i], img.pixels[i + 1], img.pixels[i + 2], img.pixels[i + 3]]
}

#[test]
fn from_rgba_checks_the_buffer() {
    assert!(SkinImage::from_rgba(2, 2, vec![0; 16]).is_some());
    assert!(SkinImage::from_rgba(2, 2, vec![0; 15]).is_none());
    assert!(SkinImage::from_rgba(0, 5, vec![]).is_some());
}

#[test]
fn crop_takes_the_rectangle() {
    let img = image(4, 3, |x, y| [x as u8, y as u8, 7, 255]);
    let c = crop(&img, 1, 1, 2, 2);
    assert_eq!((c.width, c.height), (2, 2));
    assert_eq!(pixel(&c, 0, 0), [1, 1, 7, 255]);
    assert_eq!(pixel(&c, 1, 1), [2, 2, 7, 255]);
}

#[test]
fn crop_is_cut_back_to_the_image() {
    let img = image(4, 3, |x, y| [x as u8, y as u8, 0, 255]);
    let c = crop(&img, 2, 0, 64, 16);
    assert_eq!((c.width, c.height), (2, 3));
    assert_eq!(pixel(&c, 1, 2), [3, 2, 0, 255]);
    let outside = crop(&img, 10, 10, 5, 5);
    assert_eq!((outside.width, outside.height), (0, 0));
    assert!(outside.pixels.is_empty());
}

fn encode(img: &SkinImage) -> Vec<u8> {
    let buffer = image::RgbaImage::from_raw(img.width, img.height, img.pixels.clone()).unwrap();
    let mut out = std::io::Cursor::new(Vec::new());
    image::DynamicImage::ImageRgba8(buffer).write_to(&mut out, image::ImageFormat::Png).unwrap();
    out.into_inner()
}

fn png_image(color: PngColor, width: u32, height: u32, f: impl Fn(u32, u32) -> Vec<u16>) -> PngImage {
    let mut samples = Vec::new();
    for y in 0..height {
        for x in 0..width {
            samples.extend(f(x, y));
        }
    }
    PngImage { color, width, height, samples }
}

fn rgba_base(width: u32, height: u32, f: impl Fn(u32, u32) -> [u8; 4]) -> PngImage {
    png_image(PngColor::Rgba8, width, height, |x, y| f(x, y).iter().map(|&v| v as u16).collect())
}

fn samples_at(img: &PngImage, n: usize, x: u32, y: u32) -> Vec<u16> {
    let i = n * (y * img.width + x) as usize;
    img.samples[i..i + n].to_vec()
}

#[test]
fn band_blends_opaque_and_keeps_transparent_pixels() {
    let base = rgba_base(3, 3, |_, _| [10, 20, 30, 255]);
    let band = image(2, 1, |x, _| if x == 0 { [200, 0, 0, 255] } else { [0, 200, 0, 0] });
    let out = lay_band(&base, &band);
    assert_eq!(samples_at(&out, 4, 0, 0), vec![200, 0, 0, 255]);
    assert_eq!(samples_at(&out, 4, 1, 0), vec![10, 20, 30, 255]);
    assert_eq!(samples_at(&out, 4, 2, 2), vec![10, 20, 30, 255]);
    assert_eq!((out.width, out.height, out.samples.len()), (3, 3, 36));
}

#[test]
fn band_on_an_rgb_base_stays_rgb() {
    let base = png_image(PngColor::Rgb8, 4, 2, |_, _| vec![10, 20, 30]);
    let band = image(2, 2, |x, _| if x == 0 { [200, 100, 50, 255] } else { [0, 0, 0, 0] });
    let out = lay_band(&base, &band);
    assert_eq!(out.color, PngColor::Rgb8);
    assert_eq!(out.samples.len(), 3 * 4 * 2);
    assert_eq!(samples_at(&out, 3, 0, 1), vec![200, 100, 50]);
    assert_eq!(samples_at(&out, 3, 1, 1), vec![10, 20, 30]);
    assert_eq!(samples_at(&out, 3, 3, 0), vec![10, 20, 30]);
}

#[test]
fn band_on_a_grey_base_keeps_the_luminance() {
    let base = png_image(PngColor::L8, 2, 1, |_, _| vec![77]);
    let band = image(1, 1, |_, _| [255, 0, 0, 255]);
    let out = lay_band(&base, &band);
    // (2126 * 255) / 10000 = 54
    assert_eq!(out.samples, vec![54, 77]);
}

#[test]
fn band_on_a_wide_base_keeps_the_samples_it_does_not_cover() {
    let base = png_image(PngColor::Rgba16, 3, 1, |_, _| vec![1000, 2000, 3000, 65535]);
    let band = image(2, 1, |x, _| if x == 0 { [255, 1, 0, 255] } else { [9, 9, 9, 0] });
    let out = lay_band(&base, &band);
    assert_eq!(out.color, PngColor::Rgba16);
    assert_eq!(samples_at(&out, 4, 0, 0), vec![65535, 257, 0, 65535]);
    // read as 8 bits ((v + 128) / 257) and stored back (* 257)
    assert_eq!(samples_at(&out, 4, 1, 0), vec![4 * 257, 8 * 257, 12 * 257, 65535]);
    assert_eq!(samples_at(&out, 4, 2, 0), vec![1000, 2000, 3000, 65535]);
}

#[test]
fn png_decoding() {
    let img = image(5, 4, |x, y| [x as u8 * 10, y as u8 * 20, 3, 200]);
    let png = encode(&img);
    assert_eq!(&png[1..4], b"PNG");
    let back = decode_skin(&png).unwrap();
    assert_eq!((back.width, back.height), (5, 4));
    assert_eq!(back.pixels, img.pixels);
    assert!(decode_skin(b"definitely not an image").is_none());
}

#[test]
fn head_band_is_laid_over_the_base() {
    let base = rgba_base(64, 64, |_, _| [1, 2, 3, 255]);
    let skin = image(64, 64, |x, y| if y < 16 { [x as u8, y as u8, 9, 255] } else { [99, 99, 99, 255] });
    let out = lay_band(&base, &crop(&skin, 0, 0, 64, 16));
    assert_eq!((out.width, out.height), (64, 64));
    assert_eq!(samples_at(&out, 4, 5, 7), vec![5, 7, 9, 255]);
    assert_eq!(samples_at(&out, 4, 63, 15), vec![63, 15, 9, 255]);
    assert_eq!(samples_at(&out, 4, 5, 16), vec![1, 2, 3, 255]);
    assert_eq!(samples_at(&out, 4, 40, 63), vec![1, 2, 3, 255]);
}

#[test]
fn narrow_skin_leaves_the_rest_of_the_band_area() {
    let base = rgba_base(64, 32, |_, _| [1, 2, 3, 255]);
    let skin = image(8, 4, |_, _| [200, 200, 200, 255]);
    let out = lay_band(&base, &crop(&skin, 0, 0, 64, 16));
    assert_eq!(samples_at(&out, 4, 7, 3), vec![200, 200, 200, 255]);
    assert_eq!(samples_at(&out, 4, 8, 0), vec![1, 2, 3, 255]);
    assert_eq!(samples_at(&out, 4, 0, 4), vec![1, 2, 3, 255]);
}

#[test]
fn transparent_band_keeps_the_base() {
    let base = rgba_base(64, 32, |x, y| [x as u8, y as u8, 1, 255]);
    let skin = image(64, 32, |_, _| [0, 0, 0, 0]);
    let out = lay_band(&base, &crop(&skin, 0, 0, 64, 16));
    assert_eq!(out.samples, base.samples);
}

fn encode_layout(img: image::DynamicImage) -> Vec<u8> {
    let mut out = std::io::Cursor::new(Vec::new());
    img.write_to(&mut out, image::ImageFormat::Png).unwrap();
    out.into_inner()
}

#[test]
fn png_layouts_decode_as_they_are() {
    let rgb = image::RgbImage::from_raw(2, 1, vec![1, 2, 3, 4, 5, 6]).unwrap();
    let img = decode_png(&encode_layout(image::DynamicImage::ImageRgb8(rgb))).unwrap();
    assert_eq!((img.color, img.width, img.height), (PngColor::Rgb8, 2, 1));
    assert_eq!(img.samples, vec![1, 2, 3, 4, 5, 6]);
    let grey16 = image::ImageBuffer::<image::Luma<u16>, Vec<u16>>::from_raw(1, 2, vec![300, 60000]).unwrap();
    let img = decode_png(&encode_layout(image::DynamicImage::ImageLuma16(grey16))).unwrap();
    assert_eq!(img.color, PngColor::L16);
    assert_eq!(img.samples, vec![300, 60000]);
    assert!(decode_png(b"not a png").is_err());
}

#[test]
fn png_encoding_keeps_the_layout() {
    for (color, samples) in [
        (PngColor::La8, vec![10u16, 20, 30, 40]),
        (PngColor::Rgb16, vec![1, 2, 3, 65535, 0, 7]),
        (PngColor::La16, vec![500, 600, 700, 800]),
    ] {
        let img = PngImage { color, width: 2, height: 1, samples: samples.clone() };
        let back = decode_png(&encode_png(&img).unwrap()).unwrap();
        assert_eq!((back.color, back.width, back.height), (color, 2, 1));
        assert_eq!(back.samples, samples);
    }
}

#[test]
fn diamondagify_steps() {
    assert_eq!(base_skin_path(), "./diamonddagger.png");
    let (s, a) = diamondagify("u", DiamondagifyState::ReadingBase, DiamondagifyEvent::Started);
    assert!(matches!(s, DiamondagifyState::ReadingBase));
    assert!(matches!(a, DiamondagifyAction::Read(p) if p == "./diamonddagger.png"));
    let base = image::RgbImage::from_raw(64, 64, vec![1; 3 * 64 * 64]).unwrap();
    let base = encode_layout(image::DynamicImage::ImageRgb8(base));
    let (s, a) = diamondagify("u", s, DiamondagifyEvent::FileRead(Ok(base)));
    assert!(matches!(a, DiamondagifyAction::Read(ref p) if p == "./skins/cache/u.png"));
    let skin = encode(&image(64, 64, |_, _| [200, 0, 0, 255]));
    let (s, a) = diamondagify("u", s, DiamondagifyEvent::FileRead(Ok(skin)));
    match a {
        DiamondagifyAction::Write(png, p) => {
            assert_eq!(p, "./skins/modified/u.png");
            let img = decode_png(&png).unwrap();
            assert_eq!(img.color, PngColor::Rgb8);
            assert_eq!(&img.samples[0..3], &[200, 0, 0]);
            let below = 3 * (20 * 64) as usize;
            assert_eq!(&img.samples[below..below + 3], &[1, 1, 1]);
        }
        _ => panic!(),
    }
    let (s, a) = diamondagify("u", s, DiamondagifyEvent::Written(Ok(())));
    assert!(matches!(s, DiamondagifyState::Done));
    assert!(matches!(a, DiamondagifyAction::Finish(Ok(p)) if p == "./skins/modified/u.png"));
}

#[test]
fn diamondagify_failures() {
    let (s, a) = diamondagify(
        "u",
        DiamondagifyState::ReadingBase,
        DiamondagifyEvent::FileRead(Err("No such file or directory (os error 2)".to_string())),
    );
    assert!(matches!(s, DiamondagifyState::Done));
    match a {
        DiamondagifyAction::Finish(Err(e)) => {
            assert_eq!(e.0, "No such file or directory (os error 2)");
            assert_eq!(e.1, Status::InternalServerError);
        }
        _ => panic!(),
    }
    let (_, a) = diamondagify(
        "u",
        DiamondagifyState::ReadingBase,
        DiamondagifyEvent::FileRead(Ok(b"not a png".to_vec())),
    );
    assert!(matches!(a, DiamondagifyAction::Finish(Err(e)) if !e.0.is_empty() && e.1 == Status::InternalServerError));
    let (_, a) = diamondagify("u", DiamondagifyState::Writing, DiamondagifyEvent::Written(Err("disk full".to_string())));
    assert!(matches!(a, DiamondagifyAction::Finish(Err(e)) if e.0 == "disk full"));
}

#[test]
fn png_decoding_ignores_the_guessed_format() {
    let bmp = {
        let buffer = image::RgbaImage::from_raw(1, 1, vec![1, 2, 3, 255]).unwrap();
        let mut out = std::io::Cursor::new(Vec::new());
        image::DynamicImage::ImageRgba8(buffer).write_to(&mut out, image::ImageFormat::Bmp).unwrap();
        out.into_inner()
    };
    assert!(decode_skin(&bmp).is_some());
    assert!(decode_png(&bmp).is_err());
}
