use deck_images::codec::{decode_png, encode_png};
use deck_images::compose::fill;
use deck_images::error::{IoStage, PipelineError};
use deck_images::pixel::{Rgb8, Rgba8};
use deck_images::raster::BorderedImage;

const SIGNATURE: [u8; 8] = [0x89, b'P', b'N', b'G', 0x0d, 0x0a, 0x1a, 0x0a];

fn png_of_rgba(width: u32, height: u32, pixel_at: fn(u32, u32) -> [u8; 4]) -> Vec<u8> {
    let img = image::RgbaImage::from_fn(width, height, |x, y| image::Rgba(pixel_at(x, y)));
    let mut out = std::io::Cursor::new(Vec::new());
    img.write_to(&mut out, image::ImageFormat::Png).unwrap();
    out.into_inner()
}

fn sample(x: u32, y: u32) -> [u8; 4] {
    [(x * 40) as u8, (y * 60) as u8, (x + y) as u8, (x * 50 + y * 5) as u8]
}

#[test]
fn decode_reads_every_pixel() {
    let png = png_of_rgba(4, 3, sample);
    let img = decode_png(&png).unwrap();
    assert_eq!((img.width(), img.height()), (4, 3));
    for y in 0..3 {
        for x in 0..4 {
            let [r, g, b, a] = sample(x, y);
            assert_eq!(img.pixel(x, y), Rgba8 { r, g, b, a });
        }
    }
}

#[test]
fn decode_brings_an_opaque_picture_to_rgba() {
    let img = image::RgbImage::from_fn(2, 2, |x, y| image::Rgb([x as u8 * 9, y as u8 * 7, 5]));
    let mut out = std::io::Cursor::new(Vec::new());
    img.write_to(&mut out, image::ImageFormat::Png).unwrap();
    let decoded = decode_png(&out.into_inner()).unwrap();
    assert_eq!(decoded.pixel(1, 0), Rgba8 { r: 9, g: 0, b: 5, a: 255 });
    assert_eq!(decoded.pixel(0, 1), Rgba8 { r: 0, g: 7, b: 5, a: 255 });
}

#[test]
fn decode_brings_a_gray_picture_to_rgba() {
    let img = image::GrayImage::from_fn(2, 1, |x, _| image::Luma([x as u8 * 200]));
    let mut out = std::io::Cursor::new(Vec::new());
    img.write_to(&mut out, image::ImageFormat::Png).unwrap();
    let decoded = decode_png(&out.into_inner()).unwrap();
    assert_eq!(decoded.pixel(0, 0), Rgba8 { r: 0, g: 0, b: 0, a: 255 });
    assert_eq!(decoded.pixel(1, 0), Rgba8 { r: 200, g: 200, b: 200, a: 255 });
}

#[test]
fn decode_refuses_what_is_no_png() {
    let err = Some(PipelineError::Io { stage: IoStage::Decode });
    assert_eq!(decode_png(&[]).err(), err);
    assert_eq!(decode_png(b"not a picture").err(), err);
    assert_eq!(decode_png(&SIGNATURE).err(), err);
    let mut cut = png_of_rgba(4, 3, sample);
    cut.truncate(cut.len() / 2);
    assert_eq!(decode_png(&cut).err(), err);
}

#[test]
fn encode_writes_a_png_file() {
    let bytes = encode_png(&fill(3, 2, Rgb8 { r: 1, g: 2, b: 3 })).unwrap();
    assert_eq!(&bytes[..8], &SIGNATURE);
    let back = image::load_from_memory_with_format(&bytes, image::ImageFormat::Png).unwrap();
    assert_eq!(back.color(), image::ColorType::Rgb8);
    assert_eq!((back.width(), back.height()), (3, 2));
}

#[test]
fn encode_then_decode_gives_the_pixels_back() {
    let mut pixels = Vec::new();
    for i in 0..12u8 {
        pixels.push(Rgb8 { r: i * 20, g: 255 - i, b: i });
    }
    let picture = BorderedImage::new(4, 3, pixels).unwrap();
    let decoded = decode_png(&encode_png(&picture).unwrap()).unwrap();
    assert_eq!((decoded.width(), decoded.height()), (4, 3));
    for y in 0..3 {
        for x in 0..4 {
            let p = picture.pixel(x, y);
            assert_eq!(decoded.pixel(x, y), Rgba8 { r: p.r, g: p.g, b: p.b, a: 255 });
        }
    }
}

#[test]
fn encode_is_the_same_every_time() {
    let picture = fill(16, 16, Rgb8 { r: 77, g: 88, b: 99 });
    let first = encode_png(&picture).unwrap();
    assert_eq!(encode_png(&picture).unwrap(), first);
    assert_eq!(encode_png(&fill(16, 16, Rgb8 { r: 77, g: 88, b: 99 })).unwrap(), first);
}

#[test]
fn encode_refuses_a_picture_without_pixels() {
    let res = encode_png(&fill(0, 0, Rgb8 { r: 0, g: 0, b: 0 }));
    assert_eq!(res.err(), Some(PipelineError::Io { stage: IoStage::Encode }));
}
