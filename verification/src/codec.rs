//! PNG in and out: decoding a downloaded card image and encoding a bordered one.

use vstd::prelude::*;
use crate::error::{IoStage, PipelineError};
use crate::pixel::{Rgb8, Rgba8};
use crate::raster::{BorderedImage, Picture, SourceImage};
use image::{GenericImageView, ImageEncoder};

verus! {

#[verifier::external_type_specification]
#[verifier::external_body]
pub struct ExImageError(image::ImageError);

/// The picture that a PNG file's bytes decode to, with every pixel brought
/// to 8-bit RGBA; `None` where the bytes are no PNG file that can be decoded.
pub uninterp spec fn png_decoded(bytes: Seq<u8>) -> Option<Picture<Rgba8>>;

/// The bytes of the PNG file that holds an opaque picture; `None` where the
/// encoder refuses the picture.
pub uninterp spec fn png_encoded(picture: Picture<Rgb8>) -> Option<Seq<u8>>;

/// Calls `image::ImageReader::decode` on `bytes` with the format set to PNG,
/// and reads every pixel of the result with `GenericImageView::pixels`, row
/// by row. The contract claims that the outcome depends on the bytes alone.
#[verifier::external_body]
fn read_png(bytes: &[u8]) -> (res: Result<SourceImage, image::ImageError>)
    ensures
        res matches Ok(image) ==> png_decoded(bytes@) == Some(image@),
        res is Err ==> png_decoded(bytes@) is None,
{
    let reader = image::ImageReader::with_format(std::io::Cursor::new(bytes), image::ImageFormat::Png);
    let decoded = reader.decode()?;
    let pixels = decoded.pixels().map(|(_, _, p)| Rgba8 { r: p.0[0], g: p.0[1], b: p.0[2], a: p.0[3] });
    Ok(SourceImage { width: decoded.width(), height: decoded.height(), pixels: pixels.collect() })
}

/// Calls `image::codecs::png::PngEncoder::write_image` on the pixels of
/// `picture`, as 8-bit RGB, writing into memory. The contract claims that
/// the outcome depends on the picture alone.
#[verifier::external_body]
fn write_png(picture: &BorderedImage) -> (res: Result<Vec<u8>, image::ImageError>)
    ensures
        res matches Ok(bytes) ==> png_encoded(picture@) == Some(bytes@),
        res is Err ==> png_encoded(picture@) is None,
{
    let raw: Vec<u8> = picture.pixels.iter().flat_map(|p| [p.r, p.g, p.b]).collect();
    let mut out = Vec::new();
    let encoder = image::codecs::png::PngEncoder::new(&mut out);
    encoder.write_image(&raw, picture.width, picture.height, image::ExtendedColorType::Rgb8)?;
    Ok(out)
}

/// Decodes the bytes of a PNG file into a card image.
pub fn decode_png(bytes: &[u8]) -> (res: Result<SourceImage, PipelineError>)
    ensures
        png_decoded(bytes@) matches Some(picture) ==> res is Ok && res->Ok_0@ == picture,
        png_decoded(bytes@) is None ==> res is Err && res->Err_0 == (PipelineError::Io {
            stage: IoStage::Decode,
        }),
{
    match read_png(bytes) {
        Ok(image) => Ok(image),
        Err(_) => Err(PipelineError::Io { stage: IoStage::Decode }),
    }
}

/// Encodes a bordered image as the bytes of a PNG file.
pub fn encode_png(picture: &BorderedImage) -> (res: Result<Vec<u8>, PipelineError>)
    ensures
        png_encoded(picture@) matches Some(bytes) ==> res is Ok && res->Ok_0@ == bytes,
        png_encoded(picture@) is None ==> res is Err && res->Err_0 == (PipelineError::Io {
            stage: IoStage::Encode,
        }),
{
    match write_png(picture) {
        Ok(bytes) => Ok(bytes),
        Err(_) => Err(PipelineError::Io { stage: IoStage::Encode }),
    }
}

} // verus!
