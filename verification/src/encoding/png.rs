//! PNG encoding of a raster.

use image::{ExtendedColorType, ImageError, ImageFormat};
use std::io::Cursor;
use vstd::prelude::*;
use crate::renderer::raster::Raster;

verus! {

/// The error type of the `image` crate.
#[verifier::external_type_specification]
#[verifier::external_body]
pub struct ExImageError(ImageError);

/// The PNG file that the `image` crate writes for a raster of `width` by
/// `height` pixels of 8-bit red, green, blue and alpha.
pub uninterp spec fn png_bytes(width: u32, height: u32, pixels: Seq<u8>) -> Seq<u8>;

/// Why a raster could not be encoded.
#[derive(Debug, Clone)]
pub struct EncodeError {
    /// What the encoder reported.
    pub message: String,
}

/// `image::write_buffer_with_format` for 8-bit RGBA pixels and the PNG
/// format, into an empty buffer in memory. It refuses a raster without
/// pixels, of width or height zero, and writes every other; the buffer then
/// holds the PNG file of the raster, which depends on the size and the pixels
/// alone. The crate panics where the pixels are not four bytes for each pixel
/// of the size given.
#[verifier::external_body]
fn write_png(pixels: &[u8], width: u32, height: u32) -> (r: Result<Vec<u8>, ImageError>)
    requires
        pixels@.len() == width * height * 4,
    ensures
        r is Ok <==> (width > 0 && height > 0),
        r matches Ok(bytes) ==> bytes@ == png_bytes(width, height, pixels@),
{
    let mut buffer: Vec<u8> = Vec::new();
    image::write_buffer_with_format(
        &mut Cursor::new(&mut buffer),
        pixels,
        width,
        height,
        ExtendedColorType::Rgba8,
        ImageFormat::Png,
    )?;
    Ok(buffer)
}

/// The text that `image::ImageError` displays.
#[verifier::external_body]
fn describe(error: &ImageError) -> String {
    format!("{}", error)
}

/// What the encoder's answer becomes: the file that it wrote, unchanged, or
/// an error with the text of what it reported.
pub fn encoded(written: Result<Vec<u8>, ImageError>) -> (r: Result<Vec<u8>, EncodeError>)
    ensures
        match written {
            Ok(bytes) => r matches Ok(file) && file == bytes,
            Err(_) => r is Err,
        },
{
    match written {
        Ok(bytes) => Ok(bytes),
        Err(error) => Err(EncodeError { message: describe(&error) }),
    }
}

/// Encodes the raster as a PNG file. A raster without pixels, of width or
/// height zero, has no PNG file and is an error.
pub fn encode_png(image: &Raster) -> (r: Result<Vec<u8>, EncodeError>)
    ensures
        r is Ok <==> (image@.width > 0 && image@.height > 0),
        r matches Ok(bytes) ==> bytes@ == png_bytes(
            image@.width,
            image@.height,
            image@.pixels,
        ),
{
    let pixels: &Vec<u8> = image.as_raw();
    encoded(write_png(pixels.as_slice(), image.width(), image.height()))
}

} // verus!
