use crate::engine::codec::imaging::{
    accept_decoded, decode_as, decode_guessed, decoded_by_name, decoded_pixels, same_shape, image_crate_format,
    well_decoded,
};
use crate::engine::codec::{Codec, Decoder, EngineError};
use crate::engine::params::ImageFormat;
use crate::engine::raw_image::{pixels_wf, RawImage};
use vstd::prelude::*;

verus! {

/// Decoder built on the `image` crate (JPEG, PNG, WebP, GIF, AVIF; other inputs are
/// recognised from their content).
pub struct UniversalDecoder;

impl Codec for UniversalDecoder {
    fn name(&self) -> (r: &'static str)
        ensures
            r@ == "image-rs"@,
    {
        "image-rs"
    }

    fn formats(&self) -> (r: Vec<ImageFormat>)
        ensures
            r@ == seq![ImageFormat::Jpeg, ImageFormat::Png, ImageFormat::WebP, ImageFormat::Gif],
    {
        let mut v = Vec::new();
        v.push(ImageFormat::Jpeg);
        v.push(ImageFormat::Png);
        v.push(ImageFormat::WebP);
        v.push(ImageFormat::Gif);
        v
    }
}

/// Whether the `image` crate is asked for the format directly (otherwise it guesses).
pub fn decoded_directly(f: ImageFormat) -> (r: bool)
    ensures
        r == image_crate_format(f),
{
    match f {
        ImageFormat::Jpeg | ImageFormat::Png | ImageFormat::WebP | ImageFormat::Gif
        | ImageFormat::Avif => true,
        _ => false,
    }
}

impl Decoder for UniversalDecoder {
    /// Decodes `data` as `source_format`, or, for formats the `image` crate does not
    /// name (JPEG XL, SVG), as whatever its content shows. The image keeps the source
    /// format, has no metadata and an empty path.
    fn decode(&self, data: &[u8], source_format: ImageFormat) -> (r: Result<
        RawImage,
        EngineError,
    >)
        ensures
            r matches Ok(img) ==> {
                &&& img.source_format == source_format
                &&& img.source_path@ == Seq::<char>::empty()
                &&& img.metadata.exif is None
                &&& img.metadata.icc_profile is None
                &&& img.metadata.xmp is None
                &&& pixels_wf(img.pixels@)
            },
            r matches Err(e) ==> e is Codec,
            decoded_by_name(source_format) ==> (r is Ok <==> well_decoded(
                decoded_pixels(data@, source_format),
            )),
            decoded_by_name(source_format) ==> (r matches Ok(img) ==> decoded_pixels(
                data@,
                source_format,
            ) == Some(img.pixels@)),
            source_format == ImageFormat::Jpeg ==> (r is Ok <==> decoded_pixels(data@, source_format)
                is Some),
            source_format == ImageFormat::Jpeg ==> (r matches Ok(img) ==> same_shape(
                decoded_pixels(data@, source_format)->0,
                img.pixels@,
            )),
            source_format == ImageFormat::Avif ==> r is Err,
    {
        let loaded = if decoded_directly(source_format) {
            decode_as(data, source_format)
        } else {
            decode_guessed(data)
        };
        match accept_decoded(loaded) {
            Ok(pixels) => Ok(RawImage::new(pixels, source_format, String::new())),
            Err(e) => Err(e),
        }
    }
}

} // verus!
