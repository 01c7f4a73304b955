use crate::engine::codec::{lemma_detects_jpeg, check_encodable, encodable, encoded_output, Codec, EncodedOutput, Encoder, EngineError};
use crate::engine::params::{format_of_magic, EncodeParams, ImageFormat};
use crate::engine::raw_image::{PixelLayout, RawImage};
use vstd::prelude::*;

verus! {

/// JPEG encoder built on mozjpeg-rs.
pub struct MozjpegEncoder;

/// Bytes that open with the JPEG start-of-image marker FF D8 and the JFIF APP0 marker
/// FF E0.
pub open spec fn starts_with_soi(v: Seq<u8>) -> bool {
    v.len() >= 4 && v[0] == 0xFFu8 && v[1] == 0xD8u8 && v[2] == 0xFFu8 && v[3] == 0xE0u8
}

/// Calls `mozjpeg_rs::Encoder::new(preset).quality(q).encode_rgb` with the
/// progressive or the baseline balanced preset. The source rejects zero dimensions and
/// a buffer that is not three bytes per pixel, and its marker writer starts the empty
/// output with the start-of-image marker and the JFIF APP0 marker. Nothing more is claimed of the bytes: the
/// crate picks vector code by the processor it runs on.
#[verifier::external_body]
fn mozjpeg_rgb(rgb: &[u8], width: u32, height: u32, quality: u8, progressive: bool) -> (r: Result<
    Vec<u8>,
    String,
>)
    ensures
        width == 0 || height == 0 || rgb@.len() != width * height * 3 ==> r is Err,
        r matches Ok(v) ==> starts_with_soi(v@),
{
    let preset = if progressive {
        mozjpeg_rs::Preset::ProgressiveBalanced
    } else {
        mozjpeg_rs::Preset::BaselineBalanced
    };
    mozjpeg_rs::Encoder::new(preset).quality(quality).encode_rgb(rgb, width, height).map_err(|e| format!("{e}"))
}

/// Calls `mozjpeg_rs::Encoder::new(preset).quality(q).encode_gray` with the
/// progressive or the baseline balanced preset. The source rejects zero dimensions and
/// a buffer that is not one byte per pixel, and its marker writer starts the empty
/// output with the start-of-image marker and the JFIF APP0 marker. Nothing more is claimed of the bytes.
#[verifier::external_body]
fn mozjpeg_gray(gray: &[u8], width: u32, height: u32, quality: u8, progressive: bool) -> (r: Result<
    Vec<u8>,
    String,
>)
    ensures
        width == 0 || height == 0 || gray@.len() != width * height ==> r is Err,
        r matches Ok(v) ==> starts_with_soi(v@),
{
    let preset = if progressive {
        mozjpeg_rs::Preset::ProgressiveBalanced
    } else {
        mozjpeg_rs::Preset::BaselineBalanced
    };
    mozjpeg_rs::Encoder::new(preset).quality(quality).encode_gray(gray, width, height).map_err(|e| format!("{e}"))
}

impl Codec for MozjpegEncoder {
    fn name(&self) -> (r: &'static str)
        ensures
            r@ == "mozjpeg-rs"@,
    {
        "mozjpeg-rs"
    }

    fn formats(&self) -> (r: Vec<ImageFormat>)
        ensures
            r@ == seq![ImageFormat::Jpeg],
    {
        let mut v = Vec::new();
        v.push(ImageFormat::Jpeg);
        v
    }
}

impl Encoder for MozjpegEncoder {
    /// Grey images are encoded as greyscale, all others as RGB (alpha dropped).
    fn encode(&self, image: &RawImage, params: &EncodeParams) -> (r: Result<
        EncodedOutput,
        EngineError,
    >)
        ensures
            !(params is Jpeg) ==> r == Err::<EncodedOutput, EngineError>(
                EngineError::WrongParams { encoder: "MozjpegEncoder" },
            ),
            params is Jpeg && !encodable(image) ==> r is Err,
            params is Jpeg && (image.pixels.width == 0 || image.pixels.height == 0) ==> r is Err,
            params is Jpeg && encodable(image) ==> (r is Ok || r matches Err(EngineError::Codec { .. })),
            r matches Ok(out) ==> out.format == ImageFormat::Jpeg && starts_with_soi(out.data@),
            r matches Ok(out) ==> format_of_magic(out.data@) == Some(out.format),
    {
        let (quality, progressive) = match params {
            EncodeParams::Jpeg { quality, progressive } => (*quality, *progressive),
            _ => {
                return Err(EngineError::WrongParams { encoder: "MozjpegEncoder" });
            },
        };
        if !check_encodable(image) {
            return Err(EngineError::InvalidInput { what: "pixel buffer does not match the image size" });
        }
        let w = image.pixels.width;
        let h = image.pixels.height;
        let encoded = match image.pixels.layout {
            PixelLayout::Luma8 => mozjpeg_gray(image.pixels.data.as_slice(), w, h, quality, progressive),
            _ => {
                let rgb = image.pixels.to_rgb8();
                mozjpeg_rgb(rgb.as_slice(), w, h, quality, progressive)
            },
        };
        proof {
            if encoded is Ok {
                let v = encoded->Ok_0;
                lemma_detects_jpeg(v@);
            }
        }
        encoded_output(encoded, ImageFormat::Jpeg, "JPEG encoding")
    }
}

} // verus!
