use crate::engine::codec::imaging::{to_dynamic, write_avif};
use crate::engine::codec::{check_encodable, encodable, encoded_output, Codec, EncodedOutput, Encoder, EngineError};
use crate::engine::params::{format_of_magic, EncodeParams, ImageFormat};
use crate::engine::raw_image::RawImage;
use vstd::prelude::*;

verus! {

/// AVIF encoder: ravif (rav1e) through the `image` crate.
pub struct AvifEncoder;

impl Codec for AvifEncoder {
    fn name(&self) -> (r: &'static str)
        ensures
            r@ == "ravif"@,
    {
        "ravif"
    }

    fn formats(&self) -> (r: Vec<ImageFormat>)
        ensures
            r@ == seq![ImageFormat::Avif],
    {
        let mut v = Vec::new();
        v.push(ImageFormat::Avif);
        v
    }
}

impl Encoder for AvifEncoder {
    /// Quality and speed run from 1; the encoder caps them at 100 and 10.
    fn encode(&self, image: &RawImage, params: &EncodeParams) -> (r: Result<
        EncodedOutput,
        EngineError,
    >)
        ensures
            !(params is Avif) ==> r == Err::<EncodedOutput, EngineError>(
                EngineError::WrongParams { encoder: "AvifEncoder" },
            ),
            params is Avif && !encodable(image) ==> r is Err,
            params matches EncodeParams::Avif { quality, speed } && (quality == 0 || speed == 0)
                ==> r is Err,
            params matches EncodeParams::Avif { quality, speed } && encodable(image) && quality >= 1
                && speed >= 1 ==> (r is Ok || r matches Err(EngineError::Codec { .. })),
            r matches Ok(out) ==> out.format == ImageFormat::Avif,
            r matches Ok(out) ==> format_of_magic(out.data@) == Some(out.format),
    {
        let (quality, speed) = match params {
            EncodeParams::Avif { quality, speed } => (*quality, *speed),
            _ => {
                return Err(EngineError::WrongParams { encoder: "AvifEncoder" });
            },
        };
        if !check_encodable(image) {
            return Err(EngineError::InvalidInput { what: "pixel buffer does not match the image size" });
        }
        if quality == 0 || speed == 0 {
            return Err(EngineError::InvalidInput { what: "AVIF quality and speed start at 1" });
        }
        let img = to_dynamic(&image.pixels);
        let encoded = write_avif(&img, speed, quality);
        encoded_output(encoded, ImageFormat::Avif, "AVIF encoding")
    }
}

} // verus!
