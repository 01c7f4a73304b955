use crate::engine::codec::imaging::write_to_format;
use crate::engine::codec::{lemma_detects_png, check_encodable, encodable, encoded_output, Codec, EncodedOutput, Encoder, EngineError};
use crate::engine::params::{format_of_magic, EncodeParams, ImageFormat};
use crate::engine::raw_image::RawImage;
use vstd::prelude::*;

verus! {

/// PNG encoder. The pixels are written by the `image` crate's PNG encoder; the lossy
/// and optimisation-level settings are accepted and not used.
pub struct OxipngEncoder;

impl Codec for OxipngEncoder {
    fn name(&self) -> (r: &'static str)
        ensures
            r@ == "oxipng"@,
    {
        "oxipng"
    }

    fn formats(&self) -> (r: Vec<ImageFormat>)
        ensures
            r@ == seq![ImageFormat::Png],
    {
        let mut v = Vec::new();
        v.push(ImageFormat::Png);
        v
    }
}

impl Encoder for OxipngEncoder {
    fn encode(&self, image: &RawImage, params: &EncodeParams) -> (r: Result<
        EncodedOutput,
        EngineError,
    >)
        ensures
            !(params is Png) ==> r == Err::<EncodedOutput, EngineError>(
                EngineError::WrongParams { encoder: "OxipngEncoder" },
            ),
            params is Png && !encodable(image) ==> r is Err,
            params is Png && encodable(image) ==> (r is Ok || r matches Err(EngineError::Codec { .. })),
            params is Png && encodable(image) && image.pixels.width >= 1 && image.pixels.height >= 1
                ==> r is Ok,
            r matches Ok(out) ==> out.format == ImageFormat::Png,
            r matches Ok(out) ==> format_of_magic(out.data@) == Some(out.format),
    {
        match params {
            EncodeParams::Png { .. } => {},
            _ => {
                return Err(EngineError::WrongParams { encoder: "OxipngEncoder" });
            },
        }
        if !check_encodable(image) {
            return Err(EngineError::InvalidInput { what: "pixel buffer does not match the image size" });
        }
        let encoded = write_to_format(&image.pixels, ImageFormat::Png);
        proof {
            if encoded is Ok {
                let v = encoded->Ok_0;
                lemma_detects_png(v@);
            }
        }
        encoded_output(encoded, ImageFormat::Png, "PNG encoding")
    }
}

} // verus!
