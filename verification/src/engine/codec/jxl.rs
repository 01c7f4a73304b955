use crate::engine::codec::{Codec, EncodedOutput, Encoder, EngineError};
use crate::engine::params::{EncodeParams, ImageFormat};
use crate::engine::raw_image::RawImage;
use vstd::prelude::*;

verus! {

/// JPEG XL: jxl-oxide only decodes, so JPEG XL files are read (through the universal
/// decoder) and written in another format.
pub struct JxlEncoder;

impl Codec for JxlEncoder {
    fn name(&self) -> (r: &'static str)
        ensures
            r@ == "jxl-oxide (decode-only)"@,
    {
        "jxl-oxide (decode-only)"
    }

    fn formats(&self) -> (r: Vec<ImageFormat>)
        ensures
            r@ == seq![ImageFormat::Jxl],
    {
        let mut v = Vec::new();
        v.push(ImageFormat::Jxl);
        v
    }
}

impl Encoder for JxlEncoder {
    /// Always an error: the settings of another format are refused as such, JPEG XL
    /// settings as unsupported.
    fn encode(&self, image: &RawImage, params: &EncodeParams) -> (r: Result<
        EncodedOutput,
        EngineError,
    >)
        ensures
            !(params is Jxl) ==> r == Err::<EncodedOutput, EngineError>(
                EngineError::WrongParams { encoder: "JxlEncoder" },
            ),
            params is Jxl ==> r matches Err(EngineError::Unsupported { .. }),
    {
        match params {
            EncodeParams::Jxl { .. } => Err(
                EngineError::Unsupported {
                    what: "JPEG XL encoding is not yet supported. jxl-oxide is a decoder-only library. Please choose a different output format (JPEG, PNG, WebP, or AVIF).",
                },
            ),
            _ => Err(EngineError::WrongParams { encoder: "JxlEncoder" }),
        }
    }
}

} // verus!
