use crate::engine::codec::{Codec, EncodedOutput, Encoder, EngineError};
use crate::engine::params::{EncodeParams, ImageFormat};
use crate::engine::raw_image::RawImage;
use vstd::prelude::*;

verus! {

/// SVG optimiser slot (svgo needs a Node.js runtime, which this engine does not carry;
/// SVG inputs are written as PNG instead).
pub struct SvgOptimizer;

impl Codec for SvgOptimizer {
    fn name(&self) -> (r: &'static str)
        ensures
            r@ == "svgo"@,
    {
        "svgo"
    }

    fn formats(&self) -> (r: Vec<ImageFormat>)
        ensures
            r@ == seq![ImageFormat::Svg],
    {
        let mut v = Vec::new();
        v.push(ImageFormat::Svg);
        v
    }
}

impl Encoder for SvgOptimizer {
    /// Always an error: the settings of another format are refused as such, SVG settings
    /// as unsupported.
    fn encode(&self, image: &RawImage, params: &EncodeParams) -> (r: Result<
        EncodedOutput,
        EngineError,
    >)
        ensures
            !(params is Svg) ==> r == Err::<EncodedOutput, EngineError>(
                EngineError::WrongParams { encoder: "SvgOptimizer" },
            ),
            params is Svg ==> r matches Err(EngineError::Unsupported { .. }),
    {
        match params {
            EncodeParams::Svg { .. } => Err(
                EngineError::Unsupported { what: "SVG optimisation needs the svgo runtime, which is not available" },
            ),
            _ => Err(EngineError::WrongParams { encoder: "SvgOptimizer" }),
        }
    }
}

} // verus!
