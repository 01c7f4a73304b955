use crate::engine::codec::EngineError;
use crate::engine::preprocess::Preprocessor;
use crate::engine::raw_image::RawImage;
use vstd::prelude::*;

verus! {

/// Colour-space conversion step; the engine's pixels stay in RGB, so the image passes
/// through unchanged.
pub struct ColorConverter;

impl Preprocessor for ColorConverter {
    fn name(&self) -> (r: &'static str)
        ensures
            r@ == "color-convert"@,
    {
        "color-convert"
    }

    fn process(&self, image: RawImage) -> (r: Result<RawImage, EngineError>)
        ensures
            r == Ok::<RawImage, EngineError>(image),
    {
        Ok(image)
    }
}

} // verus!
