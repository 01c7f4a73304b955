use crate::engine::codec::EngineError;
use crate::engine::preprocess::Preprocessor;
use crate::engine::raw_image::RawImage;
use vstd::prelude::*;

verus! {

/// Palette quantisation for lossy PNG (imagequant). imagequant is not part of this
/// engine, so the step reports that it is unavailable.
pub struct PaletteQuantizer {
    pub quality: u8,
}

impl PaletteQuantizer {
    pub fn new(quality: u8) -> (r: Self)
        ensures
            r.quality == quality,
    {
        PaletteQuantizer { quality }
    }
}

impl Preprocessor for PaletteQuantizer {
    fn name(&self) -> (r: &'static str)
        ensures
            r@ == "imagequant"@,
    {
        "imagequant"
    }

    fn process(&self, image: RawImage) -> (r: Result<RawImage, EngineError>)
        ensures
            r matches Err(EngineError::Unsupported { .. }),
    {
        Err(EngineError::Unsupported { what: "palette quantisation (imagequant) is not available" })
    }
}

} // verus!
