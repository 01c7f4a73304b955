pub mod color;
pub mod metadata;
pub mod quantize;
pub mod resize;

use crate::engine::codec::EngineError;
use crate::engine::raw_image::RawImage;
use vstd::prelude::*;

verus! {

/// A step between decoding and encoding: takes the image and hands back the processed
/// one. The pipeline runs its steps in order; GPU and CPU steps share this trait.
pub trait Preprocessor {
    /// The step's name.
    fn name(&self) -> &'static str;

    /// What the step promises of its answer `r` for `image`; nothing, unless the step
    /// states more.
    open spec fn process_post(&self, image: RawImage, r: Result<RawImage, EngineError>) -> bool {
        true
    }

    /// Runs the step.
    fn process(&self, image: RawImage) -> (r: Result<RawImage, EngineError>)
        ensures
            self.process_post(image, r),
    ;
}

} // verus!
