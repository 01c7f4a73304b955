use crate::engine::codec::imaging::{gif_writable, image_crate_gif, write_to_format};
use crate::engine::codec::{lemma_detects_gif, check_encodable, encodable, encoded_output, Codec, EncodedOutput, Encoder, EngineError};
use crate::engine::params::{format_of_magic, EncodeParams, ImageFormat};
use crate::engine::raw_image::RawImage;
use vstd::prelude::*;

verus! {

/// GIF encoder: a single frame written by the `image` crate's GIF encoder (gifski is
/// meant for animations built from frame sequences).
pub struct GifEncoder;

impl Codec for GifEncoder {
    fn name(&self) -> (r: &'static str)
        ensures
            r@ == "gif"@,
    {
        "gif"
    }

    fn formats(&self) -> (r: Vec<ImageFormat>)
        ensures
            r@ == seq![ImageFormat::Gif],
    {
        let mut v = Vec::new();
        v.push(ImageFormat::Gif);
        v
    }
}

impl Encoder for GifEncoder {
    /// The quality and speed settings are accepted and not used.
    fn encode(&self, image: &RawImage, params: &EncodeParams) -> (r: Result<
        EncodedOutput,
        EngineError,
    >)
        ensures
            !(params is Gif) ==> r == Err::<EncodedOutput, EngineError>(
                EngineError::WrongParams { encoder: "GifEncoder" },
            ),
            params is Gif && !encodable(image) ==> r is Err,
            params is Gif && encodable(image) ==> (r is Ok || r matches Err(EngineError::Codec { .. })),
            params is Gif && encodable(image) && gif_writable(image.pixels@) ==> (r matches Ok(out)
                && out.data@ == image_crate_gif(image.pixels@)),
            r matches Ok(out) ==> out.format == ImageFormat::Gif && out.data@
                == image_crate_gif(image.pixels@),
            r matches Ok(out) ==> format_of_magic(out.data@) == Some(out.format),
    {
        match params {
            EncodeParams::Gif { .. } => {},
            _ => {
                return Err(EngineError::WrongParams { encoder: "GifEncoder" });
            },
        }
        if !check_encodable(image) {
            return Err(EngineError::InvalidInput { what: "pixel buffer does not match the image size" });
        }
        let encoded = write_to_format(&image.pixels, ImageFormat::Gif);
        proof {
            if encoded is Ok {
                let v = encoded->Ok_0;
                lemma_detects_gif(v@);
            }
        }
        encoded_output(encoded, ImageFormat::Gif, "GIF encoding")
    }
}

} // verus!
