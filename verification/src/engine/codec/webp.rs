use crate::engine::codec::{check_encodable, encodable, encoded_output, Codec, EncodedOutput, Encoder, EngineError};
use crate::engine::params::{format_of_magic, EncodeParams, ImageFormat};
use crate::engine::raw_image::{rgba_samples, RawImage};
use vstd::prelude::*;

verus! {

/// WebP encoder: lossy through libwebp (the `webp` crate) with quality control, lossless
/// through the pure-Rust VP8L encoder of `image-webp`.
pub struct WebpEncoder;

/// The largest width or height that a WebP file can record.
pub const WEBP_MAX_SIDE: u32 = 16384;

/// The lossless WebP file that `image-webp` writes for RGBA samples.
pub uninterp spec fn webp_lossless_encoding(rgba: Seq<u8>, width: u32, height: u32) -> Seq<u8>;

/// Sides that a WebP file can record: from 1 to 16384 pixels.
pub open spec fn webp_sides_ok(width: u32, height: u32) -> bool {
    1 <= width <= WEBP_MAX_SIDE && 1 <= height <= WEBP_MAX_SIDE
}

/// Whether bytes open a simple WebP container: "RIFF", a four-byte size, "WEBP".
pub open spec fn webp_header(v: Seq<u8>) -> bool {
    &&& v.len() >= 12
    &&& v.subrange(0, 4) == seq![0x52u8, 0x49u8, 0x46u8, 0x46u8]
    &&& v.subrange(8, 12) == seq![0x57u8, 0x45u8, 0x42u8, 0x50u8]
}

/// Calls `image_webp::WebPEncoder::new(&mut buf).encode(rgba, w, h, ColorType::Rgba8)`.
/// The source asserts that the buffer holds four bytes per pixel, refuses a side of zero
/// or over 16384 and otherwise fails only when writing fails (never, into a `Vec`), and,
/// with no metadata set, writes "RIFF", the size, "WEBP" and the VP8L chunk. The bytes
/// are named `webp_lossless_encoding`.
#[verifier::external_body]
fn webp_lossless(rgba: &[u8], width: u32, height: u32) -> (r: Result<Vec<u8>, String>)
    requires
        rgba@.len() == width * height * 4,
    ensures
        width == 0 || height == 0 || width > WEBP_MAX_SIDE || height > WEBP_MAX_SIDE ==> r is Err,
        webp_sides_ok(width, height) ==> r is Ok,
        r matches Ok(v) ==> v@ == webp_lossless_encoding(rgba@, width, height) && webp_header(v@),
{
    let mut buf = Vec::new();
    image_webp::WebPEncoder::new(&mut buf).encode(rgba, width, height, image_webp::ColorType::Rgba8)
        .map(|_| buf).map_err(|e| format!("{e}"))
}

/// Calls `webp::Encoder::from_rgba(rgba, w, h).encode_simple(false, quality)` (libwebp).
/// `from_rgba` panics on a buffer shorter than four bytes per pixel; the sides are kept
/// small enough for the crate's `i32` stride. The crate takes the quality as a float, to
/// which the integer converts exactly. Nothing is claimed of the bytes: libwebp picks
/// vector code by the processor it runs on.
#[verifier::external_body]
fn webp_lossy(rgba: &[u8], width: u32, height: u32, quality: u8) -> (r: Result<Vec<u8>, String>)
    requires
        rgba@.len() == width * height * 4,
        width <= WEBP_MAX_SIDE,
        height <= WEBP_MAX_SIDE,
{
    webp::Encoder::from_rgba(rgba, width, height).encode_simple(false, quality.into())
        .map(|m| m.to_vec()).map_err(|e| format!("{e:?}"))
}

impl Codec for WebpEncoder {
    fn name(&self) -> (r: &'static str)
        ensures
            r@ == "webp"@,
    {
        "webp"
    }

    fn formats(&self) -> (r: Vec<ImageFormat>)
        ensures
            r@ == seq![ImageFormat::WebP],
    {
        let mut v = Vec::new();
        v.push(ImageFormat::WebP);
        v
    }
}

impl Encoder for WebpEncoder {
    /// The image is converted to RGBA and encoded losslessly or at the given quality.
    fn encode(&self, image: &RawImage, params: &EncodeParams) -> (r: Result<
        EncodedOutput,
        EngineError,
    >)
        ensures
            !(params is WebP) ==> r == Err::<EncodedOutput, EngineError>(
                EngineError::WrongParams { encoder: "WebpEncoder" },
            ),
            params is WebP && !encodable(image) ==> r is Err,
            params is WebP && (image.pixels.width == 0 || image.pixels.height == 0
                || image.pixels.width > WEBP_MAX_SIDE || image.pixels.height > WEBP_MAX_SIDE)
                ==> r is Err,
            r matches Ok(out) ==> out.format == ImageFormat::WebP,
            params is WebP && encodable(image) && webp_sides_ok(image.pixels.width, image.pixels.height)
                ==> (r is Ok || r matches Err(EngineError::Codec { .. })),
            params matches EncodeParams::WebP { lossless: true, .. } && encodable(image)
                && webp_sides_ok(image.pixels.width, image.pixels.height) ==> r is Ok,
            params matches EncodeParams::WebP { lossless: true, .. } ==> (r matches Ok(out)
                ==> out.data@ == webp_lossless_encoding(
                rgba_samples(image.pixels@),
                image.pixels.width,
                image.pixels.height,
            ) && webp_header(out.data@) && format_of_magic(out.data@) == Some(out.format)),
    {
        let (quality, lossless) = match params {
            EncodeParams::WebP { quality, lossless } => (*quality, *lossless),
            _ => {
                return Err(EngineError::WrongParams { encoder: "WebpEncoder" });
            },
        };
        if !check_encodable(image) {
            return Err(EngineError::InvalidInput { what: "pixel buffer does not match the image size" });
        }
        let w = image.pixels.width;
        let h = image.pixels.height;
        if w == 0 || h == 0 || w > WEBP_MAX_SIDE || h > WEBP_MAX_SIDE {
            return Err(EngineError::InvalidInput { what: "WebP sides must be between 1 and 16384" });
        }
        let rgba = image.pixels.to_rgba8();
        let encoded = if lossless {
            webp_lossless(rgba.as_slice(), w, h)
        } else {
            webp_lossy(rgba.as_slice(), w, h, quality)
        };
        let stage = if lossless { "WebP lossless encoding" } else { "WebP lossy encoding" };
        encoded_output(encoded, ImageFormat::WebP, stage)
    }
}

} // verus!
