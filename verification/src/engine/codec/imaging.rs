//! The calls into the `image` crate that the codecs make, each behind a small trusted
//! function, and the conversion of its images into the engine's pixel buffers.
use crate::engine::codec::EngineError;
use crate::engine::params::ImageFormat;
use crate::engine::raw_image::PixelLayout::{Luma8, LumaA8, Rgb8, Rgba8};
use crate::engine::raw_image::{pixels_wf, PixelLayout, Pixels, PixelsView};
use image::GenericImageView;
use image::ImageFormat as Fmt;
use vstd::prelude::*;

verus! {

/// `image::DynamicImage`, carried through as an opaque value.
#[verifier::external_type_specification]
#[verifier::external_body]
pub struct ExDynamicImage(image::DynamicImage);

/// The formats that the `image` crate reads and writes for the engine.
pub open spec fn image_crate_format(f: ImageFormat) -> bool {
    f == ImageFormat::Jpeg || f == ImageFormat::Png || f == ImageFormat::WebP || f
        == ImageFormat::Gif || f == ImageFormat::Avif
}

/// The formats whose `image` crate decoders are plain integer code (the `png` and `gif`
/// crates, image-webp), so that equal bytes give equal pixels on every machine.
pub open spec fn decoded_by_name(f: ImageFormat) -> bool {
    f == ImageFormat::Png || f == ImageFormat::Gif || f == ImageFormat::WebP
}

/// The pixels that the `image` crate decodes `data` into as `format`, each channel
/// narrowed to 8 bits by its `into_luma8` / `into_luma_alpha8` / `into_rgb8` /
/// `into_rgba8` conversions; `None` when it reports an error.
pub uninterp spec fn decoded_pixels(data: Seq<u8>, format: ImageFormat) -> Option<PixelsView>;

/// Two pixel buffers with the same sides and layout.
pub open spec fn same_shape(a: PixelsView, b: PixelsView) -> bool {
    a.0 == b.0 && a.1 == b.1 && a.2 == b.2
}

/// Decoded pixels whose buffer holds every sample.
pub open spec fn well_decoded(d: Option<PixelsView>) -> bool {
    match d {
        Some(p) => pixels_wf(p),
        None => false,
    }
}

/// Calls `image::load_from_memory_with_format` (the same as `image::load` on a cursor)
/// and converts the image to the 8-bit layout with its number of channels; the buffer
/// it hands back holds exactly every sample (`decoder_to_vec` sizes it by the decoder's
/// `total_bytes`, and the conversions allocate exact buffers).
/// - PNG, GIF and WebP: the outcome is named `decoded_pixels` (plain integer decoders).
/// - JPEG: whether decoding succeeds, and the sides and layout, come from the header
///   and entropy parsing and are claimed over `decoded_pixels`; the sample values are
///   not, since zune-jpeg picks AVX2 or scalar colour conversion by the processor.
/// - AVIF: this build enables the `image` crate's `avif` feature (encoding through
///   ravif) but not `avif-native`, so `make_decoder` answers `Unsupported`.
#[verifier::external_body]
pub(crate) fn decode_as(data: &[u8], format: ImageFormat) -> (r: Result<Pixels, String>)
    requires
        image_crate_format(format),
    ensures
        decoded_by_name(format) ==> (r is Ok <==> decoded_pixels(data@, format) is Some),
        decoded_by_name(format) ==> (r matches Ok(p) ==> decoded_pixels(data@, format) == Some(p@)),
        format == ImageFormat::Jpeg ==> (r is Ok <==> decoded_pixels(data@, format) is Some),
        format == ImageFormat::Jpeg ==> (r matches Ok(p) ==> same_shape(
            decoded_pixels(data@, format)->0,
            p@,
        )),
        format == ImageFormat::Avif ==> r is Err,
        r matches Ok(p) ==> pixels_wf(p@),
{
    let f = match format { ImageFormat::Jpeg => Fmt::Jpeg, ImageFormat::Png => Fmt::Png, ImageFormat::WebP => Fmt::WebP, ImageFormat::Gif => Fmt::Gif, _ => Fmt::Avif };
    let img = image::load_from_memory_with_format(data, f).map_err(|e| e.to_string())?;
    let (width, height) = img.dimensions();
    let (layout, data) = match img.color().channel_count() { 1 => (Luma8, img.into_luma8().into_raw()), 2 => (LumaA8, img.into_luma_alpha8().into_raw()), 3 => (Rgb8, img.into_rgb8().into_raw()), _ => (Rgba8, img.into_rgba8().into_raw()) };
    Ok(Pixels { width, height, layout, data })
}

/// Calls `image::load_from_memory`, which guesses the format from the content, and
/// converts the image as `decode_as` does. Nothing is claimed of the pixels.
#[verifier::external_body]
pub(crate) fn decode_guessed(data: &[u8]) -> (r: Result<Pixels, String>) {
    let img = image::load_from_memory(data).map_err(|e| e.to_string())?;
    let (width, height) = img.dimensions();
    let (layout, data) = match img.color().channel_count() { 1 => (Luma8, img.into_luma8().into_raw()), 2 => (LumaA8, img.into_luma_alpha8().into_raw()), 3 => (Rgb8, img.into_rgb8().into_raw()), _ => (Rgba8, img.into_rgba8().into_raw()) };
    Ok(Pixels { width, height, layout, data })
}

/// Calls `ImageBuffer::from_raw` for the layout of the buffer, which accepts a buffer
/// that holds every sample of the image, and wraps it in the matching `DynamicImage`
/// variant.
#[verifier::external_body]
pub(crate) fn to_dynamic(p: &Pixels) -> (r: image::DynamicImage)
    requires
        pixels_wf(p@),
{
    let (w, h, d) = (p.width, p.height, p.data.clone());
    match p.layout {
        PixelLayout::Luma8 => image::DynamicImage::ImageLuma8(image::ImageBuffer::from_raw(w, h, d).unwrap()),
        PixelLayout::LumaA8 => image::DynamicImage::ImageLumaA8(image::ImageBuffer::from_raw(w, h, d).unwrap()),
        PixelLayout::Rgb8 => image::DynamicImage::ImageRgb8(image::ImageBuffer::from_raw(w, h, d).unwrap()),
        PixelLayout::Rgba8 => image::DynamicImage::ImageRgba8(image::ImageBuffer::from_raw(w, h, d).unwrap()),
    }
}

/// The GIF file that the `image` crate's GIF encoder (NeuQuant colour quantisation and
/// the `gif` crate's LZW writer, code without processor-specific paths) writes for the
/// pixels.
pub uninterp spec fn image_crate_gif(p: PixelsView) -> Seq<u8>;

/// Pixels that the GIF encoder takes: RGB or RGBA, sides from 1 to 65535.
pub open spec fn gif_writable(p: PixelsView) -> bool {
    &&& (p.2 == PixelLayout::Rgb8 || p.2 == PixelLayout::Rgba8)
    &&& 1 <= p.0 <= 0xFFFF
    &&& 1 <= p.1 <= 0xFFFF
}

/// The formats written through `DynamicImage::write_to`.
pub open spec fn written_by_image_crate(f: ImageFormat) -> bool {
    f == ImageFormat::Png || f == ImageFormat::Gif
}

/// The PNG file signature.
pub open spec fn png_signature() -> Seq<u8> {
    seq![0x89u8, 0x50u8, 0x4Eu8, 0x47u8, 0x0Du8, 0x0Au8, 0x1Au8, 0x0Au8]
}

/// The GIF header "GIF89a".
pub open spec fn gif89a() -> Seq<u8> {
    seq![0x47u8, 0x49u8, 0x46u8, 0x38u8, 0x39u8, 0x61u8]
}

/// Bytes that open with an AVIF file-type box: a size below 2^24, "ftyp", brand "avif".
pub open spec fn avif_header(v: Seq<u8>) -> bool {
    &&& v.len() >= 12
    &&& v[0] == 0u8
    &&& v.subrange(4, 12) == seq![0x66u8, 0x74u8, 0x79u8, 0x70u8, 0x61u8, 0x76u8, 0x69u8, 0x66u8]
}

/// Calls `DynamicImage::write_to` on an in-memory cursor, the image built from the
/// pixel buffer by `ImageBuffer::from_raw` (which accepts a buffer that holds every
/// sample). GIF files are named `image_crate_gif`; of PNG files only the opening is
/// claimed, since their deflate back end may pick vector code by the processor. The
/// `png` crate writes the PNG signature first, the `gif` crate the header "GIF89a". The
/// GIF encoder takes RGB and RGBA pixels with sides that fit 16 bits (no conversion is
/// made for it) and then fails only when writing fails (never, into a `Vec`). The PNG
/// encoder takes every 8-bit layout; the `png` crate refuses only a zero side, a colour
/// and depth it does not know, or a buffer of the wrong length (`init`,
/// `write_image_data`), and splits long data over several IDAT chunks, so with both
/// sides at least one it succeeds.
#[verifier::external_body]
pub(crate) fn write_to_format(p: &Pixels, format: ImageFormat) -> (r: Result<Vec<u8>, String>)
    requires
        pixels_wf(p@),
        written_by_image_crate(format),
    ensures
        format == ImageFormat::Gif ==> (r matches Ok(v) ==> v@ == image_crate_gif(p@)),
        format == ImageFormat::Gif && gif_writable(p@) ==> r is Ok,
        format == ImageFormat::Png && p.width >= 1 && p.height >= 1 ==> r is Ok,
        format == ImageFormat::Png ==> (r matches Ok(v) ==> v@.len() >= 8 && v@.subrange(0, 8)
            == png_signature()),
        format == ImageFormat::Gif ==> (r matches Ok(v) ==> v@.len() >= 6 && v@.subrange(0, 6)
            == gif89a()),
{
    let img = to_dynamic(p);
    let f = match format {
        ImageFormat::Png => image::ImageFormat::Png,
        _ => image::ImageFormat::Gif,
    };
    let mut buf = std::io::Cursor::new(Vec::new());
    img.write_to(&mut buf, f).map(|_| buf.into_inner()).map_err(|e| format!("{e}"))
}

/// Calls `image::codecs::avif::AvifEncoder::new_with_speed_quality` (ravif, which
/// asserts a speed and a quality of at least one) and `DynamicImage::write_with_encoder`.
/// The encoder writes the file that avif-serialize builds, which opens with a 24-byte
/// file-type box of brand "avif". Nothing more is claimed of the bytes: rav1e picks
/// vector code by the processor it runs on.
#[verifier::external_body]
pub(crate) fn write_avif(img: &image::DynamicImage, speed: u8, quality: u8) -> (r: Result<
    Vec<u8>,
    String,
>)
    requires
        speed >= 1,
        quality >= 1,
    ensures
        r matches Ok(v) ==> avif_header(v@),
{
    let mut buf = Vec::new();
    let enc = image::codecs::avif::AvifEncoder::new_with_speed_quality(&mut buf, speed, quality);
    img.write_with_encoder(enc).map(|_| buf).map_err(|e| format!("{e}"))
}

/// What the decoder reports for a decoding outcome: pixels whose buffer holds every
/// sample, or a decoding error with the codec's message.
pub fn accept_decoded(result: Result<Pixels, String>) -> (r: Result<Pixels, EngineError>)
    ensures
        result matches Ok(p) ==> (pixels_wf(p@) ==> (r matches Ok(q) && q@ == p@)),
        result matches Ok(p) ==> (!pixels_wf(p@) ==> r matches Err(EngineError::Codec { .. })),
        result matches Err(m) ==> r == Err::<Pixels, EngineError>(
            EngineError::Codec { stage: "decode", message: m },
        ),
{
    match result {
        Ok(p) => {
            if p.is_wf() {
                Ok(p)
            } else {
                Err(
                    EngineError::Codec {
                        stage: "decode",
                        message: String::from_str("decoded buffer does not match the image size"),
                    },
                )
            }
        },
        Err(message) => Err(EngineError::Codec { stage: "decode", message }),
    }
}

} // verus!
