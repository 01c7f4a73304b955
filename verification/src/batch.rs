//! The decisions of a batch run that do not touch files: which names are images, which
//! settings and encoder a format gets, what the output is called, and the compression
//! of one file's bytes.
use crate::engine::codec::avif::AvifEncoder;
use crate::engine::codec::gif::GifEncoder;
use crate::engine::codec::png::OxipngEncoder;
use crate::engine::codec::universal::UniversalDecoder;
use crate::engine::codec::webp::WebpEncoder;
use crate::engine::codec::{Decoder, Encoder, EngineError};
use crate::engine::params::{
    ascii_lower, bytes_equal, detected_format, ext_bytes, ext_of, format_of_ext, lower_ascii_bytes, params_format,
    EncodeParams, ImageFormat,
};
use crate::engine::pipeline::{CompressionPipeline, CompressionResult};
use crate::engine::preprocess::metadata::MetadataStripper;
use crate::engine::preprocess::Preprocessor;
use vstd::prelude::*;
use vstd::string::StringSliceAdditionalSpecFns;

verus! {

/// The file extensions that are offered for compression.
pub open spec fn supported_list() -> Seq<&'static str> {
    seq!["jpg", "jpeg", "png", "webp", "avif", "jxl", "gif", "svg", "svgz", "bmp", "tiff", "tif", "ico"]
}

/// The file extensions that are offered for compression.
pub fn supported_extensions() -> (r: Vec<&'static str>)
    ensures
        r@ == supported_list(),
{
    let mut v: Vec<&'static str> = Vec::new();
    v.push("jpg");
    v.push("jpeg");
    v.push("png");
    v.push("webp");
    v.push("avif");
    v.push("jxl");
    v.push("gif");
    v.push("svg");
    v.push("svgz");
    v.push("bmp");
    v.push("tiff");
    v.push("tif");
    v.push("ico");
    assert(v@ =~= supported_list());
    v
}

/// Law: every format is offered for compression under its own default extension,
/// whatever the case of its letters.
pub proof fn law_every_format_is_offered(f: ImageFormat, e: &str)
    requires
        ascii_lower(e.spec_bytes()) == ext_bytes(f),
    ensures
        is_supported(Some(e)),
{
    broadcast use vstd::string::is_ascii_spec_bytes;

    let i: int = match f {
        ImageFormat::Jpeg => 0,
        ImageFormat::Png => 2,
        ImageFormat::WebP => 3,
        ImageFormat::Avif => 4,
        ImageFormat::Jxl => 5,
        ImageFormat::Gif => 6,
        ImageFormat::Svg => 7,
    };
    let lit = supported_list()[i];
    match f {
        ImageFormat::Jpeg => {
            reveal_strlit("jpg");
            assert(vstd::string::is_ascii("jpg"));
        },
        ImageFormat::Png => {
            reveal_strlit("png");
            assert(vstd::string::is_ascii("png"));
        },
        ImageFormat::WebP => {
            reveal_strlit("webp");
            assert(vstd::string::is_ascii("webp"));
        },
        ImageFormat::Avif => {
            reveal_strlit("avif");
            assert(vstd::string::is_ascii("avif"));
        },
        ImageFormat::Jxl => {
            reveal_strlit("jxl");
            assert(vstd::string::is_ascii("jxl"));
        },
        ImageFormat::Gif => {
            reveal_strlit("gif");
            assert(vstd::string::is_ascii("gif"));
        },
        ImageFormat::Svg => {
            reveal_strlit("svg");
            assert(vstd::string::is_ascii("svg"));
        },
    }
    assert(lit.spec_bytes() =~= ext_bytes(f));
    assert(ascii_lower(lit.spec_bytes()) =~= ext_bytes(f));
    assert(same_ignoring_case(e, supported_list()[i]));
}

/// Law: every extension that names a format is offered for compression, whatever the
/// case of its letters; the one name not offered is "apng".
pub proof fn law_named_extensions_are_offered(e: &str)
    requires
        format_of_ext(e.spec_bytes()) is Some,
        ascii_lower(e.spec_bytes()) != seq![0x61u8, 0x70u8, 0x6Eu8, 0x67u8],
    ensures
        is_supported(Some(e)),
{
    broadcast use vstd::string::is_ascii_spec_bytes;

    let l = ascii_lower(e.spec_bytes());
    if l == seq![0x6Au8, 0x70u8, 0x65u8, 0x67u8] {
        reveal_strlit("jpeg");
        assert(vstd::string::is_ascii("jpeg"));
        assert(ascii_lower(supported_list()[1].spec_bytes()) =~= l);
        assert(same_ignoring_case(e, supported_list()[1]));
    } else if l == seq![0x73u8, 0x76u8, 0x67u8, 0x7Au8] {
        reveal_strlit("svgz");
        assert(vstd::string::is_ascii("svgz"));
        assert(ascii_lower(supported_list()[8].spec_bytes()) =~= l);
        assert(same_ignoring_case(e, supported_list()[8]));
    } else {
        let f = format_of_ext(e.spec_bytes())->0;
        assert(l == ext_bytes(f));
        law_every_format_is_offered(f, e);
    }
}

/// Two names are equal when ASCII case is ignored.
pub open spec fn same_ignoring_case(a: &str, b: &str) -> bool {
    ascii_lower(a.spec_bytes()) == ascii_lower(b.spec_bytes())
}

/// Whether two names are equal when ASCII case is ignored.
pub fn eq_ignore_ascii_case(a: &str, b: &str) -> (r: bool)
    ensures
        r == same_ignoring_case(a, b),
{
    let la = lower_ascii_bytes(a.as_bytes());
    let lb = lower_ascii_bytes(b.as_bytes());
    bytes_equal(la.as_slice(), lb.as_slice())
}

/// Whether a file with this extension is offered for compression.
pub open spec fn is_supported(extension: Option<&str>) -> bool {
    match extension {
        Some(e) => exists|i: int| 0 <= i < supported_list().len() && same_ignoring_case(e, #[trigger] supported_list()[i]),
        None => false,
    }
}

/// Whether a file with this extension (none, when the name has none) is an image that
/// can be compressed; case is ignored.
pub fn is_supported_image(extension: Option<&str>) -> (r: bool)
    ensures
        r == is_supported(extension),
{
    let e = match extension {
        Some(e) => e,
        None => {
            return false;
        },
    };
    let list = supported_extensions();
    let mut i: usize = 0;
    while i < list.len()
        invariant
            list@ == supported_list(),
            extension == Some(e),
            0 <= i <= list@.len(),
            forall|j: int| 0 <= j < i ==> !same_ignoring_case(e, #[trigger] supported_list()[j]),
        decreases list@.len() - i,
    {
        if eq_ignore_ascii_case(e, list[i]) {
            assert(same_ignoring_case(e, supported_list()[i as int]));
            return true;
        }
        i = i + 1;
    }
    false
}

/// The settings a format is compressed with when the user has chosen none: JPEG at 80,
/// progressive; lossless PNG at level 2; lossless WebP at 80; AVIF at 70, speed 4; GIF
/// at 80; JPEG XL and SVG inputs become lossless PNG.
pub open spec fn default_params(format: ImageFormat) -> EncodeParams {
    match format {
        ImageFormat::Jpeg => EncodeParams::Jpeg { quality: 80, progressive: true },
        ImageFormat::Png => EncodeParams::Png { lossy: false, optimization_level: 2 },
        ImageFormat::WebP => EncodeParams::WebP { quality: 80, lossless: true },
        ImageFormat::Avif => EncodeParams::Avif { quality: 70, speed: 4 },
        ImageFormat::Gif => EncodeParams::Gif { quality: 80, fast: false },
        _ => EncodeParams::Png { lossy: false, optimization_level: 2 },
    }
}

/// The settings a format is compressed with when the user has chosen none.
pub fn default_encode_params(format: ImageFormat) -> (r: EncodeParams)
    ensures
        r == default_params(format),
{
    match format {
        ImageFormat::Jpeg => EncodeParams::Jpeg { quality: 80, progressive: true },
        ImageFormat::Png => EncodeParams::Png { lossy: false, optimization_level: 2 },
        ImageFormat::WebP => EncodeParams::WebP { quality: 80, lossless: true },
        ImageFormat::Avif => EncodeParams::Avif { quality: 70, speed: 4 },
        ImageFormat::Gif => EncodeParams::Gif { quality: 80, fast: false },
        _ => EncodeParams::Png { lossy: false, optimization_level: 2 },
    }
}

/// The format a file of the given format is written in by default.
pub open spec fn default_output_format(format: ImageFormat) -> ImageFormat {
    match params_format(default_params(format)) {
        Some(f) => f,
        None => format,
    }
}

/// Every input is written in a format that has an encoder: JPEG XL and SVG become PNG,
/// the other formats stay as they are.
pub proof fn law_default_output_is_encodable(format: ImageFormat)
    ensures
        has_encoder(default_output_format(format)),
        format != ImageFormat::Jxl && format != ImageFormat::Svg ==> default_output_format(format)
            == format,
        format == ImageFormat::Jxl || format == ImageFormat::Svg ==> default_output_format(format)
            == ImageFormat::Png,
{
}

/// The formats that batch compression writes.
pub open spec fn has_encoder(format: ImageFormat) -> bool {
    format != ImageFormat::Jxl && format != ImageFormat::Svg
}

/// The encoder for an output format; `jpeg` is the JPEG encoder to use (the GPU one when
/// a GPU is available, mozjpeg otherwise). JPEG XL and SVG cannot be written.
pub fn create_encoder(format: ImageFormat, jpeg: Box<dyn Encoder>) -> (r: Result<
    Box<dyn Encoder>,
    EngineError,
>)
    ensures
        r is Ok <==> has_encoder(format),
        r matches Err(e) ==> e is Unsupported,
{
    match format {
        ImageFormat::Jpeg => Ok(jpeg),
        ImageFormat::Png => Ok(Box::new(OxipngEncoder)),
        ImageFormat::WebP => Ok(Box::new(WebpEncoder)),
        ImageFormat::Avif => Ok(Box::new(AvifEncoder)),
        ImageFormat::Gif => Ok(Box::new(GifEncoder)),
        ImageFormat::Jxl => Err(EngineError::Unsupported { what: "JPEG XL encoding is not supported" }),
        ImageFormat::Svg => Err(EngineError::Unsupported { what: "SVG encoding is not supported" }),
    }
}

/// The name of the compressed file: the input's stem ("output" when it has none),
/// "_compressed", a dot and the output extension.
pub fn compressed_file_name(stem: Option<&str>, extension: &str) -> (r: String)
    ensures
        r@ == (match stem {
            Some(s) => s@,
            None => "output"@,
        }) + "_compressed."@ + extension@,
{
    let mut name = match stem {
        Some(s) => String::from_str(s),
        None => String::from_str("output"),
    };
    name.append("_compressed.");
    name.append(extension);
    name
}

/// Compresses one file's bytes with the default settings of its format, stripping its
/// metadata; `jpeg` is the JPEG encoder to use. Gives the result and the format it is in.
/// The work is a pipeline run: the result is what a pipeline with the format's default
/// settings and one preprocessing step (the metadata stripper) answers.
pub fn compress_data(data: &[u8], extension: Option<&str>, jpeg: Box<dyn Encoder>) -> (r: Result<
    (CompressionResult, ImageFormat),
    EngineError,
>)
    ensures
        detected_format(data@, ext_of(extension)) is None <==> r == Err::<
            (CompressionResult, ImageFormat),
            EngineError,
        >(EngineError::UnknownFormat),
        r matches Ok((res, f)) ==> {
            &&& detected_format(data@, ext_of(extension)) matches Some(src) && f == default_output_format(src)
            &&& res.compressed_size == res.data@.len()
        },
        r matches Err(e) ==> (e is UnknownFormat || e is Decode || e is Preprocess || e is Encode),
        detected_format(data@, ext_of(extension)) matches Some(src) ==> exists|
            p: CompressionPipeline,
            answer: Result<CompressionResult, EngineError>,
        |
            {
                &&& p.settings() == default_params(src)
                &&& p.step_count() == 1
                &&& #[trigger] p.answered(data@, ext_of(extension), answer)
                &&& r == (match answer {
                    Ok(res) => Ok((res, default_output_format(src))),
                    Err(e) => Err::<(CompressionResult, ImageFormat), EngineError>(e),
                })
            },
{
    let format = match ImageFormat::detect(data, extension) {
        Some(f) => f,
        None => {
            return Err(EngineError::UnknownFormat);
        },
    };
    let params = default_encode_params(format);
    let output_format = match params.output_format() {
        Some(f) => f,
        None => format,
    };
    let strip: Box<dyn Preprocessor> = Box::new(MetadataStripper::strip_all());
    let preprocessors: Vec<Box<dyn Preprocessor>> = vec![strip];
    assert(preprocessors@.len() == 1);
    let decoder: Box<dyn Decoder> = Box::new(UniversalDecoder);
    proof {
        law_default_output_is_encodable(format);
    }
    let encoder = match create_encoder(output_format, jpeg) {
        Ok(e) => e,
        Err(e) => {
            return Err(e);
        },
    };
    let pipeline = CompressionPipeline::new(decoder, preprocessors, encoder, params);
    let answer = pipeline.run(data, extension);
    proof {
        assert(pipeline.settings() == default_params(format));
        assert(pipeline.step_count() == 1);
        assert(detected_format(data@, ext_of(extension)) == Some(format));
        assert(pipeline.answered(data@, ext_of(extension), answer));
    }
    match answer {
        Ok(result) => Ok((result, output_format)),
        Err(e) => Err(e),
    }
}

} // verus!
