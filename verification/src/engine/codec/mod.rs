pub mod avif;
pub mod gif;
pub mod imaging;
pub mod jpeg;
pub mod jxl;
pub mod png;
pub mod svg;
pub mod universal;
pub mod webp;

use crate::engine::params::{format_of_magic, EncodeParams, ImageFormat};
use crate::engine::raw_image::{pixels_wf, RawImage};
use vstd::prelude::*;

verus! {

/// Why a stage of the engine failed.
#[derive(Debug, PartialEq, Eq)]
pub enum EngineError {
    /// An encoder was handed the settings of another format.
    WrongParams { encoder: &'static str },
    /// The requested operation is not available.
    Unsupported { what: &'static str },
    /// The pixels cannot be handed to the codec (zero or too large dimensions,
    /// settings out of range).
    InvalidInput { what: &'static str },
    /// The format of the input could not be recognised.
    UnknownFormat,
    /// A codec or the resizer reported an error.
    Codec { stage: &'static str, message: String },
    /// The pipeline's decoder failed.
    Decode { cause: Box<EngineError> },
    /// A preprocessing step of the pipeline failed.
    Preprocess { step: &'static str, cause: Box<EngineError> },
    /// The pipeline's encoder failed.
    Encode { cause: Box<EngineError> },
}

/// The error as a sentence: the stages of the pipeline name themselves before the
/// cause.
pub open spec fn message_of(e: EngineError) -> Seq<char>
    decreases e,
{
    match e {
        EngineError::WrongParams { encoder } => encoder@ + " was given the settings of another format"@,
        EngineError::Unsupported { what } => what@,
        EngineError::InvalidInput { what } => what@,
        EngineError::UnknownFormat => "Unable to detect image format"@,
        EngineError::Codec { stage, message } => stage@ + ": "@ + message@,
        EngineError::Decode { cause } => "Decode failed: "@ + message_of(*cause),
        EngineError::Preprocess { step, cause } => "Preprocessor '"@ + step@ + "' failed: "@
            + message_of(*cause),
        EngineError::Encode { cause } => "Encode failed: "@ + message_of(*cause),
    }
}

impl EngineError {
    /// The error as a sentence.
    pub fn message(&self) -> (r: String)
        ensures
            r@ == message_of(*self),
        decreases self,
    {
        match self {
            EngineError::WrongParams { encoder } => {
                let mut s = String::from_str(*encoder);
                s.append(" was given the settings of another format");
                s
            },
            EngineError::Unsupported { what } => String::from_str(*what),
            EngineError::InvalidInput { what } => String::from_str(*what),
            EngineError::UnknownFormat => String::from_str("Unable to detect image format"),
            EngineError::Codec { stage, message } => {
                let mut s = String::from_str(*stage);
                s.append(": ");
                s.append(message.as_str());
                s
            },
            EngineError::Decode { cause } => {
                let mut s = String::from_str("Decode failed: ");
                s.append(cause.message().as_str());
                s
            },
            EngineError::Preprocess { step, cause } => {
                let mut s = String::from_str("Preprocessor '");
                s.append(*step);
                s.append("' failed: ");
                s.append(cause.message().as_str());
                s
            },
            EngineError::Encode { cause } => {
                let mut s = String::from_str("Encode failed: ");
                s.append(cause.message().as_str());
                s
            },
        }
    }
}

/// What a codec is called and which formats it handles.
pub trait Codec {
    fn name(&self) -> &'static str;

    fn formats(&self) -> Vec<ImageFormat>;
}

/// Bytes of a file -> image.
pub trait Decoder {
    /// What the decoder promises of its answer `r` for `data` read as `source_format`;
    /// nothing, unless the decoder states more.
    open spec fn decode_post(
        &self,
        data: Seq<u8>,
        source_format: ImageFormat,
        r: Result<RawImage, EngineError>,
    ) -> bool {
        true
    }

    fn decode(&self, data: &[u8], source_format: ImageFormat) -> (r: Result<RawImage, EngineError>)
        ensures
            self.decode_post(data@, source_format, r),
    ;
}

/// Image -> bytes of a compressed file.
pub trait Encoder {
    /// What the encoder promises of its answer `r` for `image` under `params`; nothing,
    /// unless the encoder states more.
    open spec fn encode_post(
        &self,
        image: RawImage,
        params: EncodeParams,
        r: Result<EncodedOutput, EngineError>,
    ) -> bool {
        true
    }

    fn encode(&self, image: &RawImage, params: &EncodeParams) -> (r: Result<
        EncodedOutput,
        EngineError,
    >)
        ensures
            self.encode_post(*image, *params, r),
    ;
}

/// A compressed file and its format.
#[derive(Debug, Clone)]
pub struct EncodedOutput {
    pub data: Vec<u8>,
    pub format: ImageFormat,
}

/// What an encoder reports for the outcome of its codec call: the bytes in the given
/// format, or the codec's message under the name of the stage.
pub fn encoded_output(result: Result<Vec<u8>, String>, format: ImageFormat, stage: &'static str) -> (r:
    Result<EncodedOutput, EngineError>)
    ensures
        result matches Ok(v) ==> r matches Ok(out) && out.data@ == v@ && out.format == format,
        result matches Err(m) ==> r == Err::<EncodedOutput, EngineError>(
            EngineError::Codec { stage, message: m },
        ),
{
    match result {
        Ok(data) => Ok(EncodedOutput { data, format }),
        Err(message) => Err(EngineError::Codec { stage, message }),
    }
}

/// Pixels that can be handed to an encoder: well formed, sizes within the machine.
pub open spec fn encodable(img: &RawImage) -> bool {
    &&& pixels_wf(img.pixels@)
    &&& img.pixels.width * img.pixels.height * 4 <= usize::MAX
}

/// Checks `encodable`.
pub fn check_encodable(img: &RawImage) -> (r: bool)
    ensures
        r == encodable(img),
{
    let w = img.pixels.width as u64;
    let h = img.pixels.height as u64;
    proof {
        assert(w * h <= u32::MAX * u32::MAX) by (nonlinear_arith)
            requires
                w <= u32::MAX,
                h <= u32::MAX,
        ;
    }
    let n = w * h;
    if n > (usize::MAX as u64) / 4 {
        return false;
    }
    let ch = img.pixels.layout.channel_count() as u64;
    proof {
        assert(n * ch <= n * 4) by (nonlinear_arith)
            requires
                ch <= 4,
        ;
    }
    img.pixels.data.len() as u64 == n * ch
}

/// A file that opens with FF D8 FF and one more byte is recognised as JPEG.
pub proof fn lemma_detects_jpeg(v: Seq<u8>)
    requires
        v.len() >= 4,
        v[0] == 0xFFu8 && v[1] == 0xD8u8 && v[2] == 0xFFu8,
    ensures
        format_of_magic(v) == Some(ImageFormat::Jpeg),
{
    assert(v.subrange(0, 3) =~= seq![0xFFu8, 0xD8u8, 0xFFu8]);
}

/// A file that opens with the PNG signature is recognised as PNG.
pub proof fn lemma_detects_png(v: Seq<u8>)
    requires
        v.len() >= 8,
        v.subrange(0, 8) == seq![0x89u8, 0x50u8, 0x4Eu8, 0x47u8, 0x0Du8, 0x0Au8, 0x1Au8, 0x0Au8],
    ensures
        format_of_magic(v) == Some(ImageFormat::Png),
{
    assert(v[0] == v.subrange(0, 8)[0]);
    assert(v.subrange(0, 4) =~= v.subrange(0, 8).subrange(0, 4));
    assert(v.subrange(0, 4) =~= seq![0x89u8, 0x50u8, 0x4Eu8, 0x47u8]);
}

/// A file that opens with "GIF89a" is recognised as GIF.
pub proof fn lemma_detects_gif(v: Seq<u8>)
    requires
        v.len() >= 6,
        v.subrange(0, 6) == seq![0x47u8, 0x49u8, 0x46u8, 0x38u8, 0x39u8, 0x61u8],
    ensures
        format_of_magic(v) == Some(ImageFormat::Gif),
{
    assert(v[0] == v.subrange(0, 6)[0]);
    assert(v[4] == v.subrange(0, 6)[4]);
    assert(v.subrange(0, 4) =~= v.subrange(0, 6).subrange(0, 4));
    assert(v.subrange(0, 4) =~= seq![0x47u8, 0x49u8, 0x46u8, 0x38u8]);
    if v.len() >= 12 {
        assert(v.subrange(4, 12)[0] == v[4]);
    }
}

} // verus!
