use crate::engine::codec::{Decoder, EncodedOutput, Encoder, EngineError};
use crate::engine::raw_image::RawImage;
use crate::engine::params::{detected_format, ext_of, EncodeParams, ImageFormat};
use crate::engine::preprocess::Preprocessor;
use vstd::prelude::*;

verus! {

/// The outcome of a compression: the file's bytes and their count.
#[derive(Debug, Clone)]
pub struct CompressionResult {
    pub compressed_size: u64,
    pub data: Vec<u8>,
}

/// The three-stage pipeline: decode, the preprocessing steps in order, encode. It keeps
/// no state between runs.
pub struct CompressionPipeline {
    decoder: Box<dyn Decoder>,
    preprocessors: Vec<Box<dyn Preprocessor>>,
    encoder: Box<dyn Encoder>,
    params: EncodeParams,
}

impl CompressionPipeline {
    /// The encoder settings the pipeline hands to its encoder.
    pub closed spec fn settings(&self) -> EncodeParams {
        self.params
    }

    /// What the decoding stage promises of its answer `r` for `data` read as `format`.
    pub closed spec fn decoded(
        &self,
        data: Seq<u8>,
        format: ImageFormat,
        r: Result<RawImage, EngineError>,
    ) -> bool {
        self.decoder.decode_post(data, format, r)
    }

    /// The preprocessing steps, in the order they run.
    pub closed spec fn steps(&self) -> Seq<Box<dyn Preprocessor>> {
        self.preprocessors@
    }

    /// What the encoding stage promises of its answer `r` for `image` under the
    /// pipeline's settings.
    pub closed spec fn encoded(&self, image: RawImage, r: Result<EncodedOutput, EngineError>) -> bool {
        self.encoder.encode_post(image, self.params, r)
    }

    /// The number of preprocessing steps.
    pub open spec fn step_count(&self) -> nat {
        self.steps().len()
    }

    /// `trace` holds the image the decoder gave for `data` read as `format`, then the
    /// image each of the first `trace.len() - 1` steps gave for the one before it.
    pub open spec fn ran_through(&self, data: Seq<u8>, format: ImageFormat, trace: Seq<RawImage>) -> bool {
        &&& 1 <= trace.len() <= self.step_count() + 1
        &&& self.decoded(data, format, Ok(trace[0]))
        &&& forall|i: int|
            0 <= i < trace.len() - 1 ==> #[trigger] self.steps()[i].process_post(
                trace[i],
                Ok(trace[i + 1]),
            )
    }

    /// What `run` answers for the bytes `data` of a file with extension `ext`: unknown
    /// format exactly when none is recognised; otherwise the stages ran in order, each on
    /// the image of the one before, up to the one that failed, or to the encoder whose
    /// bytes are the result.
    pub open spec fn answered(
        &self,
        data: Seq<u8>,
        ext: Option<Seq<u8>>,
        r: Result<CompressionResult, EngineError>,
    ) -> bool {
        &&& (detected_format(data, ext) is None <==> r == Err::<
            CompressionResult,
            EngineError,
        >(EngineError::UnknownFormat))
        &&& ({
                let f = detected_format(data, ext)->0;
                &&& r matches Ok(res) ==> exists|trace: Seq<RawImage>, out: EncodedOutput|
                    {
                        &&& self.ran_through(data, f, trace)
                        &&& trace.len() == self.step_count() + 1
                        &&& #[trigger] self.encoded(trace.last(), Ok(out))
                        &&& res.data@ == out.data@
                        &&& res.compressed_size == out.data@.len()
                    }
                &&& r matches Err(EngineError::Decode { cause }) ==> self.decoded(data, f, Err(*cause))
                &&& r matches Err(EngineError::Preprocess { step, cause }) ==> exists|
                    trace: Seq<RawImage>,
                |
                    {
                        &&& self.ran_through(data, f, trace)
                        &&& trace.len() <= self.step_count()
                        &&& #[trigger] self.steps()[trace.len() - 1].process_post(
                            trace.last(),
                            Err(*cause),
                        )
                    }
                &&& r matches Err(EngineError::Encode { cause }) ==> exists|trace: Seq<RawImage>|
                    {
                        &&& self.ran_through(data, f, trace)
                        &&& trace.len() == self.step_count() + 1
                        &&& #[trigger] self.encoded(trace.last(), Err(*cause))
                    }
            })
        &&& (r matches Err(e) ==> (e is UnknownFormat || e is Decode || e is Preprocess
            || e is Encode))
    }

    pub fn new(
        decoder: Box<dyn Decoder>,
        preprocessors: Vec<Box<dyn Preprocessor>>,
        encoder: Box<dyn Encoder>,
        params: EncodeParams,
    ) -> (r: Self)
        ensures
            r.settings() == params,
            r.steps() == preprocessors@,
    {
        CompressionPipeline { decoder, preprocessors, encoder, params }
    }

    /// Compresses the bytes of a file whose name has the given extension: the format is
    /// recognised from the content, else from the extension; then decode, run each step
    /// on the previous stage's image in order, and encode the last image. A failing stage
    /// ends the run and is reported under its name; the stages after it do not run.
    pub fn run(&self, data: &[u8], extension: Option<&str>) -> (r: Result<
        CompressionResult,
        EngineError,
    >)
        ensures
            self.answered(data@, ext_of(extension), r),
    {
        let source_format = match ImageFormat::detect(data, extension) {
            Some(f) => f,
            None => {
                return Err(EngineError::UnknownFormat);
            },
        };
        let mut image = match self.decoder.decode(data, source_format) {
            Ok(img) => img,
            Err(e) => {
                return Err(EngineError::Decode { cause: Box::new(e) });
            },
        };
        let ghost mut trace: Seq<RawImage> = seq![image];
        let mut i: usize = 0;
        while i < self.preprocessors.len()
            invariant
                i <= self.preprocessors.len(),
                detected_format(data@, ext_of(extension)) == Some(source_format),
                trace.len() == i + 1,
                trace.last() == image,
                self.ran_through(data@, source_format, trace),
            decreases self.preprocessors.len() - i,
        {
            let step = self.preprocessors[i].name();
            let ghost before = image;
            image = match self.preprocessors[i].process(image) {
                Ok(img) => img,
                Err(e) => {
                    assert(self.steps()[trace.len() - 1].process_post(trace.last(), Err(e)));
                    return Err(EngineError::Preprocess { step, cause: Box::new(e) });
                },
            };
            proof {
                let next = trace.push(image);
                assert(self.steps()[i as int].process_post(before, Ok(image)));
                assert forall|k: int| 0 <= k < next.len() - 1 implies #[trigger] self.steps()[k].process_post(
                    next[k],
                    Ok(next[k + 1]),
                ) by {
                    if k < trace.len() - 1 {
                        assert(next[k] == trace[k] && next[k + 1] == trace[k + 1]);
                    }
                }
                trace = next;
            }
            i = i + 1;
        }
        let output = match self.encoder.encode(&image, &self.params) {
            Ok(out) => out,
            Err(e) => {
                assert(self.encoded(trace.last(), Err(e)));
                return Err(EngineError::Encode { cause: Box::new(e) });
            },
        };
        assert(self.encoded(trace.last(), Ok(output)));
        Ok(CompressionResult { compressed_size: output.data.len() as u64, data: output.data })
    }
}

} // verus!
