use tinyimg::batch::{
    compress_data, compressed_file_name, create_encoder, default_encode_params, is_supported_image,
    supported_extensions,
};
use tinyimg::config::preset::CompressionPreset;
use tinyimg::config::{AppConfig, OutputDir, Theme};
use tinyimg::engine::codec::avif::AvifEncoder;
use tinyimg::engine::codec::gif::GifEncoder;
use tinyimg::engine::codec::jpeg::MozjpegEncoder;
use tinyimg::engine::codec::jxl::JxlEncoder;
use tinyimg::engine::codec::png::OxipngEncoder;
use tinyimg::engine::codec::svg::SvgOptimizer;
use tinyimg::engine::codec::universal::UniversalDecoder;
use tinyimg::engine::codec::webp::WebpEncoder;
use tinyimg::engine::codec::{Codec, Decoder, Encoder, EngineError};
use tinyimg::engine::params::{EncodeParams, ImageFormat};
use tinyimg::engine::pipeline::CompressionPipeline;
use tinyimg::engine::preprocess::color::ColorConverter;
use tinyimg::engine::preprocess::metadata::MetadataStripper;
use tinyimg::engine::preprocess::quantize::PaletteQuantizer;
use tinyimg::engine::preprocess::resize::{fit_within, CpuResizeProcessor};
use tinyimg::engine::preprocess::Preprocessor;
use tinyimg::engine::raw_image::{ImageMetadata, PixelLayout, Pixels, RawImage};
use tinyimg::engine::registry::CodecRegistry;
use tinyimg::worker::task::TaskStatus;
use tinyimg::worker::TaskManager;

/// A 100x100 RGB gradient.
fn gradient_image(w: u32, h: u32) -> RawImage {
    let mut data = Vec::new();
    for y in 0..h {
        for x in 0..w {
            data.push((x * 2 % 256) as u8);
            data.push((y * 2 % 256) as u8);
            data.push(128u8);
        }
    }
    let pixels = Pixels { width: w, height: h, layout: PixelLayout::Rgb8, data };
    RawImage::new(pixels, ImageFormat::Jpeg, String::from("test.jpg"))
}

#[test]
fn jpeg_encoder_writes_a_jpeg_that_decodes_again() {
    let image = gradient_image(100, 100);
    let params = EncodeParams::Jpeg { quality: 90, progressive: false };
    let out = MozjpegEncoder.encode(&image, &params).unwrap();
    assert_eq!(out.format, ImageFormat::Jpeg);
    assert_eq!(&out.data[..3], &[0xFF, 0xD8, 0xFF]);
    assert!(out.data.len() < 100 * 100 * 3);
    assert_eq!(ImageFormat::from_magic_bytes(&out.data), Some(ImageFormat::Jpeg));
    let decoded = UniversalDecoder.decode(&out.data, ImageFormat::Jpeg).unwrap();
    assert_eq!(decoded.width(), 100);
    assert_eq!(decoded.height(), 100);
    assert_eq!(decoded.source_format, ImageFormat::Jpeg);
    assert!(decoded.metadata.exif.is_none());
}

#[test]
fn png_encoder_writes_the_png_signature() {
    let image = gradient_image(100, 100);
    let out = OxipngEncoder
        .encode(&image, &EncodeParams::Png { lossy: false, optimization_level: 2 })
        .unwrap();
    assert_eq!(out.format, ImageFormat::Png);
    assert_eq!(&out.data[..4], &[0x89, 0x50, 0x4E, 0x47]);
    assert_eq!(ImageFormat::from_magic_bytes(&out.data), Some(ImageFormat::Png));
    let decoded = UniversalDecoder.decode(&out.data, ImageFormat::Png).unwrap();
    assert_eq!(decoded.pixels.data, image.pixels.data);
}

#[test]
fn webp_lossless_encoder_writes_riff_webp() {
    let image = gradient_image(100, 100);
    let out = WebpEncoder
        .encode(&image, &EncodeParams::WebP { quality: 80, lossless: true })
        .unwrap();
    assert_eq!(out.format, ImageFormat::WebP);
    assert_eq!(&out.data[..4], b"RIFF");
    assert_eq!(&out.data[8..12], b"WEBP");
}

#[test]
fn webp_lossy_encoder_writes_riff_webp() {
    let image = gradient_image(64, 48);
    let out = WebpEncoder
        .encode(&image, &EncodeParams::WebP { quality: 75, lossless: false })
        .unwrap();
    assert_eq!(&out.data[..4], b"RIFF");
    assert_eq!(&out.data[8..12], b"WEBP");
}

#[test]
fn webp_refuses_empty_images() {
    let pixels = Pixels { width: 0, height: 5, layout: PixelLayout::Rgb8, data: vec![] };
    let image = RawImage::new(pixels, ImageFormat::Png, String::new());
    let r = WebpEncoder.encode(&image, &EncodeParams::WebP { quality: 80, lossless: true });
    assert!(matches!(r, Err(EngineError::InvalidInput { .. })));
}

#[test]
fn gif_encoder_writes_gif8() {
    let image = gradient_image(40, 30);
    let out = GifEncoder
        .encode(&image, &EncodeParams::Gif { quality: 80, fast: false })
        .unwrap();
    assert_eq!(out.format, ImageFormat::Gif);
    assert_eq!(&out.data[..6], b"GIF89a");
    assert_eq!(ImageFormat::from_magic_bytes(&out.data), Some(ImageFormat::Gif));
}

#[test]
fn avif_encoder_writes_an_avif_file() {
    let image = gradient_image(32, 32);
    let out = AvifEncoder
        .encode(&image, &EncodeParams::Avif { quality: 50, speed: 10 })
        .unwrap();
    assert_eq!(out.format, ImageFormat::Avif);
    assert_eq!(&out.data[4..12], b"ftypavif");
    assert_eq!(out.data[0], 0);
    assert_eq!(ImageFormat::from_magic_bytes(&out.data), Some(ImageFormat::Avif));
}

#[test]
fn avif_encoder_refuses_zero_speed() {
    let image = gradient_image(8, 8);
    let r = AvifEncoder.encode(&image, &EncodeParams::Avif { quality: 50, speed: 0 });
    assert!(matches!(r, Err(EngineError::InvalidInput { .. })));
}

#[test]
fn encoders_refuse_the_settings_of_other_formats() {
    let image = gradient_image(8, 8);
    let gif = EncodeParams::Gif { quality: 80, fast: false };
    assert_eq!(
        MozjpegEncoder.encode(&image, &gif).unwrap_err(),
        EngineError::WrongParams { encoder: "MozjpegEncoder" }
    );
    assert_eq!(
        OxipngEncoder.encode(&image, &gif).unwrap_err(),
        EngineError::WrongParams { encoder: "OxipngEncoder" }
    );
    let jpeg = EncodeParams::Jpeg { quality: 80, progressive: true };
    assert_eq!(
        GifEncoder.encode(&image, &jpeg).unwrap_err(),
        EngineError::WrongParams { encoder: "GifEncoder" }
    );
    assert_eq!(
        WebpEncoder.encode(&image, &jpeg).unwrap_err(),
        EngineError::WrongParams { encoder: "WebpEncoder" }
    );
    assert_eq!(
        AvifEncoder.encode(&image, &jpeg).unwrap_err(),
        EngineError::WrongParams { encoder: "AvifEncoder" }
    );
}

#[test]
fn jxl_and_svg_encoding_are_unsupported() {
    let image = gradient_image(8, 8);
    let r = JxlEncoder.encode(&image, &EncodeParams::Jxl { quality: 80, effort: 7 });
    assert!(matches!(r, Err(EngineError::Unsupported { .. })));
    let r = SvgOptimizer.encode(&image, &EncodeParams::Svg { multipass: true, precision: 3 });
    assert!(matches!(r, Err(EngineError::Unsupported { .. })));
    assert_eq!(JxlEncoder.name(), "jxl-oxide (decode-only)");
    assert_eq!(SvgOptimizer.formats(), vec![ImageFormat::Svg]);
}

#[test]
fn encoders_refuse_a_buffer_of_the_wrong_size() {
    let pixels = Pixels { width: 4, height: 4, layout: PixelLayout::Rgba8, data: vec![0; 10] };
    let image = RawImage::new(pixels, ImageFormat::Png, String::new());
    let r = MozjpegEncoder.encode(&image, &EncodeParams::Jpeg { quality: 80, progressive: true });
    assert!(matches!(r, Err(EngineError::InvalidInput { .. })));
}

#[test]
fn decoder_reports_garbage_as_a_codec_error() {
    let r = UniversalDecoder.decode(&[1, 2, 3, 4, 5], ImageFormat::Png);
    assert!(matches!(r, Err(EngineError::Codec { .. })));
}

#[test]
fn resize_target_keeps_the_aspect_ratio() {
    assert_eq!(fit_within(Some(50), Some(50), 200, 100), Some((50, 25)));
    assert_eq!(fit_within(Some(500), Some(500), 200, 100), None);
    assert_eq!(fit_within(None, Some(10), 200, 100), Some((20, 10)));
    assert_eq!(fit_within(None, None, 200, 100), None);
    assert_eq!(fit_within(Some(1), Some(1), 1000, 10), Some((1, 1)));
    // 3 x 2 into 2 x 2: the scale is 2/3, and 2 * 2/3 = 1.33 rounds to 1
    assert_eq!(fit_within(Some(2), Some(2), 3, 2), Some((2, 1)));
    // a half rounds up: 4 x 3 into 2 wide gives 3 x 1/2 = 1.5 -> 2
    assert_eq!(fit_within(Some(2), None, 4, 3), Some((2, 2)));
    // a source side of zero
    assert_eq!(fit_within(Some(10), Some(10), 0, 40), Some((1, 10)));
    // both sides scaled by 1/3: 1920 x 1080 fits 640 x 640 as 640 x 360
    assert_eq!(fit_within(Some(640), Some(640), 1920, 1080), Some((640, 360)));
    // 1000 x 333 into 100 wide: 33.3 rounds to 33
    assert_eq!(fit_within(Some(100), None, 1000, 333), Some((100, 33)));
}

#[test]
fn cpu_resize_scales_down_large_images_only() {
    let resizer = CpuResizeProcessor::new(Some(50), Some(50));
    assert_eq!(resizer.compute_target_size(200, 100), Some((50, 25)));
    let out = resizer.process(gradient_image(200, 100)).unwrap();
    assert_eq!(out.width(), 50);
    assert_eq!(out.height(), 25);
    assert_eq!(out.pixels.layout, PixelLayout::Rgba8);
    assert_eq!(out.pixels.data.len(), 50 * 25 * 4);
    assert_eq!(out.source_path, "test.jpg");

    let small = gradient_image(20, 10);
    let same = resizer.process(small).unwrap();
    assert_eq!(same.width(), 20);
    assert_eq!(same.pixels.layout, PixelLayout::Rgb8);
    assert_eq!(resizer.name(), "cpu-resize");
}

#[test]
fn metadata_stripper_removes_the_chosen_kinds() {
    let mut image = gradient_image(4, 4);
    image.metadata = ImageMetadata {
        exif: Some(vec![1, 2]),
        icc_profile: Some(vec![3]),
        xmp: Some(vec![4]),
    };
    let keep_icc = MetadataStripper { strip_exif: true, strip_icc: false, strip_xmp: true };
    let out = keep_icc.process(image).unwrap();
    assert!(out.metadata.exif.is_none());
    assert_eq!(out.metadata.icc_profile, Some(vec![3]));
    assert!(out.metadata.xmp.is_none());
    let all = MetadataStripper::strip_all();
    assert!(all.strip_exif && all.strip_icc && all.strip_xmp);
    let out = all.process(out).unwrap();
    assert!(out.metadata.icc_profile.is_none());
}

#[test]
fn colour_step_passes_the_image_through_and_quantizer_is_unavailable() {
    let image = gradient_image(4, 4);
    let out = ColorConverter.process(image).unwrap();
    assert_eq!(out.width(), 4);
    let q = PaletteQuantizer::new(70);
    assert_eq!(q.quality, 70);
    assert!(matches!(q.process(out), Err(EngineError::Unsupported { .. })));
}

#[test]
fn pipeline_runs_decode_steps_and_encode() {
    let png = OxipngEncoder
        .encode(&gradient_image(30, 20), &EncodeParams::Png { lossy: false, optimization_level: 2 })
        .unwrap();
    let steps: Vec<Box<dyn Preprocessor>> = vec![
        Box::new(CpuResizeProcessor::new(Some(15), None)),
        Box::new(MetadataStripper::strip_all()),
    ];
    let pipeline = CompressionPipeline::new(
        Box::new(UniversalDecoder),
        steps,
        Box::new(WebpEncoder),
        EncodeParams::WebP { quality: 80, lossless: true },
    );
    let result = pipeline.run(&png.data, Some("png")).unwrap();
    assert_eq!(result.compressed_size as usize, result.data.len());
    let decoded = UniversalDecoder.decode(&result.data, ImageFormat::WebP).unwrap();
    assert_eq!(decoded.width(), 15);
    assert_eq!(decoded.height(), 10);
}

#[test]
fn pipeline_reports_each_stage() {
    let pipeline = CompressionPipeline::new(
        Box::new(UniversalDecoder),
        vec![],
        Box::new(JxlEncoder),
        EncodeParams::Jxl { quality: 80, effort: 7 },
    );
    assert_eq!(pipeline.run(&[0, 1, 2, 3], Some("txt")).unwrap_err(), EngineError::UnknownFormat);
    assert!(matches!(pipeline.run(&[0x89, 0x50, 0x4E, 0x47, 0, 0], None), Err(EngineError::Decode { .. })));
    let png = OxipngEncoder
        .encode(&gradient_image(4, 4), &EncodeParams::Png { lossy: false, optimization_level: 2 })
        .unwrap();
    assert!(matches!(pipeline.run(&png.data, None), Err(EngineError::Encode { .. })));
    let failing = CompressionPipeline::new(
        Box::new(UniversalDecoder),
        vec![Box::new(PaletteQuantizer::new(50))],
        Box::new(OxipngEncoder),
        EncodeParams::Png { lossy: true, optimization_level: 2 },
    );
    match failing.run(&png.data, None) {
        Err(EngineError::Preprocess { step, .. }) => assert_eq!(step, "imagequant"),
        other => panic!("unexpected {:?}", other.map(|r| r.compressed_size)),
    }
}

struct CountingStep(std::rc::Rc<std::cell::Cell<u32>>);

impl Preprocessor for CountingStep {
    fn name(&self) -> &'static str {
        "counting"
    }

    fn process(&self, image: RawImage) -> Result<RawImage, EngineError> {
        self.0.set(self.0.get() + 1);
        Ok(image)
    }
}

#[test]
fn pipeline_stops_at_the_failing_step() {
    let png = OxipngEncoder
        .encode(&gradient_image(4, 4), &EncodeParams::Png { lossy: false, optimization_level: 2 })
        .unwrap();
    let calls = std::rc::Rc::new(std::cell::Cell::new(0u32));
    let all_pass = CompressionPipeline::new(
        Box::new(UniversalDecoder),
        vec![Box::new(CountingStep(calls.clone())), Box::new(CountingStep(calls.clone()))],
        Box::new(OxipngEncoder),
        EncodeParams::Png { lossy: false, optimization_level: 2 },
    );
    assert!(all_pass.run(&png.data, None).is_ok());
    assert_eq!(calls.get(), 2);
    calls.set(0);
    let stops = CompressionPipeline::new(
        Box::new(UniversalDecoder),
        vec![
            Box::new(CountingStep(calls.clone())),
            Box::new(PaletteQuantizer::new(50)),
            Box::new(CountingStep(calls.clone())),
        ],
        Box::new(OxipngEncoder),
        EncodeParams::Png { lossy: false, optimization_level: 2 },
    );
    assert!(matches!(stops.run(&png.data, None), Err(EngineError::Preprocess { step: "imagequant", .. })));
    assert_eq!(calls.get(), 1);
    calls.set(0);
    assert!(matches!(stops.run(&[0x89, 0x50, 0x4E, 0x47, 0, 0], None), Err(EngineError::Decode { .. })));
    assert_eq!(calls.get(), 0);
}

#[test]
fn error_messages_name_the_stage() {
    let e = EngineError::Encode {
        cause: Box::new(EngineError::Codec { stage: "PNG encoding", message: String::from("boom") }),
    };
    assert_eq!(e.message(), "Encode failed: PNG encoding: boom");
    let e = EngineError::Preprocess {
        step: "cpu-resize",
        cause: Box::new(EngineError::InvalidInput { what: "too large" }),
    };
    assert_eq!(e.message(), "Preprocessor 'cpu-resize' failed: too large");
    assert_eq!(EngineError::UnknownFormat.message(), "Unable to detect image format");
    assert_eq!(
        EngineError::WrongParams { encoder: "GifEncoder" }.message(),
        "GifEncoder was given the settings of another format"
    );
}

#[test]
fn registry_has_the_default_codecs() {
    let registry = CodecRegistry::new();
    assert_eq!(
        registry.supported_decode_formats(),
        vec![ImageFormat::Jpeg, ImageFormat::Png, ImageFormat::WebP, ImageFormat::Avif, ImageFormat::Gif]
    );
    assert_eq!(registry.supported_encode_formats().len(), 7);
    assert!(registry.get_decoder(&ImageFormat::Svg).is_none());
    assert!(registry.get_decoder(&ImageFormat::Gif).is_some());
    assert!(registry.get_encoder(&ImageFormat::Jxl).is_some());
}

#[test]
fn registry_lookup_gives_back_the_registered_codec() {
    let mut registry = CodecRegistry::default();
    registry.register_decoder(ImageFormat::Svg, Box::new(UniversalDecoder));
    assert!(registry.get_decoder(&ImageFormat::Svg).is_some());
    assert_eq!(registry.supported_decode_formats().len(), 6);
    registry.register_encoder(ImageFormat::Jpeg, Box::new(JxlEncoder));
    let enc = registry.get_encoder(&ImageFormat::Jpeg).unwrap();
    let image = gradient_image(8, 8);
    let r = enc.encode(&image, &EncodeParams::Jpeg { quality: 80, progressive: true });
    assert_eq!(r.unwrap_err(), EngineError::WrongParams { encoder: "JxlEncoder" });
    assert_eq!(registry.supported_encode_formats().len(), 7);
}

#[test]
fn builtin_presets_are_the_four_named_ones() {
    let presets = CompressionPreset::builtin_presets();
    let names: Vec<&str> = presets.iter().map(|p| p.name.as_str()).collect();
    assert_eq!(names, vec!["web_optimized", "high_quality", "smallest_size", "lossless"]);
    assert!(presets.iter().all(|p| p.builtin && p.resize.is_none()));
    assert_eq!(presets[0].jpeg.quality, 80);
    assert_eq!(presets[2].avif.speed, 8);
    assert!(presets[3].webp.lossless);
    assert!(!CompressionPreset::high_quality().strip_metadata);
}

#[test]
fn default_config() {
    let c = AppConfig::default();
    assert_eq!(c.language, "zh-CN");
    assert_eq!(c.theme, Theme::System);
    assert!(matches!(c.output_dir, OutputDir::SameAsInput));
    assert!(!c.overwrite);
    assert_eq!(c.suffix, "_compressed");
    assert_eq!(c.default_preset, "web_optimized");
    assert!(c.presets.is_empty());
}

#[test]
fn task_ids_count_up_and_cancellation_is_shared() {
    let mut tm = TaskManager::new();
    assert_eq!(tm.next_task_id(), 0);
    assert_eq!(tm.next_task_id(), 1);
    assert_eq!(tm.next_task_id(), 2);
    assert!(!tm.is_cancelled());
    let token = tm.cancel_token();
    tm.cancel();
    assert!(tm.is_cancelled());
    assert!(token.load(std::sync::atomic::Ordering::Relaxed));
    tm.reset();
    assert!(!tm.is_cancelled());
}

#[test]
fn task_status_kinds() {
    let done = TaskStatus::Completed { original_size: 100, compressed_size: 40 };
    assert!(done.is_completed());
    assert!(!done.is_failed());
    let failed = TaskStatus::Failed { error: String::from("x") };
    assert!(failed.is_failed());
    assert!(!TaskStatus::Pending.is_completed());
}

#[test]
fn supported_images_ignore_case() {
    assert_eq!(supported_extensions().len(), 13);
    assert!(is_supported_image(Some("JPG")));
    assert!(is_supported_image(Some("Tiff")));
    assert!(is_supported_image(Some("svgz")));
    assert!(!is_supported_image(Some("txt")));
    assert!(!is_supported_image(Some("")));
    assert!(!is_supported_image(None));
}

#[test]
fn default_settings_per_format() {
    assert_eq!(
        default_encode_params(ImageFormat::Jpeg),
        EncodeParams::Jpeg { quality: 80, progressive: true }
    );
    assert_eq!(default_encode_params(ImageFormat::Avif), EncodeParams::Avif { quality: 70, speed: 4 });
    assert_eq!(
        default_encode_params(ImageFormat::Svg),
        EncodeParams::Png { lossy: false, optimization_level: 2 }
    );
    assert_eq!(
        default_encode_params(ImageFormat::Jxl).output_format(),
        Some(ImageFormat::Png)
    );
    assert_eq!(EncodeParams::Passthrough.output_format(), None);
}

#[test]
fn output_names_and_encoders() {
    assert_eq!(compressed_file_name(Some("photo"), "webp"), "photo_compressed.webp");
    assert_eq!(compressed_file_name(None, "png"), "output_compressed.png");
    assert!(create_encoder(ImageFormat::Jxl, Box::new(MozjpegEncoder)).is_err());
    assert!(create_encoder(ImageFormat::Svg, Box::new(MozjpegEncoder)).is_err());
    assert!(create_encoder(ImageFormat::Gif, Box::new(MozjpegEncoder)).is_ok());
}

#[test]
fn compress_data_uses_the_default_settings() {
    let png = OxipngEncoder
        .encode(&gradient_image(16, 16), &EncodeParams::Png { lossy: false, optimization_level: 2 })
        .unwrap();
    let (result, format) = compress_data(&png.data, Some("png"), Box::new(MozjpegEncoder)).unwrap();
    assert_eq!(format, ImageFormat::Png);
    assert_eq!(&result.data[..4], &[0x89, 0x50, 0x4E, 0x47]);
    let r = compress_data(b"not an image", Some("txt"), Box::new(MozjpegEncoder));
    assert_eq!(r.unwrap_err(), EngineError::UnknownFormat);
}

#[test]
fn content_wins_over_the_extension() {
    let gif = b"GIF89a\x01\x00\x01\x00";
    assert_eq!(ImageFormat::detect(gif, Some("png")), Some(ImageFormat::Gif));
    assert_eq!(ImageFormat::detect(&[0, 1, 2, 3], Some("WEBP")), Some(ImageFormat::WebP));
    assert_eq!(ImageFormat::detect(&[0, 1, 2, 3], None), None);
    assert_eq!(ImageFormat::from_extension("SvgZ"), Some(ImageFormat::Svg));
    assert_eq!(ImageFormat::Jxl.display_name(), "JPEG XL");
}

#[test]
fn grey_images_are_encoded_as_greyscale_jpeg() {
    let data: Vec<u8> = (0..32 * 16).map(|i| (i % 256) as u8).collect();
    let pixels = Pixels { width: 32, height: 16, layout: PixelLayout::Luma8, data };
    let image = RawImage::new(pixels, ImageFormat::Png, String::from("grey.png"));
    let out = MozjpegEncoder
        .encode(&image, &EncodeParams::Jpeg { quality: 85, progressive: true })
        .unwrap();
    assert_eq!(&out.data[..4], &[0xFF, 0xD8, 0xFF, 0xE0]);
    let decoded = UniversalDecoder.decode(&out.data, ImageFormat::Jpeg).unwrap();
    assert_eq!(decoded.pixels.layout, PixelLayout::Luma8);
    assert_eq!((decoded.width(), decoded.height()), (32, 16));
}
