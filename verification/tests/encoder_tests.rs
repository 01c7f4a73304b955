use tinyimg::engine::codec::avif::AvifEncoder;
use tinyimg::engine::codec::gif::GifEncoder;
use tinyimg::engine::codec::jpeg::MozjpegEncoder;
use tinyimg::engine::codec::jxl::JxlEncoder;
use tinyimg::engine::codec::png::OxipngEncoder;
use tinyimg::engine::codec::universal::UniversalDecoder;
use tinyimg::engine::codec::webp::WebpEncoder;
use tinyimg::engine::codec::{Decoder, Encoder};
use tinyimg::engine::params::{EncodeParams, ImageFormat};
use tinyimg::engine::raw_image::{PixelLayout, Pixels, RawImage};

/// A 100x100 RGB gradient: pixel (x, y) is [2x, 2y, 128].
fn create_test_image() -> RawImage {
    let mut data = Vec::with_capacity(100 * 100 * 3);
    for y in 0..100u32 {
        for x in 0..100u32 {
            data.push(x as u8 * 2);
            data.push(y as u8 * 2);
            data.push(128);
        }
    }
    let pixels = Pixels { width: 100, height: 100, layout: PixelLayout::Rgb8, data };
    RawImage::new(pixels, ImageFormat::Jpeg, String::from("test.jpg"))
}

#[test]
fn test_jpeg_encoder() {

    let image = create_test_image();
    let params = EncodeParams::Jpeg { quality: 80, progressive: true };

    let result = MozjpegEncoder.encode(&image, &params).unwrap();
    assert_eq!(result.format, ImageFormat::Jpeg);
    assert!(!result.data.is_empty());
    assert_eq!(&result.data[..3], &[0xFF, 0xD8, 0xFF]);
    assert!(result.data.len() < 100 * 100 * 3);
}

#[test]
fn test_png_encoder_lossless() {

    let image = create_test_image();
    let params = EncodeParams::Png { lossy: false, optimization_level: 2 };

    let result = OxipngEncoder.encode(&image, &params).unwrap();
    assert_eq!(result.format, ImageFormat::Png);
    assert!(!result.data.is_empty());
    assert_eq!(&result.data[..4], &[0x89, 0x50, 0x4E, 0x47]);
}

#[test]
fn test_png_encoder_lossy() {

    let image = create_test_image();
    let params = EncodeParams::Png { lossy: true, optimization_level: 2 };

    let result = OxipngEncoder.encode(&image, &params).unwrap();
    assert_eq!(result.format, ImageFormat::Png);
    assert!(!result.data.is_empty());
    assert_eq!(&result.data[..4], &[0x89, 0x50, 0x4E, 0x47]);
}

#[test]
fn test_webp_encoder() {

    let image = create_test_image();
    let params = EncodeParams::WebP { quality: 80, lossless: true };

    let result = WebpEncoder.encode(&image, &params).unwrap();
    assert_eq!(result.format, ImageFormat::WebP);
    assert!(!result.data.is_empty());
    assert_eq!(&result.data[..4], b"RIFF");
    assert_eq!(&result.data[8..12], b"WEBP");
}

#[test]
fn test_gif_encoder() {

    let image = create_test_image();
    let params = EncodeParams::Gif { quality: 80, fast: false };

    let result = GifEncoder.encode(&image, &params).unwrap();
    assert_eq!(result.format, ImageFormat::Gif);
    assert!(!result.data.is_empty());
    assert_eq!(&result.data[..4], b"GIF8");
}

#[test]
fn test_universal_decoder_jpeg() {

    let image = create_test_image();
    let params = EncodeParams::Jpeg { quality: 90, progressive: false };
    let encoded = MozjpegEncoder.encode(&image, &params).unwrap();

    let decoded = UniversalDecoder.decode(&encoded.data, ImageFormat::Jpeg).unwrap();
    assert_eq!(decoded.width(), 100);
    assert_eq!(decoded.height(), 100);
}

#[test]
fn test_avif_encoder() {

    let image = create_test_image();
    let params = EncodeParams::Avif { quality: 50, speed: 10 };

    let result = AvifEncoder.encode(&image, &params).unwrap();
    assert_eq!(result.format, ImageFormat::Avif);
    assert!(!result.data.is_empty());
}

#[test]
fn test_jxl_encoder_returns_error() {

    let image = create_test_image();
    let params = EncodeParams::Jxl { quality: 80, effort: 7 };

    let result = JxlEncoder.encode(&image, &params);
    assert!(result.is_err());
}

#[test]
fn avif_files_are_not_decoded_in_this_build() {

    let pixels = Pixels { width: 8, height: 8, layout: PixelLayout::Rgb8, data: vec![90; 8 * 8 * 3] };
    let image = RawImage::new(pixels, ImageFormat::Png, String::new());
    let encoded = AvifEncoder
        .encode(&image, &EncodeParams::Avif { quality: 50, speed: 10 })
        .unwrap();
    assert!(UniversalDecoder.decode(&encoded.data, ImageFormat::Avif).is_err());
}
