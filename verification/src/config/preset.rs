use vstd::prelude::*;

verus! {

/// JPEG settings of a preset.
#[derive(Debug, Clone, Copy, PartialEq, Eq, Structural)]
pub struct JpegPreset {
    pub quality: u8,
    pub progressive: bool,
}

/// PNG settings of a preset.
#[derive(Debug, Clone, Copy, PartialEq, Eq, Structural)]
pub struct PngPreset {
    pub lossy: bool,
    pub optimization_level: u8,
}

/// WebP settings of a preset.
#[derive(Debug, Clone, Copy, PartialEq, Eq, Structural)]
pub struct WebpPreset {
    pub quality: u8,
    pub lossless: bool,
}

/// AVIF settings of a preset.
#[derive(Debug, Clone, Copy, PartialEq, Eq, Structural)]
pub struct AvifPreset {
    pub quality: u8,
    pub speed: u8,
}

/// JPEG XL settings of a preset.
#[derive(Debug, Clone, Copy, PartialEq, Eq, Structural)]
pub struct JxlPreset {
    pub quality: u8,
    pub effort: u8,
}

/// GIF settings of a preset.
#[derive(Debug, Clone, Copy, PartialEq, Eq, Structural)]
pub struct GifPreset {
    pub quality: u8,
    pub fast: bool,
}

/// Resize settings of a preset.
#[derive(Debug, Clone, Copy, PartialEq, Eq, Structural)]
pub struct ResizePreset {
    pub max_width: Option<u32>,
    pub max_height: Option<u32>,
    pub maintain_aspect_ratio: bool,
}

/// A named set of compression settings for every format.
#[derive(Debug, Clone)]
pub struct CompressionPreset {
    pub name: String,
    pub description: String,
    pub jpeg: JpegPreset,
    pub png: PngPreset,
    pub webp: WebpPreset,
    pub avif: AvifPreset,
    pub jxl: JxlPreset,
    pub gif: GifPreset,
    pub resize: Option<ResizePreset>,
    pub strip_metadata: bool,
    /// Built-in presets cannot be deleted.
    pub builtin: bool,
}

/// The settings of a preset other than its name and description.
pub open spec fn settings_are(
    p: CompressionPreset,
    jpeg: JpegPreset,
    png: PngPreset,
    webp: WebpPreset,
    avif: AvifPreset,
    jxl: JxlPreset,
    gif: GifPreset,
    strip_metadata: bool,
) -> bool {
    &&& p.jpeg == jpeg
    &&& p.png == png
    &&& p.webp == webp
    &&& p.avif == avif
    &&& p.jxl == jxl
    &&& p.gif == gif
    &&& p.resize is None
    &&& p.strip_metadata == strip_metadata
    &&& p.builtin
}

/// The web preset: balance of size and quality.
pub open spec fn is_web_optimized(p: CompressionPreset) -> bool {
    &&& p.name@ == "web_optimized"@
    &&& p.description@ == "Web 优化 - 平衡压缩率和质量"@
    &&& settings_are(
        p,
        JpegPreset { quality: 80, progressive: true },
        PngPreset { lossy: true, optimization_level: 2 },
        WebpPreset { quality: 80, lossless: false },
        AvifPreset { quality: 70, speed: 6 },
        JxlPreset { quality: 75, effort: 7 },
        GifPreset { quality: 80, fast: false },
        true,
    )
}

/// The high-quality preset: least visible loss.
pub open spec fn is_high_quality(p: CompressionPreset) -> bool {
    &&& p.name@ == "high_quality"@
    &&& p.description@ == "高质量 - 最小视觉损失"@
    &&& settings_are(
        p,
        JpegPreset { quality: 92, progressive: true },
        PngPreset { lossy: false, optimization_level: 4 },
        WebpPreset { quality: 90, lossless: false },
        AvifPreset { quality: 85, speed: 4 },
        JxlPreset { quality: 90, effort: 7 },
        GifPreset { quality: 90, fast: false },
        false,
    )
}

/// The smallest-size preset: aggressive compression.
pub open spec fn is_smallest_size(p: CompressionPreset) -> bool {
    &&& p.name@ == "smallest_size"@
    &&& p.description@ == "最小体积 - 激进压缩"@
    &&& settings_are(
        p,
        JpegPreset { quality: 60, progressive: true },
        PngPreset { lossy: true, optimization_level: 6 },
        WebpPreset { quality: 50, lossless: false },
        AvifPreset { quality: 50, speed: 8 },
        JxlPreset { quality: 60, effort: 9 },
        GifPreset { quality: 60, fast: true },
        true,
    )
}

/// The lossless preset: no loss of quality.
pub open spec fn is_lossless(p: CompressionPreset) -> bool {
    &&& p.name@ == "lossless"@
    &&& p.description@ == "无损 - 不损失任何画质"@
    &&& settings_are(
        p,
        JpegPreset { quality: 100, progressive: true },
        PngPreset { lossy: false, optimization_level: 4 },
        WebpPreset { quality: 100, lossless: true },
        AvifPreset { quality: 100, speed: 4 },
        JxlPreset { quality: 100, effort: 7 },
        GifPreset { quality: 100, fast: false },
        false,
    )
}

impl CompressionPreset {
    /// Built-in preset: web optimised.
    pub fn web_optimized() -> (r: Self)
        ensures
            is_web_optimized(r),
    {
        CompressionPreset {
            name: String::from_str("web_optimized"),
            description: String::from_str("Web 优化 - 平衡压缩率和质量"),
            jpeg: JpegPreset { quality: 80, progressive: true },
            png: PngPreset { lossy: true, optimization_level: 2 },
            webp: WebpPreset { quality: 80, lossless: false },
            avif: AvifPreset { quality: 70, speed: 6 },
            jxl: JxlPreset { quality: 75, effort: 7 },
            gif: GifPreset { quality: 80, fast: false },
            resize: None,
            strip_metadata: true,
            builtin: true,
        }
    }

    /// Built-in preset: high quality.
    pub fn high_quality() -> (r: Self)
        ensures
            is_high_quality(r),
    {
        CompressionPreset {
            name: String::from_str("high_quality"),
            description: String::from_str("高质量 - 最小视觉损失"),
            jpeg: JpegPreset { quality: 92, progressive: true },
            png: PngPreset { lossy: false, optimization_level: 4 },
            webp: WebpPreset { quality: 90, lossless: false },
            avif: AvifPreset { quality: 85, speed: 4 },
            jxl: JxlPreset { quality: 90, effort: 7 },
            gif: GifPreset { quality: 90, fast: false },
            resize: None,
            strip_metadata: false,
            builtin: true,
        }
    }

    /// Built-in preset: smallest size.
    pub fn smallest_size() -> (r: Self)
        ensures
            is_smallest_size(r),
    {
        CompressionPreset {
            name: String::from_str("smallest_size"),
            description: String::from_str("最小体积 - 激进压缩"),
            jpeg: JpegPreset { quality: 60, progressive: true },
            png: PngPreset { lossy: true, optimization_level: 6 },
            webp: WebpPreset { quality: 50, lossless: false },
            avif: AvifPreset { quality: 50, speed: 8 },
            jxl: JxlPreset { quality: 60, effort: 9 },
            gif: GifPreset { quality: 60, fast: true },
            resize: None,
            strip_metadata: true,
            builtin: true,
        }
    }

    /// Built-in preset: lossless.
    pub fn lossless() -> (r: Self)
        ensures
            is_lossless(r),
    {
        CompressionPreset {
            name: String::from_str("lossless"),
            description: String::from_str("无损 - 不损失任何画质"),
            jpeg: JpegPreset { quality: 100, progressive: true },
            png: PngPreset { lossy: false, optimization_level: 4 },
            webp: WebpPreset { quality: 100, lossless: true },
            avif: AvifPreset { quality: 100, speed: 4 },
            jxl: JxlPreset { quality: 100, effort: 7 },
            gif: GifPreset { quality: 100, fast: false },
            resize: None,
            strip_metadata: false,
            builtin: true,
        }
    }

    /// The four built-in presets: web, high quality, smallest size, lossless.
    pub fn builtin_presets() -> (r: Vec<Self>)
        ensures
            r@.len() == 4,
            is_web_optimized(r@[0]),
            is_high_quality(r@[1]),
            is_smallest_size(r@[2]),
            is_lossless(r@[3]),
    {
        let mut v = Vec::new();
        v.push(CompressionPreset::web_optimized());
        v.push(CompressionPreset::high_quality());
        v.push(CompressionPreset::smallest_size());
        v.push(CompressionPreset::lossless());
        v
    }
}

/// The built-in presets are all marked built-in and have four different names.
pub proof fn law_builtin_presets_distinct(ps: Seq<CompressionPreset>)
    requires
        ps.len() == 4,
        is_web_optimized(ps[0]),
        is_high_quality(ps[1]),
        is_smallest_size(ps[2]),
        is_lossless(ps[3]),
    ensures
        forall|i: int| 0 <= i < 4 ==> #[trigger] ps[i].builtin,
        forall|i: int, j: int| 0 <= i < j < 4 ==> ps[i].name@ != ps[j].name@,
{
    reveal_strlit("web_optimized");
    reveal_strlit("high_quality");
    reveal_strlit("smallest_size");
    reveal_strlit("lossless");
    assert(ps[0].name@[0] != ps[1].name@[0]);
    assert(ps[0].name@[0] != ps[2].name@[0]);
    assert(ps[0].name@ != ps[3].name@);
    assert(ps[1].name@ != ps[2].name@);
    assert(ps[1].name@ != ps[3].name@);
    assert(ps[2].name@ != ps[3].name@);
}

} // verus!
