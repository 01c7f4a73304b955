use vstd::prelude::*;
use vstd::string::StringSliceAdditionalSpecFns;

verus! {

/// The image formats the engine knows.
#[derive(Debug, Clone, Copy, PartialEq, Eq, Hash, Structural)]
pub enum ImageFormat {
    Jpeg,
    Png,
    WebP,
    Avif,
    Jxl,
    Gif,
    Svg,
}

/// ASCII lower-casing of one byte: `A`..`Z` become `a`..`z`, every other byte stays.
pub open spec fn ascii_lower_byte(b: u8) -> u8 {
    if 0x41 <= b && b <= 0x5A {
        (b + 0x20) as u8
    } else {
        b
    }
}

/// ASCII lower-casing of a byte string (bytes of multi-byte UTF-8 characters are all
/// at least 0x80, so they are left as they are).
pub open spec fn ascii_lower(s: Seq<u8>) -> Seq<u8> {
    Seq::new(s.len(), |i: int| ascii_lower_byte(s[i]))
}

/// The format named by an already lower-cased file extension.
pub open spec fn format_of_lower_ext(e: Seq<u8>) -> Option<ImageFormat> {
    if e == seq![0x6Au8, 0x70u8, 0x67u8] || e == seq![0x6Au8, 0x70u8, 0x65u8, 0x67u8] {
        Some(ImageFormat::Jpeg)
    } else if e == seq![0x70u8, 0x6Eu8, 0x67u8] || e == seq![0x61u8, 0x70u8, 0x6Eu8, 0x67u8] {
        Some(ImageFormat::Png)
    } else if e == seq![0x77u8, 0x65u8, 0x62u8, 0x70u8] {
        Some(ImageFormat::WebP)
    } else if e == seq![0x61u8, 0x76u8, 0x69u8, 0x66u8] {
        Some(ImageFormat::Avif)
    } else if e == seq![0x6Au8, 0x78u8, 0x6Cu8] {
        Some(ImageFormat::Jxl)
    } else if e == seq![0x67u8, 0x69u8, 0x66u8] {
        Some(ImageFormat::Gif)
    } else if e == seq![0x73u8, 0x76u8, 0x67u8] || e == seq![0x73u8, 0x76u8, 0x67u8, 0x7Au8] {
        Some(ImageFormat::Svg)
    } else {
        None
    }
}

/// The format named by a file extension, compared without regard to ASCII case.
pub open spec fn format_of_ext(e: Seq<u8>) -> Option<ImageFormat> {
    format_of_lower_ext(ascii_lower(e))
}

/// The default file extension of a format.
pub open spec fn ext_bytes(f: ImageFormat) -> Seq<u8> {
    match f {
        ImageFormat::Jpeg => seq![0x6Au8, 0x70u8, 0x67u8],
        ImageFormat::Png => seq![0x70u8, 0x6Eu8, 0x67u8],
        ImageFormat::WebP => seq![0x77u8, 0x65u8, 0x62u8, 0x70u8],
        ImageFormat::Avif => seq![0x61u8, 0x76u8, 0x69u8, 0x66u8],
        ImageFormat::Jxl => seq![0x6Au8, 0x78u8, 0x6Cu8],
        ImageFormat::Gif => seq![0x67u8, 0x69u8, 0x66u8],
        ImageFormat::Svg => seq![0x73u8, 0x76u8, 0x67u8],
    }
}

/// The name under which a format is shown to users.
pub open spec fn display_chars(f: ImageFormat) -> Seq<char> {
    match f {
        ImageFormat::Jpeg => seq!['J', 'P', 'E', 'G'],
        ImageFormat::Png => seq!['P', 'N', 'G'],
        ImageFormat::WebP => seq!['W', 'e', 'b', 'P'],
        ImageFormat::Avif => seq!['A', 'V', 'I', 'F'],
        ImageFormat::Jxl => seq!['J', 'P', 'E', 'G', ' ', 'X', 'L'],
        ImageFormat::Gif => seq!['G', 'I', 'F'],
        ImageFormat::Svg => seq!['S', 'V', 'G'],
    }
}

/// `s` begins with the bytes of `p`.
pub open spec fn starts_with(s: Seq<u8>, p: Seq<u8>) -> bool {
    p.len() <= s.len() && s.subrange(0, p.len() as int) == p
}

/// The format recognised from the first bytes of a file.
///
/// Data shorter than four bytes is never recognised; the checks are tried in this order.
pub open spec fn format_of_magic(d: Seq<u8>) -> Option<ImageFormat> {
    if d.len() < 4 {
        None
    } else if starts_with(d, seq![0xFFu8, 0xD8u8, 0xFFu8]) {
        Some(ImageFormat::Jpeg)
    } else if starts_with(d, seq![0x89u8, 0x50u8, 0x4Eu8, 0x47u8]) {
        Some(ImageFormat::Png)
    } else if d.len() >= 12 && d.subrange(0, 4) == seq![0x52u8, 0x49u8, 0x46u8, 0x46u8]
        && d.subrange(8, 12) == seq![0x57u8, 0x45u8, 0x42u8, 0x50u8] {
        Some(ImageFormat::WebP)
    } else if d.len() >= 12 && d.subrange(4, 12) == seq![
        0x66u8,
        0x74u8,
        0x79u8,
        0x70u8,
        0x61u8,
        0x76u8,
        0x69u8,
        0x66u8,
    ] {
        Some(ImageFormat::Avif)
    } else if starts_with(d, seq![0xFFu8, 0x0Au8]) || starts_with(
        d,
        seq![0x00u8, 0x00u8, 0x00u8, 0x0Cu8],
    ) {
        Some(ImageFormat::Jxl)
    } else if starts_with(d, seq![0x47u8, 0x49u8, 0x46u8, 0x38u8]) {
        Some(ImageFormat::Gif)
    } else if starts_with(d, seq![0x3Cu8, 0x3Fu8, 0x78u8, 0x6Du8, 0x6Cu8]) || starts_with(
        d,
        seq![0x3Cu8, 0x73u8, 0x76u8, 0x67u8],
    ) {
        Some(ImageFormat::Svg)
    } else {
        None
    }
}

/// The bytes of an optional extension.
pub open spec fn ext_of(extension: Option<&str>) -> Option<Seq<u8>> {
    match extension {
        Some(e) => Some(e.spec_bytes()),
        None => None,
    }
}

/// The format of a file: recognised from its content first, from its extension otherwise.
pub open spec fn detected_format(data: Seq<u8>, ext: Option<Seq<u8>>) -> Option<ImageFormat> {
    match format_of_magic(data) {
        Some(f) => Some(f),
        None => match ext {
            Some(e) => format_of_ext(e),
            None => None,
        },
    }
}

/// Byte-wise equality of two slices.
pub(crate) fn bytes_equal(a: &[u8], b: &[u8]) -> (r: bool)
    ensures
        r == (a@ == b@),
{
    if a.len() != b.len() {
        return false;
    }
    let mut i: usize = 0;
    while i < a.len()
        invariant
            a@.len() == b@.len(),
            i <= a@.len(),
            forall|j: int| 0 <= j < i ==> a@[j] == b@[j],
        decreases a@.len() - i,
    {
        if a[i] != b[i] {
            return false;
        }
        i = i + 1;
    }
    assert(a@ =~= b@);
    true
}

/// Whether `d` begins with the bytes of `p`.
fn has_prefix(d: &[u8], p: &[u8]) -> (r: bool)
    ensures
        r == starts_with(d@, p@),
{
    if p.len() > d.len() {
        return false;
    }
    let mut i: usize = 0;
    while i < p.len()
        invariant
            p@.len() <= d@.len(),
            i <= p@.len(),
            forall|j: int| 0 <= j < i ==> d@[j] == p@[j],
        decreases p@.len() - i,
    {
        if d[i] != p[i] {
            assert(d@.subrange(0, p@.len() as int)[i as int] != p@[i as int]);
            return false;
        }
        i = i + 1;
    }
    assert(d@.subrange(0, p@.len() as int) =~= p@);
    true
}

/// Whether `d[start..start + p.len()]` holds the bytes of `p`; `d` must be long enough.
fn has_at(d: &[u8], start: usize, p: &[u8]) -> (r: bool)
    requires
        start + p@.len() <= d@.len(),
    ensures
        r == (d@.subrange(start as int, start + p@.len()) == p@),
{
    let n = d.len();
    let mut i: usize = 0;
    while i < p.len()
        invariant
            n == d@.len(),
            start + p@.len() <= d@.len(),
            i <= p@.len(),
            forall|j: int| 0 <= j < i ==> d@[start + j] == p@[j],
        decreases p@.len() - i,
    {
        if d[start + i] != p[i] {
            assert(d@.subrange(start as int, start + p@.len())[i as int] != p@[i as int]);
            return false;
        }
        i = i + 1;
    }
    assert(d@.subrange(start as int, start + p@.len()) =~= p@);
    true
}

/// ASCII lower-casing of a byte slice into a new vector.
pub(crate) fn lower_ascii_bytes(s: &[u8]) -> (r: Vec<u8>)
    ensures
        r@ == ascii_lower(s@),
{
    let mut out: Vec<u8> = Vec::new();
    let mut i: usize = 0;
    while i < s.len()
        invariant
            i <= s@.len(),
            out@ == ascii_lower(s@.subrange(0, i as int)),
        decreases s@.len() - i,
    {
        let b = s[i];
        let l: u8 = if 0x41 <= b && b <= 0x5A {
            b + 0x20
        } else {
            b
        };
        out.push(l);
        i = i + 1;
        assert(out@ =~= ascii_lower(s@.subrange(0, i as int)));
    }
    assert(s@.subrange(0, s@.len() as int) =~= s@);
    out
}

impl ImageFormat {
    /// The format named by a file extension, ignoring ASCII case
    /// (`jpg`/`jpeg`, `png`/`apng`, `webp`, `avif`, `jxl`, `gif`, `svg`/`svgz`).
    pub fn from_extension(ext: &str) -> (r: Option<ImageFormat>)
        ensures
            r == format_of_ext(ext.spec_bytes()),
    {
        let lower = lower_ascii_bytes(ext.as_bytes());
        let l = lower.as_slice();
        if bytes_equal(l, &[0x6Au8, 0x70u8, 0x67u8]) || bytes_equal(l, &[0x6Au8, 0x70u8, 0x65u8, 0x67u8]) {
            Some(ImageFormat::Jpeg)
        } else if bytes_equal(l, &[0x70u8, 0x6Eu8, 0x67u8]) || bytes_equal(l, &[0x61u8, 0x70u8, 0x6Eu8, 0x67u8]) {
            Some(ImageFormat::Png)
        } else if bytes_equal(l, &[0x77u8, 0x65u8, 0x62u8, 0x70u8]) {
            Some(ImageFormat::WebP)
        } else if bytes_equal(l, &[0x61u8, 0x76u8, 0x69u8, 0x66u8]) {
            Some(ImageFormat::Avif)
        } else if bytes_equal(l, &[0x6Au8, 0x78u8, 0x6Cu8]) {
            Some(ImageFormat::Jxl)
        } else if bytes_equal(l, &[0x67u8, 0x69u8, 0x66u8]) {
            Some(ImageFormat::Gif)
        } else if bytes_equal(l, &[0x73u8, 0x76u8, 0x67u8]) || bytes_equal(l, &[0x73u8, 0x76u8, 0x67u8, 0x7Au8]) {
            Some(ImageFormat::Svg)
        } else {
            None
        }
    }

    /// The default file extension of the format.
    pub fn extension(&self) -> (r: &'static str)
        ensures
            r.spec_bytes() == ext_bytes(*self),
            r@.len() == ext_bytes(*self).len(),
    {
        broadcast use vstd::string::is_ascii_spec_bytes;
        match self {
            ImageFormat::Jpeg => {
                proof { reveal_strlit("jpg"); }
                assert(vstd::string::is_ascii("jpg"));
                "jpg"
            },
            ImageFormat::Png => {
                proof { reveal_strlit("png"); }
                assert(vstd::string::is_ascii("png"));
                "png"
            },
            ImageFormat::WebP => {
                proof { reveal_strlit("webp"); }
                assert(vstd::string::is_ascii("webp"));
                "webp"
            },
            ImageFormat::Avif => {
                proof { reveal_strlit("avif"); }
                assert(vstd::string::is_ascii("avif"));
                "avif"
            },
            ImageFormat::Jxl => {
                proof { reveal_strlit("jxl"); }
                assert(vstd::string::is_ascii("jxl"));
                "jxl"
            },
            ImageFormat::Gif => {
                proof { reveal_strlit("gif"); }
                assert(vstd::string::is_ascii("gif"));
                "gif"
            },
            ImageFormat::Svg => {
                proof { reveal_strlit("svg"); }
                assert(vstd::string::is_ascii("svg"));
                "svg"
            },
        }
    }

    /// The format recognised from the first bytes of a file (JPEG, PNG, RIFF/WEBP,
    /// `ftypavif`, JPEG XL codestream or container, GIF8, `<?xml` or `<svg`).
    pub fn from_magic_bytes(data: &[u8]) -> (r: Option<ImageFormat>)
        ensures
            r == format_of_magic(data@),
    {
        if data.len() < 4 {
            return None;
        }
        if has_prefix(data, &[0xFFu8, 0xD8u8, 0xFFu8]) {
            Some(ImageFormat::Jpeg)
        } else if has_prefix(data, &[0x89u8, 0x50u8, 0x4Eu8, 0x47u8]) {
            Some(ImageFormat::Png)
        } else if data.len() >= 12 && has_at(data, 0, &[0x52u8, 0x49u8, 0x46u8, 0x46u8])
            && has_at(data, 8, &[0x57u8, 0x45u8, 0x42u8, 0x50u8]) {
            Some(ImageFormat::WebP)
        } else if data.len() >= 12 && has_at(
            data,
            4,
            &[0x66u8, 0x74u8, 0x79u8, 0x70u8, 0x61u8, 0x76u8, 0x69u8, 0x66u8],
        ) {
            Some(ImageFormat::Avif)
        } else if has_prefix(data, &[0xFFu8, 0x0Au8]) || has_prefix(
            data,
            &[0x00u8, 0x00u8, 0x00u8, 0x0Cu8],
        ) {
            Some(ImageFormat::Jxl)
        } else if has_prefix(data, &[0x47u8, 0x49u8, 0x46u8, 0x38u8]) {
            Some(ImageFormat::Gif)
        } else if has_prefix(data, &[0x3Cu8, 0x3Fu8, 0x78u8, 0x6Du8, 0x6Cu8]) || has_prefix(
            data,
            &[0x3Cu8, 0x73u8, 0x76u8, 0x67u8],
        ) {
            Some(ImageFormat::Svg)
        } else {
            None
        }
    }

    /// The name under which the format is shown (`JPEG`, `PNG`, `WebP`, `AVIF`,
    /// `JPEG XL`, `GIF`, `SVG`).
    pub fn display_name(&self) -> (r: &'static str)
        ensures
            r@ == display_chars(*self),
    {
        match self {
            ImageFormat::Jpeg => {
                proof { reveal_strlit("JPEG"); }
                "JPEG"
            },
            ImageFormat::Png => {
                proof { reveal_strlit("PNG"); }
                "PNG"
            },
            ImageFormat::WebP => {
                proof { reveal_strlit("WebP"); }
                "WebP"
            },
            ImageFormat::Avif => {
                proof { reveal_strlit("AVIF"); }
                "AVIF"
            },
            ImageFormat::Jxl => {
                proof { reveal_strlit("JPEG XL"); }
                "JPEG XL"
            },
            ImageFormat::Gif => {
                proof { reveal_strlit("GIF"); }
                "GIF"
            },
            ImageFormat::Svg => {
                proof { reveal_strlit("SVG"); }
                "SVG"
            },
        }
    }

    /// The format of a file: recognised from its content first and, failing that,
    /// from its extension.
    pub fn detect(data: &[u8], extension: Option<&str>) -> (r: Option<ImageFormat>)
        ensures
            r == detected_format(data@, ext_of(extension)),
    {
        match ImageFormat::from_magic_bytes(data) {
            Some(f) => Some(f),
            None => match extension {
                Some(e) => ImageFormat::from_extension(e),
                None => None,
            },
        }
    }
}

/// Lower-casing a lower-case extension changes nothing.
proof fn lemma_ext_bytes_lower(f: ImageFormat)
    ensures
        ascii_lower(ext_bytes(f)) == ext_bytes(f),
{
    assert(ascii_lower(ext_bytes(f)) =~= ext_bytes(f));
}

/// Every format is found again from its own default extension.
pub proof fn law_extension_roundtrip(f: ImageFormat)
    ensures
        format_of_ext(ext_bytes(f)) == Some(f),
{
    lemma_ext_bytes_lower(f);
}

/// The extension is matched without regard to ASCII case: upper-casing letters of a
/// name does not change the format it names.
pub proof fn law_extension_case_insensitive(a: Seq<u8>, b: Seq<u8>)
    requires
        ascii_lower(a) == ascii_lower(b),
    ensures
        format_of_ext(a) == format_of_ext(b),
{
}

/// Content decides before the extension: whatever a file is called, a recognised
/// header wins.
pub proof fn law_magic_wins(data: Seq<u8>, ext: Option<Seq<u8>>)
    requires
        format_of_magic(data) is Some,
    ensures
        detected_format(data, ext) == format_of_magic(data),
{
}

/// Encoder settings, one set per output format.
#[derive(Debug, Clone, Copy, PartialEq, Eq, Structural)]
pub enum EncodeParams {
    Jpeg { quality: u8, progressive: bool },
    Png { lossy: bool, optimization_level: u8 },
    WebP { quality: u8, lossless: bool },
    Avif { quality: u8, speed: u8 },
    Jxl { quality: u8, effort: u8 },
    Gif { quality: u8, fast: bool },
    Svg { multipass: bool, precision: u8 },
    /// Keep the source format and its settings.
    Passthrough,
}

/// The format that a set of encoder settings produces (none for `Passthrough`).
pub open spec fn params_format(p: EncodeParams) -> Option<ImageFormat> {
    match p {
        EncodeParams::Jpeg { .. } => Some(ImageFormat::Jpeg),
        EncodeParams::Png { .. } => Some(ImageFormat::Png),
        EncodeParams::WebP { .. } => Some(ImageFormat::WebP),
        EncodeParams::Avif { .. } => Some(ImageFormat::Avif),
        EncodeParams::Jxl { .. } => Some(ImageFormat::Jxl),
        EncodeParams::Gif { .. } => Some(ImageFormat::Gif),
        EncodeParams::Svg { .. } => Some(ImageFormat::Svg),
        EncodeParams::Passthrough => None,
    }
}

impl EncodeParams {
    /// The format these settings produce; `None` for `Passthrough`.
    pub fn output_format(&self) -> (r: Option<ImageFormat>)
        ensures
            r == params_format(*self),
    {
        match self {
            EncodeParams::Jpeg { .. } => Some(ImageFormat::Jpeg),
            EncodeParams::Png { .. } => Some(ImageFormat::Png),
            EncodeParams::WebP { .. } => Some(ImageFormat::WebP),
            EncodeParams::Avif { .. } => Some(ImageFormat::Avif),
            EncodeParams::Jxl { .. } => Some(ImageFormat::Jxl),
            EncodeParams::Gif { .. } => Some(ImageFormat::Gif),
            EncodeParams::Svg { .. } => Some(ImageFormat::Svg),
            EncodeParams::Passthrough => None,
        }
    }
}

/// Which format the output is written in.
#[derive(Debug, Clone, Copy, PartialEq, Eq, Structural)]
pub enum OutputFormat {
    /// Keep the source format.
    Original,
    /// Convert to the given format.
    Convert(ImageFormat),
}

/// Bounds for scaling an image down.
#[derive(Debug, Clone, Copy, PartialEq, Eq, Structural)]
pub struct ResizeParams {
    pub max_width: Option<u32>,
    pub max_height: Option<u32>,
    pub maintain_aspect_ratio: bool,
}

/// Everything a user chooses for one compression.
#[derive(Debug, Clone, Copy, PartialEq, Eq, Structural)]
pub struct CompressionOptions {
    pub output_format: OutputFormat,
    pub encode_params: EncodeParams,
    pub resize: Option<ResizeParams>,
    pub strip_metadata: bool,
}

} // verus!
