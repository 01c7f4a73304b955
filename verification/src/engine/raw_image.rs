use crate::engine::params::ImageFormat;
use vstd::prelude::*;

verus! {

/// How the samples of a pixel buffer are laid out: 8 bits per channel.
#[derive(Debug, Clone, Copy, PartialEq, Eq, Structural)]
pub enum PixelLayout {
    Luma8,
    LumaA8,
    Rgb8,
    Rgba8,
}

/// Channels per pixel.
pub open spec fn channels(l: PixelLayout) -> nat {
    match l {
        PixelLayout::Luma8 => 1,
        PixelLayout::LumaA8 => 2,
        PixelLayout::Rgb8 => 3,
        PixelLayout::Rgba8 => 4,
    }
}

impl PixelLayout {
    /// Channels per pixel.
    pub fn channel_count(&self) -> (r: usize)
        ensures
            r == channels(*self),
    {
        match self {
            PixelLayout::Luma8 => 1,
            PixelLayout::LumaA8 => 2,
            PixelLayout::Rgb8 => 3,
            PixelLayout::Rgba8 => 4,
        }
    }
}

/// Decoded pixels: rows top to bottom, pixels left to right, channels in order.
#[derive(Debug, Clone)]
pub struct Pixels {
    pub width: u32,
    pub height: u32,
    pub layout: PixelLayout,
    pub data: Vec<u8>,
}

/// (width, height, layout, samples)
pub type PixelsView = (u32, u32, PixelLayout, Seq<u8>);

impl View for Pixels {
    type V = PixelsView;

    open spec fn view(&self) -> PixelsView {
        (self.width, self.height, self.layout, self.data@)
    }
}

/// The buffer holds exactly one sample per channel of every pixel.
pub open spec fn pixels_wf(p: PixelsView) -> bool {
    p.3.len() == p.0 * p.1 * channels(p.2)
}

/// Channel `c` (0 = red, 1 = green, 2 = blue, 3 = alpha) of pixel `i` seen as RGBA:
/// grey is copied to red, green and blue, a missing alpha is opaque.
pub open spec fn rgba_sample(p: PixelsView, i: int, c: int) -> u8 {
    let d = p.3;
    match p.2 {
        PixelLayout::Luma8 => if c < 3 {
            d[i]
        } else {
            255u8
        },
        PixelLayout::LumaA8 => if c < 3 {
            d[2 * i]
        } else {
            d[2 * i + 1]
        },
        PixelLayout::Rgb8 => if c < 3 {
            d[3 * i + c]
        } else {
            255u8
        },
        PixelLayout::Rgba8 => d[4 * i + c],
    }
}

/// The pixels as RGB samples (alpha dropped).
pub open spec fn rgb_samples(p: PixelsView) -> Seq<u8> {
    Seq::new((p.0 * p.1 * 3) as nat, |k: int| rgba_sample(p, k / 3, k % 3))
}

/// The pixels as RGBA samples (opaque where there is no alpha).
pub open spec fn rgba_samples(p: PixelsView) -> Seq<u8> {
    Seq::new((p.0 * p.1 * 4) as nat, |k: int| rgba_sample(p, k / 4, k % 4))
}

/// Law: converting to RGB / RGBA keeps each pixel's channels in order. A buffer already
/// in the target layout comes back unchanged; RGB gains an opaque alpha; grey is copied
/// to red, green and blue; RGBA to RGB drops only the alpha.
pub proof fn law_conversion_keeps_channels(p: PixelsView)
    requires
        pixels_wf(p),
    ensures
        p.2 == PixelLayout::Rgb8 ==> rgb_samples(p) == p.3,
        p.2 == PixelLayout::Rgba8 ==> rgba_samples(p) == p.3,
        forall|i: int, c: int|
            0 <= i < p.0 * p.1 && 0 <= c < 3 ==> #[trigger] rgb_samples(p)[3 * i + c]
                == rgba_samples(p)[4 * i + c] && rgba_samples(p)[4 * i + c] == match p.2 {
                PixelLayout::Luma8 => p.3[i],
                PixelLayout::LumaA8 => p.3[2 * i],
                PixelLayout::Rgb8 => p.3[3 * i + c],
                PixelLayout::Rgba8 => p.3[4 * i + c],
            },
        forall|i: int|
            0 <= i < p.0 * p.1 ==> #[trigger] rgba_samples(p)[4 * i + 3] == match p.2 {
                PixelLayout::LumaA8 => p.3[2 * i + 1],
                PixelLayout::Rgba8 => p.3[4 * i + 3],
                _ => 255u8,
            },
{
    let n = p.0 * p.1;
    assert forall|i: int, c: int| 0 <= i < n && 0 <= c < 3 implies #[trigger] rgb_samples(p)[3 * i
        + c] == rgba_samples(p)[4 * i + c] && rgba_samples(p)[4 * i + c] == match p.2 {
        PixelLayout::Luma8 => p.3[i],
        PixelLayout::LumaA8 => p.3[2 * i],
        PixelLayout::Rgb8 => p.3[3 * i + c],
        PixelLayout::Rgba8 => p.3[4 * i + c],
    } by {
        assert((3 * i + c) / 3 == i && (3 * i + c) % 3 == c) by (nonlinear_arith)
            requires
                0 <= c < 3,
        ;
        assert((4 * i + c) / 4 == i && (4 * i + c) % 4 == c) by (nonlinear_arith)
            requires
                0 <= c < 3,
        ;
        assert(3 * i + c < n * 3 && 4 * i + c < n * 4) by (nonlinear_arith)
            requires
                0 <= i < n,
                0 <= c < 3,
        ;
    }
    assert forall|i: int| 0 <= i < n implies #[trigger] rgba_samples(p)[4 * i + 3] == match p.2 {
        PixelLayout::LumaA8 => p.3[2 * i + 1],
        PixelLayout::Rgba8 => p.3[4 * i + 3],
        _ => 255u8,
    } by {
        assert((4 * i + 3) / 4 == i && (4 * i + 3) % 4 == 3) by (nonlinear_arith);
        assert(4 * i + 3 < n * 4) by (nonlinear_arith)
            requires
                0 <= i < n,
        ;
    }
    if p.2 == PixelLayout::Rgb8 {
        assert forall|k: int| 0 <= k < n * 3 implies rgb_samples(p)[k] == p.3[k] by {
            assert(3 * (k / 3) + k % 3 == k && 0 <= k % 3 < 3) by (nonlinear_arith);
        }
        assert(rgb_samples(p) =~= p.3);
    }
    if p.2 == PixelLayout::Rgba8 {
        assert forall|k: int| 0 <= k < n * 4 implies rgba_samples(p)[k] == p.3[k] by {
            assert(4 * (k / 4) + k % 4 == k && 0 <= k % 4 < 4) by (nonlinear_arith);
        }
        assert(rgba_samples(p) =~= p.3);
    }
}

impl Pixels {
    /// Whether the buffer holds exactly one sample per channel of every pixel.
    pub fn is_wf(&self) -> (r: bool)
        ensures
            r == pixels_wf(self@),
    {
        proof {
            assert(self.width * self.height <= 0xffff_ffff * 0xffff_ffff) by (nonlinear_arith)
                requires
                    self.width <= 0xffff_ffff,
                    self.height <= 0xffff_ffff,
            ;
        }
        let n: u128 = (self.width as u128) * (self.height as u128);
        let ch: u128 = self.layout.channel_count() as u128;
        proof {
            assert(n * ch <= n * 4) by (nonlinear_arith)
                requires
                    ch <= 4,
            ;
        }
        self.data.len() as u128 == n * ch
    }

    /// A copy of the buffer.
    pub fn duplicate(&self) -> (r: Pixels)
        ensures
            r@ == self@,
    {
        let data = self.data.clone();
        assert(data@ =~= self.data@);
        Pixels { width: self.width, height: self.height, layout: self.layout, data }
    }

    /// The samples converted to 8-bit RGB, three per pixel.
    pub fn to_rgb8(&self) -> (r: Vec<u8>)
        requires
            pixels_wf(self@),
            self.width * self.height * 4 <= usize::MAX,
        ensures
            r@ == rgb_samples(self@),
    {
        self.convert(3)
    }

    /// The samples converted to 8-bit RGBA, four per pixel.
    pub fn to_rgba8(&self) -> (r: Vec<u8>)
        requires
            pixels_wf(self@),
            self.width * self.height * 4 <= usize::MAX,
        ensures
            r@ == rgba_samples(self@),
    {
        self.convert(4)
    }

    fn convert(&self, out_channels: usize) -> (r: Vec<u8>)
        requires
            pixels_wf(self@),
            self.width * self.height * 4 <= usize::MAX,
            out_channels == 3 || out_channels == 4,
        ensures
            r@ == Seq::new(
                (self.width * self.height * out_channels) as nat,
                |k: int| rgba_sample(self@, k / out_channels as int, k % out_channels as int),
            ),
    {
        let ghost p = self@;
        let ghost oc = out_channels as int;
        let n = (self.width as usize) * (self.height as usize);
        let mut out: Vec<u8> = Vec::new();
        let mut i: usize = 0;
        while i < n
            invariant
                p == self@,
                pixels_wf(p),
                n == self.width * self.height,
                n * 4 <= usize::MAX,
                oc == out_channels,
                out_channels == 3 || out_channels == 4,
                i <= n,
                out@ == Seq::new((i * oc) as nat, |k: int| rgba_sample(p, k / oc, k % oc)),
            decreases n - i,
        {
            let mut c: usize = 0;
            while c < out_channels
                invariant
                    p == self@,
                    pixels_wf(p),
                    n == self.width * self.height,
                    n * 4 <= usize::MAX,
                    oc == out_channels,
                    out_channels == 3 || out_channels == 4,
                    i < n,
                    c <= out_channels,
                    out@ == Seq::new((i * oc + c) as nat, |k: int| rgba_sample(p, k / oc, k % oc)),
                decreases out_channels - c,
            {
                let v = self.sample(i, c);
                out.push(v);
                proof {
                    let k = i * oc + c;
                    assert(k / oc == i as int && k % oc == c as int) by (nonlinear_arith)
                        requires
                            k == i * oc + c,
                            0 <= c < oc,
                            oc > 0,
                    ;
                }
                c = c + 1;
                assert(out@ =~= Seq::new((i * oc + c) as nat, |k: int| rgba_sample(p, k / oc, k % oc)));
            }
            proof {
                assert(i * oc + oc == (i + 1) * oc) by (nonlinear_arith);
            }
            i = i + 1;
        }
        proof {
            assert(n * oc == self.width * self.height * out_channels);
        }
        out
    }

    /// Channel `c` of pixel `i`, seen as RGBA.
    fn sample(&self, i: usize, c: usize) -> (r: u8)
        requires
            pixels_wf(self@),
            i < self.width * self.height,
            self.width * self.height * 4 <= usize::MAX,
            c < 4,
        ensures
            r == rgba_sample(self@, i as int, c as int),
    {
        proof {
            let n = self.width * self.height;
            let ch = channels(self.layout);
            assert(self.data@.len() == n * ch);
            assert(i * ch + ch <= n * ch) by (nonlinear_arith)
                requires
                    i < n,
                    ch >= 1,
            ;
            assert(n * ch <= n * 4) by (nonlinear_arith)
                requires
                    ch <= 4,
                    n >= 0,
            ;
        }
        match self.layout {
            PixelLayout::Luma8 => if c < 3 {
                self.data[i]
            } else {
                255
            },
            PixelLayout::LumaA8 => if c < 3 {
                proof {
                    assert(2 * i + 1 < self.data@.len());
                }
                self.data[2 * i]
            } else {
                proof {
                    assert(2 * i + 1 < self.data@.len());
                }
                self.data[2 * i + 1]
            },
            PixelLayout::Rgb8 => if c < 3 {
                self.data[3 * i + c]
            } else {
                255
            },
            PixelLayout::Rgba8 => self.data[4 * i + c],
        }
    }
}

/// Metadata carried along with the pixels.
#[derive(Debug, Clone)]
pub struct ImageMetadata {
    /// Raw EXIF bytes.
    pub exif: Option<Vec<u8>>,
    /// ICC colour profile.
    pub icc_profile: Option<Vec<u8>>,
    /// XMP packet.
    pub xmp: Option<Vec<u8>>,
}

impl ImageMetadata {
    /// No metadata.
    pub fn empty() -> (r: Self)
        ensures
            r.exif is None,
            r.icc_profile is None,
            r.xmp is None,
    {
        ImageMetadata { exif: None, icc_profile: None, xmp: None }
    }
}

impl Default for ImageMetadata {
    fn default() -> (r: Self)
        ensures
            r.exif is None,
            r.icc_profile is None,
            r.xmp is None,
    {
        ImageMetadata::empty()
    }
}

/// The unit that flows through decode -> preprocess -> encode: pixels with their source
/// format, metadata and path.
#[derive(Debug, Clone)]
pub struct RawImage {
    pub pixels: Pixels,
    pub source_format: ImageFormat,
    pub metadata: ImageMetadata,
    pub source_path: String,
}

impl RawImage {
    /// An image without metadata.
    pub fn new(pixels: Pixels, source_format: ImageFormat, source_path: String) -> (r: Self)
        ensures
            r.pixels@ == pixels@,
            r.source_format == source_format,
            r.source_path@ == source_path@,
            r.metadata.exif is None,
            r.metadata.icc_profile is None,
            r.metadata.xmp is None,
    {
        RawImage { pixels, source_format, metadata: ImageMetadata::empty(), source_path }
    }

    pub fn width(&self) -> (r: u32)
        ensures
            r == self.pixels.width,
    {
        self.pixels.width
    }

    pub fn height(&self) -> (r: u32)
        ensures
            r == self.pixels.height,
    {
        self.pixels.height
    }
}

} // verus!
