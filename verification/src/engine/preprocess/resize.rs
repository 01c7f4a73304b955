use crate::engine::codec::EngineError;
use crate::engine::preprocess::Preprocessor;
use crate::engine::raw_image::{pixels_wf, PixelLayout, Pixels, RawImage};
use vstd::prelude::*;

verus! {

/// `n / d` rounded to the nearest integer, halves away from zero (`n >= 0`, `d > 0`).
pub open spec fn round_ratio(n: int, d: int) -> int {
    (2 * n + d) / (2 * d)
}

/// A side of zero pixels is raised to one.
pub open spec fn at_least_one(x: int) -> int {
    if x < 1 {
        1
    } else {
        x
    }
}

/// The scale factor as a fraction `(numerator, denominator)`: the smaller of
/// `max_w / src_w` and `max_h / src_h`, leaving out a ratio whose source side is zero.
pub open spec fn scale_fraction(mw: int, mh: int, sw: int, sh: int) -> (int, int) {
    if sw == 0 {
        (mh, sh)
    } else if sh == 0 {
        (mw, sw)
    } else if mw * sh <= mh * sw {
        (mw, sw)
    } else {
        (mh, sh)
    }
}

/// The size to which an image of `src_w` x `src_h` is scaled so that it fits within the
/// limits (a missing limit is the source side), keeping the aspect ratio: `None` when it
/// already fits, otherwise both sides times the scale, rounded, at least one pixel.
pub open spec fn fit_size(max_w: Option<u32>, max_h: Option<u32>, src_w: u32, src_h: u32) -> Option<
    (u32, u32),
> {
    let mw: int = match max_w {
        Some(m) => m as int,
        None => src_w as int,
    };
    let mh: int = match max_h {
        Some(m) => m as int,
        None => src_h as int,
    };
    if src_w <= mw && src_h <= mh {
        None
    } else {
        let (p, q) = scale_fraction(mw, mh, src_w as int, src_h as int);
        Some(
            (
                at_least_one(round_ratio(src_w * p, q)) as u32,
                at_least_one(round_ratio(src_h * p, q)) as u32,
            ),
        )
    }
}

/// Two `u32` values multiply within `u64`.
proof fn lemma_u32_product(a: int, b: int)
    requires
        0 <= a <= 0xffff_ffff,
        0 <= b <= 0xffff_ffff,
    ensures
        0 <= a * b <= 0xffff_fffe_0000_0001,
{
    assert(a * b <= 0xffff_ffff * 0xffff_ffff) by (nonlinear_arith)
        requires
            0 <= a <= 0xffff_ffff,
            0 <= b <= 0xffff_ffff,
    ;
    assert(0 <= a * b) by (nonlinear_arith)
        requires
            0 <= a,
            0 <= b,
    ;
}

/// `s * p / q`, rounded, at least one, for a scale below one.
fn scale_side(s: u32, p: u64, q: u64) -> (r: u32)
    requires
        p < q,
        q <= u32::MAX,
    ensures
        r == at_least_one(round_ratio(s * p, q as int)),
        r <= if s < 1 { 1 } else { s as int },
{
    proof {
        lemma_u32_product(s as int, p as int);
    }
    let n: u128 = (s as u128) * (p as u128);
    let q2: u128 = 2 * (q as u128);
    let v: u128 = (2 * n + q as u128) / q2;
    proof {
        let si = s as int;
        let pi = p as int;
        let qi = q as int;
        assert(2 * (si * pi) + qi < (si + 1) * (2 * qi)) by (nonlinear_arith)
            requires
                0 <= pi < qi,
                si >= 0,
        ;
        assert((2 * (si * pi) + qi) / (2 * qi) <= si) by (nonlinear_arith)
            requires
                2 * (si * pi) + qi < (si + 1) * (2 * qi),
                qi > 0,
                2 * (si * pi) + qi >= 0,
        ;
    }
    if v < 1 {
        1
    } else {
        v as u32
    }
}

/// The target size of a resize: `fit_size`, computed exactly in integers.
pub fn fit_within(max_w: Option<u32>, max_h: Option<u32>, src_w: u32, src_h: u32) -> (r: Option<
    (u32, u32),
>)
    ensures
        r == fit_size(max_w, max_h, src_w, src_h),
{
    let mw = match max_w {
        Some(m) => m,
        None => src_w,
    };
    let mh = match max_h {
        Some(m) => m,
        None => src_h,
    };
    if src_w <= mw && src_h <= mh {
        return None;
    }
    proof {
        lemma_u32_product(mw as int, src_h as int);
        lemma_u32_product(mh as int, src_w as int);
    }
    let (p, q): (u64, u64) = if src_w == 0 {
        (mh as u64, src_h as u64)
    } else if src_h == 0 {
        (mw as u64, src_w as u64)
    } else if (mw as u64) * (src_h as u64) <= (mh as u64) * (src_w as u64) {
        (mw as u64, src_w as u64)
    } else {
        (mh as u64, src_h as u64)
    };
    proof {
        let (mwi, mhi, swi, shi) = (mw as int, mh as int, src_w as int, src_h as int);
        if swi > 0 && shi > 0 {
            if mwi * shi <= mhi * swi {
                assert(mwi < swi) by (nonlinear_arith)
                    requires
                        mwi * shi <= mhi * swi,
                        !(swi <= mwi && shi <= mhi),
                        swi > 0,
                        shi > 0,
                        mwi >= 0,
                ;
            } else {
                assert(mhi < shi) by (nonlinear_arith)
                    requires
                        mwi * shi > mhi * swi,
                        !(swi <= mwi && shi <= mhi),
                        swi > 0,
                        shi > 0,
                        mhi >= 0,
                ;
            }
        }
    }
    let dw = scale_side(src_w, p, q);
    let dh = scale_side(src_h, p, q);
    Some((dw, dh))
}

/// Resizing happens exactly when the image is larger than a limit.
pub proof fn law_resize_only_when_larger(max_w: Option<u32>, max_h: Option<u32>, src_w: u32, src_h: u32)
    ensures
        fit_size(max_w, max_h, src_w, src_h) is None <==> (max_w matches Some(m) ==> src_w <= m) && (
        max_h matches Some(m) ==> src_h <= m),
{
}

/// A resized image is never larger than its source (a side of zero becomes one).
pub proof fn law_resize_never_enlarges(max_w: Option<u32>, max_h: Option<u32>, src_w: u32, src_h: u32)
    ensures
        fit_size(max_w, max_h, src_w, src_h) matches Some((w, h)) ==> 1 <= w <= at_least_one(
            src_w as int,
        ) && 1 <= h <= at_least_one(src_h as int),
{
    let mw: int = match max_w {
        Some(m) => m as int,
        None => src_w as int,
    };
    let mh: int = match max_h {
        Some(m) => m as int,
        None => src_h as int,
    };
    if !(src_w <= mw && src_h <= mh) {
        let (p, q) = scale_fraction(mw, mh, src_w as int, src_h as int);
        lemma_scale_below_one(mw, mh, src_w as int, src_h as int);
        lemma_round_at_most(src_w as int, p, q);
        lemma_round_at_most(src_h as int, p, q);
    }
}

/// A resized image fits within the limits (each raised to at least one pixel).
pub proof fn law_resize_fits_limits(max_w: Option<u32>, max_h: Option<u32>, src_w: u32, src_h: u32)
    ensures
        fit_size(max_w, max_h, src_w, src_h) matches Some((w, h)) ==> {
            &&& (max_w matches Some(m) ==> w <= at_least_one(m as int))
            &&& (max_h matches Some(m) ==> h <= at_least_one(m as int))
        },
{
    lemma_fit_bounds(max_w, max_h, src_w, src_h);
}

/// With both limits set, the side that bounds the scale gets exactly its limit (raised
/// to at least one pixel).
pub proof fn law_binding_side_exact(max_w: u32, max_h: u32, src_w: u32, src_h: u32)
    requires
        src_w > 0,
        src_h > 0,
    ensures
        fit_size(Some(max_w), Some(max_h), src_w, src_h) matches Some((w, h)) ==> {
            &&& (max_w * src_h <= max_h * src_w ==> w == at_least_one(max_w as int))
            &&& (max_w * src_h >= max_h * src_w ==> h == at_least_one(max_h as int))
        },
{
    lemma_fit_bounds(Some(max_w), Some(max_h), src_w, src_h);
}

proof fn lemma_fit_bounds(max_w: Option<u32>, max_h: Option<u32>, src_w: u32, src_h: u32)
    ensures
        fit_size(max_w, max_h, src_w, src_h) matches Some((w, h)) ==> {
            let mw: int = match max_w {
                Some(m) => m as int,
                None => src_w as int,
            };
            let mh: int = match max_h {
                Some(m) => m as int,
                None => src_h as int,
            };
            &&& w <= at_least_one(mw)
            &&& h <= at_least_one(mh)
            &&& (src_w > 0 && src_h > 0 && mw * src_h <= mh * src_w ==> w == at_least_one(mw))
            &&& (src_w > 0 && src_h > 0 && mw * src_h >= mh * src_w ==> h == at_least_one(mh))
        },
{
    let mw: int = match max_w {
        Some(m) => m as int,
        None => src_w as int,
    };
    let mh: int = match max_h {
        Some(m) => m as int,
        None => src_h as int,
    };
    let (sw, sh) = (src_w as int, src_h as int);
    if !(sw <= mw && sh <= mh) {
        lemma_scale_below_one(mw, mh, sw, sh);
        let (p, q) = scale_fraction(mw, mh, sw, sh);
        lemma_round_at_most(sw, p, q);
        lemma_round_at_most(sh, p, q);
        if sw == 0 {
            lemma_round_exact(mh, sh);
        } else if sh == 0 {
            lemma_round_exact(mw, sw);
        } else if mw * sh <= mh * sw {
            lemma_round_exact(mw, sw);
            lemma_round_within(sh, mw, sw, mh);
            if mw * sh >= mh * sw {
                lemma_round_exact_ratio(sh, mw, sw, mh);
            }
        } else {
            lemma_round_exact(mh, sh);
            lemma_round_within(sw, mh, sh, mw);
        }
    }
}

/// A side `r` is the source side `s` times `p / q`, rounded to the nearest pixel (halves
/// up), or one pixel where that rounds to zero.
pub open spec fn side_scaled(r: int, s: int, p: int, q: int) -> bool {
    let n = s * p;
    ||| (2 * (r * q) <= 2 * n + q && 2 * n + q < 2 * (r * q) + 2 * q)
    ||| (r == 1 && 2 * n + q < 2 * q)
}

/// Both sides of a resized image are the source sides times one common factor below
/// one, each rounded to the nearest pixel: the aspect ratio is kept up to rounding.
pub proof fn law_resize_keeps_aspect_ratio(max_w: Option<u32>, max_h: Option<u32>, src_w: u32, src_h: u32)
    ensures
        fit_size(max_w, max_h, src_w, src_h) matches Some((w, h)) ==> {
            let mw: int = match max_w {
                Some(m) => m as int,
                None => src_w as int,
            };
            let mh: int = match max_h {
                Some(m) => m as int,
                None => src_h as int,
            };
            let (p, q) = scale_fraction(mw, mh, src_w as int, src_h as int);
            &&& 0 <= p < q
            &&& side_scaled(w as int, src_w as int, p, q)
            &&& side_scaled(h as int, src_h as int, p, q)
        },
{
    let mw: int = match max_w {
        Some(m) => m as int,
        None => src_w as int,
    };
    let mh: int = match max_h {
        Some(m) => m as int,
        None => src_h as int,
    };
    let (sw, sh) = (src_w as int, src_h as int);
    if !(sw <= mw && sh <= mh) {
        lemma_scale_below_one(mw, mh, sw, sh);
        let (p, q) = scale_fraction(mw, mh, sw, sh);
        lemma_round_at_most(sw, p, q);
        lemma_round_at_most(sh, p, q);
        assert(sw * p >= 0) by (nonlinear_arith)
            requires
                sw >= 0,
                p >= 0,
        ;
        assert(sh * p >= 0) by (nonlinear_arith)
            requires
                sh >= 0,
                p >= 0,
        ;
        lemma_round_bounds(sw * p, q);
        lemma_round_bounds(sh * p, q);
        let rw = round_ratio(sw * p, q);
        let rh = round_ratio(sh * p, q);
        assert(at_least_one(rw) as u32 as int == at_least_one(rw));
        assert(at_least_one(rh) as u32 as int == at_least_one(rh));
        lemma_side_scaled(rw, sw, p, q);
        lemma_side_scaled(rh, sh, p, q);
    }
}

/// The rounded side, raised to one, is a scaled side.
proof fn lemma_side_scaled(r: int, s: int, p: int, q: int)
    requires
        q > 0,
        r >= 0,
        2 * (r * q) <= 2 * (s * p) + q < 2 * (r * q) + 2 * q,
    ensures
        side_scaled(at_least_one(r), s, p, q),
{
    if r < 1 {
        assert(r == 0);
        assert(r * q == 0);
    }
}

/// The rounding of `n / q` lies within half of `n / q`.
proof fn lemma_round_bounds(n: int, q: int)
    requires
        n >= 0,
        q > 0,
    ensures
        2 * (round_ratio(n, q) * q) <= 2 * n + q < 2 * (round_ratio(n, q) * q) + 2 * q,
{
    let r = round_ratio(n, q);
    assert(r * (2 * q) <= 2 * n + q < r * (2 * q) + 2 * q) by (nonlinear_arith)
        requires
            r == (2 * n + q) / (2 * q),
            q > 0,
            n >= 0,
    ;
    assert(2 * (r * q) == r * (2 * q)) by (nonlinear_arith);
}

/// When the image does not fit, the scale is below one.
proof fn lemma_scale_below_one(mw: int, mh: int, sw: int, sh: int)
    requires
        mw >= 0,
        mh >= 0,
        sw >= 0,
        sh >= 0,
        !(sw <= mw && sh <= mh),
    ensures
        0 <= scale_fraction(mw, mh, sw, sh).0 < scale_fraction(mw, mh, sw, sh).1,
{
    if sw > 0 && sh > 0 {
        if mw * sh <= mh * sw {
            assert(mw < sw) by (nonlinear_arith)
                requires
                    mw * sh <= mh * sw,
                    !(sw <= mw && sh <= mh),
                    sw > 0,
                    sh > 0,
                    mw >= 0,
            ;
        } else {
            assert(mh < sh) by (nonlinear_arith)
                requires
                    mw * sh > mh * sw,
                    !(sw <= mw && sh <= mh),
                    sw > 0,
                    sh > 0,
                    mh >= 0,
            ;
        }
    }
}

/// `s * p / q` rounded is at most `s` when `p < q`.
proof fn lemma_round_at_most(s: int, p: int, q: int)
    requires
        s >= 0,
        0 <= p < q,
    ensures
        0 <= round_ratio(s * p, q) <= s,
{
    assert(2 * (s * p) + q < (s + 1) * (2 * q)) by (nonlinear_arith)
        requires
            0 <= p < q,
            s >= 0,
    ;
    assert(0 <= (2 * (s * p) + q) / (2 * q) <= s) by (nonlinear_arith)
        requires
            2 * (s * p) + q < (s + 1) * (2 * q),
            q > 0,
            2 * (s * p) + q >= 0,
    ;
}

/// `q * m / q` rounds to `m`.
proof fn lemma_round_exact(m: int, q: int)
    requires
        q > 0,
        m >= 0,
    ensures
        round_ratio(q * m, q) == m,
{
    assert((2 * (q * m) + q) / (2 * q) == m) by (nonlinear_arith)
        requires
            q > 0,
            m >= 0,
    ;
}

/// When `s * p / q <= m`, its rounding is at most `m`.
proof fn lemma_round_within(s: int, p: int, q: int, m: int)
    requires
        s >= 0,
        p >= 0,
        q > 0,
        m >= 0,
        p * s <= m * q,
    ensures
        round_ratio(s * p, q) <= m,
{
    assert((2 * (s * p) + q) / (2 * q) <= m) by (nonlinear_arith)
        requires
            s >= 0,
            p >= 0,
            q > 0,
            m >= 0,
            p * s <= m * q,
    ;
}

/// When `s * p / q == m` exactly, its rounding is `m`.
proof fn lemma_round_exact_ratio(s: int, p: int, q: int, m: int)
    requires
        s >= 0,
        p >= 0,
        q > 0,
        m >= 0,
        p * s == m * q,
    ensures
        round_ratio(s * p, q) == m,
{
    assert((2 * (s * p) + q) / (2 * q) == m) by (nonlinear_arith)
        requires
            q > 0,
            m >= 0,
            p * s == m * q,
    ;
}

/// Calls fast_image_resize: `Image::from_vec_u8` on the RGBA source, `Image::new` for the
/// destination, and `Resizer::resize` with Lanczos3 convolution. `from_vec_u8` fails only
/// on a short buffer or a misaligned one (four-byte pixels of `u8` need no alignment),
/// and `resize` only on differing pixel types or a bad crop box (both pixel types are
/// RGBA8, the crop box is the whole source), so the call succeeds. The destination
/// buffer that `Image::new` allocates holds four bytes per pixel, and `into_vec` hands
/// it back.
/// Nothing is claimed of the samples: the crate picks vector code by the processor.
#[verifier::external_body]
fn lanczos3_resize(rgba: Vec<u8>, src_w: u32, src_h: u32, dst_w: u32, dst_h: u32) -> (r: Result<
    Vec<u8>,
    String,
>)
    requires
        rgba@.len() == src_w * src_h * 4,
        dst_w * dst_h * 4 <= usize::MAX,
    ensures
        r is Ok,
        r matches Ok(v) ==> v@.len() == dst_w * dst_h * 4,
{
    let src = fast_image_resize::images::Image::from_vec_u8(src_w, src_h, rgba, fast_image_resize::PixelType::U8x4)
        .map_err(|e| format!("{e}"))?;
    let mut dst = fast_image_resize::images::Image::new(dst_w, dst_h, fast_image_resize::PixelType::U8x4);
    let filter = fast_image_resize::ResizeAlg::Convolution(fast_image_resize::FilterType::Lanczos3);
    let options = fast_image_resize::ResizeOptions::new().resize_alg(filter);
    fast_image_resize::Resizer::new().resize(&src, &mut dst, Some(&options)).map_err(|e| format!("{e}"))?;
    Ok(dst.into_vec())
}

/// CPU resize step (fast_image_resize, Lanczos3): scales images that exceed the limits
/// down to `fit_size`, keeping the aspect ratio.
pub struct CpuResizeProcessor {
    pub max_width: Option<u32>,
    pub max_height: Option<u32>,
}

impl CpuResizeProcessor {
    pub fn new(max_width: Option<u32>, max_height: Option<u32>) -> (r: Self)
        ensures
            r.max_width == max_width,
            r.max_height == max_height,
    {
        CpuResizeProcessor { max_width, max_height }
    }

    /// The target size for a source of `src_w` x `src_h`, or `None` when it fits.
    pub fn compute_target_size(&self, src_w: u32, src_h: u32) -> (r: Option<(u32, u32)>)
        ensures
            r == fit_size(self.max_width, self.max_height, src_w, src_h),
    {
        fit_within(self.max_width, self.max_height, src_w, src_h)
    }
}

impl Preprocessor for CpuResizeProcessor {
    fn name(&self) -> (r: &'static str)
        ensures
            r@ == "cpu-resize"@,
    {
        "cpu-resize"
    }

    /// An image that fits is handed back as it is; a larger one is converted to RGBA and
    /// resized to `fit_size`, keeping its format, metadata and path.
    fn process(&self, image: RawImage) -> (r: Result<RawImage, EngineError>)
        ensures
            fit_size(self.max_width, self.max_height, image.pixels.width, image.pixels.height) is None
                ==> r == Ok::<RawImage, EngineError>(image),
            fit_size(self.max_width, self.max_height, image.pixels.width, image.pixels.height)
                matches Some((w, h)) ==> (r matches Ok(out) ==> {
                &&& out.pixels.width == w
                &&& out.pixels.height == h
                &&& out.pixels.layout == PixelLayout::Rgba8
                &&& pixels_wf(out.pixels@)
                &&& out.source_format == image.source_format
                &&& out.metadata == image.metadata
                &&& out.source_path == image.source_path
            }),
            fit_size(self.max_width, self.max_height, image.pixels.width, image.pixels.height)
                matches Some((w, h)) ==> (pixels_wf(image.pixels@) && image.pixels.width
                * image.pixels.height * 4 <= usize::MAX && w * h * 4 <= usize::MAX ==> r is Ok),
            fit_size(self.max_width, self.max_height, image.pixels.width, image.pixels.height) is Some
                && !(pixels_wf(image.pixels@) && image.pixels.width * image.pixels.height * 4
                <= usize::MAX) ==> r is Err,
    {
        let src_w = image.pixels.width;
        let src_h = image.pixels.height;
        let (dst_w, dst_h) = match self.compute_target_size(src_w, src_h) {
            Some(size) => size,
            None => {
                return Ok(image);
            },
        };
        proof {
            lemma_u32_product(src_w as int, src_h as int);
            lemma_u32_product(dst_w as int, dst_h as int);
        }
        let n = (src_w as u64) * (src_h as u64);
        if n > (usize::MAX as u64) / 4 || (dst_w as u64) * (dst_h as u64) > (usize::MAX as u64) / 4 {
            return Err(EngineError::InvalidInput { what: "image too large to resize" });
        }
        let ch = image.pixels.layout.channel_count() as u64;
        proof {
            assert(n * ch <= n * 4) by (nonlinear_arith)
                requires
                    ch <= 4,
            ;
        }
        if image.pixels.data.len() as u64 != n * ch {
            return Err(EngineError::InvalidInput { what: "pixel buffer does not match the image size" });
        }
        let rgba = image.pixels.to_rgba8();
        let resized = match lanczos3_resize(rgba, src_w, src_h, dst_w, dst_h) {
            Ok(v) => v,
            Err(message) => {
                return Err(EngineError::Codec { stage: "resize", message });
            },
        };
        let pixels = Pixels { width: dst_w, height: dst_h, layout: PixelLayout::Rgba8, data: resized };
        Ok(
            RawImage {
                pixels,
                source_format: image.source_format,
                metadata: image.metadata,
                source_path: image.source_path,
            },
        )
    }
}

} // verus!
