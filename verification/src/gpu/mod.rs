pub mod bitstream;
pub mod huffman;
pub mod jpeg;

use vstd::prelude::*;

verus! {

/// Direction of the GPU colour conversion.
#[derive(Debug, Clone, Copy, PartialEq, Eq, Structural)]
pub enum ColorConvertDirection {
    RgbToYcbcr,
    YcbcrToRgb,
}

impl ColorConvertDirection {
    /// The value the conversion shader reads for the direction.
    pub fn shader_code(&self) -> (r: u32)
        ensures
            r == (if *self == ColorConvertDirection::RgbToYcbcr {
                0u32
            } else {
                1u32
            }),
    {
        match self {
            ColorConvertDirection::RgbToYcbcr => 0,
            ColorConvertDirection::YcbcrToRgb => 1,
        }
    }
}

/// Bytes of an RGBA buffer of `width` x `height` pixels.
pub open spec fn rgba_bytes(width: u32, height: u32) -> int {
    width * height * 4
}

/// Whether the input or the output buffer of a GPU resize exceeds the largest storage
/// buffer that the device binds (then the resize runs on the CPU).
pub fn exceeds_gpu_limit(max_buffer: u64, src_w: u32, src_h: u32, dst_w: u32, dst_h: u32) -> (r: bool)
    ensures
        r == (rgba_bytes(src_w, src_h) > max_buffer || rgba_bytes(dst_w, dst_h) > max_buffer),
{
    proof {
        assert(src_w * src_h * 4 <= 0xffff_ffff * 0xffff_ffff * 4) by (nonlinear_arith)
            requires
                src_w <= 0xffff_ffff,
                src_h <= 0xffff_ffff,
        ;
        assert(dst_w * dst_h * 4 <= 0xffff_ffff * 0xffff_ffff * 4) by (nonlinear_arith)
            requires
                dst_w <= 0xffff_ffff,
                dst_h <= 0xffff_ffff,
        ;
    }
    let input_bytes: u128 = (src_w as u128) * (src_h as u128) * 4;
    let output_bytes: u128 = (dst_w as u128) * (dst_h as u128) * 4;
    input_bytes > max_buffer as u128 || output_bytes > max_buffer as u128
}

} // verus!
