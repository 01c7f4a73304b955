use tinyimg::gpu::bitstream::BitWriter;
use tinyimg::gpu::huffman::{encode_value, HuffTable, DC_LUMA_BITS, DC_LUMA_VALS};
use tinyimg::gpu::jpeg::{
    assemble_jpeg, pad_to_blocks, plan_dct_chunks, scale_quant_table, CHROMA_QUANT_TABLE,
    LUMA_QUANT_TABLE,
};
use tinyimg::gpu::{exceeds_gpu_limit, ColorConvertDirection};

#[test]
fn quality_fifty_keeps_the_base_table_and_hundred_gives_ones() {
    assert_eq!(scale_quant_table(&LUMA_QUANT_TABLE, 50), LUMA_QUANT_TABLE.to_vec());
    assert!(scale_quant_table(&LUMA_QUANT_TABLE, 100).iter().all(|&q| q == 1));
    let q10 = scale_quant_table(&CHROMA_QUANT_TABLE, 10);
    assert!(q10.iter().all(|&q| q >= 1));
    assert_eq!(q10[0], 85); // (17 * 500 + 50) / 100
    let low = scale_quant_table(&LUMA_QUANT_TABLE, 20);
    let high = scale_quant_table(&LUMA_QUANT_TABLE, 80);
    assert!(low.iter().zip(high.iter()).all(|(a, b)| a >= b));
}

#[test]
fn bit_writer_packs_most_significant_first_and_stuffs_ff() {
    let mut w = BitWriter::new();
    w.write_bits(0b101, 3);
    w.flush();
    assert_eq!(w.data(), &vec![0b1010_0000]);
    let mut w = BitWriter::new();
    w.write_bits(0xFF, 8);
    w.write_bits(0x12, 8);
    assert_eq!(w.data(), &vec![0xFF, 0x00, 0x12]);
}

#[test]
fn values_split_into_category_and_extra_bits() {
    assert_eq!(encode_value(0), (0, 0));
    assert_eq!(encode_value(5), (3, 5));
    assert_eq!(encode_value(-3), (2, 0));
    assert_eq!(encode_value(-1), (1, 0));
    assert_eq!(encode_value(1023), (10, 1023));
}

#[test]
fn standard_dc_table_codes() {
    let t = HuffTable::build(&DC_LUMA_BITS, &DC_LUMA_VALS);
    // category 0 has the two-bit code 00, categories 1..5 the three-bit codes 010..110
    assert_eq!((t.code[0], t.size[0]), (0b00, 2));
    assert_eq!((t.code[1], t.size[1]), (0b010, 3));
    assert_eq!((t.code[5], t.size[5]), (0b110, 3));
    assert_eq!((t.code[11], t.size[11]), (0b1_1111_1110, 9));
}

#[test]
fn padding_repeats_the_edge_samples() {
    let data = [1u8, 2, 3, 4, 5, 6]; // 3 x 2
    let out = pad_to_blocks(&data, 3, 2, 1, 1);
    assert_eq!(out.len(), 64);
    assert_eq!(&out[0..8], &[1, 2, 3, 3, 3, 3, 3, 3]);
    assert_eq!(&out[8..16], &[4, 5, 6, 6, 6, 6, 6, 6]);
    assert_eq!(&out[56..64], &[4, 5, 6, 6, 6, 6, 6, 6]);
}

#[test]
fn padding_with_no_blocks_is_empty() {
    let empty: [u8; 0] = [];
    assert!(pad_to_blocks(&empty, 0, 0, 0, 0).is_empty());
    assert!(pad_to_blocks(&empty, 0, 5, 0, 1).is_empty());
}

#[test]
fn dct_work_is_split_into_row_chunks() {
    assert_eq!(plan_dct_chunks(10, 10, u32::MAX), vec![(0, 10)]);
    // a row of 4 blocks needs 4 * 256 bytes; nine tenths of 2300 bytes hold 2 rows
    let chunks = plan_dct_chunks(4, 5, 2300);
    assert_eq!(chunks, vec![(0, 2), (2, 2), (4, 1)]);
}

#[test]
fn gpu_limit_and_shader_codes() {
    assert!(!exceeds_gpu_limit(1024, 16, 16, 8, 8));
    assert!(exceeds_gpu_limit(1023, 16, 16, 8, 8));
    assert!(exceeds_gpu_limit(1000, 8, 8, 16, 16));
    assert_eq!(ColorConvertDirection::RgbToYcbcr.shader_code(), 0);
    assert_eq!(ColorConvertDirection::YcbcrToRgb.shader_code(), 1);
}

#[test]
fn coefficients_outside_the_baseline_range_are_refused() {
    let (y, cb, mut cr) = flat_planes(2, 2, 0);
    cr[5] = 40000;
    assert!(assemble_jpeg(16, 16, 80, false, &y, &cb, &cr, 2, 2).is_err());
    cr[5] = -32767;
    assert!(assemble_jpeg(16, 16, 80, true, &y, &cb, &cr, 2, 2).is_ok());
}

fn flat_planes(blocks_x: usize, blocks_y: usize, dc: i32) -> (Vec<i32>, Vec<i32>, Vec<i32>) {
    let mut y = vec![0i32; blocks_x * blocks_y * 64];
    for b in 0..blocks_x * blocks_y {
        y[b * 64] = dc;
    }
    let cbx = (blocks_x + 1) / 2;
    let cby = (blocks_y + 1) / 2;
    let cb = vec![0i32; cbx * cby * 64];
    let cr = vec![0i32; cbx * cby * 64];
    (y, cb, cr)
}

#[test]
fn assembled_baseline_jpeg_decodes() {
    let (y, cb, cr) = flat_planes(2, 2, -20);
    let bytes = assemble_jpeg(16, 16, 80, false, &y, &cb, &cr, 2, 2).unwrap();
    assert_eq!(&bytes[..2], &[0xFF, 0xD8]);
    assert_eq!(&bytes[bytes.len() - 2..], &[0xFF, 0xD9]);
    let img = image::load_from_memory_with_format(&bytes, image::ImageFormat::Jpeg).unwrap();
    assert_eq!((img.width(), img.height()), (16, 16));
}

#[test]
fn assembled_progressive_jpeg_decodes() {
    let (y, cb, cr) = flat_planes(3, 2, 12);
    let bytes = assemble_jpeg(20, 10, 75, true, &y, &cb, &cr, 3, 2).unwrap();
    assert_eq!(&bytes[..2], &[0xFF, 0xD8]);
    assert_eq!(&bytes[bytes.len() - 2..], &[0xFF, 0xD9]);
    let img = image::load_from_memory_with_format(&bytes, image::ImageFormat::Jpeg).unwrap();
    assert_eq!((img.width(), img.height()), (20, 10));
}
