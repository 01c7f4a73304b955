//! JPEG stream assembly for the accelerated encoder: JFIF markers, Huffman coding
//! of quantized coefficient blocks (baseline and progressive), quantization tables
//! and block padding. The DCT itself runs elsewhere; here its integer results are
//! turned into a JPEG file.
use crate::gpu::bitstream::{bits_of, pad_len, pack, stuff, zeros, BitWriter};
use crate::gpu::huffman::{
    abs, category, count_upto, encode_value, extra_value, lemma_bit_length_le, table_codes,
    table_sizes, HuffTable, AC_CHROMA_BITS, AC_CHROMA_VALS, AC_LUMA_BITS, AC_LUMA_VALS,
    DC_CHROMA_BITS, DC_CHROMA_VALS, DC_LUMA_BITS, DC_LUMA_VALS,
};
use crate::engine::codec::EngineError;
use vstd::prelude::*;

verus! {

/// A lookup table as codes and lengths indexed by symbol.
pub type CodeTable = (Seq<u32>, Seq<u8>);

impl View for HuffTable {
    type V = CodeTable;

    open spec fn view(&self) -> CodeTable {
        (self.code@, self.size@)
    }
}

/// The canonical table of given counts and symbols.
pub open spec fn table_of(bits: Seq<u8>, vals: Seq<u8>) -> CodeTable {
    (
        table_codes(bits, vals, count_upto(bits, 16)),
        table_sizes(bits, vals, count_upto(bits, 16)),
    )
}

pub open spec fn dc_luma_table() -> CodeTable {
    table_of(DC_LUMA_BITS@, DC_LUMA_VALS@)
}

pub open spec fn ac_luma_table() -> CodeTable {
    table_of(AC_LUMA_BITS@, AC_LUMA_VALS@)
}

pub open spec fn dc_chroma_table() -> CodeTable {
    table_of(DC_CHROMA_BITS@, DC_CHROMA_VALS@)
}

pub open spec fn ac_chroma_table() -> CodeTable {
    table_of(AC_CHROMA_BITS@, AC_CHROMA_VALS@)
}

/// The Huffman code of a symbol.
pub open spec fn huff_bits(t: CodeTable, sym: int) -> Seq<bool> {
    bits_of(t.0[sym] as nat, t.1[sym] as nat)
}

/// The extra bits of a value, `category(v)` of them.
pub open spec fn value_bits(v: int) -> Seq<bool> {
    bits_of(extra_value(v), category(v))
}

/// A DC difference: the code of its category, then its extra bits.
pub open spec fn dc_bits(t: CodeTable, diff: int) -> Seq<bool> {
    huff_bits(t, category(diff) as int) + value_bits(diff)
}

/// One ZRL code (sixteen zeros) for every full sixteen zeros of a run.
pub open spec fn zrl_bits(t: CodeTable, run: nat) -> Seq<bool>
    decreases run,
{
    if run < 16 {
        Seq::empty()
    } else {
        huff_bits(t, 0xF0) + zrl_bits(t, (run - 16) as nat)
    }
}

/// Run-length coding of the coefficients `c[i..=end]` after `run` zeros: each non-zero
/// coefficient is coded as (zeros before it, its category) and its extra bits, and
/// trailing zeros are closed by an end-of-block code.
pub open spec fn ac_bits(t: CodeTable, c: Seq<i32>, i: int, end: int, run: nat) -> Seq<bool>
    decreases end + 1 - i,
{
    if i > end {
        if run > 0 {
            huff_bits(t, 0)
        } else {
            Seq::empty()
        }
    } else if c[i] == 0 {
        ac_bits(t, c, i + 1, end, run + 1)
    } else {
        zrl_bits(t, run) + huff_bits(t, ((run % 16) * 16 + category(c[i] as int)) as int) + value_bits(
            c[i] as int,
        ) + ac_bits(t, c, i + 1, end, 0)
    }
}

/// A whole block: its DC difference to the previous block, then its 63 AC coefficients.
pub open spec fn block_bits(dc: CodeTable, ac: CodeTable, blk: Seq<i32>, prev: int) -> Seq<
    bool,
> {
    dc_bits(dc, blk[0] - prev) + ac_bits(ac, blk, 1, 63, 0)
}

/// The coefficient range that the standard tables and the 32-bit bit buffer cover.
pub open spec fn coeff_ok(v: i32) -> bool {
    -32767 <= v <= 32767
}

pub open spec fn coeffs_ok(s: Seq<i32>) -> bool {
    forall|i: int| 0 <= i < s.len() ==> coeff_ok(#[trigger] s[i])
}

proof fn lemma_category_bound(v: int)
    requires
        -65535 <= v <= 65535,
    ensures
        category(v) <= 16,
        -32767 <= v <= 32767 ==> category(v) <= 15,
{
    vstd::arithmetic::power2::lemma2_to64();
    if -32767 <= v <= 32767 {
        lemma_bit_length_le(abs(v), 15);
    }
    lemma_bit_length_le(abs(v), 16);
}

proof fn lemma_symbol(run: u8, cat: u8)
    requires
        run < 16,
        cat < 16,
    ensures
        (run << 4u8) | cat == run * 16 + cat,
{
    assert((run << 4u8) | cat == run * 16 + cat) by (bit_vector)
        requires
            run < 16u8,
            cat < 16u8,
    ;
}

/// Writes the Huffman code of `sym`.
fn write_symbol(w: &mut BitWriter, t: &HuffTable, sym: usize)
    requires
        old(w).wf(),
        t.wf(),
        sym < 256,
    ensures
        final(w).wf(),
        final(w).written() == old(w).written() + huff_bits(t@, sym as int),
{
    w.write_bits(t.code[sym], t.size[sym]);
}

/// Codes one DC coefficient as the difference to the previous one and remembers it.
fn encode_dc(writer: &mut BitWriter, dc_val: i32, prev_dc: &mut i32, dc_table: &HuffTable)
    requires
        old(writer).wf(),
        dc_table.wf(),
        coeff_ok(dc_val),
        coeff_ok(*old(prev_dc)),
    ensures
        final(writer).wf(),
        final(writer).written() == old(writer).written() + dc_bits(
            dc_table@,
            dc_val - *old(prev_dc),
        ),
        *final(prev_dc) == dc_val,
{
    let dc_diff = dc_val - *prev_dc;
    *prev_dc = dc_val;
    let (category, extra) = encode_value(dc_diff);
    proof {
        lemma_category_bound(dc_diff as int);
    }
    write_symbol(writer, dc_table, category as usize);
    if category > 0 {
        writer.write_bits(extra, category);
    } else {
        proof {
            assert(value_bits(dc_diff as int) =~= Seq::<bool>::empty());
        }
    }
    proof {
        assert(final(writer).written() =~= old(writer).written() + dc_bits(
            dc_table@,
            dc_val - *old(prev_dc),
        ));
    }
}

/// Codes the coefficients `coeffs[ss..=se]` of one block by runs of zeros.
fn encode_ac_run(
    writer: &mut BitWriter,
    coeffs: &[i32],
    ss: usize,
    se: usize,
    ac_table: &HuffTable,
)
    requires
        old(writer).wf(),
        ac_table.wf(),
        coeffs@.len() == 64,
        coeffs_ok(coeffs@),
        ss <= se < 64,
    ensures
        final(writer).wf(),
        final(writer).written() == old(writer).written() + ac_bits(
            ac_table@,
            coeffs@,
            ss as int,
            se as int,
            0,
        ),
{
    let ghost base = writer.written();
    let ghost c = coeffs@;
    let ghost t = ac_table@;
    let mut zero_run: u8 = 0;
    let mut i: usize = ss;
    proof {
        assert(base + ac_bits(t, c, ss as int, se as int, 0) =~= base + ac_bits(
            t,
            c,
            ss as int,
            se as int,
            0,
        ));
    }
    while i <= se
        invariant
            writer.wf(),
            ac_table.wf(),
            t == ac_table@,
            c == coeffs@,
            c.len() == 64,
            coeffs_ok(c),
            ss <= i <= se + 1,
            se < 64,
            zero_run <= i - ss,
            writer.written() + ac_bits(t, c, i as int, se as int, zero_run as nat) == base
                + ac_bits(t, c, ss as int, se as int, 0),
        decreases se + 1 - i,
    {
        let ghost before = writer.written();
        let ghost run0 = zero_run as nat;
        if coeffs[i] == 0 {
            zero_run = zero_run + 1;
        } else {
            while zero_run >= 16
                invariant
                    writer.wf(),
                    ac_table.wf(),
                    t == ac_table@,
                    zero_run <= 64,
                    zero_run as nat % 16 == run0 % 16,
                    writer.written() + zrl_bits(t, zero_run as nat) == before + zrl_bits(t, run0),
                decreases zero_run,
            {
                let ghost w0 = writer.written();
                write_symbol(writer, ac_table, 0xF0);
                zero_run = zero_run - 16;
                proof {
                    assert(zrl_bits(t, (zero_run + 16) as nat) == huff_bits(t, 0xF0) + zrl_bits(
                        t,
                        zero_run as nat,
                    ));
                    assert(writer.written() + zrl_bits(t, zero_run as nat) =~= w0 + zrl_bits(
                        t,
                        (zero_run + 16) as nat,
                    ));
                }
            }
            let (cat, extra) = encode_value(coeffs[i]);
            proof {
                lemma_category_bound(coeffs[i as int] as int);
                lemma_symbol(zero_run, cat);
                assert(zrl_bits(t, zero_run as nat) =~= Seq::<bool>::empty());
                assert(zero_run as nat == run0 % 16);
            }
            let ghost w1 = writer.written();
            let symbol = (zero_run << 4) | cat;
            write_symbol(writer, ac_table, symbol as usize);
            writer.write_bits(extra, cat);
            zero_run = 0;
            proof {
                assert(writer.written() =~= w1 + huff_bits(t, ((run0 % 16) * 16 + category(
                    c[i as int] as int,
                )) as int) + value_bits(c[i as int] as int));
                assert(w1 + Seq::<bool>::empty() =~= before + zrl_bits(t, run0));
            }
        }
        i = i + 1;
        proof {
            assert(writer.written() + ac_bits(t, c, i as int, se as int, zero_run as nat)
                =~= before + ac_bits(t, c, i - 1, se as int, run0));
        }
    }
    if zero_run > 0 {
        let ghost w2 = writer.written();
        write_symbol(writer, ac_table, 0x00);
    }
    proof {
        assert(writer.written() =~= base + ac_bits(t, c, ss as int, se as int, 0));
    }
}

/// Codes one block: its DC coefficient as the difference to the previous block's,
/// then its AC coefficients by runs of zeros.
fn encode_block(
    writer: &mut BitWriter,
    coeffs: &[i32],
    prev_dc: &mut i32,
    dc_table: &HuffTable,
    ac_table: &HuffTable,
)
    requires
        old(writer).wf(),
        dc_table.wf(),
        ac_table.wf(),
        coeffs@.len() == 64,
        coeffs_ok(coeffs@),
        coeff_ok(*old(prev_dc)),
    ensures
        final(writer).wf(),
        final(writer).written() == old(writer).written() + block_bits(
            dc_table@,
            ac_table@,
            coeffs@,
            *old(prev_dc) as int,
        ),
        *final(prev_dc) == coeffs@[0],
{
    encode_dc(writer, coeffs[0], prev_dc, dc_table);
    encode_ac_run(writer, coeffs, 1, 63, ac_table);
    proof {
        assert(final(writer).written() =~= old(writer).written() + block_bits(
            dc_table@,
            ac_table@,
            coeffs@,
            *old(prev_dc) as int,
        ));
    }
}

/// Appends `src` to `out`.
fn append_bytes(out: &mut Vec<u8>, src: &[u8])
    ensures
        final(out)@ == old(out)@ + src@,
{
    let mut i: usize = 0;
    while i < src.len()
        invariant
            i <= src@.len(),
            out@ == old(out)@ + src@.subrange(0, i as int),
        decreases src@.len() - i,
    {
        out.push(src[i]);
        i = i + 1;
        assert(out@ =~= old(out)@ + src@.subrange(0, i as int));
    }
    assert(src@.subrange(0, src@.len() as int) =~= src@);
}

/// Big-endian bytes of a 16-bit value.
pub open spec fn be16(v: u16) -> Seq<u8> {
    seq![(v / 256) as u8, (v % 256) as u8]
}

/// Appends a 16-bit value, most significant byte first.
fn push_be16(out: &mut Vec<u8>, v: u16)
    ensures
        final(out)@ == old(out)@ + be16(v),
{
    out.push((v / 256) as u8);
    out.push((v % 256) as u8);
    assert(final(out)@ =~= old(out)@ + be16(v));
}

/// The JFIF APP0 segment: version 1.1, no density units, 1x1 density, no thumbnail.
#[verifier::opaque]
pub open spec fn app0_bytes() -> Seq<u8> {
    seq![
        0xFFu8, 0xE0u8, 0x00u8, 0x10u8, 0x4Au8, 0x46u8, 0x49u8, 0x46u8, 0x00u8, 0x01u8, 0x01u8,
        0x00u8, 0x00u8, 0x01u8, 0x00u8, 0x01u8, 0x00u8, 0x00u8,
    ]
}

/// Writes the JFIF APP0 segment.
fn write_app0(out: &mut Vec<u8>)
    ensures
        final(out)@ == old(out)@ + app0_bytes(),
{
    out.push(0xFF);
    out.push(0xE0);
    push_be16(out, 16);
    append_bytes(out, &[0x4Au8, 0x46u8, 0x49u8, 0x46u8, 0x00u8]);
    out.push(1);
    out.push(1);
    out.push(0);
    push_be16(out, 1);
    push_be16(out, 1);
    out.push(0);
    out.push(0);
    reveal(app0_bytes);
    assert(final(out)@ =~= old(out)@ + app0_bytes());
}

/// The zigzag order: the `i`-th coefficient of a zigzag scan is the one at natural
/// (row-major) position `ZIGZAG_ORDER[i]`.
pub const ZIGZAG_ORDER: [u8; 64] = [
    0, 1, 8, 16, 9, 2, 3, 10, 17, 24, 32, 25, 18, 11, 4, 5, 12, 19, 26, 33, 40, 48, 41, 34, 27,
    20, 13, 6, 7, 14, 21, 28, 35, 42, 49, 56, 57, 50, 43, 36, 29, 22, 15, 23, 30, 37, 44, 51, 58,
    59, 52, 45, 38, 31, 39, 46, 53, 60, 61, 54, 47, 55, 62, 63,
];

/// The DQT segment of one 8-bit table, its entries in zigzag order.
pub open spec fn dqt_bytes(table_id: u8, table: Seq<u8>) -> Seq<u8> {
    seq![0xFFu8, 0xDBu8, 0x00u8, 0x43u8, table_id] + Seq::new(
        64,
        |i: int| table[ZIGZAG_ORDER@[i] as int],
    )
}

/// Writes a quantization table segment (8-bit precision).
fn write_dqt(out: &mut Vec<u8>, table_id: u8, table: &[u8])
    requires
        table@.len() == 64,
    ensures
        final(out)@ == old(out)@ + dqt_bytes(table_id, table@),
{
    out.push(0xFF);
    out.push(0xDB);
    push_be16(out, 67);
    out.push(table_id);
    let ghost head = out@;
    let mut i: usize = 0;
    while i < 64
        invariant
            table@.len() == 64,
            i <= 64,
            out@ == head + Seq::new(i as nat, |k: int| table@[ZIGZAG_ORDER@[k] as int]),
        decreases 64 - i,
    {
        out.push(table[ZIGZAG_ORDER[i] as usize]);
        i = i + 1;
        assert(out@ =~= head + Seq::new(i as nat, |k: int| table@[ZIGZAG_ORDER@[k] as int]));
    }
    assert(final(out)@ =~= old(out)@ + dqt_bytes(table_id, table@));
}

/// A start-of-frame segment with the given marker: 8-bit samples, three components,
/// luma sampled 2x2 with table 0, both chroma components 1x1 with table 1.
pub open spec fn sof_bytes(marker: u8, width: u16, height: u16) -> Seq<u8> {
    seq![0xFFu8, marker, 0x00u8, 0x11u8, 0x08u8] + be16(height) + be16(width) + seq![
        0x03u8,
        0x01u8,
        0x22u8,
        0x00u8,
        0x02u8,
        0x11u8,
        0x01u8,
        0x03u8,
        0x11u8,
        0x01u8,
    ]
}

fn write_sof(out: &mut Vec<u8>, marker: u8, width: u16, height: u16)
    ensures
        final(out)@ == old(out)@ + sof_bytes(marker, width, height),
{
    out.push(0xFF);
    out.push(marker);
    push_be16(out, 17);
    out.push(8);
    push_be16(out, height);
    push_be16(out, width);
    out.push(3);
    append_bytes(out, &[1u8, 0x22u8, 0u8]);
    append_bytes(out, &[2u8, 0x11u8, 1u8]);
    append_bytes(out, &[3u8, 0x11u8, 1u8]);
    assert(final(out)@ =~= old(out)@ + sof_bytes(marker, width, height));
}

/// Writes a baseline start-of-frame segment (SOF0).
fn write_sof0(out: &mut Vec<u8>, width: u16, height: u16)
    ensures
        final(out)@ == old(out)@ + sof_bytes(0xC0, width, height),
{
    write_sof(out, 0xC0, width, height);
}

/// Writes a progressive start-of-frame segment (SOF2).
fn write_sof2(out: &mut Vec<u8>, width: u16, height: u16)
    ensures
        final(out)@ == old(out)@ + sof_bytes(0xC2, width, height),
{
    write_sof(out, 0xC2, width, height);
}

/// The component selectors of a scan header, two bytes each.
pub open spec fn selector_bytes(components: Seq<(u8, u8)>) -> Seq<u8>
    decreases components.len(),
{
    if components.len() == 0 {
        Seq::empty()
    } else {
        selector_bytes(components.drop_last()) + seq![
            components.last().0,
            components.last().1,
        ]
    }
}

/// A start-of-scan header.
pub open spec fn sos_bytes(components: Seq<(u8, u8)>, ss: u8, se: u8, ahl: u8) -> Seq<u8> {
    seq![0xFFu8, 0xDAu8] + be16((6 + 2 * components.len()) as u16) + seq![
        components.len() as u8,
    ] + selector_bytes(components) + seq![ss, se, ahl]
}

/// Writes a start-of-scan header for up to four components (component id, DC/AC table
/// selector), spectral selection `ss..=se` and successive approximation `ahl`.
fn write_sos_header(out: &mut Vec<u8>, components: &[(u8, u8)], ss: u8, se: u8, ahl: u8)
    requires
        components@.len() <= 4,
    ensures
        final(out)@ == old(out)@ + sos_bytes(components@, ss, se, ahl),
{
    out.push(0xFF);
    out.push(0xDA);
    let n = components.len();
    let len: u16 = 2 + 1 + (n as u16) * 2 + 3;
    push_be16(out, len);
    out.push(n as u8);
    let ghost head = out@;
    let mut i: usize = 0;
    while i < n
        invariant
            n == components@.len(),
            n <= 4,
            i <= n,
            out@ == head + selector_bytes(components@.subrange(0, i as int)),
        decreases n - i,
    {
        let (id, selector) = components[i];
        out.push(id);
        out.push(selector);
        i = i + 1;
        proof {
            let sub = components@.subrange(0, i as int);
            assert(sub.drop_last() =~= components@.subrange(0, i - 1));
            assert(out@ =~= head + selector_bytes(sub));
        }
    }
    out.push(ss);
    out.push(se);
    out.push(ahl);
    proof {
        assert(components@.subrange(0, n as int) =~= components@);
        assert(final(out)@ =~= old(out)@ + sos_bytes(components@, ss, se, ahl));
    }
}

/// A DHT segment: class (0 = DC, 1 = AC), table id, the sixteen counts and the symbols.
pub open spec fn dht_bytes(class: u8, id: u8, bits: Seq<u8>, vals: Seq<u8>) -> Seq<u8> {
    let total = count_upto(bits, 16);
    seq![0xFFu8, 0xC4u8] + be16((19 + total) as u16) + seq![(class * 16 + id) as u8] + bits
        + vals.subrange(0, total as int)
}

proof fn lemma_class_id(class: u8, id: u8)
    requires
        class <= 1,
        id <= 1,
    ensures
        (class << 4u8) | id == class * 16 + id,
{
    assert((class << 4u8) | id == class * 16 + id) by (bit_vector)
        requires
            class <= 1u8,
            id <= 1u8,
    ;
}

/// Writes a Huffman table segment.
fn write_dht(out: &mut Vec<u8>, class: u8, id: u8, bits: &[u8; 16], vals: &[u8])
    requires
        class <= 1,
        id <= 1,
        vals@.len() >= count_upto(bits@, 16),
    ensures
        final(out)@ == old(out)@ + dht_bytes(class, id, bits@, vals@),
{
    out.push(0xFF);
    out.push(0xC4);
    let mut total_vals: u16 = 0;
    let mut i: usize = 0;
    while i < 16
        invariant
            i <= 16,
            total_vals == count_upto(bits@, i as nat),
            total_vals <= 255 * i,
        decreases 16 - i,
    {
        total_vals = total_vals + bits[i] as u16;
        i = i + 1;
    }
    let len: u16 = 2 + 1 + 16 + total_vals;
    push_be16(out, len);
    proof {
        lemma_class_id(class, id);
    }
    out.push((class << 4) | id);
    append_bytes(out, bits);
    append_bytes(out, slice_prefix(vals, total_vals as usize));
    assert(final(out)@ =~= old(out)@ + dht_bytes(class, id, bits@, vals@));
}

/// The first `n` entries of a slice.
fn slice_prefix(s: &[u8], n: usize) -> (r: &[u8])
    requires
        n <= s@.len(),
    ensures
        r@ == s@.subrange(0, n as int),
{
    vstd::slice::slice_subrange(s, 0, n)
}

/// The four standard Huffman table segments, in the order they are written.
#[verifier::opaque]
pub open spec fn dht_tables_bytes() -> Seq<u8> {
    dht_bytes(0, 0, DC_LUMA_BITS@, DC_LUMA_VALS@) + dht_bytes(1, 0, AC_LUMA_BITS@, AC_LUMA_VALS@)
        + dht_bytes(0, 1, DC_CHROMA_BITS@, DC_CHROMA_VALS@) + dht_bytes(
        1,
        1,
        AC_CHROMA_BITS@,
        AC_CHROMA_VALS@,
    )
}

/// Writes the DC and AC tables for luma (id 0) and chroma (id 1).
fn write_dht_tables(out: &mut Vec<u8>)
    ensures
        final(out)@ == old(out)@ + dht_tables_bytes(),
{
    proof {
        lemma_std_counts();
    }
    write_dht(out, 0, 0, &DC_LUMA_BITS, &DC_LUMA_VALS);
    write_dht(out, 1, 0, &AC_LUMA_BITS, &AC_LUMA_VALS);
    write_dht(out, 0, 1, &DC_CHROMA_BITS, &DC_CHROMA_VALS);
    write_dht(out, 1, 1, &AC_CHROMA_BITS, &AC_CHROMA_VALS);
    reveal(dht_tables_bytes);
    assert(final(out)@ =~= old(out)@ + dht_tables_bytes());
}

/// The standard tables hold 12 DC and 162 AC symbols.
pub proof fn lemma_std_counts()
    ensures
        count_upto(DC_LUMA_BITS@, 16) == 12,
        count_upto(DC_CHROMA_BITS@, 16) == 12,
        count_upto(AC_LUMA_BITS@, 16) == 162,
        count_upto(AC_CHROMA_BITS@, 16) == 162,
        DC_LUMA_VALS@.len() == 12,
        DC_CHROMA_VALS@.len() == 12,
        AC_LUMA_VALS@.len() == 162,
        AC_CHROMA_VALS@.len() == 162,
{
    reveal_with_fuel(count_upto, 17);
}

/// A block of 64 zero coefficients.
pub open spec fn zero_block() -> Seq<i32> {
    Seq::new(64, |i: int| 0i32)
}

/// The luma block at block column `bx`, block row `by` of a `bxn` x `byn` plane
/// (blocks stored one after the other in raster order), or a zero block outside it.
pub open spec fn luma_block(y: Seq<i32>, bxn: int, byn: int, bx: int, by: int) -> Seq<i32> {
    if bx < bxn && by < byn {
        y.subrange((by * bxn + bx) * 64, (by * bxn + bx) * 64 + 64)
    } else {
        zero_block()
    }
}

/// The chroma block starting at coefficient `idx`, or a zero block past the end.
pub open spec fn chroma_block(c: Seq<i32>, idx: int) -> Seq<i32> {
    if idx + 64 <= c.len() {
        c.subrange(idx, idx + 64)
    } else {
        zero_block()
    }
}

/// The coded bits so far and the previous DC value of luma, Cb and Cr.
pub type ScanState = (Seq<bool>, i32, i32, i32);

pub open spec fn code_luma(s: ScanState, blk: Seq<i32>) -> ScanState {
    (s.0 + block_bits(dc_luma_table(), ac_luma_table(), blk, s.1 as int), blk[0], s.2, s.3)
}

pub open spec fn code_cb(s: ScanState, blk: Seq<i32>) -> ScanState {
    (s.0 + block_bits(dc_chroma_table(), ac_chroma_table(), blk, s.2 as int), s.1, blk[0], s.3)
}

pub open spec fn code_cr(s: ScanState, blk: Seq<i32>) -> ScanState {
    (s.0 + block_bits(dc_chroma_table(), ac_chroma_table(), blk, s.3 as int), s.1, s.2, blk[0])
}

/// Chroma blocks per row: half the luma blocks, rounded up (4:2:0).
pub open spec fn half_up(n: int) -> int {
    (n + 1) / 2
}

/// One 4:2:0 MCU of a baseline scan: the four luma blocks of a 2x2 square in raster
/// order, then the Cb and the Cr block.
pub open spec fn baseline_mcu(
    s: ScanState,
    y: Seq<i32>,
    cb: Seq<i32>,
    cr: Seq<i32>,
    bxn: int,
    byn: int,
    row: int,
    col: int,
) -> ScanState {
    let s1 = code_luma(s, luma_block(y, bxn, byn, 2 * col, 2 * row));
    let s2 = code_luma(s1, luma_block(y, bxn, byn, 2 * col + 1, 2 * row));
    let s3 = code_luma(s2, luma_block(y, bxn, byn, 2 * col, 2 * row + 1));
    let s4 = code_luma(s3, luma_block(y, bxn, byn, 2 * col + 1, 2 * row + 1));
    let cidx = (row * half_up(bxn) + col) * 64;
    let s5 = code_cb(s4, chroma_block(cb, cidx));
    code_cr(s5, chroma_block(cr, cidx))
}

/// The first `cols` MCUs of MCU row `row`.
pub open spec fn baseline_row(
    s: ScanState,
    y: Seq<i32>,
    cb: Seq<i32>,
    cr: Seq<i32>,
    bxn: int,
    byn: int,
    row: int,
    cols: nat,
) -> ScanState
    decreases cols,
{
    if cols == 0 {
        s
    } else {
        baseline_mcu(
            baseline_row(s, y, cb, cr, bxn, byn, row, (cols - 1) as nat),
            y,
            cb,
            cr,
            bxn,
            byn,
            row,
            cols - 1,
        )
    }
}

/// The first `rows` MCU rows of a baseline scan, DC predictions starting at zero.
pub open spec fn baseline_rows(
    y: Seq<i32>,
    cb: Seq<i32>,
    cr: Seq<i32>,
    bxn: int,
    byn: int,
    rows: nat,
) -> ScanState
    decreases rows,
{
    if rows == 0 {
        (Seq::empty(), 0i32, 0i32, 0i32)
    } else {
        baseline_row(
            baseline_rows(y, cb, cr, bxn, byn, (rows - 1) as nat),
            y,
            cb,
            cr,
            bxn,
            byn,
            rows - 1,
            half_up(bxn) as nat,
        )
    }
}

/// A bit string completed with zero bits to whole bytes.
pub open spec fn padded(bits: Seq<bool>) -> Seq<bool> {
    bits + zeros(pad_len(bits.len()))
}

/// Entropy-coded data as stored: padded to whole bytes, packed and stuffed.
pub open spec fn entropy_bytes(bits: Seq<bool>) -> Seq<u8> {
    stuff(pack(padded(bits)))
}

/// The three components of a baseline scan with their table selectors.
pub open spec fn baseline_components() -> Seq<(u8, u8)> {
    seq![(1u8, 0x00u8), (2u8, 0x11u8), (3u8, 0x11u8)]
}

/// The baseline scan: its header, then every MCU in raster order.
#[verifier::opaque]
pub open spec fn baseline_scan_bytes(
    y: Seq<i32>,
    cb: Seq<i32>,
    cr: Seq<i32>,
    bxn: int,
    byn: int,
) -> Seq<u8> {
    sos_bytes(baseline_components(), 0, 63, 0) + entropy_bytes(
        baseline_rows(y, cb, cr, bxn, byn, half_up(byn) as nat).0,
    )
}

/// Inputs the block coder can take: coefficients in range, the luma plane holds every
/// block, and block offsets fit in 32 bits.
pub open spec fn planes_ok(y: Seq<i32>, cb: Seq<i32>, cr: Seq<i32>, bxn: int, byn: int) -> bool {
    &&& coeffs_ok(y)
    &&& coeffs_ok(cb)
    &&& coeffs_ok(cr)
    &&& bxn * byn * 64 <= 0x1_0000_0000
    &&& y.len() >= bxn * byn * 64
    &&& 0 <= bxn < u32::MAX
    &&& 0 <= byn < u32::MAX
}

proof fn lemma_block_index(bxn: int, byn: int, bx: int, by: int)
    requires
        0 <= bx < bxn,
        0 <= by < byn,
    ensures
        (by * bxn + bx) * 64 + 64 <= bxn * byn * 64,
        0 <= by * bxn + bx,
{
    assert((by * bxn + bx) * 64 + 64 <= bxn * byn * 64) by (nonlinear_arith)
        requires
            0 <= bx < bxn,
            0 <= by < byn,
    ;
    assert(0 <= by * bxn + bx) by (nonlinear_arith)
        requires
            0 <= bx,
            0 <= by,
            0 <= bxn,
    ;
}

proof fn lemma_chroma_index(bxn: int, byn: int, row: int, col: int)
    requires
        0 <= row < half_up(byn),
        0 <= col < half_up(bxn),
        bxn >= 0,
        byn >= 0,
    ensures
        (row * half_up(bxn) + col) * 64 + 64 <= bxn * byn * 64,
        0 <= row * half_up(bxn) + col,
{
    let hx = half_up(bxn);
    let hy = half_up(byn);
    assert(hx <= bxn && hy <= byn);
    assert((row * hx + col) * 64 + 64 <= hx * hy * 64) by (nonlinear_arith)
        requires
            0 <= col < hx,
            0 <= row < hy,
    ;
    assert(hx * hy * 64 <= bxn * byn * 64) by (nonlinear_arith)
        requires
            0 <= hx <= bxn,
            0 <= hy <= byn,
    ;
    assert(0 <= row * hx + col) by (nonlinear_arith)
        requires
            0 <= row,
            0 <= col,
            0 <= hx,
    ;
}

/// 64 zero coefficients.
fn zero_coefficients() -> (r: Vec<i32>)
    ensures
        r@ == zero_block(),
{
    let mut v: Vec<i32> = Vec::new();
    let mut i: usize = 0;
    while i < 64
        invariant
            i <= 64,
            v@ == Seq::new(i as nat, |k: int| 0i32),
        decreases 64 - i,
    {
        v.push(0);
        i = i + 1;
        assert(v@ =~= Seq::new(i as nat, |k: int| 0i32));
    }
    v
}

proof fn lemma_zero_block_ok()
    ensures
        coeffs_ok(zero_block()),
        zero_block().len() == 64,
{
}

/// Codes the luma block at (`bx`, `by`), a zero block when it lies outside the plane.
fn encode_luma_at(
    writer: &mut BitWriter,
    y_coeffs: &[i32],
    blocks_x: u32,
    blocks_y: u32,
    bx: u32,
    by: u32,
    dc_y: &mut i32,
    dc_table: &HuffTable,
    ac_table: &HuffTable,
    zeros_blk: &[i32],
)
    requires
        old(writer).wf(),
        dc_table.wf(),
        ac_table.wf(),
        dc_table@ == dc_luma_table(),
        ac_table@ == ac_luma_table(),
        zeros_blk@ == zero_block(),
        coeffs_ok(y_coeffs@),
        coeff_ok(*old(dc_y)),
        blocks_x * blocks_y * 64 <= 0x1_0000_0000,
        y_coeffs@.len() >= blocks_x * blocks_y * 64,
        bx <= 2 * blocks_x + 1,
    ensures
        final(writer).wf(),
        ({
            let s = code_luma(
                (old(writer).written(), *old(dc_y), 0, 0),
                luma_block(y_coeffs@, blocks_x as int, blocks_y as int, bx as int, by as int),
            );
            final(writer).written() == s.0 && *final(dc_y) == s.1
        }),
        coeff_ok(*final(dc_y)),
{
    if bx < blocks_x && by < blocks_y {
        proof {
            lemma_block_index(blocks_x as int, blocks_y as int, bx as int, by as int);
        }
        let idx = ((by * blocks_x + bx) * 64) as usize;
        assert(idx + 64 <= y_coeffs.len());
        let blk = vstd::slice::slice_subrange(y_coeffs, idx, idx + 64);
        proof {
            assert forall|i: int| 0 <= i < blk@.len() implies coeff_ok(#[trigger] blk@[i]) by {
                assert(blk@[i] == y_coeffs@[idx + i]);
            }
        }
        encode_block(writer, blk, dc_y, dc_table, ac_table);
    } else {
        proof {
            lemma_zero_block_ok();
        }
        encode_block(writer, zeros_blk, dc_y, dc_table, ac_table);
    }
}

/// Codes the chroma block starting at coefficient `idx`, a zero block past the end.
fn encode_chroma_at(
    writer: &mut BitWriter,
    c_coeffs: &[i32],
    idx: usize,
    prev_dc: &mut i32,
    dc_table: &HuffTable,
    ac_table: &HuffTable,
    zeros_blk: &[i32],
)
    requires
        old(writer).wf(),
        dc_table.wf(),
        ac_table.wf(),
        zeros_blk@ == zero_block(),
        coeffs_ok(c_coeffs@),
        coeff_ok(*old(prev_dc)),
        idx <= u32::MAX,
    ensures
        final(writer).wf(),
        final(writer).written() == old(writer).written() + block_bits(
            dc_table@,
            ac_table@,
            chroma_block(c_coeffs@, idx as int),
            *old(prev_dc) as int,
        ),
        *final(prev_dc) == chroma_block(c_coeffs@, idx as int)[0],
        coeff_ok(*final(prev_dc)),
{
    if idx <= c_coeffs.len() && c_coeffs.len() - idx >= 64 {
        let blk = vstd::slice::slice_subrange(c_coeffs, idx, idx + 64);
        proof {
            assert forall|i: int| 0 <= i < blk@.len() implies coeff_ok(#[trigger] blk@[i]) by {
                assert(blk@[i] == c_coeffs@[idx + i]);
            }
        }
        encode_block(writer, blk, prev_dc, dc_table, ac_table);
    } else {
        proof {
            lemma_zero_block_ok();
        }
        encode_block(writer, zeros_blk, prev_dc, dc_table, ac_table);
    }
}

/// The standard tables, built.
fn std_tables() -> (r: (HuffTable, HuffTable, HuffTable, HuffTable))
    ensures
        r.0.wf() && r.0@ == dc_luma_table(),
        r.1.wf() && r.1@ == ac_luma_table(),
        r.2.wf() && r.2@ == dc_chroma_table(),
        r.3.wf() && r.3@ == ac_chroma_table(),
{
    proof {
        lemma_std_counts();
    }
    let dc_luma = HuffTable::build(&DC_LUMA_BITS, &DC_LUMA_VALS);
    let ac_luma = HuffTable::build(&AC_LUMA_BITS, &AC_LUMA_VALS);
    let dc_chroma = HuffTable::build(&DC_CHROMA_BITS, &DC_CHROMA_VALS);
    let ac_chroma = HuffTable::build(&AC_CHROMA_BITS, &AC_CHROMA_VALS);
    (dc_luma, ac_luma, dc_chroma, ac_chroma)
}

/// Writes the baseline scan: its header, then the Huffman-coded MCUs (four luma blocks,
/// one Cb and one Cr block each, out-of-range blocks coded as zeros), padded and stuffed.
fn write_sos_and_data(
    out: &mut Vec<u8>,
    y_coeffs: &[i32],
    cb_coeffs: &[i32],
    cr_coeffs: &[i32],
    blocks_x: u32,
    blocks_y: u32,
)
    requires
        planes_ok(y_coeffs@, cb_coeffs@, cr_coeffs@, blocks_x as int, blocks_y as int),
    ensures
        final(out)@ == old(out)@ + baseline_scan_bytes(
            y_coeffs@,
            cb_coeffs@,
            cr_coeffs@,
            blocks_x as int,
            blocks_y as int,
        ),
{
    write_sos_header(out, &[(1u8, 0x00u8), (2u8, 0x11u8), (3u8, 0x11u8)], 0, 63, 0);
    proof {
        assert(seq![(1u8, 0x00u8), (2u8, 0x11u8), (3u8, 0x11u8)] =~= baseline_components());
    }
    let (dc_luma, ac_luma, dc_chroma, ac_chroma) = std_tables();
    let zeros_blk = zero_coefficients();
    let ghost y = y_coeffs@;
    let ghost cb = cb_coeffs@;
    let ghost cr = cr_coeffs@;
    let ghost bxn = blocks_x as int;
    let ghost byn = blocks_y as int;
    let mut writer = BitWriter::new();
    let mut dc_y: i32 = 0;
    let mut dc_cb: i32 = 0;
    let mut dc_cr: i32 = 0;
    let chroma_blocks_x = (blocks_x + 1) / 2;
    let mcu_x = (blocks_x + 1) / 2;
    let mcu_y = (blocks_y + 1) / 2;
    let mut mcu_row: u32 = 0;
    while mcu_row < mcu_y
        invariant
            planes_ok(y, cb, cr, bxn, byn),
            y == y_coeffs@,
            cb == cb_coeffs@,
            cr == cr_coeffs@,
            bxn == blocks_x,
            byn == blocks_y,
            dc_luma.wf() && dc_luma@ == dc_luma_table(),
            ac_luma.wf() && ac_luma@ == ac_luma_table(),
            dc_chroma.wf() && dc_chroma@ == dc_chroma_table(),
            ac_chroma.wf() && ac_chroma@ == ac_chroma_table(),
            zeros_blk@ == zero_block(),
            chroma_blocks_x == half_up(bxn),
            mcu_x == half_up(bxn),
            mcu_y == half_up(byn),
            mcu_row <= mcu_y,
            writer.wf(),
            coeff_ok(dc_y),
            coeff_ok(dc_cb),
            coeff_ok(dc_cr),
            (writer.written(), dc_y, dc_cb, dc_cr) == baseline_rows(
                y,
                cb,
                cr,
                bxn,
                byn,
                mcu_row as nat,
            ),
        decreases mcu_y - mcu_row,
    {
        let ghost row_start = baseline_rows(y, cb, cr, bxn, byn, mcu_row as nat);
        let mut mcu_col: u32 = 0;
        while mcu_col < mcu_x
            invariant
                planes_ok(y, cb, cr, bxn, byn),
                y == y_coeffs@,
                cb == cb_coeffs@,
                cr == cr_coeffs@,
                bxn == blocks_x,
                byn == blocks_y,
                dc_luma.wf() && dc_luma@ == dc_luma_table(),
                ac_luma.wf() && ac_luma@ == ac_luma_table(),
                dc_chroma.wf() && dc_chroma@ == dc_chroma_table(),
                ac_chroma.wf() && ac_chroma@ == ac_chroma_table(),
                zeros_blk@ == zero_block(),
                chroma_blocks_x == half_up(bxn),
                mcu_x == half_up(bxn),
                mcu_y == half_up(byn),
                mcu_row < mcu_y,
                mcu_col <= mcu_x,
                writer.wf(),
                coeff_ok(dc_y),
                coeff_ok(dc_cb),
                coeff_ok(dc_cr),
                (writer.written(), dc_y, dc_cb, dc_cr) == baseline_row(
                    row_start,
                    y,
                    cb,
                    cr,
                    bxn,
                    byn,
                    mcu_row as int,
                    mcu_col as nat,
                ),
            decreases mcu_x - mcu_col,
        {
            let ghost s0: ScanState = (writer.written(), dc_y, dc_cb, dc_cr);
            encode_luma_at(
                &mut writer,
                y_coeffs,
                blocks_x,
                blocks_y,
                mcu_col * 2,
                mcu_row * 2,
                &mut dc_y,
                &dc_luma,
                &ac_luma,
                &zeros_blk,
            );
            encode_luma_at(
                &mut writer,
                y_coeffs,
                blocks_x,
                blocks_y,
                mcu_col * 2 + 1,
                mcu_row * 2,
                &mut dc_y,
                &dc_luma,
                &ac_luma,
                &zeros_blk,
            );
            encode_luma_at(
                &mut writer,
                y_coeffs,
                blocks_x,
                blocks_y,
                mcu_col * 2,
                mcu_row * 2 + 1,
                &mut dc_y,
                &dc_luma,
                &ac_luma,
                &zeros_blk,
            );
            encode_luma_at(
                &mut writer,
                y_coeffs,
                blocks_x,
                blocks_y,
                mcu_col * 2 + 1,
                mcu_row * 2 + 1,
                &mut dc_y,
                &dc_luma,
                &ac_luma,
                &zeros_blk,
            );
            proof {
                lemma_chroma_index(bxn, byn, mcu_row as int, mcu_col as int);
            }
            let idx = ((mcu_row * chroma_blocks_x + mcu_col) * 64) as usize;
            encode_chroma_at(&mut writer, cb_coeffs, idx, &mut dc_cb, &dc_chroma, &ac_chroma, &zeros_blk);
            encode_chroma_at(&mut writer, cr_coeffs, idx, &mut dc_cr, &dc_chroma, &ac_chroma, &zeros_blk);
            proof {
                assert((writer.written(), dc_y, dc_cb, dc_cr) == baseline_mcu(
                    s0,
                    y,
                    cb,
                    cr,
                    bxn,
                    byn,
                    mcu_row as int,
                    mcu_col as int,
                ));
            }
            mcu_col = mcu_col + 1;
        }
        mcu_row = mcu_row + 1;
    }
    writer.flush();
    append_bytes(out, writer.data().as_slice());
    proof {
        reveal(baseline_scan_bytes);
        assert(final(out)@ =~= old(out)@ + baseline_scan_bytes(y, cb, cr, bxn, byn));
    }
}

/// The DC coefficient of a luma block, or the previous DC value outside the plane
/// (a zero difference).
pub open spec fn luma_dc(y: Seq<i32>, bxn: int, byn: int, bx: int, by: int, prev: i32) -> i32 {
    if bx < bxn && by < byn {
        y[(by * bxn + bx) * 64]
    } else {
        prev
    }
}

/// The DC coefficient of the chroma block with index `idx`, or the previous DC value
/// past the end.
pub open spec fn chroma_dc(c: Seq<i32>, idx: int, prev: i32) -> i32 {
    if idx * 64 < c.len() {
        c[idx * 64]
    } else {
        prev
    }
}

pub open spec fn dc_luma_step(s: ScanState, v: i32) -> ScanState {
    (s.0 + dc_bits(dc_luma_table(), v - s.1), v, s.2, s.3)
}

pub open spec fn dc_cb_step(s: ScanState, v: i32) -> ScanState {
    (s.0 + dc_bits(dc_chroma_table(), v - s.2), s.1, v, s.3)
}

pub open spec fn dc_cr_step(s: ScanState, v: i32) -> ScanState {
    (s.0 + dc_bits(dc_chroma_table(), v - s.3), s.1, s.2, v)
}

/// One MCU of the progressive DC scan: the DC values of its four luma blocks, then of
/// its Cb and Cr blocks.
pub open spec fn dc_mcu(
    s: ScanState,
    y: Seq<i32>,
    cb: Seq<i32>,
    cr: Seq<i32>,
    bxn: int,
    byn: int,
    row: int,
    col: int,
) -> ScanState {
    let s1 = dc_luma_step(s, luma_dc(y, bxn, byn, 2 * col, 2 * row, s.1));
    let s2 = dc_luma_step(s1, luma_dc(y, bxn, byn, 2 * col + 1, 2 * row, s1.1));
    let s3 = dc_luma_step(s2, luma_dc(y, bxn, byn, 2 * col, 2 * row + 1, s2.1));
    let s4 = dc_luma_step(s3, luma_dc(y, bxn, byn, 2 * col + 1, 2 * row + 1, s3.1));
    let cidx = row * half_up(bxn) + col;
    let s5 = dc_cb_step(s4, chroma_dc(cb, cidx, s4.2));
    dc_cr_step(s5, chroma_dc(cr, cidx, s5.3))
}

pub open spec fn dc_row(
    s: ScanState,
    y: Seq<i32>,
    cb: Seq<i32>,
    cr: Seq<i32>,
    bxn: int,
    byn: int,
    row: int,
    cols: nat,
) -> ScanState
    decreases cols,
{
    if cols == 0 {
        s
    } else {
        dc_mcu(
            dc_row(s, y, cb, cr, bxn, byn, row, (cols - 1) as nat),
            y,
            cb,
            cr,
            bxn,
            byn,
            row,
            cols - 1,
        )
    }
}

pub open spec fn dc_rows(
    y: Seq<i32>,
    cb: Seq<i32>,
    cr: Seq<i32>,
    bxn: int,
    byn: int,
    rows: nat,
) -> ScanState
    decreases rows,
{
    if rows == 0 {
        (Seq::empty(), 0i32, 0i32, 0i32)
    } else {
        dc_row(
            dc_rows(y, cb, cr, bxn, byn, (rows - 1) as nat),
            y,
            cb,
            cr,
            bxn,
            byn,
            rows - 1,
            half_up(bxn) as nat,
        )
    }
}

/// The progressive DC scan: interleaved DC values of all three components.
pub open spec fn dc_scan_bytes(y: Seq<i32>, cb: Seq<i32>, cr: Seq<i32>, bxn: int, byn: int) -> Seq<
    u8,
> {
    sos_bytes(baseline_components(), 0, 0, 0) + entropy_bytes(
        dc_rows(y, cb, cr, bxn, byn, half_up(byn) as nat).0,
    )
}

/// The AC coefficients `ss..=se` of block `k`, or an end-of-block code when the block
/// is missing.
pub open spec fn ac_block_bits(t: CodeTable, c: Seq<i32>, ss: int, se: int, k: int) -> Seq<bool> {
    if k * 64 + 64 > c.len() {
        huff_bits(t, 0)
    } else {
        ac_bits(t, c.subrange(k * 64, k * 64 + 64), ss, se, 0)
    }
}

/// The first `k` blocks of a progressive AC scan.
pub open spec fn ac_scan_bits(t: CodeTable, c: Seq<i32>, ss: int, se: int, k: nat) -> Seq<bool>
    decreases k,
{
    if k == 0 {
        Seq::empty()
    } else {
        ac_scan_bits(t, c, ss, se, (k - 1) as nat) + ac_block_bits(t, c, ss, se, k - 1)
    }
}

/// A progressive AC scan of one component over `bxn * byn` blocks.
pub open spec fn ac_scan_bytes(
    t: CodeTable,
    c: Seq<i32>,
    bxn: int,
    byn: int,
    ss: u8,
    se: u8,
    comp_id: u8,
    selector: u8,
) -> Seq<u8> {
    sos_bytes(seq![(comp_id, selector)], ss, se, 0) + entropy_bytes(
        ac_scan_bits(t, c, ss as int, se as int, (bxn * byn) as nat),
    )
}

/// Writes one non-interleaved progressive AC scan (spectral band `ss..=se`).
fn write_progressive_ac_scan(
    out: &mut Vec<u8>,
    coeffs: &[i32],
    blocks_x: u32,
    blocks_y: u32,
    ss: u8,
    se: u8,
    ac_table: &HuffTable,
    comp_id: u8,
    table_selector: u8,
)
    requires
        ac_table.wf(),
        coeffs_ok(coeffs@),
        ss <= se < 64,
        blocks_x * blocks_y * 64 <= 0x1_0000_0000,
    ensures
        final(out)@ == old(out)@ + ac_scan_bytes(
            ac_table@,
            coeffs@,
            blocks_x as int,
            blocks_y as int,
            ss,
            se,
            comp_id,
            table_selector,
        ),
{
    let comps = [(comp_id, table_selector)];
    proof {
        assert(comps@ =~= seq![(comp_id, table_selector)]);
    }
    write_sos_header(out, &comps, ss, se, 0);
    let ghost after_header = out@;
    let mut writer = BitWriter::new();
    let total_blocks = blocks_x * blocks_y;
    let ghost t = ac_table@;
    let ghost c = coeffs@;
    let mut block: u32 = 0;
    while block < total_blocks
        invariant
            ac_table.wf(),
            t == ac_table@,
            c == coeffs@,
            coeffs_ok(c),
            ss <= se < 64,
            total_blocks == blocks_x * blocks_y,
            total_blocks * 64 <= 0x1_0000_0000,
            block <= total_blocks,
            writer.wf(),
            writer.written() == ac_scan_bits(t, c, ss as int, se as int, block as nat),
        decreases total_blocks - block,
    {
        let base = (block * 64) as usize;
        if base > coeffs.len() || coeffs.len() - base < 64 {
            write_symbol(&mut writer, ac_table, 0x00);
        } else {
            let blk = vstd::slice::slice_subrange(coeffs, base, base + 64);
            proof {
                assert forall|i: int| 0 <= i < blk@.len() implies coeff_ok(#[trigger] blk@[i]) by {
                    assert(blk@[i] == c[base + i]);
                }
            }
            encode_ac_run(&mut writer, blk, ss as usize, se as usize, ac_table);
        }
        block = block + 1;
    }
    let ghost bits = writer.written();
    proof {
        assert(block == total_blocks);
        assert(bits == ac_scan_bits(t, c, ss as int, se as int, (blocks_x as int * blocks_y as int) as nat));
    }
    writer.flush();
    append_bytes(out, writer.data().as_slice());
    proof {
        assert(writer.written() == padded(bits));
        assert(out@ == after_header + entropy_bytes(bits));
        assert(final(out)@ =~= old(out)@ + ac_scan_bytes(
            t,
            c,
            blocks_x as int,
            blocks_y as int,
            ss,
            se,
            comp_id,
            table_selector,
        ));
    }
}

/// Codes the DC value of the luma block at (`bx`, `by`), repeating the previous value
/// outside the plane.
fn encode_luma_dc_at(
    writer: &mut BitWriter,
    y_coeffs: &[i32],
    blocks_x: u32,
    blocks_y: u32,
    bx: u32,
    by: u32,
    dc_y: &mut i32,
    dc_table: &HuffTable,
)
    requires
        old(writer).wf(),
        dc_table.wf(),
        dc_table@ == dc_luma_table(),
        coeffs_ok(y_coeffs@),
        coeff_ok(*old(dc_y)),
        blocks_x * blocks_y * 64 <= 0x1_0000_0000,
        y_coeffs@.len() >= blocks_x * blocks_y * 64,
    ensures
        final(writer).wf(),
        ({
            let s = dc_luma_step(
                (old(writer).written(), *old(dc_y), 0, 0),
                luma_dc(
                    y_coeffs@,
                    blocks_x as int,
                    blocks_y as int,
                    bx as int,
                    by as int,
                    *old(dc_y),
                ),
            );
            final(writer).written() == s.0 && *final(dc_y) == s.1
        }),
        coeff_ok(*final(dc_y)),
{
    let dc_val = if bx < blocks_x && by < blocks_y {
        proof {
            lemma_block_index(blocks_x as int, blocks_y as int, bx as int, by as int);
        }
        y_coeffs[((by * blocks_x + bx) * 64) as usize]
    } else {
        *dc_y
    };
    encode_dc(writer, dc_val, dc_y, dc_table);
}

/// Codes the DC value of the chroma block with index `idx`, repeating the previous
/// value past the end.
fn encode_chroma_dc_at(
    writer: &mut BitWriter,
    c_coeffs: &[i32],
    idx: usize,
    prev_dc: &mut i32,
    dc_table: &HuffTable,
)
    requires
        old(writer).wf(),
        dc_table.wf(),
        coeffs_ok(c_coeffs@),
        coeff_ok(*old(prev_dc)),
        idx * 64 <= u32::MAX,
    ensures
        final(writer).wf(),
        final(writer).written() == old(writer).written() + dc_bits(
            dc_table@,
            chroma_dc(c_coeffs@, idx as int, *old(prev_dc)) - *old(prev_dc),
        ),
        *final(prev_dc) == chroma_dc(c_coeffs@, idx as int, *old(prev_dc)),
        coeff_ok(*final(prev_dc)),
{
    let dc_val = if idx * 64 < c_coeffs.len() {
        c_coeffs[idx * 64]
    } else {
        *prev_dc
    };
    encode_dc(writer, dc_val, prev_dc, dc_table);
}

/// Codes the DC values of one MCU of the progressive DC scan.
fn encode_dc_mcu(
    writer: &mut BitWriter,
    y_coeffs: &[i32],
    cb_coeffs: &[i32],
    cr_coeffs: &[i32],
    blocks_x: u32,
    blocks_y: u32,
    mcu_row: u32,
    mcu_col: u32,
    dc_y: &mut i32,
    dc_cb: &mut i32,
    dc_cr: &mut i32,
    dc_luma: &HuffTable,
    dc_chroma: &HuffTable,
)
    requires
        planes_ok(y_coeffs@, cb_coeffs@, cr_coeffs@, blocks_x as int, blocks_y as int),
        dc_luma.wf() && dc_luma@ == dc_luma_table(),
        dc_chroma.wf() && dc_chroma@ == dc_chroma_table(),
        mcu_row < half_up(blocks_y as int),
        mcu_col < half_up(blocks_x as int),
        old(writer).wf(),
        coeff_ok(*old(dc_y)),
        coeff_ok(*old(dc_cb)),
        coeff_ok(*old(dc_cr)),
    ensures
        final(writer).wf(),
        coeff_ok(*final(dc_y)),
        coeff_ok(*final(dc_cb)),
        coeff_ok(*final(dc_cr)),
        (final(writer).written(), *final(dc_y), *final(dc_cb), *final(dc_cr)) == dc_mcu(
            (old(writer).written(), *old(dc_y), *old(dc_cb), *old(dc_cr)),
            y_coeffs@,
            cb_coeffs@,
            cr_coeffs@,
            blocks_x as int,
            blocks_y as int,
            mcu_row as int,
            mcu_col as int,
        ),
{
    encode_luma_dc_at(writer, y_coeffs, blocks_x, blocks_y, mcu_col * 2, mcu_row * 2, dc_y, dc_luma);
    encode_luma_dc_at(writer, y_coeffs, blocks_x, blocks_y, mcu_col * 2 + 1, mcu_row * 2, dc_y, dc_luma);
    encode_luma_dc_at(writer, y_coeffs, blocks_x, blocks_y, mcu_col * 2, mcu_row * 2 + 1, dc_y, dc_luma);
    encode_luma_dc_at(writer, y_coeffs, blocks_x, blocks_y, mcu_col * 2 + 1, mcu_row * 2 + 1, dc_y, dc_luma);
    proof {
        lemma_chroma_index(blocks_x as int, blocks_y as int, mcu_row as int, mcu_col as int);
    }
    let chroma_blocks_x = (blocks_x + 1) / 2;
    let cb_idx = (mcu_row * chroma_blocks_x + mcu_col) as usize;
    encode_chroma_dc_at(writer, cb_coeffs, cb_idx, dc_cb, dc_chroma);
    encode_chroma_dc_at(writer, cr_coeffs, cb_idx, dc_cr, dc_chroma);
}

/// Writes the progressive DC scan (all components interleaved, DC only).
fn write_dc_scan(
    out: &mut Vec<u8>,
    y_coeffs: &[i32],
    cb_coeffs: &[i32],
    cr_coeffs: &[i32],
    blocks_x: u32,
    blocks_y: u32,
    dc_luma: &HuffTable,
    dc_chroma: &HuffTable,
)
    requires
        planes_ok(y_coeffs@, cb_coeffs@, cr_coeffs@, blocks_x as int, blocks_y as int),
        dc_luma.wf() && dc_luma@ == dc_luma_table(),
        dc_chroma.wf() && dc_chroma@ == dc_chroma_table(),
    ensures
        final(out)@ == old(out)@ + dc_scan_bytes(
            y_coeffs@,
            cb_coeffs@,
            cr_coeffs@,
            blocks_x as int,
            blocks_y as int,
        ),
{
    write_sos_header(out, &[(1u8, 0x00u8), (2u8, 0x11u8), (3u8, 0x11u8)], 0, 0, 0);
    proof {
        assert(seq![(1u8, 0x00u8), (2u8, 0x11u8), (3u8, 0x11u8)] =~= baseline_components());
    }
    let ghost y = y_coeffs@;
    let ghost cb = cb_coeffs@;
    let ghost cr = cr_coeffs@;
    let ghost bxn = blocks_x as int;
    let ghost byn = blocks_y as int;
    let mut writer = BitWriter::new();
    let mut dc_y: i32 = 0;
    let mut dc_cb: i32 = 0;
    let mut dc_cr: i32 = 0;
    let chroma_blocks_x = (blocks_x + 1) / 2;
    let mcu_x = (blocks_x + 1) / 2;
    let mcu_y = (blocks_y + 1) / 2;
    let mut mcu_row: u32 = 0;
    while mcu_row < mcu_y
        invariant
            planes_ok(y, cb, cr, bxn, byn),
            y == y_coeffs@,
            cb == cb_coeffs@,
            cr == cr_coeffs@,
            bxn == blocks_x,
            byn == blocks_y,
            dc_luma.wf() && dc_luma@ == dc_luma_table(),
            dc_chroma.wf() && dc_chroma@ == dc_chroma_table(),
            chroma_blocks_x == half_up(bxn),
            mcu_x == half_up(bxn),
            mcu_y == half_up(byn),
            mcu_row <= mcu_y,
            writer.wf(),
            coeff_ok(dc_y),
            coeff_ok(dc_cb),
            coeff_ok(dc_cr),
            (writer.written(), dc_y, dc_cb, dc_cr) == dc_rows(y, cb, cr, bxn, byn, mcu_row as nat),
        decreases mcu_y - mcu_row,
    {
        let ghost row_start = dc_rows(y, cb, cr, bxn, byn, mcu_row as nat);
        let mut mcu_col: u32 = 0;
        while mcu_col < mcu_x
            invariant
                planes_ok(y, cb, cr, bxn, byn),
                y == y_coeffs@,
                cb == cb_coeffs@,
                cr == cr_coeffs@,
                bxn == blocks_x,
                byn == blocks_y,
                dc_luma.wf() && dc_luma@ == dc_luma_table(),
                dc_chroma.wf() && dc_chroma@ == dc_chroma_table(),
                chroma_blocks_x == half_up(bxn),
                mcu_x == half_up(bxn),
                mcu_y == half_up(byn),
                mcu_row < mcu_y,
                mcu_col <= mcu_x,
                writer.wf(),
                coeff_ok(dc_y),
                coeff_ok(dc_cb),
                coeff_ok(dc_cr),
                (writer.written(), dc_y, dc_cb, dc_cr) == dc_row(
                    row_start,
                    y,
                    cb,
                    cr,
                    bxn,
                    byn,
                    mcu_row as int,
                    mcu_col as nat,
                ),
            decreases mcu_x - mcu_col,
        {
            encode_dc_mcu(
                &mut writer,
                y_coeffs,
                cb_coeffs,
                cr_coeffs,
                blocks_x,
                blocks_y,
                mcu_row,
                mcu_col,
                &mut dc_y,
                &mut dc_cb,
                &mut dc_cr,
                dc_luma,
                dc_chroma,
            );
            mcu_col = mcu_col + 1;
        }
        mcu_row = mcu_row + 1;
    }
    writer.flush();
    append_bytes(out, writer.data().as_slice());
    proof {
        assert(final(out)@ =~= old(out)@ + dc_scan_bytes(y, cb, cr, bxn, byn));
    }
}

/// The five scans of the progressive mode: interleaved DC; luma AC 1-5; luma AC 6-63;
/// Cb AC 1-63; Cr AC 1-63.
#[verifier::opaque]
pub open spec fn progressive_scans_bytes(
    y: Seq<i32>,
    cb: Seq<i32>,
    cr: Seq<i32>,
    bxn: int,
    byn: int,
) -> Seq<u8> {
    dc_scan_bytes(y, cb, cr, bxn, byn) + ac_scan_bytes(ac_luma_table(), y, bxn, byn, 1, 5, 1, 0x00)
        + ac_scan_bytes(ac_luma_table(), y, bxn, byn, 6, 63, 1, 0x00) + ac_scan_bytes(
        ac_chroma_table(),
        cb,
        half_up(bxn),
        half_up(byn),
        1,
        63,
        2,
        0x11,
    ) + ac_scan_bytes(ac_chroma_table(), cr, half_up(bxn), half_up(byn), 1, 63, 3, 0x11)
}

/// Writes the five progressive scans.
fn write_progressive_scans(
    out: &mut Vec<u8>,
    y_coeffs: &[i32],
    cb_coeffs: &[i32],
    cr_coeffs: &[i32],
    blocks_x: u32,
    blocks_y: u32,
)
    requires
        planes_ok(y_coeffs@, cb_coeffs@, cr_coeffs@, blocks_x as int, blocks_y as int),
    ensures
        final(out)@ == old(out)@ + progressive_scans_bytes(
            y_coeffs@,
            cb_coeffs@,
            cr_coeffs@,
            blocks_x as int,
            blocks_y as int,
        ),
{
    let (dc_luma, ac_luma, dc_chroma, ac_chroma) = std_tables();
    let chroma_blocks_x = (blocks_x + 1) / 2;
    let chroma_blocks_y = (blocks_y + 1) / 2;
    proof {
        let hx = half_up(blocks_x as int);
        let hy = half_up(blocks_y as int);
        assert(hx * hy * 64 <= blocks_x * blocks_y * 64) by (nonlinear_arith)
            requires
                0 <= hx <= blocks_x,
                0 <= hy <= blocks_y,
                hx <= 1 || hx <= blocks_x,
        ;
    }
    let ghost o0 = out@;
    write_dc_scan(out, y_coeffs, cb_coeffs, cr_coeffs, blocks_x, blocks_y, &dc_luma, &dc_chroma);
    let ghost o1 = out@;
    write_progressive_ac_scan(out, y_coeffs, blocks_x, blocks_y, 1, 5, &ac_luma, 1, 0x00);
    let ghost o2 = out@;
    write_progressive_ac_scan(out, y_coeffs, blocks_x, blocks_y, 6, 63, &ac_luma, 1, 0x00);
    let ghost o3 = out@;
    write_progressive_ac_scan(
        out,
        cb_coeffs,
        chroma_blocks_x,
        chroma_blocks_y,
        1,
        63,
        &ac_chroma,
        2,
        0x11,
    );
    let ghost o4 = out@;
    write_progressive_ac_scan(
        out,
        cr_coeffs,
        chroma_blocks_x,
        chroma_blocks_y,
        1,
        63,
        &ac_chroma,
        3,
        0x11,
    );
    proof {
        let y = y_coeffs@;
        let cb = cb_coeffs@;
        let cr = cr_coeffs@;
        let bxn = blocks_x as int;
        let byn = blocks_y as int;
        assert(o1 == o0 + dc_scan_bytes(y, cb, cr, bxn, byn));
        assert(o2 == o1 + ac_scan_bytes(ac_luma_table(), y, bxn, byn, 1, 5, 1, 0x00));
        assert(o3 == o2 + ac_scan_bytes(ac_luma_table(), y, bxn, byn, 6, 63, 1, 0x00));
        assert(o4 == o3 + ac_scan_bytes(ac_chroma_table(), cb, half_up(bxn), half_up(byn), 1, 63, 2, 0x11));
        assert(out@ == o4 + ac_scan_bytes(ac_chroma_table(), cr, half_up(bxn), half_up(byn), 1, 63, 3, 0x11));
        reveal(progressive_scans_bytes);
        assert(final(out)@ =~= old(out)@ + progressive_scans_bytes(
            y_coeffs@,
            cb_coeffs@,
            cr_coeffs@,
            blocks_x as int,
            blocks_y as int,
        ));
    }
}

/// The standard luminance quantization table (ITU T.81 Annex K, Table K.1),
/// row-major.
pub const LUMA_QUANT_TABLE: [u8; 64] = [
    16, 11, 10, 16, 24, 40, 51, 61, 12, 12, 14, 19, 26, 58, 60, 55, 14, 13, 16, 24, 40, 57, 69,
    56, 14, 17, 22, 29, 51, 87, 80, 62, 18, 22, 37, 56, 68, 109, 103, 77, 24, 35, 55, 64, 81, 104,
    113, 92, 49, 64, 78, 87, 103, 121, 120, 101, 72, 92, 95, 98, 112, 100, 103, 99,
];

/// The standard chrominance quantization table (ITU T.81 Annex K, Table K.2),
/// row-major.
pub const CHROMA_QUANT_TABLE: [u8; 64] = [
    17, 18, 24, 47, 99, 99, 99, 99, 18, 21, 26, 66, 99, 99, 99, 99, 24, 26, 56, 99, 99, 99, 99,
    99, 47, 66, 99, 99, 99, 99, 99, 99, 99, 99, 99, 99, 99, 99, 99, 99, 99, 99, 99, 99, 99, 99, 99,
    99, 99, 99, 99, 99, 99, 99, 99, 99, 99, 99, 99, 99, 99, 99, 99, 99,
];

/// Quality limited to 1..=100.
pub open spec fn clamp_quality(quality: u8) -> nat {
    if quality < 1 {
        1
    } else if quality > 100 {
        100
    } else {
        quality as nat
    }
}

/// The scaling percentage of a quality: 5000/q below 50, 200 - 2q from 50 on.
pub open spec fn quality_scale(quality: u8) -> nat {
    let q = clamp_quality(quality);
    if q < 50 {
        5000nat / q
    } else {
        (200 - 2 * q) as nat
    }
}

/// A scaled quantizer: the base entry times the scale in percent, rounded, kept in
/// 1..=255.
pub open spec fn scaled_entry(base: u8, quality: u8) -> nat {
    let v = (base as nat * quality_scale(quality) + 50) / 100;
    if v < 1 {
        1
    } else if v > 255 {
        255
    } else {
        v
    }
}

/// A base table scaled to a quality.
pub open spec fn quant_table(base: Seq<u8>, quality: u8) -> Seq<u8> {
    Seq::new(64, |i: int| scaled_entry(base[i], quality) as u8)
}

/// Scales a base quantization table to a JPEG quality (1..=100; other values are
/// clamped), as the IJG reference encoder does.
pub fn scale_quant_table(base: &[u8; 64], quality: u8) -> (r: Vec<u8>)
    ensures
        r@.len() == 64,
        forall|i: int| 0 <= i < 64 ==> #[trigger] r@[i] as nat == scaled_entry(base@[i], quality),
        r@ == quant_table(base@, quality),
{
    let q: u32 = if quality < 1 {
        1
    } else if quality > 100 {
        100
    } else {
        quality as u32
    };
    let scale: u32 = if q < 50 {
        5000 / q
    } else {
        200 - q * 2
    };
    let mut table: Vec<u8> = Vec::new();
    let mut i: usize = 0;
    while i < 64
        invariant
            i <= 64,
            q == clamp_quality(quality),
            scale == quality_scale(quality),
            scale <= 5000,
            table@.len() == i,
            forall|k: int| 0 <= k < i ==> #[trigger] table@[k] as nat == scaled_entry(
                base@[k],
                quality,
            ),
        decreases 64 - i,
    {
        proof {
            let b = base@[i as int];
            assert(b as nat * scale <= 255 * 5000) by (nonlinear_arith)
                requires
                    b <= 255,
                    scale <= 5000,
            ;
        }
        let raw = (base[i] as u32 * scale + 50) / 100;
        let val: u8 = if raw < 1 {
            1
        } else if raw > 255 {
            255
        } else {
            raw as u8
        };
        table.push(val);
        i = i + 1;
    }
    assert(table@ =~= quant_table(base@, quality));
    table
}

/// Law: a higher quality never gives a coarser quantizer.
pub proof fn law_quality_monotone(base: u8, q1: u8, q2: u8)
    requires
        q1 <= q2,
    ensures
        scaled_entry(base, q2) <= scaled_entry(base, q1),
{
    let a = clamp_quality(q1);
    let b = clamp_quality(q2);
    assert(a <= b);
    assert(quality_scale(q2) <= quality_scale(q1)) by {
        if a < 50 && b < 50 {
            vstd::arithmetic::div_mod::lemma_div_is_ordered_by_denominator(5000, a as int, b as int);
        } else if a < 50 {
            assert(5000nat / a >= 5000nat / 49nat) by {
                vstd::arithmetic::div_mod::lemma_div_is_ordered_by_denominator(5000, a as int, 49);
            }
        }
    }
    assert(base as nat * quality_scale(q2) <= base as nat * quality_scale(q1)) by (nonlinear_arith)
        requires
            quality_scale(q2) <= quality_scale(q1),
    ;
    vstd::arithmetic::div_mod::lemma_div_is_ordered(
        (base as nat * quality_scale(q2) + 50) as int,
        (base as nat * quality_scale(q1) + 50) as int,
        100,
    );
}

/// Law: the IJG scaling. A quality q in 1..=100 scales each base entry by 5000/q percent
/// below 50 and by 200 - 2q percent from 50 on, rounded to nearest and kept in 1..=255.
pub proof fn law_ijg_scaling(base: u8, q: u8)
    requires
        1 <= q <= 100,
    ensures
        ({
            let pct: int = if q < 50 {
                5000int / (q as int)
            } else {
                200 - 2 * (q as int)
            };
            let v: int = (base as int * pct + 50) / 100;
            scaled_entry(base, q) == if v < 1 {
                1
            } else if v > 255 {
                255
            } else {
                v
            }
        }),
{
}

/// Law: from quality 50 on every step up in quality gives a strictly finer quantizer
/// for the largest base entry.
pub proof fn law_quality_strictly_finer(q1: u8, q2: u8)
    requires
        50 <= q1 < q2 <= 100,
    ensures
        scaled_entry(255, q2) < scaled_entry(255, q1),
{
    let s1: int = 200 - 2 * (q1 as int);
    let s2: int = 200 - 2 * (q2 as int);
    assert(quality_scale(q1) == s1 && quality_scale(q2) == s2);
    let a1: int = 255 * s1 + 50;
    let a2: int = 255 * s2 + 50;
    assert(a1 >= a2 + 510);
    assert(a1 / 100 >= (a2 + 510) / 100) by {
        vstd::arithmetic::div_mod::lemma_div_is_ordered(a2 + 510, a1, 100);
    }
    assert((a2 + 510) / 100 >= a2 / 100 + 5) by {
        vstd::arithmetic::div_mod::lemma_fundamental_div_mod(a2, 100);
        vstd::arithmetic::div_mod::lemma_fundamental_div_mod(a2 + 510, 100);
        vstd::arithmetic::div_mod::lemma_mod_bound(a2, 100);
        vstd::arithmetic::div_mod::lemma_mod_bound(a2 + 510, 100);
    }
    assert(a1 / 100 <= 255) by {
        vstd::arithmetic::div_mod::lemma_div_is_ordered(a1, 25550, 100);
    }
    assert(a2 / 100 >= 0) by {
        vstd::arithmetic::div_mod::lemma_div_is_ordered(0, a2, 100);
    }
}

/// Law: each run of sixteen zeros before a coefficient is coded as one ZRL symbol
/// (0xF0): the ZRL part of a run is the code of 0xF0 repeated run / 16 times.
pub proof fn law_zrl_codes(t: CodeTable, run: nat)
    ensures
        zrl_bits(t, run) == Seq::new(run / 16, |k: int| huff_bits(t, 0xF0)).flatten(),
    decreases run,
{
    let n = run / 16;
    let parts = Seq::new(n, |k: int| huff_bits(t, 0xF0));
    if run < 16 {
        assert(parts =~= Seq::<Seq<bool>>::empty());
    } else {
        law_zrl_codes(t, (run - 16) as nat);
        let rest = Seq::new(((run - 16) as nat) / 16, |k: int| huff_bits(t, 0xF0));
        assert(((run - 16) as nat) / 16 == n - 1);
        assert(parts.drop_first() =~= rest);
        assert(parts.first() == huff_bits(t, 0xF0));
    }
}

/// Law: at quality 50 the tables are used as they are.
pub proof fn law_quality_50_is_base(base: u8)
    requires
        base >= 1,
    ensures
        scaled_entry(base, 50) == base,
{
    assert((base as nat * 100 + 50) / 100 == base) by (nonlinear_arith)
        requires
            base >= 1,
    ;
}

/// Law: every quantizer lies in 1..=255, so it can be divided by and written in 8 bits.
pub proof fn law_quantizer_range(base: u8, quality: u8)
    ensures
        1 <= scaled_entry(base, quality) <= 255,
{
}

/// A complete JPEG file: SOI, JFIF header, both quantization tables, frame header,
/// Huffman tables, the scans (one baseline scan, or five progressive ones), EOI.
pub open spec fn jpeg_bytes(
    width: u32,
    height: u32,
    luma_q: Seq<u8>,
    chroma_q: Seq<u8>,
    progressive: bool,
    y: Seq<i32>,
    cb: Seq<i32>,
    cr: Seq<i32>,
    bxn: int,
    byn: int,
) -> Seq<u8> {
    let frame = if progressive {
        sof_bytes(0xC2, width as u16, height as u16) + dht_tables_bytes()
            + progressive_scans_bytes(y, cb, cr, bxn, byn)
    } else {
        sof_bytes(0xC0, width as u16, height as u16) + dht_tables_bytes() + baseline_scan_bytes(
            y,
            cb,
            cr,
            bxn,
            byn,
        )
    };
    seq![0xFFu8, 0xD8u8] + app0_bytes() + dqt_bytes(0, luma_q) + dqt_bytes(1, chroma_q) + frame
        + seq![0xFFu8, 0xD9u8]
}

/// True when every coefficient lies in the range the entropy coder takes.
fn coefficients_in_range(c: &[i32]) -> (r: bool)
    ensures
        r == coeffs_ok(c@),
{
    let mut i: usize = 0;
    while i < c.len()
        invariant
            i <= c@.len(),
            forall|j: int| 0 <= j < i ==> coeff_ok(#[trigger] c@[j]),
        decreases c.len() - i,
    {
        if c[i] < -32767 || c[i] > 32767 {
            return false;
        }
        i = i + 1;
    }
    true
}

/// The block planes that `assemble_jpeg` reads: the luma plane holds every block and
/// block offsets fit in 32 bits.
pub open spec fn planes_fit(y: Seq<i32>, bxn: int, byn: int) -> bool {
    &&& bxn * byn * 64 <= 0x1_0000_0000
    &&& y.len() >= bxn * byn * 64
    &&& 0 <= bxn < u32::MAX
    &&& 0 <= byn < u32::MAX
}

/// Assembles a JPEG file from quantized coefficients in zigzag order (64 per block,
/// blocks in raster order; luma `blocks_x` x `blocks_y` blocks, chroma subsampled 4:2:0).
/// The frame dimensions are written in 16 bits. A coefficient outside the baseline
/// range of ±32767, whose magnitude category would not fit the Huffman symbols, is
/// refused.
pub fn assemble_jpeg(
    width: u32,
    height: u32,
    quality: u8,
    progressive: bool,
    y_coeffs: &[i32],
    cb_coeffs: &[i32],
    cr_coeffs: &[i32],
    blocks_x: u32,
    blocks_y: u32,
) -> (r: Result<Vec<u8>, EngineError>)
    requires
        planes_fit(y_coeffs@, blocks_x as int, blocks_y as int),
    ensures
        r is Ok <==> coeffs_ok(y_coeffs@) && coeffs_ok(cb_coeffs@) && coeffs_ok(cr_coeffs@),
        r matches Ok(v) ==> v@ == jpeg_bytes(
            width,
            height,
            quant_table(LUMA_QUANT_TABLE@, quality),
            quant_table(CHROMA_QUANT_TABLE@, quality),
            progressive,
            y_coeffs@,
            cb_coeffs@,
            cr_coeffs@,
            blocks_x as int,
            blocks_y as int,
        ),
        r matches Err(e) ==> e is InvalidInput,
{
    if !(coefficients_in_range(y_coeffs) && coefficients_in_range(cb_coeffs)
        && coefficients_in_range(cr_coeffs)) {
        return Err(EngineError::InvalidInput { what: "DCT coefficient outside the baseline JPEG range" });
    }
    Ok(assemble_in_range(width, height, quality, progressive, y_coeffs, cb_coeffs, cr_coeffs, blocks_x, blocks_y))
}

/// `assemble_jpeg` once the coefficients are known to be in range.
fn assemble_in_range(
    width: u32,
    height: u32,
    quality: u8,
    progressive: bool,
    y_coeffs: &[i32],
    cb_coeffs: &[i32],
    cr_coeffs: &[i32],
    blocks_x: u32,
    blocks_y: u32,
) -> (r: Vec<u8>)
    requires
        planes_ok(y_coeffs@, cb_coeffs@, cr_coeffs@, blocks_x as int, blocks_y as int),
    ensures
        r@ == jpeg_bytes(
            width,
            height,
            quant_table(LUMA_QUANT_TABLE@, quality),
            quant_table(CHROMA_QUANT_TABLE@, quality),
            progressive,
            y_coeffs@,
            cb_coeffs@,
            cr_coeffs@,
            blocks_x as int,
            blocks_y as int,
        ),
{
    let mut out: Vec<u8> = Vec::new();
    out.push(0xFF);
    out.push(0xD8);
    write_app0(&mut out);
    let luma_qt = scale_quant_table(&LUMA_QUANT_TABLE, quality);
    let chroma_qt = scale_quant_table(&CHROMA_QUANT_TABLE, quality);
    write_dqt(&mut out, 0, luma_qt.as_slice());
    write_dqt(&mut out, 1, chroma_qt.as_slice());
    let ghost head = out@;
    let ghost lq = luma_qt@;
    let ghost cq = chroma_qt@;
    proof {
        assert(head == seq![0xFFu8, 0xD8u8] + app0_bytes() + dqt_bytes(0, lq) + dqt_bytes(1, cq));
    }
    if progressive {
        write_sof2(&mut out, width as u16, height as u16);
        write_dht_tables(&mut out);
        write_progressive_scans(&mut out, y_coeffs, cb_coeffs, cr_coeffs, blocks_x, blocks_y);
        proof {
            assert(out@ == head + (sof_bytes(0xC2, width as u16, height as u16) + dht_tables_bytes()
                + progressive_scans_bytes(
                y_coeffs@,
                cb_coeffs@,
                cr_coeffs@,
                blocks_x as int,
                blocks_y as int,
            )));
        }
    } else {
        write_sof0(&mut out, width as u16, height as u16);
        write_dht_tables(&mut out);
        write_sos_and_data(&mut out, y_coeffs, cb_coeffs, cr_coeffs, blocks_x, blocks_y);
        proof {
            assert(out@ == head + (sof_bytes(0xC0, width as u16, height as u16) + dht_tables_bytes()
                + baseline_scan_bytes(
                y_coeffs@,
                cb_coeffs@,
                cr_coeffs@,
                blocks_x as int,
                blocks_y as int,
            )));
        }
    }
    out.push(0xFF);
    out.push(0xD9);
    proof {
        assert(out@ =~= jpeg_bytes(
            width,
            height,
            lq,
            cq,
            progressive,
            y_coeffs@,
            cb_coeffs@,
            cr_coeffs@,
            blocks_x as int,
            blocks_y as int,
        ));
    }
    out
}

/// Law: an assembled JPEG file begins with the SOI marker and ends with the EOI marker.
pub proof fn law_jpeg_framing(
    width: u32,
    height: u32,
    lq: Seq<u8>,
    cq: Seq<u8>,
    progressive: bool,
    y: Seq<i32>,
    cb: Seq<i32>,
    cr: Seq<i32>,
    bxn: int,
    byn: int,
)
    ensures
        ({
            let f = jpeg_bytes(width, height, lq, cq, progressive, y, cb, cr, bxn, byn);
            &&& f.len() >= 4
            &&& f[0] == 0xFF
            &&& f[1] == 0xD8
            &&& f[f.len() - 2] == 0xFF
            &&& f[f.len() - 1] == 0xD9
        }),
{
}

/// The source sample that fills padded position (`x`, `y`): the nearest sample of the
/// `width` x `height` plane (edges repeated).
pub open spec fn edge_index(width: int, height: int, x: int, y: int) -> int {
    let sx = if x < width - 1 {
        x
    } else {
        width - 1
    };
    let sy = if y < height - 1 {
        y
    } else {
        height - 1
    };
    sy * width + sx
}

/// Extends a `width` x `height` plane (row-major) to `blocks_x * 8` x `blocks_y * 8`
/// samples by repeating its last column and row.
pub fn pad_to_blocks<T: Copy>(
    data: &[T],
    width: u32,
    height: u32,
    blocks_x: u32,
    blocks_y: u32,
) -> (r: Vec<T>)
    requires
        blocks_x >= 1 && blocks_y >= 1 ==> width >= 1 && height >= 1,
        data@.len() >= width * height,
        width * height <= u32::MAX,
        blocks_x * 8 <= u32::MAX,
        blocks_y * 8 <= u32::MAX,
        blocks_x * 8 * (blocks_y * 8) <= u32::MAX,
    ensures
        r@.len() == blocks_x * 8 * (blocks_y * 8),
        forall|y: int, x: int|
            0 <= y < blocks_y * 8 && 0 <= x < blocks_x * 8 ==> #[trigger] r@[y * (blocks_x * 8)
                + x] == data@[edge_index(width as int, height as int, x, y)],
{
    let pw = blocks_x * 8;
    let ph = blocks_y * 8;
    let mut padded: Vec<T> = Vec::new();
    if pw == 0 || ph == 0 {
        assert(pw * ph == 0) by (nonlinear_arith)
            requires
                pw == 0 || ph == 0,
        ;
        return padded;
    }
    let mut y: u32 = 0;
    while y < ph
        invariant
            width >= 1,
            height >= 1,
            data@.len() >= width * height,
            width * height <= u32::MAX,
            pw == blocks_x * 8,
            ph == blocks_y * 8,
            pw * ph <= u32::MAX,
            y <= ph,
            padded@.len() == y * pw,
            forall|yy: int, x: int|
                0 <= yy < y && 0 <= x < pw ==> #[trigger] padded@[yy * pw + x] == data@[edge_index(
                    width as int,
                    height as int,
                    x,
                    yy,
                )],
        decreases ph - y,
    {
        let mut x: u32 = 0;
        let sy = if y < height - 1 {
            y
        } else {
            height - 1
        };
        while x < pw
            invariant
                width >= 1,
                height >= 1,
                data@.len() >= width * height,
                width * height <= u32::MAX,
                pw == blocks_x * 8,
                ph == blocks_y * 8,
                pw * ph <= u32::MAX,
                y < ph,
                sy < height,
                sy == (if y < height - 1 { y as int } else { height - 1 }),
                x <= pw,
                padded@.len() == y * pw + x,
                forall|yy: int, xx: int|
                    0 <= yy < y && 0 <= xx < pw ==> #[trigger] padded@[yy * pw + xx]
                        == data@[edge_index(width as int, height as int, xx, yy)],
                forall|xx: int|
                    0 <= xx < x ==> #[trigger] padded@[y * pw + xx] == data@[edge_index(
                        width as int,
                        height as int,
                        xx,
                        y as int,
                    )],
            decreases pw - x,
        {
            let sx = if x < width - 1 {
                x
            } else {
                width - 1
            };
            proof {
                assert(sy * width + sx < width * height) by (nonlinear_arith)
                    requires
                        sy < height,
                        sx < width,
                ;
                assert(y * pw + x < pw * ph) by (nonlinear_arith)
                    requires
                        y < ph,
                        x < pw,
                ;
            }
            let v = data[(sy * width + sx) as usize];
            let ghost before = padded@;
            padded.push(v);
            proof {
                assert forall|yy: int, xx: int|
                    0 <= yy < y && 0 <= xx < pw implies #[trigger] padded@[yy * pw + xx]
                        == data@[edge_index(width as int, height as int, xx, yy)] by {
                    assert(yy * pw + xx < y * pw) by (nonlinear_arith)
                        requires
                            yy < y,
                            xx < pw,
                    ;
                    assert(padded@[yy * pw + xx] == before[yy * pw + xx]);
                }
            }
            x = x + 1;
        }
        proof {
            assert((y + 1) * pw == y * pw + pw) by (nonlinear_arith);
        }
        y = y + 1;
    }
    proof {
        assert(y * pw == blocks_x * 8 * (blocks_y * 8)) by (nonlinear_arith)
            requires
                y == ph,
                pw == blocks_x * 8,
                ph == blocks_y * 8,
        ;
    }
    padded
}

/// Law: padding keeps every sample of the plane at its place.
pub proof fn law_padding_keeps_samples(width: int, height: int, x: int, y: int)
    requires
        0 <= x < width,
        0 <= y < height,
    ensures
        edge_index(width, height, x, y) == y * width + x,
{
}

/// Whether one dispatch of a `blocks_x` x `blocks_y` block plane (64 four-byte values
/// per block, in and out) stays within 90% of the buffer limit.
pub open spec fn fits_one_dispatch(blocks_x: nat, blocks_y: nat, max_buffer: nat) -> bool {
    blocks_x * blocks_y * 256 <= max_buffer * 9 / 10
}

/// The block rows per dispatch when the plane is split: as many as fit in 90% of the
/// limit, at least one.
pub open spec fn rows_per_chunk(blocks_x: nat, max_buffer: nat) -> nat {
    let q = (max_buffer * 9 / 10) / (blocks_x * 256);
    if q < 1 {
        1
    } else {
        q
    }
}

/// The dispatches of the DCT stage as (first block row, block rows): the whole plane at
/// once when it fits, otherwise consecutive bands of `rows_per_chunk` rows (the last
/// one shorter).
pub fn plan_dct_chunks(blocks_x: u32, blocks_y: u32, max_buffer: u32) -> (r: Vec<(u32, u32)>)
    requires
        blocks_x * blocks_y * 256 <= u64::MAX,
    ensures
        fits_one_dispatch(blocks_x as nat, blocks_y as nat, max_buffer as nat) ==> r@ == seq![
            (0u32, blocks_y),
        ],
        !fits_one_dispatch(blocks_x as nat, blocks_y as nat, max_buffer as nat) ==> {
            let m = rows_per_chunk(blocks_x as nat, max_buffer as nat);
            &&& blocks_x > 0
            &&& forall|k: int|
                0 <= k < r@.len() ==> (#[trigger] r@[k]).0 == k * m && r@[k].1 == (if k * m + m
                    <= blocks_y { m as int } else { blocks_y - k * m })
            &&& r@.len() * m >= blocks_y
            &&& (r@.len() - 1) * m < blocks_y
        },
{
    proof {
        assert((blocks_x as u64) * (blocks_y as u64) <= blocks_x * blocks_y * 256) by (nonlinear_arith)
            requires
                blocks_x >= 0,
                blocks_y >= 0,
        ;
    }
    let total_blocks = (blocks_x as u64) * (blocks_y as u64);
    let input_bytes = total_blocks * 64 * 4;
    let safe_limit = (max_buffer as u64) * 9 / 10;
    let mut plan: Vec<(u32, u32)> = Vec::new();
    if input_bytes <= safe_limit {
        plan.push((0, blocks_y));
        proof {
            assert(plan@ =~= seq![(0u32, blocks_y)]);
        }
        return plan;
    }
    let bytes_per_row = (blocks_x as u64) * 64 * 4;
    proof {
        assert(input_bytes == blocks_x * blocks_y * 256) by (nonlinear_arith)
            requires
                input_bytes == total_blocks * 64 * 4,
                total_blocks == blocks_x * blocks_y,
        ;
        assert(!fits_one_dispatch(blocks_x as nat, blocks_y as nat, max_buffer as nat));
        assert(blocks_x > 0 && blocks_y > 0) by (nonlinear_arith)
            requires
                blocks_x * blocks_y * 256 > 0,
                blocks_x >= 0,
                blocks_y >= 0,
        ;
    }
    let per = safe_limit / bytes_per_row;
    let max_rows: u32 = if per < 1 {
        1
    } else {
        per as u32
    };
    let ghost m = rows_per_chunk(blocks_x as nat, max_buffer as nat);
    let mut row_offset: u32 = 0;
    let mut k: usize = 0;
    while row_offset < blocks_y
        invariant
            max_rows == m,
            m >= 1,
            plan@.len() == k,
            row_offset == k * m || row_offset == blocks_y,
            row_offset <= blocks_y,
            row_offset < blocks_y ==> row_offset == k * m,
            k * m >= row_offset,
            k <= row_offset,
            k > 0 ==> (k - 1) * m < blocks_y,
            forall|j: int|
                0 <= j < k ==> (#[trigger] plan@[j]).0 == j * m && plan@[j].1 == (if j * m + m
                    <= blocks_y { m as int } else { blocks_y - j * m }),
        decreases blocks_y - row_offset,
    {
        let left = blocks_y - row_offset;
        let chunk_rows = if max_rows < left {
            max_rows
        } else {
            left
        };
        plan.push((row_offset, chunk_rows));
        proof {
            assert((k + 1) * m == k * m + m) by (nonlinear_arith);
        }
        row_offset = row_offset + chunk_rows;
        k = k + 1;
    }
    proof {
        assert(k > 0);
        assert(blocks_x > 0);
    }
    plan
}

} // verus!
