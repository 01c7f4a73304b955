//! The standard JPEG Huffman tables (ITU T.81 Annex K), canonical code assignment, and
//! the magnitude category / extra bits of a coefficient.
use vstd::arithmetic::power2::*;
use vstd::prelude::*;

verus! {

/// DC luminance: number of codes of each length 1..=16.
pub const DC_LUMA_BITS: [u8; 16] = [0, 1, 5, 1, 1, 1, 1, 1, 1, 0, 0, 0, 0, 0, 0, 0];

/// DC luminance: symbols in code order.
pub const DC_LUMA_VALS: [u8; 12] = [0, 1, 2, 3, 4, 5, 6, 7, 8, 9, 10, 11];

/// DC chrominance: number of codes of each length 1..=16.
pub const DC_CHROMA_BITS: [u8; 16] = [0, 3, 1, 1, 1, 1, 1, 1, 1, 1, 1, 0, 0, 0, 0, 0];

/// DC chrominance: symbols in code order.
pub const DC_CHROMA_VALS: [u8; 12] = [0, 1, 2, 3, 4, 5, 6, 7, 8, 9, 10, 11];

/// AC luminance: number of codes of each length 1..=16.
pub const AC_LUMA_BITS: [u8; 16] = [0, 2, 1, 3, 3, 2, 4, 3, 5, 5, 4, 4, 0, 0, 1, 125];

/// AC luminance: symbols (run << 4 | category) in code order.
pub const AC_LUMA_VALS: [u8; 162] = [
    0x01, 0x02, 0x03, 0x00, 0x04, 0x11, 0x05, 0x12, 0x21, 0x31, 0x41, 0x06, 0x13, 0x51, 0x61,
    0x07, 0x22, 0x71, 0x14, 0x32, 0x81, 0x91, 0xA1, 0x08, 0x23, 0x42, 0xB1, 0xC1, 0x15, 0x52,
    0xD1, 0xF0, 0x24, 0x33, 0x62, 0x72, 0x82, 0x09, 0x0A, 0x16, 0x17, 0x18, 0x19, 0x1A, 0x25,
    0x26, 0x27, 0x28, 0x29, 0x2A, 0x34, 0x35, 0x36, 0x37, 0x38, 0x39, 0x3A, 0x43, 0x44, 0x45,
    0x46, 0x47, 0x48, 0x49, 0x4A, 0x53, 0x54, 0x55, 0x56, 0x57, 0x58, 0x59, 0x5A, 0x63, 0x64,
    0x65, 0x66, 0x67, 0x68, 0x69, 0x6A, 0x73, 0x74, 0x75, 0x76, 0x77, 0x78, 0x79, 0x7A, 0x83,
    0x84, 0x85, 0x86, 0x87, 0x88, 0x89, 0x8A, 0x92, 0x93, 0x94, 0x95, 0x96, 0x97, 0x98, 0x99,
    0x9A, 0xA2, 0xA3, 0xA4, 0xA5, 0xA6, 0xA7, 0xA8, 0xA9, 0xAA, 0xB2, 0xB3, 0xB4, 0xB5, 0xB6,
    0xB7, 0xB8, 0xB9, 0xBA, 0xC2, 0xC3, 0xC4, 0xC5, 0xC6, 0xC7, 0xC8, 0xC9, 0xCA, 0xD2, 0xD3,
    0xD4, 0xD5, 0xD6, 0xD7, 0xD8, 0xD9, 0xDA, 0xE1, 0xE2, 0xE3, 0xE4, 0xE5, 0xE6, 0xE7, 0xE8,
    0xE9, 0xEA, 0xF1, 0xF2, 0xF3, 0xF4, 0xF5, 0xF6, 0xF7, 0xF8, 0xF9, 0xFA,
];

/// AC chrominance: number of codes of each length 1..=16.
pub const AC_CHROMA_BITS: [u8; 16] = [0, 2, 1, 2, 4, 4, 3, 4, 7, 5, 4, 4, 0, 1, 2, 119];

/// AC chrominance: symbols (run << 4 | category) in code order.
pub const AC_CHROMA_VALS: [u8; 162] = [
    0x00, 0x01, 0x02, 0x03, 0x11, 0x04, 0x05, 0x21, 0x31, 0x06, 0x12, 0x41, 0x51, 0x07, 0x61,
    0x71, 0x13, 0x22, 0x32, 0x81, 0x08, 0x14, 0x42, 0x91, 0xA1, 0xB1, 0xC1, 0x09, 0x23, 0x33,
    0x52, 0xF0, 0x15, 0x62, 0x72, 0xD1, 0x0A, 0x16, 0x24, 0x34, 0xE1, 0x25, 0xF1, 0x17, 0x18,
    0x19, 0x1A, 0x26, 0x27, 0x28, 0x29, 0x2A, 0x35, 0x36, 0x37, 0x38, 0x39, 0x3A, 0x43, 0x44,
    0x45, 0x46, 0x47, 0x48, 0x49, 0x4A, 0x53, 0x54, 0x55, 0x56, 0x57, 0x58, 0x59, 0x5A, 0x63,
    0x64, 0x65, 0x66, 0x67, 0x68, 0x69, 0x6A, 0x73, 0x74, 0x75, 0x76, 0x77, 0x78, 0x79, 0x7A,
    0x82, 0x83, 0x84, 0x85, 0x86, 0x87, 0x88, 0x89, 0x8A, 0x92, 0x93, 0x94, 0x95, 0x96, 0x97,
    0x98, 0x99, 0x9A, 0xA2, 0xA3, 0xA4, 0xA5, 0xA6, 0xA7, 0xA8, 0xA9, 0xAA, 0xB2, 0xB3, 0xB4,
    0xB5, 0xB6, 0xB7, 0xB8, 0xB9, 0xBA, 0xC2, 0xC3, 0xC4, 0xC5, 0xC6, 0xC7, 0xC8, 0xC9, 0xCA,
    0xD2, 0xD3, 0xD4, 0xD5, 0xD6, 0xD7, 0xD8, 0xD9, 0xDA, 0xE2, 0xE3, 0xE4, 0xE5, 0xE6, 0xE7,
    0xE8, 0xE9, 0xEA, 0xF2, 0xF3, 0xF4, 0xF5, 0xF6, 0xF7, 0xF8, 0xF9, 0xFA,
];

/// The number of codes whose length is at most `l` (the first `l` counts summed).
pub open spec fn count_upto(bits: Seq<u8>, l: nat) -> nat
    decreases l,
{
    if l == 0 {
        0
    } else {
        count_upto(bits, (l - 1) as nat) + bits[l - 1] as nat
    }
}

/// The first code of length `i + 1` in canonical order: codes of one length are
/// consecutive, and the first code of the next length is twice the code that follows
/// the last one.
pub open spec fn start_code(bits: Seq<u8>, i: nat) -> nat
    decreases i,
{
    if i == 0 {
        0
    } else {
        2 * (start_code(bits, (i - 1) as nat) + bits[i - 1] as nat)
    }
}

/// The length group (length minus one) of the `k`-th symbol, searching from group `i`.
pub open spec fn group_from(bits: Seq<u8>, k: nat, i: nat) -> nat
    decreases 16 - i,
{
    if i >= 16 {
        16
    } else if k < count_upto(bits, i + 1) {
        i
    } else {
        group_from(bits, k, i + 1)
    }
}

/// The length group (length minus one) of the `k`-th symbol.
pub open spec fn group_of(bits: Seq<u8>, k: nat) -> nat {
    group_from(bits, k, 0)
}

/// The canonical code of the `k`-th symbol.
pub open spec fn canon_code(bits: Seq<u8>, k: nat) -> nat {
    let g = group_of(bits, k);
    (start_code(bits, g) + k - count_upto(bits, g)) as nat
}

/// The canonical code length of the `k`-th symbol.
pub open spec fn canon_len(bits: Seq<u8>, k: nat) -> nat {
    group_of(bits, k) + 1
}

/// The code column of the lookup table after the first `m` symbols were assigned, in
/// order (a symbol listed twice keeps its later code).
pub open spec fn table_codes(bits: Seq<u8>, vals: Seq<u8>, m: nat) -> Seq<u32>
    decreases m,
{
    if m == 0 {
        Seq::new(256, |i: int| 0u32)
    } else {
        table_codes(bits, vals, (m - 1) as nat).update(
            vals[m - 1] as int,
            canon_code(bits, (m - 1) as nat) as u32,
        )
    }
}

/// The length column of the lookup table after the first `m` symbols were assigned.
pub open spec fn table_sizes(bits: Seq<u8>, vals: Seq<u8>, m: nat) -> Seq<u8>
    decreases m,
{
    if m == 0 {
        Seq::new(256, |i: int| 0u8)
    } else {
        table_sizes(bits, vals, (m - 1) as nat).update(
            vals[m - 1] as int,
            canon_len(bits, (m - 1) as nat) as u8,
        )
    }
}

/// A symbol -> (code, length) lookup table.
pub struct HuffTable {
    pub code: Vec<u32>,
    pub size: Vec<u8>,
}

impl HuffTable {
    /// 256 entries each, no code longer than 16 bits.
    pub open spec fn wf(&self) -> bool {
        &&& self.code@.len() == 256
        &&& self.size@.len() == 256
        &&& forall|s: int| 0 <= s < 256 ==> #[trigger] self.size@[s] <= 16
    }

    /// The table is the canonical one of the given counts and symbols.
    pub open spec fn is_table_of(&self, bits: Seq<u8>, vals: Seq<u8>) -> bool {
        &&& self.code@ == table_codes(bits, vals, count_upto(bits, 16))
        &&& self.size@ == table_sizes(bits, vals, count_upto(bits, 16))
    }
}

proof fn lemma_count_upto_mono(bits: Seq<u8>, a: nat, b: nat)
    requires
        a <= b,
    ensures
        count_upto(bits, a) <= count_upto(bits, b),
    decreases b - a,
{
    if a < b {
        lemma_count_upto_mono(bits, a, (b - 1) as nat);
    }
}

/// A symbol whose index lies in group `i` is found there.
proof fn lemma_group_from(bits: Seq<u8>, k: nat, j: nat, i: nat)
    requires
        j <= i < 16,
        count_upto(bits, i) <= k < count_upto(bits, i + 1),
    ensures
        group_from(bits, k, j) == i,
    decreases i - j,
{
    if j < i {
        lemma_count_upto_mono(bits, j + 1, i);
        lemma_group_from(bits, k, j + 1, i);
    }
}

/// A bound on the running code value, so that it fits in 32 bits.
proof fn lemma_start_code_bound(bits: Seq<u8>, i: nat)
    requires
        i <= 16,
    ensures
        start_code(bits, i) + 512 <= pow2(i + 9),
    decreases i,
{
    if i == 0 {
        lemma2_to64();
    } else {
        lemma_start_code_bound(bits, (i - 1) as nat);
        lemma_pow2_unfold(i + 9);
        assert((i - 1) as nat + 9 == (i + 9 - 1) as nat);
    }
}

/// The sizes of an assigned table never exceed 16.
proof fn lemma_table_sizes_bound(bits: Seq<u8>, vals: Seq<u8>, m: nat)
    requires
        m <= vals.len(),
        m <= count_upto(bits, 16),
    ensures
        table_sizes(bits, vals, m).len() == 256,
        table_codes(bits, vals, m).len() == 256,
        forall|s: int| 0 <= s < 256 ==> #[trigger] table_sizes(bits, vals, m)[s] <= 16,
    decreases m,
{
    if m > 0 {
        lemma_table_sizes_bound(bits, vals, (m - 1) as nat);
        let k = (m - 1) as nat;
        assert(group_from(bits, k, 0) < 16) by {
            lemma_group_from_lt(bits, k, 0);
        }
    }
}

proof fn lemma_group_from_lt(bits: Seq<u8>, k: nat, i: nat)
    requires
        i <= 16,
        count_upto(bits, i) <= k < count_upto(bits, 16),
    ensures
        group_from(bits, k, i) < 16,
    decreases 16 - i,
{
    if i < 16 && k >= count_upto(bits, i + 1) {
        lemma_group_from_lt(bits, k, i + 1);
    }
}

impl HuffTable {
    /// Builds the lookup table of the canonical Huffman code with `bits[l]` codes of
    /// length `l + 1`, assigned to `vals` in order.
    pub fn build(bits: &[u8; 16], vals: &[u8]) -> (t: HuffTable)
        requires
            vals@.len() >= count_upto(bits@, 16),
        ensures
            t.wf(),
            t.is_table_of(bits@, vals@),
    {
        let ghost b = bits@;
        let ghost v = vals@;
        let mut code_table: Vec<u32> = Vec::new();
        let mut size_table: Vec<u8> = Vec::new();
        let mut z: usize = 0;
        while z < 256
            invariant
                z <= 256,
                code_table@ == Seq::new(z as nat, |i: int| 0u32),
                size_table@ == Seq::new(z as nat, |i: int| 0u8),
            decreases 256 - z,
        {
            code_table.push(0);
            size_table.push(0);
            z = z + 1;
            assert(code_table@ =~= Seq::new(z as nat, |i: int| 0u32));
            assert(size_table@ =~= Seq::new(z as nat, |i: int| 0u8));
        }
        proof {
            lemma_count_upto_mono(b, 0, 16);
        }
        let mut code: u32 = 0;
        let mut si: usize = 0;
        let mut i: usize = 0;
        while i < 16
            invariant
                b == bits@,
                v == vals@,
                v.len() >= count_upto(b, 16),
                i <= 16,
                si == count_upto(b, i as nat),
                code == start_code(b, i as nat),
                code_table@ == table_codes(b, v, si as nat),
                size_table@ == table_sizes(b, v, si as nat),
            decreases 16 - i,
        {
            let count = bits[i];
            let bit_len: u8 = (i + 1) as u8;
            proof {
                lemma_start_code_bound(b, i as nat);
                lemma_pow2_strictly_increases(i as nat + 9, 25);
                lemma2_to64();
                lemma_count_upto_mono(b, i as nat + 1, 16);
            }
            let mut j: u8 = 0;
            while j < count
                invariant
                    b == bits@,
                    v == vals@,
                    v.len() >= count_upto(b, 16),
                    i < 16,
                    count == b[i as int],
                    bit_len == i + 1,
                    j <= count,
                    count_upto(b, i as nat + 1) <= count_upto(b, 16),
                    si == count_upto(b, i as nat) + j,
                    code == start_code(b, i as nat) + j,
                    start_code(b, i as nat) + 512 <= pow2(i as nat + 9),
                    pow2(i as nat + 9) < pow2(25),
                    pow2(25) == 0x2000000,
                    code_table@ == table_codes(b, v, si as nat),
                    size_table@ == table_sizes(b, v, si as nat),
                decreases count - j,
            {
                let symbol = vals[si] as usize;
                proof {
                    lemma_group_from(b, si as nat, 0, i as nat);
                    lemma_table_sizes_bound(b, v, si as nat);
                }
                code_table.set(symbol, code);
                size_table.set(symbol, bit_len);
                code = code + 1;
                si = si + 1;
                j = j + 1;
            }
            proof {
                lemma_start_code_bound(b, i as nat + 1);
                lemma_pow2_strictly_increases(i as nat + 10, 26);
            }
            code = code << 1;
            proof {
                assert(code == start_code(b, (i + 1) as nat)) by {
                    assert(start_code(b, (i + 1) as nat) == 2 * (start_code(b, i as nat)
                        + b[i as int]));
                    vstd::bits::lemma_u32_shl_is_mul((start_code(b, i as nat) + b[i as int]) as u32, 1u32);
                    assert(pow2(1) == 2);
                }
            }
            i = i + 1;
        }
        proof {
            lemma_table_sizes_bound(b, v, si as nat);
        }
        HuffTable { code: code_table, size: size_table }
    }
}

/// The number of binary digits of `n` (0 for 0).
pub open spec fn bit_length(n: nat) -> nat
    decreases n,
{
    if n == 0 {
        0
    } else {
        1 + bit_length(n / 2)
    }
}

/// |v|
pub open spec fn abs(v: int) -> nat {
    if v < 0 {
        (-v) as nat
    } else {
        v as nat
    }
}

/// The magnitude category of a coefficient: the bit length of its absolute value.
pub open spec fn category(v: int) -> nat {
    bit_length(abs(v))
}

/// The extra bits that follow a category: the value itself when non-negative, its
/// one's complement in `category` bits when negative.
pub open spec fn extra_value(v: int) -> nat {
    if v >= 0 {
        v as nat
    } else {
        (pow2(category(v)) - 1 + v) as nat
    }
}

/// How a decoder reads a value back from its category and extra bits
/// (ITU T.81 F.2.2.1, EXTEND).
pub open spec fn decode_value(cat: nat, extra: nat) -> int {
    if cat == 0 {
        0
    } else if extra >= pow2((cat - 1) as nat) {
        extra as int
    } else {
        extra - pow2(cat) + 1
    }
}

/// A positive number lies between the powers of two around its bit length.
pub proof fn lemma_bit_length_bounds(n: nat)
    ensures
        n < pow2(bit_length(n)),
        n > 0 ==> pow2((bit_length(n) - 1) as nat) <= n,
    decreases n,
{
    lemma2_to64();
    if n > 0 {
        lemma_bit_length_bounds(n / 2);
        lemma_pow2_unfold(bit_length(n));
        if n / 2 > 0 {
            lemma_pow2_unfold((bit_length(n) - 1) as nat);
        }
    }
}

/// A number below `2^k` has at most `k` binary digits.
pub proof fn lemma_bit_length_le(n: nat, k: nat)
    requires
        n < pow2(k),
    ensures
        bit_length(n) <= k,
    decreases n,
{
    lemma2_to64();
    if n > 0 {
        assert(k > 0);
        lemma_pow2_unfold(k);
        lemma_bit_length_le(n / 2, (k - 1) as nat);
    }
}

/// Law: a decoder recovers every coefficient from its category and extra bits, and
/// the extra bits fit in `category` bits.
pub proof fn law_value_roundtrip(v: int)
    ensures
        decode_value(category(v), extra_value(v)) == v,
        extra_value(v) < pow2(category(v)),
{
    lemma_bit_length_bounds(abs(v));
    lemma2_to64();
    let c = category(v);
    if c > 0 {
        lemma_pow2_unfold(c);
    }
}

/// The category of `value` and the extra bits that follow it.
pub fn encode_value(value: i32) -> (r: (u8, u32))
    requires
        value != i32::MIN,
    ensures
        r.0 as nat == category(value as int),
        r.1 as nat == extra_value(value as int),
        r.0 <= 31,
{
    if value == 0 {
        proof {
            lemma2_to64();
        }
        return (0, 0);
    }
    let abs_v: u32 = if value < 0 {
        (-value) as u32
    } else {
        value as u32
    };
    let mut rest: u32 = abs_v;
    let mut cat: u8 = 0;
    proof {
        lemma2_to64();
        lemma_bit_length_le(abs_v as nat, 31);
    }
    while rest > 0
        invariant
            cat as nat + bit_length(rest as nat) == bit_length(abs_v as nat),
            bit_length(abs_v as nat) <= 31,
        decreases rest,
    {
        rest = rest / 2;
        cat = cat + 1;
    }
    proof {
        lemma_bit_length_bounds(abs_v as nat);
        vstd::bits::lemma_u32_pow2_no_overflow(cat as nat);
        vstd::bits::lemma_u32_shl_is_mul(1u32, cat as u32);
    }
    let extra: u32 = if value > 0 {
        value as u32
    } else {
        ((1u32 << cat) - 1) - abs_v
    };
    (cat, extra)
}

} // verus!
