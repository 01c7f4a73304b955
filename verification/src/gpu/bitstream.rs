//! Bit strings, byte packing and JPEG byte stuffing, with the writer that the
//! entropy coder appends Huffman codes to.
use vstd::arithmetic::div_mod::*;
use vstd::arithmetic::power2::*;
use vstd::bits::*;
use vstd::prelude::*;

verus! {

/// The low `n` bits of `v`, most significant first.
pub open spec fn bits_of(v: nat, n: nat) -> Seq<bool>
    decreases n,
{
    if n == 0 {
        Seq::empty()
    } else {
        bits_of(v / 2, (n - 1) as nat).push(v % 2 == 1)
    }
}

/// The number that a bit string spells, most significant bit first.
pub open spec fn bits_value(s: Seq<bool>) -> nat
    decreases s.len(),
{
    if s.len() == 0 {
        0
    } else {
        2 * bits_value(s.drop_last()) + (if s.last() {
            1nat
        } else {
            0nat
        })
    }
}

/// `n` zero bits.
pub open spec fn zeros(n: nat) -> Seq<bool> {
    Seq::new(n, |i: int| false)
}

/// The number of zero bits that complete a bit string of length `len` to whole bytes.
pub open spec fn pad_len(len: nat) -> nat {
    if len % 8 == 0 {
        0
    } else {
        (8 - len % 8) as nat
    }
}

/// The whole bytes of a bit string, eight bits each, most significant bit first;
/// a trailing partial group is not a byte yet.
pub open spec fn pack(bits: Seq<bool>) -> Seq<u8> {
    Seq::new(bits.len() / 8, |i: int| bits_value(bits.subrange(8 * i, 8 * i + 8)) as u8)
}

/// The bits of a byte string, eight per byte, most significant bit first.
pub open spec fn unpack(bytes: Seq<u8>) -> Seq<bool>
    decreases bytes.len(),
{
    if bytes.len() == 0 {
        Seq::empty()
    } else {
        bits_of(bytes[0] as nat, 8) + unpack(bytes.skip(1))
    }
}

/// One entropy-coded byte as it is stored: a 0xFF byte is followed by a stuffed 0x00.
pub open spec fn stuffed_byte(b: u8) -> Seq<u8> {
    if b == 0xFF {
        seq![0xFFu8, 0x00u8]
    } else {
        seq![b]
    }
}

/// Entropy-coded bytes with every 0xFF followed by a stuffed 0x00, so that no marker
/// can appear inside them.
pub open spec fn stuff(s: Seq<u8>) -> Seq<u8>
    decreases s.len(),
{
    if s.len() == 0 {
        Seq::empty()
    } else {
        stuffed_byte(s[0]) + stuff(s.skip(1))
    }
}

/// Removal of stuffed bytes, as a decoder reads entropy-coded data.
pub open spec fn unstuff(s: Seq<u8>) -> Seq<u8>
    decreases s.len(),
{
    if s.len() == 0 {
        Seq::empty()
    } else if s[0] == 0xFF && s.len() >= 2 && s[1] == 0 {
        seq![0xFFu8] + unstuff(s.skip(2))
    } else {
        seq![s[0]] + unstuff(s.skip(1))
    }
}

pub proof fn lemma_bits_of_len(v: nat, n: nat)
    ensures
        bits_of(v, n).len() == n,
    decreases n,
{
    if n > 0 {
        lemma_bits_of_len(v / 2, (n - 1) as nat);
    }
}

/// Placing `a` above the `m` low bits `b` concatenates their bit strings.
pub proof fn lemma_bits_of_concat(a: nat, b: nat, k: nat, m: nat)
    requires
        b < pow2(m),
    ensures
        bits_of(a * pow2(m) + b, k + m) == bits_of(a, k) + bits_of(b, m),
    decreases m,
{
    lemma_pow2_pos(m);
    if m == 0 {
        lemma2_to64();
        assert(b == 0);
        assert(a * pow2(m) + b == a);
        assert(k + m == k);
        assert(bits_of(b, m) == Seq::<bool>::empty());
        assert(bits_of(a, k) + bits_of(b, m) =~= bits_of(a, k));
    } else {
        let p = pow2((m - 1) as nat);
        lemma_pow2_unfold(m);
        lemma_pow2_pos((m - 1) as nat);
        let x = a * pow2(m) + b;
        assert(x / 2 == a * p + b / 2 && x % 2 == b % 2) by (nonlinear_arith)
            requires
                x == a * pow2(m) + b,
                pow2(m) == 2 * p,
                p > 0,
        ;
        assert(b / 2 < p) by (nonlinear_arith)
            requires
                b < pow2(m),
                pow2(m) == 2 * p,
        ;
        lemma_bits_of_concat(a, b / 2, k, (m - 1) as nat);
        let m1 = (m - 1) as nat;
        let km1 = (k + m - 1) as nat;
        assert(km1 == k + m1);
        let lower = bits_of(a * p + b / 2, km1);
        assert(lower == bits_of(a, k) + bits_of(b / 2, m1));
        assert(bits_of(x, k + m) == bits_of(x / 2, km1).push(x % 2 == 1));
        assert(bits_of(x / 2, km1) == lower);
        assert(bits_of(b, m) == bits_of(b / 2, m1).push(b % 2 == 1));
        assert(bits_of(x, k + m) =~= bits_of(a, k) + bits_of(b, m));
    }
}

/// Only the low `n` bits of a number are written.
pub proof fn lemma_bits_of_mod(v: nat, n: nat)
    ensures
        bits_of(v, n) == bits_of(v % pow2(n), n),
{
    lemma_pow2_pos(n);
    lemma_fundamental_div_mod(v as int, pow2(n) as int);
    let q = v / pow2(n);
    let r = v % pow2(n);
    assert(v == q * pow2(n) + r) by (nonlinear_arith)
        requires
            v == pow2(n) * (v / pow2(n)) + v % pow2(n),
            q == v / pow2(n),
            r == v % pow2(n),
    ;
    lemma_bits_of_concat(q, r, 0, n);
    assert(bits_of(q, 0) + bits_of(r, n) =~= bits_of(r, n));
}

/// `n` low bits of zero are `n` zero bits.
pub proof fn lemma_bits_of_zero(n: nat)
    ensures
        bits_of(0, n) == zeros(n),
    decreases n,
{
    if n > 0 {
        lemma_bits_of_zero((n - 1) as nat);
        assert(bits_of(0, n) =~= zeros(n));
    } else {
        assert(bits_of(0, n) =~= zeros(n));
    }
}

/// Reading back the bits of a number gives the number modulo the width.
pub proof fn lemma_bits_value_of(v: nat, n: nat)
    ensures
        bits_value(bits_of(v, n)) == v % pow2(n),
    decreases n,
{
    if n == 0 {
        lemma2_to64();
    } else {
        lemma_bits_value_of(v / 2, (n - 1) as nat);
        let s = bits_of(v, n);
        assert(s.drop_last() == bits_of(v / 2, (n - 1) as nat));
        lemma_pow2_unfold(n);
        lemma_pow2_pos((n - 1) as nat);
        lemma_mod_breakdown(v as int, 2, pow2((n - 1) as nat) as int);
    }
}

/// Writing out the value of a bit string gives the bit string back.
pub proof fn lemma_bits_of_value(s: Seq<bool>)
    ensures
        bits_of(bits_value(s), s.len()) == s,
        bits_value(s) < pow2(s.len()),
    decreases s.len(),
{
    if s.len() == 0 {
        lemma2_to64();
        assert(bits_of(bits_value(s), s.len()) =~= s);
    } else {
        let t = s.drop_last();
        lemma_bits_of_value(t);
        let v = bits_value(s);
        let b: nat = if s.last() {
            1
        } else {
            0
        };
        assert(v / 2 == bits_value(t) && v % 2 == b);
        lemma_pow2_unfold(s.len());
        assert(bits_of(v, s.len()) =~= s);
    }
}

/// Packing distributes over a split at a whole byte.
pub proof fn lemma_pack_append(s: Seq<bool>, t: Seq<bool>)
    requires
        s.len() % 8 == 0,
    ensures
        pack(s + t) == pack(s) + pack(t),
{
    let st = s + t;
    assert(st.len() / 8 == s.len() / 8 + t.len() / 8);
    assert forall|i: int| 0 <= i < pack(st).len() implies #[trigger] pack(st)[i] == (pack(s)
        + pack(t))[i] by {
        if i < s.len() / 8 {
            assert(st.subrange(8 * i, 8 * i + 8) =~= s.subrange(8 * i, 8 * i + 8));
        } else {
            let j = i - s.len() / 8;
            assert(8 * i == s.len() + 8 * j);
            assert(st.subrange(8 * i, 8 * i + 8) =~= t.subrange(8 * j, 8 * j + 8));
        }
    }
    assert(pack(st) =~= pack(s) + pack(t));
}

/// Only whole bytes are packed: dropping the trailing partial group changes nothing.
pub proof fn lemma_pack_whole(s: Seq<bool>)
    ensures
        pack(s) == pack(s.subrange(0, s.len() - s.len() % 8)),
{
    let w = s.subrange(0, s.len() - s.len() % 8);
    assert(w.len() / 8 == s.len() / 8);
    assert forall|i: int| 0 <= i < pack(s).len() implies #[trigger] pack(s)[i] == pack(w)[i] by {
        assert(s.subrange(8 * i, 8 * i + 8) =~= w.subrange(8 * i, 8 * i + 8));
    }
    assert(pack(s) =~= pack(w));
}

/// Eight bits spelling `byte` pack into that byte.
pub proof fn lemma_pack_byte(byte: u8)
    ensures
        pack(bits_of(byte as nat, 8)) == seq![byte],
{
    lemma_bits_of_len(byte as nat, 8);
    lemma_bits_value_of(byte as nat, 8);
    lemma2_to64();
    let b = bits_of(byte as nat, 8);
    assert(b.subrange(0, 8) =~= b);
    assert(pack(b) =~= seq![byte]);
}

/// Stuffing distributes over concatenation.
pub proof fn lemma_stuff_append(a: Seq<u8>, b: Seq<u8>)
    ensures
        stuff(a + b) == stuff(a) + stuff(b),
    decreases a.len(),
{
    if a.len() == 0 {
        assert(a + b =~= b);
        assert(stuff(a) + stuff(b) =~= stuff(b));
    } else {
        lemma_stuff_append(a.skip(1), b);
        assert((a + b).skip(1) =~= a.skip(1) + b);
        assert(stuff(a + b) =~= stuff(a) + stuff(b));
    }
}

/// Stuffing one more byte appends its stored form.
pub proof fn lemma_stuff_push(a: Seq<u8>, x: u8)
    ensures
        stuff(a.push(x)) == stuff(a) + stuffed_byte(x),
{
    lemma_stuff_append(a, seq![x]);
    assert(a.push(x) =~= a + seq![x]);
    assert(seq![x].skip(1) =~= Seq::<u8>::empty());
    assert(stuff(Seq::<u8>::empty()) == Seq::<u8>::empty());
    assert(stuff(seq![x]) == stuffed_byte(seq![x][0]) + stuff(seq![x].skip(1)));
    assert(stuff(seq![x]) =~= stuffed_byte(x));
}

/// Law: a decoder that drops the stuffed bytes gets back exactly the bytes that were
/// stuffed.
pub proof fn law_unstuff_stuff(b: Seq<u8>)
    ensures
        unstuff(stuff(b)) == b,
    decreases b.len(),
{
    if b.len() == 0 {
    } else {
        law_unstuff_stuff(b.skip(1));
        let s = stuff(b);
        if b[0] == 0xFF {
            assert(s.skip(2) =~= stuff(b.skip(1)));
        } else {
            assert(s.skip(1) =~= stuff(b.skip(1)));
        }
        assert(unstuff(s) =~= b);
    }
}

/// Law: in stuffed data every 0xFF byte is followed by a 0x00 byte, so entropy-coded
/// data never contains a marker.
pub proof fn law_stuffed_has_no_marker(b: Seq<u8>)
    ensures
        forall|i: int|
            0 <= i < stuff(b).len() && #[trigger] stuff(b)[i] == 0xFF ==> i + 1 < stuff(b).len()
                && stuff(b)[i + 1] == 0x00,
    decreases b.len(),
{
    if b.len() > 0 {
        law_stuffed_has_no_marker(b.skip(1));
        let h = stuffed_byte(b[0]);
        let r = stuff(b.skip(1));
        assert(stuff(b) == h + r);
        assert forall|i: int|
            0 <= i < stuff(b).len() && #[trigger] stuff(b)[i] == 0xFF implies i + 1 < stuff(
                b,
            ).len() && stuff(b)[i + 1] == 0x00 by {
            if i >= h.len() {
                assert(stuff(b)[i] == r[i - h.len()]);
                assert(stuff(b)[i + 1] == r[i + 1 - h.len()]);
            }
        }
    }
}

/// Law: unpacking packed whole bytes gives back the bit string.
pub proof fn law_unpack_pack(bits: Seq<bool>)
    requires
        bits.len() % 8 == 0,
    ensures
        unpack(pack(bits)) == bits,
    decreases bits.len(),
{
    if bits.len() == 0 {
        assert(pack(bits) =~= Seq::<u8>::empty());
    } else {
        let h = bits.subrange(0, 8);
        let t = bits.skip(8);
        assert(bits =~= h + t);
        lemma_pack_append(h, t);
        law_unpack_pack(t);
        lemma_bits_of_value(h);
        lemma2_to64();
        let byte = bits_value(h) as u8;
        assert(h.subrange(0, 8) =~= h);
        assert(pack(h) =~= seq![byte]);
        assert(pack(bits).skip(1) =~= pack(t));
        assert(unpack(pack(bits)) =~= bits);
    }
}

/// An append-only bit string that is written out in whole, stuffed bytes.
pub struct BitWriter {
    data: Vec<u8>,
    bit_buf: u32,
    bit_count: u8,
    bits: Ghost<Seq<bool>>,
}

impl BitWriter {
    /// Every bit written so far, padding included.
    pub closed spec fn written(&self) -> Seq<bool> {
        self.bits@
    }

    /// The bytes given out so far.
    pub closed spec fn bytes(&self) -> Seq<u8> {
        self.data@
    }

    /// The writer's invariant: whole bytes are out, stuffed; fewer than eight bits wait.
    pub closed spec fn wf(&self) -> bool {
        let b = self.bits@;
        &&& self.bit_count < 8
        &&& self.bit_count as nat == b.len() % 8
        &&& (self.bit_buf as nat) < pow2(self.bit_count as nat)
        &&& self.data@ == stuff(pack(b))
        &&& b.subrange(b.len() - self.bit_count, b.len() as int) == bits_of(
            self.bit_buf as nat,
            self.bit_count as nat,
        )
    }

    /// A writer with nothing written.
    pub fn new() -> (w: Self)
        ensures
            w.wf(),
            w.written() == Seq::<bool>::empty(),
            w.bytes() == Seq::<u8>::empty(),
    {
        let w = BitWriter {
            data: Vec::new(),
            bit_buf: 0,
            bit_count: 0,
            bits: Ghost(Seq::empty()),
        };
        proof {
            lemma2_to64();
            assert(pack(Seq::<bool>::empty()) =~= Seq::<u8>::empty());
            assert(w.bits@.subrange(0, 0) =~= bits_of(0, 0));
        }
        w
    }

    /// The bytes given out so far (whole bytes only, stuffed).
    pub fn data(&self) -> (r: &Vec<u8>)
        requires
            self.wf(),
        ensures
            r@ == self.bytes(),
            r@ == stuff(pack(self.written())),
    {
        &self.data
    }

    /// Appends the low `nbits` bits of `value`, most significant first.
    pub fn write_bits(&mut self, value: u32, nbits: u8)
        requires
            old(self).wf(),
            nbits <= 24,
        ensures
            final(self).wf(),
            final(self).written() == old(self).written() + bits_of(value as nat, nbits as nat),
    {
        let ghost old_bits = self.bits@;
        let ghost c0 = self.bit_count as nat;
        let ghost buf0 = self.bit_buf as nat;
        let ghost n = nbits as nat;
        proof {
            lemma_u32_pow2_no_overflow(n);
            lemma_u32_shl_is_mul(1u32, nbits as u32);
            lemma_pow2_adds(c0, n);
            lemma_pow2_strictly_increases(c0 + n, 32);
            lemma2_to64();
            lemma2_to64_rest();
        }
        let mask: u32 = (1u32 << nbits) - 1;
        let low = value & mask;
        proof {
            assert(mask == low_bits_mask(n) as u32);
            lemma_u32_low_bits_mask_is_mod(value, n);
            assert(low as nat == value as nat % pow2(n));
            assert(buf0 * pow2(n) < pow2(c0) * pow2(n)) by (nonlinear_arith)
                requires
                    buf0 < pow2(c0),
                    pow2(n) > 0,
            ;
            lemma_u32_shl_is_mul(self.bit_buf, nbits as u32);
            lemma_or_is_add(self.bit_buf, low, nbits as u32);
        }
        let newbuf = (self.bit_buf << nbits) | low;
        proof {
            assert(newbuf as nat == buf0 * pow2(n) + low as nat);
            assert((newbuf as nat) < pow2(c0 + n)) by (nonlinear_arith)
                requires
                    newbuf as nat == buf0 * pow2(n) + low as nat,
                    buf0 + 1 <= pow2(c0),
                    (low as nat) < pow2(n),
                    pow2(c0 + n) == pow2(c0) * pow2(n),
            ;
            lemma_bits_of_mod(value as nat, n);
            lemma_bits_of_concat(buf0, low as nat, c0, n);
            lemma_pack_whole(old_bits);
            lemma_bits_of_len(value as nat, n);
        }
        self.bit_buf = newbuf;
        self.bit_count = self.bit_count + nbits;
        self.bits = Ghost(old_bits + bits_of(value as nat, n));
        let ghost b = self.bits@;
        proof {
            let k = old_bits.len() - c0;
            assert(b.subrange(0, k) =~= old_bits.subrange(0, k));
            assert(b.subrange(k, b.len() as int) =~= old_bits.subrange(k, old_bits.len() as int)
                + bits_of(value as nat, n));
        }
        while self.bit_count >= 8
            invariant
                self.bits@ == b,
                self.bit_count <= 31,
                (b.len() - self.bit_count) % 8 == 0,
                self.bit_count <= b.len(),
                (self.bit_buf as nat) < pow2(self.bit_count as nat),
                self.data@ == stuff(pack(b.subrange(0, b.len() - self.bit_count))),
                b.subrange(b.len() - self.bit_count, b.len() as int) == bits_of(
                    self.bit_buf as nat,
                    self.bit_count as nat,
                ),
            decreases self.bit_count,
        {
            let ghost c = self.bit_count as nat;
            let ghost buf = self.bit_buf as nat;
            let ghost k = b.len() - c;
            self.bit_count = self.bit_count - 8;
            let rest = self.bit_count;
            let ghost r = rest as nat;
            proof {
                lemma_u32_shr_is_div(self.bit_buf, rest as u32);
                lemma_pow2_pos(r);
                lemma_pow2_adds(8, r);
                lemma2_to64();
                assert(buf / pow2(r) < 256) by (nonlinear_arith)
                    requires
                        buf < pow2(c),
                        pow2(c) == 256 * pow2(r),
                        c == 8 + r,
                        pow2(r) > 0,
                ;
            }
            let byte = (self.bit_buf >> rest) as u8;
            proof {
                lemma_u32_pow2_no_overflow(r);
                lemma_u32_shl_is_mul(1u32, rest as u32);
                lemma_u32_low_bits_mask_is_mod(self.bit_buf, r);
            }
            let newbuf = self.bit_buf & ((1u32 << rest) - 1);
            proof {
                assert(((1u32 << rest) - 1) as u32 == low_bits_mask(r) as u32);
                assert(newbuf as nat == buf % pow2(r));
                lemma_fundamental_div_mod(buf as int, pow2(r) as int);
                assert(buf == (buf / pow2(r)) * pow2(r) + buf % pow2(r)) by (nonlinear_arith)
                    requires
                        buf == pow2(r) * (buf / pow2(r)) + buf % pow2(r),
                ;
                lemma_mod_bound(buf as int, pow2(r) as int);
                assert(byte as nat == buf / pow2(r));
                assert(buf == byte as nat * pow2(r) + newbuf as nat);
                lemma_bits_of_concat(byte as nat, newbuf as nat, 8, r);
                lemma_bits_of_len(byte as nat, 8);
                lemma_bits_of_len(newbuf as nat, r);
                assert(c == 8 + r);
                assert(b.subrange(k, b.len() as int) == bits_of(byte as nat, 8) + bits_of(
                    newbuf as nat,
                    r,
                ));
                assert(b.subrange(k, k + 8) =~= bits_of(byte as nat, 8));
                let t = b.subrange(k, b.len() as int);
                assert(t.len() == 8 + r);
                assert(b.subrange(k + 8, b.len() as int) =~= t.subrange(8, t.len() as int));
                assert(t.subrange(8, t.len() as int) =~= bits_of(newbuf as nat, r));
                lemma_pack_append(b.subrange(0, k), b.subrange(k, k + 8));
                assert(b.subrange(0, k + 8) =~= b.subrange(0, k) + b.subrange(k, k + 8));
                lemma_pack_byte(byte);
                lemma_stuff_push(pack(b.subrange(0, k)), byte);
                assert(pack(b.subrange(0, k)) + seq![byte] =~= pack(b.subrange(0, k)).push(byte));
            }
            self.data.push(byte);
            if byte == 0xFF {
                self.data.push(0x00);
            }
            proof {
                assert(self.data@ =~= stuff(pack(b.subrange(0, k + 8))));
            }
            self.bit_buf = newbuf;
        }
        proof {
            lemma_pack_whole(b);
        }
    }

    /// Completes the last byte with zero bits and gives it out.
    pub fn flush(&mut self)
        requires
            old(self).wf(),
        ensures
            final(self).wf(),
            final(self).written() == old(self).written() + zeros(
                pad_len(old(self).written().len()),
            ),
            final(self).written().len() % 8 == 0,
    {
        let ghost old_bits = self.bits@;
        if self.bit_count > 0 {
            let c = self.bit_count;
            let ghost cn = c as nat;
            let ghost buf = self.bit_buf as nat;
            let ghost m = (8 - c) as nat;
            proof {
                lemma_u32_pow2_no_overflow(m);
                lemma_pow2_adds(cn, m);
                lemma2_to64();
                assert(buf * pow2(m) < 256) by (nonlinear_arith)
                    requires
                        buf < pow2(cn),
                        pow2(cn) * pow2(m) == 256,
                        pow2(m) > 0,
                ;
                lemma_u32_shl_is_mul(self.bit_buf, (8 - c) as u32);
            }
            let byte = (self.bit_buf << (8 - c)) as u8;
            proof {
                assert(byte as nat == buf * pow2(m));
                lemma_bits_of_zero(m);
                lemma_pow2_pos(m);
                lemma_bits_of_concat(buf, 0, cn, m);
                let k = old_bits.len() - cn;
                let nb = old_bits + zeros(m);
                assert(nb.subrange(k, nb.len() as int) =~= old_bits.subrange(
                    k,
                    old_bits.len() as int,
                ) + zeros(m));
                assert(nb.subrange(k, nb.len() as int) == bits_of(byte as nat, 8));
                lemma_pack_whole(old_bits);
                assert(nb =~= old_bits.subrange(0, k) + nb.subrange(k, nb.len() as int));
                lemma_pack_append(old_bits.subrange(0, k), nb.subrange(k, nb.len() as int));
                lemma_pack_byte(byte);
                lemma_stuff_push(pack(old_bits.subrange(0, k)), byte);
                assert(pack(old_bits.subrange(0, k)) + seq![byte] =~= pack(
                    old_bits.subrange(0, k),
                ).push(byte));
            }
            self.data.push(byte);
            if byte == 0xFF {
                self.data.push(0x00);
            }
            self.bit_count = 0;
            self.bit_buf = 0;
            self.bits = Ghost(old_bits + zeros(m));
            proof {
                let nb = self.bits@;
                let k = old_bits.len() - cn;
                assert(nb.len() == k + 8);
                assert(nb.len() % 8 == 0);
                assert(nb.subrange(nb.len() as int, nb.len() as int) =~= bits_of(0, 0));
                assert(pack(nb) == pack(old_bits.subrange(0, k)) + seq![byte]);
                assert(self.data@ =~= stuff(pack(nb)));
                lemma2_to64();
                assert(pad_len(old_bits.len()) == m);
            }
        } else {
            proof {
                assert(old_bits + zeros(0) =~= old_bits);
            }
        }
    }
}

/// Writing a number above disjoint low bits: `|` is `+`.
pub proof fn lemma_or_is_add(x: u32, y: u32, n: u32)
    requires
        n < 32,
        y < (1u32 << n),
    ensures
        (x << n) | y == (x << n) + y,
{
    assert((x << n) | y == (x << n) + y) by (bit_vector)
        requires
            n < 32,
            y < (1u32 << n),
    ;
}

/// Law: once flushed, the stored bytes give back every bit written: removing the
/// stuffing and reading eight bits per byte yields the written bit string.
pub proof fn law_writer_roundtrip(w: &BitWriter)
    requires
        w.wf(),
        w.written().len() % 8 == 0,
    ensures
        unpack(unstuff(w.bytes())) == w.written(),
{
    law_unstuff_stuff(pack(w.written()));
    law_unpack_pack(w.written());
}

} // verus!
