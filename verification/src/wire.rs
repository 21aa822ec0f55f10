//! Wire labels of a garbled circuit over bits, and the garbling of one AND
//! gate by the half-gates construction.
//!
//! A wire carries one of two labels: its zero label, or the zero label
//! with the session's offset `delta` added. Adding is the exclusive or of
//! 128-bit blocks. The lowest bit of a label is its colour; the lowest bit
//! of `delta` is set, so that the two labels of a wire differ in colour.

use vstd::prelude::*;

verus! {

/// The bytes of a block, the least significant first.
pub open spec fn block_bytes(block: u128) -> Seq<u8> {
    Seq::new(16, |i: int| ((block >> ((8 * i) as u128)) & 0xff) as u8)
}

/// The bytes of a block, the least significant first.
pub fn block_to_bytes(block: u128) -> (r: [u8; 16])
    ensures
        r@ == block_bytes(block),
{
    let mut r: [u8; 16] = [0u8; 16];
    let mut i: usize = 0;
    while i < 16
        invariant
            i <= 16,
            forall|j: int| 0 <= j < i ==> r[j] == ((block >> ((8 * j) as u128)) & 0xff) as u8,
        decreases 16 - i,
    {
        let shift: u128 = (8 * i) as u128;
        let byte: u128 = (block >> shift) & 0xff;
        assert(byte < 256) by (bit_vector)
            requires
                byte == (block >> shift) & 0xff,
        ;
        r[i] = byte as u8;
        i += 1;
    }
    assert(r@ =~= block_bytes(block));
    r
}

/// The label of a wire that carries a bit.
#[derive(Clone, Copy, Debug, PartialEq, Eq, Structural)]
pub struct WireMod2 {
    pub val: u128,
}

/// The block `delta` if `bit` is set, and the zero block if not.
pub open spec fn times(bit: bool, delta: u128) -> u128 {
    if bit {
        delta
    } else {
        0
    }
}

/// The colour of a block: its lowest bit.
pub open spec fn colour(block: u128) -> bool {
    block & 1 == 1
}

impl WireMod2 {
    /// The label with the given block.
    pub fn from_block(val: u128) -> (r: WireMod2)
        ensures
            r.val == val,
    {
        WireMod2 { val }
    }

    /// The block of the label.
    pub fn as_block(&self) -> (r: u128)
        ensures
            r == self.val,
    {
        self.val
    }

    /// The label of all zeros.
    pub fn zero() -> (r: WireMod2)
        ensures
            r.val == 0,
    {
        WireMod2 { val: 0 }
    }

    /// The sum of two labels.
    pub fn plus(&self, other: &WireMod2) -> (r: WireMod2)
        ensures
            r.val == self.val ^ other.val,
    {
        WireMod2 { val: self.val ^ other.val }
    }

    /// The label times a constant: the label itself for an odd constant,
    /// the zero label for an even one.
    pub fn cmul(&self, c: u16) -> (r: WireMod2)
        ensures
            r.val == times(c % 2 == 1, self.val),
    {
        if c % 2 == 1 {
            *self
        } else {
            WireMod2 { val: 0 }
        }
    }

    /// The negative of a label, which over bits is the label itself.
    pub fn negate(&self) -> (r: WireMod2)
        ensures
            r == *self,
    {
        *self
    }

    /// The colour of the label, as a number.
    pub fn color(&self) -> (r: u16)
        ensures
            r == if colour(self.val) {
                1u16
            } else {
                0u16
            },
    {
        if self.val & 1 == 1 {
            1
        } else {
            0
        }
    }
}

/// A label to be hashed under a tweak.
#[derive(Clone, Copy, Debug, PartialEq, Eq, Structural)]
pub struct HashQuery {
    pub label: u128,
    pub tweak: u128,
}

/// The tweak under which gate number `i` hashes in its part `j`.
pub open spec fn tweak2_spec(i: u64, j: u64) -> u128 {
    (i as u128 * 0x1_0000_0000_0000_0000u128 + j as u128) as u128
}

/// The tweak under which gate number `i` hashes in its part `j`.
pub fn tweak2(i: u64, j: u64) -> (r: u128)
    ensures
        r == tweak2_spec(i, j),
{
    let high: u128 = i as u128;
    let low: u128 = j as u128;
    assert(high * 0x1_0000_0000_0000_0000u128 + low <= u128::MAX) by {
        assert(high <= 0xffff_ffff_ffff_ffffu128);
        assert(low <= 0xffff_ffff_ffff_ffffu128);
        assert(high * 0x1_0000_0000_0000_0000u128 <= 0xffff_ffff_ffff_ffffu128
            * 0x1_0000_0000_0000_0000u128) by (nonlinear_arith)
            requires
                high <= 0xffff_ffff_ffff_ffffu128,
        ;
    }
    high * 0x1_0000_0000_0000_0000u128 + low
}

/// The tweak under which output number `i` hashes its label for the bit
/// `k`.
pub open spec fn output_tweak_spec(i: u64, k: u16) -> u128 {
    tweak2_spec(i, k as u64)
}

/// The tweak under which output number `i` hashes its label for the bit
/// `k`.
pub fn output_tweak(i: u64, k: u16) -> (r: u128)
    ensures
        r == output_tweak_spec(i, k),
{
    tweak2(i, k as u64)
}

/// The four labels that garbling AND gate number `gate_num` hashes: both
/// labels of the first wire, then both labels of the second.
pub open spec fn and_queries_spec(gate_num: u64, a: u128, b: u128, delta: u128) -> Seq<HashQuery> {
    let tweak = tweak2_spec(gate_num, 0);
    seq![
        HashQuery { label: a, tweak: tweak },
        HashQuery { label: a ^ delta, tweak: tweak },
        HashQuery { label: b, tweak: tweak },
        HashQuery { label: b ^ delta, tweak: tweak },
    ]
}

/// The first block of a garbled AND gate: the two hashes of the first
/// wire, and `delta` if the second wire's zero label has colour one.
pub open spec fn and_gate0(b: u128, delta: u128, h: Seq<u128>) -> u128 {
    h[0] ^ h[1] ^ times(colour(b), delta)
}

/// The second block of a garbled AND gate: the two hashes of the second
/// wire, and the zero label of the first.
pub open spec fn and_gate1(a: u128, h: Seq<u128>) -> u128 {
    h[2] ^ h[3] ^ a
}

/// The zero label of the output wire of a garbled AND gate.
pub open spec fn and_output(a: u128, b: u128, delta: u128, h: Seq<u128>) -> u128 {
    h[0] ^ times(colour(a), and_gate0(b, delta, h)) ^ h[2] ^ times(
        colour(b),
        and_gate1(a, h) ^ a,
    )
}

/// The label that the two blocks of a garbled AND gate open for the holder
/// of one label of each input wire and of the hashes of these two.
pub open spec fn and_evaluated(
    label_a: u128,
    label_b: u128,
    gate0: u128,
    gate1: u128,
    hash_a: u128,
    hash_b: u128,
) -> u128 {
    hash_a ^ times(colour(label_a), gate0) ^ hash_b ^ times(colour(label_b), gate1) ^ times(
        colour(label_b),
        label_a,
    )
}

/// The labels that garbling AND gate number `gate_num` of the wires with
/// zero labels `a` and `b` hashes.
pub fn and_queries(gate_num: u64, a: &WireMod2, b: &WireMod2, delta: &WireMod2) -> (r: [HashQuery;
    4])
    ensures
        r@ == and_queries_spec(gate_num, a.val, b.val, delta.val),
{
    let tweak = tweak2(gate_num, 0);
    let r = [
        HashQuery { label: a.val, tweak },
        HashQuery { label: a.val ^ delta.val, tweak },
        HashQuery { label: b.val, tweak },
        HashQuery { label: b.val ^ delta.val, tweak },
    ];
    assert(r@ =~= and_queries_spec(gate_num, a.val, b.val, delta.val));
    r
}

/// Garbles an AND gate of the wires with zero labels `a` and `b`, given the
/// hashes of the four labels that [`and_queries`] names. Gives the two
/// blocks of this AND gate and the zero label of its output wire.
pub fn garble_and_gate(a: &WireMod2, b: &WireMod2, delta: &WireMod2, hashes: &[u128; 4]) -> (r: (
    u128,
    u128,
    WireMod2,
))
    ensures
        r.0 == and_gate0(b.val, delta.val, hashes@),
        r.1 == and_gate1(a.val, hashes@),
        r.2.val == and_output(a.val, b.val, delta.val, hashes@),
{
    let select_b: u128 = if b.val & 1 == 1 {
        delta.val
    } else {
        0
    };
    let gate0: u128 = hashes[0] ^ hashes[1] ^ select_b;
    let gate1: u128 = hashes[2] ^ hashes[3] ^ a.val;
    let left: u128 = if a.val & 1 == 1 {
        gate0
    } else {
        0
    };
    let right: u128 = if b.val & 1 == 1 {
        gate1 ^ a.val
    } else {
        0
    };
    (gate0, gate1, WireMod2 { val: hashes[0] ^ left ^ hashes[2] ^ right })
}

/// Adding is free: the sum of the labels of the bits `x` and `y` on two
/// wires is the label of the bit `x != y` on the wire whose zero label is
/// the sum of their zero labels.
pub proof fn lemma_xor_gate_correct(a: u128, b: u128, delta: u128, x: bool, y: bool)
    ensures
        (a ^ times(x, delta)) ^ (b ^ times(y, delta)) == (a ^ b) ^ times(x != y, delta),
{
    let tx: u128 = times(x, delta);
    let ty: u128 = times(y, delta);
    let txy: u128 = times(x != y, delta);
    assert((a ^ tx) ^ (b ^ ty) == (a ^ b) ^ txy) by (bit_vector)
        requires
            tx == (if x { delta } else { 0 }),
            ty == (if y { delta } else { 0 }),
            txy == (if x != y { delta } else { 0 }),
    ;
}

/// Negating is free: the label of the bit `x` on a wire is the label of the
/// bit `!x` on the wire whose zero label has `delta` added.
pub proof fn lemma_negate_correct(a: u128, delta: u128, x: bool)
    ensures
        a ^ times(x, delta) == (delta ^ a) ^ times(!x, delta),
{
    let tx: u128 = times(x, delta);
    let tn: u128 = times(!x, delta);
    assert(a ^ tx == (delta ^ a) ^ tn) by (bit_vector)
        requires
            tx == (if x { delta } else { 0 }),
            tn == (if !x { delta } else { 0 }),
    ;
}

/// Byte `i` of a block, as a number.
pub proof fn lemma_byte_at(block: u128, i: int)
    requires
        0 <= i < 16,
    ensures
        block_bytes(block)[i] as u128 == (block >> ((8 * i) as u128)) & 0xff,
{
    let shift = (8 * i) as u128;
    assert((block >> shift) & 0xff < 256) by (bit_vector);
}

/// A block is told by its bytes.
pub proof fn lemma_block_bytes_injective(a: u128, b: u128)
    requires
        block_bytes(a) == block_bytes(b),
    ensures
        a == b,
{
    lemma_byte_at(a, 0);
    lemma_byte_at(b, 0);
    assert((a >> 0u128) & 0xff == (b >> 0u128) & 0xff);
    lemma_byte_at(a, 1);
    lemma_byte_at(b, 1);
    assert((a >> 8u128) & 0xff == (b >> 8u128) & 0xff);
    lemma_byte_at(a, 2);
    lemma_byte_at(b, 2);
    assert((a >> 16u128) & 0xff == (b >> 16u128) & 0xff);
    lemma_byte_at(a, 3);
    lemma_byte_at(b, 3);
    assert((a >> 24u128) & 0xff == (b >> 24u128) & 0xff);
    lemma_byte_at(a, 4);
    lemma_byte_at(b, 4);
    assert((a >> 32u128) & 0xff == (b >> 32u128) & 0xff);
    lemma_byte_at(a, 5);
    lemma_byte_at(b, 5);
    assert((a >> 40u128) & 0xff == (b >> 40u128) & 0xff);
    lemma_byte_at(a, 6);
    lemma_byte_at(b, 6);
    assert((a >> 48u128) & 0xff == (b >> 48u128) & 0xff);
    lemma_byte_at(a, 7);
    lemma_byte_at(b, 7);
    assert((a >> 56u128) & 0xff == (b >> 56u128) & 0xff);
    lemma_byte_at(a, 8);
    lemma_byte_at(b, 8);
    assert((a >> 64u128) & 0xff == (b >> 64u128) & 0xff);
    lemma_byte_at(a, 9);
    lemma_byte_at(b, 9);
    assert((a >> 72u128) & 0xff == (b >> 72u128) & 0xff);
    lemma_byte_at(a, 10);
    lemma_byte_at(b, 10);
    assert((a >> 80u128) & 0xff == (b >> 80u128) & 0xff);
    lemma_byte_at(a, 11);
    lemma_byte_at(b, 11);
    assert((a >> 88u128) & 0xff == (b >> 88u128) & 0xff);
    lemma_byte_at(a, 12);
    lemma_byte_at(b, 12);
    assert((a >> 96u128) & 0xff == (b >> 96u128) & 0xff);
    lemma_byte_at(a, 13);
    lemma_byte_at(b, 13);
    assert((a >> 104u128) & 0xff == (b >> 104u128) & 0xff);
    lemma_byte_at(a, 14);
    lemma_byte_at(b, 14);
    assert((a >> 112u128) & 0xff == (b >> 112u128) & 0xff);
    lemma_byte_at(a, 15);
    lemma_byte_at(b, 15);
    assert((a >> 120u128) & 0xff == (b >> 120u128) & 0xff);
    assert(a == b) by (bit_vector)
        requires
            (a >> 0u128) & 0xff == (b >> 0u128) & 0xff,
            (a >> 8u128) & 0xff == (b >> 8u128) & 0xff,
            (a >> 16u128) & 0xff == (b >> 16u128) & 0xff,
            (a >> 24u128) & 0xff == (b >> 24u128) & 0xff,
            (a >> 32u128) & 0xff == (b >> 32u128) & 0xff,
            (a >> 40u128) & 0xff == (b >> 40u128) & 0xff,
            (a >> 48u128) & 0xff == (b >> 48u128) & 0xff,
            (a >> 56u128) & 0xff == (b >> 56u128) & 0xff,
            (a >> 64u128) & 0xff == (b >> 64u128) & 0xff,
            (a >> 72u128) & 0xff == (b >> 72u128) & 0xff,
            (a >> 80u128) & 0xff == (b >> 80u128) & 0xff,
            (a >> 88u128) & 0xff == (b >> 88u128) & 0xff,
            (a >> 96u128) & 0xff == (b >> 96u128) & 0xff,
            (a >> 104u128) & 0xff == (b >> 104u128) & 0xff,
            (a >> 112u128) & 0xff == (b >> 112u128) & 0xff,
            (a >> 120u128) & 0xff == (b >> 120u128) & 0xff,
    ;
}

/// The two labels of a wire differ, and so do their bytes, unless `delta`
/// is zero.
pub proof fn lemma_labels_differ(zero: u128, delta: u128)
    requires
        delta != 0,
    ensures
        block_bytes(zero) != block_bytes(zero ^ delta),
{
    let one = zero ^ delta;
    if block_bytes(zero) == block_bytes(one) {
        lemma_block_bytes_injective(zero, one);
        assert(false) by (bit_vector)
            requires
                delta != 0,
                zero == zero ^ delta,
        ;
    }
}

/// Garbling is correct: whatever the hash function, whoever holds the
/// labels of the bits `x` and `y` on the input wires opens, from the two
/// blocks of an AND gate, the label of the bit `x && y` on the output wire.
pub proof fn lemma_and_gate_correct(
    hash: spec_fn(HashQuery) -> u128,
    gate_num: u64,
    a: u128,
    b: u128,
    delta: u128,
    x: bool,
    y: bool,
)
    requires
        colour(delta),
    ensures
        ({
            let queries = and_queries_spec(gate_num, a, b, delta);
            let h = Seq::new(4, |i: int| hash(queries[i]));
            let tweak = tweak2_spec(gate_num, 0);
            let label_a = a ^ times(x, delta);
            let label_b = b ^ times(y, delta);
            and_evaluated(
                label_a,
                label_b,
                and_gate0(b, delta, h),
                and_gate1(a, h),
                hash(HashQuery { label: label_a, tweak: tweak }),
                hash(HashQuery { label: label_b, tweak: tweak }),
            ) == and_output(a, b, delta, h) ^ times(x && y, delta)
        }),
{
    let queries = and_queries_spec(gate_num, a, b, delta);
    let h = Seq::new(4, |i: int| hash(queries[i]));
    let h0 = h[0];
    let h1 = h[1];
    let h2 = h[2];
    let h3 = h[3];
    let pa = colour(a);
    let pb = colour(b);
    assert(colour(a ^ delta) == !pa) by (bit_vector)
        requires
            delta & 1 == 1,
            pa == (a & 1 == 1),
    ;
    assert(colour(b ^ delta) == !pb) by (bit_vector)
        requires
            delta & 1 == 1,
            pb == (b & 1 == 1),
    ;
    assert(a ^ 0 == a && b ^ 0 == b) by (bit_vector);
    let g0 = and_gate0(b, delta, h);
    let g1 = and_gate1(a, h);
    let out = and_output(a, b, delta, h);
    let sb: u128 = times(pb, delta);
    let ha = if x { h1 } else { h0 };
    let hb = if y { h3 } else { h2 };
    let la = a ^ times(x, delta);
    let lb = b ^ times(y, delta);
    let ca = colour(la);
    let cb = colour(lb);
    let ta: u128 = times(x, delta);
    let tb: u128 = times(y, delta);
    let e0: u128 = times(ca, g0);
    let e1: u128 = times(cb, g1);
    let e2: u128 = times(cb, la);
    let o0: u128 = times(pa, g0);
    let o1: u128 = times(pb, g1 ^ a);
    let want: u128 = times(x && y, delta);
    if !x && !y {
        assert(ha ^ e0 ^ hb ^ e1 ^ e2 == (h0 ^ o0 ^ h2 ^ o1) ^ want) by (bit_vector)
            requires
                g0 == h0 ^ h1 ^ sb,
                g1 == h2 ^ h3 ^ a,
                sb == (if pb { delta } else { 0 }),
                ha == h0,
                hb == h2,
                la == a ^ ta,
                ta == 0,
                ca == pa,
                cb == pb,
                e0 == (if ca { g0 } else { 0 }),
                e1 == (if cb { g1 } else { 0 }),
                e2 == (if cb { la } else { 0 }),
                o0 == (if pa { g0 } else { 0 }),
                o1 == (if pb { g1 ^ a } else { 0 }),
                want == 0,
        ;
    }     else if !x && y {
        assert(ha ^ e0 ^ hb ^ e1 ^ e2 == (h0 ^ o0 ^ h2 ^ o1) ^ want) by (bit_vector)
            requires
                g0 == h0 ^ h1 ^ sb,
                g1 == h2 ^ h3 ^ a,
                sb == (if pb { delta } else { 0 }),
                ha == h0,
                hb == h3,
                la == a ^ ta,
                ta == 0,
                ca == pa,
                cb == !pb,
                e0 == (if ca { g0 } else { 0 }),
                e1 == (if cb { g1 } else { 0 }),
                e2 == (if cb { la } else { 0 }),
                o0 == (if pa { g0 } else { 0 }),
                o1 == (if pb { g1 ^ a } else { 0 }),
                want == 0,
        ;
    }     else if x && !y {
        assert(ha ^ e0 ^ hb ^ e1 ^ e2 == (h0 ^ o0 ^ h2 ^ o1) ^ want) by (bit_vector)
            requires
                g0 == h0 ^ h1 ^ sb,
                g1 == h2 ^ h3 ^ a,
                sb == (if pb { delta } else { 0 }),
                ha == h1,
                hb == h2,
                la == a ^ ta,
                ta == delta,
                ca == !pa,
                cb == pb,
                e0 == (if ca { g0 } else { 0 }),
                e1 == (if cb { g1 } else { 0 }),
                e2 == (if cb { la } else { 0 }),
                o0 == (if pa { g0 } else { 0 }),
                o1 == (if pb { g1 ^ a } else { 0 }),
                want == 0,
        ;
    }     else if x && y {
        assert(ha ^ e0 ^ hb ^ e1 ^ e2 == (h0 ^ o0 ^ h2 ^ o1) ^ want) by (bit_vector)
            requires
                g0 == h0 ^ h1 ^ sb,
                g1 == h2 ^ h3 ^ a,
                sb == (if pb { delta } else { 0 }),
                ha == h1,
                hb == h3,
                la == a ^ ta,
                ta == delta,
                ca == !pa,
                cb == !pb,
                e0 == (if ca { g0 } else { 0 }),
                e1 == (if cb { g1 } else { 0 }),
                e2 == (if cb { la } else { 0 }),
                o0 == (if pa { g0 } else { 0 }),
                o1 == (if pb { g1 ^ a } else { 0 }),
                want == delta,
        ;
    } 
}

} // verus!
