//! How blocks are packed, told from the packing side: which byte each number goes to.
//! What is packed like that is what is read.

use vstd::prelude::*;

use crate::quant;
use crate::quant::{
    Element, GGML_TYPE_BF16, GGML_TYPE_F16, GGML_TYPE_F32, GGML_TYPE_Q4_0, GGML_TYPE_Q4_K,
    GGML_TYPE_Q5_0, GGML_TYPE_Q5_K, GGML_TYPE_Q6_K, GGML_TYPE_Q8_0,
};

verus! {

/// The byte of a signed number.
pub open spec fn signed_byte(v: int) -> int {
    if v < 0 {
        v + 256
    } else {
        v
    }
}

/// Whether a sixteen-bit number stands at `at`, its low byte first.
pub open spec fn holds_half(b: Seq<u8>, at: int, v: u16) -> bool {
    &&& b[at] == v as int % 256
    &&& b[at + 1] == v as int / 256
}

/// Whether numbers from `lo` up to but not including `hi` are `n` of them.
pub open spec fn ranges(v: Seq<int>, n: nat, lo: int, hi: int) -> bool {
    &&& v.len() == n
    &&& forall|i: int| 0 <= i < n ==> lo <= #[trigger] v[i] < hi
}

/// A block of 32 four-bit numbers: a scale, then sixteen bytes of which each holds a
/// number of the first half and one of the second.
pub open spec fn packs_q4_0(b: Seq<u8>, at: int, d: u16, q: Seq<int>) -> bool {
    &&& ranges(q, 32, -8, 8)
    &&& holds_half(b, at, d)
    &&& forall|j: int|
        0 <= j < 16 ==> #[trigger] b[at + 2 + j] == q[j] + 8 + 16 * (q[16 + j] + 8)
}

/// A block of 32 five-bit numbers: a scale, the high bits of all, then sixteen bytes of
/// low halves as in a block of four-bit numbers.
pub open spec fn packs_q5_0(b: Seq<u8>, at: int, d: u16, high: u32, q: Seq<int>) -> bool {
    &&& ranges(q, 32, -16, 16)
    &&& holds_half(b, at, d)
    &&& holds_word(b, at + 2, high)
    &&& forall|k: int| 0 <= k < 32 ==> (#[trigger] (high >> k)) & 1 == (q[k] + 16) / 16
    &&& forall|j: int|
        0 <= j < 16 ==> #[trigger] b[at + 6 + j] == (q[j] + 16) % 16 + 16 * ((q[16 + j] + 16) % 16)
}

/// A block of 32 bytes: a scale, then a signed byte each.
pub open spec fn packs_q8_0(b: Seq<u8>, at: int, d: u16, q: Seq<int>) -> bool {
    &&& ranges(q, 32, -128, 128)
    &&& holds_half(b, at, d)
    &&& forall|j: int| 0 <= j < 32 ==> #[trigger] b[at + 2 + j] == signed_byte(q[j])
}

/// Eight scales and eight leasts of six bits each in twelve bytes: the first four of each
/// in full, the low halves of the last four together, and their high bits above the
/// first four.
pub open spec fn packs_scales(b: Seq<u8>, at: int, scales: Seq<int>, mins: Seq<int>) -> bool {
    &&& ranges(scales, 8, 0, 64)
    &&& ranges(mins, 8, 0, 64)
    &&& forall|j: int|
        #![trigger b[at + j]]
        0 <= j < 4 ==> b[at + j] == scales[j] + 64 * (scales[4 + j] / 16)
    &&& forall|j: int|
        #![trigger b[at + 4 + j]]
        0 <= j < 4 ==> b[at + 4 + j] == mins[j] + 64 * (mins[4 + j] / 16)
    &&& forall|j: int|
        #![trigger b[at + 8 + j]]
        0 <= j < 4 ==> b[at + 8 + j] == scales[4 + j] % 16 + 16 * (mins[4 + j] % 16)
}

/// A block of 256 four-bit numbers: two scales, the packed scales and leasts of eight
/// sub-blocks of 32, then for each two sub-blocks 32 bytes, of which each holds a number
/// of the one and a number of the other.
pub open spec fn packs_q4_k(
    b: Seq<u8>,
    at: int,
    d: u16,
    dmin: u16,
    scales: Seq<int>,
    mins: Seq<int>,
    q: Seq<int>,
) -> bool {
    &&& ranges(q, 256, 0, 16)
    &&& holds_half(b, at, d)
    &&& holds_half(b, at + 2, dmin)
    &&& packs_scales(b, at + 4, scales, mins)
    &&& forall|g: int, l: int|
        0 <= g < 4 && 0 <= l < 32 ==> #[trigger] b[at + 16 + g * 32 + l] == q[g * 64 + l] + 16
            * q[g * 64 + 32 + l]
}

/// The high bits of the numbers at one place of each of eight sub-blocks, the first the
/// lowest.
pub open spec fn high_bits(q: Seq<int>, l: int) -> int {
    q[l] / 16 + 2 * (q[32 + l] / 16) + 4 * (q[64 + l] / 16) + 8 * (q[96 + l] / 16) + 16 * (q[128
        + l] / 16) + 32 * (q[160 + l] / 16) + 64 * (q[192 + l] / 16) + 128 * (q[224 + l] / 16)
}

/// A block of 256 five-bit numbers: as one of four-bit numbers, with 32 bytes of high bits
/// before the low halves.
pub open spec fn packs_q5_k(
    b: Seq<u8>,
    at: int,
    d: u16,
    dmin: u16,
    scales: Seq<int>,
    mins: Seq<int>,
    q: Seq<int>,
) -> bool {
    &&& ranges(q, 256, 0, 32)
    &&& holds_half(b, at, d)
    &&& holds_half(b, at + 2, dmin)
    &&& packs_scales(b, at + 4, scales, mins)
    &&& forall|l: int| 0 <= l < 32 ==> #[trigger] b[at + 16 + l] == high_bits(q, l)
    &&& forall|g: int, l: int|
        0 <= g < 4 && 0 <= l < 32 ==> #[trigger] b[at + 48 + g * 32 + l] == q[g * 64 + l] % 16 + 16
            * (q[g * 64 + 32 + l] % 16)
}

/// A block of 256 six-bit numbers: for each half of 128 elements 64 bytes of low halves,
/// each with one of its first 64 elements and one of its last, then for each half 32 bytes
/// of the high bits of four elements each, then a signed scale for each sixteen elements,
/// and a scale.
pub open spec fn packs_q6_k(b: Seq<u8>, at: int, d: u16, scales: Seq<int>, q: Seq<int>) -> bool {
    &&& ranges(q, 256, -32, 32)
    &&& ranges(scales, 16, -128, 128)
    &&& holds_half(b, at + 208, d)
    &&& forall|h: int, j: int|
        0 <= h < 2 && 0 <= j < 64 ==> #[trigger] b[at + h * 64 + j] == (q[h * 128 + j] + 32) % 16
            + 16 * ((q[h * 128 + 64 + j] + 32) % 16)
    &&& forall|h: int, l: int|
        0 <= h < 2 && 0 <= l < 32 ==> #[trigger] b[at + 128 + h * 32 + l] == (q[h * 128 + l] + 32)
            / 16 + 4 * ((q[h * 128 + 32 + l] + 32) / 16) + 16 * ((q[h * 128 + 64 + l] + 32) / 16)
            + 64 * ((q[h * 128 + 96 + l] + 32) / 16)
    &&& forall|i: int| 0 <= i < 16 ==> #[trigger] b[at + 192 + i] == signed_byte(scales[i])
}

/// The halves of a byte as numbers.
proof fn halves(x: u8)
    ensures
        x & 0x0F == x % 16,
        x >> 4 == x / 16,
        quant::nibble(x, false) == x % 16,
        quant::nibble(x, true) == x / 16,
{
    assert(x & 0x0F == x % 16 && x >> 4 == x / 16) by (bit_vector);
}

/// A byte as a signed number.
proof fn signed(x: u8)
    ensures
        signed_byte((x as i8) as int) == x,
{
    assert((x < 128 ==> (x as i8) as int == x as int) && (x >= 128 ==> (x as i8) as int == x as int
        - 256)) by (bit_vector);
}

/// A sixteen-bit number reads back.
proof fn half_reads_back(b: Seq<u8>, at: int, v: u16)
    requires
        holds_half(b, at, v),
    ensures
        crate::bytes::half_at(b, at) == v,
{
    assert(v as int == v as int % 256 + 256 * (v as int / 256));
}

/// A number by its part below `m` and its part above.
proof fn parts(x: int, m: int, lo: int, hi: int)
    requires
        0 <= lo < m,
        x == m * hi + lo,
    ensures
        x % m == lo,
        x / m == hi,
{
    assert(m * hi == hi * m) by (nonlinear_arith);
    vstd::arithmetic::div_mod::lemma_fundamental_div_mod_converse(x, m, hi, lo);
}

/// Whether a word stands at `at`, its lowest byte first.
pub open spec fn holds_word(b: Seq<u8>, at: int, v: u32) -> bool {
    &&& b[at] == v as int % 256
    &&& b[at + 1] == v as int / 0x100 % 256
    &&& b[at + 2] == v as int / 0x1_0000 % 256
    &&& b[at + 3] == v as int / 0x100_0000
}

/// A word reads back.
#[verifier::spinoff_prover]
proof fn word_reads_back(b: Seq<u8>, at: int, v: u32)
    requires
        holds_word(b, at, v),
    ensures
        crate::bytes::word_at(b, at) == v,
{
    let x = v as int;
    let (x1, x2, x3) = (x / 256, x / 256 / 256, x / 256 / 256 / 256);
    assert(x == 256 * x1 + x % 256 && x1 == 256 * x2 + x1 % 256 && x2 == 256 * x3 + x2 % 256);
    assert(x == 0x1_0000 * x2 + (256 * (x1 % 256) + x % 256));
    parts(x, 0x1_0000, 256 * (x1 % 256) + x % 256, x2);
    assert(x == 0x100_0000 * x3 + (0x1_0000 * (x2 % 256) + 256 * (x1 % 256) + x % 256));
    parts(x, 0x100_0000, 0x1_0000 * (x2 % 256) + 256 * (x1 % 256) + x % 256, x3);
}

/// Four numbers of two bits each in one.
proof fn four_pairs(x: int, i: int, j: int, m: int, n: int)
    requires
        0 <= i < 4,
        0 <= j < 4,
        0 <= m < 4,
        0 <= n < 4,
        x == i + 4 * j + 16 * m + 64 * n,
    ensures
        x % 4 == i,
        x / 4 % 4 == j,
        x / 16 % 4 == m,
        x / 64 == n,
{
    let y = j + 4 * m + 16 * n;
    parts(x, 4, i, y);
    parts(y, 4, j, m + 4 * n);
    parts(x, 16, i + 4 * j, m + 4 * n);
    parts(m + 4 * n, 4, m, n);
    parts(x, 64, i + 4 * j + 16 * m, n);
}

/// Element `k` of block `n`.
proof fn in_block(ggml_type: u32, b: Seq<u8>, n: int, k: int, size: int, elems: int)
    requires
        quant::layout(ggml_type) == Some((size as nat, elems as nat)),
        0 <= n,
        0 <= k < elems,
        0 < size,
    ensures
        quant::element_at(ggml_type, b, n * elems + k) == quant::element(ggml_type, b, n * size, k),
{
    vstd::arithmetic::div_mod::lemma_fundamental_div_mod_converse(n * elems + k, elems, n, k);
}

/// A block of four-bit numbers gives them back, each with its scale.
#[verifier::spinoff_prover]
pub proof fn q4_0_reads_back(b: Seq<u8>, n: int, k: int, d: u16, q: Seq<int>)
    requires
        0 <= n,
        0 <= k < 32,
        packs_q4_0(b, 18 * n, d, q),
    ensures
        quant::element_at(GGML_TYPE_Q4_0, b, 32 * n + k) == (Element::Scaled {
            d,
            q: q[k] as i32,
        }),
{
    in_block(GGML_TYPE_Q4_0, b, n, k, 18, 32);
    let at = 18 * n;
    half_reads_back(b, at, d);
    let j = k % 16;
    let x = b[at + 2 + j];
    assert(x == q[j] + 8 + 16 * (q[16 + j] + 8));
    halves(x);
    assert(-8 <= q[j] < 8 && -8 <= q[16 + j] < 8);
}

/// The number that a low half and a high bit make.
proof fn five_bits(byte: u8, qh: u32, k: int)
    requires
        0 <= k < 32,
    ensures
        quant::q5_0_quant(byte, qh, k) == (if k < 16 {
            byte % 16
        } else {
            byte / 16
        }) + 16 * ((qh >> k) & 1) - 16,
{
    let i = k as u32;
    let s = qh >> i;
    assert(s == qh >> k);
    assert((byte & 0x0F) as u32 | ((s << 4) & 0x10) == (byte % 16) as u32 + 16 * (s & 1)) by (
    bit_vector);
    assert((s & 1) <= 1) by (bit_vector);
    if k >= 16 {
        let t = qh >> ((k - 4) as u32);
        assert(t == qh >> (k - 16 + 12));
        let j = (k - 4) as u32;
        assert(t >> 4u32 == qh >> i) by (bit_vector)
            requires
                t == qh >> j,
                i == j + 4,
                j < 28,
        ;
        assert((byte >> 4) as u32 | (t & 0x10) == (byte / 16) as u32 + 16 * ((t >> 4u32) & 1)) by (
        bit_vector);
    }
}

/// A block of five-bit numbers gives them back, each with its scale.
#[verifier::spinoff_prover]
pub proof fn q5_0_reads_back(b: Seq<u8>, n: int, k: int, d: u16, high: u32, q: Seq<int>)
    requires
        0 <= n,
        0 <= k < 32,
        packs_q5_0(b, 22 * n, d, high, q),
    ensures
        quant::element_at(GGML_TYPE_Q5_0, b, 32 * n + k) == (Element::Scaled {
            d,
            q: q[k] as i32,
        }),
{
    in_block(GGML_TYPE_Q5_0, b, n, k, 22, 32);
    let at = 22 * n;
    half_reads_back(b, at, d);
    word_reads_back(b, at + 2, high);
    let j = if k < 16 {
        k
    } else {
        k - 16
    };
    parts(
        k,
        16,
        j,
        if k < 16 {
            0
        } else {
            1
        },
    );
    let x = b[at + 6 + j];
    assert(x == (q[j] + 16) % 16 + 16 * ((q[16 + j] + 16) % 16));
    five_bits(x, high, k);
    parts(x as int, 16, (q[j] + 16) % 16, (q[16 + j] + 16) % 16);
    assert(-16 <= q[k] < 16);
    assert((high >> k) & 1 == (q[k] + 16) / 16);
}

/// A block of signed bytes gives them back, each with its scale.
#[verifier::spinoff_prover]
pub proof fn q8_0_reads_back(b: Seq<u8>, n: int, k: int, d: u16, q: Seq<int>)
    requires
        0 <= n,
        0 <= k < 32,
        packs_q8_0(b, 34 * n, d, q),
    ensures
        quant::element_at(GGML_TYPE_Q8_0, b, 32 * n + k) == (Element::Scaled {
            d,
            q: q[k] as i32,
        }),
{
    in_block(GGML_TYPE_Q8_0, b, n, k, 34, 32);
    let at = 34 * n;
    half_reads_back(b, at, d);
    let x = b[at + 2 + k];
    signed(x);
    assert(-128 <= q[k] < 128);
}

/// Packed scales and leasts give themselves back.
#[verifier::spinoff_prover]
pub proof fn scales_read_back(b: Seq<u8>, at: int, scales: Seq<int>, mins: Seq<int>, j: int)
    requires
        0 <= j < 8,
        packs_scales(b, at, scales, mins),
    ensures
        quant::scale_min(b, at, j) == (scales[j] as u8, mins[j] as u8),
{
    let i = if j < 4 {
        j
    } else {
        j - 4
    };
    let (x, y, z) = (b[at + i], b[at + 4 + i], b[at + 8 + i]);
    assert(x == scales[i] + 64 * (scales[4 + i] / 16));
    assert(y == mins[i] + 64 * (mins[4 + i] / 16));
    assert(z == scales[4 + i] % 16 + 16 * (mins[4 + i] % 16));
    assert(0 <= scales[i] < 64 && 0 <= scales[4 + i] < 64 && 0 <= mins[i] < 64 && 0 <= mins[4 + i]
        < 64);
    assert(x & 63 == x % 64 && y & 63 == y % 64) by (bit_vector);
    assert((z & 0xF) | ((x >> 6) << 4) == z % 16 + 16 * (x / 64) && (z >> 4) | ((y >> 6) << 4) == z
        / 16 + 16 * (y / 64)) by (bit_vector);
    parts(x as int, 64, scales[i], scales[4 + i] / 16);
    parts(y as int, 64, mins[i], mins[4 + i] / 16);
    parts(z as int, 16, scales[4 + i] % 16, mins[4 + i] % 16);
}

/// A block of 256 four-bit numbers gives them back, each with the scale and the least of
/// its sub-block.
#[verifier::spinoff_prover]
pub proof fn q4_k_reads_back(
    b: Seq<u8>,
    n: int,
    k: int,
    d: u16,
    dmin: u16,
    scales: Seq<int>,
    mins: Seq<int>,
    q: Seq<int>,
)
    requires
        0 <= n,
        0 <= k < 256,
        packs_q4_k(b, 144 * n, d, dmin, scales, mins, q),
    ensures
        quant::element_at(GGML_TYPE_Q4_K, b, 256 * n + k) == (Element::ScaledMin {
            d,
            dmin,
            scale: scales[k / 32] as u8,
            min: mins[k / 32] as u8,
            q: q[k] as i32,
        }),
{
    in_block(GGML_TYPE_Q4_K, b, n, k, 144, 256);
    let at = 144 * n;
    half_reads_back(b, at, d);
    half_reads_back(b, at + 2, dmin);
    scales_read_back(b, at + 4, scales, mins, k / 32);
    let (s, l) = (k / 32, k % 32);
    let (g, r) = (s / 2, s % 2);
    assert(k == 64 * g + 32 * r + l);
    let x = b[at + 16 + g * 32 + l];
    assert(x == q[g * 64 + l] + 16 * q[g * 64 + 32 + l]);
    assert(0 <= q[g * 64 + l] < 16 && 0 <= q[g * 64 + 32 + l] < 16);
    halves(x);
    parts(x as int, 16, q[g * 64 + l], q[g * 64 + 32 + l]);
}

/// One of eight bits.
#[verifier::spinoff_prover]
proof fn one_bit(x: u8, s: int, bits: Seq<int>)
    requires
        0 <= s < 8,
        ranges(bits, 8, 0, 2),
        x == bits[0] + 2 * bits[1] + 4 * bits[2] + 8 * bits[3] + 16 * bits[4] + 32 * bits[5] + 64
            * bits[6] + 128 * bits[7],
    ensures
        ((x >> s) & 1 != 0) == (bits[s] == 1),
{
    assert(0 <= bits[0] < 2 && 0 <= bits[1] < 2 && 0 <= bits[2] < 2 && 0 <= bits[3] < 2 && 0
        <= bits[4] < 2 && 0 <= bits[5] < 2 && 0 <= bits[6] < 2 && 0 <= bits[7] < 2);
    assert(((x >> 0) & 1) == x % 2 && ((x >> 1) & 1) == x / 2 % 2 && ((x >> 2) & 1) == x / 4 % 2
        && ((x >> 3) & 1) == x / 8 % 2 && ((x >> 4) & 1) == x / 16 % 2 && ((x >> 5) & 1) == x / 32
        % 2 && ((x >> 6) & 1) == x / 64 % 2 && ((x >> 7) & 1) == x / 128) by (bit_vector);
}

/// A block of 256 five-bit numbers gives them back, each with the scale and the least of
/// its sub-block.
#[verifier::spinoff_prover]
pub proof fn q5_k_reads_back(
    b: Seq<u8>,
    n: int,
    k: int,
    d: u16,
    dmin: u16,
    scales: Seq<int>,
    mins: Seq<int>,
    q: Seq<int>,
)
    requires
        0 <= n,
        0 <= k < 256,
        packs_q5_k(b, 176 * n, d, dmin, scales, mins, q),
    ensures
        quant::element_at(GGML_TYPE_Q5_K, b, 256 * n + k) == (Element::ScaledMin {
            d,
            dmin,
            scale: scales[k / 32] as u8,
            min: mins[k / 32] as u8,
            q: q[k] as i32,
        }),
{
    in_block(GGML_TYPE_Q5_K, b, n, k, 176, 256);
    let at = 176 * n;
    half_reads_back(b, at, d);
    half_reads_back(b, at + 2, dmin);
    scales_read_back(b, at + 4, scales, mins, k / 32);
    let (s, l) = (k / 32, k % 32);
    let (g, r) = (s / 2, s % 2);
    assert(k == 64 * g + 32 * r + l);
    let x = b[at + 48 + g * 32 + l];
    assert(x == q[g * 64 + l] % 16 + 16 * (q[g * 64 + 32 + l] % 16));
    halves(x);
    parts(x as int, 16, q[g * 64 + l] % 16, q[g * 64 + 32 + l] % 16);
    let h = b[at + 16 + l];
    assert(h == high_bits(q, l));
    let bits = Seq::new(8, |i: int| q[32 * i + l] / 16);
    assert forall|i: int| 0 <= i < 8 implies 0 <= #[trigger] bits[i] < 2 by {
        assert(0 <= q[32 * i + l] < 32);
    }
    one_bit(h, s, bits);
    assert(k == 32 * s + l);
    assert(bits[s] == q[k] / 16);
    assert(0 <= q[k] < 32);
}

/// The number that a low half and two high bits make.
proof fn six_bits(low: u8, high: u8, w: int)
    requires
        0 <= w < 4,
    ensures
        quant::q6_k_quant(low, high, w) == (if w >= 2 {
            low / 16
        } else {
            low % 16
        }) + 16 * (if w == 0 {
            high % 4
        } else if w == 1 {
            high / 4 % 4
        } else if w == 2 {
            high / 16 % 4
        } else {
            high / 64
        }) - 32,
{
    assert(((low & 0x0F) | (((high >> 0) & 3) << 4)) == low % 16 + 16 * (high % 4) && ((low & 0x0F)
        | (((high >> 2) & 3) << 4)) == low % 16 + 16 * (high / 4 % 4) && ((low >> 4) | (((high
        >> 4) & 3) << 4)) == low / 16 + 16 * (high / 16 % 4) && ((low >> 4) | (((high >> 6) & 3)
        << 4)) == low / 16 + 16 * (high / 64)) by (bit_vector);
}

/// The half, the quarter of it and the place in that of an element among 256.
#[verifier::spinoff_prover]
proof fn places(k: int)
    requires
        0 <= k < 256,
    ensures
        0 <= k / 128 < 2,
        0 <= k % 128 / 32 < 4,
        0 <= k % 32 < 32,
        k == k / 128 * 128 + k % 128 / 32 * 32 + k % 32,
        k / 128 * 8 + k % 32 / 16 + 2 * (k % 128 / 32) == k / 16,
{
    let (h, m) = (k / 128, k % 128);
    let (w, l) = (m / 32, m % 32);
    assert(k % 32 == l) by {
        assert(k == 32 * (4 * h + w) + l);
        vstd::arithmetic::div_mod::lemma_fundamental_div_mod_converse(k, 32, 4 * h + w, l);
    }
    let (t, r) = (l / 16, l % 16);
    assert(k == 16 * (8 * h + 2 * w + t) + r);
    vstd::arithmetic::div_mod::lemma_fundamental_div_mod_converse(k, 16, 8 * h + 2 * w + t, r);
}

/// Each of the sixteen scales of a block of six-bit numbers applies to sixteen elements in
/// a row.
pub proof fn q6_k_scales_apply_to_sixteen(b: Seq<u8>, n: int, k: int)
    requires
        0 <= n,
        0 <= k < 256,
    ensures
        quant::element_at(GGML_TYPE_Q6_K, b, 256 * n + k) is ScaledTwice,
        quant::element_at(GGML_TYPE_Q6_K, b, 256 * n + k)->signed_scale == b[210 * n + 192 + k / 16]
            as i8,
{
    in_block(GGML_TYPE_Q6_K, b, n, k, 210, 256);
    places(k);
}

/// A block of 256 six-bit numbers gives them back, each with the scale of its sixteen
/// elements and that of the block.
#[verifier::spinoff_prover]
pub proof fn q6_k_reads_back(b: Seq<u8>, n: int, k: int, d: u16, scales: Seq<int>, q: Seq<int>)
    requires
        0 <= n,
        0 <= k < 256,
        packs_q6_k(b, 210 * n, d, scales, q),
    ensures
        quant::element_at(GGML_TYPE_Q6_K, b, 256 * n + k) == (Element::ScaledTwice {
            d,
            signed_scale: scales[k / 16] as i8,
            q: q[k] as i32,
        }),
{
    in_block(GGML_TYPE_Q6_K, b, n, k, 210, 256);
    let at = 210 * n;
    half_reads_back(b, at + 208, d);
    q6_k_scales_apply_to_sixteen(b, n, k);
    let s = b[at + 192 + k / 16];
    signed(s);
    assert(-128 <= scales[k / 16] < 128);
    places(k);
    let (h, w, l) = (k / 128, k % 128 / 32, k % 32);
    q6_k_number(b, at, d, scales, q, h, w, l);
}

/// The number of an element by its place.
#[verifier::spinoff_prover]
proof fn q6_k_number(
    b: Seq<u8>,
    at: int,
    d: u16,
    scales: Seq<int>,
    q: Seq<int>,
    h: int,
    w: int,
    l: int,
)
    requires
        packs_q6_k(b, at, d, scales, q),
        0 <= h < 2,
        0 <= w < 4,
        0 <= l < 32,
    ensures
        quant::q6_k_quant(b[at + h * 64 + l + w % 2 * 32], b[at + 128 + h * 32 + l], w) == q[h * 128
            + w * 32 + l],
{
    let (x, y, z, v) = (
        q[h * 128 + l] + 32,
        q[h * 128 + 32 + l] + 32,
        q[h * 128 + 64 + l] + 32,
        q[h * 128 + 96 + l] + 32,
    );
    let high = b[at + 128 + h * 32 + l];
    assert(high == x / 16 + 4 * (y / 16) + 16 * (z / 16) + 64 * (v / 16));
    if w % 2 == 0 {
        let low = b[at + h * 64 + l];
        assert(low == x % 16 + 16 * (z % 16));
        four_numbers(low, high, x, y, z, v, w);
        assert(at + h * 64 + l + w % 2 * 32 == at + h * 64 + l);
    } else {
        let j = 32 + l;
        let low = b[at + h * 64 + j];
        assert(h * 128 + 64 + j == h * 128 + 96 + l);
        assert(low == y % 16 + 16 * (v % 16));
        four_numbers(low, high, x, y, z, v, w);
        assert(at + h * 64 + l + w % 2 * 32 == at + h * 64 + j);
    }
}

/// The numbers whose high bits share a byte.
#[verifier::spinoff_prover]
proof fn four_numbers(low: u8, high: u8, x: int, y: int, z: int, v: int, w: int)
    requires
        0 <= w < 4,
        0 <= x < 64,
        0 <= y < 64,
        0 <= z < 64,
        0 <= v < 64,
        high == x / 16 + 4 * (y / 16) + 16 * (z / 16) + 64 * (v / 16),
        w % 2 == 0 ==> low == x % 16 + 16 * (z % 16),
        w % 2 == 1 ==> low == y % 16 + 16 * (v % 16),
    ensures
        quant::q6_k_quant(low, high, w) == (if w == 0 {
            x
        } else if w == 1 {
            y
        } else if w == 2 {
            z
        } else {
            v
        }) - 32,
{
    six_bits(low, high, w);
    four_pairs(high as int, x / 16, y / 16, z / 16, v / 16);
    if w % 2 == 0 {
        parts(low as int, 16, x % 16, z % 16);
    } else {
        parts(low as int, 16, y % 16, v % 16);
    }
}

/// Values in single and in half precision are read as they stand, the lowest byte first;
/// a value of the upper half of a single one is that single one with zeros below.
#[verifier::spinoff_prover]
pub proof fn plain_values_read_back(b: Seq<u8>, n: int, single: u32, half: u16)
    requires
        0 <= n,
    ensures
        holds_word(b, 4 * n, single) ==> quant::element_at(GGML_TYPE_F32, b, n) == Element::Single(
            single,
        ),
        holds_half(b, 2 * n, half) ==> quant::element_at(GGML_TYPE_F16, b, n) == Element::Half(half),
        holds_half(b, 2 * n, half) && single as int == half * 0x1_0000 ==> quant::element_at(
            GGML_TYPE_BF16,
            b,
            n,
        ) == Element::Single(single),
{
    in_block(GGML_TYPE_F32, b, n, 0, 4, 1);
    in_block(GGML_TYPE_F16, b, n, 0, 2, 1);
    in_block(GGML_TYPE_BF16, b, n, 0, 2, 1);
    if holds_word(b, 4 * n, single) {
        word_reads_back(b, 4 * n, single);
    }
    if holds_half(b, 2 * n, half) {
        half_reads_back(b, 2 * n, half);
    }
}

/// A block takes as many bytes as its parts: of scales two each, of packed scales and
/// leasts twelve, of signed scales one each, and of numbers their bits.
pub proof fn blocks_take_what_their_parts_take()
    ensures
        quant::layout(0) == Some((4nat, 1nat)),
        quant::layout(1) == Some((2nat, 1nat)),
        quant::layout(30) == Some((2nat, 1nat)),
        quant::layout(2) == Some(((2 + 32 * 4 / 8) as nat, 32nat)),
        quant::layout(6) == Some(((2 + 32 * 5 / 8) as nat, 32nat)),
        quant::layout(8) == Some(((2 + 32 * 8 / 8) as nat, 32nat)),
        quant::layout(12) == Some(((2 + 2 + 12 + 256 * 4 / 8) as nat, 256nat)),
        quant::layout(13) == Some(((2 + 2 + 12 + 256 * 5 / 8) as nat, 256nat)),
        quant::layout(14) == Some(((2 + 16 + 256 * 6 / 8) as nat, 256nat)),
{
}

} // verus!
