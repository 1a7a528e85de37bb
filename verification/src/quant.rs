//! The block formats that tensors are stored in, and what their bytes hold.
//!
//! An element of a quantized block is a small integer with the scales that apply
//! to it. It is kept as those numbers; a value comes of it only where floats are
//! multiplied out.

pub mod packing;

use vstd::prelude::*;

use crate::bytes;
use crate::bytes::{read_u16, read_u32};
use crate::text;
use crate::text::push_decimal;

verus! {

pub const GGML_TYPE_F32: u32 = 0;

pub const GGML_TYPE_F16: u32 = 1;

pub const GGML_TYPE_Q4_0: u32 = 2;

pub const GGML_TYPE_Q5_0: u32 = 6;

pub const GGML_TYPE_Q8_0: u32 = 8;

pub const GGML_TYPE_Q4_K: u32 = 12;

pub const GGML_TYPE_Q5_K: u32 = 13;

pub const GGML_TYPE_Q6_K: u32 = 14;

pub const GGML_TYPE_BF16: u32 = 30;

/// Why a tensor cannot be read.
#[derive(Debug, Clone, Copy, PartialEq, Eq, Structural)]
pub enum QuantError {
    /// The type is none of those that can be read.
    Unsupported { ggml_type: u32 },
    /// The number of elements is not a whole number of blocks.
    NotWholeBlocks { ggml_type: u32, element_count: u64, block_elems: u64 },
}

impl QuantError {
    /// The message of the error, given the name of the type.
    pub open spec fn text(self, named: Seq<char>) -> Seq<char> {
        match self {
            QuantError::Unsupported { .. } => "tensor type "@ + named
                + " is not yet supported by orangu-server"@,
            QuantError::NotWholeBlocks { element_count, block_elems, .. } =>
                "tensor element count "@ + text::decimal_text(element_count as nat)
                + " is not a multiple of the "@ + text::decimal_text(block_elems as nat)
                + " block size for "@ + named,
        }
    }

    /// The message of the error, given the name of the type.
    pub fn message(self, named: &str) -> (r: String)
        ensures
            r@ == self.text(named@),
    {
        match self {
            QuantError::Unsupported { .. } => {
                let mut s = "tensor type ".to_owned();
                s.append(named);
                s.append(" is not yet supported by orangu-server");
                s
            },
            QuantError::NotWholeBlocks { element_count, block_elems, .. } => {
                let mut s = "tensor element count ".to_owned();
                push_decimal(&mut s, element_count);
                s.append(" is not a multiple of the ");
                push_decimal(&mut s, block_elems);
                s.append(" block size for ");
                s.append(named);
                s
            },
        }
    }
}

/// The number of bytes and of elements in a block of a type.
pub open spec fn layout(ggml_type: u32) -> Option<(nat, nat)> {
    if ggml_type == GGML_TYPE_F32 {
        Some((4, 1))
    } else if ggml_type == GGML_TYPE_F16 || ggml_type == GGML_TYPE_BF16 {
        Some((2, 1))
    } else if ggml_type == GGML_TYPE_Q4_0 {
        Some((18, 32))
    } else if ggml_type == GGML_TYPE_Q5_0 {
        Some((22, 32))
    } else if ggml_type == GGML_TYPE_Q8_0 {
        Some((34, 32))
    } else if ggml_type == GGML_TYPE_Q4_K {
        Some((144, 256))
    } else if ggml_type == GGML_TYPE_Q5_K {
        Some((176, 256))
    } else if ggml_type == GGML_TYPE_Q6_K {
        Some((210, 256))
    } else {
        None
    }
}

/// The number of bytes that a tensor takes.
pub open spec fn byte_size(ggml_type: u32, element_count: nat) -> Result<nat, QuantError> {
    match layout(ggml_type) {
        None => Err(QuantError::Unsupported { ggml_type }),
        Some((block_bytes, block_elems)) => if element_count % block_elems != 0 {
            Err(
                QuantError::NotWholeBlocks {
                    ggml_type,
                    element_count: element_count as u64,
                    block_elems: block_elems as u64,
                },
            )
        } else {
            Ok(element_count / block_elems * block_bytes)
        },
    }
}

/// A tensor made of rows takes the bytes of its rows, where a row is a whole
/// number of blocks.
pub proof fn rows_make_the_tensor(ggml_type: u32, row: nat, rows: nat)
    requires
        byte_size(ggml_type, row) is Ok,
    ensures
        byte_size(ggml_type, row * rows) == Ok::<nat, QuantError>(
            (byte_size(ggml_type, row)->Ok_0 * rows) as nat,
        ),
{
    let (block_bytes, block_elems) = layout(ggml_type)->0;
    let q = row / block_elems;
    assert(row == q * block_elems) by (nonlinear_arith)
        requires
            row % block_elems == 0,
            q == row / block_elems,
            block_elems > 0,
    ;
    assert(row * rows == (q * rows) * block_elems + 0) by (nonlinear_arith)
        requires
            row == q * block_elems,
    ;
    vstd::arithmetic::div_mod::lemma_fundamental_div_mod_converse(
        (row * rows) as int,
        block_elems as int,
        (q * rows) as int,
        0,
    );
    assert(q * rows * block_bytes == q * block_bytes * rows) by (nonlinear_arith);
}

/// The number of bytes and of elements in a block of a type.
pub fn block_layout(ggml_type: u32) -> (r: Option<(usize, usize)>)
    ensures
        match r {
            Some((block_bytes, block_elems)) => layout(ggml_type) == Some(
                (block_bytes as nat, block_elems as nat),
            ),
            None => layout(ggml_type) is None,
        },
{
    if ggml_type == GGML_TYPE_F32 {
        Some((4, 1))
    } else if ggml_type == GGML_TYPE_F16 || ggml_type == GGML_TYPE_BF16 {
        Some((2, 1))
    } else if ggml_type == GGML_TYPE_Q4_0 {
        Some((18, 32))
    } else if ggml_type == GGML_TYPE_Q5_0 {
        Some((22, 32))
    } else if ggml_type == GGML_TYPE_Q8_0 {
        Some((34, 32))
    } else if ggml_type == GGML_TYPE_Q4_K {
        Some((144, 256))
    } else if ggml_type == GGML_TYPE_Q5_K {
        Some((176, 256))
    } else if ggml_type == GGML_TYPE_Q6_K {
        Some((210, 256))
    } else {
        None
    }
}

/// The number of bytes that a tensor takes.
pub fn tensor_byte_size(ggml_type: u32, element_count: u64) -> (r: Result<u64, QuantError>)
    requires
        byte_size(ggml_type, element_count as nat) is Ok ==> byte_size(
            ggml_type,
            element_count as nat,
        )->Ok_0 <= u64::MAX,
    ensures
        match r {
            Ok(n) => byte_size(ggml_type, element_count as nat) == Ok::<nat, QuantError>(n as nat),
            Err(e) => byte_size(ggml_type, element_count as nat) == Err::<nat, QuantError>(e),
        },
{
    match block_layout(ggml_type) {
        None => Err(QuantError::Unsupported { ggml_type }),
        Some((block_bytes, block_elems)) => {
            let elems: u64 = block_elems as u64;
            if element_count % elems != 0 {
                return Err(
                    QuantError::NotWholeBlocks { ggml_type, element_count, block_elems: elems },
                );
            }
            Ok(element_count / elems * block_bytes as u64)
        },
    }
}

/// One element of a tensor. Floats are held as their bits: values in single or in
/// half precision, scales in half precision.
#[derive(Debug, Clone, Copy, PartialEq, Eq, Structural)]
pub enum Element {
    /// A value in single precision.
    Single(u32),
    /// A value in half precision.
    Half(u16),
    /// The scale times the quant.
    Scaled { d: u16, q: i32 },
    /// The scale times the sub-block's scale times the quant, less the least scale
    /// times the sub-block's least.
    ScaledMin { d: u16, dmin: u16, scale: u8, min: u8, q: i32 },
    /// The scale times the sub-block's signed scale times the quant.
    ScaledTwice { d: u16, signed_scale: i8, q: i32 },
}

/// The scale and the least of sub-block `j` of a block of 256, six bits each,
/// unpacked from the twelve bytes at `at`.
pub open spec fn scale_min(b: Seq<u8>, at: int, j: int) -> (u8, u8) {
    if j < 4 {
        (b[at + j] & 63, b[at + j + 4] & 63)
    } else {
        (
            (b[at + j + 4] & 0xF) | ((b[at + j - 4] >> 6) << 4),
            (b[at + j + 4] >> 4) | ((b[at + j] >> 6) << 4),
        )
    }
}

/// The low or the high half of a byte.
pub open spec fn nibble(b: u8, high: bool) -> u8 {
    if high {
        b >> 4
    } else {
        b & 0x0F
    }
}

/// Element `k` of the block at `at`, which holds a scale and sixteen bytes of
/// nibbles, offset by eight.
pub open spec fn q4_0_element(b: Seq<u8>, at: int, k: int) -> Element {
    Element::Scaled {
        d: bytes::half_at(b, at),
        q: (nibble(b[at + 2 + k % 16], k >= 16) - 8) as i32,
    }
}

/// The quant of element `k` of a block of five-bit quants: a nibble and a high
/// bit, offset by sixteen.
pub open spec fn q5_0_quant(byte: u8, qh: u32, k: int) -> i32 {
    if k < 16 {
        (((byte & 0x0F) as u32 | (((qh >> k) << 4) & 0x10)) - 16) as i32
    } else {
        (((byte >> 4) as u32 | ((qh >> (k - 16 + 12)) & 0x10)) - 16) as i32
    }
}

/// Element `k` of the block at `at`, which holds a scale, the high bits, and
/// sixteen bytes of nibbles.
pub open spec fn q5_0_element(b: Seq<u8>, at: int, k: int) -> Element {
    Element::Scaled {
        d: bytes::half_at(b, at),
        q: q5_0_quant(b[at + 6 + k % 16], bytes::word_at(b, at + 2), k),
    }
}

/// Element `k` of the block at `at`, which holds a scale and signed bytes.
pub open spec fn q8_0_element(b: Seq<u8>, at: int, k: int) -> Element {
    Element::Scaled {
        d: bytes::half_at(b, at),
        q: (b[at + 2 + k] as i8) as i32,
    }
}

/// Element `k` of the block at `at`, which holds two scales, the sub-blocks'
/// scales and leasts, and nibbles: sub-block after sub-block, of which two share
/// their bytes.
pub open spec fn q4_k_element(b: Seq<u8>, at: int, k: int) -> Element {
    let sub = k / 32;
    let (scale, min) = scale_min(b, at + 4, sub);
    Element::ScaledMin {
        d: bytes::half_at(b, at),
        dmin: bytes::half_at(b, at + 2),
        scale,
        min,
        q: nibble(b[at + 16 + sub / 2 * 32 + k % 32], sub % 2 == 1) as i32,
    }
}

/// Element `k` of the block at `at`: as a block of nibbles, with a high bit for
/// each; sub-block `sub` has its high bits at bit `sub` of 32 bytes.
pub open spec fn q5_k_element(b: Seq<u8>, at: int, k: int) -> Element {
    let sub = k / 32;
    let (scale, min) = scale_min(b, at + 4, sub);
    Element::ScaledMin {
        d: bytes::half_at(b, at),
        dmin: bytes::half_at(b, at + 2),
        scale,
        min,
        q: (nibble(b[at + 48 + sub / 2 * 32 + k % 32], sub % 2 == 1) + (if (b[at + 16 + k % 32]
            >> sub) & 1 != 0 {
            16int
        } else {
            0int
        })) as i32,
    }
}

/// The quant of element `k` of a block of six-bit quants: a nibble and two high
/// bits, offset by 32. `w` is the quarter of 128 elements that it lies in.
pub open spec fn q6_k_quant(low: u8, high: u8, w: int) -> i32 {
    ((nibble(low, w >= 2) | (((high >> (2 * w)) & 3) << 4)) - 32) as i32
}

/// Element `k` of the block at `at`, which holds nibbles, pairs of high bits,
/// sixteen signed scales, and a scale.
pub open spec fn q6_k_element(b: Seq<u8>, at: int, k: int) -> Element {
    let h = k / 128;
    let w = k % 128 / 32;
    let l = k % 32;
    Element::ScaledTwice {
        d: bytes::half_at(b, at + 208),
        signed_scale: b[at + 192 + h * 8 + l / 16 + 2 * w] as i8,
        q: q6_k_quant(b[at + h * 64 + l + w % 2 * 32], b[at + 128 + h * 32 + l], w),
    }
}

/// Element `k` of the block at `at` of a type.
pub open spec fn element(ggml_type: u32, b: Seq<u8>, at: int, k: int) -> Element {
    if ggml_type == GGML_TYPE_F32 {
        Element::Single(bytes::word_at(b, at))
    } else if ggml_type == GGML_TYPE_F16 {
        Element::Half(bytes::half_at(b, at))
    } else if ggml_type == GGML_TYPE_BF16 {
        Element::Single((bytes::half_at(b, at) * 0x1_0000) as u32)
    } else if ggml_type == GGML_TYPE_Q4_0 {
        q4_0_element(b, at, k)
    } else if ggml_type == GGML_TYPE_Q5_0 {
        q5_0_element(b, at, k)
    } else if ggml_type == GGML_TYPE_Q8_0 {
        q8_0_element(b, at, k)
    } else if ggml_type == GGML_TYPE_Q4_K {
        q4_k_element(b, at, k)
    } else if ggml_type == GGML_TYPE_Q5_K {
        q5_k_element(b, at, k)
    } else {
        q6_k_element(b, at, k)
    }
}

/// Element `i` of a run of blocks of a type.
pub open spec fn element_at(ggml_type: u32, b: Seq<u8>, i: int) -> Element {
    let (block_bytes, block_elems) = layout(ggml_type)->0;
    element(ggml_type, b, i / (block_elems as int) * block_bytes, i % (block_elems as int))
}

/// The number of elements in the whole blocks of a run of bytes.
pub open spec fn elements_in(ggml_type: u32, len: nat) -> nat {
    let (block_bytes, block_elems) = layout(ggml_type)->0;
    len / block_bytes * block_elems
}

/// The quants of each format lie in its range, and the sub-blocks' scales and
/// leasts have six bits.
pub proof fn quants_lie_in_range(byte: u8, high: u8, qh: u32, k: int, b: Seq<u8>, at: int, j: int)
    requires
        0 <= k < 32,
    ensures
        nibble(byte, true) < 16 && nibble(byte, false) < 16,
        -16 <= q5_0_quant(byte, qh, k) <= 15,
        0 <= k / 8 < 4 ==> -32 <= q6_k_quant(byte, high, k / 8) <= 31,
        scale_min(b, at, j).0 < 64 && scale_min(b, at, j).1 < 64,
{
    assert(byte >> 4 < 16 && byte & 0x0F < 16) by (bit_vector);
    let s = (qh >> k) as u32;
    assert(((byte & 0x0F) as u32 | ((s << 4) & 0x10)) <= 31) by (bit_vector);
    let t = (qh >> (k - 16 + 12)) as u32;
    assert(((byte >> 4) as u32 | (t & 0x10)) <= 31) by (bit_vector);
    let w = k / 8;
    let u = (high >> (2 * w)) as u8;
    assert(((byte >> 4) | ((u & 3) << 4)) <= 63 && ((byte & 0x0F) | ((u & 3) << 4)) <= 63) by (
    bit_vector);
    let (x, y, z, v) = (b[at + j], b[at + j + 4], b[at + j - 4], b[at + j]);
    assert(x & 63 < 64 && y & 63 < 64) by (bit_vector);
    assert(((y & 0xF) | ((z >> 6) << 4)) < 64) by (bit_vector);
    assert(((y >> 4) | ((v >> 6) << 4)) < 64) by (bit_vector);
}

/// Twelve bytes that pack eight scales and eight leasts of six bits each: the first
/// four of each in full, with the two high bits of the last four above them, then the
/// low halves of the last four.
pub open spec fn packed_scales(scales: Seq<u8>, mins: Seq<u8>) -> Seq<u8> {
    Seq::new(
        12,
        |i: int|
            if i < 4 {
                scales[i] | ((scales[i + 4] >> 4) << 6)
            } else if i < 8 {
                mins[i - 4] | ((mins[i] >> 4) << 6)
            } else {
                (scales[i - 4] & 0xF) | ((mins[i - 4] & 0xF) << 4)
            },
    )
}

/// Unpacking undoes packing: from bytes that pack scales and leasts of six bits each,
/// every sub-block gets its own back.
pub proof fn unpacking_undoes_packing(
    scales: Seq<u8>,
    mins: Seq<u8>,
    b: Seq<u8>,
    at: int,
    j: int,
)
    requires
        scales.len() == 8,
        mins.len() == 8,
        forall|i: int| 0 <= i < 8 ==> (#[trigger] scales[i]) < 64,
        forall|i: int| 0 <= i < 8 ==> (#[trigger] mins[i]) < 64,
        0 <= at,
        at + 12 <= b.len(),
        b.subrange(at, at + 12) == packed_scales(scales, mins),
        0 <= j < 8,
    ensures
        scale_min(b, at, j) == (scales[j], mins[j]),
{
    let p = packed_scales(scales, mins);
    assert forall|i: int| 0 <= i < 12 implies #[trigger] b[at + i] == p[i] by {
        assert(b.subrange(at, at + 12)[i] == b[at + i]);
    }
    if j < 4 {
        let (s, t, m, n) = (scales[j], scales[j + 4], mins[j], mins[j + 4]);
        assert(b[at + j] == p[j] && b[at + (j + 4)] == p[j + 4]);
        assert((s | ((t >> 4) << 6)) & 63 == s && (m | ((n >> 4) << 6)) & 63 == m) by (bit_vector)
            requires
                s < 64,
                t < 64,
                m < 64,
                n < 64,
        ;
    } else {
        let (s, t, m, n) = (scales[j - 4], scales[j], mins[j - 4], mins[j]);
        assert(b[at + (j - 4)] == p[j - 4] && b[at + j] == p[j] && b[at + (j + 4)] == p[j + 4]);
        assert((((t & 0xF) | ((n & 0xF) << 4)) & 0xF) | (((s | ((t >> 4) << 6)) >> 6) << 4) == t
            && (((t & 0xF) | ((n & 0xF) << 4)) >> 4) | (((m | ((n >> 4) << 6)) >> 6) << 4) == n)
            by (bit_vector)
            requires
                s < 64,
                t < 64,
                m < 64,
                n < 64,
        ;
    }
}

/// Packing undoes unpacking: any twelve bytes pack what they unpack to.
pub proof fn packing_undoes_unpacking(b: Seq<u8>, at: int)
    requires
        0 <= at,
        at + 12 <= b.len(),
    ensures
        packed_scales(
            Seq::new(8, |j: int| scale_min(b, at, j).0),
            Seq::new(8, |j: int| scale_min(b, at, j).1),
        ) == b.subrange(at, at + 12),
{
    let scales = Seq::new(8, |j: int| scale_min(b, at, j).0);
    let mins = Seq::new(8, |j: int| scale_min(b, at, j).1);
    let p = packed_scales(scales, mins);
    assert forall|i: int| 0 <= i < 12 implies p[i] == b[at + i] by {
        let j = if i < 4 {
            i
        } else if i < 8 {
            i - 4
        } else {
            i - 8
        };
        let (x, y, z) = (b[at + j], b[at + j + 4], b[at + j + 8]);
        assert(scales[j] == x & 63 && mins[j] == y & 63);
        assert(scale_min(b, at, j + 4) == ((z & 0xF) | ((x >> 6) << 4), (z >> 4) | ((y >> 6) << 4)));
        assert((x & 63) | ((((z & 0xF) | ((x >> 6) << 4)) >> 4) << 6) == x) by (bit_vector);
        assert((y & 63) | ((((z >> 4) | ((y >> 6) << 4)) >> 4) << 6) == y) by (bit_vector);
        assert((((z & 0xF) | ((x >> 6) << 4)) & 0xF) | ((((z >> 4) | ((y >> 6) << 4)) & 0xF) << 4)
            == z) by (bit_vector);
    }
    assert(p =~= b.subrange(at, at + 12));
}

/// Where a block is one element, the elements are counted by their bytes.
proof fn unit_blocks(ggml_type: u32, b: Seq<u8>, i: int)
    requires
        layout(ggml_type) is Some,
        (layout(ggml_type)->0).1 == 1,
    ensures
        elements_in(ggml_type, b.len()) == b.len() / (layout(ggml_type)->0).0,
        element_at(ggml_type, b, i) == element(ggml_type, b, i * (layout(ggml_type)->0).0, 0),
{
    let (block_bytes, block_elems) = layout(ggml_type)->0;
    let n = b.len() / block_bytes;
    assert(n * block_elems == n) by (nonlinear_arith)
        requires
            block_elems == 1,
    ;
    assert(i / 1 == i && i % 1 == 0);
}

/// Whether bytes begin with the packed form of eight scales and eight leasts of six
/// bits each.
pub open spec fn packs(q: Seq<u8>, scales: Seq<u8>, mins: Seq<u8>) -> bool {
    &&& scales.len() == 8
    &&& mins.len() == 8
    &&& forall|i: int| 0 <= i < 8 ==> (#[trigger] scales[i]) < 64
    &&& forall|i: int| 0 <= i < 8 ==> (#[trigger] mins[i]) < 64
    &&& q.len() >= 12
    &&& q.take(12) == packed_scales(scales, mins)
}

/// The scale and the least of sub-block `j` of a block of 256, from the bytes that they
/// are packed into: those that were packed.
pub fn get_scale_min_k4(j: usize, q: &[u8]) -> (r: (u8, u8))
    requires
        j + 4 < q@.len(),
    ensures
        r == scale_min(q@, 0, j as int),
        forall|scales: Seq<u8>, mins: Seq<u8>|
            j < 8 && #[trigger] packs(q@, scales, mins) ==> r == (scales[j as int], mins[j as int]),
{
    let total: usize = q.len();
    proof {
        assert forall|scales: Seq<u8>, mins: Seq<u8>|
            j < 8 && #[trigger] packs(q@, scales, mins) implies scale_min(q@, 0, j as int) == (
            scales[j as int],
            mins[j as int],
        ) by {
            assert(q@.subrange(0, 12) =~= q@.take(12));
            unpacking_undoes_packing(scales, mins, q@, 0, j as int);
        }
    }
    if j < 4 {
        (q[j] & 63, q[j + 4] & 63)
    } else {
        (
            (q[j + 4] & 0xF) | ((q[j - 4] >> 6) << 4),
            (q[j + 4] >> 4) | ((q[j] >> 6) << 4),
        )
    }
}

/// The elements of the whole blocks of `b`: a value in single precision each.
fn dequantize_f32_words(b: &[u8]) -> (out: Vec<Element>)
    ensures
        out@.len() == elements_in(GGML_TYPE_F32, b@.len()),
        forall|i: int| 0 <= i < out@.len() ==> out@[i] == element_at(GGML_TYPE_F32, b@, i),
{
    let total: usize = b.len();
    let n: usize = total / 4;
    let mut out: Vec<Element> = Vec::new();
    let mut i: usize = 0;
    while i < n
        invariant
            total == b@.len(),
            n == total / 4,
            i <= n,
            out@.len() == i,
            forall|j: int| 0 <= j < i ==> out@[j] == element_at(GGML_TYPE_F32, b@, j),
        decreases n - i,
    {
        proof {
            unit_blocks(GGML_TYPE_F32, b@, i as int);
        }
        out.push(Element::Single(read_u32(b, i * 4)));
        i += 1;
    }
    proof {
        unit_blocks(GGML_TYPE_F32, b@, 0);
    }
    out
}

/// The elements of the whole blocks of `b`: a value in half precision each.
fn dequantize_halves(b: &[u8]) -> (out: Vec<Element>)
    ensures
        out@.len() == elements_in(GGML_TYPE_F16, b@.len()),
        forall|i: int| 0 <= i < out@.len() ==> out@[i] == element_at(GGML_TYPE_F16, b@, i),
{
    let total: usize = b.len();
    let n: usize = total / 2;
    let mut out: Vec<Element> = Vec::new();
    let mut i: usize = 0;
    while i < n
        invariant
            total == b@.len(),
            n == total / 2,
            i <= n,
            out@.len() == i,
            forall|j: int| 0 <= j < i ==> out@[j] == element_at(GGML_TYPE_F16, b@, j),
        decreases n - i,
    {
        proof {
            unit_blocks(GGML_TYPE_F16, b@, i as int);
        }
        out.push(Element::Half(read_u16(b, i * 2)));
        i += 1;
    }
    proof {
        unit_blocks(GGML_TYPE_F16, b@, 0);
    }
    out
}

/// The elements of the whole blocks of `b`: the high half of a value in single
/// precision each.
fn dequantize_high_halves(b: &[u8]) -> (out: Vec<Element>)
    ensures
        out@.len() == elements_in(GGML_TYPE_BF16, b@.len()),
        forall|i: int| 0 <= i < out@.len() ==> out@[i] == element_at(GGML_TYPE_BF16, b@, i),
{
    let total: usize = b.len();
    let n: usize = total / 2;
    let mut out: Vec<Element> = Vec::new();
    let mut i: usize = 0;
    while i < n
        invariant
            total == b@.len(),
            n == total / 2,
            i <= n,
            out@.len() == i,
            forall|j: int| 0 <= j < i ==> out@[j] == element_at(GGML_TYPE_BF16, b@, j),
        decreases n - i,
    {
        proof {
            unit_blocks(GGML_TYPE_BF16, b@, i as int);
        }
        out.push(Element::Single(read_u16(b, i * 2) as u32 * 0x1_0000));
        i += 1;
    }
    proof {
        unit_blocks(GGML_TYPE_BF16, b@, 0);
    }
    out
}

/// The elements of the whole blocks of `b`.
fn dequantize_q4_0(b: &[u8]) -> (out: Vec<Element>)
    ensures
        out@.len() == elements_in(GGML_TYPE_Q4_0, b@.len()),
        forall|i: int| 0 <= i < out@.len() ==> out@[i] == element_at(GGML_TYPE_Q4_0, b@, i),
{
    let total: usize = b.len();
    let n: usize = total / 18;
    let mut out: Vec<Element> = Vec::new();
    let mut block: usize = 0;
    while block < n
        invariant
            total == b@.len(),
            n == total / 18,
            block <= n,
            out@.len() == block * 32,
            forall|i: int| 0 <= i < out@.len() ==> out@[i] == element_at(GGML_TYPE_Q4_0, b@, i),
        decreases n - block,
    {
        let at: usize = block * 18;
        let d: u16 = read_u16(b, at);
        let mut k: usize = 0;
        while k < 32
            invariant
                total == b@.len(),
                at + 18 <= total,
                at == block * 18,
                k <= 32,
                d == bytes::half_at(b@, at as int),
                out@.len() == block * 32 + k,
                forall|i: int| 0 <= i < out@.len() ==> out@[i] == element_at(GGML_TYPE_Q4_0, b@, i),
            decreases 32 - k,
        {
            let byte: u8 = b[at + 2 + k % 16];
            let q: i32 = if k < 16 {
                (byte & 0x0F) as i32 - 8
            } else {
                (byte >> 4) as i32 - 8
            };
            proof {
                let i = block * 32 + k;
                assert(i / 32 == block && i % 32 == k);
            }
            out.push(Element::Scaled { d, q });
            k += 1;
        }
        block += 1;
    }
    out
}

/// The elements of the whole blocks of `b`.
fn dequantize_q5_0(b: &[u8]) -> (out: Vec<Element>)
    ensures
        out@.len() == elements_in(GGML_TYPE_Q5_0, b@.len()),
        forall|i: int| 0 <= i < out@.len() ==> out@[i] == element_at(GGML_TYPE_Q5_0, b@, i),
{
    let total: usize = b.len();
    let n: usize = total / 22;
    let mut out: Vec<Element> = Vec::new();
    let mut block: usize = 0;
    while block < n
        invariant
            total == b@.len(),
            n == total / 22,
            block <= n,
            out@.len() == block * 32,
            forall|i: int| 0 <= i < out@.len() ==> out@[i] == element_at(GGML_TYPE_Q5_0, b@, i),
        decreases n - block,
    {
        let at: usize = block * 22;
        let d: u16 = read_u16(b, at);
        let qh: u32 = read_u32(b, at + 2);
        let mut k: usize = 0;
        while k < 32
            invariant
                total == b@.len(),
                at + 22 <= total,
                at == block * 22,
                k <= 32,
                d == bytes::half_at(b@, at as int),
                qh == bytes::word_at(b@, at + 2),
                out@.len() == block * 32 + k,
                forall|i: int| 0 <= i < out@.len() ==> out@[i] == element_at(GGML_TYPE_Q5_0, b@, i),
            decreases 32 - k,
        {
            let byte: u8 = b[at + 6 + k % 16];
            proof {
                let i = block * 32 + k;
                assert(i / 32 == block && i % 32 == k);
                quants_lie_in_range(byte, byte, qh, k as int, b@, 0, 0);
            }
            let q: i32 = if k < 16 {
                let shifted: u32 = qh >> (k as u32);
                assert(((byte & 0x0F) as u32 | ((shifted << 4) & 0x10)) <= 31) by (bit_vector);
                ((byte & 0x0F) as u32 | ((shifted << 4) & 0x10)) as i32 - 16
            } else {
                let shifted: u32 = qh >> ((k - 16 + 12) as u32);
                assert(((byte >> 4) as u32 | (shifted & 0x10)) <= 31) by (bit_vector);
                ((byte >> 4) as u32 | (shifted & 0x10)) as i32 - 16
            };
            out.push(Element::Scaled { d, q });
            k += 1;
        }
        block += 1;
    }
    out
}

/// The elements of the whole blocks of `b`.
fn dequantize_q8_0(b: &[u8]) -> (out: Vec<Element>)
    ensures
        out@.len() == elements_in(GGML_TYPE_Q8_0, b@.len()),
        forall|i: int| 0 <= i < out@.len() ==> out@[i] == element_at(GGML_TYPE_Q8_0, b@, i),
{
    let total: usize = b.len();
    let n: usize = total / 34;
    let mut out: Vec<Element> = Vec::new();
    let mut block: usize = 0;
    while block < n
        invariant
            total == b@.len(),
            n == total / 34,
            block <= n,
            out@.len() == block * 32,
            forall|i: int| 0 <= i < out@.len() ==> out@[i] == element_at(GGML_TYPE_Q8_0, b@, i),
        decreases n - block,
    {
        let at: usize = block * 34;
        let d: u16 = read_u16(b, at);
        let mut k: usize = 0;
        while k < 32
            invariant
                total == b@.len(),
                at + 34 <= total,
                at == block * 34,
                k <= 32,
                d == bytes::half_at(b@, at as int),
                out@.len() == block * 32 + k,
                forall|i: int| 0 <= i < out@.len() ==> out@[i] == element_at(GGML_TYPE_Q8_0, b@, i),
            decreases 32 - k,
        {
            proof {
                let i = block * 32 + k;
                assert(i / 32 == block && i % 32 == k);
            }
            out.push(Element::Scaled { d, q: (b[at + 2 + k] as i8) as i32 });
            k += 1;
        }
        block += 1;
    }
    out
}

/// The elements of the whole blocks of `b`.
fn dequantize_q4_k(b: &[u8]) -> (out: Vec<Element>)
    ensures
        out@.len() == elements_in(GGML_TYPE_Q4_K, b@.len()),
        forall|i: int| 0 <= i < out@.len() ==> out@[i] == element_at(GGML_TYPE_Q4_K, b@, i),
{
    let total: usize = b.len();
    let n: usize = total / 144;
    let mut out: Vec<Element> = Vec::new();
    let mut block: usize = 0;
    while block < n
        invariant
            total == b@.len(),
            n == total / 144,
            block <= n,
            out@.len() == block * 256,
            forall|i: int| 0 <= i < out@.len() ==> out@[i] == element_at(GGML_TYPE_Q4_K, b@, i),
        decreases n - block,
    {
        let at: usize = block * 144;
        let d: u16 = read_u16(b, at);
        let dmin: u16 = read_u16(b, at + 2);
        let mut sub_block: usize = 0;
        while sub_block < 8
            invariant
                total == b@.len(),
                at + 144 <= total,
                at == block * 144,
                sub_block <= 8,
                d == bytes::half_at(b@, at as int),
                dmin == bytes::half_at(b@, at + 2),
                out@.len() == block * 256 + sub_block * 32,
                forall|i: int| 0 <= i < out@.len() ==> out@[i] == element_at(GGML_TYPE_Q4_K, b@, i),
            decreases 8 - sub_block,
        {
            let scales = vstd::slice::slice_subrange(b, at + 4, at + 16);
            let (scale, min) = get_scale_min_k4(sub_block, scales);
            assert((scale, min) == scale_min(b@, at + 4, sub_block as int));
            let mut l: usize = 0;
            while l < 32
                invariant
                    total == b@.len(),
                    at + 144 <= total,
                    at == block * 144,
                    sub_block < 8,
                    l <= 32,
                    d == bytes::half_at(b@, at as int),
                    dmin == bytes::half_at(b@, at + 2),
                    (scale, min) == scale_min(b@, at + 4, sub_block as int),
                    out@.len() == block * 256 + sub_block * 32 + l,
                    forall|i: int|
                        0 <= i < out@.len() ==> out@[i] == element_at(GGML_TYPE_Q4_K, b@, i),
                decreases 32 - l,
            {
                let byte: u8 = b[at + 16 + sub_block / 2 * 32 + l];
                let q: i32 = if sub_block % 2 == 1 {
                    (byte >> 4) as i32
                } else {
                    (byte & 0x0F) as i32
                };
                proof {
                    let k = sub_block * 32 + l;
                    let i = block * 256 + k;
                    assert(i / 256 == block && i % 256 == k);
                    assert(k / 32 == sub_block && k % 32 == l);
                }
                out.push(Element::ScaledMin { d, dmin, scale, min, q });
                l += 1;
            }
            sub_block += 1;
        }
        block += 1;
    }
    out
}

/// The elements of the whole blocks of `b`.
fn dequantize_q5_k(b: &[u8]) -> (out: Vec<Element>)
    ensures
        out@.len() == elements_in(GGML_TYPE_Q5_K, b@.len()),
        forall|i: int| 0 <= i < out@.len() ==> out@[i] == element_at(GGML_TYPE_Q5_K, b@, i),
{
    let total: usize = b.len();
    let n: usize = total / 176;
    let mut out: Vec<Element> = Vec::new();
    let mut block: usize = 0;
    while block < n
        invariant
            total == b@.len(),
            n == total / 176,
            block <= n,
            out@.len() == block * 256,
            forall|i: int| 0 <= i < out@.len() ==> out@[i] == element_at(GGML_TYPE_Q5_K, b@, i),
        decreases n - block,
    {
        let at: usize = block * 176;
        let d: u16 = read_u16(b, at);
        let dmin: u16 = read_u16(b, at + 2);
        let mut sub_block: usize = 0;
        while sub_block < 8
            invariant
                total == b@.len(),
                at + 176 <= total,
                at == block * 176,
                sub_block <= 8,
                d == bytes::half_at(b@, at as int),
                dmin == bytes::half_at(b@, at + 2),
                out@.len() == block * 256 + sub_block * 32,
                forall|i: int| 0 <= i < out@.len() ==> out@[i] == element_at(GGML_TYPE_Q5_K, b@, i),
            decreases 8 - sub_block,
        {
            let scales = vstd::slice::slice_subrange(b, at + 4, at + 16);
            let (scale, min) = get_scale_min_k4(sub_block, scales);
            assert((scale, min) == scale_min(b@, at + 4, sub_block as int));
            let mut l: usize = 0;
            while l < 32
                invariant
                    total == b@.len(),
                    at + 176 <= total,
                    at == block * 176,
                    sub_block < 8,
                    l <= 32,
                    d == bytes::half_at(b@, at as int),
                    dmin == bytes::half_at(b@, at + 2),
                    (scale, min) == scale_min(b@, at + 4, sub_block as int),
                    out@.len() == block * 256 + sub_block * 32 + l,
                    forall|i: int|
                        0 <= i < out@.len() ==> out@[i] == element_at(GGML_TYPE_Q5_K, b@, i),
                decreases 32 - l,
            {
                let byte: u8 = b[at + 48 + sub_block / 2 * 32 + l];
                let low: i32 = if sub_block % 2 == 1 {
                    (byte >> 4) as i32
                } else {
                    (byte & 0x0F) as i32
                };
                let high: i32 = if (b[at + 16 + l] >> (sub_block as u32)) & 1 != 0 {
                    16
                } else {
                    0
                };
                proof {
                    let k = sub_block * 32 + l;
                    let i = block * 256 + k;
                    assert(i / 256 == block && i % 256 == k);
                    assert(k / 32 == sub_block && k % 32 == l);
                }
                out.push(Element::ScaledMin { d, dmin, scale, min, q: low + high });
                l += 1;
            }
            sub_block += 1;
        }
        block += 1;
    }
    out
}

/// The elements of the whole blocks of `b`.
fn dequantize_q6_k(b: &[u8]) -> (out: Vec<Element>)
    ensures
        out@.len() == elements_in(GGML_TYPE_Q6_K, b@.len()),
        forall|i: int| 0 <= i < out@.len() ==> out@[i] == element_at(GGML_TYPE_Q6_K, b@, i),
{
    let total: usize = b.len();
    let n: usize = total / 210;
    let mut out: Vec<Element> = Vec::new();
    let mut block: usize = 0;
    while block < n
        invariant
            total == b@.len(),
            n == total / 210,
            block <= n,
            out@.len() == block * 256,
            forall|i: int| 0 <= i < out@.len() ==> out@[i] == element_at(GGML_TYPE_Q6_K, b@, i),
        decreases n - block,
    {
        let at: usize = block * 210;
        let d: u16 = read_u16(b, at + 208);
        let mut k: usize = 0;
        while k < 256
            invariant
                total == b@.len(),
                at + 210 <= total,
                at == block * 210,
                k <= 256,
                d == bytes::half_at(b@, at + 208),
                out@.len() == block * 256 + k,
                forall|i: int| 0 <= i < out@.len() ==> out@[i] == element_at(GGML_TYPE_Q6_K, b@, i),
            decreases 256 - k,
        {
            let h: usize = k / 128;
            let w: usize = k % 128 / 32;
            let l: usize = k % 32;
            let low: u8 = b[at + h * 64 + l + w % 2 * 32];
            let high: u8 = b[at + 128 + h * 32 + l];
            let nib: u8 = if w >= 2 {
                low >> 4
            } else {
                low & 0x0F
            };
            let bits: u8 = high >> ((2 * w) as u32);
            proof {
                let i = block * 256 + k;
                assert(i / 256 == block && i % 256 == k);
            }
            out.push(
                Element::ScaledTwice {
                    d,
                    signed_scale: b[at + 192 + h * 8 + l / 16 + 2 * w] as i8,
                    q: (nib | ((bits & 3) << 4)) as i32 - 32,
                },
            );
            k += 1;
        }
        block += 1;
    }
    out
}

/// The first `element_count` elements of a tensor, or as many as its whole blocks
/// hold.
pub fn dequantize(ggml_type: u32, b: &[u8], element_count: usize) -> (r: Result<
    Vec<Element>,
    QuantError,
>)
    ensures
        match r {
            Ok(out) => {
                &&& layout(ggml_type) is Some
                &&& out@.len() == (if element_count <= elements_in(ggml_type, b@.len()) {
                    element_count as nat
                } else {
                    elements_in(ggml_type, b@.len())
                })
                &&& forall|i: int|
                    0 <= i < out@.len() ==> out@[i] == element_at(ggml_type, b@, i)
            },
            Err(e) => layout(ggml_type) is None && e == (QuantError::Unsupported { ggml_type }),
        },
{
    let mut out = if ggml_type == GGML_TYPE_F32 {
        dequantize_f32_words(b)
    } else if ggml_type == GGML_TYPE_F16 {
        dequantize_halves(b)
    } else if ggml_type == GGML_TYPE_BF16 {
        dequantize_high_halves(b)
    } else if ggml_type == GGML_TYPE_Q4_0 {
        dequantize_q4_0(b)
    } else if ggml_type == GGML_TYPE_Q5_0 {
        dequantize_q5_0(b)
    } else if ggml_type == GGML_TYPE_Q8_0 {
        dequantize_q8_0(b)
    } else if ggml_type == GGML_TYPE_Q4_K {
        dequantize_q4_k(b)
    } else if ggml_type == GGML_TYPE_Q5_K {
        dequantize_q5_k(b)
    } else if ggml_type == GGML_TYPE_Q6_K {
        dequantize_q6_k(b)
    } else {
        return Err(QuantError::Unsupported { ggml_type });
    };
    out.truncate(element_count);
    Ok(out)
}

/// Whole blocks take as many bytes as there are blocks; a number of elements that makes
/// no whole blocks is refused, and so is a type that is not known.
pub proof fn blocks_are_counted(ggml_type: u32, blocks: nat, rest: nat)
    ensures
        layout(ggml_type) is None ==> byte_size(ggml_type, rest) == Err::<nat, QuantError>(
            QuantError::Unsupported { ggml_type },
        ),
        layout(ggml_type) is Some ==> {
            let (size, elems) = layout(ggml_type)->0;
            &&& byte_size(ggml_type, blocks * elems) == Ok::<nat, QuantError>(blocks * size)
            &&& 0 < rest < elems ==> byte_size(ggml_type, blocks * elems + rest) is Err
        },
{
    if layout(ggml_type) is Some {
        let (size, elems) = layout(ggml_type)->0;
        vstd::arithmetic::div_mod::lemma_fundamental_div_mod_converse(
            (blocks * elems) as int,
            elems as int,
            blocks as int,
            0,
        );
        if 0 < rest < elems {
            vstd::arithmetic::div_mod::lemma_fundamental_div_mod_converse(
                (blocks * elems + rest) as int,
                elems as int,
                blocks as int,
                rest as int,
            );
        }
    }
}

} // verus!
