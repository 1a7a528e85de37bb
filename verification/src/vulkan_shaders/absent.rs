//! What the kernels do not hold. To say that of a text it has to be spelled out, so the
//! parts of the kernels stand here once more, each in the proof about it.

use vstd::prelude::*;

use crate::occurs;
use crate::quant;
use crate::quant::GGML_TYPE_Q4_K;
use crate::text;
use crate::vulkan_shaders::matmul;
use crate::vulkan_shaders::reduce;
use crate::vulkan_shaders::reduce::{
    BLOCK_LOOP_CLOSE, ENTRY_64, FIRST_LANE_OPEN, FIRST_ROW_INDEX, FIRST_THREAD_OPEN,
    PARTIAL_INIT_LINE, PARTIAL_STORE_64_LINE, PARTIAL_WRITE_64_LINE, ROW_GROUPS_OPEN, ROW_LOCALS,
    ROW_OFFSET_LINE, SUBGROUP_ENTRY_PARAMS, SUBGROUP_LOOP_CLOSE, SUBGROUP_LOOP_OPEN,
    SUBGROUP_STORE_LINE, SUBGROUP_SUM_LINE, SUMS_DECL, TOTAL_ADD_LINE, TOTAL_INIT_LINE,
    TOTAL_WRITE_LINE, TREE_64_LINE, TREE_64_OPEN, TREE_CLOSE_WRITE_FIRST, UNROLL_LOOP_OPEN,
    UNROLL_ROW_LINE,
};
use crate::vulkan_shaders::templates::{
    BF16_COOP_MIDDLE, F16_COOP_MIDDLE, F32_COOP_MIDDLE, PACKED_CLOSE, PACKED_GUARD, PACKED_LOCALS,
    PACKED_LOOP, PACKED_OPEN, PACKED_VEC4_BASE, PACKED_VEC4_PAIR, PACKED_WORD_BASE,
    PACKED_WORD_PAIR, PRELUDE_OPEN, Q4K_PACKED_MIDDLE, Q4K_UNROLL_MIDDLE, Q4K_UNROLL_PACKED_MIDDLE,
    Q4K_WIDE_PACKED_MIDDLE, Q4_0_COOP_MIDDLE, Q4_K_COOP_MIDDLE, Q5_0_COOP_MIDDLE, Q5_K_COOP_MIDDLE,
    Q6_K_COOP_MIDDLE, Q8_0_COOP_MIDDLE, VEC4_HELPERS, VEC4_WEIGHTS, WORD_HELPERS, WORD_WEIGHTS,
};

verus! {

/// Whether a text does not hold another, and does not end with one of its characters.
pub open spec fn clean(t: Seq<char>, q: Seq<char>) -> bool {
    &&& !occurs::holds(t, q)
    &&& t.len() == 0 || !q.contains(t.last())
}

/// Clean texts are clean together.
proof fn clean_together(a: Seq<char>, b: Seq<char>, q: Seq<char>)
    requires
        q.len() > 0,
        clean(a, q),
        clean(b, q),
    ensures
        clean(a + b, q),
{
    if occurs::holds(a + b, q) {
        occurs::held_on_one_side(a, b, q);
    }
    if b.len() > 0 {
        assert((a + b).last() == b.last());
    } else {
        assert(a + b =~= a);
    }
}

/// Whether a text has no digit in it.
spec fn has_no_digit(q: Seq<char>) -> bool {
    forall|i: int| 0 <= i < q.len() ==> !('0' <= #[trigger] q[i] <= '9')
}

/// A number is clean of what has no digit.
proof fn numbers_are_clean(n: nat, q: Seq<char>)
    requires
        q.len() > 0,
        has_no_digit(q),
    ensures
        clean(text::decimal_text(n), q),
        text::decimal_text(n).len() > 0,
        occurs::shares_no_char(text::decimal_text(n), q),
{
    let t = text::decimal_text(n);
    text::decimal_reads_back(n);
    if t.contains(q[0]) {
        let i = choose|i: int| 0 <= i < t.len() && t[i] == q[0];
        assert('0' <= t[i] <= '9');
    }
    occurs::not_held(t, q);
    if q.contains(t.last()) {
        let j = choose|j: int| 0 <= j < q.len() && q[j] == t.last();
        assert('0' <= t[t.len() - 1] <= '9');
        assert(!('0' <= q[j] <= '9'));
    }
}

/// A clean line is clean for each number that is filled in.
proof fn numbered_lines_are_clean(template: Seq<char>, lo: nat, hi: nat, q: Seq<char>)
    requires
        q.len() > 0,
        has_no_digit(q),
        !q.contains('\n'),
        !occurs::holds(template, q),
        template.len() > 0,
        template.last() == '\n',
    ensures
        clean(text::numbered_lines(template, lo, hi), q),
    decreases hi,
{
    if hi <= lo {
        assert(!occurs::holds(Seq::<char>::empty(), q)) by {
            occurs::not_held(Seq::<char>::empty(), q);
        }
    } else {
        let n = (hi - 1) as nat;
        let (f, d) = ("{i}"@, text::decimal_text(n));
        numbered_lines_are_clean(template, lo, n, q);
        numbers_are_clean(n, q);
        reveal_strlit("{i}");
        occurs::none_left(template, f, d, q);
        let (front, end) = (template.drop_last(), seq!['\n']);
        assert(template =~= front + end);
        assert(!f.contains('\n'));
        occurs::replaced_in_parts(front, end, f, d);
        occurs::replaced_nothing(end, f, d);
        assert(text::numbered(template, n).last() == '\n');
        clean_together(text::numbered_lines(template, lo, n), text::numbered(template, n), q);
    }
}

/// Where a text enables something.
proof fn where_enabled(t: Seq<char>) -> (i: int)
    requires
        occurs::holds(t, "enable"@),
    ensures
        0 <= i,
        i + 6 <= t.len(),
        t[i + 0] == 'e',
        t[i + 1] == 'n',
        t[i + 2] == 'a',
        t[i + 3] == 'b',
        t[i + 4] == 'l',
        t[i + 5] == 'e',
{
    reveal_strlit("enable");
    let i = choose|i: int| text::occurs_at(t, "enable"@, i);
    assert(t.subrange(i, i + 6)[0] == t[i + 0]);
    assert(t.subrange(i, i + 6)[1] == t[i + 1]);
    assert(t.subrange(i, i + 6)[2] == t[i + 2]);
    assert(t.subrange(i, i + 6)[3] == t[i + 3]);
    assert(t.subrange(i, i + 6)[4] == t[i + 4]);
    assert(t.subrange(i, i + 6)[5] == t[i + 5]);
    i
}

/// Where a text counts groups of rows.
proof fn where_grouped(t: Seq<char>) -> (i: int)
    requires
        occurs::holds(t, "n_row_groups"@),
    ensures
        0 <= i,
        i + 12 <= t.len(),
        t[i + 0] == 'n',
        t[i + 1] == '_',
        t[i + 2] == 'r',
        t[i + 3] == 'o',
        t[i + 4] == 'w',
        t[i + 5] == '_',
        t[i + 6] == 'g',
        t[i + 7] == 'r',
        t[i + 8] == 'o',
        t[i + 9] == 'u',
        t[i + 10] == 'p',
        t[i + 11] == 's',
{
    reveal_strlit("n_row_groups");
    let i = choose|i: int| text::occurs_at(t, "n_row_groups"@, i);
    assert(t.subrange(i, i + 12)[0] == t[i + 0]);
    assert(t.subrange(i, i + 12)[1] == t[i + 1]);
    assert(t.subrange(i, i + 12)[2] == t[i + 2]);
    assert(t.subrange(i, i + 12)[3] == t[i + 3]);
    assert(t.subrange(i, i + 12)[4] == t[i + 4]);
    assert(t.subrange(i, i + 12)[5] == t[i + 5]);
    assert(t.subrange(i, i + 12)[6] == t[i + 6]);
    assert(t.subrange(i, i + 12)[7] == t[i + 7]);
    assert(t.subrange(i, i + 12)[8] == t[i + 8]);
    assert(t.subrange(i, i + 12)[9] == t[i + 9]);
    assert(t.subrange(i, i + 12)[10] == t[i + 10]);
    assert(t.subrange(i, i + 12)[11] == t[i + 11]);
    i
}

/// Where a text has a mark for a size of a tile.
proof fn where_tile_marked(t: Seq<char>) -> (i: int)
    requires
        occurs::holds(t, "%T"@),
    ensures
        0 <= i,
        i + 2 <= t.len(),
        t[i + 0] == '%',
        t[i + 1] == 'T',
{
    reveal_strlit("%T");
    let i = choose|i: int| text::occurs_at(t, "%T"@, i);
    assert(t.subrange(i, i + 2)[0] == t[i + 0]);
    assert(t.subrange(i, i + 2)[1] == t[i + 1]);
    i
}

/// Where a text has a mark for the size of a chunk.
proof fn where_chunk_marked(t: Seq<char>) -> (i: int)
    requires
        occurs::holds(t, "%C"@),
    ensures
        0 <= i,
        i + 2 <= t.len(),
        t[i + 0] == '%',
        t[i + 1] == 'C',
{
    reveal_strlit("%C");
    let i = choose|i: int| text::occurs_at(t, "%C"@, i);
    assert(t.subrange(i, i + 2)[0] == t[i + 0]);
    assert(t.subrange(i, i + 2)[1] == t[i + 1]);
    i
}

/// The parameters and the bindings of the weights.
proof fn openings_are_clean()
    ensures
        clean(PRELUDE_OPEN@, "enable"@),
        clean(PRELUDE_OPEN@, "n_row_groups"@),
        clean(PRELUDE_OPEN@, "%T"@),
        clean(PRELUDE_OPEN@, "%C"@),
        clean(WORD_WEIGHTS@, "n_row_groups"@),
        clean(WORD_WEIGHTS@, "%T"@),
        clean(WORD_WEIGHTS@, "%C"@),
        clean(VEC4_WEIGHTS@, "enable"@),
        clean(VEC4_WEIGHTS@, "n_row_groups"@),
{
    reveal_strlit("enable");
    reveal_strlit("n_row_groups");
    reveal_strlit("%T");
    reveal_strlit("%C");
    assert(clean(PRELUDE_OPEN@, "enable"@) && clean(PRELUDE_OPEN@, "n_row_groups"@) && clean(PRELUDE_OPEN@, "%T"@) && clean(PRELUDE_OPEN@, "%C"@)) by {
        reveal_strlit(
            r#"
struct Meta {
    in_dim: u32,
    out_dim: u32,
    n_tokens: u32,
    row_bytes: u32,
}

"#,
        );
        if occurs::holds(PRELUDE_OPEN@, "enable"@) {
            where_enabled(PRELUDE_OPEN@);
        }
        if occurs::holds(PRELUDE_OPEN@, "n_row_groups"@) {
            where_grouped(PRELUDE_OPEN@);
        }
        if occurs::holds(PRELUDE_OPEN@, "%T"@) {
            where_tile_marked(PRELUDE_OPEN@);
        }
        if occurs::holds(PRELUDE_OPEN@, "%C"@) {
            where_chunk_marked(PRELUDE_OPEN@);
        }
    }
    assert(clean(WORD_WEIGHTS@, "n_row_groups"@) && clean(WORD_WEIGHTS@, "%T"@) && clean(WORD_WEIGHTS@, "%C"@)) by {
        reveal_strlit(
            r#"@group(0) @binding(0) var<storage, read> weights: array<u32>;
"#,
        );
        if occurs::holds(WORD_WEIGHTS@, "n_row_groups"@) {
            where_grouped(WORD_WEIGHTS@);
        }
        if occurs::holds(WORD_WEIGHTS@, "%T"@) {
            where_tile_marked(WORD_WEIGHTS@);
        }
        if occurs::holds(WORD_WEIGHTS@, "%C"@) {
            where_chunk_marked(WORD_WEIGHTS@);
        }
    }
    assert(clean(VEC4_WEIGHTS@, "enable"@) && clean(VEC4_WEIGHTS@, "n_row_groups"@)) by {
        reveal_strlit(
            r#"@group(0) @binding(0) var<storage, read> weights: array<vec4<u32>>;
"#,
        );
        if occurs::holds(VEC4_WEIGHTS@, "enable"@) {
            where_enabled(VEC4_WEIGHTS@);
        }
        if occurs::holds(VEC4_WEIGHTS@, "n_row_groups"@) {
            where_grouped(VEC4_WEIGHTS@);
        }
    }
}

/// The other bindings and the decoders, for weights that are read as words.
proof fn word_helpers_are_clean()
    ensures
        clean(WORD_HELPERS@, "n_row_groups"@),
        clean(WORD_HELPERS@, "%T"@),
        clean(WORD_HELPERS@, "%C"@),
{
    reveal_strlit("n_row_groups");
    reveal_strlit("%T");
    reveal_strlit("%C");
    assert(clean(WORD_HELPERS@, "n_row_groups"@) && clean(WORD_HELPERS@, "%T"@) && clean(WORD_HELPERS@, "%C"@)) by {
        reveal_strlit(
            r#"@group(0) @binding(1) var<storage, read> x: array<f32>;
@group(0) @binding(2) var<storage, read_write> y: array<f32>;
@group(0) @binding(3) var<uniform> params: Meta;

fn read_u8(byte_offset: u32) -> u32 {
    let word = weights[byte_offset >> 2u];
    let shift = (byte_offset & 3u) * 8u;
    return (word >> shift) & 0xFFu;
}

// IEEE 754 binary16 -> f32: `unpack2x16float` is a core WGSL builtin that
// does the exact conversion in hardware, so this delegates to it rather
// than hand-rolling the exponent/mantissa math — bit-for-bit the same
// result as `half::f16::to_f32` for the same bits.
fn f16_to_f32(bits: u32) -> f32 {
    return unpack2x16float(bits & 0xFFFFu).x;
}

// bfloat16 -> f32: the top 16 bits of an f32, left-shifted into place —
// mirrors `quant::dequantize`'s `GGML_TYPE_BF16` arm exactly.
fn bf16_to_f32(bits: u32) -> f32 {
    return bitcast<f32>((bits & 0xFFFFu) << 16u);
}

// ggml's `get_scale_min_k4`: unpacks the 6-bit scale and 6-bit min for
// sub-block `j` (0..8) of a Q4_K/Q5_K super-block's 12-byte `scales` region
// starting at `base`. Mirrors `quant::get_scale_min_k4` exactly.
fn get_scale_min_k4(base: u32, j: u32) -> vec2<u32> {
    if (j < 4u) {
        let qj = read_u8(base + j);
        let qj4 = read_u8(base + j + 4u);
        return vec2<u32>(qj & 63u, qj4 & 63u);
    }
    let qj = read_u8(base + j);
    let qj4 = read_u8(base + j + 4u);
    let qjm4 = read_u8(base + j - 4u);
    let sc = (qj4 & 0xFu) | ((qjm4 >> 6u) << 4u);
    let m = (qj4 >> 4u) | ((qj >> 6u) << 4u);
    return vec2<u32>(sc, m);
}
"#,
        );
        if occurs::holds(WORD_HELPERS@, "n_row_groups"@) {
            where_grouped(WORD_HELPERS@);
        }
        if occurs::holds(WORD_HELPERS@, "%T"@) {
            where_tile_marked(WORD_HELPERS@);
        }
        if occurs::holds(WORD_HELPERS@, "%C"@) {
            where_chunk_marked(WORD_HELPERS@);
        }
    }
}

/// The same for wide loads.
proof fn vec4_helpers_are_clean()
    ensures
        clean(VEC4_HELPERS@, "enable"@),
        clean(VEC4_HELPERS@, "n_row_groups"@),
{
    reveal_strlit("enable");
    reveal_strlit("n_row_groups");
    assert(clean(VEC4_HELPERS@, "enable"@) && clean(VEC4_HELPERS@, "n_row_groups"@)) by {
        reveal_strlit(
            r#"@group(0) @binding(1) var<storage, read> x: array<f32>;
@group(0) @binding(2) var<storage, read_write> y: array<f32>;
@group(0) @binding(3) var<uniform> params: Meta;

fn f16_to_f32(bits: u32) -> f32 {
    return unpack2x16float(bits & 0xFFFFu).x;
}

// bfloat16 -> f32: the top 16 bits of an f32, left-shifted into place —
// mirrors `quant::dequantize`'s `GGML_TYPE_BF16` arm exactly.
fn bf16_to_f32(bits: u32) -> f32 {
    return bitcast<f32>((bits & 0xFFFFu) << 16u);
}

// WGSL supports a dynamic (non-const) index into a vector via `v[i]`, but
// this sticks to an explicit branch anyway — `idx` only ever ranges 0..4
// (or 0..3 for `vec3_word`), so the branch is cheap, and a dynamic vector
// index is avoided.
fn vec4_word(v: vec4<u32>, idx: u32) -> u32 {
    if (idx == 0u) { return v.x; }
    if (idx == 1u) { return v.y; }
    if (idx == 2u) { return v.z; }
    return v.w;
}

fn vec3_word(v: vec3<u32>, idx: u32) -> u32 {
    if (idx == 0u) { return v.x; }
    if (idx == 1u) { return v.y; }
    return v.z;
}

// Reads the little-endian u32 word starting at `byte_offset`, which must
// itself be a multiple of 4 — the caller's responsibility, same as
// `read_u8`'s own "byte_offset in range" contract in `PRELUDE`. This is
// correct for *any* word-aligned offset, whether or not the enclosing
// block itself starts at a 16-byte (`vec4`) boundary — `byte_offset / 16u`
// and `(byte_offset % 16u) / 4u` are well-defined for any non-negative
// `byte_offset`, not just ones a caller has separately proven are
// block-vec4-aligned.
fn read_word_v4(byte_offset: u32) -> u32 {
    return vec4_word(weights[byte_offset / 16u], (byte_offset % 16u) / 4u);
}

// The vec4-bound drop-in equivalent of `PRELUDE`'s `read_u8` — correct for
// *any* `byte_offset`, aligned or not.
fn read_byte_v4(byte_offset: u32) -> u32 {
    let word = read_word_v4(byte_offset - (byte_offset % 4u));
    return (word >> (8u * (byte_offset % 4u))) & 0xFFu;
}

// Reads the little-endian u32 starting at an *arbitrary* (not necessarily
// 4-byte-aligned) `byte_offset` — the standard "unaligned load via two
// aligned loads + shift" trick, needed for fields (`Q5_0`'s 4-byte `qh`)
// whose own start alignment isn't fixed the way `Q4_K`/`Q5_K`'s 16-byte
// block size makes their header alignment fixed.
fn read_word_unaligned_v4(byte_offset: u32) -> u32 {
    let shift = (byte_offset % 4u) * 8u;
    let aligned = byte_offset - (byte_offset % 4u);
    if (shift == 0u) {
        return read_word_v4(aligned);
    }
    let lo = read_word_v4(aligned);
    let hi = read_word_v4(aligned + 4u);
    return (lo >> shift) | (hi << (32u - shift));
}

// ggml's `get_scale_min_k4`, sourcing scale bytes from an already-loaded
// `vec3<u32>` (`Q4_K`/`Q5_K`'s header vec4's `.yzw`) instead of re-reading
// them from `array<u32>` via `read_u8` each time — mirrors `PRELUDE`'s own
// `get_scale_min_k4` exactly (see that function's doc comment /
// `quant::get_scale_min_k4`).
fn get_scale_min_k4_v4(scales: vec3<u32>, j: u32) -> vec2<u32> {
    if (j < 4u) {
        let qj = (vec3_word(scales, j / 4u) >> (8u * (j % 4u))) & 0xFFu;
        let qj4 = (vec3_word(scales, (j + 4u) / 4u) >> (8u * ((j + 4u) % 4u))) & 0xFFu;
        return vec2<u32>(qj & 63u, qj4 & 63u);
    }
    let qj = (vec3_word(scales, j / 4u) >> (8u * (j % 4u))) & 0xFFu;
    let qj4 = (vec3_word(scales, (j + 4u) / 4u) >> (8u * ((j + 4u) % 4u))) & 0xFFu;
    let qjm4 = (vec3_word(scales, (j - 4u) / 4u) >> (8u * ((j - 4u) % 4u))) & 0xFFu;
    let sc = (qj4 & 0xFu) | ((qjm4 >> 6u) << 4u);
    let m = (qj4 >> 4u) | ((qj >> 6u) << 4u);
    return vec2<u32>(sc, m);
}
"#,
        );
        if occurs::holds(VEC4_HELPERS@, "enable"@) {
            where_enabled(VEC4_HELPERS@);
        }
        if occurs::holds(VEC4_HELPERS@, "n_row_groups"@) {
            where_grouped(VEC4_HELPERS@);
        }
    }
}

/// The decoders of the packed-half kernels.
proof fn packed_middles_are_clean()
    ensures
        clean(Q4K_PACKED_MIDDLE@, "n_row_groups"@),
        clean(Q4K_WIDE_PACKED_MIDDLE@, "n_row_groups"@),
{
    reveal_strlit("n_row_groups");
    assert(clean(Q4K_PACKED_MIDDLE@, "n_row_groups"@)) by {
        reveal_strlit(
            r#"
// `k` must be even — `k` and `k + 1` always land in the same low/high-
// nibble half of their 64-wide group (that boundary, 32, is itself even
// and pair-aligned), so this never needs to stitch together two different
// `get_scale_min_k4` lookups for one pair.
fn dequant_pair_f16(byte_offset: u32, k: u32) -> vec2<f16> {
    let d = f16_to_f32(read_u8(byte_offset) | (read_u8(byte_offset + 1u) << 8u));
    let dmin = f16_to_f32(read_u8(byte_offset + 2u) | (read_u8(byte_offset + 3u) << 8u));
    let scales_off = byte_offset + 4u;
    let qs_off = byte_offset + 16u;
    let q_offset = (k / 64u) * 64u;
    let local_in_group = k % 64u;
    let is_base = (q_offset / 64u) * 2u;
    let q_base = qs_off + q_offset / 2u;
    if (local_in_group < 32u) {
        let byte0 = read_u8(q_base + local_in_group);
        let byte1 = read_u8(q_base + local_in_group + 1u);
        let sm = get_scale_min_k4(scales_off, is_base);
        let d1 = d * f32(sm.x);
        let m1 = dmin * f32(sm.y);
        return vec2<f16>(
            f16(d1 * f32(byte0 & 0xFu) - m1),
            f16(d1 * f32(byte1 & 0xFu) - m1),
        );
    }
    let l = local_in_group - 32u;
    let byte0 = read_u8(q_base + l);
    let byte1 = read_u8(q_base + l + 1u);
    let sm = get_scale_min_k4(scales_off, is_base + 1u);
    let d2 = d * f32(sm.x);
    let m2 = dmin * f32(sm.y);
    return vec2<f16>(
        f16(d2 * f32(byte0 >> 4u) - m2),
        f16(d2 * f32(byte1 >> 4u) - m2),
    );
}
"#,
        );
        if occurs::holds(Q4K_PACKED_MIDDLE@, "n_row_groups"@) {
            where_grouped(Q4K_PACKED_MIDDLE@);
        }
    }
    assert(clean(Q4K_WIDE_PACKED_MIDDLE@, "n_row_groups"@)) by {
        reveal_strlit(
            r#"
fn qs_byte_q4k_packed(vec4_base: u32, qi: u32) -> u32 {
    let v4i = vec4_base + 1u + qi / 16u;
    let word = vec4_word(weights[v4i], (qi % 16u) / 4u);
    return (word >> (8u * (qi % 4u))) & 0xFFu;
}

// `k` must be even — mirrors `shader_source_reduce_q4k_packed_f16`'s own
// `dequant_pair_f16` exactly (see its doc comment for why `k`/`k+1` always
// share one nibble half); only the byte source differs.
fn dequant_pair_f16(vec4_base: u32, k: u32) -> vec2<f16> {
    let header = weights[vec4_base];
    let d = f16_to_f32(header.x & 0xFFFFu);
    let dmin = f16_to_f32(header.x >> 16u);
    let scales = vec3<u32>(header.y, header.z, header.w);
    let q_offset = (k / 64u) * 64u;
    let local_in_group = k % 64u;
    let is_base = (q_offset / 64u) * 2u;
    let qi_base = q_offset / 2u;
    if (local_in_group < 32u) {
        let byte0 = qs_byte_q4k_packed(vec4_base, qi_base + local_in_group);
        let byte1 = qs_byte_q4k_packed(vec4_base, qi_base + local_in_group + 1u);
        let sm = get_scale_min_k4_v4(scales, is_base);
        let d1 = d * f32(sm.x);
        let m1 = dmin * f32(sm.y);
        return vec2<f16>(
            f16(d1 * f32(byte0 & 0xFu) - m1),
            f16(d1 * f32(byte1 & 0xFu) - m1),
        );
    }
    let l = local_in_group - 32u;
    let byte0 = qs_byte_q4k_packed(vec4_base, qi_base + l);
    let byte1 = qs_byte_q4k_packed(vec4_base, qi_base + l + 1u);
    let sm = get_scale_min_k4_v4(scales, is_base + 1u);
    let d2 = d * f32(sm.x);
    let m2 = dmin * f32(sm.y);
    return vec2<f16>(
        f16(d2 * f32(byte0 >> 4u) - m2),
        f16(d2 * f32(byte1 >> 4u) - m2),
    );
}
"#,
        );
        if occurs::holds(Q4K_WIDE_PACKED_MIDDLE@, "n_row_groups"@) {
            where_grouped(Q4K_WIDE_PACKED_MIDDLE@);
        }
    }
}

/// The decoders of the block-unroll kernels.
proof fn unroll_middles_are_clean()
    ensures
        clean(Q4K_UNROLL_MIDDLE@, "enable"@),
        clean(Q4K_UNROLL_PACKED_MIDDLE@, "enable"@),
{
    reveal_strlit("enable");
    assert(clean(Q4K_UNROLL_MIDDLE@, "enable"@)) by {
        reveal_strlit(
            r#"
fn qs_byte_q4k(vec4_base: u32, qi: u32) -> u32 {
    let v4i = vec4_base + 1u + qi / 16u;
    let word = vec4_word(weights[v4i], (qi % 16u) / 4u);
    return (word >> (8u * (qi % 4u))) & 0xFFu;
}

fn q4k_elem(d: f32, dmin: f32, scales: vec3<u32>, g: u32, is_low: bool, byte: u32) -> f32 {
    let is_idx = g * 2u + select(1u, 0u, is_low);
    let sm = get_scale_min_k4_v4(scales, is_idx);
    let dd = d * f32(sm.x);
    let mm = dmin * f32(sm.y);
    let nib = select(byte >> 4u, byte & 0xFu, is_low);
    return dd * f32(nib) - mm;
}

fn block_dot(byte_offset: u32, local: u32, x0: f32, x1: f32, x2: f32, x3: f32) -> f32 {
    let is_low = local < 32u;
    let qsi = select(local - 32u, local, is_low);
    let vec4_base = byte_offset / 16u;
    let header = weights[vec4_base];
    let d = f16_to_f32(header.x & 0xFFFFu);
    let dmin = f16_to_f32(header.x >> 16u);
    let scales = vec3<u32>(header.y, header.z, header.w);
    let b0 = qs_byte_q4k(vec4_base, qsi);
    let b1 = qs_byte_q4k(vec4_base, 32u + qsi);
    let b2 = qs_byte_q4k(vec4_base, 64u + qsi);
    let b3 = qs_byte_q4k(vec4_base, 96u + qsi);
    return q4k_elem(d, dmin, scales, 0u, is_low, b0) * x0
         + q4k_elem(d, dmin, scales, 1u, is_low, b1) * x1
         + q4k_elem(d, dmin, scales, 2u, is_low, b2) * x2
         + q4k_elem(d, dmin, scales, 3u, is_low, b3) * x3;
}
"#,
        );
        if occurs::holds(Q4K_UNROLL_MIDDLE@, "enable"@) {
            where_enabled(Q4K_UNROLL_MIDDLE@);
        }
    }
    assert(clean(Q4K_UNROLL_PACKED_MIDDLE@, "enable"@)) by {
        reveal_strlit(
            r#"
fn qs_byte_q4k(vec4_base: u32, qi: u32) -> u32 {
    let v4i = vec4_base + 1u + qi / 16u;
    let word = vec4_word(weights[v4i], (qi % 16u) / 4u);
    return (word >> (8u * (qi % 4u))) & 0xFFu;
}

fn q4k_elem(d: f32, dmin: f32, scales: vec3<u32>, g: u32, is_low: bool, byte: u32) -> f32 {
    let is_idx = g * 2u + select(1u, 0u, is_low);
    let sm = get_scale_min_k4_v4(scales, is_idx);
    let dd = d * f32(sm.x);
    let mm = dmin * f32(sm.y);
    let nib = select(byte >> 4u, byte & 0xFu, is_low);
    return dd * f32(nib) - mm;
}

fn block_dot(byte_offset: u32, local: u32, x0: f32, x1: f32, x2: f32, x3: f32) -> f32 {
    let is_low = local < 32u;
    let qsi = select(local - 32u, local, is_low);
    let vec4_base = byte_offset / 16u;
    let header = weights[vec4_base];
    let d = f16_to_f32(header.x & 0xFFFFu);
    let dmin = f16_to_f32(header.x >> 16u);
    let scales = vec3<u32>(header.y, header.z, header.w);
    let b0 = qs_byte_q4k(vec4_base, qsi);
    let b1 = qs_byte_q4k(vec4_base, 32u + qsi);
    let b2 = qs_byte_q4k(vec4_base, 64u + qsi);
    let b3 = qs_byte_q4k(vec4_base, 96u + qsi);
    let e0 = q4k_elem(d, dmin, scales, 0u, is_low, b0);
    let e1 = q4k_elem(d, dmin, scales, 1u, is_low, b1);
    let e2 = q4k_elem(d, dmin, scales, 2u, is_low, b2);
    let e3 = q4k_elem(d, dmin, scales, 3u, is_low, b3);
    let w01 = vec2<f16>(f16(e0), f16(e1));
    let w23 = vec2<f16>(f16(e2), f16(e3));
    let x01 = vec2<f16>(f16(x0), f16(x1));
    let x23 = vec2<f16>(f16(x2), f16(x3));
    return f32(dot(w01, x01)) + f32(dot(w23, x23));
}
"#,
        );
        if occurs::holds(Q4K_UNROLL_PACKED_MIDDLE@, "enable"@) {
            where_enabled(Q4K_UNROLL_PACKED_MIDDLE@);
        }
    }
}

/// The entry points of the packed-half kernels.
proof fn packed_entries_are_clean()
    ensures
        clean(PACKED_OPEN@, "n_row_groups"@),
        clean(PACKED_GUARD@, "n_row_groups"@),
        clean(PACKED_LOCALS@, "n_row_groups"@),
        clean(PACKED_WORD_BASE@, "n_row_groups"@),
        clean(PACKED_VEC4_BASE@, "n_row_groups"@),
        clean(PACKED_LOOP@, "n_row_groups"@),
        clean(PACKED_WORD_PAIR@, "n_row_groups"@),
        clean(PACKED_VEC4_PAIR@, "n_row_groups"@),
        clean(PACKED_CLOSE@, "n_row_groups"@),
{
    reveal_strlit("n_row_groups");
    assert(clean(PACKED_OPEN@, "n_row_groups"@)) by {
        reveal_strlit(
            r#"
var<workgroup> partial_sums: array<f32, 64>;

@compute @workgroup_size(64)
fn main(
    @builtin(workgroup_id) wid: vec3<u32>,
    @builtin(local_invocation_id) lid: vec3<u32>,
    @builtin(num_workgroups) nwg: vec3<u32>,
) {
    let flat = wid.x + wid.y * nwg.x + wid.z * nwg.x * nwg.y;
"#,
        );
        if occurs::holds(PACKED_OPEN@, "n_row_groups"@) {
            where_grouped(PACKED_OPEN@);
        }
    }
    assert(clean(PACKED_GUARD@, "n_row_groups"@)) by {
        reveal_strlit(
            r#"    if (flat >= params.out_dim * params.n_tokens) {
"#,
        );
        if occurs::holds(PACKED_GUARD@, "n_row_groups"@) {
            where_grouped(PACKED_GUARD@);
        }
    }
    assert(clean(PACKED_LOCALS@, "n_row_groups"@)) by {
        reveal_strlit(
            r#"        return;
    }
    let o = flat / params.n_tokens;
    let t = flat % params.n_tokens;
    let local = lid.x;
"#,
        );
        if occurs::holds(PACKED_LOCALS@, "n_row_groups"@) {
            where_grouped(PACKED_LOCALS@);
        }
    }
    assert(clean(PACKED_WORD_BASE@, "n_row_groups"@)) by {
        reveal_strlit(
            r#"    let row_byte_base = o * params.row_bytes;
"#,
        );
        if occurs::holds(PACKED_WORD_BASE@, "n_row_groups"@) {
            where_grouped(PACKED_WORD_BASE@);
        }
    }
    assert(clean(PACKED_VEC4_BASE@, "n_row_groups"@)) by {
        reveal_strlit(
            r#"    let row_vec4_base = (o * params.row_bytes) / 16u;
"#,
        );
        if occurs::holds(PACKED_VEC4_BASE@, "n_row_groups"@) {
            where_grouped(PACKED_VEC4_BASE@);
        }
    }
    assert(clean(PACKED_LOOP@, "n_row_groups"@)) by {
        reveal_strlit(
            r#"    let x_base = t * params.in_dim;

    var partial: f32 = 0.0;
    var k: u32 = local * 2u;
    loop {
        if (k >= params.in_dim) {
            break;
        }
        let block_idx = k / BLOCK_ELEMS;
        let local_k = k % BLOCK_ELEMS;
"#,
        );
        if occurs::holds(PACKED_LOOP@, "n_row_groups"@) {
            where_grouped(PACKED_LOOP@);
        }
    }
    assert(clean(PACKED_WORD_PAIR@, "n_row_groups"@)) by {
        reveal_strlit(
            r#"        let wv = dequant_pair_f16(row_byte_base + block_idx * BLOCK_BYTES, local_k);
"#,
        );
        if occurs::holds(PACKED_WORD_PAIR@, "n_row_groups"@) {
            where_grouped(PACKED_WORD_PAIR@);
        }
    }
    assert(clean(PACKED_VEC4_PAIR@, "n_row_groups"@)) by {
        reveal_strlit(
            r#"        let block_vec4_base = row_vec4_base + block_idx * (BLOCK_BYTES / 16u);
        let wv = dequant_pair_f16(block_vec4_base, local_k);
"#,
        );
        if occurs::holds(PACKED_VEC4_PAIR@, "n_row_groups"@) {
            where_grouped(PACKED_VEC4_PAIR@);
        }
    }
    assert(clean(PACKED_CLOSE@, "n_row_groups"@)) by {
        reveal_strlit(
            r#"        let xv = vec2<f16>(f16(x[x_base + k]), f16(x[x_base + k + 1u]));
        partial = partial + f32(dot(wv, xv));
        k = k + 128u;
    }

    partial_sums[local] = partial;
    workgroupBarrier();
    var stride: u32 = 32u;
    loop {
        if (stride == 0u) {
            break;
        }
        if (local < stride) {
            partial_sums[local] = partial_sums[local] + partial_sums[local + stride];
        }
        workgroupBarrier();
        stride = stride / 2u;
    }
    if (local == 0u) {
        y[t * params.out_dim + o] = partial_sums[0];
    }
}
"#,
        );
        if occurs::holds(PACKED_CLOSE@, "n_row_groups"@) {
            where_grouped(PACKED_CLOSE@);
        }
    }
}

/// The decoders of the types without super-blocks.
proof fn small_decoders_are_clean()
    ensures
        clean(F32_COOP_MIDDLE@, "%T"@),
        clean(F32_COOP_MIDDLE@, "%C"@),
        clean(F16_COOP_MIDDLE@, "%T"@),
        clean(F16_COOP_MIDDLE@, "%C"@),
        clean(BF16_COOP_MIDDLE@, "%T"@),
        clean(BF16_COOP_MIDDLE@, "%C"@),
        clean(Q4_0_COOP_MIDDLE@, "%T"@),
        clean(Q4_0_COOP_MIDDLE@, "%C"@),
        clean(Q5_0_COOP_MIDDLE@, "%T"@),
        clean(Q5_0_COOP_MIDDLE@, "%C"@),
        clean(Q8_0_COOP_MIDDLE@, "%T"@),
        clean(Q8_0_COOP_MIDDLE@, "%C"@),
{
    reveal_strlit("%T");
    reveal_strlit("%C");
    assert(clean(F32_COOP_MIDDLE@, "%T"@) && clean(F32_COOP_MIDDLE@, "%C"@)) by {
        reveal_strlit(
            r#"var<workgroup> shared_vals: array<f32, BLOCK_ELEMS>;
fn dequant_element(byte_offset: u32, k: u32) -> f32 {
    let bits = read_u8(byte_offset) | (read_u8(byte_offset + 1u) << 8u)
        | (read_u8(byte_offset + 2u) << 16u) | (read_u8(byte_offset + 3u) << 24u);
    return bitcast<f32>(bits);
}
"#,
        );
        if occurs::holds(F32_COOP_MIDDLE@, "%T"@) {
            where_tile_marked(F32_COOP_MIDDLE@);
        }
        if occurs::holds(F32_COOP_MIDDLE@, "%C"@) {
            where_chunk_marked(F32_COOP_MIDDLE@);
        }
    }
    assert(clean(F16_COOP_MIDDLE@, "%T"@) && clean(F16_COOP_MIDDLE@, "%C"@)) by {
        reveal_strlit(
            r#"var<workgroup> shared_vals: array<f32, BLOCK_ELEMS>;
fn dequant_element(byte_offset: u32, k: u32) -> f32 {
    let bits = read_u8(byte_offset) | (read_u8(byte_offset + 1u) << 8u);
    return f16_to_f32(bits);
}
"#,
        );
        if occurs::holds(F16_COOP_MIDDLE@, "%T"@) {
            where_tile_marked(F16_COOP_MIDDLE@);
        }
        if occurs::holds(F16_COOP_MIDDLE@, "%C"@) {
            where_chunk_marked(F16_COOP_MIDDLE@);
        }
    }
    assert(clean(BF16_COOP_MIDDLE@, "%T"@) && clean(BF16_COOP_MIDDLE@, "%C"@)) by {
        reveal_strlit(
            r#"var<workgroup> shared_vals: array<f32, BLOCK_ELEMS>;
fn dequant_element(byte_offset: u32, k: u32) -> f32 {
    let bits = read_u8(byte_offset) | (read_u8(byte_offset + 1u) << 8u);
    return bf16_to_f32(bits);
}
"#,
        );
        if occurs::holds(BF16_COOP_MIDDLE@, "%T"@) {
            where_tile_marked(BF16_COOP_MIDDLE@);
        }
        if occurs::holds(BF16_COOP_MIDDLE@, "%C"@) {
            where_chunk_marked(BF16_COOP_MIDDLE@);
        }
    }
    assert(clean(Q4_0_COOP_MIDDLE@, "%T"@) && clean(Q4_0_COOP_MIDDLE@, "%C"@)) by {
        reveal_strlit(
            r#"var<workgroup> shared_vals: array<f32, BLOCK_ELEMS>;
fn dequant_element(byte_offset: u32, k: u32) -> f32 {
    let d = f16_to_f32(read_u8(byte_offset) | (read_u8(byte_offset + 1u) << 8u));
    if (k < 16u) {
        let byte = read_u8(byte_offset + 2u + k);
        return f32(i32(byte & 0xFu) - 8) * d;
    }
    let byte = read_u8(byte_offset + 2u + (k - 16u));
    return f32(i32(byte >> 4u) - 8) * d;
}
"#,
        );
        if occurs::holds(Q4_0_COOP_MIDDLE@, "%T"@) {
            where_tile_marked(Q4_0_COOP_MIDDLE@);
        }
        if occurs::holds(Q4_0_COOP_MIDDLE@, "%C"@) {
            where_chunk_marked(Q4_0_COOP_MIDDLE@);
        }
    }
    assert(clean(Q5_0_COOP_MIDDLE@, "%T"@) && clean(Q5_0_COOP_MIDDLE@, "%C"@)) by {
        reveal_strlit(
            r#"var<workgroup> shared_vals: array<f32, BLOCK_ELEMS>;
fn dequant_element(byte_offset: u32, k: u32) -> f32 {
    let d = f16_to_f32(read_u8(byte_offset) | (read_u8(byte_offset + 1u) << 8u));
    let qh = read_u8(byte_offset + 2u) | (read_u8(byte_offset + 3u) << 8u)
        | (read_u8(byte_offset + 4u) << 16u) | (read_u8(byte_offset + 5u) << 24u);
    if (k < 16u) {
        let byte = read_u8(byte_offset + 6u + k);
        let xh_0 = ((qh >> k) << 4u) & 0x10u;
        return f32(i32((byte & 0xFu) | xh_0) - 16) * d;
    }
    let j = k - 16u;
    let byte = read_u8(byte_offset + 6u + j);
    let xh_1 = (qh >> (j + 12u)) & 0x10u;
    return f32(i32((byte >> 4u) | xh_1) - 16) * d;
}
"#,
        );
        if occurs::holds(Q5_0_COOP_MIDDLE@, "%T"@) {
            where_tile_marked(Q5_0_COOP_MIDDLE@);
        }
        if occurs::holds(Q5_0_COOP_MIDDLE@, "%C"@) {
            where_chunk_marked(Q5_0_COOP_MIDDLE@);
        }
    }
    assert(clean(Q8_0_COOP_MIDDLE@, "%T"@) && clean(Q8_0_COOP_MIDDLE@, "%C"@)) by {
        reveal_strlit(
            r#"var<workgroup> shared_vals: array<f32, BLOCK_ELEMS>;
fn dequant_element(byte_offset: u32, k: u32) -> f32 {
    let d = f16_to_f32(read_u8(byte_offset) | (read_u8(byte_offset + 1u) << 8u));
    let byte = read_u8(byte_offset + 2u + k);
    var v: i32 = i32(byte);
    if (v >= 128) {
        v = v - 256;
    }
    return f32(v) * d;
}
"#,
        );
        if occurs::holds(Q8_0_COOP_MIDDLE@, "%T"@) {
            where_tile_marked(Q8_0_COOP_MIDDLE@);
        }
        if occurs::holds(Q8_0_COOP_MIDDLE@, "%C"@) {
            where_chunk_marked(Q8_0_COOP_MIDDLE@);
        }
    }
}

/// The decoders of the types with super-blocks.
proof fn super_decoders_are_clean()
    ensures
        clean(Q4_K_COOP_MIDDLE@, "%T"@),
        clean(Q4_K_COOP_MIDDLE@, "%C"@),
        clean(Q5_K_COOP_MIDDLE@, "%T"@),
        clean(Q5_K_COOP_MIDDLE@, "%C"@),
        clean(Q6_K_COOP_MIDDLE@, "%T"@),
        clean(Q6_K_COOP_MIDDLE@, "%C"@),
{
    reveal_strlit("%T");
    reveal_strlit("%C");
    assert(clean(Q4_K_COOP_MIDDLE@, "%T"@) && clean(Q4_K_COOP_MIDDLE@, "%C"@)) by {
        reveal_strlit(
            r#"var<workgroup> shared_vals: array<f32, BLOCK_ELEMS>;
fn dequant_element(byte_offset: u32, k: u32) -> f32 {
    let d = f16_to_f32(read_u8(byte_offset) | (read_u8(byte_offset + 1u) << 8u));
    let dmin = f16_to_f32(read_u8(byte_offset + 2u) | (read_u8(byte_offset + 3u) << 8u));
    let scales_off = byte_offset + 4u;
    let qs_off = byte_offset + 16u;
    let q_offset = (k / 64u) * 64u;
    let local_in_group = k % 64u;
    let is_base = (q_offset / 64u) * 2u;
    let q_base = qs_off + q_offset / 2u;
    if (local_in_group < 32u) {
        let byte = read_u8(q_base + local_in_group);
        let sm = get_scale_min_k4(scales_off, is_base);
        let d1 = d * f32(sm.x);
        let m1 = dmin * f32(sm.y);
        return d1 * f32(byte & 0xFu) - m1;
    }
    let l = local_in_group - 32u;
    let byte = read_u8(q_base + l);
    let sm = get_scale_min_k4(scales_off, is_base + 1u);
    let d2 = d * f32(sm.x);
    let m2 = dmin * f32(sm.y);
    return d2 * f32(byte >> 4u) - m2;
}
"#,
        );
        if occurs::holds(Q4_K_COOP_MIDDLE@, "%T"@) {
            where_tile_marked(Q4_K_COOP_MIDDLE@);
        }
        if occurs::holds(Q4_K_COOP_MIDDLE@, "%C"@) {
            where_chunk_marked(Q4_K_COOP_MIDDLE@);
        }
    }
    assert(clean(Q5_K_COOP_MIDDLE@, "%T"@) && clean(Q5_K_COOP_MIDDLE@, "%C"@)) by {
        reveal_strlit(
            r#"var<workgroup> shared_vals: array<f32, BLOCK_ELEMS>;
fn dequant_element(byte_offset: u32, k: u32) -> f32 {
    let d = f16_to_f32(read_u8(byte_offset) | (read_u8(byte_offset + 1u) << 8u));
    let dmin = f16_to_f32(read_u8(byte_offset + 2u) | (read_u8(byte_offset + 3u) << 8u));
    let scales_off = byte_offset + 4u;
    let qh_off = byte_offset + 16u;
    let qs_off = byte_offset + 48u;
    let q_offset = (k / 64u) * 64u;
    let idx = q_offset / 64u;
    let local_in_group = k % 64u;
    let is_base = idx * 2u;
    let ql_offset = idx * 32u;
    let u1 = 1u << (2u * idx);
    let u2 = 2u << (2u * idx);
    if (local_in_group < 32u) {
        let l = local_in_group;
        let byte = read_u8(qs_off + ql_offset + l);
        let qhbyte = read_u8(qh_off + l);
        var hi_bit: i32 = 0;
        if ((qhbyte & u1) != 0u) {
            hi_bit = 16;
        }
        let sm = get_scale_min_k4(scales_off, is_base);
        let d1 = d * f32(sm.x);
        let m1 = dmin * f32(sm.y);
        return d1 * f32(i32(byte & 0xFu) + hi_bit) - m1;
    }
    let l = local_in_group - 32u;
    let byte = read_u8(qs_off + ql_offset + l);
    let qhbyte = read_u8(qh_off + l);
    var hi_bit: i32 = 0;
    if ((qhbyte & u2) != 0u) {
        hi_bit = 16;
    }
    let sm = get_scale_min_k4(scales_off, is_base + 1u);
    let d2 = d * f32(sm.x);
    let m2 = dmin * f32(sm.y);
    return d2 * f32(i32(byte >> 4u) + hi_bit) - m2;
}
"#,
        );
        if occurs::holds(Q5_K_COOP_MIDDLE@, "%T"@) {
            where_tile_marked(Q5_K_COOP_MIDDLE@);
        }
        if occurs::holds(Q5_K_COOP_MIDDLE@, "%C"@) {
            where_chunk_marked(Q5_K_COOP_MIDDLE@);
        }
    }
    assert(clean(Q6_K_COOP_MIDDLE@, "%T"@) && clean(Q6_K_COOP_MIDDLE@, "%C"@)) by {
        reveal_strlit(
            r#"var<workgroup> shared_vals: array<f32, BLOCK_ELEMS>;
fn dequant_element(byte_offset: u32, k: u32) -> f32 {
    let ql_off = byte_offset;
    let qh_off = byte_offset + 128u;
    let sc_off = byte_offset + 192u;
    let d = f16_to_f32(read_u8(byte_offset + 208u) | (read_u8(byte_offset + 209u) << 8u));
    let y_off = (k / 128u) * 128u;
    let idx = y_off / 128u;
    let local_in_group = k % 128u;
    let which_q = local_in_group / 32u;
    let l = local_in_group % 32u;
    let ql_o = idx * 64u;
    let qh_o = idx * 32u;
    let sc_o = idx * 8u;
    let is = l / 16u;
    let ql_l = read_u8(ql_off + ql_o + l);
    let ql_l32 = read_u8(ql_off + ql_o + l + 32u);
    let qh_l = read_u8(qh_off + qh_o + l);
    var q: i32;
    var sc_idx: u32;
    if (which_q == 0u) {
        q = i32((ql_l & 0xFu) | ((qh_l & 3u) << 4u)) - 32;
        sc_idx = is;
    } else if (which_q == 1u) {
        q = i32((ql_l32 & 0xFu) | (((qh_l >> 2u) & 3u) << 4u)) - 32;
        sc_idx = is + 2u;
    } else if (which_q == 2u) {
        q = i32((ql_l >> 4u) | (((qh_l >> 4u) & 3u) << 4u)) - 32;
        sc_idx = is + 4u;
    } else {
        q = i32((ql_l32 >> 4u) | (((qh_l >> 6u) & 3u) << 4u)) - 32;
        sc_idx = is + 6u;
    }
    var sc: i32 = i32(read_u8(sc_off + sc_o + sc_idx));
    if (sc >= 128) {
        sc = sc - 256;
    }
    return d * f32(sc) * f32(q);
}
"#,
        );
        if occurs::holds(Q6_K_COOP_MIDDLE@, "%T"@) {
            where_tile_marked(Q6_K_COOP_MIDDLE@);
        }
        if occurs::holds(Q6_K_COOP_MIDDLE@, "%C"@) {
            where_chunk_marked(Q6_K_COOP_MIDDLE@);
        }
    }
}

/// What the entry points of the block-unroll kernels have once.
proof fn unroll_parts_are_clean()
    ensures
        clean(SUMS_DECL@, "enable"@),
        clean(ENTRY_64@, "enable"@),
        clean(SUBGROUP_ENTRY_PARAMS@, "enable"@),
        clean(ROW_GROUPS_OPEN@, "enable"@),
        clean(FIRST_ROW_INDEX@, "enable"@),
        clean(ROW_LOCALS@, "enable"@),
        clean(UNROLL_LOOP_OPEN@, "enable"@),
        clean(BLOCK_LOOP_CLOSE@, "enable"@),
        clean(FIRST_LANE_OPEN@, "enable"@),
        clean(FIRST_THREAD_OPEN@, "enable"@),
        clean(SUBGROUP_LOOP_OPEN@, "enable"@),
        clean(SUBGROUP_LOOP_CLOSE@, "enable"@),
        clean(TREE_64_OPEN@, "enable"@),
        clean(TREE_CLOSE_WRITE_FIRST@, "enable"@),
{
    reveal_strlit("enable");
    assert(clean(SUMS_DECL@, "enable"@)) by {
        reveal_strlit(
            r#"var<workgroup> partial_sums: array<f32, "#,
        );
        if occurs::holds(SUMS_DECL@, "enable"@) {
            where_enabled(SUMS_DECL@);
        }
    }
    assert(clean(ENTRY_64@, "enable"@)) by {
        reveal_strlit(
            r#">;

@compute @workgroup_size(64)
fn main(
    @builtin(workgroup_id) wid: vec3<u32>,
    @builtin(local_invocation_id) lid: vec3<u32>,
    @builtin(num_workgroups) nwg: vec3<u32>,"#,
        );
        if occurs::holds(ENTRY_64@, "enable"@) {
            where_enabled(ENTRY_64@);
        }
    }
    assert(clean(SUBGROUP_ENTRY_PARAMS@, "enable"@)) by {
        reveal_strlit(
            r#"
    @builtin(subgroup_invocation_id) sg_lane: u32,
    @builtin(subgroup_id) sg_id: u32,
    @builtin(num_subgroups) n_sg: u32,"#,
        );
        if occurs::holds(SUBGROUP_ENTRY_PARAMS@, "enable"@) {
            where_enabled(SUBGROUP_ENTRY_PARAMS@);
        }
    }
    assert(clean(ROW_GROUPS_OPEN@, "enable"@)) by {
        reveal_strlit(
            r#"
) {
    let n_row_groups = (params.out_dim + "#,
        );
        if occurs::holds(ROW_GROUPS_OPEN@, "enable"@) {
            where_enabled(ROW_GROUPS_OPEN@);
        }
    }
    assert(clean(FIRST_ROW_INDEX@, "enable"@)) by {
        reveal_strlit(
            r#"u;
    let flat = wid.x + wid.y * nwg.x + wid.z * nwg.x * nwg.y;
    if (flat >= n_row_groups * params.n_tokens) {
        return;
    }
    let rg = flat / params.n_tokens;
    let t = flat % params.n_tokens;
    let o0 = rg * "#,
        );
        if occurs::holds(FIRST_ROW_INDEX@, "enable"@) {
            where_enabled(FIRST_ROW_INDEX@);
        }
    }
    assert(clean(ROW_LOCALS@, "enable"@)) by {
        reveal_strlit(
            r#"    let local = lid.x;
    let x_base = t * params.in_dim;

"#,
        );
        if occurs::holds(ROW_LOCALS@, "enable"@) {
            where_enabled(ROW_LOCALS@);
        }
    }
    assert(clean(UNROLL_LOOP_OPEN@, "enable"@)) by {
        reveal_strlit(
            r#"
    let n_blocks = params.in_dim / BLOCK_ELEMS;
    var b: u32 = 0u;
    loop {
        if (b >= n_blocks) {
            break;
        }
        let block_off = b * BLOCK_BYTES;
        let x_blk = x_base + b * BLOCK_ELEMS;
        let x0 = x[x_blk + local];
        let x1 = x[x_blk + 64u + local];
        let x2 = x[x_blk + 128u + local];
        let x3 = x[x_blk + 192u + local];
        partial0 = partial0 + block_dot(o0 * params.row_bytes + block_off, local, x0, x1, x2, x3);
"#,
        );
        if occurs::holds(UNROLL_LOOP_OPEN@, "enable"@) {
            where_enabled(UNROLL_LOOP_OPEN@);
        }
    }
    assert(clean(BLOCK_LOOP_CLOSE@, "enable"@)) by {
        reveal_strlit(
            r#"        b = b + 1u;
    }

"#,
        );
        if occurs::holds(BLOCK_LOOP_CLOSE@, "enable"@) {
            where_enabled(BLOCK_LOOP_CLOSE@);
        }
    }
    assert(clean(FIRST_LANE_OPEN@, "enable"@)) by {
        reveal_strlit(
            r#"    if (sg_lane == 0u) {
"#,
        );
        if occurs::holds(FIRST_LANE_OPEN@, "enable"@) {
            where_enabled(FIRST_LANE_OPEN@);
        }
    }
    assert(clean(FIRST_THREAD_OPEN@, "enable"@)) by {
        reveal_strlit(
            r#"    }
    workgroupBarrier();
    if (local == 0u) {
"#,
        );
        if occurs::holds(FIRST_THREAD_OPEN@, "enable"@) {
            where_enabled(FIRST_THREAD_OPEN@);
        }
    }
    assert(clean(SUBGROUP_LOOP_OPEN@, "enable"@)) by {
        reveal_strlit(
            r#"        var i: u32 = 0u;
        loop {
            if (i >= n_sg) {
                break;
            }
"#,
        );
        if occurs::holds(SUBGROUP_LOOP_OPEN@, "enable"@) {
            where_enabled(SUBGROUP_LOOP_OPEN@);
        }
    }
    assert(clean(SUBGROUP_LOOP_CLOSE@, "enable"@)) by {
        reveal_strlit(
            r#"            i = i + 1u;
        }
        y[t * params.out_dim + o0] = t0;
"#,
        );
        if occurs::holds(SUBGROUP_LOOP_CLOSE@, "enable"@) {
            where_enabled(SUBGROUP_LOOP_CLOSE@);
        }
    }
    assert(clean(TREE_64_OPEN@, "enable"@)) by {
        reveal_strlit(
            r#"    workgroupBarrier();
    var stride: u32 = 32u;
    loop {
        if (stride == 0u) {
            break;
        }
        if (local < stride) {
"#,
        );
        if occurs::holds(TREE_64_OPEN@, "enable"@) {
            where_enabled(TREE_64_OPEN@);
        }
    }
    assert(clean(TREE_CLOSE_WRITE_FIRST@, "enable"@)) by {
        reveal_strlit(
            r#"        }
        workgroupBarrier();
        stride = stride / 2u;
    }
    if (local == 0u) {
        y[t * params.out_dim + o0] = partial_sums[0];
"#,
        );
        if occurs::holds(TREE_CLOSE_WRITE_FIRST@, "enable"@) {
            where_enabled(TREE_CLOSE_WRITE_FIRST@);
        }
    }
}

/// What they have for each row.
proof fn unroll_lines_are_clean()
    ensures
        clean(ROW_OFFSET_LINE@, "enable"@),
        clean(PARTIAL_INIT_LINE@, "enable"@),
        clean(UNROLL_ROW_LINE@, "enable"@),
        clean(SUBGROUP_SUM_LINE@, "enable"@),
        clean(SUBGROUP_STORE_LINE@, "enable"@),
        clean(TOTAL_INIT_LINE@, "enable"@),
        clean(TOTAL_ADD_LINE@, "enable"@),
        clean(TOTAL_WRITE_LINE@, "enable"@),
        clean(PARTIAL_STORE_64_LINE@, "enable"@),
        clean(TREE_64_LINE@, "enable"@),
        clean(PARTIAL_WRITE_64_LINE@, "enable"@),
        ROW_OFFSET_LINE@.len() > 0 && ROW_OFFSET_LINE@.last() == '\n',
        PARTIAL_INIT_LINE@.len() > 0 && PARTIAL_INIT_LINE@.last() == '\n',
        UNROLL_ROW_LINE@.len() > 0 && UNROLL_ROW_LINE@.last() == '\n',
        SUBGROUP_SUM_LINE@.len() > 0 && SUBGROUP_SUM_LINE@.last() == '\n',
        SUBGROUP_STORE_LINE@.len() > 0 && SUBGROUP_STORE_LINE@.last() == '\n',
        TOTAL_INIT_LINE@.len() > 0 && TOTAL_INIT_LINE@.last() == '\n',
        TOTAL_ADD_LINE@.len() > 0 && TOTAL_ADD_LINE@.last() == '\n',
        TOTAL_WRITE_LINE@.len() > 0 && TOTAL_WRITE_LINE@.last() == '\n',
        PARTIAL_STORE_64_LINE@.len() > 0 && PARTIAL_STORE_64_LINE@.last() == '\n',
        TREE_64_LINE@.len() > 0 && TREE_64_LINE@.last() == '\n',
        PARTIAL_WRITE_64_LINE@.len() > 0 && PARTIAL_WRITE_64_LINE@.last() == '\n',
{
    reveal_strlit("enable");
    assert(clean(ROW_OFFSET_LINE@, "enable"@) && ROW_OFFSET_LINE@.len() > 0 && ROW_OFFSET_LINE@.last() == '\n') by {
        reveal_strlit(
            r#"    let o{i} = o0 + {i}u;
"#,
        );
        if occurs::holds(ROW_OFFSET_LINE@, "enable"@) {
            where_enabled(ROW_OFFSET_LINE@);
        }
    }
    assert(clean(PARTIAL_INIT_LINE@, "enable"@) && PARTIAL_INIT_LINE@.len() > 0 && PARTIAL_INIT_LINE@.last() == '\n') by {
        reveal_strlit(
            r#"    var partial{i}: f32 = 0.0;
"#,
        );
        if occurs::holds(PARTIAL_INIT_LINE@, "enable"@) {
            where_enabled(PARTIAL_INIT_LINE@);
        }
    }
    assert(clean(UNROLL_ROW_LINE@, "enable"@) && UNROLL_ROW_LINE@.len() > 0 && UNROLL_ROW_LINE@.last() == '\n') by {
        reveal_strlit(
            r#"        if (o{i} < params.out_dim) {
            partial{i} = partial{i} + block_dot(o{i} * params.row_bytes + block_off, local, x0, x1, x2, x3);
        }
"#,
        );
        if occurs::holds(UNROLL_ROW_LINE@, "enable"@) {
            where_enabled(UNROLL_ROW_LINE@);
        }
    }
    assert(clean(SUBGROUP_SUM_LINE@, "enable"@) && SUBGROUP_SUM_LINE@.len() > 0 && SUBGROUP_SUM_LINE@.last() == '\n') by {
        reveal_strlit(
            r#"    let sg{i} = subgroupAdd(partial{i});
"#,
        );
        if occurs::holds(SUBGROUP_SUM_LINE@, "enable"@) {
            where_enabled(SUBGROUP_SUM_LINE@);
        }
    }
    assert(clean(SUBGROUP_STORE_LINE@, "enable"@) && SUBGROUP_STORE_LINE@.len() > 0 && SUBGROUP_STORE_LINE@.last() == '\n') by {
        reveal_strlit(
            r#"        partial_sums[{i}u * 64u + sg_id] = sg{i};
"#,
        );
        if occurs::holds(SUBGROUP_STORE_LINE@, "enable"@) {
            where_enabled(SUBGROUP_STORE_LINE@);
        }
    }
    assert(clean(TOTAL_INIT_LINE@, "enable"@) && TOTAL_INIT_LINE@.len() > 0 && TOTAL_INIT_LINE@.last() == '\n') by {
        reveal_strlit(
            r#"        var t{i}: f32 = 0.0;
"#,
        );
        if occurs::holds(TOTAL_INIT_LINE@, "enable"@) {
            where_enabled(TOTAL_INIT_LINE@);
        }
    }
    assert(clean(TOTAL_ADD_LINE@, "enable"@) && TOTAL_ADD_LINE@.len() > 0 && TOTAL_ADD_LINE@.last() == '\n') by {
        reveal_strlit(
            r#"            t{i} = t{i} + partial_sums[{i}u * 64u + i];
"#,
        );
        if occurs::holds(TOTAL_ADD_LINE@, "enable"@) {
            where_enabled(TOTAL_ADD_LINE@);
        }
    }
    assert(clean(TOTAL_WRITE_LINE@, "enable"@) && TOTAL_WRITE_LINE@.len() > 0 && TOTAL_WRITE_LINE@.last() == '\n') by {
        reveal_strlit(
            r#"        if (o{i} < params.out_dim) {
            y[t * params.out_dim + o{i}] = t{i};
        }
"#,
        );
        if occurs::holds(TOTAL_WRITE_LINE@, "enable"@) {
            where_enabled(TOTAL_WRITE_LINE@);
        }
    }
    assert(clean(PARTIAL_STORE_64_LINE@, "enable"@) && PARTIAL_STORE_64_LINE@.len() > 0 && PARTIAL_STORE_64_LINE@.last() == '\n') by {
        reveal_strlit(
            r#"    partial_sums[{i}u * 64u + local] = partial{i};
"#,
        );
        if occurs::holds(PARTIAL_STORE_64_LINE@, "enable"@) {
            where_enabled(PARTIAL_STORE_64_LINE@);
        }
    }
    assert(clean(TREE_64_LINE@, "enable"@) && TREE_64_LINE@.len() > 0 && TREE_64_LINE@.last() == '\n') by {
        reveal_strlit(
            r#"            partial_sums[{i}u * 64u + local] = partial_sums[{i}u * 64u + local] + partial_sums[{i}u * 64u + local + stride];
"#,
        );
        if occurs::holds(TREE_64_LINE@, "enable"@) {
            where_enabled(TREE_64_LINE@);
        }
    }
    assert(clean(PARTIAL_WRITE_64_LINE@, "enable"@) && PARTIAL_WRITE_64_LINE@.len() > 0 && PARTIAL_WRITE_64_LINE@.last() == '\n') by {
        reveal_strlit(
            r#"        if (o{i} < params.out_dim) {
            y[t * params.out_dim + o{i}] = partial_sums[{i}u * 64u];
        }
"#,
        );
        if occurs::holds(PARTIAL_WRITE_64_LINE@, "enable"@) {
            where_enabled(PARTIAL_WRITE_64_LINE@);
        }
    }
}

/// Whether the small parts of a decoder are clean of a text.
spec fn small_parts_are_clean(q: Seq<char>) -> bool {
    &&& clean("\n"@, q)
    &&& clean("u;"@, q)
    &&& clean("const BLOCK_BYTES: u32 = "@, q)
    &&& clean("const BLOCK_ELEMS: u32 = "@, q)
}

/// The small parts of a decoder are clean of all that is looked for.
proof fn small_parts()
    ensures
        small_parts_are_clean("enable"@),
        small_parts_are_clean("n_row_groups"@),
        small_parts_are_clean("%T"@),
        small_parts_are_clean("%C"@),
        has_no_digit("enable"@) && "enable"@.len() == 6 && !"enable"@.contains('\n'),
        has_no_digit("n_row_groups"@) && "n_row_groups"@.len() == 12,
        has_no_digit("%T"@) && "%T"@.len() == 2,
        has_no_digit("%C"@) && "%C"@.len() == 2,
{
    reveal_strlit("enable");
    reveal_strlit("n_row_groups");
    reveal_strlit("%T");
    reveal_strlit("%C");
    reveal_strlit("\n");
    reveal_strlit("u;");
    reveal_strlit("const BLOCK_BYTES: u32 = ");
    reveal_strlit("const BLOCK_ELEMS: u32 = ");
    small_part_is_clean("\n"@);
    small_part_is_clean("u;"@);
    small_part_is_clean("const BLOCK_BYTES: u32 = "@);
    small_part_is_clean("const BLOCK_ELEMS: u32 = "@);
}

/// A text is clean where nothing that is looked for can begin in it.
proof fn small_part_is_clean(t: Seq<char>)
    requires
        t.len() > 0,
        !t.contains('e'),
        !t.contains('%'),
        !t.contains('g'),
        !("enable"@.contains(t.last())),
        !("n_row_groups"@.contains(t.last())),
        !("%T"@.contains(t.last())),
        !("%C"@.contains(t.last())),
    ensures
        clean(t, "enable"@),
        clean(t, "n_row_groups"@),
        clean(t, "%T"@),
        clean(t, "%C"@),
{
    if occurs::holds(t, "enable"@) {
        let i = where_enabled(t);
        assert(t.contains(t[i + 0]));
    }
    if occurs::holds(t, "n_row_groups"@) {
        let i = where_grouped(t);
        assert(t.contains(t[i + 6]));
    }
    if occurs::holds(t, "%T"@) {
        let i = where_tile_marked(t);
        assert(t.contains(t[i + 0]));
    }
    if occurs::holds(t, "%C"@) {
        let i = where_chunk_marked(t);
        assert(t.contains(t[i + 0]));
    }
}

/// A decoder is clean where what it decodes by is.
proof fn decoders_are_clean(ggml_type: u32, middle: Seq<char>, q: Seq<char>)
    requires
        q.len() > 0,
        has_no_digit(q),
        small_parts_are_clean(q),
        clean(middle, q),
    ensures
        clean(matmul::decoder_text(ggml_type, middle), q),
{
    let (block_bytes, block_elems) = quant::layout(ggml_type)->0;
    let (n, u) = ("\n"@, "u;"@);
    let (bytes, elems) = ("const BLOCK_BYTES: u32 = "@, "const BLOCK_ELEMS: u32 = "@);
    let (d, e) = (text::decimal_text(block_bytes), text::decimal_text(block_elems));
    numbers_are_clean(block_bytes, q);
    numbers_are_clean(block_elems, q);
    clean_together(bytes, d, q);
    clean_together(bytes + d, u, q);
    clean_together(elems, e, q);
    clean_together(elems + e, u, q);
    let (b, c) = (matmul::block_bytes_line(block_bytes), matmul::block_elems_line(block_elems));
    clean_together(n, b, q);
    clean_together(n + b, n, q);
    clean_together(n + b + n, c, q);
    clean_together(n + b + n + c, n, q);
    clean_together(n + b + n + c + n, middle, q);
}

/// A kernel is clean where its parts are.
proof fn kernels_are_clean(
    wide: bool,
    ggml_type: u32,
    middle: Seq<char>,
    suffix: Seq<char>,
    q: Seq<char>,
)
    requires
        q.len() > 0,
        has_no_digit(q),
        small_parts_are_clean(q),
        clean(PRELUDE_OPEN@, q),
        wide ==> clean(VEC4_WEIGHTS@, q) && clean(VEC4_HELPERS@, q),
        !wide ==> clean(WORD_WEIGHTS@, q) && clean(WORD_HELPERS@, q),
        clean(middle, q),
        clean(suffix, q),
    ensures
        clean(matmul::kernel_text(wide, ggml_type, middle, suffix), q),
{
    let (weights, helpers) = if wide {
        (VEC4_WEIGHTS@, VEC4_HELPERS@)
    } else {
        (WORD_WEIGHTS@, WORD_HELPERS@)
    };
    let body = matmul::decoder_text(ggml_type, middle);
    let n = "\n"@;
    clean_together(PRELUDE_OPEN@, weights, q);
    clean_together(PRELUDE_OPEN@ + weights, helpers, q);
    decoders_are_clean(ggml_type, middle, q);
    let open = matmul::prelude_text(wide);
    clean_together(open, n, q);
    clean_together(open + n, body, q);
    clean_together(open + n + body, n, q);
    clean_together(open + n + body + n, suffix, q);
}

/// The combination of the sums enables nothing.
proof fn combinations_enable_nothing(n_rows: nat, subgroup: bool)
    ensures
        clean(reduce::reduce_combine_block_text(n_rows, subgroup), "enable"@),
{
    let q = "enable"@;
    small_parts();
    unroll_parts_are_clean();
    unroll_lines_are_clean();
    reveal_strlit("    }\n");
    small_part_is_clean_of_enable("    }\n"@);
    if subgroup {
        let a = text::numbered_lines(SUBGROUP_SUM_LINE@, 0, n_rows);
        let b = text::numbered_lines(SUBGROUP_STORE_LINE@, 0, n_rows);
        let c = text::numbered_lines(TOTAL_INIT_LINE@, 0, n_rows);
        let d = text::numbered_lines(TOTAL_ADD_LINE@, 0, n_rows);
        let e = text::numbered_lines(TOTAL_WRITE_LINE@, 1, n_rows);
        numbered_lines_are_clean(SUBGROUP_SUM_LINE@, 0, n_rows, q);
        numbered_lines_are_clean(SUBGROUP_STORE_LINE@, 0, n_rows, q);
        numbered_lines_are_clean(TOTAL_INIT_LINE@, 0, n_rows, q);
        numbered_lines_are_clean(TOTAL_ADD_LINE@, 0, n_rows, q);
        numbered_lines_are_clean(TOTAL_WRITE_LINE@, 1, n_rows, q);
        let t = a + FIRST_LANE_OPEN@;
        clean_together(a, FIRST_LANE_OPEN@, q);
        clean_together(t, b, q);
        let t = t + b;
        clean_together(t, FIRST_THREAD_OPEN@, q);
        let t = t + FIRST_THREAD_OPEN@;
        clean_together(t, c, q);
        let t = t + c;
        clean_together(t, SUBGROUP_LOOP_OPEN@, q);
        let t = t + SUBGROUP_LOOP_OPEN@;
        clean_together(t, d, q);
        let t = t + d;
        clean_together(t, SUBGROUP_LOOP_CLOSE@, q);
        let t = t + SUBGROUP_LOOP_CLOSE@;
        clean_together(t, e, q);
        clean_together(t + e, "    }\n"@, q);
    } else {
        let a = text::numbered_lines(PARTIAL_STORE_64_LINE@, 0, n_rows);
        let b = text::numbered_lines(TREE_64_LINE@, 0, n_rows);
        let c = text::numbered_lines(PARTIAL_WRITE_64_LINE@, 1, n_rows);
        numbered_lines_are_clean(PARTIAL_STORE_64_LINE@, 0, n_rows, q);
        numbered_lines_are_clean(TREE_64_LINE@, 0, n_rows, q);
        numbered_lines_are_clean(PARTIAL_WRITE_64_LINE@, 1, n_rows, q);
        let t = a + TREE_64_OPEN@;
        clean_together(a, TREE_64_OPEN@, q);
        clean_together(t, b, q);
        let t = t + b;
        clean_together(t, TREE_CLOSE_WRITE_FIRST@, q);
        let t = t + TREE_CLOSE_WRITE_FIRST@;
        clean_together(t, c, q);
        clean_together(t + c, "    }\n"@, q);
    }
}

/// A text enables nothing where it has no letter to begin that with.
proof fn small_part_is_clean_of_enable(t: Seq<char>)
    requires
        t.len() == 0 || !("enable"@.contains(t.last())),
        !t.contains('e'),
    ensures
        clean(t, "enable"@),
{
    if occurs::holds(t, "enable"@) {
        let i = where_enabled(t);
        assert(t.contains(t[i + 0]));
    }
}

/// The entry point of the block-unroll kernels enables nothing.
proof fn unroll_entries_enable_nothing(n_rows: nat, subgroup: bool)
    ensures
        clean(reduce::unroll_suffix_text(n_rows, subgroup), "enable"@),
{
    let q = "enable"@;
    small_parts();
    unroll_parts_are_clean();
    unroll_lines_are_clean();
    reveal_strlit("enable");
    reveal_strlit("u) / ");
    reveal_strlit("u;\n");
    reveal_strlit("}\n");
    reveal_strlit("");
    small_part_is_clean_of_enable("u) / "@);
    small_part_is_clean_of_enable("u;\n"@);
    small_part_is_clean_of_enable("}\n"@);
    small_part_is_clean_of_enable(""@);
    numbers_are_clean(n_rows * 64, q);
    numbers_are_clean((n_rows - 1) as nat, q);
    numbers_are_clean(n_rows, q);
    numbered_lines_are_clean(ROW_OFFSET_LINE@, 1, n_rows, q);
    numbered_lines_are_clean(PARTIAL_INIT_LINE@, 0, n_rows, q);
    numbered_lines_are_clean(UNROLL_ROW_LINE@, 1, n_rows, q);
    combinations_enable_nothing(n_rows, subgroup);
    let parts = seq![
        SUMS_DECL@,
        text::decimal_text(n_rows * 64),
        ENTRY_64@,
        reduce::subgroup_entry_params_text(subgroup),
        ROW_GROUPS_OPEN@,
        text::decimal_text((n_rows - 1) as nat),
        "u) / "@,
        text::decimal_text(n_rows),
        FIRST_ROW_INDEX@,
        text::decimal_text(n_rows),
        "u;\n"@,
        text::numbered_lines(ROW_OFFSET_LINE@, 1, n_rows),
        ROW_LOCALS@,
        text::numbered_lines(PARTIAL_INIT_LINE@, 0, n_rows),
        UNROLL_LOOP_OPEN@,
        text::numbered_lines(UNROLL_ROW_LINE@, 1, n_rows),
        BLOCK_LOOP_CLOSE@,
        reduce::reduce_combine_block_text(n_rows, subgroup),
        "}\n"@,
    ];
    let t0 = parts[0];
    let t1 = t0 + parts[1];
    clean_together(t0, parts[1], q);
    let t2 = t1 + parts[2];
    clean_together(t1, parts[2], q);
    let t3 = t2 + parts[3];
    clean_together(t2, parts[3], q);
    let t4 = t3 + parts[4];
    clean_together(t3, parts[4], q);
    let t5 = t4 + parts[5];
    clean_together(t4, parts[5], q);
    let t6 = t5 + parts[6];
    clean_together(t5, parts[6], q);
    let t7 = t6 + parts[7];
    clean_together(t6, parts[7], q);
    let t8 = t7 + parts[8];
    clean_together(t7, parts[8], q);
    let t9 = t8 + parts[9];
    clean_together(t8, parts[9], q);
    let t10 = t9 + parts[10];
    clean_together(t9, parts[10], q);
    let t11 = t10 + parts[11];
    clean_together(t10, parts[11], q);
    let t12 = t11 + parts[12];
    clean_together(t11, parts[12], q);
    let t13 = t12 + parts[13];
    clean_together(t12, parts[13], q);
    let t14 = t13 + parts[14];
    clean_together(t13, parts[14], q);
    let t15 = t14 + parts[15];
    clean_together(t14, parts[15], q);
    let t16 = t15 + parts[16];
    clean_together(t15, parts[16], q);
    let t17 = t16 + parts[17];
    clean_together(t16, parts[17], q);
    clean_together(t17, parts[18], q);
}

/// What a text does not hold the beginning of it does not hold.
proof fn not_even_its_beginning(t: Seq<char>, q: Seq<char>, k: int)
    requires
        0 <= k <= q.len(),
        !occurs::holds(t, q.take(k)),
    ensures
        !occurs::holds(t, q),
{
    if occurs::holds(t, q) {
        let i = choose|i: int| text::occurs_at(t, q, i);
        assert(t.subrange(i, i + k) =~= t.subrange(i, i + q.len()).take(k));
        assert(text::occurs_at(t, q.take(k), i));
    }
}

/// The directive for half floats stands in the block-unroll kernel on packed halves once,
/// at its beginning, and in the plain one nowhere.
pub proof fn the_directive_stands_once(n_rows: nat, subgroup: bool)
    ensures
        ({
            let suffix = reduce::unroll_suffix_text(n_rows, subgroup);
            let packed = matmul::half_kernel_text(
                true,
                GGML_TYPE_Q4_K,
                Q4K_UNROLL_PACKED_MIDDLE@,
                suffix,
            );
            let plain = matmul::kernel_text(true, GGML_TYPE_Q4_K, Q4K_UNROLL_MIDDLE@, suffix);
            &&& forall|i: int| #[trigger] text::occurs_at(packed, "enable f16;"@, i) <==> i == 0
            &&& !occurs::holds(plain, "enable f16;"@)
        }),
{
    let q = "enable f16;"@;
    let suffix = reduce::unroll_suffix_text(n_rows, subgroup);
    let plain = matmul::kernel_text(true, GGML_TYPE_Q4_K, Q4K_UNROLL_MIDDLE@, suffix);
    let rest = matmul::kernel_text(true, GGML_TYPE_Q4_K, Q4K_UNROLL_PACKED_MIDDLE@, suffix);
    let packed = matmul::half_kernel_text(true, GGML_TYPE_Q4_K, Q4K_UNROLL_PACKED_MIDDLE@, suffix);
    small_parts();
    openings_are_clean();
    vec4_helpers_are_clean();
    unroll_middles_are_clean();
    unroll_entries_enable_nothing(n_rows, subgroup);
    kernels_are_clean(true, GGML_TYPE_Q4_K, Q4K_UNROLL_MIDDLE@, suffix, "enable"@);
    kernels_are_clean(true, GGML_TYPE_Q4_K, Q4K_UNROLL_PACKED_MIDDLE@, suffix, "enable"@);
    reveal_strlit("enable f16;");
    reveal_strlit("enable");
    assert(q.take(6) =~= "enable"@);
    not_even_its_beginning(plain, q, 6);
    not_even_its_beginning(rest, q, 6);
    reveal_strlit("enable f16;\n");
    assert(packed.subrange(0, 11) =~= q);
    assert forall|i: int| #[trigger] text::occurs_at(packed, q, i) implies i == 0 by {
        let found = packed.subrange(i, i + 11);
        if i >= 12 {
            assert(rest.subrange(i - 12, i - 12 + 11) =~= found);
            assert(text::occurs_at(rest, q, i - 12));
        } else if i > 0 {
            assert(found[11 - i] == packed[11]);
            assert(packed[11] == '\n');
        }
    }
}

/// The kernels on packed halves have a workgroup for each row and token: they count no
/// groups of rows.
pub proof fn packed_kernels_count_no_groups(wide: bool)
    ensures
        ({
            let middle = if wide {
                Q4K_WIDE_PACKED_MIDDLE@
            } else {
                Q4K_PACKED_MIDDLE@
            };
            !occurs::holds(
                matmul::half_kernel_text(
                    wide,
                    GGML_TYPE_Q4_K,
                    middle,
                    matmul::packed_suffix_text(wide),
                ),
                "n_row_groups"@,
            )
        }),
{
    let q = "n_row_groups"@;
    let middle = if wide {
        Q4K_WIDE_PACKED_MIDDLE@
    } else {
        Q4K_PACKED_MIDDLE@
    };
    let (base, pair) = if wide {
        (PACKED_VEC4_BASE@, PACKED_VEC4_PAIR@)
    } else {
        (PACKED_WORD_BASE@, PACKED_WORD_PAIR@)
    };
    small_parts();
    openings_are_clean();
    word_helpers_are_clean();
    vec4_helpers_are_clean();
    packed_middles_are_clean();
    packed_entries_are_clean();
    let t = PACKED_OPEN@ + PACKED_GUARD@;
    clean_together(PACKED_OPEN@, PACKED_GUARD@, q);
    clean_together(t, PACKED_LOCALS@, q);
    let t = t + PACKED_LOCALS@;
    clean_together(t, base, q);
    let t = t + base;
    clean_together(t, PACKED_LOOP@, q);
    let t = t + PACKED_LOOP@;
    clean_together(t, pair, q);
    let t = t + pair;
    clean_together(t, PACKED_CLOSE@, q);
    let suffix = matmul::packed_suffix_text(wide);
    assert(suffix == t + PACKED_CLOSE@);
    kernels_are_clean(wide, GGML_TYPE_Q4_K, middle, suffix, q);
    let line = "enable f16;\n"@;
    reveal_strlit("n_row_groups");
    reveal_strlit("enable f16;\n");
    assert(!line.contains('g'));
    if occurs::holds(line, q) {
        let i = where_grouped(line);
        assert(line.contains(line[i + 6]));
    }
    clean_together(line, matmul::kernel_text(wide, GGML_TYPE_Q4_K, middle, suffix), q);
}

/// No mark is left in the tiled kernel of a type.
pub proof fn tiled_kernels_have_no_marks_left(ggml_type: u32)
    requires
        matmul::coop_middle_text(ggml_type) is Some,
    ensures
        ({
            let t = matmul::kernel_text(
                false,
                ggml_type,
                matmul::coop_middle_text(ggml_type)->0,
                matmul::coop_tiled_suffix_text(),
            );
            &&& !occurs::holds(t, "%TILE_ROWS%"@)
            &&& !occurs::holds(t, "%TILE_TOKENS%"@)
            &&& !occurs::holds(t, "%CHUNK%"@)
        }),
{
    let middle = matmul::coop_middle_text(ggml_type)->0;
    let entry = matmul::coop_tiled_suffix_text();
    let empty = Seq::<char>::empty();
    small_parts();
    openings_are_clean();
    word_helpers_are_clean();
    small_decoders_are_clean();
    super_decoders_are_clean();
    occurs::not_held(empty, "%T"@);
    occurs::not_held(empty, "%C"@);
    kernels_are_clean(false, ggml_type, middle, empty, "%T"@);
    kernels_are_clean(false, ggml_type, middle, empty, "%C"@);
    let front = matmul::kernel_text(false, ggml_type, middle, empty);
    assert(front =~= matmul::prelude_text(false) + "\n"@ + matmul::decoder_text(ggml_type, middle)
        + "\n"@);
    matmul::tiled_kernels_are_filled_in(ggml_type);
    reveal_strlit("\n");
    assert(front.last() == '\n');
    reveal_strlit("%T");
    reveal_strlit("%C");
    reveal_strlit("%TILE_ROWS%");
    reveal_strlit("%TILE_TOKENS%");
    reveal_strlit("%CHUNK%");
    assert("%TILE_ROWS%"@.take(2) =~= "%T"@);
    assert("%TILE_TOKENS%"@.take(2) =~= "%T"@);
    assert("%CHUNK%"@.take(2) =~= "%C"@);
    not_even_its_beginning(front, "%TILE_ROWS%"@, 2);
    not_even_its_beginning(front, "%TILE_TOKENS%"@, 2);
    not_even_its_beginning(front, "%CHUNK%"@, 2);
    if occurs::holds(front + entry, "%TILE_ROWS%"@) {
        occurs::held_on_one_side(front, entry, "%TILE_ROWS%"@);
    }
    if occurs::holds(front + entry, "%TILE_TOKENS%"@) {
        occurs::held_on_one_side(front, entry, "%TILE_TOKENS%"@);
    }
    if occurs::holds(front + entry, "%CHUNK%"@) {
        occurs::held_on_one_side(front, entry, "%CHUNK%"@);
    }
}

} // verus!
