//! The kernels' source text: the parts that do not depend on any parameter, and
//! the templates whose `%NAME%` marks are filled in.

use vstd::prelude::*;

verus! {

/// The parameters of the matrix kernels.
pub const PRELUDE_OPEN: &'static str = r#"
struct Meta {
    in_dim: u32,
    out_dim: u32,
    n_tokens: u32,
    row_bytes: u32,
}

"#;

/// The binding of weights that are read four bytes at a time.
pub const WORD_WEIGHTS: &'static str = r#"@group(0) @binding(0) var<storage, read> weights: array<u32>;
"#;

/// The binding of weights that are read sixteen bytes at a time.
pub const VEC4_WEIGHTS: &'static str = r#"@group(0) @binding(0) var<storage, read> weights: array<vec4<u32>>;
"#;

/// The other bindings of the matrix kernels, and the decoders of bytes and half floats.
pub const WORD_HELPERS: &'static str = r#"@group(0) @binding(1) var<storage, read> x: array<f32>;
@group(0) @binding(2) var<storage, read_write> y: array<f32>;
@group(0) @binding(3) var<uniform> params: Meta;

fn read_u8(byte_offset: u32) -> u32 {
    let word = weights[byte_offset >> 2u];
    let shift = (byte_offset & 3u) * 8u;
    return (word >> shift) & 0xFFu;
}

// IEEE 754 binary16 -> f32: `unpack2x16float` is a core WGSL builtin that
// does the exact conversion in hardware, so this delegates to it rather
// than hand-rolling the exponent/mantissa math — bit-for-bit the same
// result as `half::f16::to_f32` for the same bits.
fn f16_to_f32(bits: u32) -> f32 {
    return unpack2x16float(bits & 0xFFFFu).x;
}

// bfloat16 -> f32: the top 16 bits of an f32, left-shifted into place —
// mirrors `quant::dequantize`'s `GGML_TYPE_BF16` arm exactly.
fn bf16_to_f32(bits: u32) -> f32 {
    return bitcast<f32>((bits & 0xFFFFu) << 16u);
}

// ggml's `get_scale_min_k4`: unpacks the 6-bit scale and 6-bit min for
// sub-block `j` (0..8) of a Q4_K/Q5_K super-block's 12-byte `scales` region
// starting at `base`. Mirrors `quant::get_scale_min_k4` exactly.
fn get_scale_min_k4(base: u32, j: u32) -> vec2<u32> {
    if (j < 4u) {
        let qj = read_u8(base + j);
        let qj4 = read_u8(base + j + 4u);
        return vec2<u32>(qj & 63u, qj4 & 63u);
    }
    let qj = read_u8(base + j);
    let qj4 = read_u8(base + j + 4u);
    let qjm4 = read_u8(base + j - 4u);
    let sc = (qj4 & 0xFu) | ((qjm4 >> 6u) << 4u);
    let m = (qj4 >> 4u) | ((qj >> 6u) << 4u);
    return vec2<u32>(sc, m);
}
"#;

/// Entry point of the cooperative kernels: one workgroup per output row.
pub const MAIN_COOP_SUFFIX: &'static str = r#"
@compute @workgroup_size(64)
fn main(
    @builtin(workgroup_id) wid: vec3<u32>,
    @builtin(local_invocation_id) lid: vec3<u32>,
    @builtin(num_workgroups) nwg: vec3<u32>,
) {
    let o = wid.x + wid.y * nwg.x + wid.z * nwg.x * nwg.y;
    if (o >= params.out_dim) {
        return;
    }
    let local = lid.x;
    let row_byte_base = o * params.row_bytes;
    let n_blocks = params.in_dim / BLOCK_ELEMS;

    var tile_start: u32 = 0u;
    loop {
        if (tile_start >= params.n_tokens) {
            break;
        }
        let t = tile_start + local;
        let is_active = t < params.n_tokens;
        var acc: f32 = 0.0;
        for (var b: u32 = 0u; b < n_blocks; b = b + 1u) {
            let block_byte_offset = row_byte_base + b * BLOCK_BYTES;
            var k: u32 = local;
            loop {
                if (k >= BLOCK_ELEMS) {
                    break;
                }
                shared_vals[k] = dequant_element(block_byte_offset, k);
                k = k + 64u;
            }
            workgroupBarrier();
            if (is_active) {
                let x_off = t * params.in_dim + b * BLOCK_ELEMS;
                for (var j: u32 = 0u; j < BLOCK_ELEMS; j = j + 1u) {
                    acc = acc + shared_vals[j] * x[x_off + j];
                }
            }
            workgroupBarrier();
        }
        if (is_active) {
            y[t * params.out_dim + o] = acc;
        }
        tile_start = tile_start + 64u;
    }
}
"#;

/// Entry point of the tiled kernels: one workgroup per tile of rows and tokens.
pub const MAIN_COOP_TILED_REST: &'static str = r#"const THREADS_Y: u32 = 4u;
const THREADS_X: u32 = 16u;
const REG_ROWS: u32 = 4u;
const REG_TOKENS: u32 = 4u;

var<workgroup> tile_w: array<f32, %TILE_ROWS%u * %CHUNK%u>;
var<workgroup> tile_x: array<f32, %TILE_TOKENS%u * %CHUNK%u>;

fn elem_at(row_byte_base: u32, k: u32) -> f32 {
    let block_idx = k / BLOCK_ELEMS;
    let local_k = k % BLOCK_ELEMS;
    return dequant_element(row_byte_base + block_idx * BLOCK_BYTES, local_k);
}

@compute @workgroup_size(64)
fn main(
    @builtin(workgroup_id) wid: vec3<u32>,
    @builtin(local_invocation_id) lid: vec3<u32>,
    @builtin(num_workgroups) nwg: vec3<u32>,
) {
    let row_tiles = (params.out_dim + TILE_ROWS - 1u) / TILE_ROWS;
    let token_tiles = (params.n_tokens + TILE_TOKENS - 1u) / TILE_TOKENS;
    let flat = wid.x + wid.y * nwg.x + wid.z * nwg.x * nwg.y;
    if (flat >= row_tiles * token_tiles) {
        return;
    }
    let rtile = flat / token_tiles;
    let ttile = flat % token_tiles;
    let row_start = rtile * TILE_ROWS;
    let token_start = ttile * TILE_TOKENS;

    let local = lid.x;
    let ty = local / THREADS_X;
    let tx = local % THREADS_X;

    var acc: array<f32, REG_ROWS * REG_TOKENS>;
    var zi: u32 = 0u;
    loop {
        if (zi >= REG_ROWS * REG_TOKENS) {
            break;
        }
        acc[zi] = 0.0;
        zi = zi + 1u;
    }

    let in_dim = params.in_dim;
    var chunk_start: u32 = 0u;
    loop {
        if (chunk_start >= in_dim) {
            break;
        }

        var fi: u32 = local;
        loop {
            if (fi >= TILE_ROWS * CHUNK) {
                break;
            }
            let rr = fi / CHUNK;
            let kk = fi % CHUNK;
            let row_idx = row_start + rr;
            let k_global = chunk_start + kk;
            if (row_idx < params.out_dim && k_global < in_dim) {
                tile_w[fi] = elem_at(row_idx * params.row_bytes, k_global);
            } else {
                tile_w[fi] = 0.0;
            }
            fi = fi + 64u;
        }

        var fj: u32 = local;
        loop {
            if (fj >= TILE_TOKENS * CHUNK) {
                break;
            }
            let tt = fj / CHUNK;
            let kk = fj % CHUNK;
            let token_idx = token_start + tt;
            let k_global = chunk_start + kk;
            if (token_idx < params.n_tokens && k_global < in_dim) {
                tile_x[fj] = x[token_idx * in_dim + k_global];
            } else {
                tile_x[fj] = 0.0;
            }
            fj = fj + 64u;
        }

        workgroupBarrier();

        var k: u32 = 0u;
        loop {
            if (k >= CHUNK) {
                break;
            }
            var wv: array<f32, REG_ROWS>;
            var i1: u32 = 0u;
            loop {
                if (i1 >= REG_ROWS) {
                    break;
                }
                wv[i1] = tile_w[(ty * REG_ROWS + i1) * CHUNK + k];
                i1 = i1 + 1u;
            }
            var xv: array<f32, REG_TOKENS>;
            var j1: u32 = 0u;
            loop {
                if (j1 >= REG_TOKENS) {
                    break;
                }
                xv[j1] = tile_x[(tx * REG_TOKENS + j1) * CHUNK + k];
                j1 = j1 + 1u;
            }
            i1 = 0u;
            loop {
                if (i1 >= REG_ROWS) {
                    break;
                }
                var j2: u32 = 0u;
                loop {
                    if (j2 >= REG_TOKENS) {
                        break;
                    }
                    acc[i1 * REG_TOKENS + j2] = acc[i1 * REG_TOKENS + j2] + wv[i1] * xv[j2];
                    j2 = j2 + 1u;
                }
                i1 = i1 + 1u;
            }
            k = k + 1u;
        }

        workgroupBarrier();
        chunk_start = chunk_start + CHUNK;
    }

    var i1: u32 = 0u;
    loop {
        if (i1 >= REG_ROWS) {
            break;
        }
        let row = row_start + ty * REG_ROWS + i1;
        if (row < params.out_dim) {
            var j1: u32 = 0u;
            loop {
                if (j1 >= REG_TOKENS) {
                    break;
                }
                let token = token_start + tx * REG_TOKENS + j1;
                if (token < params.n_tokens) {
                    y[token * params.out_dim + row] = acc[i1 * REG_TOKENS + j1];
                }
                j1 = j1 + 1u;
            }
        }
        i1 = i1 + 1u;
    }
}
"#;

/// One decoded element of a `F32` block.
pub const F32_COOP_MIDDLE: &'static str = r#"var<workgroup> shared_vals: array<f32, BLOCK_ELEMS>;
fn dequant_element(byte_offset: u32, k: u32) -> f32 {
    let bits = read_u8(byte_offset) | (read_u8(byte_offset + 1u) << 8u)
        | (read_u8(byte_offset + 2u) << 16u) | (read_u8(byte_offset + 3u) << 24u);
    return bitcast<f32>(bits);
}
"#;

/// One decoded element of a `F16` block.
pub const F16_COOP_MIDDLE: &'static str = r#"var<workgroup> shared_vals: array<f32, BLOCK_ELEMS>;
fn dequant_element(byte_offset: u32, k: u32) -> f32 {
    let bits = read_u8(byte_offset) | (read_u8(byte_offset + 1u) << 8u);
    return f16_to_f32(bits);
}
"#;

/// One decoded element of a `BF16` block.
pub const BF16_COOP_MIDDLE: &'static str = r#"var<workgroup> shared_vals: array<f32, BLOCK_ELEMS>;
fn dequant_element(byte_offset: u32, k: u32) -> f32 {
    let bits = read_u8(byte_offset) | (read_u8(byte_offset + 1u) << 8u);
    return bf16_to_f32(bits);
}
"#;

/// One decoded element of a `Q4_0` block.
pub const Q4_0_COOP_MIDDLE: &'static str = r#"var<workgroup> shared_vals: array<f32, BLOCK_ELEMS>;
fn dequant_element(byte_offset: u32, k: u32) -> f32 {
    let d = f16_to_f32(read_u8(byte_offset) | (read_u8(byte_offset + 1u) << 8u));
    if (k < 16u) {
        let byte = read_u8(byte_offset + 2u + k);
        return f32(i32(byte & 0xFu) - 8) * d;
    }
    let byte = read_u8(byte_offset + 2u + (k - 16u));
    return f32(i32(byte >> 4u) - 8) * d;
}
"#;

/// One decoded element of a `Q5_0` block.
pub const Q5_0_COOP_MIDDLE: &'static str = r#"var<workgroup> shared_vals: array<f32, BLOCK_ELEMS>;
fn dequant_element(byte_offset: u32, k: u32) -> f32 {
    let d = f16_to_f32(read_u8(byte_offset) | (read_u8(byte_offset + 1u) << 8u));
    let qh = read_u8(byte_offset + 2u) | (read_u8(byte_offset + 3u) << 8u)
        | (read_u8(byte_offset + 4u) << 16u) | (read_u8(byte_offset + 5u) << 24u);
    if (k < 16u) {
        let byte = read_u8(byte_offset + 6u + k);
        let xh_0 = ((qh >> k) << 4u) & 0x10u;
        return f32(i32((byte & 0xFu) | xh_0) - 16) * d;
    }
    let j = k - 16u;
    let byte = read_u8(byte_offset + 6u + j);
    let xh_1 = (qh >> (j + 12u)) & 0x10u;
    return f32(i32((byte >> 4u) | xh_1) - 16) * d;
}
"#;

/// One decoded element of a `Q8_0` block.
pub const Q8_0_COOP_MIDDLE: &'static str = r#"var<workgroup> shared_vals: array<f32, BLOCK_ELEMS>;
fn dequant_element(byte_offset: u32, k: u32) -> f32 {
    let d = f16_to_f32(read_u8(byte_offset) | (read_u8(byte_offset + 1u) << 8u));
    let byte = read_u8(byte_offset + 2u + k);
    var v: i32 = i32(byte);
    if (v >= 128) {
        v = v - 256;
    }
    return f32(v) * d;
}
"#;

/// One decoded element of a `Q4_K` block.
pub const Q4_K_COOP_MIDDLE: &'static str = r#"var<workgroup> shared_vals: array<f32, BLOCK_ELEMS>;
fn dequant_element(byte_offset: u32, k: u32) -> f32 {
    let d = f16_to_f32(read_u8(byte_offset) | (read_u8(byte_offset + 1u) << 8u));
    let dmin = f16_to_f32(read_u8(byte_offset + 2u) | (read_u8(byte_offset + 3u) << 8u));
    let scales_off = byte_offset + 4u;
    let qs_off = byte_offset + 16u;
    let q_offset = (k / 64u) * 64u;
    let local_in_group = k % 64u;
    let is_base = (q_offset / 64u) * 2u;
    let q_base = qs_off + q_offset / 2u;
    if (local_in_group < 32u) {
        let byte = read_u8(q_base + local_in_group);
        let sm = get_scale_min_k4(scales_off, is_base);
        let d1 = d * f32(sm.x);
        let m1 = dmin * f32(sm.y);
        return d1 * f32(byte & 0xFu) - m1;
    }
    let l = local_in_group - 32u;
    let byte = read_u8(q_base + l);
    let sm = get_scale_min_k4(scales_off, is_base + 1u);
    let d2 = d * f32(sm.x);
    let m2 = dmin * f32(sm.y);
    return d2 * f32(byte >> 4u) - m2;
}
"#;

/// One decoded element of a `Q5_K` block.
pub const Q5_K_COOP_MIDDLE: &'static str = r#"var<workgroup> shared_vals: array<f32, BLOCK_ELEMS>;
fn dequant_element(byte_offset: u32, k: u32) -> f32 {
    let d = f16_to_f32(read_u8(byte_offset) | (read_u8(byte_offset + 1u) << 8u));
    let dmin = f16_to_f32(read_u8(byte_offset + 2u) | (read_u8(byte_offset + 3u) << 8u));
    let scales_off = byte_offset + 4u;
    let qh_off = byte_offset + 16u;
    let qs_off = byte_offset + 48u;
    let q_offset = (k / 64u) * 64u;
    let idx = q_offset / 64u;
    let local_in_group = k % 64u;
    let is_base = idx * 2u;
    let ql_offset = idx * 32u;
    let u1 = 1u << (2u * idx);
    let u2 = 2u << (2u * idx);
    if (local_in_group < 32u) {
        let l = local_in_group;
        let byte = read_u8(qs_off + ql_offset + l);
        let qhbyte = read_u8(qh_off + l);
        var hi_bit: i32 = 0;
        if ((qhbyte & u1) != 0u) {
            hi_bit = 16;
        }
        let sm = get_scale_min_k4(scales_off, is_base);
        let d1 = d * f32(sm.x);
        let m1 = dmin * f32(sm.y);
        return d1 * f32(i32(byte & 0xFu) + hi_bit) - m1;
    }
    let l = local_in_group - 32u;
    let byte = read_u8(qs_off + ql_offset + l);
    let qhbyte = read_u8(qh_off + l);
    var hi_bit: i32 = 0;
    if ((qhbyte & u2) != 0u) {
        hi_bit = 16;
    }
    let sm = get_scale_min_k4(scales_off, is_base + 1u);
    let d2 = d * f32(sm.x);
    let m2 = dmin * f32(sm.y);
    return d2 * f32(i32(byte >> 4u) + hi_bit) - m2;
}
"#;

/// One decoded element of a `Q6_K` block.
pub const Q6_K_COOP_MIDDLE: &'static str = r#"var<workgroup> shared_vals: array<f32, BLOCK_ELEMS>;
fn dequant_element(byte_offset: u32, k: u32) -> f32 {
    let ql_off = byte_offset;
    let qh_off = byte_offset + 128u;
    let sc_off = byte_offset + 192u;
    let d = f16_to_f32(read_u8(byte_offset + 208u) | (read_u8(byte_offset + 209u) << 8u));
    let y_off = (k / 128u) * 128u;
    let idx = y_off / 128u;
    let local_in_group = k % 128u;
    let which_q = local_in_group / 32u;
    let l = local_in_group % 32u;
    let ql_o = idx * 64u;
    let qh_o = idx * 32u;
    let sc_o = idx * 8u;
    let is = l / 16u;
    let ql_l = read_u8(ql_off + ql_o + l);
    let ql_l32 = read_u8(ql_off + ql_o + l + 32u);
    let qh_l = read_u8(qh_off + qh_o + l);
    var q: i32;
    var sc_idx: u32;
    if (which_q == 0u) {
        q = i32((ql_l & 0xFu) | ((qh_l & 3u) << 4u)) - 32;
        sc_idx = is;
    } else if (which_q == 1u) {
        q = i32((ql_l32 & 0xFu) | (((qh_l >> 2u) & 3u) << 4u)) - 32;
        sc_idx = is + 2u;
    } else if (which_q == 2u) {
        q = i32((ql_l >> 4u) | (((qh_l >> 4u) & 3u) << 4u)) - 32;
        sc_idx = is + 4u;
    } else {
        q = i32((ql_l32 >> 4u) | (((qh_l >> 6u) & 3u) << 4u)) - 32;
        sc_idx = is + 6u;
    }
    var sc: i32 = i32(read_u8(sc_off + sc_o + sc_idx));
    if (sc >= 128) {
        sc = sc - 256;
    }
    return d * f32(sc) * f32(q);
}
"#;

/// A pair of decoded elements of a `Q4_K` block, as packed halves.
pub const Q4K_PACKED_MIDDLE: &'static str = r#"
// `k` must be even — `k` and `k + 1` always land in the same low/high-
// nibble half of their 64-wide group (that boundary, 32, is itself even
// and pair-aligned), so this never needs to stitch together two different
// `get_scale_min_k4` lookups for one pair.
fn dequant_pair_f16(byte_offset: u32, k: u32) -> vec2<f16> {
    let d = f16_to_f32(read_u8(byte_offset) | (read_u8(byte_offset + 1u) << 8u));
    let dmin = f16_to_f32(read_u8(byte_offset + 2u) | (read_u8(byte_offset + 3u) << 8u));
    let scales_off = byte_offset + 4u;
    let qs_off = byte_offset + 16u;
    let q_offset = (k / 64u) * 64u;
    let local_in_group = k % 64u;
    let is_base = (q_offset / 64u) * 2u;
    let q_base = qs_off + q_offset / 2u;
    if (local_in_group < 32u) {
        let byte0 = read_u8(q_base + local_in_group);
        let byte1 = read_u8(q_base + local_in_group + 1u);
        let sm = get_scale_min_k4(scales_off, is_base);
        let d1 = d * f32(sm.x);
        let m1 = dmin * f32(sm.y);
        return vec2<f16>(
            f16(d1 * f32(byte0 & 0xFu) - m1),
            f16(d1 * f32(byte1 & 0xFu) - m1),
        );
    }
    let l = local_in_group - 32u;
    let byte0 = read_u8(q_base + l);
    let byte1 = read_u8(q_base + l + 1u);
    let sm = get_scale_min_k4(scales_off, is_base + 1u);
    let d2 = d * f32(sm.x);
    let m2 = dmin * f32(sm.y);
    return vec2<f16>(
        f16(d2 * f32(byte0 >> 4u) - m2),
        f16(d2 * f32(byte1 >> 4u) - m2),
    );
}
"#;

/// The entry point of the packed-half kernels.
pub const PACKED_OPEN: &'static str = r#"
var<workgroup> partial_sums: array<f32, 64>;

@compute @workgroup_size(64)
fn main(
    @builtin(workgroup_id) wid: vec3<u32>,
    @builtin(local_invocation_id) lid: vec3<u32>,
    @builtin(num_workgroups) nwg: vec3<u32>,
) {
    let flat = wid.x + wid.y * nwg.x + wid.z * nwg.x * nwg.y;
"#;

/// One workgroup for each row and token: the others have nothing to do.
pub const PACKED_GUARD: &'static str = r#"    if (flat >= params.out_dim * params.n_tokens) {
"#;

/// The row and the token of a workgroup.
pub const PACKED_LOCALS: &'static str = r#"        return;
    }
    let o = flat / params.n_tokens;
    let t = flat % params.n_tokens;
    let local = lid.x;
"#;

/// Where the row begins, in bytes.
pub const PACKED_WORD_BASE: &'static str = r#"    let row_byte_base = o * params.row_bytes;
"#;

/// Where the row begins, in units of sixteen bytes.
pub const PACKED_VEC4_BASE: &'static str = r#"    let row_vec4_base = (o * params.row_bytes) / 16u;
"#;

/// The loop over pairs of elements.
pub const PACKED_LOOP: &'static str = r#"    let x_base = t * params.in_dim;

    var partial: f32 = 0.0;
    var k: u32 = local * 2u;
    loop {
        if (k >= params.in_dim) {
            break;
        }
        let block_idx = k / BLOCK_ELEMS;
        let local_k = k % BLOCK_ELEMS;
"#;

/// A pair of weights.
pub const PACKED_WORD_PAIR: &'static str = r#"        let wv = dequant_pair_f16(row_byte_base + block_idx * BLOCK_BYTES, local_k);
"#;

/// A pair of weights, through wide loads.
pub const PACKED_VEC4_PAIR: &'static str = r#"        let block_vec4_base = row_vec4_base + block_idx * (BLOCK_BYTES / 16u);
        let wv = dequant_pair_f16(block_vec4_base, local_k);
"#;

/// The products of a pair, and their sum over the workgroup.
pub const PACKED_CLOSE: &'static str = r#"        let xv = vec2<f16>(f16(x[x_base + k]), f16(x[x_base + k + 1u]));
        partial = partial + f32(dot(wv, xv));
        k = k + 128u;
    }

    partial_sums[local] = partial;
    workgroupBarrier();
    var stride: u32 = 32u;
    loop {
        if (stride == 0u) {
            break;
        }
        if (local < stride) {
            partial_sums[local] = partial_sums[local] + partial_sums[local + stride];
        }
        workgroupBarrier();
        stride = stride / 2u;
    }
    if (local == 0u) {
        y[t * params.out_dim + o] = partial_sums[0];
    }
}
"#;

/// The other bindings of the wide-load kernels, and their decoders.
pub const VEC4_HELPERS: &'static str = r#"@group(0) @binding(1) var<storage, read> x: array<f32>;
@group(0) @binding(2) var<storage, read_write> y: array<f32>;
@group(0) @binding(3) var<uniform> params: Meta;

fn f16_to_f32(bits: u32) -> f32 {
    return unpack2x16float(bits & 0xFFFFu).x;
}

// bfloat16 -> f32: the top 16 bits of an f32, left-shifted into place —
// mirrors `quant::dequantize`'s `GGML_TYPE_BF16` arm exactly.
fn bf16_to_f32(bits: u32) -> f32 {
    return bitcast<f32>((bits & 0xFFFFu) << 16u);
}

// WGSL supports a dynamic (non-const) index into a vector via `v[i]`, but
// this sticks to an explicit branch anyway — `idx` only ever ranges 0..4
// (or 0..3 for `vec3_word`), so the branch is cheap, and a dynamic vector
// index is avoided.
fn vec4_word(v: vec4<u32>, idx: u32) -> u32 {
    if (idx == 0u) { return v.x; }
    if (idx == 1u) { return v.y; }
    if (idx == 2u) { return v.z; }
    return v.w;
}

fn vec3_word(v: vec3<u32>, idx: u32) -> u32 {
    if (idx == 0u) { return v.x; }
    if (idx == 1u) { return v.y; }
    return v.z;
}

// Reads the little-endian u32 word starting at `byte_offset`, which must
// itself be a multiple of 4 — the caller's responsibility, same as
// `read_u8`'s own "byte_offset in range" contract in `PRELUDE`. This is
// correct for *any* word-aligned offset, whether or not the enclosing
// block itself starts at a 16-byte (`vec4`) boundary — `byte_offset / 16u`
// and `(byte_offset % 16u) / 4u` are well-defined for any non-negative
// `byte_offset`, not just ones a caller has separately proven are
// block-vec4-aligned.
fn read_word_v4(byte_offset: u32) -> u32 {
    return vec4_word(weights[byte_offset / 16u], (byte_offset % 16u) / 4u);
}

// The vec4-bound drop-in equivalent of `PRELUDE`'s `read_u8` — correct for
// *any* `byte_offset`, aligned or not.
fn read_byte_v4(byte_offset: u32) -> u32 {
    let word = read_word_v4(byte_offset - (byte_offset % 4u));
    return (word >> (8u * (byte_offset % 4u))) & 0xFFu;
}

// Reads the little-endian u32 starting at an *arbitrary* (not necessarily
// 4-byte-aligned) `byte_offset` — the standard "unaligned load via two
// aligned loads + shift" trick, needed for fields (`Q5_0`'s 4-byte `qh`)
// whose own start alignment isn't fixed the way `Q4_K`/`Q5_K`'s 16-byte
// block size makes their header alignment fixed.
fn read_word_unaligned_v4(byte_offset: u32) -> u32 {
    let shift = (byte_offset % 4u) * 8u;
    let aligned = byte_offset - (byte_offset % 4u);
    if (shift == 0u) {
        return read_word_v4(aligned);
    }
    let lo = read_word_v4(aligned);
    let hi = read_word_v4(aligned + 4u);
    return (lo >> shift) | (hi << (32u - shift));
}

// ggml's `get_scale_min_k4`, sourcing scale bytes from an already-loaded
// `vec3<u32>` (`Q4_K`/`Q5_K`'s header vec4's `.yzw`) instead of re-reading
// them from `array<u32>` via `read_u8` each time — mirrors `PRELUDE`'s own
// `get_scale_min_k4` exactly (see that function's doc comment /
// `quant::get_scale_min_k4`).
fn get_scale_min_k4_v4(scales: vec3<u32>, j: u32) -> vec2<u32> {
    if (j < 4u) {
        let qj = (vec3_word(scales, j / 4u) >> (8u * (j % 4u))) & 0xFFu;
        let qj4 = (vec3_word(scales, (j + 4u) / 4u) >> (8u * ((j + 4u) % 4u))) & 0xFFu;
        return vec2<u32>(qj & 63u, qj4 & 63u);
    }
    let qj = (vec3_word(scales, j / 4u) >> (8u * (j % 4u))) & 0xFFu;
    let qj4 = (vec3_word(scales, (j + 4u) / 4u) >> (8u * ((j + 4u) % 4u))) & 0xFFu;
    let qjm4 = (vec3_word(scales, (j - 4u) / 4u) >> (8u * ((j - 4u) % 4u))) & 0xFFu;
    let sc = (qj4 & 0xFu) | ((qjm4 >> 6u) << 4u);
    let m = (qj4 >> 4u) | ((qj >> 6u) << 4u);
    return vec2<u32>(sc, m);
}
"#;

/// One decoded element of a `F32` block, through wide loads.
pub const F32_WIDE_MIDDLE: &'static str = r#"fn dequant_element(byte_offset: u32, k: u32) -> f32 {
    return bitcast<f32>(read_word_v4(byte_offset));
}
"#;

/// One decoded element of a `F16` block, through wide loads.
pub const F16_WIDE_MIDDLE: &'static str = r#"fn dequant_element(byte_offset: u32, k: u32) -> f32 {
    let word = read_word_v4(byte_offset - (byte_offset % 4u));
    let half = select(word & 0xFFFFu, word >> 16u, (byte_offset % 4u) != 0u);
    return f16_to_f32(half);
}
"#;

/// One decoded element of a `BF16` block, through wide loads.
pub const BF16_WIDE_MIDDLE: &'static str = r#"fn dequant_element(byte_offset: u32, k: u32) -> f32 {
    let word = read_word_v4(byte_offset - (byte_offset % 4u));
    let half = select(word & 0xFFFFu, word >> 16u, (byte_offset % 4u) != 0u);
    return bf16_to_f32(half);
}
"#;

/// One decoded element of a `Q4_0` block, through wide loads.
pub const Q4_0_WIDE_MIDDLE: &'static str = r#"fn dequant_element(byte_offset: u32, k: u32) -> f32 {
    let dword = read_word_v4(byte_offset - (byte_offset % 4u));
    let d = f16_to_f32(select(dword & 0xFFFFu, dword >> 16u, (byte_offset % 4u) != 0u));
    if (k < 16u) {
        let byte = read_byte_v4(byte_offset + 2u + k);
        return f32(i32(byte & 0xFu) - 8) * d;
    }
    let byte = read_byte_v4(byte_offset + 2u + (k - 16u));
    return f32(i32(byte >> 4u) - 8) * d;
}
"#;

/// One decoded element of a `Q5_0` block, through wide loads.
pub const Q5_0_WIDE_MIDDLE: &'static str = r#"fn dequant_element(byte_offset: u32, k: u32) -> f32 {
    let dword = read_word_v4(byte_offset - (byte_offset % 4u));
    let d = f16_to_f32(select(dword & 0xFFFFu, dword >> 16u, (byte_offset % 4u) != 0u));
    let qh = read_word_unaligned_v4(byte_offset + 2u);
    if (k < 16u) {
        let byte = read_byte_v4(byte_offset + 6u + k);
        let xh_0 = ((qh >> k) << 4u) & 0x10u;
        return f32(i32((byte & 0xFu) | xh_0) - 16) * d;
    }
    let j = k - 16u;
    let byte = read_byte_v4(byte_offset + 6u + j);
    let xh_1 = (qh >> (j + 12u)) & 0x10u;
    return f32(i32((byte >> 4u) | xh_1) - 16) * d;
}
"#;

/// One decoded element of a `Q8_0` block, through wide loads.
pub const Q8_0_WIDE_MIDDLE: &'static str = r#"fn dequant_element(byte_offset: u32, k: u32) -> f32 {
    let dword = read_word_v4(byte_offset - (byte_offset % 4u));
    let d = f16_to_f32(select(dword & 0xFFFFu, dword >> 16u, (byte_offset % 4u) != 0u));
    let byte = read_byte_v4(byte_offset + 2u + k);
    var v: i32 = i32(byte);
    if (v >= 128) {
        v = v - 256;
    }
    return f32(v) * d;
}
"#;

/// One decoded element of a `Q4_K` block, through wide loads.
pub const Q4_K_WIDE_MIDDLE: &'static str = r#"
fn qs_byte_q4k(vec4_base: u32, qi: u32) -> u32 {
    let v4i = vec4_base + 1u + qi / 16u;
    let word = vec4_word(weights[v4i], (qi % 16u) / 4u);
    return (word >> (8u * (qi % 4u))) & 0xFFu;
}

fn dequant_element(byte_offset: u32, k: u32) -> f32 {
    let vec4_base = byte_offset / 16u;
    let header = weights[vec4_base];
    let d = f16_to_f32(header.x & 0xFFFFu);
    let dmin = f16_to_f32(header.x >> 16u);
    let scales = vec3<u32>(header.y, header.z, header.w);
    let q_offset = (k / 64u) * 64u;
    let local_in_group = k % 64u;
    let is_base = (q_offset / 64u) * 2u;
    let qi_base = q_offset / 2u;
    if (local_in_group < 32u) {
        let byte = qs_byte_q4k(vec4_base, qi_base + local_in_group);
        let sm = get_scale_min_k4_v4(scales, is_base);
        let d1 = d * f32(sm.x);
        let m1 = dmin * f32(sm.y);
        return d1 * f32(byte & 0xFu) - m1;
    }
    let l = local_in_group - 32u;
    let byte = qs_byte_q4k(vec4_base, qi_base + l);
    let sm = get_scale_min_k4_v4(scales, is_base + 1u);
    let d2 = d * f32(sm.x);
    let m2 = dmin * f32(sm.y);
    return d2 * f32(byte >> 4u) - m2;
}
"#;

/// One decoded element of a `Q5_K` block, through wide loads.
pub const Q5_K_WIDE_MIDDLE: &'static str = r#"
fn qh_byte_q5k(vec4_base: u32, l: u32) -> u32 {
    let v4i = vec4_base + 1u + l / 16u;
    let word = vec4_word(weights[v4i], (l % 16u) / 4u);
    return (word >> (8u * (l % 4u))) & 0xFFu;
}

fn qs_byte_q5k(vec4_base: u32, qi: u32) -> u32 {
    let v4i = vec4_base + 3u + qi / 16u;
    let word = vec4_word(weights[v4i], (qi % 16u) / 4u);
    return (word >> (8u * (qi % 4u))) & 0xFFu;
}

fn dequant_element(byte_offset: u32, k: u32) -> f32 {
    let vec4_base = byte_offset / 16u;
    let header = weights[vec4_base];
    let d = f16_to_f32(header.x & 0xFFFFu);
    let dmin = f16_to_f32(header.x >> 16u);
    let scales = vec3<u32>(header.y, header.z, header.w);
    let q_offset = (k / 64u) * 64u;
    let idx = q_offset / 64u;
    let local_in_group = k % 64u;
    let is_base = idx * 2u;
    let ql_offset = idx * 32u;
    let u1 = 1u << (2u * idx);
    let u2 = 2u << (2u * idx);
    if (local_in_group < 32u) {
        let l = local_in_group;
        let byte = qs_byte_q5k(vec4_base, ql_offset + l);
        let qhbyte = qh_byte_q5k(vec4_base, l);
        var hi_bit: i32 = 0;
        if ((qhbyte & u1) != 0u) {
            hi_bit = 16;
        }
        let sm = get_scale_min_k4_v4(scales, is_base);
        let d1 = d * f32(sm.x);
        let m1 = dmin * f32(sm.y);
        return d1 * f32(i32(byte & 0xFu) + hi_bit) - m1;
    }
    let l = local_in_group - 32u;
    let byte = qs_byte_q5k(vec4_base, ql_offset + l);
    let qhbyte = qh_byte_q5k(vec4_base, l);
    var hi_bit: i32 = 0;
    if ((qhbyte & u2) != 0u) {
        hi_bit = 16;
    }
    let sm = get_scale_min_k4_v4(scales, is_base + 1u);
    let d2 = d * f32(sm.x);
    let m2 = dmin * f32(sm.y);
    return d2 * f32(i32(byte >> 4u) + hi_bit) - m2;
}
"#;

/// One decoded element of a `Q6_K` block, through wide loads.
pub const Q6_K_WIDE_MIDDLE: &'static str = r#"fn dequant_element(byte_offset: u32, k: u32) -> f32 {
    let ql_off = byte_offset;
    let qh_off = byte_offset + 128u;
    let sc_off = byte_offset + 192u;
    let d_offset = byte_offset + 208u;
    let dword = read_word_v4(d_offset - (d_offset % 4u));
    let d = f16_to_f32(select(dword & 0xFFFFu, dword >> 16u, (d_offset % 4u) != 0u));
    let y_off = (k / 128u) * 128u;
    let idx = y_off / 128u;
    let local_in_group = k % 128u;
    let which_q = local_in_group / 32u;
    let l = local_in_group % 32u;
    let ql_o = idx * 64u;
    let qh_o = idx * 32u;
    let sc_o = idx * 8u;
    let is = l / 16u;
    let ql_l = read_byte_v4(ql_off + ql_o + l);
    let ql_l32 = read_byte_v4(ql_off + ql_o + l + 32u);
    let qh_l = read_byte_v4(qh_off + qh_o + l);
    var q: i32;
    var sc_idx: u32;
    if (which_q == 0u) {
        q = i32((ql_l & 0xFu) | ((qh_l & 3u) << 4u)) - 32;
        sc_idx = is;
    } else if (which_q == 1u) {
        q = i32((ql_l32 & 0xFu) | (((qh_l >> 2u) & 3u) << 4u)) - 32;
        sc_idx = is + 2u;
    } else if (which_q == 2u) {
        q = i32((ql_l >> 4u) | (((qh_l >> 4u) & 3u) << 4u)) - 32;
        sc_idx = is + 4u;
    } else {
        q = i32((ql_l32 >> 4u) | (((qh_l >> 6u) & 3u) << 4u)) - 32;
        sc_idx = is + 6u;
    }
    var sc: i32 = i32(read_byte_v4(sc_off + sc_o + sc_idx));
    if (sc >= 128) {
        sc = sc - 256;
    }
    return d * f32(sc) * f32(q);
}
"#;

/// The dot product of one lane with a `Q4_K` block.
pub const Q4K_UNROLL_MIDDLE: &'static str = r#"
fn qs_byte_q4k(vec4_base: u32, qi: u32) -> u32 {
    let v4i = vec4_base + 1u + qi / 16u;
    let word = vec4_word(weights[v4i], (qi % 16u) / 4u);
    return (word >> (8u * (qi % 4u))) & 0xFFu;
}

fn q4k_elem(d: f32, dmin: f32, scales: vec3<u32>, g: u32, is_low: bool, byte: u32) -> f32 {
    let is_idx = g * 2u + select(1u, 0u, is_low);
    let sm = get_scale_min_k4_v4(scales, is_idx);
    let dd = d * f32(sm.x);
    let mm = dmin * f32(sm.y);
    let nib = select(byte >> 4u, byte & 0xFu, is_low);
    return dd * f32(nib) - mm;
}

fn block_dot(byte_offset: u32, local: u32, x0: f32, x1: f32, x2: f32, x3: f32) -> f32 {
    let is_low = local < 32u;
    let qsi = select(local - 32u, local, is_low);
    let vec4_base = byte_offset / 16u;
    let header = weights[vec4_base];
    let d = f16_to_f32(header.x & 0xFFFFu);
    let dmin = f16_to_f32(header.x >> 16u);
    let scales = vec3<u32>(header.y, header.z, header.w);
    let b0 = qs_byte_q4k(vec4_base, qsi);
    let b1 = qs_byte_q4k(vec4_base, 32u + qsi);
    let b2 = qs_byte_q4k(vec4_base, 64u + qsi);
    let b3 = qs_byte_q4k(vec4_base, 96u + qsi);
    return q4k_elem(d, dmin, scales, 0u, is_low, b0) * x0
         + q4k_elem(d, dmin, scales, 1u, is_low, b1) * x1
         + q4k_elem(d, dmin, scales, 2u, is_low, b2) * x2
         + q4k_elem(d, dmin, scales, 3u, is_low, b3) * x3;
}
"#;

/// The dot product of one lane with a `Q5_K` block.
pub const Q5K_UNROLL_MIDDLE: &'static str = r#"
fn qh_byte_q5k(vec4_base: u32, l: u32) -> u32 {
    let v4i = vec4_base + 1u + l / 16u;
    let word = vec4_word(weights[v4i], (l % 16u) / 4u);
    return (word >> (8u * (l % 4u))) & 0xFFu;
}

fn qs_byte_q5k(vec4_base: u32, qi: u32) -> u32 {
    let v4i = vec4_base + 3u + qi / 16u;
    let word = vec4_word(weights[v4i], (qi % 16u) / 4u);
    return (word >> (8u * (qi % 4u))) & 0xFFu;
}

fn q5k_elem(d: f32, dmin: f32, scales: vec3<u32>, g: u32, is_low: bool, byte: u32, qh: u32) -> f32 {
    let is_idx = g * 2u + select(1u, 0u, is_low);
    let sm = get_scale_min_k4_v4(scales, is_idx);
    let dd = d * f32(sm.x);
    let mm = dmin * f32(sm.y);
    let bit = select(2u << (2u * g), 1u << (2u * g), is_low);
    var hi: i32 = 0;
    if ((qh & bit) != 0u) { hi = 16; }
    let nib = select(byte >> 4u, byte & 0xFu, is_low);
    return dd * f32(i32(nib) + hi) - mm;
}

fn block_dot(byte_offset: u32, local: u32, x0: f32, x1: f32, x2: f32, x3: f32) -> f32 {
    let is_low = local < 32u;
    let qsi = select(local - 32u, local, is_low);
    let vec4_base = byte_offset / 16u;
    let header = weights[vec4_base];
    let d = f16_to_f32(header.x & 0xFFFFu);
    let dmin = f16_to_f32(header.x >> 16u);
    let scales = vec3<u32>(header.y, header.z, header.w);
    let qh = qh_byte_q5k(vec4_base, qsi);
    let b0 = qs_byte_q5k(vec4_base, qsi);
    let b1 = qs_byte_q5k(vec4_base, 32u + qsi);
    let b2 = qs_byte_q5k(vec4_base, 64u + qsi);
    let b3 = qs_byte_q5k(vec4_base, 96u + qsi);
    return q5k_elem(d, dmin, scales, 0u, is_low, b0, qh) * x0
         + q5k_elem(d, dmin, scales, 1u, is_low, b1, qh) * x1
         + q5k_elem(d, dmin, scales, 2u, is_low, b2, qh) * x2
         + q5k_elem(d, dmin, scales, 3u, is_low, b3, qh) * x3;
}
"#;

/// The dot product of one lane with a `Q6_K` block.
pub const Q6K_UNROLL_MIDDLE: &'static str = r#"
// One Q6_K element: `ql` is this (idx,w_lo)'s pre-loaded low-or-high quant
// byte, `qh` its pre-loaded high-bit byte; `half` (0/1) selects the low or
// high `which_q` of the pair. `which_q = w_lo + 2*half`, matching
// `Q6_K_WIDE_MIDDLE`'s four branches.
fn q6k_elem(d: f32, sc_off: u32, idx: u32, w_lo: u32, half: u32, is: u32, ql: u32, qh: u32) -> f32 {
    let qh_shift = half * 4u + w_lo * 2u;
    let sc_idx = is + half * 4u + w_lo * 2u;
    let nib = select(ql >> 4u, ql & 0xFu, half == 0u);
    let q = i32(nib | (((qh >> qh_shift) & 3u) << 4u)) - 32;
    var sc: i32 = i32(read_byte_v4(sc_off + idx * 8u + sc_idx));
    if (sc >= 128) { sc = sc - 256; }
    return d * f32(sc) * f32(q);
}

fn block_dot(byte_offset: u32, local: u32, x0: f32, x1: f32, x2: f32, x3: f32) -> f32 {
    let ql_off = byte_offset;
    let qh_off = byte_offset + 128u;
    let sc_off = byte_offset + 192u;
    let d_offset = byte_offset + 208u;
    let dword = read_word_v4(d_offset - (d_offset % 4u));
    let d = f16_to_f32(select(dword & 0xFFFFu, dword >> 16u, (d_offset % 4u) != 0u));
    let l = local % 32u;
    let w_lo = local / 32u;
    let is = l / 16u;
    let qlA = read_byte_v4(ql_off + l + w_lo * 32u);
    let qhA = read_byte_v4(qh_off + l);
    let qlB = read_byte_v4(ql_off + 64u + l + w_lo * 32u);
    let qhB = read_byte_v4(qh_off + 32u + l);
    let e0 = q6k_elem(d, sc_off, 0u, w_lo, 0u, is, qlA, qhA);
    let e1 = q6k_elem(d, sc_off, 0u, w_lo, 1u, is, qlA, qhA);
    let e2 = q6k_elem(d, sc_off, 1u, w_lo, 0u, is, qlB, qhB);
    let e3 = q6k_elem(d, sc_off, 1u, w_lo, 1u, is, qlB, qhB);
    return e0 * x0 + e1 * x1 + e2 * x2 + e3 * x3;
}
"#;

/// Bindings and the per-block dot product of the light `Q4_K` kernel.
pub const Q4K_LIGHT_PRELUDE: &'static str = r#"
struct Meta {
    in_dim: u32,
    out_dim: u32,
    n_tokens: u32,
    row_bytes: u32,
}

@group(0) @binding(0) var<storage, read> weights: array<vec4<u32>>;
@group(0) @binding(1) var<storage, read> xv: array<vec4<f32>>;
@group(0) @binding(2) var<storage, read_write> y: array<f32>;
@group(0) @binding(3) var<uniform> params: Meta;

fn f16_to_f32(bits: u32) -> f32 {
    return unpack2x16float(bits & 0xFFFFu).x;
}

fn vec4_word(v: vec4<u32>, i: u32) -> u32 {
    if (i == 0u) { return v.x; }
    if (i == 1u) { return v.y; }
    if (i == 2u) { return v.z; }
    return v.w;
}

// 4-byte-aligned u32 read from the vec4<u32>-bound weight buffer.
fn read_word_v4(byte_offset: u32) -> u32 {
    return vec4_word(weights[byte_offset / 16u], (byte_offset % 16u) / 4u);
}

// Unpack the four bytes of a u32 into a vec4<f32>.
fn unpack4_f(w: u32) -> vec4<f32> {
    return vec4<f32>(
        f32(w & 0xFFu),
        f32((w >> 8u) & 0xFFu),
        f32((w >> 16u) & 0xFFu),
        f32((w >> 24u) & 0xFFu),
    );
}

// One of the six little-endian u16s of the 12-byte Q4_K scales region
// (bytes 4..16 of the block, i.e. header.y/.z/.w). k in 0..5.
fn scale_u16(header: vec4<u32>, k: u32) -> u32 {
    let word = vec4_word(header, (k / 2u) + 1u);
    return select(word >> 16u, word & 0xFFFFu, (k & 1u) == 0u);
}

// Contribution of super-block `i` of one output row to that row's dot,
// computed by the 16 threads that own this block. `block_byte_off` is the
// byte offset of the block in `weights` (row_base + i*144); `x_block_elem` is
// the element offset of the block's activations in `xv` (t*in_dim + i*256).
// Faithful port of llama.cpp's `calc_superblock` (one row, one column).
fn sb(block_byte_off: u32, x_block_elem: u32, y_offset: u32, q_offset: u32, v_im: u32) -> f32 {
    let header = weights[block_byte_off / 16u];
    let d = f16_to_f32(header.x & 0xFFFFu);
    let dmin = f16_to_f32(header.x >> 16u);

    // Scales/mins — llama.cpp's packed-u16 unpacking of get_scale_min_k4.
    let scale0_u32 = scale_u16(header, v_im);
    let scale4_u32 = scale_u16(header, v_im + 2u);
    let scale8_u32 = scale_u16(header, v_im + 4u);
    let scale_0_4_l = (scale4_u32 << 16u) | scale0_u32;
    let scale_0_4_h = (scale_0_4_l & 0xC0C0C0C0u) >> 2u;
    let sc_l = unpack4_f(scale_0_4_l & 0x3F3F3F3Fu);
    let sc_8 = unpack4_f((((scale8_u32 << 12u) | scale8_u32) & 0x0F0F0F0Fu) | scale_0_4_h);
    let sc0 = sc_l.x; let sc1 = sc_l.y; let sc2 = sc_l.z; let sc3 = sc_l.w;
    let sc4 = sc_8.x; let sc5 = sc_8.y; let sc6 = sc_8.z; let sc7 = sc_8.w;

    // 16 weight nibbles: two packed qs words (this thread's, and its +64 pair).
    let qs0 = read_word_v4(block_byte_off + 16u + q_offset);
    let qs64 = read_word_v4(block_byte_off + 16u + q_offset + 64u);
    let y1 = (x_block_elem + y_offset) / 4u;
    let y2 = (x_block_elem + y_offset + 128u) / 4u;
    let ones = vec4<f32>(1.0, 1.0, 1.0, 1.0);

    // Accumulate the four (weight, activation) vec4 groups one at a time so
    // only a single vec4 pair is live at once — the whole-superblock scale/min
    // sums stay in two scalars rather than four hoisted vec4s each. Keeps the
    // kernel's peak register footprint down (occupancy is the goal here).
    var main_sum: f32 = 0.0;
    var min_sum: f32 = 0.0;
    {
        let by = xv[y1];
        let q = unpack4_f(qs0 & 0x0F0F0F0Fu); // elements 0..3
        main_sum = main_sum + sc0 * dot(by, q);
        min_sum = min_sum + sc2 * dot(by, ones);
    }
    {
        let by = xv[y1 + 8u];
        let q = unpack4_f((qs0 >> 4u) & 0x0F0F0F0Fu); // 4..7
        main_sum = main_sum + sc1 * dot(by, q);
        min_sum = min_sum + sc3 * dot(by, ones);
    }
    {
        let by = xv[y2];
        let q = unpack4_f(qs64 & 0x0F0F0F0Fu); // 8..11
        main_sum = main_sum + sc4 * dot(by, q);
        min_sum = min_sum + sc6 * dot(by, ones);
    }
    {
        let by = xv[y2 + 8u];
        let q = unpack4_f((qs64 >> 4u) & 0x0F0F0F0Fu); // 12..15
        main_sum = main_sum + sc5 * dot(by, q);
        min_sum = min_sum + sc7 * dot(by, ones);
    }
    return d * main_sum - dmin * min_sum;
}
"#;

/// The dot product of one lane with four consecutive bytes of a `Q4_K` block.
pub const Q4K_CONTIG_MIDDLE: &'static str = r#"
// One 256-element super-block for lane `local` (0..31). `local` owns the
// `u32` at qs offset `local*4` — four consecutive qs bytes, all used. Group
// `g = local/8` picks the low/high scale sub-blocks (loaded once). Each qs
// byte's low nibble is weight `g*64 + p + c`, its high nibble weight
// `g*64 + 32 + p + c` (`p = (local%8)*4`, `c` the byte within the u32), so
// the four low positions are `xl.xyzw` and the four high positions
// `xh.xyzw`. Reuses `q4k_elem`'s exact per-element math (`d*scale*nib -
// dmin*min`), just factored out of the loop.
fn block_dot_contig(byte_offset: u32, local: u32, xl: vec4<f32>, xh: vec4<f32>) -> f32 {
    let vb = byte_offset / 16u;
    let header = weights[vb];
    let d = f16_to_f32(header.x & 0xFFFFu);
    let dmin = f16_to_f32(header.x >> 16u);
    let scales = vec3<u32>(header.y, header.z, header.w);
    let g = local / 8u;
    let w = read_word_v4(byte_offset + 16u + local * 4u);
    let slo = get_scale_min_k4_v4(scales, g * 2u);
    let shi = get_scale_min_k4_v4(scales, g * 2u + 1u);
    let dlo = d * f32(slo.x);
    let mlo = dmin * f32(slo.y);
    let dhi = d * f32(shi.x);
    let mhi = dmin * f32(shi.y);
    let b0 = w & 0xFFu;
    let b1 = (w >> 8u) & 0xFFu;
    let b2 = (w >> 16u) & 0xFFu;
    let b3 = (w >> 24u) & 0xFFu;
    return (dlo * f32(b0 & 0xFu) - mlo) * xl.x + (dhi * f32(b0 >> 4u) - mhi) * xh.x
         + (dlo * f32(b1 & 0xFu) - mlo) * xl.y + (dhi * f32(b1 >> 4u) - mhi) * xh.y
         + (dlo * f32(b2 & 0xFu) - mlo) * xl.z + (dhi * f32(b2 >> 4u) - mhi) * xh.z
         + (dlo * f32(b3 & 0xFu) - mlo) * xl.w + (dhi * f32(b3 >> 4u) - mhi) * xh.w;
}
"#;

/// The dot product of one lane with both halves of a `Q6_K` block.
pub const Q6K_DUAL_MIDDLE: &'static str = r#"
fn q6k_elem(d: f32, sc_off: u32, idx: u32, w_lo: u32, half: u32, is: u32, ql: u32, qh: u32) -> f32 {
    let qh_shift = half * 4u + w_lo * 2u;
    let sc_idx = is + half * 4u + w_lo * 2u;
    let nib = select(ql >> 4u, ql & 0xFu, half == 0u);
    let q = i32(nib | (((qh >> qh_shift) & 3u) << 4u)) - 32;
    var sc: i32 = i32(read_byte_v4(sc_off + idx * 8u + sc_idx));
    if (sc >= 128) { sc = sc - 256; }
    return d * f32(sc) * f32(q);
}

// One 256-element super-block for `local` in 0..31. `qhA`/`qhB` are each
// loaded once and shared across both `w_lo` halves (the two-wave kernel's
// redundant read); `ql` still differs per half. The eight elements map to
// the suffix's eight activations: `w_lo=0` -> `xl0..xl3`, `w_lo=1` ->
// `xh0..xh3`.
fn block_dot_dual(byte_offset: u32, local: u32,
                  xl0: f32, xh0: f32, xl1: f32, xh1: f32,
                  xl2: f32, xh2: f32, xl3: f32, xh3: f32) -> f32 {
    let ql_off = byte_offset;
    let qh_off = byte_offset + 128u;
    let sc_off = byte_offset + 192u;
    let d_offset = byte_offset + 208u;
    let dword = read_word_v4(d_offset - (d_offset % 4u));
    let d = f16_to_f32(select(dword & 0xFFFFu, dword >> 16u, (d_offset % 4u) != 0u));
    let l = local;
    let is = l / 16u;
    let qhA = read_byte_v4(qh_off + l);
    let qhB = read_byte_v4(qh_off + 32u + l);
    let qlA0 = read_byte_v4(ql_off + l);
    let qlA1 = read_byte_v4(ql_off + 32u + l);
    let qlB0 = read_byte_v4(ql_off + 64u + l);
    let qlB1 = read_byte_v4(ql_off + 96u + l);
    return q6k_elem(d, sc_off, 0u, 0u, 0u, is, qlA0, qhA) * xl0
         + q6k_elem(d, sc_off, 0u, 0u, 1u, is, qlA0, qhA) * xl1
         + q6k_elem(d, sc_off, 1u, 0u, 0u, is, qlB0, qhB) * xl2
         + q6k_elem(d, sc_off, 1u, 0u, 1u, is, qlB0, qhB) * xl3
         + q6k_elem(d, sc_off, 0u, 1u, 0u, is, qlA1, qhA) * xh0
         + q6k_elem(d, sc_off, 0u, 1u, 1u, is, qlA1, qhA) * xh1
         + q6k_elem(d, sc_off, 1u, 1u, 0u, is, qlB1, qhB) * xh2
         + q6k_elem(d, sc_off, 1u, 1u, 1u, is, qlB1, qhB) * xh3;
}
"#;

/// The dot product of one lane with both halves of a `Q4_K` block.
pub const Q4K_DUAL_MIDDLE: &'static str = r#"
fn qs_byte_q4k(vec4_base: u32, qi: u32) -> u32 {
    let v4i = vec4_base + 1u + qi / 16u;
    let word = vec4_word(weights[v4i], (qi % 16u) / 4u);
    return (word >> (8u * (qi % 4u))) & 0xFFu;
}

fn q4k_elem(d: f32, dmin: f32, scales: vec3<u32>, g: u32, is_low: bool, byte: u32) -> f32 {
    let is_idx = g * 2u + select(1u, 0u, is_low);
    let sm = get_scale_min_k4_v4(scales, is_idx);
    let dd = d * f32(sm.x);
    let mm = dmin * f32(sm.y);
    let nib = select(byte >> 4u, byte & 0xFu, is_low);
    return dd * f32(nib) - mm;
}

// One 256-element super-block for `local` in 0..31. Each of the four qs
// bytes (one per 64-group, at group-relative position `local`) is loaded
// exactly once; both of its nibbles are consumed — the low nibble against
// `xl_g` (position `g*64 + local`), the high nibble against `xh_g`
// (position `g*64 + 32 + local`). Header + the four byte loads are issued
// before the dependent dequant-and-multiply-adds, same memory-level-
// parallelism idiom as the two-wave `block_dot`.
fn block_dot_dual(byte_offset: u32, local: u32,
                  xl0: f32, xh0: f32, xl1: f32, xh1: f32,
                  xl2: f32, xh2: f32, xl3: f32, xh3: f32) -> f32 {
    let vec4_base = byte_offset / 16u;
    let header = weights[vec4_base];
    let d = f16_to_f32(header.x & 0xFFFFu);
    let dmin = f16_to_f32(header.x >> 16u);
    let scales = vec3<u32>(header.y, header.z, header.w);
    let b0 = qs_byte_q4k(vec4_base, local);
    let b1 = qs_byte_q4k(vec4_base, 32u + local);
    let b2 = qs_byte_q4k(vec4_base, 64u + local);
    let b3 = qs_byte_q4k(vec4_base, 96u + local);
    return q4k_elem(d, dmin, scales, 0u, true, b0) * xl0
         + q4k_elem(d, dmin, scales, 0u, false, b0) * xh0
         + q4k_elem(d, dmin, scales, 1u, true, b1) * xl1
         + q4k_elem(d, dmin, scales, 1u, false, b1) * xh1
         + q4k_elem(d, dmin, scales, 2u, true, b2) * xl2
         + q4k_elem(d, dmin, scales, 2u, false, b2) * xh2
         + q4k_elem(d, dmin, scales, 3u, true, b3) * xl3
         + q4k_elem(d, dmin, scales, 3u, false, b3) * xh3;
}
"#;

/// The dot product of one lane with a `Q4_K` block, as packed halves.
pub const Q4K_UNROLL_PACKED_MIDDLE: &'static str = r#"
fn qs_byte_q4k(vec4_base: u32, qi: u32) -> u32 {
    let v4i = vec4_base + 1u + qi / 16u;
    let word = vec4_word(weights[v4i], (qi % 16u) / 4u);
    return (word >> (8u * (qi % 4u))) & 0xFFu;
}

fn q4k_elem(d: f32, dmin: f32, scales: vec3<u32>, g: u32, is_low: bool, byte: u32) -> f32 {
    let is_idx = g * 2u + select(1u, 0u, is_low);
    let sm = get_scale_min_k4_v4(scales, is_idx);
    let dd = d * f32(sm.x);
    let mm = dmin * f32(sm.y);
    let nib = select(byte >> 4u, byte & 0xFu, is_low);
    return dd * f32(nib) - mm;
}

fn block_dot(byte_offset: u32, local: u32, x0: f32, x1: f32, x2: f32, x3: f32) -> f32 {
    let is_low = local < 32u;
    let qsi = select(local - 32u, local, is_low);
    let vec4_base = byte_offset / 16u;
    let header = weights[vec4_base];
    let d = f16_to_f32(header.x & 0xFFFFu);
    let dmin = f16_to_f32(header.x >> 16u);
    let scales = vec3<u32>(header.y, header.z, header.w);
    let b0 = qs_byte_q4k(vec4_base, qsi);
    let b1 = qs_byte_q4k(vec4_base, 32u + qsi);
    let b2 = qs_byte_q4k(vec4_base, 64u + qsi);
    let b3 = qs_byte_q4k(vec4_base, 96u + qsi);
    let e0 = q4k_elem(d, dmin, scales, 0u, is_low, b0);
    let e1 = q4k_elem(d, dmin, scales, 1u, is_low, b1);
    let e2 = q4k_elem(d, dmin, scales, 2u, is_low, b2);
    let e3 = q4k_elem(d, dmin, scales, 3u, is_low, b3);
    let w01 = vec2<f16>(f16(e0), f16(e1));
    let w23 = vec2<f16>(f16(e2), f16(e3));
    let x01 = vec2<f16>(f16(x0), f16(x1));
    let x23 = vec2<f16>(f16(x2), f16(x3));
    return f32(dot(w01, x01)) + f32(dot(w23, x23));
}
"#;

/// A pair of decoded elements of a `Q4_K` block through wide loads, as packed halves.
pub const Q4K_WIDE_PACKED_MIDDLE: &'static str = r#"
fn qs_byte_q4k_packed(vec4_base: u32, qi: u32) -> u32 {
    let v4i = vec4_base + 1u + qi / 16u;
    let word = vec4_word(weights[v4i], (qi % 16u) / 4u);
    return (word >> (8u * (qi % 4u))) & 0xFFu;
}

// `k` must be even — mirrors `shader_source_reduce_q4k_packed_f16`'s own
// `dequant_pair_f16` exactly (see its doc comment for why `k`/`k+1` always
// share one nibble half); only the byte source differs.
fn dequant_pair_f16(vec4_base: u32, k: u32) -> vec2<f16> {
    let header = weights[vec4_base];
    let d = f16_to_f32(header.x & 0xFFFFu);
    let dmin = f16_to_f32(header.x >> 16u);
    let scales = vec3<u32>(header.y, header.z, header.w);
    let q_offset = (k / 64u) * 64u;
    let local_in_group = k % 64u;
    let is_base = (q_offset / 64u) * 2u;
    let qi_base = q_offset / 2u;
    if (local_in_group < 32u) {
        let byte0 = qs_byte_q4k_packed(vec4_base, qi_base + local_in_group);
        let byte1 = qs_byte_q4k_packed(vec4_base, qi_base + local_in_group + 1u);
        let sm = get_scale_min_k4_v4(scales, is_base);
        let d1 = d * f32(sm.x);
        let m1 = dmin * f32(sm.y);
        return vec2<f16>(
            f16(d1 * f32(byte0 & 0xFu) - m1),
            f16(d1 * f32(byte1 & 0xFu) - m1),
        );
    }
    let l = local_in_group - 32u;
    let byte0 = qs_byte_q4k_packed(vec4_base, qi_base + l);
    let byte1 = qs_byte_q4k_packed(vec4_base, qi_base + l + 1u);
    let sm = get_scale_min_k4_v4(scales, is_base + 1u);
    let d2 = d * f32(sm.x);
    let m2 = dmin * f32(sm.y);
    return vec2<f16>(
        f16(d2 * f32(byte0 >> 4u) - m2),
        f16(d2 * f32(byte1 >> 4u) - m2),
    );
}
"#;

/// The parameters that every elementwise and norm kernel shares.
pub const ELEM_META: &'static str = r#"
struct ElemMeta {
    len: u32,
    _pad0: u32,
    extra: f32,
    _pad1: u32,
}
"#;

/// Adds two rows.
pub const ADD_SHADER_BODY: &'static str = r#"
@group(0) @binding(0) var<storage, read> a: array<f32>;
@group(0) @binding(1) var<storage, read> b: array<f32>;
@group(0) @binding(2) var<storage, read_write> y: array<f32>;
@group(0) @binding(3) var<uniform> em: ElemMeta;

@compute @workgroup_size(64)
fn main(@builtin(global_invocation_id) gid: vec3<u32>) {
    let i = gid.x;
    if (i >= em.len) {
        return;
    }
    y[i] = a[i] + b[i];
}
"#;

/// Multiplies two rows element by element.
pub const MUL_SHADER_BODY: &'static str = r#"
@group(0) @binding(0) var<storage, read> a: array<f32>;
@group(0) @binding(1) var<storage, read> b: array<f32>;
@group(0) @binding(2) var<storage, read_write> y: array<f32>;
@group(0) @binding(3) var<uniform> em: ElemMeta;

@compute @workgroup_size(64)
fn main(@builtin(global_invocation_id) gid: vec3<u32>) {
    let i = gid.x;
    if (i >= em.len) {
        return;
    }
    y[i] = a[i] * b[i];
}
"#;

/// The GELU activation.
pub const GELU_SHADER_BODY: &'static str = r#"
@group(0) @binding(0) var<storage, read> x: array<f32>;
@group(0) @binding(1) var<storage, read_write> y: array<f32>;
@group(0) @binding(2) var<uniform> em: ElemMeta;

@compute @workgroup_size(64)
fn main(@builtin(global_invocation_id) gid: vec3<u32>) {
    let i = gid.x;
    if (i >= em.len) {
        return;
    }
    let v = x[i];
    let sqrt_2_over_pi = 0.7978846;
    let coef_a = 0.044715;
    y[i] = 0.5 * v * (1.0 + tanh(sqrt_2_over_pi * v * (1.0 + coef_a * v * v)));
}
"#;

/// Multiplies a row by a number.
pub const SCALE_SHADER_BODY: &'static str = r#"
@group(0) @binding(0) var<storage, read> x: array<f32>;
@group(0) @binding(1) var<storage, read_write> y: array<f32>;
@group(0) @binding(2) var<uniform> em: ElemMeta;

@compute @workgroup_size(64)
fn main(@builtin(global_invocation_id) gid: vec3<u32>) {
    let i = gid.x;
    if (i >= em.len) {
        return;
    }
    y[i] = x[i] * em.extra;
}
"#;

/// What the norm kernels read.
pub const NORM_INPUTS: &'static str = r#"
@group(0) @binding(0) var<storage, read> x: array<f32>;
@group(0) @binding(1) var<storage, read> weight: array<f32>;
"#;

/// What the norm kernels write, and their parameters.
pub const NORM_OUTPUTS: &'static str = r#"@group(0) @binding(2) var<storage, read_write> y: array<f32>;
@group(0) @binding(3) var<uniform> em: ElemMeta;
"#;

/// The same with the residual that is added.
pub const NORM_ADD_OUTPUTS: &'static str = r#"@group(0) @binding(2) var<storage, read> residual: array<f32>;
@group(0) @binding(3) var<storage, read_write> y: array<f32>;
@group(0) @binding(4) var<uniform> em: ElemMeta;
"#;

/// A sum for each of `%WG%` threads.
pub const NORM_SUMS: &'static str = r#"
var<workgroup> partial_sums: array<f32, %WG%>;
"#;

/// The width of the workgroup.
pub const NORM_ENTRY: &'static str = r#"
@compute @workgroup_size(%WG%)
"#;

/// The sum of the squares that fall to a thread.
pub const NORM_SQUARES: &'static str = r#"fn main(@builtin(local_invocation_id) lid: vec3<u32>) {
    let local = lid.x;
    var partial: f32 = 0.0;
    var k: u32 = local;
    loop {
        if (k >= em.len) {
            break;
        }
        let v = x[k];
        partial = partial + v * v;
"#;

/// The step from one element of a thread to the next.
pub const NORM_STEP: &'static str = r#"        k = k + %WG%u;
"#;

/// The sum of a thread is shared.
pub const NORM_STORE: &'static str = r#"    }
    partial_sums[local] = partial;
    workgroupBarrier();
"#;

/// The tree begins with half of the threads.
pub const NORM_STRIDE: &'static str = r#"    var stride: u32 = %HALF%u;
"#;

/// The sums are added up by a pairwise tree.
pub const NORM_TREE: &'static str = r#"    loop {
        if (stride == 0u) {
            break;
        }
        if (local < stride) {
            partial_sums[local] = partial_sums[local] + partial_sums[local + stride];
        }
        workgroupBarrier();
        stride = stride / 2u;
    }
    let mean_sq = partial_sums[0] / f32(em.len);
    let scale = 1.0 / sqrt(mean_sq + em.extra);
    k = local;
    loop {
        if (k >= em.len) {
            break;
        }
"#;

/// A scaled element.
pub const NORM_WRITE: &'static str = r#"        y[k] = x[k] * scale * weight[k];
"#;

/// A scaled element with the residual added.
pub const NORM_ADD_WRITE: &'static str = r#"        y[k] = x[k] * scale * weight[k] + residual[k];
"#;

/// The end of the kernel.
pub const NORM_CLOSE: &'static str = r#"    }
}
"#;

/// The entry point of the norm kernels that reduce by subgroups, up to its width.
pub const SUBGROUP_NORM_ENTRY: &'static str = r#"
var<workgroup> partial_sums: array<f32, 64>;

@compute @workgroup_size("#;

/// The sum of the squares that fall to a thread, up to the step to its next element.
pub const SUBGROUP_NORM_SQUARES: &'static str = r#")
fn main(
    @builtin(local_invocation_id) lid: vec3<u32>,
    @builtin(subgroup_invocation_id) sg_lane: u32,
    @builtin(subgroup_id) sg_id: u32,
    @builtin(num_subgroups) n_sg: u32,
) {
    let local = lid.x;
    var partial: f32 = 0.0;
    var k: u32 = local;
    loop {
        if (k >= em.len) {
            break;
        }
        let v = x[k];
        partial = partial + v * v;
        k = k + "#;

/// The sums are added up by subgroups.
pub const SUBGROUP_NORM_TOTAL: &'static str = r#"u;
    }
    let sg_sum = subgroupAdd(partial);
    if (sg_lane == 0u) {
        partial_sums[sg_id] = sg_sum;
    }
    workgroupBarrier();
    var total: f32 = 0.0;
    var i: u32 = 0u;
    loop {
        if (i >= n_sg) {
            break;
        }
        total = total + partial_sums[i];
        i = i + 1u;
    }
    let mean_sq = total / f32(em.len);
    let scale = 1.0 / sqrt(mean_sq + em.extra);
    k = local;
    loop {
        if (k >= em.len) {
            break;
        }
"#;

/// Up to the step from one element of a thread to the next.
pub const SUBGROUP_NORM_STEP: &'static str = r#"        k = k + "#;

/// The end of the kernel.
pub const SUBGROUP_NORM_CLOSE: &'static str = r#"u;
    }
}
"#;

/// Attention of one query token over the whole cache, one workgroup per head.
pub const ATTENTION_SHADER_TEMPLATE: &'static str = r#"
%KV_ENABLE%
struct AttnMeta {
    n_head: u32,
    n_head_kv: u32,
    head_dim: u32,
    window_start: u32,
    n_pos: u32,
    capacity: u32,
    scale: f32,
    _pad: u32,
}

@group(0) @binding(0) var<storage, read> aq: array<f32>;
%KV_BINDINGS%
@group(0) @binding(3) var<storage, read_write> probs_scratch: array<f32>;
@group(0) @binding(4) var<storage, read_write> aout: array<f32>;
@group(0) @binding(5) var<uniform> am: AttnMeta;

%KV_READ_FNS%

// Size of the workgroup-shared `acc` accumulator, `MAX_HEAD_DIM * 4` bytes.
// The `2048u` here is a placeholder the shader-source builders substitute
// with the model's actual head_dim (`shader_source_attention`/`_split`'s
// `max_head_dim` argument) so `acc` isn't oversized — an oversized `acc`
// costs LDS and caps occupancy. The literal default only applies if a
// builder passes `2048` (the un-split test kernel does).
const MAX_HEAD_DIM: u32 = 2048u;

var<workgroup> shared_reduce: array<f32, 64>;
var<workgroup> tile_probs: array<f32, 64>;
var<workgroup> acc: array<f32, MAX_HEAD_DIM>;

fn score_at(h: u32, kv_head: u32, p: u32) -> f32 {
    let head_dim = am.head_dim;
    let q_base = h * head_dim;
    let k_base = (p * am.n_head_kv + kv_head) * head_dim;
    var s: f32 = 0.0;
    var d: u32 = 0u;
    loop {
        if (d >= head_dim) {
            break;
        }
        s = s + aq[q_base + d] * kv_read_k(k_base + d);
        d = d + 1u;
    }
    return s * am.scale;
}

@compute @workgroup_size(64)
fn main(
    @builtin(workgroup_id) wid: vec3<u32>,
    @builtin(local_invocation_id) lid: vec3<u32>,
    %SUBGROUP_PARAMS%
) {
    let h = wid.x;
    let local = lid.x;
    let group_size = am.n_head / am.n_head_kv;
    let kv_head = h / group_size;
    let n_pos = am.n_pos;
    let head_dim = am.head_dim;

    var zd: u32 = local;
    loop {
        if (zd >= head_dim) {
            break;
        }
        acc[zd] = 0.0;
        zd = zd + 64u;
    }

    var m: f32 = -1e30;
    var l: f32 = 0.0;

    var tile_start: u32 = 0u;
    loop {
        if (tile_start >= n_pos) {
            break;
        }
        let tile_len = min(64u, n_pos - tile_start);
        let has_pos = local < tile_len;
        let p = am.window_start + tile_start + local;

        var my_score: f32 = -1e30;
        if (has_pos) {
            my_score = score_at(h, kv_head, p);
        }
        %MAX_REDUCE_BLOCK%

        var my_prob: f32 = 0.0;
        if (has_pos) {
            my_prob = exp(my_score - tile_max);
        }
        tile_probs[local] = my_prob;
        %SUM_REDUCE_BLOCK%

        let new_m = max(m, tile_max);
        let alpha_old = exp(m - new_m);
        let alpha_tile = exp(tile_max - new_m);
        l = l * alpha_old + tile_sum * alpha_tile;

        var d2: u32 = local;
        loop {
            if (d2 >= head_dim) {
                break;
            }
            var tile_contribution: f32 = 0.0;
            var j: u32 = 0u;
            loop {
                if (j >= tile_len) {
                    break;
                }
                let vp = am.window_start + tile_start + j;
                let v_base = (vp * am.n_head_kv + kv_head) * head_dim;
                tile_contribution = tile_contribution + tile_probs[j] * kv_read_v(v_base + d2);
                j = j + 1u;
            }
            acc[d2] = acc[d2] * alpha_old + alpha_tile * tile_contribution;
            d2 = d2 + 64u;
        }

        m = new_m;
        workgroupBarrier();
        tile_start = tile_start + 64u;
    }

    var d3: u32 = local;
    loop {
        if (d3 >= head_dim) {
            break;
        }
        aout[h * head_dim + d3] = acc[d3] / l;
        d3 = d3 + 64u;
    }
}
"#;

/// The same attention over one slice of the cache per workgroup, left unnormalized.
pub const ATTENTION_SPLIT_SHADER_TEMPLATE: &'static str = r#"
%KV_ENABLE%
struct AttnSplitMeta {
    n_head: u32,
    n_head_kv: u32,
    head_dim: u32,
    window_start: u32,
    n_pos: u32,
    k_num: u32,
    scale: f32,
    _pad: u32,
}

@group(0) @binding(0) var<storage, read> aq: array<f32>;
%KV_BINDINGS%
@group(0) @binding(3) var<storage, read_write> partial_ml: array<f32>;
@group(0) @binding(4) var<storage, read_write> partial_acc: array<f32>;
@group(0) @binding(5) var<uniform> am: AttnSplitMeta;

%KV_READ_FNS%

const MAX_HEAD_DIM: u32 = 2048u;

var<workgroup> shared_reduce: array<f32, 64>;
var<workgroup> tile_probs: array<f32, 64>;
var<workgroup> acc: array<f32, MAX_HEAD_DIM>;

fn score_at(h: u32, kv_head: u32, p: u32) -> f32 {
    let head_dim = am.head_dim;
    let q_base = h * head_dim;
    let k_base = (p * am.n_head_kv + kv_head) * head_dim;
    var s: f32 = 0.0;
    var d: u32 = 0u;
    loop {
        if (d >= head_dim) {
            break;
        }
        s = s + aq[q_base + d] * kv_read_k(k_base + d);
        d = d + 1u;
    }
    return s * am.scale;
}

@compute @workgroup_size(64)
fn main(
    @builtin(workgroup_id) wid: vec3<u32>,
    @builtin(local_invocation_id) lid: vec3<u32>,
    %SUBGROUP_PARAMS%
) {
    let h = wid.x;
    let split_idx = wid.y;
    let local = lid.x;
    let group_size = am.n_head / am.n_head_kv;
    let kv_head = h / group_size;
    let head_dim = am.head_dim;
    let k_num = am.k_num;

    let split_len = (am.n_pos + k_num - 1u) / k_num;
    let split_start = split_idx * split_len;
    let split_end = min(split_start + split_len, am.n_pos);

    var zd: u32 = local;
    loop {
        if (zd >= head_dim) {
            break;
        }
        acc[zd] = 0.0;
        zd = zd + 64u;
    }

    var m: f32 = -1e30;
    var l: f32 = 0.0;

    if (split_start < split_end) {
        var tile_start: u32 = split_start;
        loop {
            if (tile_start >= split_end) {
                break;
            }
            let tile_len = min(64u, split_end - tile_start);
            let has_pos = local < tile_len;
            let p = am.window_start + tile_start + local;

            var my_score: f32 = -1e30;
            if (has_pos) {
                my_score = score_at(h, kv_head, p);
            }
            %MAX_REDUCE_BLOCK%

            var my_prob: f32 = 0.0;
            if (has_pos) {
                my_prob = exp(my_score - tile_max);
            }
            tile_probs[local] = my_prob;
            %SUM_REDUCE_BLOCK%

            let new_m = max(m, tile_max);
            let alpha_old = exp(m - new_m);
            let alpha_tile = exp(tile_max - new_m);
            l = l * alpha_old + tile_sum * alpha_tile;

            var d2: u32 = local;
            loop {
                if (d2 >= head_dim) {
                    break;
                }
                var tile_contribution: f32 = 0.0;
                var j: u32 = 0u;
                loop {
                    if (j >= tile_len) {
                        break;
                    }
                    let vp = am.window_start + tile_start + j;
                    let v_base = (vp * am.n_head_kv + kv_head) * head_dim;
                    tile_contribution = tile_contribution + tile_probs[j] * kv_read_v(v_base + d2);
                    j = j + 1u;
                }
                acc[d2] = acc[d2] * alpha_old + alpha_tile * tile_contribution;
                d2 = d2 + 64u;
            }

            m = new_m;
            workgroupBarrier();
            tile_start = tile_start + 64u;
        }
    }

    let out_base = h * k_num + split_idx;
    if (local == 0u) {
        partial_ml[out_base * 2u] = m;
        partial_ml[out_base * 2u + 1u] = l;
    }
    var d3: u32 = local;
    loop {
        if (d3 >= head_dim) {
            break;
        }
        partial_acc[out_base * head_dim + d3] = acc[d3];
        d3 = d3 + 64u;
    }
}
"#;

/// Sliced attention that stages each tile of keys in shared memory.
pub const ATTENTION_SPLIT_FLASH_SHADER_TEMPLATE: &'static str = r#"
%KV_ENABLE%
struct AttnSplitMeta {
    n_head: u32,
    n_head_kv: u32,
    head_dim: u32,
    window_start: u32,
    n_pos: u32,
    k_num: u32,
    scale: f32,
    _pad: u32,
}

@group(0) @binding(0) var<storage, read> aq: array<f32>;
%KV_BINDINGS%
@group(0) @binding(3) var<storage, read_write> partial_ml: array<f32>;
@group(0) @binding(4) var<storage, read_write> partial_acc: array<f32>;
@group(0) @binding(5) var<uniform> am: AttnSplitMeta;

%KV_READ_FNS%

const MAX_HEAD_DIM: u32 = 2048u;
// Positions staged per tile, and the padded K-tile row stride (head_dim + 1).
const TILE_POS: u32 = %TILE_POS%u;
const KV_STRIDE: u32 = %KV_STRIDE%u;

var<workgroup> shared_reduce: array<f32, 64>;
var<workgroup> tile_probs: array<f32, 64>;
var<workgroup> acc: array<f32, MAX_HEAD_DIM>;
// Coalesced K-tile staging buffer: TILE_POS rows × head_dim, padded to
// KV_STRIDE so the strided score read is LDS-bank-conflict-free.
var<workgroup> k_shmem: array<f16, %K_SHMEM_LEN%>;

@compute @workgroup_size(64)
fn main(
    @builtin(workgroup_id) wid: vec3<u32>,
    @builtin(local_invocation_id) lid: vec3<u32>,
    %SUBGROUP_PARAMS%
) {
    let h = wid.x;
    let split_idx = wid.y;
    let local = lid.x;
    let group_size = am.n_head / am.n_head_kv;
    let kv_head = h / group_size;
    let head_dim = am.head_dim;
    let k_num = am.k_num;
    let q_base = h * head_dim;

    let split_len = (am.n_pos + k_num - 1u) / k_num;
    let split_start = split_idx * split_len;
    let split_end = min(split_start + split_len, am.n_pos);

    var zd: u32 = local;
    loop {
        if (zd >= head_dim) {
            break;
        }
        acc[zd] = 0.0;
        zd = zd + 64u;
    }

    var m: f32 = -1e30;
    var l: f32 = 0.0;

    if (split_start < split_end) {
        var tile_start: u32 = split_start;
        loop {
            if (tile_start >= split_end) {
                break;
            }
            let tile_len = min(TILE_POS, split_end - tile_start);

            // Cooperatively stage this tile's K rows into LDS. All 64 lanes
            // stream tile_len*head_dim contiguous f16 values — consecutive
            // lanes read consecutive global addresses (a coalesced burst),
            // replacing the un-staged kernel's per-position, stride-head_dim
            // (uncoalesced) K fetches.
            var e: u32 = local;
            loop {
                if (e >= tile_len * head_dim) {
                    break;
                }
                let row = e / head_dim;
                let col = e - row * head_dim;
                let pp = am.window_start + tile_start + row;
                let g = (pp * am.n_head_kv + kv_head) * head_dim + col;
                k_shmem[row * KV_STRIDE + col] = f16(kv_read_k(g));
                e = e + 64u;
            }
            workgroupBarrier();

            let has_pos = local < tile_len;
            var my_score: f32 = -1e30;
            if (has_pos) {
                var s: f32 = 0.0;
                var d: u32 = 0u;
                loop {
                    if (d >= head_dim) {
                        break;
                    }
                    s = s + aq[q_base + d] * f32(k_shmem[local * KV_STRIDE + d]);
                    d = d + 1u;
                }
                my_score = s * am.scale;
            }
            %MAX_REDUCE_BLOCK%

            var my_prob: f32 = 0.0;
            if (has_pos) {
                my_prob = exp(my_score - tile_max);
            }
            tile_probs[local] = my_prob;
            %SUM_REDUCE_BLOCK%

            let new_m = max(m, tile_max);
            let alpha_old = exp(m - new_m);
            let alpha_tile = exp(tile_max - new_m);
            l = l * alpha_old + tile_sum * alpha_tile;

            var d2: u32 = local;
            loop {
                if (d2 >= head_dim) {
                    break;
                }
                var tile_contribution: f32 = 0.0;
                var j: u32 = 0u;
                loop {
                    if (j >= tile_len) {
                        break;
                    }
                    let vp = am.window_start + tile_start + j;
                    let v_base = (vp * am.n_head_kv + kv_head) * head_dim;
                    tile_contribution = tile_contribution + tile_probs[j] * kv_read_v(v_base + d2);
                    j = j + 1u;
                }
                acc[d2] = acc[d2] * alpha_old + alpha_tile * tile_contribution;
                d2 = d2 + 64u;
            }

            m = new_m;
            workgroupBarrier();
            tile_start = tile_start + TILE_POS;
        }
    }

    let out_base = h * k_num + split_idx;
    if (local == 0u) {
        partial_ml[out_base * 2u] = m;
        partial_ml[out_base * 2u + 1u] = l;
    }
    var d3: u32 = local;
    loop {
        if (d3 >= head_dim) {
            break;
        }
        partial_acc[out_base * head_dim + d3] = acc[d3];
        d3 = d3 + 64u;
    }
}
"#;

/// Merges the slices of one head into the final output.
pub const ATTENTION_SPLIT_REDUCE_SHADER: &'static str = r#"
struct AttnReduceMeta {
    head_dim: u32,
    k_num: u32,
    _pad0: u32,
    _pad1: u32,
}

@group(0) @binding(0) var<storage, read> rml: array<f32>;
@group(0) @binding(1) var<storage, read> racc: array<f32>;
@group(0) @binding(2) var<storage, read_write> raout: array<f32>;
@group(0) @binding(3) var<uniform> rm: AttnReduceMeta;

@compute @workgroup_size(64)
fn main(
    @builtin(workgroup_id) wid: vec3<u32>,
    @builtin(local_invocation_id) lid: vec3<u32>,
) {
    let h = wid.x;
    let local = lid.x;
    let head_dim = rm.head_dim;
    let k_num = rm.k_num;

    var m: f32 = -1e30;
    var s: u32 = 0u;
    loop {
        if (s >= k_num) {
            break;
        }
        m = max(m, rml[(h * k_num + s) * 2u]);
        s = s + 1u;
    }

    var l: f32 = 0.0;
    s = 0u;
    loop {
        if (s >= k_num) {
            break;
        }
        let base = h * k_num + s;
        l = l + rml[base * 2u + 1u] * exp(rml[base * 2u] - m);
        s = s + 1u;
    }

    var d: u32 = local;
    loop {
        if (d >= head_dim) {
            break;
        }
        var acc_val: f32 = 0.0;
        var s2: u32 = 0u;
        loop {
            if (s2 >= k_num) {
                break;
            }
            let base = h * k_num + s2;
            acc_val = acc_val + racc[base * head_dim + d] * exp(rml[base * 2u] - m);
            s2 = s2 + 1u;
        }
        raout[h * head_dim + d] = acc_val / l;
        d = d + 64u;
    }
}
"#;

/// Casts a key or value row into a half-precision cache.
pub const KV_CAST_SHADER: &'static str = r#"
enable f16;
struct CastMeta {
    len: u32,
    offset: u32,
    extra: f32,
    _pad1: u32,
}

@group(0) @binding(0) var<storage, read> csrc: array<f32>;
@group(0) @binding(1) var<storage, read_write> cdst: array<f16>;
@group(0) @binding(2) var<uniform> cm: CastMeta;

@compute @workgroup_size(64)
fn main(@builtin(global_invocation_id) gid: vec3<u32>) {
    let idx = gid.x;
    if (idx >= cm.len) {
        return;
    }
    cdst[cm.offset + idx] = f16(csrc[idx]);
}
"#;

/// Quantizes a key or value row into a cache of quantized blocks.
pub const KV_QUANTIZE_Q8_0_SHADER: &'static str = r#"
struct QuantMeta {
    n_blocks: u32,
    dst_block_offset: u32,
    _pad0: u32,
    _pad1: u32,
}

@group(0) @binding(0) var<storage, read> csrc: array<f32>;
@group(0) @binding(1) var<storage, read_write> cdst: array<u32>;
@group(0) @binding(2) var<uniform> cm: QuantMeta;

@compute @workgroup_size(64)
fn main(@builtin(global_invocation_id) gid: vec3<u32>) {
    let block = gid.x;
    if (block >= cm.n_blocks) {
        return;
    }
    let src_base = block * 32u;
    var amax: f32 = 0.0;
    var i: u32 = 0u;
    loop {
        if (i >= 32u) {
            break;
        }
        amax = max(amax, abs(csrc[src_base + i]));
        i = i + 1u;
    }
    let d = amax / 127.0;
    let inv_d = select(0.0, 1.0 / d, d > 0.0);
    let word_base = (cm.dst_block_offset + block) * 9u;
    cdst[word_base] = bitcast<u32>(d);
    var w: u32 = 0u;
    loop {
        if (w >= 8u) {
            break;
        }
        var packed: u32 = 0u;
        var j: u32 = 0u;
        loop {
            if (j >= 4u) {
                break;
            }
            let v = csrc[src_base + w * 4u + j];
            var q: i32 = i32(round(v * inv_d));
            q = clamp(q, -127, 127);
            packed = packed | ((u32(q) & 0xFFu) << (j * 8u));
            j = j + 1u;
        }
        cdst[word_base + 1u + w] = packed;
        w = w + 1u;
    }
}
"#;

/// Rotary position embedding, in place.
pub const ROPE_SHADER: &'static str = r#"
struct RopeMeta {
    n_head: u32,
    head_dim: u32,
    rope_dim: u32,
    pos: u32,
    freq_base: f32,
    _pad0: u32,
    _pad1: u32,
    _pad2: u32,
}

@group(0) @binding(0) var<storage, read> rff: array<f32>;
@group(0) @binding(1) var<storage, read_write> rx: array<f32>;
@group(0) @binding(2) var<uniform> rm: RopeMeta;

@compute @workgroup_size(64)
fn main(@builtin(global_invocation_id) gid: vec3<u32>) {
    let half = rm.rope_dim / 2u;
    let total = rm.n_head * half;
    let idx = gid.x;
    if (idx >= total) {
        return;
    }
    let h = idx / half;
    let i = idx % half;
    let base = h * rm.head_dim;
    let freq = pow(rm.freq_base, -2.0 * f32(i) / f32(rm.rope_dim)) / rff[i];
    let theta = f32(rm.pos) * freq;
    let s = sin(theta);
    let c = cos(theta);
    let a = rx[base + i];
    let b = rx[base + i + half];
    rx[base + i] = a * c - b * s;
    rx[base + i + half] = a * s + b * c;
}
"#;

/// RMS norm of each head, reduced by a pairwise tree.
pub const PERHEAD_RMSNORM_SHADER: &'static str = r#"
struct PerHeadNormMeta {
    n_head: u32,
    head_dim: u32,
    eps: f32,
    _pad: u32,
}

@group(0) @binding(0) var<storage, read> pw: array<f32>;
@group(0) @binding(1) var<storage, read_write> px: array<f32>;
@group(0) @binding(2) var<uniform> pm: PerHeadNormMeta;

var<workgroup> ph_partial: array<f32, 64>;

@compute @workgroup_size(64)
fn main(
    @builtin(workgroup_id) wid: vec3<u32>,
    @builtin(local_invocation_id) lid: vec3<u32>,
) {
    let h = wid.x;
    let local = lid.x;
    let base = h * pm.head_dim;

    var partial: f32 = 0.0;
    var k: u32 = local;
    loop {
        if (k >= pm.head_dim) {
            break;
        }
        let v = px[base + k];
        partial = partial + v * v;
        k = k + 64u;
    }
    ph_partial[local] = partial;
    workgroupBarrier();
    var stride: u32 = 32u;
    loop {
        if (stride == 0u) {
            break;
        }
        if (local < stride) {
            ph_partial[local] = ph_partial[local] + ph_partial[local + stride];
        }
        workgroupBarrier();
        stride = stride / 2u;
    }
    let mean_sq = ph_partial[0] / f32(pm.head_dim);
    let scale = 1.0 / sqrt(mean_sq + pm.eps);
    workgroupBarrier();
    k = local;
    loop {
        if (k >= pm.head_dim) {
            break;
        }
        px[base + k] = px[base + k] * scale * pw[k];
        k = k + 64u;
    }
}
"#;

/// RMS norm of each head, reduced by subgroups.
pub const PERHEAD_RMSNORM_SHADER_SUBGROUP: &'static str = r#"
struct PerHeadNormMeta {
    n_head: u32,
    head_dim: u32,
    eps: f32,
    _pad: u32,
}

@group(0) @binding(0) var<storage, read> pw: array<f32>;
@group(0) @binding(1) var<storage, read_write> px: array<f32>;
@group(0) @binding(2) var<uniform> pm: PerHeadNormMeta;

var<workgroup> ph_partial: array<f32, 64>;

@compute @workgroup_size(64)
fn main(
    @builtin(workgroup_id) wid: vec3<u32>,
    @builtin(local_invocation_id) lid: vec3<u32>,
    @builtin(subgroup_invocation_id) sg_lane: u32,
    @builtin(subgroup_id) sg_id: u32,
    @builtin(num_subgroups) n_sg: u32,
) {
    let h = wid.x;
    let local = lid.x;
    let base = h * pm.head_dim;

    var partial: f32 = 0.0;
    var k: u32 = local;
    loop {
        if (k >= pm.head_dim) {
            break;
        }
        let v = px[base + k];
        partial = partial + v * v;
        k = k + 64u;
    }
    let sg_sum = subgroupAdd(partial);
    if (sg_lane == 0u) {
        ph_partial[sg_id] = sg_sum;
    }
    workgroupBarrier();
    var total: f32 = 0.0;
    var i: u32 = 0u;
    loop {
        if (i >= n_sg) {
            break;
        }
        total = total + ph_partial[i];
        i = i + 1u;
    }
    let mean_sq = total / f32(pm.head_dim);
    let scale = 1.0 / sqrt(mean_sq + pm.eps);
    k = local;
    loop {
        if (k >= pm.head_dim) {
            break;
        }
        px[base + k] = px[base + k] * scale * pw[k];
        k = k + 64u;
    }
}
"#;

/// RMS norm of each head without a learned scale, reduced by a pairwise tree.
pub const PERHEAD_RMSNORM_WEIGHTLESS_SHADER: &'static str = r#"
struct PerHeadNormMeta {
    n_head: u32,
    head_dim: u32,
    eps: f32,
    _pad: u32,
}

@group(0) @binding(0) var<storage, read_write> px: array<f32>;
@group(0) @binding(1) var<uniform> pm: PerHeadNormMeta;

var<workgroup> ph_partial: array<f32, 64>;

@compute @workgroup_size(64)
fn main(
    @builtin(workgroup_id) wid: vec3<u32>,
    @builtin(local_invocation_id) lid: vec3<u32>,
) {
    let h = wid.x;
    let local = lid.x;
    let base = h * pm.head_dim;

    var partial: f32 = 0.0;
    var k: u32 = local;
    loop {
        if (k >= pm.head_dim) {
            break;
        }
        let v = px[base + k];
        partial = partial + v * v;
        k = k + 64u;
    }
    ph_partial[local] = partial;
    workgroupBarrier();
    var stride: u32 = 32u;
    loop {
        if (stride == 0u) {
            break;
        }
        if (local < stride) {
            ph_partial[local] = ph_partial[local] + ph_partial[local + stride];
        }
        workgroupBarrier();
        stride = stride / 2u;
    }
    let mean_sq = ph_partial[0] / f32(pm.head_dim);
    let scale = 1.0 / sqrt(mean_sq + pm.eps);
    workgroupBarrier();
    k = local;
    loop {
        if (k >= pm.head_dim) {
            break;
        }
        px[base + k] = px[base + k] * scale;
        k = k + 64u;
    }
}
"#;

/// RMS norm of each head without a learned scale, reduced by subgroups.
pub const PERHEAD_RMSNORM_WEIGHTLESS_SHADER_SUBGROUP: &'static str = r#"
struct PerHeadNormMeta {
    n_head: u32,
    head_dim: u32,
    eps: f32,
    _pad: u32,
}

@group(0) @binding(0) var<storage, read_write> px: array<f32>;
@group(0) @binding(1) var<uniform> pm: PerHeadNormMeta;

var<workgroup> ph_partial: array<f32, 64>;

@compute @workgroup_size(64)
fn main(
    @builtin(workgroup_id) wid: vec3<u32>,
    @builtin(local_invocation_id) lid: vec3<u32>,
    @builtin(subgroup_invocation_id) sg_lane: u32,
    @builtin(subgroup_id) sg_id: u32,
    @builtin(num_subgroups) n_sg: u32,
) {
    let h = wid.x;
    let local = lid.x;
    let base = h * pm.head_dim;

    var partial: f32 = 0.0;
    var k: u32 = local;
    loop {
        if (k >= pm.head_dim) {
            break;
        }
        let v = px[base + k];
        partial = partial + v * v;
        k = k + 64u;
    }
    let sg_sum = subgroupAdd(partial);
    if (sg_lane == 0u) {
        ph_partial[sg_id] = sg_sum;
    }
    workgroupBarrier();
    var total: f32 = 0.0;
    var i: u32 = 0u;
    loop {
        if (i >= n_sg) {
            break;
        }
        total = total + ph_partial[i];
        i = i + 1u;
    }
    let mean_sq = total / f32(pm.head_dim);
    let scale = 1.0 / sqrt(mean_sq + pm.eps);
    k = local;
    loop {
        if (k >= pm.head_dim) {
            break;
        }
        px[base + k] = px[base + k] * scale;
        k = k + 64u;
    }
}
"#;

/// RMS norm of each head followed by its rotation.
pub const FUSED_NORM_ROPE_SHADER: &'static str = r#"
struct FusedNormRopeMeta {
    n_head: u32,
    head_dim: u32,
    rope_dim: u32,
    pos: u32,
    freq_base: f32,
    eps: f32,
    _pad0: u32,
    _pad1: u32,
}

@group(0) @binding(0) var<storage, read> fnw: array<f32>;
@group(0) @binding(1) var<storage, read> fnff: array<f32>;
@group(0) @binding(2) var<storage, read_write> fnx: array<f32>;
@group(0) @binding(3) var<uniform> fnm: FusedNormRopeMeta;

var<workgroup> fn_head: array<f32, 1024>;
var<workgroup> fn_partial: array<f32, 64>;

@compute @workgroup_size(64)
fn main(
    @builtin(workgroup_id) wid: vec3<u32>,
    @builtin(local_invocation_id) lid: vec3<u32>,
) {
    let h = wid.x;
    let local = lid.x;
    let base = h * fnm.head_dim;

    // Stage 1 (= PERHEAD_RMSNORM_SHADER's own first stage): sum of
    // squares, staging each raw value into `fn_head` on the way so stage 2
    // doesn't need to re-read `fnx`.
    var partial: f32 = 0.0;
    var k: u32 = local;
    loop {
        if (k >= fnm.head_dim) {
            break;
        }
        let v = fnx[base + k];
        fn_head[k] = v;
        partial = partial + v * v;
        k = k + 64u;
    }
    fn_partial[local] = partial;
    workgroupBarrier();
    var stride: u32 = 32u;
    loop {
        if (stride == 0u) {
            break;
        }
        if (local < stride) {
            fn_partial[local] = fn_partial[local] + fn_partial[local + stride];
        }
        workgroupBarrier();
        stride = stride / 2u;
    }
    let mean_sq = fn_partial[0] / f32(fnm.head_dim);
    let norm_scale = 1.0 / sqrt(mean_sq + fnm.eps);

    // Stage 2 (= PERHEAD_RMSNORM_SHADER's own second stage): scale +
    // learned weight, written into `fn_head` instead of back to `fnx`.
    k = local;
    loop {
        if (k >= fnm.head_dim) {
            break;
        }
        fn_head[k] = fn_head[k] * norm_scale * fnw[k];
        k = k + 64u;
    }
    workgroupBarrier();

    // Stage 3 (= ROPE_SHADER's own body, unchanged): rotate the now-
    // normalized pairs, reading/writing `fn_head` instead of `rx`.
    let half = fnm.rope_dim / 2u;
    k = local;
    loop {
        if (k >= half) {
            break;
        }
        let freq = pow(fnm.freq_base, -2.0 * f32(k) / f32(fnm.rope_dim)) / fnff[k];
        let theta = f32(fnm.pos) * freq;
        let s = sin(theta);
        let c = cos(theta);
        let a = fn_head[k];
        let b = fn_head[k + half];
        fn_head[k] = a * c - b * s;
        fn_head[k + half] = a * s + b * c;
        k = k + 64u;
    }
    workgroupBarrier();

    // Stage 4: the one write back to global memory — normalized+rotated
    // for `[0, rope_dim)`, normalized-only pass-through (untouched by
    // stage 3) for `[rope_dim, head_dim)`, exactly matching what running
    // the two original shaders back to back would leave in `fnx`.
    k = local;
    loop {
        if (k >= fnm.head_dim) {
            break;
        }
        fnx[base + k] = fn_head[k];
        k = k + 64u;
    }
}
"#;

/// Soft-caps every logit.
pub const ARGMAX_SOFTCAP_SHADER: &'static str = r#"
struct SampleMeta {
    n_vocab: u32,
    n_recent: u32,
    repeat_penalty: f32,
    logit_softcap: f32,
}

@group(0) @binding(0) var<storage, read_write> logits: array<f32>;
@group(0) @binding(3) var<uniform> sample_meta: SampleMeta;

@compute @workgroup_size(64)
fn main(@builtin(global_invocation_id) gid: vec3<u32>) {
    let idx = gid.x;
    if (idx >= sample_meta.n_vocab) {
        return;
    }
    let cap = sample_meta.logit_softcap;
    logits[idx] = cap * tanh(logits[idx] / cap);
}
"#;

/// Applies the repeat penalty to the logits of recent tokens, in order.
pub const ARGMAX_PENALTY_SHADER: &'static str = r#"
struct SampleMeta {
    n_vocab: u32,
    n_recent: u32,
    repeat_penalty: f32,
    logit_softcap: f32,
}

@group(0) @binding(0) var<storage, read_write> logits: array<f32>;
@group(0) @binding(1) var<storage, read> recent_tokens: array<u32>;
@group(0) @binding(2) var<storage, read_write> out_token: array<u32>;
@group(0) @binding(3) var<uniform> sample_meta: SampleMeta;

@compute @workgroup_size(64)
fn main(@builtin(local_invocation_id) lid: vec3<u32>) {
    if (lid.x != 0u) {
        return;
    }
    var i: u32 = 0u;
    loop {
        if (i >= sample_meta.n_recent) {
            break;
        }
        let tok = recent_tokens[i];
        if (tok < sample_meta.n_vocab) {
            let v = logits[tok];
            if (v > 0.0) {
                logits[tok] = v / sample_meta.repeat_penalty;
            } else {
                logits[tok] = v * sample_meta.repeat_penalty;
            }
        }
        i = i + 1u;
    }
}
"#;

/// The best logit of each workgroup's share of the vocabulary.
pub const ARGMAX_SPLIT_SHADER: &'static str = r#"
struct ArgmaxSplitMeta {
    n_vocab: u32,
    n_split: u32,
    _pad0: u32,
    _pad1: u32,
}

@group(0) @binding(0) var<storage, read> logits: array<f32>;
@group(0) @binding(1) var<storage, read_write> partial_val: array<f32>;
@group(0) @binding(2) var<storage, read_write> partial_idx: array<u32>;
@group(0) @binding(3) var<uniform> am: ArgmaxSplitMeta;

var<workgroup> best_val: array<f32, 64>;
var<workgroup> best_idx: array<u32, 64>;

@compute @workgroup_size(64)
fn main(
    @builtin(workgroup_id) wid: vec3<u32>,
    @builtin(local_invocation_id) lid: vec3<u32>,
) {
    let local = lid.x;
    var my_best_val: f32 = -3.4028235e38;
    var my_best_idx: u32 = 0u;
    var k: u32 = wid.x * 64u + local;
    let global_stride: u32 = am.n_split * 64u;
    loop {
        if (k >= am.n_vocab) {
            break;
        }
        let v = logits[k];
        if (v > my_best_val) {
            my_best_val = v;
            my_best_idx = k;
        }
        k = k + global_stride;
    }
    best_val[local] = my_best_val;
    best_idx[local] = my_best_idx;
    workgroupBarrier();

    var stride: u32 = 32u;
    loop {
        if (stride == 0u) {
            break;
        }
        if (local < stride && best_val[local + stride] > best_val[local]) {
            best_val[local] = best_val[local + stride];
            best_idx[local] = best_idx[local + stride];
        }
        workgroupBarrier();
        stride = stride / 2u;
    }

    if (local == 0u) {
        partial_val[wid.x] = best_val[0];
        partial_idx[wid.x] = best_idx[0];
    }
}
"#;

/// The best of the workgroups' winners.
pub const ARGMAX_REDUCE_SHADER_BODY: &'static str = r#"
@group(0) @binding(0) var<storage, read> partial_val: array<f32>;
@group(0) @binding(1) var<storage, read> partial_idx: array<u32>;
@group(0) @binding(2) var<storage, read_write> out_token: array<u32>;
@group(0) @binding(3) var<uniform> em: ElemMeta;

var<workgroup> best_val: array<f32, 64>;
var<workgroup> best_idx: array<u32, 64>;

@compute @workgroup_size(64)
fn main(@builtin(local_invocation_id) lid: vec3<u32>) {
    let local = lid.x;
    var my_best_val: f32 = -3.4028235e38;
    var my_best_idx: u32 = 0u;
    var k: u32 = local;
    loop {
        if (k >= em.len) {
            break;
        }
        let v = partial_val[k];
        if (v > my_best_val) {
            my_best_val = v;
            my_best_idx = partial_idx[k];
        }
        k = k + 64u;
    }
    best_val[local] = my_best_val;
    best_idx[local] = my_best_idx;
    workgroupBarrier();

    var stride: u32 = 32u;
    loop {
        if (stride == 0u) {
            break;
        }
        if (local < stride && best_val[local + stride] > best_val[local]) {
            best_val[local] = best_val[local + stride];
            best_idx[local] = best_idx[local + stride];
        }
        workgroupBarrier();
        stride = stride / 2u;
    }

    if (local == 0u) {
        out_token[0] = best_idx[0];
    }
}
"#;

/// Quantizes an activation row to blocks of 32 signed bytes.
pub const QUANTIZE_Q8_SHADER: &'static str = r#"
struct ElemMeta {
    len: u32,
    _p0: u32,
    _p1: u32,
    _p2: u32,
}

@group(0) @binding(0) var<storage, read> xin: array<f32>;
@group(0) @binding(1) var<storage, read_write> qout: array<u32>;
@group(0) @binding(2) var<uniform> qmeta: ElemMeta;

@compute @workgroup_size(64)
fn main(@builtin(global_invocation_id) gid: vec3<u32>) {
    let blk = gid.x;
    let n_blocks = qmeta.len / 32u;
    if (blk >= n_blocks) {
        return;
    }
    let base = blk * 32u;

    var amax: f32 = 0.0;
    var i: u32 = 0u;
    loop {
        if (i >= 32u) { break; }
        amax = max(amax, abs(xin[base + i]));
        i = i + 1u;
    }
    let d = amax / 127.0;
    let id = select(0.0, 1.0 / d, d > 0.0);

    var sumq: i32 = 0;
    let out_base = blk * 10u;
    var w: u32 = 0u;
    loop {
        if (w >= 8u) { break; }
        var word: u32 = 0u;
        var k: u32 = 0u;
        loop {
            if (k >= 4u) { break; }
            let v = xin[base + w * 4u + k];
            var q: i32 = i32(round(v * id));
            q = clamp(q, -127, 127);
            sumq = sumq + q;
            word = word | ((u32(q) & 0xFFu) << (8u * k));
            k = k + 1u;
        }
        qout[out_base + 2u + w] = word;
        w = w + 1u;
    }
    qout[out_base] = bitcast<u32>(d);
    qout[out_base + 1u] = bitcast<u32>(sumq);
}
"#;

/// The largest score of a tile, by subgroups.
pub const SUBGROUP_MAX_BLOCK: &'static str = r#"
        let sg_max = subgroupMax(my_score);
        if (subgroup_invocation_id == 0u) {
            shared_reduce[subgroup_id] = sg_max;
        }
        workgroupBarrier();
        var tile_max: f32 = shared_reduce[0];
        var mi: u32 = 1u;
        loop {
            if (mi >= num_subgroups) {
                break;
            }
            tile_max = max(tile_max, shared_reduce[mi]);
            mi = mi + 1u;
        }
        workgroupBarrier();
"#;

/// The sum of a tile's weights, by subgroups.
pub const SUBGROUP_SUM_BLOCK: &'static str = r#"
        let sg_sum = subgroupAdd(my_prob);
        if (subgroup_invocation_id == 0u) {
            shared_reduce[subgroup_id] = sg_sum;
        }
        workgroupBarrier();
        var tile_sum: f32 = shared_reduce[0];
        var si: u32 = 1u;
        loop {
            if (si >= num_subgroups) {
                break;
            }
            tile_sum = tile_sum + shared_reduce[si];
            si = si + 1u;
        }
        workgroupBarrier();
"#;

/// The largest score of a tile, by a pairwise tree.
pub const CLASSIC_MAX_BLOCK: &'static str = r#"
        shared_reduce[local] = my_score;
        workgroupBarrier();
        var stride: u32 = 32u;
        loop {
            if (stride == 0u) {
                break;
            }
            if (local < stride) {
                shared_reduce[local] = max(shared_reduce[local], shared_reduce[local + stride]);
            }
            workgroupBarrier();
            stride = stride / 2u;
        }
        let tile_max = shared_reduce[0];
        workgroupBarrier();
"#;

/// The sum of a tile's weights, by a pairwise tree.
pub const CLASSIC_SUM_BLOCK: &'static str = r#"
        shared_reduce[local] = my_prob;
        workgroupBarrier();
        var stride2: u32 = 32u;
        loop {
            if (stride2 == 0u) {
                break;
            }
            if (local < stride2) {
                shared_reduce[local] = shared_reduce[local] + shared_reduce[local + stride2];
            }
            workgroupBarrier();
            stride2 = stride2 / 2u;
        }
        let tile_sum = shared_reduce[0];
        workgroupBarrier();
"#;

/// Reads one element of a cache that is stored in quantized blocks.
pub const KV_READ_Q8_0: &'static str = r#"fn kv_dequant_q8_0(word0: u32, word_rest: u32, in_block: u32) -> f32 {
    let d = bitcast<f32>(word0);
    let j = in_block % 4u;
    let byte = (word_rest >> (j * 8u)) & 0xFFu;
    var q: i32 = i32(byte);
    if (q >= 128) {
        q = q - 256;
    }
    return f32(q) * d;
}
fn kv_read_k(idx: u32) -> f32 {
    let block = idx / 32u;
    let in_block = idx % 32u;
    let word_base = block * 9u;
    return kv_dequant_q8_0(k_cache[word_base], k_cache[word_base + 1u + in_block / 4u], in_block);
}
fn kv_read_v(idx: u32) -> f32 {
    let block = idx / 32u;
    let in_block = idx % 32u;
    let word_base = block * 9u;
    return kv_dequant_q8_0(v_cache[word_base], v_cache[word_base + 1u + in_block / 4u], in_block);
}"#;

/// The cache bindings for single-precision storage.
pub const KV_BINDINGS_F32: &'static str = r#"@group(0) @binding(1) var<storage, read> k_cache: array<f32>;
@group(0) @binding(2) var<storage, read> v_cache: array<f32>;"#;

/// The cache bindings for half-precision storage.
pub const KV_BINDINGS_F16: &'static str = r#"@group(0) @binding(1) var<storage, read> k_cache: array<f16>;
@group(0) @binding(2) var<storage, read> v_cache: array<f16>;"#;

/// The cache bindings for storage in quantized blocks.
pub const KV_BINDINGS_Q8_0: &'static str = r#"@group(0) @binding(1) var<storage, read> k_cache: array<u32>;
@group(0) @binding(2) var<storage, read> v_cache: array<u32>;"#;

/// Reads one element of a cache that is stored as floats.
pub const KV_READ_FLOAT: &'static str = r#"fn kv_read_k(idx: u32) -> f32 { return f32(k_cache[idx]); }
fn kv_read_v(idx: u32) -> f32 { return f32(v_cache[idx]); }"#;

/// The parameters of an attention entry point that only the subgroup variant has.
pub const ATTENTION_SUBGROUP_PARAMS: &'static str = r#"@builtin(subgroup_invocation_id) subgroup_invocation_id: u32,
    @builtin(subgroup_id) subgroup_id: u32,
    @builtin(num_subgroups) num_subgroups: u32,"#;

/// The subgroup parameters of the integer-dot kernel.
pub const MMVQ_SUBGROUP_PARAMS: &'static str = r#"@builtin(subgroup_invocation_id) sg_lane: u32,
    @builtin(subgroup_id) sg_id: u32,
    @builtin(num_subgroups) n_sg: u32,"#;

/// The final combine of the integer-dot kernel, by subgroups.
pub const MMVQ_REDUCE_SUBGROUP: &'static str = r#"    let total = subgroupAdd(partial);
    if (sg_lane == 0u) {
        y[t * params.out_dim + o] = total;
    }
"#;

/// The final combine of the integer-dot kernel, by a pairwise tree.
pub const MMVQ_REDUCE_TREE: &'static str = r#"    psum[tid] = partial;
    workgroupBarrier();
    var stride: u32 = 16u;
    loop {
        if (stride == 0u) { break; }
        if (tid < stride) { psum[tid] = psum[tid] + psum[tid + stride]; }
        workgroupBarrier();
        stride = stride / 2u;
    }
    if (tid == 0u) {
        y[t * params.out_dim + o] = psum[0];
    }
"#;

/// The integer-dot kernel up to its subgroup parameters.
pub const MMVQ_OPEN: &'static str = r#"
struct Meta {
    in_dim: u32,
    out_dim: u32,
    n_tokens: u32,
    row_bytes: u32,
}

@group(0) @binding(0) var<storage, read> weights: array<vec4<u32>>;
@group(0) @binding(1) var<storage, read> q8x: array<u32>;
@group(0) @binding(2) var<storage, read_write> y: array<f32>;
@group(0) @binding(3) var<uniform> params: Meta;

fn f16_to_f32(bits: u32) -> f32 {
    return unpack2x16float(bits & 0xFFFFu).x;
}
fn vec4_word(v: vec4<u32>, i: u32) -> u32 {
    if (i == 0u) { return v.x; }
    if (i == 1u) { return v.y; }
    if (i == 2u) { return v.z; }
    return v.w;
}
fn read_word_v4(byte_offset: u32) -> u32 {
    return vec4_word(weights[byte_offset / 16u], (byte_offset % 16u) / 4u);
}
fn vec3_word(v: vec3<u32>, i: u32) -> u32 {
    if (i == 0u) { return v.x; }
    if (i == 1u) { return v.y; }
    return v.z;
}
// ggml get_scale_min_k4, from the already-loaded 12-byte scales (header.yzw).
fn get_scale_min_k4_v4(scales: vec3<u32>, j: u32) -> vec2<u32> {
    if (j < 4u) {
        let qj = (vec3_word(scales, j / 4u) >> (8u * (j % 4u))) & 0xFFu;
        let qj4 = (vec3_word(scales, (j + 4u) / 4u) >> (8u * ((j + 4u) % 4u))) & 0xFFu;
        return vec2<u32>(qj & 63u, qj4 & 63u);
    }
    let qj = (vec3_word(scales, j / 4u) >> (8u * (j % 4u))) & 0xFFu;
    let qj4 = (vec3_word(scales, (j + 4u) / 4u) >> (8u * ((j + 4u) % 4u))) & 0xFFu;
    let qjm4 = (vec3_word(scales, (j - 4u) / 4u) >> (8u * ((j - 4u) % 4u))) & 0xFFu;
    let sc = (qj4 & 0xFu) | ((qjm4 >> 6u) << 4u);
    let m = (qj4 >> 4u) | ((qj >> 6u) << 4u);
    return vec2<u32>(sc, m);
}

var<workgroup> psum: array<f32, 32>;

@compute @workgroup_size(32)
fn main(
    @builtin(workgroup_id) wid: vec3<u32>,
    @builtin(local_invocation_id) lid: vec3<u32>,
    @builtin(num_workgroups) nwg: vec3<u32>,
    "#;

/// The integer-dot kernel between its parameters and its final combine.
pub const MMVQ_BODY: &'static str = r#"
) {
    let flat = wid.x + wid.y * nwg.x + wid.z * nwg.x * nwg.y;
    if (flat >= params.out_dim * params.n_tokens) {
        return;
    }
    let o = flat / params.n_tokens;
    let t = flat % params.n_tokens;
    let tid = lid.x;

    let n_sub = params.in_dim / 32u;          // 32-element sub-blocks per row
    let q8_row_base = t * n_sub * 10u;        // 10 u32 per q8 block

    var partial: f32 = 0.0;
    var sb: u32 = tid;
    loop {
        if (sb >= n_sub) {
            break;
        }
        let super_blk = sb / 8u;
        let b = sb % 8u;
        let block_byte_off = o * params.row_bytes + super_blk * 144u;
        let header = weights[block_byte_off / 16u];
        let d = f16_to_f32(header.x & 0xFFFFu);
        let dmin = f16_to_f32(header.x >> 16u);
        let sm = get_scale_min_k4_v4(vec3<u32>(header.y, header.z, header.w), b);
        let scale = f32(sm.x);
        let mn = f32(sm.y);

        // This sub-block's 32 nibbles: qs bytes 32*(b/2)..+32, low half for even
        // b, high half for odd b (ggml's contiguous-per-sub-block dequant order).
        let qbyte = block_byte_off + 16u + 32u * (b / 2u);
        let is_high = (b & 1u) == 1u;

        let q8base = q8_row_base + sb * 10u;
        let d_b = bitcast<f32>(q8x[q8base]);
        let sumq = bitcast<i32>(q8x[q8base + 1u]);

        var idot: i32 = 0;
        var i: u32 = 0u;
        loop {
            if (i >= 8u) {
                break;
            }
            let wraw = read_word_v4(qbyte + i * 4u);
            let wword = select(wraw & 0x0F0F0F0Fu, (wraw >> 4u) & 0x0F0F0F0Fu, is_high);
            idot = idot + dot4I8Packed(wword, q8x[q8base + 2u + i]);
            i = i + 1u;
        }

        partial = partial + d * scale * d_b * f32(idot) - dmin * mn * d_b * f32(sumq);
        sb = sb + 32u;
    }

"#;

/// The grouped kernel: its parameters and query binding.
pub const GQA_META: &'static str = r#"
struct AttnSplitMeta {
    n_head: u32,
    n_head_kv: u32,
    head_dim: u32,
    window_start: u32,
    n_pos: u32,
    k_num: u32,
    scale: f32,
    _pad: u32,
}

@group(0) @binding(0) var<storage, read> aq: array<f32>;
"#;

/// The grouped kernel: its output bindings.
pub const GQA_OUTPUTS: &'static str = r#"
@group(0) @binding(3) var<storage, read_write> partial_ml: array<f32>;
@group(0) @binding(4) var<storage, read_write> partial_acc: array<f32>;
@group(0) @binding(5) var<uniform> am: AttnSplitMeta;

"#;

/// The grouped kernel: the constant that holds the group size.
pub const GQA_GROUP: &'static str = r#"

const GROUP: u32 = "#;

/// The grouped kernel: the constant that holds the head size.
pub const GQA_HEAD_DIM: &'static str = r#"u;
const HEAD_DIM: u32 = "#;

/// The grouped kernel: its reduction scratch.
pub const GQA_PROBS: &'static str = r#"u;

var<workgroup> shared_reduce: array<f32, 64>;
var<workgroup> probs_g: array<f32, "#;

/// The grouped kernel: its accumulator.
pub const GQA_ACC: &'static str = r#">;
var<workgroup> acc: array<f32, "#;

/// The grouped kernel: its entry point.
pub const GQA_MAIN: &'static str = r#">;

@compute @workgroup_size(64)
fn main(
    @builtin(workgroup_id) wid: vec3<u32>,
    @builtin(local_invocation_id) lid: vec3<u32>,
) {
    let kv_head = wid.x;
    let split_idx = wid.y;
    let local = lid.x;
    let head_dim = am.head_dim;
    let k_num = am.k_num;

    let split_len = (am.n_pos + k_num - 1u) / k_num;
    let split_start = split_idx * split_len;
    let split_end = min(split_start + split_len, am.n_pos);

    var z: u32 = local;
    loop {
        if (z >= GROUP * head_dim) { break; }
        acc[z] = 0.0;
        z = z + 64u;
    }

    var m: array<f32, GROUP>;
    var l: array<f32, GROUP>;
    for (var hq: u32 = 0u; hq < GROUP; hq = hq + 1u) {
        m[hq] = -1e30;
        l[hq] = 0.0;
    }

    if (split_start < split_end) {
        var tile_start: u32 = split_start;
        loop {
            if (tile_start >= split_end) { break; }
            let tile_len = min(64u, split_end - tile_start);
            let has_pos = local < tile_len;
            let p = am.window_start + tile_start + local;

            // Shared K: read each K element once, dot into every head's score.
            var scores: array<f32, GROUP>;
            for (var hq: u32 = 0u; hq < GROUP; hq = hq + 1u) { scores[hq] = -1e30; }
            if (has_pos) {
                for (var hq: u32 = 0u; hq < GROUP; hq = hq + 1u) { scores[hq] = 0.0; }
                let k_base = (p * am.n_head_kv + kv_head) * head_dim;
                var d: u32 = 0u;
                loop {
                    if (d >= head_dim) { break; }
                    let kval = kv_read_k(k_base + d);
                    for (var hq: u32 = 0u; hq < GROUP; hq = hq + 1u) {
                        scores[hq] = scores[hq] + aq[(kv_head * GROUP + hq) * head_dim + d] * kval;
                    }
                    d = d + 1u;
                }
                for (var hq: u32 = 0u; hq < GROUP; hq = hq + 1u) { scores[hq] = scores[hq] * am.scale; }
            }

            // Per-head online-softmax update (tree reductions over the tile).
            var alpha_old: array<f32, GROUP>;
            var alpha_tile: array<f32, GROUP>;
            for (var hq: u32 = 0u; hq < GROUP; hq = hq + 1u) {
                shared_reduce[local] = scores[hq];
                workgroupBarrier();
                var stm: u32 = 32u;
                loop {
                    if (stm == 0u) { break; }
                    if (local < stm) { shared_reduce[local] = max(shared_reduce[local], shared_reduce[local + stm]); }
                    workgroupBarrier();
                    stm = stm / 2u;
                }
                let tile_max = shared_reduce[0];
                workgroupBarrier();
                var prob: f32 = 0.0;
                if (has_pos) { prob = exp(scores[hq] - tile_max); }
                probs_g[hq * 64u + local] = prob;
                shared_reduce[local] = prob;
                var st: u32 = 32u;
                workgroupBarrier();
                loop {
                    if (st == 0u) { break; }
                    if (local < st) { shared_reduce[local] = shared_reduce[local] + shared_reduce[local + st]; }
                    workgroupBarrier();
                    st = st / 2u;
                }
                let tile_sum = shared_reduce[0];
                workgroupBarrier();
                let new_m = max(m[hq], tile_max);
                alpha_old[hq] = exp(m[hq] - new_m);
                alpha_tile[hq] = exp(tile_max - new_m);
                l[hq] = l[hq] * alpha_old[hq] + tile_sum * alpha_tile[hq];
                m[hq] = new_m;
            }

            // Shared V: read each V element once, weight into every head's acc.
            var d2: u32 = local;
            loop {
                if (d2 >= head_dim) { break; }
                var contrib: array<f32, GROUP>;
                for (var hq: u32 = 0u; hq < GROUP; hq = hq + 1u) { contrib[hq] = 0.0; }
                var j: u32 = 0u;
                loop {
                    if (j >= tile_len) { break; }
                    let vp = am.window_start + tile_start + j;
                    let v_base = (vp * am.n_head_kv + kv_head) * head_dim;
                    let vval = kv_read_v(v_base + d2);
                    for (var hq: u32 = 0u; hq < GROUP; hq = hq + 1u) {
                        contrib[hq] = contrib[hq] + probs_g[hq * 64u + j] * vval;
                    }
                    j = j + 1u;
                }
                for (var hq: u32 = 0u; hq < GROUP; hq = hq + 1u) {
                    acc[hq * head_dim + d2] = acc[hq * head_dim + d2] * alpha_old[hq] + alpha_tile[hq] * contrib[hq];
                }
                d2 = d2 + 64u;
            }

            workgroupBarrier();
            tile_start = tile_start + 64u;
        }
    }

    for (var hq: u32 = 0u; hq < GROUP; hq = hq + 1u) {
        let h = kv_head * GROUP + hq;
        let out_base = h * k_num + split_idx;
        if (local == 0u) {
            partial_ml[out_base * 2u] = m[hq];
            partial_ml[out_base * 2u + 1u] = l[hq];
        }
        var d3: u32 = local;
        loop {
            if (d3 >= head_dim) { break; }
            partial_acc[out_base * head_dim + d3] = acc[hq * head_dim + d3];
            d3 = d3 + 64u;
        }
    }
}
"#;

} // verus!
