//! The entry points of the row-reduction kernels, written out for a chosen
//! number of rows per workgroup.

use vstd::prelude::*;

use crate::occurs;
use crate::text;
use crate::text::fill_grid;
use crate::text::fill_lines;
use crate::text::push_decimal;
use crate::vulkan_shaders::templates::Q4K_LIGHT_PRELUDE;

verus! {

pub const SUBGROUP_SUM_LINE: &'static str = r#"    let sg{i} = subgroupAdd(partial{i});
"#;

pub const FIRST_LANE_OPEN: &'static str = r#"    if (sg_lane == 0u) {
"#;

pub const SUBGROUP_STORE_LINE: &'static str = r#"        partial_sums[{i}u * 64u + sg_id] = sg{i};
"#;

pub const FIRST_THREAD_OPEN: &'static str = r#"    }
    workgroupBarrier();
    if (local == 0u) {
"#;

pub const TOTAL_INIT_LINE: &'static str = r#"        var t{i}: f32 = 0.0;
"#;

pub const SUBGROUP_LOOP_OPEN: &'static str = r#"        var i: u32 = 0u;
        loop {
            if (i >= n_sg) {
                break;
            }
"#;

pub const TOTAL_ADD_LINE: &'static str = r#"            t{i} = t{i} + partial_sums[{i}u * 64u + i];
"#;

pub const SUBGROUP_LOOP_CLOSE: &'static str = r#"            i = i + 1u;
        }
        y[t * params.out_dim + o0] = t0;
"#;

pub const TOTAL_WRITE_LINE: &'static str = r#"        if (o{i} < params.out_dim) {
            y[t * params.out_dim + o{i}] = t{i};
        }
"#;

pub const PARTIAL_STORE_64_LINE: &'static str = r#"    partial_sums[{i}u * 64u + local] = partial{i};
"#;

pub const TREE_64_OPEN: &'static str = r#"    workgroupBarrier();
    var stride: u32 = 32u;
    loop {
        if (stride == 0u) {
            break;
        }
        if (local < stride) {
"#;

pub const TREE_64_LINE: &'static str = r#"            partial_sums[{i}u * 64u + local] = partial_sums[{i}u * 64u + local] + partial_sums[{i}u * 64u + local + stride];
"#;

pub const TREE_CLOSE_WRITE_FIRST: &'static str = r#"        }
        workgroupBarrier();
        stride = stride / 2u;
    }
    if (local == 0u) {
        y[t * params.out_dim + o0] = partial_sums[0];
"#;

pub const PARTIAL_WRITE_64_LINE: &'static str = r#"        if (o{i} < params.out_dim) {
            y[t * params.out_dim + o{i}] = partial_sums[{i}u * 64u];
        }
"#;

pub const SUMS_DECL: &'static str = r#"var<workgroup> partial_sums: array<f32, "#;

pub const ENTRY_64: &'static str = r#">;

@compute @workgroup_size(64)
fn main(
    @builtin(workgroup_id) wid: vec3<u32>,
    @builtin(local_invocation_id) lid: vec3<u32>,
    @builtin(num_workgroups) nwg: vec3<u32>,"#;

pub const ROW_GROUPS_OPEN: &'static str = r#"
) {
    let n_row_groups = (params.out_dim + "#;

pub const REDUCE_INDEX: &'static str = r#"u;
    let flat = wid.x + wid.y * nwg.x + wid.z * nwg.x * nwg.y;
    if (flat >= n_row_groups * params.n_tokens) {
        return;
    }
    let rg = flat / params.n_tokens;
    let t = flat % params.n_tokens;
    let o_base = rg * "#;

pub const ROW_BASE_LINE: &'static str = r#"    let o{i} = o_base + {i}u;
"#;

pub const ROW_LOCALS: &'static str = r#"    let local = lid.x;
    let x_base = t * params.in_dim;

"#;

pub const PARTIAL_INIT_LINE: &'static str = r#"    var partial{i}: f32 = 0.0;
"#;

pub const REDUCE_LOOP_OPEN: &'static str = r#"    var k: u32 = local;
    loop {
        if (k >= params.in_dim) {
            break;
        }
        let block_idx = k / BLOCK_ELEMS;
        let local_k = k % BLOCK_ELEMS;
        let block_off = block_idx * BLOCK_BYTES;
        let xv = x[x_base + k];
        partial0 = partial0 + dequant_element(o0 * params.row_bytes + block_off, local_k) * xv;
"#;

pub const REDUCE_ROW_LINE: &'static str = r#"        if (o{i} < params.out_dim) {
            partial{i} = partial{i} + dequant_element(o{i} * params.row_bytes + block_off, local_k) * xv;
        }
"#;

pub const REDUCE_LOOP_CLOSE: &'static str = r#"        k = k + 64u;
    }

"#;

pub const FIRST_ROW_INDEX: &'static str = r#"u;
    let flat = wid.x + wid.y * nwg.x + wid.z * nwg.x * nwg.y;
    if (flat >= n_row_groups * params.n_tokens) {
        return;
    }
    let rg = flat / params.n_tokens;
    let t = flat % params.n_tokens;
    let o0 = rg * "#;

pub const ROW_OFFSET_LINE: &'static str = r#"    let o{i} = o0 + {i}u;
"#;

pub const UNROLL_LOOP_OPEN: &'static str = r#"
    let n_blocks = params.in_dim / BLOCK_ELEMS;
    var b: u32 = 0u;
    loop {
        if (b >= n_blocks) {
            break;
        }
        let block_off = b * BLOCK_BYTES;
        let x_blk = x_base + b * BLOCK_ELEMS;
        let x0 = x[x_blk + local];
        let x1 = x[x_blk + 64u + local];
        let x2 = x[x_blk + 128u + local];
        let x3 = x[x_blk + 192u + local];
        partial0 = partial0 + block_dot(o0 * params.row_bytes + block_off, local, x0, x1, x2, x3);
"#;

pub const UNROLL_ROW_LINE: &'static str = r#"        if (o{i} < params.out_dim) {
            partial{i} = partial{i} + block_dot(o{i} * params.row_bytes + block_off, local, x0, x1, x2, x3);
        }
"#;

pub const BLOCK_LOOP_CLOSE: &'static str = r#"        b = b + 1u;
    }

"#;

pub const TOKEN_TILES_OPEN: &'static str = r#"u;
    let n_tok_tiles = (params.n_tokens + "#;

pub const TILE_INDEX: &'static str = r#"u;
    let flat = wid.x + wid.y * nwg.x + wid.z * nwg.x * nwg.y;
    if (flat >= n_row_groups * n_tok_tiles) {
        return;
    }
    let rg = flat / n_tok_tiles;
    let tt = flat % n_tok_tiles;
    let o_base = rg * "#;

pub const TILE_BASE: &'static str = r#"u;
    let t_base = tt * "#;

pub const TILE_LOCALS: &'static str = r#"    let local = lid.x;

"#;

pub const TILE_PARTIAL_LINE: &'static str = r#"    var p{i}_{j}: f32 = 0.0;
"#;

pub const TILE_LOOP_OPEN: &'static str = r#"    var k: u32 = local;
    loop {
        if (k >= params.in_dim) {
            break;
        }
        let block_idx = k / BLOCK_ELEMS;
        let local_k = k % BLOCK_ELEMS;
        let block_off = block_idx * BLOCK_BYTES;
        let w0 = dequant_element(o0 * params.row_bytes + block_off, local_k);
"#;

pub const TILE_WEIGHT_LINE: &'static str = r#"        var w{i}: f32 = 0.0;
        if (o{i} < params.out_dim) { w{i} = dequant_element(o{i} * params.row_bytes + block_off, local_k); }
"#;

pub const TILE_INPUT_LINE: &'static str = r#"        var x{i}: f32 = 0.0;
        if (t_base + {i}u < params.n_tokens) { x{i} = x[(t_base + {i}u) * params.in_dim + k]; }
"#;

pub const TILE_ACCUMULATE_LINE: &'static str = r#"        p{i}_{j} = p{i}_{j} + w{i} * x{j};
"#;

pub const TILE_SUBGROUP_SUM_LINE: &'static str = r#"    let sg{i}_{j} = subgroupAdd(p{i}_{j});
"#;

pub const TILE_SUBGROUP_STORE_LINE: &'static str = r#"        partial_sums[{idx}u * 64u + sg_id] = sg{i}_{j};
"#;

pub const TILE_TOTAL_INIT_LINE: &'static str = r#"        var acc{i}_{j}: f32 = 0.0;
"#;

pub const TILE_SUBGROUP_LOOP_OPEN: &'static str = r#"        var si: u32 = 0u;
        loop {
            if (si >= n_sg) {
                break;
            }
"#;

pub const TILE_TOTAL_ADD_LINE: &'static str = r#"            acc{i}_{j} = acc{i}_{j} + partial_sums[{idx}u * 64u + si];
"#;

pub const TILE_SUBGROUP_LOOP_CLOSE: &'static str = r#"            si = si + 1u;
        }
"#;

pub const TILE_TOTAL_WRITE_LINE: &'static str = r#"        if (o{i} < params.out_dim && t_base + {j}u < params.n_tokens) {
            y[(t_base + {j}u) * params.out_dim + o{i}] = acc{i}_{j};
        }
"#;

pub const TILE_PARTIAL_STORE_LINE: &'static str = r#"    partial_sums[{idx}u * 64u + local] = p{i}_{j};
"#;

pub const TILE_TREE_CLOSE: &'static str = r#"        }
        workgroupBarrier();
        stride = stride / 2u;
    }
    if (local == 0u) {
"#;

pub const TILE_PARTIAL_WRITE_LINE: &'static str = r#"        if (o{i} < params.out_dim && t_base + {j}u < params.n_tokens) {
            y[(t_base + {j}u) * params.out_dim + o{i}] = partial_sums[{idx}u * 64u];
        }
"#;

pub const LIGHT_SUMS_DECL: &'static str = r#"
var<workgroup> psums: array<f32, "#;

pub const ENTRY_32: &'static str = r#">;

@compute @workgroup_size(32)
fn main(
    @builtin(workgroup_id) wid: vec3<u32>,
    @builtin(local_invocation_id) lid: vec3<u32>,
    @builtin(num_workgroups) nwg: vec3<u32>,"#;

pub const LIGHT_LOCALS: &'static str = r#"    let tid = lid.x;
    let itid = tid % 16u;
    let ix = tid / 16u;
    let il = itid / 4u;
    let ir = itid % 4u;
    let v_im = il / 2u;
    let v_in = il % 2u;
    let l0 = 4u * (2u * ir + v_in);
    let q_offset = 32u * v_im + l0;
    let y_offset = 64u * v_im + l0;
    let num_blocks = params.in_dim / 256u;
    let x_tok = t * params.in_dim;
"#;

pub const LIGHT_INIT_LINE: &'static str = r#"    var acc{i}: f32 = 0.0;
"#;

pub const LIGHT_LOOP_OPEN: &'static str = r#"    var i: u32 = ix;
    loop {
        if (i >= num_blocks) {
            break;
        }
        let xrb = x_tok + i * 256u;
        acc0 = acc0 + sb(o0 * params.row_bytes + i * 144u, xrb, y_offset, q_offset, v_im);
"#;

pub const LIGHT_ROW_LINE: &'static str = r#"        if (o{i} < params.out_dim) {
            acc{i} = acc{i} + sb(o{i} * params.row_bytes + i * 144u, xrb, y_offset, q_offset, v_im);
        }
"#;

pub const LIGHT_LOOP_CLOSE: &'static str = r#"        i = i + 2u;
    }

"#;

pub const LIGHT_SUBGROUP_SUM_LINE: &'static str = r#"    let sg{i} = subgroupAdd(acc{i});
"#;

pub const FIRST_LANE_WRITE_FIRST: &'static str = r#"    if (sg_lane == 0u) {
        y[t * params.out_dim + o0] = sg0;
"#;

pub const SUBGROUP_WRITE_LINE: &'static str = r#"        if (o{i} < params.out_dim) {
            y[t * params.out_dim + o{i}] = sg{i};
        }
"#;

pub const LIGHT_STORE_LINE: &'static str = r#"    psums[{i}u * 32u + tid] = acc{i};
"#;

pub const LIGHT_TREE_OPEN: &'static str = r#"    workgroupBarrier();
    var stride: u32 = 16u;
    loop {
        if (stride == 0u) {
            break;
        }
        if (tid < stride) {
"#;

pub const LIGHT_TREE_LINE: &'static str = r#"            psums[{i}u * 32u + tid] = psums[{i}u * 32u + tid] + psums[{i}u * 32u + tid + stride];
"#;

pub const LIGHT_TREE_CLOSE: &'static str = r#"        }
        workgroupBarrier();
        stride = stride / 2u;
    }
    if (tid == 0u) {
        y[t * params.out_dim + o0] = psums[0];
"#;

pub const LIGHT_WRITE_LINE: &'static str = r#"        if (o{i} < params.out_dim) {
            y[t * params.out_dim + o{i}] = psums[{i}u * 32u];
        }
"#;

pub const CONTIG_LOCALS: &'static str = r#"    let local = lid.x;
    let x_base = t * params.in_dim;
    let g = local / 8u;
    let p = (local % 8u) * 4u;

"#;

pub const CONTIG_LOOP_OPEN: &'static str = r#"
    let n_blocks = params.in_dim / BLOCK_ELEMS;
    var b: u32 = 0u;
    loop {
        if (b >= n_blocks) {
            break;
        }
        let block_off = b * BLOCK_BYTES;
        let x_blk = x_base + b * BLOCK_ELEMS;
        let xl = xv4[(x_blk + g * 64u + p) / 4u];
        let xh = xv4[(x_blk + g * 64u + 32u + p) / 4u];
        partial0 = partial0 + block_dot_contig(o0 * params.row_bytes + block_off, local, xl, xh);
"#;

pub const CONTIG_ROW_LINE: &'static str = r#"        if (o{i} < params.out_dim) {
            partial{i} = partial{i} + block_dot_contig(o{i} * params.row_bytes + block_off, local, xl, xh);
        }
"#;

pub const DUAL_LOOP_OPEN: &'static str = r#"
    let n_blocks = params.in_dim / BLOCK_ELEMS;
    var b: u32 = 0u;
    loop {
        if (b >= n_blocks) {
            break;
        }
        let block_off = b * BLOCK_BYTES;
        let x_blk = x_base + b * BLOCK_ELEMS;
        let xl0 = x[x_blk + local];
        let xh0 = x[x_blk + 32u + local];
        let xl1 = x[x_blk + 64u + local];
        let xh1 = x[x_blk + 96u + local];
        let xl2 = x[x_blk + 128u + local];
        let xh2 = x[x_blk + 160u + local];
        let xl3 = x[x_blk + 192u + local];
        let xh3 = x[x_blk + 224u + local];
        partial0 = partial0 + block_dot_dual(o0 * params.row_bytes + block_off, local, xl0, xh0, xl1, xh1, xl2, xh2, xl3, xh3);
"#;

pub const DUAL_ROW_LINE: &'static str = r#"        if (o{i} < params.out_dim) {
            partial{i} = partial{i} + block_dot_dual(o{i} * params.row_bytes + block_off, local, xl0, xh0, xl1, xh1, xl2, xh2, xl3, xh3);
        }
"#;

pub const PARTIAL_STORE_32_LINE: &'static str = r#"    partial_sums[{i}u * 32u + local] = partial{i};
"#;

pub const TREE_32_OPEN: &'static str = r#"    workgroupBarrier();
    var stride: u32 = 16u;
    loop {
        if (stride == 0u) {
            break;
        }
        if (local < stride) {
"#;

pub const TREE_32_LINE: &'static str = r#"            partial_sums[{i}u * 32u + local] = partial_sums[{i}u * 32u + local] + partial_sums[{i}u * 32u + local + stride];
"#;

pub const PARTIAL_WRITE_32_LINE: &'static str = r#"        if (o{i} < params.out_dim) {
            y[t * params.out_dim + o{i}] = partial_sums[{i}u * 32u];
        }
"#;

/// The parameters of an entry point that only the subgroup variant has.
pub const SUBGROUP_ENTRY_PARAMS: &'static str = r#"
    @builtin(subgroup_invocation_id) sg_lane: u32,
    @builtin(subgroup_id) sg_id: u32,
    @builtin(num_subgroups) n_sg: u32,"#;

/// The subgroup parameters of an entry point, where it has them.
pub open spec fn subgroup_entry_params_text(subgroup: bool) -> Seq<char> {
    if subgroup {
        SUBGROUP_ENTRY_PARAMS@
    } else {
        ""@
    }
}

/// The subgroup parameters of an entry point, where it has them.
pub fn subgroup_entry_params(subgroup: bool) -> (res: &'static str)
    ensures
        res@ == subgroup_entry_params_text(subgroup),
{
    if subgroup {
        SUBGROUP_ENTRY_PARAMS
    } else {
        ""
    }
}

/// The final combine of `n_rows` 64-wide partial sums into the output rows: one
/// sum per subgroup that the first thread then folds, or a pairwise tree.
pub open spec fn reduce_combine_block_text(n_rows: nat, subgroup: bool) -> Seq<char> {
    if subgroup {
        text::numbered_lines(SUBGROUP_SUM_LINE@, 0, n_rows)
        + FIRST_LANE_OPEN@
        + text::numbered_lines(SUBGROUP_STORE_LINE@, 0, n_rows)
        + FIRST_THREAD_OPEN@
        + text::numbered_lines(TOTAL_INIT_LINE@, 0, n_rows)
        + SUBGROUP_LOOP_OPEN@
        + text::numbered_lines(TOTAL_ADD_LINE@, 0, n_rows)
        + SUBGROUP_LOOP_CLOSE@
        + text::numbered_lines(TOTAL_WRITE_LINE@, 1, n_rows)
        + "    }\n"@
    } else {
        text::numbered_lines(PARTIAL_STORE_64_LINE@, 0, n_rows)
        + TREE_64_OPEN@
        + text::numbered_lines(TREE_64_LINE@, 0, n_rows)
        + TREE_CLOSE_WRITE_FIRST@
        + text::numbered_lines(PARTIAL_WRITE_64_LINE@, 1, n_rows)
        + "    }\n"@
    }
}

/// The final combine of `n_rows` 64-wide partial sums into the output rows: one
/// sum per subgroup that the first thread then folds, or a pairwise tree.
pub fn reduce_combine_block(n_rows: usize, subgroup: bool) -> (res: String)
    ensures
        res@ == reduce_combine_block_text(n_rows as nat, subgroup),
{
    if subgroup {
        let mut s = fill_lines(SUBGROUP_SUM_LINE, 0, n_rows);
        s.append(FIRST_LANE_OPEN);
        let part = fill_lines(SUBGROUP_STORE_LINE, 0, n_rows);
        s.append(part.as_str());
        s.append(FIRST_THREAD_OPEN);
        let part = fill_lines(TOTAL_INIT_LINE, 0, n_rows);
        s.append(part.as_str());
        s.append(SUBGROUP_LOOP_OPEN);
        let part = fill_lines(TOTAL_ADD_LINE, 0, n_rows);
        s.append(part.as_str());
        s.append(SUBGROUP_LOOP_CLOSE);
        let part = fill_lines(TOTAL_WRITE_LINE, 1, n_rows);
        s.append(part.as_str());
        s.append("    }\n");
        s
    } else {
        let mut s = fill_lines(PARTIAL_STORE_64_LINE, 0, n_rows);
        s.append(TREE_64_OPEN);
        let part = fill_lines(TREE_64_LINE, 0, n_rows);
        s.append(part.as_str());
        s.append(TREE_CLOSE_WRITE_FIRST);
        let part = fill_lines(PARTIAL_WRITE_64_LINE, 1, n_rows);
        s.append(part.as_str());
        s.append("    }\n");
        s
    }
}

/// The entry point of the reduction kernels: one workgroup per group of `n_rows`
/// output rows and token, its 64 threads striding over the row.
pub open spec fn main_reduce_suffix_text(n_rows: nat, subgroup: bool) -> Seq<char> {
    SUMS_DECL@
        + text::decimal_text(n_rows * 64)
        + ENTRY_64@
        + subgroup_entry_params_text(subgroup)
        + ROW_GROUPS_OPEN@
        + text::decimal_text((n_rows - 1) as nat)
        + "u) / "@
        + text::decimal_text(n_rows)
        + REDUCE_INDEX@
        + text::decimal_text(n_rows)
        + "u;\n"@
        + text::numbered_lines(ROW_BASE_LINE@, 0, n_rows)
        + ROW_LOCALS@
        + text::numbered_lines(PARTIAL_INIT_LINE@, 0, n_rows)
        + REDUCE_LOOP_OPEN@
        + text::numbered_lines(REDUCE_ROW_LINE@, 1, n_rows)
        + REDUCE_LOOP_CLOSE@
        + reduce_combine_block_text(n_rows, subgroup)
        + "}\n"@
}

/// The entry point of the reduction kernels: one workgroup per group of `n_rows`
/// output rows and token, its 64 threads striding over the row.
pub fn main_reduce_suffix(n_rows: usize, subgroup: bool) -> (res: String)
    requires
        n_rows >= 1,
        n_rows * 64 <= usize::MAX,
    ensures
        res@ == main_reduce_suffix_text(n_rows as nat, subgroup),
{
    let mut s = SUMS_DECL.to_owned();
    push_decimal(&mut s, (n_rows * 64) as u64);
    s.append(ENTRY_64);
    s.append(subgroup_entry_params(subgroup));
    s.append(ROW_GROUPS_OPEN);
    push_decimal(&mut s, (n_rows - 1) as u64);
    s.append("u) / ");
    push_decimal(&mut s, n_rows as u64);
    s.append(REDUCE_INDEX);
    push_decimal(&mut s, n_rows as u64);
    s.append("u;\n");
    let part = fill_lines(ROW_BASE_LINE, 0, n_rows);
    s.append(part.as_str());
    s.append(ROW_LOCALS);
    let part = fill_lines(PARTIAL_INIT_LINE, 0, n_rows);
    s.append(part.as_str());
    s.append(REDUCE_LOOP_OPEN);
    let part = fill_lines(REDUCE_ROW_LINE, 1, n_rows);
    s.append(part.as_str());
    s.append(REDUCE_LOOP_CLOSE);
    let part = reduce_combine_block(n_rows, subgroup);
    s.append(part.as_str());
    s.append("}\n");
    s
}

/// The entry point of the block-unroll kernels: whole 256-element blocks, four
/// activations loaded up front and shared by `n_rows` output rows.
pub open spec fn unroll_suffix_text(n_rows: nat, subgroup: bool) -> Seq<char> {
    SUMS_DECL@
        + text::decimal_text(n_rows * 64)
        + ENTRY_64@
        + subgroup_entry_params_text(subgroup)
        + ROW_GROUPS_OPEN@
        + text::decimal_text((n_rows - 1) as nat)
        + "u) / "@
        + text::decimal_text(n_rows)
        + FIRST_ROW_INDEX@
        + text::decimal_text(n_rows)
        + "u;\n"@
        + text::numbered_lines(ROW_OFFSET_LINE@, 1, n_rows)
        + ROW_LOCALS@
        + text::numbered_lines(PARTIAL_INIT_LINE@, 0, n_rows)
        + UNROLL_LOOP_OPEN@
        + text::numbered_lines(UNROLL_ROW_LINE@, 1, n_rows)
        + BLOCK_LOOP_CLOSE@
        + reduce_combine_block_text(n_rows, subgroup)
        + "}\n"@
}

/// The entry point of the block-unroll kernels: whole 256-element blocks, four
/// activations loaded up front and shared by `n_rows` output rows.
pub fn unroll_suffix(n_rows: usize, subgroup: bool) -> (res: String)
    requires
        n_rows >= 1,
        n_rows * 64 <= usize::MAX,
    ensures
        res@ == unroll_suffix_text(n_rows as nat, subgroup),
{
    let mut s = SUMS_DECL.to_owned();
    push_decimal(&mut s, (n_rows * 64) as u64);
    s.append(ENTRY_64);
    s.append(subgroup_entry_params(subgroup));
    s.append(ROW_GROUPS_OPEN);
    push_decimal(&mut s, (n_rows - 1) as u64);
    s.append("u) / ");
    push_decimal(&mut s, n_rows as u64);
    s.append(FIRST_ROW_INDEX);
    push_decimal(&mut s, n_rows as u64);
    s.append("u;\n");
    let part = fill_lines(ROW_OFFSET_LINE, 1, n_rows);
    s.append(part.as_str());
    s.append(ROW_LOCALS);
    let part = fill_lines(PARTIAL_INIT_LINE, 0, n_rows);
    s.append(part.as_str());
    s.append(UNROLL_LOOP_OPEN);
    let part = fill_lines(UNROLL_ROW_LINE, 1, n_rows);
    s.append(part.as_str());
    s.append(BLOCK_LOOP_CLOSE);
    let part = reduce_combine_block(n_rows, subgroup);
    s.append(part.as_str());
    s.append("}\n");
    s
}

/// The final combine of a thin tile: every cell of the `n_rows` by `tile` grid is
/// summed over the 64 threads and written where it is in range.
pub open spec fn thin_tile_combine_block_text(n_rows: nat, tile: nat, subgroup: bool) -> Seq<char> {
    if subgroup {
        text::grid_lines(TILE_SUBGROUP_SUM_LINE@, tile, n_rows)
        + FIRST_LANE_OPEN@
        + text::grid_lines(TILE_SUBGROUP_STORE_LINE@, tile, n_rows)
        + FIRST_THREAD_OPEN@
        + text::grid_lines(TILE_TOTAL_INIT_LINE@, tile, n_rows)
        + TILE_SUBGROUP_LOOP_OPEN@
        + text::grid_lines(TILE_TOTAL_ADD_LINE@, tile, n_rows)
        + TILE_SUBGROUP_LOOP_CLOSE@
        + text::grid_lines(TILE_TOTAL_WRITE_LINE@, tile, n_rows)
        + "    }\n}\n"@
    } else {
        text::grid_lines(TILE_PARTIAL_STORE_LINE@, tile, n_rows)
        + TREE_64_OPEN@
        + text::numbered_lines(TREE_64_LINE@, 0, n_rows * tile)
        + TILE_TREE_CLOSE@
        + text::grid_lines(TILE_PARTIAL_WRITE_LINE@, tile, n_rows)
        + "    }\n}\n"@
    }
}

/// The final combine of a thin tile: every cell of the `n_rows` by `tile` grid is
/// summed over the 64 threads and written where it is in range.
pub fn thin_tile_combine_block(n_rows: usize, tile: usize, subgroup: bool) -> (res: String)
    requires
        n_rows >= 1,
        tile >= 1,
        n_rows * tile * 64 <= usize::MAX,
    ensures
        res@ == thin_tile_combine_block_text(n_rows as nat, tile as nat, subgroup),
{
    assert(n_rows * tile >= n_rows && n_rows * tile >= tile) by (nonlinear_arith)
        requires
            n_rows >= 1,
            tile >= 1,
    ;
    if subgroup {
        let mut s = fill_grid(TILE_SUBGROUP_SUM_LINE, n_rows, tile);
        s.append(FIRST_LANE_OPEN);
        let part = fill_grid(TILE_SUBGROUP_STORE_LINE, n_rows, tile);
        s.append(part.as_str());
        s.append(FIRST_THREAD_OPEN);
        let part = fill_grid(TILE_TOTAL_INIT_LINE, n_rows, tile);
        s.append(part.as_str());
        s.append(TILE_SUBGROUP_LOOP_OPEN);
        let part = fill_grid(TILE_TOTAL_ADD_LINE, n_rows, tile);
        s.append(part.as_str());
        s.append(TILE_SUBGROUP_LOOP_CLOSE);
        let part = fill_grid(TILE_TOTAL_WRITE_LINE, n_rows, tile);
        s.append(part.as_str());
        s.append("    }\n}\n");
        s
    } else {
        let mut s = fill_grid(TILE_PARTIAL_STORE_LINE, n_rows, tile);
        s.append(TREE_64_OPEN);
        let part = fill_lines(TREE_64_LINE, 0, n_rows * tile);
        s.append(part.as_str());
        s.append(TILE_TREE_CLOSE);
        let part = fill_grid(TILE_PARTIAL_WRITE_LINE, n_rows, tile);
        s.append(part.as_str());
        s.append("    }\n}\n");
        s
    }
}

/// The entry point of the thin-tile kernels: one workgroup per group of `n_rows`
/// output rows and `tile` tokens, each weight decoded once for the whole tile.
pub open spec fn thin_tile_reduce_suffix_text(n_rows: nat, tile: nat, subgroup: bool) -> Seq<char> {
    SUMS_DECL@
        + text::decimal_text(n_rows * tile * 64)
        + ENTRY_64@
        + subgroup_entry_params_text(subgroup)
        + ROW_GROUPS_OPEN@
        + text::decimal_text((n_rows - 1) as nat)
        + "u) / "@
        + text::decimal_text(n_rows)
        + TOKEN_TILES_OPEN@
        + text::decimal_text((tile - 1) as nat)
        + "u) / "@
        + text::decimal_text(tile)
        + TILE_INDEX@
        + text::decimal_text(n_rows)
        + TILE_BASE@
        + text::decimal_text(tile)
        + "u;\n"@
        + text::numbered_lines(ROW_BASE_LINE@, 0, n_rows)
        + TILE_LOCALS@
        + text::grid_lines(TILE_PARTIAL_LINE@, tile, n_rows)
        + TILE_LOOP_OPEN@
        + text::numbered_lines(TILE_WEIGHT_LINE@, 1, n_rows)
        + text::numbered_lines(TILE_INPUT_LINE@, 0, tile)
        + text::grid_lines(TILE_ACCUMULATE_LINE@, tile, n_rows)
        + REDUCE_LOOP_CLOSE@
        + thin_tile_combine_block_text(n_rows, tile, subgroup)
}

/// The entry point of the thin-tile kernels: one workgroup per group of `n_rows`
/// output rows and `tile` tokens, each weight decoded once for the whole tile.
pub fn thin_tile_reduce_suffix(n_rows: usize, tile: usize, subgroup: bool) -> (res: String)
    requires
        n_rows >= 1,
        tile >= 1,
        n_rows * tile * 64 <= usize::MAX,
    ensures
        res@ == thin_tile_reduce_suffix_text(n_rows as nat, tile as nat, subgroup),
{
    assert(n_rows * tile >= n_rows && n_rows * tile >= tile) by (nonlinear_arith)
        requires
            n_rows >= 1,
            tile >= 1,
    ;
    let mut s = SUMS_DECL.to_owned();
    push_decimal(&mut s, (n_rows * tile * 64) as u64);
    s.append(ENTRY_64);
    s.append(subgroup_entry_params(subgroup));
    s.append(ROW_GROUPS_OPEN);
    push_decimal(&mut s, (n_rows - 1) as u64);
    s.append("u) / ");
    push_decimal(&mut s, n_rows as u64);
    s.append(TOKEN_TILES_OPEN);
    push_decimal(&mut s, (tile - 1) as u64);
    s.append("u) / ");
    push_decimal(&mut s, tile as u64);
    s.append(TILE_INDEX);
    push_decimal(&mut s, n_rows as u64);
    s.append(TILE_BASE);
    push_decimal(&mut s, tile as u64);
    s.append("u;\n");
    let part = fill_lines(ROW_BASE_LINE, 0, n_rows);
    s.append(part.as_str());
    s.append(TILE_LOCALS);
    let part = fill_grid(TILE_PARTIAL_LINE, n_rows, tile);
    s.append(part.as_str());
    s.append(TILE_LOOP_OPEN);
    let part = fill_lines(TILE_WEIGHT_LINE, 1, n_rows);
    s.append(part.as_str());
    let part = fill_lines(TILE_INPUT_LINE, 0, tile);
    s.append(part.as_str());
    let part = fill_grid(TILE_ACCUMULATE_LINE, n_rows, tile);
    s.append(part.as_str());
    s.append(REDUCE_LOOP_CLOSE);
    let part = thin_tile_combine_block(n_rows, tile, subgroup);
    s.append(part.as_str());
    s
}

/// The light `Q4_K` kernel: 16 lanes per block and two blocks per step.
pub open spec fn reduce_q4k_light_text(n_rows: nat, subgroup: bool) -> Seq<char> {
    Q4K_LIGHT_PRELUDE@
        + LIGHT_SUMS_DECL@
        + text::decimal_text(n_rows * 32)
        + ENTRY_32@
        + subgroup_entry_params_text(subgroup)
        + ROW_GROUPS_OPEN@
        + text::decimal_text((n_rows - 1) as nat)
        + "u) / "@
        + text::decimal_text(n_rows)
        + FIRST_ROW_INDEX@
        + text::decimal_text(n_rows)
        + "u;\n"@
        + text::numbered_lines(ROW_OFFSET_LINE@, 1, n_rows)
        + LIGHT_LOCALS@
        + text::numbered_lines(LIGHT_INIT_LINE@, 0, n_rows)
        + LIGHT_LOOP_OPEN@
        + text::numbered_lines(LIGHT_ROW_LINE@, 1, n_rows)
        + LIGHT_LOOP_CLOSE@
        + light_reduce_text(n_rows, subgroup)
        + "}\n"@
}

/// The light `Q4_K` kernel: 16 lanes per block and two blocks per step.
pub fn shader_source_reduce_q4k_light(n_rows: usize, subgroup: bool) -> (res: String)
    requires
        n_rows >= 1,
        n_rows * 32 <= usize::MAX,
    ensures
        res@ == reduce_q4k_light_text(n_rows as nat, subgroup),
{
    let mut s = Q4K_LIGHT_PRELUDE.to_owned();
    s.append(LIGHT_SUMS_DECL);
    push_decimal(&mut s, (n_rows * 32) as u64);
    s.append(ENTRY_32);
    s.append(subgroup_entry_params(subgroup));
    s.append(ROW_GROUPS_OPEN);
    push_decimal(&mut s, (n_rows - 1) as u64);
    s.append("u) / ");
    push_decimal(&mut s, n_rows as u64);
    s.append(FIRST_ROW_INDEX);
    push_decimal(&mut s, n_rows as u64);
    s.append("u;\n");
    let part = fill_lines(ROW_OFFSET_LINE, 1, n_rows);
    s.append(part.as_str());
    s.append(LIGHT_LOCALS);
    let part = fill_lines(LIGHT_INIT_LINE, 0, n_rows);
    s.append(part.as_str());
    s.append(LIGHT_LOOP_OPEN);
    let part = fill_lines(LIGHT_ROW_LINE, 1, n_rows);
    s.append(part.as_str());
    s.append(LIGHT_LOOP_CLOSE);
    let part = light_reduce(n_rows, subgroup);
    s.append(part.as_str());
    s.append("}\n");
    s
}

/// The final combine of the light kernel: each row summed over 32 lanes.
pub open spec fn light_reduce_text(n_rows: nat, subgroup: bool) -> Seq<char> {
    if subgroup {
        text::numbered_lines(LIGHT_SUBGROUP_SUM_LINE@, 0, n_rows)
        + FIRST_LANE_WRITE_FIRST@
        + text::numbered_lines(SUBGROUP_WRITE_LINE@, 1, n_rows)
        + "    }\n"@
    } else {
        text::numbered_lines(LIGHT_STORE_LINE@, 0, n_rows)
        + LIGHT_TREE_OPEN@
        + text::numbered_lines(LIGHT_TREE_LINE@, 0, n_rows)
        + LIGHT_TREE_CLOSE@
        + text::numbered_lines(LIGHT_WRITE_LINE@, 1, n_rows)
        + "    }\n"@
    }
}

/// The final combine of the light kernel: each row summed over 32 lanes.
pub fn light_reduce(n_rows: usize, subgroup: bool) -> (res: String)
    ensures
        res@ == light_reduce_text(n_rows as nat, subgroup),
{
    if subgroup {
        let mut s = fill_lines(LIGHT_SUBGROUP_SUM_LINE, 0, n_rows);
        s.append(FIRST_LANE_WRITE_FIRST);
        let part = fill_lines(SUBGROUP_WRITE_LINE, 1, n_rows);
        s.append(part.as_str());
        s.append("    }\n");
        s
    } else {
        let mut s = fill_lines(LIGHT_STORE_LINE, 0, n_rows);
        s.append(LIGHT_TREE_OPEN);
        let part = fill_lines(LIGHT_TREE_LINE, 0, n_rows);
        s.append(part.as_str());
        s.append(LIGHT_TREE_CLOSE);
        let part = fill_lines(LIGHT_WRITE_LINE, 1, n_rows);
        s.append(part.as_str());
        s.append("    }\n");
        s
    }
}

/// The entry point of the contiguous kernel: 32 threads, two four-wide activation
/// loads per block.
pub open spec fn contig_suffix_text(n_rows: nat, subgroup: bool) -> Seq<char> {
    SUMS_DECL@
        + text::decimal_text(n_rows * 32)
        + ENTRY_32@
        + subgroup_entry_params_text(subgroup)
        + ROW_GROUPS_OPEN@
        + text::decimal_text((n_rows - 1) as nat)
        + "u) / "@
        + text::decimal_text(n_rows)
        + FIRST_ROW_INDEX@
        + text::decimal_text(n_rows)
        + "u;\n"@
        + text::numbered_lines(ROW_OFFSET_LINE@, 1, n_rows)
        + CONTIG_LOCALS@
        + text::numbered_lines(PARTIAL_INIT_LINE@, 0, n_rows)
        + CONTIG_LOOP_OPEN@
        + text::numbered_lines(CONTIG_ROW_LINE@, 1, n_rows)
        + BLOCK_LOOP_CLOSE@
        + dual_nibble_reduce_text(n_rows, subgroup)
        + "}\n"@
}

/// The entry point of the contiguous kernel: 32 threads, two four-wide activation
/// loads per block.
pub fn contig_suffix(n_rows: usize, subgroup: bool) -> (res: String)
    requires
        n_rows >= 1,
        n_rows * 32 <= usize::MAX,
    ensures
        res@ == contig_suffix_text(n_rows as nat, subgroup),
{
    let mut s = SUMS_DECL.to_owned();
    push_decimal(&mut s, (n_rows * 32) as u64);
    s.append(ENTRY_32);
    s.append(subgroup_entry_params(subgroup));
    s.append(ROW_GROUPS_OPEN);
    push_decimal(&mut s, (n_rows - 1) as u64);
    s.append("u) / ");
    push_decimal(&mut s, n_rows as u64);
    s.append(FIRST_ROW_INDEX);
    push_decimal(&mut s, n_rows as u64);
    s.append("u;\n");
    let part = fill_lines(ROW_OFFSET_LINE, 1, n_rows);
    s.append(part.as_str());
    s.append(CONTIG_LOCALS);
    let part = fill_lines(PARTIAL_INIT_LINE, 0, n_rows);
    s.append(part.as_str());
    s.append(CONTIG_LOOP_OPEN);
    let part = fill_lines(CONTIG_ROW_LINE, 1, n_rows);
    s.append(part.as_str());
    s.append(BLOCK_LOOP_CLOSE);
    let part = dual_nibble_reduce(n_rows, subgroup);
    s.append(part.as_str());
    s.append("}\n");
    s
}

/// The entry point of the dual-nibble kernels: 32 threads, eight activations per
/// block.
pub open spec fn dual_nibble_suffix_text(n_rows: nat, subgroup: bool) -> Seq<char> {
    SUMS_DECL@
        + text::decimal_text(n_rows * 32)
        + ENTRY_32@
        + subgroup_entry_params_text(subgroup)
        + ROW_GROUPS_OPEN@
        + text::decimal_text((n_rows - 1) as nat)
        + "u) / "@
        + text::decimal_text(n_rows)
        + FIRST_ROW_INDEX@
        + text::decimal_text(n_rows)
        + "u;\n"@
        + text::numbered_lines(ROW_OFFSET_LINE@, 1, n_rows)
        + ROW_LOCALS@
        + text::numbered_lines(PARTIAL_INIT_LINE@, 0, n_rows)
        + DUAL_LOOP_OPEN@
        + text::numbered_lines(DUAL_ROW_LINE@, 1, n_rows)
        + BLOCK_LOOP_CLOSE@
        + dual_nibble_reduce_text(n_rows, subgroup)
        + "}\n"@
}

/// The entry point of the dual-nibble kernels: 32 threads, eight activations per
/// block.
pub fn dual_nibble_suffix(n_rows: usize, subgroup: bool) -> (res: String)
    requires
        n_rows >= 1,
        n_rows * 32 <= usize::MAX,
    ensures
        res@ == dual_nibble_suffix_text(n_rows as nat, subgroup),
{
    let mut s = SUMS_DECL.to_owned();
    push_decimal(&mut s, (n_rows * 32) as u64);
    s.append(ENTRY_32);
    s.append(subgroup_entry_params(subgroup));
    s.append(ROW_GROUPS_OPEN);
    push_decimal(&mut s, (n_rows - 1) as u64);
    s.append("u) / ");
    push_decimal(&mut s, n_rows as u64);
    s.append(FIRST_ROW_INDEX);
    push_decimal(&mut s, n_rows as u64);
    s.append("u;\n");
    let part = fill_lines(ROW_OFFSET_LINE, 1, n_rows);
    s.append(part.as_str());
    s.append(ROW_LOCALS);
    let part = fill_lines(PARTIAL_INIT_LINE, 0, n_rows);
    s.append(part.as_str());
    s.append(DUAL_LOOP_OPEN);
    let part = fill_lines(DUAL_ROW_LINE, 1, n_rows);
    s.append(part.as_str());
    s.append(BLOCK_LOOP_CLOSE);
    let part = dual_nibble_reduce(n_rows, subgroup);
    s.append(part.as_str());
    s.append("}\n");
    s
}

/// The final combine of the 32-thread kernels.
pub open spec fn dual_nibble_reduce_text(n_rows: nat, subgroup: bool) -> Seq<char> {
    if subgroup {
        text::numbered_lines(SUBGROUP_SUM_LINE@, 0, n_rows)
        + FIRST_LANE_WRITE_FIRST@
        + text::numbered_lines(SUBGROUP_WRITE_LINE@, 1, n_rows)
        + "    }\n"@
    } else {
        text::numbered_lines(PARTIAL_STORE_32_LINE@, 0, n_rows)
        + TREE_32_OPEN@
        + text::numbered_lines(TREE_32_LINE@, 0, n_rows)
        + TREE_CLOSE_WRITE_FIRST@
        + text::numbered_lines(PARTIAL_WRITE_32_LINE@, 1, n_rows)
        + "    }\n"@
    }
}

/// The final combine of the 32-thread kernels.
pub fn dual_nibble_reduce(n_rows: usize, subgroup: bool) -> (res: String)
    ensures
        res@ == dual_nibble_reduce_text(n_rows as nat, subgroup),
{
    if subgroup {
        let mut s = fill_lines(SUBGROUP_SUM_LINE, 0, n_rows);
        s.append(FIRST_LANE_WRITE_FIRST);
        let part = fill_lines(SUBGROUP_WRITE_LINE, 1, n_rows);
        s.append(part.as_str());
        s.append("    }\n");
        s
    } else {
        let mut s = fill_lines(PARTIAL_STORE_32_LINE, 0, n_rows);
        s.append(TREE_32_OPEN);
        let part = fill_lines(TREE_32_LINE, 0, n_rows);
        s.append(part.as_str());
        s.append(TREE_CLOSE_WRITE_FIRST);
        let part = fill_lines(PARTIAL_WRITE_32_LINE, 1, n_rows);
        s.append(part.as_str());
        s.append("    }\n");
        s
    }
}

/// What stands in one of two texts stands in both together.
proof fn held_in_sums(part: Seq<char>)
    ensures
        forall|a: Seq<char>, b: Seq<char>|
            occurs::holds(a, part) || occurs::holds(b, part) ==> occurs::holds(
                #[trigger] (a + b),
                part,
            ),
{
    assert forall|a: Seq<char>, b: Seq<char>|
        occurs::holds(a, part) || occurs::holds(b, part) implies occurs::holds(
        #[trigger] (a + b),
        part,
    ) by {
        occurs::held_in_a_sum(a, b, part);
    }
}

/// A text stands in itself.
proof fn held_in_itself(t: Seq<char>)
    ensures
        occurs::holds(t, t),
{
    assert(t.subrange(0, t.len() as int) =~= t);
    assert(text::occurs_at(t, t, 0));
}

/// Numbered lines hold the line of each number.
proof fn held_in_lines(t: Seq<char>, lo: nat, hi: nat, i: nat)
    requires
        lo <= i < hi,
    ensures
        occurs::holds(text::numbered_lines(t, lo, hi), text::numbered(t, i)),
    decreases hi,
{
    let line = text::numbered(t, i);
    let last = (hi - 1) as nat;
    if i == last {
        held_in_itself(line);
    } else {
        held_in_lines(t, lo, last, i);
    }
    occurs::held_in_a_sum(text::numbered_lines(t, lo, last), text::numbered(t, last), line);
}

/// A grid holds the line of each of its cells.
proof fn held_in_grid(t: Seq<char>, width: nat, rows: nat, i: nat, j: nat)
    requires
        i < rows,
        j < width,
    ensures
        occurs::holds(text::grid_lines(t, width, rows), text::cell_text(t, width, i, j)),
    decreases rows,
{
    let cell = text::cell_text(t, width, i, j);
    let last = (rows - 1) as nat;
    if i == last {
        held_in_row(t, width, i, width, j);
    } else {
        held_in_grid(t, width, last, i, j);
    }
    occurs::held_in_a_sum(
        text::grid_lines(t, width, last),
        text::row_cells(t, width, last, width),
        cell,
    );
}

proof fn held_in_row(t: Seq<char>, width: nat, i: nat, n: nat, j: nat)
    requires
        j < n,
    ensures
        occurs::holds(text::row_cells(t, width, i, n), text::cell_text(t, width, i, j)),
    decreases n,
{
    let cell = text::cell_text(t, width, i, j);
    let last = (n - 1) as nat;
    if j == last {
        held_in_itself(cell);
    } else {
        held_in_row(t, width, i, last, j);
    }
    occurs::held_in_a_sum(
        text::row_cells(t, width, i, last),
        text::cell_text(t, width, i, last),
        cell,
    );
}

/// Every row of a group is summed up and written: the first as it is, each of the others where
/// it is in range.
pub proof fn every_row_is_combined(n_rows: nat, i: nat)
    requires
        i < n_rows,
    ensures
        ({
            let (by_subgroup, by_tree) = (
                reduce_combine_block_text(n_rows, true),
                reduce_combine_block_text(n_rows, false),
            );
            &&& occurs::holds(by_subgroup, text::numbered(SUBGROUP_SUM_LINE@, i))
            &&& occurs::holds(by_subgroup, text::numbered(SUBGROUP_STORE_LINE@, i))
            &&& occurs::holds(by_subgroup, text::numbered(TOTAL_INIT_LINE@, i))
            &&& occurs::holds(by_subgroup, text::numbered(TOTAL_ADD_LINE@, i))
            &&& i > 0 ==> occurs::holds(by_subgroup, text::numbered(TOTAL_WRITE_LINE@, i))
            &&& occurs::holds(by_tree, text::numbered(PARTIAL_STORE_64_LINE@, i))
            &&& occurs::holds(by_tree, text::numbered(TREE_64_LINE@, i))
            &&& i > 0 ==> occurs::holds(by_tree, text::numbered(PARTIAL_WRITE_64_LINE@, i))
        }),
        ({
            let (by_subgroup, by_tree) = (
                light_reduce_text(n_rows, true),
                light_reduce_text(n_rows, false),
            );
            &&& occurs::holds(by_subgroup, text::numbered(LIGHT_SUBGROUP_SUM_LINE@, i))
            &&& i > 0 ==> occurs::holds(by_subgroup, text::numbered(SUBGROUP_WRITE_LINE@, i))
            &&& occurs::holds(by_tree, text::numbered(LIGHT_STORE_LINE@, i))
            &&& occurs::holds(by_tree, text::numbered(LIGHT_TREE_LINE@, i))
            &&& i > 0 ==> occurs::holds(by_tree, text::numbered(LIGHT_WRITE_LINE@, i))
        }),
        ({
            let (by_subgroup, by_tree) = (
                dual_nibble_reduce_text(n_rows, true),
                dual_nibble_reduce_text(n_rows, false),
            );
            &&& occurs::holds(by_subgroup, text::numbered(SUBGROUP_SUM_LINE@, i))
            &&& i > 0 ==> occurs::holds(by_subgroup, text::numbered(SUBGROUP_WRITE_LINE@, i))
            &&& occurs::holds(by_tree, text::numbered(PARTIAL_STORE_32_LINE@, i))
            &&& occurs::holds(by_tree, text::numbered(TREE_32_LINE@, i))
            &&& i > 0 ==> occurs::holds(by_tree, text::numbered(PARTIAL_WRITE_32_LINE@, i))
        }),
{
    line_is_held(SUBGROUP_SUM_LINE@, 0, n_rows, i);
    line_is_held(SUBGROUP_STORE_LINE@, 0, n_rows, i);
    line_is_held(TOTAL_INIT_LINE@, 0, n_rows, i);
    line_is_held(TOTAL_ADD_LINE@, 0, n_rows, i);
    line_is_held(PARTIAL_STORE_64_LINE@, 0, n_rows, i);
    line_is_held(TREE_64_LINE@, 0, n_rows, i);
    line_is_held(LIGHT_SUBGROUP_SUM_LINE@, 0, n_rows, i);
    line_is_held(LIGHT_STORE_LINE@, 0, n_rows, i);
    line_is_held(LIGHT_TREE_LINE@, 0, n_rows, i);
    line_is_held(PARTIAL_STORE_32_LINE@, 0, n_rows, i);
    line_is_held(TREE_32_LINE@, 0, n_rows, i);
    if i > 0 {
        line_is_held(TOTAL_WRITE_LINE@, 1, n_rows, i);
        line_is_held(PARTIAL_WRITE_64_LINE@, 1, n_rows, i);
        line_is_held(SUBGROUP_WRITE_LINE@, 1, n_rows, i);
        line_is_held(LIGHT_WRITE_LINE@, 1, n_rows, i);
        line_is_held(PARTIAL_WRITE_32_LINE@, 1, n_rows, i);
    }
}

/// The line of a number is held in its lines, and in whatever those are part of.
proof fn line_is_held(t: Seq<char>, lo: nat, hi: nat, i: nat)
    requires
        lo <= i < hi,
    ensures
        occurs::holds(text::numbered_lines(t, lo, hi), text::numbered(t, i)),
        forall|a: Seq<char>, b: Seq<char>|
            occurs::holds(a, text::numbered(t, i)) || occurs::holds(b, text::numbered(t, i))
                ==> occurs::holds(#[trigger] (a + b), text::numbered(t, i)),
{
    held_in_lines(t, lo, hi, i);
    held_in_sums(text::numbered(t, i));
}

/// The line of a cell is held in its grid, and in whatever that is part of.
proof fn cell_is_held(t: Seq<char>, width: nat, rows: nat, i: nat, j: nat)
    requires
        i < rows,
        j < width,
    ensures
        occurs::holds(text::grid_lines(t, width, rows), text::cell_text(t, width, i, j)),
        forall|a: Seq<char>, b: Seq<char>|
            occurs::holds(a, text::cell_text(t, width, i, j)) || occurs::holds(
                b,
                text::cell_text(t, width, i, j),
            ) ==> occurs::holds(#[trigger] (a + b), text::cell_text(t, width, i, j)),
{
    held_in_grid(t, width, rows, i, j);
    held_in_sums(text::cell_text(t, width, i, j));
}

/// A text is held in whatever it is part of.
proof fn part_is_held(t: Seq<char>)
    ensures
        occurs::holds(t, t),
        forall|a: Seq<char>, b: Seq<char>|
            occurs::holds(a, t) || occurs::holds(b, t) ==> occurs::holds(#[trigger] (a + b), t),
{
    held_in_itself(t);
    held_in_sums(t);
}

/// Every cell of a thin tile is summed up and written, and the tree of sums has a line for each
/// of them.
pub proof fn every_cell_is_combined(n_rows: nat, tile: nat, i: nat, j: nat)
    requires
        i < n_rows,
        j < tile,
    ensures
        ({
            let (by_subgroup, by_tree) = (
                thin_tile_combine_block_text(n_rows, tile, true),
                thin_tile_combine_block_text(n_rows, tile, false),
            );
            &&& occurs::holds(by_subgroup, text::cell_text(TILE_SUBGROUP_SUM_LINE@, tile, i, j))
            &&& occurs::holds(by_subgroup, text::cell_text(TILE_SUBGROUP_STORE_LINE@, tile, i, j))
            &&& occurs::holds(by_subgroup, text::cell_text(TILE_TOTAL_INIT_LINE@, tile, i, j))
            &&& occurs::holds(by_subgroup, text::cell_text(TILE_TOTAL_ADD_LINE@, tile, i, j))
            &&& occurs::holds(by_subgroup, text::cell_text(TILE_TOTAL_WRITE_LINE@, tile, i, j))
            &&& occurs::holds(by_tree, text::cell_text(TILE_PARTIAL_STORE_LINE@, tile, i, j))
            &&& occurs::holds(by_tree, text::numbered(TREE_64_LINE@, i * tile + j))
            &&& occurs::holds(by_tree, text::cell_text(TILE_PARTIAL_WRITE_LINE@, tile, i, j))
        }),
{
    assert(i * tile + j < n_rows * tile) by (nonlinear_arith)
        requires
            i < n_rows,
            j < tile,
    ;
    cell_is_held(TILE_SUBGROUP_SUM_LINE@, tile, n_rows, i, j);
    cell_is_held(TILE_SUBGROUP_STORE_LINE@, tile, n_rows, i, j);
    cell_is_held(TILE_TOTAL_INIT_LINE@, tile, n_rows, i, j);
    cell_is_held(TILE_TOTAL_ADD_LINE@, tile, n_rows, i, j);
    cell_is_held(TILE_TOTAL_WRITE_LINE@, tile, n_rows, i, j);
    cell_is_held(TILE_PARTIAL_STORE_LINE@, tile, n_rows, i, j);
    cell_is_held(TILE_PARTIAL_WRITE_LINE@, tile, n_rows, i, j);
    line_is_held(TREE_64_LINE@, 0, n_rows * tile, i * tile + j);
}

/// The kernels of sixty-four threads name every row of a group, start its sum and add to it, the
/// first as it is and each of the others where it is in range, and combine the sums in the end.
/// They keep a sum for each row and thread.
pub proof fn every_row_is_reduced(n_rows: nat, i: nat, subgroup: bool)
    requires
        i < n_rows,
    ensures
        ({
            let whole = main_reduce_suffix_text(n_rows, subgroup);
            let sums = SUMS_DECL@ + text::decimal_text(64 * n_rows) + ENTRY_64@;
            &&& text::has_prefix(whole, sums)
            &&& occurs::holds(whole, text::numbered(ROW_BASE_LINE@, i))
            &&& occurs::holds(whole, text::numbered(PARTIAL_INIT_LINE@, i))
            &&& i > 0 ==> occurs::holds(whole, text::numbered(REDUCE_ROW_LINE@, i))
            &&& occurs::holds(whole, reduce_combine_block_text(n_rows, subgroup))
            &&& subgroup ==> occurs::holds(whole, SUBGROUP_ENTRY_PARAMS@)
        }),
        ({
            let whole = unroll_suffix_text(n_rows, subgroup);
            let sums = SUMS_DECL@ + text::decimal_text(64 * n_rows) + ENTRY_64@;
            &&& text::has_prefix(whole, sums)
            &&& i > 0 ==> occurs::holds(whole, text::numbered(ROW_OFFSET_LINE@, i))
            &&& occurs::holds(whole, text::numbered(PARTIAL_INIT_LINE@, i))
            &&& i > 0 ==> occurs::holds(whole, text::numbered(UNROLL_ROW_LINE@, i))
            &&& occurs::holds(whole, reduce_combine_block_text(n_rows, subgroup))
            &&& subgroup ==> occurs::holds(whole, SUBGROUP_ENTRY_PARAMS@)
        }),
{
    assert(n_rows * 64 == 64 * n_rows);
    let sums = SUMS_DECL@ + text::decimal_text(64 * n_rows) + ENTRY_64@;
    starts_extend(sums);
    line_is_held(ROW_BASE_LINE@, 0, n_rows, i);
    line_is_held(PARTIAL_INIT_LINE@, 0, n_rows, i);
    part_is_held(reduce_combine_block_text(n_rows, subgroup));
    part_is_held(SUBGROUP_ENTRY_PARAMS@);
    if i > 0 {
        line_is_held(ROW_OFFSET_LINE@, 1, n_rows, i);
        line_is_held(REDUCE_ROW_LINE@, 1, n_rows, i);
        line_is_held(UNROLL_ROW_LINE@, 1, n_rows, i);
    }
}

/// The kernels of thirty-two threads name every row of a group, start its sum and add to it, the
/// first as it is and each of the others where it is in range, and combine the sums in the end.
/// They keep a sum for each row and thread.
pub proof fn every_row_is_reduced_by_half(n_rows: nat, i: nat, subgroup: bool)
    requires
        i < n_rows,
    ensures
        ({
            let whole = reduce_q4k_light_text(n_rows, subgroup);
            let sums = Q4K_LIGHT_PRELUDE@ + LIGHT_SUMS_DECL@ + text::decimal_text(32 * n_rows)
                + ENTRY_32@;
            &&& text::has_prefix(whole, sums)
            &&& i > 0 ==> occurs::holds(whole, text::numbered(ROW_OFFSET_LINE@, i))
            &&& occurs::holds(whole, text::numbered(LIGHT_INIT_LINE@, i))
            &&& i > 0 ==> occurs::holds(whole, text::numbered(LIGHT_ROW_LINE@, i))
            &&& occurs::holds(whole, light_reduce_text(n_rows, subgroup))
            &&& subgroup ==> occurs::holds(whole, SUBGROUP_ENTRY_PARAMS@)
        }),
        ({
            let whole = contig_suffix_text(n_rows, subgroup);
            let sums = SUMS_DECL@ + text::decimal_text(32 * n_rows) + ENTRY_32@;
            &&& text::has_prefix(whole, sums)
            &&& i > 0 ==> occurs::holds(whole, text::numbered(ROW_OFFSET_LINE@, i))
            &&& occurs::holds(whole, text::numbered(PARTIAL_INIT_LINE@, i))
            &&& i > 0 ==> occurs::holds(whole, text::numbered(CONTIG_ROW_LINE@, i))
            &&& occurs::holds(whole, dual_nibble_reduce_text(n_rows, subgroup))
            &&& subgroup ==> occurs::holds(whole, SUBGROUP_ENTRY_PARAMS@)
        }),
        ({
            let whole = dual_nibble_suffix_text(n_rows, subgroup);
            let sums = SUMS_DECL@ + text::decimal_text(32 * n_rows) + ENTRY_32@;
            &&& text::has_prefix(whole, sums)
            &&& i > 0 ==> occurs::holds(whole, text::numbered(ROW_OFFSET_LINE@, i))
            &&& occurs::holds(whole, text::numbered(PARTIAL_INIT_LINE@, i))
            &&& i > 0 ==> occurs::holds(whole, text::numbered(DUAL_ROW_LINE@, i))
            &&& occurs::holds(whole, dual_nibble_reduce_text(n_rows, subgroup))
            &&& subgroup ==> occurs::holds(whole, SUBGROUP_ENTRY_PARAMS@)
        }),
{
    assert(n_rows * 32 == 32 * n_rows);
    let light = Q4K_LIGHT_PRELUDE@ + LIGHT_SUMS_DECL@ + text::decimal_text(32 * n_rows) + ENTRY_32@;
    let sums = SUMS_DECL@ + text::decimal_text(32 * n_rows) + ENTRY_32@;
    starts_extend(light);
    starts_extend(sums);
    line_is_held(LIGHT_INIT_LINE@, 0, n_rows, i);
    line_is_held(PARTIAL_INIT_LINE@, 0, n_rows, i);
    part_is_held(light_reduce_text(n_rows, subgroup));
    part_is_held(dual_nibble_reduce_text(n_rows, subgroup));
    part_is_held(SUBGROUP_ENTRY_PARAMS@);
    if i > 0 {
        line_is_held(ROW_OFFSET_LINE@, 1, n_rows, i);
        line_is_held(LIGHT_ROW_LINE@, 1, n_rows, i);
        line_is_held(CONTIG_ROW_LINE@, 1, n_rows, i);
        line_is_held(DUAL_ROW_LINE@, 1, n_rows, i);
    }
}

/// A text that starts with another does so with anything behind it.
proof fn starts_extend(s: Seq<char>)
    ensures
        text::has_prefix(s, s),
        forall|a: Seq<char>, b: Seq<char>|
            text::has_prefix(a, s) ==> text::has_prefix(#[trigger] (a + b), s),
{
    assert(s.take(s.len() as int) =~= s);
    assert forall|a: Seq<char>, b: Seq<char>| text::has_prefix(a, s) implies text::has_prefix(
        #[trigger] (a + b),
        s,
    ) by {
        assert((a + b).take(s.len() as int) =~= a.take(s.len() as int));
    }
}

/// The thin-tile kernels name every row and start, fill and combine every cell of a tile. They
/// keep a sum for each cell and thread.
pub proof fn every_cell_is_reduced(n_rows: nat, tile: nat, i: nat, j: nat, subgroup: bool)
    requires
        i < n_rows,
        j < tile,
    ensures
        ({
            let whole = thin_tile_reduce_suffix_text(n_rows, tile, subgroup);
            let sums = SUMS_DECL@ + text::decimal_text(64 * (n_rows * tile)) + ENTRY_64@;
            &&& text::has_prefix(whole, sums)
            &&& occurs::holds(whole, text::numbered(ROW_BASE_LINE@, i))
            &&& occurs::holds(whole, text::cell_text(TILE_PARTIAL_LINE@, tile, i, j))
            &&& i > 0 ==> occurs::holds(whole, text::numbered(TILE_WEIGHT_LINE@, i))
            &&& occurs::holds(whole, text::numbered(TILE_INPUT_LINE@, j))
            &&& occurs::holds(whole, text::cell_text(TILE_ACCUMULATE_LINE@, tile, i, j))
            &&& occurs::holds(whole, thin_tile_combine_block_text(n_rows, tile, subgroup))
            &&& subgroup ==> occurs::holds(whole, SUBGROUP_ENTRY_PARAMS@)
        }),
{
    assert(n_rows * tile * 64 == 64 * (n_rows * tile));
    let sums = SUMS_DECL@ + text::decimal_text(64 * (n_rows * tile)) + ENTRY_64@;
    starts_extend(sums);
    line_is_held(ROW_BASE_LINE@, 0, n_rows, i);
    line_is_held(TILE_INPUT_LINE@, 0, tile, j);
    cell_is_held(TILE_PARTIAL_LINE@, tile, n_rows, i, j);
    cell_is_held(TILE_ACCUMULATE_LINE@, tile, n_rows, i, j);
    part_is_held(thin_tile_combine_block_text(n_rows, tile, subgroup));
    part_is_held(SUBGROUP_ENTRY_PARAMS@);
    if i > 0 {
        line_is_held(TILE_WEIGHT_LINE@, 1, n_rows, i);
    }
}

} // verus!
