use orangu_server::quant::{block_layout, GGML_TYPE_F32, GGML_TYPE_Q4_K, GGML_TYPE_Q6_K, GGML_TYPE_Q8_0};
use orangu_server::ranking::{ranking, top_ranked};
use orangu_server::text::{decimal, fill_grid, fill_lines, replace_all, trim};
use orangu_server::vulkan_shaders::attention::{
    flash_tile_positions, shader_source_attention, shader_source_attention_split_flash, KvStorage,
};
use orangu_server::vulkan_shaders::elementwise::{
    shader_source_add, shader_source_rmsnorm, shader_source_rmsnorm_add,
    shader_source_rmsnorm_subgroup_wg,
};
use orangu_server::vulkan_shaders::matmul::{
    shader_source_coop, shader_source_coop_tiled, shader_source_reduce,
    shader_source_reduce_q4k_dual_nibble, shader_source_reduce_q4k_packed_f16,
    shader_source_reduce_q4k_wide_packed_f16, shader_source_reduce_q4k_wide_unroll,
    shader_source_reduce_q4k_wide_unroll_packed_f16, shader_source_reduce_q6k_dual,
    shader_source_reduce_q6k_wide_unroll, shader_source_reduce_thin_tile,
    shader_source_reduce_wide_load, shader_source_reduce_wide_unroll,
};
use orangu_server::vulkan_shaders::reduce::{
    dual_nibble_suffix, main_reduce_suffix, reduce_combine_block, subgroup_entry_params,
    thin_tile_reduce_suffix, unroll_suffix,
};

/// Whether every bracket that is opened is closed.
fn balanced(source: &str) -> bool {
    let count = |c: char| source.chars().filter(|&x| x == c).count();
    count('{') == count('}') && count('(') == count(')')
}

#[test]
fn kernels_exist_for_the_types_that_they_are_for() {
    for t in [GGML_TYPE_Q4_K, GGML_TYPE_Q6_K, GGML_TYPE_Q8_0] {
        let s = shader_source_reduce(t, 2, false).unwrap();
        assert!(balanced(&s) && s.contains("@compute"), "type {t}");
        assert!(shader_source_coop(t).is_some());
        assert!(shader_source_reduce_wide_load(t, 2, false).is_some());
    }
    assert!(shader_source_reduce(99, 2, false).is_none());
    assert!(shader_source_coop(99).is_none());
    assert!(shader_source_reduce_wide_unroll(GGML_TYPE_F32, 2, false).is_none());
}

#[test]
fn a_kernel_has_a_sum_for_each_row() {
    assert_eq!(
        main_reduce_suffix(2, false),
        r#"var<workgroup> partial_sums: array<f32, 128>;

@compute @workgroup_size(64)
fn main(
    @builtin(workgroup_id) wid: vec3<u32>,
    @builtin(local_invocation_id) lid: vec3<u32>,
    @builtin(num_workgroups) nwg: vec3<u32>,
) {
    let n_row_groups = (params.out_dim + 1u) / 2u;
    let flat = wid.x + wid.y * nwg.x + wid.z * nwg.x * nwg.y;
    if (flat >= n_row_groups * params.n_tokens) {
        return;
    }
    let rg = flat / params.n_tokens;
    let t = flat % params.n_tokens;
    let o_base = rg * 2u;
    let o0 = o_base + 0u;
    let o1 = o_base + 1u;
    let local = lid.x;
    let x_base = t * params.in_dim;

    var partial0: f32 = 0.0;
    var partial1: f32 = 0.0;
    var k: u32 = local;
    loop {
        if (k >= params.in_dim) {
            break;
        }
        let block_idx = k / BLOCK_ELEMS;
        let local_k = k % BLOCK_ELEMS;
        let block_off = block_idx * BLOCK_BYTES;
        let xv = x[x_base + k];
        partial0 = partial0 + dequant_element(o0 * params.row_bytes + block_off, local_k) * xv;
        if (o1 < params.out_dim) {
            partial1 = partial1 + dequant_element(o1 * params.row_bytes + block_off, local_k) * xv;
        }
        k = k + 64u;
    }

    partial_sums[0u * 64u + local] = partial0;
    partial_sums[1u * 64u + local] = partial1;
    workgroupBarrier();
    var stride: u32 = 32u;
    loop {
        if (stride == 0u) {
            break;
        }
        if (local < stride) {
            partial_sums[0u * 64u + local] = partial_sums[0u * 64u + local] + partial_sums[0u * 64u + local + stride];
            partial_sums[1u * 64u + local] = partial_sums[1u * 64u + local] + partial_sums[1u * 64u + local + stride];
        }
        workgroupBarrier();
        stride = stride / 2u;
    }
    if (local == 0u) {
        y[t * params.out_dim + o0] = partial_sums[0];
        if (o1 < params.out_dim) {
            y[t * params.out_dim + o1] = partial_sums[1u * 64u];
        }
    }
}
"#
    );
    assert_eq!(
        reduce_combine_block(1, true),
        r#"    let sg0 = subgroupAdd(partial0);
    if (sg_lane == 0u) {
        partial_sums[0u * 64u + sg_id] = sg0;
    }
    workgroupBarrier();
    if (local == 0u) {
        var t0: f32 = 0.0;
        var i: u32 = 0u;
        loop {
            if (i >= n_sg) {
                break;
            }
            t0 = t0 + partial_sums[0u * 64u + i];
            i = i + 1u;
        }
        y[t * params.out_dim + o0] = t0;
    }
"#
    );
    assert_eq!(subgroup_entry_params(false), "");
    assert!(subgroup_entry_params(true).contains("subgroup"));
}

#[test]
fn a_thin_tile_has_a_sum_for_each_row_and_token() {
    assert_eq!(
        thin_tile_reduce_suffix(2, 2, false),
        r#"var<workgroup> partial_sums: array<f32, 256>;

@compute @workgroup_size(64)
fn main(
    @builtin(workgroup_id) wid: vec3<u32>,
    @builtin(local_invocation_id) lid: vec3<u32>,
    @builtin(num_workgroups) nwg: vec3<u32>,
) {
    let n_row_groups = (params.out_dim + 1u) / 2u;
    let n_tok_tiles = (params.n_tokens + 1u) / 2u;
    let flat = wid.x + wid.y * nwg.x + wid.z * nwg.x * nwg.y;
    if (flat >= n_row_groups * n_tok_tiles) {
        return;
    }
    let rg = flat / n_tok_tiles;
    let tt = flat % n_tok_tiles;
    let o_base = rg * 2u;
    let t_base = tt * 2u;
    let o0 = o_base + 0u;
    let o1 = o_base + 1u;
    let local = lid.x;

    var p0_0: f32 = 0.0;
    var p0_1: f32 = 0.0;
    var p1_0: f32 = 0.0;
    var p1_1: f32 = 0.0;
    var k: u32 = local;
    loop {
        if (k >= params.in_dim) {
            break;
        }
        let block_idx = k / BLOCK_ELEMS;
        let local_k = k % BLOCK_ELEMS;
        let block_off = block_idx * BLOCK_BYTES;
        let w0 = dequant_element(o0 * params.row_bytes + block_off, local_k);
        var w1: f32 = 0.0;
        if (o1 < params.out_dim) { w1 = dequant_element(o1 * params.row_bytes + block_off, local_k); }
        var x0: f32 = 0.0;
        if (t_base + 0u < params.n_tokens) { x0 = x[(t_base + 0u) * params.in_dim + k]; }
        var x1: f32 = 0.0;
        if (t_base + 1u < params.n_tokens) { x1 = x[(t_base + 1u) * params.in_dim + k]; }
        p0_0 = p0_0 + w0 * x0;
        p0_1 = p0_1 + w0 * x1;
        p1_0 = p1_0 + w1 * x0;
        p1_1 = p1_1 + w1 * x1;
        k = k + 64u;
    }

    partial_sums[0u * 64u + local] = p0_0;
    partial_sums[1u * 64u + local] = p0_1;
    partial_sums[2u * 64u + local] = p1_0;
    partial_sums[3u * 64u + local] = p1_1;
    workgroupBarrier();
    var stride: u32 = 32u;
    loop {
        if (stride == 0u) {
            break;
        }
        if (local < stride) {
            partial_sums[0u * 64u + local] = partial_sums[0u * 64u + local] + partial_sums[0u * 64u + local + stride];
            partial_sums[1u * 64u + local] = partial_sums[1u * 64u + local] + partial_sums[1u * 64u + local + stride];
            partial_sums[2u * 64u + local] = partial_sums[2u * 64u + local] + partial_sums[2u * 64u + local + stride];
            partial_sums[3u * 64u + local] = partial_sums[3u * 64u + local] + partial_sums[3u * 64u + local + stride];
        }
        workgroupBarrier();
        stride = stride / 2u;
    }
    if (local == 0u) {
        if (o0 < params.out_dim && t_base + 0u < params.n_tokens) {
            y[(t_base + 0u) * params.out_dim + o0] = partial_sums[0u * 64u];
        }
        if (o0 < params.out_dim && t_base + 1u < params.n_tokens) {
            y[(t_base + 1u) * params.out_dim + o0] = partial_sums[1u * 64u];
        }
        if (o1 < params.out_dim && t_base + 0u < params.n_tokens) {
            y[(t_base + 0u) * params.out_dim + o1] = partial_sums[2u * 64u];
        }
        if (o1 < params.out_dim && t_base + 1u < params.n_tokens) {
            y[(t_base + 1u) * params.out_dim + o1] = partial_sums[3u * 64u];
        }
    }
}
"#
    );
    let s = thin_tile_reduce_suffix(1, 2, true);
    assert!(s.ends_with(
        r#"    let sg0_0 = subgroupAdd(p0_0);
    let sg0_1 = subgroupAdd(p0_1);
    if (sg_lane == 0u) {
        partial_sums[0u * 64u + sg_id] = sg0_0;
        partial_sums[1u * 64u + sg_id] = sg0_1;
    }
    workgroupBarrier();
    if (local == 0u) {
        var acc0_0: f32 = 0.0;
        var acc0_1: f32 = 0.0;
        var si: u32 = 0u;
        loop {
            if (si >= n_sg) {
                break;
            }
            acc0_0 = acc0_0 + partial_sums[0u * 64u + si];
            acc0_1 = acc0_1 + partial_sums[1u * 64u + si];
            si = si + 1u;
        }
        if (o0 < params.out_dim && t_base + 0u < params.n_tokens) {
            y[(t_base + 0u) * params.out_dim + o0] = acc0_0;
        }
        if (o0 < params.out_dim && t_base + 1u < params.n_tokens) {
            y[(t_base + 1u) * params.out_dim + o0] = acc0_1;
        }
    }
}
"#
    ));
    assert!(shader_source_reduce_thin_tile(GGML_TYPE_Q4_K, 2, 4, false).is_some());
    assert!(shader_source_reduce_thin_tile(99, 2, 4, false).is_none());
}

#[test]
fn a_flash_tile_keeps_to_the_shared_memory() {
    for head_dim in [64u32, 128, 256, 512] {
        let n = flash_tile_positions(head_dim);
        assert!(n >= 1, "{head_dim}");
        assert!(flash_tile_positions(2 * head_dim) <= n);
    }
}

#[test]
fn attention_reads_the_cache_as_it_is_stored() {
    assert_eq!(KvStorage::F32.enable_directive(), "");
    assert!(KvStorage::F16.enable_directive().contains("f16"));
    let a = shader_source_attention(KvStorage::F32, false, 128);
    let b = shader_source_attention(KvStorage::Q8_0, false, 128);
    assert_ne!(a, b);
    assert!(balanced(&a) && balanced(&b));
    let f = shader_source_attention_split_flash(KvStorage::F16, false, 128);
    assert!(f.trim_start().starts_with(KvStorage::F16.enable_directive()));
}

#[test]
fn elementwise_kernels_are_whole() {
    for s in [
        shader_source_add(),
        shader_source_rmsnorm(false, 256),
        shader_source_rmsnorm(true, 512),
        shader_source_rmsnorm_subgroup_wg(128),
    ] {
        assert!(balanced(&s) && s.contains("@compute"));
    }
    assert_ne!(shader_source_rmsnorm(false, 256), shader_source_rmsnorm(false, 512));
}

#[test]
fn templates_are_filled_line_by_line() {
    assert_eq!(fill_lines("x{i};\n", 1, 3), "x1;\nx2;\n");
    assert_eq!(fill_grid("[{i}{j}={idx}]", 2, 2), "[00=0][01=1][10=2][11=3]");
    assert_eq!(replace_all("aaab", "aa", "c"), "cab");
    assert_eq!(decimal(u64::MAX), "18446744073709551615");
    assert_eq!(decimal(0), "0");
    assert_eq!(trim(" \t\u{2003}x y\u{85}\n"), "x y");
    assert_eq!(trim("\u{200b}x"), "\u{200b}x");
}

#[test]
fn rankings_put_the_greatest_first() {
    assert_eq!(ranking(&[3, 1, 3, 2]), vec![0, 2, 3, 1]);
    assert_eq!(top_ranked(&[3, 1, 3, 2], 3), vec![0, 2, 3]);
    assert!(top_ranked(&[3, 1], 0).is_empty());
    let keys: Vec<u64> = (0..500u64).map(|i| (i * 7919) % 101).collect();
    let all = ranking(&keys);
    for k in [1, 7, 100, 500, 600] {
        assert_eq!(top_ranked(&keys, k), all[..k.min(500)]);
    }
    let mut sorted: Vec<usize> = (0..500).collect();
    sorted.sort_by_key(|&i| std::cmp::Reverse(keys[i]));
    assert_eq!(all, sorted);
}

#[test]
fn kernels_know_the_blocks_of_their_types() {
    for t in 0..40u32 {
        let narrow = shader_source_reduce(t, 2, true);
        let wide = shader_source_reduce_wide_load(t, 2, true);
        assert_eq!(narrow.is_some(), block_layout(t).is_some(), "type {t}");
        assert_eq!(wide.is_some(), narrow.is_some(), "type {t}");
        assert_eq!(shader_source_coop(t).is_some(), narrow.is_some(), "type {t}");
        assert_eq!(shader_source_coop_tiled(t).is_some(), narrow.is_some(), "type {t}");
        let (Some(narrow), Some(wide)) = (narrow, wide) else { continue };
        let (bytes, elems) = block_layout(t).unwrap();
        for s in [&narrow, &wide] {
            assert!(s.contains(&format!("\nconst BLOCK_BYTES: u32 = {bytes}u;\n")));
            assert!(s.contains(&format!("\nconst BLOCK_ELEMS: u32 = {elems}u;\n")));
            assert!(s.ends_with(&main_reduce_suffix(2, true)));
        }
        assert!(wide.contains("weights: array<vec4<u32>>;"));
        assert!(narrow.contains("weights: array<u32>;"));
        let thin = shader_source_reduce_thin_tile(t, 2, 4, true).unwrap();
        let before = narrow.strip_suffix(main_reduce_suffix(2, true).as_str()).unwrap();
        assert_eq!(thin, format!("{before}{}", thin_tile_reduce_suffix(2, 4, true)));
    }
}

#[test]
fn a_kernel_begins_with_its_bindings() {
    let s = shader_source_reduce(GGML_TYPE_F32, 1, false).unwrap();
    assert!(s.starts_with(
        "\nstruct Meta {\n    in_dim: u32,\n    out_dim: u32,\n    n_tokens: u32,\n    \
         row_bytes: u32,\n}\n\n@group(0) @binding(0) var<storage, read> weights: array<u32>;\n\
         @group(0) @binding(1) var<storage, read> x: array<f32>;\n"
    ));
    assert!(s.contains(
        "}\n\n\nconst BLOCK_BYTES: u32 = 4u;\nconst BLOCK_ELEMS: u32 = 1u;\nvar<workgroup> \
         shared_vals: array<f32, BLOCK_ELEMS>;\n"
    ));
}

#[test]
fn the_directive_for_halves_stands_once_and_first() {
    for (n, subgroup) in [(1, false), (4, true)] {
        let packed = shader_source_reduce_q4k_wide_unroll_packed_f16(n, subgroup);
        let plain = shader_source_reduce_q4k_wide_unroll(n, subgroup);
        assert!(packed.starts_with("enable f16;\n"));
        assert_eq!(packed.matches("enable f16;").count(), 1);
        assert!(!plain.contains("enable f16;"));
        assert!(packed.ends_with(&unroll_suffix(n, subgroup)));
        assert!(plain.ends_with(&unroll_suffix(n, subgroup)));
        assert_eq!(shader_source_reduce_wide_unroll(GGML_TYPE_Q4_K, n, subgroup), Some(plain));
        assert_eq!(
            shader_source_reduce_wide_unroll(GGML_TYPE_Q6_K, n, subgroup),
            Some(shader_source_reduce_q6k_wide_unroll(n, subgroup))
        );
    }
    let wide = shader_source_reduce_q4k_wide_packed_f16();
    let narrow = shader_source_reduce_q4k_packed_f16();
    for s in [&wide, &narrow] {
        assert!(s.starts_with("enable f16;\n"));
        assert!(s.contains("if (flat >= params.out_dim * params.n_tokens)"));
        assert!(!s.contains("n_row_groups") && balanced(s));
    }
    assert!(wide.contains("weights: array<vec4<u32>>;") && narrow.contains("weights: array<u32>;"));
}

#[test]
fn dual_kernels_share_their_entry_point() {
    let four = shader_source_reduce_q4k_dual_nibble(2, false);
    let six = shader_source_reduce_q6k_dual(2, false);
    assert!(four.ends_with(&dual_nibble_suffix(2, false)));
    assert!(six.ends_with(&dual_nibble_suffix(2, false)));
    assert!(four.contains("const BLOCK_BYTES: u32 = 144u;\nconst BLOCK_ELEMS: u32 = 256u;\n"));
    assert!(six.contains("const BLOCK_BYTES: u32 = 210u;\nconst BLOCK_ELEMS: u32 = 256u;\n"));
}

#[test]
fn tiled_kernels_are_filled_in() {
    let s = shader_source_coop_tiled(GGML_TYPE_Q8_0).unwrap();
    assert!(s.contains(
        "\nconst TILE_ROWS: u32 = 16u;\nconst TILE_TOKENS: u32 = 64u;\nconst CHUNK: u32 = 32u;\n\
         const THREADS_Y: u32 = 4u;\n"
    ));
    assert!(s.contains("var<workgroup> tile_w: array<f32, 16u * 32u>;\n"));
    assert!(s.contains("var<workgroup> tile_x: array<f32, 64u * 32u>;\n"));
    for mark in ["%TILE_ROWS%", "%TILE_TOKENS%", "%CHUNK%"] {
        assert!(!s.contains(mark));
    }
}

#[test]
fn norms_are_as_wide_as_asked() {
    for wg in [64usize, 256, 512] {
        for s in [shader_source_rmsnorm(false, wg), shader_source_rmsnorm_add(false, wg)] {
            assert!(s.contains(&format!("@workgroup_size({wg})")));
            assert!(s.contains(&format!("array<f32, {wg}>")));
            assert!(s.contains(&format!("var stride: u32 = {}u;", wg / 2)));
            assert_eq!(s.matches(&format!("k = k + {wg}u;")).count(), 2);
            assert!(!s.contains("%WG%") && !s.contains("%HALF%"));
        }
        assert_eq!(shader_source_rmsnorm(true, wg), shader_source_rmsnorm_subgroup_wg(64));
    }
    assert!(shader_source_rmsnorm_subgroup_wg(128).contains("@workgroup_size(128)"));
}

#[test]
fn a_residual_is_bound_and_added() {
    for subgroup in [false, true] {
        let with = shader_source_rmsnorm_add(subgroup, 128);
        let without = shader_source_rmsnorm(subgroup, 128);
        let with = with
            .replace("@group(0) @binding(2) var<storage, read> residual: array<f32>;\n", "")
            .replace("@binding(3) var<storage, read_write>", "@binding(2) var<storage, read_write>")
            .replace("@binding(4) var<uniform>", "@binding(3) var<uniform>")
            .replace(" + residual[k];", ";");
        assert_eq!(with, without);
    }
}
