//! The compute kernels' source text, one function per kernel.

pub mod absent;
pub mod attention;
pub mod elementwise;
pub mod matmul;
pub mod reduce;
pub mod templates;

pub use crate::vulkan_shaders::attention::{
    shader_source_attention, shader_source_attention_split, shader_source_attention_split_flash,
    shader_source_attention_split_gqa, shader_source_attention_split_reduce, shader_source_kv_cast,
    shader_source_kv_quantize_q8_0, KvStorage,
};
pub use crate::vulkan_shaders::elementwise::{
    shader_source_add, shader_source_argmax_penalty, shader_source_argmax_reduce,
    shader_source_argmax_softcap, shader_source_argmax_split, shader_source_fused_norm_rope,
    shader_source_gelu, shader_source_mul, shader_source_perhead_rmsnorm,
    shader_source_perhead_rmsnorm_weightless, shader_source_rmsnorm, shader_source_rmsnorm_add,
    shader_source_rmsnorm_subgroup_wg, shader_source_rope, shader_source_scale,
    FUSED_NORM_ROPE_MAX_HEAD_DIM,
};
pub use crate::vulkan_shaders::matmul::{
    shader_source_coop, shader_source_coop_tiled, shader_source_quantize_q8, shader_source_reduce,
    shader_source_reduce_q4k_contig, shader_source_reduce_q4k_dual_nibble,
    shader_source_reduce_q4k_mmvq, shader_source_reduce_q4k_packed_f16,
    shader_source_reduce_q4k_wide_packed_f16, shader_source_reduce_q4k_wide_unroll,
    shader_source_reduce_q4k_wide_unroll_packed_f16, shader_source_reduce_q5k_wide_unroll,
    shader_source_reduce_q6k_dual, shader_source_reduce_q6k_wide_unroll,
    shader_source_reduce_thin_tile, shader_source_reduce_wide_load,
    shader_source_reduce_wide_unroll, COOP_CHUNK, COOP_TILE_ROWS, COOP_TILE_TOKENS,
};
pub use crate::vulkan_shaders::reduce::shader_source_reduce_q4k_light;
