//! The matrix kernels: the bindings and helpers, one type's decoding, and an
//! entry point, put together into one module.

use vstd::prelude::*;

use crate::occurs;
use crate::quant;
use crate::quant::{
    GGML_TYPE_BF16, GGML_TYPE_F16, GGML_TYPE_F32, GGML_TYPE_Q4_0, GGML_TYPE_Q4_K, GGML_TYPE_Q5_0,
    GGML_TYPE_Q5_K, GGML_TYPE_Q6_K, GGML_TYPE_Q8_0,
};
use crate::text;
use crate::text::decimal;
use crate::text::push_decimal;
use crate::text::replace_all;
use crate::vulkan_shaders::reduce;
use crate::vulkan_shaders::reduce::{
    contig_suffix, dual_nibble_suffix, main_reduce_suffix, thin_tile_reduce_suffix, unroll_suffix,
};
use crate::vulkan_shaders::templates::{
    BF16_COOP_MIDDLE, BF16_WIDE_MIDDLE, F16_COOP_MIDDLE, F16_WIDE_MIDDLE, F32_COOP_MIDDLE,
    F32_WIDE_MIDDLE, MAIN_COOP_SUFFIX, MAIN_COOP_TILED_REST, MMVQ_BODY, MMVQ_OPEN,
    MMVQ_REDUCE_SUBGROUP, MMVQ_REDUCE_TREE, MMVQ_SUBGROUP_PARAMS, PACKED_CLOSE, PACKED_GUARD,
    PACKED_LOCALS, PACKED_LOOP, PACKED_OPEN, PACKED_VEC4_BASE, PACKED_VEC4_PAIR, PACKED_WORD_BASE,
    PACKED_WORD_PAIR, PRELUDE_OPEN, Q4K_CONTIG_MIDDLE, Q4K_DUAL_MIDDLE, Q4K_PACKED_MIDDLE,
    Q4K_UNROLL_MIDDLE, Q4K_UNROLL_PACKED_MIDDLE, Q4K_WIDE_PACKED_MIDDLE, Q4_0_COOP_MIDDLE,
    Q4_0_WIDE_MIDDLE, Q4_K_COOP_MIDDLE, Q4_K_WIDE_MIDDLE, Q5K_UNROLL_MIDDLE, Q5_0_COOP_MIDDLE,
    Q5_0_WIDE_MIDDLE, Q5_K_COOP_MIDDLE, Q5_K_WIDE_MIDDLE, Q6K_DUAL_MIDDLE, Q6K_UNROLL_MIDDLE,
    Q6_K_COOP_MIDDLE, Q6_K_WIDE_MIDDLE, Q8_0_COOP_MIDDLE, Q8_0_WIDE_MIDDLE, QUANTIZE_Q8_SHADER,
    VEC4_HELPERS, VEC4_WEIGHTS, WORD_HELPERS, WORD_WEIGHTS,
};

verus! {

/// The number of output rows in one tile of the tiled kernel.
pub const COOP_TILE_ROWS: u32 = 16;

/// The number of tokens in one tile of the tiled kernel.
pub const COOP_TILE_TOKENS: u32 = 64;

/// The number of inner elements that the tiled kernel stages at a time.
pub const COOP_CHUNK: u32 = 32;

/// The scalar activation binding of the wide-load kernels.
pub const SCALAR_X_BINDING: &'static str =
    "@group(0) @binding(1) var<storage, read> x: array<f32>;";

/// The four-wide activation binding of the contiguous kernel.
pub const VEC4_X_BINDING: &'static str =
    "@group(0) @binding(1) var<storage, read> xv4: array<vec4<f32>>;";

/// Three parts of a module, each on lines of its own.
pub open spec fn module_text(a: Seq<char>, b: Seq<char>, c: Seq<char>) -> Seq<char> {
    a + "\n"@ + b + "\n"@ + c
}

/// The element decoder of a type, for the types that have kernels.
pub open spec fn coop_middle_text(ggml_type: u32) -> Option<Seq<char>> {
    if ggml_type == GGML_TYPE_F32 {
        Some(F32_COOP_MIDDLE@)
    } else if ggml_type == GGML_TYPE_F16 {
        Some(F16_COOP_MIDDLE@)
    } else if ggml_type == GGML_TYPE_BF16 {
        Some(BF16_COOP_MIDDLE@)
    } else if ggml_type == GGML_TYPE_Q4_0 {
        Some(Q4_0_COOP_MIDDLE@)
    } else if ggml_type == GGML_TYPE_Q5_0 {
        Some(Q5_0_COOP_MIDDLE@)
    } else if ggml_type == GGML_TYPE_Q8_0 {
        Some(Q8_0_COOP_MIDDLE@)
    } else if ggml_type == GGML_TYPE_Q4_K {
        Some(Q4_K_COOP_MIDDLE@)
    } else if ggml_type == GGML_TYPE_Q5_K {
        Some(Q5_K_COOP_MIDDLE@)
    } else if ggml_type == GGML_TYPE_Q6_K {
        Some(Q6_K_COOP_MIDDLE@)
    } else {
        None
    }
}

/// The wide-load element decoder of a type, for the types that have kernels.
pub open spec fn wide_middle_text(ggml_type: u32) -> Option<Seq<char>> {
    if ggml_type == GGML_TYPE_F32 {
        Some(F32_WIDE_MIDDLE@)
    } else if ggml_type == GGML_TYPE_F16 {
        Some(F16_WIDE_MIDDLE@)
    } else if ggml_type == GGML_TYPE_BF16 {
        Some(BF16_WIDE_MIDDLE@)
    } else if ggml_type == GGML_TYPE_Q4_0 {
        Some(Q4_0_WIDE_MIDDLE@)
    } else if ggml_type == GGML_TYPE_Q5_0 {
        Some(Q5_0_WIDE_MIDDLE@)
    } else if ggml_type == GGML_TYPE_Q8_0 {
        Some(Q8_0_WIDE_MIDDLE@)
    } else if ggml_type == GGML_TYPE_Q4_K {
        Some(Q4_K_WIDE_MIDDLE@)
    } else if ggml_type == GGML_TYPE_Q5_K {
        Some(Q5_K_WIDE_MIDDLE@)
    } else if ggml_type == GGML_TYPE_Q6_K {
        Some(Q6_K_WIDE_MIDDLE@)
    } else {
        None
    }
}

/// The block dot product of a type, for the types made of 256-element blocks.
pub open spec fn unroll_middle_text(ggml_type: u32) -> Option<Seq<char>> {
    if ggml_type == GGML_TYPE_Q4_K {
        Some(Q4K_UNROLL_MIDDLE@)
    } else if ggml_type == GGML_TYPE_Q5_K {
        Some(Q5K_UNROLL_MIDDLE@)
    } else if ggml_type == GGML_TYPE_Q6_K {
        Some(Q6K_UNROLL_MIDDLE@)
    } else {
        None
    }
}

/// The parameters, bindings and decoders of a kernel: the weights are bound as words,
/// or for wide loads sixteen bytes at a time.
pub open spec fn prelude_text(wide: bool) -> Seq<char> {
    if wide {
        PRELUDE_OPEN@ + VEC4_WEIGHTS@ + VEC4_HELPERS@
    } else {
        PRELUDE_OPEN@ + WORD_WEIGHTS@ + WORD_HELPERS@
    }
}

/// The line that says how many bytes a block has.
pub open spec fn block_bytes_line(n: nat) -> Seq<char> {
    "const BLOCK_BYTES: u32 = "@ + text::decimal_text(n) + "u;"@
}

/// The line that says how many elements a block has.
pub open spec fn block_elems_line(n: nat) -> Seq<char> {
    "const BLOCK_ELEMS: u32 = "@ + text::decimal_text(n) + "u;"@
}

/// The decoder of a type: the sizes of its blocks, and how they are decoded.
pub open spec fn decoder_text(ggml_type: u32, middle: Seq<char>) -> Seq<char> {
    let (block_bytes, block_elems) = quant::layout(ggml_type)->0;
    "\n"@ + block_bytes_line(block_bytes) + "\n"@ + block_elems_line(block_elems) + "\n"@ + middle
}

/// The entry point of the packed-half kernels.
pub open spec fn packed_suffix_text(wide: bool) -> Seq<char> {
    PACKED_OPEN@ + PACKED_GUARD@ + PACKED_LOCALS@ + (if wide {
        PACKED_VEC4_BASE@
    } else {
        PACKED_WORD_BASE@
    }) + PACKED_LOOP@ + (if wide {
        PACKED_VEC4_PAIR@
    } else {
        PACKED_WORD_PAIR@
    }) + PACKED_CLOSE@
}

/// The line that says how many rows a tile has.
pub open spec fn tile_rows_line() -> Seq<char> {
    "const TILE_ROWS: u32 = "@ + text::decimal_text(COOP_TILE_ROWS as nat) + "u;"@
}

/// The line that says how many tokens a tile has.
pub open spec fn tile_tokens_line() -> Seq<char> {
    "const TILE_TOKENS: u32 = "@ + text::decimal_text(COOP_TILE_TOKENS as nat) + "u;"@
}

/// The line that says how many inner elements are staged at a time.
pub open spec fn chunk_line() -> Seq<char> {
    "const CHUNK: u32 = "@ + text::decimal_text(COOP_CHUNK as nat) + "u;"@
}

/// The sizes of a tile.
pub open spec fn tile_sizes_text() -> Seq<char> {
    "\n"@ + tile_rows_line() + "\n"@ + tile_tokens_line() + "\n"@ + chunk_line() + "\n"@
}

/// A template of the tiled kernels with the sizes of a tile filled in.
pub open spec fn tile_filled(template: Seq<char>) -> Seq<char> {
    text::replaced(
        text::replaced(
            text::replaced(template, "%TILE_ROWS%"@, text::decimal_text(COOP_TILE_ROWS as nat)),
            "%TILE_TOKENS%"@,
            text::decimal_text(COOP_TILE_TOKENS as nat),
        ),
        "%CHUNK%"@,
        text::decimal_text(COOP_CHUNK as nat),
    )
}

/// The entry point of the tiled kernels with its sizes filled in.
pub open spec fn coop_tiled_suffix_text() -> Seq<char> {
    tile_sizes_text() + tile_filled(MAIN_COOP_TILED_REST@)
}

/// The parameters, bindings and decoders of a kernel.
fn prelude(wide: bool) -> (res: String)
    ensures
        res@ == prelude_text(wide),
{
    let mut s = PRELUDE_OPEN.to_owned();
    if wide {
        s.append(VEC4_WEIGHTS);
        s.append(VEC4_HELPERS);
    } else {
        s.append(WORD_WEIGHTS);
        s.append(WORD_HELPERS);
    }
    s
}

/// The decoder of a type.
fn decoder(ggml_type: u32, middle: &str) -> (res: String)
    requires
        quant::layout(ggml_type) is Some,
    ensures
        res@ == decoder_text(ggml_type, middle@),
{
    let (block_bytes, block_elems): (usize, usize) = match quant::block_layout(ggml_type) {
        Some(sizes) => sizes,
        None => (0, 0),
    };
    let mut s = "\n".to_owned();
    let ghost open = s@;
    s.append("const BLOCK_BYTES: u32 = ");
    push_decimal(&mut s, block_bytes as u64);
    s.append("u;");
    assert(s@ =~= open + block_bytes_line(block_bytes as nat));
    s.append("\n");
    let ghost bytes = s@;
    s.append("const BLOCK_ELEMS: u32 = ");
    push_decimal(&mut s, block_elems as u64);
    s.append("u;");
    assert(s@ =~= bytes + block_elems_line(block_elems as nat));
    s.append("\n");
    s.append(middle);
    s
}

/// The entry point of the packed-half kernels.
fn packed_suffix(wide: bool) -> (res: String)
    ensures
        res@ == packed_suffix_text(wide),
{
    let mut s = PACKED_OPEN.to_owned();
    s.append(PACKED_GUARD);
    s.append(PACKED_LOCALS);
    s.append(if wide {
        PACKED_VEC4_BASE
    } else {
        PACKED_WORD_BASE
    });
    s.append(PACKED_LOOP);
    s.append(if wide {
        PACKED_VEC4_PAIR
    } else {
        PACKED_WORD_PAIR
    });
    s.append(PACKED_CLOSE);
    s
}

/// The entry point of the tiled kernels with its sizes filled in.
fn coop_tiled_suffix() -> (res: String)
    ensures
        res@ == coop_tiled_suffix_text(),
{
    proof {
        reveal_strlit("%TILE_ROWS%");
        reveal_strlit("%TILE_TOKENS%");
        reveal_strlit("%CHUNK%");
    }
    let rows = decimal(COOP_TILE_ROWS as u64);
    let tokens = decimal(COOP_TILE_TOKENS as u64);
    let chunk = decimal(COOP_CHUNK as u64);
    let mut s = "\n".to_owned();
    let ghost open = s@;
    s.append("const TILE_ROWS: u32 = ");
    s.append(rows.as_str());
    s.append("u;");
    assert(s@ =~= open + tile_rows_line());
    s.append("\n");
    let ghost first = s@;
    s.append("const TILE_TOKENS: u32 = ");
    s.append(tokens.as_str());
    s.append("u;");
    assert(s@ =~= first + tile_tokens_line());
    s.append("\n");
    let ghost second = s@;
    s.append("const CHUNK: u32 = ");
    s.append(chunk.as_str());
    s.append("u;");
    assert(s@ =~= second + chunk_line());
    s.append("\n");
    let rest = replace_all(MAIN_COOP_TILED_REST, "%TILE_ROWS%", rows.as_str());
    let rest = replace_all(rest.as_str(), "%TILE_TOKENS%", tokens.as_str());
    let rest = replace_all(rest.as_str(), "%CHUNK%", chunk.as_str());
    s.append(rest.as_str());
    s
}

/// A kernel: what all have, the decoder of a type, and an entry point.
pub open spec fn kernel_text(
    wide: bool,
    ggml_type: u32,
    middle: Seq<char>,
    suffix: Seq<char>,
) -> Seq<char> {
    module_text(prelude_text(wide), decoder_text(ggml_type, middle), suffix)
}

/// A kernel that uses half floats.
pub open spec fn half_kernel_text(
    wide: bool,
    ggml_type: u32,
    middle: Seq<char>,
    suffix: Seq<char>,
) -> Seq<char> {
    "enable f16;\n"@ + kernel_text(wide, ggml_type, middle, suffix)
}

fn kernel(wide: bool, ggml_type: u32, middle: &str, suffix: &str) -> (res: String)
    requires
        quant::layout(ggml_type) is Some,
    ensures
        res@ == kernel_text(wide, ggml_type, middle@, suffix@),
{
    let mut s = prelude(wide);
    s.append("\n");
    let body = decoder(ggml_type, middle);
    s.append(body.as_str());
    s.append("\n");
    s.append(suffix);
    s
}

fn half_kernel(wide: bool, ggml_type: u32, middle: &str, suffix: &str) -> (res: String)
    requires
        quant::layout(ggml_type) is Some,
    ensures
        res@ == half_kernel_text(wide, ggml_type, middle@, suffix@),
{
    let mut s = "enable f16;\n".to_owned();
    let rest = kernel(wide, ggml_type, middle, suffix);
    s.append(rest.as_str());
    s
}

fn coop_middle(ggml_type: u32) -> (res: Option<&'static str>)
    ensures
        res is Some <==> coop_middle_text(ggml_type) is Some,
        res is Some ==> res->0@ == coop_middle_text(ggml_type)->0,
{
    if ggml_type == GGML_TYPE_F32 {
        Some(F32_COOP_MIDDLE)
    } else if ggml_type == GGML_TYPE_F16 {
        Some(F16_COOP_MIDDLE)
    } else if ggml_type == GGML_TYPE_BF16 {
        Some(BF16_COOP_MIDDLE)
    } else if ggml_type == GGML_TYPE_Q4_0 {
        Some(Q4_0_COOP_MIDDLE)
    } else if ggml_type == GGML_TYPE_Q5_0 {
        Some(Q5_0_COOP_MIDDLE)
    } else if ggml_type == GGML_TYPE_Q8_0 {
        Some(Q8_0_COOP_MIDDLE)
    } else if ggml_type == GGML_TYPE_Q4_K {
        Some(Q4_K_COOP_MIDDLE)
    } else if ggml_type == GGML_TYPE_Q5_K {
        Some(Q5_K_COOP_MIDDLE)
    } else if ggml_type == GGML_TYPE_Q6_K {
        Some(Q6_K_COOP_MIDDLE)
    } else {
        None
    }
}

fn wide_middle(ggml_type: u32) -> (res: Option<&'static str>)
    ensures
        res is Some <==> wide_middle_text(ggml_type) is Some,
        res is Some ==> res->0@ == wide_middle_text(ggml_type)->0,
{
    if ggml_type == GGML_TYPE_F32 {
        Some(F32_WIDE_MIDDLE)
    } else if ggml_type == GGML_TYPE_F16 {
        Some(F16_WIDE_MIDDLE)
    } else if ggml_type == GGML_TYPE_BF16 {
        Some(BF16_WIDE_MIDDLE)
    } else if ggml_type == GGML_TYPE_Q4_0 {
        Some(Q4_0_WIDE_MIDDLE)
    } else if ggml_type == GGML_TYPE_Q5_0 {
        Some(Q5_0_WIDE_MIDDLE)
    } else if ggml_type == GGML_TYPE_Q8_0 {
        Some(Q8_0_WIDE_MIDDLE)
    } else if ggml_type == GGML_TYPE_Q4_K {
        Some(Q4_K_WIDE_MIDDLE)
    } else if ggml_type == GGML_TYPE_Q5_K {
        Some(Q5_K_WIDE_MIDDLE)
    } else if ggml_type == GGML_TYPE_Q6_K {
        Some(Q6_K_WIDE_MIDDLE)
    } else {
        None
    }
}

/// The reduction kernel of a type, or nothing for a type without kernels.
pub fn shader_source_reduce(ggml_type: u32, n_rows: usize, subgroup: bool) -> (res: Option<String>)
    requires
        n_rows >= 1,
        n_rows * 64 <= usize::MAX,
    ensures
        res is Some <==> coop_middle_text(ggml_type) is Some,
        res is Some ==> res->0@ == kernel_text(
            false,
            ggml_type,
            coop_middle_text(ggml_type)->0,
            reduce::main_reduce_suffix_text(n_rows as nat, subgroup),
        ),
{
    match coop_middle(ggml_type) {
        Some(middle) => {
            let suffix = main_reduce_suffix(n_rows, subgroup);
            Some(kernel(false, ggml_type, middle, suffix.as_str()))
        },
        None => None,
    }
}

/// The thin-tile kernel of a type, or nothing for a type without kernels.
pub fn shader_source_reduce_thin_tile(
    ggml_type: u32,
    n_rows: usize,
    tile: usize,
    subgroup: bool,
) -> (res: Option<String>)
    requires
        n_rows >= 1,
        tile >= 1,
        n_rows * tile * 64 <= usize::MAX,
    ensures
        res is Some <==> coop_middle_text(ggml_type) is Some,
        res is Some ==> res->0@ == kernel_text(
            false,
            ggml_type,
            coop_middle_text(ggml_type)->0,
            reduce::thin_tile_reduce_suffix_text(n_rows as nat, tile as nat, subgroup),
        ),
{
    match coop_middle(ggml_type) {
        Some(middle) => {
            let suffix = thin_tile_reduce_suffix(n_rows, tile, subgroup);
            Some(kernel(false, ggml_type, middle, suffix.as_str()))
        },
        None => None,
    }
}

/// The `Q4_K` reduction kernel on packed halves.
pub fn shader_source_reduce_q4k_packed_f16() -> (res: String)
    ensures
        res@ == half_kernel_text(
            false,
            GGML_TYPE_Q4_K,
            Q4K_PACKED_MIDDLE@,
            packed_suffix_text(false),
        ),
{
    let suffix = packed_suffix(false);
    half_kernel(false, GGML_TYPE_Q4_K, Q4K_PACKED_MIDDLE, suffix.as_str())
}

/// The wide-load reduction kernel of a type, or nothing for a type without
/// kernels.
pub fn shader_source_reduce_wide_load(
    ggml_type: u32,
    n_rows: usize,
    subgroup: bool,
) -> (res: Option<String>)
    requires
        n_rows >= 1,
        n_rows * 64 <= usize::MAX,
    ensures
        res is Some <==> wide_middle_text(ggml_type) is Some,
        res is Some ==> res->0@ == kernel_text(
            true,
            ggml_type,
            wide_middle_text(ggml_type)->0,
            reduce::main_reduce_suffix_text(n_rows as nat, subgroup),
        ),
{
    match wide_middle(ggml_type) {
        Some(middle) => {
            let suffix = main_reduce_suffix(n_rows, subgroup);
            Some(kernel(true, ggml_type, middle, suffix.as_str()))
        },
        None => None,
    }
}

/// The block-unroll kernel for `Q4_K`.
pub fn shader_source_reduce_q4k_wide_unroll(n_rows: usize, subgroup: bool) -> (res: String)
    requires
        n_rows >= 1,
        n_rows * 64 <= usize::MAX,
    ensures
        res@ == kernel_text(
            true,
            GGML_TYPE_Q4_K,
            Q4K_UNROLL_MIDDLE@,
            reduce::unroll_suffix_text(n_rows as nat, subgroup),
        ),
{
    let suffix = unroll_suffix(n_rows, subgroup);
    kernel(true, GGML_TYPE_Q4_K, Q4K_UNROLL_MIDDLE, suffix.as_str())
}

/// The block-unroll kernel for `Q5_K`.
pub fn shader_source_reduce_q5k_wide_unroll(n_rows: usize, subgroup: bool) -> (res: String)
    requires
        n_rows >= 1,
        n_rows * 64 <= usize::MAX,
    ensures
        res@ == kernel_text(
            true,
            GGML_TYPE_Q5_K,
            Q5K_UNROLL_MIDDLE@,
            reduce::unroll_suffix_text(n_rows as nat, subgroup),
        ),
{
    let suffix = unroll_suffix(n_rows, subgroup);
    kernel(true, GGML_TYPE_Q5_K, Q5K_UNROLL_MIDDLE, suffix.as_str())
}

/// The block-unroll kernel for `Q6_K`.
pub fn shader_source_reduce_q6k_wide_unroll(n_rows: usize, subgroup: bool) -> (res: String)
    requires
        n_rows >= 1,
        n_rows * 64 <= usize::MAX,
    ensures
        res@ == kernel_text(
            true,
            GGML_TYPE_Q6_K,
            Q6K_UNROLL_MIDDLE@,
            reduce::unroll_suffix_text(n_rows as nat, subgroup),
        ),
{
    let suffix = unroll_suffix(n_rows, subgroup);
    kernel(true, GGML_TYPE_Q6_K, Q6K_UNROLL_MIDDLE, suffix.as_str())
}

/// The block-unroll kernel of a type, or nothing for a type that is not made of
/// 256-element blocks.
pub fn shader_source_reduce_wide_unroll(
    ggml_type: u32,
    n_rows: usize,
    subgroup: bool,
) -> (res: Option<String>)
    requires
        n_rows >= 1,
        n_rows * 64 <= usize::MAX,
    ensures
        res is Some <==> unroll_middle_text(ggml_type) is Some,
        res is Some ==> res->0@ == kernel_text(
            true,
            ggml_type,
            unroll_middle_text(ggml_type)->0,
            reduce::unroll_suffix_text(n_rows as nat, subgroup),
        ),
{
    if ggml_type == GGML_TYPE_Q4_K {
        Some(shader_source_reduce_q4k_wide_unroll(n_rows, subgroup))
    } else if ggml_type == GGML_TYPE_Q5_K {
        Some(shader_source_reduce_q5k_wide_unroll(n_rows, subgroup))
    } else if ggml_type == GGML_TYPE_Q6_K {
        Some(shader_source_reduce_q6k_wide_unroll(n_rows, subgroup))
    } else {
        None
    }
}

/// Quantizes an activation row for the integer-dot kernel.
pub fn shader_source_quantize_q8() -> (res: String)
    ensures
        res@ == QUANTIZE_Q8_SHADER@,
{
    QUANTIZE_Q8_SHADER.to_owned()
}

/// The integer-dot `Q4_K` kernel.
pub fn shader_source_reduce_q4k_mmvq(subgroup: bool) -> (res: String)
    ensures
        res@ == MMVQ_OPEN@ + (if subgroup {
            MMVQ_SUBGROUP_PARAMS@
        } else {
            ""@
        }) + MMVQ_BODY@ + (if subgroup {
            MMVQ_REDUCE_SUBGROUP@
        } else {
            MMVQ_REDUCE_TREE@
        }) + "}\n"@,
{
    let mut s = MMVQ_OPEN.to_owned();
    if subgroup {
        s.append(MMVQ_SUBGROUP_PARAMS);
    } else {
        s.append("");
    }
    s.append(MMVQ_BODY);
    if subgroup {
        s.append(MMVQ_REDUCE_SUBGROUP);
    } else {
        s.append(MMVQ_REDUCE_TREE);
    }
    s.append("}\n");
    s
}

/// The `Q4_K` kernel that reads every byte once and decodes both its halves.
pub fn shader_source_reduce_q4k_dual_nibble(n_rows: usize, subgroup: bool) -> (res: String)
    requires
        n_rows >= 1,
        n_rows * 32 <= usize::MAX,
    ensures
        res@ == kernel_text(
            true,
            GGML_TYPE_Q4_K,
            Q4K_DUAL_MIDDLE@,
            reduce::dual_nibble_suffix_text(n_rows as nat, subgroup),
        ),
{
    let suffix = dual_nibble_suffix(n_rows, subgroup);
    kernel(true, GGML_TYPE_Q4_K, Q4K_DUAL_MIDDLE, suffix.as_str())
}

/// The `Q4_K` kernel whose lanes own consecutive bytes: the activations are
/// bound four wide.
pub fn shader_source_reduce_q4k_contig(n_rows: usize, subgroup: bool) -> (res: String)
    requires
        n_rows >= 1,
        n_rows * 32 <= usize::MAX,
    ensures
        res@ == module_text(
            text::replaced(prelude_text(true), SCALAR_X_BINDING@, VEC4_X_BINDING@),
            decoder_text(GGML_TYPE_Q4_K, Q4K_CONTIG_MIDDLE@),
            reduce::contig_suffix_text(n_rows as nat, subgroup),
        ),
{
    proof {
        reveal_strlit("@group(0) @binding(1) var<storage, read> x: array<f32>;");
    }
    let scalar = prelude(true);
    let mut s = replace_all(scalar.as_str(), SCALAR_X_BINDING, VEC4_X_BINDING);
    let body = decoder(GGML_TYPE_Q4_K, Q4K_CONTIG_MIDDLE);
    let suffix = contig_suffix(n_rows, subgroup);
    s.append("\n");
    s.append(body.as_str());
    s.append("\n");
    s.append(suffix.as_str());
    s
}

/// The `Q6_K` kernel that reads every high-bit byte once.
pub fn shader_source_reduce_q6k_dual(n_rows: usize, subgroup: bool) -> (res: String)
    requires
        n_rows >= 1,
        n_rows * 32 <= usize::MAX,
    ensures
        res@ == kernel_text(
            true,
            GGML_TYPE_Q6_K,
            Q6K_DUAL_MIDDLE@,
            reduce::dual_nibble_suffix_text(n_rows as nat, subgroup),
        ),
{
    let suffix = dual_nibble_suffix(n_rows, subgroup);
    kernel(true, GGML_TYPE_Q6_K, Q6K_DUAL_MIDDLE, suffix.as_str())
}

/// The `Q4_K` block-unroll kernel on packed halves.
pub fn shader_source_reduce_q4k_wide_unroll_packed_f16(
    n_rows: usize,
    subgroup: bool,
) -> (res: String)
    requires
        n_rows >= 1,
        n_rows * 64 <= usize::MAX,
    ensures
        res@ == half_kernel_text(
            true,
            GGML_TYPE_Q4_K,
            Q4K_UNROLL_PACKED_MIDDLE@,
            reduce::unroll_suffix_text(n_rows as nat, subgroup),
        ),
{
    let suffix = unroll_suffix(n_rows, subgroup);
    half_kernel(true, GGML_TYPE_Q4_K, Q4K_UNROLL_PACKED_MIDDLE, suffix.as_str())
}

/// The `Q4_K` wide-load kernel on packed halves.
pub fn shader_source_reduce_q4k_wide_packed_f16() -> (res: String)
    ensures
        res@ == half_kernel_text(
            true,
            GGML_TYPE_Q4_K,
            Q4K_WIDE_PACKED_MIDDLE@,
            packed_suffix_text(true),
        ),
{
    let suffix = packed_suffix(true);
    half_kernel(true, GGML_TYPE_Q4_K, Q4K_WIDE_PACKED_MIDDLE, suffix.as_str())
}

/// The cooperative kernel of a type, or nothing for a type without kernels.
pub fn shader_source_coop(ggml_type: u32) -> (res: Option<String>)
    ensures
        res is Some <==> coop_middle_text(ggml_type) is Some,
        res is Some ==> res->0@ == kernel_text(
            false,
            ggml_type,
            coop_middle_text(ggml_type)->0,
            MAIN_COOP_SUFFIX@,
        ),
{
    match coop_middle(ggml_type) {
        Some(middle) => Some(kernel(false, ggml_type, middle, MAIN_COOP_SUFFIX)),
        None => None,
    }
}

/// The tiled kernel of a type, or nothing for a type without kernels.
pub fn shader_source_coop_tiled(ggml_type: u32) -> (res: Option<String>)
    ensures
        res is Some <==> coop_middle_text(ggml_type) is Some,
        res is Some ==> res->0@ == kernel_text(
            false,
            ggml_type,
            coop_middle_text(ggml_type)->0,
            coop_tiled_suffix_text(),
        ),
{
    match coop_middle(ggml_type) {
        Some(middle) => {
            let suffix = coop_tiled_suffix();
            Some(kernel(false, ggml_type, middle, suffix.as_str()))
        },
        None => None,
    }
}

/// Every way of building a matrix kernel covers the same types: the reduction,
/// thin-tile, cooperative and tiled kernels share one table, and the wide-load
/// kernels have an entry exactly where it has one. Types of 256-element blocks,
/// which alone have block-unroll kernels, are among them.
pub proof fn kernels_cover_the_same_types(ggml_type: u32)
    ensures
        wide_middle_text(ggml_type) is Some <==> coop_middle_text(ggml_type) is Some,
        unroll_middle_text(ggml_type) is Some ==> coop_middle_text(ggml_type) is Some,
{
}

/// A kernel says how large the blocks of its type are, and ends with its entry point.
pub proof fn kernels_know_their_blocks(
    wide: bool,
    ggml_type: u32,
    middle: Seq<char>,
    suffix: Seq<char>,
)
    requires
        quant::layout(ggml_type) is Some,
    ensures
        ({
            let t = kernel_text(wide, ggml_type, middle, suffix);
            let (block_bytes, block_elems) = quant::layout(ggml_type)->0;
            &&& occurs::holds(t, block_bytes_line(block_bytes))
            &&& occurs::holds(t, block_elems_line(block_elems))
            &&& text::has_suffix(t, suffix)
        }),
{
    let t = kernel_text(wide, ggml_type, middle, suffix);
    let (block_bytes, block_elems) = quant::layout(ggml_type)->0;
    let (b, e) = (block_bytes_line(block_bytes), block_elems_line(block_elems));
    let open = prelude_text(wide) + "\n"@ + "\n"@;
    let after = "\n"@ + e + "\n"@ + middle + "\n"@ + suffix;
    assert(t =~= open + b + after);
    occurs::held_between(open, b, after);
    let open = open + b + "\n"@;
    let after = "\n"@ + middle + "\n"@ + suffix;
    assert(t =~= open + e + after);
    occurs::held_between(open, e, after);
    assert(t.skip(t.len() - suffix.len()) =~= suffix);
}

/// The weights of a kernel are bound as words, or for wide loads sixteen bytes at a time.
pub proof fn kernels_bind_their_weights(
    wide: bool,
    ggml_type: u32,
    middle: Seq<char>,
    suffix: Seq<char>,
)
    ensures
        occurs::holds(
            kernel_text(wide, ggml_type, middle, suffix),
            if wide {
                "weights: array<vec4<u32>>;"@
            } else {
                "weights: array<u32>;"@
            },
        ),
{
    let t = kernel_text(wide, ggml_type, middle, suffix);
    let end = "\n"@ + decoder_text(ggml_type, middle) + "\n"@ + suffix;
    reveal_strlit("@group(0) @binding(0) var<storage, read> weights: array<u32>;\n");
    reveal_strlit("@group(0) @binding(0) var<storage, read> weights: array<vec4<u32>>;\n");
    reveal_strlit("weights: array<vec4<u32>>;");
    reveal_strlit("weights: array<u32>;");
    reveal_strlit("\n");
    let (line, helpers, bound) = if wide {
        (VEC4_WEIGHTS@, VEC4_HELPERS@, "weights: array<vec4<u32>>;"@)
    } else {
        (WORD_WEIGHTS@, WORD_HELPERS@, "weights: array<u32>;"@)
    };
    assert(line =~= line.take(41) + bound + "\n"@);
    let after = "\n"@ + helpers + end;
    assert(t =~= (PRELUDE_OPEN@ + line.take(41)) + bound + after);
    occurs::held_between(PRELUDE_OPEN@ + line.take(41), bound, after);
}

/// There is a reduction kernel for exactly the types whose blocks are known, and it says
/// how large they are.
pub proof fn reduction_kernels_fit_their_types(ggml_type: u32, n_rows: nat, subgroup: bool)
    ensures
        coop_middle_text(ggml_type) is Some <==> quant::layout(ggml_type) is Some,
        coop_middle_text(ggml_type) is Some ==> ({
            let t = kernel_text(
                false,
                ggml_type,
                coop_middle_text(ggml_type)->0,
                reduce::main_reduce_suffix_text(n_rows, subgroup),
            );
            let (block_bytes, block_elems) = quant::layout(ggml_type)->0;
            &&& occurs::holds(t, block_bytes_line(block_bytes))
            &&& occurs::holds(t, block_elems_line(block_elems))
        }),
{
    if coop_middle_text(ggml_type) is Some {
        kernels_know_their_blocks(
            false,
            ggml_type,
            coop_middle_text(ggml_type)->0,
            reduce::main_reduce_suffix_text(n_rows, subgroup),
        );
    }
}

/// There is a wide-load kernel for exactly the types that have a reduction kernel. It ends
/// with the same entry point and says the same of its blocks, but binds its weights
/// sixteen bytes at a time.
pub proof fn wide_loads_change_the_binding(ggml_type: u32, n_rows: nat, subgroup: bool)
    ensures
        wide_middle_text(ggml_type) is Some <==> coop_middle_text(ggml_type) is Some,
        wide_middle_text(ggml_type) is Some ==> ({
            let suffix = reduce::main_reduce_suffix_text(n_rows, subgroup);
            let narrow = kernel_text(false, ggml_type, coop_middle_text(ggml_type)->0, suffix);
            let wide = kernel_text(true, ggml_type, wide_middle_text(ggml_type)->0, suffix);
            let (block_bytes, block_elems) = quant::layout(ggml_type)->0;
            &&& text::has_suffix(narrow, suffix)
            &&& text::has_suffix(wide, suffix)
            &&& occurs::holds(wide, block_bytes_line(block_bytes))
            &&& occurs::holds(wide, block_elems_line(block_elems))
            &&& occurs::holds(wide, "weights: array<vec4<u32>>;"@)
            &&& occurs::holds(narrow, "weights: array<u32>;"@)
        }),
{
    if wide_middle_text(ggml_type) is Some {
        let suffix = reduce::main_reduce_suffix_text(n_rows, subgroup);
        let (c, w) = (coop_middle_text(ggml_type)->0, wide_middle_text(ggml_type)->0);
        kernels_know_their_blocks(false, ggml_type, c, suffix);
        kernels_know_their_blocks(true, ggml_type, w, suffix);
        kernels_bind_their_weights(false, ggml_type, c, suffix);
        kernels_bind_their_weights(true, ggml_type, w, suffix);
    }
}

/// The thin-tile kernel of a type is its reduction kernel up to the entry point, and ends
/// with one of its own.
pub proof fn thin_tiles_change_the_entry(ggml_type: u32, n_rows: nat, tile: nat, subgroup: bool)
    requires
        coop_middle_text(ggml_type) is Some,
    ensures
        ({
            let middle = coop_middle_text(ggml_type)->0;
            let main = reduce::main_reduce_suffix_text(n_rows, subgroup);
            let thin = reduce::thin_tile_reduce_suffix_text(n_rows, tile, subgroup);
            let before = prelude_text(false) + "\n"@ + decoder_text(ggml_type, middle) + "\n"@;
            &&& kernel_text(false, ggml_type, middle, main) == before + main
            &&& kernel_text(false, ggml_type, middle, thin) == before + thin
        }),
{
}

/// There are block-unroll kernels for the three types of 256-element blocks alone, and
/// each is the one for its type.
pub proof fn unrolled_types(ggml_type: u32)
    ensures
        unroll_middle_text(ggml_type) is Some <==> ggml_type == GGML_TYPE_Q4_K || ggml_type
            == GGML_TYPE_Q5_K || ggml_type == GGML_TYPE_Q6_K,
        unroll_middle_text(GGML_TYPE_Q4_K) == Some(Q4K_UNROLL_MIDDLE@),
        unroll_middle_text(GGML_TYPE_Q5_K) == Some(Q5K_UNROLL_MIDDLE@),
        unroll_middle_text(GGML_TYPE_Q6_K) == Some(Q6K_UNROLL_MIDDLE@),
        (quant::layout(GGML_TYPE_Q4_K)->0).1 == 256,
        (quant::layout(GGML_TYPE_Q5_K)->0).1 == 256,
        (quant::layout(GGML_TYPE_Q6_K)->0).1 == 256,
{
}

/// The block-unroll kernel on packed halves begins with the directive for them and ends
/// with the entry point of the plain one, which does not begin with the directive.
pub proof fn packed_unroll_begins_with_the_directive(n_rows: nat, subgroup: bool)
    ensures
        ({
            let suffix = reduce::unroll_suffix_text(n_rows, subgroup);
            let packed = half_kernel_text(true, GGML_TYPE_Q4_K, Q4K_UNROLL_PACKED_MIDDLE@, suffix);
            let plain = kernel_text(true, GGML_TYPE_Q4_K, Q4K_UNROLL_MIDDLE@, suffix);
            &&& text::has_prefix(packed, "enable f16;"@)
            &&& text::has_suffix(packed, suffix)
            &&& text::has_suffix(plain, suffix)
            &&& !text::has_prefix(plain, "enable f16;"@)
        }),
{
    let suffix = reduce::unroll_suffix_text(n_rows, subgroup);
    let plain = kernel_text(true, GGML_TYPE_Q4_K, Q4K_UNROLL_MIDDLE@, suffix);
    half_kernels_begin_with_the_directive(
        true,
        GGML_TYPE_Q4_K,
        Q4K_UNROLL_PACKED_MIDDLE@,
        suffix,
    );
    kernels_know_their_blocks(true, GGML_TYPE_Q4_K, Q4K_UNROLL_MIDDLE@, suffix);
    reveal_strlit("enable f16;");
    reveal_strlit(
        "\nstruct Meta {\n    in_dim: u32,\n    out_dim: u32,\n    n_tokens: u32,\n    row_bytes: u32,\n}\n\n",
    );
    assert(plain[0] == PRELUDE_OPEN@[0]);
    assert(plain.take(11)[0] == '\n');
    assert("enable f16;"@[0] == 'e');
}

/// A kernel on packed halves begins with the directive for them, and is a kernel behind
/// it.
proof fn half_kernels_begin_with_the_directive(
    wide: bool,
    ggml_type: u32,
    middle: Seq<char>,
    suffix: Seq<char>,
)
    requires
        quant::layout(ggml_type) is Some,
    ensures
        ({
            let t = half_kernel_text(wide, ggml_type, middle, suffix);
            &&& text::has_prefix(t, "enable f16;"@)
            &&& text::has_suffix(t, suffix)
        }),
{
    let t = half_kernel_text(wide, ggml_type, middle, suffix);
    reveal_strlit("enable f16;");
    reveal_strlit("enable f16;\n");
    assert(t.take(11) =~= "enable f16;"@);
    let rest = kernel_text(wide, ggml_type, middle, suffix);
    kernels_know_their_blocks(wide, ggml_type, middle, suffix);
    assert(t.skip(t.len() - suffix.len()) =~= rest.skip(rest.len() - suffix.len()));
}

/// Both kernels on packed halves begin with the directive for them and have a workgroup
/// for each row and token; one of them binds its weights sixteen bytes at a time, the
/// other as words.
pub proof fn packed_kernels_differ_in_the_binding(wide: bool)
    ensures
        ({
            let middle = if wide {
                Q4K_WIDE_PACKED_MIDDLE@
            } else {
                Q4K_PACKED_MIDDLE@
            };
            let t = half_kernel_text(wide, GGML_TYPE_Q4_K, middle, packed_suffix_text(wide));
            &&& text::has_prefix(t, "enable f16;"@)
            &&& occurs::holds(
                t,
                if wide {
                    "weights: array<vec4<u32>>;"@
                } else {
                    "weights: array<u32>;"@
                },
            )
            &&& occurs::holds(t, "if (flat >= params.out_dim * params.n_tokens)"@)
            &&& text::has_suffix(t, packed_suffix_text(wide))
        }),
{
    let middle = if wide {
        Q4K_WIDE_PACKED_MIDDLE@
    } else {
        Q4K_PACKED_MIDDLE@
    };
    let suffix = packed_suffix_text(wide);
    let kernel = kernel_text(wide, GGML_TYPE_Q4_K, middle, suffix);
    half_kernels_begin_with_the_directive(wide, GGML_TYPE_Q4_K, middle, suffix);
    kernels_bind_their_weights(wide, GGML_TYPE_Q4_K, middle, suffix);
    occurs::held_in_a_sum(
        "enable f16;\n"@,
        kernel,
        if wide {
            "weights: array<vec4<u32>>;"@
        } else {
            "weights: array<u32>;"@
        },
    );
    let guard = "if (flat >= params.out_dim * params.n_tokens)"@;
    reveal_strlit("    if (flat >= params.out_dim * params.n_tokens) {\n");
    reveal_strlit("if (flat >= params.out_dim * params.n_tokens)");
    reveal_strlit("    ");
    reveal_strlit(" {\n");
    assert(PACKED_GUARD@ =~= "    "@ + guard + " {\n"@);
    occurs::held_between("    "@, guard, " {\n"@);
    let rest = suffix.skip((PACKED_OPEN@ + PACKED_GUARD@).len() as int);
    assert(suffix =~= PACKED_OPEN@ + PACKED_GUARD@ + rest);
    occurs::held_in_a_sum(PACKED_OPEN@, PACKED_GUARD@, guard);
    occurs::held_in_a_sum(PACKED_OPEN@ + PACKED_GUARD@, rest, guard);
    let before = prelude_text(wide) + "\n"@ + decoder_text(GGML_TYPE_Q4_K, middle) + "\n"@;
    assert(kernel =~= before + suffix);
    occurs::held_in_a_sum(before, suffix, guard);
    occurs::held_in_a_sum("enable f16;\n"@, kernel, guard);
}

/// The two kernels that read every byte once end with the same entry point, and each says
/// how large its own blocks are.
pub proof fn dual_kernels_share_their_entry(n_rows: nat, subgroup: bool)
    ensures
        ({
            let suffix = reduce::dual_nibble_suffix_text(n_rows, subgroup);
            let four = kernel_text(true, GGML_TYPE_Q4_K, Q4K_DUAL_MIDDLE@, suffix);
            let six = kernel_text(true, GGML_TYPE_Q6_K, Q6K_DUAL_MIDDLE@, suffix);
            &&& text::has_suffix(four, suffix)
            &&& text::has_suffix(six, suffix)
            &&& occurs::holds(four, block_bytes_line(144))
            &&& occurs::holds(four, block_elems_line(256))
            &&& occurs::holds(six, block_bytes_line(210))
            &&& occurs::holds(six, block_elems_line(256))
        }),
{
    let suffix = reduce::dual_nibble_suffix_text(n_rows, subgroup);
    kernels_know_their_blocks(true, GGML_TYPE_Q4_K, Q4K_DUAL_MIDDLE@, suffix);
    kernels_know_their_blocks(true, GGML_TYPE_Q6_K, Q6K_DUAL_MIDDLE@, suffix);
}

/// The tiled kernel of a type is its cooperative kernel up to the entry point. Its entry
/// point says how large a tile is, and no mark is left in it.
pub proof fn tiled_kernels_are_filled_in(ggml_type: u32)
    requires
        coop_middle_text(ggml_type) is Some,
    ensures
        ({
            let middle = coop_middle_text(ggml_type)->0;
            let entry = coop_tiled_suffix_text();
            let t = kernel_text(false, ggml_type, middle, entry);
            let before = prelude_text(false) + "\n"@ + decoder_text(ggml_type, middle) + "\n"@;
            &&& t == before + entry
            &&& kernel_text(false, ggml_type, middle, MAIN_COOP_SUFFIX@) == before
                + MAIN_COOP_SUFFIX@
            &&& occurs::holds(t, tile_rows_line())
            &&& occurs::holds(t, tile_tokens_line())
            &&& occurs::holds(t, chunk_line())
            &&& !occurs::holds(entry, "%TILE_ROWS%"@)
            &&& !occurs::holds(entry, "%TILE_TOKENS%"@)
            &&& !occurs::holds(entry, "%CHUNK%"@)
        }),
{
    let middle = coop_middle_text(ggml_type)->0;
    let entry = coop_tiled_suffix_text();
    let rest = tile_filled(MAIN_COOP_TILED_REST@);
    let before = prelude_text(false) + "\n"@ + decoder_text(ggml_type, middle) + "\n"@;
    let n = "\n"@;
    assert(entry =~= n + tile_rows_line() + (n + tile_tokens_line() + n + chunk_line() + n + rest));
    occurs::held_between(
        n,
        tile_rows_line(),
        n + tile_tokens_line() + n + chunk_line() + n + rest,
    );
    assert(entry =~= (n + tile_rows_line() + n) + tile_tokens_line() + (n + chunk_line() + n + rest));
    occurs::held_between(n + tile_rows_line() + n, tile_tokens_line(), n + chunk_line() + n + rest);
    let front = n + tile_rows_line() + n + tile_tokens_line() + n;
    assert(entry =~= front + chunk_line() + (n + rest));
    occurs::held_between(front, chunk_line(), n + rest);
    occurs::held_in_a_sum(before, entry, tile_rows_line());
    occurs::held_in_a_sum(before, entry, tile_tokens_line());
    occurs::held_in_a_sum(before, entry, chunk_line());
    no_tile_marks_left();
}

/// No mark is left in the entry point of the tiled kernels.
proof fn no_tile_marks_left()
    ensures
        !occurs::holds(coop_tiled_suffix_text(), "%TILE_ROWS%"@),
        !occurs::holds(coop_tiled_suffix_text(), "%TILE_TOKENS%"@),
        !occurs::holds(coop_tiled_suffix_text(), "%CHUNK%"@),
{
    let (f, g, h) = ("%TILE_ROWS%"@, "%TILE_TOKENS%"@, "%CHUNK%"@);
    let rows = text::decimal_text(COOP_TILE_ROWS as nat);
    let tokens = text::decimal_text(COOP_TILE_TOKENS as nat);
    let chunk = text::decimal_text(COOP_CHUNK as nat);
    reveal_strlit("%TILE_ROWS%");
    reveal_strlit("%TILE_TOKENS%");
    reveal_strlit("%CHUNK%");
    text::decimal_reads_back(COOP_TILE_ROWS as nat);
    text::decimal_reads_back(COOP_TILE_TOKENS as nat);
    text::decimal_reads_back(COOP_CHUNK as nat);
    let first = text::replaced(MAIN_COOP_TILED_REST@, f, rows);
    let second = text::replaced(first, g, tokens);
    occurs::none_left(MAIN_COOP_TILED_REST@, f, rows, f);
    occurs::none_left(first, g, tokens, f);
    occurs::none_left(first, g, tokens, g);
    occurs::none_left(second, h, chunk, f);
    occurs::none_left(second, h, chunk, g);
    occurs::none_left(second, h, chunk, h);
    let sizes = tile_sizes_text();
    sizes_have_no_marks();
    no_mark_is_left(sizes, tile_filled(MAIN_COOP_TILED_REST@), f);
    no_mark_is_left(sizes, tile_filled(MAIN_COOP_TILED_REST@), g);
    no_mark_is_left(sizes, tile_filled(MAIN_COOP_TILED_REST@), h);
}

/// The lines on the sizes of a tile have no marks.
proof fn sizes_have_no_marks()
    ensures
        tile_sizes_text().len() > 0,
        tile_sizes_text().last() == '\n',
        !tile_sizes_text().contains('%'),
{
    let sizes = tile_sizes_text();
    reveal_strlit("\n");
    reveal_strlit("u;");
    reveal_strlit("const TILE_ROWS: u32 = ");
    reveal_strlit("const TILE_TOKENS: u32 = ");
    reveal_strlit("const CHUNK: u32 = ");
    let rows = text::decimal_text(COOP_TILE_ROWS as nat);
    let tokens = text::decimal_text(COOP_TILE_TOKENS as nat);
    let chunk = text::decimal_text(COOP_CHUNK as nat);
    text::decimal_reads_back(COOP_TILE_ROWS as nat);
    text::decimal_reads_back(COOP_TILE_TOKENS as nat);
    text::decimal_reads_back(COOP_CHUNK as nat);
    has_no_mark_in_three("const TILE_ROWS: u32 = "@, rows, "u;"@);
    has_no_mark_in_three("const TILE_TOKENS: u32 = "@, tokens, "u;"@);
    has_no_mark_in_three("const CHUNK: u32 = "@, chunk, "u;"@);
    let n = "\n"@;
    has_no_mark_in_three(n, tile_rows_line(), n);
    has_no_mark_in_three(n + tile_rows_line() + n, tile_tokens_line(), n);
    has_no_mark_in_three(
        n + tile_rows_line() + n + tile_tokens_line() + n,
        chunk_line(),
        n,
    );
}

/// Three texts without the sign that marks begin with are together without it.
proof fn has_no_mark_in_three(a: Seq<char>, b: Seq<char>, c: Seq<char>)
    requires
        !a.contains('%'),
        !b.contains('%'),
        !c.contains('%'),
    ensures
        !(a + b + c).contains('%'),
{
    let t = a + b + c;
    if t.contains('%') {
        let i = choose|i: int| 0 <= i < t.len() && t[i] == '%';
        if i < a.len() {
            assert(a[i] == '%');
        } else if i < a.len() + b.len() {
            assert(b[i - a.len()] == '%');
        } else {
            assert(c[i - a.len() - b.len()] == '%');
        }
    }
}

/// A mark that neither the lines on the sizes nor what follows them hold is in neither.
proof fn no_mark_is_left(sizes: Seq<char>, rest: Seq<char>, mark: Seq<char>)
    requires
        mark.len() > 0,
        mark[0] == '%',
        !mark.contains('\n'),
        !sizes.contains('%'),
        sizes.len() > 0,
        sizes.last() == '\n',
        !occurs::holds(rest, mark),
    ensures
        !occurs::holds(sizes + rest, mark),
{
    occurs::not_held(sizes, mark);
    if occurs::holds(sizes + rest, mark) {
        occurs::held_on_one_side(sizes, rest, mark);
    }
}

/// The kernels of each type hold that type's own decoder, with narrow loads as with wide
/// ones; no other type has any.
pub proof fn each_type_has_its_own_decoder(ggml_type: u32)
    ensures
        coop_middle_text(0) == Some(F32_COOP_MIDDLE@),
        coop_middle_text(1) == Some(F16_COOP_MIDDLE@),
        coop_middle_text(30) == Some(BF16_COOP_MIDDLE@),
        coop_middle_text(2) == Some(Q4_0_COOP_MIDDLE@),
        coop_middle_text(6) == Some(Q5_0_COOP_MIDDLE@),
        coop_middle_text(8) == Some(Q8_0_COOP_MIDDLE@),
        coop_middle_text(12) == Some(Q4_K_COOP_MIDDLE@),
        coop_middle_text(13) == Some(Q5_K_COOP_MIDDLE@),
        coop_middle_text(14) == Some(Q6_K_COOP_MIDDLE@),
        wide_middle_text(0) == Some(F32_WIDE_MIDDLE@),
        wide_middle_text(1) == Some(F16_WIDE_MIDDLE@),
        wide_middle_text(30) == Some(BF16_WIDE_MIDDLE@),
        wide_middle_text(2) == Some(Q4_0_WIDE_MIDDLE@),
        wide_middle_text(6) == Some(Q5_0_WIDE_MIDDLE@),
        wide_middle_text(8) == Some(Q8_0_WIDE_MIDDLE@),
        wide_middle_text(12) == Some(Q4_K_WIDE_MIDDLE@),
        wide_middle_text(13) == Some(Q5_K_WIDE_MIDDLE@),
        wide_middle_text(14) == Some(Q6_K_WIDE_MIDDLE@),
        !(seq![0u32, 1, 2, 6, 8, 12, 13, 14, 30].contains(ggml_type)) ==> coop_middle_text(
            ggml_type,
        ) is None && wide_middle_text(ggml_type) is None && unroll_middle_text(ggml_type) is None,
{
    let types = seq![0u32, 1, 2, 6, 8, 12, 13, 14, 30];
    assert(types[0] == 0 && types[1] == 1 && types[2] == 2 && types[3] == 6 && types[4] == 8
        && types[5] == 12 && types[6] == 13 && types[7] == 14 && types[8] == 30);
}

} // verus!
