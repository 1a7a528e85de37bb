//! The attention kernels and those that fill the cache they read.

use vstd::prelude::*;

use crate::text;
use crate::text::decimal;
use crate::text::push_decimal;
use crate::text::replace_all;
use crate::vulkan_shaders::templates::{
    ATTENTION_SHADER_TEMPLATE, ATTENTION_SPLIT_FLASH_SHADER_TEMPLATE,
    ATTENTION_SPLIT_REDUCE_SHADER, ATTENTION_SPLIT_SHADER_TEMPLATE, ATTENTION_SUBGROUP_PARAMS,
    CLASSIC_MAX_BLOCK, CLASSIC_SUM_BLOCK, GQA_ACC, GQA_GROUP, GQA_HEAD_DIM, GQA_MAIN, GQA_META,
    GQA_OUTPUTS, GQA_PROBS, KV_BINDINGS_F16, KV_BINDINGS_F32, KV_BINDINGS_Q8_0, KV_CAST_SHADER,
    KV_QUANTIZE_Q8_0_SHADER, KV_READ_FLOAT, KV_READ_Q8_0, SUBGROUP_MAX_BLOCK, SUBGROUP_SUM_BLOCK,
};

verus! {

/// How the keys and values of the cache are stored on the device.
#[derive(Clone, Copy, PartialEq, Eq, Debug, Structural)]
pub enum KvStorage {
    /// Single precision.
    F32,
    /// Half precision.
    F16,
    /// Blocks of 32 signed bytes with a single-precision scale, nine words each.
    /// The row length must be a multiple of 32.
    Q8_0,
}

/// The mark that the attention templates hold for the largest head size.
pub const HEAD_DIM_MARK: &'static str = "const MAX_HEAD_DIM: u32 = 2048u;";

impl KvStorage {
    /// The directive that a module needs for this storage.
    pub open spec fn enable_text(self) -> Seq<char> {
        if self == KvStorage::F16 {
            "enable f16;"@
        } else {
            ""@
        }
    }

    /// The cache bindings for this storage.
    pub open spec fn bindings_text(self) -> Seq<char> {
        match self {
            KvStorage::F32 => KV_BINDINGS_F32@,
            KvStorage::F16 => KV_BINDINGS_F16@,
            KvStorage::Q8_0 => KV_BINDINGS_Q8_0@,
        }
    }

    /// The functions that read one element of the cache.
    pub open spec fn read_fns_text(self) -> Seq<char> {
        match self {
            KvStorage::Q8_0 => KV_READ_Q8_0@,
            _ => KV_READ_FLOAT@,
        }
    }

    /// The directive that a module needs for this storage: it must lead the module
    /// when, and only when, a half-precision binding is declared.
    pub fn enable_directive(self) -> (res: &'static str)
        ensures
            res@ == self.enable_text(),
            self == KvStorage::F16 ==> res@ == "enable f16;"@,
            self != KvStorage::F16 ==> res@ == ""@,
    {
        match self {
            KvStorage::F16 => "enable f16;",
            KvStorage::F32 => "",
            KvStorage::Q8_0 => "",
        }
    }

    /// The cache bindings and the functions that read one element.
    pub fn bindings_and_read_fns(self) -> (res: (String, String))
        ensures
            res.0@ == self.bindings_text(),
            res.1@ == self.read_fns_text(),
            self == KvStorage::F32 ==> res.0@ == KV_BINDINGS_F32@ && res.1@ == KV_READ_FLOAT@,
            self == KvStorage::F16 ==> res.0@ == KV_BINDINGS_F16@ && res.1@ == KV_READ_FLOAT@,
            self == KvStorage::Q8_0 ==> res.0@ == KV_BINDINGS_Q8_0@ && res.1@ == KV_READ_Q8_0@,
    {
        match self {
            KvStorage::F32 => (KV_BINDINGS_F32.to_owned(), KV_READ_FLOAT.to_owned()),
            KvStorage::F16 => (KV_BINDINGS_F16.to_owned(), KV_READ_FLOAT.to_owned()),
            KvStorage::Q8_0 => (KV_BINDINGS_Q8_0.to_owned(), KV_READ_Q8_0.to_owned()),
        }
    }
}

/// The declaration of the largest head size.
pub open spec fn head_dim_text(head_dim: nat) -> Seq<char> {
    "const MAX_HEAD_DIM: u32 = "@ + text::decimal_text(head_dim) + "u;"@
}

/// The reduction to the largest score of a tile.
pub open spec fn max_block_text(subgroup: bool) -> Seq<char> {
    if subgroup {
        SUBGROUP_MAX_BLOCK@
    } else {
        CLASSIC_MAX_BLOCK@
    }
}

/// The reduction to the sum of a tile's weights.
pub open spec fn sum_block_text(subgroup: bool) -> Seq<char> {
    if subgroup {
        SUBGROUP_SUM_BLOCK@
    } else {
        CLASSIC_SUM_BLOCK@
    }
}

/// The subgroup parameters of an attention entry point, where it has them.
pub open spec fn attention_params_text(subgroup: bool) -> Seq<char> {
    if subgroup {
        ATTENTION_SUBGROUP_PARAMS@
    } else {
        ""@
    }
}

/// An attention template with its storage, its reductions and its largest head
/// size filled in.
pub open spec fn attention_text(
    template: Seq<char>,
    kv_storage: KvStorage,
    subgroup: bool,
    max_head_dim: nat,
) -> Seq<char> {
    text::replaced(
        text::replaced(
            text::replaced(
                text::replaced(
                    text::replaced(
                        text::replaced(
                            text::replaced(template, HEAD_DIM_MARK@, head_dim_text(max_head_dim)),
                            "%KV_ENABLE%"@,
                            kv_storage.enable_text(),
                        ),
                        "%KV_BINDINGS%"@,
                        kv_storage.bindings_text(),
                    ),
                    "%KV_READ_FNS%"@,
                    kv_storage.read_fns_text(),
                ),
                "%SUBGROUP_PARAMS%"@,
                attention_params_text(subgroup),
            ),
            "%MAX_REDUCE_BLOCK%"@,
            max_block_text(subgroup),
        ),
        "%SUM_REDUCE_BLOCK%"@,
        sum_block_text(subgroup),
    )
}

/// The number of elements that a staged tile of keys may hold.
pub const FLASH_BUDGET_ELEMS: u32 = 17_000;

/// The number of positions whose padded keys fit in the budget, at least one.
pub open spec fn flash_positions_that_fit(head_dim: nat) -> nat {
    if FLASH_BUDGET_ELEMS as nat / (head_dim + 1) >= 1 {
        FLASH_BUDGET_ELEMS as nat / (head_dim + 1)
    } else {
        1
    }
}

/// The number of positions in a staged tile: the largest power of two from 8 to
/// 64 that fits, and 8 where none does.
pub open spec fn flash_tile_spec(head_dim: nat) -> nat {
    if flash_positions_that_fit(head_dim) >= 64 {
        64
    } else if flash_positions_that_fit(head_dim) >= 32 {
        32
    } else if flash_positions_that_fit(head_dim) >= 16 {
        16
    } else {
        8
    }
}

/// The reductions to the largest score and to the sum of a tile, by subgroups.
pub fn attention_subgroup_blocks() -> (res: (&'static str, &'static str))
    ensures
        res.0@ == max_block_text(true),
        res.1@ == sum_block_text(true),
        res.0@ == SUBGROUP_MAX_BLOCK@,
        res.1@ == SUBGROUP_SUM_BLOCK@,
{
    (SUBGROUP_MAX_BLOCK, SUBGROUP_SUM_BLOCK)
}

/// The reductions to the largest score and to the sum of a tile, by a pairwise
/// tree.
pub fn attention_classic_blocks() -> (res: (&'static str, &'static str))
    ensures
        res.0@ == max_block_text(false),
        res.1@ == sum_block_text(false),
        res.0@ == CLASSIC_MAX_BLOCK@,
        res.1@ == CLASSIC_SUM_BLOCK@,
{
    (CLASSIC_MAX_BLOCK, CLASSIC_SUM_BLOCK)
}

fn fill_attention(
    template: &str,
    kv_storage: KvStorage,
    subgroup: bool,
    max_head_dim: u32,
) -> (res: String)
    ensures
        res@ == attention_text(template@, kv_storage, subgroup, max_head_dim as nat),
{
    proof {
        reveal_strlit("const MAX_HEAD_DIM: u32 = 2048u;");
        reveal_strlit("%KV_ENABLE%");
        reveal_strlit("%KV_BINDINGS%");
        reveal_strlit("%KV_READ_FNS%");
        reveal_strlit("%SUBGROUP_PARAMS%");
        reveal_strlit("%MAX_REDUCE_BLOCK%");
        reveal_strlit("%SUM_REDUCE_BLOCK%");
    }
    let (max_block, sum_block) = if subgroup {
        attention_subgroup_blocks()
    } else {
        attention_classic_blocks()
    };
    let params = if subgroup {
        ATTENTION_SUBGROUP_PARAMS
    } else {
        ""
    };
    let (bindings, read_fns) = kv_storage.bindings_and_read_fns();
    let mut head_dim = "const MAX_HEAD_DIM: u32 = ".to_owned();
    push_decimal(&mut head_dim, max_head_dim as u64);
    head_dim.append("u;");
    let s = replace_all(template, HEAD_DIM_MARK, head_dim.as_str());
    let s = replace_all(s.as_str(), "%KV_ENABLE%", kv_storage.enable_directive());
    let s = replace_all(s.as_str(), "%KV_BINDINGS%", bindings.as_str());
    let s = replace_all(s.as_str(), "%KV_READ_FNS%", read_fns.as_str());
    let s = replace_all(s.as_str(), "%SUBGROUP_PARAMS%", params);
    let s = replace_all(s.as_str(), "%MAX_REDUCE_BLOCK%", max_block);
    replace_all(s.as_str(), "%SUM_REDUCE_BLOCK%", sum_block)
}

/// Attention of one query token over the whole cache.
pub fn shader_source_attention(
    kv_storage: KvStorage,
    subgroup: bool,
    max_head_dim: u32,
) -> (res: String)
    ensures
        res@ == attention_text(
            ATTENTION_SHADER_TEMPLATE@,
            kv_storage,
            subgroup,
            max_head_dim as nat,
        ),
{
    fill_attention(ATTENTION_SHADER_TEMPLATE, kv_storage, subgroup, max_head_dim)
}

/// Attention over one slice of the cache per workgroup.
pub fn shader_source_attention_split(
    kv_storage: KvStorage,
    subgroup: bool,
    max_head_dim: u32,
) -> (res: String)
    ensures
        res@ == attention_text(
            ATTENTION_SPLIT_SHADER_TEMPLATE@,
            kv_storage,
            subgroup,
            max_head_dim as nat,
        ),
{
    fill_attention(ATTENTION_SPLIT_SHADER_TEMPLATE, kv_storage, subgroup, max_head_dim)
}

/// The number of positions in a staged tile of keys.
pub fn flash_tile_positions(head_dim: u32) -> (res: u32)
    requires
        head_dim < u32::MAX,
    ensures
        res == flash_tile_spec(head_dim as nat),
{
    let stride: u32 = head_dim + 1;
    let fit: u32 = FLASH_BUDGET_ELEMS / stride;
    let max_pos: u32 = if fit >= 1 {
        fit
    } else {
        1
    };
    let mut tp: u32 = 64;
    while tp > max_pos && tp > 8
        invariant
            tp == 64 || tp == 32 || tp == 16 || tp == 8,
            tp < 64 ==> max_pos < 2 * tp,
        decreases tp,
    {
        tp = tp / 2;
    }
    tp
}

/// A staged tile keeps to the budget for every head size at which its smallest
/// number of positions does.
pub proof fn flash_tile_fits_the_budget(head_dim: nat)
    requires
        8 * (head_dim + 1) <= FLASH_BUDGET_ELEMS,
    ensures
        8 <= flash_tile_spec(head_dim) <= 64,
        flash_tile_spec(head_dim) * (head_dim + 1) <= FLASH_BUDGET_ELEMS,
{
    let fit = FLASH_BUDGET_ELEMS as nat / (head_dim + 1);
    let tile = flash_tile_spec(head_dim);
    assert(fit >= 8 && fit * (head_dim + 1) <= FLASH_BUDGET_ELEMS) by (nonlinear_arith)
        requires
            fit == FLASH_BUDGET_ELEMS as nat / (head_dim + 1),
            8 * (head_dim + 1) <= FLASH_BUDGET_ELEMS,
            head_dim >= 0,
    ;
    assert(tile <= fit);
    assert(tile * (head_dim + 1) <= fit * (head_dim + 1)) by (nonlinear_arith)
        requires
            tile <= fit,
            head_dim >= 0,
    ;
}

/// Sliced attention that stages each tile of keys in shared memory, for one head
/// size.
pub fn shader_source_attention_split_flash(
    kv_storage: KvStorage,
    subgroup: bool,
    head_dim: u32,
) -> (res: String)
    requires
        8 * (head_dim + 1) <= u32::MAX,
    ensures
        res@ == text::replaced(
            text::replaced(
                text::replaced(
                    attention_text(
                        ATTENTION_SPLIT_FLASH_SHADER_TEMPLATE@,
                        kv_storage,
                        subgroup,
                        head_dim as nat,
                    ),
                    "%TILE_POS%"@,
                    text::decimal_text(flash_tile_spec(head_dim as nat)),
                ),
                "%KV_STRIDE%"@,
                text::decimal_text(head_dim as nat + 1),
            ),
            "%K_SHMEM_LEN%"@,
            text::decimal_text(flash_tile_spec(head_dim as nat) * (head_dim as nat + 1)),
        ),
{
    proof {
        reveal_strlit("%TILE_POS%");
        reveal_strlit("%KV_STRIDE%");
        reveal_strlit("%K_SHMEM_LEN%");
    }
    let tile_pos: u32 = flash_tile_positions(head_dim);
    let stride: u32 = head_dim + 1;
    assert(tile_pos * stride <= u32::MAX) by {
        if 8 * (head_dim + 1) <= FLASH_BUDGET_ELEMS {
            flash_tile_fits_the_budget(head_dim as nat);
        } else {
            assert(FLASH_BUDGET_ELEMS as nat / stride as nat <= 8) by (nonlinear_arith)
                requires
                    8 * stride > FLASH_BUDGET_ELEMS,
                    FLASH_BUDGET_ELEMS == 17_000,
            ;
        }
    }
    let shmem_len: u32 = tile_pos * stride;
    let s = fill_attention(ATTENTION_SPLIT_FLASH_SHADER_TEMPLATE, kv_storage, subgroup, head_dim);
    let tile_text = decimal(tile_pos as u64);
    let stride_text = decimal(stride as u64);
    let len_text = decimal(shmem_len as u64);
    let s = replace_all(s.as_str(), "%TILE_POS%", tile_text.as_str());
    let s = replace_all(s.as_str(), "%KV_STRIDE%", stride_text.as_str());
    replace_all(s.as_str(), "%K_SHMEM_LEN%", len_text.as_str())
}

/// Sliced attention whose workgroups cover one key head and all `group` query
/// heads that share it.
pub fn shader_source_attention_split_gqa(
    kv_storage: KvStorage,
    head_dim: u32,
    group: u32,
) -> (res: String)
    requires
        group * head_dim <= u32::MAX,
        group * 64 <= u32::MAX,
    ensures
        res@ == kv_storage.enable_text() + GQA_META@ + kv_storage.bindings_text() + GQA_OUTPUTS@
            + kv_storage.read_fns_text() + GQA_GROUP@ + text::decimal_text(group as nat)
            + GQA_HEAD_DIM@ + text::decimal_text(head_dim as nat) + GQA_PROBS@
            + text::decimal_text((group * 64) as nat) + GQA_ACC@ + text::decimal_text(
            (group * head_dim) as nat,
        ) + GQA_MAIN@,
{
    let (bindings, read_fns) = kv_storage.bindings_and_read_fns();
    let acc_len: u32 = group * head_dim;
    let probs_len: u32 = group * 64;
    let mut s = kv_storage.enable_directive().to_owned();
    s.append(GQA_META);
    s.append(bindings.as_str());
    s.append(GQA_OUTPUTS);
    s.append(read_fns.as_str());
    s.append(GQA_GROUP);
    push_decimal(&mut s, group as u64);
    s.append(GQA_HEAD_DIM);
    push_decimal(&mut s, head_dim as u64);
    s.append(GQA_PROBS);
    push_decimal(&mut s, probs_len as u64);
    s.append(GQA_ACC);
    push_decimal(&mut s, acc_len as u64);
    s.append(GQA_MAIN);
    s
}

/// Merges the slices of one head.
pub fn shader_source_attention_split_reduce() -> (res: String)
    ensures
        res@ == ATTENTION_SPLIT_REDUCE_SHADER@,
{
    ATTENTION_SPLIT_REDUCE_SHADER.to_owned()
}

/// Casts a row into a half-precision cache.
pub fn shader_source_kv_cast() -> (res: String)
    ensures
        res@ == KV_CAST_SHADER@,
{
    KV_CAST_SHADER.to_owned()
}

/// Quantizes a row into a cache of quantized blocks.
pub fn shader_source_kv_quantize_q8_0() -> (res: String)
    ensures
        res@ == KV_QUANTIZE_Q8_0_SHADER@,
{
    KV_QUANTIZE_Q8_0_SHADER.to_owned()
}

/// A staged tile has a number of positions between eight and sixty-four that is a power of two:
/// the largest whose keys, with one element of padding each, are no more than seventeen
/// thousand, and eight where there is none.
pub proof fn tiles_are_as_large_as_fits(head_dim: nat, tile: nat)
    requires
        tile == flash_tile_spec(head_dim),
    ensures
        tile == 8 || tile == 16 || tile == 32 || tile == 64,
        tile > 8 ==> tile * (head_dim + 1) <= 17_000,
        tile < 64 ==> 2 * tile * (head_dim + 1) > 17_000,
{
    let d = (head_dim + 1) as int;
    let fit = 17_000int / d;
    assert(fit * d <= 17_000 < (fit + 1) * d) by (nonlinear_arith)
        requires
            d > 0,
            fit == 17_000int / d,
    ;
    assert(FLASH_BUDGET_ELEMS as nat / (head_dim + 1) == fit);
    if tile > 8 {
        assert(tile * d <= fit * d) by (nonlinear_arith)
            requires
                tile <= fit,
                d > 0,
        ;
    }
    if tile < 64 {
        assert((fit + 1) * d <= 2 * tile * d) by (nonlinear_arith)
            requires
                fit + 1 <= 2 * tile,
                d > 0,
        ;
    }
}

} // verus!
