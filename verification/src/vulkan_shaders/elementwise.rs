//! The elementwise, norm, rotation and sampling kernels.

use vstd::prelude::*;

use crate::occurs;
use crate::text;
use crate::text::decimal;
use crate::text::decimal_usize;
use crate::text::replace_all;
use crate::vulkan_shaders::templates::{
    ADD_SHADER_BODY, ARGMAX_PENALTY_SHADER, ARGMAX_REDUCE_SHADER_BODY, ARGMAX_SOFTCAP_SHADER,
    ARGMAX_SPLIT_SHADER, ELEM_META, FUSED_NORM_ROPE_SHADER, GELU_SHADER_BODY, MUL_SHADER_BODY,
    NORM_ADD_OUTPUTS, NORM_ADD_WRITE, NORM_CLOSE, NORM_ENTRY, NORM_INPUTS, NORM_OUTPUTS,
    NORM_SQUARES, NORM_STEP, NORM_STORE, NORM_STRIDE, NORM_SUMS, NORM_TREE, NORM_WRITE,
    PERHEAD_RMSNORM_SHADER, PERHEAD_RMSNORM_SHADER_SUBGROUP, PERHEAD_RMSNORM_WEIGHTLESS_SHADER,
    PERHEAD_RMSNORM_WEIGHTLESS_SHADER_SUBGROUP, ROPE_SHADER, SCALE_SHADER_BODY,
    SUBGROUP_NORM_CLOSE, SUBGROUP_NORM_ENTRY, SUBGROUP_NORM_SQUARES, SUBGROUP_NORM_STEP,
    SUBGROUP_NORM_TOTAL,
};

verus! {

/// The largest head size that the fused norm and rotation kernel has room for.
pub const FUSED_NORM_ROPE_MAX_HEAD_DIM: usize = 1024;

/// The shared parameters followed by a kernel body.
pub open spec fn elementwise_text(body: Seq<char>) -> Seq<char> {
    ELEM_META@ + "\n"@ + body
}

/// A tree-reduced norm body for a workgroup of `wg` threads.
pub open spec fn norm_body_text(template: Seq<char>, wg: nat) -> Seq<char> {
    text::replaced(
        text::replaced(template, "%WG%"@, text::decimal_text(wg)),
        "%HALF%"@,
        text::decimal_text(wg / 2),
    )
}

/// What a norm kernel writes: with the residual that is added, or without.
pub open spec fn norm_outputs_text(residual: bool) -> Seq<char> {
    if residual {
        NORM_ADD_OUTPUTS@
    } else {
        NORM_OUTPUTS@
    }
}

/// How a norm kernel writes an element: with the residual added, or without.
pub open spec fn norm_write_text(residual: bool) -> Seq<char> {
    if residual {
        NORM_ADD_WRITE@
    } else {
        NORM_WRITE@
    }
}

/// The body of a tree-reduced norm kernel, with marks for the number of its threads
/// and for half of it.
pub open spec fn norm_template_text(residual: bool) -> Seq<char> {
    NORM_INPUTS@ + norm_outputs_text(residual) + NORM_SUMS@ + NORM_ENTRY@ + NORM_SQUARES@
        + NORM_STEP@ + NORM_STORE@ + NORM_STRIDE@ + NORM_TREE@ + norm_write_text(residual)
        + NORM_STEP@ + NORM_CLOSE@
}

/// The body of a norm kernel that is reduced by subgroups, for a number of threads.
pub open spec fn subgroup_norm_text(residual: bool, threads: Seq<char>) -> Seq<char> {
    NORM_INPUTS@ + norm_outputs_text(residual) + SUBGROUP_NORM_ENTRY@ + threads
        + SUBGROUP_NORM_SQUARES@ + threads + SUBGROUP_NORM_TOTAL@ + norm_write_text(residual)
        + SUBGROUP_NORM_STEP@ + threads + SUBGROUP_NORM_CLOSE@
}

/// The body of a tree-reduced norm kernel, with its marks.
fn norm_template(residual: bool) -> (res: String)
    ensures
        res@ == norm_template_text(residual),
{
    let mut s = NORM_INPUTS.to_owned();
    s.append(if residual {
        NORM_ADD_OUTPUTS
    } else {
        NORM_OUTPUTS
    });
    s.append(NORM_SUMS);
    s.append(NORM_ENTRY);
    s.append(NORM_SQUARES);
    s.append(NORM_STEP);
    s.append(NORM_STORE);
    s.append(NORM_STRIDE);
    s.append(NORM_TREE);
    s.append(if residual {
        NORM_ADD_WRITE
    } else {
        NORM_WRITE
    });
    s.append(NORM_STEP);
    s.append(NORM_CLOSE);
    s
}

/// The body of a norm kernel that is reduced by subgroups.
fn subgroup_norm(residual: bool, threads: &str) -> (res: String)
    ensures
        res@ == subgroup_norm_text(residual, threads@),
{
    let mut s = NORM_INPUTS.to_owned();
    s.append(if residual {
        NORM_ADD_OUTPUTS
    } else {
        NORM_OUTPUTS
    });
    s.append(SUBGROUP_NORM_ENTRY);
    s.append(threads);
    s.append(SUBGROUP_NORM_SQUARES);
    s.append(threads);
    s.append(SUBGROUP_NORM_TOTAL);
    s.append(if residual {
        NORM_ADD_WRITE
    } else {
        NORM_WRITE
    });
    s.append(SUBGROUP_NORM_STEP);
    s.append(threads);
    s.append(SUBGROUP_NORM_CLOSE);
    s
}

/// The shared parameters followed by a kernel body.
fn elementwise(body: &str) -> (res: String)
    ensures
        res@ == elementwise_text(body@),
{
    let mut s = ELEM_META.to_owned();
    s.append("\n");
    s.append(body);
    s
}

/// A tree-reduced norm body for a workgroup of `wg` threads.
pub fn norm_body_for_wg(template: &str, wg: usize) -> (res: String)
    ensures
        res@ == norm_body_text(template@, wg as nat),
{
    proof {
        reveal_strlit("%WG%");
        reveal_strlit("%HALF%");
    }
    let threads = decimal_usize(wg);
    let half = decimal_usize(wg / 2);
    let body = replace_all(template, "%WG%", threads.as_str());
    replace_all(body.as_str(), "%HALF%", half.as_str())
}

/// Adds two rows.
pub fn shader_source_add() -> (res: String)
    ensures
        res@ == elementwise_text(ADD_SHADER_BODY@),
{
    elementwise(ADD_SHADER_BODY)
}

/// Multiplies two rows element by element.
pub fn shader_source_mul() -> (res: String)
    ensures
        res@ == elementwise_text(MUL_SHADER_BODY@),
{
    elementwise(MUL_SHADER_BODY)
}

/// The GELU activation.
pub fn shader_source_gelu() -> (res: String)
    ensures
        res@ == elementwise_text(GELU_SHADER_BODY@),
{
    elementwise(GELU_SHADER_BODY)
}

/// Multiplies a row by a number.
pub fn shader_source_scale() -> (res: String)
    ensures
        res@ == elementwise_text(SCALE_SHADER_BODY@),
{
    elementwise(SCALE_SHADER_BODY)
}

/// A norm kernel: by subgroups always of 64 threads, otherwise of `wg`.
pub open spec fn norm_kernel_text(residual: bool, subgroup: bool, wg: nat) -> Seq<char> {
    elementwise_text(
        if subgroup {
            subgroup_norm_text(residual, "64"@)
        } else {
            norm_body_text(norm_template_text(residual), wg)
        },
    )
}

/// A norm kernel.
fn norm_kernel(residual: bool, subgroup: bool, wg: usize) -> (res: String)
    ensures
        res@ == norm_kernel_text(residual, subgroup, wg as nat),
{
    if subgroup {
        let body = subgroup_norm(residual, "64");
        elementwise(body.as_str())
    } else {
        let template = norm_template(residual);
        let body = norm_body_for_wg(template.as_str(), wg);
        elementwise(body.as_str())
    }
}

/// RMS norm of a row. The subgroup variant always has 64 threads; `wg` is the
/// width of the other one.
pub fn shader_source_rmsnorm(subgroup: bool, wg: usize) -> (res: String)
    ensures
        res@ == norm_kernel_text(false, subgroup, wg as nat),
{
    norm_kernel(false, subgroup, wg)
}

/// RMS norm of a row by subgroups, for a chosen workgroup width.
pub fn shader_source_rmsnorm_subgroup_wg(workgroup_size: u32) -> (res: String)
    ensures
        res@ == elementwise_text(
            subgroup_norm_text(false, text::decimal_text(workgroup_size as nat)),
        ),
{
    let threads = decimal(workgroup_size as u64);
    let body = subgroup_norm(false, threads.as_str());
    elementwise(body.as_str())
}

/// RMS norm of a row followed by the residual add. The subgroup variant always
/// has 64 threads; `wg` is the width of the other one.
pub fn shader_source_rmsnorm_add(subgroup: bool, wg: usize) -> (res: String)
    ensures
        res@ == norm_kernel_text(true, subgroup, wg as nat),
{
    norm_kernel(true, subgroup, wg)
}

/// Rotary position embedding.
pub fn shader_source_rope() -> (res: String)
    ensures
        res@ == ROPE_SHADER@,
{
    ROPE_SHADER.to_owned()
}

/// RMS norm of each head.
pub fn shader_source_perhead_rmsnorm(subgroup: bool) -> (res: String)
    ensures
        res@ == (if subgroup {
            PERHEAD_RMSNORM_SHADER_SUBGROUP@
        } else {
            PERHEAD_RMSNORM_SHADER@
        }),
{
    if subgroup {
        PERHEAD_RMSNORM_SHADER_SUBGROUP.to_owned()
    } else {
        PERHEAD_RMSNORM_SHADER.to_owned()
    }
}

/// RMS norm of each head, without a learned scale.
pub fn shader_source_perhead_rmsnorm_weightless(subgroup: bool) -> (res: String)
    ensures
        res@ == (if subgroup {
            PERHEAD_RMSNORM_WEIGHTLESS_SHADER_SUBGROUP@
        } else {
            PERHEAD_RMSNORM_WEIGHTLESS_SHADER@
        }),
{
    if subgroup {
        PERHEAD_RMSNORM_WEIGHTLESS_SHADER_SUBGROUP.to_owned()
    } else {
        PERHEAD_RMSNORM_WEIGHTLESS_SHADER.to_owned()
    }
}

/// RMS norm of each head followed by its rotation.
pub fn shader_source_fused_norm_rope() -> (res: String)
    ensures
        res@ == FUSED_NORM_ROPE_SHADER@,
{
    FUSED_NORM_ROPE_SHADER.to_owned()
}

/// The soft cap on the logits.
pub fn shader_source_argmax_softcap() -> (res: String)
    ensures
        res@ == ARGMAX_SOFTCAP_SHADER@,
{
    ARGMAX_SOFTCAP_SHADER.to_owned()
}

/// The repeat penalty.
pub fn shader_source_argmax_penalty() -> (res: String)
    ensures
        res@ == ARGMAX_PENALTY_SHADER@,
{
    ARGMAX_PENALTY_SHADER.to_owned()
}

/// The best logit of each share of the vocabulary.
pub fn shader_source_argmax_split() -> (res: String)
    ensures
        res@ == ARGMAX_SPLIT_SHADER@,
{
    ARGMAX_SPLIT_SHADER.to_owned()
}

/// The best of the shares' winners.
pub fn shader_source_argmax_reduce() -> (res: String)
    ensures
        res@ == elementwise_text(ARGMAX_REDUCE_SHADER_BODY@),
{
    elementwise(ARGMAX_REDUCE_SHADER_BODY)
}

/// The marks of a norm template, and what is put in for them: digits, which no mark has.
proof fn marks_and_digits(wg: nat)
    ensures
        "%WG%"@.len() == 4,
        "%HALF%"@.len() == 6,
        "%WG%"@[0] == '%',
        "%HALF%"@[0] == '%',
        "%WG%"@ == seq!['%', 'W', 'G', '%'],
        "%HALF%"@ == seq!['%', 'H', 'A', 'L', 'F', '%'],
        text::decimal_text(wg).len() > 0,
        forall|i: int|
            0 <= i < text::decimal_text(wg).len() ==> '0' <= #[trigger] text::decimal_text(
                wg,
            )[i] <= '9',
        occurs::shares_no_char(text::decimal_text(wg), "%WG%"@),
        occurs::shares_no_char(text::decimal_text(wg), "%HALF%"@),
{
    reveal_strlit("%WG%");
    reveal_strlit("%HALF%");
    assert("%WG%"@ =~= seq!['%', 'W', 'G', '%']);
    assert("%HALF%"@ =~= seq!['%', 'H', 'A', 'L', 'F', '%']);
    text::decimal_reads_back(wg);
}

/// Whether a line can be filled in by itself: it neither begins nor ends with a
/// character of a mark.
spec fn is_whole(line: Seq<char>) -> bool {
    &&& line.len() > 0
    &&& !("%WG%"@.contains(line[0])) && !("%HALF%"@.contains(line[0]))
    &&& !("%WG%"@.contains(line.last())) && !("%HALF%"@.contains(line.last()))
}

/// Filling a template in fills in each of its lines.
proof fn filled_in_parts(a: Seq<char>, line: Seq<char>, b: Seq<char>, wg: nat)
    requires
        is_whole(line),
        is_whole(norm_body_text(line, wg)),
        is_whole(text::replaced(line, "%WG%"@, text::decimal_text(wg))),
    ensures
        norm_body_text(a + line + b, wg) == norm_body_text(a, wg) + norm_body_text(line, wg)
            + norm_body_text(b, wg),
{
    marks_and_digits(wg);
    let (d, h) = (text::decimal_text(wg), text::decimal_text(wg / 2));
    let (f, g) = ("%WG%"@, "%HALF%"@);
    let (x, y, z) = (
        text::replaced(a, f, d),
        text::replaced(line, f, d),
        text::replaced(b, f, d),
    );
    assert((a + line).last() == line.last());
    occurs::replaced_in_parts(a + line, b, f, d);
    occurs::replaced_in_parts(a, line, f, d);
    assert((x + y).last() == y.last());
    occurs::replaced_in_parts(x + y, z, g, h);
    occurs::replaced_in_parts(x, y, g, h);
}

/// A line with the mark for the number of threads, filled in.
proof fn threads_filled_in(before: Seq<char>, after: Seq<char>, wg: nat)
    requires
        !before.contains('%'),
        !after.contains('%'),
        is_whole(before),
        is_whole(after),
    ensures
        norm_body_text(before + "%WG%"@ + after, wg) == before + text::decimal_text(wg) + after,
        is_whole(before + "%WG%"@ + after),
        is_whole(before + text::decimal_text(wg) + after),
        text::replaced(before + "%WG%"@ + after, "%WG%"@, text::decimal_text(wg)) == before
            + text::decimal_text(wg) + after,
{
    marks_and_digits(wg);
    let d = text::decimal_text(wg);
    occurs::replaced_once(before, "%WG%"@, after, d);
    let line = before + d + after;
    assert(!line.contains('%')) by {
        if line.contains('%') {
            let i = choose|i: int| 0 <= i < line.len() && line[i] == '%';
            if i < before.len() {
                assert(before[i] == '%');
            } else if i < before.len() + d.len() {
                assert('0' <= d[i - before.len()] <= '9');
            } else {
                assert(after[i - before.len() - d.len()] == '%');
            }
        }
    }
    occurs::replaced_nothing(line, "%HALF%"@, text::decimal_text(wg / 2));
    assert(line[0] == before[0] && line.last() == after.last());
    let template = before + "%WG%"@ + after;
    assert(template[0] == before[0] && template.last() == after.last());
}

/// A line with the mark for half of the threads, filled in.
proof fn half_filled_in(before: Seq<char>, after: Seq<char>, wg: nat)
    requires
        !before.contains('%'),
        !after.contains('%'),
        is_whole(before),
        is_whole(after),
    ensures
        norm_body_text(before + "%HALF%"@ + after, wg) == before + text::decimal_text(wg / 2)
            + after,
        is_whole(before + "%HALF%"@ + after),
        is_whole(before + text::decimal_text(wg / 2) + after),
        text::replaced(before + "%HALF%"@ + after, "%WG%"@, text::decimal_text(wg)) == before
            + "%HALF%"@ + after,
{
    marks_and_digits(wg);
    marks_and_digits(wg / 2);
    let (d, h) = (text::decimal_text(wg), text::decimal_text(wg / 2));
    let (f, g) = ("%WG%"@, "%HALF%"@);
    let line = before + g + after;
    assert(line[0] == before[0] && line.last() == after.last());
    let filled = before + h + after;
    assert(filled[0] == before[0] && filled.last() == after.last());
    occurs::replaced_nothing(before, f, d);
    occurs::replaced_nothing(after, f, d);
    assert((before + g).last() == '%');
    occurs::replaced_in_parts(before + g, after, f, d);
    occurs::replaced_in_parts(before, g, f, d);
    half_mark_stays(d);
    occurs::replaced_once(before, g, after, h);
}

/// The mark for half of the threads is no mark for all of them.
proof fn half_mark_stays(d: Seq<char>)
    ensures
        text::replaced("%HALF%"@, "%WG%"@, d) == "%HALF%"@,
{
    marks_and_digits(0);
    let g = "%HALF%"@;
    let f = "%WG%"@;
    assert(g =~= seq!['%'] + seq!['H', 'A', 'L', 'F'] + seq!['%']);
    let (one, letters) = (seq!['%'], seq!['H', 'A', 'L', 'F']);
    occurs::replaced_nothing(letters, f, d);
    assert(!text::occurs_at(one, f, 0));
    assert(text::replaced(one.skip(1), f, d) =~= Seq::empty());
    assert(text::replaced(one, f, d) =~= one);
    assert((one + letters).last() == 'F');
    occurs::replaced_in_parts(one + letters, one, f, d);
    occurs::replaced_in_parts(one, letters, f, d);
}

/// The four lines of a norm template that have marks, filled in.
proof fn lines_filled_in(wg: nat)
    ensures
        norm_body_text(NORM_SUMS@, wg) == "\nvar<workgroup> partial_sums: array<f32, "@
            + text::decimal_text(wg) + ">;\n"@,
        norm_body_text(NORM_ENTRY@, wg) == "\n@compute @workgroup_size("@ + text::decimal_text(wg)
            + ")\n"@,
        norm_body_text(NORM_STEP@, wg) == "        k = k + "@ + text::decimal_text(wg) + "u;\n"@,
        norm_body_text(NORM_STRIDE@, wg) == "    var stride: u32 = "@ + text::decimal_text(wg / 2)
            + "u;\n"@,
        is_whole(NORM_SUMS@),
        is_whole(NORM_ENTRY@),
        is_whole(NORM_STEP@),
        is_whole(NORM_STRIDE@),
        is_whole(norm_body_text(NORM_SUMS@, wg)),
        is_whole(norm_body_text(NORM_ENTRY@, wg)),
        is_whole(norm_body_text(NORM_STEP@, wg)),
        is_whole(norm_body_text(NORM_STRIDE@, wg)),
        is_whole(text::replaced(NORM_SUMS@, "%WG%"@, text::decimal_text(wg))),
        is_whole(text::replaced(NORM_ENTRY@, "%WG%"@, text::decimal_text(wg))),
        is_whole(text::replaced(NORM_STEP@, "%WG%"@, text::decimal_text(wg))),
        is_whole(text::replaced(NORM_STRIDE@, "%WG%"@, text::decimal_text(wg))),
{
    marks_and_digits(wg);
    reveal_strlit("\nvar<workgroup> partial_sums: array<f32, %WG%>;\n");
    reveal_strlit("\nvar<workgroup> partial_sums: array<f32, ");
    reveal_strlit(">;\n");
    assert(NORM_SUMS@ =~= "\nvar<workgroup> partial_sums: array<f32, "@ + "%WG%"@ + ">;\n"@);
    threads_filled_in("\nvar<workgroup> partial_sums: array<f32, "@, ">;\n"@, wg);
    reveal_strlit("\n@compute @workgroup_size(%WG%)\n");
    reveal_strlit("\n@compute @workgroup_size(");
    reveal_strlit(")\n");
    assert(NORM_ENTRY@ =~= "\n@compute @workgroup_size("@ + "%WG%"@ + ")\n"@);
    threads_filled_in("\n@compute @workgroup_size("@, ")\n"@, wg);
    reveal_strlit("        k = k + %WG%u;\n");
    reveal_strlit("        k = k + ");
    reveal_strlit("u;\n");
    assert(NORM_STEP@ =~= "        k = k + "@ + "%WG%"@ + "u;\n"@);
    threads_filled_in("        k = k + "@, "u;\n"@, wg);
    reveal_strlit("    var stride: u32 = %HALF%u;\n");
    reveal_strlit("    var stride: u32 = ");
    assert(NORM_STRIDE@ =~= "    var stride: u32 = "@ + "%HALF%"@ + "u;\n"@);
    half_filled_in("    var stride: u32 = "@, "u;\n"@, wg);
}

/// A line of a norm template stands filled in where it stood.
proof fn filled_line_is_held(a: Seq<char>, line: Seq<char>, b: Seq<char>, wg: nat, part: Seq<char>)
    requires
        is_whole(line),
        is_whole(norm_body_text(line, wg)),
        is_whole(text::replaced(line, "%WG%"@, text::decimal_text(wg))),
        occurs::holds(norm_body_text(line, wg), part),
    ensures
        occurs::holds(norm_body_text(a + line + b, wg), part),
{
    filled_in_parts(a, line, b, wg);
    occurs::held_in_a_sum(norm_body_text(a, wg), norm_body_text(line, wg), part);
    occurs::held_in_a_sum(
        norm_body_text(a, wg) + norm_body_text(line, wg),
        norm_body_text(b, wg),
        part,
    );
}

/// The number of threads is what the norm kernel asks for, gives every thread a sum
/// for, and steps by; its tree begins with half of them.
pub proof fn norm_kernels_are_as_wide_as_asked(residual: bool, wg: nat)
    ensures
        ({
            let t = norm_kernel_text(residual, false, wg);
            let d = text::decimal_text(wg);
            &&& occurs::holds(t, "@workgroup_size("@ + d + ")"@)
            &&& occurs::holds(t, "array<f32, "@ + d + ">"@)
            &&& occurs::holds(t, "var stride: u32 = "@ + text::decimal_text(wg / 2) + "u;"@)
            &&& occurs::holds(t, "k = k + "@ + d + "u;"@)
        }),
{
    let (d, h) = (text::decimal_text(wg), text::decimal_text(wg / 2));
    let (o, w) = (norm_outputs_text(residual), norm_write_text(residual));
    let body = norm_body_text(norm_template_text(residual), wg);
    lines_filled_in(wg);

    reveal_strlit("\nvar<workgroup> partial_sums: array<f32, ");
    reveal_strlit("array<f32, ");
    reveal_strlit(">;\n");
    reveal_strlit(">");
    let sums = "array<f32, "@ + d + ">"@;
    let before = "\nvar<workgroup> partial_sums: array<f32, "@;
    assert(norm_body_text(NORM_SUMS@, wg) =~= before.take(before.len() - 11) + sums + ";\n"@) by {
        reveal_strlit(";\n");
    }
    occurs::held_between(before.take(before.len() - 11), sums, ";\n"@);
    let rest = NORM_ENTRY@ + NORM_SQUARES@ + NORM_STEP@ + NORM_STORE@ + NORM_STRIDE@ + NORM_TREE@
        + w + NORM_STEP@ + NORM_CLOSE@;
    assert(norm_template_text(residual) =~= (NORM_INPUTS@ + o) + NORM_SUMS@ + rest);
    filled_line_is_held(NORM_INPUTS@ + o, NORM_SUMS@, rest, wg, sums);

    reveal_strlit("\n@compute @workgroup_size(");
    reveal_strlit("@workgroup_size(");
    reveal_strlit(")\n");
    reveal_strlit(")");
    let entry = "@workgroup_size("@ + d + ")"@;
    let before = "\n@compute @workgroup_size("@;
    assert(norm_body_text(NORM_ENTRY@, wg) =~= before.take(before.len() - 16) + entry + "\n"@) by {
        reveal_strlit("\n");
    }
    occurs::held_between(before.take(before.len() - 16), entry, "\n"@);
    let rest = NORM_SQUARES@ + NORM_STEP@ + NORM_STORE@ + NORM_STRIDE@ + NORM_TREE@ + w + NORM_STEP@
        + NORM_CLOSE@;
    let front = NORM_INPUTS@ + o + NORM_SUMS@;
    assert(norm_template_text(residual) =~= front + NORM_ENTRY@ + rest);
    filled_line_is_held(front, NORM_ENTRY@, rest, wg, entry);

    reveal_strlit("        k = k + ");
    reveal_strlit("k = k + ");
    reveal_strlit("u;\n");
    reveal_strlit("u;");
    let step = "k = k + "@ + d + "u;"@;
    let before = "        k = k + "@;
    assert(norm_body_text(NORM_STEP@, wg) =~= before.take(8) + step + "\n"@) by {
        reveal_strlit("\n");
    }
    occurs::held_between(before.take(8), step, "\n"@);
    let front = front + NORM_ENTRY@ + NORM_SQUARES@;
    let rest = NORM_STORE@ + NORM_STRIDE@ + NORM_TREE@ + w + NORM_STEP@ + NORM_CLOSE@;
    assert(norm_template_text(residual) =~= front + NORM_STEP@ + rest);
    filled_line_is_held(front, NORM_STEP@, rest, wg, step);

    reveal_strlit("    var stride: u32 = ");
    reveal_strlit("var stride: u32 = ");
    let stride = "var stride: u32 = "@ + h + "u;"@;
    let before = "    var stride: u32 = "@;
    assert(norm_body_text(NORM_STRIDE@, wg) =~= before.take(4) + stride + "\n"@) by {
        reveal_strlit("\n");
    }
    occurs::held_between(before.take(4), stride, "\n"@);
    let front = front + NORM_STEP@ + NORM_STORE@;
    let rest = NORM_TREE@ + w + NORM_STEP@ + NORM_CLOSE@;
    assert(norm_template_text(residual) =~= front + NORM_STRIDE@ + rest);
    filled_line_is_held(front, NORM_STRIDE@, rest, wg, stride);

    occurs::held_in_a_sum(ELEM_META@ + "\n"@, body, sums);
    occurs::held_in_a_sum(ELEM_META@ + "\n"@, body, entry);
    occurs::held_in_a_sum(ELEM_META@ + "\n"@, body, step);
    occurs::held_in_a_sum(ELEM_META@ + "\n"@, body, stride);
}

/// No mark is left in a norm kernel.
pub proof fn norm_kernels_have_no_marks_left(residual: bool, wg: nat)
    ensures
        !occurs::holds(norm_kernel_text(residual, false, wg), "%WG%"@),
        !occurs::holds(norm_kernel_text(residual, false, wg), "%HALF%"@),
{
    let (f, g) = ("%WG%"@, "%HALF%"@);
    let (d, h) = (text::decimal_text(wg), text::decimal_text(wg / 2));
    let t = norm_template_text(residual);
    marks_and_digits(wg);
    marks_and_digits(wg / 2);
    let first = text::replaced(t, f, d);
    occurs::none_left(t, f, d, f);
    occurs::none_left(first, g, h, f);
    occurs::none_left(first, g, h, g);
    let body = norm_body_text(t, wg);
    let open = ELEM_META@ + "\n"@;
    reveal_strlit("\n");
    reveal_strlit("\nstruct ElemMeta {\n    len: u32,\n    _pad0: u32,\n    extra: f32,\n    _pad1: u32,\n}\n");
    assert(!open.contains('%'));
    occurs::not_held(open, f);
    occurs::not_held(open, g);
    assert(open.last() == '\n');
    if occurs::holds(open + body, f) {
        occurs::held_on_one_side(open, body, f);
    }
    if occurs::holds(open + body, g) {
        occurs::held_on_one_side(open, body, g);
    }
}

/// A norm kernel that is reduced by subgroups is the same for every width that is asked
/// for, and the one whose width can be chosen is the same as it at 64.
pub proof fn subgroup_norms_have_64_threads(residual: bool, a: nat, b: nat)
    ensures
        norm_kernel_text(residual, true, a) == norm_kernel_text(residual, true, b),
        norm_kernel_text(false, true, a) == elementwise_text(
            subgroup_norm_text(false, text::decimal_text(64)),
        ),
{
    reveal_strlit("64");
    reveal_with_fuel(text::decimal_text, 2);
    assert(text::decimal_text(64) =~= "64"@);
}

/// A norm kernel that adds a residual is the one that does not, but for the binding of
/// the residual and for its being added.
pub proof fn residual_is_all_that_differs(subgroup: bool, wg: nat)
    ensures
        exists|a: Seq<char>, b: Seq<char>, c: Seq<char>|
            {
                &&& norm_kernel_text(false, subgroup, wg) == #[trigger] (a + NORM_OUTPUTS@ + b
                    + NORM_WRITE@ + c)
                &&& norm_kernel_text(true, subgroup, wg) == a + NORM_ADD_OUTPUTS@ + b
                    + NORM_ADD_WRITE@ + c
            },
{
    let open = ELEM_META@ + "\n"@;
    if subgroup {
        let n = "64"@;
        let a = open + NORM_INPUTS@;
        let b = SUBGROUP_NORM_ENTRY@ + n + SUBGROUP_NORM_SQUARES@ + n + SUBGROUP_NORM_TOTAL@;
        let c = SUBGROUP_NORM_STEP@ + n + SUBGROUP_NORM_CLOSE@;
        assert(norm_kernel_text(false, subgroup, wg) =~= a + NORM_OUTPUTS@ + b + NORM_WRITE@ + c);
        assert(norm_kernel_text(true, subgroup, wg) =~= a + NORM_ADD_OUTPUTS@ + b + NORM_ADD_WRITE@
            + c);
    } else {
        let between = NORM_SUMS@ + NORM_ENTRY@ + NORM_SQUARES@ + NORM_STEP@ + NORM_STORE@
            + NORM_STRIDE@ + NORM_TREE@;
        let end = NORM_STEP@ + NORM_CLOSE@;
        let a = open + norm_body_text(NORM_INPUTS@, wg);
        let b = norm_body_text(between, wg);
        let c = norm_body_text(end, wg);
        norm_in_parts(false, wg);
        norm_in_parts(true, wg);
        assert(norm_kernel_text(false, subgroup, wg) =~= a + NORM_OUTPUTS@ + b + NORM_WRITE@ + c);
        assert(norm_kernel_text(true, subgroup, wg) =~= a + NORM_ADD_OUTPUTS@ + b + NORM_ADD_WRITE@
            + c);
    }
}

/// What a norm kernel writes has no marks.
proof fn outputs_have_no_marks(residual: bool, wg: nat)
    ensures
        ({
            let (o, w) = (norm_outputs_text(residual), norm_write_text(residual));
            &&& is_whole(o) && norm_body_text(o, wg) == o
            &&& is_whole(w) && norm_body_text(w, wg) == w
            &&& text::replaced(o, "%WG%"@, text::decimal_text(wg)) == o
            &&& text::replaced(w, "%WG%"@, text::decimal_text(wg)) == w
        }),
{
    marks_and_digits(wg);
    reveal_strlit("@group(0) @binding(2) var<storage, read_write> y: array<f32>;\n@group(0) @binding(3) var<uniform> em: ElemMeta;\n");
    reveal_strlit("@group(0) @binding(2) var<storage, read> residual: array<f32>;\n@group(0) @binding(3) var<storage, read_write> y: array<f32>;\n@group(0) @binding(4) var<uniform> em: ElemMeta;\n");
    reveal_strlit("        y[k] = x[k] * scale * weight[k];\n");
    reveal_strlit("        y[k] = x[k] * scale * weight[k] + residual[k];\n");
    let (o, w) = (norm_outputs_text(residual), norm_write_text(residual));
    let (d, h) = (text::decimal_text(wg), text::decimal_text(wg / 2));
    assert(!o.contains('%'));
    assert(!w.contains('%'));
    occurs::replaced_nothing(o, "%WG%"@, d);
    occurs::replaced_nothing(o, "%HALF%"@, h);
    occurs::replaced_nothing(w, "%WG%"@, d);
    occurs::replaced_nothing(w, "%HALF%"@, h);
}

/// A tree-reduced norm kernel around what it writes.
proof fn norm_in_parts(residual: bool, wg: nat)
    ensures
        norm_body_text(norm_template_text(residual), wg) == norm_body_text(NORM_INPUTS@, wg)
            + norm_outputs_text(residual) + norm_body_text(
            NORM_SUMS@ + NORM_ENTRY@ + NORM_SQUARES@ + NORM_STEP@ + NORM_STORE@ + NORM_STRIDE@
                + NORM_TREE@,
            wg,
        ) + norm_write_text(residual) + norm_body_text(NORM_STEP@ + NORM_CLOSE@, wg),
{
    let (o, w) = (norm_outputs_text(residual), norm_write_text(residual));
    let between = NORM_SUMS@ + NORM_ENTRY@ + NORM_SQUARES@ + NORM_STEP@ + NORM_STORE@ + NORM_STRIDE@
        + NORM_TREE@;
    let end = NORM_STEP@ + NORM_CLOSE@;
    outputs_have_no_marks(residual, wg);
    assert(norm_template_text(residual) =~= (NORM_INPUTS@ + o + between) + w + end);
    filled_in_parts(NORM_INPUTS@ + o + between, w, end, wg);
    filled_in_parts(NORM_INPUTS@, o, between, wg);
}

} // verus!
