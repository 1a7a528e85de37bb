//! What a model file says of itself, as a text.

use vstd::prelude::*;

use crate::gguf::{GgufFile, GgufTensor, GgufValue};
use crate::text;
use crate::text::{byte_count, push_decimal, push_padded};

verus! {

/// How many elements of a list are shown.
pub const DEFAULT_ARRAY_PREVIEW: usize = 8;

/// How many elements of a list are shown: a few, or all.
pub fn preview_limit(full: bool) -> (n: usize)
    ensures
        n == (if full {
            usize::MAX
        } else {
            DEFAULT_ARRAY_PREVIEW
        }),
        !full ==> n == 8,
{
    if full {
        usize::MAX
    } else {
        DEFAULT_ARRAY_PREVIEW
    }
}

/// How a tensor's type and shape are shown.
#[derive(Debug)]
pub struct ShownTensor {
    pub kind: String,
    pub shape: String,
}

/// The keys of the metadata.
pub open spec fn keys_of(metadata: Seq<(String, GgufValue)>) -> Seq<Seq<char>> {
    metadata.map_values(|e: (String, GgufValue)| e.0@)
}

/// The names of tensors.
pub open spec fn names_of(tensors: Seq<GgufTensor>) -> Seq<Seq<char>> {
    tensors.map_values(|t: GgufTensor| t.name@)
}

/// The types of tensors as they are shown.
pub open spec fn kinds_of(shown: Seq<ShownTensor>) -> Seq<Seq<char>> {
    shown.map_values(|t: ShownTensor| t.kind@)
}

/// The numbers at the top.
pub open spec fn head_text(g: GgufFile) -> Seq<char> {
    "GGUF version   : "@ + text::decimal_text(g.version as nat) + "\nMetadata pairs : "@
        + text::decimal_text(g.metadata@.len()) + "\nTensors        : "@ + text::decimal_text(
        g.tensors@.len(),
    ) + "\nAlignment      : "@ + text::decimal_text(g.alignment as nat)
        + " bytes\nData offset    : "@ + text::decimal_text(g.data_offset as nat) + " bytes\n"@
}

/// The first `n` entries of the metadata: their keys, all as wide as the widest,
/// and their values.
pub open spec fn metadata_text(keys: Seq<Seq<char>>, values: Seq<Seq<char>>, n: nat) -> Seq<char>
    decreases n,
{
    if n == 0 {
        Seq::empty()
    } else {
        metadata_text(keys, values, (n - 1) as nat) + ("  "@ + text::padded(
            keys[n - 1],
            text::widest(keys),
        ) + " = "@ + values[n - 1] + "\n"@)
    }
}

/// The first `n` tensors: their names and types, each as wide as the widest, their
/// shapes and their places.
pub open spec fn tensors_text(tensors: Seq<GgufTensor>, shown: Seq<ShownTensor>, n: nat) -> Seq<char>
    decreases n,
{
    if n == 0 {
        Seq::empty()
    } else {
        tensors_text(tensors, shown, (n - 1) as nat) + ("  "@ + text::padded(
            tensors[n - 1].name@,
            text::widest(names_of(tensors)),
        ) + "  "@ + text::padded(shown[n - 1].kind@, text::widest(kinds_of(shown))) + "  "@
            + shown[n - 1].shape@ + "  (offset "@ + text::decimal_text(
            tensors[n - 1].offset as nat,
        ) + ")\n"@)
    }
}

/// All that is shown of a file.
pub open spec fn show_text(
    g: GgufFile,
    values: Seq<Seq<char>>,
    shown: Option<Seq<ShownTensor>>,
) -> Seq<char> {
    head_text(g) + "\nMetadata\n"@ + metadata_text(keys_of(g.metadata@), values, g.metadata@.len())
        + (match shown {
        Some(list) => "\nTensors\n"@ + tensors_text(g.tensors@, list, g.tensors@.len()),
        None => Seq::empty(),
    })
}

/// The most bytes that any key takes.
fn key_width(metadata: &Vec<(String, GgufValue)>) -> (n: usize)
    ensures
        n == text::widest(keys_of(metadata@)),
{
    let ghost all = keys_of(metadata@);
    let mut n: usize = 0;
    let mut i: usize = 0;
    while i < metadata.len()
        invariant
            i <= metadata.len(),
            all == keys_of(metadata@),
            n == text::widest(all.take(i as int)),
        decreases metadata.len() - i,
    {
        assert(all.take(i + 1).drop_last() =~= all.take(i as int));
        let w: usize = byte_count(metadata[i].0.as_str());
        if w > n {
            n = w;
        }
        i += 1;
    }
    assert(all.take(all.len() as int) =~= all);
    n
}

/// The most bytes that any name takes.
fn name_width(tensors: &Vec<GgufTensor>) -> (n: usize)
    ensures
        n == text::widest(names_of(tensors@)),
{
    let ghost all = names_of(tensors@);
    let mut n: usize = 0;
    let mut i: usize = 0;
    while i < tensors.len()
        invariant
            i <= tensors.len(),
            all == names_of(tensors@),
            n == text::widest(all.take(i as int)),
        decreases tensors.len() - i,
    {
        assert(all.take(i + 1).drop_last() =~= all.take(i as int));
        let w: usize = byte_count(tensors[i].name.as_str());
        if w > n {
            n = w;
        }
        i += 1;
    }
    assert(all.take(all.len() as int) =~= all);
    n
}

/// The most bytes that any type takes.
fn kind_width(shown: &Vec<ShownTensor>) -> (n: usize)
    ensures
        n == text::widest(kinds_of(shown@)),
{
    let ghost all = kinds_of(shown@);
    let mut n: usize = 0;
    let mut i: usize = 0;
    while i < shown.len()
        invariant
            i <= shown.len(),
            all == kinds_of(shown@),
            n == text::widest(all.take(i as int)),
        decreases shown.len() - i,
    {
        assert(all.take(i + 1).drop_last() =~= all.take(i as int));
        let w: usize = byte_count(shown[i].kind.as_str());
        if w > n {
            n = w;
        }
        i += 1;
    }
    assert(all.take(all.len() as int) =~= all);
    n
}

/// What a list of tensors to be shown holds.
pub open spec fn shown_view(shown: Option<Vec<ShownTensor>>) -> Option<Seq<ShownTensor>> {
    match shown {
        Some(list) => Some(list@),
        None => None,
    }
}

/// All that is shown of a file. `values` holds the values of the metadata as they
/// are shown, and `shown` the tensors where they are shown too.
pub fn format_show(gguf: &GgufFile, values: &Vec<String>, shown: &Option<Vec<ShownTensor>>) -> (r:
    String)
    requires
        values@.len() == gguf.metadata@.len(),
        shown is Some ==> shown->0@.len() == gguf.tensors@.len(),
    ensures
        r@ == show_text(*gguf, text::texts(values@), shown_view(*shown)),
{
    let mut out = "GGUF version   : ".to_owned();
    push_decimal(&mut out, gguf.version as u64);
    out.append("\nMetadata pairs : ");
    push_decimal(&mut out, gguf.metadata.len() as u64);
    out.append("\nTensors        : ");
    push_decimal(&mut out, gguf.tensors.len() as u64);
    out.append("\nAlignment      : ");
    push_decimal(&mut out, gguf.alignment);
    out.append(" bytes\nData offset    : ");
    push_decimal(&mut out, gguf.data_offset);
    out.append(" bytes\n");
    out.append("\nMetadata\n");
    push_metadata(&mut out, &gguf.metadata, values);
    let ghost before = out@;
    if let Some(list) = shown {
        out.append("\nTensors\n");
        push_tensors(&mut out, &gguf.tensors, list);
    }
    assert(out@ =~= before + (match shown_view(*shown) {
        Some(list) => "\nTensors\n"@ + tensors_text(gguf.tensors@, list, gguf.tensors@.len()),
        None => Seq::empty(),
    }));
    out
}

/// Adds the entries of the metadata.
fn push_metadata(out: &mut String, metadata: &Vec<(String, GgufValue)>, values: &Vec<String>)
    requires
        values@.len() == metadata@.len(),
    ensures
        final(out)@ == old(out)@ + metadata_text(
            keys_of(metadata@),
            text::texts(values@),
            metadata@.len(),
        ),
{
    let ghost start = out@;
    let ghost keys = keys_of(metadata@);
    let ghost shown = text::texts(values@);
    let width: usize = key_width(metadata);
    let mut i: usize = 0;
    assert(out@ =~= start + metadata_text(keys, shown, 0));
    while i < metadata.len()
        invariant
            i <= metadata.len(),
            values@.len() == metadata@.len(),
            keys == keys_of(metadata@),
            shown == text::texts(values@),
            width == text::widest(keys),
            out@ == start + metadata_text(keys, shown, i as nat),
        decreases metadata.len() - i,
    {
        out.append("  ");
        push_padded(out, metadata[i].0.as_str(), width);
        out.append(" = ");
        out.append(values[i].as_str());
        out.append("\n");
        i += 1;
        assert(out@ =~= start + metadata_text(keys, shown, i as nat));
    }
}

/// Adds the tensors.
fn push_tensors(out: &mut String, tensors: &Vec<GgufTensor>, shown: &Vec<ShownTensor>)
    requires
        shown@.len() == tensors@.len(),
    ensures
        final(out)@ == old(out)@ + tensors_text(tensors@, shown@, tensors@.len()),
{
    let ghost start = out@;
    let width: usize = name_width(tensors);
    let kinds: usize = kind_width(shown);
    let mut i: usize = 0;
    assert(out@ =~= start + tensors_text(tensors@, shown@, 0));
    while i < tensors.len()
        invariant
            i <= tensors.len(),
            shown@.len() == tensors@.len(),
            width == text::widest(names_of(tensors@)),
            kinds == text::widest(kinds_of(shown@)),
            out@ == start + tensors_text(tensors@, shown@, i as nat),
        decreases tensors.len() - i,
    {
        out.append("  ");
        push_padded(out, tensors[i].name.as_str(), width);
        out.append("  ");
        push_padded(out, shown[i].kind.as_str(), kinds);
        out.append("  ");
        out.append(shown[i].shape.as_str());
        out.append("  (offset ");
        push_decimal(out, tensors[i].offset);
        out.append(")\n");
        i += 1;
        assert(out@ =~= start + tensors_text(tensors@, shown@, i as nat));
    }
}

} // verus!
