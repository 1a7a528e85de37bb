//! The table of models, and what is picked from it.

use vstd::prelude::*;

use crate::loader;
use crate::loader::resolve_arch_family;
use crate::text;
use crate::text::{
    byte_count, decimal, join_strings, parse_number, push_decimal, push_padded,
    push_right_aligned, same_text, trim,
};

verus! {

/// What dims the text after it.
pub const ANSI_DIM: &'static str = "\u{1b}[2m";

/// What ends dimming.
pub const ANSI_RESET: &'static str = "\u{1b}[0m";

/// A model as the table shows it: its name, its quantization, the text of its size,
/// what is wrong with its files, and its architecture.
#[derive(Debug)]
pub struct ModelRow {
    pub label: String,
    pub quantization: Option<String>,
    pub size: String,
    pub errors: Vec<String>,
    pub architecture: Option<String>,
}

impl ModelRow {
    /// The quantization as it is shown.
    pub open spec fn quant(self) -> Seq<char> {
        match self.quantization {
            Some(q) => q@,
            None => "-"@,
        }
    }

    /// Whether the model can be run.
    pub open spec fn supported(self) -> bool {
        self.architecture is Some && loader::family_of(self.architecture->0@) is Some
    }

    /// The architecture as it is shown.
    pub open spec fn arch(self) -> Seq<char> {
        match self.architecture {
            Some(a) => a@,
            None => "unknown"@,
        }
    }

    fn quant_text(&self) -> (r: String)
        ensures
            r@ == self.quant(),
            self.quantization is Some ==> r@ == self.quantization->0@,
            self.quantization is None ==> r@ == "-"@,
    {
        match &self.quantization {
            Some(q) => q.clone(),
            None => "-".to_owned(),
        }
    }

    fn arch_text(&self) -> (r: String)
        ensures
            r@ == self.arch(),
            self.architecture is Some ==> r@ == self.architecture->0@,
            self.architecture is None ==> r@ == "unknown"@,
    {
        match &self.architecture {
            Some(a) => a.clone(),
            None => "unknown".to_owned(),
        }
    }

    /// Whether the model can be run.
    pub fn is_supported(&self) -> (r: bool)
        ensures
            r == self.supported(),
            self.architecture is None ==> !r,
            self.architecture is Some ==> (r <==> loader::family_of(
                self.architecture->0@,
            ) is Some),
    {
        match &self.architecture {
            Some(a) => resolve_arch_family(a.as_str()).is_ok(),
            None => false,
        }
    }
}

/// The names of the models.
pub open spec fn labels_of(rows: Seq<ModelRow>) -> Seq<Seq<char>> {
    rows.map_values(|r: ModelRow| r.label@)
}

/// The quantizations of the models as they are shown.
pub open spec fn quants_of(rows: Seq<ModelRow>) -> Seq<Seq<char>> {
    rows.map_values(|r: ModelRow| r.quant())
}

/// The wider of two.
pub open spec fn wider(a: nat, b: nat) -> nat {
    if a >= b {
        a
    } else {
        b
    }
}

/// The widths of the table's columns: each fits its head and all that stands under
/// it.
pub open spec fn widths(rows: Seq<ModelRow>) -> (nat, nat, nat) {
    (
        wider(text::byte_len(text::decimal_text(rows.len())), 2),
        wider(text::widest(labels_of(rows)), 5),
        wider(text::widest(quants_of(rows)), 5),
    )
}

/// The table's head.
pub open spec fn table_head(w: (nat, nat, nat)) -> Seq<char> {
    text::right_aligned("NR"@, w.0) + "  "@ + text::padded("MODEL"@, w.1) + "  "@ + text::padded(
        "QUANT"@,
        w.2,
    ) + "  SIZE\n"@
}

/// A row without what is wrong with it.
pub open spec fn plain_row(r: ModelRow, nr: nat, w: (nat, nat, nat)) -> Seq<char> {
    text::right_aligned(text::decimal_text(nr), w.0) + "  "@ + text::padded(r.label@, w.1) + "  "@
        + text::padded(r.quant(), w.2) + "  "@ + r.size@
}

/// A row of the table: what is wrong with the files, where something is; dimmed,
/// where the model cannot be run.
pub open spec fn table_row(r: ModelRow, nr: nat, w: (nat, nat, nat)) -> Seq<char> {
    if r.errors@.len() > 0 {
        text::right_aligned(text::decimal_text(nr), w.0) + "  "@ + text::padded(r.label@, w.1)
            + "  error: "@ + text::joined(text::texts(r.errors@), "; "@) + "\n"@
    } else if r.supported() {
        plain_row(r, nr, w) + "\n"@
    } else {
        ANSI_DIM@ + plain_row(r, nr, w) + "  (unsupported: architecture '"@ + r.arch() + "')"@
            + ANSI_RESET@ + "\n"@
    }
}

/// The first `n` rows of the table.
pub open spec fn table_rows(rows: Seq<ModelRow>, n: nat) -> Seq<char>
    decreases n,
{
    if n == 0 {
        Seq::empty()
    } else {
        table_rows(rows, (n - 1) as nat) + table_row(rows[n - 1], n, widths(rows))
    }
}

/// The table of models.
pub open spec fn table_text(rows: Seq<ModelRow>) -> Seq<char> {
    table_head(widths(rows)) + table_rows(rows, rows.len())
}

/// The widths of the table's columns.
fn column_widths(rows: &Vec<ModelRow>) -> (w: (usize, usize, usize))
    ensures
        (w.0 as nat, w.1 as nat, w.2 as nat) == widths(rows@),
{
    let ghost labels = labels_of(rows@);
    let ghost quants = quants_of(rows@);
    let mut model: usize = 0;
    let mut quant: usize = 0;
    let mut i: usize = 0;
    while i < rows.len()
        invariant
            i <= rows.len(),
            labels == labels_of(rows@),
            quants == quants_of(rows@),
            model == text::widest(labels.take(i as int)),
            quant == text::widest(quants.take(i as int)),
        decreases rows.len() - i,
    {
        assert(labels.take(i + 1).drop_last() =~= labels.take(i as int));
        assert(quants.take(i + 1).drop_last() =~= quants.take(i as int));
        let a: usize = byte_count(rows[i].label.as_str());
        if a > model {
            model = a;
        }
        let b: usize = byte_count(rows[i].quant_text().as_str());
        if b > quant {
            quant = b;
        }
        i += 1;
    }
    assert(labels.take(labels.len() as int) =~= labels);
    assert(quants.take(quants.len() as int) =~= quants);
    let nr: usize = byte_count(decimal(rows.len() as u64).as_str());
    (
        if nr >= 2 {
            nr
        } else {
            2
        },
        if model >= 5 {
            model
        } else {
            5
        },
        if quant >= 5 {
            quant
        } else {
            5
        },
    )
}

/// Adds a row without what is wrong with it.
fn push_plain_row(out: &mut String, r: &ModelRow, nr: usize, w: (usize, usize, usize))
    ensures
        final(out)@ == old(out)@ + plain_row(*r, nr as nat, (w.0 as nat, w.1 as nat, w.2 as nat)),
{
    let ghost start = out@;
    push_right_aligned(out, decimal(nr as u64).as_str(), w.0);
    out.append("  ");
    push_padded(out, r.label.as_str(), w.1);
    out.append("  ");
    push_padded(out, r.quant_text().as_str(), w.2);
    out.append("  ");
    out.append(r.size.as_str());
    assert(out@ =~= start + plain_row(*r, nr as nat, (w.0 as nat, w.1 as nat, w.2 as nat)));
}

/// Adds a row of the table.
fn push_row(out: &mut String, r: &ModelRow, nr: usize, w: (usize, usize, usize))
    ensures
        final(out)@ == old(out)@ + table_row(*r, nr as nat, (w.0 as nat, w.1 as nat, w.2 as nat)),
{
    let ghost start = out@;
    if r.errors.len() > 0 {
        push_right_aligned(out, decimal(nr as u64).as_str(), w.0);
        out.append("  ");
        push_padded(out, r.label.as_str(), w.1);
        out.append("  error: ");
        out.append(join_strings(&r.errors, "; ").as_str());
        out.append("\n");
    } else if r.is_supported() {
        push_plain_row(out, r, nr, w);
        out.append("\n");
    } else {
        out.append(ANSI_DIM);
        push_plain_row(out, r, nr, w);
        out.append("  (unsupported: architecture '");
        out.append(r.arch_text().as_str());
        out.append("')");
        out.append(ANSI_RESET);
        out.append("\n");
    }
    assert(out@ =~= start + table_row(*r, nr as nat, (w.0 as nat, w.1 as nat, w.2 as nat)));
}

/// The table of models.
pub fn model_table(rows: &Vec<ModelRow>) -> (r: String)
    ensures
        r@ == table_text(rows@),
{
    let w = column_widths(rows);
    let mut out = String::new();
    push_right_aligned(&mut out, "NR", w.0);
    out.append("  ");
    push_padded(&mut out, "MODEL", w.1);
    out.append("  ");
    push_padded(&mut out, "QUANT", w.2);
    out.append("  SIZE\n");
    let ghost head = out@;
    assert(head =~= table_head(widths(rows@)));
    let n: usize = rows.len();
    let mut i: usize = 0;
    assert(out@ =~= head + table_rows(rows@, 0));
    while i < n
        invariant
            n == rows@.len(),
            i <= n,
            (w.0 as nat, w.1 as nat, w.2 as nat) == widths(rows@),
            out@ == head + table_rows(rows@, i as nat),
        decreases n - i,
    {
        push_row(&mut out, &rows[i], i + 1, w);
        i += 1;
        assert(out@ =~= head + table_rows(rows@, i as nat));
    }
    out
}

/// Why nothing was picked.
#[derive(Debug)]
pub enum PickError {
    /// What was written is no number.
    NotANumber { written: String },
    /// No model has that number.
    NoSuchModel { nr: usize, count: usize },
}

impl PickError {
    /// The message of the error.
    pub open spec fn text(self) -> Seq<char> {
        match self {
            PickError::NotANumber { written } => "'"@ + written@ + "' is not a number"@,
            PickError::NoSuchModel { nr, count } => "no model with NR "@ + text::decimal_text(
                nr as nat,
            ) + " ("@ + text::decimal_text(count as nat) + " model(s) listed)"@,
        }
    }

    /// The message of the error.
    pub fn message(&self) -> (r: String)
        ensures
            r@ == self.text(),
    {
        match self {
            PickError::NotANumber { written } => {
                let mut s = "'".to_owned();
                s.append(written.as_str());
                s.append("' is not a number");
                s
            },
            PickError::NoSuchModel { nr, count } => {
                let mut s = "no model with NR ".to_owned();
                push_decimal(&mut s, *nr as u64);
                s.append(" (");
                push_decimal(&mut s, *count as u64);
                s.append(" model(s) listed)");
                s
            },
        }
    }
}

/// The place in the table that an answer names by its number, counted from one.
pub fn pick(line: &str, count: usize) -> (r: Result<usize, PickError>)
    ensures
        match text::number_of(text::trimmed(line@)) {
            None => r is Err && r->Err_0 is NotANumber && r->Err_0->written@ == text::trimmed(
                line@,
            ),
            Some(nr) => if 1 <= nr <= count {
                r is Ok && r->Ok_0 == nr - 1
            } else {
                r is Err && r->Err_0 == (PickError::NoSuchModel { nr, count })
            },
        },
{
    let written = trim(line);
    match parse_number(written.as_str()) {
        None => Err(PickError::NotANumber { written }),
        Some(nr) => if nr >= 1 && nr <= count {
            Ok(nr - 1)
        } else {
            Err(PickError::NoSuchModel { nr, count })
        },
    }
}

/// What is said where there is no model; with a hint on how to get one where it
/// was to be run.
pub open spec fn no_models_text(dir: Seq<char>, hint: bool) -> Seq<char> {
    if hint {
        "no .gguf models found under "@ + dir
            + "; download one first (e.g. `orangu-server download <user>/<model>`) or pass one directly: orangu-server <model>"@
    } else {
        "no .gguf models found under "@ + dir
    }
}

/// What is said where there is no model.
pub fn no_models(dir: &str, hint: bool) -> (r: String)
    ensures
        r@ == no_models_text(dir@, hint),
{
    let mut s = "no .gguf models found under ".to_owned();
    s.append(dir);
    if hint {
        s.append(
            "; download one first (e.g. `orangu-server download <user>/<model>`) or pass one directly: orangu-server <model>",
        );
    }
    s
}

/// Whether a repository is among those that models came from.
pub open spec fn is_origin(origins: Seq<Option<String>>, repo: Seq<char>) -> bool {
    exists|i: int|
        0 <= i < origins.len() && (#[trigger] origins[i]) is Some && origins[i]->0@ == repo
}

/// The repositories that models came from, each once.
pub fn repositories(origins: &Vec<Option<String>>) -> (r: Vec<String>)
    ensures
        forall|repo: Seq<char>| #[trigger]
            text::texts(r@).contains(repo) <==> is_origin(origins@, repo),
        text::texts(r@).no_duplicates(),
{
    let mut out: Vec<String> = Vec::new();
    let mut i: usize = 0;
    while i < origins.len()
        invariant
            i <= origins@.len(),
            forall|repo: Seq<char>| #[trigger]
                text::texts(out@).contains(repo) <==> is_origin(origins@.take(i as int), repo),
            text::texts(out@).no_duplicates(),
        decreases origins.len() - i,
    {
        let ghost before = out@;
        let ghost known = origins@.take(i as int);
        let ghost more = origins@.take(i + 1);
        match &origins[i] {
            None => {},
            Some(repo) => {
                if !is_known(&out, repo.as_str()) {
                    out.push(repo.clone());
                    assert(text::texts(out@) =~= text::texts(before).push(repo@));
                }
            },
        }
        assert forall|repo: Seq<char>| #[trigger]
            text::texts(out@).contains(repo) <==> is_origin(more, repo) by {
            let own = origins@[i as int];
            assert(more[i as int] == own);
            if text::texts(out@).contains(repo) && !text::texts(before).contains(repo) {
                let k = choose|k: int|
                    0 <= k < text::texts(out@).len() && text::texts(out@)[k] == repo;
                assert(k == before.len());
            }
            if text::texts(before).contains(repo) {
                assert(is_origin(known, repo));
                let k = choose|k: int|
                    0 <= k < known.len() && (#[trigger] known[k]) is Some && known[k]->0@ == repo;
                assert(more[k] == known[k]);
                let k = choose|k: int|
                    0 <= k < text::texts(before).len() && text::texts(before)[k] == repo;
                assert(text::texts(out@)[k] == repo);
            }
            if is_origin(more, repo) && !is_origin(known, repo) {
                let k = choose|k: int|
                    0 <= k < more.len() && (#[trigger] more[k]) is Some && more[k]->0@ == repo;
                if k < i {
                    assert(known[k] == more[k]);
                }
                assert(own is Some && own->0@ == repo);
                assert(text::texts(out@).last() == repo || text::texts(before).contains(repo));
            }
        }
        i += 1;
    }
    assert(origins@.take(origins@.len() as int) =~= origins@);
    out
}

/// Whether a text is among others.
fn is_known(list: &Vec<String>, t: &str) -> (r: bool)
    ensures
        r == text::texts(list@).contains(t@),
{
    let mut i: usize = 0;
    while i < list.len()
        invariant
            i <= list@.len(),
            forall|j: int| 0 <= j < i ==> text::texts(list@)[j] != t@,
        decreases list.len() - i,
    {
        if same_text(list[i].as_str(), t) {
            assert(text::texts(list@)[i as int] == t@);
            return true;
        }
        assert(text::texts(list@)[i as int] != t@);
        i += 1;
    }
    false
}

/// The files of a model that is deleted, in words.
pub open spec fn files_text(label: Seq<char>, files: nat, size: Seq<char>) -> Seq<char> {
    "'"@ + label + "' ("@ + text::decimal_text(files) + (if files == 1 {
        " file, "@
    } else {
        " files, "@
    }) + size + ")"@
}

/// Adds the files of a model that is deleted, in words.
fn push_files(s: &mut String, label: &str, files: usize, size: &str)
    ensures
        final(s)@ == old(s)@ + files_text(label@, files as nat, size@),
{
    let ghost start = s@;
    s.append("'");
    s.append(label);
    s.append("' (");
    push_decimal(s, files as u64);
    if files == 1 {
        s.append(" file, ");
    } else {
        s.append(" files, ");
    }
    s.append(size);
    s.append(")");
    assert(s@ =~= start + files_text(label@, files as nat, size@));
}

/// The question before a model is deleted.
pub fn delete_question(label: &str, files: usize, size: &str, dir: &str) -> (r: String)
    ensures
        r@ == "Delete "@ + files_text(label@, files as nat, size@) + " from "@ + dir@ + "? [y/N]: "@,
{
    let mut s = "Delete ".to_owned();
    push_files(&mut s, label, files, size);
    s.append(" from ");
    s.append(dir);
    s.append("? [y/N]: ");
    s
}

/// What is said after a model was deleted.
pub fn deleted_notice(label: &str, files: usize, size: &str) -> (r: String)
    ensures
        r@ == "Deleted "@ + files_text(label@, files as nat, size@),
{
    let mut s = "Deleted ".to_owned();
    push_files(&mut s, label, files, size);
    s
}

/// The number that stands before a model in the table picks it.
pub proof fn numbers_pick_their_rows(i: int, count: nat)
    requires
        0 <= i < count <= usize::MAX,
    ensures
        text::number_of(text::trimmed(text::decimal_text((i + 1) as nat))) == Some(
            (i + 1) as usize,
        ),
{
    text::decimal_reads_back((i + 1) as nat);
}

/// Every column of the table is as wide as its head and as all that stands under it, and no
/// wider.
pub proof fn columns_are_as_wide_as_needed(rows: Seq<ModelRow>, i: int)
    requires
        0 <= i < rows.len(),
    ensures
        ({
            let (nr, model, quant) = widths(rows);
            &&& nr >= 2
            &&& nr >= text::byte_len(text::decimal_text(rows.len()))
            &&& nr == 2 || nr == text::byte_len(text::decimal_text(rows.len()))
            &&& model >= 5
            &&& model >= text::byte_len(rows[i].label@)
            &&& model == 5 || exists|k: int|
                0 <= k < rows.len() && text::byte_len((#[trigger] rows[k]).label@) == model
            &&& quant >= 5
            &&& rows[i].quantization is Some ==> quant >= text::byte_len(
                rows[i].quantization->0@,
            )
            &&& quant == 5 || exists|k: int|
                0 <= k < rows.len() && text::byte_len((#[trigger] rows[k]).quant()) == quant
        }),
{
    let (labels, quants) = (labels_of(rows), quants_of(rows));
    text::laws::the_widest_is_one_of_them(labels);
    text::laws::the_widest_is_one_of_them(quants);
    assert(labels[i] == rows[i].label@ && quants[i] == rows[i].quant());
    let a = choose|k: int|
        0 <= k < labels.len() && vstd::utf8::encode_utf8(#[trigger] labels[k]).len()
            == text::widest(labels);
    assert(labels[a] == rows[a].label@);
    let b = choose|k: int|
        0 <= k < quants.len() && vstd::utf8::encode_utf8(#[trigger] quants[k]).len()
            == text::widest(quants);
    assert(quants[b] == rows[b].quant());
}

/// A row tells what is wrong with a model's files where something is, and is dimmed, with its
/// architecture, where the model cannot be run; otherwise it is its number, its name, its
/// quantization and its size.
pub proof fn rows_tell_what_is_wrong(r: ModelRow, nr: nat, w: (nat, nat, nat))
    ensures
        ({
            let start = text::right_aligned(text::decimal_text(nr), w.0) + "  "@ + text::padded(
                r.label@,
                w.1,
            );
            let whole = start + "  "@ + text::padded(r.quant(), w.2) + "  "@ + r.size@;
            &&& r.errors@.len() > 0 ==> table_row(r, nr, w) == start + "  error: "@ + text::joined(
                text::texts(r.errors@),
                "; "@,
            ) + "\n"@
            &&& r.errors@.len() == 0 && r.architecture is Some && loader::family_of(
                r.architecture->0@,
            ) is Some ==> table_row(r, nr, w) == whole + "\n"@
            &&& r.errors@.len() == 0 && r.architecture is Some && loader::family_of(
                r.architecture->0@,
            ) is None ==> table_row(r, nr, w) == "\u{1b}[2m"@ + whole
                + "  (unsupported: architecture '"@ + r.architecture->0@ + "')"@ + "\u{1b}[0m"@
                + "\n"@
            &&& r.errors@.len() == 0 && r.architecture is None ==> table_row(r, nr, w)
                == "\u{1b}[2m"@ + whole + "  (unsupported: architecture '"@ + "unknown"@ + "')"@
                + "\u{1b}[0m"@ + "\n"@
        }),
{
}

/// The table is its head and a row for each model, numbered from one.
pub proof fn tables_number_their_rows(rows: Seq<ModelRow>, n: nat)
    requires
        n < rows.len(),
    ensures
        table_rows(rows, 0) == Seq::<char>::empty(),
        table_rows(rows, n + 1) == table_rows(rows, n) + table_row(
            rows[n as int],
            n + 1,
            widths(rows),
        ),
        table_text(rows) == table_head(widths(rows)) + table_rows(rows, rows.len()),
{
}

/// A repository is among the origins where one of them is it, and nowhere else.
pub proof fn origins_are_those_that_are_known(
    origins: Seq<Option<String>>,
    repo: Seq<char>,
    i: int,
)
    ensures
        0 <= i < origins.len() && origins[i] is Some && origins[i]->0@ == repo ==> is_origin(
            origins,
            repo,
        ),
        (forall|k: int|
            0 <= k < origins.len() && (#[trigger] origins[k]) is Some ==> origins[k]->0@ != repo)
            ==> !is_origin(origins, repo),
{
}

/// One file is told of as a file, and any other number as files.
pub proof fn files_are_counted_in_words(label: Seq<char>, files: nat, size: Seq<char>)
    ensures
        files_text(label, 1, size) == "'"@ + label + "' ("@ + text::decimal_text(1) + " file, "@
            + size + ")"@,
        files != 1 ==> files_text(label, files, size) == "'"@ + label + "' ("@
            + text::decimal_text(files) + " files, "@ + size + ")"@,
{
}

} // verus!
