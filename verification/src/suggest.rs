//! Which size of model a machine can run: the largest of a ladder of sizes whose
//! need fits the memory that there is, for several lengths of context and several
//! quantizations. How much memory a model needs is handed in.

use vstd::prelude::*;

use crate::text;
use crate::text::{byte_count, decimal, join_strings, push_decimal, push_padded};

verus! {

/// What the memory of a graphics processor is.
#[derive(Debug, Clone, Copy, PartialEq, Eq, Structural)]
pub enum MemoryKind {
    Dedicated,
    Shared,
    Unknown,
}

/// A graphics processor.
#[derive(Debug)]
pub struct GpuInfo {
    pub vendor: String,
    pub name: String,
    pub vram_total_bytes: Option<u64>,
    pub vram_used_bytes: Option<u64>,
    pub driver: Option<String>,
    pub memory_kind: MemoryKind,
}

/// What a processor can do.
#[derive(Debug, Clone, Copy, PartialEq, Eq, Structural)]
pub struct CpuFeatures {
    pub sse4_2: bool,
    pub avx2: bool,
    pub avx512f: bool,
}

/// The processor of a machine, and its memory.
#[derive(Debug)]
pub struct CpuInfo {
    pub brand: String,
    pub vendor: String,
    pub arch: String,
    pub physical_cores: Option<usize>,
    pub logical_cores: usize,
    pub frequency_mhz: u64,
    pub total_memory_bytes: u64,
    pub available_memory_bytes: u64,
    pub features: CpuFeatures,
}

/// Where nothing tells the memory of a graphics processor from the machine's, this
/// much is taken to be its own: less is what a processor without any sets aside.
pub const WINDOWS_UNKNOWN_DEDICATED_THRESHOLD_BYTES: u64 = 1_073_741_824;

/// The number of sizes on the ladder.
pub const RUNGS: usize = 23;

/// The number of lengths of context.
pub const CONTEXTS: usize = 9;

/// The number of quantizations.
pub const QUANTS: usize = 3;

/// The sizes of models in billions of parameters, the largest first.
pub open spec fn ladder() -> Seq<u64> {
    seq![
        671u64,
        405,
        235,
        120,
        110,
        70,
        65,
        34,
        32,
        30,
        27,
        24,
        22,
        14,
        13,
        12,
        9,
        8,
        7,
        4,
        3,
        2,
        1,
    ]
}

/// The lengths of context in tokens.
pub open spec fn contexts() -> Seq<u64> {
    seq![1024u64, 2048, 4096, 8192, 16384, 32768, 65536, 131072, 262144]
}

/// The names of the quantizations, with the fewest bits first.
pub open spec fn quant_tags() -> Seq<Seq<char>> {
    seq!["Q2_K"@, "Q4_K_M"@, "Q8_0"@]
}

/// The sizes of models in billions of parameters, the largest first.
pub fn param_ladder_billions() -> (r: Vec<u64>)
    ensures
        r@ == ladder(),
{
    let r: Vec<u64> = vec![
        671, 405, 235, 120, 110, 70, 65, 34, 32, 30, 27, 24, 22, 14, 13, 12, 9, 8, 7, 4, 3, 2, 1,
    ];
    assert(r@ =~= ladder());
    r
}

/// The lengths of context in tokens.
pub fn context_ladder() -> (r: Vec<u64>)
    ensures
        r@ == contexts(),
{
    let r: Vec<u64> = vec![1024, 2048, 4096, 8192, 16384, 32768, 65536, 131072, 262144];
    assert(r@ =~= contexts());
    r
}

/// The names of the quantizations.
pub fn quant_ladder() -> (r: Vec<&'static str>)
    ensures
        text::slices(r@) == quant_tags(),
{
    let r: Vec<&'static str> = vec!["Q2_K", "Q4_K_M", "Q8_0"];
    assert(text::slices(r@) =~= quant_tags());
    r
}

/// Whether the memory of a graphics processor is its own. Under Windows, where it
/// may not be known, it is taken to be from a threshold on.
pub open spec fn has_own_memory(g: GpuInfo, windows: bool) -> bool {
    g.memory_kind == MemoryKind::Dedicated || (windows && g.memory_kind == MemoryKind::Unknown
        && g.vram_total_bytes is Some && g.vram_total_bytes->0
        >= WINDOWS_UNKNOWN_DEDICATED_THRESHOLD_BYTES)
}

/// Whether a graphics processor counts where all of them together do.
pub open spec fn counts_together(g: GpuInfo, windows: bool) -> bool {
    g.memory_kind == MemoryKind::Shared || has_own_memory(g, windows)
}

/// The memory of a graphics processor, where it is known.
pub open spec fn memory_of(g: GpuInfo) -> nat {
    match g.vram_total_bytes {
        Some(n) => n as nat,
        None => 0,
    }
}

/// The memory of all graphics processors that have their own.
pub open spec fn own_memory(gpus: Seq<GpuInfo>, windows: bool) -> nat
    decreases gpus.len(),
{
    if gpus.len() == 0 {
        0
    } else {
        own_memory(gpus.drop_last(), windows) + (if has_own_memory(gpus.last(), windows) {
            memory_of(gpus.last())
        } else {
            0
        })
    }
}

/// The memory of all graphics processors that count together.
pub open spec fn common_memory(gpus: Seq<GpuInfo>, windows: bool) -> nat
    decreases gpus.len(),
{
    if gpus.len() == 0 {
        0
    } else {
        common_memory(gpus.drop_last(), windows) + (if counts_together(gpus.last(), windows) {
            memory_of(gpus.last())
        } else {
            0
        })
    }
}

/// The memory that all devices have together: the machine's where no graphics
/// processor counts.
pub open spec fn combined_budget(total_memory: u64, gpus: Seq<GpuInfo>, windows: bool) -> nat {
    if common_memory(gpus, windows) > 0 {
        common_memory(gpus, windows)
    } else {
        total_memory as nat
    }
}

/// Whether the memory of a graphics processor is its own.
pub fn is_dedicated_for_budget(gpu: &GpuInfo, windows: bool) -> (r: bool)
    ensures
        r == has_own_memory(*gpu, windows),
        gpu.memory_kind == MemoryKind::Dedicated ==> r,
        gpu.memory_kind == MemoryKind::Shared ==> !r,
        gpu.memory_kind == MemoryKind::Unknown ==> (r <==> windows && gpu.vram_total_bytes is Some
            && gpu.vram_total_bytes->0 >= 1024 * 1024 * 1024),
{
    match gpu.memory_kind {
        MemoryKind::Dedicated => true,
        MemoryKind::Shared => false,
        MemoryKind::Unknown => windows && (match gpu.vram_total_bytes {
            Some(n) => n >= WINDOWS_UNKNOWN_DEDICATED_THRESHOLD_BYTES,
            None => false,
        }),
    }
}

/// Whether a graphics processor counts where all of them together do.
pub fn is_combined_budget_eligible(gpu: &GpuInfo, windows: bool) -> (r: bool)
    ensures
        r == counts_together(*gpu, windows),
        gpu.memory_kind != MemoryKind::Unknown ==> r,
        gpu.memory_kind == MemoryKind::Unknown ==> (r <==> windows && gpu.vram_total_bytes is Some
            && gpu.vram_total_bytes->0 >= 1024 * 1024 * 1024),
{
    match gpu.memory_kind {
        MemoryKind::Shared => true,
        _ => is_dedicated_for_budget(gpu, windows),
    }
}

proof fn own_memory_grows(gpus: Seq<GpuInfo>, windows: bool, n: int)
    requires
        0 <= n <= gpus.len(),
    ensures
        own_memory(gpus.take(n), windows) <= own_memory(gpus, windows),
        common_memory(gpus.take(n), windows) <= common_memory(gpus, windows),
    decreases gpus.len(),
{
    if n < gpus.len() {
        assert(gpus.drop_last().take(n) =~= gpus.take(n));
        own_memory_grows(gpus.drop_last(), windows, n);
    } else {
        assert(gpus.take(n) =~= gpus);
    }
}

/// The memory of all graphics processors that have their own. What of it is in use
/// does not count.
pub fn dedicated_vram_budget_bytes(gpus: &[GpuInfo], windows: bool) -> (r: u64)
    requires
        own_memory(gpus@, windows) <= u64::MAX,
    ensures
        r == own_memory(gpus@, windows),
{
    let n: usize = gpus.len();
    let mut total: u64 = 0;
    let mut i: usize = 0;
    assert(gpus@.take(0) =~= Seq::empty());
    while i < n
        invariant
            n == gpus@.len(),
            i <= n,
            own_memory(gpus@, windows) <= u64::MAX,
            total == own_memory(gpus@.take(i as int), windows),
        decreases n - i,
    {
        proof {
            assert(gpus@.take(i + 1).drop_last() =~= gpus@.take(i as int));
            own_memory_grows(gpus@, windows, i + 1);
        }
        if is_dedicated_for_budget(&gpus[i], windows) {
            if let Some(bytes) = gpus[i].vram_total_bytes {
                total = total + bytes;
            }
        }
        i += 1;
    }
    assert(gpus@.take(n as int) =~= gpus@);
    total
}

/// The memory that all devices have together.
pub fn combined_gpu_budget_bytes(cpu: &CpuInfo, gpus: &[GpuInfo], windows: bool) -> (r: u64)
    requires
        common_memory(gpus@, windows) <= u64::MAX,
    ensures
        r == combined_budget(cpu.total_memory_bytes, gpus@, windows),
{
    let n: usize = gpus.len();
    let mut total: u64 = 0;
    let mut i: usize = 0;
    assert(gpus@.take(0) =~= Seq::empty());
    while i < n
        invariant
            n == gpus@.len(),
            i <= n,
            common_memory(gpus@, windows) <= u64::MAX,
            total == common_memory(gpus@.take(i as int), windows),
        decreases n - i,
    {
        proof {
            assert(gpus@.take(i + 1).drop_last() =~= gpus@.take(i as int));
            own_memory_grows(gpus@, windows, i + 1);
        }
        if is_combined_budget_eligible(&gpus[i], windows) {
            if let Some(bytes) = gpus[i].vram_total_bytes {
                total = total + bytes;
            }
        }
        i += 1;
    }
    assert(gpus@.take(n as int) =~= gpus@);
    if total > 0 {
        total
    } else {
        cpu.total_memory_bytes
    }
}

/// Whether rung `i` is the first whose need fits the budget.
pub open spec fn is_first_fit(needs: Seq<u64>, budget: u64, i: int) -> bool {
    &&& 0 <= i < needs.len()
    &&& needs[i] <= budget
    &&& forall|j: int| 0 <= j < i ==> (#[trigger] needs[j]) > budget
}

/// The size that is suggested, if any fits: `needs` holds what each rung of the
/// ladder needs.
pub open spec fn suggested(needs: Seq<u64>, budget: u64) -> Option<u64> {
    if exists|i: int| is_first_fit(needs, budget, i) {
        Some(ladder()[choose|i: int| is_first_fit(needs, budget, i)])
    } else {
        None
    }
}

/// The size that is suggested, if any fits.
pub fn suggest_param_count(budget: u64, needs: &[u64]) -> (r: Option<u64>)
    requires
        needs@.len() == RUNGS,
    ensures
        r == suggested(needs@, budget),
{
    let rungs = param_ladder_billions();
    let n: usize = needs.len();
    let mut i: usize = 0;
    while i < n
        invariant
            n == needs@.len(),
            n == RUNGS,
            rungs@ == ladder(),
            i <= n,
            forall|j: int| 0 <= j < i ==> (#[trigger] needs@[j]) > budget,
        decreases n - i,
    {
        if needs[i] <= budget {
            proof {
                assert(is_first_fit(needs@, budget, i as int));
                let c = choose|k: int| is_first_fit(needs@, budget, k);
                assert(c == i);
            }
            return Some(rungs[i]);
        }
        i += 1;
    }
    None
}

/// The text of a size: without a decimal where it is a whole number of billions,
/// else with one. The size is given in tenths of a billion.
pub open spec fn size_text(whole: bool, tenths: nat) -> Seq<char> {
    if whole {
        text::decimal_text(tenths / 10) + "B"@
    } else {
        text::decimal_text(tenths / 10) + "."@ + text::decimal_text(tenths % 10) + "B"@
    }
}

/// The text of a size.
pub fn format_param_count(whole: bool, tenths: u64) -> (r: String)
    ensures
        r@ == size_text(whole, tenths as nat),
{
    let mut s = decimal(tenths / 10);
    if !whole {
        s.append(".");
        push_decimal(&mut s, tenths % 10);
    }
    s.append("B");
    s
}

/// What is suggested as the table says it.
pub open spec fn suggestion_text(pick: Option<u64>) -> Seq<char> {
    match pick {
        Some(billions) => "~"@ + size_text(true, (billions * 10) as nat) + " parameters"@,
        None => "-"@,
    }
}

/// The head of a column.
pub open spec fn header_text(tag: Seq<char>) -> Seq<char> {
    "Suggestion ("@ + tag + ")"@
}

/// The heads of the columns.
pub open spec fn headers() -> Seq<Seq<char>> {
    quant_tags().map_values(|tag: Seq<char>| header_text(tag))
}

/// As many dashes as that.
pub open spec fn dashes(n: nat) -> Seq<char> {
    Seq::new(n, |i: int| '-')
}

/// The lines under the heads.
pub open spec fn rules() -> Seq<Seq<char>> {
    headers().map_values(|h: Seq<char>| dashes(text::byte_len(h)))
}

/// The cells of a row: what is suggested for each quantization, each as wide as its
/// head.
pub open spec fn row_cells(needs: Seq<Vec<u64>>, budget: u64) -> Seq<Seq<char>> {
    Seq::new(
        QUANTS as nat,
        |q: int|
            text::padded(
                suggestion_text(suggested(needs[q]@, budget)),
                text::byte_len(headers()[q]),
            ),
    )
}

/// A row: the length of its context, and its cells.
pub open spec fn row_text(context: u64, needs: Seq<Vec<u64>>, budget: u64) -> Seq<char> {
    "  "@ + text::padded(text::decimal_text((context / 1024) as nat) + "K"@, 7) + "  "@
        + text::joined(row_cells(needs, budget), "  "@) + "\n"@
}

/// The first `n` rows.
pub open spec fn rows_text(needs: Seq<Vec<Vec<u64>>>, budget: u64, n: nat) -> Seq<char>
    decreases n,
{
    if n == 0 {
        Seq::empty()
    } else {
        rows_text(needs, budget, (n - 1) as nat) + row_text(
            contexts()[n - 1],
            needs[n - 1]@,
            budget,
        )
    }
}

/// The block of a budget: its name, its size, and the table of what fits it.
pub open spec fn block_text(
    label: Seq<char>,
    budget: u64,
    size: Seq<char>,
    needs: Seq<Vec<Vec<u64>>>,
) -> Seq<char> {
    "\n"@ + label + "\n  Estimated budget : "@ + size + "\n\n  Context  "@ + text::joined(
        headers(),
        "  "@,
    ) + "\n  -------  "@ + text::joined(rules(), "  "@) + "\n"@ + rows_text(
        needs,
        budget,
        CONTEXTS as nat,
    )
}

/// Whether what is handed in holds the need of each rung, for each length of
/// context and each quantization.
pub open spec fn covers(needs: Seq<Vec<Vec<u64>>>) -> bool {
    &&& needs.len() == CONTEXTS
    &&& forall|c: int| 0 <= c < CONTEXTS ==> (#[trigger] needs[c])@.len() == QUANTS
    &&& forall|c: int, q: int|
        0 <= c < CONTEXTS && 0 <= q < QUANTS ==> (#[trigger] needs[c]@[q])@.len() == RUNGS
}

/// The heads of the columns.
fn column_heads() -> (r: Vec<String>)
    ensures
        text::texts(r@) == headers(),
{
    let tags = quant_ladder();
    let mut out: Vec<String> = Vec::new();
    let mut i: usize = 0;
    while i < tags.len()
        invariant
            i <= tags.len(),
            text::slices(tags@) == quant_tags(),
            out@.len() == i,
            forall|j: int| 0 <= j < i ==> (#[trigger] out@[j])@ == headers()[j],
        decreases tags.len() - i,
    {
        assert(quant_tags()[i as int] == tags@[i as int]@);
        let mut s = "Suggestion (".to_owned();
        s.append(tags[i]);
        s.append(")");
        out.push(s);
        i += 1;
    }
    assert(text::texts(out@) =~= headers());
    out
}

/// A line of dashes.
fn dash_line(n: usize) -> (r: String)
    ensures
        r@ == dashes(n as nat),
{
    let mut s = String::new();
    let mut i: usize = 0;
    assert(s@ =~= dashes(0));
    while i < n
        invariant
            i <= n,
            s@ == dashes(i as nat),
        decreases n - i,
    {
        s.push('-');
        i += 1;
        assert(s@ =~= dashes(i as nat));
    }
    s
}

/// The lines under the heads.
fn column_rules(heads: &Vec<String>) -> (r: Vec<String>)
    requires
        text::texts(heads@) == headers(),
    ensures
        text::texts(r@) == rules(),
{
    let mut out: Vec<String> = Vec::new();
    let mut i: usize = 0;
    while i < heads.len()
        invariant
            i <= heads.len(),
            text::texts(heads@) == headers(),
            out@.len() == i,
            forall|j: int| 0 <= j < i ==> (#[trigger] out@[j])@ == rules()[j],
        decreases heads.len() - i,
    {
        assert(headers()[i as int] == heads@[i as int]@);
        out.push(dash_line(byte_count(heads[i].as_str())));
        i += 1;
    }
    assert(text::texts(out@) =~= rules());
    out
}

/// What is suggested as the table says it.
fn suggestion_cell(pick: Option<u64>) -> (r: String)
    requires
        pick is Some ==> pick->0 <= 671,
    ensures
        r@ == suggestion_text(pick),
{
    match pick {
        Some(billions) => {
            let mut s = "~".to_owned();
            s.append(format_param_count(true, billions * 10).as_str());
            s.append(" parameters");
            s
        },
        None => "-".to_owned(),
    }
}

/// The cells of a row.
fn row(heads: &Vec<String>, needs: &Vec<Vec<u64>>, budget: u64) -> (r: Vec<String>)
    requires
        text::texts(heads@) == headers(),
        needs@.len() == QUANTS,
        forall|q: int| 0 <= q < QUANTS ==> (#[trigger] needs@[q])@.len() == RUNGS,
    ensures
        text::texts(r@) == row_cells(needs@, budget),
{
    let mut out: Vec<String> = Vec::new();
    let mut q: usize = 0;
    assert(heads@.len() == headers().len());
    while q < QUANTS
        invariant
            q <= QUANTS,
            text::texts(heads@) == headers(),
            heads@.len() == QUANTS,
            needs@.len() == QUANTS,
            forall|k: int| 0 <= k < QUANTS ==> (#[trigger] needs@[k])@.len() == RUNGS,
            out@.len() == q,
            forall|j: int| 0 <= j < q ==> (#[trigger] out@[j])@ == row_cells(needs@, budget)[j],
        decreases QUANTS - q,
    {
        assert(headers()[q as int] == heads@[q as int]@);
        let pick = suggest_param_count(budget, needs[q].as_slice());
        proof {
            picks_are_small(needs@[q as int]@, budget);
        }
        let cell = suggestion_cell(pick);
        let mut s = String::new();
        push_padded(&mut s, cell.as_str(), byte_count(heads[q].as_str()));
        assert(s@ =~= row_cells(needs@, budget)[q as int]);
        out.push(s);
        q += 1;
    }
    assert(text::texts(out@) =~= row_cells(needs@, budget));
    out
}

proof fn picks_are_small(needs: Seq<u64>, budget: u64)
    requires
        needs.len() == RUNGS,
    ensures
        suggested(needs, budget) is Some ==> suggested(needs, budget)->0 <= 671,
{
}

/// Adds the block of a budget to a report. `size` is the text of the budget.
pub fn push_suggestion_block(
    out: &mut String,
    label: &str,
    budget: u64,
    size: &str,
    needs: &Vec<Vec<Vec<u64>>>,
)
    requires
        covers(needs@),
    ensures
        final(out)@ == old(out)@ + block_text(label@, budget, size@, needs@),
{
    let ghost start = out@;
    let heads = column_heads();
    let lines = column_rules(&heads);
    out.append("\n");
    out.append(label);
    out.append("\n  Estimated budget : ");
    out.append(size);
    out.append("\n\n  Context  ");
    out.append(join_strings(&heads, "  ").as_str());
    out.append("\n  -------  ");
    out.append(join_strings(&lines, "  ").as_str());
    out.append("\n");
    let ghost top = out@;
    let tokens = context_ladder();
    let mut c: usize = 0;
    assert(top + rows_text(needs@, budget, 0) =~= top);
    while c < CONTEXTS
        invariant
            c <= CONTEXTS,
            covers(needs@),
            tokens@ == contexts(),
            text::texts(heads@) == headers(),
            out@ == top + rows_text(needs@, budget, c as nat),
        decreases CONTEXTS - c,
    {
        let mut label = decimal(tokens[c] / 1024);
        label.append("K");
        let cells = row(&heads, &needs[c], budget);
        let ghost before = out@;
        out.append("  ");
        push_padded(out, label.as_str(), 7);
        out.append("  ");
        out.append(join_strings(&cells, "  ").as_str());
        out.append("\n");
        assert(out@ =~= before + row_text(contexts()[c as int], needs@[c as int]@, budget));
        c += 1;
        assert(out@ =~= top + rows_text(needs@, budget, c as nat));
    }
    assert(out@ =~= start + block_text(label@, budget, size@, needs@));
}

/// The whole report: the one on the hardware, and a block for each of the two
/// budgets. `own_size` and `common_size` are the texts of the budgets.
pub fn format_suggestion(
    hardware: &str,
    cpu: &CpuInfo,
    gpus: &[GpuInfo],
    windows: bool,
    own_size: &str,
    common_size: &str,
    needs: &Vec<Vec<Vec<u64>>>,
) -> (r: String)
    requires
        covers(needs@),
        common_memory(gpus@, windows) <= u64::MAX,
    ensures
        r@ == hardware@ + block_text(
            "Suggested model size (Dedicated)"@,
            own_memory(gpus@, windows) as u64,
            own_size@,
            needs@,
        ) + block_text(
            "Suggested model size (Combined)"@,
            combined_budget(cpu.total_memory_bytes, gpus@, windows) as u64,
            common_size@,
            needs@,
        ),
{
    proof {
        own_is_common(gpus@, windows);
    }
    let mut out = hardware.to_owned();
    push_suggestion_block(
        &mut out,
        "Suggested model size (Dedicated)",
        dedicated_vram_budget_bytes(gpus, windows),
        own_size,
        needs,
    );
    push_suggestion_block(
        &mut out,
        "Suggested model size (Combined)",
        combined_gpu_budget_bytes(cpu, gpus, windows),
        common_size,
        needs,
    );
    out
}

/// Memory that a graphics processor has for itself counts among all of it.
pub proof fn own_is_common(gpus: Seq<GpuInfo>, windows: bool)
    ensures
        own_memory(gpus, windows) <= common_memory(gpus, windows),
    decreases gpus.len(),
{
    if gpus.len() > 0 {
        own_is_common(gpus.drop_last(), windows);
    }
}

/// Each rung of the ladder is smaller than those before it.
pub proof fn ladder_descends(i: int, j: int)
    requires
        0 <= i < j < RUNGS,
    ensures
        ladder()[i] > ladder()[j],
    decreases j - i,
{
    if i + 1 < j {
        ladder_descends(i, j - 1);
    }
    assert(ladder()[j - 1] > ladder()[j]);
}

/// What is suggested is the largest size of the ladder that fits.
pub proof fn suggestion_is_the_largest_fit(needs: Seq<u64>, budget: u64, j: int)
    requires
        needs.len() == RUNGS,
        0 <= j < RUNGS,
        needs[j] <= budget,
    ensures
        suggested(needs, budget) is Some,
        suggested(needs, budget)->0 >= ladder()[j],
        exists|i: int| is_first_fit(needs, budget, i) && suggested(needs, budget) == Some(
            ladder()[i],
        ),
{
    let i = first_fit(needs, budget, j);
    let c = choose|k: int| is_first_fit(needs, budget, k);
    assert(is_first_fit(needs, budget, c));
    if c < j {
        ladder_descends(c, j);
    }
}

proof fn first_fit(needs: Seq<u64>, budget: u64, j: int) -> (i: int)
    requires
        0 <= j < needs.len(),
        needs[j] <= budget,
    ensures
        is_first_fit(needs, budget, i),
        i <= j,
    decreases j,
{
    if exists|k: int| 0 <= k < j && (#[trigger] needs[k]) <= budget {
        let k = choose|k: int| 0 <= k < j && (#[trigger] needs[k]) <= budget;
        first_fit(needs, budget, k)
    } else {
        j
    }
}

/// The suggestion does not grow where no need shrinks, as with a longer context or
/// more bits for a weight, and it does not shrink where the budget grows.
pub proof fn suggestion_follows_need_and_budget(
    needs: Seq<u64>,
    more: Seq<u64>,
    budget: u64,
    larger: u64,
)
    requires
        needs.len() == RUNGS,
        more.len() == RUNGS,
        forall|i: int| 0 <= i < RUNGS ==> needs[i] <= #[trigger] more[i],
        budget <= larger,
        suggested(more, budget) is Some,
    ensures
        suggested(needs, larger) is Some,
        suggested(needs, larger)->0 >= suggested(more, budget)->0,
{
    let c = choose|k: int| is_first_fit(more, budget, k);
    assert(is_first_fit(more, budget, c));
    assert(needs[c] <= more[c]);
    suggestion_is_the_largest_fit(needs, larger, c);
}

/// The memory of graphics processors adds up: a dedicated one counts with all of its memory, a
/// shared one only where all count together, and one of an unknown kind under Windows from a
/// gigabyte on.
pub proof fn memory_adds_up(gpus: Seq<GpuInfo>, g: GpuInfo, windows: bool, size: nat)
    requires
        g.vram_total_bytes is Some && g.vram_total_bytes->0 == size || g.vram_total_bytes is None
            && size == 0,
    ensures
        own_memory(Seq::empty(), windows) == 0,
        common_memory(Seq::empty(), windows) == 0,
        g.memory_kind == MemoryKind::Dedicated ==> own_memory(gpus.push(g), windows) == own_memory(
            gpus,
            windows,
        ) + size && common_memory(gpus.push(g), windows) == common_memory(gpus, windows) + size,
        g.memory_kind == MemoryKind::Shared ==> own_memory(gpus.push(g), windows) == own_memory(
            gpus,
            windows,
        ) && common_memory(gpus.push(g), windows) == common_memory(gpus, windows) + size,
        g.memory_kind == MemoryKind::Unknown && windows && size >= 1024 * 1024 * 1024 ==> own_memory(
            gpus.push(g),
            windows,
        ) == own_memory(gpus, windows) + size && common_memory(gpus.push(g), windows)
            == common_memory(gpus, windows) + size,
        g.memory_kind == MemoryKind::Unknown && (!windows || size < 1024 * 1024 * 1024)
            ==> own_memory(gpus.push(g), windows) == own_memory(gpus, windows) && common_memory(
            gpus.push(g),
            windows,
        ) == common_memory(gpus, windows),
{
    assert(gpus.push(g).drop_last() =~= gpus);
}

/// The machine's own memory is what all devices have together exactly where no memory of a
/// graphics processor counts.
pub proof fn the_machine_stands_in_for_graphics(total: u64, gpus: Seq<GpuInfo>, windows: bool)
    ensures
        common_memory(gpus, windows) == 0 ==> combined_budget(total, gpus, windows) == total,
        common_memory(gpus, windows) > 0 ==> combined_budget(total, gpus, windows) == common_memory(
            gpus,
            windows,
        ),
{
}

/// Each length of context is twice the one before it, from one thousand and twenty-four on.
pub proof fn contexts_double(i: int)
    requires
        0 <= i < CONTEXTS,
    ensures
        contexts().len() == CONTEXTS,
        contexts()[0] == 1024,
        i + 1 < CONTEXTS ==> contexts()[i + 1] == 2 * contexts()[i],
{
}

/// Where nothing fits nothing is suggested.
pub proof fn nothing_is_suggested_that_does_not_fit(needs: Seq<u64>, budget: u64, i: int)
    requires
        needs.len() == RUNGS,
    ensures
        (forall|j: int| 0 <= j < RUNGS ==> (#[trigger] needs[j]) > budget) ==> suggested(
            needs,
            budget,
        ) is None,
        0 <= i < RUNGS && needs[i] <= budget && (forall|j: int|
            0 <= j < i ==> (#[trigger] needs[j]) > budget) ==> suggested(needs, budget) == Some(
            ladder()[i],
        ),
{
    if 0 <= i < RUNGS && needs[i] <= budget && (forall|j: int|
        0 <= j < i ==> (#[trigger] needs[j]) > budget) {
        assert(is_first_fit(needs, budget, i));
        let c = choose|k: int| is_first_fit(needs, budget, k);
        assert(is_first_fit(needs, budget, c));
        assert(c == i);
    }
}

/// A size is written in billions: as a whole number, or with one decimal.
pub proof fn sizes_are_written_in_billions(n: nat, d: nat)
    requires
        d < 10,
    ensures
        size_text(true, 10 * n) == text::decimal_text(n) + "B"@,
        size_text(false, 10 * n + d) == text::decimal_text(n) + "."@ + text::decimal_text(d) + "B"@,
{
    assert((10 * n) / 10 == n);
    assert((10 * n + d) / 10 == n && (10 * n + d) % 10 == d);
}

/// A row tells its length of context in thousands and then what is suggested for it; the rows
/// follow the lengths of context.
pub proof fn rows_follow_the_contexts(
    k: u64,
    needs: Seq<Vec<u64>>,
    all: Seq<Vec<Vec<u64>>>,
    budget: u64,
    n: nat,
)
    requires
        k <= 256,
        n < CONTEXTS,
    ensures
        row_text((1024 * k) as u64, needs, budget) == "  "@ + text::padded(
            text::decimal_text(k as nat) + "K"@,
            7,
        ) + "  "@ + text::joined(row_cells(needs, budget), "  "@) + "\n"@,
        rows_text(all, budget, 0) == Seq::<char>::empty(),
        rows_text(all, budget, n + 1) == rows_text(all, budget, n) + row_text(
            contexts()[n as int],
            all[n as int]@,
            budget,
        ),
{
    assert((1024 * k) / 1024 == k);
}

/// What is suggested is written as about so many billions of parameters, and as a dash where
/// nothing is.
pub proof fn suggestions_are_written_in_billions(n: u64)
    requires
        n <= 671,
    ensures
        suggestion_text(Some(n)) == "~"@ + (text::decimal_text(n as nat) + "B"@) + " parameters"@,
        suggestion_text(None) == "-"@,
{
    assert((n * 10) / 10 == n as int);
}

} // verus!
