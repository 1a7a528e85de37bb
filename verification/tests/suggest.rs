use orangu_server::suggest::{
    combined_gpu_budget_bytes, context_ladder, dedicated_vram_budget_bytes, format_param_count,
    format_suggestion, param_ladder_billions, suggest_param_count, CpuFeatures, CpuInfo, GpuInfo,
    MemoryKind, WINDOWS_UNKNOWN_DEDICATED_THRESHOLD_BYTES,
};

const GIB: u64 = 1024 * 1024 * 1024;

const DEFAULT_BITS_PER_WEIGHT: f64 = 4.83;

fn gpu(memory_kind: MemoryKind, vram_total_bytes: Option<u64>) -> GpuInfo {
    GpuInfo {
        vendor: "Test".to_string(),
        name: "Test GPU".to_string(),
        vram_total_bytes,
        vram_used_bytes: None,
        driver: None,
        memory_kind,
    }
}

fn cpu(total_memory_bytes: u64) -> CpuInfo {
    CpuInfo {
        brand: "Test CPU".to_string(),
        vendor: String::new(),
        arch: "x86_64".to_string(),
        physical_cores: Some(8),
        logical_cores: 16,
        frequency_mhz: 0,
        total_memory_bytes,
        available_memory_bytes: total_memory_bytes,
        features: CpuFeatures { sse4_2: false, avx2: false, avx512f: false },
    }
}

/// What a model of that many billions of parameters needs: its weights, the
/// runtime, the cache of its context and room to compute.
fn need(billions: f64, bits_per_weight: f64, context: u64) -> u64 {
    let params = billions * 1e9;
    let hidden = (params / 12.0).sqrt();
    let layers = (params / (12.0 * hidden * hidden)).round();
    let context = context as f64;
    (params * bits_per_weight / 8.0
        + (500u64 * 1024 * 1024) as f64
        + context * 2.0 * layers * hidden
        + context * hidden * 3.0 * (bits_per_weight / 8.0)) as u64
}

fn needs(context: u64, bits_per_weight: f64) -> Vec<u64> {
    param_ladder_billions().iter().map(|&b| need(b as f64, bits_per_weight, context)).collect()
}

fn all_needs() -> Vec<Vec<Vec<u64>>> {
    context_ladder()
        .iter()
        .map(|&c| [3.0, DEFAULT_BITS_PER_WEIGHT, 8.5].iter().map(|&b| needs(c, b)).collect())
        .collect()
}

#[test]
fn suggest_param_count_picks_the_largest_that_fits() {
    let n = needs(8192, DEFAULT_BITS_PER_WEIGHT);
    assert_eq!(suggest_param_count(3 * GIB / 2, &n), Some(1));
    assert_eq!(suggest_param_count(1024 * GIB, &n), Some(671));
    assert_eq!(suggest_param_count(1024, &n), None);
}

#[test]
fn suggest_param_count_shrinks_as_context_grows() {
    let budget = 24 * GIB;
    let short_ctx = suggest_param_count(budget, &needs(4096, DEFAULT_BITS_PER_WEIGHT)).unwrap();
    let long_ctx = suggest_param_count(budget, &needs(262144, DEFAULT_BITS_PER_WEIGHT)).unwrap();
    assert!(long_ctx <= short_ctx);
}

#[test]
fn suggest_param_count_shrinks_as_quantization_gets_heavier() {
    let budget = 24 * GIB;
    let q2 = suggest_param_count(budget, &needs(8192, 3.00)).unwrap();
    let q8 = suggest_param_count(budget, &needs(8192, 8.5)).unwrap();
    assert!(q8 <= q2);
}

#[test]
fn dedicated_vram_budget_bytes_sums_multiple_dedicated_gpus() {
    let gpus = vec![
        gpu(MemoryKind::Dedicated, Some(24 * GIB)),
        gpu(MemoryKind::Dedicated, Some(24 * GIB)),
    ];
    assert_eq!(dedicated_vram_budget_bytes(&gpus, false), 48 * GIB);
}

#[test]
fn dedicated_vram_budget_bytes_ignores_currently_used_vram() {
    let gpus = vec![GpuInfo {
        vendor: "Test".to_string(),
        name: "Test GPU 1".to_string(),
        vram_total_bytes: Some(24 * GIB),
        vram_used_bytes: Some(4 * GIB),
        driver: None,
        memory_kind: MemoryKind::Dedicated,
    }];
    assert_eq!(dedicated_vram_budget_bytes(&gpus, false), 24 * GIB);
}

#[test]
fn dedicated_vram_budget_bytes_ignores_shared_and_unknown() {
    let gpus = vec![
        gpu(MemoryKind::Dedicated, Some(24 * GIB)),
        gpu(MemoryKind::Shared, Some(64 * GIB)),
        gpu(MemoryKind::Unknown, Some(999 * GIB)),
    ];
    assert_eq!(dedicated_vram_budget_bytes(&gpus, false), 24 * GIB);
}

#[test]
fn dedicated_vram_budget_bytes_trusts_unknown_above_threshold_on_windows() {
    let gpus = vec![
        gpu(MemoryKind::Dedicated, Some(4 * GIB)),
        gpu(MemoryKind::Unknown, Some(WINDOWS_UNKNOWN_DEDICATED_THRESHOLD_BYTES)),
    ];
    assert_eq!(
        dedicated_vram_budget_bytes(&gpus, true),
        4 * GIB + WINDOWS_UNKNOWN_DEDICATED_THRESHOLD_BYTES
    );
}

#[test]
fn dedicated_vram_budget_bytes_ignores_unknown_below_threshold_on_windows() {
    let gpus = vec![
        gpu(MemoryKind::Dedicated, Some(4 * GIB)),
        gpu(MemoryKind::Unknown, Some(WINDOWS_UNKNOWN_DEDICATED_THRESHOLD_BYTES - 1)),
    ];
    assert_eq!(dedicated_vram_budget_bytes(&gpus, true), 4 * GIB);
}

#[test]
fn dedicated_vram_budget_bytes_is_zero_without_a_dedicated_gpu() {
    let gpus = vec![gpu(MemoryKind::Shared, Some(32 * GIB))];
    assert_eq!(dedicated_vram_budget_bytes(&gpus, false), 0);
    assert_eq!(dedicated_vram_budget_bytes(&[], false), 0);
}

#[test]
fn combined_gpu_budget_bytes_sums_dedicated_and_shared() {
    let gpus = vec![
        gpu(MemoryKind::Dedicated, Some(4 * GIB)),
        gpu(MemoryKind::Shared, Some(64 * GIB)),
    ];
    assert_eq!(combined_gpu_budget_bytes(&cpu(64 * GIB), &gpus, false), 68 * GIB);
}

#[test]
fn combined_gpu_budget_bytes_ignores_currently_used_vram() {
    let gpus = vec![GpuInfo {
        vendor: "Test".to_string(),
        name: "Test GPU 1".to_string(),
        vram_total_bytes: Some(4 * GIB),
        vram_used_bytes: Some(GIB),
        driver: None,
        memory_kind: MemoryKind::Dedicated,
    }];
    assert_eq!(combined_gpu_budget_bytes(&cpu(64 * GIB), &gpus, false), 4 * GIB);
}

#[test]
fn combined_gpu_budget_bytes_ignores_unknown_gpus() {
    let gpus = vec![
        gpu(MemoryKind::Dedicated, Some(4 * GIB)),
        gpu(MemoryKind::Unknown, Some(999 * GIB)),
    ];
    assert_eq!(combined_gpu_budget_bytes(&cpu(64 * GIB), &gpus, false), 4 * GIB);
}

#[test]
fn combined_gpu_budget_bytes_includes_unknown_above_threshold_on_windows() {
    let gpus = vec![
        gpu(MemoryKind::Dedicated, Some(4 * GIB)),
        gpu(MemoryKind::Unknown, Some(WINDOWS_UNKNOWN_DEDICATED_THRESHOLD_BYTES)),
    ];
    assert_eq!(
        combined_gpu_budget_bytes(&cpu(64 * GIB), &gpus, true),
        4 * GIB + WINDOWS_UNKNOWN_DEDICATED_THRESHOLD_BYTES
    );
}

#[test]
fn combined_gpu_budget_bytes_falls_back_to_system_ram_below_threshold_on_windows() {
    let gpus = vec![gpu(
        MemoryKind::Unknown,
        Some(WINDOWS_UNKNOWN_DEDICATED_THRESHOLD_BYTES - 1),
    )];
    assert_eq!(combined_gpu_budget_bytes(&cpu(16 * GIB), &gpus, true), 16 * GIB);
}

#[test]
fn combined_gpu_budget_bytes_falls_back_to_system_ram_without_any_gpu() {
    assert_eq!(combined_gpu_budget_bytes(&cpu(16 * GIB), &[], false), 16 * GIB);
}

#[test]
fn format_param_count_drops_the_decimal_for_whole_numbers() {
    let text = |v: f64| format_param_count(v.fract() == 0.0, (v * 10.0).round() as u64);
    assert_eq!(text(7.0), "7B");
    assert_eq!(text(4.83), "4.8B");
}

#[test]
fn format_suggestion_includes_hardware_report_and_both_suggestions() {
    let gpus = vec![
        gpu(MemoryKind::Dedicated, Some(4 * GIB)),
        gpu(MemoryKind::Shared, Some(64 * GIB)),
    ];
    let report = format_suggestion(
        "CPU Test CPU\nGPU Test GPU\n",
        &cpu(64 * GIB),
        &gpus,
        false,
        "4.00 GiB",
        "68.00 GiB",
        &all_needs(),
    );
    assert!(report.contains("CPU"));
    assert!(report.contains("GPU"));
    assert!(report.contains("Suggested model size (Dedicated)"));
    assert!(report.contains("Suggested model size (Combined)"));
    assert!(report.contains("Suggestion (Q2_K)"));
    assert!(report.contains("Suggestion (Q4_K_M)"));
    assert!(report.contains("Suggestion (Q8_0)"));

    let dedicated_section = report
        .split("(Dedicated)")
        .nth(1)
        .and_then(|rest| rest.split("(Combined)").next())
        .unwrap();
    assert!(dedicated_section.contains("4.00 GiB"));
}

#[test]
fn the_table_is_laid_out_in_columns() {
    let gpus = vec![gpu(MemoryKind::Dedicated, Some(4 * GIB))];
    let report = format_suggestion("", &cpu(0), &gpus, false, "4.00 GiB", "4.00 GiB", &all_needs());
    let lines: Vec<&str> = report.lines().collect();
    assert_eq!(lines[1], "Suggested model size (Dedicated)");
    assert_eq!(lines[2], "  Estimated budget : 4.00 GiB");
    assert_eq!(lines[4], "  Context  Suggestion (Q2_K)  Suggestion (Q4_K_M)  Suggestion (Q8_0)");
    assert_eq!(lines[5], "  -------  -----------------  -------------------  -----------------");
    assert_eq!(lines[6], "  1K       ~9B parameters     ~4B parameters       ~3B parameters   ");
    assert_eq!(lines[11], "  32K      ~4B parameters     ~2B parameters       ~1B parameters   ");
    assert_eq!(lines[14], "  256K     -                  -                    -                ");
}

#[test]
fn a_larger_budget_suggests_no_smaller_model() {
    let n = needs(8192, DEFAULT_BITS_PER_WEIGHT);
    let mut last = 0;
    for gib in 1..600 {
        let pick = suggest_param_count(gib * GIB, &n).unwrap_or(0);
        assert!(pick >= last);
        last = pick;
    }
}
