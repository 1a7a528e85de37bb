use orangu_server::gguf::{GgufFile, GgufTensor, GgufValue};
use orangu_server::loader::tensors::{tensors_are_countable, LoadedModel};
use orangu_server::loader::{
    gemma_architectures, llama_style_architectures, qwen35moe_architectures, read_model_config,
    resolve_arch_family, ArchFamily, LoadError, PoolingType,
};
use orangu_server::quant::{Element, GGML_TYPE_F32, GGML_TYPE_Q8_0};

#[test]
fn resolve_arch_family_accepts_llama_style_architectures() {
    for arch in llama_style_architectures() {
        assert_eq!(resolve_arch_family(arch).unwrap(), ArchFamily::LlamaStyle);
    }
}

#[test]
fn resolve_arch_family_accepts_gemma_architectures() {
    for arch in gemma_architectures() {
        assert_eq!(resolve_arch_family(arch).unwrap(), ArchFamily::Gemma);
    }
}

#[test]
fn resolve_arch_family_accepts_qwen35moe() {
    for arch in qwen35moe_architectures() {
        assert_eq!(resolve_arch_family(arch).unwrap(), ArchFamily::Qwen35Moe);
    }
}

#[test]
fn resolve_arch_family_rejects_unknown_architectures() {
    let err = resolve_arch_family("bert").unwrap_err();
    assert!(err.message().contains("not yet supported"), "{}", err.message());
}

#[test]
fn an_unknown_architecture_is_told_which_are_known() {
    assert_eq!(
        resolve_arch_family("bert").unwrap_err().message(),
        "architecture 'bert' is not yet supported by orangu-server (supported: llama, qwen2, \
         qwen3, mistral, qwen3vl, gemma, gemma2, gemma3, gemma4, gemma-embedding, qwen35moe)"
    );
    assert_eq!(llama_style_architectures().len(), 5);
    assert_eq!(gemma_architectures().len(), 5);
    assert_eq!(qwen35moe_architectures(), vec!["qwen35moe"]);
}

fn entry(key: &str, value: GgufValue) -> (String, GgufValue) {
    (key.to_string(), value)
}

fn metadata() -> Vec<(String, GgufValue)> {
    vec![
        entry("general.architecture", GgufValue::String("llama".to_string())),
        entry("llama.embedding_length", GgufValue::U32(64)),
        entry("llama.block_count", GgufValue::U32(2)),
        entry("llama.attention.head_count", GgufValue::U32(4)),
        entry("llama.context_length", GgufValue::U64(512)),
        entry("llama.vocab_size", GgufValue::U32(10)),
    ]
}

fn file(tensors: Vec<GgufTensor>) -> GgufFile {
    GgufFile { version: 3, metadata: metadata(), tensors, alignment: 32, data_offset: 8 }
}

fn tensor(name: &str, dims: &[u64], ggml_type: u32, offset: u64) -> GgufTensor {
    GgufTensor { name: name.to_string(), dims: dims.to_vec(), ggml_type, offset }
}

#[test]
fn hyperparameters_have_defaults() {
    let c = read_model_config(&metadata(), "llama").unwrap();
    assert_eq!(c.architecture, "llama");
    assert_eq!((c.n_embd, c.n_layer, c.n_head, c.n_head_kv), (64, 2, 4, 4));
    assert_eq!((c.n_ctx_train, c.n_vocab, c.rope_dim), (512, 10, 16));
    assert_eq!(f32::from_bits(c.rope_freq_base), 10000.0);
    assert_eq!(f32::from_bits(c.rms_eps), 1e-5);
    assert_eq!(c.pooling_type, PoolingType::Mean);
}

#[test]
fn hyperparameters_are_read() {
    let mut m = metadata();
    m.push(entry("llama.attention.head_count_kv", GgufValue::U32(2)));
    m.push(entry("llama.rope.dimension_count", GgufValue::U32(8)));
    m.push(entry("llama.rope.freq_base", GgufValue::F32(500000.0f32.to_bits())));
    m.push(entry("llama.pooling_type", GgufValue::U32(3)));
    let c = read_model_config(&m, "llama").unwrap();
    assert_eq!((c.n_head_kv, c.rope_dim), (2, 8));
    assert_eq!(f32::from_bits(c.rope_freq_base), 500000.0);
    assert_eq!(c.pooling_type, PoolingType::Last);
}

#[test]
fn the_vocabulary_is_counted_where_its_size_is_not_set() {
    let mut m = metadata();
    m.pop();
    assert!(matches!(read_model_config(&m, "llama"), Err(LoadError::MissingVocab)));
    m.push(entry(
        "tokenizer.ggml.tokens",
        GgufValue::Array(vec![GgufValue::String("a".to_string()), GgufValue::U8(1)]),
    ));
    assert_eq!(read_model_config(&m, "llama").unwrap().n_vocab, 2);
}

#[test]
fn missing_hyperparameters_are_named() {
    let mut m = metadata();
    m.remove(2);
    assert_eq!(
        read_model_config(&m, "llama").unwrap_err().message(),
        "GGUF file is missing llama.block_count"
    );
    let mut m = metadata();
    m[3].1 = GgufValue::U32(0);
    let err = read_model_config(&m, "llama").unwrap_err();
    assert_eq!(err.message(), "llama.attention.head_count(_kv) must be nonzero");
    assert_eq!(
        LoadError::MissingVocab.message(),
        "GGUF file has no vocab_size and no tokenizer.ggml.tokens"
    );
}

#[test]
fn a_file_without_an_architecture_is_refused() {
    let mut g = file(vec![]);
    g.metadata.remove(0);
    match LoadedModel::open(g, 100) {
        Err(e) => assert_eq!(e.message(), "GGUF file is missing general.architecture"),
        Ok(_) => panic!("no architecture"),
    }
}

#[test]
fn tensors_past_the_end_are_refused() {
    let g = file(vec![tensor("w", &[4, 2], GGML_TYPE_F32, 0)]);
    match LoadedModel::open(g, 39) {
        Err(e) => assert_eq!(e.message(), "tensor 'w' extends past the end of the file"),
        Ok(_) => panic!("40 bytes in 39"),
    }
    assert!(LoadedModel::open(file(vec![tensor("w", &[4, 2], GGML_TYPE_F32, 0)]), 40).is_ok());
}

#[test]
fn tensors_of_unknown_types_are_refused() {
    match LoadedModel::open(file(vec![tensor("w", &[4], 99, 0)]), 1000) {
        Err(e) => assert_eq!(e.message(), "tensor 'w'"),
        Ok(_) => panic!("type 99"),
    }
}

#[test]
fn sizes_that_cannot_be_counted_are_noticed() {
    assert!(tensors_are_countable(&file(vec![tensor("w", &[4, 2], GGML_TYPE_F32, 0)])));
    assert!(!tensors_are_countable(&file(vec![tensor(
        "w",
        &[1 << 40, 1 << 40],
        GGML_TYPE_F32,
        0
    )])));
    assert!(!tensors_are_countable(&file(vec![tensor("w", &[1 << 62], GGML_TYPE_F32, 0)])));
    assert!(!tensors_are_countable(&file(vec![tensor("w", &[1], GGML_TYPE_F32, u64::MAX)])));
}

fn single(e: &Element) -> f32 {
    match e {
        Element::Single(bits) => f32::from_bits(*bits),
        _ => panic!("not a single"),
    }
}

#[test]
fn rows_are_parts_of_the_tensor() {
    let mut bytes = vec![0u8; 8];
    for i in 0..12 {
        bytes.extend_from_slice(&(i as f32).to_le_bytes());
    }
    let g = file(vec![
        tensor("w", &[4, 3], GGML_TYPE_F32, 0),
        tensor("e", &[2, 3, 2], GGML_TYPE_F32, 0),
    ]);
    let m = LoadedModel::open(g, bytes.len()).unwrap();
    let (all, dims) = m.tensor(&bytes, "w").unwrap();
    assert_eq!(dims, &vec![4, 3]);
    assert_eq!(all.iter().map(single).collect::<Vec<_>>()[11], 11.0);
    let w = m.matrix("w").unwrap();
    assert_eq!((w.in_dim, w.out_dim, w.row_bytes()), (4, 3, 16));
    for r in 0..3 {
        let row = w.row(&bytes, r);
        assert_eq!(row, all[r * 4..r * 4 + 4]);
    }
    assert_eq!(w.raw_bytes(&bytes), &bytes[8..56]);
    assert_eq!(w.ggml_type(), GGML_TYPE_F32);
    assert_eq!(w.cache_key(1000), (1000, 8));
    let e = m.expert_matrix("e").unwrap();
    assert_eq!(e.n_expert, 2);
    assert_eq!(e.row(&bytes, 1, 2).iter().map(single).collect::<Vec<_>>(), vec![10.0, 11.0]);
}

#[test]
fn only_matrices_are_read_as_matrices() {
    let g = file(vec![
        tensor("v", &[4], GGML_TYPE_F32, 0),
        tensor("q", &[16, 2], GGML_TYPE_Q8_0, 0),
    ]);
    let m = LoadedModel::open(g, 100).unwrap();
    assert!(m.has_tensor("v"));
    assert!(!m.has_tensor("x"));
    assert_eq!(m.matrix("x").unwrap_err().message(), "model is missing tensor 'x'");
    assert_eq!(m.matrix("v").unwrap_err().message(), "tensor 'v' is not a 2D matrix (dims: [4])");
    assert_eq!(
        m.expert_matrix("q").unwrap_err().message(),
        "tensor 'q' is not a 3D stacked-expert tensor (dims: [16, 2])"
    );
    assert!(matches!(m.matrix("q"), Err(LoadError::Tensor { .. })));
}

#[test]
fn the_later_of_two_tensors_of_one_name_counts() {
    let g = file(vec![
        tensor("v", &[1], GGML_TYPE_F32, 0),
        tensor("v", &[1], GGML_TYPE_F32, 4),
    ]);
    let mut bytes = vec![0u8; 8];
    bytes.extend_from_slice(&1.0f32.to_le_bytes());
    bytes.extend_from_slice(&2.0f32.to_le_bytes());
    let m = LoadedModel::open(g, bytes.len()).unwrap();
    assert_eq!(single(&m.tensor(&bytes, "v").unwrap().0[0]), 2.0);
}

#[test]
fn further_hyperparameters_are_looked_up_by_their_suffix() {
    let mut g = file(vec![]);
    g.metadata.push(entry("llama.x", GgufValue::U16(7)));
    g.metadata.push(entry("llama.f", GgufValue::F64 { bits: 0, single: 1.5f32.to_bits() }));
    g.metadata.push(entry(
        "llama.list",
        GgufValue::Array(vec![GgufValue::Bool(true), GgufValue::F32(0), GgufValue::I8(-1)]),
    ));
    let m = LoadedModel::open(g, 10).unwrap();
    assert_eq!(m.metadata_u64("x"), Some(7));
    assert_eq!(m.metadata_u64("y"), None);
    assert_eq!(m.metadata_f32("f").map(f32::from_bits), Some(1.5));
    assert_eq!(m.metadata_array_u64("list"), Some(vec![1]));
    assert_eq!(m.metadata_array_u64("x"), None);
}

#[test]
fn only_the_size_of_a_whole_tensor_has_to_be_counted() {
    let g = file(vec![
        tensor("w", &[1 << 62, 0], GGML_TYPE_F32, 0),
        tensor("e", &[4, 1 << 62, 0], GGML_TYPE_F32, 0),
        tensor("m", &[4, 2], GGML_TYPE_F32, 0),
    ]);
    assert!(!tensors_are_countable(&g));
    let g = file(vec![
        tensor("w", &[1 << 62, 0], GGML_TYPE_F32, 0),
        tensor("e", &[4, 1 << 61, 0], GGML_TYPE_F32, 0),
        tensor("m", &[4, 2], GGML_TYPE_F32, 0),
    ]);
    assert!(tensors_are_countable(&g));
    let m = LoadedModel::open(g, 40).unwrap();
    let bytes = vec![0u8; 40];
    let (all, dims) = m.tensor(&bytes, "w").unwrap();
    assert!(all.is_empty());
    assert_eq!(dims, &vec![1 << 62, 0]);
    assert!(!m.has_countable_rows("w", 2));
    assert!(!m.has_countable_rows("e", 3));
    assert!(m.has_countable_rows("w", 3) && m.has_countable_rows("none", 2));
    assert!(m.has_countable_rows("m", 2));
    assert_eq!(m.matrix("m").unwrap().row_bytes(), 16);
}
