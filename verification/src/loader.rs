//! What a model file's header says of the model: its hyperparameters, and where
//! each tensor lies in the file.

use vstd::prelude::*;

use crate::gguf;
use crate::gguf::GgufValue;

use crate::quant::QuantError;
use crate::text;
use crate::text::{join, join_decimals, listed};

pub mod matrix;
pub mod tensors;

verus! {

/// The base of the rotary frequencies where a file sets none: ten thousand, in
/// single precision.
pub const DEFAULT_ROPE_FREQ_BASE: u32 = 0x461c_4000;

/// The term that keeps the norm's root from zero where a file sets none: one
/// hundred-thousandth, in single precision.
pub const DEFAULT_RMS_EPS: u32 = 0x3727_c5ac;

/// How the hidden states of a text become one embedding.
#[derive(Debug, Clone, Copy, PartialEq, Eq, Structural)]
pub enum PoolingType {
    Mean,
    Last,
}

/// The families of architectures that a forward pass exists for.
#[derive(Debug, Clone, Copy, PartialEq, Eq, Structural)]
pub enum ArchFamily {
    /// Grouped-query attention, rotary positions, root-mean-square norms and a
    /// gated feed-forward part.
    LlamaStyle,
    /// Norms on queries and keys, sliding windows, and capped logits.
    Gemma,
    /// Alternating full and linear attention, with routed experts.
    Qwen35Moe,
}

/// A model's hyperparameters. Floats are held as the bits of their single
/// precision encoding.
#[derive(Debug)]
pub struct ModelConfig {
    pub architecture: String,
    pub n_vocab: usize,
    pub n_embd: usize,
    pub n_layer: usize,
    pub n_head: usize,
    pub n_head_kv: usize,
    pub n_ctx_train: usize,
    pub rope_dim: usize,
    pub rope_freq_base: u32,
    pub rms_eps: u32,
    pub pooling_type: PoolingType,
}

/// What a model's hyperparameters are.
pub struct Config {
    pub architecture: Seq<char>,
    pub n_vocab: usize,
    pub n_embd: usize,
    pub n_layer: usize,
    pub n_head: usize,
    pub n_head_kv: usize,
    pub n_ctx_train: usize,
    pub rope_dim: usize,
    pub rope_freq_base: u32,
    pub rms_eps: u32,
    pub pooling_type: PoolingType,
}

impl View for ModelConfig {
    type V = Config;

    open spec fn view(&self) -> Config {
        Config {
            architecture: self.architecture@,
            n_vocab: self.n_vocab,
            n_embd: self.n_embd,
            n_layer: self.n_layer,
            n_head: self.n_head,
            n_head_kv: self.n_head_kv,
            n_ctx_train: self.n_ctx_train,
            rope_dim: self.rope_dim,
            rope_freq_base: self.rope_freq_base,
            rms_eps: self.rms_eps,
            pooling_type: self.pooling_type,
        }
    }
}

/// Why a model cannot be loaded, or a tensor of it not be had.
#[derive(Debug)]
pub enum LoadError {
    /// The file does not name its architecture.
    MissingArchitecture,
    /// No forward pass exists for the architecture.
    UnsupportedArchitecture { architecture: String },
    /// A hyperparameter is missing.
    MissingKey { key: String },
    /// Neither a vocabulary size nor a list of tokens is there.
    MissingVocab,
    /// A number of heads is zero.
    ZeroHeads { architecture: String },
    /// A tensor's type or size cannot be read.
    Tensor { name: String, cause: QuantError },
    /// A tensor does not lie within the file.
    PastEnd { name: String },
    /// The model has no tensor of that name.
    MissingTensor { name: String },
    /// The tensor does not have two dimensions.
    NotMatrix { name: String, dims: Vec<u64> },
    /// The tensor does not have three dimensions.
    NotStacked { name: String, dims: Vec<u64> },
}

/// What a [`LoadError`] says.
pub enum LoadFault {
    MissingArchitecture,
    UnsupportedArchitecture(Seq<char>),
    MissingKey(Seq<char>),
    MissingVocab,
    ZeroHeads(Seq<char>),
    Tensor(Seq<char>, QuantError),
    PastEnd(Seq<char>),
    MissingTensor(Seq<char>),
    NotMatrix(Seq<char>, Seq<u64>),
    NotStacked(Seq<char>, Seq<u64>),
}

impl View for LoadError {
    type V = LoadFault;

    open spec fn view(&self) -> LoadFault {
        match *self {
            LoadError::MissingArchitecture => LoadFault::MissingArchitecture,
            LoadError::UnsupportedArchitecture { architecture } =>
                LoadFault::UnsupportedArchitecture(architecture@),
            LoadError::MissingKey { key } => LoadFault::MissingKey(key@),
            LoadError::MissingVocab => LoadFault::MissingVocab,
            LoadError::ZeroHeads { architecture } => LoadFault::ZeroHeads(architecture@),
            LoadError::Tensor { name, cause } => LoadFault::Tensor(name@, cause),
            LoadError::PastEnd { name } => LoadFault::PastEnd(name@),
            LoadError::MissingTensor { name } => LoadFault::MissingTensor(name@),
            LoadError::NotMatrix { name, dims } => LoadFault::NotMatrix(name@, dims@),
            LoadError::NotStacked { name, dims } => LoadFault::NotStacked(name@, dims@),
        }
    }
}

impl LoadFault {
    /// The message of the error.
    pub open spec fn text(self) -> Seq<char> {
        match self {
            LoadFault::MissingArchitecture => "GGUF file is missing general.architecture"@,
            LoadFault::UnsupportedArchitecture(architecture) => "architecture '"@ + architecture
                + "' is not yet supported by orangu-server (supported: "@ + text::joined(
                llama_style() + gemma() + qwen35moe(),
                ", "@,
            ) + ")"@,
            LoadFault::MissingKey(key) => "GGUF file is missing "@ + key,
            LoadFault::MissingVocab =>
                "GGUF file has no vocab_size and no tokenizer.ggml.tokens"@,
            LoadFault::ZeroHeads(architecture) => architecture
                + ".attention.head_count(_kv) must be nonzero"@,
            LoadFault::Tensor(name, _) => "tensor '"@ + name + "'"@,
            LoadFault::PastEnd(name) => "tensor '"@ + name + "' extends past the end of the file"@,
            LoadFault::MissingTensor(name) => "model is missing tensor '"@ + name + "'"@,
            LoadFault::NotMatrix(name, dims) => "tensor '"@ + name
                + "' is not a 2D matrix (dims: ["@ + text::joined(text::decimals(dims), ", "@)
                + "])"@,
            LoadFault::NotStacked(name, dims) => "tensor '"@ + name
                + "' is not a 3D stacked-expert tensor (dims: ["@ + text::joined(
                text::decimals(dims),
                ", "@,
            ) + "])"@,
        }
    }
}

impl LoadError {
    /// The message of the error.
    pub fn message(&self) -> (r: String)
        ensures
            r@ == self@.text(),
    {
        match self {
            LoadError::MissingArchitecture => "GGUF file is missing general.architecture".to_owned(),
            LoadError::UnsupportedArchitecture { architecture } => {
                let mut s = "architecture '".to_owned();
                s.append(architecture.as_str());
                s.append("' is not yet supported by orangu-server (supported: ");
                s.append(supported_architectures().as_str());
                s.append(")");
                s
            },
            LoadError::MissingKey { key } => {
                let mut s = "GGUF file is missing ".to_owned();
                s.append(key.as_str());
                s
            },
            LoadError::MissingVocab =>
                "GGUF file has no vocab_size and no tokenizer.ggml.tokens".to_owned(),
            LoadError::ZeroHeads { architecture } => {
                let mut s = architecture.clone();
                s.append(".attention.head_count(_kv) must be nonzero");
                s
            },
            LoadError::Tensor { name, .. } => {
                let mut s = "tensor '".to_owned();
                s.append(name.as_str());
                s.append("'");
                s
            },
            LoadError::PastEnd { name } => {
                let mut s = "tensor '".to_owned();
                s.append(name.as_str());
                s.append("' extends past the end of the file");
                s
            },
            LoadError::MissingTensor { name } => {
                let mut s = "model is missing tensor '".to_owned();
                s.append(name.as_str());
                s.append("'");
                s
            },
            LoadError::NotMatrix { name, dims } => {
                let mut s = "tensor '".to_owned();
                s.append(name.as_str());
                s.append("' is not a 2D matrix (dims: [");
                s.append(join_decimals(dims).as_str());
                s.append("])");
                s
            },
            LoadError::NotStacked { name, dims } => {
                let mut s = "tensor '".to_owned();
                s.append(name.as_str());
                s.append("' is not a 3D stacked-expert tensor (dims: [");
                s.append(join_decimals(dims).as_str());
                s.append("])");
                s
            },
        }
    }
}

/// The architectures of [`ArchFamily::LlamaStyle`].
pub open spec fn llama_style() -> Seq<Seq<char>> {
    seq!["llama"@, "qwen2"@, "qwen3"@, "mistral"@, "qwen3vl"@]
}

/// The architectures of [`ArchFamily::Gemma`].
pub open spec fn gemma() -> Seq<Seq<char>> {
    seq!["gemma"@, "gemma2"@, "gemma3"@, "gemma4"@, "gemma-embedding"@]
}

/// The architectures of [`ArchFamily::Qwen35Moe`].
pub open spec fn qwen35moe() -> Seq<Seq<char>> {
    seq!["qwen35moe"@]
}

/// The architectures of [`ArchFamily::LlamaStyle`].
pub fn llama_style_architectures() -> (r: Vec<&'static str>)
    ensures
        text::slices(r@) == llama_style(),
{
    let r: Vec<&'static str> = vec!["llama", "qwen2", "qwen3", "mistral", "qwen3vl"];
    assert(text::slices(r@) =~= llama_style());
    r
}

/// The architectures of [`ArchFamily::Gemma`].
pub fn gemma_architectures() -> (r: Vec<&'static str>)
    ensures
        text::slices(r@) == gemma(),
{
    let r: Vec<&'static str> = vec!["gemma", "gemma2", "gemma3", "gemma4", "gemma-embedding"];
    assert(text::slices(r@) =~= gemma());
    r
}

/// The architectures of [`ArchFamily::Qwen35Moe`].
pub fn qwen35moe_architectures() -> (r: Vec<&'static str>)
    ensures
        text::slices(r@) == qwen35moe(),
{
    let r: Vec<&'static str> = vec!["qwen35moe"];
    assert(text::slices(r@) =~= qwen35moe());
    r
}

/// All architectures that a forward pass exists for, as one text.
fn supported_architectures() -> (r: String)
    ensures
        r@ == text::joined(llama_style() + gemma() + qwen35moe(), ", "@),
{
    let mut all = llama_style_architectures();
    let mut more = gemma_architectures();
    let mut last = qwen35moe_architectures();
    all.append(&mut more);
    all.append(&mut last);
    assert(text::slices(all@) =~= llama_style() + gemma() + qwen35moe());
    join(&all, ", ")
}

/// The family of an architecture.
pub open spec fn family_of(architecture: Seq<char>) -> Option<ArchFamily> {
    if llama_style().contains(architecture) {
        Some(ArchFamily::LlamaStyle)
    } else if gemma().contains(architecture) {
        Some(ArchFamily::Gemma)
    } else if qwen35moe().contains(architecture) {
        Some(ArchFamily::Qwen35Moe)
    } else {
        None
    }
}

/// The family of an architecture.
pub fn resolve_arch_family(architecture: &str) -> (r: Result<ArchFamily, LoadError>)
    ensures
        match r {
            Ok(family) => family_of(architecture@) == Some(family),
            Err(e) => family_of(architecture@) is None && e@
                == LoadFault::UnsupportedArchitecture(architecture@),
        },
{
    if listed(&llama_style_architectures(), architecture) {
        return Ok(ArchFamily::LlamaStyle);
    }
    if listed(&gemma_architectures(), architecture) {
        return Ok(ArchFamily::Gemma);
    }
    if listed(&qwen35moe_architectures(), architecture) {
        return Ok(ArchFamily::Qwen35Moe);
    }
    Err(LoadError::UnsupportedArchitecture { architecture: architecture.to_owned() })
}

/// The key of a hyperparameter of an architecture.
pub open spec fn key_text(architecture: Seq<char>, suffix: Seq<char>) -> Seq<char> {
    architecture + "."@ + suffix
}

/// The key of a hyperparameter of an architecture.
fn arch_key(architecture: &str, suffix: &str) -> (r: String)
    ensures
        r@ == key_text(architecture@, suffix@),
{
    let mut s = architecture.to_owned();
    s.append(".");
    s.append(suffix);
    s
}

/// A hyperparameter that has to be there.
pub open spec fn required(
    metadata: Seq<(String, GgufValue)>,
    architecture: Seq<char>,
    suffix: Seq<char>,
) -> Result<u64, LoadFault> {
    match gguf::unsigned_value(metadata, key_text(architecture, suffix)) {
        Some(v) => Ok(v),
        None => Err(LoadFault::MissingKey(key_text(architecture, suffix))),
    }
}

/// A hyperparameter that has to be there.
fn required_u64(
    metadata: &Vec<(String, GgufValue)>,
    architecture: &str,
    suffix: &str,
) -> (r: Result<u64, LoadError>)
    ensures
        match r {
            Ok(v) => required(metadata@, architecture@, suffix@) == Ok::<u64, LoadFault>(v),
            Err(e) => required(metadata@, architecture@, suffix@) == Err::<u64, LoadFault>(e@),
        },
{
    let key = arch_key(architecture, suffix);
    match gguf::metadata_u64(metadata, key.as_str()) {
        Some(v) => Ok(v),
        None => Err(LoadError::MissingKey { key }),
    }
}

/// The number of entries in the list of tokens.
pub open spec fn token_count(metadata: Seq<(String, GgufValue)>) -> Option<usize> {
    match gguf::first_value(metadata, "tokenizer.ggml.tokens"@, gguf::Sort::Any) {
        Some(GgufValue::Array(items)) => Some(items@.len() as usize),
        _ => None,
    }
}

/// The number of entries in the list of tokens.
fn count_tokens(metadata: &Vec<(String, GgufValue)>) -> (r: Option<usize>)
    ensures
        r == token_count(metadata@),
{
    match gguf::find_value(metadata, "tokenizer.ggml.tokens", gguf::Sort::Any) {
        Some(GgufValue::Array(items)) => Some(items.len()),
        _ => None,
    }
}

/// The hyperparameters of a model, or the first thing that is missing.
pub open spec fn config_of(metadata: Seq<(String, GgufValue)>, a: Seq<char>) -> Result<
    Config,
    LoadFault,
> {
    let value = |suffix: Seq<char>| gguf::unsigned_value(metadata, key_text(a, suffix));
    let single = |suffix: Seq<char>| gguf::single_value(metadata, key_text(a, suffix));
    match required(metadata, a, "embedding_length"@) {
        Err(e) => Err(e),
        Ok(n_embd) => match required(metadata, a, "block_count"@) {
            Err(e) => Err(e),
            Ok(n_layer) => match required(metadata, a, "attention.head_count"@) {
                Err(e) => Err(e),
                Ok(n_head) => match required(metadata, a, "context_length"@) {
                    Err(e) => Err(e),
                    Ok(n_ctx_train) => {
                        let n_head_kv = match value("attention.head_count_kv"@) {
                            Some(v) => v,
                            None => n_head,
                        };
                        let n_vocab = match value("vocab_size"@) {
                            Some(v) => Some(v as usize),
                            None => token_count(metadata),
                        };
                        if n_vocab is None {
                            Err(LoadFault::MissingVocab)
                        } else if n_head as usize == 0 || n_head_kv as usize == 0 {
                            Err(LoadFault::ZeroHeads(a))
                        } else {
                            Ok(
                                Config {
                                    architecture: a,
                                    n_vocab: n_vocab->0,
                                    n_embd: n_embd as usize,
                                    n_layer: n_layer as usize,
                                    n_head: n_head as usize,
                                    n_head_kv: n_head_kv as usize,
                                    n_ctx_train: n_ctx_train as usize,
                                    rope_dim: match value("rope.dimension_count"@) {
                                        Some(v) => v as usize,
                                        None => (n_embd as usize) / (n_head as usize),
                                    },
                                    rope_freq_base: match single("rope.freq_base"@) {
                                        Some(v) => v,
                                        None => DEFAULT_ROPE_FREQ_BASE,
                                    },
                                    rms_eps: match single("attention.layer_norm_rms_epsilon"@) {
                                        Some(v) => v,
                                        None => DEFAULT_RMS_EPS,
                                    },
                                    pooling_type: if value("pooling_type"@) == Some(3u64) {
                                        PoolingType::Last
                                    } else {
                                        PoolingType::Mean
                                    },
                                },
                            )
                        }
                    },
                },
            },
        },
    }
}

/// The hyperparameters of a model, or the first thing that is missing.
pub fn read_model_config(metadata: &Vec<(String, GgufValue)>, architecture: &str) -> (r: Result<
    ModelConfig,
    LoadError,
>)
    ensures
        match r {
            Ok(c) => config_of(metadata@, architecture@) == Ok::<Config, LoadFault>(c@),
            Err(e) => config_of(metadata@, architecture@) == Err::<Config, LoadFault>(e@),
        },
        r is Ok ==> (r->Ok_0.pooling_type == PoolingType::Last <==> gguf::unsigned_value(
            metadata@,
            architecture@ + "."@ + "pooling_type"@,
        ) == Some(3u64)),
        r is Ok ==> (r->Ok_0.pooling_type == PoolingType::Mean <==> gguf::unsigned_value(
            metadata@,
            architecture@ + "."@ + "pooling_type"@,
        ) != Some(3u64)),
{
    let n_embd: usize = match required_u64(metadata, architecture, "embedding_length") {
        Ok(v) => v as usize,
        Err(e) => return Err(e),
    };
    let n_layer: usize = match required_u64(metadata, architecture, "block_count") {
        Ok(v) => v as usize,
        Err(e) => return Err(e),
    };
    let n_head: usize = match required_u64(metadata, architecture, "attention.head_count") {
        Ok(v) => v as usize,
        Err(e) => return Err(e),
    };
    let n_head_kv: usize = match gguf::metadata_u64(
        metadata,
        arch_key(architecture, "attention.head_count_kv").as_str(),
    ) {
        Some(v) => v as usize,
        None => n_head,
    };
    let n_ctx_train: usize = match required_u64(metadata, architecture, "context_length") {
        Ok(v) => v as usize,
        Err(e) => return Err(e),
    };
    let n_vocab: usize = match gguf::metadata_u64(
        metadata,
        arch_key(architecture, "vocab_size").as_str(),
    ) {
        Some(v) => v as usize,
        None => match count_tokens(metadata) {
            Some(n) => n,
            None => return Err(LoadError::MissingVocab),
        },
    };
    if n_head == 0 || n_head_kv == 0 {
        return Err(LoadError::ZeroHeads { architecture: architecture.to_owned() });
    }
    let rope_dim: usize = match gguf::metadata_u64(
        metadata,
        arch_key(architecture, "rope.dimension_count").as_str(),
    ) {
        Some(v) => v as usize,
        None => n_embd / n_head,
    };
    let rope_freq_base: u32 = match gguf::metadata_f32(
        metadata,
        arch_key(architecture, "rope.freq_base").as_str(),
    ) {
        Some(v) => v,
        None => DEFAULT_ROPE_FREQ_BASE,
    };
    let rms_eps: u32 = match gguf::metadata_f32(
        metadata,
        arch_key(architecture, "attention.layer_norm_rms_epsilon").as_str(),
    ) {
        Some(v) => v,
        None => DEFAULT_RMS_EPS,
    };
    let pooling_type = match gguf::metadata_u64(
        metadata,
        arch_key(architecture, "pooling_type").as_str(),
    ) {
        Some(v) => if v == 3 {
            PoolingType::Last
        } else {
            PoolingType::Mean
        },
        None => PoolingType::Mean,
    };
    Ok(
        ModelConfig {
            architecture: architecture.to_owned(),
            n_vocab,
            n_embd,
            n_layer,
            n_head,
            n_head_kv,
            n_ctx_train,
            rope_dim,
            rope_freq_base,
            rms_eps,
            pooling_type,
        },
    )
}

/// The number under a key of an architecture.
pub open spec fn listed_number(
    metadata: Seq<(String, GgufValue)>,
    a: Seq<char>,
    suffix: Seq<char>,
) -> Option<u64> {
    gguf::unsigned_value(metadata, a + "."@ + suffix)
}

/// Embeddings are those of the last token exactly where the file says three under the
/// key of the pooling; where it says any other number, or nothing, they are the mean.
pub proof fn pooling_is_last_for_three_alone(metadata: Seq<(String, GgufValue)>, a: Seq<char>)
    requires
        config_of(metadata, a) is Ok,
    ensures
        config_of(metadata, a)->Ok_0.pooling_type == PoolingType::Last <==> listed_number(
            metadata,
            a,
            "pooling_type"@,
        ) == Some(3u64),
        config_of(metadata, a)->Ok_0.pooling_type == PoolingType::Mean <==> listed_number(
            metadata,
            a,
            "pooling_type"@,
        ) != Some(3u64),
{
}

/// Each hyperparameter is what stands under its key; the number of key heads is that of
/// the heads where it is not set, the rotated part of a head is all of it, and the size
/// of the vocabulary is that of the list of tokens.
pub proof fn hyperparameters_stand_under_their_keys(
    metadata: Seq<(String, GgufValue)>,
    a: Seq<char>,
)
    requires
        config_of(metadata, a) is Ok,
    ensures
        ({
            let c = config_of(metadata, a)->Ok_0;
            let listed = |suffix: Seq<char>| listed_number(metadata, a, suffix);
            let single = |suffix: Seq<char>| gguf::single_value(metadata, a + "."@ + suffix);
            &&& c.architecture == a
            &&& listed("embedding_length"@) is Some && c.n_embd == listed("embedding_length"@)->0
                as usize
            &&& listed("block_count"@) is Some && c.n_layer == listed("block_count"@)->0 as usize
            &&& listed("attention.head_count"@) is Some && c.n_head == listed(
                "attention.head_count"@,
            )->0 as usize
            &&& listed("context_length"@) is Some && c.n_ctx_train == listed("context_length"@)->0
                as usize
            &&& listed("attention.head_count_kv"@) is Some ==> c.n_head_kv == listed(
                "attention.head_count_kv"@,
            )->0 as usize
            &&& listed("attention.head_count_kv"@) is None ==> c.n_head_kv == c.n_head
            &&& listed("vocab_size"@) is Some ==> c.n_vocab == listed("vocab_size"@)->0 as usize
            &&& listed("vocab_size"@) is None ==> token_count(metadata) == Some(c.n_vocab)
            &&& listed("rope.dimension_count"@) is Some ==> c.rope_dim == listed(
                "rope.dimension_count"@,
            )->0 as usize
            &&& listed("rope.dimension_count"@) is None ==> c.rope_dim == c.n_embd / c.n_head
            &&& single("rope.freq_base"@) is Some ==> c.rope_freq_base == single(
                "rope.freq_base"@,
            )->0
            &&& single("rope.freq_base"@) is None ==> c.rope_freq_base == 0x461c_4000
            &&& single("attention.layer_norm_rms_epsilon"@) is Some ==> c.rms_eps == single(
                "attention.layer_norm_rms_epsilon"@,
            )->0
            &&& single("attention.layer_norm_rms_epsilon"@) is None ==> c.rms_eps == 0x3727_c5ac
            &&& c.n_head > 0
            &&& c.n_head_kv > 0
        }),
{
}

/// The list of tokens is counted as a whole.
pub proof fn the_list_of_tokens_is_counted(metadata: Seq<(String, GgufValue)>, i: int)
    requires
        0 <= i < metadata.len(),
        metadata[i].0@ == "tokenizer.ggml.tokens"@,
        forall|j: int| 0 <= j < i ==> (#[trigger] metadata[j]).0@ != "tokenizer.ggml.tokens"@,
    ensures
        metadata[i].1 is Array ==> token_count(metadata) == Some(
            metadata[i].1->Array_0@.len() as usize,
        ),
        !(metadata[i].1 is Array) ==> token_count(metadata) is None,
{
    gguf::the_first_value_is_found(metadata, "tokenizer.ggml.tokens"@, gguf::Sort::Any, i);
}

/// What is missing is told in the order of the list: the first of four numbers that does
/// not stand under its key, then the vocabulary; a model whose heads are none is refused
/// last, and every other model is accepted.
pub proof fn the_first_thing_missing_is_told(metadata: Seq<(String, GgufValue)>, a: Seq<char>)
    ensures
        ({
            let r = config_of(metadata, a);
            let listed = |suffix: Seq<char>| listed_number(metadata, a, suffix);
            let heads = listed("attention.head_count"@);
            let key_heads = listed("attention.head_count_kv"@);
            if listed("embedding_length"@) is None {
                r == Err::<Config, LoadFault>(
                    LoadFault::MissingKey(a + "."@ + "embedding_length"@),
                )
            } else if listed("block_count"@) is None {
                r == Err::<Config, LoadFault>(LoadFault::MissingKey(a + "."@ + "block_count"@))
            } else if heads is None {
                r == Err::<Config, LoadFault>(
                    LoadFault::MissingKey(a + "."@ + "attention.head_count"@),
                )
            } else if listed("context_length"@) is None {
                r == Err::<Config, LoadFault>(LoadFault::MissingKey(a + "."@ + "context_length"@))
            } else if listed("vocab_size"@) is None && token_count(metadata) is None {
                r == Err::<Config, LoadFault>(LoadFault::MissingVocab)
            } else if heads->0 as usize == 0 || (key_heads is Some && key_heads->0 as usize == 0) {
                r == Err::<Config, LoadFault>(LoadFault::ZeroHeads(a))
            } else {
                r is Ok
            }
        }),
{
}

/// The family of each architecture by its name; no other name has one.
pub proof fn families_have_their_members(a: Seq<char>)
    ensures
        family_of(a) == Some(ArchFamily::LlamaStyle) <==> a == "llama"@ || a == "qwen2"@ || a
            == "qwen3"@ || a == "mistral"@ || a == "qwen3vl"@,
        family_of(a) == Some(ArchFamily::Gemma) <==> a == "gemma"@ || a == "gemma2"@ || a
            == "gemma3"@ || a == "gemma4"@ || a == "gemma-embedding"@,
        family_of(a) == Some(ArchFamily::Qwen35Moe) <==> a == "qwen35moe"@,
{
    let (l, g, q) = (llama_style(), gemma(), qwen35moe());
    assert(l[0] == "llama"@ && l[1] == "qwen2"@ && l[2] == "qwen3"@ && l[3] == "mistral"@ && l[4]
        == "qwen3vl"@);
    assert(g[0] == "gemma"@ && g[1] == "gemma2"@ && g[2] == "gemma3"@ && g[3] == "gemma4"@ && g[4]
        == "gemma-embedding"@);
    assert(q[0] == "qwen35moe"@);
    reveal_strlit("llama");
    reveal_strlit("qwen2");
    reveal_strlit("qwen3");
    reveal_strlit("mistral");
    reveal_strlit("qwen3vl");
    reveal_strlit("gemma");
    reveal_strlit("gemma2");
    reveal_strlit("gemma3");
    reveal_strlit("gemma4");
    reveal_strlit("gemma-embedding");
    reveal_strlit("qwen35moe");
    assert("llama"@[0] == 'l' && "qwen2"@[4] == '2' && "qwen3"@[0] == 'q' && "mistral"@[0] == 'm');
    assert("gemma"@[0] == 'g' && "gemma2"@[0] == 'g' && "gemma3"@[0] == 'g' && "gemma4"@[0] == 'g'
        && "gemma-embedding"@[0] == 'g');
}

} // verus!
