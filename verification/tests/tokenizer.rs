use orangu_server::gguf::{GgufFile, GgufValue};
use orangu_server::tokenizer::alphabet::{
    byte_fallback_token_name, byte_to_unicode_table, parse_byte_fallback_token,
};
use orangu_server::tokenizer::merges::split_merge;
use orangu_server::tokenizer::pieces::{clean_spaces_postprocess, split_newline_runs};
use orangu_server::tokenizer::{Tokenizer, TokenizerError, VocabKind};

fn texts(items: &[&str]) -> GgufValue {
    GgufValue::Array(items.iter().map(|t| GgufValue::String(t.to_string())).collect())
}

fn build_gguf(tokens: &[&str], merges: &[&str], bos: u32, eos: u32) -> GgufFile {
    GgufFile {
        version: 3,
        metadata: vec![
            ("tokenizer.ggml.tokens".to_string(), texts(tokens)),
            ("tokenizer.ggml.merges".to_string(), texts(merges)),
            ("tokenizer.ggml.bos_token_id".to_string(), GgufValue::U32(bos)),
            ("tokenizer.ggml.eos_token_id".to_string(), GgufValue::U32(eos)),
        ],
        tensors: vec![],
        alignment: 32,
        data_offset: 0,
    }
}

/// Every byte as a token of its own, and one rule that joins two letters.
fn minimal_byte_vocab() -> GgufFile {
    let byte_to_char = byte_to_unicode_table();
    let mut tokens: Vec<String> = (0..256u32)
        .map(|b| byte_to_char[b as usize].to_string())
        .collect();
    tokens.push("hi".to_string());
    let owned_tokens: Vec<&str> = tokens.iter().map(String::as_str).collect();
    build_gguf(&owned_tokens, &["h i"], 1, 2)
}

fn build_gemma4_gguf(tokens: &[&str], merges: &[&str]) -> GgufFile {
    let mut gguf = build_gguf(tokens, merges, 0, 1);
    gguf.metadata.push((
        "tokenizer.ggml.model".to_string(),
        GgufValue::String("gemma4".to_string()),
    ));
    gguf
}

fn build_spm_gguf(tokens: &[&str], scores: &[f32], add_space_prefix: Option<bool>) -> GgufFile {
    let mut gguf = GgufFile {
        version: 3,
        metadata: vec![
            ("tokenizer.ggml.tokens".to_string(), texts(tokens)),
            (
                "tokenizer.ggml.scores".to_string(),
                GgufValue::Array(scores.iter().map(|&s| GgufValue::F32(s.to_bits())).collect()),
            ),
            ("tokenizer.ggml.bos_token_id".to_string(), GgufValue::U32(0)),
            ("tokenizer.ggml.eos_token_id".to_string(), GgufValue::U32(1)),
            (
                "tokenizer.ggml.model".to_string(),
                GgufValue::String("llama".to_string()),
            ),
        ],
        tensors: vec![],
        alignment: 32,
        data_offset: 0,
    };
    if let Some(add_space_prefix) = add_space_prefix {
        gguf.metadata.push((
            "tokenizer.ggml.add_space_prefix".to_string(),
            GgufValue::Bool(add_space_prefix),
        ));
    }
    gguf
}

fn id(tok: &Tokenizer, text: &str) -> u32 {
    tok.token_id(text).unwrap()
}

#[test]
fn encode_falls_back_to_individual_bytes_without_merges() {
    let gguf = build_gguf(&["a", "b", "c"], &[], 0, 1);
    let tok = Tokenizer::from_gguf(&gguf).unwrap();
    assert_eq!(tok.vocab_size(), 3);
}

#[test]
fn encode_applies_a_merge_rule() {
    let gguf = minimal_byte_vocab();
    let tok = Tokenizer::from_gguf(&gguf).unwrap();
    let ids = tok.encode("hi", false);
    let hi_id = id(&tok, "hi");
    assert_eq!(ids, vec![hi_id]);
}

#[test]
fn encode_recognizes_adjacent_literal_special_tokens_over_bpe() {
    let byte_to_char = byte_to_unicode_table();
    let mut tokens: Vec<String> = (0..256u32)
        .map(|b| byte_to_char[b as usize].to_string())
        .collect();
    let start_idx = tokens.len();
    tokens.push("<|a|>".to_string());
    let end_idx = tokens.len();
    tokens.push("<|b|>".to_string());
    let owned_tokens: Vec<&str> = tokens.iter().map(String::as_str).collect();
    let mut gguf = build_gguf(&owned_tokens, &[], 0, 0);
    let mut types = vec![1i32; owned_tokens.len()];
    types[start_idx] = 3;
    types[end_idx] = 3;
    gguf.metadata.push((
        "tokenizer.ggml.token_type".to_string(),
        GgufValue::Array(types.into_iter().map(GgufValue::I32).collect()),
    ));

    let tok = Tokenizer::from_gguf(&gguf).unwrap();
    let ids = tok.encode("<|a|><|b|>", false);
    assert_eq!(ids, vec![start_idx as u32, end_idx as u32]);
}

#[test]
fn encode_prefixes_bos_when_requested() {
    let gguf = minimal_byte_vocab();
    let tok = Tokenizer::from_gguf(&gguf).unwrap();
    let ids = tok.encode("hi", true);
    assert_eq!(ids[0], tok.bos_token().unwrap());
}

#[test]
fn encode_for_embedding_omits_bos_when_add_bos_token_is_false() {
    let mut gguf = minimal_byte_vocab();
    gguf.metadata.push((
        "tokenizer.ggml.add_bos_token".to_string(),
        GgufValue::Bool(false),
    ));
    let tok = Tokenizer::from_gguf(&gguf).unwrap();
    let ids = tok.encode_for_embedding("hi");
    assert_ne!(ids[0], tok.bos_token().unwrap());
}

#[test]
fn encode_for_embedding_includes_bos_by_default() {
    let gguf = minimal_byte_vocab();
    let tok = Tokenizer::from_gguf(&gguf).unwrap();
    let ids = tok.encode_for_embedding("hi");
    assert_eq!(ids[0], tok.bos_token().unwrap());
}

#[test]
fn decode_reverses_encode_for_ascii_text() {
    let gguf = minimal_byte_vocab();
    let tok = Tokenizer::from_gguf(&gguf).unwrap();
    let text = "hi there";
    let ids = tok.encode(text, false);
    assert_eq!(tok.decode(&ids), text);
}

#[test]
fn missing_tokens_key_is_an_error() {
    let gguf = GgufFile {
        version: 3,
        metadata: vec![],
        tensors: vec![],
        alignment: 32,
        data_offset: 0,
    };
    assert!(Tokenizer::from_gguf(&gguf).is_err());
}

#[test]
fn split_merge_does_not_panic_on_a_multibyte_first_character() {
    assert_eq!(
        split_merge("\u{2581} b"),
        Some(("\u{2581}".to_string(), "b".to_string()))
    );
}

#[test]
fn gemma4_escapes_spaces_and_merges_raw_codepoints() {
    let gguf = build_gemma4_gguf(&["a", "b", "\u{2581}", "\u{2581}b"], &["\u{2581} b"]);
    let tok = Tokenizer::from_gguf(&gguf).unwrap();
    assert_eq!(tok.vocab_kind(), VocabKind::Gemma4Raw);

    let ids = tok.encode("a b", false);
    assert_eq!(ids, vec![id(&tok, "a"), id(&tok, "\u{2581}b")]);
    assert_eq!(tok.decode(&ids), "a b");
}

#[test]
fn gemma4_byte_fallback_roundtrips_an_unmapped_byte() {
    let mut gguf = build_gemma4_gguf(&["a", "<0x00>"], &[]);
    gguf.metadata.push((
        "tokenizer.ggml.token_type".to_string(),
        GgufValue::Array(vec![GgufValue::I32(1), GgufValue::I32(6)]),
    ));
    let tok = Tokenizer::from_gguf(&gguf).unwrap();

    let text = "a\u{0}";
    let ids = tok.encode(text, false);
    assert_eq!(ids, vec![id(&tok, "a"), id(&tok, "<0x00>")]);
    assert_eq!(tok.decode(&ids), text);
}

#[test]
fn tokenizer_model_llama_dispatches_to_spm_unigram() {
    let gguf = build_spm_gguf(&["a", "b", "\u{2581}", "\u{2581}b"], &[0.0; 4], Some(false));
    let tok = Tokenizer::from_gguf(&gguf).unwrap();
    assert_eq!(tok.vocab_kind(), VocabKind::SpmUnigram);
}

#[test]
fn spm_merge_only_merges_pairs_that_are_valid_vocab_tokens() {
    let mut gguf = build_spm_gguf(
        &["<0x61>", "b", "\u{2581}", "\u{2581}b"],
        &[0.0, 0.0, 0.0, 1.0],
        Some(false),
    );
    gguf.metadata.push((
        "tokenizer.ggml.token_type".to_string(),
        GgufValue::Array(vec![
            GgufValue::I32(6),
            GgufValue::I32(1),
            GgufValue::I32(1),
            GgufValue::I32(1),
        ]),
    ));
    let tok = Tokenizer::from_gguf(&gguf).unwrap();
    let ids = tok.encode("a b", false);
    assert_eq!(ids, vec![id(&tok, "<0x61>"), id(&tok, "\u{2581}b")]);
}

#[test]
fn spm_merge_prefers_higher_score_over_leftmost_when_both_valid() {
    let gguf = build_spm_gguf(
        &["a", "<pad>", "b", "c", "ab", "bc"],
        &[0.0, 0.0, 0.0, 0.0, 5.0, 1.0],
        Some(false),
    );
    let tok = Tokenizer::from_gguf(&gguf).unwrap();
    let ids = tok.encode("abc", false);
    assert_eq!(ids, vec![id(&tok, "ab"), id(&tok, "c")]);
}

#[test]
fn spm_add_space_prefix_escapes_a_leading_space_by_default() {
    let gguf = build_spm_gguf(&["b", "\u{2581}b"], &[0.0, 1.0], None);
    let tok = Tokenizer::from_gguf(&gguf).unwrap();
    let ids = tok.encode("b", false);
    assert_eq!(ids, vec![id(&tok, "\u{2581}b")]);
}

#[test]
fn spm_falls_back_to_byte_tokens_for_an_unknown_character() {
    let mut gguf = build_spm_gguf(&["a", "<0x00>"], &[0.0, 0.0], Some(false));
    gguf.metadata.push((
        "tokenizer.ggml.token_type".to_string(),
        GgufValue::Array(vec![GgufValue::I32(1), GgufValue::I32(6)]),
    ));
    let tok = Tokenizer::from_gguf(&gguf).unwrap();
    let text = "a\u{0}";
    let ids = tok.encode(text, false);
    assert_eq!(ids, vec![id(&tok, "a"), id(&tok, "<0x00>")]);
    assert_eq!(tok.decode(&ids), text);
}

#[test]
fn clean_up_tokenization_spaces_is_a_no_op_for_spm_unigram() {
    let gguf = build_spm_gguf(&["a"], &[0.0], Some(false));
    let tok = Tokenizer::from_gguf(&gguf).unwrap();
    assert_eq!(
        tok.clean_up_tokenization_spaces("hi , there !"),
        "hi , there !"
    );
}

#[test]
fn clean_up_tokenization_spaces_is_a_no_op_for_a_byte_encoded_vocab() {
    let gguf = minimal_byte_vocab();
    let tok = Tokenizer::from_gguf(&gguf).unwrap();
    assert_eq!(
        tok.clean_up_tokenization_spaces("hi , there !"),
        "hi , there !"
    );
}

#[test]
fn clean_up_tokenization_spaces_drops_space_before_punctuation() {
    let gguf = build_gemma4_gguf(&["a"], &[]);
    let tok = Tokenizer::from_gguf(&gguf).unwrap();
    assert_eq!(
        tok.clean_up_tokenization_spaces("Hello , world !"),
        "Hello, world!"
    );
}

#[test]
fn clean_up_tokenization_spaces_collapses_a_lone_apostrophe() {
    let gguf = build_gemma4_gguf(&["a"], &[]);
    let tok = Tokenizer::from_gguf(&gguf).unwrap();
    assert_eq!(
        tok.clean_up_tokenization_spaces("rock ' n ' roll"),
        "rock'n'roll"
    );
}

#[test]
fn clean_up_tokenization_spaces_drops_space_before_s_and_ve_but_not_t_or_ll() {
    let gguf = build_gemma4_gguf(&["a"], &[]);
    let tok = Tokenizer::from_gguf(&gguf).unwrap();
    assert_eq!(
        tok.clean_up_tokenization_spaces("it 's fine, we 've won"),
        "it's fine, we've won"
    );
    assert_eq!(
        tok.clean_up_tokenization_spaces("don 't stop, they 'll see"),
        "don 't stop, they 'll see"
    );
}

#[test]
fn missing_tokens_give_their_own_error() {
    let gguf = GgufFile {
        version: 3,
        metadata: vec![],
        tensors: vec![],
        alignment: 32,
        data_offset: 0,
    };
    match Tokenizer::from_gguf(&gguf) {
        Err(e) => assert_eq!(e, TokenizerError::MissingTokens),
        Ok(_) => panic!("a vocabulary without tokens"),
    }
}

#[test]
fn every_byte_has_its_own_character() {
    let table = byte_to_unicode_table();
    assert_eq!(table.len(), 256);
    assert_eq!(table[b'a' as usize], 'a');
    assert_eq!(table[b' ' as usize], '\u{120}');
    assert_eq!(table[0], '\u{100}');
    let mut seen = table.clone();
    seen.sort();
    seen.dedup();
    assert_eq!(seen.len(), 256);
}

#[test]
fn byte_tokens_read_back() {
    for b in 0..=255u8 {
        assert_eq!(parse_byte_fallback_token(&byte_fallback_token_name(b)), Some(b));
    }
    assert_eq!(byte_fallback_token_name(0x0a), "<0x0A>");
    for other in [
        "<0xzz>", "<0x+5>", "<0x5>", "<0xa>", "<0xA>", "<0xff>", "<0xfF>", "<0xFf>", "<0x00A>",
        "<0x0A", "0x0A>", "<0X0A>", "<0x>", "<0x 5>", "<0x0A> ", " <0x0A>", "<0x-1>", "<0x0\u{410}>",
    ] {
        assert_eq!(parse_byte_fallback_token(other), None, "{other}");
    }
    assert_eq!(parse_byte_fallback_token("a"), None);
}

#[test]
fn a_byte_vocabulary_gives_any_text_back() {
    let gguf = minimal_byte_vocab();
    let tok = Tokenizer::from_gguf(&gguf).unwrap();
    for text in ["", "hi", "héllo wörld", "tabs\tand\nlines", "日本語 🦀", "it's  2024!"] {
        assert_eq!(tok.decode(&tok.encode(text, false)), text);
    }
}

#[test]
fn invalid_bytes_are_decoded_with_a_stand_in() {
    let gguf = minimal_byte_vocab();
    let tok = Tokenizer::from_gguf(&gguf).unwrap();
    let table = byte_to_unicode_table();
    let lone = tok.token_id(&table[0xff].to_string()).unwrap();
    assert_eq!(tok.decode(&[lone]), "\u{fffd}");
}

#[test]
fn newline_runs_stay_together() {
    assert_eq!(split_newline_runs("a\n\nb"), vec!["a", "\n\n", "b"]);
    assert_eq!(split_newline_runs("\n"), vec!["\n"]);
    assert!(split_newline_runs("").is_empty());
}

#[test]
fn spacing_is_tidied_before_marks() {
    assert_eq!(clean_spaces_postprocess("one . two ?"), "one. two?");
}

#[test]
fn a_token_has_its_text() {
    let gguf = minimal_byte_vocab();
    let tok = Tokenizer::from_gguf(&gguf).unwrap();
    assert_eq!(tok.token_text(256), Some("hi"));
    assert_eq!(tok.token_text(257), None);
    assert_eq!(tok.token_id("no such token"), None);
    assert!(tok.has_spelled_specials());
    assert_eq!(tok.eos_token(), Some(2));
}
