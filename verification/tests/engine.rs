use orangu_server::batch::{
    hand_out, Answer, BatchCoordinator, BatchDecodeRequest, ForwardOutcome, MAX_BATCH_WAIT_NANOS,
};
use orangu_server::generate::{
    capacity_for, console_line, reused_len, take_over, Figures, FinishReason, GenerateRequest, GenerateStats,
    Generation, SentStep, TokenStep,
};
use orangu_server::gguf::{GgufFile, GgufValue};
use orangu_server::kv_cache::KvCache;
use orangu_server::prefix_cache::PrefixCache;
use orangu_server::sampling::{argmax, SamplingParams};
use orangu_server::scheduler::{SlotPool, SlotState};
use orangu_server::tokenizer::Tokenizer;
use std::time::Duration;

fn request(token: u32) -> BatchDecodeRequest {
    BatchDecodeRequest { cache: KvCache::new(1, 4, 4), token, start_pos: 0, greedy_sample: None }
}

fn token_of(a: &Answer) -> u32 {
    match &a.response.outcome {
        Ok(ForwardOutcome::Token(t)) => *t,
        Ok(ForwardOutcome::Logits(_)) => panic!("the model only ever returns tokens"),
        Err(e) => panic!("unexpected batch error: {e}"),
    }
}

#[test]
fn concurrent_submissions_each_get_their_own_correct_result() {
    for _round in 0..20 {
        let mut slots = SlotPool::new(8);
        let guards: Vec<_> = (0..8).map(|_| slots.acquire().unwrap()).collect();
        let mut coordinator = BatchCoordinator::new();
        let mut batch = None;
        for i in 0..8u32 {
            assert!(batch.is_none());
            coordinator.join(i as u64, request(i), 1000);
            batch = coordinator.close(slots.busy_count(), 1000);
        }
        let batch = batch.unwrap();
        let outcomes = batch.iter().map(|w| ForwardOutcome::Token(w.request.token * 2)).collect();
        let answers = hand_out(batch, Ok(outcomes));
        let expected: Vec<u32> = (0..8u32).map(|i| i * 2).collect();
        let got: Vec<u32> = answers.iter().map(token_of).collect();
        assert_eq!(
            expected, got,
            "every thread must get back exactly its own token, doubled"
        );
        for (i, a) in answers.iter().enumerate() {
            assert_eq!(a.ticket, i as u64);
        }
        for g in guards {
            slots.release(g);
        }
        assert_eq!(slots.busy_count(), 0);
    }
}

#[test]
fn solo_submission_completes_via_deadline_fallback() {
    let mut slots = SlotPool::new(4);
    let _a = slots.acquire();
    let _b = slots.acquire();
    let mut coordinator = BatchCoordinator::new();
    coordinator.join(1, request(7), 50);
    assert!(coordinator.close(slots.busy_count(), 50 + MAX_BATCH_WAIT_NANOS - 1).is_none());
    let batch = coordinator.close(slots.busy_count(), 50 + MAX_BATCH_WAIT_NANOS).unwrap();
    let outcomes = batch.iter().map(|w| ForwardOutcome::Token(w.request.token * 2)).collect();
    assert_eq!(token_of(&hand_out(batch, Ok(outcomes))[0]), 14);
    assert!(coordinator.close(0, u64::MAX).is_none());
}

#[test]
fn a_failed_step_fails_for_all() {
    let mut c = BatchCoordinator::new();
    c.join(1, request(1), 0);
    c.join(2, request(2), 3_000_000);
    assert!(c.close(3, 3_999_999).is_none());
    let batch = c.close(3, 4_000_000).unwrap();
    let answers = hand_out(batch, Err("device lost".to_string()));
    assert_eq!(answers.len(), 2);
    for a in answers {
        assert!(matches!(a.response.outcome, Err(e) if e == "device lost"));
    }
}

#[test]
fn acquire_marks_a_slot_busy_and_release_frees_it() {
    let mut pool = SlotPool::new(2);
    let guard = pool.acquire().unwrap();
    assert!(pool.snapshot()[guard.id()].busy);
    pool.release(guard);
    assert!(pool.snapshot().iter().all(|s| !s.busy));
}

#[test]
fn a_third_request_waits_when_both_slots_are_busy() {
    let mut pool = SlotPool::new(1);
    let guard = pool.acquire().unwrap();
    assert!(pool.acquire().is_none());
    pool.release(guard);
    assert!(pool.acquire().is_some());
}

#[test]
fn a_slot_notes_what_it_does() {
    let mut pool = SlotPool::new(2);
    let a = pool.acquire().unwrap();
    let b = pool.acquire().unwrap();
    assert_eq!((a.id(), b.id(), pool.total(), pool.busy_count()), (0, 1, 2, 2));
    b.set_prompt_tokens(&mut pool, 5);
    b.set_generated_tokens(&mut pool, 7);
    assert_eq!(
        pool.snapshot()[1],
        SlotState { id: 1, busy: true, prompt_tokens: 5, generated_tokens: 7 }
    );
    pool.release(b);
    assert_eq!(
        pool.snapshot()[1],
        SlotState { id: 1, busy: false, prompt_tokens: 5, generated_tokens: 7 }
    );
    let b = pool.acquire().unwrap();
    assert_eq!(pool.snapshot()[b.id()].prompt_tokens, 0);
    assert_eq!(SlotState::default().id, 0);
}

/// A model whose keys are a function of token and position, and whose scores are
/// one of all keys so far.
struct DeterministicModel {
    n_vocab: usize,
    n_ctx_train: usize,
    forwarded_tokens: usize,
}

impl DeterministicModel {
    fn new(n_vocab: usize) -> Self {
        DeterministicModel { n_vocab, n_ctx_train: 1000, forwarded_tokens: 0 }
    }

    fn forward(&mut self, cache: &mut KvCache, tokens: &[u32], start_pos: usize) -> Vec<u32> {
        self.forwarded_tokens += tokens.len();
        let layer = &mut cache.layers[0];
        for (i, &t) in tokens.iter().enumerate() {
            let val = (t as f32 * 1000.0 + (start_pos + i) as f32).to_bits();
            layer.push(&[val], &[val]);
        }
        let mut acc = 0f32;
        for p in 0..layer.len {
            acc += f32::from_bits(layer.key_at(p, 0, 1)[0]);
        }
        let winner = (acc.abs() as u64 as usize) % self.n_vocab;
        let mut logits = vec![0u32; self.n_vocab];
        logits[winner] = 10f32.to_bits();
        logits
    }
}

fn letter_tokenizer(n_vocab: usize) -> Tokenizer {
    let tokens: Vec<GgufValue> = (0..n_vocab)
        .map(|i| GgufValue::String(char::from_u32('a' as u32 + i as u32).unwrap().to_string()))
        .collect();
    let gguf = GgufFile {
        version: 3,
        metadata: vec![
            ("tokenizer.ggml.tokens".to_string(), GgufValue::Array(tokens)),
            ("tokenizer.ggml.model".to_string(), GgufValue::String("llama".to_string())),
        ],
        tensors: vec![],
        alignment: 32,
        data_offset: 0,
    };
    Tokenizer::from_gguf(&gguf).unwrap()
}

fn run_request(
    model: &mut DeterministicModel,
    tokenizer: &Tokenizer,
    pool: Option<&mut PrefixCache>,
    prompt_tokens: Vec<u32>,
    max_tokens: usize,
) -> (String, bool) {
    let req = GenerateRequest {
        prompt_tokens,
        sampling: SamplingParams {
            temperature: 0,
            repeat_penalty: 1.0f32.to_bits(),
            repeat_last_n: 0,
            ..SamplingParams::default()
        },
        max_tokens,
        stop_token_ids: vec![],
    };
    let mut generation = Generation::begin(&req, model.n_ctx_train).unwrap();
    let mut cache = KvCache::new(1, generation.capacity(), 1);
    let mut reused = 0;
    let mut pool = pool;
    if let Some(p) = pool.as_deref_mut() {
        if let Some((matched, entry)) = p.take_best_match(&req.prompt_tokens) {
            reused = take_over(req.prompt_tokens.len(), matched, &entry, &mut cache);
        }
    }
    let logits = model.forward(&mut cache, &req.prompt_tokens[reused..], reused);
    let mut next = argmax(&logits);
    let mut text = String::new();
    loop {
        match generation.on_token(next) {
            TokenStep::Finish(_) => break,
            TokenStep::Send => text.push_str(&tokenizer.decode(&[next])),
        }
        match generation.on_sent(true, 0, 0) {
            SentStep::Stop => return (text, false),
            SentStep::Finish { .. } => break,
            SentStep::Decode { token, position, .. } => {
                let logits = model.forward(&mut cache, &[token], position);
                next = argmax(&logits);
            }
        }
    }
    if let Some(p) = pool {
        p.store(generation.into_history(), cache);
    }
    (text, true)
}

#[test]
fn prefix_cache_reuse_matches_a_full_recompute() {
    let n_vocab = 32;
    let tokenizer = letter_tokenizer(n_vocab);
    let turn1_prompt = vec![1u32, 2, 3, 4, 5];
    let turn2_suffix = vec![6u32, 7];

    let mut model = DeterministicModel::new(n_vocab);
    let (turn1_text, ok1) = run_request(&mut model, &tokenizer, None, turn1_prompt.clone(), 3);
    assert!(ok1);
    let mut turn2_prompt_baseline = turn1_prompt.clone();
    for ch in turn1_text.chars() {
        turn2_prompt_baseline.push(ch as u32 - 'a' as u32);
    }
    turn2_prompt_baseline.extend(turn2_suffix.clone());
    let (turn2_text_baseline, ok2) =
        run_request(&mut model, &tokenizer, None, turn2_prompt_baseline.clone(), 3);
    assert!(ok2);

    let mut model = DeterministicModel::new(n_vocab);
    let mut pool = PrefixCache::new(4);
    let (turn1_text_reuse, ok1) =
        run_request(&mut model, &tokenizer, Some(&mut pool), turn1_prompt.clone(), 3);
    assert!(ok1);
    assert_eq!(
        turn1_text_reuse, turn1_text,
        "turn 1 has no prefix to reuse yet"
    );
    let mut turn2_prompt_reuse = turn1_prompt.clone();
    for ch in turn1_text_reuse.chars() {
        turn2_prompt_reuse.push(ch as u32 - 'a' as u32);
    }
    turn2_prompt_reuse.extend(turn2_suffix.clone());
    assert_eq!(
        turn2_prompt_reuse, turn2_prompt_baseline,
        "both runs' turn-2 prompts must be identical for this comparison to mean anything"
    );
    let forwarded_before_turn2 = model.forwarded_tokens;
    let (turn2_text_reuse, ok2) =
        run_request(&mut model, &tokenizer, Some(&mut pool), turn2_prompt_reuse, 3);
    assert!(ok2);
    assert_eq!(
        turn2_text_reuse, turn2_text_baseline,
        "prefix reuse must produce byte-identical output to a full recompute"
    );
    let turn2_forwarded_reuse = model.forwarded_tokens - forwarded_before_turn2;
    assert_eq!(
        turn2_forwarded_reuse,
        1 + turn2_suffix.len() + 2,
        "reuse must skip turn 1's first 7 cached positions, forwarding only its own uncached 8th token, the new suffix, and this turn's own 2 real decode steps"
    );
}

fn generation(prompt: usize, max_tokens: usize, stops: &[u32], ctx: usize) -> Generation {
    let req = GenerateRequest {
        prompt_tokens: vec![0; prompt],
        sampling: SamplingParams::default(),
        max_tokens,
        stop_token_ids: stops.to_vec(),
    };
    Generation::begin(&req, ctx).unwrap()
}

#[test]
fn a_prompt_that_is_too_long_is_refused() {
    let req = GenerateRequest {
        prompt_tokens: vec![1; 11],
        sampling: SamplingParams::default(),
        max_tokens: 5,
        stop_token_ids: vec![],
    };
    assert_eq!(
        Generation::begin(&req, 10).unwrap_err(),
        "prompt (11 tokens) exceeds the model's context length (10)"
    );
    assert_eq!(capacity_for(4, 5, 10), 9);
    assert_eq!(capacity_for(4, 50, 10), 10);
    assert_eq!(capacity_for(0, 5, 0), 1);
}

#[test]
fn a_generation_stops_at_a_stop_token() {
    let mut g = generation(2, 10, &[99], 100);
    assert_eq!(g.on_token(5), TokenStep::Send);
    assert_eq!(
        g.on_sent(true, 0, 2),
        SentStep::Decode { report: false, token: 5, position: 2, recent_from: 1 }
    );
    assert_eq!(g.on_token(99), TokenStep::Finish(FinishReason::Stop));
    assert_eq!(g.history(), &vec![0, 0, 5]);
    assert_eq!(g.generated(), 1);
}

#[test]
fn a_generation_ends_with_its_room() {
    let mut g = generation(2, 10, &[], 3);
    assert_eq!(g.on_token(5), TokenStep::Send);
    assert_eq!(
        g.on_sent(true, 1_000_000_000, 64),
        SentStep::Finish { report: true, reason: FinishReason::Length }
    );
    assert!(g.reported());
    let mut g = generation(2, 0, &[], 100);
    assert_eq!(g.on_token(5), TokenStep::Finish(FinishReason::Length));
    let mut g = generation(3, 4, &[], 3);
    assert_eq!(g.on_token(5), TokenStep::Send);
    assert_eq!(
        g.on_sent(true, 0, 64),
        SentStep::Finish { report: false, reason: FinishReason::Length }
    );
    let mut g = generation(2, 10, &[], 100);
    assert_eq!(g.on_token(5), TokenStep::Send);
    assert_eq!(g.on_sent(false, 0, 64), SentStep::Stop);
}

#[test]
fn a_request_is_told_of_in_a_line() {
    let g = generation(12, 3, &[], 100);
    let stats = g.stats(Duration::from_millis(1500), Duration::from_millis(250));
    assert_eq!((stats.prompt_tokens, stats.generated_tokens), (12, 0));
    assert_eq!(stats.prompt_time, Duration::from_millis(1500));
    assert_eq!(stats.generate_time, Duration::from_millis(250));
    let stats = GenerateStats { generated_tokens: 3, ..stats };
    let figures = Figures {
        prompt_seconds: "1.50".to_string(),
        prompt_speed: "8.00".to_string(),
        generate_seconds: "0.25".to_string(),
        generate_speed: "12.00".to_string(),
    };
    let line = stats.log_line(&figures);
    assert_eq!(
        line,
        "prompt 12 tokens in 1.50s (8.00 tok/s), generated 3 tokens in 0.25s (12.00 tok/s)"
    );
    assert_eq!(console_line(true, 2, "x"), "\rorangu-server: [slot 2] x\u{1b}[K");
    assert_eq!(console_line(false, 0, "x"), "orangu-server: [slot 0] x\u{1b}[K");
}

#[test]
fn a_whole_prompt_is_never_taken_over() {
    let mut pool = PrefixCache::new(1);
    let mut c = KvCache::new(1, 4, 1);
    for i in 0..3 {
        c.layers[0].push(&[i], &[i]);
    }
    pool.store(vec![7, 8, 9], c);
    let (matched, entry) = pool.take_best_match(&[7, 8, 9]).unwrap();
    assert_eq!(matched, 3);
    let mut fresh = KvCache::new(1, 6, 1);
    assert_eq!(take_over(3, matched, &entry, &mut fresh), 2);
    assert_eq!(fresh.layers[0].len, 2);
    assert_eq!(fresh.layers[0].key_at(1, 0, 1), [1]);
}

#[test]
fn a_recurrent_state_is_taken_over_whole_or_not_at_all() {
    let cached = |len: usize| {
        let mut c = KvCache::new_mixed(8, &[1], &[(1, 2, 1, 1)]);
        for p in 0..len as u32 {
            c.layers[0].push(&[p], &[p]);
        }
        c.recurrent[0].set_delta_state(0, &[7]);
        c
    };
    let mut pool = PrefixCache::new(1);
    pool.store(vec![1, 2, 3], cached(3));
    let (matched, entry) = pool.take_best_match(&[1, 2, 3]).unwrap();
    assert_eq!(matched, 3);
    let mut fresh = KvCache::new_mixed(8, &[1], &[(1, 2, 1, 1)]);
    assert_eq!(take_over(3, matched, &entry, &mut fresh), 0);
    assert_eq!((fresh.layers[0].len, fresh.recurrent[0].delta_state(0)), (0, &[0u32][..]));
    assert_eq!(take_over(4, matched, &entry, &mut fresh), 3);
    assert_eq!((fresh.layers[0].len, fresh.recurrent[0].delta_state(0)), (3, &[7u32][..]));
}

#[test]
fn live_guards_have_slots_of_their_own() {
    let mut pool = SlotPool::new(3);
    let mut live = Vec::new();
    for step in [true, true, false, true, true, true, false, false, true] {
        if step {
            if let Some(guard) = pool.acquire() {
                live.push(guard);
            }
        } else {
            pool.release(live.remove(0));
        }
        let mut ids: Vec<usize> = live.iter().map(|g| g.id()).collect();
        ids.sort();
        ids.dedup();
        assert_eq!(ids.len(), live.len());
        assert_eq!(pool.busy_count(), live.len());
        assert!(ids.iter().all(|i| pool.snapshot()[*i].busy));
    }
}

#[test]
fn what_is_taken_over_is_told_beforehand() {
    let mut pool = PrefixCache::new(1);
    let mut c = KvCache::new(1, 4, 1);
    for i in 0..3 {
        c.layers[0].push(&[i], &[i]);
    }
    pool.store(vec![7, 8, 9], c);
    let (matched, entry) = pool.take_best_match(&[7, 8, 5]).unwrap();
    assert_eq!(matched, 2);
    assert_eq!(reused_len(3, matched, &entry), 2);
    assert_eq!(reused_len(2, matched, &entry), 1);
    assert_eq!(reused_len(0, matched, &entry), 0);
}
