use orangu_server::role::Role;
use orangu_server::sampling::{
    apply_min_p, apply_top_p, argmax, drawn, penalty_divides, Sampler, SamplingParams,
};
use rand::rngs::StdRng;
use rand::{Rng, SeedableRng};

fn bits(values: &[f32]) -> Vec<u32> {
    values.iter().map(|v| v.to_bits()).collect()
}

/// A sampler together with the arithmetic between its decisions.
struct Chain {
    sampler: Sampler,
    rng: StdRng,
}

impl Chain {
    fn new(params: SamplingParams) -> Self {
        Chain { sampler: Sampler::new(params), rng: StdRng::seed_from_u64(params.seed) }
    }

    fn sample(&mut self, logits: &[f32], recent: &[u32]) -> u32 {
        let p = self.sampler.params();
        let mut logits = logits.to_vec();
        let penalty = f32::from_bits(p.repeat_penalty);
        for t in self.sampler.penalized(recent, logits.len()) {
            let v = &mut logits[t as usize];
            *v = if penalty_divides(v.to_bits()) { *v / penalty } else { *v * penalty };
        }
        if self.sampler.is_greedy() {
            return argmax(&bits(&logits));
        }
        for v in logits.iter_mut() {
            *v /= f32::from_bits(p.temperature);
        }
        let ids = self.sampler.candidates(&bits(&logits));
        let scores: Vec<f32> = ids.iter().map(|&i| logits[i]).collect();
        let max = scores.iter().copied().fold(f32::NEG_INFINITY, f32::max);
        let weights: Vec<f32> = scores.iter().map(|v| (v - max).exp()).collect();
        let sum: f32 = weights.iter().sum();
        let mut candidates: Vec<(u32, u32)> = ids
            .iter()
            .zip(weights.iter())
            .map(|(&i, w)| (i as u32, (w / sum).to_bits()))
            .collect();
        let mut total = 0.0;
        let cumulative: Vec<u32> = candidates
            .iter()
            .map(|c| {
                total += f32::from_bits(c.1);
                total.to_bits()
            })
            .collect();
        apply_top_p(&mut candidates, &cumulative, p.top_p);
        let least = f32::from_bits(p.min_p) * f32::from_bits(candidates[0].1);
        apply_min_p(&mut candidates, p.min_p, least.to_bits());
        let total: f32 = candidates.iter().map(|c| f32::from_bits(c.1)).sum();
        let mut draw = self.rng.random::<f32>() * total;
        let remainders: Vec<u32> = candidates
            .iter()
            .map(|c| {
                draw -= f32::from_bits(c.1);
                draw.to_bits()
            })
            .collect();
        drawn(&candidates, &remainders)
    }
}

#[test]
fn greedy_sampling_is_deterministic_and_picks_the_max() {
    let logits = [0.1, 5.0, 2.0, -1.0];
    let params = SamplingParams { temperature: 0.0f32.to_bits(), ..Default::default() };
    let mut sampler = Chain::new(params);
    for _ in 0..5 {
        assert_eq!(sampler.sample(&logits, &[]), 1);
    }
}

#[test]
fn repeat_penalty_discourages_a_recently_used_token() {
    let logits = [5.0, 5.0, 5.0];
    let params = SamplingParams {
        temperature: 0.0f32.to_bits(),
        repeat_penalty: 1.5f32.to_bits(),
        ..Default::default()
    };
    let mut sampler = Chain::new(params);
    let chosen = sampler.sample(&logits, &[0]);
    assert_ne!(chosen, 0);
}

#[test]
fn same_seed_reproduces_the_same_sequence() {
    let logits = [1.0, 2.0, 3.0, 0.5, 0.1];
    let params =
        SamplingParams { temperature: 1.0f32.to_bits(), seed: 42, ..Default::default() };
    let mut a = Chain::new(params);
    let mut b = Chain::new(params);
    let seq_a: Vec<u32> = (0..10).map(|_| a.sample(&logits, &[])).collect();
    let seq_b: Vec<u32> = (0..10).map(|_| b.sample(&logits, &[])).collect();
    assert_eq!(seq_a, seq_b);
}

#[test]
fn top_p_keeps_at_least_one_candidate() {
    let mut candidates: Vec<(u32, u32)> =
        vec![(0u32, 0.9f32.to_bits()), (1, 0.05f32.to_bits()), (2, 0.05f32.to_bits())];
    apply_top_p(&mut candidates, &bits(&[0.9, 0.95, 1.0]), 0.0001f32.to_bits());
    assert_eq!(candidates.len(), 1);
    assert_eq!(candidates[0].0, 0);
}

#[test]
fn the_usual_parameters_are_known() {
    let p = SamplingParams::default();
    assert_eq!(f32::from_bits(p.temperature), 0.8);
    assert_eq!(p.top_k, 40);
    assert_eq!(f32::from_bits(p.top_p), 0.95);
    assert_eq!(f32::from_bits(p.min_p), 0.05);
    assert_eq!(f32::from_bits(p.repeat_penalty), 1.1);
    assert_eq!((p.repeat_last_n, p.seed), (64, 0));
    let e = SamplingParams::default_for_role(Role::Explorer);
    assert_eq!(f32::from_bits(e.temperature), 0.7);
    assert_eq!(e.top_k, 20);
    assert_eq!(f32::from_bits(e.top_p), 0.8);
    assert_eq!(f32::from_bits(e.min_p), 0.0);
    assert_eq!(e.repeat_penalty, p.repeat_penalty);
    assert_eq!(SamplingParams::default_for_role(Role::Review), p);
}

#[test]
fn greed_begins_at_zero() {
    for (t, greedy) in
        [(0.0f32, true), (-0.0, true), (-1.0, true), (f32::NAN, false), (1e-30, false)]
    {
        let p = SamplingParams { temperature: t.to_bits(), ..Default::default() };
        assert_eq!(Sampler::new(p).is_greedy(), greedy, "{t}");
    }
}

#[test]
fn the_last_of_the_best_scores_wins() {
    assert_eq!(argmax(&bits(&[1.0, 3.0, 3.0, 2.0])), 2);
    assert_eq!(argmax(&bits(&[-1.0, -3.0])), 0);
    assert_eq!(argmax(&bits(&[-0.0, 0.0, -0.0])), 1);
    assert_eq!(argmax(&bits(&[f32::INFINITY, f32::NAN, 1.0])), 1);
    assert_eq!(argmax(&[]), 0);
}

#[test]
fn a_penalty_strikes_the_last_tokens_each_time() {
    let p = SamplingParams { repeat_last_n: 3, ..Default::default() };
    let s = Sampler::new(p);
    assert_eq!(s.penalized(&[1, 2, 9, 2], 5), vec![2, 2]);
    let p = SamplingParams { repeat_penalty: 1.0f32.to_bits(), ..Default::default() };
    assert!(Sampler::new(p).penalized(&[1, 2], 5).is_empty());
    assert!(penalty_divides(2.0f32.to_bits()));
    assert!(!penalty_divides((-2.0f32).to_bits()));
    assert!(!penalty_divides(0));
}

#[test]
fn candidates_come_best_first() {
    let scores = bits(&[1.0, 4.0, 2.0, 4.0, 3.0]);
    let p = SamplingParams { top_k: 3, ..Default::default() };
    assert_eq!(Sampler::new(p).candidates(&scores), vec![1, 3, 4]);
    let p = SamplingParams { top_k: 0, ..Default::default() };
    assert_eq!(Sampler::new(p).candidates(&scores), vec![1, 3, 4, 2, 0]);
}

#[test]
fn unlikely_candidates_are_dropped_from_the_first_on() {
    let all: Vec<(u32, u32)> =
        vec![(5, 0.5f32.to_bits()), (6, 0.04f32.to_bits()), (7, 0.1f32.to_bits())];
    let mut c = all.clone();
    apply_min_p(&mut c, 0.1f32.to_bits(), 0.05f32.to_bits());
    assert_eq!(c, all[..1]);
    let mut c = all.clone();
    apply_min_p(&mut c, 0, 0.05f32.to_bits());
    assert_eq!(c, all);
    let mut c = all.clone();
    apply_top_p(&mut c, &bits(&[0.5, 0.54, 0.64]), 0.52f32.to_bits());
    assert_eq!(c, all[..2]);
    let mut c = all.clone();
    apply_top_p(&mut c, &bits(&[0.5, 0.54, 0.64]), 1.0f32.to_bits());
    assert_eq!(c, all);
}

#[test]
fn a_draw_hits_where_it_is_used_up() {
    let c: Vec<(u32, u32)> = vec![(5, 0), (6, 0), (7, 0)];
    assert_eq!(drawn(&c, &bits(&[0.3, -0.1, -0.2])), 6);
    assert_eq!(drawn(&c, &bits(&[0.3, 0.2, 0.1])), 5);
    assert_eq!(drawn(&[], &[]), 0);
}

#[test]
fn greed_takes_the_same_tokens_with_every_seed() {
    let steps: Vec<(Vec<f32>, Vec<u32>)> = vec![
        (vec![1.0, 2.0, 3.0, 0.5], vec![]),
        (vec![1.0, 2.9, 3.0, 0.5], vec![2]),
        (vec![-1.0, -2.0, -1.0], vec![0, 9]),
    ];
    for (temperature, want) in [(0.0f32, vec![2, 1, 2]), (-1.0, vec![2, 1, 2])] {
        for seed in [0, 1, 42] {
            let params =
                SamplingParams { temperature: temperature.to_bits(), seed, ..Default::default() };
            let mut chain = Chain::new(params);
            let got: Vec<u32> = steps.iter().map(|(l, r)| chain.sample(l, r)).collect();
            assert_eq!(got, want);
        }
    }
    let params = SamplingParams { temperature: 1.5f32.to_bits(), seed: 7, ..Default::default() };
    let (mut a, mut b) = (Chain::new(params), Chain::new(params));
    for (l, r) in steps.iter().cycle().take(30) {
        let token = a.sample(l, r);
        assert_eq!(token, b.sample(l, r));
        assert!((token as usize) < l.len());
    }
}
