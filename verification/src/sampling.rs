//! Choosing the next token. The scores are single-precision values, held as bits.
//! What is decided here is which scores a penalty strikes, which candidates stay
//! and in what order, and which of them a draw hits; the sums, quotients and
//! exponentials in between are handed in.

use vstd::prelude::*;

use crate::ranking;
use crate::ranking::top_ranked;
use crate::role::Role;
use crate::single;
use crate::single::{is_single_above, is_single_at_least, total_order_key};

verus! {

/// The parameters of sampling. Floats are held as the bits of their single
/// precision encoding.
#[derive(Clone, Copy, Debug, PartialEq, Eq, Structural)]
pub struct SamplingParams {
    pub temperature: u32,
    pub top_k: usize,
    pub top_p: u32,
    pub min_p: u32,
    pub repeat_penalty: u32,
    pub repeat_last_n: usize,
    pub seed: u64,
}

/// The parameters where a request sets none: a temperature of 0.8, the best 40
/// candidates, 0.95 of the probability, no candidate under 0.05 of the best one's,
/// and a penalty of 1.1 on the last 64 tokens.
pub open spec fn usual_params() -> SamplingParams {
    SamplingParams {
        temperature: 0x3f4c_cccd,
        top_k: 40,
        top_p: 0x3f73_3333,
        min_p: 0x3d4c_cccd,
        repeat_penalty: 0x3f8c_cccd,
        repeat_last_n: 64,
        seed: 0,
    }
}

impl Default for SamplingParams {
    fn default() -> (r: Self)
        ensures
            r == usual_params(),
            r.temperature == 0x3f4c_cccd,
            r.top_k == 40,
            r.top_p == 0x3f73_3333,
            r.min_p == 0x3d4c_cccd,
            r.repeat_penalty == 0x3f8c_cccd,
            r.repeat_last_n == 64,
            r.seed == 0,
    {
        SamplingParams {
            temperature: 0x3f4c_cccd,
            top_k: 40,
            top_p: 0x3f73_3333,
            min_p: 0x3d4c_cccd,
            repeat_penalty: 0x3f8c_cccd,
            repeat_last_n: 64,
            seed: 0,
        }
    }
}

impl SamplingParams {
    /// The parameters of a role: for an explorer a temperature of 0.7, the best 20
    /// candidates, 0.8 of the probability and no least probability; the usual ones
    /// for all others.
    pub open spec fn for_role(role: Role) -> SamplingParams {
        if role == Role::Explorer {
            SamplingParams {
                temperature: 0x3f33_3333,
                top_k: 20,
                top_p: 0x3f4c_cccd,
                min_p: 0,
                ..usual_params()
            }
        } else {
            usual_params()
        }
    }

    /// The parameters of a role.
    pub fn default_for_role(role: Role) -> (r: Self)
        ensures
            r == SamplingParams::for_role(role),
            role != Role::Explorer ==> r.temperature == 0x3f4c_cccd && r.top_k == 40 && r.top_p
                == 0x3f73_3333 && r.min_p == 0x3d4c_cccd,
            role == Role::Explorer ==> r.temperature == 0x3f33_3333 && r.top_k == 20 && r.top_p
                == 0x3f4c_cccd && r.min_p == 0,
            r.repeat_penalty == 0x3f8c_cccd,
            r.repeat_last_n == 64,
            r.seed == 0,
    {
        let usual = SamplingParams::default();
        match role {
            Role::Explorer => SamplingParams {
                temperature: 0x3f33_3333,
                top_k: 20,
                top_p: 0x3f4c_cccd,
                min_p: 0,
                repeat_penalty: usual.repeat_penalty,
                repeat_last_n: usual.repeat_last_n,
                seed: usual.seed,
            },
            Role::All | Role::Code | Role::Review | Role::Embedding => usual,
        }
    }
}

/// The keys that order scores, those of no number too.
pub open spec fn score_keys(scores: Seq<u32>) -> Seq<u64> {
    scores.map_values(|s: u32| single::total_key(s) as u64)
}

/// Whether entry `i` has the greatest score, and is the last that has it.
pub open spec fn is_argmax(scores: Seq<u32>, i: int) -> bool {
    &&& 0 <= i < scores.len()
    &&& forall|j: int|
        0 <= j < scores.len() ==> single::total_key(#[trigger] scores[j]) <= single::total_key(
            scores[i],
        )
    &&& forall|j: int|
        i < j < scores.len() ==> single::total_key(#[trigger] scores[j]) < single::total_key(
            scores[i],
        )
}

/// The start of the tokens that a penalty looks at: the last `n`.
pub open spec fn recent_from(len: nat, n: nat) -> int {
    if len <= n {
        0
    } else {
        len - n
    }
}

/// The tokens whose scores a penalty strikes, in order and once for each time that
/// they come up: those of the last ones that have a score. A penalty of one strikes
/// none.
pub open spec fn struck(recent: Seq<u32>, params: SamplingParams, n_scores: nat) -> Seq<u32> {
    if params.repeat_penalty == single::ONE {
        Seq::empty()
    } else {
        recent.skip(recent_from(recent.len(), params.repeat_last_n as nat)).filter(
            |t: u32| t < n_scores,
        )
    }
}

/// The number of candidates that stay of `n`: all, or the best `top_k`.
pub open spec fn kept_count(top_k: nat, n: nat) -> nat {
    if 0 < top_k < n {
        top_k
    } else {
        n
    }
}

/// The number of candidates after which the summed probability has reached
/// `top_p`; all of them where it never does.
pub open spec fn reached_after(cumulative: Seq<u32>, top_p: u32) -> nat
    decreases cumulative.len(),
{
    if cumulative.len() == 0 {
        0
    } else if single::single_at_least(cumulative[0], top_p) {
        1
    } else {
        1 + reached_after(cumulative.drop_first(), top_p)
    }
}

/// The number of leading candidates with a probability of at least `least`.
pub open spec fn likely_count(candidates: Seq<(u32, u32)>, least: u32) -> nat
    decreases candidates.len(),
{
    if candidates.len() == 0 || !single::single_at_least(candidates[0].1, least) {
        0
    } else {
        1 + likely_count(candidates.drop_first(), least)
    }
}

/// The leading `n` candidates, and at least one where there is one.
pub open spec fn leading(candidates: Seq<(u32, u32)>, n: nat) -> Seq<(u32, u32)> {
    let m = if n == 0 {
        1
    } else {
        n as int
    };
    if m <= candidates.len() {
        candidates.take(m)
    } else {
        candidates
    }
}

/// The candidate at which what remains of a draw is no longer above zero: the
/// first where it never is, and token zero where there is none.
pub open spec fn hit(candidates: Seq<(u32, u32)>, remainders: Seq<u32>) -> u32 {
    if exists|i: int| first_hit(candidates, remainders, i) {
        candidates[choose|i: int| first_hit(candidates, remainders, i)].0
    } else if candidates.len() > 0 {
        candidates[0].0
    } else {
        0
    }
}

/// Whether the draw is used up at candidate `i` and not before.
pub open spec fn first_hit(candidates: Seq<(u32, u32)>, remainders: Seq<u32>, i: int) -> bool {
    &&& 0 <= i < candidates.len()
    &&& i < remainders.len()
    &&& single::single_at_least(0, remainders[i])
    &&& forall|j: int| 0 <= j < i ==> !single::single_at_least(0, #[trigger] remainders[j])
}

/// Chooses tokens by its parameters.
#[derive(Debug)]
pub struct Sampler {
    params: SamplingParams,
}

impl Sampler {
    /// The parameters.
    pub closed spec fn view(&self) -> SamplingParams {
        self.params
    }

    pub fn new(params: SamplingParams) -> (r: Self)
        ensures
            r@ == params,
    {
        Sampler { params }
    }

    /// The parameters.
    pub fn params(&self) -> (r: SamplingParams)
        ensures
            r == self@,
    {
        self.params
    }

    /// Whether the best score is taken without a draw: at a temperature of zero or
    /// below.
    pub fn is_greedy(&self) -> (r: bool)
        ensures
            r == single::single_at_least(0, self@.temperature),
    {
        is_single_at_least(0, self.params.temperature)
    }

    /// The penalty on recent tokens, as bits.
    pub fn repeat_penalty(&self) -> (r: u32)
        ensures
            r == self@.repeat_penalty,
    {
        self.params.repeat_penalty
    }

    /// The number of recent tokens that the penalty looks at.
    pub fn repeat_last_n(&self) -> (r: usize)
        ensures
            r == self@.repeat_last_n,
    {
        self.params.repeat_last_n
    }

    /// The tokens whose scores the penalty strikes, in order.
    pub fn penalized(&self, recent_tokens: &[u32], n_scores: usize) -> (out: Vec<u32>)
        ensures
            out@ == struck(recent_tokens@, self@, n_scores as nat),
            self@.repeat_penalty == 0x3f80_0000 ==> out@.len() == 0,
    {
        let mut out: Vec<u32> = Vec::new();
        if self.params.repeat_penalty == single::ONE {
            return out;
        }
        let total: usize = recent_tokens.len();
        let start: usize = if total <= self.params.repeat_last_n {
            0
        } else {
            total - self.params.repeat_last_n
        };
        let ghost part = recent_tokens@.skip(start as int);
        let ghost pred = |t: u32| t < n_scores as nat;
        let mut i: usize = start;
        assert(part.take(0).filter(pred) =~= Seq::<u32>::empty()) by {
            reveal(Seq::filter);
        }
        while i < total
            invariant
                start <= i <= total,
                total == recent_tokens@.len(),
                part == recent_tokens@.skip(start as int),
                pred == (|t: u32| t < n_scores as nat),
                out@ == part.take(i - start).filter(pred),
            decreases total - i,
        {
            let token: u32 = recent_tokens[i];
            proof {
                let n = i - start;
                assert(part.take(n + 1).drop_last() =~= part.take(n));
                assert(part.take(n + 1).last() == token);
                reveal(Seq::filter);
            }
            if (token as usize) < n_scores {
                out.push(token);
            }
            i += 1;
        }
        assert(part.take(total - start) =~= part);
        out
    }

    /// The candidates that stay, the best first: all, or the best `top_k`. Equal
    /// scores stay in the order of their tokens.
    pub fn candidates(&self, scores: &[u32]) -> (ids: Vec<usize>)
        ensures
            ranking::is_top(
                score_keys(scores@),
                kept_count(self@.top_k as nat, scores@.len()),
                ids@,
            ),
            ids@.len() == (if 0 < self@.top_k && self@.top_k < scores@.len() {
                self@.top_k as nat
            } else {
                scores@.len()
            }),
            forall|i: int| 0 <= i < ids@.len() ==> (#[trigger] ids@[i]) < scores@.len(),
            forall|i: int, j: int|
                0 <= i < j < ids@.len() ==> {
                    let (x, y) = (
                        single::total_key(scores@[#[trigger] ids@[i] as int]),
                        single::total_key(scores@[#[trigger] ids@[j] as int]),
                    );
                    x > y || (x == y && ids@[i] < ids@[j])
                },
            forall|i: int, a: int|
                0 <= i < ids@.len() && 0 <= a < scores@.len() && !ids@.contains(a as usize)
                    ==> single::total_key(#[trigger] scores@[a]) <= single::total_key(
                    scores@[#[trigger] ids@[i] as int],
                ),
    {
        let n: usize = scores.len();
        let mut keys: Vec<u64> = Vec::new();
        let mut i: usize = 0;
        while i < n
            invariant
                n == scores@.len(),
                i <= n,
                keys@.len() == i,
                forall|j: int| 0 <= j < i ==> keys@[j] == single::total_key(scores@[j]),
            decreases n - i,
        {
            keys.push(total_order_key(scores[i]) as u64);
            i += 1;
        }
        assert(keys@ =~= score_keys(scores@));
        let k: usize = if 0 < self.params.top_k && self.params.top_k < n {
            self.params.top_k
        } else {
            n
        };
        let ids = top_ranked(keys.as_slice(), k);
        proof {
            assert forall|i: int, j: int| 0 <= i < j < ids@.len() implies {
                let (x, y) = (
                    single::total_key(scores@[#[trigger] ids@[i] as int]),
                    single::total_key(scores@[#[trigger] ids@[j] as int]),
                );
                x > y || (x == y && ids@[i] < ids@[j])
            } by {
                assert(ranking::ranks_before(keys@, ids@[i] as int, ids@[j] as int));
            }
            assert forall|i: int, a: int|
                0 <= i < ids@.len() && 0 <= a < scores@.len() && !ids@.contains(
                    a as usize,
                ) implies single::total_key(#[trigger] scores@[a]) <= single::total_key(
                scores@[#[trigger] ids@[i] as int],
            ) by {
                assert(ranking::ranks_before(keys@, ids@[i] as int, a));
            }
        }
        ids
    }
}

/// Whether a penalty divides a score, rather than multiplies it: where it is above
/// zero.
pub fn penalty_divides(score: u32) -> (r: bool)
    ensures
        r == single::single_above(score, 0),
{
    is_single_above(score, 0)
}

/// The token with the best score; the last of those that share it.
pub fn argmax(scores: &[u32]) -> (r: u32)
    requires
        scores@.len() <= u32::MAX,
    ensures
        scores@.len() == 0 ==> r == 0,
        scores@.len() > 0 ==> is_argmax(scores@, r as int),
{
    let n: usize = scores.len();
    if n == 0 {
        return 0;
    }
    let mut best: usize = 0;
    let mut best_key: u32 = total_order_key(scores[0]);
    let mut i: usize = 1;
    while i < n
        invariant
            n == scores@.len(),
            n <= u32::MAX,
            best < i <= n,
            best_key == single::total_key(scores@[best as int]),
            forall|j: int| 0 <= j < i ==> single::total_key(#[trigger] scores@[j]) <= best_key,
            forall|j: int| best < j < i ==> single::total_key(#[trigger] scores@[j]) < best_key,
        decreases n - i,
    {
        let k: u32 = total_order_key(scores[i]);
        if k >= best_key {
            best = i;
            best_key = k;
        }
        i += 1;
    }
    best as u32
}

/// Keeps the fewest leading candidates whose summed probability reaches `top_p`,
/// and at least one. `cumulative` holds the sums.
pub fn apply_top_p(candidates: &mut Vec<(u32, u32)>, cumulative: &[u32], top_p: u32)
    requires
        cumulative@.len() == old(candidates)@.len(),
    ensures
        final(candidates)@ == (if single::single_at_least(top_p, single::ONE) {
            old(candidates)@
        } else {
            leading(old(candidates)@, reached_after(cumulative@, top_p))
        }),
        final(candidates)@.len() <= old(candidates)@.len(),
        final(candidates)@ == old(candidates)@.take(final(candidates)@.len() as int),
        old(candidates)@.len() > 0 ==> final(candidates)@.len() > 0,
        !single::single_at_least(top_p, single::ONE) ==> {
            let n = final(candidates)@.len() as int;
            &&& forall|i: int|
                0 <= i < n - 1 ==> !single::single_at_least(#[trigger] cumulative@[i], top_p)
            &&& n < old(candidates)@.len() ==> single::single_at_least(cumulative@[n - 1], top_p)
        },
{
    proof {
        top_p_keeps_the_fewest(candidates@, cumulative@, top_p);
    }
    if is_single_at_least(top_p, single::ONE) {
        return;
    }
    let n: usize = cumulative.len();
    let mut cutoff: usize = 0;
    let mut reached: bool = false;
    assert(cumulative@.skip(0) =~= cumulative@);
    while cutoff < n && !reached
        invariant
            n == cumulative@.len(),
            cutoff <= n,
            reached ==> reached_after(cumulative@, top_p) == cutoff && cutoff > 0,
            !reached ==> reached_after(cumulative@, top_p) == cutoff + reached_after(
                cumulative@.skip(cutoff as int),
                top_p,
            ),
        decreases n - cutoff + (if reached {
            0int
        } else {
            1int
        }),
    {
        assert(cumulative@.skip(cutoff as int).drop_first() =~= cumulative@.skip(cutoff + 1));
        if is_single_at_least(cumulative[cutoff], top_p) {
            reached = true;
        }
        cutoff += 1;
    }
    candidates.truncate(
        if cutoff == 0 {
            1
        } else {
            cutoff
        },
    );
    assert(candidates@ =~= leading(old(candidates)@, cutoff as nat));
}

/// Drops the candidates from the first on whose probability is under `least`, but
/// keeps one. `least` is `min_p` times the best probability; a `min_p` of zero or
/// below drops none.
pub fn apply_min_p(candidates: &mut Vec<(u32, u32)>, min_p: u32, least: u32)
    ensures
        final(candidates)@ == (if single::single_at_least(0, min_p) {
            old(candidates)@
        } else {
            leading(old(candidates)@, likely_count(old(candidates)@, least))
        }),
        final(candidates)@.len() <= old(candidates)@.len(),
        final(candidates)@ == old(candidates)@.take(final(candidates)@.len() as int),
        old(candidates)@.len() > 0 ==> final(candidates)@.len() > 0,
        !single::single_at_least(0, min_p) ==> {
            let n = final(candidates)@.len() as int;
            &&& forall|i: int|
                1 <= i < n ==> single::single_at_least((#[trigger] old(candidates)@[i]).1, least)
            &&& n > 1 ==> single::single_at_least(old(candidates)@[0].1, least)
            &&& n < old(candidates)@.len() ==> !single::single_at_least(
                old(candidates)@[n].1,
                least,
            ) || (n == 1 && !single::single_at_least(old(candidates)@[0].1, least))
        },
{
    proof {
        min_p_keeps_the_likely(candidates@, least);
    }
    if is_single_at_least(0, min_p) || candidates.len() == 0 {
        return;
    }
    let mut keep: usize = 0;
    let ghost all = candidates@;
    assert(all.skip(0) =~= all);
    while keep < candidates.len() && is_single_at_least(candidates[keep].1, least)
        invariant
            all == candidates@,
            keep <= all.len(),
            likely_count(all, least) == keep + likely_count(all.skip(keep as int), least),
        decreases all.len() - keep,
    {
        assert(all.skip(keep as int).drop_first() =~= all.skip(keep + 1));
        keep += 1;
    }
    candidates.truncate(
        if keep == 0 {
            1
        } else {
            keep
        },
    );
    assert(candidates@ =~= leading(all, keep as nat));
}

/// The token that a draw hits. `remainders` holds what is left of the draw after
/// each candidate's probability is taken from it.
pub fn drawn(candidates: &[(u32, u32)], remainders: &[u32]) -> (r: u32)
    requires
        candidates@.len() == remainders@.len(),
    ensures
        r == hit(candidates@, remainders@),
        forall|i: int|
            0 <= i < candidates@.len() && single::single_at_least(0, remainders@[i]) && (forall|j: int|
                0 <= j < i ==> !single::single_at_least(0, #[trigger] remainders@[j])) ==> r == (
            #[trigger] candidates@[i]).0,
        (forall|j: int|
            0 <= j < remainders@.len() ==> !single::single_at_least(0, #[trigger] remainders@[j]))
            ==> r == (if candidates@.len() > 0 {
            candidates@[0].0
        } else {
            0
        }),
{
    proof {
        assert forall|i: int|
            0 <= i < candidates@.len() && single::single_at_least(0, remainders@[i]) && (forall|j: int|
                0 <= j < i ==> !single::single_at_least(
                    0,
                    #[trigger] remainders@[j],
                )) implies hit(candidates@, remainders@) == (#[trigger] candidates@[i]).0 by {
            a_draw_is_used_up_once(candidates@, remainders@, i);
        }
        if forall|j: int|
            0 <= j < remainders@.len() ==> !single::single_at_least(0, #[trigger] remainders@[j]) {
            a_draw_that_is_left_takes_the_best(candidates@, remainders@);
        }
    }
    let n: usize = candidates.len();
    let mut i: usize = 0;
    while i < n
        invariant
            n == candidates@.len(),
            n == remainders@.len(),
            i <= n,
            forall|j: int| 0 <= j < i ==> !single::single_at_least(0, #[trigger] remainders@[j]),
        decreases n - i,
    {
        if is_single_at_least(0, remainders[i]) {
            assert(first_hit(candidates@, remainders@, i as int));
            let ghost c = choose|k: int| first_hit(candidates@, remainders@, k);
            assert(c == i);
            return candidates[i].0;
        }
        i += 1;
    }
    if n > 0 {
        candidates[0].0
    } else {
        0
    }
}

/// Candidates never run out: of one or more, one or more stay.
pub proof fn a_candidate_stays(candidates: Seq<(u32, u32)>, n: nat)
    requires
        candidates.len() > 0,
    ensures
        leading(candidates, n).len() > 0,
        leading(candidates, n)[0] == candidates[0],
{
}

/// What a draw hits is one of the candidates.
pub proof fn a_draw_hits_a_candidate(candidates: Seq<(u32, u32)>, remainders: Seq<u32>)
    requires
        candidates.len() > 0,
    ensures
        exists|i: int| 0 <= i < candidates.len() && (#[trigger] candidates[i]).0 == hit(
            candidates,
            remainders,
        ),
{
    if exists|i: int| first_hit(candidates, remainders, i) {
        let i = choose|i: int| first_hit(candidates, remainders, i);
        assert(candidates[i].0 == hit(candidates, remainders));
    } else {
        assert(candidates[0].0 == hit(candidates, remainders));
    }
}

/// The arithmetic between the decisions: what quotients and products come to, the
/// probabilities of scores, their running sums, what is left of a draw after each of
/// them, and the draws that a seed gives one after another.
pub struct Arithmetic {
    pub quotient: spec_fn(u32, u32) -> u32,
    pub product: spec_fn(u32, u32) -> u32,
    pub probabilities: spec_fn(Seq<u32>) -> Seq<u32>,
    pub sums: spec_fn(Seq<u32>) -> Seq<u32>,
    pub remainders: spec_fn(Seq<u32>, u32) -> Seq<u32>,
    pub draw: spec_fn(u64, nat) -> u32,
}

/// The scores after a penalty has struck some tokens, one after another.
pub open spec fn after_penalty(
    m: Arithmetic,
    scores: Seq<u32>,
    tokens: Seq<u32>,
    penalty: u32,
) -> Seq<u32>
    decreases tokens.len(),
{
    if tokens.len() == 0 {
        scores
    } else {
        let before = after_penalty(m, scores, tokens.drop_last(), penalty);
        let t = tokens.last() as int;
        before.update(
            t,
            if single::single_above(before[t], 0) {
                (m.quotient)(before[t], penalty)
            } else {
                (m.product)(before[t], penalty)
            },
        )
    }
}

/// The scores of a step: those of the model after the penalty on recent tokens.
pub open spec fn step_scores(
    m: Arithmetic,
    params: SamplingParams,
    logits: Seq<u32>,
    recent: Seq<u32>,
) -> Seq<u32> {
    after_penalty(m, logits, struck(recent, params, logits.len()), params.repeat_penalty)
}

/// The candidates among ranked tokens that a draw is made from, with their
/// probabilities.
pub open spec fn step_candidates(
    m: Arithmetic,
    params: SamplingParams,
    scores: Seq<u32>,
    ids: Seq<usize>,
) -> Seq<(u32, u32)> {
    let probabilities = (m.probabilities)(Seq::new(ids.len(), |i: int| scores[ids[i] as int]));
    let ranked = Seq::new(ids.len(), |i: int| (ids[i] as u32, probabilities[i]));
    let top = if single::single_at_least(params.top_p, single::ONE) {
        ranked
    } else {
        leading(ranked, reached_after((m.sums)(probabilities), params.top_p))
    };
    if single::single_at_least(0, params.min_p) {
        top
    } else {
        leading(top, likely_count(top, (m.product)(params.min_p, top[0].1)))
    }
}

/// Whether a step may give a token: the best score without a draw at a temperature of
/// zero or below, and what the draw hits among the candidates otherwise.
pub open spec fn gives(
    m: Arithmetic,
    params: SamplingParams,
    logits: Seq<u32>,
    recent: Seq<u32>,
    draw: u32,
    token: u32,
) -> bool {
    let scores = step_scores(m, params, logits, recent);
    if single::single_at_least(0, params.temperature) {
        &&& scores.len() == 0 ==> token == 0
        &&& scores.len() > 0 ==> is_argmax(scores, token as int)
    } else {
        let scaled = scores.map_values(|s: u32| (m.quotient)(s, params.temperature));
        exists|ids: Seq<usize>|
            {
                &&& #[trigger] ranking::is_top(
                    score_keys(scaled),
                    kept_count(params.top_k as nat, scaled.len()),
                    ids,
                )
                &&& token == drawn_token(m, step_candidates(m, params, scaled, ids), draw)
            }
    }
}

/// The token that a draw hits among candidates.
pub open spec fn drawn_token(m: Arithmetic, candidates: Seq<(u32, u32)>, draw: u32) -> u32 {
    hit(candidates, (m.remainders)(candidates.map_values(|c: (u32, u32)| c.1), draw))
}

/// Whether a sampler may give these tokens, one for the logits and the recent tokens of
/// each step. The draws are those of its seed, in their order.
pub open spec fn gives_all(
    m: Arithmetic,
    params: SamplingParams,
    steps: Seq<(Seq<u32>, Seq<u32>)>,
    tokens: Seq<u32>,
) -> bool {
    &&& tokens.len() == steps.len()
    &&& forall|i: int|
        0 <= i < steps.len() ==> gives(
            m,
            params,
            (#[trigger] steps[i]).0,
            steps[i].1,
            (m.draw)(params.seed, i as nat),
            tokens[i],
        )
}

/// A penalty changes scores, not their number.
proof fn penalty_keeps_the_number(
    m: Arithmetic,
    scores: Seq<u32>,
    tokens: Seq<u32>,
    penalty: u32,
)
    requires
        forall|i: int| 0 <= i < tokens.len() ==> (#[trigger] tokens[i]) < scores.len(),
    ensures
        after_penalty(m, scores, tokens, penalty).len() == scores.len(),
    decreases tokens.len(),
{
    if tokens.len() > 0 {
        assert(tokens[tokens.len() - 1] < scores.len());
        penalty_keeps_the_number(m, scores, tokens.drop_last(), penalty);
    }
}

/// A penalty strikes tokens that have a score.
proof fn struck_tokens_have_scores(recent: Seq<u32>, params: SamplingParams, n: nat)
    ensures
        forall|i: int|
            0 <= i < struck(recent, params, n).len() ==> (#[trigger] struck(recent, params, n)[i])
                < n,
{
    if params.repeat_penalty != single::ONE {
        let part = recent.skip(recent_from(recent.len(), params.repeat_last_n as nat));
        let pred = |t: u32| t < n;
        assert forall|i: int| 0 <= i < part.filter(pred).len() implies (#[trigger] part.filter(
            pred,
        )[i]) < n by {
            part.lemma_filter_pred(pred, i);
        }
    }
}

/// The candidates that a draw is made from are ranked tokens, and of one or more of
/// those there is one.
proof fn candidates_are_ranked(
    m: Arithmetic,
    params: SamplingParams,
    scores: Seq<u32>,
    ids: Seq<usize>,
)
    requires
        ids.len() > 0,
        forall|i: int| 0 <= i < ids.len() ==> (#[trigger] ids[i]) < scores.len(),
        scores.len() <= u32::MAX,
    ensures
        step_candidates(m, params, scores, ids).len() > 0,
        forall|i: int|
            0 <= i < step_candidates(m, params, scores, ids).len() ==> (#[trigger] step_candidates(
                m,
                params,
                scores,
                ids,
            )[i]).0 < scores.len(),
{
    let probabilities = (m.probabilities)(Seq::new(ids.len(), |i: int| scores[ids[i] as int]));
    let ranked = Seq::new(ids.len(), |i: int| (ids[i] as u32, probabilities[i]));
    assert forall|i: int| 0 <= i < ranked.len() implies (#[trigger] ranked[i]).0 < scores.len() by {
        assert(ids[i] < scores.len());
    }
}

/// The same parameters, logits, recent tokens and draw give the same token, and it is
/// one that has a score. At a temperature of zero or below it has the best one after the
/// penalty, and the draw does not matter.
pub proof fn equal_inputs_give_an_equal_token(
    m: Arithmetic,
    params: SamplingParams,
    logits: Seq<u32>,
    recent: Seq<u32>,
    draw: u32,
    other: u32,
    a: u32,
    b: u32,
)
    requires
        logits.len() <= u32::MAX,
        logits.len() <= usize::MAX,
        gives(m, params, logits, recent, draw, a),
        gives(m, params, logits, recent, other, b),
        draw == other || single::single_at_least(0, params.temperature),
    ensures
        a == b,
        logits.len() > 0 ==> a < logits.len(),
        logits.len() > 0 && single::single_at_least(0, params.temperature) ==> is_argmax(
            step_scores(m, params, logits, recent),
            a as int,
        ),
{
    let scores = step_scores(m, params, logits, recent);
    struck_tokens_have_scores(recent, params, logits.len());
    penalty_keeps_the_number(
        m,
        logits,
        struck(recent, params, logits.len()),
        params.repeat_penalty,
    );
    if single::single_at_least(0, params.temperature) {
        if a < b {
            assert(single::total_key(scores[b as int]) < single::total_key(scores[a as int]));
        } else if b < a {
            assert(single::total_key(scores[a as int]) < single::total_key(scores[b as int]));
        }
    } else {
        let scaled = scores.map_values(|s: u32| (m.quotient)(s, params.temperature));
        let keys = score_keys(scaled);
        let k = kept_count(params.top_k as nat, scaled.len());
        let x = choose|ids: Seq<usize>|
            {
                &&& #[trigger] ranking::is_top(keys, k, ids)
                &&& a == drawn_token(m, step_candidates(m, params, scaled, ids), draw)
            };
        let y = choose|ids: Seq<usize>|
            {
                &&& #[trigger] ranking::is_top(keys, k, ids)
                &&& b == drawn_token(m, step_candidates(m, params, scaled, ids), other)
            };
        ranking::top_is_unique(keys, k, x, y);
        if logits.len() > 0 {
            candidates_are_ranked(m, params, scaled, x);
            let kept = step_candidates(m, params, scaled, x);
            a_draw_hits_a_candidate(
                kept,
                (m.remainders)(kept.map_values(|c: (u32, u32)| c.1), draw),
            );
        }
    }
}

/// Samplers with the same parameters, and so the same seed, give the same tokens for the
/// same steps, each of them one that has a score.
pub proof fn equal_seeds_give_equal_tokens(
    m: Arithmetic,
    params: SamplingParams,
    steps: Seq<(Seq<u32>, Seq<u32>)>,
    a: Seq<u32>,
    b: Seq<u32>,
)
    requires
        forall|i: int|
            0 <= i < steps.len() ==> (#[trigger] steps[i]).0.len() <= u32::MAX && steps[i].0.len()
                <= usize::MAX,
        gives_all(m, params, steps, a),
        gives_all(m, params, steps, b),
    ensures
        a == b,
        forall|i: int|
            0 <= i < steps.len() && (#[trigger] steps[i]).0.len() > 0 ==> a[i] < steps[i].0.len(),
{
    assert forall|i: int| 0 <= i < steps.len() implies a[i] == b[i] && ((#[trigger] steps[i]).0.len()
        > 0 ==> a[i] < steps[i].0.len()) by {
        let draw = (m.draw)(params.seed, i as nat);
        equal_inputs_give_an_equal_token(
            m,
            params,
            steps[i].0,
            steps[i].1,
            draw,
            draw,
            a[i],
            b[i],
        );
    }
    assert forall|i: int| 0 <= i < a.len() implies a[i] == b[i] by {
        assert(steps[i].0.len() <= u32::MAX);
    }
    assert(a =~= b);
}

/// At a temperature of zero or below the seed does not matter: samplers that differ in it
/// alone give the same tokens, each the one with the best score after the penalty.
pub proof fn greed_needs_no_seed(
    m: Arithmetic,
    params: SamplingParams,
    seed: u64,
    steps: Seq<(Seq<u32>, Seq<u32>)>,
    a: Seq<u32>,
    b: Seq<u32>,
)
    requires
        single::single_at_least(0, params.temperature),
        forall|i: int|
            0 <= i < steps.len() ==> (#[trigger] steps[i]).0.len() <= u32::MAX && steps[i].0.len()
                <= usize::MAX,
        gives_all(m, params, steps, a),
        gives_all(m, (SamplingParams { seed, ..params }), steps, b),
    ensures
        a == b,
        forall|i: int|
            0 <= i < steps.len() && (#[trigger] steps[i]).0.len() > 0 ==> is_argmax(
                step_scores(m, params, steps[i].0, steps[i].1),
                a[i] as int,
            ),
{
    let other = SamplingParams { seed, ..params };
    assert forall|i: int| 0 <= i < steps.len() implies a[i] == b[i] && ((#[trigger] steps[i]).0.len()
        > 0 ==> is_argmax(step_scores(m, params, steps[i].0, steps[i].1), a[i] as int)) by {
        let (logits, recent) = steps[i];
        assert(struck(recent, other, logits.len()) == struck(recent, params, logits.len()));
        assert(step_scores(m, other, logits, recent) == step_scores(m, params, logits, recent));
        equal_inputs_give_an_equal_token(
            m,
            params,
            logits,
            recent,
            (m.draw)(params.seed, i as nat),
            (m.draw)(seed, i as nat),
            a[i],
            b[i],
        );
    }
    assert forall|i: int| 0 <= i < a.len() implies a[i] == b[i] by {
        assert(steps[i].0.len() <= u32::MAX);
    }
    assert(a =~= b);
}

/// A draw hits the candidate at which what is left of it is no longer above zero, the
/// very first included, where it was above zero, or no number, after each one before.
pub proof fn a_draw_is_used_up_once(candidates: Seq<(u32, u32)>, remainders: Seq<u32>, i: int)
    requires
        0 <= i < candidates.len(),
        i < remainders.len(),
        single::single_at_least(0, remainders[i]),
        forall|j: int| 0 <= j < i ==> !single::single_at_least(0, #[trigger] remainders[j]),
    ensures
        hit(candidates, remainders) == candidates[i].0,
{
    assert(first_hit(candidates, remainders, i));
    let c = choose|k: int| first_hit(candidates, remainders, k);
    assert(c == i);
}

/// A draw that is left over after all candidates takes the best one.
pub proof fn a_draw_that_is_left_takes_the_best(candidates: Seq<(u32, u32)>, remainders: Seq<u32>)
    requires
        forall|j: int|
            0 <= j < remainders.len() ==> !single::single_at_least(0, #[trigger] remainders[j]),
    ensures
        candidates.len() > 0 ==> hit(candidates, remainders) == candidates[0].0,
        candidates.len() == 0 ==> hit(candidates, remainders) == 0,
{
}

/// Where the summed probability reaches its bound: it has not after any fewer candidates,
/// and it has after these unless they are all.
pub proof fn the_sum_is_reached_after(cumulative: Seq<u32>, top_p: u32)
    ensures
        ({
            let n = reached_after(cumulative, top_p) as int;
            &&& n <= cumulative.len()
            &&& cumulative.len() > 0 ==> n > 0
            &&& forall|i: int|
                0 <= i < n - 1 ==> !single::single_at_least(#[trigger] cumulative[i], top_p)
            &&& n < cumulative.len() ==> single::single_at_least(cumulative[n - 1], top_p)
        }),
    decreases cumulative.len(),
{
    if cumulative.len() > 0 && !single::single_at_least(cumulative[0], top_p) {
        let rest = cumulative.drop_first();
        the_sum_is_reached_after(rest, top_p);
        let n = reached_after(cumulative, top_p) as int;
        assert forall|i: int| 0 <= i < n - 1 implies !single::single_at_least(
            #[trigger] cumulative[i],
            top_p,
        ) by {
            if i > 0 {
                assert(cumulative[i] == rest[i - 1]);
            }
        }
        if n < cumulative.len() {
            assert(rest.len() > 0);
            assert(cumulative[n - 1] == rest[n - 2]);
        }
    }
}

/// The fewest leading candidates whose summed probability reaches the bound are kept.
proof fn top_p_keeps_the_fewest(candidates: Seq<(u32, u32)>, cumulative: Seq<u32>, top_p: u32)
    requires
        cumulative.len() == candidates.len(),
    ensures
        ({
            let kept = leading(candidates, reached_after(cumulative, top_p));
            let n = kept.len() as int;
            &&& n <= candidates.len()
            &&& kept == candidates.take(n)
            &&& candidates.take(candidates.len() as int) == candidates
            &&& candidates.len() > 0 ==> n > 0
            &&& forall|i: int|
                0 <= i < n - 1 ==> !single::single_at_least(#[trigger] cumulative[i], top_p)
            &&& n < candidates.len() ==> single::single_at_least(cumulative[n - 1], top_p)
        }),
{
    the_sum_is_reached_after(cumulative, top_p);
    assert(candidates.take(candidates.len() as int) =~= candidates);
}

/// The leading candidates that are likely enough: each of them is, and the next is not.
pub proof fn likely_candidates_lead(candidates: Seq<(u32, u32)>, least: u32)
    ensures
        ({
            let n = likely_count(candidates, least) as int;
            &&& n <= candidates.len()
            &&& forall|i: int|
                0 <= i < n ==> single::single_at_least((#[trigger] candidates[i]).1, least)
            &&& n < candidates.len() ==> !single::single_at_least(candidates[n].1, least)
        }),
    decreases candidates.len(),
{
    if candidates.len() > 0 && single::single_at_least(candidates[0].1, least) {
        let rest = candidates.drop_first();
        likely_candidates_lead(rest, least);
        let n = likely_count(candidates, least) as int;
        assert forall|i: int| 0 <= i < n implies single::single_at_least(
            (#[trigger] candidates[i]).1,
            least,
        ) by {
            if i > 0 {
                assert(candidates[i] == rest[i - 1]);
            }
        }
        if n < candidates.len() {
            assert(candidates[n] == rest[n - 1]);
        }
    }
}

/// The leading candidates that are likely enough are kept, and at least one.
proof fn min_p_keeps_the_likely(candidates: Seq<(u32, u32)>, least: u32)
    ensures
        ({
            let kept = leading(candidates, likely_count(candidates, least));
            let n = kept.len() as int;
            &&& n <= candidates.len()
            &&& kept == candidates.take(n)
            &&& candidates.take(candidates.len() as int) == candidates
            &&& candidates.len() > 0 ==> n > 0
            &&& forall|i: int|
                1 <= i < n ==> single::single_at_least((#[trigger] candidates[i]).1, least)
            &&& n > 1 ==> single::single_at_least(candidates[0].1, least)
            &&& n < candidates.len() ==> !single::single_at_least(candidates[n].1, least) || (n == 1
                && !single::single_at_least(candidates[0].1, least))
        }),
{
    likely_candidates_lead(candidates, least);
    assert(candidates.take(candidates.len() as int) =~= candidates);
}

/// A penalty strikes a token as often as it comes up among the last tokens, if it has a
/// score; a penalty of one strikes none.
pub proof fn recent_tokens_are_struck(
    recent: Seq<u32>,
    params: SamplingParams,
    n_scores: nat,
    token: u32,
)
    ensures
        ({
            let n = params.repeat_last_n as int;
            let last = if recent.len() <= n {
                recent
            } else {
                recent.subrange(recent.len() - n, recent.len() as int)
            };
            let times = struck(recent, params, n_scores).to_multiset().count(token);
            &&& params.repeat_penalty == 0x3f80_0000 ==> times == 0
            &&& params.repeat_penalty != 0x3f80_0000 && token >= n_scores ==> times == 0
            &&& params.repeat_penalty != 0x3f80_0000 && token < n_scores ==> times
                == last.to_multiset().count(token)
        }),
{
    broadcast use vstd::seq_lib::group_to_multiset_ensures;

    let n = params.repeat_last_n as int;
    let last = if recent.len() <= n {
        recent
    } else {
        recent.subrange(recent.len() - n, recent.len() as int)
    };
    assert(last =~= recent.skip(recent_from(recent.len(), params.repeat_last_n as nat)));
    filtering_counts(last, |t: u32| t < n_scores, token);
}

/// Filtering keeps what it keeps as often as it comes up.
proof fn filtering_counts(s: Seq<u32>, pred: spec_fn(u32) -> bool, token: u32)
    ensures
        s.filter(pred).to_multiset().count(token) == (if pred(token) {
            s.to_multiset().count(token)
        } else {
            0
        }),
    decreases s.len(),
{
    broadcast use vstd::seq_lib::group_to_multiset_ensures;

    reveal(Seq::filter);
    if s.len() > 0 {
        filtering_counts(s.drop_last(), pred, token);
        assert(s =~= s.drop_last().push(s.last()));
    }
}

/// The best score is no less than any other, and greater than every later one but for a
/// negative zero after the other one.
pub proof fn the_best_score_is_the_greatest(scores: Seq<u32>, i: int, j: int)
    requires
        forall|k: int| 0 <= k < scores.len() ==> !single::is_nan(#[trigger] scores[k]),
        is_argmax(scores, i),
        0 <= j < scores.len(),
    ensures
        single::value(scores[j]) <= single::value(scores[i]),
        j > i ==> single::value(scores[j]) < single::value(scores[i]) || (scores[i] == 0
            && scores[j] == 0x8000_0000),
{
    let (x, y) = (scores[i], scores[j]);
    single::all_bits_are_ordered(y, x);
    single::all_bits_are_ordered(x, y);
    single::numbers_compare_by_value(x, y);
}

/// What a draw is made from are the first of the ranked tokens, each with its probability: all
/// of them where no sum of probabilities short of one is asked for and no least one.
pub proof fn candidates_lead_the_ranking(
    m: Arithmetic,
    params: SamplingParams,
    scores: Seq<u32>,
    ids: Seq<usize>,
    i: int,
)
    requires
        0 <= i < step_candidates(m, params, scores, ids).len(),
        i < ids.len(),
    ensures
        ({
            let ranked = Seq::new(ids.len(), |k: int| scores[ids[k] as int]);
            let candidates = step_candidates(m, params, scores, ids);
            &&& candidates[i].0 == ids[i] as u32
            &&& candidates[i].1 == (m.probabilities)(ranked)[i]
            &&& single::single_at_least(params.top_p, single::ONE) && single::single_at_least(
                0,
                params.min_p,
            ) ==> candidates.len() == ids.len()
        }),
{
}

} // verus!
