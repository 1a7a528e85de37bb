//! Why a request may take over what an earlier one computed: a model that computes the
//! same from the same gives the same tokens either way.

use vstd::prelude::*;

use crate::generate;
use crate::generate::Progress;
use crate::kv_cache::cache;
use crate::kv_cache::layer;
use crate::kv_cache::{KvCache, LayerCache};
use crate::prefix_cache;
use crate::prefix_cache::CachedPrefill;

verus! {

/// What a cache holds: of each layer the keys and values of its positions, and of each
/// recurrent layer its windows and matrices.
#[verifier::ext_equal]
pub struct Contents {
    pub layers: Seq<Seq<(Seq<u32>, Seq<u32>)>>,
    pub states: Seq<(Seq<u32>, Seq<u32>)>,
}

/// The keys and values of the committed positions of a layer.
pub open spec fn rows(l: LayerCache) -> Seq<(Seq<u32>, Seq<u32>)> {
    Seq::new(
        l.len as nat,
        |pos: int|
            (
                l.keys().subrange(pos * l.kv_dim, pos * l.kv_dim + l.kv_dim),
                l.values().subrange(pos * l.kv_dim, pos * l.kv_dim + l.kv_dim),
            ),
    )
}

/// What a cache holds.
pub open spec fn contents(c: KvCache) -> Contents {
    Contents {
        layers: Seq::new(c.layers@.len(), |i: int| rows(c.layers@[i])),
        states: Seq::new(
            c.recurrent@.len(),
            |i: int| (c.recurrent@[i].conv_history@, c.recurrent@[i].delta_state@),
        ),
    }
}

/// A model that computes the same from the same. Of a token it computes, from what the
/// cache holds before it, the keys and values of each layer that keeps its own, the
/// next state of each recurrent layer, and with the tokens so far the token to follow.
pub struct Model {
    pub keeps: Seq<bool>,
    pub start: Seq<(Seq<u32>, Seq<u32>)>,
    pub row: spec_fn(Contents, u32, int) -> (Seq<u32>, Seq<u32>),
    pub state: spec_fn(Contents, u32, int) -> (Seq<u32>, Seq<u32>),
    pub pick: spec_fn(Contents, u32, Seq<u32>) -> u32,
}

impl Model {
    /// What a cache holds before the first token.
    pub open spec fn empty(self) -> Contents {
        Contents {
            layers: Seq::new(self.keeps.len(), |i: int| Seq::empty()),
            states: self.start,
        }
    }

    /// What a cache holds after one more token.
    pub open spec fn step(self, c: Contents, token: u32) -> Contents {
        Contents {
            layers: Seq::new(
                self.keeps.len(),
                |i: int|
                    if self.keeps[i] {
                        c.layers[i].push((self.row)(c, token, i))
                    } else {
                        c.layers[i]
                    },
            ),
            states: Seq::new(self.start.len(), |i: int| (self.state)(c, token, i)),
        }
    }

    /// What a cache holds after some more tokens.
    pub open spec fn forward(self, c: Contents, tokens: Seq<u32>) -> Contents
        decreases tokens.len(),
    {
        if tokens.len() == 0 {
            c
        } else {
            self.step(self.forward(c, tokens.drop_last()), tokens.last())
        }
    }

    /// The next `n` tokens that the model gives, each computed from the one before it.
    pub open spec fn given(self, c: Contents, token: u32, history: Seq<u32>, n: nat) -> Seq<u32>
        decreases n,
    {
        if n == 0 {
            Seq::empty()
        } else {
            let next = (self.pick)(c, token, history);
            seq![next] + self.given(
                self.step(c, token),
                next,
                history.push(next),
                (n - 1) as nat,
            )
        }
    }

    /// The first `n` tokens that the model gives after a prompt whose last tokens,
    /// `tail`, are still to be computed.
    pub open spec fn answer(self, c: Contents, tail: Seq<u32>, prompt: Seq<u32>, n: nat) -> Seq<
        u32,
    > {
        self.given(self.forward(c, tail.drop_last()), tail.last(), prompt, n)
    }
}

/// Computing some tokens and then some more is computing all of them.
pub proof fn forward_in_two_parts(m: Model, c: Contents, a: Seq<u32>, b: Seq<u32>)
    ensures
        m.forward(c, a + b) == m.forward(m.forward(c, a), b),
    decreases b.len(),
{
    if b.len() == 0 {
        assert(a + b =~= a);
    } else {
        assert((a + b).drop_last() =~= a + b.drop_last());
        forward_in_two_parts(m, c, a, b.drop_last());
    }
}

/// The leading positions of a cache are those of the leading tokens.
pub proof fn leading_positions(m: Model, tokens: Seq<u32>, k: int)
    requires
        0 <= k <= tokens.len(),
    ensures
        ({
            let (all, part) = (m.forward(m.empty(), tokens), m.forward(m.empty(), tokens.take(k)));
            &&& all.layers.len() == m.keeps.len()
            &&& part.layers.len() == m.keeps.len()
            &&& all.states.len() == m.start.len()
            &&& part.states.len() == m.start.len()
            &&& forall|i: int|
                #![trigger all.layers[i]]
                0 <= i < m.keeps.len() ==> {
                    &&& all.layers[i].len() == (if m.keeps[i] {
                        tokens.len()
                    } else {
                        0
                    })
                    &&& part.layers[i] == (if m.keeps[i] {
                        all.layers[i].take(k)
                    } else {
                        Seq::empty()
                    })
                }
        }),
    decreases tokens.len(),
{
    let all = m.forward(m.empty(), tokens);
    let part = m.forward(m.empty(), tokens.take(k));
    if tokens.len() == 0 {
        assert(tokens.take(k) =~= tokens);
        assert forall|i: int| 0 <= i < m.keeps.len() && m.keeps[i] implies #[trigger] all.layers[i]
            == all.layers[i].take(k) by {
            assert(all.layers[i] =~= all.layers[i].take(k));
        }
    } else {
        let before = m.forward(m.empty(), tokens.drop_last());
        if k == tokens.len() {
            leading_positions(m, tokens.drop_last(), k - 1);
            assert(tokens.take(k) =~= tokens);
            assert forall|i: int| 0 <= i < m.keeps.len() implies #[trigger] all.layers[i].len() == (
            if m.keeps[i] {
                tokens.len()
            } else {
                0
            }) && part.layers[i] == (if m.keeps[i] {
                all.layers[i].take(k)
            } else {
                Seq::empty()
            }) by {
                assert(before.layers[i].len() == (if m.keeps[i] {
                    tokens.len() - 1
                } else {
                    0
                }));
                assert(all.layers[i].take(all.layers[i].len() as int) =~= all.layers[i]);
                if !m.keeps[i] {
                    assert(all.layers[i] =~= Seq::empty());
                }
            }
        } else {
            leading_positions(m, tokens.drop_last(), k);
            assert(tokens.drop_last().take(k) =~= tokens.take(k));
            assert forall|i: int| 0 <= i < m.keeps.len() implies #[trigger] all.layers[i].len() == (
            if m.keeps[i] {
                tokens.len()
            } else {
                0
            }) && part.layers[i] == (if m.keeps[i] {
                all.layers[i].take(k)
            } else {
                Seq::empty()
            }) by {
                assert(before.layers[i].len() == (if m.keeps[i] {
                    tokens.len() - 1
                } else {
                    0
                }));
                if m.keeps[i] {
                    assert(all.layers[i].take(k) =~= before.layers[i].take(k));
                }
            }
        }
    }
}

/// A layer that took over leading positions holds their keys and values.
pub proof fn rows_are_taken(before: LayerCache, src: LayerCache, n: nat, after: LayerCache)
    requires
        src.wf(),
        0 < n <= src.len,
        before.kv_dim == src.kv_dim,
        layer::prefix_copied(before, src, n, after),
    ensures
        rows(after) == rows(src).take(n as int),
{
    let d = src.kv_dim as int;
    assert forall|pos: int| 0 <= pos < n implies rows(after)[pos] == rows(src).take(
        n as int,
    )[pos] by {
        assert(0 <= pos * d && pos * d + d <= n * d && n * d <= src.len * d && src.len * d
            <= src.capacity * d) by (nonlinear_arith)
            requires
                0 <= pos < n <= src.len <= src.capacity,
                d >= 0,
        ;
        assert(after.keys().subrange(pos * d, pos * d + d) =~= src.keys().subrange(
            pos * d,
            pos * d + d,
        ));
        assert(after.values().subrange(pos * d, pos * d + d) =~= src.values().subrange(
            pos * d,
            pos * d + d,
        ));
    }
    assert(rows(after) =~= rows(src).take(n as int));
}

/// A cache that took positions over holds what computing the tokens would have left
/// there.
pub proof fn taking_over_is_computing(
    m: Model,
    entry: CachedPrefill,
    fresh: KvCache,
    after: KvCache,
    prompt: Seq<u32>,
    n: nat,
)
    requires
        entry.cache.wf(),
        contents(fresh) == m.empty(),
        entry.cached_len() <= entry.tokens@.len(),
        contents(entry.cache) == m.forward(
            m.empty(),
            entry.tokens@.take(entry.cached_len() as int),
        ),
        0 < n <= entry.cached_len(),
        n <= prompt.len(),
        entry.cache.recurrent@.len() > 0 ==> n == entry.cached_len(),
        entry.tokens@.take(n as int) == prompt.take(n as int),
        cache::can_take(fresh, entry.cache, n),
        cache::prefix_taken(fresh, entry.cache, n, after),
    ensures
        contents(after) == m.forward(m.empty(), prompt.take(n as int)),
{
    let tokens = entry.tokens@.take(entry.cached_len() as int);
    let want = m.forward(m.empty(), prompt.take(n as int));
    let held = contents(entry.cache);
    leading_positions(m, tokens, n as int);
    assert(tokens.take(n as int) =~= prompt.take(n as int));
    assert(contents(fresh).layers.len() == m.keeps.len());
    assert(contents(fresh).states.len() == m.start.len());
    assert forall|i: int| 0 <= i < m.keeps.len() implies contents(after).layers[i]
        == want.layers[i] by {
        assert(held.layers[i] == rows(entry.cache.layers@[i]));
        assert(contents(fresh).layers[i] == rows(fresh.layers@[i]));
        let (x, y, z) = (fresh.layers@[i], entry.cache.layers@[i], after.layers@[i]);
        assert(layer::prefix_copied(x, y, n, z));
        assert(rows(x).len() == 0);
        if y.len > 0 {
            assert(m.keeps[i]);
            rows_are_taken(x, y, n, z);
        } else {
            assert(rows(y).len() == 0);
            assert(!m.keeps[i]);
            assert(rows(z) =~= Seq::empty());
        }
    }
    assert(contents(after).layers =~= want.layers);
    if entry.cache.recurrent@.len() > 0 {
        assert(tokens =~= prompt.take(n as int));
        assert forall|i: int| 0 <= i < m.start.len() implies contents(after).states[i]
            == want.states[i] by {
            assert(cache::same_state(after.recurrent@[i], entry.cache.recurrent@[i]));
            assert(held.states[i] == want.states[i]);
        }
    }
    assert(contents(after).states =~= want.states);
}

/// A pool changes nothing but the work: with what an earlier request computed taken
/// over, the cache holds the first positions of the prompt as if they had been computed,
/// and the model is given only the rest of the prompt, which is never empty. It gives the same tokens as where it computes all of the
/// prompt, so that the same tokens are sent, and the generation ends for the same reason.
pub proof fn reuse_changes_no_token(
    m: Model,
    entry: CachedPrefill,
    fresh: KvCache,
    after: KvCache,
    prompt: Seq<u32>,
    p: Progress,
    n: nat,
)
    requires
        prompt.len() > 0,
        entry.cache.wf(),
        contents(fresh) == m.empty(),
        entry.cached_len() <= entry.tokens@.len(),
        contents(entry.cache) == m.forward(
            m.empty(),
            entry.tokens@.take(entry.cached_len() as int),
        ),
        ({
            let reused = generate::reused(entry, entry.reusable(prompt), prompt.len());
            &&& cache::can_take(fresh, entry.cache, reused)
            &&& reused == 0 ==> after == fresh
            &&& reused > 0 ==> cache::prefix_taken(fresh, entry.cache, reused, after)
        }),
    ensures
        ({
            let reused = generate::reused(entry, entry.reusable(prompt), prompt.len());
            let with_pool = m.answer(contents(after), prompt.skip(reused as int), prompt, n);
            let without = m.answer(contents(fresh), prompt, prompt, n);
            &&& prompt.skip(reused as int).len() > 0
            &&& contents(after) == m.forward(m.empty(), prompt.take(reused as int))
            &&& with_pool == without
            &&& p.run(with_pool) == p.run(without)
        }),
{
    let matched = entry.reusable(prompt);
    let reused = generate::reused(entry, matched, prompt.len());
    let r = reused as int;
    prefix_cache::reuse_is_sound(entry, prompt);
    generate::a_token_is_left(entry, matched, prompt.len());
    assert(entry.tokens@.take(r) =~= entry.tokens@.take(matched as int).take(r));
    assert(prompt.take(r) =~= prompt.take(matched as int).take(r));
    if reused > 0 {
        taking_over_is_computing(m, entry, fresh, after, prompt, reused);
    } else {
        assert(prompt.take(0) =~= Seq::empty());
    }
    let tail = prompt.skip(r);
    assert(tail.last() == prompt.last());
    assert(prompt.take(r) + tail.drop_last() =~= prompt.drop_last());
    forward_in_two_parts(m, m.empty(), prompt.take(r), tail.drop_last());
}

} // verus!
