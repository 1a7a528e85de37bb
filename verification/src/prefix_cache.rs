//! A small pool of finished requests' token sequences with the caches that came
//! of them. A later request that starts with the same tokens takes one over and
//! need not compute those positions again.

use vstd::prelude::*;

use crate::kv_cache::cache;
use crate::kv_cache::KvCache;

verus! {

/// A finished request: all its tokens, and the cache of their positions.
pub struct CachedPrefill {
    pub tokens: Vec<u32>,
    pub cache: KvCache,
}

/// The number of leading tokens that two sequences share.
pub open spec fn shared_prefix(a: Seq<u32>, b: Seq<u32>) -> nat
    decreases a.len(),
{
    if a.len() == 0 || b.len() == 0 || a[0] != b[0] {
        0
    } else {
        1 + shared_prefix(a.drop_first(), b.drop_first())
    }
}

impl CachedPrefill {
    /// The number of positions that the cache holds: those of its longest layer,
    /// since a layer that shares another's entries stays empty.
    pub open spec fn cached_len(self) -> nat {
        if self.cache.layers@.len() == 0 {
            self.tokens@.len()
        } else {
            cache::longest(self.cache.layers@, self.cache.layers@.len())
        }
    }

    /// The number of positions that a request with these tokens can take over. A
    /// recurrent state cannot be rolled back, so it serves whole or not at all.
    pub open spec fn reusable(self, tokens: Seq<u32>) -> nat {
        let shared = shared_prefix(self.tokens@, tokens);
        let n = if shared <= self.cached_len() {
            shared
        } else {
            self.cached_len()
        };
        if self.cache.recurrent@.len() > 0 && n != self.cached_len() {
            0
        } else {
            n
        }
    }

    /// The number of positions that the cache holds.
    pub fn positions(&self) -> (r: usize)
        ensures
            r == self.cached_len(),
    {
        if self.cache.layers.len() == 0 {
            self.tokens.len()
        } else {
            self.cache.committed_len()
        }
    }

    /// The number of positions that a request with these tokens can take over.
    fn reusable_len(&self, tokens: &[u32]) -> (r: usize)
        ensures
            r == self.reusable(tokens@),
    {
        let held: usize = self.positions();
        let shared: usize = common_prefix_len(&self.tokens, tokens);
        let n: usize = if shared <= held {
            shared
        } else {
            held
        };
        if self.cache.recurrent.len() > 0 && n != held {
            0
        } else {
            n
        }
    }
}

/// Whether entry `i` of the pool is the one to take: it can hand over something,
/// no entry can hand over more, and no earlier one as much.
pub open spec fn is_best(entries: Seq<CachedPrefill>, tokens: Seq<u32>, i: int) -> bool {
    &&& 0 <= i < entries.len()
    &&& entries[i].reusable(tokens) > 0
    &&& forall|j: int|
        0 <= j < entries.len() ==> (#[trigger] entries[j]).reusable(tokens) <= entries[i].reusable(
            tokens,
        )
    &&& forall|j: int|
        0 <= j < i ==> (#[trigger] entries[j]).reusable(tokens) < entries[i].reusable(tokens)
}

/// The pool, which never holds more than a fixed number of entries. A bound of
/// zero switches it off.
pub struct PrefixCache {
    entries: Vec<CachedPrefill>,
    max_entries: usize,
}

/// The number of leading tokens that two sequences share.
fn common_prefix_len(a: &Vec<u32>, b: &[u32]) -> (n: usize)
    ensures
        n == shared_prefix(a@, b@),
{
    let mut n: usize = 0;
    assert(a@.skip(0) =~= a@ && b@.skip(0) =~= b@);
    while n < a.len() && n < b.len() && a[n] == b[n]
        invariant
            n <= a.len(),
            n <= b@.len(),
            shared_prefix(a@, b@) == n + shared_prefix(a@.skip(n as int), b@.skip(n as int)),
        decreases a.len() - n,
    {
        assert(a@.skip(n as int).drop_first() =~= a@.skip(n + 1));
        assert(b@.skip(n as int).drop_first() =~= b@.skip(n + 1));
        n += 1;
    }
    n
}

impl PrefixCache {
    /// The entries, the oldest first.
    pub closed spec fn view(&self) -> Seq<CachedPrefill> {
        self.entries@
    }

    /// The most entries that the pool holds.
    pub closed spec fn bound(&self) -> nat {
        self.max_entries as nat
    }

    #[verifier::type_invariant]
    spec fn within_bound(self) -> bool {
        self.entries@.len() <= self.max_entries
    }

    /// An empty pool of at most `max_entries` entries.
    pub fn new(max_entries: usize) -> (r: Self)
        ensures
            r@ == Seq::<CachedPrefill>::empty(),
            r.bound() == max_entries,
    {
        PrefixCache { entries: Vec::new(), max_entries }
    }

    /// The number of entries.
    pub fn len(&self) -> (n: usize)
        ensures
            n == self@.len(),
            n <= self.bound(),
    {
        proof {
            use_type_invariant(self);
        }
        self.entries.len()
    }

    /// Takes the entry out of the pool that can hand over the most positions to a
    /// request with these tokens, with the number of those positions.
    pub fn take_best_match(&mut self, tokens: &[u32]) -> (r: Option<(usize, CachedPrefill)>)
        ensures
            final(self).bound() == old(self).bound(),
            match r {
                Some((n, entry)) => exists|i: int|
                    {
                        &&& #[trigger] is_best(old(self)@, tokens@, i)
                        &&& entry == old(self)@[i]
                        &&& n == entry.reusable(tokens@)
                        &&& final(self)@ == old(self)@.remove(i)
                    },
                None => {
                    &&& final(self)@ == old(self)@
                    &&& forall|i: int|
                        0 <= i < old(self)@.len() ==> (#[trigger] old(self)@[i]).reusable(tokens@)
                            == 0
                },
            },
    {
        proof {
            use_type_invariant(&*self);
        }
        let mut best: usize = 0;
        let mut best_len: usize = 0;
        let mut i: usize = 0;
        while i < self.entries.len()
            invariant
                i <= self.entries@.len(),
                *self == *old(self),
                self.entries@.len() <= self.max_entries,
                best_len > 0 ==> best < i && best_len == self.entries@[best as int].reusable(
                    tokens@,
                ),
                forall|j: int|
                    0 <= j < i ==> (#[trigger] self.entries@[j]).reusable(tokens@) <= best_len,
                best_len > 0 ==> forall|j: int|
                    0 <= j < best ==> (#[trigger] self.entries@[j]).reusable(tokens@) < best_len,
            decreases self.entries@.len() - i,
        {
            let n: usize = self.entries[i].reusable_len(tokens);
            if n > best_len {
                best = i;
                best_len = n;
            }
            i += 1;
        }
        if best_len == 0 {
            return None;
        }
        assert(is_best(self.entries@, tokens@, best as int));
        let mut entries: Vec<CachedPrefill> = Vec::new();
        std::mem::swap(&mut entries, &mut self.entries);
        let entry = entries.remove(best);
        self.entries = entries;
        Some((best_len, entry))
    }

    /// Puts a finished request into the pool; the oldest entry leaves where the
    /// pool is full.
    pub fn store(&mut self, tokens: Vec<u32>, cache: KvCache)
        ensures
            final(self).bound() == old(self).bound(),
            final(self)@ == (if old(self).bound() == 0 {
                old(self)@
            } else if old(self)@.len() >= old(self).bound() {
                old(self)@.drop_first().push(CachedPrefill { tokens, cache })
            } else {
                old(self)@.push(CachedPrefill { tokens, cache })
            }),
    {
        proof {
            use_type_invariant(&*self);
        }
        if self.max_entries == 0 {
            return;
        }
        let mut entries: Vec<CachedPrefill> = Vec::new();
        std::mem::swap(&mut entries, &mut self.entries);
        if entries.len() >= self.max_entries {
            let _oldest = entries.remove(0);
            assert(entries@ =~= old(self)@.drop_first());
        }
        entries.push(CachedPrefill { tokens, cache });
        self.entries = entries;
    }
}

/// The shared tokens are shared, and the next ones, where both sequences have one,
/// differ.
pub proof fn shared_prefix_is_shared(a: Seq<u32>, b: Seq<u32>)
    ensures
        shared_prefix(a, b) <= a.len(),
        shared_prefix(a, b) <= b.len(),
        a.take(shared_prefix(a, b) as int) == b.take(shared_prefix(a, b) as int),
        shared_prefix(a, b) < a.len() && shared_prefix(a, b) < b.len() ==> a[shared_prefix(
            a,
            b,
        ) as int] != b[shared_prefix(a, b) as int],
    decreases a.len(),
{
    if a.len() == 0 || b.len() == 0 || a[0] != b[0] {
        assert(a.take(0) =~= b.take(0));
    } else {
        let (x, y) = (a.drop_first(), b.drop_first());
        shared_prefix_is_shared(x, y);
        let n = shared_prefix(x, y) as int;
        assert forall|i: int| 0 <= i < n + 1 implies a[i] == b[i] by {
            if i > 0 {
                assert(x.take(n)[i - 1] == y.take(n)[i - 1]);
            }
        }
        assert(a.take(n + 1) =~= b.take(n + 1));
    }
}

/// What an entry hands over are positions that it holds, of tokens that the
/// request starts with; with a recurrent state, all that it holds.
pub proof fn reuse_is_sound(entry: CachedPrefill, tokens: Seq<u32>)
    ensures
        entry.reusable(tokens) <= tokens.len(),
        entry.reusable(tokens) <= entry.tokens@.len(),
        entry.reusable(tokens) <= entry.cached_len(),
        entry.tokens@.take(entry.reusable(tokens) as int) == tokens.take(
            entry.reusable(tokens) as int,
        ),
        entry.reusable(tokens) > 0 && entry.cache.recurrent@.len() > 0 ==> entry.reusable(tokens)
            == entry.cached_len(),
{
    let n = entry.reusable(tokens) as int;
    let m = shared_prefix(entry.tokens@, tokens) as int;
    shared_prefix_is_shared(entry.tokens@, tokens);
    assert(entry.tokens@.take(n) =~= entry.tokens@.take(m).take(n));
    assert(tokens.take(n) =~= tokens.take(m).take(n));
}

/// No two entries are both the one to take.
pub proof fn best_is_unique(entries: Seq<CachedPrefill>, tokens: Seq<u32>, i: int, j: int)
    requires
        is_best(entries, tokens, i),
        is_best(entries, tokens, j),
    ensures
        i == j,
{
}

/// An entry hands over all that a request shares with it, as far as it holds that; with a
/// recurrent state nothing, unless that is all that it holds. Without any layer it holds a
/// position for each token, and with layers as many as the longest of them.
pub proof fn all_that_is_shared_is_handed_over(entry: CachedPrefill, tokens: Seq<u32>, n: nat)
    requires
        n <= entry.tokens@.len(),
        n <= tokens.len(),
        n <= entry.cached_len(),
        entry.tokens@.take(n as int) == tokens.take(n as int),
        n == entry.cached_len() || n == entry.tokens@.len() || n == tokens.len()
            || entry.tokens@[n as int] != tokens[n as int],
    ensures
        entry.cache.recurrent@.len() == 0 ==> entry.reusable(tokens) == n,
        entry.cached_len() == n ==> entry.reusable(tokens) == n,
        entry.cache.recurrent@.len() > 0 && entry.cached_len() != n ==> entry.reusable(tokens) == 0,
        entry.cache.layers@.len() == 0 ==> entry.cached_len() == entry.tokens@.len(),
        forall|i: int|
            0 <= i < entry.cache.layers@.len() ==> (#[trigger] entry.cache.layers@[i]).len
                <= entry.cached_len(),
        entry.cache.layers@.len() > 0 ==> exists|i: int|
            0 <= i < entry.cache.layers@.len() && (#[trigger] entry.cache.layers@[i]).len
                == entry.cached_len(),
{
    let (a, b) = (entry.tokens@, tokens);
    let m = shared_prefix(a, b) as int;
    shared_prefix_is_shared(a, b);
    if m < n {
        assert(a.take(n as int)[m] == b.take(n as int)[m]);
    }
    if n < m {
        assert(a.take(m)[n as int] == b.take(m)[n as int]);
    }
    if entry.cache.layers@.len() > 0 {
        cache::the_longest_layer_counts(entry.cache.layers@, entry.cache.layers@.len());
    }
}

/// The entry to take is the first of those that hand over the most, if any hands over
/// something.
pub proof fn the_first_of_the_best_is_taken(entries: Seq<CachedPrefill>, tokens: Seq<u32>, i: int)
    requires
        0 <= i < entries.len(),
    ensures
        is_best(entries, tokens, i) <==> (0 < entries[i].reusable(tokens) && forall|j: int|
            0 <= j < entries.len() ==> {
                let (mine, other) = (
                    entries[i].reusable(tokens),
                    (#[trigger] entries[j]).reusable(tokens),
                );
                other < mine || (other == mine && i <= j)
            }),
{
}

} // verus!
