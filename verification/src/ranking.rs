//! Ranking by key, the greatest first; equal keys stay in their order.

use vstd::prelude::*;

verus! {

/// Whether entry `a` ranks before entry `b`.
pub open spec fn ranks_before(keys: Seq<u64>, a: int, b: int) -> bool {
    keys[a] > keys[b] || (keys[a] == keys[b] && a < b)
}

/// Whether a list of entries is in the order of their ranks.
pub open spec fn in_order(keys: Seq<u64>, r: Seq<usize>) -> bool {
    forall|i: int, j: int|
        0 <= i < j < r.len() ==> ranks_before(keys, #[trigger] r[i] as int, #[trigger] r[j] as int)
}

/// Whether `r` lists the `k` entries that rank first, in their order; all of them
/// where there are no more.
pub open spec fn is_top(keys: Seq<u64>, k: nat, r: Seq<usize>) -> bool {
    &&& r.len() == (if k <= keys.len() {
        k
    } else {
        keys.len()
    })
    &&& forall|i: int| 0 <= i < r.len() ==> (#[trigger] r[i]) < keys.len()
    &&& in_order(keys, r)
    &&& forall|a: int|
        0 <= a < keys.len() ==> r.contains(#[trigger] (a as usize)) || (forall|i: int|
            0 <= i < r.len() ==> ranks_before(keys, #[trigger] r[i] as int, a))
}

/// There is only one such list.
pub proof fn top_is_unique(keys: Seq<u64>, k: nat, r: Seq<usize>, s: Seq<usize>)
    requires
        is_top(keys, k, r),
        is_top(keys, k, s),
        keys.len() <= usize::MAX,
    ensures
        r == s,
{
    assert forall|i: int| 0 <= i < r.len() implies r[i] == s[i] by {
        same_up_to(keys, k, r, s, i + 1);
    }
    assert(r =~= s);
}

proof fn same_up_to(keys: Seq<u64>, k: nat, r: Seq<usize>, s: Seq<usize>, n: int)
    requires
        is_top(keys, k, r),
        is_top(keys, k, s),
        keys.len() <= usize::MAX,
        0 <= n <= r.len(),
    ensures
        forall|i: int| 0 <= i < n ==> r[i] == s[i],
    decreases n,
{
    if n > 0 {
        let i = n - 1;
        same_up_to(keys, k, r, s, i);
        let (x, y) = (r[i] as int, s[i] as int);
        if x != y {
            if ranks_before(keys, x, y) {
                assert(r[i] == x as usize);
                if s.contains(x as usize) {
                    let p = choose|p: int| 0 <= p < s.len() && s[p] == x as usize;
                    if p < i {
                        assert(r[p] == s[p]);
                    }
                } else {
                    assert(ranks_before(keys, s[i] as int, x));
                }
            } else {
                assert(ranks_before(keys, y, x));
                assert(s[i] == y as usize);
                if r.contains(y as usize) {
                    let p = choose|p: int| 0 <= p < r.len() && r[p] == y as usize;
                    if p < i {
                        assert(r[p] == s[p]);
                    }
                } else {
                    assert(ranks_before(keys, r[i] as int, y));
                }
            }
        }
    }
}

/// Whether `r` lists the entries from `lo` to `hi` in the order of their ranks.
spec fn run_of(keys: Seq<u64>, lo: int, hi: int, r: Seq<usize>) -> bool {
    &&& r.len() == hi - lo
    &&& forall|i: int| 0 <= i < r.len() ==> lo <= #[trigger] r[i] < hi
    &&& in_order(keys, r)
    &&& forall|a: int| lo <= a < hi ==> r.contains(#[trigger] (a as usize))
}

/// Two runs of neighbouring entries as one.
fn merge(
    keys: &[u64],
    a: Vec<usize>,
    b: Vec<usize>,
    lo: usize,
    mid: usize,
    hi: usize,
) -> (out: Vec<usize>)
    requires
        lo <= mid <= hi <= keys@.len(),
        run_of(keys@, lo as int, mid as int, a@),
        run_of(keys@, mid as int, hi as int, b@),
    ensures
        run_of(keys@, lo as int, hi as int, out@),
{
    let mut out: Vec<usize> = Vec::new();
    let mut i: usize = 0;
    let mut j: usize = 0;
    while i < a.len() || j < b.len()
        invariant
            lo <= mid <= hi <= keys@.len(),
            run_of(keys@, lo as int, mid as int, a@),
            run_of(keys@, mid as int, hi as int, b@),
            i <= a@.len(),
            j <= b@.len(),
            out@.len() == i + j,
            forall|x: int| 0 <= x < out@.len() ==> lo <= #[trigger] out@[x] < hi,
            in_order(keys@, out@),
            forall|x: int, y: int|
                0 <= x < out@.len() && i <= y < a@.len() ==> ranks_before(
                    keys@,
                    #[trigger] out@[x] as int,
                    #[trigger] a@[y] as int,
                ),
            forall|x: int, y: int|
                0 <= x < out@.len() && j <= y < b@.len() ==> ranks_before(
                    keys@,
                    #[trigger] out@[x] as int,
                    #[trigger] b@[y] as int,
                ),
            forall|x: int| 0 <= x < i ==> out@.contains(#[trigger] a@[x]),
            forall|x: int| 0 <= x < j ==> out@.contains(#[trigger] b@[x]),
        decreases a@.len() + b@.len() - i - j,
    {
        let from_a: bool = if i == a.len() {
            false
        } else if j == b.len() {
            true
        } else {
            keys[a[i]] >= keys[b[j]]
        };
        let ghost before = out@;
        if from_a {
            out.push(a[i]);
            assert(out@[before.len() as int] == a@[i as int]);
            i += 1;
        } else {
            out.push(b[j]);
            assert(out@[before.len() as int] == b@[j as int]);
            j += 1;
        }
        assert forall|x: int| 0 <= x < i implies out@.contains(#[trigger] a@[x]) by {
            if before.contains(a@[x]) {
                let p = choose|p: int| 0 <= p < before.len() && before[p] == a@[x];
                assert(out@[p] == a@[x]);
            }
        }
        assert forall|x: int| 0 <= x < j implies out@.contains(#[trigger] b@[x]) by {
            if before.contains(b@[x]) {
                let p = choose|p: int| 0 <= p < before.len() && before[p] == b@[x];
                assert(out@[p] == b@[x]);
            }
        }
    }
    assert forall|e: int| lo <= e < hi implies out@.contains(#[trigger] (e as usize)) by {
        if e < mid {
            assert(a@.contains(e as usize));
            let p = choose|p: int| 0 <= p < a@.len() && a@[p] == e as usize;
            assert(out@.contains(a@[p]));
        } else {
            assert(b@.contains(e as usize));
            let p = choose|p: int| 0 <= p < b@.len() && b@[p] == e as usize;
            assert(out@.contains(b@[p]));
        }
    }
    out
}

/// The entries from `lo` to `hi` in the order of their ranks.
fn ranked_run(keys: &[u64], lo: usize, hi: usize) -> (out: Vec<usize>)
    requires
        lo <= hi <= keys@.len(),
    ensures
        run_of(keys@, lo as int, hi as int, out@),
    decreases hi - lo,
{
    if hi == lo {
        return Vec::new();
    }
    if hi - lo == 1 {
        let mut out: Vec<usize> = Vec::new();
        out.push(lo);
        assert(out@[0] == lo);
        return out;
    }
    let mid: usize = lo + (hi - lo) / 2;
    let a = ranked_run(keys, lo, mid);
    let b = ranked_run(keys, mid, hi);
    merge(keys, a, b, lo, mid, hi)
}

/// All entries in the order of their ranks.
pub fn ranking(keys: &[u64]) -> (out: Vec<usize>)
    ensures
        is_top(keys@, keys@.len(), out@),
{
    ranked_run(keys, 0, keys.len())
}

/// The `k` entries that rank first, in their order.
pub fn top_ranked(keys: &[u64], k: usize) -> (out: Vec<usize>)
    ensures
        is_top(keys@, k as nat, out@),
{
    let n: usize = keys.len();
    if k == 0 {
        return Vec::new();
    }
    if k >= n {
        return ranking(keys);
    }
    let mut out: Vec<usize> = Vec::new();
    let mut i: usize = 0;
    assert(is_top(keys@.take(0), k as nat, out@));
    while i < n
        invariant
            n == keys@.len(),
            0 < k < n,
            i <= n,
            is_top(keys@.take(i as int), k as nat, out@),
        decreases n - i,
    {
        insert_ranked(keys, k, &mut out, i);
        i += 1;
    }
    assert(keys@.take(n as int) =~= keys@);
    out
}

/// Takes entry `i` into the list of the first `k` among those before it.
fn insert_ranked(keys: &[u64], k: usize, out: &mut Vec<usize>, i: usize)
    requires
        0 < k,
        i < keys@.len(),
        is_top(keys@.take(i as int), k as nat, old(out)@),
    ensures
        is_top(keys@.take(i + 1), k as nat, final(out)@),
{
    let key: u64 = keys[i];
    let ghost before = out@;
    let ghost was = keys@.take(i as int);
    let ghost now = keys@.take(i + 1);
    let mut p: usize = out.len();
    while p > 0 && keys[out[p - 1]] < key
        invariant
            i < keys@.len(),
            key == keys@[i as int],
            p <= out@.len(),
            out@ == before,
            forall|x: int| 0 <= x < out@.len() ==> (#[trigger] out@[x]) < i,
            forall|x: int| p <= x < out@.len() ==> keys@[#[trigger] out@[x] as int] < key,
        decreases p,
    {
        p -= 1;
    }
    proof {
        assert forall|x: int| 0 <= x < p implies keys@[#[trigger] before[x] as int] >= key by {
            if x < p - 1 {
                assert(ranks_before(was, before[x] as int, before[p - 1] as int));
            }
        }
    }
    if p >= k {
        proof {
            assert(before.len() == k);
            assert forall|a: int| 0 <= a < now.len() implies before.contains(
                #[trigger] (a as usize),
            ) || (forall|x: int|
                0 <= x < before.len() ==> ranks_before(now, #[trigger] before[x] as int, a)) by {
                if a < i && !before.contains(a as usize) {
                    assert forall|x: int| 0 <= x < before.len() implies ranks_before(
                        now,
                        #[trigger] before[x] as int,
                        a,
                    ) by {
                        assert(ranks_before(was, before[x] as int, a));
                    }
                }
            }
            assert forall|x: int, y: int| 0 <= x < y < before.len() implies ranks_before(
                now,
                #[trigger] before[x] as int,
                #[trigger] before[y] as int,
            ) by {
                assert(ranks_before(was, before[x] as int, before[y] as int));
            }
        }
        return;
    }
    out.insert(p, i);
    let ghost full = out@;
    if out.len() > k {
        out.truncate(k);
    }
    proof {
        assert(full.take(full.len() as int) =~= full);
        assert(out@ =~= full.take(
            if full.len() > k {
                k as int
            } else {
                full.len() as int
            },
        ));
        ranked_insertion(keys@, k as nat, before, i as int, p as int, full, out@);
    }
}

/// An entry put in its place keeps the list of the first `k`.
proof fn ranked_insertion(
    keys: Seq<u64>,
    k: nat,
    before: Seq<usize>,
    i: int,
    p: int,
    full: Seq<usize>,
    out: Seq<usize>,
)
    requires
        0 < k,
        0 <= i < keys.len() <= usize::MAX,
        is_top(keys.take(i), k, before),
        0 <= p <= before.len(),
        p < k,
        full == before.insert(p, i as usize),
        out == full.take(
            if full.len() > k {
                k as int
            } else {
                full.len() as int
            },
        ),
        forall|x: int| 0 <= x < p ==> keys[#[trigger] before[x] as int] >= keys[i],
        forall|x: int| p <= x < before.len() ==> keys[#[trigger] before[x] as int] < keys[i],
    ensures
        is_top(keys.take(i + 1), k, out),
{
    let was = keys.take(i);
    let now = keys.take(i + 1);
    assert forall|x: int, y: int| 0 <= x < y < full.len() implies ranks_before(
        now,
        #[trigger] full[x] as int,
        #[trigger] full[y] as int,
    ) by {
        let u = if x < p {
            x
        } else {
            x - 1
        };
        let v = if y < p {
            y
        } else {
            y - 1
        };
        if x != p && y != p {
            assert(ranks_before(was, before[u] as int, before[v] as int));
        } else if x == p {
            assert(keys[before[v] as int] < keys[i]);
        } else {
            assert(keys[before[u] as int] >= keys[i]);
        }
    }
    assert forall|a: int| 0 <= a < now.len() implies out.contains(#[trigger] (a as usize)) || (
    forall|x: int| 0 <= x < out.len() ==> ranks_before(now, #[trigger] out[x] as int, a)) by {
        if a == i {
            assert(full[p] == i as usize);
            assert(out[p] == i as usize);
        } else if before.contains(a as usize) {
            let q = choose|q: int| 0 <= q < before.len() && before[q] == a as usize;
            let at = if q < p {
                q
            } else {
                q + 1
            };
            assert(full[at] == a as usize);
            if at < out.len() {
                assert(out[at] == a as usize);
            } else {
                assert forall|x: int| 0 <= x < out.len() implies ranks_before(
                    now,
                    #[trigger] out[x] as int,
                    a,
                ) by {
                    assert(ranks_before(now, full[x] as int, full[at] as int));
                }
            }
        } else {
            assert forall|x: int| 0 <= x < out.len() implies ranks_before(
                now,
                #[trigger] out[x] as int,
                a,
            ) by {
                if x < p {
                    assert(full[x] == before[x]);
                    assert(ranks_before(was, before[x] as int, a));
                } else if x > p {
                    assert(full[x] == before[x - 1]);
                    assert(ranks_before(was, before[x - 1] as int, a));
                } else {
                    if p < before.len() {
                        assert(ranks_before(was, before[p] as int, a));
                        assert(keys[before[p] as int] < keys[i]);
                    } else {
                        assert(before.len() == i);
                        all_listed(was, before, a);
                    }
                }
            }
        }
    }
}

/// A list of as many entries as there are holds them all.
proof fn all_listed(keys: Seq<u64>, r: Seq<usize>, a: int)
    requires
        in_order(keys, r),
        forall|i: int| 0 <= i < r.len() ==> (#[trigger] r[i]) < keys.len(),
        r.len() == keys.len(),
        keys.len() <= usize::MAX,
        0 <= a < keys.len(),
    ensures
        r.contains(a as usize),
{
    let ints = r.map_values(|x: usize| x as int);
    assert(ints.no_duplicates()) by {
        assert forall|i: int, j: int| 0 <= i < ints.len() && 0 <= j < ints.len() && i != j implies
            ints[i] != ints[j] by {
            if i < j {
                assert(ranks_before(keys, r[i] as int, r[j] as int));
            } else {
                assert(ranks_before(keys, r[j] as int, r[i] as int));
            }
        }
    }
    let all = vstd::set_lib::set_int_range(0, keys.len() as int);
    vstd::set_lib::lemma_int_range(0, keys.len() as int);
    ints.unique_seq_to_set();
    assert(ints.to_set().subset_of(all));
    vstd::set_lib::lemma_subset_equality(ints.to_set(), all);
    assert(all.contains(a));
    assert(ints.contains(a));
    let p = choose|p: int| 0 <= p < ints.len() && ints[p] == a;
    assert(r[p] == a as usize);
}

/// What ranks first is the greatest: keys never grow along the list, equal ones stay in
/// their order, nothing that is left out is greater than what is listed, nor as great and
/// before it, and as many are listed as asked for, or all.
pub proof fn the_greatest_come_first(keys: Seq<u64>, k: nat, r: Seq<usize>, i: int, j: int, a: int)
    requires
        is_top(keys, k, r),
        0 <= i < r.len(),
        0 <= a < keys.len() <= usize::MAX,
    ensures
        r.len() <= k,
        r.len() <= keys.len(),
        r.len() == k || r.len() == keys.len(),
        r[i] < keys.len(),
        i < j < r.len() ==> keys[r[i] as int] >= keys[r[j] as int],
        i < j < r.len() && keys[r[i] as int] == keys[r[j] as int] ==> r[i] < r[j],
        !r.contains(a as usize) ==> keys[r[i] as int] >= keys[a],
        !r.contains(a as usize) && keys[r[i] as int] == keys[a] ==> r[i] < a,
{
    assert(r.contains(a as usize) || ranks_before(keys, r[i] as int, a));
}

/// A list of all entries in the order of their ranks leaves none out.
pub proof fn all_are_ranked(keys: Seq<u64>, r: Seq<usize>, a: int)
    requires
        is_top(keys, keys.len(), r),
        0 <= a < keys.len() <= usize::MAX,
    ensures
        r.contains(a as usize),
{
    all_listed(keys, r, a);
}

} // verus!
