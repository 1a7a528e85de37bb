//! Where a text stands within another, and what replacing leaves of it.

use vstd::prelude::*;

use crate::text;

verus! {

/// Whether a text stands somewhere in another.
pub open spec fn holds(t: Seq<char>, part: Seq<char>) -> bool {
    exists|i: int| text::occurs_at(t, part, i)
}

/// Whether two texts have no character in common.
pub open spec fn shares_no_char(a: Seq<char>, b: Seq<char>) -> bool {
    forall|i: int, j: int|
        0 <= i < a.len() && 0 <= j < b.len() ==> #[trigger] a[i] != #[trigger] b[j]
}

/// Whether no text with the characters of `part` can stand across the border of two
/// texts: one of the characters next to it is not in `part`.
pub open spec fn parts_cleanly(a: Seq<char>, b: Seq<char>, part: Seq<char>) -> bool {
    ||| a.len() == 0
    ||| b.len() == 0
    ||| !part.contains(a.last())
    ||| !part.contains(b[0])
}

/// What stands in one of two texts stands in both together.
pub proof fn held_in_a_sum(a: Seq<char>, b: Seq<char>, part: Seq<char>)
    requires
        holds(a, part) || holds(b, part),
    ensures
        holds(a + b, part),
{
    if holds(a, part) {
        let i = choose|i: int| text::occurs_at(a, part, i);
        assert((a + b).subrange(i, i + part.len()) =~= a.subrange(i, i + part.len()));
        assert(text::occurs_at(a + b, part, i));
    } else {
        let i = choose|i: int| text::occurs_at(b, part, i);
        let n = a.len() + i;
        assert((a + b).subrange(n, n + part.len()) =~= b.subrange(i, i + part.len()));
        assert(text::occurs_at(a + b, part, n));
    }
}

/// A text stands between what is before it and what is after it.
pub proof fn held_between(a: Seq<char>, part: Seq<char>, b: Seq<char>)
    ensures
        holds(a + part + b, part),
{
    let n = a.len() as int;
    assert((a + part + b).subrange(n, n + part.len()) =~= part);
    assert(text::occurs_at(a + part + b, part, n));
}

/// A text without the first character of another does not hold it.
pub proof fn not_held(t: Seq<char>, part: Seq<char>)
    requires
        part.len() > 0,
        !t.contains(part[0]),
    ensures
        !holds(t, part),
{
    if holds(t, part) {
        let i = choose|i: int| text::occurs_at(t, part, i);
        assert(t.subrange(i, i + part.len())[0] == t[i]);
        assert(t.contains(t[i]));
    }
}

/// What stands in two texts together, but cannot stand across their border, stands in
/// one of them.
pub proof fn held_on_one_side(a: Seq<char>, b: Seq<char>, part: Seq<char>)
    requires
        part.len() > 0,
        parts_cleanly(a, b, part),
        holds(a + b, part),
    ensures
        holds(a, part) || holds(b, part),
{
    let i = choose|i: int| text::occurs_at(a + b, part, i);
    let n = a.len() as int;
    let found = (a + b).subrange(i, i + part.len());
    if i + part.len() <= n {
        assert(a.subrange(i, i + part.len()) =~= found);
        assert(text::occurs_at(a, part, i));
    } else if i >= n {
        assert(b.subrange(i - n, i - n + part.len()) =~= found);
        assert(text::occurs_at(b, part, i - n));
    } else {
        assert(found[n - 1 - i] == a.last());
        assert(found[n - i] == b[0]);
        assert(part.contains(part[n - 1 - i]));
        assert(part.contains(part[n - i]));
    }
}

/// Replacing in two texts together is replacing in each, where what is replaced cannot
/// stand across their border.
pub proof fn replaced_in_parts(a: Seq<char>, b: Seq<char>, f: Seq<char>, r: Seq<char>)
    requires
        f.len() > 0,
        parts_cleanly(a, b, f),
    ensures
        text::replaced(a + b, f, r) == text::replaced(a, f, r) + text::replaced(b, f, r),
    decreases a.len(),
{
    let all = a + b;
    let k = f.len() as int;
    if a.len() == 0 {
        assert(all =~= b);
        assert(text::replaced(a, f, r) + text::replaced(b, f, r) =~= text::replaced(b, f, r));
    } else if b.len() == 0 {
        assert(all =~= a);
        assert(text::replaced(a, f, r) + text::replaced(b, f, r) =~= text::replaced(a, f, r));
    } else if text::occurs_at(all, f, 0) {
        if k > a.len() {
            let n = a.len() as int;
            assert(all.subrange(0, k)[n - 1] == a.last());
            assert(all.subrange(0, k)[n] == b[0]);
            assert(f.contains(f[n - 1]) && f.contains(f[n]));
        }
        assert(a.subrange(0, k) =~= all.subrange(0, k));
        assert(text::occurs_at(a, f, 0));
        assert(all.skip(k) =~= a.skip(k) + b);
        if k < a.len() {
            assert(a.skip(k).last() == a.last());
        }
        replaced_in_parts(a.skip(k), b, f, r);
        assert(r + (text::replaced(a.skip(k), f, r) + text::replaced(b, f, r)) =~= (r
            + text::replaced(a.skip(k), f, r)) + text::replaced(b, f, r));
    } else {
        if text::occurs_at(a, f, 0) {
            assert(a.subrange(0, k) =~= all.subrange(0, k));
        }
        assert(all.skip(1) =~= a.skip(1) + b);
        if 1 < a.len() {
            assert(a.skip(1).last() == a.last());
        }
        replaced_in_parts(a.skip(1), b, f, r);
        assert(seq![a[0]] + (text::replaced(a.skip(1), f, r) + text::replaced(b, f, r)) =~= (
        seq![a[0]] + text::replaced(a.skip(1), f, r)) + text::replaced(b, f, r));
    }
}

/// A text without the first character of what is replaced stays as it is.
pub proof fn replaced_nothing(t: Seq<char>, f: Seq<char>, r: Seq<char>)
    requires
        f.len() > 0,
        !t.contains(f[0]),
    ensures
        text::replaced(t, f, r) == t,
    decreases t.len(),
{
    if t.len() > 0 {
        if text::occurs_at(t, f, 0) {
            assert(t.subrange(0, f.len() as int)[0] == f[0]);
            assert(t.contains(t[0]));
        }
        assert(!t.skip(1).contains(f[0])) by {
            if t.skip(1).contains(f[0]) {
                let i = choose|i: int| 0 <= i < t.skip(1).len() && t.skip(1)[i] == f[0];
                assert(t[i + 1] == f[0]);
            }
        }
        replaced_nothing(t.skip(1), f, r);
        assert(seq![t[0]] + t.skip(1) =~= t);
    }
}

/// What stands once in a text is replaced there.
pub proof fn replaced_once(before: Seq<char>, f: Seq<char>, after: Seq<char>, r: Seq<char>)
    requires
        f.len() > 0,
        !before.contains(f[0]),
        !after.contains(f[0]),
    ensures
        text::replaced(before + f + after, f, r) == before + r + after,
    decreases before.len(),
{
    let t = before + f + after;
    let k = f.len() as int;
    if before.len() == 0 {
        assert(t.subrange(0, k) =~= f);
        assert(text::occurs_at(t, f, 0));
        assert(t.skip(k) =~= after);
        replaced_nothing(after, f, r);
        assert(before + r + after =~= r + after);
    } else {
        if text::occurs_at(t, f, 0) {
            assert(t.subrange(0, k)[0] == before[0]);
            assert(before.contains(before[0]));
        }
        let rest = before.skip(1);
        assert(t.skip(1) =~= rest + f + after);
        assert(!rest.contains(f[0])) by {
            if rest.contains(f[0]) {
                let i = choose|i: int| 0 <= i < rest.len() && rest[i] == f[0];
                assert(before[i + 1] == f[0]);
            }
        }
        replaced_once(rest, f, after, r);
        assert(seq![t[0]] + (rest + r + after) =~= before + r + after);
    }
}

/// Where a text begins after replacing without any character of what was put in, it
/// began like that before.
proof fn copied_beginning(t: Seq<char>, f: Seq<char>, r: Seq<char>, n: int)
    requires
        f.len() > 0,
        r.len() > 0,
        0 <= n <= text::replaced(t, f, r).len(),
        shares_no_char(r, text::replaced(t, f, r).take(n)),
    ensures
        n <= t.len(),
        t.take(n) == text::replaced(t, f, r).take(n),
    decreases n,
{
    let out = text::replaced(t, f, r);
    if n == 0 {
        assert(t.take(0) =~= out.take(0));
    } else if t.len() > 0 {
        if text::occurs_at(t, f, 0) {
            assert(out.take(n)[0] == r[0]);
        } else {
            let rest = text::replaced(t.skip(1), f, r);
            assert(out == seq![t[0]] + rest);
            assert forall|i: int, j: int|
                0 <= i < r.len() && 0 <= j < rest.take(n - 1).len() implies #[trigger] r[i]
                != #[trigger] rest.take(n - 1)[j] by {
                assert(rest.take(n - 1)[j] == out.take(n)[j + 1]);
            }
            copied_beginning(t.skip(1), f, r, n - 1);
            assert forall|i: int| 0 <= i < n implies t.take(n)[i] == out.take(n)[i] by {
                if i > 0 {
                    assert(t.skip(1).take(n - 1)[i - 1] == rest.take(n - 1)[i - 1]);
                }
            }
            assert(t.take(n) =~= out.take(n));
        }
    }
}

/// Replacing leaves nothing of what is replaced, and makes nothing that was not there:
/// of a text that is the one replaced, or that stood nowhere, nothing is found, provided
/// that what is put in has no character in common with it.
pub proof fn none_left(t: Seq<char>, f: Seq<char>, r: Seq<char>, q: Seq<char>)
    requires
        f.len() > 0,
        q.len() > 0,
        r.len() > 0,
        shares_no_char(r, q),
        q == f || !holds(t, q),
    ensures
        !holds(text::replaced(t, f, r), q),
    decreases t.len(),
{
    let out = text::replaced(t, f, r);
    if t.len() > 0 && holds(out, q) {
        let i = choose|i: int| text::occurs_at(out, q, i);
        let k = if text::occurs_at(t, f, 0) {
            f.len() as int
        } else {
            1
        };
        let rest = text::replaced(t.skip(k), f, r);
        if !(q == f) {
            if holds(t.skip(k), q) {
                assert(t =~= t.take(k) + t.skip(k));
                held_in_a_sum(t.take(k), t.skip(k), q);
            }
        }
        none_left(t.skip(k), f, r, q);
        let front = if text::occurs_at(t, f, 0) {
            r
        } else {
            seq![t[0]]
        };
        assert(out == front + rest);
        let found = out.subrange(i, i + q.len());
        if i >= front.len() {
            let at = i - front.len();
            assert(rest.subrange(at, at + q.len()) =~= found);
            assert(text::occurs_at(rest, q, at));
        } else if text::occurs_at(t, f, 0) {
            assert(found[0] == r[i]);
        } else {
            let n = q.len() as int;
            assert(out.take(n) =~= found);
            copied_beginning(t, f, r, n);
            assert(t.subrange(0, n) =~= q);
            assert(text::occurs_at(t, q, 0));
        }
    }
}

} // verus!
