//! Little-endian words in runs of bytes.

use vstd::prelude::*;

verus! {

/// The four bytes of a word, the lowest first.
pub open spec fn le32(x: u32) -> Seq<u8> {
    seq![
        (x as int % 256) as u8,
        (x as int / 0x100 % 256) as u8,
        (x as int / 0x1_0000 % 256) as u8,
        (x as int / 0x100_0000) as u8,
    ]
}

/// The word whose four bytes start at `at`.
pub open spec fn word_at(b: Seq<u8>, at: int) -> u32 {
    (b[at] + 0x100 * b[at + 1] + 0x1_0000 * b[at + 2] + 0x100_0000 * b[at + 3]) as u32
}

/// The sixteen-bit number whose two bytes start at `at`.
pub open spec fn half_at(b: Seq<u8>, at: int) -> u16 {
    (b[at] + 0x100 * b[at + 1]) as u16
}

/// The bytes of a run of words.
pub open spec fn words_bytes(w: Seq<u32>) -> Seq<u8> {
    Seq::new(4 * w.len(), |i: int| le32(w[i / 4])[i % 4])
}

/// The `n` words whose bytes start at `at`.
pub open spec fn words_at(b: Seq<u8>, at: int, n: nat) -> Seq<u32> {
    Seq::new(n, |i: int| word_at(b, at + 4 * i))
}

/// A word reads back from its bytes.
pub proof fn word_reads_back(x: u32, b: Seq<u8>, at: int)
    requires
        0 <= at,
        at + 4 <= b.len(),
        b.subrange(at, at + 4) == le32(x),
    ensures
        word_at(b, at) == x,
{
    let s = b.subrange(at, at + 4);
    assert(b[at] == s[0] && b[at + 1] == s[1] && b[at + 2] == s[2] && b[at + 3] == s[3]);
    assert(x as int == x as int % 256 + 256 * (x as int / 0x100 % 256) + 0x1_0000 * (x as int
        / 0x1_0000 % 256) + 0x100_0000 * (x as int / 0x100_0000));
}

/// One more word adds its bytes.
pub proof fn words_grow(w: Seq<u32>, x: u32)
    ensures
        words_bytes(w.push(x)) == words_bytes(w) + le32(x),
{
    let all = words_bytes(w.push(x));
    let parts = words_bytes(w) + le32(x);
    assert forall|i: int| 0 <= i < all.len() implies all[i] == parts[i] by {
        if i < 4 * w.len() {
            assert(i / 4 < w.len());
        } else {
            assert(i / 4 == w.len() && i % 4 == i - 4 * w.len());
        }
    }
    assert(all =~= parts);
}

/// The bytes of two runs of words are those of the one and then of the other.
pub proof fn words_concatenate(a: Seq<u32>, b: Seq<u32>)
    ensures
        words_bytes(a + b) == words_bytes(a) + words_bytes(b),
{
    let all = words_bytes(a + b);
    let parts = words_bytes(a) + words_bytes(b);
    assert forall|i: int| 0 <= i < all.len() implies all[i] == parts[i] by {
        if i < 4 * a.len() {
            assert(i / 4 < a.len());
        } else {
            let j = i - 4 * a.len();
            assert(i / 4 == a.len() + j / 4 && i % 4 == j % 4);
            assert((a + b)[i / 4] == b[j / 4]);
        }
    }
    assert(all =~= parts);
}

/// Words read back from where their bytes stand.
pub proof fn words_read_back(w: Seq<u32>, b: Seq<u8>, at: int)
    requires
        0 <= at,
        at + 4 * w.len() <= b.len(),
        b.subrange(at, at + 4 * w.len()) == words_bytes(w),
    ensures
        words_at(b, at, w.len()) == w,
        forall|i: int| 0 <= i < w.len() ==> word_at(b, #[trigger] (at + 4 * i)) == w[i],
{
    let s = words_bytes(w);
    assert forall|i: int| 0 <= i < w.len() implies word_at(b, #[trigger] (at + 4 * i)) == w[i] by {
        let x = le32(w[i]);
        assert forall|j: int| 0 <= j < 4 implies b[at + 4 * i + j] == #[trigger] x[j] by {
            assert(b.subrange(at, at + 4 * w.len())[4 * i + j] == b[at + 4 * i + j]);
            assert((4 * i + j) / 4 == i && (4 * i + j) % 4 == j);
            assert(s[4 * i + j] == x[j]);
        }
        assert(b.subrange(at + 4 * i, at + 4 * i + 4) =~= x);
        word_reads_back(w[i], b, at + 4 * i);
    }
    assert(words_at(b, at, w.len()) =~= w);
}

/// Runs of words with the same bytes are the same.
pub proof fn words_are_determined(a: Seq<u32>, b: Seq<u32>)
    requires
        words_bytes(a) == words_bytes(b),
    ensures
        a == b,
{
    assert(words_bytes(a).len() == 4 * a.len());
    assert(words_bytes(b).len() == 4 * b.len());
    let s = words_bytes(a);
    assert(s.subrange(0, 4 * a.len() as int) =~= s);
    words_read_back(a, s, 0);
    words_read_back(b, s, 0);
}

/// The low 32 bits of a number.
pub fn low32(x: usize) -> (r: u32)
    ensures
        r == x as u32,
{
    #[verifier::truncate]
    (x as u32)
}

/// Appends the four bytes of a word.
pub fn push_u32(out: &mut Vec<u8>, v: u32)
    ensures
        final(out)@ == old(out)@ + le32(v),
{
    out.push((v % 256) as u8);
    out.push((v / 0x100 % 256) as u8);
    out.push((v / 0x1_0000 % 256) as u8);
    out.push((v / 0x100_0000) as u8);
    assert(out@ =~= old(out)@ + le32(v));
}

/// Appends the bytes of the words from `from` up to but not including `to`.
pub fn push_words(out: &mut Vec<u8>, w: &Vec<u32>, from: usize, to: usize)
    requires
        from <= to <= w@.len(),
    ensures
        final(out)@ == old(out)@ + words_bytes(w@.subrange(from as int, to as int)),
{
    let ghost start = out@;
    let mut i: usize = from;
    assert(start + words_bytes(w@.subrange(from as int, from as int)) =~= start);
    while i < to
        invariant
            from <= i <= to <= w@.len(),
            out@ == start + words_bytes(w@.subrange(from as int, i as int)),
        decreases to - i,
    {
        push_u32(out, w[i]);
        proof {
            let done = w@.subrange(from as int, i as int);
            words_grow(done, w@[i as int]);
            assert(done.push(w@[i as int]) =~= w@.subrange(from as int, i + 1));
            assert(out@ =~= start + words_bytes(w@.subrange(from as int, i + 1)));
        }
        i += 1;
    }
}

/// The word whose four bytes start at `at`.
pub fn read_u32(b: &[u8], at: usize) -> (r: u32)
    requires
        at + 4 <= b@.len(),
    ensures
        r == word_at(b@, at as int),
{
    b[at] as u32 + 0x100 * b[at + 1] as u32 + 0x1_0000 * b[at + 2] as u32 + 0x100_0000 * b[at
        + 3] as u32
}

/// The sixteen-bit number whose two bytes start at `at`.
pub fn read_u16(b: &[u8], at: usize) -> (r: u16)
    requires
        at + 2 <= b@.len(),
    ensures
        r == half_at(b@, at as int),
{
    b[at] as u16 + 0x100 * b[at + 1] as u16
}

/// The `n` words whose bytes start at `at`.
pub fn read_words(b: &[u8], at: usize, n: usize) -> (r: Vec<u32>)
    requires
        at + 4 * n <= b@.len(),
    ensures
        r@ == words_at(b@, at as int, n as nat),
{
    let total: usize = b.len();
    let mut out: Vec<u32> = Vec::new();
    let mut i: usize = 0;
    while i < n
        invariant
            i <= n,
            total == b@.len(),
            at + 4 * n <= b@.len(),
            out@.len() == i,
            forall|j: int| 0 <= j < i ==> out@[j] == word_at(b@, at + 4 * j),
        decreases n - i,
    {
        out.push(read_u32(b, at + 4 * i));
        i += 1;
    }
    assert(out@ =~= words_at(b@, at as int, n as nat));
    out
}

/// A copy of a run of words.
pub fn copy_words(w: &Vec<u32>) -> (r: Vec<u32>)
    ensures
        r@ == w@,
{
    let mut out: Vec<u32> = Vec::new();
    let mut i: usize = 0;
    while i < w.len()
        invariant
            i <= w.len(),
            out@ == w@.take(i as int),
        decreases w.len() - i,
    {
        out.push(w[i]);
        i += 1;
        assert(out@ =~= w@.take(i as int));
    }
    assert(w@.take(w@.len() as int) =~= w@);
    out
}

/// A run of zeros.
pub fn zero_words(n: usize) -> (r: Vec<u32>)
    ensures
        r@ == Seq::new(n as nat, |i: int| 0u32),
{
    let mut out: Vec<u32> = Vec::new();
    let mut i: usize = 0;
    while i < n
        invariant
            i <= n,
            out@ == Seq::new(i as nat, |i: int| 0u32),
        decreases n - i,
    {
        out.push(0);
        i += 1;
        assert(out@ =~= Seq::new(i as nat, |i: int| 0u32));
    }
    out
}

/// A run with the part at `at` replaced.
pub open spec fn spliced(s: Seq<u32>, at: int, part: Seq<u32>) -> Seq<u32> {
    s.take(at) + part + s.skip(at + part.len())
}

/// Replaces the part at `at`.
pub fn splice(w: &mut Vec<u32>, at: usize, part: &[u32])
    requires
        at + part@.len() <= old(w)@.len(),
    ensures
        final(w)@ == spliced(old(w)@, at as int, part@),
        final(w)@.len() == old(w)@.len(),
{
    let ghost start = w@;
    let total: usize = w.len();
    let mut i: usize = 0;
    while i < part.len()
        invariant
            i <= part@.len(),
            total == start.len(),
            w@.len() == start.len(),
            at + part@.len() <= start.len(),
            forall|j: int|
                0 <= j < start.len() ==> w@[j] == (if at <= j < at + i {
                    part@[j - at]
                } else {
                    start[j]
                }),
        decreases part@.len() - i,
    {
        w.set(at + i, part[i]);
        i += 1;
    }
    assert(w@ =~= spliced(start, at as int, part@));
}

} // verus!
