//! Finding a text in a list by its code: an index from codes to positions.

use std::collections::HashMap;

use vstd::prelude::*;

use crate::text;
use crate::text::same_text;

verus! {

broadcast use vstd::std_specs::hash::group_hash_axioms;

/// The modulus of the codes.
pub const CODE_MODULUS: u64 = 18_014_398_509_481_951;

/// The code of a run of bytes.
pub open spec fn bytes_code(b: Seq<u8>) -> int
    decreases b.len(),
{
    if b.len() == 0 {
        0
    } else {
        (bytes_code(b.drop_last()) * 257 + b.last()) % (CODE_MODULUS as int)
    }
}

/// The code of a text.
pub open spec fn text_code(t: Seq<char>) -> u64 {
    bytes_code(vstd::utf8::encode_utf8(t)) as u64
}

/// The code of a pair of texts.
pub open spec fn pair_code(l: Seq<char>, r: Seq<char>) -> u64 {
    ((text_code(l) * 257 + text_code(r)) % (CODE_MODULUS as int)) as u64
}

/// The last position at which a key stands in a list.
pub open spec fn last_index<K>(keys: Seq<K>, key: K) -> Option<nat>
    decreases keys.len(),
{
    if keys.len() == 0 {
        None
    } else if keys.last() == key {
        Some((keys.len() - 1) as nat)
    } else {
        last_index(keys.drop_last(), key)
    }
}

/// What the last position of a key is.
pub proof fn last_index_is_last<K>(keys: Seq<K>, key: K)
    ensures
        match last_index(keys, key) {
            Some(i) => i < keys.len() && keys[i as int] == key && forall|j: int|
                i < j < keys.len() ==> keys[j] != key,
            None => forall|j: int| 0 <= j < keys.len() ==> keys[j] != key,
        },
    decreases keys.len(),
{
    if keys.len() > 0 && keys.last() != key {
        last_index_is_last(keys.drop_last(), key);
        assert forall|j: int| 0 <= j < keys.len() - 1 implies keys[j] == keys.drop_last()[j] by {}
    }
}

/// A position is the last one of a key if the key stands there and nowhere after.
pub proof fn last_index_found<K>(keys: Seq<K>, key: K, i: int)
    requires
        0 <= i < keys.len(),
        keys[i] == key,
        forall|j: int| i < j < keys.len() ==> keys[j] != key,
    ensures
        last_index(keys, key) == Some(i as nat),
{
    last_index_is_last(keys, key);
}

/// Positions by code.
pub struct Index {
    map: HashMap<u64, Vec<usize>>,
}

impl Index {
    /// The positions under each code.
    pub closed spec fn view(&self) -> Map<u64, Vec<usize>> {
        self.map@
    }

    /// The index lists, in ascending order, exactly the positions that have a code.
    pub open spec fn lists(&self, codes: Seq<Option<u64>>) -> bool {
        &&& forall|h: u64, k: int|
            self@.contains_key(h) && 0 <= k < self@[h]@.len() ==> #[trigger] self@[h]@[k]
                < codes.len() && codes[self@[h]@[k] as int] == Some(h)
        &&& forall|h: u64, j: int, k: int|
            self@.contains_key(h) && 0 <= j < k < self@[h]@.len() ==> #[trigger] self@[h]@[j]
                < #[trigger] self@[h]@[k]
        &&& forall|i: int|
            #![trigger codes[i]]
            0 <= i < codes.len() && codes[i] is Some ==> self@.contains_key(codes[i]->0)
                && exists|k: int|
                0 <= k < self@[codes[i]->0]@.len() && #[trigger] self@[codes[i]->0]@[k] == i
    }

    pub fn new() -> (r: Self)
        ensures
            r.lists(Seq::empty()),
    {
        Index { map: HashMap::new() }
    }

    /// Adds the next position, under a code or under none.
    pub fn add_next(&mut self, Ghost(codes): Ghost<Seq<Option<u64>>>, code: Option<u64>, i: usize)
        requires
            old(self).lists(codes),
            i == codes.len(),
        ensures
            final(self).lists(codes.push(code)),
    {
        let ghost before = self@;
        let ghost after = codes.push(code);
        if let Some(h) = code {
            let mut bucket: Vec<usize> = match self.map.remove(&h) {
                Some(b) => b,
                None => Vec::new(),
            };
            let ghost old_bucket = bucket@;
            bucket.push(i);
            self.map.insert(h, bucket);
            assert(self@.contains_key(h) && self@[h]@ == old_bucket.push(i));
            assert(forall|g: u64| g != h ==> (self@.contains_key(g) <==> before.contains_key(g)));
            assert(forall|g: u64|
                g != h && before.contains_key(g) ==> #[trigger] self@[g] == before[g]);
            assert(before.contains_key(h) ==> old_bucket == before[h]@);
            assert(!before.contains_key(h) ==> old_bucket.len() == 0);
            assert forall|j: int|
                #![trigger after[j]]
                0 <= j < after.len() && after[j] is Some implies self@.contains_key(after[j]->0)
                && exists|k: int|
                0 <= k < self@[after[j]->0]@.len() && #[trigger] self@[after[j]->0]@[k] == j by {
                if j == codes.len() {
                    assert(self@[h]@[old_bucket.len() as int] == j);
                } else {
                    assert(after[j] == codes[j]);
                    let g = codes[j]->0;
                    let k = choose|k: int| 0 <= k < before[g]@.len() && #[trigger] before[g]@[k] == j;
                    assert(before[g]@[k] == j);
                    assert(self@[g]@[k] == j);
                }
            }
        } else {
            assert forall|j: int|
                #![trigger after[j]]
                0 <= j < after.len() && after[j] is Some implies self@.contains_key(after[j]->0)
                && exists|k: int|
                0 <= k < self@[after[j]->0]@.len() && #[trigger] self@[after[j]->0]@[k] == j by {
                assert(after[j] == codes[j]);
            }
        }
    }

    /// The positions under a code.
    pub fn under(&self, h: u64) -> (r: Option<&Vec<usize>>)
        ensures
            r is Some <==> self@.contains_key(h),
            r is Some ==> *r->0 == self@[h],
    {
        self.map.get(&h)
    }
}

/// The code of a text.
pub fn code_of(t: &str) -> (h: u64)
    ensures
        h == text_code(t@),
        h < CODE_MODULUS,
{
    let b = t.as_bytes();
    let mut h: u64 = 0;
    let mut i: usize = 0;
    assert(b@.take(0) =~= Seq::<u8>::empty());
    while i < b.len()
        invariant
            i <= b.len(),
            h < CODE_MODULUS,
            h == bytes_code(b@.take(i as int)),
        decreases b.len() - i,
    {
        assert(b@.take(i + 1).drop_last() =~= b@.take(i as int));
        h = (h * 257 + b[i] as u64) % CODE_MODULUS;
        i += 1;
    }
    assert(b@.take(b@.len() as int) =~= b@);
    h
}

/// The code of a pair of texts.
pub fn pair_code_of(l: &str, r: &str) -> (h: u64)
    ensures
        h == pair_code(l@, r@),
{
    (code_of(l) * 257 + code_of(r)) % CODE_MODULUS
}

/// The codes of a list of texts.
pub open spec fn text_codes(keys: Seq<Seq<char>>) -> Seq<Option<u64>> {
    keys.map_values(|t: Seq<char>| Some(text_code(t)))
}

/// A list of texts in which a text can be found, the last of its occurrences
/// first.
pub struct TextTable {
    texts: Vec<String>,
    index: Index,
}

impl TextTable {
    /// The texts, in order.
    pub closed spec fn view(&self) -> Seq<Seq<char>> {
        text::texts(self.texts@)
    }

    #[verifier::type_invariant]
    spec fn indexed(&self) -> bool {
        self.index.lists(text_codes(text::texts(self.texts@)))
    }

    /// The table of a list of texts.
    pub fn new(texts: Vec<String>) -> (r: Self)
        ensures
            r@ == text::texts(texts@),
    {
        let mut index = Index::new();
        let mut i: usize = 0;
        let ghost keys = text::texts(texts@);
        assert(text_codes(keys.take(0)) =~= Seq::<Option<u64>>::empty());
        while i < texts.len()
            invariant
                i <= texts.len(),
                keys == text::texts(texts@),
                index.lists(text_codes(keys.take(i as int))),
            decreases texts.len() - i,
        {
            let h: u64 = code_of(texts[i].as_str());
            index.add_next(Ghost(text_codes(keys.take(i as int))), Some(h), i);
            assert(text_codes(keys.take(i as int)).push(Some(h)) =~= text_codes(
                keys.take(i + 1),
            ));
            i += 1;
        }
        assert(keys.take(keys.len() as int) =~= keys);
        TextTable { texts, index }
    }

    /// The number of texts.
    pub fn len(&self) -> (n: usize)
        ensures
            n == self@.len(),
    {
        self.texts.len()
    }

    /// The text at a position.
    pub fn get(&self, i: usize) -> (r: Option<&String>)
        ensures
            r is Some <==> i < self@.len(),
            r is Some ==> r->0@ == self@[i as int],
    {
        if i < self.texts.len() {
            Some(&self.texts[i])
        } else {
            None
        }
    }

    /// The last position at which a text stands.
    pub fn find(&self, key: &str) -> (r: Option<usize>)
        ensures
            r is Some <==> last_index(self@, key@) is Some,
            r is Some ==> r->0 == last_index(self@, key@)->0,
    {
        proof {
            use_type_invariant(self);
            last_index_is_last(self@, key@);
        }
        let ghost codes = text_codes(self@);
        let h: u64 = code_of(key);
        match self.index.under(h) {
            Some(bucket) => {
                let mut k: usize = bucket.len();
                while k > 0
                    invariant
                        k <= bucket.len(),
                        self@ == text::texts(self.texts@),
                        codes == text_codes(self@),
                        self.index.lists(codes),
                        h == text_code(key@),
                        self.index@.contains_key(h),
                        *bucket == self.index@[h],
                        forall|j: int|
                            k <= j < bucket@.len() ==> self@[#[trigger] bucket@[j] as int] != key@,
                    decreases k,
                {
                    k -= 1;
                    let i: usize = bucket[k];
                    assert(codes[i as int] == Some(h));
                    if same_text(self.texts[i].as_str(), key) {
                        proof {
                            assert forall|j: int| i < j < self@.len() implies self@[j] != key@ by {
                                if self@[j] == key@ {
                                    assert(codes[j] == Some(h));
                                    let m = choose|m: int|
                                        0 <= m < self.index@[h]@.len()
                                            && #[trigger] self.index@[h]@[m] == j;
                                    assert(bucket@[m] == j);
                                    if m < k {
                                        assert(self.index@[h]@[m] < self.index@[h]@[k as int]);
                                    }
                                }
                            }
                            last_index_found(self@, key@, i as int);
                        }
                        return Some(i);
                    }
                }
                proof {
                    assert forall|j: int| 0 <= j < self@.len() implies self@[j] != key@ by {
                        if self@[j] == key@ {
                            assert(codes[j] == Some(h));
                            let m = choose|m: int|
                                0 <= m < self.index@[h]@.len() && #[trigger] self.index@[h]@[m]
                                    == j;
                            assert(bucket@[m] == j);
                        }
                    }
                }
                None
            },
            None => {
                proof {
                    assert forall|j: int| 0 <= j < self@.len() implies self@[j] != key@ by {
                        if self@[j] == key@ {
                            assert(codes[j] == Some(h));
                        }
                    }
                }
                None
            },
        }
    }
}

} // verus!
