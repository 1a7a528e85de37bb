//! Merging adjacent symbols: by the rank of a pair in a table of rules, or by
//! the score of the token that a pair makes.

use vstd::prelude::*;

use crate::single;
use crate::single::is_single_above;
use crate::text;
use crate::text::chars_of;
use crate::text::same_text;
use crate::text::text_of;
use crate::tokenizer::index;
use crate::tokenizer::index::pair_code_of;
use crate::tokenizer::index::Index;
use crate::tokenizer::index::TextTable;

verus! {

/// The position of the first space at or after `i`.
pub open spec fn space_from(t: Seq<char>, i: int) -> Option<int>
    decreases t.len() - i,
{
    if i < 0 || i >= t.len() {
        None
    } else if t[i] == ' ' {
        Some(i)
    } else {
        space_from(t, i + 1)
    }
}

/// The two parts of a merge rule: what stands before and after the first space
/// that is not the rule's first character.
pub open spec fn merge_parts(t: Seq<char>) -> Option<(Seq<char>, Seq<char>)> {
    match space_from(t, 1) {
        Some(i) => Some((t.take(i), t.skip(i + 1))),
        None => None,
    }
}

/// The first space found lies within the text.
proof fn space_from_in_range(t: Seq<char>, i: int)
    requires
        0 <= i,
    ensures
        space_from(t, i) is Some ==> i <= space_from(t, i)->0 < t.len() && t[space_from(t, i)->0]
            == ' ',
    decreases t.len() - i,
{
    if i < t.len() && t[i] != ' ' {
        space_from_in_range(t, i + 1);
    }
}

/// Splits a merge rule into its two parts.
pub fn split_merge(merge: &str) -> (r: Option<(String, String)>)
    ensures
        r is Some <==> merge_parts(merge@) is Some,
        r is Some ==> merge_parts(merge@) == Some(((r->0).0@, (r->0).1@)),
{
    let t = chars_of(merge);
    let mut i: usize = 1;
    while i < t.len()
        invariant
            1 <= i,
            t@ == merge@,
            space_from(merge@, i as int) == space_from(merge@, 1),
        decreases t.len() - i,
    {
        if t[i] == ' ' {
            let left = text_of(vstd::slice::slice_subrange(t.as_slice(), 0, i));
            let right = text_of(vstd::slice::slice_subrange(t.as_slice(), i + 1, t.len()));
            assert(left@ =~= merge@.take(i as int));
            assert(right@ =~= merge@.skip(i + 1));
            return Some((left, right));
        }
        i += 1;
    }
    None
}

/// The parts of each rule of a list.
pub open spec fn all_parts(rules: Seq<Seq<char>>) -> Seq<Option<(Seq<char>, Seq<char>)>> {
    rules.map_values(|t: Seq<char>| merge_parts(t))
}

/// The rank of a pair: the position of the last rule that joins it.
pub open spec fn pair_rank(rules: Seq<Seq<char>>, l: Seq<char>, r: Seq<char>) -> Option<nat> {
    index::last_index(all_parts(rules), Some((l, r)))
}

/// The code of a split rule.
spec fn part_code(p: Option<(Seq<char>, Seq<char>)>) -> Option<u64> {
    match p {
        Some((l, r)) => Some(index::pair_code(l, r)),
        None => None,
    }
}

/// The codes of a list of split rules.
spec fn part_codes(parts: Seq<Option<(Seq<char>, Seq<char>)>>) -> Seq<Option<u64>> {
    parts.map_values(|p: Option<(Seq<char>, Seq<char>)>| part_code(p))
}

/// The texts of a split rule.
spec fn part_view(p: Option<(String, String)>) -> Option<(Seq<char>, Seq<char>)> {
    match p {
        Some((l, r)) => Some((l@, r@)),
        None => None,
    }
}

/// The split rules' texts.
spec fn part_views(v: Seq<Option<(String, String)>>) -> Seq<Option<(Seq<char>, Seq<char>)>> {
    v.map_values(|p: Option<(String, String)>| part_view(p))
}

/// One more split rule adds its texts and its code.
proof fn parts_grow(v: Seq<Option<(String, String)>>, p: Option<(String, String)>)
    ensures
        part_views(v.push(p)) == part_views(v).push(part_view(p)),
        part_codes(part_views(v.push(p))) == part_codes(part_views(v)).push(
            part_code(part_view(p)),
        ),
{
    assert(part_views(v.push(p)) =~= part_views(v).push(part_view(p)));
    assert(part_codes(part_views(v.push(p))) =~= part_codes(part_views(v)).push(
        part_code(part_view(p)),
    ));
}

/// A table of merge rules, in the order of their rank.
pub struct MergeTable {
    rules: Ghost<Seq<Seq<char>>>,
    parts: Vec<Option<(String, String)>>,
    index: Index,
}

impl MergeTable {
    /// The rules, in order.
    pub closed spec fn view(&self) -> Seq<Seq<char>> {
        self.rules@
    }

    #[verifier::type_invariant]
    spec fn indexed(&self) -> bool {
        &&& part_views(self.parts@) == all_parts(self.rules@)
        &&& self.index.lists(part_codes(part_views(self.parts@)))
    }

    /// The table of a list of rules; a rule without a space joins nothing.
    pub fn new(rules: &Vec<String>) -> (r: Self)
        ensures
            r@ == text::texts(rules@),
    {
        let mut parts: Vec<Option<(String, String)>> = Vec::new();
        let mut index = Index::new();
        let ghost keys = text::texts(rules@);
        let mut i: usize = 0;
        assert(part_views(parts@) =~= all_parts(keys.take(0)));
        assert(part_codes(part_views(parts@)) =~= Seq::<Option<u64>>::empty());
        while i < rules.len()
            invariant
                i <= rules.len(),
                parts@.len() == i,
                keys == text::texts(rules@),
                part_views(parts@) == all_parts(keys.take(i as int)),
                index.lists(part_codes(part_views(parts@))),
            decreases rules.len() - i,
        {
            let ghost before = parts@;
            let part = split_merge(rules[i].as_str());
            let code: Option<u64> = match &part {
                Some((l, r)) => Some(pair_code_of(l.as_str(), r.as_str())),
                None => None,
            };
            assert(code == part_code(part_view(part)));
            assert(part_view(part) == merge_parts(keys[i as int]));
            index.add_next(Ghost(part_codes(part_views(before))), code, i);
            proof {
                parts_grow(before, part);
                assert(all_parts(keys.take(i + 1)) =~= all_parts(keys.take(i as int)).push(
                    merge_parts(keys[i as int]),
                ));
            }
            parts.push(part);
            i += 1;
        }
        assert(keys.take(keys.len() as int) =~= keys);
        MergeTable { rules: Ghost(keys), parts, index }
    }

    /// The rank of a pair.
    pub fn rank(&self, l: &str, r: &str) -> (res: Option<usize>)
        ensures
            res is Some <==> pair_rank(self@, l@, r@) is Some,
            res is Some ==> res->0 == pair_rank(self@, l@, r@)->0,
    {
        let ghost keys = all_parts(self@);
        let ghost key = Some((l@, r@));
        proof {
            use_type_invariant(self);
            index::last_index_is_last(keys, key);
        }
        let ghost codes = part_codes(keys);
        let h: u64 = pair_code_of(l, r);
        match self.index.under(h) {
            Some(bucket) => {
                let mut k: usize = bucket.len();
                while k > 0
                    invariant
                        k <= bucket.len(),
                        keys == part_views(self.parts@),
                        key == Some((l@, r@)),
                        codes == part_codes(keys),
                        self.index.lists(codes),
                        h == index::pair_code(l@, r@),
                        self.index@.contains_key(h),
                        *bucket == self.index@[h],
                        keys == all_parts(self@),
                        forall|j: int|
                            k <= j < bucket@.len() ==> keys[#[trigger] bucket@[j] as int] != key,
                    decreases k,
                {
                    k -= 1;
                    let i: usize = bucket[k];
                    assert(codes[i as int] == Some(h));
                    assert(keys[i as int] == part_view(self.parts@[i as int]));
                    let found = match &self.parts[i] {
                        Some((a, b)) => same_text(a.as_str(), l) && same_text(b.as_str(), r),
                        None => false,
                    };
                    assert(found == (keys[i as int] == key));
                    if found {
                        proof {
                            assert forall|j: int| i < j < keys.len() implies keys[j] != key by {
                                if keys[j] == key {
                                    assert(codes[j] == Some(h));
                                    let m = choose|m: int|
                                        0 <= m < self.index@[h]@.len()
                                            && #[trigger] self.index@[h]@[m] == j;
                                    assert(bucket@[m] == j);
                                    if m < k {
                                        assert(self.index@[h]@[m] < self.index@[h]@[k as int]);
                                    }
                                }
                            }
                            index::last_index_found(keys, key, i as int);
                        }
                        return Some(i);
                    }
                }
                proof {
                    assert forall|j: int| 0 <= j < keys.len() implies keys[j] != key by {
                        if keys[j] == key {
                            assert(codes[j] == Some(h));
                            let m = choose|m: int|
                                0 <= m < self.index@[h]@.len() && #[trigger] self.index@[h]@[m]
                                    == j;
                            assert(bucket@[m] == j);
                        }
                    }
                }
                None
            },
            None => {
                proof {
                    assert forall|j: int| 0 <= j < keys.len() implies keys[j] != key by {
                        if keys[j] == key {
                            assert(codes[j] == Some(h));
                        }
                    }
                }
                None
            },
        }
    }
}

/// The symbols with the pair at `i` joined.
pub open spec fn join_at(symbols: Seq<Seq<char>>, i: int) -> Seq<Seq<char>> {
    symbols.take(i).push(symbols[i] + symbols[i + 1]) + symbols.skip(i + 2)
}

/// The pair to join next among the first `n` pairs: the one of lowest rank, the
/// leftmost where ranks are equal.
pub open spec fn best_ranked(rules: Seq<Seq<char>>, symbols: Seq<Seq<char>>, n: nat) -> Option<nat>
    decreases n,
{
    if n == 0 {
        None
    } else {
        let i = (n - 1) as nat;
        let before = best_ranked(rules, symbols, i);
        match pair_rank(rules, symbols[i as int], symbols[i as int + 1]) {
            None => before,
            Some(rank) => match before {
                None => Some(i),
                Some(b) => if rank < pair_rank(
                    rules,
                    symbols[b as int],
                    symbols[b as int + 1],
                )->0 {
                    Some(i)
                } else {
                    before
                },
            },
        }
    }
}

/// The number of adjacent pairs.
pub open spec fn pair_count(symbols: Seq<Seq<char>>) -> nat {
    if symbols.len() == 0 {
        0
    } else {
        (symbols.len() - 1) as nat
    }
}

/// The pair to join is one of those looked at, a rule joins it, no other of them
/// has a lower rank, and none to its left has the same.
pub proof fn best_ranked_is_best(rules: Seq<Seq<char>>, symbols: Seq<Seq<char>>, n: nat)
    ensures
        match best_ranked(rules, symbols, n) {
            Some(b) => {
                &&& b < n
                &&& pair_rank(rules, symbols[b as int], symbols[b as int + 1]) is Some
                &&& forall|i: int|
                    #![trigger symbols[i]]
                    0 <= i < n && pair_rank(rules, symbols[i], symbols[i + 1]) is Some
                        ==> pair_rank(rules, symbols[b as int], symbols[b as int + 1])->0 <= pair_rank(
                        rules,
                        symbols[i],
                        symbols[i + 1],
                    )->0
                &&& forall|i: int|
                    #![trigger symbols[i]]
                    0 <= i < b && pair_rank(rules, symbols[i], symbols[i + 1]) is Some
                        ==> pair_rank(rules, symbols[b as int], symbols[b as int + 1])->0 < pair_rank(
                        rules,
                        symbols[i],
                        symbols[i + 1],
                    )->0
            },
            None => forall|i: int|
                #![trigger symbols[i]]
                0 <= i < n ==> pair_rank(rules, symbols[i], symbols[i + 1]) is None,
        },
    decreases n,
{
    if n > 0 {
        best_ranked_is_best(rules, symbols, (n - 1) as nat);
    }
}

/// The symbols after joining, one after another, the best-ranked pairs until no
/// rule joins any.
pub open spec fn rank_merged(rules: Seq<Seq<char>>, symbols: Seq<Seq<char>>) -> Seq<Seq<char>>
    decreases symbols.len(),
{
    match best_ranked(rules, symbols, pair_count(symbols)) {
        None => symbols,
        Some(i) => {
            proof {
                best_ranked_is_best(rules, symbols, pair_count(symbols));
            }
            rank_merged(rules, join_at(symbols, i as int))
        },
    }
}

/// After merging, no rule joins any adjacent pair that is left.
pub proof fn rank_merged_is_final(rules: Seq<Seq<char>>, symbols: Seq<Seq<char>>)
    ensures
        forall|i: int|
            #![trigger rank_merged(rules, symbols)[i]]
            0 <= i < pair_count(rank_merged(rules, symbols)) ==> pair_rank(
                rules,
                rank_merged(rules, symbols)[i],
                rank_merged(rules, symbols)[i + 1],
            ) is None,
    decreases symbols.len(),
{
    best_ranked_is_best(rules, symbols, pair_count(symbols));
    match best_ranked(rules, symbols, pair_count(symbols)) {
        None => {},
        Some(i) => rank_merged_is_final(rules, join_at(symbols, i as int)),
    }
}

/// Joining a pair does not change the text that the symbols make.
pub proof fn joining_keeps_the_text(symbols: Seq<Seq<char>>, i: int)
    requires
        0 <= i,
        i + 1 < symbols.len(),
    ensures
        join_at(symbols, i).flatten() == symbols.flatten(),
{
    let pair = seq![symbols[i], symbols[i + 1]];
    let joined = seq![symbols[i] + symbols[i + 1]];
    assert(symbols =~= symbols.take(i) + pair + symbols.skip(i + 2));
    assert(join_at(symbols, i) =~= symbols.take(i) + joined + symbols.skip(i + 2));
    vstd::seq_lib::lemma_flatten_concat(symbols.take(i), pair);
    vstd::seq_lib::lemma_flatten_concat((symbols.take(i) + pair), symbols.skip(i + 2));
    vstd::seq_lib::lemma_flatten_concat(symbols.take(i), joined);
    vstd::seq_lib::lemma_flatten_concat((symbols.take(i) + joined), symbols.skip(i + 2));
    pair_flattens(symbols[i], symbols[i + 1]);
}

/// The text of two symbols, and of the one that they make.
proof fn pair_flattens(a: Seq<char>, b: Seq<char>)
    ensures
        seq![a, b].flatten() == a + b,
        seq![a + b].flatten() == a + b,
{
    assert(seq![a, b].drop_first() =~= seq![b]);
    assert(seq![b].drop_first() =~= Seq::<Seq<char>>::empty());
    assert(seq![a + b].drop_first() =~= Seq::<Seq<char>>::empty());
    assert(Seq::<Seq<char>>::empty().flatten() =~= Seq::<char>::empty());
    assert(seq![b].flatten() =~= b);
    assert(seq![a, b].flatten() =~= a + b);
    assert(seq![a + b].flatten() =~= a + b);
}

/// Merging by rank does not change the text that the symbols make.
pub proof fn rank_merging_keeps_the_text(rules: Seq<Seq<char>>, symbols: Seq<Seq<char>>)
    ensures
        rank_merged(rules, symbols).flatten() == symbols.flatten(),
    decreases symbols.len(),
{
    best_ranked_is_best(rules, symbols, pair_count(symbols));
    match best_ranked(rules, symbols, pair_count(symbols)) {
        None => {},
        Some(i) => {
            joining_keeps_the_text(symbols, i as int);
            rank_merging_keeps_the_text(rules, join_at(symbols, i as int));
        },
    }
}

/// Replaces the pair at `i` by the symbol that it makes.
fn join_pair(symbols: &mut Vec<String>, i: usize)
    requires
        i + 1 < old(symbols).len(),
    ensures
        text::texts(final(symbols)@) == join_at(text::texts(old(symbols)@), i as int),
        final(symbols)@.len() + 1 == old(symbols)@.len(),
{
    let mut joined = symbols[i].clone();
    joined.append(symbols[i + 1].as_str());
    symbols.remove(i + 1);
    symbols.set(i, joined);
    assert(text::texts(symbols@) =~= join_at(text::texts(old(symbols)@), i as int));
}

impl MergeTable {
    /// Joins the best-ranked pairs until no rule joins any.
    pub fn merge_symbols(&self, initial: Vec<String>) -> (r: Vec<String>)
        ensures
            text::texts(r@) == rank_merged(self@, text::texts(initial@)),
    {
        let mut symbols = initial;
        loop
            invariant
                rank_merged(self@, text::texts(symbols@)) == rank_merged(
                    self@,
                    text::texts(initial@),
                ),
            decreases symbols@.len(),
        {
            let ghost now = text::texts(symbols@);
            let mut best: Option<(usize, usize)> = None;
            let mut i: usize = 0;
            while symbols.len() > 0 && i < symbols.len() - 1
                invariant
                    i <= pair_count(now),
                    now == text::texts(symbols@),
                    best is Some <==> best_ranked(self@, now, i as nat) is Some,
                    best is Some ==> {
                        &&& (best->0).1 == best_ranked(self@, now, i as nat)->0
                        &&& (best->0).1 < i
                        &&& pair_rank(
                            self@,
                            now[(best->0).1 as int],
                            now[(best->0).1 + 1],
                        ) == Some((best->0).0 as nat)
                    },
                decreases symbols@.len() - i,
            {
                if let Some(rank) = self.rank(symbols[i].as_str(), symbols[i + 1].as_str()) {
                    match best {
                        None => {
                            best = Some((rank, i));
                        },
                        Some((best_rank, _)) => {
                            if rank < best_rank {
                                best = Some((rank, i));
                            }
                        },
                    }
                }
                i += 1;
            }
            assert(i == pair_count(now));
            match best {
                None => {
                    return symbols;
                },
                Some((_, k)) => {
                    join_pair(&mut symbols, k);
                },
            }
        }
    }
}

/// The score of a token; zero where the list is too short.
pub open spec fn token_score(scores: Seq<u32>, id: nat) -> u32 {
    if id < scores.len() {
        scores[id as int]
    } else {
        0
    }
}

/// The score of the token that a pair makes, if it makes one.
pub open spec fn pair_score(
    tokens: Seq<Seq<char>>,
    scores: Seq<u32>,
    l: Seq<char>,
    r: Seq<char>,
) -> Option<u32> {
    match index::last_index(tokens, l + r) {
        Some(id) => Some(token_score(scores, id)),
        None => None,
    }
}

/// The pair to join next among the first `n` pairs: the one whose token has the
/// highest score, the leftmost where scores are equal.
pub open spec fn best_scored(
    tokens: Seq<Seq<char>>,
    scores: Seq<u32>,
    symbols: Seq<Seq<char>>,
    n: nat,
) -> Option<nat>
    decreases n,
{
    if n == 0 {
        None
    } else {
        let i = (n - 1) as nat;
        let before = best_scored(tokens, scores, symbols, i);
        match pair_score(tokens, scores, symbols[i as int], symbols[i as int + 1]) {
            None => before,
            Some(score) => match before {
                None => Some(i),
                Some(b) => if single::single_above(
                    score,
                    pair_score(tokens, scores, symbols[b as int], symbols[b as int + 1])->0,
                ) {
                    Some(i)
                } else {
                    before
                },
            },
        }
    }
}

/// The pair to join is one of those looked at and makes a token; where every
/// score is a number, no other of them has a higher score, and none to its left
/// has the same.
pub proof fn best_scored_is_best(
    tokens: Seq<Seq<char>>,
    scores: Seq<u32>,
    symbols: Seq<Seq<char>>,
    n: nat,
)
    ensures
        match best_scored(tokens, scores, symbols, n) {
            Some(b) => {
                let best = pair_score(tokens, scores, symbols[b as int], symbols[b as int + 1]);
                &&& b < n
                &&& best is Some
                &&& (forall|k: int| 0 <= k < scores.len() ==> !single::is_nan(#[trigger] scores[k]))
                    ==> forall|i: int|
                    #![trigger symbols[i]]
                    0 <= i < n && pair_score(tokens, scores, symbols[i], symbols[i + 1]) is Some
                        ==> {
                        let other = single::single_key(
                            pair_score(tokens, scores, symbols[i], symbols[i + 1])->0,
                        );
                        &&& other <= single::single_key(best->0)
                        &&& i < b ==> other < single::single_key(best->0)
                    }
            },
            None => forall|i: int|
                #![trigger symbols[i]]
                0 <= i < n ==> pair_score(tokens, scores, symbols[i], symbols[i + 1]) is None,
        },
    decreases n,
{
    if n > 0 {
        best_scored_is_best(tokens, scores, symbols, (n - 1) as nat);
        assert forall|l: Seq<char>, r: Seq<char>|
            (forall|k: int| 0 <= k < scores.len() ==> !single::is_nan(#[trigger] scores[k])) && (
            #[trigger] pair_score(tokens, scores, l, r)) is Some implies !single::is_nan(
            pair_score(tokens, scores, l, r)->0,
        ) by {
            let id = index::last_index(tokens, l + r)->0;
            if id < scores.len() {
                assert(!single::is_nan(scores[id as int]));
            }
        }
    }
}

/// The symbols after joining, one after another, the best-scored pairs until none
/// makes a token.
pub open spec fn score_merged(
    tokens: Seq<Seq<char>>,
    scores: Seq<u32>,
    symbols: Seq<Seq<char>>,
) -> Seq<Seq<char>>
    decreases symbols.len(),
{
    match best_scored(tokens, scores, symbols, pair_count(symbols)) {
        None => symbols,
        Some(i) => {
            proof {
                best_scored_is_best(tokens, scores, symbols, pair_count(symbols));
            }
            score_merged(tokens, scores, join_at(symbols, i as int))
        },
    }
}

/// After merging by score, no adjacent pair that is left makes a token.
pub proof fn score_merged_is_final(
    tokens: Seq<Seq<char>>,
    scores: Seq<u32>,
    symbols: Seq<Seq<char>>,
)
    ensures
        forall|i: int|
            #![trigger score_merged(tokens, scores, symbols)[i]]
            0 <= i < pair_count(score_merged(tokens, scores, symbols)) ==> index::last_index(
                tokens,
                score_merged(tokens, scores, symbols)[i] + score_merged(
                    tokens,
                    scores,
                    symbols,
                )[i + 1],
            ) is None,
    decreases symbols.len(),
{
    best_scored_is_best(tokens, scores, symbols, pair_count(symbols));
    match best_scored(tokens, scores, symbols, pair_count(symbols)) {
        None => {
            assert forall|i: int|
                #![trigger symbols[i]]
                0 <= i < pair_count(symbols) implies index::last_index(
                tokens,
                symbols[i] + symbols[i + 1],
            ) is None by {
                assert(pair_score(tokens, scores, symbols[i], symbols[i + 1]) is None);
            }
        },
        Some(i) => score_merged_is_final(tokens, scores, join_at(symbols, i as int)),
    }
}

/// Merging by score does not change the text that the symbols make.
pub proof fn score_merging_keeps_the_text(
    tokens: Seq<Seq<char>>,
    scores: Seq<u32>,
    symbols: Seq<Seq<char>>,
)
    ensures
        score_merged(tokens, scores, symbols).flatten() == symbols.flatten(),
    decreases symbols.len(),
{
    best_scored_is_best(tokens, scores, symbols, pair_count(symbols));
    match best_scored(tokens, scores, symbols, pair_count(symbols)) {
        None => {},
        Some(i) => {
            joining_keeps_the_text(symbols, i as int);
            score_merging_keeps_the_text(tokens, scores, join_at(symbols, i as int));
        },
    }
}

/// Joins the best-scored pairs until none makes a token.
pub fn spm_merge_symbols(tokens: &TextTable, scores: &Vec<u32>, initial: Vec<String>) -> (r: Vec<
    String,
>)
    ensures
        text::texts(r@) == score_merged(tokens@, scores@, text::texts(initial@)),
{
    let mut symbols = initial;
    loop
        invariant
            score_merged(tokens@, scores@, text::texts(symbols@)) == score_merged(
                tokens@,
                scores@,
                text::texts(initial@),
            ),
        decreases symbols@.len(),
    {
        let ghost now = text::texts(symbols@);
        let mut best: Option<(u32, usize)> = None;
        let mut i: usize = 0;
        while symbols.len() > 0 && i < symbols.len() - 1
            invariant
                i <= pair_count(now),
                now == text::texts(symbols@),
                best is Some <==> best_scored(tokens@, scores@, now, i as nat) is Some,
                best is Some ==> {
                    &&& (best->0).1 == best_scored(tokens@, scores@, now, i as nat)->0
                    &&& (best->0).1 < i
                    &&& pair_score(
                        tokens@,
                        scores@,
                        now[(best->0).1 as int],
                        now[(best->0).1 + 1],
                    ) == Some((best->0).0)
                },
            decreases symbols@.len() - i,
        {
            let mut made = symbols[i].clone();
            made.append(symbols[i + 1].as_str());
            if let Some(id) = tokens.find(made.as_str()) {
                let score: u32 = if id < scores.len() {
                    scores[id]
                } else {
                    0
                };
                match best {
                    None => {
                        best = Some((score, i));
                    },
                    Some((best_score, _)) => {
                        if is_single_above(score, best_score) {
                            best = Some((score, i));
                        }
                    },
                }
            }
            i += 1;
        }
        assert(i == pair_count(now));
        match best {
            None => {
                return symbols;
            },
            Some((_, k)) => {
                join_pair(&mut symbols, k);
            },
        }
    }
}

} // verus!
