//! In what order pairs of symbols are joined, told by the lists that a vocabulary
//! comes with: its rules and where they stand, its tokens and their scores.

use vstd::prelude::*;

use crate::single;
use crate::tokenizer::index;
use crate::tokenizer::merges;

verus! {

/// Whether rule number `p` of a list joins a pair: it is spelled as the first part, a
/// space and the second part, the space being the first one that does not begin the
/// rule.
pub open spec fn joins(rules: Seq<Seq<char>>, p: int, l: Seq<char>, r: Seq<char>) -> bool {
    &&& 0 <= p < rules.len()
    &&& rules[p] == l + seq![' '] + r
    &&& l.len() > 0
    &&& forall|i: int| 1 <= i < l.len() ==> l[i] != ' '
}

/// Whether rule number `p` is the last that joins a pair.
pub open spec fn joins_last(rules: Seq<Seq<char>>, p: int, l: Seq<char>, r: Seq<char>) -> bool {
    &&& joins(rules, p, l, r)
    &&& forall|q: int| #[trigger] joins(rules, q, l, r) ==> q <= p
}

/// The first space from `i` on is where a space stands and none before it.
proof fn space_found(t: Seq<char>, i: int, n: int)
    requires
        0 <= i <= n < t.len(),
        t[n] == ' ',
        forall|k: int| i <= k < n ==> t[k] != ' ',
    ensures
        merges::space_from(t, i) == Some(n),
    decreases n - i,
{
    if i < n {
        space_found(t, i + 1, n);
    }
}

/// Where a space is found, one stands there and none before it.
proof fn space_is_first(t: Seq<char>, i: int)
    requires
        0 <= i,
    ensures
        match merges::space_from(t, i) {
            Some(n) => i <= n < t.len() && t[n] == ' ' && forall|k: int| i <= k < n ==> t[k] != ' ',
            None => forall|k: int| i <= k < t.len() ==> t[k] != ' ',
        },
    decreases t.len() - i,
{
    if i < t.len() && t[i] != ' ' {
        space_is_first(t, i + 1);
    }
}

/// A rule has two parts exactly where it is spelled with them and a space between, the
/// first that does not begin it; it has none where there is no such space.
pub proof fn rules_split_at_a_space(t: Seq<char>, l: Seq<char>, r: Seq<char>)
    ensures
        merges::merge_parts(t) == Some((l, r)) <==> t == l + seq![' '] + r && l.len() > 0 && (
        forall|i: int| 1 <= i < l.len() ==> l[i] != ' '),
        merges::merge_parts(t) is None <==> forall|i: int| 1 <= i < t.len() ==> t[i] != ' ',
{
    space_is_first(t, 1);
    match merges::space_from(t, 1) {
        Some(n) => {
            assert(t =~= t.take(n) + seq![' '] + t.skip(n + 1));
        },
        None => {},
    }
    if t == l + seq![' '] + r && l.len() > 0 && (forall|i: int| 1 <= i < l.len() ==> l[i] != ' ') {
        let n = l.len() as int;
        assert(t[n] == ' ');
        assert forall|k: int| 1 <= k < n implies t[k] != ' ' by {
            assert(t[k] == l[k]);
        }
        space_found(t, 1, n);
        assert(t.take(n) =~= l);
        assert(t.skip(n + 1) =~= r);
    }
}

/// The rank of a pair is the number of the last rule that joins it; a pair that no rule
/// joins has none.
pub proof fn the_rank_is_the_number_of_the_rule(
    rules: Seq<Seq<char>>,
    l: Seq<char>,
    r: Seq<char>,
    p: int,
)
    ensures
        joins_last(rules, p, l, r) <==> p >= 0 && merges::pair_rank(rules, l, r) == Some(p as nat),
        merges::pair_rank(rules, l, r) is None <==> forall|q: int|
            !#[trigger] joins(rules, q, l, r),
{
    let parts = merges::all_parts(rules);
    let key = Some((l, r));
    index::last_index_is_last(parts, key);
    assert forall|q: int| #![trigger joins(rules, q, l, r)]
        joins(rules, q, l, r) <==> 0 <= q < parts.len() && parts[q] == key by {
        if 0 <= q < rules.len() {
            rules_split_at_a_space(rules[q], l, r);
        }
    }
    if merges::pair_rank(rules, l, r) is Some {
        let n = merges::pair_rank(rules, l, r)->0 as int;
        assert(joins(rules, n, l, r));
    }
}

/// Rules earlier in the list take precedence: among the pairs that a rule joins, the one
/// whose rule comes first is joined first, the leftmost of those with the same rule. Where
/// several rules join one pair the last of them counts.
pub proof fn earlier_rules_join_first(
    rules: Seq<Seq<char>>,
    symbols: Seq<Seq<char>>,
    b: int,
    p: int,
)
    requires
        0 <= b,
        b + 1 < symbols.len(),
        joins_last(rules, p, symbols[b], symbols[b + 1]),
        forall|i: int, q: int|
            0 <= i < symbols.len() - 1 && #[trigger] joins_last(
                rules,
                q,
                symbols[i],
                symbols[i + 1],
            ) ==> p <= q && (i < b ==> p < q),
    ensures
        merges::rank_merged(rules, symbols) == merges::rank_merged(
            rules,
            symbols.take(b) + seq![symbols[b] + symbols[b + 1]] + symbols.skip(b + 2),
        ),
{
    let n = merges::pair_count(symbols);
    merges::best_ranked_is_best(rules, symbols, n);
    the_rank_is_the_number_of_the_rule(rules, symbols[b], symbols[b + 1], p);
    let best = merges::best_ranked(rules, symbols, n);
    if best is None {
        assert(merges::pair_rank(rules, symbols[b], symbols[b + 1]) is None);
    }
    let c = best->0 as int;
    let rank = merges::pair_rank(rules, symbols[c], symbols[c + 1])->0 as int;
    the_rank_is_the_number_of_the_rule(rules, symbols[c], symbols[c + 1], rank);
    assert(joins_last(rules, rank, symbols[c], symbols[c + 1]));
    assert(symbols[b] == symbols[b]);
    assert(rank <= p);
    assert(c == b);
    assert(merges::join_at(symbols, b) =~= symbols.take(b) + seq![symbols[b] + symbols[b + 1]]
        + symbols.skip(b + 2));
}

/// Where each of two pairs is joined by one rule only, the one whose rule comes later in
/// the list is not the next to be joined.
pub proof fn a_later_rule_waits(
    rules: Seq<Seq<char>>,
    symbols: Seq<Seq<char>>,
    i: int,
    j: int,
    p: int,
    q: int,
)
    requires
        0 <= i < symbols.len() - 1,
        0 <= j < symbols.len() - 1,
        joins(rules, p, symbols[i], symbols[i + 1]),
        joins(rules, q, symbols[j], symbols[j + 1]),
        forall|k: int| #[trigger] joins(rules, k, symbols[i], symbols[i + 1]) ==> k == p,
        forall|k: int| #[trigger] joins(rules, k, symbols[j], symbols[j + 1]) ==> k == q,
        p < q,
    ensures
        exists|b: int|
            {
                &&& 0 <= b < symbols.len() - 1
                &&& b != j
                &&& merges::rank_merged(rules, symbols) == merges::rank_merged(
                    rules,
                    #[trigger] symbols.take(b) + seq![symbols[b] + symbols[b + 1]] + symbols.skip(
                        b + 2,
                    ),
                )
            },
{
    let n = merges::pair_count(symbols);
    merges::best_ranked_is_best(rules, symbols, n);
    the_rank_is_the_number_of_the_rule(rules, symbols[i], symbols[i + 1], p);
    the_rank_is_the_number_of_the_rule(rules, symbols[j], symbols[j + 1], q);
    let best = merges::best_ranked(rules, symbols, n);
    assert(symbols[i] == symbols[i]);
    let b = best->0 as int;
    assert(merges::join_at(symbols, b) =~= symbols.take(b) + seq![symbols[b] + symbols[b + 1]]
        + symbols.skip(b + 2));
}

/// Where no rule joins any pair the symbols stay as they are.
pub proof fn without_a_rule_nothing_is_joined(rules: Seq<Seq<char>>, symbols: Seq<Seq<char>>)
    requires
        forall|i: int, q: int|
            0 <= i < symbols.len() - 1 ==> !#[trigger] joins(rules, q, symbols[i], symbols[i + 1]),
    ensures
        merges::rank_merged(rules, symbols) == symbols,
{
    let n = merges::pair_count(symbols);
    merges::best_ranked_is_best(rules, symbols, n);
    if merges::best_ranked(rules, symbols, n) is Some {
        let b = merges::best_ranked(rules, symbols, n)->0 as int;
        let rank = merges::pair_rank(rules, symbols[b], symbols[b + 1])->0 as int;
        the_rank_is_the_number_of_the_rule(rules, symbols[b], symbols[b + 1], rank);
        assert(joins(rules, rank, symbols[b], symbols[b + 1]));
    }
}

/// Whether token number `id` is the last that a pair makes.
pub open spec fn makes_last(tokens: Seq<Seq<char>>, id: int, l: Seq<char>, r: Seq<char>) -> bool {
    &&& 0 <= id < tokens.len()
    &&& tokens[id] == l + r
    &&& forall|k: int| id < k < tokens.len() ==> tokens[k] != l + r
}

/// The score of a token in a list that may be too short: zero where it has none.
pub open spec fn listed_score(scores: Seq<u32>, id: int) -> u32 {
    if 0 <= id < scores.len() {
        scores[id]
    } else {
        0
    }
}

/// The score of a pair is that of the last token that it makes.
proof fn the_score_is_that_of_the_token(
    tokens: Seq<Seq<char>>,
    scores: Seq<u32>,
    l: Seq<char>,
    r: Seq<char>,
    id: int,
)
    ensures
        makes_last(tokens, id, l, r) ==> merges::pair_score(tokens, scores, l, r) == Some(
            listed_score(scores, id),
        ),
        merges::pair_score(tokens, scores, l, r) is Some ==> exists|k: int| #[trigger]
            makes_last(tokens, k, l, r),
{
    index::last_index_is_last(tokens, l + r);
    if makes_last(tokens, id, l, r) {
        index::last_index_found(tokens, l + r, id);
    }
    if index::last_index(tokens, l + r) is Some {
        assert(makes_last(tokens, index::last_index(tokens, l + r)->0 as int, l, r));
    }
}

/// Higher scores take precedence: among the pairs that make a token, the one whose token
/// has the highest score is joined first, the leftmost of those with the same score.
pub proof fn higher_scores_join_first(
    tokens: Seq<Seq<char>>,
    scores: Seq<u32>,
    symbols: Seq<Seq<char>>,
    b: int,
    id: int,
)
    requires
        forall|k: int| 0 <= k < scores.len() ==> !single::is_nan(#[trigger] scores[k]),
        0 <= b,
        b + 1 < symbols.len(),
        makes_last(tokens, id, symbols[b], symbols[b + 1]),
        forall|i: int, k: int|
            0 <= i < symbols.len() - 1 && #[trigger] makes_last(
                tokens,
                k,
                symbols[i],
                symbols[i + 1],
            ) ==> {
                &&& single::single_at_least(listed_score(scores, id), listed_score(scores, k))
                &&& i < b ==> single::single_above(listed_score(scores, id), listed_score(scores, k))
            },
    ensures
        merges::score_merged(tokens, scores, symbols) == merges::score_merged(
            tokens,
            scores,
            symbols.take(b) + seq![symbols[b] + symbols[b + 1]] + symbols.skip(b + 2),
        ),
{
    let n = merges::pair_count(symbols);
    merges::best_scored_is_best(tokens, scores, symbols, n);
    the_score_is_that_of_the_token(tokens, scores, symbols[b], symbols[b + 1], id);
    let best = merges::best_scored(tokens, scores, symbols, n);
    assert(symbols[b] == symbols[b]);
    let c = best->0 as int;
    the_score_is_that_of_the_token(tokens, scores, symbols[c], symbols[c + 1], 0);
    let k = choose|k: int| #[trigger] makes_last(tokens, k, symbols[c], symbols[c + 1]);
    the_score_is_that_of_the_token(tokens, scores, symbols[c], symbols[c + 1], k);
    assert(c == b);
    assert(merges::join_at(symbols, b) =~= symbols.take(b) + seq![symbols[b] + symbols[b + 1]]
        + symbols.skip(b + 2));
}

/// Where no pair makes a token the symbols stay as they are.
pub proof fn without_a_token_nothing_is_joined(
    tokens: Seq<Seq<char>>,
    scores: Seq<u32>,
    symbols: Seq<Seq<char>>,
)
    requires
        forall|i: int|
            #![trigger symbols[i]]
            0 <= i < symbols.len() - 1 ==> !tokens.contains(symbols[i] + symbols[i + 1]),
    ensures
        merges::score_merged(tokens, scores, symbols) == symbols,
{
    let n = merges::pair_count(symbols);
    merges::best_scored_is_best(tokens, scores, symbols, n);
    if merges::best_scored(tokens, scores, symbols, n) is Some {
        let b = merges::best_scored(tokens, scores, symbols, n)->0 as int;
        the_score_is_that_of_the_token(tokens, scores, symbols[b], symbols[b + 1], 0);
        let k = choose|k: int| #[trigger] makes_last(tokens, k, symbols[b], symbols[b + 1]);
        assert(tokens[k] == symbols[b] + symbols[b + 1]);
        assert(symbols[b] == symbols[b]);
    }
}

} // verus!
