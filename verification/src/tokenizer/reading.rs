//! How a text is read, told by the text and the vocabulary alone: where control tokens
//! cut it, which token a symbol is, what stands before and after, and what a token
//! gives back.

use vstd::prelude::*;

use crate::gguf;
use crate::gguf::GgufValue;
use crate::tokenizer;
use crate::tokenizer::alphabet;
use crate::tokenizer::index;
use crate::tokenizer::merges;
use crate::tokenizer::pieces;
use crate::tokenizer::{Piece, Vocab, VocabKind};

verus! {

/// Whether a spelling stands in a text at `i`.
pub open spec fn stands(t: Seq<char>, s: Seq<char>, i: int) -> bool {
    &&& 0 <= i
    &&& i + s.len() <= t.len()
    &&& forall|k: int| 0 <= k < s.len() ==> t[i + k] == #[trigger] s[k]
}

impl Vocab {
    /// Whether token number `id` is a control token: its type is three.
    pub open spec fn is_control(self, id: int) -> bool {
        &&& 0 <= id < self.tokens.len()
        &&& id < self.types.len()
        &&& self.types[id] == 3
    }

    /// Whether a control token stands in a text at `i`.
    pub open spec fn control_stands(self, t: Seq<char>, i: int) -> bool {
        exists|id: int| #[trigger] self.is_control(id) && stands(t, self.tokens[id], i)
    }

    /// Whether control token `id` is the one to be taken at `i`: it stands there, none that
    /// stands there is longer, and none as long comes before it in the vocabulary.
    pub open spec fn control_taken(self, t: Seq<char>, i: int, id: int) -> bool {
        &&& self.is_control(id)
        &&& stands(t, self.tokens[id], i)
        &&& forall|k: int| #[trigger]
            self.is_control(k) && stands(t, self.tokens[k], i) ==> self.tokens[k].len()
                <= self.tokens[id].len() && (k < id ==> self.tokens[k].len()
                < self.tokens[id].len())
    }

    /// The control tokens are the tokens of their type, in the order of the vocabulary.
    pub proof fn control_tokens_are_listed(self, n: nat)
        requires
            n <= self.tokens.len() <= u32::MAX,
        ensures
            forall|k: int|
                #![trigger self.specials_upto(n)[k]]
                0 <= k < self.specials_upto(n).len() ==> self.specials_upto(n)[k].1 < n
                    && self.is_control(self.specials_upto(n)[k].1 as int)
                    && self.specials_upto(n)[k].0 == self.tokens[self.specials_upto(n)[k].1 as int],
            forall|j: int, k: int|
                0 <= j < k < self.specials_upto(n).len() ==> (#[trigger] self.specials_upto(n)[j]).1
                    < (#[trigger] self.specials_upto(n)[k]).1,
            forall|id: int| #[trigger]
                self.is_control(id) && id < n ==> exists|k: int|
                    0 <= k < self.specials_upto(n).len() && (#[trigger] self.specials_upto(
                        n,
                    )[k]).1 == id,
        decreases n,
    {
        if n > 0 {
            let m = (n - 1) as nat;
            self.control_tokens_are_listed(m);
            let (before, all) = (self.specials_upto(m), self.specials_upto(n));
            assert forall|k: int| 0 <= k < before.len() implies before[k] == all[k] by {}
            assert forall|id: int| #[trigger] self.is_control(id) && id < n implies exists|k: int|
                0 <= k < all.len() && (#[trigger] all[k]).1 == id by {
                if id < m {
                    let k = choose|k: int| 0 <= k < before.len() && (#[trigger] before[k]).1 == id;
                    assert(all[k].1 == id);
                } else {
                    assert(all[all.len() - 1].1 == id);
                }
            }
        }
    }

    /// A text stands where it occurs.
    proof fn standing_is_occurring(self, t: Seq<char>, s: Seq<char>, i: int)
        ensures
            stands(t, s, i) <==> crate::text::occurs_at(t, s, i),
    {
        if stands(t, s, i) {
            assert(t.subrange(i, i + s.len()) =~= s);
        }
        if crate::text::occurs_at(t, s, i) {
            assert forall|k: int| 0 <= k < s.len() implies t[i + k] == #[trigger] s[k] by {
                assert(t.subrange(i, i + s.len())[k] == t[i + k]);
            }
        }
    }

    /// The longest of the first control tokens that stands at a position, the first of
    /// equally long ones.
    proof fn longest_is_longest(self, t: Seq<char>, i: int, n: nat)
        requires
            n <= self.specials().len(),
        ensures
            match self.longest_at(t, i, n) {
                Some(b) => {
                    &&& b < n
                    &&& stands(t, self.specials()[b as int].0, i)
                    &&& forall|k: int|
                        0 <= k < n && stands(t, (#[trigger] self.specials()[k]).0, i)
                            ==> self.specials()[k].0.len() <= self.specials()[b as int].0.len() && (
                        k < b ==> self.specials()[k].0.len() < self.specials()[b as int].0.len())
                },
                None => forall|k: int|
                    0 <= k < n ==> !stands(t, (#[trigger] self.specials()[k]).0, i),
            },
        decreases n,
    {
        if n > 0 {
            self.longest_is_longest(t, i, (n - 1) as nat);
            self.standing_is_occurring(t, self.specials()[n - 1].0, i);
        }
    }

    /// The control token that is taken at a position is the longest that stands there.
    proof fn taken_is_longest(self, t: Seq<char>, i: int, id: int)
        requires
            self.tokens.len() <= u32::MAX,
        ensures
            self.control_taken(t, i, id) ==> {
                &&& self.longest_at(t, i, self.specials().len()) is Some
                &&& self.specials()[self.longest_at(t, i, self.specials().len())->0 as int] == (
                    self.tokens[id],
                    id as u32,
                )
            },
            !self.control_stands(t, i) ==> self.longest_at(t, i, self.specials().len()) is None,
    {
        let all = self.specials();
        self.longest_is_longest(t, i, all.len());
        self.control_tokens_are_listed(self.tokens.len());
        let found = self.longest_at(t, i, all.len());
        if self.control_taken(t, i, id) {
            let k = choose|k: int| 0 <= k < all.len() && (#[trigger] all[k]).1 == id;
            assert(stands(t, all[k].0, i));
            let b = found->0 as int;
            assert(self.is_control(all[b].1 as int));
            assert(stands(t, self.tokens[all[b].1 as int], i));
            if b < k {
                assert(all[b].1 < all[k].1);
            } else if k < b {
                assert(all[k].1 < all[b].1);
            }
        }
        if !self.control_stands(t, i) && found is Some {
            let b = found->0 as int;
            assert(self.is_control(all[b].1 as int) && stands(t, self.tokens[all[b].1 as int], i));
        }
    }

    /// The next control token is the one taken at the first position where any stands.
    proof fn next_is_first(self, t: Seq<char>, from: int, i: int, id: int)
        requires
            self.tokens.len() <= u32::MAX,
            0 <= from <= i < t.len(),
            self.control_taken(t, i, id),
            forall|j: int| from <= j < i ==> !#[trigger] self.control_stands(t, j),
        ensures
            self.next_special(t, from) is Some,
            (self.next_special(t, from)->0).0 == i,
            self.specials()[(self.next_special(t, from)->0).1 as int] == (
                self.tokens[id],
                id as u32,
            ),
        decreases i - from,
    {
        self.taken_is_longest(t, from, id);
        if from < i {
            assert(!self.control_stands(t, from));
            self.next_is_first(t, from + 1, i, id);
        }
    }

    /// Where no control token stands there is no next one.
    proof fn no_next(self, t: Seq<char>, from: int)
        requires
            self.tokens.len() <= u32::MAX,
            0 <= from,
            forall|j: int| from <= j < t.len() ==> !#[trigger] self.control_stands(t, j),
        ensures
            self.next_special(t, from) is None,
        decreases t.len() - from,
    {
        if from < t.len() {
            assert(!self.control_stands(t, from));
            self.taken_is_longest(t, from, 0);
            self.no_next(t, from + 1);
        }
    }

    /// A text is cut at the first control token in it, the longest that stands there: into
    /// what is before it, if anything is, the token, and the pieces of what is after it.
    pub proof fn texts_are_cut_at_control_tokens(
        self,
        before: Seq<char>,
        id: int,
        after: Seq<char>,
    )
        requires
            self.tokens.len() <= u32::MAX,
            self.is_control(id),
            self.tokens[id].len() > 0,
            self.control_taken(before + self.tokens[id] + after, before.len() as int, id),
            forall|j: int|
                0 <= j < before.len() ==> !#[trigger] self.control_stands(
                    before + self.tokens[id] + after,
                    j,
                ),
        ensures
            self.pieces(before + self.tokens[id] + after) == (if before.len() > 0 {
                seq![Piece::Plain(before)]
            } else {
                Seq::empty()
            }) + seq![Piece::Special(id as u32)] + self.pieces(after),
    {
        let s = self.tokens[id];
        let t = before + s + after;
        let n = before.len() as int;
        self.control_tokens_are_listed(self.tokens.len());
        self.next_is_first(t, 0, n, id);
        assert(self.specials().len() > 0);
        assert(t.take(n) =~= before);
        assert(t.skip(n + s.len()) =~= after);
    }

    /// A text in which no control token stands is one plain piece.
    pub proof fn plain_texts_are_one_piece(self, t: Seq<char>)
        requires
            self.tokens.len() <= u32::MAX,
            t.len() > 0,
            forall|j: int| 0 <= j < t.len() ==> !#[trigger] self.control_stands(t, j),
        ensures
            self.pieces(t) == seq![Piece::Plain(t)],
    {
        self.no_next(t, 0);
    }

    /// The ids of pieces around a control token.
    proof fn pieces_meet_at_a_control_token(self, a: Seq<Piece>, id: u32, b: Seq<Piece>, n: nat)
        requires
            n <= b.len(),
        ensures
            self.pieces_ids(a + seq![Piece::Special(id)] + b, a.len() + 1 + n) == self.pieces_ids(
                a,
                a.len(),
            ) + seq![id] + self.pieces_ids(b, n),
        decreases n,
    {
        let all = a + seq![Piece::Special(id)] + b;
        if n == 0 {
            self.first_pieces(all, a, a.len());
            assert(all[a.len() as int] == Piece::Special(id));
            assert(self.pieces_ids(all, a.len() + 1) =~= self.pieces_ids(a, a.len()) + seq![id]
                + self.pieces_ids(b, 0));
        } else {
            let m = (n - 1) as nat;
            self.pieces_meet_at_a_control_token(a, id, b, m);
            let i = a.len() + 1 + m;
            assert(all[i as int] == b[m as int]);
            if m > 0 {
                assert(all[i - 1] == b[m - 1]);
            } else {
                assert(all[i - 1] is Special);
            }
            assert(self.pieces_ids(all, a.len() + 1 + n) =~= self.pieces_ids(a, a.len()) + seq![id]
                + self.pieces_ids(b, n));
        }
    }

    /// The ids of the first pieces depend on them alone.
    proof fn first_pieces(self, a: Seq<Piece>, b: Seq<Piece>, n: nat)
        requires
            n <= a.len(),
            n <= b.len(),
            forall|i: int| 0 <= i < n ==> a[i] == b[i],
        ensures
            self.pieces_ids(a, n) == self.pieces_ids(b, n),
        decreases n,
    {
        if n > 0 {
            self.first_pieces(a, b, (n - 1) as nat);
        }
    }

    /// Control tokens are taken as they stand: the ids of a text are those of what is
    /// before the first control token in it, read as the beginning of a text, the token's
    /// own id, and those of what is after it, read as a text of its own.
    pub proof fn control_tokens_are_their_own_ids(
        self,
        before: Seq<char>,
        id: int,
        after: Seq<char>,
    )
        requires
            self.tokens.len() <= u32::MAX,
            self.is_control(id),
            self.tokens[id].len() > 0,
            self.control_taken(before + self.tokens[id] + after, before.len() as int, id),
            forall|j: int|
                0 <= j < before.len() ==> !#[trigger] self.control_stands(
                    before + self.tokens[id] + after,
                    j,
                ),
        ensures
            self.encoded(before + self.tokens[id] + after, false) == (if before.len() > 0 {
                self.plain_ids(before, true)
            } else {
                Seq::empty()
            }) + seq![id as u32] + self.encoded(after, false),
    {
        let t = before + self.tokens[id] + after;
        self.texts_are_cut_at_control_tokens(before, id, after);
        let lead = if before.len() > 0 {
            seq![Piece::Plain(before)]
        } else {
            Seq::<Piece>::empty()
        };
        let rest = self.pieces(after);
        self.pieces_meet_at_a_control_token(lead, id as u32, rest, rest.len());
        reveal_with_fuel(Vocab::pieces_ids, 2);
        if before.len() > 0 {
            assert(self.pieces_ids(lead, 1) =~= self.plain_ids(before, true));
        }
        assert(self.encoded(t, false) =~= self.pieces_ids(self.pieces(t), self.pieces(t).len()));
        assert(self.encoded(after, false) =~= self.pieces_ids(rest, rest.len()));
    }

    /// A text in which no control token stands is read as a whole.
    pub proof fn plain_texts_are_read_as_a_whole(self, t: Seq<char>)
        requires
            self.tokens.len() <= u32::MAX,
            t.len() > 0,
            forall|j: int| 0 <= j < t.len() ==> !#[trigger] self.control_stands(t, j),
        ensures
            self.encoded(t, false) == self.plain_ids(t, true),
    {
        self.plain_texts_are_one_piece(t);
        reveal_with_fuel(Vocab::pieces_ids, 2);
        assert(self.encoded(t, false) =~= self.plain_ids(t, true));
    }

    /// The start token comes first where it is asked for and the vocabulary has one, and
    /// changes nothing else.
    pub proof fn the_start_token_comes_first(self, t: Seq<char>)
        ensures
            self.bos is Some ==> self.encoded(t, true) == seq![self.bos->0] + self.encoded(t, false),
            self.bos is None ==> self.encoded(t, true) == self.encoded(t, false),
    {
        let ids = self.pieces_ids(self.pieces(t), self.pieces(t).len());
        assert(self.encoded(t, false) =~= ids);
    }

    /// A symbol that is a token is that token, the last of those spelled like it.
    pub proof fn symbols_are_their_tokens(self, s: Seq<char>, id: int)
        requires
            self.tokens.len() <= u32::MAX,
            0 <= id < self.tokens.len(),
            self.tokens[id] == s,
            forall|k: int| id < k < self.tokens.len() ==> self.tokens[k] != s,
        ensures
            self.token_id(s) == Some(id as u32),
            self.symbol_ids(s) == seq![id as u32],
    {
        index::last_index_found(self.tokens, s, id);
    }

    /// A symbol that is no token is read character by character in a byte-level
    /// vocabulary, and byte by byte in the others; what has no token is left out.
    pub proof fn other_symbols_are_read_in_parts(self, s: Seq<char>, c: char)
        requires
            !self.tokens.contains(s),
            !self.tokens.contains(s.push(c)),
            self.tokens.len() <= u32::MAX,
        ensures
            self.kind == VocabKind::Gpt2Byte ==> self.symbol_ids(s.push(c)) == self.symbol_ids(s)
                + (if self.tokens.contains(seq![c]) {
                self.symbol_ids(seq![c])
            } else {
                Seq::empty()
            }),
            self.kind != VocabKind::Gpt2Byte && !self.tokens.contains(seq![c])
                ==> self.symbol_ids(s.push(c)) == self.symbol_ids(s) + self.symbol_ids(seq![c]),
    {
        self.unlisted(s);
        self.unlisted(s.push(c));
        self.unlisted(seq![c]);
        let f = |c: char| self.char_ids(c);
        s.lemma_flat_map_push(f, c);
        let g = |b: u8| self.byte_ids(b);
        let (x, y) = (vstd::utf8::encode_utf8(s), vstd::utf8::encode_utf8(seq![c]));
        crate::tokenizer::laws::utf8_of_concatenation(s, seq![c]);
        assert(s.push(c) =~= s + seq![c]);
        assert((x + y).map_values(g) =~= x.map_values(g) + y.map_values(g));
        vstd::seq_lib::lemma_flatten_concat(x.map_values(g), y.map_values(g));
    }

    /// A spelling has an id exactly where a token has it.
    proof fn unlisted(self, s: Seq<char>)
        ensures
            self.token_id(s) is None <==> !self.tokens.contains(s),
    {
        index::last_index_is_last(self.tokens, s);
        if self.token_id(s) is Some {
            assert(self.tokens[index::last_index(self.tokens, s)->0 as int] == s);
        }
    }

    /// A byte of a symbol that is no token is read as the token spelled with its two
    /// hexadecimal digits, in capitals.
    pub proof fn bytes_are_read_by_their_digits(self, b: u8, id: int)
        requires
            self.tokens.len() <= u32::MAX,
            0 <= id < self.tokens.len(),
            self.tokens[id] == seq![
                '<',
                '0',
                'x',
                "0123456789ABCDEF"@[b as int / 16],
                "0123456789ABCDEF"@[b as int % 16],
                '>',
            ],
            forall|k: int| id < k < self.tokens.len() ==> self.tokens[k] != self.tokens[id],
        ensures
            self.byte_ids(b) == seq![id as u32],
    {
        byte_tokens_have_digits(b);
        index::last_index_found(self.tokens, self.tokens[id], id);
    }

    /// The ids of symbols in a row are those of each in its turn; and so for words and for
    /// runs.
    pub proof fn ids_go_part_by_part(self, parts: Seq<Seq<char>>, s: Seq<char>)
        ensures
            self.symbols_ids(Seq::empty()) == Seq::<u32>::empty(),
            self.symbols_ids(parts.push(s)) == self.symbols_ids(parts) + self.symbol_ids(s),
            self.words_ids(Seq::empty()) == Seq::<u32>::empty(),
            self.words_ids(parts.push(s)) == self.words_ids(parts) + self.word_ids(s),
            self.runs_ids(Seq::empty()) == Seq::<u32>::empty(),
            self.runs_ids(parts.push(s)) == self.runs_ids(parts) + self.run_ids(s),
    {
        parts.lemma_flat_map_push(|s: Seq<char>| self.symbol_ids(s), s);
        parts.lemma_flat_map_push(|s: Seq<char>| self.word_ids(s), s);
        parts.lemma_flat_map_push(|s: Seq<char>| self.run_ids(s), s);
        assert(self.symbols_ids(Seq::empty()) =~= Seq::<u32>::empty());
        assert(self.words_ids(Seq::empty()) =~= Seq::<u32>::empty());
        assert(self.runs_ids(Seq::empty()) =~= Seq::<u32>::empty());
    }

    /// A word of a byte-level vocabulary is merged from its bytes, each spelled with its
    /// character; a run is merged from its characters, unless it is all newlines and a
    /// token; and a text that is merged by score from its characters with marks for its
    /// spaces, one of them before it at the beginning and after a control token where the
    /// vocabulary puts one there.
    pub proof fn texts_are_merged_from_their_parts(self, t: Seq<char>, n: nat, after_special: bool)
        ensures
            self.word_ids(t) == self.symbols_ids(
                merges::rank_merged(
                    self.rules,
                    Seq::new(
                        vstd::utf8::encode_utf8(t).len(),
                        |i: int| seq![alphabet::byte_char(vstd::utf8::encode_utf8(t)[i])],
                    ),
                ),
            ),
            (exists|i: int| 0 <= i < t.len() && t[i] != '\n') ==> self.run_ids(t)
                == self.symbols_ids(
                merges::rank_merged(self.rules, Seq::new(t.len(), |i: int| seq![t[i]])),
            ),
            n > 0 && self.tokens.contains(Seq::new(n, |i: int| '\n')) ==> self.run_ids(
                Seq::new(n, |i: int| '\n'),
            ) == self.symbol_ids(Seq::new(n, |i: int| '\n')),
            self.kind == VocabKind::SpmUnigram ==> self.plain_ids(t, after_special)
                == self.symbols_ids(
                merges::score_merged(
                    self.tokens,
                    self.scores,
                    (if self.add_space_prefix && after_special {
                        seq![seq!['\u{2581}']]
                    } else {
                        Seq::empty()
                    }) + Seq::new(
                        t.len(),
                        |i: int|
                            seq![
                                if t[i] == ' ' {
                                    '\u{2581}'
                                } else {
                                    t[i]
                                },
                            ],
                    ),
                ),
            ),
            self.kind == VocabKind::Gemma4Raw ==> self.plain_ids(t, after_special)
                == self.runs_ids(
                pieces::newline_runs(
                    Seq::new(
                        t.len(),
                        |i: int|
                            if t[i] == ' ' {
                                '\u{2581}'
                            } else {
                                t[i]
                            },
                    ),
                ),
            ),
            self.kind == VocabKind::Gpt2Byte ==> self.plain_ids(t, after_special)
                == self.words_ids(tokenizer::regex_words(tokenizer::SPLIT_PATTERN@, t)),
    {
        let u = vstd::utf8::encode_utf8(t);
        assert(tokenizer::byte_symbols(t) =~= Seq::new(
            u.len(),
            |i: int| seq![alphabet::byte_char(u[i])],
        ));
        assert(tokenizer::singles(t) =~= Seq::new(t.len(), |i: int| seq![t[i]]));
        let lines = Seq::new(n, |i: int| '\n');
        self.unlisted(lines);
        let marked = Seq::new(
            t.len(),
            |i: int|
                if t[i] == ' ' {
                    '\u{2581}'
                } else {
                    t[i]
                },
        );
        assert(tokenizer::escaped(t) =~= marked);
        let whole = self.prefixed(t, after_special);
        let want = (if self.add_space_prefix && after_special {
            seq![seq!['\u{2581}']]
        } else {
            Seq::empty()
        }) + Seq::new(
            t.len(),
            |i: int|
                seq![
                    if t[i] == ' ' {
                        '\u{2581}'
                    } else {
                        t[i]
                    },
                ],
        );
        let have = tokenizer::singles(tokenizer::escaped(whole));
        assert forall|i: int| 0 <= i < have.len() implies have[i] == want[i] by {
            if self.add_space_prefix && after_special && i > 0 {
                assert(whole[i] == t[i - 1]);
            }
        }
        assert(have =~= want);
    }

    /// What a token gives back: one that stands for a byte, whose type is six, that byte,
    /// except in a byte-level vocabulary; there every token the bytes that its characters
    /// spell, and in the others its own text with its marks turned into spaces. An id
    /// without a token gives nothing.
    pub proof fn tokens_give_back_what_they_spell(self, id: u32, b: u8)
        ensures
            id >= self.tokens.len() ==> self.token_bytes(id) == Seq::<u8>::empty(),
            id < self.tokens.len() && self.kind == VocabKind::Gpt2Byte ==> self.token_bytes(id)
                == self.spelled_bytes(self.tokens[id as int]),
            id < self.tokens.len() && self.kind != VocabKind::Gpt2Byte && id < self.types.len()
                && self.types[id as int] == 6 && self.tokens[id as int] == seq![
                '<',
                '0',
                'x',
                "0123456789ABCDEF"@[b as int / 16],
                "0123456789ABCDEF"@[b as int % 16],
                '>',
            ] ==> self.token_bytes(id) == seq![b],
            id < self.tokens.len() && self.kind != VocabKind::Gpt2Byte && (id >= self.types.len()
                || self.types[id as int] != 6) ==> self.token_bytes(id) == vstd::utf8::encode_utf8(
                Seq::new(
                    self.tokens[id as int].len(),
                    |i: int|
                        if self.tokens[id as int][i] == '\u{2581}' {
                            ' '
                        } else {
                            self.tokens[id as int][i]
                        },
                ),
            ),
    {
        byte_tokens_have_digits(b);
        if id < self.tokens.len() {
            let t = self.tokens[id as int];
            alphabet::byte_token_reads_back(t, b);
            assert(tokenizer::unescaped(t) =~= Seq::new(
                t.len(),
                |i: int|
                    if t[i] == '\u{2581}' {
                        ' '
                    } else {
                        t[i]
                    },
            ));
        }
    }
}

/// The token of a byte is spelled with its two hexadecimal digits, in capitals.
pub proof fn byte_tokens_have_digits(b: u8)
    ensures
        alphabet::byte_token_text(b) == seq![
            '<',
            '0',
            'x',
            "0123456789ABCDEF"@[b as int / 16],
            "0123456789ABCDEF"@[b as int % 16],
            '>',
        ],
{
    reveal_strlit("0123456789ABCDEF");
}

/// Visible characters stand for the bytes with their codes; the other bytes are spelled
/// with the characters from 256 on, in their order and without a gap.
pub proof fn bytes_are_spelled_in_order(b: u8, c: u8)
    ensures
        33 <= b <= 126 || 161 <= b <= 172 || 174 <= b ==> alphabet::byte_char(b) as int == b,
        b <= 32 ==> alphabet::byte_char(b) as int == 256 + b,
        127 <= b <= 160 ==> alphabet::byte_char(b) as int == 256 + 33 + (b - 127),
        b == 173 ==> alphabet::byte_char(b) as int == 256 + 67,
        alphabet::byte_char(b) == alphabet::byte_char(c) ==> b == c,
{
    hidden_bytes(b as int);
    alphabet::byte_alphabet_is_reversible(b);
    alphabet::byte_alphabet_is_reversible(c);
}

/// How many bytes below one are not visible.
proof fn hidden_bytes(b: int)
    requires
        0 <= b <= 256,
    ensures
        b <= 33 ==> alphabet::hidden_below(b) == b,
        33 <= b <= 127 ==> alphabet::hidden_below(b) == 33,
        127 <= b <= 161 ==> alphabet::hidden_below(b) == 33 + (b - 127),
        161 <= b <= 173 ==> alphabet::hidden_below(b) == 67,
        174 <= b ==> alphabet::hidden_below(b) == 68,
    decreases b,
{
    if b > 0 {
        hidden_bytes(b - 1);
    }
}

/// A text is cut where newlines meet other characters and nowhere else: no run is empty,
/// each is all newlines or has none, and neighbours differ in that.
pub proof fn runs_change_at_newlines(t: Seq<char>, k: int)
    requires
        0 <= k < pieces::newline_runs(t).len(),
    ensures
        ({
            let runs = pieces::newline_runs(t);
            &&& runs[k].len() > 0
            &&& forall|i: int|
                0 <= i < runs[k].len() ==> (#[trigger] runs[k][i] == '\n') == (runs[k][0] == '\n')
            &&& k + 1 < runs.len() ==> (runs[k + 1][0] == '\n') != (runs[k][0] == '\n')
        }),
    decreases t.len(),
{
    if t.len() > 0 {
        pieces::run_length_in_range(t);
        let n = pieces::run_length(t) as int;
        let rest = t.skip(n);
        let runs = pieces::newline_runs(t);
        run_is_of_one_sort(t);
        assert(runs =~= seq![t.take(n)] + pieces::newline_runs(rest));
        if k > 0 {
            runs_change_at_newlines(rest, k - 1);
            assert(runs[k] == pieces::newline_runs(rest)[k - 1]);
            if k + 1 < runs.len() {
                assert(runs[k + 1] == pieces::newline_runs(rest)[k]);
            }
        } else if runs.len() > 1 {
            pieces::run_length_in_range(rest);
            assert(runs[1] == rest.take(pieces::run_length(rest) as int));
            assert(runs[1][0] == t[n]);
        }
    }
}

/// The longest beginning of one sort is of that sort, and what follows is not.
proof fn run_is_of_one_sort(t: Seq<char>)
    requires
        t.len() > 0,
    ensures
        ({
            let n = pieces::run_length(t) as int;
            &&& forall|i: int| 0 <= i < n ==> (#[trigger] t[i] == '\n') == (t[0] == '\n')
            &&& n < t.len() ==> (t[n] == '\n') != (t[0] == '\n')
        }),
    decreases t.len(),
{
    pieces::run_length_in_range(t);
    if t.len() > 1 && (t[0] == '\n') == (t[1] == '\n') {
        let rest = t.skip(1);
        run_is_of_one_sort(rest);
        let n = pieces::run_length(t) as int;
        assert forall|i: int| 0 <= i < n implies (#[trigger] t[i] == '\n') == (t[0] == '\n') by {
            if i > 0 {
                assert(rest[i - 1] == t[i]);
                assert(rest[0] == t[1]);
            }
        }
        if n < t.len() {
            assert(rest[n - 1] == t[n]);
            assert(rest[0] == t[1]);
        }
    }
}

/// Tidying looks at each space by itself: it is dropped before one of four marks, or
/// before a contraction, and nothing else is.
pub proof fn spaces_are_dropped_one_by_one(c: char, t: Seq<char>)
    ensures
        pieces::without_spaces(Seq::empty(), false, 0) == Seq::<char>::empty(),
        pieces::without_spaces(seq![c] + t, false, 0) == (if c == ' ' && t.len() > 0
            && "?!.,"@.contains(t[0]) {
            Seq::empty()
        } else {
            seq![c]
        }) + pieces::without_spaces(t, false, 0),
        pieces::without_spaces(seq![c] + t, true, 0) == (if c == ' ' && (starts(t, "'s"@) || starts(
            t,
            "'m"@,
        ) || starts(t, "'re"@) || starts(t, "'ve"@)) {
            Seq::empty()
        } else {
            seq![c]
        }) + pieces::without_spaces(t, true, 0),
{
    let u = seq![c] + t;
    reveal_strlit("?!.,");
    reveal_strlit("'s");
    reveal_strlit("'m");
    reveal_strlit("'re");
    reveal_strlit("'ve");
    let marks = "?!.,"@;
    assert(marks[0] == '?' && marks[1] == '!' && marks[2] == '.' && marks[3] == ',');
    assert(pieces::without_spaces(Seq::empty(), false, 0) =~= Seq::<char>::empty());
    shifted(c, t, false, 0);
    shifted(c, t, true, 0);
    if t.len() > 0 {
        assert(u[1] == t[0]);
    }
    if t.len() > 1 {
        assert(u[2] == t[1]);
    }
    if t.len() > 2 {
        assert(u[3] == t[2]);
    }
    let (own, am, are, have) = ("'s"@, "'m"@, "'re"@, "'ve"@);
    assert(starts(t, own) <==> t.len() > 1 && t[0] == '\'' && t[1] == 's') by {
        assert(own[0] == '\'' && own[1] == 's');
    }
    assert(starts(t, am) <==> t.len() > 1 && t[0] == '\'' && t[1] == 'm') by {
        assert(am[0] == '\'' && am[1] == 'm');
    }
    assert(starts(t, are) <==> t.len() > 2 && t[0] == '\'' && t[1] == 'r' && t[2] == 'e') by {
        assert(are[0] == '\'' && are[1] == 'r' && are[2] == 'e');
    }
    assert(starts(t, have) <==> t.len() > 2 && t[0] == '\'' && t[1] == 'v' && t[2] == 'e') by {
        assert(have[0] == '\'' && have[1] == 'v' && have[2] == 'e');
    }
    let rest = pieces::without_spaces(t, false, 0);
    assert(Seq::<char>::empty() + rest =~= rest);
    let rest = pieces::without_spaces(t, true, 0);
    assert(Seq::<char>::empty() + rest =~= rest);
}

/// Whether a text starts with another.
pub open spec fn starts(t: Seq<char>, s: Seq<char>) -> bool {
    &&& s.len() <= t.len()
    &&& forall|i: int| 0 <= i < s.len() ==> t[i] == #[trigger] s[i]
}

/// Tidying goes by what follows alone.
proof fn shifted(c: char, t: Seq<char>, contractions: bool, i: int)
    requires
        0 <= i,
    ensures
        pieces::without_spaces(seq![c] + t, contractions, i + 1) == pieces::without_spaces(
            t,
            contractions,
            i,
        ),
    decreases t.len() - i,
{
    if i < t.len() {
        shifted(c, t, contractions, i + 1);
        let u = seq![c] + t;
        assert(u[i + 1] == t[i]);
        if i + 1 < t.len() {
            assert(u[i + 2] == t[i + 1]);
        }
        if i + 2 < t.len() {
            assert(u[i + 3] == t[i + 2]);
        }
        if i + 3 < t.len() {
            assert(u[i + 4] == t[i + 3]);
        }
    }
}

/// A vocabulary is what its file lists: its tokens, rules, scores and types under their
/// keys, its shape by the name of the model, the start and the end token, and whether they
/// and a space are put in, which is so for the start token and the space where nothing is
/// said.
pub proof fn vocabularies_are_what_files_list(m: Seq<(String, GgufValue)>)
    ensures
        ({
            let v = tokenizer::vocab_of(m);
            let model = gguf::text_value(m, "tokenizer.ggml.model"@);
            let number = |key: Seq<char>| gguf::unsigned_value(m, key);
            &&& gguf::text_list(m, "tokenizer.ggml.tokens"@) is Some ==> v.tokens == gguf::text_list(
                m,
                "tokenizer.ggml.tokens"@,
            )->0
            &&& gguf::text_list(m, "tokenizer.ggml.merges"@) is Some ==> v.rules == gguf::text_list(
                m,
                "tokenizer.ggml.merges"@,
            )->0
            &&& gguf::text_list(m, "tokenizer.ggml.merges"@) is None ==> v.rules.len() == 0
            &&& gguf::single_list(m, "tokenizer.ggml.scores"@) is Some ==> v.scores
                == gguf::single_list(m, "tokenizer.ggml.scores"@)->0
            &&& gguf::single_list(m, "tokenizer.ggml.scores"@) is None ==> v.scores.len() == 0
            &&& gguf::signed_list(m, "tokenizer.ggml.token_type"@) is Some ==> v.types
                == gguf::signed_list(m, "tokenizer.ggml.token_type"@)->0
            &&& gguf::signed_list(m, "tokenizer.ggml.token_type"@) is None ==> v.types.len() == 0
            &&& v.kind == VocabKind::Gemma4Raw <==> model == Some("gemma4"@)
            &&& v.kind == VocabKind::SpmUnigram <==> model == Some("llama"@)
            &&& number("tokenizer.ggml.bos_token_id"@) is None <==> v.bos is None
            &&& v.bos is Some ==> v.bos->0 == number("tokenizer.ggml.bos_token_id"@)->0 as u32
            &&& number("tokenizer.ggml.eos_token_id"@) is None <==> v.eos is None
            &&& v.eos is Some ==> v.eos->0 == number("tokenizer.ggml.eos_token_id"@)->0 as u32
            &&& number("tokenizer.ggml.add_bos_token"@) is None ==> v.add_bos
            &&& number("tokenizer.ggml.add_bos_token"@) is Some ==> (v.add_bos <==> number(
                "tokenizer.ggml.add_bos_token"@,
            )->0 as u32 != 0)
            &&& number("tokenizer.ggml.add_eos_token"@) is None ==> !v.add_eos
            &&& number("tokenizer.ggml.add_eos_token"@) is Some ==> (v.add_eos <==> number(
                "tokenizer.ggml.add_eos_token"@,
            )->0 as u32 != 0)
            &&& number("tokenizer.ggml.add_space_prefix"@) is None ==> v.add_space_prefix
            &&& number("tokenizer.ggml.add_space_prefix"@) is Some ==> (v.add_space_prefix
                <==> number("tokenizer.ggml.add_space_prefix"@)->0 as u32 != 0)
        }),
{
    reveal_strlit("gemma4");
    reveal_strlit("llama");
    assert("gemma4"@[0] == 'g' && "llama"@[0] == 'l');
}

} // verus!
