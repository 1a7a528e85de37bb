//! What decoding gives back of what encoding made.

use vstd::prelude::*;

use crate::text;
use crate::tokenizer;
use crate::tokenizer::alphabet;
use crate::tokenizer::index;
use crate::tokenizer::merges;
use crate::tokenizer::pieces;
use crate::tokenizer::{Piece, Vocab, VocabKind, SPLIT_PATTERN, SPM_SPACE};

verus! {

/// The bytes of two texts in a row are those of the one and then of the other.
pub proof fn utf8_of_concatenation(a: Seq<char>, b: Seq<char>)
    ensures
        vstd::utf8::encode_utf8(a + b) == vstd::utf8::encode_utf8(a) + vstd::utf8::encode_utf8(b),
    decreases a.len(),
{
    if a.len() == 0 {
        assert(a + b =~= b);
        assert(vstd::utf8::encode_utf8(a) + vstd::utf8::encode_utf8(b)
            =~= vstd::utf8::encode_utf8(b));
    } else {
        assert((a + b).drop_first() =~= a.drop_first() + b);
        utf8_of_concatenation(a.drop_first(), b);
        assert(vstd::utf8::encode_utf8(a + b) =~= vstd::utf8::encode_utf8(a)
            + vstd::utf8::encode_utf8(b));
    }
}

/// Mapping each element to a run and putting the runs together goes part by part.
proof fn flat_map_of_concatenation<A, B>(a: Seq<A>, b: Seq<A>, f: spec_fn(A) -> Seq<B>)
    ensures
        (a + b).flat_map(f) == a.flat_map(f) + b.flat_map(f),
{
    assert((a + b).map_values(f) =~= a.map_values(f) + b.map_values(f));
    vstd::seq_lib::lemma_flatten_concat(a.map_values(f), b.map_values(f));
}

impl Vocab {
    /// The bytes of a list of tokens are those of its first part and then of the
    /// rest, wherever it is cut: what a token adds depends on nothing before or
    /// after it.
    pub proof fn decoding_goes_token_by_token(self, a: Seq<u32>, b: Seq<u32>)
        ensures
            self.decoded_bytes(a + b) == self.decoded_bytes(a) + self.decoded_bytes(b),
    {
        flat_map_of_concatenation(a, b, |id: u32| self.token_bytes(id));
    }

    /// The bytes of a single token.
    proof fn decoded_one(self, id: u32)
        ensures
            self.decoded_bytes(seq![id]) == self.token_bytes(id),
    {
        self.decoded_bytes_grow(Seq::empty(), id);
        assert(Seq::<u32>::empty().push(id) =~= seq![id]);
        assert(self.decoded_bytes(Seq::empty()) =~= Seq::<u8>::empty());
    }

    /// The bytes that the spellings of two texts in a row give.
    proof fn spelled_concatenation(self, a: Seq<char>, b: Seq<char>)
        ensures
            self.spelled_bytes(a + b) == self.spelled_bytes(a) + self.spelled_bytes(b),
    {
        flat_map_of_concatenation(a, b, |c: char| tokenizer::spelled_byte(c));
    }

    /// The byte that one character spells.
    proof fn spelled_one(self, c: char)
        ensures
            self.spelled_bytes(seq![c]) == tokenizer::spelled_byte(c),
    {
        let f = |c: char| tokenizer::spelled_byte(c);
        Seq::<char>::empty().lemma_flat_map_push(f, c);
        assert(Seq::<char>::empty().push(c) =~= seq![c]);
        assert(Seq::<char>::empty().flat_map(f) =~= Seq::<u8>::empty());
    }

    /// The last token with a spelling has that spelling.
    pub proof fn token_id_has_spelling(self, t: Seq<char>)
        requires
            self.tokens.len() <= u32::MAX,
        ensures
            self.token_id(t) is Some ==> self.token_id(t)->0 < self.tokens.len()
                && self.tokens[self.token_id(t)->0 as int] == t,
    {
        index::last_index_is_last(self.tokens, t);
    }

    /// Every byte has a token of its own, spelled with its character.
    pub open spec fn spells_every_byte(self) -> bool {
        forall|b: u8| self.token_id(seq![#[trigger] alphabet::byte_char(b)]) is Some
    }

    /// A text is made of characters of the alphabet.
    pub open spec fn is_spelling(self, t: Seq<char>) -> bool {
        forall|i: int| 0 <= i < t.len() ==> alphabet::char_byte(#[trigger] t[i]) is Some
    }

    /// A character that spells a byte has a token that gives the byte back.
    proof fn char_gives_its_byte(self, c: char)
        requires
            self.kind == VocabKind::Gpt2Byte,
            self.tokens.len() <= u32::MAX,
            self.spells_every_byte(),
            alphabet::char_byte(c) is Some,
        ensures
            self.decoded_bytes(self.char_ids(c)) == tokenizer::spelled_byte(c),
    {
        let b = choose|b: u8| alphabet::byte_char(b) == c;
        assert(alphabet::byte_char(b) == c);
        assert(self.token_id(seq![alphabet::byte_char(b)]) is Some);
        self.token_id_has_spelling(seq![c]);
        let id = self.token_id(seq![c])->0;
        self.decoded_one(id);
        self.spelled_one(c);
    }

    /// The characters of a spelling give their bytes back.
    proof fn chars_give_their_bytes(self, s: Seq<char>)
        requires
            self.kind == VocabKind::Gpt2Byte,
            self.tokens.len() <= u32::MAX,
            self.spells_every_byte(),
            self.is_spelling(s),
        ensures
            self.decoded_bytes(s.flat_map(|c: char| self.char_ids(c))) == self.spelled_bytes(s),
        decreases s.len(),
    {
        let f = |c: char| self.char_ids(c);
        if s.len() == 0 {
            assert(s.flat_map(f) =~= Seq::<u32>::empty());
            assert(self.decoded_bytes(Seq::empty()) =~= Seq::<u8>::empty());
            assert(self.spelled_bytes(s) =~= Seq::<u8>::empty());
        } else {
            let rest = s.drop_last();
            let c = s.last();
            assert(rest.push(c) =~= s);
            assert(rest + seq![c] =~= s);
            assert forall|i: int| 0 <= i < rest.len() implies alphabet::char_byte(
                #[trigger] rest[i],
            ) is Some by {
                assert(rest[i] == s[i]);
            }
            assert(alphabet::char_byte(s[s.len() - 1]) is Some);
            self.chars_give_their_bytes(rest);
            rest.lemma_flat_map_push(f, c);
            self.char_gives_its_byte(c);
            self.decoding_goes_token_by_token(rest.flat_map(f), f(c));
            self.spelled_concatenation(rest, seq![c]);
            self.spelled_one(c);
        }
    }

    /// A symbol gives back the bytes that it spells.
    proof fn symbol_gives_its_bytes(self, s: Seq<char>)
        requires
            self.kind == VocabKind::Gpt2Byte,
            self.tokens.len() <= u32::MAX,
            self.spells_every_byte(),
            self.is_spelling(s),
        ensures
            self.decoded_bytes(self.symbol_ids(s)) == self.spelled_bytes(s),
    {
        match self.token_id(s) {
            Some(id) => {
                self.token_id_has_spelling(s);
                self.decoded_one(id);
            },
            None => {
                self.chars_give_their_bytes(s);
            },
        }
    }

    /// Symbols give back the bytes that they spell.
    proof fn symbols_give_their_bytes(self, symbols: Seq<Seq<char>>)
        requires
            self.kind == VocabKind::Gpt2Byte,
            self.tokens.len() <= u32::MAX,
            self.spells_every_byte(),
            self.is_spelling(symbols.flatten()),
        ensures
            self.decoded_bytes(self.symbols_ids(symbols)) == self.spelled_bytes(symbols.flatten()),
        decreases symbols.len(),
    {
        if symbols.len() == 0 {
            assert(self.symbols_ids(symbols) =~= Seq::<u32>::empty());
            assert(symbols.flatten() =~= Seq::<char>::empty());
            assert(self.decoded_bytes(Seq::empty()) =~= Seq::<u8>::empty());
            assert(self.spelled_bytes(Seq::empty()) =~= Seq::<u8>::empty());
        } else {
            let rest = symbols.drop_last();
            let s = symbols.last();
            assert(rest.push(s) =~= symbols);
            rest.lemma_flatten_push(s);
            let all = symbols.flatten();
            assert(all == rest.flatten() + s);
            assert forall|i: int| 0 <= i < rest.flatten().len() implies alphabet::char_byte(
                #[trigger] rest.flatten()[i],
            ) is Some by {
                assert(rest.flatten()[i] == all[i]);
            }
            assert forall|i: int| 0 <= i < s.len() implies alphabet::char_byte(
                #[trigger] s[i],
            ) is Some by {
                assert(s[i] == all[rest.flatten().len() + i]);
            }
            self.symbols_give_their_bytes(rest);
            self.symbol_gives_its_bytes(s);
            self.symbols_grow(rest, s);
            self.decoding_goes_token_by_token(self.symbols_ids(rest), self.symbol_ids(s));
            self.spelled_concatenation(rest.flatten(), s);
        }
    }

    /// The spelling of some bytes, and what it spells.
    proof fn spelling_gives_bytes_back(self, bytes: Seq<u8>)
        ensures
            self.is_spelling(bytes.map_values(|b: u8| seq![alphabet::byte_char(b)]).flatten()),
            self.spelled_bytes(
                bytes.map_values(|b: u8| seq![alphabet::byte_char(b)]).flatten(),
            ) == bytes,
        decreases bytes.len(),
    {
        let f = |b: u8| seq![alphabet::byte_char(b)];
        if bytes.len() == 0 {
            assert(bytes.map_values(f).flatten() =~= Seq::<char>::empty());
            assert(self.spelled_bytes(Seq::empty()) =~= Seq::<u8>::empty());
        } else {
            let rest = bytes.drop_last();
            let b = bytes.last();
            let c = alphabet::byte_char(b);
            self.spelling_gives_bytes_back(rest);
            assert(bytes.map_values(f) =~= rest.map_values(f).push(seq![c]));
            rest.map_values(f).lemma_flatten_push(seq![c]);
            alphabet::byte_alphabet_is_reversible(b);
            self.spelled_concatenation(rest.map_values(f).flatten(), seq![c]);
            self.spelled_one(c);
            assert(rest.push(b) =~= bytes);
            assert(self.spelled_bytes(bytes.map_values(f).flatten()) =~= bytes);
            let all = bytes.map_values(f).flatten();
            let head = rest.map_values(f).flatten();
            assert forall|i: int| 0 <= i < all.len() implies alphabet::char_byte(
                #[trigger] all[i],
            ) is Some by {
                if i < head.len() {
                    assert(all[i] == head[i]);
                } else {
                    assert(all[i] == c);
                }
            }
        }
    }

    /// A word of a byte-level vocabulary with a token for every byte gives its bytes
    /// back, whatever the merges.
    pub proof fn word_gives_its_bytes(self, w: Seq<char>)
        requires
            self.kind == VocabKind::Gpt2Byte,
            self.tokens.len() <= u32::MAX,
            self.spells_every_byte(),
        ensures
            self.decoded_bytes(self.word_ids(w)) == vstd::utf8::encode_utf8(w),
    {
        let symbols = tokenizer::byte_symbols(w);
        merges::rank_merging_keeps_the_text(self.rules, symbols);
        self.spelling_gives_bytes_back(vstd::utf8::encode_utf8(w));
        self.symbols_give_their_bytes(merges::rank_merged(self.rules, symbols));
    }

    /// Words give their bytes back.
    proof fn words_give_their_bytes(self, words: Seq<Seq<char>>)
        requires
            self.kind == VocabKind::Gpt2Byte,
            self.tokens.len() <= u32::MAX,
            self.spells_every_byte(),
        ensures
            self.decoded_bytes(self.words_ids(words)) == vstd::utf8::encode_utf8(words.flatten()),
        decreases words.len(),
    {
        if words.len() == 0 {
            assert(self.words_ids(words) =~= Seq::<u32>::empty());
            assert(words.flatten() =~= Seq::<char>::empty());
            assert(self.decoded_bytes(Seq::empty()) =~= Seq::<u8>::empty());
        } else {
            let rest = words.drop_last();
            let w = words.last();
            assert(rest.push(w) =~= words);
            self.words_give_their_bytes(rest);
            self.word_gives_its_bytes(w);
            self.words_grow(rest, w);
            self.decoding_goes_token_by_token(self.words_ids(rest), self.word_ids(w));
            rest.lemma_flatten_push(w);
            utf8_of_concatenation(rest.flatten(), w);
        }
    }

    /// The text of a piece.
    pub open spec fn piece_text(self, p: Piece) -> Seq<char> {
        match p {
            Piece::Plain(t) => t,
            Piece::Special(id) => self.tokens[id as int],
        }
    }

    /// The text of the first `n` pieces.
    pub open spec fn pieces_text(self, pieces: Seq<Piece>, n: nat) -> Seq<char>
        decreases n,
    {
        if n == 0 {
            Seq::empty()
        } else {
            self.pieces_text(pieces, (n - 1) as nat) + self.piece_text(pieces[n - 1])
        }
    }

    /// Control tokens are listed under their own spelling.
    proof fn specials_have_spelling(self, n: nat, k: int)
        requires
            n <= self.tokens.len() <= u32::MAX,
            0 <= k < self.specials_upto(n).len(),
        ensures
            self.specials_upto(n)[k].1 < self.tokens.len(),
            self.tokens[self.specials_upto(n)[k].1 as int] == self.specials_upto(n)[k].0,
        decreases n,
    {
        if n > 0 && k < self.specials_upto((n - 1) as nat).len() {
            self.specials_have_spelling((n - 1) as nat, k);
        }
    }

    /// A position at which a control token is found lies in the text, and the token
    /// stands there.
    proof fn longest_at_stands(self, t: Seq<char>, i: int, n: nat)
        ensures
            self.longest_at(t, i, n) is Some ==> self.longest_at(t, i, n)->0 < n
                && text::occurs_at(t, self.specials()[self.longest_at(t, i, n)->0 as int].0, i),
        decreases n,
    {
        if n > 0 {
            self.longest_at_stands(t, i, (n - 1) as nat);
        }
    }

    /// The next control token is one, and stands where it was found.
    proof fn next_special_stands(self, t: Seq<char>, i: int)
        requires
            0 <= i,
        ensures
            match self.next_special(t, i) {
                Some((pos, k)) => i <= pos && k < self.specials().len() && text::occurs_at(
                    t,
                    self.specials()[k as int].0,
                    pos,
                ),
                None => true,
            },
        decreases t.len() - i,
    {
        if i < t.len() {
            self.longest_at_stands(t, i, self.specials().len());
            if self.longest_at(t, i, self.specials().len()) is None {
                self.next_special_stands(t, i + 1);
            }
        }
    }

    /// The pieces' text goes part by part.
    proof fn pieces_text_concatenation(self, a: Seq<Piece>, b: Seq<Piece>, n: nat)
        requires
            n <= b.len(),
        ensures
            self.pieces_text(a + b, a.len() + n) == self.pieces_text(a, a.len())
                + self.pieces_text(b, n),
        decreases n,
    {
        if n == 0 {
            self.pieces_text_depends_on_first(a + b, a, a.len());
            assert(self.pieces_text(a, a.len()) + Seq::<char>::empty() =~= self.pieces_text(
                a,
                a.len(),
            ));
        } else {
            self.pieces_text_concatenation(a, b, (n - 1) as nat);
            assert((a + b)[a.len() + n - 1] == b[n - 1]);
            assert(self.pieces_text(a + b, a.len() + n) =~= self.pieces_text(a, a.len())
                + self.pieces_text(b, n));
        }
    }

    /// The text of the first pieces depends on them alone.
    proof fn pieces_text_depends_on_first(self, a: Seq<Piece>, b: Seq<Piece>, n: nat)
        requires
            n <= a.len(),
            n <= b.len(),
            forall|i: int| 0 <= i < n ==> a[i] == b[i],
        ensures
            self.pieces_text(a, n) == self.pieces_text(b, n),
        decreases n,
    {
        if n > 0 {
            self.pieces_text_depends_on_first(a, b, (n - 1) as nat);
        }
    }

    /// The pieces of a text, put together, are the text.
    pub proof fn pieces_cover_the_text(self, t: Seq<char>)
        requires
            self.tokens.len() <= u32::MAX,
            self.specials_are_spelled(),
        ensures
            self.pieces_text(self.pieces(t), self.pieces(t).len()) == t,
    {
        if self.specials().len() == 0 {
            self.one_plain_piece(t);
        } else {
            self.cut_covers_the_text(t);
        }
    }

    /// The text of a single plain piece.
    proof fn one_plain_piece(self, t: Seq<char>)
        ensures
            self.pieces_text(seq![Piece::Plain(t)], 1) == t,
    {
        let one = seq![Piece::Plain(t)];
        assert(self.pieces_text(one, 0) =~= Seq::<char>::empty());
        assert(self.pieces_text(one, 1) =~= t);
    }

    proof fn cut_covers_the_text(self, t: Seq<char>)
        requires
            self.tokens.len() <= u32::MAX,
            self.specials_are_spelled(),
        ensures
            self.pieces_text(self.cut(t), self.cut(t).len()) == t,
        decreases t.len(),
    {
        if t.len() == 0 {
            assert(self.pieces_text(self.cut(t), 0) =~= t);
        } else {
            self.next_special_stands(t, 0);
            match self.next_special(t, 0) {
                None => {
                    self.one_plain_piece(t);
                },
                Some((pos, k)) => {
                    let (special, id) = self.specials()[k as int];
                    assert(special.len() > 0) by {
                        assert(self.specials()[k as int].0.len() > 0);
                    }
                    self.specials_have_spelling(self.tokens.len(), k as int);
                    let rest = t.skip(pos + special.len());
                    self.cut_covers_the_text(rest);
                    let lead = if pos > 0 {
                        seq![Piece::Plain(t.take(pos))]
                    } else {
                        Seq::<Piece>::empty()
                    };
                    let mark = seq![Piece::Special(id)];
                    assert(self.cut(t) == lead + mark + self.cut(rest));
                    assert(self.pieces_text(lead, lead.len()) =~= t.take(pos)) by {
                        if pos > 0 {
                            self.one_plain_piece(t.take(pos));
                        }
                    }
                    assert(self.pieces_text(mark, 0) =~= Seq::<char>::empty());
                    assert(self.pieces_text(mark, 1) =~= special);
                    self.pieces_text_concatenation(lead, mark, 1);
                    self.pieces_text_concatenation(lead + mark, self.cut(rest), self.cut(rest).len());
                    assert(t =~= t.take(pos) + special + rest);
                },
            }
        }
    }

    /// Control tokens are spelled with characters that stand for themselves.
    pub open spec fn specials_read_as_spelled(self) -> bool {
        forall|k: int|
            0 <= k < self.specials().len() ==> self.spelled_bytes(
                (#[trigger] self.specials()[k]).0,
            ) == vstd::utf8::encode_utf8(self.specials()[k].0)
    }

    /// The pieces that a cut makes of control tokens are control tokens.
    proof fn cut_marks_are_specials(self, t: Seq<char>, i: int)
        requires
            0 <= i < self.cut(t).len(),
            self.cut(t)[i] is Special,
        ensures
            exists|k: int|
                0 <= k < self.specials().len() && #[trigger] self.specials()[k].1
                    == self.cut(t)[i]->Special_0,
        decreases t.len(),
    {
        if t.len() > 0 {
            self.next_special_stands(t, 0);
            match self.next_special(t, 0) {
                None => {},
                Some((pos, k)) => {
                    let (special, id) = self.specials()[k as int];
                    let lead = if pos > 0 {
                        seq![Piece::Plain(t.take(pos))]
                    } else {
                        Seq::<Piece>::empty()
                    };
                    if special.len() > 0 {
                        let rest = t.skip(pos + special.len());
                        if i < lead.len() {
                        } else if i == lead.len() {
                            assert(self.specials()[k as int].1 == id);
                        } else {
                            assert(self.cut(t)[i] == self.cut(rest)[i - lead.len() - 1]);
                            self.cut_marks_are_specials(rest, i - lead.len() - 1);
                        }
                    }
                },
            }
        }
    }

    /// With a token for every byte, and words that cover each plain piece, the first
    /// pieces give their text back.
    pub proof fn pieces_give_their_text(self, t: Seq<char>, n: nat)
        requires
            self.kind == VocabKind::Gpt2Byte,
            self.tokens.len() <= u32::MAX,
            self.spells_every_byte(),
            self.specials_read_as_spelled(),
            n <= self.pieces(t).len(),
            forall|i: int|
                0 <= i < n && (#[trigger] self.pieces(t)[i]) is Plain ==> tokenizer::regex_words(
                    SPLIT_PATTERN@,
                    self.pieces(t)[i]->Plain_0,
                ).flatten() == self.pieces(t)[i]->Plain_0,
        ensures
            self.decoded_bytes(self.pieces_ids(self.pieces(t), n)) == vstd::utf8::encode_utf8(
                self.pieces_text(self.pieces(t), n),
            ),
        decreases n,
    {
        let all = self.pieces(t);
        if n == 0 {
            assert(self.decoded_bytes(Seq::empty()) =~= Seq::<u8>::empty());
        } else {
            let i = (n - 1) as nat;
            self.pieces_give_their_text(t, i);
            let p = all[i as int];
            let ids = match p {
                Piece::Special(id) => seq![id],
                Piece::Plain(t) => self.plain_ids(t, i == 0 || all[i - 1] is Special),
            };
            match p {
                Piece::Special(id) => {
                    self.cut_marks_are_specials(t, i as int);
                    let k = choose|k: int|
                        0 <= k < self.specials().len() && #[trigger] self.specials()[k].1 == id;
                    self.specials_have_spelling(self.tokens.len(), k);
                    self.decoded_one(id);
                },
                Piece::Plain(plain) => {
                    self.words_give_their_bytes(tokenizer::regex_words(SPLIT_PATTERN@, plain));
                },
            }
            assert(self.decoded_bytes(ids) == vstd::utf8::encode_utf8(self.piece_text(p)));
            self.decoding_goes_token_by_token(self.pieces_ids(all, i), ids);
            utf8_of_concatenation(self.pieces_text(all, i), self.piece_text(p));
        }
    }

    /// Every byte has a token that stands for it.
    pub open spec fn has_every_byte_token(self) -> bool {
        forall|b: u8|
            self.token_id(#[trigger] alphabet::byte_token_text(b)) is Some && self.fallback_byte(
                self.token_id(alphabet::byte_token_text(b))->0,
            ) == Some(b)
    }

    /// A symbol that reads back: it is a token that does not stand for a byte, or it
    /// is none and holds no space mark.
    pub open spec fn reads_back(self, s: Seq<char>) -> bool {
        match self.token_id(s) {
            Some(id) => self.fallback_byte(id) is None,
            None => !s.contains(SPM_SPACE),
        }
    }

    /// Bytes give themselves back through their tokens.
    proof fn byte_tokens_give_bytes(self, bytes: Seq<u8>)
        requires
            self.has_every_byte_token(),
        ensures
            self.decoded_bytes(bytes.flat_map(|b: u8| self.byte_ids(b))) == bytes,
        decreases bytes.len(),
    {
        let f = |b: u8| self.byte_ids(b);
        if bytes.len() == 0 {
            assert(bytes.flat_map(f) =~= Seq::<u32>::empty());
            assert(self.decoded_bytes(Seq::empty()) =~= Seq::<u8>::empty());
        } else {
            let rest = bytes.drop_last();
            let b = bytes.last();
            assert(rest.push(b) =~= bytes);
            self.byte_tokens_give_bytes(rest);
            rest.lemma_flat_map_push(f, b);
            assert(self.token_id(alphabet::byte_token_text(b)) is Some);
            self.decoded_one(self.token_id(alphabet::byte_token_text(b))->0);
            self.decoding_goes_token_by_token(rest.flat_map(f), f(b));
            assert(self.decoded_bytes(bytes.flat_map(f)) =~= bytes);
        }
    }

    /// A symbol that reads back gives its text with its space marks turned back.
    proof fn raw_symbol_gives_its_text(self, s: Seq<char>)
        requires
            self.kind != VocabKind::Gpt2Byte,
            self.tokens.len() <= u32::MAX,
            self.has_every_byte_token(),
            self.reads_back(s),
        ensures
            self.decoded_bytes(self.symbol_ids(s)) == vstd::utf8::encode_utf8(
                tokenizer::unescaped(s),
            ),
    {
        match self.token_id(s) {
            Some(id) => {
                self.token_id_has_spelling(s);
                self.decoded_one(id);
            },
            None => {
                self.byte_tokens_give_bytes(vstd::utf8::encode_utf8(s));
                assert forall|i: int| 0 <= i < s.len() implies s[i] != SPM_SPACE by {}
                assert(tokenizer::unescaped(s) =~= s);
            },
        }
    }

    /// Symbols that read back give their text with its space marks turned back.
    pub proof fn raw_symbols_give_their_text(self, symbols: Seq<Seq<char>>)
        requires
            self.kind != VocabKind::Gpt2Byte,
            self.tokens.len() <= u32::MAX,
            self.has_every_byte_token(),
            forall|i: int| 0 <= i < symbols.len() ==> self.reads_back(#[trigger] symbols[i]),
        ensures
            self.decoded_bytes(self.symbols_ids(symbols)) == vstd::utf8::encode_utf8(
                tokenizer::unescaped(symbols.flatten()),
            ),
        decreases symbols.len(),
    {
        if symbols.len() == 0 {
            assert(self.symbols_ids(symbols) =~= Seq::<u32>::empty());
            assert(symbols.flatten() =~= Seq::<char>::empty());
            assert(self.decoded_bytes(Seq::empty()) =~= Seq::<u8>::empty());
            assert(tokenizer::unescaped(symbols.flatten()) =~= Seq::<char>::empty());
        } else {
            let rest = symbols.drop_last();
            let s = symbols.last();
            assert(rest.push(s) =~= symbols);
            assert(self.reads_back(symbols[symbols.len() - 1]));
            assert forall|i: int| 0 <= i < rest.len() implies self.reads_back(
                #[trigger] rest[i],
            ) by {
                assert(rest[i] == symbols[i]);
            }
            self.raw_symbols_give_their_text(rest);
            self.raw_symbol_gives_its_text(s);
            self.symbols_grow(rest, s);
            self.decoding_goes_token_by_token(self.symbols_ids(rest), self.symbol_ids(s));
            rest.lemma_flatten_push(s);
            assert(tokenizer::unescaped(symbols.flatten()) =~= tokenizer::unescaped(
                rest.flatten(),
            ) + tokenizer::unescaped(s));
            utf8_of_concatenation(
                tokenizer::unescaped(rest.flatten()),
                tokenizer::unescaped(s),
            );
        }
    }

    /// A text that is merged by score gives itself back, with the space that was put
    /// before it, if it holds no space mark and its symbols read back.
    pub proof fn scored_text_gives_itself_back(self, t: Seq<char>, after_special: bool)
        requires
            self.kind == VocabKind::SpmUnigram,
            self.tokens.len() <= u32::MAX,
            self.has_every_byte_token(),
            !t.contains(SPM_SPACE),
            ({
                let symbols = merges::score_merged(
                    self.tokens,
                    self.scores,
                    tokenizer::singles(tokenizer::escaped(self.prefixed(t, after_special))),
                );
                forall|i: int| 0 <= i < symbols.len() ==> self.reads_back(#[trigger] symbols[i])
            }),
        ensures
            self.decoded_bytes(self.plain_ids(t, after_special)) == vstd::utf8::encode_utf8(
                self.prefixed(t, after_special),
            ),
    {
        let whole = self.prefixed(t, after_special);
        let start = tokenizer::singles(tokenizer::escaped(whole));
        merges::score_merging_keeps_the_text(self.tokens, self.scores, start);
        singles_make_the_text(tokenizer::escaped(whole));
        self.raw_symbols_give_their_text(merges::score_merged(self.tokens, self.scores, start));
        assert forall|i: int| 0 <= i < whole.len() implies whole[i] != SPM_SPACE by {
            if self.add_space_prefix && after_special {
                if i > 0 {
                    assert(whole[i] == t[i - 1]);
                }
            }
        }
        assert(tokenizer::unescaped(tokenizer::escaped(whole)) =~= whole);
    }

    /// The symbols of a run.
    pub open spec fn run_symbols(self, w: Seq<char>) -> Seq<Seq<char>> {
        if w.len() > 0 && (forall|i: int| 0 <= i < w.len() ==> w[i] == '\n') && self.token_id(
            w,
        ) is Some {
            seq![w]
        } else {
            merges::rank_merged(self.rules, tokenizer::singles(w))
        }
    }

    /// Runs whose symbols read back give their text with its space marks turned back.
    proof fn runs_give_their_text(self, runs: Seq<Seq<char>>)
        requires
            self.kind == VocabKind::Gemma4Raw,
            self.tokens.len() <= u32::MAX,
            self.has_every_byte_token(),
            forall|k: int, i: int|
                0 <= k < runs.len() && 0 <= i < self.run_symbols(runs[k]).len()
                    ==> self.reads_back(#[trigger] self.run_symbols(runs[k])[i]),
        ensures
            self.decoded_bytes(self.runs_ids(runs)) == vstd::utf8::encode_utf8(
                tokenizer::unescaped(runs.flatten()),
            ),
        decreases runs.len(),
    {
        if runs.len() == 0 {
            assert(self.runs_ids(runs) =~= Seq::<u32>::empty());
            assert(runs.flatten() =~= Seq::<char>::empty());
            assert(self.decoded_bytes(Seq::empty()) =~= Seq::<u8>::empty());
            assert(tokenizer::unescaped(runs.flatten()) =~= Seq::<char>::empty());
        } else {
            let rest = runs.drop_last();
            let w = runs.last();
            assert(rest.push(w) =~= runs);
            assert forall|k: int, i: int|
                0 <= k < rest.len() && 0 <= i < self.run_symbols(
                    rest[k],
                ).len() implies self.reads_back(#[trigger] self.run_symbols(rest[k])[i]) by {
                assert(rest[k] == runs[k]);
            }
            self.runs_give_their_text(rest);
            let symbols = self.run_symbols(w);
            assert forall|i: int| 0 <= i < symbols.len() implies self.reads_back(
                #[trigger] symbols[i],
            ) by {
                assert(self.reads_back(self.run_symbols(runs[runs.len() - 1])[i]));
            }
            self.raw_symbols_give_their_text(symbols);
            merges::rank_merging_keeps_the_text(self.rules, tokenizer::singles(w));
            singles_make_the_text(w);
            seq![w].lemma_flatten_singleton();
            assert(symbols.flatten() == w);
            assert(self.run_ids(w) == self.symbols_ids(symbols)) by {
                if symbols == seq![w] && self.token_id(w) is Some {
                    self.symbols_grow(Seq::empty(), w);
                    assert(Seq::<Seq<char>>::empty().push(w) =~= seq![w]);
                    assert(self.symbols_ids(Seq::empty()) =~= Seq::<u32>::empty());
                    assert(self.symbols_ids(seq![w]) =~= self.symbol_ids(w));
                }
            }
            self.runs_grow(rest, w);
            self.decoding_goes_token_by_token(self.runs_ids(rest), self.run_ids(w));
            rest.lemma_flatten_push(w);
            assert(tokenizer::unescaped(runs.flatten()) =~= tokenizer::unescaped(rest.flatten())
                + tokenizer::unescaped(w));
            utf8_of_concatenation(
                tokenizer::unescaped(rest.flatten()),
                tokenizer::unescaped(w),
            );
        }
    }

    /// A text whose runs are merged by rank gives itself back if it holds no space
    /// mark and its symbols read back.
    pub proof fn ranked_text_gives_itself_back(self, t: Seq<char>, after_special: bool)
        requires
            self.kind == VocabKind::Gemma4Raw,
            self.tokens.len() <= u32::MAX,
            self.has_every_byte_token(),
            !t.contains(SPM_SPACE),
            forall|k: int, i: int|
                0 <= k < pieces::newline_runs(tokenizer::escaped(t)).len() && 0 <= i
                    < self.run_symbols(pieces::newline_runs(tokenizer::escaped(t))[k]).len()
                    ==> self.reads_back(
                    #[trigger] self.run_symbols(
                        pieces::newline_runs(tokenizer::escaped(t))[k],
                    )[i],
                ),
        ensures
            self.decoded_bytes(self.plain_ids(t, after_special)) == vstd::utf8::encode_utf8(t),
    {
        let runs = pieces::newline_runs(tokenizer::escaped(t));
        self.runs_give_their_text(runs);
        pieces::newline_runs_cover_the_text(tokenizer::escaped(t));
        assert forall|i: int| 0 <= i < t.len() implies t[i] != SPM_SPACE by {}
        assert(tokenizer::unescaped(tokenizer::escaped(t)) =~= t);
    }
}

/// The single characters of a text, put together, are the text.
proof fn singles_make_the_text(t: Seq<char>)
    ensures
        tokenizer::singles(t).flatten() == t,
    decreases t.len(),
{
    if t.len() == 0 {
        assert(tokenizer::singles(t).flatten() =~= t);
    } else {
        let rest = t.drop_last();
        singles_make_the_text(rest);
        assert(tokenizer::singles(t) =~= tokenizer::singles(rest).push(seq![t.last()]));
        tokenizer::singles(rest).lemma_flatten_push(seq![t.last()]);
        assert(rest + seq![t.last()] =~= t);
    }
}

} // verus!
