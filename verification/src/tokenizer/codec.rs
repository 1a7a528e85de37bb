//! Encoding and decoding with a tokenizer.

use vstd::prelude::*;

use crate::text;
use crate::text::{chars_of, found_at, text_of};
use crate::tokenizer;
use crate::tokenizer::alphabet;
use crate::tokenizer::alphabet::{byte_fallback_token_name, byte_of_char};
use crate::tokenizer::merges;
use crate::tokenizer::merges::spm_merge_symbols;
use crate::tokenizer::pieces;
use crate::tokenizer::pieces::{clean_spaces_postprocess, split_newline_runs};
use crate::tokenizer::{
    escape_spaces, find_words, lossy, single_symbols, unescape_spaces, Segment, Tokenizer,
    VocabKind, SPLIT_PATTERN,
};

verus! {

impl Tokenizer {
    /// The number of tokens.
    pub fn vocab_size(&self) -> (n: usize)
        ensures
            n == self@.tokens.len(),
    {
        proof {
            use_type_invariant(self);
        }
        self.tokens.len()
    }

    /// The shape of the vocabulary.
    pub fn vocab_kind(&self) -> (r: VocabKind)
        ensures
            r == self@.kind,
    {
        proof {
            use_type_invariant(self);
        }
        self.vocab_kind
    }

    /// The start token, if the model has one.
    pub fn bos_token(&self) -> (r: Option<u32>)
        ensures
            r == self@.bos,
    {
        proof {
            use_type_invariant(self);
        }
        self.bos_token
    }

    /// The end token, if the model has one.
    pub fn eos_token(&self) -> (r: Option<u32>)
        ensures
            r == self@.eos,
    {
        proof {
            use_type_invariant(self);
        }
        self.eos_token
    }

    /// The spelling of a token.
    pub fn token_text(&self, id: u32) -> (r: Option<&str>)
        ensures
            r is Some <==> id < self@.tokens.len(),
            r is Some ==> r->0@ == self@.tokens[id as int],
    {
        proof {
            use_type_invariant(self);
        }
        match self.tokens.get(id as usize) {
            Some(s) => Some(s.as_str()),
            None => None,
        }
    }

    /// The id of the last token with a spelling.
    pub fn token_id(&self, t: &str) -> (r: Option<u32>)
        ensures
            r == self@.token_id(t@),
    {
        proof {
            use_type_invariant(self);
            tokenizer::index::last_index_is_last(self@.tokens, t@);
        }
        match self.tokens.find(t) {
            Some(i) => Some(i as u32),
            None => None,
        }
    }

    /// Whether every control token is spelled with at least one character, as
    /// encoding needs.
    pub fn has_spelled_specials(&self) -> (r: bool)
        ensures
            r == self@.specials_are_spelled(),
    {
        proof {
            use_type_invariant(self);
        }
        let mut i: usize = 0;
        while i < self.special_tokens.len()
            invariant
                i <= self.special_tokens@.len(),
                tokenizer::special_views(self.special_tokens@) == self@.specials(),
                forall|j: int| 0 <= j < i ==> (#[trigger] self@.specials()[j]).0.len() > 0,
            decreases self.special_tokens@.len() - i,
        {
            assert(self@.specials()[i as int].0 == self.special_tokens@[i as int].0@);
            if self.special_tokens[i].0.len() == 0 {
                return false;
            }
            i += 1;
        }
        true
    }

    /// Appends the ids of one symbol.
    fn push_symbol(&self, s: &String, ids: &mut Vec<u32>)
        ensures
            final(ids)@ == old(ids)@ + self@.symbol_ids(s@),
    {
        proof {
            use_type_invariant(self);
        }
        let ghost v = self@;
        let ghost start = ids@;
        if let Some(id) = self.token_id(s.as_str()) {
            ids.push(id);
            assert(ids@ =~= start + seq![id]);
        } else if self.vocab_kind == VocabKind::Gpt2Byte {
            let chars = chars_of(s.as_str());
            let mut i: usize = 0;
            let ghost f = |c: char| v.char_ids(c);
            assert(s@.take(0).flat_map(f) =~= Seq::<u32>::empty());
            while i < chars.len()
                invariant
                    i <= chars.len(),
                    chars@ == s@,
                    v == self@,
                    f == (|c: char| v.char_ids(c)),
                    ids@ == start + s@.take(i as int).flat_map(f),
                decreases chars.len() - i,
            {
                let mut one = String::new();
                one.push(chars[i]);
                assert(one@ =~= seq![s@[i as int]]);
                let ghost before = ids@;
                proof {
                    s@.lemma_flat_map_take_append(f, i as int);
                }
                if let Some(id) = self.token_id(one.as_str()) {
                    ids.push(id);
                }
                assert(ids@ =~= before + v.char_ids(s@[i as int]));
                assert(ids@ =~= start + s@.take(i + 1).flat_map(f));
                i += 1;
            }
            assert(s@.take(s@.len() as int) =~= s@);
        } else {
            let bytes = s.as_str().as_bytes();
            let ghost spelled = vstd::utf8::encode_utf8(s@);
            let mut i: usize = 0;
            let ghost f = |b: u8| v.byte_ids(b);
            assert(spelled.take(0).flat_map(f) =~= Seq::<u32>::empty());
            while i < bytes.len()
                invariant
                    i <= bytes.len(),
                    bytes@ == spelled,
                    v == self@,
                    f == (|b: u8| v.byte_ids(b)),
                    ids@ == start + spelled.take(i as int).flat_map(f),
                decreases bytes.len() - i,
            {
                let name = byte_fallback_token_name(bytes[i]);
                let ghost before = ids@;
                proof {
                    spelled.lemma_flat_map_take_append(f, i as int);
                }
                if let Some(id) = self.token_id(name.as_str()) {
                    ids.push(id);
                }
                assert(ids@ =~= before + v.byte_ids(spelled[i as int]));
                assert(ids@ =~= start + spelled.take(i + 1).flat_map(f));
                i += 1;
            }
            assert(spelled.take(spelled.len() as int) =~= spelled);
        }
    }

    /// Appends the ids of a list of symbols.
    fn push_symbols(&self, symbols: &Vec<String>, ids: &mut Vec<u32>)
        ensures
            final(ids)@ == old(ids)@ + self@.symbols_ids(text::texts(symbols@)),
    {
        let ghost v = self@;
        let ghost start = ids@;
        let ghost all = text::texts(symbols@);
        let mut i: usize = 0;
        assert(v.symbols_ids(all.take(0)) =~= Seq::<u32>::empty());
        while i < symbols.len()
            invariant
                i <= symbols.len(),
                v == self@,
                all == text::texts(symbols@),
                ids@ == start + v.symbols_ids(all.take(i as int)),
            decreases symbols.len() - i,
        {
            self.push_symbol(&symbols[i], ids);
            proof {
                v.symbols_grow(all.take(i as int), all[i as int]);
                assert(all.take(i + 1) =~= all.take(i as int).push(all[i as int]));
                assert(ids@ =~= start + v.symbols_ids(all.take(i + 1)));
            }
            i += 1;
        }
        assert(all.take(all.len() as int) =~= all);
    }

    /// The bytes of a word spelled in the alphabet, merged by rank.
    fn bpe_merge_byte(&self, word: &str) -> (r: Vec<String>)
        ensures
            text::texts(r@) == merges::rank_merged(
                self@.rules,
                tokenizer::byte_symbols(word@),
            ),
    {
        proof {
            use_type_invariant(self);
        }
        let bytes = word.as_bytes();
        let mut symbols: Vec<String> = Vec::new();
        let mut i: usize = 0;
        while i < bytes.len()
            invariant
                i <= bytes.len(),
                bytes@ == vstd::utf8::encode_utf8(word@),
                self.byte_to_char@.len() == 256,
                forall|b: u8| #[trigger] self.byte_to_char@[b as int] == alphabet::byte_char(b),
                symbols@.len() == i,
                forall|j: int|
                    0 <= j < i ==> (#[trigger] symbols@[j])@ == seq![
                        alphabet::byte_char(bytes@[j]),
                    ],
            decreases bytes.len() - i,
        {
            let mut s = String::new();
            s.push(self.byte_to_char[bytes[i] as usize]);
            assert(s@ =~= seq![alphabet::byte_char(bytes@[i as int])]);
            symbols.push(s);
            i += 1;
        }
        assert(text::texts(symbols@) =~= tokenizer::byte_symbols(word@));
        self.merges.merge_symbols(symbols)
    }

    /// The characters of a word merged by rank.
    fn bpe_merge_raw(&self, word: &str) -> (r: Vec<String>)
        ensures
            text::texts(r@) == merges::rank_merged(
                self@.rules,
                tokenizer::singles(word@),
            ),
    {
        proof {
            use_type_invariant(self);
        }
        self.merges.merge_symbols(single_symbols(&chars_of(word)))
    }

    /// Appends the ids of the words of a byte-level vocabulary.
    pub fn encode_words(&self, words: &Vec<String>, ids: &mut Vec<u32>)
        ensures
            final(ids)@ == old(ids)@ + self@.words_ids(text::texts(words@)),
    {
        let ghost v = self@;
        let ghost start = ids@;
        let ghost all = text::texts(words@);
        let mut i: usize = 0;
        assert(v.words_ids(all.take(0)) =~= Seq::<u32>::empty());
        while i < words.len()
            invariant
                i <= words.len(),
                v == self@,
                all == text::texts(words@),
                ids@ == start + v.words_ids(all.take(i as int)),
            decreases words.len() - i,
        {
            let symbols = self.bpe_merge_byte(words[i].as_str());
            self.push_symbols(&symbols, ids);
            proof {
                v.words_grow(all.take(i as int), all[i as int]);
                assert(all.take(i + 1) =~= all.take(i as int).push(all[i as int]));
                assert(ids@ =~= start + v.words_ids(all.take(i + 1)));
            }
            i += 1;
        }
        assert(all.take(all.len() as int) =~= all);
    }

    /// Appends the ids of a plain text in a byte-level vocabulary.
    fn encode_plain_byte(&self, t: &str, ids: &mut Vec<u32>)
        ensures
            final(ids)@ == old(ids)@ + self@.words_ids(
                tokenizer::regex_words(SPLIT_PATTERN@, t@),
            ),
            tokenizer::regex_words(SPLIT_PATTERN@, t@).flatten() == t@,
    {
        proof {
            use_type_invariant(self);
        }
        if let Ok(words) = find_words(SPLIT_PATTERN, t) {
            self.encode_words(&words, ids);
        }
    }

    /// Appends the ids of a plain text whose runs are merged by rank.
    fn encode_plain_raw(&self, t: &str, ids: &mut Vec<u32>)
        ensures
            final(ids)@ == old(ids)@ + self@.runs_ids(
                pieces::newline_runs(tokenizer::escaped(t@)),
            ),
    {
        let ghost v = self@;
        let ghost start = ids@;
        let escaped = text_of(escape_spaces(t).as_slice());
        let runs = split_newline_runs(escaped.as_str());
        let ghost all = text::texts(runs@);
        let mut i: usize = 0;
        assert(v.runs_ids(all.take(0)) =~= Seq::<u32>::empty());
        while i < runs.len()
            invariant
                i <= runs.len(),
                v == self@,
                all == text::texts(runs@),
                ids@ == start + v.runs_ids(all.take(i as int)),
            decreases runs.len() - i,
        {
            let ghost before = ids@;
            let newlines = is_newlines(runs[i].as_str());
            let whole: Option<u32> = if newlines {
                self.token_id(runs[i].as_str())
            } else {
                None
            };
            match whole {
                Some(id) => {
                    ids.push(id);
                    assert(ids@ =~= before + seq![id]);
                },
                None => {
                    let symbols = self.bpe_merge_raw(runs[i].as_str());
                    self.push_symbols(&symbols, ids);
                },
            }
            proof {
                v.runs_grow(all.take(i as int), all[i as int]);
                assert(all.take(i + 1) =~= all.take(i as int).push(all[i as int]));
                assert(ids@ =~= start + v.runs_ids(all.take(i + 1)));
            }
            i += 1;
        }
        assert(all.take(all.len() as int) =~= all);
    }

    /// Appends the ids of a plain text that is merged by score.
    fn encode_plain_spm(&self, t: &str, is_prev_special: bool, ids: &mut Vec<u32>)
        ensures
            final(ids)@ == old(ids)@ + self@.symbols_ids(
                merges::score_merged(
                    self@.tokens,
                    self@.scores,
                    tokenizer::singles(
                        tokenizer::escaped(self@.prefixed(t@, is_prev_special)),
                    ),
                ),
            ),
    {
        proof {
            use_type_invariant(self);
        }
        let mut prefixed = String::new();
        if self.add_space_prefix && is_prev_special {
            prefixed.push(' ');
        }
        prefixed.append(t);
        assert(prefixed@ =~= self@.prefixed(t@, is_prev_special));
        let symbols = single_symbols(&escape_spaces(prefixed.as_str()));
        let symbols = spm_merge_symbols(&self.tokens, &self.scores, symbols);
        self.push_symbols(&symbols, ids);
    }

    /// The longest control token that stands at `i`.
    fn special_at(&self, t: &Vec<char>, i: usize) -> (r: Option<usize>)
        ensures
            r is Some <==> self@.longest_at(t@, i as int, self@.specials().len()) is Some,
            r is Some ==> r->0 == self@.longest_at(t@, i as int, self@.specials().len())->0,
            r is Some ==> r->0 < self.special_tokens@.len(),
            r is Some ==> text::occurs_at(t@, self@.specials()[r->0 as int].0, i as int),
    {
        proof {
            use_type_invariant(self);
        }
        let ghost specials = self@.specials();
        let mut best: Option<usize> = None;
        let mut k: usize = 0;
        while k < self.special_tokens.len()
            invariant
                k <= self.special_tokens@.len(),
                specials == self@.specials(),
                tokenizer::special_views(self.special_tokens@) == specials,
                best is Some <==> self@.longest_at(t@, i as int, k as nat) is Some,
                best is Some ==> best->0 == self@.longest_at(t@, i as int, k as nat)->0,
                best is Some ==> best->0 < k,
                best is Some ==> text::occurs_at(t@, specials[best->0 as int].0, i as int),
            decreases self.special_tokens@.len() - k,
        {
            assert(specials[k as int].0 == self.special_tokens@[k as int].0@);
            if found_at(t.as_slice(), self.special_tokens[k].0.as_slice(), i) {
                match best {
                    None => {
                        best = Some(k);
                    },
                    Some(b) => {
                        assert(specials[b as int].0 == self.special_tokens@[b as int].0@);
                        if self.special_tokens[k].0.len() > self.special_tokens[b].0.len() {
                            best = Some(k);
                        }
                    },
                }
            }
            k += 1;
        }
        assert(k == specials.len());
        best
    }

    /// Cuts a text at its control tokens: the first that stands in it, the longest
    /// where several do, and so on with the rest.
    pub fn split_on_special_tokens(&self, t: &str) -> (r: Vec<Segment>)
        requires
            self@.specials_are_spelled(),
        ensures
            tokenizer::segment_views(r@) == self@.pieces(t@),
    {
        proof {
            use_type_invariant(self);
        }
        let mut out: Vec<Segment> = Vec::new();
        assert(self.special_tokens@.len() == self@.specials().len());
        if self.special_tokens.len() == 0 {
            out.push(Segment::Plain(t.to_owned()));
            assert(tokenizer::segment_views(out@) =~= self@.pieces(t@));
            return out;
        }
        let chars = chars_of(t);
        let mut start: usize = 0;
        let mut i: usize = 0;
        assert(t@.skip(0) =~= t@);
        assert(tokenizer::segment_views(out@) + self@.cut(t@.skip(0)) =~= self@.cut(t@));
        while i < chars.len()
            invariant
                start <= i <= chars.len(),
                chars@ == t@,
                self@.specials_are_spelled(),
                tokenizer::special_views(self.special_tokens@) == self@.specials(),
                tokenizer::segment_views(out@) + self@.cut(t@.skip(start as int))
                    == self@.cut(t@),
                i < chars.len() ==> self@.next_special(t@.skip(start as int), 0)
                    == self@.next_special(t@.skip(start as int), i - start),
                i == chars.len() && start < i ==> self@.next_special(
                    t@.skip(start as int),
                    0,
                ) is None,
            decreases chars.len() - i,
        {
            let ghost rest = t@.skip(start as int);
            let ghost before = tokenizer::segment_views(out@);
            proof {
                self@.longest_at_shifts(t@, start as int, i as int, self@.specials().len());
            }
            match self.special_at(&chars, i) {
                None => {
                    i += 1;
                    assert(self@.next_special(rest, i - 1 - start) == self@.next_special(
                        rest,
                        i - start,
                    ));
                },
                Some(k) => {
                    let ghost pos = i - start;
                    assert(self@.next_special(rest, pos) == Some((pos, k as nat)));
                    assert(self@.specials()[k as int].0 == self.special_tokens@[k as int].0@);
                    let ghost special = self@.specials()[k as int].0;
                    if i > start {
                        let plain = text_of(
                            vstd::slice::slice_subrange(chars.as_slice(), start, i),
                        );
                        assert(plain@ =~= rest.take(pos));
                        out.push(Segment::Plain(plain));
                    }
                    out.push(Segment::Special(self.special_tokens[k].1));
                    i += self.special_tokens[k].0.len();
                    assert(rest.skip(pos + special.len()) =~= t@.skip(i as int));
                    start = i;
                    proof {
                        let id = self@.specials()[k as int].1;
                        let lead = if pos > 0 {
                            seq![tokenizer::Piece::Plain(rest.take(pos))]
                        } else {
                            Seq::empty()
                        };
                        assert(tokenizer::segment_views(out@) =~= before + lead + seq![
                            tokenizer::Piece::Special(id),
                        ]);
                        assert(self@.cut(rest) == lead + seq![
                            tokenizer::Piece::Special(id),
                        ] + self@.cut(t@.skip(start as int)));
                        assert(before + self@.cut(rest) =~= tokenizer::segment_views(out@)
                            + self@.cut(t@.skip(start as int)));
                    }
                },
            }
        }
        let ghost before = tokenizer::segment_views(out@);
        if start < chars.len() {
            let plain = text_of(
                vstd::slice::slice_subrange(chars.as_slice(), start, chars.len()),
            );
            assert(plain@ =~= t@.skip(start as int));
            out.push(Segment::Plain(plain));
            assert(tokenizer::segment_views(out@) =~= before + self@.cut(
                t@.skip(start as int),
            ));
        } else {
            assert(self@.cut(t@.skip(start as int)) =~= Seq::<
                tokenizer::Piece,
            >::empty());
            assert(before + self@.cut(t@.skip(start as int)) =~= before);
        }
        out
    }

    /// The ids of a text, after the start token where it is asked for and the model
    /// has one.
    pub fn encode(&self, t: &str, add_bos: bool) -> (r: Vec<u32>)
        requires
            self@.specials_are_spelled(),
        ensures
            r@ == self@.encoded(t@, add_bos),
            self@.kind == VocabKind::Gpt2Byte && self@.spells_every_byte()
                && self@.specials_read_as_spelled() && (!add_bos || self@.bos is None)
                ==> self@.decoded_bytes(r@) == vstd::utf8::encode_utf8(t@),
    {
        proof {
            use_type_invariant(self);
        }
        let ghost v = self@;
        let mut ids: Vec<u32> = Vec::new();
        if add_bos {
            if let Some(bos) = self.bos_token {
                ids.push(bos);
            }
        }
        let ghost lead = ids@;
        let mut is_prev_special = true;
        let segments = self.split_on_special_tokens(t);
        let ghost all = tokenizer::segment_views(segments@);
        let mut i: usize = 0;
        assert(lead + v.pieces_ids(all, 0) =~= lead);
        while i < segments.len()
            invariant
                i <= segments.len(),
                v == self@,
                self.vocab_kind == v.kind,
                all == tokenizer::segment_views(segments@),
                is_prev_special == (i == 0 || all[i - 1] is Special),
                ids@ == lead + v.pieces_ids(all, i as nat),
                v.kind == VocabKind::Gpt2Byte ==> forall|j: int|
                    0 <= j < i && (#[trigger] all[j]) is Plain ==> tokenizer::regex_words(
                        SPLIT_PATTERN@,
                        all[j]->Plain_0,
                    ).flatten() == all[j]->Plain_0,
            decreases segments.len() - i,
        {
            let ghost before = ids@;
            match &segments[i] {
                Segment::Special(id) => {
                    ids.push(*id);
                    assert(ids@ =~= before + seq![*id]);
                    is_prev_special = true;
                },
                Segment::Plain(plain) => {
                    match self.vocab_kind {
                        VocabKind::Gpt2Byte => self.encode_plain_byte(plain.as_str(), &mut ids),
                        VocabKind::Gemma4Raw => self.encode_plain_raw(plain.as_str(), &mut ids),
                        VocabKind::SpmUnigram => self.encode_plain_spm(
                            plain.as_str(),
                            is_prev_special,
                            &mut ids,
                        ),
                    }
                    is_prev_special = false;
                },
            }
            i += 1;
            assert(ids@ =~= lead + v.pieces_ids(all, i as nat));
        }
        assert(ids@ =~= v.encoded(t@, add_bos));
        proof {
            if v.kind == VocabKind::Gpt2Byte && v.spells_every_byte()
                && v.specials_read_as_spelled() && (!add_bos || v.bos is None) {
                v.pieces_give_their_text(t@, all.len());
                v.pieces_cover_the_text(t@);
                assert(ids@ =~= v.pieces_ids(all, all.len()));
            }
        }
        ids
    }

    /// The ids of a text to embed: the model's file says whether the start and end
    /// tokens go with it.
    pub fn encode_for_embedding(&self, t: &str) -> (r: Vec<u32>)
        requires
            self@.specials_are_spelled(),
        ensures
            r@ == self@.encoded(t@, self@.add_bos) + (if self@.add_eos && self@.eos is Some {
                seq![self@.eos->0]
            } else {
                Seq::empty()
            }),
    {
        proof {
            use_type_invariant(self);
        }
        let mut ids = self.encode(t, self.add_bos_token);
        let ghost before = ids@;
        if self.add_eos_token {
            if let Some(eos) = self.eos_token {
                ids.push(eos);
            }
        }
        assert(ids@ =~= before + (if self@.add_eos && self@.eos is Some {
            seq![self@.eos->0]
        } else {
            Seq::empty()
        }));
        ids
    }

    /// Appends the bytes of one token.
    fn push_token_bytes(&self, id: u32, bytes: &mut Vec<u8>)
        ensures
            final(bytes)@ == old(bytes)@ + self@.token_bytes(id),
    {
        proof {
            use_type_invariant(self);
        }
        let ghost v = self@;
        let ghost start = bytes@;
        let index = id as usize;
        if index >= self.tokens.len() {
            assert(bytes@ =~= start + v.token_bytes(id));
            return;
        }
        assert(self.byte_fallback@[index as int] == v.fallback_byte(id));
        if let Some(b) = self.byte_fallback[index] {
            bytes.push(b);
            assert(bytes@ =~= start + v.token_bytes(id));
            return;
        }
        if let Some(token) = self.tokens.get(index) {
            if self.vocab_kind == VocabKind::Gpt2Byte {
                let chars = chars_of(token.as_str());
                let ghost spelling = v.tokens[id as int];
                let ghost f = |c: char| tokenizer::spelled_byte(c);
                let mut i: usize = 0;
                assert(spelling.take(0).flat_map(f) =~= Seq::<u8>::empty());
                while i < chars.len()
                    invariant
                        i <= chars.len(),
                        chars@ == spelling,
                        f == (|c: char| tokenizer::spelled_byte(c)),
                        self.byte_to_char@.len() == 256,
                        forall|b: u8| #[trigger]
                            self.byte_to_char@[b as int] == alphabet::byte_char(b),
                        bytes@ == start + spelling.take(i as int).flat_map(f),
                    decreases chars.len() - i,
                {
                    let ghost before = bytes@;
                    proof {
                        spelling.lemma_flat_map_take_append(f, i as int);
                    }
                    if let Some(b) = byte_of_char(&self.byte_to_char, chars[i]) {
                        bytes.push(b);
                    }
                    assert(bytes@ =~= before + tokenizer::spelled_byte(spelling[i as int]));
                    assert(bytes@ =~= start + spelling.take(i + 1).flat_map(f));
                    i += 1;
                }
                assert(spelling.take(spelling.len() as int) =~= spelling);
            } else {
                let plain = unescape_spaces(token.as_str());
                push_bytes(bytes, plain.as_str().as_bytes());
            }
        }
    }

    /// The bytes of a list of tokens; ids without a token are skipped.
    pub fn decode_bytes(&self, ids: &[u32]) -> (r: Vec<u8>)
        ensures
            r@ == self@.decoded_bytes(ids@),
    {
        let ghost v = self@;
        let mut bytes: Vec<u8> = Vec::new();
        let mut i: usize = 0;
        assert(v.decoded_bytes(ids@.take(0)) =~= Seq::<u8>::empty());
        while i < ids.len()
            invariant
                i <= ids.len(),
                v == self@,
                bytes@ == v.decoded_bytes(ids@.take(i as int)),
            decreases ids.len() - i,
        {
            self.push_token_bytes(ids[i], &mut bytes);
            proof {
                v.decoded_bytes_grow(ids@.take(i as int), ids@[i as int]);
                assert(ids@.take(i + 1) =~= ids@.take(i as int).push(ids@[i as int]));
            }
            i += 1;
        }
        assert(ids@.take(ids@.len() as int) =~= ids@);
        bytes
    }

    /// The text of a list of tokens; ids without a token are skipped.
    pub fn decode(&self, ids: &[u32]) -> (r: String)
        ensures
            r@ == self@.decoded(ids@),
            vstd::utf8::valid_utf8(self@.decoded_bytes(ids@)) ==> r@ == vstd::utf8::decode_utf8(
                self@.decoded_bytes(ids@),
            ),
    {
        let bytes = self.decode_bytes(ids);
        lossy(bytes.as_slice())
    }

    /// A complete decoded text with its spacing tidied, for the vocabularies that
    /// need it.
    pub fn clean_up_tokenization_spaces(&self, t: &str) -> (r: String)
        ensures
            r@ == (if self@.kind == VocabKind::Gemma4Raw {
                pieces::tidied(t@)
            } else {
                t@
            }),
    {
        proof {
            use_type_invariant(self);
        }
        if self.vocab_kind != VocabKind::Gemma4Raw {
            return t.to_owned();
        }
        clean_spaces_postprocess(t)
    }
}

impl tokenizer::Vocab {
    /// What stands at a position of the rest of a text is what stands there in the
    /// text.
    proof fn longest_at_shifts(self, t: Seq<char>, start: int, i: int, n: nat)
        requires
            0 <= start <= i <= t.len(),
        ensures
            self.longest_at(t.skip(start), i - start, n) == self.longest_at(t, i, n),
        decreases n,
    {
        if n > 0 {
            self.longest_at_shifts(t, start, i, (n - 1) as nat);
            let special = self.specials()[n - 1].0;
            if i + special.len() <= t.len() {
                assert(t.skip(start).subrange(i - start, i - start + special.len()) =~= t.subrange(
                    i,
                    i + special.len(),
                ));
            }
        }
    }
}

/// Whether a text is made of newlines, at least one.
fn is_newlines(t: &str) -> (r: bool)
    ensures
        r == (t@.len() > 0 && forall|i: int| 0 <= i < t@.len() ==> t@[i] == '\n'),
{
    let chars = chars_of(t);
    let mut i: usize = 0;
    while i < chars.len()
        invariant
            i <= chars.len(),
            chars@ == t@,
            forall|j: int| 0 <= j < i ==> t@[j] == '\n',
        decreases chars.len() - i,
    {
        if chars[i] != '\n' {
            return false;
        }
        i += 1;
    }
    chars.len() > 0
}

/// Appends a run of bytes.
fn push_bytes(out: &mut Vec<u8>, bytes: &[u8])
    ensures
        final(out)@ == old(out)@ + bytes@,
{
    let ghost start = out@;
    let mut i: usize = 0;
    assert(start + bytes@.take(0) =~= start);
    while i < bytes.len()
        invariant
            i <= bytes.len(),
            out@ == start + bytes@.take(i as int),
        decreases bytes.len() - i,
    {
        out.push(bytes[i]);
        assert(out@ =~= start + bytes@.take(i + 1));
        i += 1;
    }
    assert(bytes@.take(bytes@.len() as int) =~= bytes@);
}

} // verus!
