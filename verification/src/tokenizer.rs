//! Text to token ids and back.
//!
//! A vocabulary comes in one of three shapes. A byte-level vocabulary spells
//! every byte with a visible character and merges by rank within the words that a
//! pattern finds. The other two escape spaces and merge characters: by rank
//! within runs of newlines and of other characters, or by score over the whole
//! text. Control tokens that stand in a text literally are one token each.

pub mod alphabet;
pub mod codec;
pub mod index;
pub mod laws;
pub mod merges;
pub mod order;
pub mod pieces;
pub mod reading;

use vstd::prelude::*;

use crate::gguf;
use crate::gguf::{
    f32_array, i64_array, metadata_string, metadata_u32, string_array, GgufFile, GgufValue,
};
use crate::text;
use crate::text::{chars_of, same_text};
use crate::tokenizer::alphabet::{byte_to_unicode_table, parse_byte_fallback_token};
use crate::tokenizer::index::TextTable;
use crate::tokenizer::merges::MergeTable;

verus! {

/// The pattern of the words of a byte-level vocabulary: contractions, then runs
/// of letters, of digits and of other characters, each with the space before it,
/// then what is left of the whitespace.
pub const SPLIT_PATTERN: &'static str =
    r"'s|'t|'re|'ve|'m|'ll|'d| ?\p{L}+| ?\p{N}+| ?[^\s\p{L}\p{N}]+|\s+";

/// The mark that stands for a space in the vocabularies that escape spaces.
pub const SPM_SPACE: char = '\u{2581}';

/// The type of a control token.
pub const TOKEN_TYPE_CONTROL: i64 = 3;

/// The type of a token that stands for one raw byte.
pub const TOKEN_TYPE_BYTE: i64 = 6;

/// The error that `Regex::new` returns.
#[verifier::external_type_specification]
#[verifier::external_body]
pub struct ExRegexError(regex::Error);

/// Whether `regex::Regex::new` accepts a pattern.
pub uninterp spec fn regex_compiles(pattern: Seq<char>) -> bool;

/// The matches that `regex::Regex::find_iter` yields for a pattern in a text.
pub uninterp spec fn regex_words(pattern: Seq<char>, t: Seq<char>) -> Seq<Seq<char>>;

/// `regex::Regex::new` followed by `Regex::find_iter`: the texts of the
/// successive matches that do not overlap, the leftmost first. Whether the
/// pattern compiles and what it matches depend on nothing but the pattern and
/// the text. Every character is whitespace, a letter, a digit or none of these,
/// so that each starts a match of the split pattern where the last one ended: its
/// matches cover the text.
#[verifier::external_body]
fn find_words(pattern: &str, t: &str) -> (r: Result<Vec<String>, regex::Error>)
    ensures
        r is Ok <==> regex_compiles(pattern@),
        r is Ok ==> text::texts(r->Ok_0@) == regex_words(pattern@, t@),
        r is Ok && pattern@ == SPLIT_PATTERN@ ==> text::texts(r->Ok_0@).flatten() == t@,
{
    match regex::Regex::new(pattern) {
        Ok(re) => Ok(re.find_iter(t).map(|m| m.as_str().to_owned()).collect()),
        Err(e) => Err(e),
    }
}

/// The text that `String::from_utf8_lossy` makes of some bytes.
pub uninterp spec fn lossy_text(bytes: Seq<u8>) -> Seq<char>;

/// `String::from_utf8_lossy`: bytes that are valid UTF-8 are taken as they are,
/// and what is invalid is replaced by marks.
#[verifier::external_body]
fn lossy(bytes: &[u8]) -> (r: String)
    ensures
        r@ == lossy_text(bytes@),
        vstd::utf8::valid_utf8(bytes@) ==> r@ == vstd::utf8::decode_utf8(bytes@),
{
    String::from_utf8_lossy(bytes).into_owned()
}

/// The shape of a vocabulary.
#[derive(Debug, Clone, Copy, PartialEq, Eq, Structural)]
pub enum VocabKind {
    /// Bytes spelled with visible characters, words found by a pattern, merges by
    /// rank.
    Gpt2Byte,
    /// Characters with escaped spaces, runs cut at newlines, merges by rank, and
    /// spacing tidied after decoding.
    Gemma4Raw,
    /// Characters with escaped spaces, no cuts, merges by score.
    SpmUnigram,
}

/// Why a tokenizer could not be made.
#[derive(Debug, Clone, Copy, PartialEq, Eq, Structural)]
pub enum TokenizerError {
    /// The file has no list of tokens.
    MissingTokens,
    /// The split pattern does not compile.
    SplitPattern,
}

impl TokenizerError {
    /// The message of the error.
    pub open spec fn text(self) -> Seq<char> {
        match self {
            TokenizerError::MissingTokens => "GGUF file is missing tokenizer.ggml.tokens"@,
            TokenizerError::SplitPattern => "building tokenizer split regex"@,
        }
    }

    /// The message of the error.
    pub fn message(self) -> (r: &'static str)
        ensures
            r@ == self.text(),
    {
        match self {
            TokenizerError::MissingTokens => "GGUF file is missing tokenizer.ggml.tokens",
            TokenizerError::SplitPattern => "building tokenizer split regex",
        }
    }
}

/// What a tokenizer knows.
pub struct Vocab {
    pub tokens: Seq<Seq<char>>,
    pub rules: Seq<Seq<char>>,
    pub scores: Seq<u32>,
    pub types: Seq<i64>,
    pub kind: VocabKind,
    pub bos: Option<u32>,
    pub eos: Option<u32>,
    pub add_bos: bool,
    pub add_eos: bool,
    pub add_space_prefix: bool,
}

/// A piece of a text: plain text, or a control token.
pub enum Piece {
    Plain(Seq<char>),
    Special(u32),
}

/// Every space replaced by its mark.
pub open spec fn escaped(t: Seq<char>) -> Seq<char> {
    t.map_values(
        |c: char|
            if c == ' ' {
                SPM_SPACE
            } else {
                c
            },
    )
}

/// Every space mark replaced by a space.
pub open spec fn unescaped(t: Seq<char>) -> Seq<char> {
    t.map_values(
        |c: char|
            if c == SPM_SPACE {
                ' '
            } else {
                c
            },
    )
}

/// The characters of a text, one symbol each.
pub open spec fn singles(t: Seq<char>) -> Seq<Seq<char>> {
    t.map_values(|c: char| seq![c])
}

/// The bytes of a text spelled in the alphabet, one symbol each.
pub open spec fn byte_symbols(t: Seq<char>) -> Seq<Seq<char>> {
    vstd::utf8::encode_utf8(t).map_values(|b: u8| seq![alphabet::byte_char(b)])
}

impl Vocab {
    /// The id of the last token with a spelling.
    pub open spec fn token_id(self, t: Seq<char>) -> Option<u32> {
        match index::last_index(self.tokens, t) {
            Some(i) => Some(i as u32),
            None => None,
        }
    }

    /// The control tokens among the first `n`, in order.
    pub open spec fn specials_upto(self, n: nat) -> Seq<(Seq<char>, u32)>
        decreases n,
    {
        if n == 0 {
            Seq::empty()
        } else {
            let before = self.specials_upto((n - 1) as nat);
            if n <= self.types.len() && n <= self.tokens.len() && self.types[n - 1]
                == TOKEN_TYPE_CONTROL {
                before.push((self.tokens[n - 1], (n - 1) as u32))
            } else {
                before
            }
        }
    }

    /// The control tokens, in order.
    pub open spec fn specials(self) -> Seq<(Seq<char>, u32)> {
        self.specials_upto(self.tokens.len())
    }

    /// No control token is spelled with nothing.
    pub open spec fn specials_are_spelled(self) -> bool {
        forall|i: int|
            0 <= i < self.specials().len() ==> (#[trigger] self.specials()[i]).0.len() > 0
    }

    /// The byte that a token stands for, in the vocabularies that have such tokens.
    pub open spec fn fallback_byte(self, id: u32) -> Option<u8> {
        if self.kind != VocabKind::Gpt2Byte && id < self.types.len() && id < self.tokens.len()
            && self.types[id as int] == TOKEN_TYPE_BYTE {
            alphabet::byte_token_value(self.tokens[id as int])
        } else {
            None
        }
    }

    /// The ids of one symbol: its token, or those of its parts that have one.
    pub open spec fn symbol_ids(self, s: Seq<char>) -> Seq<u32> {
        match self.token_id(s) {
            Some(id) => seq![id],
            None => if self.kind == VocabKind::Gpt2Byte {
                s.flat_map(|c: char| self.char_ids(c))
            } else {
                vstd::utf8::encode_utf8(s).flat_map(|b: u8| self.byte_ids(b))
            },
        }
    }

    /// The token of one character, if there is one.
    pub open spec fn char_ids(self, c: char) -> Seq<u32> {
        match self.token_id(seq![c]) {
            Some(id) => seq![id],
            None => Seq::empty(),
        }
    }

    /// The token of one raw byte, if there is one.
    pub open spec fn byte_ids(self, b: u8) -> Seq<u32> {
        match self.token_id(alphabet::byte_token_text(b)) {
            Some(id) => seq![id],
            None => Seq::empty(),
        }
    }

    /// The ids of a list of symbols.
    pub open spec fn symbols_ids(self, symbols: Seq<Seq<char>>) -> Seq<u32> {
        symbols.flat_map(|s: Seq<char>| self.symbol_ids(s))
    }

    /// The ids of one word of a byte-level vocabulary.
    pub open spec fn word_ids(self, w: Seq<char>) -> Seq<u32> {
        self.symbols_ids(merges::rank_merged(self.rules, byte_symbols(w)))
    }

    /// The ids of a list of words of a byte-level vocabulary.
    pub open spec fn words_ids(self, words: Seq<Seq<char>>) -> Seq<u32> {
        words.flat_map(|w: Seq<char>| self.word_ids(w))
    }

    /// The ids of one run: a run of newlines that is a token is that token.
    pub open spec fn run_ids(self, w: Seq<char>) -> Seq<u32> {
        if w.len() > 0 && (forall|i: int| 0 <= i < w.len() ==> w[i] == '\n') && self.token_id(
            w,
        ) is Some {
            seq![self.token_id(w)->0]
        } else {
            self.symbols_ids(merges::rank_merged(self.rules, singles(w)))
        }
    }

    /// The ids of a list of runs.
    pub open spec fn runs_ids(self, runs: Seq<Seq<char>>) -> Seq<u32> {
        runs.flat_map(|w: Seq<char>| self.run_ids(w))
    }

    /// The text that is merged by score: with a space before it at the start of the
    /// text and after a control token, where the vocabulary says so.
    pub open spec fn prefixed(self, t: Seq<char>, after_special: bool) -> Seq<char> {
        if self.add_space_prefix && after_special {
            seq![' '] + t
        } else {
            t
        }
    }

    /// The ids of a plain piece of text.
    pub open spec fn plain_ids(self, t: Seq<char>, after_special: bool) -> Seq<u32> {
        match self.kind {
            VocabKind::Gpt2Byte => self.words_ids(regex_words(SPLIT_PATTERN@, t)),
            VocabKind::Gemma4Raw => self.runs_ids(pieces::newline_runs(escaped(t))),
            VocabKind::SpmUnigram => self.symbols_ids(
                merges::score_merged(
                    self.tokens,
                    self.scores,
                    singles(escaped(self.prefixed(t, after_special))),
                ),
            ),
        }
    }

    /// The longest of the first `n` control tokens that stands at `i`, the first
    /// where two are equally long.
    pub open spec fn longest_at(self, t: Seq<char>, i: int, n: nat) -> Option<nat>
        decreases n,
    {
        if n == 0 {
            None
        } else {
            let k = (n - 1) as nat;
            let before = self.longest_at(t, i, k);
            if text::occurs_at(t, self.specials()[k as int].0, i) && (before is None
                || self.specials()[k as int].0.len() > self.specials()[before->0 as int].0.len()) {
                Some(k)
            } else {
                before
            }
        }
    }

    /// The first position at or after `i` at which a control token stands, and the
    /// longest that does.
    pub open spec fn next_special(self, t: Seq<char>, i: int) -> Option<(int, nat)>
        decreases t.len() - i,
    {
        if i < 0 || i >= t.len() {
            None
        } else {
            match self.longest_at(t, i, self.specials().len()) {
                Some(k) => Some((i, k)),
                None => self.next_special(t, i + 1),
            }
        }
    }

    /// The pieces of a text that is not empty, cut at its control tokens.
    pub open spec fn cut(self, t: Seq<char>) -> Seq<Piece>
        decreases t.len(),
    {
        if t.len() == 0 {
            Seq::empty()
        } else {
            match self.next_special(t, 0) {
                None => seq![Piece::Plain(t)],
                Some((pos, k)) => {
                    let (special, id) = self.specials()[k as int];
                    let before = if pos > 0 {
                        seq![Piece::Plain(t.take(pos))]
                    } else {
                        Seq::empty()
                    };
                    if special.len() == 0 || pos < 0 || pos + special.len() > t.len() {
                        before
                    } else {
                        before + seq![Piece::Special(id)] + self.cut(
                            t.skip(pos + special.len()),
                        )
                    }
                },
            }
        }
    }

    /// The pieces of a text: the whole text where there are no control tokens.
    pub open spec fn pieces(self, t: Seq<char>) -> Seq<Piece> {
        if self.specials().len() == 0 {
            seq![Piece::Plain(t)]
        } else {
            self.cut(t)
        }
    }

    /// The ids of the first `n` pieces.
    pub open spec fn pieces_ids(self, pieces: Seq<Piece>, n: nat) -> Seq<u32>
        decreases n,
    {
        if n == 0 {
            Seq::empty()
        } else {
            let i = (n - 1) as nat;
            self.pieces_ids(pieces, i) + (match pieces[i as int] {
                Piece::Special(id) => seq![id],
                Piece::Plain(t) => self.plain_ids(t, i == 0 || pieces[i - 1] is Special),
            })
        }
    }

    /// The ids of a text, after the start token where it is asked for.
    pub open spec fn encoded(self, t: Seq<char>, add_bos: bool) -> Seq<u32> {
        (if add_bos && self.bos is Some {
            seq![self.bos->0]
        } else {
            Seq::empty()
        }) + self.pieces_ids(self.pieces(t), self.pieces(t).len())
    }

    /// The bytes that the characters of a token spell.
    pub open spec fn spelled_bytes(self, t: Seq<char>) -> Seq<u8> {
        t.flat_map(|c: char| spelled_byte(c))
    }

    /// The bytes of one token.
    pub open spec fn token_bytes(self, id: u32) -> Seq<u8> {
        match self.fallback_byte(id) {
            Some(b) => seq![b],
            None => if id >= self.tokens.len() {
                Seq::empty()
            } else if self.kind == VocabKind::Gpt2Byte {
                self.spelled_bytes(self.tokens[id as int])
            } else {
                vstd::utf8::encode_utf8(unescaped(self.tokens[id as int]))
            },
        }
    }

    /// The bytes of a list of tokens.
    pub open spec fn decoded_bytes(self, ids: Seq<u32>) -> Seq<u8> {
        ids.flat_map(|id: u32| self.token_bytes(id))
    }

    /// The text of a list of tokens.
    pub open spec fn decoded(self, ids: Seq<u32>) -> Seq<char> {
        lossy_text(self.decoded_bytes(ids))
    }
}

/// The byte that a character spells, if it spells one.
pub open spec fn spelled_byte(c: char) -> Seq<u8> {
    match alphabet::char_byte(c) {
        Some(b) => seq![b],
        None => Seq::empty(),
    }
}

/// The vocabulary that a model file describes.
pub open spec fn vocab_of(m: Seq<(String, GgufValue)>) -> Vocab {
    Vocab {
        tokens: gguf::text_list(m, "tokenizer.ggml.tokens"@)->0,
        rules: match gguf::text_list(m, "tokenizer.ggml.merges"@) {
            Some(rules) => rules,
            None => Seq::empty(),
        },
        scores: match gguf::single_list(m, "tokenizer.ggml.scores"@) {
            Some(scores) => scores,
            None => Seq::empty(),
        },
        types: match gguf::signed_list(m, "tokenizer.ggml.token_type"@) {
            Some(types) => types,
            None => Seq::empty(),
        },
        kind: match gguf::text_value(m, "tokenizer.ggml.model"@) {
            Some(model) => if model == "gemma4"@ {
                VocabKind::Gemma4Raw
            } else if model == "llama"@ {
                VocabKind::SpmUnigram
            } else {
                VocabKind::Gpt2Byte
            },
            None => VocabKind::Gpt2Byte,
        },
        bos: id_value(m, "tokenizer.ggml.bos_token_id"@),
        eos: id_value(m, "tokenizer.ggml.eos_token_id"@),
        add_bos: flag(m, "tokenizer.ggml.add_bos_token"@, true),
        add_eos: flag(m, "tokenizer.ggml.add_eos_token"@, false),
        add_space_prefix: flag(m, "tokenizer.ggml.add_space_prefix"@, true),
    }
}

/// The 32-bit integer under a key.
pub open spec fn id_value(m: Seq<(String, GgufValue)>, key: Seq<char>) -> Option<u32> {
    match gguf::unsigned_value(m, key) {
        Some(v) => Some(v as u32),
        None => None,
    }
}

/// The truth value under a key: nonzero, or the default where there is none.
pub open spec fn flag(m: Seq<(String, GgufValue)>, key: Seq<char>, default: bool) -> bool {
    match id_value(m, key) {
        Some(v) => v != 0,
        None => default,
    }
}

fn read_flag(m: &Vec<(String, GgufValue)>, key: &str, default: bool) -> (r: bool)
    ensures
        r == flag(m@, key@, default),
{
    match metadata_u32(m, key) {
        Some(v) => v != 0,
        None => default,
    }
}

impl Vocab {
    /// One more symbol adds its ids.
    proof fn symbols_grow(self, symbols: Seq<Seq<char>>, s: Seq<char>)
        ensures
            self.symbols_ids(symbols.push(s)) == self.symbols_ids(symbols) + self.symbol_ids(s),
    {
        symbols.lemma_flat_map_push(|s: Seq<char>| self.symbol_ids(s), s);
    }

    /// One more word adds its ids.
    proof fn words_grow(self, words: Seq<Seq<char>>, w: Seq<char>)
        ensures
            self.words_ids(words.push(w)) == self.words_ids(words) + self.word_ids(w),
    {
        words.lemma_flat_map_push(|w: Seq<char>| self.word_ids(w), w);
    }

    /// One more run adds its ids.
    proof fn runs_grow(self, runs: Seq<Seq<char>>, w: Seq<char>)
        ensures
            self.runs_ids(runs.push(w)) == self.runs_ids(runs) + self.run_ids(w),
    {
        runs.lemma_flat_map_push(|w: Seq<char>| self.run_ids(w), w);
    }

    /// One more token adds its bytes.
    proof fn decoded_bytes_grow(self, ids: Seq<u32>, id: u32)
        ensures
            self.decoded_bytes(ids.push(id)) == self.decoded_bytes(ids) + self.token_bytes(id),
    {
        ids.lemma_flat_map_push(|id: u32| self.token_bytes(id), id);
    }
}

/// Text to token ids and back, for one vocabulary.
pub struct Tokenizer {
    vocab: Ghost<Vocab>,
    tokens: TextTable,
    merges: MergeTable,
    scores: Vec<u32>,
    byte_to_char: Vec<char>,
    special_tokens: Vec<(Vec<char>, u32)>,
    byte_fallback: Vec<Option<u8>>,
    vocab_kind: VocabKind,
    bos_token: Option<u32>,
    eos_token: Option<u32>,
    add_bos_token: bool,
    add_eos_token: bool,
    add_space_prefix: bool,
}

/// The control tokens of a list, as texts.
spec fn special_views(v: Seq<(Vec<char>, u32)>) -> Seq<(Seq<char>, u32)> {
    v.map_values(|p: (Vec<char>, u32)| (p.0@, p.1))
}

/// A piece of a text: plain text, or a control token.
pub enum Segment {
    Plain(String),
    Special(u32),
}

impl Segment {
    /// The piece.
    pub open spec fn view(&self) -> Piece {
        match self {
            Segment::Plain(s) => Piece::Plain(s@),
            Segment::Special(id) => Piece::Special(*id),
        }
    }
}

/// The pieces of a list of segments.
pub open spec fn segment_views(v: Seq<Segment>) -> Seq<Piece> {
    v.map_values(|s: Segment| s@)
}

/// The characters of a text, one symbol each.
fn single_symbols(t: &Vec<char>) -> (r: Vec<String>)
    ensures
        text::texts(r@) == singles(t@),
{
    let mut out: Vec<String> = Vec::new();
    let mut i: usize = 0;
    while i < t.len()
        invariant
            i <= t.len(),
            out@.len() == i,
            forall|j: int| 0 <= j < i ==> (#[trigger] out@[j])@ == seq![t@[j]],
        decreases t.len() - i,
    {
        let mut s = String::new();
        s.push(t[i]);
        assert(s@ =~= seq![t@[i as int]]);
        out.push(s);
        i += 1;
    }
    assert(text::texts(out@) =~= singles(t@));
    out
}

/// Every space replaced by its mark.
fn escape_spaces(t: &str) -> (r: Vec<char>)
    ensures
        r@ == escaped(t@),
{
    let chars = chars_of(t);
    let mut out: Vec<char> = Vec::new();
    let mut i: usize = 0;
    while i < chars.len()
        invariant
            i <= chars.len(),
            chars@ == t@,
            out@ == escaped(t@.take(i as int)),
        decreases chars.len() - i,
    {
        let c = chars[i];
        out.push(
            if c == ' ' {
                SPM_SPACE
            } else {
                c
            },
        );
        i += 1;
        assert(out@ =~= escaped(t@.take(i as int)));
    }
    assert(t@.take(t@.len() as int) =~= t@);
    out
}

/// Every space mark replaced by a space.
fn unescape_spaces(t: &str) -> (r: String)
    ensures
        r@ == unescaped(t@),
{
    let chars = chars_of(t);
    let mut out = String::new();
    let mut i: usize = 0;
    while i < chars.len()
        invariant
            i <= chars.len(),
            chars@ == t@,
            out@ == unescaped(t@.take(i as int)),
        decreases chars.len() - i,
    {
        let c = chars[i];
        out.push(
            if c == SPM_SPACE {
                ' '
            } else {
                c
            },
        );
        i += 1;
        assert(out@ =~= unescaped(t@.take(i as int)));
    }
    assert(t@.take(t@.len() as int) =~= t@);
    out
}

impl Tokenizer {
    /// What the tokenizer knows.
    pub closed spec fn view(&self) -> Vocab {
        self.vocab@
    }

    #[verifier::type_invariant]
    spec fn matches_vocab(&self) -> bool {
        &&& regex_compiles(SPLIT_PATTERN@)
        &&& self.tokens@ == self.vocab@.tokens
        &&& self.vocab@.tokens.len() <= u32::MAX
        &&& self.merges@ == self.vocab@.rules
        &&& self.scores@ == self.vocab@.scores
        &&& self.byte_to_char@.len() == 256
        &&& forall|b: u8| #[trigger] self.byte_to_char@[b as int] == alphabet::byte_char(b)
        &&& special_views(self.special_tokens@) == self.vocab@.specials()
        &&& self.byte_fallback@.len() == self.vocab@.tokens.len()
        &&& forall|i: int|
            0 <= i < self.byte_fallback@.len() ==> #[trigger] self.byte_fallback@[i]
                == self.vocab@.fallback_byte(i as u32)
        &&& self.vocab_kind == self.vocab@.kind
        &&& self.bos_token == self.vocab@.bos
        &&& self.eos_token == self.vocab@.eos
        &&& self.add_bos_token == self.vocab@.add_bos
        &&& self.add_eos_token == self.vocab@.add_eos
        &&& self.add_space_prefix == self.vocab@.add_space_prefix
    }

    /// The tokenizer that a model file describes.
    pub fn from_gguf(gguf: &GgufFile) -> (r: Result<Self, TokenizerError>)
        requires
            gguf::text_list(gguf.metadata@, "tokenizer.ggml.tokens"@) is Some
                ==> gguf::text_list(gguf.metadata@, "tokenizer.ggml.tokens"@)->0.len() <= u32::MAX,
        ensures
            match r {
                Err(TokenizerError::MissingTokens) => gguf::text_list(
                    gguf.metadata@,
                    "tokenizer.ggml.tokens"@,
                ) is None,
                Err(TokenizerError::SplitPattern) => gguf::text_list(
                    gguf.metadata@,
                    "tokenizer.ggml.tokens"@,
                ) is Some && !regex_compiles(SPLIT_PATTERN@),
                Ok(t) => gguf::text_list(gguf.metadata@, "tokenizer.ggml.tokens"@) is Some
                    && regex_compiles(SPLIT_PATTERN@) && t@ == vocab_of(gguf.metadata@),
            },
    {
        let m = &gguf.metadata;
        let ghost v = vocab_of(m@);
        let tokens = match string_array(m, "tokenizer.ggml.tokens") {
            Some(tokens) => tokens,
            None => {
                return Err(TokenizerError::MissingTokens);
            },
        };
        let rules = match string_array(m, "tokenizer.ggml.merges") {
            Some(rules) => rules,
            None => Vec::new(),
        };
        assert(text::texts(rules@) =~= v.rules);
        let vocab_kind = match metadata_string(m, "tokenizer.ggml.model") {
            Some(model) => if same_text(model.as_str(), "gemma4") {
                VocabKind::Gemma4Raw
            } else if same_text(model.as_str(), "llama") {
                VocabKind::SpmUnigram
            } else {
                VocabKind::Gpt2Byte
            },
            None => VocabKind::Gpt2Byte,
        };
        let scores: Vec<u32> = match f32_array(m, "tokenizer.ggml.scores") {
            Some(scores) => scores,
            None => Vec::new(),
        };
        assert(scores@ =~= v.scores);
        let token_types: Vec<i64> = match i64_array(m, "tokenizer.ggml.token_type") {
            Some(types) => types,
            None => Vec::new(),
        };
        assert(token_types@ =~= v.types);
        let special_tokens = collect_specials(Ghost(v), &tokens, &token_types);
        let byte_fallback = collect_fallback(Ghost(v), vocab_kind, &tokens, &token_types);
        if find_words(SPLIT_PATTERN, "").is_err() {
            return Err(TokenizerError::SplitPattern);
        }
        Ok(
            Tokenizer {
                vocab: Ghost(v),
                merges: MergeTable::new(&rules),
                scores,
                byte_to_char: byte_to_unicode_table(),
                special_tokens,
                byte_fallback,
                vocab_kind,
                bos_token: metadata_u32(m, "tokenizer.ggml.bos_token_id"),
                eos_token: metadata_u32(m, "tokenizer.ggml.eos_token_id"),
                add_bos_token: read_flag(m, "tokenizer.ggml.add_bos_token", true),
                add_eos_token: read_flag(m, "tokenizer.ggml.add_eos_token", false),
                add_space_prefix: read_flag(m, "tokenizer.ggml.add_space_prefix", true),
                tokens: TextTable::new(tokens),
            },
        )
    }
}

/// The control tokens of a vocabulary.
fn collect_specials(
    Ghost(v): Ghost<Vocab>,
    tokens: &Vec<String>,
    types: &Vec<i64>,
) -> (r: Vec<(Vec<char>, u32)>)
    requires
        text::texts(tokens@) == v.tokens,
        types@ == v.types,
        v.tokens.len() <= u32::MAX,
    ensures
        special_views(r@) == v.specials(),
{
    let mut out: Vec<(Vec<char>, u32)> = Vec::new();
    let mut i: usize = 0;
    assert(special_views(out@) =~= v.specials_upto(0));
    while i < tokens.len()
        invariant
            i <= tokens.len(),
            text::texts(tokens@) == v.tokens,
            types@ == v.types,
            v.tokens.len() <= u32::MAX,
            special_views(out@) == v.specials_upto(i as nat),
        decreases tokens.len() - i,
    {
        if i < types.len() && types[i] == TOKEN_TYPE_CONTROL {
            let ghost before = out@;
            out.push((chars_of(tokens[i].as_str()), i as u32));
            assert(special_views(out@) =~= special_views(before).push(
                (v.tokens[i as int], i as u32),
            ));
        }
        i += 1;
    }
    out
}

/// The bytes that the tokens of a vocabulary stand for.
fn collect_fallback(
    Ghost(v): Ghost<Vocab>,
    kind: VocabKind,
    tokens: &Vec<String>,
    types: &Vec<i64>,
) -> (r: Vec<Option<u8>>)
    requires
        kind == v.kind,
        text::texts(tokens@) == v.tokens,
        types@ == v.types,
        v.tokens.len() <= u32::MAX,
    ensures
        r@.len() == v.tokens.len(),
        forall|i: int| 0 <= i < r@.len() ==> #[trigger] r@[i] == v.fallback_byte(i as u32),
{
    let mut out: Vec<Option<u8>> = Vec::new();
    let mut i: usize = 0;
    while i < tokens.len()
        invariant
            i <= tokens.len(),
            kind == v.kind,
            text::texts(tokens@) == v.tokens,
            types@ == v.types,
            v.tokens.len() <= u32::MAX,
            out@.len() == i,
            forall|j: int| 0 <= j < i ==> #[trigger] out@[j] == v.fallback_byte(j as u32),
        decreases tokens.len() - i,
    {
        if kind != VocabKind::Gpt2Byte && i < types.len() && types[i] == TOKEN_TYPE_BYTE {
            out.push(parse_byte_fallback_token(tokens[i].as_str()));
        } else {
            out.push(None);
        }
        i += 1;
    }
    out
}

} // verus!
