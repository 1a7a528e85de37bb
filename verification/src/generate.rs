//! Generating a text token by token: how much room a request gets, what of an
//! earlier one it takes over, which tokens are sent, and when it ends. What a model
//! computes, what a clock shows and whether a token reached its reader comes in
//! from outside, step by step.

use std::time::Duration;

use vstd::prelude::*;

use crate::kv_cache::cache;
use crate::kv_cache::layer;
use crate::kv_cache::{KvCache, LayerCache};
use crate::prefix_cache::CachedPrefill;
use crate::sampling;
use crate::sampling::SamplingParams;
use crate::text;
use crate::text::push_decimal;

verus! {

/// How often a running generation is reported, in nanoseconds.
pub const REPORT_INTERVAL_NANOS: u64 = 1_000_000_000;

/// Why a generation ended.
#[derive(Clone, Copy, Debug, PartialEq, Eq, Structural)]
pub enum FinishReason {
    Stop,
    Length,
}

/// How many tokens a request had and got, and how long both took.
#[derive(Clone, Copy, Debug)]
pub struct GenerateStats {
    pub prompt_tokens: usize,
    pub prompt_time: Duration,
    pub generated_tokens: usize,
    pub generate_time: Duration,
}

/// The times and speeds of a request as texts, each with two places: in seconds,
/// and in tokens a second.
#[derive(Debug)]
pub struct Figures {
    pub prompt_seconds: String,
    pub prompt_speed: String,
    pub generate_seconds: String,
    pub generate_speed: String,
}

/// The line that tells of a request.
pub open spec fn line_text(prompt: nat, generated: nat, f: Figures) -> Seq<char> {
    "prompt "@ + text::decimal_text(prompt) + " tokens in "@ + f.prompt_seconds@ + "s ("@
        + f.prompt_speed@ + " tok/s), generated "@ + text::decimal_text(generated) + " tokens in "@
        + f.generate_seconds@ + "s ("@ + f.generate_speed@ + " tok/s)"@
}

impl GenerateStats {
    /// The line that tells of the request, given its times and speeds as texts.
    pub fn log_line(&self, figures: &Figures) -> (r: String)
        ensures
            r@ == line_text(self.prompt_tokens as nat, self.generated_tokens as nat, *figures),
    {
        let mut s = "prompt ".to_owned();
        push_decimal(&mut s, self.prompt_tokens as u64);
        s.append(" tokens in ");
        s.append(figures.prompt_seconds.as_str());
        s.append("s (");
        s.append(figures.prompt_speed.as_str());
        s.append(" tok/s), generated ");
        push_decimal(&mut s, self.generated_tokens as u64);
        s.append(" tokens in ");
        s.append(figures.generate_seconds.as_str());
        s.append("s (");
        s.append(figures.generate_speed.as_str());
        s.append(" tok/s)");
        s
    }
}

/// A line of the console that tells of the request in a slot. It starts at the
/// beginning of the line where another may stand there already, and clears what is
/// left of that.
pub open spec fn console_text(again: bool, slot: nat, line: Seq<char>) -> Seq<char> {
    (if again {
        "\r"@
    } else {
        ""@
    }) + "orangu-server: [slot "@ + text::decimal_text(slot) + "] "@ + line + "\u{1b}[K"@
}

/// A line of the console that tells of the request in a slot.
pub fn console_line(again: bool, slot: usize, line: &str) -> (r: String)
    ensures
        r@ == console_text(again, slot as nat, line@),
{
    let mut s = if again {
        "\r".to_owned()
    } else {
        "".to_owned()
    };
    s.append("orangu-server: [slot ");
    push_decimal(&mut s, slot as u64);
    s.append("] ");
    s.append(line);
    s.append("\u{1b}[K");
    s
}

/// A request for a text.
#[derive(Debug)]
pub struct GenerateRequest {
    pub prompt_tokens: Vec<u32>,
    pub sampling: SamplingParams,
    pub max_tokens: usize,
    pub stop_token_ids: Vec<u32>,
}

/// What the reader of a text is told.
#[derive(Debug)]
pub enum StreamEvent {
    Token(String),
    Done { stats: GenerateStats, finish_reason: FinishReason },
    Error(String),
}

/// The number of positions that a request gets: those of its prompt and of all
/// that it may generate, as far as the model reaches.
pub open spec fn room(prompt: nat, max_tokens: nat, n_ctx_train: nat) -> nat {
    let reach = if n_ctx_train >= 1 {
        n_ctx_train
    } else {
        1
    };
    if prompt + max_tokens <= reach {
        prompt + max_tokens
    } else {
        reach
    }
}

/// What is said where the prompt alone is too long.
pub open spec fn too_long_text(prompt: nat, n_ctx_train: nat) -> Seq<char> {
    "prompt ("@ + text::decimal_text(prompt) + " tokens) exceeds the model's context length ("@
        + text::decimal_text(n_ctx_train) + ")"@
}

/// How many of the matching positions are taken over: all but the last of the
/// prompt, so that there is a token left to compute scores from.
pub open spec fn taken_over(matched: nat, prompt: nat) -> nat {
    if prompt == 0 {
        0
    } else if matched < prompt {
        matched
    } else {
        (prompt - 1) as nat
    }
}

/// How many positions of an entry are taken over of which `matched` match. The state
/// of recurrent layers cannot be taken back to an earlier position: where there is
/// such a state, it is all positions that have been computed, or none.
pub open spec fn reused(entry: CachedPrefill, matched: nat, prompt: nat) -> nat {
    let n = taken_over(matched, prompt);
    if entry.cache.recurrent@.len() > 0 && n != entry.cached_len() {
        0
    } else {
        n
    }
}

/// How far a generation has come.
pub struct Progress {
    pub prompt_len: nat,
    pub max_tokens: nat,
    pub stops: Seq<u32>,
    pub capacity: nat,
    pub history: Seq<u32>,
}

impl Progress {
    /// The number of tokens that have been generated.
    pub open spec fn generated(self) -> int {
        self.history.len() - self.prompt_len
    }

    /// The most tokens that are generated. Even where the prompt takes up all the
    /// room, one token is.
    pub open spec fn limit(self) -> int {
        let left = if self.capacity > self.prompt_len {
            self.capacity - self.prompt_len
        } else {
            1
        };
        if self.max_tokens <= left {
            self.max_tokens as int
        } else {
            left
        }
    }

    /// No more tokens have been generated than may be.
    pub open spec fn sound(self) -> bool {
        0 <= self.generated() <= self.limit()
    }

    /// Whether a next token can be asked for: not after the room is used up.
    pub open spec fn open(self) -> bool {
        &&& self.sound()
        &&& self.generated() > 0 ==> self.history.len() < self.capacity
    }

    /// What becomes of a token: it ends the generation where enough have been sent
    /// or where it is a stop token, and is sent otherwise.
    pub open spec fn after_token(self, token: u32) -> (Progress, Option<FinishReason>) {
        if self.generated() >= self.max_tokens {
            (self, Some(FinishReason::Length))
        } else if self.stops.contains(token) {
            (self, Some(FinishReason::Stop))
        } else {
            (Progress { history: self.history.push(token), ..self }, None)
        }
    }

    /// Whether the generation ends after a token was sent: the room is used up.
    pub open spec fn after_sending(self) -> Option<FinishReason> {
        if self.history.len() >= self.capacity {
            Some(FinishReason::Length)
        } else {
            None
        }
    }

    /// Where a generation gets to whose model gives these tokens, and why it ended,
    /// if it did.
    pub open spec fn run(self, tokens: Seq<u32>) -> (Progress, Option<FinishReason>)
        decreases tokens.len(),
    {
        if tokens.len() == 0 {
            (self, None)
        } else {
            match self.after_token(tokens[0]) {
                (p, Some(reason)) => (p, Some(reason)),
                (p, None) => match p.after_sending() {
                    Some(reason) => (p, Some(reason)),
                    None => p.run(tokens.drop_first()),
                },
            }
        }
    }
}

/// What to do with a token that the model gave.
#[derive(Clone, Copy, Debug, PartialEq, Eq, Structural)]
pub enum TokenStep {
    /// Send its text to the reader.
    Send,
    /// End, without sending it.
    Finish(FinishReason),
}

/// What to do after a token was sent.
#[derive(Clone, Copy, Debug, PartialEq, Eq, Structural)]
pub enum SentStep {
    /// Nobody reads on: stop without a word.
    Stop,
    /// End; report first if `report` is set.
    Finish { report: bool, reason: FinishReason },
    /// Have the model compute the next step for `token` at `position`; report first
    /// if `report` is set. The tokens from `recent_from` on are the recent ones.
    Decode { report: bool, token: u32, position: usize, recent_from: usize },
}

/// A generation.
#[derive(Debug)]
pub struct Generation {
    prompt_len: usize,
    max_tokens: usize,
    stops: Vec<u32>,
    capacity: usize,
    history: Vec<u32>,
    reported: bool,
}

/// The number of positions that a request gets.
pub fn capacity_for(prompt: usize, max_tokens: usize, n_ctx_train: usize) -> (r: usize)
    requires
        prompt + max_tokens <= usize::MAX,
    ensures
        r == room(prompt as nat, max_tokens as nat, n_ctx_train as nat),
{
    let reach: usize = if n_ctx_train >= 1 {
        n_ctx_train
    } else {
        1
    };
    if prompt + max_tokens <= reach {
        prompt + max_tokens
    } else {
        reach
    }
}

/// How many positions of an entry are taken over of which `matched` match.
pub fn reused_len(prompt: usize, matched: usize, entry: &CachedPrefill) -> (n: usize)
    ensures
        n == reused(*entry, matched as nat, prompt as nat),
{
    let wanted: usize = if prompt == 0 {
        0
    } else if matched < prompt {
        matched
    } else {
        prompt - 1
    };
    if entry.cache.recurrent.len() > 0 && wanted != entry.positions() {
        0
    } else {
        wanted
    }
}

/// Takes over what an earlier request computed of the same tokens into a new
/// cache. Returns the number of positions.
pub fn take_over(prompt: usize, matched: usize, entry: &CachedPrefill, cache: &mut KvCache) -> (n:
    usize)
    requires
        old(cache).wf(),
        entry.cache.wf(),
        cache::can_take(*old(cache), entry.cache, reused(*entry, matched as nat, prompt as nat)),
    ensures
        n == reused(*entry, matched as nat, prompt as nat),
        final(cache).wf(),
        n == 0 ==> *final(cache) == *old(cache),
        n > 0 ==> cache::prefix_taken(*old(cache), entry.cache, n as nat, *final(cache)),
{
    let n: usize = reused_len(prompt, matched, entry);
    if n > 0 {
        cache.copy_prefix_from(&entry.cache, n);
    }
    n
}

impl Generation {
    /// How far the generation has come.
    pub closed spec fn view(&self) -> Progress {
        Progress {
            prompt_len: self.prompt_len as nat,
            max_tokens: self.max_tokens as nat,
            stops: self.stops@,
            capacity: self.capacity as nat,
            history: self.history@,
        }
    }

    /// Whether it has been reported.
    pub closed spec fn was_reported(&self) -> bool {
        self.reported
    }

    /// Begins a generation, or says that the prompt is too long for the model.
    pub fn begin(req: &GenerateRequest, n_ctx_train: usize) -> (r: Result<Generation, String>)
        requires
            req.prompt_tokens@.len() + req.max_tokens <= usize::MAX,
        ensures
            match r {
                Ok(g) => {
                    &&& req.prompt_tokens@.len() <= g@.capacity
                    &&& g@ == (Progress {
                        prompt_len: req.prompt_tokens@.len(),
                        max_tokens: req.max_tokens as nat,
                        stops: req.stop_token_ids@,
                        capacity: room(
                            req.prompt_tokens@.len(),
                            req.max_tokens as nat,
                            n_ctx_train as nat,
                        ),
                        history: req.prompt_tokens@,
                    })
                    &&& g@.open()
                    &&& !g.was_reported()
                },
                Err(message) => {
                    &&& req.prompt_tokens@.len() > room(
                        req.prompt_tokens@.len(),
                        req.max_tokens as nat,
                        n_ctx_train as nat,
                    )
                    &&& message@ == too_long_text(req.prompt_tokens@.len(), n_ctx_train as nat)
                },
            },
    {
        let prompt: usize = req.prompt_tokens.len();
        let capacity: usize = capacity_for(prompt, req.max_tokens, n_ctx_train);
        if prompt > capacity {
            let mut s = "prompt (".to_owned();
            push_decimal(&mut s, prompt as u64);
            s.append(" tokens) exceeds the model's context length (");
            push_decimal(&mut s, n_ctx_train as u64);
            s.append(")");
            return Err(s);
        }
        Ok(
            Generation {
                prompt_len: prompt,
                max_tokens: req.max_tokens,
                stops: req.stop_token_ids.clone(),
                capacity,
                history: req.prompt_tokens.clone(),
                reported: false,
            },
        )
    }

    /// The number of positions that the generation has.
    pub fn capacity(&self) -> (r: usize)
        ensures
            r == self@.capacity,
    {
        self.capacity
    }

    /// The tokens of the prompt and those that were sent.
    pub fn history(&self) -> (r: &Vec<u32>)
        ensures
            r@ == self@.history,
    {
        &self.history
    }

    /// The tokens of the prompt and those that were sent.
    pub fn into_history(self) -> (r: Vec<u32>)
        ensures
            r@ == self@.history,
    {
        self.history
    }

    /// The number of tokens that were sent.
    pub fn generated(&self) -> (r: usize)
        requires
            self@.sound(),
        ensures
            r == self@.generated(),
    {
        self.history.len() - self.prompt_len
    }

    /// Whether it has been reported.
    pub fn reported(&self) -> (r: bool)
        ensures
            r == self.was_reported(),
    {
        self.reported
    }

    /// Takes the next token that the model gave.
    pub fn on_token(&mut self, token: u32) -> (r: TokenStep)
        requires
            old(self)@.open(),
        ensures
            final(self).was_reported() == old(self).was_reported(),
            final(self)@ == old(self)@.after_token(token).0,
            final(self)@.sound(),
            r == (match old(self)@.after_token(token).1 {
                Some(reason) => TokenStep::Finish(reason),
                None => TokenStep::Send,
            }),
    {
        if self.history.len() - self.prompt_len >= self.max_tokens {
            return TokenStep::Finish(FinishReason::Length);
        }
        let mut i: usize = 0;
        while i < self.stops.len()
            invariant
                *self == *old(self),
                self@.open(),
                self@.generated() < self@.max_tokens,
                i <= self.stops@.len(),
                forall|j: int| 0 <= j < i ==> self.stops@[j] != token,
            decreases self.stops@.len() - i,
        {
            if self.stops[i] == token {
                assert(self.stops@[i as int] == token);
                return TokenStep::Finish(FinishReason::Stop);
            }
            i += 1;
        }
        self.history.push(token);
        TokenStep::Send
    }

    /// Goes on after a token was sent. `since_report` is the time since the last
    /// report, in nanoseconds, and `repeat_last_n` the number of tokens that count
    /// as recent.
    pub fn on_sent(&mut self, delivered: bool, since_report: u64, repeat_last_n: usize) -> (r:
        SentStep)
        requires
            old(self)@.sound(),
            old(self)@.generated() > 0,
        ensures
            final(self)@ == old(self)@,
            final(self).was_reported() == (old(self).was_reported() || (delivered && since_report
                >= REPORT_INTERVAL_NANOS)),
            delivered && since_report >= 1_000_000_000 ==> final(self).was_reported(),
            since_report < 1_000_000_000 ==> final(self).was_reported() == old(
                self,
            ).was_reported(),
            r == (if !delivered {
                SentStep::Stop
            } else {
                match old(self)@.after_sending() {
                    Some(reason) => SentStep::Finish {
                        report: since_report >= REPORT_INTERVAL_NANOS,
                        reason,
                    },
                    None => SentStep::Decode {
                        report: since_report >= REPORT_INTERVAL_NANOS,
                        token: old(self)@.history.last(),
                        position: (old(self)@.history.len() - 1) as usize,
                        recent_from: sampling::recent_from(
                            old(self)@.history.len(),
                            repeat_last_n as nat,
                        ) as usize,
                    },
                }
            }),
            r is Decode ==> final(self)@.open(),
    {
        if !delivered {
            return SentStep::Stop;
        }
        let report: bool = since_report >= REPORT_INTERVAL_NANOS;
        if report {
            self.reported = true;
        }
        let n: usize = self.history.len();
        if n >= self.capacity {
            return SentStep::Finish { report, reason: FinishReason::Length };
        }
        SentStep::Decode {
            report,
            token: self.history[n - 1],
            position: n - 1,
            recent_from: if n <= repeat_last_n {
                0
            } else {
                n - repeat_last_n
            },
        }
    }

    /// The counts of the generation, with the times that it took.
    pub fn stats(&self, prompt_time: Duration, generate_time: Duration) -> (r: GenerateStats)
        requires
            self@.sound(),
        ensures
            r == (GenerateStats {
                prompt_tokens: self@.prompt_len as usize,
                prompt_time,
                generated_tokens: self@.generated() as usize,
                generate_time,
            }),
    {
        GenerateStats {
            prompt_tokens: self.prompt_len,
            prompt_time,
            generated_tokens: self.history.len() - self.prompt_len,
            generate_time,
        }
    }
}

/// A generation sends the tokens that the model gives, up to the first stop token
/// or to the most that may be: it ends by `Stop` at the one and by `Length` at the
/// other, and goes on for no longer. The prompt's length, the most tokens, the stop
/// tokens and the room stay as they are.
pub proof fn run_sends_up_to_the_first_stop(p: Progress, tokens: Seq<u32>)
    requires
        p.open(),
    ensures
        ({
            let (q, end) = p.run(tokens);
            let n = q.history.len() - p.history.len();
            &&& 0 <= n <= tokens.len()
            &&& q.history == p.history + tokens.take(n)
            &&& q.sound()
            &&& q.limit() == p.limit()
            &&& q.prompt_len == p.prompt_len
            &&& q.max_tokens == p.max_tokens
            &&& q.stops == p.stops
            &&& q.capacity == p.capacity
            &&& forall|i: int| 0 <= i < n ==> !p.stops.contains(#[trigger] tokens[i])
            &&& end == Some(FinishReason::Stop) ==> n < tokens.len() && p.stops.contains(tokens[n])
                && q.generated() < p.limit()
            &&& end == Some(FinishReason::Length) ==> q.generated() == p.limit()
            &&& end is None ==> n == tokens.len()
            &&& tokens.len() > p.limit() - p.generated() ==> end is Some
        }),
    decreases tokens.len(),
{
    let (q, end) = p.run(tokens);
    if tokens.len() == 0 {
        assert(p.history + tokens.take(0) =~= p.history);
    } else {
        let (next, stop) = p.after_token(tokens[0]);
        if stop is Some {
            assert(p.history + tokens.take(0) =~= p.history);
        } else if next.after_sending() is Some {
            assert(p.history + tokens.take(1) =~= next.history);
        } else {
            let rest = tokens.drop_first();
            run_sends_up_to_the_first_stop(next, rest);
            let n = q.history.len() - p.history.len();
            assert(next.history + rest.take(n - 1) =~= p.history + tokens.take(n));
            assert forall|i: int| 0 <= i < n implies !p.stops.contains(#[trigger] tokens[i]) by {
                if i > 0 {
                    assert(tokens[i] == rest[i - 1]);
                }
            }
        }
    }
}

/// Whether the committed positions of a layer hold what `f` computes for them from
/// the tokens up to each.
pub open spec fn computed(
    l: LayerCache,
    tokens: Seq<u32>,
    f: spec_fn(Seq<u32>) -> (Seq<u32>, Seq<u32>),
) -> bool {
    forall|pos: int|
        0 <= pos < l.len ==> {
            &&& l.keys().subrange(pos * l.kv_dim, pos * l.kv_dim + l.kv_dim) == f(
                #[trigger] tokens.take(pos + 1),
            ).0
            &&& l.values().subrange(pos * l.kv_dim, pos * l.kv_dim + l.kv_dim) == f(
                tokens.take(pos + 1),
            ).1
        }
}

/// Taking positions over is as good as computing them: where they hold what a
/// model computes from the earlier request's tokens, they hold what it computes
/// from the new request's.
pub proof fn reuse_matches_recomputing(
    before: LayerCache,
    src: LayerCache,
    after: LayerCache,
    earlier: Seq<u32>,
    prompt: Seq<u32>,
    n: nat,
    f: spec_fn(Seq<u32>) -> (Seq<u32>, Seq<u32>),
)
    requires
        src.wf(),
        0 < n <= src.len,
        n <= earlier.len(),
        n <= prompt.len(),
        layer::prefix_copied(before, src, n, after),
        before.kv_dim == src.kv_dim,
        computed(src, earlier, f),
        earlier.take(n as int) == prompt.take(n as int),
    ensures
        after.len == n,
        computed(after, prompt, f),
{
    let d = src.kv_dim as int;
    assert forall|pos: int| 0 <= pos < after.len implies {
        &&& after.keys().subrange(pos * d, pos * d + d) == f(#[trigger] prompt.take(pos + 1)).0
        &&& after.values().subrange(pos * d, pos * d + d) == f(prompt.take(pos + 1)).1
    } by {
        assert(earlier.take(pos + 1) =~= earlier.take(n as int).take(pos + 1));
        assert(prompt.take(pos + 1) =~= prompt.take(n as int).take(pos + 1));
        assert(0 <= pos * d && pos * d + d <= n * d && n * d <= src.len * d && src.len * d
            <= src.capacity * d) by (nonlinear_arith)
            requires
                0 <= pos < n <= src.len <= src.capacity,
                d >= 0,
        ;
        assert(after.keys().subrange(pos * d, pos * d + d) =~= src.keys().subrange(
            pos * d,
            pos * d + d,
        ));
        assert(after.values().subrange(pos * d, pos * d + d) =~= src.values().subrange(
            pos * d,
            pos * d + d,
        ));
    }
}

/// A prompt is never taken over as a whole: there is a token left to compute. No more
/// than what matches is taken over, and with a recurrent state all that has been
/// computed or nothing.
pub proof fn a_token_is_left(entry: CachedPrefill, matched: nat, prompt: nat)
    requires
        prompt > 0,
    ensures
        reused(entry, matched, prompt) < prompt,
        reused(entry, matched, prompt) <= matched,
        entry.cache.recurrent@.len() == 0 && matched < prompt ==> reused(entry, matched, prompt)
            == matched,
        entry.cache.recurrent@.len() > 0 && reused(entry, matched, prompt) > 0 ==> reused(
            entry,
            matched,
            prompt,
        ) == entry.cached_len(),
{
}

/// A request gets what it asks for as far as the model reaches, and that much where it
/// asks for more; a model that reaches nowhere is taken to reach one position.
pub proof fn room_is_what_is_asked_for_within_reach(prompt: nat, max_tokens: nat, n_ctx_train: nat)
    ensures
        prompt + max_tokens <= n_ctx_train ==> room(prompt, max_tokens, n_ctx_train) == prompt
            + max_tokens,
        0 < n_ctx_train < prompt + max_tokens ==> room(prompt, max_tokens, n_ctx_train)
            == n_ctx_train,
        n_ctx_train == 0 && prompt + max_tokens > 0 ==> room(prompt, max_tokens, n_ctx_train) == 1,
        prompt > room(prompt, max_tokens, n_ctx_train) <==> prompt > n_ctx_train && prompt > 1,
{
}

/// As much of a prompt is taken over as matches, but for its last token. Where there is a
/// recurrent state that is so only if it is all that has been computed; otherwise, and for
/// an empty prompt, nothing is.
pub proof fn what_matches_is_taken_over(entry: CachedPrefill, matched: nat, prompt: nat, n: nat)
    requires
        n <= matched,
        n < prompt,
        n == matched || n + 1 == prompt,
    ensures
        entry.cache.recurrent@.len() == 0 ==> reused(entry, matched, prompt) == n,
        entry.cached_len() == n ==> reused(entry, matched, prompt) == n,
        entry.cache.recurrent@.len() > 0 && entry.cached_len() != n ==> reused(
            entry,
            matched,
            prompt,
        ) == 0,
        reused(entry, matched, 0) == 0,
{
}

/// Of the tokens that a model gives, as many are sent as come before the first stop token,
/// and no more than were asked for or there is room for; where the prompt leaves no room,
/// there is for one. It is a stop token that ends a generation where it comes before that
/// many were sent, and their number otherwise.
pub proof fn as_many_are_sent_as_may_be(p: Progress, tokens: Seq<u32>, most: int)
    requires
        p.open(),
        p.history.len() == p.prompt_len,
        most <= p.max_tokens,
        most <= p.capacity - p.prompt_len || most <= 1,
        most == p.max_tokens || 1 <= most == p.capacity - p.prompt_len || (most == 1 && p.capacity
            <= p.prompt_len),
    ensures
        ({
            let (q, end) = p.run(tokens);
            let n = q.history.len() - p.prompt_len;
            &&& 0 <= n <= tokens.len()
            &&& n <= most
            &&& q.history == p.history + tokens.take(n)
            &&& forall|i: int| 0 <= i < n ==> !p.stops.contains(#[trigger] tokens[i])
            &&& end == Some(FinishReason::Stop) <==> n < most && n < tokens.len()
                && p.stops.contains(tokens[n])
            &&& end == Some(FinishReason::Length) ==> n == most
            &&& end is None ==> n == tokens.len()
            &&& tokens.len() > most ==> end is Some
        }),
{
    run_sends_up_to_the_first_stop(p, tokens);
    let (q, end) = p.run(tokens);
    let n = q.history.len() - p.prompt_len;
    assert(p.limit() == most);
    assert(n <= most);
    assert(q.history == p.history + tokens.take(n));
    assert(end is Some ==> end == Some(FinishReason::Stop) || end == Some(FinishReason::Length)) by {
        if end is Some {
            match end->0 {
                FinishReason::Stop => {},
                FinishReason::Length => {},
            }
        }
    }
}

} // verus!
