//! A turn of a chat: whether a message is taken, what the model is asked, and what
//! the answer becomes.

use vstd::prelude::*;

use crate::generate::{FinishReason, GenerateRequest, GenerateStats, StreamEvent};
use crate::native::ChatMessage;
use crate::role::Role;
use crate::sampling;
use crate::sampling::SamplingParams;
use crate::text;
use crate::text::{char_count, trim};
use crate::tokenizer;
use crate::tokenizer::{Tokenizer, VocabKind};
use crate::web::sessions;
use crate::web::sessions::{append_turn, Attachment, Session};

verus! {

/// The most tokens of an answer.
pub const MAX_TOKENS: usize = 8192;

/// Why a message is not taken.
#[derive(Debug)]
pub enum Refusal {
    /// The model says nothing on how messages become a prompt.
    NoTemplate,
    /// A file that came with it cannot be read, and why.
    BadFile(String),
    /// Nothing was written and no file came with it.
    Empty,
}

impl Refusal {
    /// The status of the answer.
    pub open spec fn code(self) -> u16 {
        match self {
            Refusal::NoTemplate => 501,
            Refusal::BadFile(_) => 400,
            Refusal::Empty => 400,
        }
    }

    /// The text of the answer.
    pub open spec fn words(self) -> Seq<char> {
        match self {
            Refusal::NoTemplate => "model has no tokenizer.chat_template; the web UI needs one"@,
            Refusal::BadFile(why) => why@,
            Refusal::Empty => "message is empty"@,
        }
    }

    /// The status of the answer.
    pub fn status(&self) -> (r: u16)
        ensures
            r == self.code(),
            self is NoTemplate ==> r == 501,
            !(self is NoTemplate) ==> r == 400,
    {
        match self {
            Refusal::NoTemplate => 501,
            Refusal::BadFile(_) => 400,
            Refusal::Empty => 400,
        }
    }

    /// The text of the answer.
    pub fn message(&self) -> (r: String)
        ensures
            r@ == self.words(),
    {
        match self {
            Refusal::NoTemplate => {
                "model has no tokenizer.chat_template; the web UI needs one".to_owned()
            },
            Refusal::BadFile(why) => why.clone(),
            Refusal::Empty => "message is empty".to_owned(),
        }
    }
}

/// Takes a message with the files that were read, or says why not: first that the
/// model has no template, then what is wrong with a file, then that there is nothing
/// in it but white space.
pub fn take_message(
    template: &Option<String>,
    files: Result<Vec<Attachment>, String>,
    content: &str,
) -> (r: Result<Vec<Attachment>, Refusal>)
    ensures
        match r {
            Ok(taken) => {
                &&& template is Some
                &&& files == Ok::<Vec<Attachment>, String>(taken)
                &&& text::trimmed(content@).len() > 0 || taken@.len() > 0
            },
            Err(Refusal::NoTemplate) => template is None,
            Err(Refusal::BadFile(why)) => template is Some && files == Err::<
                Vec<Attachment>,
                String,
            >(why),
            Err(Refusal::Empty) => {
                &&& template is Some
                &&& files is Ok
                &&& files->Ok_0@.len() == 0
                &&& text::trimmed(content@).len() == 0
            },
        },
{
    if template.is_none() {
        return Err(Refusal::NoTemplate);
    }
    match files {
        Err(why) => Err(Refusal::BadFile(why)),
        Ok(taken) => {
            let written = trim(content);
            if char_count(written.as_str()) == 0 && taken.len() == 0 {
                Err(Refusal::Empty)
            } else {
                Ok(taken)
            }
        },
    }
}

/// The messages that the template is given: those of the session in their order,
/// then the new one of the user. Each stands there with its files folded in:
/// `composed` holds the contents of the session's messages in that form, and
/// `new_content` that of the new one.
pub fn prompt_messages(session: &Session, composed: &Vec<String>, new_content: &str) -> (r: Vec<
    ChatMessage,
>)
    requires
        composed@.len() == session.messages@.len(),
    ensures
        r@.len() == session.messages@.len() + 1,
        forall|i: int|
            0 <= i < session.messages@.len() ==> (#[trigger] r@[i]).role@
                == session.messages@[i].role@ && r@[i].content@ == composed@[i]@,
        r@.last().role@ == "user"@,
        r@.last().content@ == new_content@,
{
    let mut out: Vec<ChatMessage> = Vec::new();
    let mut i: usize = 0;
    while i < session.messages.len()
        invariant
            i <= session.messages@.len(),
            composed@.len() == session.messages@.len(),
            out@.len() == i,
            forall|j: int|
                0 <= j < i ==> (#[trigger] out@[j]).role@ == session.messages@[j].role@
                    && out@[j].content@ == composed@[j]@,
        decreases session.messages.len() - i,
    {
        out.push(
            ChatMessage { role: session.messages[i].role.clone(), content: composed[i].clone() },
        );
        i += 1;
    }
    out.push(ChatMessage { role: "user".to_owned(), content: new_content.to_owned() });
    out
}

/// The text of a special token; nothing where there is none.
pub open spec fn special_text(v: tokenizer::Vocab, id: Option<u32>) -> Seq<char> {
    match id {
        Some(i) => if i < v.tokens.len() {
            v.tokens[i as int]
        } else {
            Seq::empty()
        },
        None => Seq::empty(),
    }
}

/// The text of a special token; nothing where there is none.
fn spelled(tokenizer: &Tokenizer, id: Option<u32>) -> (r: String)
    ensures
        r@ == special_text(tokenizer@, id),
        id is Some && id->0 < tokenizer@.tokens.len() ==> r@ == tokenizer@.tokens[id->0 as int],
        id is None || id->0 >= tokenizer@.tokens.len() ==> r@.len() == 0,
{
    match id {
        Some(i) => match tokenizer.token_text(i) {
            Some(t) => t.to_owned(),
            None => String::new(),
        },
        None => String::new(),
    }
}

/// The texts of the tokens that a sequence begins and ends with, for the template.
pub fn template_tokens(tokenizer: &Tokenizer) -> (r: (String, String))
    ensures
        r.0@ == special_text(tokenizer@, tokenizer@.bos),
        r.1@ == special_text(tokenizer@, tokenizer@.eos),
        ({
            let (v, bos) = (tokenizer@, tokenizer@.bos);
            &&& bos is Some && bos->0 < v.tokens.len() ==> r.0@ == v.tokens[bos->0 as int]
            &&& bos is None || bos->0 >= v.tokens.len() ==> r.0@.len() == 0
        }),
        ({
            let (v, eos) = (tokenizer@, tokenizer@.eos);
            &&& eos is Some && eos->0 < v.tokens.len() ==> r.1@ == v.tokens[eos->0 as int]
            &&& eos is None || eos->0 >= v.tokens.len() ==> r.1@.len() == 0
        }),
{
    (spelled(tokenizer, tokenizer.bos_token()), spelled(tokenizer, tokenizer.eos_token()))
}

/// A prompt as it goes to the model: as it was rendered, and for a role without
/// reasoning with a block of thoughts behind it that is closed already.
pub open spec fn final_prompt(rendered: Seq<char>, role: Role, no_thoughts: Seq<char>) -> Seq<
    char,
> {
    if role.without_reasoning() {
        rendered + no_thoughts
    } else {
        rendered
    }
}

/// A prompt as it goes to the model.
pub fn finish_prompt(rendered: String, role: Role, no_thoughts: &str) -> (r: String)
    ensures
        r@ == final_prompt(rendered@, role, no_thoughts@),
        role == Role::Review ==> r@ == rendered@ + no_thoughts@,
        role != Role::Review ==> r@ == rendered@,
{
    let mut prompt = rendered;
    if role.suppresses_reasoning() {
        prompt.append(no_thoughts);
    }
    prompt
}

/// What the model is asked for a turn: to go on with the prompt, which holds the tokens
/// that a sequence begins with already, up to one of the stop tokens.
pub fn turn_request(tokenizer: &Tokenizer, prompt: &str, stop_token_ids: Vec<u32>) -> (r:
    GenerateRequest)
    requires
        tokenizer@.specials_are_spelled(),
    ensures
        r.prompt_tokens@ == tokenizer@.encoded(prompt@, false),
        r.sampling == sampling::usual_params(),
        r.max_tokens == MAX_TOKENS,
        r.max_tokens == 8192,
        r.stop_token_ids == stop_token_ids,
{
    GenerateRequest {
        prompt_tokens: tokenizer.encode(prompt, false),
        sampling: SamplingParams::default(),
        max_tokens: MAX_TOKENS,
        stop_token_ids,
    }
}

/// The answer as far as it has come.
#[derive(Debug)]
pub struct ChatTurn {
    full: String,
}

/// What a finished turn is told to the reader as.
#[derive(Debug)]
pub struct TurnDone {
    pub content: String,
    pub truncated: bool,
    pub generation_ms: u64,
}

/// What an event means for a turn.
#[derive(Debug)]
pub enum TurnStep {
    /// There is more text to show.
    Show,
    /// The answer is complete.
    Finish { reason: FinishReason, stats: GenerateStats },
    /// It failed.
    Fail(String),
}

/// A complete answer: with its spacing tidied where the vocabulary needs it.
pub open spec fn tidy_answer(v: tokenizer::Vocab, t: Seq<char>) -> Seq<char> {
    if v.kind == VocabKind::Gemma4Raw {
        tokenizer::pieces::tidied(t)
    } else {
        t
    }
}

impl ChatTurn {
    /// The text so far.
    pub closed spec fn view(&self) -> Seq<char> {
        self.full@
    }

    /// No text yet.
    pub fn new() -> (r: Self)
        ensures
            r@ == Seq::<char>::empty(),
    {
        ChatTurn { full: String::new() }
    }

    /// Takes an event: the text of a token is added to the answer, and nothing else
    /// changes it.
    pub fn on_event(&mut self, event: StreamEvent) -> (r: TurnStep)
        ensures
            match event {
                StreamEvent::Token(t) => r == TurnStep::Show && final(self)@ == old(self)@ + t@,
                StreamEvent::Done { stats, finish_reason } => r == (TurnStep::Finish {
                    reason: finish_reason,
                    stats,
                }) && final(self)@ == old(self)@,
                StreamEvent::Error(e) => r == TurnStep::Fail(e) && final(self)@ == old(self)@,
            },
    {
        match event {
            StreamEvent::Token(t) => {
                self.full.append(t.as_str());
                TurnStep::Show
            },
            StreamEvent::Done { stats, finish_reason } => TurnStep::Finish {
                reason: finish_reason,
                stats,
            },
            StreamEvent::Error(e) => TurnStep::Fail(e),
        }
    }

    /// The text so far.
    pub fn text(&self) -> (r: &str)
        ensures
            r@ == self@,
    {
        self.full.as_str()
    }

    /// Ends the turn: the answer is added to the session. It is told to have been
    /// cut off where the generation ended by its length.
    pub fn on_done(
        self,
        tokenizer: &Tokenizer,
        reason: FinishReason,
        generation_ms: u64,
        session: &mut Session,
        user_message: &str,
        user_attachments: Vec<Attachment>,
        now: u64,
    ) -> (r: TurnDone)
        ensures
            r.content@ == tidy_answer(tokenizer@, self@),
            tokenizer@.kind != VocabKind::Gemma4Raw ==> r.content@ == self@,
            tokenizer@.kind == VocabKind::Gemma4Raw ==> r.content@ == tokenizer::pieces::tidied(
                self@,
            ),
            r.truncated == (reason == FinishReason::Length),
            r.generation_ms == generation_ms,
            final(session).id == old(session).id,
            final(session).created_at == old(session).created_at,
            final(session).updated_at == now,
            final(session).title@ == (if old(session).title@.len() == 0 {
                sessions::title_of(sessions::title_seed(user_message@, user_attachments@))
            } else {
                old(session).title@
            }),
            final(session).messages@.len() == old(session).messages@.len() + 2,
            final(session).messages@.take(old(session).messages@.len() as int) == old(
                session,
            ).messages@,
            ({
                let user = final(session).messages@[old(session).messages@.len() as int];
                &&& user.role@ == "user"@
                &&& user.content@ == user_message@
                &&& user.generation_ms is None
                &&& user.attachments == user_attachments
            }),
            ({
                let answer = final(session).messages@[old(session).messages@.len() as int + 1];
                &&& answer.role@ == "assistant"@
                &&& answer.content@ == tidy_answer(tokenizer@, self@)
                &&& answer.generation_ms == Some(generation_ms)
                &&& answer.attachments@ == Seq::<Attachment>::empty()
            }),
    {
        let content = tokenizer.clean_up_tokenization_spaces(self.full.as_str());
        append_turn(
            session,
            user_message,
            user_attachments,
            content.as_str(),
            Some(generation_ms),
            now,
        );
        TurnDone { content, truncated: reason == FinishReason::Length, generation_ms }
    }
}

} // verus!
