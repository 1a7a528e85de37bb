//! The endpoints of the server's own protocol: what they read out of a request,
//! what they ask the model for, and what they answer.

use vstd::prelude::*;

use crate::generate::{FinishReason, GenerateRequest, StreamEvent};
use crate::role::Role;
use crate::sampling::SamplingParams;
use crate::scheduler;
use crate::scheduler::SlotPool;
use crate::text;
use crate::text::push_decimal;
use crate::tokenizer;
use crate::tokenizer::{Tokenizer, VocabKind};
use crate::web::chat;
use crate::web::chat::finish_prompt;

verus! {

/// The status of an answer that what was asked for is not there.
pub const NOT_IMPLEMENTED: u16 = 501;

/// The status of an answer that something went wrong.
pub const INTERNAL_SERVER_ERROR: u16 = 500;

/// A text to be cut into tokens.
#[derive(Debug)]
pub struct TokenizeRequest {
    pub content: String,
    pub add_special: bool,
}

/// The tokens of a text.
#[derive(Debug)]
pub struct TokenizeResponse {
    pub tokens: Vec<u32>,
}

/// Tokens to be put together.
#[derive(Debug)]
pub struct DetokenizeRequest {
    pub tokens: Vec<u32>,
}

/// The text of tokens.
#[derive(Debug)]
pub struct DetokenizeResponse {
    pub content: String,
}

/// A prompt to be continued. Floats are held as the bits of their single precision
/// encoding.
#[derive(Debug)]
pub struct CompletionRequest {
    pub prompt: String,
    pub n_predict: usize,
    pub temperature: Option<u32>,
    pub top_p: Option<u32>,
    pub top_k: Option<usize>,
    pub min_p: Option<u32>,
    pub repeat_penalty: Option<u32>,
    pub seed: Option<u64>,
    pub stream: bool,
}

/// A text to be embedded.
#[derive(Debug)]
pub struct EmbeddingRequest {
    pub content: String,
}

/// The embedding of a text, as the bits of single-precision values.
#[derive(Debug)]
pub struct EmbeddingResponse {
    pub embedding: Vec<u32>,
}

/// A message of a conversation.
#[derive(Debug)]
pub struct ChatMessage {
    pub role: String,
    pub content: String,
}

/// Messages to be made into a prompt.
#[derive(Debug)]
pub struct ApplyTemplateRequest {
    pub messages: Vec<ChatMessage>,
}

/// The prompt that messages make.
#[derive(Debug)]
pub struct ApplyTemplateResponse {
    pub prompt: String,
}

/// An answer that refuses a request: its status and its text.
#[derive(Debug)]
pub struct Problem {
    pub status: u16,
    pub body: String,
}

/// The number of tokens that a prompt is continued by where the request does not
/// say.
pub fn default_n_predict() -> (n: usize)
    ensures
        n == 256,
{
    256
}

/// The slots of the server as a page of measurements.
pub open spec fn metrics_text(total: nat, busy: nat) -> Seq<char> {
    "# HELP orangu_server_slots_total Configured concurrent request slots.\n# TYPE orangu_server_slots_total gauge\norangu_server_slots_total "@
        + text::decimal_text(total)
        + "\n# HELP orangu_server_slots_busy Slots currently generating.\n# TYPE orangu_server_slots_busy gauge\norangu_server_slots_busy "@
        + text::decimal_text(busy) + "\n"@
}

/// The slots of the server as a page of measurements.
pub fn metrics(slots: &SlotPool) -> (r: String)
    ensures
        r@ == metrics_text(slots@.len(), scheduler::busy_slots(slots@)),
{
    let mut s =
        "# HELP orangu_server_slots_total Configured concurrent request slots.\n# TYPE orangu_server_slots_total gauge\norangu_server_slots_total ".to_owned();
    push_decimal(&mut s, slots.total() as u64);
    s.append(
        "\n# HELP orangu_server_slots_busy Slots currently generating.\n# TYPE orangu_server_slots_busy gauge\norangu_server_slots_busy ",
    );
    push_decimal(&mut s, slots.busy_count() as u64);
    s.append("\n");
    s
}

/// The tokens of a text.
pub fn tokenize(tokenizer: &Tokenizer, req: &TokenizeRequest) -> (r: TokenizeResponse)
    requires
        tokenizer@.specials_are_spelled(),
    ensures
        r.tokens@ == tokenizer@.encoded(req.content@, req.add_special),
{
    TokenizeResponse { tokens: tokenizer.encode(req.content.as_str(), req.add_special) }
}

/// The text of tokens.
pub fn detokenize(tokenizer: &Tokenizer, req: &DetokenizeRequest) -> (r: DetokenizeResponse)
    ensures
        r.content@ == chat::tidy_answer(tokenizer@, tokenizer@.decoded(req.tokens@)),
        tokenizer@.kind != VocabKind::Gemma4Raw ==> r.content@ == tokenizer@.decoded(req.tokens@),
        tokenizer@.kind == VocabKind::Gemma4Raw ==> r.content@ == tokenizer::pieces::tidied(
            tokenizer@.decoded(req.tokens@),
        ),
{
    let decoded = tokenizer.decode(req.tokens.as_slice());
    DetokenizeResponse { content: tokenizer.clean_up_tokenization_spaces(decoded.as_str()) }
}

/// What a server says whose role has no texts to give.
pub open spec fn disabled_text(role: Role) -> Seq<char> {
    "this server is running in --"@ + role.name()
        + " mode; generation endpoints are disabled"@
}

/// Whether a server of that role gives texts.
pub fn check_generation(role: Role) -> (r: Result<(), Problem>)
    ensures
        match r {
            Ok(()) => role != Role::Embedding,
            Err(p) => role == Role::Embedding && p.status == NOT_IMPLEMENTED && p.body@
                == disabled_text(role),
        },
        r is Err ==> r->Err_0.status == 501,
{
    if role.allows_generation() {
        return Ok(());
    }
    let mut body = "this server is running in --".to_owned();
    body.append(role.label());
    body.append(" mode; generation endpoints are disabled");
    Err(Problem { status: NOT_IMPLEMENTED, body })
}

/// A value of a request, or the usual one.
pub open spec fn or_usual<T>(given: Option<T>, usual: T) -> T {
    match given {
        Some(v) => v,
        None => usual,
    }
}

/// The parameters of a request: those of the role, but for what the request sets.
pub open spec fn request_params(req: CompletionRequest, role: Role) -> SamplingParams {
    let usual = SamplingParams::for_role(role);
    SamplingParams {
        temperature: or_usual(req.temperature, usual.temperature),
        top_k: or_usual(req.top_k, usual.top_k),
        top_p: or_usual(req.top_p, usual.top_p),
        min_p: or_usual(req.min_p, usual.min_p),
        repeat_penalty: or_usual(req.repeat_penalty, usual.repeat_penalty),
        repeat_last_n: usual.repeat_last_n,
        seed: or_usual(req.seed, usual.seed),
    }
}

/// The parameters of a request.
pub fn sampling_from(req: &CompletionRequest, role: Role) -> (r: SamplingParams)
    ensures
        r == request_params(*req, role),
        r.temperature == (match req.temperature {
            Some(v) => v,
            None => SamplingParams::for_role(role).temperature,
        }),
        r.top_k == (match req.top_k {
            Some(v) => v,
            None => SamplingParams::for_role(role).top_k,
        }),
        r.top_p == (match req.top_p {
            Some(v) => v,
            None => SamplingParams::for_role(role).top_p,
        }),
        r.min_p == (match req.min_p {
            Some(v) => v,
            None => SamplingParams::for_role(role).min_p,
        }),
        r.repeat_penalty == (match req.repeat_penalty {
            Some(v) => v,
            None => SamplingParams::for_role(role).repeat_penalty,
        }),
        r.repeat_last_n == SamplingParams::for_role(role).repeat_last_n,
        r.seed == (match req.seed {
            Some(v) => v,
            None => SamplingParams::for_role(role).seed,
        }),
{
    let mut sampling = SamplingParams::default_for_role(role);
    if let Some(v) = req.temperature {
        sampling.temperature = v;
    }
    if let Some(v) = req.top_p {
        sampling.top_p = v;
    }
    if let Some(v) = req.top_k {
        sampling.top_k = v;
    }
    if let Some(v) = req.min_p {
        sampling.min_p = v;
    }
    if let Some(v) = req.repeat_penalty {
        sampling.repeat_penalty = v;
    }
    if let Some(v) = req.seed {
        sampling.seed = v;
    }
    sampling
}

/// What the model is asked for a prompt that is to be continued, or why it is not
/// asked.
pub fn completion(tokenizer: &Tokenizer, req: &CompletionRequest, role: Role) -> (r: Result<
    GenerateRequest,
    Problem,
>)
    requires
        tokenizer@.specials_are_spelled(),
    ensures
        match r {
            Ok(g) => {
                &&& role != Role::Embedding
                &&& g.prompt_tokens@ == tokenizer@.encoded(req.prompt@, true)
                &&& g.sampling == request_params(*req, role)
                &&& g.max_tokens == req.n_predict
                &&& g.stop_token_ids@ == (match tokenizer@.eos {
                    Some(id) => seq![id],
                    None => Seq::<u32>::empty(),
                })
            },
            Err(p) => role == Role::Embedding && p.status == NOT_IMPLEMENTED && p.body@
                == disabled_text(role),
        },
{
    match check_generation(role) {
        Ok(()) => {},
        Err(p) => return Err(p),
    }
    let prompt_tokens = tokenizer.encode(req.prompt.as_str(), true);
    let mut stop_token_ids: Vec<u32> = Vec::new();
    if let Some(id) = tokenizer.eos_token() {
        stop_token_ids.push(id);
    }
    assert(stop_token_ids@ =~= (match tokenizer@.eos {
        Some(id) => seq![id],
        None => Seq::<u32>::empty(),
    }));
    Ok(
        GenerateRequest {
            prompt_tokens,
            sampling: sampling_from(req, role),
            max_tokens: req.n_predict,
            stop_token_ids,
        },
    )
}

/// How a generation ends as the protocol names it.
pub open spec fn reason_name(reason: FinishReason) -> Seq<char> {
    match reason {
        FinishReason::Stop => "stop"@,
        FinishReason::Length => "length"@,
    }
}

/// How a generation ends as the protocol names it.
pub fn finish_reason_str(reason: FinishReason) -> (r: &'static str)
    ensures
        r@ == reason_name(reason),
        reason == FinishReason::Stop ==> r@ == "stop"@,
        reason == FinishReason::Length ==> r@ == "length"@,
{
    match reason {
        FinishReason::Stop => "stop",
        FinishReason::Length => "length",
    }
}

/// A continuation that is answered as a whole.
#[derive(Debug)]
pub struct Completion {
    content: String,
}

/// What an event means for a continuation that is answered as a whole.
#[derive(Debug)]
pub enum CompletionStep {
    /// More is to come.
    More,
    /// It is complete.
    Complete,
    /// It failed.
    Failed(Problem),
}

impl Completion {
    /// The text so far.
    pub closed spec fn view(&self) -> Seq<char> {
        self.content@
    }

    /// No text yet.
    pub fn new() -> (r: Self)
        ensures
            r@ == Seq::<char>::empty(),
    {
        Completion { content: String::new() }
    }

    /// Takes an event of the generation.
    pub fn on_event(&mut self, event: StreamEvent) -> (r: CompletionStep)
        ensures
            match event {
                StreamEvent::Token(t) => r is More && final(self)@ == old(self)@ + t@,
                StreamEvent::Done { .. } => r is Complete && final(self)@ == old(self)@,
                StreamEvent::Error(e) => {
                    &&& r is Failed
                    &&& r->Failed_0.status == INTERNAL_SERVER_ERROR
                    &&& r->Failed_0.status == 500
                    &&& r->Failed_0.body@ == e@
                    &&& final(self)@ == old(self)@
                },
            },
    {
        match event {
            StreamEvent::Token(t) => {
                self.content.append(t.as_str());
                CompletionStep::More
            },
            StreamEvent::Done { .. } => CompletionStep::Complete,
            StreamEvent::Error(e) => CompletionStep::Failed(
                Problem { status: INTERNAL_SERVER_ERROR, body: e },
            ),
        }
    }

    /// The complete text.
    pub fn finish(self, tokenizer: &Tokenizer) -> (r: String)
        ensures
            r@ == chat::tidy_answer(tokenizer@, self@),
    {
        tokenizer.clean_up_tokenization_spaces(self.content.as_str())
    }
}

/// Whether messages can be made into a prompt: the model has a template.
pub fn check_apply_template(template: &Option<String>) -> (r: Result<(), Problem>)
    ensures
        match r {
            Ok(()) => template is Some,
            Err(p) => template is None && p.status == NOT_IMPLEMENTED && p.body@
                == "model has no tokenizer.chat_template"@,
        },
{
    match template {
        Some(_) => Ok(()),
        None => Err(
            Problem {
                status: NOT_IMPLEMENTED,
                body: "model has no tokenizer.chat_template".to_owned(),
            },
        ),
    }
}

/// The answer to messages that were rendered, or could not be.
pub fn apply_template(rendered: Result<String, String>, role: Role, no_thoughts: &str) -> (r:
    Result<ApplyTemplateResponse, Problem>)
    ensures
        match rendered {
            Ok(t) => r is Ok && r->Ok_0.prompt@ == chat::final_prompt(t@, role, no_thoughts@),
            Err(e) => r is Err && r->Err_0.status == INTERNAL_SERVER_ERROR && r->Err_0.body@ == e@,
        },
        r is Err ==> r->Err_0.status == 500,
        rendered is Ok && role != Role::Review ==> r->Ok_0.prompt@ == rendered->Ok_0@,
        rendered is Ok && role == Role::Review ==> r->Ok_0.prompt@ == rendered->Ok_0@
            + no_thoughts@,
{
    match rendered {
        Ok(t) => Ok(ApplyTemplateResponse { prompt: finish_prompt(t, role, no_thoughts) }),
        Err(e) => Err(Problem { status: INTERNAL_SERVER_ERROR, body: e }),
    }
}

} // verus!
