use orangu_server::generate::{FinishReason, GenerateStats, StreamEvent};
use orangu_server::gguf::{GgufFile, GgufValue};
use orangu_server::native::{
    apply_template, check_apply_template, check_generation, completion, default_n_predict,
    detokenize, finish_reason_str, metrics, sampling_from, tokenize, Completion,
    CompletionRequest, CompletionStep, DetokenizeRequest, TokenizeRequest,
};
use orangu_server::role::Role;
use orangu_server::sampling::SamplingParams;
use orangu_server::scheduler::SlotPool;
use orangu_server::tokenizer::Tokenizer;
use orangu_server::web::chat::{
    finish_prompt, prompt_messages, take_message, template_tokens, turn_request, ChatTurn, Refusal,
    TurnStep,
};
use orangu_server::web::mcp::{list, show, McpConfiguration};
use orangu_server::web::page::{
    current_year, html_escape, katex_font, katex_fonts, WebState,
};
use orangu_server::web::sessions::{append_turn, create_session, Attachment};
use orangu_server::web::views::{attachment_view, is_rendered, session_view, DiagramView, Drawn, Found};
use std::time::Duration;

fn vocabulary(model: &str) -> Tokenizer {
    let tokens = ["<s>", "</s>", "a", "b", "\u{2581}", "\u{2581}b", ","];
    let gguf = GgufFile {
        version: 3,
        metadata: vec![
            (
                "tokenizer.ggml.tokens".to_string(),
                GgufValue::Array(tokens.iter().map(|t| GgufValue::String(t.to_string())).collect()),
            ),
            (
                "tokenizer.ggml.merges".to_string(),
                GgufValue::Array(vec![GgufValue::String("\u{2581} b".to_string())]),
            ),
            ("tokenizer.ggml.bos_token_id".to_string(), GgufValue::U32(0)),
            ("tokenizer.ggml.eos_token_id".to_string(), GgufValue::U32(1)),
            ("tokenizer.ggml.model".to_string(), GgufValue::String(model.to_string())),
        ],
        tensors: vec![],
        alignment: 32,
        data_offset: 0,
    };
    Tokenizer::from_gguf(&gguf).unwrap()
}

fn state() -> WebState {
    WebState {
        model_display: "a<b>&c".to_string(),
        architecture: "llama".to_string(),
        backend_label: "CPU".to_string(),
        workspace: "/w".to_string(),
        version: "1.2".to_string(),
        can_delete: false,
        bundled: false,
        loading: None,
        mcp_servers: vec![],
    }
}

#[test]
fn years_are_counted_from_seconds() {
    for (seconds, year) in [
        (0u64, 1970i64),
        (31_535_999, 1970),
        (31_536_000, 1971),
        (951_782_400, 2000),
        (978_307_199, 2000),
        (978_307_200, 2001),
        (1_735_689_599, 2024),
        (1_735_689_600, 2025),
    ] {
        assert_eq!(current_year(seconds), year, "{seconds}");
    }
}

#[test]
fn texts_in_a_page_are_escaped() {
    assert_eq!(html_escape("a<b> & \"c\""), "a&lt;b&gt; &amp; \"c\"");
    assert_eq!(html_escape("&lt;"), "&amp;lt;");
}

#[test]
fn the_page_is_filled_in() {
    let page = state().index(
        "v{{VERSION}} {{MODEL}} {{YEAR}} ?{{ASSET_VERSION}} {{MODEL}}",
        1_735_689_600,
        "ab12",
    );
    assert_eq!(page, "v1.2 a&lt;b&gt;&amp;c 2025 ?ab12 a&lt;b&gt;&amp;c");
}

#[test]
fn the_report_names_the_server() {
    assert_eq!(
        state().system_report("CPU x\n"),
        "orangu-server 1.2\nModel        a<b>&c\nArchitecture llama\nBackend      CPU\nWorkspace    /w\n\nCPU x\n"
    );
}

#[test]
fn a_handover_is_claimed_once() {
    let mut s = state();
    assert_eq!(s.loading_model(), None);
    assert!(s.arm_handover("x"));
    assert!(!s.arm_handover("y"));
    assert_eq!(s.loading_model().as_deref(), Some("x"));
}

#[test]
fn only_known_fonts_are_served() {
    assert_eq!(katex_fonts().len(), 20);
    for (i, name) in katex_fonts().iter().enumerate() {
        assert_eq!(katex_font(name), Some(i));
    }
    assert_eq!(katex_font("../secret"), None);
    assert_eq!(katex_font("KaTeX_Main-Regular.ttf"), None);
}

fn server(name: &str) -> McpConfiguration {
    McpConfiguration {
        name: name.to_string(),
        endpoint: format!("http://{name}"),
        enabled: true,
        approval_mode: "ask".to_string(),
    }
}

#[test]
fn tool_servers_are_listed_and_found() {
    let servers = vec![server("a"), server("b")];
    assert_eq!(list(&servers).len(), 2);
    assert_eq!(list(&servers)[1].endpoint, "http://b");
    assert_eq!(show(&servers, "b").unwrap().name, "b");
    assert_eq!(show(&servers, "c").unwrap_err(), (404, "MCP server not found"));
}

fn file(name: &str, text: Option<&str>) -> Attachment {
    Attachment {
        name: name.to_string(),
        mime: "text/plain".to_string(),
        size: 3,
        text: text.map(str::to_string),
    }
}

#[test]
fn messages_are_refused_in_order() {
    let template = Some("t".to_string());
    let bad = || Err("not base64".to_string());
    let e = take_message(&None, bad(), "").unwrap_err();
    assert!(matches!(e, Refusal::NoTemplate));
    assert_eq!(
        (e.status(), e.message().as_str()),
        (501, "model has no tokenizer.chat_template; the web UI needs one")
    );
    let e = take_message(&template, bad(), "").unwrap_err();
    assert_eq!((e.status(), e.message().as_str()), (400, "not base64"));
    let e = take_message(&template, Ok(vec![]), " \n").unwrap_err();
    assert!(matches!(e, Refusal::Empty));
    assert_eq!((e.status(), e.message().as_str()), (400, "message is empty"));
    assert_eq!(take_message(&template, Ok(vec![]), "x").unwrap().len(), 0);
    assert_eq!(take_message(&template, Ok(vec![file("a", None)]), "").unwrap()[0].name, "a");
}

#[test]
fn the_template_is_given_the_whole_conversation() {
    let mut session = create_session(0);
    append_turn(&mut session, "q", vec![file("a", Some("abc"))], "r", None, 1);
    let composed = vec!["abc q".to_string(), "r".to_string()];
    let messages = prompt_messages(&session, &composed, "next");
    let got: Vec<(&str, &str)> =
        messages.iter().map(|m| (m.role.as_str(), m.content.as_str())).collect();
    assert_eq!(got, [("user", "abc q"), ("assistant", "r"), ("user", "next")]);
}

fn diagram(source: &str) -> DiagramView {
    DiagramView {
        light: "l".to_string(),
        dark: "d".to_string(),
        source: source.to_string(),
        width: 2.5f64.to_bits(),
        height: 1.0f64.to_bits(),
    }
}

fn found(diagrams: Vec<DiagramView>, held: usize) -> Found {
    Found { diagrams, held }
}

#[test]
fn a_file_is_shown_with_its_text_and_its_diagrams() {
    let v = attachment_view(file("notes.txt", Some("hello there")), found(vec![], 0), 2);
    assert_eq!(v.text.as_deref(), Some("hello there"));
    assert!(v.diagrams.is_empty() && !v.diagrams_capped);
    let v = attachment_view(file("blob.bin", None), found(vec![diagram("a")], 1), 2);
    assert!(v.text.is_none() && !v.diagrams_capped);
    let v = attachment_view(file("x", None), found(vec![diagram("a"), diagram("b")], 2), 2);
    assert!(!v.diagrams_capped);
    let v = attachment_view(file("x", None), found(vec![diagram("a"), diagram("b")], 3), 2);
    assert!(v.diagrams_capped);
    assert_eq!(v.diagrams[1].source, "b");
}

#[test]
fn only_answers_are_shown_as_pages() {
    let mut session = create_session(7);
    append_turn(&mut session, "q", vec![file("a", None)], "r", Some(3), 8);
    assert!(!is_rendered(&session.messages[0]) && is_rendered(&session.messages[1]));
    let drawn = vec![
        Drawn { html: Some("<p>q</p>".to_string()), found: vec![found(vec![diagram("d")], 1)] },
        Drawn { html: Some("<p>r</p>".to_string()), found: vec![] },
    ];
    let v = session_view(session, drawn, 8);
    assert_eq!((v.created_at, v.updated_at, v.title.as_str()), (7, 8, "q"));
    assert_eq!(v.messages[0].html, None);
    assert_eq!(v.messages[0].attachments[0].diagrams.len(), 1);
    assert_eq!(v.messages[1].html.as_deref(), Some("<p>r</p>"));
    assert_eq!(v.messages[1].generation_ms, Some(3));
}

fn stats() -> GenerateStats {
    GenerateStats {
        prompt_tokens: 1,
        prompt_time: Duration::ZERO,
        generated_tokens: 2,
        generate_time: Duration::ZERO,
    }
}

#[test]
fn a_turn_ends_in_the_session() {
    let tok = vocabulary("gemma4");
    let mut turn = ChatTurn::new();
    assert!(matches!(turn.on_event(StreamEvent::Token("Hello".to_string())), TurnStep::Show));
    turn.on_event(StreamEvent::Token(" , world".to_string()));
    assert_eq!(turn.text(), "Hello , world");
    let done = StreamEvent::Done { stats: stats(), finish_reason: FinishReason::Length };
    let step = turn.on_event(done);
    assert!(matches!(step, TurnStep::Finish { reason: FinishReason::Length, .. }));
    let mut session = create_session(5);
    let done =
        turn.on_done(&tok, FinishReason::Length, 12, &mut session, "hi", Vec::new(), 9);
    assert_eq!(done.content, "Hello, world");
    assert!(done.truncated);
    assert_eq!(done.generation_ms, 12);
    assert_eq!(session.messages[1].content, "Hello, world");
    assert_eq!(session.messages[1].generation_ms, Some(12));
    assert_eq!((session.title.as_str(), session.updated_at), ("hi", 9));
    let mut turn = ChatTurn::new();
    let step = turn.on_event(StreamEvent::Error("lost".to_string()));
    assert!(matches!(step, TurnStep::Fail(e) if e == "lost"));
}

#[test]
fn a_turn_asks_with_the_usual_parameters() {
    let r = turn_request(&vocabulary("gemma4"), "a b", vec![1, 6]);
    assert_eq!((r.prompt_tokens, r.max_tokens), (vec![2, 5], 8192));
    assert_eq!(r.stop_token_ids, vec![1, 6]);
    assert_eq!(r.sampling, SamplingParams::default());
    let (bos, eos) = template_tokens(&vocabulary("gemma4"));
    assert_eq!((bos.as_str(), eos.as_str()), ("<s>", "</s>"));
    assert_eq!(finish_prompt("p".to_string(), Role::Review, "[]"), "p[]");
    assert_eq!(finish_prompt("p".to_string(), Role::All, "[]"), "p");
}

#[test]
fn tokens_are_made_and_put_together() {
    let tok = vocabulary("gemma4");
    let r = tokenize(&tok, &TokenizeRequest { content: "a b".to_string(), add_special: true });
    assert_eq!(r.tokens, vec![0, 2, 5]);
    let r = tokenize(&tok, &TokenizeRequest { content: "a b".to_string(), add_special: false });
    assert_eq!(r.tokens, vec![2, 5]);
    let r = detokenize(&tok, &DetokenizeRequest { tokens: vec![2, 4, 6] });
    assert_eq!(r.content, "a,");
}

#[test]
fn slots_are_measured() {
    let mut slots = SlotPool::new(3);
    let _g = slots.acquire();
    assert_eq!(
        metrics(&slots),
        "# HELP orangu_server_slots_total Configured concurrent request slots.\n\
         # TYPE orangu_server_slots_total gauge\n\
         orangu_server_slots_total 3\n\
         # HELP orangu_server_slots_busy Slots currently generating.\n\
         # TYPE orangu_server_slots_busy gauge\n\
         orangu_server_slots_busy 1\n"
    );
}

fn completion_request() -> CompletionRequest {
    CompletionRequest {
        prompt: "a".to_string(),
        n_predict: default_n_predict(),
        temperature: None,
        top_p: None,
        top_k: Some(5),
        min_p: None,
        repeat_penalty: None,
        seed: Some(9),
        stream: false,
    }
}

#[test]
fn a_request_overrides_the_roles_parameters() {
    let p = sampling_from(&completion_request(), Role::Explorer);
    let usual = SamplingParams::default_for_role(Role::Explorer);
    assert_eq!((p.top_k, p.seed), (5, 9));
    assert_eq!((p.temperature, p.top_p), (usual.temperature, usual.top_p));
    let req = CompletionRequest {
        temperature: Some(1),
        top_p: Some(2),
        min_p: Some(3),
        repeat_penalty: Some(4),
        ..completion_request()
    };
    let p = sampling_from(&req, Role::All);
    assert_eq!((p.temperature, p.top_p, p.min_p, p.repeat_penalty), (1, 2, 3, 4));
}

#[test]
fn a_completion_is_asked_for_and_put_together() {
    let tok = vocabulary("gemma4");
    let g = completion(&tok, &completion_request(), Role::Code).unwrap();
    assert_eq!((g.prompt_tokens, g.max_tokens, g.stop_token_ids), (vec![0, 2], 256, vec![1]));
    let p = completion(&tok, &completion_request(), Role::Embedding).unwrap_err();
    assert_eq!(p.status, 501);
    assert_eq!(
        p.body,
        "this server is running in --embedding mode; generation endpoints are disabled"
    );
    assert!(check_generation(Role::Review).is_ok());

    let mut c = Completion::new();
    assert!(matches!(c.on_event(StreamEvent::Token("a ".to_string())), CompletionStep::More));
    assert!(matches!(c.on_event(StreamEvent::Token(", b".to_string())), CompletionStep::More));
    let done = StreamEvent::Done { stats: stats(), finish_reason: FinishReason::Stop };
    assert!(matches!(c.on_event(done), CompletionStep::Complete));
    assert_eq!(c.finish(&tok), "a, b");
    let mut c = Completion::new();
    match c.on_event(StreamEvent::Error("lost".to_string())) {
        CompletionStep::Failed(p) => assert_eq!((p.status, p.body.as_str()), (500, "lost")),
        _ => panic!("not failed"),
    }
    assert_eq!(finish_reason_str(FinishReason::Stop), "stop");
    assert_eq!(finish_reason_str(FinishReason::Length), "length");
}

#[test]
fn a_prompt_is_shown_as_it_is_sent() {
    let p = check_apply_template(&None).unwrap_err();
    assert_eq!((p.status, p.body.as_str()), (501, "model has no tokenizer.chat_template"));
    assert!(check_apply_template(&Some(String::new())).is_ok());
    let r = apply_template(Ok("p".to_string()), Role::Review, "<t></t>").unwrap();
    assert_eq!(r.prompt, "p<t></t>");
    let r = apply_template(Ok("p".to_string()), Role::Code, "<t></t>").unwrap();
    assert_eq!(r.prompt, "p");
    let p = apply_template(Err("line 3".to_string()), Role::Code, "").unwrap_err();
    assert_eq!((p.status, p.body.as_str()), (500, "line 3"));
}
