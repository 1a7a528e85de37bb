use orangu_server::cli::backend::{
    backends_to_try, select_backend, BackendKind, BackendPreference,
};
use orangu_server::cli::launch::{
    address, asks_for_role, banner, batches_steps, detect_shell, model_source, terminal_title,
    unknown_shell, web_address, Banner, ModelSource, RoleFlags, Shell,
};
use orangu_server::cli::models::{
    delete_question, deleted_notice, model_table, no_models, pick, repositories, ModelRow,
    PickError,
};
use orangu_server::cli::show::{format_show, preview_limit, ShownTensor};
use orangu_server::gguf::{GgufFile, GgufTensor, GgufValue};
use orangu_server::init::{
    answer_value, complete, config_contents, dir_step, is_yes, is_yes_by_default,
    model_completion_options, question, role_answer, role_options, DirStep, InitValues,
};
use orangu_server::panic_capture::{take_last_panic_detail, PanicStash};
use orangu_server::role::Role;

fn strings(items: &[&str]) -> Vec<String> {
    items.iter().map(|s| s.to_string()).collect()
}

#[test]
fn pairs_each_nr_with_its_label_in_group_models_order() {
    let groups = strings(&[
        "Qwen/Qwen2.5-0.5B-Instruct-GGUF:Q4_K_M",
        "bartowski/gemma-4-12B-it-GGUF:Q4_K_M",
        "unsloth/gemma-4-E2B-it-GGUF:Q4_K_M",
    ]);
    assert_eq!(
        model_completion_options(&groups),
        vec![
            "1".to_string(),
            "Qwen/Qwen2.5-0.5B-Instruct-GGUF:Q4_K_M".to_string(),
            "2".to_string(),
            "bartowski/gemma-4-12B-it-GGUF:Q4_K_M".to_string(),
            "3".to_string(),
            "unsloth/gemma-4-E2B-it-GGUF:Q4_K_M".to_string(),
        ]
    );
}

#[test]
fn empty_groups_give_no_completion_options() {
    assert!(model_completion_options(&vec![]).is_empty());
}

#[test]
fn answers_say_yes_or_no() {
    for line in ["y", "YES\n", "  Yes "] {
        assert!(is_yes(line) && is_yes_by_default(line), "{line}");
    }
    for line in ["n", "yess", "no", "y es"] {
        assert!(!is_yes(line) && !is_yes_by_default(line), "{line}");
    }
    assert!(!is_yes(" \n"));
    assert!(is_yes_by_default(" \n"));
}

#[test]
fn answers_fall_back_to_their_default() {
    let d = Some("8080".to_string());
    assert_eq!(question("port", &d), "port [8080]: ");
    assert_eq!(question("models", &None), "models []: ");
    assert_eq!(answer_value(" 9 \n", &d).as_deref(), Some("9"));
    assert_eq!(answer_value("\n", &d).as_deref(), Some("8080"));
    assert_eq!(answer_value("", &None), None);
}

#[test]
fn a_directory_that_is_not_there_is_asked_about() {
    assert!(matches!(dir_step(None, false), DirStep::Required));
    assert!(matches!(dir_step(Some("/m".to_string()), true), DirStep::Use(v) if v == "/m"));
    match dir_step(Some("/m".to_string()), false) {
        DirStep::Confirm { value, notice } => {
            assert_eq!(value, "/m");
            assert_eq!(notice, "'/m' does not exist or is not a directory.");
        }
        _ => panic!("not asked about"),
    }
}

#[test]
fn roles_are_named() {
    assert_eq!(role_options(), ["all", "code", "review", "explorer", "embedding"]);
    assert_eq!(role_answer("\n").unwrap(), Role::All);
    assert_eq!(role_answer(" review ").unwrap(), Role::Review);
    assert_eq!(role_answer("Review").unwrap_err(), "Review");
    for label in role_options() {
        assert_eq!(Role::parse(&label).unwrap().label(), label);
    }
    assert_eq!(Role::default(), Role::All);
}

#[test]
fn completion_takes_no_account_of_case() {
    let options = strings(&["Älpha", "alpha", "ALPINE", "beta"]);
    assert_eq!(complete(&options, "ALP"), ["alpha", "ALPINE"]);
    assert_eq!(complete(&options, "ä"), ["Älpha"]);
    assert_eq!(complete(&options, ""), options);
    assert!(complete(&options, "x").is_empty());
}

#[test]
fn a_configuration_holds_what_is_set() {
    let mut v = InitValues {
        models: "/m".to_string(),
        model: String::new(),
        role: Role::All,
        host: "127.0.0.1".to_string(),
        port: "8080".to_string(),
        web: "8081".to_string(),
    };
    assert_eq!(
        config_contents(&v),
        "[orangu-server]\nmodels = /m\nhost = 127.0.0.1\nport = 8080\nweb = 8081\n"
    );
    v.model = "a/b:Q4_K_M".to_string();
    v.role = Role::Code;
    assert_eq!(
        config_contents(&v),
        "[orangu-server]\nmodels = /m\nmodel = a/b:Q4_K_M\nrole = code\nhost = 127.0.0.1\nport = 8080\nweb = 8081\n"
    );
}

const NO_FLAGS: RoleFlags =
    RoleFlags { all: false, code: false, review: false, explorer: false, embedding: false };

#[test]
fn flags_name_a_role() {
    assert_eq!(NO_FLAGS.role(), None);
    assert_eq!(RoleFlags { explorer: true, ..NO_FLAGS }.role(), Some(Role::Explorer));
    assert_eq!(RoleFlags { code: true, review: true, ..NO_FLAGS }.role(), Some(Role::Code));
}

#[test]
fn shells_are_told_by_their_path() {
    assert_eq!(detect_shell("/bin/bash"), Some(Shell::Bash));
    assert_eq!(detect_shell("zsh"), Some(Shell::Zsh));
    assert_eq!(detect_shell("/usr/bin/fish"), Some(Shell::Fish));
    assert_eq!(detect_shell("/bin/dash"), None);
    assert_eq!(detect_shell("mybash"), None);
    assert_eq!(detect_shell(""), None);
    let text = unknown_shell("\"/bin/dash\"");
    assert!(text.starts_with("could not detect shell from $SHELL (\"/bin/dash\").\nSupported"));
    assert!(text.contains("\n\nUsage:\n  bash: eval \"$(orangu-server -s)\"\n"));
}

#[test]
fn the_background_needs_a_configured_model() {
    let given = Some("x".to_string());
    assert_eq!(
        model_source(true, None, given.clone()).unwrap_err(),
        "--daemon requires [orangu-server].model to be set in the config file (see --init); there is no attached terminal to prompt on"
    );
    assert!(
        matches!(model_source(true, Some("c".to_string()), given.clone()), Ok(ModelSource::Named(s)) if s == "c")
    );
    assert!(
        matches!(model_source(false, Some("c".to_string()), given), Ok(ModelSource::Named(s)) if s == "x")
    );
    let asked = model_source(false, Some("c".to_string()), None).unwrap();
    assert!(asks_for_role(&asked, None));
    assert!(!asks_for_role(&asked, Some(Role::Code)));
    assert!(!asks_for_role(&ModelSource::Named("x".to_string()), None));
    assert!(batches_steps(2, true) && !batches_steps(1, true) && !batches_steps(2, false));
}

#[test]
fn the_banner_says_what_runs_where() {
    assert_eq!(address("0.0.0.0", 80), "0.0.0.0:80");
    assert_eq!(web_address("h", 0), None);
    let mut b = Banner {
        model_label: "m".to_string(),
        architecture: "llama".to_string(),
        backend_label: "CPU".to_string(),
        n_layer: 24,
        n_ctx_train: 4096,
        web_address: web_address("h", 81),
        host: "h".to_string(),
        port: 80,
    };
    assert_eq!(
        banner(&b),
        "Model  m (llama arch, CPU, 24 layers, 4096 ctx)\nUI     http://h:81\nAPI    http://h:80\n"
    );
    b.web_address = None;
    assert!(banner(&b).contains("\nUI     disabled\n"));
    assert_eq!(terminal_title("t"), "\x1b]0;t\x07");
}

#[test]
fn a_backend_is_chosen_in_order() {
    let plan = backends_to_try(BackendPreference::Auto, true).unwrap();
    assert_eq!(
        plan,
        [BackendKind::Vulkan, BackendKind::Cuda, BackendKind::OpenCl, BackendKind::Rocm]
    );
    let found = vec![None, Some("RTX".to_string()), Some("pocl".to_string()), None];
    let c = select_backend(BackendPreference::Auto, &plan, &found, true).unwrap();
    assert_eq!((c.kind, c.label.as_str()), (Some(BackendKind::Cuda), "CUDA/RTX"));
    let c = select_backend(BackendPreference::Auto, &plan, &vec![None, None, None, None], true);
    assert_eq!(c.unwrap().label, "CPU/AVX2");
    let c = select_backend(BackendPreference::Cpu, &vec![], &vec![], false).unwrap();
    assert_eq!((c.kind, c.label.as_str()), (None, "CPU"));
    assert_eq!(backends_to_try(BackendPreference::Auto, false).unwrap().len(), 3);
}

#[test]
fn a_backend_that_was_named_has_to_be_there() {
    for (p, text) in [
        (BackendPreference::Vulkan, "[orangu-server].backend = vulkan, but no usable Vulkan adapter was found"),
        (BackendPreference::Cuda, "[orangu-server].backend = cuda, but no usable CUDA device was found"),
        (BackendPreference::OpenCl, "[orangu-server].backend = opencl, but no usable OpenCL device was found"),
        (BackendPreference::Rocm, "[orangu-server].backend = rocm, but no usable ROCm/HIP device was found"),
    ] {
        let plan = backends_to_try(p, true).unwrap();
        assert_eq!(select_backend(p, &plan, &vec![None], true).unwrap_err(), text);
    }
    assert_eq!(
        backends_to_try(BackendPreference::Rocm, false).unwrap_err(),
        "[orangu-server].backend = rocm, but this build of orangu-server was compiled without the \"rocm\" Cargo feature (rebuild with `--features rocm`)"
    );
}

fn row(label: &str, arch: Option<&str>, errors: &[&str]) -> ModelRow {
    ModelRow {
        label: label.to_string(),
        quantization: if errors.is_empty() { Some("Q4_K_M".to_string()) } else { None },
        size: "1.00 GiB".to_string(),
        errors: strings(errors),
        architecture: arch.map(str::to_string),
    }
}

#[test]
fn models_are_shown_in_a_table() {
    let rows = vec![
        row("a/long-name", Some("llama"), &[]),
        row("b", Some("bert"), &[]),
        row("c", None, &["bad magic", "too short"]),
        row("d", None, &[]),
    ];
    assert_eq!(
        model_table(&rows),
        "NR  MODEL        QUANT   SIZE\n \
         1  a/long-name  Q4_K_M  1.00 GiB\n\
         \x1b[2m 2  b            Q4_K_M  1.00 GiB  (unsupported: architecture 'bert')\x1b[0m\n \
         3  c            error: bad magic; too short\n\
         \x1b[2m 4  d            Q4_K_M  1.00 GiB  (unsupported: architecture 'unknown')\x1b[0m\n"
    );
    assert_eq!(model_table(&vec![]), "NR  MODEL  QUANT  SIZE\n");
}

#[test]
fn a_number_picks_a_model() {
    assert_eq!(pick(" 2\n", 3).unwrap(), 1);
    assert_eq!(pick("+1", 3).unwrap(), 0);
    assert_eq!(pick("x\n", 3).unwrap_err().message(), "'x' is not a number");
    assert_eq!(pick("-1", 3).unwrap_err().message(), "'-1' is not a number");
    assert_eq!(pick("0", 3).unwrap_err().message(), "no model with NR 0 (3 model(s) listed)");
    assert!(matches!(pick("4", 3), Err(PickError::NoSuchModel { nr: 4, count: 3 })));
    assert!(matches!(pick("99999999999999999999", 3), Err(PickError::NotANumber { .. })));
    for i in 0..120usize {
        assert_eq!(pick(&(i + 1).to_string(), 120).unwrap(), i);
    }
}

#[test]
fn repositories_are_asked_once() {
    let origins =
        vec![Some("a/b".to_string()), None, Some("c/d".to_string()), Some("a/b".to_string())];
    assert_eq!(repositories(&origins), ["a/b", "c/d"]);
    assert!(repositories(&vec![None]).is_empty());
}

#[test]
fn deleting_is_asked_about_and_told() {
    assert_eq!(
        delete_question("a", 1, "1.00 GiB", "/m"),
        "Delete 'a' (1 file, 1.00 GiB) from /m? [y/N]: "
    );
    assert_eq!(deleted_notice("a", 3, "2.00 GiB"), "Deleted 'a' (3 files, 2.00 GiB)");
    assert_eq!(no_models("/m", false), "no .gguf models found under /m");
    assert!(no_models("/m", true).ends_with("or pass one directly: orangu-server <model>"));
}

#[test]
fn a_file_shows_what_it_holds() {
    let g = GgufFile {
        version: 3,
        metadata: vec![
            ("a".to_string(), GgufValue::U8(1)),
            ("long.key".to_string(), GgufValue::Bool(true)),
        ],
        tensors: vec![GgufTensor {
            name: "w".to_string(),
            dims: vec![2, 3],
            ggml_type: 0,
            offset: 64,
        }],
        alignment: 32,
        data_offset: 128,
    };
    let values = strings(&["1", "true"]);
    let top = "GGUF version   : 3\nMetadata pairs : 2\nTensors        : 1\nAlignment      : 32 bytes\nData offset    : 128 bytes\n\nMetadata\n  a        = 1\n  long.key = true\n";
    assert_eq!(format_show(&g, &values, &None), top);
    let shown = vec![ShownTensor { kind: "F32".to_string(), shape: "2 x 3".to_string() }];
    assert_eq!(
        format_show(&g, &values, &Some(shown)),
        format!("{top}\nTensors\n  w  F32  2 x 3  (offset 64)\n")
    );
    assert_eq!((preview_limit(false), preview_limit(true)), (8, usize::MAX));
}

#[test]
fn install_captures_the_panic_message_and_a_backtrace() {
    let mut stash = PanicStash::new();
    stash.record(
        Some("panic_capture.rs:1:2".to_string()),
        Some("PANIC_CAPTURE_UNIT_TEST_PANIC".to_string()),
        "0: main",
    );
    let detail = take_last_panic_detail(&mut stash).expect("a panic just occurred on this thread");
    assert!(
        detail.contains("PANIC_CAPTURE_UNIT_TEST_PANIC"),
        "got: {detail}"
    );
    assert!(detail.contains("backtrace:"), "got: {detail}");
    assert!(detail.contains("panic_capture.rs"), "got: {detail}");
    stash.record(None, None, "t");
    assert_eq!(
        take_last_panic_detail(&mut stash).unwrap(),
        "panicked at <unknown location>:\n<non-string panic payload>\n\nbacktrace:\nt"
    );
}

#[test]
fn take_last_panic_detail_clears_the_stash() {
    let mut stash = PanicStash::new();
    stash.record(None, Some("PANIC_CAPTURE_UNIT_TEST_CLEAR_CHECK".to_string()), "");
    assert!(take_last_panic_detail(&mut stash).is_some());
    assert!(take_last_panic_detail(&mut stash).is_none());
}
