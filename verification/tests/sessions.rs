use orangu_server::web::sessions::{
    activity_mark, append_turn, create_session, derive_title, is_active, list_sessions,
    list_sessions_for_prune, new_session, save_dir_name, session_dir_name, sweep_empty_sessions,
    Attachment, FoundSession, Session, SessionActivity, SessionIdError, SessionMessage,
};

fn message() -> SessionMessage {
    SessionMessage {
        role: "user".to_string(),
        content: "hi".to_string(),
        generation_ms: None,
        attachments: Vec::new(),
    }
}

fn copy(s: &Session) -> Session {
    Session {
        id: s.id.clone(),
        created_at: s.created_at,
        updated_at: s.updated_at,
        title: s.title.clone(),
        messages: s.messages.iter().map(|_| message()).collect(),
    }
}

/// Sessions under the names of their directories.
struct Store {
    dirs: Vec<(String, Session, Option<SessionActivity>)>,
}

impl Store {
    fn new() -> Self {
        Store { dirs: Vec::new() }
    }

    fn save(&mut self, s: &Session, mark: Option<SessionActivity>) {
        let name = save_dir_name(s).unwrap();
        self.dirs.retain(|d| d.0 != name);
        self.dirs.push((name, copy(s), mark));
    }

    fn load(&self, id: &str) -> Result<Session, String> {
        let name = session_dir_name(id).map_err(|e| e.message())?;
        match self.dirs.iter().find(|d| d.0 == name) {
            Some(d) => Ok(copy(&d.1)),
            None => Err(format!("session '{id}' was not found")),
        }
    }

    fn found(&self, running_since: Option<u64>) -> Vec<FoundSession> {
        self.dirs
            .iter()
            .map(|d| FoundSession {
                name: d.0.clone(),
                active: is_active(&d.0, d.2, running_since),
                session: Some(copy(&d.1)),
                modified: 0,
            })
            .collect()
    }
}

#[test]
fn create_then_load_round_trips() {
    let mut store = Store::new();
    let session = create_session(1000);
    store.save(&session, None);
    let loaded = store.load(&session.id).unwrap();
    assert_eq!(loaded.id, session.id);
    assert!(loaded.messages.is_empty());
}

#[test]
fn append_turn_sets_title_from_first_message_only() {
    let mut session = create_session(1000);
    append_turn(
        &mut session,
        "What is Rust?",
        Vec::new(),
        "A systems language.",
        Some(123),
        1001,
    );
    assert_eq!(session.title, "What is Rust?");
    append_turn(
        &mut session,
        "And Go?",
        Vec::new(),
        "Also a systems-ish language.",
        Some(456),
        1002,
    );
    assert_eq!(session.title, "What is Rust?");
    assert_eq!(session.messages.len(), 4);
    assert_eq!(session.updated_at, 1002);
    assert_eq!(session.messages[3].content, "Also a systems-ish language.");
    assert_eq!(session.messages[3].generation_ms, Some(456));
    assert_eq!(session.messages[2].role, "user");
}

#[test]
fn list_sessions_sorts_by_most_recently_updated() {
    let mut a = create_session(0);
    let mut b = create_session(0);
    a.messages.push(message());
    b.messages.push(message());
    a.updated_at = 100;
    b.updated_at = 200;
    let ids = (a.id.clone(), b.id.clone());
    let summaries = list_sessions(&vec![a, b]);
    assert_eq!(summaries.len(), 2);
    assert_eq!(summaries[0].id, ids.1);
    assert_eq!(summaries[1].id, ids.0);
}

#[test]
fn list_sessions_excludes_sessions_with_no_messages() {
    let empty = create_session(0);
    let mut used = create_session(0);
    used.messages.push(message());
    let id = used.id.clone();
    let summaries = list_sessions(&vec![empty, used]);
    assert_eq!(summaries.len(), 1);
    assert_eq!(summaries[0].id, id);
}

#[test]
fn load_session_rejects_path_traversal_ids() {
    let err = Store::new().load("../../../etc/passwd").unwrap_err();
    assert!(err.contains("not a valid session id"));
}

#[test]
fn derive_title_truncates_long_first_messages() {
    let long = "x".repeat(100);
    let title = derive_title(&long);
    assert_eq!(title.chars().count(), 61);
    assert!(title.ends_with('…'));
}

#[test]
fn save_session_marks_it_active_for_the_current_process() {
    let mut store = Store::new();
    let session = create_session(0);
    let mark = activity_mark(4321, Some(77), 99);
    store.save(&session, Some(mark));
    assert_eq!(mark, SessionActivity { pid: 4321, started_at: 77, updated_at: 99 });
    assert!(is_active(&session.id, Some(mark), Some(77)));
    assert_eq!(activity_mark(1, None, 2).started_at, 0);
}

#[test]
fn is_active_is_false_with_no_session_json() {
    let session = create_session(0);
    assert!(!is_active(&session.id, None, Some(77)));
}

#[test]
fn is_active_is_false_for_a_pid_that_is_not_running() {
    let session = create_session(0);
    let stale = SessionActivity { pid: u32::MAX, started_at: 0, updated_at: 0 };
    assert!(!is_active(&session.id, Some(stale), None));
}

#[test]
fn is_active_is_false_when_the_pid_was_reused_by_a_different_process() {
    let session = create_session(0);
    let mismatched = SessionActivity { pid: 4321, started_at: u64::MAX, updated_at: 0 };
    assert!(!is_active(&session.id, Some(mismatched), Some(77)));
    assert!(!is_active("not-a-uuid", Some(mismatched), Some(u64::MAX)));
}

#[test]
fn sweep_empty_sessions_removes_only_non_active_empty_ones() {
    let mut store = Store::new();
    let stale = Some(SessionActivity { pid: u32::MAX, started_at: 0, updated_at: 0 });
    let live = Some(SessionActivity { pid: 1, started_at: 77, updated_at: 0 });
    let empty_inactive = create_session(0);
    let mut used_inactive = create_session(0);
    used_inactive.messages.push(message());
    let empty_active = create_session(0);
    store.save(&empty_inactive, stale);
    store.save(&used_inactive, stale);
    store.save(&empty_active, live);

    let removed = sweep_empty_sessions(&store.found(Some(77)));
    store.dirs.retain(|d| !removed.contains(&d.0));
    assert_eq!(removed.len(), 1);
    assert!(store.load(&empty_inactive.id).is_err());
    assert!(store.load(&used_inactive.id).is_ok());
    assert!(store.load(&empty_active.id).is_ok());
}

#[test]
fn list_sessions_for_prune_includes_empty_sessions() {
    let mut store = Store::new();
    let live = Some(SessionActivity { pid: 1, started_at: 77, updated_at: 0 });
    let empty = create_session(0);
    let mut used = create_session(0);
    used.messages.push(message());
    store.save(&empty, live);
    store.save(&used, live);

    let entries = list_sessions_for_prune(&store.found(Some(77)));
    assert_eq!(entries.len(), 2);
    assert!(entries.iter().any(|e| e.id == empty.id && e.active));
    assert!(entries.iter().any(|e| e.id == used.id && e.active));
}

#[test]
fn delete_session_dir_removes_it_and_rejects_bad_ids() {
    let mut store = Store::new();
    let session = create_session(0);
    store.save(&session, None);
    let name = session_dir_name(&session.id).unwrap();
    store.dirs.retain(|d| d.0 != name);
    assert!(store.load(&session.id).is_err());

    let err = session_dir_name("not-a-uuid").unwrap_err();
    assert!(err.message().contains("not a valid session id"));
}

#[test]
fn an_id_names_one_directory_in_whatever_shape_it_comes() {
    let s = new_session(0x550e8400e29b41d4a716446655440000, 5);
    let name = "550e8400-e29b-41d4-a716-446655440000";
    assert_eq!(s.id, name);
    assert_eq!((s.created_at, s.updated_at), (5, 5));
    for shape in [
        name.to_string(),
        "550E8400-E29B-41D4-A716-446655440000".to_string(),
        "550e8400e29b41d4a716446655440000".to_string(),
        format!("{{{name}}}"),
        format!("URN:uuid:{name}"),
    ] {
        assert_eq!(session_dir_name(&shape).unwrap(), name, "{shape}");
    }
    for bad in [
        "",
        "550e8400-e29b-41d4-a716-44665544000",
        "550e8400-e29b-41d4-a716-44665544000g",
        "550e8400_e29b-41d4-a716-446655440000",
        "ürn:uuid:550e8400-e29b-41d4-a716-44665544",
    ] {
        assert!(session_dir_name(bad).is_err(), "{bad}");
    }
}

#[test]
fn a_session_under_no_id_cannot_be_saved() {
    let mut s = create_session(0);
    s.id = "x".to_string();
    let e = save_dir_name(&s).unwrap_err();
    assert!(matches!(e, SessionIdError::BadSession));
    assert_eq!(e.message(), "session id is not a valid UUID");
}

#[test]
fn random_ids_are_of_the_fourth_version() {
    let a = create_session(0).id;
    let b = create_session(0).id;
    assert_ne!(a, b);
    assert_eq!(a.as_bytes()[14], b'4');
    assert!("89ab".contains(a.as_bytes()[19] as char));
}

#[test]
fn a_file_gives_the_title_where_nothing_is_written() {
    let mut s = create_session(0);
    let file = Attachment {
        name: " notes.txt ".to_string(),
        mime: "text/plain".to_string(),
        size: 3,
        text: Some("abc".to_string()),
    };
    append_turn(&mut s, "  \n", vec![file], "ok", None, 1);
    assert_eq!(s.title, "notes.txt");
    assert_eq!(s.messages[0].attachments.len(), 1);
    assert_eq!(s.messages[0].content, "  \n");
    assert_eq!(derive_title(&"y".repeat(60)), "y".repeat(60));
    assert_eq!(derive_title("\u{3000} a b \u{a0}"), "a b");
}

#[test]
fn unreadable_sessions_are_listed_by_their_directory() {
    let id = create_session(0).id;
    let dirs = vec![
        FoundSession { name: "stray".to_string(), active: false, session: None, modified: 9 },
        FoundSession { name: id.clone(), active: true, session: None, modified: 7 },
    ];
    let entries = list_sessions_for_prune(&dirs);
    assert_eq!(entries.len(), 1);
    assert_eq!((entries[0].id.as_str(), entries[0].title.as_str()), (id.as_str(), ""));
    assert_eq!((entries[0].updated_at, entries[0].message_count), (7, 0));
    assert!(sweep_empty_sessions(&dirs).is_empty());
}

#[test]
fn sessions_used_at_the_same_time_stay_in_order() {
    let mut list = Vec::new();
    for (i, t) in [5u64, 9, 5, 9].iter().enumerate() {
        let mut s = new_session(i as u128, 0);
        s.messages.push(message());
        s.updated_at = *t;
        s.title = format!("{i}");
        list.push(s);
    }
    let titles: Vec<String> = list_sessions(&list).into_iter().map(|s| s.title).collect();
    assert_eq!(titles, ["1", "3", "0", "2"]);
}
