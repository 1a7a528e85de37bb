//! Chat sessions: what a turn adds to one, which are listed and in what order, and
//! which may be swept away. Each lies in a directory of its own, named by its
//! identifier.

use vstd::prelude::*;

use crate::ranking;
use crate::ranking::ranking;
use crate::text;
use crate::text::{char_count, chars_of, text_of, trim};
use crate::web::ids;
use crate::web::ids::{format_id, fresh_id, parse_id};

verus! {

/// The most characters of a title.
pub const MAX_TITLE_LEN: usize = 60;

/// A message of a session.
#[derive(Debug)]
pub struct SessionMessage {
    pub role: String,
    pub content: String,
    pub generation_ms: Option<u64>,
    pub attachments: Vec<Attachment>,
}

/// A file that came with a message, and the text that was read out of it.
#[derive(Debug)]
pub struct Attachment {
    pub name: String,
    pub mime: String,
    pub size: u64,
    pub text: Option<String>,
}

/// A session.
#[derive(Debug)]
pub struct Session {
    pub id: String,
    pub created_at: u64,
    pub updated_at: u64,
    pub title: String,
    pub messages: Vec<SessionMessage>,
}

/// A row of the list of sessions.
#[derive(Debug)]
pub struct SessionSummary {
    pub id: String,
    pub title: String,
    pub created_at: u64,
    pub updated_at: u64,
}

/// A row of the list of sessions that may be deleted.
#[derive(Debug)]
pub struct PruneEntry {
    pub id: String,
    pub title: String,
    pub updated_at: u64,
    pub message_count: usize,
    pub active: bool,
}

/// Which process used a session last: its number, when it was started, and when it
/// used the session.
#[derive(Debug, Clone, Copy, PartialEq, Eq, Structural)]
pub struct SessionActivity {
    pub pid: u32,
    pub started_at: u64,
    pub updated_at: u64,
}

/// A directory among those of the sessions: its name, whether a running server
/// uses it, the session that was read from it, and when it was last changed.
#[derive(Debug)]
pub struct FoundSession {
    pub name: String,
    pub active: bool,
    pub session: Option<Session>,
    pub modified: u64,
}

/// What a [`SessionSummary`] says.
pub struct SummaryRow {
    pub id: Seq<char>,
    pub title: Seq<char>,
    pub created_at: u64,
    pub updated_at: u64,
}

/// What a [`PruneEntry`] says.
pub struct PruneRow {
    pub id: Seq<char>,
    pub title: Seq<char>,
    pub updated_at: u64,
    pub message_count: nat,
    pub active: bool,
}

impl View for SessionSummary {
    type V = SummaryRow;

    open spec fn view(&self) -> SummaryRow {
        SummaryRow {
            id: self.id@,
            title: self.title@,
            created_at: self.created_at,
            updated_at: self.updated_at,
        }
    }
}

impl View for PruneEntry {
    type V = PruneRow;

    open spec fn view(&self) -> PruneRow {
        PruneRow {
            id: self.id@,
            title: self.title@,
            updated_at: self.updated_at,
            message_count: self.message_count as nat,
            active: self.active,
        }
    }
}

/// Why a session's directory cannot be named.
#[derive(Debug)]
pub enum SessionIdError {
    /// The text of a request is no identifier.
    NotAnId { id: String },
    /// The identifier of a session to be saved is none.
    BadSession,
}

impl SessionIdError {
    /// The message of the error.
    pub open spec fn text(self) -> Seq<char> {
        match self {
            SessionIdError::NotAnId { id } => "'"@ + id@ + "' is not a valid session id"@,
            SessionIdError::BadSession => "session id is not a valid UUID"@,
        }
    }

    /// The message of the error.
    pub fn message(&self) -> (r: String)
        ensures
            r@ == self.text(),
    {
        match self {
            SessionIdError::NotAnId { id } => {
                let mut s = "'".to_owned();
                s.append(id.as_str());
                s.append("' is not a valid session id");
                s
            },
            SessionIdError::BadSession => "session id is not a valid UUID".to_owned(),
        }
    }
}

/// The name of the directory that an identifier stands for: always its own text,
/// whatever shape it was given in.
pub open spec fn dir_name(id: Seq<char>) -> Option<Seq<char>> {
    match ids::id_number(id) {
        Some(n) => Some(ids::id_text(n as u128)),
        None => None,
    }
}

/// The name of the directory of a session that a request names.
pub fn session_dir_name(id: &str) -> (r: Result<String, SessionIdError>)
    ensures
        match r {
            Ok(name) => dir_name(id@) == Some(name@),
            Err(e) => dir_name(id@) is None && e is NotAnId && e->id@ == id@,
        },
{
    match parse_id(id) {
        Some(n) => Ok(format_id(n)),
        None => Err(SessionIdError::NotAnId { id: id.to_owned() }),
    }
}

/// The name of the directory that a session is saved in.
pub fn save_dir_name(session: &Session) -> (r: Result<String, SessionIdError>)
    ensures
        match r {
            Ok(name) => dir_name(session.id@) == Some(name@),
            Err(e) => dir_name(session.id@) is None && e is BadSession,
        },
{
    match parse_id(session.id.as_str()) {
        Some(n) => Ok(format_id(n)),
        None => Err(SessionIdError::BadSession),
    }
}

/// A session without messages.
pub fn new_session(id: u128, now: u64) -> (r: Session)
    ensures
        r.id@ == ids::id_text(id),
        r.created_at == now,
        r.updated_at == now,
        r.title@ == Seq::<char>::empty(),
        r.messages@ == Seq::<SessionMessage>::empty(),
{
    Session {
        id: format_id(id),
        created_at: now,
        updated_at: now,
        title: String::new(),
        messages: Vec::new(),
    }
}

/// A session without messages, under a random identifier.
pub fn create_session(now: u64) -> (r: Session)
    ensures
        exists|id: u128| #[trigger] ids::is_random_id(id) && r.id@ == ids::id_text(id),
        r.created_at == now,
        r.updated_at == now,
        r.title@ == Seq::<char>::empty(),
        r.messages@ == Seq::<SessionMessage>::empty(),
{
    let id: u128 = fresh_id();
    new_session(id, now)
}

/// The title that a text makes: without white space at its ends, and cut after
/// sixty characters, with a sign that it was.
pub open spec fn title_of(t: Seq<char>) -> Seq<char> {
    let s = text::trimmed(t);
    if s.len() > MAX_TITLE_LEN {
        s.take(MAX_TITLE_LEN as int).push('…')
    } else {
        s
    }
}

/// What the title is made of: the message, or the name of the first file where
/// nothing was written.
pub open spec fn title_seed(message: Seq<char>, attachments: Seq<Attachment>) -> Seq<char> {
    if text::trimmed(message).len() == 0 && attachments.len() > 0 {
        attachments[0].name@
    } else {
        message
    }
}

/// The title that a text makes.
pub fn derive_title(first_message: &str) -> (r: String)
    ensures
        r@ == title_of(first_message@),
{
    let trimmed = trim(first_message);
    if char_count(trimmed.as_str()) <= MAX_TITLE_LEN {
        return trimmed;
    }
    let chars = chars_of(trimmed.as_str());
    let head = vstd::slice::slice_subrange(chars.as_slice(), 0, MAX_TITLE_LEN);
    assert(head@ =~= trimmed@.take(MAX_TITLE_LEN as int));
    let mut title = text_of(head);
    title.push('…');
    title
}

/// Adds a turn to a session: the user's message with its files, and the answer. The
/// first turn gives the session its title.
pub fn append_turn(
    session: &mut Session,
    user_message: &str,
    user_attachments: Vec<Attachment>,
    assistant_message: &str,
    generation_ms: Option<u64>,
    now: u64,
)
    ensures
        final(session).id == old(session).id,
        final(session).created_at == old(session).created_at,
        final(session).updated_at == now,
        final(session).title@ == (if old(session).title@.len() == 0 {
            title_of(title_seed(user_message@, user_attachments@))
        } else {
            old(session).title@
        }),
        final(session).messages@.len() == old(session).messages@.len() + 2,
        final(session).messages@.take(old(session).messages@.len() as int) == old(
            session,
        ).messages@,
        ({
            let user = final(session).messages@[old(session).messages@.len() as int];
            &&& user.role@ == "user"@
            &&& user.content@ == user_message@
            &&& user.generation_ms is None
            &&& user.attachments == user_attachments
        }),
        ({
            let answer = final(session).messages@[old(session).messages@.len() as int + 1];
            &&& answer.role@ == "assistant"@
            &&& answer.content@ == assistant_message@
            &&& answer.generation_ms == generation_ms
            &&& answer.attachments@ == Seq::<Attachment>::empty()
        }),
{
    if char_count(session.title.as_str()) == 0 {
        let written = trim(user_message);
        if char_count(written.as_str()) == 0 && user_attachments.len() > 0 {
            session.title = derive_title(user_attachments[0].name.as_str());
        } else {
            session.title = derive_title(user_message);
        }
    }
    session.messages.push(
        SessionMessage {
            role: "user".to_owned(),
            content: user_message.to_owned(),
            generation_ms: None,
            attachments: user_attachments,
        },
    );
    session.messages.push(
        SessionMessage {
            role: "assistant".to_owned(),
            content: assistant_message.to_owned(),
            generation_ms,
            attachments: Vec::new(),
        },
    );
    session.updated_at = now;
    assert(session.messages@.take(old(session).messages@.len() as int) =~= old(session).messages@);
}

/// Whether a server that still runs uses a session: the identifier is one, the
/// session was marked, and the process of that number was started when the mark
/// says so. `running_since` is when the process of that number was started, if
/// there is one.
pub open spec fn in_use(
    id: Seq<char>,
    activity: Option<SessionActivity>,
    running_since: Option<u64>,
) -> bool {
    &&& ids::id_number(id) is Some
    &&& activity is Some
    &&& running_since == Some(activity->0.started_at)
}

/// Whether a server that still runs uses a session.
pub fn is_active(id: &str, activity: Option<SessionActivity>, running_since: Option<u64>) -> (r:
    bool)
    ensures
        r == in_use(id@, activity, running_since),
        r ==> activity is Some && running_since is Some && running_since->0
            == activity->0.started_at && ids::id_number(id@) is Some,
        ids::id_number(id@) is Some && activity is Some && running_since is Some
            && running_since->0 == activity->0.started_at ==> r,
{
    if parse_id(id).is_none() {
        return false;
    }
    match (activity, running_since) {
        (Some(a), Some(since)) => since == a.started_at,
        _ => false,
    }
}

/// What this process marks a session with; a start of zero where it is not known.
pub fn activity_mark(pid: u32, started: Option<u64>, now: u64) -> (r: SessionActivity)
    ensures
        r == (SessionActivity {
            pid,
            started_at: match started {
                Some(t) => t,
                None => 0,
            },
            updated_at: now,
        }),
{
    let started_at: u64 = match started {
        Some(t) => t,
        None => 0,
    };
    SessionActivity { pid, started_at, updated_at: now }
}

/// The rows of the sessions with messages, in the order in which they were found.
pub open spec fn used_rows(sessions: Seq<Session>) -> Seq<SummaryRow>
    decreases sessions.len(),
{
    if sessions.len() == 0 {
        Seq::empty()
    } else {
        let rest = used_rows(sessions.drop_last());
        let s = sessions.last();
        if s.messages@.len() == 0 {
            rest
        } else {
            rest.push(
                SummaryRow {
                    id: s.id@,
                    title: s.title@,
                    created_at: s.created_at,
                    updated_at: s.updated_at,
                },
            )
        }
    }
}

/// When each of the rows was last used.
pub open spec fn summary_keys(rows: Seq<SummaryRow>) -> Seq<u64> {
    rows.map_values(|r: SummaryRow| r.updated_at)
}

/// What a list of summaries says.
pub open spec fn summary_rows(list: Seq<SessionSummary>) -> Seq<SummaryRow> {
    list.map_values(|s: SessionSummary| s@)
}

/// Whether a list shows all rows, the last used first; what was used at the same
/// time stays in the order in which it was found.
pub open spec fn lists_summaries(rows: Seq<SummaryRow>, list: Seq<SessionSummary>) -> bool {
    exists|r: Seq<usize>|
        {
            &&& #[trigger] ranking::is_top(summary_keys(rows), rows.len(), r)
            &&& summary_rows(list) == Seq::new(rows.len(), |i: int| rows[r[i] as int])
        }
}

/// The list of sessions: those with messages, the last used first.
pub fn list_sessions(sessions: &Vec<Session>) -> (list: Vec<SessionSummary>)
    ensures
        lists_summaries(used_rows(sessions@), list@),
{
    let mut found: Vec<SessionSummary> = Vec::new();
    let mut keys: Vec<u64> = Vec::new();
    let mut i: usize = 0;
    assert(summary_rows(found@) =~= used_rows(sessions@.take(0)));
    while i < sessions.len()
        invariant
            i <= sessions.len(),
            found@.len() <= i,
            summary_rows(found@) == used_rows(sessions@.take(i as int)),
            keys@ == summary_keys(summary_rows(found@)),
        decreases sessions.len() - i,
    {
        let s = &sessions[i];
        assert(sessions@.take(i + 1).drop_last() =~= sessions@.take(i as int));
        if s.messages.len() > 0 {
            let ghost before = summary_rows(found@);
            found.push(
                SessionSummary {
                    id: s.id.clone(),
                    title: s.title.clone(),
                    created_at: s.created_at,
                    updated_at: s.updated_at,
                },
            );
            keys.push(s.updated_at);
            assert(summary_rows(found@) =~= before.push(found@.last()@));
            assert(keys@ =~= summary_keys(summary_rows(found@)));
        }
        i += 1;
    }
    assert(sessions@.take(sessions@.len() as int) =~= sessions@);
    let ghost rows = used_rows(sessions@);
    let order = ranking(keys.as_slice());
    let mut list: Vec<SessionSummary> = Vec::new();
    let mut k: usize = 0;
    while k < order.len()
        invariant
            k <= order.len(),
            rows == summary_rows(found@),
            order@.len() == rows.len(),
            forall|j: int| 0 <= j < order@.len() ==> (#[trigger] order@[j]) < rows.len(),
            list@.len() == k,
            forall|j: int| 0 <= j < k ==> (#[trigger] list@[j])@ == rows[order@[j] as int],
        decreases order.len() - k,
    {
        let s = &found[order[k]];
        assert(rows[order@[k as int] as int] == s@);
        list.push(
            SessionSummary {
                id: s.id.clone(),
                title: s.title.clone(),
                created_at: s.created_at,
                updated_at: s.updated_at,
            },
        );
        k += 1;
    }
    assert(summary_rows(list@) =~= Seq::new(rows.len(), |j: int| rows[order@[j] as int]));
    assert(ranking::is_top(summary_keys(rows), rows.len(), order@));
    list
}

/// The row of a directory: what its session says, or, where none could be read, its
/// name and when it was changed.
pub open spec fn prune_row(d: FoundSession) -> PruneRow {
    match d.session {
        Some(s) => PruneRow {
            id: s.id@,
            title: s.title@,
            updated_at: s.updated_at,
            message_count: s.messages@.len(),
            active: d.active,
        },
        None => PruneRow {
            id: d.name@,
            title: Seq::empty(),
            updated_at: d.modified,
            message_count: 0,
            active: d.active,
        },
    }
}

/// The rows of the directories that are named by an identifier, in the order in
/// which they were found.
pub open spec fn prune_found(dirs: Seq<FoundSession>) -> Seq<PruneRow>
    decreases dirs.len(),
{
    if dirs.len() == 0 {
        Seq::empty()
    } else {
        let rest = prune_found(dirs.drop_last());
        if ids::id_number(dirs.last().name@) is None {
            rest
        } else {
            rest.push(prune_row(dirs.last()))
        }
    }
}

/// When each of the rows was last used.
pub open spec fn prune_keys(rows: Seq<PruneRow>) -> Seq<u64> {
    rows.map_values(|r: PruneRow| r.updated_at)
}

/// What a list of entries says.
pub open spec fn prune_rows(list: Seq<PruneEntry>) -> Seq<PruneRow> {
    list.map_values(|e: PruneEntry| e@)
}

/// Whether a list shows all rows, the last used first.
pub open spec fn lists_entries(rows: Seq<PruneRow>, list: Seq<PruneEntry>) -> bool {
    exists|r: Seq<usize>|
        {
            &&& #[trigger] ranking::is_top(prune_keys(rows), rows.len(), r)
            &&& prune_rows(list) == Seq::new(rows.len(), |i: int| rows[r[i] as int])
        }
}

/// The entry of a directory.
fn prune_entry(d: &FoundSession) -> (e: PruneEntry)
    ensures
        e@ == prune_row(*d),
{
    match &d.session {
        Some(s) => PruneEntry {
            id: s.id.clone(),
            title: s.title.clone(),
            updated_at: s.updated_at,
            message_count: s.messages.len(),
            active: d.active,
        },
        None => PruneEntry {
            id: d.name.clone(),
            title: String::new(),
            updated_at: d.modified,
            message_count: 0,
            active: d.active,
        },
    }
}

/// The list of sessions that may be deleted: all that are named by an identifier,
/// the last used first.
pub fn list_sessions_for_prune(dirs: &Vec<FoundSession>) -> (list: Vec<PruneEntry>)
    ensures
        lists_entries(prune_found(dirs@), list@),
{
    let mut found: Vec<PruneEntry> = Vec::new();
    let mut keys: Vec<u64> = Vec::new();
    let mut i: usize = 0;
    assert(prune_rows(found@) =~= prune_found(dirs@.take(0)));
    while i < dirs.len()
        invariant
            i <= dirs.len(),
            found@.len() <= i,
            prune_rows(found@) == prune_found(dirs@.take(i as int)),
            keys@ == prune_keys(prune_rows(found@)),
        decreases dirs.len() - i,
    {
        assert(dirs@.take(i + 1).drop_last() =~= dirs@.take(i as int));
        if parse_id(dirs[i].name.as_str()).is_some() {
            let entry = prune_entry(&dirs[i]);
            let ghost before = prune_rows(found@);
            keys.push(entry.updated_at);
            found.push(entry);
            assert(prune_rows(found@) =~= before.push(found@.last()@));
            assert(keys@ =~= prune_keys(prune_rows(found@)));
        }
        i += 1;
    }
    assert(dirs@.take(dirs@.len() as int) =~= dirs@);
    let ghost rows = prune_found(dirs@);
    let order = ranking(keys.as_slice());
    let mut list: Vec<PruneEntry> = Vec::new();
    let mut k: usize = 0;
    while k < order.len()
        invariant
            k <= order.len(),
            rows == prune_rows(found@),
            order@.len() == rows.len(),
            forall|j: int| 0 <= j < order@.len() ==> (#[trigger] order@[j]) < rows.len(),
            list@.len() == k,
            forall|j: int| 0 <= j < k ==> (#[trigger] list@[j])@ == rows[order@[j] as int],
        decreases order.len() - k,
    {
        let e = &found[order[k]];
        assert(rows[order@[k as int] as int] == e@);
        list.push(
            PruneEntry {
                id: e.id.clone(),
                title: e.title.clone(),
                updated_at: e.updated_at,
                message_count: e.message_count,
                active: e.active,
            },
        );
        k += 1;
    }
    assert(prune_rows(list@) =~= Seq::new(rows.len(), |j: int| rows[order@[j] as int]));
    assert(ranking::is_top(prune_keys(rows), rows.len(), order@));
    list
}

/// Whether a directory is swept away: it is named by an identifier, no running
/// server uses it, and no message can be read from it.
pub open spec fn is_swept(d: FoundSession) -> bool {
    &&& ids::id_number(d.name@) is Some
    &&& !d.active
    &&& d.session is Some ==> d.session->0.messages@.len() == 0
}

/// The names of the directories that are swept away.
pub open spec fn swept_names(dirs: Seq<FoundSession>) -> Seq<Seq<char>>
    decreases dirs.len(),
{
    if dirs.len() == 0 {
        Seq::empty()
    } else if is_swept(dirs.last()) {
        swept_names(dirs.drop_last()).push(dirs.last().name@)
    } else {
        swept_names(dirs.drop_last())
    }
}

/// The names of the directories that are swept away.
pub fn sweep_empty_sessions(dirs: &Vec<FoundSession>) -> (names: Vec<String>)
    ensures
        text::texts(names@) == swept_names(dirs@),
{
    let mut names: Vec<String> = Vec::new();
    let mut i: usize = 0;
    assert(text::texts(names@) =~= swept_names(dirs@.take(0)));
    while i < dirs.len()
        invariant
            i <= dirs.len(),
            text::texts(names@) == swept_names(dirs@.take(i as int)),
        decreases dirs.len() - i,
    {
        let d = &dirs[i];
        assert(dirs@.take(i + 1).drop_last() =~= dirs@.take(i as int));
        let empty: bool = match &d.session {
            Some(s) => s.messages.len() == 0,
            None => true,
        };
        if parse_id(d.name.as_str()).is_some() && !d.active && empty {
            let ghost before = text::texts(names@);
            names.push(d.name.clone());
            assert(text::texts(names@) =~= before.push(d.name@));
        }
        i += 1;
    }
    assert(dirs@.take(dirs@.len() as int) =~= dirs@);
    names
}

/// A session that a running server uses is never swept away, nor one with
/// messages.
pub proof fn used_sessions_stay(d: FoundSession)
    requires
        d.active || (d.session is Some && d.session->0.messages@.len() > 0),
    ensures
        !is_swept(d),
{
}

/// A title has at most sixty-one characters.
pub proof fn titles_are_short(t: Seq<char>)
    ensures
        title_of(t).len() <= 61,
{
}

/// However a session is asked for, it lies in the directory that it was saved in.
pub proof fn sessions_are_found_again(id: u128, asked: Seq<char>)
    requires
        ids::id_number(asked) == Some(id as nat),
    ensures
        dir_name(ids::id_text(id)) == Some(ids::id_text(id)),
        dir_name(asked) == dir_name(ids::id_text(id)),
{
    ids::ids_read_back(id);
}

/// A title is what was written without the white space around it, as far as sixty characters
/// go; where there are more, a sign follows them.
pub proof fn titles_are_cut_after_sixty(t: Seq<char>)
    requires
        t.len() > 0,
        !text::is_white(t[0]),
        !text::is_white(t.last()),
    ensures
        t.len() <= 60 ==> title_of(t) == t,
        t.len() > 60 ==> title_of(t) == t.take(60) + seq!['…'],
{
    assert(text::trimmed(t) == t);
    if t.len() > 60 {
        assert(t.take(60).push('…') =~= t.take(60) + seq!['…']);
    }
}

/// A session is named after what was written, and after the first file where nothing was.
pub proof fn titles_come_from_what_was_written(message: Seq<char>, attachments: Seq<Attachment>)
    ensures
        text::trimmed(message).len() > 0 ==> title_seed(message, attachments) == message,
        attachments.len() == 0 ==> title_seed(message, attachments) == message,
        text::trimmed(message).len() == 0 && attachments.len() > 0 ==> title_seed(
            message,
            attachments,
        ) == attachments[0].name@,
{
}

/// A session has a row in the list exactly where it has messages.
pub proof fn sessions_with_messages_have_rows(sessions: Seq<Session>, s: Session)
    ensures
        used_rows(Seq::empty()) == Seq::<SummaryRow>::empty(),
        s.messages@.len() == 0 ==> used_rows(sessions.push(s)) == used_rows(sessions),
        s.messages@.len() > 0 ==> {
            let rows = used_rows(sessions.push(s));
            &&& rows.drop_last() == used_rows(sessions)
            &&& rows.last().id == s.id@
            &&& rows.last().title == s.title@
            &&& rows.last().created_at == s.created_at
            &&& rows.last().updated_at == s.updated_at
        },
{
    assert(sessions.push(s).drop_last() =~= sessions);
    if s.messages@.len() > 0 {
        assert(used_rows(sessions.push(s)).drop_last() =~= used_rows(sessions));
    }
}

/// The list of sessions goes from the last used to the first, and holds every row.
pub proof fn the_last_used_is_listed_first(
    rows: Seq<SummaryRow>,
    list: Seq<SessionSummary>,
    i: int,
    j: int,
    a: int,
)
    requires
        lists_summaries(rows, list),
        0 <= i < j < list.len(),
        0 <= a < rows.len() <= usize::MAX,
    ensures
        list.len() == rows.len(),
        list[i].updated_at >= list[j].updated_at,
        exists|k: int| 0 <= k < list.len() && (#[trigger] list[k])@ == rows[a],
{
    let r = choose|r: Seq<usize>|
        {
            &&& #[trigger] ranking::is_top(summary_keys(rows), rows.len(), r)
            &&& summary_rows(list) == Seq::new(rows.len(), |i: int| rows[r[i] as int])
        };
    let shown = summary_rows(list);
    assert(shown.len() == list.len());
    assert(shown[i] == list[i]@ && shown[j] == list[j]@);
    ranking::the_greatest_come_first(summary_keys(rows), rows.len(), r, i, j, a);
    ranking::all_are_ranked(summary_keys(rows), r, a);
    let k = choose|k: int| 0 <= k < r.len() && r[k] == a as usize;
    assert(shown[k] == list[k]@);
}

/// A directory has a row in the list of what may be deleted exactly where it is named by an
/// identifier: that of its session, and where there is none one that tells its name.
pub proof fn named_directories_have_rows(dirs: Seq<FoundSession>, d: FoundSession)
    ensures
        prune_found(Seq::empty()) == Seq::<PruneRow>::empty(),
        ids::id_number(d.name@) is None ==> prune_found(dirs.push(d)) == prune_found(dirs),
        ids::id_number(d.name@) is Some ==> {
            let rows = prune_found(dirs.push(d));
            let row = rows.last();
            &&& rows.drop_last() == prune_found(dirs)
            &&& row.active == d.active
            &&& d.session is Some ==> row.id == d.session->0.id@ && row.title == d.session->0.title@
                && row.updated_at == d.session->0.updated_at && row.message_count
                == d.session->0.messages@.len()
            &&& d.session is None ==> row.id == d.name@ && row.title.len() == 0 && row.updated_at
                == d.modified && row.message_count == 0
        },
{
    assert(dirs.push(d).drop_last() =~= dirs);
    if ids::id_number(d.name@) is Some {
        assert(prune_found(dirs.push(d)).drop_last() =~= prune_found(dirs));
    }
}

/// The list of what may be deleted goes from the last used to the first, and holds every row.
pub proof fn the_last_used_may_be_deleted_first(
    rows: Seq<PruneRow>,
    list: Seq<PruneEntry>,
    i: int,
    j: int,
    a: int,
)
    requires
        lists_entries(rows, list),
        0 <= i < j < list.len(),
        0 <= a < rows.len() <= usize::MAX,
    ensures
        list.len() == rows.len(),
        list[i].updated_at >= list[j].updated_at,
        exists|k: int| 0 <= k < list.len() && (#[trigger] list[k])@ == rows[a],
{
    let r = choose|r: Seq<usize>|
        {
            &&& #[trigger] ranking::is_top(prune_keys(rows), rows.len(), r)
            &&& prune_rows(list) == Seq::new(rows.len(), |i: int| rows[r[i] as int])
        };
    let shown = prune_rows(list);
    assert(shown.len() == list.len());
    assert(shown[i] == list[i]@ && shown[j] == list[j]@);
    ranking::the_greatest_come_first(prune_keys(rows), rows.len(), r, i, j, a);
    ranking::all_are_ranked(prune_keys(rows), r, a);
    let k = choose|k: int| 0 <= k < r.len() && r[k] == a as usize;
    assert(shown[k] == list[k]@);
}

/// What is swept away is every directory that is named by an identifier, that no running
/// server uses and that holds no message, in the order in which they were found.
pub proof fn idle_empty_sessions_are_swept(dirs: Seq<FoundSession>, d: FoundSession)
    ensures
        swept_names(Seq::empty()) == Seq::<Seq<char>>::empty(),
        ids::id_number(d.name@) is Some && !d.active && (d.session is None
            || d.session->0.messages@.len() == 0) ==> swept_names(dirs.push(d)) == swept_names(
            dirs,
        ).push(d.name@),
        ids::id_number(d.name@) is None || d.active || (d.session is Some
            && d.session->0.messages@.len() > 0) ==> swept_names(dirs.push(d)) == swept_names(dirs),
{
    assert(dirs.push(d).drop_last() =~= dirs);
}

} // verus!
