//! A session as the console shows it.

use vstd::prelude::*;

use crate::text::same_text;
use crate::web::sessions::{Attachment, Session, SessionMessage};

verus! {

/// A diagram that was drawn out of a file: for a light and for a dark page, the text
/// that it was drawn from, and its size as the bits of double-precision values.
#[derive(Debug)]
pub struct DiagramView {
    pub light: String,
    pub dark: String,
    pub source: String,
    pub width: u64,
    pub height: u64,
}

/// A file as the console shows it.
#[derive(Debug)]
pub struct AttachmentView {
    pub name: String,
    pub mime: String,
    pub size: u64,
    pub text: Option<String>,
    pub diagrams: Vec<DiagramView>,
    pub diagrams_capped: bool,
}

/// A message as the console shows it.
#[derive(Debug)]
pub struct SessionMessageView {
    pub role: String,
    pub content: String,
    pub html: Option<String>,
    pub generation_ms: Option<u64>,
    pub attachments: Vec<AttachmentView>,
}

/// A session as the console shows it.
#[derive(Debug)]
pub struct SessionView {
    pub id: String,
    pub created_at: u64,
    pub updated_at: u64,
    pub title: String,
    pub messages: Vec<SessionMessageView>,
}

/// The diagrams that were drawn out of a file, and how many the file held.
#[derive(Debug)]
pub struct Found {
    pub diagrams: Vec<DiagramView>,
    pub held: usize,
}

/// What only the outside can make of a message: its content as a page, and what was
/// found in each of its files.
#[derive(Debug)]
pub struct Drawn {
    pub html: Option<String>,
    pub found: Vec<Found>,
}

/// Whether a message is shown as a page: those of the model are.
pub open spec fn is_page(role: Seq<char>) -> bool {
    role == "assistant"@
}

/// Whether a message is shown as a page.
pub fn is_rendered(message: &SessionMessage) -> (r: bool)
    ensures
        r == is_page(message.role@),
        r <==> message.role@ == "assistant"@,
{
    same_text(message.role.as_str(), "assistant")
}

/// A file as the console shows it, with the diagrams that were drawn out of it. They are
/// said to be cut off where the file held more than `most`.
pub open spec fn file_view(a: Attachment, found: Found, most: usize) -> AttachmentView {
    AttachmentView {
        name: a.name,
        mime: a.mime,
        size: a.size,
        text: a.text,
        diagrams: found.diagrams,
        diagrams_capped: found.held > most,
    }
}

/// A file as the console shows it, with the diagrams that were found in it.
pub fn attachment_view(attachment: Attachment, found: Found, most: usize) -> (r: AttachmentView)
    ensures
        r == file_view(attachment, found, most),
        r.name == attachment.name,
        r.mime == attachment.mime,
        r.size == attachment.size,
        r.text == attachment.text,
        r.diagrams == found.diagrams,
        r.diagrams_capped <==> found.held > most,
{
    AttachmentView {
        name: attachment.name,
        mime: attachment.mime,
        size: attachment.size,
        text: attachment.text,
        diagrams: found.diagrams,
        diagrams_capped: found.held > most,
    }
}

/// Whether views show files, each with the diagrams that were found in it.
pub open spec fn shows_files(
    v: Seq<AttachmentView>,
    files: Seq<Attachment>,
    found: Seq<Found>,
    most: usize,
) -> bool {
    &&& v.len() == files.len()
    &&& forall|i: int|
        0 <= i < files.len() ==> #[trigger] v[i] == file_view(files[i], found[i], most)
}

/// Whether a view shows a message: with a page where it is the model's, with its
/// files, and otherwise as it is.
pub open spec fn shows_message(
    v: SessionMessageView,
    m: SessionMessage,
    drawn: Drawn,
    most: usize,
) -> bool {
    &&& v.role == m.role
    &&& v.content == m.content
    &&& v.generation_ms == m.generation_ms
    &&& v.html == (if is_page(m.role@) {
        drawn.html
    } else {
        None
    })
    &&& shows_files(v.attachments@, m.attachments@, drawn.found@, most)
}

/// Whether what was drawn belongs to a message: something was found, be it nothing, in
/// each file.
pub open spec fn is_drawn(m: SessionMessage, drawn: Drawn) -> bool {
    drawn.found@.len() == m.attachments@.len()
}

/// The files of a message as the console shows them.
fn file_views(files: Vec<Attachment>, found: Vec<Found>, most: usize) -> (r: Vec<AttachmentView>)
    requires
        found@.len() == files@.len(),
    ensures
        shows_files(r@, files@, found@, most),
{
    let ghost all_files = files@;
    let ghost all_found = found@;
    let mut files = files;
    let mut found = found;
    let mut out: Vec<AttachmentView> = Vec::new();
    assert(files@ =~= all_files.skip(0));
    assert(found@ =~= all_found.skip(0));
    while files.len() > 0
        invariant
            all_found.len() == all_files.len(),
            out@.len() + files@.len() == all_files.len(),
            files@ == all_files.skip(out@.len() as int),
            found@ == all_found.skip(out@.len() as int),
            forall|i: int|
                0 <= i < out@.len() ==> #[trigger] out@[i] == file_view(
                    all_files[i],
                    all_found[i],
                    most,
                ),
        decreases files.len(),
    {
        let ghost n = out@.len() as int;
        assert(files@[0] == all_files[n]);
        assert(found@[0] == all_found[n]);
        let file = files.remove(0);
        let own = found.remove(0);
        out.push(attachment_view(file, own, most));
        assert(files@ =~= all_files.skip(n + 1));
        assert(found@ =~= all_found.skip(n + 1));
    }
    out
}

/// A message as the console shows it.
pub fn message_view(message: SessionMessage, drawn: Drawn, most: usize) -> (r: SessionMessageView)
    requires
        is_drawn(message, drawn),
    ensures
        shows_message(r, message, drawn, most),
        r.role == message.role,
        r.content == message.content,
        r.generation_ms == message.generation_ms,
        message.role@ == "assistant"@ ==> r.html == drawn.html,
        message.role@ != "assistant"@ ==> r.html is None,
        r.attachments@.len() == message.attachments@.len(),
        forall|i: int|
            0 <= i < r.attachments@.len() ==> (#[trigger] r.attachments@[i]).name
                == message.attachments@[i].name && r.attachments@[i].mime
                == message.attachments@[i].mime && r.attachments@[i].size
                == message.attachments@[i].size && r.attachments@[i].text
                == message.attachments@[i].text && r.attachments@[i].diagrams
                == drawn.found@[i].diagrams && (r.attachments@[i].diagrams_capped
                <==> drawn.found@[i].held > most),
{
    let page: bool = is_rendered(&message);
    SessionMessageView {
        role: message.role,
        content: message.content,
        html: if page {
            drawn.html
        } else {
            None
        },
        generation_ms: message.generation_ms,
        attachments: file_views(message.attachments, drawn.found, most),
    }
}

/// A session as the console shows it, with what was drawn of each message.
pub fn session_view(session: Session, drawn: Vec<Drawn>, most: usize) -> (r: SessionView)
    requires
        drawn@.len() == session.messages@.len(),
        forall|i: int|
            0 <= i < drawn@.len() ==> is_drawn(session.messages@[i], #[trigger] drawn@[i]),
    ensures
        r.id == session.id,
        r.created_at == session.created_at,
        r.updated_at == session.updated_at,
        r.title == session.title,
        r.messages@.len() == session.messages@.len(),
        forall|i: int|
            0 <= i < r.messages@.len() ==> shows_message(
                #[trigger] r.messages@[i],
                session.messages@[i],
                drawn@[i],
                most,
            ),
{
    let ghost all = session.messages@;
    let ghost all_drawn = drawn@;
    let mut messages = session.messages;
    let mut drawn = drawn;
    let mut out: Vec<SessionMessageView> = Vec::new();
    assert(messages@ =~= all.skip(0));
    assert(drawn@ =~= all_drawn.skip(0));
    while messages.len() > 0
        invariant
            all_drawn.len() == all.len(),
            forall|i: int|
                0 <= i < all_drawn.len() ==> is_drawn(all[i], #[trigger] all_drawn[i]),
            out@.len() + messages@.len() == all.len(),
            messages@ == all.skip(out@.len() as int),
            drawn@ == all_drawn.skip(out@.len() as int),
            forall|i: int|
                0 <= i < out@.len() ==> shows_message(
                    #[trigger] out@[i],
                    all[i],
                    all_drawn[i],
                    most,
                ),
        decreases messages.len(),
    {
        let ghost n = out@.len() as int;
        assert(messages@[0] == all[n]);
        assert(drawn@[0] == all_drawn[n]);
        let message = messages.remove(0);
        let own = drawn.remove(0);
        out.push(message_view(message, own, most));
        assert(messages@ =~= all.skip(n + 1));
        assert(drawn@ =~= all_drawn.skip(n + 1));
    }
    SessionView {
        id: session.id,
        created_at: session.created_at,
        updated_at: session.updated_at,
        title: session.title,
        messages: out,
    }
}

} // verus!
