//! What is kept of a panic until whoever caught it asks for it.

use vstd::prelude::*;

verus! {

/// The last panic of a thread, until it is taken.
#[derive(Debug)]
pub struct PanicStash {
    detail: Option<String>,
}

/// What is kept of a panic.
pub open spec fn detail_text(location: Seq<char>, message: Seq<char>, trace: Seq<char>) -> Seq<
    char,
> {
    "panicked at "@ + location + ":\n"@ + message + "\n\nbacktrace:\n"@ + trace
}

/// Where a panic came from; a stand-in where it does not say.
pub open spec fn place_text(location: Option<String>) -> Seq<char> {
    match location {
        Some(l) => l@,
        None => "<unknown location>"@,
    }
}

/// What a panic says; a stand-in where it is no text.
pub open spec fn payload_text(payload: Option<String>) -> Seq<char> {
    match payload {
        Some(p) => p@,
        None => "<non-string panic payload>"@,
    }
}

impl PanicStash {
    /// What is kept, if anything is.
    pub closed spec fn view(&self) -> Option<Seq<char>> {
        match self.detail {
            Some(d) => Some(d@),
            None => None,
        }
    }

    /// Nothing is kept.
    pub fn new() -> (r: Self)
        ensures
            r@ is None,
    {
        PanicStash { detail: None }
    }

    /// Keeps a panic, in place of what was kept before.
    pub fn record(&mut self, location: Option<String>, payload: Option<String>, trace: &str)
        ensures
            final(self)@ == Some(detail_text(place_text(location), payload_text(payload), trace@)),
    {
        let mut s = "panicked at ".to_owned();
        match location {
            Some(l) => {
                s.append(l.as_str());
            },
            None => {
                s.append("<unknown location>");
            },
        }
        s.append(":\n");
        match payload {
            Some(p) => {
                s.append(p.as_str());
            },
            None => {
                s.append("<non-string panic payload>");
            },
        }
        s.append("\n\nbacktrace:\n");
        s.append(trace);
        self.detail = Some(s);
    }
}

/// Takes what is kept of the last panic; nothing is kept then.
pub fn take_last_panic_detail(stash: &mut PanicStash) -> (r: Option<String>)
    ensures
        final(stash)@ is None,
        match r {
            Some(d) => old(stash)@ == Some(d@),
            None => old(stash)@ is None,
        },
{
    let mut detail: Option<String> = None;
    std::mem::swap(&mut detail, &mut stash.detail);
    detail
}

} // verus!
