//! What the arguments and the configuration ask for.

use vstd::prelude::*;

use crate::role::Role;
use crate::text;
use crate::text::{ends_with, push_decimal, same_text};

verus! {

/// The number of entries in the pool of finished requests.
pub const PREFIX_CACHE_ENTRIES: usize = 4;

/// The section of the configuration that the server reads.
pub const SERVER_SECTION: &'static str = "orangu-server";

/// What is said where there is no configuration.
pub const MISSING_CONFIG: &'static str =
    "Missing config file; pass --config or add ./orangu-server.conf or ~/.orangu/orangu-server.conf (see --init)";

/// The flags that name a role.
#[derive(Debug, Clone, Copy, PartialEq, Eq, Structural)]
pub struct RoleFlags {
    pub all: bool,
    pub code: bool,
    pub review: bool,
    pub explorer: bool,
    pub embedding: bool,
}

impl RoleFlags {
    /// Whether the flag of a role is set.
    pub open spec fn is_set(self, role: Role) -> bool {
        match role {
            Role::All => self.all,
            Role::Code => self.code,
            Role::Review => self.review,
            Role::Explorer => self.explorer,
            Role::Embedding => self.embedding,
        }
    }

    /// The first role in their order whose flag is set.
    pub open spec fn first_set(self) -> Option<Role> {
        if self.all {
            Some(Role::All)
        } else if self.code {
            Some(Role::Code)
        } else if self.review {
            Some(Role::Review)
        } else if self.explorer {
            Some(Role::Explorer)
        } else if self.embedding {
            Some(Role::Embedding)
        } else {
            None
        }
    }

    /// The role that the flags name; none where no flag is set, so that the
    /// configuration can say.
    pub fn role(&self) -> (r: Option<Role>)
        ensures
            r == self.first_set(),
            self.all ==> r == Some(Role::All),
            !self.all && self.code ==> r == Some(Role::Code),
            !self.all && !self.code && self.review ==> r == Some(Role::Review),
            !self.all && !self.code && !self.review && self.explorer ==> r == Some(
                Role::Explorer,
            ),
            !self.all && !self.code && !self.review && !self.explorer && self.embedding ==> r
                == Some(Role::Embedding),
    {
        if self.all {
            Some(Role::All)
        } else if self.code {
            Some(Role::Code)
        } else if self.review {
            Some(Role::Review)
        } else if self.explorer {
            Some(Role::Explorer)
        } else if self.embedding {
            Some(Role::Embedding)
        } else {
            None
        }
    }
}

/// A role comes of the flags exactly where one is set, and a flag that is set alone
/// gives its own role.
pub proof fn a_flag_gives_its_role(flags: RoleFlags, role: Role)
    ensures
        flags.first_set() is Some <==> (flags.all || flags.code || flags.review || flags.explorer
            || flags.embedding),
        flags.first_set() is Some ==> flags.is_set(flags.first_set()->0),
        (flags.is_set(role) && forall|other: Role| other != role ==> !#[trigger] flags.is_set(
            other,
        )) ==> flags.first_set() == Some(role),
{
    if flags.first_set() is Some && flags.first_set()->0 != role {
        assert(flags.is_set(flags.first_set()->0));
    }
}

/// A shell that completions exist for.
#[derive(Debug, Clone, Copy, PartialEq, Eq, Structural)]
pub enum Shell {
    Bash,
    Zsh,
    Fish,
}

/// Whether the path of a shell names it: by itself, or at its end.
pub open spec fn names_shell(path: Seq<char>, name: Seq<char>) -> bool {
    path == name || text::has_suffix(path, "/"@ + name)
}

/// The shell at a path.
pub open spec fn shell_of(path: Seq<char>) -> Option<Shell> {
    if names_shell(path, "bash"@) {
        Some(Shell::Bash)
    } else if names_shell(path, "zsh"@) {
        Some(Shell::Zsh)
    } else if names_shell(path, "fish"@) {
        Some(Shell::Fish)
    } else {
        None
    }
}

/// The shell at a path.
pub fn detect_shell(path: &str) -> (r: Option<Shell>)
    ensures
        r == shell_of(path@),
{
    proof {
        reveal_strlit("/");
        reveal_strlit("bash");
        reveal_strlit("zsh");
        reveal_strlit("fish");
        reveal_strlit("/bash");
        reveal_strlit("/zsh");
        reveal_strlit("/fish");
        assert("/"@ + "bash"@ =~= "/bash"@);
        assert("/"@ + "zsh"@ =~= "/zsh"@);
        assert("/"@ + "fish"@ =~= "/fish"@);
    }
    if ends_with(path, "/bash") || same_text(path, "bash") {
        Some(Shell::Bash)
    } else if ends_with(path, "/zsh") || same_text(path, "zsh") {
        Some(Shell::Zsh)
    } else if ends_with(path, "/fish") || same_text(path, "fish") {
        Some(Shell::Fish)
    } else {
        None
    }
}

/// What is said of a shell that no completions exist for.
pub open spec fn unknown_shell_text(quoted: Seq<char>) -> Seq<char> {
    "could not detect shell from $SHELL ("@ + quoted
        + ").\nSupported shells: bash, zsh, fish.\n\nUsage:\n  bash: eval \"$(orangu-server -s)\"\n  zsh:  orangu-server -s > ~/.zsh/completions/_orangu-server\n  fish: orangu-server -s > ~/.config/fish/completions/orangu-server.fish"@
}

/// What is said of a shell that no completions exist for. `quoted` is its path in
/// quotes.
pub fn unknown_shell(quoted: &str) -> (r: String)
    ensures
        r@ == unknown_shell_text(quoted@),
{
    let mut s = "could not detect shell from $SHELL (".to_owned();
    s.append(quoted);
    s.append(
        ").\nSupported shells: bash, zsh, fish.\n\nUsage:\n  bash: eval \"$(orangu-server -s)\"\n  zsh:  orangu-server -s > ~/.zsh/completions/_orangu-server\n  fish: orangu-server -s > ~/.config/fish/completions/orangu-server.fish",
    );
    s
}

/// Where the model comes from.
#[derive(Debug)]
pub enum ModelSource {
    /// It is named.
    Named(String),
    /// It is asked for.
    Asked,
}

/// What is said where a server that runs in the background has no model to run.
pub open spec fn no_daemon_model_text() -> Seq<char> {
    "--daemon requires ["@ + SERVER_SECTION@
        + "].model to be set in the config file (see --init); there is no attached terminal to prompt on"@
}

/// Where the model comes from: in the background only from the configuration, else
/// from the arguments, or else by asking.
pub fn model_source(daemon: bool, configured: Option<String>, given: Option<String>) -> (r: Result<
    ModelSource,
    String,
>)
    ensures
        match r {
            Ok(ModelSource::Named(spec)) => if daemon {
                configured is Some && spec@ == configured->0@
            } else {
                given is Some && spec@ == given->0@
            },
            Ok(ModelSource::Asked) => !daemon && given is None,
            Err(e) => daemon && configured is None && e@ == no_daemon_model_text(),
        },
{
    if daemon {
        match configured {
            Some(spec) => Ok(ModelSource::Named(spec)),
            None => {
                let mut s = "--daemon requires [".to_owned();
                s.append(SERVER_SECTION);
                s.append(
                    "].model to be set in the config file (see --init); there is no attached terminal to prompt on",
                );
                Err(s)
            },
        }
    } else {
        match given {
            Some(spec) => Ok(ModelSource::Named(spec)),
            None => Ok(ModelSource::Asked),
        }
    }
}

/// Whether the role is asked for: where the model is, and no flag names one.
pub fn asks_for_role(source: &ModelSource, flag: Option<Role>) -> (r: bool)
    ensures
        r == (source is Asked && flag is None),
{
    match source {
        ModelSource::Asked => flag.is_none(),
        ModelSource::Named(_) => false,
    }
}

/// Whether steps of several sequences are collected into batches: where there is
/// more than one slot, and it is wanted.
pub fn batches_steps(slots: usize, wanted: bool) -> (r: bool)
    ensures
        r == (slots > 1 && wanted),
{
    slots > 1 && wanted
}

/// The address of a port.
pub open spec fn address_text(host: Seq<char>, port: nat) -> Seq<char> {
    host + ":"@ + text::decimal_text(port)
}

/// The address of a port.
pub fn address(host: &str, port: u16) -> (r: String)
    ensures
        r@ == address_text(host@, port as nat),
{
    let mut s = host.to_owned();
    s.append(":");
    push_decimal(&mut s, port as u64);
    s
}

/// The address of the console; none where its port is zero.
pub fn web_address(host: &str, port: u16) -> (r: Option<String>)
    ensures
        match r {
            Some(a) => port != 0 && a@ == address_text(host@, port as nat),
            None => port == 0,
        },
{
    if port == 0 {
        None
    } else {
        Some(address(host, port))
    }
}

/// What a server serves, and where.
#[derive(Debug)]
pub struct Banner {
    pub model_label: String,
    pub architecture: String,
    pub backend_label: String,
    pub n_layer: usize,
    pub n_ctx_train: usize,
    pub web_address: Option<String>,
    pub host: String,
    pub port: u16,
}

/// The lines that a server says when it has started.
pub open spec fn banner_text(b: Banner) -> Seq<char> {
    "Model  "@ + b.model_label@ + " ("@ + b.architecture@ + " arch, "@ + b.backend_label@ + ", "@
        + text::decimal_text(b.n_layer as nat) + " layers, "@ + text::decimal_text(
        b.n_ctx_train as nat,
    ) + " ctx)\n"@ + (match b.web_address {
        Some(a) => "UI     http://"@ + a@ + "\n"@,
        None => "UI     disabled\n"@,
    }) + "API    http://"@ + address_text(b.host@, b.port as nat) + "\n"@
}

/// The lines that a server says when it has started.
pub fn banner(b: &Banner) -> (r: String)
    ensures
        r@ == banner_text(*b),
{
    let mut s = "Model  ".to_owned();
    s.append(b.model_label.as_str());
    s.append(" (");
    s.append(b.architecture.as_str());
    s.append(" arch, ");
    s.append(b.backend_label.as_str());
    s.append(", ");
    push_decimal(&mut s, b.n_layer as u64);
    s.append(" layers, ");
    push_decimal(&mut s, b.n_ctx_train as u64);
    s.append(" ctx)\n");
    let ghost head = s@;
    match &b.web_address {
        Some(a) => {
            s.append("UI     http://");
            s.append(a.as_str());
            s.append("\n");
        },
        None => {
            s.append("UI     disabled\n");
        },
    }
    assert(s@ =~= head + (match b.web_address {
        Some(a) => "UI     http://"@ + a@ + "\n"@,
        None => "UI     disabled\n"@,
    }));
    s.append("API    http://");
    s.append(address(b.host.as_str(), b.port).as_str());
    s.append("\n");
    s
}

/// What sets the title of a terminal; an empty title takes it back.
pub open spec fn title_text(title: Seq<char>) -> Seq<char> {
    "\u{1b}]0;"@ + title + "\u{7}"@
}

/// What sets the title of a terminal.
pub fn terminal_title(title: &str) -> (r: String)
    ensures
        r@ == title_text(title@),
{
    let mut s = "\u{1b}]0;".to_owned();
    s.append(title);
    s.append("\u{7}");
    s
}

/// A path leads to a shell where its last part is that shell's name, whatever leads there, and
/// to none where it ends otherwise.
pub proof fn paths_end_in_their_shell(dir: Seq<char>)
    ensures
        shell_of(dir + "/bash"@) == Some(Shell::Bash),
        shell_of(dir + "/zsh"@) == Some(Shell::Zsh),
        shell_of(dir + "/fish"@) == Some(Shell::Fish),
        shell_of("bash"@) == Some(Shell::Bash),
        shell_of("zsh"@) == Some(Shell::Zsh),
        shell_of("fish"@) == Some(Shell::Fish),
        dir.len() > 0 && dir.last() != 'h' ==> shell_of(dir) is None,
{
    reveal_strlit("/");
    reveal_strlit("bash");
    reveal_strlit("zsh");
    reveal_strlit("fish");
    reveal_strlit("/bash");
    reveal_strlit("/zsh");
    reveal_strlit("/fish");
    let (b, z, f) = ("/bash"@, "/zsh"@, "/fish"@);
    assert("/"@ + "bash"@ =~= b);
    assert("/"@ + "zsh"@ =~= z);
    assert("/"@ + "fish"@ =~= f);
    assert((dir + b).skip(dir.len() as int) =~= b);
    assert((dir + z).skip(dir.len() as int) =~= z);
    assert((dir + f).skip(dir.len() as int) =~= f);
    last_of_suffix(dir + z, b);
    last_of_suffix(dir + f, b);
    last_of_suffix(dir + f, z);
    last_of_suffix(dir, b);
    last_of_suffix(dir, z);
    last_of_suffix(dir, f);
    assert("bash"@[3] == 'h' && "zsh"@[2] == 'h' && "fish"@[3] == 'h');
    assert((dir + z).last() == 'h' && (dir + z)[dir.len() as int] == '/');
    assert((dir + z)[dir.len() as int + 1] == 'z');
    assert((dir + f)[dir.len() as int + 2] == 'i');
    assert((dir + z) != "bash"@) by {
        if (dir + z) == "bash"@ {
            assert((dir + z)[dir.len() as int] == "bash"@[dir.len() as int]);
        }
    }
    assert((dir + f) != "bash"@ && (dir + f) != "zsh"@);
}

/// A text that ends with another has its last characters.
proof fn last_of_suffix(t: Seq<char>, s: Seq<char>)
    requires
        s.len() >= 4,
    ensures
        text::has_suffix(t, s) ==> t.last() == s.last() && t[t.len() - 2] == s[s.len() - 2] && t[
        t.len() - 3] == s[s.len() - 3] && t[t.len() - 4] == s[s.len() - 4],
{
    if text::has_suffix(t, s) {
        let tail = t.skip(t.len() - s.len());
        assert(tail[s.len() - 1] == t.last());
        assert(tail[s.len() - 2] == t[t.len() - 2]);
        assert(tail[s.len() - 3] == t[t.len() - 3]);
        assert(tail[s.len() - 4] == t[t.len() - 4]);
    }
}

} // verus!
