//! What a server was started for.

use vstd::prelude::*;

use crate::text::same_text;

verus! {

/// What a server was started for.
#[derive(Debug, Clone, Copy, PartialEq, Eq, Structural)]
pub enum Role {
    All,
    Code,
    Review,
    Explorer,
    Embedding,
}

impl Default for Role {
    fn default() -> (r: Self)
        ensures
            r == Role::All,
    {
        Role::All
    }
}

impl Role {
    /// The name of the role.
    pub open spec fn name(self) -> Seq<char> {
        match self {
            Role::All => "all"@,
            Role::Code => "code"@,
            Role::Review => "review"@,
            Role::Explorer => "explorer"@,
            Role::Embedding => "embedding"@,
        }
    }

    /// The roles in their order.
    pub open spec fn all() -> Seq<Role> {
        seq![Role::All, Role::Code, Role::Review, Role::Explorer, Role::Embedding]
    }

    /// Whether the role goes without reasoning.
    pub open spec fn without_reasoning(self) -> bool {
        self == Role::Review
    }

    /// The name of the role.
    pub fn label(self) -> (r: &'static str)
        ensures
            r@ == self.name(),
            self == Role::All ==> r@ == "all"@,
            self == Role::Code ==> r@ == "code"@,
            self == Role::Review ==> r@ == "review"@,
            self == Role::Explorer ==> r@ == "explorer"@,
            self == Role::Embedding ==> r@ == "embedding"@,
    {
        match self {
            Role::All => "all",
            Role::Code => "code",
            Role::Review => "review",
            Role::Explorer => "explorer",
            Role::Embedding => "embedding",
        }
    }

    /// The role of a name.
    pub fn parse(name: &str) -> (r: Option<Role>)
        ensures
            match r {
                Some(role) => role.name() == name@,
                None => forall|role: Role| #[trigger] role.name() != name@,
            },
            name@ == "all"@ ==> r == Some(Role::All),
            name@ == "code"@ ==> r == Some(Role::Code),
            name@ == "review"@ ==> r == Some(Role::Review),
            name@ == "explorer"@ ==> r == Some(Role::Explorer),
            name@ == "embedding"@ ==> r == Some(Role::Embedding),
    {
        proof {
            reveal_strlit("all");
            reveal_strlit("code");
            reveal_strlit("review");
            reveal_strlit("explorer");
            reveal_strlit("embedding");
            assert("all"@.len() == 3 && "code"@.len() == 4 && "review"@.len() == 6
                && "explorer"@.len() == 8 && "embedding"@.len() == 9);
        }
        if same_text(name, "all") {
            Some(Role::All)
        } else if same_text(name, "code") {
            Some(Role::Code)
        } else if same_text(name, "review") {
            Some(Role::Review)
        } else if same_text(name, "explorer") {
            Some(Role::Explorer)
        } else if same_text(name, "embedding") {
            Some(Role::Embedding)
        } else {
            None
        }
    }

    /// Whether the role answers requests for texts: all but the one for embeddings
    /// do.
    pub fn allows_generation(self) -> (r: bool)
        ensures
            r == (self != Role::Embedding),
    {
        match self {
            Role::Embedding => false,
            _ => true,
        }
    }

    /// Whether the role goes without reasoning.
    pub fn suppresses_reasoning(self) -> (r: bool)
        ensures
            r == self.without_reasoning(),
            r <==> self == Role::Review,
    {
        match self {
            Role::Review => true,
            _ => false,
        }
    }
}

/// No two roles have the same name.
pub proof fn role_names_differ(a: Role, b: Role)
    requires
        a.name() == b.name(),
    ensures
        a == b,
{
    reveal_strlit("all");
    reveal_strlit("code");
    reveal_strlit("review");
    reveal_strlit("explorer");
    reveal_strlit("embedding");
    assert(Role::All.name().len() == 3);
    assert(Role::Code.name().len() == 4);
    assert(Role::Review.name().len() == 6);
    assert(Role::Explorer.name().len() == 8);
    assert(Role::Embedding.name().len() == 9);
}

} // verus!
