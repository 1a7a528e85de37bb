//! The tool servers that are configured, as the console shows them.

use vstd::prelude::*;

use crate::text::same_text;

verus! {

/// The status of an answer that finds nothing.
pub const NOT_FOUND: u16 = 404;

/// A tool server as it is configured.
#[derive(Debug)]
pub struct McpConfiguration {
    pub name: String,
    pub endpoint: String,
    pub enabled: bool,
    pub approval_mode: String,
}

/// A tool server as the console shows it.
#[derive(Debug)]
pub struct McpView {
    pub name: String,
    pub endpoint: String,
    pub enabled: bool,
    pub approval_mode: String,
}

/// Whether a view shows a configuration.
pub open spec fn shows(v: McpView, c: McpConfiguration) -> bool {
    &&& v.name@ == c.name@
    &&& v.endpoint@ == c.endpoint@
    &&& v.enabled == c.enabled
    &&& v.approval_mode@ == c.approval_mode@
}

/// Whether configuration `i` is the first of that name.
pub open spec fn is_first_named(list: Seq<McpConfiguration>, name: Seq<char>, i: int) -> bool {
    &&& 0 <= i < list.len()
    &&& list[i].name@ == name
    &&& forall|j: int| 0 <= j < i ==> (#[trigger] list[j]).name@ != name
}

/// A tool server as the console shows it.
pub fn mcp_view(c: &McpConfiguration) -> (v: McpView)
    ensures
        shows(v, *c),
        v.name@ == c.name@,
        v.endpoint@ == c.endpoint@,
        v.enabled == c.enabled,
        v.approval_mode@ == c.approval_mode@,
{
    McpView {
        name: c.name.clone(),
        endpoint: c.endpoint.clone(),
        enabled: c.enabled,
        approval_mode: c.approval_mode.clone(),
    }
}

/// All tool servers, in the order in which they are configured.
pub fn list(servers: &Vec<McpConfiguration>) -> (out: Vec<McpView>)
    ensures
        out@.len() == servers@.len(),
        forall|i: int| 0 <= i < out@.len() ==> shows(#[trigger] out@[i], servers@[i]),
        forall|i: int|
            0 <= i < out@.len() ==> (#[trigger] out@[i]).name@ == servers@[i].name@
                && out@[i].endpoint@ == servers@[i].endpoint@ && out@[i].enabled
                == servers@[i].enabled && out@[i].approval_mode@ == servers@[i].approval_mode@,
{
    let mut out: Vec<McpView> = Vec::new();
    let mut i: usize = 0;
    while i < servers.len()
        invariant
            i <= servers.len(),
            out@.len() == i,
            forall|j: int| 0 <= j < i ==> shows(#[trigger] out@[j], servers@[j]),
        decreases servers.len() - i,
    {
        out.push(mcp_view(&servers[i]));
        i += 1;
    }
    out
}

/// The tool server of that name; the first, where several have it. Where none has
/// it, the answer's status and text.
pub fn show(servers: &Vec<McpConfiguration>, name: &str) -> (r: Result<McpView, (u16, &'static str)>)
    ensures
        match r {
            Ok(v) => exists|i: int| #[trigger]
                is_first_named(servers@, name@, i) && shows(v, servers@[i]),
            Err((status, body)) => {
                &&& status == NOT_FOUND
                &&& body@ == "MCP server not found"@
                &&& forall|i: int|
                    0 <= i < servers@.len() ==> (#[trigger] servers@[i]).name@ != name@
            },
        },
        r is Err ==> (r->Err_0).0 == 404,
        forall|i: int|
            0 <= i < servers@.len() && (#[trigger] servers@[i]).name@ == name@ && (forall|j: int|
                0 <= j < i ==> (#[trigger] servers@[j]).name@ != name@) ==> r is Ok
                && r->Ok_0.name@ == name@ && r->Ok_0.endpoint@ == servers@[i].endpoint@
                && r->Ok_0.enabled == servers@[i].enabled && r->Ok_0.approval_mode@
                == servers@[i].approval_mode@,
{
    let mut i: usize = 0;
    while i < servers.len()
        invariant
            i <= servers.len(),
            forall|j: int| 0 <= j < i ==> (#[trigger] servers@[j]).name@ != name@,
        decreases servers.len() - i,
    {
        if same_text(servers[i].name.as_str(), name) {
            assert(is_first_named(servers@, name@, i as int));
            return Ok(mcp_view(&servers[i]));
        }
        i += 1;
    }
    Err((NOT_FOUND, "MCP server not found"))
}

} // verus!
