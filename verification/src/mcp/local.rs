//! Local MCP servers: child processes, and servers behind an HTTP address.

use crate::text::space::{trim, trimmed};
use crate::text::{opt_text, str_eq};
use crate::text_map::TextMap;
use vstd::prelude::*;

verus! {

/// A server that is started as a child process.
pub struct McpServerConfig {
    pub name: String,
    pub command: String,
    pub args: Vec<String>,
    pub env: TextMap<String>,
    pub working_dir: Option<String>,
}

/// A server behind an HTTP address.
#[derive(Debug)]
pub struct McpSseConfig {
    pub name: String,
    pub url: String,
}

/// What a line from a server holds; nothing where it is blank.
pub fn response_line(line: &str) -> (r: Option<String>)
    ensures
        opt_text(r) == (if trimmed(line@).len() == 0 {
            None
        } else {
            Some(trimmed(line@))
        }),
{
    let t = trim(line);
    proof {
        reveal_strlit("");
        assert(t@.len() == 0 ==> t@ =~= ""@);
    }
    if str_eq(t.as_str(), "") {
        None
    } else {
        Some(t)
    }
}

/// Why a child process is missing.
pub fn spawn_failure(command: &str) -> (r: String)
    ensures
        r@ == "Failed to spawn MCP server: "@ + command@,
{
    let mut r = String::from_str("Failed to spawn MCP server: ");
    r.append(command);
    r
}

/// Why a request to an HTTP address did not go out.
pub fn post_failure(endpoint: &str) -> (r: String)
    ensures
        r@ == "MCP SSE POST to "@ + endpoint@,
{
    let mut r = String::from_str("MCP SSE POST to ");
    r.append(endpoint);
    r
}

/// Why a request to an HTTP address failed, given the status line and what came with it.
pub fn status_failure(status: &str, body: &str) -> (r: String)
    ensures
        r@ == "MCP SSE error "@ + status@ + ": "@ + body@,
{
    let mut r = String::from_str("MCP SSE error ");
    r.append(status);
    r.append(": ");
    r.append(body);
    r
}

} // verus!
