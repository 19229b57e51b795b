//! Configuration of the Nostr channel, of ContextVM and of MCP servers.

use crate::text::texts;
use crate::text_map::TextMap;
use vstd::prelude::*;

verus! {

/// Name of the configuration directory under the home directory.
pub const APP_DIR_NAME: &'static str = ".snowclaw";

/// Nostr channel configuration.
pub struct NostrConfig {
    /// Secret key (`nsec1...` or hex).
    pub nsec: Option<String>,
    /// Relay URLs.
    pub relays: Vec<String>,
    /// Senders that are listened to (hex or npub). Empty = none, "*" = all.
    pub allowed_pubkeys: Vec<String>,
    /// The owner's key (hex or npub).
    pub owner: Option<String>,
    /// Groups to join.
    pub groups: Vec<String>,
    /// How to respond: "always" | "mention_only" | "never".
    pub respond_mode: String,
    /// Modes by group.
    pub group_respond_mode: TextMap<String>,
    /// Names that count as a mention.
    pub mention_names: Vec<String>,
    /// Whether to listen for direct messages.
    pub listen_dms: bool,
    /// Number of recent messages that are given as context.
    pub context_history: usize,
}

impl NostrConfig {
    /// Name of the channel.
    pub fn name() -> (r: &'static str)
        ensures
            r@ == "Nostr"@,
    {
        "Nostr"
    }

    /// What the channel is for.
    pub fn desc() -> (r: &'static str)
        ensures
            r@ == "Nostr DMs"@,
    {
        "Nostr DMs"
    }
}

/// The mode where none is configured.
pub fn default_respond_mode() -> (r: String)
    ensures
        r@ == "mention_only"@,
{
    "mention_only".to_owned()
}

/// The number of messages given as context where none is configured.
pub fn default_context_history() -> (r: usize)
    ensures
        r == 10,
{
    10
}

/// Direct messages are listened to where nothing is configured.
pub fn default_true() -> (r: bool)
    ensures
        r,
{
    true
}

/// The relays where none are configured.
pub fn default_nostr_relays() -> (r: Vec<String>)
    ensures
        texts(r@) == seq![
            "wss://relay.damus.io"@,
            "wss://nos.lol"@,
            "wss://relay.primal.net"@,
            "wss://relay.snort.social"@,
        ],
{
    let mut r: Vec<String> = Vec::new();
    r.push("wss://relay.damus.io".to_owned());
    r.push("wss://nos.lol".to_owned());
    r.push("wss://relay.primal.net".to_owned());
    r.push("wss://relay.snort.social".to_owned());
    assert(texts(r@) =~= seq![
        "wss://relay.damus.io"@,
        "wss://nos.lol"@,
        "wss://relay.primal.net"@,
        "wss://relay.snort.social"@,
    ]);
    r
}

/// ContextVM (MCP over Nostr) configuration.
#[derive(Debug)]
pub struct ContextVmEntry {
    /// Whether servers are discovered and their tools registered.
    pub enabled: bool,
    /// Relays to look on.
    pub relays: Vec<String>,
    /// The only servers whose tools are taken, if any are given.
    pub servers: Vec<String>,
    /// Seconds until a call is given up.
    pub timeout_secs: u64,
}

/// Seconds until a call is given up where nothing is configured.
pub fn default_contextvm_timeout() -> (r: u64)
    ensures
        r == 30,
{
    30
}

/// A local MCP server in the configuration.
pub struct McpServerEntry {
    /// Name, which the names of its tools begin with.
    pub name: String,
    /// Transport: "stdio" or "sse".
    pub transport: String,
    /// Command to spawn (stdio transport).
    pub command: Option<String>,
    /// Arguments of the command.
    pub args: Vec<String>,
    /// Environment variables of the process.
    pub env: TextMap<String>,
    /// Working directory of the process.
    pub working_dir: Option<String>,
    /// URL (SSE transport).
    pub url: Option<String>,
}

/// The transport where none is configured.
pub fn default_mcp_transport() -> (r: String)
    ensures
        r@ == "stdio"@,
{
    "stdio".to_owned()
}

/// Minutes between two runs of the file indexer where nothing is configured.
pub fn default_index_interval_minutes() -> (r: u64)
    ensures
        r == 30,
{
    30
}

/// Whether costs are tracked where nothing is configured.
pub fn default_cost_enabled() -> (r: bool)
    ensures
        r,
{
    true
}

/// Base URL of the Pinchtab HTTP API where none is configured.
pub fn default_pinchtab_url() -> (r: String)
    ensures
        r@ == "http://127.0.0.1:9867"@,
{
    "http://127.0.0.1:9867".to_owned()
}

} // verus!
