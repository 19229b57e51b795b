//! Which MCP servers the agent connects to.

use crate::channels::snowclaw_channels::{keys_among, parse_keys};
use crate::config::snowclaw_schema::ContextVmEntry;
use crate::keys::{fresh_secret, secret_key_owner};
use crate::mcp::contextvm::ContextVmConfig;
use crate::mcp::local::{McpServerConfig, McpSseConfig};
use crate::text::{str_eq, texts};
use crate::text_map::TextMap;
use vstd::prelude::*;

verus! {

/// How a server is reached.
#[derive(Debug, Clone, Copy, PartialEq, Eq, Structural)]
pub enum ServerTransport {
    Stdio,
    Sse,
    Http,
}

/// A configured server.
pub struct ServerEntry {
    pub name: String,
    pub transport: ServerTransport,
    pub command: String,
    pub args: Vec<String>,
    pub env: TextMap<String>,
    pub url: Option<String>,
}

/// What is done about a configured server.
pub enum ServerPlan {
    /// It is reached at an address.
    Address(McpSseConfig),
    /// It is started.
    Process(McpServerConfig),
    /// It is left out: there is no address.
    MissingUrl,
    /// It is left out: there is no command.
    MissingCommand,
}

/// Whether a plan is the one for a configured server.
pub open spec fn planned(e: ServerEntry, p: ServerPlan) -> bool {
    if e.transport == ServerTransport::Stdio {
        if e.command@.len() == 0 {
            p is MissingCommand
        } else {
            &&& p matches ServerPlan::Process(c)
            &&& c.name@ == e.name@
            &&& c.command@ == e.command@
            &&& texts(c.args@) == texts(e.args@)
            &&& c.env == e.env
            &&& c.working_dir is None
        }
    } else {
        match e.url {
            Some(u) => p matches ServerPlan::Address(c) && c.name@ == e.name@ && c.url@ == u@,
            None => p is MissingUrl,
        }
    }
}

/// What is done about a configured server.
pub fn plan_server(entry: ServerEntry) -> (r: ServerPlan)
    ensures
        planned(entry, r),
{
    match entry.transport {
        ServerTransport::Sse | ServerTransport::Http => match entry.url {
            Some(url) => ServerPlan::Address(McpSseConfig { name: entry.name, url }),
            None => ServerPlan::MissingUrl,
        },
        ServerTransport::Stdio => {
            proof {
                reveal_strlit("");
                assert(entry.command@.len() == 0 ==> entry.command@ =~= ""@);
            }
            if str_eq(entry.command.as_str(), "") {
                ServerPlan::MissingCommand
            } else {
                ServerPlan::Process(
                    McpServerConfig {
                        name: entry.name,
                        command: entry.command,
                        args: entry.args,
                        env: entry.env,
                        working_dir: None,
                    },
                )
            }
        },
    }
}

/// The connection to servers over relays, if it is switched on and there are relays. It uses a key of
/// its own, and looks only for the configured servers whose keys read.
pub fn plan_contextvm(entry: Option<&ContextVmEntry>) -> (r: Option<ContextVmConfig>)
    ensures
        r is Some == (entry is Some && entry->0.enabled && entry->0.relays@.len() > 0),
        r matches Some(c) ==> {
            &&& texts(c.relays@) == texts(entry->0.relays@)
            &&& secret_key_owner(c.secret@) is Some
            &&& texts(c.server_filter@) == keys_among(texts(entry->0.servers@))
            &&& c.call_timeout_secs == entry->0.timeout_secs
            &&& c.discovery_timeout_secs == 10
        },
{
    match entry {
        Some(cvm) => {
            if cvm.enabled && cvm.relays.len() > 0 {
                Some(
                    ContextVmConfig {
                        relays: cvm.relays.clone(),
                        secret: fresh_secret(),
                        server_filter: parse_keys(&cvm.servers),
                        call_timeout_secs: cvm.timeout_secs,
                        discovery_timeout_secs: 10,
                    },
                )
            } else {
                None
            }
        },
        None => None,
    }
}

/// A local server is started by its own command, arguments and environment; one behind an address is
/// reached there; what is missing is told.
pub proof fn servers_are_planned(e: ServerEntry, p: ServerPlan)
    requires
        planned(e, p),
    ensures
        e.transport == ServerTransport::Stdio && e.command@.len() == 0 <==> p is MissingCommand,
        e.transport != ServerTransport::Stdio && e.url is None <==> p is MissingUrl,
        e.transport == ServerTransport::Stdio && e.command@.len() > 0 ==> (p matches ServerPlan::Process(
            c,
        ) && c.name@ == e.name@ && c.command@ == e.command@ && texts(c.args@) == texts(e.args@)
            && c.env == e.env && c.working_dir is None),
        e.transport != ServerTransport::Stdio && e.url is Some ==> (p matches ServerPlan::Address(c)
            && c.name@ == e.name@ && c.url@ == e.url->0@),
{
}

} // verus!
