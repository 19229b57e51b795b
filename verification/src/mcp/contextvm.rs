//! MCP servers that are reached over Nostr relays.

use super::types::McpToolDef;
use crate::channels::event::{
    any_tag_value, any_value, pair_tag, tag_texts, EventDraft, EventView, NostrEvent,
};
use crate::channels::nostr::profile::{field, text_field};
use crate::keys::{
    fits_seal, fresh_secret, has_secret, hex_key, seal, secret_key_owner, unsealed,
};
use crate::order::{filter_holds, filter_of_all};
use crate::text::number::{decimal, u64_text};
use crate::text::pattern::{contains, has_substring};
use crate::text::{byte_boundary, byte_take, opt_text, prefix_bytes, texts};
use vstd::prelude::*;

verus! {

/// Kind of the events in which servers announce themselves.
pub const APP_HANDLER: u16 = 31990;

/// Kind of the events that carry encrypted requests and responses.
pub const ENCRYPTED_MESSAGE: u16 = 21059;

/// Configuration of a connection.
#[derive(Debug)]
pub struct ContextVmConfig {
    /// Relays to connect to.
    pub relays: Vec<String>,
    /// The secret key that requests are signed and sealed with.
    pub secret: String,
    /// Keys of the only servers to look for. Empty = all.
    pub server_filter: Vec<String>,
    /// Seconds until a call is given up.
    pub call_timeout_secs: u64,
    /// Seconds until the search for servers is given up.
    pub discovery_timeout_secs: u64,
}

impl Default for ContextVmConfig {
    fn default() -> (r: Self)
        ensures
            r.relays@.len() == 0,
            secret_key_owner(r.secret@) is Some,
            r.server_filter@.len() == 0,
            r.call_timeout_secs == 30,
            r.discovery_timeout_secs == 10,
    {
        ContextVmConfig {
            relays: Vec::new(),
            secret: fresh_secret(),
            server_filter: Vec::new(),
            call_timeout_secs: 30,
            discovery_timeout_secs: 10,
        }
    }
}

/// Whether there are relays to connect to.
pub fn check_relays(config: &ContextVmConfig) -> (r: Result<(), &'static str>)
    ensures
        r is Ok == (config.relays@.len() > 0),
        r is Err ==> r->Err_0@ == "ContextVM: no relays configured"@,
{
    if config.relays.len() == 0 {
        Err("ContextVM: no relays configured")
    } else {
        Ok(())
    }
}

/// A server that announced itself.
#[derive(Debug)]
pub struct ContextVmServer {
    pub pubkey: String,
    pub name: String,
    pub tools: Vec<McpToolDef>,
}

/// The name in an announcement, given the two names that its content holds: the name, else the
/// display name, else the first identifier among the tags.
pub open spec fn announced_name(
    name: Option<Seq<char>>,
    display_name: Option<Seq<char>>,
    tags: Seq<Seq<Seq<char>>>,
) -> Option<Seq<char>> {
    match name {
        Some(n) => Some(n),
        None => match display_name {
            Some(n) => Some(n),
            None => any_value(tags, "d"@),
        },
    }
}

/// The name in an announcement, given the two names that its content holds.
pub fn name_among(name: Option<String>, display_name: Option<String>, tags: &Vec<Vec<String>>) -> (r:
    Option<String>)
    ensures
        opt_text(r) == announced_name(opt_text(name), opt_text(display_name), tag_texts(tags@)),
{
    match name {
        Some(n) => Some(n),
        None => match display_name {
            Some(n) => Some(n),
            None => any_tag_value(tags, "d"),
        },
    }
}

/// The name in an announcement.
pub fn extract_server_name(event: &NostrEvent) -> (r: Option<String>)
    ensures
        opt_text(r) == announced_name(
            field(event.content@, "name"@),
            field(event.content@, "display_name"@),
            event@.tags,
        ),
{
    name_among(
        text_field(event.content.as_str(), "name"),
        text_field(event.content.as_str(), "display_name"),
        &event.tags,
    )
}

/// Whether a tag speaks of MCP.
pub open spec fn tag_speaks(tag: Seq<Seq<char>>) -> bool {
    tag.len() >= 2 && (has_substring(tag[1], "mcp"@) || has_substring(tag[1], "contextvm"@)
        || has_substring(tag[1], "MCP"@))
}

/// Whether an event announces an MCP server, in a tag or in its content.
pub open spec fn announces(e: EventView) -> bool {
    ||| exists|i: int| 0 <= i < e.tags.len() && tag_speaks(#[trigger] e.tags[i])
    ||| has_substring(e.content, "mcp"@)
    ||| has_substring(e.content, "contextvm"@)
}

/// Whether an event announces an MCP server.
pub fn is_contextvm(event: &NostrEvent) -> (r: bool)
    ensures
        r == announces(event@),
{
    let ghost tags = event@.tags;
    let mut i: usize = 0;
    while i < event.tags.len()
        invariant
            i <= event.tags@.len(),
            tags == tag_texts(event.tags@),
            tags == event@.tags,
            forall|k: int| 0 <= k < i ==> !tag_speaks(#[trigger] tags[k]),
        decreases event.tags.len() - i,
    {
        let tag = &event.tags[i];
        assert(tags[i as int] == texts(tag@));
        if tag.len() >= 2 {
            let value = tag[1].as_str();
            if contains(value, "mcp") || contains(value, "contextvm") || contains(value, "MCP") {
                assert(tag_speaks(tags[i as int]));
                return true;
            }
        }
        i = i + 1;
    }
    contains(event.content.as_str(), "mcp") || contains(event.content.as_str(), "contextvm")
}

/// The name of a server: the announced one, else one made from the start of its key.
pub open spec fn server_name(e: EventView) -> Seq<char> {
    match announced_name(field(e.content, "name"@), field(e.content, "display_name"@), e.tags) {
        Some(n) => n,
        None => "cvm_"@ + byte_take(e.pubkey, 8),
    }
}

/// What is known of a server from its announcement: its key and name.
pub open spec fn server_facts(e: EventView) -> (Seq<char>, Seq<char>) {
    (e.pubkey, server_name(e))
}

/// What events say.
pub open spec fn event_views(events: Seq<NostrEvent>) -> Seq<EventView> {
    Seq::new(events.len(), |i: int| events[i]@)
}

/// The servers that events announce. Where particular servers were asked for, every event counts.
pub open spec fn found_servers(events: Seq<EventView>, filtered: bool) -> Seq<(Seq<char>, Seq<char>)> {
    events.filter(|e: EventView| filtered || announces(e)).map_values(
        |e: EventView| server_facts(e),
    )
}

/// The keys and names of servers.
pub open spec fn server_views(servers: Seq<ContextVmServer>) -> Seq<(Seq<char>, Seq<char>)> {
    Seq::new(servers.len(), |i: int| (servers[i].pubkey@, servers[i].name@))
}

/// The servers that events announce. Their tools are not known yet.
pub fn discover_servers(events: &Vec<NostrEvent>, server_filter: &Vec<String>) -> (r: Vec<
    ContextVmServer,
>)
    requires
        forall|i: int| 0 <= i < events@.len() ==> byte_boundary((#[trigger] events@[i]).pubkey@, 8),
    ensures
        server_views(r@) == found_servers(event_views(events@), server_filter@.len() > 0),
        forall|i: int| 0 <= i < r@.len() ==> (#[trigger] r@[i]).tools@.len() == 0,
{
    let filtered = server_filter.len() > 0;
    let ghost all = event_views(events@);
    let ghost keep = |e: EventView| filtered || announces(e);
    let ghost show = |e: EventView| server_facts(e);
    let mut r: Vec<ContextVmServer> = Vec::new();
    let mut i: usize = 0;
    proof {
        reveal(Seq::filter);
        assert(server_views(r@) =~= all.take(0).filter(keep).map_values(show));
    }
    while i < events.len()
        invariant
            i <= events@.len(),
            filtered == (server_filter@.len() > 0),
            all == event_views(events@),
            keep == (|e: EventView| filtered || announces(e)),
            show == (|e: EventView| server_facts(e)),
            forall|i: int|
                0 <= i < events@.len() ==> byte_boundary((#[trigger] events@[i]).pubkey@, 8),
            server_views(r@) == all.take(i as int).filter(keep).map_values(show),
            forall|i: int| 0 <= i < r@.len() ==> (#[trigger] r@[i]).tools@.len() == 0,
        decreases events.len() - i,
    {
        let ghost found = all.take(i as int).filter(keep);
        let event = &events[i];
        proof {
            reveal(Seq::filter);
            assert(all.take(i + 1).drop_last() =~= all.take(i as int));
            assert(all.take(i + 1).last() == all[i as int]);
        }
        let name = match extract_server_name(event) {
            Some(n) => n,
            None => {
                let mut n = String::from_str("cvm_");
                n.append(prefix_bytes(event.pubkey.as_str(), 8));
                n
            },
        };
        let speaks = is_contextvm(event);
        if speaks || filtered {
            let ghost before = r@;
            let server = ContextVmServer { pubkey: event.pubkey.clone(), name, tools: Vec::new() };
            r.push(server);
            proof {
                let more = found.push(all[i as int]);
                assert(all.take(i + 1).filter(keep) =~= more);
                assert(more.map_values(show) =~= found.map_values(show).push(show(all[i as int])));
                assert(server_views(r@) =~= server_views(before).push(server_facts(all[i as int])));
            }
        }
        i = i + 1;
    }
    assert(all.take(i as int) =~= all);
    r
}

/// The event that carries a request to a server, sealed for it. `None` where a key does not read or
/// the request cannot be sealed.
pub fn request_draft(secret: &str, server: &str, payload: &str) -> (r: Option<EventDraft>)
    ensures
        r is Some ==> secret_key_owner(secret@) is Some && hex_key(server@) is Some && fits_seal(
            payload@,
        ),
        secret_key_owner(secret@) is Some && has_secret(server@) && fits_seal(payload@)
            ==> r is Some,
        r matches Some(d) ==> {
            &&& d.kind == ENCRYPTED_MESSAGE
            &&& d@.tags == seq![seq!["p"@, server@]]
            &&& unsealed(secret@, server@, d.content@) == Some(payload@)
        },
{
    match seal(secret, server, payload) {
        Some(content) => {
            let mut tags: Vec<Vec<String>> = Vec::new();
            tags.push(pair_tag("p", server));
            assert(tag_texts(tags@) =~= seq![seq!["p"@, server@]]);
            Some(EventDraft { kind: ENCRYPTED_MESSAGE, tags, content })
        },
        None => None,
    }
}

/// Why the wait for a response was given up.
pub fn timed_out(seconds: u64) -> (r: String)
    ensures
        r@ == "ContextVM request timed out after "@ + decimal(seconds as nat) + "s"@,
{
    let mut r = String::from_str("ContextVM request timed out after ");
    r.append(u64_text(seconds).as_str());
    r.append("s");
    r
}

/// A server goes by the name in its announcement, else by its display name, else by its tag, else by
/// the start of its key.
pub proof fn servers_have_names(
    e: EventView,
    name: Option<Seq<char>>,
    display: Option<Seq<char>>,
    n: Seq<char>,
)
    ensures
        announced_name(Some(n), display, e.tags) == Some(n),
        announced_name(None, Some(n), e.tags) == Some(n),
        announced_name(None, None, e.tags) == any_value(e.tags, "d"@),
        field(e.content, "name"@) == Some(n) ==> server_name(e) == n,
        field(e.content, "name"@) is None && field(e.content, "display_name"@) == Some(n)
            ==> server_name(e) == n,
        field(e.content, "name"@) is None && field(e.content, "display_name"@) is None && any_value(
            e.tags,
            "d"@,
        ) == Some(n) ==> server_name(e) == n,
        field(e.content, "name"@) is None && field(e.content, "display_name"@) is None && any_value(
            e.tags,
            "d"@,
        ) is None ==> server_name(e) == "cvm_"@ + byte_take(e.pubkey, 8),
        server_facts(e) == (e.pubkey, server_name(e)),
{
}

/// An event announces a server if its content or the value of a tag speaks of one.
pub proof fn announcements_speak(e: EventView, i: int)
    ensures
        has_substring(e.content, "mcp"@) || has_substring(e.content, "contextvm"@) ==> announces(e),
        0 <= i < e.tags.len() && e.tags[i].len() >= 2 && (has_substring(e.tags[i][1], "mcp"@)
            || has_substring(e.tags[i][1], "contextvm"@) || has_substring(e.tags[i][1], "MCP"@))
            ==> announces(e),
        announces(e) && !has_substring(e.content, "mcp"@) && !has_substring(e.content, "contextvm"@)
            ==> exists|k: int|
            0 <= k < e.tags.len() && (#[trigger] e.tags[k]).len() >= 2 && (has_substring(
                e.tags[k][1],
                "mcp"@,
            ) || has_substring(e.tags[k][1], "contextvm"@) || has_substring(e.tags[k][1], "MCP"@)),
{
    if 0 <= i < e.tags.len() && tag_speaks(e.tags[i]) {
        assert(announces(e));
    }
    if announces(e) && !has_substring(e.content, "mcp"@) && !has_substring(e.content, "contextvm"@) {
        let k = choose|k: int| 0 <= k < e.tags.len() && tag_speaks(#[trigger] e.tags[k]);
        assert(e.tags[k].len() >= 2);
    }
}

/// The servers that are found are those of the events that announce one, or of all events where
/// particular servers were asked for.
pub proof fn announced_servers_are_found(events: Seq<EventView>, e: EventView)
    ensures
        events.contains(e) ==> found_servers(events, true).contains((e.pubkey, server_name(e))),
        events.contains(e) && announces(e) ==> found_servers(events, false).contains(
            (e.pubkey, server_name(e)),
        ),
        forall|s: (Seq<char>, Seq<char>)| #[trigger]
            found_servers(events, false).contains(s) ==> exists|x: EventView|
                #[trigger] events.contains(x) && announces(x) && s == (x.pubkey, server_name(x)),
        found_servers(events, true).len() == events.len(),
{
    let yes = true;
    let no = false;
    let any = |e: EventView| yes || announces(e);
    let some = |e: EventView| no || announces(e);
    let facts = |e: EventView| server_facts(e);
    filter_holds(events, some, e);
    filter_of_all(events, any);
    let kept = events.filter(some);
    assert(found_servers(events, true) =~= events.map_values(facts));
    assert(found_servers(events, false) =~= kept.map_values(facts));
    if events.contains(e) {
        let i = choose|i: int| 0 <= i < events.len() && events[i] == e;
        assert(found_servers(events, true)[i] == (e.pubkey, server_name(e)));
    }
    if kept.contains(e) {
        let i = choose|i: int| 0 <= i < kept.len() && kept[i] == e;
        assert(found_servers(events, false)[i] == (e.pubkey, server_name(e)));
    }
    assert forall|s: (Seq<char>, Seq<char>)| #[trigger] found_servers(events, false).contains(
        s,
    ) implies exists|x: EventView|
        #[trigger] events.contains(x) && announces(x) && s == (x.pubkey, server_name(x)) by {
        let all = found_servers(events, false);
        let i = choose|i: int| 0 <= i < all.len() && all[i] == s;
        let x = kept[i];
        assert(kept.contains(x));
        filter_holds(events, some, x);
        assert(events.contains(x) && announces(x) && s == (x.pubkey, server_name(x)));
    }
}

} // verus!
