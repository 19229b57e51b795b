//! The settings that are published on the relays.

use super::identity::{get_nsec_from_config, own_secret};
use crate::channels::event::{DraftView, EventDraft};
use crate::channels::nostr::channel::NostrChannelConfig;
use crate::channels::nostr::config::RespondMode;
use crate::channels::nostr::publish::{config_event_draft, config_tags};
use crate::config::snowclaw_schema::NostrConfig;
use crate::keys::{key_of_secret, parse_key, parsed_key, secret_key_owner};
use crate::text::number::{decimal, u64_text};
use crate::text::pattern::{begins_with, has_substring, parts_are_held};
use crate::text::{opt_str, opt_text, texts};
use crate::text_map::TextMap;
use vstd::prelude::*;

verus! {

/// Whether a channel configuration is the one that commands publish through: it only sends.
pub open spec fn sends_only(
    c: NostrChannelConfig,
    ns: NostrConfig,
    key: Seq<char>,
    dir: Seq<char>,
) -> bool {
    &&& c.public_key@ == key
    &&& texts(c.relays@) == texts(ns.relays@)
    &&& texts(c.groups@) == texts(ns.groups@)
    &&& !c.listen_dms
    &&& c.allowed_pubkeys@.len() == 0
    &&& !c.deny_all
    &&& c.respond_mode == RespondMode::Silent
    &&& c.group_respond_mode@ == Map::<Seq<char>, RespondMode>::empty()
    &&& c.mention_names@.len() == 0
    &&& opt_text(c.owner) == (match ns.owner {
        Some(s) => parsed_key(s@),
        None => None,
    })
    &&& c.context_history == ns.context_history
    &&& c.persist_dir@ == dir
    &&& c.indexed_paths@.len() == 0
    &&& c.index_interval_minutes == 30
}

/// The configuration of the channel that commands publish through.
pub fn sending_channel(ns: &Option<NostrConfig>, env: Option<String>, persist_dir: &str) -> (r:
    Result<NostrChannelConfig, &'static str>)
    ensures
        ({
            let secret = own_secret(*ns, opt_text(env));
            match r {
                Ok(c) => {
                    &&& *ns is Some
                    &&& secret is Some
                    &&& secret_key_owner(secret->0) is Some
                    &&& sends_only(c, ns->0, secret_key_owner(secret->0)->0, persist_dir@)
                },
                Err(e) => if *ns is None {
                    e@ == "Nostr not configured"@
                } else if secret is None {
                    e@ == "No nsec configured"@
                } else {
                    secret_key_owner(secret->0) is None && e@ == "Invalid secret key"@
                },
            }
        }),
{
    let secret = get_nsec_from_config(ns, env);
    let c = match ns {
        Some(c) => c,
        None => return Err("Nostr not configured"),
    };
    let secret = match secret {
        Some(s) => s,
        None => return Err("No nsec configured"),
    };
    match key_of_secret(secret.as_str()) {
        Some(public_key) => Ok(
            NostrChannelConfig {
                relays: c.relays.clone(),
                public_key,
                groups: c.groups.clone(),
                listen_dms: false,
                allowed_pubkeys: Vec::new(),
                deny_all: false,
                respond_mode: RespondMode::Silent,
                group_respond_mode: TextMap::new(),
                mention_names: Vec::new(),
                owner: match &c.owner {
                    Some(s) => parse_key(s.as_str()),
                    None => None,
                },
                context_history: c.context_history,
                persist_dir: persist_dir.to_owned(),
                indexed_paths: Vec::new(),
                index_interval_minutes: 30,
            },
        ),
        None => Err("Invalid secret key"),
    }
}

/// The scope under which settings are published: all groups, or one.
pub open spec fn settings_scope(group: Option<Seq<char>>, global: bool) -> Option<Seq<char>> {
    if global {
        Some("snowclaw:config:global"@)
    } else {
        match group {
            Some(g) => Some("snowclaw:config:group:"@ + g),
            None => None,
        }
    }
}

/// The event that publishes settings. One scope must be named.
pub fn settings_draft(
    group: Option<&str>,
    global: bool,
    respond_mode: Option<&str>,
    context_history: Option<usize>,
) -> (r: Result<EventDraft, &'static str>)
    ensures
        match settings_scope(opt_str(group), global) {
            Some(scope) => {
                &&& r is Ok
                &&& r->Ok_0@ == (DraftView {
                    kind: 30078,
                    tags: config_tags(scope, opt_str(respond_mode), context_history),
                    content: ""@,
                })
            },
            None => r is Err && r->Err_0@ == "Specify --global or --group <name>"@,
        },
{
    if global {
        return Ok(config_event_draft("snowclaw:config:global", respond_mode, context_history));
    }
    match group {
        Some(g) => {
            let mut scope = String::from_str("snowclaw:config:group:");
            scope.append(g);
            Ok(config_event_draft(scope.as_str(), respond_mode, context_history))
        },
        None => Err("Specify --global or --group <name>"),
    }
}

/// What is said of published settings.
pub open spec fn published_text(
    event_id: Seq<char>,
    mode: Option<Seq<char>>,
    history: Option<usize>,
) -> Seq<char> {
    "✅ Published config event: "@ + event_id + "\n"@ + (match mode {
        Some(m) => "   respond_mode: "@ + m + "\n"@,
        None => Seq::empty(),
    }) + (match history {
        Some(n) => "   context_history: "@ + decimal(n as nat) + "\n"@,
        None => Seq::empty(),
    })
}

/// What is said of published settings.
pub fn settings_published(event_id: &str, mode: Option<&str>, history: Option<usize>) -> (r: String)
    ensures
        r@ == published_text(event_id@, opt_str(mode), history),
{
    let mut out = String::from_str("✅ Published config event: ");
    out.append(event_id);
    out.append("\n");
    let ghost head = out@;
    if let Some(m) = mode {
        out.append("   respond_mode: ");
        out.append(m);
        out.append("\n");
        assert(out@ =~= head + ("   respond_mode: "@ + m@ + "\n"@));
    } else {
        assert(out@ =~= head + Seq::<char>::empty());
    }
    let ghost body = out@;
    if let Some(n) = history {
        out.append("   context_history: ");
        out.append(u64_text(n as u64).as_str());
        out.append("\n");
        assert(out@ =~= body + ("   context_history: "@ + decimal(n as nat) + "\n"@));
    } else {
        assert(out@ =~= body + Seq::<char>::empty());
    }
    out
}

/// What is shown of the settings of a group, or of all.
pub open spec fn settings_text(ns: NostrConfig, group: Option<Seq<char>>) -> Seq<char> {
    "📡 Dynamic config for "@ + (match group {
        Some(g) => "group:"@ + g,
        None => "global"@,
    })
        + ":\n   (Fetched from relay on channel startup — use `set` to publish updates)\n"@
        + (if group is Some && ns.group_respond_mode@.contains_key(group->0) {
        "   file config respond_mode: "@ + ns.group_respond_mode@[group->0]@ + "\n"@
    } else {
        Seq::empty()
    }) + "   file config respond_mode (default): "@ + ns.respond_mode@
        + "\n   file config context_history: "@ + decimal(ns.context_history as nat) + "\n"@
}

/// Shows the settings of a group, or of all.
pub fn show_settings(ns: &NostrConfig, group: Option<&str>) -> (r: String)
    ensures
        r@ == settings_text(*ns, opt_str(group)),
{
    let mut out = String::from_str("📡 Dynamic config for ");
    let ghost head = out@;
    match group {
        Some(g) => {
            out.append("group:");
            out.append(g);
            assert(out@ =~= head + ("group:"@ + g@));
        },
        None => {
            out.append("global");
        },
    }
    out.append(":\n   (Fetched from relay on channel startup — use `set` to publish updates)\n");
    let ghost body = out@;
    let mut shown = false;
    if let Some(g) = group {
        if let Some(mode) = ns.group_respond_mode.get(g) {
            out.append("   file config respond_mode: ");
            out.append(mode.as_str());
            out.append("\n");
            shown = true;
            assert(out@ =~= body + ("   file config respond_mode: "@ + mode@ + "\n"@));
        }
    }
    proof {
        if !shown {
            assert(out@ =~= body + Seq::<char>::empty());
        }
    }
    out.append("   file config respond_mode (default): ");
    out.append(ns.respond_mode.as_str());
    out.append("\n   file config context_history: ");
    out.append(u64_text(ns.context_history as u64).as_str());
    out.append("\n");
    out
}

/// Settings are published for all where that is asked for, else for the group that is named; without
/// either there is nothing to publish them for.
pub proof fn settings_have_a_scope(g: Seq<char>, group: Option<Seq<char>>)
    ensures
        settings_scope(group, true) == Some("snowclaw:config:global"@),
        settings_scope(Some(g), false) == Some("snowclaw:config:group:"@ + g),
        settings_scope(None, false) is None,
{
}

/// What was published is told: the event, and each setting that was given.
pub proof fn published_settings_are_told(id: Seq<char>, m: Seq<char>, n: usize)
    ensures
        published_text(id, None, None) == "✅ Published config event: "@ + id + "\n"@,
        published_text(id, Some(m), None) == "✅ Published config event: "@ + id + "\n"@ + (
        "   respond_mode: "@ + m + "\n"@),
        published_text(id, None, Some(n)) == "✅ Published config event: "@ + id + "\n"@ + (
        "   context_history: "@ + decimal(n as nat) + "\n"@),
        published_text(id, Some(m), Some(n)) == "✅ Published config event: "@ + id + "\n"@ + (
        "   respond_mode: "@ + m + "\n"@) + ("   context_history: "@ + decimal(n as nat) + "\n"@),
{
    let a = "✅ Published config event: "@ + id + "\n"@;
    let e = Seq::<char>::empty();
    let x = "   respond_mode: "@ + m + "\n"@;
    let y = "   context_history: "@ + decimal(n as nat) + "\n"@;
    assert(a + e =~= a);
    assert(a + x + e =~= a + x);
    assert(a + e + y =~= a + y);
}

/// The settings of the file are shown: the usual mode and the length of the context.
pub proof fn settings_are_shown(ns: NostrConfig)
    ensures
        begins_with(settings_text(ns, None), "📡 Dynamic config for "@ + "global"@),
        has_substring(
            settings_text(ns, None),
            "   file config respond_mode (default): "@ + ns.respond_mode@,
        ),
        has_substring(
            settings_text(ns, None),
            "\n   file config context_history: "@ + decimal(ns.context_history as nat) + "\n"@,
        ),
{
    let note = ":\n   (Fetched from relay on channel startup — use `set` to publish updates)\n"@;
    let d = "   file config respond_mode (default): "@ + ns.respond_mode@;
    let c = "\n   file config context_history: "@ + decimal(ns.context_history as nat) + "\n"@;
    let a = "📡 Dynamic config for "@ + "global"@;
    assert(settings_text(ns, None) =~= a + note + Seq::<char>::empty() + d + c);
    parts_of_settings(a, note, Seq::<char>::empty(), d, c);
}

/// Of a group its own mode is shown beside the usual one, where it has one.
pub proof fn group_settings_are_shown(ns: NostrConfig, g: Seq<char>)
    ensures
        begins_with(settings_text(ns, Some(g)), "📡 Dynamic config for "@ + ("group:"@ + g)),
        ns.group_respond_mode@.contains_key(g) ==> has_substring(
            settings_text(ns, Some(g)),
            "   file config respond_mode: "@ + ns.group_respond_mode@[g]@ + "\n"@,
        ),
        has_substring(
            settings_text(ns, Some(g)),
            "   file config respond_mode (default): "@ + ns.respond_mode@,
        ),
        has_substring(
            settings_text(ns, Some(g)),
            "\n   file config context_history: "@ + decimal(ns.context_history as nat) + "\n"@,
        ),
{
    let note = ":\n   (Fetched from relay on channel startup — use `set` to publish updates)\n"@;
    let d = "   file config respond_mode (default): "@ + ns.respond_mode@;
    let c = "\n   file config context_history: "@ + decimal(ns.context_history as nat) + "\n"@;
    let a = "📡 Dynamic config for "@ + ("group:"@ + g);
    let own = if ns.group_respond_mode@.contains_key(g) {
        "   file config respond_mode: "@ + ns.group_respond_mode@[g]@ + "\n"@
    } else {
        Seq::empty()
    };
    assert(settings_text(ns, Some(g)) =~= a + note + own + d + c);
    parts_of_settings(a, note, own, d, c);
}

proof fn parts_of_settings(a: Seq<char>, b: Seq<char>, c: Seq<char>, d: Seq<char>, e: Seq<char>)
    ensures
        ({
            let x = a + b + c + d + e;
            begins_with(x, a) && has_substring(x, c) && has_substring(x, d) && has_substring(x, e)
        }),
{
    let x = a + b + c + d + e;
    assert(x.subrange(0, a.len() as int) =~= a);
    assert(x =~= (a + b) + c + (d + e));
    parts_are_held(a + b, c, d + e);
    assert(x =~= (a + b + c) + d + e);
    parts_are_held(a + b + c, d, e);
    assert(x =~= (a + b + c + d) + e + Seq::<char>::empty());
    parts_are_held(a + b + c + d, e, Seq::<char>::empty());
}

/// A channel that only sends is silent, listens to no direct messages, and has the relays, the groups
/// and the owner of the configuration.
pub proof fn senders_are_silent(c: NostrChannelConfig, ns: NostrConfig, key: Seq<char>, dir: Seq<char>)
    requires
        sends_only(c, ns, key, dir),
    ensures
        c.respond_mode == RespondMode::Silent,
        !c.listen_dms,
        c.public_key@ == key,
        texts(c.relays@) == texts(ns.relays@) && texts(c.groups@) == texts(ns.groups@),
        c.context_history == ns.context_history,
        ns.owner is None ==> c.owner is None,
        ns.owner matches Some(o) ==> opt_text(c.owner) == parsed_key(o@),
        forall|g: Seq<char>| !(#[trigger] c.group_respond_mode@.contains_key(g)),
        c.persist_dir@ == dir && c.indexed_paths@.len() == 0,
{
}

} // verus!
