//! How the Nostr channel is set up from its configuration.

use super::nostr::channel::NostrChannelConfig;
use super::nostr::config::{mode_of_word, RespondMode};
use crate::config::snowclaw_schema::NostrConfig;
use crate::keys::{key_of_secret, parse_key, parsed_key, secret_key_owner};
use crate::order::filter_map_holds;
use crate::text::case::{lowercase, to_lowercase};
use crate::text::{list_contains, opt_text, str_eq, texts};
use crate::text_map::TextMap;
use vstd::prelude::*;

verus! {

/// The mode that a configured word stands for, in any letter case: "always", "mention_only" and
/// "never", beside the words that the owner's commands use.
pub open spec fn configured_mode(s: Seq<char>) -> RespondMode {
    let w = lowercase(s);
    if w == "always"@ {
        RespondMode::All
    } else if w == "never"@ {
        RespondMode::Silent
    } else {
        mode_of_word(w)
    }
}

/// The mode that a configured word stands for.
pub fn read_mode(s: &str) -> (r: RespondMode)
    ensures
        r == configured_mode(s@),
{
    let w = to_lowercase(s);
    if str_eq(w.as_str(), "always") {
        RespondMode::All
    } else if str_eq(w.as_str(), "never") {
        RespondMode::Silent
    } else {
        RespondMode::from_word(w.as_str())
    }
}

/// The keys among texts, in order.
pub open spec fn keys_among(list: Seq<Seq<char>>) -> Seq<Seq<char>> {
    list.filter_map(|s: Seq<char>| parsed_key(s))
}

/// The keys among texts, in order.
pub fn parse_keys(list: &Vec<String>) -> (r: Vec<String>)
    ensures
        texts(r@) == keys_among(texts(list@)),
{
    let ghost all = texts(list@);
    let ghost f = |s: Seq<char>| parsed_key(s);
    let mut r: Vec<String> = Vec::new();
    let mut i: usize = 0;
    assert(texts(r@) =~= keys_among(all.take(0)));
    while i < list.len()
        invariant
            i <= list@.len(),
            all == texts(list@),
            f == (|s: Seq<char>| parsed_key(s)),
            texts(r@) == keys_among(all.take(i as int)),
        decreases list.len() - i,
    {
        proof {
            all.lemma_filter_map_take_succ(f, i as int);
        }
        if let Some(k) = parse_key(list[i].as_str()) {
            let ghost before = r@;
            r.push(k);
            assert(texts(r@) =~= texts(before).push(k@));
        }
        assert(texts(r@) =~= keys_among(all.take(i + 1)));
        i = i + 1;
    }
    assert(all.take(i as int) =~= all);
    r
}

/// Names in lower case.
pub open spec fn lowered(list: Seq<Seq<char>>) -> Seq<Seq<char>> {
    list.map_values(|n: Seq<char>| lowercase(n))
}

/// The names that count as a mention: those given, in lower case, and always the agent's own.
pub open spec fn names_for(list: Seq<Seq<char>>) -> Seq<Seq<char>> {
    if lowered(list).contains("snowclaw"@) {
        lowered(list)
    } else {
        lowered(list).push("snowclaw"@)
    }
}

fn mention_names(list: &Vec<String>) -> (r: Vec<String>)
    ensures
        texts(r@) == names_for(texts(list@)),
{
    let ghost all = lowered(texts(list@));
    let mut r: Vec<String> = Vec::new();
    let mut i: usize = 0;
    assert(texts(r@) =~= all.take(0));
    while i < list.len()
        invariant
            i <= list@.len(),
            all == lowered(texts(list@)),
            texts(r@) == all.take(i as int),
        decreases list.len() - i,
    {
        let ghost before = r@;
        let name = to_lowercase(list[i].as_str());
        r.push(name);
        proof {
            assert(all[i as int] == lowercase(texts(list@)[i as int]));
            assert(texts(r@) =~= texts(before).push(name@));
            assert(all.take(i + 1) =~= all.take(i as int).push(all[i as int]));
        }
        i = i + 1;
    }
    assert(all.take(i as int) =~= all);
    if !list_contains(&r, "snowclaw") {
        let ghost before = r@;
        r.push("snowclaw".to_owned());
        assert(texts(r@) =~= texts(before).push("snowclaw"@));
    }
    r
}

/// The modes that configured words stand for, by group.
pub open spec fn configured_modes(m: Map<Seq<char>, String>) -> Map<Seq<char>, RespondMode> {
    m.map_values(|w: String| configured_mode(w@))
}

fn group_modes(m: &TextMap<String>) -> (r: TextMap<RespondMode>)
    ensures
        r@ == configured_modes(m@),
{
    let n: usize = m.len();
    let ghost keys = m.keys();
    let mut r: TextMap<RespondMode> = TextMap::new();
    let mut i: usize = 0;
    while i < n
        invariant
            i <= n,
            n == keys.len(),
            keys == m.keys(),
            m.keys_match(),
            forall|k: Seq<char>| #[trigger]
                r@.contains_key(k) <==> exists|j: int| 0 <= j < i && #[trigger] keys[j] == k,
            forall|k: Seq<char>| #[trigger]
                r@.contains_key(k) ==> r@[k] == configured_mode(m@[k]@),
        decreases n - i,
    {
        let entry = m.entry_at(i);
        let ghost before = r@;
        r.insert(entry.0.clone(), read_mode(entry.1.as_str()));
        proof {
            assert forall|k: Seq<char>| #[trigger] r@.contains_key(k) <==> exists|j: int|
                0 <= j < i + 1 && #[trigger] keys[j] == k by {
                if k == keys[i as int] {
                } else if before.contains_key(k) {
                    let j = choose|j: int| 0 <= j < i && #[trigger] keys[j] == k;
                    assert(0 <= j < i + 1 && keys[j] == k);
                } else if exists|j: int| 0 <= j < i + 1 && #[trigger] keys[j] == k {
                    let j = choose|j: int| 0 <= j < i + 1 && #[trigger] keys[j] == k;
                    assert(0 <= j < i && keys[j] == k);
                }
            }
        }
        i = i + 1;
    }
    proof {
        assert forall|k: Seq<char>| r@.contains_key(k) == m@.contains_key(k) by {
            if m@.contains_key(k) {
                assert(keys.contains(k));
                let j = choose|j: int| 0 <= j < keys.len() && keys[j] == k;
                assert(0 <= j < i && keys[j] == k);
            }
            if r@.contains_key(k) {
                let j = choose|j: int| 0 <= j < i && #[trigger] keys[j] == k;
                assert(keys.contains(k));
            }
        }
        assert(r@ =~= configured_modes(m@));
    }
    r
}

/// What became of setting the channel up.
pub enum ChannelSetup {
    /// Nothing is configured.
    Absent,
    /// The secret key does not read.
    BadKey,
    /// The channel's configuration.
    Ready(NostrChannelConfig),
}

/// The secret key: the configured one, else that of the environment.
pub open spec fn secret_of(ns: NostrConfig, env: Option<String>) -> Option<Seq<char>> {
    match ns.nsec {
        Some(s) => Some(s@),
        None => opt_text(env),
    }
}

/// Whether a channel configuration is what a configuration stands for under a public key.
pub open spec fn set_up(
    c: NostrChannelConfig,
    ns: NostrConfig,
    key: Seq<char>,
    dir: Seq<char>,
    paths: Seq<Seq<char>>,
    interval: u64,
) -> bool {
    let allowed = texts(ns.allowed_pubkeys@);
    &&& c.public_key@ == key
    &&& texts(c.relays@) == texts(ns.relays@)
    &&& texts(c.groups@) == texts(ns.groups@)
    &&& c.listen_dms == ns.listen_dms
    &&& allowed.contains("*"@) ==> !c.deny_all && c.allowed_pubkeys@.len() == 0
    &&& !allowed.contains("*"@) ==> {
        &&& texts(c.allowed_pubkeys@) == keys_among(allowed)
        &&& c.deny_all == (keys_among(allowed).len() == 0)
    }
    &&& c.respond_mode == configured_mode(ns.respond_mode@)
    &&& c.group_respond_mode@ == configured_modes(ns.group_respond_mode@)
    &&& texts(c.mention_names@) == names_for(texts(ns.mention_names@))
    &&& opt_text(c.owner) == (match ns.owner {
        Some(s) => parsed_key(s@),
        None => None,
    })
    &&& c.context_history == ns.context_history
    &&& c.persist_dir@ == dir
    &&& texts(c.indexed_paths@) == paths
    &&& c.index_interval_minutes == interval
}

/// Sets the Nostr channel up from its configuration, with the secret key of the environment where
/// none is configured. An empty list of senders lets nobody in, and "*" lets everybody in.
pub fn append_nostr_channel(
    ns: Option<&NostrConfig>,
    env_nsec: Option<String>,
    persist_dir: &str,
    indexed_paths: &Vec<String>,
    index_interval_minutes: u64,
) -> (r: ChannelSetup)
    ensures
        match r {
            ChannelSetup::Absent => ns is None || secret_of(*ns->0, env_nsec) is None,
            ChannelSetup::BadKey => {
                &&& ns is Some
                &&& secret_of(*ns->0, env_nsec) is Some
                &&& secret_key_owner(secret_of(*ns->0, env_nsec)->0) is None
            },
            ChannelSetup::Ready(c) => {
                &&& ns is Some
                &&& secret_of(*ns->0, env_nsec) is Some
                &&& secret_key_owner(secret_of(*ns->0, env_nsec)->0) is Some
                &&& set_up(
                    c,
                    *ns->0,
                    secret_key_owner(secret_of(*ns->0, env_nsec)->0)->0,
                    persist_dir@,
                    texts(indexed_paths@),
                    index_interval_minutes,
                )
            },
        },
{
    let ns = match ns {
        Some(ns) => ns,
        None => return ChannelSetup::Absent,
    };
    let secret = match &ns.nsec {
        Some(s) => s.clone(),
        None => match env_nsec {
            Some(s) => s,
            None => return ChannelSetup::Absent,
        },
    };
    let public_key = match key_of_secret(secret.as_str()) {
        Some(k) => k,
        None => return ChannelSetup::BadKey,
    };
    let everyone = list_contains(&ns.allowed_pubkeys, "*");
    let allowed_pubkeys: Vec<String> = if everyone {
        Vec::new()
    } else {
        parse_keys(&ns.allowed_pubkeys)
    };
    let deny_all = !everyone && allowed_pubkeys.len() == 0;
    assert(texts(allowed_pubkeys@).len() == allowed_pubkeys@.len());
    ChannelSetup::Ready(
        NostrChannelConfig {
            relays: ns.relays.clone(),
            public_key,
            groups: ns.groups.clone(),
            listen_dms: ns.listen_dms,
            allowed_pubkeys,
            deny_all,
            respond_mode: read_mode(ns.respond_mode.as_str()),
            group_respond_mode: group_modes(&ns.group_respond_mode),
            mention_names: mention_names(&ns.mention_names),
            owner: match &ns.owner {
                Some(s) => parse_key(s.as_str()),
                None => None,
            },
            context_history: ns.context_history,
            persist_dir: persist_dir.to_owned(),
            indexed_paths: indexed_paths.clone(),
            index_interval_minutes,
        },
    )
}

/// Why the channel is missing: its secret key does not read.
pub fn key_failure(startup_context: &str, error: &str) -> (r: String)
    ensures
        r@ == "Nostr key parse failed during "@ + startup_context@ + ": "@ + error@,
{
    let mut r = String::from_str("Nostr key parse failed during ");
    r.append(startup_context);
    r.append(": ");
    r.append(error);
    r
}

/// Why the channel is missing: it did not start.
pub fn init_failure(startup_context: &str, error: &str) -> (r: String)
    ensures
        r@ == "Nostr init failed during "@ + startup_context@ + ": "@ + error@,
{
    let mut r = String::from_str("Nostr init failed during ");
    r.append(startup_context);
    r.append(": ");
    r.append(error);
    r
}

/// The words of the configuration stand for the modes, in any letter case.
pub proof fn words_for_modes(s: Seq<char>)
    ensures
        lowercase(s) == "always"@ || lowercase(s) == "all"@ ==> configured_mode(s) == RespondMode::All,
        lowercase(s) == "never"@ || lowercase(s) == "silent"@ || lowercase(s) == "none"@ || lowercase(s)
            == "listen"@ ==> configured_mode(s) == RespondMode::Silent,
        lowercase(s) == "mention"@ || lowercase(s) == "mention_only"@ ==> configured_mode(s)
            == RespondMode::Mention,
        lowercase(s) == "owner"@ ==> configured_mode(s) == RespondMode::Owner,
{
    reveal_strlit("always");
    reveal_strlit("all");
    reveal_strlit("never");
    reveal_strlit("silent");
    reveal_strlit("listen");
    reveal_strlit("none");
    reveal_strlit("mention");
    reveal_strlit("mention_only");
    reveal_strlit("owner");
    assert("always"@[0] == 'a' && "all"@[0] == 'a' && "never"@[0] == 'n' && "silent"@[0] == 's' && "listen"@[0] == 'l'
        && "none"@[0] == 'n' && "mention"@[0] == 'm' && "mention_only"@[0] == 'm' && "owner"@[0]
        == 'o');
    assert("always"@.len() == 6 && "all"@.len() == 3 && "never"@.len() == 5 && "none"@.len() == 4
        && "silent"@.len() == 6 && "mention"@.len() == 7 && "mention_only"@.len() == 12
        && "owner"@.len() == 5);
}

/// The keys among texts are what the texts read as, and no others.
pub proof fn keys_are_picked(list: Seq<Seq<char>>, k: Seq<char>)
    ensures
        keys_among(list).contains(k) <==> exists|s: Seq<char>|
            #[trigger] list.contains(s) && parsed_key(s) == Some(k),
{
    let f = |s: Seq<char>| parsed_key(s);
    filter_map_holds(list, f, k);
    if keys_among(list).contains(k) {
        let s = choose|s: Seq<char>| #[trigger] list.contains(s) && f(s) == Some(k);
        assert(parsed_key(s) == Some(k));
    }
    if exists|s: Seq<char>| #[trigger] list.contains(s) && parsed_key(s) == Some(k) {
        let s = choose|s: Seq<char>| #[trigger] list.contains(s) && parsed_key(s) == Some(k);
        assert(f(s) == Some(k));
    }
}

/// The agent listens to its own name and to every name that is given, in lower case.
pub proof fn names_are_listened_to(list: Seq<Seq<char>>, name: Seq<char>)
    ensures
        names_for(list).contains("snowclaw"@),
        list.contains(name) ==> names_for(list).contains(lowercase(name)),
        names_for(list).contains(name) ==> name == "snowclaw"@ || exists|x: Seq<char>|
            #[trigger] list.contains(x) && lowercase(x) == name,
{
    let low = lowered(list);
    let all = names_for(list);
    if !low.contains("snowclaw"@) {
        assert(all[low.len() as int] == "snowclaw"@);
    }
    if list.contains(name) {
        let i = choose|i: int| 0 <= i < list.len() && list[i] == name;
        assert(low[i] == lowercase(name));
        assert(all[i] == lowercase(name));
    }
    if all.contains(name) {
        let i = choose|i: int| 0 <= i < all.len() && all[i] == name;
        if i < low.len() {
            assert(low[i] == lowercase(list[i]));
            assert(list.contains(list[i]) && lowercase(list[i]) == name);
        }
    }
}

/// The configured secret key counts before that of the environment; each group has the mode that its
/// own word stands for.
pub proof fn configured_before_environment(
    ns: NostrConfig,
    env: Option<String>,
    m: Map<Seq<char>, String>,
    g: Seq<char>,
)
    ensures
        ns.nsec matches Some(s) ==> secret_of(ns, env) == Some(s@),
        ns.nsec is None ==> secret_of(ns, env) == opt_text(env),
        configured_modes(m).contains_key(g) == m.contains_key(g),
        m.contains_key(g) ==> configured_modes(m)[g] == configured_mode(m[g]@),
{
}

/// A channel that was set up lets in whom the configuration lets in: everybody where it says so,
/// nobody where it names nobody, and else those that it names. The rest of the configuration is kept.
pub proof fn channels_follow_the_configuration(
    c: NostrChannelConfig,
    ns: NostrConfig,
    key: Seq<char>,
    dir: Seq<char>,
    paths: Seq<Seq<char>>,
    interval: u64,
    sender: Seq<char>,
)
    requires
        set_up(c, ns, key, dir, paths, interval),
    ensures
        c.public_key@ == key,
        c.listen_dms == ns.listen_dms,
        c.context_history == ns.context_history,
        c.respond_mode == configured_mode(ns.respond_mode@),
        texts(c.relays@) == texts(ns.relays@) && texts(c.groups@) == texts(ns.groups@),
        texts(ns.allowed_pubkeys@).contains("*"@) ==> !c.deny_all && c.allowed_pubkeys@.len() == 0,
        ns.allowed_pubkeys@.len() == 0 ==> c.deny_all,
        !texts(ns.allowed_pubkeys@).contains("*"@) ==> (texts(c.allowed_pubkeys@).contains(sender)
            <==> exists|s: Seq<char>|
            #[trigger] texts(ns.allowed_pubkeys@).contains(s) && parsed_key(s) == Some(sender)),
        ns.owner is None ==> c.owner is None,
        ns.owner matches Some(o) ==> opt_text(c.owner) == parsed_key(o@),
        texts(c.mention_names@).contains("snowclaw"@),
        c.persist_dir@ == dir && texts(c.indexed_paths@) == paths && c.index_interval_minutes
            == interval,
{
    let allowed = texts(ns.allowed_pubkeys@);
    keys_are_picked(allowed, sender);
    names_are_listened_to(texts(ns.mention_names@), sender);
    if ns.allowed_pubkeys@.len() == 0 {
        assert(allowed.len() == 0);
        if keys_among(allowed).len() > 0 {
            let k = keys_among(allowed)[0];
            assert(keys_among(allowed).contains(k));
            keys_are_picked(allowed, k);
        }
    }
}

} // verus!
