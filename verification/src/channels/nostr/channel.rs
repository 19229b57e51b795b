//! The state of the Nostr channel and the questions that its handlers ask of it.

use super::config::{group_settings, DynamicConfig, DynamicView, RespondMode};
use crate::channels::event::{
    first_tag_value, first_value, has_pair, has_tag_pair, tag_texts, EventView, NostrEvent,
};
use crate::channels::recent::RecentTexts;
use crate::keys::{key_to_npub, npub_text};
use crate::text::case::{lowercase, to_lowercase};
use crate::text::pattern::{contains, has_substring};
use crate::text::{byte_boundary, byte_len, list_contains, opt_eq, opt_text, str_eq, texts};
use crate::text_map::TextMap;
use vstd::prelude::*;

verus! {

/// Entries of the cache of raw events.
pub const EVENT_CACHE_CAPACITY: usize = 1000;

/// A message in the history of a group.
#[derive(Debug)]
pub struct HistoryMessage {
    pub sender: String,
    pub npub: String,
    pub content: String,
    pub timestamp: u64,
    pub event_id: String,
    pub is_owner: bool,
}

/// Configuration of the channel. Keys are lower-case hex.
pub struct NostrChannelConfig {
    /// Relays to connect to.
    pub relays: Vec<String>,
    /// The agent's own public key.
    pub public_key: String,
    /// Groups to subscribe to.
    pub groups: Vec<String>,
    /// Whether to listen for direct messages.
    pub listen_dms: bool,
    /// Senders that are listened to (empty = all).
    pub allowed_pubkeys: Vec<String>,
    /// Whether no sender at all is listened to.
    pub deny_all: bool,
    /// Mode of groups without one of their own.
    pub respond_mode: RespondMode,
    /// Modes by group.
    pub group_respond_mode: TextMap<RespondMode>,
    /// Names that count as a mention, in lower case.
    pub mention_names: Vec<String>,
    /// The owner's public key.
    pub owner: Option<String>,
    /// Number of recent messages that are given as context.
    pub context_history: usize,
    /// Directory of the persistent memory.
    pub persist_dir: String,
    /// Patterns of the files whose content is indexed.
    pub indexed_paths: Vec<String>,
    /// Minutes between two runs of the indexer.
    pub index_interval_minutes: u64,
}

/// The channel: its configuration, what the owner has set since, and what was said in each group.
pub struct NostrChannel {
    pub config: NostrChannelConfig,
    pub dynamic: DynamicConfig,
    pub history: TextMap<Vec<HistoryMessage>>,
    pub names: TextMap<String>,
    pub event_cache: RecentTexts,
    pub owner_verified: bool,
}

/// Whether cutting `s` after `n` bytes, or not at all where it is shorter, leaves whole characters.
pub open spec fn can_cut(s: Seq<char>, n: int) -> bool {
    byte_len(s) <= n || byte_boundary(s, n)
}

/// The messages kept for group `g`.
pub open spec fn history_of(h: Map<Seq<char>, Vec<HistoryMessage>>, g: Seq<char>) -> Seq<
    HistoryMessage,
> {
    if h.contains_key(g) {
        h[g]@
    } else {
        Seq::empty()
    }
}

/// Every kept message names its sender by a key that can be shortened.
pub open spec fn history_ok(h: Map<Seq<char>, Vec<HistoryMessage>>) -> bool {
    forall|g: Seq<char>, i: int|
        h.contains_key(g) && 0 <= i < h[g]@.len() ==> can_cut((#[trigger] h[g]@[i]).npub@, 20)
}

/// The context length in force for group `g`: the group's setting, the global one, the file's.
pub open spec fn context_len(c: DynamicView, file: usize, g: Seq<char>) -> usize {
    match group_settings(c, g) {
        Some(gc) => match gc.context_history {
            Some(n) => n,
            None => global_context_len(c, file),
        },
        None => global_context_len(c, file),
    }
}

/// The context length in force where a group has none of its own.
pub open spec fn global_context_len(c: DynamicView, file: usize) -> usize {
    match c.global {
        Some(gc) => match gc.context_history {
            Some(n) => n,
            None => file,
        },
        None => file,
    }
}

/// The mode in force for group `g`: the group's dynamic setting, the global dynamic one, the file's
/// for the group, the file's default.
pub open spec fn mode_for(
    c: DynamicView,
    file_groups: Map<Seq<char>, RespondMode>,
    file: RespondMode,
    g: Seq<char>,
) -> RespondMode {
    match group_settings(c, g) {
        Some(gc) => match gc.respond_mode {
            Some(m) => m,
            None => fallback_mode(c, file_groups, file, g),
        },
        None => fallback_mode(c, file_groups, file, g),
    }
}

/// The mode in force where a group has no dynamic setting of its own.
pub open spec fn fallback_mode(
    c: DynamicView,
    file_groups: Map<Seq<char>, RespondMode>,
    file: RespondMode,
    g: Seq<char>,
) -> RespondMode {
    match c.global {
        Some(gc) => match gc.respond_mode {
            Some(m) => m,
            None => file_mode(file_groups, file, g),
        },
        None => file_mode(file_groups, file, g),
    }
}

/// The mode that the file sets for group `g`.
pub open spec fn file_mode(
    file_groups: Map<Seq<char>, RespondMode>,
    file: RespondMode,
    g: Seq<char>,
) -> RespondMode {
    if file_groups.contains_key(g) {
        file_groups[g]
    } else {
        file
    }
}

/// Whether an event speaks to the agent: a `p` tag with its key, or one of its names, its `npub1`
/// text or its hex key in the lower-case content.
pub open spec fn mentions(
    tags: Seq<Seq<Seq<char>>>,
    lowered: Seq<char>,
    key: Seq<char>,
    npub: Seq<char>,
    names: Seq<Seq<char>>,
) -> bool {
    ||| has_pair(tags, "p"@, key)
    ||| exists|i: int| 0 <= i < names.len() && has_substring(lowered, #[trigger] names[i])
    ||| has_substring(lowered, npub)
    ||| has_substring(lowered, key)
}

/// The text of a key in `npub1` form, empty where it is no key.
pub open spec fn npub_or_empty(key: Seq<char>) -> Seq<char> {
    if crate::keys::hex_key(key) is Some {
        npub_text(key)
    } else {
        Seq::empty()
    }
}

/// Whether an event whose content reads `lowered` in lower case speaks to the agent.
pub fn is_mentioned_in(
    tags: &Vec<Vec<String>>,
    lowered: &str,
    key: &str,
    npub: &str,
    names: &Vec<String>,
) -> (r: bool)
    ensures
        r == mentions(tag_texts(tags@), lowered@, key@, npub@, texts(names@)),
{
    if has_tag_pair(tags, "p", key) {
        return true;
    }
    let mut i: usize = 0;
    while i < names.len()
        invariant
            i <= names@.len(),
            forall|j: int| 0 <= j < i ==> !has_substring(lowered@, #[trigger] texts(names@)[j]),
        decreases names.len() - i,
    {
        if contains(lowered, names[i].as_str()) {
            assert(has_substring(lowered@, texts(names@)[i as int]));
            return true;
        }
        i = i + 1;
    }
    contains(lowered, npub) || contains(lowered, key)
}

impl NostrChannel {
    /// A channel with nothing set dynamically and nothing heard yet.
    pub fn new(config: NostrChannelConfig) -> (r: Self)
        ensures
            r.config == config,
            r.dynamic@ == (DynamicView {
                global: None,
                groups: Map::empty(),
                npubs: Map::empty(),
            }),
            r.history@ == Map::<Seq<char>, Vec<HistoryMessage>>::empty(),
            r.names@ == Map::<Seq<char>, String>::empty(),
            r.event_cache.entries().len() == 0,
            r.event_cache.limit() == EVENT_CACHE_CAPACITY,
            !r.owner_verified,
            history_ok(r.history@),
    {
        NostrChannel {
            config,
            dynamic: DynamicConfig::default(),
            history: TextMap::new(),
            names: TextMap::new(),
            event_cache: RecentTexts::new(EVENT_CACHE_CAPACITY),
            owner_verified: false,
        }
    }

    /// The name of the channel.
    pub fn name(&self) -> (r: String)
        ensures
            r@ == "nostr"@,
    {
        "nostr".to_owned()
    }

    /// The group that an event belongs to: the value of its first `h` tag.
    pub fn extract_group(event: &NostrEvent) -> (r: Option<String>)
        ensures
            opt_text(r) == first_value(event@.tags, "h"@),
    {
        first_tag_value(&event.tags, "h")
    }

    /// Whether an event is the agent's own.
    pub fn is_own_event(&self, event: &NostrEvent) -> (r: bool)
        ensures
            r == (event@.pubkey == self.config.public_key@),
    {
        str_eq(event.pubkey.as_str(), self.config.public_key.as_str())
    }

    /// Whether a sender is listened to.
    pub open spec fn allows(&self, key: Seq<char>) -> bool {
        !self.config.deny_all && (self.config.allowed_pubkeys@.len() == 0 || texts(
            self.config.allowed_pubkeys@,
        ).contains(key))
    }

    /// Whether a sender is listened to.
    pub fn is_allowed(&self, key: &str) -> (r: bool)
        ensures
            r == self.allows(key@),
    {
        !self.config.deny_all && (self.config.allowed_pubkeys.len() == 0 || list_contains(
            &self.config.allowed_pubkeys,
            key,
        ))
    }

    /// Whether `key` is the owner's.
    pub open spec fn owned_by(&self, key: Seq<char>) -> bool {
        opt_text(self.config.owner) == Some(key)
    }

    /// Whether an event is from the owner.
    pub fn is_from_owner(&self, event: &NostrEvent) -> (r: bool)
        ensures
            r == self.owned_by(event@.pubkey),
    {
        opt_eq(&self.config.owner, event.pubkey.as_str())
    }

    /// Whether a sender other than the owner may ask for an action that is open to others.
    pub fn is_action_allowed(&self, _action: &str, key: &str) -> (r: bool)
        ensures
            r == self.allows(key@),
    {
        self.is_allowed(key)
    }

    /// The context length in force for a group.
    pub fn effective_context_history(&self, group: &str) -> (r: usize)
        ensures
            r == context_len(self.dynamic@, self.config.context_history, group@),
    {
        if let Some(gc) = self.dynamic.groups.get(group) {
            if let Some(n) = gc.context_history {
                return n;
            }
        }
        if let Some(gc) = &self.dynamic.global {
            if let Some(n) = gc.context_history {
                return n;
            }
        }
        self.config.context_history
    }

    /// The mode in force for group `g`.
    pub open spec fn mode_in(&self, g: Seq<char>) -> RespondMode {
        mode_for(self.dynamic@, self.config.group_respond_mode@, self.config.respond_mode, g)
    }

    /// The mode in force for a group.
    pub fn respond_mode_for_group(&self, group: &str) -> (r: RespondMode)
        ensures
            r == self.mode_in(group@),
    {
        if let Some(gc) = self.dynamic.groups.get(group) {
            if let Some(mode) = gc.respond_mode {
                return mode;
            }
        }
        if let Some(gc) = &self.dynamic.global {
            if let Some(mode) = gc.respond_mode {
                return mode;
            }
        }
        if let Some(mode) = self.config.group_respond_mode.get(group) {
            return *mode;
        }
        self.config.respond_mode
    }

    /// Whether an event speaks to the agent.
    pub open spec fn mentioned_by(&self, e: EventView) -> bool {
        mentions(
            e.tags,
            lowercase(e.content),
            self.config.public_key@,
            npub_or_empty(self.config.public_key@),
            texts(self.config.mention_names@),
        )
    }

    /// Whether an event speaks to the agent.
    pub fn is_mentioned(&self, event: &NostrEvent) -> (r: bool)
        ensures
            r == self.mentioned_by(event@),
    {
        let lowered = to_lowercase(event.content.as_str());
        let npub = match key_to_npub(self.config.public_key.as_str()) {
            Some(n) => n,
            None => String::new(),
        };
        is_mentioned_in(
            &event.tags,
            lowered.as_str(),
            self.config.public_key.as_str(),
            npub.as_str(),
            &self.config.mention_names,
        )
    }

    /// The raw text of a cached event.
    pub fn get_raw_event_json(&mut self, event_id: &str) -> (r: Option<String>)
        ensures
            opt_text(r) == crate::channels::recent::key_value(
                old(self).event_cache.entries(),
                event_id@,
            ),
            final(self).event_cache.entries() == crate::channels::recent::entries_used(
                old(self).event_cache.entries(),
                event_id@,
            ),
            final(self).event_cache.limit() == old(self).event_cache.limit(),
            final(self).config == old(self).config,
            final(self).dynamic == old(self).dynamic,
            final(self).history == old(self).history,
            final(self).names == old(self).names,
            final(self).owner_verified == old(self).owner_verified,
    {
        self.event_cache.get(event_id)
    }

    /// Keeps the raw text of an event under its id.
    pub fn cache_event(&mut self, event_id: &str, raw: &str)
        ensures
            final(self).event_cache.limit() == old(self).event_cache.limit(),
            final(self).event_cache.entries() == crate::channels::recent::entries_put(
                old(self).event_cache.entries(),
                old(self).event_cache.limit(),
                event_id@,
                raw@,
            ),
            crate::channels::recent::key_value(final(self).event_cache.entries(), event_id@)
                == Some(raw@),
            final(self).config == old(self).config,
            final(self).dynamic == old(self).dynamic,
            final(self).history == old(self).history,
            final(self).names == old(self).names,
            final(self).owner_verified == old(self).owner_verified,
    {
        self.event_cache.put(event_id.to_owned(), raw.to_owned());
    }
}

} // verus!
