//! The events that the channel publishes, and where an outgoing message goes.

use super::channel::{history_of, history_ok, can_cut, context_len, HistoryMessage, NostrChannel};
use super::config::{config_of, last_history, last_mode, mode_of, GroupConfig};
use super::history::last_n;
use crate::channels::event::{
    agent_tag, agent_tag_text, any_value, first_value, lone_tag, pair_tag, tag_texts, DraftView, EventDraft,
};
use crate::keys::{hex_key, is_hex_digit, key_from_hex, key_from_npub, npub_key};
use crate::text::number::{decimal, parse_decimal_round_trip, u64_text};
use crate::text::pattern::{
    begins_with, differs_at, only_copies_are_stripped, starts_with, strip_leading,
    trim_start_matches,
};
use crate::text::{opt_str, opt_text};
use vstd::prelude::*;

verus! {

/// The event that carries a message to a group.
pub open spec fn group_message(group: Seq<char>, content: Seq<char>) -> DraftView {
    DraftView { kind: 9, tags: seq![seq!["h"@, group], agent_tag_text()], content }
}

/// The event that carries a message to a group.
pub fn group_message_draft(group: &str, content: &str) -> (r: EventDraft)
    ensures
        r@ == group_message(group@, content@),
{
    let mut tags: Vec<Vec<String>> = Vec::new();
    tags.push(pair_tag("h", group));
    tags.push(agent_tag());
    let r = EventDraft { kind: 9, tags, content: content.to_owned() };
    assert(r@.tags =~= group_message(group@, content@).tags);
    r
}

/// The event that announces that the agent is online.
pub open spec fn agent_state(content: Seq<char>) -> DraftView {
    DraftView {
        kind: 31121,
        tags: seq![
            seq!["d"@, "snowclaw:status"@],
            seq!["status"@, "online"@],
            seq!["version"@, "0.1.0"@],
            agent_tag_text(),
        ],
        content,
    }
}

/// The event that announces that the agent is online.
pub fn agent_state_draft(content: &str) -> (r: EventDraft)
    ensures
        r@ == agent_state(content@),
{
    let mut tags: Vec<Vec<String>> = Vec::new();
    tags.push(pair_tag("d", "snowclaw:status"));
    tags.push(pair_tag("status", "online"));
    tags.push(pair_tag("version", "0.1.0"));
    tags.push(agent_tag());
    let r = EventDraft { kind: 31121, tags, content: content.to_owned() };
    assert(r@.tags =~= agent_state(content@).tags);
    r
}

/// The profile event: what the relay holds already, marked as a bot and with its owner.
pub open spec fn bot_profile(existing: Option<Seq<char>>, owner: Option<Seq<char>>) -> DraftView {
    DraftView {
        kind: 0,
        tags: match owner {
            Some(o) => seq![seq!["bot"@], agent_tag_text(), seq!["p"@, o]],
            None => seq![seq!["bot"@], agent_tag_text()],
        },
        content: match existing {
            Some(c) => c,
            None => "{}"@,
        },
    }
}

/// The profile event: what the relay holds already, marked as a bot and with its owner.
pub fn bot_profile_draft(existing: Option<&str>, owner: &Option<String>) -> (r: EventDraft)
    ensures
        r@ == bot_profile(
            opt_str(existing),
            opt_text(*owner),
        ),
{
    let mut tags: Vec<Vec<String>> = Vec::new();
    tags.push(lone_tag("bot"));
    tags.push(agent_tag());
    let content = match existing {
        Some(c) => c.to_owned(),
        None => "{}".to_owned(),
    };
    if let Some(o) = owner {
        tags.push(pair_tag("p", o.as_str()));
        let r = EventDraft { kind: 0, tags, content };
        assert(r@.tags =~= seq![seq!["bot"@], agent_tag_text(), seq!["p"@, o@]]);
        r
    } else {
        let r = EventDraft { kind: 0, tags, content };
        assert(r@.tags =~= seq![seq!["bot"@], agent_tag_text()]);
        r
    }
}

/// The tags of an event that publishes settings for a scope.
pub open spec fn config_tags(
    d_tag: Seq<char>,
    mode: Option<Seq<char>>,
    history: Option<usize>,
) -> Seq<Seq<Seq<char>>> {
    let base = seq![seq!["d"@, d_tag], agent_tag_text()];
    let with_mode = match mode {
        Some(m) => base.push(seq!["respond_mode"@, m]),
        None => base,
    };
    match history {
        Some(n) => with_mode.push(seq!["context_history"@, decimal(n as nat)]),
        None => with_mode,
    }
}

/// The event that publishes settings for a scope.
pub fn config_event_draft(
    d_tag: &str,
    respond_mode: Option<&str>,
    context_history: Option<usize>,
) -> (r: EventDraft)
    ensures
        r@ == (DraftView {
            kind: 30078,
            tags: config_tags(
                d_tag@,
                opt_str(respond_mode),
                context_history,
            ),
            content: ""@,
        }),
{
    let mut tags: Vec<Vec<String>> = Vec::new();
    tags.push(pair_tag("d", d_tag));
    tags.push(agent_tag());
    let ghost base = seq![seq!["d"@, d_tag@], agent_tag_text()];
    assert(tag_texts(tags@) =~= base);
    if let Some(m) = respond_mode {
        let ghost before = tags@;
        tags.push(pair_tag("respond_mode", m));
        assert(tag_texts(tags@) =~= tag_texts(before).push(seq!["respond_mode"@, m@]));
    }
    if let Some(n) = context_history {
        let ghost before = tags@;
        tags.push(pair_tag("context_history", u64_text(n as u64).as_str()));
        assert(tag_texts(tags@) =~= tag_texts(before).push(
            seq!["context_history"@, decimal(n as nat)],
        ));
    }
    EventDraft { kind: 30078, tags, content: "".to_owned() }
}

/// The names of the tags of a configuration event differ.
proof fn config_tag_names_differ()
    ensures
        "d"@ != "agent"@,
        "d"@ != "respond_mode"@,
        "d"@ != "context_history"@,
        "agent"@ != "respond_mode"@,
        "agent"@ != "context_history"@,
        "respond_mode"@ != "context_history"@,
{
    reveal_strlit("d");
    reveal_strlit("agent");
    reveal_strlit("respond_mode");
    reveal_strlit("context_history");
    assert("d"@.len() == 1 && "agent"@.len() == 5 && "respond_mode"@.len() == 12
        && "context_history"@.len() == 15);
}

/// Settings that were published for a scope read back as they were published.
pub proof fn published_config_reads_back(
    d_tag: Seq<char>,
    mode: Option<Seq<char>>,
    history: Option<usize>,
)
    requires
        begins_with(d_tag, "snowclaw:config:"@),
    ensures
        config_of(config_tags(d_tag, mode, history)) == Some(
            (
                d_tag,
                GroupConfig {
                    respond_mode: match mode {
                        Some(m) => Some(mode_of(m)),
                        None => None,
                    },
                    context_history: history,
                },
            ),
        ),
{
    config_tag_names_differ();
    let base = seq![seq!["d"@, d_tag], agent_tag_text()];
    let with_mode = match mode {
        Some(m) => base.push(seq!["respond_mode"@, m]),
        None => base,
    };
    let tags = config_tags(d_tag, mode, history);
    assert(tags[0] == seq!["d"@, d_tag]);
    assert(any_value(tags, "d"@) == Some(d_tag));
    assert(base.drop_last() =~= seq![seq!["d"@, d_tag]]);
    assert(base.drop_last().drop_last() =~= Seq::<Seq<Seq<char>>>::empty());
    reveal_with_fuel(last_mode, 4);
    reveal_with_fuel(last_history, 4);
    assert(last_mode(base) is None);
    assert(last_history(base) is None);
    if mode is Some {
        assert(with_mode.drop_last() =~= base);
    }
    if let Some(n) = history {
        assert(tags.drop_last() =~= with_mode);
        parse_decimal_round_trip(n as nat, usize::MAX as nat);
    }
}

/// Where an outgoing message goes.
pub enum Recipient {
    /// To a group.
    Group(String),
    /// To the holder of a public key.
    Person(String),
    /// Nowhere: the address reads `npub` but is no key.
    InvalidNpub,
    /// Nowhere: the address is neither a group nor a key.
    InvalidHex,
}

/// What a `Recipient` says.
pub enum RecipientView {
    Group(Seq<char>),
    Person(Seq<char>),
    InvalidNpub,
    InvalidHex,
}

impl View for Recipient {
    type V = RecipientView;

    open spec fn view(&self) -> RecipientView {
        match self {
            Recipient::Group(g) => RecipientView::Group(g@),
            Recipient::Person(k) => RecipientView::Person(k@),
            Recipient::InvalidNpub => RecipientView::InvalidNpub,
            Recipient::InvalidHex => RecipientView::InvalidHex,
        }
    }
}

/// Where a message to `address` goes, given the key that the address stands for as an `npub1` text.
pub open spec fn recipient_of(address: Seq<char>, as_npub: Option<Seq<char>>) -> RecipientView {
    if begins_with(address, "#"@) {
        RecipientView::Group(strip_leading(address, "#"@))
    } else if begins_with(address, "npub"@) {
        match as_npub {
            Some(k) => RecipientView::Person(k),
            None => RecipientView::InvalidNpub,
        }
    } else {
        match hex_key(address) {
            Some(k) => RecipientView::Person(k),
            None => RecipientView::InvalidHex,
        }
    }
}

/// Where a message to `address` goes, given the key that the address stands for as an `npub1` text.
pub fn route_with(address: &str, as_npub: Option<String>) -> (r: Recipient)
    ensures
        r@ == recipient_of(address@, opt_text(as_npub)),
{
    if starts_with(address, "#") {
        Recipient::Group(trim_start_matches(address, "#"))
    } else if starts_with(address, "npub") {
        match as_npub {
            Some(k) => Recipient::Person(k),
            None => Recipient::InvalidNpub,
        }
    } else {
        match key_from_hex(address) {
            Some(k) => Recipient::Person(k),
            None => Recipient::InvalidHex,
        }
    }
}

/// Where a message to `address` goes: a group after `#`, else a key in `npub1` or hex form.
pub fn route(address: &str) -> (r: Recipient)
    ensures
        r@ == recipient_of(address@, npub_key(address@)),
{
    route_with(address, key_from_npub(address))
}

impl NostrChannel {
    /// Adds the agent's own message to the history of a group.
    pub fn record_own_message(
        &mut self,
        group: &str,
        name: &str,
        npub: &str,
        content: &str,
        event_id: &str,
        now: u64,
    )
        requires
            history_ok(old(self).history@),
            can_cut(npub@, 20),
        ensures
            history_ok(final(self).history@),
            ({
                let max = context_len(
                    old(self).dynamic@,
                    old(self).config.context_history,
                    group@,
                ) as nat;
                let after = history_of(final(self).history@, group@);
                let before = history_of(old(self).history@, group@);
                exists|m: HistoryMessage|
                    {
                        &&& after == last_n(#[trigger] before.push(m), max)
                        &&& m.sender@ == name@
                        &&& m.npub@ == npub@
                        &&& m.content@ == content@
                        &&& m.event_id@ == event_id@
                        &&& m.timestamp == now
                        &&& !m.is_owner
                    }
            }),
            final(self).history@.remove(group@) == old(self).history@.remove(group@),
            final(self).config == old(self).config,
            final(self).dynamic == old(self).dynamic,
            final(self).names == old(self).names,
            final(self).event_cache == old(self).event_cache,
            final(self).owner_verified == old(self).owner_verified,
    {
        let msg = HistoryMessage {
            sender: name.to_owned(),
            npub: npub.to_owned(),
            content: content.to_owned(),
            timestamp: now,
            event_id: event_id.to_owned(),
            is_owner: false,
        };
        let ghost m = msg;
        let ghost before = history_of(self.history@, group@);
        self.push_history(group, msg);
        assert(before.push(m) == before.push(m));
    }
}

/// A message to a group carries the group and what is said; the agent's state says that it is online;
/// and every event that is published names the agent.
pub proof fn published_events_name_the_agent(group: Seq<char>, content: Seq<char>, owner: Seq<char>)
    ensures
        ({
            let m = group_message(group, content);
            &&& m.kind == 9 && m.content == content
            &&& first_value(m.tags, "h"@) == Some(group)
            &&& first_value(m.tags, "agent"@) == Some("snowclaw"@)
        }),
        ({
            let s = agent_state(content);
            &&& s.kind == 31121 && s.content == content
            &&& first_value(s.tags, "d"@) == Some("snowclaw:status"@)
            &&& first_value(s.tags, "status"@) == Some("online"@)
            &&& first_value(s.tags, "agent"@) == Some("snowclaw"@)
        }),
        ({
            let p = bot_profile(Some(content), Some(owner));
            &&& p.kind == 0 && p.content == content
            &&& p.tags.contains(seq!["bot"@])
            &&& first_value(p.tags, "p"@) == Some(owner)
            &&& first_value(p.tags, "agent"@) == Some("snowclaw"@)
        }),
        first_value(bot_profile(Some(content), None).tags, "p"@) is None,
        bot_profile(None, None).content == "{}"@,
        bot_profile(None, Some(owner)).content == "{}"@,
{
    reveal_strlit("h");
    reveal_strlit("agent");
    reveal_strlit("d");
    reveal_strlit("status");
    reveal_strlit("version");
    reveal_strlit("bot");
    reveal_strlit("p");
    assert("h"@.len() == 1 && "agent"@.len() == 5 && "d"@.len() == 1 && "status"@.len() == 6
        && "version"@.len() == 7 && "bot"@.len() == 3 && "p"@.len() == 1);
    reveal_with_fuel(first_value, 6);
    let p = bot_profile(Some(content), Some(owner));
    assert(p.tags[0] == seq!["bot"@]);
}

/// An address that begins with a hash is a group, without its hashes; one that begins as an npub is the
/// contact that it reads as; any other is a key in hex; and what does not read is told.
pub proof fn addresses_lead_to_recipients(address: Seq<char>, as_npub: Option<Seq<char>>, g: Seq<char>)
    ensures
        !begins_with(g, "#"@) ==> recipient_of("#"@ + g, as_npub) == RecipientView::Group(g),
        begins_with(address, "npub"@) ==> (as_npub matches Some(k) ==> recipient_of(address, as_npub)
            == RecipientView::Person(k)),
        begins_with(address, "npub"@) && as_npub is None ==> recipient_of(address, as_npub)
            is InvalidNpub,
        hex_key(address) matches Some(k) ==> recipient_of(address, as_npub) == RecipientView::Person(k),
        hex_key(address) is None && !begins_with(address, "#"@) && !begins_with(address, "npub"@)
            ==> recipient_of(address, as_npub) is InvalidHex,
{
    reveal_strlit("#");
    reveal_strlit("npub");
    let a = "#"@ + g;
    assert(a.subrange(0, 1) =~= "#"@);
    assert(a.skip(1) =~= g);
    only_copies_are_stripped(a, "#"@);
    only_copies_are_stripped(g, "#"@);
    if begins_with(address, "npub"@) {
        assert(address.subrange(0, 4)[0] == address[0]);
        assert("npub"@[0] == 'n' && "#"@[0] == '#');
        differs_at(address, "#"@, 0);
        assert(address[0] == 'n');
    }
    if hex_key(address) is Some {
        assert(is_hex_digit(address[0]));
        assert("npub"@[0] == 'n' && "#"@[0] == '#');
        differs_at(address, "#"@, 0);
        differs_at(address, "npub"@, 0);
    }
}

} // verus!
