//! What the channel takes in from the relays before it listens.

use super::channel::{context_len, history_of, history_ok, HistoryMessage, NostrChannel};
use super::config::{
    apply_config_entry, config_of, entry_applied, parse_config_event, DynamicView,
};
use super::history::last_n;
use super::listen::ascii_can_cut;
use crate::channels::event::{first_value, EventView, NostrEvent};
use crate::keys::{npub_or_hex, npub_or_hex_text};
use crate::order::{numbers_in_order, ranked, stable_order};
use crate::text::{list_contains, texts};
use vstd::prelude::*;
use vstd::utf8::is_ascii_chars;

verus! {

/// What a list of events says.
pub open spec fn event_views(events: Seq<NostrEvent>) -> Seq<EventView> {
    Seq::new(events.len(), |i: int| events[i]@)
}

/// The configuration after the settings that events carry came in, one after the other.
pub open spec fn configs_applied(c: DynamicView, events: Seq<EventView>) -> DynamicView
    decreases events.len(),
{
    if events.len() == 0 {
        c
    } else {
        let before = configs_applied(c, events.drop_last());
        match config_of(events.last().tags) {
            Some(entry) => entry_applied(before, entry.0, entry.1),
            None => before,
        }
    }
}

/// The points in time of events.
pub open spec fn times(events: Seq<NostrEvent>) -> Seq<u64> {
    Seq::new(events.len(), |i: int| events[i].created_at)
}

/// The positions of events from the oldest to the newest.
pub fn oldest_first(events: &Vec<NostrEvent>) -> (r: Vec<usize>)
    ensures
        ranked(times(events@), events@.len() as int, r@, false),
{
    let mut keys: Vec<u64> = Vec::new();
    let mut i: usize = 0;
    while i < events.len()
        invariant
            i <= events@.len(),
            keys@ == times(events@).take(i as int),
        decreases events.len() - i,
    {
        keys.push(events[i].created_at);
        i = i + 1;
    }
    assert(keys@ =~= times(events@));
    stable_order(&keys, false)
}

impl NostrChannel {
    /// Takes in the settings that the owner published earlier.
    pub fn load_dynamic_config(&mut self, events: &Vec<NostrEvent>)
        ensures
            final(self).dynamic@ == configs_applied(old(self).dynamic@, event_views(events@)),
            final(self).config == old(self).config,
            final(self).history == old(self).history,
            final(self).names == old(self).names,
            final(self).event_cache == old(self).event_cache,
            final(self).owner_verified == old(self).owner_verified,
    {
        let ghost all = event_views(events@);
        let mut i: usize = 0;
        while i < events.len()
            invariant
                i <= events@.len(),
                all == event_views(events@),
                self.dynamic@ == configs_applied(old(self).dynamic@, all.take(i as int)),
                self.config == old(self).config,
                self.history == old(self).history,
                self.names == old(self).names,
                self.event_cache == old(self).event_cache,
                self.owner_verified == old(self).owner_verified,
            decreases events.len() - i,
        {
            proof {
                assert(all.take(i + 1).drop_last() =~= all.take(i as int));
            }
            if let Some(parsed) = parse_config_event(&events[i]) {
                apply_config_entry(&mut self.dynamic, parsed);
            }
            i = i + 1;
        }
        proof {
            assert(all.take(i as int) =~= all);
        }
    }

    /// The group whose history an earlier event belongs to: it is not the agent's own and stands in
    /// a configured group.
    pub open spec fn backfill_target(&self, e: EventView) -> Option<Seq<char>> {
        match first_value(e.tags, "h"@) {
            Some(g) => if e.pubkey != self.config.public_key@ && texts(
                self.config.groups@,
            ).contains(g) {
                Some(g)
            } else {
                None
            },
            None => None,
        }
    }

    /// The group whose history an earlier event belongs to.
    pub fn backfill_group(&self, event: &NostrEvent) -> (r: Option<String>)
        ensures
            crate::text::opt_text(r) == self.backfill_target(event@),
    {
        if self.is_own_event(event) {
            return None;
        }
        match NostrChannel::extract_group(event) {
            Some(g) => if list_contains(&self.config.groups, g.as_str()) {
                Some(g)
            } else {
                None
            },
            None => None,
        }
    }

    /// Adds an earlier event to the history that it belongs to. Tells whether it belongs to any.
    pub fn backfill_event(&mut self, event: &NostrEvent, sender_name: &str) -> (r: bool)
        requires
            history_ok(old(self).history@),
            is_ascii_chars(event@.pubkey),
        ensures
            history_ok(final(self).history@),
            r == (old(self).backfill_target(event@) is Some),
            !r ==> final(self).history == old(self).history,
            r ==> {
                let g = old(self).backfill_target(event@)->0;
                &&& final(self).history@.remove(g) == old(self).history@.remove(g)
                &&& exists|m: HistoryMessage|
                    {
                        &&& history_of(final(self).history@, g) == last_n(
                            #[trigger] history_of(old(self).history@, g).push(m),
                            context_len(
                                old(self).dynamic@,
                                old(self).config.context_history,
                                g,
                            ) as nat,
                        )
                        &&& m.sender@ == sender_name@
                        &&& m.npub@ == npub_or_hex_text(event@.pubkey)
                        &&& m.content@ == event@.content
                        &&& m.timestamp == event@.created_at
                        &&& m.event_id@ == event@.id
                        &&& m.is_owner == old(self).owned_by(event@.pubkey)
                    }
            },
            final(self).config == old(self).config,
            final(self).dynamic == old(self).dynamic,
            final(self).names == old(self).names,
            final(self).event_cache == old(self).event_cache,
            final(self).owner_verified == old(self).owner_verified,
    {
        let group = match self.backfill_group(event) {
            Some(g) => g,
            None => {
                return false;
            },
        };
        let npub = npub_or_hex(event.pubkey.as_str());
        proof {
            ascii_can_cut(npub@, 20);
        }
        let is_owner = self.is_from_owner(event);
        let msg = HistoryMessage {
            sender: sender_name.to_owned(),
            npub,
            content: event.content.clone(),
            timestamp: event.created_at,
            event_id: event.id.clone(),
            is_owner,
        };
        let ghost m = msg;
        let ghost before = history_of(self.history@, group@);
        self.push_history(group.as_str(), msg);
        assert(before.push(m) == before.push(m));
        true
    }
}

/// Settings that were published are applied in turn, so the last event on a scope counts; an event
/// that carries none changes nothing.
pub proof fn published_settings_are_loaded(c: DynamicView, events: Seq<EventView>, e: EventView)
    ensures
        configs_applied(c, Seq::empty()) == c,
        config_of(e.tags) matches Some(entry) ==> configs_applied(c, events.push(e)) == entry_applied(
            configs_applied(c, events),
            entry.0,
            entry.1,
        ),
        config_of(e.tags) is None ==> configs_applied(c, events.push(e)) == configs_applied(c, events),
{
    assert(events.push(e).drop_last() =~= events);
}

/// An earlier event belongs to the history of the group that it names, if that is followed and the
/// event is not the agent's own.
pub proof fn earlier_events_belong_to_groups(ch: &NostrChannel, e: EventView, g: Seq<char>)
    ensures
        ch.backfill_target(e) == Some(g) <==> first_value(e.tags, "h"@) == Some(g) && e.pubkey
            != ch.config.public_key@ && texts(ch.config.groups@).contains(g),
{
}

/// Earlier events are taken in from the oldest to the newest.
pub proof fn oldest_events_come_first(events: Seq<NostrEvent>, idx: Seq<usize>, i: int, j: int)
    requires
        ranked(times(events), events.len() as int, idx, false),
        0 <= i < j < idx.len(),
    ensures
        idx.len() == events.len(),
        events[idx[i] as int].created_at <= events[idx[j] as int].created_at,
        idx[i] != idx[j],
{
    numbers_in_order(times(events), idx, i, j);
}

} // verus!
