//! Social memory on the relay: what is published of it and what is read back.

use super::event::{
    agent_tag, agent_tag_text, first_tag_value, first_value, pair_tag, tag_named, tag_texts,
    DraftView, EventDraft,
};
use super::nostr_memory::{
    cache_to_social_group, cache_to_social_npub, group_row_of, npub_row_of, GroupMemory,
    NostrMemory, NpubMemory, SocialDb,
};
use crate::keys::{hex_key, key_from_npub, key_to_npub, npub_key, npub_text};
use crate::memory::social::{
    group_merged, npub_merged, opt_group, opt_npub, upsert_group, upsert_npub, GroupRow, NpubRow,
    SocialGroup, SocialNpub, SocialTables,
};
use crate::order::filter_map_holds;
use crate::text::pattern::{begins_with, differs_at, strip_prefix};
use crate::text::opt_text;
use crate::text_map::{added_key_is_there, key_added};
use vstd::prelude::*;

verus! {

/// The contacts and the groups that are known.
pub struct SocialState {
    pub npubs: Map<Seq<char>, NpubRow>,
    pub groups: Map<Seq<char>, GroupRow>,
    /// The keys of the contacts, in the order in which they were first met.
    pub npub_keys: Seq<Seq<char>>,
}

/// A row of either kind.
pub enum SocialRow {
    Npub(NpubRow),
    Group(GroupRow),
}

/// What is known after a row was stored, merged with what was known.
pub open spec fn stored(s: SocialState, row: SocialRow) -> SocialState {
    match row {
        SocialRow::Npub(n) => SocialState {
            npubs: s.npubs.insert(
                n.hex_pubkey,
                npub_merged(
                    if s.npubs.contains_key(n.hex_pubkey) {
                        Some(s.npubs[n.hex_pubkey])
                    } else {
                        None
                    },
                    n,
                ),
            ),
            npub_keys: key_added(s.npub_keys, n.hex_pubkey),
            ..s
        },
        SocialRow::Group(g) => SocialState {
            groups: s.groups.insert(
                g.group_id,
                group_merged(
                    if s.groups.contains_key(g.group_id) {
                        Some(s.groups[g.group_id])
                    } else {
                        None
                    },
                    g,
                ),
            ),
            ..s
        },
    }
}

/// What is known after rows were stored in turn.
pub open spec fn stored_all(s: SocialState, rows: Seq<SocialRow>) -> SocialState
    decreases rows.len(),
{
    if rows.len() == 0 {
        s
    } else {
        stored(stored_all(s, rows.drop_last()), rows.last())
    }
}

proof fn stored_all_push(s: SocialState, rows: Seq<SocialRow>, row: SocialRow)
    ensures
        stored_all(s, rows.push(row)) == stored(stored_all(s, rows), row),
{
    assert(rows.push(row).drop_last() =~= rows);
}

/// The state of the tables.
pub open spec fn state_of(t: &SocialTables) -> SocialState {
    SocialState { npubs: t.npubs(), groups: t.groups(), npub_keys: t.npub_keys() }
}

// ---------------------------------------------------------------------------
// Publishing
// ---------------------------------------------------------------------------

/// What the address of a published contact begins with.
pub open spec fn npub_prefix() -> Seq<char> {
    "snowclaw:memory:npub:"@
}

/// What the address of a published group begins with.
pub open spec fn group_prefix() -> Seq<char> {
    "snowclaw:memory:group:"@
}

/// The event that publishes a contact.
pub open spec fn npub_event(row: NpubRow, content: Seq<char>) -> DraftView {
    let base = seq![
        seq!["d"@, npub_prefix() + npub_text(row.hex_pubkey)],
        seq!["app"@, "snowclaw"@],
        agent_tag_text(),
    ];
    DraftView {
        kind: 30078,
        tags: match row.first_seen_group {
            Some(g) => base.push(seq!["h"@, g]),
            None => base,
        },
        content,
    }
}

/// The event that publishes a contact, given with its JSON form; none where its key does not read.
/// The row that the event carries is read back under the same key.
pub fn npub_draft(row: &SocialNpub, content: &str) -> (r: Option<EventDraft>)
    ensures
        match r {
            Some(d) => {
                &&& hex_key(row@.hex_pubkey) is Some
                &&& d@ == npub_event(row@, content@)
                &&& relay_row(d@.tags, Some(row@), None) == Some(
                    SocialRow::Npub(
                        NpubRow { hex_pubkey: hex_key(row@.hex_pubkey)->0, ..row@ },
                    ),
                )
            },
            None => hex_key(row@.hex_pubkey) is None,
        },
{
    match key_to_npub(row.hex_pubkey.as_str()) {
        Some(npub) => {
            let mut d_tag = String::from_str("snowclaw:memory:npub:");
            d_tag.append(npub.as_str());
            let mut tags: Vec<Vec<String>> = Vec::new();
            tags.push(pair_tag("d", d_tag.as_str()));
            tags.push(pair_tag("app", "snowclaw"));
            tags.push(agent_tag());
            if let Some(g) = &row.first_seen_group {
                tags.push(pair_tag("h", g.as_str()));
            }
            let r = EventDraft { kind: 30078, tags, content: content.to_owned() };
            proof {
                assert(r@.tags =~= npub_event(row@, content@).tags);
                assert(tag_named(r@.tags[0], "d"@));
                assert((npub_prefix() + npub@).skip(npub_prefix().len() as int) =~= npub@);
                assert((npub_prefix() + npub@).take(npub_prefix().len() as int) =~= npub_prefix());
            }
            Some(r)
        },
        None => None,
    }
}

/// The event that publishes a group.
pub open spec fn group_event(row: GroupRow, content: Seq<char>) -> DraftView {
    DraftView {
        kind: 30078,
        tags: seq![
            seq!["d"@, group_prefix() + row.group_id],
            seq!["h"@, row.group_id],
            seq!["app"@, "snowclaw"@],
            agent_tag_text(),
        ],
        content,
    }
}

/// The event that publishes a group, given with its JSON form. The row that the event carries is
/// read back as it is.
pub fn group_draft(row: &SocialGroup, content: &str) -> (r: EventDraft)
    ensures
        r@ == group_event(row@, content@),
        relay_row(r@.tags, None, Some(row@)) == Some(SocialRow::Group(row@)),
{
    let mut d_tag = String::from_str("snowclaw:memory:group:");
    d_tag.append(row.group_id.as_str());
    let mut tags: Vec<Vec<String>> = Vec::new();
    tags.push(pair_tag("d", d_tag.as_str()));
    tags.push(pair_tag("h", row.group_id.as_str()));
    tags.push(pair_tag("app", "snowclaw"));
    tags.push(agent_tag());
    let r = EventDraft { kind: 30078, tags, content: content.to_owned() };
    proof {
        let d = group_prefix() + row@.group_id;
        assert(r@.tags =~= group_event(row@, content@).tags);
        assert(tag_named(r@.tags[0], "d"@));
        assert(d.skip(group_prefix().len() as int) =~= row@.group_id);
        assert(d.take(group_prefix().len() as int) =~= group_prefix());
        reveal_strlit("snowclaw:memory:npub:");
        reveal_strlit("snowclaw:memory:group:");
        assert(d[16] == 'g');
        assert(npub_prefix()[16] == 'n');
        if begins_with(d, npub_prefix()) {
            assert(d.subrange(0, npub_prefix().len() as int)[16] == d[16]);
        }
    }
    r
}

// ---------------------------------------------------------------------------
// Reading back
// ---------------------------------------------------------------------------

/// A published event, with what its content reads as.
pub struct SocialEvent {
    pub tags: Vec<Vec<String>>,
    pub npub: Option<SocialNpub>,
    pub group: Option<SocialGroup>,
}

/// The row that a published event stands for: its address decides of whom it speaks.
pub open spec fn relay_row(
    tags: Seq<Seq<Seq<char>>>,
    npub: Option<NpubRow>,
    group: Option<GroupRow>,
) -> Option<SocialRow> {
    match first_value(tags, "d"@) {
        Some(d) => if begins_with(d, npub_prefix()) {
            match (npub_key(d.skip(npub_prefix().len() as int)), npub) {
                (Some(k), Some(row)) => Some(SocialRow::Npub(NpubRow { hex_pubkey: k, ..row })),
                _ => None,
            }
        } else if begins_with(d, group_prefix()) {
            match group {
                Some(row) => Some(
                    SocialRow::Group(
                        GroupRow { group_id: d.skip(group_prefix().len() as int), ..row },
                    ),
                ),
                None => None,
            }
        } else {
            None
        },
        None => None,
    }
}

/// The row that a published event stands for.
pub open spec fn row_of(event: SocialEvent) -> Option<SocialRow> {
    relay_row(tag_texts(event.tags@), opt_npub(event.npub), opt_group(event.group))
}

/// The rows that published events stand for, in order.
pub open spec fn relay_rows(events: Seq<SocialEvent>) -> Seq<SocialRow> {
    events.filter_map(|e: SocialEvent| row_of(e))
}

fn store_event(t: &mut SocialTables, event: &SocialEvent) -> (r: bool)
    ensures
        r == (row_of(*event) is Some),
        state_of(final(t)) == (match row_of(*event) {
            Some(row) => stored(state_of(old(t)), row),
            None => state_of(old(t)),
        }),
{
    match first_tag_value(&event.tags, "d") {
        Some(d) => match strip_prefix(d.as_str(), "snowclaw:memory:npub:") {
            Some(rest) => match key_from_npub(rest.as_str()) {
                Some(hex) => match &event.npub {
                    Some(row) => {
                        let mut npub = row.clone();
                        npub.hex_pubkey = hex;
                        upsert_npub(t, &npub);
                        true
                    },
                    None => false,
                },
                None => false,
            },
            None => match strip_prefix(d.as_str(), "snowclaw:memory:group:") {
                Some(id) => match &event.group {
                    Some(row) => {
                        let mut group = row.clone();
                        group.group_id = id;
                        upsert_group(t, &group);
                        true
                    },
                    None => false,
                },
                None => false,
            },
        },
        None => false,
    }
}

impl NostrMemory {
    /// What is known.
    pub open spec fn state(&self) -> SocialState {
        SocialState {
            npubs: self.npubs(),
            groups: self.groups(),
            npub_keys: self.npub_keys(),
        }
    }

    /// Stores what the relay holds. Gives the number of rows stored.
    pub fn sync_social_from_relay(&mut self, events: &Vec<SocialEvent>) -> (r: usize)
        ensures
            old(self).db is None ==> r == 0 && final(self).db is None,
            old(self).db is Some ==> {
                &&& r == relay_rows(events@).len()
                &&& final(self).state() == stored_all(old(self).state(), relay_rows(events@))
                &&& final(self).db is Some
            },
            final(self).same_index(old(self)),
    {
        match &mut self.db {
            Some(db) => {
                let n: usize = events.len();
                let ghost start = state_of(&db.social);
                let ghost messages = db.messages;
                let ghost docs = db.docs;
                let ghost f = |e: SocialEvent| row_of(e);
                let mut synced: usize = 0;
                let mut i: usize = 0;
                assert(relay_rows(events@.take(0)) =~= Seq::<SocialRow>::empty());
                while i < n
                    invariant
                        i <= n,
                        n == events@.len(),
                        synced <= i,
                        f == (|e: SocialEvent| row_of(e)),
                        synced == relay_rows(events@.take(i as int)).len(),
                        state_of(&db.social) == stored_all(
                            start,
                            relay_rows(events@.take(i as int)),
                        ),
                        db.messages == messages,
                        db.docs == docs,
                    decreases n - i,
                {
                    proof {
                        events@.lemma_filter_map_take_succ(f, i as int);
                    }
                    let ghost rows = relay_rows(events@.take(i as int));
                    if store_event(&mut db.social, &events[i]) {
                        proof {
                            let row = row_of(events@[i as int])->0;
                            stored_all_push(start, rows, row);
                            assert(relay_rows(events@.take(i + 1)) =~= rows.push(row));
                        }
                        synced = synced + 1;
                    } else {
                        assert(relay_rows(events@.take(i + 1)) =~= rows);
                    }
                    i = i + 1;
                }
                proof {
                    assert(events@.take(n as int) =~= events@);
                }
                synced
            },
            None => 0,
        }
    }

    /// A memory on tables. Where they are empty, what an older file held is stored first: contacts,
    /// each with its profile as JSON, then groups.
    pub fn with_sqlite(
        db: SocialDb,
        npubs: &Vec<(NpubMemory, Option<String>)>,
        groups: &Vec<GroupMemory>,
    ) -> (r: Self)
        ensures
            r.db is Some,
            r.state() == (if db.social.npubs() == Map::<Seq<char>, NpubRow>::empty()
                && db.social.groups() == Map::<Seq<char>, GroupRow>::empty() {
                stored_all(state_of(&db.social), legacy_npubs(npubs@) + legacy_groups(groups@))
            } else {
                state_of(&db.social)
            }),
            r.messages() == db.messages@,
            r.message_ids() == db.messages.ids(),
            r.docs() == db.docs@,
    {
        let mut db = db;
        let ghost start = state_of(&db.social);
        let ghost messages = db.messages;
        let ghost docs = db.docs;
        if db.social.is_empty() {
            let n: usize = npubs.len();
            let ghost all = legacy_npubs(npubs@);
            let ghost later = legacy_groups(groups@);
            let mut i: usize = 0;
            assert(all.take(0) =~= Seq::<SocialRow>::empty());
            while i < n
                invariant
                    i <= n,
                    n == npubs@.len(),
                    all == legacy_npubs(npubs@),
                    state_of(&db.social) == stored_all(start, all.take(i as int)),
                    db.messages == messages,
                    db.docs == docs,
                decreases n - i,
            {
                let row = cache_to_social_npub(&npubs[i].0, npubs[i].1.clone());
                upsert_npub(&mut db.social, &row);
                proof {
                    stored_all_push(start, all.take(i as int), all[i as int]);
                    assert(all.take(i + 1) =~= all.take(i as int).push(all[i as int]));
                }
                i = i + 1;
            }
            let m: usize = groups.len();
            let mut j: usize = 0;
            assert(all + later.take(0) =~= all.take(n as int));
            while j < m
                invariant
                    j <= m,
                    m == groups@.len(),
                    later == legacy_groups(groups@),
                    state_of(&db.social) == stored_all(start, all + later.take(j as int)),
                    db.messages == messages,
                    db.docs == docs,
                decreases m - j,
            {
                let row = cache_to_social_group(&groups[j]);
                upsert_group(&mut db.social, &row);
                proof {
                    stored_all_push(start, all + later.take(j as int), later[j as int]);
                    assert(all + later.take(j + 1) =~= (all + later.take(j as int)).push(
                        later[j as int],
                    ));
                }
                j = j + 1;
            }
            assert(later.take(m as int) =~= later);
        }
        NostrMemory { db: Some(db) }
    }
}

/// The rows of remembered contacts.
pub open spec fn legacy_npubs(npubs: Seq<(NpubMemory, Option<String>)>) -> Seq<SocialRow> {
    Seq::new(
        npubs.len(),
        |i: int| SocialRow::Npub(npub_row_of(npubs[i].0@, opt_text(npubs[i].1))),
    )
}

/// The rows of remembered groups.
pub open spec fn legacy_groups(groups: Seq<GroupMemory>) -> Seq<SocialRow> {
    Seq::new(groups.len(), |i: int| SocialRow::Group(group_row_of(groups[i]@)))
}

/// Storing rows in turn keeps every contact and group that was there and adds those of the rows, and
/// no other.
pub proof fn stored_rows_are_there(s: SocialState, rows: Seq<SocialRow>, k: Seq<char>)
    ensures
        stored_all(s, rows).npubs.contains_key(k) <==> s.npubs.contains_key(k) || exists|i: int|
            0 <= i < rows.len() && (#[trigger] rows[i]) is Npub && rows[i]->Npub_0.hex_pubkey == k,
        stored_all(s, rows).groups.contains_key(k) <==> s.groups.contains_key(k) || exists|i: int|
            0 <= i < rows.len() && (#[trigger] rows[i]) is Group && rows[i]->Group_0.group_id == k,
        s.npub_keys.contains(k) ==> stored_all(s, rows).npub_keys.contains(k),
    decreases rows.len(),
{
    if rows.len() > 0 {
        let rest = rows.drop_last();
        let n = rows.len() - 1;
        stored_rows_are_there(s, rest, k);
        assert(rows.last() == rows[n]);
        if rows[n] is Npub {
            added_key_is_there(stored_all(s, rest).npub_keys, rows[n]->Npub_0.hex_pubkey);
            let keys = stored_all(s, rest).npub_keys;
            if keys.contains(k) {
                let i = choose|i: int| 0 <= i < keys.len() && keys[i] == k;
                assert(key_added(keys, rows[n]->Npub_0.hex_pubkey)[i] == k);
            }
        }
        if exists|i: int|
            0 <= i < rest.len() && (#[trigger] rest[i]) is Npub && rest[i]->Npub_0.hex_pubkey == k {
            let i = choose|i: int|
                0 <= i < rest.len() && (#[trigger] rest[i]) is Npub && rest[i]->Npub_0.hex_pubkey == k;
            assert(rows[i] is Npub && rows[i]->Npub_0.hex_pubkey == k);
        }
        if exists|i: int|
            0 <= i < rows.len() && (#[trigger] rows[i]) is Npub && rows[i]->Npub_0.hex_pubkey == k {
            let i = choose|i: int|
                0 <= i < rows.len() && (#[trigger] rows[i]) is Npub && rows[i]->Npub_0.hex_pubkey == k;
            if i < n {
                assert(rest[i] is Npub && rest[i]->Npub_0.hex_pubkey == k);
            }
        }
        if exists|i: int|
            0 <= i < rest.len() && (#[trigger] rest[i]) is Group && rest[i]->Group_0.group_id == k {
            let i = choose|i: int|
                0 <= i < rest.len() && (#[trigger] rest[i]) is Group && rest[i]->Group_0.group_id == k;
            assert(rows[i] is Group && rows[i]->Group_0.group_id == k);
        }
        if exists|i: int|
            0 <= i < rows.len() && (#[trigger] rows[i]) is Group && rows[i]->Group_0.group_id == k {
            let i = choose|i: int|
                0 <= i < rows.len() && (#[trigger] rows[i]) is Group && rows[i]->Group_0.group_id == k;
            if i < n {
                assert(rest[i] is Group && rest[i]->Group_0.group_id == k);
            }
        }
    }
}

/// A row that is stored says the latest of its contact or group, and touches no other.
pub proof fn stored_row_counts(s: SocialState, n: NpubRow, g: GroupRow, other: Seq<char>)
    ensures
        ({
            let t = stored(s, SocialRow::Npub(n));
            &&& t.npubs[n.hex_pubkey].display_name == n.display_name
            &&& t.npubs[n.hex_pubkey].last_interaction == n.last_interaction
            &&& !s.npubs.contains_key(n.hex_pubkey) ==> t.npubs[n.hex_pubkey] == n
            &&& s.npubs.contains_key(n.hex_pubkey) ==> t.npubs[n.hex_pubkey].first_seen
                == s.npubs[n.hex_pubkey].first_seen
            &&& other != n.hex_pubkey && s.npubs.contains_key(other) ==> t.npubs[other]
                == s.npubs[other]
            &&& t.groups == s.groups
            &&& t.npub_keys.contains(n.hex_pubkey)
        }),
        ({
            let t = stored(s, SocialRow::Group(g));
            &&& t.groups[g.group_id].last_activity == g.last_activity
            &&& !s.groups.contains_key(g.group_id) ==> t.groups[g.group_id] == g
            &&& g.purpose is Some ==> t.groups[g.group_id].purpose == g.purpose
            &&& other != g.group_id && s.groups.contains_key(other) ==> t.groups[other]
                == s.groups[other]
            &&& t.npubs == s.npubs && t.npub_keys == s.npub_keys
        }),
{
    added_key_is_there(s.npub_keys, n.hex_pubkey);
}

/// The event of a contact names the contact, and reads back as it: with its own key and, of the rest,
/// what the content held.
pub proof fn contact_events_read_back(row: NpubRow, content: Seq<char>, read: NpubRow)
    ensures
        ({
            let e = npub_event(row, content);
            &&& e.content == content
            &&& e.kind == 30078
            &&& first_value(e.tags, "d"@) == Some("snowclaw:memory:npub:"@ + npub_text(row.hex_pubkey))
            &&& first_value(e.tags, "h"@) == row.first_seen_group
            &&& first_value(e.tags, "app"@) == Some("snowclaw"@)
            &&& first_value(e.tags, "agent"@) == Some("snowclaw"@)
            &&& npub_key(npub_text(row.hex_pubkey)) == Some(row.hex_pubkey) ==> relay_row(
                e.tags,
                Some(read),
                None,
            ) == Some(SocialRow::Npub(NpubRow { hex_pubkey: row.hex_pubkey, ..read }))
            &&& relay_row(e.tags, None, None) is None
        }),
{
    reveal_strlit("d");
    reveal_strlit("h");
    reveal_strlit("app");
    reveal_strlit("agent");
    let e = npub_event(row, content);
    let d = "snowclaw:memory:npub:"@ + npub_text(row.hex_pubkey);
    let n = "snowclaw:memory:npub:"@.len() as int;
    assert("d"@[0] != "h"@[0]);
    assert("d"@.len() == 1 && "h"@.len() == 1 && "app"@.len() == 3 && "agent"@.len() == 5);
    reveal_with_fuel(first_value, 6);
    assert(d.subrange(0, n) =~= "snowclaw:memory:npub:"@);
    assert(d.skip(n) =~= npub_text(row.hex_pubkey));
    assert(first_value(e.tags, "d"@) == Some(d));
}

/// The event of a group names the group, and reads back as it.
pub proof fn group_events_read_back(row: GroupRow, content: Seq<char>, read: GroupRow)
    ensures
        ({
            let e = group_event(row, content);
            &&& e.content == content
            &&& e.kind == 30078
            &&& first_value(e.tags, "d"@) == Some("snowclaw:memory:group:"@ + row.group_id)
            &&& first_value(e.tags, "h"@) == Some(row.group_id)
            &&& first_value(e.tags, "app"@) == Some("snowclaw"@)
            &&& first_value(e.tags, "agent"@) == Some("snowclaw"@)
            &&& relay_row(e.tags, None, Some(read)) == Some(
                SocialRow::Group(GroupRow { group_id: row.group_id, ..read }),
            )
            &&& relay_row(e.tags, None, None) is None
        }),
{
    reveal_strlit("d");
    reveal_strlit("h");
    reveal_strlit("app");
    reveal_strlit("agent");
    reveal_strlit("snowclaw:memory:npub:");
    reveal_strlit("snowclaw:memory:group:");
    let e = group_event(row, content);
    let d = "snowclaw:memory:group:"@ + row.group_id;
    let n = "snowclaw:memory:group:"@.len() as int;
    assert("d"@[0] != "h"@[0]);
    assert("d"@.len() == 1 && "h"@.len() == 1 && "app"@.len() == 3 && "agent"@.len() == 5);
    reveal_with_fuel(first_value, 6);
    assert(d.subrange(0, n) =~= "snowclaw:memory:group:"@);
    assert(d.skip(n) =~= row.group_id);
    differs_at(d, "snowclaw:memory:npub:"@, 16);
    assert(first_value(e.tags, "d"@) == Some(d));
}

/// What events hold, in turn; an event of neither kind holds nothing.
pub proof fn events_hold_rows(events: Seq<SocialEvent>, row: SocialRow)
    ensures
        relay_rows(events).contains(row) <==> exists|i: int|
            0 <= i < events.len() && row_of(#[trigger] events[i]) == Some(row),
        forall|tags: Seq<Seq<Seq<char>>>, n: Option<NpubRow>, g: Option<GroupRow>|
            (first_value(tags, "d"@) is None || !begins_with(
                first_value(tags, "d"@)->0,
                "snowclaw:memory:npub:"@,
            ) && !begins_with(first_value(tags, "d"@)->0, "snowclaw:memory:group:"@)) ==> (
            #[trigger] relay_row(tags, n, g)) is None,
{
    let f = |e: SocialEvent| row_of(e);
    filter_map_holds(events, f, row);
    if relay_rows(events).contains(row) {
        let x = choose|x: SocialEvent| #[trigger] events.contains(x) && f(x) == Some(row);
        let i = choose|i: int| 0 <= i < events.len() && events[i] == x;
        assert(row_of(events[i]) == Some(row));
    }
    if exists|i: int| 0 <= i < events.len() && row_of(#[trigger] events[i]) == Some(row) {
        let i = choose|i: int| 0 <= i < events.len() && row_of(#[trigger] events[i]) == Some(row);
        assert(events.contains(events[i]) && f(events[i]) == Some(row));
    }
}

/// What an older file held becomes a row for each contact and each group, in its order.
pub proof fn older_rows(
    npubs: Seq<(NpubMemory, Option<String>)>,
    groups: Seq<GroupMemory>,
    i: int,
)
    ensures
        legacy_npubs(npubs).len() == npubs.len(),
        legacy_groups(groups).len() == groups.len(),
        0 <= i < npubs.len() ==> legacy_npubs(npubs)[i] is Npub && legacy_npubs(
            npubs,
        )[i]->Npub_0.hex_pubkey == npubs[i].0@.npub_hex && legacy_npubs(npubs)[i]->Npub_0.display_name
            == npubs[i].0@.display_name && legacy_npubs(npubs)[i]->Npub_0.profile_json == opt_text(
            npubs[i].1,
        ),
        0 <= i < groups.len() ==> legacy_groups(groups)[i] is Group && legacy_groups(
            groups,
        )[i]->Group_0.group_id == groups[i]@.group_id && legacy_groups(groups)[i]->Group_0.purpose
            == groups[i]@.purpose,
{
}

} // verus!
