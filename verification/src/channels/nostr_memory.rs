//! Memory of contacts and groups for the Nostr channel.

use crate::json::{
    json_of_pairs, json_of_texts, json_of_unsigned_pairs, list_or_empty, pairs_or_empty,
    texts_or_empty, unsigned_pair_list_or_empty, unsigned_pairs, unsigned_pairs_or_empty,
    write_texts, write_unsigned_pairs,
};
use crate::memory::doc_index::{docs_found, search_docs, DocHit, DocRow, DocTable};
use crate::memory::fts::or_nothing;
use crate::memory::message_index::{
    decision, messages_found, search_messages, IndexDecision, MessageHit, MessageRow, MessageTable,
};
use crate::memory::social::{
    add_group_note, add_npub_note, append_name, build_social_context, get_group, get_npub,
    group_context, list_npubs, newest_first, npub_context, npub_merged, npub_noted, npub_touched,
    opt_group, opt_npub, record_group_member, set_group_purpose, touch_npub, upsert_group,
    upsert_npub, GroupRow, NpubRow, SocialGroup, SocialNpub, SocialTables,
};
use crate::memory::unified_search::{best_of_all, search_all, SearchTables, UnifiedHit};
use crate::order::filter_holds;
use crate::text::space::trimmed;
use crate::text_map::key_added;
use crate::text::pattern::{begins_with, starts_with};
use crate::text::{opt_owned, opt_str, opt_text, str_eq, texts};
use vstd::prelude::*;

verus! {

/// What is remembered of a contact.
#[derive(Debug)]
pub struct NpubMemory {
    pub npub_hex: String,
    pub display_name: String,
    pub first_seen: u64,
    pub first_seen_group: Option<String>,
    /// The agent's observations.
    pub notes: Vec<String>,
    /// The owner's notes.
    pub owner_notes: Vec<String>,
    pub last_interaction: u64,
    /// Earlier names with the time of each change.
    pub name_history: Vec<(u64, String)>,
    /// The contact's published profile.
    pub profile_metadata: Option<ProfileMetadata>,
}

/// A published profile.
#[derive(Debug)]
pub struct ProfileMetadata {
    pub name: Option<String>,
    pub display_name: Option<String>,
    pub about: Option<String>,
    pub picture: Option<String>,
    pub nip05: Option<String>,
    pub lud16: Option<String>,
    pub fetched_at: u64,
}

/// What is remembered of a group.
#[derive(Debug)]
pub struct GroupMemory {
    pub group_id: String,
    pub purpose: Option<String>,
    /// Keys of members seen in the group.
    pub members_seen: Vec<String>,
    /// The agent's observations.
    pub notes: Vec<String>,
    pub last_activity: u64,
}

/// What an `NpubMemory` says, without the profile.
pub struct NpubMemoryView {
    pub npub_hex: Seq<char>,
    pub display_name: Seq<char>,
    pub first_seen: u64,
    pub first_seen_group: Option<Seq<char>>,
    pub notes: Seq<Seq<char>>,
    pub owner_notes: Seq<Seq<char>>,
    pub last_interaction: u64,
    pub name_history: Seq<(u64, Seq<char>)>,
}

impl View for NpubMemory {
    type V = NpubMemoryView;

    open spec fn view(&self) -> NpubMemoryView {
        NpubMemoryView {
            npub_hex: self.npub_hex@,
            display_name: self.display_name@,
            first_seen: self.first_seen,
            first_seen_group: opt_text(self.first_seen_group),
            notes: texts(self.notes@),
            owner_notes: texts(self.owner_notes@),
            last_interaction: self.last_interaction,
            name_history: unsigned_pairs(self.name_history@),
        }
    }
}

/// What a `GroupMemory` says.
pub struct GroupMemoryView {
    pub group_id: Seq<char>,
    pub purpose: Option<Seq<char>>,
    pub members_seen: Seq<Seq<char>>,
    pub notes: Seq<Seq<char>>,
    pub last_activity: u64,
}

impl View for GroupMemory {
    type V = GroupMemoryView;

    open spec fn view(&self) -> GroupMemoryView {
        GroupMemoryView {
            group_id: self.group_id@,
            purpose: opt_text(self.purpose),
            members_seen: texts(self.members_seen@),
            notes: texts(self.notes@),
            last_activity: self.last_activity,
        }
    }
}

/// The tables behind the memory.
pub struct SocialDb {
    pub social: SocialTables,
    pub messages: MessageTable,
    pub docs: DocTable,
}

impl SocialDb {
    /// Empty tables.
    pub fn new() -> (r: Self)
        ensures
            r.social.npubs() == Map::<Seq<char>, NpubRow>::empty(),
            r.social.groups() == Map::<Seq<char>, GroupRow>::empty(),
            r.messages@ == Map::<Seq<char>, MessageRow>::empty(),
            r.docs@ == Seq::<DocRow>::empty(),
            r.social.npub_keys() == Seq::<Seq<char>>::empty(),
            r.messages.ids() == Seq::<Seq<char>>::empty(),
    {
        SocialDb { social: SocialTables::new(), messages: MessageTable::new(), docs: DocTable::new() }
    }
}

/// The memory of the channel. Without tables nothing is remembered.
pub struct NostrMemory {
    pub db: Option<SocialDb>,
}

// ---------------------------------------------------------------------------
// Rows and what they stand for
// ---------------------------------------------------------------------------

/// What a contact's row says to readers of the memory.
pub open spec fn npub_memory_of(row: NpubRow) -> NpubMemoryView {
    NpubMemoryView {
        npub_hex: row.hex_pubkey,
        display_name: row.display_name,
        first_seen: row.first_seen as u64,
        first_seen_group: row.first_seen_group,
        notes: texts_or_empty(row.notes_json),
        owner_notes: texts_or_empty(row.owner_notes_json),
        last_interaction: row.last_interaction as u64,
        name_history: unsigned_pairs_or_empty(row.name_history_json),
    }
}

/// What a contact's row says to readers of the memory, with the profile that was read from it.
pub fn social_npub_to_npub_memory(s: &SocialNpub, profile: Option<ProfileMetadata>) -> (r:
    NpubMemory)
    ensures
        r@ == npub_memory_of(s@),
        r.profile_metadata == profile,
{
    NpubMemory {
        npub_hex: s.hex_pubkey.clone(),
        display_name: s.display_name.clone(),
        first_seen: s.first_seen as u64,
        first_seen_group: s.first_seen_group.clone(),
        notes: list_or_empty(&s.notes_json),
        owner_notes: list_or_empty(&s.owner_notes_json),
        last_interaction: s.last_interaction as u64,
        name_history: unsigned_pair_list_or_empty(&s.name_history_json),
        profile_metadata: profile,
    }
}

/// What a group's row says to readers of the memory.
pub open spec fn group_memory_of(row: GroupRow) -> GroupMemoryView {
    GroupMemoryView {
        group_id: row.group_id,
        purpose: row.purpose,
        members_seen: texts_or_empty(row.members_json),
        notes: texts_or_empty(row.notes_json),
        last_activity: row.last_activity as u64,
    }
}

/// What a group's row says to readers of the memory.
pub fn social_group_to_group_memory(s: &SocialGroup) -> (r: GroupMemory)
    ensures
        r@ == group_memory_of(s@),
{
    GroupMemory {
        group_id: s.group_id.clone(),
        purpose: s.purpose.clone(),
        members_seen: list_or_empty(&s.members_json),
        notes: list_or_empty(&s.notes_json),
        last_activity: s.last_activity as u64,
    }
}

/// The JSON text of a list that is not empty.
pub open spec fn json_unless_empty(list: Seq<Seq<char>>) -> Option<Seq<char>> {
    if list.len() == 0 {
        None
    } else {
        Some(json_of_texts(list))
    }
}

fn list_json(list: &Vec<String>) -> (r: Option<String>)
    ensures
        opt_text(r) == json_unless_empty(texts(list@)),
        texts_or_empty(opt_text(r)) == texts(list@),
{
    if list.len() == 0 {
        assert(texts(list@) =~= Seq::<Seq<char>>::empty());
        None
    } else {
        assert(texts(list@).len() > 0);
        Some(write_texts(list))
    }
}

/// The JSON text of a name history that is not empty.
pub open spec fn history_unless_empty(list: Seq<(u64, Seq<char>)>) -> Option<Seq<char>> {
    if list.len() == 0 {
        None
    } else {
        Some(json_of_unsigned_pairs(list))
    }
}

fn history_json(list: &Vec<(u64, String)>) -> (r: Option<String>)
    ensures
        opt_text(r) == history_unless_empty(unsigned_pairs(list@)),
        unsigned_pairs_or_empty(opt_text(r)) == unsigned_pairs(list@),
{
    if list.len() == 0 {
        assert(unsigned_pairs(list@) =~= Seq::<(u64, Seq<char>)>::empty());
        None
    } else {
        assert(unsigned_pairs(list@).len() > 0);
        Some(write_unsigned_pairs(list))
    }
}

/// The row that stands for a remembered contact.
pub open spec fn npub_row_of(m: NpubMemoryView, profile_json: Option<Seq<char>>) -> NpubRow {
    NpubRow {
        hex_pubkey: m.npub_hex,
        display_name: m.display_name,
        first_seen: m.first_seen as i64,
        first_seen_group: m.first_seen_group,
        last_interaction: m.last_interaction as i64,
        profile_json,
        name_history_json: history_unless_empty(m.name_history),
        notes_json: json_unless_empty(m.notes),
        owner_notes_json: json_unless_empty(m.owner_notes),
        preferences_json: None,
        is_owner: false,
    }
}

/// The row that stands for a remembered contact, with its profile as JSON. Reading the row gives the
/// same notes and names back.
pub fn cache_to_social_npub(n: &NpubMemory, profile_json: Option<String>) -> (r: SocialNpub)
    ensures
        r@ == npub_row_of(n@, opt_text(profile_json)),
        npub_memory_of(r@).notes == n@.notes,
        npub_memory_of(r@).owner_notes == n@.owner_notes,
        npub_memory_of(r@).name_history == n@.name_history,
{
    SocialNpub {
        hex_pubkey: n.npub_hex.clone(),
        display_name: n.display_name.clone(),
        first_seen: n.first_seen as i64,
        first_seen_group: n.first_seen_group.clone(),
        last_interaction: n.last_interaction as i64,
        profile_json,
        name_history_json: history_json(&n.name_history),
        notes_json: list_json(&n.notes),
        owner_notes_json: list_json(&n.owner_notes),
        preferences_json: None,
        is_owner: false,
    }
}

/// The row that stands for a remembered group.
pub open spec fn group_row_of(m: GroupMemoryView) -> GroupRow {
    GroupRow {
        group_id: m.group_id,
        purpose: m.purpose,
        members_json: json_unless_empty(m.members_seen),
        notes_json: json_unless_empty(m.notes),
        last_activity: m.last_activity as i64,
    }
}

/// The row that stands for a remembered group. Reading the row gives the same members and notes
/// back.
pub fn cache_to_social_group(g: &GroupMemory) -> (r: SocialGroup)
    ensures
        r@ == group_row_of(g@),
        group_memory_of(r@).members_seen == g@.members_seen,
        group_memory_of(r@).notes == g@.notes,
{
    SocialGroup {
        group_id: g.group_id.clone(),
        purpose: g.purpose.clone(),
        members_json: list_json(&g.members_seen),
        notes_json: list_json(&g.notes),
        last_activity: g.last_activity as i64,
    }
}

/// A number that fits both ways survives the two casts.
proof fn casts_round_trip(n: u64)
    ensures
        (n as i64) as u64 == n,
{
    assert((n as i64) as u64 == n) by (bit_vector);
}

/// A remembered contact reads back from its row as it was.
pub proof fn npub_row_reads_back(m: NpubMemoryView, profile_json: Option<Seq<char>>)
    ensures
        ({
            let back = npub_memory_of(npub_row_of(m, profile_json));
            &&& back.npub_hex == m.npub_hex
            &&& back.display_name == m.display_name
            &&& back.first_seen == m.first_seen
            &&& back.first_seen_group == m.first_seen_group
            &&& back.last_interaction == m.last_interaction
        }),
{
    casts_round_trip(m.first_seen);
    casts_round_trip(m.last_interaction);
}

// ---------------------------------------------------------------------------
// The memory
// ---------------------------------------------------------------------------

/// A contact that has just been met.
pub open spec fn new_contact(
    hex: Seq<char>,
    name: Seq<char>,
    ts: i64,
    group: Option<Seq<char>>,
    is_owner: bool,
) -> NpubRow {
    NpubRow {
        hex_pubkey: hex,
        display_name: name,
        first_seen: ts,
        first_seen_group: group,
        last_interaction: ts,
        profile_json: None,
        name_history_json: None,
        notes_json: None,
        owner_notes_json: None,
        preferences_json: None,
        is_owner,
    }
}

fn fresh_contact(hex: &str, name: &str, ts: i64, group: Option<&str>, is_owner: bool) -> (r:
    SocialNpub)
    ensures
        r@ == new_contact(
            hex@,
            name@,
            ts,
            opt_str(group),
            is_owner,
        ),
{
    SocialNpub {
        hex_pubkey: hex.to_owned(),
        display_name: name.to_owned(),
        first_seen: ts,
        first_seen_group: opt_owned(group),
        last_interaction: ts,
        profile_json: None,
        name_history_json: None,
        notes_json: None,
        owner_notes_json: None,
        preferences_json: None,
        is_owner,
    }
}

/// The note on another agent's state.
pub open spec fn state_note(name: Seq<char>, status: Seq<char>, d_tag: Seq<char>) -> Seq<char> {
    "["@ + name + "] state: "@ + status + " d="@ + d_tag
}

/// What the notes on an agent's state begin with.
pub open spec fn state_prefix(name: Seq<char>) -> Seq<char> {
    "["@ + name + "] state:"@
}

/// Notes with the one on an agent's state replaced.
pub open spec fn notes_with_state(
    notes: Seq<Seq<char>>,
    name: Seq<char>,
    note: Seq<char>,
) -> Seq<Seq<char>> {
    notes.filter(|n: Seq<char>| !begins_with(n, state_prefix(name))).push(note)
}

fn replace_state(notes: &Vec<String>, name: &str, note: String) -> (r: Vec<String>)
    ensures
        texts(r@) == notes_with_state(texts(notes@), name@, note@),
{
    let ghost all = texts(notes@);
    let ghost keep = |n: Seq<char>| !begins_with(n, state_prefix(name@));
    let mut prefix = String::from_str("[");
    prefix.append(name);
    prefix.append("] state:");
    let mut r: Vec<String> = Vec::new();
    let mut i: usize = 0;
    proof {
        reveal(Seq::filter);
        assert(texts(r@) =~= all.take(0).filter(keep));
    }
    while i < notes.len()
        invariant
            i <= notes@.len(),
            all == texts(notes@),
            prefix@ == state_prefix(name@),
            keep == (|n: Seq<char>| !begins_with(n, state_prefix(name@))),
            texts(r@) == all.take(i as int).filter(keep),
        decreases notes.len() - i,
    {
        proof {
            reveal(Seq::filter);
            assert(all.take(i + 1).drop_last() =~= all.take(i as int));
            assert(all.take(i + 1).last() == notes@[i as int]@);
        }
        if !starts_with(notes[i].as_str(), prefix.as_str()) {
            let ghost before = r@;
            r.push(notes[i].clone());
            assert(texts(r@) =~= texts(before).push(notes@[i as int]@));
        }
        i = i + 1;
    }
    let ghost before = r@;
    r.push(note);
    proof {
        assert(all.take(i as int) =~= all);
        assert(texts(r@) =~= texts(before).push(note@));
    }
    r
}

/// The name that a profile gives: the display name, else the name.
pub open spec fn profile_name(p: ProfileMetadata) -> Option<Seq<char>> {
    match p.display_name {
        Some(n) => Some(n@),
        None => opt_text(p.name),
    }
}

/// A contact after its profile came in. A change of name is kept in its history.
pub open spec fn npub_with_profile(
    row: NpubRow,
    name: Option<Seq<char>>,
    fetched_at: u64,
    profile_json: Option<Seq<char>>,
) -> NpubRow {
    match name {
        Some(n) => if n == row.display_name {
            NpubRow { profile_json, ..row }
        } else {
            NpubRow {
                display_name: n,
                name_history_json: Some(
                    json_of_pairs(
                        pairs_or_empty(row.name_history_json).push(
                            (fetched_at as i64, row.display_name),
                        ),
                    ),
                ),
                profile_json,
                ..row
            }
        },
        None => NpubRow { profile_json, ..row },
    }
}

impl NostrMemory {
    /// A memory without tables: nothing is remembered.
    pub fn new() -> (r: Self)
        ensures
            r.db is None,
    {
        NostrMemory { db: None }
    }

    /// The contacts by key.
    pub open spec fn npubs(&self) -> Map<Seq<char>, NpubRow> {
        match self.db {
            Some(db) => db.social.npubs(),
            None => Map::empty(),
        }
    }

    /// The groups by id.
    pub open spec fn groups(&self) -> Map<Seq<char>, GroupRow> {
        match self.db {
            Some(db) => db.social.groups(),
            None => Map::empty(),
        }
    }

    /// The indexed messages by id.
    pub open spec fn messages(&self) -> Map<Seq<char>, MessageRow> {
        match self.db {
            Some(db) => db.messages@,
            None => Map::empty(),
        }
    }

    /// The ids of the indexed messages, in the order in which they were first stored.
    pub open spec fn message_ids(&self) -> Seq<Seq<char>> {
        match self.db {
            Some(db) => db.messages.ids(),
            None => Seq::empty(),
        }
    }

    /// The indexed documents.
    pub open spec fn docs(&self) -> Seq<DocRow> {
        match self.db {
            Some(db) => db.docs@,
            None => Seq::empty(),
        }
    }

    /// The keys of the contacts, in the order in which they were first met.
    pub open spec fn npub_keys(&self) -> Seq<Seq<char>> {
        match self.db {
            Some(db) => db.social.npub_keys(),
            None => Seq::empty(),
        }
    }

    /// Whether the indexed messages and documents are those of another memory, in the same order.
    pub open spec fn same_index(&self, other: &NostrMemory) -> bool {
        &&& self.messages() == other.messages()
        &&& self.message_ids() == other.message_ids()
        &&& self.docs() == other.docs()
    }

    /// The contact with a key.
    pub open spec fn contact(&self, k: Seq<char>) -> Option<NpubRow> {
        if self.npubs().contains_key(k) {
            Some(self.npubs()[k])
        } else {
            None
        }
    }

    /// The group with an id.
    pub open spec fn group(&self, k: Seq<char>) -> Option<GroupRow> {
        if self.groups().contains_key(k) {
            Some(self.groups()[k])
        } else {
            None
        }
    }

    /// Makes sure that a contact is remembered. Tells whether it is new.
    pub fn ensure_npub(
        &mut self,
        hex_pubkey: &str,
        display_name: &str,
        timestamp: u64,
        group: Option<&str>,
        is_owner: bool,
    ) -> (r: bool)
        ensures
            r == (old(self).db is Some && old(self).contact(hex_pubkey@) is None),
            final(self).npubs() == (if old(self).db is None {
                old(self).npubs()
            } else {
                old(self).npubs().insert(
                    hex_pubkey@,
                    match old(self).contact(hex_pubkey@) {
                        Some(row) => npub_touched(row, display_name@, timestamp as i64),
                        None => new_contact(
                            hex_pubkey@,
                            display_name@,
                            timestamp as i64,
                            opt_str(group),
                            is_owner,
                        ),
                    },
                )
            }),
            final(self).groups() == old(self).groups(),
            final(self).npub_keys() == (if old(self).db is None {
                old(self).npub_keys()
            } else {
                key_added(old(self).npub_keys(), hex_pubkey@)
            }),
            final(self).same_index(old(self)),
            final(self).db is Some == old(self).db is Some,
    {
        match &mut self.db {
            Some(db) => {
                let ts: i64 = timestamp as i64;
                if touch_npub(&mut db.social, hex_pubkey, display_name, ts) {
                    let row = fresh_contact(hex_pubkey, display_name, ts, group, is_owner);
                    upsert_npub(&mut db.social, &row);
                    true
                } else {
                    false
                }
            },
            None => false,
        }
    }

    /// Makes sure that a group is remembered. Tells whether it is new.
    pub fn ensure_group(&mut self, group_id: &str, timestamp: u64) -> (r: bool)
        ensures
            r == (old(self).db is Some && old(self).group(group_id@) is None),
            final(self).groups() == (if old(self).db is None {
                old(self).groups()
            } else {
                old(self).groups().insert(
                    group_id@,
                    match old(self).group(group_id@) {
                        Some(row) => GroupRow { last_activity: timestamp as i64, ..row },
                        None => GroupRow {
                            group_id: group_id@,
                            purpose: None,
                            members_json: None,
                            notes_json: None,
                            last_activity: timestamp as i64,
                        },
                    },
                )
            }),
            final(self).npubs() == old(self).npubs(),
            final(self).npub_keys() == old(self).npub_keys(),
            final(self).same_index(old(self)),
            final(self).db is Some == old(self).db is Some,
    {
        match &mut self.db {
            Some(db) => {
                let ts: i64 = timestamp as i64;
                match get_group(&db.social, group_id) {
                    Some(mut row) => {
                        row.last_activity = ts;
                        upsert_group(&mut db.social, &row);
                        false
                    },
                    None => {
                        let row = SocialGroup {
                            group_id: group_id.to_owned(),
                            purpose: None,
                            members_json: None,
                            notes_json: None,
                            last_activity: ts,
                        };
                        upsert_group(&mut db.social, &row);
                        true
                    },
                }
            },
            None => false,
        }
    }

    /// Records that a contact was seen in a group, once.
    pub fn record_group_member(&mut self, group_id: &str, hex_pubkey: &str)
        ensures
            old(self).group(group_id@) matches Some(row) ==> final(self).group(group_id@) matches Some(
                after,
            ) && texts_or_empty(after.members_json) == key_added(
                texts_or_empty(row.members_json),
                hex_pubkey@,
            ) && after == (GroupRow { members_json: after.members_json, ..row }),
            final(self).groups().remove(group_id@) == old(self).groups().remove(group_id@),
            final(self).groups().contains_key(group_id@) == old(self).groups().contains_key(group_id@),
            final(self).npubs() == old(self).npubs(),
            final(self).npub_keys() == old(self).npub_keys(),
            final(self).same_index(old(self)),
            final(self).db is Some == old(self).db is Some,
    {
        if let Some(db) = &mut self.db {
            record_group_member(&mut db.social, group_id, hex_pubkey);
        }
        proof {
            assert(self.groups().remove(group_id@) =~= old(self).groups().remove(group_id@));
        }
    }

    fn add_note(&mut self, hex_pubkey: &str, note: &str, is_owner: bool)
        ensures
            final(self).npubs() == (match old(self).contact(hex_pubkey@) {
                Some(row) => old(self).npubs().insert(
                    hex_pubkey@,
                    npub_noted(row, note@, is_owner),
                ),
                None => old(self).npubs(),
            }),
            old(self).contact(hex_pubkey@) matches Some(row) ==> {
                let after = final(self).contact(hex_pubkey@)->0;
                &&& is_owner ==> texts_or_empty(after.owner_notes_json) == texts_or_empty(
                    row.owner_notes_json,
                ).push(note@)
                &&& !is_owner ==> texts_or_empty(after.notes_json) == texts_or_empty(
                    row.notes_json,
                ).push(note@)
            },
            final(self).groups() == old(self).groups(),
            final(self).npub_keys() == old(self).npub_keys(),
            final(self).same_index(old(self)),
            final(self).db is Some == old(self).db is Some,
    {
        if let Some(db) = &mut self.db {
            add_npub_note(&mut db.social, hex_pubkey, note, is_owner);
        }
    }

    /// Adds one of the agent's notes about a contact.
    pub fn add_npub_note(&mut self, hex_pubkey: &str, note: &str)
        ensures
            final(self).npubs() == (match old(self).contact(hex_pubkey@) {
                Some(row) => old(self).npubs().insert(hex_pubkey@, npub_noted(row, note@, false)),
                None => old(self).npubs(),
            }),
            old(self).contact(hex_pubkey@) matches Some(row) ==> texts_or_empty(
                final(self).contact(hex_pubkey@)->0.notes_json,
            ) == texts_or_empty(row.notes_json).push(note@),
            final(self).groups() == old(self).groups(),
            final(self).npub_keys() == old(self).npub_keys(),
            final(self).same_index(old(self)),
            final(self).db is Some == old(self).db is Some,
    {
        self.add_note(hex_pubkey, note, false);
    }

    /// Adds one of the owner's notes about a contact.
    pub fn add_npub_owner_note(&mut self, hex_pubkey: &str, note: &str)
        ensures
            final(self).npubs() == (match old(self).contact(hex_pubkey@) {
                Some(row) => old(self).npubs().insert(hex_pubkey@, npub_noted(row, note@, true)),
                None => old(self).npubs(),
            }),
            old(self).contact(hex_pubkey@) matches Some(row) ==> texts_or_empty(
                final(self).contact(hex_pubkey@)->0.owner_notes_json,
            ) == texts_or_empty(row.owner_notes_json).push(note@),
            final(self).groups() == old(self).groups(),
            final(self).npub_keys() == old(self).npub_keys(),
            final(self).same_index(old(self)),
            final(self).db is Some == old(self).db is Some,
    {
        self.add_note(hex_pubkey, note, true);
    }

    /// Adds a note about a group.
    pub fn add_group_note(&mut self, group_id: &str, note: &str)
        ensures
            final(self).groups() == (match old(self).group(group_id@) {
                Some(row) => old(self).groups().insert(
                    group_id@,
                    GroupRow {
                        notes_json: Some(
                            crate::memory::social::appended(row.notes_json, note@),
                        ),
                        ..row
                    },
                ),
                None => old(self).groups(),
            }),
            old(self).group(group_id@) matches Some(row) ==> texts_or_empty(
                final(self).group(group_id@)->0.notes_json,
            ) == texts_or_empty(row.notes_json).push(note@),
            final(self).npubs() == old(self).npubs(),
            final(self).npub_keys() == old(self).npub_keys(),
            final(self).same_index(old(self)),
            final(self).db is Some == old(self).db is Some,
    {
        if let Some(db) = &mut self.db {
            add_group_note(&mut db.social, group_id, note);
        }
    }

    /// Sets what a group is for.
    pub fn set_group_purpose(&mut self, group_id: &str, purpose: &str)
        ensures
            final(self).groups() == (match old(self).group(group_id@) {
                Some(row) => old(self).groups().insert(
                    group_id@,
                    GroupRow { purpose: Some(purpose@), ..row },
                ),
                None => old(self).groups(),
            }),
            final(self).npubs() == old(self).npubs(),
            final(self).npub_keys() == old(self).npub_keys(),
            final(self).same_index(old(self)),
            final(self).db is Some == old(self).db is Some,
    {
        if let Some(db) = &mut self.db {
            set_group_purpose(&mut db.social, group_id, purpose);
        }
    }

    /// Takes in a contact's profile, given with its JSON form. Tells whether the contact is
    /// remembered.
    pub fn update_profile(
        &mut self,
        hex_pubkey: &str,
        metadata: &ProfileMetadata,
        profile_json: Option<String>,
    ) -> (r: bool)
        ensures
            r == (old(self).contact(hex_pubkey@) is Some),
            final(self).npubs() == (match old(self).contact(hex_pubkey@) {
                Some(row) => old(self).npubs().insert(
                    hex_pubkey@,
                    npub_merged(
                        Some(row),
                        npub_with_profile(
                            row,
                            profile_name(*metadata),
                            metadata.fetched_at,
                            opt_text(profile_json),
                        ),
                    ),
                ),
                None => old(self).npubs(),
            }),
            final(self).groups() == old(self).groups(),
            final(self).npub_keys() == old(self).npub_keys(),
            final(self).same_index(old(self)),
            final(self).db is Some == old(self).db is Some,
    {
        match &mut self.db {
            Some(db) => match get_npub(&db.social, hex_pubkey) {
                Some(mut row) => {
                    let name = match &metadata.display_name {
                        Some(n) => Some(n.clone()),
                        None => metadata.name.clone(),
                    };
                    if let Some(n) = name {
                        if !str_eq(n.as_str(), row.display_name.as_str()) {
                            let updated = append_name(
                                &row.name_history_json,
                                metadata.fetched_at as i64,
                                row.display_name.as_str(),
                            );
                            row.name_history_json = Some(updated);
                            row.display_name = n;
                        }
                    }
                    row.profile_json = profile_json;
                    upsert_npub(&mut db.social, &row);
                    true
                },
                None => false,
            },
            None => false,
        }
    }

    /// What is remembered of a contact, with the profile that was read from its row.
    pub fn get_npub(&self, hex_pubkey: &str, profile: Option<ProfileMetadata>) -> (r: Option<
        NpubMemory,
    >)
        ensures
            match r {
                Some(m) => self.contact(hex_pubkey@) matches Some(row) && m@ == npub_memory_of(row)
                    && m.profile_metadata == profile,
                None => self.contact(hex_pubkey@) is None,
            },
    {
        match &self.db {
            Some(db) => match get_npub(&db.social, hex_pubkey) {
                Some(row) => Some(social_npub_to_npub_memory(&row, profile)),
                None => None,
            },
            None => None,
        }
    }

    /// The row of a contact.
    pub fn npub_row(&self, hex_pubkey: &str) -> (r: Option<SocialNpub>)
        ensures
            opt_npub(r) == self.contact(hex_pubkey@),
    {
        match &self.db {
            Some(db) => get_npub(&db.social, hex_pubkey),
            None => None,
        }
    }

    /// The row of a group.
    pub fn group_row(&self, group_id: &str) -> (r: Option<SocialGroup>)
        ensures
            opt_group(r) == self.group(group_id@),
    {
        match &self.db {
            Some(db) => get_group(&db.social, group_id),
            None => None,
        }
    }

    /// What is remembered of a group.
    pub fn get_group(&self, group_id: &str) -> (r: Option<GroupMemory>)
        ensures
            match r {
                Some(m) => self.group(group_id@) matches Some(row) && m@ == group_memory_of(row),
                None => self.group(group_id@) is None,
            },
    {
        match &self.db {
            Some(db) => match get_group(&db.social, group_id) {
                Some(row) => Some(social_group_to_group_memory(&row)),
                None => None,
            },
            None => None,
        }
    }

    /// The rows of all contacts, the most recently met first.
    pub fn list_npubs(&self) -> (r: Vec<SocialNpub>)
        ensures
            self.db is Some ==> newest_first(self.npubs(), r@),
            self.db is None ==> r@.len() == 0,
    {
        match &self.db {
            Some(db) => list_npubs(&db.social),
            None => Vec::new(),
        }
    }

    /// Searches the indexed messages. Nothing without tables, or where the search fails.
    pub fn search_messages(&self, query: &str, limit: usize) -> (r: Vec<MessageHit>)
        ensures
            self.db is None ==> r@.len() == 0,
            r@.len() == 0 || messages_found(
                self.db->0.messages@,
                self.db->0.messages.ids(),
                query@,
                limit as int,
                r@,
            ),
    {
        match &self.db {
            Some(db) => or_nothing(search_messages(&db.messages, query, limit)),
            None => Vec::new(),
        }
    }

    /// Searches the indexed documents. Nothing without tables, or where the search fails.
    pub fn search_docs(&self, query: &str, limit: usize) -> (r: Vec<DocHit>)
        ensures
            self.db is None ==> r@.len() == 0,
            r@.len() == 0 || docs_found(self.db->0.docs@, query@, limit as int, r@),
    {
        match &self.db {
            Some(db) => or_nothing(search_docs(&db.docs, query, limit)),
            None => Vec::new(),
        }
    }

    /// Searches contacts, messages and documents together. Nothing without tables.
    pub fn unified_search(&self, query: &str, limit: usize) -> (r: Vec<UnifiedHit>)
        requires
            limit * 2 <= usize::MAX,
        ensures
            self.db is None || trimmed(query@).len() == 0 ==> r@.len() == 0,
            self.db is Some && trimmed(query@).len() > 0 ==> best_of_all(
                (SearchTables {
                    memories: None,
                    social: Some(&self.db->0.social),
                    messages: Some(&self.db->0.messages),
                    docs: Some(&self.db->0.docs),
                }),
                query@,
                limit as int,
                r@,
            ),
            r@.len() <= limit,
    {
        match &self.db {
            Some(db) => search_all(
                &SearchTables {
                    memories: None,
                    social: Some(&db.social),
                    messages: Some(&db.messages),
                    docs: Some(&db.docs),
                },
                query,
                limit,
            ),
            None => Vec::new(),
        }
    }

    /// What is said about a sender and a group in front of a message.
    pub fn build_context(&self, sender_hex: &str, group_id: &str) -> (r: String)
        ensures
            r@ == group_context(group_id@, self.group(group_id@)) + npub_context(
                self.contact(sender_hex@),
            ),
    {
        match &self.db {
            Some(db) => build_social_context(&db.social, sender_hex, group_id),
            None => {
                let r = String::new();
                assert(r@ =~= r@ + r@);
                r
            },
        }
    }

    /// Remembers another agent's state, in place of what was noted of it before.
    pub fn record_agent_state(
        &mut self,
        agent_hex: &str,
        agent_name: &str,
        d_tag: &str,
        status: &str,
        timestamp: u64,
    )
        ensures
            old(self).db is None ==> final(self).npubs() == old(self).npubs(),
            old(self).db is Some ==> {
                let base = match old(self).contact(agent_hex@) {
                    Some(row) => row,
                    None => new_contact(agent_hex@, agent_name@, timestamp as i64, None, false),
                };
                let notes = notes_with_state(
                    texts_or_empty(base.notes_json),
                    agent_name@,
                    state_note(agent_name@, status@, d_tag@),
                );
                &&& final(self).npubs() == old(self).npubs().insert(
                    agent_hex@,
                    NpubRow {
                        notes_json: Some(json_of_texts(notes)),
                        last_interaction: timestamp as i64,
                        ..base
                    },
                )
                &&& texts_or_empty(final(self).contact(agent_hex@)->0.notes_json) == notes
            },
            final(self).groups() == old(self).groups(),
            final(self).npub_keys() == (if old(self).db is None {
                old(self).npub_keys()
            } else {
                key_added(old(self).npub_keys(), agent_hex@)
            }),
            final(self).same_index(old(self)),
            final(self).db is Some == old(self).db is Some,
    {
        if let Some(db) = &mut self.db {
            let ts: i64 = timestamp as i64;
            let mut row = match get_npub(&db.social, agent_hex) {
                Some(row) => row,
                None => fresh_contact(agent_hex, agent_name, ts, None, false),
            };
            let ghost base = row@;
            let mut note = String::from_str("[");
            note.append(agent_name);
            note.append("] state: ");
            note.append(status);
            note.append(" d=");
            note.append(d_tag);
            let notes = replace_state(&list_or_empty(&row.notes_json), agent_name, note);
            row.notes_json = Some(write_texts(&notes));
            row.last_interaction = ts;
            upsert_npub(&mut db.social, &row);
        }
    }

    /// Evaluates a message and stores it where it is worth it. Tells whether it was stored.
    pub fn try_index_message(
        &mut self,
        event_id: &str,
        sender_hex: &str,
        group_id: Option<&str>,
        content: &str,
        timestamp: u64,
        kind: u32,
        is_bot_mention: bool,
        is_dm: bool,
    ) -> (r: bool)
        ensures
            r == (old(self).db is Some && decision(content@, kind, is_bot_mention, is_dm)
                != IndexDecision::Skip),
            final(self).messages() == (if r {
                old(self).messages().insert(
                    event_id@,
                    MessageRow {
                        event_id: event_id@,
                        sender_hex: sender_hex@,
                        group_id: opt_str(group_id),
                        content: content@,
                        created_at: timestamp as i64,
                        kind,
                    },
                )
            } else {
                old(self).messages()
            }),
            final(self).message_ids() == (if r {
                key_added(old(self).message_ids(), event_id@)
            } else {
                old(self).message_ids()
            }),
            final(self).docs() == old(self).docs(),
            final(self).npub_keys() == old(self).npub_keys(),
            final(self).npubs() == old(self).npubs(),
            final(self).groups() == old(self).groups(),
            final(self).db is Some == old(self).db is Some,
    {
        match &mut self.db {
            Some(db) => crate::memory::message_index::try_index_message(
                &mut db.messages,
                event_id,
                sender_hex,
                group_id,
                content,
                timestamp as i64,
                kind,
                is_bot_mention,
                is_dm,
            ),
            None => false,
        }
    }
}

/// A memory of a contact says what its row says, and a row what the memory says.
pub proof fn contacts_read_from_rows(row: NpubRow, m: NpubMemoryView, profile_json: Option<Seq<char>>)
    ensures
        ({
            let r = npub_memory_of(row);
            &&& r.npub_hex == row.hex_pubkey && r.display_name == row.display_name
            &&& r.first_seen_group == row.first_seen_group
            &&& row.first_seen >= 0 ==> r.first_seen == row.first_seen
            &&& row.last_interaction >= 0 ==> r.last_interaction == row.last_interaction
            &&& r.notes == texts_or_empty(row.notes_json)
            &&& r.owner_notes == texts_or_empty(row.owner_notes_json)
            &&& r.name_history == unsigned_pairs_or_empty(row.name_history_json)
        }),
        ({
            let r = npub_row_of(m, profile_json);
            &&& r.profile_json == profile_json
            &&& m.notes.len() == 0 <==> r.notes_json is None
            &&& m.owner_notes.len() == 0 <==> r.owner_notes_json is None
            &&& m.name_history.len() == 0 <==> r.name_history_json is None
            &&& r.preferences_json is None && !r.is_owner
        }),
{
}

/// A memory of a group says what its row says, and what was written to a row reads back.
pub proof fn groups_read_from_rows(row: GroupRow, m: GroupMemoryView)
    ensures
        ({
            let r = group_memory_of(row);
            &&& r.group_id == row.group_id && r.purpose == row.purpose
            &&& row.last_activity >= 0 ==> r.last_activity == row.last_activity
            &&& r.members_seen == texts_or_empty(row.members_json)
            &&& r.notes == texts_or_empty(row.notes_json)
        }),
        ({
            let back = group_memory_of(group_row_of(m));
            &&& back.group_id == m.group_id
            &&& back.purpose == m.purpose
            &&& back.last_activity == m.last_activity
            &&& m.notes.len() == 0 <==> group_row_of(m).notes_json is None
            &&& m.members_seen.len() == 0 <==> group_row_of(m).members_json is None
        }),
{
    casts_round_trip(m.last_activity);
}

/// A new contact has the name, the time and the group with which it was met, and nothing is known of
/// it yet.
pub proof fn new_contacts_are_blank(
    hex: Seq<char>,
    name: Seq<char>,
    ts: i64,
    group: Option<Seq<char>>,
    is_owner: bool,
)
    ensures
        ({
            let r = new_contact(hex, name, ts, group, is_owner);
            &&& r.hex_pubkey == hex && r.display_name == name
            &&& r.first_seen == ts && r.last_interaction == ts
            &&& r.first_seen_group == group
            &&& r.is_owner == is_owner
            &&& npub_memory_of(r).notes.len() == 0 && npub_memory_of(r).owner_notes.len() == 0
            &&& npub_memory_of(r).name_history.len() == 0
            &&& npub_context(Some(r)).len() == 0
            &&& r.profile_json is None && r.preferences_json is None
        }),
{
}

/// Of an agent's states only the latest is noted: it comes last, no other note of its state is left,
/// and every other note stays.
pub proof fn latest_state_is_noted(
    notes: Seq<Seq<char>>,
    name: Seq<char>,
    status: Seq<char>,
    d_tag: Seq<char>,
    x: Seq<char>,
)
    ensures
        ({
            let note = "["@ + name + "] state: "@ + status + " d="@ + d_tag;
            let after = notes_with_state(notes, name, state_note(name, status, d_tag));
            &&& after.len() > 0 && after.last() == note
            &&& begins_with(note, "["@ + name + "] state:"@)
            &&& after.contains(x) && begins_with(x, "["@ + name + "] state:"@) ==> x == note
            &&& notes.contains(x) && !begins_with(x, "["@ + name + "] state:"@) ==> after.contains(x)
            &&& after.contains(x) ==> x == note || notes.contains(x)
        }),
{
    let prefix = state_prefix(name);
    let note = state_note(name, status, d_tag);
    let keep = |n: Seq<char>| !begins_with(n, prefix);
    let kept = notes.filter(keep);
    let after = notes_with_state(notes, name, note);
    assert(after == kept.push(note));
    filter_holds(notes, keep, x);
    reveal_strlit("] state: ");
    reveal_strlit("] state:");
    assert("] state: "@ =~= "] state:"@ + seq![' ']);
    assert(note.subrange(0, 0int + prefix.len()) =~= prefix);
    if after.contains(x) {
        let i = choose|i: int| 0 <= i < after.len() && after[i] == x;
        if i < kept.len() {
            assert(kept[i] == x);
            assert(kept.contains(x));
        }
    }
    if kept.contains(x) {
        let i = choose|i: int| 0 <= i < kept.len() && kept[i] == x;
        assert(after[i] == x);
    }
}

/// A profile's display name counts before its name; where it changes the contact's name, the earlier
/// name is kept with the time of the change.
pub proof fn profiles_rename_contacts(
    row: NpubRow,
    p: ProfileMetadata,
    name: Seq<char>,
    fetched_at: u64,
    profile_json: Option<Seq<char>>,
)
    ensures
        p.display_name matches Some(n) ==> profile_name(p) == Some(n@),
        p.display_name is None ==> profile_name(p) == opt_text(p.name),
        ({
            let r = npub_with_profile(row, Some(name), fetched_at, profile_json);
            &&& r.display_name == name
            &&& r.profile_json == profile_json
            &&& name == row.display_name ==> r.name_history_json == row.name_history_json
            &&& name != row.display_name ==> r.name_history_json == Some(
                json_of_pairs(
                    pairs_or_empty(row.name_history_json).push(
                        (fetched_at as i64, row.display_name),
                    ),
                ),
            )
            &&& r.hex_pubkey == row.hex_pubkey && r.notes_json == row.notes_json
            &&& r.owner_notes_json == row.owner_notes_json && r.is_owner == row.is_owner
            &&& r.first_seen == row.first_seen && r.last_interaction == row.last_interaction
        }),
        ({
            let r = npub_with_profile(row, None, fetched_at, profile_json);
            r.display_name == row.display_name && r.profile_json == profile_json
                && r.name_history_json == row.name_history_json && r.notes_json == row.notes_json
        }),
{
}

/// A contact or a group is known exactly where there is a row for it, and is that row.
pub proof fn rows_are_known(m: NostrMemory, k: Seq<char>)
    ensures
        m.contact(k) is Some <==> m.npubs().contains_key(k),
        m.npubs().contains_key(k) ==> m.contact(k)->0 == m.npubs()[k],
        m.group(k) is Some <==> m.groups().contains_key(k),
        m.groups().contains_key(k) ==> m.group(k)->0 == m.groups()[k],
{
}

/// Two memories with the same index hold the same messages, in the same order, and the same documents.
pub proof fn same_index_holds_the_same(a: NostrMemory, b: NostrMemory)
    ensures
        a.same_index(&b) <==> a.messages() == b.messages() && a.message_ids() == b.message_ids()
            && a.docs() == b.docs(),
{
}

} // verus!
