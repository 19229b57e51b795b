//! Social memory: what is known of each contact and each group.

use super::fts::{
    column, column_text, columns_of, found, fts_matches, fts_of, row_of, search,
};
use crate::json::{
    json_of_pairs, json_of_texts, list_or_empty, pair_list_or_empty, pairs, pairs_or_empty,
    texts_of_json, texts_or_empty, write_pairs, write_texts,
};
use crate::order::{precedes, ranked, ranked_is_permutation, stable_order};
use crate::text::pattern::{has_substring, join, joined, substrings_stand_between};
use crate::text::{list_contains, opt_text, str_eq, texts};
use crate::text_map::TextMap;
use vstd::prelude::*;

verus! {

/// A contact's profile and context.
#[derive(Debug)]
pub struct SocialNpub {
    pub hex_pubkey: String,
    pub display_name: String,
    pub first_seen: i64,
    pub first_seen_group: Option<String>,
    pub last_interaction: i64,
    /// Profile metadata as JSON.
    pub profile_json: Option<String>,
    /// Earlier names with the time of each change, as JSON.
    pub name_history_json: Option<String>,
    /// The agent's observations, as JSON.
    pub notes_json: Option<String>,
    /// The owner's notes, as JSON.
    pub owner_notes_json: Option<String>,
    /// Preferences, as JSON.
    pub preferences_json: Option<String>,
    /// Whether the contact owns the agent.
    pub is_owner: bool,
}

/// What a `SocialNpub` says.
#[verifier::ext_equal]
pub struct NpubRow {
    pub hex_pubkey: Seq<char>,
    pub display_name: Seq<char>,
    pub first_seen: i64,
    pub first_seen_group: Option<Seq<char>>,
    pub last_interaction: i64,
    pub profile_json: Option<Seq<char>>,
    pub name_history_json: Option<Seq<char>>,
    pub notes_json: Option<Seq<char>>,
    pub owner_notes_json: Option<Seq<char>>,
    pub preferences_json: Option<Seq<char>>,
    pub is_owner: bool,
}

impl View for SocialNpub {
    type V = NpubRow;

    open spec fn view(&self) -> NpubRow {
        NpubRow {
            hex_pubkey: self.hex_pubkey@,
            display_name: self.display_name@,
            first_seen: self.first_seen,
            first_seen_group: opt_text(self.first_seen_group),
            last_interaction: self.last_interaction,
            profile_json: opt_text(self.profile_json),
            name_history_json: opt_text(self.name_history_json),
            notes_json: opt_text(self.notes_json),
            owner_notes_json: opt_text(self.owner_notes_json),
            preferences_json: opt_text(self.preferences_json),
            is_owner: self.is_owner,
        }
    }
}

impl Clone for SocialNpub {
    fn clone(&self) -> (r: Self)
        ensures
            r == *self,
    {
        SocialNpub {
            hex_pubkey: self.hex_pubkey.clone(),
            display_name: self.display_name.clone(),
            first_seen: self.first_seen,
            first_seen_group: self.first_seen_group.clone(),
            last_interaction: self.last_interaction,
            profile_json: self.profile_json.clone(),
            name_history_json: self.name_history_json.clone(),
            notes_json: self.notes_json.clone(),
            owner_notes_json: self.owner_notes_json.clone(),
            preferences_json: self.preferences_json.clone(),
            is_owner: self.is_owner,
        }
    }
}

/// What is known of a group.
#[derive(Debug)]
pub struct SocialGroup {
    pub group_id: String,
    pub purpose: Option<String>,
    /// Keys of members, as JSON.
    pub members_json: Option<String>,
    /// The agent's observations, as JSON.
    pub notes_json: Option<String>,
    pub last_activity: i64,
}

/// What a `SocialGroup` says.
#[verifier::ext_equal]
pub struct GroupRow {
    pub group_id: Seq<char>,
    pub purpose: Option<Seq<char>>,
    pub members_json: Option<Seq<char>>,
    pub notes_json: Option<Seq<char>>,
    pub last_activity: i64,
}

impl View for SocialGroup {
    type V = GroupRow;

    open spec fn view(&self) -> GroupRow {
        GroupRow {
            group_id: self.group_id@,
            purpose: opt_text(self.purpose),
            members_json: opt_text(self.members_json),
            notes_json: opt_text(self.notes_json),
            last_activity: self.last_activity,
        }
    }
}

impl Clone for SocialGroup {
    fn clone(&self) -> (r: Self)
        ensures
            r == *self,
    {
        SocialGroup {
            group_id: self.group_id.clone(),
            purpose: self.purpose.clone(),
            members_json: self.members_json.clone(),
            notes_json: self.notes_json.clone(),
            last_activity: self.last_activity,
        }
    }
}

/// The tables of contacts and groups.
pub struct SocialTables {
    npubs: TextMap<SocialNpub>,
    groups: TextMap<SocialGroup>,
}

spec fn rows_of(m: Map<Seq<char>, SocialNpub>) -> Map<Seq<char>, NpubRow> {
    m.map_values(|r: SocialNpub| r@)
}

spec fn group_rows_of(m: Map<Seq<char>, SocialGroup>) -> Map<Seq<char>, GroupRow> {
    m.map_values(|r: SocialGroup| r@)
}

impl SocialTables {
    /// The contacts by key.
    pub closed spec fn npubs(&self) -> Map<Seq<char>, NpubRow> {
        rows_of(self.npubs@)
    }

    /// The groups by id.
    pub closed spec fn groups(&self) -> Map<Seq<char>, GroupRow> {
        group_rows_of(self.groups@)
    }

    /// The keys of the contacts, in the order in which they were first met.
    pub closed spec fn npub_keys(&self) -> Seq<Seq<char>> {
        self.npubs.keys()
    }

    /// Every row stands under its own key.
    pub open spec fn keyed(&self) -> bool {
        &&& forall|k: Seq<char>| #[trigger]
            self.npubs().contains_key(k) ==> self.npubs()[k].hex_pubkey == k
        &&& forall|k: Seq<char>| #[trigger]
            self.groups().contains_key(k) ==> self.groups()[k].group_id == k
    }

    #[verifier::type_invariant]
    spec fn well_formed(self) -> bool {
        self.keyed()
    }

    /// Whether nothing is known of anyone.
    pub fn is_empty(&self) -> (r: bool)
        ensures
            r == (self.npubs() == Map::<Seq<char>, NpubRow>::empty() && self.groups() == Map::<
                Seq<char>,
                GroupRow,
            >::empty()),
    {
        let npub_count: usize = self.npubs.len();
        let group_count: usize = self.groups.len();
        proof {
            if self.npubs.keys().len() > 0 {
                let k = self.npubs.keys()[0];
                assert(self.npubs.keys().contains(k));
                assert(self.npubs().contains_key(k));
            }
            if self.groups.keys().len() > 0 {
                let k = self.groups.keys()[0];
                assert(self.groups.keys().contains(k));
                assert(self.groups().contains_key(k));
            }
            assert(self.npubs.keys().len() == 0 ==> self.npubs() =~= Map::empty());
            assert(self.groups.keys().len() == 0 ==> self.groups() =~= Map::empty());
        }
        npub_count == 0 && group_count == 0
    }

    /// Empty tables.
    pub fn new() -> (r: Self)
        ensures
            r.npubs() == Map::<Seq<char>, NpubRow>::empty(),
            r.groups() == Map::<Seq<char>, GroupRow>::empty(),
            r.npub_keys() == Seq::<Seq<char>>::empty(),
    {
        let npubs: TextMap<SocialNpub> = TextMap::new();
        let groups: TextMap<SocialGroup> = TextMap::new();
        proof {
            assert(rows_of(npubs@) =~= Map::<Seq<char>, NpubRow>::empty());
            assert(group_rows_of(groups@) =~= Map::<Seq<char>, GroupRow>::empty());
        }
        SocialTables { npubs, groups }
    }

    fn put_npub(&mut self, row: SocialNpub)
        ensures
            final(self).npubs() == old(self).npubs().insert(row@.hex_pubkey, row@),
            final(self).groups() == old(self).groups(),
            final(self).npub_keys() == crate::text_map::key_added(
                old(self).npub_keys(),
                row@.hex_pubkey,
            ),
            final(self).keyed(),
    {
        proof {
            use_type_invariant(&*self);
        }
        let ghost before = self.npubs@;
        let mut npubs: TextMap<SocialNpub> = TextMap::new();
        proof {
            assert(rows_of(npubs@) =~= Map::<Seq<char>, NpubRow>::empty());
        }
        std::mem::swap(&mut npubs, &mut self.npubs);
        npubs.insert(row.hex_pubkey.clone(), row);
        proof {
            assert(rows_of(npubs@) =~= rows_of(before).insert(row@.hex_pubkey, row@));
        }
        self.npubs = npubs;
    }

    fn put_group(&mut self, row: SocialGroup)
        ensures
            final(self).groups() == old(self).groups().insert(row@.group_id, row@),
            final(self).npubs() == old(self).npubs(),
            final(self).npub_keys() == old(self).npub_keys(),
            final(self).keyed(),
    {
        proof {
            use_type_invariant(&*self);
        }
        let ghost before = self.groups@;
        let mut groups: TextMap<SocialGroup> = TextMap::new();
        proof {
            assert(group_rows_of(groups@) =~= Map::<Seq<char>, GroupRow>::empty());
        }
        std::mem::swap(&mut groups, &mut self.groups);
        groups.insert(row.group_id.clone(), row);
        proof {
            assert(group_rows_of(groups@) =~= group_rows_of(before).insert(row@.group_id, row@));
        }
        self.groups = groups;
    }
}

/// The contact with a key.
pub open spec fn npub_at(t: &SocialTables, k: Seq<char>) -> Option<NpubRow> {
    if t.npubs().contains_key(k) {
        Some(t.npubs()[k])
    } else {
        None
    }
}

/// The group with an id.
pub open spec fn group_at(t: &SocialTables, k: Seq<char>) -> Option<GroupRow> {
    if t.groups().contains_key(k) {
        Some(t.groups()[k])
    } else {
        None
    }
}

/// What an optional contact says.
pub open spec fn opt_npub(o: Option<SocialNpub>) -> Option<NpubRow> {
    match o {
        Some(r) => Some(r@),
        None => None,
    }
}

/// What an optional group says.
pub open spec fn opt_group(o: Option<SocialGroup>) -> Option<GroupRow> {
    match o {
        Some(r) => Some(r@),
        None => None,
    }
}

/// `a`, or `b` where there is none.
pub open spec fn coalesce(a: Option<Seq<char>>, b: Option<Seq<char>>) -> Option<Seq<char>> {
    if a is Some {
        a
    } else {
        b
    }
}

fn coalesce_text(a: &Option<String>, b: &Option<String>) -> (r: Option<String>)
    ensures
        opt_text(r) == coalesce(opt_text(*a), opt_text(*b)),
{
    if a.is_some() {
        a.clone()
    } else {
        b.clone()
    }
}

/// A contact after `new` came in: when and where it was first met stays, its name and last
/// interaction are replaced, and of the rest nothing known is lost.
pub open spec fn npub_merged(old: Option<NpubRow>, new: NpubRow) -> NpubRow {
    match old {
        Some(o) => NpubRow {
            hex_pubkey: o.hex_pubkey,
            display_name: new.display_name,
            first_seen: o.first_seen,
            first_seen_group: o.first_seen_group,
            last_interaction: new.last_interaction,
            profile_json: coalesce(new.profile_json, o.profile_json),
            name_history_json: coalesce(new.name_history_json, o.name_history_json),
            notes_json: coalesce(new.notes_json, o.notes_json),
            owner_notes_json: coalesce(new.owner_notes_json, o.owner_notes_json),
            preferences_json: coalesce(new.preferences_json, o.preferences_json),
            is_owner: o.is_owner || new.is_owner,
        },
        None => new,
    }
}

/// A group after `new` came in: its last activity is replaced, and of the rest nothing known is
/// lost.
pub open spec fn group_merged(old: Option<GroupRow>, new: GroupRow) -> GroupRow {
    match old {
        Some(o) => GroupRow {
            group_id: o.group_id,
            purpose: coalesce(new.purpose, o.purpose),
            members_json: coalesce(new.members_json, o.members_json),
            notes_json: coalesce(new.notes_json, o.notes_json),
            last_activity: new.last_activity,
        },
        None => new,
    }
}

/// The contact with a key.
pub fn get_npub(t: &SocialTables, hex_pubkey: &str) -> (r: Option<SocialNpub>)
    ensures
        opt_npub(r) == npub_at(t, hex_pubkey@),
        r matches Some(row) ==> row@.hex_pubkey == hex_pubkey@,
        r is Some == t.npub_keys().contains(hex_pubkey@),
{
    proof {
        use_type_invariant(t);
    }
    match t.npubs.get(hex_pubkey) {
        Some(row) => {
            assert(t.npubs()[hex_pubkey@] == row@);
            Some(row.clone())
        },
        None => None,
    }
}

/// The group with an id.
pub fn get_group(t: &SocialTables, group_id: &str) -> (r: Option<SocialGroup>)
    ensures
        opt_group(r) == group_at(t, group_id@),
        r matches Some(row) ==> row@.group_id == group_id@,
{
    proof {
        use_type_invariant(t);
    }
    match t.groups.get(group_id) {
        Some(row) => {
            assert(t.groups()[group_id@] == row@);
            Some(row.clone())
        },
        None => None,
    }
}

/// Stores a contact, merged with what is known of it.
pub fn upsert_npub(t: &mut SocialTables, npub: &SocialNpub)
    ensures
        final(t).npubs() == old(t).npubs().insert(
            npub@.hex_pubkey,
            npub_merged(npub_at(old(t), npub@.hex_pubkey), npub@),
        ),
        final(t).groups() == old(t).groups(),
        final(t).npub_keys() == crate::text_map::key_added(old(t).npub_keys(), npub@.hex_pubkey),
{
    match get_npub(t, npub.hex_pubkey.as_str()) {
        Some(o) => {
            let row = SocialNpub {
                hex_pubkey: o.hex_pubkey.clone(),
                display_name: npub.display_name.clone(),
                first_seen: o.first_seen,
                first_seen_group: o.first_seen_group.clone(),
                last_interaction: npub.last_interaction,
                profile_json: coalesce_text(&npub.profile_json, &o.profile_json),
                name_history_json: coalesce_text(&npub.name_history_json, &o.name_history_json),
                notes_json: coalesce_text(&npub.notes_json, &o.notes_json),
                owner_notes_json: coalesce_text(&npub.owner_notes_json, &o.owner_notes_json),
                preferences_json: coalesce_text(&npub.preferences_json, &o.preferences_json),
                is_owner: o.is_owner || npub.is_owner,
            };
            t.put_npub(row);
        },
        None => {
            t.put_npub(npub.clone());
        },
    }
}

/// Stores a group, merged with what is known of it.
pub fn upsert_group(t: &mut SocialTables, group: &SocialGroup)
    ensures
        final(t).groups() == old(t).groups().insert(
            group@.group_id,
            group_merged(group_at(old(t), group@.group_id), group@),
        ),
        final(t).npubs() == old(t).npubs(),
        final(t).npub_keys() == old(t).npub_keys(),
{
    match get_group(t, group.group_id.as_str()) {
        Some(o) => {
            let row = SocialGroup {
                group_id: o.group_id.clone(),
                purpose: coalesce_text(&group.purpose, &o.purpose),
                members_json: coalesce_text(&group.members_json, &o.members_json),
                notes_json: coalesce_text(&group.notes_json, &o.notes_json),
                last_activity: group.last_activity,
            };
            t.put_group(row);
        },
        None => {
            t.put_group(group.clone());
        },
    }
}

/// The JSON text of the list that `json` writes with one more item.
pub open spec fn appended(json: Option<Seq<char>>, item: Seq<char>) -> Seq<char> {
    json_of_texts(texts_or_empty(json).push(item))
}

fn append_text(json: &Option<String>, item: &str) -> (r: String)
    ensures
        r@ == appended(opt_text(*json), item@),
        texts_of_json(r@) == Some(texts_or_empty(opt_text(*json)).push(item@)),
{
    let mut list = list_or_empty(json);
    let ghost before = list@;
    list.push(item.to_owned());
    proof {
        assert(texts(list@) =~= texts(before).push(item@));
    }
    write_texts(&list)
}

/// A contact with one more note, among the owner's or the agent's.
pub open spec fn npub_noted(row: NpubRow, note: Seq<char>, is_owner: bool) -> NpubRow {
    if is_owner {
        NpubRow { owner_notes_json: Some(appended(row.owner_notes_json, note)), ..row }
    } else {
        NpubRow { notes_json: Some(appended(row.notes_json, note)), ..row }
    }
}

/// Adds a note about a contact. Nothing happens where the contact is not known.
pub fn add_npub_note(t: &mut SocialTables, hex_pubkey: &str, note: &str, is_owner: bool)
    ensures
        final(t).npubs() == (match npub_at(old(t), hex_pubkey@) {
            Some(row) => old(t).npubs().insert(hex_pubkey@, npub_noted(row, note@, is_owner)),
            None => old(t).npubs(),
        }),
        npub_at(old(t), hex_pubkey@) matches Some(row) ==> {
            let after = npub_at(final(t), hex_pubkey@)->0;
            &&& is_owner ==> texts_or_empty(after.owner_notes_json) == texts_or_empty(
                row.owner_notes_json,
            ).push(note@)
            &&& !is_owner ==> texts_or_empty(after.notes_json) == texts_or_empty(
                row.notes_json,
            ).push(note@)
        },
        final(t).groups() == old(t).groups(),
        final(t).npub_keys() == old(t).npub_keys(),
{
    match get_npub(t, hex_pubkey) {
        Some(mut row) => {
            if is_owner {
                let updated = append_text(&row.owner_notes_json, note);
                row.owner_notes_json = Some(updated);
            } else {
                let updated = append_text(&row.notes_json, note);
                row.notes_json = Some(updated);
            }
            t.put_npub(row);
        },
        None => {},
    }
}

/// Adds a note about a group. Nothing happens where the group is not known.
pub fn add_group_note(t: &mut SocialTables, group_id: &str, note: &str)
    ensures
        final(t).groups() == (match group_at(old(t), group_id@) {
            Some(row) => old(t).groups().insert(
                group_id@,
                GroupRow { notes_json: Some(appended(row.notes_json, note@)), ..row },
            ),
            None => old(t).groups(),
        }),
        group_at(old(t), group_id@) matches Some(row) ==> texts_or_empty(
            group_at(final(t), group_id@)->0.notes_json,
        ) == texts_or_empty(row.notes_json).push(note@),
        final(t).npubs() == old(t).npubs(),
        final(t).npub_keys() == old(t).npub_keys(),
{
    match get_group(t, group_id) {
        Some(mut row) => {
            let updated = append_text(&row.notes_json, note);
            row.notes_json = Some(updated);
            t.put_group(row);
        },
        None => {},
    }
}

/// Sets what a group is for. Nothing happens where the group is not known.
pub fn set_group_purpose(t: &mut SocialTables, group_id: &str, purpose: &str)
    ensures
        final(t).groups() == (match group_at(old(t), group_id@) {
            Some(row) => old(t).groups().insert(
                group_id@,
                GroupRow { purpose: Some(purpose@), ..row },
            ),
            None => old(t).groups(),
        }),
        final(t).npubs() == old(t).npubs(),
        final(t).npub_keys() == old(t).npub_keys(),
{
    match get_group(t, group_id) {
        Some(mut row) => {
            row.purpose = Some(purpose.to_owned());
            t.put_group(row);
        },
        None => {},
    }
}

/// Records a member of a group, once. Nothing happens where the group is not known.
pub fn record_group_member(t: &mut SocialTables, group_id: &str, hex_pubkey: &str)
    ensures
        final(t).groups() == (match group_at(old(t), group_id@) {
            Some(row) => if texts_or_empty(row.members_json).contains(hex_pubkey@) {
                old(t).groups()
            } else {
                old(t).groups().insert(
                    group_id@,
                    GroupRow { members_json: Some(appended(row.members_json, hex_pubkey@)), ..row },
                )
            },
            None => old(t).groups(),
        }),
        group_at(old(t), group_id@) matches Some(row) ==> texts_or_empty(
            group_at(final(t), group_id@)->0.members_json,
        ) == crate::text_map::key_added(texts_or_empty(row.members_json), hex_pubkey@),
        final(t).npubs() == old(t).npubs(),
        final(t).npub_keys() == old(t).npub_keys(),
{
    match get_group(t, group_id) {
        Some(mut row) => {
            let members = list_or_empty(&row.members_json);
            if !list_contains(&members, hex_pubkey) {
                let updated = append_text(&row.members_json, hex_pubkey);
                row.members_json = Some(updated);
                t.put_group(row);
            }
        },
        None => {},
    }
}

/// A contact after it was met again under a name: a change of name is kept in its history.
pub open spec fn npub_touched(row: NpubRow, name: Seq<char>, timestamp: i64) -> NpubRow {
    if row.display_name == name {
        NpubRow { last_interaction: timestamp, ..row }
    } else {
        NpubRow {
            display_name: name,
            last_interaction: timestamp,
            name_history_json: Some(
                json_of_pairs(
                    pairs_or_empty(row.name_history_json).push((timestamp, row.display_name)),
                ),
            ),
            ..row
        }
    }
}

/// The JSON text of a name history with one more entry.
pub fn append_name(json: &Option<String>, timestamp: i64, name: &str) -> (r: String)
    ensures
        r@ == json_of_pairs(pairs_or_empty(opt_text(*json)).push((timestamp, name@))),
        crate::json::pairs_of_json(r@) == Some(
            pairs_or_empty(opt_text(*json)).push((timestamp, name@)),
        ),
{
    let mut history = pair_list_or_empty(json);
    let ghost before = history@;
    history.push((timestamp, name.to_owned()));
    proof {
        assert(pairs(history@) =~= pairs(before).push((timestamp, name@)));
    }
    write_pairs(&history)
}

/// Notes that a contact was met under a name. Tells whether the contact is not known yet; then
/// nothing happens.
pub fn touch_npub(t: &mut SocialTables, hex_pubkey: &str, display_name: &str, timestamp: i64) -> (r:
    bool)
    ensures
        r == (npub_at(old(t), hex_pubkey@) is None),
        r == !old(t).npub_keys().contains(hex_pubkey@),
        final(t).npubs() == (match npub_at(old(t), hex_pubkey@) {
            Some(row) => old(t).npubs().insert(
                hex_pubkey@,
                npub_touched(row, display_name@, timestamp),
            ),
            None => old(t).npubs(),
        }),
        npub_at(old(t), hex_pubkey@) matches Some(row) ==> row.display_name != display_name@
            ==> pairs_or_empty(npub_at(final(t), hex_pubkey@)->0.name_history_json)
            == pairs_or_empty(row.name_history_json).push((timestamp, row.display_name)),
        final(t).groups() == old(t).groups(),
        final(t).npub_keys() == old(t).npub_keys(),
{
    match get_npub(t, hex_pubkey) {
        Some(mut row) => {
            if !str_eq(row.display_name.as_str(), display_name) {
                let updated = append_name(
                    &row.name_history_json,
                    timestamp,
                    row.display_name.as_str(),
                );
                row.name_history_json = Some(updated);
                row.display_name = display_name.to_owned();
            }
            row.last_interaction = timestamp;
            t.put_npub(row);
            false
        },
        None => true,
    }
}

/// When the contacts with the given keys were last met.
pub open spec fn last_met(t: &SocialTables, keys: Seq<Seq<char>>) -> Seq<i64> {
    Seq::new(keys.len(), |i: int| t.npubs()[keys[i]].last_interaction)
}

/// Whether a list holds each contact once, the most recently met first.
pub open spec fn newest_first(m: Map<Seq<char>, NpubRow>, r: Seq<SocialNpub>) -> bool {
    &&& forall|k: Seq<char>| #[trigger]
        m.contains_key(k) <==> exists|i: int|
            0 <= i < r.len() && (#[trigger] r[i])@.hex_pubkey == k
    &&& forall|i: int|
        0 <= i < r.len() ==> (#[trigger] r[i])@ == m[r[i]@.hex_pubkey]
    &&& forall|i: int, j: int|
        0 <= i < j < r.len() ==> (#[trigger] r[i]).hex_pubkey@ != (#[trigger] r[j]).hex_pubkey@
            && r[i].last_interaction >= r[j].last_interaction
}

/// Rows taken in the order of their times are listed with the most recent first.
proof fn ranked_rows(t: &SocialTables, r: Seq<SocialNpub>, order: Seq<usize>)
    requires
        t.keyed(),
        t.npub_keys().no_duplicates(),
        t.npub_keys().len() <= usize::MAX,
        forall|k: Seq<char>| #[trigger] t.npubs().contains_key(k) == t.npub_keys().contains(k),
        r.len() == t.npub_keys().len(),
        ranked(last_met(t, t.npub_keys()), t.npub_keys().len() as int, order, true),
        forall|i: int|
            0 <= i < r.len() ==> (#[trigger] r[i])@ == t.npubs()[t.npub_keys()[order[i] as int]],
    ensures
        newest_first(t.npubs(), r),
{
    let keys = t.npub_keys();
    let met = last_met(t, keys);
    ranked_is_permutation(met, order, true);
    assert forall|i: int| 0 <= i < r.len() implies (#[trigger] r[i])@.hex_pubkey == keys[order[i] as int]
        && t.npubs().contains_key(r[i]@.hex_pubkey) by {
        let k = keys[order[i] as int];
        assert(keys.contains(k));
        assert(t.npubs().contains_key(k));
    }
    assert forall|k: Seq<char>| #[trigger] t.npubs().contains_key(k) implies exists|i: int|
        0 <= i < r.len() && (#[trigger] r[i])@.hex_pubkey == k by {
        let p = choose|p: int| 0 <= p < keys.len() && keys[p] == k;
        assert(order.contains(p as usize));
        let i = choose|i: int| 0 <= i < order.len() && order[i] == p as usize;
        assert(r[i]@.hex_pubkey == keys[order[i] as int]);
    }
    assert forall|i: int, j: int| 0 <= i < j < r.len() implies (#[trigger] r[i]).hex_pubkey@ != (
    #[trigger] r[j]).hex_pubkey@ && r[i].last_interaction >= r[j].last_interaction by {
        assert(precedes(met, order[i] as int, order[j] as int, true));
        assert(order[i] != order[j]);
        assert(r[i]@.hex_pubkey == keys[order[i] as int]);
        assert(r[j]@.hex_pubkey == keys[order[j] as int]);
        assert(r[i]@.last_interaction == met[order[i] as int]);
        assert(r[j]@.last_interaction == met[order[j] as int]);
    }
}

/// All contacts, the most recently met first; those met at the same time stay in the order in which
/// they were first met.
pub fn list_npubs(t: &SocialTables) -> (r: Vec<SocialNpub>)
    ensures
        r@.len() == t.npub_keys().len(),
        exists|order: Seq<usize>|
            {
                &&& #[trigger] ranked(
                    last_met(t, t.npub_keys()),
                    t.npub_keys().len() as int,
                    order,
                    true,
                )
                &&& forall|i: int|
                    0 <= i < r@.len() ==> (#[trigger] r@[i])@ == t.npubs()[t.npub_keys()[order[i] as int]]
            },
        t.npub_keys().no_duplicates(),
        forall|k: Seq<char>| #[trigger] t.npubs().contains_key(k) == t.npub_keys().contains(k),
        newest_first(t.npubs(), r@),
{
    proof {
        use_type_invariant(t);
    }
    let n: usize = t.npubs.len();
    let ghost keys = t.npub_keys();
    let mut times: Vec<i64> = Vec::new();
    let mut i: usize = 0;
    while i < n
        invariant
            i <= n,
            n == keys.len(),
            keys == t.npubs.keys(),
            keys == t.npub_keys(),
            times@ == last_met(t, keys).take(i as int),
        decreases n - i,
    {
        let entry = t.npubs.entry_at(i);
        times.push(entry.1.last_interaction);
        proof {
            assert(t.npubs()[keys[i as int]] == entry.1@);
        }
        i = i + 1;
    }
    proof {
        assert(times@ =~= last_met(t, keys));
    }
    let order = stable_order(&times, true);
    let mut r: Vec<SocialNpub> = Vec::new();
    let mut j: usize = 0;
    while j < n
        invariant
            j <= n,
            n == keys.len(),
            keys == t.npubs.keys(),
            r@.len() == j,
            ranked(last_met(t, keys), n as int, order@, true),
            forall|k: int|
                0 <= k < j ==> (#[trigger] r@[k])@ == t.npubs()[keys[order@[k] as int]],
        decreases n - j,
    {
        let entry = t.npubs.entry_at(order[j]);
        proof {
            assert(t.npubs()[keys[order@[j as int] as int]] == entry.1@);
        }
        r.push(entry.1.clone());
        j = j + 1;
    }
    proof {
        assert forall|k: Seq<char>| #[trigger]
            t.npubs().contains_key(k) == t.npub_keys().contains(k) by {
            assert(t.npubs@.contains_key(k) == t.npubs().contains_key(k));
        }
        ranked_rows(t, r@, order@);
    }
    r
}

/// The columns of contacts that are searched.
pub open spec fn npub_columns(rows: Map<Seq<char>, NpubRow>, keys: Seq<Seq<char>>) -> Seq<
    Seq<Seq<char>>,
> {
    Seq::new(
        keys.len(),
        |i: int|
            seq![
                rows[keys[i]].hex_pubkey,
                rows[keys[i]].display_name,
                column(rows[keys[i]].notes_json),
                column(rows[keys[i]].owner_notes_json),
            ],
    )
}

/// Whether rows are what a query finds among contacts.
pub open spec fn npubs_found(
    rows: Map<Seq<char>, NpubRow>,
    keys: Seq<Seq<char>>,
    query: Seq<char>,
    limit: int,
    r: Seq<SocialNpub>,
) -> bool {
    exists|hits: Seq<(usize, u64)>|
        {
            &&& #[trigger] found(npub_columns(rows, keys), query, limit, hits)
            &&& r.len() == hits.len()
            &&& forall|i: int|
                0 <= i < r.len() ==> hits[i].0 < keys.len() && (#[trigger] r[i])@
                    == rows[keys[hits[i].0 as int]]
        }
}

/// The columns of the contacts, row by row, as they are searched.
pub fn npub_rows(t: &SocialTables) -> (r: Vec<Vec<String>>)
    ensures
        columns_of(r@) == npub_columns(t.npubs(), t.npub_keys()),
        forall|i: int| 0 <= i < r@.len() ==> (#[trigger] r@[i])@.len() == 4,
{
    let n: usize = t.npubs.len();
    let ghost keys = t.npub_keys();
    let mut rows: Vec<Vec<String>> = Vec::new();
    let mut i: usize = 0;
    while i < n
        invariant
            i <= n,
            n == keys.len(),
            keys == t.npubs.keys(),
            keys == t.npub_keys(),
            rows@.len() == i,
            forall|k: int| 0 <= k < i ==> (#[trigger] rows@[k])@.len() == 4,
            forall|k: int|
                0 <= k < i ==> texts((#[trigger] rows@[k])@) == npub_columns(t.npubs(), keys)[k],
        decreases n - i,
    {
        let entry = t.npubs.entry_at(i);
        let m = entry.1;
        assert(t.npubs()[keys[i as int]] == m@);
        rows.push(
            row_of(
                m.hex_pubkey.as_str(),
                m.display_name.as_str(),
                column_text(&m.notes_json),
                column_text(&m.owner_notes_json),
            ),
        );
        i = i + 1;
    }
    assert(columns_of(rows@) =~= npub_columns(t.npubs(), keys));
    rows
}

/// The contacts at the positions of hits.
pub fn npub_hits(t: &SocialTables, hits: &Vec<(usize, u64)>) -> (r: Vec<SocialNpub>)
    requires
        forall|i: int| 0 <= i < hits@.len() ==> (#[trigger] hits@[i]).0 < t.npub_keys().len(),
    ensures
        r@.len() == hits@.len(),
        forall|i: int|
            0 <= i < r@.len() ==> (#[trigger] r@[i])@ == t.npubs()[t.npub_keys()[hits@[i].0 as int]],
{
    let ghost keys = t.npub_keys();
    let mut r: Vec<SocialNpub> = Vec::new();
    let mut j: usize = 0;
    while j < hits.len()
        invariant
            j <= hits@.len(),
            keys == t.npubs.keys(),
            keys == t.npub_keys(),
            forall|k: int| 0 <= k < hits@.len() ==> (#[trigger] hits@[k]).0 < keys.len(),
            r@.len() == j,
            forall|k: int|
                0 <= k < j ==> (#[trigger] r@[k])@ == t.npubs()[keys[hits@[k].0 as int]],
        decreases hits.len() - j,
    {
        assert(hits@[j as int].0 < keys.len());
        let entry = t.npubs.entry_at(hits[j].0);
        assert(t.npubs()[keys[hits@[j as int].0 as int]] == entry.1@);
        r.push(entry.1.clone());
        j = j + 1;
    }
    r
}

/// Searches the contacts: their keys, names and notes. `None` where the search fails.
pub fn search_social(t: &SocialTables, query: &str, limit: usize) -> (r: Option<Vec<SocialNpub>>)
    ensures
        r matches Some(list) ==> npubs_found(
            t.npubs(),
            t.npub_keys(),
            query@,
            limit as int,
            list@,
        ),
        t.npub_keys().no_duplicates(),
        forall|k: Seq<char>| #[trigger] t.npubs().contains_key(k) == t.npub_keys().contains(k),
        fts_of(query@) is None ==> r is Some,
{
    let n: usize = t.npubs.len();
    let ghost columns = npub_columns(t.npubs(), t.npub_keys());
    proof {
        assert forall|k: Seq<char>| #[trigger]
            t.npubs().contains_key(k) == t.npub_keys().contains(k) by {
            assert(t.npubs@.contains_key(k) == t.npubs().contains_key(k));
        }
    }
    let rows = npub_rows(t);
    match search(&rows, query, limit) {
        Some(hits) => {
            assert(found(columns, query@, limit as int, hits@));
            assert forall|i: int| 0 <= i < hits@.len() implies (#[trigger] hits@[i]).0
                < t.npub_keys().len() by {
                assert(hits@[i].0 < columns.len());
            }
            Some(npub_hits(t, &hits))
        },
        None => None,
    }
}

/// The last three items of a list, in order.
pub open spec fn last_three(list: Seq<Seq<char>>) -> Seq<Seq<char>> {
    if list.len() <= 3 {
        list
    } else {
        list.skip(list.len() - 3)
    }
}

/// What is said about a group in front of its messages.
pub open spec fn group_context(id: Seq<char>, row: Option<GroupRow>) -> Seq<char> {
    match row {
        Some(g) => {
            let purpose = match g.purpose {
                Some(p) => "[Group #"@ + id + " purpose: "@ + p + "]\n"@,
                None => Seq::empty(),
            };
            let notes = texts_or_empty(g.notes_json);
            purpose + (if notes.len() == 0 {
                Seq::empty()
            } else {
                "[Group #"@ + id + " notes: "@ + joined(notes, "; "@) + "]\n"@
            })
        },
        None => Seq::empty(),
    }
}

/// The parts of what is known about a contact.
pub open spec fn known_parts(row: NpubRow) -> Seq<Seq<char>> {
    let by_owner = texts_or_empty(row.owner_notes_json);
    let by_agent = texts_or_empty(row.notes_json);
    let first = if by_owner.len() == 0 {
        Seq::<Seq<char>>::empty()
    } else {
        seq!["owner says: "@ + joined(by_owner, "; "@)]
    };
    if by_agent.len() == 0 {
        first
    } else {
        first.push("notes: "@ + joined(last_three(by_agent), "; "@))
    }
}

/// What is said about a contact in front of its messages.
pub open spec fn npub_context(row: Option<NpubRow>) -> Seq<char> {
    match row {
        Some(n) => if known_parts(n).len() == 0 {
            Seq::empty()
        } else {
            "[Known about "@ + n.display_name + ": "@ + joined(known_parts(n), " | "@) + "]\n"@
        },
        None => Seq::empty(),
    }
}

fn tail_three(list: &Vec<String>) -> (r: Vec<String>)
    ensures
        texts(r@) == last_three(texts(list@)),
{
    let start: usize = if list.len() > 3 {
        list.len() - 3
    } else {
        0
    };
    let mut r: Vec<String> = Vec::new();
    let mut i: usize = start;
    while i < list.len()
        invariant
            start <= i <= list@.len(),
            texts(r@) == texts(list@).subrange(start as int, i as int),
        decreases list.len() - i,
    {
        let ghost before = r@;
        r.push(list[i].clone());
        proof {
            assert(texts(r@) =~= texts(before).push(list@[i as int]@));
        }
        i = i + 1;
    }
    proof {
        assert(texts(r@) =~= last_three(texts(list@)));
    }
    r
}

fn known_list(row: &SocialNpub) -> (r: Vec<String>)
    ensures
        texts(r@) == known_parts(row@),
{
    let mut parts: Vec<String> = Vec::new();
    proof {
        assert(texts(parts@) =~= Seq::<Seq<char>>::empty());
    }
    let by_owner = list_or_empty(&row.owner_notes_json);
    assert(texts(by_owner@).len() == by_owner@.len());
    if by_owner.len() > 0 {
        let mut part = String::from_str("owner says: ");
        part.append(join(&by_owner, "; ").as_str());
        parts.push(part);
        assert(texts(parts@) =~= seq!["owner says: "@ + joined(texts(by_owner@), "; "@)]);
    }
    let by_agent = list_or_empty(&row.notes_json);
    assert(texts(by_agent@).len() == by_agent@.len());
    if by_agent.len() > 0 {
        let ghost before = parts@;
        let mut part = String::from_str("notes: ");
        part.append(join(&tail_three(&by_agent), "; ").as_str());
        parts.push(part);
        assert(texts(parts@) =~= texts(before).push(part@));
    }
    parts
}

/// What is said about a sender and a group in front of a message.
pub fn build_social_context(t: &SocialTables, sender_hex: &str, group_id: &str) -> (r: String)
    ensures
        r@ == group_context(group_id@, group_at(t, group_id@)) + npub_context(
            npub_at(t, sender_hex@),
        ),
{
    let mut ctx = String::new();
    if let Some(group) = get_group(t, group_id) {
        if let Some(purpose) = &group.purpose {
            ctx.append("[Group #");
            ctx.append(group_id);
            ctx.append(" purpose: ");
            ctx.append(purpose.as_str());
            ctx.append("]\n");
        }
        let notes = list_or_empty(&group.notes_json);
        assert(texts(notes@).len() == notes@.len());
        if notes.len() > 0 {
            ctx.append("[Group #");
            ctx.append(group_id);
            ctx.append(" notes: ");
            ctx.append(join(&notes, "; ").as_str());
            ctx.append("]\n");
        }
    }
    assert(ctx@ =~= group_context(group_id@, group_at(t, group_id@)));
    let ghost about_group = ctx@;
    if let Some(npub) = get_npub(t, sender_hex) {
        let parts = known_list(&npub);
        assert(texts(parts@).len() == parts@.len());
        if parts.len() > 0 {
            ctx.append("[Known about ");
            ctx.append(npub.display_name.as_str());
            ctx.append(": ");
            ctx.append(join(&parts, " | ").as_str());
            ctx.append("]\n");
        }
    }
    assert(ctx@ =~= about_group + npub_context(npub_at(t, sender_hex@)));
    ctx
}

/// Storing a contact again never changes when and where it was first met, and never loses a note, a
/// profile, a preference or the mark of the owner.
pub proof fn upsert_keeps_what_is_known(o: NpubRow, new: NpubRow)
    ensures
        ({
            let m = npub_merged(Some(o), new);
            &&& m.first_seen == o.first_seen && m.first_seen_group == o.first_seen_group
            &&& o.notes_json is Some ==> m.notes_json is Some
            &&& new.notes_json is None ==> m.notes_json == o.notes_json
            &&& new.owner_notes_json is None ==> m.owner_notes_json == o.owner_notes_json
            &&& new.profile_json is None ==> m.profile_json == o.profile_json
            &&& new.preferences_json is None ==> m.preferences_json == o.preferences_json
            &&& new.name_history_json is None ==> m.name_history_json == o.name_history_json
            &&& o.is_owner ==> m.is_owner
            &&& m.display_name == new.display_name && m.last_interaction == new.last_interaction
        }),
{
}

/// Storing the same contact twice is the same as storing it once.
pub proof fn upsert_is_idempotent(o: Option<NpubRow>, new: NpubRow)
    requires
        o matches Some(r) ==> r.hex_pubkey == new.hex_pubkey,
    ensures
        npub_merged(Some(npub_merged(o, new)), new) == npub_merged(o, new),
{
}

/// What a further row says of a contact counts, and a contact is the owner if any row said so.
pub proof fn upsert_takes_what_is_new(o: NpubRow, new: NpubRow)
    ensures
        npub_merged(None, new) == new,
        ({
            let m = npub_merged(Some(o), new);
            &&& m.hex_pubkey == o.hex_pubkey
            &&& new.notes_json is Some ==> m.notes_json == new.notes_json
            &&& new.owner_notes_json is Some ==> m.owner_notes_json == new.owner_notes_json
            &&& new.profile_json is Some ==> m.profile_json == new.profile_json
            &&& new.preferences_json is Some ==> m.preferences_json == new.preferences_json
            &&& new.name_history_json is Some ==> m.name_history_json == new.name_history_json
            &&& m.is_owner <==> o.is_owner || new.is_owner
        }),
{
}

/// What a further row says of a group counts, and what it does not say stays.
pub proof fn group_keeps_what_is_known(o: GroupRow, new: GroupRow)
    ensures
        group_merged(None, new) == new,
        ({
            let m = group_merged(Some(o), new);
            &&& m.group_id == o.group_id
            &&& m.last_activity == new.last_activity
            &&& new.purpose is Some ==> m.purpose == new.purpose
            &&& new.purpose is None ==> m.purpose == o.purpose
            &&& new.members_json is Some ==> m.members_json == new.members_json
            &&& new.members_json is None ==> m.members_json == o.members_json
            &&& new.notes_json is Some ==> m.notes_json == new.notes_json
            &&& new.notes_json is None ==> m.notes_json == o.notes_json
        }),
{
}

/// A note goes to the end of the notes of the one who made it, and nothing else changes.
pub proof fn notes_go_to_their_list(row: NpubRow, note: Seq<char>)
    ensures
        ({
            let by_owner = npub_noted(row, note, true);
            let by_agent = npub_noted(row, note, false);
            &&& by_owner.owner_notes_json == Some(
                json_of_texts(texts_or_empty(row.owner_notes_json).push(note)),
            )
            &&& by_owner.notes_json == row.notes_json
            &&& by_agent.notes_json == Some(json_of_texts(texts_or_empty(row.notes_json).push(note)))
            &&& by_agent.owner_notes_json == row.owner_notes_json
            &&& by_owner.hex_pubkey == row.hex_pubkey && by_agent.hex_pubkey == row.hex_pubkey
            &&& by_owner.display_name == row.display_name && by_agent.display_name
                == row.display_name
            &&& by_owner.last_interaction == row.last_interaction && by_agent.last_interaction
                == row.last_interaction
            &&& by_owner.first_seen == row.first_seen && by_agent.first_seen == row.first_seen
            &&& by_owner.is_owner == row.is_owner && by_agent.is_owner == row.is_owner
            &&& by_owner.name_history_json == row.name_history_json && by_agent.name_history_json
                == row.name_history_json
            &&& by_owner.profile_json == row.profile_json && by_agent.profile_json
                == row.profile_json
        }),
{
}

/// A contact that was met again has its new name and the time; a name that changed goes to the end of
/// the earlier names, with the time of the change.
pub proof fn meeting_again(row: NpubRow, name: Seq<char>, timestamp: i64)
    ensures
        ({
            let t = npub_touched(row, name, timestamp);
            &&& t.display_name == name
            &&& t.last_interaction == timestamp
            &&& t.first_seen == row.first_seen && t.first_seen_group == row.first_seen_group
            &&& t.hex_pubkey == row.hex_pubkey && t.is_owner == row.is_owner
            &&& t.notes_json == row.notes_json && t.owner_notes_json == row.owner_notes_json
            &&& t.profile_json == row.profile_json && t.preferences_json == row.preferences_json
            &&& name == row.display_name ==> t.name_history_json == row.name_history_json
            &&& name != row.display_name ==> t.name_history_json == Some(
                json_of_pairs(
                    pairs_or_empty(row.name_history_json).push((timestamp, row.display_name)),
                ),
            )
        }),
{
}

/// The contacts that are listed are all that are known, each once, those met last first.
pub proof fn contacts_are_listed(m: Map<Seq<char>, NpubRow>, r: Seq<SocialNpub>, i: int, j: int)
    requires
        newest_first(m, r),
        0 <= i < j < r.len(),
    ensures
        r[i].last_interaction >= r[j].last_interaction,
        r[i].hex_pubkey@ != r[j].hex_pubkey@,
        m.contains_key(r[i].hex_pubkey@) && m[r[i].hex_pubkey@] == r[i]@,
        forall|k: Seq<char>| #[trigger]
            m.contains_key(k) ==> exists|n: int|
                0 <= n < r.len() && (#[trigger] r[n]).hex_pubkey@ == k && r[n]@ == m[k],
{
    assert(m.contains_key(r[i]@.hex_pubkey));
    assert forall|k: Seq<char>| #[trigger] m.contains_key(k) implies exists|n: int|
        0 <= n < r.len() && (#[trigger] r[n]).hex_pubkey@ == k && r[n]@ == m[k] by {
        let n = choose|n: int| 0 <= n < r.len() && (#[trigger] r[n])@.hex_pubkey == k;
        assert(r[n]@ == m[r[n]@.hex_pubkey]);
        assert(r[n].hex_pubkey@ == k);
    }
}

/// The contacts that a search finds are contacts whose key, name or notes match.
pub proof fn found_contacts_match(
    rows: Map<Seq<char>, NpubRow>,
    keys: Seq<Seq<char>>,
    query: Seq<char>,
    limit: int,
    r: Seq<SocialNpub>,
    i: int,
)
    requires
        npubs_found(rows, keys, query, limit, r),
        0 <= i < r.len(),
    ensures
        r.len() <= limit,
        fts_of(query) is Some,
        exists|k: int|
            0 <= k < keys.len() && r[i]@ == rows[#[trigger] keys[k]] && fts_matches(
                seq![
                    r[i]@.hex_pubkey,
                    r[i]@.display_name,
                    match r[i]@.notes_json {
                        Some(t) => t,
                        None => ""@,
                    },
                    match r[i]@.owner_notes_json {
                        Some(t) => t,
                        None => ""@,
                    },
                ],
                fts_of(query)->0,
            ),
{
    let hits = choose|hits: Seq<(usize, u64)>|
        {
            &&& #[trigger] found(npub_columns(rows, keys), query, limit, hits)
            &&& r.len() == hits.len()
            &&& forall|i: int|
                0 <= i < r.len() ==> hits[i].0 < keys.len() && (#[trigger] r[i])@
                    == rows[keys[hits[i].0 as int]]
        };
    let k = hits[i].0 as int;
    assert(r[i]@ == rows[keys[k]]);
    let cols = seq![
        r[i]@.hex_pubkey,
        r[i]@.display_name,
        match r[i]@.notes_json {
            Some(t) => t,
            None => ""@,
        },
        match r[i]@.owner_notes_json {
            Some(t) => t,
            None => ""@,
        },
    ];
    assert(npub_columns(rows, keys)[k] =~= cols);
    assert(fts_matches(cols, fts_of(query)->0));
    assert(keys[k] == keys[k]);
}

/// What is told of a group: its purpose and its notes, each where there is any; nothing of a group that
/// is not known.
pub proof fn groups_are_told(id: Seq<char>, g: GroupRow)
    ensures
        group_context(id, None).len() == 0,
        g.purpose is None && texts_or_empty(g.notes_json).len() == 0 ==> group_context(
            id,
            Some(g),
        ).len() == 0,
        g.purpose matches Some(p) ==> has_substring(
            group_context(id, Some(g)),
            "[Group #"@ + id + " purpose: "@ + p + "]\n"@,
        ),
        texts_or_empty(g.notes_json).len() > 0 ==> has_substring(
            group_context(id, Some(g)),
            "[Group #"@ + id + " notes: "@ + joined(texts_or_empty(g.notes_json), "; "@) + "]\n"@,
        ),
{
    let whole = group_context(id, Some(g));
    let notes = texts_or_empty(g.notes_json);
    let tail = if notes.len() == 0 {
        Seq::empty()
    } else {
        "[Group #"@ + id + " notes: "@ + joined(notes, "; "@) + "]\n"@
    };
    if let Some(p) = g.purpose {
        let a = "[Group #"@ + id + " purpose: "@ + p + "]\n"@;
        assert(whole =~= Seq::<char>::empty() + a + tail);
        substrings_stand_between(whole, a);
        if notes.len() > 0 {
            assert(whole =~= a + tail + Seq::<char>::empty());
            substrings_stand_between(whole, tail);
        }
    } else {
        assert(whole =~= Seq::<char>::empty() + tail + Seq::<char>::empty());
        substrings_stand_between(whole, tail);
    }
}

/// What is told of a contact: what the owner says, all of it, then the agent's own latest notes, three
/// at most.
pub proof fn contacts_are_told(n: NpubRow)
    ensures
        npub_context(None).len() == 0,
        ({
            let by_owner = texts_or_empty(n.owner_notes_json);
            let by_agent = texts_or_empty(n.notes_json);
            let said = "owner says: "@ + joined(by_owner, "; "@);
            let noted = "notes: "@ + joined(last_three(by_agent), "; "@);
            let head = "[Known about "@ + n.display_name + ": "@;
            &&& by_owner.len() == 0 && by_agent.len() == 0 ==> npub_context(Some(n)).len() == 0
            &&& by_owner.len() > 0 && by_agent.len() == 0 ==> npub_context(Some(n)) == head + said
                + "]\n"@
            &&& by_owner.len() == 0 && by_agent.len() > 0 ==> npub_context(Some(n)) == head + noted
                + "]\n"@
            &&& by_owner.len() > 0 && by_agent.len() > 0 ==> npub_context(Some(n)) == head + (said
                + " | "@ + noted) + "]\n"@
        }),
        forall|list: Seq<Seq<char>>|
            (#[trigger] last_three(list)).len() == (if list.len() < 3 {
                list.len() as int
            } else {
                3
            }),
        forall|list: Seq<Seq<char>>, i: int|
            0 <= i < last_three(list).len() ==> #[trigger] last_three(list)[i] == list[list.len()
                - last_three(list).len() + i],
{
    let by_owner = texts_or_empty(n.owner_notes_json);
    let by_agent = texts_or_empty(n.notes_json);
    let said = "owner says: "@ + joined(by_owner, "; "@);
    let noted = "notes: "@ + joined(last_three(by_agent), "; "@);
    let parts = known_parts(n);
    if by_owner.len() > 0 && by_agent.len() > 0 {
        assert(parts =~= seq![said, noted]);
        assert(parts.drop_last() =~= seq![said]);
        assert(joined(seq![said], " | "@) == said);
        assert(joined(parts, " | "@) == said + " | "@ + noted);
    } else if by_owner.len() > 0 {
        assert(parts =~= seq![said]);
    } else if by_agent.len() > 0 {
        assert(parts =~= seq![noted]);
    }
}

/// A contact or a group is there exactly where the table has a row for it, and is that row; what is
/// handed out says what the row says.
pub proof fn rows_are_looked_up(
    t: SocialTables,
    k: Seq<char>,
    n: Option<SocialNpub>,
    g: Option<SocialGroup>,
)
    ensures
        npub_at(&t, k) is Some <==> t.npubs().contains_key(k),
        t.npubs().contains_key(k) ==> npub_at(&t, k)->0 == t.npubs()[k],
        group_at(&t, k) is Some <==> t.groups().contains_key(k),
        t.groups().contains_key(k) ==> group_at(&t, k)->0 == t.groups()[k],
        opt_npub(n) is Some <==> n is Some,
        n is Some ==> opt_npub(n)->0 == n->0@,
        opt_group(g) is Some <==> g is Some,
        g is Some ==> opt_group(g)->0 == g->0@,
{
}

} // verus!
