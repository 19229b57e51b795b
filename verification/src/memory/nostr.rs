//! Memories on a relay, with a local cache of them.

use super::d_tag::{
    address, address_parts, memory_tags, read_address, write_address, write_memory_tags,
};
use super::traits::{
    entry_views, opt_category, CategoryView, EntryView, MemoryCategory, MemoryEntry,
};
use crate::channels::event::{
    first_tag_value, first_value, DraftView, EventDraft, EventView, NostrEvent,
};
use crate::order::{
    arranged, arranged_holds_the_same, filter_holds, filter_map_holds, filter_of_all, first_n,
    lex_le, precedes, ranked, stable_order, TextKey,
};
use crate::text::case::{lowercase, to_lowercase};
use crate::text::number::{decimal_int, i64_text};
use crate::text::pattern::{contains, has_substring};
use crate::text::{opt_eq, opt_owned, opt_str, opt_text};
use crate::text_map::{key_added, TextMap};
use crate::time::{format_time, time_text};
use vstd::prelude::*;

verus! {

/// Memories on a relay. Whatever is stored is kept in the cache too, which answers where the relay
/// does not.
pub struct NostrMemory {
    pub relay_url: Option<String>,
    pub nsec: Option<String>,
    pub app_tag: String,
    pub cache: TextMap<MemoryEntry>,
}

/// The memory that an event stands for; none where it has no address of this app.
pub open spec fn entry_from(app: Seq<char>, e: EventView) -> Option<EntryView> {
    match first_value(e.tags, "d"@) {
        Some(d) => match address_parts(app, d) {
            Some(parts) => Some(
                EntryView {
                    id: e.id,
                    key: parts.1,
                    content: e.content,
                    category: parts.0,
                    timestamp: time_text(e.created_at as i64),
                    session_id: first_value(e.tags, "session"@),
                    score: None,
                },
            ),
            None => None,
        },
        None => None,
    }
}

/// What events say.
pub open spec fn event_views(events: Seq<NostrEvent>) -> Seq<EventView> {
    Seq::new(events.len(), |i: int| events[i]@)
}

/// The memories that events stand for, in order.
pub open spec fn entries_from(app: Seq<char>, events: Seq<EventView>) -> Seq<EntryView> {
    events.filter_map(|e: EventView| entry_from(app, e))
}

/// Whether a memory is of a session, where one is asked for.
pub open spec fn in_session(e: EntryView, session: Option<Seq<char>>) -> bool {
    session is None || e.session_id == session
}

/// Whether a memory matches a query: its key or its content holds it, whatever the letter case.
pub open spec fn matches_query(e: EntryView, query: Seq<char>) -> bool {
    has_substring(lowercase(e.content), lowercase(query)) || has_substring(
        lowercase(e.key),
        lowercase(query),
    )
}

/// The memories that match a query.
pub open spec fn matching(
    entries: Seq<EntryView>,
    query: Seq<char>,
    session: Option<Seq<char>>,
) -> Seq<EntryView> {
    entries.filter(|e: EntryView| matches_query(e, query) && in_session(e, session))
}

/// The memories of a category, where one is asked for.
pub open spec fn listed(
    entries: Seq<EntryView>,
    category: Option<CategoryView>,
    session: Option<Seq<char>>,
) -> Seq<EntryView> {
    entries.filter(
        |e: EntryView| (category is None || category == Some(e.category)) && in_session(e, session),
    )
}

/// Whether a list holds the given memories, the newest first; those of the same time stay in order.
pub open spec fn newest_first(r: Seq<EntryView>, entries: Seq<EntryView>) -> bool {
    exists|idx: Seq<usize>, keys: Seq<TextKey>|
        {
            &&& keys.len() == entries.len()
            &&& forall|i: int|
                0 <= i < keys.len() ==> (#[trigger] keys[i]).chars@ == entries[i].timestamp
            &&& #[trigger] ranked(keys, entries.len() as int, idx, true)
            &&& r == arranged(entries, idx)
        }
}

fn session_matches(e: &MemoryEntry, session: Option<&str>) -> (r: bool)
    ensures
        r == in_session(
            e@,
            opt_str(session),
        ),
{
    match session {
        Some(s) => opt_eq(&e.session_id, s),
        None => true,
    }
}

/// The memories that match a query.
pub fn keep_matching(entries: &Vec<MemoryEntry>, query: &str, session: Option<&str>) -> (r: Vec<
    MemoryEntry,
>)
    ensures
        entry_views(r@) == matching(
            entry_views(entries@),
            query@,
            opt_str(session),
        ),
{
    let ghost all = entry_views(entries@);
    let ghost wanted = opt_str(session);
    let ghost keep = |e: EntryView| matches_query(e, query@) && in_session(e, wanted);
    let query_lower = to_lowercase(query);
    let mut r: Vec<MemoryEntry> = Vec::new();
    let mut i: usize = 0;
    proof {
        reveal(Seq::filter);
        assert(entry_views(r@) =~= all.take(0).filter(keep));
    }
    while i < entries.len()
        invariant
            i <= entries@.len(),
            all == entry_views(entries@),
            wanted == opt_str(session),
            keep == (|e: EntryView| matches_query(e, query@) && in_session(e, wanted)),
            query_lower@ == lowercase(query@),
            entry_views(r@) == all.take(i as int).filter(keep),
        decreases entries.len() - i,
    {
        proof {
            reveal(Seq::filter);
            assert(all.take(i + 1).drop_last() =~= all.take(i as int));
            assert(all.take(i + 1).last() == all[i as int]);
        }
        let e = &entries[i];
        let found = contains(to_lowercase(e.content.as_str()).as_str(), query_lower.as_str())
            || contains(to_lowercase(e.key.as_str()).as_str(), query_lower.as_str());
        if found && session_matches(e, session) {
            let ghost before = r@;
            r.push(e.clone());
            assert(entry_views(r@) =~= entry_views(before).push(all[i as int]));
        }
        i = i + 1;
    }
    assert(all.take(i as int) =~= all);
    r
}

/// The memories of a category and session, where they are asked for.
pub fn keep_listed(
    entries: &Vec<MemoryEntry>,
    category: Option<&MemoryCategory>,
    session: Option<&str>,
) -> (r: Vec<MemoryEntry>)
    ensures
        entry_views(r@) == listed(
            entry_views(entries@),
            opt_category(category),
            opt_str(session),
        ),
{
    let ghost all = entry_views(entries@);
    let ghost cat = opt_category(category);
    let ghost wanted = opt_str(session);
    let ghost keep = |e: EntryView| (cat is None || cat == Some(e.category)) && in_session(
        e,
        wanted,
    );
    let mut r: Vec<MemoryEntry> = Vec::new();
    let mut i: usize = 0;
    proof {
        reveal(Seq::filter);
        assert(entry_views(r@) =~= all.take(0).filter(keep));
    }
    while i < entries.len()
        invariant
            i <= entries@.len(),
            all == entry_views(entries@),
            cat == opt_category(category),
            wanted == opt_str(session),
            keep == (|e: EntryView|
                (cat is None || cat == Some(e.category)) && in_session(e, wanted)),
            entry_views(r@) == all.take(i as int).filter(keep),
        decreases entries.len() - i,
    {
        proof {
            reveal(Seq::filter);
            assert(all.take(i + 1).drop_last() =~= all.take(i as int));
            assert(all.take(i + 1).last() == all[i as int]);
        }
        let e = &entries[i];
        let right = match category {
            Some(c) => c.same(&e.category),
            None => true,
        };
        if right && session_matches(e, session) {
            let ghost before = r@;
            r.push(e.clone());
            assert(entry_views(r@) =~= entry_views(before).push(all[i as int]));
        }
        i = i + 1;
    }
    assert(all.take(i as int) =~= all);
    r
}

/// Memories with the newest first.
pub fn sort_newest_first(entries: &Vec<MemoryEntry>) -> (r: Vec<MemoryEntry>)
    ensures
        newest_first(entry_views(r@), entry_views(entries@)),
        r@.len() == entries@.len(),
{
    let ghost all = entry_views(entries@);
    let n: usize = entries.len();
    let mut keys: Vec<TextKey> = Vec::new();
    let mut i: usize = 0;
    while i < n
        invariant
            i <= n,
            n == entries@.len(),
            all == entry_views(entries@),
            keys@.len() == i,
            forall|k: int| 0 <= k < i ==> (#[trigger] keys@[k]).chars@ == all[k].timestamp,
        decreases n - i,
    {
        keys.push(TextKey::of(entries[i].timestamp.as_str()));
        i = i + 1;
    }
    let idx = stable_order(&keys, true);
    let ghost want = arranged(all, idx@);
    let mut r: Vec<MemoryEntry> = Vec::new();
    let mut j: usize = 0;
    assert(entry_views(r@) =~= want.take(0));
    while j < n
        invariant
            j <= n,
            n == entries@.len(),
            n == keys@.len(),
            all == entry_views(entries@),
            ranked(keys@, n as int, idx@, true),
            want == arranged(all, idx@),
            r@.len() == j,
            entry_views(r@) == want.take(j as int),
        decreases n - j,
    {
        let ghost before = r@;
        r.push(entries[idx[j]].clone());
        proof {
            assert(entry_views(r@) =~= entry_views(before).push(want[j as int]));
            assert(want.take(j + 1) =~= want.take(j as int).push(want[j as int]));
        }
        j = j + 1;
    }
    proof {
        assert(want.take(n as int) =~= want);
        assert(ranked(keys@, all.len() as int, idx@, true));
    }
    r
}

fn truncated(entries: Vec<MemoryEntry>, limit: usize) -> (r: Vec<MemoryEntry>)
    ensures
        entry_views(r@) == first_n(entry_views(entries@), limit as int),
{
    let mut r = entries;
    if r.len() > limit {
        r.truncate(limit);
    }
    assert(entry_views(r@) =~= first_n(entry_views(entries@), limit as int));
    r
}

impl NostrMemory {
    /// Memories on a relay, with an empty cache.
    pub fn new(relay_url: Option<&str>, nsec: Option<&str>) -> (r: Self)
        ensures
            opt_text(r.relay_url) == opt_str(relay_url),
            opt_text(r.nsec) == opt_str(nsec),
            r.app_tag@ == "snowclaw"@,
            r.cached() == Seq::<EntryView>::empty(),
            r.cache@ == Map::<Seq<char>, MemoryEntry>::empty(),
    {
        let r = NostrMemory {
            relay_url: opt_owned(relay_url),
            nsec: opt_owned(nsec),
            app_tag: "snowclaw".to_owned(),
            cache: TextMap::new(),
        };
        assert(r.cached() =~= Seq::<EntryView>::empty());
        r
    }

    /// Memories in the cache alone.
    pub fn local_only() -> (r: Self)
        ensures
            r.relay_url is None,
            r.nsec is None,
            r.app_tag@ == "snowclaw"@,
            r.cached() == Seq::<EntryView>::empty(),
            r.cache@ == Map::<Seq<char>, MemoryEntry>::empty(),
    {
        NostrMemory::new(None, None)
    }

    /// The memories of the cache, in the order in which their keys came in.
    pub open spec fn cached(&self) -> Seq<EntryView> {
        Seq::new(self.cache.keys().len(), |i: int| self.cache@[self.cache.keys()[i]]@)
    }

    /// Name of the backend.
    pub fn name(&self) -> (r: &'static str)
        ensures
            r@ == "nostr"@,
    {
        "nostr"
    }

    /// Whether a relay and a key are configured.
    pub fn has_relay_config(&self) -> (r: bool)
        ensures
            r == (self.relay_url is Some && self.nsec is Some),
    {
        self.relay_url.is_some() && self.nsec.is_some()
    }

    /// The address of a memory.
    pub fn d_tag(&self, key: &str, category: &MemoryCategory) -> (r: String)
        ensures
            r@ == address(self.app_tag@, category@, key@),
    {
        write_address(self.app_tag.as_str(), category, key)
    }

    /// The category and the key of an address.
    pub fn parse_d_tag(&self, d_tag: &str) -> (r: Option<(MemoryCategory, String)>)
        ensures
            match r {
                Some(p) => address_parts(self.app_tag@, d_tag@) == Some((p.0@, p.1@)),
                None => address_parts(self.app_tag@, d_tag@) is None,
            },
    {
        read_address(self.app_tag.as_str(), d_tag)
    }

    /// The memory that an event stands for.
    pub fn event_to_entry(&self, event: &NostrEvent) -> (r: Option<MemoryEntry>)
        ensures
            match r {
                Some(e) => entry_from(self.app_tag@, event@) == Some(e@),
                None => entry_from(self.app_tag@, event@) is None,
            },
    {
        match first_tag_value(&event.tags, "d") {
            Some(d) => match self.parse_d_tag(d.as_str()) {
                Some(parts) => Some(
                    MemoryEntry {
                        id: event.id.clone(),
                        key: parts.1,
                        content: event.content.clone(),
                        category: parts.0,
                        timestamp: format_time(event.created_at as i64),
                        session_id: first_tag_value(&event.tags, "session"),
                        score: None,
                    },
                ),
                None => None,
            },
            None => None,
        }
    }

    fn events_to_entries(&self, events: &Vec<NostrEvent>) -> (r: Vec<MemoryEntry>)
        ensures
            entry_views(r@) == entries_from(self.app_tag@, event_views(events@)),
    {
        let ghost all = event_views(events@);
        let ghost f = |e: EventView| entry_from(self.app_tag@, e);
        let mut r: Vec<MemoryEntry> = Vec::new();
        let mut i: usize = 0;
        assert(entry_views(r@) =~= entries_from(self.app_tag@, all.take(0)));
        while i < events.len()
            invariant
                i <= events@.len(),
                all == event_views(events@),
                f == (|e: EventView| entry_from(self.app_tag@, e)),
                entry_views(r@) == entries_from(self.app_tag@, all.take(i as int)),
            decreases events.len() - i,
        {
            proof {
                all.lemma_filter_map_take_succ(f, i as int);
            }
            if let Some(e) = self.event_to_entry(&events[i]) {
                let ghost before = r@;
                r.push(e);
                assert(entry_views(r@) =~= entry_views(before).push(e@));
            }
            assert(entry_views(r@) =~= entries_from(self.app_tag@, all.take(i + 1)));
            i = i + 1;
        }
        assert(all.take(i as int) =~= all);
        r
    }

    fn cached_entries(&self) -> (r: Vec<MemoryEntry>)
        ensures
            entry_views(r@) == self.cached(),
    {
        let n: usize = self.cache.len();
        let ghost want = self.cached();
        let mut r: Vec<MemoryEntry> = Vec::new();
        let mut i: usize = 0;
        assert(entry_views(r@) =~= want.take(0));
        while i < n
            invariant
                i <= n,
                n == self.cache.keys().len(),
                want == self.cached(),
                entry_views(r@) == want.take(i as int),
            decreases n - i,
        {
            let entry = self.cache.entry_at(i);
            let ghost before = r@;
            r.push(entry.1.clone());
            proof {
                assert(entry_views(r@) =~= entry_views(before).push(want[i as int]));
                assert(want.take(i + 1) =~= want.take(i as int).push(want[i as int]));
            }
            i = i + 1;
        }
        assert(want.take(n as int) =~= want);
        r
    }

    /// Stores a memory in the cache, given the time in both forms, and gives the event that stores
    /// it on the relay.
    pub fn store(
        &mut self,
        key: &str,
        content: &str,
        category: &MemoryCategory,
        session_id: Option<&str>,
        now: &str,
        now_millis: i64,
    ) -> (r: EventDraft)
        ensures
            r@ == (DraftView {
                kind: 30078,
                tags: memory_tags(
                    old(self).app_tag@,
                    category@,
                    key@,
                    opt_str(session_id),
                ),
                content: content@,
            }),
            final(self).cache@.contains_key(key@),
            final(self).cache@[key@]@ == (EntryView {
                id: "nostr-"@ + decimal_int(now_millis as int),
                key: key@,
                content: content@,
                category: category@,
                timestamp: now@,
                session_id: opt_str(session_id),
                score: None,
            }),
            final(self).cache@.remove(key@) == old(self).cache@.remove(key@),
            final(self).cache.keys() == key_added(old(self).cache.keys(), key@),
            final(self).relay_url == old(self).relay_url,
            final(self).nsec == old(self).nsec,
            final(self).app_tag == old(self).app_tag,
    {
        let mut id = String::from_str("nostr-");
        id.append(i64_text(now_millis).as_str());
        let entry = MemoryEntry {
            id,
            key: key.to_owned(),
            content: content.to_owned(),
            category: category.clone(),
            timestamp: now.to_owned(),
            session_id: opt_owned(session_id),
            score: None,
        };
        let ghost before = self.cache@;
        self.cache.insert(key.to_owned(), entry);
        assert(self.cache@.remove(key@) =~= before.remove(key@));
        EventDraft {
            kind: 30078,
            tags: write_memory_tags(self.app_tag.as_str(), category, key, session_id),
            content: content.to_owned(),
        }
    }

    /// The memories that match a query, the newest first: the first few of those that the relay
    /// gave, where it gave events; else the newest of those in the cache.
    pub fn recall(
        &self,
        query: &str,
        limit: usize,
        session_id: Option<&str>,
        fetched: Option<&Vec<NostrEvent>>,
    ) -> (r: Vec<MemoryEntry>)
        ensures
            ({
                let session = opt_str(session_id);
                if fetched is Some && fetched->0@.len() > 0 {
                    newest_first(
                        entry_views(r@),
                        first_n(
                            matching(
                                entries_from(self.app_tag@, event_views(fetched->0@)),
                                query@,
                                session,
                            ),
                            limit as int,
                        ),
                    )
                } else {
                    exists|all: Seq<EntryView>| #[trigger]
                        newest_first(all, matching(self.cached(), query@, session)) && entry_views(
                            r@,
                        ) == first_n(all, limit as int)
                }
            }),
    {
        if let Some(events) = fetched {
            if events.len() > 0 {
                let entries = self.events_to_entries(events);
                let found = truncated(keep_matching(&entries, query, session_id), limit);
                return sort_newest_first(&found);
            }
        }
        let found = keep_matching(&self.cached_entries(), query, session_id);
        let sorted = sort_newest_first(&found);
        let ghost all = entry_views(sorted@);
        let r = truncated(sorted, limit);
        proof {
            assert(newest_first(
                all,
                matching(
                    self.cached(),
                    query@,
                    opt_str(session_id),
                ),
            ));
        }
        r
    }

    /// The addresses under which the relay is asked for a key, one for each category in turn.
    pub fn relay_addresses(&self, key: &str) -> (r: Vec<String>)
        ensures
            crate::text::texts(r@) == seq![
                address(self.app_tag@, CategoryView::Core, key@),
                address(self.app_tag@, CategoryView::Daily, key@),
                address(self.app_tag@, CategoryView::Conversation, key@),
            ],
    {
        let mut r: Vec<String> = Vec::new();
        r.push(self.d_tag(key, &MemoryCategory::Core));
        r.push(self.d_tag(key, &MemoryCategory::Daily));
        r.push(self.d_tag(key, &MemoryCategory::Conversation));
        assert(crate::text::texts(r@) =~= seq![
            address(self.app_tag@, CategoryView::Core, key@),
            address(self.app_tag@, CategoryView::Daily, key@),
            address(self.app_tag@, CategoryView::Conversation, key@),
        ]);
        r
    }

    /// The memory under a key: the first that one of the relay's answers stands for, else that of
    /// the cache.
    pub fn get(&self, key: &str, fetched: &Vec<NostrEvent>) -> (r: Option<MemoryEntry>)
        ensures
            match r {
                Some(e) => if entries_from(self.app_tag@, event_views(fetched@)).len() > 0 {
                    e@ == entries_from(self.app_tag@, event_views(fetched@))[0]
                } else {
                    self.cache@.contains_key(key@) && e == self.cache@[key@]
                },
                None => entries_from(self.app_tag@, event_views(fetched@)).len() == 0
                    && !self.cache@.contains_key(key@),
            },
    {
        let mut entries = self.events_to_entries(fetched);
        assert(entry_views(entries@).len() == entries@.len());
        if entries.len() > 0 {
            assert(entry_views(entries@)[0] == entries@[0]@);
            return Some(entries.remove(0));
        }
        match self.cache.get(key) {
            Some(e) => Some(e.clone()),
            None => None,
        }
    }

    /// The memories of a category and session: those that the relay gave, where it gave events, else
    /// those of the cache.
    pub fn list(
        &self,
        category: Option<&MemoryCategory>,
        session_id: Option<&str>,
        fetched: Option<&Vec<NostrEvent>>,
    ) -> (r: Vec<MemoryEntry>)
        ensures
            entry_views(r@) == listed(
                if fetched is Some && fetched->0@.len() > 0 {
                    entries_from(self.app_tag@, event_views(fetched->0@))
                } else {
                    self.cached()
                },
                opt_category(category),
                opt_str(session_id),
            ),
    {
        if let Some(events) = fetched {
            if events.len() > 0 {
                return keep_listed(&self.events_to_entries(events), category, session_id);
            }
        }
        keep_listed(&self.cached_entries(), category, session_id)
    }

    /// Forgets a memory. Tells whether the relay dropped it or the cache held it.
    pub fn forget(&mut self, key: &str, dropped_by_relay: bool) -> (r: bool)
        ensures
            r == (dropped_by_relay || old(self).cache@.contains_key(key@)),
            final(self).cache@ == old(self).cache@.remove(key@),
            final(self).relay_url == old(self).relay_url,
            final(self).nsec == old(self).nsec,
            final(self).app_tag == old(self).app_tag,
    {
        let ghost before = self.cache@;
        let held = self.cache.remove(key).is_some();
        assert(!before.contains_key(key@) ==> before.remove(key@) =~= before);
        dropped_by_relay || held
    }

    /// The number of memories.
    pub fn count(&self, fetched: Option<&Vec<NostrEvent>>) -> (r: usize)
        ensures
            r == listed(
                if fetched is Some && fetched->0@.len() > 0 {
                    entries_from(self.app_tag@, event_views(fetched->0@))
                } else {
                    self.cached()
                },
                None,
                None,
            ).len(),
    {
        let entries = self.list(None, None, fetched);
        assert(entry_views(entries@).len() == entries@.len());
        entries.len()
    }
}

/// An event is a memory if its address is one of the app: under the key of the address, with the
/// event's own id, content, time and session.
pub proof fn memories_read_from_events(app: Seq<char>, e: EventView)
    ensures
        first_value(e.tags, "d"@) is None ==> entry_from(app, e) is None,
        first_value(e.tags, "d"@) matches Some(d) ==> (address_parts(app, d) is None <==> entry_from(
            app,
            e,
        ) is None),
        first_value(e.tags, "d"@) matches Some(d) ==> (address_parts(app, d) matches Some(parts) ==> {
            let m = entry_from(app, e)->0;
            &&& m.id == e.id
            &&& m.key == parts.1
            &&& m.category == parts.0
            &&& m.content == e.content
            &&& m.timestamp == time_text(e.created_at as i64)
            &&& m.session_id == first_value(e.tags, "session"@)
            &&& m.score is None
        }),
{
}

/// The memories of events are those that the events hold.
pub proof fn events_give_memories(app: Seq<char>, events: Seq<EventView>, m: EntryView)
    ensures
        entries_from(app, events).contains(m) <==> exists|e: EventView|
            #[trigger] events.contains(e) && entry_from(app, e) == Some(m),
{
    let f = |e: EventView| entry_from(app, e);
    filter_map_holds(events, f, m);
    if entries_from(app, events).contains(m) {
        let e = choose|e: EventView| #[trigger] events.contains(e) && f(e) == Some(m);
        assert(entry_from(app, e) == Some(m));
    }
    if exists|e: EventView| #[trigger] events.contains(e) && entry_from(app, e) == Some(m) {
        let e = choose|e: EventView| #[trigger] events.contains(e) && entry_from(app, e) == Some(m);
        assert(f(e) == Some(m));
    }
}

/// A memory is recalled if its content or its key holds the query, in any letter case, and it is of
/// the session, where one is asked for.
pub proof fn recalled_memories_match(
    entries: Seq<EntryView>,
    query: Seq<char>,
    session: Option<Seq<char>>,
    m: EntryView,
)
    ensures
        matching(entries, query, session).contains(m) <==> entries.contains(m) && (has_substring(
            lowercase(m.content),
            lowercase(query),
        ) || has_substring(lowercase(m.key), lowercase(query))) && (session is None
            || m.session_id == session),
{
    filter_holds(entries, |e: EntryView| matches_query(e, query) && in_session(e, session), m);
}

/// A memory is listed if it is of the category and of the session, where they are asked for.
pub proof fn listed_memories_fit(
    entries: Seq<EntryView>,
    category: Option<CategoryView>,
    session: Option<Seq<char>>,
    m: EntryView,
)
    ensures
        listed(entries, category, session).contains(m) <==> entries.contains(m) && (category is None
            || category->0 == m.category) && (session is None || m.session_id == session),
        listed(entries, None, None) == entries,
{
    filter_holds(
        entries,
        |e: EntryView| (category is None || category == Some(e.category)) && in_session(e, session),
        m,
    );
    let none = None::<CategoryView>;
    let any = None::<Seq<char>>;
    filter_of_all(
        entries,
        |e: EntryView| (none is None || none == Some(e.category)) && in_session(e, any),
    );
}

/// Memories in order of time: the same ones, none dated after one before it.
pub proof fn newest_memories_come_first(r: Seq<EntryView>, entries: Seq<EntryView>, i: int, j: int)
    requires
        newest_first(r, entries),
        entries.len() <= usize::MAX,
        0 <= i < j < r.len(),
    ensures
        r.len() == entries.len(),
        lex_le(r[j].timestamp, r[i].timestamp),
        forall|m: EntryView| #[trigger] r.contains(m) <==> entries.contains(m),
{
    let (idx, keys) = choose|idx: Seq<usize>, keys: Seq<TextKey>|
        {
            &&& keys.len() == entries.len()
            &&& forall|i: int|
                0 <= i < keys.len() ==> (#[trigger] keys[i]).chars@ == entries[i].timestamp
            &&& #[trigger] ranked(keys, entries.len() as int, idx, true)
            &&& r == arranged(entries, idx)
        };
    assert(precedes(keys, idx[i] as int, idx[j] as int, true));
    assert(keys[idx[i] as int].chars@ == r[i].timestamp);
    assert(keys[idx[j] as int].chars@ == r[j].timestamp);
    assert forall|m: EntryView| #[trigger] r.contains(m) <==> entries.contains(m) by {
        arranged_holds_the_same(keys, entries, idx, true, m);
    }
}

} // verus!
