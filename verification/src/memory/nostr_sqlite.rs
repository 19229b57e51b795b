//! Memories in a local table, shared over a relay.

use super::collective_relay::{is_nip44_encrypted, is_sealed, open_content, sealed_tag};
use super::d_tag::{
    address, address_parts, memory_tags, read_address, write_address, write_memory_tags,
};
use super::fts::{columns_of, found, fts_matches, fts_of, row_of, search};
use super::traits::{opt_category, CategoryView, MemoryCategory};
use crate::channels::event::{
    first_tag_value, first_value, pair_tag, tag_texts, DraftView, EventDraft, EventView, NostrEvent,
};
use crate::keys::{fits_seal, key_of_secret, seal, secret_key_owner, unseal, unsealed};
use crate::order::filter_holds;
use crate::text::{opt_eq, opt_owned, opt_str, opt_text, texts};
use crate::text_map::{key_added, TextMap};
use vstd::prelude::*;

verus! {

/// A memory of the table.
#[derive(Debug)]
pub struct StoredMemory {
    pub content: String,
    pub category: MemoryCategory,
    pub session_id: Option<String>,
}

/// What a `StoredMemory` says.
pub struct StoredView {
    pub content: Seq<char>,
    pub category: CategoryView,
    pub session_id: Option<Seq<char>>,
}

impl View for StoredMemory {
    type V = StoredView;

    open spec fn view(&self) -> StoredView {
        StoredView {
            content: self.content@,
            category: self.category@,
            session_id: opt_text(self.session_id),
        }
    }
}

impl Clone for StoredMemory {
    fn clone(&self) -> (r: Self)
        ensures
            r == *self,
    {
        StoredMemory {
            content: self.content.clone(),
            category: self.category.clone(),
            session_id: self.session_id.clone(),
        }
    }
}

/// Memories in a local table by key, shared over a relay where one is configured.
pub struct NostrSqliteMemory {
    pub table: TextMap<StoredMemory>,
    pub relay_url: Option<String>,
    pub nsec: Option<String>,
    pub app_tag: String,
    pub encrypted: bool,
}

/// The memories of a table by key.
pub open spec fn stored_views(m: Map<Seq<char>, StoredMemory>) -> Map<Seq<char>, StoredView> {
    m.map_values(|s: StoredMemory| s@)
}

/// The content of an event as the agent reads it: opened where it is sealed and opens, else as it
/// is.
pub open spec fn readable(
    tags: Seq<Seq<Seq<char>>>,
    content: Seq<char>,
    secret: Option<Seq<char>>,
    author: Seq<char>,
) -> Seq<char> {
    match secret {
        Some(s) => match open_content(tags, content, s, author) {
            Some(plain) => plain,
            None => content,
        },
        None => content,
    }
}

/// The key and the memory that an event stands for; none where it has no address of this app.
pub open spec fn row_from(app: Seq<char>, secret: Option<Seq<char>>, e: EventView) -> Option<
    (Seq<char>, StoredView),
> {
    match first_value(e.tags, "d"@) {
        Some(d) => match address_parts(app, d) {
            Some(parts) => Some(
                (
                    parts.1,
                    StoredView {
                        content: readable(e.tags, e.content, secret, e.pubkey),
                        category: parts.0,
                        session_id: first_value(e.tags, "session"@),
                    },
                ),
            ),
            None => None,
        },
        None => None,
    }
}

/// The table after events were taken in in turn.
pub open spec fn rows_synced(
    m: Map<Seq<char>, StoredView>,
    app: Seq<char>,
    secret: Option<Seq<char>>,
    events: Seq<NostrEvent>,
) -> Map<Seq<char>, StoredView>
    decreases events.len(),
{
    if events.len() == 0 {
        m
    } else {
        let before = rows_synced(m, app, secret, events.drop_last());
        match row_from(app, secret, events.last()@) {
            Some(row) => before.insert(row.0, row.1),
            None => before,
        }
    }
}

/// The number of events that stand for a memory.
pub open spec fn rows_held(
    app: Seq<char>,
    secret: Option<Seq<char>>,
    events: Seq<NostrEvent>,
) -> nat {
    events.filter(|e: NostrEvent| row_from(app, secret, e@) is Some).len()
}

impl NostrSqliteMemory {
    /// An empty table.
    pub fn new(relay_url: Option<&str>, nsec: Option<&str>, encrypted: bool) -> (r: Self)
        ensures
            opt_text(r.relay_url) == opt_str(relay_url),
            opt_text(r.nsec) == opt_str(nsec),
            r.app_tag@ == "snowclaw"@,
            r.encrypted == encrypted,
            r.rows() == Map::<Seq<char>, StoredView>::empty(),
            r.table.keys() == Seq::<Seq<char>>::empty(),
    {
        let r = NostrSqliteMemory {
            table: TextMap::new(),
            relay_url: opt_owned(relay_url),
            nsec: opt_owned(nsec),
            app_tag: "snowclaw".to_owned(),
            encrypted,
        };
        assert(r.rows() =~= Map::<Seq<char>, StoredView>::empty());
        r
    }

    /// An empty table whose memories are shared as they are.
    pub fn new_default(relay_url: Option<&str>, nsec: Option<&str>) -> (r: Self)
        ensures
            opt_text(r.relay_url) == opt_str(relay_url),
            opt_text(r.nsec) == opt_str(nsec),
            r.app_tag@ == "snowclaw"@,
            !r.encrypted,
            r.rows() == Map::<Seq<char>, StoredView>::empty(),
            r.table.keys() == Seq::<Seq<char>>::empty(),
    {
        NostrSqliteMemory::new(relay_url, nsec, false)
    }

    /// The memories by key.
    pub open spec fn rows(&self) -> Map<Seq<char>, StoredView> {
        stored_views(self.table@)
    }

    /// Name of the backend.
    pub fn name(&self) -> (r: &'static str)
        ensures
            r@ == "nostr"@,
    {
        "nostr"
    }

    /// Whether a relay and a key are configured.
    pub fn has_relay_config(&self) -> (r: bool)
        ensures
            r == (self.relay_url is Some && self.nsec is Some),
    {
        self.relay_url.is_some() && self.nsec.is_some()
    }

    /// The address of a memory.
    pub fn d_tag(&self, key: &str, category: &MemoryCategory) -> (r: String)
        ensures
            r@ == address(self.app_tag@, category@, key@),
    {
        write_address(self.app_tag.as_str(), category, key)
    }

    /// The category and the key of an address.
    pub fn parse_d_tag(&self, d_tag: &str) -> (r: Option<(MemoryCategory, String)>)
        ensures
            match r {
                Some(p) => address_parts(self.app_tag@, d_tag@) == Some((p.0@, p.1@)),
                None => address_parts(self.app_tag@, d_tag@) is None,
            },
    {
        read_address(self.app_tag.as_str(), d_tag)
    }

    fn put(&mut self, key: &str, content: &str, category: &MemoryCategory, session: Option<&str>)
        ensures
            final(self).rows() == old(self).rows().insert(
                key@,
                StoredView {
                    content: content@,
                    category: category@,
                    session_id: opt_str(session),
                },
            ),
            final(self).table.keys() == key_added(old(self).table.keys(), key@),
            final(self).relay_url == old(self).relay_url,
            final(self).nsec == old(self).nsec,
            final(self).app_tag == old(self).app_tag,
            final(self).encrypted == old(self).encrypted,
    {
        let ghost before = self.rows();
        let row = StoredMemory {
            content: content.to_owned(),
            category: category.clone(),
            session_id: opt_owned(session),
        };
        self.table.insert(key.to_owned(), row);
        assert(self.rows() =~= before.insert(key@, row@));
    }

    /// Stores a memory in the table in place of what stood under its key, and gives the event that
    /// shares it, if memories are shared.
    pub fn store(
        &mut self,
        key: &str,
        content: &str,
        category: &MemoryCategory,
        session_id: Option<&str>,
    ) -> (r: Option<EventDraft>)
        ensures
            final(self).rows() == old(self).rows().insert(
                key@,
                StoredView {
                    content: content@,
                    category: category@,
                    session_id: opt_str(session_id),
                },
            ),
            final(self).table.keys() == key_added(old(self).table.keys(), key@),
            r is Some == old(self).shares(),
            r is Some ==> old(self).shared_as(
                r->0@,
                key@,
                content@,
                category@,
                opt_str(session_id),
            ),
            final(self).relay_url == old(self).relay_url,
            final(self).nsec == old(self).nsec,
            final(self).app_tag == old(self).app_tag,
            final(self).encrypted == old(self).encrypted,
    {
        self.put(key, content, category, session_id);
        self.publish_to_relay(key, content, category, session_id)
    }

    /// Whether memories are shared: a relay is configured and the key reads.
    pub open spec fn shares(&self) -> bool {
        self.relay_url is Some && self.nsec is Some && secret_key_owner(self.nsec->0@) is Some
    }

    /// Whether an event shares a memory: sealed to the agent itself where that is asked for and the
    /// content can be sealed, else as it is.
    pub open spec fn shared_as(
        &self,
        d: DraftView,
        key: Seq<char>,
        content: Seq<char>,
        category: CategoryView,
        session: Option<Seq<char>>,
    ) -> bool {
        let tags = memory_tags(self.app_tag@, category, key, session);
        let secret = self.nsec->0@;
        if self.encrypted && fits_seal(content) {
            &&& d == DraftView { kind: 30078, tags: tags.push(sealed_tag()), content: d.content }
            &&& unsealed(secret, secret_key_owner(secret)->0, d.content) == Some(content)
        } else {
            d == DraftView { kind: 30078, tags, content }
        }
    }

    /// The event that shares a memory, if memories are shared.
    pub fn publish_to_relay(
        &self,
        key: &str,
        content: &str,
        category: &MemoryCategory,
        session_id: Option<&str>,
    ) -> (r: Option<EventDraft>)
        ensures
            r is Some == self.shares(),
            r is Some ==> self.shared_as(
                r->0@,
                key@,
                content@,
                category@,
                opt_str(session_id),
            ),
    {
        if self.relay_url.is_none() {
            return None;
        }
        let secret = match &self.nsec {
            Some(s) => s,
            None => return None,
        };
        let own = match key_of_secret(secret.as_str()) {
            Some(k) => k,
            None => return None,
        };
        let mut tags = write_memory_tags(self.app_tag.as_str(), category, key, session_id);
        if self.encrypted {
            if let Some(payload) = seal(secret.as_str(), own.as_str(), content) {
                let ghost before = tags@;
                let tag = pair_tag("encrypted", "nip44");
                tags.push(tag);
                assert(tag_texts(tags@) =~= tag_texts(before).push(texts(tag@)));
                return Some(EventDraft { kind: 30078, tags, content: payload });
            }
        }
        Some(EventDraft { kind: 30078, tags, content: content.to_owned() })
    }

    fn readable_content(&self, event: &NostrEvent) -> (r: String)
        ensures
            r@ == readable(event@.tags, event@.content, opt_text(self.nsec), event@.pubkey),
    {
        if is_nip44_encrypted(event) {
            if let Some(secret) = &self.nsec {
                if let Some(plain) = unseal(
                    secret.as_str(),
                    event.pubkey.as_str(),
                    event.content.as_str(),
                ) {
                    return plain;
                }
            }
        }
        event.content.clone()
    }

    /// Stores the memories that events from the relay stand for. Gives their number.
    pub fn sync_from_relay(&mut self, events: &Vec<NostrEvent>) -> (r: usize)
        ensures
            final(self).rows() == rows_synced(
                old(self).rows(),
                old(self).app_tag@,
                opt_text(old(self).nsec),
                events@,
            ),
            r == rows_held(old(self).app_tag@, opt_text(old(self).nsec), events@),
            final(self).relay_url == old(self).relay_url,
            final(self).nsec == old(self).nsec,
            final(self).app_tag == old(self).app_tag,
            final(self).encrypted == old(self).encrypted,
    {
        let ghost start = self.rows();
        let ghost app = self.app_tag@;
        let ghost secret = opt_text(self.nsec);
        let ghost keep = |e: NostrEvent| row_from(app, secret, e@) is Some;
        let n: usize = events.len();
        let mut count: usize = 0;
        let mut i: usize = 0;
        proof {
            reveal(Seq::filter);
            assert(events@.take(0).filter(keep).len() == 0);
        }
        while i < n
            invariant
                i <= n,
                n == events@.len(),
                count <= i,
                keep == (|e: NostrEvent| row_from(app, secret, e@) is Some),
                app == self.app_tag@,
                secret == opt_text(self.nsec),
                count == rows_held(app, secret, events@.take(i as int)),
                self.rows() == rows_synced(start, app, secret, events@.take(i as int)),
                self.relay_url == old(self).relay_url,
                self.nsec == old(self).nsec,
                self.app_tag == old(self).app_tag,
                self.encrypted == old(self).encrypted,
            decreases n - i,
        {
            proof {
                reveal(Seq::filter);
                assert(events@.take(i + 1).drop_last() =~= events@.take(i as int));
                assert(events@.take(i + 1).last() == events@[i as int]);
            }
            let event = &events[i];
            if let Some(d) = first_tag_value(&event.tags, "d") {
                if let Some(parts) = self.parse_d_tag(d.as_str()) {
                    let session = first_tag_value(&event.tags, "session");
                    let content = self.readable_content(event);
                    match &session {
                        Some(s) => self.put(
                            parts.1.as_str(),
                            content.as_str(),
                            &parts.0,
                            Some(s.as_str()),
                        ),
                        None => self.put(parts.1.as_str(), content.as_str(), &parts.0, None),
                    }
                    count = count + 1;
                }
            }
            i = i + 1;
        }
        assert(events@.take(n as int) =~= events@);
        count
    }

    /// The memory under a key. Where the table has none, the first of the relay's answers, which
    /// stand for the core, daily and conversation categories in turn, is stored there.
    pub fn get(&mut self, key: &str, fetched: &Vec<Option<NostrEvent>>) -> (r: Option<StoredMemory>)
        requires
            fetched@.len() <= 3,
        ensures
            match first_answer(fetched@) {
                Some(i) => if old(self).rows().contains_key(key@) || !(old(self).relay_url is Some
                    && old(self).nsec is Some) {
                    final(self).rows() == old(self).rows()
                } else {
                    final(self).rows() == old(self).rows().insert(
                        key@,
                        StoredView {
                            content: fetched@[i]->0@.content,
                            category: asked_category(i),
                            session_id: first_value(fetched@[i]->0@.tags, "session"@),
                        },
                    )
                },
                None => final(self).rows() == old(self).rows(),
            },
            match r {
                Some(m) => final(self).rows().contains_key(key@) && m@ == final(self).rows()[key@],
                None => !final(self).rows().contains_key(key@),
            },
            final(self).relay_url == old(self).relay_url,
            final(self).nsec == old(self).nsec,
            final(self).app_tag == old(self).app_tag,
            final(self).encrypted == old(self).encrypted,
    {
        if !self.table.contains_key(key) && self.has_relay_config() {
            let mut i: usize = 0;
            while i < fetched.len() && fetched[i].is_none()
                invariant
                    i <= fetched@.len(),
                    forall|j: int| 0 <= j < i ==> (#[trigger] fetched@[j]) is None,
                decreases fetched.len() - i,
            {
                i = i + 1;
            }
            proof {
                answer_at(fetched@, i as int);
            }
            if i < fetched.len() {
                if let Some(event) = &fetched[i] {
                    let category = if i == 0 {
                        MemoryCategory::Core
                    } else if i == 1 {
                        MemoryCategory::Daily
                    } else {
                        MemoryCategory::Conversation
                    };
                    let session = first_tag_value(&event.tags, "session");
                    match &session {
                        Some(s) => self.put(
                            key,
                            event.content.as_str(),
                            &category,
                            Some(s.as_str()),
                        ),
                        None => self.put(key, event.content.as_str(), &category, None),
                    }
                }
            }
        }
        match self.table.get(key) {
            Some(m) => Some(m.clone()),
            None => None,
        }
    }

    /// The memories of a category and session, where they are asked for, with their keys.
    pub fn list(&self, category: Option<&MemoryCategory>, session_id: Option<&str>) -> (r: Vec<
        (String, StoredMemory),
    >)
        ensures
            Seq::new(r@.len(), |i: int| r@[i].0@) == chosen_keys(
                self.table@,
                self.table.keys(),
                opt_category(category),
                opt_str(session_id),
            ),
            forall|i: int|
                0 <= i < r@.len() ==> self.table@.contains_key((#[trigger] r@[i]).0@) && r@[i].1
                    == self.table@[r@[i].0@],
    {
        let ghost cat = opt_category(category);
        let ghost ses = opt_str(session_id);
        let ghost all = self.table.keys();
        let ghost m = self.table@;
        let ghost keep = |k: Seq<char>| chosen(m[k]@, cat, ses);
        let n: usize = self.table.len();
        let mut r: Vec<(String, StoredMemory)> = Vec::new();
        let mut i: usize = 0;
        proof {
            reveal(Seq::filter);
            assert(Seq::new(r@.len(), |i: int| r@[i].0@) =~= all.take(0).filter(keep));
        }
        while i < n
            invariant
                i <= n,
                n == all.len(),
                all == self.table.keys(),
                cat == opt_category(category),
                ses == opt_str(session_id),
                m == self.table@,
                keep == (|k: Seq<char>| chosen(m[k]@, cat, ses)),
                Seq::new(r@.len(), |i: int| r@[i].0@) == all.take(i as int).filter(keep),
                forall|i: int|
                    0 <= i < r@.len() ==> self.table@.contains_key((#[trigger] r@[i]).0@) && r@[i].1
                        == self.table@[r@[i].0@],
            decreases n - i,
        {
            proof {
                reveal(Seq::filter);
                assert(all.take(i + 1).drop_last() =~= all.take(i as int));
                assert(all.take(i + 1).last() == all[i as int]);
            }
            let entry = self.table.entry_at(i);
            let right = match category {
                Some(c) => c.same(&entry.1.category),
                None => true,
            };
            let here = match session_id {
                Some(s) => opt_eq(&entry.1.session_id, s),
                None => true,
            };
            if right && here {
                let ghost before = r@;
                r.push((entry.0.clone(), entry.1.clone()));
                assert(Seq::new(r@.len(), |i: int| r@[i].0@) =~= Seq::new(
                    before.len(),
                    |i: int| before[i].0@,
                ).push(all[i as int]));
            }
            i = i + 1;
        }
        assert(all.take(n as int) =~= all);
        r
    }

    /// Recalls memories, of a session where one is asked for: those whose keys or contents match a
    /// query, the best first, each with its key and score. `None` where the search fails.
    pub fn recall(&self, query: &str, limit: usize, session_id: Option<&str>) -> (r: Option<
        Vec<(String, StoredMemory, u64)>,
    >)
        ensures
            r matches Some(list) ==> recall_found(
                self.table@,
                chosen_keys(self.table@, self.table.keys(), None, opt_str(session_id)),
                query@,
                limit as int,
                list@,
            ),
            fts_of(query@) is None ==> r is Some,
    {
        let list = self.list(None, session_id);
        let ghost keys = chosen_keys(self.table@, self.table.keys(), None, opt_str(session_id));
        let ghost columns = recall_columns(self.table@, keys);
        proof {
            assert(keys.len() == list@.len());
            assert forall|i: int| 0 <= i < list@.len() implies keys[i] == (#[trigger] list@[i]).0@
                && list@[i].1 == self.table@[keys[i]] by {
                assert(Seq::new(list@.len(), |i: int| list@[i].0@)[i] == list@[i].0@);
            }
            assert(listed_columns(list@) =~= columns);
        }
        let rows = recall_rows(&list);
        match search(&rows, query, limit) {
            Some(hits) => {
                assert(found(columns, query@, limit as int, hits@));
                assert forall|i: int| 0 <= i < hits@.len() implies (#[trigger] hits@[i]).0
                    < list@.len() by {
                    assert(hits@[i].0 < columns.len());
                }
                let r = recall_hits(&list, &hits);
                assert forall|i: int| 0 <= i < r@.len() implies is_recalled(
                    #[trigger] r@[i],
                    self.table@,
                    keys[hits@[i].0 as int],
                    hits@[i].1,
                ) by {
                    assert(hits@[i].0 < list@.len());
                    assert(list@[hits@[i].0 as int].0@ == keys[hits@[i].0 as int]);
                }
                Some(r)
            },
            None => None,
        }
    }

    /// Forgets a memory. Tells whether the table held it.
    pub fn forget(&mut self, key: &str) -> (r: bool)
        ensures
            r == old(self).rows().contains_key(key@),
            final(self).rows() == old(self).rows().remove(key@),
            final(self).relay_url == old(self).relay_url,
            final(self).nsec == old(self).nsec,
            final(self).app_tag == old(self).app_tag,
            final(self).encrypted == old(self).encrypted,
    {
        let ghost before = self.rows();
        let held = self.table.remove(key).is_some();
        assert(self.rows() =~= before.remove(key@));
        held
    }

    /// The number of memories.
    pub fn count(&self) -> (r: usize)
        ensures
            r == self.rows().dom().len(),
    {
        assert(self.rows().dom() =~= self.table@.dom());
        self.table.len()
    }
}

/// Whether a memory is of the category and session that are asked for.
pub open spec fn chosen(
    m: StoredView,
    category: Option<CategoryView>,
    session: Option<Seq<char>>,
) -> bool {
    (category is None || category == Some(m.category)) && (session is None || m.session_id == session)
}

/// The keys of the memories that are asked for.
pub open spec fn chosen_keys(
    m: Map<Seq<char>, StoredMemory>,
    keys: Seq<Seq<char>>,
    category: Option<CategoryView>,
    session: Option<Seq<char>>,
) -> Seq<Seq<char>> {
    keys.filter(|k: Seq<char>| chosen(m[k]@, category, session))
}

/// The columns of the memories with the given keys that are searched.
pub open spec fn recall_columns(m: Map<Seq<char>, StoredMemory>, keys: Seq<Seq<char>>) -> Seq<
    Seq<Seq<char>>,
> {
    Seq::new(keys.len(), |i: int| seq![keys[i], m[keys[i]].content@, ""@, ""@])
}

/// The columns of listed memories that are searched.
pub open spec fn listed_columns(list: Seq<(String, StoredMemory)>) -> Seq<Seq<Seq<char>>> {
    Seq::new(list.len(), |i: int| seq![list[i].0@, list[i].1.content@, ""@, ""@])
}

/// Whether something recalled is the memory under a key, with a score.
pub open spec fn is_recalled(
    r: (String, StoredMemory, u64),
    m: Map<Seq<char>, StoredMemory>,
    key: Seq<char>,
    score: u64,
) -> bool {
    r.0@ == key && r.1 == m[key] && r.2 == score
}

/// Whether a list is what a query finds among the memories with the given keys.
pub open spec fn recall_found(
    m: Map<Seq<char>, StoredMemory>,
    keys: Seq<Seq<char>>,
    query: Seq<char>,
    limit: int,
    r: Seq<(String, StoredMemory, u64)>,
) -> bool {
    exists|hits: Seq<(usize, u64)>|
        {
            &&& #[trigger] found(recall_columns(m, keys), query, limit, hits)
            &&& r.len() == hits.len()
            &&& forall|i: int|
                0 <= i < r.len() ==> is_recalled(
                    #[trigger] r[i],
                    m,
                    keys[hits[i].0 as int],
                    hits[i].1,
                )
        }
}

/// The columns of listed memories, row by row, as they are searched.
pub fn recall_rows(list: &Vec<(String, StoredMemory)>) -> (r: Vec<Vec<String>>)
    ensures
        columns_of(r@) == listed_columns(list@),
        forall|i: int| 0 <= i < r@.len() ==> (#[trigger] r@[i])@.len() == 4,
{
    let mut rows: Vec<Vec<String>> = Vec::new();
    let mut i: usize = 0;
    while i < list.len()
        invariant
            i <= list@.len(),
            rows@.len() == i,
            forall|k: int| 0 <= k < i ==> (#[trigger] rows@[k])@.len() == 4,
            forall|k: int| 0 <= k < i ==> texts((#[trigger] rows@[k])@) == listed_columns(list@)[k],
        decreases list.len() - i,
    {
        rows.push(row_of(list[i].0.as_str(), list[i].1.content.as_str(), "", ""));
        i = i + 1;
    }
    assert(columns_of(rows@) =~= listed_columns(list@));
    rows
}

/// The listed memories at the positions of hits, each with its score.
pub fn recall_hits(list: &Vec<(String, StoredMemory)>, hits: &Vec<(usize, u64)>) -> (r: Vec<
    (String, StoredMemory, u64),
>)
    requires
        forall|i: int| 0 <= i < hits@.len() ==> (#[trigger] hits@[i]).0 < list@.len(),
    ensures
        r@.len() == hits@.len(),
        forall|i: int|
            0 <= i < r@.len() ==> (#[trigger] r@[i]).0@ == list@[hits@[i].0 as int].0@ && r@[i].1
                == list@[hits@[i].0 as int].1 && r@[i].2 == hits@[i].1,
{
    let mut r: Vec<(String, StoredMemory, u64)> = Vec::new();
    let mut j: usize = 0;
    while j < hits.len()
        invariant
            j <= hits@.len(),
            forall|i: int| 0 <= i < hits@.len() ==> (#[trigger] hits@[i]).0 < list@.len(),
            r@.len() == j,
            forall|i: int|
                0 <= i < j ==> (#[trigger] r@[i]).0@ == list@[hits@[i].0 as int].0@ && r@[i].1
                    == list@[hits@[i].0 as int].1 && r@[i].2 == hits@[i].1,
        decreases hits.len() - j,
    {
        assert(hits@[j as int].0 < list@.len());
        let at: usize = hits[j].0;
        r.push((list[at].0.clone(), list[at].1.clone(), hits[j].1));
        j = j + 1;
    }
    r
}

/// The position of the first answer.
pub open spec fn first_answer(fetched: Seq<Option<NostrEvent>>) -> Option<int>
    decreases fetched.len(),
{
    if fetched.len() == 0 {
        None
    } else {
        match first_answer(fetched.drop_last()) {
            Some(i) => Some(i),
            None => if fetched.last() is Some {
                Some(fetched.len() - 1)
            } else {
                None
            },
        }
    }
}

proof fn answer_at(fetched: Seq<Option<NostrEvent>>, i: int)
    requires
        0 <= i <= fetched.len(),
        forall|j: int| 0 <= j < i ==> (#[trigger] fetched[j]) is None,
        i < fetched.len() ==> fetched[i] is Some,
    ensures
        first_answer(fetched) == (if i < fetched.len() {
            Some(i)
        } else {
            None
        }),
    decreases fetched.len(),
{
    if fetched.len() > 0 {
        if i < fetched.len() {
            answer_at(
                fetched.drop_last(),
                i,
            );
        } else {
            answer_at(fetched.drop_last(), i - 1);
        }
    }
}

/// The category that an answer of the relay stands for.
pub open spec fn asked_category(i: int) -> CategoryView {
    if i == 0 {
        CategoryView::Core
    } else if i == 1 {
        CategoryView::Daily
    } else {
        CategoryView::Conversation
    }
}

/// A memory that was shared is read back under its key as it was stored, by the agent that shared
/// it, where its category is none of the user's own with a colon in its name.
pub proof fn shared_memory_reads_back(
    mem: &NostrSqliteMemory,
    d: DraftView,
    e: EventView,
    key: Seq<char>,
    content: Seq<char>,
    category: CategoryView,
    session: Option<Seq<char>>,
)
    requires
        mem.shares(),
        mem.shared_as(d, key, content, category, session),
        !super::traits::category_name(category).contains(':'),
        e.tags == d.tags,
        e.content == d.content,
        e.pubkey == secret_key_owner(mem.nsec->0@)->0,
    ensures
        row_from(mem.app_tag@, opt_text(mem.nsec), e) == Some(
            (
                key,
                StoredView {
                    content,
                    category: super::traits::category_of(super::traits::category_name(category)),
                    session_id: session,
                },
            ),
        ),
{
    let tags = memory_tags(mem.app_tag@, category, key, session);
    let addr = address(mem.app_tag@, category, key);
    super::d_tag::address_reads_back(mem.app_tag@, category, key);
    reveal_strlit("d");
    reveal_strlit("app");
    reveal_strlit("category");
    reveal_strlit("agent");
    reveal_strlit("session");
    reveal_strlit("encrypted");
    assert("d"@.len() == 1 && "app"@.len() == 3 && "category"@.len() == 8 && "agent"@.len() == 5
        && "session"@.len() == 7 && "encrypted"@.len() == 9);
    assert(e.tags[0] == seq!["d"@, addr]);
    assert(first_value(e.tags, "d"@) == Some(addr));
    skip_to(e.tags, "session"@, 4);
    let rest = e.tags.skip(4);
    assert(!is_sealed(tags)) by {
        assert forall|i: int| 0 <= i < tags.len() implies (#[trigger] tags[i])[0] != "encrypted"@ by {
        }
    }
    if e.tags.len() == tags.len() {
        assert(e.tags == tags);
        match session {
            Some(s) => {
                assert(rest[0] == seq!["session"@, s]);
            },
            None => {
                assert(rest.len() == 0);
            },
        }
    } else {
        assert(e.tags[tags.len() as int] == sealed_tag());
        assert(is_sealed(e.tags));
        match session {
            Some(s) => {
                assert(rest[0] == seq!["session"@, s]);
            },
            None => {
                assert(rest[0] == sealed_tag());
                assert(rest.skip(1).len() == 0);
                assert(first_value(rest.skip(1), "session"@) is None);
            },
        }
    }
}

proof fn skip_to(tags: Seq<Seq<Seq<char>>>, name: Seq<char>, n: int)
    requires
        0 <= n <= tags.len(),
        forall|i: int| 0 <= i < n ==> (#[trigger] tags[i]).len() > 0 && tags[i][0] != name,
    ensures
        first_value(tags, name) == first_value(tags.skip(n), name),
    decreases n,
{
    if n > 0 {
        assert(tags[0][0] != name);
        assert forall|i: int| 0 <= i < n - 1 implies (#[trigger] tags.skip(1)[i]).len() > 0
            && tags.skip(1)[i][0] != name by {
            assert(tags.skip(1)[i] == tags[i + 1]);
        }
        skip_to(tags.skip(1), name, n - 1);
        assert(tags.skip(1).skip(n - 1) =~= tags.skip(n));
    } else {
        assert(tags.skip(0) =~= tags);
    }
}

/// After events were taken in, each key holds the memory of the last event on it, or what it held
/// before.
pub proof fn last_event_on_a_key_counts(
    m: Map<Seq<char>, StoredView>,
    app: Seq<char>,
    secret: Option<Seq<char>>,
    events: Seq<NostrEvent>,
    i: int,
    key: Seq<char>,
    value: StoredView,
)
    ensures
        0 <= i < events.len() && row_from(app, secret, events[i]@) == Some((key, value)) && (forall|
            j: int,
        |
            i < j < events.len() ==> (row_from(app, secret, (#[trigger] events[j])@) matches Some(row)
                ==> row.0 != key)) ==> rows_synced(m, app, secret, events).contains_key(key)
            && rows_synced(m, app, secret, events)[key] == value,
        (forall|j: int|
            0 <= j < events.len() ==> (row_from(app, secret, (#[trigger] events[j])@) matches Some(row)
                ==> row.0 != key)) ==> rows_synced(m, app, secret, events).contains_key(key)
            == m.contains_key(key) && (m.contains_key(key) ==> rows_synced(m, app, secret, events)[key]
            == m[key]),
    decreases events.len(),
{
    if events.len() > 0 {
        let rest = events.drop_last();
        let n = events.len() - 1;
        last_event_on_a_key_counts(m, app, secret, rest, i, key, value);
        assert(events.last() == events[n]);
        assert forall|j: int| 0 <= j < n implies rest[j] == events[j] by {}
    }
}

/// The memory that an event stands for: under the key of its address, with its content opened where
/// it is sealed and opens.
pub proof fn rows_read_from_events(app: Seq<char>, secret: Option<Seq<char>>, e: EventView)
    ensures
        first_value(e.tags, "d"@) is None ==> row_from(app, secret, e) is None,
        first_value(e.tags, "d"@) matches Some(d) ==> (row_from(app, secret, e) is Some
            <==> address_parts(app, d) is Some),
        first_value(e.tags, "d"@) matches Some(d) ==> (address_parts(app, d) matches Some(parts) ==> {
            let row = row_from(app, secret, e)->0;
            &&& row.0 == parts.1
            &&& row.1.category == parts.0
            &&& row.1.session_id == first_value(e.tags, "session"@)
            &&& secret is None || !is_sealed(e.tags) ==> row.1.content == e.content
            &&& secret is Some && is_sealed(e.tags) ==> (unsealed(
                secret->0,
                e.pubkey,
                e.content,
            ) matches Some(plain) ==> row.1.content == plain)
            &&& secret is Some && is_sealed(e.tags) && unsealed(secret->0, e.pubkey, e.content) is None
                ==> row.1.content == e.content
        }),
{
}

/// The number of events that stand for a memory grows with each that does, and with no other.
pub proof fn held_rows_are_counted(
    app: Seq<char>,
    secret: Option<Seq<char>>,
    events: Seq<NostrEvent>,
    e: NostrEvent,
)
    ensures
        rows_held(app, secret, Seq::empty()) == 0,
        row_from(app, secret, e@) is Some ==> rows_held(app, secret, events.push(e)) == rows_held(
            app,
            secret,
            events,
        ) + 1,
        row_from(app, secret, e@) is None ==> rows_held(app, secret, events.push(e)) == rows_held(
            app,
            secret,
            events,
        ),
{
    reveal(Seq::filter);
    assert(events.push(e).drop_last() =~= events);
}

/// The keys that are listed are those whose memory is of the category and the session, where they are
/// asked for.
pub proof fn chosen_memories_fit(
    m: Map<Seq<char>, StoredMemory>,
    keys: Seq<Seq<char>>,
    category: Option<CategoryView>,
    session: Option<Seq<char>>,
    k: Seq<char>,
)
    ensures
        chosen_keys(m, keys, category, session).contains(k) <==> keys.contains(k) && (category is None
            || m[k]@.category == category->0) && (session is None || m[k]@.session_id == session),
{
    filter_holds(keys, |k: Seq<char>| chosen(m[k]@, category, session), k);
}

/// What is recalled is stored under its key and matches by key or content.
pub proof fn recalled_rows_match(
    m: Map<Seq<char>, StoredMemory>,
    keys: Seq<Seq<char>>,
    query: Seq<char>,
    limit: int,
    r: Seq<(String, StoredMemory, u64)>,
    i: int,
)
    requires
        recall_found(m, keys, query, limit, r),
        0 <= i < r.len(),
    ensures
        r.len() <= limit,
        fts_of(query) is Some,
        keys.contains(r[i].0@),
        r[i].1 == m[r[i].0@],
        fts_matches(seq![r[i].0@, r[i].1.content@, ""@, ""@], fts_of(query)->0),
{
    let hits = choose|hits: Seq<(usize, u64)>|
        {
            &&& #[trigger] found(recall_columns(m, keys), query, limit, hits)
            &&& r.len() == hits.len()
            &&& forall|i: int|
                0 <= i < r.len() ==> is_recalled(
                    #[trigger] r[i],
                    m,
                    keys[hits[i].0 as int],
                    hits[i].1,
                )
        };
    let k = hits[i].0 as int;
    assert(is_recalled(r[i], m, keys[k], hits[i].1));
    assert(keys[k] == r[i].0@);
    assert(recall_columns(m, keys)[k] =~= seq![r[i].0@, r[i].1.content@, ""@, ""@]);
}

/// A memory that is not at hand is asked for as a core, a daily and a conversation memory, in this
/// order, and the first answer counts.
pub proof fn first_answer_counts(fetched: Seq<Option<NostrEvent>>, i: int)
    requires
        0 <= i <= fetched.len(),
        forall|j: int| 0 <= j < i ==> (#[trigger] fetched[j]) is None,
    ensures
        i < fetched.len() && fetched[i] is Some ==> first_answer(fetched) == Some(i),
        i == fetched.len() ==> first_answer(fetched) is None,
        asked_category(0) is Core,
        asked_category(1) is Daily,
        asked_category(2) is Conversation,
{
    if i == fetched.len() || fetched[i] is Some {
        answer_at(fetched, i);
    }
}

/// A memory is shared in the open only where nobody asked to seal it or it cannot be sealed; a sealed
/// one says so in its last tag, and the agent's own key reads it back.
pub proof fn sealed_where_asked(
    m: NostrSqliteMemory,
    d: DraftView,
    key: Seq<char>,
    content: Seq<char>,
    category: CategoryView,
    session: Option<Seq<char>>,
)
    requires
        m.shared_as(d, key, content, category, session),
    ensures
        d.kind == 30078,
        m.encrypted && fits_seal(content) ==> d.tags.len() > 0 && d.tags.last() == seq![
            "encrypted"@,
            "nip44"@,
        ] && d.tags.drop_last() == memory_tags(m.app_tag@, category, key, session) && unsealed(
            m.nsec->0@,
            secret_key_owner(m.nsec->0@)->0,
            d.content,
        ) == Some(content),
        !m.encrypted || !fits_seal(content) ==> d.content == content && d.tags == memory_tags(
            m.app_tag@,
            category,
            key,
            session,
        ),
{
    let tags = memory_tags(m.app_tag@, category, key, session);
    if m.encrypted && fits_seal(content) {
        assert(d.tags == tags.push(sealed_tag()));
        assert(d.tags.drop_last() =~= tags);
    }
}

/// A recalled memory is searched by its key and its content, in this order, and by nothing else.
pub proof fn keys_and_contents_are_searched(list: Seq<(String, StoredMemory)>, i: int)
    requires
        0 <= i < list.len(),
    ensures
        listed_columns(list).len() == list.len(),
        listed_columns(list)[i].len() == 4,
        listed_columns(list)[i][0] == list[i].0@,
        listed_columns(list)[i][1] == list[i].1.content@,
        listed_columns(list)[i][2].len() == 0,
        listed_columns(list)[i][3].len() == 0,
{
    reveal_strlit("");
}

} // verus!
