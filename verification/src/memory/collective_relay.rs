//! How the memories of the collective are shared over relays.

use super::collective::{
    others_stay_when_stored, upserted, CollectiveMemory, SnowMemory, SnowView,
};
use super::traits::MemoryTier;
use crate::channels::event::{
    has_pair, has_tag_pair, pair_tag, tag_texts, DraftView, EventDraft, NostrEvent,
};
use crate::json::{
    distinct_fields, field_texts, json_array, json_field, json_object, list_texts, opt_texts,
    read_array, read_field, write_object,
};
use crate::keys::{fits_seal, key_of_secret, seal, secret_key_owner, unseal, unsealed};
use crate::order::filter_map_holds;
use crate::text::str_eq;
use crate::text::{opt_str, opt_text, texts};
use vstd::prelude::*;

verus! {

// ---------------------------------------------------------------------------
// Publishing
// ---------------------------------------------------------------------------

/// Pairs as tags of two fields.
pub open spec fn pairs_as_tags(pairs: Seq<(Seq<char>, Seq<char>)>) -> Seq<Seq<Seq<char>>> {
    Seq::new(pairs.len(), |i: int| seq![pairs[i].0, pairs[i].1])
}

/// The mark of sealed content.
pub open spec fn sealed_tag() -> Seq<Seq<char>> {
    seq!["encrypted"@, "nip44"@]
}

/// The event that shares a memory whose tags and content are given: sealed content carries a mark.
pub open spec fn memory_event(
    tags: Seq<(Seq<char>, Seq<char>)>,
    content: Seq<char>,
    sealed: Option<Seq<char>>,
) -> DraftView {
    match sealed {
        Some(payload) => DraftView {
            kind: 30078,
            tags: pairs_as_tags(tags).push(sealed_tag()),
            content: payload,
        },
        None => DraftView { kind: 30078, tags: pairs_as_tags(tags), content },
    }
}

/// The event that shares a memory whose tags and content are given, with its sealed content if it
/// was sealed.
pub fn memory_to_event_builder(
    tags: &Vec<(String, String)>,
    content: &str,
    sealed: Option<&str>,
) -> (r: EventDraft)
    ensures
        r@ == memory_event(
            field_texts(tags@),
            content@,
            opt_str(sealed),
        ),
{
    let ghost all = pairs_as_tags(field_texts(tags@));
    let mut list: Vec<Vec<String>> = Vec::new();
    let mut i: usize = 0;
    assert(tag_texts(list@) =~= all.take(0));
    while i < tags.len()
        invariant
            i <= tags@.len(),
            all == pairs_as_tags(field_texts(tags@)),
            tag_texts(list@) == all.take(i as int),
        decreases tags.len() - i,
    {
        let ghost before = list@;
        let tag = pair_tag(tags[i].0.as_str(), tags[i].1.as_str());
        list.push(tag);
        proof {
            assert(tag_texts(list@) =~= tag_texts(before).push(texts(tag@)));
            assert(all.take(i + 1) =~= all.take(i as int).push(all[i as int]));
        }
        i = i + 1;
    }
    assert(all.take(i as int) =~= all);
    match sealed {
        Some(payload) => {
            let ghost before = list@;
            let tag = pair_tag("encrypted", "nip44");
            list.push(tag);
            assert(tag_texts(list@) =~= tag_texts(before).push(texts(tag@)));
            EventDraft { kind: 30078, tags: list, content: payload.to_owned() }
        },
        None => EventDraft { kind: 30078, tags: list, content: content.to_owned() },
    }
}

/// Whether an event says that its content is sealed.
pub open spec fn is_sealed(tags: Seq<Seq<Seq<char>>>) -> bool {
    has_pair(tags, "encrypted"@, "nip44"@)
}

/// Whether an event says that its content is sealed.
pub fn is_nip44_encrypted(event: &NostrEvent) -> (r: bool)
    ensures
        r == is_sealed(event@.tags),
{
    has_tag_pair(&event.tags, "encrypted", "nip44")
}

/// The content of an event as a reader with a secret key sees it; none where it is sealed and does
/// not open.
pub open spec fn open_content(
    tags: Seq<Seq<Seq<char>>>,
    content: Seq<char>,
    secret: Seq<char>,
    author: Seq<char>,
) -> Option<Seq<char>> {
    if is_sealed(tags) {
        unsealed(secret, author, content)
    } else {
        Some(content)
    }
}

impl CollectiveMemory {
    /// The event that shares a memory whose tags and content are given; none where nothing is
    /// shared. The content of a private memory is sealed to the agent itself; one that cannot be
    /// sealed is shared as it is. What the agent reads back from the event is the content that was given.
    pub fn publish_to_relay(
        &self,
        tier: &MemoryTier,
        tags: &Vec<(String, String)>,
        content: &str,
    ) -> (r: Option<EventDraft>)
        ensures
            r is Some == (self.relay_secret is Some && secret_key_owner(self.relay_secret->0@)
                is Some),
            r is Some ==> {
                let secret = self.relay_secret->0@;
                let own = secret_key_owner(secret)->0;
                let pairs = field_texts(tags@);
                let d = r->0@;
                &&& !(tier@ is Private && fits_seal(content@)) ==> d == memory_event(
                    pairs,
                    content@,
                    None,
                )
                &&& tier@ is Private && fits_seal(content@) ==> {
                    &&& d == memory_event(pairs, content@, Some(d.content))
                    &&& unsealed(secret, own, d.content) == Some(content@)
                }
                &&& !is_sealed(pairs_as_tags(pairs)) ==> open_content(
                    d.tags,
                    d.content,
                    secret,
                    own,
                ) == Some(content@)
            },
    {
        let secret = match &self.relay_secret {
            Some(s) => s,
            None => return None,
        };
        let own = match key_of_secret(secret.as_str()) {
            Some(k) => k,
            None => return None,
        };
        let sealed = match tier {
            MemoryTier::Private(_) => seal(secret.as_str(), own.as_str(), content),
            _ => None,
        };
        match sealed {
            Some(payload) => {
                let r = memory_to_event_builder(tags, content, Some(payload.as_str()));
                proof {
                    let last = r@.tags[r@.tags.len() - 1];
                    assert(last == sealed_tag());
                    assert(is_sealed(r@.tags));
                }
                Some(r)
            },
            None => Some(memory_to_event_builder(tags, content, None)),
        }
    }
}

// ---------------------------------------------------------------------------
// Reading back
// ---------------------------------------------------------------------------

/// An event that may hold a memory.
#[derive(Debug)]
pub struct MemoryEvent {
    pub id: String,
    pub kind: u64,
    pub pubkey: String,
    pub created_at: u64,
    pub tags: Vec<(String, String)>,
    pub content: String,
}

/// The first two fields of each tag that has them.
pub open spec fn tags_as_pairs(tags: Seq<Seq<Seq<char>>>) -> Seq<(Seq<char>, Seq<char>)> {
    tags.filter_map(
        |t: Seq<Seq<char>>|
            if t.len() >= 2 {
                Some((t[0], t[1]))
            } else {
                None
            },
    )
}

/// The event that may hold a memory.
pub fn nostr_event_to_memory_event(event: &NostrEvent) -> (r: MemoryEvent)
    ensures
        r.id@ == event@.id,
        r.kind == event@.kind,
        r.pubkey@ == event@.pubkey,
        r.created_at == event@.created_at,
        field_texts(r.tags@) == tags_as_pairs(event@.tags),
        r.content@ == event@.content,
{
    let ghost all = event@.tags;
    let ghost f = |t: Seq<Seq<char>>|
        if t.len() >= 2 {
            Some((t[0], t[1]))
        } else {
            None
        };
    let mut tags: Vec<(String, String)> = Vec::new();
    let mut i: usize = 0;
    assert(field_texts(tags@) =~= tags_as_pairs(all.take(0)));
    while i < event.tags.len()
        invariant
            i <= event.tags@.len(),
            all == tag_texts(event.tags@),
            f == (|t: Seq<Seq<char>>|
                if t.len() >= 2 {
                    Some((t[0], t[1]))
                } else {
                    None
                }),
            field_texts(tags@) == tags_as_pairs(all.take(i as int)),
        decreases event.tags.len() - i,
    {
        proof {
            all.lemma_filter_map_take_succ(f, i as int);
            assert(all[i as int] == texts(event.tags@[i as int]@));
        }
        if event.tags[i].len() >= 2 {
            let ghost before = tags@;
            let pair = (event.tags[i][0].clone(), event.tags[i][1].clone());
            tags.push(pair);
            assert(field_texts(tags@) =~= field_texts(before).push((pair.0@, pair.1@)));
        }
        assert(field_texts(tags@) =~= tags_as_pairs(all.take(i + 1)));
        i = i + 1;
    }
    assert(all.take(i as int) =~= all);
    MemoryEvent {
        id: event.id.clone(),
        kind: event.kind as u64,
        pubkey: event.pubkey.clone(),
        created_at: event.created_at,
        tags,
        content: event.content.clone(),
    }
}

/// The event as the agent reads it, with its content opened; none where it does not open.
pub fn open_event(event: &NostrEvent, secret: &str) -> (r: Option<MemoryEvent>)
    ensures
        match r {
            Some(e) => {
                &&& open_content(event@.tags, event@.content, secret@, event@.pubkey) == Some(
                    e.content@,
                )
                &&& e.id@ == event@.id
                &&& e.kind == event@.kind
                &&& e.pubkey@ == event@.pubkey
                &&& e.created_at == event@.created_at
                &&& field_texts(e.tags@) == tags_as_pairs(event@.tags)
            },
            None => open_content(event@.tags, event@.content, secret@, event@.pubkey) is None,
        },
{
    let mut e = nostr_event_to_memory_event(event);
    if is_nip44_encrypted(event) {
        match unseal(secret, event.pubkey.as_str(), e.content.as_str()) {
            Some(plain) => {
                e.content = plain;
                Some(e)
            },
            None => None,
        }
    } else {
        Some(e)
    }
}

/// A memory read from an event, if it held one, with the time of the event.
pub struct SyncedEvent {
    pub memory: Option<SnowMemory>,
    pub created_at: u64,
}

/// The index and the latest time after events were taken in in turn.
pub open spec fn synced(
    rows: Seq<SnowView>,
    latest: u64,
    events: Seq<SyncedEvent>,
) -> (Seq<SnowView>, u64)
    decreases events.len(),
{
    if events.len() == 0 {
        (rows, latest)
    } else {
        let before = synced(rows, latest, events.drop_last());
        match events.last().memory {
            Some(m) => (
                upserted(before.0, m@),
                if events.last().created_at > before.1 {
                    events.last().created_at
                } else {
                    before.1
                },
            ),
            None => before,
        }
    }
}

/// The number of events that held a memory.
pub open spec fn held(events: Seq<SyncedEvent>) -> nat {
    events.filter(|e: SyncedEvent| e.memory is Some).len()
}

/// What a backend that shares nothing answers to a sync.
pub fn sync_disabled() -> (r: &'static str)
    ensures
        r@ == "relay sync not configured (no keys or relay URLs)"@,
{
    "relay sync not configured (no keys or relay URLs)"
}

/// What is asked of the relays: the memories of an author, from a time on where one is given.
#[derive(Debug)]
pub struct SyncQuery {
    pub author: String,
    pub kind: u16,
    pub since: Option<u64>,
}

/// Whether an index can be filled from behind: not one that lives in the memory of one connection.
pub fn syncs_in_background(db_path: &str) -> (r: bool)
    ensures
        r == (db_path@ != ":memory:"@),
{
    !str_eq(db_path, ":memory:")
}

impl CollectiveMemory {
    /// What is asked of the relays: the agent's own memories since the latest that was taken in.
    /// Nothing where nothing is shared.
    pub fn sync_query(&self) -> (r: Option<SyncQuery>)
        ensures
            r is Some == (self.relay_secret is Some && secret_key_owner(self.relay_secret->0@)
                is Some),
            r matches Some(q) ==> {
                &&& secret_key_owner(self.relay_secret->0@) == Some(q.author@)
                &&& q.kind == 30078
                &&& q.since == self.last_sync
            },
    {
        match &self.relay_secret {
            Some(secret) => match key_of_secret(secret.as_str()) {
                Some(author) => Some(SyncQuery { author, kind: 30078, since: self.last_sync }),
                None => None,
            },
            None => None,
        }
    }

    /// Takes in the memories that events from the relays hold, and notes the time of the latest.
    /// Gives the number of memories, or nothing where nothing is shared.
    pub fn sync_from_relay(&mut self, events: &Vec<SyncedEvent>) -> (r: Option<usize>)
        ensures
            r is Some == (old(self).relay_secret is Some),
            r is None ==> final(self).index == old(self).index && final(self).last_sync == old(
                self,
            ).last_sync,
            r is Some ==> {
                let last = match old(self).last_sync {
                    Some(t) => t,
                    None => 0,
                };
                let after = synced(old(self).index@, last, events@);
                &&& r->0 == held(events@)
                &&& final(self).index@ == after.0
                &&& final(self).last_sync == (if held(events@) > 0 {
                    Some(after.1)
                } else {
                    old(self).last_sync
                })
            },
            old(self).index.well_formed() ==> final(self).index.well_formed(),
            final(self).config == old(self).config,
            final(self).relay_secret == old(self).relay_secret,
    {
        if self.relay_secret.is_none() {
            return None;
        }
        let ghost start = self.index@;
        let ghost keep = |e: SyncedEvent| e.memory is Some;
        let first: u64 = match self.last_sync {
            Some(t) => t,
            None => 0,
        };
        let mut latest: u64 = first;
        let n: usize = events.len();
        let mut count: usize = 0;
        let mut i: usize = 0;
        proof {
            reveal(Seq::filter);
            assert(events@.take(0).filter(keep).len() == 0);
        }
        while i < n
            invariant
                i <= n,
                n == events@.len(),
                count <= i,
                keep == (|e: SyncedEvent| e.memory is Some),
                count == held(events@.take(i as int)),
                (self.index@, latest) == synced(start, first, events@.take(i as int)),
                old(self).index.well_formed() ==> self.index.well_formed(),
                self.config == old(self).config,
                self.relay_secret == old(self).relay_secret,
                self.last_sync == old(self).last_sync,
            decreases n - i,
        {
            proof {
                reveal(Seq::filter);
                assert(events@.take(i + 1).drop_last() =~= events@.take(i as int));
                assert(events@.take(i + 1).last() == events@[i as int]);
            }
            if let Some(m) = &events[i].memory {
                self.index.upsert(m.clone());
                count = count + 1;
                if events[i].created_at > latest {
                    latest = events[i].created_at;
                }
            }
            i = i + 1;
        }
        assert(events@.take(n as int) =~= events@);
        if count > 0 {
            self.last_sync = Some(latest);
        }
        Some(count)
    }

    /// Forgets up to when the relays have been read, and takes in all that they hold.
    pub fn full_resync(&mut self, events: &Vec<SyncedEvent>) -> (r: Option<usize>)
        ensures
            r is Some == (old(self).relay_secret is Some),
            r is None ==> final(self).index == old(self).index && final(self).last_sync == Some(
                0u64,
            ),
            r is Some ==> {
                let after = synced(old(self).index@, 0, events@);
                &&& r->0 == held(events@)
                &&& final(self).index@ == after.0
                &&& final(self).last_sync == (if held(events@) > 0 {
                    Some(after.1)
                } else {
                    Some(0u64)
                })
            },
            old(self).index.well_formed() ==> final(self).index.well_formed(),
            final(self).config == old(self).config,
            final(self).relay_secret == old(self).relay_secret,
    {
        self.last_sync = Some(0);
        self.sync_from_relay(events)
    }
}

/// The noted time never goes back.
pub proof fn sync_time_never_goes_back(rows: Seq<SnowView>, latest: u64, events: Seq<SyncedEvent>)
    ensures
        synced(rows, latest, events).1 >= latest,
    decreases events.len(),
{
    if events.len() > 0 {
        sync_time_never_goes_back(rows, latest, events.drop_last());
    }
}

// ---------------------------------------------------------------------------
// Agent profiles
// ---------------------------------------------------------------------------

/// What an agent says of itself.
#[derive(Debug)]
pub struct AgentProfile {
    pub name: String,
    pub about: String,
    pub model: String,
    pub version: String,
    pub capabilities: Vec<String>,
    pub operator_npub: Option<String>,
}

/// What an `AgentProfile` says.
pub struct AgentView {
    pub name: Seq<char>,
    pub about: Seq<char>,
    pub model: Seq<char>,
    pub version: Seq<char>,
    pub capabilities: Seq<Seq<char>>,
    pub operator_npub: Option<Seq<char>>,
}

impl View for AgentProfile {
    type V = AgentView;

    open spec fn view(&self) -> AgentView {
        AgentView {
            name: self.name@,
            about: self.about@,
            model: self.model@,
            version: self.version@,
            capabilities: texts(self.capabilities@),
            operator_npub: opt_text(self.operator_npub),
        }
    }
}

/// The texts of a profile event.
pub open spec fn profile_fields(p: AgentView) -> Seq<(Seq<char>, Seq<char>)> {
    let base = seq![
        ("name"@, p.name),
        ("about"@, p.about),
        ("snow:model"@, p.model),
        ("snow:version"@, p.version),
    ];
    match p.operator_npub {
        Some(o) => base.push(("snow:operator"@, o)),
        None => base,
    }
}

/// The JSON text of a profile.
pub open spec fn profile_json(p: AgentView) -> Seq<char> {
    json_object(profile_fields(p), seq![("snow:capabilities"@, p.capabilities)])
}

/// The text under a key, empty where there is none.
pub open spec fn text_under(json: Seq<char>, key: Seq<char>) -> Seq<char> {
    match json_field(json, key) {
        Some(Some(t)) => t,
        _ => Seq::empty(),
    }
}

/// The texts of a list that may hold other things.
pub open spec fn only_texts(list: Seq<Option<Seq<char>>>) -> Seq<Seq<char>> {
    list.filter_map(|t: Option<Seq<char>>| t)
}

/// The profile that a JSON text stands for.
pub open spec fn profile_of(json: Seq<char>) -> AgentView {
    AgentView {
        name: text_under(json, "name"@),
        about: text_under(json, "about"@),
        model: text_under(json, "snow:model"@),
        version: text_under(json, "snow:version"@),
        capabilities: match json_array(json, "snow:capabilities"@) {
            Some(list) => only_texts(list),
            None => Seq::empty(),
        },
        operator_npub: match json_field(json, "snow:operator"@) {
            Some(o) => o,
            None => None,
        },
    }
}

fn text_at(json: &str, key: &str) -> (r: String)
    ensures
        r@ == text_under(json@, key@),
{
    match read_field(json, key) {
        Some(Some(t)) => t,
        _ => String::new(),
    }
}

proof fn texts_only(list: Seq<Seq<char>>)
    ensures
        only_texts(list.map_values(|t: Seq<char>| Some(t))) == list,
    decreases list.len(),
{
    let all = list.map_values(|t: Seq<char>| Some(t));
    if list.len() > 0 {
        texts_only(list.drop_last());
        assert(all.drop_last() =~= list.drop_last().map_values(|t: Seq<char>| Some(t)));
        assert(all.last() == Some(list.last()));
        assert(only_texts(all) =~= only_texts(all.drop_last()).push(list.last()));
        assert(list =~= list.drop_last().push(list.last()));
    }
}

proof fn profile_keys_differ(p: AgentView)
    ensures
        distinct_fields(profile_fields(p), seq![("snow:capabilities"@, p.capabilities)]),
        p.operator_npub is None ==> forall|i: int|
            0 <= i < profile_fields(p).len() ==> (#[trigger] profile_fields(p)[i]).0
                != "snow:operator"@,
        "snow:operator"@ != "snow:capabilities"@,
{
    let f = profile_fields(p);
    reveal_strlit("name");
    reveal_strlit("about");
    reveal_strlit("snow:model");
    reveal_strlit("snow:version");
    reveal_strlit("snow:operator");
    reveal_strlit("snow:capabilities");
    assert("snow:operator"@.len() == 13 && "snow:capabilities"@.len() == 17);
    assert forall|i: int| 0 <= i < f.len() implies (#[trigger] f[i]).0.len() == (if i == 0 {
        4int
    } else if i == 1 {
        5
    } else if i == 2 {
        10
    } else if i == 3 {
        12
    } else {
        13
    }) by {
    }
}

/// The event that publishes a profile. Reading its content gives the profile back.
pub fn agent_profile_draft(profile: &AgentProfile) -> (r: EventDraft)
    ensures
        r@ == (DraftView { kind: 0, tags: Seq::empty(), content: profile_json(profile@) }),
        profile_of(r@.content) == profile@,
{
    let mut fields: Vec<(String, String)> = Vec::new();
    fields.push(("name".to_owned(), profile.name.clone()));
    fields.push(("about".to_owned(), profile.about.clone()));
    fields.push(("snow:model".to_owned(), profile.model.clone()));
    fields.push(("snow:version".to_owned(), profile.version.clone()));
    if let Some(o) = &profile.operator_npub {
        fields.push(("snow:operator".to_owned(), o.clone()));
    }
    let mut lists: Vec<(String, Vec<String>)> = Vec::new();
    lists.push(("snow:capabilities".to_owned(), profile.capabilities.clone()));
    proof {
        assert(field_texts(fields@) =~= profile_fields(profile@));
        assert(list_texts(lists@) =~= seq![("snow:capabilities"@, profile@.capabilities)]);
        profile_keys_differ(profile@);
    }
    let content = write_object(&fields, &lists);
    proof {
        assert(fields@[0].0@ == "name"@ && fields@[1].0@ == "about"@ && fields@[2].0@
            == "snow:model"@ && fields@[3].0@ == "snow:version"@);
        assert(lists@[0].0@ == "snow:capabilities"@);
        texts_only(profile@.capabilities);
        if profile.operator_npub is Some {
            assert(fields@[4].0@ == "snow:operator"@);
        } else {
            assert forall|i: int| 0 <= i < fields@.len() implies (#[trigger] fields@[i]).0@
                != "snow:operator"@ by {
                assert(field_texts(fields@)[i].0 == fields@[i].0@);
            }
            assert(json_field(content@, "snow:operator"@) == Some(None::<Seq<char>>));
        }
    }
    let r = EventDraft { kind: 0, tags: Vec::new(), content };
    assert(r@.tags =~= Seq::<Seq<Seq<char>>>::empty());
    r
}

/// The profile that the content of a profile event stands for; none where it is no JSON.
pub fn read_agent_profile(content: &str) -> (r: Option<AgentProfile>)
    ensures
        match r {
            Some(p) => json_field(content@, "name"@) is Some && p@ == profile_of(content@),
            None => json_field(content@, "name"@) is None,
        },
{
    let name = match read_field(content, "name") {
        Some(Some(t)) => t,
        Some(None) => String::new(),
        None => return None,
    };
    let mut capabilities: Vec<String> = Vec::new();
    if let Some(list) = read_array(content, "snow:capabilities") {
        let ghost all = opt_texts(list@);
        let ghost f = |t: Option<Seq<char>>| t;
        let mut i: usize = 0;
        assert(texts(capabilities@) =~= only_texts(all.take(0)));
        while i < list.len()
            invariant
                i <= list@.len(),
                all == opt_texts(list@),
                f == (|t: Option<Seq<char>>| t),
                texts(capabilities@) == only_texts(all.take(i as int)),
            decreases list.len() - i,
        {
            proof {
                all.lemma_filter_map_take_succ(f, i as int);
            }
            if let Some(t) = &list[i] {
                let ghost before = capabilities@;
                capabilities.push(t.clone());
                assert(texts(capabilities@) =~= texts(before).push(t@));
            }
            assert(texts(capabilities@) =~= only_texts(all.take(i + 1)));
            i = i + 1;
        }
        assert(all.take(i as int) =~= all);
    } else {
        assert(texts(capabilities@) =~= Seq::<Seq<char>>::empty());
    }
    Some(
        AgentProfile {
            name,
            about: text_at(content, "about"),
            model: text_at(content, "snow:model"),
            version: text_at(content, "snow:version"),
            capabilities,
            operator_npub: match read_field(content, "snow:operator") {
                Some(o) => o,
                None => None,
            },
        },
    )
}

/// The tags of a memory are those of its event, in their order; sealed content carries a mark behind
/// them, and content that is not sealed none.
pub proof fn events_carry_their_tags(
    tags: Seq<(Seq<char>, Seq<char>)>,
    content: Seq<char>,
    payload: Seq<char>,
)
    ensures
        ({
            let plain = memory_event(tags, content, None);
            let sealed = memory_event(tags, content, Some(payload));
            &&& tags_as_pairs(plain.tags) == tags
            &&& tags_as_pairs(sealed.tags) == tags.push(("encrypted"@, "nip44"@))
            &&& plain.content == content
            &&& sealed.content == payload
            &&& plain.kind == 30078 && sealed.kind == 30078
            &&& is_sealed(sealed.tags)
            &&& !tags.contains(("encrypted"@, "nip44"@)) ==> !is_sealed(plain.tags)
        }),
{
    pairs_read_back(tags);
    let all = pairs_as_tags(tags);
    let sealed = all.push(sealed_tag());
    let f = |t: Seq<Seq<char>>|
        if t.len() >= 2 {
            Some((t[0], t[1]))
        } else {
            None
        };
    sealed.lemma_filter_map_take_succ(f, all.len() as int);
    assert(sealed.take(all.len() as int) =~= all);
    assert(sealed.take(sealed.len() as int) =~= sealed);
    assert(tags_as_pairs(sealed) =~= tags.push(("encrypted"@, "nip44"@)));
    assert(sealed[all.len() as int] == sealed_tag());
    if is_sealed(all) {
        let i = choose|i: int|
            0 <= i < all.len() && (#[trigger] all[i]).len() >= 2 && all[i][0] == "encrypted"@
                && all[i][1] == "nip44"@;
        assert(all[i] == seq![tags[i].0, tags[i].1]);
        assert(tags[i] == ("encrypted"@, "nip44"@));
    }
}

proof fn pairs_read_back(tags: Seq<(Seq<char>, Seq<char>)>)
    ensures
        tags_as_pairs(pairs_as_tags(tags)) == tags,
    decreases tags.len(),
{
    let all = pairs_as_tags(tags);
    let f = |t: Seq<Seq<char>>|
        if t.len() >= 2 {
            Some((t[0], t[1]))
        } else {
            None
        };
    if tags.len() > 0 {
        let n = tags.len() - 1;
        pairs_read_back(tags.drop_last());
        assert(all.take(n) =~= pairs_as_tags(tags.drop_last()));
        all.lemma_filter_map_take_succ(f, n);
        assert(all.take(n + 1) =~= all);
        assert(tags.drop_last().push(tags.last()) =~= tags);
    } else {
        assert(all =~= Seq::empty());
        assert(tags_as_pairs(all) =~= tags);
    }
}

/// Content that is not sealed reads as it stands; sealed content as what it holds.
pub proof fn content_opens(
    tags: Seq<Seq<Seq<char>>>,
    content: Seq<char>,
    secret: Seq<char>,
    author: Seq<char>,
)
    ensures
        !has_pair(tags, "encrypted"@, "nip44"@) ==> open_content(tags, content, secret, author)
            == Some(content),
        has_pair(tags, "encrypted"@, "nip44"@) ==> open_content(tags, content, secret, author)
            == unsealed(secret, author, content),
{
}

/// After events were taken in, the memory of each of them is in the index, unless a later one took
/// its place; a memory that was there before stays, unless one took its place; and nothing else is
/// there.
pub proof fn synced_memories_are_kept(
    rows: Seq<SnowView>,
    latest: u64,
    events: Seq<SyncedEvent>,
    m: SnowView,
)
    ensures
        synced(rows, latest, events).0.contains(m) <==> (rows.contains(m) && forall|j: int|
            0 <= j < events.len() && (#[trigger] events[j]).memory is Some ==> events[j].memory->0@.id
                != m.id) || exists|i: int|
            0 <= i < events.len() && (#[trigger] events[i]).memory is Some && events[i].memory->0@ == m
                && forall|j: int|
                i < j < events.len() && (#[trigger] events[j]).memory is Some
                    ==> events[j].memory->0@.id != m.id,
    decreases events.len(),
{
    if events.len() > 0 {
        let rest = events.drop_last();
        let n = events.len() - 1;
        synced_memories_are_kept(rows, latest, rest, m);
        let before = synced(rows, latest, rest).0;
        let after = synced(rows, latest, events).0;
        assert forall|j: int| 0 <= j < n implies rest[j] == events[j] by {}
        if events[n].memory is Some {
            let new = events[n].memory->0@;
            others_stay_when_stored(before, new);
            assert(after == upserted(before, new));
            if new == m {
                assert(after.contains(m));
                assert(events[n].memory->0@ == m);
            } else if new.id == m.id {
                assert(!after.contains(m));
                assert(events[n].memory->0@.id == m.id);
            } else {
                assert(after.contains(m) <==> before.contains(m));
                kept_as_before(rows, events, m);
            }
        } else {
            assert(after == before);
            kept_as_before(rows, events, m);
        }
    }
}

spec fn kept_by(rows: Seq<SnowView>, events: Seq<SyncedEvent>, m: SnowView) -> bool {
    (rows.contains(m) && forall|j: int|
        0 <= j < events.len() && (#[trigger] events[j]).memory is Some ==> events[j].memory->0@.id
            != m.id) || exists|i: int|
        0 <= i < events.len() && (#[trigger] events[i]).memory is Some && events[i].memory->0@ == m
            && forall|j: int|
            i < j < events.len() && (#[trigger] events[j]).memory is Some ==> events[j].memory->0@.id
                != m.id
}

proof fn kept_as_before(rows: Seq<SnowView>, events: Seq<SyncedEvent>, m: SnowView)
    requires
        events.len() > 0,
        events.last().memory matches Some(new) ==> new@.id != m.id,
    ensures
        kept_by(rows, events, m) <==> kept_by(rows, events.drop_last(), m),
{
    let rest = events.drop_last();
    let n = events.len() - 1;
    assert(events[n] == events.last());
    assert forall|j: int| 0 <= j < n implies rest[j] == events[j] by {}
    if kept_by(rows, rest, m) {
        if rows.contains(m) && forall|j: int|
            0 <= j < rest.len() && (#[trigger] rest[j]).memory is Some ==> rest[j].memory->0@.id
                != m.id {
            assert forall|j: int| 0 <= j < events.len() && (#[trigger] events[j]).memory is Some
                implies events[j].memory->0@.id != m.id by {
                if j < n {
                    assert(rest[j].memory is Some);
                }
            }
        } else {
            let i = choose|i: int|
                0 <= i < rest.len() && (#[trigger] rest[i]).memory is Some && rest[i].memory->0@ == m
                    && forall|j: int|
                    i < j < rest.len() && (#[trigger] rest[j]).memory is Some ==> rest[j].memory->0@.id
                        != m.id;
            assert(events[i].memory is Some);
            assert forall|j: int| i < j < events.len() && (#[trigger] events[j]).memory is Some
                implies events[j].memory->0@.id != m.id by {
                if j < n {
                    assert(rest[j].memory is Some);
                }
            }
        }
    }
    if kept_by(rows, events, m) {
        if rows.contains(m) && forall|j: int|
            0 <= j < events.len() && (#[trigger] events[j]).memory is Some ==> events[j].memory->0@.id
                != m.id {
            assert forall|j: int| 0 <= j < rest.len() && (#[trigger] rest[j]).memory is Some implies
                rest[j].memory->0@.id != m.id by {
                assert(events[j].memory is Some);
            }
        } else {
            let i = choose|i: int|
                0 <= i < events.len() && (#[trigger] events[i]).memory is Some
                    && events[i].memory->0@ == m && forall|j: int|
                    i < j < events.len() && (#[trigger] events[j]).memory is Some
                        ==> events[j].memory->0@.id != m.id;
            assert(i < n);
            assert(rest[i].memory is Some);
            assert forall|j: int| i < j < rest.len() && (#[trigger] rest[j]).memory is Some implies
                rest[j].memory->0@.id != m.id by {
                assert(events[j].memory is Some);
            }
        }
    }
}

/// The noted time is the latest of the events that held a memory and the time that was noted before.
pub proof fn latest_event_is_noted(rows: Seq<SnowView>, latest: u64, events: Seq<SyncedEvent>)
    ensures
        ({
            let t = synced(rows, latest, events).1;
            &&& forall|i: int|
                0 <= i < events.len() && (#[trigger] events[i]).memory is Some ==> events[i].created_at
                    <= t
            &&& t == latest || exists|i: int|
                0 <= i < events.len() && (#[trigger] events[i]).memory is Some && events[i].created_at
                    == t
        }),
    decreases events.len(),
{
    if events.len() > 0 {
        let rest = events.drop_last();
        let n = events.len() - 1;
        latest_event_is_noted(rows, latest, rest);
        let before = synced(rows, latest, rest).1;
        let t = synced(rows, latest, events).1;
        assert(events[n] == events.last());
        assert forall|i: int| 0 <= i < events.len() && (#[trigger] events[i]).memory is Some implies
            events[i].created_at <= t by {
            if i < n {
                assert(rest[i] == events[i]);
                assert(rest[i].memory is Some);
            }
        }
        if t != latest {
            if t == before {
                let i = choose|i: int|
                    0 <= i < rest.len() && (#[trigger] rest[i]).memory is Some && rest[i].created_at
                        == before;
                assert(events[i] == rest[i]);
            } else {
                assert(events[n].created_at == t);
            }
        }
    }
}

/// A profile is read field by field: a text that is missing is empty, an operator that is missing is
/// none, and of the capabilities those that are texts count, in their order.
pub proof fn profiles_are_read(json: Seq<char>, t: Seq<char>)
    ensures
        json_field(json, "name"@) == Some(Some(t)) ==> profile_of(json).name == t,
        json_field(json, "about"@) == Some(Some(t)) ==> profile_of(json).about == t,
        json_field(json, "snow:model"@) == Some(Some(t)) ==> profile_of(json).model == t,
        json_field(json, "snow:version"@) == Some(Some(t)) ==> profile_of(json).version == t,
        json_field(json, "snow:operator"@) == Some(Some(t)) ==> profile_of(json).operator_npub == Some(
            t,
        ),
        json_field(json, "snow:operator"@) == Some(None::<Seq<char>>) ==> profile_of(
            json,
        ).operator_npub is None,
        json_field(json, "about"@) == Some(None::<Seq<char>>) ==> profile_of(json).about.len() == 0,
        json_array(json, "snow:capabilities"@) is None ==> profile_of(json).capabilities.len() == 0,
        json_array(json, "snow:capabilities"@) matches Some(list) ==> (profile_of(
            json,
        ).capabilities.contains(t) <==> list.contains(Some(t))),
{
    if let Some(list) = json_array(json, "snow:capabilities"@) {
        let f = |t: Option<Seq<char>>| t;
        filter_map_holds(list, f, t);
        if only_texts(list).contains(t) {
            let x = choose|x: Option<Seq<char>>| #[trigger] list.contains(x) && f(x) == Some(t);
            assert(x == Some(t));
        }
        if list.contains(Some(t)) {
            assert(f(Some(t)) == Some(t));
        }
    }
}

} // verus!
