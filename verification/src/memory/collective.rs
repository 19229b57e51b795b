//! Collective memory: memories with a privacy tier, kept in an index and shared over relays.

use super::traits::{
    entry_views, CategoryView, EntryView, MemoryCategory, MemoryEntry, MemoryTier, RecallContext,
    TierView,
};
use crate::ids::fresh_id;
use crate::order::first_n;
use crate::keys::{key_of_secret, secret_key_owner};
use crate::text::pattern::{
    contains, find_char, find_char_is_first, find_from, found_first, has_substring, occurs_at,
    pieces_make_the_text, split, split_on, split_once_str, substrings_stand_between,
};
use crate::text::{opt_text, str_eq, texts};
use crate::time::{format_time, time_text};
use vstd::prelude::*;

verus! {

// ---------------------------------------------------------------------------
// Tiers
// ---------------------------------------------------------------------------

/// The tier of a category.
pub open spec fn tier_of_category(c: CategoryView) -> TierView {
    match c {
        CategoryView::Core => TierView::Public,
        CategoryView::Daily => TierView::Public,
        CategoryView::Conversation => TierView::Private("self"@),
        CategoryView::Custom(name) => if name == "group"@ {
            TierView::Group("default"@)
        } else {
            TierView::Public
        },
    }
}

/// The tier of a category.
pub fn category_to_tier(category: &MemoryCategory) -> (r: MemoryTier)
    ensures
        r@ == tier_of_category(category@),
{
    match category {
        MemoryCategory::Core => MemoryTier::Public,
        MemoryCategory::Daily => MemoryTier::Public,
        MemoryCategory::Conversation => MemoryTier::Private("self".to_owned()),
        MemoryCategory::Custom(name) => if str_eq(name.as_str(), "group") {
            MemoryTier::Group("default".to_owned())
        } else {
            MemoryTier::Public
        },
    }
}

/// The tier that the first part of a key stands for: preferences, contacts and conversations are
/// private, and a group's memories belong to the group that the second part names.
pub open spec fn tier_of_key(key: Seq<char>) -> TierView {
    let parts = split_on(key, ':');
    let scope = parts[0];
    if scope == "pref"@ || scope == "contact"@ || scope == "conv"@ {
        TierView::Private("self"@)
    } else if scope == "group"@ {
        TierView::Group(
            if parts.len() > 1 {
                parts[1]
            } else {
                "default"@
            },
        )
    } else {
        TierView::Public
    }
}

/// The tier that the first part of a key stands for.
pub fn scope_to_tier(key: &str) -> (r: MemoryTier)
    ensures
        r@ == tier_of_key(key@),
{
    let parts = split(key, ':');
    if parts.len() == 0 {
        return MemoryTier::Public;
    }
    let scope = parts[0].as_str();
    if str_eq(scope, "pref") || str_eq(scope, "contact") || str_eq(scope, "conv") {
        MemoryTier::Private("self".to_owned())
    } else if str_eq(scope, "group") {
        if parts.len() > 1 {
            MemoryTier::Group(parts[1].clone())
        } else {
            MemoryTier::Group("default".to_owned())
        }
    } else {
        MemoryTier::Public
    }
}

/// The tier under which a memory is stored: that of its key where the key has parts, else that of
/// its category.
pub open spec fn store_tier(key: Seq<char>, category: CategoryView) -> TierView {
    if has_substring(key, ":"@) {
        tier_of_key(key)
    } else {
        tier_of_category(category)
    }
}

/// Whether a memory may be seen in a setting: public ones everywhere, private ones in the main
/// session, a group's ones there and in that group.
pub open spec fn visible(tier: TierView, main: bool, group: Option<Seq<char>>) -> bool {
    match tier {
        TierView::Public => true,
        TierView::Private(_) => main,
        TierView::Group(id) => main || group == Some(id),
    }
}

/// Whether a memory may be seen in a setting.
pub fn tier_visible_in_context(tier: &MemoryTier, context: &RecallContext) -> (r: bool)
    ensures
        r == visible(tier@, context.is_main_session, opt_text(context.group_id)),
{
    match tier {
        MemoryTier::Public => true,
        MemoryTier::Private(_) => context.is_main_session,
        MemoryTier::Group(id) => context.is_main_session || crate::text::opt_eq(
            &context.group_id,
            id.as_str(),
        ),
    }
}

/// How far a tier may be seen: private ones least, public ones most.
pub open spec fn rank(tier: TierView) -> u8 {
    match tier {
        TierView::Private(_) => 0,
        TierView::Group(_) => 1,
        TierView::Public => 2,
    }
}

/// How far a tier may be seen.
pub fn tier_rank(tier: &MemoryTier) -> (r: u8)
    ensures
        r == rank(tier@),
{
    match tier {
        MemoryTier::Private(_) => 0,
        MemoryTier::Group(_) => 1,
        MemoryTier::Public => 2,
    }
}

/// The word for a tier.
pub open spec fn label(tier: TierView) -> Seq<char> {
    match tier {
        TierView::Private(_) => "private"@,
        TierView::Group(_) => "group"@,
        TierView::Public => "public"@,
    }
}

/// The word for a tier.
pub fn tier_label(tier: &MemoryTier) -> (r: &'static str)
    ensures
        r@ == label(tier@),
{
    match tier {
        MemoryTier::Private(_) => "private",
        MemoryTier::Group(_) => "group",
        MemoryTier::Public => "public",
    }
}

/// The category of a tier.
pub open spec fn category_of_tier(tier: TierView) -> CategoryView {
    match tier {
        TierView::Public => CategoryView::Core,
        TierView::Group(id) => CategoryView::Custom("group:"@ + id),
        TierView::Private(_) => CategoryView::Conversation,
    }
}

/// The category of a tier.
pub fn tier_to_category(tier: &MemoryTier) -> (r: MemoryCategory)
    ensures
        r@ == category_of_tier(tier@),
{
    match tier {
        MemoryTier::Public => MemoryCategory::Core,
        MemoryTier::Group(id) => {
            let mut name = String::from_str("group:");
            name.append(id.as_str());
            MemoryCategory::Custom(name)
        },
        MemoryTier::Private(_) => MemoryCategory::Conversation,
    }
}

// ---------------------------------------------------------------------------
// Memories and their index
// ---------------------------------------------------------------------------

/// How sure a memory is where nothing else is said: 0.8, as the bits of a 64-bit floating-point
/// number.
pub const DEFAULT_CONFIDENCE: u64 = 0x3FE9_9999_9999_999A;

/// A memory of the collective index.
#[derive(Debug)]
pub struct SnowMemory {
    pub id: String,
    pub tier: MemoryTier,
    pub topic: String,
    pub summary: String,
    pub detail: String,
    pub context: Option<String>,
    pub source: String,
    pub model: String,
    /// How sure it is, as the bits of a 64-bit floating-point number.
    pub confidence: u64,
    pub supersedes: Option<String>,
    pub version: u32,
    pub tags: Vec<String>,
    pub created_at: u64,
}

/// What a `SnowMemory` says.
pub struct SnowView {
    pub id: Seq<char>,
    pub tier: TierView,
    pub topic: Seq<char>,
    pub summary: Seq<char>,
    pub detail: Seq<char>,
    pub context: Option<Seq<char>>,
    pub source: Seq<char>,
    pub model: Seq<char>,
    pub confidence: u64,
    pub supersedes: Option<Seq<char>>,
    pub version: u32,
    pub tags: Seq<Seq<char>>,
    pub created_at: u64,
}

impl View for SnowMemory {
    type V = SnowView;

    open spec fn view(&self) -> SnowView {
        SnowView {
            id: self.id@,
            tier: self.tier@,
            topic: self.topic@,
            summary: self.summary@,
            detail: self.detail@,
            context: opt_text(self.context),
            source: self.source@,
            model: self.model@,
            confidence: self.confidence,
            supersedes: opt_text(self.supersedes),
            version: self.version,
            tags: texts(self.tags@),
            created_at: self.created_at,
        }
    }
}

impl Clone for SnowMemory {
    fn clone(&self) -> (r: Self)
        ensures
            r@ == self@,
    {
        SnowMemory {
            id: self.id.clone(),
            tier: self.tier.clone(),
            topic: self.topic.clone(),
            summary: self.summary.clone(),
            detail: self.detail.clone(),
            context: self.context.clone(),
            source: self.source.clone(),
            model: self.model.clone(),
            confidence: self.confidence,
            supersedes: self.supersedes.clone(),
            version: self.version,
            tags: self.tags.clone(),
            created_at: self.created_at,
        }
    }
}

/// What memories say.
pub open spec fn snow_views(list: Seq<SnowMemory>) -> Seq<SnowView> {
    Seq::new(list.len(), |i: int| list[i]@)
}

/// The rows after a memory was stored: one with the same id gives way, and the new one comes last.
pub open spec fn upserted(rows: Seq<SnowView>, m: SnowView) -> Seq<SnowView> {
    rows.filter(|r: SnowView| r.id != m.id).push(m)
}

/// Whether no two memories have the same id.
pub open spec fn distinct_ids(rows: Seq<SnowView>) -> bool {
    forall|i: int, j: int|
        0 <= i < j < rows.len() ==> (#[trigger] rows[i]).id != (#[trigger] rows[j]).id
}

/// The newest memory on a topic.
pub open spec fn newest_on(rows: Seq<SnowView>, topic: Seq<char>) -> Option<SnowView>
    decreases rows.len(),
{
    if rows.len() == 0 {
        None
    } else if rows.last().topic == topic {
        Some(rows.last())
    } else {
        newest_on(rows.drop_last(), topic)
    }
}

/// The memories of the collective, the newest last.
pub struct MemoryIndex {
    pub rows: Vec<SnowMemory>,
}

impl View for MemoryIndex {
    type V = Seq<SnowView>;

    open spec fn view(&self) -> Seq<SnowView> {
        snow_views(self.rows@)
    }
}

impl MemoryIndex {
    /// No two memories have the same id.
    pub open spec fn well_formed(&self) -> bool {
        distinct_ids(self@)
    }

    /// Stores a memory in place of one with the same id.
    pub fn upsert(&mut self, m: SnowMemory)
        ensures
            final(self)@ == upserted(old(self)@, m@),
            old(self).well_formed() ==> final(self).well_formed(),
    {
        let ghost all = self@;
        let ghost keep = |r: SnowView| r.id != m@.id;
        let mut rows: Vec<SnowMemory> = Vec::new();
        let mut i: usize = 0;
        proof {
            reveal(Seq::filter);
            assert(snow_views(rows@) =~= all.take(0).filter(keep));
        }
        while i < self.rows.len()
            invariant
                i <= self.rows@.len(),
                all == snow_views(self.rows@),
                keep == (|r: SnowView| r.id != m@.id),
                snow_views(rows@) == all.take(i as int).filter(keep),
            decreases self.rows.len() - i,
        {
            proof {
                reveal(Seq::filter);
                assert(all.take(i + 1).drop_last() =~= all.take(i as int));
                assert(all.take(i + 1).last() == all[i as int]);
            }
            if !str_eq(self.rows[i].id.as_str(), m.id.as_str()) {
                let ghost before = rows@;
                rows.push(self.rows[i].clone());
                assert(snow_views(rows@) =~= snow_views(before).push(all[i as int]));
            }
            i = i + 1;
        }
        let ghost before = rows@;
        rows.push(m);
        proof {
            assert(all.take(i as int) =~= all);
            assert(snow_views(rows@) =~= snow_views(before).push(m@));
            if distinct_ids(all) {
                upsert_keeps_ids_distinct(all, m@);
            }
        }
        self.rows = rows;
    }

    /// The newest memory on a topic.
    pub fn get_by_topic(&self, topic: &str) -> (r: Option<SnowMemory>)
        ensures
            match r {
                Some(m) => newest_on(self@, topic@) == Some(m@),
                None => newest_on(self@, topic@) is None,
            },
    {
        let ghost all = self@;
        let mut i: usize = self.rows.len();
        assert(all.take(i as int) =~= all);
        while i > 0
            invariant
                i <= self.rows@.len(),
                all == snow_views(self.rows@),
                newest_on(all, topic@) == newest_on(all.take(i as int), topic@),
            decreases i,
        {
            proof {
                assert(all.take(i as int).drop_last() =~= all.take(i - 1));
                assert(all.take(i as int).last() == all[i - 1]);
            }
            i = i - 1;
            if str_eq(self.rows[i].topic.as_str(), topic) {
                return Some(self.rows[i].clone());
            }
        }
        None
    }

    /// Drops all memories on a topic. Tells whether there were any.
    pub fn delete_by_topic(&mut self, topic: &str) -> (r: bool)
        ensures
            final(self)@ == old(self)@.filter(|m: SnowView| m.topic != topic@),
            r == (newest_on(old(self)@, topic@) is Some),
            old(self).well_formed() ==> final(self).well_formed(),
    {
        let ghost all = self@;
        let ghost keep = |m: SnowView| m.topic != topic@;
        let mut rows: Vec<SnowMemory> = Vec::new();
        let mut found = false;
        let mut i: usize = 0;
        proof {
            reveal(Seq::filter);
            assert(snow_views(rows@) =~= all.take(0).filter(keep));
            assert(newest_on(all.take(0), topic@) is None);
        }
        while i < self.rows.len()
            invariant
                i <= self.rows@.len(),
                all == snow_views(self.rows@),
                keep == (|m: SnowView| m.topic != topic@),
                snow_views(rows@) == all.take(i as int).filter(keep),
                found == (newest_on(all.take(i as int), topic@) is Some),
            decreases self.rows.len() - i,
        {
            proof {
                reveal(Seq::filter);
                assert(all.take(i + 1).drop_last() =~= all.take(i as int));
                assert(all.take(i + 1).last() == all[i as int]);
            }
            if str_eq(self.rows[i].topic.as_str(), topic) {
                found = true;
            } else {
                let ghost before = rows@;
                rows.push(self.rows[i].clone());
                assert(snow_views(rows@) =~= snow_views(before).push(all[i as int]));
            }
            i = i + 1;
        }
        proof {
            assert(all.take(i as int) =~= all);
            if distinct_ids(all) {
                filter_keeps_ids_distinct(all, keep);
            }
        }
        self.rows = rows;
        found
    }
}

proof fn filter_keeps_ids_distinct(rows: Seq<SnowView>, keep: spec_fn(SnowView) -> bool)
    requires
        distinct_ids(rows),
    ensures
        distinct_ids(rows.filter(keep)),
    decreases rows.len(),
{
    reveal(Seq::filter);
    if rows.len() > 0 {
        let rest = rows.drop_last();
        let kept = rest.filter(keep);
        assert forall|i: int, j: int| 0 <= i < j < rest.len() implies (#[trigger] rest[i]).id != (
        #[trigger] rest[j]).id by {
            assert(rows[i].id != rows[j].id);
        }
        filter_keeps_ids_distinct(rest, keep);
        if keep(rows.last()) {
            assert forall|i: int| 0 <= i < kept.len() implies (#[trigger] kept[i]).id
                != rows.last().id by {
                assert(kept.contains(kept[i]));
                rest.lemma_filter_contains_rev(keep, kept[i]);
                let k = choose|k: int| 0 <= k < rest.len() && rest[k] == kept[i];
                assert(rows[k].id != rows[rows.len() - 1].id);
            }
        }
    }
}

/// Storing a memory keeps the ids distinct.
pub proof fn upsert_keeps_ids_distinct(rows: Seq<SnowView>, m: SnowView)
    requires
        distinct_ids(rows),
    ensures
        distinct_ids(upserted(rows, m)),
{
    let keep = |r: SnowView| r.id != m.id;
    let kept = rows.filter(keep);
    filter_keeps_ids_distinct(rows, keep);
    assert forall|i: int| 0 <= i < kept.len() implies (#[trigger] kept[i]).id != m.id by {
        rows.lemma_filter_pred(keep, i);
    }
}

proof fn others_are_kept(rows: Seq<SnowView>, id: Seq<char>, k: int)
    requires
        distinct_ids(rows),
        0 <= k < rows.len(),
        rows[k].id == id,
    ensures
        rows.filter(|r: SnowView| r.id != id) == rows.remove(k),
    decreases rows.len(),
{
    reveal(Seq::filter);
    let keep = |r: SnowView| r.id != id;
    let rest = rows.drop_last();
    let n = rows.len() - 1;
    assert forall|i: int, j: int| 0 <= i < j < rest.len() implies (#[trigger] rest[i]).id != (
    #[trigger] rest[j]).id by {
        assert(rows[i].id != rows[j].id);
    }
    if k == n {
        assert forall|i: int| 0 <= i < rest.len() implies keep(#[trigger] rest[i]) by {
            assert(rows[i].id != rows[k].id);
        }
        all_are_kept(rest, keep);
        assert(rows.remove(k) =~= rest);
    } else {
        assert(rows[k].id != rows[n].id);
        others_are_kept(rest, id, k);
        assert(rows.remove(k) =~= rest.remove(k).push(rows.last()));
    }
}

proof fn all_are_kept(rows: Seq<SnowView>, keep: spec_fn(SnowView) -> bool)
    requires
        forall|i: int| 0 <= i < rows.len() ==> keep(#[trigger] rows[i]),
    ensures
        rows.filter(keep) == rows,
    decreases rows.len(),
{
    reveal(Seq::filter);
    if rows.len() > 0 {
        let rest = rows.drop_last();
        assert forall|i: int| 0 <= i < rest.len() implies keep(#[trigger] rest[i]) by {
            assert(keep(rows[i]));
        }
        all_are_kept(rest, keep);
        assert(keep(rows[rows.len() - 1]));
        assert(rest.push(rows.last()) =~= rows);
    }
}

proof fn newest_is_a_row(rows: Seq<SnowView>, topic: Seq<char>)
    ensures
        newest_on(rows, topic) matches Some(m) ==> rows.contains(m),
    decreases rows.len(),
{
    if rows.len() > 0 {
        if rows.last().topic == topic {
            assert(rows[rows.len() - 1] == rows.last());
        } else {
            let rest = rows.drop_last();
            newest_is_a_row(rest, topic);
            if newest_on(rest, topic) is Some {
                let m = newest_on(rest, topic)->0;
                let k = choose|k: int| 0 <= k < rest.len() && rest[k] == m;
                assert(rows[k] == m);
            }
        }
    }
}

/// Promoting the newest memory on a topic keeps the number of memories.
pub proof fn promotion_keeps_count(
    rows: Seq<SnowView>,
    topic: Seq<char>,
    tier: TierView,
    now: u64,
)
    requires
        distinct_ids(rows),
        newest_on(rows, topic) is Some,
    ensures
        upserted(rows, promoted(newest_on(rows, topic)->0, tier, now)).len() == rows.len(),
{
    let m = newest_on(rows, topic)->0;
    newest_is_a_row(rows, topic);
    let k = choose|k: int| 0 <= k < rows.len() && rows[k] == m;
    others_are_kept(rows, m.id, k);
}

/// The memory as it is handed out.
pub open spec fn entry_of(m: SnowView, score: Option<u64>) -> EntryView {
    EntryView {
        id: m.id,
        key: m.topic,
        content: if m.detail.len() == 0 {
            m.summary
        } else {
            m.summary + "\n\n"@ + m.detail
        },
        category: category_of_tier(m.tier),
        timestamp: time_text(m.created_at as i64),
        session_id: None,
        score,
    }
}

/// The memory as it is handed out.
pub fn snow_to_entry(m: &SnowMemory, score: Option<u64>) -> (r: MemoryEntry)
    ensures
        r@ == entry_of(m@, score),
{
    proof {
        reveal_strlit("");
        assert(m.detail@.len() == 0 ==> m.detail@ =~= ""@);
    }
    let mut content = m.summary.clone();
    if !str_eq(m.detail.as_str(), "") {
        content.append("\n\n");
        content.append(m.detail.as_str());
    }
    MemoryEntry {
        id: m.id.clone(),
        key: m.topic.clone(),
        content,
        category: tier_to_category(&m.tier),
        timestamp: format_time(m.created_at as i64),
        session_id: None,
        score,
    }
}

// ---------------------------------------------------------------------------
// The backend
// ---------------------------------------------------------------------------

/// Configuration of the collective backend.
#[derive(Debug)]
pub struct CollectiveMemoryConfig {
    /// Where the index is kept.
    pub db_path: String,
    /// Relays over which memories are shared.
    pub relay_urls: Vec<String>,
}

/// What a `CollectiveMemoryConfig` says.
pub struct CollectiveConfigView {
    pub db_path: Seq<char>,
    pub relay_urls: Seq<Seq<char>>,
}

impl View for CollectiveMemoryConfig {
    type V = CollectiveConfigView;

    open spec fn view(&self) -> CollectiveConfigView {
        CollectiveConfigView { db_path: self.db_path@, relay_urls: texts(self.relay_urls@) }
    }
}

impl Clone for CollectiveMemoryConfig {
    fn clone(&self) -> (r: Self)
        ensures
            r@ == self@,
    {
        let r = CollectiveMemoryConfig {
            db_path: self.db_path.clone(),
            relay_urls: self.relay_urls.clone(),
        };
        assert(r@.relay_urls =~= self@.relay_urls);
        r
    }
}

/// The collective backend: its configuration, its index, the secret key under which it shares, and
/// the time up to which the relays have been read.
pub struct CollectiveMemory {
    pub config: CollectiveMemoryConfig,
    pub index: MemoryIndex,
    pub relay_secret: Option<String>,
    pub last_sync: Option<u64>,
}

/// The summary and the detail of a content: what stands before and behind the first empty line.
pub open spec fn content_parts(content: Seq<char>) -> (Seq<char>, Seq<char>) {
    match find_from(content, "\n\n"@, 0) {
        Some(k) => (content.take(k), content.skip(k + 2)),
        None => (content, Seq::empty()),
    }
}

fn split_content(content: &str) -> (r: (String, String))
    ensures
        (r.0@, r.1@) == content_parts(content@),
{
    proof {
        reveal_strlit("\n\n");
    }
    match split_once_str(content, "\n\n") {
        Some(parts) => parts,
        None => (content.to_owned(), String::new()),
    }
}

/// Who a memory of this agent is from: its public key where it shares, else "self".
pub open spec fn own_source(secret: Option<Seq<char>>) -> Seq<char> {
    match secret {
        Some(s) => match secret_key_owner(s) {
            Some(k) => k,
            None => "self"@,
        },
        None => "self"@,
    }
}

/// A memory that has just been made.
pub open spec fn new_memory(
    id: Seq<char>,
    tier: TierView,
    key: Seq<char>,
    content: Seq<char>,
    source: Seq<char>,
    now: u64,
) -> SnowView {
    SnowView {
        id,
        tier,
        topic: key,
        summary: content_parts(content).0,
        detail: content_parts(content).1,
        context: None,
        source,
        model: Seq::empty(),
        confidence: DEFAULT_CONFIDENCE,
        supersedes: None,
        version: 1,
        tags: Seq::empty(),
        created_at: now,
    }
}

/// Why a memory was not promoted.
#[derive(Debug)]
pub enum PromoteError {
    /// There is no memory with the key.
    NotFound { key: String },
    /// The new tier may not be seen farther than the present one.
    NotHigher { from: &'static str, to: &'static str },
}

impl PromoteError {
    /// What the error says.
    pub open spec fn text(&self) -> Seq<char> {
        match self {
            PromoteError::NotFound { key } => "memory not found: "@ + key@,
            PromoteError::NotHigher { from, to } => "cannot promote from "@ + from@ + " to "@ + to@
                + ": tier must increase in visibility"@,
        }
    }

    /// What the error says.
    pub fn to_string(&self) -> (r: String)
        ensures
            r@ == self.text(),
    {
        match self {
            PromoteError::NotFound { key } => {
                let mut r = String::from_str("memory not found: ");
                r.append(key.as_str());
                r
            },
            PromoteError::NotHigher { from, to } => {
                let mut r = String::from_str("cannot promote from ");
                r.append(from);
                r.append(" to ");
                r.append(to);
                r.append(": tier must increase in visibility");
                r
            },
        }
    }
}

/// A memory after it was promoted: a new version that may be seen farther.
pub open spec fn promoted(m: SnowView, tier: TierView, now: u64) -> SnowView {
    SnowView {
        tier,
        supersedes: Some(m.id),
        version: (m.version + 1) as u32,
        created_at: now,
        ..m
    }
}

/// The number of ranked results that are asked for: more where some of them may have to stay unseen.
pub open spec fn wanted(limit: int, filtered: bool) -> int {
    if filtered {
        limit * 3
    } else {
        limit
    }
}

/// Ranked results that may be seen.
pub open spec fn seen_in(
    results: Seq<(SnowView, u64)>,
    setting: Option<(bool, Option<Seq<char>>)>,
) -> Seq<(SnowView, u64)> {
    results.filter(
        |r: (SnowView, u64)|
            match setting {
                Some(s) => visible(r.0.tier, s.0, s.1),
                None => true,
            },
    )
}

/// Memories with how well each matched.
pub open spec fn ranked_views(list: Seq<(SnowMemory, u64)>) -> Seq<(SnowView, u64)> {
    Seq::new(list.len(), |i: int| (list[i].0@, list[i].1))
}

/// What a setting lets be seen.
pub open spec fn setting_of(context: Option<RecallContext>) -> Option<(bool, Option<Seq<char>>)> {
    match context {
        Some(c) => Some((c.is_main_session, opt_text(c.group_id))),
        None => None,
    }
}

/// A memory that may be seen in a group chat with no group is public.
pub proof fn other_channels_see_public_only(tier: TierView)
    ensures
        visible(tier, false, None) == (tier is Public),
{
}

/// The main session sees everything.
pub proof fn main_session_sees_everything(tier: TierView, group: Option<Seq<char>>)
    ensures
        visible(tier, true, group),
{
}

/// A memory that was promoted may be seen wherever it could be seen before.
pub proof fn promotion_keeps_sight(
    from: TierView,
    to: TierView,
    main: bool,
    group: Option<Seq<char>>,
)
    requires
        rank(from) < rank(to),
        visible(from, main, group),
    ensures
        visible(to, main, group),
{
}

/// A stored memory is found under its key until another one is stored there or it is forgotten.
pub proof fn stored_memory_is_found(rows: Seq<SnowView>, m: SnowView)
    ensures
        newest_on(upserted(rows, m), m.topic) == Some(m),
{
    let kept = rows.filter(|r: SnowView| r.id != m.id);
    assert(kept.push(m).last() == m);
}

/// What is forgotten is not found.
pub proof fn forgotten_memory_is_gone(rows: Seq<SnowView>, topic: Seq<char>)
    ensures
        newest_on(rows.filter(|m: SnowView| m.topic != topic), topic) is None,
{
    let kept = rows.filter(|m: SnowView| m.topic != topic);
    assert forall|i: int| 0 <= i < kept.len() implies (#[trigger] kept[i]).topic != topic by {
        rows.lemma_filter_pred(|m: SnowView| m.topic != topic, i);
    }
    nothing_on(kept, topic);
}

proof fn nothing_on(rows: Seq<SnowView>, topic: Seq<char>)
    requires
        forall|i: int| 0 <= i < rows.len() ==> (#[trigger] rows[i]).topic != topic,
    ensures
        newest_on(rows, topic) is None,
    decreases rows.len(),
{
    if rows.len() > 0 {
        assert(rows.last() == rows[rows.len() - 1]);
        assert forall|i: int| 0 <= i < rows.drop_last().len() implies (
        #[trigger] rows.drop_last()[i]).topic != topic by {
            assert(rows.drop_last()[i] == rows[i]);
        }
        nothing_on(rows.drop_last(), topic);
    }
}

impl CollectiveMemory {
    /// A backend on an empty index that shares nothing.
    pub fn new_in_memory(config: &CollectiveMemoryConfig) -> (r: Self)
        ensures
            r.config@ == config@,
            r.index@ == Seq::<SnowView>::empty(),
            r.index.well_formed(),
            r.relay_secret is None,
            r.last_sync is None,
    {
        let r = CollectiveMemory {
            config: config.clone(),
            index: MemoryIndex { rows: Vec::new() },
            relay_secret: None,
            last_sync: None,
        };
        assert(r.index@ =~= Seq::<SnowView>::empty());
        r
    }

    /// A backend on an empty index that shares where relays and a secret key are given.
    pub fn new_in_memory_with_relay(config: &CollectiveMemoryConfig, nsec: &str) -> (r: Self)
        ensures
            r.config@ == config@,
            r.index@ == Seq::<SnowView>::empty(),
            r.index.well_formed(),
            r.last_sync is None,
            opt_text(r.relay_secret) == (if config.relay_urls@.len() > 0 && secret_key_owner(
                nsec@,
            ) is Some {
                Some(nsec@)
            } else {
                None
            }),
    {
        let r = CollectiveMemory {
            config: config.clone(),
            index: MemoryIndex { rows: Vec::new() },
            relay_secret: init_relay(config, Some(nsec)),
            last_sync: None,
        };
        assert(r.index@ =~= Seq::<SnowView>::empty());
        r
    }

    /// Whether memories are shared.
    pub fn relay_enabled(&self) -> (r: bool)
        ensures
            r == (self.relay_secret is Some),
    {
        self.relay_secret.is_some()
    }

    /// Name of the backend.
    pub fn name(&self) -> (r: &'static str)
        ensures
            r@ == "collective"@,
    {
        "collective"
    }

    fn source(&self) -> (r: String)
        ensures
            r@ == own_source(opt_text(self.relay_secret)),
    {
        match &self.relay_secret {
            Some(s) => match key_of_secret(s.as_str()) {
                Some(k) => k,
                None => "self".to_owned(),
            },
            None => "self".to_owned(),
        }
    }

    /// Stores a memory under an id and a tier, and gives it back for sharing.
    pub fn store_as(
        &mut self,
        id: String,
        key: &str,
        content: &str,
        tier: MemoryTier,
        now: u64,
    ) -> (r: SnowMemory)
        ensures
            r@ == new_memory(
                id@,
                tier@,
                key@,
                content@,
                own_source(opt_text(old(self).relay_secret)),
                now,
            ),
            final(self).index@ == upserted(old(self).index@, r@),
            old(self).index.well_formed() ==> final(self).index.well_formed(),
            final(self).config == old(self).config,
            final(self).relay_secret == old(self).relay_secret,
            final(self).last_sync == old(self).last_sync,
    {
        let parts = split_content(content);
        let memory = SnowMemory {
            id,
            tier,
            topic: key.to_owned(),
            summary: parts.0,
            detail: parts.1,
            context: None,
            source: self.source(),
            model: String::new(),
            confidence: DEFAULT_CONFIDENCE,
            supersedes: None,
            version: 1,
            tags: Vec::new(),
            created_at: now,
        };
        assert(memory@.tags =~= Seq::<Seq<char>>::empty());
        self.index.upsert(memory.clone());
        memory
    }

    /// Stores a memory under a fresh id and a given tier.
    pub fn store_with_tier(
        &mut self,
        key: &str,
        content: &str,
        tier: MemoryTier,
        now: u64,
    ) -> (r: SnowMemory)
        ensures
            r@ == new_memory(
                r@.id,
                tier@,
                key@,
                content@,
                own_source(opt_text(old(self).relay_secret)),
                now,
            ),
            r@.id.len() == 36,
            final(self).index@ == upserted(old(self).index@, r@),
            newest_on(final(self).index@, key@) == Some(r@),
            old(self).index.well_formed() ==> final(self).index.well_formed(),
            final(self).config == old(self).config,
            final(self).relay_secret == old(self).relay_secret,
            final(self).last_sync == old(self).last_sync,
    {
        let r = self.store_as(fresh_id(), key, content, tier, now);
        proof {
            stored_memory_is_found(old(self).index@, r@);
        }
        r
    }

    /// Stores a memory under a fresh id and the tier that its key or category stands for.
    pub fn store(&mut self, key: &str, content: &str, category: &MemoryCategory, now: u64) -> (r:
        SnowMemory)
        ensures
            r@ == new_memory(
                r@.id,
                store_tier(key@, category@),
                key@,
                content@,
                own_source(opt_text(old(self).relay_secret)),
                now,
            ),
            r@.id.len() == 36,
            final(self).index@ == upserted(old(self).index@, r@),
            newest_on(final(self).index@, key@) == Some(r@),
            old(self).index.well_formed() ==> final(self).index.well_formed(),
            final(self).config == old(self).config,
            final(self).relay_secret == old(self).relay_secret,
            final(self).last_sync == old(self).last_sync,
    {
        let tier = if contains(key, ":") {
            scope_to_tier(key)
        } else {
            category_to_tier(category)
        };
        self.store_with_tier(key, content, tier, now)
    }

    /// The number of ranked results that a recall asks for.
    pub fn fetch_limit(limit: usize, context: Option<&RecallContext>) -> (r: usize)
        requires
            context is Some ==> limit * 3 <= usize::MAX,
        ensures
            r == wanted(limit as int, context is Some),
    {
        if context.is_some() {
            limit * 3
        } else {
            limit
        }
    }

    /// The memories that a recall hands out: the first of the ranked results that may be seen.
    pub fn recall_with_context(
        &self,
        results: &Vec<(SnowMemory, u64)>,
        limit: usize,
        context: Option<&RecallContext>,
    ) -> (r: Vec<MemoryEntry>)
        ensures
            entry_views(r@) == first_n(
                seen_in(
                    ranked_views(results@),
                    setting_of(
                        match context {
                            Some(c) => Some(*c),
                            None => None,
                        },
                    ),
                ),
                limit as int,
            ).map_values(|p: (SnowView, u64)| entry_of(p.0, Some(p.1))),
    {
        let ghost all = ranked_views(results@);
        let ghost setting = setting_of(
            match context {
                Some(c) => Some(*c),
                None => None,
            },
        );
        let ghost keep = |r: (SnowView, u64)|
            match setting {
                Some(s) => visible(r.0.tier, s.0, s.1),
                None => true,
            };
        let ghost show = |p: (SnowView, u64)| entry_of(p.0, Some(p.1));
        let mut r: Vec<MemoryEntry> = Vec::new();
        let mut i: usize = 0;
        proof {
            reveal(Seq::filter);
            assert(entry_views(r@) =~= first_n(all.take(0).filter(keep), limit as int).map_values(
                show,
            ));
        }
        while i < results.len()
            invariant
                i <= results@.len(),
                all == ranked_views(results@),
                setting == setting_of(
                    match context {
                        Some(c) => Some(*c),
                        None => None,
                    },
                ),
                keep == (|r: (SnowView, u64)|
                    match setting {
                        Some(s) => visible(r.0.tier, s.0, s.1),
                        None => true,
                    }),
                show == (|p: (SnowView, u64)| entry_of(p.0, Some(p.1))),
                r@.len() <= limit,
                entry_views(r@) == first_n(
                    all.take(i as int).filter(keep),
                    limit as int,
                ).map_values(show),
            decreases results.len() - i,
        {
            let ghost kept = all.take(i as int).filter(keep);
            proof {
                reveal(Seq::filter);
                assert(all.take(i + 1).drop_last() =~= all.take(i as int));
                assert(all.take(i + 1).last() == all[i as int]);
                assert(entry_views(r@).len() == r@.len());
            }
            let seen = match context {
                Some(c) => tier_visible_in_context(&results[i].0.tier, c),
                None => true,
            };
            if seen {
                let ghost more = kept.push(all[i as int]);
                assert(all.take(i + 1).filter(keep) =~= more);
                if r.len() < limit {
                    let ghost before = r@;
                    r.push(snow_to_entry(&results[i].0, Some(results[i].1)));
                    proof {
                        assert(entry_views(r@) =~= entry_views(before).push(show(all[i as int])));
                        assert(first_n(more, limit as int) =~= more);
                        assert(more.map_values(show) =~= kept.map_values(show).push(
                            show(all[i as int]),
                        ));
                    }
                } else {
                    assert(first_n(more, limit as int) =~= first_n(kept, limit as int));
                }
            } else {
                assert(all.take(i + 1).filter(keep) =~= kept);
            }
            i = i + 1;
        }
        assert(all.take(i as int) =~= all);
        r
    }

    /// The newest memory under a key.
    pub fn get(&self, key: &str) -> (r: Option<MemoryEntry>)
        ensures
            match newest_on(self.index@, key@) {
                Some(m) => r is Some && r->0@ == entry_of(m, None),
                None => r is None,
            },
    {
        match self.index.get_by_topic(key) {
            Some(m) => Some(snow_to_entry(&m, None)),
            None => None,
        }
    }

    /// The memories of the tier that a category stands for, or all, at most a thousand.
    pub fn list(&self, category: Option<&MemoryCategory>) -> (r: Vec<MemoryEntry>)
        ensures
            entry_views(r@) == first_n(
                self.index@.filter(
                    |m: SnowView|
                        match category {
                            Some(c) => rank(m.tier) == rank(tier_of_category(c@)),
                            None => true,
                        },
                ),
                1000,
            ).map_values(|m: SnowView| entry_of(m, None)),
    {
        let ghost all = self.index@;
        let ghost keep = |m: SnowView|
            match category {
                Some(c) => rank(m.tier) == rank(tier_of_category(c@)),
                None => true,
            };
        let ghost show = |m: SnowView| entry_of(m, None);
        let wanted_rank: Option<u8> = match category {
            Some(c) => Some(tier_rank(&category_to_tier(c))),
            None => None,
        };
        let mut r: Vec<MemoryEntry> = Vec::new();
        let mut i: usize = 0;
        proof {
            reveal(Seq::filter);
            assert(entry_views(r@) =~= first_n(all.take(0).filter(keep), 1000).map_values(show));
        }
        while i < self.index.rows.len()
            invariant
                i <= self.index.rows@.len(),
                all == snow_views(self.index.rows@),
                keep == (|m: SnowView|
                    match category {
                        Some(c) => rank(m.tier) == rank(tier_of_category(c@)),
                        None => true,
                    }),
                wanted_rank == (match category {
                    Some(c) => Some(rank(tier_of_category(c@))),
                    None => None,
                }),
                show == (|m: SnowView| entry_of(m, None)),
                r@.len() <= 1000,
                entry_views(r@) == first_n(all.take(i as int).filter(keep), 1000).map_values(show),
            decreases self.index.rows.len() - i,
        {
            let ghost kept = all.take(i as int).filter(keep);
            proof {
                reveal(Seq::filter);
                assert(all.take(i + 1).drop_last() =~= all.take(i as int));
                assert(all.take(i + 1).last() == all[i as int]);
                assert(entry_views(r@).len() == r@.len());
            }
            let listed = match wanted_rank {
                Some(n) => tier_rank(&self.index.rows[i].tier) == n,
                None => true,
            };
            if listed {
                let ghost more = kept.push(all[i as int]);
                assert(all.take(i + 1).filter(keep) =~= more);
                if r.len() < 1000 {
                    let ghost before = r@;
                    r.push(snow_to_entry(&self.index.rows[i], None));
                    proof {
                        assert(entry_views(r@) =~= entry_views(before).push(show(all[i as int])));
                        assert(first_n(more, 1000) =~= more);
                        assert(more.map_values(show) =~= kept.map_values(show).push(
                            show(all[i as int]),
                        ));
                    }
                } else {
                    assert(first_n(more, 1000) =~= first_n(kept, 1000));
                }
            } else {
                assert(all.take(i + 1).filter(keep) =~= kept);
            }
            i = i + 1;
        }
        assert(all.take(i as int) =~= all);
        r
    }

    /// Forgets all memories under a key. Tells whether there were any.
    pub fn forget(&mut self, key: &str) -> (r: bool)
        ensures
            final(self).index@ == old(self).index@.filter(|m: SnowView| m.topic != key@),
            r == (newest_on(old(self).index@, key@) is Some),
            old(self).index.well_formed() ==> final(self).index.well_formed(),
            final(self).config == old(self).config,
            final(self).relay_secret == old(self).relay_secret,
            final(self).last_sync == old(self).last_sync,
    {
        self.index.delete_by_topic(key)
    }

    /// The number of memories.
    pub fn count(&self) -> (r: usize)
        ensures
            r == self.index@.len(),
    {
        self.index.rows.len()
    }

    /// Gives the newest memory under a key a tier that may be seen farther, as a new version of it,
    /// and gives it back for sharing. Anything else is refused and changes nothing.
    pub fn promote(&mut self, key: &str, new_tier: MemoryTier, now: u64) -> (r: Result<
        SnowMemory,
        PromoteError,
    >)
        requires
            newest_on(old(self).index@, key@) matches Some(m) ==> m.version < u32::MAX,
        ensures
            match r {
                Ok(m) => {
                    &&& newest_on(old(self).index@, key@) matches Some(from)
                    &&& rank(from.tier) < rank(new_tier@)
                    &&& m@ == promoted(from, new_tier@, now)
                    &&& final(self).index@ == upserted(old(self).index@, m@)
                },
                Err(PromoteError::NotFound { key: k }) => {
                    &&& newest_on(old(self).index@, key@) is None
                    &&& k@ == key@
                    &&& final(self).index == old(self).index
                },
                Err(PromoteError::NotHigher { from, to }) => {
                    &&& newest_on(old(self).index@, key@) matches Some(m)
                    &&& rank(m.tier) >= rank(new_tier@)
                    &&& from@ == label(m.tier)
                    &&& to@ == label(new_tier@)
                    &&& final(self).index == old(self).index
                },
            },
            old(self).index.well_formed() ==> final(self).index@.len() == old(self).index@.len(),
            old(self).index.well_formed() ==> final(self).index.well_formed(),
            final(self).config == old(self).config,
            final(self).relay_secret == old(self).relay_secret,
            final(self).last_sync == old(self).last_sync,
    {
        let existing = match self.index.get_by_topic(key) {
            Some(m) => m,
            None => return Err(PromoteError::NotFound { key: key.to_owned() }),
        };
        if tier_rank(&new_tier) <= tier_rank(&existing.tier) {
            return Err(
                PromoteError::NotHigher {
                    from: tier_label(&existing.tier),
                    to: tier_label(&new_tier),
                },
            );
        }
        let mut memory = existing.clone();
        memory.tier = new_tier;
        memory.supersedes = Some(existing.id.clone());
        memory.version = existing.version + 1;
        memory.created_at = now;
        proof {
            if distinct_ids(self.index@) {
                promotion_keeps_count(self.index@, key@, memory@.tier, now);
            }
        }
        self.index.upsert(memory.clone());
        Ok(memory)
    }
}

/// The secret key under which memories are shared: none without relays, or where it does not read.
fn init_relay(config: &CollectiveMemoryConfig, nsec: Option<&str>) -> (r: Option<String>)
    ensures
        opt_text(r) == (if nsec is Some && config.relay_urls@.len() > 0 && secret_key_owner(
            nsec->0@,
        ) is Some {
            Some(nsec->0@)
        } else {
            None
        }),
{
    let nsec = match nsec {
        Some(n) => n,
        None => return None,
    };
    if config.relay_urls.len() == 0 {
        return None;
    }
    match key_of_secret(nsec) {
        Some(_) => Some(nsec.to_owned()),
        None => None,
    }
}

/// The parts of a content make it up again: a content with an empty line is its summary, the empty
/// line and its detail, and no empty line comes before; one without is its summary, with no detail.
pub proof fn parts_make_the_content(content: Seq<char>)
    ensures
        has_substring(content, "\n\n"@) ==> content == content_parts(content).0 + "\n\n"@
            + content_parts(content).1,
        has_substring(content, "\n\n"@) ==> forall|j: int|
            0 <= j < content_parts(content).0.len() ==> #[trigger] content.subrange(j, j + 2)
                != "\n\n"@,
        !has_substring(content, "\n\n"@) ==> content_parts(content).0 == content && content_parts(
            content,
        ).1.len() == 0,
{
    reveal_strlit("\n\n");
    found_first(content, "\n\n"@, 0);
    substrings_stand_between(content, "\n\n"@);
}

/// Whether a content ends at its first empty line.
pub open spec fn ends_at_empty_line(content: Seq<char>) -> bool {
    &&& content.len() >= 2
    &&& content.skip(content.len() - 2) == "\n\n"@
    &&& forall|j: int| 0 <= j < content.len() - 2 ==> #[trigger] content.subrange(j, j + 2) != "\n\n"@
}

/// What was stored reads back: after a memory was stored under a key, the newest memory under that
/// key is it, and its content is the content that was stored, unless that ended at its first empty
/// line; such a content loses the empty line.
pub proof fn stored_content_reads_back(
    rows: Seq<SnowView>,
    id: Seq<char>,
    tier: TierView,
    key: Seq<char>,
    content: Seq<char>,
    source: Seq<char>,
    now: u64,
)
    ensures
        ({
            let m = new_memory(id, tier, key, content, source, now);
            let found = newest_on(upserted(rows, m), key);
            let e = entry_of(found->0, None);
            &&& found is Some
            &&& e.id == id
            &&& e.key == key
            &&& e.timestamp == time_text(now as i64)
            &&& !ends_at_empty_line(content) ==> e.content == content
            &&& ends_at_empty_line(content) ==> e.content + "\n\n"@ == content
            &&& e.category == category_of_tier(tier)
            &&& e.score is None
            &&& e.session_id is None
            &&& found->0.tier == tier
            &&& found->0.source == source
            &&& found->0.version == 1
            &&& found->0.supersedes is None
            &&& found->0.created_at == now
        }),
{
    let m = new_memory(id, tier, key, content, source, now);
    stored_memory_is_found(rows, m);
    parts_make_the_content(content);
    reveal_strlit("\n\n");
    let e = entry_of(m, None);
    let parts = content_parts(content);
    if has_substring(content, "\n\n"@) {
        if parts.1.len() == 0 {
            assert(content =~= parts.0 + "\n\n"@);
            assert(content.skip(content.len() - 2) =~= "\n\n"@);
            assert(ends_at_empty_line(content));
        } else {
            if ends_at_empty_line(content) {
                let k = parts.0.len() as int;
                assert(content.subrange(k, k + 2) =~= "\n\n"@);
            }
        }
    } else {
        if ends_at_empty_line(content) {
            let k = content.len() - 2;
            assert(content.subrange(k, k + 2) =~= content.skip(k));
            assert(occurs_at(content, "\n\n"@, k));
        }
    }
}

/// After a memory was stored, the others with other ids are there as they were, in their order, and
/// it comes last.
pub proof fn others_stay_when_stored(rows: Seq<SnowView>, m: SnowView)
    ensures
        upserted(rows, m).len() > 0 && upserted(rows, m).last() == m,
        forall|r: SnowView|
            upserted(rows, m).contains(r) <==> r == m || rows.contains(r) && r.id != m.id,
        distinct_ids(rows) && (forall|i: int| 0 <= i < rows.len() ==> (#[trigger] rows[i]).id != m.id)
            ==> upserted(rows, m) == rows.push(m),
        forall|k: int|
            distinct_ids(rows) && 0 <= k < rows.len() && (#[trigger] rows[k]).id == m.id ==> upserted(
                rows,
                m,
            ) == rows.remove(k).push(m),
{
    let keep = |r: SnowView| r.id != m.id;
    let kept = rows.filter(keep);
    let after = upserted(rows, m);
    assert(after == kept.push(m));
    assert forall|r: SnowView| after.contains(r) <==> r == m || rows.contains(r) && r.id != m.id by {
        if after.contains(r) {
            let k = choose|k: int| 0 <= k < after.len() && after[k] == r;
            if k < kept.len() {
                assert(kept[k] == r);
                assert(kept.contains(r));
                rows.lemma_filter_contains_rev(keep, r);
                rows.lemma_filter_pred(keep, k);
            }
        }
        if r == m {
            assert(after[kept.len() as int] == r);
        } else if rows.contains(r) && r.id != m.id {
            let k = choose|k: int| 0 <= k < rows.len() && rows[k] == r;
            rows.lemma_filter_contains(keep, k);
            let j = choose|j: int| 0 <= j < kept.len() && kept[j] == r;
            assert(after[j] == r);
        }
    }
    if forall|i: int| 0 <= i < rows.len() ==> (#[trigger] rows[i]).id != m.id {
        assert forall|i: int| 0 <= i < rows.len() implies keep(#[trigger] rows[i]) by {}
        all_are_kept(rows, keep);
    }
    assert forall|k: int|
        distinct_ids(rows) && 0 <= k < rows.len() && (#[trigger] rows[k]).id == m.id implies after
        == rows.remove(k).push(m) by {
        others_are_kept(rows, m.id, k);
    }
}

/// The newest memory on a topic is the last of those on it.
pub proof fn newest_is_the_last(rows: Seq<SnowView>, topic: Seq<char>)
    ensures
        match newest_on(rows, topic) {
            Some(m) => exists|k: int|
                0 <= k < rows.len() && #[trigger] rows[k] == m && m.topic == topic && forall|j: int|
                    k < j < rows.len() ==> (#[trigger] rows[j]).topic != topic,
            None => forall|j: int| 0 <= j < rows.len() ==> (#[trigger] rows[j]).topic != topic,
        },
    decreases rows.len(),
{
    if rows.len() > 0 {
        let n = rows.len() - 1;
        if rows[n].topic == topic {
            assert(rows[n] == rows.last());
        } else {
            let rest = rows.drop_last();
            newest_is_the_last(rest, topic);
            assert(newest_on(rows, topic) == newest_on(rest, topic));
            if newest_on(rest, topic) is Some {
                let m = newest_on(rest, topic)->0;
                let k = choose|k: int|
                    0 <= k < rest.len() && #[trigger] rest[k] == m && m.topic == topic && forall|
                        j: int,
                    |
                        k < j < rest.len() ==> (#[trigger] rest[j]).topic != topic;
                assert(rows[k] == m);
                assert forall|j: int| k < j < rows.len() implies (#[trigger] rows[j]).topic
                    != topic by {
                    if j < n {
                        assert(rest[j].topic != topic);
                    }
                }
            } else {
                assert forall|j: int| 0 <= j < rows.len() implies (#[trigger] rows[j]).topic
                    != topic by {
                    if j < n {
                        assert(rest[j].topic != topic);
                    }
                }
            }
        }
    }
}

/// What is forgotten goes, and nothing else does.
pub proof fn forgetting_spares_the_rest(rows: Seq<SnowView>, topic: Seq<char>, r: SnowView)
    ensures
        rows.filter(|m: SnowView| m.topic != topic).contains(r) <==> rows.contains(r) && r.topic
            != topic,
{
    let keep = |m: SnowView| m.topic != topic;
    let kept = rows.filter(keep);
    if kept.contains(r) {
        let k = choose|k: int| 0 <= k < kept.len() && kept[k] == r;
        rows.lemma_filter_pred(keep, k);
        rows.lemma_filter_contains_rev(keep, r);
    }
    if rows.contains(r) && r.topic != topic {
        let k = choose|k: int| 0 <= k < rows.len() && rows[k] == r;
        rows.lemma_filter_contains(keep, k);
    }
}

/// Outside the main session a memory may be seen if it is public, or belongs to the group that is
/// talked in; nothing private is.
pub proof fn groups_see_their_own(tier: TierView, group: Option<Seq<char>>)
    ensures
        visible(tier, false, group) <==> tier is Public || (tier is Group && group is Some
            && tier->Group_0 == group->0),
        tier is Private ==> !visible(tier, false, group),
        tier is Public ==> visible(tier, false, group),
{
}

/// Private memories may be seen least far and public ones farthest, and tiers of one kind equally far.
pub proof fn tiers_are_ordered(a: Seq<char>, b: Seq<char>)
    ensures
        rank(TierView::Private(a)) < rank(TierView::Group(b)),
        rank(TierView::Group(a)) < rank(TierView::Public),
        rank(TierView::Private(a)) == rank(TierView::Private(b)),
        rank(TierView::Group(a)) == rank(TierView::Group(b)),
        label(TierView::Private(a)) == "private"@,
        label(TierView::Group(a)) == "group"@,
        label(TierView::Public) == "public"@,
{
}

/// The tier of what is stored: the words before and behind the first colon of the key decide where
/// it has one, and the category where it has none.
pub proof fn keys_choose_tiers(scope: Seq<char>, rest: Seq<char>, category: CategoryView)
    requires
        forall|i: int| 0 <= i < scope.len() ==> #[trigger] scope[i] != ':',
    ensures
        ({
            let t = store_tier(scope + seq![':'] + rest, category);
            &&& scope == "pref"@ || scope == "contact"@ || scope == "conv"@ ==> t
                == TierView::Private("self"@)
            &&& scope == "group"@ ==> t == TierView::Group(split_on(rest, ':')[0])
            &&& scope != "pref"@ && scope != "contact"@ && scope != "conv"@ && scope != "group"@ ==> t
                == TierView::Public
        }),
        ({
            let t = store_tier(scope, category);
            &&& category is Core ==> t == TierView::Public
            &&& category is Daily ==> t == TierView::Public
            &&& category is Conversation ==> t == TierView::Private("self"@)
            &&& category == CategoryView::Custom("group"@) ==> t == TierView::Group("default"@)
            &&& category is Custom && category->Custom_0 != "group"@ ==> t == TierView::Public
        }),
        tier_of_key(scope) == (if scope == "pref"@ || scope == "contact"@ || scope == "conv"@ {
            TierView::Private("self"@)
        } else if scope == "group"@ {
            TierView::Group("default"@)
        } else {
            TierView::Public
        }),
{
    reveal_strlit(":");
    reveal_strlit("pref");
    reveal_strlit("contact");
    reveal_strlit("conv");
    reveal_strlit("group");
    let key = scope + seq![':'] + rest;
    let k = scope.len() as int;
    assert(":"@ =~= seq![':']);
    assert(key.subrange(k, k + 1) =~= ":"@);
    assert(occurs_at(key, ":"@, k));
    find_char_is_first(key, ':');
    assert(key[k] == ':');
    assert forall|j: int| 0 <= j < k implies key[j] != ':' by {
        assert(key[j] == scope[j]);
    }
    assert(find_char(key, ':') == k);
    assert(key.take(k) =~= scope);
    assert(key.skip(k + 1) =~= rest);
    pieces_make_the_text(rest, ':');
    assert(split_on(key, ':') =~= seq![scope] + split_on(rest, ':'));
    assert("pref"@.len() != "group"@.len() && "contact"@.len() != "group"@.len() && "conv"@.len()
        != "group"@.len());
    if has_substring(scope, ":"@) {
        let i = choose|i: int| occurs_at(scope, ":"@, i);
        assert(scope.subrange(i, i + 1)[0] == scope[i]);
        assert(false);
    }
    find_char_is_first(scope, ':');
    assert(split_on(scope, ':') =~= seq![scope]);
}

/// The category under which a memory is handed out tells its tier.
pub proof fn categories_tell_tiers(a: TierView, b: TierView)
    ensures
        category_of_tier(a) is Core <==> a is Public,
        category_of_tier(a) is Conversation <==> a is Private,
        category_of_tier(a) is Custom <==> a is Group,
        a is Group ==> category_of_tier(a)->Custom_0 == "group:"@ + a->Group_0,
        a is Group && b is Group && category_of_tier(a) == category_of_tier(b) ==> a == b,
{
    if a is Group && b is Group && category_of_tier(a) == category_of_tier(b) {
        let x = "group:"@ + a->Group_0;
        let y = "group:"@ + b->Group_0;
        let n = "group:"@.len() as int;
        assert(x.skip(n) =~= a->Group_0);
        assert(y.skip(n) =~= b->Group_0);
    }
}

/// A promoted memory is the newest under its key, with the new tier, one version on, in place of the
/// memory that it was, with the same content.
pub proof fn promotion_replaces(rows: Seq<SnowView>, m: SnowView, tier: TierView, now: u64)
    requires
        newest_on(rows, m.topic) == Some(m),
        m.version < u32::MAX,
    ensures
        ({
            let p = promoted(m, tier, now);
            let after = upserted(rows, p);
            &&& newest_on(after, m.topic) == Some(p)
            &&& p.tier == tier
            &&& p.version == m.version + 1
            &&& p.supersedes == Some(m.id)
            &&& p.created_at == now
            &&& p.id == m.id
            &&& p.topic == m.topic
            &&& entry_of(p, None).content == entry_of(m, None).content
            &&& p.source == m.source && p.tags == m.tags && p.confidence == m.confidence
            &&& p.model == m.model && p.context == m.context
            &&& forall|r: SnowView| after.contains(r) ==> r == p || r.id != m.id
        }),
{
    let p = promoted(m, tier, now);
    stored_memory_is_found(rows, p);
    others_stay_when_stored(rows, p);
}

/// A memory is recalled only where it may be seen; without a setting all are; the order stays, and
/// where fewer are handed out than were asked for, none that may be seen is missing.
pub proof fn recalled_may_be_seen(
    results: Seq<(SnowView, u64)>,
    main: bool,
    group: Option<Seq<char>>,
    x: (SnowView, u64),
)
    ensures
        seen_in(results, Some((main, group))).contains(x) <==> results.contains(x) && (x.0.tier is Public
            || main || (x.0.tier is Group && group is Some && x.0.tier->Group_0 == group->0)),
        seen_in(results, None) == results,
        seen_in(results, Some((true, group))) == results,
{
    let s = Some((main, group));
    let keep = |r: (SnowView, u64)|
        match s {
            Some(s) => visible(r.0.tier, s.0, s.1),
            None => true,
        };
    let kept = results.filter(keep);
    if kept.contains(x) {
        let k = choose|k: int| 0 <= k < kept.len() && kept[k] == x;
        results.lemma_filter_pred(keep, k);
        results.lemma_filter_contains_rev(keep, x);
    }
    if results.contains(x) && keep(x) {
        let k = choose|k: int| 0 <= k < results.len() && results[k] == x;
        results.lemma_filter_contains(keep, k);
    }
    nothing_hidden(results, None);
    nothing_hidden(results, Some((true, group)));
}

proof fn nothing_hidden(
    results: Seq<(SnowView, u64)>,
    setting: Option<(bool, Option<Seq<char>>)>,
)
    requires
        setting matches Some(s) ==> s.0,
    ensures
        seen_in(results, setting) == results,
    decreases results.len(),
{
    reveal(Seq::filter);
    if results.len() > 0 {
        nothing_hidden(results.drop_last(), setting);
        assert(results.drop_last().push(results.last()) =~= results);
    }
}

/// Three times as many results are asked for where some may have to stay unseen, and as many as are
/// wanted where not; the agent's own memories are from its key where it has one, else from "self".
pub proof fn requests_and_sources(limit: int, secret: Seq<char>)
    ensures
        wanted(limit, true) == 3 * limit,
        wanted(limit, false) == limit,
        own_source(None) == "self"@,
        secret_key_owner(secret) is Some ==> Some(own_source(Some(secret))) == secret_key_owner(secret),
        secret_key_owner(secret) is None ==> own_source(Some(secret)) == "self"@,
{
}

} // verus!
