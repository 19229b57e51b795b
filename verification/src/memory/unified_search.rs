//! One list of what a search found in all kinds of memory.

use super::doc_index::{docs_found, search_docs, DocHit, DocTable};
use super::fts::{
    columns_of, found, fts_matches, fts_of, listed, or_nothing, row_of, search,
};
use super::message_index::{
    is_message_hit, message_columns, messages_found, search_messages, MessageHit, MessageRow,
    MessageTable,
};
use super::social::{npubs_found, search_social, SocialNpub, SocialTables};
use super::traits::{entry_views, EntryView, MemoryEntry};
use crate::order::{
    arranged, first_n, ranked, ranked_is_permutation, ranks_in_order, stable_order,
};
use crate::score::{rank_score, score_rank};
use crate::text::space::{is_blank, trimmed};
use crate::text::texts;
use vstd::prelude::*;

verus! {

/// The score of a hit without one: 0.0, as the bits of a 64-bit floating-point number.
pub const NO_SCORE: u64 = 0;

/// The score of a contact: 1.0, as the bits of a 64-bit floating-point number.
pub const SOCIAL_SCORE: u64 = 0x3FF0_0000_0000_0000;

/// Something that a search found.
#[derive(Debug)]
pub enum UnifiedHit {
    /// A memory.
    Memory(MemoryEntry),
    /// A contact.
    Social(SocialNpub),
    /// A message.
    Message(MessageHit),
    /// A piece of a document.
    Document(DocHit),
}

impl Clone for UnifiedHit {
    fn clone(&self) -> (r: Self)
        ensures
            r == *self,
    {
        match self {
            UnifiedHit::Memory(e) => UnifiedHit::Memory(e.clone()),
            UnifiedHit::Social(s) => UnifiedHit::Social(s.clone()),
            UnifiedHit::Message(m) => UnifiedHit::Message(m.clone()),
            UnifiedHit::Document(d) => UnifiedHit::Document(d.clone()),
        }
    }
}

/// The score of a hit, as the bits of a 64-bit floating-point number.
pub open spec fn score_of(h: UnifiedHit) -> u64 {
    match h {
        UnifiedHit::Memory(e) => match e.score {
            Some(s) => s,
            None => NO_SCORE,
        },
        UnifiedHit::Social(_) => SOCIAL_SCORE,
        UnifiedHit::Message(m) => m.score,
        UnifiedHit::Document(d) => d.score,
    }
}

impl UnifiedHit {
    /// The score, as the bits of a 64-bit floating-point number. Higher is better.
    pub fn score(&self) -> (r: u64)
        ensures
            r == score_of(*self),
    {
        match self {
            UnifiedHit::Memory(e) => match e.score {
                Some(s) => s,
                None => NO_SCORE,
            },
            UnifiedHit::Social(_) => SOCIAL_SCORE,
            UnifiedHit::Message(m) => m.score,
            UnifiedHit::Document(d) => d.score,
        }
    }

    /// The kind of memory in which it was found.
    pub fn source(&self) -> (r: &'static str)
        ensures
            r@ == (match *self {
                UnifiedHit::Memory(_) => "memory"@,
                UnifiedHit::Social(_) => "social"@,
                UnifiedHit::Message(_) => "message"@,
                UnifiedHit::Document(_) => "document"@,
            }),
    {
        match self {
            UnifiedHit::Memory(_) => "memory",
            UnifiedHit::Social(_) => "social",
            UnifiedHit::Message(_) => "message",
            UnifiedHit::Document(_) => "document",
        }
    }

    /// The text that is shown.
    pub fn snippet(&self) -> (r: &str)
        ensures
            r@ == (match *self {
                UnifiedHit::Memory(e) => e.content@,
                UnifiedHit::Social(s) => s.display_name@,
                UnifiedHit::Message(m) => m.content@,
                UnifiedHit::Document(d) => d.content@,
            }),
    {
        match self {
            UnifiedHit::Memory(e) => e.content.as_str(),
            UnifiedHit::Social(s) => s.display_name.as_str(),
            UnifiedHit::Message(m) => m.content.as_str(),
            UnifiedHit::Document(d) => d.content.as_str(),
        }
    }
}

/// All hits: memories, contacts, messages, documents.
pub open spec fn all_hits(
    memories: Seq<MemoryEntry>,
    social: Seq<SocialNpub>,
    messages: Seq<MessageHit>,
    docs: Seq<DocHit>,
) -> Seq<UnifiedHit> {
    memories.map_values(|e: MemoryEntry| UnifiedHit::Memory(e)) + social.map_values(
        |s: SocialNpub| UnifiedHit::Social(s),
    ) + messages.map_values(|m: MessageHit| UnifiedHit::Message(m)) + docs.map_values(
        |d: DocHit| UnifiedHit::Document(d),
    )
}

/// The places of hits in the order of their scores.
pub open spec fn ranks(hits: Seq<UnifiedHit>) -> Seq<i64> {
    Seq::new(hits.len(), |i: int| score_rank(score_of(hits[i])))
}

/// Whether `idx` puts hits in the order of their scores, the best first, and leaves those with the
/// same score in their order.
pub open spec fn best_first(hits: Seq<UnifiedHit>, idx: Seq<usize>) -> bool {
    ranked(ranks(hits), hits.len() as int, idx, true)
}

fn collect(
    memories: &Vec<MemoryEntry>,
    social: &Vec<SocialNpub>,
    messages: &Vec<MessageHit>,
    docs: &Vec<DocHit>,
) -> (r: Vec<UnifiedHit>)
    ensures
        r@ == all_hits(memories@, social@, messages@, docs@),
{
    let ghost want = all_hits(memories@, social@, messages@, docs@);
    let ghost a = memories@.len() as int;
    let ghost b = a + social@.len();
    let ghost c = b + messages@.len();
    let mut r: Vec<UnifiedHit> = Vec::new();
    let mut i: usize = 0;
    while i < memories.len()
        invariant
            i <= memories@.len(),
            want == all_hits(memories@, social@, messages@, docs@),
            r@ == want.take(i as int),
        decreases memories.len() - i,
    {
        r.push(UnifiedHit::Memory(memories[i].clone()));
        assert(r@ =~= want.take(i + 1));
        i = i + 1;
    }
    let mut i: usize = 0;
    while i < social.len()
        invariant
            i <= social@.len(),
            a == memories@.len(),
            want == all_hits(memories@, social@, messages@, docs@),
            r@ == want.take(a + i),
        decreases social.len() - i,
    {
        r.push(UnifiedHit::Social(social[i].clone()));
        assert(r@ =~= want.take(a + i + 1));
        i = i + 1;
    }
    let mut i: usize = 0;
    while i < messages.len()
        invariant
            i <= messages@.len(),
            b == memories@.len() + social@.len(),
            want == all_hits(memories@, social@, messages@, docs@),
            r@ == want.take(b + i),
        decreases messages.len() - i,
    {
        r.push(UnifiedHit::Message(messages[i].clone()));
        assert(r@ =~= want.take(b + i + 1));
        i = i + 1;
    }
    let mut i: usize = 0;
    while i < docs.len()
        invariant
            i <= docs@.len(),
            c == memories@.len() + social@.len() + messages@.len(),
            want == all_hits(memories@, social@, messages@, docs@),
            r@ == want.take(c + i),
        decreases docs.len() - i,
    {
        r.push(UnifiedHit::Document(docs[i].clone()));
        assert(r@ =~= want.take(c + i + 1));
        i = i + 1;
    }
    assert(r@ =~= want);
    r
}

/// The number of hits asked for in each kind of memory.
pub fn per_source_limit(limit: usize) -> (r: usize)
    requires
        limit * 2 <= usize::MAX,
    ensures
        r == limit * 2,
{
    limit * 2
}

/// The best of what was found in all kinds of memory, the best first; nothing for a blank query.
pub fn unified_recall(
    query: &str,
    limit: usize,
    memories: &Vec<MemoryEntry>,
    social: &Vec<SocialNpub>,
    messages: &Vec<MessageHit>,
    docs: &Vec<DocHit>,
) -> (r: Vec<UnifiedHit>)
    ensures
        trimmed(query@).len() == 0 ==> r@.len() == 0,
        trimmed(query@).len() > 0 ==> exists|idx: Seq<usize>| #[trigger]
            best_first(all_hits(memories@, social@, messages@, docs@), idx) && r@ == first_n(
                arranged(all_hits(memories@, social@, messages@, docs@), idx),
                limit as int,
            ),
        r@.len() <= limit,
        forall|i: int, j: int|
            0 <= i < j < r@.len() ==> score_rank(score_of(#[trigger] r@[i])) >= score_rank(
                score_of(#[trigger] r@[j]),
            ),
{
    if is_blank(query) {
        return Vec::new();
    }
    let hits = collect(memories, social, messages, docs);
    let n: usize = hits.len();
    let mut keys: Vec<i64> = Vec::new();
    let mut i: usize = 0;
    while i < n
        invariant
            i <= n,
            n == hits@.len(),
            keys@ == ranks(hits@).take(i as int),
        decreases n - i,
    {
        keys.push(rank_score(hits[i].score()));
        assert(keys@ =~= ranks(hits@).take(i + 1));
        i = i + 1;
    }
    assert(keys@ =~= ranks(hits@));
    let idx = stable_order(&keys, true);
    let ghost want = arranged(hits@, idx@);
    let m: usize = if n <= limit {
        n
    } else {
        limit
    };
    let mut r: Vec<UnifiedHit> = Vec::new();
    let mut j: usize = 0;
    while j < m
        invariant
            j <= m,
            m <= n,
            n == hits@.len(),
            ranked(ranks(hits@), n as int, idx@, true),
            want == arranged(hits@, idx@),
            r@ == want.take(j as int),
        decreases m - j,
    {
        r.push(hits[idx[j]].clone());
        assert(r@ =~= want.take(j + 1));
        j = j + 1;
    }
    proof {
        assert(r@ =~= first_n(want, limit as int));
        assert(best_first(hits@, idx@));
        assert forall|i: int, j: int| 0 <= i < j < r@.len() implies score_rank(
            score_of(#[trigger] r@[i]),
        ) >= score_rank(score_of(#[trigger] r@[j])) by {
            assert(crate::order::precedes(
                ranks(hits@),
                idx@[i] as int,
                idx@[j] as int,
                true,
            ));
        }
    }
    r
}

/// The columns of memories that are searched.
pub open spec fn memory_columns(entries: Seq<EntryView>) -> Seq<Seq<Seq<char>>> {
    Seq::new(entries.len(), |i: int| seq![entries[i].key, entries[i].content, ""@, ""@])
}

/// Whether hits are what a query finds among memories: each as it is stored, with its score.
pub open spec fn memories_found(
    entries: Seq<EntryView>,
    query: Seq<char>,
    limit: int,
    r: Seq<EntryView>,
) -> bool {
    exists|hits: Seq<(usize, u64)>|
        {
            &&& #[trigger] found(memory_columns(entries), query, limit, hits)
            &&& r.len() == hits.len()
            &&& forall|i: int|
                0 <= i < r.len() ==> #[trigger] r[i] == (EntryView {
                    score: Some(hits[i].1),
                    ..entries[hits[i].0 as int]
                })
        }
}

/// The columns of the memories, row by row, as they are searched.
pub fn memory_rows(entries: &Vec<MemoryEntry>) -> (r: Vec<Vec<String>>)
    ensures
        columns_of(r@) == memory_columns(entry_views(entries@)),
        forall|i: int| 0 <= i < r@.len() ==> (#[trigger] r@[i])@.len() == 4,
{
    let ghost all = entry_views(entries@);
    let mut rows: Vec<Vec<String>> = Vec::new();
    let mut i: usize = 0;
    while i < entries.len()
        invariant
            i <= entries@.len(),
            all == entry_views(entries@),
            rows@.len() == i,
            forall|k: int| 0 <= k < i ==> (#[trigger] rows@[k])@.len() == 4,
            forall|k: int| 0 <= k < i ==> texts((#[trigger] rows@[k])@) == memory_columns(all)[k],
        decreases entries.len() - i,
    {
        rows.push(row_of(entries[i].key.as_str(), entries[i].content.as_str(), "", ""));
        i = i + 1;
    }
    assert(columns_of(rows@) =~= memory_columns(all));
    rows
}

/// The memories at the positions of hits, each with its score.
pub fn memory_hits(entries: &Vec<MemoryEntry>, hits: &Vec<(usize, u64)>) -> (r: Vec<MemoryEntry>)
    requires
        forall|i: int| 0 <= i < hits@.len() ==> (#[trigger] hits@[i]).0 < entries@.len(),
    ensures
        r@.len() == hits@.len(),
        forall|i: int|
            0 <= i < r@.len() ==> (#[trigger] r@[i])@ == (EntryView {
                score: Some(hits@[i].1),
                ..entries@[hits@[i].0 as int]@
            }),
{
    let mut r: Vec<MemoryEntry> = Vec::new();
    let mut j: usize = 0;
    while j < hits.len()
        invariant
            j <= hits@.len(),
            forall|k: int| 0 <= k < hits@.len() ==> (#[trigger] hits@[k]).0 < entries@.len(),
            r@.len() == j,
            forall|k: int|
                0 <= k < j ==> (#[trigger] r@[k])@ == (EntryView {
                    score: Some(hits@[k].1),
                    ..entries@[hits@[k].0 as int]@
                }),
        decreases hits.len() - j,
    {
        assert(hits@[j as int].0 < entries@.len());
        let mut e = entries[hits[j].0].clone();
        e.score = Some(hits[j].1);
        r.push(e);
        j = j + 1;
    }
    r
}

/// Searches memories: their keys and contents. `None` where the search fails.
pub fn search_memories(entries: &Vec<MemoryEntry>, query: &str, limit: usize) -> (r: Option<
    Vec<MemoryEntry>,
>)
    ensures
        r matches Some(list) ==> memories_found(
            entry_views(entries@),
            query@,
            limit as int,
            entry_views(list@),
        ),
        fts_of(query@) is None ==> r is Some,
{
    let ghost all = entry_views(entries@);
    let rows = memory_rows(entries);
    match search(&rows, query, limit) {
        Some(hits) => {
            assert(found(memory_columns(all), query@, limit as int, hits@));
            assert forall|i: int| 0 <= i < hits@.len() implies (#[trigger] hits@[i]).0
                < entries@.len() by {
                assert(hits@[i].0 < memory_columns(all).len());
            }
            let r = memory_hits(entries, &hits);
            assert forall|i: int| 0 <= i < r@.len() implies #[trigger] entry_views(r@)[i] == (
            EntryView { score: Some(hits@[i].1), ..all[hits@[i].0 as int] }) by {
                assert(entry_views(r@)[i] == r@[i]@);
                assert(hits@[i].0 < entries@.len());
            }
            Some(r)
        },
        None => None,
    }
}

/// Tables that are searched together. A table may be missing.
pub struct SearchTables<'a> {
    pub memories: Option<&'a Vec<MemoryEntry>>,
    pub social: Option<&'a SocialTables>,
    pub messages: Option<&'a MessageTable>,
    pub docs: Option<&'a DocTable>,
}

/// Whether an outcome is what a search of memories gives: none where there is no table.
pub open spec fn memory_outcome(
    table: Option<&Vec<MemoryEntry>>,
    query: Seq<char>,
    limit: int,
    outcome: Option<Vec<MemoryEntry>>,
) -> bool {
    match outcome {
        Some(list) => table is Some && memories_found(
            entry_views(table->0@),
            query,
            limit,
            entry_views(list@),
        ),
        None => table is Some ==> fts_of(query) is Some,
    }
}

/// Whether an outcome is what a search of contacts gives: none where there is no table.
pub open spec fn social_outcome(
    table: Option<&SocialTables>,
    query: Seq<char>,
    limit: int,
    outcome: Option<Vec<SocialNpub>>,
) -> bool {
    match outcome {
        Some(list) => table is Some && npubs_found(
            table->0.npubs(),
            table->0.npub_keys(),
            query,
            limit,
            list@,
        ),
        None => table is Some ==> fts_of(query) is Some,
    }
}

/// Whether a hit is one of the messages of a table.
pub open spec fn is_stored(rows: Map<Seq<char>, MessageRow>, h: MessageHit) -> bool {
    exists|k: Seq<char>| #[trigger] rows.contains_key(k) && is_message_hit(h, rows[k], h.score)
}

/// Whether an outcome is what a search of messages gives: none where there is no table.
pub open spec fn message_outcome(
    table: Option<&MessageTable>,
    query: Seq<char>,
    limit: int,
    outcome: Option<Vec<MessageHit>>,
) -> bool {
    match outcome {
        Some(list) => table is Some && messages_found(
            table->0@,
            table->0.ids(),
            query,
            limit,
            list@,
        ) && forall|i: int| 0 <= i < list@.len() ==> is_stored(table->0@, #[trigger] list@[i]),
        None => table is Some ==> fts_of(query) is Some,
    }
}

/// Whether an outcome is what a search of documents gives: none where there is no table.
pub open spec fn doc_outcome(
    table: Option<&DocTable>,
    query: Seq<char>,
    limit: int,
    outcome: Option<Vec<DocHit>>,
) -> bool {
    match outcome {
        Some(list) => table is Some && docs_found(table->0@, query, limit, list@),
        None => table is Some ==> fts_of(query) is Some,
    }
}

/// Whether hits are the best of what searches gave, given their outcomes: the best first, and nothing
/// from a search that failed.
pub open spec fn best_of_outcomes(
    memories: Option<Vec<MemoryEntry>>,
    social: Option<Vec<SocialNpub>>,
    messages: Option<Vec<MessageHit>>,
    docs: Option<Vec<DocHit>>,
    limit: int,
    r: Seq<UnifiedHit>,
) -> bool {
    let all = all_hits(listed(memories), listed(social), listed(messages), listed(docs));
    exists|idx: Seq<usize>| #[trigger]
        best_first(all, idx) && r == first_n(arranged(all, idx), limit)
}

/// Whether hits are the best of what a search of all tables gave.
pub open spec fn best_of_all(
    t: SearchTables,
    query: Seq<char>,
    limit: int,
    r: Seq<UnifiedHit>,
) -> bool {
    exists|
        memories: Option<Vec<MemoryEntry>>,
        social: Option<Vec<SocialNpub>>,
        messages: Option<Vec<MessageHit>>,
        docs: Option<Vec<DocHit>>,
    |
        {
            &&& memory_outcome(t.memories, query, limit * 2, memories)
            &&& social_outcome(t.social, query, limit * 2, social)
            &&& message_outcome(t.messages, query, limit * 2, messages)
            &&& doc_outcome(t.docs, query, limit * 2, docs)
            &&& #[trigger] best_of_outcomes(memories, social, messages, docs, limit, r)
        }
}

fn found_messages(table: Option<&MessageTable>, query: &str, limit: usize) -> (r: Option<
    Vec<MessageHit>,
>)
    ensures
        message_outcome(table, query@, limit as int, r),
{
    match table {
        Some(t) => {
            let outcome = search_messages(t, query, limit);
            proof {
                if outcome is Some {
                    let list = outcome->0;
                    let ids = t.ids();
                    let hits = choose|hits: Seq<(usize, u64)>|
                        {
                            &&& #[trigger] found(
                                message_columns(t@, ids),
                                query@,
                                limit as int,
                                hits,
                            )
                            &&& list@.len() == hits.len()
                            &&& forall|i: int|
                                0 <= i < list@.len() ==> hits[i].0 < ids.len() && is_message_hit(
                                    #[trigger] list@[i],
                                    t@[ids[hits[i].0 as int]],
                                    hits[i].1,
                                )
                        };
                    assert forall|i: int| 0 <= i < list@.len() implies is_stored(
                        t@,
                        #[trigger] list@[i],
                    ) by {
                        let k = ids[hits[i].0 as int];
                        assert(ids.contains(k));
                        assert(t@.contains_key(k));
                    }
                }
            }
            outcome
        },
        None => None,
    }
}

/// The best of what searches gave, given their outcomes, the best first: a search that failed gave
/// nothing. Nothing for a blank query.
pub fn merge_outcomes(
    query: &str,
    limit: usize,
    memories: Option<Vec<MemoryEntry>>,
    social: Option<Vec<SocialNpub>>,
    messages: Option<Vec<MessageHit>>,
    docs: Option<Vec<DocHit>>,
) -> (r: Vec<UnifiedHit>)
    ensures
        trimmed(query@).len() == 0 ==> r@.len() == 0,
        trimmed(query@).len() > 0 ==> best_of_outcomes(
            memories,
            social,
            messages,
            docs,
            limit as int,
            r@,
        ),
        r@.len() <= limit,
        forall|i: int, j: int|
            0 <= i < j < r@.len() ==> score_rank(score_of(#[trigger] r@[i])) >= score_rank(
                score_of(#[trigger] r@[j]),
            ),
{
    unified_recall(
        query,
        limit,
        &or_nothing(memories),
        &or_nothing(social),
        &or_nothing(messages),
        &or_nothing(docs),
    )
}

/// Searches all tables for a query, and gives the best of what is found, the best first.
pub fn search_all(t: &SearchTables, query: &str, limit: usize) -> (r: Vec<UnifiedHit>)
    requires
        limit * 2 <= usize::MAX,
    ensures
        trimmed(query@).len() == 0 ==> r@.len() == 0,
        trimmed(query@).len() > 0 ==> best_of_all(*t, query@, limit as int, r@),
        r@.len() <= limit,
        forall|i: int, j: int|
            0 <= i < j < r@.len() ==> score_rank(score_of(#[trigger] r@[i])) >= score_rank(
                score_of(#[trigger] r@[j]),
            ),
        forall|i: int|
            0 <= i < r@.len() ==> (#[trigger] r@[i] matches UnifiedHit::Message(m) ==> t.messages
                is Some && is_stored(t.messages->0@, m)),
{
    let n = per_source_limit(limit);
    let memories: Option<Vec<MemoryEntry>> = match t.memories {
        Some(table) => search_memories(table, query, n),
        None => None,
    };
    let social: Option<Vec<SocialNpub>> = match t.social {
        Some(table) => search_social(table, query, n),
        None => None,
    };
    let messages = found_messages(t.messages, query, n);
    let docs: Option<Vec<DocHit>> = match t.docs {
        Some(table) => search_docs(table, query, n),
        None => None,
    };
    let ghost (a, b, c, d) = (memories, social, messages, docs);
    let r = merge_outcomes(query, limit, memories, social, messages, docs);
    proof {
        let all = all_hits(listed(a), listed(b), listed(c), listed(d));
        if trimmed(query@).len() > 0 {
            let idx = choose|idx: Seq<usize>| #[trigger]
                best_first(all, idx) && r@ == first_n(arranged(all, idx), limit as int);
            assert(best_of_outcomes(a, b, c, d, limit as int, r@));
            assert forall|i: int| 0 <= i < r@.len() implies (
            #[trigger] r@[i] matches UnifiedHit::Message(m) ==> t.messages is Some && is_stored(
                t.messages->0@,
                m,
            )) by {
                assert(r@[i] == all[idx[i] as int]);
                let p = idx[i] as int;
                let before = listed(a).len() + listed(b).len();
                if r@[i] is Message {
                    assert(all[p] == UnifiedHit::Message(listed(c)[p - before]));
                }
            }
        }
    }
    r
}

/// A hit has the score of what was found; a memory without one counts nothing, and a contact counts
/// one.
pub proof fn scores_of_hits(
    e: MemoryEntry,
    s: SocialNpub,
    m: MessageHit,
    d: DocHit,
)
    ensures
        e.score matches Some(x) ==> score_of(UnifiedHit::Memory(e)) == x,
        e.score is None ==> score_of(UnifiedHit::Memory(e)) == 0,
        score_of(UnifiedHit::Social(s)) == 0x3FF0_0000_0000_0000u64,
        score_of(UnifiedHit::Message(m)) == m.score,
        score_of(UnifiedHit::Document(d)) == d.score,
{
}

/// All that was found is among the hits, and nothing else.
pub proof fn hits_of_all_kinds(
    memories: Seq<MemoryEntry>,
    social: Seq<SocialNpub>,
    messages: Seq<MessageHit>,
    docs: Seq<DocHit>,
    h: UnifiedHit,
)
    ensures
        all_hits(memories, social, messages, docs).len() == memories.len() + social.len()
            + messages.len() + docs.len(),
        all_hits(memories, social, messages, docs).contains(h) <==> (match h {
            UnifiedHit::Memory(e) => memories.contains(e),
            UnifiedHit::Social(s) => social.contains(s),
            UnifiedHit::Message(m) => messages.contains(m),
            UnifiedHit::Document(d) => docs.contains(d),
        }),
{
    let all = all_hits(memories, social, messages, docs);
    let a = memories.len() as int;
    let b = a + social.len();
    let c = b + messages.len();
    if all.contains(h) {
        let i = choose|i: int| 0 <= i < all.len() && all[i] == h;
        if i < a {
            assert(h == UnifiedHit::Memory(memories[i]));
            assert(memories.contains(memories[i]));
        } else if i < b {
            assert(h == UnifiedHit::Social(social[i - a]));
            assert(social.contains(social[i - a]));
        } else if i < c {
            assert(h == UnifiedHit::Message(messages[i - b]));
            assert(messages.contains(messages[i - b]));
        } else {
            assert(h == UnifiedHit::Document(docs[i - c]));
            assert(docs.contains(docs[i - c]));
        }
    }
    match h {
        UnifiedHit::Memory(e) => {
            if memories.contains(e) {
                let i = choose|i: int| 0 <= i < memories.len() && memories[i] == e;
                assert(all[i] == h);
            }
        },
        UnifiedHit::Social(s) => {
            if social.contains(s) {
                let i = choose|i: int| 0 <= i < social.len() && social[i] == s;
                assert(all[a + i] == h);
            }
        },
        UnifiedHit::Message(m) => {
            if messages.contains(m) {
                let i = choose|i: int| 0 <= i < messages.len() && messages[i] == m;
                assert(all[b + i] == h);
            }
        },
        UnifiedHit::Document(d) => {
            if docs.contains(d) {
                let i = choose|i: int| 0 <= i < docs.len() && docs[i] == d;
                assert(all[c + i] == h);
            }
        },
    }
}

/// The best hits come first, as many as are asked for or all; each is one of those that were found,
/// and none that is left out has a better score than one that is handed out.
pub proof fn best_hits_are_handed_out(
    memories: Option<Vec<MemoryEntry>>,
    social: Option<Vec<SocialNpub>>,
    messages: Option<Vec<MessageHit>>,
    docs: Option<Vec<DocHit>>,
    limit: int,
    r: Seq<UnifiedHit>,
    i: int,
)
    requires
        best_of_outcomes(memories, social, messages, docs, limit, r),
        0 <= i < r.len(),
        0 <= limit,
        all_hits(listed(memories), listed(social), listed(messages), listed(docs)).len()
            <= usize::MAX,
    ensures
        ({
            let all = all_hits(listed(memories), listed(social), listed(messages), listed(docs));
            &&& r.len() == (if all.len() <= limit {
                all.len() as int
            } else {
                limit
            })
            &&& all.contains(r[i])
            &&& forall|j: int|
                i < j < r.len() ==> score_rank(score_of(r[i])) >= score_rank(score_of(#[trigger] r[j]))
            &&& forall|h: UnifiedHit| #[trigger]
                all.contains(h) && !r.contains(h) ==> score_rank(score_of(r[i])) >= score_rank(
                    score_of(h),
                )
        }),
{
    let all = all_hits(listed(memories), listed(social), listed(messages), listed(docs));
    let idx = choose|idx: Seq<usize>| #[trigger]
        best_first(all, idx) && r == first_n(arranged(all, idx), limit);
    let keys = ranks(all);
    let sorted = arranged(all, idx);
    ranked_is_permutation(keys, idx, true);
    assert(r[i] == sorted[i] && sorted[i] == all[idx[i] as int]);
    assert forall|j: int| i < j < r.len() implies score_rank(score_of(r[i])) >= score_rank(
        score_of(#[trigger] r[j]),
    ) by {
        ranks_in_order(keys, idx, i, j);
        assert(r[j] == all[idx[j] as int]);
    }
    assert forall|h: UnifiedHit| #[trigger] all.contains(h) && !r.contains(h) implies score_rank(
        score_of(r[i]),
    ) >= score_rank(score_of(h)) by {
        let p = choose|p: int| 0 <= p < all.len() && all[p] == h;
        assert(idx.contains(p as usize));
        let q = choose|q: int| 0 <= q < idx.len() && idx[q] == p as usize;
        assert(sorted[q] == h);
        if q < r.len() {
            assert(r[q] == h);
        } else {
            ranks_in_order(keys, idx, i, q);
        }
    }
}

/// The memories that a search finds are memories whose key or content matches, with a score.
pub proof fn found_memories_match(
    entries: Seq<EntryView>,
    query: Seq<char>,
    limit: int,
    r: Seq<EntryView>,
    i: int,
)
    requires
        memories_found(entries, query, limit, r),
        0 <= i < r.len(),
    ensures
        r.len() <= limit,
        fts_of(query) is Some,
        r[i].score is Some,
        fts_matches(seq![r[i].key, r[i].content, ""@, ""@], fts_of(query)->0),
        exists|k: int|
            0 <= k < entries.len() && (#[trigger] entries[k]).id == r[i].id && entries[k].key
                == r[i].key && entries[k].content == r[i].content && entries[k].category
                == r[i].category && entries[k].timestamp == r[i].timestamp && entries[k].session_id
                == r[i].session_id,
{
    let hits = choose|hits: Seq<(usize, u64)>|
        {
            &&& #[trigger] found(memory_columns(entries), query, limit, hits)
            &&& r.len() == hits.len()
            &&& forall|i: int|
                0 <= i < r.len() ==> #[trigger] r[i] == (EntryView {
                    score: Some(hits[i].1),
                    ..entries[hits[i].0 as int]
                })
        };
    let k = hits[i].0 as int;
    assert(entries[k].id == r[i].id);
    assert(memory_columns(entries)[k] =~= seq![r[i].key, r[i].content, ""@, ""@]);
}

/// A search without a table gives nothing, and one with a table fails only where the query has words
/// that the index must read.
pub proof fn searches_need_tables(
    t: SearchTables,
    query: Seq<char>,
    limit: int,
    memories: Option<Vec<MemoryEntry>>,
    social: Option<Vec<SocialNpub>>,
    messages: Option<Vec<MessageHit>>,
    docs: Option<Vec<DocHit>>,
)
    requires
        memory_outcome(t.memories, query, limit, memories),
        social_outcome(t.social, query, limit, social),
        message_outcome(t.messages, query, limit, messages),
        doc_outcome(t.docs, query, limit, docs),
    ensures
        t.memories is None ==> memories is None,
        t.social is None ==> social is None,
        t.messages is None ==> messages is None,
        t.docs is None ==> docs is None,
        fts_of(query) is None && t.memories is Some ==> memories is Some,
        fts_of(query) is None && t.social is Some ==> social is Some,
        fts_of(query) is None && t.messages is Some ==> messages is Some,
        fts_of(query) is None && t.docs is Some ==> docs is Some,
        memories is Some ==> memories_found(
            entry_views(t.memories->0@),
            query,
            limit,
            entry_views(memories->0@),
        ),
        social is Some ==> npubs_found(
            t.social->0.npubs(),
            t.social->0.npub_keys(),
            query,
            limit,
            social->0@,
        ),
        messages is Some ==> messages_found(
            t.messages->0@,
            t.messages->0.ids(),
            query,
            limit,
            messages->0@,
        ),
        docs is Some ==> docs_found(t.docs->0@, query, limit, docs->0@),
{
}

/// A message that is handed out stands in the table, with the score of the search.
pub proof fn stored_messages_are_of_the_table(rows: Map<Seq<char>, MessageRow>, h: MessageHit)
    ensures
        is_stored(rows, h) ==> exists|k: Seq<char>| #[trigger]
            rows.contains_key(k) && is_message_hit(h, rows[k], h.score),
        rows.dom() == Set::<Seq<char>>::empty() ==> !is_stored(rows, h),
{
}

} // verus!
