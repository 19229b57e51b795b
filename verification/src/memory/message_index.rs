//! Which messages are kept for search, and the table of those kept.

use super::fts::{
    column, column_text, columns_of, found, fts_matches, fts_of, row_of, search,
};
use crate::text::space::{trim, trimmed};
use crate::text::{opt_str, opt_text, texts, to_chars};
use crate::text_map::{key_added, TextMap};
use vstd::prelude::*;

verus! {

/// A message that can be indexed.
#[derive(Debug)]
pub struct IndexableMessage {
    pub event_id: String,
    pub sender_hex: String,
    pub group_id: Option<String>,
    pub content: String,
    pub created_at: i64,
    pub kind: u32,
}

/// What an `IndexableMessage` says.
#[verifier::ext_equal]
pub struct MessageRow {
    pub event_id: Seq<char>,
    pub sender_hex: Seq<char>,
    pub group_id: Option<Seq<char>>,
    pub content: Seq<char>,
    pub created_at: i64,
    pub kind: u32,
}

impl View for IndexableMessage {
    type V = MessageRow;

    open spec fn view(&self) -> MessageRow {
        MessageRow {
            event_id: self.event_id@,
            sender_hex: self.sender_hex@,
            group_id: opt_text(self.group_id),
            content: self.content@,
            created_at: self.created_at,
            kind: self.kind,
        }
    }
}

impl Clone for IndexableMessage {
    fn clone(&self) -> (r: Self)
        ensures
            r == *self,
    {
        IndexableMessage {
            event_id: self.event_id.clone(),
            sender_hex: self.sender_hex.clone(),
            group_id: self.group_id.clone(),
            content: self.content.clone(),
            created_at: self.created_at,
            kind: self.kind,
        }
    }
}

/// A message that a search found.
#[derive(Debug)]
pub struct MessageHit {
    pub event_id: String,
    pub sender_hex: String,
    pub group_id: Option<String>,
    pub content: String,
    pub created_at: i64,
    pub kind: u32,
    /// How well it matched, as the bits of a 64-bit floating-point number.
    pub score: u64,
}

impl Clone for MessageHit {
    fn clone(&self) -> (r: Self)
        ensures
            r == *self,
    {
        MessageHit {
            event_id: self.event_id.clone(),
            sender_hex: self.sender_hex.clone(),
            group_id: self.group_id.clone(),
            content: self.content.clone(),
            created_at: self.created_at,
            kind: self.kind,
            score: self.score,
        }
    }
}

/// Whether and how a message is indexed.
#[derive(Debug, Clone, Copy, PartialEq, Eq, Structural)]
pub enum IndexDecision {
    /// Full index.
    Index,
    /// Keyword search only.
    CacheOnly,
    /// Not stored.
    Skip,
}

/// Shortest content that is fully indexed, in characters.
pub const MIN_INDEX_LENGTH: usize = 20;

/// Shortest content that is stored at all, in characters.
pub const MIN_CACHE_LENGTH: usize = 5;

/// Whether and how a message is indexed: reactions, reposts and very short messages are skipped;
/// direct messages, mentions and substantial content are indexed; what is between is cached.
pub open spec fn decision(
    content: Seq<char>,
    kind: u32,
    is_bot_mention: bool,
    is_dm: bool,
) -> IndexDecision {
    let n = trimmed(content).len();
    if kind == 7 || kind == 6 || n < MIN_CACHE_LENGTH {
        IndexDecision::Skip
    } else if is_dm || is_bot_mention || n >= MIN_INDEX_LENGTH {
        IndexDecision::Index
    } else {
        IndexDecision::CacheOnly
    }
}

/// Whether and how a message is indexed.
pub fn should_index_message(content: &str, kind: u32, is_bot_mention: bool, is_dm: bool) -> (r:
    IndexDecision)
    ensures
        r == decision(content@, kind, is_bot_mention, is_dm),
{
    let text = trim(content);
    let n: usize = to_chars(text.as_str()).len();
    if kind == 7 || kind == 6 || n == 0 {
        return IndexDecision::Skip;
    }
    if (is_dm || is_bot_mention) && n >= MIN_CACHE_LENGTH {
        return IndexDecision::Index;
    }
    if n >= MIN_INDEX_LENGTH {
        return IndexDecision::Index;
    }
    if n >= MIN_CACHE_LENGTH {
        return IndexDecision::CacheOnly;
    }
    IndexDecision::Skip
}

/// The table of indexed messages.
pub struct MessageTable {
    rows: TextMap<IndexableMessage>,
}

impl View for MessageTable {
    type V = Map<Seq<char>, MessageRow>;

    closed spec fn view(&self) -> Map<Seq<char>, MessageRow> {
        self.rows@.map_values(|m: IndexableMessage| m@)
    }
}

impl MessageTable {
    /// The ids of the messages, in the order in which they were first stored.
    pub closed spec fn ids(&self) -> Seq<Seq<char>> {
        self.rows.keys()
    }

    /// An empty table.
    pub fn new() -> (r: Self)
        ensures
            r@ == Map::<Seq<char>, MessageRow>::empty(),
            r.ids() == Seq::<Seq<char>>::empty(),
    {
        let r = MessageTable { rows: TextMap::new() };
        assert(r@ =~= Map::<Seq<char>, MessageRow>::empty());
        r
    }

    /// The message with an id.
    pub fn get(&self, event_id: &str) -> (r: Option<IndexableMessage>)
        ensures
            match r {
                Some(m) => self@.contains_key(event_id@) && m@ == self@[event_id@],
                None => !self@.contains_key(event_id@),
            },
    {
        match self.rows.get(event_id) {
            Some(m) => Some(m.clone()),
            None => None,
        }
    }
}

/// Stores a message under its id, in place of an earlier one.
pub fn index_message(t: &mut MessageTable, msg: &IndexableMessage)
    ensures
        final(t)@ == old(t)@.insert(msg@.event_id, msg@),
        final(t).ids() == key_added(old(t).ids(), msg@.event_id),
{
    let ghost before = t@;
    t.rows.insert(msg.event_id.clone(), msg.clone());
    assert(t@ =~= before.insert(msg@.event_id, msg@));
}

/// The columns of messages that are searched.
pub open spec fn message_columns(rows: Map<Seq<char>, MessageRow>, ids: Seq<Seq<char>>) -> Seq<
    Seq<Seq<char>>,
> {
    Seq::new(
        ids.len(),
        |i: int|
            seq![
                rows[ids[i]].content,
                rows[ids[i]].sender_hex,
                column(rows[ids[i]].group_id),
                ""@,
            ],
    )
}

/// Whether a hit is a row with a score.
pub open spec fn is_message_hit(h: MessageHit, row: MessageRow, score: u64) -> bool {
    &&& h.event_id@ == row.event_id
    &&& h.sender_hex@ == row.sender_hex
    &&& opt_text(h.group_id) == row.group_id
    &&& h.content@ == row.content
    &&& h.created_at == row.created_at
    &&& h.kind == row.kind
    &&& h.score == score
}

/// Whether hits are what a query finds among messages.
pub open spec fn messages_found(
    rows: Map<Seq<char>, MessageRow>,
    ids: Seq<Seq<char>>,
    query: Seq<char>,
    limit: int,
    r: Seq<MessageHit>,
) -> bool {
    exists|hits: Seq<(usize, u64)>|
        {
            &&& #[trigger] found(message_columns(rows, ids), query, limit, hits)
            &&& r.len() == hits.len()
            &&& forall|i: int|
                0 <= i < r.len() ==> hits[i].0 < ids.len() && is_message_hit(
                    #[trigger] r[i],
                    rows[ids[hits[i].0 as int]],
                    hits[i].1,
                )
        }
}

/// The columns of the messages, row by row, as they are searched.
pub fn message_rows(t: &MessageTable) -> (r: Vec<Vec<String>>)
    ensures
        columns_of(r@) == message_columns(t@, t.ids()),
        forall|i: int| 0 <= i < r@.len() ==> (#[trigger] r@[i])@.len() == 4,
{
    let n: usize = t.rows.len();
    let ghost ids = t.ids();
    let mut rows: Vec<Vec<String>> = Vec::new();
    let mut i: usize = 0;
    while i < n
        invariant
            i <= n,
            n == ids.len(),
            ids == t.rows.keys(),
            ids == t.ids(),
            rows@.len() == i,
            forall|k: int| 0 <= k < i ==> (#[trigger] rows@[k])@.len() == 4,
            forall|k: int|
                0 <= k < i ==> texts((#[trigger] rows@[k])@) == message_columns(t@, ids)[k],
        decreases n - i,
    {
        let entry = t.rows.entry_at(i);
        let m = entry.1;
        assert(t@[ids[i as int]] == m@);
        rows.push(
            row_of(m.content.as_str(), m.sender_hex.as_str(), column_text(&m.group_id), ""),
        );
        i = i + 1;
    }
    assert(columns_of(rows@) =~= message_columns(t@, ids));
    rows
}

/// The messages at the positions of hits, each with its score.
pub fn message_hits(t: &MessageTable, hits: &Vec<(usize, u64)>) -> (r: Vec<MessageHit>)
    requires
        forall|i: int| 0 <= i < hits@.len() ==> (#[trigger] hits@[i]).0 < t@.dom().len(),
    ensures
        r@.len() == hits@.len(),
        t.ids().len() == t@.dom().len(),
        forall|i: int|
            0 <= i < r@.len() ==> is_message_hit(
                #[trigger] r@[i],
                t@[t.ids()[hits@[i].0 as int]],
                hits@[i].1,
            ),
{
    let n: usize = t.rows.len();
    let ghost ids = t.ids();
    assert(t@.dom() =~= t.rows@.dom());
    let mut r: Vec<MessageHit> = Vec::new();
    let mut j: usize = 0;
    while j < hits.len()
        invariant
            j <= hits@.len(),
            n == ids.len(),
            ids == t.rows.keys(),
            ids == t.ids(),
            forall|k: int| 0 <= k < hits@.len() ==> (#[trigger] hits@[k]).0 < n,
            r@.len() == j,
            forall|k: int|
                0 <= k < j ==> is_message_hit(
                    #[trigger] r@[k],
                    t@[ids[hits@[k].0 as int]],
                    hits@[k].1,
                ),
        decreases hits.len() - j,
    {
        assert(hits@[j as int].0 < n);
        let entry = t.rows.entry_at(hits[j].0);
        let m = entry.1;
        assert(t@[ids[hits@[j as int].0 as int]] == m@);
        r.push(
            MessageHit {
                event_id: m.event_id.clone(),
                sender_hex: m.sender_hex.clone(),
                group_id: m.group_id.clone(),
                content: m.content.clone(),
                created_at: m.created_at,
                kind: m.kind,
                score: hits[j].1,
            },
        );
        j = j + 1;
    }
    r
}

/// Searches the messages. `None` where the search fails.
pub fn search_messages(t: &MessageTable, query: &str, limit: usize) -> (r: Option<Vec<MessageHit>>)
    ensures
        r matches Some(list) ==> messages_found(t@, t.ids(), query@, limit as int, list@),
        t.ids().no_duplicates(),
        forall|k: Seq<char>| #[trigger] t@.contains_key(k) == t.ids().contains(k),
        fts_of(query@) is None ==> r is Some,
{
    let n: usize = t.rows.len();
    let ghost columns = message_columns(t@, t.ids());
    proof {
        assert(t@.dom() =~= t.rows@.dom());
        assert forall|k: Seq<char>| #[trigger] t@.contains_key(k) == t.ids().contains(k) by {
            assert(t.rows@.contains_key(k) == t@.contains_key(k));
        }
    }
    let rows = message_rows(t);
    match search(&rows, query, limit) {
        Some(hits) => {
            assert(found(columns, query@, limit as int, hits@));
            assert forall|i: int| 0 <= i < hits@.len() implies (#[trigger] hits@[i]).0
                < t@.dom().len() by {
                assert(hits@[i].0 < columns.len());
            }
            Some(message_hits(t, &hits))
        },
        None => None,
    }
}

/// Number of indexed messages.
pub fn count_messages(t: &MessageTable) -> (r: usize)
    ensures
        r == t@.dom().len(),
        t@.dom().finite(),
{
    assert(t@.dom() =~= t.rows@.dom());
    t.rows.len()
}

/// Evaluates a message and stores it where it is worth it. Tells whether it was stored.
pub fn try_index_message(
    t: &mut MessageTable,
    event_id: &str,
    sender_hex: &str,
    group_id: Option<&str>,
    content: &str,
    created_at: i64,
    kind: u32,
    is_bot_mention: bool,
    is_dm: bool,
) -> (r: bool)
    ensures
        r == (decision(content@, kind, is_bot_mention, is_dm) != IndexDecision::Skip),
        final(t)@ == (if r {
            old(t)@.insert(
                event_id@,
                MessageRow {
                    event_id: event_id@,
                    sender_hex: sender_hex@,
                    group_id: opt_str(group_id),
                    content: content@,
                    created_at,
                    kind,
                },
            )
        } else {
            old(t)@
        }),
        final(t).ids() == (if r {
            key_added(old(t).ids(), event_id@)
        } else {
            old(t).ids()
        }),
{
    if should_index_message(content, kind, is_bot_mention, is_dm) == IndexDecision::Skip {
        return false;
    }
    let msg = IndexableMessage {
        event_id: event_id.to_owned(),
        sender_hex: sender_hex.to_owned(),
        group_id: crate::text::opt_owned(group_id),
        content: content.to_owned(),
        created_at,
        kind,
    };
    index_message(t, &msg);
    true
}

/// Direct messages and mentions that are long enough to be stored are always indexed.
pub proof fn addressed_messages_are_indexed(
    content: Seq<char>,
    kind: u32,
    is_bot_mention: bool,
    is_dm: bool,
)
    requires
        is_bot_mention || is_dm,
        kind != 6 && kind != 7,
        trimmed(content).len() >= MIN_CACHE_LENGTH,
    ensures
        decision(content, kind, is_bot_mention, is_dm) == IndexDecision::Index,
{
}

/// Reactions and reposts are never stored, nor is anything shorter than five characters; a message to
/// the agent is indexed, and any other if it has at least twenty characters.
pub proof fn what_is_indexed(content: Seq<char>, kind: u32, mention: bool, dm: bool)
    ensures
        kind == 6 || kind == 7 ==> decision(content, kind, mention, dm) == IndexDecision::Skip,
        trimmed(content).len() < 5 ==> decision(content, kind, mention, dm) == IndexDecision::Skip,
        kind != 6 && kind != 7 && trimmed(content).len() >= 5 && (mention || dm) ==> decision(
            content,
            kind,
            mention,
            dm,
        ) == IndexDecision::Index,
        kind != 6 && kind != 7 && trimmed(content).len() >= 20 ==> decision(content, kind, mention, dm)
            == IndexDecision::Index,
        kind != 6 && kind != 7 && 5 <= trimmed(content).len() < 20 && !mention && !dm ==> decision(
            content,
            kind,
            mention,
            dm,
        ) == IndexDecision::CacheOnly,
{
}

/// The messages that a search finds are stored messages that match by content, sender or group, each
/// with its own fields.
pub proof fn found_messages_match(
    rows: Map<Seq<char>, MessageRow>,
    ids: Seq<Seq<char>>,
    query: Seq<char>,
    limit: int,
    r: Seq<MessageHit>,
    i: int,
)
    requires
        messages_found(rows, ids, query, limit, r),
        0 <= i < r.len(),
    ensures
        r.len() <= limit,
        fts_of(query) is Some,
        exists|k: int|
            0 <= k < ids.len() && r[i].event_id@ == rows[#[trigger] ids[k]].event_id
                && r[i].sender_hex@ == rows[ids[k]].sender_hex && opt_text(r[i].group_id)
                == rows[ids[k]].group_id && r[i].content@ == rows[ids[k]].content && r[i].created_at
                == rows[ids[k]].created_at && r[i].kind == rows[ids[k]].kind,
        fts_matches(
            seq![r[i].content@, r[i].sender_hex@, column(opt_text(r[i].group_id)), ""@],
            fts_of(query)->0,
        ),
{
    let hits = choose|hits: Seq<(usize, u64)>|
        {
            &&& #[trigger] found(message_columns(rows, ids), query, limit, hits)
            &&& r.len() == hits.len()
            &&& forall|i: int|
                0 <= i < r.len() ==> hits[i].0 < ids.len() && is_message_hit(
                    #[trigger] r[i],
                    rows[ids[hits[i].0 as int]],
                    hits[i].1,
                )
        };
    let k = hits[i].0 as int;
    assert(is_message_hit(r[i], rows[ids[k]], hits[i].1));
    let cols = seq![r[i].content@, r[i].sender_hex@, column(opt_text(r[i].group_id)), ""@];
    assert(message_columns(rows, ids)[k] =~= cols);
    assert(ids[k] == ids[k]);
}

} // verus!
