//! Which events have been handled, and what was said in each direct conversation.

use super::nostr::history::last_n;
use super::recent::{entries_put, key_value, put_is_bounded_and_found, RecentTexts};
use crate::order::{
    arranged, filter_holds, filter_map_holds, numbers_in_order, ranked, stable_order,
};
use crate::text::str_eq;
use crate::text_map::TextMap;
use vstd::prelude::*;

verus! {

/// The number of event ids kept at hand.
pub const SEEN_CACHE_CAPACITY: usize = 2000;

/// The number of messages kept of each direct conversation where none is given.
pub const DEFAULT_DM_HISTORY_SIZE: usize = 20;

/// The number of days of which events are loaded at start.
pub const STARTUP_LOAD_DAYS: u64 = 3;

/// A message of a direct conversation.
#[derive(Debug)]
pub struct DmHistoryMessage {
    pub sender_hex: String,
    pub sender_name: String,
    pub content: String,
    pub timestamp: u64,
    pub event_id: String,
    pub is_outgoing: bool,
}

/// What a `DmHistoryMessage` says.
pub struct DmView {
    pub sender_hex: Seq<char>,
    pub sender_name: Seq<char>,
    pub content: Seq<char>,
    pub timestamp: u64,
    pub event_id: Seq<char>,
    pub is_outgoing: bool,
}

impl View for DmHistoryMessage {
    type V = DmView;

    open spec fn view(&self) -> DmView {
        DmView {
            sender_hex: self.sender_hex@,
            sender_name: self.sender_name@,
            content: self.content@,
            timestamp: self.timestamp,
            event_id: self.event_id@,
            is_outgoing: self.is_outgoing,
        }
    }
}

impl Clone for DmHistoryMessage {
    fn clone(&self) -> (r: Self)
        ensures
            r == *self,
    {
        DmHistoryMessage {
            sender_hex: self.sender_hex.clone(),
            sender_name: self.sender_name.clone(),
            content: self.content.clone(),
            timestamp: self.timestamp,
            event_id: self.event_id.clone(),
            is_outgoing: self.is_outgoing,
        }
    }
}

/// A row of the table of handled events.
#[derive(Debug)]
pub struct SeenEvent {
    pub event_id: String,
    pub kind: u16,
    pub sender: String,
    pub processed_at: i64,
}

/// What a `SeenEvent` says.
pub struct SeenView {
    pub event_id: Seq<char>,
    pub kind: u16,
    pub sender: Seq<char>,
    pub processed_at: i64,
}

impl View for SeenEvent {
    type V = SeenView;

    open spec fn view(&self) -> SeenView {
        SeenView {
            event_id: self.event_id@,
            kind: self.kind,
            sender: self.sender@,
            processed_at: self.processed_at,
        }
    }
}

/// The rows of the table of handled events.
pub open spec fn seen_rows(rows: Seq<SeenEvent>) -> Seq<SeenView> {
    Seq::new(rows.len(), |i: int| rows[i]@)
}

/// The rows of the table of direct messages.
pub open spec fn dm_rows(rows: Seq<DmHistoryMessage>) -> Seq<DmView> {
    Seq::new(rows.len(), |i: int| rows[i]@)
}

/// The handled events and the direct conversations: two tables, a cache of event ids in front of
/// the first, and the end of each conversation.
pub struct SeenEventsStore {
    pub seen: Vec<SeenEvent>,
    pub dms: Vec<DmHistoryMessage>,
    pub cache: RecentTexts,
    pub dm_history: TextMap<Vec<DmHistoryMessage>>,
    pub dm_history_size: usize,
}

/// Whether a row has the event id.
pub open spec fn has_id(rows: Seq<SeenView>, id: Seq<char>) -> bool {
    exists|i: int| 0 <= i < rows.len() && (#[trigger] rows[i]).event_id == id
}

/// The rows after one was inserted, unless its event has one.
pub open spec fn row_inserted(rows: Seq<SeenView>, row: SeenView) -> Seq<SeenView> {
    if has_id(rows, row.event_id) {
        rows
    } else {
        rows.push(row)
    }
}

/// A store as its operations see it.
pub struct StoreView {
    pub seen: Seq<SeenView>,
    pub dms: Seq<DmView>,
    pub cache: Seq<(Seq<char>, Seq<char>)>,
    pub limit: nat,
    pub history: Map<Seq<char>, Seq<DmView>>,
    pub size: usize,
}

/// The conversations by sender.
pub open spec fn conversations(m: Map<Seq<char>, Vec<DmHistoryMessage>>) -> Map<
    Seq<char>,
    Seq<DmView>,
> {
    m.map_values(|b: Vec<DmHistoryMessage>| dm_rows(b@))
}

impl View for SeenEventsStore {
    type V = StoreView;

    open spec fn view(&self) -> StoreView {
        StoreView {
            seen: seen_rows(self.seen@),
            dms: dm_rows(self.dms@),
            cache: self.cache.entries(),
            limit: self.cache.limit(),
            history: conversations(self.dm_history@),
            size: self.dm_history_size,
        }
    }
}

/// Whether an event has been handled: its id is at hand or in the table.
pub open spec fn known(s: StoreView, id: Seq<char>) -> bool {
    key_value(s.cache, id) is Some || has_id(s.seen, id)
}

/// The store after an event was looked up: an id found in the table is kept at hand.
pub open spec fn looked_up(s: StoreView, id: Seq<char>) -> StoreView {
    if key_value(s.cache, id) is None && has_id(s.seen, id) {
        cached(s, id)
    } else {
        s
    }
}

/// The store after an id was put at hand.
pub open spec fn cached(s: StoreView, id: Seq<char>) -> StoreView {
    StoreView { cache: entries_put(s.cache, s.limit, id, Seq::empty()), ..s }
}

/// The store after ids were put at hand in turn.
pub open spec fn all_cached(s: StoreView, ids: Seq<Seq<char>>) -> StoreView
    decreases ids.len(),
{
    if ids.len() == 0 {
        s
    } else {
        cached(all_cached(s, ids.drop_last()), ids.last())
    }
}

/// The store after a row of a handled event was inserted.
pub open spec fn recorded(s: StoreView, row: SeenView) -> StoreView {
    StoreView { seen: row_inserted(s.seen, row), ..s }
}

/// The store after rows of handled events were inserted in turn.
pub open spec fn all_recorded(s: StoreView, rows: Seq<SeenView>) -> StoreView
    decreases rows.len(),
{
    if rows.len() == 0 {
        s
    } else {
        recorded(all_recorded(s, rows.drop_last()), rows.last())
    }
}

/// The conversation with a sender.
pub open spec fn conversation(s: StoreView, sender: Seq<char>) -> Seq<DmView> {
    if s.history.contains_key(sender) {
        s.history[sender]
    } else {
        Seq::empty()
    }
}

/// The store after a message was added to its conversation, of which only the end is kept.
pub open spec fn said(s: StoreView, msg: DmView) -> StoreView {
    StoreView {
        history: s.history.insert(
            msg.sender_hex,
            last_n(conversation(s, msg.sender_hex).push(msg), s.size as nat),
        ),
        ..s
    }
}

/// The store after messages were added to their conversations in turn.
pub open spec fn all_said(s: StoreView, msgs: Seq<DmView>) -> StoreView
    decreases msgs.len(),
{
    if msgs.len() == 0 {
        s
    } else {
        said(all_said(s, msgs.drop_last()), msgs.last())
    }
}

/// One message as a line of context.
pub open spec fn dm_line(m: DmView) -> Seq<char> {
    "<"@ + (if m.is_outgoing {
        "you"@
    } else {
        m.sender_name
    }) + "> "@ + m.content + "\n"@
}

/// The lines of all messages but those with the id `exclude`.
pub open spec fn dm_lines(msgs: Seq<DmView>, exclude: Seq<char>) -> Seq<char>
    decreases msgs.len(),
{
    if msgs.len() == 0 {
        Seq::empty()
    } else if msgs.last().event_id == exclude {
        dm_lines(msgs.drop_last(), exclude)
    } else {
        dm_lines(msgs.drop_last(), exclude) + dm_line(msgs.last())
    }
}

/// A conversation as context: a heading, a line for each message, and an empty line; nothing where
/// there is no line.
pub open spec fn dm_context(msgs: Seq<DmView>, exclude: Seq<char>) -> Seq<char> {
    if dm_lines(msgs, exclude).len() == 0 {
        Seq::empty()
    } else {
        "[Recent DM conversation context]\n"@ + dm_lines(msgs, exclude) + "\n"@
    }
}

/// The ids of the events handled since `cutoff`.
pub open spec fn recent_ids(rows: Seq<SeenView>, cutoff: i64) -> Seq<Seq<char>> {
    rows.filter_map(
        |r: SeenView|
            if r.processed_at >= cutoff {
                Some(r.event_id)
            } else {
                None
            },
    )
}

/// Whether a direct message is loaded at start: it was sent since `cutoff`, and its time reads back
/// as it was written.
pub open spec fn loaded(m: DmView, cutoff: i64) -> bool {
    m.timestamp as i64 >= cutoff && m.timestamp as i64 >= 0
}

/// The direct messages that are loaded at start, as the table holds them.
pub open spec fn recent_dms(rows: Seq<DmView>, cutoff: i64) -> Seq<DmView> {
    rows.filter(|m: DmView| loaded(m, cutoff))
}

/// The times of messages.
pub open spec fn sent_at(msgs: Seq<DmView>) -> Seq<u64> {
    Seq::new(msgs.len(), |i: int| msgs[i].timestamp)
}

/// The time `days` days before `now`.
pub open spec fn days_before(now: u64, days: u64) -> i64 {
    (now - days * 86400) as u64 as i64
}

impl SeenEventsStore {
    /// An empty store that keeps the given number of messages of each conversation.
    pub fn new(dm_history_size: Option<usize>) -> (r: Self)
        ensures
            r@.seen == Seq::<SeenView>::empty(),
            r@.dms == Seq::<DmView>::empty(),
            r@.cache == Seq::<(Seq<char>, Seq<char>)>::empty(),
            r@.limit == SEEN_CACHE_CAPACITY,
            r@.history == Map::<Seq<char>, Seq<DmView>>::empty(),
            r@.size == (match dm_history_size {
                Some(n) => n,
                None => DEFAULT_DM_HISTORY_SIZE,
            }),
    {
        let size: usize = match dm_history_size {
            Some(n) => n,
            None => DEFAULT_DM_HISTORY_SIZE,
        };
        let r = SeenEventsStore {
            seen: Vec::new(),
            dms: Vec::new(),
            cache: RecentTexts::new(SEEN_CACHE_CAPACITY),
            dm_history: TextMap::new(),
            dm_history_size: size,
        };
        proof {
            assert(r@.seen =~= Seq::<SeenView>::empty());
            assert(r@.dms =~= Seq::<DmView>::empty());
            assert(r@.history =~= Map::<Seq<char>, Seq<DmView>>::empty());
        }
        r
    }

    fn in_table(&self, event_id: &str) -> (r: bool)
        ensures
            r == has_id(self@.seen, event_id@),
    {
        let ghost rows = self@.seen;
        let mut i: usize = 0;
        while i < self.seen.len()
            invariant
                i <= self.seen@.len(),
                rows == seen_rows(self.seen@),
                forall|j: int| 0 <= j < i ==> (#[trigger] rows[j]).event_id != event_id@,
            decreases self.seen.len() - i,
        {
            if str_eq(self.seen[i].event_id.as_str(), event_id) {
                assert(rows[i as int].event_id == event_id@);
                return true;
            }
            i = i + 1;
        }
        false
    }

    /// Whether an event has been handled: at hand first, then in the table.
    pub fn is_seen(&mut self, event_id: &str) -> (r: bool)
        ensures
            r == known(old(self)@, event_id@),
            final(self)@ == looked_up(old(self)@, event_id@),
    {
        if self.cache.contains(event_id) {
            return true;
        }
        if self.in_table(event_id) {
            self.cache.put(event_id.to_owned(), String::new());
            true
        } else {
            false
        }
    }

    fn insert_row(&mut self, row: SeenEvent)
        ensures
            final(self)@ == recorded(old(self)@, row@),
    {
        if !self.in_table(row.event_id.as_str()) {
            let ghost before = self.seen@;
            self.seen.push(row);
            assert(seen_rows(self.seen@) =~= seen_rows(before).push(row@));
        }
    }

    /// Marks an event as handled, at hand and in the table.
    pub fn mark_seen(&mut self, event_id: &str, kind: u16, sender: &str, now: u64)
        ensures
            final(self)@ == recorded(
                cached(old(self)@, event_id@),
                SeenView { event_id: event_id@, kind, sender: sender@, processed_at: now as i64 },
            ),
            known(final(self)@, event_id@),
    {
        self.cache.put(event_id.to_owned(), String::new());
        let row = SeenEvent {
            event_id: event_id.to_owned(),
            kind,
            sender: sender.to_owned(),
            processed_at: now as i64,
        };
        self.insert_row(row);
    }

    /// Marks events as handled: all at hand, then all in the table.
    pub fn mark_seen_batch(&mut self, events: &Vec<(String, u16, String)>, now: u64)
        ensures
            final(self)@ == all_recorded(
                all_cached(old(self)@, batch_ids(events@)),
                batch_rows(events@, now as i64),
            ),
    {
        let ghost start = self@;
        let ghost ids = batch_ids(events@);
        let ghost rows = batch_rows(events@, now as i64);
        let n: usize = events.len();
        let mut i: usize = 0;
        assert(ids.take(0) =~= Seq::<Seq<char>>::empty());
        while i < n
            invariant
                i <= n,
                n == events@.len(),
                ids == batch_ids(events@),
                self@ == all_cached(start, ids.take(i as int)),
            decreases n - i,
        {
            self.cache.put(events[i].0.clone(), String::new());
            proof {
                assert(ids.take(i + 1).drop_last() =~= ids.take(i as int));
                assert(ids.take(i + 1).last() == ids[i as int]);
            }
            i = i + 1;
        }
        let ghost mid = self@;
        assert(ids.take(n as int) =~= ids);
        let mut j: usize = 0;
        assert(rows.take(0) =~= Seq::<SeenView>::empty());
        while j < n
            invariant
                j <= n,
                n == events@.len(),
                rows == batch_rows(events@, now as i64),
                self@ == all_recorded(mid, rows.take(j as int)),
            decreases n - j,
        {
            let row = SeenEvent {
                event_id: events[j].0.clone(),
                kind: events[j].1,
                sender: events[j].2.clone(),
                processed_at: now as i64,
            };
            self.insert_row(row);
            proof {
                assert(rows.take(j + 1).drop_last() =~= rows.take(j as int));
                assert(rows.take(j + 1).last() == rows[j as int]);
            }
            j = j + 1;
        }
        assert(rows.take(n as int) =~= rows);
    }

    fn remember(&mut self, msg: DmHistoryMessage)
        ensures
            final(self)@ == said(old(self)@, msg@),
    {
        let ghost start = self@;
        let ghost before = self.dm_history@;
        let ghost kept = conversation(start, msg@.sender_hex);
        let key = msg.sender_hex.clone();
        let max: usize = self.dm_history_size;
        let mut buf: Vec<DmHistoryMessage> = match self.dm_history.remove(key.as_str()) {
            Some(b) => b,
            None => Vec::new(),
        };
        assert(dm_rows(buf@) =~= kept);
        buf.push(msg);
        assert(dm_rows(buf@) =~= kept.push(msg@));
        if buf.len() > max {
            let extra: usize = buf.len() - max;
            buf = buf.split_off(extra);
        }
        assert(dm_rows(buf@) =~= last_n(kept.push(msg@), max as nat));
        self.dm_history.insert(key, buf);
        proof {
            assert(self.dm_history@ =~= before.insert(msg@.sender_hex, buf));
            assert(self@.history =~= said(start, msg@).history);
        }
    }

    /// Adds a message to the table and to its conversation.
    pub fn push_dm_history(&mut self, msg: DmHistoryMessage)
        ensures
            final(self)@ == said(
                StoreView { dms: old(self)@.dms.push(msg@), ..old(self)@ },
                msg@,
            ),
            conversation(final(self)@, msg@.sender_hex).len() <= final(self)@.size,
    {
        let ghost before = self.dms@;
        self.dms.push(msg.clone());
        assert(dm_rows(self.dms@) =~= dm_rows(before).push(msg@));
        self.remember(msg);
    }

    /// The conversation with a sender as context, without the message whose id is given.
    pub fn format_dm_context(&self, sender_hex: &str, exclude_event_id: &str) -> (r: String)
        ensures
            r@ == dm_context(conversation(self@, sender_hex@), exclude_event_id@),
    {
        match self.dm_history.get(sender_hex) {
            Some(buf) => {
                let ghost all = dm_rows(buf@);
                let mut ctx = String::from_str("[Recent DM conversation context]\n");
                let mut has_content = false;
                let mut i: usize = 0;
                proof {
                    assert(all.take(0) =~= Seq::<DmView>::empty());
                    assert(ctx@ =~= "[Recent DM conversation context]\n"@ + dm_lines(
                        all.take(0),
                        exclude_event_id@,
                    ));
                }
                while i < buf.len()
                    invariant
                        i <= buf@.len(),
                        all == dm_rows(buf@),
                        ctx@ == "[Recent DM conversation context]\n"@ + dm_lines(
                            all.take(i as int),
                            exclude_event_id@,
                        ),
                        has_content == (dm_lines(all.take(i as int), exclude_event_id@).len() > 0),
                    decreases buf.len() - i,
                {
                    proof {
                        assert(all.take(i + 1).drop_last() =~= all.take(i as int));
                        assert(all.take(i + 1).last() == all[i as int]);
                    }
                    if !str_eq(buf[i].event_id.as_str(), exclude_event_id) {
                        let ghost before = ctx@;
                        ctx.append("<");
                        if buf[i].is_outgoing {
                            ctx.append("you");
                        } else {
                            ctx.append(buf[i].sender_name.as_str());
                        }
                        ctx.append("> ");
                        ctx.append(buf[i].content.as_str());
                        ctx.append("\n");
                        has_content = true;
                        proof {
                            reveal_strlit("<");
                            assert(ctx@ =~= before + dm_line(all[i as int]));
                            assert(dm_line(all[i as int]).len() > 0);
                            assert(ctx@ =~= "[Recent DM conversation context]\n"@ + dm_lines(
                                all.take(i + 1),
                                exclude_event_id@,
                            ));
                        }
                    }
                    i = i + 1;
                }
                assert(all.take(i as int) =~= all);
                if has_content {
                    ctx.append("\n");
                    ctx
                } else {
                    String::new()
                }
            },
            None => String::new(),
        }
    }

    /// Puts the events and conversations of the last days at hand, the conversations in the order in
    /// which they went.
    pub fn load_recent(&mut self, now: u64)
        requires
            now >= STARTUP_LOAD_DAYS * 86400,
        ensures
            exists|idx: Seq<usize>| #[trigger]
                load_order(old(self)@.dms, days_before(now, STARTUP_LOAD_DAYS), idx)
                    && final(self)@ == all_said(
                    all_cached(
                        old(self)@,
                        recent_ids(old(self)@.seen, days_before(now, STARTUP_LOAD_DAYS)),
                    ),
                    arranged(recent_dms(old(self)@.dms, days_before(now, STARTUP_LOAD_DAYS)), idx),
                ),
    {
        let cutoff: i64 = (now - STARTUP_LOAD_DAYS * 86400) as i64;
        let ghost start = self@;
        let ghost rows = start.seen;
        let ghost f = |r: SeenView|
            if r.processed_at >= cutoff {
                Some(r.event_id)
            } else {
                None
            };
        let n: usize = self.seen.len();
        let mut i: usize = 0;
        assert(recent_ids(rows.take(0), cutoff) =~= Seq::<Seq<char>>::empty());
        while i < n
            invariant
                i <= n,
                n == self.seen@.len(),
                rows == seen_rows(self.seen@),
                f == (|r: SeenView|
                    if r.processed_at >= cutoff {
                        Some(r.event_id)
                    } else {
                        None
                    }),
                self@ == all_cached(start, recent_ids(rows.take(i as int), cutoff)),
            decreases n - i,
        {
            let ghost ids = recent_ids(rows.take(i as int), cutoff);
            proof {
                rows.lemma_filter_map_take_succ(f, i as int);
            }
            if self.seen[i].processed_at >= cutoff {
                let id = self.seen[i].event_id.clone();
                self.cache.put(id, String::new());
                proof {
                    let more = recent_ids(rows.take(i + 1), cutoff);
                    assert(more =~= ids.push(rows[i as int].event_id));
                    assert(more.drop_last() =~= ids);
                }
            } else {
                assert(recent_ids(rows.take(i + 1), cutoff) =~= ids);
            }
            i = i + 1;
        }
        assert(rows.take(n as int) =~= rows);
        let ghost mid = self@;
        proof {
            all_cached_keeps(start, recent_ids(rows, cutoff));
        }
        let recent = self.recent_messages(cutoff);
        let ghost msgs = dm_rows(recent@);
        let m: usize = recent.len();
        let mut times: Vec<u64> = Vec::new();
        let mut k: usize = 0;
        while k < m
            invariant
                k <= m,
                m == recent@.len(),
                msgs == dm_rows(recent@),
                times@ == sent_at(msgs).take(k as int),
            decreases m - k,
        {
            times.push(recent[k].timestamp);
            assert(times@ =~= sent_at(msgs).take(k + 1));
            k = k + 1;
        }
        assert(times@ =~= sent_at(msgs));
        let idx = stable_order(&times, false);
        let ghost told = arranged(msgs, idx@);
        let mut j: usize = 0;
        assert(told.take(0) =~= Seq::<DmView>::empty());
        while j < m
            invariant
                j <= m,
                m == recent@.len(),
                m == idx@.len(),
                msgs == dm_rows(recent@),
                ranked(sent_at(msgs), m as int, idx@, false),
                told == arranged(msgs, idx@),
                self@ == all_said(mid, told.take(j as int)),
            decreases m - j,
        {
            let at = idx[j];
            self.remember(recent[at].clone());
            proof {
                assert(told.take(j + 1).drop_last() =~= told.take(j as int));
                assert(told.take(j + 1).last() == told[j as int]);
            }
            j = j + 1;
        }
        proof {
            assert(told.take(m as int) =~= told);
            assert(cutoff == days_before(now, STARTUP_LOAD_DAYS));
            assert(mid == all_cached(start, recent_ids(start.seen, cutoff)));
            assert(told == arranged(recent_dms(start.dms, cutoff), idx@));
            assert(load_order(start.dms, cutoff, idx@));
        }
    }

    fn recent_messages(&self, cutoff: i64) -> (r: Vec<DmHistoryMessage>)
        ensures
            dm_rows(r@) == recent_dms(self@.dms, cutoff),
    {
        let ghost all = self@.dms;
        let ghost keep = |m: DmView| loaded(m, cutoff);
        let mut r: Vec<DmHistoryMessage> = Vec::new();
        let mut i: usize = 0;
        proof {
            reveal(Seq::filter);
            assert(dm_rows(r@) =~= all.take(0).filter(keep));
        }
        while i < self.dms.len()
            invariant
                i <= self.dms@.len(),
                all == dm_rows(self.dms@),
                keep == (|m: DmView| loaded(m, cutoff)),
                dm_rows(r@) == all.take(i as int).filter(keep),
            decreases self.dms.len() - i,
        {
            proof {
                reveal(Seq::filter);
                assert(all.take(i + 1).drop_last() =~= all.take(i as int));
                assert(all.take(i + 1).last() == all[i as int]);
            }
            let at = self.dms[i].timestamp as i64;
            if at >= cutoff && at >= 0 {
                let ghost before = r@;
                r.push(self.dms[i].clone());
                assert(dm_rows(r@) =~= dm_rows(before).push(all[i as int]));
            }
            i = i + 1;
        }
        assert(all.take(i as int) =~= all);
        r
    }

    /// Drops the rows of both tables that are older than the given number of days.
    pub fn prune(&mut self, now: u64, older_than_days: u64)
        requires
            older_than_days * 86400 <= now,
        ensures
            final(self)@ == (StoreView {
                seen: old(self)@.seen.filter(
                    |r: SeenView| r.processed_at >= days_before(now, older_than_days),
                ),
                dms: old(self)@.dms.filter(
                    |m: DmView| m.timestamp as i64 >= days_before(now, older_than_days),
                ),
                ..old(self)@
            }),
    {
        let cutoff: i64 = (now - older_than_days * 86400) as i64;
        let ghost start = self@;
        let ghost all = start.seen;
        let ghost keep = |r: SeenView| r.processed_at >= cutoff;
        let mut seen: Vec<SeenEvent> = Vec::new();
        let mut i: usize = 0;
        proof {
            reveal(Seq::filter);
            assert(seen_rows(seen@) =~= all.take(0).filter(keep));
        }
        while i < self.seen.len()
            invariant
                i <= self.seen@.len(),
                self@ == start,
                all == seen_rows(self.seen@),
                keep == (|r: SeenView| r.processed_at >= cutoff),
                seen_rows(seen@) == all.take(i as int).filter(keep),
            decreases self.seen.len() - i,
        {
            proof {
                reveal(Seq::filter);
                assert(all.take(i + 1).drop_last() =~= all.take(i as int));
                assert(all.take(i + 1).last() == all[i as int]);
            }
            if self.seen[i].processed_at >= cutoff {
                let ghost before = seen@;
                let row = SeenEvent {
                    event_id: self.seen[i].event_id.clone(),
                    kind: self.seen[i].kind,
                    sender: self.seen[i].sender.clone(),
                    processed_at: self.seen[i].processed_at,
                };
                seen.push(row);
                assert(seen_rows(seen@) =~= seen_rows(before).push(all[i as int]));
            }
            i = i + 1;
        }
        assert(all.take(i as int) =~= all);
        let ghost all_dms = start.dms;
        let ghost keep_dm = |m: DmView| m.timestamp as i64 >= cutoff;
        let mut dms: Vec<DmHistoryMessage> = Vec::new();
        let mut j: usize = 0;
        proof {
            reveal(Seq::filter);
            assert(dm_rows(dms@) =~= all_dms.take(0).filter(keep_dm));
        }
        while j < self.dms.len()
            invariant
                j <= self.dms@.len(),
                self@ == start,
                all_dms == dm_rows(self.dms@),
                keep_dm == (|m: DmView| m.timestamp as i64 >= cutoff),
                dm_rows(dms@) == all_dms.take(j as int).filter(keep_dm),
            decreases self.dms.len() - j,
        {
            proof {
                reveal(Seq::filter);
                assert(all_dms.take(j + 1).drop_last() =~= all_dms.take(j as int));
                assert(all_dms.take(j + 1).last() == all_dms[j as int]);
            }
            if self.dms[j].timestamp as i64 >= cutoff {
                let ghost before = dms@;
                dms.push(self.dms[j].clone());
                assert(dm_rows(dms@) =~= dm_rows(before).push(all_dms[j as int]));
            }
            j = j + 1;
        }
        assert(all_dms.take(j as int) =~= all_dms);
        self.seen = seen;
        self.dms = dms;
    }
}

/// Whether `idx` puts the loaded messages in the order in which they were sent.
pub open spec fn load_order(rows: Seq<DmView>, cutoff: i64, idx: Seq<usize>) -> bool {
    let msgs = recent_dms(rows, cutoff);
    ranked(sent_at(msgs), msgs.len() as int, idx, false)
}

/// The ids of a batch.
pub open spec fn batch_ids(events: Seq<(String, u16, String)>) -> Seq<Seq<char>> {
    Seq::new(events.len(), |i: int| events[i].0@)
}

/// The rows of a batch.
pub open spec fn batch_rows(events: Seq<(String, u16, String)>, now: i64) -> Seq<SeenView> {
    Seq::new(
        events.len(),
        |i: int|
            SeenView {
                event_id: events[i].0@,
                kind: events[i].1,
                sender: events[i].2@,
                processed_at: now,
            },
    )
}

/// Putting ids at hand changes nothing else.
pub proof fn all_cached_keeps(s: StoreView, ids: Seq<Seq<char>>)
    ensures
        all_cached(s, ids) == (StoreView { cache: all_cached(s, ids).cache, ..s }),
    decreases ids.len(),
{
    if ids.len() > 0 {
        all_cached_keeps(s, ids.drop_last());
    }
}

/// An event that was recorded stays known, whatever ids are put at hand and whatever other events
/// are recorded afterwards: its row stands in the table though its id may leave the cache.
pub proof fn recorded_events_stay_known(
    s: StoreView,
    row: SeenView,
    ids: Seq<Seq<char>>,
    rows: Seq<SeenView>,
)
    ensures
        known(all_recorded(all_cached(recorded(s, row), ids), rows), row.event_id),
{
    let t = recorded(s, row);
    if has_id(s.seen, row.event_id) {
    } else {
        assert(t.seen[t.seen.len() - 1].event_id == row.event_id);
    }
    assert(has_id(t.seen, row.event_id));
    all_cached_keeps(t, ids);
    all_recorded_keeps(all_cached(t, ids), rows, row.event_id);
}

proof fn all_recorded_keeps(s: StoreView, rows: Seq<SeenView>, id: Seq<char>)
    requires
        has_id(s.seen, id),
    ensures
        has_id(all_recorded(s, rows).seen, id),
    decreases rows.len(),
{
    if rows.len() > 0 {
        all_recorded_keeps(s, rows.drop_last(), id);
        let t = all_recorded(s, rows.drop_last());
        let i = choose|i: int| 0 <= i < t.seen.len() && (#[trigger] t.seen[i]).event_id == id;
        assert(recorded(t, rows.last()).seen[i].event_id == id);
    }
}

/// An event is known exactly if it is at hand or in the table; looking it up changes neither that nor
/// the table.
pub proof fn known_events(s: StoreView, id: Seq<char>)
    requires
        0 < s.limit,
        s.cache.len() <= s.limit,
    ensures
        known(s, id) <==> key_value(s.cache, id) is Some || exists|i: int|
            0 <= i < s.seen.len() && (#[trigger] s.seen[i]).event_id == id,
        known(looked_up(s, id), id) <==> known(s, id),
        looked_up(s, id).seen == s.seen,
        looked_up(s, id).dms == s.dms,
        looked_up(s, id).history == s.history,
        has_id(s.seen, id) ==> key_value(looked_up(s, id).cache, id) is Some,
        key_value(cached(s, id).cache, id) is Some,
        cached(s, id).seen == s.seen && cached(s, id).history == s.history,
{
    put_is_bounded_and_found(s.cache, s.limit, id, Seq::empty());
}

/// A row of a handled event is inserted once: one with the same id stays as it is, and the rows that
/// were there stay in their places.
pub proof fn events_are_recorded_once(rows: Seq<SeenView>, row: SeenView, id: Seq<char>)
    ensures
        has_id(row_inserted(rows, row), id) <==> has_id(rows, id) || id == row.event_id,
        row_inserted(rows, row).len() >= rows.len(),
        forall|i: int| 0 <= i < rows.len() ==> #[trigger] row_inserted(rows, row)[i] == rows[i],
        has_id(rows, row.event_id) ==> row_inserted(rows, row) == rows,
        !has_id(rows, row.event_id) ==> row_inserted(rows, row).last() == row && row_inserted(
            rows,
            row,
        ).len() == rows.len() + 1,
{
    let after = row_inserted(rows, row);
    if has_id(rows, id) {
        let i = choose|i: int| 0 <= i < rows.len() && (#[trigger] rows[i]).event_id == id;
        assert(after[i].event_id == id);
    }
    if id == row.event_id && !has_id(rows, row.event_id) {
        assert(after[rows.len() as int].event_id == id);
    }
    if has_id(after, id) {
        let i = choose|i: int| 0 <= i < after.len() && (#[trigger] after[i]).event_id == id;
        if i < rows.len() {
            assert(rows[i].event_id == id);
        }
    }
}

/// After rows were inserted in turn, an event is in the table exactly if it was there or a row is of
/// it.
pub proof fn all_events_are_recorded(s: StoreView, rows: Seq<SeenView>, id: Seq<char>)
    ensures
        has_id(all_recorded(s, rows).seen, id) <==> has_id(s.seen, id) || exists|i: int|
            0 <= i < rows.len() && (#[trigger] rows[i]).event_id == id,
        all_recorded(s, rows).cache == s.cache,
        all_recorded(s, rows).history == s.history,
        all_recorded(s, rows).dms == s.dms,
    decreases rows.len(),
{
    if rows.len() > 0 {
        let rest = rows.drop_last();
        let n = rows.len() - 1;
        all_events_are_recorded(s, rest, id);
        events_are_recorded_once(all_recorded(s, rest).seen, rows[n], id);
        assert(rows.last() == rows[n]);
        if exists|i: int| 0 <= i < rest.len() && (#[trigger] rest[i]).event_id == id {
            let i = choose|i: int| 0 <= i < rest.len() && (#[trigger] rest[i]).event_id == id;
            assert(rows[i].event_id == id);
        }
        if exists|i: int| 0 <= i < rows.len() && (#[trigger] rows[i]).event_id == id {
            let i = choose|i: int| 0 <= i < rows.len() && (#[trigger] rows[i]).event_id == id;
            if i < n {
                assert(rest[i].event_id == id);
            }
        }
    }
}

/// The id that was put at hand last is at hand, and no table changes.
pub proof fn last_id_is_at_hand(s: StoreView, ids: Seq<Seq<char>>)
    requires
        0 < s.limit,
        s.cache.len() <= s.limit,
    ensures
        all_cached(s, ids).cache.len() <= s.limit,
        all_cached(s, ids).limit == s.limit,
        all_cached(s, ids).seen == s.seen,
        all_cached(s, ids).history == s.history,
        ids.len() > 0 ==> key_value(all_cached(s, ids).cache, ids.last()) is Some,
    decreases ids.len(),
{
    if ids.len() > 0 {
        let t = all_cached(s, ids.drop_last());
        last_id_is_at_hand(s, ids.drop_last());
        put_is_bounded_and_found(t.cache, t.limit, ids.last(), Seq::empty());
    }
}

/// A message goes to the end of its conversation, of which only the end is kept; other conversations
/// stay as they are.
pub proof fn messages_join_their_conversation(s: StoreView, m: DmView, other: Seq<char>)
    ensures
        ({
            let before = conversation(s, m.sender_hex);
            let after = conversation(said(s, m), m.sender_hex);
            &&& s.size > 0 ==> after.len() > 0 && after.last() == m
            &&& after.len() == (if before.len() + 1 <= s.size {
                before.len() + 1
            } else {
                s.size as nat
            })
            &&& forall|i: int|
                0 <= i < after.len() ==> #[trigger] after[i] == before.push(m)[before.len() + 1
                    - after.len() + i]
        }),
        other != m.sender_hex ==> conversation(said(s, m), other) == conversation(s, other),
        said(s, m).seen == s.seen && said(s, m).cache == s.cache && said(s, m).dms == s.dms,
        !s.history.contains_key(other) ==> conversation(s, other).len() == 0,
{
}

/// A message is a line with who said it, "you" where it was sent from here, and what was said.
pub proof fn lines_of_messages(m: DmView)
    ensures
        m.is_outgoing ==> dm_line(m) == "<you> "@ + m.content + "\n"@,
        !m.is_outgoing ==> dm_line(m) == "<"@ + m.sender_name + "> "@ + m.content + "\n"@,
{
    reveal_strlit("<");
    reveal_strlit("you");
    reveal_strlit("> ");
    reveal_strlit("<you> ");
    if m.is_outgoing {
        assert("<"@ + "you"@ + "> "@ =~= "<you> "@);
    }
}

/// Every message of a conversation has its line in the context, in order, but for the one that is left
/// out.
pub proof fn every_message_is_in_the_context(
    a: Seq<DmView>,
    m: DmView,
    b: Seq<DmView>,
    exclude: Seq<char>,
)
    ensures
        m.event_id != exclude ==> dm_lines(a.push(m) + b, exclude) == dm_lines(a, exclude) + dm_line(m)
            + dm_lines(b, exclude),
        m.event_id == exclude ==> dm_lines(a.push(m) + b, exclude) == dm_lines(a, exclude) + dm_lines(
            b,
            exclude,
        ),
        m.event_id != exclude ==> dm_context(a.push(m) + b, exclude)
            == "[Recent DM conversation context]\n"@ + dm_lines(a.push(m) + b, exclude) + "\n"@,
        dm_lines(Seq::empty(), exclude).len() == 0,
        dm_context(Seq::empty(), exclude).len() == 0,
    decreases b.len(),
{
    let all = a.push(m) + b;
    if b.len() == 0 {
        assert(all =~= a.push(m));
        assert(all.drop_last() =~= a);
        assert(dm_lines(b, exclude) =~= Seq::<char>::empty());
        if m.event_id != exclude {
            assert(dm_lines(all, exclude) =~= dm_lines(a, exclude) + dm_line(m) + dm_lines(
                b,
                exclude,
            ));
        } else {
            assert(dm_lines(all, exclude) =~= dm_lines(a, exclude) + dm_lines(b, exclude));
        }
    } else {
        every_message_is_in_the_context(a, m, b.drop_last(), exclude);
        assert(all.drop_last() =~= a.push(m) + b.drop_last());
        assert(all.last() == b.last());
        if m.event_id != exclude {
            assert(dm_lines(all, exclude) =~= dm_lines(a, exclude) + dm_line(m) + dm_lines(
                b,
                exclude,
            ));
        } else {
            assert(dm_lines(all, exclude) =~= dm_lines(a, exclude) + dm_lines(b, exclude));
        }
    }
    if m.event_id != exclude {
        reveal_strlit("\n");
        assert(dm_line(m).len() > 0);
    }
}

/// What is loaded at start: the ids of the events handled since a time, and the messages sent since
/// then whose time can be held.
pub proof fn recent_rows_are_loaded(
    rows: Seq<SeenView>,
    dms: Seq<DmView>,
    cutoff: i64,
    id: Seq<char>,
    m: DmView,
)
    ensures
        recent_ids(rows, cutoff).contains(id) <==> exists|i: int|
            0 <= i < rows.len() && (#[trigger] rows[i]).event_id == id && rows[i].processed_at
                >= cutoff,
        cutoff >= 0 ==> (recent_dms(dms, cutoff).contains(m) <==> dms.contains(m) && cutoff
            <= m.timestamp as i64),
        m.timestamp <= i64::MAX ==> m.timestamp as i64 == m.timestamp,
{
    let f = |r: SeenView|
        if r.processed_at >= cutoff {
            Some(r.event_id)
        } else {
            None
        };
    filter_map_holds(rows, f, id);
    if recent_ids(rows, cutoff).contains(id) {
        let x = choose|x: SeenView| #[trigger] rows.contains(x) && f(x) == Some(id);
        let i = choose|i: int| 0 <= i < rows.len() && rows[i] == x;
        assert(rows[i].event_id == id);
    }
    if exists|i: int|
        0 <= i < rows.len() && (#[trigger] rows[i]).event_id == id && rows[i].processed_at >= cutoff {
        let i = choose|i: int|
            0 <= i < rows.len() && (#[trigger] rows[i]).event_id == id && rows[i].processed_at
                >= cutoff;
        assert(rows.contains(rows[i]) && f(rows[i]) == Some(id));
    }
    filter_holds(dms, |m: DmView| loaded(m, cutoff), m);
}

/// Messages are loaded in the order in which they were sent, and all of them.
pub proof fn messages_are_loaded_in_order(
    rows: Seq<DmView>,
    cutoff: i64,
    idx: Seq<usize>,
    i: int,
    j: int,
)
    requires
        load_order(rows, cutoff, idx),
        0 <= i < j < idx.len(),
    ensures
        idx.len() == recent_dms(rows, cutoff).len(),
        recent_dms(rows, cutoff)[idx[i] as int].timestamp <= recent_dms(
            rows,
            cutoff,
        )[idx[j] as int].timestamp,
        idx[i] != idx[j],
{
    numbers_in_order(sent_at(recent_dms(rows, cutoff)), idx, i, j);
}

/// A time some days ago lies that many days before now.
pub proof fn days_ago(now: u64, days: u64)
    requires
        days * 86400 <= now <= i64::MAX,
    ensures
        days_before(now, days) + days * 24 * 60 * 60 == now,
{
}

/// A batch gives each event its id, its kind, its sender and the time at which it was handled.
pub proof fn batches_hold_their_events(events: Seq<(String, u16, String)>, now: i64, i: int)
    requires
        0 <= i < events.len(),
    ensures
        batch_ids(events).len() == events.len(),
        batch_rows(events, now).len() == events.len(),
        batch_ids(events)[i] == events[i].0@,
        batch_rows(events, now)[i].event_id == events[i].0@,
        batch_rows(events, now)[i].kind == events[i].1,
        batch_rows(events, now)[i].sender == events[i].2@,
        batch_rows(events, now)[i].processed_at == now,
{
}

} // verus!
