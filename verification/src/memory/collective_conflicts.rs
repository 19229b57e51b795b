//! Memories on the same topic that come from different sources.

use super::collective::{snow_views, SnowMemory, SnowView};
use crate::order::{filter_holds, filter_map_holds};
use crate::text::{list_contains, str_eq, texts};
use vstd::prelude::*;

verus! {

/// Memories on one topic from different sources.
#[derive(Debug)]
pub struct MemoryConflict {
    pub topic: String,
    pub entries: Vec<ConflictEntry>,
}

/// One side of a conflict.
#[derive(Debug)]
pub struct ConflictEntry {
    pub memory_id: String,
    pub source: String,
    pub summary: String,
    /// How sure it is, as the bits of a 64-bit floating-point number.
    pub confidence: u64,
    pub created_at: u64,
    pub version: u32,
}

/// What a `ConflictEntry` says.
pub struct SideView {
    pub memory_id: Seq<char>,
    pub source: Seq<char>,
    pub summary: Seq<char>,
    pub confidence: u64,
    pub created_at: u64,
    pub version: u32,
}

impl View for ConflictEntry {
    type V = SideView;

    open spec fn view(&self) -> SideView {
        SideView {
            memory_id: self.memory_id@,
            source: self.source@,
            summary: self.summary@,
            confidence: self.confidence,
            created_at: self.created_at,
            version: self.version,
        }
    }
}

/// What a `MemoryConflict` says.
pub struct ConflictView {
    pub topic: Seq<char>,
    pub entries: Seq<SideView>,
}

impl View for MemoryConflict {
    type V = ConflictView;

    open spec fn view(&self) -> ConflictView {
        ConflictView {
            topic: self.topic@,
            entries: Seq::new(self.entries@.len(), |i: int| self.entries@[i]@),
        }
    }
}

/// The topics of memories, each once, in the order in which they first come.
pub open spec fn topics_of(mems: Seq<SnowView>) -> Seq<Seq<char>>
    decreases mems.len(),
{
    if mems.len() == 0 {
        Seq::empty()
    } else {
        let before = topics_of(mems.drop_last());
        if before.contains(mems.last().topic) {
            before
        } else {
            before.push(mems.last().topic)
        }
    }
}

/// The memories on a topic.
pub open spec fn on_topic(mems: Seq<SnowView>, topic: Seq<char>) -> Seq<SnowView> {
    mems.filter(|m: SnowView| m.topic == topic)
}

/// Whether memories come from different sources.
pub open spec fn sources_differ(mems: Seq<SnowView>) -> bool {
    exists|i: int, j: int|
        0 <= i < mems.len() && 0 <= j < mems.len() && (#[trigger] mems[i]).source != (
        #[trigger] mems[j]).source
}

/// One side of a conflict.
pub open spec fn side_of(m: SnowView) -> SideView {
    SideView {
        memory_id: m.id,
        source: m.source,
        summary: m.summary,
        confidence: m.confidence,
        created_at: m.created_at,
        version: m.version,
    }
}

/// The conflict on a topic, if there is one.
pub open spec fn conflict_on(mems: Seq<SnowView>, topic: Seq<char>) -> Option<ConflictView> {
    let found = on_topic(mems, topic);
    if sources_differ(found) {
        Some(
            ConflictView { topic, entries: found.map_values(|m: SnowView| side_of(m)) },
        )
    } else {
        None
    }
}

/// The conflicts among memories.
pub open spec fn conflicts_in(mems: Seq<SnowView>) -> Seq<ConflictView> {
    topics_of(mems).filter_map(|t: Seq<char>| conflict_on(mems, t))
}

/// What conflicts say.
pub open spec fn conflict_views(list: Seq<MemoryConflict>) -> Seq<ConflictView> {
    Seq::new(list.len(), |i: int| list[i]@)
}

fn collect_topics(mems: &Vec<SnowMemory>) -> (r: Vec<String>)
    ensures
        texts(r@) == topics_of(snow_views(mems@)),
{
    let ghost all = snow_views(mems@);
    let mut r: Vec<String> = Vec::new();
    let mut i: usize = 0;
    assert(texts(r@) =~= topics_of(all.take(0)));
    while i < mems.len()
        invariant
            i <= mems@.len(),
            all == snow_views(mems@),
            texts(r@) == topics_of(all.take(i as int)),
        decreases mems.len() - i,
    {
        proof {
            assert(all.take(i + 1).drop_last() =~= all.take(i as int));
            assert(all.take(i + 1).last() == all[i as int]);
        }
        if !list_contains(&r, mems[i].topic.as_str()) {
            let ghost before = r@;
            r.push(mems[i].topic.clone());
            assert(texts(r@) =~= texts(before).push(all[i as int].topic));
        }
        i = i + 1;
    }
    assert(all.take(i as int) =~= all);
    r
}

fn conflict_for(mems: &Vec<SnowMemory>, topic: &str) -> (r: Option<MemoryConflict>)
    ensures
        match r {
            Some(c) => conflict_on(snow_views(mems@), topic@) == Some(c@),
            None => conflict_on(snow_views(mems@), topic@) is None,
        },
{
    let ghost all = snow_views(mems@);
    let ghost keep = |m: SnowView| m.topic == topic@;
    let ghost side = |m: SnowView| side_of(m);
    let mut entries: Vec<ConflictEntry> = Vec::new();
    let mut differ = false;
    let mut i: usize = 0;
    proof {
        reveal(Seq::filter);
    }
    while i < mems.len()
        invariant
            i <= mems@.len(),
            all == snow_views(mems@),
            keep == (|m: SnowView| m.topic == topic@),
            entries@.len() == all.take(i as int).filter(keep).len(),
            forall|j: int|
                0 <= j < entries@.len() ==> (#[trigger] entries@[j])@ == side_of(
                    all.take(i as int).filter(keep)[j],
                ),
            differ == sources_differ(all.take(i as int).filter(keep)),
            !differ ==> forall|j: int|
                0 <= j < entries@.len() ==> (#[trigger] entries@[j]).source@
                    == entries@[0].source@,
        decreases mems.len() - i,
    {
        let ghost found = all.take(i as int).filter(keep);
        proof {
            reveal(Seq::filter);
            assert(all.take(i + 1).drop_last() =~= all.take(i as int));
            assert(all.take(i + 1).last() == all[i as int]);
        }
        if str_eq(mems[i].topic.as_str(), topic) {
            let ghost more = found.push(all[i as int]);
            let ghost was = differ;
            assert(all.take(i + 1).filter(keep) =~= more);
            if entries.len() > 0 && !str_eq(entries[0].source.as_str(), mems[i].source.as_str()) {
                differ = true;
                proof {
                    assert(more[0] == found[0]);
                    assert(entries@[0]@ == side_of(found[0]));
                    assert(more[0].source != more[more.len() - 1].source);
                }
            }
            let ghost before = entries@;
            entries.push(
                ConflictEntry {
                    memory_id: mems[i].id.clone(),
                    source: mems[i].source.clone(),
                    summary: mems[i].summary.clone(),
                    confidence: mems[i].confidence,
                    created_at: mems[i].created_at,
                    version: mems[i].version,
                },
            );
            proof {
                if was {
                    let (a, b) = choose|a: int, b: int|
                        0 <= a < found.len() && 0 <= b < found.len() && (#[trigger] found[a]).source
                            != (#[trigger] found[b]).source;
                    assert(more[a] == found[a] && more[b] == found[b]);
                }
                if !differ {
                    assert forall|a: int| 0 <= a < more.len() implies (#[trigger] more[a]).source
                        == more[0].source by {
                        if a < found.len() {
                            assert(before[a]@ == side_of(found[a]));
                            assert(before[0]@ == side_of(found[0]));
                            assert(before[a].source@ == before[0].source@);
                        }
                    }
                    assert(!sources_differ(more));
                }
                assert forall|j: int| 0 <= j < entries@.len() implies (#[trigger] entries@[j])@
                    == side_of(more[j]) by {
                    if j < before.len() {
                        assert(entries@[j] == before[j]);
                    }
                }
            }
        } else {
            assert(all.take(i + 1).filter(keep) =~= found);
        }
        i = i + 1;
    }
    assert(all.take(i as int) =~= all);
    if differ {
        let c = MemoryConflict { topic: topic.to_owned(), entries };
        assert(c@.entries =~= on_topic(all, topic@).map_values(side));
        Some(c)
    } else {
        None
    }
}

/// The conflicts among memories that match a topic: for each topic on which memories come from
/// different sources, those memories. Versions from one source are no conflict.
pub fn detect_conflicts(candidates: &Vec<SnowMemory>) -> (r: Vec<MemoryConflict>)
    ensures
        conflict_views(r@) == conflicts_in(snow_views(candidates@)),
{
    let ghost all = snow_views(candidates@);
    let topics = collect_topics(candidates);
    let ghost ts = texts(topics@);
    let ghost f = |t: Seq<char>| conflict_on(all, t);
    let mut r: Vec<MemoryConflict> = Vec::new();
    let mut i: usize = 0;
    assert(conflict_views(r@) =~= ts.take(0).filter_map(f));
    while i < topics.len()
        invariant
            i <= topics@.len(),
            all == snow_views(candidates@),
            ts == texts(topics@),
            f == (|t: Seq<char>| conflict_on(all, t)),
            conflict_views(r@) == ts.take(i as int).filter_map(f),
        decreases topics.len() - i,
    {
        proof {
            ts.lemma_filter_map_take_succ(f, i as int);
        }
        if let Some(c) = conflict_for(candidates, topics[i].as_str()) {
            let ghost before = r@;
            r.push(c);
            assert(conflict_views(r@) =~= conflict_views(before).push(c@));
        }
        assert(conflict_views(r@) =~= ts.take(i + 1).filter_map(f));
        i = i + 1;
    }
    assert(ts.take(i as int) =~= ts);
    r
}

/// Where all memories come from one source there is no conflict.
pub proof fn one_source_has_no_conflict(mems: Seq<SnowView>, source: Seq<char>)
    requires
        forall|i: int| 0 <= i < mems.len() ==> (#[trigger] mems[i]).source == source,
    ensures
        conflicts_in(mems).len() == 0,
{
    assert forall|t: Seq<char>| (#[trigger] conflict_on(mems, t)) is None by {
        let found = on_topic(mems, t);
        assert forall|i: int| 0 <= i < found.len() implies (#[trigger] found[i]).source == source by {
            mems.lemma_filter_contains_rev(|m: SnowView| m.topic == t, found[i]);
        }
    }
    let f = |t: Seq<char>| conflict_on(mems, t);
    if conflicts_in(mems).len() > 0 {
        let c = conflicts_in(mems)[0];
        assert(topics_of(mems).filter_map(f).contains(c));
        topics_of(mems).lemma_filter_map_contains(f, c);
        let t = choose|t: Seq<char>| #[trigger] topics_of(mems).contains(t) && f(t) == Some(c);
        assert(conflict_on(mems, t) is None);
    }
}

/// The topics of memories are those that a memory is on, and none comes twice.
pub proof fn topics_come_once(mems: Seq<SnowView>)
    ensures
        topics_of(mems).no_duplicates(),
        forall|t: Seq<char>|
            #[trigger] topics_of(mems).contains(t) <==> exists|i: int|
                0 <= i < mems.len() && (#[trigger] mems[i]).topic == t,
    decreases mems.len(),
{
    let all = topics_of(mems);
    if mems.len() > 0 {
        let rest = mems.drop_last();
        let before = topics_of(rest);
        let mine = mems.last().topic;
        topics_come_once(rest);
        assert forall|t: Seq<char>| #[trigger] all.contains(t) <==> exists|i: int|
            0 <= i < mems.len() && (#[trigger] mems[i]).topic == t by {
            if all.contains(t) {
                let k = choose|k: int| 0 <= k < all.len() && all[k] == t;
                if k < before.len() {
                    assert(before[k] == t);
                    assert(before.contains(t));
                    let i = choose|i: int| 0 <= i < rest.len() && (#[trigger] rest[i]).topic == t;
                    assert(mems[i] == rest[i]);
                } else {
                    assert(mems[mems.len() - 1].topic == t);
                }
            }
            if exists|i: int| 0 <= i < mems.len() && (#[trigger] mems[i]).topic == t {
                let i = choose|i: int| 0 <= i < mems.len() && (#[trigger] mems[i]).topic == t;
                if i < rest.len() {
                    assert(rest[i].topic == t);
                    assert(before.contains(t));
                    let k = choose|k: int| 0 <= k < before.len() && before[k] == t;
                    assert(all[k] == t);
                } else if !before.contains(mine) {
                    assert(all[before.len() as int] == t);
                }
            }
        }
        if !before.contains(mine) {
            assert forall|i: int, j: int| 0 <= i < all.len() && 0 <= j < all.len() && i
                != j implies all[i] != all[j] by {
                if i < before.len() {
                    assert(all[i] == before[i] && before.contains(before[i]));
                }
                if j < before.len() {
                    assert(all[j] == before[j] && before.contains(before[j]));
                }
            }
        }
    }
}

/// There is a conflict on a topic exactly if two memories on it come from different sources.
pub proof fn conflicts_are_found(mems: Seq<SnowView>, topic: Seq<char>)
    ensures
        (exists|c: ConflictView| #[trigger] conflicts_in(mems).contains(c) && c.topic == topic)
            <==> exists|a: SnowView, b: SnowView|
            #[trigger] mems.contains(a) && #[trigger] mems.contains(b) && a.topic == topic && b.topic
                == topic && a.source != b.source,
{
    let f = |t: Seq<char>| conflict_on(mems, t);
    let keep = |m: SnowView| m.topic == topic;
    let found = on_topic(mems, topic);
    if exists|c: ConflictView| #[trigger] conflicts_in(mems).contains(c) && c.topic == topic {
        let c = choose|c: ConflictView| #[trigger] conflicts_in(mems).contains(c) && c.topic == topic;
        topics_of(mems).lemma_filter_map_contains(f, c);
        let t = choose|t: Seq<char>| #[trigger] topics_of(mems).contains(t) && f(t) == Some(c);
        assert(conflict_on(mems, t) == Some(c));
        assert(t == topic);
        let (i, j) = choose|i: int, j: int|
            0 <= i < found.len() && 0 <= j < found.len() && (#[trigger] found[i]).source != (
            #[trigger] found[j]).source;
        assert(found.contains(found[i]) && found.contains(found[j]));
        filter_holds(mems, keep, found[i]);
        filter_holds(mems, keep, found[j]);
        assert(mems.contains(found[i]) && mems.contains(found[j]));
    }
    if exists|a: SnowView, b: SnowView|
        #[trigger] mems.contains(a) && #[trigger] mems.contains(b) && a.topic == topic && b.topic
            == topic && a.source != b.source {
        let (a, b) = choose|a: SnowView, b: SnowView|
            #[trigger] mems.contains(a) && #[trigger] mems.contains(b) && a.topic == topic && b.topic
                == topic && a.source != b.source;
        filter_holds(mems, keep, a);
        filter_holds(mems, keep, b);
        let i = choose|i: int| 0 <= i < found.len() && found[i] == a;
        let j = choose|j: int| 0 <= j < found.len() && found[j] == b;
        assert(found[i].source != found[j].source);
        assert(sources_differ(found));
        topics_come_once(mems);
        let k = choose|k: int| 0 <= k < mems.len() && mems[k] == a;
        assert(mems[k].topic == topic);
        assert(topics_of(mems).contains(topic));
        let c = conflict_on(mems, topic)->0;
        assert(f(topic) == Some(c));
        filter_map_holds(topics_of(mems), f, c);
        assert(conflicts_in(mems).contains(c));
    }
}

/// Whether one side of a conflict speaks of a memory.
pub open spec fn speaks_of(e: SideView, m: SnowView) -> bool {
    &&& e.memory_id == m.id
    &&& e.source == m.source
    &&& e.summary == m.summary
    &&& e.confidence == m.confidence
    &&& e.created_at == m.created_at
    &&& e.version == m.version
}

/// A conflict shows each memory on its topic with its own id, source, summary and version, and no
/// other.
pub proof fn conflicts_show_all_sides(mems: Seq<SnowView>, c: ConflictView, m: SnowView, k: int)
    requires
        conflicts_in(mems).contains(c),
    ensures
        mems.contains(m) && m.topic == c.topic ==> exists|k: int|
            0 <= k < c.entries.len() && speaks_of(#[trigger] c.entries[k], m),
        0 <= k < c.entries.len() ==> exists|m: SnowView|
            #[trigger] mems.contains(m) && m.topic == c.topic && speaks_of(c.entries[k], m),
{
    let f = |t: Seq<char>| conflict_on(mems, t);
    topics_of(mems).lemma_filter_map_contains(f, c);
    let t = choose|t: Seq<char>| #[trigger] topics_of(mems).contains(t) && f(t) == Some(c);
    assert(conflict_on(mems, t) == Some(c));
    let keep = |m: SnowView| m.topic == t;
    let found = on_topic(mems, t);
    let side = |m: SnowView| side_of(m);
    assert(c.entries == found.map_values(side));
    if mems.contains(m) && m.topic == c.topic {
        filter_holds(mems, keep, m);
        let k = choose|k: int| 0 <= k < found.len() && found[k] == m;
        assert(speaks_of(c.entries[k], m));
    }
    if 0 <= k < c.entries.len() {
        let x = found[k];
        assert(found.contains(x));
        filter_holds(mems, keep, x);
        assert(mems.contains(x) && speaks_of(c.entries[k], x));
    }
}

} // verus!
