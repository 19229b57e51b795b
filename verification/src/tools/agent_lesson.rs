//! The tool that records lessons, and the table of lessons.

use super::traits::{done, failed, ResultView, ToolResult};
use crate::order::filter_holds;
use crate::text::number::{decimal_int, i64_text};
use crate::text::pattern::{has_substring, parts_are_held};
use crate::text::opt_text;
use crate::text::space::{is_blank, trimmed};
use vstd::prelude::*;

verus! {

/// A lesson that the agent has learned.
#[derive(Debug)]
pub struct Lesson {
    pub id: i64,
    pub content: String,
    pub created_at: i64,
    /// The event that published it, once it is published.
    pub nostr_event_id: Option<String>,
    pub published: bool,
}

/// What a `Lesson` says.
pub struct LessonView {
    pub id: i64,
    pub content: Seq<char>,
    pub created_at: i64,
    pub nostr_event_id: Option<Seq<char>>,
    pub published: bool,
}

impl View for Lesson {
    type V = LessonView;

    open spec fn view(&self) -> LessonView {
        LessonView {
            id: self.id,
            content: self.content@,
            created_at: self.created_at,
            nostr_event_id: opt_text(self.nostr_event_id),
            published: self.published,
        }
    }
}

/// The lessons, numbered in the order in which they were stored.
pub struct LessonTable {
    rows: Vec<Lesson>,
}

/// What lessons say.
pub open spec fn lesson_views(rows: Seq<Lesson>) -> Seq<LessonView> {
    Seq::new(rows.len(), |i: int| rows[i]@)
}

impl View for LessonTable {
    type V = Seq<LessonView>;

    closed spec fn view(&self) -> Seq<LessonView> {
        lesson_views(self.rows@)
    }
}

/// The lessons that are not published yet.
pub open spec fn unpublished(rows: Seq<LessonView>) -> Seq<LessonView> {
    rows.filter(|l: LessonView| !l.published)
}

/// The lessons after one was published.
pub open spec fn published(rows: Seq<LessonView>, id: i64, event: Seq<char>) -> Seq<LessonView> {
    rows.map_values(
        |l: LessonView|
            if l.id == id {
                LessonView { published: true, nostr_event_id: Some(event), ..l }
            } else {
                l
            },
    )
}

impl LessonTable {
    /// Lessons are numbered from one.
    #[verifier::type_invariant]
    spec fn numbered(self) -> bool {
        &&& self.rows@.len() < i64::MAX
        &&& forall|i: int| 0 <= i < self.rows@.len() ==> (#[trigger] self.rows@[i]).id == i + 1
    }

    /// An empty table.
    pub fn new() -> (r: Self)
        ensures
            r@ == Seq::<LessonView>::empty(),
    {
        let rows: Vec<Lesson> = Vec::new();
        assert(lesson_views(rows@) =~= Seq::<LessonView>::empty());
        LessonTable { rows }
    }

    /// Whether another lesson can be numbered.
    pub open spec fn has_room(&self) -> bool {
        self@.len() < i64::MAX - 1
    }
}

/// Stores a lesson. Gives its number.
pub fn store_lesson(t: &mut LessonTable, content: &str, now: i64) -> (r: i64)
    requires
        old(t).has_room(),
    ensures
        r == old(t)@.len() + 1,
        final(t)@ == old(t)@.push(
            LessonView {
                id: r,
                content: content@,
                created_at: now,
                nostr_event_id: None,
                published: false,
            },
        ),
{
    proof {
        use_type_invariant(&*t);
    }
    let ghost before = t.rows@;
    let mut rows: Vec<Lesson> = Vec::new();
    std::mem::swap(&mut rows, &mut t.rows);
    let id: i64 = rows.len() as i64 + 1;
    let row = Lesson {
        id,
        content: content.to_owned(),
        created_at: now,
        nostr_event_id: None,
        published: false,
    };
    rows.push(row);
    assert(lesson_views(rows@) =~= lesson_views(before).push(row@));
    t.rows = rows;
    id
}

/// The lessons that are not published yet: number, content and time.
pub fn fetch_unpublished(t: &LessonTable) -> (r: Vec<(i64, String, i64)>)
    ensures
        Seq::new(r@.len(), |i: int| (r@[i].0, r@[i].1@, r@[i].2)) == unpublished(t@).map_values(
            |l: LessonView| (l.id, l.content, l.created_at),
        ),
{
    let ghost all = t@;
    let ghost keep = |l: LessonView| !l.published;
    let ghost show = |l: LessonView| (l.id, l.content, l.created_at);
    let mut r: Vec<(i64, String, i64)> = Vec::new();
    let mut i: usize = 0;
    proof {
        reveal(Seq::filter);
        assert(Seq::new(r@.len(), |i: int| (r@[i].0, r@[i].1@, r@[i].2)) =~= all.take(0).filter(
            keep,
        ).map_values(show));
    }
    while i < t.rows.len()
        invariant
            i <= t.rows@.len(),
            all == lesson_views(t.rows@),
            keep == (|l: LessonView| !l.published),
            show == (|l: LessonView| (l.id, l.content, l.created_at)),
            Seq::new(r@.len(), |i: int| (r@[i].0, r@[i].1@, r@[i].2)) == all.take(i as int).filter(
                keep,
            ).map_values(show),
        decreases t.rows.len() - i,
    {
        let ghost found = all.take(i as int).filter(keep);
        proof {
            reveal(Seq::filter);
            assert(all.take(i + 1).drop_last() =~= all.take(i as int));
            assert(all.take(i + 1).last() == all[i as int]);
        }
        if !t.rows[i].published {
            let ghost before = r@;
            r.push((t.rows[i].id, t.rows[i].content.clone(), t.rows[i].created_at));
            proof {
                let more = found.push(all[i as int]);
                assert(all.take(i + 1).filter(keep) =~= more);
                assert(more.map_values(show) =~= found.map_values(show).push(show(all[i as int])));
                assert(Seq::new(r@.len(), |i: int| (r@[i].0, r@[i].1@, r@[i].2)) =~= Seq::new(
                    before.len(),
                    |i: int| (before[i].0, before[i].1@, before[i].2),
                ).push(show(all[i as int])));
            }
        }
        i = i + 1;
    }
    assert(all.take(i as int) =~= all);
    r
}

/// Marks a lesson as published by an event. A number that no lesson has changes nothing.
pub fn mark_published(t: &mut LessonTable, id: i64, event_id: &str)
    ensures
        final(t)@ == published(old(t)@, id, event_id@),
{
    proof {
        use_type_invariant(&*t);
    }
    let ghost before = t.rows@;
    let ghost all = t@;
    if id < 1 || id as u64 > t.rows.len() as u64 {
        proof {
            assert forall|i: int| 0 <= i < all.len() implies (#[trigger] all[i]).id != id by {
                assert(before[i].id == i + 1);
            }
            assert(published(all, id, event_id@) =~= all);
        }
        return;
    }
    let mut rows: Vec<Lesson> = Vec::new();
    std::mem::swap(&mut rows, &mut t.rows);
    let at: usize = (id - 1) as usize;
    let mut row = rows.remove(at);
    row.published = true;
    row.nostr_event_id = Some(event_id.to_owned());
    rows.insert(at, row);
    proof {
        assert(rows@ =~= before.update(at as int, row));
        assert forall|i: int| 0 <= i < all.len() implies (#[trigger] lesson_views(rows@)[i])
            == published(all, id, event_id@)[i] by {
            assert(before[i].id == i + 1);
            assert(all[i] == before[i]@);
        }
        assert(lesson_views(rows@) =~= published(all, id, event_id@));
    }
    t.rows = rows;
}

/// A published lesson is not among those still to be published.
pub proof fn published_lesson_is_gone(rows: Seq<LessonView>, id: i64, event: Seq<char>, i: int)
    requires
        0 <= i < unpublished(published(rows, id, event)).len(),
    ensures
        unpublished(published(rows, id, event))[i].id != id,
{
    let all = published(rows, id, event);
    let keep = |l: LessonView| !l.published;
    all.lemma_filter_pred(keep, i);
    all.lemma_filter_contains_rev(keep, unpublished(all)[i]);
    let k = choose|k: int| 0 <= k < all.len() && all[k] == unpublished(all)[i];
    if rows[k].id == id {
        assert(all[k].published);
    }
}

/// What the tool answers to a lesson, once it is stored if it is.
pub open spec fn lesson_answer(lesson: Seq<char>, id: Option<i64>) -> ResultView {
    if trimmed(lesson).len() == 0 {
        failed("Lesson content cannot be empty"@)
    } else {
        match id {
            Some(n) => done(
                "Lesson recorded (id="@ + decimal_int(n as int)
                    + "). It will be published to the Nostr relay as a kind 4129 event."@,
            ),
            None => failed("Social database not available — lessons cannot be stored."@),
        }
    }
}

/// The tool that records lessons, in a table if there is one.
pub struct AgentLessonTool {
    pub table: Option<LessonTable>,
}

impl AgentLessonTool {
    /// Name of the tool.
    pub fn name(&self) -> (r: &'static str)
        ensures
            r@ == "agent_lesson"@,
    {
        "agent_lesson"
    }

    /// Records a lesson. A request without one is an error.
    pub fn execute(&mut self, lesson: Option<&str>, now: i64) -> (r: Result<ToolResult, &'static str>)
        requires
            old(self).table matches Some(t) ==> t.has_room(),
        ensures
            match lesson {
                Some(l) => {
                    let stored = old(self).table is Some && trimmed(l@).len() > 0;
                    let id = if old(self).table is Some {
                        Some((old(self).table->0@.len() + 1) as i64)
                    } else {
                        None
                    };
                    &&& r is Ok
                    &&& r->Ok_0@ == lesson_answer(l@, id)
                    &&& stored ==> final(self).table is Some && final(self).table->0@ == old(
                        self,
                    ).table->0@.push(
                        LessonView {
                            id: id->0,
                            content: l@,
                            created_at: now,
                            nostr_event_id: None,
                            published: false,
                        },
                    )
                    &&& !stored ==> final(self).table == old(self).table
                },
                None => r is Err && r->Err_0@ == "Missing 'lesson' parameter"@ && final(self).table
                    == old(self).table,
            },
    {
        let lesson = match lesson {
            Some(l) => l,
            None => return Err("Missing 'lesson' parameter"),
        };
        if is_blank(lesson) {
            return Ok(ToolResult::failed("Lesson content cannot be empty".to_owned()));
        }
        match &mut self.table {
            Some(t) => {
                let id = store_lesson(t, lesson, now);
                let mut output = String::from_str("Lesson recorded (id=");
                output.append(i64_text(id).as_str());
                output.append("). It will be published to the Nostr relay as a kind 4129 event.");
                Ok(ToolResult::done(output))
            },
            None => Ok(
                ToolResult::failed(
                    "Social database not available — lessons cannot be stored.".to_owned(),
                ),
            ),
        }
    }
}

/// What is still to be published: the lessons that are not, in their order. Marking one takes it off
/// and leaves the others as they are.
pub proof fn lessons_wait_to_be_published(
    rows: Seq<LessonView>,
    id: i64,
    event: Seq<char>,
    l: LessonView,
)
    ensures
        unpublished(rows).contains(l) <==> rows.contains(l) && !l.published,
        published(rows, id, event).len() == rows.len(),
        forall|i: int|
            0 <= i < rows.len() && (#[trigger] rows[i]).id != id ==> published(rows, id, event)[i]
                == rows[i],
        forall|i: int|
            0 <= i < rows.len() && (#[trigger] rows[i]).id == id ==> {
                let after = published(rows, id, event)[i];
                &&& after.published
                &&& after.nostr_event_id == Some(event)
                &&& after.content == rows[i].content
                &&& after.created_at == rows[i].created_at
                &&& after.id == id
            },
{
    filter_holds(rows, |l: LessonView| !l.published, l);
}

/// A blank lesson is refused; another is answered with its number, where there is a table for it.
pub proof fn lessons_are_answered(lesson: Seq<char>, n: i64)
    ensures
        trimmed(lesson).len() == 0 ==> !lesson_answer(lesson, Some(n)).success && !lesson_answer(
            lesson,
            None,
        ).success,
        trimmed(lesson).len() > 0 ==> lesson_answer(lesson, Some(n)).success && has_substring(
            lesson_answer(lesson, Some(n)).output,
            "(id="@ + decimal_int(n as int) + ")"@,
        ),
        trimmed(lesson).len() > 0 ==> !lesson_answer(lesson, None).success && lesson_answer(
            lesson,
            None,
        ).error is Some,
{
    if trimmed(lesson).len() > 0 {
        let a = "Lesson recorded "@;
        let b = "(id="@;
        let d = decimal_int(n as int);
        let e = ")"@;
        let c = ". It will be published to the Nostr relay as a kind 4129 event."@;
        let out = lesson_answer(lesson, Some(n)).output;
        reveal_strlit("Lesson recorded ");
        reveal_strlit("(id=");
        reveal_strlit("Lesson recorded (id=");
        reveal_strlit(")");
        reveal_strlit(". It will be published to the Nostr relay as a kind 4129 event.");
        reveal_strlit("). It will be published to the Nostr relay as a kind 4129 event.");
        assert(a + b =~= "Lesson recorded (id="@);
        assert(e + c =~= "). It will be published to the Nostr relay as a kind 4129 event."@);
        assert(out =~= a + (b + d + e) + c);
        parts_are_held(a, b + d + e, c);
    }
}

} // verus!
