//! Nostr events as plain values, and what their tags say.

use crate::text::{str_eq, texts};
use vstd::prelude::*;

verus! {

/// A received event. Keys and ids are lower-case hex.
#[derive(Debug)]
pub struct NostrEvent {
    pub id: String,
    pub pubkey: String,
    pub kind: u16,
    pub created_at: u64,
    pub tags: Vec<Vec<String>>,
    pub content: String,
}

/// What a `NostrEvent` says.
pub struct EventView {
    pub id: Seq<char>,
    pub pubkey: Seq<char>,
    pub kind: u16,
    pub created_at: u64,
    pub tags: Seq<Seq<Seq<char>>>,
    pub content: Seq<char>,
}

impl View for NostrEvent {
    type V = EventView;

    open spec fn view(&self) -> EventView {
        EventView {
            id: self.id@,
            pubkey: self.pubkey@,
            kind: self.kind,
            created_at: self.created_at,
            tags: tag_texts(self.tags@),
            content: self.content@,
        }
    }
}

/// An event to be signed and published.
#[derive(Debug)]
pub struct EventDraft {
    pub kind: u16,
    pub tags: Vec<Vec<String>>,
    pub content: String,
}

/// What an `EventDraft` says.
pub struct DraftView {
    pub kind: u16,
    pub tags: Seq<Seq<Seq<char>>>,
    pub content: Seq<char>,
}

impl View for EventDraft {
    type V = DraftView;

    open spec fn view(&self) -> DraftView {
        DraftView { kind: self.kind, tags: tag_texts(self.tags@), content: self.content@ }
    }
}

/// The texts of a list of tags.
pub open spec fn tag_texts(tags: Seq<Vec<String>>) -> Seq<Seq<Seq<char>>> {
    Seq::new(tags.len(), |i: int| texts(tags[i]@))
}

/// Whether the first field of a tag is `name`.
pub open spec fn tag_named(tag: Seq<Seq<char>>, name: Seq<char>) -> bool {
    tag.len() > 0 && tag[0] == name
}

/// The value of the first tag called `name`, where that tag has one.
pub open spec fn first_value(tags: Seq<Seq<Seq<char>>>, name: Seq<char>) -> Option<Seq<char>>
    decreases tags.len(),
{
    if tags.len() == 0 {
        None
    } else if tag_named(tags[0], name) {
        if tags[0].len() > 1 {
            Some(tags[0][1])
        } else {
            None
        }
    } else {
        first_value(tags.skip(1), name)
    }
}

/// The value of the first tag called `name` that has one.
pub open spec fn any_value(tags: Seq<Seq<Seq<char>>>, name: Seq<char>) -> Option<Seq<char>>
    decreases tags.len(),
{
    if tags.len() == 0 {
        None
    } else if tag_named(tags[0], name) && tags[0].len() > 1 {
        Some(tags[0][1])
    } else {
        any_value(tags.skip(1), name)
    }
}

/// Whether some tag called `name` has the value `value`.
pub open spec fn has_pair(tags: Seq<Seq<Seq<char>>>, name: Seq<char>, value: Seq<char>) -> bool {
    exists|i: int|
        0 <= i < tags.len() && tag_named(#[trigger] tags[i], name) && tags[i].len() > 1
            && tags[i][1] == value
}

/// Whether the first field of a tag is `name`.
pub fn is_tag_named(tag: &Vec<String>, name: &str) -> (r: bool)
    ensures
        r == tag_named(texts(tag@), name@),
{
    tag.len() > 0 && str_eq(tag[0].as_str(), name)
}

/// The value of the first tag called `name`, where that tag has one.
pub fn first_tag_value(tags: &Vec<Vec<String>>, name: &str) -> (r: Option<String>)
    ensures
        crate::text::opt_text(r) == first_value(tag_texts(tags@), name@),
{
    let ghost all = tag_texts(tags@);
    let mut i: usize = 0;
    proof {
        assert(all.skip(0) =~= all);
    }
    while i < tags.len()
        invariant
            i <= tags@.len(),
            all == tag_texts(tags@),
            first_value(all, name@) == first_value(all.skip(i as int), name@),
        decreases tags.len() - i,
    {
        proof {
            assert(all.skip(i as int)[0] == texts(tags@[i as int]@));
            assert(all.skip(i as int).skip(1) =~= all.skip(i + 1));
        }
        if is_tag_named(&tags[i], name) {
            if tags[i].len() > 1 {
                return Some(tags[i][1].clone());
            }
            return None;
        }
        i = i + 1;
    }
    None
}

/// The value of the first tag called `name` that has one.
pub fn any_tag_value(tags: &Vec<Vec<String>>, name: &str) -> (r: Option<String>)
    ensures
        crate::text::opt_text(r) == any_value(tag_texts(tags@), name@),
{
    let ghost all = tag_texts(tags@);
    let mut i: usize = 0;
    proof {
        assert(all.skip(0) =~= all);
    }
    while i < tags.len()
        invariant
            i <= tags@.len(),
            all == tag_texts(tags@),
            any_value(all, name@) == any_value(all.skip(i as int), name@),
        decreases tags.len() - i,
    {
        proof {
            assert(all.skip(i as int)[0] == texts(tags@[i as int]@));
            assert(all.skip(i as int).skip(1) =~= all.skip(i + 1));
        }
        if is_tag_named(&tags[i], name) && tags[i].len() > 1 {
            return Some(tags[i][1].clone());
        }
        i = i + 1;
    }
    None
}

/// Whether some tag called `name` has the value `value`.
pub fn has_tag_pair(tags: &Vec<Vec<String>>, name: &str, value: &str) -> (r: bool)
    ensures
        r == has_pair(tag_texts(tags@), name@, value@),
{
    let ghost all = tag_texts(tags@);
    let mut i: usize = 0;
    while i < tags.len()
        invariant
            i <= tags@.len(),
            all == tag_texts(tags@),
            forall|j: int|
                0 <= j < i ==> !(tag_named(#[trigger] all[j], name@) && all[j].len() > 1
                    && all[j][1] == value@),
        decreases tags.len() - i,
    {
        proof {
            assert(all[i as int] == texts(tags@[i as int]@));
        }
        if is_tag_named(&tags[i], name) && tags[i].len() > 1 && str_eq(tags[i][1].as_str(), value) {
            return true;
        }
        i = i + 1;
    }
    false
}

/// A tag of two fields.
pub fn pair_tag(name: &str, value: &str) -> (r: Vec<String>)
    ensures
        texts(r@) == seq![name@, value@],
{
    let mut r: Vec<String> = Vec::new();
    r.push(name.to_owned());
    r.push(value.to_owned());
    r
}

/// A tag of one field.
pub fn lone_tag(name: &str) -> (r: Vec<String>)
    ensures
        texts(r@) == seq![name@],
{
    let mut r: Vec<String> = Vec::new();
    r.push(name.to_owned());
    r
}

/// The attribution tag that every published event carries.
pub open spec fn agent_tag_text() -> Seq<Seq<char>> {
    seq!["agent"@, "snowclaw"@]
}

/// The attribution tag that every published event carries.
pub fn agent_tag() -> (r: Vec<String>)
    ensures
        texts(r@) == agent_tag_text(),
{
    pair_tag("agent", "snowclaw")
}

/// A value found by `first_value` or `any_value` stands in some tag of that name.
pub proof fn found_value_is_a_pair(tags: Seq<Seq<Seq<char>>>, name: Seq<char>)
    ensures
        first_value(tags, name) matches Some(v) ==> has_pair(tags, name, v),
        any_value(tags, name) matches Some(v) ==> has_pair(tags, name, v),
    decreases tags.len(),
{
    if tags.len() > 0 {
        let rest = tags.skip(1);
        found_value_is_a_pair(rest, name);
        assert forall|v: Seq<char>| has_pair(rest, name, v) implies has_pair(tags, name, v) by {
            let i = choose|i: int|
                0 <= i < rest.len() && tag_named(#[trigger] rest[i], name) && rest[i].len() > 1
                    && rest[i][1] == v;
            assert(tags[i + 1] == rest[i]);
        }
        assert(tags[0] == tags[0]);
    }
}

/// The first tag of a name decides its value; without such a tag there is none.
pub proof fn first_tag_decides(tags: Seq<Seq<Seq<char>>>, name: Seq<char>, k: int)
    requires
        0 <= k <= tags.len(),
        forall|j: int| 0 <= j < k ==> (#[trigger] tags[j]).len() == 0 || tags[j][0] != name,
        k < tags.len() ==> tags[k].len() > 0 && tags[k][0] == name,
    ensures
        first_value(tags, name) == (if k < tags.len() && tags[k].len() > 1 {
            Some(tags[k][1])
        } else {
            None
        }),
    decreases tags.len(),
{
    if k > 0 {
        let rest = tags.skip(1);
        assert(tags[0].len() == 0 || tags[0][0] != name);
        assert forall|j: int| 0 <= j < k - 1 implies (#[trigger] rest[j]).len() == 0 || rest[j][0]
            != name by {
            assert(rest[j] == tags[j + 1]);
        }
        first_tag_decides(rest, name, k - 1);
    }
}

/// The first tag of a name that has a value decides it; without such a tag there is none.
pub proof fn first_tag_with_value_decides(tags: Seq<Seq<Seq<char>>>, name: Seq<char>, k: int)
    requires
        0 <= k <= tags.len(),
        forall|j: int| 0 <= j < k ==> (#[trigger] tags[j]).len() < 2 || tags[j][0] != name,
        k < tags.len() ==> tags[k].len() > 1 && tags[k][0] == name,
    ensures
        any_value(tags, name) == (if k < tags.len() {
            Some(tags[k][1])
        } else {
            None
        }),
    decreases tags.len(),
{
    if k > 0 {
        let rest = tags.skip(1);
        assert(tags[0].len() < 2 || tags[0][0] != name);
        assert forall|j: int| 0 <= j < k - 1 implies (#[trigger] rest[j]).len() < 2 || rest[j][0]
            != name by {
            assert(rest[j] == tags[j + 1]);
        }
        first_tag_with_value_decides(rest, name, k - 1);
    }
}

/// A pair is there exactly where a tag of the name has the value.
pub proof fn pairs_are_tags(tags: Seq<Seq<Seq<char>>>, name: Seq<char>, value: Seq<char>)
    ensures
        has_pair(tags, name, value) <==> exists|i: int|
            0 <= i < tags.len() && (#[trigger] tags[i]).len() > 1 && tags[i][0] == name
                && tags[i][1] == value,
{
}

} // verus!
