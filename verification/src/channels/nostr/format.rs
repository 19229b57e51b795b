//! The texts that the channel hands to the model.

use super::channel::{can_cut, NostrChannel};
use crate::channels::event::{EventView, NostrEvent};
use crate::text::number::{decimal, u64_text};
use crate::text::{
    ascii_byte_take, byte_boundary, byte_len, byte_skip, byte_take, len_bytes, opt_str,
    prefix_bytes, suffix_bytes,
};
use crate::text_map::TextMap;
use vstd::prelude::*;
use vstd::utf8::is_ascii_chars;

verus! {

/// `s` cut after `n` bytes, where it is longer.
pub open spec fn shortened(s: Seq<char>, n: int) -> Seq<char> {
    if byte_len(s) <= n {
        s
    } else {
        byte_take(s, n)
    }
}

/// `s` cut after `n` bytes, where it is longer.
pub fn shorten(s: &str, n: usize) -> (r: &str)
    requires
        can_cut(s@, n as int),
    ensures
        r@ == shortened(s@, n as int),
{
    if len_bytes(s) <= n {
        s
    } else {
        prefix_bytes(s, n)
    }
}

/// A key cut to its first 20 bytes.
pub fn truncate_npub(npub: &str) -> (r: &str)
    requires
        can_cut(npub@, 20),
    ensures
        r@ == shortened(npub@, 20),
{
    shorten(npub, 20)
}

/// The header of a group message.
pub open spec fn group_header(
    group: Seq<char>,
    sender: Seq<char>,
    npub: Seq<char>,
    kind: u16,
    event_id: Seq<char>,
    is_owner: bool,
) -> Seq<char> {
    "[nostr:group=#"@ + group + " from="@ + sender + " npub="@ + shortened(npub, 20) + (
    if is_owner {
        " role=owner"@
    } else {
        ""@
    }) + " kind="@ + decimal(kind as nat) + " id="@ + shortened(event_id, 8) + "]"@
}

/// The line that reports a task status.
pub open spec fn task_line(
    event_id: Seq<char>,
    task_ref: Seq<char>,
    status: Seq<char>,
    detail: Seq<char>,
) -> Seq<char> {
    "[nostr:event="@ + shortened(event_id, 8) + "] Task "@ + shortened(task_ref, 8) + " → "@
        + status + (if detail.len() == 0 {
        ""@
    } else {
        ": "@ + detail
    })
}

/// The facts about an event that travel with its message.
pub open spec fn event_metadata(
    e: EventView,
    group: Option<Seq<char>>,
    is_owner: bool,
) -> Map<Seq<char>, Seq<char>> {
    let base = Map::<Seq<char>, Seq<char>>::empty().insert("nostr_event_id"@, e.id).insert(
        "nostr_pubkey"@,
        e.pubkey,
    ).insert("nostr_kind"@, decimal(e.kind as nat));
    let with_group = match group {
        Some(g) => base.insert("nostr_group"@, g),
        None => base,
    };
    if is_owner {
        with_group.insert("nostr_is_owner"@, "true"@)
    } else {
        with_group
    }
}

/// The texts of a map of strings.
pub open spec fn map_texts(m: Map<Seq<char>, String>) -> Map<Seq<char>, Seq<char>> {
    m.map_values(|s: String| s@)
}

/// The name shown for a key without a profile: its ends.
pub open spec fn key_ends(npub: Seq<char>) -> Seq<char> {
    byte_take(npub, 10) + "..."@ + byte_skip(npub, byte_len(npub) - 4)
}

impl NostrChannel {
    /// The header of a group message.
    pub fn compact_group_header(
        group: &str,
        sender: &str,
        npub: &str,
        kind: u16,
        event_id: &str,
        is_owner: bool,
    ) -> (r: String)
        requires
            can_cut(npub@, 20),
            can_cut(event_id@, 8),
        ensures
            r@ == group_header(group@, sender@, npub@, kind, event_id@, is_owner),
    {
        let mut r = String::from_str("[nostr:group=#");
        r.append(group);
        r.append(" from=");
        r.append(sender);
        r.append(" npub=");
        r.append(truncate_npub(npub));
        r.append(
            if is_owner {
                " role=owner"
            } else {
                ""
            },
        );
        r.append(" kind=");
        r.append(u64_text(kind as u64).as_str());
        r.append(" id=");
        r.append(shorten(event_id, 8));
        r.append("]");
        r
    }

    /// The line that reports a task status.
    pub fn compact_task_content(event_id: &str, task_ref: &str, status: &str, detail: &str) -> (r:
        String)
        requires
            can_cut(event_id@, 8),
            can_cut(task_ref@, 8),
        ensures
            r@ == task_line(event_id@, task_ref@, status@, detail@),
    {
        let mut r = String::from_str("[nostr:event=");
        r.append(shorten(event_id, 8));
        r.append("] Task ");
        r.append(shorten(task_ref, 8));
        r.append(" → ");
        r.append(status);
        if detail.is_empty() {
            r.append("");
        } else {
            let ghost so_far = r@;
            r.append(": ");
            r.append(detail);
            assert(r@ =~= so_far + (": "@ + detail@));
        }
        r
    }

    /// The facts about an event that travel with its message.
    pub fn build_metadata(event: &NostrEvent, group: Option<&str>, is_owner: bool) -> (r: Option<
        TextMap<String>,
    >)
        ensures
            r matches Some(m) && map_texts(m@) == event_metadata(
                event@,
                opt_str(group),
                is_owner,
            ),
    {
        let mut meta: TextMap<String> = TextMap::new();
        meta.insert("nostr_event_id".to_owned(), event.id.clone());
        meta.insert("nostr_pubkey".to_owned(), event.pubkey.clone());
        meta.insert("nostr_kind".to_owned(), u64_text(event.kind as u64));
        if let Some(g) = group {
            meta.insert("nostr_group".to_owned(), g.to_owned());
        }
        if is_owner {
            meta.insert("nostr_is_owner".to_owned(), "true".to_owned());
        }
        proof {
            let want = event_metadata(
                event@,
                opt_str(group),
                is_owner,
            );
            assert(map_texts(meta@) =~= want);
        }
        Some(meta)
    }
}

/// The name shown for a key without a profile.
pub fn short_key(npub: &str) -> (r: String)
    requires
        byte_boundary(npub@, 10),
        byte_len(npub@) >= 4,
        byte_boundary(npub@, byte_len(npub@) - 4),
    ensures
        r@ == key_ends(npub@),
{
    let n = len_bytes(npub);
    let mut r = prefix_bytes(npub, 10).to_owned();
    r.append("...");
    r.append(suffix_bytes(npub, n - 4));
    r
}

/// The header of a group message names the group, the sender, the kind and the event, and says where
/// the sender is the owner.
pub proof fn headers_name_the_message(
    group: Seq<char>,
    sender: Seq<char>,
    npub: Seq<char>,
    kind: u16,
    id: Seq<char>,
)
    ensures
        group_header(group, sender, npub, kind, id, true) == ("[nostr:group=#"@ + group + " from="@
            + sender + " npub="@ + shortened(npub, 20)) + " role=owner"@ + (" kind="@ + decimal(
            kind as nat,
        ) + " id="@ + shortened(id, 8) + "]"@),
        group_header(group, sender, npub, kind, id, false) == ("[nostr:group=#"@ + group + " from="@
            + sender + " npub="@ + shortened(npub, 20)) + (" kind="@ + decimal(kind as nat) + " id="@
            + shortened(id, 8) + "]"@),
{
    reveal_strlit("");
    assert(""@ =~= Seq::<char>::empty());
    let a = "[nostr:group=#"@ + group + " from="@ + sender + " npub="@ + shortened(npub, 20);
    let b = " kind="@ + decimal(kind as nat) + " id="@ + shortened(id, 8) + "]"@;
    assert(group_header(group, sender, npub, kind, id, true) =~= a + " role=owner"@ + b);
    assert(group_header(group, sender, npub, kind, id, false) =~= a + b);
}

/// The line of a task event names the event, the task and its status, and the detail where there is
/// any.
pub proof fn lines_name_the_task(
    id: Seq<char>,
    task: Seq<char>,
    status: Seq<char>,
    detail: Seq<char>,
)
    ensures
        ({
            let head = "[nostr:event="@ + shortened(id, 8) + "] Task "@ + shortened(task, 8) + " → "@
                + status;
            &&& detail.len() == 0 ==> task_line(id, task, status, detail) == head
            &&& detail.len() > 0 ==> task_line(id, task, status, detail) == head + (": "@ + detail)
        }),
{
    reveal_strlit("");
    let head = "[nostr:event="@ + shortened(id, 8) + "] Task "@ + shortened(task, 8) + " → "@ + status;
    assert(""@ =~= Seq::<char>::empty());
    assert(head + Seq::<char>::empty() =~= head);
}

/// A short text is kept; of a longer one only the beginning is.
pub proof fn long_texts_are_shortened(s: Seq<char>, n: int)
    requires
        is_ascii_chars(s),
        0 <= n,
    ensures
        s.len() <= n ==> shortened(s, n) == s,
        s.len() > n ==> shortened(s, n) == s.take(n),
        s.len() >= 10 ==> key_ends(s) == s.take(10) + "..."@ + s.skip(s.len() - 4),
{
    ascii_byte_take(s, 0);
    if s.len() > n {
        ascii_byte_take(s, n);
    }
    if s.len() >= 10 {
        ascii_byte_take(s, 10);
        ascii_byte_take(s, s.len() - 4);
    }
}

/// The facts that travel with a message: the event's id, sender and kind, its group where it has one,
/// and whether it is the owner's; and no others.
pub proof fn facts_of_messages(e: EventView, group: Option<Seq<char>>, is_owner: bool, k: Seq<char>)
    ensures
        ({
            let m = event_metadata(e, group, is_owner);
            &&& m.contains_key("nostr_event_id"@) && m["nostr_event_id"@] == e.id
            &&& m.contains_key("nostr_pubkey"@) && m["nostr_pubkey"@] == e.pubkey
            &&& m.contains_key("nostr_kind"@) && m["nostr_kind"@] == decimal(e.kind as nat)
            &&& m.contains_key("nostr_group"@) == group is Some
            &&& group matches Some(g) ==> m["nostr_group"@] == g
            &&& m.contains_key("nostr_is_owner"@) == is_owner
            &&& is_owner ==> m["nostr_is_owner"@] == "true"@
            &&& m.contains_key(k) ==> k == "nostr_event_id"@ || k == "nostr_pubkey"@ || k
                == "nostr_kind"@ || k == "nostr_group"@ || k == "nostr_is_owner"@
        }),
{
    reveal_strlit("nostr_event_id");
    reveal_strlit("nostr_pubkey");
    reveal_strlit("nostr_kind");
    reveal_strlit("nostr_group");
    reveal_strlit("nostr_is_owner");
    assert("nostr_event_id"@.len() == 14 && "nostr_pubkey"@.len() == 12 && "nostr_kind"@.len() == 10
        && "nostr_group"@.len() == 11 && "nostr_is_owner"@.len() == 14);
    assert("nostr_event_id"@[6] == 'e' && "nostr_is_owner"@[6] == 'i');
}

} // verus!
