//! The commands that manage memories.

use crate::memory::nostr::{newest_first, sort_newest_first};
use crate::memory::traits::{
    category_name, category_of, entry_views, CategoryView, EntryView, MemoryCategory, MemoryEntry,
};
use crate::text::case::{lowercase, to_lowercase};
use crate::text::number::{decimal, u64_text};
use crate::text::pattern::{begins_with, has_substring, parts_are_held};
use crate::text::{ascii_byte_take, byte_len, from_chars, len_bytes, to_chars};
use vstd::prelude::*;
use vstd::utf8::is_ascii_chars;

verus! {

/// A command on the memories.
#[allow(inconsistent_fields)]
#[derive(Debug)]
pub enum MemoryCommands {
    /// Shows the memory under a key.
    Show { key: String },
    /// Lists the memories, or those of a category.
    List { category: Option<String> },
    /// Stores a memory.
    Note { key: String, content: String, category: String },
    /// Deletes the memory under a key.
    Forget { key: String },
    /// Counts the memories.
    Count,
}

/// The category that a name stands for, in any letter case.
pub open spec fn named_category(name: Seq<char>) -> CategoryView {
    category_of(lowercase(name))
}

/// The category that a name stands for, in any letter case.
pub fn parse_category(s: &str) -> (r: MemoryCategory)
    ensures
        r@ == named_category(s@),
{
    let name = to_lowercase(s);
    MemoryCategory::from_name(name.as_str())
}

/// What a command asks of the memory backend.
#[derive(Debug)]
pub enum MemoryRequest {
    Get(String),
    List(Option<MemoryCategory>),
    Store(String, String, MemoryCategory),
    Forget(String),
    Count,
}

/// Whether a request is what a command asks for.
pub open spec fn asks(cmd: MemoryCommands, q: MemoryRequest) -> bool {
    match cmd {
        MemoryCommands::Show { key } => q matches MemoryRequest::Get(k) && k@ == key@,
        MemoryCommands::List { category } => {
            &&& q matches MemoryRequest::List(c)
            &&& match category {
                Some(name) => c is Some && c->0@ == named_category(name@),
                None => c is None,
            }
        },
        MemoryCommands::Note { key, content, category } => {
            &&& q matches MemoryRequest::Store(k, t, c)
            &&& k@ == key@
            &&& t@ == content@
            &&& c@ == named_category(category@)
        },
        MemoryCommands::Forget { key } => q matches MemoryRequest::Forget(k) && k@ == key@,
        MemoryCommands::Count => q is Count,
    }
}

/// What a command asks of the memory backend.
pub fn request(cmd: &MemoryCommands) -> (r: MemoryRequest)
    ensures
        asks(*cmd, r),
{
    match cmd {
        MemoryCommands::Show { key } => MemoryRequest::Get(key.clone()),
        MemoryCommands::List { category } => match category {
            Some(name) => MemoryRequest::List(Some(parse_category(name.as_str()))),
            None => MemoryRequest::List(None),
        },
        MemoryCommands::Note { key, content, category } => {
            MemoryRequest::Store(key.clone(), content.clone(), parse_category(category.as_str()))
        },
        MemoryCommands::Forget { key } => MemoryRequest::Forget(key.clone()),
        MemoryCommands::Count => MemoryRequest::Count,
    }
}

/// What the memory backend replies.
#[derive(Debug)]
pub enum MemoryReply {
    Entry(Option<MemoryEntry>),
    Entries(Vec<MemoryEntry>),
    Stored,
    Forgotten(bool),
    Counted(usize),
}

/// Whether a reply is one to what a command asks.
pub open spec fn answers(cmd: MemoryCommands, reply: MemoryReply) -> bool {
    match cmd {
        MemoryCommands::Show { key } => reply is Entry,
        MemoryCommands::List { category } => reply is Entries,
        MemoryCommands::Note { key, content, category } => reply is Stored,
        MemoryCommands::Forget { key } => reply is Forgotten,
        MemoryCommands::Count => reply is Counted,
    }
}

/// A memory as it is shown.
pub open spec fn entry_text(e: EntryView) -> Seq<char> {
    "Key:      "@ + e.key + "\nCategory: "@ + category_name(e.category) + "\nUpdated:  "@
        + e.timestamp + "\n"@ + (match e.session_id {
        Some(s) => "Session:  "@ + s + "\n"@,
        None => Seq::empty(),
    }) + "---\n"@ + e.content + "\n"@
}

/// The start of a memory's content in a list: its first sixty characters.
pub open spec fn preview(content: Seq<char>) -> Seq<char> {
    (if content.len() <= 60 {
        content
    } else {
        content.take(60)
    }) + (if byte_len(content) > 60 {
        "..."@
    } else {
        Seq::empty()
    })
}

/// The line of a memory in a list.
pub open spec fn entry_line(e: EntryView) -> Seq<char> {
    "  ["@ + category_name(e.category) + "] "@ + e.key + ": "@ + preview(e.content) + " ("@
        + e.timestamp + ")\n"@
}

/// The lines of memories in a list.
pub open spec fn entry_lines(entries: Seq<EntryView>) -> Seq<char>
    decreases entries.len(),
{
    if entries.len() == 0 {
        Seq::empty()
    } else {
        entry_lines(entries.drop_last()) + entry_line(entries.last())
    }
}

/// The list of memories in a given order.
pub open spec fn entries_text(entries: Seq<EntryView>) -> Seq<char> {
    if entries.len() == 0 {
        "No memory entries found.\n"@
    } else {
        decimal(entries.len()) + " memory entries:\n"@ + entry_lines(entries)
    }
}

/// Whether a command prints a text, given the backend's reply.
pub open spec fn prints(cmd: MemoryCommands, reply: MemoryReply, text: Seq<char>) -> bool {
    match (cmd, reply) {
        (MemoryCommands::Show { key }, MemoryReply::Entry(entry)) => match entry {
            Some(e) => text == entry_text(e@),
            None => text == "No memory found for key: "@ + key@ + "\n"@,
        },
        (MemoryCommands::List { category }, MemoryReply::Entries(entries)) => exists|
            order: Seq<EntryView>,
        |
            {
                &&& #[trigger] newest_first(order, entry_views(entries@))
                &&& text == entries_text(order)
            },
        (MemoryCommands::Note { key, content, category }, MemoryReply::Stored) => text
            == "Stored memory: "@ + key@ + " ("@ + category@ + ")\n"@,
        (MemoryCommands::Forget { key }, MemoryReply::Forgotten(was)) => text == (if was {
            "Forgot memory: "@
        } else {
            "No memory found for key: "@
        }) + key@ + "\n"@,
        (MemoryCommands::Count, MemoryReply::Counted(n)) => text == decimal(n as nat)
            + " memory entries\n"@,
        _ => false,
    }
}

fn show_entry(e: &MemoryEntry) -> (r: String)
    ensures
        r@ == entry_text(e@),
{
    let mut out = String::from_str("Key:      ");
    out.append(e.key.as_str());
    out.append("\nCategory: ");
    out.append(e.category.to_string().as_str());
    out.append("\nUpdated:  ");
    out.append(e.timestamp.as_str());
    out.append("\n");
    let ghost head = out@;
    if let Some(s) = &e.session_id {
        out.append("Session:  ");
        out.append(s.as_str());
        out.append("\n");
        assert(out@ =~= head + ("Session:  "@ + s@ + "\n"@));
    } else {
        assert(out@ =~= head + Seq::<char>::empty());
    }
    out.append("---\n");
    out.append(e.content.as_str());
    out.append("\n");
    out
}

fn push_preview(out: &mut String, content: &str)
    ensures
        final(out)@ == old(out)@ + preview(content@),
{
    let ghost before = out@;
    let cs = to_chars(content);
    if cs.len() <= 60 {
        out.append(content);
    } else {
        out.append(from_chars(&cs, 0, 60).as_str());
        assert(content@.subrange(0, 60) =~= content@.take(60));
    }
    if len_bytes(content) > 60 {
        out.append("...");
    }
    assert(out@ =~= before + preview(content@));
}

fn list_entries(entries: &Vec<MemoryEntry>) -> (r: String)
    ensures
        r@ == entries_text(entry_views(entries@)),
{
    let ghost all = entry_views(entries@);
    if entries.len() == 0 {
        return "No memory entries found.\n".to_owned();
    }
    let mut out = u64_text(entries.len() as u64);
    out.append(" memory entries:\n");
    let ghost head = out@;
    let mut i: usize = 0;
    assert(all.take(0).len() == 0);
    assert(out@ =~= head + entry_lines(all.take(0)));
    while i < entries.len()
        invariant
            i <= entries@.len(),
            all == entry_views(entries@),
            out@ == head + entry_lines(all.take(i as int)),
        decreases entries.len() - i,
    {
        let ghost before = out@;
        let e = &entries[i];
        out.append("  [");
        out.append(e.category.to_string().as_str());
        out.append("] ");
        out.append(e.key.as_str());
        out.append(": ");
        push_preview(&mut out, e.content.as_str());
        out.append(" (");
        out.append(e.timestamp.as_str());
        out.append(")\n");
        proof {
            assert(all.take(i + 1).drop_last() =~= all.take(i as int));
            assert(all.take(i + 1).last() == all[i as int]);
            assert(out@ =~= before + entry_line(all[i as int]));
            assert(out@ =~= head + entry_lines(all.take(i + 1)));
        }
        i = i + 1;
    }
    assert(all.take(i as int) =~= all);
    out
}

/// What a command prints, given the backend's reply.
pub fn handle_command(cmd: &MemoryCommands, reply: &MemoryReply) -> (r: String)
    requires
        answers(*cmd, *reply),
    ensures
        prints(*cmd, *reply, r@),
{
    match (cmd, reply) {
        (MemoryCommands::Show { key }, MemoryReply::Entry(entry)) => match entry {
            Some(e) => show_entry(e),
            None => {
                let mut out = String::from_str("No memory found for key: ");
                out.append(key.as_str());
                out.append("\n");
                out
            },
        },
        (MemoryCommands::List { category }, MemoryReply::Entries(entries)) => {
            let sorted = sort_newest_first(entries);
            let out = list_entries(&sorted);
            assert(newest_first(entry_views(sorted@), entry_views(entries@)));
            out
        },
        (MemoryCommands::Note { key, content, category }, MemoryReply::Stored) => {
            let mut out = String::from_str("Stored memory: ");
            out.append(key.as_str());
            out.append(" (");
            out.append(category.as_str());
            out.append(")\n");
            out
        },
        (MemoryCommands::Forget { key }, MemoryReply::Forgotten(was)) => {
            let mut out = String::from_str(
                if *was {
                    "Forgot memory: "
                } else {
                    "No memory found for key: "
                },
            );
            out.append(key.as_str());
            out.append("\n");
            out
        },
        (MemoryCommands::Count, MemoryReply::Counted(n)) => {
            let mut out = u64_text(*n as u64);
            out.append(" memory entries\n");
            out
        },
        _ => String::new(),
    }
}

/// A memory is shown with its key, its category, its time, its session where it has one, and all of
/// its content.
pub proof fn memories_are_shown(e: EntryView)
    ensures
        begins_with(entry_text(e), "Key:      "@ + e.key + "\n"@),
        has_substring(entry_text(e), "Category: "@ + category_name(e.category) + "\n"@),
        has_substring(entry_text(e), "Updated:  "@ + e.timestamp + "\n"@),
        has_substring(entry_text(e), "---\n"@ + e.content + "\n"@),
        e.session_id matches Some(s) ==> has_substring(entry_text(e), "Session:  "@ + s + "\n"@),
{
    reveal_strlit("\n");
    reveal_strlit("Category: ");
    reveal_strlit("Updated:  ");
    reveal_strlit("\nCategory: ");
    reveal_strlit("\nUpdated:  ");
    assert("\nCategory: "@ =~= "\n"@ + "Category: "@);
    assert("\nUpdated:  "@ =~= "\n"@ + "Updated:  "@);
    let name = category_name(e.category);
    let k = "Key:      "@ + e.key + "\n"@;
    let c = "Category: "@ + name + "\n"@;
    let u = "Updated:  "@ + e.timestamp + "\n"@;
    let s = match e.session_id {
        Some(s) => "Session:  "@ + s + "\n"@,
        None => Seq::empty(),
    };
    let d = "---\n"@ + e.content + "\n"@;
    let t = entry_text(e);
    assert(t =~= k + c + u + s + d);
    assert(t.subrange(0, k.len() as int) =~= k);
    assert(t =~= k + c + (u + s + d));
    parts_are_held(k, c, u + s + d);
    assert(t =~= (k + c) + u + (s + d));
    parts_are_held(k + c, u, s + d);
    assert(t =~= (k + c + u) + s + d);
    parts_are_held(k + c + u, s, d);
    assert(t =~= (k + c + u + s) + d + Seq::<char>::empty());
    parts_are_held(k + c + u + s, d, Seq::<char>::empty());
}

/// Every memory has its line in the list, in order, behind the number of memories; where there are
/// none the list says so.
pub proof fn every_memory_has_its_line(a: Seq<EntryView>, e: EntryView, b: Seq<EntryView>)
    ensures
        entry_lines(a.push(e) + b) == entry_lines(a) + ("  ["@ + category_name(e.category) + "] "@
            + e.key + ": "@ + preview(e.content) + " ("@ + e.timestamp + ")\n"@) + entry_lines(b),
        entry_lines(Seq::empty()).len() == 0,
        entries_text(a.push(e) + b) == decimal((a.push(e) + b).len()) + " memory entries:\n"@
            + entry_lines(a.push(e) + b),
        entries_text(Seq::empty()) == "No memory entries found.\n"@,
    decreases b.len(),
{
    let all = a.push(e) + b;
    if b.len() == 0 {
        assert(all =~= a.push(e));
        assert(all.drop_last() =~= a);
        assert(entry_lines(b) =~= Seq::<char>::empty());
    } else {
        every_memory_has_its_line(a, e, b.drop_last());
        assert(all.drop_last() =~= a.push(e) + b.drop_last());
        assert(all.last() == b.last());
    }
    assert(entry_lines(all) =~= entry_lines(a) + entry_line(e) + entry_lines(b));
}

/// A preview begins as the content does, with at most sixty characters of it; only a longer content is
/// marked as cut.
pub proof fn previews_are_short(content: Seq<char>)
    requires
        is_ascii_chars(content),
    ensures
        content.len() <= 60 ==> preview(content) == content,
        content.len() > 60 ==> preview(content) == content.take(60) + "..."@,
{
    ascii_byte_take(content, 0);
    assert(content + Seq::<char>::empty() =~= content);
}

/// Each command asks for one thing, with the words that were given.
pub proof fn commands_ask(
    key: String,
    content: String,
    category: String,
    q: MemoryRequest,
)
    ensures
        asks(MemoryCommands::Show { key }, q) ==> q is Get && q->Get_0@ == key@,
        asks(MemoryCommands::Forget { key }, q) ==> q is Forget && q->Forget_0@ == key@,
        asks(MemoryCommands::Count, q) ==> q is Count,
        asks(MemoryCommands::List { category: None }, q) ==> q is List && q->List_0 is None,
        asks(MemoryCommands::List { category: Some(category) }, q) ==> q is List && q->List_0 is Some
            && q->List_0->0@ == category_of(lowercase(category@)),
        asks(MemoryCommands::Note { key, content, category }, q) ==> (q matches MemoryRequest::Store(
            k,
            t,
            c,
        ) && k@ == key@ && t@ == content@ && c@ == category_of(lowercase(category@))),
{
}

/// What is printed says what became of the command.
pub proof fn commands_print(
    key: String,
    content: String,
    category: String,
    n: usize,
    e: MemoryEntry,
    text: Seq<char>,
)
    ensures
        prints(MemoryCommands::Show { key }, MemoryReply::Entry(Some(e)), text) ==> text == entry_text(
            e@,
        ),
        prints(MemoryCommands::Show { key }, MemoryReply::Entry(None), text) ==> text
            == "No memory found for key: "@ + key@ + "\n"@,
        prints(MemoryCommands::Forget { key }, MemoryReply::Forgotten(true), text) ==> text
            == "Forgot memory: "@ + key@ + "\n"@,
        prints(MemoryCommands::Forget { key }, MemoryReply::Forgotten(false), text) ==> text
            == "No memory found for key: "@ + key@ + "\n"@,
        prints(MemoryCommands::Count, MemoryReply::Counted(n), text) ==> text == decimal(n as nat)
            + " memory entries\n"@,
        prints(MemoryCommands::Note { key, content, category }, MemoryReply::Stored, text) ==> text
            == "Stored memory: "@ + key@ + " ("@ + category@ + ")\n"@,
{
}

} // verus!
