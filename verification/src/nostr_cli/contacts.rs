//! What is remembered of contacts and groups, as it is shown.

use super::identity::{meant_key, resolve_to_hex, result_texts};
use super::{lines_of, push_lines, NostrMemoryAction};
use crate::channels::nostr_memory::{
    group_memory_of, new_contact, npub_memory_of, social_npub_to_npub_memory, GroupMemory,
    GroupMemoryView, NostrMemory, NpubMemory, NpubMemoryView,
};
use crate::json::{json_of_texts, texts_or_empty, unsigned_pairs};
use crate::keys::npub_reading;
use crate::memory::social::{newest_first, npub_noted, npub_touched, NpubRow, SocialNpub};
use crate::order::{
    arranged, arranged_holds_the_same, numbers_in_order, ranked, stable_order,
};
use crate::text::number::{decimal, u128_text, u64_text};
use crate::text::pattern::{begins_with, has_substring, parts_are_held};
use crate::text::{from_chars, texts, to_chars};
use crate::text_map::key_added;
use vstd::prelude::*;

verus! {

/// The start of a key: its first sixteen characters.
pub open spec fn key_head(s: Seq<char>) -> Seq<char> {
    if s.len() <= 16 {
        s
    } else {
        s.take(16)
    }
}

fn head_of(s: &str) -> (r: String)
    ensures
        r@ == key_head(s@),
{
    let cs = to_chars(s);
    if cs.len() <= 16 {
        s.to_owned()
    } else {
        assert(s@.subrange(0, 16) =~= s@.take(16));
        from_chars(&cs, 0, 16)
    }
}

/// The lines of earlier names.
pub open spec fn name_lines(history: Seq<(u64, Seq<char>)>) -> Seq<char>
    decreases history.len(),
{
    if history.len() == 0 {
        Seq::empty()
    } else {
        name_lines(history.drop_last()) + "     "@ + decimal(history.last().0 as nat) + ": "@
            + history.last().1 + "\n"@
    }
}

fn push_names(out: &mut String, history: &Vec<(u64, String)>)
    ensures
        final(out)@ == old(out)@ + name_lines(unsigned_pairs(history@)),
{
    let ghost start = out@;
    let ghost all = unsigned_pairs(history@);
    let mut i: usize = 0;
    assert(all.take(0).len() == 0);
    assert(out@ =~= start + name_lines(all.take(0)));
    while i < history.len()
        invariant
            i <= history@.len(),
            all == unsigned_pairs(history@),
            out@ == start + name_lines(all.take(i as int)),
        decreases history.len() - i,
    {
        out.append("     ");
        out.append(u64_text(history[i].0).as_str());
        out.append(": ");
        out.append(history[i].1.as_str());
        out.append("\n");
        proof {
            assert(all.take(i + 1).drop_last() =~= all.take(i as int));
            assert(all.take(i + 1).last() == all[i as int]);
            assert(out@ =~= start + name_lines(all.take(i + 1)));
        }
        i = i + 1;
    }
    assert(all.take(i as int) =~= all);
}

/// A list of notes under a title, where there are any.
pub open spec fn section(title: Seq<char>, notes: Seq<Seq<char>>) -> Seq<char> {
    if notes.len() > 0 {
        title + lines_of("     - "@, notes)
    } else {
        Seq::empty()
    }
}

fn push_section(out: &mut String, title: &str, notes: &Vec<String>)
    ensures
        final(out)@ == old(out)@ + section(title@, texts(notes@)),
{
    let ghost before = out@;
    assert(texts(notes@).len() == notes@.len());
    if notes.len() > 0 {
        out.append(title);
        push_lines(out, "     - ", notes);
    }
    assert(out@ =~= before + section(title@, texts(notes@)));
}

/// A contact as it is shown.
pub open spec fn contact_text(m: NpubMemoryView) -> Seq<char> {
    "📇 Contact: "@ + m.display_name + " ("@ + key_head(m.npub_hex) + ")\n   First seen: "@
        + decimal(m.first_seen as nat) + " "@ + (match m.first_seen_group {
        Some(g) => g,
        None => "(DM)"@,
    }) + "\n   Last interaction: "@ + decimal(m.last_interaction as nat) + "\n"@
        + (if m.name_history.len() > 0 {
        "   Name history:\n"@ + name_lines(m.name_history)
    } else {
        Seq::empty()
    }) + section("   Owner notes:\n"@, m.owner_notes) + section("   Agent notes:\n"@, m.notes)
}

/// A contact as it is shown.
pub fn show_contact(m: &NpubMemory) -> (r: String)
    ensures
        r@ == contact_text(m@),
{
    let mut out = String::from_str("📇 Contact: ");
    out.append(m.display_name.as_str());
    out.append(" (");
    out.append(head_of(m.npub_hex.as_str()).as_str());
    out.append(")\n   First seen: ");
    out.append(u64_text(m.first_seen).as_str());
    out.append(" ");
    match &m.first_seen_group {
        Some(g) => out.append(g.as_str()),
        None => out.append("(DM)"),
    }
    out.append("\n   Last interaction: ");
    out.append(u64_text(m.last_interaction).as_str());
    out.append("\n");
    let ghost head = out@;
    assert(unsigned_pairs(m.name_history@).len() == m.name_history@.len());
    if m.name_history.len() > 0 {
        out.append("   Name history:\n");
        push_names(&mut out, &m.name_history);
        assert(out@ =~= head + ("   Name history:\n"@ + name_lines(
            unsigned_pairs(m.name_history@),
        )));
    } else {
        assert(out@ =~= head + Seq::<char>::empty());
    }
    push_section(&mut out, "   Owner notes:\n", &m.owner_notes);
    push_section(&mut out, "   Agent notes:\n", &m.notes);
    out
}

/// A group as it is shown.
pub open spec fn group_text(g: GroupMemoryView) -> Seq<char> {
    "📋 Group: #"@ + g.group_id + "\n"@ + (match g.purpose {
        Some(p) => "   Purpose: "@ + p + "\n"@,
        None => Seq::empty(),
    }) + "   Members seen: "@ + decimal(g.members_seen.len()) + "\n   Last activity: "@ + decimal(
        g.last_activity as nat,
    ) + "\n"@ + section("   Notes:\n"@, g.notes)
}

/// A group as it is shown.
pub fn show_group(g: &GroupMemory) -> (r: String)
    ensures
        r@ == group_text(g@),
{
    let mut out = String::from_str("📋 Group: #");
    out.append(g.group_id.as_str());
    out.append("\n");
    let ghost head = out@;
    if let Some(p) = &g.purpose {
        out.append("   Purpose: ");
        out.append(p.as_str());
        out.append("\n");
        assert(out@ =~= head + ("   Purpose: "@ + p@ + "\n"@));
    } else {
        assert(out@ =~= head + Seq::<char>::empty());
    }
    out.append("   Members seen: ");
    assert(texts(g.members_seen@).len() == g.members_seen@.len());
    out.append(u64_text(g.members_seen.len() as u64).as_str());
    out.append("\n   Last activity: ");
    out.append(u64_text(g.last_activity).as_str());
    out.append("\n");
    push_section(&mut out, "   Notes:\n", &g.notes);
    out
}

/// The line of a contact in the list.
pub open spec fn contact_line(m: NpubMemoryView) -> Seq<char> {
    let count = m.notes.len() + m.owner_notes.len();
    "  "@ + m.display_name + " ("@ + key_head(m.npub_hex) + ")"@ + (if count > 0 {
        " ["@ + decimal(count) + " notes]"@
    } else {
        Seq::empty()
    }) + "\n"@
}

/// The lines of contacts in the list.
pub open spec fn contact_lines(list: Seq<NpubMemoryView>) -> Seq<char>
    decreases list.len(),
{
    if list.len() == 0 {
        Seq::empty()
    } else {
        contact_lines(list.drop_last()) + contact_line(list.last())
    }
}

/// The list of contacts in a given order.
pub open spec fn contacts_text(list: Seq<NpubMemoryView>) -> Seq<char> {
    if list.len() == 0 {
        "No contacts in memory yet.\n"@
    } else {
        "📇 Known contacts ("@ + decimal(list.len()) + "):\n"@ + contact_lines(list)
    }
}

/// What is remembered of the contacts in rows.
pub open spec fn contacts_of(rows: Seq<SocialNpub>) -> Seq<NpubMemoryView> {
    Seq::new(rows.len(), |i: int| npub_memory_of(rows[i]@))
}

/// When contacts were last met.
pub open spec fn times_of(list: Seq<NpubMemoryView>) -> Seq<u64> {
    Seq::new(list.len(), |i: int| list[i].last_interaction)
}

/// Whether a text lists contacts, the most recently met first; those met at the same time stay in
/// order.
pub open spec fn lists_contacts(text: Seq<char>, contacts: Seq<NpubMemoryView>) -> bool {
    exists|idx: Seq<usize>|
        {
            &&& #[trigger] ranked(times_of(contacts), contacts.len() as int, idx, true)
            &&& text == contacts_text(arranged(contacts, idx))
        }
}

fn push_contact(out: &mut String, m: &NpubMemory)
    ensures
        final(out)@ == old(out)@ + contact_line(m@),
{
    let ghost before = out@;
    out.append("  ");
    out.append(m.display_name.as_str());
    out.append(" (");
    out.append(head_of(m.npub_hex.as_str()).as_str());
    out.append(")");
    assert(texts(m.notes@).len() == m.notes@.len());
    assert(texts(m.owner_notes@).len() == m.owner_notes@.len());
    let count: u128 = m.notes.len() as u128 + m.owner_notes.len() as u128;
    if count > 0 {
        out.append(" [");
        out.append(u128_text(count).as_str());
        out.append(" notes]");
    }
    out.append("\n");
    assert(out@ =~= before + contact_line(m@));
}

/// Lists contacts, the most recently met first.
pub fn list_contacts(rows: &Vec<SocialNpub>) -> (r: String)
    ensures
        lists_contacts(r@, contacts_of(rows@)),
{
    let ghost all = contacts_of(rows@);
    let mut contacts: Vec<NpubMemory> = Vec::new();
    let mut times: Vec<u64> = Vec::new();
    let mut i: usize = 0;
    while i < rows.len()
        invariant
            i <= rows@.len(),
            all == contacts_of(rows@),
            contacts@.len() == i,
            times@.len() == i,
            forall|k: int| 0 <= k < i ==> (#[trigger] contacts@[k])@ == all[k],
            forall|k: int| 0 <= k < i ==> #[trigger] times@[k] == all[k].last_interaction,
        decreases rows.len() - i,
    {
        let m = social_npub_to_npub_memory(&rows[i], None);
        times.push(m.last_interaction);
        contacts.push(m);
        i = i + 1;
    }
    assert(times@ =~= times_of(all));
    let idx = stable_order(&times, true);
    let ghost list = arranged(all, idx@);
    if contacts.len() == 0 {
        return "No contacts in memory yet.\n".to_owned();
    }
    let mut out = String::from_str("📇 Known contacts (");
    out.append(u64_text(contacts.len() as u64).as_str());
    out.append("):\n");
    let ghost head = out@;
    let mut j: usize = 0;
    assert(list.take(0).len() == 0);
    assert(out@ =~= head + contact_lines(list.take(0)));
    while j < idx.len()
        invariant
            j <= idx@.len(),
            all == contacts_of(rows@),
            contacts@.len() == all.len(),
            times@ == times_of(all),
            ranked(times@, all.len() as int, idx@, true),
            list == arranged(all, idx@),
            forall|k: int| 0 <= k < all.len() ==> (#[trigger] contacts@[k])@ == all[k],
            out@ == head + contact_lines(list.take(j as int)),
        decreases idx.len() - j,
    {
        let ghost before = out@;
        let m = &contacts[idx[j]];
        push_contact(&mut out, m);
        proof {
            assert(list.take(j + 1).drop_last() =~= list.take(j as int));
            assert(list.take(j + 1).last() == list[j as int]);
            assert(out@ =~= head + contact_lines(list.take(j + 1)));
        }
        j = j + 1;
    }
    assert(list.take(j as int) =~= list);
    out
}

fn after(title: &str, text: &str) -> (r: String)
    ensures
        r@ == title@ + text@ + "\n"@,
{
    let mut r = String::from_str(title);
    r.append(text);
    r.append("\n");
    r
}

/// The contacts after an owner's note on one, who is met thereby if not known yet.
pub open spec fn noted(m: NostrMemory, hex: Seq<char>, text: Seq<char>, now: u64) -> Map<
    Seq<char>,
    NpubRow,
> {
    if m.db is None {
        m.npubs()
    } else {
        m.npubs().insert(
            hex,
            npub_noted(
                match m.contact(hex) {
                    Some(row) => npub_touched(row, "unknown"@, now as i64),
                    None => new_contact(hex, "unknown"@, now as i64, None, false),
                },
                text,
                true,
            ),
        )
    }
}

/// Whether a command on the memory answers with a text or an error.
pub open spec fn memory_answers(
    action: NostrMemoryAction,
    m: NostrMemory,
    r: Result<Seq<char>, Seq<char>>,
) -> bool {
    match action {
        NostrMemoryAction::Show { npub } => match meant_key(npub@, npub_reading(npub@)) {
            Ok(hex) => r == Ok::<Seq<char>, Seq<char>>(
                match m.contact(hex) {
                    Some(row) => contact_text(npub_memory_of(row)),
                    None => "No memory found for "@ + key_head(hex) + "\n"@,
                },
            ),
            Err(e) => r == Err::<Seq<char>, Seq<char>>(e),
        },
        NostrMemoryAction::Note { npub, text } => match meant_key(npub@, npub_reading(npub@)) {
            Ok(hex) => r == Ok::<Seq<char>, Seq<char>>(
                "✅ Owner note added for "@ + key_head(hex) + "\n"@,
            ),
            Err(e) => r == Err::<Seq<char>, Seq<char>>(e),
        },
        NostrMemoryAction::Group { group } => r == Ok::<Seq<char>, Seq<char>>(
            match m.group(group@) {
                Some(row) => group_text(group_memory_of(row)),
                None => "No memory found for group #"@ + group@ + "\n"@,
            },
        ),
        NostrMemoryAction::List => r is Ok && lists_all(r->Ok_0, m),
    }
}

/// Whether a text lists all contacts of a memory.
pub open spec fn lists_all(text: Seq<char>, m: NostrMemory) -> bool {
    if m.db is None {
        text == "No contacts in memory yet.\n"@
    } else {
        exists|rows: Seq<SocialNpub>|
            {
                &&& #[trigger] newest_first(m.npubs(), rows)
                &&& lists_contacts(text, contacts_of(rows))
            }
    }
}

/// The contacts after a command on the memory: only a note about a key that reads changes them.
pub open spec fn npubs_after(action: NostrMemoryAction, m: NostrMemory, now: u64) -> Map<
    Seq<char>,
    NpubRow,
> {
    match action {
        NostrMemoryAction::Note { npub, text } => match meant_key(npub@, npub_reading(npub@)) {
            Ok(hex) => noted(m, hex, text@, now),
            Err(_) => m.npubs(),
        },
        _ => m.npubs(),
    }
}

/// The keys of the contacts after a command on the memory, in the order in which they were first met.
pub open spec fn npub_keys_after(action: NostrMemoryAction, m: NostrMemory) -> Seq<Seq<char>> {
    match action {
        NostrMemoryAction::Note { npub, text } => match meant_key(npub@, npub_reading(npub@)) {
            Ok(hex) => if m.db is None {
                m.npub_keys()
            } else {
                key_added(m.npub_keys(), hex)
            },
            Err(_) => m.npub_keys(),
        },
        _ => m.npub_keys(),
    }
}

fn show(hex: &str, memory: &NostrMemory) -> (r: String)
    ensures
        r@ == (match memory.contact(hex@) {
            Some(row) => contact_text(npub_memory_of(row)),
            None => "No memory found for "@ + key_head(hex@) + "\n"@,
        }),
{
    match memory.get_npub(hex, None) {
        Some(m) => show_contact(&m),
        None => after("No memory found for ", head_of(hex).as_str()),
    }
}

fn note(hex: &str, text: &str, memory: &mut NostrMemory, now: u64) -> (r: String)
    ensures
        r@ == "✅ Owner note added for "@ + key_head(hex@) + "\n"@,
        final(memory).npubs() == noted(*old(memory), hex@, text@, now),
        final(memory).groups() == old(memory).groups(),
        final(memory).npub_keys() == (if old(memory).db is None {
            old(memory).npub_keys()
        } else {
            key_added(old(memory).npub_keys(), hex@)
        }),
        final(memory).same_index(old(memory)),
{
    let ghost before = *memory;
    memory.ensure_npub(hex, "unknown", now, None, false);
    memory.add_npub_owner_note(hex, text);
    proof {
        if before.db is Some {
            assert(memory.npubs() =~= noted(before, hex@, text@, now));
        }
    }
    after("✅ Owner note added for ", head_of(hex).as_str())
}

fn list(memory: &NostrMemory) -> (r: String)
    ensures
        lists_all(r@, *memory),
{
    let rows = memory.list_npubs();
    let r = list_contacts(&rows);
    proof {
        if memory.db is None {
            let contacts = contacts_of(rows@);
            let idx = choose|idx: Seq<usize>|
                {
                    &&& #[trigger] ranked(times_of(contacts), contacts.len() as int, idx, true)
                    &&& r@ == contacts_text(arranged(contacts, idx))
                };
            assert(arranged(contacts, idx).len() == 0);
        }
    }
    r
}

/// Runs a command on the memory of contacts and groups. Gives what it prints, or why it fails.
pub fn cmd_memory(action: &NostrMemoryAction, memory: &mut NostrMemory, now: u64) -> (r: Result<
    String,
    String,
>)
    ensures
        memory_answers(*action, *old(memory), result_texts(r)),
        final(memory).npubs() == npubs_after(*action, *old(memory), now),
        final(memory).groups() == old(memory).groups(),
        final(memory).npub_keys() == npub_keys_after(*action, *old(memory)),
        final(memory).same_index(old(memory)),
{
    match action {
        NostrMemoryAction::Show { npub } => match resolve_to_hex(npub.as_str()) {
            Ok(hex) => Ok(show(hex.as_str(), memory)),
            Err(e) => Err(e),
        },
        NostrMemoryAction::Note { npub, text } => match resolve_to_hex(npub.as_str()) {
            Ok(hex) => Ok(note(hex.as_str(), text.as_str(), memory, now)),
            Err(e) => Err(e),
        },
        NostrMemoryAction::Group { group } => match memory.get_group(group.as_str()) {
            Some(g) => Ok(show_group(&g)),
            None => Ok(after("No memory found for group #", group.as_str())),
        },
        NostrMemoryAction::List => Ok(list(memory)),
    }
}

/// A contact is shown with its name, the start of its key, its earlier names and all notes on it, the
/// owner's and the agent's, each under its own heading.
pub proof fn contacts_are_shown(m: NpubMemoryView)
    ensures
        begins_with(
            contact_text(m),
            "📇 Contact: "@ + m.display_name + " ("@ + key_head(m.npub_hex) + ")\n"@,
        ),
        m.name_history.len() > 0 ==> has_substring(
            contact_text(m),
            "   Name history:\n"@ + name_lines(m.name_history),
        ),
        m.owner_notes.len() > 0 ==> has_substring(
            contact_text(m),
            "   Owner notes:\n"@ + lines_of("     - "@, m.owner_notes),
        ),
        m.notes.len() > 0 ==> has_substring(
            contact_text(m),
            "   Agent notes:\n"@ + lines_of("     - "@, m.notes),
        ),
        has_substring(contact_text(m), "First seen: "@ + decimal(m.first_seen as nat)),
        has_substring(contact_text(m), "Last interaction: "@ + decimal(m.last_interaction as nat)),
{
    reveal_strlit(")\n");
    reveal_strlit("First seen: ");
    reveal_strlit("   ");
    reveal_strlit(")\n   First seen: ");
    reveal_strlit("Last interaction: ");
    reveal_strlit("\n   ");
    reveal_strlit("\n   Last interaction: ");
    assert(")\n   First seen: "@ =~= ")\n"@ + "   "@ + "First seen: "@);
    assert("\n   Last interaction: "@ =~= "\n   "@ + "Last interaction: "@);
    let a = "📇 Contact: "@ + m.display_name + " ("@ + key_head(m.npub_hex) + ")\n"@;
    let b = "First seen: "@ + decimal(m.first_seen as nat);
    let g = match m.first_seen_group {
        Some(g) => g,
        None => "(DM)"@,
    };
    let c = "Last interaction: "@ + decimal(m.last_interaction as nat);
    let h = if m.name_history.len() > 0 {
        "   Name history:\n"@ + name_lines(m.name_history)
    } else {
        Seq::empty()
    };
    let o = section("   Owner notes:\n"@, m.owner_notes);
    let n = section("   Agent notes:\n"@, m.notes);
    let ab = a + "   "@;
    let bc = " "@ + g + "\n   "@;
    let x = contact_text(m);
    assert(x =~= ab + b + bc + c + "\n"@ + h + o + n);
    parts_of_contact(ab, b, bc, c, "\n"@, h, o, n);
    let whole = ab + b + bc + c + "\n"@ + h + o + n;
    assert(whole.subrange(0, a.len() as int) =~= a);
}

proof fn parts_of_contact(
    a: Seq<char>,
    b: Seq<char>,
    c: Seq<char>,
    d: Seq<char>,
    e: Seq<char>,
    f: Seq<char>,
    g: Seq<char>,
    h: Seq<char>,
)
    ensures
        ({
            let x = a + b + c + d + e + f + g + h;
            has_substring(x, b) && has_substring(x, d) && has_substring(x, f) && has_substring(x, g)
                && has_substring(x, h)
        }),
{
    let x = a + b + c + d + e + f + g + h;
    assert(x =~= a + b + (c + d + e + f + g + h));
    parts_are_held(a, b, c + d + e + f + g + h);
    assert(x =~= (a + b + c) + d + (e + f + g + h));
    parts_are_held(a + b + c, d, e + f + g + h);
    assert(x =~= (a + b + c + d + e) + f + (g + h));
    parts_are_held(a + b + c + d + e, f, g + h);
    assert(x =~= (a + b + c + d + e + f) + g + h);
    parts_are_held(a + b + c + d + e + f, g, h);
    assert(x =~= (a + b + c + d + e + f + g) + h + Seq::<char>::empty());
    parts_are_held(a + b + c + d + e + f + g, h, Seq::<char>::empty());
}

/// Every earlier name has its line, with its time, in order; of a key its first sixteen characters are
/// shown.
pub proof fn every_name_has_its_line(history: Seq<(u64, Seq<char>)>, t: u64, name: Seq<char>, key: Seq<char>)
    ensures
        name_lines(history.push((t, name))) == name_lines(history) + "     "@ + decimal(t as nat) + ": "@
            + name + "\n"@,
        name_lines(Seq::empty()).len() == 0,
        key.len() <= 16 ==> key_head(key) == key,
        key.len() > 16 ==> key_head(key) == key.take(16),
{
    assert(history.push((t, name)).drop_last() =~= history);
}

/// A group is shown with its purpose where it has one, the number of its members, and its notes.
pub proof fn groups_are_shown(g: GroupMemoryView)
    ensures
        begins_with(group_text(g), "📋 Group: #"@ + g.group_id + "\n"@),
        g.purpose matches Some(p) ==> has_substring(group_text(g), "   Purpose: "@ + p + "\n"@),
        has_substring(group_text(g), "   Members seen: "@ + decimal(g.members_seen.len())),
        has_substring(group_text(g), "\n   Last activity: "@ + decimal(g.last_activity as nat)),
        g.notes.len() > 0 ==> has_substring(
            group_text(g),
            "   Notes:\n"@ + lines_of("     - "@, g.notes),
        ),
{
    let a = "📋 Group: #"@ + g.group_id + "\n"@;
    let p = match g.purpose {
        Some(p) => "   Purpose: "@ + p + "\n"@,
        None => Seq::empty(),
    };
    let m = "   Members seen: "@ + decimal(g.members_seen.len());
    let l = "\n   Last activity: "@ + decimal(g.last_activity as nat);
    let n = section("   Notes:\n"@, g.notes);
    let x = group_text(g);
    assert(x =~= a + p + m + l + "\n"@ + n);
    assert(x.subrange(0, a.len() as int) =~= a);
    let e = Seq::<char>::empty();
    assert(x =~= a + p + e + m + e + l + ("\n"@) + n);
    parts_of_contact(a, p, e, m, e, l, "\n"@, n);
}

/// Every contact has its line in the list, in order, with the number of notes on it where there are
/// any, behind the number of contacts.
pub proof fn every_contact_has_its_line(a: Seq<NpubMemoryView>, m: NpubMemoryView, b: Seq<NpubMemoryView>)
    ensures
        contact_lines(a.push(m) + b) == contact_lines(a) + contact_line(m) + contact_lines(b),
        contact_lines(Seq::empty()).len() == 0,
        m.notes.len() + m.owner_notes.len() > 0 ==> contact_line(m) == "  "@ + m.display_name + " ("@
            + key_head(m.npub_hex) + ")"@ + (" ["@ + decimal(m.notes.len() + m.owner_notes.len())
            + " notes]"@) + "\n"@,
        m.notes.len() + m.owner_notes.len() == 0 ==> contact_line(m) == "  "@ + m.display_name + " ("@
            + key_head(m.npub_hex) + ")"@ + "\n"@,
        contacts_text(a.push(m) + b) == "📇 Known contacts ("@ + decimal((a.push(m) + b).len())
            + "):\n"@ + contact_lines(a.push(m) + b),
        contacts_text(Seq::empty()) == "No contacts in memory yet.\n"@,
    decreases b.len(),
{
    let all = a.push(m) + b;
    if b.len() == 0 {
        assert(all =~= a.push(m));
        assert(all.drop_last() =~= a);
        assert(contact_lines(b) =~= Seq::<char>::empty());
    } else {
        every_contact_has_its_line(a, m, b.drop_last());
        assert(all.drop_last() =~= a.push(m) + b.drop_last());
        assert(all.last() == b.last());
    }
    assert(contact_lines(all) =~= contact_lines(a) + contact_line(m) + contact_lines(b));
    let head = "  "@ + m.display_name + " ("@ + key_head(m.npub_hex) + ")"@;
    assert(head + Seq::<char>::empty() =~= head);
}

/// The owner's note on a contact goes to the end of the owner's notes, whether the contact was known
/// or not; other contacts stay as they are, and a command that does not read changes nothing.
pub proof fn owner_notes_are_kept(
    m: NostrMemory,
    hex: Seq<char>,
    text: Seq<char>,
    now: u64,
    other: Seq<char>,
)
    ensures
        m.db is None ==> noted(m, hex, text, now) == m.npubs(),
        m.db is Some ==> {
            let after = noted(m, hex, text, now);
            &&& after.contains_key(hex)
            &&& other != hex ==> after.contains_key(other) == m.npubs().contains_key(other)
            &&& other != hex && m.npubs().contains_key(other) ==> after[other] == m.npubs()[other]
            &&& m.contact(hex) matches Some(row) ==> after[hex].owner_notes_json == Some(
                json_of_texts(texts_or_empty(row.owner_notes_json).push(text)),
            ) && after[hex].notes_json == row.notes_json && after[hex].first_seen == row.first_seen
            &&& m.contact(hex) is None ==> after[hex].owner_notes_json == Some(
                json_of_texts(Seq::<Seq<char>>::empty().push(text)),
            ) && after[hex].notes_json is None && after[hex].hex_pubkey == hex
            &&& after[hex].last_interaction == now as i64
        },
{
}

/// Only a note changes what is remembered.
pub proof fn looking_changes_nothing(m: NostrMemory, npub: String, group: String, text: String, now: u64)
    ensures
        npubs_after(NostrMemoryAction::Show { npub }, m, now) == m.npubs(),
        npubs_after(NostrMemoryAction::Group { group }, m, now) == m.npubs(),
        npubs_after(NostrMemoryAction::List, m, now) == m.npubs(),
        meant_key(npub@, npub_reading(npub@)) matches Ok(hex) ==> npubs_after(
            NostrMemoryAction::Note { npub, text },
            m,
            now,
        ) == noted(m, hex, text@, now),
        meant_key(npub@, npub_reading(npub@)) is Err ==> npubs_after(
            NostrMemoryAction::Note { npub, text },
            m,
            now,
        ) == m.npubs(),
{
}

/// A command answers with what is remembered of the contact or the group that it names, or says that
/// nothing is; a key that does not read is an error.
pub proof fn commands_answer(
    m: NostrMemory,
    npub: String,
    group: String,
    r: Result<Seq<char>, Seq<char>>,
)
    ensures
        memory_answers(NostrMemoryAction::Show { npub }, m, r) ==> match meant_key(
            npub@,
            npub_reading(npub@),
        ) {
            Ok(hex) => r is Ok && (m.contact(hex) matches Some(row) ==> r->Ok_0 == contact_text(
                npub_memory_of(row),
            )) && (m.contact(hex) is None ==> r->Ok_0 == "No memory found for "@ + key_head(hex)
                + "\n"@),
            Err(e) => r is Err && r->Err_0 == e,
        },
        memory_answers(NostrMemoryAction::Group { group }, m, r) ==> r is Ok && (m.group(
            group@,
        ) matches Some(row) ==> r->Ok_0 == group_text(group_memory_of(row))) && (m.group(group@) is None
            ==> r->Ok_0 == "No memory found for group #"@ + group@ + "\n"@),
{
}

/// The list shows every contact once, those met last first.
pub proof fn contacts_are_listed_by_time(text: Seq<char>, contacts: Seq<NpubMemoryView>)
    requires
        lists_contacts(text, contacts),
        contacts.len() <= usize::MAX,
    ensures
        exists|order: Seq<NpubMemoryView>|
            {
                &&& text == #[trigger] contacts_text(order)
                &&& order.len() == contacts.len()
                &&& forall|m: NpubMemoryView| #[trigger] order.contains(m) <==> contacts.contains(m)
                &&& forall|i: int, j: int|
                    0 <= i < j < order.len() ==> (#[trigger] order[i]).last_interaction >= (
                    #[trigger] order[j]).last_interaction
            },
{
    let idx = choose|idx: Seq<usize>|
        {
            &&& #[trigger] ranked(times_of(contacts), contacts.len() as int, idx, true)
            &&& text == contacts_text(arranged(contacts, idx))
        };
    let keys = times_of(contacts);
    let order = arranged(contacts, idx);
    assert forall|m: NpubMemoryView| #[trigger] order.contains(m) <==> contacts.contains(m) by {
        arranged_holds_the_same(keys, contacts, idx, true, m);
    }
    assert forall|i: int, j: int| 0 <= i < j < order.len() implies (
    #[trigger] order[i]).last_interaction >= (#[trigger] order[j]).last_interaction by {
        numbers_in_order(keys, idx, i, j);
    }
    assert(text == contacts_text(order));
}

/// A note makes its contact known where contacts are kept, behind those already known; no other
/// command, and no command without a store, changes who is known.
pub proof fn notes_make_contacts_known(action: NostrMemoryAction, m: NostrMemory)
    ensures
        m.db is None ==> npub_keys_after(action, m) == m.npub_keys(),
        !(action is Note) ==> npub_keys_after(action, m) == m.npub_keys(),
        m.db is Some ==> (action matches NostrMemoryAction::Note { npub, text } ==> (meant_key(
            npub@,
            npub_reading(npub@),
        ) matches Ok(hex) ==> npub_keys_after(action, m).contains(hex) && (m.npub_keys().contains(hex)
            ==> npub_keys_after(action, m) == m.npub_keys()) && (!m.npub_keys().contains(hex)
            ==> npub_keys_after(action, m).len() == m.npub_keys().len() + 1))),
        npub_keys_after(action, m).len() >= m.npub_keys().len(),
        npub_keys_after(action, m).take(m.npub_keys().len() as int) == m.npub_keys(),
{
    let before = m.npub_keys();
    assert(before.take(before.len() as int) =~= before);
    if let NostrMemoryAction::Note { npub, text } = action {
        if let Ok(hex) = meant_key(npub@, npub_reading(npub@)) {
            let with = before.push(hex);
            assert(with[before.len() as int] == hex);
            assert(with.contains(hex));
            assert(with.take(before.len() as int) =~= before);
        }
    }
}

} // verus!
