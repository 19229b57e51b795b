//! The commands that manage the agent's Nostr identity, settings, contacts and profile.

use vstd::prelude::*;

pub mod contacts;
pub mod identity;
pub mod profile;
pub mod settings;

verus! {

/// A command of the Nostr part.
#[allow(inconsistent_fields)]
#[derive(Debug)]
pub enum NostrCommands {
    /// Makes a new key pair.
    Keygen,
    /// Shows the configured identity.
    Whoami,
    /// Takes an existing secret key into the configuration.
    Import { nsec: String },
    /// Lists the configured relays.
    Relays,
    /// Manages the settings that are published on the relays.
    Config { action: NostrConfigAction },
    /// Shows and manages what is remembered of contacts and groups.
    Memory { action: NostrMemoryAction },
    /// Publishes the profile.
    Profile {
        name: Option<String>,
        about: Option<String>,
        picture: Option<String>,
        nip05: Option<String>,
    },
    /// Makes a key, sets the profile and shows the relays, asking on the way.
    Onboard,
}

/// What is done to the published settings.
#[derive(Debug)]
pub enum NostrConfigAction {
    /// Sets them for a group or for all.
    Put {
        group: Option<String>,
        global: bool,
        respond_mode: Option<String>,
        context_history: Option<usize>,
    },
    /// Shows them.
    Get { group: Option<String> },
}

/// What is done to the memory of contacts and groups.
#[derive(Debug)]
pub enum NostrMemoryAction {
    /// Shows a contact.
    Show { npub: String },
    /// Adds an owner's note about a contact.
    Note { npub: String, text: String },
    /// Shows a group.
    Group { group: String },
    /// Lists the contacts.
    List,
}

/// The lines of items, each after a prefix.
pub open spec fn lines_of(prefix: Seq<char>, items: Seq<Seq<char>>) -> Seq<char>
    decreases items.len(),
{
    if items.len() == 0 {
        Seq::empty()
    } else {
        lines_of(prefix, items.drop_last()) + prefix + items.last() + "\n"@
    }
}

/// Adds the lines of items, each after a prefix.
pub fn push_lines(out: &mut String, prefix: &str, items: &Vec<String>)
    ensures
        final(out)@ == old(out)@ + lines_of(prefix@, crate::text::texts(items@)),
{
    let ghost start = out@;
    let ghost all = crate::text::texts(items@);
    let mut i: usize = 0;
    assert(all.take(0).len() == 0);
    assert(out@ =~= start + lines_of(prefix@, all.take(0)));
    while i < items.len()
        invariant
            i <= items@.len(),
            all == crate::text::texts(items@),
            out@ == start + lines_of(prefix@, all.take(i as int)),
        decreases items.len() - i,
    {
        out.append(prefix);
        out.append(items[i].as_str());
        out.append("\n");
        proof {
            assert(all.take(i + 1).drop_last() =~= all.take(i as int));
            assert(all.take(i + 1).last() == all[i as int]);
            assert(out@ =~= start + lines_of(prefix@, all.take(i + 1)));
        }
        i = i + 1;
    }
    assert(all.take(i as int) =~= all);
}

/// Every item has its line, behind the prefix, in order.
pub proof fn every_item_has_its_line(prefix: Seq<char>, a: Seq<Seq<char>>, x: Seq<char>, b: Seq<Seq<char>>)
    ensures
        lines_of(prefix, a.push(x) + b) == lines_of(prefix, a) + (prefix + x + "\n"@) + lines_of(
            prefix,
            b,
        ),
        lines_of(prefix, Seq::empty()).len() == 0,
    decreases b.len(),
{
    let all = a.push(x) + b;
    if b.len() == 0 {
        assert(all =~= a.push(x));
        assert(all.drop_last() =~= a);
        assert(lines_of(prefix, b) =~= Seq::<char>::empty());
    } else {
        every_item_has_its_line(prefix, a, x, b.drop_last());
        assert(all.drop_last() =~= a.push(x) + b.drop_last());
        assert(all.last() == b.last());
    }
    assert(lines_of(prefix, all) =~= lines_of(prefix, a) + (prefix + x + "\n"@) + lines_of(prefix, b));
}

} // verus!
