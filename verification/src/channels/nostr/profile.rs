//! Names and profiles of contacts.

use super::channel::NostrChannel;
use super::format::{key_ends, short_key};
use crate::channels::nostr_memory::ProfileMetadata;
use crate::json::{json_field, read_field};
use crate::keys::{is_key, key_to_npub, npub_text};
use crate::text::{ascii_byte_take, opt_str, opt_text};
use vstd::prelude::*;

verus! {

/// The text under a key of a JSON value, where there is one.
pub open spec fn field(json: Seq<char>, key: Seq<char>) -> Option<Seq<char>> {
    match json_field(json, key) {
        Some(f) => f,
        None => None,
    }
}

/// The text under a key of a JSON value, where there is one.
pub fn text_field(json: &str, key: &str) -> (r: Option<String>)
    ensures
        opt_text(r) == field(json@, key@),
{
    match read_field(json, key) {
        Some(f) => f,
        None => None,
    }
}

/// Whether a profile says what the JSON text of a profile event does.
pub open spec fn profile_says(p: ProfileMetadata, json: Seq<char>, now: u64) -> bool {
    &&& opt_text(p.name) == field(json, "name"@)
    &&& opt_text(p.display_name) == field(json, "display_name"@)
    &&& opt_text(p.about) == field(json, "about"@)
    &&& opt_text(p.picture) == field(json, "picture"@)
    &&& opt_text(p.nip05) == field(json, "nip05"@)
    &&& opt_text(p.lud16) == field(json, "lud16"@)
    &&& p.fetched_at == now
}

/// The profile that a profile event carries; none where its content is no JSON.
pub fn read_profile(content: &str, now: u64) -> (r: Option<ProfileMetadata>)
    ensures
        match r {
            Some(p) => json_field(content@, "display_name"@) is Some && profile_says(
                p,
                content@,
                now,
            ),
            None => json_field(content@, "display_name"@) is None,
        },
{
    match read_field(content, "display_name") {
        Some(display_name) => Some(
            ProfileMetadata {
                name: text_field(content, "name"),
                display_name,
                about: text_field(content, "about"),
                picture: text_field(content, "picture"),
                nip05: text_field(content, "nip05"),
                lud16: text_field(content, "lud16"),
                fetched_at: now,
            },
        ),
        None => None,
    }
}

/// The name shown for a contact: the profile's display name, else its name, else the ends of the
/// key.
pub open spec fn shown_name(display: Option<Seq<char>>, name: Option<Seq<char>>, key: Seq<char>) -> Seq<
    char,
> {
    match display {
        Some(d) => d,
        None => match name {
            Some(n) => n,
            None => key_ends(npub_text(key)),
        },
    }
}

/// The name shown for a contact whose profile event holds `content`.
pub open spec fn name_from(content: Option<Seq<char>>, key: Seq<char>) -> Seq<char> {
    match content {
        Some(c) => match json_field(c, "display_name"@) {
            Some(display) => shown_name(display, field(c, "name"@), key),
            None => shown_name(None, None, key),
        },
        None => shown_name(None, None, key),
    }
}

/// The name shown for a key whose profile is not known.
pub fn fallback_name(key: &str) -> (r: String)
    requires
        is_key(key@),
    ensures
        r@ == key_ends(npub_text(key@)),
        r@.len() == 17,
{
    match key_to_npub(key) {
        Some(npub) => {
            proof {
                ascii_byte_take(npub@, 10);
                ascii_byte_take(npub@, 59);
                reveal_strlit("...");
            }
            short_key(npub.as_str())
        },
        None => String::new(),
    }
}

impl NostrChannel {
    /// The name that is kept for a key.
    pub open spec fn known_name(&self, key: Seq<char>) -> Option<Seq<char>> {
        if self.names@.contains_key(key) {
            Some(self.names@[key]@)
        } else {
            None
        }
    }

    /// The name that is kept for a key.
    pub fn cached_name(&self, pubkey: &str) -> (r: Option<String>)
        ensures
            opt_text(r) == self.known_name(pubkey@),
    {
        match self.names.get(pubkey) {
            Some(n) => Some(n.clone()),
            None => None,
        }
    }

    /// The name of a contact, and its profile where one came in. A name that is kept is used as it
    /// is; else it is taken from the content of the profile event, if there was one, and kept.
    pub fn resolve_name(&mut self, pubkey: &str, content: Option<&str>, now: u64) -> (r: (
        String,
        Option<ProfileMetadata>,
    ))
        requires
            is_key(pubkey@),
        ensures
            match old(self).known_name(pubkey@) {
                Some(n) => r.0@ == n && r.1 is None && final(self).names == old(self).names,
                None => {
                    let c = opt_str(content);
                    &&& r.0@ == name_from(c, pubkey@)
                    &&& r.1 is Some == (c is Some && json_field(c->0, "display_name"@) is Some)
                    &&& r.1 is Some ==> profile_says(r.1->0, c->0, now)
                    &&& final(self).names@.remove(pubkey@) == old(self).names@.remove(pubkey@)
                },
            },
            final(self).known_name(pubkey@) == Some(r.0@),
            final(self).config == old(self).config,
            final(self).dynamic == old(self).dynamic,
            final(self).history == old(self).history,
            final(self).event_cache == old(self).event_cache,
            final(self).owner_verified == old(self).owner_verified,
    {
        if let Some(n) = self.cached_name(pubkey) {
            return (n, None);
        }
        let profile = match content {
            Some(c) => read_profile(c, now),
            None => None,
        };
        let name = match &profile {
            Some(p) => match &p.display_name {
                Some(d) => d.clone(),
                None => match &p.name {
                    Some(n) => n.clone(),
                    None => fallback_name(pubkey),
                },
            },
            None => fallback_name(pubkey),
        };
        let ghost before = self.names@;
        self.names.insert(pubkey.to_owned(), name.clone());
        assert(self.names@.remove(pubkey@) =~= before.remove(pubkey@));
        (name, profile)
    }
}

/// A contact goes by the display name of its profile, else by its name, else by the ends of its key.
pub proof fn contacts_have_names(content: Seq<char>, key: Seq<char>, n: Seq<char>)
    ensures
        json_field(content, "display_name"@) == Some(Some(n)) ==> name_from(Some(content), key) == n,
        json_field(content, "display_name"@) == Some(None::<Seq<char>>) && json_field(
            content,
            "name"@,
        ) == Some(Some(n)) ==> name_from(Some(content), key) == n,
        json_field(content, "display_name"@) == Some(None::<Seq<char>>) && json_field(
            content,
            "name"@,
        ) == Some(None::<Seq<char>>) ==> name_from(Some(content), key) == key_ends(npub_text(key)),
        json_field(content, "display_name"@) is None ==> name_from(Some(content), key) == key_ends(
            npub_text(key),
        ),
        name_from(None, key) == key_ends(npub_text(key)),
{
}

/// A profile is read field by field.
pub proof fn profiles_are_read(p: ProfileMetadata, json: Seq<char>, now: u64, t: Seq<char>)
    requires
        profile_says(p, json, now),
    ensures
        json_field(json, "name"@) == Some(Some(t)) ==> opt_text(p.name) == Some(t),
        json_field(json, "display_name"@) == Some(Some(t)) ==> opt_text(p.display_name) == Some(t),
        json_field(json, "about"@) == Some(Some(t)) ==> opt_text(p.about) == Some(t),
        json_field(json, "picture"@) == Some(Some(t)) ==> opt_text(p.picture) == Some(t),
        json_field(json, "nip05"@) == Some(Some(t)) ==> opt_text(p.nip05) == Some(t),
        json_field(json, "lud16"@) == Some(Some(t)) ==> opt_text(p.lud16) == Some(t),
        json_field(json, "name"@) == Some(None::<Seq<char>>) ==> p.name is None,
        p.fetched_at == now,
        json_field(json, t) is None ==> field(json, t) is None,
{
}

} // verus!
