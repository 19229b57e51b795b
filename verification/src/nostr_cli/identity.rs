//! The agent's keys and relays.

use super::{lines_of, push_lines};
use crate::config::snowclaw_schema::NostrConfig;
use crate::keys::{
    fresh_secret, hex_key, is_key, key_from_hex, key_of_secret, npub_or_hex, npub_or_hex_text,
    npub_reading, nsec_text, read_npub, secret_key_owner, secret_to_nsec,
};
use crate::text::case::{lowercase, to_lowercase};
use crate::text::pattern::{begins_with, has_substring, parts_are_held, starts_with};
use crate::text::space::{trim, trimmed};
use crate::text::{opt_text, str_eq, texts};
use crate::text_map::TextMap;
use vstd::prelude::*;

verus! {

/// The public key that a user means, given what their text reads as where it is an `npub1` text.
pub open spec fn meant_key(input: Seq<char>, reading: Result<Seq<char>, Seq<char>>) -> Result<
    Seq<char>,
    Seq<char>,
> {
    if begins_with(input, "npub1"@) {
        match reading {
            Ok(k) => Ok(k),
            Err(e) => Err("Invalid npub: "@ + e),
        }
    } else {
        match hex_key(input) {
            Some(k) => Ok(k),
            None => Err("Expected npub1... or 64-char hex pubkey, got: "@ + input),
        }
    }
}

/// The texts of a result.
pub open spec fn result_texts(r: Result<String, String>) -> Result<Seq<char>, Seq<char>> {
    match r {
        Ok(t) => Ok(t@),
        Err(e) => Err(e@),
    }
}

/// The public key that a user means, given what their text reads as where it is an `npub1` text.
pub fn resolve_with(input: &str, reading: Result<String, String>) -> (r: Result<String, String>)
    ensures
        result_texts(r) == meant_key(input@, result_texts(reading)),
{
    if starts_with(input, "npub1") {
        match reading {
            Ok(k) => Ok(k),
            Err(e) => {
                let mut text = String::from_str("Invalid npub: ");
                text.append(e.as_str());
                Err(text)
            },
        }
    } else {
        match key_from_hex(input) {
            Some(k) => Ok(k),
            None => {
                let mut text = String::from_str("Expected npub1... or 64-char hex pubkey, got: ");
                text.append(input);
                Err(text)
            },
        }
    }
}

/// The public key that a user means, in lower-case hex.
pub fn resolve_to_hex(input: &str) -> (r: Result<String, String>)
    ensures
        result_texts(r) == meant_key(input@, npub_reading(input@)),
{
    resolve_with(input, read_npub(input))
}

/// The secret key: the configured one, else that of the environment.
pub open spec fn own_secret(ns: Option<NostrConfig>, env: Option<Seq<char>>) -> Option<Seq<char>> {
    match ns {
        Some(c) => match c.nsec {
            Some(s) => Some(s@),
            None => env,
        },
        None => env,
    }
}

/// The secret key: the configured one, else that of the environment.
pub fn get_nsec_from_config(ns: &Option<NostrConfig>, env: Option<String>) -> (r: Option<String>)
    ensures
        opt_text(r) == own_secret(*ns, opt_text(env)),
{
    match ns {
        Some(c) => match &c.nsec {
            Some(s) => Some(s.clone()),
            None => env,
        },
        None => env,
    }
}

/// Whether a configuration is another with a secret key put in. Where there was none, it is the one
/// that a first key makes: it listens for direct messages, answers when mentioned, and gives twenty
/// messages as context.
pub open spec fn with_secret(
    before: Option<NostrConfig>,
    after: Option<NostrConfig>,
    nsec: Seq<char>,
) -> bool {
    &&& after is Some
    &&& opt_text(after->0.nsec) == Some(nsec)
    &&& match before {
        Some(b) => after->0 == (NostrConfig { nsec: after->0.nsec, ..b }),
        None => {
            let c = after->0;
            &&& c.relays@.len() == 0
            &&& c.groups@.len() == 0
            &&& c.listen_dms
            &&& c.allowed_pubkeys@.len() == 0
            &&& c.respond_mode@ == "mention"@
            &&& c.group_respond_mode@ == Map::<Seq<char>, String>::empty()
            &&& c.mention_names@.len() == 0
            &&& c.owner is None
            &&& c.context_history == 20
        },
    }
}

/// Puts a secret key into the configuration.
pub fn save_nsec_to_config(ns: &mut Option<NostrConfig>, nsec: &str)
    ensures
        with_secret(*old(ns), *final(ns), nsec@),
{
    match ns {
        Some(c) => {
            c.nsec = Some(nsec.to_owned());
        },
        None => {
            *ns = Some(
                NostrConfig {
                    relays: Vec::new(),
                    nsec: Some(nsec.to_owned()),
                    groups: Vec::new(),
                    listen_dms: true,
                    allowed_pubkeys: Vec::new(),
                    respond_mode: "mention".to_owned(),
                    group_respond_mode: TextMap::new(),
                    mention_names: Vec::new(),
                    owner: None,
                    context_history: 20,
                },
            );
        },
    }
}

/// The lines that show a public key.
pub open spec fn key_lines(hex: Seq<char>) -> Seq<char> {
    "  npub: "@ + npub_or_hex_text(hex) + "\n  hex:  "@ + hex + "\n"@
}

fn push_key(out: &mut String, hex: &str)
    ensures
        final(out)@ == old(out)@ + key_lines(hex@),
{
    let ghost before = out@;
    out.append("  npub: ");
    out.append(npub_or_hex(hex).as_str());
    out.append("\n  hex:  ");
    out.append(hex);
    out.append("\n");
    assert(out@ =~= before + key_lines(hex@));
}

/// A new key pair.
#[derive(Debug)]
pub struct NewKeys {
    /// The secret key in its `nsec1` form.
    pub nsec: String,
    /// The public key in hex.
    pub hex: String,
    /// What is shown of the two.
    pub text: String,
}

/// What is shown of a new key pair.
pub open spec fn keygen_text(nsec: Seq<char>, hex: Seq<char>) -> Seq<char> {
    "🔑 New Nostr keypair generated:\n\n  npub: "@ + npub_or_hex_text(hex) + "\n  nsec: "@ + nsec
        + "\n  hex:  "@ + hex + "\n\n"@
}

/// The key pair of a secret key that reads.
pub fn show_new_keys(nsec: String, hex: String) -> (r: NewKeys)
    ensures
        r.nsec@ == nsec@,
        r.hex@ == hex@,
        r.text@ == keygen_text(nsec@, hex@),
{
    let mut text = String::from_str("🔑 New Nostr keypair generated:\n\n  npub: ");
    text.append(npub_or_hex(hex.as_str()).as_str());
    text.append("\n  nsec: ");
    text.append(nsec.as_str());
    text.append("\n  hex:  ");
    text.append(hex.as_str());
    text.append("\n\n");
    NewKeys { nsec, hex, text }
}

/// Makes a new key pair: the public key is that of the secret key, whichever was drawn.
pub fn cmd_keygen() -> (r: NewKeys)
    ensures
        secret_key_owner(r.nsec@) == Some(r.hex@),
        is_key(r.hex@),
        r.text@ == keygen_text(r.nsec@, r.hex@),
{
    let secret = fresh_secret();
    let nsec = match secret_to_nsec(secret.as_str()) {
        Some(n) => n,
        None => secret,
    };
    match key_of_secret(nsec.as_str()) {
        Some(hex) => show_new_keys(nsec, hex),
        None => show_new_keys(nsec, String::new()),
    }
}

/// Whether an answer agrees to save the key: nothing, "y" or "yes", in any letter case.
pub open spec fn agrees(answer: Seq<char>) -> bool {
    let a = lowercase(trimmed(answer));
    a.len() == 0 || a == "y"@ || a == "yes"@
}

/// Whether an answer agrees to save the key.
pub fn wants_saving(answer: &str) -> (r: bool)
    ensures
        r == agrees(answer@),
{
    let a = to_lowercase(trim(answer).as_str());
    proof {
        reveal_strlit("");
        assert(a@.len() == 0 ==> a@ =~= ""@);
    }
    str_eq(a.as_str(), "") || str_eq(a.as_str(), "y") || str_eq(a.as_str(), "yes")
}

/// What is said once the user has answered.
pub fn keygen_closing(nsec: &str, saved: bool) -> (r: String)
    ensures
        r@ == (if saved {
            "✅ Saved to config.\n"@
        } else {
            "Not saved. You can import later with: snowclaw nostr import "@ + nsec@ + "\n"@
        }),
{
    if saved {
        "✅ Saved to config.\n".to_owned()
    } else {
        let mut r = String::from_str("Not saved. You can import later with: snowclaw nostr import ");
        r.append(nsec);
        r.append("\n");
        r
    }
}

/// What is shown of the configured identity, given the public key of its secret key.
pub open spec fn whoami_text(has_secret: bool, owner: Option<Seq<char>>) -> Result<
    Seq<char>,
    Seq<char>,
> {
    match (has_secret, owner) {
        (true, Some(hex)) => Ok("🔑 Nostr identity:\n\n"@ + key_lines(hex)),
        (true, None) => Err("Invalid nsec in config: Invalid secret key"@),
        (false, _) => Ok(
            "No Nostr identity configured.\nRun `snowclaw nostr keygen` or `snowclaw nostr import <nsec>` to set one up.\n"@,
        ),
    }
}

/// The public key of a secret key, if there is one that reads.
pub open spec fn owner_of(secret: Option<Seq<char>>) -> Option<Seq<char>> {
    match secret {
        Some(s) => secret_key_owner(s),
        None => None,
    }
}

/// What is shown of an identity, given the public key of its secret key.
pub fn show_identity(has_secret: bool, owner: Option<String>) -> (r: Result<String, String>)
    ensures
        result_texts(r) == whoami_text(has_secret, opt_text(owner)),
{
    if !has_secret {
        return Ok(
            "No Nostr identity configured.\nRun `snowclaw nostr keygen` or `snowclaw nostr import <nsec>` to set one up.\n".to_owned(),
        );
    }
    match owner {
        Some(hex) => {
            let mut out = String::from_str("🔑 Nostr identity:\n\n");
            push_key(&mut out, hex.as_str());
            Ok(out)
        },
        None => Err("Invalid nsec in config: Invalid secret key".to_owned()),
    }
}

/// Shows the configured identity.
pub fn cmd_whoami(ns: &Option<NostrConfig>, env: Option<String>) -> (r: Result<String, String>)
    ensures
        ({
            let secret = own_secret(*ns, opt_text(env));
            result_texts(r) == whoami_text(secret is Some, owner_of(secret))
        }),
{
    match get_nsec_from_config(ns, env) {
        Some(s) => show_identity(true, key_of_secret(s.as_str())),
        None => show_identity(false, None),
    }
}

/// What is said of an imported key.
pub open spec fn import_text(hex: Seq<char>) -> Seq<char> {
    "✅ Imported Nostr identity:\n\n"@ + key_lines(hex)
}

/// Takes a secret key into the configuration, in its `nsec1` form. One that does not read changes
/// nothing.
pub fn cmd_import(nsec: &str, ns: &mut Option<NostrConfig>) -> (r: Result<String, String>)
    ensures
        match secret_key_owner(nsec@) {
            Some(hex) => {
                &&& r is Ok
                &&& r->Ok_0@ == import_text(hex)
                &&& nsec_text(nsec@) is Some
                &&& with_secret(*old(ns), *final(ns), nsec_text(nsec@)->0)
                &&& secret_key_owner(nsec_text(nsec@)->0) == Some(hex)
            },
            None => {
                &&& r is Err
                &&& r->Err_0@ == "Invalid nsec: Invalid secret key"@
                &&& *final(ns) == *old(ns)
            },
        },
{
    match (key_of_secret(nsec), secret_to_nsec(nsec)) {
        (Some(hex), Some(own)) => {
            save_nsec_to_config(ns, own.as_str());
            let mut out = String::from_str("✅ Imported Nostr identity:\n\n");
            push_key(&mut out, hex.as_str());
            Ok(out)
        },
        _ => Err("Invalid nsec: Invalid secret key".to_owned()),
    }
}

/// The relays of a configuration, if there is one.
pub open spec fn relays_of(ns: Option<NostrConfig>) -> Seq<Seq<char>> {
    match ns {
        Some(c) => texts(c.relays@),
        None => Seq::empty(),
    }
}

/// The list of relays.
pub open spec fn relays_text(relays: Seq<Seq<char>>) -> Seq<char> {
    if relays.len() > 0 {
        "📡 Configured relays:\n\n"@ + lines_of("  "@, relays)
    } else {
        "No relays configured.\nAdd relays to [channels_config.nostr] relays in config.toml\n"@
    }
}

/// Lists the configured relays.
pub fn cmd_relays(ns: &Option<NostrConfig>) -> (r: String)
    ensures
        r@ == relays_text(relays_of(*ns)),
{
    if let Some(c) = ns {
        assert(texts(c.relays@).len() == c.relays@.len());
        if c.relays.len() > 0 {
            let mut out = String::from_str("📡 Configured relays:\n\n");
            push_lines(&mut out, "  ", &c.relays);
            return out;
        }
    }
    "No relays configured.\nAdd relays to [channels_config.nostr] relays in config.toml\n".to_owned()
}

/// Whether there is a secret key at all.
pub fn has_key(ns: &Option<NostrConfig>, env_set: bool) -> (r: bool)
    ensures
        r == ((*ns is Some && ns->0.nsec is Some) || env_set),
{
    match ns {
        Some(c) => c.nsec.is_some() || env_set,
        None => env_set,
    }
}

/// A key is given as an npub or in hex; what does not read is told with what was given.
pub proof fn keys_are_given(input: Seq<char>, k: Seq<char>, e: Seq<char>)
    ensures
        begins_with(input, "npub1"@) ==> meant_key(input, Ok(k)) == Ok::<Seq<char>, Seq<char>>(k),
        begins_with(input, "npub1"@) ==> meant_key(input, Err(e)) == Err::<Seq<char>, Seq<char>>(
            "Invalid npub: "@ + e,
        ),
        !begins_with(input, "npub1"@) ==> (hex_key(input) matches Some(h) ==> meant_key(input, Err(e))
            == Ok::<Seq<char>, Seq<char>>(h)),
        !begins_with(input, "npub1"@) && hex_key(input) is None ==> meant_key(input, Ok(k)) == Err::<
            Seq<char>,
            Seq<char>,
        >("Expected npub1... or 64-char hex pubkey, got: "@ + input),
{
}

/// The secret key of the configuration counts before that of the environment.
pub proof fn own_secrets(ns: NostrConfig, env: Option<Seq<char>>, s: Seq<char>)
    ensures
        own_secret(None, env) == env,
        ns.nsec is None ==> own_secret(Some(ns), env) == env,
        ns.nsec matches Some(n) ==> own_secret(Some(ns), env) == Some(n@),
        owner_of(None) is None,
        owner_of(Some(s)) == secret_key_owner(s),
{
}

/// A secret key that was saved is the one that is used from then on, whatever the environment holds,
/// and the rest of the configuration stays.
pub proof fn saved_secret_counts(
    before: Option<NostrConfig>,
    after: Option<NostrConfig>,
    nsec: Seq<char>,
    env: Option<Seq<char>>,
)
    requires
        with_secret(before, after, nsec),
    ensures
        own_secret(after, env) == Some(nsec),
        before matches Some(b) ==> after->0.relays == b.relays && after->0.groups == b.groups
            && after->0.owner == b.owner && after->0.allowed_pubkeys == b.allowed_pubkeys
            && after->0.respond_mode == b.respond_mode && after->0.context_history == b.context_history
            && after->0.listen_dms == b.listen_dms && after->0.mention_names == b.mention_names
            && after->0.group_respond_mode == b.group_respond_mode,
        before is None ==> after->0.owner is None && after->0.relays@.len() == 0
            && after->0.allowed_pubkeys@.len() == 0 && after->0.listen_dms && after->0.context_history
            == 20,
{
}

/// An answer agrees if it is yes, in any letter case, or nothing.
pub proof fn who_agrees(answer: Seq<char>)
    ensures
        lowercase(trimmed(answer)).len() == 0 ==> agrees(answer),
        lowercase(trimmed(answer)) == "y"@ || lowercase(trimmed(answer)) == "yes"@ ==> agrees(answer),
        lowercase(trimmed(answer)).len() > 0 && lowercase(trimmed(answer)) != "y"@ && lowercase(
            trimmed(answer),
        ) != "yes"@ ==> !agrees(answer),
{
}

/// What is shown of an identity: its key in both forms; where there is none, that there is none; where
/// it does not read, that it does not. New keys are shown with their secret.
pub proof fn identities_are_shown(hex: Seq<char>, nsec: Seq<char>)
    ensures
        has_substring(key_lines(hex), npub_or_hex_text(hex)),
        has_substring(key_lines(hex), "\n  hex:  "@ + hex + "\n"@),
        whoami_text(true, Some(hex)) == Ok::<Seq<char>, Seq<char>>(
            "🔑 Nostr identity:\n\n"@ + key_lines(hex),
        ),
        whoami_text(true, None) is Err,
        whoami_text(false, None) is Ok && whoami_text(false, Some(hex)) is Ok,
        whoami_text(false, Some(hex)) == whoami_text(false, None),
        import_text(hex) == "✅ Imported Nostr identity:\n\n"@ + key_lines(hex),
        has_substring(keygen_text(nsec, hex), "\n  nsec: "@ + nsec + "\n  hex:  "@ + hex + "\n\n"@),
        has_substring(keygen_text(nsec, hex), npub_or_hex_text(hex)),
{
    let n = npub_or_hex_text(hex);
    let h = "\n  hex:  "@ + hex + "\n"@;
    assert(key_lines(hex) =~= "  npub: "@ + n + h);
    parts_are_held("  npub: "@, n, h);
    assert(key_lines(hex) =~= ("  npub: "@ + n) + h + Seq::<char>::empty());
    parts_are_held("  npub: "@ + n, h, Seq::<char>::empty());
    let a = "🔑 New Nostr keypair generated:\n\n  npub: "@;
    let s = "\n  nsec: "@ + nsec + "\n  hex:  "@ + hex + "\n\n"@;
    let t = keygen_text(nsec, hex);
    assert(t =~= a + n + s);
    parts_are_held(a, n, s);
    assert(t =~= (a + n) + s + Seq::<char>::empty());
    parts_are_held(a + n, s, Seq::<char>::empty());
}

/// The relays are listed, each on its line.
pub proof fn relays_are_listed(ns: NostrConfig, relays: Seq<Seq<char>>)
    ensures
        relays_of(Some(ns)) == texts(ns.relays@),
        relays_of(None).len() == 0,
        relays.len() > 0 ==> relays_text(relays) == "📡 Configured relays:\n\n"@ + lines_of(
            "  "@,
            relays,
        ),
        relays.len() == 0 ==> begins_with(relays_text(relays), "No relays configured.\n"@),
{
    reveal_strlit("No relays configured.\n");
    reveal_strlit(
        "No relays configured.\nAdd relays to [channels_config.nostr] relays in config.toml\n",
    );
    let t =
        "No relays configured.\nAdd relays to [channels_config.nostr] relays in config.toml\n"@;
    assert(t.subrange(0, 22) =~= "No relays configured.\n"@);
}

} // verus!
