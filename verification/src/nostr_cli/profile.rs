//! The profile that the agent publishes.

use super::identity::{get_nsec_from_config, own_secret};
use crate::channels::event::{lone_tag, pair_tag, tag_texts, DraftView, EventDraft};
use crate::channels::nostr::profile::field;
use crate::config::snowclaw_schema::NostrConfig;
use crate::json::json_field;
use crate::keys::{key_of_secret, npub_or_hex, npub_or_hex_text, parse_key, parsed_key, secret_key_owner};
use crate::text::space::{trim, trimmed};
use crate::text::{opt_text, str_eq};
use nostr_sdk::{JsonUtil, Metadata, Url};
use vstd::prelude::*;

verus! {

/// An address in its normal form, or what is wrong with it.
pub uninterp spec fn url_reading(s: Seq<char>) -> Result<Seq<char>, Seq<char>>;

/// Calls `Url::parse`. The address as it is written back, or the text of the error, is named.
#[verifier::external_body]
fn read_url(s: &str) -> (r: Result<String, String>)
    ensures
        match r {
            Ok(u) => url_reading(s@) == Ok::<Seq<char>, Seq<char>>(u@),
            Err(e) => url_reading(s@) == Err::<Seq<char>, Seq<char>>(e@),
        },
{
    Url::parse(s).map(|u| u.to_string()).map_err(|e| e.to_string())
}

/// The JSON text of a profile.
pub uninterp spec fn metadata_json(
    name: Option<Seq<char>>,
    display_name: Option<Seq<char>>,
    about: Option<Seq<char>>,
    picture: Option<Seq<char>>,
    nip05: Option<Seq<char>>,
) -> Seq<char>;

/// Calls `Metadata::as_json` on a profile with these fields and no others. The text is named; it is
/// JSON in which each field reads back as it was given.
#[verifier::external_body]
fn write_metadata(
    name: &Option<String>,
    display_name: &Option<String>,
    about: &Option<String>,
    picture: &Option<String>,
    nip05: &Option<String>,
) -> (r: String)
    ensures
        r@ == metadata_json(
            opt_text(*name),
            opt_text(*display_name),
            opt_text(*about),
            opt_text(*picture),
            opt_text(*nip05),
        ),
        json_field(r@, "name"@) == Some(opt_text(*name)),
        json_field(r@, "display_name"@) == Some(opt_text(*display_name)),
        json_field(r@, "about"@) == Some(opt_text(*about)),
        json_field(r@, "picture"@) == Some(opt_text(*picture)),
        json_field(r@, "nip05"@) == Some(opt_text(*nip05)),
{
    let mut m = Metadata::new();
    m.name = name.clone();
    m.display_name = display_name.clone();
    m.about = about.clone();
    m.picture = picture.clone();
    m.nip05 = nip05.clone();
    m.as_json()
}

/// Why a profile is not published.
#[derive(Debug)]
pub enum ProfileError {
    /// There is no configuration.
    NotConfigured,
    /// There is no secret key.
    NoSecret,
    /// The secret key does not read.
    BadSecret,
    /// The picture's address does not read.
    BadPicture(String),
    /// The owner's key does not read.
    BadOwner,
}

/// A profile event that is ready to be signed.
#[derive(Debug)]
pub struct ProfileDraft {
    pub draft: EventDraft,
    /// The agent's own key in its `npub1` form.
    pub npub: String,
}

/// The picture of a profile, in its normal form.
pub open spec fn picture_of(picture: Option<Seq<char>>) -> Option<Seq<char>> {
    match picture {
        Some(p) => match url_reading(p) {
            Ok(u) => Some(u),
            Err(_) => None,
        },
        None => None,
    }
}

/// The profile event: it is marked as a bot's, and with the owner where one is configured. The name
/// is both the name and the display name.
pub open spec fn profile_event(
    name: Option<Seq<char>>,
    about: Option<Seq<char>>,
    picture: Option<Seq<char>>,
    nip05: Option<Seq<char>>,
    owner: Option<Seq<char>>,
) -> DraftView {
    DraftView {
        kind: 0,
        tags: match owner {
            Some(k) => seq![seq!["bot"@], seq!["p"@, k]],
            None => seq![seq!["bot"@]],
        },
        content: metadata_json(name, name, about, picture, nip05),
    }
}

/// The owner's key, if one is configured and reads.
pub open spec fn owner_key(ns: NostrConfig) -> Option<Seq<char>> {
    match ns.owner {
        Some(o) => parsed_key(o@),
        None => None,
    }
}

/// Whether a picture's address reads, or there is none.
pub open spec fn picture_reads(picture: Option<Seq<char>>) -> bool {
    picture matches Some(p) ==> url_reading(p) is Ok
}

fn profile_draft(
    name: &Option<String>,
    about: &Option<String>,
    picture: &Option<String>,
    nip05: &Option<String>,
    owner: &Option<String>,
) -> (r: EventDraft)
    ensures
        r@ == profile_event(
            opt_text(*name),
            opt_text(*about),
            opt_text(*picture),
            opt_text(*nip05),
            opt_text(*owner),
        ),
        field(r.content@, "name"@) == opt_text(*name),
        field(r.content@, "display_name"@) == opt_text(*name),
        field(r.content@, "about"@) == opt_text(*about),
        field(r.content@, "picture"@) == opt_text(*picture),
        field(r.content@, "nip05"@) == opt_text(*nip05),
{
    let content = write_metadata(name, name, about, picture, nip05);
    let mut tags: Vec<Vec<String>> = Vec::new();
    tags.push(lone_tag("bot"));
    if let Some(k) = owner {
        tags.push(pair_tag("p", k.as_str()));
        assert(tag_texts(tags@) =~= seq![seq!["bot"@], seq!["p"@, k@]]);
    } else {
        assert(tag_texts(tags@) =~= seq![seq!["bot"@]]);
    }
    EventDraft { kind: 0, tags, content }
}

/// Prepares the profile event.
pub fn cmd_profile(
    name: &Option<String>,
    about: &Option<String>,
    picture: &Option<String>,
    nip05: &Option<String>,
    ns: &Option<NostrConfig>,
    env: Option<String>,
) -> (r: Result<ProfileDraft, ProfileError>)
    ensures
        ({
            let secret = own_secret(*ns, opt_text(env));
            let shown = picture_of(opt_text(*picture));
            if *ns is None {
                r is Err && r->Err_0 is NotConfigured
            } else if secret is None {
                r is Err && r->Err_0 is NoSecret
            } else if secret_key_owner(secret->0) is None {
                r is Err && r->Err_0 is BadSecret
            } else if !picture_reads(opt_text(*picture)) {
                &&& r is Err
                &&& r->Err_0 matches ProfileError::BadPicture(e)
                &&& url_reading(picture->0@) == Err::<Seq<char>, Seq<char>>(e@)
            } else if ns->0.owner is Some && owner_key(ns->0) is None {
                r is Err && r->Err_0 is BadOwner
            } else {
                let content = r->Ok_0.draft.content@;
                &&& r is Ok
                &&& r->Ok_0.draft@ == profile_event(
                    opt_text(*name),
                    opt_text(*about),
                    shown,
                    opt_text(*nip05),
                    owner_key(ns->0),
                )
                &&& r->Ok_0.npub@ == npub_or_hex_text(secret_key_owner(secret->0)->0)
                &&& field(content, "name"@) == opt_text(*name)
                &&& field(content, "display_name"@) == opt_text(*name)
                &&& field(content, "about"@) == opt_text(*about)
                &&& field(content, "picture"@) == shown
                &&& field(content, "nip05"@) == opt_text(*nip05)
            }
        }),
{
    let secret = get_nsec_from_config(ns, env);
    let c = match ns {
        Some(c) => c,
        None => return Err(ProfileError::NotConfigured),
    };
    let secret = match secret {
        Some(s) => s,
        None => return Err(ProfileError::NoSecret),
    };
    let own = match key_of_secret(secret.as_str()) {
        Some(k) => k,
        None => return Err(ProfileError::BadSecret),
    };
    let shown: Option<String> = match picture {
        Some(p) => match read_url(p.as_str()) {
            Ok(u) => Some(u),
            Err(e) => return Err(ProfileError::BadPicture(e)),
        },
        None => None,
    };
    let owner: Option<String> = match &c.owner {
        Some(o) => match parse_key(o.as_str()) {
            Some(k) => Some(k),
            None => return Err(ProfileError::BadOwner),
        },
        None => None,
    };
    let draft = profile_draft(name, about, &shown, nip05, &owner);
    Ok(ProfileDraft { draft, npub: npub_or_hex(own.as_str()) })
}

/// A line of what is said of a profile.
pub open spec fn said(label: Seq<char>, value: Option<Seq<char>>) -> Seq<char> {
    match value {
        Some(v) => label + v + "\n"@,
        None => Seq::empty(),
    }
}

fn push_said(out: &mut String, label: &str, value: &Option<String>)
    ensures
        final(out)@ == old(out)@ + said(label@, opt_text(*value)),
{
    let ghost before = out@;
    if let Some(v) = value {
        out.append(label);
        out.append(v.as_str());
        out.append("\n");
    }
    assert(out@ =~= before + said(label@, opt_text(*value)));
}

/// What is said of a published profile.
pub fn profile_published(
    npub: &str,
    name: &Option<String>,
    about: &Option<String>,
    picture: &Option<String>,
    nip05: &Option<String>,
    event_id: &str,
) -> (r: String)
    ensures
        r@ == "✅ Profile published!\n   npub: "@ + npub@ + "\n"@ + said(
            "   name: "@,
            opt_text(*name),
        ) + said("   about: "@, opt_text(*about)) + said("   picture: "@, opt_text(*picture)) + said(
            "   nip05: "@,
            opt_text(*nip05),
        ) + "   event: "@ + event_id@ + "\n"@,
{
    let mut out = String::from_str("✅ Profile published!\n   npub: ");
    out.append(npub);
    out.append("\n");
    push_said(&mut out, "   name: ", name);
    push_said(&mut out, "   about: ", about);
    push_said(&mut out, "   picture: ", picture);
    push_said(&mut out, "   nip05: ", nip05);
    out.append("   event: ");
    out.append(event_id);
    out.append("\n");
    out
}

/// An answer without the blanks around it, or a standard one where it is blank.
pub open spec fn answer_or(answer: Seq<char>, standard: Seq<char>) -> Seq<char> {
    if trimmed(answer).len() == 0 {
        standard
    } else {
        trimmed(answer)
    }
}

fn answered(answer: &str) -> (r: Option<String>)
    ensures
        opt_text(r) == (if trimmed(answer@).len() == 0 {
            None
        } else {
            Some(trimmed(answer@))
        }),
{
    let t = trim(answer);
    proof {
        reveal_strlit("");
        assert(t@.len() == 0 ==> t@ =~= ""@);
    }
    if str_eq(t.as_str(), "") {
        None
    } else {
        Some(t)
    }
}

/// The display name that a new user chooses.
pub fn chosen_name(answer: &str) -> (r: String)
    ensures
        r@ == answer_or(answer@, "Snowclaw❄️"@),
{
    match answered(answer) {
        Some(t) => t,
        None => "Snowclaw❄️".to_owned(),
    }
}

/// The description that a new user chooses.
pub fn chosen_about(answer: &str) -> (r: String)
    ensures
        r@ == answer_or(answer@, "Nostr-native AI agent 🏔️"@),
{
    match answered(answer) {
        Some(t) => t,
        None => "Nostr-native AI agent 🏔️".to_owned(),
    }
}

/// The picture that a new user chooses, if any.
pub fn chosen_picture(answer: &str) -> (r: Option<String>)
    ensures
        opt_text(r) == (if trimmed(answer@).len() == 0 {
            None
        } else {
            Some(trimmed(answer@))
        }),
{
    answered(answer)
}

/// The profile that is published: a bot's, with its owner where there is one, and with one name for
/// both of its names.
pub proof fn profiles_are_published(
    name: Option<Seq<char>>,
    about: Option<Seq<char>>,
    picture: Option<Seq<char>>,
    nip05: Option<Seq<char>>,
    owner: Seq<char>,
)
    ensures
        ({
            let e = profile_event(name, about, picture, nip05, Some(owner));
            &&& e.kind == 0
            &&& e.tags.contains(seq!["bot"@])
            &&& e.tags.contains(seq!["p"@, owner])
            &&& e.content == metadata_json(name, name, about, picture, nip05)
        }),
        ({
            let e = profile_event(name, about, picture, nip05, None);
            &&& e.kind == 0
            &&& e.tags == seq![seq!["bot"@]]
            &&& e.content == metadata_json(name, name, about, picture, nip05)
        }),
{
    let e = profile_event(name, about, picture, nip05, Some(owner));
    assert(e.tags[0] == seq!["bot"@]);
    assert(e.tags[1] == seq!["p"@, owner]);
}

/// A picture is shown at the address that it reads as; an owner is the key that it reads as; and an
/// answer that is left blank is the usual one.
pub proof fn answers_are_read(p: Seq<char>, ns: NostrConfig, answer: Seq<char>, usual: Seq<char>)
    ensures
        picture_of(None) is None,
        url_reading(p) matches Ok(u) ==> picture_of(Some(p)) == Some(u) && picture_reads(Some(p)),
        url_reading(p) is Err ==> picture_of(Some(p)) is None && !picture_reads(Some(p)),
        picture_reads(None),
        ns.owner is None ==> owner_key(ns) is None,
        ns.owner matches Some(o) ==> owner_key(ns) == parsed_key(o@),
        trimmed(answer).len() == 0 ==> answer_or(answer, usual) == usual,
        trimmed(answer).len() > 0 ==> answer_or(answer, usual) == trimmed(answer),
        said(usual, None).len() == 0,
        said(usual, Some(p)) == usual + p + "\n"@,
{
}

} // verus!
