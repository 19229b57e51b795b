//! Under which tier a memory is stored where only its category and session are known.
//!
//! A category may name the tier itself. Where it does not, the memory stays personal: a session id
//! says nothing about the scope, and gives a hint about the channel at most.

use super::traits::{CategoryView, MemoryCategory};
use crate::text::case::{ascii_lower, to_ascii_lowercase};
use crate::text::pattern::{begins_with, differs_at, starts_with, strip_prefix};
use crate::text::space::{is_blank, trim, trimmed};
use crate::text::{from_chars, opt_str, opt_text, str_eq, to_chars};
use vstd::prelude::*;

verus! {

/// The tier under which a memory is stored.
#[derive(Debug, PartialEq, Eq)]
pub struct StorePolicy {
    /// The tier.
    pub tier: String,
    /// The channel that the session id hints at.
    pub channel_hint: Option<String>,
    /// Why the tier could not be told from what is known.
    pub limitation: Option<&'static str>,
}

/// Why the tier could not be told.
pub open spec fn trait_limitation() -> Seq<char> {
    "Snowclaw Memory::store lacks canonical runtime scope/channel context; session_id is only treated as an opaque compatibility hint"@
}

/// Whether a tier names a scope behind `prefix`.
pub open spec fn is_scoped(tier: Seq<char>, prefix: Seq<char>) -> bool {
    begins_with(tier, prefix) && trimmed(tier.skip(prefix.len() as int)).len() > 0
}

/// The tier that a custom category names, in lower case: a visibility, or a group or circle with its
/// scope.
pub open spec fn custom_tier(name: Seq<char>) -> Option<Seq<char>> {
    let n = ascii_lower(trimmed(name));
    if n == "public"@ || n == "personal"@ || n == "internal"@ || is_scoped(n, "group:"@)
        || is_scoped(n, "circle:"@) {
        Some(n)
    } else {
        None
    }
}

/// The tier that a category names.
pub open spec fn category_tier(c: CategoryView) -> Option<Seq<char>> {
    match c {
        CategoryView::Custom(name) => custom_tier(name),
        _ => None,
    }
}

/// What stands before the first colon or underscore.
pub open spec fn head(s: Seq<char>) -> Seq<char>
    decreases s.len(),
{
    if s.len() == 0 || s[0] == ':' || s[0] == '_' {
        Seq::empty()
    } else {
        seq![s[0]] + head(s.skip(1))
    }
}

/// Whether a word stands for a session, not for a channel.
pub open spec fn is_session_word(w: Seq<char>) -> bool {
    w == "sess"@ || w == "session"@
}

/// The channel that a session id hints at: its first part in lower case, unless that stands for a
/// session.
pub open spec fn channel_hint(session_id: Option<Seq<char>>) -> Option<Seq<char>> {
    match session_id {
        None => None,
        Some(s) => {
            let sid = trimmed(s);
            let lower = ascii_lower(sid);
            let part = trimmed(head(sid));
            if sid.len() == 0 || is_session_word(lower) || begins_with(lower, "sess-"@)
                || begins_with(lower, "session-"@) || part.len() == 0 || is_session_word(
                ascii_lower(part),
            ) {
                None
            } else {
                Some(ascii_lower(part))
            }
        },
    }
}

fn has_scoped_prefix(value: &str, prefix: &str) -> (r: bool)
    ensures
        r == is_scoped(value@, prefix@),
{
    match strip_prefix(value, prefix) {
        Some(rest) => !is_blank(rest.as_str()),
        None => false,
    }
}

fn canonicalize_custom_tier(name: &str) -> (r: Option<String>)
    ensures
        opt_text(r) == custom_tier(name@),
{
    let n = to_ascii_lowercase(trim(name).as_str());
    if str_eq(n.as_str(), "public") || str_eq(n.as_str(), "personal") || str_eq(
        n.as_str(),
        "internal",
    ) || has_scoped_prefix(n.as_str(), "group:") || has_scoped_prefix(n.as_str(), "circle:") {
        Some(n)
    } else {
        None
    }
}

fn canonical_tier_from_category(category: &MemoryCategory) -> (r: Option<String>)
    ensures
        opt_text(r) == category_tier(category@),
{
    match category {
        MemoryCategory::Custom(name) => canonicalize_custom_tier(name.as_str()),
        _ => None,
    }
}

fn first_part(s: &str) -> (r: String)
    ensures
        r@ == head(s@),
{
    let cs = to_chars(s);
    let ghost all = s@;
    let mut i: usize = 0;
    proof {
        assert(all.skip(0) =~= all);
        assert(head(all) =~= all.take(0) + head(all.skip(0)));
    }
    while i < cs.len() && cs[i] != ':' && cs[i] != '_'
        invariant
            i <= cs@.len(),
            cs@ == all,
            head(all) == all.take(i as int) + head(all.skip(i as int)),
        decreases cs.len() - i,
    {
        proof {
            let rest = all.skip(i as int);
            assert(rest[0] == all[i as int]);
            assert(rest.skip(1) =~= all.skip(i + 1));
            assert(all.take(i + 1) + head(all.skip(i + 1)) =~= all.take(i as int) + (
            seq![rest[0]] + head(rest.skip(1))));
        }
        i = i + 1;
    }
    proof {
        let rest = all.skip(i as int);
        if i < cs.len() {
            assert(rest[0] == all[i as int]);
        }
        assert(head(all) =~= all.take(i as int));
        assert(all.subrange(0, i as int) =~= all.take(i as int));
    }
    from_chars(&cs, 0, i)
}

fn session_word(w: &str) -> (r: bool)
    ensures
        r == is_session_word(w@),
{
    str_eq(w, "sess") || str_eq(w, "session")
}

fn channel_hint_from_session_id(session_id: Option<&str>) -> (r: Option<String>)
    ensures
        opt_text(r) == channel_hint(opt_str(session_id)),
{
    let sid = match session_id {
        Some(s) => trim(s),
        None => return None,
    };
    proof {
        reveal_strlit("");
        assert(sid@.len() == 0 ==> sid@ =~= ""@);
    }
    if str_eq(sid.as_str(), "") {
        return None;
    }
    let lower = to_ascii_lowercase(sid.as_str());
    if session_word(lower.as_str()) || starts_with(lower.as_str(), "sess-") || starts_with(
        lower.as_str(),
        "session-",
    ) {
        return None;
    }
    let part = trim(first_part(sid.as_str()).as_str());
    proof {
        assert(part@.len() == 0 ==> part@ =~= ""@);
    }
    if str_eq(part.as_str(), "") {
        return None;
    }
    let word = to_ascii_lowercase(part.as_str());
    if session_word(word.as_str()) {
        None
    } else {
        Some(word)
    }
}

/// The tier under which a memory is stored: the one that its category names, else the personal one.
pub fn resolve_store_policy(category: &MemoryCategory, session_id: Option<&str>) -> (r: StorePolicy)
    ensures
        r.tier@ == (match category_tier(category@) {
            Some(t) => t,
            None => "personal"@,
        }),
        match category_tier(category@) {
            Some(_) => r.limitation is None,
            None => r.limitation is Some && r.limitation->0@ == trait_limitation(),
        },
        opt_text(r.channel_hint) == channel_hint(opt_str(session_id)),
{
    let channel_hint = channel_hint_from_session_id(session_id);
    match canonical_tier_from_category(category) {
        Some(tier) => StorePolicy { tier, channel_hint, limitation: None },
        None => StorePolicy {
            tier: "personal".to_owned(),
            channel_hint,
            limitation: Some(
                "Snowclaw Memory::store lacks canonical runtime scope/channel context; session_id is only treated as an opaque compatibility hint",
            ),
        },
    }
}

/// A category of the user's own names a tier if it is one of the tiers, in any letter case and with
/// white space around it; a group or a circle needs a scope.
pub proof fn categories_name_tiers(name: Seq<char>, id: Seq<char>)
    ensures
        ascii_lower(trimmed(name)) == "public"@ ==> custom_tier(name) == Some("public"@),
        ascii_lower(trimmed(name)) == "personal"@ ==> custom_tier(name) == Some("personal"@),
        ascii_lower(trimmed(name)) == "internal"@ ==> custom_tier(name) == Some("internal"@),
        ascii_lower(trimmed(name)) == "group:"@ + id && trimmed(id).len() > 0 ==> custom_tier(name)
            == Some("group:"@ + id),
        ascii_lower(trimmed(name)) == "circle:"@ + id && trimmed(id).len() > 0 ==> custom_tier(name)
            == Some("circle:"@ + id),
        ascii_lower(trimmed(name)) == "group:"@ + id && trimmed(id).len() == 0 ==> custom_tier(name)
            is None,
        ascii_lower(trimmed(name)) == "circle:"@ + id && trimmed(id).len() == 0 ==> custom_tier(name)
            is None,
        custom_tier(name) matches Some(t) ==> t == ascii_lower(trimmed(name)),
        category_tier(CategoryView::Custom(name)) == custom_tier(name),
        category_tier(CategoryView::Core) is None,
        category_tier(CategoryView::Daily) is None,
        category_tier(CategoryView::Conversation) is None,
{
    reveal_strlit("public");
    reveal_strlit("personal");
    reveal_strlit("internal");
    reveal_strlit("group:");
    reveal_strlit("circle:");
    let n = ascii_lower(trimmed(name));
    let g = "group:"@ + id;
    let c = "circle:"@ + id;
    assert(g.subrange(0, 6) =~= "group:"@);
    assert(g.skip(6) =~= id);
    assert(c.subrange(0, 7) =~= "circle:"@);
    assert(c.skip(7) =~= id);
    assert(g[0] == 'g' && c[0] == 'c');
    differs_at(g, "circle:"@, 0);
    differs_at(c, "group:"@, 0);
    assert("public"@[0] == 'p' && "personal"@[0] == 'p' && "internal"@[0] == 'i');
}

/// The head of a text is what stands before its first colon or underscore.
pub proof fn head_ends_at_a_mark(s: Seq<char>)
    ensures
        head(s).len() <= s.len(),
        head(s) == s.take(head(s).len() as int),
        forall|i: int| 0 <= i < head(s).len() ==> (#[trigger] head(s)[i]) != ':' && head(s)[i] != '_',
        head(s).len() < s.len() ==> s[head(s).len() as int] == ':' || s[head(s).len() as int] == '_',
    decreases s.len(),
{
    if s.len() > 0 && s[0] != ':' && s[0] != '_' {
        let t = s.skip(1);
        head_ends_at_a_mark(t);
        assert(head(s) == seq![s[0]] + head(t));
        assert(s.take(head(s).len() as int) =~= seq![s[0]] + t.take(head(t).len() as int));
        assert forall|i: int| 0 <= i < head(s).len() implies (#[trigger] head(s)[i]) != ':' && head(
            s,
        )[i] != '_' by {
            if i > 0 {
                assert(head(s)[i] == head(t)[i - 1]);
            }
        }
        if head(t).len() < t.len() {
            assert(s[head(s).len() as int] == t[head(t).len() as int]);
        }
    } else {
        assert(s.take(0) =~= Seq::<char>::empty());
    }
}

/// A session id hints at a channel by its head, lowered, unless that is missing or stands for a
/// session.
pub proof fn sessions_hint_at_channels(s: Seq<char>)
    ensures
        channel_hint(None) is None,
        trimmed(s).len() == 0 ==> channel_hint(Some(s)) is None,
        begins_with(ascii_lower(trimmed(s)), "sess-"@) || begins_with(
            ascii_lower(trimmed(s)),
            "session-"@,
        ) ==> channel_hint(Some(s)) is None,
        ascii_lower(trimmed(head(trimmed(s)))) == "sess"@ || ascii_lower(trimmed(head(trimmed(s))))
            == "session"@ ==> channel_hint(Some(s)) is None,
        trimmed(head(trimmed(s))).len() == 0 ==> channel_hint(Some(s)) is None,
        channel_hint(Some(s)) matches Some(h) ==> h == ascii_lower(trimmed(head(trimmed(s)))),
        trimmed(head(trimmed(s))).len() > 0 && ascii_lower(trimmed(head(trimmed(s)))) != "sess"@
            && ascii_lower(trimmed(head(trimmed(s)))) != "session"@ && ascii_lower(trimmed(s))
            != "sess"@ && ascii_lower(trimmed(s)) != "session"@ && !begins_with(
            ascii_lower(trimmed(s)),
            "sess-"@,
        ) && !begins_with(ascii_lower(trimmed(s)), "session-"@) && trimmed(s).len() > 0
            ==> channel_hint(Some(s)) is Some,
{
}

} // verus!
