//! The tool that stores memories.

use super::traits::{done, failed, ResultView, ToolResult};
use crate::memory::traits::{
    category_of, CategoryView, MemoryCategory, MemoryTier, TierView,
};
use crate::text::number::{decimal, u64_text};
use crate::text::pattern::{
    begins_with, contains, find_char, find_char_is_first, has_substring, occurs_at, parts_are_held,
    split, split_on, strip_prefix,
};
use crate::text::{byte_len, len_bytes, opt_str, opt_text, str_eq, texts};
use vstd::prelude::*;

verus! {

/// What the agent asks of the tool.
#[derive(Debug)]
pub struct StoreArgs {
    pub key: Option<String>,
    pub content: Option<String>,
    pub category: Option<String>,
    pub tier: Option<String>,
}

/// Why a key is refused.
pub open spec fn key_error(key: Seq<char>) -> Option<Seq<char>> {
    if key.len() == 0 {
        Some("Key must be non-empty"@)
    } else if byte_len(key) > 256 {
        Some("Key too long ("@ + decimal(byte_len(key) as nat) + " chars, max 256)"@)
    } else {
        None
    }
}

/// Whether the first part of a key stands for a tier.
pub open spec fn known_scope(scope: Seq<char>) -> bool {
    scope == "core"@ || scope == "pref"@ || scope == "contact"@ || scope == "conv"@ || scope
        == "group"@ || scope == "lesson"@
}

/// What is said of a key whose first part stands for no tier.
pub open spec fn scope_warning(key: Seq<char>) -> Option<Seq<char>> {
    if has_substring(key, ":"@) && !known_scope(split_on(key, ':')[0]) {
        Some(
            "Unknown scope prefix '"@ + split_on(key, ':')[0]
                + "' — memory stored but tier inference may be inaccurate"@,
        )
    } else {
        None
    }
}

/// The category that is asked for: the core one where none is.
pub open spec fn asked_category(category: Option<Seq<char>>) -> CategoryView {
    match category {
        Some(c) => category_of(c),
        None => CategoryView::Core,
    }
}

/// The tier that is asked for.
pub open spec fn asked_tier(tier: Option<Seq<char>>) -> Option<TierView> {
    match tier {
        Some(t) => Some(
            if t == "public"@ {
                TierView::Public
            } else if t == "private"@ {
                TierView::Private("self"@)
            } else if begins_with(t, "group:"@) {
                TierView::Group(t.skip("group:"@.len() as int))
            } else {
                TierView::Public
            },
        ),
        None => None,
    }
}

/// What the tool does.
#[derive(Debug)]
pub enum StoreStep {
    /// A parameter is missing.
    Missing(&'static str),
    /// The request is refused.
    Refused(ToolResult),
    /// The memory is to be stored, under the tier if one is asked for.
    Store {
        key: String,
        content: String,
        category: MemoryCategory,
        tier: Option<MemoryTier>,
        warning: Option<String>,
    },
}

fn check_scope(key: &str) -> (r: Option<String>)
    ensures
        opt_text(r) == scope_warning(key@),
{
    let parts = split(key, ':');
    assert(split_on(key@, ':').len() > 0);
    assert(texts(parts@).len() == parts@.len());
    if parts.len() == 0 || !contains(key, ":") {
        return None;
    }
    let scope = parts[0].as_str();
    if str_eq(scope, "core") || str_eq(scope, "pref") || str_eq(scope, "contact") || str_eq(
        scope,
        "conv",
    ) || str_eq(scope, "group") || str_eq(scope, "lesson") {
        None
    } else {
        let mut w = String::from_str("Unknown scope prefix '");
        w.append(scope);
        w.append("' — memory stored but tier inference may be inaccurate");
        Some(w)
    }
}

fn tier_hint(tier: &Option<String>) -> (r: Option<MemoryTier>)
    ensures
        match r {
            Some(t) => asked_tier(opt_text(*tier)) == Some(t@),
            None => asked_tier(opt_text(*tier)) is None,
        },
{
    match tier {
        Some(t) => Some(
            if str_eq(t.as_str(), "public") {
                MemoryTier::Public
            } else if str_eq(t.as_str(), "private") {
                MemoryTier::Private("self".to_owned())
            } else {
                match strip_prefix(t.as_str(), "group:") {
                    Some(id) => MemoryTier::Group(id),
                    None => MemoryTier::Public,
                }
            },
        ),
        None => None,
    }
}

/// What the tool answers once the backend was asked to store the memory.
pub open spec fn store_answer(
    key: Seq<char>,
    warning: Option<Seq<char>>,
    error: Option<Seq<char>>,
) -> ResultView {
    match error {
        Some(e) => failed("Failed to store memory: "@ + e),
        None => done(
            "Stored memory: "@ + key + (match warning {
                Some(w) => "\nWarning: "@ + w,
                None => Seq::empty(),
            }),
        ),
    }
}

/// The tool that stores memories.
#[derive(Debug)]
pub struct MemoryStoreTool {}

impl MemoryStoreTool {
    /// Name of the tool.
    pub fn name(&self) -> (r: &'static str)
        ensures
            r@ == "memory_store"@,
    {
        "memory_store"
    }

    /// What the tool is for.
    pub fn description(&self) -> (r: &'static str)
        ensures
            r@
                == "Store a fact, preference, or note in long-term memory. Use category 'core' for permanent facts, 'daily' for session notes, 'conversation' for chat context, or a custom category name."@,
    {
        "Store a fact, preference, or note in long-term memory. Use category 'core' for permanent facts, 'daily' for session notes, 'conversation' for chat context, or a custom category name."
    }

    /// Decides what to do with a request, given what the security policy says against it. The key is
    /// looked at first, then the content, then the policy.
    pub fn execute(&self, args: &StoreArgs, denied: Option<String>) -> (r: StoreStep)
        ensures
            match r {
                StoreStep::Missing(m) => {
                    ||| args.key is None && m@ == "Missing 'key' parameter"@
                    ||| {
                        &&& args.key is Some
                        &&& key_error(args.key->0@) is None
                        &&& args.content is None
                        &&& m@ == "Missing 'content' parameter"@
                    }
                },
                StoreStep::Refused(t) => {
                    &&& args.key is Some
                    &&& match key_error(args.key->0@) {
                        Some(e) => t@ == failed(e),
                        None => args.content is Some && denied is Some && t@ == failed(denied->0@),
                    }
                },
                StoreStep::Store { key, content, category, tier, warning } => {
                    &&& args.key is Some
                    &&& args.content is Some
                    &&& denied is None
                    &&& key_error(args.key->0@) is None
                    &&& key@ == args.key->0@
                    &&& content@ == args.content->0@
                    &&& category@ == asked_category(opt_text(args.category))
                    &&& tier is Some == asked_tier(opt_text(args.tier)) is Some
                    &&& tier is Some ==> asked_tier(opt_text(args.tier)) == Some(tier->0@)
                    &&& opt_text(warning) == scope_warning(args.key->0@)
                },
            },
    {
        let key = match &args.key {
            Some(k) => k,
            None => return StoreStep::Missing("Missing 'key' parameter"),
        };
        proof {
            reveal_strlit("");
            assert(key@.len() == 0 ==> key@ =~= ""@);
        }
        if str_eq(key.as_str(), "") {
            return StoreStep::Refused(ToolResult::failed("Key must be non-empty".to_owned()));
        }
        let n = len_bytes(key.as_str());
        if n > 256 {
            let mut e = String::from_str("Key too long (");
            e.append(u64_text(n as u64).as_str());
            e.append(" chars, max 256)");
            return StoreStep::Refused(ToolResult::failed(e));
        }
        let warning = check_scope(key.as_str());
        let content = match &args.content {
            Some(c) => c,
            None => return StoreStep::Missing("Missing 'content' parameter"),
        };
        let category = match &args.category {
            Some(c) => MemoryCategory::from_name(c.as_str()),
            None => MemoryCategory::Core,
        };
        let tier = tier_hint(&args.tier);
        if let Some(e) = denied {
            return StoreStep::Refused(ToolResult::failed(e));
        }
        StoreStep::Store { key: key.clone(), content: content.clone(), category, tier, warning }
    }

    /// What the tool answers once the backend was asked to store the memory, with its error if it failed.
    pub fn stored(&self, key: &str, warning: &Option<String>, error: Option<&str>) -> (r: ToolResult)
        ensures
            r@ == store_answer(key@, opt_text(*warning), opt_str(error)),
    {
        match error {
            Some(e) => {
                let mut text = String::from_str("Failed to store memory: ");
                text.append(e);
                ToolResult::failed(text)
            },
            None => {
                let mut output = String::from_str("Stored memory: ");
                output.append(key);
                if let Some(w) = warning {
                    output.append("\nWarning: ");
                    output.append(w.as_str());
                    assert(output@ =~= "Stored memory: "@ + key@ + ("\nWarning: "@ + w@));
                } else {
                    assert(output@ =~= "Stored memory: "@ + key@ + Seq::<char>::empty());
                }
                ToolResult::done(output)
            },
        }
    }
}

/// A key is refused if it is empty or longer than 256 bytes, and no other is.
pub proof fn keys_that_are_refused(key: Seq<char>)
    ensures
        key_error(key) is Some <==> key.len() == 0 || byte_len(key) > 256,
        key.len() == 0 ==> key_error(key) == Some("Key must be non-empty"@),
        key.len() > 0 && byte_len(key) > 256 ==> has_substring(
            key_error(key)->0,
            decimal(byte_len(key)),
        ),
{
    if key.len() > 0 && byte_len(key) > 256 {
        parts_are_held("Key too long ("@, decimal(byte_len(key)), " chars, max 256)"@);
    }
}

/// A warning comes with a key whose first part is none of the known ones, and names that part; a key
/// without parts brings none.
pub proof fn unknown_scopes_are_warned_of(scope: Seq<char>, rest: Seq<char>)
    requires
        forall|i: int| 0 <= i < scope.len() ==> #[trigger] scope[i] != ':',
    ensures
        scope_warning(scope) is None,
        scope == "core"@ || scope == "pref"@ || scope == "contact"@ || scope == "conv"@ || scope
            == "group"@ || scope == "lesson"@ ==> scope_warning(scope + seq![':'] + rest) is None,
        scope != "core"@ && scope != "pref"@ && scope != "contact"@ && scope != "conv"@ && scope
            != "group"@ && scope != "lesson"@ ==> scope_warning(scope + seq![':'] + rest) is Some
            && has_substring(scope_warning(scope + seq![':'] + rest)->0, scope),
{
    reveal_strlit(":");
    let key = scope + seq![':'] + rest;
    let k = scope.len() as int;
    assert(":"@ =~= seq![':']);
    assert(key.subrange(k, k + 1) =~= ":"@);
    assert(occurs_at(key, ":"@, k));
    find_char_is_first(key, ':');
    assert(key[k] == ':');
    assert forall|j: int| 0 <= j < k implies key[j] != ':' by {
        assert(key[j] == scope[j]);
    }
    assert(find_char(key, ':') == k);
    assert(key.take(k) =~= scope);
    assert(split_on(key, ':')[0] == scope);
    if has_substring(scope, ":"@) {
        let i = choose|i: int| occurs_at(scope, ":"@, i);
        assert(scope.subrange(i, i + 1)[0] == scope[i]);
        assert(false);
    }
    if !known_scope(scope) {
        parts_are_held(
            "Unknown scope prefix '"@,
            scope,
            "' — memory stored but tier inference may be inaccurate"@,
        );
    }
}

/// The tier that is asked for by a word: public, private to the agent, or that of a group; any other
/// word is public, and no word asks for none.
pub proof fn tiers_are_asked_for(word: Seq<char>, id: Seq<char>)
    ensures
        asked_tier(None) is None,
        asked_tier(Some("public"@)) == Some(TierView::Public),
        asked_tier(Some("private"@)) == Some(TierView::Private("self"@)),
        asked_tier(Some("group:"@ + id)) == Some(TierView::Group(id)),
        word != "private"@ && !begins_with(word, "group:"@) ==> asked_tier(Some(word)) == Some(
            TierView::Public,
        ),
        asked_category(None) is Core,
        asked_category(Some(word)) == category_of(word),
{
    reveal_strlit("public");
    reveal_strlit("private");
    reveal_strlit("group:");
    let g = "group:"@ + id;
    assert(g.subrange(0, 6) =~= "group:"@);
    assert(g.skip(6) =~= id);
    assert(g[0] == 'g' && "public"@[0] == 'p' && "private"@[0] == 'p');
    assert("public"@.len() != "private"@.len());
}

/// The answer names the key that was stored, and the warning if there is one; a failure is told.
pub proof fn stores_are_answered(key: Seq<char>, w: Seq<char>, e: Seq<char>)
    ensures
        store_answer(key, None, None).success && store_answer(key, None, None).output
            == "Stored memory: "@ + key,
        store_answer(key, Some(w), None).success && store_answer(key, Some(w), None).output
            == "Stored memory: "@ + key + ("\nWarning: "@ + w),
        !store_answer(key, None, Some(e)).success && !store_answer(key, Some(w), Some(e)).success,
        store_answer(key, None, Some(e)).error == Some("Failed to store memory: "@ + e),
        store_answer(key, Some(w), Some(e)).error == Some("Failed to store memory: "@ + e),
{
    assert("Stored memory: "@ + key + Seq::<char>::empty() =~= "Stored memory: "@ + key);
}

} // verus!
