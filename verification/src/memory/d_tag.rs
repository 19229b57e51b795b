//! Addresses of memories on relays: `app:category:key`.

use super::traits::{category_name, category_of, CategoryView, MemoryCategory};
use crate::channels::event::{agent_tag_text, agent_tag, first_value, pair_tag, tag_texts};
use crate::text::pattern::{
    begins_with, find_char, find_char_is_first, split_once, strip_prefix,
};
use crate::text::opt_str;
use vstd::prelude::*;

verus! {

/// The address of a memory.
pub open spec fn address(app: Seq<char>, category: CategoryView, key: Seq<char>) -> Seq<char> {
    app + ":"@ + category_name(category) + ":"@ + key
}

/// The address of a memory.
pub fn write_address(app: &str, category: &MemoryCategory, key: &str) -> (r: String)
    ensures
        r@ == address(app@, category@, key@),
{
    let mut r = app.to_owned();
    r.append(":");
    r.append(category.to_string().as_str());
    r.append(":");
    r.append(key);
    r
}

/// The category and the key of an address.
pub open spec fn address_parts(app: Seq<char>, d: Seq<char>) -> Option<(CategoryView, Seq<char>)> {
    let prefix = app + ":"@;
    if begins_with(d, prefix) {
        let rest = d.skip(prefix.len() as int);
        let i = find_char(rest, ':');
        if i < rest.len() {
            Some((category_of(rest.take(i)), rest.skip(i + 1)))
        } else {
            None
        }
    } else {
        None
    }
}

/// The category and the key of an address.
pub fn read_address(app: &str, d: &str) -> (r: Option<(MemoryCategory, String)>)
    ensures
        match r {
            Some(p) => address_parts(app@, d@) == Some((p.0@, p.1@)),
            None => address_parts(app@, d@) is None,
        },
{
    let mut prefix = app.to_owned();
    prefix.append(":");
    match strip_prefix(d, prefix.as_str()) {
        Some(rest) => match split_once(rest.as_str(), ':') {
            Some(parts) => Some((MemoryCategory::from_name(parts.0.as_str()), parts.1)),
            None => None,
        },
        None => None,
    }
}

/// An address falls into the category and the key that it was made of, where the name of the
/// category holds no colon.
pub proof fn address_reads_back(app: Seq<char>, category: CategoryView, key: Seq<char>)
    requires
        !category_name(category).contains(':'),
    ensures
        address_parts(app, address(app, category, key)) == Some(
            (category_of(category_name(category)), key),
        ),
{
    let prefix = app + ":"@;
    let name = category_name(category);
    let d = address(app, category, key);
    let rest = d.skip(prefix.len() as int);
    reveal_strlit(":");
    assert(d.subrange(0, prefix.len() as int) =~= prefix);
    assert(rest =~= name + ":"@ + key);
    find_char_is_first(rest, ':');
    let i = find_char(rest, ':');
    assert(rest[name.len() as int] == ':');
    if i < name.len() {
        assert(name[i] == ':');
    }
    assert(rest.take(i) =~= name);
    assert(rest.skip(i + 1) =~= key);
}

/// The tags of the event that stores a memory.
pub open spec fn memory_tags(
    app: Seq<char>,
    category: CategoryView,
    key: Seq<char>,
    session: Option<Seq<char>>,
) -> Seq<Seq<Seq<char>>> {
    let base = seq![
        seq!["d"@, address(app, category, key)],
        seq!["app"@, app],
        seq!["category"@, category_name(category)],
        agent_tag_text(),
    ];
    match session {
        Some(s) => base.push(seq!["session"@, s]),
        None => base,
    }
}

/// The tags of the event that stores a memory.
pub fn write_memory_tags(
    app: &str,
    category: &MemoryCategory,
    key: &str,
    session: Option<&str>,
) -> (r: Vec<Vec<String>>)
    ensures
        tag_texts(r@) == memory_tags(
            app@,
            category@,
            key@,
            opt_str(session),
        ),
{
    let mut r: Vec<Vec<String>> = Vec::new();
    r.push(pair_tag("d", write_address(app, category, key).as_str()));
    r.push(pair_tag("app", app));
    r.push(pair_tag("category", category.to_string().as_str()));
    r.push(agent_tag());
    if let Some(s) = session {
        r.push(pair_tag("session", s));
    }
    assert(tag_texts(r@) =~= memory_tags(
        app@,
        category@,
        key@,
        opt_str(session),
    ));
    r
}

/// The tags of a memory name its address, its app, its category, the agent and, where there is one,
/// its session.
pub proof fn tags_name_the_memory(
    app: Seq<char>,
    category: CategoryView,
    key: Seq<char>,
    session: Option<Seq<char>>,
)
    ensures
        ({
            let tags = memory_tags(app, category, key, session);
            &&& first_value(tags, "d"@) == Some(
                app + ":"@ + category_name(category) + ":"@ + key,
            )
            &&& first_value(tags, "app"@) == Some(app)
            &&& first_value(tags, "category"@) == Some(category_name(category))
            &&& first_value(tags, "agent"@) == Some("snowclaw"@)
            &&& first_value(tags, "session"@) == session
        }),
{
    reveal_strlit("d");
    reveal_strlit("app");
    reveal_strlit("category");
    reveal_strlit("agent");
    reveal_strlit("session");
    assert("d"@.len() == 1 && "app"@.len() == 3 && "category"@.len() == 8 && "agent"@.len() == 5
        && "session"@.len() == 7);
    reveal_with_fuel(first_value, 7);
}

/// An address of another app, or without a key, reads as nothing.
pub proof fn other_addresses_do_not_read(app: Seq<char>, d: Seq<char>)
    ensures
        !begins_with(d, app + ":"@) ==> address_parts(app, d) is None,
        begins_with(d, app + ":"@) && !d.skip((app + ":"@).len() as int).contains(':') ==> address_parts(
            app,
            d,
        ) is None,
{
    let rest = d.skip((app + ":"@).len() as int);
    find_char_is_first(rest, ':');
}

} // verus!
