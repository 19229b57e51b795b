//! Respond modes and the dynamic configuration that the owner publishes.

use crate::channels::event::{
    any_tag_value, any_value, is_tag_named, tag_named, tag_texts, NostrEvent,
};
use crate::text::case::{lowercase, to_lowercase};
use crate::text::number::{parse_usize, parsed};
use crate::text::pattern::{
    begins_with, starts_with, strip_leading, strip_prefix, trim_start_matches,
};
use crate::text::{str_eq, texts};
use crate::text_map::TextMap;
use vstd::prelude::*;

verus! {

/// When the agent answers messages of a group.
#[derive(Debug, Clone, Copy, PartialEq, Eq, Structural)]
pub enum RespondMode {
    /// Reply to all messages.
    All,
    /// Only reply when mentioned by name or key, or replied to.
    Mention,
    /// Respond only to the owner's messages.
    Owner,
    /// Listen only, never reply.
    Silent,
}

/// The mode that a lower-case word stands for.
pub open spec fn mode_of_word(w: Seq<char>) -> RespondMode {
    if w == "all"@ {
        RespondMode::All
    } else if w == "owner"@ {
        RespondMode::Owner
    } else if w == "none"@ || w == "silent"@ || w == "listen"@ {
        RespondMode::Silent
    } else {
        RespondMode::Mention
    }
}

/// The mode that a word stands for, in any letter case.
pub open spec fn mode_of(s: Seq<char>) -> RespondMode {
    mode_of_word(lowercase(s))
}

/// The name of a mode.
pub open spec fn mode_name(m: RespondMode) -> Seq<char> {
    match m {
        RespondMode::All => "All"@,
        RespondMode::Mention => "Mention"@,
        RespondMode::Owner => "Owner"@,
        RespondMode::Silent => "None"@,
    }
}

impl RespondMode {
    /// The mode that a lower-case word stands for.
    pub fn from_word(w: &str) -> (r: Self)
        ensures
            r == mode_of_word(w@),
    {
        if str_eq(w, "all") {
            RespondMode::All
        } else if str_eq(w, "owner") {
            RespondMode::Owner
        } else if str_eq(w, "none") || str_eq(w, "silent") || str_eq(w, "listen") {
            RespondMode::Silent
        } else {
            RespondMode::Mention
        }
    }

    /// The mode that a word stands for, in any letter case.
    pub fn from_str(s: &str) -> (r: Self)
        ensures
            r == mode_of(s@),
    {
        RespondMode::from_word(to_lowercase(s).as_str())
    }

    /// The name of the mode.
    pub fn name(&self) -> (r: String)
        ensures
            r@ == mode_name(*self),
    {
        match self {
            RespondMode::All => "All".to_owned(),
            RespondMode::Mention => "Mention".to_owned(),
            RespondMode::Owner => "Owner".to_owned(),
            RespondMode::Silent => "None".to_owned(),
        }
    }
}

/// Settings of one scope. What is absent falls through to the next scope.
#[derive(Debug, Clone, Copy)]
pub struct GroupConfig {
    pub respond_mode: Option<RespondMode>,
    pub context_history: Option<usize>,
}

/// Settings that say nothing.
pub open spec fn no_settings() -> GroupConfig {
    GroupConfig { respond_mode: None, context_history: None }
}

impl Default for GroupConfig {
    fn default() -> (r: Self)
        ensures
            r == no_settings(),
    {
        GroupConfig { respond_mode: None, context_history: None }
    }
}

/// The settings that the owner has published, by scope.
pub struct DynamicConfig {
    pub global: Option<GroupConfig>,
    pub groups: TextMap<GroupConfig>,
    pub npubs: TextMap<GroupConfig>,
}

/// What a `DynamicConfig` says.
#[verifier::ext_equal]
pub struct DynamicView {
    pub global: Option<GroupConfig>,
    pub groups: Map<Seq<char>, GroupConfig>,
    pub npubs: Map<Seq<char>, GroupConfig>,
}

impl View for DynamicConfig {
    type V = DynamicView;

    open spec fn view(&self) -> DynamicView {
        DynamicView { global: self.global, groups: self.groups@, npubs: self.npubs@ }
    }
}

impl Default for DynamicConfig {
    fn default() -> (r: Self)
        ensures
            r@ == (DynamicView { global: None, groups: Map::empty(), npubs: Map::empty() }),
    {
        DynamicConfig { global: None, groups: TextMap::new(), npubs: TextMap::new() }
    }
}

/// The mode set by the last `respond_mode` tag that has a value.
pub open spec fn last_mode(tags: Seq<Seq<Seq<char>>>) -> Option<RespondMode>
    decreases tags.len(),
{
    if tags.len() == 0 {
        None
    } else if tag_named(tags.last(), "respond_mode"@) && tags.last().len() > 1 {
        Some(mode_of(tags.last()[1]))
    } else {
        last_mode(tags.drop_last())
    }
}

/// The length set by the last `context_history` tag whose value is a number.
pub open spec fn last_history(tags: Seq<Seq<Seq<char>>>) -> Option<usize>
    decreases tags.len(),
{
    if tags.len() == 0 {
        None
    } else if tag_named(tags.last(), "context_history"@) && tags.last().len() > 1 && parsed(
        tags.last()[1],
        usize::MAX as nat,
    ) is Some {
        Some(parsed(tags.last()[1], usize::MAX as nat)->0 as usize)
    } else {
        last_history(tags.drop_last())
    }
}

/// The settings that the tags of a configuration event carry.
pub open spec fn tag_settings(tags: Seq<Seq<Seq<char>>>) -> GroupConfig {
    GroupConfig { respond_mode: last_mode(tags), context_history: last_history(tags) }
}

/// The scope tag and settings of a configuration event.
pub open spec fn config_of(tags: Seq<Seq<Seq<char>>>) -> Option<(Seq<char>, GroupConfig)> {
    match any_value(tags, "d"@) {
        Some(d) => if begins_with(d, "snowclaw:config:"@) {
            Some((d, tag_settings(tags)))
        } else {
            None
        },
        None => None,
    }
}

/// The tag name before the value decides nothing in `last_mode` and `last_history` but its own.
proof fn respond_and_history_differ()
    ensures
        "respond_mode"@ != "context_history"@,
{
    reveal_strlit("respond_mode");
    reveal_strlit("context_history");
    assert("respond_mode"@.len() != "context_history"@.len());
}

/// Reads a configuration event: its scope tag and its settings.
pub fn parse_config_event(event: &NostrEvent) -> (r: Option<(String, GroupConfig)>)
    ensures
        match r {
            Some(p) => config_of(event@.tags) == Some((p.0@, p.1)),
            None => config_of(event@.tags) is None,
        },
{
    let d_tag = match any_tag_value(&event.tags, "d") {
        Some(d) => d,
        None => {
            return None;
        },
    };
    if !starts_with(d_tag.as_str(), "snowclaw:config:") {
        return None;
    }
    let ghost tags = tag_texts(event.tags@);
    let mut gc = GroupConfig { respond_mode: None, context_history: None };
    let mut i: usize = 0;
    while i < event.tags.len()
        invariant
            i <= event.tags@.len(),
            tags == tag_texts(event.tags@),
            gc.respond_mode == last_mode(tags.take(i as int)),
            gc.context_history == last_history(tags.take(i as int)),
        decreases event.tags.len() - i,
    {
        let tag = &event.tags[i];
        proof {
            assert(tags.take(i + 1).drop_last() =~= tags.take(i as int));
            assert(tags.take(i + 1).last() == texts(tag@));
            respond_and_history_differ();
        }
        if is_tag_named(tag, "respond_mode") {
            if tag.len() > 1 {
                gc.respond_mode = Some(RespondMode::from_str(tag[1].as_str()));
            }
        } else if is_tag_named(tag, "context_history") {
            if tag.len() > 1 {
                if let Some(n) = parse_usize(tag[1].as_str()) {
                    gc.context_history = Some(n);
                }
            }
        }
        i = i + 1;
    }
    proof {
        assert(tags.take(i as int) =~= tags);
    }
    Some((d_tag, gc))
}

/// The configuration after an entry for the scope tag `d` came in.
pub open spec fn entry_applied(c: DynamicView, d: Seq<char>, gc: GroupConfig) -> DynamicView {
    let scope = strip_leading(d, "snowclaw:config:"@);
    if scope == "global"@ {
        DynamicView { global: Some(gc), ..c }
    } else if begins_with(scope, "group:"@) {
        DynamicView { groups: c.groups.insert(scope.skip("group:"@.len() as int), gc), ..c }
    } else if begins_with(scope, "npub:"@) {
        DynamicView { npubs: c.npubs.insert(scope.skip("npub:"@.len() as int), gc), ..c }
    } else {
        c
    }
}

/// Applies a parsed entry to the configuration.
pub fn apply_config_entry(config: &mut DynamicConfig, entry: (String, GroupConfig))
    ensures
        final(config)@ == entry_applied(old(config)@, entry.0@, entry.1),
{
    let scope = trim_start_matches(entry.0.as_str(), "snowclaw:config:");
    if str_eq(scope.as_str(), "global") {
        config.global = Some(entry.1);
    } else if let Some(group) = strip_prefix(scope.as_str(), "group:") {
        config.groups.insert(group, entry.1);
    } else if let Some(npub) = strip_prefix(scope.as_str(), "npub:") {
        config.npubs.insert(npub, entry.1);
    }
}

/// Settings with the mode replaced.
pub open spec fn with_mode(gc: Option<GroupConfig>, mode: RespondMode) -> GroupConfig {
    GroupConfig {
        respond_mode: Some(mode),
        context_history: match gc {
            Some(g) => g.context_history,
            None => None,
        },
    }
}

/// The settings of group `g`, if the owner published any.
pub open spec fn group_settings(c: DynamicView, g: Seq<char>) -> Option<GroupConfig> {
    if c.groups.contains_key(g) {
        Some(c.groups[g])
    } else {
        None
    }
}

/// The configuration with the mode of group `g` set.
pub open spec fn group_mode_set(c: DynamicView, g: Seq<char>, mode: RespondMode) -> DynamicView {
    DynamicView { groups: c.groups.insert(g, with_mode(group_settings(c, g), mode)), ..c }
}

/// The configuration with the mode of every listed group set.
pub open spec fn group_modes_set(
    c: DynamicView,
    groups: Seq<Seq<char>>,
    mode: RespondMode,
) -> DynamicView
    decreases groups.len(),
{
    if groups.len() == 0 {
        c
    } else {
        group_mode_set(group_modes_set(c, groups.drop_last(), mode), groups.last(), mode)
    }
}

/// The configuration with the global mode set.
pub open spec fn global_mode_set(c: DynamicView, mode: RespondMode) -> DynamicView {
    DynamicView { global: Some(with_mode(c.global, mode)), ..c }
}

/// The configuration with the mode of every listed group and the global mode set.
pub open spec fn all_modes_set(
    c: DynamicView,
    groups: Seq<Seq<char>>,
    mode: RespondMode,
) -> DynamicView {
    global_mode_set(group_modes_set(c, groups, mode), mode)
}

impl DynamicConfig {
    /// Sets the mode of one group.
    pub fn set_group_mode(&mut self, group: &str, mode: RespondMode)
        ensures
            final(self)@ == group_mode_set(old(self)@, group@, mode),
    {
        let history = match self.groups.get(group) {
            Some(gc) => gc.context_history,
            None => None,
        };
        self.groups.insert(
            group.to_owned(),
            GroupConfig { respond_mode: Some(mode), context_history: history },
        );
    }

    /// Sets the global mode.
    pub fn set_global_mode(&mut self, mode: RespondMode)
        ensures
            final(self)@ == global_mode_set(old(self)@, mode),
    {
        let history = match &self.global {
            Some(gc) => gc.context_history,
            None => None,
        };
        self.global = Some(GroupConfig { respond_mode: Some(mode), context_history: history });
    }

    /// Sets the mode of every listed group and the global mode.
    pub fn set_all_modes(&mut self, groups: &Vec<String>, mode: RespondMode)
        ensures
            final(self)@ == all_modes_set(old(self)@, texts(groups@), mode),
    {
        let ghost names = texts(groups@);
        let mut i: usize = 0;
        while i < groups.len()
            invariant
                i <= groups@.len(),
                names == texts(groups@),
                self@ == group_modes_set(old(self)@, names.take(i as int), mode),
            decreases groups.len() - i,
        {
            proof {
                assert(names.take(i + 1).drop_last() =~= names.take(i as int));
            }
            self.set_group_mode(groups[i].as_str(), mode);
            i = i + 1;
        }
        proof {
            assert(names.take(i as int) =~= names);
        }
        self.set_global_mode(mode);
    }
}

/// After the mode of every listed group was set, each of them has it.
pub proof fn listed_groups_have_mode(
    c: DynamicView,
    groups: Seq<Seq<char>>,
    mode: RespondMode,
    g: Seq<char>,
)
    ensures
        groups.contains(g) ==> (group_settings(group_modes_set(c, groups, mode), g) matches Some(
            gc,
        ) && gc.respond_mode == Some(mode)),
        !groups.contains(g) ==> group_settings(group_modes_set(c, groups, mode), g)
            == group_settings(c, g),
    decreases groups.len(),
{
    if groups.len() > 0 {
        listed_groups_have_mode(c, groups.drop_last(), mode, g);
        if groups.contains(g) && g != groups.last() {
            let i = choose|i: int| 0 <= i < groups.len() && groups[i] == g;
            assert(groups.drop_last()[i] == g);
        }
        if groups.drop_last().contains(g) {
            let i = choose|i: int| 0 <= i < groups.drop_last().len() && groups.drop_last()[i] == g;
            assert(groups[i] == g);
        }
        assert(groups[groups.len() - 1] == groups.last());
    }
}

/// Setting the modes of groups leaves the global settings and those of keys alone.
pub proof fn group_modes_keep_scopes(c: DynamicView, groups: Seq<Seq<char>>, mode: RespondMode)
    ensures
        group_modes_set(c, groups, mode).global == c.global,
        group_modes_set(c, groups, mode).npubs == c.npubs,
    decreases groups.len(),
{
    if groups.len() > 0 {
        group_modes_keep_scopes(c, groups.drop_last(), mode);
    }
}

/// The words for the modes, in any letter case; any other word asks for mentions.
pub proof fn words_for_modes(s: Seq<char>)
    ensures
        mode_of(s) == RespondMode::All <==> lowercase(s) == "all"@,
        mode_of(s) == RespondMode::Owner <==> lowercase(s) == "owner"@,
        mode_of(s) == RespondMode::Silent <==> (lowercase(s) == "none"@ || lowercase(s)
            == "silent"@ || lowercase(s) == "listen"@),
{
    reveal_strlit("all");
    reveal_strlit("owner");
    reveal_strlit("none");
    reveal_strlit("silent");
    reveal_strlit("listen");
    assert("none"@.len() == 4 && "silent"@.len() == 6 && "listen"@.len() == 6);
    assert("all"@.len() == 3 && "owner"@.len() == 5);
}

/// Different modes have different names.
pub proof fn mode_names_differ(a: RespondMode, b: RespondMode)
    requires
        mode_name(a) == mode_name(b),
    ensures
        a == b,
{
    reveal_strlit("All");
    reveal_strlit("Mention");
    reveal_strlit("Owner");
    reveal_strlit("None");
    assert("All"@.len() == 3 && "Mention"@.len() == 7 && "Owner"@.len() == 5 && "None"@.len() == 4);
}

/// The last tag that sets something decides it: a tag that comes in after others wins where it has a
/// value that reads, and changes nothing else.
pub proof fn last_tag_decides(tags: Seq<Seq<Seq<char>>>, tag: Seq<Seq<char>>)
    ensures
        ({
            let was = tag_settings(tags);
            let is = tag_settings(tags.push(tag));
            &&& is.respond_mode == (if tag.len() > 1 && tag[0] == "respond_mode"@ {
                Some(mode_of(tag[1]))
            } else {
                was.respond_mode
            })
            &&& is.context_history == (if tag.len() > 1 && tag[0] == "context_history"@ && parsed(
                tag[1],
                usize::MAX as nat,
            ) is Some {
                Some(parsed(tag[1], usize::MAX as nat)->0 as usize)
            } else {
                was.context_history
            })
        }),
        tag_settings(Seq::empty()).respond_mode is None,
        tag_settings(Seq::empty()).context_history is None,
{
    assert(tags.push(tag).drop_last() =~= tags);
}

/// Published settings count for the scope that their address names, and for no other.
pub proof fn published_settings_count(c: DynamicView, name: Seq<char>, gc: GroupConfig)
    ensures
        ({
            let after = entry_applied(c, "snowclaw:config:global"@, gc);
            &&& after.global == Some(gc)
            &&& after.groups == c.groups
            &&& after.npubs == c.npubs
        }),
        ({
            let after = entry_applied(c, "snowclaw:config:group:"@ + name, gc);
            &&& after.groups == c.groups.insert(name, gc)
            &&& after.global == c.global
            &&& after.npubs == c.npubs
        }),
        ({
            let after = entry_applied(c, "snowclaw:config:npub:"@ + name, gc);
            &&& after.npubs == c.npubs.insert(name, gc)
            &&& after.global == c.global
            &&& after.groups == c.groups
        }),
{
    let p = "snowclaw:config:"@;
    reveal_strlit("snowclaw:config:");
    reveal_strlit("snowclaw:config:global");
    reveal_strlit("snowclaw:config:group:");
    reveal_strlit("snowclaw:config:npub:");
    reveal_strlit("global");
    reveal_strlit("group:");
    reveal_strlit("npub:");
    let g = "global"@;
    assert("snowclaw:config:global"@ =~= p + g);
    stripped_once(p, g);
    let a = "group:"@ + name;
    assert("snowclaw:config:group:"@ + name =~= p + a);
    assert(a[0] == 'g' && g[1] == 'l' && a[1] == 'r');
    stripped_once(p, a);
    assert(a.subrange(0, 6) =~= "group:"@);
    assert(a.skip(6) =~= name);
    let b = "npub:"@ + name;
    assert("snowclaw:config:npub:"@ + name =~= p + b);
    assert(b[0] == 'n');
    stripped_once(p, b);
    assert(b.subrange(0, 5) =~= "npub:"@);
    assert(b.skip(5) =~= name);
    if begins_with(b, "group:"@) {
        assert(b.subrange(0, 6)[0] == b[0]);
    }
}

proof fn stripped_once(p: Seq<char>, s: Seq<char>)
    requires
        p == "snowclaw:config:"@,
        s.len() > 0,
        s[0] == 'g' || s[0] == 'n',
    ensures
        strip_leading(p + s, p) == s,
{
    reveal_strlit("snowclaw:config:");
    let whole = p + s;
    assert(whole.subrange(0, p.len() as int) =~= p);
    assert(whole.skip(p.len() as int) =~= s);
    if begins_with(s, p) {
        assert(s.subrange(0, p.len() as int)[0] == s[0]);
    }
    reveal_with_fuel(strip_leading, 2);
}

} // verus!
