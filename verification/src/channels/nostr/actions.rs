//! The action protocol: requests that change or read the agent's settings, and their replies.

use super::channel::NostrChannel;
use super::config::{
    all_modes_set, group_mode_set, group_modes_keep_scopes, group_modes_set, group_settings,
    listed_groups_have_mode, mode_name, mode_of, DynamicView, GroupConfig, RespondMode,
};
use crate::channels::event::{
    agent_tag, agent_tag_text, is_tag_named, pair_tag, tag_named, tag_texts, DraftView, EventDraft,
    EventView, NostrEvent,
};
use crate::text::number::{parse_usize, parsed};
use crate::text::pattern::{begins_with, starts_with};
use crate::text::{opt_str, opt_text, str_eq, texts};
use vstd::prelude::*;

verus! {

/// The texts of a list of pairs.
pub open spec fn pair_texts(v: Seq<(String, String)>) -> Seq<(Seq<char>, Seq<char>)> {
    Seq::new(v.len(), |i: int| (v[i].0@, v[i].1@))
}

/// The parameter that a tag gives.
pub open spec fn tag_param(tag: Seq<Seq<char>>) -> Option<(Seq<char>, Seq<char>)> {
    if tag_named(tag, "param"@) && tag.len() > 1 {
        Some((tag[1], if tag.len() > 2 { tag[2] } else { Seq::empty() }))
    } else {
        None
    }
}

/// The parameters that tags give, in order.
pub open spec fn tag_params(tags: Seq<Seq<Seq<char>>>) -> Seq<(Seq<char>, Seq<char>)> {
    tags.filter_map(|t: Seq<Seq<char>>| tag_param(t))
}

/// The value of the first parameter called `key`.
pub open spec fn param(params: Seq<(Seq<char>, Seq<char>)>, key: Seq<char>) -> Option<Seq<char>>
    decreases params.len(),
{
    if params.len() == 0 {
        None
    } else if params[0].0 == key {
        Some(params[0].1)
    } else {
        param(params.skip(1), key)
    }
}

/// The value of the first parameter called `key`.
pub fn find_param(params: &Vec<(String, String)>, key: &str) -> (r: Option<String>)
    ensures
        opt_text(r) == param(pair_texts(params@), key@),
{
    let ghost all = pair_texts(params@);
    let mut i: usize = 0;
    proof {
        assert(all.skip(0) =~= all);
    }
    while i < params.len()
        invariant
            i <= params@.len(),
            all == pair_texts(params@),
            param(all, key@) == param(all.skip(i as int), key@),
        decreases params.len() - i,
    {
        proof {
            assert(all.skip(i as int)[0] == (params@[i as int].0@, params@[i as int].1@));
            assert(all.skip(i as int).skip(1) =~= all.skip(i + 1));
        }
        if str_eq(params[i].0.as_str(), key) {
            return Some(params[i].1.clone());
        }
        i = i + 1;
    }
    None
}

/// What a reply says.
pub enum ReplyBody {
    Empty,
    Pong { uptime_start: u64, groups: Vec<String>, model: String },
    ConfigSet { respond_mode: Option<String>, context_history: Option<usize>, applied_to: String },
    ConfigGet {
        scope: String,
        respond_mode: Option<String>,
        context_history: Option<usize>,
        file_respond_mode: String,
        file_context_history: usize,
    },
    Error { error: String },
}

/// What a `ReplyBody` says, as texts.
pub enum ReplyView {
    Empty,
    Pong { uptime_start: u64, groups: Seq<Seq<char>>, model: Seq<char> },
    ConfigSet {
        respond_mode: Option<Seq<char>>,
        context_history: Option<usize>,
        applied_to: Seq<char>,
    },
    ConfigGet {
        scope: Seq<char>,
        respond_mode: Option<Seq<char>>,
        context_history: Option<usize>,
        file_respond_mode: Seq<char>,
        file_context_history: usize,
    },
    Error { error: Seq<char> },
}

impl View for ReplyBody {
    type V = ReplyView;

    open spec fn view(&self) -> ReplyView {
        match self {
            ReplyBody::Empty => ReplyView::Empty,
            ReplyBody::Pong { uptime_start, groups, model } => ReplyView::Pong {
                uptime_start: *uptime_start,
                groups: texts(groups@),
                model: model@,
            },
            ReplyBody::ConfigSet { respond_mode, context_history, applied_to } =>
                ReplyView::ConfigSet {
                respond_mode: opt_text(*respond_mode),
                context_history: *context_history,
                applied_to: applied_to@,
            },
            ReplyBody::ConfigGet {
                scope,
                respond_mode,
                context_history,
                file_respond_mode,
                file_context_history,
            } => ReplyView::ConfigGet {
                scope: scope@,
                respond_mode: opt_text(*respond_mode),
                context_history: *context_history,
                file_respond_mode: file_respond_mode@,
                file_context_history: *file_context_history,
            },
            ReplyBody::Error { error } => ReplyView::Error { error: error@ },
        }
    }
}

/// The reply to a request: its status and what it says.
pub struct ActionReply {
    pub status: String,
    pub body: ReplyBody,
}

/// The number that a parameter writes.
pub open spec fn number_param(v: Option<Seq<char>>) -> Option<usize> {
    match v {
        Some(s) => match parsed(s, usize::MAX as nat) {
            Some(n) => Some(n as usize),
            None => None,
        },
        None => None,
    }
}

/// Settings after `config.set`: what the parameters name is replaced.
pub open spec fn settings_updated(
    gc: Option<GroupConfig>,
    mode: Option<Seq<char>>,
    history: Option<usize>,
) -> GroupConfig {
    let base = match gc {
        Some(g) => g,
        None => super::config::no_settings(),
    };
    GroupConfig {
        respond_mode: match mode {
            Some(m) => Some(mode_of(m)),
            None => base.respond_mode,
        },
        context_history: match history {
            Some(n) => Some(n),
            None => base.context_history,
        },
    }
}

/// The configuration after the mode of one group, or of all, was set.
pub open spec fn scope_mode_set(
    c: DynamicView,
    groups: Seq<Seq<char>>,
    group: Option<Seq<char>>,
    mode: RespondMode,
) -> DynamicView {
    match group {
        Some(g) => group_mode_set(c, g, mode),
        None => all_modes_set(c, groups, mode),
    }
}

/// The mode that `control.resume` asks for.
pub open spec fn resume_mode(params: Seq<(Seq<char>, Seq<char>)>) -> RespondMode {
    match param(params, "mode"@) {
        Some(m) => mode_of(m),
        None => mode_of("mention"@),
    }
}

/// The configuration after an action.
pub open spec fn action_applied(
    c: DynamicView,
    groups: Seq<Seq<char>>,
    action: Seq<char>,
    params: Seq<(Seq<char>, Seq<char>)>,
    group: Option<Seq<char>>,
) -> DynamicView {
    if action == "control.stop"@ {
        scope_mode_set(c, groups, group, RespondMode::Silent)
    } else if action == "control.resume"@ {
        scope_mode_set(c, groups, group, resume_mode(params))
    } else if action == "control.ping"@ {
        c
    } else if action == "config.set"@ {
        let mode = param(params, "respond_mode"@);
        let history = number_param(param(params, "context_history"@));
        match group {
            Some(g) => DynamicView {
                groups: c.groups.insert(g, settings_updated(group_settings(c, g), mode, history)),
                ..c
            },
            None => DynamicView { global: Some(settings_updated(c.global, mode, history)), ..c },
        }
    } else {
        c
    }
}

/// What `config.get` reports of some settings.
pub open spec fn reported_mode(gc: Option<GroupConfig>) -> Option<Seq<char>> {
    match gc {
        Some(g) => match g.respond_mode {
            Some(m) => Some(mode_name(m)),
            None => None,
        },
        None => None,
    }
}

/// What `config.get` reports of some settings.
pub open spec fn reported_history(gc: Option<GroupConfig>) -> Option<usize> {
    match gc {
        Some(g) => g.context_history,
        None => None,
    }
}

/// The scope that an action applied to.
pub open spec fn scope_name(group: Option<Seq<char>>) -> Seq<char> {
    match group {
        Some(g) => g,
        None => "global"@,
    }
}

/// The status of the reply to an action.
pub open spec fn action_status(action: Seq<char>) -> Seq<char> {
    if action == "control.stop"@ || action == "control.resume"@ || action == "control.ping"@
        || action == "config.set"@ || action == "config.get"@ {
        "ok"@
    } else {
        "error"@
    }
}

/// What the reply to an action says.
pub open spec fn action_reply(
    ch: &NostrChannel,
    action: Seq<char>,
    params: Seq<(Seq<char>, Seq<char>)>,
    group: Option<Seq<char>>,
    now: u64,
) -> ReplyView {
    if action == "control.stop"@ || action == "control.resume"@ {
        ReplyView::Empty
    } else if action == "control.ping"@ {
        ReplyView::Pong {
            uptime_start: now,
            groups: texts(ch.config.groups@),
            model: "configured"@,
        }
    } else if action == "config.set"@ {
        ReplyView::ConfigSet {
            respond_mode: param(params, "respond_mode"@),
            context_history: number_param(param(params, "context_history"@)),
            applied_to: scope_name(group),
        }
    } else if action == "config.get"@ {
        let gc = match group {
            Some(g) => group_settings(ch.dynamic@, g),
            None => ch.dynamic@.global,
        };
        ReplyView::ConfigGet {
            scope: scope_name(group),
            respond_mode: reported_mode(gc),
            context_history: reported_history(gc),
            file_respond_mode: mode_name(ch.config.respond_mode),
            file_context_history: ch.config.context_history,
        }
    } else {
        ReplyView::Error { error: "unknown action: "@ + action }
    }
}

/// The scope that a borrowed group name stands for.
pub open spec fn group_view(group: Option<&str>) -> Option<Seq<char>> {
    opt_str(group)
}

fn scope_text(group: Option<&str>) -> (r: String)
    ensures
        r@ == scope_name(group_view(group)),
{
    match group {
        Some(g) => g.to_owned(),
        None => "global".to_owned(),
    }
}

fn mode_report(gc: Option<GroupConfig>) -> (r: Option<String>)
    ensures
        opt_text(r) == reported_mode(gc),
{
    match gc {
        Some(g) => match g.respond_mode {
            Some(m) => Some(m.name()),
            None => None,
        },
        None => None,
    }
}

fn update_settings(gc: Option<GroupConfig>, mode: &Option<String>, history: Option<usize>) -> (r:
    GroupConfig)
    ensures
        r == settings_updated(gc, opt_text(*mode), history),
{
    let mut out = match gc {
        Some(g) => g,
        None => GroupConfig::default(),
    };
    if let Some(m) = mode {
        out.respond_mode = Some(RespondMode::from_str(m.as_str()));
    }
    if let Some(n) = history {
        out.context_history = Some(n);
    }
    out
}

/// Whether only the owner may ask for an action.
pub open spec fn owner_only_action(action: Seq<char>) -> bool {
    begins_with(action, "control.stop"@) || begins_with(action, "control.resume"@) || action
        == "config.set"@
}

impl NostrChannel {
    /// The parameters that an event's tags give, in order.
    pub fn extract_action_params(event: &NostrEvent) -> (r: Vec<(String, String)>)
        ensures
            pair_texts(r@) == tag_params(event@.tags),
    {
        let ghost tags = tag_texts(event.tags@);
        let ghost f = |t: Seq<Seq<char>>| tag_param(t);
        let mut r: Vec<(String, String)> = Vec::new();
        let mut i: usize = 0;
        proof {
            assert(tags.take(0).filter_map(f) =~= Seq::<(Seq<char>, Seq<char>)>::empty());
        }
        while i < event.tags.len()
            invariant
                i <= event.tags@.len(),
                tags == tag_texts(event.tags@),
                f == (|t: Seq<Seq<char>>| tag_param(t)),
                pair_texts(r@) == tags.take(i as int).filter_map(f),
            decreases event.tags.len() - i,
        {
            let tag = &event.tags[i];
            let ghost before = r@;
            proof {
                tags.lemma_filter_map_take_succ(f, i as int);
                assert(tags[i as int] == texts(tag@));
            }
            if is_tag_named(tag, "param") && tag.len() > 1 {
                let value = if tag.len() > 2 {
                    tag[2].clone()
                } else {
                    String::new()
                };
                r.push((tag[1].clone(), value));
                assert(pair_texts(r@) =~= pair_texts(before).push(tag_param(texts(tag@))->0));
            }
            i = i + 1;
        }
        proof {
            assert(tags.take(i as int) =~= tags);
        }
        r
    }

    /// Whether a sender may ask for an action.
    pub open spec fn may_request(&self, action: Seq<char>, key: Seq<char>) -> bool {
        if owner_only_action(action) {
            self.owned_by(key)
        } else {
            self.owned_by(key) || self.allows(key)
        }
    }

    /// Whether the sender of an event may ask for an action: stopping, resuming and setting are the
    /// owner's alone.
    pub fn is_request_allowed(&self, action: &str, event: &NostrEvent) -> (r: bool)
        ensures
            r == self.may_request(action@, event@.pubkey),
    {
        let owner_only = starts_with(action, "control.stop") || starts_with(
            action,
            "control.resume",
        ) || str_eq(action, "config.set");
        let is_owner = self.is_from_owner(event);
        if owner_only {
            is_owner
        } else {
            is_owner || self.is_action_allowed(action, event.pubkey.as_str())
        }
    }

    /// Sets the mode of one group, or of every configured group and the global one.
    fn set_scope_mode(&mut self, group: Option<&str>, mode: RespondMode)
        ensures
            final(self).dynamic@ == scope_mode_set(
                old(self).dynamic@,
                texts(old(self).config.groups@),
                group_view(group),
                mode,
            ),
            final(self).config == old(self).config,
            final(self).history == old(self).history,
            final(self).names == old(self).names,
            final(self).event_cache == old(self).event_cache,
            final(self).owner_verified == old(self).owner_verified,
    {
        match group {
            Some(g) => self.dynamic.set_group_mode(g, mode),
            None => self.dynamic.set_all_modes(&self.config.groups, mode),
        }
    }

    /// Carries out an action and says what to reply.
    pub fn dispatch_action(
        &mut self,
        action: &str,
        params: &Vec<(String, String)>,
        group: Option<&str>,
        now: u64,
    ) -> (r: ActionReply)
        ensures
            final(self).dynamic@ == action_applied(
                old(self).dynamic@,
                texts(old(self).config.groups@),
                action@,
                pair_texts(params@),
                group_view(group),
            ),
            r.status@ == action_status(action@),
            r.body@ == action_reply(old(self), action@, pair_texts(params@), group_view(group), now),
            final(self).config == old(self).config,
            final(self).history == old(self).history,
            final(self).names == old(self).names,
            final(self).event_cache == old(self).event_cache,
            final(self).owner_verified == old(self).owner_verified,
    {
        proof {
            actions_differ();
        }
        if str_eq(action, "control.stop") {
            self.set_scope_mode(group, RespondMode::Silent);
            return ActionReply { status: "ok".to_owned(), body: ReplyBody::Empty };
        }
        if str_eq(action, "control.resume") {
            let mode = match find_param(params, "mode") {
                Some(m) => RespondMode::from_str(m.as_str()),
                None => RespondMode::from_str("mention"),
            };
            self.set_scope_mode(group, mode);
            return ActionReply { status: "ok".to_owned(), body: ReplyBody::Empty };
        }
        if str_eq(action, "control.ping") {
            return ActionReply {
                status: "ok".to_owned(),
                body: ReplyBody::Pong {
                    uptime_start: now,
                    groups: self.config.groups.clone(),
                    model: "configured".to_owned(),
                },
            };
        }
        if str_eq(action, "config.set") {
            let mode = find_param(params, "respond_mode");
            let history = match find_param(params, "context_history") {
                Some(v) => parse_usize(v.as_str()),
                None => None,
            };
            match group {
                Some(g) => {
                    let current = match self.dynamic.groups.get(g) {
                        Some(gc) => Some(*gc),
                        None => None,
                    };
                    let updated = update_settings(current, &mode, history);
                    self.dynamic.groups.insert(g.to_owned(), updated);
                },
                None => {
                    let updated = update_settings(self.dynamic.global, &mode, history);
                    self.dynamic.global = Some(updated);
                },
            }
            return ActionReply {
                status: "ok".to_owned(),
                body: ReplyBody::ConfigSet {
                    respond_mode: mode,
                    context_history: history,
                    applied_to: scope_text(group),
                },
            };
        }
        if str_eq(action, "config.get") {
            let gc = match group {
                Some(g) => match self.dynamic.groups.get(g) {
                    Some(gc) => Some(*gc),
                    None => None,
                },
                None => self.dynamic.global,
            };
            let history = match gc {
                Some(g) => g.context_history,
                None => None,
            };
            return ActionReply {
                status: "ok".to_owned(),
                body: ReplyBody::ConfigGet {
                    scope: scope_text(group),
                    respond_mode: mode_report(gc),
                    context_history: history,
                    file_respond_mode: self.config.respond_mode.name(),
                    file_context_history: self.config.context_history,
                },
            };
        }
        let mut error = String::from_str("unknown action: ");
        error.append(action);
        ActionReply { status: "error".to_owned(), body: ReplyBody::Error { error } }
    }

    /// The event that answers a request.
    pub fn action_response_draft(
        request: &NostrEvent,
        action: &str,
        status: &str,
        content: &str,
    ) -> (r: EventDraft)
        ensures
            r@ == response_draft(request@, action@, status@, content@),
    {
        let mut tags: Vec<Vec<String>> = Vec::new();
        tags.push(pair_tag("p", request.pubkey.as_str()));
        let mut e: Vec<String> = Vec::new();
        e.push("e".to_owned());
        e.push(request.id.clone());
        e.push("".to_owned());
        e.push("reply".to_owned());
        let mut result = action.to_owned();
        result.append(".result");
        proof {
            assert(texts(e@) =~= seq!["e"@, request.id@, ""@, "reply"@]);
        }
        tags.push(e);
        tags.push(pair_tag("action", result.as_str()));
        tags.push(pair_tag("status", status));
        tags.push(agent_tag());
        let r = EventDraft { kind: 1121, tags, content: content.to_owned() };
        proof {
            assert(r@.tags =~= response_draft(request@, action@, status@, content@).tags);
        }
        r
    }
}

/// The event that answers a request.
pub open spec fn response_draft(
    request: EventView,
    action: Seq<char>,
    status: Seq<char>,
    content: Seq<char>,
) -> DraftView {
    DraftView {
        kind: 1121,
        tags: seq![
            seq!["p"@, request.pubkey],
            seq!["e"@, request.id, ""@, "reply"@],
            seq!["action"@, action + ".result"@],
            seq!["status"@, status],
            agent_tag_text(),
        ],
        content,
    }
}

/// The actions have different names.
pub proof fn actions_differ()
    ensures
        "control.stop"@ != "control.resume"@,
        "control.stop"@ != "control.ping"@,
        "control.stop"@ != "config.set"@,
        "control.stop"@ != "config.get"@,
        "control.resume"@ != "control.ping"@,
        "control.resume"@ != "config.set"@,
        "control.resume"@ != "config.get"@,
        "control.ping"@ != "config.set"@,
        "control.ping"@ != "config.get"@,
        "config.set"@ != "config.get"@,
{
    reveal_strlit("control.stop");
    reveal_strlit("control.resume");
    reveal_strlit("control.ping");
    reveal_strlit("config.set");
    reveal_strlit("config.get");
    assert("control.stop"@[8] == 's' && "control.ping"@[8] == 'p');
    assert("config.set"@[7] == 's' && "config.get"@[7] == 'g');
    assert("control.resume"@.len() == 14 && "control.stop"@.len() == 12 && "control.ping"@.len()
        == 12 && "config.set"@.len() == 10 && "config.get"@.len() == 10);
}

/// The first parameter of a name gives its value; without such a parameter there is none.
pub proof fn first_param_decides(params: Seq<(Seq<char>, Seq<char>)>, key: Seq<char>, k: int)
    requires
        0 <= k <= params.len(),
        forall|j: int| 0 <= j < k ==> (#[trigger] params[j]).0 != key,
        k < params.len() ==> params[k].0 == key,
    ensures
        param(params, key) == (if k < params.len() {
            Some(params[k].1)
        } else {
            None
        }),
    decreases params.len(),
{
    if k > 0 {
        let rest = params.skip(1);
        assert(params[0].0 != key);
        assert forall|j: int| 0 <= j < k - 1 implies (#[trigger] rest[j]).0 != key by {
            assert(rest[j] == params[j + 1]);
        }
        first_param_decides(rest, key, k - 1);
    }
}

/// Every `param` tag with a name gives a parameter, in order, and no other tag does.
pub proof fn params_are_tags(tags: Seq<Seq<Seq<char>>>, tag: Seq<Seq<char>>)
    ensures
        tag_params(Seq::empty()) == Seq::<(Seq<char>, Seq<char>)>::empty(),
        tag.len() > 1 && tag[0] == "param"@ ==> tag_params(tags.push(tag)) == tag_params(tags).push(
            (
                tag[1],
                if tag.len() > 2 {
                    tag[2]
                } else {
                    Seq::empty()
                },
            ),
        ),
        !(tag.len() > 1 && tag[0] == "param"@) ==> tag_params(tags.push(tag)) == tag_params(tags),
{
    let f = |t: Seq<Seq<char>>| tag_param(t);
    let all = tags.push(tag);
    all.lemma_filter_map_take_succ(f, tags.len() as int);
    assert(all.take(tags.len() as int) =~= tags);
    assert(all.take(all.len() as int) =~= all);
    assert(tag_params(Seq::empty()) =~= Seq::<(Seq<char>, Seq<char>)>::empty());
}

/// `config.set` takes effect where it says: the scope has what is named, keeps what is not, and no
/// other scope changes.
pub proof fn settings_are_set(
    c: DynamicView,
    groups: Seq<Seq<char>>,
    params: Seq<(Seq<char>, Seq<char>)>,
    group: Option<Seq<char>>,
)
    ensures
        ({
            let after = action_applied(c, groups, "config.set"@, params, group);
            let was = match group {
                Some(g) => if c.groups.contains_key(g) {
                    Some(c.groups[g])
                } else {
                    None
                },
                None => c.global,
            };
            let is = match group {
                Some(g) => if after.groups.contains_key(g) {
                    Some(after.groups[g])
                } else {
                    None
                },
                None => after.global,
            };
            &&& is is Some
            &&& param(params, "respond_mode"@) matches Some(m) ==> is->0.respond_mode == Some(
                mode_of(m),
            )
            &&& param(params, "respond_mode"@) is None ==> is->0.respond_mode == (match was {
                Some(gc) => gc.respond_mode,
                None => None,
            })
            &&& param(params, "context_history"@) matches Some(text) ==> parsed(
                text,
                usize::MAX as nat,
            ) matches Some(n) ==> is->0.context_history == Some(n as usize)
            &&& (param(params, "context_history"@) is None || parsed(
                param(params, "context_history"@)->0,
                usize::MAX as nat,
            ) is None) ==> is->0.context_history == (match was {
                Some(gc) => gc.context_history,
                None => None,
            })
            &&& group is Some ==> after.global == c.global && after.groups.remove(group->0)
                == c.groups.remove(group->0)
            &&& group is None ==> after.groups == c.groups
            &&& after.npubs == c.npubs
        }),
{
    actions_differ();
    if let Some(g) = group {
        let after = action_applied(c, groups, "config.set"@, params, group);
        assert(after.groups.remove(g) =~= c.groups.remove(g));
    }
}

/// `config.get` reports what `config.set` set: asked in the same scope, it names the mode and the
/// length that were given.
pub proof fn set_settings_are_reported(
    before: &NostrChannel,
    after: &NostrChannel,
    params: Seq<(Seq<char>, Seq<char>)>,
    group: Option<Seq<char>>,
    asked: Seq<(Seq<char>, Seq<char>)>,
    now: u64,
)
    requires
        after.dynamic@ == action_applied(
            before.dynamic@,
            texts(before.config.groups@),
            "config.set"@,
            params,
            group,
        ),
    ensures
        action_reply(after, "config.get"@, asked, group, now) matches ReplyView::ConfigGet {
            scope,
            respond_mode,
            context_history,
            file_respond_mode,
            file_context_history,
        } && {
            &&& scope == (match group {
                Some(g) => g,
                None => "global"@,
            })
            &&& param(params, "respond_mode"@) matches Some(m) ==> respond_mode == Some(
                mode_name(mode_of(m)),
            )
            &&& param(params, "context_history"@) matches Some(text) ==> parsed(
                text,
                usize::MAX as nat,
            ) matches Some(n) ==> context_history == Some(n as usize)
            &&& file_respond_mode == mode_name(after.config.respond_mode)
            &&& file_context_history == after.config.context_history
        },
{
    actions_differ();
    settings_are_set(before.dynamic@, texts(before.config.groups@), params, group);
}

/// Of the actions only stopping, resuming and setting change a setting, and each known action is
/// answered with success, any other with an error that names it.
pub proof fn other_actions_keep_settings(
    ch: &NostrChannel,
    groups: Seq<Seq<char>>,
    action: Seq<char>,
    params: Seq<(Seq<char>, Seq<char>)>,
    group: Option<Seq<char>>,
    now: u64,
)
    ensures
        action != "control.stop"@ && action != "control.resume"@ && action != "config.set"@
            ==> action_applied(ch.dynamic@, groups, action, params, group) == ch.dynamic@,
        action_status(action) == "ok"@ <==> (action == "control.stop"@ || action
            == "control.resume"@ || action == "control.ping"@ || action == "config.set"@ || action
            == "config.get"@),
        action_status(action) == "ok"@ || action_status(action) == "error"@,
        action_status(action) == "error"@ ==> action_reply(ch, action, params, group, now)
            == (ReplyView::Error { error: "unknown action: "@ + action }),
        action == "control.ping"@ ==> (action_reply(ch, action, params, group, now)
            matches ReplyView::Pong { uptime_start, groups: gs, model } && uptime_start == now && gs
            == texts(ch.config.groups@) && model == "configured"@),
        action == "config.set"@ ==> (action_reply(ch, action, params, group, now)
            matches ReplyView::ConfigSet { respond_mode, context_history, applied_to }
            && respond_mode == param(params, "respond_mode"@) && applied_to == (match group {
            Some(g) => g,
            None => "global"@,
        })),
{
    reveal_strlit("ok");
    reveal_strlit("error");
    assert("ok"@.len() != "error"@.len());
    actions_differ();
}

/// Stopping and resuming set the mode of the group that is named; without one, of every configured
/// group and of those without a setting of their own. Resuming without a mode asks for mentions.
pub proof fn stop_and_resume_take_effect(
    c: DynamicView,
    groups: Seq<Seq<char>>,
    params: Seq<(Seq<char>, Seq<char>)>,
    group: Option<Seq<char>>,
    g: Seq<char>,
)
    ensures
        ({
            let stopped = action_applied(c, groups, "control.stop"@, params, group);
            let resumed = action_applied(c, groups, "control.resume"@, params, group);
            let mode = match param(params, "mode"@) {
                Some(m) => mode_of(m),
                None => mode_of("mention"@),
            };
            &&& (group == Some(g) || (group is None && groups.contains(g)))
                ==> stopped.groups.contains_key(g) && stopped.groups[g].respond_mode == Some(
                RespondMode::Silent,
            ) && resumed.groups.contains_key(g) && resumed.groups[g].respond_mode == Some(mode)
            &&& !(group == Some(g) || (group is None && groups.contains(g))) ==> group_settings(
                stopped,
                g,
            ) == group_settings(c, g) && group_settings(resumed, g) == group_settings(c, g)
            &&& group is None ==> (stopped.global matches Some(gc) && gc.respond_mode == Some(
                RespondMode::Silent,
            )) && (resumed.global matches Some(gc) && gc.respond_mode == Some(mode))
            &&& group is Some ==> stopped.global == c.global && resumed.global == c.global
            &&& stopped.npubs == c.npubs && resumed.npubs == c.npubs
        }),
{
    actions_differ();
    let mode = resume_mode(params);
    listed_groups_have_mode(c, groups, RespondMode::Silent, g);
    listed_groups_have_mode(c, groups, mode, g);
    group_modes_keep_scopes(c, groups, RespondMode::Silent);
    group_modes_keep_scopes(c, groups, mode);
    assert(group_settings(scope_mode_set(c, groups, None, mode), g) == group_settings(
        group_modes_set(c, groups, mode),
        g,
    ));
    assert(group_settings(scope_mode_set(c, groups, None, RespondMode::Silent), g)
        == group_settings(group_modes_set(c, groups, RespondMode::Silent), g));
}

/// An answer goes to the one who asked, names the request that it answers and the action that was
/// asked for, and says how it ended.
pub proof fn answers_name_their_request(
    request: EventView,
    action: Seq<char>,
    status: Seq<char>,
    content: Seq<char>,
)
    ensures
        response_draft(request, action, status, content).kind == 1121,
        response_draft(request, action, status, content).content == content,
        response_draft(request, action, status, content).tags.contains(seq!["p"@, request.pubkey]),
        response_draft(request, action, status, content).tags.contains(
            seq!["e"@, request.id, ""@, "reply"@],
        ),
        response_draft(request, action, status, content).tags.contains(
            seq!["action"@, action + ".result"@],
        ),
        response_draft(request, action, status, content).tags.contains(seq!["status"@, status]),
        response_draft(request, action, status, content).tags.len() == 5,
{
    let tags = response_draft(request, action, status, content).tags;
    assert(tags[0] == seq!["p"@, request.pubkey]);
    assert(tags[1] == seq!["e"@, request.id, ""@, "reply"@]);
    assert(tags[2] == seq!["action"@, action + ".result"@]);
    assert(tags[3] == seq!["status"@, status]);
}

} // verus!
