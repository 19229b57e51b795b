//! What is done with each event that a relay delivers.

use super::actions::{
    action_applied, action_reply, action_status, group_view, tag_params, ReplyBody, ReplyView,
};
use super::channel::{can_cut, context_len, history_of, history_ok, HistoryMessage, NostrChannel};
use super::config::{
    all_modes_set, apply_config_entry, config_of, entry_applied, global_mode_set, group_mode_set,
    mode_of, parse_config_event, DynamicView, RespondMode,
};
use super::format::{group_header, task_line};
use super::history::{history_context, last_n};
use crate::channels::event::{
    any_tag_value, any_value, first_tag_value, first_value, has_pair, has_tag_pair, EventView,
    NostrEvent,
};
use crate::channels::recent::entries_put;
use crate::keys::{npub_or_hex, npub_or_hex_text};
use crate::text::case::{lowercase, to_lowercase};
use crate::text::pattern::{begins_with, starts_with, strip_prefix};
use crate::text::space::{trim, trimmed};
use crate::text::{ascii_byte_take, list_contains, opt_text, str_eq, texts};
use vstd::prelude::*;
use vstd::utf8::is_ascii_chars;

verus! {

/// What is to be done about an event.
pub enum ListenStep {
    /// Nothing.
    Ignored,
    /// Nothing more: the channel has taken it in.
    Handled,
    /// A message of a group: find out who sent it, then `on_group_message`.
    GroupMessage { group: String },
    /// A task status to report.
    TaskStatus { task_ref: String, status: String },
    /// A request to answer.
    Reply { action: String, status: String, body: ReplyBody },
    /// Another agent's state to remember.
    AgentState { d_tag: String, status: String },
}

/// What a `ListenStep` says.
pub enum StepView {
    Ignored,
    Handled,
    GroupMessage { group: Seq<char> },
    TaskStatus { task_ref: Seq<char>, status: Seq<char> },
    Reply { action: Seq<char>, status: Seq<char>, body: ReplyView },
    AgentState { d_tag: Seq<char>, status: Seq<char> },
}

impl View for ListenStep {
    type V = StepView;

    open spec fn view(&self) -> StepView {
        match self {
            ListenStep::Ignored => StepView::Ignored,
            ListenStep::Handled => StepView::Handled,
            ListenStep::GroupMessage { group } => StepView::GroupMessage { group: group@ },
            ListenStep::TaskStatus { task_ref, status } => StepView::TaskStatus {
                task_ref: task_ref@,
                status: status@,
            },
            ListenStep::Reply { action, status, body } => StepView::Reply {
                action: action@,
                status: status@,
                body: body@,
            },
            ListenStep::AgentState { d_tag, status } => StepView::AgentState {
                d_tag: d_tag@,
                status: status@,
            },
        }
    }
}

/// `v`, or `default` where there is none.
pub open spec fn or_text(v: Option<Seq<char>>, default: Seq<char>) -> Seq<char> {
    match v {
        Some(s) => s,
        None => default,
    }
}

fn or_default(v: Option<String>, default: &str) -> (r: String)
    ensures
        r@ == or_text(opt_text(v), default@),
{
    match v {
        Some(s) => s,
        None => default.to_owned(),
    }
}

/// The name of the status that a task event reports.
pub open spec fn task_status(kind: u16) -> Seq<char> {
    if kind == 1630 {
        "Queued"@
    } else if kind == 1631 {
        "Done"@
    } else if kind == 1632 {
        "Cancelled"@
    } else if kind == 1633 {
        "Draft"@
    } else if kind == 1634 {
        "Executing"@
    } else if kind == 1635 {
        "Blocked"@
    } else if kind == 1636 {
        "Review"@
    } else if kind == 1637 {
        "Failed"@
    } else {
        "Unknown"@
    }
}

/// The name of the status that a task event reports.
pub fn task_status_name(kind: u16) -> (r: String)
    ensures
        r@ == task_status(kind),
{
    if kind == 1630 {
        "Queued".to_owned()
    } else if kind == 1631 {
        "Done".to_owned()
    } else if kind == 1632 {
        "Cancelled".to_owned()
    } else if kind == 1633 {
        "Draft".to_owned()
    } else if kind == 1634 {
        "Executing".to_owned()
    } else if kind == 1635 {
        "Blocked".to_owned()
    } else if kind == 1636 {
        "Review".to_owned()
    } else if kind == 1637 {
        "Failed".to_owned()
    } else {
        "Unknown".to_owned()
    }
}

/// The group that a message counts for.
pub open spec fn message_group(e: EventView) -> Seq<char> {
    or_text(first_value(e.tags, "h"@), "unknown"@)
}

/// Whether an event is a message of a group.
pub open spec fn is_group_kind(kind: u16) -> bool {
    kind == 9 || kind == 11 || kind == 12
}

impl NostrChannel {
    /// Whether an event is looked at: it is not the agent's own and its sender is listened to.
    pub open spec fn hears(&self, e: EventView) -> bool {
        e.pubkey != self.config.public_key@ && self.allows(e.pubkey)
    }

    /// Whether an event confirms who owns the agent: the owner's claim that names its key.
    pub open spec fn confirms_owner(&self, e: EventView) -> bool {
        self.hears(e) && e.kind == 14199 && self.owned_by(e.pubkey) && has_pair(
            e.tags,
            "p"@,
            self.config.public_key@,
        )
    }

    /// Whether an event carries settings that the owner published.
    pub open spec fn carries_config(&self, e: EventView) -> bool {
        self.hears(e) && e.kind == 30078 && self.owned_by(e.pubkey) && config_of(e.tags) is Some
    }

    /// The action that an event asks this agent for.
    pub open spec fn requested_action(&self, e: EventView) -> Option<Seq<char>> {
        if self.hears(e) && e.kind == 1121 && has_pair(e.tags, "p"@, self.config.public_key@) {
            any_value(e.tags, "action"@)
        } else {
            None
        }
    }

    /// Whether a group message is for a group that the agent follows.
    pub open spec fn follows(&self, g: Seq<char>) -> bool {
        self.config.groups@.len() == 0 || texts(self.config.groups@).contains(g)
    }

    /// What is to be done about an event.
    pub open spec fn step(&self, e: EventView, now: u64) -> StepView {
        if !self.hears(e) {
            StepView::Ignored
        } else if e.kind == 14199 {
            if self.confirms_owner(e) {
                StepView::Handled
            } else {
                StepView::Ignored
            }
        } else if e.kind == 30078 {
            if self.carries_config(e) {
                StepView::Handled
            } else {
                StepView::Ignored
            }
        } else if is_group_kind(e.kind) {
            if self.follows(message_group(e)) {
                StepView::GroupMessage { group: message_group(e) }
            } else {
                StepView::Ignored
            }
        } else if 1630 <= e.kind <= 1637 {
            StepView::TaskStatus {
                task_ref: or_text(first_value(e.tags, "e"@), "unknown"@),
                status: task_status(e.kind),
            }
        } else if e.kind == 1121 {
            match self.requested_action(e) {
                Some(a) => if self.may_request(a, e.pubkey) {
                    StepView::Reply {
                        action: a,
                        status: action_status(a),
                        body: action_reply(self, a, tag_params(e.tags), first_value(e.tags, "h"@), now),
                    }
                } else {
                    StepView::Reply { action: a, status: "denied"@, body: ReplyView::Empty }
                },
                None => StepView::Ignored,
            }
        } else if e.kind == 31121 {
            StepView::AgentState {
                d_tag: or_text(any_value(e.tags, "d"@), "unknown"@),
                status: or_text(any_value(e.tags, "status"@), "unknown"@),
            }
        } else {
            StepView::Ignored
        }
    }

    /// The dynamic configuration after an event.
    pub open spec fn dynamic_after(&self, e: EventView) -> DynamicView {
        if self.carries_config(e) {
            let entry = config_of(e.tags)->0;
            entry_applied(self.dynamic@, entry.0, entry.1)
        } else {
            match self.requested_action(e) {
                Some(a) => if self.may_request(a, e.pubkey) {
                    action_applied(
                        self.dynamic@,
                        texts(self.config.groups@),
                        a,
                        tag_params(e.tags),
                        first_value(e.tags, "h"@),
                    )
                } else {
                    self.dynamic@
                },
                None => self.dynamic@,
            }
        }
    }

    /// Takes in an event: its raw text is kept, settings and requests take effect, and the result
    /// says what else is to be done.
    pub fn on_event(&mut self, event: &NostrEvent, raw: &str, now: u64) -> (r: ListenStep)
        ensures
            r@ == old(self).step(event@, now),
            final(self).dynamic@ == old(self).dynamic_after(event@),
            final(self).owner_verified == (old(self).owner_verified || old(self).confirms_owner(
                event@,
            )),
            final(self).event_cache.limit() == old(self).event_cache.limit(),
            final(self).event_cache.entries() == (if old(self).hears(event@) {
                entries_put(
                    old(self).event_cache.entries(),
                    old(self).event_cache.limit(),
                    event@.id,
                    raw@,
                )
            } else {
                old(self).event_cache.entries()
            }),
            final(self).config == old(self).config,
            final(self).history == old(self).history,
            final(self).names == old(self).names,
    {
        if self.is_own_event(event) || !self.is_allowed(event.pubkey.as_str()) {
            return ListenStep::Ignored;
        }
        self.cache_event(event.id.as_str(), raw);
        let kind = event.kind;
        if kind == 14199 {
            if self.is_from_owner(event) && has_tag_pair(
                &event.tags,
                "p",
                self.config.public_key.as_str(),
            ) {
                self.owner_verified = true;
                return ListenStep::Handled;
            }
            return ListenStep::Ignored;
        }
        if kind == 30078 {
            if self.is_from_owner(event) {
                if let Some(parsed) = parse_config_event(event) {
                    apply_config_entry(&mut self.dynamic, parsed);
                    return ListenStep::Handled;
                }
            }
            return ListenStep::Ignored;
        }
        if kind == 9 || kind == 11 || kind == 12 {
            let group = or_default(NostrChannel::extract_group(event), "unknown");
            if self.config.groups.len() > 0 && !list_contains(&self.config.groups, group.as_str()) {
                return ListenStep::Ignored;
            }
            return ListenStep::GroupMessage { group };
        }
        if 1630 <= kind && kind <= 1637 {
            let task_ref = or_default(first_tag_value(&event.tags, "e"), "unknown");
            return ListenStep::TaskStatus { task_ref, status: task_status_name(kind) };
        }
        if kind == 1121 {
            if !has_tag_pair(&event.tags, "p", self.config.public_key.as_str()) {
                return ListenStep::Ignored;
            }
            let action = match any_tag_value(&event.tags, "action") {
                Some(a) => a,
                None => {
                    return ListenStep::Ignored;
                },
            };
            if !self.is_request_allowed(action.as_str(), event) {
                return ListenStep::Reply {
                    action,
                    status: "denied".to_owned(),
                    body: ReplyBody::Empty,
                };
            }
            let params = NostrChannel::extract_action_params(event);
            let group = NostrChannel::extract_group(event);
            let scope = match &group {
                Some(g) => Some(g.as_str()),
                None => None,
            };
            assert(group_view(scope) == first_value(event@.tags, "h"@));
            let reply = self.dispatch_action(action.as_str(), &params, scope, now);
            return ListenStep::Reply { action, status: reply.status, body: reply.body };
        }
        if kind == 31121 {
            let d_tag = or_default(any_tag_value(&event.tags, "d"), "unknown");
            let status = or_default(any_tag_value(&event.tags, "status"), "unknown");
            return ListenStep::AgentState { d_tag, status };
        }
        ListenStep::Ignored
    }
}

/// What the owner commands in a group.
#[derive(Debug, Clone, Copy)]
pub enum OwnerCommand {
    /// Silence everywhere.
    Halt,
    /// Silence in this group.
    Stop,
    /// Answer again, in the given mode.
    Resume(RespondMode),
    /// No command.
    Nothing,
}

/// The word after `resume`, or `mention` where there is none.
pub open spec fn resume_word(cmd: Seq<char>) -> Seq<char> {
    let rest = trimmed(cmd.skip("resume"@.len() as int));
    if rest.len() == 0 {
        "mention"@
    } else {
        rest
    }
}

/// The command that a lower-case text without white space around it gives.
pub open spec fn command_of(cmd: Seq<char>) -> OwnerCommand {
    if cmd == "halt"@ {
        OwnerCommand::Halt
    } else if cmd == "stop"@ {
        OwnerCommand::Stop
    } else if cmd == "resume"@ || begins_with(cmd, "resume "@) {
        OwnerCommand::Resume(mode_of(resume_word(cmd)))
    } else {
        OwnerCommand::Nothing
    }
}

/// The command that a lower-case text without white space around it gives.
pub fn parse_command(cmd: &str) -> (r: OwnerCommand)
    ensures
        r == command_of(cmd@),
{
    if str_eq(cmd, "halt") {
        return OwnerCommand::Halt;
    }
    if str_eq(cmd, "stop") {
        return OwnerCommand::Stop;
    }
    if str_eq(cmd, "resume") || starts_with(cmd, "resume ") {
        proof {
            reveal_strlit("resume");
            reveal_strlit("resume ");
            if begins_with(cmd@, "resume "@) {
                assert(cmd@.subrange(0, 6) =~= cmd@.subrange(0, 7).subrange(0, 6));
                assert("resume "@.subrange(0, 6) =~= "resume"@);
            } else {
                assert(cmd@.subrange(0, 6) =~= cmd@);
            }
            assert(begins_with(cmd@, "resume"@));
        }
        let rest = match strip_prefix(cmd, "resume") {
            Some(rest) => trim(rest.as_str()),
            None => "mention".to_owned(),
        };
        if rest.as_str().is_empty() {
            return OwnerCommand::Resume(RespondMode::from_str("mention"));
        }
        return OwnerCommand::Resume(RespondMode::from_str(rest.as_str()));
    }
    OwnerCommand::Nothing
}

/// The dynamic configuration after a command in group `g`.
pub open spec fn command_applied(
    c: DynamicView,
    groups: Seq<Seq<char>>,
    g: Seq<char>,
    command: OwnerCommand,
) -> DynamicView {
    match command {
        OwnerCommand::Halt => all_modes_set(c, groups, RespondMode::Silent),
        OwnerCommand::Stop => group_mode_set(c, g, RespondMode::Silent),
        OwnerCommand::Resume(m) => {
            let resumed = group_mode_set(c, g, m);
            match c.global {
                Some(gc) => if gc.respond_mode == Some(RespondMode::Silent) {
                    global_mode_set(resumed, m)
                } else {
                    resumed
                },
                None => resumed,
            }
        },
        OwnerCommand::Nothing => c,
    }
}

/// What became of a group message.
#[derive(Debug, Clone, Copy)]
pub enum GroupStep {
    /// It was a command of the owner, and is carried out.
    Command,
    /// It is remembered, and not answered.
    Unanswered,
    /// It is remembered, and to be answered in the given mode.
    Respond(RespondMode),
}

/// Whether a message is answered in a mode.
pub open spec fn answered(mode: RespondMode, from_owner: bool, mentioned: bool) -> bool {
    match mode {
        RespondMode::Silent => false,
        RespondMode::Owner => from_owner,
        RespondMode::Mention => mentioned,
        RespondMode::All => true,
    }
}

/// A message as it is handed on.
pub struct ChannelMessage {
    pub id: String,
    pub sender: String,
    pub reply_target: String,
    pub content: String,
    pub channel: String,
    pub timestamp: u64,
    pub thread_ts: Option<String>,
}

/// What a `ChannelMessage` says.
pub struct MessageView {
    pub id: Seq<char>,
    pub sender: Seq<char>,
    pub reply_target: Seq<char>,
    pub content: Seq<char>,
    pub channel: Seq<char>,
    pub timestamp: u64,
    pub thread_ts: Option<Seq<char>>,
}

impl View for ChannelMessage {
    type V = MessageView;

    open spec fn view(&self) -> MessageView {
        MessageView {
            id: self.id@,
            sender: self.sender@,
            reply_target: self.reply_target@,
            content: self.content@,
            channel: self.channel@,
            timestamp: self.timestamp,
            thread_ts: opt_text(self.thread_ts),
        }
    }
}

/// What the model is told about a mode.
pub open spec fn mode_guidance(mode: RespondMode) -> Seq<char> {
    match mode {
        RespondMode::All => "[You are listening to all messages in this group. You do NOT need to respond to every message. Only respond when you can add value — answer a question, provide useful info, contribute to the discussion, or when something is clearly directed at you. Stay silent on casual chatter. Quality over quantity. To stay silent, reply with exactly NO_REPLY and nothing else.]\n"@,
        _ => ""@,
    }
}

/// What the model is told about a mode.
pub fn guidance(mode: RespondMode) -> (r: &'static str)
    ensures
        r@ == mode_guidance(mode),
{
    match mode {
        RespondMode::All => "[You are listening to all messages in this group. You do NOT need to respond to every message. Only respond when you can add value — answer a question, provide useful info, contribute to the discussion, or when something is clearly directed at you. Stay silent on casual chatter. Quality over quantity. To stay silent, reply with exactly NO_REPLY and nothing else.]\n",
        _ => "",
    }
}

/// The line that tells the model who the owner is.
pub open spec fn owner_line(owner: Option<Seq<char>>, name: Seq<char>) -> Seq<char> {
    match owner {
        Some(o) => "[Owner: "@ + name + " ("@ + npub_or_hex_text(o) + ")]\n"@,
        None => Seq::empty(),
    }
}

/// ASCII text can be cut anywhere.
pub proof fn ascii_can_cut(s: Seq<char>, n: int)
    requires
        is_ascii_chars(s),
        n >= 0,
    ensures
        can_cut(s, n),
{
    ascii_byte_take(s, 0);
    if n < s.len() {
        ascii_byte_take(s, n);
    }
}

impl NostrChannel {
    /// The command that an event gives: only the owner gives any.
    pub open spec fn command_in(&self, e: EventView) -> OwnerCommand {
        if self.owned_by(e.pubkey) {
            command_of(lowercase(trimmed(e.content)))
        } else {
            OwnerCommand::Nothing
        }
    }

    /// What becomes of a group message.
    pub open spec fn group_step(&self, e: EventView, g: Seq<char>) -> GroupStep {
        if self.command_in(e) is Nothing {
            let mode = self.mode_in(g);
            if answered(mode, self.owned_by(e.pubkey), self.mentioned_by(e)) {
                GroupStep::Respond(mode)
            } else {
                GroupStep::Unanswered
            }
        } else {
            GroupStep::Command
        }
    }

    /// Takes in a group message, whose content was cleaned to `sanitized`: a command of the owner is
    /// carried out, anything else is remembered, and answered where the group's mode says so.
    pub fn on_group_message(
        &mut self,
        event: &NostrEvent,
        group: &str,
        sender_name: &str,
        sanitized: &str,
    ) -> (r: GroupStep)
        requires
            history_ok(old(self).history@),
            is_ascii_chars(event@.pubkey),
        ensures
            r == old(self).group_step(event@, group@),
            final(self).dynamic@ == command_applied(
                old(self).dynamic@,
                texts(old(self).config.groups@),
                group@,
                old(self).command_in(event@),
            ),
            history_ok(final(self).history@),
            r is Command ==> final(self).history == old(self).history,
            !(r is Command) ==> {
                &&& final(self).history@.remove(group@) == old(self).history@.remove(group@)
                &&& exists|m: HistoryMessage|
                    {
                        &&& history_of(final(self).history@, group@) == last_n(
                            #[trigger] history_of(old(self).history@, group@).push(m),
                            context_len(
                                old(self).dynamic@,
                                old(self).config.context_history,
                                group@,
                            ) as nat,
                        )
                        &&& m.sender@ == sender_name@
                        &&& m.npub@ == npub_or_hex_text(event@.pubkey)
                        &&& m.content@ == sanitized@
                        &&& m.timestamp == event@.created_at
                        &&& m.event_id@ == event@.id
                        &&& m.is_owner == old(self).owned_by(event@.pubkey)
                    }
            },
            final(self).config == old(self).config,
            final(self).names == old(self).names,
            final(self).event_cache == old(self).event_cache,
            final(self).owner_verified == old(self).owner_verified,
    {
        let is_owner = self.is_from_owner(event);
        if is_owner {
            let command = parse_command(to_lowercase(trim(event.content.as_str()).as_str()).as_str());
            match command {
                OwnerCommand::Halt => {
                    self.dynamic.set_all_modes(&self.config.groups, RespondMode::Silent);
                    return GroupStep::Command;
                },
                OwnerCommand::Stop => {
                    self.dynamic.set_group_mode(group, RespondMode::Silent);
                    return GroupStep::Command;
                },
                OwnerCommand::Resume(mode) => {
                    let halted = match &self.dynamic.global {
                        Some(gc) => match gc.respond_mode {
                            Some(m) => m == RespondMode::Silent,
                            None => false,
                        },
                        None => false,
                    };
                    self.dynamic.set_group_mode(group, mode);
                    if halted {
                        self.dynamic.set_global_mode(mode);
                    }
                    return GroupStep::Command;
                },
                OwnerCommand::Nothing => {},
            }
        }
        let npub = npub_or_hex(event.pubkey.as_str());
        proof {
            ascii_can_cut(npub@, 20);
        }
        let msg = HistoryMessage {
            sender: sender_name.to_owned(),
            npub,
            content: sanitized.to_owned(),
            timestamp: event.created_at,
            event_id: event.id.clone(),
            is_owner,
        };
        let ghost m = msg;
        let ghost before = history_of(self.history@, group@);
        self.push_history(group, msg);
        assert(before.push(m) == before.push(m));
        let mode = self.respond_mode_for_group(group);
        let go = match mode {
            RespondMode::Silent => false,
            RespondMode::Owner => is_owner,
            RespondMode::Mention => self.is_mentioned(event),
            RespondMode::All => true,
        };
        if go {
            GroupStep::Respond(mode)
        } else {
            GroupStep::Unanswered
        }
    }

    /// The line that tells the model who the owner is.
    pub fn owner_context_line(&self, owner_name: &str) -> (r: String)
        ensures
            r@ == owner_line(opt_text(self.config.owner), owner_name@),
    {
        match &self.config.owner {
            Some(owner) => {
                let mut r = String::from_str("[Owner: ");
                r.append(owner_name);
                r.append(" (");
                r.append(npub_or_hex(owner.as_str()).as_str());
                r.append(")]\n");
                r
            },
            None => String::new(),
        }
    }

    /// The message that an answered group message is handed on as.
    pub open spec fn answered_message(
        &self,
        e: EventView,
        g: Seq<char>,
        sender: Seq<char>,
        sanitized: Seq<char>,
        mode: RespondMode,
        owner_name: Seq<char>,
        memory: Seq<char>,
    ) -> MessageView {
        MessageView {
            id: e.id,
            sender,
            reply_target: "#"@ + g,
            content: owner_line(opt_text(self.config.owner), owner_name) + mode_guidance(mode)
                + memory + history_context(
                last_n(
                    history_of(self.history@, g),
                    context_len(self.dynamic@, self.config.context_history, g) as nat,
                ),
                e.id,
            ) + group_header(
                g,
                sender,
                npub_or_hex_text(e.pubkey),
                e.kind,
                e.id,
                self.owned_by(e.pubkey),
            ) + "\n"@ + sanitized,
            channel: "nostr:#"@ + g,
            timestamp: e.created_at,
            thread_ts: None,
        }
    }

    /// The message that an answered group message is handed on as: who the owner is, guidance on the
    /// mode, what is remembered, what was said before, a header, and the content.
    pub fn group_channel_message(
        &self,
        event: &NostrEvent,
        group: &str,
        sender_name: &str,
        sanitized: &str,
        mode: RespondMode,
        owner_name: &str,
        memory_context: &str,
    ) -> (r: ChannelMessage)
        requires
            history_ok(self.history@),
            is_ascii_chars(event@.pubkey),
            can_cut(event@.id, 8),
        ensures
            r@ == self.answered_message(
                event@,
                group@,
                sender_name@,
                sanitized@,
                mode,
                owner_name@,
                memory_context@,
            ),
    {
        let npub = npub_or_hex(event.pubkey.as_str());
        proof {
            ascii_can_cut(npub@, 20);
        }
        let is_owner = self.is_from_owner(event);
        let header = NostrChannel::compact_group_header(
            group,
            sender_name,
            npub.as_str(),
            event.kind,
            event.id.as_str(),
            is_owner,
        );
        let mut content = self.owner_context_line(owner_name);
        content.append(guidance(mode));
        content.append(memory_context);
        content.append(self.format_history_context(group, event.id.as_str()).as_str());
        content.append(header.as_str());
        content.append("\n");
        content.append(sanitized);
        let mut reply_target = String::from_str("#");
        reply_target.append(group);
        let mut channel = String::from_str("nostr:#");
        channel.append(group);
        ChannelMessage {
            id: event.id.clone(),
            sender: sender_name.to_owned(),
            reply_target,
            content,
            channel,
            timestamp: event.created_at,
            thread_ts: None,
        }
    }

    /// The message that a task status is handed on as.
    pub fn task_channel_message(
        event: &NostrEvent,
        task_ref: &str,
        status: &str,
        sender_name: &str,
    ) -> (r: ChannelMessage)
        requires
            can_cut(event@.id, 8),
            can_cut(task_ref@, 8),
        ensures
            r@ == (MessageView {
                id: event@.id,
                sender: sender_name@,
                reply_target: "tasks"@,
                content: task_line(event@.id, task_ref@, status@, event@.content),
                channel: "nostr:tasks"@,
                timestamp: event@.created_at,
                thread_ts: None,
            }),
    {
        let content = NostrChannel::compact_task_content(
            event.id.as_str(),
            task_ref,
            status,
            event.content.as_str(),
        );
        ChannelMessage {
            id: event.id.clone(),
            sender: sender_name.to_owned(),
            reply_target: "tasks".to_owned(),
            content,
            channel: "nostr:tasks".to_owned(),
            timestamp: event.created_at,
            thread_ts: None,
        }
    }

    /// What the owner is told where a message held a secret key.
    pub fn nsec_alert(sender_npub: &str, group: &str) -> (r: String)
        ensures
            r@ == "⚠️ Secret key (nsec) detected in message from "@ + sender_npub@ + " in #"@ + group@
                + " — redacted before LLM processing"@,
    {
        let mut r = String::from_str("⚠️ Secret key (nsec) detected in message from ");
        r.append(sender_npub);
        r.append(" in #");
        r.append(group);
        r.append(" — redacted before LLM processing");
        r
    }
}

/// An answered message goes back to its group; its content ends with what was said, behind a header
/// and what was said before, what is remembered, the guidance and the line on the owner, in this order.
pub proof fn answers_carry_the_message(
    ch: &NostrChannel,
    e: EventView,
    g: Seq<char>,
    sender: Seq<char>,
    said: Seq<char>,
    mode: RespondMode,
    owner_name: Seq<char>,
    memory: Seq<char>,
)
    ensures
        ({
            let m = ch.answered_message(e, g, sender, said, mode, owner_name, memory);
            let history = history_context(
                last_n(
                    history_of(ch.history@, g),
                    context_len(ch.dynamic@, ch.config.context_history, g) as nat,
                ),
                e.id,
            );
            let header = group_header(
                g,
                sender,
                npub_or_hex_text(e.pubkey),
                e.kind,
                e.id,
                ch.owned_by(e.pubkey),
            );
            &&& m.id == e.id
            &&& m.sender == sender
            &&& m.reply_target == "#"@ + g
            &&& m.channel == "nostr:#"@ + g
            &&& m.timestamp == e.created_at
            &&& m.content == (owner_line(opt_text(ch.config.owner), owner_name) + mode_guidance(mode))
                + memory + history + (header + ("\n"@ + said))
        }),
        ch.config.owner is None ==> owner_line(opt_text(ch.config.owner), owner_name).len() == 0,
        ch.config.owner matches Some(o) ==> owner_line(opt_text(ch.config.owner), owner_name)
            == "[Owner: "@ + owner_name + " ("@ + npub_or_hex_text(o@) + ")]\n"@,
        mode != RespondMode::All ==> mode_guidance(mode).len() == 0,
{
    reveal_strlit("");
    let m = ch.answered_message(e, g, sender, said, mode, owner_name, memory);
    let history = history_context(
        last_n(
            history_of(ch.history@, g),
            context_len(ch.dynamic@, ch.config.context_history, g) as nat,
        ),
        e.id,
    );
    let header = group_header(
        g,
        sender,
        npub_or_hex_text(e.pubkey),
        e.kind,
        e.id,
        ch.owned_by(e.pubkey),
    );
    assert(m.content =~= (owner_line(opt_text(ch.config.owner), owner_name) + mode_guidance(mode))
        + memory + history + (header + ("\n"@ + said)));
}

} // verus!
