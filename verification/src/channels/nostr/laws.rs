//! What holds of the channel over several events.

use super::actions::{
    action_applied, action_reply, action_status, owner_only_action, param, settings_are_set,
    tag_params, ReplyView,
};
use super::channel::{context_len, mode_for, NostrChannel};
use super::config::{
    entry_applied, group_modes_keep_scopes, group_modes_set, group_settings,
    listed_groups_have_mode, mode_of, tag_settings, DynamicView, RespondMode,
};
use super::listen::{answered, command_applied, task_status, GroupStep, OwnerCommand, StepView};
use crate::channels::event::{any_value, first_value, has_pair, pairs_are_tags, EventView};
use crate::keys::{hex_key, npub_text};
use crate::tasks::status_kind;
use crate::text::case::lowercase;
use crate::text::number::parsed;
use crate::text::pattern::{begins_with, has_substring};
use crate::text::space::trimmed;
use crate::text::{opt_text, texts};
use vstd::prelude::*;

verus! {

/// The agent's own events are ignored and change no setting.
pub proof fn own_events_are_ignored(ch: &NostrChannel, e: EventView, now: u64)
    requires
        e.pubkey == ch.config.public_key@,
    ensures
        ch.step(e, now) == StepView::Ignored,
        ch.dynamic_after(e) == ch.dynamic@,
        !ch.confirms_owner(e),
{
}

/// Events of senders that are not listened to are ignored and change no setting.
pub proof fn strangers_are_ignored(ch: &NostrChannel, e: EventView, now: u64)
    requires
        !ch.allows(e.pubkey),
    ensures
        ch.step(e, now) == StepView::Ignored,
        ch.dynamic_after(e) == ch.dynamic@,
        !ch.confirms_owner(e),
{
}

/// Settings change only on an event of the owner, unless it asks for an action that is open to
/// others; none of those changes a setting.
pub proof fn only_the_owner_changes_settings(ch: &NostrChannel, e: EventView)
    requires
        !ch.owned_by(e.pubkey),
    ensures
        ch.dynamic_after(e) == ch.dynamic@,
{
    match ch.requested_action(e) {
        Some(a) => {
            if ch.may_request(a, e.pubkey) {
                assert(!owner_only_action(a));
                assert(a.subrange(0, a.len() as int) =~= a);
                assert(a != "control.stop"@);
                assert(a != "control.resume"@);
                assert(a != "config.set"@);
            }
        },
        None => {},
    }
}

/// A request that only the owner may make is refused to anyone else.
pub proof fn owner_requests_are_denied_to_others(
    ch: &NostrChannel,
    e: EventView,
    action: Seq<char>,
    now: u64,
)
    requires
        !ch.owned_by(e.pubkey),
        ch.requested_action(e) == Some(action),
        owner_only_action(action),
    ensures
        ch.step(e, now) matches StepView::Reply { action: a, status, body } && a == action && status
            == "denied"@ && body is Empty,
        ch.dynamic_after(e) == ch.dynamic@,
{
}

/// After a halt no message of a configured group is answered, nor one of a group without a dynamic
/// setting of its own.
pub proof fn halt_silences(
    c: DynamicView,
    groups: Seq<Seq<char>>,
    file_groups: Map<Seq<char>, RespondMode>,
    file: RespondMode,
    here: Seq<char>,
    g: Seq<char>,
    from_owner: bool,
    mentioned: bool,
)
    requires
        groups.contains(g) || group_settings(c, g) is None,
    ensures
        ({
            let after = command_applied(c, groups, here, OwnerCommand::Halt);
            &&& mode_for(after, file_groups, file, g) == RespondMode::Silent
            &&& !answered(mode_for(after, file_groups, file, g), from_owner, mentioned)
        }),
{
    let after = command_applied(c, groups, here, OwnerCommand::Halt);
    listed_groups_have_mode(c, groups, RespondMode::Silent, g);
    assert(group_settings(after, g) == group_settings(
        group_modes_set(c, groups, RespondMode::Silent),
        g,
    ));
}

/// After a stop in a group no message of it is answered, and other groups stay as they were.
pub proof fn stop_silences_one_group(
    c: DynamicView,
    groups: Seq<Seq<char>>,
    file_groups: Map<Seq<char>, RespondMode>,
    file: RespondMode,
    here: Seq<char>,
    other: Seq<char>,
)
    requires
        other != here,
    ensures
        ({
            let after = command_applied(c, groups, here, OwnerCommand::Stop);
            &&& mode_for(after, file_groups, file, here) == RespondMode::Silent
            &&& mode_for(after, file_groups, file, other) == mode_for(c, file_groups, file, other)
        }),
{
}

/// After a resume in a group, its mode is the one asked for, whatever stood before; after a halt the
/// global silence ends with it.
pub proof fn resume_restores(
    c: DynamicView,
    groups: Seq<Seq<char>>,
    file_groups: Map<Seq<char>, RespondMode>,
    file: RespondMode,
    here: Seq<char>,
    mode: RespondMode,
)
    ensures
        mode_for(
            command_applied(c, groups, here, OwnerCommand::Resume(mode)),
            file_groups,
            file,
            here,
        ) == mode,
        ({
            let halted = command_applied(c, groups, here, OwnerCommand::Halt);
            let resumed = command_applied(halted, groups, here, OwnerCommand::Resume(mode));
            resumed.global matches Some(gc) && gc.respond_mode == Some(mode)
        }),
{
}

/// Stopping and resuming keep the context lengths that were set for a group.
pub proof fn commands_keep_context_lengths(
    c: DynamicView,
    groups: Seq<Seq<char>>,
    here: Seq<char>,
    command: OwnerCommand,
    g: Seq<char>,
)
    ensures
        group_settings(c, g) matches Some(gc) ==> group_settings(
            command_applied(c, groups, here, command),
            g,
        ) matches Some(after) && after.context_history == gc.context_history,
{
    if command is Halt {
        modes_keep_context_length(c, groups, RespondMode::Silent, g);
    }
}

proof fn modes_keep_context_length(
    c: DynamicView,
    groups: Seq<Seq<char>>,
    mode: RespondMode,
    g: Seq<char>,
)
    ensures
        group_settings(c, g) matches Some(gc) ==> group_settings(
            group_modes_set(c, groups, mode),
            g,
        ) matches Some(after) && after.context_history == gc.context_history,
    decreases groups.len(),
{
    if groups.len() > 0 {
        modes_keep_context_length(c, groups.drop_last(), mode, g);
    }
}

/// A group's dynamic mode comes before the global one, the global one before the file's mode for the
/// group, and that before the file's default.
pub proof fn mode_precedence(
    c: DynamicView,
    file_groups: Map<Seq<char>, RespondMode>,
    file: RespondMode,
    g: Seq<char>,
)
    ensures
        group_settings(c, g) is Some && group_settings(c, g)->0.respond_mode is Some ==> mode_for(
            c,
            file_groups,
            file,
            g,
        ) == group_settings(c, g)->0.respond_mode->0,
        (group_settings(c, g) is None || group_settings(c, g)->0.respond_mode is None) && (
        c.global matches Some(gc) && gc.respond_mode is Some) ==> mode_for(
            c,
            file_groups,
            file,
            g,
        ) == c.global->0.respond_mode->0,
        (group_settings(c, g) is None || group_settings(c, g)->0.respond_mode is None) && (c.global
            is None || c.global->0.respond_mode is None) ==> mode_for(c, file_groups, file, g) == (
        if file_groups.contains_key(g) {
            file_groups[g]
        } else {
            file
        }),
{
}

/// A message of the owner that is no command, and any message of someone else, changes no setting.
pub proof fn plain_messages_change_no_setting(
    ch: &NostrChannel,
    e: EventView,
    g: Seq<char>,
    groups: Seq<Seq<char>>,
)
    requires
        !(ch.group_step(e, g) is Command),
    ensures
        command_applied(ch.dynamic@, groups, g, ch.command_in(e)) == ch.dynamic@,
{
}

/// Whether a sender is heard: not the agent itself, and, unless all are, one of those that are listed.
pub open spec fn heard_sender(ch: &NostrChannel, key: Seq<char>) -> bool {
    &&& key != ch.config.public_key@
    &&& !ch.config.deny_all
    &&& ch.config.allowed_pubkeys@.len() == 0 || exists|i: int|
        0 <= i < ch.config.allowed_pubkeys@.len() && (#[trigger] ch.config.allowed_pubkeys@[i])@
            == key
}

/// A sender is heard exactly where the list of senders lets it in and it is not the agent itself.
pub proof fn listed_senders_are_heard(ch: &NostrChannel, e: EventView)
    ensures
        ch.hears(e) == heard_sender(ch, e.pubkey),
        ch.allows(e.pubkey) <==> !ch.config.deny_all && (ch.config.allowed_pubkeys@.len() == 0
            || exists|i: int|
            0 <= i < ch.config.allowed_pubkeys@.len() && (#[trigger] ch.config.allowed_pubkeys@[i])@
                == e.pubkey),
{
    let list = texts(ch.config.allowed_pubkeys@);
    if list.contains(e.pubkey) {
        let i = choose|i: int| 0 <= i < list.len() && list[i] == e.pubkey;
        assert(ch.config.allowed_pubkeys@[i]@ == e.pubkey);
    }
    if exists|i: int|
        0 <= i < ch.config.allowed_pubkeys@.len() && (#[trigger] ch.config.allowed_pubkeys@[i])@
            == e.pubkey {
        let i = choose|i: int|
            0 <= i < ch.config.allowed_pubkeys@.len() && (#[trigger] ch.config.allowed_pubkeys@[i])@
                == e.pubkey;
        assert(list[i] == e.pubkey);
    }
}

/// A message of a group that is followed, from a sender that is heard, is taken up in that group; one
/// of another group is ignored.
pub proof fn followed_messages_are_taken_up(
    ch: &NostrChannel,
    e: EventView,
    g: Seq<char>,
    now: u64,
)
    requires
        heard_sender(ch, e.pubkey),
        e.kind == 9 || e.kind == 11 || e.kind == 12,
        first_value(e.tags, "h"@) == Some(g) || (first_value(e.tags, "h"@) is None && g
            == "unknown"@),
    ensures
        ch.config.groups@.len() == 0 || texts(ch.config.groups@).contains(g) ==> ch.step(e, now) == (
        StepView::GroupMessage { group: g }),
        !(ch.config.groups@.len() == 0 || texts(ch.config.groups@).contains(g)) ==> ch.step(e, now)
            == StepView::Ignored,
        ch.dynamic_after(e) == ch.dynamic@,
        !ch.confirms_owner(e),
{
    listed_senders_are_heard(ch, e);
}

/// What else is made of an event from a sender that is heard: a task status is reported with the task
/// that it is about, another agent's state is remembered, and events of other kinds are ignored.
pub proof fn other_events_are_sorted(ch: &NostrChannel, e: EventView, now: u64)
    requires
        heard_sender(ch, e.pubkey),
    ensures
        1630 <= e.kind <= 1637 ==> (ch.step(e, now) matches StepView::TaskStatus {
            task_ref,
            status,
        } && status == task_status(e.kind) && task_ref == (match first_value(e.tags, "e"@) {
            Some(t) => t,
            None => "unknown"@,
        })),
        e.kind == 31121 ==> (ch.step(e, now) matches StepView::AgentState { d_tag, status }
            && d_tag == (match any_value(e.tags, "d"@) {
            Some(t) => t,
            None => "unknown"@,
        }) && status == (match any_value(e.tags, "status"@) {
            Some(t) => t,
            None => "unknown"@,
        })),
        !(1630 <= e.kind <= 1637) && e.kind != 31121 && e.kind != 1121 && e.kind != 14199 && e.kind
            != 30078 && e.kind != 9 && e.kind != 11 && e.kind != 12 ==> ch.step(e, now)
            == StepView::Ignored,
        e.kind != 1121 && e.kind != 30078 ==> ch.dynamic_after(e) == ch.dynamic@,
{
    listed_senders_are_heard(ch, e);
}

/// The kinds of task events and the statuses that the command line names stand for each other.
pub proof fn reported_statuses_agree(word: Seq<char>)
    ensures
        status_kind(word) matches Some(kind) ==> 1630 <= kind <= 1637 && task_status(kind).len()
            == word.len() && task_status(kind).skip(1) == word.skip(1),
{
    reveal_strlit("queued");
    reveal_strlit("done");
    reveal_strlit("cancelled");
    reveal_strlit("draft");
    reveal_strlit("executing");
    reveal_strlit("blocked");
    reveal_strlit("review");
    reveal_strlit("failed");
    reveal_strlit("Queued");
    reveal_strlit("Done");
    reveal_strlit("Cancelled");
    reveal_strlit("Draft");
    reveal_strlit("Executing");
    reveal_strlit("Blocked");
    reveal_strlit("Review");
    reveal_strlit("Failed");
    if let Some(kind) = status_kind(word) {
        assert(task_status(kind).skip(1) =~= word.skip(1));
    }
}

/// The owner is confirmed by a claim of the owner that names the agent's key, and by nothing else.
pub proof fn claims_of_the_owner_confirm(ch: &NostrChannel, e: EventView, now: u64)
    ensures
        ch.confirms_owner(e) <==> heard_sender(ch, e.pubkey) && e.kind == 14199 && opt_text(
            ch.config.owner,
        ) == Some(e.pubkey) && has_pair(e.tags, "p"@, ch.config.public_key@),
        ch.confirms_owner(e) ==> ch.step(e, now) == StepView::Handled,
{
    listed_senders_are_heard(ch, e);
}

/// Settings that the owner publishes take effect, and those of anyone else do not.
pub proof fn published_settings_take_effect(
    ch: &NostrChannel,
    e: EventView,
    d: Seq<char>,
    now: u64,
)
    requires
        heard_sender(ch, e.pubkey),
        e.kind == 30078,
        any_value(e.tags, "d"@) == Some(d),
    ensures
        opt_text(ch.config.owner) == Some(e.pubkey) && begins_with(d, "snowclaw:config:"@)
            ==> ch.dynamic_after(e) == entry_applied(ch.dynamic@, d, tag_settings(e.tags)) && ch.step(
            e,
            now,
        ) == StepView::Handled,
        !(opt_text(ch.config.owner) == Some(e.pubkey) && begins_with(d, "snowclaw:config:"@))
            ==> ch.dynamic_after(e) == ch.dynamic@ && ch.step(e, now) == StepView::Ignored,
{
    listed_senders_are_heard(ch, e);
}

/// Whether an event asks the agent for an action: it is of the kind of requests, names the agent's
/// key, and its sender is heard.
pub open spec fn asks_for(ch: &NostrChannel, e: EventView, action: Seq<char>) -> bool {
    &&& heard_sender(ch, e.pubkey)
    &&& e.kind == 1121
    &&& has_pair(e.tags, "p"@, ch.config.public_key@)
    &&& any_value(e.tags, "action"@) == Some(action)
}

/// A request that its sender may make is carried out and answered: the owner's always, another's
/// where it asks neither to stop, to resume nor to set anything. Any other request is denied.
pub proof fn permitted_requests_are_carried_out(
    ch: &NostrChannel,
    e: EventView,
    action: Seq<char>,
    now: u64,
)
    requires
        asks_for(ch, e, action),
    ensures
        ({
            let owner = opt_text(ch.config.owner) == Some(e.pubkey);
            let open = !begins_with(action, "control.stop"@) && !begins_with(
                action,
                "control.resume"@,
            ) && action != "config.set"@;
            &&& owner || open ==> ch.step(e, now) == (StepView::Reply {
                action,
                status: action_status(action),
                body: action_reply(ch, action, tag_params(e.tags), first_value(e.tags, "h"@), now),
            }) && ch.dynamic_after(e) == action_applied(
                ch.dynamic@,
                texts(ch.config.groups@),
                action,
                tag_params(e.tags),
                first_value(e.tags, "h"@),
            )
            &&& !owner && !open ==> ch.step(e, now) == (StepView::Reply {
                action,
                status: "denied"@,
                body: ReplyView::Empty,
            }) && ch.dynamic_after(e) == ch.dynamic@
        }),
{
    listed_senders_are_heard(ch, e);
}

/// An event of the kind of requests that does not name the agent's key, or names no action, is
/// ignored and changes nothing.
pub proof fn requests_to_others_are_ignored(ch: &NostrChannel, e: EventView, now: u64)
    requires
        e.kind == 1121,
        !has_pair(e.tags, "p"@, ch.config.public_key@) || any_value(e.tags, "action"@) is None,
    ensures
        ch.step(e, now) == StepView::Ignored,
        ch.dynamic_after(e) == ch.dynamic@,
{
}

/// After the owner's `config.set` without a group that names a mode, the global settings hold that
/// mode, and the length where one is given; every group without a dynamic mode of its own is in that
/// mode.
pub proof fn global_mode_reaches_every_group(
    ch: &NostrChannel,
    e: EventView,
    mode: Seq<char>,
    g: Seq<char>,
)
    requires
        asks_for(ch, e, "config.set"@),
        opt_text(ch.config.owner) == Some(e.pubkey),
        first_value(e.tags, "h"@) is None,
        param(tag_params(e.tags), "respond_mode"@) == Some(mode),
    ensures
        ({
            let after = ch.dynamic_after(e);
            &&& after.global is Some
            &&& after.global->0.respond_mode == Some(mode_of(mode))
            &&& param(tag_params(e.tags), "context_history"@) matches Some(text) ==> parsed(
                text,
                usize::MAX as nat,
            ) matches Some(n) ==> after.global->0.context_history == Some(n as usize)
            &&& !ch.dynamic@.groups.contains_key(g) || ch.dynamic@.groups[g].respond_mode is None
                ==> mode_for(
                after,
                ch.config.group_respond_mode@,
                ch.config.respond_mode,
                g,
            ) == mode_of(mode)
            &&& ch.dynamic@.groups.contains_key(g) && ch.dynamic@.groups[g].respond_mode is Some
                ==> mode_for(
                after,
                ch.config.group_respond_mode@,
                ch.config.respond_mode,
                g,
            ) == ch.dynamic@.groups[g].respond_mode->0
        }),
{
    permitted_requests_are_carried_out(ch, e, "config.set"@, 0);
    settings_are_set(ch.dynamic@, texts(ch.config.groups@), tag_params(e.tags), None);
}

/// After the owner's `config.set` for a group that names a mode, that group is in the mode, and every
/// other group stays in the mode that it was in.
pub proof fn group_mode_reaches_its_group(
    ch: &NostrChannel,
    e: EventView,
    mode: Seq<char>,
    g: Seq<char>,
    other: Seq<char>,
)
    requires
        asks_for(ch, e, "config.set"@),
        opt_text(ch.config.owner) == Some(e.pubkey),
        first_value(e.tags, "h"@) == Some(g),
        param(tag_params(e.tags), "respond_mode"@) == Some(mode),
        other != g,
    ensures
        mode_for(
            ch.dynamic_after(e),
            ch.config.group_respond_mode@,
            ch.config.respond_mode,
            g,
        ) == mode_of(mode),
        mode_for(
            ch.dynamic_after(e),
            ch.config.group_respond_mode@,
            ch.config.respond_mode,
            other,
        ) == ch.mode_in(other),
{
    permitted_requests_are_carried_out(ch, e, "config.set"@, 0);
    settings_are_set(ch.dynamic@, texts(ch.config.groups@), tag_params(e.tags), Some(g));
    let after = ch.dynamic_after(e);
    assert(after.groups.remove(g).contains_key(other) == ch.dynamic@.groups.remove(g).contains_key(
        other,
    ));
    assert(after.groups.contains_key(other) == ch.dynamic@.groups.contains_key(other));
    if after.groups.contains_key(other) {
        assert(after.groups.remove(g)[other] == ch.dynamic@.groups.remove(g)[other]);
    }
}

/// A group's own context length comes before the global one, and that before the file's.
pub proof fn context_length_precedence(c: DynamicView, file: usize, g: Seq<char>)
    ensures
        c.groups.contains_key(g) && c.groups[g].context_history is Some ==> context_len(c, file, g)
            == c.groups[g].context_history->0,
        (!c.groups.contains_key(g) || c.groups[g].context_history is None) && (c.global matches Some(
            gc,
        ) && gc.context_history is Some) ==> context_len(c, file, g)
            == c.global->0.context_history->0,
        (!c.groups.contains_key(g) || c.groups[g].context_history is None) && (c.global is None
            || c.global->0.context_history is None) ==> context_len(c, file, g) == file,
{
}

/// A message speaks to the agent exactly where it is tagged with its key, or where its content, in
/// small letters, holds one of its names, its key or the bech32 form of that.
pub proof fn mentions_are_found(ch: &NostrChannel, e: EventView)
    ensures
        ({
            let text = lowercase(e.content);
            ch.mentioned_by(e) <==> {
                ||| exists|i: int|
                    0 <= i < e.tags.len() && (#[trigger] e.tags[i]).len() > 1 && e.tags[i][0]
                        == "p"@ && e.tags[i][1] == ch.config.public_key@
                ||| exists|i: int|
                    0 <= i < ch.config.mention_names@.len() && has_substring(
                        text,
                        (#[trigger] ch.config.mention_names@[i])@,
                    )
                ||| has_substring(text, ch.config.public_key@)
                ||| has_substring(
                    text,
                    if hex_key(ch.config.public_key@) is Some {
                        npub_text(ch.config.public_key@)
                    } else {
                        Seq::empty()
                    },
                )
            }
        }),
{
    let text = lowercase(e.content);
    let names = texts(ch.config.mention_names@);
    pairs_are_tags(e.tags, "p"@, ch.config.public_key@);
    if exists|i: int| 0 <= i < names.len() && has_substring(text, #[trigger] names[i]) {
        let i = choose|i: int| 0 <= i < names.len() && has_substring(text, #[trigger] names[i]);
        assert(has_substring(text, ch.config.mention_names@[i]@));
    }
    if exists|i: int|
        0 <= i < ch.config.mention_names@.len() && has_substring(
            text,
            (#[trigger] ch.config.mention_names@[i])@,
        ) {
        let i = choose|i: int|
            0 <= i < ch.config.mention_names@.len() && has_substring(
                text,
                (#[trigger] ch.config.mention_names@[i])@,
            );
        assert(has_substring(text, names[i]));
    }
}

/// A command is carried out and not answered.
pub proof fn commands_are_no_messages(ch: &NostrChannel, e: EventView, g: Seq<char>)
    ensures
        ch.group_step(e, g) is Command <==> !(ch.command_in(e) is Nothing),
{
}

/// A message that is no command is answered, in the group's mode, exactly where that mode is to
/// answer all, or to answer mentions and it is one, or to answer the owner and the owner sent it.
pub proof fn messages_are_answered_by_mode(ch: &NostrChannel, e: EventView, g: Seq<char>)
    requires
        ch.command_in(e) is Nothing,
    ensures
        ({
            let mode = ch.mode_in(g);
            let go = mode == RespondMode::All || (mode == RespondMode::Mention && ch.mentioned_by(
                e,
            )) || (mode == RespondMode::Owner && opt_text(ch.config.owner) == Some(e.pubkey));
            &&& go ==> ch.group_step(e, g) == GroupStep::Respond(mode)
            &&& !go ==> ch.group_step(e, g) == GroupStep::Unanswered
        }),
{
}

/// The owner commands with `halt`, `stop` and `resume`, in any letter case and with blanks around
/// them; a word behind `resume` names the mode, which is to answer mentions where there is none. All
/// else the owner says, and all that others say, is no command.
pub proof fn words_of_command(ch: &NostrChannel, e: EventView, rest: Seq<char>)
    ensures
        ({
            let owner = opt_text(ch.config.owner) == Some(e.pubkey);
            let text = lowercase(trimmed(e.content));
            &&& !owner ==> ch.command_in(e) is Nothing
            &&& owner ==> (ch.command_in(e) is Halt <==> text == "halt"@)
            &&& owner ==> (ch.command_in(e) is Stop <==> text == "stop"@)
            &&& owner && text == "resume"@ ==> ch.command_in(e) == OwnerCommand::Resume(
                mode_of("mention"@),
            )
            &&& owner && text == "resume "@ + rest && trimmed(rest).len() > 0 ==> ch.command_in(e)
                == OwnerCommand::Resume(mode_of(trimmed(rest)))
            &&& owner && text != "halt"@ && text != "stop"@ && text != "resume"@ && !begins_with(
                text,
                "resume "@,
            ) ==> ch.command_in(e) is Nothing
        }),
{
    reveal_strlit("halt");
    reveal_strlit("stop");
    reveal_strlit("resume");
    reveal_strlit("resume ");
    let text = lowercase(trimmed(e.content));
    assert("halt"@[0] == 'h' && "stop"@[0] == 's' && "resume"@[0] == 'r');
    assert(begins_with(text, "resume "@) ==> text.subrange(0, 7)[0] == text[0]);
    if text == "resume"@ {
        assert(text.skip(6) =~= Seq::<char>::empty());
    }
    if text == "resume "@ + rest {
        assert(text.subrange(0, 7) =~= "resume "@);
        assert(text.skip(6) =~= seq![' '] + rest);
        assert((seq![' '] + rest).skip(1) =~= rest);
        assert(trimmed(seq![' '] + rest) == trimmed(rest));
    }
}

/// A command takes effect as it says: `halt` in every configured group and everywhere without a mode
/// of its own, `stop` in the group where it is given, `resume` there too.
pub proof fn commands_take_effect(
    c: DynamicView,
    groups: Seq<Seq<char>>,
    here: Seq<char>,
    command: OwnerCommand,
    g: Seq<char>,
)
    ensures
        ({
            let after = command_applied(c, groups, here, command);
            &&& command is Halt && groups.contains(g) ==> after.groups.contains_key(g)
                && after.groups[g].respond_mode == Some(RespondMode::Silent)
            &&& command is Halt ==> (after.global matches Some(gc) && gc.respond_mode == Some(
                RespondMode::Silent,
            ))
            &&& command is Stop ==> after.groups.contains_key(here)
                && after.groups[here].respond_mode == Some(RespondMode::Silent) && after.global
                == c.global
            &&& command matches OwnerCommand::Resume(m) ==> after.groups.contains_key(here)
                && after.groups[here].respond_mode == Some(m) && (if c.global matches Some(gc)
                && gc.respond_mode == Some(RespondMode::Silent) {
                after.global matches Some(gc) && gc.respond_mode == Some(m)
            } else {
                after.global == c.global
            })
            &&& (command is Stop || command is Resume) && g != here ==> group_settings(after, g)
                == group_settings(c, g)
            &&& command is Nothing ==> after == c
            &&& after.npubs == c.npubs
        }),
{
    listed_groups_have_mode(c, groups, RespondMode::Silent, g);
    group_modes_keep_scopes(c, groups, RespondMode::Silent);
}

} // verus!
