//! What was said in each group, and how it is given as context.

use super::channel::{can_cut, context_len, history_ok, history_of, HistoryMessage, NostrChannel};
use super::format::{shortened, truncate_npub};
use crate::text::str_eq;
use vstd::prelude::*;

verus! {

/// The last `n` items of `s`, or all of them where there are fewer.
pub open spec fn last_n<A>(s: Seq<A>, n: nat) -> Seq<A> {
    if s.len() <= n {
        s
    } else {
        s.skip(s.len() - n)
    }
}

/// One message as a line of context.
pub open spec fn history_line(m: HistoryMessage) -> Seq<char> {
    "<"@ + m.sender@ + " npub="@ + shortened(m.npub@, 20) + (if m.is_owner {
        " role=owner"@
    } else {
        ""@
    }) + ">  "@ + m.content@ + "\n"@
}

/// The lines of all messages but those with the id `exclude`.
pub open spec fn history_lines(msgs: Seq<HistoryMessage>, exclude: Seq<char>) -> Seq<char>
    decreases msgs.len(),
{
    if msgs.len() == 0 {
        Seq::empty()
    } else if msgs.last().event_id@ == exclude {
        history_lines(msgs.drop_last(), exclude)
    } else {
        history_lines(msgs.drop_last(), exclude) + history_line(msgs.last())
    }
}

/// Messages as context: a heading, a line for each, and an empty line; nothing where there is no
/// line.
pub open spec fn history_context(msgs: Seq<HistoryMessage>, exclude: Seq<char>) -> Seq<char> {
    if history_lines(msgs, exclude).len() == 0 {
        Seq::empty()
    } else {
        "[Recent conversation context]\n"@ + history_lines(msgs, exclude) + "\n"@
    }
}

impl NostrChannel {
    /// Adds a message to the history of a group and drops the oldest beyond the context length.
    pub fn push_history(&mut self, group: &str, msg: HistoryMessage)
        requires
            history_ok(old(self).history@),
            can_cut(msg.npub@, 20),
        ensures
            history_ok(final(self).history@),
            history_of(final(self).history@, group@) == last_n(
                history_of(old(self).history@, group@).push(msg),
                context_len(old(self).dynamic@, old(self).config.context_history, group@) as nat,
            ),
            final(self).history@.contains_key(group@),
            final(self).history@.remove(group@) == old(self).history@.remove(group@),
            final(self).config == old(self).config,
            final(self).dynamic == old(self).dynamic,
            final(self).names == old(self).names,
            final(self).event_cache == old(self).event_cache,
            final(self).owner_verified == old(self).owner_verified,
    {
        let max = self.effective_context_history(group);
        let ghost before = self.history@;
        let ghost kept = history_of(before, group@);
        let mut buf: Vec<HistoryMessage> = match self.history.remove(group) {
            Some(b) => b,
            None => Vec::new(),
        };
        assert(buf@ =~= kept);
        buf.push(msg);
        if buf.len() > max {
            let extra: usize = buf.len() - max;
            buf = buf.split_off(extra);
        }
        assert(buf@ =~= last_n(kept.push(msg), max as nat));
        self.history.insert(group.to_owned(), buf);
        proof {
            let after = self.history@;
            assert(after =~= before.insert(group@, buf));
            assert(after.remove(group@) =~= before.remove(group@));
            assert forall|g: Seq<char>, i: int|
                after.contains_key(g) && 0 <= i < after[g]@.len() implies can_cut(
                (#[trigger] after[g]@[i]).npub@,
                20,
            ) by {
                if g == group@ {
                    let all = kept.push(msg);
                    let skipped = if all.len() <= max { 0 } else { all.len() - max };
                    assert(buf@[i] == all[i + skipped]);
                    if i + skipped < kept.len() {
                        assert(before.contains_key(g));
                        assert(before[g]@[i + skipped] == kept[i + skipped]);
                    }
                } else {
                    assert(before.contains_key(g) && before[g] == after[g]);
                    assert(before[g]@[i] == after[g]@[i]);
                }
            }
        }
    }

    /// The history of a group as context, without the message whose id is given.
    pub fn format_history_context(&self, group: &str, exclude_event_id: &str) -> (r: String)
        requires
            history_ok(self.history@),
        ensures
            r@ == history_context(
                last_n(
                    history_of(self.history@, group@),
                    context_len(self.dynamic@, self.config.context_history, group@) as nat,
                ),
                exclude_event_id@,
            ),
    {
        let max = self.effective_context_history(group);
        let buf = match self.history.get(group) {
            Some(b) => b,
            None => {
                return String::new();
            },
        };
        let start: usize = if buf.len() > max {
            buf.len() - max
        } else {
            0
        };
        let ghost shown = last_n(buf@, max as nat);
        let mut lines = String::new();
        let mut i: usize = start;
        while i < buf.len()
            invariant
                start <= i <= buf@.len(),
                shown == buf@.skip(start as int),
                forall|k: int| 0 <= k < buf@.len() ==> can_cut((#[trigger] buf@[k]).npub@, 20),
                lines@ == history_lines(shown.take(i - start), exclude_event_id@),
            decreases buf.len() - i,
        {
            let msg = &buf[i];
            proof {
                assert(shown.take(i + 1 - start).drop_last() =~= shown.take(i - start));
                assert(shown.take(i + 1 - start).last() == buf@[i as int]);
            }
            if !str_eq(msg.event_id.as_str(), exclude_event_id) {
                let ghost so_far = lines@;
                lines.append("<");
                lines.append(msg.sender.as_str());
                lines.append(" npub=");
                lines.append(truncate_npub(msg.npub.as_str()));
                lines.append(
                    if msg.is_owner {
                        " role=owner"
                    } else {
                        ""
                    },
                );
                lines.append(">  ");
                lines.append(msg.content.as_str());
                lines.append("\n");
                assert(lines@ =~= so_far + history_line(*msg));
            }
            i = i + 1;
        }
        proof {
            assert(shown.take(i - start) =~= shown);
        }
        if lines.as_str().is_empty() {
            return String::new();
        }
        let mut ctx = String::from_str("[Recent conversation context]\n");
        ctx.append(lines.as_str());
        ctx.append("\n");
        ctx
    }
}

/// Adding a message keeps it as the newest unless the context length is zero, and keeps no more than
/// the context length.
pub proof fn pushed_message_is_newest<A>(s: Seq<A>, m: A, n: nat)
    ensures
        last_n(s.push(m), n).len() <= n,
        n > 0 ==> last_n(s.push(m), n).last() == m,
        n > 0 ==> last_n(s.push(m), n).len() > 0,
{
}

/// A message is never part of the context that is given with it: the context is the same as if the
/// message had not been kept.
pub proof fn excluded_message_gives_no_line(msgs: Seq<HistoryMessage>, exclude: Seq<char>)
    ensures
        history_context(msgs, exclude) == history_context(
            msgs.filter(|m: HistoryMessage| m.event_id@ != exclude),
            exclude,
        ),
{
    excluded_lines(msgs, exclude);
}

proof fn excluded_lines(msgs: Seq<HistoryMessage>, exclude: Seq<char>)
    ensures
        history_lines(msgs, exclude) == history_lines(
            msgs.filter(|m: HistoryMessage| m.event_id@ != exclude),
            exclude,
        ),
    decreases msgs.len(),
{
    let keep = |m: HistoryMessage| m.event_id@ != exclude;
    reveal(Seq::filter);
    if msgs.len() > 0 {
        excluded_lines(msgs.drop_last(), exclude);
        let kept = msgs.drop_last().filter(keep);
        if keep(msgs.last()) {
            assert(msgs.filter(keep) == kept.push(msgs.last()));
            assert(kept.push(msgs.last()).drop_last() =~= kept);
        }
    }
}

/// What is kept of a list is its end: as many items as fit, in order.
pub proof fn the_end_is_kept<A>(s: Seq<A>, n: nat, i: int)
    ensures
        last_n(s, n).len() == (if s.len() <= n {
            s.len()
        } else {
            n
        }),
        0 <= i < last_n(s, n).len() ==> last_n(s, n)[i] == s[s.len() - last_n(s, n).len() + i],
{
}

/// Every message but the excluded one has its line in the context, in order: who sent it, by a short
/// key, whether that is the owner, and what was said.
pub proof fn every_message_has_its_line(
    msgs: Seq<HistoryMessage>,
    m: HistoryMessage,
    exclude: Seq<char>,
)
    ensures
        history_lines(Seq::empty(), exclude) == Seq::<char>::empty(),
        m.event_id@ != exclude ==> history_lines(msgs.push(m), exclude) == history_lines(
            msgs,
            exclude,
        ) + ("<"@ + m.sender@ + " npub="@ + shortened(m.npub@, 20) + (if m.is_owner {
            " role=owner"@
        } else {
            ""@
        }) + ">  "@ + m.content@ + "\n"@),
        m.event_id@ == exclude ==> history_lines(msgs.push(m), exclude) == history_lines(
            msgs,
            exclude,
        ),
        history_lines(msgs, exclude).len() > 0 ==> history_context(msgs, exclude)
            == "[Recent conversation context]\n"@ + history_lines(msgs, exclude) + "\n"@,
{
    assert(msgs.push(m).drop_last() =~= msgs);
}

} // verus!
