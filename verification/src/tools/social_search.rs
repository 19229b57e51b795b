//! The tool that searches contacts, messages and documents.

use super::traits::{done, ResultView, ToolResult};
use crate::channels::nostr_memory::SocialDb;
use crate::json::texts_or_empty;
use crate::memory::doc_index::DocHit;
use crate::memory::message_index::{is_message_hit, MessageHit, MessageRow};
use crate::memory::social::SocialNpub;
use crate::memory::traits::MemoryEntry;
use crate::memory::unified_search::{best_of_all, search_all, SearchTables, UnifiedHit};
use crate::text::number::{decimal, u64_text};
use crate::text::pattern::{begins_with, has_substring, join, joined, parts_are_held};
use crate::text::space::trimmed;
use crate::text::{
    ascii_byte_take, byte_boundary, byte_len, byte_take, len_bytes, opt_str, opt_text,
    prefix_bytes, texts,
};
use crate::time::{date_of_time, time_date};
use vstd::prelude::*;
use vstd::utf8::is_ascii_chars;

verus! {

/// The first eight bytes of a key, or all of it.
pub open spec fn key_start(key: Seq<char>) -> Seq<char> {
    if byte_len(key) < 8 {
        key
    } else {
        byte_take(key, 8)
    }
}

/// Whether the key of a hit's sender can be cut.
pub open spec fn can_show(h: UnifiedHit) -> bool {
    h matches UnifiedHit::Message(m) ==> byte_len(m.sender_hex@) < 8 || byte_boundary(
        m.sender_hex@,
        8,
    )
}

/// A hit as it is shown.
pub open spec fn shown(h: UnifiedHit) -> Seq<char> {
    match h {
        UnifiedHit::Social(s) => s.display_name@ + " ("@ + s.hex_pubkey@ + ")"@ + (if texts_or_empty(
            opt_text(s.notes_json),
        ).len() > 0 {
            " — notes: "@ + joined(texts_or_empty(opt_text(s.notes_json)), "; "@)
        } else {
            Seq::empty()
        }),
        UnifiedHit::Message(m) => m.content@ + " (from "@ + key_start(m.sender_hex@) + " "@
            + date_of_time(m.created_at) + ")"@,
        UnifiedHit::Document(d) => "["@ + d.path@ + "] "@ + d.content@,
        UnifiedHit::Memory(e) => e.key@ + ": "@ + e.content@,
    }
}

/// A hit as it is shown.
pub fn format_hit(hit: &UnifiedHit) -> (r: String)
    requires
        can_show(*hit),
    ensures
        r@ == shown(*hit),
{
    match hit {
        UnifiedHit::Social(s) => {
            let mut out = s.display_name.clone();
            out.append(" (");
            out.append(s.hex_pubkey.as_str());
            out.append(")");
            let notes = crate::json::list_or_empty(&s.notes_json);
            assert(texts(notes@).len() == notes@.len());
            let ghost head = out@;
            if notes.len() > 0 {
                out.append(" — notes: ");
                out.append(join(&notes, "; ").as_str());
                assert(out@ =~= head + (" — notes: "@ + joined(texts(notes@), "; "@)));
            } else {
                assert(out@ =~= head + Seq::<char>::empty());
            }
            out
        },
        UnifiedHit::Message(m) => {
            let mut out = m.content.clone();
            out.append(" (from ");
            if len_bytes(m.sender_hex.as_str()) < 8 {
                out.append(m.sender_hex.as_str());
            } else {
                out.append(prefix_bytes(m.sender_hex.as_str(), 8));
            }
            out.append(" ");
            out.append(time_date(m.created_at).as_str());
            out.append(")");
            out
        },
        UnifiedHit::Document(d) => {
            let mut out = String::from_str("[");
            out.append(d.path.as_str());
            out.append("] ");
            out.append(d.content.as_str());
            out
        },
        UnifiedHit::Memory(e) => {
            let mut out = e.key.clone();
            out.append(": ");
            out.append(e.content.as_str());
            out
        },
    }
}

/// The word for where a hit was found.
pub open spec fn source_word(h: UnifiedHit) -> Seq<char> {
    match h {
        UnifiedHit::Memory(_) => "memory"@,
        UnifiedHit::Social(_) => "social"@,
        UnifiedHit::Message(_) => "message"@,
        UnifiedHit::Document(_) => "document"@,
    }
}

/// The line of a hit.
pub open spec fn hit_line(h: UnifiedHit) -> Seq<char> {
    "- ["@ + source_word(h) + "] "@ + shown(h) + "\n"@
}

/// The lines of hits.
pub open spec fn hit_lines(hits: Seq<UnifiedHit>) -> Seq<char>
    decreases hits.len(),
{
    if hits.len() == 0 {
        Seq::empty()
    } else {
        hit_lines(hits.drop_last()) + hit_line(hits.last())
    }
}

/// What the tool answers where the search gave hits.
pub open spec fn search_answer(hits: Seq<UnifiedHit>) -> ResultView {
    if hits.len() == 0 {
        done("No social results found matching that query."@)
    } else {
        done("Found "@ + decimal(hits.len()) + " results:\n"@ + hit_lines(hits))
    }
}

/// What the tool answers where the search gave hits.
pub fn answer_hits(hits: &Vec<UnifiedHit>) -> (r: ToolResult)
    requires
        forall|i: int| 0 <= i < hits@.len() ==> can_show(#[trigger] hits@[i]),
    ensures
        r@ == search_answer(hits@),
{
    if hits.len() == 0 {
        return ToolResult::done("No social results found matching that query.".to_owned());
    }
    let mut out = String::from_str("Found ");
    out.append(u64_text(hits.len() as u64).as_str());
    out.append(" results:\n");
    let ghost head = out@;
    let mut i: usize = 0;
    assert(hits@.take(0).len() == 0);
    assert(out@ =~= head + hit_lines(hits@.take(0)));
    while i < hits.len()
        invariant
            i <= hits@.len(),
            forall|i: int| 0 <= i < hits@.len() ==> can_show(#[trigger] hits@[i]),
            out@ == head + hit_lines(hits@.take(i as int)),
        decreases hits.len() - i,
    {
        let ghost before = out@;
        out.append("- [");
        out.append(hits[i].source());
        out.append("] ");
        out.append(format_hit(&hits[i]).as_str());
        out.append("\n");
        proof {
            assert(hits@.take(i + 1).drop_last() =~= hits@.take(i as int));
            assert(hits@.take(i + 1).last() == hits@[i as int]);
            assert(out@ =~= before + hit_line(hits@[i as int]));
            assert(out@ =~= head + hit_lines(hits@.take(i + 1)));
        }
        i = i + 1;
    }
    assert(hits@.take(i as int) =~= hits@);
    ToolResult::done(out)
}

/// The number of results that are asked for: ten where none is given.
pub open spec fn asked_limit(limit: Option<u64>) -> usize {
    match limit {
        Some(n) => n as usize,
        None => 10,
    }
}

/// Whether the keys of all senders can be cut.
pub open spec fn senders_can_show(rows: Map<Seq<char>, MessageRow>) -> bool {
    forall|k: Seq<char>| #[trigger]
        rows.contains_key(k) ==> byte_len(rows[k].sender_hex) < 8 || byte_boundary(
            rows[k].sender_hex,
            8,
        )
}

/// Whether hits are what a search of the tables gives.
pub open spec fn hits_of(db: SocialDb, query: Seq<char>, limit: int, hits: Seq<UnifiedHit>) -> bool {
    if trimmed(query).len() == 0 {
        hits.len() == 0
    } else {
        best_of_all(
            SearchTables {
                memories: None,
                social: Some(&db.social),
                messages: Some(&db.messages),
                docs: Some(&db.docs),
            },
            query,
            limit,
            hits,
        )
    }
}

/// The tool that searches the tables, if there are any.
pub struct SocialSearchTool {
    pub db: Option<SocialDb>,
}

impl SocialSearchTool {
    /// Name of the tool.
    pub fn name(&self) -> (r: &'static str)
        ensures
            r@ == "social_search"@,
    {
        "social_search"
    }

    /// What the tool is for.
    pub fn description(&self) -> (r: &'static str)
        ensures
            r@
                == "Search social contacts, chat messages, and indexed documents. Use this to find people, past conversations, or document content from Nostr channels."@,
    {
        "Search social contacts, chat messages, and indexed documents. Use this to find people, past conversations, or document content from Nostr channels."
    }

    /// Answers a request. One without a query is an error.
    pub fn execute(&self, query: Option<&str>, limit: Option<u64>) -> (r: Result<
        ToolResult,
        &'static str,
    >)
        requires
            asked_limit(limit) * 2 <= usize::MAX,
            self.db matches Some(db) ==> senders_can_show(db.messages@),
        ensures
            query is None ==> r is Err && r->Err_0@ == "Missing 'query' parameter"@,
            query is Some ==> r is Ok,
            query is Some && self.db is None ==> r->Ok_0@ == done(
                "Social database not available (no social.db found)."@,
            ),
            query is Some && self.db is Some ==> exists|hits: Seq<UnifiedHit>| #[trigger]
                hits_of(self.db->0, opt_str(query)->0, asked_limit(limit) as int, hits)
                    && r->Ok_0@ == search_answer(hits),
    {
        let wanted = match query {
            Some(q) => q,
            None => return Err("Missing 'query' parameter"),
        };
        let most: usize = match limit {
            Some(n) => n as usize,
            None => 10,
        };
        match &self.db {
            Some(db) => {
                let hits = search_all(
                    &SearchTables {
                        memories: None,
                        social: Some(&db.social),
                        messages: Some(&db.messages),
                        docs: Some(&db.docs),
                    },
                    wanted,
                    most,
                );
                proof {
                    assert forall|i: int| 0 <= i < hits@.len() implies can_show(
                        #[trigger] hits@[i],
                    ) by {
                        if let UnifiedHit::Message(m) = hits@[i] {
                            let k = choose|k: Seq<char>| #[trigger]
                                db.messages@.contains_key(k) && is_message_hit(
                                    m,
                                    db.messages@[k],
                                    m.score,
                                );
                        }
                    }
                    assert(hits_of(
                        self.db->0,
                        opt_str(query)->0,
                        asked_limit(limit) as int,
                        hits@,
                    ));
                }
                Ok(answer_hits(&hits))
            },
            None => Ok(
                ToolResult::done("Social database not available (no social.db found).".to_owned()),
            ),
        }
    }
}

/// What is shown of a hit tells what it is: a contact by name and key with the notes on it, a message
/// by what was said and when, a piece of a document by its path, a memory by its key.
pub proof fn hits_are_shown(s: SocialNpub, m: MessageHit, d: DocHit, e: MemoryEntry)
    ensures
        begins_with(shown(UnifiedHit::Social(s)), s.display_name@ + " ("@ + s.hex_pubkey@ + ")"@),
        texts_or_empty(opt_text(s.notes_json)).len() > 0 ==> has_substring(
            shown(UnifiedHit::Social(s)),
            joined(texts_or_empty(opt_text(s.notes_json)), "; "@),
        ),
        has_substring(shown(UnifiedHit::Message(m)), m.content@),
        has_substring(shown(UnifiedHit::Message(m)), date_of_time(m.created_at)),
        has_substring(shown(UnifiedHit::Message(m)), key_start(m.sender_hex@)),
        shown(UnifiedHit::Document(d)) == "["@ + d.path@ + "] "@ + d.content@,
        shown(UnifiedHit::Memory(e)) == e.key@ + ": "@ + e.content@,
        source_word(UnifiedHit::Social(s)) == "social"@,
        source_word(UnifiedHit::Message(m)) == "message"@,
        source_word(UnifiedHit::Document(d)) == "document"@,
        source_word(UnifiedHit::Memory(e)) == "memory"@,
{
    let c = s.display_name@ + " ("@ + s.hex_pubkey@ + ")"@;
    let notes = texts_or_empty(opt_text(s.notes_json));
    let t = shown(UnifiedHit::Social(s));
    assert(t.subrange(0, c.len() as int) =~= c);
    if notes.len() > 0 {
        let n = joined(notes, "; "@);
        assert(t =~= (c + " — notes: "@) + n + Seq::<char>::empty());
        parts_are_held(c + " — notes: "@, n, Seq::<char>::empty());
    }
    let u = shown(UnifiedHit::Message(m));
    let k = key_start(m.sender_hex@);
    let day = date_of_time(m.created_at);
    let after = " (from "@ + k + " "@ + day + ")"@;
    assert(u =~= Seq::<char>::empty() + m.content@ + after);
    parts_are_held(Seq::<char>::empty(), m.content@, after);
    assert(u =~= (m.content@ + " (from "@ + k + " "@) + day + ")"@);
    parts_are_held(m.content@ + " (from "@ + k + " "@, day, ")"@);
    assert(u =~= (m.content@ + " (from "@) + k + (" "@ + day + ")"@));
    parts_are_held(m.content@ + " (from "@, k, " "@ + day + ")"@);
}

/// Every hit has its line, in order, behind the number of hits; without hits the answer says so.
pub proof fn every_hit_has_its_line(a: Seq<UnifiedHit>, h: UnifiedHit, b: Seq<UnifiedHit>)
    ensures
        hit_lines(a.push(h) + b) == hit_lines(a) + ("- ["@ + source_word(h) + "] "@ + shown(h) + "\n"@)
            + hit_lines(b),
        hit_lines(Seq::empty()).len() == 0,
        search_answer(a.push(h) + b).success && search_answer(a.push(h) + b).output == "Found "@
            + decimal((a.push(h) + b).len()) + " results:\n"@ + hit_lines(a.push(h) + b),
        search_answer(Seq::empty()).success && search_answer(Seq::empty()).output
            == "No social results found matching that query."@,
    decreases b.len(),
{
    let all = a.push(h) + b;
    if b.len() == 0 {
        assert(all =~= a.push(h));
        assert(all.drop_last() =~= a);
        assert(hit_lines(b) =~= Seq::<char>::empty());
    } else {
        every_hit_has_its_line(a, h, b.drop_last());
        assert(all.drop_last() =~= a.push(h) + b.drop_last());
        assert(all.last() == b.last());
    }
    assert(hit_lines(all) =~= hit_lines(a) + hit_line(h) + hit_lines(b));
}

/// Ten hits are asked for where no number is given.
pub proof fn ten_hits_unless_asked(n: u64)
    ensures
        asked_limit(None) == 10,
        n <= usize::MAX ==> asked_limit(Some(n)) == n,
{
}

/// Of a key its first eight bytes are shown, or all of a shorter one.
pub proof fn keys_are_cut(key: Seq<char>)
    requires
        is_ascii_chars(key),
    ensures
        key.len() >= 8 ==> key_start(key) == key.take(8),
        key.len() < 8 ==> key_start(key) == key,
{
    ascii_byte_take(key, 0);
    if key.len() >= 8 {
        ascii_byte_take(key, 8);
    }
}

} // verus!
