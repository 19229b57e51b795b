//! Memories kept by a Nomen daemon: what is asked of it and how its answers read.

use super::nomen_policy::{category_tier, resolve_store_policy};
use super::runtime_context::{tier_in, visibility_word, MemoryRuntimeContext};
use super::traits::{
    entry_views, CategoryView, EntryView, MemoryCategory, MemoryEntry,
};
use crate::json::{json_field, json_numbers, json_rows, opt_texts, read_field, read_numbers, read_rows};
use crate::text::pattern::{find_char, find_char_is_first, split_once};
use crate::text::space::{trim, trimmed};
use crate::text::{from_chars, opt_str, opt_text, str_eq, texts, to_chars};
use vstd::prelude::*;

verus! {

/// The visibility and the scope of a tier.
pub open spec fn tier_parts(tier: Seq<char>) -> (Seq<char>, Seq<char>) {
    let i = find_char(tier, ':');
    if 0 <= i < tier.len() {
        (tier.take(i), tier.skip(i + 1))
    } else {
        (tier, Seq::empty())
    }
}

/// The visibility and the scope of a tier: "group:techteam" is ("group", "techteam").
pub fn split_tier(tier: &str) -> (r: (String, String))
    ensures
        (r.0@, r.1@) == tier_parts(tier@),
{
    proof {
        find_char_is_first(tier@, ':');
    }
    match split_once(tier, ':') {
        Some(parts) => parts,
        None => (tier.to_owned(), String::new()),
    }
}

/// The category of a tier.
pub open spec fn category_in(tier: Seq<char>) -> CategoryView {
    if tier == "personal"@ || tier == "internal"@ {
        CategoryView::Core
    } else {
        CategoryView::Custom(tier)
    }
}

/// The category of a tier.
pub fn tier_to_category(visibility: &str) -> (r: MemoryCategory)
    ensures
        r@ == category_in(visibility@),
{
    if str_eq(visibility, "personal") || str_eq(visibility, "internal") {
        MemoryCategory::Core
    } else {
        MemoryCategory::Custom(visibility.to_owned())
    }
}

// ---------------------------------------------------------------------------
// Requests
// ---------------------------------------------------------------------------

/// The first line of a text, without what ends it.
pub open spec fn first_line(s: Seq<char>) -> Seq<char> {
    let i = find_char(s, '\n');
    if 0 <= i < s.len() {
        if i > 0 && s[i - 1] == '\r' {
            s.take(i - 1)
        } else {
            s.take(i)
        }
    } else {
        s
    }
}

/// The summary of a text: at most 200 characters of its first line.
pub open spec fn summary_of(s: Seq<char>) -> Seq<char> {
    let l = first_line(s);
    if l.len() <= 200 {
        l
    } else {
        l.take(200)
    }
}

fn summarize(content: &str) -> (r: String)
    ensures
        r@ == summary_of(content@),
{
    proof {
        find_char_is_first(content@, '\n');
    }
    let cs = match split_once(content, '\n') {
        Some(parts) => {
            let mut line = to_chars(parts.0.as_str());
            if line.len() > 0 && line[line.len() - 1] == '\r' {
                line.pop();
                proof {
                    let i = find_char(content@, '\n');
                    assert(content@.take(i).drop_last() =~= content@.take(i - 1));
                }
            }
            line
        },
        None => to_chars(content),
    };
    assert(cs@ =~= first_line(content@));
    let n: usize = if cs.len() <= 200 {
        cs.len()
    } else {
        200
    };
    assert(cs@.subrange(0, n as int) =~= summary_of(content@));
    from_chars(&cs, 0, n)
}

/// A request to store a memory.
#[derive(Debug)]
pub struct PutRequest {
    pub topic: String,
    pub summary: String,
    pub detail: String,
    pub visibility: String,
    pub scope: Option<String>,
}

/// The tier under which a memory is stored: that of the setting, else that of its category.
pub open spec fn put_tier(category: CategoryView, ctx: Option<MemoryRuntimeContext>) -> Seq<char> {
    match ctx {
        Some(c) => tier_in(c.visibility, c.scope@),
        None => match category_tier(category) {
            Some(t) => t,
            None => "personal"@,
        },
    }
}

/// A scope that is not empty.
pub open spec fn scope_given(scope: Seq<char>) -> Option<Seq<char>> {
    if scope.len() == 0 {
        None
    } else {
        Some(scope)
    }
}

fn given(scope: String) -> (r: Option<String>)
    ensures
        opt_text(r) == scope_given(scope@),
{
    proof {
        reveal_strlit("");
        assert(scope@.len() == 0 ==> scope@ =~= ""@);
    }
    if str_eq(scope.as_str(), "") {
        None
    } else {
        Some(scope)
    }
}

/// A request for memories: what they must match, how many, and where they may be seen.
#[derive(Debug)]
pub struct FindRequest {
    pub query: Option<String>,
    pub limit: usize,
    pub visibility: Option<String>,
    pub scope: Option<String>,
}

/// The scope of a setting, where it has one.
pub open spec fn context_scope(ctx: Option<MemoryRuntimeContext>) -> Option<Seq<char>> {
    match ctx {
        Some(c) => scope_given(trimmed(c.scope@)),
        None => None,
    }
}

/// Why a request failed.
pub fn request_failure(method: &str, message: Option<&str>) -> (r: String)
    ensures
        r@ == method@ + " failed: "@ + (match message {
            Some(m) => m@,
            None => "unknown error"@,
        }),
{
    let mut r = method.to_owned();
    r.append(" failed: ");
    match message {
        Some(m) => r.append(m),
        None => r.append("unknown error"),
    }
    r
}

// ---------------------------------------------------------------------------
// Answers
// ---------------------------------------------------------------------------

/// A text that may be missing, with what stands for it then.
pub open spec fn text_or(t: Option<Seq<char>>, other: Seq<char>) -> Seq<char> {
    match t {
        Some(t) => t,
        None => other,
    }
}

/// The tier that a visibility and a scope make.
pub open spec fn joined_tier(visibility: Seq<char>, scope: Seq<char>) -> Seq<char> {
    if scope.len() == 0 {
        visibility
    } else {
        visibility + ":"@ + scope
    }
}

/// The fields of a record that an answer holds.
pub struct RecordView {
    pub topic: Option<Seq<char>>,
    pub summary: Option<Seq<char>>,
    /// The longer text: `detail` in a search, `content` elsewhere.
    pub body: Option<Seq<char>>,
    pub visibility: Option<Seq<char>>,
    pub scope: Option<Seq<char>>,
    pub created_at: Option<Seq<char>>,
    pub d_tag: Option<Seq<char>>,
    pub confidence: Option<u64>,
}

/// The memory that a record stands for, with the given content.
pub open spec fn record_entry(r: RecordView, content: Seq<char>) -> EntryView {
    EntryView {
        id: text_or(r.d_tag, Seq::empty()),
        key: text_or(r.topic, Seq::empty()),
        content,
        category: category_in(
            joined_tier(text_or(r.visibility, "personal"@), text_or(r.scope, Seq::empty())),
        ),
        timestamp: text_or(r.created_at, Seq::empty()),
        session_id: None,
        score: r.confidence,
    }
}

/// The memory that a record of a search stands for: its detail, else its summary.
pub open spec fn found_entry(r: RecordView) -> EntryView {
    let summary = text_or(r.summary, Seq::empty());
    let detail = text_or(r.body, Seq::empty());
    record_entry(
        r,
        if detail.len() == 0 {
            summary
        } else {
            detail
        },
    )
}

/// The memory that a listed record stands for: its summary, else its content.
pub open spec fn listed_entry(r: RecordView) -> EntryView {
    let summary = text_or(r.summary, Seq::empty());
    record_entry(
        r,
        if summary.len() == 0 {
            text_or(r.body, summary)
        } else {
            summary
        },
    )
}

struct Record {
    topic: Option<String>,
    summary: Option<String>,
    body: Option<String>,
    visibility: Option<String>,
    scope: Option<String>,
    created_at: Option<String>,
    d_tag: Option<String>,
    confidence: Option<u64>,
}

impl View for Record {
    type V = RecordView;

    closed spec fn view(&self) -> RecordView {
        RecordView {
            topic: opt_text(self.topic),
            summary: opt_text(self.summary),
            body: opt_text(self.body),
            visibility: opt_text(self.visibility),
            scope: opt_text(self.scope),
            created_at: opt_text(self.created_at),
            d_tag: opt_text(self.d_tag),
            confidence: self.confidence,
        }
    }
}

fn or_text(t: &Option<String>, other: &str) -> (r: String)
    ensures
        r@ == text_or(opt_text(*t), other@),
{
    match t {
        Some(t) => t.clone(),
        None => other.to_owned(),
    }
}

fn is_empty(s: &String) -> (r: bool)
    ensures
        r == (s@.len() == 0),
{
    proof {
        reveal_strlit("");
        assert(s@.len() == 0 ==> s@ =~= ""@);
    }
    str_eq(s.as_str(), "")
}

impl Record {
    fn entry(&self, content: String) -> (r: MemoryEntry)
        ensures
            r@ == record_entry(self@, content@),
    {
        proof {
            reveal_strlit("");
            assert(""@ =~= Seq::<char>::empty());
        }
        let visibility = or_text(&self.visibility, "personal");
        let scope = or_text(&self.scope, "");
        let mut tier = visibility;
        if !is_empty(&scope) {
            tier.append(":");
            tier.append(scope.as_str());
        }
        MemoryEntry {
            id: or_text(&self.d_tag, ""),
            key: or_text(&self.topic, ""),
            content,
            category: tier_to_category(tier.as_str()),
            timestamp: or_text(&self.created_at, ""),
            session_id: None,
            score: self.confidence,
        }
    }

    fn found(&self) -> (r: MemoryEntry)
        ensures
            r@ == found_entry(self@),
    {
        proof {
            reveal_strlit("");
            assert(""@ =~= Seq::<char>::empty());
        }
        let detail = or_text(&self.body, "");
        let content = if is_empty(&detail) {
            or_text(&self.summary, "")
        } else {
            detail
        };
        self.entry(content)
    }

    fn listed(&self) -> (r: MemoryEntry)
        ensures
            r@ == listed_entry(self@),
    {
        proof {
            reveal_strlit("");
            assert(""@ =~= Seq::<char>::empty());
        }
        let summary = or_text(&self.summary, "");
        let content = if is_empty(&summary) {
            or_text(&self.body, summary.as_str())
        } else {
            summary
        };
        self.entry(content)
    }
}

/// The fields that an answer is read for, with the given name of the longer text.
pub open spec fn record_fields(body: Seq<char>) -> Seq<Seq<char>> {
    seq![
        "topic"@,
        "summary"@,
        body,
        "visibility"@,
        "scope"@,
        "created_at"@,
        "d_tag"@,
    ]
}

/// The record at position `i` of the rows of an answer.
pub open spec fn record_at(
    rows: Seq<Seq<Option<Seq<char>>>>,
    scores: Seq<Option<u64>>,
    i: int,
) -> RecordView {
    RecordView {
        topic: rows[i][0],
        summary: rows[i][1],
        body: rows[i][2],
        visibility: rows[i][3],
        scope: rows[i][4],
        created_at: rows[i][5],
        d_tag: rows[i][6],
        confidence: if i < scores.len() {
            scores[i]
        } else {
            None
        },
    }
}

/// The records of the array under `key` of an answer.
pub open spec fn records(json: Seq<char>, key: Seq<char>, body: Seq<char>) -> Seq<RecordView> {
    match json_rows(json, key, record_fields(body)) {
        Some(rows) => Seq::new(
            rows.len(),
            |i: int| record_at(rows, json_numbers(json, key, "confidence"@), i),
        ),
        None => Seq::empty(),
    }
}

fn read_records(json: &str, key: &str, body: &str) -> (r: Vec<Record>)
    ensures
        r@.len() == records(json@, key@, body@).len(),
        forall|i: int| 0 <= i < r@.len() ==> (#[trigger] r@[i])@ == records(json@, key@, body@)[i],
{
    let mut fields: Vec<String> = Vec::new();
    fields.push("topic".to_owned());
    fields.push("summary".to_owned());
    fields.push(body.to_owned());
    fields.push("visibility".to_owned());
    fields.push("scope".to_owned());
    fields.push("created_at".to_owned());
    fields.push("d_tag".to_owned());
    assert(texts(fields@) =~= record_fields(body@));
    let mut r: Vec<Record> = Vec::new();
    if let Some(rows) = read_rows(json, key, &fields) {
        let scores = read_numbers(json, key, "confidence");
        let ghost want = records(json@, key@, body@);
        let ghost all = crate::json::row_texts(rows@);
        let mut i: usize = 0;
        while i < rows.len()
            invariant
                i <= rows@.len(),
                all == crate::json::row_texts(rows@),
                json_rows(json@, key@, record_fields(body@)) == Some(all),
                scores@ == json_numbers(json@, key@, "confidence"@),
                want == records(json@, key@, body@),
                r@.len() == i,
                forall|j: int| 0 <= j < rows@.len() ==> (#[trigger] rows@[j])@.len() == 7,
                forall|j: int| 0 <= j < i ==> (#[trigger] r@[j])@ == want[j],
            decreases rows.len() - i,
        {
            let row = &rows[i];
            assert(all[i as int] == opt_texts(row@));
            let record = Record {
                topic: row[0].clone(),
                summary: row[1].clone(),
                body: row[2].clone(),
                visibility: row[3].clone(),
                scope: row[4].clone(),
                created_at: row[5].clone(),
                d_tag: row[6].clone(),
                confidence: if i < scores.len() {
                    scores[i]
                } else {
                    None
                },
            };
            assert(record@ == want[i as int]);
            r.push(record);
            i = i + 1;
        }
    }
    r
}

/// The memories that an answer to a search holds.
pub fn parse_search_results(result: &str) -> (r: Vec<MemoryEntry>)
    ensures
        entry_views(r@) == records(result@, "results"@, "detail"@).map_values(
            |r: RecordView| found_entry(r),
        ),
{
    let list = read_records(result, "results", "detail");
    let ghost want = records(result@, "results"@, "detail"@);
    let mut r: Vec<MemoryEntry> = Vec::new();
    let mut i: usize = 0;
    while i < list.len()
        invariant
            i <= list@.len(),
            list@.len() == want.len(),
            forall|j: int| 0 <= j < list@.len() ==> (#[trigger] list@[j])@ == want[j],
            r@.len() == i,
            forall|j: int| 0 <= j < i ==> (#[trigger] r@[j])@ == found_entry(want[j]),
        decreases list.len() - i,
    {
        r.push(list[i].found());
        i = i + 1;
    }
    assert(entry_views(r@) =~= want.map_values(|r: RecordView| found_entry(r)));
    r
}

/// The memories that an answer to a listing holds.
pub fn parse_list_results(result: &str) -> (r: Vec<MemoryEntry>)
    ensures
        entry_views(r@) == records(result@, "memories"@, "content"@).map_values(
            |r: RecordView| listed_entry(r),
        ),
{
    let list = read_records(result, "memories", "content");
    let ghost want = records(result@, "memories"@, "content"@);
    let mut r: Vec<MemoryEntry> = Vec::new();
    let mut i: usize = 0;
    while i < list.len()
        invariant
            i <= list@.len(),
            list@.len() == want.len(),
            forall|j: int| 0 <= j < list@.len() ==> (#[trigger] list@[j])@ == want[j],
            r@.len() == i,
            forall|j: int| 0 <= j < i ==> (#[trigger] r@[j])@ == listed_entry(want[j]),
        decreases list.len() - i,
    {
        r.push(list[i].listed());
        i = i + 1;
    }
    assert(entry_views(r@) =~= want.map_values(|r: RecordView| listed_entry(r)));
    r
}

/// The text under a key of an answer, where there is one.
pub open spec fn answer_field(json: Seq<char>, key: Seq<char>) -> Option<Seq<char>> {
    match json_field(json, key) {
        Some(f) => f,
        None => None,
    }
}

fn field_of(json: &str, key: &str) -> (r: Option<String>)
    ensures
        opt_text(r) == answer_field(json@, key@),
{
    match read_field(json, key) {
        Some(f) => f,
        None => None,
    }
}

/// The record that an answer is.
pub open spec fn single_record(json: Seq<char>, confidence: Option<u64>) -> RecordView {
    RecordView {
        topic: answer_field(json, "topic"@),
        summary: answer_field(json, "summary"@),
        body: answer_field(json, "content"@),
        visibility: answer_field(json, "visibility"@),
        scope: answer_field(json, "scope"@),
        created_at: answer_field(json, "created_at"@),
        d_tag: answer_field(json, "d_tag"@),
        confidence,
    }
}

/// The memory that an answer for one key holds, with the confidence read from it; none where it
/// names no topic.
pub fn parse_get_result(result: &str, confidence: Option<u64>) -> (r: Option<MemoryEntry>)
    ensures
        match r {
            Some(e) => {
                &&& text_or(answer_field(result@, "topic"@), Seq::empty()).len() > 0
                &&& e@ == listed_entry(single_record(result@, confidence))
            },
            None => text_or(answer_field(result@, "topic"@), Seq::empty()).len() == 0,
        },
{
    let record = Record {
        topic: field_of(result, "topic"),
        summary: field_of(result, "summary"),
        body: field_of(result, "content"),
        visibility: field_of(result, "visibility"),
        scope: field_of(result, "scope"),
        created_at: field_of(result, "created_at"),
        d_tag: field_of(result, "d_tag"),
        confidence,
    };
    proof {
        reveal_strlit("");
        assert(""@ =~= Seq::<char>::empty());
    }
    if is_empty(&or_text(&record.topic, "")) {
        None
    } else {
        Some(record.listed())
    }
}

/// Where the daemon's socket is: under the runtime directory, else under a directory of the user's.
pub open spec fn socket_path(runtime_dir: Option<Seq<char>>, user: Seq<char>) -> Seq<char> {
    match runtime_dir {
        Some(d) => if d.len() == 0 || d.last() == '/' {
            d + "nomen/nomen.sock"@
        } else {
            d + "/"@ + "nomen/nomen.sock"@
        },
        None => "/tmp/nomen-"@ + user + "/nomen.sock"@,
    }
}

/// Where the daemon's socket is.
pub fn default_socket_path(runtime_dir: Option<&str>, user: &str) -> (r: String)
    ensures
        r@ == socket_path(
            opt_str(runtime_dir),
            user@,
        ),
{
    match runtime_dir {
        Some(d) => {
            let cs = to_chars(d);
            let mut r = d.to_owned();
            if cs.len() > 0 && cs[cs.len() - 1] != '/' {
                r.append("/");
            }
            r.append("nomen/nomen.sock");
            r
        },
        None => {
            let mut r = String::from_str("/tmp/nomen-");
            r.append(user);
            r.append("/nomen.sock");
            r
        },
    }
}

/// The memories of one daemon, reached through its socket.
#[derive(Debug)]
pub struct NomenSocketMemory {
    pub socket_path: String,
}

impl NomenSocketMemory {
    /// The memories behind a socket, the default one where none is given.
    pub fn new(path: Option<&str>, runtime_dir: Option<&str>, user: &str) -> (r: Self)
        ensures
            r.socket_path@ == (match path {
                Some(p) => p@,
                None => socket_path(opt_str(runtime_dir), user@),
            }),
    {
        NomenSocketMemory {
            socket_path: match path {
                Some(p) => p.to_owned(),
                None => default_socket_path(runtime_dir, user),
            },
        }
    }

    /// Name of the backend.
    pub fn name(&self) -> (r: &'static str)
        ensures
            r@ == "nomen-socket"@,
    {
        "nomen-socket"
    }

    /// The request that stores a memory.
    pub fn store_with_context(
        &self,
        key: &str,
        content: &str,
        category: &MemoryCategory,
        session_id: Option<&str>,
        ctx: Option<&MemoryRuntimeContext>,
    ) -> (r: PutRequest)
        ensures
            ({
                let tier = put_tier(
                    category@,
                    match ctx {
                        Some(c) => Some(*c),
                        None => None,
                    },
                );
                &&& r.topic@ == key@
                &&& r.summary@ == summary_of(content@)
                &&& r.detail@ == content@
                &&& r.visibility@ == tier_parts(tier).0
                &&& opt_text(r.scope) == scope_given(tier_parts(tier).1)
            }),
    {
        let tier = match ctx {
            Some(c) => c.nomen_tier(),
            None => resolve_store_policy(category, session_id).tier,
        };
        let parts = split_tier(tier.as_str());
        PutRequest {
            topic: key.to_owned(),
            summary: summarize(content),
            detail: content.to_owned(),
            visibility: parts.0,
            scope: given(parts.1),
        }
    }

    /// The request that searches memories.
    pub fn recall_with_context(
        &self,
        query: &str,
        limit: usize,
        ctx: Option<&MemoryRuntimeContext>,
    ) -> (r: FindRequest)
        ensures
            opt_text(r.query) == Some(query@),
            r.limit == limit,
            opt_text(r.visibility) == (match ctx {
                Some(c) => Some(visibility_word(c.visibility)),
                None => None,
            }),
            opt_text(r.scope) == context_scope(
                match ctx {
                    Some(c) => Some(*c),
                    None => None,
                },
            ),
    {
        match ctx {
            Some(c) => FindRequest {
                query: Some(query.to_owned()),
                limit,
                visibility: Some(c.nomen_base_tier().to_owned()),
                scope: given(trim(c.scope.as_str())),
            },
            None => FindRequest {
                query: Some(query.to_owned()),
                limit,
                visibility: None,
                scope: None,
            },
        }
    }

    /// The request that lists memories: those of the setting, else those of a category.
    pub fn list_with_context(
        &self,
        category: Option<&MemoryCategory>,
        ctx: Option<&MemoryRuntimeContext>,
    ) -> (r: FindRequest)
        ensures
            r.query is None,
            r.limit == 1000,
            opt_text(r.visibility) == (match ctx {
                Some(c) => Some(visibility_word(c.visibility)),
                None => match category {
                    Some(cat) => Some(put_tier(cat@, None)),
                    None => None,
                },
            }),
            opt_text(r.scope) == context_scope(
                match ctx {
                    Some(c) => Some(*c),
                    None => None,
                },
            ),
    {
        match ctx {
            Some(c) => FindRequest {
                query: None,
                limit: 1000,
                visibility: Some(c.nomen_base_tier().to_owned()),
                scope: given(trim(c.scope.as_str())),
            },
            None => FindRequest {
                query: None,
                limit: 1000,
                visibility: match category {
                    Some(cat) => Some(resolve_store_policy(cat, None).tier),
                    None => None,
                },
                scope: None,
            },
        }
    }
}

/// A visibility without a colon and a scope make a tier that falls into the same two parts.
pub proof fn tier_parts_read_back(visibility: Seq<char>, scope: Seq<char>)
    requires
        !visibility.contains(':'),
    ensures
        tier_parts(joined_tier(visibility, scope)) == (visibility, scope),
{
    let t = joined_tier(visibility, scope);
    reveal_strlit(":");
    find_char_is_first(t, ':');
    let i = find_char(t, ':');
    if scope.len() == 0 {
        if i < t.len() {
            assert(visibility[i] == ':');
        }
        assert(scope =~= Seq::<char>::empty());
    } else {
        assert(t[visibility.len() as int] == ':');
        if i < visibility.len() {
            assert(visibility[i] == ':');
        }
        assert(t.take(i) =~= visibility);
        assert(t.skip(i + 1) =~= scope);
    }
}

/// The summary of a text is a beginning of its first line, of at most two hundred characters; a short
/// first line is the summary.
pub proof fn first_line_is_the_summary(line: Seq<char>, rest: Seq<char>)
    requires
        !line.contains('\n'),
        line.len() > 0 ==> line.last() != '\r',
    ensures
        line.len() <= 200 ==> summary_of(line + seq!['\n'] + rest) == line,
        line.len() <= 200 ==> summary_of(line + seq!['\r', '\n'] + rest) == line,
        line.len() <= 200 ==> summary_of(line) == line,
        line.len() > 200 ==> summary_of(line + seq!['\n'] + rest) == line.take(200),
        line.len() > 200 ==> summary_of(line) == line.take(200),
{
    let n = line.len() as int;
    let a = line + seq!['\n'] + rest;
    let b = line + seq!['\r', '\n'] + rest;
    assert forall|j: int| 0 <= j < n implies line[j] != '\n' by {
        assert(line.contains(line[j]));
    }
    find_char_is_first(a, '\n');
    find_char_is_first(b, '\n');
    find_char_is_first(line, '\n');
    assert(a[n] == '\n');
    assert(b[n + 1] == '\n' && b[n] == '\r');
    let i = find_char(a, '\n');
    if i < n {
        assert(a[i] == line[i]);
    }
    let k = find_char(b, '\n');
    if k < n {
        assert(b[k] == line[k]);
    }
    assert(k == n + 1);
    assert(a.take(n) =~= line);
    assert(b.take(n) =~= line);
    if n > 0 {
        assert(a[n - 1] == line.last());
    }
    assert(first_line(a) == line);
    assert(first_line(b) == line);
    assert(first_line(line) == line);
}

/// Where a memory goes: to the tier of its setting, else to the one that its category names, else to
/// the personal one.
pub proof fn tiers_of_requests(category: CategoryView, ctx: MemoryRuntimeContext, scope: Seq<char>)
    ensures
        put_tier(category, Some(ctx)) == tier_in(ctx.visibility, ctx.scope@),
        category_tier(category) matches Some(t) ==> put_tier(category, None) == t,
        category_tier(category) is None ==> put_tier(category, None) == "personal"@,
        scope.len() > 0 ==> scope_given(scope) == Some(scope),
        scope.len() == 0 ==> scope_given(scope) is None,
        context_scope(None) is None,
        trimmed(ctx.scope@).len() > 0 ==> context_scope(Some(ctx)) == Some(trimmed(ctx.scope@)),
        trimmed(ctx.scope@).len() == 0 ==> context_scope(Some(ctx)) is None,
{
}

/// Personal and internal memories are core ones; any other tier is a category of its own.
pub proof fn categories_of_tiers(tier: Seq<char>)
    ensures
        category_in("personal"@) is Core,
        category_in("internal"@) is Core,
        tier != "personal"@ && tier != "internal"@ ==> category_in(tier) == CategoryView::Custom(tier),
{
}

/// A record that was found shows its detail, or its summary where it has none; one that is listed
/// shows its summary, or its body where that is empty. Both keep the record's topic, time, tag and
/// score.
pub proof fn records_become_memories(r: RecordView, summary: Seq<char>, body: Seq<char>)
    ensures
        r.summary == Some(summary) && r.body == Some(body) && body.len() > 0 ==> found_entry(r).content
            == body,
        r.summary == Some(summary) && (r.body is None || r.body->0.len() == 0) ==> found_entry(
            r,
        ).content == summary,
        r.summary == Some(summary) && summary.len() > 0 ==> listed_entry(r).content == summary,
        (r.summary is None || r.summary->0.len() == 0) && r.body == Some(body) ==> listed_entry(
            r,
        ).content == body,
        r.topic matches Some(t) ==> found_entry(r).key == t && listed_entry(r).key == t,
        r.d_tag matches Some(t) ==> found_entry(r).id == t && listed_entry(r).id == t,
        r.created_at matches Some(t) ==> found_entry(r).timestamp == t && listed_entry(r).timestamp
            == t,
        found_entry(r).score == r.confidence && listed_entry(r).score == r.confidence,
        found_entry(r).session_id is None && listed_entry(r).session_id is None,
        r.visibility is None && r.scope is None ==> found_entry(r).category is Core && listed_entry(
            r,
        ).category is Core,
        r.visibility matches Some(v) ==> (r.scope matches Some(s) ==> s.len() > 0 ==> found_entry(
            r,
        ).category == category_in(v + ":"@ + s) && listed_entry(r).category == category_in(
            v + ":"@ + s,
        )),
        r.visibility matches Some(v) ==> r.scope is None ==> found_entry(r).category == category_in(v)
            && listed_entry(r).category == category_in(v),
{
}

/// The records of an answer, row by row: each field from its own column, the score from its number.
pub proof fn answers_hold_records(json: Seq<char>, key: Seq<char>, body: Seq<char>, i: int)
    ensures
        json_rows(json, key, record_fields(body)) is None ==> records(json, key, body).len() == 0,
        json_rows(json, key, record_fields(body)) matches Some(rows) ==> {
            let r = records(json, key, body)[i];
            &&& records(json, key, body).len() == rows.len()
            &&& 0 <= i < rows.len() ==> {
                &&& record_fields(body)[0] == "topic"@ && r.topic == rows[i][0]
                &&& record_fields(body)[1] == "summary"@ && r.summary == rows[i][1]
                &&& record_fields(body)[2] == body && r.body == rows[i][2]
                &&& record_fields(body)[3] == "visibility"@ && r.visibility == rows[i][3]
                &&& record_fields(body)[4] == "scope"@ && r.scope == rows[i][4]
                &&& record_fields(body)[5] == "created_at"@ && r.created_at == rows[i][5]
                &&& record_fields(body)[6] == "d_tag"@ && r.d_tag == rows[i][6]
                &&& i < json_numbers(json, key, "confidence"@).len() ==> r.confidence == json_numbers(
                    json,
                    key,
                    "confidence"@,
                )[i]
            }
        },
{
}

/// A single record is read field by field.
pub proof fn single_records_are_read(json: Seq<char>, confidence: Option<u64>, t: Seq<char>)
    ensures
        single_record(json, confidence).confidence == confidence,
        json_field(json, "topic"@) == Some(Some(t)) ==> single_record(json, confidence).topic == Some(t),
        json_field(json, "summary"@) == Some(Some(t)) ==> single_record(json, confidence).summary
            == Some(t),
        json_field(json, "content"@) == Some(Some(t)) ==> single_record(json, confidence).body == Some(
            t,
        ),
        json_field(json, "visibility"@) == Some(Some(t)) ==> single_record(
            json,
            confidence,
        ).visibility == Some(t),
        json_field(json, "scope"@) == Some(Some(t)) ==> single_record(json, confidence).scope == Some(t),
        json_field(json, "created_at"@) == Some(Some(t)) ==> single_record(
            json,
            confidence,
        ).created_at == Some(t),
        json_field(json, "d_tag"@) == Some(Some(t)) ==> single_record(json, confidence).d_tag == Some(t),
        json_field(json, t) is None ==> answer_field(json, t) is None,
{
}

/// The socket lies in the runtime directory, with one slash between, or else in a directory of the
/// user's own.
pub proof fn where_the_socket_lies(dir: Seq<char>, user: Seq<char>)
    ensures
        socket_path(None, user) == "/tmp/nomen-"@ + user + "/nomen.sock"@,
        dir.len() > 0 && dir.last() != '/' ==> socket_path(Some(dir), user) == dir
            + "/nomen/nomen.sock"@,
        dir.len() > 0 && dir.last() == '/' ==> socket_path(Some(dir), user) == dir + "nomen/nomen.sock"@,
{
    reveal_strlit("/");
    reveal_strlit("nomen/nomen.sock");
    reveal_strlit("/nomen/nomen.sock");
    assert("/"@ + "nomen/nomen.sock"@ =~= "/nomen/nomen.sock"@);
    assert(dir + "/"@ + "nomen/nomen.sock"@ =~= dir + ("/"@ + "nomen/nomen.sock"@));
}

} // verus!
