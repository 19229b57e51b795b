//! The table of indexed documents, with detection of unchanged content.

use crate::text::number::{decimal, u64_text};
use crate::text::space::{is_blank, trimmed};
use crate::text::{opt_eq, opt_text, str_eq, texts};
use sha2::{Digest, Sha256};
use super::fts::{columns_of, found, fts_matches, fts_of, row_of, search};
use vstd::prelude::*;
use vstd::utf8::encode_utf8;

verus! {

/// A chunk of an indexed document.
#[derive(Debug)]
pub struct IndexedDoc {
    pub id: String,
    pub path: String,
    pub chunk_index: usize,
    pub content: String,
    pub category: String,
    pub updated_at: String,
    pub hash: Option<String>,
}

/// What an `IndexedDoc` says.
pub struct DocRow {
    pub id: Seq<char>,
    pub path: Seq<char>,
    pub chunk_index: usize,
    pub content: Seq<char>,
    pub category: Seq<char>,
    pub updated_at: Seq<char>,
    pub hash: Option<Seq<char>>,
}

impl View for IndexedDoc {
    type V = DocRow;

    open spec fn view(&self) -> DocRow {
        DocRow {
            id: self.id@,
            path: self.path@,
            chunk_index: self.chunk_index,
            content: self.content@,
            category: self.category@,
            updated_at: self.updated_at@,
            hash: opt_text(self.hash),
        }
    }
}

/// A chunk that a search found.
#[derive(Debug)]
pub struct DocHit {
    pub id: String,
    pub path: String,
    pub chunk_index: usize,
    pub content: String,
    pub category: String,
    /// How well it matched, as the bits of a 64-bit floating-point number.
    pub score: u64,
}

impl Clone for DocHit {
    fn clone(&self) -> (r: Self)
        ensures
            r == *self,
    {
        DocHit {
            id: self.id.clone(),
            path: self.path.clone(),
            chunk_index: self.chunk_index,
            content: self.content.clone(),
            category: self.category.clone(),
            score: self.score,
        }
    }
}

/// The SHA-256 digest of some bytes.
pub uninterp spec fn sha256_of(data: Seq<u8>) -> Seq<u8>;

/// Calls `Sha256::digest`. The digest is named; it has 32 bytes.
#[verifier::external_body]
fn sha256(data: &[u8]) -> (r: Vec<u8>)
    ensures
        r@ == sha256_of(data@),
        r@.len() == 32,
{
    Sha256::digest(data).to_vec()
}

/// A hex digit.
pub open spec fn hex_digit(d: u8) -> char {
    if d < 10 {
        (48 + d) as char
    } else {
        (87 + d) as char
    }
}

/// Two hex digits for each byte.
pub open spec fn hex_of(bytes: Seq<u8>) -> Seq<char> {
    Seq::new(
        2 * bytes.len(),
        |i: int|
            if i % 2 == 0 {
                hex_digit((bytes[i / 2] / 16) as u8)
            } else {
                hex_digit((bytes[i / 2] % 16) as u8)
            },
    )
}

/// The hash of a text: the first eight bytes of the SHA-256 digest of its UTF-8 form, in hex.
pub open spec fn hash_of(text: Seq<char>) -> Seq<char> {
    hex_of(sha256_of(encode_utf8(text)).take(8))
}

fn to_hex_digit(d: u8) -> (r: char)
    requires
        d < 16,
    ensures
        r == hex_digit(d),
{
    if d < 10 {
        (48 + d) as char
    } else {
        (87 + d) as char
    }
}

/// The first eight bytes of a digest in hex.
pub fn hash_text(digest: &Vec<u8>) -> (r: String)
    requires
        digest@.len() >= 8,
    ensures
        r@ == hex_of(digest@.take(8)),
{
    let ghost bytes = digest@.take(8);
    let mut r = String::new();
    let mut i: usize = 0;
    while i < 8
        invariant
            i <= 8,
            digest@.len() >= 8,
            bytes == digest@.take(8),
            r@ == hex_of(bytes).take(2 * i),
        decreases 8 - i,
    {
        let b: u8 = digest[i];
        r.push(to_hex_digit(b / 16));
        r.push(to_hex_digit(b % 16));
        proof {
            assert(bytes[i as int] == b);
            assert((2 * i) / 2 == i && (2 * i + 1) / 2 == i);
            assert(hex_of(bytes)[2 * i] == hex_digit((b / 16) as u8));
            assert(hex_of(bytes)[2 * i + 1] == hex_digit((b % 16) as u8));
            assert(r@ =~= hex_of(bytes).take(2 * (i + 1)));
        }
        i = i + 1;
    }
    proof {
        assert(hex_of(bytes).take(16) =~= hex_of(bytes));
    }
    r
}

/// The hash of a text.
pub fn content_hash(text: &str) -> (r: String)
    ensures
        r@ == hash_of(text@),
        r@.len() == 16,
{
    hash_text(&sha256(text.as_bytes()))
}

/// The table of indexed documents.
pub struct DocTable {
    pub rows: Vec<IndexedDoc>,
}

impl View for DocTable {
    type V = Seq<DocRow>;

    open spec fn view(&self) -> Seq<DocRow> {
        Seq::new(self.rows@.len(), |i: int| self.rows@[i]@)
    }
}

/// The rows that are not of `path`.
pub open spec fn without_path(rows: Seq<DocRow>, path: Seq<char>) -> Seq<DocRow> {
    rows.filter(|r: DocRow| r.path != path)
}

/// The hash stored with the first chunk of `path`.
pub open spec fn stored_hash(rows: Seq<DocRow>, path: Seq<char>) -> Option<Seq<char>>
    decreases rows.len(),
{
    if rows.len() == 0 {
        None
    } else if rows[0].path == path && rows[0].chunk_index == 0 {
        rows[0].hash
    } else {
        stored_hash(rows.skip(1), path)
    }
}

/// The rows of a document's chunks.
pub open spec fn chunk_rows(
    path: Seq<char>,
    chunks: Seq<Seq<char>>,
    category: Seq<char>,
    now: Seq<char>,
    hash: Seq<char>,
) -> Seq<DocRow> {
    Seq::new(
        chunks.len(),
        |i: int|
            DocRow {
                id: path + ":"@ + decimal(i as nat),
                path,
                chunk_index: i as usize,
                content: chunks[i],
                category,
                updated_at: now,
                hash: Some(hash),
            },
    )
}

/// Whether content needs indexing: it is not blank and its hash is not the stored one.
pub open spec fn needs_indexing(rows: Seq<DocRow>, path: Seq<char>, content: Seq<char>) -> bool {
    trimmed(content).len() > 0 && stored_hash(rows, path) != Some(hash_of(content))
}

/// The table after content came in for a path.
pub open spec fn content_indexed(
    rows: Seq<DocRow>,
    path: Seq<char>,
    content: Seq<char>,
    chunks: Seq<Seq<char>>,
    category: Seq<char>,
    now: Seq<char>,
) -> Seq<DocRow> {
    if trimmed(content).len() == 0 {
        without_path(rows, path)
    } else if needs_indexing(rows, path, content) {
        without_path(rows, path) + chunk_rows(path, chunks, category, now, hash_of(content))
    } else {
        rows
    }
}

impl DocTable {
    /// An empty table.
    pub fn new() -> (r: Self)
        ensures
            r@ == Seq::<DocRow>::empty(),
    {
        let r = DocTable { rows: Vec::new() };
        assert(r@ =~= Seq::<DocRow>::empty());
        r
    }

    fn hash_at(&self, path: &str) -> (r: Option<String>)
        ensures
            opt_text(r) == stored_hash(self@, path@),
    {
        let mut i: usize = 0;
        proof {
            assert(self@.skip(0) =~= self@);
        }
        while i < self.rows.len()
            invariant
                i <= self.rows@.len(),
                stored_hash(self@, path@) == stored_hash(self@.skip(i as int), path@),
            decreases self.rows.len() - i,
        {
            proof {
                assert(self@.skip(i as int)[0] == self.rows@[i as int]@);
                assert(self@.skip(i as int).skip(1) =~= self@.skip(i + 1));
            }
            if str_eq(self.rows[i].path.as_str(), path) && self.rows[i].chunk_index == 0 {
                return self.rows[i].hash.clone();
            }
            i = i + 1;
        }
        None
    }
}

/// The columns of documents that are searched.
pub open spec fn doc_columns(rows: Seq<DocRow>) -> Seq<Seq<Seq<char>>> {
    Seq::new(rows.len(), |i: int| seq![rows[i].path, rows[i].content, ""@, ""@])
}

/// Whether a hit is a row with a score.
pub open spec fn is_doc_hit(h: DocHit, row: DocRow, score: u64) -> bool {
    &&& h.id@ == row.id
    &&& h.path@ == row.path
    &&& h.chunk_index == row.chunk_index
    &&& h.content@ == row.content
    &&& h.category@ == row.category
    &&& h.score == score
}

/// Whether hits are what a query finds among documents.
pub open spec fn docs_found(rows: Seq<DocRow>, query: Seq<char>, limit: int, r: Seq<DocHit>) -> bool {
    exists|hits: Seq<(usize, u64)>|
        {
            &&& #[trigger] found(doc_columns(rows), query, limit, hits)
            &&& r.len() == hits.len()
            &&& forall|i: int|
                0 <= i < r.len() ==> is_doc_hit(#[trigger] r[i], rows[hits[i].0 as int], hits[i].1)
        }
}

/// The columns of the documents, row by row, as they are searched.
pub fn doc_rows(t: &DocTable) -> (r: Vec<Vec<String>>)
    ensures
        columns_of(r@) == doc_columns(t@),
        forall|i: int| 0 <= i < r@.len() ==> (#[trigger] r@[i])@.len() == 4,
{
    let mut rows: Vec<Vec<String>> = Vec::new();
    let mut i: usize = 0;
    while i < t.rows.len()
        invariant
            i <= t.rows@.len(),
            rows@.len() == i,
            forall|k: int| 0 <= k < i ==> (#[trigger] rows@[k])@.len() == 4,
            forall|k: int| 0 <= k < i ==> texts((#[trigger] rows@[k])@) == doc_columns(t@)[k],
        decreases t.rows.len() - i,
    {
        rows.push(row_of(t.rows[i].path.as_str(), t.rows[i].content.as_str(), "", ""));
        i = i + 1;
    }
    assert(columns_of(rows@) =~= doc_columns(t@));
    rows
}

/// The chunks at the positions of hits, each with its score.
pub fn doc_hits(t: &DocTable, hits: &Vec<(usize, u64)>) -> (r: Vec<DocHit>)
    requires
        forall|i: int| 0 <= i < hits@.len() ==> (#[trigger] hits@[i]).0 < t@.len(),
    ensures
        r@.len() == hits@.len(),
        forall|i: int|
            0 <= i < r@.len() ==> is_doc_hit(
                #[trigger] r@[i],
                t@[hits@[i].0 as int],
                hits@[i].1,
            ),
{
    let mut r: Vec<DocHit> = Vec::new();
    let mut j: usize = 0;
    while j < hits.len()
        invariant
            j <= hits@.len(),
            forall|k: int| 0 <= k < hits@.len() ==> (#[trigger] hits@[k]).0 < t@.len(),
            r@.len() == j,
            forall|k: int|
                0 <= k < j ==> is_doc_hit(#[trigger] r@[k], t@[hits@[k].0 as int], hits@[k].1),
        decreases hits.len() - j,
    {
        assert(hits@[j as int].0 < t@.len());
        let row = &t.rows[hits[j].0];
        r.push(
            DocHit {
                id: row.id.clone(),
                path: row.path.clone(),
                chunk_index: row.chunk_index,
                content: row.content.clone(),
                category: row.category.clone(),
                score: hits[j].1,
            },
        );
        j = j + 1;
    }
    r
}

/// Searches the documents. `None` where the search fails.
pub fn search_docs(t: &DocTable, query: &str, limit: usize) -> (r: Option<Vec<DocHit>>)
    ensures
        r matches Some(list) ==> docs_found(t@, query@, limit as int, list@),
        fts_of(query@) is None ==> r is Some,
{
    let rows = doc_rows(t);
    match search(&rows, query, limit) {
        Some(hits) => {
            assert(found(doc_columns(t@), query@, limit as int, hits@));
            assert forall|i: int| 0 <= i < hits@.len() implies (#[trigger] hits@[i]).0
                < t@.len() by {
                assert(hits@[i].0 < doc_columns(t@).len());
            }
            Some(doc_hits(t, &hits))
        },
        None => None,
    }
}

/// Removes all chunks of a path.
pub fn unindex_path(t: &mut DocTable, path: &str)
    ensures
        final(t)@ == without_path(old(t)@, path@),
{
    let ghost all = t@;
    let ghost keep = |r: DocRow| r.path != path@;
    let mut old_rows: Vec<IndexedDoc> = Vec::new();
    std::mem::swap(&mut old_rows, &mut t.rows);
    let mut kept: Vec<IndexedDoc> = Vec::new();
    proof {
        reveal(Seq::filter);
        assert(all.take(0) =~= Seq::<DocRow>::empty());
    }
    let ghost mut j: int = 0;
    let ghost rows = old_rows@;
    while old_rows.len() > 0
        invariant
            0 <= j,
            j + old_rows@.len() == rows.len(),
            old_rows@ == rows.skip(j),
            all == Seq::new(rows.len(), |k: int| rows[k]@),
            keep == (|r: DocRow| r.path != path@),
            Seq::new(kept@.len(), |k: int| kept@[k]@) == all.take(j).filter(keep),
        decreases old_rows@.len(),
    {
        let row = old_rows.remove(0);
        proof {
            assert(row == rows[j]);
            assert(all.take(j + 1) =~= all.take(j).push(row@));
            assert(all.take(j + 1).drop_last() =~= all.take(j));
            reveal(Seq::filter);
        }
        if !str_eq(row.path.as_str(), path) {
            let ghost before = kept@;
            kept.push(row);
            assert(Seq::new(kept@.len(), |k: int| kept@[k]@) =~= Seq::new(
                before.len(),
                |k: int| before[k]@,
            ).push(row@));
        }
        proof {
            j = j + 1;
        }
    }
    proof {
        assert(all.take(j) =~= all);
    }
    t.rows = kept;
}

/// Removes a file from the index.
pub fn unindex_file(t: &mut DocTable, path: &str)
    ensures
        final(t)@ == without_path(old(t)@, path@),
{
    unindex_path(t, path)
}

/// Indexes content under a path, given its chunks. Blank content removes what stood there; content
/// whose hash is stored already changes nothing. Gives the number of chunks stored.
pub fn index_content(
    t: &mut DocTable,
    path: &str,
    content: &str,
    chunks: &Vec<String>,
    category: &str,
    now: &str,
) -> (r: usize)
    ensures
        final(t)@ == content_indexed(old(t)@, path@, content@, texts(chunks@), category@, now@),
        r == (if needs_indexing(old(t)@, path@, content@) {
            chunks@.len()
        } else {
            0
        }),
{
    if is_blank(content) {
        unindex_path(t, path);
        return 0;
    }
    let hash = content_hash(content);
    let existing = t.hash_at(path);
    if opt_eq(&existing, hash.as_str()) {
        return 0;
    }
    unindex_path(t, path);
    let ghost base = t@;
    let ghost want = chunk_rows(path@, texts(chunks@), category@, now@, hash@);
    let mut i: usize = 0;
    while i < chunks.len()
        invariant
            i <= chunks@.len(),
            want == chunk_rows(path@, texts(chunks@), category@, now@, hash@),
            t@ == base + want.take(i as int),
        decreases chunks.len() - i,
    {
        let mut id = path.to_owned();
        id.append(":");
        id.append(u64_text(i as u64).as_str());
        let row = IndexedDoc {
            id,
            path: path.to_owned(),
            chunk_index: i,
            content: chunks[i].clone(),
            category: category.to_owned(),
            updated_at: now.to_owned(),
            hash: Some(hash.clone()),
        };
        let ghost before = t@;
        t.rows.push(row);
        proof {
            assert(row@ == want[i as int]);
            assert(t@ =~= before.push(row@));
            assert(t@ =~= base + want.take(i + 1));
        }
        i = i + 1;
    }
    proof {
        assert(want.take(i as int) =~= want);
    }
    chunks.len()
}

/// Number of indexed chunks.
pub fn count_docs(t: &DocTable) -> (r: usize)
    ensures
        r == t@.len(),
{
    t.rows.len()
}

/// After removing a path nothing of it is left, and the rest stays in order.
pub proof fn unindexed_path_is_gone(rows: Seq<DocRow>, path: Seq<char>, i: int)
    requires
        0 <= i < without_path(rows, path).len(),
    ensures
        without_path(rows, path)[i].path != path,
        rows.contains(without_path(rows, path)[i]),
{
    rows.lemma_filter_pred(|r: DocRow| r.path != path, i);
    let x = without_path(rows, path)[i];
    assert(without_path(rows, path).contains(x));
    rows.lemma_filter_contains_rev(|r: DocRow| r.path != path, x);
}

proof fn stored_hash_after_prefix(a: Seq<DocRow>, b: Seq<DocRow>, path: Seq<char>)
    requires
        forall|i: int| 0 <= i < a.len() ==> (#[trigger] a[i]).path != path,
    ensures
        stored_hash(a + b, path) == stored_hash(b, path),
    decreases a.len(),
{
    if a.len() == 0 {
        assert(a + b =~= b);
    } else {
        let rest = a.skip(1);
        assert((a + b).skip(1) =~= rest + b);
        assert((a + b)[0] == a[0]);
        assert forall|i: int| 0 <= i < rest.len() implies (#[trigger] rest[i]).path != path by {
            assert(rest[i] == a[i + 1]);
        }
        stored_hash_after_prefix(rest, b, path);
    }
}

/// Content that was indexed with at least one chunk is not indexed again while it stays the same.
pub proof fn unchanged_content_is_skipped(
    rows: Seq<DocRow>,
    path: Seq<char>,
    content: Seq<char>,
    chunks: Seq<Seq<char>>,
    category: Seq<char>,
    now: Seq<char>,
)
    requires
        trimmed(content).len() > 0,
        chunks.len() > 0,
    ensures
        !needs_indexing(
            content_indexed(rows, path, content, chunks, category, now),
            path,
            content,
        ),
{
    if needs_indexing(rows, path, content) {
        let base = without_path(rows, path);
        let new = chunk_rows(path, chunks, category, now, hash_of(content));
        assert forall|i: int| 0 <= i < base.len() implies (#[trigger] base[i]).path != path by {
            unindexed_path_is_gone(rows, path, i);
        }
        stored_hash_after_prefix(base, new, path);
        assert(new[0].path == path && new[0].chunk_index == 0);
    }
}

/// After content that needed indexing came in, each chunk of it is in the table: for every number
/// below that of the chunks there is exactly one row of the path with that number, and its content is
/// that chunk.
pub proof fn each_chunk_is_in_the_table(
    rows: Seq<DocRow>,
    path: Seq<char>,
    content: Seq<char>,
    chunks: Seq<Seq<char>>,
    category: Seq<char>,
    now: Seq<char>,
    i: int,
)
    requires
        needs_indexing(rows, path, content),
        0 <= i < chunks.len() <= usize::MAX,
    ensures
        ({
            let after = content_indexed(rows, path, content, chunks, category, now);
            exists|k: int|
                0 <= k < after.len() && (#[trigger] after[k]).path == path && after[k].chunk_index == i
                    && after[k].content == chunks[i] && after[k].id == path + ":"@ + decimal(i as nat)
                    && after[k].category == category && after[k].updated_at == now && after[k].hash
                    == Some(hash_of(content)) && forall|j: int|
                    0 <= j < after.len() && (#[trigger] after[j]).path == path
                        && after[j].chunk_index == i ==> j == k
        }),
{
    let base = without_path(rows, path);
    let new = chunk_rows(path, chunks, category, now, hash_of(content));
    let after = content_indexed(rows, path, content, chunks, category, now);
    assert(after == base + new);
    let k = base.len() + i;
    assert(after[k] == new[i]);
    assert forall|j: int|
        0 <= j < after.len() && (#[trigger] after[j]).path == path && after[j].chunk_index
            == i implies j == k by {
        if j < base.len() {
            unindexed_path_is_gone(rows, path, j);
            assert(after[j] == base[j]);
        } else {
            assert(after[j] == new[j - base.len()]);
        }
    }
}

/// Indexing content changes nothing of other paths, leaves of the path itself only the chunks of the
/// content, and none where the content is blank.
pub proof fn other_paths_stay(
    rows: Seq<DocRow>,
    path: Seq<char>,
    content: Seq<char>,
    chunks: Seq<Seq<char>>,
    category: Seq<char>,
    now: Seq<char>,
    x: DocRow,
)
    requires
        chunks.len() <= usize::MAX,
    ensures
        ({
            let after = content_indexed(rows, path, content, chunks, category, now);
            &&& x.path != path ==> (after.contains(x) <==> rows.contains(x))
            &&& needs_indexing(rows, path, content) && x.path == path && after.contains(x) ==> exists|
                i: int,
            |
                0 <= i < chunks.len() && x.chunk_index == i && x.content == #[trigger] chunks[i]
            &&& trimmed(content).len() == 0 && x.path == path ==> !after.contains(x)
            &&& trimmed(content).len() > 0 && !needs_indexing(rows, path, content) ==> after == rows
        }),
{
    let keep = |r: DocRow| r.path != path;
    let base = without_path(rows, path);
    let new = chunk_rows(path, chunks, category, now, hash_of(content));
    let after = content_indexed(rows, path, content, chunks, category, now);
    if x.path != path && rows.contains(x) {
        let k = choose|k: int| 0 <= k < rows.len() && rows[k] == x;
        rows.lemma_filter_contains(keep, k);
        let j = choose|j: int| 0 <= j < base.len() && base[j] == x;
        if needs_indexing(rows, path, content) {
            assert((base + new)[j] == x);
        }
    }
    if after.contains(x) {
        let k = choose|k: int| 0 <= k < after.len() && after[k] == x;
        if needs_indexing(rows, path, content) {
            if k < base.len() {
                assert(after[k] == base[k]);
                unindexed_path_is_gone(rows, path, k);
            } else {
                let i = k - base.len();
                assert(after[k] == new[i]);
                assert(x.content == chunks[i]);
            }
        } else if trimmed(content).len() == 0 {
            unindexed_path_is_gone(rows, path, k);
        }
    }
}

/// The stored hash of a path is that of the first row with its first chunk.
pub proof fn hash_stands_with_the_first_chunk(rows: Seq<DocRow>, path: Seq<char>, k: int)
    requires
        0 <= k <= rows.len(),
        forall|j: int|
            0 <= j < k ==> !((#[trigger] rows[j]).path == path && rows[j].chunk_index == 0),
    ensures
        k < rows.len() && rows[k].path == path && rows[k].chunk_index == 0 ==> stored_hash(rows, path)
            == rows[k].hash,
        k == rows.len() ==> stored_hash(rows, path) is None,
    decreases rows.len(),
{
    if k > 0 {
        assert(rows[0].path != path || rows[0].chunk_index != 0);
        let rest = rows.skip(1);
        assert forall|j: int| 0 <= j < k - 1 implies !((#[trigger] rest[j]).path == path
            && rest[j].chunk_index == 0) by {
            assert(rest[j] == rows[j + 1]);
        }
        hash_stands_with_the_first_chunk(rest, path, k - 1);
        if k < rows.len() {
            assert(rest[k - 1] == rows[k]);
        }
    }
}

/// Content that is not blank needs indexing exactly if its hash is not the one that is stored.
pub proof fn changed_content_needs_indexing(rows: Seq<DocRow>, path: Seq<char>, content: Seq<char>)
    requires
        trimmed(content).len() > 0,
    ensures
        stored_hash(rows, path) is None ==> needs_indexing(rows, path, content),
        stored_hash(rows, path) matches Some(h) ==> (needs_indexing(rows, path, content) <==> h
            != hash_of(content)),
{
}

/// A byte in hex: two of the sixteen digits, which give it back.
pub proof fn bytes_in_hex(bytes: Seq<u8>, i: int)
    requires
        0 <= i < bytes.len(),
    ensures
        hex_of(bytes).len() == 2 * bytes.len(),
        hex_of(bytes)[2 * i] == "0123456789abcdef"@[bytes[i] as int / 16],
        hex_of(bytes)[2 * i + 1] == "0123456789abcdef"@[bytes[i] as int % 16],
{
    reveal_strlit("0123456789abcdef");
    assert((2 * i) / 2 == i && (2 * i + 1) / 2 == i && (2 * i) % 2 == 0 && (2 * i + 1) % 2 == 1);
    let b = bytes[i];
    assert(b / 16 < 16 && b % 16 < 16);
}

/// The documents that a search finds are rows of the table that match, with their own fields.
pub proof fn found_docs_are_rows(
    rows: Seq<DocRow>,
    query: Seq<char>,
    limit: int,
    r: Seq<DocHit>,
    i: int,
)
    requires
        docs_found(rows, query, limit, r),
        0 <= i < r.len(),
    ensures
        r.len() <= limit,
        fts_of(query) is Some,
        exists|k: int|
            0 <= k < rows.len() && r[i].id@ == (#[trigger] rows[k]).id && r[i].path@ == rows[k].path
                && r[i].chunk_index == rows[k].chunk_index && r[i].content@ == rows[k].content
                && r[i].category@ == rows[k].category && fts_matches(
                seq![rows[k].path, rows[k].content, ""@, ""@],
                fts_of(query)->0,
            ),
{
    let hits = choose|hits: Seq<(usize, u64)>|
        {
            &&& #[trigger] found(doc_columns(rows), query, limit, hits)
            &&& r.len() == hits.len()
            &&& forall|i: int|
                0 <= i < r.len() ==> is_doc_hit(#[trigger] r[i], rows[hits[i].0 as int], hits[i].1)
        };
    let k = hits[i].0 as int;
    assert(is_doc_hit(r[i], rows[k], hits[i].1));
    assert(doc_columns(rows)[k] =~= seq![rows[k].path, rows[k].content, ""@, ""@]);
}

/// A hash has two hex digits for each of the first eight bytes of the digest.
pub proof fn hashes_have_sixteen_digits(text: Seq<char>)
    ensures
        sha256_of(encode_utf8(text)).len() >= 8 ==> hash_of(text).len() == 16,
        sha256_of(encode_utf8(text)).len() >= 8 ==> forall|i: int|
            0 <= i < 8 ==> #[trigger] hash_of(text)[2 * i] == hex_digit(
                (sha256_of(encode_utf8(text))[i] / 16) as u8,
            ) && hash_of(text)[2 * i + 1] == hex_digit(
                (sha256_of(encode_utf8(text))[i] % 16) as u8,
            ),
{
    let digest = sha256_of(encode_utf8(text));
    if digest.len() >= 8 {
        let bytes = digest.take(8);
        assert(hash_of(text).len() == 16);
        assert forall|i: int| 0 <= i < 8 implies #[trigger] hash_of(text)[2 * i] == hex_digit(
            (digest[i] / 16) as u8,
        ) && hash_of(text)[2 * i + 1] == hex_digit((digest[i] % 16) as u8) by {
            assert(bytes[i] == digest[i]);
            assert((2 * i) / 2 == i && (2 * i + 1) / 2 == i);
            assert((2 * i) % 2 == 0 && (2 * i + 1) % 2 == 1);
        }
    }
}

} // verus!
