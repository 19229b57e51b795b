//! Full-text search.

use crate::order::{filter_holds, filter_map_holds, filter_of_all};
use crate::score::score_rank;
use crate::text::pattern::{join, joined};
use crate::text::space::{split_whitespace, words};
use crate::text::{from_chars, opt_text, texts, to_chars};
use rusqlite::Connection;
use vstd::prelude::*;

verus! {

/// `s` without double quotes.
pub open spec fn unquoted(s: Seq<char>) -> Seq<char> {
    s.filter(|c: char| c != '"')
}

/// The term that matches a word: the word in double quotes, none where nothing is left of it.
pub open spec fn term_of(w: Seq<char>) -> Option<Seq<char>> {
    if unquoted(w).len() == 0 {
        None
    } else {
        Some(seq!['"'] + unquoted(w) + seq!['"'])
    }
}

/// The terms of a query, in order.
pub open spec fn terms(query: Seq<char>) -> Seq<Seq<char>> {
    words(query).filter_map(|w: Seq<char>| term_of(w))
}

/// The full-text form of a query: any of its terms. None where it has no term.
pub open spec fn fts_of(query: Seq<char>) -> Option<Seq<char>> {
    if terms(query).len() == 0 {
        None
    } else {
        Some(joined(terms(query), " OR "@))
    }
}

fn without_quotes(w: &str) -> (r: String)
    ensures
        r@ == unquoted(w@),
{
    let cs = to_chars(w);
    let ghost keep = |c: char| c != '"';
    let mut out: Vec<char> = Vec::new();
    let mut i: usize = 0;
    proof {
        assert(w@.take(0) =~= Seq::<char>::empty());
        reveal(Seq::filter);
    }
    while i < cs.len()
        invariant
            i <= cs@.len(),
            cs@ == w@,
            keep == (|c: char| c != '"'),
            out@ == w@.take(i as int).filter(keep),
        decreases cs.len() - i,
    {
        proof {
            assert(w@.take(i + 1) =~= w@.take(i as int).push(w@[i as int]));
            reveal(Seq::filter);
            assert(w@.take(i + 1).drop_last() =~= w@.take(i as int));
        }
        if cs[i] != '"' {
            out.push(cs[i]);
        }
        i = i + 1;
    }
    proof {
        assert(w@.take(i as int) =~= w@);
        assert(out@.subrange(0, out@.len() as int) =~= out@);
    }
    let n: usize = out.len();
    from_chars(&out, 0, n)
}

/// The full-text form of a query.
pub fn fts_query(query: &str) -> (r: Option<String>)
    ensures
        opt_text(r) == fts_of(query@),
{
    let ws = split_whitespace(query);
    let ghost all = texts(ws@);
    let ghost f = |w: Seq<char>| term_of(w);
    let mut ts: Vec<String> = Vec::new();
    let mut i: usize = 0;
    proof {
        assert(texts(ts@) =~= all.take(0).filter_map(f));
    }
    while i < ws.len()
        invariant
            i <= ws@.len(),
            all == texts(ws@),
            f == (|w: Seq<char>| term_of(w)),
            texts(ts@) == all.take(i as int).filter_map(f),
        decreases ws.len() - i,
    {
        proof {
            all.lemma_filter_map_take_succ(f, i as int);
            assert(all[i as int] == ws@[i as int]@);
        }
        let clean = without_quotes(ws[i].as_str());
        if !clean.as_str().is_empty() {
            let ghost before = ts@;
            let mut t = String::new();
            t.push('"');
            t.append(clean.as_str());
            t.push('"');
            proof {
                assert(t@ =~= seq!['"'] + clean@ + seq!['"']);
            }
            ts.push(t);
            assert(texts(ts@) =~= texts(before).push(t@));
        }
        i = i + 1;
    }
    proof {
        assert(all.take(i as int) =~= all);
    }
    if ts.len() == 0 {
        assert(texts(ts@).len() == 0);
        None
    } else {
        assert(texts(ts@).len() > 0);
        Some(join(&ts, " OR "))
    }
}

/// Whether the columns of a row match a full-text query.
pub uninterp spec fn fts_matches(columns: Seq<Seq<char>>, query: Seq<char>) -> bool;

/// The columns of rows.
pub open spec fn columns_of(rows: Seq<Vec<String>>) -> Seq<Seq<Seq<char>>> {
    Seq::new(rows.len(), |i: int| texts(rows[i]@))
}

/// Whether hits, given by their positions and scores, are what a full-text query finds among rows:
/// each matches, none comes twice, the best come first, and where there are fewer than asked for none
/// is missing.
pub open spec fn finds(
    rows: Seq<Seq<Seq<char>>>,
    query: Seq<char>,
    limit: int,
    hits: Seq<(usize, u64)>,
) -> bool {
    &&& hits.len() <= limit
    &&& forall|i: int|
        0 <= i < hits.len() ==> (#[trigger] hits[i]).0 < rows.len() && fts_matches(
            rows[hits[i].0 as int],
            query,
        )
    &&& forall|i: int, j: int|
        0 <= i < j < hits.len() ==> (#[trigger] hits[i]).0 != (#[trigger] hits[j]).0 && score_rank(
            hits[i].1,
        ) >= score_rank(hits[j].1)
    &&& hits.len() < limit ==> forall|p: int|
        0 <= p < rows.len() && fts_matches(#[trigger] rows[p], query) ==> exists|i: int|
            0 <= i < hits.len() && (#[trigger] hits[i]).0 == p
}

/// Puts the rows into an FTS5 table of a SQLite database in memory and runs a `MATCH` query on it,
/// ordered by `bm25`. Which rows match is named, row by row; the scores are not, for they are
/// computed in floating point. `None` where SQLite reports an error.
#[verifier::external_body]
fn full_text_search(rows: &Vec<Vec<String>>, query: &str, limit: usize) -> (r: Option<
    Vec<(usize, u64)>,
>)
    requires
        forall|i: int| 0 <= i < rows@.len() ==> (#[trigger] rows@[i])@.len() == 4,
    ensures
        r matches Some(hits) ==> hits@.len() <= limit,
        r matches Some(hits) ==> forall|i: int|
            0 <= i < hits@.len() ==> (#[trigger] hits@[i]).0 < rows@.len() && fts_matches(
                columns_of(rows@)[hits@[i].0 as int],
                query@,
            ),
        r matches Some(hits) ==> forall|i: int, j: int|
            0 <= i < j < hits@.len() ==> (#[trigger] hits@[i]).0 != (#[trigger] hits@[j]).0
                && score_rank(hits@[i].1) >= score_rank(hits@[j].1),
        r matches Some(hits) ==> hits@.len() < limit ==> forall|p: int|
            0 <= p < rows@.len() && fts_matches(#[trigger] columns_of(rows@)[p], query@)
                ==> exists|i: int| 0 <= i < hits@.len() && (#[trigger] hits@[i]).0 == p,
{
    let db = Connection::open_in_memory().ok()?;
    db.execute_batch("CREATE VIRTUAL TABLE t USING fts5(a, b, c, d)").ok()?;
    let mut insert = db.prepare("INSERT INTO t(rowid, a, b, c, d) VALUES (?1, ?2, ?3, ?4, ?5)").ok()?;
    for (i, row) in rows.iter().enumerate() {
        insert.execute((i as i64, &row[0], &row[1], &row[2], &row[3])).ok()?;
    }
    let mut select = db.prepare(
        "SELECT rowid, -bm25(t) FROM t WHERE t MATCH ?1 ORDER BY bm25(t) LIMIT ?2",
    ).ok()?;
    let hits = select.query_map((query, limit as i64), |r| {
        Ok((r.get::<_, i64>(0)? as usize, r.get_ref(1)?.as_f64()?.to_bits()))
    }).ok()?;
    hits.collect::<Result<_, _>>().ok()
}

/// Whether hits are what a query finds among rows. One without terms finds nothing.
pub open spec fn found(
    rows: Seq<Seq<Seq<char>>>,
    query: Seq<char>,
    limit: int,
    hits: Seq<(usize, u64)>,
) -> bool {
    match fts_of(query) {
        Some(q) => finds(rows, q, limit, hits),
        None => hits.len() == 0,
    }
}

/// Searches rows of four columns. `None` where the search fails.
pub fn search(rows: &Vec<Vec<String>>, query: &str, limit: usize) -> (r: Option<Vec<(usize, u64)>>)
    requires
        forall|i: int| 0 <= i < rows@.len() ==> (#[trigger] rows@[i])@.len() == 4,
    ensures
        r matches Some(hits) ==> found(columns_of(rows@), query@, limit as int, hits@),
        fts_of(query@) is None ==> r is Some,
{
    match fts_query(query) {
        Some(q) => full_text_search(rows, q.as_str(), limit),
        None => Some(Vec::new()),
    }
}

/// What a search gave, given its outcome: nothing where it failed.
pub open spec fn listed<T>(outcome: Option<Vec<T>>) -> Seq<T> {
    match outcome {
        Some(list) => list@,
        None => Seq::empty(),
    }
}

/// What a search gave, given its outcome: nothing where it failed.
pub fn or_nothing<T>(outcome: Option<Vec<T>>) -> (r: Vec<T>)
    ensures
        r@ == listed(outcome),
{
    match outcome {
        Some(list) => list,
        None => Vec::new(),
    }
}

/// A row of four columns.
pub fn row_of(a: &str, b: &str, c: &str, d: &str) -> (r: Vec<String>)
    ensures
        texts(r@) == seq![a@, b@, c@, d@],
        r@.len() == 4,
{
    let mut r: Vec<String> = Vec::new();
    r.push(a.to_owned());
    r.push(b.to_owned());
    r.push(c.to_owned());
    r.push(d.to_owned());
    assert(texts(r@) =~= seq![a@, b@, c@, d@]);
    r
}

/// A column, empty where there is no text.
pub open spec fn column(t: Option<Seq<char>>) -> Seq<char> {
    match t {
        Some(t) => t,
        None => ""@,
    }
}

/// A column, empty where there is no text.
pub fn column_text(t: &Option<String>) -> (r: &str)
    ensures
        r@ == column(opt_text(*t)),
{
    match t {
        Some(t) => t.as_str(),
        None => "",
    }
}

/// A term holds double quotes at its two ends and nowhere between, whatever was asked for.
pub proof fn terms_are_quoted(query: Seq<char>, i: int)
    requires
        0 <= i < terms(query).len(),
    ensures
        ({
            let t = terms(query)[i];
            &&& t.len() > 2
            &&& t[0] == '"' && t.last() == '"'
            &&& forall|j: int| 0 < j < t.len() - 1 ==> t[j] != '"'
        }),
{
    let f = |w: Seq<char>| term_of(w);
    let t = terms(query)[i];
    words(query).lemma_filter_map_contains(f, t);
    assert(terms(query).contains(t));
    let w = choose|w: Seq<char>| words(query).contains(w) && f(w) == Some(t);
    let c = unquoted(w);
    let keep = |c: char| c != '"';
    assert forall|j: int| 0 < j < t.len() - 1 implies t[j] != '"' by {
        assert(t[j] == c[j - 1]);
        w.lemma_filter_pred(keep, j - 1);
    }
}

/// The terms of a query are its words in quotes, without the quotes that they held; a word that holds
/// nothing but quotes is no term.
pub proof fn words_become_terms(query: Seq<char>, t: Seq<char>)
    ensures
        terms(query).contains(t) <==> exists|w: Seq<char>|
            #[trigger] words(query).contains(w) && unquoted(w).len() > 0 && t == seq!['"'] + unquoted(w)
                + seq!['"'],
        fts_of(query) is None <==> forall|w: Seq<char>| #[trigger]
            words(query).contains(w) ==> unquoted(w).len() == 0,
        fts_of(query) is Some ==> fts_of(query)->0 == joined(terms(query), " OR "@),
{
    let f = |w: Seq<char>| term_of(w);
    filter_map_holds(words(query), f, t);
    if terms(query).contains(t) {
        let w = choose|w: Seq<char>| #[trigger] words(query).contains(w) && f(w) == Some(t);
        assert(words(query).contains(w) && unquoted(w).len() > 0);
    }
    if exists|w: Seq<char>|
        #[trigger] words(query).contains(w) && unquoted(w).len() > 0 && t == seq!['"'] + unquoted(w)
            + seq!['"'] {
        let w = choose|w: Seq<char>|
            #[trigger] words(query).contains(w) && unquoted(w).len() > 0 && t == seq!['"'] + unquoted(
                w,
            ) + seq!['"'];
        assert(f(w) == Some(t));
    }
    if terms(query).len() > 0 {
        let u = terms(query)[0];
        assert(terms(query).contains(u));
        filter_map_holds(words(query), f, u);
        let w = choose|w: Seq<char>| #[trigger] words(query).contains(w) && f(w) == Some(u);
        assert(words(query).contains(w) && unquoted(w).len() > 0);
    } else {
        assert forall|w: Seq<char>| #[trigger] words(query).contains(w) implies unquoted(w).len()
            == 0 by {
            if unquoted(w).len() > 0 {
                let u = term_of(w)->0;
                assert(f(w) == Some(u));
                filter_map_holds(words(query), f, u);
                assert(terms(query).contains(u));
            }
        }
    }
}

/// Taking quotes out of a word leaves its other characters.
pub proof fn only_quotes_go(w: Seq<char>, c: char)
    ensures
        unquoted(w).contains(c) <==> w.contains(c) && c != '"',
        !w.contains('"') ==> unquoted(w) == w,
        unquoted(w.push(c)) == (if c == '"' {
            unquoted(w)
        } else {
            unquoted(w).push(c)
        }),
{
    let keep = |c: char| c != '"';
    filter_holds(w, keep, c);
    if !w.contains('"') {
        assert forall|i: int| 0 <= i < w.len() implies keep(#[trigger] w[i]) by {
            assert(w.contains(w[i]));
        }
        filter_of_all(w, keep);
    }
    reveal(Seq::filter);
    assert(w.push(c).drop_last() =~= w);
}

} // verus!
