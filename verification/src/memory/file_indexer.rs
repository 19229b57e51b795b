//! Indexing of the files of the workspace.

use super::doc_index::{
    content_indexed, each_chunk_is_in_the_table, index_content, needs_indexing, other_paths_stay,
    DocRow, DocTable,
};
use crate::order::{
    first_difference_decides, lex_antisymmetric, lex_le, lex_transitive, precedes, ranked, ranked_is_permutation,
    stable_order, SortKey, TextKey,
};
use crate::text::pattern::{split, split_on};
use crate::text::{str_eq, texts, to_chars};
use vstd::prelude::*;

verus! {

/// A part of a path as it sorts: `..` comes before every name, and a name that begins another comes
/// before it. Empty parts and `.` do not count.
pub open spec fn part_key(part: Seq<char>) -> Seq<char> {
    if part.len() == 0 || part == "."@ {
        Seq::empty()
    } else if part == ".."@ {
        seq!['\u{3}']
    } else {
        seq!['\u{4}'] + part + seq!['\0']
    }
}

/// Parts of a path as they sort: one after the other.
pub open spec fn parts_key(parts: Seq<Seq<char>>) -> Seq<char>
    decreases parts.len(),
{
    if parts.len() == 0 {
        Seq::empty()
    } else {
        parts_key(parts.drop_last()) + part_key(parts.last())
    }
}

/// Where a path begins, as it sorts: at the root, in the current directory where it says so, or
/// anywhere else.
pub open spec fn start_key(path: Seq<char>) -> Seq<char> {
    if path.len() > 0 && path[0] == '/' {
        seq!['\u{1}']
    } else if split_on(path, '/')[0] == "."@ {
        seq!['\u{2}']
    } else {
        Seq::empty()
    }
}

/// A path as it sorts: part by part. Paths with the same key lead to the same file. No path holds the
/// null character.
pub open spec fn path_key(path: Seq<char>) -> Seq<char> {
    start_key(path) + parts_key(split_on(path, '/'))
}

fn push_all(out: &mut Vec<char>, s: &str)
    ensures
        final(out)@ == old(out)@ + s@,
{
    let cs = to_chars(s);
    let ghost before = out@;
    let mut i: usize = 0;
    assert(before + s@.take(0) =~= before);
    while i < cs.len()
        invariant
            i <= cs@.len(),
            cs@ == s@,
            out@ == before + s@.take(i as int),
        decreases cs.len() - i,
    {
        out.push(cs[i]);
        assert(out@ =~= before + s@.take(i + 1));
        i = i + 1;
    }
    assert(s@.take(i as int) =~= s@);
}

fn push_part(out: &mut Vec<char>, part: &str)
    ensures
        final(out)@ == old(out)@ + part_key(part@),
{
    let ghost before = out@;
    if part.is_empty() || str_eq(part, ".") {
        assert(out@ =~= before + part_key(part@));
    } else if str_eq(part, "..") {
        out.push('\u{3}');
        assert(out@ =~= before + part_key(part@));
    } else {
        out.push('\u{4}');
        push_all(out, part);
        out.push('\0');
        assert(out@ =~= before + part_key(part@));
    }
}

fn key_of(path: &str) -> (r: TextKey)
    ensures
        r.chars@ == path_key(path@),
{
    let parts = split(path, '/');
    let cs = to_chars(path);
    let ghost all = split_on(path@, '/');
    let mut chars: Vec<char> = Vec::new();
    assert(all.len() > 0);
    assert(texts(parts@).len() == parts@.len());
    assert(all[0] == parts@[0]@);
    if cs.len() > 0 && cs[0] == '/' {
        chars.push('\u{1}');
    } else if str_eq(parts[0].as_str(), ".") {
        chars.push('\u{2}');
    }
    let ghost start = start_key(path@);
    let mut i: usize = 0;
    proof {
        assert(chars@ =~= start + parts_key(all.take(0)));
    }
    while i < parts.len()
        invariant
            i <= parts@.len(),
            all == texts(parts@),
            chars@ == start + parts_key(all.take(i as int)),
        decreases parts.len() - i,
    {
        let ghost before = chars@;
        push_part(&mut chars, parts[i].as_str());
        proof {
            assert(all.take(i + 1).drop_last() =~= all.take(i as int));
            assert(all.take(i + 1).last() == parts@[i as int]@);
            assert(chars@ =~= start + parts_key(all.take(i + 1)));
        }
        i = i + 1;
    }
    assert(all.take(i as int) =~= all);
    TextKey { chars }
}

/// Whether a path is the first of those that lead to the same file.
pub open spec fn first_of_its_kind(path: Seq<char>, paths: Seq<Seq<char>>) -> bool {
    exists|k: int|
        {
            &&& 0 <= k < paths.len()
            &&& #[trigger] paths[k] == path
            &&& forall|m: int| 0 <= m < k ==> path_key(#[trigger] paths[m]) != path_key(path)
        }
}

/// Whether a list holds the given paths in order, and of those that lead to the same file only the
/// first.
pub open spec fn sorted_paths(r: Seq<Seq<char>>, paths: Seq<Seq<char>>) -> bool {
    &&& forall|i: int| 0 <= i < r.len() ==> first_of_its_kind(#[trigger] r[i], paths)
    &&& forall|k: int|
        0 <= k < paths.len() ==> exists|i: int|
            0 <= i < r.len() && path_key(#[trigger] r[i]) == path_key(#[trigger] paths[k])
    &&& forall|i: int, j: int|
        0 <= i < j < r.len() ==> lex_le(path_key(#[trigger] r[i]), path_key(#[trigger] r[j]))
            && path_key(r[i]) != path_key(r[j])
}

proof fn first_in_order_is_first(
    all: Seq<Seq<char>>,
    keys: Seq<TextKey>,
    rank: Seq<usize>,
    j: int,
)
    requires
        keys.len() == all.len(),
        all.len() <= usize::MAX,
        ranked(keys, all.len() as int, rank, false),
        forall|k: int| 0 <= k < all.len() ==> (#[trigger] keys[k]).chars@ == path_key(all[k]),
        0 <= j < rank.len(),
        j > 0 ==> path_key(all[rank[j - 1] as int]) != path_key(all[rank[j] as int]),
    ensures
        first_of_its_kind(all[rank[j] as int], all),
{
    let at = rank[j] as int;
    let key = path_key(all[at]);
    ranked_is_permutation(keys, rank, false);
    assert forall|m: int| 0 <= m < at implies path_key(#[trigger] all[m]) != key by {
        assert(rank.contains(m as usize));
        let k = choose|k: int| 0 <= k < rank.len() && rank[k] == m as usize;
        assert(keys[m].chars@ == path_key(all[m]) && keys[at].chars@ == key);
        if path_key(all[m]) == key {
            if k > j {
                assert(precedes(keys, at, m, false));
                TextKey::le_total(keys[m], keys[at]);
            } else {
                let last = rank[j - 1] as int;
                assert(keys[last].chars@ == path_key(all[last]));
                assert(precedes(keys, last, at, false));
                if k < j - 1 {
                    assert(precedes(keys, m, last, false));
                }
                lex_antisymmetric(path_key(all[last]), key);
            }
        }
    }
}

/// The matched files in order, each once.
pub fn resolve_patterns(matches: &Vec<String>) -> (r: Vec<String>)
    ensures
        sorted_paths(texts(r@), texts(matches@)),
{
    let ghost all = texts(matches@);
    let n: usize = matches.len();
    let mut keys: Vec<TextKey> = Vec::new();
    let mut i: usize = 0;
    while i < n
        invariant
            i <= n,
            n == matches@.len(),
            all == texts(matches@),
            keys@.len() == i,
            forall|k: int| 0 <= k < i ==> (#[trigger] keys@[k]).chars@ == path_key(all[k]),
        decreases n - i,
    {
        keys.push(key_of(matches[i].as_str()));
        i = i + 1;
    }
    let idx = stable_order(&keys, false);
    let ghost rank = idx@;
    let mut r: Vec<String> = Vec::new();
    let mut j: usize = 0;
    while j < n
        invariant
            j <= n,
            n == matches@.len(),
            n == keys@.len(),
            all == texts(matches@),
            rank == idx@,
            ranked(keys@, n as int, rank, false),
            forall|k: int| 0 <= k < n ==> (#[trigger] keys@[k]).chars@ == path_key(all[k]),
            r@.len() == 0 <==> j == 0,
            r@.len() > 0 ==> path_key(r@.last()@) == path_key(all[rank[j - 1] as int]),
            forall|k: int|
                0 <= k < j ==> exists|a: int|
                    0 <= a < r@.len() && path_key((#[trigger] r@[a])@) == path_key(
                        all[(#[trigger] rank[k]) as int],
                    ),
            forall|a: int| 0 <= a < r@.len() ==> first_of_its_kind((#[trigger] r@[a])@, all),
            forall|a: int, b: int|
                0 <= a < b < r@.len() ==> lex_le(
                    path_key((#[trigger] r@[a])@),
                    path_key((#[trigger] r@[b])@),
                ) && path_key(r@[a]@) != path_key(r@[b]@),
        decreases n - j,
    {
        let at: usize = idx[j];
        let path = &matches[at];
        let ghost before = r@;
        let repeat = if j == 0 {
            false
        } else {
            keys[at].leq(&keys[idx[j - 1]])
        };
        proof {
            assert(path@ == all[at as int]);
            assert(keys@[at as int].chars@ == path_key(path@));
            if j > 0 {
                let last = rank[j - 1] as int;
                assert(keys@[last].chars@ == path_key(all[last]));
                assert(precedes(keys@, last, at as int, false));
                if repeat {
                    lex_antisymmetric(path_key(all[last]), path_key(path@));
                }
            }
        }
        if !repeat {
            proof {
                if j > 0 {
                    let last = rank[j - 1] as int;
                    assert(path_key(all[last]) != path_key(path@)) by {
                        TextKey::le_total(keys@[last], keys@[at as int]);
                    }
                }
                first_in_order_is_first(all, keys@, rank, j as int);
            }
            r.push(path.clone());
        }
        proof {
            if !repeat {
                assert forall|a: int| 0 <= a < before.len() implies lex_le(
                    path_key((#[trigger] before[a])@),
                    path_key(path@),
                ) && path_key(before[a]@) != path_key(path@) by {
                    let last = path_key(before.last()@);
                    if a < before.len() - 1 {
                        assert(lex_le(path_key(before[a]@), path_key(before[before.len() - 1]@)));
                        lex_transitive(path_key(before[a]@), last, path_key(path@));
                        if path_key(before[a]@) == path_key(path@) {
                            lex_antisymmetric(last, path_key(path@));
                        }
                    }
                }
            }
            assert forall|k: int| 0 <= k < j + 1 implies exists|a: int|
                0 <= a < r@.len() && path_key((#[trigger] r@[a])@) == path_key(
                    all[(#[trigger] rank[k]) as int],
                ) by {
                if k < j {
                    let a = choose|a: int|
                        0 <= a < before.len() && path_key((#[trigger] before[a])@) == path_key(
                            all[rank[k] as int],
                        );
                    assert(r@[a] == before[a]);
                } else {
                    let a = r@.len() - 1;
                    assert(path_key(r@[a]@) == path_key(path@));
                }
            }
        }
        j = j + 1;
    }
    proof {
        let out = texts(r@);
        ranked_is_permutation(keys@, rank, false);
        assert forall|a: int| 0 <= a < out.len() implies first_of_its_kind(#[trigger] out[a], all) by {
            assert(out[a] == r@[a]@);
        }
        assert forall|q: int| 0 <= q < all.len() implies exists|a: int|
            0 <= a < out.len() && path_key(#[trigger] out[a]) == path_key(#[trigger] all[q]) by {
            assert(rank.contains(q as usize));
            let k = choose|k: int| 0 <= k < rank.len() && rank[k] == q as usize;
            let a = choose|a: int|
                0 <= a < r@.len() && path_key((#[trigger] r@[a])@) == path_key(
                    all[rank[k] as int],
                );
            assert(out[a] == r@[a]@);
        }
        assert forall|a: int, b: int| 0 <= a < b < out.len() implies lex_le(
            path_key(#[trigger] out[a]),
            path_key(#[trigger] out[b]),
        ) && path_key(out[a]) != path_key(out[b]) by {
            assert(out[a] == r@[a]@ && out[b] == r@[b]@);
        }
    }
    r
}

/// A file that was read, with its chunks.
pub struct ReadFile {
    pub path: String,
    pub content: String,
    pub chunks: Vec<String>,
}

/// The table after files were indexed in turn.
pub open spec fn files_indexed(t: Seq<DocRow>, files: Seq<ReadFile>, now: Seq<char>) -> Seq<DocRow>
    decreases files.len(),
{
    if files.len() == 0 {
        t
    } else {
        let f = files.last();
        content_indexed(
            files_indexed(t, files.drop_last(), now),
            f.path@,
            f.content@,
            texts(f.chunks@),
            "document"@,
            now,
        )
    }
}

/// The number of chunks stored while files are indexed in turn: unchanged files store none.
pub open spec fn chunks_stored(t: Seq<DocRow>, files: Seq<ReadFile>, now: Seq<char>) -> nat
    decreases files.len(),
{
    if files.len() == 0 {
        0
    } else {
        let f = files.last();
        let before = files_indexed(t, files.drop_last(), now);
        chunks_stored(t, files.drop_last(), now) + (if needs_indexing(before, f.path@, f.content@) {
            f.chunks@.len()
        } else {
            0
        })
    }
}

/// The number of chunks of files.
pub open spec fn chunks_of(files: Seq<ReadFile>) -> nat
    decreases files.len(),
{
    if files.len() == 0 {
        0
    } else {
        chunks_of(files.drop_last()) + files.last().chunks@.len()
    }
}

proof fn chunks_grow(files: Seq<ReadFile>, i: int)
    requires
        0 <= i <= files.len(),
    ensures
        chunks_of(files.take(i)) <= chunks_of(files),
    decreases files.len() - i,
{
    if i < files.len() {
        chunks_grow(files, i + 1);
        assert(files.take(i + 1).drop_last() =~= files.take(i));
    } else {
        assert(files.take(i) =~= files);
    }
}

/// Indexes files that were read. Gives the number of chunks stored.
pub fn index_configured_files(t: &mut DocTable, files: &Vec<ReadFile>, now: &str) -> (r: usize)
    requires
        chunks_of(files@) <= usize::MAX,
    ensures
        final(t)@ == files_indexed(old(t)@, files@, now@),
        r == chunks_stored(old(t)@, files@, now@),
{
    let ghost start = t@;
    let mut total: usize = 0;
    let mut i: usize = 0;
    assert(files@.take(0).len() == 0);
    while i < files.len()
        invariant
            i <= files@.len(),
            chunks_of(files@) <= usize::MAX,
            t@ == files_indexed(start, files@.take(i as int), now@),
            total == chunks_stored(start, files@.take(i as int), now@),
            total <= chunks_of(files@.take(i as int)),
        decreases files.len() - i,
    {
        proof {
            assert(files@.take(i + 1).drop_last() =~= files@.take(i as int));
            assert(files@.take(i + 1).last() == files@[i as int]);
            chunks_grow(files@, i + 1);
        }
        let f = &files[i];
        let stored = index_content(
            t,
            f.path.as_str(),
            f.content.as_str(),
            &f.chunks,
            "document",
            now,
        );
        total = total + stored;
        i = i + 1;
    }
    assert(files@.take(i as int) =~= files@);
    total
}

/// Parts that are empty or stand for the same directory make no difference to where a path leads.
pub proof fn idle_parts_do_not_count(a: Seq<Seq<char>>, b: Seq<Seq<char>>, part: Seq<char>)
    requires
        part.len() == 0 || part == "."@,
    ensures
        parts_key(a + seq![part] + b) == parts_key(a + b),
    decreases b.len(),
{
    let with = a + seq![part] + b;
    let without = a + b;
    if b.len() == 0 {
        assert(with.drop_last() =~= without);
        assert(with.last() == part);
        assert(parts_key(with) =~= parts_key(without));
    } else {
        idle_parts_do_not_count(a, b.drop_last(), part);
        assert(with.drop_last() =~= a + seq![part] + b.drop_last());
        assert(without.drop_last() =~= a + b.drop_last());
        assert(with.last() == b.last() && without.last() == b.last());
    }
}

/// Names lead to different places where they differ, and what leads up comes before any name.
pub proof fn names_lead_apart(a: Seq<char>, b: Seq<char>)
    requires
        a.len() > 0 && a != "."@ && a != ".."@,
        b.len() > 0 && b != "."@ && b != ".."@,
    ensures
        part_key(a) == part_key(b) ==> a == b,
        lex_le(part_key(".."@), part_key(a)) && part_key(".."@) != part_key(a),
        forall|parts: Seq<Seq<char>>, part: Seq<char>|
            #[trigger] parts_key(parts.push(part)) == parts_key(parts) + part_key(part),
{
    let x = part_key(a);
    let y = part_key(b);
    if x == y {
        assert(x.len() == a.len() + 2 && y.len() == b.len() + 2);
        assert(x.subrange(1, x.len() - 1) =~= a);
        assert(y.subrange(1, y.len() - 1) =~= b);
    }
    reveal_strlit("..");
    reveal_strlit(".");
    assert(".."@.len() == 2 && "."@.len() == 1);
    let up = part_key(".."@);
    assert(up == seq!['\u{3}']);
    assert(up[0] == '\u{3}' && x[0] == '\u{4}');
    first_difference_decides(up, x, 0);
    assert forall|parts: Seq<Seq<char>>, part: Seq<char>|
        #[trigger] parts_key(parts.push(part)) == parts_key(parts) + part_key(part) by {
        assert(parts.push(part).drop_last() =~= parts);
    }
}

/// Paths from the root come first, then those from the current directory.
pub proof fn paths_from_the_root_come_first(rest: Seq<char>, other: Seq<char>)
    requires
        other.len() > 0 ==> other[0] != '/',
    ensures
        start_key(seq!['/'] + rest) == seq!['\u{1}'],
        start_key(other) == seq!['\u{2}'] || start_key(other).len() == 0,
        start_key(other) == seq!['\u{2}'] <==> split_on(other, '/')[0] == "."@,
        path_key(other) == start_key(other) + parts_key(split_on(other, '/')),
{
    assert((seq!['/'] + rest)[0] == '/');
}

/// The files that are found are sorted, each once: none that leads to the same place comes twice, and
/// every one is there.
pub proof fn found_files_are_sorted(r: Seq<Seq<char>>, paths: Seq<Seq<char>>, i: int, j: int)
    requires
        sorted_paths(r, paths),
        0 <= i < j < r.len(),
    ensures
        paths.contains(r[i]),
        path_key(r[i]) != path_key(r[j]),
        r[i] != r[j],
        lex_le(path_key(r[i]), path_key(r[j])),
        forall|k: int|
            0 <= k < paths.len() ==> exists|n: int|
                0 <= n < r.len() && path_key(#[trigger] r[n]) == path_key(#[trigger] paths[k]),
{
    assert(first_of_its_kind(r[i], paths));
}

/// A further file that needs indexing has each of its chunks in the table, and rows of other paths
/// stay as they were.
pub proof fn further_files_are_indexed(
    t: Seq<DocRow>,
    files: Seq<ReadFile>,
    f: ReadFile,
    now: Seq<char>,
    i: int,
    x: DocRow,
)
    ensures
        ({
            let before = files_indexed(t, files, now);
            let after = files_indexed(t, files.push(f), now);
            &&& needs_indexing(before, f.path@, f.content@) && 0 <= i < f.chunks@.len() ==> exists|k: int|
                0 <= k < after.len() && (#[trigger] after[k]).path == f.path@ && after[k].chunk_index
                    == i && after[k].content == f.chunks@[i]@ && after[k].category == "document"@
            &&& x.path != f.path@ ==> (after.contains(x) <==> before.contains(x))
            &&& chunks_stored(t, files.push(f), now) == chunks_stored(t, files, now) + (
            if needs_indexing(before, f.path@, f.content@) {
                f.chunks@.len()
            } else {
                0
            })
        }),
        files_indexed(t, Seq::empty(), now) == t,
        chunks_stored(t, Seq::empty(), now) == 0,
{
    let before = files_indexed(t, files, now);
    let after = files_indexed(t, files.push(f), now);
    assert(files.push(f).drop_last() =~= files);
    let chunks = texts(f.chunks@);
    vec_fits(f.chunks);
    other_paths_stay(before, f.path@, f.content@, chunks, "document"@, now, x);
    if needs_indexing(before, f.path@, f.content@) && 0 <= i < f.chunks@.len() {
        each_chunk_is_in_the_table(
            before,
            f.path@,
            f.content@,
            chunks,
            "document"@,
            now,
            i,
        );
        let k = choose|k: int|
            0 <= k < after.len() && (#[trigger] after[k]).path == f.path@ && after[k].chunk_index == i
                && after[k].content == chunks[i] && after[k].id == f.path@ + ":"@
                + crate::text::number::decimal(i as nat) && after[k].category == "document"@
                && after[k].updated_at == now && after[k].hash == Some(
                super::doc_index::hash_of(f.content@),
            ) && forall|j: int|
                0 <= j < after.len() && (#[trigger] after[j]).path == f.path@ && after[j].chunk_index
                    == i ==> j == k;
        assert(after[k].content == f.chunks@[i]@);
    }
}

proof fn vec_fits(v: Vec<String>)
    ensures
        v@.len() <= usize::MAX,
{
    assert(v.len() == v@.len());
}

} // verus!
