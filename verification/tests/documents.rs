use snowclaw::memory::doc_index::{
    content_hash, count_docs, doc_hits, doc_rows, hash_text, index_content, search_docs,
    unindex_file, DocTable,
};
use snowclaw::memory::file_indexer::{index_configured_files, resolve_patterns, ReadFile};
use snowclaw::memory::fts::fts_query;

const NOW: &str = "2025-01-01T00:00:00+00:00";

fn index(t: &mut DocTable, path: &str, content: &str, category: &str) -> usize {
    index_content(t, path, content, &vec![content.to_string()], category, NOW)
}

#[test]
fn index_small_file() {
    let mut t = DocTable::new();
    let chunks = index(&mut t, "test.md", "Hello world, this is a test file.", "document");
    assert_eq!(chunks, 1);
    assert_eq!(count_docs(&t), 1);
}

#[test]
fn chunks_are_numbered() {
    let mut t = DocTable::new();
    let chunks = vec!["one".to_string(), "two".to_string(), "three".to_string()];
    assert_eq!(index_content(&mut t, "big.md", "one two three", &chunks, "document", NOW), 3);
    assert_eq!(count_docs(&t), 3);
    assert_eq!(t.rows[2].id, "big.md:2");
    assert_eq!(t.rows[2].chunk_index, 2);
    assert_eq!(t.rows[0].hash, t.rows[2].hash);
}

#[test]
fn index_empty_file_removes_existing() {
    let mut t = DocTable::new();
    index(&mut t, "test.md", "some content here", "document");
    assert_eq!(count_docs(&t), 1);

    let chunks = index(&mut t, "test.md", "", "document");
    assert_eq!(chunks, 0);
    assert_eq!(count_docs(&t), 0);
}

#[test]
fn index_unchanged_file_skips() {
    let mut t = DocTable::new();
    let chunks1 = index(&mut t, "test.md", "stable content here", "document");
    assert_eq!(chunks1, 1);

    let chunks2 = index(&mut t, "test.md", "stable content here", "document");
    assert_eq!(chunks2, 0);
}

#[test]
fn index_changed_file_re_indexes() {
    let mut t = DocTable::new();
    index(&mut t, "test.md", "alpha original content", "document");

    let chunks = index(&mut t, "test.md", "beta replacement content", "document");
    assert_eq!(chunks, 1);

    let results = search_docs(&t, "replacement", 10).unwrap();
    assert_eq!(results.len(), 1);

    let results = search_docs(&t, "original", 10).unwrap();
    assert!(results.is_empty());
}

#[test]
fn unindex_file_removes_all_chunks() {
    let mut t = DocTable::new();
    index(&mut t, "test.md", "content to remove", "document");
    assert_eq!(count_docs(&t), 1);

    unindex_file(&mut t, "test.md");
    assert_eq!(count_docs(&t), 0);
}

#[test]
fn unindex_nonexistent_is_noop() {
    let mut t = DocTable::new();
    unindex_file(&mut t, "/nonexistent/path.md");
    assert_eq!(count_docs(&t), 0);
}

#[test]
fn index_content_works() {
    let mut t = DocTable::new();
    let chunks = index(&mut t, "virtual://room/test", "Room description here", "room");
    assert_eq!(chunks, 1);

    let results = search_docs(&t, "Room description", 10).unwrap();
    assert_eq!(results.len(), 1);
    assert_eq!(results[0].category, "room");
}

#[test]
fn index_content_change_detection() {
    let mut t = DocTable::new();
    index(&mut t, "v://test", "content v1", "note");

    let chunks = index(&mut t, "v://test", "content v1", "note");
    assert_eq!(chunks, 0);

    let chunks = index(&mut t, "v://test", "content v2", "note");
    assert_eq!(chunks, 1);
}

#[test]
fn search_finds_content() {
    let mut t = DocTable::new();
    index(&mut t, "rust.md", "Rust is a systems programming language", "document");

    let results = search_docs(&t, "Rust programming", 10).unwrap();
    assert_eq!(results.len(), 1);
    assert!(f64::from_bits(results[0].score) > 0.0);
}

#[test]
fn doc_index_search_empty_query() {
    let t = DocTable::new();
    assert!(search_docs(&t, "", 10).unwrap().is_empty());
    assert!(search_docs(&t, "   ", 10).unwrap().is_empty());
}

#[test]
fn doc_index_search_no_match() {
    let mut t = DocTable::new();
    index(&mut t, "test.md", "Rust content", "document");

    let results = search_docs(&t, "javascript", 10).unwrap();
    assert!(results.is_empty());
}

#[test]
fn doc_index_search_respects_limit() {
    let mut t = DocTable::new();
    for i in 0..20 {
        index(
            &mut t,
            &format!("v://doc_{i}"),
            &format!("common keyword document number {i}"),
            "document",
        );
    }

    let results = search_docs(&t, "common keyword", 5).unwrap();
    assert!(results.len() <= 5);
    assert_eq!(search_docs(&t, "common keyword", 50).unwrap().len(), 20);
}

#[test]
fn doc_index_search_with_double_quotes_does_not_error() {
    let mut t = DocTable::new();
    index(&mut t, "v://test.md", "Rust systems programming guide content", "document");

    let results = search_docs(&t, r#"say "hello" world"#, 10).unwrap();
    assert!(results.len() <= 10);
}

#[test]
fn better_matches_come_first() {
    let mut t = DocTable::new();
    index(&mut t, "a", "rust and many other words that dilute the match a great deal", "d");
    index(&mut t, "b", "rust rust", "d");
    let results = search_docs(&t, "rust", 10).unwrap();
    assert_eq!(results[0].path, "b");
    assert!(f64::from_bits(results[0].score) >= f64::from_bits(results[1].score));
}

#[test]
fn content_hash_deterministic() {
    assert_eq!(content_hash("hello"), content_hash("hello"));
}

#[test]
fn content_hash_different_inputs() {
    assert_ne!(content_hash("hello"), content_hash("world"));
}

#[test]
fn content_hash_format() {
    let h = content_hash("test");
    assert_eq!(h.len(), 16);
}

#[test]
fn content_hash_known_digest() {
    assert_eq!(content_hash("test"), "9f86d081884c7d65");
    assert_eq!(hash_text(&vec![0, 1, 15, 16, 255, 128, 9, 10, 77]), "00010f10ff80090a");
}

#[test]
fn index_and_search_unicode() {
    let mut t = DocTable::new();
    index(&mut t, "v://unicode", "Unicode document with development notes", "document");

    let results = search_docs(&t, "development", 10).unwrap();
    assert!(!results.is_empty());
    assert!(results[0].content.contains("Unicode"));
}

#[test]
fn queries_are_quoted() {
    assert_eq!(fts_query("say \"hi\" \"\""), Some("\"say\" OR \"hi\"".to_string()));
    assert_eq!(fts_query(" \" "), None);
}

fn file(path: &str, content: &str) -> ReadFile {
    ReadFile {
        path: path.to_string(),
        content: content.to_string(),
        chunks: vec![content.to_string()],
    }
}

#[test]
fn empty_patterns_indexes_nothing() {
    let mut t = DocTable::new();
    let chunks = index_configured_files(&mut t, &vec![], NOW);
    assert_eq!(chunks, 0);
}

#[test]
fn skips_unchanged_on_reindex() {
    let mut t = DocTable::new();
    let files = vec![file("test.md", "Stable content here.")];

    let chunks1 = index_configured_files(&mut t, &files, NOW);
    assert_eq!(chunks1, 1);

    let chunks2 = index_configured_files(&mut t, &files, NOW);
    assert_eq!(chunks2, 0);
}

#[test]
fn re_indexes_changed_files() {
    let mut t = DocTable::new();
    index_configured_files(&mut t, &vec![file("test.md", "Original content here.")], NOW);

    let chunks =
        index_configured_files(&mut t, &vec![file("test.md", "Updated content now.")], NOW);
    assert_eq!(chunks, 1);

    let results = search_docs(&t, "Updated", 10).unwrap();
    assert_eq!(results.len(), 1);
}

#[test]
fn multiple_patterns() {
    let mut t = DocTable::new();
    let files =
        vec![file("README.md", "Project readme file."), file("MEMORY.md", "Agent memory content.")];

    let chunks = index_configured_files(&mut t, &files, NOW);
    assert_eq!(chunks, 2);
    assert_eq!(count_docs(&t), 2);
}

#[test]
fn matched_files_come_once_and_in_order() {
    let matches = vec![
        "b.md".to_string(),
        "a/z.md".to_string(),
        "b.md".to_string(),
        "a.md".to_string(),
    ];
    assert_eq!(resolve_patterns(&matches), vec!["a/z.md", "a.md", "b.md"]);
}

#[test]
fn doc_columns_are_searched_in_order() {
    let mut t = DocTable::new();
    index(&mut t, "a.md", "alpha", "document");
    index(&mut t, "b.md", "beta", "note");
    assert_eq!(doc_rows(&t), vec![vec!["a.md", "alpha", "", ""], vec!["b.md", "beta", "", ""]]);
}

#[test]
fn doc_hits_carry_their_rows_and_scores() {
    let mut t = DocTable::new();
    index(&mut t, "a.md", "alpha", "document");
    index(&mut t, "b.md", "beta", "note");
    let hits = doc_hits(&t, &vec![(1, 2.5f64.to_bits())]);
    assert_eq!(hits.len(), 1);
    assert_eq!(hits[0].id, "b.md:0");
    assert_eq!(hits[0].content, "beta");
    assert_eq!(hits[0].category, "note");
    assert_eq!(f64::from_bits(hits[0].score), 2.5);
}

#[test]
fn paths_sort_part_by_part() {
    let paths = |list: &[&str]| list.iter().map(|p| p.to_string()).collect::<Vec<String>>();
    let given = ["b", "+x/a", "../a", "/z", "./a", "a//b", "a/b", "a/./b", "a.b", "a"];
    let mut expected: Vec<std::path::PathBuf> = given.iter().map(|p| p.into()).collect();
    expected.sort();
    expected.dedup();
    let expected: Vec<String> =
        expected.iter().map(|p| p.to_str().unwrap().to_string()).collect();
    assert_eq!(resolve_patterns(&paths(&given)), expected);
    assert_eq!(
        expected,
        vec!["/z", "./a", "../a", "+x/a", "a", "a//b", "a.b", "b"]
    );
}
