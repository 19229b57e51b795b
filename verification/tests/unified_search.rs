use snowclaw::memory::doc_index::{index_content, DocTable};
use snowclaw::memory::message_index::{index_message, IndexableMessage, MessageTable};
use snowclaw::memory::social::{upsert_npub, SocialNpub, SocialTables};
use snowclaw::memory::traits::{MemoryCategory, MemoryEntry};
use snowclaw::memory::unified_search::{
    memory_hits, memory_rows, merge_outcomes, per_source_limit, search_all, unified_recall, SearchTables, UnifiedHit,
};
use snowclaw::score::rank_score;

struct Env {
    memories: Vec<MemoryEntry>,
    social: SocialTables,
    messages: MessageTable,
    docs: DocTable,
}

fn test_env() -> Env {
    Env {
        memories: vec![],
        social: SocialTables::new(),
        messages: MessageTable::new(),
        docs: DocTable::new(),
    }
}

fn recall(env: &Env, query: &str, limit: usize) -> Vec<UnifiedHit> {
    let tables = SearchTables {
        memories: Some(&env.memories),
        social: Some(&env.social),
        messages: Some(&env.messages),
        docs: Some(&env.docs),
    };
    search_all(&tables, query, limit)
}

fn memory(id: &str, key: &str, content: &str) -> MemoryEntry {
    MemoryEntry {
        id: id.to_string(),
        key: key.to_string(),
        content: content.to_string(),
        category: MemoryCategory::Core,
        timestamp: "2025-01-01".to_string(),
        session_id: None,
        score: None,
    }
}

fn contact(name: &str) -> SocialNpub {
    SocialNpub {
        hex_pubkey: "aabb".to_string(),
        display_name: name.to_string(),
        first_seen: 1000,
        first_seen_group: None,
        last_interaction: 2000,
        profile_json: None,
        name_history_json: None,
        notes_json: None,
        owner_notes_json: None,
        preferences_json: None,
        is_owner: false,
    }
}

fn message(content: &str) -> IndexableMessage {
    IndexableMessage {
        event_id: "evt1".to_string(),
        sender_hex: "aabb".to_string(),
        group_id: None,
        content: content.to_string(),
        created_at: 1000,
        kind: 1,
    }
}

fn index(docs: &mut DocTable, path: &str, content: &str) {
    index_content(docs, path, content, &vec![content.to_string()], "document", "2025-01-01");
}

#[test]
fn empty_query_returns_empty() {
    let env = test_env();
    assert!(recall(&env, "", 10).is_empty());
    assert!(recall(&env, "   ", 10).is_empty());
}

#[test]
fn no_data_returns_empty() {
    let env = test_env();
    let results = recall(&env, "anything", 10);
    assert!(results.is_empty());
}

#[test]
fn finds_core_memories() {
    let mut env = test_env();
    env.memories.push(memory("m1", "test_key", "Rust programming language"));

    let results = recall(&env, "Rust programming", 10);
    assert!(!results.is_empty());
    assert!(matches!(results[0], UnifiedHit::Memory(_)));
}

#[test]
fn finds_social_data() {
    let mut env = test_env();
    upsert_npub(&mut env.social, &contact("RustDeveloper"));

    let results = recall(&env, "RustDeveloper", 10);
    assert!(!results.is_empty());
    assert!(results.iter().any(|h| matches!(h, UnifiedHit::Social(_))));
}

#[test]
fn finds_messages() {
    let mut env = test_env();
    index_message(&mut env.messages, &message("Rust async runtime discussion"));

    let results = recall(&env, "async runtime", 10);
    assert!(!results.is_empty());
    assert!(results.iter().any(|h| matches!(h, UnifiedHit::Message(_))));
}

#[test]
fn finds_documents() {
    let mut env = test_env();
    index(&mut env.docs, "v://test.md", "Rust systems programming guide");

    let results = recall(&env, "systems programming", 10);
    assert!(!results.is_empty());
    assert!(results.iter().any(|h| matches!(h, UnifiedHit::Document(_))));
}

#[test]
fn merges_results_from_multiple_sources() {
    let mut env = test_env();
    env.memories.push(memory("m1", "lang", "Rust is my favorite language"));
    upsert_npub(&mut env.social, &contact("Rustacean"));
    index_message(&mut env.messages, &message("Rust performance benchmarks"));
    index(&mut env.docs, "v://guide.md", "Getting started with Rust programming");

    let results = recall(&env, "Rust", 10);
    assert!(
        results.len() >= 3,
        "Expected at least 3 results from different sources, got {}",
        results.len()
    );

    let sources: Vec<&str> = results.iter().map(|h| h.source()).collect();
    assert!(sources.contains(&"memory"), "Should contain memory hits");
    assert!(sources.contains(&"message"), "Should contain message hits");
    assert!(sources.contains(&"document"), "Should contain document hits");
}

#[test]
fn unified_search_respects_limit() {
    let mut env = test_env();
    for i in 0..20 {
        env.memories.push(memory(
            &format!("m{i}"),
            &format!("key_{i}"),
            &format!("common keyword data item {i}"),
        ));
    }

    let results = recall(&env, "common keyword", 5);
    assert!(results.len() <= 5);
}

#[test]
fn results_sorted_by_score() {
    let mut env = test_env();
    env.memories.push(memory("m1", "k1", "Rust language"));
    index(&mut env.docs, "v://doc.md", "Rust language programming");

    let results = recall(&env, "Rust language", 10);
    for window in results.windows(2) {
        assert!(
            f64::from_bits(window[0].score()) >= f64::from_bits(window[1].score()),
            "Results should be sorted by score descending"
        );
    }
}

#[test]
fn unified_hit_source_labels() {
    let memory_hit = UnifiedHit::Memory(MemoryEntry {
        score: Some(1.0f64.to_bits()),
        ..memory("m1", "k1", "test")
    });
    assert_eq!(memory_hit.source(), "memory");
    assert_eq!(memory_hit.snippet(), "test");

    let social_hit = UnifiedHit::Social(contact("Alice"));
    assert_eq!(social_hit.source(), "social");
    assert_eq!(social_hit.snippet(), "Alice");
}

#[test]
fn unified_search_search_with_double_quotes_does_not_error() {
    let mut env = test_env();
    env.memories.push(memory("m1", "k1", "test data here"));

    let results = recall(&env, r#"say "hello" world"#, 10);
    assert!(results.len() <= 10);
}

#[test]
fn works_with_only_some_tables() {
    let memories = vec![memory("m1", "k1", "test data here")];
    let tables =
        SearchTables { memories: Some(&memories), social: None, messages: None, docs: None };

    let results = search_all(&tables, "test data", 10);
    assert!(!results.is_empty());
}

#[test]
fn hits_merge_by_score_and_ties_keep_their_order() {
    let scored = |id: &str, s: f64| MemoryEntry {
        score: Some(s.to_bits()),
        ..memory(id, id, "x")
    };
    let memories = vec![scored("low", 0.5), scored("same", 1.0), scored("below", -2.0)];
    let social = vec![contact("Alice")];
    let hits = unified_recall("x", 3, &memories, &social, &vec![], &vec![]);
    assert_eq!(hits.len(), 3);
    assert!(matches!(&hits[0], UnifiedHit::Memory(m) if m.id == "same"));
    assert!(matches!(&hits[1], UnifiedHit::Social(_)));
    assert!(matches!(&hits[2], UnifiedHit::Memory(m) if m.id == "low"));
    assert_eq!(per_source_limit(7), 14);
}

#[test]
fn ranks_order_as_numbers_do() {
    let numbers = [-2.5f64, -1.0, -0.0, 0.0, 0.25, 1.0, 3.5];
    for w in numbers.windows(2) {
        assert!(rank_score(w[0].to_bits()) <= rank_score(w[1].to_bits()));
    }
    assert_eq!(rank_score((-0.0f64).to_bits()), rank_score(0.0f64.to_bits()));
}

#[test]
fn memory_hits_carry_their_rows_and_scores() {
    let entries = vec![memory("1", "a", "first"), memory("2", "b", "second")];
    assert_eq!(memory_rows(&entries), vec![vec!["a", "first", "", ""], vec!["b", "second", "", ""]]);
    let hits = memory_hits(&entries, &vec![(1, 1.5f64.to_bits())]);
    assert_eq!(hits.len(), 1);
    assert_eq!(hits[0].id, "2");
    assert_eq!(hits[0].content, "second");
    assert_eq!(hits[0].score, Some(1.5f64.to_bits()));
}

#[test]
fn failed_searches_give_nothing() {
    let mut found = memory("1", "a", "first");
    found.score = Some(2.0f64.to_bits());
    let hits = merge_outcomes("x", 10, Some(vec![found]), None, None, None);
    assert_eq!(hits.len(), 1);
    assert_eq!(hits[0].source(), "memory");
    let hits = merge_outcomes("x", 10, None, Some(vec![contact("Alice")]), None, None);
    assert_eq!(hits[0].source(), "social");
    assert!(merge_outcomes("x", 10, None, None, None, None).is_empty());
    assert!(merge_outcomes(" ", 10, None, Some(vec![contact("Alice")]), None, None).is_empty());
}
