use snowclaw::channels::nostr_memory::{
    cache_to_social_npub, social_npub_to_npub_memory, GroupMemory, NostrMemory, NpubMemory,
    ProfileMetadata, SocialDb,
};
use snowclaw::memory::doc_index::index_content;
use snowclaw::memory::message_index::count_messages;

fn memory() -> NostrMemory {
    NostrMemory::with_sqlite(SocialDb::new(), &vec![], &vec![])
}

#[test]
fn no_sqlite_returns_defaults() {
    let mut mem = NostrMemory::new();

    let is_new = mem.ensure_npub("aabb", "Alice", 1000, Some("techteam"), false);
    assert!(!is_new);

    assert!(mem.get_npub("aabb", None).is_none());
    assert!(mem.get_group("any").is_none());
    assert!(mem.list_npubs().is_empty());
    assert!(mem.build_context("aa", "test").is_empty());
}

#[test]
fn sqlite_new_contact_auto_created() {
    let mut mem = memory();

    let is_new = mem.ensure_npub("aabb", "Alice", 1000, Some("techteam"), false);
    assert!(is_new);

    let npub = mem.get_npub("aabb", None).unwrap();
    assert_eq!(npub.display_name, "Alice");
    assert_eq!(npub.first_seen, 1000);

    let row = mem.npub_row("aabb").unwrap();
    assert_eq!(row.display_name, "Alice");
    assert_eq!(row.first_seen, 1000);

    let is_new2 = mem.ensure_npub("aabb", "Alice", 1001, Some("techteam"), false);
    assert!(!is_new2);

    let row = mem.npub_row("aabb").unwrap();
    assert_eq!(row.last_interaction, 1001);
}

#[test]
fn sqlite_name_change_tracked() {
    let mut mem = memory();

    mem.ensure_npub("cc", "Bob", 100, None, false);
    mem.ensure_npub("cc", "Bobby", 200, None, false);

    let npub = mem.get_npub("cc", None).unwrap();
    assert_eq!(npub.display_name, "Bobby");
    assert_eq!(npub.name_history.len(), 1);
    assert_eq!(npub.name_history[0].1, "Bob");

    let row = mem.npub_row("cc").unwrap();
    assert_eq!(row.display_name, "Bobby");
    let history: Vec<(i64, String)> =
        serde_json::from_str(row.name_history_json.as_deref().unwrap()).unwrap();
    assert_eq!(history.len(), 1);
    assert_eq!(history[0].1, "Bob");
}

#[test]
fn sqlite_group_memory_and_members() {
    let mut mem = memory();

    let is_new = mem.ensure_group("techteam", 1000);
    assert!(is_new);

    mem.record_group_member("techteam", "aabb");
    mem.record_group_member("techteam", "ccdd");
    mem.record_group_member("techteam", "aabb");

    let group = mem.get_group("techteam").unwrap();
    assert_eq!(group.members_seen.len(), 2);

    let row = mem.group_row("techteam").unwrap();
    let members: Vec<String> = serde_json::from_str(row.members_json.as_deref().unwrap()).unwrap();
    assert_eq!(members.len(), 2);
}

#[test]
fn sqlite_build_context_includes_notes() {
    let mut mem = memory();

    mem.ensure_npub("aa", "Alice", 100, Some("test"), false);
    mem.add_npub_owner_note("aa", "prefers Finnish");
    mem.add_npub_note("aa", "asked about Rust");

    mem.ensure_group("test", 100);
    mem.set_group_purpose("test", "Rust development");

    let ctx = mem.build_context("aa", "test");
    assert!(ctx.contains("Rust development"));
    assert!(ctx.contains("prefers Finnish"));
    assert!(ctx.contains("asked about Rust"));
}

fn frank() -> NpubMemory {
    NpubMemory {
        npub_hex: "ff".to_string(),
        display_name: "Frank".to_string(),
        first_seen: 500,
        first_seen_group: None,
        notes: vec!["likes coffee".to_string()],
        owner_notes: Vec::new(),
        last_interaction: 500,
        name_history: Vec::new(),
        profile_metadata: None,
    }
}

fn devteam() -> GroupMemory {
    GroupMemory {
        group_id: "devteam".to_string(),
        purpose: Some("Development".to_string()),
        members_seen: Vec::new(),
        notes: Vec::new(),
        last_activity: 600,
    }
}

#[test]
fn sqlite_json_migration_on_first_use() {
    let mem = NostrMemory::with_sqlite(SocialDb::new(), &vec![(frank(), None)], &vec![devteam()]);

    let npub = mem.get_npub("ff", None).unwrap();
    assert_eq!(npub.display_name, "Frank");
    assert_eq!(npub.notes, vec!["likes coffee"]);

    let row = mem.npub_row("ff").unwrap();
    assert_eq!(row.display_name, "Frank");
}

#[test]
fn filled_tables_take_no_older_file_in() {
    let mut first = memory();
    first.ensure_npub("aa", "Alice", 1, None, false);
    let db = first.db.unwrap();
    let mem = NostrMemory::with_sqlite(db, &vec![(frank(), None)], &vec![devteam()]);
    assert!(mem.get_npub("aa", None).is_some());
    assert!(mem.get_npub("ff", None).is_none());
    assert!(mem.get_group("devteam").is_none());
}

#[test]
fn contact_reads_back_from_its_row() {
    let mut m = frank();
    m.name_history = vec![(3, "Fran".to_string())];
    m.owner_notes = vec!["vip".to_string()];
    let back = social_npub_to_npub_memory(&cache_to_social_npub(&m, None), None);
    assert_eq!(back.npub_hex, "ff");
    assert_eq!(back.notes, m.notes);
    assert_eq!(back.owner_notes, m.owner_notes);
    assert_eq!(back.name_history, m.name_history);
    assert_eq!(back.first_seen, 500);
}

#[test]
fn profile_changes_the_name() {
    let mut mem = memory();
    mem.ensure_npub("aa", "aa...", 1, None, false);
    let profile = ProfileMetadata {
        name: Some("alice".to_string()),
        display_name: Some("Alice".to_string()),
        about: None,
        picture: None,
        nip05: None,
        lud16: None,
        fetched_at: 7,
    };
    assert!(mem.update_profile("aa", &profile, Some("{}".to_string())));
    assert!(!mem.update_profile("zz", &profile, None));
    let m = mem.get_npub("aa", None).unwrap();
    assert_eq!(m.display_name, "Alice");
    assert_eq!(m.name_history, vec![(7, "aa...".to_string())]);
}

#[test]
fn contacts_come_most_recent_first() {
    let mut mem = memory();
    mem.ensure_npub("a", "A", 10, None, false);
    mem.ensure_npub("b", "B", 30, None, false);
    mem.ensure_npub("c", "C", 20, None, false);
    let names: Vec<String> = mem.list_npubs().into_iter().map(|r| r.display_name).collect();
    assert_eq!(names, vec!["B", "C", "A"]);
}

#[test]
fn try_index_message_indexes_substantial_content() {
    let mut mem = memory();
    mem.try_index_message(
        "evt1",
        "aabb",
        Some("techteam"),
        "This is a substantial message about Rust programming",
        1000,
        9,
        false,
        false,
    );

    let results = mem.search_messages("Rust programming", 10);
    assert_eq!(results.len(), 1);
    assert_eq!(results[0].event_id, "evt1");
    assert_eq!(results[0].sender_hex, "aabb");
}

#[test]
fn try_index_message_skips_short_content() {
    let mut mem = memory();
    mem.try_index_message("evt1", "aabb", Some("techteam"), "hi", 1000, 9, false, false);
    assert_eq!(count_messages(&mem.db.as_ref().unwrap().messages), 0);
}

#[test]
fn try_index_message_always_indexes_dm() {
    let mut mem = memory();
    mem.try_index_message("evt1", "aabb", None, "short DM", 1000, 14, false, true);
    let results = mem.search_messages("short DM", 10);
    assert_eq!(results.len(), 1);
}

#[test]
fn try_index_message_always_indexes_bot_mention() {
    let mut mem = memory();
    mem.try_index_message("evt1", "aabb", Some("devteam"), "hey bot!", 1000, 9, true, false);
    let results = mem.search_messages("hey bot", 10);
    assert_eq!(results.len(), 1);
}

#[test]
fn search_messages_without_sqlite_returns_empty() {
    let mem = NostrMemory::new();
    let results = mem.search_messages("anything", 10);
    assert!(results.is_empty());
}

#[test]
fn try_index_message_without_sqlite_is_noop() {
    let mut mem = NostrMemory::new();
    let stored = mem.try_index_message(
        "evt1",
        "aabb",
        Some("group"),
        "This is a substantial message for testing",
        1000,
        9,
        false,
        false,
    );
    assert!(!stored);
}

fn index(mem: &mut NostrMemory, path: &str, content: &str) {
    let docs = &mut mem.db.as_mut().unwrap().docs;
    let chunks = vec![content.to_string()];
    assert_eq!(index_content(docs, path, content, &chunks, "document", "2025-01-01"), 1);
}

#[test]
fn search_docs_finds_indexed_content() {
    let mut mem = memory();
    index(&mut mem, "v://test.md", "Rust systems programming guide");

    let results = mem.search_docs("Rust programming", 10);
    assert_eq!(results.len(), 1);
    assert!(results[0].content.contains("Rust"));
}

#[test]
fn search_docs_without_sqlite_returns_empty() {
    let mem = NostrMemory::new();
    let results = mem.search_docs("anything", 10);
    assert!(results.is_empty());
}

#[test]
fn unified_search_finds_across_types() {
    let mut mem = memory();
    index(&mut mem, "v://guide.md", "Rust language overview and tutorial");

    mem.try_index_message(
        "evt1",
        "aabb",
        Some("devteam"),
        "Discussion about Rust async patterns and performance",
        1000,
        9,
        false,
        false,
    );

    let results = mem.unified_search("Rust", 10);
    assert!(results.len() >= 2, "Expected hits from both docs and messages");

    let sources: Vec<&str> = results.iter().map(|h| h.source()).collect();
    assert!(sources.contains(&"document"), "Should contain document hits");
    assert!(sources.contains(&"message"), "Should contain message hits");
}

#[test]
fn unified_search_without_sqlite_returns_empty() {
    let mem = NostrMemory::new();
    let results = mem.unified_search("anything", 10);
    assert!(results.is_empty());
}

#[test]
fn notes_leave_the_index_alone() {
    let mut mem = memory();
    let chunks = vec!["some text".to_string()];
    index_content(&mut mem.db.as_mut().unwrap().docs, "a.md", "some text", &chunks, "document", "now");
    mem.try_index_message("e1", "aa", None, "a message worth keeping", 1, 1, false, false);
    mem.ensure_group("g", 1);
    mem.set_group_purpose("g", "talk");
    mem.ensure_npub("aa", "Alice", 1, None, false);
    mem.add_npub_note("aa", "kind");
    let db = mem.db.as_ref().unwrap();
    assert_eq!(db.docs.rows.len(), 1);
    assert_eq!(db.docs.rows[0].content, "some text");
    assert_eq!(count_messages(&db.messages), 1);
}
