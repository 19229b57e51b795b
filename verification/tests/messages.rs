use snowclaw::memory::fts::or_nothing;
use snowclaw::memory::message_index::{
    count_messages, index_message, message_hits, message_rows, search_messages,
    should_index_message, IndexDecision, IndexableMessage, MessageTable,
};

fn sample_message(id: &str, content: &str) -> IndexableMessage {
    IndexableMessage {
        event_id: id.to_string(),
        sender_hex: "aabb".to_string(),
        group_id: Some("test_group".to_string()),
        content: content.to_string(),
        created_at: 1000,
        kind: 1,
    }
}

#[test]
fn skip_reactions() {
    assert_eq!(should_index_message("👍", 7, false, false), IndexDecision::Skip);
}

#[test]
fn skip_reposts() {
    assert_eq!(should_index_message("repost content", 6, false, false), IndexDecision::Skip);
}

#[test]
fn skip_empty_content() {
    assert_eq!(should_index_message("", 1, false, false), IndexDecision::Skip);
    assert_eq!(should_index_message("   ", 1, false, false), IndexDecision::Skip);
}

#[test]
fn skip_very_short_content() {
    assert_eq!(should_index_message("hi", 1, false, false), IndexDecision::Skip);
}

#[test]
fn cache_only_short_content() {
    assert_eq!(should_index_message("hello world", 1, false, false), IndexDecision::CacheOnly);
}

#[test]
fn index_substantial_content() {
    assert_eq!(
        should_index_message("This is a substantial message with enough content", 1, false, false),
        IndexDecision::Index
    );
}

#[test]
fn index_dm_with_content() {
    assert_eq!(should_index_message("short DM", 4, false, true), IndexDecision::Index);
}

#[test]
fn index_bot_mention() {
    assert_eq!(should_index_message("hey bot!", 1, true, false), IndexDecision::Index);
}

#[test]
fn skip_dm_empty_content() {
    assert_eq!(should_index_message("", 4, false, true), IndexDecision::Skip);
}

#[test]
fn index_and_search_message() {
    let mut t = MessageTable::new();
    let msg = sample_message("evt1", "Rust is a systems programming language");
    index_message(&mut t, &msg);

    let results = search_messages(&t, "Rust programming", 10).unwrap();
    assert_eq!(results.len(), 1);
    assert_eq!(results[0].event_id, "evt1");
    assert!(f64::from_bits(results[0].score) > 0.0);
}

#[test]
fn message_index_search_no_match() {
    let mut t = MessageTable::new();
    index_message(&mut t, &sample_message("evt1", "Rust is a systems programming language"));

    let results = search_messages(&t, "javascript", 10).unwrap();
    assert!(results.is_empty());
}

#[test]
fn message_index_search_empty_query() {
    let mut t = MessageTable::new();
    index_message(&mut t, &sample_message("evt1", "some content here"));
    assert!(search_messages(&t, "", 10).unwrap().is_empty());
    assert!(search_messages(&t, "   ", 10).unwrap().is_empty());
}

#[test]
fn message_index_search_respects_limit() {
    let mut t = MessageTable::new();
    for i in 0..20 {
        index_message(
            &mut t,
            &sample_message(&format!("evt_{i}"), &format!("common keyword message {i}")),
        );
    }

    let results = search_messages(&t, "common keyword", 5).unwrap();
    assert!(results.len() <= 5);
}

#[test]
fn index_message_upsert() {
    let mut t = MessageTable::new();
    let msg = sample_message("evt1", "original content");
    index_message(&mut t, &msg);

    let updated = IndexableMessage { content: "updated content".to_string(), ..msg };
    index_message(&mut t, &updated);

    assert_eq!(count_messages(&t), 1);

    let results = search_messages(&t, "updated", 10).unwrap();
    assert_eq!(results.len(), 1);

    let results = search_messages(&t, "original", 10).unwrap();
    assert!(results.is_empty());
}

#[test]
fn count_messages_works() {
    let mut t = MessageTable::new();
    assert_eq!(count_messages(&t), 0);

    index_message(&mut t, &sample_message("evt1", "message one content here"));
    index_message(&mut t, &sample_message("evt2", "message two content here"));
    assert_eq!(count_messages(&t), 2);
}

#[test]
fn message_with_no_group() {
    let mut t = MessageTable::new();
    let msg = IndexableMessage {
        group_id: None,
        ..sample_message("evt1", "DM content without group context")
    };
    index_message(&mut t, &msg);

    let results = search_messages(&t, "DM content", 10).unwrap();
    assert_eq!(results.len(), 1);
    assert!(results[0].group_id.is_none());
}

#[test]
fn search_with_special_chars() {
    let mut t = MessageTable::new();
    index_message(&mut t, &sample_message("evt1", "function call test with parens"));
    let results = search_messages(&t, "function()", 10).unwrap();
    assert!(results.len() <= 10);
}

#[test]
fn message_index_search_with_double_quotes_does_not_error() {
    let mut t = MessageTable::new();
    index_message(&mut t, &sample_message("evt1", "Rust is a systems programming language"));

    let results = search_messages(&t, r#"say "hello" world"#, 10).unwrap();
    assert!(results.len() <= 10);
}

#[test]
fn search_unicode_content() {
    let mut t = MessageTable::new();
    index_message(&mut t, &sample_message("evt1", "Unicode content with development notes"));
    let results = search_messages(&t, "development", 10).unwrap();
    assert!(!results.is_empty());
    assert!(results[0].content.contains("Unicode"));
}

#[test]
fn stored_message_reads_back() {
    let mut t = MessageTable::new();
    index_message(&mut t, &sample_message("evt1", "content"));
    assert_eq!(t.get("evt1").unwrap().content, "content");
    assert!(t.get("evt2").is_none());
}

#[test]
fn message_columns_are_searched_in_order() {
    let mut t = MessageTable::new();
    index_message(&mut t, &sample_message("evt1", "first message"));
    let mut direct = sample_message("evt2", "second message");
    direct.group_id = None;
    index_message(&mut t, &direct);
    assert_eq!(
        message_rows(&t),
        vec![vec!["first message", "aabb", "test_group", ""], vec!["second message", "aabb", "", ""]]
    );
}

#[test]
fn message_hits_carry_their_rows_and_scores() {
    let mut t = MessageTable::new();
    index_message(&mut t, &sample_message("evt1", "first message"));
    index_message(&mut t, &sample_message("evt2", "second message"));
    let hits = message_hits(&t, &vec![(1, 1.5f64.to_bits()), (0, 0.5f64.to_bits())]);
    assert_eq!(hits.len(), 2);
    assert_eq!(hits[0].event_id, "evt2");
    assert_eq!(hits[0].content, "second message");
    assert_eq!(f64::from_bits(hits[0].score), 1.5);
    assert_eq!(hits[1].event_id, "evt1");
    assert_eq!(f64::from_bits(hits[1].score), 0.5);
    assert!(message_hits(&t, &vec![]).is_empty());
}

#[test]
fn a_failed_search_gives_nothing() {
    assert_eq!(or_nothing(Some(vec![1u8, 2])), vec![1, 2]);
    assert!(or_nothing::<u8>(None).is_empty());
}

#[test]
fn lengths_are_counted_in_characters() {
    assert_eq!(should_index_message("日本語日本語日", 1, false, false), IndexDecision::CacheOnly);
    assert_eq!(should_index_message("日本語", 1, false, false), IndexDecision::Skip);
    assert_eq!(should_index_message("日本語", 4, false, true), IndexDecision::Skip);
    assert_eq!(should_index_message("日本語日本", 4, false, true), IndexDecision::Index);
    assert_eq!(
        should_index_message("日本語日本語日本語日本語日本語日本語日本", 1, false, false),
        IndexDecision::Index
    );
}
