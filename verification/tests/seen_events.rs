use snowclaw::channels::seen_events::{DmHistoryMessage, SeenEvent, SeenEventsStore};

const NOW: u64 = 1_700_000_000;

fn test_store() -> SeenEventsStore {
    SeenEventsStore::new(Some(5))
}

fn dm(content: &str, timestamp: u64, event_id: &str, is_outgoing: bool) -> DmHistoryMessage {
    DmHistoryMessage {
        sender_hex: "sender1".to_string(),
        sender_name: "Alice".to_string(),
        content: content.to_string(),
        timestamp,
        event_id: event_id.to_string(),
        is_outgoing,
    }
}

#[test]
fn mark_and_check_seen() {
    let mut store = test_store();

    assert!(!store.is_seen("abc123"));
    store.mark_seen("abc123", 1059, "sender_hex", NOW);
    assert!(store.is_seen("abc123"));
}

#[test]
fn duplicate_insert_is_ignored() {
    let mut store = test_store();

    store.mark_seen("abc123", 1059, "sender_hex", NOW);
    store.mark_seen("abc123", 1059, "sender_hex", NOW);
    assert!(store.is_seen("abc123"));
    assert_eq!(store.seen.len(), 1);
}

#[test]
fn batch_mark_seen() {
    let mut store = test_store();

    let batch = vec![
        ("ev1".to_string(), 1059u16, "s1".to_string()),
        ("ev2".to_string(), 1059u16, "s2".to_string()),
        ("ev3".to_string(), 4u16, "s3".to_string()),
    ];
    store.mark_seen_batch(&batch, NOW);

    assert!(store.is_seen("ev1"));
    assert!(store.is_seen("ev2"));
    assert!(store.is_seen("ev3"));
    assert!(!store.is_seen("ev4"));
}

#[test]
fn dm_history_ring_buffer() {
    let mut store = test_store();

    for i in 0..7u64 {
        store.push_dm_history(dm(&format!("msg {i}"), 1000 + i, &format!("ev{i}"), i % 2 == 0));
    }

    let buf = store.dm_history.get("sender1").unwrap();
    assert_eq!(buf.len(), 5);
    assert_eq!(buf[0].content, "msg 2");
    assert_eq!(buf[4].content, "msg 6");
}

#[test]
fn format_dm_context_excludes_current() {
    let mut store = test_store();

    store.push_dm_history(dm("hello", 1000, "ev1", false));
    store.push_dm_history(dm("hi back", 1001, "ev2", true));
    store.push_dm_history(dm("current msg", 1002, "ev3", false));

    let ctx = store.format_dm_context("sender1", "ev3");
    assert!(ctx.contains("<Alice> hello"));
    assert!(ctx.contains("<you> hi back"));
    assert!(!ctx.contains("current msg"));
}

#[test]
fn empty_context_returns_empty_string() {
    let store = test_store();
    let ctx = store.format_dm_context("nobody", "ev1");
    assert!(ctx.is_empty());
}

#[test]
fn load_recent_populates_cache_and_history() {
    let mut first = SeenEventsStore::new(Some(10));
    first.mark_seen("persistent_ev", 1059, "sender_hex", NOW);
    first.push_dm_history(dm("persisted msg", NOW, "persistent_ev", false));

    let mut store = SeenEventsStore::new(Some(10));
    store.seen = first.seen;
    store.dms = first.dms;
    assert!(!store.cache.contains("persistent_ev"));

    store.load_recent(NOW);

    assert!(store.cache.contains("persistent_ev"));
    assert_eq!(store.dm_history.get("sender1").unwrap().len(), 1);
}

#[test]
fn load_recent_leaves_old_events_out() {
    let mut store = test_store();
    store.seen.push(SeenEvent {
        event_id: "old".to_string(),
        kind: 1059,
        sender: "s".to_string(),
        processed_at: NOW as i64 - 4 * 86400,
    });
    store.load_recent(NOW);
    assert!(!store.cache.contains("old"));
    assert!(store.is_seen("old"));
    assert!(store.cache.contains("old"));
}

#[test]
fn prune_removes_old_entries() {
    let mut store = test_store();
    store.seen.push(SeenEvent {
        event_id: "old_ev".to_string(),
        kind: 1059,
        sender: "sender".to_string(),
        processed_at: 1000,
    });
    store.dms.push(dm("old msg", 1000, "old_ev", false));

    store.prune(NOW, 1);

    assert_eq!(store.seen.len(), 0);
    assert_eq!(store.dms.len(), 0);
}
