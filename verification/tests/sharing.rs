use snowclaw::channels::event::NostrEvent;
use snowclaw::channels::nostr_memory::{NostrMemory, SocialDb};
use snowclaw::channels::relay_memory::{group_draft, npub_draft, SocialEvent};
use snowclaw::config::snowclaw_schema::{
    default_context_history, default_contextvm_timeout, default_nostr_relays,
    default_respond_mode, ContextVmEntry, NostrConfig,
};
use snowclaw::memory::collective::{CollectiveMemory, CollectiveMemoryConfig};
use snowclaw::memory::collective_relay::open_event;
use snowclaw::memory::contextvm_bridge;
use snowclaw::memory::nostr::NostrMemory as RelayMemory;
use snowclaw::memory::nostr_sqlite::NostrSqliteMemory;
use snowclaw::memory::traits::{MemoryCategory, MemoryTier};

const KEY: &str = "79be667ef9dcbbac55a06295ce870b07029bfcdb2dce28d959f2815b16f81798";
const ONE: &str = "0000000000000000000000000000000000000000000000000000000000000001";

fn social() -> NostrMemory {
    NostrMemory::with_sqlite(SocialDb::new(), &vec![], &vec![])
}

#[test]
fn contact_is_published_under_its_npub() {
    let mut mem = social();
    mem.ensure_npub(KEY, "Alice", 5, Some("team"), false);
    let row = mem.npub_row(KEY).unwrap();
    let d = npub_draft(&row, "{}").unwrap();
    let npub = snowclaw::keys::npub_or_hex(KEY);
    assert_eq!(d.kind, 30078);
    assert_eq!(d.tags[0], vec!["d".to_string(), format!("snowclaw:memory:npub:{npub}")]);
    assert_eq!(d.tags[3], vec!["h", "team"]);
    mem.ensure_npub("short", "Bob", 5, None, false);
    assert!(npub_draft(&mem.npub_row("short").unwrap(), "{}").is_none());
}

#[test]
fn social_memory_comes_back_from_the_relay() {
    let mut mem = social();
    mem.ensure_npub(KEY, "Alice", 5, None, false);
    mem.ensure_group("team", 6);
    let npub = mem.npub_row(KEY).unwrap();
    let group = mem.group_row("team").unwrap();
    let events = vec![
        SocialEvent {
            tags: npub_draft(&npub, "{}").unwrap().tags,
            npub: Some(npub),
            group: None,
        },
        SocialEvent { tags: group_draft(&group, "{}").tags, npub: None, group: Some(group) },
        SocialEvent { tags: vec![], npub: None, group: None },
    ];
    let mut other = social();
    assert_eq!(other.sync_social_from_relay(&events), 2);
    assert_eq!(other.npub_row(KEY).unwrap().display_name, "Alice");
    assert_eq!(other.get_group("team").unwrap().last_activity, 6);
    assert_eq!(NostrMemory::new().sync_social_from_relay(&events), 0);
}

#[test]
fn agent_states_are_noted() {
    let mut mem = social();
    mem.record_agent_state(KEY, "Agent", "snow:status", "online", 9);
    let context = mem.build_context(KEY, "team");
    assert!(context.contains("online"), "{context}");
}

fn arrived(tags: Vec<Vec<String>>, content: String) -> NostrEvent {
    NostrEvent {
        id: "00".repeat(32),
        pubkey: KEY.to_string(),
        kind: 30078,
        created_at: 5,
        tags,
        content,
    }
}

#[test]
fn private_memories_leave_sealed() {
    let config = CollectiveMemoryConfig {
        db_path: ":memory:".to_string(),
        relay_urls: vec!["wss://a".to_string()],
    };
    let mem = CollectiveMemory::new_in_memory_with_relay(&config, ONE);
    let tags = vec![("d".to_string(), "snow:memory:x".to_string())];
    let d = mem.publish_to_relay(&MemoryTier::Private("self".into()), &tags, "secret").unwrap();
    assert_ne!(d.content, "secret");
    assert_eq!(d.tags[1], vec!["encrypted", "nip44"]);
    let back = open_event(&arrived(d.tags, d.content), ONE).unwrap();
    assert_eq!(back.content, "secret");
    let d = mem.publish_to_relay(&MemoryTier::Public, &tags, "open").unwrap();
    assert_eq!(d.content, "open");
    assert_eq!(d.tags.len(), 1);
    let long = "x".repeat(65_409);
    let d = mem.publish_to_relay(&MemoryTier::Private("self".into()), &tags, &long).unwrap();
    assert_eq!(d.content, long);
    assert!(CollectiveMemory::new_in_memory(&config)
        .publish_to_relay(&MemoryTier::Public, &tags, "open")
        .is_none());
}

#[test]
fn shared_memories_are_sealed_on_demand() {
    let mut mem = NostrSqliteMemory::new(Some("wss://a"), Some(ONE), true);
    let d = mem.store("k", "v", &MemoryCategory::Core, Some("s")).unwrap();
    assert_ne!(d.content, "v");
    let mut other = NostrSqliteMemory::new(Some("wss://a"), Some(ONE), true);
    assert_eq!(other.sync_from_relay(&vec![arrived(d.tags, d.content)]), 1);
    let back = other.get("k", &vec![]).unwrap();
    assert_eq!(back.content, "v");
    assert_eq!(back.session_id.as_deref(), Some("s"));
    let mut plain = NostrSqliteMemory::new(Some("wss://a"), Some(ONE), false);
    assert_eq!(plain.store("k", "v", &MemoryCategory::Core, None).unwrap().content, "v");
}

#[test]
fn relay_memory_asks_each_category() {
    let mem = RelayMemory::local_only();
    assert_eq!(
        mem.relay_addresses("k"),
        vec!["snowclaw:core:k", "snowclaw:daily:k", "snowclaw:conversation:k"]
    );
}

#[test]
fn settings_defaults() {
    assert_eq!(default_respond_mode(), "mention_only");
    assert_eq!(default_context_history(), 10);
    assert_eq!(default_contextvm_timeout(), 30);
    assert_eq!(default_nostr_relays().len(), 4);
    assert!(!NostrConfig::name().is_empty());
}

#[test]
fn contextvm_server_is_not_available() {
    assert!(contextvm_bridge::run(None).is_ok());
    let mut entry =
        ContextVmEntry { enabled: false, relays: vec![], servers: vec![], timeout_secs: 1 };
    assert!(contextvm_bridge::run(Some(&entry)).is_ok());
    entry.enabled = true;
    assert!(contextvm_bridge::run(Some(&entry)).is_err());
}
