use nostr_sdk::{Keys, ToBech32};
use snowclaw::channels::event::NostrEvent;
use snowclaw::memory::collective::{
    scope_to_tier, tier_rank, CollectiveMemory, CollectiveMemoryConfig, PromoteError, SnowMemory,
    DEFAULT_CONFIDENCE,
};
use snowclaw::memory::collective_conflicts::detect_conflicts;
use snowclaw::memory::collective_relay::{
    agent_profile_draft, is_nip44_encrypted, memory_to_event_builder, nostr_event_to_memory_event,
    open_event, read_agent_profile, syncs_in_background, AgentProfile, SyncedEvent,
};
use snowclaw::memory::snowclaw_ext::RecallContext;
use snowclaw::memory::traits::{MemoryCategory, MemoryEntry, MemoryTier};

const NOW: u64 = 1_700_000_000;

fn test_config() -> CollectiveMemoryConfig {
    CollectiveMemoryConfig { db_path: ":memory:".to_string(), relay_urls: vec![] }
}

fn memory() -> CollectiveMemory {
    CollectiveMemory::new_in_memory(&test_config())
}

fn shared_memory(keys: &Keys) -> CollectiveMemory {
    let config = CollectiveMemoryConfig {
        db_path: ":memory:".to_string(),
        relay_urls: vec!["wss://relay.example.com".to_string()],
    };
    let nsec = keys.secret_key().to_bech32().unwrap();
    CollectiveMemory::new_in_memory_with_relay(&config, &nsec)
}

fn private() -> MemoryTier {
    MemoryTier::Private("self".to_string())
}

fn event(keys: &Keys, content: &str, tags: Vec<Vec<&str>>) -> NostrEvent {
    NostrEvent {
        id: "ab".repeat(32),
        pubkey: keys.public_key().to_hex(),
        kind: 30078,
        created_at: NOW,
        tags: tags
            .into_iter()
            .map(|t| t.into_iter().map(|f| f.to_string()).collect())
            .collect(),
        content: content.to_string(),
    }
}

#[test]
fn store_and_count() {
    let mut mem = memory();
    assert_eq!(mem.count(), 0);

    mem.store("rust/errors", "How to handle errors in Rust", &MemoryCategory::Core, NOW);
    assert_eq!(mem.count(), 1);
}

#[test]
fn name_returns_collective() {
    let mem = memory();
    assert_eq!(mem.name(), "collective");
}

#[test]
fn memory_to_event_builder_roundtrip() {
    let tags = vec![
        ("d".to_string(), "snow:memory:rust/errors".to_string()),
        ("snow:tier".to_string(), "public".to_string()),
    ];
    let content = "{\"summary\":\"Use anyhow for errors\"}";
    let event = memory_to_event_builder(&tags, content, None);

    assert_eq!(event.kind, 30078);
    assert_eq!(event.content, content);

    let d_tag = event.tags.iter().find(|t| t[0] == "d").map(|t| t[1].clone());
    assert_eq!(d_tag, Some("snow:memory:rust/errors".to_string()));
}

#[test]
fn sealed_memory_carries_a_mark() {
    let event = memory_to_event_builder(&vec![], "plain", Some("payload"));
    assert_eq!(event.content, "payload");
    assert_eq!(event.tags, vec![vec!["encrypted".to_string(), "nip44".to_string()]]);
}

#[test]
fn event_fields_carry_over() {
    let keys = Keys::generate();
    let e = event(
        &keys,
        "{\"summary\":\"Test summary\"}",
        vec![vec!["d", "snow:memory:test/topic"], vec!["lone"], vec!["a", "b", "c"]],
    );
    let m = nostr_event_to_memory_event(&e);
    assert_eq!(m.kind, 30078);
    assert_eq!(m.pubkey, keys.public_key().to_hex());
    assert_eq!(m.content, e.content);
    assert_eq!(
        m.tags,
        vec![
            ("d".to_string(), "snow:memory:test/topic".to_string()),
            ("a".to_string(), "b".to_string()),
        ]
    );
}

#[test]
fn configuration_is_kept() {
    let mut mem = shared_memory(&Keys::generate());
    mem.store("topic", "content", &MemoryCategory::Core, NOW);
    assert_eq!(mem.config.db_path, ":memory:");
    assert_eq!(mem.config.relay_urls, vec!["wss://relay.example.com"]);

    let config = CollectiveMemoryConfig {
        db_path: "brain.db".to_string(),
        relay_urls: vec!["wss://one.example.com".to_string()],
    };
    let local = CollectiveMemory::new_in_memory(&config);
    assert_eq!(local.config.db_path, "brain.db");
    assert_eq!(local.config.relay_urls, vec!["wss://one.example.com"]);
    assert!(!local.relay_enabled());
}

#[test]
fn relay_disabled_when_no_config() {
    assert!(!memory().relay_enabled());
}

#[test]
fn relay_disabled_when_no_relays() {
    let keys = Keys::generate();
    let nsec = keys.secret_key().to_bech32().unwrap();
    let mem = CollectiveMemory::new_in_memory_with_relay(&test_config(), &nsec);
    assert!(!mem.relay_enabled());
}

#[test]
fn relay_enabled_with_config() {
    let mem = shared_memory(&Keys::generate());
    assert!(mem.relay_enabled());
}

#[test]
fn is_nip44_encrypted_detects_tag() {
    let keys = Keys::generate();
    assert!(!is_nip44_encrypted(&event(&keys, "plaintext", vec![])));
    assert!(is_nip44_encrypted(&event(&keys, "ciphertext", vec![vec!["encrypted", "nip44"]])));
}

#[test]
fn nip44_encrypt_decrypt_roundtrip_collective() {
    let keys = Keys::generate();
    let plaintext = "secret collective memory content";

    let mem = shared_memory(&keys);
    let draft = mem.publish_to_relay(&private(), &vec![], plaintext).unwrap();
    assert_ne!(draft.content, plaintext);

    let sent = NostrEvent {
        id: "cd".repeat(32),
        pubkey: keys.public_key().to_hex(),
        kind: draft.kind,
        created_at: NOW,
        tags: draft.tags,
        content: draft.content,
    };
    let nsec = keys.secret_key().to_bech32().unwrap();
    let opened = open_event(&sent, &nsec).unwrap();
    assert_eq!(opened.content, plaintext);

    let stranger = Keys::generate().secret_key().to_bech32().unwrap();
    assert!(open_event(&sent, &stranger).is_none());
}

#[test]
fn public_memory_is_shared_as_it_is() {
    let mem = shared_memory(&Keys::generate());
    let draft = mem.publish_to_relay(&MemoryTier::Public, &vec![], "open").unwrap();
    assert_eq!(draft.content, "open");
    assert!(memory().publish_to_relay(&MemoryTier::Public, &vec![], "open").is_none());
}

#[test]
fn store_with_tier_stores_correct_tier() {
    let mut mem = memory();
    mem.store_with_tier("contact:abc123", "Friend's npub", private(), NOW);

    let entry = mem.get("contact:abc123");
    assert!(entry.is_some());
    assert_eq!(entry.unwrap().content, "Friend's npub");
}

#[test]
fn scope_to_tier_classifies_correctly() {
    assert!(matches!(scope_to_tier("core:timezone"), MemoryTier::Public));
    assert!(matches!(scope_to_tier("lesson:rust"), MemoryTier::Public));
    assert!(matches!(scope_to_tier("pref:lang"), MemoryTier::Private(_)));
    assert!(matches!(scope_to_tier("contact:abc"), MemoryTier::Private(_)));
    assert!(matches!(scope_to_tier("conv:session1"), MemoryTier::Private(_)));
    assert!(matches!(scope_to_tier("group:nostr-dev"), MemoryTier::Group(_)));
    assert!(matches!(scope_to_tier("unknown_key"), MemoryTier::Public));
}

#[test]
fn agent_profile_serialization_roundtrip() {
    let profile = AgentProfile {
        name: "test-agent".to_string(),
        about: "A test agent".to_string(),
        model: "test/model".to_string(),
        version: "0.1.0".to_string(),
        capabilities: vec!["memory".to_string()],
        operator_npub: None,
    };

    let draft = agent_profile_draft(&profile);
    let content: serde_json::Value = serde_json::from_str(&draft.content).unwrap();
    assert!(content.get("snow:operator").is_none());

    let recovered = read_agent_profile(&draft.content).unwrap();
    assert_eq!(recovered.name, "test-agent");
    assert_eq!(recovered.about, "A test agent");
    assert_eq!(recovered.model, "test/model");
    assert_eq!(recovered.version, "0.1.0");
    assert_eq!(recovered.capabilities, vec!["memory"]);
    assert!(recovered.operator_npub.is_none());
}

#[test]
fn agent_profile_with_operator() {
    let profile = AgentProfile {
        name: "snow-studio".to_string(),
        about: "Snowclaw instance on studio".to_string(),
        model: "test/model".to_string(),
        version: "0.1.7".to_string(),
        capabilities: vec!["memory".to_string(), "code".to_string(), "nostr".to_string()],
        operator_npub: Some("npub1testoperator".to_string()),
    };
    let draft = agent_profile_draft(&profile);
    assert_eq!(draft.kind, 0);
    let parsed: serde_json::Value = serde_json::from_str(&draft.content).unwrap();
    assert_eq!(parsed["name"], "snow-studio");
    assert_eq!(parsed["about"], "Snowclaw instance on studio");
    assert_eq!(parsed["snow:model"], "test/model");
    assert_eq!(parsed["snow:version"], "0.1.7");
    let capabilities: Vec<String> =
        serde_json::from_value(parsed["snow:capabilities"].clone()).unwrap();
    assert_eq!(capabilities, vec!["memory", "code", "nostr"]);
    assert_eq!(parsed["snow:operator"], "npub1testoperator");
    assert!(read_agent_profile("no json").is_none());
}

#[test]
fn forget_deletes_by_topic() {
    let mut mem = memory();
    mem.store("rust/errors", "How to handle errors", &MemoryCategory::Core, NOW);
    assert_eq!(mem.count(), 1);

    let deleted = mem.forget("rust/errors");
    assert!(deleted);
    assert_eq!(mem.count(), 0);

    let deleted = mem.forget("nonexistent");
    assert!(!deleted);
}

#[test]
fn list_returns_all_memories() {
    let mut mem = memory();
    mem.store("rust/errors", "Error handling", &MemoryCategory::Core, NOW);
    mem.store("nostr/nip44", "NIP-44 encryption", &MemoryCategory::Core, NOW);

    let all = mem.list(None);
    assert_eq!(all.len(), 2);
}

#[test]
fn list_filters_by_category() {
    let mut mem = memory();
    mem.store("core:timezone", "UTC preferred", &MemoryCategory::Core, NOW);
    mem.store("conv:session1", "Session context", &MemoryCategory::Conversation, NOW);

    let public = mem.list(Some(&MemoryCategory::Core));
    assert_eq!(public.len(), 1);
    assert_eq!(public[0].key, "core:timezone");

    let private = mem.list(Some(&MemoryCategory::Conversation));
    assert_eq!(private.len(), 1);
    assert_eq!(private[0].key, "conv:session1");
}

fn insert_test_memory(
    mem: &mut CollectiveMemory,
    id: &str,
    topic: &str,
    summary: &str,
    source: &str,
    version: u32,
) {
    mem.index.upsert(SnowMemory {
        id: id.to_string(),
        tier: MemoryTier::Public,
        topic: topic.to_string(),
        summary: summary.to_string(),
        detail: String::new(),
        context: None,
        source: source.to_string(),
        model: String::new(),
        confidence: DEFAULT_CONFIDENCE,
        supersedes: None,
        version,
        tags: vec![],
        created_at: NOW,
    });
}

fn about(mem: &CollectiveMemory, word: &str) -> Vec<SnowMemory> {
    mem.index.rows.iter().filter(|m| m.topic.contains(word)).cloned().collect()
}

#[test]
fn detect_conflicts_same_topic_different_sources() {
    let mut mem = memory();
    insert_test_memory(&mut mem, "a1", "rust/errors", "Use anyhow for errors", "agent_alpha", 1);
    insert_test_memory(&mut mem, "b1", "rust/errors", "Use thiserror for errors", "agent_beta", 1);

    let conflicts = detect_conflicts(&about(&mem, "errors"));
    assert_eq!(conflicts.len(), 1);
    assert_eq!(conflicts[0].topic, "rust/errors");
    assert_eq!(conflicts[0].entries.len(), 2);

    let sources: Vec<&str> = conflicts[0].entries.iter().map(|e| e.source.as_str()).collect();
    assert!(sources.contains(&"agent_alpha"));
    assert!(sources.contains(&"agent_beta"));
}

#[test]
fn detect_conflicts_same_source_not_conflict() {
    let mut mem = memory();
    insert_test_memory(&mut mem, "a1", "rust/errors", "Use anyhow v1", "agent_alpha", 1);
    insert_test_memory(&mut mem, "a2", "rust/errors", "Use anyhow v2", "agent_alpha", 2);

    let conflicts = detect_conflicts(&about(&mem, "errors"));
    assert!(conflicts.is_empty());
}

#[test]
fn detect_conflicts_no_duplicates_returns_empty() {
    let mut mem = memory();
    insert_test_memory(&mut mem, "a1", "rust/errors", "Use anyhow for errors", "agent_alpha", 1);
    insert_test_memory(&mut mem, "b1", "nostr/nip44", "NIP-44 encryption", "agent_beta", 1);

    let conflicts = detect_conflicts(&about(&mem, "errors"));
    assert!(conflicts.is_empty());
}

#[test]
fn promote_private_to_public() {
    let mut mem = memory();
    mem.store_with_tier("pref:language", "Rust is preferred", private(), NOW);
    let m = mem.promote("pref:language", MemoryTier::Public, NOW + 1).unwrap();
    assert_eq!(m.version, 2);
    assert_eq!(m.tier, MemoryTier::Public);
    assert_eq!(mem.count(), 1);
}

#[test]
fn promote_private_to_group() {
    let mut mem = memory();
    mem.store_with_tier("pref:editor", "Uses neovim", private(), NOW);
    mem.promote("pref:editor", MemoryTier::Group("dev-team".to_string()), NOW).unwrap();
    assert_eq!(mem.count(), 1);
}

#[test]
fn reject_demotion_public_to_private() {
    let mut mem = memory();
    mem.store_with_tier("core:timezone", "UTC preferred", MemoryTier::Public, NOW);

    let result = mem.promote("core:timezone", private(), NOW);
    assert!(result.is_err());
    assert!(result.unwrap_err().to_string().contains("tier must increase"));
}

#[test]
fn reject_same_tier_promotion() {
    let mut mem = memory();
    mem.store_with_tier("core:lang", "Rust", MemoryTier::Public, NOW);

    let result = mem.promote("core:lang", MemoryTier::Public, NOW);
    assert!(matches!(result, Err(PromoteError::NotHigher { .. })));
}

#[test]
fn promote_nonexistent_key_errors() {
    let mut mem = memory();

    let result = mem.promote("nonexistent:key", MemoryTier::Public, NOW);
    assert!(result.is_err());
    assert!(result.unwrap_err().to_string().contains("memory not found"));
}

#[test]
fn tier_rank_ordering() {
    assert!(
        tier_rank(&MemoryTier::Private("s".into())) < tier_rank(&MemoryTier::Group("g".into()))
    );
    assert!(tier_rank(&MemoryTier::Group("g".into())) < tier_rank(&MemoryTier::Public));
    assert!(tier_rank(&MemoryTier::Private("s".into())) < tier_rank(&MemoryTier::Public));
}

#[test]
fn scope_to_tier_core_is_public() {
    assert_eq!(scope_to_tier("core:timezone"), MemoryTier::Public);
    assert_eq!(scope_to_tier("core:guardian"), MemoryTier::Public);
}

#[test]
fn scope_to_tier_lesson_is_public() {
    assert_eq!(scope_to_tier("lesson:a3f2b1"), MemoryTier::Public);
}

#[test]
fn scope_to_tier_pref_is_private() {
    match scope_to_tier("pref:language") {
        MemoryTier::Private(_) => {}
        other => panic!("expected Private, got {other:?}"),
    }
}

#[test]
fn scope_to_tier_contact_is_private() {
    match scope_to_tier("contact:1zc6ts76") {
        MemoryTier::Private(_) => {}
        other => panic!("expected Private, got {other:?}"),
    }
}

#[test]
fn scope_to_tier_conv_is_private() {
    match scope_to_tier("conv:telegram:60996061:42") {
        MemoryTier::Private(_) => {}
        other => panic!("expected Private, got {other:?}"),
    }
}

#[test]
fn scope_to_tier_group_extracts_id() {
    match scope_to_tier("group:techteam:relay_config") {
        MemoryTier::Group(id) => assert_eq!(id, "techteam"),
        other => panic!("expected Group(techteam), got {other:?}"),
    }
}

#[test]
fn scope_to_tier_unscoped_defaults_to_public() {
    assert_eq!(scope_to_tier("some_legacy_key"), MemoryTier::Public);
}

fn ranked(mem: &CollectiveMemory) -> Vec<(SnowMemory, u64)> {
    mem.index.rows.iter().map(|m| (m.clone(), 1.0f64.to_bits())).collect()
}

fn recall(mem: &CollectiveMemory, context: Option<&RecallContext>) -> Vec<MemoryEntry> {
    mem.recall_with_context(&ranked(mem), 10, context)
}

#[test]
fn recall_without_context_returns_all_tiers() {
    let mut mem = memory();
    mem.store("core:fact", "Snowclaw tier test public", &MemoryCategory::Core, NOW);
    mem.store("pref:lang", "Snowclaw tier test private", &MemoryCategory::Core, NOW);
    mem.store("group:techteam:config", "Snowclaw tier test group", &MemoryCategory::Core, NOW);

    let results = recall(&mem, None);
    assert_eq!(results.len(), 3, "Without context, all tiers should be visible");
}

#[test]
fn recall_main_session_sees_all_tiers() {
    let mut mem = memory();
    mem.store("core:fact", "Snowclaw session test public", &MemoryCategory::Core, NOW);
    mem.store("pref:lang", "Snowclaw session test private", &MemoryCategory::Core, NOW);
    mem.store("group:techteam:config", "Snowclaw session test group", &MemoryCategory::Core, NOW);

    let ctx = RecallContext {
        is_main_session: true,
        channel: Some("nostr".into()),
        group_id: None,
    };

    let results = recall(&mem, Some(&ctx));
    assert_eq!(results.len(), 3, "Main session should see all tiers");
}

#[test]
fn recall_group_sees_public_and_matching_group() {
    let mut mem = memory();
    mem.store("core:fact", "Snowclaw grouptest public data", &MemoryCategory::Core, NOW);
    mem.store("pref:lang", "Snowclaw grouptest private data", &MemoryCategory::Core, NOW);
    mem.store(
        "group:techteam:config",
        "Snowclaw grouptest techteam data",
        &MemoryCategory::Core,
        NOW,
    );
    mem.store("group:other:secret", "Snowclaw grouptest other data", &MemoryCategory::Core, NOW);

    let ctx = RecallContext {
        is_main_session: false,
        channel: Some("nostr".into()),
        group_id: Some("techteam".into()),
    };

    let results = recall(&mem, Some(&ctx));
    let keys: Vec<&str> = results.iter().map(|r| r.key.as_str()).collect();

    assert!(keys.contains(&"core:fact"), "Should see public memory");
    assert!(keys.contains(&"group:techteam:config"), "Should see matching group memory");
    assert!(!keys.contains(&"pref:lang"), "Should NOT see private memory in group context");
    assert!(!keys.contains(&"group:other:secret"), "Should NOT see other group's memory");
}

#[test]
fn recall_other_channel_sees_public_only() {
    let mut mem = memory();
    mem.store("core:fact", "Snowclaw chantest public info", &MemoryCategory::Core, NOW);
    mem.store("pref:lang", "Snowclaw chantest private info", &MemoryCategory::Core, NOW);
    mem.store("group:techteam:config", "Snowclaw chantest group info", &MemoryCategory::Core, NOW);

    let ctx = RecallContext {
        is_main_session: false,
        channel: Some("telegram".into()),
        group_id: None,
    };

    let results = recall(&mem, Some(&ctx));
    let keys: Vec<&str> = results.iter().map(|r| r.key.as_str()).collect();

    assert!(keys.contains(&"core:fact"), "Should see public memory");
    assert!(!keys.contains(&"pref:lang"), "Should NOT see private memory");
    assert!(
        !keys.contains(&"group:techteam:config"),
        "Should NOT see group memory without group_id"
    );
}

#[test]
fn recall_stops_at_the_limit() {
    let mut mem = memory();
    for i in 0..5 {
        mem.store(&format!("core:{i}"), "x", &MemoryCategory::Core, NOW);
    }
    assert_eq!(mem.recall_with_context(&ranked(&mem), 2, None).len(), 2);
    assert_eq!(CollectiveMemory::fetch_limit(4, None), 4);
}

#[test]
fn sync_notes_the_latest_time() {
    let keys = Keys::generate();
    let mut source = shared_memory(&keys);
    let a = source.store("core:a", "first", &MemoryCategory::Core, NOW);
    let b = source.store("core:b", "second", &MemoryCategory::Core, NOW);

    let mut mem = shared_memory(&keys);
    let events = vec![
        SyncedEvent { memory: Some(a), created_at: 50 },
        SyncedEvent { memory: None, created_at: 900 },
        SyncedEvent { memory: Some(b), created_at: 40 },
    ];
    assert_eq!(mem.sync_from_relay(&events), Some(2));
    assert_eq!(mem.last_sync, Some(50));
    assert_eq!(mem.get("core:a").unwrap().content, "first");

    let query = mem.sync_query().unwrap();
    assert_eq!(query.author, keys.public_key().to_hex());
    assert_eq!(query.kind, 30078);
    assert_eq!(query.since, Some(50));

    assert_eq!(mem.full_resync(&vec![]), Some(0));
    assert_eq!(mem.last_sync, Some(0));

    assert_eq!(memory().sync_from_relay(&events), None);
    assert!(memory().sync_query().is_none());
}

#[test]
fn index_in_memory_is_not_synced_from_behind() {
    assert!(!syncs_in_background(":memory:"));
    assert!(syncs_in_background("/tmp/collective.db"));
}

#[test]
fn promotion_keeps_the_others() {
    let mut mem = memory();
    mem.store_with_tier("pref:a", "one", private(), NOW);
    mem.store_with_tier("pref:b", "two", private(), NOW);
    let m = mem.promote("pref:a", MemoryTier::Public, NOW + 1).unwrap();
    assert_eq!(mem.count(), 2);
    mem.index.upsert(m);
    assert_eq!(mem.count(), 2);
    assert_eq!(mem.get("pref:b").unwrap().content, "two");
}
