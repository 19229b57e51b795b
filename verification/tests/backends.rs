use snowclaw::channels::event::NostrEvent;
use snowclaw::memory::nomen_policy::resolve_store_policy;
use snowclaw::memory::nomen_socket_adapter::{
    default_socket_path, parse_get_result, parse_list_results,
    parse_search_results, request_failure, split_tier, NomenSocketMemory,
    tier_to_category,
};
use snowclaw::memory::nostr::NostrMemory;
use snowclaw::memory::nostr_sqlite::{recall_hits, recall_rows, NostrSqliteMemory};
use snowclaw::memory::runtime_context::{MemoryRuntimeContext, MemoryVisibility};
use snowclaw::memory::snowclaw_backends::{
    classify, snowclaw_backend_profile, SnowclawBackendKind,
};
use snowclaw::memory::backend::MemoryBackendKind;
use snowclaw::memory::traits::{promotion_unsupported, reindex_unsupported, MemoryCategory};

const NOW: &str = "2026-02-18T00:00:00+00:00";

#[test]
fn honors_canonical_visibility_from_custom_category() {
    let policy = resolve_store_policy(&MemoryCategory::Custom("public".into()), None);
    assert_eq!(policy.tier, "public");
    assert_eq!(policy.limitation, None);
}

#[test]
fn honors_scoped_group_category() {
    let policy = resolve_store_policy(
        &MemoryCategory::Custom("group:techteam".into()),
        Some("telegram_-1003821690204_k0"),
    );
    assert_eq!(policy.tier, "group:techteam");
    assert_eq!(policy.channel_hint.as_deref(), Some("telegram"));
    assert_eq!(policy.limitation, None);
}

#[test]
fn plain_group_without_scope_is_not_treated_as_canonical() {
    let policy = resolve_store_policy(&MemoryCategory::Custom("group".into()), None);
    assert_eq!(policy.tier, "personal");
    assert!(policy.limitation.is_some());
}

#[test]
fn core_category_falls_back_with_explicit_limitation() {
    let policy = resolve_store_policy(&MemoryCategory::Core, Some("sess-42"));
    assert_eq!(policy.tier, "personal");
    assert_eq!(policy.channel_hint, None);
    assert!(policy
        .limitation
        .unwrap()
        .contains("lacks canonical runtime scope/channel context"));
}

#[test]
fn extracts_only_best_effort_channel_hint_from_session_id() {
    let policy = resolve_store_policy(&MemoryCategory::Conversation, Some("discord_thread_123"));
    assert_eq!(policy.channel_hint.as_deref(), Some("discord"));
    assert_eq!(policy.tier, "personal");
}

fn parts(tier: &str) -> (String, String) {
    split_tier(tier)
}

#[test]
fn split_tier_handles_scoped_and_unscoped() {
    assert_eq!(parts("personal"), ("personal".to_string(), "".to_string()));
    assert_eq!(parts("group:techteam"), ("group".to_string(), "techteam".to_string()));
    assert_eq!(parts("circle:inner"), ("circle".to_string(), "inner".to_string()));
}

#[test]
fn tier_to_category_maps_personal_to_core() {
    assert_eq!(tier_to_category("personal"), MemoryCategory::Core);
    assert_eq!(tier_to_category("internal"), MemoryCategory::Core);
    assert_eq!(tier_to_category("public"), MemoryCategory::Custom("public".into()));
}

#[test]
fn parse_search_results_handles_empty() {
    let entries = parse_search_results(r#"{"count": 0, "results": []}"#);
    assert!(entries.is_empty());
}

#[test]
fn parse_search_results_maps_fields() {
    let result = r#"{
        "count": 1,
        "results": [{
            "topic": "favorite_lang",
            "summary": "Rust is great",
            "detail": "Rust is a systems language",
            "visibility": "personal",
            "scope": "",
            "confidence": 0.95,
            "created_at": "2026-03-13T00:00:00Z",
            "d_tag": "dtag-1"
        }]
    }"#;
    let entries = parse_search_results(result);
    assert_eq!(entries.len(), 1);
    assert_eq!(entries[0].key, "favorite_lang");
    assert_eq!(entries[0].content, "Rust is a systems language");
    assert_eq!(entries[0].category, MemoryCategory::Core);
    assert_eq!(entries[0].score.map(f64::from_bits), Some(0.95));
    assert_eq!(entries[0].id, "dtag-1");
}

#[test]
fn parse_list_results_handles_empty() {
    let entries = parse_list_results(r#"{"count": 0, "memories": []}"#);
    assert!(entries.is_empty());
}

#[test]
fn one_memory_is_read_from_an_answer() {
    let answer = r#"{"topic":"t","summary":"s","content":"long","visibility":"public"}"#;
    let entry = parse_get_result(answer, None).unwrap();
    assert_eq!(entry.key, "t");
    assert!(parse_get_result("{}", None).is_none());
}

#[test]
fn default_socket_path_is_reasonable() {
    let path = default_socket_path(Some("/run/user/1000"), "me");
    assert_eq!(path, "/run/user/1000/nomen/nomen.sock");
    assert!(default_socket_path(None, "me").contains("nomen"));
}

#[test]
fn nomen_socket_memory_reports_correct_name() {
    let mem = NomenSocketMemory::new(Some("/tmp/test-nomen.sock"), None, "me");
    assert_eq!(mem.name(), "nomen-socket");
    assert_eq!(mem.socket_path, "/tmp/test-nomen.sock");
}

#[test]
fn requests_carry_the_setting() {
    let mem = NomenSocketMemory::new(None, None, "me");
    let ctx = MemoryRuntimeContext::new(MemoryVisibility::Group, "techteam", None);
    let put = mem.store_with_context("k", "v", &MemoryCategory::Core, None, Some(&ctx));
    assert_eq!(put.topic, "k");
    assert_eq!(put.visibility, "group");
    assert_eq!(put.scope.as_deref(), Some("techteam"));

    let find = mem.recall_with_context("q", 5, Some(&ctx));
    assert_eq!(find.query.as_deref(), Some("q"));
    assert_eq!(find.limit, 5);
    assert_eq!(find.scope.as_deref(), Some("techteam"));

    let list = mem.list_with_context(None, None);
    assert!(list.query.is_none());
    assert_eq!(list.limit, 1000);
    assert_eq!(request_failure("memory.put", None), "memory.put failed: unknown error");
}

#[test]
fn public_context_uses_public_tier_without_scope_suffix() {
    let ctx = MemoryRuntimeContext::new(
        MemoryVisibility::Public,
        "",
        Some("telegram:-1003821690204:694"),
    );
    assert_eq!(ctx.nomen_tier(), "public");
    assert_eq!(ctx.allowed_nomen_scopes(), None);
}

#[test]
fn group_context_preserves_scope_and_channel_separately() {
    let ctx = MemoryRuntimeContext::new(
        MemoryVisibility::Group,
        "techteam",
        Some("telegram:-1003821690204:694"),
    );
    assert_eq!(ctx.nomen_tier(), "group:techteam");
    assert_eq!(ctx.allowed_nomen_scopes(), Some(vec!["techteam".to_string()]));
    assert_eq!(ctx.channel.as_deref(), Some("telegram:-1003821690204:694"));
}

#[test]
fn classify_snowclaw_backends() {
    assert_eq!(classify("nostr"), SnowclawBackendKind::Nostr);
    assert_eq!(classify("collective"), SnowclawBackendKind::Collective);
}

#[test]
fn classify_upstream_backends_pass_through() {
    assert_eq!(classify("sqlite"), SnowclawBackendKind::Upstream(MemoryBackendKind::Sqlite));
    assert_eq!(classify("markdown"), SnowclawBackendKind::Upstream(MemoryBackendKind::Markdown));
    assert_eq!(classify("redis"), SnowclawBackendKind::Upstream(MemoryBackendKind::Unknown));
}

#[test]
fn snowclaw_profiles_have_expected_keys() {
    assert_eq!(snowclaw_backend_profile("nostr").unwrap().key, "nostr");
    assert_eq!(snowclaw_backend_profile("collective").unwrap().key, "collective");
    assert!(snowclaw_backend_profile("sqlite").is_none());
}

#[test]
fn memory_category_display_outputs_expected_values() {
    assert_eq!(MemoryCategory::Core.to_string(), "core");
    assert_eq!(MemoryCategory::Daily.to_string(), "daily");
    assert_eq!(MemoryCategory::Conversation.to_string(), "conversation");
    assert_eq!(MemoryCategory::Custom("project_notes".into()).to_string(), "project_notes");
}

#[test]
fn category_names_read_back() {
    for name in ["core", "daily", "conversation", "project"] {
        assert_eq!(MemoryCategory::from_name(name).to_string(), name);
    }
    assert_eq!(
        promotion_unsupported("sqlite"),
        "sqlite backend does not support memory promotion"
    );
    assert_eq!(reindex_unsupported("nostr"), "Reindex not supported by nostr backend");
}

#[test]
fn nostr_d_tag_format() {
    let mem = NostrMemory::local_only();
    let d_tag = mem.d_tag("user:k0:profile", &MemoryCategory::Core);
    assert_eq!(d_tag, "snowclaw:core:user:k0:profile");
}

#[test]
fn nostr_parse_d_tag_roundtrip() {
    let mem = NostrMemory::local_only();
    let (cat, key) = mem.parse_d_tag("snowclaw:daily:2026-02-18").unwrap();
    assert_eq!(cat.to_string(), "daily");
    assert_eq!(key, "2026-02-18");
}

#[test]
fn nostr_local_only_store_and_recall() {
    let mut mem = NostrMemory::local_only();
    mem.store("lang", "Rust is fast", &MemoryCategory::Core, None, NOW, 1);

    let results = mem.recall("rust", 10, None, None);
    assert_eq!(results.len(), 1);
    assert_eq!(results[0].key, "lang");
    assert!(results[0].content.contains("Rust"));
}

#[test]
fn nostr_local_only_get_and_forget() {
    let mut mem = NostrMemory::local_only();
    mem.store("key1", "value1", &MemoryCategory::Core, None, NOW, 1);

    let entry = mem.get("key1", &vec![]);
    assert!(entry.is_some());

    let removed = mem.forget("key1", false);
    assert!(removed);

    let entry = mem.get("key1", &vec![]);
    assert!(entry.is_none());
}

#[test]
fn nostr_local_only_count_and_list() {
    let mut mem = NostrMemory::local_only();
    mem.store("a", "aa", &MemoryCategory::Core, None, NOW, 1);
    mem.store("b", "bb", &MemoryCategory::Daily, None, NOW, 2);

    assert_eq!(mem.count(None), 2);

    let core = mem.list(Some(&MemoryCategory::Core), None, None);
    assert_eq!(core.len(), 1);
}

#[test]
fn nostr_name_is_nostr() {
    assert_eq!(NostrMemory::local_only().name(), "nostr");
}

#[test]
fn relay_answers_come_before_the_cache() {
    let mut mem = NostrMemory::new(Some("wss://relay"), Some("secret"));
    assert!(mem.has_relay_config());
    let draft = mem.store("k", "cached", &MemoryCategory::Core, Some("s"), NOW, 1);
    assert_eq!(draft.kind, 30078);
    let event = NostrEvent {
        id: "01".repeat(32),
        pubkey: "02".repeat(32),
        kind: draft.kind,
        created_at: 1_700_000_000,
        tags: draft.tags,
        content: "from relay".to_string(),
    };
    assert_eq!(mem.get("k", &vec![]).unwrap().content, "cached");
    let entry = mem.get("k", &vec![event]).unwrap();
    assert_eq!(entry.content, "from relay");
    assert_eq!(entry.key, "k");
    assert_eq!(entry.session_id.as_deref(), Some("s"));
}

#[test]
fn nostr_sqlite_d_tag_format() {
    let mem = NostrSqliteMemory::new_default(None, None);
    let d_tag = mem.d_tag("user:profile", &MemoryCategory::Core);
    assert_eq!(d_tag, "snowclaw:core:user:profile");
}

#[test]
fn nostr_sqlite_parse_d_tag_roundtrip() {
    let mem = NostrSqliteMemory::new_default(None, None);
    let d_tag = "snowclaw:daily:2026-02-18";
    let (cat, key) = mem.parse_d_tag(d_tag).unwrap();
    assert_eq!(cat, MemoryCategory::Daily);
    assert_eq!(key, "2026-02-18");
}

#[test]
fn parse_d_tag_custom_category() {
    let mem = NostrSqliteMemory::new_default(None, None);
    let d_tag = "snowclaw:project:my-key";
    let (cat, key) = mem.parse_d_tag(d_tag).unwrap();
    assert_eq!(cat, MemoryCategory::Custom("project".to_string()));
    assert_eq!(key, "my-key");
}

#[test]
fn parse_d_tag_invalid_prefix() {
    let mem = NostrSqliteMemory::new_default(None, None);
    assert!(mem.parse_d_tag("other:core:key").is_none());
}

#[test]
fn nostr_sqlite_local_only_get_and_forget() {
    let mut mem = NostrSqliteMemory::new_default(None, None);
    mem.store("key1", "value1", &MemoryCategory::Core, None);

    let entry = mem.get("key1", &vec![]);
    assert!(entry.is_some());

    let removed = mem.forget("key1");
    assert!(removed);

    let entry = mem.get("key1", &vec![]);
    assert!(entry.is_none());
}

#[test]
fn nostr_sqlite_local_only_count_and_list() {
    let mut mem = NostrSqliteMemory::new_default(None, None);
    mem.store("a", "aa", &MemoryCategory::Core, None);
    mem.store("b", "bb", &MemoryCategory::Daily, None);

    assert_eq!(mem.count(), 2);

    let core = mem.list(Some(&MemoryCategory::Core), None);
    assert_eq!(core.len(), 1);
}

#[test]
fn nostr_sqlite_name_is_nostr() {
    assert_eq!(NostrSqliteMemory::new_default(None, None).name(), "nostr");
}

#[test]
fn has_relay_config_false_without_config() {
    let mem = NostrSqliteMemory::new_default(None, None);
    assert!(!mem.has_relay_config());
}

#[test]
fn upsert_overwrites_in_sqlite() {
    let mut mem = NostrSqliteMemory::new_default(None, None);
    mem.store("pref", "likes Rust", &MemoryCategory::Core, None);
    mem.store("pref", "loves Rust", &MemoryCategory::Core, None);

    let entry = mem.get("pref", &vec![]).unwrap();
    assert_eq!(entry.content, "loves Rust");
    assert_eq!(mem.count(), 1);
}

#[test]
fn shared_memory_comes_back_from_the_relay() {
    let keys = nostr_sdk::Keys::generate();
    let secret = keys.secret_key().to_secret_hex();
    let mut mem = NostrSqliteMemory::new(Some("wss://relay"), Some(&secret), true);
    let draft = mem.store("k", "plain words", &MemoryCategory::Daily, None).unwrap();
    assert_ne!(draft.content, "plain words");

    let event = NostrEvent {
        id: "03".repeat(32),
        pubkey: keys.public_key().to_hex(),
        kind: draft.kind,
        created_at: 1_700_000_000,
        tags: draft.tags,
        content: draft.content,
    };
    let mut other = NostrSqliteMemory::new(Some("wss://relay"), Some(&secret), true);
    assert_eq!(other.sync_from_relay(&vec![event]), 1);
    let back = other.get("k", &vec![]).unwrap();
    assert_eq!(back.content, "plain words");
    assert_eq!(back.category, MemoryCategory::Daily);
}

#[test]
fn nostr_sqlite_local_only_store_and_recall() {
    let mut mem = NostrSqliteMemory::new_default(None, None);
    mem.store("lang", "Rust is fast", &MemoryCategory::Core, None);

    let results = mem.recall("Rust", 10, None).unwrap();
    assert!(!results.is_empty());
    assert!(results.iter().any(|r| r.0 == "lang"));
}

#[test]
fn shared_recall_keeps_to_the_session() {
    let mut mem = NostrSqliteMemory::new_default(None, None);
    mem.store("a", "Rust in the first session", &MemoryCategory::Core, Some("one"));
    mem.store("b", "Rust in the second session", &MemoryCategory::Daily, Some("two"));
    let results = mem.recall("rust", 10, Some("two")).unwrap();
    assert_eq!(results.len(), 1);
    assert_eq!(results[0].0, "b");
    assert_eq!(results[0].1.content, "Rust in the second session");
    assert_eq!(mem.recall("rust", 10, None).unwrap().len(), 2);
    assert_eq!(mem.recall("rust", 1, None).unwrap().len(), 1);
    assert!(mem.recall("  ", 10, None).unwrap().is_empty());
    assert!(mem.recall("python", 10, None).unwrap().is_empty());
}

#[test]
fn recall_hits_carry_their_rows_and_scores() {
    let mut mem = NostrSqliteMemory::new_default(None, None);
    mem.store("a", "one", &MemoryCategory::Core, None);
    mem.store("b", "two", &MemoryCategory::Core, None);
    let list = mem.list(None, None);
    assert_eq!(recall_rows(&list), vec![vec!["a", "one", "", ""], vec!["b", "two", "", ""]]);
    let hits = recall_hits(&list, &vec![(1, 1.5f64.to_bits())]);
    assert_eq!(hits.len(), 1);
    assert_eq!((hits[0].0.as_str(), hits[0].1.content.as_str()), ("b", "two"));
    assert_eq!(f64::from_bits(hits[0].2), 1.5);
}
