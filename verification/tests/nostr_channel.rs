use snowclaw::channels::event::NostrEvent;
use snowclaw::channels::nostr::channel::{HistoryMessage, NostrChannel, NostrChannelConfig};
use snowclaw::channels::nostr::config::{
    apply_config_entry, parse_config_event, DynamicConfig, GroupConfig, RespondMode,
};
use snowclaw::channels::nostr::listen::{parse_command, task_status_name, OwnerCommand};
use snowclaw::channels::nostr::publish::{config_event_draft, group_message_draft, route, Recipient};
use snowclaw::channels::recent::RecentTexts;
use snowclaw::text_map::TextMap;

const OWN: &str = "aaaaaaaaaaaaaaaaaaaaaaaaaaaaaaaaaaaaaaaaaaaaaaaaaaaaaaaaaaaaaaaa";
const OTHER: &str = "79be667ef9dcbbac55a06295ce870b07029bfcdb2dce28d959f2815b16f81798";

fn tag(parts: &[&str]) -> Vec<String> {
    parts.iter().map(|p| p.to_string()).collect()
}

fn event(kind: u16, content: &str, tags: Vec<Vec<String>>) -> NostrEvent {
    NostrEvent {
        id: "0123456789abcdef0123456789abcdef0123456789abcdef0123456789abcdef".to_string(),
        pubkey: OTHER.to_string(),
        kind,
        created_at: 1_700_000_000,
        tags,
        content: content.to_string(),
    }
}

fn config() -> NostrChannelConfig {
    NostrChannelConfig {
        relays: vec!["wss://relay.example.com".to_string()],
        public_key: OWN.to_string(),
        groups: vec!["test-group".to_string()],
        listen_dms: true,
        allowed_pubkeys: vec![],
        deny_all: false,
        respond_mode: RespondMode::Mention,
        group_respond_mode: TextMap::new(),
        mention_names: vec!["snowclaw".to_string()],
        owner: None,
        context_history: 20,
        persist_dir: "/tmp".to_string(),
        indexed_paths: vec![],
        index_interval_minutes: 30,
    }
}

#[test]
fn nostr_channel_config_is_constructible() {
    let config = config();
    assert_eq!(config.relays.len(), 1);
    assert_eq!(config.groups.len(), 1);
    assert!(config.listen_dms);
    assert_eq!(config.public_key, OWN);
}

#[test]
fn respond_mode_from_str_owner() {
    assert_eq!(RespondMode::from_str("owner"), RespondMode::Owner);
    assert_eq!(RespondMode::from_str("Owner"), RespondMode::Owner);
    assert_eq!(RespondMode::from_str("OWNER"), RespondMode::Owner);
}

#[test]
fn respond_mode_words() {
    assert_eq!(RespondMode::from_str("ALL"), RespondMode::All);
    assert_eq!(RespondMode::from_str("silent"), RespondMode::Silent);
    assert_eq!(RespondMode::from_str("listen"), RespondMode::Silent);
    assert_eq!(RespondMode::from_str("none"), RespondMode::Silent);
    assert_eq!(RespondMode::from_str("anything"), RespondMode::Mention);
}

#[test]
fn extract_group_from_tags() {
    let event = event(9, "hello", vec![tag(&["h", "test-group"])]);
    let group = NostrChannel::extract_group(&event);
    assert_eq!(group, Some("test-group".to_string()));
}

#[test]
fn extract_group_missing_tag() {
    let event = event(9, "hello", vec![]);
    let group = NostrChannel::extract_group(&event);
    assert_eq!(group, None);
}

#[test]
fn compact_group_header_format() {
    let header = NostrChannel::compact_group_header(
        "techteam",
        "k0sh",
        "npub1abcdef1234567890abcdef",
        9,
        "abcdef1234567890",
        false,
    );
    assert_eq!(
        header,
        "[nostr:group=#techteam from=k0sh npub=npub1abcdef123456789 kind=9 id=abcdef12]"
    );
}

#[test]
fn compact_group_header_owner() {
    let header = NostrChannel::compact_group_header(
        "techteam",
        "k0sh",
        "npub1abcdef1234567890abcdef",
        9,
        "abcdef1234567890",
        true,
    );
    assert_eq!(
        header,
        "[nostr:group=#techteam from=k0sh npub=npub1abcdef123456789 role=owner kind=9 id=abcdef12]"
    );
}

#[test]
fn compact_task_content_with_detail() {
    let content = NostrChannel::compact_task_content(
        "abcdef1234567890",
        "abc1234567890000",
        "Executing",
        "working on it",
    );
    assert_eq!(content, "[nostr:event=abcdef12] Task abc12345 → Executing: working on it");
}

#[test]
fn compact_task_content_without_detail() {
    let content =
        NostrChannel::compact_task_content("abcdef1234567890", "abc1234567890000", "Done", "");
    assert_eq!(content, "[nostr:event=abcdef12] Task abc12345 → Done");
}

#[test]
fn build_metadata_includes_fields() {
    let event = event(9, "test", vec![tag(&["h", "mygroup"])]);
    let meta = NostrChannel::build_metadata(&event, Some("mygroup"), true).unwrap();
    assert_eq!(meta.get("nostr_event_id").unwrap(), &event.id);
    assert_eq!(meta.get("nostr_pubkey").unwrap(), &event.pubkey);
    assert_eq!(meta.get("nostr_kind").unwrap(), "9");
    assert_eq!(meta.get("nostr_group").unwrap(), "mygroup");
    assert_eq!(meta.get("nostr_is_owner").unwrap(), "true");
}

#[test]
fn build_metadata_without_group() {
    let event = event(1631, "done", vec![]);
    let meta = NostrChannel::build_metadata(&event, None, false).unwrap();
    assert!(!meta.contains_key("nostr_group"));
    assert!(!meta.contains_key("nostr_is_owner"));
    assert_eq!(meta.get("nostr_kind").unwrap(), "1631");
}

#[test]
fn parse_config_event_valid() {
    let event = event(
        30078,
        "",
        vec![
            tag(&["d", "snowclaw:config:group:techteam"]),
            tag(&["respond_mode", "all"]),
            tag(&["context_history", "30"]),
        ],
    );
    let (d_tag, gc) = parse_config_event(&event).unwrap();
    assert_eq!(d_tag, "snowclaw:config:group:techteam");
    assert_eq!(gc.respond_mode, Some(RespondMode::All));
    assert_eq!(gc.context_history, Some(30));
}

#[test]
fn parse_config_event_global() {
    let event = event(
        30078,
        "",
        vec![tag(&["d", "snowclaw:config:global"]), tag(&["respond_mode", "owner"])],
    );
    let (d_tag, gc) = parse_config_event(&event).unwrap();
    assert_eq!(d_tag, "snowclaw:config:global");
    assert_eq!(gc.respond_mode, Some(RespondMode::Owner));
    assert_eq!(gc.context_history, None);
}

#[test]
fn parse_config_event_other_scope() {
    assert!(parse_config_event(&event(30078, "", vec![tag(&["d", "other:config"])])).is_none());
    assert!(parse_config_event(&event(30078, "", vec![])).is_none());
}

#[test]
fn apply_config_entry_scopes() {
    let mut dc = DynamicConfig::default();

    apply_config_entry(
        &mut dc,
        (
            "snowclaw:config:global".into(),
            GroupConfig { respond_mode: Some(RespondMode::Owner), context_history: Some(10) },
        ),
    );
    assert!(dc.global.is_some());

    apply_config_entry(
        &mut dc,
        (
            "snowclaw:config:group:test".into(),
            GroupConfig { respond_mode: Some(RespondMode::All), context_history: None },
        ),
    );
    assert!(dc.groups.contains_key("test"));

    apply_config_entry(
        &mut dc,
        (
            "snowclaw:config:npub:abc123".into(),
            GroupConfig { respond_mode: Some(RespondMode::Mention), context_history: Some(5) },
        ),
    );
    assert!(dc.npubs.contains_key("abc123"));
}

#[test]
fn event_cache_store_and_retrieve() {
    let mut cache = RecentTexts::new(10);
    cache.put("id1".to_string(), "cached msg".to_string());
    let retrieved = cache.get("id1");
    assert!(retrieved.is_some());
    assert_eq!(retrieved.unwrap(), "cached msg");
}

#[test]
fn event_cache_eviction() {
    let cap = 1000;
    let mut cache = RecentTexts::new(cap);
    let mut first_id = String::new();

    for i in 0..=cap {
        let id = format!("event {i}");
        if i == 0 {
            first_id = id.clone();
        }
        cache.put(id, format!("msg {i}"));
    }

    assert!(cache.get(&first_id).is_none());
    assert_eq!(cache.len(), cap);
}

#[test]
fn used_entry_outlives_older_ones() {
    let mut cache = RecentTexts::new(2);
    cache.put("a".to_string(), "1".to_string());
    cache.put("b".to_string(), "2".to_string());
    assert_eq!(cache.get("a"), Some("1".to_string()));
    cache.put("c".to_string(), "3".to_string());
    assert!(cache.contains("a"));
    assert!(!cache.contains("b"));
    assert!(cache.contains("c"));
}

#[test]
fn channel_caches_raw_events() {
    let mut channel = NostrChannel::new(config());
    channel.cache_event("e1", "{\"id\":\"e1\"}");
    assert_eq!(channel.get_raw_event_json("e1"), Some("{\"id\":\"e1\"}".to_string()));
    assert_eq!(channel.get_raw_event_json("e2"), None);
}

#[test]
fn strangers_are_kept_out() {
    let mut c = config();
    c.allowed_pubkeys = vec![OWN.to_string()];
    let channel = NostrChannel::new(c);
    assert!(channel.is_allowed(OWN));
    assert!(!channel.is_allowed(OTHER));

    let mut closed = config();
    closed.deny_all = true;
    assert!(!NostrChannel::new(closed).is_allowed(OTHER));

    assert!(NostrChannel::new(config()).is_allowed(OTHER));
}

#[test]
fn mode_of_a_group_wins_over_the_global_one() {
    let mut channel = NostrChannel::new(config());
    assert_eq!(channel.respond_mode_for_group("test-group"), RespondMode::Mention);
    channel.dynamic.set_global_mode(RespondMode::Silent);
    assert_eq!(channel.respond_mode_for_group("test-group"), RespondMode::Silent);
    channel.dynamic.set_group_mode("test-group", RespondMode::All);
    assert_eq!(channel.respond_mode_for_group("test-group"), RespondMode::All);
    assert_eq!(channel.respond_mode_for_group("other"), RespondMode::Silent);
}

#[test]
fn mention_by_name_in_any_case() {
    let channel = NostrChannel::new(config());
    assert!(channel.is_mentioned(&event(9, "hey SnowClaw, hello", vec![])));
    assert!(channel.is_mentioned(&event(9, "hello", vec![tag(&["p", OWN])])));
    assert!(!channel.is_mentioned(&event(9, "hello", vec![])));
}

#[test]
fn history_keeps_the_latest_messages() {
    let mut c = config();
    c.context_history = 2;
    let mut channel = NostrChannel::new(c);
    for i in 0..3 {
        channel.push_history(
            "g",
            HistoryMessage {
                sender: format!("s{i}"),
                npub: "npub1abc".to_string(),
                content: format!("m{i}"),
                timestamp: i,
                event_id: format!("e{i}"),
                is_owner: false,
            },
        );
    }
    let text = channel.format_history_context("g", "e2");
    assert!(!text.contains("m0"));
    assert!(text.contains("m1"));
    assert!(!text.contains("m2"));
}

#[test]
fn published_settings_read_back() {
    let draft = config_event_draft("snowclaw:config:group:x", Some("all"), Some(7));
    assert_eq!(draft.kind, 30078);
    let e = event(draft.kind, &draft.content, draft.tags);
    let (d, gc) = parse_config_event(&e).unwrap();
    assert_eq!(d, "snowclaw:config:group:x");
    assert_eq!(gc.respond_mode, Some(RespondMode::All));
    assert_eq!(gc.context_history, Some(7));
}

#[test]
fn group_message_carries_its_group() {
    let draft = group_message_draft("team", "hi");
    assert_eq!(draft.kind, 9);
    assert_eq!(draft.content, "hi");
    assert_eq!(draft.tags[0], tag(&["h", "team"]));
}

#[test]
fn outgoing_messages_are_routed() {
    assert!(matches!(route("#team"), Recipient::Group(_)));
    assert!(matches!(route(OTHER), Recipient::Person(_)));
}

#[test]
fn owner_commands_are_read() {
    assert!(matches!(parse_command("unknown words"), OwnerCommand::Nothing));
    assert_eq!(task_status_name(1631), "Done");
}
