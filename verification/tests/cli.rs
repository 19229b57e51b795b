use snowclaw::channels::nostr_memory::{NostrMemory, SocialDb};
use snowclaw::config::snowclaw_schema::NostrConfig;
use snowclaw::memory::traits::{MemoryCategory, MemoryEntry};
use snowclaw::memory_cli::{self, MemoryCommands, MemoryReply, MemoryRequest};
use snowclaw::nostr_cli::contacts::cmd_memory;
use snowclaw::nostr_cli::identity::{
    cmd_import, cmd_keygen, cmd_relays, cmd_whoami, get_nsec_from_config, has_key, keygen_closing,
    resolve_to_hex, wants_saving,
};
use snowclaw::nostr_cli::profile::{
    chosen_about, chosen_name, chosen_picture, cmd_profile, profile_published, ProfileError,
};
use snowclaw::nostr_cli::settings::{
    sending_channel, settings_draft, settings_published, show_settings,
};
use snowclaw::nostr_cli::NostrMemoryAction;
use snowclaw::task_cli::{self, status_to_kind, TaskCommands};
use snowclaw::tasks::{
    last_task_number, next_task_number, normalize_task_id, parse_snow_number, Task,
};
use snowclaw::text_map::TextMap;

const NOW: &str = "2026-02-18T00:00:00+00:00";
const KEY: &str = "79be667ef9dcbbac55a06295ce870b07029bfcdb2dce28d959f2815b16f81798";
const ONE: &str = "0000000000000000000000000000000000000000000000000000000000000001";

fn create(title: &str) -> TaskCommands {
    TaskCommands::Create {
        title: title.to_string(),
        description: None,
        status: "draft".to_string(),
    }
}

#[test]
fn tasks_are_numbered() {
    let mut tasks: Vec<Task> = vec![];
    let text = task_cli::handle_command(&create("First"), &mut tasks, NOW).unwrap();
    assert_eq!(text, "Created SNOW-1: First\n");
    let text = task_cli::handle_command(&create("Second"), &mut tasks, NOW).unwrap();
    assert_eq!(text, "Created SNOW-2: Second\n");
    assert_eq!(last_task_number(&tasks), 2);
    assert_eq!(next_task_number(&tasks), 3);
}

#[test]
fn task_ids_in_any_form() {
    assert_eq!(normalize_task_id(" 7 "), "SNOW-7");
    assert_eq!(normalize_task_id("snow-7"), "SNOW-7");
    assert_eq!(normalize_task_id("SNOW-07"), "SNOW-7");
    assert_eq!(normalize_task_id("task-123"), "task-123");
    assert_eq!(parse_snow_number("SNOW-12"), Some(12));
    assert_eq!(parse_snow_number("snow-12"), None);
}

#[test]
fn task_update_and_status() {
    let mut tasks: Vec<Task> = vec![];
    task_cli::handle_command(&create("First"), &mut tasks, NOW).unwrap();
    let update = TaskCommands::Update {
        id: "1".to_string(),
        status: "done".to_string(),
        detail: Some("shipped".to_string()),
    };
    assert_eq!(
        task_cli::handle_command(&update, &mut tasks, "later").unwrap(),
        "Updated SNOW-1 to done\n"
    );
    let status = TaskCommands::Status { id: "1".to_string() };
    let text = task_cli::handle_command(&status, &mut tasks, NOW).unwrap();
    assert_eq!(
        text,
        format!(
            "Task: SNOW-1\n  Title:   First\n  Status:  done\n  Created: {NOW}\n  Updated: later\n  \
             History:\n    {NOW}: draft\n    later: done — shipped\n"
        )
    );
}

#[test]
fn task_lists() {
    let mut tasks: Vec<Task> = vec![];
    let all = TaskCommands::List { status: None };
    assert_eq!(task_cli::handle_command(&all, &mut tasks, NOW).unwrap(), "No tasks found.\n");
    task_cli::handle_command(&create("First"), &mut tasks, NOW).unwrap();
    assert_eq!(
        task_cli::handle_command(&all, &mut tasks, NOW).unwrap(),
        format!("1 task(s):\n  [draft] SNOW-1: First (updated: {NOW})\n")
    );
    let done = TaskCommands::List { status: Some("done".to_string()) };
    assert_eq!(task_cli::handle_command(&done, &mut tasks, NOW).unwrap(), "No tasks found.\n");
}

#[test]
fn task_errors() {
    let mut tasks: Vec<Task> = vec![];
    let bad = TaskCommands::Create {
        title: "x".to_string(),
        description: None,
        status: "odd".to_string(),
    };
    let e = task_cli::handle_command(&bad, &mut tasks, NOW).unwrap_err();
    assert_eq!(
        e,
        "Unknown status: odd. Valid: draft, queued, executing, blocked, review, done, failed, cancelled"
    );
    assert!(tasks.is_empty());
    let update = TaskCommands::Update {
        id: "9".to_string(),
        status: "done".to_string(),
        detail: None,
    };
    assert_eq!(
        task_cli::handle_command(&update, &mut tasks, NOW).unwrap_err(),
        "Task not found: SNOW-9"
    );
    let status = TaskCommands::Status { id: "9".to_string() };
    assert_eq!(
        task_cli::handle_command(&status, &mut tasks, NOW).unwrap(),
        "Task not found: SNOW-9\n"
    );
}

#[test]
fn task_status_kinds() {
    let kinds: Vec<u16> =
        ["queued", "done", "cancelled", "draft", "executing", "blocked", "review", "failed"]
            .iter()
            .map(|s| status_to_kind(s).unwrap())
            .collect();
    assert_eq!(kinds, vec![1630, 1631, 1632, 1633, 1634, 1635, 1636, 1637]);
    assert!(status_to_kind("Done").is_err());
}

fn entry(key: &str, content: &str, timestamp: &str) -> MemoryEntry {
    MemoryEntry {
        id: "1".to_string(),
        key: key.to_string(),
        content: content.to_string(),
        category: MemoryCategory::Core,
        timestamp: timestamp.to_string(),
        session_id: None,
        score: None,
    }
}

#[test]
fn memory_requests() {
    let note = MemoryCommands::Note {
        key: "k".to_string(),
        content: "c".to_string(),
        category: "DAILY".to_string(),
    };
    match memory_cli::request(&note) {
        MemoryRequest::Store(k, c, cat) => {
            assert_eq!((k.as_str(), c.as_str()), ("k", "c"));
            assert_eq!(cat, MemoryCategory::Daily);
        }
        other => panic!("{other:?}"),
    }
    assert!(matches!(
        memory_cli::request(&MemoryCommands::List { category: None }),
        MemoryRequest::List(None)
    ));
    assert_eq!(memory_cli::parse_category("Project"), MemoryCategory::Custom("project".into()));
}

#[test]
fn memory_texts() {
    let show = MemoryCommands::Show { key: "k".to_string() };
    let mut e = entry("k", "hello", "2026");
    e.session_id = Some("s".to_string());
    assert_eq!(
        memory_cli::handle_command(&show, &MemoryReply::Entry(Some(e))),
        "Key:      k\nCategory: core\nUpdated:  2026\nSession:  s\n---\nhello\n"
    );
    assert_eq!(
        memory_cli::handle_command(&show, &MemoryReply::Entry(None)),
        "No memory found for key: k\n"
    );
    let list = MemoryCommands::List { category: None };
    let long = "x".repeat(61);
    let entries = vec![entry("old", "a", "2025"), entry("new", &long, "2026")];
    assert_eq!(
        memory_cli::handle_command(&list, &MemoryReply::Entries(entries)),
        format!(
            "2 memory entries:\n  [core] new: {}... (2026)\n  [core] old: a (2025)\n",
            "x".repeat(60)
        )
    );
    assert_eq!(
        memory_cli::handle_command(&list, &MemoryReply::Entries(vec![])),
        "No memory entries found.\n"
    );
    let note = MemoryCommands::Note {
        key: "k".to_string(),
        content: "c".to_string(),
        category: "Core".to_string(),
    };
    assert_eq!(
        memory_cli::handle_command(&note, &MemoryReply::Stored),
        "Stored memory: k (Core)\n"
    );
    let forget = MemoryCommands::Forget { key: "k".to_string() };
    assert_eq!(
        memory_cli::handle_command(&forget, &MemoryReply::Forgotten(true)),
        "Forgot memory: k\n"
    );
    assert_eq!(
        memory_cli::handle_command(&forget, &MemoryReply::Forgotten(false)),
        "No memory found for key: k\n"
    );
    assert_eq!(
        memory_cli::handle_command(&MemoryCommands::Count, &MemoryReply::Counted(3)),
        "3 memory entries\n"
    );
}

fn config(nsec: Option<&str>) -> NostrConfig {
    NostrConfig {
        nsec: nsec.map(String::from),
        relays: vec!["wss://a".to_string(), "wss://b".to_string()],
        allowed_pubkeys: vec![],
        owner: None,
        groups: vec!["team".to_string()],
        respond_mode: "mention_only".to_string(),
        group_respond_mode: TextMap::new(),
        mention_names: vec![],
        listen_dms: true,
        context_history: 12,
    }
}

#[test]
fn keys_in_any_form() {
    assert_eq!(resolve_to_hex(&KEY.to_uppercase()).unwrap(), KEY);
    let npub = nostr_sdk::ToBech32::to_bech32(&nostr_sdk::PublicKey::from_hex(KEY).unwrap()).unwrap();
    assert_eq!(resolve_to_hex(&npub).unwrap(), KEY);
    assert!(resolve_to_hex("npub1nonsense").unwrap_err().starts_with("Invalid npub: "));
    assert_eq!(
        resolve_to_hex("alice").unwrap_err(),
        "Expected npub1... or 64-char hex pubkey, got: alice"
    );
}

#[test]
fn new_keys_belong_together() {
    let keys = cmd_keygen();
    let parsed = nostr_sdk::Keys::parse(&keys.nsec).unwrap();
    assert_eq!(parsed.public_key().to_hex(), keys.hex);
    assert!(keys.nsec.starts_with("nsec1"));
    assert!(keys.text.contains(&keys.hex));
    assert_ne!(cmd_keygen().hex, keys.hex);
}

#[test]
fn answers_to_saving() {
    assert!(wants_saving("\n"));
    assert!(wants_saving(" Y \n"));
    assert!(wants_saving("YES"));
    assert!(!wants_saving("no"));
    assert_eq!(keygen_closing("nsec1x", true), "✅ Saved to config.\n");
    assert!(keygen_closing("nsec1x", false).contains("snowclaw nostr import nsec1x"));
}

#[test]
fn identity_is_shown() {
    let text = cmd_whoami(&Some(config(Some(ONE))), None).unwrap();
    assert!(text.contains(KEY));
    assert!(text.contains("npub1"));
    let text = cmd_whoami(&None, Some(ONE.to_string())).unwrap();
    assert!(text.contains(KEY));
    assert!(cmd_whoami(&None, None).unwrap().starts_with("No Nostr identity configured."));
    assert_eq!(
        cmd_whoami(&Some(config(Some("bad"))), None).unwrap_err(),
        "Invalid nsec in config: Invalid secret key"
    );
    assert!(has_key(&None, true));
    assert!(!has_key(&Some(config(None)), false));
    assert_eq!(
        get_nsec_from_config(&Some(config(Some("a"))), Some("b".to_string())),
        Some("a".to_string())
    );
}

#[test]
fn key_is_imported() {
    let mut ns: Option<NostrConfig> = None;
    let text = cmd_import(ONE, &mut ns).unwrap();
    assert!(text.contains(KEY));
    let c = ns.as_ref().unwrap();
    assert!(c.nsec.as_ref().unwrap().starts_with("nsec1"));
    assert_eq!(c.respond_mode, "mention");
    assert_eq!(c.context_history, 20);
    assert!(c.listen_dms);

    let mut ns = Some(config(None));
    cmd_import(ONE, &mut ns).unwrap();
    assert_eq!(ns.as_ref().unwrap().context_history, 12);

    let mut none: Option<NostrConfig> = None;
    assert_eq!(cmd_import("bad", &mut none).unwrap_err(), "Invalid nsec: Invalid secret key");
    assert!(none.is_none());
}

#[test]
fn relays_are_listed() {
    assert_eq!(
        cmd_relays(&Some(config(None))),
        "📡 Configured relays:\n\n  wss://a\n  wss://b\n"
    );
    assert!(cmd_relays(&None).starts_with("No relays configured."));
}

#[test]
fn settings_are_published() {
    let draft = settings_draft(Some("team"), false, Some("all"), Some(5)).unwrap();
    assert_eq!(draft.tags[0], vec!["d", "snowclaw:config:group:team"]);
    let draft = settings_draft(Some("team"), true, None, None).unwrap();
    assert_eq!(draft.tags[0], vec!["d", "snowclaw:config:global"]);
    assert_eq!(
        settings_draft(None, false, None, None).unwrap_err(),
        "Specify --global or --group <name>"
    );
    assert_eq!(
        settings_published("abc", Some("all"), Some(5)),
        "✅ Published config event: abc\n   respond_mode: all\n   context_history: 5\n"
    );
    let mut c = config(None);
    c.group_respond_mode.insert("team".to_string(), "always".to_string());
    let text = show_settings(&c, Some("team"));
    assert!(text.starts_with("📡 Dynamic config for group:team:\n"));
    assert!(text.contains("   file config respond_mode: always\n"));
    assert!(!show_settings(&c, None).contains("respond_mode: always"));
}

#[test]
fn sending_channel_needs_a_key() {
    let channel = sending_channel(&Some(config(Some(ONE))), None, "/tmp").unwrap();
    assert_eq!(channel.public_key, KEY);
    assert!(!channel.listen_dms);
    assert_eq!(channel.context_history, 12);
    assert!(matches!(sending_channel(&None, None, "/tmp"), Err("Nostr not configured")));
    assert!(matches!(
        sending_channel(&Some(config(None)), None, "/tmp"),
        Err("No nsec configured")
    ));
    assert!(matches!(
        sending_channel(&Some(config(Some("bad"))), None, "/tmp"),
        Err("Invalid secret key")
    ));
}

#[test]
fn contacts_are_shown_and_noted() {
    let mut mem = NostrMemory::with_sqlite(SocialDb::new(), &vec![], &vec![]);
    let show = NostrMemoryAction::Show { npub: KEY.to_string() };
    assert_eq!(
        cmd_memory(&show, &mut mem, 5).unwrap(),
        "No memory found for 79be667ef9dcbbac\n"
    );
    let note = NostrMemoryAction::Note { npub: KEY.to_string(), text: "friend".to_string() };
    assert_eq!(
        cmd_memory(&note, &mut mem, 5).unwrap(),
        "✅ Owner note added for 79be667ef9dcbbac\n"
    );
    assert_eq!(
        cmd_memory(&show, &mut mem, 6).unwrap(),
        "📇 Contact: unknown (79be667ef9dcbbac)\n   First seen: 5 (DM)\n   Last interaction: 5\n   \
         Owner notes:\n     - friend\n"
    );
    assert_eq!(
        cmd_memory(&NostrMemoryAction::List, &mut mem, 7).unwrap(),
        "📇 Known contacts (1):\n  unknown (79be667ef9dcbbac) [1 notes]\n"
    );
    assert!(cmd_memory(&NostrMemoryAction::Show { npub: "x".to_string() }, &mut mem, 8).is_err());
}

#[test]
fn groups_are_shown() {
    let mut mem = NostrMemory::with_sqlite(SocialDb::new(), &vec![], &vec![]);
    let group = NostrMemoryAction::Group { group: "team".to_string() };
    assert_eq!(
        cmd_memory(&group, &mut mem, 1).unwrap(),
        "No memory found for group #team\n"
    );
    mem.ensure_group("team", 9);
    mem.set_group_purpose("team", "work");
    mem.record_group_member("team", "aa");
    mem.add_group_note("team", "busy");
    assert_eq!(
        cmd_memory(&group, &mut mem, 1).unwrap(),
        "📋 Group: #team\n   Purpose: work\n   Members seen: 1\n   Last activity: 9\n   Notes:\n     - busy\n"
    );
    let mut none = NostrMemory::new();
    assert_eq!(
        cmd_memory(&NostrMemoryAction::List, &mut none, 1).unwrap(),
        "No contacts in memory yet.\n"
    );
}

#[test]
fn profile_is_prepared() {
    let name = Some("Snow".to_string());
    let picture = Some("https://example.com/a.png".to_string());
    let mut c = config(Some(ONE));
    c.owner = Some(KEY.to_string());
    let ns = Some(c);
    let p = cmd_profile(&name, &None, &picture, &None, &ns, None).unwrap();
    assert_eq!(p.draft.kind, 0);
    assert_eq!(p.draft.tags, vec![vec!["bot".to_string()], vec!["p".to_string(), KEY.to_string()]]);
    let json: serde_json::Value = serde_json::from_str(&p.draft.content).unwrap();
    assert_eq!(json["name"], "Snow");
    assert_eq!(json["display_name"], "Snow");
    assert_eq!(json["picture"], "https://example.com/a.png");
    assert!(json.get("about").is_none());
    assert!(p.npub.starts_with("npub1"));
}

#[test]
fn profile_errors() {
    let none: Option<String> = None;
    let run = |ns: &Option<NostrConfig>, picture: &Option<String>| {
        cmd_profile(&None, &None, picture, &None, ns, None).err()
    };
    assert!(matches!(run(&None, &none), Some(ProfileError::NotConfigured)));
    assert!(matches!(run(&Some(config(None)), &none), Some(ProfileError::NoSecret)));
    assert!(matches!(run(&Some(config(Some("bad"))), &none), Some(ProfileError::BadSecret)));
    let bad = Some("no address".to_string());
    assert!(matches!(run(&Some(config(Some(ONE))), &bad), Some(ProfileError::BadPicture(_))));
    let mut c = config(Some(ONE));
    c.owner = Some("nobody".to_string());
    assert!(matches!(run(&Some(c), &none), Some(ProfileError::BadOwner)));
}

#[test]
fn onboarding_answers() {
    assert_eq!(chosen_name("\n"), "Snowclaw❄️");
    assert_eq!(chosen_name(" Bob \n"), "Bob");
    assert_eq!(chosen_about(""), "Nostr-native AI agent 🏔️");
    assert_eq!(chosen_picture("  "), None);
    assert_eq!(chosen_picture("http://x\n"), Some("http://x".to_string()));
    assert_eq!(
        profile_published("npub1x", &Some("N".to_string()), &None, &None, &None, "ev"),
        "✅ Profile published!\n   npub: npub1x\n   name: N\n   event: ev\n"
    );
}

#[test]
fn created_tasks_have_the_task_kind() {
    let mut tasks: Vec<Task> = vec![];
    for n in 1..=3 {
        task_cli::handle_command(&create("Task"), &mut tasks, NOW).unwrap();
        let task = &tasks[n - 1];
        assert_eq!(task.id, Some(format!("SNOW-{n}")));
        assert_eq!(task.kind, Some(1621));
        assert_eq!(task.created_at, task.updated_at);
        let history = task.status_history.as_ref().unwrap();
        assert_eq!(history.len(), 1);
        assert_eq!(history[0].kind, 1633);
    }
    let update = TaskCommands::Update {
        id: "2".to_string(),
        status: "done".to_string(),
        detail: None,
    };
    task_cli::handle_command(&update, &mut tasks, NOW).unwrap();
    assert_eq!(tasks[1].kind, Some(1621));
}

#[test]
fn a_made_out_task_id_means_itself() {
    for input in ["1", "snow-1", "SNOW-1", "+1", " Snow-1 "] {
        let id = normalize_task_id(input);
        assert_eq!(id, "SNOW-1");
        assert_eq!(normalize_task_id(&id), id);
    }
    assert_eq!(normalize_task_id(&normalize_task_id(" task-9 ")), "task-9");
}
