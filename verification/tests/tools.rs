use snowclaw::channels::nostr_memory::SocialDb;
use snowclaw::memory::collective::{CollectiveMemory, CollectiveMemoryConfig};
use snowclaw::memory::doc_index::index_content;
use snowclaw::memory::message_index::{index_message, IndexableMessage};
use snowclaw::memory::nostr_sqlite::NostrSqliteMemory;
use snowclaw::memory::social::{upsert_npub, SocialNpub};
use snowclaw::memory::traits::{MemoryCategory, MemoryTier};
use snowclaw::tools::agent_lesson::{
    fetch_unpublished, mark_published, store_lesson, AgentLessonTool, LessonTable,
};
use snowclaw::tools::memory_store::{MemoryStoreTool, StoreArgs, StoreStep};
use snowclaw::tools::nostr_tasks::{NostrTaskTool, TaskArgs};
use snowclaw::tools::social_search::SocialSearchTool;
use snowclaw::tools::traits::ToolResult;

const NOW: &str = "2026-02-18T00:00:00+00:00";

#[test]
fn store_and_retrieve_lesson() {
    let mut t = LessonTable::new();
    let id = store_lesson(&mut t, "Users prefer concise responses", 7);
    assert_eq!(id, 1);

    let lessons = fetch_unpublished(&t);
    assert_eq!(lessons.len(), 1);
    assert_eq!(lessons[0].1, "Users prefer concise responses");
}

#[test]
fn mark_published_removes_from_unpublished() {
    let mut t = LessonTable::new();
    let id = store_lesson(&mut t, "Test lesson", 7);
    mark_published(&mut t, id, "abc123");

    let lessons = fetch_unpublished(&t);
    assert!(lessons.is_empty());
}

#[test]
fn publishing_one_lesson_leaves_the_others() {
    let mut t = LessonTable::new();
    store_lesson(&mut t, "first", 1);
    let second = store_lesson(&mut t, "second", 2);
    mark_published(&mut t, 99, "none");
    mark_published(&mut t, second, "abc");
    assert_eq!(fetch_unpublished(&t), vec![(1, "first".to_string(), 1)]);
}

fn lesson_tool() -> AgentLessonTool {
    AgentLessonTool { table: Some(LessonTable::new()) }
}

#[test]
fn tool_stores_lesson() {
    let mut tool = lesson_tool();
    let result = tool.execute(Some("Relay config usually means NIP-29 group setup"), 7).unwrap();
    assert!(result.success);
    assert!(result.output.contains("Lesson recorded"));
    assert!(result.output.contains("(id=1)"));
}

#[test]
fn tool_rejects_empty_lesson() {
    let mut tool = lesson_tool();
    let result = tool.execute(Some("  "), 7).unwrap();
    assert!(!result.success);
    assert!(result.error.unwrap().contains("empty"));
}

#[test]
fn tool_no_db_returns_error() {
    let mut tool = AgentLessonTool { table: None };
    let result = tool.execute(Some("test"), 7).unwrap();
    assert!(!result.success);
    assert!(result.error.unwrap().contains("not available"));
}

#[test]
fn tool_missing_param_returns_error() {
    let mut tool = lesson_tool();
    let result = tool.execute(None, 7);
    assert!(result.is_err());
}

const TOOL: MemoryStoreTool = MemoryStoreTool {};

fn args(key: Option<&str>, content: Option<&str>) -> StoreArgs {
    StoreArgs {
        key: key.map(String::from),
        content: content.map(String::from),
        category: None,
        tier: None,
    }
}

fn run(mem: &mut NostrSqliteMemory, args: &StoreArgs, denied: Option<&str>) -> ToolResult {
    match TOOL.execute(args, denied.map(String::from)) {
        StoreStep::Missing(e) => panic!("{e}"),
        StoreStep::Refused(r) => r,
        StoreStep::Store { key, content, category, warning, .. } => {
            mem.store(&key, &content, &category, None);
            TOOL.stored(&key, &warning, None)
        }
    }
}

fn backend() -> NostrSqliteMemory {
    NostrSqliteMemory::new_default(None, None)
}

#[test]
fn store_core() {
    let mut mem = backend();
    let result = run(&mut mem, &args(Some("lang"), Some("Prefers Rust")), None);
    assert!(result.success);
    assert!(result.output.contains("lang"));

    let entry = mem.get("lang", &vec![]);
    assert!(entry.is_some());
    assert_eq!(entry.unwrap().content, "Prefers Rust");
}

#[test]
fn store_with_category() {
    let mut mem = backend();
    let mut a = args(Some("note"), Some("Fixed bug"));
    a.category = Some("daily".to_string());
    let result = run(&mut mem, &a, None);
    assert!(result.success);
    assert_eq!(mem.get("note", &vec![]).unwrap().category, MemoryCategory::Daily);
}

#[test]
fn store_with_custom_category() {
    let mut mem = backend();
    let mut a = args(Some("proj_note"), Some("Uses async runtime"));
    a.category = Some("project".to_string());
    let result = run(&mut mem, &a, None);
    assert!(result.success);

    let entry = mem.get("proj_note", &vec![]).unwrap();
    assert_eq!(entry.content, "Uses async runtime");
    assert_eq!(entry.category, MemoryCategory::Custom("project".into()));
}

#[test]
fn store_missing_key() {
    let result = TOOL.execute(&args(None, Some("no key")), None);
    assert!(matches!(result, StoreStep::Missing("Missing 'key' parameter")));
}

#[test]
fn store_missing_content() {
    let result = TOOL.execute(&args(Some("no_content"), None), None);
    assert!(matches!(result, StoreStep::Missing("Missing 'content' parameter")));
}

#[test]
fn store_blocked_in_readonly_mode() {
    let mut mem = backend();
    let result =
        run(&mut mem, &args(Some("lang"), Some("Prefers Rust")), Some("read-only mode"));
    assert!(!result.success);
    assert!(result.error.as_deref().unwrap_or("").contains("read-only mode"));
    assert!(mem.get("lang", &vec![]).is_none());
}

#[test]
fn store_blocked_when_rate_limited() {
    let mut mem = backend();
    let result =
        run(&mut mem, &args(Some("lang"), Some("Prefers Rust")), Some("Rate limit exceeded"));
    assert!(!result.success);
    assert!(result.error.as_deref().unwrap_or("").contains("Rate limit exceeded"));
    assert!(mem.get("lang", &vec![]).is_none());
}

#[test]
fn store_tool_has_a_name() {
    assert_eq!(TOOL.name(), "memory_store");
    assert!(TOOL.description().starts_with("Store a fact"));
}

#[test]
fn store_rejects_empty_key() {
    let result = run(&mut backend(), &args(Some(""), Some("data")), None);
    assert!(!result.success);
    assert!(result.error.as_deref().unwrap_or("").contains("non-empty"));
}

#[test]
fn store_rejects_key_over_256_chars() {
    let long_key = "x".repeat(257);
    let result = run(&mut backend(), &args(Some(&long_key), Some("data")), None);
    assert!(!result.success);
    assert!(result.error.as_deref().unwrap_or("").contains("too long"));
}

#[test]
fn store_accepts_valid_scoped_key() {
    let result = run(&mut backend(), &args(Some("core:timezone"), Some("UTC+3")), None);
    assert!(result.success);
    assert!(!result.output.contains("Warning"));
}

#[test]
fn store_warns_on_unknown_scope() {
    let result = run(&mut backend(), &args(Some("weird:stuff"), Some("data")), None);
    assert!(result.success);
    assert!(result.output.contains("Unknown scope"));
}

#[test]
fn store_with_tier_hint() {
    let config = CollectiveMemoryConfig { db_path: ":memory:".to_string(), relay_urls: vec![] };
    let mut mem = CollectiveMemory::new_in_memory(&config);
    let mut a = args(Some("pref:lang"), Some("Rust"));
    a.tier = Some("private".to_string());
    match TOOL.execute(&a, None) {
        StoreStep::Store { key, content, tier: Some(tier), warning, .. } => {
            assert_eq!(tier, MemoryTier::Private("self".to_string()));
            mem.store_with_tier(&key, &content, tier, 7);
            assert!(TOOL.stored(&key, &warning, None).success);
        }
        _ => panic!("the memory is not stored"),
    }
    assert!(mem.get("pref:lang").is_some());
}

#[test]
fn tier_hints() {
    let tier = |hint: &str| {
        let mut a = args(Some("k"), Some("v"));
        a.tier = Some(hint.to_string());
        match TOOL.execute(&a, None) {
            StoreStep::Store { tier, .. } => tier.unwrap(),
            _ => panic!("the memory is not stored"),
        }
    };
    assert_eq!(tier("public"), MemoryTier::Public);
    assert_eq!(tier("group:team"), MemoryTier::Group("team".to_string()));
    assert_eq!(tier("whatever"), MemoryTier::Public);
}

#[test]
fn backend_error_is_reported() {
    let r = TOOL.stored("k", &None, Some("disk full"));
    assert!(!r.success);
    assert_eq!(r.error.as_deref(), Some("Failed to store memory: disk full"));
}

fn task_args(action: &str) -> TaskArgs {
    TaskArgs {
        action: Some(action.to_string()),
        title: None,
        description: None,
        task_id: None,
        status: None,
        detail: None,
        filter_status: None,
    }
}

fn task_tool() -> NostrTaskTool {
    NostrTaskTool::new(vec![])
}

#[test]
fn create_and_list() {
    let mut tool = task_tool();
    let mut create = task_args("create");
    create.title = Some("Test task".to_string());
    create.description = Some("A test".to_string());
    let result = tool.execute(&create, NOW, 42);
    assert!(result.success);
    assert!(result.output.contains("Test task"));
    assert_eq!(tool.tasks[0].kind, Some(1621));

    let result = tool.execute(&task_args("list"), NOW, 43);
    assert!(result.success);
    assert!(result.output.contains("Test task"));
    assert!(result.output.contains("draft"));
}

#[test]
fn update_status() {
    let mut tool = task_tool();
    let mut create = task_args("create");
    create.title = Some("Update me".to_string());
    tool.execute(&create, NOW, 42);

    let list = tool.execute(&task_args("list"), NOW, 43);
    let task_id = list
        .output
        .lines()
        .find(|l| l.contains("Update me"))
        .and_then(|l| l.split(':').nth(0))
        .and_then(|s| s.split(']').nth(1))
        .map(|s| s.trim())
        .unwrap();
    assert_eq!(task_id, "task-42");

    let mut update = task_args("update");
    update.task_id = Some(task_id.to_string());
    update.status = Some("executing".to_string());
    let result = tool.execute(&update, NOW, 44);
    assert!(result.success);
    assert!(result.output.contains("executing"));
    let history = tool.tasks[0].status_history.as_ref().unwrap();
    assert_eq!(history.len(), 2);
    assert_eq!(history[1].kind, 1634);
}

#[test]
fn update_missing_task() {
    let mut tool = task_tool();
    let mut update = task_args("update");
    update.task_id = Some("nonexistent".to_string());
    update.status = Some("done".to_string());
    let result = tool.execute(&update, NOW, 1);
    assert!(!result.success);
    assert!(result.error.unwrap().contains("not found"));
}

#[test]
fn list_with_filter() {
    let mut tool = task_tool();
    let mut create = task_args("create");
    create.title = Some("Task A".to_string());
    tool.execute(&create, NOW, 1);

    let mut list = task_args("list");
    list.filter_status = Some("executing".to_string());
    let result = tool.execute(&list, NOW, 2);
    assert!(result.success);
    assert!(result.output.contains("No tasks found"));
}

#[test]
fn incomplete_updates_are_refused() {
    let mut tool = task_tool();
    let error = |r: ToolResult| r.error.unwrap();
    assert_eq!(tool.name(), "nostr_task");
    assert!(!tool.description().is_empty());
    let mut update = task_args("update");
    assert_eq!(error(tool.execute(&update, NOW, 1)), "task_id is required for update");
    update.task_id = Some("x".to_string());
    assert_eq!(error(tool.execute(&update, NOW, 1)), "status is required for update");
    update.status = Some("odd".to_string());
    assert_eq!(error(tool.execute(&update, NOW, 1)), "Unknown status: odd");
    assert_eq!(
        error(tool.execute(&task_args("fly"), NOW, 1)),
        "Unknown action: fly. Use create, update, or list."
    );
    assert!(tool.tasks.is_empty());
}

fn search_tool(db: SocialDb) -> SocialSearchTool {
    SocialSearchTool { db: Some(db) }
}

#[test]
fn no_db_returns_not_available() {
    let tool = SocialSearchTool { db: None };
    let result = tool.execute(Some("test"), None).unwrap();
    assert!(result.success);
    assert!(result.output.contains("not available"));
}

#[test]
fn empty_db_returns_no_results() {
    let tool = search_tool(SocialDb::new());
    let result = tool.execute(Some("anything"), None).unwrap();
    assert!(result.success);
    assert!(result.output.contains("No social results"));
}

#[test]
fn finds_social_contact() {
    let mut db = SocialDb::new();
    upsert_npub(
        &mut db.social,
        &SocialNpub {
            hex_pubkey: "aabbccdd".into(),
            display_name: "RustDeveloper".into(),
            first_seen: 1000,
            first_seen_group: None,
            last_interaction: 2000,
            profile_json: None,
            name_history_json: None,
            notes_json: Some(r#"["likes Rust"]"#.into()),
            owner_notes_json: None,
            preferences_json: None,
            is_owner: false,
        },
    );

    let result = search_tool(db).execute(Some("RustDeveloper"), None).unwrap();
    assert!(result.success);
    assert!(result.output.contains("RustDeveloper"));
    assert!(result.output.contains("social"));
    assert_eq!(
        result.output,
        "Found 1 results:\n- [social] RustDeveloper (aabbccdd) — notes: likes Rust\n"
    );
}

fn message(id: &str, sender: &str, content: &str) -> IndexableMessage {
    IndexableMessage {
        event_id: id.to_string(),
        sender_hex: sender.to_string(),
        group_id: None,
        content: content.to_string(),
        created_at: 1700000000,
        kind: 1,
    }
}

#[test]
fn finds_indexed_message() {
    let mut db = SocialDb::new();
    index_message(
        &mut db.messages,
        &message("evt1", "aabbccdd", "Discussion about async Rust patterns"),
    );

    let result = search_tool(db).execute(Some("async Rust"), None).unwrap();
    assert!(result.success);
    assert!(result.output.contains("async"));
    assert!(result.output.contains("message"));
    assert!(result.output.contains("(from aabbccdd 2023-11-14)"));
}

#[test]
fn finds_indexed_document() {
    let mut db = SocialDb::new();
    let content = "Getting started with systems programming";
    index_content(&mut db.docs, "v://guide.md", content, &vec![content.into()], "document", NOW);

    let result = search_tool(db).execute(Some("systems programming"), None).unwrap();
    assert!(result.success);
    assert!(result.output.contains("systems programming"));
    assert!(result.output.contains("document"));
}

#[test]
fn missing_query_returns_error() {
    let tool = search_tool(SocialDb::new());
    let result = tool.execute(None, None);
    assert!(result.is_err());
}

#[test]
fn social_search_respects_limit() {
    let mut db = SocialDb::new();
    for i in 0..10 {
        index_message(
            &mut db.messages,
            &message(&format!("evt{i}"), "aabb", &format!("common keyword discussion item {i}")),
        );
    }

    let result = search_tool(db).execute(Some("common keyword"), Some(3)).unwrap();
    assert!(result.success);
    assert!(result.output.contains("Found 3"));
}
