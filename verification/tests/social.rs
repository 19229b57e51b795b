use snowclaw::memory::social::{
    add_npub_note, build_social_context, get_group, get_npub, npub_hits, npub_rows, search_social, upsert_group,
    upsert_npub, SocialGroup, SocialNpub, SocialTables,
};

fn sample_npub(hex: &str, name: &str) -> SocialNpub {
    SocialNpub {
        hex_pubkey: hex.to_string(),
        display_name: name.to_string(),
        first_seen: 1000,
        first_seen_group: Some("test_group".to_string()),
        last_interaction: 2000,
        profile_json: None,
        name_history_json: None,
        notes_json: None,
        owner_notes_json: None,
        preferences_json: None,
        is_owner: false,
    }
}

fn sample_group(id: &str) -> SocialGroup {
    SocialGroup {
        group_id: id.to_string(),
        purpose: Some("testing".to_string()),
        members_json: Some(serde_json::to_string(&vec!["aabb", "ccdd"]).unwrap()),
        notes_json: None,
        last_activity: 3000,
    }
}

#[test]
fn upsert_and_get_npub() {
    let mut t = SocialTables::new();
    upsert_npub(&mut t, &sample_npub("aabb", "Alice"));

    let fetched = get_npub(&t, "aabb").unwrap();
    assert_eq!(fetched.hex_pubkey, "aabb");
    assert_eq!(fetched.display_name, "Alice");
    assert_eq!(fetched.first_seen, 1000);
    assert_eq!(fetched.last_interaction, 2000);
}

#[test]
fn get_nonexistent_npub_returns_none() {
    let t = SocialTables::new();
    assert!(get_npub(&t, "nonexistent").is_none());
}

#[test]
fn upsert_npub_updates_on_conflict() {
    let mut t = SocialTables::new();
    let npub = sample_npub("aabb", "Alice");
    upsert_npub(&mut t, &npub);

    let updated = SocialNpub {
        display_name: "Alice V2".to_string(),
        last_interaction: 5000,
        ..npub
    };
    upsert_npub(&mut t, &updated);

    let fetched = get_npub(&t, "aabb").unwrap();
    assert_eq!(fetched.display_name, "Alice V2");
    assert_eq!(fetched.last_interaction, 5000);
    assert_eq!(fetched.first_seen, 1000);
}

#[test]
fn upsert_npub_preserves_existing_notes_when_new_is_null() {
    let mut t = SocialTables::new();
    let npub = SocialNpub {
        notes_json: Some(serde_json::to_string(&vec!["existing note"]).unwrap()),
        ..sample_npub("aabb", "Alice")
    };
    upsert_npub(&mut t, &npub);

    let updated = SocialNpub {
        notes_json: None,
        last_interaction: 5000,
        ..sample_npub("aabb", "Alice")
    };
    upsert_npub(&mut t, &updated);

    let fetched = get_npub(&t, "aabb").unwrap();
    assert!(fetched.notes_json.is_some());
    let notes: Vec<String> = serde_json::from_str(fetched.notes_json.as_ref().unwrap()).unwrap();
    assert_eq!(notes, vec!["existing note"]);
}

#[test]
fn add_agent_note() {
    let mut t = SocialTables::new();
    upsert_npub(&mut t, &sample_npub("aabb", "Alice"));

    add_npub_note(&mut t, "aabb", "likes Rust", false);
    add_npub_note(&mut t, "aabb", "prefers CLI tools", false);

    let fetched = get_npub(&t, "aabb").unwrap();
    let notes: Vec<String> = serde_json::from_str(fetched.notes_json.as_ref().unwrap()).unwrap();
    assert_eq!(notes, vec!["likes Rust", "prefers CLI tools"]);
}

#[test]
fn add_owner_note() {
    let mut t = SocialTables::new();
    upsert_npub(&mut t, &sample_npub("aabb", "Alice"));

    add_npub_note(&mut t, "aabb", "core team member", true);

    let fetched = get_npub(&t, "aabb").unwrap();
    let notes: Vec<String> =
        serde_json::from_str(fetched.owner_notes_json.as_ref().unwrap()).unwrap();
    assert_eq!(notes, vec!["core team member"]);
    assert!(fetched.notes_json.is_none());
}

#[test]
fn add_note_to_nonexistent_npub_is_noop() {
    let mut t = SocialTables::new();
    add_npub_note(&mut t, "nonexistent", "test note", false);
    assert!(t.is_empty());
}

#[test]
fn upsert_and_get_group() {
    let mut t = SocialTables::new();
    upsert_group(&mut t, &sample_group("dev_team"));

    let fetched = get_group(&t, "dev_team").unwrap();
    assert_eq!(fetched.group_id, "dev_team");
    assert_eq!(fetched.purpose.as_deref(), Some("testing"));
    assert_eq!(fetched.last_activity, 3000);
}

#[test]
fn get_nonexistent_group_returns_none() {
    let t = SocialTables::new();
    assert!(get_group(&t, "nonexistent").is_none());
}

#[test]
fn upsert_group_updates_on_conflict() {
    let mut t = SocialTables::new();
    upsert_group(&mut t, &sample_group("team"));

    let updated = SocialGroup {
        purpose: Some("production".to_string()),
        last_activity: 9000,
        ..sample_group("team")
    };
    upsert_group(&mut t, &updated);

    let fetched = get_group(&t, "team").unwrap();
    assert_eq!(fetched.purpose.as_deref(), Some("production"));
    assert_eq!(fetched.last_activity, 9000);
}

#[test]
fn build_context_empty_db() {
    let t = SocialTables::new();
    let ctx = build_social_context(&t, "aabb", "test");
    assert!(ctx.is_empty());
}

#[test]
fn build_context_includes_group_purpose() {
    let mut t = SocialTables::new();
    upsert_group(&mut t, &sample_group("dev"));

    let ctx = build_social_context(&t, "aabb", "dev");
    assert!(ctx.contains("testing"));
}

#[test]
fn build_context_includes_group_notes() {
    let mut t = SocialTables::new();
    let group = SocialGroup {
        notes_json: Some(serde_json::to_string(&vec!["active channel"]).unwrap()),
        ..sample_group("dev")
    };
    upsert_group(&mut t, &group);

    let ctx = build_social_context(&t, "aabb", "dev");
    assert!(ctx.contains("active channel"));
}

#[test]
fn build_context_includes_sender_notes() {
    let mut t = SocialTables::new();
    upsert_npub(&mut t, &sample_npub("aabb", "Alice"));
    add_npub_note(&mut t, "aabb", "likes Rust", false);
    add_npub_note(&mut t, "aabb", "core team", true);

    let ctx = build_social_context(&t, "aabb", "test");
    assert!(ctx.contains("likes Rust"));
    assert!(ctx.contains("core team"));
    assert!(ctx.contains("Alice"));
}

#[test]
fn build_context_limits_notes_to_3() {
    let mut t = SocialTables::new();
    upsert_npub(&mut t, &sample_npub("aabb", "Alice"));
    for i in 0..10 {
        add_npub_note(&mut t, "aabb", &format!("note_{i}"), false);
    }

    let ctx = build_social_context(&t, "aabb", "test");
    assert!(ctx.contains("note_7"));
    assert!(ctx.contains("note_8"));
    assert!(ctx.contains("note_9"));
    assert!(!ctx.contains("note_0"));
}

#[test]
fn search_by_display_name() {
    let mut t = SocialTables::new();
    upsert_npub(&mut t, &sample_npub("aabb", "Alice"));
    upsert_npub(&mut t, &sample_npub("ccdd", "Bob"));

    let results = search_social(&t, "Alice", 10).unwrap();
    assert_eq!(results.len(), 1);
    assert_eq!(results[0].hex_pubkey, "aabb");
}

#[test]
fn search_by_notes_content() {
    let mut t = SocialTables::new();
    upsert_npub(&mut t, &sample_npub("aabb", "Alice"));
    add_npub_note(&mut t, "aabb", "expert in cryptography", false);

    let results = search_social(&t, "cryptography", 10).unwrap();
    assert_eq!(results.len(), 1);
    assert_eq!(results[0].hex_pubkey, "aabb");
}

#[test]
fn search_by_owner_notes() {
    let mut t = SocialTables::new();
    upsert_npub(&mut t, &sample_npub("aabb", "Alice"));
    add_npub_note(&mut t, "aabb", "VIP contact", true);

    let results = search_social(&t, "VIP", 10).unwrap();
    assert_eq!(results.len(), 1);
}

#[test]
fn search_empty_query_returns_empty() {
    let mut t = SocialTables::new();
    upsert_npub(&mut t, &sample_npub("aabb", "Alice"));
    assert!(search_social(&t, "", 10).unwrap().is_empty());
    assert!(search_social(&t, "   ", 10).unwrap().is_empty());
}

#[test]
fn search_no_match_returns_empty() {
    let mut t = SocialTables::new();
    upsert_npub(&mut t, &sample_npub("aabb", "Alice"));
    let results = search_social(&t, "zzzznonexistent", 10).unwrap();
    assert!(results.is_empty());
}

#[test]
fn contact_search_stops_at_the_limit() {
    let mut t = SocialTables::new();
    for i in 0..20 {
        upsert_npub(&mut t, &sample_npub(&format!("hex_{i:02}"), &format!("User_{i}")));
    }
    let results = search_social(&t, "User", 5).unwrap();
    assert!(results.len() <= 5);
}

#[test]
fn fts_syncs_on_update() {
    let mut t = SocialTables::new();
    upsert_npub(&mut t, &sample_npub("aabb", "OldName"));

    assert_eq!(search_social(&t, "OldName", 10).unwrap().len(), 1);

    let updated = SocialNpub {
        display_name: "NewName".to_string(),
        last_interaction: 5000,
        ..sample_npub("aabb", "NewName")
    };
    upsert_npub(&mut t, &updated);

    assert!(search_social(&t, "OldName", 10).unwrap().is_empty());
    assert_eq!(search_social(&t, "NewName", 10).unwrap().len(), 1);
}

#[test]
fn social_search_with_double_quotes_does_not_error() {
    let mut t = SocialTables::new();
    upsert_npub(&mut t, &sample_npub("aabb", "Alice"));

    let results = search_social(&t, r#"say "hello" world"#, 10).unwrap();
    assert!(results.len() <= 10);
}

#[test]
fn unicode_display_name() {
    let mut t = SocialTables::new();
    upsert_npub(&mut t, &sample_npub("uni", "日本太郎"));
    let fetched = get_npub(&t, "uni").unwrap();
    assert_eq!(fetched.display_name, "日本太郎");
}

#[test]
fn profile_json_roundtrip() {
    let mut t = SocialTables::new();
    let profile = r#"{"name":"Alice","about":"Rust dev","nip05":"alice@example.com"}"#;
    let npub = SocialNpub {
        profile_json: Some(profile.to_string()),
        ..sample_npub("aabb", "Alice")
    };

    upsert_npub(&mut t, &npub);

    let fetched = get_npub(&t, "aabb").unwrap();
    assert_eq!(fetched.profile_json.as_deref(), Some(profile));
}

#[test]
fn contact_hits_carry_their_rows() {
    let mut t = SocialTables::new();
    upsert_npub(&mut t, &sample_npub("aabb", "Alice"));
    upsert_npub(&mut t, &sample_npub("ccdd", "Bob"));
    assert_eq!(
        npub_rows(&t),
        vec![vec!["aabb", "Alice", "", ""], vec!["ccdd", "Bob", "", ""]]
    );
    let hits = npub_hits(&t, &vec![(1, 0), (0, 0)]);
    assert_eq!(hits.len(), 2);
    assert_eq!(hits[0].display_name, "Bob");
    assert_eq!(hits[1].display_name, "Alice");
}
