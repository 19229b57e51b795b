use snowclaw::channels::event::NostrEvent;
use snowclaw::channels::nostr::actions::ReplyBody;
use snowclaw::channels::nostr::channel::{NostrChannel, NostrChannelConfig};
use snowclaw::channels::nostr::config::RespondMode;
use snowclaw::channels::nostr::listen::{GroupStep, ListenStep};
use snowclaw::channels::nostr::profile::{fallback_name, read_profile};
use snowclaw::channels::nostr::publish::{agent_state_draft, bot_profile_draft};
use snowclaw::channels::nostr::startup::oldest_first;
use snowclaw::channels::snowclaw_channels::{
    append_nostr_channel, init_failure, key_failure, ChannelSetup,
};
use snowclaw::config::snowclaw_schema::NostrConfig;
use snowclaw::text_map::TextMap;

const OWN: &str = "c6047f9441ed7d6d3045406e95c07cd85c778e4b8cef3ca7abac09b95c709ee5";
const OWNER: &str = "79be667ef9dcbbac55a06295ce870b07029bfcdb2dce28d959f2815b16f81798";
const GUEST: &str = "f9308a019258c31049344f85f89d5229b531c845836f99b08601f113bce036f9";
const NOW: u64 = 1_700_000_100;

fn tag(parts: &[&str]) -> Vec<String> {
    parts.iter().map(|p| p.to_string()).collect()
}

fn event(from: &str, kind: u16, content: &str, tags: Vec<Vec<String>>) -> NostrEvent {
    NostrEvent {
        id: "0123456789abcdef0123456789abcdef0123456789abcdef0123456789abcdef".to_string(),
        pubkey: from.to_string(),
        kind,
        created_at: 1_700_000_000,
        tags,
        content: content.to_string(),
    }
}

fn said(from: &str, content: &str) -> NostrEvent {
    event(from, 9, content, vec![tag(&["h", "team"])])
}

fn channel() -> NostrChannel {
    NostrChannel::new(NostrChannelConfig {
        relays: vec![],
        public_key: OWN.to_string(),
        groups: vec!["team".to_string(), "dev".to_string()],
        listen_dms: true,
        allowed_pubkeys: vec![],
        deny_all: false,
        respond_mode: RespondMode::Mention,
        group_respond_mode: TextMap::new(),
        mention_names: vec!["snowclaw".to_string()],
        owner: Some(OWNER.to_string()),
        context_history: 3,
        persist_dir: "/tmp".to_string(),
        indexed_paths: vec![],
        index_interval_minutes: 30,
    })
}

fn hear(ch: &mut NostrChannel, e: &NostrEvent) -> ListenStep {
    ch.on_event(e, "{}", NOW)
}

fn answer(ch: &mut NostrChannel, e: &NostrEvent) -> GroupStep {
    ch.on_group_message(e, "team", "Someone", &e.content)
}

#[test]
fn own_events_and_strangers_are_passed_over() {
    let mut ch = channel();
    assert!(matches!(hear(&mut ch, &said(OWN, "hi")), ListenStep::Ignored));
    ch.config.allowed_pubkeys = vec![OWNER.to_string()];
    assert!(matches!(hear(&mut ch, &said(GUEST, "hi")), ListenStep::Ignored));
    assert!(ch.get_raw_event_json(&said(GUEST, "hi").id).is_none());
    assert!(matches!(hear(&mut ch, &said(OWNER, "hi")), ListenStep::GroupMessage { .. }));
    assert_eq!(ch.get_raw_event_json(&said(OWNER, "hi").id).as_deref(), Some("{}"));
}

#[test]
fn group_messages_of_followed_groups_count() {
    let mut ch = channel();
    match hear(&mut ch, &said(GUEST, "hi")) {
        ListenStep::GroupMessage { group } => assert_eq!(group, "team"),
        _ => panic!("the message is lost"),
    }
    let elsewhere = event(GUEST, 11, "hi", vec![tag(&["h", "elsewhere"])]);
    assert!(matches!(hear(&mut ch, &elsewhere), ListenStep::Ignored));
    let nowhere = event(GUEST, 12, "hi", vec![]);
    assert!(matches!(hear(&mut ch, &nowhere), ListenStep::Ignored));
    ch.config.groups = vec![];
    match hear(&mut ch, &nowhere) {
        ListenStep::GroupMessage { group } => assert_eq!(group, "unknown"),
        _ => panic!("the message is lost"),
    }
}

#[test]
fn owner_claim_is_confirmed() {
    let mut ch = channel();
    let claim = |from: &str, key: &str| event(from, 14199, "", vec![tag(&["p", key])]);
    assert!(matches!(hear(&mut ch, &claim(GUEST, OWN)), ListenStep::Ignored));
    assert!(matches!(hear(&mut ch, &claim(OWNER, GUEST)), ListenStep::Ignored));
    assert!(!ch.owner_verified);
    assert!(matches!(hear(&mut ch, &claim(OWNER, OWN)), ListenStep::Handled));
    assert!(ch.owner_verified);
}

#[test]
fn published_settings_of_the_owner_take_effect() {
    let mut ch = channel();
    let tags = || vec![tag(&["d", "snowclaw:config:group:team"]), tag(&["respond_mode", "all"])];
    assert!(matches!(hear(&mut ch, &event(GUEST, 30078, "", tags())), ListenStep::Ignored));
    assert_eq!(ch.respond_mode_for_group("team"), RespondMode::Mention);
    assert!(matches!(hear(&mut ch, &event(OWNER, 30078, "", tags())), ListenStep::Handled));
    assert_eq!(ch.respond_mode_for_group("team"), RespondMode::All);
    assert_eq!(ch.respond_mode_for_group("dev"), RespondMode::Mention);
}

#[test]
fn task_and_agent_events() {
    let mut ch = channel();
    match hear(&mut ch, &event(GUEST, 1631, "ok", vec![tag(&["e", "task123456"])])) {
        ListenStep::TaskStatus { task_ref, status } => {
            assert_eq!((task_ref.as_str(), status.as_str()), ("task123456", "Done"));
            let e = event(GUEST, 1631, "ok", vec![]);
            let m = NostrChannel::task_channel_message(&e, &task_ref, &status, "Bob");
            assert_eq!(m.content, "[nostr:event=01234567] Task task1234 → Done: ok");
            assert_eq!(m.channel, "nostr:tasks");
        }
        _ => panic!("the status is lost"),
    }
    match hear(&mut ch, &event(GUEST, 31121, "", vec![tag(&["status", "online"])])) {
        ListenStep::AgentState { d_tag, status } => {
            assert_eq!((d_tag.as_str(), status.as_str()), ("unknown", "online"))
        }
        _ => panic!("the state is lost"),
    }
    assert!(matches!(hear(&mut ch, &event(GUEST, 1, "", vec![])), ListenStep::Ignored));
}

fn request(from: &str, action: &str, params: &[(&str, &str)], group: Option<&str>) -> NostrEvent {
    let mut tags = vec![tag(&["p", OWN]), tag(&["action", action])];
    for (k, v) in params {
        tags.push(tag(&["param", k, v]));
    }
    if let Some(g) = group {
        tags.push(tag(&["h", g]));
    }
    event(from, 1121, "", tags)
}

fn reply(ch: &mut NostrChannel, e: &NostrEvent) -> (String, ReplyBody) {
    match hear(ch, e) {
        ListenStep::Reply { status, body, .. } => (status, body),
        _ => panic!("the request is not answered"),
    }
}

#[test]
fn owner_requests_are_refused_to_guests() {
    let mut ch = channel();
    for action in ["control.stop", "control.resume", "config.set"] {
        let (status, body) = reply(&mut ch, &request(GUEST, action, &[], None));
        assert_eq!(status, "denied");
        assert!(matches!(body, ReplyBody::Empty));
    }
    assert!(ch.dynamic.global.is_none());
    let mut aside = request(OWNER, "control.stop", &[], None);
    aside.tags[0] = tag(&["p", GUEST]);
    assert!(matches!(hear(&mut ch, &aside), ListenStep::Ignored));
}

#[test]
fn requests_stop_and_resume() {
    let mut ch = channel();
    assert_eq!(reply(&mut ch, &request(OWNER, "control.stop", &[], Some("team"))).0, "ok");
    assert_eq!(ch.respond_mode_for_group("team"), RespondMode::Silent);
    assert_eq!(ch.respond_mode_for_group("dev"), RespondMode::Mention);
    reply(&mut ch, &request(OWNER, "control.stop", &[], None));
    assert_eq!(ch.respond_mode_for_group("dev"), RespondMode::Silent);
    assert_eq!(ch.respond_mode_for_group("any"), RespondMode::Silent);
    reply(&mut ch, &request(OWNER, "control.resume", &[("mode", "owner")], None));
    assert_eq!(ch.respond_mode_for_group("any"), RespondMode::Owner);
    reply(&mut ch, &request(OWNER, "control.resume", &[], Some("dev")));
    assert_eq!(ch.respond_mode_for_group("dev"), RespondMode::Mention);
}

#[test]
fn requests_set_and_get() {
    let mut ch = channel();
    let set = [("respond_mode", "all"), ("context_history", "7")];
    match reply(&mut ch, &request(OWNER, "config.set", &set, Some("dev"))).1 {
        ReplyBody::ConfigSet { respond_mode, context_history, applied_to } => {
            assert_eq!(respond_mode.as_deref(), Some("all"));
            assert_eq!(context_history, Some(7));
            assert_eq!(applied_to, "dev");
        }
        _ => panic!("another reply"),
    }
    assert_eq!(ch.effective_context_history("dev"), 7);
    assert_eq!(ch.effective_context_history("team"), 3);
    match reply(&mut ch, &request(GUEST, "config.get", &[], Some("dev"))).1 {
        ReplyBody::ConfigGet { scope, respond_mode, file_respond_mode, .. } => {
            assert_eq!(scope, "dev");
            assert_eq!(respond_mode.as_deref(), Some("All"));
            assert_eq!(file_respond_mode, "Mention");
        }
        _ => panic!("another reply"),
    }
    match reply(&mut ch, &request(GUEST, "control.ping", &[], None)).1 {
        ReplyBody::Pong { uptime_start, groups, model } => {
            assert_eq!(uptime_start, NOW);
            assert_eq!(groups, vec!["team", "dev"]);
            assert_eq!(model, "configured");
        }
        _ => panic!("another reply"),
    }
    let (status, body) = reply(&mut ch, &request(OWNER, "fly", &[], None));
    assert_eq!(status, "error");
    assert!(matches!(body, ReplyBody::Error { error } if error == "unknown action: fly"));
}

#[test]
fn reply_refers_to_the_request() {
    let e = request(GUEST, "control.ping", &[], None);
    let d = NostrChannel::action_response_draft(&e, "control.ping", "ok", "{}");
    assert_eq!(d.kind, 1121);
    assert_eq!(d.tags[0], tag(&["p", GUEST]));
    assert_eq!(d.tags[1], tag(&["e", &e.id, "", "reply"]));
    assert_eq!(d.tags[2], tag(&["action", "control.ping.result"]));
    assert_eq!(d.tags[3], tag(&["status", "ok"]));
}

#[test]
fn halt_stop_and_resume_in_a_group() {
    let mut ch = channel();
    let hello = said(GUEST, "hello Snowclaw");
    assert!(matches!(answer(&mut ch, &hello), GroupStep::Respond(RespondMode::Mention)));
    assert!(matches!(answer(&mut ch, &said(GUEST, "halt")), GroupStep::Unanswered));
    assert!(matches!(answer(&mut ch, &said(OWNER, "  HALT ")), GroupStep::Command));
    assert!(matches!(answer(&mut ch, &hello), GroupStep::Unanswered));
    assert_eq!(ch.respond_mode_for_group("dev"), RespondMode::Silent);
    assert!(matches!(answer(&mut ch, &said(OWNER, "resume all")), GroupStep::Command));
    assert!(matches!(answer(&mut ch, &said(GUEST, "hm")), GroupStep::Respond(RespondMode::All)));
    assert_eq!(ch.respond_mode_for_group("dev"), RespondMode::Silent);
    assert_eq!(ch.respond_mode_for_group("other"), RespondMode::All);
    assert!(matches!(answer(&mut ch, &said(OWNER, "stop")), GroupStep::Command));
    assert!(matches!(answer(&mut ch, &hello), GroupStep::Unanswered));
}

#[test]
fn modes_decide_who_is_answered() {
    let mut ch = channel();
    assert!(matches!(answer(&mut ch, &said(GUEST, "hm")), GroupStep::Unanswered));
    let mut tagged = said(GUEST, "hm");
    tagged.tags.push(tag(&["p", OWN]));
    assert!(matches!(answer(&mut ch, &tagged), GroupStep::Respond(_)));
    ch.dynamic.set_group_mode("team", RespondMode::Owner);
    assert!(matches!(answer(&mut ch, &tagged), GroupStep::Unanswered));
    assert!(matches!(answer(&mut ch, &said(OWNER, "hm")), GroupStep::Respond(RespondMode::Owner)));
}

#[test]
fn answered_message_carries_its_context() {
    let mut ch = channel();
    let mut earlier = said(GUEST, "earlier");
    earlier.id = "ff".repeat(32);
    answer(&mut ch, &earlier);
    let now = said(OWNER, "snowclaw?");
    answer(&mut ch, &now);
    let m = ch.group_channel_message(
        &now,
        "team",
        "Boss",
        "snowclaw?",
        RespondMode::Mention,
        "Boss",
        "[memory]\n",
    );
    let guest = snowclaw::keys::npub_or_hex(GUEST);
    let owner = snowclaw::keys::npub_or_hex(OWNER);
    assert_eq!(
        m.content,
        format!(
            "[Owner: Boss ({owner})]\n[memory]\n[Recent conversation context]\n\
             <Someone npub={}>  earlier\n\n\
             [nostr:group=#team from=Boss npub={} role=owner kind=9 id=01234567]\nsnowclaw?",
            &guest[..20],
            &owner[..20]
        )
    );
    assert_eq!(m.reply_target, "#team");
    assert_eq!(m.channel, "nostr:#team");
}

#[test]
fn own_messages_are_remembered() {
    let mut ch = channel();
    ch.record_own_message("team", "Me", "npub1me", "done", "id1", NOW);
    let text = ch.format_history_context("team", "other");
    assert_eq!(text, "[Recent conversation context]\n<Me npub=npub1me>  done\n\n");
    assert_eq!(ch.format_history_context("team", "id1"), "");
}

#[test]
fn earlier_messages_fill_the_history() {
    let mut ch = channel();
    assert!(ch.backfill_event(&said(GUEST, "one"), "Guest"));
    assert!(!ch.backfill_event(&said(OWN, "two"), "Me"));
    assert!(!ch.backfill_event(&event(GUEST, 9, "three", vec![tag(&["h", "x"])]), "Guest"));
    assert_eq!(ch.backfill_group(&said(GUEST, "one")).as_deref(), Some("team"));
    assert!(ch.format_history_context("team", "").contains("one"));
    let mut late = said(GUEST, "late");
    late.created_at = 9;
    let mut early = said(GUEST, "early");
    early.created_at = 3;
    assert_eq!(oldest_first(&vec![late, early]), vec![1, 0]);
}

#[test]
fn earlier_settings_are_loaded() {
    let mut ch = channel();
    let set = |mode: &str| {
        let tags = vec![tag(&["d", "snowclaw:config:global"]), tag(&["respond_mode", mode])];
        event(OWNER, 30078, "", tags)
    };
    ch.load_dynamic_config(&vec![set("all"), set("owner")]);
    assert_eq!(ch.respond_mode_for_group("team"), RespondMode::Owner);
}

#[test]
fn subscriptions() {
    let ch = channel();
    let filters = ch.build_filters();
    let kinds: Vec<Vec<u16>> = filters.iter().map(|f| f.kinds.clone()).collect();
    assert_eq!(
        kinds,
        vec![
            vec![9, 11, 12],
            vec![1059],
            (1630..=1637).collect(),
            vec![30078],
            vec![14199],
            vec![1121],
            vec![31121]
        ]
    );
    assert_eq!(filters[1].addressed_to.as_deref(), Some(OWN));
    assert_eq!(filters[3].author.as_deref(), Some(OWNER));
    assert!(filters[3].since_now && !filters[4].since_now);
}

#[test]
fn names_come_from_profiles() {
    let mut ch = channel();
    let npub = snowclaw::keys::npub_or_hex(GUEST);
    let short = format!("{}...{}", &npub[..10], &npub[npub.len() - 4..]);
    assert_eq!(fallback_name(GUEST), short);
    let (name, profile) =
        ch.resolve_name(GUEST, Some("{\"name\":\"g\",\"display_name\":\"Guest\"}"), 5);
    assert_eq!(name, "Guest");
    assert_eq!(profile.unwrap().name.as_deref(), Some("g"));
    assert_eq!(ch.resolve_name(GUEST, Some("{\"name\":\"x\"}"), 6).0, "Guest");
    assert_eq!(ch.cached_name(GUEST).as_deref(), Some("Guest"));
    assert_eq!(ch.resolve_name(OWNER, Some("no json"), 7).1.is_none(), true);
    assert!(read_profile("{}", 1).unwrap().about.is_none());
    assert!(read_profile("no json", 1).is_none());
}

#[test]
fn announcements() {
    let d = agent_state_draft("{}");
    assert_eq!(d.kind, 31121);
    assert_eq!(d.tags[1], tag(&["status", "online"]));
    let d = bot_profile_draft(None, &Some(OWNER.to_string()));
    assert_eq!((d.kind, d.content.as_str()), (0, "{}"));
    assert_eq!(d.tags, vec![tag(&["bot"]), tag(&["agent", "snowclaw"]), tag(&["p", OWNER])]);
}

fn settings(nsec: Option<&str>, allowed: &[&str]) -> NostrConfig {
    let mut group_respond_mode = TextMap::new();
    group_respond_mode.insert("dev".to_string(), "all".to_string());
    NostrConfig {
        nsec: nsec.map(String::from),
        relays: vec!["wss://a".to_string()],
        allowed_pubkeys: allowed.iter().map(|k| k.to_string()).collect(),
        owner: Some(OWNER.to_uppercase()),
        groups: vec!["dev".to_string()],
        respond_mode: "owner".to_string(),
        group_respond_mode,
        mention_names: vec!["Bot".to_string()],
        listen_dms: false,
        context_history: 4,
    }
}

fn set_up(ns: Option<&NostrConfig>, env: Option<&str>) -> ChannelSetup {
    append_nostr_channel(ns, env.map(String::from), "/dir", &vec!["*.md".to_string()], 15)
}

#[test]
fn channel_is_set_up_from_settings() {
    let two = format!("{:064x}", 2);
    let config = match set_up(Some(&settings(Some(&two), &[GUEST, "nobody"])), None) {
        ChannelSetup::Ready(config) => config,
        _ => panic!("the channel is not set up"),
    };
    assert_eq!(config.public_key, OWN);
    assert_eq!(config.owner.as_deref(), Some(OWNER));
    assert_eq!(config.allowed_pubkeys, vec![GUEST]);
    assert_eq!(config.mention_names, vec!["bot", "snowclaw"]);
    assert_eq!(config.respond_mode, RespondMode::Owner);
    assert_eq!(config.group_respond_mode.get("dev"), Some(&RespondMode::All));
    assert_eq!(config.index_interval_minutes, 15);
    assert!(!config.deny_all);
}

#[test]
fn channel_needs_settings_and_a_key() {
    assert!(matches!(set_up(None, None), ChannelSetup::Absent));
    assert!(matches!(set_up(Some(&settings(None, &[])), None), ChannelSetup::Absent));
    assert!(matches!(set_up(Some(&settings(None, &[])), Some("bad")), ChannelSetup::BadKey));
    let two = format!("{:064x}", 2);
    match set_up(Some(&settings(None, &[])), Some(&two)) {
        ChannelSetup::Ready(config) => assert!(config.deny_all),
        _ => panic!("the channel is not set up"),
    }
    match set_up(Some(&settings(None, &["*"])), Some(&two)) {
        ChannelSetup::Ready(config) => {
            assert!(!config.deny_all);
            assert!(config.allowed_pubkeys.is_empty());
        }
        _ => panic!("the channel is not set up"),
    }
    assert_eq!(key_failure("start", "bad"), "Nostr key parse failed during start: bad");
    assert_eq!(init_failure("start", "bad"), "Nostr init failed during start: bad");
}
