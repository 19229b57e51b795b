use snowclaw::agent::snowclaw_agent::{
    plan_contextvm, plan_server, ServerEntry, ServerPlan, ServerTransport,
};
use snowclaw::channels::event::NostrEvent;
use snowclaw::config::snowclaw_schema::ContextVmEntry;
use snowclaw::mcp::contextvm::{
    check_relays, discover_servers, extract_server_name, request_draft, timed_out, ContextVmConfig,
};
use snowclaw::mcp::local::{
    response_line, status_failure, McpServerConfig, McpSseConfig,
};
use snowclaw::mcp::pending::Pending;
use snowclaw::mcp::types::{
    call_tool_request, initialize_request, list_tools_request, next_request_id, rpc_result,
    JsonRpcError, JsonRpcResponse, McpContent, McpToolDef, McpToolWrapper, RequestIds, RpcParams,
};
use snowclaw::text_map::TextMap;

const KEY: &str = "79be667ef9dcbbac55a06295ce870b07029bfcdb2dce28d959f2815b16f81798";

#[test]
fn mcp_server_config_builds() {
    let config = McpServerConfig {
        name: "test".into(),
        command: "echo".into(),
        args: vec![],
        env: TextMap::new(),
        working_dir: None,
    };
    assert_eq!(config.name, "test");
}

#[test]
fn sse_config_builds() {
    let config = McpSseConfig {
        name: "remote".into(),
        url: "http://localhost:8080/mcp".into(),
    };
    assert_eq!(config.name, "remote");
}

#[test]
fn next_request_id_increments() {
    let mut ids = RequestIds::new();
    let a = next_request_id(&mut ids);
    let b = next_request_id(&mut ids);
    assert_ne!(a, b);
    assert_eq!((a, b), (1, 2));
}

#[test]
fn requests_name_their_methods() {
    let r = initialize_request(1, "0.1.0");
    assert_eq!(r.jsonrpc, "2.0");
    assert_eq!(r.method, "initialize");
    assert!(matches!(r.params, RpcParams::Initialize { .. }));
    assert_eq!(list_tools_request(2).method, "tools/list");
    let r = call_tool_request(3, "read", "{}");
    assert_eq!(r.method, "tools/call");
    assert!(matches!(r.params, RpcParams::Call { name, .. } if name == "read"));
}

fn response(result: Option<&str>, error: Option<JsonRpcError>) -> JsonRpcResponse {
    JsonRpcResponse {
        jsonrpc: "2.0".to_string(),
        id: "1".to_string(),
        result: result.map(String::from),
        error,
    }
}

#[test]
fn errors_come_before_results() {
    let e = JsonRpcError { code: -32600, message: "Invalid".to_string(), data: None };
    assert_eq!(
        rpc_result("tools/list", response(Some("{}"), Some(e))).unwrap_err(),
        "MCP tools/list error: Invalid (code -32600)"
    );
    assert_eq!(
        rpc_result("tools/list", response(Some("{}"), None)).unwrap(),
        Some("{}".to_string())
    );
}

fn tool(prefix: &str) -> McpToolWrapper {
    McpToolWrapper::new(
        McpToolDef { name: "read_file".to_string(), description: None, input_schema: None },
        prefix.to_string(),
    )
}

#[test]
fn tools_carry_a_prefix() {
    assert_eq!(tool("files").prefixed_name(), "files_read_file");
    assert_eq!(tool("").prefixed_name(), "read_file");
    assert_eq!(tool("files").name(), "read_file");
    let spec = tool("files").spec_of();
    assert_eq!(spec.name, "files_read_file");
    assert_eq!(spec.description, "MCP tool (no description)");
    let schema: serde_json::Value = serde_json::from_str(&spec.parameters).unwrap();
    assert_eq!(schema["type"], "object");
}

fn content(text: Option<&str>) -> McpContent {
    McpContent {
        content_type: "text".to_string(),
        text: text.map(String::from),
        data: None,
        mime_type: None,
    }
}

#[test]
fn tool_answers_join_texts() {
    let r = tool("").answer(&Ok(vec![content(Some("a")), content(None), content(Some("b"))]));
    assert!(r.success);
    assert_eq!(r.output, "a\nb");
    let r = tool("").answer(&Err("broken".to_string()));
    assert!(!r.success);
    assert_eq!(r.error.as_deref(), Some("broken"));
}

#[test]
fn responses_find_their_senders() {
    let mut p = Pending::new();
    p.sent("1", 10);
    p.sent("2", 20);
    assert_eq!(p.settled("1"), Some(10));
    assert_eq!(p.settled("1"), None);
    p.sent("3", 30);
    let mut rest = p.closed();
    rest.sort();
    assert_eq!(rest, vec![20, 30]);
    assert!(p.closed().is_empty());
}

#[test]
fn blank_lines_are_no_responses() {
    assert_eq!(response_line("  {\"id\":1}\n"), Some("{\"id\":1}".to_string()));
    assert_eq!(response_line(" \r\n"), None);
    assert_eq!(status_failure("404 Not Found", "gone"), "MCP SSE error 404 Not Found: gone");
}

#[test]
fn contextvm_config_defaults() {
    let config = ContextVmConfig::default();
    assert!(config.relays.is_empty());
    assert!(config.server_filter.is_empty());
    assert_eq!(config.call_timeout_secs, 30);
    assert!(nostr_sdk::Keys::parse(&config.secret).is_ok());
}

#[test]
fn contextvm_config_with_relays() {
    let config = ContextVmConfig {
        relays: vec!["wss://relay.example.com".into()],
        ..Default::default()
    };
    assert_eq!(config.relays.len(), 1);
    assert!(check_relays(&config).is_ok());
    assert_eq!(
        check_relays(&ContextVmConfig::default()).unwrap_err(),
        "ContextVM: no relays configured"
    );
}

fn announcement(content: &str, tags: Vec<Vec<&str>>) -> NostrEvent {
    NostrEvent {
        id: "00".repeat(32),
        pubkey: KEY.to_string(),
        kind: 31990,
        created_at: 1,
        tags: tags
            .into_iter()
            .map(|t| t.into_iter().map(String::from).collect())
            .collect(),
        content: content.to_string(),
    }
}

#[test]
fn server_names() {
    let name = |c: &str, t: Vec<Vec<&str>>| extract_server_name(&announcement(c, t));
    assert_eq!(name("{\"name\":\"n\",\"display_name\":\"d\"}", vec![]), Some("n".to_string()));
    assert_eq!(name("{\"display_name\":\"d\"}", vec![vec!["d", "t"]]), Some("d".to_string()));
    assert_eq!(name("none", vec![vec!["d"], vec!["d", "t"]]), Some("t".to_string()));
    assert_eq!(name("none", vec![]), None);
}

#[test]
fn servers_are_discovered() {
    let events = vec![
        announcement("an mcp server", vec![]),
        announcement("something else", vec![]),
        announcement("", vec![vec!["k", "contextvm"]]),
    ];
    let all = discover_servers(&events, &vec![]);
    assert_eq!(all.len(), 2);
    assert_eq!(all[0].name, "cvm_79be667e");
    assert_eq!(all[0].pubkey, KEY);
    assert_eq!(discover_servers(&events, &vec![KEY.to_string()]).len(), 3);
}

#[test]
fn sealed_request_opens_at_the_server() {
    let client = nostr_sdk::Keys::generate();
    let server = nostr_sdk::Keys::generate();
    let draft = request_draft(
        &client.secret_key().to_secret_hex(),
        &server.public_key().to_hex(),
        "payload",
    )
    .unwrap();
    assert_eq!(draft.kind, 21059);
    assert_eq!(draft.tags[0], vec!["p".to_string(), server.public_key().to_hex()]);
    let plain = nostr_sdk::nips::nip44::decrypt(
        server.secret_key(),
        &client.public_key(),
        &draft.content,
    )
    .unwrap();
    assert_eq!(plain, "payload");
    assert!(request_draft("bad", &server.public_key().to_hex(), "x").is_none());
    assert_eq!(timed_out(30), "ContextVM request timed out after 30s");
}

fn server(transport: ServerTransport, command: &str, url: Option<&str>) -> ServerEntry {
    ServerEntry {
        name: "s".to_string(),
        transport,
        command: command.to_string(),
        args: vec!["-v".to_string()],
        env: TextMap::new(),
        url: url.map(String::from),
    }
}

#[test]
fn servers_are_planned() {
    match plan_server(server(ServerTransport::Stdio, "run", None)) {
        ServerPlan::Process(c) => {
            assert_eq!(c.command, "run");
            assert_eq!(c.args, vec!["-v"]);
        }
        _ => panic!("the server is not started"),
    }
    assert!(matches!(
        plan_server(server(ServerTransport::Stdio, "", Some("http://x"))),
        ServerPlan::MissingCommand
    ));
    assert!(matches!(
        plan_server(server(ServerTransport::Sse, "run", None)),
        ServerPlan::MissingUrl
    ));
    match plan_server(server(ServerTransport::Http, "", Some("http://x"))) {
        ServerPlan::Address(c) => assert_eq!(c.url, "http://x"),
        _ => panic!("the server is not reached"),
    }
}

#[test]
fn contextvm_is_planned() {
    let mut entry = ContextVmEntry {
        enabled: true,
        relays: vec!["wss://a".to_string()],
        servers: vec!["nobody".to_string(), KEY.to_uppercase()],
        timeout_secs: 12,
    };
    let c = plan_contextvm(Some(&entry)).unwrap();
    assert_eq!(c.server_filter, vec![KEY]);
    assert_eq!(c.call_timeout_secs, 12);
    assert_eq!(c.discovery_timeout_secs, 10);
    entry.enabled = false;
    assert!(plan_contextvm(Some(&entry)).is_none());
    assert!(plan_contextvm(None).is_none());
}
