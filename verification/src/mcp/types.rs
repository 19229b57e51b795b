//! Requests to MCP servers, what they answer, and the tools that they offer.

use crate::text::number::{decimal_int, i64_text};
use crate::text::pattern::{has_substring, join, joined, parts_are_held};
use crate::text::{str_eq, texts};
use crate::tools::traits::{done, failed, ResultView, ToolResult};
use vstd::prelude::*;

verus! {

/// The parameters of a request.
#[derive(Debug)]
pub enum RpcParams {
    /// No parameters.
    Absent,
    /// Those of the handshake.
    Initialize { protocol_version: String, client_name: String, client_version: String },
    /// Those of a tool call: the tool, and its arguments as JSON.
    Call { name: String, arguments: String },
}

/// A JSON-RPC request.
#[derive(Debug)]
pub struct JsonRpcRequest {
    pub jsonrpc: String,
    pub id: u64,
    pub method: String,
    pub params: RpcParams,
}

/// The error in a JSON-RPC response. Its data is JSON.
#[derive(Debug)]
pub struct JsonRpcError {
    pub code: i64,
    pub message: String,
    pub data: Option<String>,
}

/// A JSON-RPC response. Its result is JSON.
#[derive(Debug)]
pub struct JsonRpcResponse {
    pub jsonrpc: String,
    pub id: String,
    pub result: Option<String>,
    pub error: Option<JsonRpcError>,
}

/// What a server can do, as JSON.
#[derive(Debug)]
pub struct McpServerCapabilities {
    pub tools: Option<String>,
    pub resources: Option<String>,
    pub prompts: Option<String>,
}

/// A tool that a server offers. The schema of its arguments is JSON.
#[derive(Debug)]
pub struct McpToolDef {
    pub name: String,
    pub description: Option<String>,
    pub input_schema: Option<String>,
}

/// An item of what a tool gives back.
#[derive(Debug)]
pub struct McpContent {
    pub content_type: String,
    pub text: Option<String>,
    pub data: Option<String>,
    pub mime_type: Option<String>,
}

/// The numbers that requests get.
#[derive(Debug)]
pub struct RequestIds {
    next: u64,
}

impl RequestIds {
    /// The number of the next request.
    pub closed spec fn upcoming(&self) -> u64 {
        self.next
    }

    /// Requests are numbered from one.
    pub fn new() -> (r: Self)
        ensures
            r.upcoming() == 1,
    {
        RequestIds { next: 1 }
    }
}

/// The number after a number: the largest is followed by zero.
pub open spec fn following(id: u64) -> u64 {
    if id == u64::MAX {
        0
    } else {
        (id + 1) as u64
    }
}

/// The number of the next request.
pub fn next_request_id(ids: &mut RequestIds) -> (r: u64)
    ensures
        r == old(ids).upcoming(),
        final(ids).upcoming() == following(r),
{
    let id = ids.next;
    ids.next = if id == u64::MAX {
        0
    } else {
        id + 1
    };
    id
}

/// The number after `steps` more numbers.
pub open spec fn later(id: u64, steps: nat) -> u64
    decreases steps,
{
    if steps == 0 {
        id
    } else {
        following(later(id, (steps - 1) as nat))
    }
}

proof fn later_counts(id: u64, steps: nat)
    requires
        steps <= u64::MAX,
    ensures
        later(id, steps) == (if id + steps <= u64::MAX {
            id + steps
        } else {
            id + steps - u64::MAX - 1
        }),
    decreases steps,
{
    if steps > 0 {
        later_counts(id, (steps - 1) as nat);
    }
}

/// Requests that are fewer than 2^64 apart get different numbers.
pub proof fn request_ids_differ(id: u64, steps: nat)
    requires
        0 < steps <= u64::MAX,
    ensures
        later(id, steps) != id,
{
    later_counts(id, steps);
}

/// The request that opens the handshake.
pub fn initialize_request(id: u64, version: &str) -> (r: JsonRpcRequest)
    ensures
        r.jsonrpc@ == "2.0"@,
        r.id == id,
        r.method@ == "initialize"@,
        r.params matches RpcParams::Initialize { protocol_version, client_name, client_version }
            && protocol_version@ == "2024-11-05"@ && client_name@ == "snowclaw"@ && client_version@
            == version@,
{
    JsonRpcRequest {
        jsonrpc: "2.0".to_owned(),
        id,
        method: "initialize".to_owned(),
        params: RpcParams::Initialize {
            protocol_version: "2024-11-05".to_owned(),
            client_name: "snowclaw".to_owned(),
            client_version: version.to_owned(),
        },
    }
}

fn plain_request(id: u64, method: &str) -> (r: JsonRpcRequest)
    ensures
        r.jsonrpc@ == "2.0"@,
        r.id == id,
        r.method@ == method@,
        r.params is Absent,
{
    JsonRpcRequest {
        jsonrpc: "2.0".to_owned(),
        id,
        method: method.to_owned(),
        params: RpcParams::Absent,
    }
}

/// The request that closes the handshake.
pub fn initialized_request(id: u64) -> (r: JsonRpcRequest)
    ensures
        r.jsonrpc@ == "2.0"@,
        r.id == id,
        r.method@ == "notifications/initialized"@,
        r.params is Absent,
{
    plain_request(id, "notifications/initialized")
}

/// The request for the list of tools.
pub fn list_tools_request(id: u64) -> (r: JsonRpcRequest)
    ensures
        r.jsonrpc@ == "2.0"@,
        r.id == id,
        r.method@ == "tools/list"@,
        r.params is Absent,
{
    plain_request(id, "tools/list")
}

/// The request that calls a tool.
pub fn call_tool_request(id: u64, name: &str, arguments: &str) -> (r: JsonRpcRequest)
    ensures
        r.jsonrpc@ == "2.0"@,
        r.id == id,
        r.method@ == "tools/call"@,
        r.params matches RpcParams::Call { name: n, arguments: a } && n@ == name@ && a@
            == arguments@,
{
    JsonRpcRequest {
        jsonrpc: "2.0".to_owned(),
        id,
        method: "tools/call".to_owned(),
        params: RpcParams::Call { name: name.to_owned(), arguments: arguments.to_owned() },
    }
}

/// Why a request failed.
pub open spec fn rpc_failure(method: Seq<char>, e: JsonRpcError) -> Seq<char> {
    "MCP "@ + method + " error: "@ + e.message@ + " (code "@ + decimal_int(e.code as int) + ")"@
}

/// The result of a request, or why it failed. A response with an error has failed, whatever else it
/// holds.
pub fn rpc_result(method: &str, response: JsonRpcResponse) -> (r: Result<Option<String>, String>)
    ensures
        match response.error {
            Some(e) => r is Err && r->Err_0@ == rpc_failure(method@, e),
            None => r is Ok && r->Ok_0 == response.result,
        },
{
    match response.error {
        Some(e) => {
            let mut text = String::from_str("MCP ");
            text.append(method);
            text.append(" error: ");
            text.append(e.message.as_str());
            text.append(" (code ");
            text.append(i64_text(e.code).as_str());
            text.append(")");
            Err(text)
        },
        None => Ok(response.result),
    }
}

/// The texts among the items that a tool gives back.
pub open spec fn content_texts(items: Seq<McpContent>) -> Seq<Seq<char>>
    decreases items.len(),
{
    if items.len() == 0 {
        Seq::empty()
    } else {
        let before = content_texts(items.drop_last());
        match items.last().text {
            Some(t) => before.push(t@),
            None => before,
        }
    }
}

fn collect_texts(items: &Vec<McpContent>) -> (r: Vec<String>)
    ensures
        texts(r@) == content_texts(items@),
{
    let mut r: Vec<String> = Vec::new();
    let mut i: usize = 0;
    assert(items@.take(0).len() == 0);
    assert(texts(r@) =~= content_texts(items@.take(0)));
    while i < items.len()
        invariant
            i <= items@.len(),
            texts(r@) == content_texts(items@.take(i as int)),
        decreases items.len() - i,
    {
        proof {
            assert(items@.take(i + 1).drop_last() =~= items@.take(i as int));
            assert(items@.take(i + 1).last() == items@[i as int]);
        }
        if let Some(t) = &items[i].text {
            let ghost before = r@;
            r.push(t.clone());
            assert(texts(r@) =~= texts(before).push(t@));
        }
        i = i + 1;
    }
    assert(items@.take(i as int) =~= items@);
    r
}

/// A tool of a server, with the prefix that keeps its name apart from others.
#[derive(Debug)]
pub struct McpToolWrapper {
    pub def: McpToolDef,
    pub prefix: String,
}

/// What a tool looks like to the agent. The schema of its arguments is JSON.
#[derive(Debug)]
pub struct ToolSpec {
    pub name: String,
    pub description: String,
    pub parameters: String,
}

/// The name of a tool behind a prefix.
pub open spec fn name_with(prefix: Seq<char>, name: Seq<char>) -> Seq<char> {
    if prefix.len() == 0 {
        name
    } else {
        prefix + "_"@ + name
    }
}

/// What a tool answers once its server did.
pub open spec fn tool_answer(content: Result<Vec<McpContent>, String>) -> ResultView {
    match content {
        Ok(items) => done(joined(content_texts(items@), "\n"@)),
        Err(e) => failed(e@),
    }
}

impl McpToolWrapper {
    /// A tool of a server.
    pub fn new(def: McpToolDef, prefix: String) -> (r: Self)
        ensures
            r == (McpToolWrapper { def, prefix }),
    {
        McpToolWrapper { def, prefix }
    }

    /// The name of the tool behind its prefix.
    pub fn prefixed_name(&self) -> (r: String)
        ensures
            r@ == name_with(self.prefix@, self.def.name@),
    {
        proof {
            reveal_strlit("");
            assert(self.prefix@.len() == 0 ==> self.prefix@ =~= ""@);
        }
        if str_eq(self.prefix.as_str(), "") {
            self.def.name.clone()
        } else {
            let mut r = self.prefix.clone();
            r.append("_");
            r.append(self.def.name.as_str());
            r
        }
    }

    /// The name that the server knows the tool by.
    pub fn name(&self) -> (r: &str)
        ensures
            r@ == self.def.name@,
    {
        self.def.name.as_str()
    }

    /// What the tool is for.
    pub fn description(&self) -> (r: &str)
        ensures
            r@ == (match self.def.description {
                Some(d) => d@,
                None => "MCP tool (no description)"@,
            }),
    {
        match &self.def.description {
            Some(d) => d.as_str(),
            None => "MCP tool (no description)",
        }
    }

    /// The schema of the tool's arguments: an object without properties where none is given.
    pub fn parameters_schema(&self) -> (r: &str)
        ensures
            r@ == (match self.def.input_schema {
                Some(s) => s@,
                None => "{\"type\":\"object\",\"properties\":{}}"@,
            }),
    {
        match &self.def.input_schema {
            Some(s) => s.as_str(),
            None => "{\"type\":\"object\",\"properties\":{}}",
        }
    }

    /// What the tool answers once its server did.
    pub fn answer(&self, content: &Result<Vec<McpContent>, String>) -> (r: ToolResult)
        ensures
            r@ == tool_answer(*content),
    {
        match content {
            Ok(items) => {
                let parts = collect_texts(items);
                ToolResult::done(join(&parts, "\n"))
            },
            Err(e) => ToolResult::failed(e.clone()),
        }
    }

    /// What the tool looks like to the agent.
    pub fn spec_of(&self) -> (r: ToolSpec)
        ensures
            r.name@ == name_with(self.prefix@, self.def.name@),
            r.description@ == (match self.def.description {
                Some(d) => d@,
                None => "MCP tool (no description)"@,
            }),
            r.parameters@ == (match self.def.input_schema {
                Some(s) => s@,
                None => "{\"type\":\"object\",\"properties\":{}}"@,
            }),
    {
        ToolSpec {
            name: self.prefixed_name(),
            description: self.description().to_owned(),
            parameters: self.parameters_schema().to_owned(),
        }
    }
}

/// Tools of one server keep their names apart: two with the same name behind a prefix have the same
/// name.
pub proof fn prefixed_names_differ(prefix: Seq<char>, a: Seq<char>, b: Seq<char>)
    requires
        name_with(prefix, a) == name_with(prefix, b),
    ensures
        a == b,
{
    if prefix.len() > 0 {
        let head = prefix + "_"@;
        assert(name_with(prefix, a).skip(head.len() as int) =~= a);
        assert(name_with(prefix, b).skip(head.len() as int) =~= b);
    }
}

/// Numbers follow each other, and begin again where they end.
pub proof fn numbers_follow(id: u64)
    ensures
        id < u64::MAX ==> following(id) == id + 1,
        following(u64::MAX) == 0,
        later(id, 0) == id,
        later(id, 1) == following(id),
{
    reveal_with_fuel(later, 2);
}

/// What a tool answers: the texts of its content, one to a line, in their order; or what went wrong.
pub proof fn contents_are_answered(items: Seq<McpContent>, c: McpContent)
    ensures
        content_texts(Seq::empty()).len() == 0,
        c.text matches Some(t) ==> content_texts(items.push(c)) == content_texts(items).push(t@),
        c.text is None ==> content_texts(items.push(c)) == content_texts(items),
        forall|v: Vec<McpContent>|
            (#[trigger] tool_answer(Ok::<Vec<McpContent>, String>(v))).success && tool_answer(
                Ok::<Vec<McpContent>, String>(v),
            ).output == joined(content_texts(v@), "\n"@),
        forall|e: String|
            !(#[trigger] tool_answer(Err::<Vec<McpContent>, String>(e))).success && tool_answer(
                Err::<Vec<McpContent>, String>(e),
            ).error == Some(e@),
{
    assert(items.push(c).drop_last() =~= items);
}

/// A tool goes by its own name behind the prefix of its server, where there is one.
pub proof fn tools_carry_prefixes(prefix: Seq<char>, name: Seq<char>)
    ensures
        prefix.len() == 0 ==> name_with(prefix, name) == name,
        prefix.len() > 0 ==> name_with(prefix, name) == prefix + "_"@ + name,
{
}

/// A failure names the method, what the server said, and its code.
pub proof fn failures_are_told(method: Seq<char>, e: JsonRpcError)
    ensures
        has_substring(rpc_failure(method, e), method),
        has_substring(rpc_failure(method, e), e.message@),
        has_substring(rpc_failure(method, e), decimal_int(e.code as int)),
{
    let d = decimal_int(e.code as int);
    let t = rpc_failure(method, e);
    assert(t =~= "MCP "@ + method + (" error: "@ + e.message@ + " (code "@ + d + ")"@));
    parts_are_held("MCP "@, method, " error: "@ + e.message@ + " (code "@ + d + ")"@);
    assert(t =~= ("MCP "@ + method + " error: "@) + e.message@ + (" (code "@ + d + ")"@));
    parts_are_held("MCP "@ + method + " error: "@, e.message@, " (code "@ + d + ")"@);
    parts_are_held("MCP "@ + method + " error: "@ + e.message@ + " (code "@, d, ")"@);
}

} // verus!
