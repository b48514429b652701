//! The host's plain HTTP front for agents: routes, the agent and tool listings, calls by
//! POST, and the language-server (LSP) dialect that editors speak, with the JSON texts of
//! every answer.
use vstd::prelude::*;
use crate::string_map::StringMap;
use crate::mcp_server::AgentSender;
use crate::requests::{RequestRegistry, spec_open_request, spec_close_request};
use crate::framing::{mcp_request_message, new_request_id, spec_is_request_id, spec_parse_mcp_request_message, lemma_parse_inverts_frame};
use crate::json::{json_quote, json_quoted, json_string_at, json_str_at, json_value_text_at, json_text_at, json_error_of, json_parse_error};
use crate::text::{join, join_strings, views, concat2, concat3, has_prefix};
use crate::common::GuestMethod;

verus! {

/// An HTTP answer: status, whether the body is JSON, and the body.
#[derive(Debug, Clone, PartialEq, Eq)]
pub struct HttpReply {
    pub status: u16,
    pub json: bool,
    pub body: String,
}

/// A call posted to the server: which agent, the message, and the guest function.
#[derive(Debug, Clone, PartialEq, Eq)]
pub struct McpRequest {
    pub recipient: String,
    pub message: String,
    pub function: Option<String>,
}

/// The answer to a posted call.
#[derive(Debug, Clone, PartialEq, Eq)]
pub struct McpResponse {
    pub status: String,
    pub data: Option<String>,
    pub error: Option<String>,
}

/// An LSP error: code and message.
#[derive(Debug, Clone, PartialEq, Eq)]
pub struct LspError {
    pub code: i32,
    pub message: String,
}

/// Where a request goes.
#[derive(Debug, Clone, Copy, PartialEq, Eq, Structural)]
pub enum Route {
    /// `GET /list`: the agents.
    ListAgents,
    /// `GET /agents` or `GET /tools`: the agents as tools.
    ToolsList,
    /// `/lsp` or `/copilot`: the LSP dialect.
    Lsp,
    /// Any other method than POST.
    NotAllowed,
    /// A call by POST.
    Call,
}

/// The route of a request by method and path.
pub open spec fn spec_route(method: Seq<char>, path: Seq<char>) -> Route {
    if method == "GET"@ && path == "/list"@ {
        Route::ListAgents
    } else if method == "GET"@ && (path == "/agents"@ || path == "/tools"@) {
        Route::ToolsList
    } else if path == "/lsp"@ || path == "/copilot"@ {
        Route::Lsp
    } else if method != "POST"@ {
        Route::NotAllowed
    } else {
        Route::Call
    }
}

/// Whether two texts are the same.
pub fn same_text(a: &str, b: &str) -> (r: bool)
    ensures
        r == (a@ == b@),
{
    let x = String::from_str(a);
    let y = String::from_str(b);
    x == y
}

/// The paths that the server serves other than by POST: the listings and the LSP dialect.
pub open spec fn is_served_path(path: Seq<char>) -> bool {
    path == "/list"@ || path == "/agents"@ || path == "/tools"@ || path == "/lsp"@ || path == "/copilot"@
}

/// Where each request goes: only a POST is a call, and only to a path other than the LSP
/// ones; a GET of `/list` lists the agents and a GET of `/agents` or `/tools` lists them as
/// tools; `/lsp` and `/copilot` take the LSP dialect whatever the method; every other
/// request that is not a POST is refused.
pub proof fn lemma_routes(method: Seq<char>, path: Seq<char>)
    ensures
        spec_route(method, path) == Route::Call <==> (method == "POST"@ && path != "/lsp"@ && path != "/copilot"@),
        spec_route(method, path) == Route::Lsp <==> (path == "/lsp"@ || path == "/copilot"@),
        spec_route(method, path) == Route::ListAgents <==> (method == "GET"@ && path == "/list"@),
        spec_route(method, path) == Route::ToolsList <==> (method == "GET"@ && (path == "/agents"@ || path
            == "/tools"@)),
        method != "POST"@ && !is_served_path(path) ==> spec_route(method, path) == Route::NotAllowed,
        spec_route(method, path) == Route::NotAllowed ==> method != "POST"@,
{
    reveal_strlit("GET");
    reveal_strlit("POST");
    reveal_strlit("/list");
    reveal_strlit("/agents");
    reveal_strlit("/tools");
    reveal_strlit("/lsp");
    reveal_strlit("/copilot");
    assert("GET"@ != "POST"@) by {
        assert("GET"@.len() != "POST"@.len());
    }
    assert("/list"@ != "/lsp"@ && "/list"@ != "/copilot"@) by {
        assert("/list"@[2] != "/lsp"@[2]);
        assert("/list"@.len() != "/copilot"@.len());
    }
    assert("/agents"@ != "/lsp"@ && "/agents"@ != "/copilot"@) by {
        assert("/agents"@.len() != "/lsp"@.len());
        assert("/agents"@[1] != "/copilot"@[1]);
    }
    assert("/tools"@ != "/lsp"@ && "/tools"@ != "/copilot"@) by {
        assert("/tools"@.len() != "/lsp"@.len());
        assert("/tools"@[1] != "/copilot"@[1]);
    }
}

/// Routes a request by its method and path.
pub fn route(method: &str, path: &str) -> (r: Route)
    ensures
        r == spec_route(method@, path@),
        r == Route::Call ==> method@ == "POST"@,
        method@ != "POST"@ && !is_served_path(path@) ==> r == Route::NotAllowed,
{
    proof {
        lemma_routes(method@, path@);
    }
    let get = same_text(method, "GET");
    if get && same_text(path, "/list") {
        Route::ListAgents
    } else if get && (same_text(path, "/agents") || same_text(path, "/tools")) {
        Route::ToolsList
    } else if same_text(path, "/lsp") || same_text(path, "/copilot") {
        Route::Lsp
    } else if !same_text(method, "POST") {
        Route::NotAllowed
    } else {
        Route::Call
    }
}

/// A reply with a plain-text body.
pub fn text_reply(status: u16, body: &str) -> (r: HttpReply)
    ensures
        r.status == status,
        !r.json,
        r.body@ == body@,
{
    HttpReply { status, json: false, body: String::from_str(body) }
}

/// A reply with a JSON body.
pub fn json_reply(body: String) -> (r: HttpReply)
    ensures
        r.status == 200,
        r.json,
        r.body == body,
{
    HttpReply { status: 200, json: true, body }
}

/// The answer to a method other than POST on an unknown path.
pub fn not_allowed_reply() -> (r: HttpReply)
    ensures
        r.status == 405 && !r.json,
        r.body@ == "Only GET /agents, GET /tools, POST, and LSP requests are supported"@,
{
    text_reply(405, "Only GET /agents, GET /tools, POST, and LSP requests are supported")
}

/// The answer when the body of a request cannot be read; `lsp` for the LSP dialect.
pub fn unreadable_body_reply(lsp: bool) -> (r: HttpReply)
    ensures
        r.status == 400 && !r.json,
        lsp ==> r.body@ == "Failed to read LSP request body"@,
        !lsp ==> r.body@ == "Failed to read request body"@,
{
    if lsp {
        text_reply(400, "Failed to read LSP request body")
    } else {
        text_reply(400, "Failed to read request body")
    }
}

/// The answer to a posted body that is not a call; `reason` is the parser's message.
pub fn invalid_call_reply(reason: &str) -> (r: HttpReply)
    ensures
        r.status == 400 && !r.json,
        r.body@ == "Invalid MCP request: "@ + reason@,
{
    let body = concat2("Invalid MCP request: ", reason);
    HttpReply { status: 400, json: false, body }
}

/// The answer when a message could not be sent to an agent; `reason` is the send error.
pub fn send_failed_reply(reason: &str) -> (r: HttpReply)
    ensures
        r.status == 500 && !r.json,
        r.body@ == "Failed to send message to agent: "@ + reason@,
{
    let body = concat2("Failed to send message to agent: ", reason);
    HttpReply { status: 500, json: false, body }
}

/// The answer for an unknown agent.
pub fn agent_not_found_reply(agent_id: &str) -> (r: HttpReply)
    ensures
        r.status == 404 && !r.json,
        r.body@ == "Agent '"@ + agent_id@ + "' not found"@,
{
    let body = concat3("Agent '", agent_id, "' not found");
    HttpReply { status: 404, json: false, body }
}

/// The JSON text of an optional string: the string quoted, or `null`.
pub open spec fn spec_json_opt(s: Option<String>) -> Seq<char> {
    match s {
        Some(t) => json_quoted(t@),
        None => "null"@,
    }
}

/// The JSON text of an optional string.
pub fn json_opt(s: &Option<String>) -> (r: String)
    ensures
        r@ == spec_json_opt(*s),
{
    match s {
        Some(t) => json_quote(t.as_str()),
        None => String::from_str("null"),
    }
}

/// The JSON text of the answer to a posted call.
pub open spec fn spec_mcp_response_json(r: McpResponse) -> Seq<char> {
    "{\"status\":"@ + json_quoted(r.status@) + ",\"data\":"@ + spec_json_opt(r.data) + ",\"error\":"@
        + spec_json_opt(r.error) + "}"@
}

impl McpResponse {
    /// The answer by what came back: success with the agent's answer, or the time-out error.
    pub fn from_outcome(response: Option<String>) -> (r: Self)
        ensures
            match response {
                Some(text) => r.status@ == "success"@ && r.data == Some(text) && r.error is None,
                None => {
                    &&& r.status@ == "error"@
                    &&& r.data is None
                    &&& r.error matches Some(e) && e@ == "Timeout waiting for agent response"@
                },
            },
    {
        match response {
            Some(text) => McpResponse { status: String::from_str("success"), data: Some(text), error: None },
            None => McpResponse {
                status: String::from_str("error"),
                data: None,
                error: Some(String::from_str("Timeout waiting for agent response")),
            },
        }
    }

    /// The JSON text of the answer.
    pub fn to_json(&self) -> (s: String)
        ensures
            s@ == spec_mcp_response_json(*self),
    {
        let mut s = String::from_str("{\"status\":");
        let status = json_quote(self.status.as_str());
        s.append(status.as_str());
        s.append(",\"data\":");
        let data = json_opt(&self.data);
        s.append(data.as_str());
        s.append(",\"error\":");
        let error = json_opt(&self.error);
        s.append(error.as_str());
        s.append("}");
        s
    }
}

/// The JSON text of an agent in the listing.
pub open spec fn spec_agent_json(id: Seq<char>, name: Seq<char>, description: Seq<char>) -> Seq<char> {
    "{\"id\":"@ + json_quoted(id) + ",\"name\":"@ + json_quoted(name) + ",\"description\":"@
        + json_quoted(description) + "}"@
}

/// The name and description listed for an agent: its metadata, or placeholders.
pub open spec fn spec_agent_names(id: Seq<char>, meta: Map<Seq<char>, (String, String)>) -> (Seq<char>, Seq<char>) {
    if meta.contains_key(id) {
        (meta[id].0@, meta[id].1@)
    } else {
        ("Agent "@ + id, "No description available"@)
    }
}

/// The JSON texts of the agents with the given ids, in order.
pub open spec fn spec_agent_jsons(ids: Seq<String>, meta: Map<Seq<char>, (String, String)>) -> Seq<Seq<char>> {
    Seq::new(
        ids.len(),
        |i: int| spec_agent_json(ids[i]@, spec_agent_names(ids[i]@, meta).0, spec_agent_names(ids[i]@, meta).1),
    )
}

/// The JSON text of an agent offered as a tool that takes a message.
pub open spec fn spec_tool_json(id: Seq<char>, name: Seq<char>, description: Seq<char>) -> Seq<char> {
    "{\"name\":"@ + json_quoted(id) + ",\"description\":"@ + json_quoted(name + " - "@ + description)
        + ",\"parameters\":{\"type\":\"object\",\"properties\":{\"message\":{\"type\":\"string\",\"description\":"@
        + json_quoted("Message to send to the "@ + name + " agent"@) + "}},\"required\":[\"message\"]}}"@
}

/// The JSON texts of the tools for the given ids, in order; an agent without metadata is
/// left out.
pub open spec fn spec_tool_jsons(ids: Seq<String>, meta: Map<Seq<char>, (String, String)>) -> Seq<Seq<char>>
    decreases ids.len(),
{
    if ids.len() == 0 {
        Seq::empty()
    } else {
        let rest = spec_tool_jsons(ids.drop_last(), meta);
        let id = ids.last()@;
        if meta.contains_key(id) {
            rest.push(spec_tool_json(id, meta[id].0@, meta[id].1@))
        } else {
            rest
        }
    }
}

/// The ids among `ids` that have metadata, in order.
pub open spec fn ids_with_metadata(ids: Seq<String>, meta: Map<Seq<char>, (String, String)>) -> Seq<String> {
    ids.filter(|id: String| meta.contains_key(id@))
}

/// Whether a listing entry is the tool of the agent `id`, which has metadata.
pub open spec fn is_tool_of(entry: Seq<char>, id: Seq<char>, meta: Map<Seq<char>, (String, String)>) -> bool {
    meta.contains_key(id) && entry == spec_tool_json(id, meta[id].0@, meta[id].1@)
}

/// The tool listing has one entry per listed agent that has metadata: as many entries as
/// there are such agents, the tool of each of them among the entries, and each entry the
/// tool of one of them.
pub proof fn lemma_tool_listing_covers_agents(ids: Seq<String>, meta: Map<Seq<char>, (String, String)>)
    ensures
        spec_tool_jsons(ids, meta).len() == ids_with_metadata(ids, meta).len(),
        forall|i: int|
            0 <= i < ids.len() && meta.contains_key(#[trigger] ids[i]@) ==> exists|j: int|
                0 <= j < spec_tool_jsons(ids, meta).len() && is_tool_of(#[trigger] spec_tool_jsons(ids, meta)[j], ids[i]@, meta),
        forall|j: int|
            0 <= j < spec_tool_jsons(ids, meta).len() ==> exists|i: int|
                0 <= i < ids.len() && is_tool_of(#[trigger] spec_tool_jsons(ids, meta)[j], #[trigger] ids[i]@, meta),
{
    lemma_tool_listing_len(ids, meta);
    lemma_tool_listing_has_each(ids, meta);
    lemma_tool_listing_only_agents(ids, meta);
}

/// The listing has as many entries as agents with metadata.
proof fn lemma_tool_listing_len(ids: Seq<String>, meta: Map<Seq<char>, (String, String)>)
    ensures
        spec_tool_jsons(ids, meta).len() == ids_with_metadata(ids, meta).len(),
    decreases ids.len(),
{
    reveal_with_fuel(Seq::filter, 1);
    if ids.len() > 0 {
        lemma_tool_listing_len(ids.drop_last(), meta);
    }
}

/// Every agent with metadata has its tool in the listing.
proof fn lemma_tool_listing_has_each(ids: Seq<String>, meta: Map<Seq<char>, (String, String)>)
    ensures
        forall|i: int|
            0 <= i < ids.len() && meta.contains_key(#[trigger] ids[i]@) ==> exists|j: int|
                0 <= j < spec_tool_jsons(ids, meta).len() && is_tool_of(#[trigger] spec_tool_jsons(ids, meta)[j], ids[i]@, meta),
    decreases ids.len(),
{
    if ids.len() > 0 {
        let rest_ids = ids.drop_last();
        lemma_tool_listing_has_each(rest_ids, meta);
        let rest = spec_tool_jsons(rest_ids, meta);
        let all = spec_tool_jsons(ids, meta);
        let n = ids.len() - 1;
        assert forall|i: int| 0 <= i < ids.len() && meta.contains_key(#[trigger] ids[i]@) implies exists|j: int|
            0 <= j < all.len() && is_tool_of(#[trigger] all[j], ids[i]@, meta) by {
            if i < n {
                assert(rest_ids[i] == ids[i]);
                assert(meta.contains_key(rest_ids[i]@));
                let k = choose|k: int| 0 <= k < rest.len() && is_tool_of(#[trigger] rest[k], rest_ids[i]@, meta);
                assert(all[k] == rest[k]);
            } else {
                assert(is_tool_of(all[all.len() - 1], ids[i]@, meta));
            }
        }
    }
}

/// Every entry of the listing is the tool of an agent with metadata.
proof fn lemma_tool_listing_only_agents(ids: Seq<String>, meta: Map<Seq<char>, (String, String)>)
    ensures
        forall|j: int|
            0 <= j < spec_tool_jsons(ids, meta).len() ==> exists|i: int|
                0 <= i < ids.len() && is_tool_of(#[trigger] spec_tool_jsons(ids, meta)[j], #[trigger] ids[i]@, meta),
    decreases ids.len(),
{
    if ids.len() > 0 {
        let rest_ids = ids.drop_last();
        lemma_tool_listing_only_agents(rest_ids, meta);
        let rest = spec_tool_jsons(rest_ids, meta);
        let all = spec_tool_jsons(ids, meta);
        let n = ids.len() - 1;
        assert forall|j: int| 0 <= j < all.len() implies exists|i: int|
            0 <= i < ids.len() && is_tool_of(#[trigger] all[j], #[trigger] ids[i]@, meta) by {
            if j < rest.len() {
                let i = choose|i: int| 0 <= i < rest_ids.len() && is_tool_of(#[trigger] rest[j], #[trigger] rest_ids[i]@, meta);
                assert(rest_ids[i] == ids[i]);
                assert(all[j] == rest[j]);
            } else {
                assert(is_tool_of(all[j], ids[n]@, meta));
            }
        }
    }
}

/// A JSON array of the given texts.
pub open spec fn spec_json_array(items: Seq<Seq<char>>) -> Seq<char> {
    "["@ + join(items, ","@) + "]"@
}

/// The result of `initialize`: the server's capabilities and name (keys in the order
/// `serde_json` writes them).
pub open spec fn spec_initialize_result() -> Seq<char> {
    "{\"capabilities\":{\"completionProvider\":{\"triggerCharacters\":[\".\"]},\"executeCommandProvider\":{\"commands\":[\"copilot.getTools\"]},\"textDocumentSync\":{\"change\":1,\"openClose\":true},\"workspace\":{\"workspaceFolders\":{\"supported\":true}}},\"serverInfo\":{\"name\":\"MCP Tools Server\",\"version\":\"0.1.0\"}}"@
}

/// An LSP answer with a result.
pub open spec fn spec_lsp_result(id: Seq<char>, result: Seq<char>) -> Seq<char> {
    "{\"jsonrpc\":\"2.0\",\"id\":"@ + id + ",\"result\":"@ + result + "}"@
}

/// An LSP answer with the error "method not found" (code -32601) and a message.
pub open spec fn spec_lsp_error(id: Seq<char>, message: Seq<char>) -> Seq<char> {
    "{\"jsonrpc\":\"2.0\",\"id\":"@ + id + ",\"error\":{\"code\":-32601,\"message\":"@ + json_quoted(message)
        + "}}"@
}

/// An LSP answer with a result.
pub fn lsp_result(id: &str, result: &str) -> (s: String)
    ensures
        s@ == spec_lsp_result(id@, result@),
{
    let mut s = String::from_str("{\"jsonrpc\":\"2.0\",\"id\":");
    s.append(id);
    s.append(",\"result\":");
    s.append(result);
    s.append("}");
    s
}

/// An LSP answer with the error -32601.
pub fn lsp_error(id: &str, message: &str) -> (s: String)
    ensures
        s@ == spec_lsp_error(id@, message@),
{
    let mut s = String::from_str("{\"jsonrpc\":\"2.0\",\"id\":");
    s.append(id);
    s.append(",\"error\":{\"code\":-32601,\"message\":");
    let q = json_quote(message);
    s.append(q.as_str());
    s.append("}}");
    s
}

/// An optional string's characters.
pub open spec fn opt_chars(o: Option<String>) -> Option<Seq<char>> {
    match o {
        Some(s) => Some(s@),
        None => None,
    }
}

/// Whether a step is an answer with this status, kind and body.
pub open spec fn is_reply(s: LspStep, status: u16, json: bool, body: Seq<char>) -> bool {
    s matches LspStep::Reply(r) && r.status == status && r.json == json && r.body@ == body
}

/// What the server does with an LSP request, by its method: `initialize` answers with the
/// capabilities; `initialized` and `exit` with an empty body; `shutdown` with a null result;
/// `copilot/getTools`, and `workspace/executeCommand` for the command `copilot.getTools`, with
/// the tools (any other command is not supported); `copilot/executeFunction` sends the
/// message to the named agent once params, name, arguments and message are all there; any
/// other method is not found.
pub open spec fn spec_lsp_step(s: LspStep, call: LspCall, tools: Seq<char>) -> bool {
    let m = call.method@;
    let id = call.id@;
    if m == "initialize"@ {
        is_reply(s, 200, true, spec_lsp_result(id, spec_initialize_result()))
    } else if m == "initialized"@ || m == "exit"@ {
        is_reply(s, 200, false, Seq::<char>::empty())
    } else if m == "shutdown"@ {
        is_reply(s, 200, true, spec_lsp_result(id, "null"@))
    } else if m == "copilot/getTools"@ || m == "workspace/executeCommand"@ {
        if m == "workspace/executeCommand"@ && opt_chars(call.command) != Some("copilot.getTools"@) {
            is_reply(s, 200, true, spec_lsp_error(id, "Command not supported"@))
        } else {
            is_reply(s, 200, true, spec_lsp_result(id, "{\"tools\":"@ + tools + "}"@))
        }
    } else if m == "copilot/executeFunction"@ {
        if !call.has_params {
            is_reply(s, 400, false, "Missing params in executeFunction request"@)
        } else if call.function_name is None {
            is_reply(s, 400, false, "Missing function name in executeFunction params"@)
        } else if !call.has_arguments {
            is_reply(s, 400, false, "Missing arguments in executeFunction params"@)
        } else if call.message is None {
            is_reply(s, 400, false, "Missing 'message' parameter in function arguments"@)
        } else {
            s matches LspStep::Execute { agent_id, message } && Some(agent_id) == call.function_name
                && Some(message) == call.message
        }
    } else {
        is_reply(s, 200, true, spec_lsp_error(id, "Method not found: "@ + m))
    }
}

/// What an LSP request carries, as the server reads it.
#[derive(Debug, Clone, PartialEq, Eq)]
pub struct LspCall {
    /// The method.
    pub method: String,
    /// The JSON text of the id (`null` when there is none).
    pub id: String,
    /// `params.command`, when it is a string.
    pub command: Option<String>,
    /// Whether there are `params`.
    pub has_params: bool,
    /// `params.name`, when it is a string.
    pub function_name: Option<String>,
    /// Whether there are `params.arguments`.
    pub has_arguments: bool,
    /// `params.arguments.message`, when it is a string.
    pub message: Option<String>,
}

/// What the server does with an LSP request.
pub enum LspStep {
    /// Answers at once.
    Reply(HttpReply),
    /// Sends `message` to the agent `agent_id` and answers with what comes back.
    Execute { agent_id: String, message: String },
}

/// Reads an LSP request from its body: a body that is not JSON, or that has no method, is
/// answered with status 400.
pub fn read_lsp_call(body: &[u8]) -> (r: Result<LspCall, HttpReply>)
    ensures
        match json_parse_error(body@) {
            Some(e) => r matches Err(reply) && reply.status == 400 && !reply.json && reply.body@
                == "Invalid LSP request: "@ + e,
            None => match json_str_at(body@, "/method"@) {
                None => r matches Err(reply) && reply.status == 400 && !reply.json && reply.body@
                    == "LSP request missing 'method' field"@,
                Some(m) => r matches Ok(c) && {
                    &&& c.method@ == m
                    &&& c.id@ == match json_text_at(body@, "/id"@) {
                        Some(t) => t,
                        None => "null"@,
                    }
                    &&& opt_chars(c.command) == json_str_at(body@, "/params/command"@)
                    &&& c.has_params == (json_text_at(body@, "/params"@) is Some)
                    &&& opt_chars(c.function_name) == json_str_at(body@, "/params/name"@)
                    &&& c.has_arguments == (json_text_at(body@, "/params/arguments"@) is Some)
                    &&& opt_chars(c.message) == json_str_at(body@, "/params/arguments/message"@)
                },
            },
        },
{
    match json_error_of(body) {
        Some(e) => {
            return Err(HttpReply { status: 400, json: false, body: concat2("Invalid LSP request: ", e.as_str()) });
        },
        None => {},
    }
    let method = match json_string_at(body, "/method") {
        Some(m) => m,
        None => {
            return Err(text_reply(400, "LSP request missing 'method' field"));
        },
    };
    let id = match json_value_text_at(body, "/id") {
        Some(t) => t,
        None => String::from_str("null"),
    };
    let command = json_string_at(body, "/params/command");
    let has_params = json_value_text_at(body, "/params").is_some();
    let function_name = json_string_at(body, "/params/name");
    let has_arguments = json_value_text_at(body, "/params/arguments").is_some();
    let message = json_string_at(body, "/params/arguments/message");
    let c = LspCall { method, id, command, has_params, function_name, has_arguments, message };
    assert(opt_chars(c.command) == json_str_at(body@, "/params/command"@));
    assert(opt_chars(c.function_name) == json_str_at(body@, "/params/name"@));
    assert(opt_chars(c.message) == json_str_at(body@, "/params/arguments/message"@));
    Ok(c)
}

/// A call handed to an agent: on `channel`, the pair `(Some(message), function_name)`.
pub struct AgentCall<'a> {
    pub request_id: String,
    pub message: String,
    pub function_name: String,
    pub channel: &'a AgentSender,
}

/// The registered agents: their channels and their (name, description) pairs.
pub struct McpServer {
    pub agent_channels: StringMap<AgentSender>,
    pub agent_metadata: StringMap<(String, String)>,
}

impl McpServer {
    pub closed spec fn wf(self) -> bool {
        self.agent_channels.wf() && self.agent_metadata.wf()
    }

    /// The ids of the agents, in the order they were registered.
    pub closed spec fn spec_ids(self) -> Seq<String> {
        self.agent_channels.spec_entries().map_values(|e: (String, AgentSender)| e.0)
    }

    /// No agent registered.
    pub fn new() -> (m: Self)
        ensures
            m.wf(),
            m.agent_channels@ == Map::<Seq<char>, AgentSender>::empty(),
            m.agent_metadata@ == Map::<Seq<char>, (String, String)>::empty(),
    {
        McpServer { agent_channels: StringMap::new(), agent_metadata: StringMap::new() }
    }

    /// Registers an agent under `agent_id` with its name, description and channel; an agent
    /// registered again under the same id replaces the earlier one.
    pub fn register_agent(&mut self, agent_id: String, name: String, description: String, tx: AgentSender)
        requires
            old(self).wf(),
        ensures
            final(self).wf(),
            final(self).agent_channels@ == old(self).agent_channels@.insert(agent_id@, tx),
            final(self).agent_metadata@ == old(self).agent_metadata@.insert(agent_id@, (name, description)),
    {
        let id2 = agent_id.clone();
        self.agent_channels.insert(agent_id, tx);
        self.agent_metadata.insert(id2, (name, description));
    }

    /// The JSON listing of the agents (`GET /list`): id, name and description of each, in
    /// registration order.
    pub fn agents_json(&self) -> (s: String)
        requires
            self.wf(),
        ensures
            s@ == spec_json_array(spec_agent_jsons(self.spec_ids(), self.agent_metadata@)),
    {
        let ids = self.agent_channels.keys();
        let ghost meta = self.agent_metadata@;
        let mut parts: Vec<String> = Vec::new();
        let mut i: usize = 0;
        while i < ids.len()
            invariant
                self.wf(),
                meta == self.agent_metadata@,
                i <= ids@.len(),
                parts@.len() == i,
                forall|j: int| 0 <= j < i ==> #[trigger] parts@[j]@ == spec_agent_json(
                    ids@[j]@,
                    spec_agent_names(ids@[j]@, meta).0,
                    spec_agent_names(ids@[j]@, meta).1,
                ),
            decreases ids@.len() - i,
        {
            let id = &ids[i];
            let (name, description) = match self.agent_metadata.get(id.as_str()) {
                Some(pair) => (pair.0.clone(), pair.1.clone()),
                None => (concat2("Agent ", id.as_str()), String::from_str("No description available")),
            };
            let mut t = String::from_str("{\"id\":");
            let q1 = json_quote(id.as_str());
            t.append(q1.as_str());
            t.append(",\"name\":");
            let q2 = json_quote(name.as_str());
            t.append(q2.as_str());
            t.append(",\"description\":");
            let q3 = json_quote(description.as_str());
            t.append(q3.as_str());
            t.append("}");
            parts.push(t);
            i = i + 1;
        }
        proof {
            self.agent_channels.lemma_entries_are_model();
            assert(ids@ =~= self.spec_ids());
            assert(views(parts@) =~= spec_agent_jsons(self.spec_ids(), meta));
        }
        let joined = join_strings(&parts, ",");
        concat3("[", joined.as_str(), "]")
    }

    /// The JSON text of one tool.
    fn tool_json(id: &str, name: &str, description: &str) -> (s: String)
        ensures
            s@ == spec_tool_json(id@, name@, description@),
    {
        let mut s = String::from_str("{\"name\":");
        let q1 = json_quote(id);
        s.append(q1.as_str());
        s.append(",\"description\":");
        let full = concat3(name, " - ", description);
        let q2 = json_quote(full.as_str());
        s.append(q2.as_str());
        s.append(",\"parameters\":{\"type\":\"object\",\"properties\":{\"message\":{\"type\":\"string\",\"description\":");
        let pd = concat3("Message to send to the ", name, " agent");
        let q3 = json_quote(pd.as_str());
        s.append(q3.as_str());
        s.append("}},\"required\":[\"message\"]}}");
        s
    }

    /// The agents offered as tools (`GET /agents`, `GET /tools`), as a JSON array: each agent with
    /// metadata, in registration order, as a function that takes a message.
    pub fn tools_json(&self) -> (s: String)
        requires
            self.wf(),
        ensures
            s@ == spec_json_array(spec_tool_jsons(self.spec_ids(), self.agent_metadata@)),
    {
        let ids = self.agent_channels.keys();
        let ghost meta = self.agent_metadata@;
        let mut parts: Vec<String> = Vec::new();
        let mut i: usize = 0;
        while i < ids.len()
            invariant
                self.wf(),
                meta == self.agent_metadata@,
                i <= ids@.len(),
                views(parts@) == spec_tool_jsons(ids@.subrange(0, i as int), meta),
            decreases ids@.len() - i,
        {
            proof {
                assert(ids@.subrange(0, i + 1).drop_last() =~= ids@.subrange(0, i as int));
                assert(ids@.subrange(0, i + 1).last() == ids@[i as int]);
            }
            let id = &ids[i];
            match self.agent_metadata.get(id.as_str()) {
                Some(pair) => {
                    let t = Self::tool_json(id.as_str(), pair.0.as_str(), pair.1.as_str());
                    let ghost before = parts@;
                    parts.push(t);
                    assert(views(parts@) =~= views(before).push(t@));
                },
                None => {},
            }
            i = i + 1;
        }
        proof {
            assert(ids@.subrange(0, ids@.len() as int) =~= ids@);
            self.agent_channels.lemma_entries_are_model();
            assert(ids@ =~= self.spec_ids());
        }
        let joined = join_strings(&parts, ",");
        concat3("[", joined.as_str(), "]")
    }

    /// Starts a posted call: the recipient's channel is looked up (404 when unknown), a
    /// request is opened with `response_channel`, and the framed message is prepared for the
    /// named function (`default_handler` when none is named).
    pub fn start_mcp_call<'a, S>(
        &'a self,
        registry: &mut RequestRegistry<S>,
        request: McpRequest,
        response_channel: S,
    ) -> (r: Result<AgentCall<'a>, HttpReply>)
        requires
            self.wf(),
            old(registry).wf(),
        ensures
            final(registry).wf(),
            match r {
                Ok(c) => {
                    &&& spec_is_request_id(c.request_id@)
                    &&& self.agent_channels@.contains_key(request.recipient@)
                    &&& *c.channel == self.agent_channels@[request.recipient@]
                    &&& final(registry).spec_view() == spec_open_request(
                        old(registry).spec_view(),
                        c.request_id@,
                        response_channel,
                    )
                    &&& spec_parse_mcp_request_message(c.message@) == Some((c.request_id@, request.message@))
                    &&& c.function_name@ == match request.function {
                        Some(f) => f@,
                        None => "default_handler"@,
                    }
                },
                Err(reply) => {
                    &&& !self.agent_channels@.contains_key(request.recipient@)
                    &&& reply.status == 404 && !reply.json
                    &&& reply.body@ == "Agent '"@ + request.recipient@ + "' not found"@
                    &&& final(registry).spec_view() == old(registry).spec_view()
                },
            },
    {
        let channel = match self.agent_channels.get(request.recipient.as_str()) {
            Some(tx) => tx,
            None => {
                return Err(agent_not_found_reply(request.recipient.as_str()));
            },
        };
        let request_id = new_request_id();
        registry.open_request(request_id.clone(), response_channel);
        let function_name = match request.function {
            Some(f) => f,
            None => String::from_str("default_handler"),
        };
        let message = mcp_request_message(request_id.as_str(), request.message.as_str());
        proof {
            lemma_parse_inverts_frame(request_id@, request.message@);
        }
        Ok(AgentCall { request_id, message, function_name, channel })
    }

    /// Decides how to answer an LSP request.
    pub fn lsp_step(&self, call: &LspCall) -> (s: LspStep)
        requires
            self.wf(),
        ensures
            spec_lsp_step(s, *call, spec_json_array(spec_tool_jsons(self.spec_ids(), self.agent_metadata@))),
    {
        let m = call.method.as_str();
        let id = call.id.as_str();
        if same_text(m, "initialize") {
            let body = lsp_result(
                id,
                "{\"capabilities\":{\"completionProvider\":{\"triggerCharacters\":[\".\"]},\"executeCommandProvider\":{\"commands\":[\"copilot.getTools\"]},\"textDocumentSync\":{\"change\":1,\"openClose\":true},\"workspace\":{\"workspaceFolders\":{\"supported\":true}}},\"serverInfo\":{\"name\":\"MCP Tools Server\",\"version\":\"0.1.0\"}}",
            );
            LspStep::Reply(json_reply(body))
        } else if same_text(m, "initialized") || same_text(m, "exit") {
            LspStep::Reply(HttpReply { status: 200, json: false, body: String::new() })
        } else if same_text(m, "shutdown") {
            LspStep::Reply(json_reply(lsp_result(id, "null")))
        } else if same_text(m, "copilot/getTools") || same_text(m, "workspace/executeCommand") {
            let is_tools = if same_text(m, "workspace/executeCommand") {
                match &call.command {
                    Some(c) => same_text(c.as_str(), "copilot.getTools"),
                    None => false,
                }
            } else {
                true
            };
            if is_tools {
                let tools = self.tools_json();
                let result = concat3("{\"tools\":", tools.as_str(), "}");
                LspStep::Reply(json_reply(lsp_result(id, result.as_str())))
            } else {
                LspStep::Reply(json_reply(lsp_error(id, "Command not supported")))
            }
        } else if same_text(m, "copilot/executeFunction") {
            if !call.has_params {
                return LspStep::Reply(text_reply(400, "Missing params in executeFunction request"));
            }
            let agent_id = match &call.function_name {
                Some(n) => n.clone(),
                None => {
                    return LspStep::Reply(text_reply(400, "Missing function name in executeFunction params"));
                },
            };
            if !call.has_arguments {
                return LspStep::Reply(text_reply(400, "Missing arguments in executeFunction params"));
            }
            let message = match &call.message {
                Some(t) => t.clone(),
                None => {
                    return LspStep::Reply(text_reply(400, "Missing 'message' parameter in function arguments"));
                },
            };
            LspStep::Execute { agent_id, message }
        } else {
            let text = concat2("Method not found: ", m);
            LspStep::Reply(json_reply(lsp_error(id, text.as_str())))
        }
    }

    /// Starts the call of an LSP `executeFunction`: the agent's channel is looked up (404
    /// when unknown, and no request is left open), a request is opened with
    /// `response_channel`, and the framed message is prepared for the agent's "Run"
    /// function. Gives back the request id.
    pub fn start_lsp_call<'a, S>(
        &'a self,
        registry: &mut RequestRegistry<S>,
        agent_id: &str,
        message: &str,
        response_channel: S,
    ) -> (r: (String, Result<AgentCall<'a>, HttpReply>))
        requires
            self.wf(),
            old(registry).wf(),
        ensures
            final(registry).wf(),
            spec_is_request_id(r.0@),
            match r.1 {
                Ok(c) => {
                    &&& final(registry).spec_view() == spec_open_request(old(registry).spec_view(), r.0@, response_channel)
                    &&& self.agent_channels@.contains_key(agent_id@)
                    &&& *c.channel == self.agent_channels@[agent_id@]
                    &&& c.request_id == r.0
                    &&& spec_parse_mcp_request_message(c.message@) == Some((c.request_id@, message@))
                    &&& c.function_name@ == GuestMethod::Run.spec_name()
                },
                Err(reply) => {
                    &&& final(registry).spec_view() == old(registry).spec_view()
                    &&& !self.agent_channels@.contains_key(agent_id@)
                    &&& reply.status == 404 && !reply.json
                    &&& reply.body@ == "Agent '"@ + agent_id@ + "' not found"@
                },
            },
    {
        let request_id = new_request_id();
        let channel = match self.agent_channels.get(agent_id) {
            Some(tx) => tx,
            None => {
                return (request_id, Err(agent_not_found_reply(agent_id)));
            },
        };
        registry.open_request(request_id.clone(), response_channel);
        let framed = mcp_request_message(request_id.as_str(), message);
        proof {
            lemma_parse_inverts_frame(request_id@, message@);
        }
        let function_name = String::from_str(GuestMethod::Run.as_ref());
        let rid = request_id.clone();
        (request_id, Ok(AgentCall { request_id: rid, message: framed, function_name, channel }))
    }
}

/// Ends a posted call with what came back (`None` on time-out): the request is closed, and
/// the answer is the JSON of the `McpResponse`.
pub fn finish_mcp_call<S>(registry: &mut RequestRegistry<S>, request_id: &str, response: Option<String>) -> (r: HttpReply)
    requires
        old(registry).wf(),
    ensures
        final(registry).wf(),
        final(registry).spec_view() == spec_close_request(old(registry).spec_view(), request_id@),
        r.status == 200 && r.json,
        match response {
            Some(text) => r.body@ == "{\"status\":"@ + json_quoted("success"@) + ",\"data\":"@ + json_quoted(text@)
                + ",\"error\":"@ + "null"@ + "}"@,
            None => r.body@ == "{\"status\":"@ + json_quoted("error"@) + ",\"data\":"@ + "null"@ + ",\"error\":"@
                + json_quoted("Timeout waiting for agent response"@) + "}"@,
        },
{
    registry.close_request(request_id);
    let resp = McpResponse::from_outcome(response);
    json_reply(resp.to_json())
}

/// Ends an LSP call with what came back (`None` on time-out): the request is closed, and
/// the answer carries the agent's text, or the time-out message, as its result.
pub fn finish_lsp_call<S>(
    registry: &mut RequestRegistry<S>,
    id: &str,
    request_id: &str,
    response: Option<String>,
) -> (r: HttpReply)
    requires
        old(registry).wf(),
    ensures
        final(registry).wf(),
        final(registry).spec_view() == spec_close_request(old(registry).spec_view(), request_id@),
        r.status == 200 && r.json,
        r.body@ == spec_lsp_result(
            id@,
            "{\"result\":"@ + json_quoted(
                match response {
                    Some(text) => text@,
                    None => "Timeout waiting for agent response"@,
                },
            ) + "}"@,
        ),
{
    let text = match response {
        Some(t) => t,
        None => String::from_str("Timeout waiting for agent response"),
    };
    registry.close_request(request_id);
    let q = json_quote(text.as_str());
    let result = concat3("{\"result\":", q.as_str(), "}");
    json_reply(lsp_result(id, result.as_str()))
}

/// `Sender::<String>::send`, with the error's text. Trusted for nothing: whether the send
/// succeeds depends on whether the receiver is still there.
#[verifier::external_body]
fn send_text(tx: &std::sync::mpsc::Sender<String>, text: String) -> (r: Result<(), String>) {
    tx.send(text).map_err(|e| e.to_string())
}

/// Where and what to send for an agent's answer to the caller waiting on `request_id`: the
/// request's channel, left in place, and the answer itself; "not found" when no such
/// request is open.
pub fn response_delivery<'a, S>(
    registry: &'a RequestRegistry<S>,
    request_id: &str,
    response: String,
) -> (r: Result<(&'a S, String), String>)
    requires
        registry.wf(),
    ensures
        match r {
            Ok((channel, message)) => {
                &&& registry.spec_view().channels.contains_key(request_id@)
                &&& *channel == registry.spec_view().channels[request_id@]
                &&& message == response
            },
            Err(e) => {
                &&& !registry.spec_view().channels.contains_key(request_id@)
                &&& e@ == "Request ID '"@ + request_id@ + "' not found"@
            },
        },
{
    match registry.response_channel(request_id) {
        Some(tx) => Ok((tx, response)),
        None => Err(concat3("Request ID '", request_id, "' not found")),
    }
}

/// Sends an agent's answer to the caller waiting on `request_id`. Fails with "not found"
/// when no such request is open; otherwise the answer is sent on the channel that
/// `response_delivery` gives (a failed send is reported with the channel's error). The
/// registry is left as it is.
pub fn send_mcp_response(
    registry: &RequestRegistry<std::sync::mpsc::Sender<String>>,
    request_id: &str,
    response: String,
) -> (r: Result<(), String>)
    requires
        registry.wf(),
    ensures
        !registry.spec_view().channels.contains_key(request_id@) ==> (r matches Err(e) && e@
            == "Request ID '"@ + request_id@ + "' not found"@),
        registry.spec_view().channels.contains_key(request_id@) ==> (r is Ok || (r matches Err(e)
            && has_prefix(e@, "Failed to send response: "@))),
{
    match response_delivery(registry, request_id, response) {
        Ok((tx, message)) => match send_text(tx, message) {
            Ok(()) => Ok(()),
            Err(e) => {
                let text = concat2("Failed to send response: ", e.as_str());
                assert(text@.subrange(0, "Failed to send response: "@.len() as int) =~= "Failed to send response: "@);
                Err(text)
            },
        },
        Err(e) => Err(e),
    }
}

} // verus!
