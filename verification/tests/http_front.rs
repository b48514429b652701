use hyperlight_agents::mcp_http::{
    agent_not_found_reply, finish_lsp_call, finish_mcp_call, invalid_call_reply, not_allowed_reply,
    read_lsp_call, response_delivery, route, send_failed_reply, send_mcp_response, unreadable_body_reply, LspError, LspStep,
    McpRequest, McpResponse, McpServer, Route,
};
use hyperlight_agents::requests::RequestRegistry;
use serde_json::Value;
use std::sync::mpsc::channel;

fn json(text: &str) -> Value {
    serde_json::from_str(text).unwrap()
}

fn server() -> McpServer {
    let (tx, _rx) = channel();
    let mut s = McpServer::new();
    s.register_agent("top_hn".to_string(), "Top HN".to_string(), "Reads the news".to_string(), tx);
    s
}

#[test]
fn routes() {
    assert_eq!(route("GET", "/list"), Route::ListAgents);
    assert_eq!(route("GET", "/agents"), Route::ToolsList);
    assert_eq!(route("GET", "/tools"), Route::ToolsList);
    assert_eq!(route("POST", "/tools"), Route::Call);
    assert_eq!(route("POST", "/lsp"), Route::Lsp);
    assert_eq!(route("GET", "/copilot"), Route::Lsp);
    assert_eq!(route("PUT", "/"), Route::NotAllowed);
    assert_eq!(route("POST", "/anything"), Route::Call);
    let r = not_allowed_reply();
    assert_eq!((r.status, r.body.as_str()), (405, "Only GET /agents, GET /tools, POST, and LSP requests are supported"));
}

#[test]
fn plain_replies() {
    assert_eq!(unreadable_body_reply(true).body, "Failed to read LSP request body");
    assert_eq!(unreadable_body_reply(false).body, "Failed to read request body");
    assert_eq!(invalid_call_reply("missing field `message`").body, "Invalid MCP request: missing field `message`");
    assert_eq!(send_failed_reply("closed").status, 500);
    assert_eq!(agent_not_found_reply("x").body, "Agent 'x' not found");
    let e = LspError { code: -32601, message: "m".to_string() };
    assert_eq!(e.code, -32601);
}

#[test]
fn agent_listing() {
    let s = server();
    assert_eq!(
        json(&s.agents_json()),
        json("[{\"id\":\"top_hn\",\"name\":\"Top HN\",\"description\":\"Reads the news\"}]")
    );
    assert_eq!(McpServer::new().agents_json(), "[]");
}

#[test]
fn tool_listing_in_openai_form() {
    let s = server();
    let expected = json(
        "[{\"name\":\"top_hn\",\"description\":\"Top HN - Reads the news\",\"parameters\":{\"type\":\"object\",\"properties\":{\"message\":{\"type\":\"string\",\"description\":\"Message to send to the Top HN agent\"}},\"required\":[\"message\"]}}]",
    );
    assert_eq!(json(&s.tools_json()), expected);
}

#[test]
fn posted_calls() {
    let s = server();
    let mut reg: RequestRegistry<u8> = RequestRegistry::new();
    let missing = McpRequest { recipient: "nobody".to_string(), message: "hi".to_string(), function: None };
    match s.start_mcp_call(&mut reg, missing, 1) {
        Err(r) => assert_eq!((r.status, r.body.as_str()), (404, "Agent 'nobody' not found")),
        Ok(_) => panic!("expected not found"),
    }
    let req = McpRequest { recipient: "top_hn".to_string(), message: "hi".to_string(), function: None };
    let call = match s.start_mcp_call(&mut reg, req, 2) {
        Ok(c) => c,
        Err(_) => panic!("expected a call"),
    };
    assert_eq!(call.function_name, "default_handler");
    assert_eq!(call.message, format!("mcp_request:{}:hi", call.request_id));
    assert!(call.request_id.starts_with("req-") && call.request_id.len() == 40);
    let id = call.request_id.clone();
    let reply = finish_mcp_call(&mut reg, &id, Some("answer".to_string()));
    assert_eq!(reply.status, 200);
    assert_eq!(json(&reply.body), json("{\"status\":\"success\",\"data\":\"answer\",\"error\":null}"));
    assert!(!reg.is_open(&id));
    let timeout = finish_mcp_call(&mut reg, "req-x", None);
    assert_eq!(
        json(&timeout.body),
        json("{\"status\":\"error\",\"data\":null,\"error\":\"Timeout waiting for agent response\"}")
    );
    let r = McpResponse::from_outcome(None);
    assert_eq!(r.status, "error");
}

#[test]
fn lsp_requests_are_read() {
    match read_lsp_call(b"not json") {
        Err(r) => {
            assert_eq!(r.status, 400);
            assert!(r.body.starts_with("Invalid LSP request: "));
        }
        Ok(_) => panic!("expected an error"),
    }
    match read_lsp_call(b"{\"id\":1}") {
        Err(r) => assert_eq!(r.body, "LSP request missing 'method' field"),
        Ok(_) => panic!("expected an error"),
    }
    let c = read_lsp_call(b"{\"jsonrpc\":\"2.0\",\"method\":\"copilot/executeFunction\",\"params\":{\"name\":\"top_hn\",\"arguments\":{\"message\":\"go\"}}}").unwrap();
    assert_eq!(c.method, "copilot/executeFunction");
    assert_eq!(c.id, "null");
    assert!(c.has_params && c.has_arguments);
    assert_eq!(c.function_name, Some("top_hn".to_string()));
    assert_eq!(c.message, Some("go".to_string()));
}

fn step(s: &McpServer, body: &str) -> LspStep {
    s.lsp_step(&read_lsp_call(body.as_bytes()).unwrap())
}

fn reply_of(step: LspStep) -> (u16, bool, String) {
    match step {
        LspStep::Reply(r) => (r.status, r.json, r.body),
        LspStep::Execute { .. } => panic!("expected a reply"),
    }
}

#[test]
fn lsp_lifecycle() {
    let s = server();
    let (status, is_json, body) = reply_of(step(&s, "{\"id\":3,\"method\":\"initialize\"}"));
    assert_eq!((status, is_json), (200, true));
    let v = json(&body);
    assert_eq!(v["id"], json("3"));
    assert_eq!(v["result"]["serverInfo"]["name"], json("\"MCP Tools Server\""));
    assert_eq!(v["result"]["capabilities"]["textDocumentSync"]["change"], json("1"));
    assert_eq!(reply_of(step(&s, "{\"method\":\"initialized\"}")), (200, false, String::new()));
    assert_eq!(reply_of(step(&s, "{\"method\":\"exit\"}")), (200, false, String::new()));
    let (_, _, body) = reply_of(step(&s, "{\"id\":\"a\",\"method\":\"shutdown\"}"));
    assert_eq!(json(&body), json("{\"jsonrpc\":\"2.0\",\"id\":\"a\",\"result\":null}"));
}

#[test]
fn lsp_tools_and_unknown_methods() {
    let s = server();
    let (_, _, body) = reply_of(step(&s, "{\"id\":1,\"method\":\"copilot/getTools\"}"));
    let v = json(&body);
    assert_eq!(v["result"]["tools"][0]["name"], json("\"top_hn\""));
    let (_, _, body) = reply_of(step(&s, "{\"id\":1,\"method\":\"workspace/executeCommand\",\"params\":{\"command\":\"copilot.getTools\"}}"));
    assert_eq!(json(&body)["result"]["tools"][0]["description"], json("\"Top HN - Reads the news\""));
    let (_, _, body) = reply_of(step(&s, "{\"id\":1,\"method\":\"workspace/executeCommand\",\"params\":{\"command\":\"other\"}}"));
    assert_eq!(json(&body), json("{\"jsonrpc\":\"2.0\",\"id\":1,\"error\":{\"code\":-32601,\"message\":\"Command not supported\"}}"));
    let (_, _, body) = reply_of(step(&s, "{\"id\":2,\"method\":\"textDocument/hover\"}"));
    assert_eq!(json(&body)["error"]["message"], json("\"Method not found: textDocument/hover\""));
}

#[test]
fn lsp_function_calls() {
    let s = server();
    assert_eq!(reply_of(step(&s, "{\"method\":\"copilot/executeFunction\"}")).2, "Missing params in executeFunction request");
    assert_eq!(reply_of(step(&s, "{\"method\":\"copilot/executeFunction\",\"params\":{}}")).2, "Missing function name in executeFunction params");
    assert_eq!(reply_of(step(&s, "{\"method\":\"copilot/executeFunction\",\"params\":{\"name\":\"top_hn\"}}")).2, "Missing arguments in executeFunction params");
    assert_eq!(reply_of(step(&s, "{\"method\":\"copilot/executeFunction\",\"params\":{\"name\":\"top_hn\",\"arguments\":{}}}")).2, "Missing 'message' parameter in function arguments");
    match step(&s, "{\"id\":5,\"method\":\"copilot/executeFunction\",\"params\":{\"name\":\"top_hn\",\"arguments\":{\"message\":\"go\"}}}") {
        LspStep::Execute { agent_id, message } => assert_eq!((agent_id.as_str(), message.as_str()), ("top_hn", "go")),
        LspStep::Reply(_) => panic!("expected an execution"),
    }
    let mut reg: RequestRegistry<u8> = RequestRegistry::new();
    let (rid, call) = s.start_lsp_call(&mut reg, "top_hn", "go", 1);
    let call = match call {
        Ok(c) => c,
        Err(_) => panic!("expected a call"),
    };
    assert_eq!(call.function_name, "Run");
    assert_eq!(call.request_id, rid);
    let reply = finish_lsp_call(&mut reg, "5", &rid, None);
    assert_eq!(json(&reply.body), json("{\"jsonrpc\":\"2.0\",\"id\":5,\"result\":{\"result\":\"Timeout waiting for agent response\"}}"));
    assert!(!reg.is_open(&rid));
    let (rid2, missing) = s.start_lsp_call(&mut reg, "nobody", "go", 2);
    assert!(missing.is_err());
    assert!(!reg.is_open(&rid2));
}

#[test]
fn responses_reach_waiting_callers() {
    let mut reg: RequestRegistry<std::sync::mpsc::Sender<String>> = RequestRegistry::new();
    assert_eq!(send_mcp_response(&reg, "req-1", "x".to_string()), Err("Request ID 'req-1' not found".to_string()));
    let (tx, rx) = channel();
    reg.open_request("req-1".to_string(), tx);
    assert_eq!(send_mcp_response(&reg, "req-1", "answer".to_string()), Ok(()));
    assert_eq!(rx.recv().unwrap(), "answer");
    drop(rx);
    let err = send_mcp_response(&reg, "req-1", "late".to_string()).unwrap_err();
    assert!(err.starts_with("Failed to send response: "));
    assert!(reg.is_open("req-1"));
}

#[test]
fn response_delivery_names_channel_and_answer() {
    let mut reg: RequestRegistry<u32> = RequestRegistry::new();
    assert_eq!(
        response_delivery(&reg, "req-2", "x".to_string()),
        Err("Request ID 'req-2' not found".to_string())
    );
    reg.open_request("req-2".to_string(), 9);
    assert_eq!(response_delivery(&reg, "req-2", "the answer".to_string()), Ok((&9, "the answer".to_string())));
}
