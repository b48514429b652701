use hyperlight_agents::agent_loop::{after_guest_call, agent_loop_step, AgentAction, AgentEvent, AgentLoopState};
use hyperlight_agents::common::{GuestMethod, HostMethod, VmCommand, VmCommandMode, VmCommandResult};
use hyperlight_agents::host_functions::{
    acknowledgement, agent_short_id, is_agent_binary, request_headers, request_method, string_array_json, work_result,
};
use hyperlight_agents::http_proxy::ProxyMethod;
use hyperlight_agents::json::{parse_json_document, JsonDocument, JsonScalar};
use hyperlight_agents::mcp_server::{HyperlightAgentHandler, McpServerManager, ToolCallError};
use hyperlight_agents::mcp_tool::{properties_in_order, text_before, SchemaProperty, Tool, ToolInputSchema};
use hyperlight_agents::requests::RequestRegistry;
use hyperlight_agents::vm_manager::{
    command_id, command_outcome, command_request_json, command_result_from_exchange, command_timeout,
    default_command_timeout, handshake_accepted, health_check_command, interpret_command_result,
    read_vm_message, register_ack_json, retry_decision, vm_created_message, vm_destroyed_message,
    vsock_port_socket_path, agent_exchange_result, limited_stdout, processor_step, ProcessorStep, response_complete, AgentExchange, CommandExchange, CommandWait,
    RetryDecision, VmInstance, VmManager, VmMessage,
};
use std::sync::mpsc::channel;

fn tool(name: &str) -> Tool {
    Tool {
        annotations: None,
        description: Some(format!("{} tool", name)),
        input_schema: ToolInputSchema::new(vec!["action".to_string()], None),
        meta: None,
        name: name.to_string(),
        output_schema: None,
        title: Some("T".to_string()),
    }
}

#[test]
fn host_and_guest_method_names() {
    assert_eq!(HostMethod::FinalResult.as_ref(), "FinalResult");
    assert_eq!(HostMethod::ListVMs.as_ref(), "ListVMs");
    assert_eq!(GuestMethod::Run.as_ref(), "Run");
    assert_eq!(GuestMethod::GetMCPTool.as_ref(), "GetMCPTool");
}

#[test]
fn tool_call_to_unknown_agent_is_not_found() {
    let manager = McpServerManager::new();
    let handler = manager.into_handler();
    let mut reg: RequestRegistry<u32> = RequestRegistry::new();
    match handler.start_tool_call(&mut reg, "nobody", "{}", 1) {
        Err(ToolCallError::NotFound(m)) => assert_eq!(m, "Agent 'nobody' not found"),
        _ => panic!("expected not found"),
    }
}

#[test]
fn tool_call_is_framed_for_run() {
    let (tx, rx) = channel();
    let mut manager = McpServerManager::new();
    manager.register_agent("vm_builder".to_string(), tool("VmBuilder"), tx);
    let handler: HyperlightAgentHandler = manager.into_handler();
    let mut reg: RequestRegistry<u32> = RequestRegistry::new();
    let dispatch = match handler.start_tool_call(&mut reg, "vm_builder", "{\"action\":\"list_vms\"}", 5) {
        Ok(d) => d,
        Err(_) => panic!("expected a dispatch"),
    };
    assert!(dispatch.request_id.starts_with("req-"));
    assert_eq!(dispatch.message, format!("mcp_request:{}:{{\"action\":\"list_vms\"}}", dispatch.request_id));
    assert_eq!(dispatch.function_name, "Run");
    assert!(reg.is_open(&dispatch.request_id));
    dispatch.channel.send((Some(dispatch.message.clone()), dispatch.function_name.clone())).unwrap();
    assert_eq!(rx.recv().unwrap().1, "Run");
    let id = dispatch.request_id.clone();
    assert_eq!(HyperlightAgentHandler::finish_tool_call(&mut reg, &id, Some("done".to_string())).unwrap(), "done");
    assert!(!reg.is_open(&id));
}

#[test]
fn tool_call_timeout_and_send_failure() {
    let mut reg: RequestRegistry<u32> = RequestRegistry::new();
    reg.open_request("req-1".to_string(), 1);
    match HyperlightAgentHandler::finish_tool_call(&mut reg, "req-1", None) {
        Err(ToolCallError::TimedOut(m)) => assert_eq!(m, "Timeout waiting for agent response"),
        _ => panic!("expected a time-out"),
    }
    assert!(reg.is_open("req-1"));
    match HyperlightAgentHandler::send_failed("sending on a closed channel") {
        ToolCallError::SendFailed(m) => assert_eq!(m, "Failed to send message to agent: sending on a closed channel"),
        _ => panic!("expected a send failure"),
    }
}

#[test]
fn listed_tools_drop_annotations_and_outputs() {
    let (tx, _rx) = channel();
    let mut manager = McpServerManager::new();
    manager.register_agent("a".to_string(), tool("A"), tx.clone());
    manager.register_agent("b".to_string(), tool("B"), tx);
    let handler = manager.into_handler();
    let tools = handler.list_tools();
    assert_eq!(tools.len(), 2);
    assert_eq!(tools[0].name, "A");
    assert_eq!(tools[1].name, "B");
    assert_eq!(tools[0].title, Some("T".to_string()));
    assert_eq!(tools[0].input_schema.required, vec!["action".to_string()]);
    assert_eq!(tools[0].input_schema.type_(), "object");
    assert!(tools[0].annotations.is_none() && tools[0].output_schema.is_none());
}

#[test]
fn listed_tools_keep_properties_and_meta() {
    let mut t = tool("C");
    let props = vec![SchemaProperty {
        name: "path".to_string(),
        fields: vec![("type".to_string(), "\"string\"".to_string())],
    }];
    t.input_schema = ToolInputSchema::new(vec!["path".to_string()], Some(props));
    let mut meta = serde_json::Map::new();
    meta.insert("owner".to_string(), serde_json::Value::String("me".to_string()));
    t.meta = Some(meta.clone());
    let l = t.listed();
    let p = l.input_schema.properties.unwrap();
    assert_eq!(p.len(), 1);
    assert_eq!(p[0].name, "path");
    assert_eq!(p[0].fields, vec![("type".to_string(), "\"string\"".to_string())]);
    assert_eq!(l.meta, Some(meta));
}

#[test]
fn large_output_is_cut() {
    let small = limited_stdout("abc".to_string(), "err");
    assert_eq!(small, "abc");
    let six = "a".repeat(6 * 1024 * 1024);
    assert_eq!(limited_stdout(six.clone(), ""), six);
    let five = "b".repeat(5 * 1024 * 1024);
    let cut = limited_stdout(six.clone(), &five);
    assert_eq!(cut.len(), 5 * 1024 * 1024 + "\n[TRUNCATED: Output too large]".len());
    assert!(cut.ends_with("\n[TRUNCATED: Output too large]"));
    assert!(cut.starts_with(&"a".repeat(5 * 1024 * 1024)));
    let euros = "€".repeat(2 * 1024 * 1024);
    let cut = limited_stdout(euros, &five);
    assert_eq!(cut, format!("{}\n[TRUNCATED: Output too large]", "€".repeat(1747626)));
    let body = format!("{{\"exit_code\":0,\"stdout\":\"{}\",\"stderr\":\"{}\"}}", six, five);
    let r = agent_exchange_result("c1", AgentExchange::Response { bytes: body.clone().into_bytes() });
    assert_eq!(r.stdout.len(), 5 * 1024 * 1024 + "\n[TRUNCATED: Output too large]".len());
    assert_eq!(r.stderr.len(), 5 * 1024 * 1024);
    let r = command_result_from_exchange("c2", CommandExchange::Response { bytes: body.into_bytes() });
    assert!(r.stdout.ends_with("[TRUNCATED: Output too large]"));
}

#[test]
fn agent_loop_takes_up_framed_requests() {
    let mut reg: RequestRegistry<u32> = RequestRegistry::new();
    reg.open_request("req-7".to_string(), 70);
    let mut state = AgentLoopState { agent_id: "agent".to_string(), request_id: None };
    let action = agent_loop_step(
        &mut state,
        &mut reg,
        false,
        AgentEvent::Received { content: Some("mcp_request:req-7:{\"x\":1}".to_string()), callback: "Run".to_string() },
    );
    match action {
        AgentAction::CallGuest { function, argument, sleep_after } => {
            assert_eq!(function, "Run");
            assert_eq!(argument, Some("{\"x\":1}".to_string()));
            assert!(!sleep_after);
        }
        _ => panic!("expected a guest call"),
    }
    assert_eq!(state.request_id, Some("req-7".to_string()));
    assert_eq!(reg.take_answer_channel("agent"), Some(70));
}

#[test]
fn agent_loop_passes_other_content_and_stops() {
    let mut reg: RequestRegistry<u32> = RequestRegistry::new();
    let mut state = AgentLoopState { agent_id: "agent".to_string(), request_id: None };
    match agent_loop_step(&mut state, &mut reg, false, AgentEvent::Received { content: Some("page".to_string()), callback: "ProcessHttpResponse".to_string() }) {
        AgentAction::CallGuest { function, argument, sleep_after } => {
            assert_eq!(function, "ProcessHttpResponse");
            assert_eq!(argument, Some("page".to_string()));
            assert!(sleep_after);
        }
        _ => panic!("expected a guest call"),
    }
    assert!(matches!(agent_loop_step(&mut state, &mut reg, false, AgentEvent::Empty), AgentAction::Sleep));
    assert!(matches!(agent_loop_step(&mut state, &mut reg, true, AgentEvent::Empty), AgentAction::Exit));
    assert!(matches!(agent_loop_step(&mut state, &mut reg, false, AgentEvent::Disconnected), AgentAction::Exit));
}

#[test]
fn guest_failure_answers_the_caller() {
    let mut reg: RequestRegistry<u32> = RequestRegistry::new();
    reg.open_request("req-2".to_string(), 20);
    reg.record_agent_request("agent".to_string(), "req-2".to_string());
    let mut state = AgentLoopState { agent_id: "agent".to_string(), request_id: Some("req-2".to_string()) };
    assert_eq!(after_guest_call(&mut state, &mut reg, Ok("fine".to_string())), None);
    let reply = after_guest_call(&mut state, &mut reg, Err("GuestAborted".to_string()));
    assert_eq!(reply, Some((20, "Error: GuestAborted".to_string())));
    assert_eq!(state.request_id, None);
    assert_eq!(reg.agent_request("agent"), None);
}

#[test]
fn machines_get_fresh_context_ids() {
    let mut m: VmManager<()> = VmManager::new();
    assert!(m.can_allocate_cid());
    let a = m.allocate_cid();
    let b = m.allocate_cid();
    assert_eq!((a, b), (100, 101));
    m.register_vm(VmInstance { vm_id: "one".to_string(), cid: a, pid: None, socket_dir: "/tmp/x".to_string(), handles: () });
    m.register_vm(VmInstance { vm_id: "two".to_string(), cid: b, pid: Some(9), socket_dir: "/tmp/y".to_string(), handles: () });
    assert!(m.cid_taken(100, "two"));
    assert!(!m.cid_taken(100, "one"));
    assert_eq!(m.len(), 2);
    let mut ids = m.list_vms();
    ids.sort();
    assert_eq!(ids, vec!["one".to_string(), "two".to_string()]);
    assert_eq!(m.get("two").unwrap().cid, 101);
}

#[test]
fn destroying_an_unknown_machine_fails() {
    let mut m: VmManager<()> = VmManager::new();
    match m.destroy_vm("ghost") {
        Err(e) => assert_eq!(e, "VM ghost not found"),
        Ok(_) => panic!("expected an error"),
    }
    let cid = m.allocate_cid();
    m.register_vm(VmInstance { vm_id: "one".to_string(), cid, pid: None, socket_dir: "/d".to_string(), handles: () });
    assert!(m.destroy_vm("one").is_ok());
    assert_eq!(m.len(), 0);
}

#[test]
fn command_processor_steps() {
    assert_eq!(processor_step(true, true), ProcessorStep::Stop);
    assert_eq!(processor_step(true, false), ProcessorStep::Stop);
    assert_eq!(processor_step(false, true), ProcessorStep::Run);
    assert_eq!(processor_step(false, false), ProcessorStep::Skip);
}

#[test]
fn shutdown_hands_back_pids_once() {
    let mut m: VmManager<()> = VmManager::new();
    assert!(!m.is_shutting_down());
    for (id, pid) in [("a", Some(11)), ("b", None), ("c", Some(13))] {
        let cid = m.allocate_cid();
        m.register_vm(VmInstance { vm_id: id.to_string(), cid, pid, socket_dir: "/d".to_string(), handles: () });
    }
    let mut pids = m.shutdown();
    pids.sort();
    assert_eq!(pids, vec![11, 13]);
    assert!(m.is_shutting_down());
    assert!(m.list_vms().is_empty());
    assert!(m.shutdown().is_empty());
    assert!(m.is_shutting_down());
    assert_eq!(m.len(), 0);
    assert_eq!(m.allocate_cid(), 103);
}

#[test]
fn machine_messages() {
    assert_eq!(vm_created_message("vm1", 100), "VM vm1 created with CID 100");
    assert_eq!(vm_destroyed_message("vm1"), "VM vm1 destroyed");
    assert_eq!(vsock_port_socket_path("/tmp/d", 1235), "/tmp/d/vsock.sock_1235");
    assert!(handshake_accepted("OK 1073741824\n"));
    assert!(!handshake_accepted("ERR"));
    assert_eq!(command_id(Some(123)), "cmd_123");
    assert_eq!(command_id(None), "cmd_0");
    assert_eq!(register_ack_json("vm1"), "{\"status\":\"success\",\"type\":\"register_ack\",\"vm_id\":\"vm1\"}");
}

#[test]
fn command_time_limits() {
    assert_eq!(command_timeout(None), 300);
    assert_eq!(command_timeout(Some(5)), 5);
    assert_eq!(default_command_timeout("dmesg", None), 300);
    assert_eq!(default_command_timeout("journalctl -b", None), 300);
    assert_eq!(default_command_timeout("find / -name x", None), 300);
    assert_eq!(default_command_timeout("ls", None), 300);
    assert_eq!(default_command_timeout("dmesg", Some(7)), 7);
}

#[test]
fn command_request_and_results() {
    let cmd = VmCommand {
        id: "c1".to_string(),
        command: "ls".to_string(),
        args: vec!["-l".to_string(), "/".to_string()],
        working_dir: None,
        timeout_seconds: None,
        mode: VmCommandMode::Foreground,
    };
    assert_eq!(command_request_json(&cmd), "{\"command\":\"ls -l /\"}");
    let r = command_result_from_exchange(
        "c1",
        CommandExchange::Response { bytes: b"{\"exit_code\":0,\"stdout\":\"a\\n\",\"stderr\":\"\"}".to_vec() },
    );
    assert_eq!((r.exit_code, r.stdout.as_str(), r.stderr.as_str()), (0, "a\n", ""));
    let bad = command_result_from_exchange("c2", CommandExchange::ConnectFailed { reason: "refused".to_string() });
    assert_eq!(bad.exit_code, -1);
    assert!(bad.error.is_some());
    let garbled = command_result_from_exchange("c3", CommandExchange::Response { bytes: vec![0xff] });
    assert_eq!(garbled.exit_code, -1);
    let ok = VmCommandResult { id: "c".to_string(), exit_code: 0, stdout: "out".to_string(), stderr: String::new(), error: None };
    assert_eq!(interpret_command_result(&ok), Ok("out".to_string()));
    assert!(command_outcome(CommandWait::TimedOut).is_err());
    let h = health_check_command();
    assert_eq!(h.command, "echo");
}

#[test]
fn retries_double_their_wait() {
    match retry_decision("sending on a closed channel", 0, 3) {
        RetryDecision::Retry { delay_ms } => assert_eq!(delay_ms, 1000),
        _ => panic!("expected a retry"),
    }
    match retry_decision("VM disconnected", 2, 3) {
        RetryDecision::Retry { delay_ms } => assert_eq!(delay_ms, 4000),
        _ => panic!("expected a retry"),
    }
    assert!(matches!(retry_decision("VM disconnected", 3, 3), RetryDecision::GiveUp));
    assert!(matches!(retry_decision("other failure", 0, 3), RetryDecision::GiveUp));
}

#[test]
fn vm_messages_are_read() {
    let doc = parse_json_document("{\"type\":\"register\",\"vm_id\":\"vm9\",\"cid\":105}").unwrap();
    match read_vm_message(&doc) {
        VmMessage::Register { vm_id, cid } => assert_eq!((vm_id.as_str(), cid), ("vm9", 105)),
        _ => panic!("expected a registration"),
    }
    let other = parse_json_document("[1,2]").unwrap();
    assert!(matches!(other, JsonDocument::Other));
    assert!(matches!(read_vm_message(&other), VmMessage::Unknown));
    let doc2 = parse_json_document("{\"s\":\"x\",\"n\":-3}").unwrap();
    assert!(matches!(doc2.get("n"), Some(JsonScalar::Number { as_i64: Some(-3), as_u64: None })));
    assert_eq!(doc2.get_str("s"), Some("x".to_string()));
}

#[test]
fn host_function_answers() {
    assert_eq!(agent_short_id("/opt/guests/vm_builder"), "vm_builder");
    assert_eq!(agent_short_id("plain"), "plain");
    assert_eq!(agent_short_id("dir/"), "");
    assert_eq!(acknowledgement(HostMethod::CreateVM), "VM creation initiated");
    assert_eq!(acknowledgement(HostMethod::FetchData), "Http Request sent");
    assert_eq!(work_result(HostMethod::DestroyVM, Err("VM x not found".to_string())), "VM destruction failed: VM x not found");
    assert_eq!(work_result(HostMethod::CreateVM, Ok("made".to_string())), "made");
    assert_eq!(string_array_json(&vec!["a".to_string(), "b\"c".to_string()]), "[\"a\",\"b\\\"c\"]");
    assert_eq!(string_array_json(&Vec::new()), "[]");
}

#[test]
fn fetch_request_methods() {
    assert_eq!(request_method("get"), Ok(ProxyMethod::Get));
    assert_eq!(request_method("Patch"), Ok(ProxyMethod::Patch));
    assert_eq!(request_method("FETCH"), Err("Invalid HTTP method".to_string()));
}

#[test]
fn fetch_request_headers() {
    let h = request_headers(&vec![("Accept".to_string(), "text/html".to_string())]).unwrap();
    assert_eq!(h.get("accept"), Some(&"text/html".to_string()));
    assert_eq!(h.get("user-agent"), Some(&"curl/7.64.1".to_string()));
    let h2 = request_headers(&vec![("User-Agent".to_string(), "me".to_string())]).unwrap();
    assert_eq!(h2.get("user-agent"), Some(&"me".to_string()));
    assert_eq!(h2.len(), 1);
    assert!(request_headers(&vec![("bad name".to_string(), "v".to_string())]).is_err());
    assert!(request_headers(&vec![("x".to_string(), "line\nbreak".to_string())]).is_err());
    assert!(request_headers(&vec![("x".to_string(), "tab\there caf\u{e9}".to_string())]).is_ok());
    match request_headers(&vec![("x".to_string(), "del\u{7f}".to_string())]) {
        Err(e) => assert_eq!(e, "failed to parse header value"),
        Ok(_) => panic!("expected a refused value"),
    }
}

#[test]
fn first_command_processor_results() {
    let r = agent_exchange_result("c", AgentExchange::HandshakeRefused { answer: "  NOPE\n".to_string() });
    assert_eq!((r.exit_code, r.error), (-1, Some("Handshake failed: NOPE".to_string())));
    let r = agent_exchange_result("c", AgentExchange::Response { bytes: Vec::new() });
    assert_eq!(r.error, Some("No response received".to_string()));
    let r = agent_exchange_result("c", AgentExchange::Response { bytes: vec![0xfe] });
    assert_eq!(r.error, Some("Invalid UTF-8 response".to_string()));
    let r = agent_exchange_result("c", AgentExchange::Response { bytes: b"{oops".to_vec() });
    assert_eq!(r.error, Some("Invalid JSON response".to_string()));
    let r = agent_exchange_result("c", AgentExchange::Response { bytes: b"{\"exit_code\":2,\"stderr\":\"bad\"}".to_vec() });
    assert_eq!((r.exit_code, r.stderr.as_str(), r.error), (2, "bad", None));
    let r = agent_exchange_result("c", AgentExchange::WriteFailed { reason: "EPIPE".to_string() });
    assert_eq!(r.error, Some("Write failed: EPIPE".to_string()));
    assert!(response_complete(&b"{\"a\":1}".to_vec()));
    assert!(!response_complete(&b"{\"a\":".to_vec()));
}

#[test]
fn agent_binaries_are_told_apart() {
    assert!(is_agent_binary("./guest/target/x86_64-unknown-none/debug/top_hn"));
    assert!(!is_agent_binary("./guest/target/x86_64-unknown-none/debug/top_hn.d"));
    assert!(!is_agent_binary("./guest/target/x86_64-unknown-none/debug/.cargo-lock"));
}

#[test]
fn schema_property_names_in_order() {
    assert!(text_before("action", "command"));
    assert!(text_before("vm", "vm_id"));
    assert!(!text_before("vm_id", "vm"));
    assert!(!text_before("same", "same"));
    assert!(text_before("Z", "a"));
    let prop = |n: &str| SchemaProperty { name: n.to_string(), fields: Vec::new() };
    assert!(properties_in_order(&None));
    assert!(properties_in_order(&Some(vec![])));
    assert!(properties_in_order(&Some(vec![prop("a"), prop("b"), prop("c")])));
    assert!(!properties_in_order(&Some(vec![prop("a"), prop("c"), prop("b")])));
    assert!(!properties_in_order(&Some(vec![prop("a"), prop("a")])));
}

#[test]
fn registering_an_agent_keeps_the_others_metadata() {
    let (tx, _rx) = channel();
    let mut manager = McpServerManager::new();
    manager.register_agent("a".to_string(), tool("A"), tx.clone());
    manager.agent_metadata.insert("a".to_string(), ("Agent A".to_string(), "does a".to_string()));
    manager.register_agent("b".to_string(), tool("B"), tx);
    assert_eq!(manager.agent_metadata.get("a"), Some(&("Agent A".to_string(), "does a".to_string())));
    assert_eq!(manager.agent_metadata.get("b"), Some(&(String::new(), String::new())));
}
