use hyperlight_agents::common::{VmCommand, VmCommandMode};
use hyperlight_agents::http_proxy::{
    agent_proxy_reply, agent_tunnel_reply, AgentProxyReply, connect_line, connect_target, forwarded_headers, opens_tunnel, proxy_error_body, proxy_method,
    proxy_response, proxy_target_url, request_body, tunnel_bad_gateway, tunnel_bad_request,
    tunnel_established, tunnel_failed_body, FetchOutcome, HttpProxyRequest, ProxyMethod, VsockHttpClient,
};
use hyperlight_agents::logging::{
    combined_enabled, combined_log_line, machine_log_line, HostLogger, LogLevel, LogLevelFilter, LogStream,
    LOG_CHANNEL_CAPACITY,
};
use hyperlight_agents::string_map::StringMap;
use hyperlight_agents::vm_agent::{
    command_response, full_command_line, plan_request, spawn_reply, stop_response, ChildProcess,
    CommandOutcome, ConnectionAction, ConnectionState, ListSpawnedProcessesRequest, ProcessTable,
    ReadEvent, RequestPlan, SpawnedProcessInfo, StopOutcome, StopSpawnedProcessRequest, VsockRequest,
    VsockResponse, FOREGROUND_TIMEOUT_SECS,
};

struct FakeChild {
    outcome: Option<StopOutcome>,
}

impl ChildProcess for FakeChild {
    fn kill_and_collect(&mut self) -> StopOutcome {
        self.outcome.take().unwrap_or(StopOutcome::KillFailed("already stopped".to_string()))
    }
}

fn command(mode: VmCommandMode, args: &[&str]) -> VmCommand {
    VmCommand {
        id: "cmd_1".to_string(),
        command: "caddy".to_string(),
        args: args.iter().map(|a| a.to_string()).collect(),
        working_dir: Some("/".to_string()),
        timeout_seconds: Some(30),
        mode,
    }
}

#[test]
fn command_responses_by_outcome() {
    let r = command_response(CommandOutcome::Exited { code: Some(0), stdout: "ok\n".to_string(), stderr: String::new() }, 15);
    assert_eq!((r.exit_code, r.stdout.as_str(), r.stderr.as_str()), (0, "ok\n", ""));
    let r = command_response(CommandOutcome::Exited { code: None, stdout: String::new(), stderr: "killed".to_string() }, 15);
    assert_eq!(r.exit_code, -1);
    let r = command_response(CommandOutcome::TimedOut { stdout: "part".to_string(), stderr: "err".to_string() }, 15);
    assert_eq!((r.exit_code, r.stdout.as_str(), r.stderr.as_str()), (-2, "part", "Command timed out after 15 seconds\nerr"));
    let r = command_response(CommandOutcome::SpawnFailed("No such file".to_string()), 15);
    assert_eq!((r.exit_code, r.stderr.as_str()), (-1, "Failed to execute command: No such file"));
    let r = command_response(CommandOutcome::WaitFailed("EINTR".to_string()), 15);
    assert_eq!((r.exit_code, r.stderr.as_str()), (-1, "Error waiting for child: EINTR"));
}

#[test]
fn background_command_lines() {
    assert_eq!(full_command_line(&command(VmCommandMode::Spawn, &[])), "caddy");
    assert_eq!(
        full_command_line(&command(VmCommandMode::Spawn, &["file-server", "--listen", ":9999"])),
        "caddy file-server --listen :9999"
    );
}

#[test]
fn process_ids_count_up_from_one() {
    let mut table: ProcessTable<FakeChild> = ProcessTable::new();
    let a = table.register_process("sleep 10".to_string(), FakeChild { outcome: None });
    let b = table.register_process("caddy".to_string(), FakeChild { outcome: None });
    assert_eq!((a.id, b.id), (1, 2));
    assert_eq!(a.command, "sleep 10");
    assert_eq!(table.next_process_id(), 3);
    let mut listed = table.list_spawned_processes();
    listed.sort_by_key(|p| p.id);
    assert_eq!(
        listed,
        vec![
            SpawnedProcessInfo { id: 1, command: "sleep 10".to_string() },
            SpawnedProcessInfo { id: 2, command: "caddy".to_string() },
        ]
    );
}

#[test]
fn stopping_a_process_removes_it() {
    let mut table: ProcessTable<FakeChild> = ProcessTable::new();
    let info = table.register_process(
        "caddy".to_string(),
        FakeChild {
            outcome: Some(StopOutcome::Collected { code: None, stdout: b"served".to_vec(), stderr: vec![0x61, 0xff] }),
        },
    );
    let stopped = table.stop_spawned_process(info.id).unwrap();
    assert_eq!(stopped.id, info.id);
    assert_eq!(stopped.exit_code, -1);
    assert_eq!(stopped.stdout, "served");
    assert_eq!(stopped.stderr, "a\u{FFFD}");
    assert!(table.stop_spawned_process(info.id).is_none());
    assert!(table.list_spawned_processes().is_empty());
}

#[test]
fn stop_records_by_outcome() {
    let r = stop_response(4, StopOutcome::KillFailed("EPERM".to_string()));
    assert_eq!((r.id, r.exit_code, r.stderr.as_str()), (4, -1, "Failed to kill process: EPERM"));
    let r = stop_response(4, StopOutcome::CollectFailed("EIO".to_string()));
    assert_eq!(r.stderr, "Failed to collect output: EIO");
    let r = stop_response(4, StopOutcome::Collected { code: Some(3), stdout: Vec::new(), stderr: Vec::new() });
    assert_eq!(r.exit_code, 3);
}

#[test]
fn requests_are_planned() {
    match plan_request(VsockRequest::Command(command(VmCommandMode::Foreground, &[]))) {
        RequestPlan::RunForeground { command, timeout_secs } => {
            assert_eq!(command, "caddy");
            assert_eq!(timeout_secs, 15);
            assert_eq!(FOREGROUND_TIMEOUT_SECS, 15);
        }
        _ => panic!("expected a foreground run"),
    }
    assert!(matches!(plan_request(VsockRequest::Command(command(VmCommandMode::Spawn, &[]))), RequestPlan::Spawn(_)));
    let req = HttpProxyRequest { method: "GET".to_string(), url: "http://x/".to_string(), headers: StringMap::new(), body: None };
    match plan_request(VsockRequest::HttpProxy(req)) {
        RequestPlan::Reply(VsockResponse::HttpProxy(resp)) => {
            assert_eq!(resp.status_code, 500);
            assert_eq!(resp.body, b"HTTP proxy not yet implemented in VM agent".to_vec());
            assert_eq!(resp.error, Some("HTTP proxy functionality requires host-side implementation".to_string()));
            assert_eq!(resp.headers.len(), 0);
        }
        _ => panic!("expected a refusal"),
    }
}

#[test]
fn spawn_replies() {
    match spawn_reply(None) {
        VsockResponse::StoppedProcess(s) => {
            assert_eq!((s.id, s.exit_code, s.stderr.as_str()), (0, -1, "Failed to spawn process"));
        }
        _ => panic!("expected a stopped process"),
    }
    let info = SpawnedProcessInfo { id: 3, command: "x".to_string() };
    assert!(matches!(spawn_reply(Some(info.clone())), VsockResponse::SpawnedProcess(i) if i == info));
    let _ = ListSpawnedProcessesRequest;
    assert_eq!(StopSpawnedProcessRequest { id: 3 }.id, 3);
}

#[test]
fn connection_reads_until_a_request_parses() {
    let mut c = ConnectionState::new();
    assert_eq!(c.on_read(ReadEvent::Data(b"{\"type\":".to_vec())), ConnectionAction::TryParse);
    assert_eq!(c.on_read(ReadEvent::Data(b"\"Command\"}".to_vec())), ConnectionAction::TryParse);
    assert_eq!(c.received, "{\"type\":\"Command\"}");
    assert_eq!(c.on_read(ReadEvent::NothingYet { expired: false }), ConnectionAction::WaitAndRead);
    assert_eq!(c.final_answer(false).unwrap().stderr, "Invalid JSON request: {\"type\":\"Command\"}");
    assert_eq!(c.final_answer(true), None);
    c.mark_answered();
    assert_eq!(c.final_answer(false), None);
    assert_eq!(c.on_read(ReadEvent::Closed), ConnectionAction::Close);
}

#[test]
fn connection_errors_are_answered() {
    let mut c = ConnectionState::new();
    match c.on_read(ReadEvent::NothingYet { expired: true }) {
        ConnectionAction::AnswerAndClose(r) => assert_eq!((r.exit_code, r.stderr.as_str()), (-1, "Read timeout waiting for complete command")),
        _ => panic!("expected an answer"),
    }
    match c.on_read(ReadEvent::Failed("reset".to_string())) {
        ConnectionAction::AnswerAndClose(r) => assert_eq!(r.stderr, "Read error: reset"),
        _ => panic!("expected an answer"),
    }
    assert_eq!(c.final_answer(false), None);
    let mut blank = ConnectionState::new();
    blank.on_read(ReadEvent::Data(b" \n".to_vec()));
    assert_eq!(blank.final_answer(false), None);
}

#[test]
fn proxy_urls_and_headers() {
    assert_eq!(proxy_target_url(Some("http://a.b/c".to_string()), None, None), "http://a.b/c");
    assert_eq!(proxy_target_url(None, Some("example.com".to_string()), Some("/p?q=1".to_string())), "http://example.com/p?q=1");
    assert_eq!(proxy_target_url(None, None, None), "http://localhost/");
    let h = forwarded_headers(vec![
        ("accept".to_string(), Some("*/*".to_string())),
        ("Proxy-Authorization".to_string(), Some("x".to_string())),
        ("x-bin".to_string(), None),
        ("accept".to_string(), Some("text/html".to_string())),
    ]);
    assert_eq!(h.len(), 1);
    assert_eq!(h.get("accept"), Some(&"text/html".to_string()));
    assert_eq!(request_body(Vec::new()), None);
    assert_eq!(request_body(vec![1]), Some(vec![1]));
}

#[test]
fn tunnels() {
    assert_eq!(connect_line("www.google.com:443"), "CONNECT www.google.com:443 HTTP/1.1\r\n\r\n");
    assert!(opens_tunnel(b"CONNECT x:1 HTTP/1.1"));
    assert!(!opens_tunnel(b"{\"type\""));
    assert!(!opens_tunnel(b"CONN"));
    assert_eq!(connect_target("CONNECT www.google.com:443 HTTP/1.1\r\n"), Some("www.google.com:443".to_string()));
    assert_eq!(connect_target("  CONNECT\t\thost:1  "), Some("host:1".to_string()));
    assert_eq!(connect_target("CONNECT\r\n"), None);
    assert_eq!(tunnel_bad_request(), "HTTP/1.1 400 Bad Request\r\n\r\n");
    assert_eq!(tunnel_established(), "HTTP/1.1 200 Connection Established\r\n\r\n");
    assert_eq!(tunnel_bad_gateway(), "HTTP/1.1 502 Bad Gateway\r\n\r\n");
    assert_eq!(tunnel_failed_body(), "Failed to connect to host proxy");
    assert_eq!(proxy_error_body("refused"), "Proxy error: refused");
    let _client = VsockHttpClient::new();
}

#[test]
fn proxied_requests_and_responses() {
    assert_eq!(proxy_method("post"), ProxyMethod::Post);
    assert_eq!(proxy_method("DELETE"), ProxyMethod::Delete);
    assert_eq!(proxy_method("BREW"), ProxyMethod::Get);
    let r = proxy_response(FetchOutcome::RequestFailed("dns error".to_string()));
    assert_eq!((r.status_code, r.error), (500, Some("HTTP request failed: dns error".to_string())));
    let r = proxy_response(FetchOutcome::BodyFailed("eof".to_string()));
    assert_eq!(r.error, Some("Failed to read response body: eof".to_string()));
    let mut headers = StringMap::new();
    headers.insert("content-type".to_string(), "text/plain".to_string());
    let r = proxy_response(FetchOutcome::Fetched { status_code: 204, headers, body: Vec::new() });
    assert_eq!((r.status_code, r.error.is_none(), r.headers.len()), (204, true, 1));
}

#[test]
fn host_log_lines() {
    let logger = HostLogger;
    assert!(logger.enabled(LogLevel::Debug));
    assert!(!logger.enabled(LogLevel::Trace));
    assert_eq!(logger.format_record(LogLevel::Trace, None, "x", "m"), None);
    let out = logger.format_record(LogLevel::Info, Some("hyperlight_agents_host::mcp"), "hyperlight_agents_host::mcp", "ready").unwrap();
    assert_eq!((out.to_stderr, out.text.as_str()), (false, "[host] ready\n"));
    let out = logger.format_record(LogLevel::Error, Some("hyper::proto"), "hyper::proto::h1", "broken").unwrap();
    assert_eq!((out.to_stderr, out.text.as_str()), (true, "[hyper] broken\n"));
    let out = logger.format_record(LogLevel::Warn, None, "reqwest", "[vm1] line").unwrap();
    assert_eq!(out.text, "[vm1] line\n");
}

#[test]
fn agent_log_lines() {
    assert!(combined_enabled(LogLevel::Info, LogLevelFilter::Info));
    assert!(!combined_enabled(LogLevel::Debug, LogLevelFilter::Info));
    assert!(!combined_enabled(LogLevel::Error, LogLevelFilter::Off));
    assert_eq!(combined_log_line(LogLevel::Warn, "low disk"), "WARN - low disk\n");
    assert_eq!(LOG_CHANNEL_CAPACITY, 1000);
    assert_eq!(machine_log_line("vm1", "booted"), "[vm1] booted");
}

#[test]
fn log_stream_splits_lines_and_keeps_the_rest() {
    let mut s = LogStream::new();
    assert_eq!(s.feed(b"INFO - one\nINFO - tw"), vec!["INFO - one".to_string()]);
    assert_eq!(s.incomplete, "INFO - tw");
    assert_eq!(s.feed(b"o\r\n\n   \nlast"), vec!["INFO - two".to_string()]);
    assert_eq!(s.finish(), Some("last".to_string()));
    let mut t = LogStream::new();
    assert!(t.feed(&[0xc3]).is_empty());
    assert_eq!(t.pending, vec![0xc3]);
    assert_eq!(t.feed(&[0xa9, b'\n']), vec!["\u{e9}".to_string()]);
    assert_eq!(t.finish(), None);
}

#[test]
fn log_stream_cut_does_not_matter() {
    let text = "one\ntwo\r\n\nthree\rfour";
    let mut whole = LogStream::new();
    let all = whole.feed(text.as_bytes());
    for cut in 0..text.len() {
        let mut parts = LogStream::new();
        let mut lines = parts.feed(&text.as_bytes()[..cut]);
        lines.extend(parts.feed(&text.as_bytes()[cut..]));
        assert_eq!(lines, all);
        assert_eq!(parts.incomplete, whole.incomplete);
    }
    assert_eq!(all, vec!["one".to_string(), "two".to_string(), "three".to_string()]);
    assert_eq!(whole.finish(), Some("four".to_string()));
}

#[test]
fn agent_proxy_replies() {
    match agent_proxy_reply(&Ok(404)) {
        AgentProxyReply::Relay { status } => assert_eq!(status, 404),
        _ => panic!("expected a relay"),
    }
    match agent_proxy_reply(&Err("no route".to_string())) {
        AgentProxyReply::Plain { status, body } => assert_eq!((status, body.as_str()), (502, "Proxy error: no route")),
        _ => panic!("expected a plain reply"),
    }
    match agent_tunnel_reply(true) {
        AgentProxyReply::Plain { status, body } => assert_eq!((status, body.as_str()), (200, "")),
        _ => panic!("expected a plain reply"),
    }
    match agent_tunnel_reply(false) {
        AgentProxyReply::Plain { status, body } => {
            assert_eq!((status, body.as_str()), (502, "Failed to connect to host proxy"))
        }
        _ => panic!("expected a plain reply"),
    }
}
