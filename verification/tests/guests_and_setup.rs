use hyperlight_agents::firecracker::{
    api_socket_path, config_path, firecracker_config, kernel_missing, listed_pids, memfd_name, parse_u32,
    proc_fd_path, rootfs_link_path, signal_argument,
};
use hyperlight_agents::guest::{
    debug_quote, default_guest_dispatch_function, find_title_links, format_stories, host_call_reply,
    hn_links_report, hn_links_request, process_result, register_top_hn_functions,
    register_vm_builder_functions,
    process_vm_list_result, vm_builder_run, register_guest_function, top_hn_process_http_response,
    top_hn_run, top_hn_tool, vm_action_call, vm_action_not_string, vm_builder_tool, vm_operation_reply,
    ErrorCode, FunctionCall, GuestFunctionRegistry, GuestStep, ParameterType, ParameterValue, ReturnType,
    VmActionParams,
};
use hyperlight_agents::setup::{
    firecracker_archive_binary, missing_dependencies, targets_to_install, Paths, FIRECRACKER_URL, KERNEL_URL,
};

fn call_with(params: Option<Vec<ParameterValue>>) -> FunctionCall {
    FunctionCall { function_name: "Run".to_string(), parameters: params, expected_return_type: ReturnType::String }
}

fn call_host(step: GuestStep) -> (String, Vec<String>) {
    match step {
        GuestStep::CallHost { method, args } => (method, args),
        _ => panic!("expected a host call"),
    }
}

#[test]
fn registering_guest_functions() {
    let mut reg = GuestFunctionRegistry::new();
    register_guest_function(&mut reg, "Run", &[ParameterType::String], ReturnType::String, 0x1000);
    register_guest_function(&mut reg, "GetMCPTool", &[], ReturnType::String, 0x2000);
    register_guest_function(&mut reg, "Run", &[ParameterType::String, ParameterType::Int], ReturnType::Int, 0x3000);
    let run = reg.get("Run").unwrap();
    assert_eq!(run.parameter_types, vec![ParameterType::String, ParameterType::Int]);
    assert_eq!((run.return_type, run.function_pointer), (ReturnType::Int, 0x3000));
    assert_eq!(reg.get("GetMCPTool").unwrap().function_pointer, 0x2000);
    assert!(reg.get("Missing").is_none());
}

#[test]
fn unknown_guest_functions_are_not_found() {
    let err = default_guest_dispatch_function(call_with(None)).unwrap_err();
    assert_eq!(err.code, ErrorCode::GuestFunctionNotFound);
    assert_eq!(err.message, "Run");
}

#[test]
fn news_agent_fetches_then_reports() {
    match top_hn_run() {
        GuestStep::SendToHost { method, message } => {
            assert_eq!(method, "FetchData");
            assert_eq!(message.callback, Some("ProcessHttpResponse".to_string()));
            assert_eq!(message.message, Some("https://news.ycombinator.com/".to_string()));
            assert!(message.is_success && message.guest_message.is_none());
        }
        _ => panic!("expected a message to the host"),
    }
    let page = "<tr><span class=\"titleline\"><a href=\"https://a.example/\">First</a></span>\
                <span class=\"titleline\"><a href=\"https://b.example/x\">Second story</a></span></tr>";
    let links = find_title_links(page);
    assert_eq!(
        links,
        vec![
            ("https://a.example/".to_string(), "First".to_string()),
            ("https://b.example/x".to_string(), "Second story".to_string()),
        ]
    );
    assert_eq!(
        format_stories(&links),
        "Top Hacker News stories:\n1. First - https://a.example/\n2. Second story - https://b.example/x\n"
    );
    match top_hn_process_http_response(&call_with(Some(vec![ParameterValue::String(page.to_string())]))).unwrap() {
        GuestStep::SendToHost { method, message } => {
            assert_eq!(method, "FinalResult");
            assert!(message.message.unwrap().starts_with("Top Hacker News stories:\n1. First"));
        }
        _ => panic!("expected a final result"),
    }
    let err = top_hn_process_http_response(&call_with(Some(vec![ParameterValue::Int(1)]))).unwrap_err();
    assert_eq!(err.code, ErrorCode::GuestFunctionParameterTypeMismatch);
    assert_eq!(err.message, "Invalid parameters passed to process_http_response");
    assert_eq!(format_stories(&Vec::new()), "Top Hacker News stories:\n");
}

#[test]
fn agent_tools() {
    let t = top_hn_tool();
    assert_eq!(t.name, "Top HN Links");
    assert!(t.input_schema.required.is_empty());
    let v = vm_builder_tool();
    assert_eq!(v.name, "VmBuilder");
    assert_eq!(v.input_schema.required, vec!["action".to_string(), "vm_id".to_string()]);
    let props = v.input_schema.properties.unwrap();
    assert_eq!(props.len(), 3);
    let names: Vec<&str> = props.iter().map(|p| p.name.as_str()).collect();
    assert_eq!(names, vec!["action", "command", "vm_id"]);
    assert_eq!(
        props[2].fields,
        vec![
            ("type".to_string(), "\"string\"".to_string()),
            ("description".to_string(), "\"ID of the VM to operate on\"".to_string()),
        ]
    );
    assert!(props[0].fields[1].1.starts_with("\"Action to perform, must be one of: create_vm"));
}

#[test]
fn vm_builder_run_on_its_parameters() {
    let e = vm_builder_run(None).unwrap_err();
    assert_eq!(e.message, "Failed to parse VM action parameters");
    let p = VmActionParams { action: "create_vm".to_string(), vm_id: Some("integration_test_vm".to_string()), command: None };
    assert_eq!(
        call_host(vm_builder_run(Some(p)).unwrap()),
        ("CreateVM".to_string(), vec!["integration_test_vm".to_string(), "ProcessVmCreationResult".to_string()])
    );
    let p = VmActionParams { action: "reboot".to_string(), vm_id: None, command: None };
    assert!(vm_builder_run(Some(p)).unwrap_err().message.starts_with("VM action invalid"));
}

#[test]
fn vm_builder_actions() {
    let params = |action: &str, vm: Option<&str>, cmd: Option<&str>| VmActionParams {
        action: action.to_string(),
        vm_id: vm.map(|s| s.to_string()),
        command: cmd.map(|s| s.to_string()),
    };
    assert_eq!(
        call_host(vm_action_call(params("create_vm", None, None)).unwrap()),
        ("CreateVM".to_string(), vec!["default_vm".to_string(), "ProcessVmCreationResult".to_string()])
    );
    assert_eq!(
        call_host(vm_action_call(params("execute_vm_command", Some("v"), Some("free -m"))).unwrap()),
        ("ExecuteVMCommand".to_string(), vec!["v".to_string(), "free -m".to_string(), "ProcessVmCommandResult".to_string()])
    );
    assert_eq!(
        call_host(vm_action_call(params("spawn_command", Some("v"), None)).unwrap()),
        ("SpawnCommand".to_string(), vec!["v".to_string(), String::new(), "ProcessVmCommandResult".to_string()])
    );
    assert_eq!(call_host(vm_action_call(params("list_spawned_processes", Some("v"), None)).unwrap()).0, "ListSpawnedProcesses");
    assert_eq!(call_host(vm_action_call(params("stop_spawned_process", Some("v"), Some("3"))).unwrap()).1[1], "3");
    assert_eq!(call_host(vm_action_call(params("destroy_vm", Some("v"), None)).unwrap()).1[1], "ProcessVmDestructionResult");
    assert_eq!(
        call_host(vm_action_call(params("list_vms", Some("v"), None)).unwrap()),
        ("ListVMs".to_string(), vec![String::new(), "ProcessVmListResult".to_string()])
    );
    let err = vm_action_call(params("reboot", None, None)).unwrap_err();
    assert_eq!(
        err.message,
        "VM action invalid, must be one of: create_vm, execute_vm_command, spawn_command, list_spawned_processes, stop_spawned_process, destroy_vm, list_vms. Got \"reboot\""
    );
    assert_eq!(vm_action_not_string().message, "VM action invalid, expected string parameter");
}

#[test]
fn vm_builder_replies_and_results() {
    assert_eq!(vm_operation_reply("create_vm", Ok("VM creation initiated".to_string())), "VM operation OK: \"create_vm\" - VM creation initiated");
    assert_eq!(vm_operation_reply("x", Err("HostFunctionError".to_string())), "VM operation failed HostFunctionError");
    assert_eq!(debug_quote("say \"hi\"\n"), "\"say \\\"hi\\\"\\n\"");
    match process_result(&call_with(Some(vec![ParameterValue::String("VM v created".to_string())])), "VM Creation Result") {
        GuestStep::SendToHost { method, message } => {
            assert_eq!(method, "FinalResult");
            assert_eq!(message.message, Some("VM v created".to_string()));
            assert_eq!(message.guest_message, Some("VM Creation Result".to_string()));
        }
        _ => panic!("expected a final result"),
    }
    match process_result(&call_with(None), "VM Command Result") {
        GuestStep::Reply(t) => assert_eq!(t, "VM Command Result processed"),
        _ => panic!("expected a reply"),
    }
    match process_vm_list_result(Some("[String(\"[]\")]".to_string())) {
        GuestStep::SendToHost { message, .. } => assert_eq!(message.message, Some("Available VMs: [String(\"[]\")]".to_string())),
        _ => panic!("expected a final result"),
    }
    match process_vm_list_result(None) {
        GuestStep::Reply(t) => assert_eq!(t, "VM list result processed"),
        _ => panic!("expected a reply"),
    }
}

#[test]
fn project_paths() {
    let p = Paths::new("/work/hyperlight-agents/xtask").unwrap();
    assert_eq!(p.project_root, "/work/hyperlight-agents");
    assert_eq!(p.guest_manifest_path, "/work/hyperlight-agents/guest/Cargo.toml");
    assert_eq!(p.vm_agent_manifest_path, "/work/hyperlight-agents/vm-agent/Cargo.toml");
    assert_eq!(p.vm_images_dir, "/work/hyperlight-agents/firecracker");
    assert_eq!(p.firecracker_dir, p.vm_images_dir);
    assert_eq!(p.kernel_path, "/work/hyperlight-agents/firecracker/vmlinux-5.10.223");
    assert_eq!(p.rootfs_path, "/work/hyperlight-agents/firecracker/rootfs.ext4");
    assert_eq!(p.firecracker_binary, "/work/hyperlight-agents/firecracker/firecracker");
    assert!(Paths::new("/").is_none());
}

#[test]
fn setup_checks() {
    assert_eq!(missing_dependencies(true, true, true), Vec::<String>::new());
    assert_eq!(missing_dependencies(false, true, false), vec!["dd (coreutils)".to_string(), "sudo".to_string()]);
    assert_eq!(missing_dependencies(true, false, true), vec!["mkfs.ext4 (e2fsprogs)".to_string()]);
    assert_eq!(targets_to_install("x86_64-unknown-linux-musl\nx86_64-unknown-none\n"), Vec::<String>::new());
    assert_eq!(targets_to_install("x86_64-unknown-linux-gnu\n"), vec!["x86_64-unknown-linux-musl".to_string(), "x86_64-unknown-none".to_string()]);
    assert_eq!(firecracker_archive_binary("/f/temp_extract"), "/f/temp_extract/release-v1.12.1-x86_64/firecracker-v1.12.1-x86_64");
    assert!(KERNEL_URL.ends_with("vmlinux-5.10.223"));
    assert!(FIRECRACKER_URL.ends_with("firecracker-v1.12.1-x86_64.tgz"));
}

#[test]
fn firecracker_configuration() {
    let text = firecracker_config("firecracker/vmlinux", "/tmp/hyperlight_rootfs_vm1.ext4", 101, "/tmp/d");
    let compact = "{\"boot-source\":{\"kernel_image_path\":\"firecracker/vmlinux\",\"boot_args\":\"console=ttyS0 reboot=k panic=1 pci=off init=/sbin/init root=/dev/vda rw\"},\"drives\":[{\"drive_id\":\"rootfs\",\"path_on_host\":\"/tmp/hyperlight_rootfs_vm1.ext4\",\"is_root_device\":true,\"is_read_only\":false}],\"machine-config\":{\"vcpu_count\":1,\"mem_size_mib\":128,\"smt\":false},\"vsock\":{\"guest_cid\":101,\"uds_path\":\"/tmp/d/vsock.sock\"}}";
    let value: serde_json::Value = serde_json::from_str(compact).unwrap();
    assert_eq!(text, serde_json::to_string_pretty(&value).unwrap());
    assert_eq!(config_path("/tmp/d"), "/tmp/d/firecracker-config.json");
    assert_eq!(api_socket_path("/tmp/d"), "/tmp/d/firecracker.sock");
    assert_eq!(memfd_name("vm1"), "hyperlight_rootfs_vm1");
    assert_eq!(rootfs_link_path("vm1"), "/tmp/hyperlight_rootfs_vm1.ext4");
    assert_eq!(proc_fd_path(7), "/proc/self/fd/7");
    assert_eq!(kernel_missing("k"), "Kernel image not found at: k");
    assert_eq!(signal_argument("KILL"), "-KILL");
}

#[test]
fn pgrep_output_is_read() {
    assert_eq!(listed_pids("123\n  456 \r\nabc\n+7\n-1\n4294967296\n\n"), vec![123, 456, 7]);
    assert_eq!(listed_pids(""), Vec::<u32>::new());
    assert_eq!(listed_pids("4294967295"), vec![4294967295]);
    let digits: Vec<char> = "x+42y".chars().collect();
    assert_eq!(parse_u32(&digits, 1, 4), Some(42));
    assert_eq!(parse_u32(&digits, 1, 2), None);
    assert_eq!(parse_u32(&digits, 0, 4), None);
}

#[test]
fn news_guest_with_host_calls() {
    match hn_links_request() {
        GuestStep::CallHost { method, args } => {
            assert_eq!(method, "HttpGet");
            assert_eq!(args, vec!["https://news.ycombinator.com/".to_string(), "ProcessHttpResponse".to_string()]);
        }
        _ => panic!("expected a host call"),
    }
    let page = "<span class=\"titleline\"><a href=\"u\">t</a>";
    match hn_links_report(&call_with(Some(vec![ParameterValue::String(page.to_string())]))).unwrap() {
        GuestStep::CallHost { method, args } => {
            assert_eq!(method, "FinalAnswerHostMethod");
            assert_eq!(args[0], "Top Hacker News stories:\n1. t - u\n");
            assert_eq!(args[1], "ProcessHttpResponse");
        }
        _ => panic!("expected a host call"),
    }
    let err = hn_links_report(&call_with(Some(vec![ParameterValue::Bool(true)]))).unwrap_err();
    assert_eq!(err.message, "Invalid parameters passed to guest_function");
    assert_eq!(host_call_reply("HttpGet"), "Host function HttpGet called successfully");
}

#[test]
fn agents_register_their_functions() {
    let mut reg = GuestFunctionRegistry::new();
    register_vm_builder_functions(&mut reg, 1, 2, 3, 4, 5, 6);
    assert_eq!(reg.get("ProcessVmListResult").unwrap().function_pointer, 6);
    assert_eq!(reg.get("GetMCPTool").unwrap().parameter_types, Vec::<ParameterType>::new());
    let mut reg2 = GuestFunctionRegistry::new();
    register_top_hn_functions(&mut reg2, 10, 11, 12);
    assert_eq!(reg2.get("ProcessHttpResponse").unwrap().function_pointer, 10);
    assert_eq!(reg2.get("Run").unwrap().parameter_types, vec![ParameterType::String]);
}
