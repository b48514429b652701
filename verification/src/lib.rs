use vstd::prelude::*;

pub mod text;
pub mod string_map;
pub mod framing;
pub mod common;
pub mod json;
pub mod mcp_tool;
pub mod requests;
pub mod mcp_server;
pub mod agent_loop;
pub mod vm_manager;
pub mod http_proxy;
pub mod vm_agent;
pub mod mcp_http;
pub mod logging;
pub mod guest;
pub mod setup;
pub mod host_functions;
pub mod firecracker;

verus! {

} // verus!
