//! Types shared by the host, the guest agents and the agent inside each virtual machine.
use vstd::prelude::*;

verus! {

/// The version of the agent interface.
pub const API_VERSION: &'static str = "0.1.0";

/// A command that the host asks a virtual machine to run.
#[derive(Debug, Clone)]
pub struct VmCommand {
    pub id: String,
    pub command: String,
    pub args: Vec<String>,
    pub working_dir: Option<String>,
    pub timeout_seconds: Option<u64>,
    pub mode: VmCommandMode,
}

/// Whether the command is waited for, or left running in the background.
#[derive(Debug, Clone, Copy, PartialEq, Eq, Structural)]
pub enum VmCommandMode {
    Foreground,
    Spawn,
}

/// What a command run in a virtual machine produced.
#[derive(Debug, Clone)]
pub struct VmCommandResult {
    pub id: String,
    pub exit_code: i32,
    pub stdout: String,
    pub stderr: String,
    pub error: Option<String>,
}

/// A message that a guest agent sends to the host.
#[derive(Debug, Clone)]
pub struct AgentMessage {
    pub callback: Option<String>,
    pub message: Option<String>,
    pub guest_message: Option<String>,
    pub is_success: bool,
}

/// The functions that the host offers to guest agents.
#[derive(Debug, Clone, Copy, PartialEq, Eq, Structural)]
pub enum HostMethod {
    FinalResult,
    FetchData,
    CreateVM,
    ExecuteVMCommand,
    SpawnCommand,
    ListSpawnedProcesses,
    StopSpawnedProcess,
    DestroyVM,
    ListVMs,
}

impl HostMethod {
    /// The name under which the function is registered: the variant's name.
    pub open spec fn spec_name(self) -> Seq<char> {
        match self {
            HostMethod::FinalResult => "FinalResult"@,
            HostMethod::FetchData => "FetchData"@,
            HostMethod::CreateVM => "CreateVM"@,
            HostMethod::ExecuteVMCommand => "ExecuteVMCommand"@,
            HostMethod::SpawnCommand => "SpawnCommand"@,
            HostMethod::ListSpawnedProcesses => "ListSpawnedProcesses"@,
            HostMethod::StopSpawnedProcess => "StopSpawnedProcess"@,
            HostMethod::DestroyVM => "DestroyVM"@,
            HostMethod::ListVMs => "ListVMs"@,
        }
    }

    /// The name under which the function is registered.
    pub fn as_ref(&self) -> (s: &'static str)
        ensures
            s@ == self.spec_name(),
    {
        match self {
            HostMethod::FinalResult => "FinalResult",
            HostMethod::FetchData => "FetchData",
            HostMethod::CreateVM => "CreateVM",
            HostMethod::ExecuteVMCommand => "ExecuteVMCommand",
            HostMethod::SpawnCommand => "SpawnCommand",
            HostMethod::ListSpawnedProcesses => "ListSpawnedProcesses",
            HostMethod::StopSpawnedProcess => "StopSpawnedProcess",
            HostMethod::DestroyVM => "DestroyVM",
            HostMethod::ListVMs => "ListVMs",
        }
    }
}

/// The functions that every guest agent offers to the host.
#[derive(Debug, Clone, Copy, PartialEq, Eq, Structural)]
pub enum GuestMethod {
    GetName,
    GetDescription,
    GetParams,
    Run,
    GetMCPTool,
}

impl GuestMethod {
    /// The name under which the function is registered: the variant's name.
    pub open spec fn spec_name(self) -> Seq<char> {
        match self {
            GuestMethod::GetName => "GetName"@,
            GuestMethod::GetDescription => "GetDescription"@,
            GuestMethod::GetParams => "GetParams"@,
            GuestMethod::Run => "Run"@,
            GuestMethod::GetMCPTool => "GetMCPTool"@,
        }
    }

    /// The name under which the function is registered.
    pub fn as_ref(&self) -> (s: &'static str)
        ensures
            s@ == self.spec_name(),
    {
        match self {
            GuestMethod::GetName => "GetName",
            GuestMethod::GetDescription => "GetDescription",
            GuestMethod::GetParams => "GetParams",
            GuestMethod::Run => "Run",
            GuestMethod::GetMCPTool => "GetMCPTool",
        }
    }
}

/// A parameter that an agent accepts.
#[derive(Debug, Clone)]
pub struct Param {
    pub name: String,
    pub param_type: ParamType,
    pub description: Option<String>,
    pub required: bool,
}

/// The kind of value a parameter holds.
#[derive(Debug, Clone, Copy, PartialEq, Eq, Structural)]
pub enum ParamType {
    String,
    Integer,
    Boolean,
    Float,
}

} // verus!
