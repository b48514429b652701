//! The agent inside a virtual machine: the table of programs it started in the background,
//! the answers it gives to the commands it runs, and the decisions of a connection from the
//! host (which request to serve, and what to answer when none can be read).
use vstd::prelude::*;
use std::collections::HashMap;
use crate::common::{VmCommand, VmCommandMode};
use crate::http_proxy::HttpProxyResponse;
use crate::http_proxy::HttpProxyRequest;
use crate::string_map::StringMap;
use vstd::std_specs::iter::IteratorSpec;
use crate::text::{concat2, concat4, string_from_utf8_lossy, utf8_lossy, u64_to_decimal, decimal, is_blank, is_blank_text};

verus! {

broadcast use vstd::std_specs::hash::group_hash_axioms;

/// The answer to a command run in the foreground.
#[derive(Debug, Clone, PartialEq, Eq)]
pub struct CommandResponse {
    pub exit_code: i32,
    pub stdout: String,
    pub stderr: String,
}

/// A program started in the background, under the id it was given.
#[derive(Debug, Clone, PartialEq, Eq)]
pub struct SpawnedProcessInfo {
    pub id: u64,
    pub command: String,
}

/// What a stopped background program left behind.
#[derive(Debug, Clone, PartialEq, Eq)]
pub struct StopProcessResponse {
    pub id: u64,
    pub exit_code: i32,
    pub stdout: String,
    pub stderr: String,
}

/// A request for the list of background programs.
#[derive(Debug, Clone, PartialEq, Eq)]
pub struct ListSpawnedProcessesRequest;

/// A request to stop the background program with the given id.
#[derive(Debug, Clone, PartialEq, Eq)]
pub struct StopSpawnedProcessRequest {
    pub id: u64,
}

/// What the host asks of the agent over a connection.
pub enum VsockRequest {
    Command(VmCommand),
    HttpProxy(HttpProxyRequest),
}

/// What the agent answers.
pub enum VsockResponse {
    Command(CommandResponse),
    HttpProxy(HttpProxyResponse),
    SpawnedProcess(SpawnedProcessInfo),
    SpawnedProcessList(Vec<SpawnedProcessInfo>),
    StoppedProcess(StopProcessResponse),
}

/// How long a command run in the foreground may take, in seconds.
pub const FOREGROUND_TIMEOUT_SECS: u64 = 15;

/// How running a command through the shell ended.
pub enum CommandOutcome {
    /// The shell could not be started; the error's text.
    SpawnFailed(String),
    /// The command ended, with its exit code (none when a signal ended it) and its output.
    Exited { code: Option<i32>, stdout: String, stderr: String },
    /// The time ran out; the command was killed, leaving this output.
    TimedOut { stdout: String, stderr: String },
    /// Waiting for the command failed; the error's text.
    WaitFailed(String),
}

/// The answer to a command, by how it ended.
pub open spec fn spec_command_response(outcome: CommandOutcome, timeout_secs: u64) -> (i32, Seq<char>, Seq<char>) {
    match outcome {
        CommandOutcome::SpawnFailed(e) => (-1i32, Seq::empty(), "Failed to execute command: "@ + e@),
        CommandOutcome::Exited { code, stdout, stderr } => (
            match code {
                Some(c) => c,
                None => -1i32,
            },
            stdout@,
            stderr@,
        ),
        CommandOutcome::TimedOut { stdout, stderr } => (
            -2i32,
            stdout@,
            "Command timed out after "@ + decimal(timeout_secs as nat) + " seconds\n"@ + stderr@,
        ),
        CommandOutcome::WaitFailed(e) => (-1i32, Seq::empty(), "Error waiting for child: "@ + e@),
    }
}

/// The answer keeps what the command printed: a command that ran (to its end or until it
/// was killed) is answered with its own output unchanged and its own error output at the
/// end of the answer's; only a killed command gets the exit code -2; a command that could
/// not be started or waited for has no output and exit code -1.
pub proof fn lemma_command_response_keeps_output(outcome: CommandOutcome, timeout_secs: u64)
    ensures
        ({
            let (code, out, err) = spec_command_response(outcome, timeout_secs);
            &&& outcome matches CommandOutcome::Exited { code: c, stdout, stderr } ==> out == stdout@ && err == stderr@
                && (c is Some ==> code == c->0)
            &&& outcome matches CommandOutcome::TimedOut { stdout, stderr } ==> out == stdout@ && code == -2
                && crate::text::has_suffix(err, stderr@)
            &&& (outcome is SpawnFailed || outcome is WaitFailed) ==> code == -1 && out == Seq::<char>::empty()
            &&& code == -2 && !(outcome matches CommandOutcome::Exited { code: Some(c), .. } && c == -2)
                ==> outcome is TimedOut
        }),
{
    if let CommandOutcome::TimedOut { stdout, stderr } = outcome {
        let err = spec_command_response(outcome, timeout_secs).2;
        let pre = "Command timed out after "@ + decimal(timeout_secs as nat) + " seconds\n"@;
        assert(err == pre + stderr@);
        assert(err.subrange(err.len() - stderr@.len(), err.len() as int) =~= stderr@);
    }
}

/// The answer to a command that ran with a limit of `timeout_secs` seconds and ended as
/// `outcome` says.
pub fn command_response(outcome: CommandOutcome, timeout_secs: u64) -> (r: CommandResponse)
    ensures
        (r.exit_code, r.stdout@, r.stderr@) == spec_command_response(outcome, timeout_secs),
{
    match outcome {
        CommandOutcome::SpawnFailed(e) => CommandResponse {
            exit_code: -1,
            stdout: String::new(),
            stderr: concat2("Failed to execute command: ", e.as_str()),
        },
        CommandOutcome::Exited { code, stdout, stderr } => {
            let exit_code: i32 = match code {
                Some(c) => c,
                None => -1,
            };
            CommandResponse { exit_code, stdout, stderr }
        },
        CommandOutcome::TimedOut { stdout, stderr } => {
            let secs = u64_to_decimal(timeout_secs);
            CommandResponse {
                exit_code: -2,
                stdout,
                stderr: concat4("Command timed out after ", secs.as_str(), " seconds\n", stderr.as_str()),
            }
        },
        CommandOutcome::WaitFailed(e) => CommandResponse {
            exit_code: -1,
            stdout: String::new(),
            stderr: concat2("Error waiting for child: ", e.as_str()),
        },
    }
}

/// The shell line of a command: the command, then each argument after a space.
pub open spec fn spec_command_line(command: Seq<char>, args: Seq<String>) -> Seq<char>
    decreases args.len(),
{
    if args.len() == 0 {
        command
    } else {
        spec_command_line(command, args.drop_last()) + " "@ + args.last()@
    }
}

/// The line that the shell runs for a command started in the background.
pub fn full_command_line(cmd: &VmCommand) -> (s: String)
    ensures
        s@ == spec_command_line(cmd.command@, cmd.args@),
{
    let mut s = cmd.command.clone();
    let mut i: usize = 0;
    while i < cmd.args.len()
        invariant
            i <= cmd.args@.len(),
            s@ == spec_command_line(cmd.command@, cmd.args@.subrange(0, i as int)),
        decreases cmd.args@.len() - i,
    {
        proof {
            assert(cmd.args@.subrange(0, i + 1).drop_last() =~= cmd.args@.subrange(0, i as int));
        }
        s.append(" ");
        s.append(cmd.args[i].as_str());
        i = i + 1;
    }
    assert(cmd.args@.subrange(0, cmd.args@.len() as int) =~= cmd.args@);
    s
}

/// How stopping a background program went.
pub enum StopOutcome {
    /// It could not be killed; the error's text.
    KillFailed(String),
    /// It was killed, but its output could not be collected; the error's text.
    CollectFailed(String),
    /// It was killed and collected: its exit code (none when a signal ended it) and the
    /// bytes it wrote.
    Collected { code: Option<i32>, stdout: Vec<u8>, stderr: Vec<u8> },
}

/// The record of a stopped program, by how stopping it went.
pub open spec fn spec_stop_response(id: u64, outcome: StopOutcome) -> (u64, i32, Seq<char>, Seq<char>) {
    match outcome {
        StopOutcome::KillFailed(e) => (id, -1i32, Seq::empty(), "Failed to kill process: "@ + e@),
        StopOutcome::CollectFailed(e) => (id, -1i32, Seq::empty(), "Failed to collect output: "@ + e@),
        StopOutcome::Collected { code, stdout, stderr } => (
            id,
            match code {
                Some(c) => c,
                None => -1i32,
            },
            utf8_lossy(stdout@),
            utf8_lossy(stderr@),
        ),
    }
}

/// The record of the program `id` once stopping it went as `outcome` says.
pub fn stop_response(id: u64, outcome: StopOutcome) -> (r: StopProcessResponse)
    ensures
        (r.id, r.exit_code, r.stdout@, r.stderr@) == spec_stop_response(id, outcome),
{
    match outcome {
        StopOutcome::KillFailed(e) => StopProcessResponse {
            id,
            exit_code: -1,
            stdout: String::new(),
            stderr: concat2("Failed to kill process: ", e.as_str()),
        },
        StopOutcome::CollectFailed(e) => StopProcessResponse {
            id,
            exit_code: -1,
            stdout: String::new(),
            stderr: concat2("Failed to collect output: ", e.as_str()),
        },
        StopOutcome::Collected { code, stdout, stderr } => {
            let exit_code: i32 = match code {
                Some(c) => c,
                None => -1,
            };
            StopProcessResponse {
                id,
                exit_code,
                stdout: string_from_utf8_lossy(stdout.as_slice()),
                stderr: string_from_utf8_lossy(stderr.as_slice()),
            }
        },
    }
}

/// A running program that the agent can stop. Implemented for the operating system's child
/// processes outside this library; nothing is promised of what stopping gives back.
pub trait ChildProcess {
    /// Kills the program and collects its output.
    fn kill_and_collect(&mut self) -> StopOutcome;
}

/// The programs started in the background, by id, with the command each was started for.
/// Ids are handed out in turn from a counter that starts at 1 (and wraps).
pub struct ProcessTable<C> {
    next_id: u64,
    processes: HashMap<u64, (String, C)>,
}

impl<C> ProcessTable<C> {
    /// The programs in the table, by id.
    pub closed spec fn spec_processes(self) -> Map<u64, (String, C)> {
        self.processes@
    }

    /// The id that the next program will get.
    pub closed spec fn spec_next_id(self) -> u64 {
        self.next_id
    }

    /// Every program in the table has an id below the next one.
    pub closed spec fn wf(self) -> bool {
        forall|id: u64| #[trigger] self.processes@.contains_key(id) ==> id < self.next_id
    }

    /// Until the counter wraps, the id handed out next is held by no program in the table.
    pub proof fn lemma_next_id_is_free(self)
        requires
            self.wf(),
        ensures
            !self.spec_processes().contains_key(self.spec_next_id()),
    {
    }

    /// An empty table whose first id is 1.
    pub fn new() -> (t: Self)
        ensures
            t.wf(),
            t.spec_processes() == Map::<u64, (String, C)>::empty(),
            t.spec_next_id() == 1,
    {
        ProcessTable { next_id: 1, processes: HashMap::new() }
    }

    /// Hands out the next id: the counter's value, which then moves on by one (wrapping).
    pub fn next_process_id(&mut self) -> (id: u64)
        ensures
            id == old(self).spec_next_id(),
            final(self).spec_next_id() == (if id == u64::MAX { 0 } else { (id + 1) as u64 }),
            final(self).spec_processes() == old(self).spec_processes(),
            old(self).wf() && id < u64::MAX ==> final(self).wf(),
    {
        let id = self.next_id;
        self.next_id = self.next_id.wrapping_add(1);
        id
    }

    /// Enters a program that was started for `command` under a fresh id, and describes it.
    pub fn register_process(&mut self, command: String, child: C) -> (info: SpawnedProcessInfo)
        ensures
            info.id == old(self).spec_next_id(),
            info.command == command,
            final(self).spec_next_id() == (if info.id == u64::MAX { 0 } else { (info.id + 1) as u64 }),
            final(self).spec_processes() == old(self).spec_processes().insert(info.id, (command, child)),
            old(self).wf() && info.id < u64::MAX ==> final(self).wf() && !old(self).spec_processes().contains_key(info.id),
    {
        let id = self.next_process_id();
        let stored = command.clone();
        self.processes.insert(id, (stored, child));
        SpawnedProcessInfo { id, command }
    }

    /// Lists the programs in the table, each once, in the order the table yields them.
    pub fn list_spawned_processes(&self) -> (r: Vec<SpawnedProcessInfo>)
        ensures
            r@.len() == self.spec_processes().len(),
            forall|i: int|
                0 <= i < r@.len() ==> {
                    &&& self.spec_processes().contains_key(#[trigger] r@[i].id)
                    &&& r@[i].command == self.spec_processes()[r@[i].id].0
                },
            forall|id: u64| #[trigger]
                self.spec_processes().contains_key(id) ==> exists|i: int| 0 <= i < r@.len() && #[trigger] r@[i].id == id,
            forall|i: int, j: int| 0 <= i < j < r@.len() ==> #[trigger] r@[i].id != #[trigger] r@[j].id,
    {
        let mut out: Vec<SpawnedProcessInfo> = Vec::new();
        let ghost m = self.processes@;
        for entry in it: self.processes.iter()
            invariant
                m == self.processes@,
                it.seq() == vstd::std_specs::hash::spec_hash_map_iter(&self.processes).remaining(),
                it.seq().no_duplicates(),
                out@.len() == it.index(),
                forall|j: int|
                    0 <= j < it.index() ==> #[trigger] out@[j].id == *it.seq()[j].0 && out@[j].command
                        == it.seq()[j].1.0,
        {
            let (id, item) = entry;
            out.push(SpawnedProcessInfo { id: *id, command: item.0.clone() });
        }
        proof {
            let v = vstd::std_specs::hash::spec_hash_map_iter(&self.processes).remaining();
            assert forall|i: int| 0 <= i < out@.len() implies {
                &&& self.spec_processes().contains_key(#[trigger] out@[i].id)
                &&& out@[i].command == self.spec_processes()[out@[i].id].0
            } by {
                assert(m.contains_key(*v[i].0) && m[*v[i].0] == *v[i].1);
            }
            assert forall|id: u64| #[trigger] self.spec_processes().contains_key(id) implies exists|i: int|
                0 <= i < out@.len() && #[trigger] out@[i].id == id by {
                assert(v.contains((&id, &m[id])));
                let i = choose|i: int| 0 <= i < v.len() && v[i] == (&id, &m[id]);
                assert(out@[i].id == id);
            }
            assert forall|i: int, j: int| 0 <= i < j < out@.len() implies #[trigger] out@[i].id
                != #[trigger] out@[j].id by {
                if out@[i].id == out@[j].id {
                    assert(m.contains_key(*v[i].0) && m[*v[i].0] == *v[i].1);
                    assert(m.contains_key(*v[j].0) && m[*v[j].0] == *v[j].1);
                    assert(v[i] == v[j]);
                }
            }
        }
        out
    }

    /// Takes the program `id` out of the table, if it is there.
    pub fn take_process(&mut self, id: u64) -> (r: Option<(String, C)>)
        ensures
            final(self).spec_processes() == old(self).spec_processes().remove(id),
            final(self).spec_next_id() == old(self).spec_next_id(),
            old(self).wf() ==> final(self).wf(),
            match r {
                Some(entry) => old(self).spec_processes().contains_key(id) && entry == old(self).spec_processes()[id],
                None => !old(self).spec_processes().contains_key(id),
            },
    {
        self.processes.remove(&id)
    }
}

/// The counter after one call of `next_process_id`: one more, wrapping at the `u64` limit.
pub open spec fn spec_next_counter(id: u64) -> u64 {
    if id == u64::MAX {
        0
    } else {
        (id + 1) as u64
    }
}

/// The id that the k-th call (counting from 1) of `next_process_id` on a fresh table
/// gives: k, wrapping at 2^64 as an atomic counter does.
pub open spec fn spec_kth_process_id(k: nat) -> u64 {
    (k % 0x1_0000_0000_0000_0000) as u64
}

/// Successive calls of `next_process_id` on a fresh table count: with `counters[i]` the
/// table's counter before call i (1 on a fresh table) and `ids[i]` the id that call gives,
/// call i gives i + 1 (wrapping at 2^64). So, short of 2^64 calls, the ids are 1, 2, 3, ...:
/// pairwise distinct, increasing in call order, and never 0.
pub proof fn lemma_process_ids_count_calls(ids: Seq<u64>, counters: Seq<u64>)
    requires
        counters.len() == ids.len() + 1,
        counters[0] == 1,
        forall|i: int|
            0 <= i < ids.len() ==> #[trigger] ids[i] == counters[i] && counters[i + 1] == spec_next_counter(
                ids[i],
            ),
    ensures
        forall|i: int| 0 <= i < ids.len() ==> #[trigger] ids[i] == spec_kth_process_id((i + 1) as nat),
        ids.len() < 0x1_0000_0000_0000_0000 ==> forall|i: int, j: int|
            0 <= i < j < ids.len() ==> #[trigger] ids[i] < #[trigger] ids[j],
        ids.len() < 0x1_0000_0000_0000_0000 ==> forall|i: int| 0 <= i < ids.len() ==> #[trigger] ids[i] != 0,
{
    assert forall|i: int| 0 <= i < ids.len() implies #[trigger] ids[i] == spec_kth_process_id((i + 1) as nat) by {
        lemma_counter_counts(ids, counters, i);
    }
    if ids.len() < 0x1_0000_0000_0000_0000 {
        assert forall|i: int| 0 <= i < ids.len() implies #[trigger] ids[i] == i + 1 by {
            lemma_counter_counts(ids, counters, i);
        }
    }
}

/// The counter before call i is i + 1, wrapping at 2^64.
proof fn lemma_counter_counts(ids: Seq<u64>, counters: Seq<u64>, i: int)
    requires
        counters.len() == ids.len() + 1,
        counters[0] == 1,
        forall|j: int|
            0 <= j < ids.len() ==> #[trigger] ids[j] == counters[j] && counters[j + 1] == spec_next_counter(
                ids[j],
            ),
        0 <= i <= ids.len(),
    ensures
        counters[i] == spec_kth_process_id((i + 1) as nat),
        i < ids.len() ==> ids[i] == counters[i],
    decreases i,
{
    if i > 0 {
        lemma_counter_counts(ids, counters, i - 1);
        let m: int = 0x1_0000_0000_0000_0000;
        let c = counters[i - 1];
        assert(ids[i - 1] == c);
        assert(c == i % m);
        if c == u64::MAX {
            assert((i + 1) % m == 0) by {
                vstd::arithmetic::div_mod::lemma_add_mod_noop(i, 1, m);
            }
        } else {
            assert((i + 1) % m == c + 1) by {
                vstd::arithmetic::div_mod::lemma_add_mod_noop(i, 1, m);
                vstd::arithmetic::div_mod::lemma_small_mod((c + 1) as nat, m as nat);
                vstd::arithmetic::div_mod::lemma_small_mod(1nat, m as nat);
            }
        }
    }
}

impl<C: ChildProcess> ProcessTable<C> {
    /// Stops the program `id`: takes it out of the table, kills it and collects what it
    /// wrote. `None` when no program has that id.
    pub fn stop_spawned_process(&mut self, id: u64) -> (r: Option<StopProcessResponse>)
        ensures
            final(self).spec_processes() == old(self).spec_processes().remove(id),
            final(self).spec_next_id() == old(self).spec_next_id(),
            old(self).wf() ==> final(self).wf(),
            r is Some <==> old(self).spec_processes().contains_key(id),
            r matches Some(resp) ==> exists|o: StopOutcome|
                (resp.id, resp.exit_code, resp.stdout@, resp.stderr@) == #[trigger] spec_stop_response(id, o),
    {
        match self.take_process(id) {
            Some(entry) => {
                let (_command, mut child) = entry;
                let outcome = child.kill_and_collect();
                let ghost o = outcome;
                let resp = stop_response(id, outcome);
                assert((resp.id, resp.exit_code, resp.stdout@, resp.stderr@) == spec_stop_response(id, o));
                Some(resp)
            },
            None => None,
        }
    }
}

/// The answer to a request to start a program in the background, by whether it started.
pub fn spawn_reply(started: Option<SpawnedProcessInfo>) -> (r: VsockResponse)
    ensures
        match started {
            Some(info) => r == VsockResponse::SpawnedProcess(info),
            None => r matches VsockResponse::StoppedProcess(s) && s.id == 0 && s.exit_code == -1
                && s.stdout@ == Seq::<char>::empty() && s.stderr@ == "Failed to spawn process"@,
        },
{
    match started {
        Some(info) => VsockResponse::SpawnedProcess(info),
        None => VsockResponse::StoppedProcess(
            StopProcessResponse {
                id: 0,
                exit_code: -1,
                stdout: String::new(),
                stderr: String::from_str("Failed to spawn process"),
            },
        ),
    }
}

/// What the agent does with a request it has read.
pub enum RequestPlan {
    /// Runs the command in the foreground within the time limit, and answers with the result.
    RunForeground { command: String, timeout_secs: u64 },
    /// Starts the command in the background, and answers with `spawn_reply`.
    Spawn(VmCommand),
    /// Answers at once.
    Reply(VsockResponse),
}

/// The message that the agent sends in answer to an HTTP request, which only the host serves.
pub open spec fn proxy_refusal_body() -> Seq<char> {
    "HTTP proxy not yet implemented in VM agent"@
}

/// The error that goes with it.
pub open spec fn proxy_refusal_error() -> Seq<char> {
    "HTTP proxy functionality requires host-side implementation"@
}

/// Decides how to serve a request: a foreground command runs with the fifteen-second limit,
/// a background command is started, and an HTTP request is refused with status 500.
pub fn plan_request(request: VsockRequest) -> (p: RequestPlan)
    ensures
        match request {
            VsockRequest::Command(c) => match c.mode {
                VmCommandMode::Foreground => p matches RequestPlan::RunForeground { command, timeout_secs }
                    && command == c.command && timeout_secs == FOREGROUND_TIMEOUT_SECS,
                VmCommandMode::Spawn => p == RequestPlan::Spawn(c),
            },
            VsockRequest::HttpProxy(_) => p matches RequestPlan::Reply(VsockResponse::HttpProxy(resp)) && {
                &&& resp.status_code == 500
                &&& resp.headers@ == Map::<Seq<char>, String>::empty()
                &&& resp.body@ == proxy_refusal_body().map_values(|c: char| c as u8)
                &&& resp.error matches Some(e) && e@ == proxy_refusal_error()
            },
        },
{
    match request {
        VsockRequest::Command(c) => match c.mode {
            VmCommandMode::Foreground => RequestPlan::RunForeground {
                command: c.command,
                timeout_secs: FOREGROUND_TIMEOUT_SECS,
            },
            VmCommandMode::Spawn => RequestPlan::Spawn(c),
        },
        VsockRequest::HttpProxy(_) => {
            let body = ascii_bytes("HTTP proxy not yet implemented in VM agent");
            RequestPlan::Reply(
                VsockResponse::HttpProxy(
                    HttpProxyResponse {
                        status_code: 500,
                        headers: StringMap::new(),
                        body,
                        error: Some(String::from_str("HTTP proxy functionality requires host-side implementation")),
                    },
                ),
            )
        },
    }
}

/// The bytes of an ASCII text, one per character.
pub fn ascii_bytes(s: &str) -> (b: Vec<u8>)
    ensures
        b@ == s@.map_values(|c: char| c as u8),
{
    let v = crate::text::chars_of(s);
    let mut out: Vec<u8> = Vec::new();
    let mut i: usize = 0;
    while i < v.len()
        invariant
            v@ == s@,
            i <= v@.len(),
            out@ == v@.subrange(0, i as int).map_values(|c: char| c as u8),
        decreases v@.len() - i,
    {
        let c = v[i];
        let byte: u8 = c as u8;
        out.push(byte);
        i = i + 1;
        assert(out@ =~= v@.subrange(0, i as int).map_values(|c: char| c as u8));
    }
    assert(v@.subrange(0, v@.len() as int) =~= v@);
    out
}

/// What has been read on a connection so far, and whether it has been answered.
pub struct ConnectionState {
    pub received: String,
    pub answered: bool,
}

/// What happened on the last read of a connection.
pub enum ReadEvent {
    /// The host closed the connection.
    Closed,
    /// These bytes arrived.
    Data(Vec<u8>),
    /// Nothing was there yet; `expired` tells whether the ten seconds allowed for reading
    /// have passed.
    NothingYet { expired: bool },
    /// The read failed; the error's text.
    Failed(String),
}

/// What the agent does next on a connection.
#[derive(Debug, Clone, PartialEq, Eq)]
pub enum ConnectionAction {
    /// Try to read the request from what has been received.
    TryParse,
    /// Wait a little and read again.
    WaitAndRead,
    /// Send this answer and close.
    AnswerAndClose(CommandResponse),
    /// Stop reading.
    Close,
}

impl ConnectionState {
    /// A fresh connection: nothing read, nothing answered.
    pub fn new() -> (s: Self)
        ensures
            s.received@ == Seq::<char>::empty(),
            !s.answered,
    {
        ConnectionState { received: String::new(), answered: false }
    }

    /// Takes in the result of a read: data is added (decoded leniently) and then parsed;
    /// waiting goes on until the time is up, when an error is answered; a failed read is
    /// answered with its error; a closed connection stops the reading.
    pub fn on_read(&mut self, event: ReadEvent) -> (a: ConnectionAction)
        ensures
            final(self).answered == old(self).answered,
            match event {
                ReadEvent::Closed => a == ConnectionAction::Close && final(self).received == old(self).received,
                ReadEvent::Data(bytes) => a == ConnectionAction::TryParse
                    && final(self).received@ == old(self).received@ + utf8_lossy(bytes@),
                ReadEvent::NothingYet { expired } => {
                    &&& final(self).received == old(self).received
                    &&& expired ==> (a matches ConnectionAction::AnswerAndClose(r) && r.exit_code == -1
                        && r.stdout@ == Seq::<char>::empty()
                        && r.stderr@ == "Read timeout waiting for complete command"@)
                    &&& !expired ==> a == ConnectionAction::WaitAndRead
                },
                ReadEvent::Failed(e) => {
                    &&& final(self).received == old(self).received
                    &&& a matches ConnectionAction::AnswerAndClose(r) && r.exit_code == -1
                        && r.stdout@ == Seq::<char>::empty() && r.stderr@ == "Read error: "@ + e@
                },
            },
    {
        match event {
            ReadEvent::Closed => ConnectionAction::Close,
            ReadEvent::Data(bytes) => {
                let chunk = string_from_utf8_lossy(bytes.as_slice());
                self.received.append(chunk.as_str());
                ConnectionAction::TryParse
            },
            ReadEvent::NothingYet { expired } => {
                if expired {
                    ConnectionAction::AnswerAndClose(
                        CommandResponse {
                            exit_code: -1,
                            stdout: String::new(),
                            stderr: String::from_str("Read timeout waiting for complete command"),
                        },
                    )
                } else {
                    ConnectionAction::WaitAndRead
                }
            },
            ReadEvent::Failed(e) => ConnectionAction::AnswerAndClose(
                CommandResponse {
                    exit_code: -1,
                    stdout: String::new(),
                    stderr: concat2("Read error: ", e.as_str()),
                },
            ),
        }
    }

    /// Notes that a request was read and answered.
    pub fn mark_answered(&mut self)
        ensures
            final(self).answered,
            final(self).received == old(self).received,
    {
        self.answered = true;
    }

    /// The answer owed when reading has stopped: none if a request was answered, or if
    /// nothing but white space arrived, or if what arrived reads as a request (`parses`);
    /// else an error that quotes what arrived.
    pub fn final_answer(&self, parses: bool) -> (r: Option<CommandResponse>)
        ensures
            r is Some <==> (!self.answered && !is_blank_text(self.received@) && !parses),
            r matches Some(resp) ==> resp.exit_code == -1 && resp.stdout@ == Seq::<char>::empty()
                && resp.stderr@ == "Invalid JSON request: "@ + self.received@,
    {
        if self.answered || is_blank(self.received.as_str()) || parses {
            None
        } else {
            Some(
                CommandResponse {
                    exit_code: -1,
                    stdout: String::new(),
                    stderr: concat2("Invalid JSON request: ", self.received.as_str()),
                },
            )
        }
    }
}

} // verus!
