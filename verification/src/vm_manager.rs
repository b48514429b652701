//! The host's book of virtual machines, and the rules for running commands in them.
//!
//! Each machine is known by its id and gets a VSOCK context id (CID) of its own, counted up
//! from 100. The host keeps, beside each record, the handles it needs to reach the machine
//! (`H`: its scratch directory, command channel and so on); this module keeps the book.
use vstd::prelude::*;
use vstd::arithmetic::power2::{pow2, lemma2_to64, lemma2_to64_rest, lemma_pow2_strictly_increases, lemma_pow2_unfold};
use crate::string_map::StringMap;
use crate::common::{VmCommand, VmCommandResult};
use crate::json::{json_quote, parse_json_document, json_document, JsonDocument};
use crate::text::{concat2, concat3, concat4, contains, starts_with, has_infix, has_prefix, i32_to_decimal, i64_to_decimal, join, join_strings, owned, signed_decimal, string_from_utf8, u64_to_decimal, decimal, views, utf8_size, chars_within, utf8_size_up_to, prefix_within};

verus! {

/// The first context id handed out.
pub open spec fn first_cid() -> u32 {
    100
}

/// A virtual machine that the host runs.
pub struct VmInstance<H> {
    pub vm_id: String,
    pub cid: u32,
    pub pid: Option<u32>,
    /// The directory that holds the machine's sockets.
    pub socket_dir: String,
    pub handles: H,
}

/// The book of running machines.
pub struct VmManager<H> {
    instances: StringMap<VmInstance<H>>,
    next_cid: u32,
    shutting_down: bool,
}

impl<H> View for VmManager<H> {
    type V = Map<Seq<char>, VmInstance<H>>;

    closed spec fn view(&self) -> Map<Seq<char>, VmInstance<H>> {
        self.instances@
    }
}

/// The process ids of the machines in a book that have one.
pub open spec fn spec_machine_pids<H>(m: Map<Seq<char>, VmInstance<H>>) -> Set<u32> {
    Set::new(|p: u32| exists|k: Seq<char>| #[trigger] m.contains_key(k) && m[k].pid == Some(p))
}

/// What a shutdown leaves: the book closed and empty, the next context id as it was, and
/// the process ids handed back exactly those of the machines that were in the book.
pub open spec fn spec_after_shutdown<H>(before: VmManager<H>, after: VmManager<H>, pids: Seq<u32>) -> bool {
    &&& after.wf()
    &&& after.spec_shutting_down()
    &&& after@ == Map::<Seq<char>, VmInstance<H>>::empty()
    &&& after.spec_next_cid() == before.spec_next_cid()
    &&& forall|i: int| 0 <= i < pids.len() ==> #[trigger] spec_machine_pids(before@).contains(pids[i])
    &&& forall|p: u32| #[trigger] spec_machine_pids(before@).contains(p) ==> pids.contains(p)
}

impl<H> VmManager<H> {
    /// Whether the book has been closed by a shutdown.
    pub closed spec fn spec_shutting_down(self) -> bool {
        self.shutting_down
    }

    /// Whether the book has been closed by a shutdown.
    pub fn is_shutting_down(&self) -> (b: bool)
        ensures
            b == self.spec_shutting_down(),
    {
        self.shutting_down
    }

    /// Shuts down: the book is closed and emptied, and the process ids of its machines
    /// that have one are handed back, for those processes to be stopped. A second call finds
    /// the book empty, hands back nothing and changes nothing.
    pub fn shutdown(&mut self) -> (pids: Vec<u32>)
        requires
            old(self).wf(),
        ensures
            spec_after_shutdown(*old(self), *final(self), pids@),
    {
        let ghost before = self@;
        let mut pids: Vec<u32> = Vec::new();
        let entries = self.instances.entries();
        proof {
            self.instances.lemma_entries_are_model();
        }
        let mut i: usize = 0;
        while i < entries.len()
            invariant
                self.wf(),
                before == self@,
                entries@ == self.instances.spec_entries(),
                i <= entries@.len(),
                entries@.len() == self@.len(),
                forall|j: int| 0 <= j < entries@.len() ==> self@.contains_key(#[trigger] entries@[j].0@)
                    && self@[entries@[j].0@] == entries@[j].1,
                forall|j: int| 0 <= j < pids@.len() ==> #[trigger] spec_machine_pids(before).contains(pids@[j]),
                forall|j: int| 0 <= j < i ==> (#[trigger] entries@[j].1.pid matches Some(p) ==> pids@.contains(p)),
            decreases entries@.len() - i,
        {
            match entries[i].1.pid {
                Some(p) => {
                    let ghost old_pids = pids@;
                    proof {
                        assert(self@.contains_key(entries@[i as int].0@));
                        assert(spec_machine_pids(before).contains(p));
                    }
                    pids.push(p);
                    proof {
                        assert(pids@[old_pids.len() as int] == p);
                        assert forall|j: int| 0 <= j < i + 1 implies (#[trigger] entries@[j].1.pid matches Some(q)
                            ==> pids@.contains(q)) by {
                            if j < i {
                                if let Some(q) = entries@[j].1.pid {
                                    let t = choose|t: int| 0 <= t < old_pids.len() && old_pids[t] == q;
                                    assert(pids@[t] == q);
                                }
                            }
                        }
                    }
                },
                None => {},
            }
            i = i + 1;
        }
        proof {
            assert forall|p: u32| #[trigger] spec_machine_pids(before).contains(p) implies pids@.contains(p) by {
                let k = choose|k: Seq<char>| #[trigger] before.contains_key(k) && before[k].pid == Some(p);
                let j = choose|j: int| 0 <= j < self.instances.spec_entries().len()
                    && #[trigger] self.instances.spec_entries()[j].0@ == k;
                assert(entries@[j].1.pid == Some(p));
            }
        }
        self.instances = StringMap::new();
        self.shutting_down = true;
        pids
    }

    /// The context id that the next machine gets.
    pub closed spec fn spec_next_cid(self) -> u32 {
        self.next_cid
    }

    /// Every machine is filed under its own id, has a context id below the next one, and
    /// no two machines share a context id.
    pub closed spec fn wf(self) -> bool {
        &&& self.instances.wf()
        &&& self.next_cid >= first_cid()
        &&& forall|k: Seq<char>| #[trigger] self@.contains_key(k) ==> self@[k].vm_id@ == k
        &&& forall|k: Seq<char>| #[trigger] self@.contains_key(k) ==> first_cid() <= self@[k].cid < self.next_cid
        &&& forall|a: Seq<char>, b: Seq<char>|
            #[trigger] self@.contains_key(a) && #[trigger] self@.contains_key(b) && a != b ==> self@[a].cid
                != self@[b].cid
    }

    /// No machine; context ids start at 100.
    pub fn new() -> (m: Self)
        ensures
            m.wf(),
            m@ == Map::<Seq<char>, VmInstance<H>>::empty(),
            m.spec_next_cid() == first_cid(),
            !m.spec_shutting_down(),
    {
        VmManager { instances: StringMap::new(), next_cid: 100, shutting_down: false }
    }

    /// Whether another context id can be handed out.
    pub fn can_allocate_cid(&self) -> (b: bool)
        ensures
            b == (self.spec_next_cid() < u32::MAX),
    {
        self.next_cid < u32::MAX
    }

    /// Hands out the next context id.
    pub fn allocate_cid(&mut self) -> (cid: u32)
        requires
            old(self).wf(),
            old(self).spec_next_cid() < u32::MAX,
        ensures
            final(self).wf(),
            final(self)@ == old(self)@,
            cid == old(self).spec_next_cid(),
            final(self).spec_next_cid() == cid + 1,
    {
        let cid = self.next_cid;
        self.next_cid = self.next_cid + 1;
        cid
    }

    /// Whether a machine other than `vm_id` holds the context id `cid`.
    pub fn cid_taken(&self, cid: u32, vm_id: &str) -> (b: bool)
        requires
            self.wf(),
        ensures
            b == exists|k: Seq<char>| #[trigger] self@.contains_key(k) && k != vm_id@ && self@[k].cid == cid,
    {
        let keys = self.instances.keys();
        let target = owned(vm_id);
        let mut i: usize = 0;
        while i < keys.len()
            invariant
                self.wf(),
                target@ == vm_id@,
                i <= keys@.len(),
                keys@.len() == self@.len(),
                forall|j: int| 0 <= j < keys@.len() ==> self@.contains_key(#[trigger] keys@[j]@),
                forall|k: Seq<char>|
                    #[trigger] self@.contains_key(k) ==> exists|j: int| 0 <= j < keys@.len() && #[trigger] keys@[j]@ == k,
                forall|j: int| 0 <= j < i ==> #[trigger] keys@[j]@ == vm_id@ || self@[keys@[j]@].cid != cid,
            decreases keys@.len() - i,
        {
            let inst = self.instances.get(keys[i].as_str()).unwrap();
            if inst.cid == cid && keys[i] != target {
                assert(self@.contains_key(keys@[i as int]@));
                return true;
            }
            i = i + 1;
        }
        proof {
            assert forall|k: Seq<char>| #[trigger] self@.contains_key(k) && k != vm_id@ implies self@[k].cid != cid by {
                let j = choose|j: int| 0 <= j < keys@.len() && #[trigger] keys@[j]@ == k;
                assert(keys@[j]@ == k);
            }
        }
        false
    }

    /// Files a started machine under its id (replacing a machine filed under the same id).
    /// The context id must be one handed out and held by no other machine.
    pub fn register_vm(&mut self, instance: VmInstance<H>)
        requires
            old(self).wf(),
            first_cid() <= instance.cid < old(self).spec_next_cid(),
            forall|k: Seq<char>|
                #[trigger] old(self)@.contains_key(k) && k != instance.vm_id@ ==> old(self)@[k].cid != instance.cid,
        ensures
            final(self).wf(),
            final(self)@ == old(self)@.insert(instance.vm_id@, instance),
            final(self).spec_next_cid() == old(self).spec_next_cid(),
    {
        let key = instance.vm_id.clone();
        self.instances.insert(key, instance);
    }

    /// Takes the machine `vm_id` out of the book; a machine that is not there is an error.
    pub fn destroy_vm(&mut self, vm_id: &str) -> (r: Result<VmInstance<H>, String>)
        requires
            old(self).wf(),
        ensures
            final(self).wf(),
            final(self)@ == old(self)@.remove(vm_id@),
            final(self).spec_next_cid() == old(self).spec_next_cid(),
            match r {
                Ok(inst) => old(self)@.contains_key(vm_id@) && inst == old(self)@[vm_id@],
                Err(e) => !old(self)@.contains_key(vm_id@) && e@ == vm_not_found_text(vm_id@),
            },
    {
        match self.instances.remove(vm_id) {
            Some(inst) => Ok(inst),
            None => Err(vm_not_found(vm_id)),
        }
    }

    /// The ids of the running machines.
    pub fn list_vms(&self) -> (ids: Vec<String>)
        requires
            self.wf(),
        ensures
            ids@.len() == self@.len(),
            forall|i: int| 0 <= i < ids@.len() ==> self@.contains_key(#[trigger] ids@[i]@),
            forall|k: Seq<char>| #[trigger] self@.contains_key(k) ==> exists|i: int| 0 <= i < ids@.len() && #[trigger] ids@[i]@ == k,
            forall|i: int, j: int| 0 <= i < ids@.len() && 0 <= j < ids@.len() && i != j ==> #[trigger] ids@[i]@ != #[trigger] ids@[j]@,
    {
        proof {
            self.instances.lemma_entries_are_model();
        }
        self.instances.keys()
    }

    /// The machine `vm_id`.
    pub fn get(&self, vm_id: &str) -> (r: Option<&VmInstance<H>>)
        requires
            self.wf(),
        ensures
            match r {
                Some(inst) => self@.contains_key(vm_id@) && *inst == self@[vm_id@],
                None => !self@.contains_key(vm_id@),
            },
    {
        self.instances.get(vm_id)
    }

    /// The machine `vm_id`, to change its handles.
    pub fn handles_mut(&mut self, vm_id: &str) -> (r: Option<VmInstance<H>>)
        requires
            old(self).wf(),
        ensures
            final(self).wf(),
            final(self)@ == old(self)@.remove(vm_id@),
            final(self).spec_next_cid() == old(self).spec_next_cid(),
            match r {
                Some(inst) => old(self)@.contains_key(vm_id@) && inst == old(self)@[vm_id@],
                None => !old(self)@.contains_key(vm_id@),
            },
    {
        self.instances.remove(vm_id)
    }

    /// The number of running machines.
    pub fn len(&self) -> (n: usize)
        requires
            self.wf(),
        ensures
            n == self@.len(),
    {
        self.instances.len()
    }

    /// Empties the book (at shutdown).
    pub fn clear(&mut self)
        requires
            old(self).wf(),
        ensures
            final(self).wf(),
            final(self)@ == Map::<Seq<char>, VmInstance<H>>::empty(),
            final(self).spec_next_cid() == old(self).spec_next_cid(),
    {
        self.instances = StringMap::new();
    }
}

/// A second shutdown changes nothing: the book stays closed and empty, the next context id
/// stays, and no process id is handed back.
pub proof fn lemma_second_shutdown_changes_nothing<H>(
    first: VmManager<H>,
    second: VmManager<H>,
    third: VmManager<H>,
    pids1: Seq<u32>,
    pids2: Seq<u32>,
)
    requires
        first.wf(),
        spec_after_shutdown(first, second, pids1),
        spec_after_shutdown(second, third, pids2),
    ensures
        third@ == second@,
        third.spec_shutting_down() == second.spec_shutting_down(),
        third.spec_next_cid() == second.spec_next_cid(),
        pids2.len() == 0,
{
    if pids2.len() > 0 {
        assert(spec_machine_pids(second@).contains(pids2[0]));
    }
}

/// Two machines in the book never share a context id.
pub proof fn lemma_cids_distinct<H>(m: VmManager<H>, a: Seq<char>, b: Seq<char>)
    requires
        m.wf(),
        m@.contains_key(a),
        m@.contains_key(b),
        a != b,
    ensures
        m@[a].cid != m@[b].cid,
{
}

/// A freshly handed-out context id is held by no machine in the book.
pub proof fn lemma_allocated_cid_is_fresh<H>(m: VmManager<H>, k: Seq<char>)
    requires
        m.wf(),
        m@.contains_key(k),
    ensures
        m@[k].cid != m.spec_next_cid(),
{
}

/// "VM <id> not found".
pub open spec fn vm_not_found_text(vm_id: Seq<char>) -> Seq<char> {
    "VM "@ + vm_id + " not found"@
}

/// The error for a machine that is not in the book.
pub fn vm_not_found(vm_id: &str) -> (s: String)
    ensures
        s@ == vm_not_found_text(vm_id@),
{
    concat3("VM ", vm_id, " not found")
}

/// The report of a created machine: "VM <id> created with CID <cid>".
pub fn vm_created_message(vm_id: &str, cid: u32) -> (s: String)
    ensures
        s@ == "VM "@ + vm_id@ + " created with CID "@ + decimal(cid as nat),
{
    let c = u64_to_decimal(cid as u64);
    concat4("VM ", vm_id, " created with CID ", c.as_str())
}

/// The report of a destroyed machine: "VM <id> destroyed".
pub fn vm_destroyed_message(vm_id: &str) -> (s: String)
    ensures
        s@ == "VM "@ + vm_id@ + " destroyed"@,
{
    concat3("VM ", vm_id, " destroyed")
}

/// The path of the machine's VSOCK socket inside its directory.
pub fn vsock_socket_path(socket_dir: &str) -> (s: String)
    ensures
        s@ == socket_dir@ + "/vsock.sock"@,
{
    concat2(socket_dir, "/vsock.sock")
}

/// The path of a host service's socket for `port` inside the machine's directory.
pub fn vsock_port_socket_path(socket_dir: &str, port: u32) -> (s: String)
    ensures
        s@ == socket_dir@ + "/vsock.sock"@ + "_"@ + decimal(port as nat),
{
    let p = u64_to_decimal(port as u64);
    concat4(socket_dir, "/vsock.sock", "_", p.as_str())
}

/// The line that opens a connection to the agent's port through the VSOCK bridge.
pub fn vsock_handshake() -> (s: &'static str)
    ensures
        s@ == "CONNECT 1234\n"@,
{
    "CONNECT 1234\n"
}

/// Whether the bridge accepted the connection (its answer begins with "OK").
pub fn handshake_accepted(response: &str) -> (b: bool)
    ensures
        b == has_prefix(response@, "OK"@),
{
    starts_with(response, "OK")
}

/// The id of a command sent at `nanos` nanoseconds after the epoch (0 when the clock is
/// out of range): "cmd_<nanos>".
pub fn command_id(nanos: Option<i64>) -> (s: String)
    ensures
        s@ == "cmd_"@ + signed_decimal(match nanos { Some(n) => n as int, None => 0 }),
{
    let n = match nanos {
        Some(n) => n,
        None => 0,
    };
    let d = i64_to_decimal(n);
    concat2("cmd_", d.as_str())
}

/// The id of a command sent now.
pub fn new_command_id() -> (s: String)
    ensures
        has_prefix(s@, "cmd_"@),
{
    let s = command_id(now_timestamp_nanos());
    proof {
        reveal_strlit("cmd_");
        assert(s@.subrange(0, 4) =~= "cmd_"@);
    }
    s
}

/// `chrono::Utc::now().timestamp_nanos_opt()`: the current time in nanoseconds since the
/// epoch, if it fits. Trusted: nothing is stated; the value is the clock's.
#[verifier::external_body]
fn now_timestamp_nanos() -> (r: Option<i64>) {
    chrono::Utc::now().timestamp_nanos_opt()
}

/// How long to wait for a command's result: the given number of seconds, or five minutes
/// (`DEFAULT_COMMAND_TIMEOUT_SECS`), long enough for any command's output to come back.
pub fn command_timeout(timeout_seconds: Option<u64>) -> (t: u64)
    ensures
        t == match timeout_seconds { Some(s) => s, None => DEFAULT_COMMAND_TIMEOUT_SECS },
{
    match timeout_seconds {
        Some(s) => s,
        None => DEFAULT_COMMAND_TIMEOUT_SECS,
    }
}

/// The time-out of a command for which none is given: five minutes, for every command.
pub const DEFAULT_COMMAND_TIMEOUT_SECS: u64 = 300;

/// How long the VM manager waits for a command's result: the given number of seconds, or
/// five minutes for every command when none is given, so that no command has to be known in
/// advance to print a lot.
pub fn default_command_timeout(_command: &str, timeout_seconds: Option<u64>) -> (t: u64)
    ensures
        t == match timeout_seconds {
            Some(s) => s,
            None => DEFAULT_COMMAND_TIMEOUT_SECS,
        },
{
    command_timeout(timeout_seconds)
}

/// The command line sent to the machine: the command, a space, and the arguments joined
/// by spaces.
pub open spec fn spec_command_line(command: &VmCommand) -> Seq<char> {
    command.command@ + " "@ + join(views(command.args@), " "@)
}

/// The request sent to the machine's agent: a JSON object with the command line under
/// "command".
pub fn command_request_json(command: &VmCommand) -> (s: String)
    ensures
        s@ == "{\"command\":"@ + crate::json::json_quoted(spec_command_line(command)) + "}"@,
{
    let args = join_strings(&command.args, " ");
    let line = concat3(command.command.as_str(), " ", args.as_str());
    let quoted = json_quote(line.as_str());
    concat3("{\"command\":", quoted.as_str(), "}")
}

/// How the exchange with a machine's agent ended.
pub enum CommandExchange {
    /// The machine's VSOCK socket does not exist.
    SocketMissing { path: String },
    /// Connecting to the socket failed, for the given reason.
    ConnectFailed { reason: String },
    HandshakeSendFailed,
    HandshakeReadFailed,
    CommandSendFailed,
    ResponseReadFailed,
    /// The agent answered with these bytes.
    Response { bytes: Vec<u8> },
}

/// The error text of a failed exchange.
pub open spec fn spec_exchange_error(exchange: &CommandExchange) -> Seq<char> {
    match exchange {
        CommandExchange::SocketMissing { path } => "VSOCK socket not found: "@ + path@,
        CommandExchange::ConnectFailed { reason } => "Connection failed: "@ + reason@,
        CommandExchange::HandshakeSendFailed => "Handshake send failed"@,
        CommandExchange::HandshakeReadFailed => "Handshake read failed"@,
        CommandExchange::CommandSendFailed => "Failed to send command"@,
        CommandExchange::ResponseReadFailed => "Failed to read response"@,
        CommandExchange::Response { bytes } => if !vstd::utf8::valid_utf8(bytes@) {
            "Invalid UTF-8 in response"@
        } else {
            "Failed to parse JSON response"@
        },
    }
}

/// The parsed answer of the agent, when there is one.
pub open spec fn spec_exchange_answer(exchange: &CommandExchange) -> Option<JsonDocument> {
    match exchange {
        CommandExchange::Response { bytes } => if vstd::utf8::valid_utf8(bytes@) {
            json_document(vstd::utf8::decode_utf8(bytes@))
        } else {
            None
        },
        _ => None,
    }
}

/// Above this many bytes of output in all, a command's output is cut (10 MiB).
pub const OUTPUT_TOTAL_LIMIT: u64 = 10485760;

/// How many bytes of a command's output are kept when it is cut (5 MiB).
pub const STDOUT_KEPT: u64 = 5242880;

/// What is kept of a command's output before it is handed on: when the output and the
/// error output together take more than 10 MiB and the output alone more than 5 MiB, the
/// output is cut to its first 5 MiB (the whole characters that fit) followed by a note;
/// otherwise it is kept whole. Sizes are counted in bytes of UTF-8.
pub open spec fn spec_limited_stdout(stdout: Seq<char>, stderr: Seq<char>) -> Seq<char> {
    if utf8_size(stdout) + utf8_size(stderr) > OUTPUT_TOTAL_LIMIT && utf8_size(stdout) > STDOUT_KEPT {
        stdout.take(chars_within(stdout, STDOUT_KEPT as nat) as int) + "\n[TRUNCATED: Output too large]"@
    } else {
        stdout
    }
}

/// What is handed on of a command's output: the whole output unless the output and the
/// error output together take more than 10 MiB and the output alone more than 5 MiB; then
/// the longest start of the output that fits in 5 MiB, followed by the truncation note.
pub proof fn lemma_limited_stdout_keeps_longest_fit(stdout: Seq<char>, stderr: Seq<char>)
    ensures
        !(utf8_size(stdout) + utf8_size(stderr) > OUTPUT_TOTAL_LIMIT && utf8_size(stdout) > STDOUT_KEPT)
            ==> spec_limited_stdout(stdout, stderr) == stdout,
        utf8_size(stdout) + utf8_size(stderr) > OUTPUT_TOTAL_LIMIT && utf8_size(stdout) > STDOUT_KEPT ==> exists|k: int|
            0 <= k < stdout.len() && spec_limited_stdout(stdout, stderr) == stdout.take(k)
                + "\n[TRUNCATED: Output too large]"@ && utf8_size(#[trigger] stdout.take(k)) <= STDOUT_KEPT
                && utf8_size(stdout.take(k + 1)) > STDOUT_KEPT,
{
    if utf8_size(stdout) + utf8_size(stderr) > OUTPUT_TOTAL_LIMIT && utf8_size(stdout) > STDOUT_KEPT {
        let k = chars_within(stdout, STDOUT_KEPT as nat);
        crate::text::lemma_chars_within_is_longest_fit(stdout, STDOUT_KEPT as nat);
        if k == stdout.len() {
            assert(stdout.take(k as int) =~= stdout);
        }
        assert(utf8_size(stdout.take(k as int)) <= STDOUT_KEPT);
    }
}

/// Cuts a command's output that is too large to hand on (see `spec_limited_stdout`).
pub fn limited_stdout(stdout: String, stderr: &str) -> (r: String)
    ensures
        r@ == spec_limited_stdout(stdout@, stderr@),
{
    let a = utf8_size_up_to(stdout.as_str(), OUTPUT_TOTAL_LIMIT);
    let b = utf8_size_up_to(stderr, OUTPUT_TOTAL_LIMIT);
    if a + b > OUTPUT_TOTAL_LIMIT && a > STDOUT_KEPT {
        let kept = prefix_within(stdout.as_str(), STDOUT_KEPT);
        concat2(kept.as_str(), "\n[TRUNCATED: Output too large]")
    } else {
        stdout
    }
}

/// The result of a command from how its exchange ended: the agent's exit code (-1 when
/// absent, cut to 32 bits), its output (cut when too large, see `spec_limited_stdout`) and
/// its error output (empty when absent) when it answered with JSON; otherwise exit code -1, no output, and the error text.
pub fn command_result_from_exchange(id: &str, exchange: CommandExchange) -> (r: VmCommandResult)
    ensures
        r.id@ == id@,
        match spec_exchange_answer(&exchange) {
            Some(doc) => {
                let out = match doc.spec_str("stdout"@) { Some(s) => s, None => Seq::empty() };
                let err = match doc.spec_str("stderr"@) { Some(s) => s, None => Seq::empty() };
                &&& r.exit_code == (match doc.spec_i64("exit_code"@) { Some(n) => n, None => -1i64 }) as i32
                &&& r.stdout@ == spec_limited_stdout(out, err)
                &&& r.stderr@ == err
                &&& r.error is None
            },
            None => {
                &&& r.exit_code == -1
                &&& r.stdout@ == Seq::<char>::empty()
                &&& r.stderr@ == Seq::<char>::empty()
                &&& r.error is Some && r.error->0@ == spec_exchange_error(&exchange)
            },
        },
{
    let ghost ex = exchange;
    let error = match exchange {
        CommandExchange::SocketMissing { path } => concat2("VSOCK socket not found: ", path.as_str()),
        CommandExchange::ConnectFailed { reason } => concat2("Connection failed: ", reason.as_str()),
        CommandExchange::HandshakeSendFailed => owned("Handshake send failed"),
        CommandExchange::HandshakeReadFailed => owned("Handshake read failed"),
        CommandExchange::CommandSendFailed => owned("Failed to send command"),
        CommandExchange::ResponseReadFailed => owned("Failed to read response"),
        CommandExchange::Response { bytes } => {
            match string_from_utf8(bytes) {
                None => owned("Invalid UTF-8 in response"),
                Some(text) => {
                    match parse_json_document(text.as_str()) {
                        Some(doc) => {
                            let exit_code: i64 = match doc.get_i64("exit_code") {
                                Some(n) => n,
                                None => -1,
                            };
                            let stdout = match doc.get_str("stdout") {
                                Some(s) => s,
                                None => String::new(),
                            };
                            let stderr = match doc.get_str("stderr") {
                                Some(s) => s,
                                None => String::new(),
                            };
                            let stdout = limited_stdout(stdout, stderr.as_str());
                            return VmCommandResult {
                                id: owned(id),
                                exit_code: exit_code as i32,
                                stdout,
                                stderr,
                                error: None,
                            };
                        },
                        None => owned("Failed to parse JSON response"),
                    }
                },
            }
        },
    };
    VmCommandResult { id: owned(id), exit_code: -1, stdout: String::new(), stderr: String::new(), error: Some(error) }
}

/// How an exchange with a machine's agent ended, as the VM manager's own command processor
/// sees it (with the reasons of failures, and the handshake's answer checked).
pub enum AgentExchange {
    SocketMissing { path: String },
    ConnectFailed { reason: String },
    HandshakeSendFailed { reason: String },
    HandshakeReadFailed { reason: String },
    /// The bridge answered something other than "OK"; its answer, decoded leniently.
    HandshakeRefused { answer: String },
    WriteFailed { reason: String },
    FlushFailed { reason: String },
    /// The agent answered with these bytes (perhaps none).
    Response { bytes: Vec<u8> },
}

/// The error text of an exchange that gave no result.
pub open spec fn spec_agent_exchange_error(exchange: &AgentExchange) -> Seq<char> {
    match exchange {
        AgentExchange::SocketMissing { path } => "VSOCK socket not found: "@ + path@,
        AgentExchange::ConnectFailed { reason } => "Connection failed: "@ + reason@,
        AgentExchange::HandshakeSendFailed { reason } => "Handshake send failed: "@ + reason@,
        AgentExchange::HandshakeReadFailed { reason } => "Handshake read failed: "@ + reason@,
        AgentExchange::HandshakeRefused { answer } => "Handshake failed: "@ + crate::firecracker::trimmed(answer@),
        AgentExchange::WriteFailed { reason } => "Write failed: "@ + reason@,
        AgentExchange::FlushFailed { reason } => "Flush failed: "@ + reason@,
        AgentExchange::Response { bytes } => if bytes@.len() == 0 {
            "No response received"@
        } else if !vstd::utf8::valid_utf8(bytes@) {
            "Invalid UTF-8 response"@
        } else {
            "Invalid JSON response"@
        },
    }
}

/// The parsed answer of the agent, when there is one.
pub open spec fn spec_agent_exchange_answer(exchange: &AgentExchange) -> Option<JsonDocument> {
    match exchange {
        AgentExchange::Response { bytes } => if bytes@.len() > 0 && vstd::utf8::valid_utf8(bytes@) {
            json_document(vstd::utf8::decode_utf8(bytes@))
        } else {
            None
        },
        _ => None,
    }
}

/// The result of a command from how its exchange ended, as the VM manager's own command
/// processor makes it: from a JSON answer, the exit code when it is an integer (else -1, cut to 32
/// bits) and the outputs when they are strings (else empty), the output cut when too large
/// (see `spec_limited_stdout`); otherwise exit code -1, no
/// output, and the error text.
pub fn agent_exchange_result(id: &str, exchange: AgentExchange) -> (r: VmCommandResult)
    ensures
        r.id@ == id@,
        match spec_agent_exchange_answer(&exchange) {
            Some(doc) => {
                let out = match doc.spec_str("stdout"@) { Some(s) => s, None => Seq::empty() };
                let err = match doc.spec_str("stderr"@) { Some(s) => s, None => Seq::empty() };
                &&& r.exit_code == (match doc.spec_i64("exit_code"@) { Some(n) => n, None => -1i64 }) as i32
                &&& r.stdout@ == spec_limited_stdout(out, err)
                &&& r.stderr@ == err
                &&& r.error is None
            },
            None => {
                &&& r.exit_code == -1
                &&& r.stdout@ == Seq::<char>::empty()
                &&& r.stderr@ == Seq::<char>::empty()
                &&& r.error is Some && r.error->0@ == spec_agent_exchange_error(&exchange)
            },
        },
{
    let ghost ex = exchange;
    let error = match exchange {
        AgentExchange::SocketMissing { path } => concat2("VSOCK socket not found: ", path.as_str()),
        AgentExchange::ConnectFailed { reason } => concat2("Connection failed: ", reason.as_str()),
        AgentExchange::HandshakeSendFailed { reason } => concat2("Handshake send failed: ", reason.as_str()),
        AgentExchange::HandshakeReadFailed { reason } => concat2("Handshake read failed: ", reason.as_str()),
        AgentExchange::HandshakeRefused { answer } => {
            let v = crate::text::chars_of(answer.as_str());
            let (a, b) = crate::firecracker::trim_bounds(&v, 0, v.len());
            assert(v@.subrange(0, v@.len() as int) =~= answer@);
            let t = crate::text::slice_string(&v, a, b);
            concat2("Handshake failed: ", t.as_str())
        },
        AgentExchange::WriteFailed { reason } => concat2("Write failed: ", reason.as_str()),
        AgentExchange::FlushFailed { reason } => concat2("Flush failed: ", reason.as_str()),
        AgentExchange::Response { bytes } => {
            if bytes.len() == 0 {
                owned("No response received")
            } else {
                match string_from_utf8(bytes) {
                    None => owned("Invalid UTF-8 response"),
                    Some(text) => {
                        match parse_json_document(text.as_str()) {
                            Some(doc) => {
                                let exit_code: i64 = match doc.get_i64("exit_code") {
                                    Some(n) => n,
                                    None => -1,
                                };
                                let stdout = match doc.get_str("stdout") {
                                    Some(s) => s,
                                    None => String::new(),
                                };
                                let stderr = match doc.get_str("stderr") {
                                    Some(s) => s,
                                    None => String::new(),
                                };
                                let stdout = limited_stdout(stdout, stderr.as_str());
                                return VmCommandResult {
                                    id: owned(id),
                                    exit_code: exit_code as i32,
                                    stdout,
                                    stderr,
                                    error: None,
                                };
                            },
                            None => owned("Invalid JSON response"),
                        }
                    },
                }
            }
        },
    };
    VmCommandResult { id: owned(id), exit_code: -1, stdout: String::new(), stderr: String::new(), error: Some(error) }
}

/// Whether the bytes read so far are a whole answer: UTF-8 text that parses as JSON (the
/// VM manager's command processor stops reading then).
pub fn response_complete(bytes: &Vec<u8>) -> (b: bool)
    ensures
        b == (vstd::utf8::valid_utf8(bytes@) && json_document(vstd::utf8::decode_utf8(bytes@)) is Some),
{
    match string_from_utf8(bytes.clone()) {
        Some(text) => parse_json_document(text.as_str()).is_some(),
        None => false,
    }
}

/// What a machine's command processor does with the next command taken from its queue.
#[derive(Debug, Clone, Copy, PartialEq, Eq, Structural)]
pub enum ProcessorStep {
    /// The host is shutting down: the processor stops, and the command gets no result.
    Stop,
    /// The machine is no longer in the book: the command is passed over.
    Skip,
    /// The command is run, and its one result (`agent_exchange_result`, under the
    /// command's id) goes to the caller waiting for it.
    Run,
}

/// Decides what the command processor does with the next command: stop once shutting
/// down; else run it when its machine is still in the book, and pass over it when not.
pub fn processor_step(shutting_down: bool, machine_known: bool) -> (s: ProcessorStep)
    ensures
        s == (if shutting_down {
            ProcessorStep::Stop
        } else if machine_known {
            ProcessorStep::Run
        } else {
            ProcessorStep::Skip
        }),
{
    if shutting_down {
        ProcessorStep::Stop
    } else if machine_known {
        ProcessorStep::Run
    } else {
        ProcessorStep::Skip
    }
}

/// How long the VM manager's command processor reads the answer to a command (five
/// minutes), in 64 KiB pieces (`RESPONSE_READ_BUFFER` bytes), until it is complete.
pub const RESPONSE_READ_SECS: u64 = 300;

/// The size of each piece in which the answer to a command is read (64 KiB).
pub const RESPONSE_READ_BUFFER: usize = 65536;

/// What the caller of a command gets from its result: the output when the exit code is
/// 0, else "Command failed with exit code <code>: <error output>".
pub fn interpret_command_result(result: &VmCommandResult) -> (r: Result<String, String>)
    ensures
        result.exit_code == 0 ==> r is Ok && r->Ok_0@ == result.stdout@,
        result.exit_code != 0 ==> r is Err && r->Err_0@ == "Command failed with exit code "@
            + signed_decimal(result.exit_code as int) + ": "@ + result.stderr@,
{
    if result.exit_code == 0 {
        Ok(result.stdout.clone())
    } else {
        let code = i32_to_decimal(result.exit_code);
        Err(concat4("Command failed with exit code ", code.as_str(), ": ", result.stderr.as_str()))
    }
}

/// How waiting for a command's result ended.
pub enum CommandWait {
    Received(VmCommandResult),
    TimedOut,
    Disconnected,
}

/// What the caller of a command gets.
pub fn command_outcome(wait: CommandWait) -> (r: Result<String, String>)
    ensures
        match wait {
            CommandWait::Received(result) => {
                &&& result.exit_code == 0 ==> r is Ok && r->Ok_0@ == result.stdout@
                &&& result.exit_code != 0 ==> r is Err && r->Err_0@ == "Command failed with exit code "@
                    + signed_decimal(result.exit_code as int) + ": "@ + result.stderr@
            },
            CommandWait::TimedOut => r is Err && r->Err_0@ == "Command execution timed out"@,
            CommandWait::Disconnected => r is Err && r->Err_0@ == "VM disconnected while waiting for command result"@,
        },
{
    match wait {
        CommandWait::Received(result) => interpret_command_result(&result),
        CommandWait::TimedOut => Err(owned("Command execution timed out")),
        CommandWait::Disconnected => Err(owned("VM disconnected while waiting for command result")),
    }
}

/// The error of a command that could not be handed to the machine.
pub fn command_send_failed(reason: &str) -> (s: String)
    ensures
        s@ == "Failed to send command to VM: "@ + reason@,
{
    concat2("Failed to send command to VM: ", reason)
}

/// Whether an error means the channel to the machine broke, so that reconnecting may help.
pub open spec fn spec_is_channel_error(error: Seq<char>) -> bool {
    has_infix(error, "sending on a closed channel"@) || has_infix(error, "VM disconnected"@)
}

/// What to do after a failed attempt.
#[derive(Debug)]
pub enum RetryDecision {
    /// Reconnect, wait this many milliseconds, and try again.
    Retry { delay_ms: u64 },
    /// Report the error.
    GiveUp,
}

/// The wait before retry number `retries` (counted from 0): one second, doubled each time.
pub open spec fn spec_backoff_ms(retries: nat) -> nat {
    1000 * pow2(retries)
}

/// After a failed attempt with `error`, when `retries` retries have been made: retry a
/// channel error while fewer than `max_retries` retries have been made, else give up.
pub fn retry_decision(error: &str, retries: u32, max_retries: u32) -> (d: RetryDecision)
    requires
        max_retries <= 53,
    ensures
        (spec_is_channel_error(error@) && retries < max_retries) ==> (d matches RetryDecision::Retry { delay_ms }
            && delay_ms == spec_backoff_ms(retries as nat)),
        !(spec_is_channel_error(error@) && retries < max_retries) ==> d is GiveUp,
{
    if (contains(error, "sending on a closed channel") || contains(error, "VM disconnected")) && retries < max_retries {
        let mut delay: u64 = 1000;
        let mut i: u32 = 0;
        proof {
            lemma2_to64();
            lemma2_to64_rest();
        }
        while i < retries
            invariant
                i <= retries < 53,
                delay == 1000 * pow2(i as nat),
                pow2(53) == 0x20000000000000,
            decreases retries - i,
        {
            proof {
                lemma_pow2_strictly_increases((i + 1) as nat, 53);
                lemma_pow2_unfold((i + 1) as nat);
            }
            delay = delay * 2;
            i = i + 1;
        }
        RetryDecision::Retry { delay_ms: delay }
    } else {
        RetryDecision::GiveUp
    }
}

/// The total wait over the first `n` retries.
pub open spec fn spec_total_backoff_ms(n: nat) -> nat
    decreases n,
{
    if n == 0 {
        0
    } else {
        spec_total_backoff_ms((n - 1) as nat) + spec_backoff_ms((n - 1) as nat)
    }
}

/// The waits between a command's attempts add up to 1000 * (2^n - 1) milliseconds after
/// n retries.
pub proof fn lemma_total_backoff(n: nat)
    ensures
        spec_total_backoff_ms(n) + 1000 == 1000 * pow2(n),
    decreases n,
{
    if n == 0 {
        lemma2_to64();
    } else {
        lemma_total_backoff((n - 1) as nat);
        lemma_pow2_unfold(n);
    }
}

/// How many attempts are made when the attempts fail with `errors` in turn (attempt number
/// `retries` fails with `errors[retries]`), following `retry_decision`.
pub open spec fn spec_attempts_made(errors: Seq<Seq<char>>, retries: nat, max_retries: nat) -> nat
    decreases errors.len() - retries,
{
    if retries >= errors.len() {
        0
    } else if spec_is_channel_error(errors[retries as int]) && retries < max_retries {
        1 + spec_attempts_made(errors, retries + 1, max_retries)
    } else {
        1
    }
}

/// However the attempts fail, a command is tried at most `max_retries + 1` times.
pub proof fn lemma_attempts_bounded(errors: Seq<Seq<char>>, retries: nat, max_retries: nat)
    requires
        retries <= max_retries,
    ensures
        spec_attempts_made(errors, retries, max_retries) <= max_retries - retries + 1,
    decreases errors.len() - retries,
{
    if retries < errors.len() && spec_is_channel_error(errors[retries as int]) && retries < max_retries {
        lemma_attempts_bounded(errors, retries + 1, max_retries);
    }
}

/// Each retry waits twice as long as the one before.
pub proof fn lemma_backoff_doubles(retries: nat)
    ensures
        spec_backoff_ms(retries + 1) == 2 * spec_backoff_ms(retries),
{
    lemma_pow2_unfold(retries + 1);
}

/// A message that a machine's agent sends to the host's VSOCK server.
pub enum VmMessage {
    /// The machine announces itself.
    Register { vm_id: String, cid: u32 },
    /// The result of a command, for the machine `vm_id`.
    CommandResult { vm_id: String, result: VmCommandResult },
    /// Anything else.
    Unknown,
}

/// Reads a message of a machine's agent: its "type" says what it is; missing fields read as
/// "unknown" and 0 (registration), or as empty, -1 and no error (command result; numbers cut
/// to 32 bits).
pub fn read_vm_message(doc: &JsonDocument) -> (m: VmMessage)
    ensures
        match doc.spec_str("type"@) {
            Some(t) => if t == "register"@ {
                (m matches VmMessage::Register { vm_id, cid }
                    && vm_id@ == (match doc.spec_str("vm_id"@) { Some(s) => s, None => "unknown"@ })
                    && cid == (match doc.spec_u64("cid"@) { Some(n) => n, None => 0u64 }) as u32)
            } else if t == "command_result"@ {
                (m matches VmMessage::CommandResult { vm_id, result }
                    && vm_id@ == (match doc.spec_str("vm_id"@) { Some(s) => s, None => Seq::empty() })
                    && result.id@ == (match doc.spec_str("id"@) { Some(s) => s, None => Seq::empty() })
                    && result.exit_code == (match doc.spec_i64("exit_code"@) { Some(n) => n, None => -1i64 }) as i32
                    && result.stdout@ == (match doc.spec_str("stdout"@) { Some(s) => s, None => Seq::empty() })
                    && result.stderr@ == (match doc.spec_str("stderr"@) { Some(s) => s, None => Seq::empty() })
                    && (match doc.spec_str("error"@) {
                        Some(e) => result.error is Some && result.error->0@ == e,
                        None => result.error is None,
                    }))
            } else {
                m is Unknown
            },
            None => m is Unknown,
        },
{
    let kind = match doc.get_str("type") {
        Some(t) => t,
        None => {
            return VmMessage::Unknown;
        },
    };
    if kind == owned("register") {
        let vm_id = match doc.get_str("vm_id") {
            Some(s) => s,
            None => owned("unknown"),
        };
        let cid: u64 = match doc.get_u64("cid") {
            Some(n) => n,
            None => 0,
        };
        VmMessage::Register { vm_id, cid: cid as u32 }
    } else if kind == owned("command_result") {
        let or_empty = |s: Option<String>| -> (r: String)
            ensures
                r@ == (match s { Some(t) => t@, None => Seq::empty() }),
            {
                match s {
                    Some(t) => t,
                    None => String::new(),
                }
            };
        let exit_code: i64 = match doc.get_i64("exit_code") {
            Some(n) => n,
            None => -1,
        };
        let result = VmCommandResult {
            id: or_empty(doc.get_str("id")),
            exit_code: exit_code as i32,
            stdout: or_empty(doc.get_str("stdout")),
            stderr: or_empty(doc.get_str("stderr")),
            error: doc.get_str("error"),
        };
        VmMessage::CommandResult { vm_id: or_empty(doc.get_str("vm_id")), result }
    } else {
        VmMessage::Unknown
    }
}

/// The host's answer to a registration: `{"status":"success","type":"register_ack","vm_id":<id>}`.
pub fn register_ack_json(vm_id: &str) -> (s: String)
    ensures
        s@ == "{\"status\":\"success\",\"type\":\"register_ack\",\"vm_id\":"@ + crate::json::json_quoted(vm_id@) + "}"@,
{
    let q = json_quote(vm_id);
    concat3("{\"status\":\"success\",\"type\":\"register_ack\",\"vm_id\":", q.as_str(), "}")
}

/// The result that the machine's command loop starts from: exit code -1, nothing else.
pub fn pending_command_result(id: &str) -> (r: VmCommandResult)
    ensures
        r.id@ == id@,
        r.exit_code == -1,
        r.stdout@ == Seq::<char>::empty(),
        r.stderr@ == Seq::<char>::empty(),
        r.error is None,
{
    VmCommandResult { id: owned(id), exit_code: -1, stdout: String::new(), stderr: String::new(), error: None }
}

/// The command with which the host checks that a machine's command channel still works.
pub fn health_check_command() -> (c: VmCommand)
    ensures
        c.id@ == "health-check"@,
        c.command@ == "echo"@,
        c.args@.len() == 1 && c.args@[0]@ == "healthy"@,
        c.working_dir is None,
        c.timeout_seconds == Some(5u64),
        c.mode == crate::common::VmCommandMode::Foreground,
{
    let mut args: Vec<String> = Vec::new();
    args.push(owned("healthy"));
    VmCommand {
        id: owned("health-check"),
        command: owned("echo"),
        args,
        working_dir: None,
        timeout_seconds: Some(5),
        mode: crate::common::VmCommandMode::Foreground,
    }
}

} // verus!
