//! Guest agents: the records of a call into a guest and of its functions, the registry of
//! guest functions, and the two agents that come with the project (one reads the top
//! stories of Hacker News, one builds and drives virtual machines), each as the decisions
//! it makes on a call and what it asks of the host.
use vstd::prelude::*;
use crate::string_map::StringMap;
use crate::common::{AgentMessage, GuestMethod, HostMethod};
use crate::mcp_tool::{Tool, ToolInputSchema, SchemaProperty, property_view, properties_view, object_type_name, text_less};
use crate::json::{json_quote, json_quoted};
use crate::text::{concat2, concat3, concat4, u64_to_decimal, decimal, views};

verus! {

/// The type of a parameter of a guest function.
#[derive(Debug, Clone, Copy, PartialEq, Eq, Structural)]
pub enum ParameterType {
    Int,
    UInt,
    Long,
    ULong,
    Float,
    Double,
    String,
    Bool,
    VecBytes,
    ByteChunks,
}

/// The type of what a guest function returns.
#[derive(Debug, Clone, Copy, PartialEq, Eq, Structural)]
pub enum ReturnType {
    Int,
    UInt,
    Long,
    ULong,
    Float,
    Double,
    String,
    Bool,
    Void,
    VecBytes,
    ByteChunks,
}

/// A value passed to a guest function. `Other` stands for a floating-point number or a
/// list of byte chunks, which no agent here reads.
#[derive(Debug, Clone, PartialEq, Eq)]
pub enum ParameterValue {
    Int(i32),
    UInt(u32),
    Long(i64),
    ULong(u64),
    String(String),
    Bool(bool),
    VecBytes(Vec<u8>),
    Other,
}

/// A call of a guest function: its name, its parameters, and the type it should return.
#[derive(Debug, Clone, PartialEq, Eq)]
pub struct FunctionCall {
    pub function_name: String,
    pub parameters: Option<Vec<ParameterValue>>,
    pub expected_return_type: ReturnType,
}

/// Why a guest function failed.
#[derive(Debug, Clone, Copy, PartialEq, Eq, Structural)]
pub enum ErrorCode {
    NoError,
    UnsupportedParameterType,
    GuestFunctionNameNotProvided,
    GuestFunctionNotFound,
    GuestFunctionIncorrecNoOfParameters,
    GispatchFunctionPointerNotSet,
    OutbError,
    UnknownError,
    GsCheckFailed,
    TooManyGuestFunctions,
    FailureInDlmalloc,
    MallocFailed,
    GuestFunctionParameterTypeMismatch,
    GuestError,
    ArrayLengthParamIsMissing,
    HostFunctionError,
}

/// An error of a guest function: its code and message.
#[derive(Debug, Clone, PartialEq, Eq)]
pub struct GuestError {
    pub code: ErrorCode,
    pub message: String,
}

/// A guest function as the guest registers it: name, parameter types, return type, and the
/// address of its code.
#[derive(Debug, Clone, PartialEq, Eq)]
pub struct GuestFunctionDefinition {
    pub function_name: String,
    pub parameter_types: Vec<ParameterType>,
    pub return_type: ReturnType,
    pub function_pointer: usize,
}

/// The guest functions, by name; registering a name again replaces the earlier function.
pub struct GuestFunctionRegistry {
    functions: StringMap<GuestFunctionDefinition>,
}

impl GuestFunctionRegistry {
    pub closed spec fn wf(self) -> bool {
        self.functions.wf()
    }

    /// The registered functions by name.
    pub closed spec fn spec_functions(self) -> Map<Seq<char>, GuestFunctionDefinition> {
        self.functions@
    }

    /// No function registered.
    pub fn new() -> (r: Self)
        ensures
            r.wf(),
            r.spec_functions() == Map::<Seq<char>, GuestFunctionDefinition>::empty(),
    {
        GuestFunctionRegistry { functions: StringMap::new() }
    }

    /// Registers a function under its name.
    pub fn register(&mut self, definition: GuestFunctionDefinition)
        requires
            old(self).wf(),
        ensures
            final(self).wf(),
            final(self).spec_functions() == old(self).spec_functions().insert(
                definition.function_name@,
                definition,
            ),
    {
        let name = definition.function_name.clone();
        self.functions.insert(name, definition);
    }

    /// The function registered under `name`.
    pub fn get(&self, name: &str) -> (r: Option<&GuestFunctionDefinition>)
        requires
            self.wf(),
        ensures
            match r {
                Some(d) => self.spec_functions().contains_key(name@) && *d == self.spec_functions()[name@],
                None => !self.spec_functions().contains_key(name@),
            },
    {
        self.functions.get(name)
    }
}

/// Registers a guest function with the given name, parameter types, return type, and the
/// address of its code.
pub fn register_guest_function(
    registry: &mut GuestFunctionRegistry,
    name: &str,
    params: &[ParameterType],
    ret: ReturnType,
    func: usize,
)
    requires
        old(registry).wf(),
    ensures
        final(registry).wf(),
        final(registry).spec_functions().dom() == old(registry).spec_functions().dom().insert(name@),
        ({
            let d = final(registry).spec_functions()[name@];
            &&& d.function_name@ == name@
            &&& d.parameter_types@ == params@
            &&& d.return_type == ret
            &&& d.function_pointer == func
        }),
        forall|k: Seq<char>|
            k != name@ && #[trigger] old(registry).spec_functions().contains_key(k)
                ==> final(registry).spec_functions()[k] == old(registry).spec_functions()[k],
{
    let definition = GuestFunctionDefinition {
        function_name: String::from_str(name),
        parameter_types: vstd::slice::slice_to_vec(params),
        return_type: ret,
        function_pointer: func,
    };
    registry.register(definition);
}

/// The answer of a guest that offers no function by the name called: "not found", with
/// the name.
pub fn default_guest_dispatch_function(function_call: FunctionCall) -> (r: Result<Vec<u8>, GuestError>)
    ensures
        r matches Err(e) && e.code == ErrorCode::GuestFunctionNotFound && e.message
            == function_call.function_name,
{
    Err(GuestError { code: ErrorCode::GuestFunctionNotFound, message: function_call.function_name })
}

/// What a guest function asks of the host.
#[derive(Debug, Clone)]
pub enum GuestStep {
    /// Send this message to the host function `method`.
    SendToHost { method: String, message: AgentMessage },
    /// Call the host function `method` with these strings.
    CallHost { method: String, args: Vec<String> },
    /// Answer the caller with this text.
    Reply(String),
}

/// The first parameter of a call, when it is a string.
pub open spec fn first_string(call: FunctionCall) -> Option<Seq<char>> {
    match call.parameters {
        Some(ps) => if ps.len() > 0 {
            match ps[0] {
                ParameterValue::String(s) => Some(s@),
                _ => None,
            }
        } else {
            None
        },
        None => None,
    }
}

/// The first parameter of a call, when it is a string.
pub fn first_string_parameter(call: &FunctionCall) -> (r: Option<String>)
    ensures
        match r {
            Some(s) => first_string(*call) == Some(s@),
            None => first_string(*call) is None,
        },
{
    match &call.parameters {
        Some(ps) => if ps.len() > 0 {
            match &ps[0] {
                ParameterValue::String(s) => Some(s.clone()),
                _ => None,
            }
        } else {
            None
        },
        None => None,
    }
}

/// The page whose top stories the news agent reads.
pub open spec fn news_url() -> Seq<char> {
    "https://news.ycombinator.com/"@
}

/// The guest function that takes the fetched page.
pub open spec fn process_http_response_name() -> Seq<char> {
    "ProcessHttpResponse"@
}

/// The news agent's `Run`: asks the host to fetch the page, to be handed back to
/// `ProcessHttpResponse`.
pub fn top_hn_run() -> (s: GuestStep)
    ensures
        s matches GuestStep::SendToHost { method, message } && {
            &&& method@ == HostMethod::FetchData.spec_name()
            &&& message.callback matches Some(c) && c@ == process_http_response_name()
            &&& message.message matches Some(m) && m@ == news_url()
            &&& message.guest_message is None
            &&& message.is_success
        },
{
    let message = AgentMessage {
        callback: Some(String::from_str("ProcessHttpResponse")),
        message: Some(String::from_str("https://news.ycombinator.com/")),
        guest_message: None,
        is_success: true,
    };
    GuestStep::SendToHost { method: String::from_str(HostMethod::FetchData.as_ref()), message }
}

/// The pattern of a story's link on the page: the URL and the title.
pub open spec fn title_link_pattern() -> Seq<char> {
    "<span class=\"titleline\"><a href=\"([^\"]+)\">([^<]+)</a>"@
}

/// Groups 1 and 2 of the successive matches of a regular expression in a text, each
/// `None` where the group took no part in the match; `None` when the pattern is not a valid
/// regular expression.
pub uninterp spec fn regex_captures(pattern: Seq<char>, text: Seq<char>) -> Option<Seq<(Option<Seq<char>>, Option<Seq<char>>)>>;

/// The captures in which both groups took part, as (first group, second group) pairs, in
/// order.
pub open spec fn both_groups(captures: Seq<(Option<Seq<char>>, Option<Seq<char>>)>) -> Seq<(Seq<char>, Seq<char>)>
    decreases captures.len(),
{
    if captures.len() == 0 {
        Seq::empty()
    } else {
        let rest = both_groups(captures.drop_last());
        match captures.last() {
            (Some(a), Some(b)) => rest.push((a, b)),
            _ => rest,
        }
    }
}

/// The (first group, second group) pairs of the successive matches of a regular expression
/// in a text, where both groups took part; `None` when the pattern is not a valid regular
/// expression.
pub open spec fn regex_pairs(pattern: Seq<char>, text: Seq<char>) -> Option<Seq<(Seq<char>, Seq<char>)>> {
    match regex_captures(pattern, text) {
        Some(c) => Some(both_groups(c)),
        None => None,
    }
}

/// The view of an optional text.
pub open spec fn opt_view(o: Option<String>) -> Option<Seq<char>> {
    match o {
        Some(s) => Some(s@),
        None => None,
    }
}

/// `regex::Regex::new`, then groups 1 and 2 of each item of `captures_iter`. Trusted: the
/// result is `regex_captures` of the pattern and the text.
#[verifier::external_body]
fn capture_groups(pattern: &str, text: &str) -> (r: Option<Vec<(Option<String>, Option<String>)>>)
    ensures
        match r {
            Some(v) => regex_captures(pattern@, text@) == Some(
                v@.map_values(|p: (Option<String>, Option<String>)| (opt_view(p.0), opt_view(p.1))),
            ),
            None => regex_captures(pattern@, text@) is None,
        },
{
    let re = regex::Regex::new(pattern).ok()?;
    Some(re.captures_iter(text).map(|c| (c.get(1).map(|m| m.as_str().to_string()), c.get(2).map(|m| m.as_str().to_string()))).collect())
}

/// The captures in which both groups took part, as pairs, in order.
fn keep_both_groups(captures: Vec<(Option<String>, Option<String>)>) -> (r: Vec<(String, String)>)
    ensures
        r@.map_values(|p: (String, String)| (p.0@, p.1@)) == both_groups(
            captures@.map_values(|p: (Option<String>, Option<String>)| (opt_view(p.0), opt_view(p.1))),
        ),
{
    let ghost cv = captures@.map_values(|p: (Option<String>, Option<String>)| (opt_view(p.0), opt_view(p.1)));
    let mut out: Vec<(String, String)> = Vec::new();
    let mut i: usize = 0;
    while i < captures.len()
        invariant
            i <= captures@.len(),
            cv == captures@.map_values(|p: (Option<String>, Option<String>)| (opt_view(p.0), opt_view(p.1))),
            out@.map_values(|p: (String, String)| (p.0@, p.1@)) == both_groups(cv.subrange(0, i as int)),
        decreases captures@.len() - i,
    {
        proof {
            assert(cv.subrange(0, i + 1).drop_last() =~= cv.subrange(0, i as int));
            assert(cv.subrange(0, i + 1).last() == cv[i as int]);
        }
        let ghost before = out@;
        match &captures[i] {
            (Some(a), Some(b)) => {
                out.push((a.clone(), b.clone()));
                assert(out@.map_values(|p: (String, String)| (p.0@, p.1@)) =~= before.map_values(
                    |p: (String, String)| (p.0@, p.1@),
                ).push((a@, b@)));
            },
            _ => {},
        }
        i = i + 1;
    }
    assert(cv.subrange(0, captures@.len() as int) =~= cv);
    out
}

/// The (URL, title) pairs of the stories on a page, in order: the matches of the link
/// pattern in which both the URL and the title were found.
pub fn find_title_links(html: &str) -> (r: Vec<(String, String)>)
    ensures
        match regex_pairs(title_link_pattern(), html@) {
            Some(pairs) => r@.map_values(|p: (String, String)| (p.0@, p.1@)) == pairs,
            None => r@.len() == 0,
        },
{
    match capture_groups("<span class=\"titleline\"><a href=\"([^\"]+)\">([^<]+)</a>", html) {
        Some(v) => keep_both_groups(v),
        None => Vec::new(),
    }
}

/// The list of stories: a heading, then for each story its number, title and URL.
pub open spec fn stories_text(links: Seq<(Seq<char>, Seq<char>)>) -> Seq<char>
    decreases links.len(),
{
    if links.len() == 0 {
        "Top Hacker News stories:\n"@
    } else {
        let (url, title) = links.last();
        stories_text(links.drop_last()) + decimal(links.len()) + ". "@ + title + " - "@ + url + "\n"@
    }
}

/// Writes the list of stories.
pub fn format_stories(links: &Vec<(String, String)>) -> (s: String)
    ensures
        s@ == stories_text(links@.map_values(|p: (String, String)| (p.0@, p.1@))),
{
    let ghost all = links@.map_values(|p: (String, String)| (p.0@, p.1@));
    let mut s = String::from_str("Top Hacker News stories:\n");
    let mut i: usize = 0;
    while i < links.len()
        invariant
            i <= links@.len(),
            all == links@.map_values(|p: (String, String)| (p.0@, p.1@)),
            s@ == stories_text(all.subrange(0, i as int)),
        decreases links@.len() - i,
    {
        proof {
            assert(all.subrange(0, i + 1).drop_last() =~= all.subrange(0, i as int));
            assert(all.subrange(0, i + 1).last() == all[i as int]);
        }
        let n = u64_to_decimal((i as u64) + 1);
        s.append(n.as_str());
        s.append(". ");
        s.append(links[i].1.as_str());
        s.append(" - ");
        s.append(links[i].0.as_str());
        s.append("\n");
        i = i + 1;
    }
    assert(all.subrange(0, links@.len() as int) =~= all);
    s
}

/// The news agent's `ProcessHttpResponse`: the stories on the fetched page (the call's
/// first parameter) are sent to the host as the final result; a call without a string is
/// refused.
pub fn top_hn_process_http_response(call: &FunctionCall) -> (r: Result<GuestStep, GuestError>)
    ensures
        match first_string(*call) {
            Some(html) => r matches Ok(GuestStep::SendToHost { method, message }) && {
                &&& method@ == HostMethod::FinalResult.spec_name()
                &&& message.callback is None
                &&& message.message matches Some(m) && m@ == stories_text(
                    match regex_pairs(title_link_pattern(), html) {
                        Some(pairs) => pairs,
                        None => Seq::empty(),
                    },
                )
                &&& message.guest_message is None
                &&& message.is_success
            },
            None => r matches Err(e) && e.code == ErrorCode::GuestFunctionParameterTypeMismatch
                && e.message@ == "Invalid parameters passed to process_http_response"@,
        },
{
    match first_string_parameter(call) {
        Some(html) => {
            let links = find_title_links(html.as_str());
            let text = format_stories(&links);
            proof {
                if regex_pairs(title_link_pattern(), html@) is None {
                    assert(links@.map_values(|p: (String, String)| (p.0@, p.1@)) =~= Seq::empty());
                }
            }
            let message = AgentMessage { callback: None, message: Some(text), guest_message: None, is_success: true };
            Ok(GuestStep::SendToHost { method: String::from_str(HostMethod::FinalResult.as_ref()), message })
        },
        None => Err(
            GuestError {
                code: ErrorCode::GuestFunctionParameterTypeMismatch,
                message: String::from_str("Invalid parameters passed to process_http_response"),
            },
        ),
    }
}

/// The news agent's tool: no parameters.
pub fn top_hn_tool() -> (t: Tool)
    ensures
        t.name@ == "Top HN Links"@,
        t.description matches Some(d) && d@ == "Fetches the top links from Hacker News"@,
        t.input_schema.spec_required().len() == 0,
        t.input_schema.spec_properties() is None,
        t.annotations is None && t.output_schema is None && t.title is None && t.meta is None,
{
    Tool {
        name: String::from_str("Top HN Links"),
        description: Some(String::from_str("Fetches the top links from Hacker News")),
        annotations: None,
        input_schema: ToolInputSchema::new(Vec::new(), None),
        output_schema: None,
        title: None,
        meta: None,
    }
}

/// What the debug form (`{:?}`) of a string is.
pub uninterp spec fn debug_quoted(s: Seq<char>) -> Seq<char>;

/// Whether every character of `s` is printable ASCII other than a double quote or a
/// backslash, so that its debug form only adds the quotes.
pub open spec fn debug_plain(s: Seq<char>) -> bool {
    forall|i: int| 0 <= i < s.len() ==> ' ' <= #[trigger] s[i] && s[i] <= '~' && s[i] != '"' && s[i] != '\\'
}

/// `format!("{:?}", s)` for a string. Trusted: the result is `debug_quoted` of the string;
/// printable ASCII other than a quote or a backslash is written unchanged between two
/// quotes (std's escaping leaves those characters alone).
#[verifier::external_body]
pub fn debug_quote(s: &str) -> (r: String)
    ensures
        r@ == debug_quoted(s@),
        debug_plain(s@) ==> r@ == seq!['"'] + s@ + seq!['"'],
{
    format!("{:?}", s)
}

/// The parameters of a call of the machine builder.
#[derive(Debug, Clone, PartialEq, Eq)]
pub struct VmActionParams {
    pub action: String,
    pub vm_id: Option<String>,
    pub command: Option<String>,
}

/// The error for parameters that cannot be read.
pub open spec fn unreadable_params_error(e: GuestError) -> bool {
    e.code == ErrorCode::GuestFunctionParameterTypeMismatch && e.message@ == "Failed to parse VM action parameters"@
}

/// The machine builder's `Run` on its parameters as read from their JSON text: `None` when
/// the text could not be read as `VmActionParams` (the reading is serde's own, derived for
/// that record's copy in app/, as it is a serde parse into a record of the library), which
/// is answered with the parameter error; else the host call for the action.
pub fn vm_builder_run(params: Option<VmActionParams>) -> (r: Result<GuestStep, GuestError>)
    ensures
        match params {
            None => r matches Err(e) && unreadable_params_error(e),
            Some(p) => spec_vm_action_outcome(p, r),
        },
{
    match params {
        None => Err(GuestError {
            code: ErrorCode::GuestFunctionParameterTypeMismatch,
            message: String::from_str("Failed to parse VM action parameters"),
        }),
        Some(p) => vm_action_call(p),
    }
}

/// The guest functions that take the host's answers, by kind.
pub open spec fn creation_callback() -> Seq<char> {
    "ProcessVmCreationResult"@
}

pub open spec fn command_callback() -> Seq<char> {
    "ProcessVmCommandResult"@
}

pub open spec fn destruction_callback() -> Seq<char> {
    "ProcessVmDestructionResult"@
}

pub open spec fn list_callback() -> Seq<char> {
    "ProcessVmListResult"@
}

/// The message for an action that is not known.
pub open spec fn invalid_action_message(action: Seq<char>) -> Seq<char> {
    "VM action invalid, must be one of: create_vm, execute_vm_command, spawn_command, list_spawned_processes, stop_spawned_process, destroy_vm, list_vms. Got "@
        + debug_quoted(action)
}

/// The host call that an action makes, as (method, arguments), with the machine id
/// defaulting to `default_vm` and the command to the empty text; `None` for an unknown
/// action.
pub open spec fn spec_vm_action_call(action: Seq<char>, vm_id: Seq<char>, command: Seq<char>) -> Option<(Seq<char>, Seq<Seq<char>>)> {
    if action == "create_vm"@ {
        Some((HostMethod::CreateVM.spec_name(), seq![vm_id, creation_callback()]))
    } else if action == "execute_vm_command"@ {
        Some((HostMethod::ExecuteVMCommand.spec_name(), seq![vm_id, command, command_callback()]))
    } else if action == "spawn_command"@ {
        Some((HostMethod::SpawnCommand.spec_name(), seq![vm_id, command, command_callback()]))
    } else if action == "list_spawned_processes"@ {
        Some((HostMethod::ListSpawnedProcesses.spec_name(), seq![vm_id, list_callback()]))
    } else if action == "stop_spawned_process"@ {
        Some((HostMethod::StopSpawnedProcess.spec_name(), seq![vm_id, command, command_callback()]))
    } else if action == "destroy_vm"@ {
        Some((HostMethod::DestroyVM.spec_name(), seq![vm_id, destruction_callback()]))
    } else if action == "list_vms"@ {
        Some((HostMethod::ListVMs.spec_name(), seq![Seq::<char>::empty(), list_callback()]))
    } else {
        None
    }
}

/// What the machine builder's `Run` gives for its parameters: the host call for the action
/// (the machine id defaulting to `default_vm`, the command to the empty text), or an error
/// for an unknown action.
pub open spec fn spec_vm_action_outcome(params: VmActionParams, r: Result<GuestStep, GuestError>) -> bool {
    let vm_id = match params.vm_id {
        Some(v) => v@,
        None => "default_vm"@,
    };
    let command = match params.command {
        Some(c) => c@,
        None => Seq::<char>::empty(),
    };
    match spec_vm_action_call(params.action@, vm_id, command) {
        Some((method, args)) => r matches Ok(GuestStep::CallHost { method: m, args: a }) && m@ == method
            && views(a@) == args,
        None => r matches Err(e) && e.code == ErrorCode::GuestFunctionParameterTypeMismatch
            && e.message@ == invalid_action_message(params.action@),
    }
}

/// The actions that work on one machine.
pub open spec fn targets_machine(action: Seq<char>) -> bool {
    action == "create_vm"@ || action == "execute_vm_command"@ || action == "spawn_command"@
        || action == "list_spawned_processes"@ || action == "stop_spawned_process"@ || action == "destroy_vm"@
}

/// The actions that pass a command on.
pub open spec fn passes_command(action: Seq<char>) -> bool {
    action == "execute_vm_command"@ || action == "spawn_command"@ || action == "stop_spawned_process"@
}

/// What the machine builder asks of the host for its parameters: an action that works on a
/// machine calls the host with that machine, the one given or else `default_vm`, as the first
/// argument; an action that passes a command on gives it (or the empty text) as the second;
/// listing the machines names none; every call ends with the guest function that takes the
/// answer; and any other action is refused with an error.
pub proof fn lemma_vm_actions_use_given_machine(params: VmActionParams, r: Result<GuestStep, GuestError>)
    requires
        spec_vm_action_outcome(params, r),
    ensures
        targets_machine(params.action@) ==> (r matches Ok(GuestStep::CallHost { method, args }) && args@.len() >= 2
            && args@[0]@ == (match params.vm_id {
            Some(v) => v@,
            None => "default_vm"@,
        })),
        passes_command(params.action@) ==> (r matches Ok(GuestStep::CallHost { method, args }) && args@.len() == 3
            && args@[1]@ == (match params.command {
            Some(c) => c@,
            None => Seq::<char>::empty(),
        })),
        params.action@ == "list_vms"@ ==> (r matches Ok(GuestStep::CallHost { method, args }) && args@.len() == 2
            && args@[0]@ == Seq::<char>::empty()),
        params.action@ == "create_vm"@ ==> (r matches Ok(GuestStep::CallHost { method, args }) && args@.last()@
            == "ProcessVmCreationResult"@),
        params.action@ == "destroy_vm"@ ==> (r matches Ok(GuestStep::CallHost { method, args }) && args@.last()@
            == "ProcessVmDestructionResult"@),
        passes_command(params.action@) ==> (r matches Ok(GuestStep::CallHost { method, args }) && args@.last()@
            == "ProcessVmCommandResult"@),
        (params.action@ == "list_vms"@ || params.action@ == "list_spawned_processes"@) ==> (r matches Ok(
            GuestStep::CallHost { method, args },
        ) && args@.last()@ == "ProcessVmListResult"@),
        !targets_machine(params.action@) && params.action@ != "list_vms"@ ==> r is Err,
{
    reveal_strlit("create_vm");
    reveal_strlit("execute_vm_command");
    reveal_strlit("spawn_command");
    reveal_strlit("list_spawned_processes");
    reveal_strlit("stop_spawned_process");
    reveal_strlit("destroy_vm");
    reveal_strlit("list_vms");
    assert("create_vm"@.len() == 9);
    assert("execute_vm_command"@.len() == 18);
    assert("spawn_command"@.len() == 13);
    assert("list_spawned_processes"@.len() == 22);
    assert("stop_spawned_process"@.len() == 20);
    assert("destroy_vm"@.len() == 10);
    assert("list_vms"@.len() == 8);
    if let Ok(GuestStep::CallHost { method, args }) = r {
        let vm_id = match params.vm_id {
            Some(v) => v@,
            None => "default_vm"@,
        };
        let command = match params.command {
            Some(c) => c@,
            None => Seq::<char>::empty(),
        };
        let expected = spec_vm_action_call(params.action@, vm_id, command);
        if let Some((m, a)) = expected {
            assert(views(args@) == a);
            assert(args@.len() == a.len());
            assert forall|k: int| 0 <= k < a.len() implies #[trigger] args@[k]@ == a[k] by {
                assert(views(args@)[k] == args@[k]@);
            }
            if params.action@ == "execute_vm_command"@ {
                assert(a == seq![vm_id, command, command_callback()]);
                assert(a[1] == command);
            } else if params.action@ == "spawn_command"@ {
                assert(a == seq![vm_id, command, command_callback()]);
                assert(a[1] == command);
            } else if params.action@ == "stop_spawned_process"@ {
                assert(a == seq![vm_id, command, command_callback()]);
                assert(a[1] == command);
            } else if params.action@ == "list_vms"@ {
                assert(a == seq![Seq::<char>::empty(), list_callback()]);
                assert(a[0] == Seq::<char>::empty());
            }
        }
    }
}

/// The machine builder's `Run`: the host call for the action, or an error for an unknown
/// action.
pub fn vm_action_call(params: VmActionParams) -> (r: Result<GuestStep, GuestError>)
    ensures
        spec_vm_action_outcome(params, r),
{
    let vm_id = match params.vm_id {
        Some(v) => v,
        None => String::from_str("default_vm"),
    };
    let command = match params.command {
        Some(c) => c,
        None => String::new(),
    };
    let a = params.action.as_str();
    let (method, args): (HostMethod, Vec<String>) = if crate::mcp_http::same_text(a, "create_vm") {
        (HostMethod::CreateVM, vec![vm_id, String::from_str("ProcessVmCreationResult")])
    } else if crate::mcp_http::same_text(a, "execute_vm_command") {
        (HostMethod::ExecuteVMCommand, vec![vm_id, command, String::from_str("ProcessVmCommandResult")])
    } else if crate::mcp_http::same_text(a, "spawn_command") {
        (HostMethod::SpawnCommand, vec![vm_id, command, String::from_str("ProcessVmCommandResult")])
    } else if crate::mcp_http::same_text(a, "list_spawned_processes") {
        (HostMethod::ListSpawnedProcesses, vec![vm_id, String::from_str("ProcessVmListResult")])
    } else if crate::mcp_http::same_text(a, "stop_spawned_process") {
        (HostMethod::StopSpawnedProcess, vec![vm_id, command, String::from_str("ProcessVmCommandResult")])
    } else if crate::mcp_http::same_text(a, "destroy_vm") {
        (HostMethod::DestroyVM, vec![vm_id, String::from_str("ProcessVmDestructionResult")])
    } else if crate::mcp_http::same_text(a, "list_vms") {
        (HostMethod::ListVMs, vec![String::new(), String::from_str("ProcessVmListResult")])
    } else {
        let q = debug_quote(a);
        let message = concat2(
            "VM action invalid, must be one of: create_vm, execute_vm_command, spawn_command, list_spawned_processes, stop_spawned_process, destroy_vm, list_vms. Got ",
            q.as_str(),
        );
        return Err(GuestError { code: ErrorCode::GuestFunctionParameterTypeMismatch, message });
    };
    proof {
        let (expected_method, expected_args) = spec_vm_action_call(params.action@, vm_id@, command@).unwrap();
        assert(views(args@) =~= expected_args);
    }
    Ok(GuestStep::CallHost { method: String::from_str(method.as_ref()), args })
}

/// The machine builder's answer once the host call is made: its reply, or the debug form
/// of its error.
pub fn vm_operation_reply(action: &str, outcome: Result<String, String>) -> (s: String)
    ensures
        match outcome {
            Ok(resp) => s@ == "VM operation OK: "@ + debug_quoted(action@) + " - "@ + resp@,
            Err(e) => s@ == "VM operation failed "@ + e@,
        },
{
    match outcome {
        Ok(resp) => {
            let q = debug_quote(action);
            concat4("VM operation OK: ", q.as_str(), " - ", resp.as_str())
        },
        Err(e) => concat2("VM operation failed ", e.as_str()),
    }
}

/// The machine builder's answer to a call whose parameter is not a string.
pub fn vm_action_not_string() -> (e: GuestError)
    ensures
        e.code == ErrorCode::GuestFunctionParameterTypeMismatch,
        e.message@ == "VM action invalid, expected string parameter"@,
{
    GuestError {
        code: ErrorCode::GuestFunctionParameterTypeMismatch,
        message: String::from_str("VM action invalid, expected string parameter"),
    }
}

/// The machine builder's handling of the host's answer about a machine: the answer (the
/// call's first parameter) is sent to the host as the final result under `label`; without
/// one, the reply is "<label> processed".
pub fn process_result(call: &FunctionCall, label: &str) -> (s: GuestStep)
    ensures
        match first_string(*call) {
            Some(resp) => s matches GuestStep::SendToHost { method, message } && {
                &&& method@ == HostMethod::FinalResult.spec_name()
                &&& message.callback is None
                &&& message.message matches Some(m) && m@ == resp
                &&& message.guest_message matches Some(g) && g@ == label@
                &&& message.is_success
            },
            None => s matches GuestStep::Reply(t) && t@ == label@ + " processed"@,
        },
{
    match first_string_parameter(call) {
        Some(resp) => {
            let message = AgentMessage {
                callback: None,
                message: Some(resp),
                guest_message: Some(String::from_str(label)),
                is_success: true,
            };
            GuestStep::SendToHost { method: String::from_str(HostMethod::FinalResult.as_ref()), message }
        },
        None => GuestStep::Reply(concat2(label, " processed")),
    }
}

/// The machine builder's handling of a list of machines: when the call has parameters
/// (their debug form is given), it sends "Available VMs: ..." to the host as the final
/// result; else it replies that the list was processed.
pub fn process_vm_list_result(parameters_debug: Option<String>) -> (s: GuestStep)
    ensures
        match parameters_debug {
            Some(d) => s matches GuestStep::SendToHost { method, message } && {
                &&& method@ == HostMethod::FinalResult.spec_name()
                &&& message.callback is None
                &&& message.message matches Some(m) && m@ == "Available VMs: "@ + d@
                &&& message.guest_message is None
                &&& message.is_success
            },
            None => s matches GuestStep::Reply(t) && t@ == "VM list result processed"@,
        },
{
    match parameters_debug {
        Some(d) => {
            let message = AgentMessage {
                callback: None,
                message: Some(concat2("Available VMs: ", d.as_str())),
                guest_message: None,
                is_success: true,
            };
            GuestStep::SendToHost { method: String::from_str(HostMethod::FinalResult.as_ref()), message }
        },
        None => GuestStep::Reply(String::from_str("VM list result processed")),
    }
}

/// What the machine builder's `action` parameter is.
pub const VM_ACTION_DESCRIPTION: &'static str = "Action to perform, must be one of: create_vm, execute_vm_command, spawn_command, list_spawned_processes, stop_spawned_process, destroy_vm, list_vms";

/// What the machine builder's `vm_id` parameter is.
pub const VM_ID_DESCRIPTION: &'static str = "ID of the VM to operate on";

/// What the machine builder's `command` parameter is.
pub const VM_COMMAND_DESCRIPTION: &'static str = "Command to execute in the VM, arguments for spawn_command, or process_id for stop_spawned_process";

/// A property of type "string" with a description, as plain values.
pub open spec fn string_property(name: Seq<char>, description: Seq<char>) -> (Seq<char>, Seq<(Seq<char>, Seq<char>)>) {
    (name, seq![("type"@, json_quoted("string"@)), ("description"@, json_quoted(description))])
}

/// A property of type "string" with a description.
fn string_property_of(name: &str, description: &str) -> (p: SchemaProperty)
    ensures
        property_view(p) == string_property(name@, description@),
{
    let fields = vec![
        (String::from_str("type"), json_quote("string")),
        (String::from_str("description"), json_quote(description)),
    ];
    let p = SchemaProperty { name: String::from_str(name), fields };
    assert(property_view(p).1 =~= string_property(name@, description@).1);
    p
}

/// The machine builder's tool: an action (required), a command and a machine id
/// (required), each a string with its description, in the order of their names.
pub fn vm_builder_tool() -> (t: Tool)
    ensures
        t.name@ == "VmBuilder"@,
        t.description matches Some(d) && d@ == "An Agent that can create VMs and execute build/test commands in them"@,
        views(t.input_schema.spec_required()) == seq!["action"@, "vm_id"@],
        t.input_schema.spec_properties() == Some(seq![
            string_property("action"@, VM_ACTION_DESCRIPTION@),
            string_property("command"@, VM_COMMAND_DESCRIPTION@),
            string_property("vm_id"@, VM_ID_DESCRIPTION@),
        ]),
        t.input_schema.spec_type() == object_type_name(),
        t.annotations is None && t.output_schema is None && t.title is None && t.meta is None,
{
    let params = vec![
        string_property_of("action", VM_ACTION_DESCRIPTION),
        string_property_of("command", VM_COMMAND_DESCRIPTION),
        string_property_of("vm_id", VM_ID_DESCRIPTION),
    ];
    proof {
        reveal_strlit("action");
        reveal_strlit("command");
        reveal_strlit("vm_id");
        assert(text_less("action"@, "command"@));
        assert(text_less("action"@, "vm_id"@));
        assert(text_less("command"@, "vm_id"@));
    }
    let required = vec![String::from_str("action"), String::from_str("vm_id")];
    assert(views(required@) =~= seq!["action"@, "vm_id"@]);
    assert(properties_view(Some(params)) == Some(seq![
        string_property("action"@, VM_ACTION_DESCRIPTION@),
        string_property("command"@, VM_COMMAND_DESCRIPTION@),
        string_property("vm_id"@, VM_ID_DESCRIPTION@),
    ])) by {
        assert(params@.map_values(|p: SchemaProperty| property_view(p)) =~= seq![
            string_property("action"@, VM_ACTION_DESCRIPTION@),
            string_property("command"@, VM_COMMAND_DESCRIPTION@),
            string_property("vm_id"@, VM_ID_DESCRIPTION@),
        ]);
    }
    Tool {
        name: String::from_str("VmBuilder"),
        description: Some(String::from_str("An Agent that can create VMs and execute build/test commands in them")),
        annotations: None,
        input_schema: ToolInputSchema::new(required, Some(params)),
        output_schema: None,
        title: None,
        meta: None,
    }
}

/// The guest functions of the machine builder, registered with the addresses of their code:
/// `Run` and the four result handlers take a string, `GetMCPTool` takes nothing; all return a
/// string.
pub fn register_vm_builder_functions(
    registry: &mut GuestFunctionRegistry,
    run: usize,
    get_tool: usize,
    creation: usize,
    command: usize,
    destruction: usize,
    list: usize,
)
    requires
        old(registry).wf(),
    ensures
        final(registry).wf(),
        final(registry).spec_functions().dom() == old(registry).spec_functions().dom().insert(
            GuestMethod::Run.spec_name(),
        ).insert(GuestMethod::GetMCPTool.spec_name()).insert(creation_callback()).insert(command_callback()).insert(
            destruction_callback(),
        ).insert(list_callback()),
        final(registry).spec_functions()[list_callback()].function_pointer == list,
        final(registry).spec_functions()[list_callback()].parameter_types@ == seq![ParameterType::String],
{
    let s = [ParameterType::String];
    let none: [ParameterType; 0] = [];
    register_guest_function(registry, GuestMethod::Run.as_ref(), &s, ReturnType::String, run);
    register_guest_function(registry, GuestMethod::GetMCPTool.as_ref(), &none, ReturnType::String, get_tool);
    register_guest_function(registry, "ProcessVmCreationResult", &s, ReturnType::String, creation);
    register_guest_function(registry, "ProcessVmCommandResult", &s, ReturnType::String, command);
    register_guest_function(registry, "ProcessVmDestructionResult", &s, ReturnType::String, destruction);
    register_guest_function(registry, "ProcessVmListResult", &s, ReturnType::String, list);
}

/// The guest functions of the news agent: `ProcessHttpResponse` and `Run` take a string,
/// `GetMCPTool` takes nothing; all return a string.
pub fn register_top_hn_functions(registry: &mut GuestFunctionRegistry, process: usize, run: usize, get_tool: usize)
    requires
        old(registry).wf(),
    ensures
        final(registry).wf(),
        final(registry).spec_functions().dom() == old(registry).spec_functions().dom().insert(
            process_http_response_name(),
        ).insert(GuestMethod::Run.spec_name()).insert(GuestMethod::GetMCPTool.spec_name()),
        final(registry).spec_functions()[GuestMethod::GetMCPTool.spec_name()].function_pointer == get_tool,
        final(registry).spec_functions()[GuestMethod::GetMCPTool.spec_name()].parameter_types@.len() == 0,
{
    let s = [ParameterType::String];
    let none: [ParameterType; 0] = [];
    register_guest_function(registry, "ProcessHttpResponse", &s, ReturnType::String, process);
    register_guest_function(registry, GuestMethod::Run.as_ref(), &s, ReturnType::String, run);
    register_guest_function(registry, GuestMethod::GetMCPTool.as_ref(), &none, ReturnType::String, get_tool);
}

/// The news guest's `TopHNLinks` (the variant that calls host functions directly): asks
/// the host function `HttpGet` for the page, to be handed to `ProcessHttpResponse`.
pub fn hn_links_request() -> (s: GuestStep)
    ensures
        s matches GuestStep::CallHost { method, args } && method@ == "HttpGet"@ && views(args@) == seq![
            news_url(),
            process_http_response_name(),
        ],
{
    let args = vec![String::from_str("https://news.ycombinator.com/"), String::from_str("ProcessHttpResponse")];
    assert(views(args@) =~= seq![news_url(), process_http_response_name()]);
    GuestStep::CallHost { method: String::from_str("HttpGet"), args }
}

/// The news guest's `ProcessHttpResponse` (the variant that calls host functions directly):
/// the list of stories on the page (its first parameter) goes to the host function
/// `FinalAnswerHostMethod`; a first parameter that is not a string is refused. The call must
/// carry parameters.
pub fn hn_links_report(call: &FunctionCall) -> (r: Result<GuestStep, GuestError>)
    requires
        call.parameters matches Some(ps) && ps@.len() > 0,
    ensures
        match first_string(*call) {
            Some(html) => r matches Ok(GuestStep::CallHost { method, args }) && method@ == "FinalAnswerHostMethod"@
                && views(args@) == seq![
                stories_text(
                    match regex_pairs(title_link_pattern(), html) {
                        Some(pairs) => pairs,
                        None => Seq::empty(),
                    },
                ),
                process_http_response_name(),
            ],
            None => r matches Err(e) && e.code == ErrorCode::GuestFunctionParameterTypeMismatch && e.message@
                == "Invalid parameters passed to guest_function"@,
        },
{
    match first_string_parameter(call) {
        Some(html) => {
            let links = find_title_links(html.as_str());
            let text = format_stories(&links);
            proof {
                if regex_pairs(title_link_pattern(), html@) is None {
                    assert(links@.map_values(|p: (String, String)| (p.0@, p.1@)) =~= Seq::empty());
                }
            }
            let ghost t = text@;
            let args = vec![text, String::from_str("ProcessHttpResponse")];
            assert(views(args@) =~= seq![t, process_http_response_name()]);
            Ok(GuestStep::CallHost { method: String::from_str("FinalAnswerHostMethod"), args })
        },
        None => Err(
            GuestError {
                code: ErrorCode::GuestFunctionParameterTypeMismatch,
                message: String::from_str("Invalid parameters passed to guest_function"),
            },
        ),
    }
}

/// The news guest's answer once a host function has been called.
pub fn host_call_reply(method: &str) -> (s: String)
    ensures
        s@ == "Host function "@ + method@ + " called successfully"@,
{
    concat3("Host function ", method, " called successfully")
}

} // verus!
