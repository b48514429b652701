//! The MCP front of the host: which agents are registered under which tool names, and
//! how a tool call is handed to an agent and its answer handed back.
use vstd::prelude::*;
use crate::string_map::StringMap;
use crate::mcp_tool::Tool;
use crate::requests::{RequestRegistry, spec_open_request, spec_close_request};
use crate::framing::{mcp_request_message, new_request_id, spec_parse_mcp_request_message, lemma_parse_inverts_frame};
use crate::common::GuestMethod;
use crate::text::concat3;

verus! {

#[verifier::external_type_specification]
#[verifier::external_body]
#[verifier::reject_recursive_types(T)]
pub struct ExStdSender<T>(std::sync::mpsc::Sender<T>);

/// The channel on which an agent's event loop receives `(content, guest function name)`.
pub type AgentSender = std::sync::mpsc::Sender<(Option<String>, String)>;

/// What is listed about an agent.
#[derive(Debug, Clone)]
pub struct AgentInfo {
    pub id: String,
    pub name: String,
    pub description: String,
}

/// The registered agents: their channels, their (name, description) pairs, and the tool
/// that each offers.
pub struct McpServerManager {
    pub agent_channels: StringMap<AgentSender>,
    pub agent_metadata: StringMap<(String, String)>,
    pub agent_tools: StringMap<Tool>,
}

impl McpServerManager {
    pub closed spec fn wf(self) -> bool {
        self.agent_channels.wf() && self.agent_metadata.wf() && self.agent_tools.wf()
    }

    /// The (name, description) pairs kept for the agents.
    pub closed spec fn spec_metadata(self) -> Map<Seq<char>, (String, String)> {
        self.agent_metadata@
    }

    /// No agent registered.
    pub fn new() -> (m: Self)
        ensures
            m.wf(),
            m.agent_channels@ == Map::<Seq<char>, AgentSender>::empty(),
            m.agent_tools@ == Map::<Seq<char>, Tool>::empty(),
            m.spec_metadata() == Map::<Seq<char>, (String, String)>::empty(),
    {
        McpServerManager {
            agent_channels: StringMap::new(),
            agent_metadata: StringMap::new(),
            agent_tools: StringMap::new(),
        }
    }

    /// Registers an agent under `agent_id`: its channel, empty metadata, and its tool.
    /// An agent registered again under the same id replaces the earlier one.
    pub fn register_agent(&mut self, agent_id: String, mcp_tool: Tool, tx: AgentSender)
        requires
            old(self).wf(),
        ensures
            final(self).wf(),
            final(self).agent_channels@ == old(self).agent_channels@.insert(agent_id@, tx),
            final(self).agent_tools@ == old(self).agent_tools@.insert(agent_id@, mcp_tool),
            final(self).spec_metadata().dom() == old(self).spec_metadata().dom().insert(agent_id@),
            forall|k: Seq<char>|
                #[trigger] old(self).spec_metadata().contains_key(k) && k != agent_id@ ==> final(self).spec_metadata()[k]
                    == old(self).spec_metadata()[k],
            final(self).spec_metadata()[agent_id@].0@ == Seq::<char>::empty(),
            final(self).spec_metadata()[agent_id@].1@ == Seq::<char>::empty(),
    {
        let id2 = agent_id.clone();
        let id3 = agent_id.clone();
        self.agent_channels.insert(agent_id, tx);
        self.agent_metadata.insert(id2, (String::new(), String::new()));
        self.agent_tools.insert(id3, mcp_tool);
    }

    /// The handler that serves MCP requests for the registered agents.
    pub fn into_handler(self) -> (h: HyperlightAgentHandler)
        requires
            self.wf(),
        ensures
            h.wf(),
            h.agent_channels@ == self.agent_channels@,
            h.agent_tools@ == self.agent_tools@,
    {
        HyperlightAgentHandler { agent_channels: self.agent_channels, agent_tools: self.agent_tools }
    }
}

/// Serves tool listings and tool calls for the registered agents.
pub struct HyperlightAgentHandler {
    pub agent_channels: StringMap<AgentSender>,
    pub agent_tools: StringMap<Tool>,
}

/// Why a tool call failed, with the message the caller sees.
#[derive(Debug, Clone)]
pub enum ToolCallError {
    /// No agent is registered under the tool's name.
    NotFound(String),
    /// The agent's channel is closed.
    SendFailed(String),
    /// No answer came in time.
    TimedOut(String),
}

/// A tool call ready to be sent: on `channel`, the pair `(Some(message), function_name)`.
pub struct ToolCallDispatch<'a> {
    pub request_id: String,
    pub message: String,
    pub function_name: String,
    pub channel: &'a AgentSender,
}

impl HyperlightAgentHandler {
    pub closed spec fn wf(self) -> bool {
        self.agent_channels.wf() && self.agent_tools.wf()
    }

    /// The tools of the registered agents, in registration order, as they are listed:
    /// name, title, description, required inputs, input properties and metadata of each;
    /// no annotations and no output schema.
    pub fn list_tools(&self) -> (r: Vec<Tool>)
        requires
            self.wf(),
        ensures
            r@.len() == self.agent_tools.spec_entries().len(),
            forall|i: int|
                0 <= i < r@.len() ==> {
                    let t = #[trigger] r@[i];
                    let src = self.agent_tools.spec_entries()[i].1;
                    &&& t.name == src.name
                    &&& t.title == src.title
                    &&& t.description == src.description
                    &&& t.input_schema.spec_required() == src.input_schema.spec_required()
                    &&& t.input_schema.spec_properties() == src.input_schema.spec_properties()
                    &&& t.input_schema.spec_type() == crate::mcp_tool::object_type_name()
                    &&& t.meta == src.meta
                    &&& t.annotations is None
                    &&& t.output_schema is None
                },
    {
        let entries = self.agent_tools.entries();
        let mut out: Vec<Tool> = Vec::new();
        let mut i: usize = 0;
        while i < entries.len()
            invariant
                entries@ == self.agent_tools.spec_entries(),
                i <= entries@.len(),
                out@.len() == i,
                forall|j: int|
                    0 <= j < i ==> {
                        let t = #[trigger] out@[j];
                        let src = entries@[j].1;
                        &&& t.name == src.name
                        &&& t.title == src.title
                        &&& t.description == src.description
                        &&& t.input_schema.spec_required() == src.input_schema.spec_required()
                        &&& t.input_schema.spec_properties() == src.input_schema.spec_properties()
                        &&& t.input_schema.spec_type() == crate::mcp_tool::object_type_name()
                        &&& t.meta == src.meta
                        &&& t.annotations is None
                        &&& t.output_schema is None
                    },
            decreases entries@.len() - i,
        {
            let src = &entries[i].1;
            out.push(src.listed());
            i = i + 1;
        }
        out
    }

    /// Starts a call of the tool `tool_name` with the JSON text of its arguments: the
    /// agent's channel is looked up, a fresh request is opened with `response_channel`, and
    /// the framed message is prepared for the agent's "Run" function.
    pub fn start_tool_call<'a, S>(
        &'a self,
        registry: &mut RequestRegistry<S>,
        tool_name: &str,
        params_json: &str,
        response_channel: S,
    ) -> (r: Result<ToolCallDispatch<'a>, ToolCallError>)
        requires
            self.wf(),
            old(registry).wf(),
        ensures
            final(registry).wf(),
            match r {
                Ok(d) => {
                    &&& self.agent_channels@.contains_key(tool_name@)
                    &&& *d.channel == self.agent_channels@[tool_name@]
                    &&& final(registry).spec_view() == spec_open_request(
                        old(registry).spec_view(),
                        d.request_id@,
                        response_channel,
                    )
                    &&& spec_parse_mcp_request_message(d.message@) == Some((d.request_id@, params_json@))
                    &&& d.function_name@ == GuestMethod::Run.spec_name()
                    &&& !d.request_id@.contains(':')
                },
                Err(e) => {
                    &&& !self.agent_channels@.contains_key(tool_name@)
                    &&& e == ToolCallError::NotFound(e->NotFound_0)
                    &&& e->NotFound_0@ == "Agent '"@ + tool_name@ + "' not found"@
                    &&& final(registry).spec_view() == old(registry).spec_view()
                },
            },
    {
        let channel = match self.agent_channels.get(tool_name) {
            Some(tx) => tx,
            None => {
                return Err(ToolCallError::NotFound(concat3("Agent '", tool_name, "' not found")));
            },
        };
        let request_id = new_request_id();
        registry.open_request(request_id.clone(), response_channel);
        let message = mcp_request_message(request_id.as_str(), params_json);
        proof {
            lemma_parse_inverts_frame(request_id@, params_json@);
        }
        let function_name = String::from_str(GuestMethod::Run.as_ref());
        Ok(ToolCallDispatch { request_id, message, function_name, channel })
    }

    /// The error of a call whose message could not be sent; `reason` is the send error's text.
    pub fn send_failed(reason: &str) -> (e: ToolCallError)
        ensures
            e == ToolCallError::SendFailed(e->SendFailed_0),
            e->SendFailed_0@ == "Failed to send message to agent: "@ + reason@,
    {
        ToolCallError::SendFailed(crate::text::concat2("Failed to send message to agent: ", reason))
    }

    /// Ends a call with what came back: an answer ends the request and is the result; no
    /// answer in time is a time-out (the request is left as it is).
    pub fn finish_tool_call<S>(
        registry: &mut RequestRegistry<S>,
        request_id: &str,
        response: Option<String>,
    ) -> (r: Result<String, ToolCallError>)
        requires
            old(registry).wf(),
        ensures
            final(registry).wf(),
            match response {
                Some(text) => r == Ok::<String, ToolCallError>(text) && final(registry).spec_view()
                    == spec_close_request(old(registry).spec_view(), request_id@),
                None => {
                    &&& r == Err::<String, ToolCallError>(ToolCallError::TimedOut(r->Err_0->TimedOut_0))
                    &&& r->Err_0->TimedOut_0@ == "Timeout waiting for agent response"@
                    &&& final(registry).spec_view() == old(registry).spec_view()
                },
            },
    {
        match response {
            Some(text) => {
                registry.close_request(request_id);
                Ok(text)
            },
            None => Err(ToolCallError::TimedOut(String::from_str("Timeout waiting for agent response"))),
        }
    }
}

} // verus!
