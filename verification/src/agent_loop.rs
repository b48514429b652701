//! The decisions of an agent's event loop on the host.
//!
//! The loop receives `(content, guest function name)` pairs on the agent's channel. A
//! framed MCP request makes the agent work for that request and hands the guest only the
//! request's body; any other content is handed to the guest as it is. The host performs
//! the guest calls, the sends and the sleeps; this module decides them.
use vstd::prelude::*;
use crate::requests::{RequestRegistry, spec_record_agent_request, spec_fail_agent_request, spec_forget_agent};
use crate::framing::{parse_mcp_request_message, spec_parse_mcp_request_message};
use crate::text::concat2;

verus! {

/// What the loop found on the agent's channel.
pub enum AgentEvent {
    /// A message: its content (if any) and the guest function to call with it.
    Received { content: Option<String>, callback: String },
    /// Nothing yet.
    Empty,
    /// Every sender is gone.
    Disconnected,
}

/// What the loop does next.
#[derive(Debug)]
pub enum AgentAction {
    /// Leave the loop.
    Exit,
    /// Sleep a short while, then look again.
    Sleep,
    /// Call the guest function `function`, with `argument` or with no argument; then, unless
    /// shutting down, sleep first when `sleep_after` holds, else look again at once.
    CallGuest { function: String, argument: Option<String>, sleep_after: bool },
}

/// The agent's side of the loop: its id and the request it works for.
pub struct AgentLoopState {
    pub agent_id: String,
    pub request_id: Option<String>,
}

/// The decision for one event. `shutdown` is the shutdown flag as read after the event
/// arrived; a message that arrives during shutdown is dropped.
pub fn agent_loop_step<S>(
    state: &mut AgentLoopState,
    registry: &mut RequestRegistry<S>,
    shutdown: bool,
    event: AgentEvent,
) -> (action: AgentAction)
    requires
        old(registry).wf(),
    ensures
        final(registry).wf(),
        final(state).agent_id == old(state).agent_id,
        shutdown ==> action is Exit && final(registry).spec_view() == old(registry).spec_view()
            && final(state).request_id == old(state).request_id,
        !shutdown ==> match event {
            AgentEvent::Empty => action is Sleep && final(registry).spec_view() == old(registry).spec_view()
                && final(state).request_id == old(state).request_id,
            AgentEvent::Disconnected => action is Exit && final(registry).spec_view() == spec_forget_agent(
                old(registry).spec_view(),
                old(state).agent_id@,
            ) && final(state).request_id == old(state).request_id,
            AgentEvent::Received { content, callback } => {
                let parsed = match content {
                    Some(c) => spec_parse_mcp_request_message(c@),
                    None => None,
                };
                &&& action matches AgentAction::CallGuest { function, argument, sleep_after }
                &&& action->function == callback
                &&& match parsed {
                    Some((id, body)) => {
                        &&& action->argument is Some && action->argument->0@ == body
                        &&& !action->sleep_after
                        &&& final(state).request_id is Some && final(state).request_id->0@ == id
                        &&& final(registry).spec_view() == spec_record_agent_request(
                            old(registry).spec_view(),
                            old(state).agent_id@,
                            id,
                        )
                    },
                    None => {
                        &&& action->argument == content
                        &&& action->sleep_after
                        &&& final(state).request_id == old(state).request_id
                        &&& final(registry).spec_view() == old(registry).spec_view()
                    },
                }
            },
        },
{
    if shutdown {
        return AgentAction::Exit;
    }
    match event {
        AgentEvent::Empty => AgentAction::Sleep,
        AgentEvent::Disconnected => {
            registry.forget_agent(state.agent_id.as_str());
            AgentAction::Exit
        },
        AgentEvent::Received { content, callback } => {
            let parsed = match &content {
                Some(c) => parse_mcp_request_message(c.as_str()),
                None => None,
            };
            match parsed {
                Some((request_id, body)) => {
                    state.request_id = Some(request_id.clone());
                    registry.record_agent_request(state.agent_id.clone(), request_id);
                    AgentAction::CallGuest { function: callback, argument: Some(body), sleep_after: false }
                },
                None => AgentAction::CallGuest { function: callback, argument: content, sleep_after: true },
            }
        },
    }
}

/// After a guest call: a failure while the agent works for a request ends the agent's
/// work on it, and gives back the request's channel with the text to send on it
/// (`Error: ` and the failure's description). A success changes nothing; the answer comes
/// through the agent's final-result call.
pub fn after_guest_call<S>(
    state: &mut AgentLoopState,
    registry: &mut RequestRegistry<S>,
    result: Result<String, String>,
) -> (reply: Option<(S, String)>)
    requires
        old(registry).wf(),
    ensures
        final(registry).wf(),
        final(state).agent_id == old(state).agent_id,
        match (result, old(state).request_id) {
            (Err(e), Some(r)) => {
                let (after, channel) = spec_fail_agent_request(old(registry).spec_view(), old(state).agent_id@, r@);
                &&& final(registry).spec_view() == after
                &&& final(state).request_id is None
                &&& match channel {
                    Some(c) => reply is Some && ({
                        let (rc, rt) = reply->0;
                        rc == c && rt@ == "Error: "@ + e@
                    }),
                    None => reply is None,
                }
            },
            _ => reply is None && final(registry).spec_view() == old(registry).spec_view()
                && final(state).request_id == old(state).request_id,
        },
{
    match result {
        Ok(_) => None,
        Err(e) => {
            match state.request_id.take() {
                Some(r) => {
                    let channel = registry.fail_agent_request(state.agent_id.as_str(), r.as_str());
                    let text = concat2("Error: ", e.as_str());
                    match channel {
                        Some(c) => Some((c, text)),
                        None => None,
                    }
                },
                None => None,
            }
        },
    }
}

} // verus!
