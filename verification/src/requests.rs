//! Which caller is waiting for which answer.
//!
//! A tool call opens a request: its response channel is stored under a fresh request id.
//! When the agent's event loop takes up the call, it records that the agent is now
//! working for that request. The agent's final result is delivered on the channel of the
//! request it works for; an error in the agent is delivered there too; and when the call
//! ends (answered or timed out) every trace of the request is removed.
//!
//! The channel type `S` is left open: the host keeps the sending half of a one-shot
//! channel here, and sends on what this registry hands back.
use vstd::prelude::*;
use crate::string_map::StringMap;

verus! {

/// The registry's contents: response channels by request id, and the request id that
/// each agent is working for.
pub struct RequestsView<S> {
    pub channels: Map<Seq<char>, S>,
    pub agent_requests: Map<Seq<char>, Seq<char>>,
}

/// Opening a request stores its channel.
pub open spec fn spec_open_request<S>(v: RequestsView<S>, request_id: Seq<char>, channel: S) -> RequestsView<S> {
    RequestsView { channels: v.channels.insert(request_id, channel), agent_requests: v.agent_requests }
}

/// Recording that an agent works for a request.
pub open spec fn spec_record_agent_request<S>(v: RequestsView<S>, agent_id: Seq<char>, request_id: Seq<char>) -> RequestsView<S> {
    RequestsView { channels: v.channels, agent_requests: v.agent_requests.insert(agent_id, request_id) }
}

/// Delivering an agent's answer: the channel of the request the agent works for is
/// taken out (and handed back), if there is one.
pub open spec fn spec_take_answer_channel<S>(v: RequestsView<S>, agent_id: Seq<char>) -> (RequestsView<S>, Option<S>) {
    if v.agent_requests.contains_key(agent_id) && v.channels.contains_key(v.agent_requests[agent_id]) {
        let r = v.agent_requests[agent_id];
        (RequestsView { channels: v.channels.remove(r), agent_requests: v.agent_requests }, Some(v.channels[r]))
    } else {
        (v, None)
    }
}

/// Failing an agent's request: the channel of the request (as the agent knows it) is taken
/// out and handed back, and the agent no longer works for any request.
pub open spec fn spec_fail_agent_request<S>(v: RequestsView<S>, agent_id: Seq<char>, request_id: Seq<char>) -> (RequestsView<S>, Option<S>) {
    let channel = if v.channels.contains_key(request_id) { Some(v.channels[request_id]) } else { None };
    (RequestsView { channels: v.channels.remove(request_id), agent_requests: v.agent_requests.remove(agent_id) }, channel)
}

/// Closing a request: its channel goes, and no agent works for it any more.
pub open spec fn spec_close_request<S>(v: RequestsView<S>, request_id: Seq<char>) -> RequestsView<S> {
    RequestsView {
        channels: v.channels.remove(request_id),
        agent_requests: Map::new(
            |a: Seq<char>| v.agent_requests.contains_key(a) && v.agent_requests[a] != request_id,
            |a: Seq<char>| v.agent_requests[a],
        ),
    }
}

/// An agent that goes away no longer works for any request.
pub open spec fn spec_forget_agent<S>(v: RequestsView<S>, agent_id: Seq<char>) -> RequestsView<S> {
    RequestsView { channels: v.channels, agent_requests: v.agent_requests.remove(agent_id) }
}

pub struct RequestRegistry<S> {
    response_channels: StringMap<S>,
    agent_requests: StringMap<String>,
}

impl<S> RequestRegistry<S> {
    pub closed spec fn wf(self) -> bool {
        self.response_channels.wf() && self.agent_requests.wf()
    }

    pub closed spec fn spec_view(self) -> RequestsView<S> {
        RequestsView {
            channels: self.response_channels@,
            agent_requests: Map::new(
                |a: Seq<char>| self.agent_requests@.contains_key(a),
                |a: Seq<char>| self.agent_requests@[a]@,
            ),
        }
    }

    /// No open request, no agent at work.
    pub fn new() -> (r: Self)
        ensures
            r.wf(),
            r.spec_view().channels == Map::<Seq<char>, S>::empty(),
            r.spec_view().agent_requests == Map::<Seq<char>, Seq<char>>::empty(),
    {
        let r = RequestRegistry { response_channels: StringMap::new(), agent_requests: StringMap::new() };
        assert(r.spec_view().agent_requests =~= Map::<Seq<char>, Seq<char>>::empty());
        r
    }

    /// Stores the response channel of a new request.
    pub fn open_request(&mut self, request_id: String, channel: S)
        requires
            old(self).wf(),
        ensures
            final(self).wf(),
            final(self).spec_view() == spec_open_request(old(self).spec_view(), request_id@, channel),
    {
        self.response_channels.insert(request_id, channel);
        assert(self.spec_view().agent_requests =~= old(self).spec_view().agent_requests);
    }

    /// Records that `agent_id` now works for `request_id`.
    pub fn record_agent_request(&mut self, agent_id: String, request_id: String)
        requires
            old(self).wf(),
        ensures
            final(self).wf(),
            final(self).spec_view() == spec_record_agent_request(old(self).spec_view(), agent_id@, request_id@),
    {
        self.agent_requests.insert(agent_id, request_id);
        assert(self.spec_view().agent_requests =~= old(self).spec_view().agent_requests.insert(
            agent_id@,
            request_id@,
        ));
    }

    /// The request that `agent_id` works for.
    pub fn agent_request(&self, agent_id: &str) -> (r: Option<String>)
        requires
            self.wf(),
        ensures
            match r {
                Some(id) => self.spec_view().agent_requests.contains_key(agent_id@)
                    && self.spec_view().agent_requests[agent_id@] == id@,
                None => !self.spec_view().agent_requests.contains_key(agent_id@),
            },
    {
        match self.agent_requests.get(agent_id) {
            Some(id) => Some(id.clone()),
            None => None,
        }
    }

    /// Whether a request is still open.
    pub fn is_open(&self, request_id: &str) -> (b: bool)
        requires
            self.wf(),
        ensures
            b == self.spec_view().channels.contains_key(request_id@),
    {
        self.response_channels.contains_key(request_id)
    }

    /// The channel of an open request, left in place.
    pub fn response_channel(&self, request_id: &str) -> (r: Option<&S>)
        requires
            self.wf(),
        ensures
            match r {
                Some(c) => self.spec_view().channels.contains_key(request_id@)
                    && *c == self.spec_view().channels[request_id@],
                None => !self.spec_view().channels.contains_key(request_id@),
            },
    {
        self.response_channels.get(request_id)
    }

    /// The channel on which `agent_id`'s final answer is to be sent, taken out of the
    /// registry so that the answer is sent at most once.
    pub fn take_answer_channel(&mut self, agent_id: &str) -> (r: Option<S>)
        requires
            old(self).wf(),
        ensures
            final(self).wf(),
            (final(self).spec_view(), r) == spec_take_answer_channel(old(self).spec_view(), agent_id@),
    {
        match self.agent_requests.get(agent_id) {
            Some(request_id) => {
                let id = request_id.clone();
                let taken = self.response_channels.remove(id.as_str());
                assert(self.spec_view().agent_requests =~= old(self).spec_view().agent_requests);
                proof {
                    if taken is None {
                        assert(self.spec_view().channels =~= old(self).spec_view().channels);
                    }
                }
                taken
            },
            None => None,
        }
    }

    /// After an error in `agent_id` while it worked for `request_id`: the request's channel
    /// is taken out (the error is to be sent on it), and the agent works for no request.
    pub fn fail_agent_request(&mut self, agent_id: &str, request_id: &str) -> (r: Option<S>)
        requires
            old(self).wf(),
        ensures
            final(self).wf(),
            (final(self).spec_view(), r) == spec_fail_agent_request(old(self).spec_view(), agent_id@, request_id@),
    {
        let taken = self.response_channels.remove(request_id);
        self.agent_requests.remove(agent_id);
        assert(self.spec_view().agent_requests =~= old(self).spec_view().agent_requests.remove(agent_id@));
        taken
    }

    /// Ends a request: removes its channel and every agent's claim on it; gives back the
    /// agents that worked for it.
    pub fn close_request(&mut self, request_id: &str) -> (cleared: Vec<String>)
        requires
            old(self).wf(),
        ensures
            final(self).wf(),
            final(self).spec_view() == spec_close_request(old(self).spec_view(), request_id@),
            forall|t: int|
                0 <= t < cleared@.len() ==> old(self).spec_view().agent_requests.contains_key(
                    #[trigger] cleared@[t]@,
                ) && old(self).spec_view().agent_requests[cleared@[t]@] == request_id@,
    {
        self.response_channels.remove(request_id);
        let cleared = self.agent_requests.remove_entries_with_value(request_id);
        assert(self.spec_view().agent_requests =~= spec_close_request(old(self).spec_view(), request_id@).agent_requests);
        cleared
    }

    /// An agent that has gone away works for no request.
    pub fn forget_agent(&mut self, agent_id: &str)
        requires
            old(self).wf(),
        ensures
            final(self).wf(),
            final(self).spec_view() == spec_forget_agent(old(self).spec_view(), agent_id@),
    {
        self.agent_requests.remove(agent_id);
        assert(self.spec_view().agent_requests =~= old(self).spec_view().agent_requests.remove(agent_id@));
    }
}

/// An answer reaches its caller: once a request is open and an agent has taken it up, the
/// agent's answer is delivered on that request's channel, and the channel is gone afterwards.
pub proof fn lemma_answer_reaches_caller<S>(
    v: RequestsView<S>,
    request_id: Seq<char>,
    channel: S,
    agent_id: Seq<char>,
)
    ensures
        ({
            let opened = spec_open_request(v, request_id, channel);
            let working = spec_record_agent_request(opened, agent_id, request_id);
            let (after, delivered) = spec_take_answer_channel(working, agent_id);
            &&& delivered == Some(channel)
            &&& !after.channels.contains_key(request_id)
            &&& after.agent_requests == working.agent_requests
        }),
{
}

/// An answer is delivered at most once: after the channel has been taken, a second answer
/// from the same agent finds no channel, until a new request is opened.
pub proof fn lemma_answer_delivered_once<S>(v: RequestsView<S>, agent_id: Seq<char>)
    requires
        spec_take_answer_channel(v, agent_id).1 is Some,
    ensures
        spec_take_answer_channel(spec_take_answer_channel(v, agent_id).0, agent_id).1 is None,
{
}

/// Ending a request leaves no channel for it and no agent working for it, and leaves
/// every other request's channel and every other agent's work as they were.
pub proof fn lemma_close_request_is_complete<S>(v: RequestsView<S>, request_id: Seq<char>)
    ensures
        ({
            let after = spec_close_request(v, request_id);
            &&& !after.channels.contains_key(request_id)
            &&& forall|a: Seq<char>|
                #[trigger] after.agent_requests.contains_key(a) ==> after.agent_requests[a] != request_id
            &&& forall|r: Seq<char>|
                r != request_id ==> (#[trigger] after.channels.contains_key(r) <==> v.channels.contains_key(r))
                    && (v.channels.contains_key(r) ==> after.channels[r] == v.channels[r])
            &&& forall|a: Seq<char>|
                #[trigger] v.agent_requests.contains_key(a) && v.agent_requests[a] != request_id
                    ==> after.agent_requests.contains_key(a) && after.agent_requests[a] == v.agent_requests[a]
        }),
{
}

/// Answers go to the right caller: with two requests open and taken up by two agents, each
/// agent's answer is delivered on its own request's channel.
pub proof fn lemma_answers_do_not_cross<S>(
    v: RequestsView<S>,
    r1: Seq<char>,
    c1: S,
    a1: Seq<char>,
    r2: Seq<char>,
    c2: S,
    a2: Seq<char>,
)
    requires
        r1 != r2,
        a1 != a2,
    ensures
        ({
            let w = spec_record_agent_request(
                spec_record_agent_request(spec_open_request(spec_open_request(v, r1, c1), r2, c2), a1, r1),
                a2,
                r2,
            );
            let (w1, d1) = spec_take_answer_channel(w, a1);
            let (w2, d2) = spec_take_answer_channel(w1, a2);
            d1 == Some(c1) && d2 == Some(c2)
        }),
{
    let o = spec_open_request(spec_open_request(v, r1, c1), r2, c2);
    assert(o.channels[r1] == c1);
    let w = spec_record_agent_request(spec_record_agent_request(o, a1, r1), a2, r2);
    assert(w.agent_requests[a1] == r1);
    let (w1, d1) = spec_take_answer_channel(w, a1);
    assert(w1.channels.contains_key(r2));
    assert(w1.channels[r2] == c2);
}

} // verus!
