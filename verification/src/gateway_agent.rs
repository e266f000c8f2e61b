//! The agent that connects to a profile gateway and answers its requests, one
//! session after the other. It decides what to do next; connecting, sending,
//! receiving, dumping and sleeping are done for it.

use vstd::prelude::*;

use crate::base64_text::base64_len;
use crate::gateway::connected_line;
use crate::gateway::end_line;
use crate::gateway::heap_answer;
use crate::gateway::reaction;
use crate::gateway::request_of;
use crate::gateway::GatewayClient;
use crate::gateway::LogLine;
use crate::gateway::LogLineView;
use crate::gateway::Message;
use crate::gateway::MessageView;
use crate::gateway::Reaction;
use crate::gateway::ReactionView;
use crate::gateway::Request;
use crate::gateway::RequestView;
use crate::gateway::RETRY_SECS;
use crate::json::json_members;
use crate::json::member_text;
use crate::json::JsonMembers;
use crate::json::Members;
use crate::profiler::dump_view;
use crate::text::unwrap_or;

verus! {

/// What the agent waits for.
pub enum Phase {
    /// That the connection stands.
    Connecting,
    /// That the registration is sent.
    Greeting,
    /// The reply to the registration.
    Registering,
    /// A request.
    Serving,
    /// The outcome of the dump that the request `id` asks for.
    Dumping { id: String },
    /// That an answer is sent.
    Answering,
    /// The time for the next session.
    Resting,
}

/// What a [`Phase`] holds.
pub enum PhaseView {
    Connecting,
    Greeting,
    Registering,
    Serving,
    Dumping { id: Seq<char> },
    Answering,
    Resting,
}

impl View for Phase {
    type V = PhaseView;

    open spec fn view(&self) -> PhaseView {
        match self {
            Phase::Connecting => PhaseView::Connecting,
            Phase::Greeting => PhaseView::Greeting,
            Phase::Registering => PhaseView::Registering,
            Phase::Serving => PhaseView::Serving,
            Phase::Dumping { id } => PhaseView::Dumping { id: id@ },
            Phase::Answering => PhaseView::Answering,
            Phase::Resting => PhaseView::Resting,
        }
    }
}

/// What happened.
pub enum GatewayEvent {
    /// The connection stands.
    Connected,
    /// The text is sent.
    Sent,
    /// A text came in.
    Text(String),
    /// Something came in that is no text.
    Other,
    /// The connection was closed.
    Closed,
    /// Connecting, sending or receiving failed, for this reason.
    Failed(String),
    /// The dump has come to this: a profile, or why there is none.
    Dumped(Result<Vec<u8>, String>),
    /// The time for the next session has come.
    Slept,
}

/// What to do next.
pub enum GatewayAction {
    /// Connect to this address.
    Connect { url: String },
    /// Send this text.
    Send(String),
    /// Wait for what comes in.
    Receive,
    /// Dump a heap profile.
    Dump,
    /// Drop the connection, if there is one, and sleep for so many seconds.
    Sleep { secs: u64 },
}

/// What a [`GatewayAction`] holds.
pub enum GatewayActionView {
    Connect { url: Seq<char> },
    Send(Seq<char>),
    Receive,
    Dump,
    Sleep { secs: u64 },
}

impl View for GatewayAction {
    type V = GatewayActionView;

    open spec fn view(&self) -> GatewayActionView {
        match self {
            GatewayAction::Connect { url } => GatewayActionView::Connect { url: url@ },
            GatewayAction::Send(text) => GatewayActionView::Send(text@),
            GatewayAction::Receive => GatewayActionView::Receive,
            GatewayAction::Dump => GatewayActionView::Dump,
            GatewayAction::Sleep { secs } => GatewayActionView::Sleep { secs: *secs },
        }
    }
}

/// A line for the log, where there is one, and what to do next.
pub struct GatewayStep {
    pub log: Option<LogLine>,
    pub action: GatewayAction,
}

/// What an agent is about, and what it waits for.
pub struct AgentView {
    pub ws_url: Seq<char>,
    pub hostname: Seq<char>,
    pub phase: PhaseView,
}

/// A turn of an agent: how it goes on, what it logs and what is to be done.
pub struct TurnView {
    pub next: AgentView,
    pub log: Option<LogLineView>,
    pub action: GatewayActionView,
}

impl AgentView {
    /// `event` is one that the agent waits for.
    pub open spec fn expects(self, event: GatewayEvent) -> bool {
        match self.phase {
            PhaseView::Connecting => event is Connected || event is Failed,
            PhaseView::Greeting | PhaseView::Answering => event is Sent || event is Failed,
            PhaseView::Registering | PhaseView::Serving => event is Text || event is Other
                || event is Closed || event is Failed,
            PhaseView::Dumping { .. } => event is Dumped,
            PhaseView::Resting => event is Slept,
        }
    }

    /// The agent goes on to `phase`, and `action` is to be done.
    pub open spec fn turn_to(self, phase: PhaseView, action: GatewayActionView) -> TurnView {
        TurnView { next: AgentView { phase, ..self }, log: None, action }
    }

    /// The session ends. The next one is always tried.
    pub open spec fn end(self, end: Result<(), Seq<char>>) -> TurnView {
        TurnView {
            log: Some(end_line(end)),
            ..self.turn_to(PhaseView::Resting, GatewayActionView::Sleep { secs: RETRY_SECS })
        }
    }

    /// The gateway has replied to the registration: with an id, without one, or
    /// with something that is not JSON.
    pub open spec fn replied(self, reply: Result<Option<Seq<char>>, Seq<char>>) -> TurnView {
        match reply {
            Ok(id) => TurnView {
                log: Some(
                    connected_line(
                        self.hostname,
                        match id {
                            Some(id) => id,
                            None => "?"@,
                        },
                    ),
                ),
                ..self.turn_to(PhaseView::Serving, GatewayActionView::Receive)
            },
            Err(reason) => self.end(Err(reason)),
        }
    }

    /// The gateway has made a request, or sent something that is not JSON.
    pub open spec fn requested(self, request: Option<RequestView>) -> TurnView {
        match request {
            None => self.turn_to(PhaseView::Serving, GatewayActionView::Receive),
            Some(request) => match reaction(request) {
                ReactionView::Ignore => self.turn_to(
                    PhaseView::Serving,
                    GatewayActionView::Receive,
                ),
                ReactionView::Say(message) => self.turn_to(
                    PhaseView::Answering,
                    GatewayActionView::Send(message.json()),
                ),
                ReactionView::DumpHeap { id } => self.turn_to(
                    PhaseView::Dumping { id },
                    GatewayActionView::Dump,
                ),
            },
        }
    }

    /// What follows from `event`, which the agent waits for.
    pub open spec fn turn(self, event: GatewayEvent) -> TurnView {
        match (self.phase, event) {
            (PhaseView::Connecting, GatewayEvent::Connected) => self.turn_to(
                PhaseView::Greeting,
                GatewayActionView::Send(
                    (MessageView::Register { hostname: self.hostname }).json(),
                ),
            ),
            (PhaseView::Greeting, GatewayEvent::Sent) => self.turn_to(
                PhaseView::Registering,
                GatewayActionView::Receive,
            ),
            (PhaseView::Registering, GatewayEvent::Text(text)) => self.replied(
                reply_of(json_members(text@)),
            ),
            (PhaseView::Registering, _) => self.end(Err("no registration reply"@)),
            (PhaseView::Serving, GatewayEvent::Text(text)) => self.requested(
                request_in(json_members(text@)),
            ),
            (PhaseView::Serving, GatewayEvent::Other) => self.turn_to(
                PhaseView::Serving,
                GatewayActionView::Receive,
            ),
            (PhaseView::Serving, GatewayEvent::Closed) => self.end(Ok(())),
            (PhaseView::Dumping { id }, GatewayEvent::Dumped(dump)) => self.turn_to(
                PhaseView::Answering,
                GatewayActionView::Send(heap_answer(id, dump_view(dump)).json()),
            ),
            (PhaseView::Answering, GatewayEvent::Sent) => self.turn_to(
                PhaseView::Serving,
                GatewayActionView::Receive,
            ),
            (_, GatewayEvent::Failed(reason)) => self.end(Err(reason@)),
            // What is left of what the agent waits for: the end of its rest.
            _ => self.turn_to(
                PhaseView::Connecting,
                GatewayActionView::Connect { url: self.ws_url },
            ),
        }
    }
}

/// The id in a reply with these members.
pub open spec fn reply_of(members: Result<Members, Seq<char>>) -> Result<
    Option<Seq<char>>,
    Seq<char>,
> {
    match members {
        Ok(members) => Ok(member_text(members, "id"@)),
        Err(reason) => Err(reason),
    }
}

/// The request that is made by these members, if it is JSON.
pub open spec fn request_in(members: Result<Members, Seq<char>>) -> Option<RequestView> {
    match members {
        Ok(members) => Some(request_of(members)),
        Err(_) => None,
    }
}

/// What `reply` holds.
pub open spec fn reply_view(reply: Result<Option<String>, String>) -> Result<
    Option<Seq<char>>,
    Seq<char>,
> {
    match reply {
        Ok(id) => Ok(id.deep_view()),
        Err(reason) => Err(reason@),
    }
}

/// What `request` holds.
pub open spec fn request_view(request: Result<Request, String>) -> Option<RequestView> {
    match request {
        Ok(request) => Some(request@),
        Err(_) => None,
    }
}

/// What a `log` holds.
pub open spec fn log_view(log: Option<LogLine>) -> Option<LogLineView> {
    match log {
        Some(line) => Some(line@),
        None => None,
    }
}

/// The turn that left this `agent`, and this `step` to take.
pub open spec fn turned(agent: GatewayAgent, step: GatewayStep) -> TurnView {
    TurnView { next: agent@, log: log_view(step.log), action: step.action@ }
}

/// Connects to one gateway and answers its requests.
pub struct GatewayAgent {
    client: GatewayClient,
    phase: Phase,
}

impl View for GatewayAgent {
    type V = AgentView;

    closed spec fn view(&self) -> AgentView {
        AgentView {
            ws_url: self.client.ws_url@,
            hostname: self.client.hostname@,
            phase: self.phase@,
        }
    }
}

impl GatewayAgent {
    /// An agent, and what it does first.
    pub fn new(client: GatewayClient) -> (res: (GatewayAgent, GatewayAction))
        ensures
            res.0@ == (AgentView {
                ws_url: client.ws_url@,
                hostname: client.hostname@,
                phase: PhaseView::Connecting,
            }),
            res.1@ == (GatewayActionView::Connect { url: client.ws_url@ }),
    {
        let url = client.ws_url.clone();
        (GatewayAgent { client, phase: Phase::Connecting }, GatewayAction::Connect { url })
    }

    /// Whether `event` is one that the agent waits for.
    pub fn expects(&self, event: &GatewayEvent) -> (res: bool)
        ensures
            res == self@.expects(*event),
    {
        match (&self.phase, event) {
            (Phase::Connecting, GatewayEvent::Connected | GatewayEvent::Failed(_)) => true,
            (Phase::Greeting, GatewayEvent::Sent | GatewayEvent::Failed(_)) => true,
            (Phase::Answering, GatewayEvent::Sent | GatewayEvent::Failed(_)) => true,
            (
                Phase::Registering,
                GatewayEvent::Text(_)
                | GatewayEvent::Other
                | GatewayEvent::Closed
                | GatewayEvent::Failed(_),
            ) => true,
            (
                Phase::Serving,
                GatewayEvent::Text(_)
                | GatewayEvent::Other
                | GatewayEvent::Closed
                | GatewayEvent::Failed(_),
            ) => true,
            (Phase::Dumping { id: _ }, GatewayEvent::Dumped(_)) => true,
            (Phase::Resting, GatewayEvent::Slept) => true,
            _ => false,
        }
    }

    fn turn_to(&mut self, phase: Phase, action: GatewayAction) -> (res: GatewayStep)
        ensures
            turned(*final(self), res) == old(self)@.turn_to(phase@, action@),
    {
        self.phase = phase;
        GatewayStep { log: None, action }
    }

    fn end(&mut self, end: Result<(), String>) -> (res: GatewayStep)
        ensures
            turned(*final(self), res) == old(self)@.end(
                match end {
                    Ok(_) => Ok(()),
                    Err(reason) => Err(reason@),
                },
            ),
    {
        self.phase = Phase::Resting;
        GatewayStep {
            log: Some(GatewayClient::log_end(end)),
            action: GatewayAction::Sleep { secs: RETRY_SECS },
        }
    }

    /// What follows from the reply to the registration: its id, if it has one,
    /// or why it is not JSON.
    pub fn replied(&mut self, reply: Result<Option<String>, String>) -> (res: GatewayStep)
        ensures
            turned(*final(self), res) == old(self)@.replied(reply_view(reply)),
    {
        match reply {
            Ok(id) => {
                let connection = unwrap_or(id, "?");
                self.phase = Phase::Serving;
                GatewayStep {
                    log: Some(self.client.log_connected(connection.as_str())),
                    action: GatewayAction::Receive,
                }
            },
            Err(reason) => self.end(Err(reason)),
        }
    }

    /// What follows from a request, or from a text that is none.
    pub fn requested(&mut self, request: Result<Request, String>) -> (res: GatewayStep)
        ensures
            turned(*final(self), res) == old(self)@.requested(request_view(request)),
    {
        match request {
            Err(_) => self.turn_to(Phase::Serving, GatewayAction::Receive),
            Ok(request) => match request.reaction() {
                Reaction::Ignore => self.turn_to(Phase::Serving, GatewayAction::Receive),
                Reaction::Say(message) => self.turn_to(
                    Phase::Answering,
                    GatewayAction::Send(message.json()),
                ),
                Reaction::DumpHeap { id } => self.turn_to(
                    Phase::Dumping { id },
                    GatewayAction::Dump,
                ),
            },
        }
    }

    /// What to log and to do on `event`, which is one that the agent waits for. A
    /// profile must not be too long for a text.
    pub fn step(&mut self, event: GatewayEvent) -> (res: GatewayStep)
        requires
            old(self)@.expects(event),
            event matches GatewayEvent::Dumped(Ok(profile)) ==> base64_len(profile@.len())
                <= isize::MAX,
        ensures
            turned(*final(self), res) == old(self)@.turn(event),
    {
        let mut phase = Phase::Resting;
        std::mem::swap(&mut self.phase, &mut phase);
        match (phase, event) {
            (Phase::Connecting, GatewayEvent::Connected) => {
                let hello = Message::Register { hostname: self.client.hostname.clone() };
                self.turn_to(Phase::Greeting, GatewayAction::Send(hello.json()))
            },
            (Phase::Greeting, GatewayEvent::Sent) => self.turn_to(
                Phase::Registering,
                GatewayAction::Receive,
            ),
            (Phase::Registering, GatewayEvent::Text(text)) => {
                let reply = match JsonMembers::read(text.as_str()) {
                    Ok(members) => Ok(members.text("id")),
                    Err(reason) => Err(reason),
                };
                self.replied(reply)
            },
            (Phase::Registering, _) => self.end(Err("no registration reply".to_string())),
            (Phase::Serving, GatewayEvent::Text(text)) => {
                let request = Request::read(text.as_str());
                self.requested(request)
            },
            (Phase::Serving, GatewayEvent::Other) => self.turn_to(
                Phase::Serving,
                GatewayAction::Receive,
            ),
            (Phase::Serving, GatewayEvent::Closed) => self.end(Ok(())),
            (Phase::Dumping { id }, GatewayEvent::Dumped(dump)) => {
                let answer = Message::heap_answer(id, dump);
                self.turn_to(Phase::Answering, GatewayAction::Send(answer.json()))
            },
            (Phase::Answering, GatewayEvent::Sent) => self.turn_to(
                Phase::Serving,
                GatewayAction::Receive,
            ),
            (_, GatewayEvent::Failed(reason)) => self.end(Err(reason)),
            _ => {
                let url = self.client.ws_url.clone();
                self.turn_to(Phase::Connecting, GatewayAction::Connect { url })
            },
        }
    }
}

} // verus!
