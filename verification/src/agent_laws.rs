//! What holds of a gateway agent over any run of events.

use vstd::prelude::*;

use crate::gateway::connected_line;
use crate::gateway::end_line;
use crate::gateway::heap_answer;
use crate::gateway::reaction;
use crate::gateway::request_of;
use crate::gateway::MessageView;
use crate::gateway::ReactionView;
use crate::gateway::Request;
use crate::gateway::RETRY_SECS;
use crate::gateway_agent::reply_of;
use crate::gateway_agent::reply_view;
use crate::gateway_agent::request_in;
use crate::gateway_agent::request_view;
use crate::gateway_agent::turned;
use crate::gateway_agent::AgentView;
use crate::gateway_agent::GatewayAction;
use crate::gateway_agent::GatewayActionView;
use crate::gateway_agent::GatewayAgent;
use crate::gateway_agent::GatewayEvent;
use crate::gateway_agent::GatewayStep;
use crate::gateway_agent::Phase;
use crate::gateway_agent::PhaseView;
use crate::gateway_agent::TurnView;
use crate::json::json_members;
use crate::json::member_text;
use crate::json::object_text;
use crate::json::Members;
use crate::profiler::dump_view;

verus! {

/// The agent after `events`.
pub open spec fn after(agent: AgentView, events: Seq<GatewayEvent>) -> AgentView
    decreases events.len(),
{
    if events.len() == 0 {
        agent
    } else {
        after(agent, events.drop_last()).turn(events.last()).next
    }
}

/// Each of `events` is one that the agent waits for when it comes.
pub open spec fn runs(agent: AgentView, events: Seq<GatewayEvent>) -> bool
    decreases events.len(),
{
    events.len() > 0 ==> runs(agent, events.drop_last()) && after(
        agent,
        events.drop_last(),
    ).expects(events.last())
}

/// What the agent says to the gateway on `event`, if anything.
pub open spec fn says(agent: AgentView, event: GatewayEvent) -> Option<MessageView> {
    match (agent.phase, event) {
        (PhaseView::Connecting, GatewayEvent::Connected) => Some(
            MessageView::Register { hostname: agent.hostname },
        ),
        (PhaseView::Serving, GatewayEvent::Text(text)) => match request_in(json_members(text@)) {
            Some(request) => match reaction(request) {
                ReactionView::Say(message) => Some(message),
                _ => None,
            },
            None => None,
        },
        (PhaseView::Dumping { id }, GatewayEvent::Dumped(dump)) => Some(
            heap_answer(id, dump_view(dump)),
        ),
        _ => None,
    }
}

/// All that the agent says on `events`, in order.
pub open spec fn said(agent: AgentView, events: Seq<GatewayEvent>) -> Seq<MessageView>
    decreases events.len(),
{
    if events.len() == 0 {
        Seq::empty()
    } else {
        said(agent, events.drop_last()) + match says(
            after(agent, events.drop_last()),
            events.last(),
        ) {
            Some(message) => seq![message],
            None => Seq::empty(),
        }
    }
}

/// What is sent is what the agent says, in JSON, and nothing else is sent.
pub proof fn law_what_is_said_is_sent(agent: AgentView, event: GatewayEvent)
    requires
        agent.expects(event),
    ensures
        match says(agent, event) {
            Some(message) => agent.turn(event).action == GatewayActionView::Send(message.json()),
            None => !(agent.turn(event).action is Send),
        },
{
}

/// What an agent asks for is what it waits for: whoever does what is asked has
/// only events that the agent waits for.
pub proof fn law_asks_for_what_it_waits_for(agent: AgentView, event: GatewayEvent)
    requires
        agent.expects(event),
    ensures
        match agent.turn(event).action {
            GatewayActionView::Connect { .. } => agent.turn(event).next.phase is Connecting,
            GatewayActionView::Send(_) => agent.turn(event).next.phase is Greeting || agent.turn(
                event,
            ).next.phase is Answering,
            GatewayActionView::Receive => agent.turn(event).next.phase is Registering
                || agent.turn(event).next.phase is Serving,
            GatewayActionView::Dump => agent.turn(event).next.phase is Dumping,
            GatewayActionView::Sleep { .. } => agent.turn(event).next.phase is Resting,
        },
{
}

/// The agent never gives up: a session that ends is followed by a rest, and the
/// rest by the next session. There are never two sessions at once, since the next
/// is begun only from a rest.
pub proof fn law_sessions_follow_each_other(agent: AgentView, event: GatewayEvent)
    requires
        agent.expects(event),
    ensures
        agent.turn(event).next.phase is Resting ==> agent.turn(event).action
            == (GatewayActionView::Sleep { secs: RETRY_SECS }),
        agent.turn(event).action is Sleep ==> agent.turn(event).next.phase is Resting,
        agent.phase is Resting ==> agent.turn(event).action == (GatewayActionView::Connect {
            url: agent.ws_url,
        }),
        agent.turn(event).action is Connect ==> agent.phase is Resting,
{
}

/// Every session goes to the same gateway, under the same name.
pub proof fn law_target_is_fixed(agent: AgentView, events: Seq<GatewayEvent>)
    ensures
        after(agent, events).ws_url == agent.ws_url,
        after(agent, events).hostname == agent.hostname,
    decreases events.len(),
{
    if events.len() > 0 {
        law_target_is_fixed(agent, events.drop_last());
    }
}

/// Once registered, a session ends only with its connection: no request, however
/// malformed, and no dump, however it comes out, ends it.
pub proof fn law_session_outlives_requests(agent: AgentView, event: GatewayEvent)
    requires
        agent.expects(event),
        agent.phase is Serving || agent.phase is Dumping || agent.phase is Answering,
    ensures
        agent.turn(event).next.phase is Resting <==> event is Closed || event is Failed,
        event is Closed ==> agent.turn(event).log == Some(end_line(Ok(()))),
        event matches GatewayEvent::Failed(reason) ==> agent.turn(event).log == Some(
            end_line(Err(reason@)),
        ),
{
}

/// Before the gateway has replied to the registration, nothing is answered and no
/// profile is dumped; nothing is even received before the registration is sent.
pub proof fn law_nothing_served_before_registration(agent: AgentView, event: GatewayEvent)
    requires
        agent.expects(event),
        agent.phase is Connecting || agent.phase is Greeting || agent.phase is Registering,
    ensures
        !(agent.turn(event).action is Dump),
        says(agent, event) matches Some(message) ==> message is Register,
        agent.turn(event).action is Receive ==> !(agent.phase is Connecting),
        agent.phase is Greeting && agent.turn(event).action is Receive ==> event is Sent,
{
}

/// Where connecting fails, nothing is said, and the reason is logged.
pub proof fn law_failed_connection_says_nothing(agent: AgentView, reason: String)
    requires
        agent.phase is Connecting,
    ensures
        runs(agent, seq![GatewayEvent::Failed(reason)]),
        said(agent, seq![GatewayEvent::Failed(reason)]).len() == 0,
        after(agent, seq![GatewayEvent::Failed(reason)]).phase is Resting,
        agent.turn(GatewayEvent::Failed(reason)).log == Some(end_line(Err(reason@))),
{
    let events = seq![GatewayEvent::Failed(reason)];
    assert(events.drop_last() =~= Seq::empty());
    reveal_with_fuel(said, 2);
    reveal_with_fuel(runs, 2);
    reveal_with_fuel(after, 2);
}

proof fn lemma_connects_only_after_rest(agent: AgentView, events: Seq<GatewayEvent>)
    requires
        agent.phase is Connecting,
        runs(agent, events),
        events.len() > 0,
        forall|i: int| 0 <= i < events.len() ==> !((#[trigger] events[i]) is Slept),
    ensures
        !(after(agent, events).phase is Connecting),
    decreases events.len(),
{
    let head = events.drop_last();
    assert(!(events[events.len() - 1] is Slept));
    if head.len() > 0 {
        assert forall|i: int| 0 <= i < head.len() implies !((#[trigger] head[i]) is Slept) by {
            assert(head[i] == events[i]);
        }
        lemma_connects_only_after_rest(agent, head);
    }
}

/// A session begins with the registration, and it is not said again before the
/// next session: of all that is said in a session, the first and nothing else is
/// the registration.
pub proof fn law_registered_once(agent: AgentView, events: Seq<GatewayEvent>)
    requires
        agent.phase is Connecting,
        runs(agent, events),
        forall|i: int| 0 <= i < events.len() ==> !((#[trigger] events[i]) is Slept),
    ensures
        said(agent, events).len() > 0 ==> said(agent, events)[0] == (MessageView::Register {
            hostname: agent.hostname,
        }),
        forall|i: int|
            0 < i < said(agent, events).len() ==> !((#[trigger] said(agent, events)[i])
                is Register),
        events.len() > 0 && said(agent, events).len() == 0 ==> after(agent, events).phase
            is Resting,
    decreases events.len(),
{
    if events.len() > 0 {
        let head = events.drop_last();
        let last = events.last();
        assert forall|i: int| 0 <= i < head.len() implies !((#[trigger] head[i]) is Slept) by {
            assert(head[i] == events[i]);
        }
        assert(!(events[events.len() - 1] is Slept));
        law_registered_once(agent, head);
        law_target_is_fixed(agent, head);
        if head.len() > 0 {
            lemma_connects_only_after_rest(agent, head);
            assert(!(after(agent, head).phase is Connecting));
            assert(says(after(agent, head), last) matches Some(message) ==> !(message
                is Register));
        }
        assert forall|i: int| 0 < i < said(agent, events).len() implies !((#[trigger] said(
            agent,
            events,
        )[i]) is Register) by {
            if i < said(agent, head).len() {
                assert(said(agent, events)[i] == said(agent, head)[i]);
            }
        }
        if said(agent, head).len() > 0 {
            assert(said(agent, events)[0] == said(agent, head)[0]);
        }
    }
}

/// Something that comes in while requests are served: a text, or `None` for
/// something else. `dump` is what a dump would come to.
pub struct Frame {
    pub text: Option<String>,
    pub dump: Result<Vec<u8>, String>,
}

/// What the client does about a frame.
pub open spec fn reaction_to(frame: Frame) -> ReactionView {
    match frame.text {
        Some(text) => match request_in(json_members(text@)) {
            Some(request) => reaction(request),
            None => ReactionView::Ignore,
        },
        None => ReactionView::Ignore,
    }
}

/// The answer to a frame, if it is one to answer.
pub open spec fn answer_to(frame: Frame) -> Seq<MessageView> {
    match reaction_to(frame) {
        ReactionView::Ignore => Seq::empty(),
        ReactionView::Say(message) => seq![message],
        ReactionView::DumpHeap { id } => seq![heap_answer(id, dump_view(frame.dump))],
    }
}

/// The answers to `frames`, in order.
pub open spec fn answers_to(frames: Seq<Frame>) -> Seq<MessageView>
    decreases frames.len(),
{
    if frames.len() == 0 {
        Seq::empty()
    } else {
        answers_to(frames.drop_last()) + answer_to(frames.last())
    }
}

/// What happens when a frame comes in, as long as the connection holds.
pub open spec fn events_of_frame(frame: Frame) -> Seq<GatewayEvent> {
    let incoming = match frame.text {
        Some(text) => GatewayEvent::Text(text),
        None => GatewayEvent::Other,
    };
    match reaction_to(frame) {
        ReactionView::Ignore => seq![incoming],
        ReactionView::Say(_) => seq![incoming, GatewayEvent::Sent],
        ReactionView::DumpHeap { .. } => seq![
            incoming,
            GatewayEvent::Dumped(frame.dump),
            GatewayEvent::Sent,
        ],
    }
}

/// What happens when `frames` come in, one after the other.
pub open spec fn events_of(frames: Seq<Frame>) -> Seq<GatewayEvent>
    decreases frames.len(),
{
    if frames.len() == 0 {
        Seq::empty()
    } else {
        events_of(frames.drop_last()) + events_of_frame(frames.last())
    }
}

proof fn lemma_runs_joined(agent: AgentView, one: Seq<GatewayEvent>, other: Seq<GatewayEvent>)
    ensures
        after(agent, one + other) == after(after(agent, one), other),
        runs(agent, one) && runs(after(agent, one), other) ==> runs(agent, one + other),
        said(agent, one + other) == said(agent, one) + said(after(agent, one), other),
    decreases other.len(),
{
    let whole = one + other;
    if other.len() == 0 {
        assert(whole =~= one);
        assert(said(agent, one) + said(after(agent, one), other) =~= said(agent, one));
    } else {
        lemma_runs_joined(agent, one, other.drop_last());
        assert(whole.drop_last() =~= one + other.drop_last());
        assert(whole.last() == other.last());
        assert(said(agent, whole) =~= said(agent, one) + said(after(agent, one), other));
    }
}

#[verifier::rlimit(60)]
proof fn lemma_frame(agent: AgentView, frame: Frame)
    requires
        agent.phase is Serving,
    ensures
        runs(agent, events_of_frame(frame)),
        said(agent, events_of_frame(frame)) == answer_to(frame),
        after(agent, events_of_frame(frame)) == agent,
{
    reveal_with_fuel(after, 4);
    reveal_with_fuel(runs, 4);
    reveal_with_fuel(said, 4);
    let events = events_of_frame(frame);
    let incoming = match frame.text {
        Some(text) => GatewayEvent::Text(text),
        None => GatewayEvent::Other,
    };
    assert(seq![incoming].drop_last() =~= Seq::empty());
    match reaction_to(frame) {
        ReactionView::Ignore => {
            assert(says(agent, incoming) is None);
        },
        ReactionView::Say(message) => {
            assert(events.drop_last() =~= seq![incoming]);
            assert(said(agent, events) =~= seq![message]);
        },
        ReactionView::DumpHeap { id } => {
            let dumped = GatewayEvent::Dumped(frame.dump);
            assert(events.drop_last() =~= seq![incoming, dumped]);
            assert(seq![incoming, dumped].drop_last() =~= seq![incoming]);
            assert(said(agent, events) =~= answer_to(frame));
        },
    }
}

/// Each request that is one to answer gets one answer, in the order of the
/// requests, and nothing else is said while requests are served.
pub proof fn law_one_answer_per_request(agent: AgentView, frames: Seq<Frame>)
    requires
        agent.phase is Serving,
    ensures
        runs(agent, events_of(frames)),
        said(agent, events_of(frames)) == answers_to(frames),
        after(agent, events_of(frames)) == agent,
    decreases frames.len(),
{
    if frames.len() > 0 {
        law_one_answer_per_request(agent, frames.drop_last());
        lemma_frame(agent, frames.last());
        lemma_runs_joined(
            agent,
            events_of(frames.drop_last()),
            events_of_frame(frames.last()),
        );
    }
}

/// The transcript of a session: the registration, then the answers to the
/// requests.
pub proof fn law_transcript_of_a_session(agent: AgentView, reply: String, frames: Seq<Frame>)
    requires
        agent.phase is Connecting,
        json_members(reply@) is Ok,
    ensures
        runs(agent, opening(reply) + events_of(frames)),
        said(agent, opening(reply) + events_of(frames)) == seq![
            MessageView::Register { hostname: agent.hostname },
        ] + answers_to(frames),
{
    reveal_with_fuel(after, 4);
    reveal_with_fuel(runs, 4);
    reveal_with_fuel(said, 4);
    let events = opening(reply);
    let register = MessageView::Register { hostname: agent.hostname };
    assert(seq![GatewayEvent::Connected].drop_last() =~= Seq::empty());
    assert(seq![GatewayEvent::Connected, GatewayEvent::Sent].drop_last() =~= seq![
        GatewayEvent::Connected,
    ]);
    assert(events.drop_last() =~= seq![GatewayEvent::Connected, GatewayEvent::Sent]);
    assert(said(agent, events) =~= seq![register]);
    let serving = after(agent, events);
    law_one_answer_per_request(serving, frames);
    lemma_runs_joined(agent, events, events_of(frames));
}

/// How a session is opened: the connection stands, the registration is sent, and
/// the gateway replies.
pub open spec fn opening(reply: String) -> Seq<GatewayEvent> {
    seq![GatewayEvent::Connected, GatewayEvent::Sent, GatewayEvent::Text(reply)]
}

/// What follows from the reply to the registration: the id that it has, or a
/// question mark, is logged, and requests are awaited; a reply that is not JSON ends
/// the session with the reason, and so does anything but a text.
pub proof fn law_reply_is_told(agent: AgentView, text: String, event: GatewayEvent)
    requires
        agent.phase is Registering,
    ensures
        match json_members(text@) {
            Ok(members) => {
                let turn = agent.turn(GatewayEvent::Text(text));
                &&& turn.action == GatewayActionView::Receive
                &&& turn.next == (AgentView { phase: PhaseView::Serving, ..agent })
                &&& forall|id: Seq<char>|
                    members.contains_pair("id"@, Some(id)) ==> turn.log == Some(
                        #[trigger] connected_line(agent.hostname, id),
                    )
                &&& (forall|id: Seq<char>| !#[trigger] members.contains_pair("id"@, Some(id)))
                    ==> turn.log == Some(connected_line(agent.hostname, "?"@))
            },
            Err(reason) => ended(agent, agent.turn(GatewayEvent::Text(text)), Err(reason)),
        },
        event is Other || event is Closed || event is Failed ==> ended(
            agent,
            agent.turn(event),
            Err("no registration reply"@),
        ),
{
    if json_members(text@) is Ok {
        let members = json_members(text@)->Ok_0;
        if member_text(members, "id"@) is Some {
            assert(members.contains_pair("id"@, Some(member_text(members, "id"@)->0)));
        }
    }
}

/// The session has ended like this: it is logged, and the agent rests for half a
/// minute.
pub open spec fn ended(agent: AgentView, turn: TurnView, end: Result<(), Seq<char>>) -> bool {
    &&& turn.log == Some(end_line(end))
    &&& turn.action == (GatewayActionView::Sleep { secs: 30 })
    &&& turn.next == (AgentView { phase: PhaseView::Resting, ..agent })
}

/// A connection that fails ends the session with its reason, wherever it stands but
/// for the reply; one that is closed while requests are served ends it without.
pub proof fn law_failure_is_told(agent: AgentView, reason: String)
    ensures
        agent.phase is Connecting || agent.phase is Greeting || agent.phase is Serving
            || agent.phase is Answering ==> ended(
            agent,
            agent.turn(GatewayEvent::Failed(reason)),
            Err(reason@),
        ),
        agent.phase is Serving ==> ended(agent, agent.turn(GatewayEvent::Closed), Ok(())),
{
}

/// While requests are served: a request is answered at once, or a dump is asked for
/// and its outcome is the answer, under the id of the request; what is no request is
/// passed over. Nothing of it is logged.
pub proof fn law_request_is_served(agent: AgentView, text: String, dump: Result<Vec<u8>, String>)
    requires
        agent.phase is Serving,
    ensures
        ({
            let turn = agent.turn(GatewayEvent::Text(text));
            &&& turn.log is None
            &&& match json_members(text@) {
                Err(_) => turn.action == GatewayActionView::Receive && turn.next == agent,
                Ok(members) => match reaction(request_of(members)) {
                    ReactionView::Ignore => turn.action == GatewayActionView::Receive
                        && turn.next == agent,
                    ReactionView::Say(message) => {
                        &&& turn.action == GatewayActionView::Send(
                            object_text(message.texts(), message.numbers(), message.objects()),
                        )
                        &&& turn.next == (AgentView { phase: PhaseView::Answering, ..agent })
                    },
                    ReactionView::DumpHeap { id } => {
                        let answer = heap_answer(
                            id,
                            match dump {
                                Ok(profile) => Ok(profile@),
                                Err(reason) => Err(reason@),
                            },
                        );
                        let then = turn.next.turn(GatewayEvent::Dumped(dump));
                        &&& turn.action == GatewayActionView::Dump
                        &&& then.log is None
                        &&& then.action == GatewayActionView::Send(
                            object_text(answer.texts(), answer.numbers(), answer.objects()),
                        )
                        &&& then.next == (AgentView { phase: PhaseView::Answering, ..agent })
                    },
                },
            }
        }),
        agent.turn(GatewayEvent::Other).action == GatewayActionView::Receive,
        agent.turn(GatewayEvent::Other).next == agent,
        agent.turn(GatewayEvent::Other).log is None,
{
}

/// A session is opened by the registration, which says the host, and the agent
/// waits for each thing in turn.
pub proof fn law_session_is_opened(agent: AgentView)
    ensures
        ({
            let hello = MessageView::Register { hostname: agent.hostname };
            let turn = agent.turn(GatewayEvent::Connected);
            agent.phase is Connecting ==> {
                &&& turn.log is None
                &&& turn.action == GatewayActionView::Send(
                    object_text(hello.texts(), hello.numbers(), hello.objects()),
                )
                &&& turn.next == (AgentView { phase: PhaseView::Greeting, ..agent })
            }
        }),
        agent.phase is Greeting ==> agent.turn(GatewayEvent::Sent) == (TurnView {
            next: AgentView { phase: PhaseView::Registering, ..agent },
            log: None,
            action: GatewayActionView::Receive,
        }),
        agent.phase is Answering ==> agent.turn(GatewayEvent::Sent) == (TurnView {
            next: AgentView { phase: PhaseView::Serving, ..agent },
            log: None,
            action: GatewayActionView::Receive,
        }),
        agent.phase is Resting ==> agent.turn(GatewayEvent::Slept) == (TurnView {
            next: AgentView { phase: PhaseView::Connecting, ..agent },
            log: None,
            action: GatewayActionView::Connect { url: agent.ws_url },
        }),
{
}

/// What stands in a reply or a request is taken from the parsed members alone.
pub proof fn law_outcome_of_parsing_decides(
    agent: AgentView,
    text: String,
    members: Result<Members, Seq<char>>,
)
    ensures
        members matches Err(reason) ==> reply_of(members) == Err::<Option<Seq<char>>, Seq<char>>(
            reason,
        ),
        members matches Ok(own) ==> reply_of(members) == Ok::<Option<Seq<char>>, Seq<char>>(
            member_text(own, "id"@),
        ),
        members matches Ok(own) ==> request_in(members) == Some(request_of(own)),
        members is Err ==> request_in(members) is None,
        agent.phase is Registering ==> agent.turn(GatewayEvent::Text(text)) == agent.replied(
            reply_of(json_members(text@)),
        ),
        agent.phase is Serving ==> agent.turn(GatewayEvent::Text(text)) == agent.requested(
            request_in(json_members(text@)),
        ),
{
}

/// What an agent is given and what it gives back is looked at whole: no part is left
/// out or changed.
pub proof fn law_step_is_looked_at_whole(
    agent: GatewayAgent,
    step: GatewayStep,
    reply: Result<Option<String>, String>,
    request: Result<Request, String>,
    phase: Phase,
)
    ensures
        turned(agent, step).next == agent@,
        step.log matches Some(line) ==> turned(agent, step).log == Some(line@),
        step.log is None ==> turned(agent, step).log is None,
        step.action matches GatewayAction::Send(text) ==> turned(agent, step).action
            == GatewayActionView::Send(text@),
        step.action matches GatewayAction::Connect { url } ==> turned(agent, step).action == (
        GatewayActionView::Connect { url: url@ }),
        step.action matches GatewayAction::Sleep { secs } ==> turned(agent, step).action == (
        GatewayActionView::Sleep { secs }),
        step.action is Receive ==> turned(agent, step).action == GatewayActionView::Receive,
        step.action is Dump ==> turned(agent, step).action == GatewayActionView::Dump,
        reply matches Ok(Some(id)) ==> reply_view(reply) == Ok::<Option<Seq<char>>, Seq<char>>(
            Some(id@),
        ),
        reply matches Ok(None) ==> reply_view(reply) == Ok::<Option<Seq<char>>, Seq<char>>(None),
        reply matches Err(reason) ==> reply_view(reply) == Err::<Option<Seq<char>>, Seq<char>>(
            reason@,
        ),
        request matches Ok(own) ==> request_view(request) == Some(own@),
        request is Err ==> request_view(request) is None,
        phase matches Phase::Dumping { id } ==> phase@ == (PhaseView::Dumping { id: id@ }),
{
}

/// What an agent waits for, in each phase.
pub proof fn law_what_is_waited_for(agent: AgentView, event: GatewayEvent)
    ensures
        agent.phase is Connecting ==> (agent.expects(event) <==> event is Connected || event
            is Failed),
        agent.phase is Greeting || agent.phase is Answering ==> (agent.expects(event) <==> event
            is Sent || event is Failed),
        agent.phase is Registering || agent.phase is Serving ==> (agent.expects(event) <==> event
            is Text || event is Other || event is Closed || event is Failed),
        agent.phase is Dumping ==> (agent.expects(event) <==> event is Dumped),
        agent.phase is Resting ==> (agent.expects(event) <==> event is Slept),
{
}

} // verus!
