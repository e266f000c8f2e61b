//! What holds of a pusher over any run of events.

use vstd::prelude::*;

use crate::profiler::ProfilerStatus;
use crate::pyroscope::accepted;
use crate::pyroscope::failed;
use crate::pyroscope::from;
use crate::pyroscope::push_params;
use crate::pyroscope::rest;
use crate::pyroscope::until;
use crate::pyroscope::url_with_params;
use crate::pyroscope::PusherAction;
use crate::pyroscope::PusherActionView;
use crate::pyroscope::PusherEvent;
use crate::pyroscope::PusherStep;
use crate::pyroscope::PusherView;
use crate::pyroscope::PyroscopeEnv;
use crate::pyroscope::PUSH_INTERVAL_SECS;
use crate::readers::read_decimal;
use crate::text::law_decimal_reads_back;

verus! {

/// The pusher after `events`.
pub open spec fn after(pusher: PusherView, events: Seq<PusherEvent>) -> PusherView
    decreases events.len(),
{
    if events.len() == 0 {
        pusher
    } else {
        after(pusher.next(events[0]), events.drop_first())
    }
}

/// How many of `events` are failures of the server to take a profile that are
/// logged.
pub open spec fn outage_warnings(pusher: PusherView, events: Seq<PusherEvent>) -> nat
    decreases events.len(),
{
    if events.len() == 0 {
        0
    } else {
        (if failed(events[0]) && pusher.step(events[0]).warning is Some {
            1nat
        } else {
            0
        }) + outage_warnings(pusher.next(events[0]), events.drop_first())
    }
}

/// An outage is logged once: while the server takes no profile, one failure is
/// logged if there is one and none was logged before, and no other.
pub proof fn law_one_warning_per_outage(pusher: PusherView, events: Seq<PusherEvent>)
    requires
        forall|i: int| 0 <= i < events.len() ==> !accepted(#[trigger] events[i]),
    ensures
        outage_warnings(pusher, events) == if !pusher.warned && (exists|i: int|
            0 <= i < events.len() && failed(#[trigger] events[i])) {
            1nat
        } else {
            0
        },
    decreases events.len(),
{
    if events.len() > 0 {
        let rest = events.drop_first();
        assert forall|i: int| 0 <= i < rest.len() implies !accepted(#[trigger] rest[i]) by {
            assert(rest[i] == events[i + 1]);
        }
        law_one_warning_per_outage(pusher.next(events[0]), rest);
        if exists|i: int| 0 <= i < events.len() && failed(#[trigger] events[i]) {
            let i = choose|i: int| 0 <= i < events.len() && failed(#[trigger] events[i]);
            if i > 0 {
                assert(rest[i - 1] == events[i]);
            }
        }
        if exists|i: int| 0 <= i < rest.len() && failed(#[trigger] rest[i]) {
            let i = choose|i: int| 0 <= i < rest.len() && failed(#[trigger] rest[i]);
            assert(rest[i] == events[i + 1]);
        }
    }
}

/// Once the server has taken a profile, the next failure is logged again.
pub proof fn law_recovery_is_noticed(pusher: PusherView, success: PusherEvent, failure: PusherEvent)
    requires
        accepted(success),
        failed(failure),
    ensures
        pusher.next(success).step(failure).warning is Some,
{
}

/// A profile is sent only after one was dumped, and dumped only while the
/// profiler is active.
pub proof fn law_sends_only_active_profiles(pusher: PusherView, event: PusherEvent)
    ensures
        pusher.step(event).action is Post ==> event is Dumped,
        pusher.step(event).action is Dump <==> event == PusherEvent::Woke(ProfilerStatus::Active),
{
}

/// Whatever happens, the pusher goes on but for one thing: a server that is not
/// named by an absolute URL.
pub proof fn law_stops_only_on_bad_server(pusher: PusherView, event: PusherEvent)
    ensures
        pusher.step(event).action is Stop <==> (event matches PusherEvent::Dumped { now, .. }
            && pusher.push_url(now) is None),
{
}

/// The server and the name never change.
pub proof fn law_target_is_fixed(pusher: PusherView, events: Seq<PusherEvent>)
    ensures
        after(pusher, events).server == pusher.server,
        after(pusher, events).name == pusher.name,
    decreases events.len(),
{
    if events.len() > 0 {
        law_target_is_fixed(pusher.next(events[0]), events.drop_first());
    }
}

/// The span of a push is one interval long, cut off at the epoch.
pub proof fn law_span_is_one_interval(until: u64)
    ensures
        from(until) <= until,
        until - from(until) <= PUSH_INTERVAL_SECS,
        until >= PUSH_INTERVAL_SECS ==> until - from(until) == PUSH_INTERVAL_SECS,
{
}

/// `event` is what can come of `action`.
pub open spec fn comes_of(event: PusherEvent, action: PusherActionView) -> bool {
    match action {
        PusherActionView::Sleep { .. } => event is Woke,
        PusherActionView::Dump => event is DumpFailed || event is Dumped,
        PusherActionView::Post { .. } => event is Answered || event is SendFailed,
        PusherActionView::Stop => false,
    }
}

/// `events` come of doing `action`, and what each of them asks for, in turn.
pub open spec fn runs(
    pusher: PusherView,
    action: PusherActionView,
    events: Seq<PusherEvent>,
) -> bool
    decreases events.len(),
{
    events.len() > 0 ==> {
        &&& comes_of(events[0], action)
        &&& runs(pusher.next(events[0]), pusher.step(events[0]).action, events.drop_first())
    }
}

/// How often a profile is sent on `events`.
pub open spec fn posts(pusher: PusherView, events: Seq<PusherEvent>) -> nat
    decreases events.len(),
{
    if events.len() == 0 {
        0
    } else {
        (if pusher.step(events[0]).action is Post {
            1nat
        } else {
            0
        }) + posts(pusher.next(events[0]), events.drop_first())
    }
}

/// The seconds that are slept until the last of `events`, which come of
/// `action` and of what each of them asks for.
pub open spec fn slept_secs(
    pusher: PusherView,
    action: PusherActionView,
    events: Seq<PusherEvent>,
) -> nat
    decreases events.len(),
{
    if events.len() == 0 {
        0
    } else {
        (match action {
            PusherActionView::Sleep { secs } => secs as nat,
            _ => 0,
        }) + slept_secs(
            pusher.next(events[0]),
            pusher.step(events[0]).action,
            events.drop_first(),
        )
    }
}

proof fn lemma_pushes_are_slept_for(
    pusher: PusherView,
    action: PusherActionView,
    events: Seq<PusherEvent>,
)
    requires
        runs(pusher, action, events),
        action matches PusherActionView::Sleep { secs } ==> secs == PUSH_INTERVAL_SECS,
    ensures
        PUSH_INTERVAL_SECS * posts(pusher, events) <= slept_secs(pusher, action, events)
            + if action is Dump {
            PUSH_INTERVAL_SECS
        } else {
            0
        },
    decreases events.len(),
{
    if events.len() > 0 {
        lemma_pushes_are_slept_for(
            pusher.next(events[0]),
            pusher.step(events[0]).action,
            events.drop_first(),
        );
    }
}

/// A pusher begins with a sleep, and each profile that it sends has a sleep of
/// one interval of its own before it. So no profile is sent before the first
/// interval is over, and never more of them than intervals have passed, however
/// long the rest takes.
pub proof fn law_each_push_is_slept_for(
    pusher: PusherView,
    events: Seq<PusherEvent>,
    elapsed_secs: nat,
)
    requires
        runs(pusher, rest(), events),
        elapsed_secs >= slept_secs(pusher, rest(), events),
    ensures
        posts(pusher, events) <= elapsed_secs / PUSH_INTERVAL_SECS as nat,
        elapsed_secs < PUSH_INTERVAL_SECS ==> posts(pusher, events) == 0,
{
    lemma_pushes_are_slept_for(pusher, rest(), events);
}

/// The profiles that are dumped on `events`, in order.
pub open spec fn dumped(events: Seq<PusherEvent>) -> Seq<Seq<u8>>
    decreases events.len(),
{
    if events.len() == 0 {
        Seq::empty()
    } else {
        (match events[0] {
            PusherEvent::Dumped { profile, .. } => seq![profile@],
            _ => Seq::empty(),
        }) + dumped(events.drop_first())
    }
}

/// The bodies that are sent on `events`, in order.
pub open spec fn posted(pusher: PusherView, events: Seq<PusherEvent>) -> Seq<Seq<u8>>
    decreases events.len(),
{
    if events.len() == 0 {
        Seq::empty()
    } else {
        (match pusher.step(events[0]).action {
            PusherActionView::Post { body, .. } => seq![body],
            _ => Seq::empty(),
        }) + posted(pusher.next(events[0]), events.drop_first())
    }
}

/// Each profile that is dumped is sent once, unchanged and in order, and nothing
/// else is sent, as long as the server is named by an absolute URL.
pub proof fn law_each_dump_is_pushed_unchanged(pusher: PusherView, events: Seq<PusherEvent>)
    requires
        forall|i: int|
            0 <= i < events.len() ==> ((#[trigger] events[i]) matches PusherEvent::Dumped {
                now,
                ..
            } ==> pusher.push_url(now) is Some),
    ensures
        posted(pusher, events) == dumped(events),
    decreases events.len(),
{
    if events.len() > 0 {
        let next = pusher.next(events[0]);
        let rest = events.drop_first();
        assert forall|i: int| 0 <= i < rest.len() implies ((
        #[trigger] rest[i]) matches PusherEvent::Dumped { now, .. } ==> next.push_url(now)
            is Some) by {
            assert(rest[i] == events[i + 1]);
        }
        law_each_dump_is_pushed_unchanged(next, rest);
        assert(events[0] matches PusherEvent::Dumped { now, .. } ==> pusher.push_url(now)
            is Some);
    }
}

/// A push goes to the URL of its own time, with the profile that was dumped.
pub proof fn law_push_carries_the_profile(pusher: PusherView, profile: Vec<u8>, now: Option<u64>)
    ensures
        match pusher.push_url(now) {
            Some(url) => pusher.step(PusherEvent::Dumped { profile, now }).action
                == (PusherActionView::Post { url, body: profile@ }),
            None => pusher.step(PusherEvent::Dumped { profile, now }).action
                == PusherActionView::Stop,
        },
{
}

/// Where there is no profile, because there is no profiler, because it is
/// switched off or because the dump fails, nothing is sent, and the pusher sleeps
/// until the next push.
pub proof fn law_no_profile_no_push(pusher: PusherView, event: PusherEvent)
    requires
        match event {
            PusherEvent::Woke(status) => status != ProfilerStatus::Active,
            PusherEvent::DumpFailed(_) => true,
            _ => false,
        },
    ensures
        pusher.step(event).action == rest(),
{
}

/// Of all that was sent, the last was not taken.
pub open spec fn last_push_failed(events: Seq<PusherEvent>) -> bool
    decreases events.len(),
{
    if events.len() == 0 || accepted(events.last()) {
        false
    } else {
        failed(events.last()) || last_push_failed(events.drop_last())
    }
}

proof fn lemma_after_last(pusher: PusherView, events: Seq<PusherEvent>)
    requires
        events.len() > 0,
    ensures
        after(pusher, events) == after(pusher, events.drop_last()).next(events.last()),
    decreases events.len(),
{
    if events.len() == 1 {
        assert(events.drop_first() =~= Seq::empty());
        assert(events.drop_last() =~= Seq::empty());
        reveal_with_fuel(after, 2);
    } else {
        lemma_after_last(pusher.next(events[0]), events.drop_first());
        assert(events.drop_first().drop_last() =~= events.drop_last().drop_first());
    }
}

/// Over the whole life of a pusher: it has warned of an outage if and only if the
/// last push failed. So a failure is logged if and only if the push before it was
/// taken or there was none, that is, once for each outage, at its beginning.
pub proof fn law_outages_are_logged_at_their_beginning(
    pusher: PusherView,
    events: Seq<PusherEvent>,
    event: PusherEvent,
)
    requires
        !pusher.warned,
    ensures
        after(pusher, events).warned == last_push_failed(events),
        failed(event) ==> (after(pusher, events).step(event).warning is Some <==> !last_push_failed(
            events,
        )),
        accepted(event) ==> after(pusher, events).step(event).warning is None,
    decreases events.len(),
{
    if events.len() > 0 {
        law_outages_are_logged_at_their_beginning(pusher, events.drop_last(), event);
        lemma_after_last(pusher, events);
    }
}

/// Parameters of a push that can be read: the name, the span, which ends at `now`,
/// or at the epoch where the clock stands before it, and the format.
pub open spec fn reads_as_push(
    params: Seq<(Seq<char>, Seq<char>)>,
    name: Seq<char>,
    now: Option<u64>,
) -> bool {
    let end = match now {
        Some(now) => now as nat,
        None => 0,
    };
    let begin = if end >= 60 {
        (end - 60) as nat
    } else {
        0
    };
    &&& params.len() == 4
    &&& params[0] == ("name"@, name)
    &&& params[1].0 == "from"@
    &&& read_decimal(params[1].1) == Some(begin)
    &&& params[2].0 == "until"@
    &&& read_decimal(params[2].1) == Some(end)
    &&& params[3] == ("format"@, "pprof"@)
}

/// A push goes to the server's place for profiles, with parameters that read back
/// as the name of the pusher and the sixty seconds up to now, whenever that is.
pub proof fn law_push_url_tells_name_and_span(pusher: PusherView, now: Option<u64>)
    ensures
        reads_as_push(push_params(pusher.name, until(now)), pusher.name, now),
        exists|params: Seq<(Seq<char>, Seq<char>)>| #[trigger]
            url_with_params(pusher.server + "/ingest"@, params) == pusher.push_url(now)
                && reads_as_push(params, pusher.name, now),
{
    let params = push_params(pusher.name, until(now));
    law_decimal_reads_back(until(now) as nat);
    law_decimal_reads_back(from(until(now)) as nat);
    assert(url_with_params(pusher.server + "/ingest"@, params) == pusher.push_url(now));
}

/// A pusher is asked for by a server that is named, and pushes under the name of
/// the application, which says the pod and the node. What is not set has a
/// default.
pub proof fn law_name_says_application_pod_and_node(
    env: PyroscopeEnv,
    app: Seq<char>,
    pod: Seq<char>,
    node: Seq<char>,
)
    requires
        env.app_name matches Some(text) ==> app == text@,
        env.app_name is None ==> app == "frontend"@,
        env.pod_name matches Some(text) ==> pod == text@,
        env.pod_name is None ==> (env.hostname matches Some(text) ==> pod == text@),
        env.pod_name is None && env.hostname is None ==> pod == "unknown"@,
        env.node_name matches Some(text) ==> node == text@,
        env.node_name is None ==> node == "unknown"@,
    ensures
        env.push_name() == app + "{pod="@ + pod + ",node="@ + node + "}"@,
        env.enabled() <==> (env.server matches Some(server) && server@.len() > 0),
{
}

/// What is logged of each event, and what is done.
pub proof fn law_what_is_logged(
    pusher: PusherView,
    code: u16,
    status: String,
    reason: String,
    profile: Vec<u8>,
    now: Option<u64>,
)
    ensures
        pusher.step(PusherEvent::DumpFailed(reason)).warning == Some(
            "pyroscope pusher: dump_pprof failed: "@ + reason@,
        ),
        pusher.push_url(now) is None ==> pusher.step(
            PusherEvent::Dumped { profile, now },
        ).warning == Some("pyroscope pusher: invalid PYROSCOPE_URL: "@ + pusher.server),
        pusher.push_url(now) is Some ==> pusher.step(
            PusherEvent::Dumped { profile, now },
        ).warning is None,
        200 <= code <= 299 ==> pusher.step(PusherEvent::Answered { code, status }).warning is None,
        200 <= code <= 299 ==> !pusher.next(PusherEvent::Answered { code, status }).warned,
        !(200 <= code <= 299) ==> pusher.next(PusherEvent::Answered { code, status }).warned,
        !(200 <= code <= 299) && !pusher.warned ==> pusher.step(
            PusherEvent::Answered { code, status },
        ).warning == Some("pyroscope pusher: ingest returned "@ + status@),
        pusher.next(PusherEvent::SendFailed(reason)).warned,
        !pusher.warned ==> pusher.step(PusherEvent::SendFailed(reason)).warning == Some(
            "pyroscope pusher: ingest failed: "@ + reason@,
        ),
        pusher.step(PusherEvent::Answered { code, status }).action == (PusherActionView::Sleep {
            secs: 60,
        }),
        pusher.step(PusherEvent::SendFailed(reason)).action == (PusherActionView::Sleep {
            secs: 60,
        }),
        pusher.step(PusherEvent::DumpFailed(reason)).action == (PusherActionView::Sleep {
            secs: 60,
        }),
        rest() == (PusherActionView::Sleep { secs: 60 }),
{
}

/// A step is decided by the URL that the push goes to, and by nothing else.
pub proof fn law_url_decides_the_push(
    pusher: PusherView,
    profile: Vec<u8>,
    now: Option<u64>,
    url: Seq<char>,
)
    ensures
        pusher.step_to(PusherEvent::Dumped { profile, now }, Some(url)).action == (
        PusherActionView::Post { url, body: profile@ }),
        pusher.step_to(PusherEvent::Dumped { profile, now }, Some(url)).warning is None,
        pusher.step_to(PusherEvent::Dumped { profile, now }, None).action
            == PusherActionView::Stop,
        pusher.step_to(PusherEvent::Dumped { profile, now }, None).warning == Some(
            "pyroscope pusher: invalid PYROSCOPE_URL: "@ + pusher.server,
        ),
        pusher.step(PusherEvent::Dumped { profile, now }) == pusher.step_to(
            PusherEvent::Dumped { profile, now },
            pusher.push_url(now),
        ),
{
}

/// Any other event is decided without a URL.
pub proof fn law_other_events_need_no_url(
    pusher: PusherView,
    event: PusherEvent,
    url: Option<Seq<char>>,
)
    requires
        !(event is Dumped),
    ensures
        pusher.step_to(event, url) == pusher.step(event),
{
}

/// An action and a step are looked at whole: no part is left out or changed.
pub proof fn law_step_is_looked_at_whole(step: PusherStep)
    ensures
        step.action matches PusherAction::Post { url, body } ==> step@.action == (
        PusherActionView::Post { url: url@, body: body@ }),
        step.action matches PusherAction::Sleep { secs } ==> step@.action == (
        PusherActionView::Sleep { secs }),
        step.action is Dump ==> step@.action == PusherActionView::Dump,
        step.action is Stop ==> step@.action == PusherActionView::Stop,
        step.warning matches Some(text) ==> step@.warning == Some(text@),
        step.warning is None ==> step@.warning is None,
{
}

/// How long the server and the name may be.
pub proof fn law_what_fits_into_a_url(env: PyroscopeEnv)
    requires
        env.enabled(),
    ensures
        env.fits() <==> 192 * (env.server->0@.len() + 7) + 12 * (env.push_name().len() + 68) + 64
            <= 0xffff_ffff,
{
    reveal_strlit("/ingest");
}

/// Waking up is not logged, and changes nothing; an active profiler is asked for a
/// profile.
pub proof fn law_waking_up(pusher: PusherView, status: ProfilerStatus)
    ensures
        pusher.step(PusherEvent::Woke(status)).warning is None,
        pusher.next(PusherEvent::Woke(status)) == pusher,
        status == ProfilerStatus::Active ==> pusher.step(PusherEvent::Woke(status)).action
            == PusherActionView::Dump,
        status != ProfilerStatus::Active ==> pusher.step(PusherEvent::Woke(status)).action == (
        PusherActionView::Sleep { secs: 60 }),
{
}

} // verus!
