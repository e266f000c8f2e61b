//! What holds of every request of a gateway and of its answer.

use vstd::prelude::*;

use crate::base64_text::law_base64_reads_back;
use crate::base64_text::law_text_tells_bytes;
use crate::gateway::connected_line;
use crate::gateway::end_line;
use crate::gateway::heap_answer;
use crate::gateway::reaction;
use crate::gateway::request_of;
use crate::gateway::ws_url;
use crate::gateway::GatewayEnv;
use crate::gateway::LogLine;
use crate::gateway::LogLineView;
use crate::gateway::Message;
use crate::gateway::MessageView;
use crate::gateway::Reaction;
use crate::gateway::ReactionView;
use crate::gateway::Request;
use crate::gateway::RequestView;
use crate::json::member_text;
use crate::json::members_of;
use crate::json::object_text;
use crate::json::Members;
use crate::listing::lists;
use crate::readers::read_base64;
use crate::text::before;
use crate::text::lemma_before_all;

verus! {

/// The request that a message answers, if it answers one.
pub open spec fn answers(message: MessageView, id: Seq<char>) -> bool {
    message matches MessageView::Profile { id: own, .. } && own == id
}

/// A request for a profile that carries an id is answered under that id: at
/// once, or with the outcome of the dump that it leads to.
pub proof fn law_answered_under_own_id(
    request: RequestView,
    id: Seq<char>,
    url: Seq<char>,
    dump: Result<Seq<u8>, Seq<char>>,
)
    requires
        request.kind != Some("statsviz_start"@),
        request.id == Some(id),
        request.url == Some(url),
    ensures
        match reaction(request) {
            ReactionView::Say(message) => answers(message, id),
            ReactionView::DumpHeap { id: own } => own == id && answers(heap_answer(own, dump), id),
            ReactionView::Ignore => false,
        },
{
}

/// A request for another profile than that of the heap is answered with 404,
/// and no profile is dumped for it.
pub proof fn law_other_profiles_not_found(request: RequestView, id: Seq<char>, url: Seq<char>)
    requires
        request.kind != Some("statsviz_start"@),
        request.id == Some(id),
        request.url == Some(url),
        before(url, '?') != "/debug/pprof/heap"@,
    ensures
        reaction(request) matches ReactionView::Say(MessageView::Profile { status_code, body, .. })
            && status_code == 404 && body.len() == 0,
{
}

/// A request for a live view is always turned down, under its id if it has one:
/// the gateway never waits in vain.
pub proof fn law_live_view_turned_down(request: RequestView)
    requires
        request.kind == Some("statsviz_start"@),
    ensures
        reaction(request) matches ReactionView::Say(MessageView::StatsvizError { id })
            && (request.id is Some ==> request.id == Some(id)),
{
}

/// The query of a URL does not matter: a request is treated as if its URL ended
/// before the question mark.
pub proof fn law_query_does_not_matter(
    request: RequestView,
    path: Seq<char>,
    query: Seq<char>,
)
    requires
        !path.contains('?'),
    ensures
        reaction(RequestView { url: Some(path + seq!['?'] + query), ..request }) == reaction(
            RequestView { url: Some(path), ..request },
        ),
{
    lemma_before_all(path, '?', query);
}

/// The answer with a profile tells the profile: no two profiles have one answer.
pub proof fn law_answer_tells_profile(id: Seq<char>, one: Seq<u8>, other: Seq<u8>)
    requires
        heap_answer(id, Ok(one)) == heap_answer(id, Ok(other)),
    ensures
        one == other,
{
    law_text_tells_bytes(one, other);
}

/// The status of an answer tells whether there is a profile in it: 200 with a
/// body and no error, or 500 with the reason and no body.
pub proof fn law_status_tells_outcome(id: Seq<char>, dump: Result<Seq<u8>, Seq<char>>)
    ensures
        heap_answer(id, dump) matches MessageView::Profile { status_code, body, error, .. } && {
            &&& status_code == 200 <==> dump is Ok
            &&& status_code == 500 <==> dump is Err
            &&& dump is Ok ==> error.len() == 0
            &&& dump matches Err(reason) ==> body.len() == 0 && error == reason
        },
{
}

/// A secure gateway is connected to over a secure web socket, one that is not
/// over one that is not.
pub proof fn law_scheme_is_kept(rest: Seq<char>)
    ensures
        ws_url("https://"@ + rest) == "wss://"@ + rest + "/connect"@,
        ws_url("http://"@ + rest) == "ws://"@ + rest + "/connect"@,
{
    reveal_strlit("https://");
    reveal_strlit("http://");
    let secure = "https://"@ + rest;
    let plain = "http://"@ + rest;
    assert("https://"@.is_prefix_of(secure)) by {
        assert(secure.take(8) =~= "https://"@);
    }
    assert(secure.skip(8) =~= rest);
    assert("http://"@.is_prefix_of(plain)) by {
        assert(plain.take(7) =~= "http://"@);
    }
    assert(plain.skip(7) =~= rest);
    assert(!"https://"@.is_prefix_of(plain)) by {
        assert(plain[4] == ':' && "https://"@[4] == 's');
    }
}

/// The answer to a heap request carries the dumped profile: its body reads back as
/// the profile, all of it and in order, whatever the profile is. Where there is
/// none, the answer carries the reason.
pub proof fn law_answer_carries_the_profile(id: Seq<char>, profile: Seq<u8>, reason: Seq<char>)
    ensures
        heap_answer(id, Ok(profile)) matches MessageView::Profile {
            id: own,
            status_code,
            body,
            content_type,
            error,
        } && own == id && status_code == 200 && read_base64(body) == Some(profile)
            && content_type == "application/octet-stream"@ && error.len() == 0,
        heap_answer(id, Err(reason)) == (MessageView::Profile {
            id,
            status_code: 500,
            body: Seq::empty(),
            content_type: Seq::empty(),
            error: reason,
        }),
{
    law_base64_reads_back(profile);
}

/// The members of a message are what the message says. `members` are those that
/// its JSON text has, as [`Message::json`] shows.
pub proof fn law_message_reads_back(message: MessageView, members: Members)
    requires
        lists(message.members(), members),
    ensures
        match message {
            MessageView::Register { hostname } => {
                &&& member_text(members, "service"@) == Some("frontend"@)
                &&& member_text(members, "hostname"@) == Some(hostname)
                &&& message.members().len() == 2
            },
            MessageView::StatsvizError { id } => {
                &&& member_text(members, "type"@) == Some("statsviz_error"@)
                &&& member_text(members, "id"@) == Some(id)
                &&& member_text(members, "error"@) == Some("statsviz not supported by rari"@)
                &&& message.members().len() == 3
            },
            MessageView::Profile { id, body, content_type, error, .. } => {
                &&& member_text(members, "id"@) == Some(id)
                &&& member_text(members, "body"@) == Some(body)
                &&& member_text(members, "content_type"@) == Some(content_type)
                &&& member_text(members, "error"@) == Some(error)
                &&& members.contains_key("status_code"@)
                &&& members.contains_key("headers"@)
                &&& message.members().len() == 6
            },
        },
{
    let own = message.members();
    match message {
        MessageView::Register { hostname } => {
            lemma_listed(own, members, 0);
            lemma_listed(own, members, 1);
            assert(own[0] == ("service"@, Some("frontend"@)));
            assert(own[1] == ("hostname"@, Some(hostname)));
        },
        MessageView::StatsvizError { id } => {
            lemma_listed(own, members, 0);
            lemma_listed(own, members, 1);
            lemma_listed(own, members, 2);
            assert(own[0] == ("type"@, Some("statsviz_error"@)));
            assert(own[1] == ("id"@, Some(id)));
            assert(own[2] == ("error"@, Some("statsviz not supported by rari"@)));
        },
        MessageView::Profile { id, status_code, body, content_type, error } => {
            lemma_listed(own, members, 0);
            lemma_listed(own, members, 1);
            lemma_listed(own, members, 2);
            lemma_listed(own, members, 3);
            lemma_listed(own, members, 4);
            lemma_listed(own, members, 5);
            assert(own[0] == ("id"@, Some(id)));
            assert(own[1] == ("body"@, Some(body)));
            assert(own[2] == ("content_type"@, Some(content_type)));
            assert(own[3] == ("error"@, Some(error)));
            assert(own[4] == ("status_code"@, None::<Seq<char>>));
            assert(own[5] == ("headers"@, None::<Seq<char>>));
        },
    }
}

proof fn lemma_listed(
    entries: Seq<(Seq<char>, Option<Seq<char>>)>,
    members: Members,
    i: int,
)
    requires
        lists(entries, members),
        0 <= i < entries.len(),
    ensures
        members.contains_key(entries[i].0),
        members[entries[i].0] == entries[i].1,
        member_text(members, entries[i].0) == entries[i].1,
{
    assert(members.contains_pair(entries[i].0, entries[i].1));
}

/// The number in an answer is its status, and its headers are an empty object.
pub proof fn law_numbers_and_objects(message: MessageView)
    ensures
        message matches MessageView::Profile { status_code, .. } ==> message.numbers() == seq![
            ("status_code"@, status_code),
        ] && message.objects() == seq!["headers"@],
        !(message is Profile) ==> message.numbers().len() == 0 && message.objects().len() == 0,
        message.json() == object_text(message.texts(), message.numbers(), message.objects()),
        message.members() == members_of(message.texts(), message.numbers(), message.objects()),
{
}

/// What is done about a request, whatever its URL has behind a question mark: a heap
/// profile is dumped under the id of the request, another profile is turned down
/// under that id, and without an id or a URL nothing is done.
pub proof fn law_what_is_done_about_a_request(
    request: RequestView,
    id: Seq<char>,
    path: Seq<char>,
    query: Seq<char>,
)
    requires
        !path.contains('?'),
        request.id == Some(id),
        request.url == Some(path) || request.url == Some(path + seq!['?'] + query),
        request.kind != Some("statsviz_start"@),
    ensures
        path == "/debug/pprof/heap"@ ==> reaction(request) == (ReactionView::DumpHeap { id }),
        path != "/debug/pprof/heap"@ ==> reaction(request) == ReactionView::Say(
            MessageView::Profile {
                id,
                status_code: 404,
                body: Seq::empty(),
                content_type: Seq::empty(),
                error: "profile "@ + path + " not supported by rari (heap only)"@,
            },
        ),
{
    lemma_before_all(path, '?', query);
}

/// A request for a live view is turned down under its id, or under none; what has
/// no id or no URL, and is no such request, is ignored.
pub proof fn law_what_is_no_request_for_a_profile(request: RequestView)
    ensures
        request.kind == Some("statsviz_start"@) ==> reaction(request) == ReactionView::Say(
            MessageView::StatsvizError {
                id: if request.id is Some {
                    request.id->0
                } else {
                    Seq::empty()
                },
            },
        ),
        request.kind != Some("statsviz_start"@) && (request.id is None || request.url is None)
            ==> reaction(request) == ReactionView::Ignore,
{
}

/// A request is what stands in the members `type`, `id` and `url`, where they are
/// texts.
pub proof fn law_request_is_its_members(members: Members, text: Seq<char>)
    ensures
        request_of(members).kind == Some(text) <==> members.contains_pair("type"@, Some(text)),
        request_of(members).id == Some(text) <==> members.contains_pair("id"@, Some(text)),
        request_of(members).url == Some(text) <==> members.contains_pair("url"@, Some(text)),
{
}

/// A gateway that is named by another scheme, or by none, is connected to as it is
/// named.
pub proof fn law_other_schemes_are_kept(gateway: Seq<char>)
    requires
        forall|rest: Seq<char>| gateway != #[trigger] ("https://"@ + rest),
        forall|rest: Seq<char>| gateway != #[trigger] ("http://"@ + rest),
    ensures
        ws_url(gateway) == gateway + "/connect"@,
{
    if "https://"@.is_prefix_of(gateway) {
        let rest = gateway.skip("https://"@.len() as int);
        assert(gateway =~= "https://"@ + rest);
    }
    if "http://"@.is_prefix_of(gateway) {
        let rest = gateway.skip("http://"@.len() as int);
        assert(gateway =~= "http://"@ + rest);
    }
}

/// A client is asked for by a gateway that is named. It says the host, and the node
/// behind it where that is known.
pub proof fn law_client_says_host_and_node(env: GatewayEnv, host: Seq<char>)
    requires
        env.hostname matches Some(text) ==> host == text@,
        env.hostname is None ==> host == "rari-unknown"@,
    ensures
        env.node_name matches Some(node) ==> env.full_hostname() == host + "@"@ + node@,
        env.node_name is None ==> env.full_hostname() == host,
        env.enabled() <==> (env.gateway matches Some(gateway) && gateway@.len() > 0),
{
}

/// What is logged of a session.
pub proof fn law_what_is_logged_of_a_session(
    hostname: Seq<char>,
    connection: Seq<char>,
    reason: Seq<char>,
)
    ensures
        connected_line(hostname, connection) == LogLineView::Info(
            "connected to pprof gateway as "@ + hostname + " (id="@ + connection + ")"@,
        ),
        end_line(Ok(())) == LogLineView::Info("pprof-gateway session closed; reconnecting"@),
        end_line(Err(reason)) == LogLineView::Warn(
            "pprof-gateway connect failed: "@ + reason + "; retrying in 30s"@,
        ),
{
}

/// A message is looked at whole: no part is left out or changed.
pub proof fn law_message_is_looked_at_whole(message: Message)
    ensures
        message matches Message::Register { hostname } ==> message@ == (MessageView::Register {
            hostname: hostname@,
        }),
        message matches Message::StatsvizError { id } ==> message@ == (
        MessageView::StatsvizError { id: id@ }),
        message matches Message::Profile { id, status_code, body, content_type, error } ==> message@
            == (MessageView::Profile {
            id: id@,
            status_code,
            body: body@,
            content_type: content_type@,
            error: error@,
        }),
{
}

/// A request, what is done about it and a line of the log are looked at whole.
pub proof fn law_rest_is_looked_at_whole(request: Request, reaction: Reaction, line: LogLine)
    ensures
        request.kind matches Some(kind) ==> request@.kind == Some(kind@),
        request.kind is None ==> request@.kind is None,
        request.id matches Some(id) ==> request@.id == Some(id@),
        request.id is None ==> request@.id is None,
        request.url matches Some(url) ==> request@.url == Some(url@),
        request.url is None ==> request@.url is None,
        reaction is Ignore ==> reaction@ == ReactionView::Ignore,
        reaction matches Reaction::Say(message) ==> reaction@ == ReactionView::Say(message@),
        reaction matches Reaction::DumpHeap { id } ==> reaction@ == (ReactionView::DumpHeap {
            id: id@,
        }),
        line matches LogLine::Info(text) ==> line@ == LogLineView::Info(text@),
        line matches LogLine::Warn(text) ==> line@ == LogLineView::Warn(text@),
{
}

} // verus!
