//! What is said between a profile gateway and its client: the client says which
//! host it is, and answers requests. Only heap profiles can be asked for.

use vstd::prelude::*;

use crate::base64_text::base64_len;
use crate::base64_text::base64_text;
use crate::base64_text::encode;
use crate::json::distinct;
use crate::json::json_members;
use crate::json::member_text;
use crate::json::members_of;
use crate::json::object_text;
use crate::json::write_object;
use crate::json::JsonMembers;
use crate::json::Members;
use crate::listing::lists;
use crate::profiler::dump_view;
use crate::text::before;
use crate::text::join;
use crate::text::or_default;
use crate::text::same_text;
use crate::text::strip_prefix;
use crate::text::stripped;
use crate::text::take_before;
use crate::text::unwrap_or;

verus! {

/// Seconds between the end of a session and the next attempt.
pub const RETRY_SECS: u64 = 30;

/// The variables of the environment that the client reads, where they are set.
pub struct GatewayEnv {
    /// `PPROF_GATEWAY_URL`.
    pub gateway: Option<String>,
    /// `HOSTNAME`.
    pub hostname: Option<String>,
    /// `NODE_NAME`.
    pub node_name: Option<String>,
}

impl GatewayEnv {
    /// There is a gateway to connect to.
    pub open spec fn enabled(&self) -> bool {
        self.gateway matches Some(gateway) && gateway@.len() > 0
    }

    /// The name of the host, with that of its node where it is known.
    pub open spec fn full_hostname(&self) -> Seq<char> {
        let hostname = or_default(self.hostname, "rari-unknown"@);
        match self.node_name {
            Some(node) => hostname + "@"@ + node@,
            None => hostname,
        }
    }
}

/// Where the gateway at `gateway` takes connections: over a web socket, that is
/// secure where the gateway is.
pub open spec fn ws_url(gateway: Seq<char>) -> Seq<char> {
    match (stripped(gateway, "https://"@), stripped(gateway, "http://"@)) {
        (Some(rest), _) => "wss://"@ + rest + "/connect"@,
        (None, Some(rest)) => "ws://"@ + rest + "/connect"@,
        (None, None) => gateway + "/connect"@,
    }
}

/// Which gateway to connect to, and under what name.
pub struct GatewayClient {
    pub ws_url: String,
    pub hostname: String,
}

fn ws_url_of(gateway: &str) -> (res: String)
    ensures
        res@ == ws_url(gateway@),
{
    if let Some(rest) = strip_prefix(gateway, "https://") {
        join(join("wss://", rest).as_str(), "/connect")
    } else if let Some(rest) = strip_prefix(gateway, "http://") {
        join(join("ws://", rest).as_str(), "/connect")
    } else {
        join(gateway, "/connect")
    }
}

/// A line for the log.
pub enum LogLine {
    Info(String),
    Warn(String),
}

/// What a [`LogLine`] holds.
pub enum LogLineView {
    Info(Seq<char>),
    Warn(Seq<char>),
}

impl View for LogLine {
    type V = LogLineView;

    open spec fn view(&self) -> LogLineView {
        match self {
            LogLine::Info(text) => LogLineView::Info(text@),
            LogLine::Warn(text) => LogLineView::Warn(text@),
        }
    }
}

/// What is logged once the gateway has replied to the registration.
pub open spec fn connected_line(hostname: Seq<char>, connection: Seq<char>) -> LogLineView {
    LogLineView::Info(
        "connected to pprof gateway as "@ + hostname + " (id="@ + connection + ")"@,
    )
}

/// What is logged of the end of a session.
pub open spec fn end_line(end: Result<(), Seq<char>>) -> LogLineView {
    match end {
        Ok(_) => LogLineView::Info("pprof-gateway session closed; reconnecting"@),
        Err(reason) => LogLineView::Warn(
            "pprof-gateway connect failed: "@ + reason + "; retrying in 30s"@,
        ),
    }
}

impl GatewayClient {
    /// The client that the environment asks for, if it names a gateway.
    pub fn from_env(env: GatewayEnv) -> (res: Option<GatewayClient>)
        ensures
            res is Some <==> env.enabled(),
            res matches Some(client) ==> {
                &&& client.ws_url@ == ws_url(env.gateway->0@)
                &&& client.hostname@ == env.full_hostname()
            },
    {
        match env.gateway {
            None => None,
            Some(gateway) => {
                if gateway.as_str().is_empty() {
                    return None;
                }
                let mut hostname = unwrap_or(env.hostname, "rari-unknown");
                if let Some(node) = env.node_name {
                    hostname.append("@");
                    hostname.append(node.as_str());
                }
                Some(GatewayClient { ws_url: ws_url_of(gateway.as_str()), hostname })
            },
        }
    }

    /// What is logged once the gateway has replied to the registration.
    pub fn log_connected(&self, connection: &str) -> (res: LogLine)
        ensures
            res@ == connected_line(self.hostname@, connection@),
    {
        let mut line = "connected to pprof gateway as ".to_string();
        line.append(self.hostname.as_str());
        line.append(" (id=");
        line.append(connection);
        line.append(")");
        LogLine::Info(line)
    }

    /// What is logged of the end of a session.
    pub fn log_end(end: Result<(), String>) -> (res: LogLine)
        ensures
            res@ == end_line(
                match end {
                    Ok(_) => Ok(()),
                    Err(reason) => Err(reason@),
                },
            ),
    {
        match end {
            Ok(_) => LogLine::Info("pprof-gateway session closed; reconnecting".to_string()),
            Err(reason) => LogLine::Warn(
                join(
                    join("pprof-gateway connect failed: ", reason.as_str()).as_str(),
                    "; retrying in 30s",
                ),
            ),
        }
    }
}

/// What the client says to the gateway.
pub enum Message {
    /// Which host this is.
    Register { hostname: String },
    /// The live view that was asked for is not to be had.
    StatsvizError { id: String },
    /// The answer to a request for a profile.
    Profile {
        id: String,
        status_code: u64,
        body: String,
        content_type: String,
        error: String,
    },
}

/// What a [`Message`] holds.
pub enum MessageView {
    Register { hostname: Seq<char> },
    StatsvizError { id: Seq<char> },
    Profile {
        id: Seq<char>,
        status_code: u64,
        body: Seq<char>,
        content_type: Seq<char>,
        error: Seq<char>,
    },
}

impl View for Message {
    type V = MessageView;

    open spec fn view(&self) -> MessageView {
        match self {
            Message::Register { hostname } => MessageView::Register { hostname: hostname@ },
            Message::StatsvizError { id } => MessageView::StatsvizError { id: id@ },
            Message::Profile { id, status_code, body, content_type, error } => {
                MessageView::Profile {
                    id: id@,
                    status_code: *status_code,
                    body: body@,
                    content_type: content_type@,
                    error: error@,
                }
            },
        }
    }
}

impl MessageView {
    /// The string members of the message.
    pub open spec fn texts(self) -> Seq<(Seq<char>, Seq<char>)> {
        match self {
            MessageView::Register { hostname } => seq![
                ("service"@, "frontend"@),
                ("hostname"@, hostname),
            ],
            MessageView::StatsvizError { id } => seq![
                ("type"@, "statsviz_error"@),
                ("id"@, id),
                ("error"@, "statsviz not supported by rari"@),
            ],
            MessageView::Profile { id, body, content_type, error, .. } => seq![
                ("id"@, id),
                ("body"@, body),
                ("content_type"@, content_type),
                ("error"@, error),
            ],
        }
    }

    /// The number members of the message.
    pub open spec fn numbers(self) -> Seq<(Seq<char>, u64)> {
        match self {
            MessageView::Profile { status_code, .. } => seq![("status_code"@, status_code)],
            _ => seq![],
        }
    }

    /// The members of the message that are empty objects.
    pub open spec fn objects(self) -> Seq<Seq<char>> {
        match self {
            MessageView::Profile { .. } => seq!["headers"@],
            _ => seq![],
        }
    }

    /// The members of the message, as they are read back: texts, and what is
    /// none.
    pub open spec fn members(self) -> Seq<(Seq<char>, Option<Seq<char>>)> {
        members_of(self.texts(), self.numbers(), self.objects())
    }

    /// The message as JSON text.
    pub open spec fn json(self) -> Seq<char> {
        object_text(self.texts(), self.numbers(), self.objects())
    }
}

/// What the gateway wants, as far as the client looks at it.
pub struct Request {
    /// The member `type`, where it is a string.
    pub kind: Option<String>,
    /// The member `id`, where it is a string.
    pub id: Option<String>,
    /// The member `url`, where it is a string.
    pub url: Option<String>,
}

/// What a [`Request`] holds.
pub struct RequestView {
    pub kind: Option<Seq<char>>,
    pub id: Option<Seq<char>>,
    pub url: Option<Seq<char>>,
}

impl View for Request {
    type V = RequestView;

    open spec fn view(&self) -> RequestView {
        RequestView {
            kind: self.kind.deep_view(),
            id: self.id.deep_view(),
            url: self.url.deep_view(),
        }
    }
}

/// The request that is made by these members.
pub open spec fn request_of(members: Members) -> RequestView {
    RequestView {
        kind: member_text(members, "type"@),
        id: member_text(members, "id"@),
        url: member_text(members, "url"@),
    }
}

/// What the client does about a request.
pub enum Reaction {
    /// Nothing.
    Ignore,
    /// Say this.
    Say(Message),
    /// Dump a heap profile, and answer the request `id` with it.
    DumpHeap { id: String },
}

/// What a [`Reaction`] holds.
pub enum ReactionView {
    Ignore,
    Say(MessageView),
    DumpHeap { id: Seq<char> },
}

impl View for Reaction {
    type V = ReactionView;

    open spec fn view(&self) -> ReactionView {
        match self {
            Reaction::Ignore => ReactionView::Ignore,
            Reaction::Say(message) => ReactionView::Say(message@),
            Reaction::DumpHeap { id } => ReactionView::DumpHeap { id: id@ },
        }
    }
}

/// The answer to the request `id` for a profile that is not to be had.
pub open spec fn not_supported(id: Seq<char>, path: Seq<char>) -> MessageView {
    MessageView::Profile {
        id,
        status_code: 404,
        body: Seq::empty(),
        content_type: Seq::empty(),
        error: "profile "@ + path + " not supported by rari (heap only)"@,
    }
}

/// What the client does about a request. A live view is turned down, a heap
/// profile is dumped, another profile is turned down, and what is none of these
/// is ignored.
pub open spec fn reaction(request: RequestView) -> ReactionView {
    if request.kind == Some("statsviz_start"@) {
        ReactionView::Say(
            MessageView::StatsvizError {
                id: match request.id {
                    Some(id) => id,
                    None => Seq::empty(),
                },
            },
        )
    } else {
        match (request.id, request.url) {
            (Some(id), Some(url)) => {
                let path = before(url, '?');
                if path == "/debug/pprof/heap"@ {
                    ReactionView::DumpHeap { id }
                } else {
                    ReactionView::Say(not_supported(id, path))
                }
            },
            _ => ReactionView::Ignore,
        }
    }
}

/// The answer to the request `id` for a heap profile: the profile in base64, or
/// why there is none.
pub open spec fn heap_answer(id: Seq<char>, dump: Result<Seq<u8>, Seq<char>>) -> MessageView {
    match dump {
        Ok(profile) => MessageView::Profile {
            id,
            status_code: 200,
            body: base64_text(profile),
            content_type: "application/octet-stream"@,
            error: Seq::empty(),
        },
        Err(reason) => MessageView::Profile {
            id,
            status_code: 500,
            body: Seq::empty(),
            content_type: Seq::empty(),
            error: reason,
        },
    }
}

proof fn lemma_distinct_members(message: MessageView)
    ensures
        distinct(message.members()),
{
    reveal_strlit("service");
    reveal_strlit("hostname");
    reveal_strlit("type");
    reveal_strlit("id");
    reveal_strlit("error");
    reveal_strlit("body");
    reveal_strlit("content_type");
    reveal_strlit("status_code");
    reveal_strlit("headers");
    let members = message.members();
    assert("error"@[0] == 'e' && "body"@[0] == 'b' && "headers"@[0] == 'h');
    assert("content_type"@[0] == 'c' && "status_code"@[0] == 's' && "id"@[0] == 'i');
    assert("type"@[0] == 't' && "service"@[0] == 's' && "hostname"@[0] == 'h');
    assert forall|i: int, j: int| 0 <= i < j < members.len() implies (#[trigger] members[i]).0 != (
    #[trigger] members[j]).0 by {
        assert(members[i].0[0] != members[j].0[0]);
    }
}

fn pair(name: &str, text: &str) -> (res: (String, String))
    ensures
        res.deep_view() == (name@, text@),
{
    (name.to_string(), text.to_string())
}

impl Message {
    /// The message as JSON text. Whoever reads it finds its members, and no
    /// others.
    pub fn json(&self) -> (res: String)
        ensures
            res@ == self@.json(),
            json_members(res@) is Ok,
            lists(self@.members(), json_members(res@)->Ok_0),
    {
        let mut texts: Vec<(String, String)> = Vec::new();
        let mut numbers: Vec<(String, u64)> = Vec::new();
        let mut objects: Vec<String> = Vec::new();
        match self {
            Message::Register { hostname } => {
                texts.push(pair("service", "frontend"));
                texts.push(pair("hostname", hostname.as_str()));
            },
            Message::StatsvizError { id } => {
                texts.push(pair("type", "statsviz_error"));
                texts.push(pair("id", id.as_str()));
                texts.push(pair("error", "statsviz not supported by rari"));
            },
            Message::Profile { id, status_code, body, content_type, error } => {
                texts.push(pair("id", id.as_str()));
                texts.push(pair("body", body.as_str()));
                texts.push(pair("content_type", content_type.as_str()));
                texts.push(pair("error", error.as_str()));
                numbers.push(("status_code".to_string(), *status_code));
                objects.push("headers".to_string());
            },
        }
        assert(texts.deep_view() =~= self@.texts());
        assert(numbers.deep_view() =~= self@.numbers());
        assert(objects.deep_view() =~= self@.objects());
        proof {
            lemma_distinct_members(self@);
        }
        write_object(&texts, &numbers, &objects)
    }

    /// The answer to the request `id` for a heap profile.
    pub fn heap_answer(id: String, dump: Result<Vec<u8>, String>) -> (res: Message)
        requires
            dump matches Ok(profile) ==> base64_len(profile@.len()) <= isize::MAX,
        ensures
            res@ == heap_answer(id@, dump_view(dump)),
    {
        match dump {
            Ok(profile) => Message::Profile {
                id,
                status_code: 200,
                body: encode(&profile),
                content_type: "application/octet-stream".to_string(),
                error: String::new(),
            },
            Err(reason) => Message::Profile {
                id,
                status_code: 500,
                body: String::new(),
                content_type: String::new(),
                error: reason,
            },
        }
    }
}

impl Request {
    /// Reads a request from JSON text, or says why it is none.
    pub fn read(text: &str) -> (res: Result<Request, String>)
        ensures
            match res {
                Ok(request) => json_members(text@) is Ok && request@ == request_of(
                    json_members(text@)->Ok_0,
                ),
                Err(reason) => json_members(text@) is Err && json_members(text@)->Err_0 == reason@,
            },
    {
        match JsonMembers::read(text) {
            Ok(members) => Ok(
                Request {
                    kind: members.text("type"),
                    id: members.text("id"),
                    url: members.text("url"),
                },
            ),
            Err(reason) => Err(reason),
        }
    }

    /// What the client does about the request.
    pub fn reaction(self) -> (res: Reaction)
        ensures
            res@ == reaction(self@),
    {
        if let Some(kind) = &self.kind {
            if same_text(kind.as_str(), "statsviz_start") {
                let id = match self.id {
                    Some(id) => id,
                    None => String::new(),
                };
                return Reaction::Say(Message::StatsvizError { id });
            }
        }
        match (self.id, self.url) {
            (Some(id), Some(url)) => {
                let path = take_before(url.as_str(), '?');
                if same_text(path, "/debug/pprof/heap") {
                    Reaction::DumpHeap { id }
                } else {
                    Reaction::Say(
                        Message::Profile {
                            id,
                            status_code: 404,
                            body: String::new(),
                            content_type: String::new(),
                            error: join(
                                join("profile ", path).as_str(),
                                " not supported by rari (heap only)",
                            ),
                        },
                    )
                }
            },
            _ => Reaction::Ignore,
        }
    }
}

} // verus!
