//! The agent that pushes a heap profile to Pyroscope every minute. It decides
//! what to do next; sleeping, dumping and sending are done for it.

use vstd::prelude::*;

use crate::profiler::ProfilerStatus;
use crate::text::decimal;
use crate::text::join;
use crate::text::lemma_decimal_len;
use crate::text::or_default;
use crate::text::push_decimal;
use crate::text::unwrap_or;

verus! {

/// Seconds between two pushes.
pub const PUSH_INTERVAL_SECS: u64 = 60;

/// The bytes of a URL that one character of the text it is parsed from can take.
/// It takes most in the name of a host, where it can stand for eighteen
/// characters, and each of those is spelled with ten at most.
pub const INPUT_CHAR_BYTES: u64 = 192;

/// The bytes of a URL that one character of a parameter can take: four bytes,
/// each of them escaped.
pub const PARAM_CHAR_BYTES: u64 = 12;

/// The bytes that a URL can take besides, for what separates its parts.
pub const SEPARATOR_BYTES: u64 = 64;

/// The bytes that a URL can take that is parsed from `input_chars` characters
/// and has `param_chars` in its parameters.
pub open spec fn url_bytes(input_chars: nat, param_chars: nat) -> nat {
    INPUT_CHAR_BYTES as nat * input_chars + PARAM_CHAR_BYTES as nat * param_chars
        + SEPARATOR_BYTES as nat
}

/// The characters of parameters, with one for what separates each from the next.
pub open spec fn param_chars(params: Seq<(Seq<char>, Seq<char>)>) -> nat
    decreases params.len(),
{
    if params.len() == 0 {
        0
    } else {
        param_chars(params.drop_last()) + params.last().0.len() + params.last().1.len() + 1
    }
}

/// What `Url::parse_with_params` makes of `input` and `params`: the text of the
/// URL, or nothing where `input` is no absolute URL.
pub uninterp spec fn url_with_params(
    input: Seq<char>,
    params: Seq<(Seq<char>, Seq<char>)>,
) -> Option<Seq<char>>;

/// `url::Url::parse_with_params`: parses `input` and appends `params` to the
/// query of the URL. The text of the URL depends on nothing else. It must stay
/// below four gigabytes.
#[verifier::external_body]
fn parse_with_params(input: &str, params: &Vec<(String, String)>) -> (res: Option<String>)
    requires
        url_bytes(input@.len(), param_chars(params.deep_view())) <= u32::MAX,
    ensures
        res.deep_view() == url_with_params(input@, params.deep_view()),
{
    url::Url::parse_with_params(input, params.iter()).ok().map(String::from)
}

/// The variables of the environment that the pusher reads, where they are set.
pub struct PyroscopeEnv {
    /// `PYROSCOPE_URL`.
    pub server: Option<String>,
    /// `PYROSCOPE_APP_NAME`.
    pub app_name: Option<String>,
    /// `POD_NAME`.
    pub pod_name: Option<String>,
    /// `HOSTNAME`.
    pub hostname: Option<String>,
    /// `NODE_NAME`.
    pub node_name: Option<String>,
}

impl PyroscopeEnv {
    /// The name of the application, "frontend" unless it is given.
    pub open spec fn app(&self) -> Seq<char> {
        or_default(self.app_name, "frontend"@)
    }

    /// The name of the pod, else of the host, else "unknown".
    pub open spec fn pod(&self) -> Seq<char> {
        or_default(self.pod_name, or_default(self.hostname, "unknown"@))
    }

    /// The name of the node, else "unknown".
    pub open spec fn node(&self) -> Seq<char> {
        or_default(self.node_name, "unknown"@)
    }

    /// The name that profiles are pushed under.
    pub open spec fn push_name(&self) -> Seq<char> {
        self.app() + "{pod="@ + self.pod() + ",node="@ + self.node() + "}"@
    }

    /// There is a server to push to.
    pub open spec fn enabled(&self) -> bool {
        self.server matches Some(server) && server@.len() > 0
    }

    /// A URL can be made of the server and the name.
    pub open spec fn fits(&self) -> bool {
        self.enabled() ==> push_fits(self.server->0@, self.push_name())
    }
}

fn chars_or(value: &Option<String>, default: &str) -> (res: u128)
    ensures
        res == or_default(*value, default@).len(),
        res <= usize::MAX,
{
    match value {
        Some(value) => value.as_str().unicode_len() as u128,
        None => default.unicode_len() as u128,
    }
}

impl PyroscopeEnv {
    /// Whether a URL can be made of the server and the name.
    pub fn check(&self) -> (res: bool)
        ensures
            res == self.fits(),
    {
        proof {
            reveal_strlit("/ingest");
            reveal_strlit("{pod=");
            reveal_strlit(",node=");
            reveal_strlit("}");
        }
        match &self.server {
            None => true,
            Some(server) => {
                let pod: u128 = match &self.pod_name {
                    Some(pod) => pod.as_str().unicode_len() as u128,
                    None => chars_or(&self.hostname, "unknown"),
                };
                let name: u128 = chars_or(&self.app_name, "frontend") + pod + chars_or(
                    &self.node_name,
                    "unknown",
                ) + 12;
                server.as_str().is_empty() || INPUT_CHAR_BYTES as u128 * (
                server.as_str().unicode_len() as u128 + 7) + PARAM_CHAR_BYTES as u128 * (name
                    + OTHER_PARAM_CHARS as u128) + SEPARATOR_BYTES as u128 <= u32::MAX as u128
            },
        }
    }
}

/// Where a server takes profiles.
pub open spec fn endpoint(server: Seq<char>) -> Seq<char> {
    server + "/ingest"@
}

/// The characters of the parameters of a push besides its name, at most.
pub const OTHER_PARAM_CHARS: u64 = 68;

/// The URL of a push to `server` under `name` stays below four gigabytes.
pub open spec fn push_fits(server: Seq<char>, name: Seq<char>) -> bool {
    url_bytes(endpoint(server).len(), name.len() + OTHER_PARAM_CHARS as nat) <= u32::MAX
}

/// The seconds since the epoch, which are 0 where the clock stands before it.
pub open spec fn until(now: Option<u64>) -> u64 {
    match now {
        Some(now) => now,
        None => 0,
    }
}

/// When the span of a push that ends at `until` begins.
pub open spec fn from(until: u64) -> u64 {
    if until < PUSH_INTERVAL_SECS {
        0
    } else {
        (until - PUSH_INTERVAL_SECS) as u64
    }
}

/// The parameters of a push.
pub open spec fn push_params(name: Seq<char>, until: u64) -> Seq<(Seq<char>, Seq<char>)> {
    seq![
        ("name"@, name),
        ("from"@, decimal(from(until) as nat)),
        ("until"@, decimal(until as nat)),
        ("format"@, "pprof"@),
    ]
}

proof fn lemma_push_params_len(name: Seq<char>, until: u64)
    ensures
        param_chars(push_params(name, until)) <= name.len() + OTHER_PARAM_CHARS,
{
    reveal_strlit("name");
    reveal_strlit("from");
    reveal_strlit("until");
    reveal_strlit("format");
    reveal_strlit("pprof");
    lemma_decimal_len(from(until));
    lemma_decimal_len(until);
    let params = push_params(name, until);
    reveal_with_fuel(param_chars, 5);
    assert(params.drop_last().last() == params[2]);
    assert(params.drop_last().drop_last().last() == params[1]);
    assert(params.drop_last().drop_last().drop_last().last() == params[0]);
}

/// What a pusher holds.
pub struct PusherView {
    pub server: Seq<char>,
    pub name: Seq<char>,
    pub warned: bool,
}

/// What happened.
pub enum PusherEvent {
    /// The pusher woke up and found the profiler in this state.
    Woke(ProfilerStatus),
    /// The dump failed, for this reason.
    DumpFailed(String),
    /// This profile was dumped. `now` is in seconds since the epoch, `None` where
    /// the clock stands before it.
    Dumped { profile: Vec<u8>, now: Option<u64> },
    /// The server answered with the status `code`, which `status` spells.
    Answered { code: u16, status: String },
    /// The profile could not be sent, for this reason.
    SendFailed(String),
}

/// What to do next.
pub enum PusherAction {
    /// Sleep for so many seconds.
    Sleep { secs: u64 },
    /// Dump a profile.
    Dump,
    /// Send this body to this URL.
    Post { url: String, body: Vec<u8> },
    /// Give up for good.
    Stop,
}

/// What a [`PusherAction`] holds.
pub enum PusherActionView {
    Sleep { secs: u64 },
    Dump,
    Post { url: Seq<char>, body: Seq<u8> },
    Stop,
}

impl View for PusherAction {
    type V = PusherActionView;

    open spec fn view(&self) -> PusherActionView {
        match self {
            PusherAction::Sleep { secs } => PusherActionView::Sleep { secs: *secs },
            PusherAction::Dump => PusherActionView::Dump,
            PusherAction::Post { url, body } => PusherActionView::Post { url: url@, body: body@ },
            PusherAction::Stop => PusherActionView::Stop,
        }
    }
}

/// Sleep until the next push.
pub open spec fn rest() -> PusherActionView {
    PusherActionView::Sleep { secs: PUSH_INTERVAL_SECS }
}

impl PusherAction {
    /// Sleep until the next push. This is what a pusher does first.
    pub fn rest() -> (res: PusherAction)
        ensures
            res@ == rest(),
    {
        PusherAction::Sleep { secs: PUSH_INTERVAL_SECS }
    }
}

/// A line for the log, where there is one, and what to do next.
pub struct PusherStep {
    pub warning: Option<String>,
    pub action: PusherAction,
}

/// What a [`PusherStep`] holds.
pub struct PusherStepView {
    pub warning: Option<Seq<char>>,
    pub action: PusherActionView,
}

impl View for PusherStep {
    type V = PusherStepView;

    open spec fn view(&self) -> PusherStepView {
        PusherStepView { warning: self.warning.deep_view(), action: self.action@ }
    }
}

/// An HTTP status that means success.
pub open spec fn is_success(code: u16) -> bool {
    200 <= code < 300
}

/// The server took a profile.
pub open spec fn accepted(event: PusherEvent) -> bool {
    event matches PusherEvent::Answered { code, .. } && is_success(code)
}

/// A profile did not reach the server, or was turned down by it.
pub open spec fn failed(event: PusherEvent) -> bool {
    match event {
        PusherEvent::Answered { code, .. } => !is_success(code),
        PusherEvent::SendFailed(_) => true,
        _ => false,
    }
}

impl PusherView {
    /// Where the profile of a push at `now` goes.
    pub open spec fn push_url(self, now: Option<u64>) -> Option<Seq<char>> {
        url_with_params(endpoint(self.server), push_params(self.name, until(now)))
    }

    /// A failure of the server to take a profile is worth a line in the log
    /// only if it is the first since the server last took one.
    pub open spec fn outage_warning(self, text: Seq<char>) -> Option<Seq<char>> {
        if self.warned {
            None
        } else {
            Some(text)
        }
    }

    /// What is logged and done on `event`, given what URL a push goes to.
    pub open spec fn step_to(self, event: PusherEvent, url: Option<Seq<char>>) -> PusherStepView {
        match event {
            PusherEvent::Woke(status) => PusherStepView {
                warning: None,
                action: if status == ProfilerStatus::Active {
                    PusherActionView::Dump
                } else {
                    rest()
                },
            },
            PusherEvent::DumpFailed(reason) => PusherStepView {
                warning: Some("pyroscope pusher: dump_pprof failed: "@ + reason@),
                action: rest(),
            },
            PusherEvent::Dumped { profile, .. } => match url {
                Some(url) => PusherStepView {
                    warning: None,
                    action: PusherActionView::Post { url, body: profile@ },
                },
                None => PusherStepView {
                    warning: Some("pyroscope pusher: invalid PYROSCOPE_URL: "@ + self.server),
                    action: PusherActionView::Stop,
                },
            },
            PusherEvent::Answered { code, status } => PusherStepView {
                warning: if is_success(code) {
                    None
                } else {
                    self.outage_warning("pyroscope pusher: ingest returned "@ + status@)
                },
                action: rest(),
            },
            PusherEvent::SendFailed(reason) => PusherStepView {
                warning: self.outage_warning("pyroscope pusher: ingest failed: "@ + reason@),
                action: rest(),
            },
        }
    }

    /// What is logged and done on `event`.
    pub open spec fn step(self, event: PusherEvent) -> PusherStepView {
        self.step_to(
            event,
            match event {
                PusherEvent::Dumped { now, .. } => self.push_url(now),
                _ => None,
            },
        )
    }

    /// The pusher after `event`.
    pub open spec fn next(self, event: PusherEvent) -> PusherView {
        PusherView {
            warned: if accepted(event) {
                false
            } else {
                self.warned || failed(event)
            },
            ..self
        }
    }
}

/// Pushes heap profiles to one server.
pub struct Pusher {
    server: String,
    name: String,
    warned: bool,
}

impl View for Pusher {
    type V = PusherView;

    closed spec fn view(&self) -> PusherView {
        PusherView { server: self.server@, name: self.name@, warned: self.warned }
    }
}

impl Pusher {
    /// A URL can be made of the server and the name.
    pub open spec fn wf(&self) -> bool {
        push_fits(self@.server, self@.name)
    }

    /// The pusher that the environment asks for, if it names a server.
    pub fn from_env(env: PyroscopeEnv) -> (res: Option<Pusher>)
        requires
            env.fits(),
        ensures
            res is Some <==> env.enabled(),
            res matches Some(pusher) ==> pusher.wf() && pusher@ == (PusherView {
                server: env.server->0@,
                name: env.push_name(),
                warned: false,
            }),
    {
        match env.server {
            None => None,
            Some(server) => {
                if server.as_str().is_empty() {
                    return None;
                }
                let mut name = unwrap_or(env.app_name, "frontend");
                let host = unwrap_or(env.hostname, "unknown");
                name.append("{pod=");
                name.append(unwrap_or(env.pod_name, host.as_str()).as_str());
                name.append(",node=");
                name.append(unwrap_or(env.node_name, "unknown").as_str());
                name.append("}");
                Some(Pusher { server, name, warned: false })
            },
        }
    }

    /// Where the profile of a push at `now` goes, if the server is named by an
    /// absolute URL.
    pub fn push_url(&self, now: Option<u64>) -> (res: Option<String>)
        requires
            self.wf(),
        ensures
            res.deep_view() == self@.push_url(now),
    {
        let until: u64 = match now {
            Some(now) => now,
            None => 0,
        };
        let from: u64 = until.saturating_sub(PUSH_INTERVAL_SECS);
        let mut from_text = String::new();
        push_decimal(&mut from_text, from);
        let mut until_text = String::new();
        push_decimal(&mut until_text, until);
        let mut params: Vec<(String, String)> = Vec::new();
        params.push(("name".to_string(), self.name.clone()));
        params.push(("from".to_string(), from_text));
        params.push(("until".to_string(), until_text));
        params.push(("format".to_string(), "pprof".to_string()));
        proof {
            assert(params.deep_view() =~= push_params(self@.name, until));
            lemma_push_params_len(self@.name, until);
        }
        parse_with_params(join(self.server.as_str(), "/ingest").as_str(), &params)
    }

    /// What to log and to do on `event`, where `url` is the URL of the push
    /// that it leads to, if it leads to one.
    pub fn step_to(&mut self, event: PusherEvent, url: Option<String>) -> (res: PusherStep)
        ensures
            res@ == old(self)@.step_to(event, url.deep_view()),
            final(self)@ == old(self)@.next(event),
    {
        match event {
            PusherEvent::Woke(status) => PusherStep {
                warning: None,
                action: match status {
                    ProfilerStatus::Active => PusherAction::Dump,
                    _ => PusherAction::rest(),
                },
            },
            PusherEvent::DumpFailed(reason) => PusherStep {
                warning: Some(join("pyroscope pusher: dump_pprof failed: ", reason.as_str())),
                action: PusherAction::rest(),
            },
            PusherEvent::Dumped { profile, now: _ } => match url {
                Some(url) => PusherStep {
                    warning: None,
                    action: PusherAction::Post { url, body: profile },
                },
                None => PusherStep {
                    warning: Some(
                        join("pyroscope pusher: invalid PYROSCOPE_URL: ", self.server.as_str()),
                    ),
                    action: PusherAction::Stop,
                },
            },
            PusherEvent::Answered { code, status } => {
                let warning = if 200 <= code && code < 300 {
                    self.warned = false;
                    None
                } else {
                    self.warn(join("pyroscope pusher: ingest returned ", status.as_str()))
                };
                PusherStep { warning, action: PusherAction::rest() }
            },
            PusherEvent::SendFailed(reason) => {
                let warning = self.warn(join("pyroscope pusher: ingest failed: ", reason.as_str()));
                PusherStep { warning, action: PusherAction::rest() }
            },
        }
    }

    fn warn(&mut self, text: String) -> (res: Option<String>)
        ensures
            res.deep_view() == old(self)@.outage_warning(text@),
            final(self)@ == (PusherView { warned: true, ..old(self)@ }),
    {
        if self.warned {
            None
        } else {
            self.warned = true;
            Some(text)
        }
    }

    /// What to log and to do on `event`.
    pub fn step(&mut self, event: PusherEvent) -> (res: PusherStep)
        requires
            old(self).wf(),
        ensures
            final(self).wf(),
            res@ == old(self)@.step(event),
            final(self)@ == old(self)@.next(event),
    {
        let url = match &event {
            PusherEvent::Dumped { profile: _, now } => self.push_url(*now),
            _ => None,
        };
        self.step_to(event, url)
    }
}

} // verus!
