//! Heap profiles on demand. Whoever asks must present the profiling token; as
//! long as no token is set, nobody gets a profile.

use vstd::prelude::*;

use crate::http::text_reply;
use crate::http::Body;
use crate::http::BodyView;
use crate::http::HttpReply;
use crate::http::HttpReplyView;
use crate::profiler::dump_view;
use crate::profiler::refusal;
use crate::profiler::ProfilerStatus;
use crate::text::join;
use crate::text::same_text;

verus! {

/// Whether someone gets a profile.
#[derive(Clone, Copy, Debug, PartialEq, Eq, Structural)]
pub enum Access {
    /// Nobody does: no token is set.
    Disabled,
    /// Not with this token.
    Denied,
    Granted,
}

/// Whether someone who presents the token `provided` gets a profile, where
/// `token` is the one that is set. An empty token counts as none that is set.
pub open spec fn access(token: Option<Seq<char>>, provided: Option<Seq<char>>) -> Access {
    match token {
        Some(token) if token.len() > 0 => if provided == Some(token) {
            Access::Granted
        } else {
            Access::Denied
        },
        _ => Access::Disabled,
    }
}

/// Whether someone who presents the token `provided` gets a profile, where
/// `token` is the one that is set.
pub fn check_access(token: &Option<String>, provided: &Option<String>) -> (res: Access)
    ensures
        res == access(token.deep_view(), provided.deep_view()),
{
    match token {
        Some(token) => if token.as_str().is_empty() {
            Access::Disabled
        } else {
            match provided {
                Some(provided) => if same_text(provided.as_str(), token.as_str()) {
                    Access::Granted
                } else {
                    Access::Denied
                },
                None => Access::Denied,
            }
        },
        None => Access::Disabled,
    }
}

/// What someone is told who gets no profile.
pub open spec fn access_refusal(access: Access) -> Option<HttpReplyView> {
    match access {
        Access::Disabled => Some(
            text_reply(
                403,
                "heap dump disabled: set RARI_PROFILING_TOKEN and run with MALLOC_CONF=prof:true,prof_active:true"@,
            ),
        ),
        Access::Denied => Some(text_reply(401, "invalid profiling token"@)),
        Access::Granted => None,
    }
}

/// What is replied where the profiler has no profile to give.
pub open spec fn profiler_refusal(status: ProfilerStatus) -> Option<HttpReplyView> {
    match refusal(status) {
        Some(reason) => Some(text_reply(503, reason)),
        None => None,
    }
}

/// What is replied once a profile was asked of the profiler.
pub open spec fn dump_reply(dump: Result<Seq<u8>, Seq<char>>) -> HttpReplyView {
    match dump {
        Ok(profile) => HttpReplyView {
            status: 200,
            headers: seq![
                ("content-type"@, "application/octet-stream"@),
                ("content-disposition"@, "attachment; filename=\"rari-heap.pb.gz\""@),
            ],
            body: BodyView::Bytes(profile),
        },
        Err(reason) => text_reply(500, "dump_pprof failed: "@ + reason),
    }
}

/// What `reply` holds, where there is one.
pub open spec fn reply_view(reply: Option<HttpReply>) -> Option<HttpReplyView> {
    match reply {
        Some(reply) => Some(reply@),
        None => None,
    }
}

/// What is replied to someone who presents `provided` where `token` is set, the
/// profiler is in the state `status` and would answer `dump`.
pub open spec fn heap_dump(
    token: Option<Seq<char>>,
    provided: Option<Seq<char>>,
    status: ProfilerStatus,
    dump: Result<Seq<u8>, Seq<char>>,
) -> HttpReplyView {
    match (access_refusal(access(token, provided)), profiler_refusal(status)) {
        (Some(reply), _) => reply,
        (None, Some(reply)) => reply,
        (None, None) => dump_reply(dump),
    }
}

/// What to reply to someone who presents the token `provided` where `token` is
/// set, or `None` to go on.
pub fn refuse_access(token: &Option<String>, provided: &Option<String>) -> (res: Option<HttpReply>)
    ensures
        reply_view(res) == access_refusal(access(token.deep_view(), provided.deep_view())),
{
    match check_access(token, provided) {
        Access::Disabled => Some(
            HttpReply::text(
                403,
                "heap dump disabled: set RARI_PROFILING_TOKEN and run with MALLOC_CONF=prof:true,prof_active:true".to_string(),
            ),
        ),
        Access::Denied => Some(HttpReply::text(401, "invalid profiling token".to_string())),
        Access::Granted => None,
    }
}

/// What to reply where the profiler is in the state `status`, or `None` to have
/// a profile dumped.
pub fn refuse_dump(status: ProfilerStatus) -> (res: Option<HttpReply>)
    ensures
        reply_view(res) == profiler_refusal(status),
{
    match status.refusal() {
        Some(reason) => Some(HttpReply::text(503, reason.to_string())),
        None => None,
    }
}

/// What to reply once a profile was asked of the profiler.
pub fn reply_dump(dump: Result<Vec<u8>, String>) -> (res: HttpReply)
    ensures
        res@ == dump_reply(dump_view(dump)),
{
    match dump {
        Ok(profile) => {
            let mut headers: Vec<(String, String)> = Vec::new();
            headers.push(("content-type".to_string(), "application/octet-stream".to_string()));
            headers.push(
                (
                    "content-disposition".to_string(),
                    "attachment; filename=\"rari-heap.pb.gz\"".to_string(),
                ),
            );
            let res = HttpReply { status: 200, headers, body: Body::Bytes(profile) };
            assert(res@.headers =~= dump_reply(dump_view(dump)).headers);
            res
        },
        Err(reason) => HttpReply::text(500, join("dump_pprof failed: ", reason.as_str())),
    }
}

/// A request by someone who may have a profile.
pub struct Admitted {
    token: Option<String>,
    provided: Option<String>,
}

/// A request by someone who may have a profile, while one can be dumped.
pub struct Ready {
    admitted: Admitted,
}

impl Admitted {
    #[verifier::type_invariant]
    spec fn granted(self) -> bool {
        access(self.token(), self.provided()) == Access::Granted
    }

    /// The token that is set.
    pub closed spec fn token(&self) -> Option<Seq<char>> {
        self.token.deep_view()
    }

    /// The token that was presented.
    pub closed spec fn provided(&self) -> Option<Seq<char>> {
        self.provided.deep_view()
    }

    /// What follows when someone asks for a profile, who presents the token
    /// `provided` where `token` is set: a reply, or a look at the profiler.
    pub fn ask(token: Option<String>, provided: Option<String>) -> (res: Result<
        Admitted,
        HttpReply,
    >)
        ensures
            match res {
                Ok(admitted) => {
                    &&& access(token.deep_view(), provided.deep_view()) == Access::Granted
                    &&& admitted.token() == token.deep_view()
                    &&& admitted.provided() == provided.deep_view()
                },
                Err(reply) => {
                    &&& access(token.deep_view(), provided.deep_view()) != Access::Granted
                    &&& forall|status: ProfilerStatus, dump: Result<Seq<u8>, Seq<char>>|
                        reply@ == #[trigger] heap_dump(
                            token.deep_view(),
                            provided.deep_view(),
                            status,
                            dump,
                        )
                },
            },
    {
        match refuse_access(&token, &provided) {
            Some(reply) => Err(reply),
            None => Ok(Admitted { token, provided }),
        }
    }

    /// What follows when the profiler is found in the state `status`: a reply, or
    /// a dump.
    pub fn found(self, status: ProfilerStatus) -> (res: Result<Ready, HttpReply>)
        ensures
            match res {
                Ok(ready) => {
                    &&& status == ProfilerStatus::Active
                    &&& ready.token() == self.token()
                    &&& ready.provided() == self.provided()
                },
                Err(reply) => {
                    &&& status != ProfilerStatus::Active
                    &&& forall|dump: Result<Seq<u8>, Seq<char>>|
                        reply@ == #[trigger] heap_dump(
                            self.token(),
                            self.provided(),
                            status,
                            dump,
                        )
                },
            },
    {
        proof {
            use_type_invariant(&self);
        }
        match refuse_dump(status) {
            Some(reply) => Err(reply),
            None => Ok(Ready { admitted: self }),
        }
    }
}

impl Ready {
    /// The token that is set.
    pub closed spec fn token(&self) -> Option<Seq<char>> {
        self.admitted.token()
    }

    /// The token that was presented.
    pub closed spec fn provided(&self) -> Option<Seq<char>> {
        self.admitted.provided()
    }

    /// What follows when the dump has come to this: a reply.
    pub fn dumped(self, dump: Result<Vec<u8>, String>) -> (res: HttpReply)
        ensures
            res@ == heap_dump(
                self.token(),
                self.provided(),
                ProfilerStatus::Active,
                dump_view(dump),
            ),
    {
        proof {
            use_type_invariant(&self.admitted);
        }
        reply_dump(dump)
    }
}

/// As long as no token is set, nobody gets a profile, whatever they present and
/// whatever the profiler has.
pub proof fn law_fails_closed(
    token: Option<Seq<char>>,
    provided: Option<Seq<char>>,
    status: ProfilerStatus,
    dump: Result<Seq<u8>, Seq<char>>,
)
    requires
        token is None || token->0.len() == 0,
    ensures
        heap_dump(token, provided, status, dump).status == 403,
        heap_dump(token, provided, status, dump).body is Text,
{
}

/// A profile is given out if and only if a token is set, it is the one that was
/// presented, the profiler is active and the dump succeeds.
pub proof fn law_profile_needs_token(
    token: Option<Seq<char>>,
    provided: Option<Seq<char>>,
    status: ProfilerStatus,
    dump: Result<Seq<u8>, Seq<char>>,
)
    ensures
        heap_dump(token, provided, status, dump).body is Bytes <==> {
            &&& token is Some
            &&& token->0.len() > 0
            &&& provided == token
            &&& status == ProfilerStatus::Active
            &&& dump is Ok
        },
{
}

/// Someone without the token learns nothing of the profiler: the reply does not
/// depend on it.
pub proof fn law_refusal_hides_profiler(
    token: Option<Seq<char>>,
    provided: Option<Seq<char>>,
    status: ProfilerStatus,
    dump: Result<Seq<u8>, Seq<char>>,
    other_status: ProfilerStatus,
    other_dump: Result<Seq<u8>, Seq<char>>,
)
    requires
        access(token, provided) != Access::Granted,
    ensures
        heap_dump(token, provided, status, dump) == heap_dump(
            token,
            provided,
            other_status,
            other_dump,
        ),
{
}

/// Whoever presents the token that is set gets the profile, byte for byte and in
/// full length, as a file, while the profiler is active and the dump succeeds.
pub proof fn law_profile_is_handed_out_whole(token: Seq<char>, profile: Seq<u8>)
    requires
        token.len() > 0,
    ensures
        ({
            let reply = heap_dump(Some(token), Some(token), ProfilerStatus::Active, Ok(profile));
            &&& reply.status == 200
            &&& reply.body == BodyView::Bytes(profile)
            &&& reply.headers == seq![
                ("content-type"@, "application/octet-stream"@),
                ("content-disposition"@, "attachment; filename=\"rari-heap.pb.gz\""@),
            ]
            &&& reply == dump_reply(Ok(profile))
        }),
{
}

/// Whoever presents the token that is set is told why there is no profile.
pub proof fn law_lack_of_a_profile_is_explained(
    token: Seq<char>,
    dump: Result<Seq<u8>, Seq<char>>,
    reason: Seq<char>,
)
    requires
        token.len() > 0,
    ensures
        heap_dump(Some(token), Some(token), ProfilerStatus::Unavailable, dump) == (HttpReplyView {
            status: 503,
            headers: Seq::empty(),
            body: BodyView::Text("jemalloc profiling unavailable"@),
        }),
        heap_dump(Some(token), Some(token), ProfilerStatus::Inactive, dump) == (HttpReplyView {
            status: 503,
            headers: Seq::empty(),
            body: BodyView::Text(
                "heap profiling not active; run with MALLOC_CONF=prof:true,prof_active:true"@,
            ),
        }),
        heap_dump(Some(token), Some(token), ProfilerStatus::Active, Err(reason)) == (
        HttpReplyView {
            status: 500,
            headers: Seq::empty(),
            body: BodyView::Text("dump_pprof failed: "@ + reason),
        }),
{
}

/// Whoever does not present the token that is set is turned away, and everybody
/// is where none is set.
pub proof fn law_strangers_are_turned_away(
    token: Option<Seq<char>>,
    provided: Option<Seq<char>>,
    status: ProfilerStatus,
    dump: Result<Seq<u8>, Seq<char>>,
)
    ensures
        (token is Some && token->0.len() > 0 && provided != token) ==> heap_dump(
            token,
            provided,
            status,
            dump,
        ) == (HttpReplyView {
            status: 401,
            headers: Seq::empty(),
            body: BodyView::Text("invalid profiling token"@),
        }),
        (token is None || token->0.len() == 0) ==> heap_dump(token, provided, status, dump) == (
        HttpReplyView {
            status: 403,
            headers: Seq::empty(),
            body: BodyView::Text(
                "heap dump disabled: set RARI_PROFILING_TOKEN and run with MALLOC_CONF=prof:true,prof_active:true"@,
            ),
        }),
{
}

/// What the steps decide is what is replied in the end: a refusal stands, and else
/// the next step decides.
pub proof fn law_steps_make_the_reply(
    token: Option<Seq<char>>,
    provided: Option<Seq<char>>,
    status: ProfilerStatus,
    dump: Result<Seq<u8>, Seq<char>>,
)
    ensures
        access(token, provided) == Access::Granted <==> token is Some && token->0.len() > 0
            && provided == token,
        access(token, provided) == Access::Disabled <==> token is None || token->0.len() == 0,
        access_refusal(access(token, provided)) matches Some(reply) ==> reply == heap_dump(
            token,
            provided,
            status,
            dump,
        ),
        access_refusal(access(token, provided)) is None <==> access(token, provided)
            == Access::Granted,
        access(token, provided) == Access::Granted ==> match profiler_refusal(status) {
            Some(reply) => status != ProfilerStatus::Active && reply == heap_dump(
                token,
                provided,
                status,
                dump,
            ),
            None => status == ProfilerStatus::Active && dump_reply(dump) == heap_dump(
                token,
                provided,
                status,
                dump,
            ),
        },
{
}

/// A reply that there is, is looked at whole.
pub proof fn law_reply_is_passed_on(reply: HttpReply)
    ensures
        reply_view(Some(reply)) == Some(reply@),
        reply_view(None) is None,
{
}

} // verus!
