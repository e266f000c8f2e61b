//! The state of the heap profiler, as far as its users tell it apart.

use vstd::prelude::*;

verus! {

/// Whether the heap profiler can be asked for a profile.
#[derive(Clone, Copy, Debug, PartialEq, Eq, Structural)]
pub enum ProfilerStatus {
    /// The allocator has no profiler.
    Unavailable,
    /// There is a profiler, but it is switched off.
    Inactive,
    /// A profile can be dumped.
    Active,
}

/// What is said of a profiler that cannot be asked for a profile.
pub open spec fn refusal(status: ProfilerStatus) -> Option<Seq<char>> {
    match status {
        ProfilerStatus::Unavailable => Some("jemalloc profiling unavailable"@),
        ProfilerStatus::Inactive => Some(
            "heap profiling not active; run with MALLOC_CONF=prof:true,prof_active:true"@,
        ),
        ProfilerStatus::Active => None,
    }
}

impl ProfilerStatus {
    /// The state of a profiler: whether it is switched on, if there is one.
    pub fn of(activated: Option<bool>) -> (res: ProfilerStatus)
        ensures
            res == match activated {
                None => ProfilerStatus::Unavailable,
                Some(false) => ProfilerStatus::Inactive,
                Some(true) => ProfilerStatus::Active,
            },
    {
        match activated {
            None => ProfilerStatus::Unavailable,
            Some(false) => ProfilerStatus::Inactive,
            Some(true) => ProfilerStatus::Active,
        }
    }

    /// Why no profile can be dumped, or `None` where one can.
    pub fn refusal(self) -> (res: Option<&'static str>)
        ensures
            res.deep_view() == refusal(self),
    {
        match self {
            ProfilerStatus::Unavailable => Some("jemalloc profiling unavailable"),
            ProfilerStatus::Inactive => Some(
                "heap profiling not active; run with MALLOC_CONF=prof:true,prof_active:true",
            ),
            ProfilerStatus::Active => None,
        }
    }
}

/// What the outcome of a dump holds: the profile, or why there is none.
pub open spec fn dump_view(dump: Result<Vec<u8>, String>) -> Result<Seq<u8>, Seq<char>> {
    match dump {
        Ok(profile) => Ok(profile@),
        Err(reason) => Err(reason@),
    }
}

/// What comes of asking a profiler in the state `status` for a profile, where a
/// dump comes to `dump`.
pub open spec fn outcome(
    status: ProfilerStatus,
    dump: Result<Seq<u8>, Seq<char>>,
) -> Result<Seq<u8>, Seq<char>> {
    match refusal(status) {
        Some(reason) => Err(reason),
        None => dump,
    }
}

/// What comes of asking a profiler in the state `status` for a profile, where a
/// dump comes to `dump`.
pub fn dump_outcome(status: ProfilerStatus, dump: Result<Vec<u8>, String>) -> (res: Result<
    Vec<u8>,
    String,
>)
    ensures
        dump_view(res) == outcome(status, dump_view(dump)),
{
    match status.refusal() {
        Some(reason) => Err(reason.to_string()),
        None => dump,
    }
}

/// What a profile is dumped for.
#[derive(Clone, Copy, Debug, PartialEq, Eq, Structural)]
pub enum Purpose {
    /// To push it, every minute.
    Push,
    /// To answer a gateway.
    Gateway,
    /// To reply to a request over HTTP.
    Download,
}

/// A dump leaves the symbols of the program in a cache, tens of megabytes of
/// them. They do not stay there between two pushes, nor once a gateway was
/// answered, even if that dump failed. A download leaves the cache alone.
pub open spec fn clears_symbols(purpose: Purpose, dump: Result<Seq<u8>, Seq<char>>) -> bool {
    match purpose {
        Purpose::Push => dump is Ok,
        Purpose::Gateway => true,
        Purpose::Download => false,
    }
}

impl Purpose {
    /// Whether to clear the symbol cache once a dump has come to `dump`.
    pub fn clears_symbols(self, dump: &Result<Vec<u8>, String>) -> (res: bool)
        ensures
            res == clears_symbols(self, dump_view(*dump)),
    {
        match self {
            Purpose::Push => dump.is_ok(),
            Purpose::Gateway => true,
            Purpose::Download => false,
        }
    }
}

/// A profile comes of an active profiler, as it was dumped; of any other comes what
/// is wrong with it.
pub proof fn law_outcome_of_asking(dump: Result<Seq<u8>, Seq<char>>)
    ensures
        outcome(ProfilerStatus::Active, dump) == dump,
        outcome(ProfilerStatus::Unavailable, dump) == Err::<Seq<u8>, Seq<char>>(
            "jemalloc profiling unavailable"@,
        ),
        outcome(ProfilerStatus::Inactive, dump) == Err::<Seq<u8>, Seq<char>>(
            "heap profiling not active; run with MALLOC_CONF=prof:true,prof_active:true"@,
        ),
        refusal(ProfilerStatus::Active) is None,
        refusal(ProfilerStatus::Unavailable) == Some("jemalloc profiling unavailable"@),
        refusal(ProfilerStatus::Inactive) == Some(
            "heap profiling not active; run with MALLOC_CONF=prof:true,prof_active:true"@,
        ),
{
}

/// The outcome of a dump is taken as it is: all bytes of the profile, or all of the
/// reason.
pub proof fn law_dump_is_taken_whole(profile: Vec<u8>, reason: String)
    ensures
        dump_view(Ok(profile)) == Ok::<Seq<u8>, Seq<char>>(profile@),
        dump_view(Err(reason)) == Err::<Seq<u8>, Seq<char>>(reason@),
{
}

/// The symbol cache is cleared after each dump that succeeded but for a download,
/// and after a dump for a gateway in any case.
pub proof fn law_symbols_do_not_stay(dump: Result<Seq<u8>, Seq<char>>)
    ensures
        clears_symbols(Purpose::Gateway, dump),
        clears_symbols(Purpose::Push, dump) <==> dump is Ok,
        !clears_symbols(Purpose::Download, dump),
{
}

} // verus!
