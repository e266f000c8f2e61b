//! The statistics that the allocator keeps of itself. They are cached, so they
//! are read only once the allocator has brought them up to date.

use vstd::prelude::*;

use crate::ask::ask;

verus! {

/// What the allocator says of itself, in bytes, where it could be read.
pub struct AllocatorStats {
    /// In live allocations.
    pub allocated: Option<usize>,
    /// In active pages.
    pub active: Option<usize>,
    /// Physical memory under the allocator's control.
    pub resident: Option<usize>,
    /// Virtual memory that is not mapped and can be used again.
    pub retained: Option<usize>,
    /// Mapped altogether.
    pub mapped: Option<usize>,
    /// Bookkeeping.
    pub metadata: Option<usize>,
}

/// `tikv_jemalloc_ctl::Error`: why the allocator turned a request down.
#[verifier::external_type_specification]
#[verifier::external_body]
pub struct ExAllocatorError(tikv_jemalloc_ctl::Error);

/// `epoch::advance` has the allocator bring its statistics up to date; nothing
/// is claimed of what it answers.
pub assume_specification[ tikv_jemalloc_ctl::epoch::advance ]() -> Result<
    u64,
    tikv_jemalloc_ctl::Error,
>;

/// `stats::allocated::read` asks the allocator for a statistic, which can be any
/// number.
pub assume_specification[ tikv_jemalloc_ctl::stats::allocated::read ]() -> Result<
    usize,
    tikv_jemalloc_ctl::Error,
>;

/// `stats::active::read` asks the allocator for a statistic, which can be any
/// number.
pub assume_specification[ tikv_jemalloc_ctl::stats::active::read ]() -> Result<
    usize,
    tikv_jemalloc_ctl::Error,
>;

/// `stats::resident::read` asks the allocator for a statistic, which can be any
/// number.
pub assume_specification[ tikv_jemalloc_ctl::stats::resident::read ]() -> Result<
    usize,
    tikv_jemalloc_ctl::Error,
>;

/// `stats::retained::read` asks the allocator for a statistic, which can be any
/// number.
pub assume_specification[ tikv_jemalloc_ctl::stats::retained::read ]() -> Result<
    usize,
    tikv_jemalloc_ctl::Error,
>;

/// `stats::mapped::read` asks the allocator for a statistic, which can be any
/// number.
pub assume_specification[ tikv_jemalloc_ctl::stats::mapped::read ]() -> Result<
    usize,
    tikv_jemalloc_ctl::Error,
>;

/// `stats::metadata::read` asks the allocator for a statistic, which can be any
/// number.
pub assume_specification[ tikv_jemalloc_ctl::stats::metadata::read ]() -> Result<
    usize,
    tikv_jemalloc_ctl::Error,
>;

/// The allocator has brought its statistics up to date. Nothing but
/// [`Fresh::advance`] makes such a value.
pub struct Fresh {
    epoch: u64,
}

/// `outcome` is what the allocator answered when it was asked to bring its
/// statistics up to date.
pub open spec fn advanced(outcome: Result<Fresh, tikv_jemalloc_ctl::Error>) -> bool {
    call_ensures(
        tikv_jemalloc_ctl::epoch::advance,
        (),
        match outcome {
            Ok(fresh) => Ok(fresh.epoch()),
            Err(error) => Err(error),
        },
    )
}

impl Fresh {
    /// The epoch that the allocator has advanced to.
    pub closed spec fn epoch(&self) -> u64 {
        self.epoch
    }

    /// Has the allocator bring its statistics up to date.
    pub fn advance() -> (res: Result<Fresh, tikv_jemalloc_ctl::Error>)
        ensures
            advanced(res),
    {
        match ask(tikv_jemalloc_ctl::epoch::advance) {
            Ok(epoch) => Ok(Fresh { epoch }),
            Err(error) => Err(error),
        }
    }
}

/// `value` is the number that `read` answered with, or `None` where it answered
/// with an error.
pub open spec fn answered<F: Fn() -> Result<usize, tikv_jemalloc_ctl::Error>>(
    read: F,
    value: Option<usize>,
) -> bool {
    exists|answer: Result<usize, tikv_jemalloc_ctl::Error>| #[trigger]
        call_ensures(read, (), answer) && value == match answer {
            Ok(value) => Some(value),
            Err(_) => None,
        }
}

impl AllocatorStats {
    /// Each statistic is what the allocator answered when it was asked for it.
    pub open spec fn as_answered(&self) -> bool {
        &&& answered(tikv_jemalloc_ctl::stats::allocated::read, self.allocated)
        &&& answered(tikv_jemalloc_ctl::stats::active::read, self.active)
        &&& answered(tikv_jemalloc_ctl::stats::resident::read, self.resident)
        &&& answered(tikv_jemalloc_ctl::stats::retained::read, self.retained)
        &&& answered(tikv_jemalloc_ctl::stats::mapped::read, self.mapped)
        &&& answered(tikv_jemalloc_ctl::stats::metadata::read, self.metadata)
    }

    /// These are statistics that [`AllocatorStats::read`] gave for `fresh`. What
    /// the predicate itself states is that they are as answered; of their order
    /// with the advance it states nothing. The order comes from `fresh`: `read` has
    /// to be given one, nothing but [`Fresh::advance`] makes one, and outside this
    /// module nothing but `read` shows the predicate.
    pub closed spec fn taken_after(&self, fresh: Fresh) -> bool {
        self.as_answered()
    }

    /// Asks the allocator for its statistics.
    pub fn read(fresh: Fresh) -> (res: AllocatorStats)
        ensures
            res.as_answered(),
            res.taken_after(fresh),
    {
        AllocatorStats {
            allocated: ask(tikv_jemalloc_ctl::stats::allocated::read).ok(),
            active: ask(tikv_jemalloc_ctl::stats::active::read).ok(),
            resident: ask(tikv_jemalloc_ctl::stats::resident::read).ok(),
            retained: ask(tikv_jemalloc_ctl::stats::retained::read).ok(),
            mapped: ask(tikv_jemalloc_ctl::stats::mapped::read).ok(),
            metadata: ask(tikv_jemalloc_ctl::stats::metadata::read).ok(),
        }
    }
}

/// The allocator answered `read` with the number `value`, or with an error where
/// that is `None`.
pub open spec fn came_of<F: Fn() -> Result<usize, tikv_jemalloc_ctl::Error>>(
    read: F,
    value: Option<usize>,
) -> bool {
    match value {
        Some(number) => call_ensures(read, (), Ok::<usize, tikv_jemalloc_ctl::Error>(number)),
        None => exists|error: tikv_jemalloc_ctl::Error| #[trigger]
            call_ensures(read, (), Err::<usize, tikv_jemalloc_ctl::Error>(error)),
    }
}

/// Each statistic is the very number that the allocator gave for it.
pub proof fn law_statistics_are_the_answers(stats: AllocatorStats)
    requires
        stats.as_answered(),
    ensures
        came_of(tikv_jemalloc_ctl::stats::allocated::read, stats.allocated),
        came_of(tikv_jemalloc_ctl::stats::active::read, stats.active),
        came_of(tikv_jemalloc_ctl::stats::resident::read, stats.resident),
        came_of(tikv_jemalloc_ctl::stats::retained::read, stats.retained),
        came_of(tikv_jemalloc_ctl::stats::mapped::read, stats.mapped),
        came_of(tikv_jemalloc_ctl::stats::metadata::read, stats.metadata),
{
    lemma_came_of(tikv_jemalloc_ctl::stats::allocated::read, stats.allocated);
    lemma_came_of(tikv_jemalloc_ctl::stats::active::read, stats.active);
    lemma_came_of(tikv_jemalloc_ctl::stats::resident::read, stats.resident);
    lemma_came_of(tikv_jemalloc_ctl::stats::retained::read, stats.retained);
    lemma_came_of(tikv_jemalloc_ctl::stats::mapped::read, stats.mapped);
    lemma_came_of(tikv_jemalloc_ctl::stats::metadata::read, stats.metadata);
}

proof fn lemma_came_of<F: Fn() -> Result<usize, tikv_jemalloc_ctl::Error>>(
    read: F,
    value: Option<usize>,
)
    requires
        answered(read, value),
    ensures
        came_of(read, value),
{
    let answer = choose|answer: Result<usize, tikv_jemalloc_ctl::Error>| #[trigger]
        call_ensures(read, (), answer) && value == match answer {
            Ok(value) => Some(value),
            Err(_) => None,
        };
    match answer {
        Ok(number) => {
            assert(answer == Ok::<usize, tikv_jemalloc_ctl::Error>(number));
            assert(call_ensures(read, (), Ok::<usize, tikv_jemalloc_ctl::Error>(number)));
        },
        Err(error) => {
            assert(answer == Err::<usize, tikv_jemalloc_ctl::Error>(error));
            assert(call_ensures(read, (), Err::<usize, tikv_jemalloc_ctl::Error>(error)));
        },
    }
}

} // verus!
