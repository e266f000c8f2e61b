//! Questions whose answer is not settled by what is asked.

use vstd::prelude::*;

verus! {

/// What `question` answers this time.
pub(crate) fn ask<T, F: Fn() -> T>(question: F) -> (res: T)
    requires
        call_requires(question, ()),
    ensures
        call_ensures(question, (), res),
{
    question()
}

} // verus!
