//! Adding one to a shared number by compare and exchange.
//!
//! The update is optimistic: read the number, work out the next from it, and
//! put that in place only if the number is still the one that was read. Where
//! it is not, or where the exchange fails for no reason, the caller tries
//! again with the number that was found instead. How often that takes nobody
//! can say, so the retrying is the caller's loop, and one attempt is made
//! here.

use std::sync::atomic::{AtomicIsize, Ordering};
use vstd::prelude::*;

verus! {

/// `AtomicIsize::compare_exchange_weak`, with relaxed ordering on both
/// outcomes. The number is replaced only where it held `current`, so a
/// success hands `current` back. A failure hands back the number that was
/// found, which may be `current` itself: the weak exchange may fail without
/// cause.
#[verifier::external_body]
fn exchange_if_unchanged(atomic_num: &AtomicIsize, current: isize, new_value: isize) -> (outcome:
    Result<isize, isize>)
    ensures
        outcome matches Ok(previous) ==> previous == current,
{
    atomic_num.compare_exchange_weak(current, new_value, Ordering::Relaxed, Ordering::Relaxed)
}

/// One attempt to put `current + 1` in the place of `current`.
///
/// A success returns the number before and the number after, which differ by
/// one. A failure returns the number that was found in the place, to try
/// again with.
pub fn plus_just_one_attempt(atomic_num: &AtomicIsize, current: isize) -> (outcome: Result<
    (isize, isize),
    isize,
>)
    requires
        current < isize::MAX,
    ensures
        outcome matches Ok((previous_value, new_value)) ==> previous_value == current && new_value
            == current + 1,
{
    let new_value: isize = current + 1;
    let exchanged = exchange_if_unchanged(atomic_num, current, new_value);
    attempt_outcome(new_value, exchanged)
}

/// What an attempt to put `new_value` in place comes to, given what the
/// exchange handed back: on success the number that was replaced together
/// with `new_value`, on failure the number that was found.
pub open spec fn attempted(new_value: isize, exchanged: Result<isize, isize>) -> Result<
    (isize, isize),
    isize,
> {
    match exchanged {
        Ok(previous_value) => Ok((previous_value, new_value)),
        Err(observed_value) => Err(observed_value),
    }
}

/// Reads the outcome of an attempt off what the exchange handed back.
///
/// Whether an exchange succeeds is for the other threads and the machine to
/// decide. What an attempt returns for either answer is decided here.
pub fn attempt_outcome(new_value: isize, exchanged: Result<isize, isize>) -> (outcome: Result<
    (isize, isize),
    isize,
>)
    ensures
        outcome == attempted(new_value, exchanged),
{
    match exchanged {
        Ok(previous_value) => Ok((previous_value, new_value)),
        Err(observed_value) => Err(observed_value),
    }
}

} // verus!
