//! The wall clock and the random source, behind trusted calls.
use rand::seq::SliceRandom;
use vstd::prelude::*;

verus! {

/// `chrono::Utc::now().timestamp_millis()`: the current time in milliseconds since
/// the Unix epoch. Nothing is claimed of the value: it depends on the machine's clock.
#[verifier::external_body]
pub(crate) fn now_millis() -> i64 {
    chrono::Utc::now().timestamp_millis()
}

/// `rand::seq::SliceRandom::choose` with the thread's generator: one of `items`,
/// picked at random. Claimed: the result is one of the items (the slice is not empty,
/// so `choose` does not return `None`).
#[verifier::external_body]
pub(crate) fn choose_string(items: &Vec<String>) -> (r: &String)
    requires
        items.len() > 0,
    ensures
        items@.contains(*r),
{
    items.choose(&mut rand::thread_rng()).unwrap()
}

} // verus!
