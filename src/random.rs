//! Random draws for woodchip launches.
use vstd::prelude::*;

use crate::fixed::ONE;

verus! {

/// Relies on `rand::random`: a value drawn from the thread-local generator.
/// Nothing is known of the value, so nothing is promised.
pub assume_specification<T>[ rand::random::<T> ]() -> (r: T)
    where
        rand::distributions::Standard: rand::distributions::Distribution<T>,
;

/// A fraction drawn in `[0, ONE)`.
pub fn unit_draw() -> (r: u64)
    ensures
        r < ONE,
{
    let x: u64 = rand::random::<u64>();
    x % 10000
}

} // verus!
