//! The random source the host wires into the machine: a thin shell over the
//! process-wide random number generator of the `rand` crate.
use crate::chipset::RandomByteGenerator;
use vstd::prelude::*;

verus! {

/// Draws a fresh random value from the thread-local generator.
///
/// Relies on rand::random; nothing can be promised of a random value, so
/// nothing is.
pub assume_specification<T>[ rand::random::<T> ]() -> (r: T)
    where
        rand::distributions::Standard: rand::distributions::Distribution<T>,
;

/// A random-byte source backed by the `rand` crate.
pub struct RandRandomByteGenerator {}

impl RandRandomByteGenerator {
    pub fn new() -> RandRandomByteGenerator {
        RandRandomByteGenerator {  }
    }
}

impl RandomByteGenerator for RandRandomByteGenerator {
    fn generate(&self) -> u8 {
        rand::random::<u8>()
    }
}

} // verus!
