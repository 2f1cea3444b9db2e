//! The source of random octets.

use vstd::prelude::*;

verus! {

/// Six bytes drawn from the thread-local generator of the `rand` crate, by
/// `rand::thread_rng` and `rand::Fill::try_fill` on a slice of `i8`.
///
/// Nothing is claimed of the bytes: two calls may give any two results. The
/// generator seeds itself from the operating system and stops the program
/// where the system has no entropy to give; for an integer slice it reports
/// no other failure.
#[verifier::external_body]
pub(crate) fn random_octets() -> (octets: [i8; 6]) {
    let mut octets = [0i8; 6];
    let mut rng = rand::thread_rng();
    rand::Fill::try_fill(&mut octets[..], &mut rng).expect("We are passing valid values");
    octets
}

} // verus!
