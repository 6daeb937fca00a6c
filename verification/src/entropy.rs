//! The source of chance.

use vstd::prelude::*;

verus! {

/// One byte from `rand::random`, which draws it from the calling thread's
/// generator. Nothing is claimed of the byte: two calls may give any two
/// values. The generator seeds itself from the operating system on a
/// thread's first call and gives up the thread if that source cannot be
/// read.
#[verifier::external_body]
pub(crate) fn random_byte() -> (b: u8) {
    rand::random::<u8>()
}

} // verus!
