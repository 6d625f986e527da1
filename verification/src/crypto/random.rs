//! Randomness from the operating system.
use rand::RngCore;
use vstd::prelude::*;

verus! {

/// `N` bytes filled by `OsRng::fill_bytes`, which panics only when the operating system's
/// random source fails. Nothing is stated of their values.
#[verifier::external_body]
pub(crate) fn os_random<const N: usize>() -> (bytes: [u8; N]) {
    let mut bytes = [0u8; N];
    rand::rngs::OsRng.fill_bytes(&mut bytes);
    bytes
}

} // verus!
