//! Random numbers: some drawn from the operating system's generator, some
//! from a generator that starts from a given seed.

use vstd::prelude::*;

verus! {

/// Draws a number below `bound`.
///
/// This is `rand::Rng::gen_range` on the thread's generator with the range
/// `0..bound`.  It is believed, not proved, that the number drawn lies in
/// that range; nothing is said about which one it is.  An empty range makes
/// `gen_range` panic, so `bound` must be positive.
#[verifier::external_body]
pub(crate) fn random_below(bound: u32) -> (res: u32)
    requires
        bound > 0,
    ensures
        res < bound,
{
    rand::Rng::gen_range(&mut rand::thread_rng(), 0..bound)
}

/// Fills `len` bytes from a small, fast generator that starts from `seed`.
///
/// This is `rand::rngs::SmallRng`, made by `rand::SeedableRng::from_seed`
/// and read by `rand::RngCore::fill_bytes`.  Which generator that is depends
/// on the machine, so the contract claims the length of the buffer, which
/// this function allocates, and nothing of its bytes.  The seed has to be 32
/// bytes long: copying a slice of another length into the seed block panics.
#[verifier::external_body]
pub(crate) fn pseudo_random_bytes(seed: &[u8], len: usize) -> (res: Vec<u8>)
    requires
        seed@.len() == 32,
    ensures
        res@.len() == len,
{
    let mut block = [0u8; 32];
    block.copy_from_slice(seed);
    let mut rng: rand::rngs::SmallRng = rand::SeedableRng::from_seed(block);
    let mut buf = vec![0u8; len];
    rand::RngCore::fill_bytes(&mut rng, &mut buf);
    buf
}

} // verus!
