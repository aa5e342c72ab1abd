use rand::Rng;
use rand::seq::SliceRandom;
use rand::rngs::{SmallRng, ThreadRng};
use rand::SeedableRng;
use vstd::prelude::*;

verus! {

#[verifier::external_type_specification]
#[verifier::external_body]
pub struct ExThreadRng(ThreadRng);

#[verifier::external_type_specification]
#[verifier::external_body]
pub struct ExSmallRng(SmallRng);

/// `SeedableRng::from_os_rng` for `SmallRng`: a small generator seeded from the operating
/// system (the crate panics only when the system has no entropy to give).
#[verifier::external_body]
pub fn small_rng_from_os() -> SmallRng {
    SmallRng::from_os_rng()
}

/// `rand::rng`: a handle on the thread-local generator.
#[verifier::external_body]
pub fn thread_rng() -> ThreadRng {
    rand::rng()
}

/// `Rng::random_range` on `low..high` for `u16`; the crate panics on an empty range.
/// The value drawn is only known to lie in the range.
#[verifier::external_body]
pub fn random_range_u16(rng: &mut ThreadRng, low: u16, high: u16) -> (r: u16)
    requires
        low < high,
    ensures
        low <= r < high,
{
    rng.random_range(low..high)
}

/// `Rng::random_range` on `low..high` for `usize`; the crate panics on an empty range.
#[verifier::external_body]
pub fn random_range_usize(rng: &mut ThreadRng, low: usize, high: usize) -> (r: usize)
    requires
        low < high,
    ensures
        low <= r < high,
{
    rng.random_range(low..high)
}

/// `Rng::random_range` on `low..high` for `i32`; the crate panics on an empty range.
#[verifier::external_body]
pub fn random_range_i32(rng: &mut ThreadRng, low: i32, high: i32) -> (r: i32)
    requires
        low < high,
    ensures
        low <= r < high,
{
    rng.random_range(low..high)
}

/// `Rng::fill` on a byte buffer: every byte is overwritten with random data, so only the
/// length is known afterwards.
#[verifier::external_body]
pub fn fill_random_bytes(rng: &mut ThreadRng, buf: &mut Vec<u8>)
    ensures
        final(buf)@.len() == old(buf)@.len(),
{
    rng.fill(buf.as_mut_slice());
}

/// `SliceRandom::shuffle`: the crate permutes the slice in place by swaps, so the result
/// holds the same elements, each as often as before, in an order drawn at random.
#[verifier::external_body]
pub fn shuffle_indices(rng: &mut SmallRng, v: &mut Vec<usize>)
    ensures
        final(v)@.to_multiset() == old(v)@.to_multiset(),
        final(v)@.len() == old(v)@.len(),
{
    v.as_mut_slice().shuffle(rng);
}

} // verus!
