use vstd::prelude::*;

use rand::seq::SliceRandom;
use rand::Rng;

verus! {

/// Declares rand's thread-local generator handle, so that chromosomes and
/// processors can hold and pass one.
#[verifier::external_type_specification]
#[verifier::external_body]
pub struct ExThreadRng(rand::rngs::ThreadRng);

/// Relies on rand::thread_rng: a handle to the thread-local generator.
#[verifier::external_body]
pub(crate) fn new_rng() -> rand::rngs::ThreadRng {
    rand::thread_rng()
}

/// Relies on rand::Rng::gen_range over `0..n`: a value of the half-open
/// range; the range is nonempty, so the call does not panic.
#[verifier::external_body]
pub(crate) fn rng_below(rng: &mut rand::rngs::ThreadRng, n: u64) -> (r: u64)
    requires
        n > 0,
    ensures
        r < n,
{
    rng.gen_range(0..n)
}

/// Relies on rand::Rng::gen_range over `0..n`: a value of the half-open
/// range; the range is nonempty, so the call does not panic.
#[verifier::external_body]
pub(crate) fn rng_index(rng: &mut rand::rngs::ThreadRng, n: usize) -> (r: usize)
    requires
        n > 0,
    ensures
        r < n,
{
    rng.gen_range(0..n)
}

/// Relies on rand::Rng::gen_range over `lo..hi`: a value of the half-open
/// range; the range is nonempty, so the call does not panic.
#[verifier::external_body]
pub(crate) fn rng_coord(rng: &mut rand::rngs::ThreadRng, lo: i64, hi: i64) -> (r: i64)
    requires
        lo < hi,
    ensures
        lo <= r < hi,
{
    rng.gen_range(lo..hi)
}

/// Relies on rand::seq::SliceRandom::shuffle: permutes the elements in
/// place.
#[verifier::external_body]
pub(crate) fn shuffle_vec<T>(rng: &mut rand::rngs::ThreadRng, v: &mut Vec<T>)
    ensures
        final(v)@.to_multiset() == old(v)@.to_multiset(),
        final(v)@.len() == old(v)@.len(),
{
    v.shuffle(rng)
}

} // verus!
