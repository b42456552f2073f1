//! The seeded random source of scenarios and explosions.

use vstd::prelude::*;

use rand::rngs::StdRng;

verus! {

/// The seeded generator every scenario draws from; opaque to the proofs.
#[verifier::external_type_specification]
#[verifier::external_body]
pub struct ExStdRng(StdRng);

/// Relies on rand's `SeedableRng::seed_from_u64` for `StdRng`: a generator whose
/// stream is fixed by the seed. Nothing is claimed of the values it yields.
#[verifier::external_body]
pub fn new_rng(seed: u32) -> StdRng {
    <StdRng as rand::SeedableRng>::seed_from_u64(seed as u64)
}

/// Relies on rand's `Rng::gen_range` over an `i64` range: a value in `lo..hi`.
/// It panics on an empty range, which `requires` rules out.
#[verifier::external_body]
pub fn gen_range(rng: &mut StdRng, lo: i64, hi: i64) -> (r: i64)
    requires
        lo < hi,
    ensures
        lo <= r < hi,
{
    rand::Rng::gen_range(rng, lo..hi)
}

/// Relies on rand's `SliceRandom::choose`: one of the items, or `None` for an
/// empty slice.
#[verifier::external_body]
pub fn choose_item(rng: &mut StdRng, items: &[i32]) -> (r: Option<i32>)
    ensures
        items@.len() > 0 ==> r.is_some() && items@.contains(r.unwrap()),
        items@.len() == 0 ==> r.is_none(),
{
    rand::seq::SliceRandom::choose(items, rng).copied()
}

} // verus!
