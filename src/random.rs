use rand::{Rng, SeedableRng};
use vstd::prelude::*;

verus! {

/// The first byte that rand's `SmallRng`, seeded through `seed_from_u64(seed)`,
/// draws on a target whose pointers are `pointer_bits` wide. The generator
/// behind `SmallRng` is chosen by pointer width, and is otherwise a fixed
/// function of the seed.
pub uninterp spec fn small_rng_byte(seed: u64, pointer_bits: u32) -> u8;

/// Relies on rand's `SmallRng::seed_from_u64` and one `Rng::gen::<u8>` draw:
/// a fresh generator, so the byte depends on the seed (and the target) alone.
#[verifier::external_body]
pub(crate) fn seeded_byte(seed: u64) -> (r: u8)
    ensures
        r == small_rng_byte(seed, usize::BITS),
{
    let mut rng = rand::rngs::SmallRng::seed_from_u64(seed);
    rng.gen()
}

} // verus!
