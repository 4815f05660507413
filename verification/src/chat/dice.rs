//! Random draws.
use rand::rngs::StdRng;
use rand::Rng;
use rand::SeedableRng;
use vstd::prelude::*;

verus! {

/// The generator of `rand`, carried through.
#[verifier::external_type_specification]
#[verifier::external_body]
pub struct ExStdRng(StdRng);

/// `SeedableRng::seed_from_u64`: a generator. What it draws is up to `rand`.
#[verifier::external_body]
pub(crate) fn seeded(seed: u64) -> (r: StdRng) {
    StdRng::seed_from_u64(seed)
}

/// `Rng::gen_range` on a half-open range of `usize`: some number within the
/// range. It panics on an empty range.
#[verifier::external_body]
pub(crate) fn draw_index(rng: &mut StdRng, from: usize, to: usize) -> (r: usize)
    requires
        from < to,
    ensures
        from <= r < to,
{
    rng.gen_range(from..to)
}

/// `Rng::gen_range` on a half-open range of `u8`: some number within the range.
/// It panics on an empty range.
#[verifier::external_body]
pub(crate) fn draw_byte(rng: &mut StdRng, from: u8, to: u8) -> (r: u8)
    requires
        from < to,
    ensures
        from <= r < to,
{
    rng.gen_range(from..to)
}

/// `Rng::gen_range` on a closed range of `u64`: some number within the range. It
/// panics on an empty range.
#[verifier::external_body]
pub(crate) fn draw_secs(rng: &mut StdRng, from: u64, to: u64) -> (r: u64)
    requires
        from <= to,
    ensures
        from <= r <= to,
{
    rng.gen_range(from..=to)
}

} // verus!
