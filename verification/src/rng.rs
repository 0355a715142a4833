use vstd::prelude::*;

verus! {

/// The dice roller of the terminal library, carried through the game rules
/// that roll for movement, initiative and map layout.
#[verifier::external_type_specification]
#[verifier::external_body]
pub struct ExRandomNumberGenerator(rltk::RandomNumberGenerator);

/// Calls `RandomNumberGenerator::roll_dice`, which sums `n` rolls of a die
/// numbered `1..=die_type`. The claim is the range of every outcome:
/// between `n` and `n * die_type`. Which value comes up is left open: it
/// rests on the generator's seed. `die_type` must be at least 1 (the
/// underlying range would be empty) and the largest sum must fit in `i32`.
#[verifier::external_body]
pub(crate) fn roll_dice(rng: &mut rltk::RandomNumberGenerator, n: i32, die_type: i32) -> (total: i32)
    requires
        0 <= n,
        1 <= die_type < i32::MAX,
        n * die_type <= i32::MAX,
    ensures
        n <= total <= n * die_type,
{
    rng.roll_dice(n, die_type)
}

/// Calls `RandomNumberGenerator::range::<i32>`, which draws from the
/// half-open range `min..max`. The claim is only that range; the value
/// drawn rests on the generator's seed. The range must not be empty (the
/// underlying sampler panics on an empty one).
#[verifier::external_body]
pub(crate) fn range(rng: &mut rltk::RandomNumberGenerator, min: i32, max: i32) -> (r: i32)
    requires
        min < max,
    ensures
        min <= r < max,
{
    rng.range(min, max)
}

/// Calls `RandomNumberGenerator::new`, which seeds a fresh generator.
/// Nothing is claimed of the generator's state.
#[verifier::external_body]
pub(crate) fn new_generator() -> (rng: rltk::RandomNumberGenerator)
{
    rltk::RandomNumberGenerator::new()
}

} // verus!
