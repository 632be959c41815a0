//! Random numbers, drawn from the generator of `rltk`.

use vstd::prelude::*;
use crate::world::World;

verus! {

/// The random number generator of `rltk`. Its state is opaque.
#[verifier::external_type_specification]
#[verifier::external_body]
pub struct ExRandomNumberGenerator(rltk::RandomNumberGenerator);

/// Calls `RandomNumberGenerator::new`, which seeds a generator from the
/// operating system's entropy. Nothing is claimed of the generator.
#[verifier::external_body]
pub(crate) fn generator_new() -> (rng: rltk::RandomNumberGenerator) {
    rltk::RandomNumberGenerator::new()
}

/// Calls `RandomNumberGenerator::seeded`. Nothing is claimed of the generator.
#[verifier::external_body]
pub(crate) fn generator_seeded(seed: u64) -> (rng: rltk::RandomNumberGenerator) {
    rltk::RandomNumberGenerator::seeded(seed)
}

/// Calls `RandomNumberGenerator::range`. Trusted: the result lies in
/// `start..end`; the call panics on an empty range, which `requires` excludes.
#[verifier::external_body]
pub(crate) fn generator_range(rng: &mut rltk::RandomNumberGenerator, start: i32, end: i32) -> (r:
    i32)
    requires
        start < end,
    ensures
        start <= r < end,
{
    rng.range(start, end)
}

/// Calls `RandomNumberGenerator::roll_dice`. Trusted: the result is the sum
/// of `n` rolls, each between 1 and `die_type`, and 0 without a roll;
/// `requires` excludes the inputs on which a roll has an empty range or the
/// sum overflows.
#[verifier::external_body]
pub(crate) fn generator_roll_dice(rng: &mut rltk::RandomNumberGenerator, n: i32, die_type: i32) -> (r:
    i32)
    requires
        n >= 1 ==> 1 <= die_type < i32::MAX && n * die_type <= i32::MAX,
    ensures
        n <= 0 ==> r == 0,
        n >= 1 ==> n <= r <= n * die_type,
{
    rng.roll_dice(n, die_type)
}

/// Registers a random number generator, seeded with `seed`, with the
/// world. This has to be done before a number is drawn from the world.
pub fn register(ecs: &mut World, seed: u64)
    ensures
        *final(ecs) == (World { rng: final(ecs).rng, ..*old(ecs) }),
        final(ecs).rng is Some,
{
    ecs.rng = Some(generator_seeded(seed));
}

/// Whether a random number generator is registered with the world.
pub fn is_registered(ecs: &World) -> (b: bool)
    ensures
        b == ecs.rng is Some,
{
    ecs.rng.is_some()
}

/// Rolls `n` dice with `die_type` sides each and returns their sum.
pub fn roll_dice(ecs: &mut World, n: i32, die_type: i32) -> (r: i32)
    requires
        old(ecs).rng is Some,
        n >= 1 ==> 1 <= die_type < i32::MAX && n * die_type <= i32::MAX,
    ensures
        *final(ecs) == (World { rng: final(ecs).rng, ..*old(ecs) }),
        final(ecs).rng is Some,
        n <= 0 ==> r == 0,
        n >= 1 ==> n <= r <= n * die_type,
{
    match &mut ecs.rng {
        Some(rng) => generator_roll_dice(rng, n, die_type),
        None => 0,
    }
}

/// Returns a random number from `start` up to, but not including, `end`.
pub fn range(ecs: &mut World, start: i32, end: i32) -> (r: i32)
    requires
        old(ecs).rng is Some,
        start < end,
    ensures
        *final(ecs) == (World { rng: final(ecs).rng, ..*old(ecs) }),
        final(ecs).rng is Some,
        start <= r < end,
{
    match &mut ecs.rng {
        Some(rng) => generator_range(rng, start, end),
        None => start,
    }
}

} // verus!
