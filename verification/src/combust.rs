//! The burst of particles that a piece gives off: how many particles there
//! are, which look each has, and how long each lives.

use vstd::prelude::*;
use rand::rngs::ThreadRng;
use rand::Rng;

verus! {

/// Number of looks a particle can have.
pub const COMBUST_VARIETY: usize = 50;

/// The life a particle starts with.
pub const MAX_LIFETIME: i32 = 100;

/// What one step takes off a particle's life.
pub const LIFETIME_STEP: i32 = 3;

/// The fewest particles in a burst.
pub const MIN_BURST: usize = 2;

/// One more than the most particles in a burst.
pub const END_BURST: usize = 5;

/// The random number generator of `rand` that each thread has. Nothing is
/// known of its state.
#[verifier::external_type_specification]
#[verifier::external_body]
pub struct ExThreadRng(rand::rngs::ThreadRng);

/// `rand::Rng::gen_range` on the half-open range `low..high`, which must not
/// be empty. Taken on trust: the value drawn lies in the range. Which value
/// it is, nobody can say.
#[verifier::external_body]
fn gen_range(rng: &mut ThreadRng, low: usize, high: usize) -> (value: usize)
    requires
        low < high,
    ensures
        low <= value < high,
{
    rng.gen_range(low..high)
}

/// What is left of a particle's life.
#[derive(Clone, Copy, PartialEq, Eq, Debug, Structural)]
pub struct Lifetime(pub i32);

/// Gives off particles and lets them fade.
#[derive(Clone, Copy, Debug)]
pub struct CombustPlugin;

impl CombustPlugin {
    /// Draws one burst: the look of each of its particles. A burst has at
    /// least `MIN_BURST` particles and fewer than `END_BURST`, and each look
    /// is one of the `COMBUST_VARIETY` there are. Number and looks are drawn
    /// at random, so no more than that holds of them.
    pub fn spawn_particles(&self, rng: &mut ThreadRng) -> (looks: Vec<usize>)
        ensures
            MIN_BURST <= looks@.len() < END_BURST,
            forall|i: int| 0 <= i < looks@.len() ==> looks@[i] < COMBUST_VARIETY,
    {
        let amount: usize = gen_range(rng, MIN_BURST, END_BURST);
        let mut looks: Vec<usize> = Vec::new();
        while looks.len() < amount
            invariant
                looks@.len() <= amount,
                forall|i: int| 0 <= i < looks@.len() ==> looks@[i] < COMBUST_VARIETY,
            decreases amount - looks@.len(),
        {
            let look: usize = gen_range(rng, 0, COMBUST_VARIETY);
            looks.push(look);
        }
        looks
    }

    /// A particle that starts its life.
    pub fn newborn(&self) -> (lifetime: Lifetime)
        ensures
            lifetime.0 == MAX_LIFETIME,
    {
        Lifetime(MAX_LIFETIME)
    }

    /// One step in a particle's life: takes `LIFETIME_STEP` off it and says
    /// whether the particle is still alive, which it is while some life is
    /// left.
    pub fn kill_particles(&self, lifetime: &mut Lifetime) -> (alive: bool)
        requires
            old(lifetime).0 - LIFETIME_STEP >= i32::MIN,
        ensures
            final(lifetime).0 == old(lifetime).0 - LIFETIME_STEP,
            alive == (final(lifetime).0 > 0),
    {
        lifetime.0 = lifetime.0 - LIFETIME_STEP;
        lifetime.0 > 0
    }
}

} // verus!
