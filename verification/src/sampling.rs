//! Drawing candidate points from a random number generator.

use crate::lattice::{in_cube, in_unit_ball, point_of, CubePoint};
use rand::rngs::StdRng;
use rand::Rng;
use vstd::prelude::*;

verus! {

/// The generator of `rand` that the sampler draws from: `rand::rngs::StdRng`,
/// a deterministic stream cipher run from a seed. Its state is opaque here.
#[verifier::external_type_specification]
#[verifier::external_body]
pub struct ExStdRng(StdRng);

/// Draws the next 32-bit word from the generator: a call of `rand::Rng::gen`
/// at type `u32`, which hands back the generator's `next_u32`.
///
/// The word depends on the state of the generator, so nothing is claimed of
/// it: any value may come back. The generator computes its stream block by
/// block from its own state, reads nothing from outside, and has no failing
/// path.
#[verifier::external_body]
pub(crate) fn next_word(rng: &mut StdRng) -> (word: u32) {
    rng.gen::<u32>()
}

/// Keeps a candidate that lies in the closed unit ball and rejects any other.
///
/// The test is exact: it compares the squared norm as an integer, with no
/// rounding. The candidate `(8388607, 4096, 0)`, whose squared norm is
/// `2^46 + 1` in lattice units, is rejected, although its squared norm
/// rounds to one in single precision.
pub fn accept(candidate: CubePoint) -> (r: Option<CubePoint>)
    ensures
        r == if in_unit_ball(candidate@) { Some(candidate) } else { None },
{
    if candidate.is_in_unit_ball() {
        Some(candidate)
    } else {
        None
    }
}

/// Draws a candidate from the cube `[-1, 1)^3`.
///
/// Three words are taken from the generator, for the first, second and third
/// coordinate in that order. With a uniform generator every lattice point of
/// the cube is equally likely.
pub fn generate_random_in_cube(rng: &mut StdRng) -> (p: CubePoint)
    ensures
        in_cube(p@),
        exists|wx: u32, wy: u32, wz: u32| p@ == point_of(wx, wy, wz),
{
    let wx: u32 = next_word(rng);
    let wy: u32 = next_word(rng);
    let wz: u32 = next_word(rng);
    CubePoint::from_words(wx, wy, wz)
}

/// Makes one trial of rejection sampling: draws a candidate from the cube and
/// keeps it only if it lies in the closed unit ball.
///
/// `None` means that the candidate was rejected and the caller should try
/// again. There is no bound on the number of trials that a caller may need;
/// with a uniform generator slightly more than half of all trials succeed.
pub fn generate_random_in_ball(rng: &mut StdRng) -> (r: Option<CubePoint>)
    ensures
        r matches Some(p) ==> in_cube(p@) && in_unit_ball(p@),
        exists|wx: u32, wy: u32, wz: u32|
            match r {
                Some(p) => p@ == point_of(wx, wy, wz),
                None => !in_unit_ball(#[trigger] point_of(wx, wy, wz)),
            },
{
    let candidate: CubePoint = generate_random_in_cube(rng);
    accept(candidate)
}

} // verus!
