//! The lattice of candidate points inside the cube `[-1, 1)^3`.
//!
//! A coordinate is an integer numerator over the fixed denominator [`ONE`],
//! so every candidate is an exact rational point and its squared norm is an
//! exact integer.

use vstd::prelude::*;

verus! {

/// The numerator that stands for `1`: a lattice coordinate `c` denotes the
/// real number `c / ONE`. It equals `2^23`.
pub const ONE: i32 = 8_388_608;

/// The squared norm, in lattice units, of a point at distance exactly `1`
/// from the origin. It equals `ONE * ONE`.
pub const ONE_SQUARED: u64 = 70_368_744_177_664;

/// A point in lattice units.
pub type Coordinates = (int, int, int);

/// The coordinate that a 32-bit random word selects: its 24 most significant
/// bits, read as an unsigned number, shifted down so that the range is
/// centred on zero.
pub open spec fn coordinate_of(word: u32) -> int {
    word as int / 256 - ONE
}

/// The candidate that three random words select, one word per axis.
pub open spec fn point_of(wx: u32, wy: u32, wz: u32) -> Coordinates {
    (coordinate_of(wx), coordinate_of(wy), coordinate_of(wz))
}

/// Whether every coordinate denotes a number in `[-1, 1)`.
pub open spec fn in_cube(p: Coordinates) -> bool {
    &&& -ONE <= p.0 < ONE
    &&& -ONE <= p.1 < ONE
    &&& -ONE <= p.2 < ONE
}

/// The squared Euclidean norm in squared lattice units.
pub open spec fn norm_squared_of(p: Coordinates) -> int {
    p.0 * p.0 + p.1 * p.1 + p.2 * p.2
}

/// Whether the point lies in the closed unit ball.
pub open spec fn in_unit_ball(p: Coordinates) -> bool {
    norm_squared_of(p) <= ONE * ONE
}

/// Maps a random word to a lattice coordinate.
///
/// The 8 least significant bits of the word are dropped; the remaining 24
/// bits cover `[-ONE, ONE)` evenly, 256 words to each coordinate.
pub fn coordinate_from_word(word: u32) -> (c: i32)
    ensures
        c == coordinate_of(word),
        -ONE <= c < ONE,
{
    let fraction: u32 = word >> 8;
    assert(word >> 8 == word / 256 && (word >> 8) < 0x100_0000) by (bit_vector);
    (fraction as i32) - ONE
}

/// A point of the cube `[-1, 1)^3` with lattice coordinates.
#[derive(Clone, Copy, Debug, PartialEq, Eq, Structural)]
pub struct CubePoint {
    x: i32,
    y: i32,
    z: i32,
}

impl View for CubePoint {
    type V = Coordinates;

    closed spec fn view(&self) -> Coordinates {
        (self.x as int, self.y as int, self.z as int)
    }
}

impl CubePoint {
    #[verifier::type_invariant]
    spec fn inside(&self) -> bool {
        in_cube(self@)
    }

    /// Builds the point with the given coordinates, if it lies in the cube.
    pub fn new(x: i32, y: i32, z: i32) -> (r: Option<CubePoint>)
        ensures
            r is Some <==> in_cube((x as int, y as int, z as int)),
            r matches Some(p) ==> p@ == (x as int, y as int, z as int),
    {
        if -ONE <= x && x < ONE && -ONE <= y && y < ONE && -ONE <= z && z < ONE {
            Some(CubePoint { x, y, z })
        } else {
            None
        }
    }

    /// Builds the candidate that three random words select.
    pub fn from_words(wx: u32, wy: u32, wz: u32) -> (p: CubePoint)
        ensures
            p@ == point_of(wx, wy, wz),
            in_cube(p@),
    {
        CubePoint {
            x: coordinate_from_word(wx),
            y: coordinate_from_word(wy),
            z: coordinate_from_word(wz),
        }
    }

    /// The first coordinate.
    pub fn x(&self) -> (c: i32)
        ensures
            c == self@.0,
            -ONE <= c < ONE,
    {
        proof {
            use_type_invariant(self);
        }
        self.x
    }

    /// The second coordinate.
    pub fn y(&self) -> (c: i32)
        ensures
            c == self@.1,
            -ONE <= c < ONE,
    {
        proof {
            use_type_invariant(self);
        }
        self.y
    }

    /// The third coordinate.
    pub fn z(&self) -> (c: i32)
        ensures
            c == self@.2,
            -ONE <= c < ONE,
    {
        proof {
            use_type_invariant(self);
        }
        self.z
    }

    /// The exact squared norm, in squared lattice units.
    pub fn norm_squared(&self) -> (n: u64)
        ensures
            n == norm_squared_of(self@),
            n <= 3 * ONE_SQUARED,
    {
        proof {
            use_type_invariant(self);
        }
        let xx: u64 = square(self.x);
        let yy: u64 = square(self.y);
        let zz: u64 = square(self.z);
        xx + yy + zz
    }

    /// Whether the point lies in the closed unit ball.
    pub fn is_in_unit_ball(&self) -> (b: bool)
        ensures
            b == in_unit_ball(self@),
    {
        self.norm_squared() <= ONE_SQUARED
    }
}

/// The square of a coordinate.
fn square(c: i32) -> (s: u64)
    requires
        -ONE <= c <= ONE,
    ensures
        s == c * c,
        s <= ONE_SQUARED,
{
    assert(0 <= c * c <= 70_368_744_177_664) by (nonlinear_arith)
        requires
            -8_388_608 <= c <= 8_388_608,
    ;
    let wide: i64 = c as i64;
    (wide * wide) as u64
}

/// Every coordinate is selected by the same number of random words: the
/// words that select `c` are exactly the 256 consecutive words that start at
/// `(c + ONE) * 256`, and all of them are 32-bit words. A generator that is
/// uniform on words is therefore uniform on coordinates.
pub proof fn lemma_coordinates_are_uniform(c: int, word: u32)
    requires
        -ONE <= c < ONE,
    ensures
        coordinate_of(word) == c <==> (c + ONE) * 256 <= word < (c + ONE) * 256 + 256,
        (c + ONE) * 256 + 256 <= 0x1_0000_0000,
{
}

/// Whether a point lies in the unit ball depends on its distance from the
/// origin alone: exchanging two coordinates, or reflecting the point in a
/// coordinate plane, never changes the answer. Rejection therefore favours
/// no axis and no sign.
pub proof fn lemma_unit_ball_is_isotropic(p: Coordinates)
    ensures
        in_unit_ball((p.1, p.0, p.2)) == in_unit_ball(p),
        in_unit_ball((p.0, p.2, p.1)) == in_unit_ball(p),
        in_unit_ball((-p.0, p.1, p.2)) == in_unit_ball(p),
        in_unit_ball((p.0, -p.1, p.2)) == in_unit_ball(p),
        in_unit_ball((p.0, p.1, -p.2)) == in_unit_ball(p),
{
    assert((-p.0) * (-p.0) == p.0 * p.0) by (nonlinear_arith);
    assert((-p.1) * (-p.1) == p.1 * p.1) by (nonlinear_arith);
    assert((-p.2) * (-p.2) == p.2 * p.2) by (nonlinear_arith);
}

} // verus!
