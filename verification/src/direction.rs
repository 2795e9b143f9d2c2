//! Directions: vectors of unit length, and how they are made.

use crate::lattice::{in_unit_ball, point_of, Coordinates, CubePoint, ONE};
use crate::sampling::{accept, next_word};
use crate::scalar::{
    deterministic_binary, deterministic_comparison, deterministic_from_bits, total_binary,
    total_comparison, total_from_bits, total_from_int, total_unary, ONE_BITS, TOLERANCE_BITS,
    ZERO_BITS,
};
use rand::rngs::StdRng;
use vstd::prelude::*;

verus! {

/// A direction with its three components.
///
/// A direction is meant to have length one. [`Direction::is_unit`] tests
/// components that a caller supplies, and [`Direction::new`] takes only
/// components that pass; directions that come from sampling are scaled to
/// unit length and not tested again.
#[derive(Debug, Clone, Copy)]
pub struct Direction<T> {
    pub x: T,
    pub y: T,
    pub z: T,
}

/// The intermediate values of a dot product.
pub struct DotSteps<T> {
    pub xx: T,
    pub yy: T,
    pub zz: T,
    pub xx_yy: T,
}

/// Whether `r` is `(a.x * b.x + a.y * b.y) + a.z * b.z`, with the
/// intermediate values `s`.
pub open spec fn dot_steps<T, P: Fn(T, T) -> T, M: Fn(T, T) -> T>(
    plus: &P,
    times: &M,
    a: Direction<T>,
    b: Direction<T>,
    s: DotSteps<T>,
    r: T,
) -> bool {
    &&& times.ensures((a.x, b.x), s.xx)
    &&& times.ensures((a.y, b.y), s.yy)
    &&& times.ensures((a.z, b.z), s.zz)
    &&& plus.ensures((s.xx, s.yy), s.xx_yy)
    &&& plus.ensures((s.xx_yy, s.zz), r)
}

/// Whether `r` is `(a.x * b.x + a.y * b.y) + a.z * b.z`.
pub open spec fn is_dot<T, P: Fn(T, T) -> T, M: Fn(T, T) -> T>(
    plus: &P,
    times: &M,
    a: Direction<T>,
    b: Direction<T>,
    r: T,
) -> bool {
    exists|s: DotSteps<T>| dot_steps(plus, times, a, b, s, r)
}

/// Whether `r` is `(x * x + y * y) + z * z`.
pub open spec fn is_norm_squared<T, P: Fn(T, T) -> T, M: Fn(T, T) -> T>(
    plus: &P,
    times: &M,
    x: T,
    y: T,
    z: T,
    r: T,
) -> bool {
    is_dot(plus, times, Direction { x, y, z }, Direction { x, y, z }, r)
}

/// The constants and intermediate values of the test for unit length.
pub struct UnitTestSteps<T> {
    pub one: T,
    pub excess: T,
    pub distance: T,
    pub tolerance: T,
}

/// Whether `unit` is the outcome of the test `|norm_squared - 1| < 1e-5`,
/// with the intermediate values `s`.
pub open spec fn unit_test_steps<
    T,
    B: Fn(u32) -> T,
    S: Fn(T, T) -> T,
    A: Fn(T) -> T,
    L: Fn(T, T) -> bool,
>(
    from_bits: &B,
    minus: &S,
    magnitude: &A,
    less: &L,
    norm_squared: T,
    s: UnitTestSteps<T>,
    unit: bool,
) -> bool {
    &&& from_bits.ensures((ONE_BITS,), s.one)
    &&& minus.ensures((norm_squared, s.one), s.excess)
    &&& magnitude.ensures((s.excess,), s.distance)
    &&& from_bits.ensures((TOLERANCE_BITS,), s.tolerance)
    &&& less.ensures((s.distance, s.tolerance), unit)
}

/// Whether `unit` is the outcome of the test `|norm_squared - 1| < 1e-5`.
pub open spec fn is_unit_test<
    T,
    B: Fn(u32) -> T,
    S: Fn(T, T) -> T,
    A: Fn(T) -> T,
    L: Fn(T, T) -> bool,
>(from_bits: &B, minus: &S, magnitude: &A, less: &L, norm_squared: T, unit: bool) -> bool {
    exists|s: UnitTestSteps<T>|
        unit_test_steps(from_bits, minus, magnitude, less, norm_squared, s, unit)
}

/// Whether `unit` is the outcome of the test
/// `|((x * x + y * y) + z * z) - 1| < 1e-5` on the components `(x, y, z)`.
pub open spec fn passes_unit_test<
    T,
    B: Fn(u32) -> T,
    P: Fn(T, T) -> T,
    S: Fn(T, T) -> T,
    M: Fn(T, T) -> T,
    A: Fn(T) -> T,
    L: Fn(T, T) -> bool,
>(
    from_bits: &B,
    plus: &P,
    minus: &S,
    times: &M,
    magnitude: &A,
    less: &L,
    x: T,
    y: T,
    z: T,
    unit: bool,
) -> bool {
    exists|n: T|
        {
            &&& #[trigger] is_norm_squared(plus, times, x, y, z, n)
            &&& is_unit_test(from_bits, minus, magnitude, less, n, unit)
        }
}

/// Whether `c` is the scalar that the lattice coordinate `n` denotes:
/// `n / ONE`, both converted from integers.
pub open spec fn is_coordinate<T, I: Fn(i64) -> T, D: Fn(T, T) -> T>(
    from_int: &I,
    over: &D,
    n: int,
    c: T,
) -> bool {
    exists|numerator: T, denominator: T|
        {
            &&& from_int.ensures((n as i64,), numerator)
            &&& from_int.ensures((ONE as i64,), denominator)
            &&& #[trigger] over.ensures((numerator, denominator), c)
        }
}

/// Whether `d` is the point `(x, y, z)` divided by its length, the square
/// root of `(x * x + y * y) + z * z`.
pub open spec fn is_normalized<
    T,
    P: Fn(T, T) -> T,
    M: Fn(T, T) -> T,
    D: Fn(T, T) -> T,
    R: Fn(T) -> T,
>(plus: &P, times: &M, over: &D, root: &R, x: T, y: T, z: T, d: Direction<T>) -> bool {
    exists|norm_squared: T, norm: T|
        {
            &&& is_norm_squared(plus, times, x, y, z, norm_squared)
            &&& #[trigger] root.ensures((norm_squared,), norm)
            &&& over.ensures((x, norm), d.x)
            &&& over.ensures((y, norm), d.y)
            &&& over.ensures((z, norm), d.z)
        }
}

/// Whether `d` is the direction of the lattice point `p`: the point
/// `(p.0 / ONE, p.1 / ONE, p.2 / ONE)` scaled to unit length.
pub open spec fn is_direction_of<
    T,
    I: Fn(i64) -> T,
    P: Fn(T, T) -> T,
    M: Fn(T, T) -> T,
    D: Fn(T, T) -> T,
    R: Fn(T) -> T,
>(
    from_int: &I,
    plus: &P,
    times: &M,
    over: &D,
    root: &R,
    p: Coordinates,
    d: Direction<T>,
) -> bool {
    exists|c: Direction<T>|
        {
            &&& is_coordinate(from_int, over, p.0, c.x)
            &&& is_coordinate(from_int, over, p.1, c.y)
            &&& is_coordinate(from_int, over, p.2, c.z)
            &&& #[trigger] is_normalized(plus, times, over, root, c.x, c.y, c.z, d)
        }
}

/// The intermediate values of turning a direction to the side of a normal.
pub struct TurnSteps<T> {
    pub cosine: T,
    pub zero: T,
    pub away: bool,
}

/// Whether `d` is `candidate` turned to the side of `normal`, with the
/// intermediate values `s`.
pub open spec fn turn_steps<
    T,
    B: Fn(u32) -> T,
    P: Fn(T, T) -> T,
    M: Fn(T, T) -> T,
    N: Fn(T) -> T,
    L: Fn(T, T) -> bool,
>(
    from_bits: &B,
    plus: &P,
    times: &M,
    negate: &N,
    less: &L,
    normal: Direction<T>,
    candidate: Direction<T>,
    s: TurnSteps<T>,
    d: Direction<T>,
) -> bool {
    &&& is_dot(plus, times, normal, candidate, s.cosine)
    &&& from_bits.ensures((ZERO_BITS,), s.zero)
    &&& less.ensures((s.cosine, s.zero), s.away)
    &&& if s.away {
        &&& negate.ensures((candidate.x,), d.x)
        &&& negate.ensures((candidate.y,), d.y)
        &&& negate.ensures((candidate.z,), d.z)
    } else {
        d == candidate
    }
}

/// Whether `d` is `candidate` turned to the side of `normal`: `candidate`
/// itself unless its dot product with `normal` is less than zero, and else
/// `candidate` with every component negated.
pub open spec fn is_turned_toward<
    T,
    B: Fn(u32) -> T,
    P: Fn(T, T) -> T,
    M: Fn(T, T) -> T,
    N: Fn(T) -> T,
    L: Fn(T, T) -> bool,
>(
    from_bits: &B,
    plus: &P,
    times: &M,
    negate: &N,
    less: &L,
    normal: Direction<T>,
    candidate: Direction<T>,
    d: Direction<T>,
) -> bool {
    exists|s: TurnSteps<T>|
        turn_steps(from_bits, plus, times, negate, less, normal, candidate, s, d)
}

/// Computes `(x * x + y * y) + z * z`.
pub fn norm_squared<T: Copy, P: Fn(T, T) -> T, M: Fn(T, T) -> T>(
    x: T,
    y: T,
    z: T,
    plus: &P,
    times: &M,
) -> (r: T)
    requires
        total_binary(plus),
        total_binary(times),
    ensures
        is_norm_squared(plus, times, x, y, z, r),
{
    let xx: T = times(x, x);
    let yy: T = times(y, y);
    let zz: T = times(z, z);
    let xx_yy: T = plus(xx, yy);
    let r: T = plus(xx_yy, zz);
    proof {
        let p = Direction { x, y, z };
        assert(dot_steps(plus, times, p, p, DotSteps { xx, yy, zz, xx_yy }, r));
    }
    r
}

impl<T: Copy> Direction<T> {
    /// Tests whether `(x, y, z)` has unit length:
    /// `|x * x + y * y + z * z - 1| < 1e-5`.
    pub fn is_unit<
        B: Fn(u32) -> T,
        P: Fn(T, T) -> T,
        S: Fn(T, T) -> T,
        M: Fn(T, T) -> T,
        A: Fn(T) -> T,
        L: Fn(T, T) -> bool,
    >(
        x: T,
        y: T,
        z: T,
        from_bits: &B,
        plus: &P,
        minus: &S,
        times: &M,
        magnitude: &A,
        less: &L,
    ) -> (unit: bool)
        requires
            total_from_bits(from_bits),
            total_binary(plus),
            total_binary(minus),
            total_binary(times),
            total_unary(magnitude),
            total_comparison(less),
        ensures
            passes_unit_test(from_bits, plus, minus, times, magnitude, less, x, y, z, unit),
    {
        let n: T = norm_squared(x, y, z, plus, times);
        let one: T = from_bits(ONE_BITS);
        let excess: T = minus(n, one);
        let distance: T = magnitude(excess);
        let tolerance: T = from_bits(TOLERANCE_BITS);
        let unit: bool = less(distance, tolerance);
        assert(unit_test_steps(
            from_bits,
            minus,
            magnitude,
            less,
            n,
            UnitTestSteps { one, excess, distance, tolerance },
            unit,
        ));
        unit
    }

    /// Builds a direction from its components, which are kept as they are
    /// given: nothing is scaled or clamped.
    ///
    /// The components must have passed the test of [`Direction::is_unit`]
    /// under the same arithmetic; components that fail it are a mistake of
    /// the caller and have no direction. The operations are named only to
    /// say which test is meant; none of them is called.
    pub fn new<
        B: Fn(u32) -> T,
        P: Fn(T, T) -> T,
        S: Fn(T, T) -> T,
        M: Fn(T, T) -> T,
        A: Fn(T) -> T,
        L: Fn(T, T) -> bool,
    >(
        x: T,
        y: T,
        z: T,
        from_bits: &B,
        plus: &P,
        minus: &S,
        times: &M,
        magnitude: &A,
        less: &L,
    ) -> (d: Direction<T>)
        requires
            passes_unit_test(from_bits, plus, minus, times, magnitude, less, x, y, z, true),
        ensures
            d.x == x,
            d.y == y,
            d.z == z,
    {
        Direction { x, y, z }
    }

    /// The dot product with another direction.
    pub fn dot<P: Fn(T, T) -> T, M: Fn(T, T) -> T>(
        &self,
        other: &Direction<T>,
        plus: &P,
        times: &M,
    ) -> (r: T)
        requires
            total_binary(plus),
            total_binary(times),
        ensures
            is_dot(plus, times, *self, *other, r),
    {
        let xx: T = times(self.x, other.x);
        let yy: T = times(self.y, other.y);
        let zz: T = times(self.z, other.z);
        let xx_yy: T = plus(xx, yy);
        let r: T = plus(xx_yy, zz);
        assert(dot_steps(plus, times, *self, *other, DotSteps { xx, yy, zz, xx_yy }, r));
        r
    }

    /// Scales an accepted candidate to unit length.
    ///
    /// With single precision arithmetic the conversion of the coordinates is
    /// exact: each is an integer of at most 24 bits divided by a power of
    /// two. The candidate at the origin has no direction; what comes back
    /// for it is whatever the division of zero by zero gives.
    pub fn from_point_in_ball<
        I: Fn(i64) -> T,
        P: Fn(T, T) -> T,
        M: Fn(T, T) -> T,
        D: Fn(T, T) -> T,
        R: Fn(T) -> T,
    >(point: CubePoint, from_int: &I, plus: &P, times: &M, over: &D, root: &R) -> (d: Direction<T>)
        requires
            total_from_int(from_int),
            total_binary(plus),
            total_binary(times),
            total_binary(over),
            total_unary(root),
        ensures
            is_direction_of(from_int, plus, times, over, root, point@, d),
    {
        let denominator: T = from_int(ONE as i64);
        let nx: T = from_int(point.x() as i64);
        let ny: T = from_int(point.y() as i64);
        let nz: T = from_int(point.z() as i64);
        let x: T = over(nx, denominator);
        let y: T = over(ny, denominator);
        let z: T = over(nz, denominator);
        assert(is_coordinate(from_int, over, point@.0, x));
        assert(is_coordinate(from_int, over, point@.1, y));
        assert(is_coordinate(from_int, over, point@.2, z));

        let n: T = norm_squared(x, y, z, plus, times);
        let norm: T = root(n);
        let d = Direction { x: over(x, norm), y: over(y, norm), z: over(z, norm) };
        proof {
            let c = Direction { x, y, z };
            assert(is_normalized(plus, times, over, root, c.x, c.y, c.z, d));
        }
        d
    }

    /// Decides one trial of rejection sampling from the three words that
    /// were drawn for it: the candidate that the words select is scaled to
    /// unit length if it lies in the closed unit ball, and rejected if it
    /// does not.
    ///
    /// The candidate is tested in exact integer arithmetic: it is kept if
    /// and only if its squared norm, as a rational number, is at most one.
    /// A test on the squared norm as the caller's arithmetic rounds it can
    /// differ for candidates within rounding distance of the sphere: the
    /// candidate `(8388607, 4096, 0)` has squared norm `1 + 2^-46` and is
    /// rejected here, while single precision rounds that to one.
    pub fn from_words<
        I: Fn(i64) -> T,
        P: Fn(T, T) -> T,
        M: Fn(T, T) -> T,
        D: Fn(T, T) -> T,
        R: Fn(T) -> T,
    >(
        wx: u32,
        wy: u32,
        wz: u32,
        from_int: &I,
        plus: &P,
        times: &M,
        over: &D,
        root: &R,
    ) -> (r: Option<Direction<T>>)
        requires
            total_from_int(from_int),
            total_binary(plus),
            total_binary(times),
            total_binary(over),
            total_unary(root),
        ensures
            r is Some <==> in_unit_ball(point_of(wx, wy, wz)),
            r matches Some(d) ==> is_direction_of(
                from_int,
                plus,
                times,
                over,
                root,
                point_of(wx, wy, wz),
                d,
            ),
    {
        match accept(CubePoint::from_words(wx, wy, wz)) {
            Some(point) => Some(
                Direction::from_point_in_ball(point, from_int, plus, times, over, root),
            ),
            None => None,
        }
    }

    /// Makes one trial of drawing a direction uniformly from the unit
    /// sphere, by the rejection method: three words are drawn, for the
    /// first, second and third coordinate of a candidate in the enclosing
    /// cube, and [`Direction::from_words`] decides the trial. The test of
    /// the candidate is exact, as described there.
    ///
    /// `None` means that the candidate was rejected and the caller should
    /// try again. About 1.91 trials are needed per direction; there is no
    /// bound on their number.
    pub fn generate_random_on_sphere<
        I: Fn(i64) -> T,
        P: Fn(T, T) -> T,
        M: Fn(T, T) -> T,
        D: Fn(T, T) -> T,
        R: Fn(T) -> T,
    >(
        rng: &mut StdRng,
        from_int: &I,
        plus: &P,
        times: &M,
        over: &D,
        root: &R,
    ) -> (r: Option<Direction<T>>)
        requires
            total_from_int(from_int),
            total_binary(plus),
            total_binary(times),
            total_binary(over),
            total_unary(root),
        ensures
            exists|wx: u32, wy: u32, wz: u32|
                match r {
                    Some(d) => in_unit_ball(#[trigger] point_of(wx, wy, wz)) && is_direction_of(
                        from_int,
                        plus,
                        times,
                        over,
                        root,
                        point_of(wx, wy, wz),
                        d,
                    ),
                    None => !in_unit_ball(point_of(wx, wy, wz)),
                },
    {
        let wx: u32 = next_word(rng);
        let wy: u32 = next_word(rng);
        let wz: u32 = next_word(rng);
        let r = Direction::from_words(wx, wy, wz, from_int, plus, times, over, root);
        assert(r is Some <==> in_unit_ball(point_of(wx, wy, wz)));
        r
    }

    /// Turns a direction to the side of `normal`: hands `candidate` back
    /// unless its dot product with `normal` is less than zero, and mirrors
    /// it through the origin if it is.
    ///
    /// Applied to a uniform direction on the sphere this gives a uniform
    /// direction on the hemisphere around `normal`.
    pub fn turned_toward<
        B: Fn(u32) -> T,
        P: Fn(T, T) -> T,
        M: Fn(T, T) -> T,
        N: Fn(T) -> T,
        L: Fn(T, T) -> bool,
    >(
        normal: &Direction<T>,
        candidate: Direction<T>,
        from_bits: &B,
        plus: &P,
        times: &M,
        negate: &N,
        less: &L,
    ) -> (d: Direction<T>)
        requires
            total_from_bits(from_bits),
            total_binary(plus),
            total_binary(times),
            total_unary(negate),
            total_comparison(less),
        ensures
            is_turned_toward(from_bits, plus, times, negate, less, *normal, candidate, d),
    {
        let cosine: T = normal.dot(&candidate, plus, times);
        let zero: T = from_bits(ZERO_BITS);
        let away: bool = less(cosine, zero);
        let d = if away {
            Direction { x: negate(candidate.x), y: negate(candidate.y), z: negate(candidate.z) }
        } else {
            candidate
        };
        assert(turn_steps(
            from_bits,
            plus,
            times,
            negate,
            less,
            *normal,
            candidate,
            TurnSteps { cosine, zero, away },
            d,
        ));
        d
    }
}

/// Whether the arithmetic treats signs evenly, where `opposite(a, b)` says
/// that `b` counts as the negation of `a`:
///
/// - what `negate` returns is opposite to its operand;
/// - products of one factor with opposite factors are opposite;
/// - sums of opposite terms are opposite;
/// - the opposite of a scalar that is less than zero is not less than zero.
///
/// Results need not be equal for this, only opposite. IEEE-754 arithmetic
/// meets all four with `opposite(a, b)` read as: both are not-a-number, or
/// `a == -b`. It would not meet them with equality of results: `1 + (-1)`
/// and `(-1) + 1` are both `+0`, not one the negation of the other, yet each
/// is opposite to the other, since `+0 == -0`.
pub open spec fn sign_symmetric<
    T,
    B: Fn(u32) -> T,
    P: Fn(T, T) -> T,
    M: Fn(T, T) -> T,
    N: Fn(T) -> T,
    L: Fn(T, T) -> bool,
>(
    from_bits: &B,
    plus: &P,
    times: &M,
    negate: &N,
    less: &L,
    opposite: spec_fn(T, T) -> bool,
) -> bool {
    &&& forall|a: T, na: T| #[trigger] negate.ensures((a,), na) ==> opposite(a, na)
    &&& forall|a: T, b: T, nb: T, r: T, nr: T|
        #![trigger times.ensures((a, b), r), times.ensures((a, nb), nr)]
        times.ensures((a, b), r) && opposite(b, nb) && times.ensures((a, nb), nr) ==> opposite(
            r,
            nr,
        )
    &&& forall|a: T, b: T, na: T, nb: T, r: T, nr: T|
        #![trigger plus.ensures((a, b), r), plus.ensures((na, nb), nr)]
        plus.ensures((a, b), r) && opposite(a, na) && opposite(b, nb) && plus.ensures(
            (na, nb),
            nr,
        ) ==> opposite(r, nr)
    &&& forall|c: T, nc: T, zero: T, negative: bool|
        #![trigger less.ensures((c, zero), true), less.ensures((nc, zero), negative)]
        from_bits.ensures((ZERO_BITS,), zero) && less.ensures((c, zero), true) && opposite(c, nc)
            && less.ensures((nc, zero), negative) ==> !negative
}

/// A direction that was turned to the side of a normal faces it: in a
/// deterministic arithmetic that treats signs evenly, the dot product of the
/// normal and the turned direction is never less than zero.
///
/// Here `cosine` is that dot product and `negative` the outcome of comparing
/// it with zero.
pub proof fn lemma_turned_direction_faces_the_normal<
    T,
    B: Fn(u32) -> T,
    P: Fn(T, T) -> T,
    M: Fn(T, T) -> T,
    N: Fn(T) -> T,
    L: Fn(T, T) -> bool,
>(
    from_bits: &B,
    plus: &P,
    times: &M,
    negate: &N,
    less: &L,
    opposite: spec_fn(T, T) -> bool,
    normal: Direction<T>,
    candidate: Direction<T>,
    d: Direction<T>,
    cosine: T,
    zero: T,
    negative: bool,
)
    requires
        deterministic_from_bits(from_bits),
        deterministic_binary(plus),
        deterministic_binary(times),
        deterministic_comparison(less),
        sign_symmetric(from_bits, plus, times, negate, less, opposite),
        is_turned_toward(from_bits, plus, times, negate, less, normal, candidate, d),
        is_dot(plus, times, normal, d, cosine),
        from_bits.ensures((ZERO_BITS,), zero),
        less.ensures((cosine, zero), negative),
    ensures
        !negative,
{
    let s = choose|s: TurnSteps<T>|
        turn_steps(from_bits, plus, times, negate, less, normal, candidate, s, d);
    let before = choose|t: DotSteps<T>| dot_steps(plus, times, normal, candidate, t, s.cosine);
    let after = choose|t: DotSteps<T>| dot_steps(plus, times, normal, d, t, cosine);
    assert(s.zero == zero);
    if s.away {
        assert(opposite(candidate.x, d.x));
        assert(opposite(candidate.y, d.y));
        assert(opposite(candidate.z, d.z));
        assert(opposite(before.xx, after.xx));
        assert(opposite(before.yy, after.yy));
        assert(opposite(before.zz, after.zz));
        assert(opposite(before.xx_yy, after.xx_yy));
        assert(opposite(s.cosine, cosine));
    } else {
        assert(before.xx == after.xx);
        assert(before.yy == after.yy);
        assert(before.zz == after.zz);
        assert(before.xx_yy == after.xx_yy);
        assert(s.cosine == cosine);
    }
}

} // verus!
