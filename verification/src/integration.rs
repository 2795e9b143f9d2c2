//! Monte Carlo integration of scalar functions over the sphere.

use crate::direction::{is_turned_toward, Direction};
use crate::scalar::{
    total_binary, total_comparison, total_from_bits, total_from_int, total_function,
    total_source, total_unary, FOUR_BITS, PI_BITS, ZERO_BITS,
};
use vstd::prelude::*;

verus! {

/// The course of an integration: the directions at which the function was
/// sampled, its value at each, the sum after each value (starting from
/// zero), and the constants and intermediate values of the final scaling.
pub struct EstimateSteps<T> {
    pub directions: Seq<Direction<T>>,
    pub values: Seq<T>,
    pub sums: Seq<T>,
    pub four: T,
    pub pi: T,
    pub four_pi: T,
    pub scaled: T,
    pub count: T,
}

/// Whether `result` is `((4 * pi) * sum) / count`, where `sum` adds up the
/// values of `func` at `count` directions, from the first to the last,
/// starting at zero.
pub open spec fn estimate_steps<
    T,
    F: Fn(T, T, T) -> T,
    B: Fn(u32) -> T,
    I: Fn(i64) -> T,
    P: Fn(T, T) -> T,
    M: Fn(T, T) -> T,
    D: Fn(T, T) -> T,
>(
    func: &F,
    from_bits: &B,
    from_int: &I,
    plus: &P,
    times: &M,
    over: &D,
    count: u32,
    s: EstimateSteps<T>,
    result: T,
) -> bool {
    &&& s.directions.len() == count
    &&& s.values.len() == count
    &&& s.sums.len() == count + 1
    &&& from_bits.ensures((ZERO_BITS,), s.sums[0])
    &&& forall|k: int|
        0 <= k < count ==> func.ensures(
            (s.directions[k].x, s.directions[k].y, s.directions[k].z),
            #[trigger] s.values[k],
        )
    &&& forall|k: int|
        0 <= k < count ==> plus.ensures((s.sums[k], s.values[k]), #[trigger] s.sums[k + 1])
    &&& from_bits.ensures((FOUR_BITS,), s.four)
    &&& from_bits.ensures((PI_BITS,), s.pi)
    &&& times.ensures((s.four, s.pi), s.four_pi)
    &&& times.ensures((s.four_pi, s.sums[count as int]), s.scaled)
    &&& from_int.ensures((count as i64,), s.count)
    &&& over.ensures((s.scaled, s.count), result)
}

/// Whether `result` is the estimate `4 * pi * sum / count` over `count`
/// directions that all come from `sample`.
pub open spec fn sphere_estimate_steps<
    T,
    F: Fn(T, T, T) -> T,
    G: Fn() -> Direction<T>,
    B: Fn(u32) -> T,
    I: Fn(i64) -> T,
    P: Fn(T, T) -> T,
    M: Fn(T, T) -> T,
    D: Fn(T, T) -> T,
>(
    func: &F,
    sample: &G,
    from_bits: &B,
    from_int: &I,
    plus: &P,
    times: &M,
    over: &D,
    count: u32,
    s: EstimateSteps<T>,
    result: T,
) -> bool {
    &&& estimate_steps(func, from_bits, from_int, plus, times, over, count, s, result)
    &&& forall|k: int| 0 <= k < count ==> sample.ensures((), #[trigger] s.directions[k])
}

/// The course of an integration over a hemisphere: the candidates drawn,
/// and the integration over the directions that they were turned into.
pub struct HemisphereSteps<T> {
    pub candidates: Seq<Direction<T>>,
    pub estimate: EstimateSteps<T>,
}

/// Whether `result` is the estimate `4 * pi * sum / count` over `count`
/// directions, each of them a candidate from `sample` turned to the side of
/// `normal`.
pub open spec fn hemisphere_estimate_steps<
    T,
    F: Fn(T, T, T) -> T,
    G: Fn() -> Direction<T>,
    B: Fn(u32) -> T,
    I: Fn(i64) -> T,
    P: Fn(T, T) -> T,
    M: Fn(T, T) -> T,
    D: Fn(T, T) -> T,
    N: Fn(T) -> T,
    L: Fn(T, T) -> bool,
>(
    normal: Direction<T>,
    func: &F,
    sample: &G,
    from_bits: &B,
    from_int: &I,
    plus: &P,
    times: &M,
    over: &D,
    negate: &N,
    less: &L,
    count: u32,
    s: HemisphereSteps<T>,
    result: T,
) -> bool {
    &&& estimate_steps(func, from_bits, from_int, plus, times, over, count, s.estimate, result)
    &&& s.candidates.len() == count
    &&& forall|k: int| 0 <= k < count ==> sample.ensures((), #[trigger] s.candidates[k])
    &&& forall|k: int|
        0 <= k < count ==> is_turned_toward(
            from_bits,
            plus,
            times,
            negate,
            less,
            normal,
            s.candidates[k],
            #[trigger] s.estimate.directions[k],
        )
}

/// Estimates the integral of `func` over the whole sphere from `count`
/// directions drawn from `sample`: `4 * pi` times the mean of the sampled
/// values.
///
/// With `count == 0` the result is whatever the division of zero by zero
/// gives.
pub fn integrate_real_space<
    T: Copy,
    F: Fn(T, T, T) -> T,
    G: Fn() -> Direction<T>,
    B: Fn(u32) -> T,
    I: Fn(i64) -> T,
    P: Fn(T, T) -> T,
    M: Fn(T, T) -> T,
    D: Fn(T, T) -> T,
>(
    func: &F,
    sample: &G,
    count: u32,
    from_bits: &B,
    from_int: &I,
    plus: &P,
    times: &M,
    over: &D,
) -> (result: T)
    requires
        total_function(func),
        total_source(sample),
        total_from_bits(from_bits),
        total_from_int(from_int),
        total_binary(plus),
        total_binary(times),
        total_binary(over),
    ensures
        exists|s: EstimateSteps<T>|
            sphere_estimate_steps(
                func,
                sample,
                from_bits,
                from_int,
                plus,
                times,
                over,
                count,
                s,
                result,
            ),
{
    let mut sum: T = from_bits(ZERO_BITS);
    let ghost mut directions: Seq<Direction<T>> = Seq::empty();
    let ghost mut values: Seq<T> = Seq::empty();
    let ghost mut sums: Seq<T> = seq![sum];

    let mut k: u32 = 0;
    while k < count
        invariant
            0 <= k <= count,
            total_function(func),
            total_source(sample),
            total_binary(plus),
            directions.len() == k,
            values.len() == k,
            sums.len() == k + 1,
            sums[k as int] == sum,
            from_bits.ensures((ZERO_BITS,), sums[0]),
            forall|j: int| 0 <= j < k ==> sample.ensures((), #[trigger] directions[j]),
            forall|j: int|
                0 <= j < k ==> func.ensures(
                    (directions[j].x, directions[j].y, directions[j].z),
                    #[trigger] values[j],
                ),
            forall|j: int| 0 <= j < k ==> plus.ensures((sums[j], values[j]), #[trigger] sums[j + 1]),
        decreases count - k,
    {
        let direction: Direction<T> = sample();
        let value: T = func(direction.x, direction.y, direction.z);
        let next: T = plus(sum, value);
        proof {
            directions = directions.push(direction);
            values = values.push(value);
            sums = sums.push(next);
        }
        sum = next;
        k += 1;
    }

    let four: T = from_bits(FOUR_BITS);
    let pi: T = from_bits(PI_BITS);
    let four_pi: T = times(four, pi);
    let scaled: T = times(four_pi, sum);
    let n: T = from_int(count as i64);
    let result: T = over(scaled, n);
    proof {
        let s = EstimateSteps { directions, values, sums, four, pi, four_pi, scaled, count: n };
        assert(sphere_estimate_steps(
            func,
            sample,
            from_bits,
            from_int,
            plus,
            times,
            over,
            count,
            s,
            result,
        ));
    }
    result
}

/// Sums `func` over `count` directions on the hemisphere around `normal`,
/// and scales the sum by `4 * pi / count`.
///
/// Each direction is drawn from `sample` and turned to the side of `normal`.
/// The hemisphere has solid angle `2 * pi`, so with samples that are uniform
/// on the sphere the result estimates twice the integral of `func` over the
/// hemisphere. Equivalently, it estimates the integral over the whole sphere
/// of the function that agrees with `func` on the hemisphere and takes the
/// mirrored value on the opposite side. The factor is that of
/// [`integrate_real_space`], so that both estimators share one
/// normalisation; callers that want the plain hemisphere integral halve the
/// result.
///
/// With `count == 0` the result is whatever the division of zero by zero
/// gives.
pub fn integrate_real_space_hemisphere<
    T: Copy,
    F: Fn(T, T, T) -> T,
    G: Fn() -> Direction<T>,
    B: Fn(u32) -> T,
    I: Fn(i64) -> T,
    P: Fn(T, T) -> T,
    M: Fn(T, T) -> T,
    D: Fn(T, T) -> T,
    N: Fn(T) -> T,
    L: Fn(T, T) -> bool,
>(
    normal: &Direction<T>,
    func: &F,
    sample: &G,
    count: u32,
    from_bits: &B,
    from_int: &I,
    plus: &P,
    times: &M,
    over: &D,
    negate: &N,
    less: &L,
) -> (result: T)
    requires
        total_function(func),
        total_source(sample),
        total_from_bits(from_bits),
        total_from_int(from_int),
        total_binary(plus),
        total_binary(times),
        total_binary(over),
        total_unary(negate),
        total_comparison(less),
    ensures
        exists|s: HemisphereSteps<T>|
            hemisphere_estimate_steps(
                *normal,
                func,
                sample,
                from_bits,
                from_int,
                plus,
                times,
                over,
                negate,
                less,
                count,
                s,
                result,
            ),
{
    let mut sum: T = from_bits(ZERO_BITS);
    let ghost mut candidates: Seq<Direction<T>> = Seq::empty();
    let ghost mut directions: Seq<Direction<T>> = Seq::empty();
    let ghost mut values: Seq<T> = Seq::empty();
    let ghost mut sums: Seq<T> = seq![sum];

    let mut k: u32 = 0;
    while k < count
        invariant
            0 <= k <= count,
            total_function(func),
            total_source(sample),
            total_from_bits(from_bits),
            total_binary(plus),
            total_binary(times),
            total_unary(negate),
            total_comparison(less),
            candidates.len() == k,
            directions.len() == k,
            values.len() == k,
            sums.len() == k + 1,
            sums[k as int] == sum,
            from_bits.ensures((ZERO_BITS,), sums[0]),
            forall|j: int| 0 <= j < k ==> sample.ensures((), #[trigger] candidates[j]),
            forall|j: int|
                0 <= j < k ==> is_turned_toward(
                    from_bits,
                    plus,
                    times,
                    negate,
                    less,
                    *normal,
                    candidates[j],
                    #[trigger] directions[j],
                ),
            forall|j: int|
                0 <= j < k ==> func.ensures(
                    (directions[j].x, directions[j].y, directions[j].z),
                    #[trigger] values[j],
                ),
            forall|j: int| 0 <= j < k ==> plus.ensures((sums[j], values[j]), #[trigger] sums[j + 1]),
        decreases count - k,
    {
        let candidate: Direction<T> = sample();
        let ghost c = candidate;
        let direction: Direction<T> = Direction::turned_toward(
            normal,
            candidate,
            from_bits,
            plus,
            times,
            negate,
            less,
        );
        let value: T = func(direction.x, direction.y, direction.z);
        let next: T = plus(sum, value);
        proof {
            candidates = candidates.push(c);
            directions = directions.push(direction);
            values = values.push(value);
            sums = sums.push(next);
        }
        sum = next;
        k += 1;
    }

    let four: T = from_bits(FOUR_BITS);
    let pi: T = from_bits(PI_BITS);
    let four_pi: T = times(four, pi);
    let scaled: T = times(four_pi, sum);
    let n: T = from_int(count as i64);
    let result: T = over(scaled, n);
    proof {
        let estimate =
            EstimateSteps { directions, values, sums, four, pi, four_pi, scaled, count: n };
        let s = HemisphereSteps { candidates, estimate };
        assert(hemisphere_estimate_steps(
            *normal,
            func,
            sample,
            from_bits,
            from_int,
            plus,
            times,
            over,
            negate,
            less,
            count,
            s,
            result,
        ));
    }
    result
}

} // verus!
