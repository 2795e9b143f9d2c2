//! Real spherical harmonics of bands 0 to 2: nine coefficients that
//! approximate a scalar function on the sphere.
//!
//! Index 0 is the constant term of band 0, indices 1 to 3 are band 1 and
//! indices 4 to 8 are band 2.

use crate::direction::Direction;
use crate::scalar::{
    deterministic_binary, deterministic_from_bits, total_binary, total_from_bits, total_from_int, total_function, total_source, FOUR_BITS,
    ONE_BITS, PI_BITS, SIXTEEN_BITS, ZERO_BITS,
};
use vstd::prelude::*;

verus! {

/// The number of basis functions in bands 0, 1 and 2.
pub const COEFFICIENT_COUNT: usize = 9;

/// Bit pattern of 0.2820947917738781, the band 0 constant.
pub const BAND0_BITS: u32 = 0x3e90_6ebb;

/// Bit pattern of 0.4886025119029199, the factor of `z` in band 1.
pub const BAND1_Z_BITS: u32 = 0x3efa_2a1c;

/// Bit pattern of 0.9461746957575601, the factor of `z * z` in band 2.
pub const BAND2_ZZ_BITS: u32 = 0x3f72_3881;

/// Bit pattern of -0.3153915652525201, the offset beside `z * z` in band 2.
pub const BAND2_OFFSET_BITS: u32 = 0xbea1_7b01;

/// Bit pattern of -0.48860251190292, the factor of `x` and of `y` in band 1.
pub const BAND1_XY_BITS: u32 = 0xbefa_2a1c;

/// Bit pattern of -1.092548430592079, the factor of `z * x` and of `z * y`
/// in band 2.
pub const BAND2_Z_BITS: u32 = 0xbf8b_d8a1;

/// Bit pattern of 0.5462742152960395, the factor of `x * x - y * y` and of
/// `x * y + y * x` in band 2.
pub const BAND2_XY_BITS: u32 = 0x3f0b_d8a1;

/// The constants and intermediate values of one basis evaluation.
pub struct BasisSteps<T> {
    pub band0: T,
    pub band1_z: T,
    pub band2_zz: T,
    pub band2_offset: T,
    pub band1_xy: T,
    pub band2_z: T,
    pub band2_xy: T,
    pub zz: T,
    pub scaled_zz: T,
    pub scaled_z: T,
    pub xx: T,
    pub yy: T,
    pub xy: T,
    pub yx: T,
    pub cosine: T,
    pub sine: T,
}

/// Whether `out` holds the nine basis functions in direction `d`, computed
/// with the intermediate values `s`:
///
/// ```text
/// out[0] = band0
/// out[1] = band1_xy * y      out[2] = band1_z * z      out[3] = band1_xy * x
/// out[4] = band2_xy * (x * y + y * x)
/// out[5] = (band2_z * z) * y
/// out[6] = band2_zz * (z * z) + band2_offset
/// out[7] = (band2_z * z) * x
/// out[8] = band2_xy * (x * x - y * y)
/// ```
pub open spec fn basis_steps<
    T,
    B: Fn(u32) -> T,
    P: Fn(T, T) -> T,
    S: Fn(T, T) -> T,
    M: Fn(T, T) -> T,
>(
    from_bits: &B,
    plus: &P,
    minus: &S,
    times: &M,
    d: Direction<T>,
    s: BasisSteps<T>,
    out: Seq<T>,
) -> bool {
    &&& out.len() == 9
    &&& from_bits.ensures((BAND0_BITS,), s.band0)
    &&& from_bits.ensures((BAND1_Z_BITS,), s.band1_z)
    &&& from_bits.ensures((BAND2_ZZ_BITS,), s.band2_zz)
    &&& from_bits.ensures((BAND2_OFFSET_BITS,), s.band2_offset)
    &&& from_bits.ensures((BAND1_XY_BITS,), s.band1_xy)
    &&& from_bits.ensures((BAND2_Z_BITS,), s.band2_z)
    &&& from_bits.ensures((BAND2_XY_BITS,), s.band2_xy)
    &&& times.ensures((d.z, d.z), s.zz)
    &&& out[0] == s.band0
    &&& times.ensures((s.band1_z, d.z), out[2])
    &&& times.ensures((s.band2_zz, s.zz), s.scaled_zz)
    &&& plus.ensures((s.scaled_zz, s.band2_offset), out[6])
    &&& times.ensures((s.band1_xy, d.x), out[3])
    &&& times.ensures((s.band1_xy, d.y), out[1])
    &&& times.ensures((s.band2_z, d.z), s.scaled_z)
    &&& times.ensures((s.scaled_z, d.x), out[7])
    &&& times.ensures((s.scaled_z, d.y), out[5])
    &&& times.ensures((d.x, d.x), s.xx)
    &&& times.ensures((d.y, d.y), s.yy)
    &&& minus.ensures((s.xx, s.yy), s.cosine)
    &&& times.ensures((d.x, d.y), s.xy)
    &&& times.ensures((d.y, d.x), s.yx)
    &&& plus.ensures((s.xy, s.yx), s.sine)
    &&& times.ensures((s.band2_xy, s.cosine), out[8])
    &&& times.ensures((s.band2_xy, s.sine), out[4])
}

/// Whether `out` is the basis evaluated in direction `d`.
pub open spec fn is_basis<
    T,
    B: Fn(u32) -> T,
    P: Fn(T, T) -> T,
    S: Fn(T, T) -> T,
    M: Fn(T, T) -> T,
>(from_bits: &B, plus: &P, minus: &S, times: &M, d: Direction<T>, out: Seq<T>) -> bool {
    exists|s: BasisSteps<T>| basis_steps(from_bits, plus, minus, times, d, s, out)
}

/// The constants and intermediate values of one inner product:
/// `products[i] = a[i] * b[i]`, `sums[0] = 0`,
/// `sums[i + 1] = sums[i] + products[i]`, and the scale
/// `(16 * pi) * pi`.
pub struct ProductSteps<T> {
    pub products: Seq<T>,
    pub sums: Seq<T>,
    pub sixteen: T,
    pub pi: T,
    pub sixteen_pi: T,
    pub scale: T,
}

/// Whether `result` is `((16 * pi) * pi) * (a[0] * b[0] + ... + a[8] * b[8])`,
/// summed from index 0 upwards starting at zero, with the intermediate
/// values `s`.
pub open spec fn convolution_steps<T, B: Fn(u32) -> T, P: Fn(T, T) -> T, M: Fn(T, T) -> T>(
    from_bits: &B,
    plus: &P,
    times: &M,
    a: Seq<T>,
    b: Seq<T>,
    s: ProductSteps<T>,
    result: T,
) -> bool {
    &&& a.len() == 9
    &&& b.len() == 9
    &&& s.products.len() == 9
    &&& s.sums.len() == 10
    &&& from_bits.ensures((ZERO_BITS,), s.sums[0])
    &&& forall|i: int| 0 <= i < 9 ==> times.ensures((a[i], b[i]), #[trigger] s.products[i])
    &&& forall|i: int|
        0 <= i < 9 ==> plus.ensures((s.sums[i], #[trigger] s.products[i]), s.sums[i + 1])
    &&& from_bits.ensures((SIXTEEN_BITS,), s.sixteen)
    &&& from_bits.ensures((PI_BITS,), s.pi)
    &&& times.ensures((s.sixteen, s.pi), s.sixteen_pi)
    &&& times.ensures((s.sixteen_pi, s.pi), s.scale)
    &&& times.ensures((s.scale, s.sums[9]), result)
}

/// Whether `result` is the inner product of `a` and `b`, scaled by
/// `16 * pi * pi`.
pub open spec fn is_convolution<T, B: Fn(u32) -> T, P: Fn(T, T) -> T, M: Fn(T, T) -> T>(
    from_bits: &B,
    plus: &P,
    times: &M,
    a: Seq<T>,
    b: Seq<T>,
    result: T,
) -> bool {
    exists|s: ProductSteps<T>| convolution_steps(from_bits, plus, times, a, b, s, result)
}

/// Whether `result` is `convolution / (4 * pi)`.
pub open spec fn is_pointwise_value<T, B: Fn(u32) -> T, M: Fn(T, T) -> T, D: Fn(T, T) -> T>(
    from_bits: &B,
    times: &M,
    over: &D,
    convolution: T,
    result: T,
) -> bool {
    exists|four: T, pi: T, four_pi: T|
        {
            &&& from_bits.ensures((FOUR_BITS,), four)
            &&& from_bits.ensures((PI_BITS,), pi)
            &&& #[trigger] times.ensures((four, pi), four_pi)
            &&& over.ensures((convolution, four_pi), result)
        }
}

/// The intermediate values of adding one sample to a projection: the basis
/// in the direction of the sample, the value of the function there, and the
/// basis weighted by that value.
pub struct SampleSteps<T> {
    pub basis: Seq<T>,
    pub value: T,
    pub weighted: Seq<T>,
}

/// Whether `after` is `before` with one sample added: with `basis` the basis
/// in direction `d` and `value` the value of `func` there,
/// `weighted[i] = basis[i] * value` and `after[i] = before[i] + weighted[i]`.
pub open spec fn sample_steps<
    T,
    F: Fn(T, T, T) -> T,
    B: Fn(u32) -> T,
    P: Fn(T, T) -> T,
    S: Fn(T, T) -> T,
    M: Fn(T, T) -> T,
>(
    func: &F,
    from_bits: &B,
    plus: &P,
    minus: &S,
    times: &M,
    d: Direction<T>,
    s: SampleSteps<T>,
    before: Seq<T>,
    after: Seq<T>,
) -> bool {
    &&& is_basis(from_bits, plus, minus, times, d, s.basis)
    &&& func.ensures((d.x, d.y, d.z), s.value)
    &&& s.weighted.len() == 9
    &&& before.len() == 9
    &&& after.len() == 9
    &&& forall|i: int| 0 <= i < 9 ==> times.ensures((s.basis[i], s.value), #[trigger] s.weighted[i])
    &&& forall|i: int| 0 <= i < 9 ==> plus.ensures((before[i], s.weighted[i]), #[trigger] after[i])
}

/// The intermediate values of dividing a sum of samples by their number.
pub struct AverageSteps<T> {
    pub one: T,
    pub count: T,
    pub inverse: T,
}

/// Whether `after` is `before` times `1 / count`, coefficient by
/// coefficient.
pub open spec fn average_steps<
    T,
    B: Fn(u32) -> T,
    I: Fn(i64) -> T,
    M: Fn(T, T) -> T,
    D: Fn(T, T) -> T,
>(
    from_bits: &B,
    from_int: &I,
    times: &M,
    over: &D,
    count: u32,
    s: AverageSteps<T>,
    before: Seq<T>,
    after: Seq<T>,
) -> bool {
    &&& from_bits.ensures((ONE_BITS,), s.one)
    &&& from_int.ensures((count as i64,), s.count)
    &&& over.ensures((s.one, s.count), s.inverse)
    &&& before.len() == 9
    &&& after.len() == 9
    &&& forall|i: int| 0 <= i < 9 ==> times.ensures((before[i], s.inverse), #[trigger] after[i])
}

/// The course of a projection: the directions drawn, the intermediate
/// values of each sample, the sum after each sample (starting from zero),
/// and the intermediate values of the final division.
pub struct ProjectionSteps<T> {
    pub directions: Seq<Direction<T>>,
    pub samples: Seq<SampleSteps<T>>,
    pub sums: Seq<Seq<T>>,
    pub average: AverageSteps<T>,
}

/// Whether `result` is the projection of `func` from `count` samples: each
/// direction comes from `sample`, each sample is added to the running sum,
/// which starts at zero, and the last sum is divided by `count`.
pub open spec fn projection_steps<
    T,
    F: Fn(T, T, T) -> T,
    G: Fn() -> Direction<T>,
    B: Fn(u32) -> T,
    I: Fn(i64) -> T,
    P: Fn(T, T) -> T,
    S: Fn(T, T) -> T,
    M: Fn(T, T) -> T,
    D: Fn(T, T) -> T,
>(
    func: &F,
    sample: &G,
    from_bits: &B,
    from_int: &I,
    plus: &P,
    minus: &S,
    times: &M,
    over: &D,
    count: u32,
    s: ProjectionSteps<T>,
    result: Seq<T>,
) -> bool {
    &&& s.directions.len() == count
    &&& s.samples.len() == count
    &&& s.sums.len() == count + 1
    &&& s.sums[0].len() == 9
    &&& forall|i: int| 0 <= i < 9 ==> from_bits.ensures((ZERO_BITS,), #[trigger] s.sums[0][i])
    &&& forall|k: int| 0 <= k < count ==> sample.ensures((), #[trigger] s.directions[k])
    &&& forall|k: int|
        0 <= k < count ==> sample_steps(
            func,
            from_bits,
            plus,
            minus,
            times,
            s.directions[k],
            #[trigger] s.samples[k],
            s.sums[k],
            s.sums[k + 1],
        )
    &&& average_steps(
        from_bits,
        from_int,
        times,
        over,
        count,
        s.average,
        s.sums[count as int],
        result,
    )
}

/// Spherical harmonic coefficients of one scalar function on the sphere.
#[derive(Debug, Clone)]
pub struct SHFuncApproximation<T> {
    coefficients: [T; 9],
}

impl<T: Copy> View for SHFuncApproximation<T> {
    type V = Seq<T>;

    closed spec fn view(&self) -> Seq<T> {
        self.coefficients@
    }
}

impl<T: Copy> SHFuncApproximation<T> {
    /// The approximation of the function that is zero everywhere: nine
    /// copies of the scalar zero.
    pub fn new<B: Fn(u32) -> T>(from_bits: &B) -> (r: Self)
        requires
            total_from_bits(from_bits),
        ensures
            r@.len() == 9,
            from_bits.ensures((ZERO_BITS,), r@[0]),
            forall|i: int| 0 <= i < 9 ==> #[trigger] r@[i] == r@[0],
    {
        let zero: T = from_bits(ZERO_BITS);
        SHFuncApproximation { coefficients: [zero; 9] }
    }

    /// The nine coefficients, in basis order.
    pub fn coefficients(&self) -> (c: [T; 9])
        ensures
            c@ == self@,
    {
        self.coefficients
    }

    /// Multiplies every coefficient by `scalar`, in place: coefficient `i`
    /// becomes `old[i] * scalar`.
    pub fn mul_in_place<M: Fn(T, T) -> T>(&mut self, scalar: T, times: &M)
        requires
            total_binary(times),
        ensures
            final(self)@.len() == 9,
            forall|i: int|
                0 <= i < 9 ==> times.ensures((old(self)@[i], scalar), #[trigger] final(self)@[i]),
    {
        let ghost before = self@;
        let mut i: usize = 0;
        while i < 9
            invariant
                0 <= i <= 9,
                total_binary(times),
                self@.len() == 9,
                before.len() == 9,
                forall|j: int| 0 <= j < i ==> times.ensures((before[j], scalar), #[trigger] self@[j]),
                forall|j: int| i <= j < 9 ==> self@[j] == before[j],
            decreases 9 - i,
        {
            let v: T = times(self.coefficients[i], scalar);
            self.coefficients[i] = v;
            i += 1;
        }
    }

    /// Adds the coefficients of `other` to those of `self`, in place:
    /// coefficient `i` becomes `old[i] + other[i]`.
    pub fn add_in_place<P: Fn(T, T) -> T>(&mut self, other: &SHFuncApproximation<T>, plus: &P)
        requires
            total_binary(plus),
        ensures
            final(self)@.len() == 9,
            forall|i: int|
                0 <= i < 9 ==> plus.ensures(
                    (old(self)@[i], other@[i]),
                    #[trigger] final(self)@[i],
                ),
    {
        let ghost before = self@;
        let mut i: usize = 0;
        while i < 9
            invariant
                0 <= i <= 9,
                total_binary(plus),
                self@.len() == 9,
                other@.len() == 9,
                before.len() == 9,
                forall|j: int|
                    0 <= j < i ==> plus.ensures((before[j], other@[j]), #[trigger] self@[j]),
                forall|j: int| i <= j < 9 ==> self@[j] == before[j],
            decreases 9 - i,
        {
            let v: T = plus(self.coefficients[i], other.coefficients[i]);
            self.coefficients[i] = v;
            i += 1;
        }
    }

    /// The integral over the sphere of the product of the two approximated
    /// functions: the sum of the nine index-wise products, times
    /// `16 * pi * pi`.
    ///
    /// Coefficients are normalised so that the constant function 1 has
    /// squared length `1 / (4 * pi)` in coefficient space, while its integral
    /// over the sphere is `4 * pi`; the factor converts between the two.
    pub fn convolution<B: Fn(u32) -> T, P: Fn(T, T) -> T, M: Fn(T, T) -> T>(
        &self,
        other: &SHFuncApproximation<T>,
        from_bits: &B,
        plus: &P,
        times: &M,
    ) -> (result: T)
        requires
            total_from_bits(from_bits),
            total_binary(plus),
            total_binary(times),
        ensures
            is_convolution(from_bits, plus, times, self@, other@, result),
    {
        let mut sum: T = from_bits(ZERO_BITS);
        let ghost mut products: Seq<T> = Seq::empty();
        let ghost mut sums: Seq<T> = seq![sum];
        let mut i: usize = 0;
        while i < 9
            invariant
                0 <= i <= 9,
                total_binary(plus),
                total_binary(times),
                self@.len() == 9,
                other@.len() == 9,
                products.len() == i,
                sums.len() == i + 1,
                sums[i as int] == sum,
                from_bits.ensures((ZERO_BITS,), sums[0]),
                forall|j: int|
                    0 <= j < i ==> times.ensures((self@[j], other@[j]), #[trigger] products[j]),
                forall|j: int|
                    0 <= j < i ==> plus.ensures((sums[j], #[trigger] products[j]), sums[j + 1]),
            decreases 9 - i,
        {
            let product: T = times(self.coefficients[i], other.coefficients[i]);
            let next: T = plus(sum, product);
            proof {
                products = products.push(product);
                sums = sums.push(next);
            }
            sum = next;
            i += 1;
        }
        let sixteen: T = from_bits(SIXTEEN_BITS);
        let pi: T = from_bits(PI_BITS);
        let sixteen_pi: T = times(sixteen, pi);
        let scale: T = times(sixteen_pi, pi);
        let result: T = times(scale, sum);
        proof {
            let s = ProductSteps { products, sums, sixteen, pi, sixteen_pi, scale };
            assert(convolution_steps(from_bits, plus, times, self@, other@, s, result));
        }
        result
    }

    /// Overwrites `self` with the nine basis functions evaluated in
    /// `direction`.
    ///
    /// The polynomial form follows Sloan, "Efficient Spherical Harmonic
    /// Evaluation", JCGT 2013.
    pub fn from_direction<B: Fn(u32) -> T, P: Fn(T, T) -> T, S: Fn(T, T) -> T, M: Fn(T, T) -> T>(
        &mut self,
        direction: Direction<T>,
        from_bits: &B,
        plus: &P,
        minus: &S,
        times: &M,
    )
        requires
            total_from_bits(from_bits),
            total_binary(plus),
            total_binary(minus),
            total_binary(times),
        ensures
            is_basis(from_bits, plus, minus, times, direction, final(self)@),
    {
        let x: T = direction.x;
        let y: T = direction.y;
        let z: T = direction.z;

        let zz: T = times(z, z);
        let band0: T = from_bits(BAND0_BITS);
        self.coefficients[0] = band0;
        let band1_z: T = from_bits(BAND1_Z_BITS);
        let c2: T = times(band1_z, z);
        self.coefficients[2] = c2;
        let band2_zz: T = from_bits(BAND2_ZZ_BITS);
        let band2_offset: T = from_bits(BAND2_OFFSET_BITS);
        let scaled_zz: T = times(band2_zz, zz);
        let c6: T = plus(scaled_zz, band2_offset);
        self.coefficients[6] = c6;
        let band1_xy: T = from_bits(BAND1_XY_BITS);
        let c3: T = times(band1_xy, x);
        self.coefficients[3] = c3;
        let c1: T = times(band1_xy, y);
        self.coefficients[1] = c1;
        let band2_z: T = from_bits(BAND2_Z_BITS);
        let scaled_z: T = times(band2_z, z);
        let c7: T = times(scaled_z, x);
        self.coefficients[7] = c7;
        let c5: T = times(scaled_z, y);
        self.coefficients[5] = c5;
        let xx: T = times(x, x);
        let yy: T = times(y, y);
        let cosine: T = minus(xx, yy);
        let xy: T = times(x, y);
        let yx: T = times(y, x);
        let sine: T = plus(xy, yx);
        let band2_xy: T = from_bits(BAND2_XY_BITS);
        let c8: T = times(band2_xy, cosine);
        self.coefficients[8] = c8;
        let c4: T = times(band2_xy, sine);
        self.coefficients[4] = c4;
        proof {
            let s = BasisSteps {
                band0,
                band1_z,
                band2_zz,
                band2_offset,
                band1_xy,
                band2_z,
                band2_xy,
                zz,
                scaled_zz,
                scaled_z,
                xx,
                yy,
                xy,
                yx,
                cosine,
                sine,
            };
            assert(basis_steps(from_bits, plus, minus, times, direction, s, self@));
        }
    }

    /// Evaluates the approximated function in a direction: the convolution
    /// of `self` with the basis in that direction, divided by `4 * pi`.
    ///
    /// `workspace` is overwritten with the basis in that direction; it is
    /// passed in so that repeated evaluations allocate nothing.
    pub fn eval<
        B: Fn(u32) -> T,
        P: Fn(T, T) -> T,
        S: Fn(T, T) -> T,
        M: Fn(T, T) -> T,
        D: Fn(T, T) -> T,
    >(
        &self,
        direction: Direction<T>,
        workspace: &mut SHFuncApproximation<T>,
        from_bits: &B,
        plus: &P,
        minus: &S,
        times: &M,
        over: &D,
    ) -> (result: T)
        requires
            total_from_bits(from_bits),
            total_binary(plus),
            total_binary(minus),
            total_binary(times),
            total_binary(over),
        ensures
            is_basis(from_bits, plus, minus, times, direction, final(workspace)@),
            exists|convolution: T|
                #![trigger is_convolution(from_bits, plus, times, self@, final(workspace)@, convolution)]
                {
                    &&& is_convolution(
                        from_bits,
                        plus,
                        times,
                        self@,
                        final(workspace)@,
                        convolution,
                    )
                    &&& is_pointwise_value(from_bits, times, over, convolution, result)
                },
    {
        workspace.from_direction(direction, from_bits, plus, minus, times);
        let convolution: T = self.convolution(workspace, from_bits, plus, times);
        let four: T = from_bits(FOUR_BITS);
        let pi: T = from_bits(PI_BITS);
        let four_pi: T = times(four, pi);
        let result: T = over(convolution, four_pi);
        assert(is_pointwise_value(from_bits, times, over, convolution, result));
        result
    }
    /// Adds one sample to a projection in progress: the basis in
    /// `direction`, weighted by the value of `func` there, is added to
    /// `self`.
    ///
    /// `temporary` is overwritten with the weighted basis; it is passed in
    /// so that repeated samples allocate nothing.
    pub fn add_sample<
        F: Fn(T, T, T) -> T,
        B: Fn(u32) -> T,
        P: Fn(T, T) -> T,
        S: Fn(T, T) -> T,
        M: Fn(T, T) -> T,
    >(
        &mut self,
        temporary: &mut SHFuncApproximation<T>,
        direction: Direction<T>,
        func: &F,
        from_bits: &B,
        plus: &P,
        minus: &S,
        times: &M,
    )
        requires
            total_function(func),
            total_from_bits(from_bits),
            total_binary(plus),
            total_binary(minus),
            total_binary(times),
        ensures
            exists|s: SampleSteps<T>|
                s.weighted == final(temporary)@ && #[trigger] sample_steps(
                    func,
                    from_bits,
                    plus,
                    minus,
                    times,
                    direction,
                    s,
                    old(self)@,
                    final(self)@,
                ),
    {
        let x: T = direction.x;
        let y: T = direction.y;
        let z: T = direction.z;
        let ghost before = self@;
        let ghost d = direction;

        temporary.from_direction(direction, from_bits, plus, minus, times);
        let ghost basis = temporary@;

        let value: T = func(x, y, z);
        temporary.mul_in_place(value, times);

        self.add_in_place(temporary, plus);
        proof {
            let s = SampleSteps { basis, value, weighted: temporary@ };
            assert(sample_steps(func, from_bits, plus, minus, times, d, s, before, self@));
        }
    }

    /// Divides every coefficient by the number of samples: coefficient `i`
    /// becomes `old[i] * (1 / count)`.
    pub fn average_in_place<B: Fn(u32) -> T, I: Fn(i64) -> T, M: Fn(T, T) -> T, D: Fn(T, T) -> T>(
        &mut self,
        count: u32,
        from_bits: &B,
        from_int: &I,
        times: &M,
        over: &D,
    )
        requires
            total_from_bits(from_bits),
            total_from_int(from_int),
            total_binary(times),
            total_binary(over),
        ensures
            exists|s: AverageSteps<T>|
                average_steps(
                    from_bits,
                    from_int,
                    times,
                    over,
                    count,
                    s,
                    old(self)@,
                    final(self)@,
                ),
    {
        let ghost before = self@;
        let one: T = from_bits(ONE_BITS);
        let n: T = from_int(count as i64);
        let inverse: T = over(one, n);
        self.mul_in_place(inverse, times);
        assert(average_steps(
            from_bits,
            from_int,
            times,
            over,
            count,
            AverageSteps { one, count: n, inverse },
            before,
            self@,
        ));
    }

    /// Projects `func` onto the basis with `count` directions drawn from
    /// `sample`.
    ///
    /// Each sample adds the basis in its direction, weighted by the value of
    /// `func` there; the sum is divided by `count`. With directions that are
    /// uniform on the sphere the variance of the estimate falls as
    /// `1 / count`. With `count == 0` the coefficients are whatever the
    /// product of zero and `1 / 0` gives.
    pub fn from_function<
        F: Fn(T, T, T) -> T,
        G: Fn() -> Direction<T>,
        B: Fn(u32) -> T,
        I: Fn(i64) -> T,
        P: Fn(T, T) -> T,
        S: Fn(T, T) -> T,
        M: Fn(T, T) -> T,
        D: Fn(T, T) -> T,
    >(
        func: &F,
        sample: &G,
        count: u32,
        from_bits: &B,
        from_int: &I,
        plus: &P,
        minus: &S,
        times: &M,
        over: &D,
    ) -> (approximation: SHFuncApproximation<T>)
        requires
            total_function(func),
            total_source(sample),
            total_from_bits(from_bits),
            total_from_int(from_int),
            total_binary(plus),
            total_binary(minus),
            total_binary(times),
            total_binary(over),
        ensures
            exists|s: ProjectionSteps<T>|
                projection_steps(
                    func,
                    sample,
                    from_bits,
                    from_int,
                    plus,
                    minus,
                    times,
                    over,
                    count,
                    s,
                    approximation@,
                ),
    {
        let mut approximation: SHFuncApproximation<T> = SHFuncApproximation::new(from_bits);
        let mut temporary: SHFuncApproximation<T> = SHFuncApproximation::new(from_bits);
        let ghost mut directions: Seq<Direction<T>> = Seq::empty();
        let ghost mut samples: Seq<SampleSteps<T>> = Seq::empty();
        let ghost mut sums: Seq<Seq<T>> = seq![approximation@];

        let mut k: u32 = 0;
        while k < count
            invariant
                0 <= k <= count,
                total_function(func),
                total_source(sample),
                total_from_bits(from_bits),
                total_binary(plus),
                total_binary(minus),
                total_binary(times),
                directions.len() == k,
                samples.len() == k,
                sums.len() == k + 1,
                sums[k as int] == approximation@,
                sums[0].len() == 9,
                forall|i: int| 0 <= i < 9 ==> from_bits.ensures((ZERO_BITS,), #[trigger] sums[0][i]),
                forall|j: int| 0 <= j < k ==> sample.ensures((), #[trigger] directions[j]),
                forall|j: int|
                    0 <= j < k ==> sample_steps(
                        func,
                        from_bits,
                        plus,
                        minus,
                        times,
                        directions[j],
                        #[trigger] samples[j],
                        sums[j],
                        sums[j + 1],
                    ),
            decreases count - k,
        {
            let direction: Direction<T> = sample();
            let ghost d = direction;
            let ghost before = approximation@;
            approximation.add_sample(
                &mut temporary,
                direction,
                func,
                from_bits,
                plus,
                minus,
                times,
            );
            proof {
                let s = choose|s: SampleSteps<T>|
                    sample_steps(
                        func,
                        from_bits,
                        plus,
                        minus,
                        times,
                        d,
                        s,
                        before,
                        approximation@,
                    );
                directions = directions.push(d);
                samples = samples.push(s);
                sums = sums.push(approximation@);
            }
            k += 1;
        }

        let ghost last = approximation@;
        approximation.average_in_place(count, from_bits, from_int, times, over);
        proof {
            let average = choose|a: AverageSteps<T>|
                average_steps(from_bits, from_int, times, over, count, a, last, approximation@);
            let s = ProjectionSteps { directions, samples, sums, average };
            assert(projection_steps(
                func,
                sample,
                from_bits,
                from_int,
                plus,
                minus,
                times,
                over,
                count,
                s,
                approximation@,
            ));
        }
        approximation
    }
}

/// With deterministic arithmetic a direction has one basis: two evaluations
/// in the same direction agree in every coefficient.
pub proof fn lemma_basis_is_deterministic<
    T,
    B: Fn(u32) -> T,
    P: Fn(T, T) -> T,
    S: Fn(T, T) -> T,
    M: Fn(T, T) -> T,
>(
    from_bits: &B,
    plus: &P,
    minus: &S,
    times: &M,
    d: Direction<T>,
    first: Seq<T>,
    second: Seq<T>,
)
    requires
        deterministic_from_bits(from_bits),
        deterministic_binary(plus),
        deterministic_binary(minus),
        deterministic_binary(times),
        is_basis(from_bits, plus, minus, times, d, first),
        is_basis(from_bits, plus, minus, times, d, second),
    ensures
        first == second,
{
    let s1 = choose|s: BasisSteps<T>| basis_steps(from_bits, plus, minus, times, d, s, first);
    let s2 = choose|s: BasisSteps<T>| basis_steps(from_bits, plus, minus, times, d, s, second);
    assert(s1.band0 == s2.band0);
    assert(s1.band1_z == s2.band1_z);
    assert(s1.band2_zz == s2.band2_zz);
    assert(s1.band2_offset == s2.band2_offset);
    assert(s1.band1_xy == s2.band1_xy);
    assert(s1.band2_z == s2.band2_z);
    assert(s1.band2_xy == s2.band2_xy);
    assert(s1.zz == s2.zz);
    assert(s1.scaled_zz == s2.scaled_zz);
    assert(s1.scaled_z == s2.scaled_z);
    assert(s1.xx == s2.xx);
    assert(s1.yy == s2.yy);
    assert(s1.xy == s2.xy);
    assert(s1.yx == s2.yx);
    assert(s1.cosine == s2.cosine);
    assert(s1.sine == s2.sine);
    assert(first =~= second);
}

/// With deterministic arithmetic two coefficient vectors have one inner
/// product.
pub proof fn lemma_convolution_is_deterministic<
    T,
    B: Fn(u32) -> T,
    P: Fn(T, T) -> T,
    M: Fn(T, T) -> T,
>(from_bits: &B, plus: &P, times: &M, a: Seq<T>, b: Seq<T>, first: T, second: T)
    requires
        deterministic_from_bits(from_bits),
        deterministic_binary(plus),
        deterministic_binary(times),
        is_convolution(from_bits, plus, times, a, b, first),
        is_convolution(from_bits, plus, times, a, b, second),
    ensures
        first == second,
{
    let s1 = choose|s: ProductSteps<T>| convolution_steps(from_bits, plus, times, a, b, s, first);
    let s2 = choose|s: ProductSteps<T>| convolution_steps(from_bits, plus, times, a, b, s, second);
    assert(s1.sums[0] == s2.sums[0]);
    assert(s1.products[0] == s2.products[0] && s1.sums[1] == s2.sums[1]);
    assert(s1.products[1] == s2.products[1] && s1.sums[2] == s2.sums[2]);
    assert(s1.products[2] == s2.products[2] && s1.sums[3] == s2.sums[3]);
    assert(s1.products[3] == s2.products[3] && s1.sums[4] == s2.sums[4]);
    assert(s1.products[4] == s2.products[4] && s1.sums[5] == s2.sums[5]);
    assert(s1.products[5] == s2.products[5] && s1.sums[6] == s2.sums[6]);
    assert(s1.products[6] == s2.products[6] && s1.sums[7] == s2.sums[7]);
    assert(s1.products[7] == s2.products[7] && s1.sums[8] == s2.sums[8]);
    assert(s1.products[8] == s2.products[8] && s1.sums[9] == s2.sums[9]);
    assert(s1.sixteen == s2.sixteen);
    assert(s1.pi == s2.pi);
    assert(s1.sixteen_pi == s2.sixteen_pi);
    assert(s1.scale == s2.scale);
}

/// Evaluating the basis in a direction and taking its inner product with
/// itself involves no chance: with deterministic arithmetic the same
/// direction always gives the same basis and the same product.
pub proof fn lemma_round_trip_is_deterministic<
    T,
    B: Fn(u32) -> T,
    P: Fn(T, T) -> T,
    S: Fn(T, T) -> T,
    M: Fn(T, T) -> T,
>(
    from_bits: &B,
    plus: &P,
    minus: &S,
    times: &M,
    d: Direction<T>,
    first_basis: Seq<T>,
    first: T,
    second_basis: Seq<T>,
    second: T,
)
    requires
        deterministic_from_bits(from_bits),
        deterministic_binary(plus),
        deterministic_binary(minus),
        deterministic_binary(times),
        is_basis(from_bits, plus, minus, times, d, first_basis),
        is_convolution(from_bits, plus, times, first_basis, first_basis, first),
        is_basis(from_bits, plus, minus, times, d, second_basis),
        is_convolution(from_bits, plus, times, second_basis, second_basis, second),
    ensures
        first_basis == second_basis,
        first == second,
{
    lemma_basis_is_deterministic(from_bits, plus, minus, times, d, first_basis, second_basis);
    lemma_convolution_is_deterministic(
        from_bits,
        plus,
        times,
        first_basis,
        first_basis,
        first,
        second,
    );
}

} // verus!
