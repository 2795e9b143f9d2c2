use rand::rngs::StdRng;
use rand::SeedableRng;
use spherical_harmonics::direction::Direction;
use spherical_harmonics::integration::{integrate_real_space, integrate_real_space_hemisphere};
use std::cell::RefCell;
use std::f32::consts::PI;

fn from_bits(bits: u32) -> f32 {
    f32::from_bits(bits)
}

fn from_int(n: i64) -> f32 {
    n as f32
}

fn plus(a: f32, b: f32) -> f32 {
    a + b
}

fn times(a: f32, b: f32) -> f32 {
    a * b
}

fn over(a: f32, b: f32) -> f32 {
    a / b
}

fn root(a: f32) -> f32 {
    a.sqrt()
}

fn negate(a: f32) -> f32 {
    -a
}

fn less(a: f32, b: f32) -> bool {
    a < b
}

/// Repeats trials until a candidate is accepted.
fn on_sphere(rng: &mut StdRng) -> Direction<f32> {
    loop {
        if let Some(d) =
            Direction::generate_random_on_sphere(rng, &from_int, &plus, &times, &over, &root)
        {
            return d;
        }
    }
}

#[test]
fn sphere_integral_of_one_is_the_surface_area() {
    let rng = RefCell::new(StdRng::seed_from_u64(1));
    let sample = || on_sphere(&mut rng.borrow_mut());
    let func = |_x: f32, _y: f32, _z: f32| 1f32;
    let area =
        integrate_real_space(&func, &sample, 10000, &from_bits, &from_int, &plus, &times, &over);
    assert!((area - 4f32 * PI).abs() < 0.0001);
}

#[test]
fn sphere_integral_scales_the_sum_by_four_pi_over_count() {
    let at = RefCell::new(0f32);
    let sample = || {
        *at.borrow_mut() += 1f32;
        Direction { x: *at.borrow(), y: 0f32, z: 0f32 }
    };
    let func = |x: f32, _y: f32, _z: f32| x;
    // The values are 1, 2, 3, 4: the sum is 10.
    let result =
        integrate_real_space(&func, &sample, 4, &from_bits, &from_int, &plus, &times, &over);
    assert_eq!(result, 4f32 * PI * 10f32 / 4f32);
    assert_eq!(result, 31.415928f32);
}

#[test]
fn sphere_integral_of_a_quadratic() {
    // The integral of x * x over the sphere is 4 pi / 3.
    let rng = RefCell::new(StdRng::seed_from_u64(2));
    let sample = || on_sphere(&mut rng.borrow_mut());
    let func = |x: f32, _y: f32, _z: f32| x * x;
    let result =
        integrate_real_space(&func, &sample, 100000, &from_bits, &from_int, &plus, &times, &over);
    assert!((result - 4f32 * PI / 3f32).abs() < 0.05, "Result is {0}", result);
}

#[test]
fn sphere_integral_without_samples_is_not_a_number() {
    let sample = || Direction { x: 1f32, y: 0f32, z: 0f32 };
    let func = |x: f32, _y: f32, _z: f32| x;
    let result =
        integrate_real_space(&func, &sample, 0, &from_bits, &from_int, &plus, &times, &over);
    assert!(result.is_nan());
}

#[test]
fn hemisphere_integral_turns_every_candidate() {
    let normal = Direction { x: 0f32, y: 0f32, z: 1f32 };
    let flip = RefCell::new(1f32);
    // Candidates alternate between the two poles.
    let sample = || {
        *flip.borrow_mut() *= -1f32;
        Direction { x: 0f32, y: 0f32, z: *flip.borrow() }
    };
    let func = |_x: f32, _y: f32, z: f32| {
        assert!(z >= 0f32);
        z
    };
    let result = integrate_real_space_hemisphere(
        &normal, &func, &sample, 8, &from_bits, &from_int, &plus, &times, &over, &negate, &less,
    );
    assert_eq!(result, 4f32 * PI);
}

#[test]
fn hemisphere_estimate_is_twice_the_hemisphere_integral() {
    let rng = RefCell::new(StdRng::seed_from_u64(3));
    let sample = || on_sphere(&mut rng.borrow_mut());
    let normal = Direction { x: 0f32, y: 0f32, z: 1f32 };

    // The integral of the cosine over its hemisphere is pi.
    let func = |_x: f32, _y: f32, z: f32| z;
    let estimate = integrate_real_space_hemisphere(
        &normal, &func, &sample, 100000, &from_bits, &from_int, &plus, &times, &over, &negate,
        &less,
    );
    assert!((estimate - 2f32 * PI).abs() < 0.1, "Result is {0}", estimate);
}

#[test]
fn hemisphere_integrand_never_sees_the_far_side() {
    let rng = RefCell::new(StdRng::seed_from_u64(4));
    let sample = || on_sphere(&mut rng.borrow_mut());
    let normal = Direction { x: 0.6f32, y: 0f32, z: -0.8f32 };
    let func = |x: f32, y: f32, z: f32| {
        let cosine = 0.6f32 * x + 0f32 * y + -0.8f32 * z;
        assert!(cosine >= 0f32);
        cosine
    };
    let _ = integrate_real_space_hemisphere(
        &normal, &func, &sample, 20000, &from_bits, &from_int, &plus, &times, &over, &negate,
        &less,
    );
}
