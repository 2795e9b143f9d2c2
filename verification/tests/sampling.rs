use rand::rngs::StdRng;
use rand::{Rng, RngCore, SeedableRng};
use spherical_harmonics::lattice::{CubePoint, ONE, ONE_SQUARED};
use spherical_harmonics::sampling::{accept, generate_random_in_ball, generate_random_in_cube};

#[test]
fn accept_keeps_a_point_in_the_ball() {
    let p = CubePoint::new(3, -4, 12).unwrap();
    assert_eq!(accept(p), Some(p));
    let origin = CubePoint::new(0, 0, 0).unwrap();
    assert_eq!(accept(origin), Some(origin));
    let pole = CubePoint::new(0, 0, -ONE).unwrap();
    assert_eq!(accept(pole), Some(pole));
}

#[test]
fn accept_rejects_a_point_outside_the_ball() {
    assert_eq!(accept(CubePoint::new(-ONE, 1, 0).unwrap()), None);
    assert_eq!(accept(CubePoint::new(ONE - 1, ONE - 1, ONE - 1).unwrap()), None);
    assert_eq!(accept(CubePoint::new(6_000_000, 5_900_000, 0).unwrap()), None);
}

#[test]
fn cube_candidate_takes_three_words_in_axis_order() {
    let mut words = StdRng::seed_from_u64(42);
    let mut rng = StdRng::seed_from_u64(42);
    for _ in 0..100 {
        let wx = words.next_u32();
        let wy = words.next_u32();
        let wz = words.next_u32();
        let p = generate_random_in_cube(&mut rng);
        assert_eq!(p, CubePoint::from_words(wx, wy, wz));
    }
    // Both generators have moved on by the same number of words.
    assert_eq!(rng, words);
}

#[test]
fn ball_trial_follows_the_generator() {
    let mut words = StdRng::seed_from_u64(43);
    let mut rng = StdRng::seed_from_u64(43);
    let mut accepted = 0;
    let mut rejected = 0;
    for _ in 0..1000 {
        let wx = words.next_u32();
        let wy = words.next_u32();
        let wz = words.next_u32();
        let candidate = CubePoint::from_words(wx, wy, wz);
        let trial = generate_random_in_ball(&mut rng);
        if candidate.norm_squared() <= ONE_SQUARED {
            accepted += 1;
            assert_eq!(trial, Some(candidate));
        } else {
            rejected += 1;
            assert_eq!(trial, None);
        }
    }
    assert!(accepted > 0 && rejected > 0);
    assert_eq!(rng, words);
}

#[test]
fn ball_trial_consumes_three_words_per_call() {
    let mut words = StdRng::seed_from_u64(44);
    let mut rng = StdRng::seed_from_u64(44);
    let _ = generate_random_in_ball(&mut rng);
    assert_ne!(rng, words);
    for _ in 0..3 {
        let _ = words.next_u32();
    }
    assert_eq!(rng, words);
}

#[test]
fn accepted_candidates_lie_in_the_ball() {
    let mut rng = StdRng::seed_from_u64(0x5eed);
    let mut accepted = 0u32;
    for _ in 0..50_000 {
        if let Some(p) = generate_random_in_ball(&mut rng) {
            accepted += 1;
            assert!(p.norm_squared() <= ONE_SQUARED);
            assert!(p.is_in_unit_ball());
            assert!(-ONE <= p.x() && p.x() < ONE);
            assert!(-ONE <= p.y() && p.y() < ONE);
            assert!(-ONE <= p.z() && p.z() < ONE);
        }
    }
    assert!(accepted > 0);
}

#[test]
fn acceptance_rate_is_the_volume_ratio_of_ball_and_cube() {
    // The ball fills pi / 6 of the cube, so a sample needs 6 / pi trials on
    // average.
    let mut rng = StdRng::seed_from_u64(2024);
    let trials = 200_000u32;
    let mut accepted = 0u32;
    for _ in 0..trials {
        if generate_random_in_ball(&mut rng).is_some() {
            accepted += 1;
        }
    }
    let rate = accepted as f64 / trials as f64;
    let expected = std::f64::consts::PI / 6.0;
    assert!((rate - expected).abs() < 0.01, "rate {0}, expected {1}", rate, expected);
    let trials_per_sample = trials as f64 / accepted as f64;
    assert!((trials_per_sample - 1.91).abs() < 0.05, "{0}", trials_per_sample);
}

#[test]
fn candidates_are_balanced_on_every_axis() {
    let mut rng = StdRng::seed_from_u64(77);
    let count = 20_000i64;
    let mut sums = [0i64; 3];
    for _ in 0..count {
        let p = generate_random_in_cube(&mut rng);
        sums[0] += p.x() as i64;
        sums[1] += p.y() as i64;
        sums[2] += p.z() as i64;
    }
    for sum in sums {
        let mean = sum as f64 / count as f64 / ONE as f64;
        assert!(mean.abs() < 0.05, "mean {0}", mean);
    }
}

#[test]
fn trial_matches_the_float_sampler_on_the_same_stream() {
    // Drawing unit-interval floats from the generator and stretching them to
    // [-1, 1) gives the very numbers that the lattice candidate denotes.
    let mut floats = StdRng::seed_from_u64(99);
    let mut words = StdRng::seed_from_u64(99);
    for _ in 0..1000 {
        let x = floats.gen::<f32>() * 2f32 - 1f32;
        let y = floats.gen::<f32>() * 2f32 - 1f32;
        let z = floats.gen::<f32>() * 2f32 - 1f32;
        let p = generate_random_in_cube(&mut words);
        assert_eq!(p.x() as f32 / ONE as f32, x);
        assert_eq!(p.y() as f32 / ONE as f32, y);
        assert_eq!(p.z() as f32 / ONE as f32, z);
    }
}
