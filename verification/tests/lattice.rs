use spherical_harmonics::lattice::{coordinate_from_word, CubePoint, ONE, ONE_SQUARED};

fn point(x: i32, y: i32, z: i32) -> CubePoint {
    CubePoint::new(x, y, z).expect("coordinates lie in the cube")
}

#[test]
fn one_is_two_to_the_23() {
    assert_eq!(ONE, 1 << 23);
    assert_eq!(ONE_SQUARED, 1u64 << 46);
    assert_eq!(ONE_SQUARED, (ONE as u64) * (ONE as u64));
}

#[test]
fn coordinate_from_word_extremes() {
    assert_eq!(coordinate_from_word(0), -8_388_608);
    assert_eq!(coordinate_from_word(u32::MAX), 8_388_607);
    assert_eq!(coordinate_from_word(0x8000_0000), 0);
    assert_eq!(coordinate_from_word(0x4000_0000), -4_194_304);
    assert_eq!(coordinate_from_word(0xC000_0000), 4_194_304);
}

#[test]
fn coordinate_from_word_drops_the_low_byte() {
    assert_eq!(coordinate_from_word(0x0000_00ff), -8_388_608);
    assert_eq!(coordinate_from_word(0x0000_0100), -8_388_607);
    assert_eq!(coordinate_from_word(0x8000_00ff), 0);
    assert_eq!(coordinate_from_word(0x8000_0100), 1);
    assert_eq!(coordinate_from_word(0x7fff_ffff), -1);
}

#[test]
fn coordinate_denotes_the_scaled_unit_interval_sample() {
    // The 24 leading bits of a word, scaled to [0, 1) and then stretched to
    // [-1, 1), give exactly the number that the coordinate denotes.
    let words: [u32; 8] = [
        0,
        1,
        0x0000_0100,
        0x1234_5678,
        0x7fff_ffff,
        0x8000_0000,
        0xdead_beef,
        u32::MAX,
    ];
    for word in words {
        let unit = ((word >> 8) as f32) * (1.0f32 / 16_777_216.0f32);
        let stretched = unit * 2f32 - 1f32;
        let denoted = coordinate_from_word(word) as f32 / ONE as f32;
        assert_eq!(denoted, stretched, "word {:#x}", word);
        assert!((-1f32..1f32).contains(&denoted));
    }
}

#[test]
fn coordinates_are_uniform_over_words() {
    // Each coordinate is hit by one block of 256 consecutive words.
    for c in [-8_388_608i32, -5, 0, 1, 8_388_607] {
        let first = ((c as i64 + ONE as i64) * 256) as u32;
        for offset in 0u32..256 {
            assert_eq!(coordinate_from_word(first + offset), c);
        }
        if first > 0 {
            assert_eq!(coordinate_from_word(first - 1), c - 1);
        }
        if let Some(next) = first.checked_add(256) {
            assert_eq!(coordinate_from_word(next), c + 1);
        }
    }
}

#[test]
fn new_accepts_every_corner_of_the_cube() {
    for x in [-ONE, ONE - 1] {
        for y in [-ONE, ONE - 1] {
            for z in [-ONE, ONE - 1] {
                let p = CubePoint::new(x, y, z).expect("corner lies in the cube");
                assert_eq!((p.x(), p.y(), p.z()), (x, y, z));
            }
        }
    }
}

#[test]
fn new_rejects_coordinates_outside_the_cube() {
    assert_eq!(CubePoint::new(ONE, 0, 0), None);
    assert_eq!(CubePoint::new(0, ONE, 0), None);
    assert_eq!(CubePoint::new(0, 0, ONE), None);
    assert_eq!(CubePoint::new(-ONE - 1, 0, 0), None);
    assert_eq!(CubePoint::new(0, -ONE - 1, 0), None);
    assert_eq!(CubePoint::new(0, 0, -ONE - 1), None);
    assert_eq!(CubePoint::new(i32::MAX, i32::MIN, 0), None);
}

#[test]
fn from_words_assigns_one_word_per_axis_in_order() {
    let p = CubePoint::from_words(0x8000_0100, 0x7fff_ff00, 0xC000_0000);
    assert_eq!(p.x(), 1);
    assert_eq!(p.y(), -1);
    assert_eq!(p.z(), 4_194_304);
    assert_eq!(p, point(1, -1, 4_194_304));
}

#[test]
fn norm_squared_is_exact() {
    assert_eq!(point(0, 0, 0).norm_squared(), 0);
    assert_eq!(point(3, 4, 12).norm_squared(), 169);
    assert_eq!(point(-3, 4, -12).norm_squared(), 169);
    assert_eq!(point(8_388_607, 0, 0).norm_squared(), 70_368_727_400_449);
    assert_eq!(point(-ONE, -ONE, -ONE).norm_squared(), 3 * ONE_SQUARED);
    assert_eq!(
        point(4_194_304, -4_194_304, 4_194_304).norm_squared(),
        3 * (1u64 << 44)
    );
}

#[test]
fn unit_ball_is_closed() {
    // Distance exactly one is still inside.
    assert!(point(-ONE, 0, 0).is_in_unit_ball());
    assert!(point(0, -ONE, 0).is_in_unit_ball());
    assert!(point(0, 0, -ONE).is_in_unit_ball());
    // One lattice step beyond is outside.
    assert!(!point(-ONE, 1, 0).is_in_unit_ball());
    assert!(!point(-ONE, 0, -1).is_in_unit_ball());
}

#[test]
fn unit_ball_membership_near_the_surface() {
    // 3 * 4843165^2 = 70_368_741_651_675 <= 2^46 < 70_368_770_710_668 = 3 * 4843166^2.
    assert_eq!(point(4_843_165, 4_843_165, 4_843_165).norm_squared(), 70_368_741_651_675);
    assert!(point(4_843_165, 4_843_165, 4_843_165).is_in_unit_ball());
    assert_eq!(point(4_843_166, 4_843_166, 4_843_166).norm_squared(), 70_368_770_710_668);
    assert!(!point(4_843_166, 4_843_166, 4_843_166).is_in_unit_ball());
    assert!(point(0, 0, 0).is_in_unit_ball());
    assert!(!point(ONE - 1, ONE - 1, ONE - 1).is_in_unit_ball());
    assert!(!point(-ONE, -ONE, -ONE).is_in_unit_ball());
}

#[test]
fn unit_ball_is_isotropic() {
    let samples: [(i32, i32, i32); 5] = [
        (5_000_000, 5_000_000, 4_000_000),
        (8_000_000, 2_000_000, 1_000_000),
        (8_000_000, 2_600_000, 100),
        (1, 2, 3),
        (6_000_000, 5_900_000, 0),
    ];
    for (x, y, z) in samples {
        let inside = point(x, y, z).is_in_unit_ball();
        assert_eq!(point(y, x, z).is_in_unit_ball(), inside);
        assert_eq!(point(x, z, y).is_in_unit_ball(), inside);
        assert_eq!(point(z, y, x).is_in_unit_ball(), inside);
        assert_eq!(point(-x, y, z).is_in_unit_ball(), inside);
        assert_eq!(point(x, -y, z).is_in_unit_ball(), inside);
        assert_eq!(point(x, y, -z).is_in_unit_ball(), inside);
        assert_eq!(point(-x, -y, -z).is_in_unit_ball(), inside);
    }
}
