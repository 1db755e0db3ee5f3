use woodgrain::octave_sizes;

fn sizes_of(initial: f64) -> Option<Vec<f64>> {
    octave_sizes(initial.to_bits()).map(|v| v.into_iter().map(f64::from_bits).collect())
}

/// The schedule as the halving loop itself produces it.
fn halved_while_at_least_one(initial: f64) -> Vec<f64> {
    let mut out = Vec::new();
    let mut size = initial;
    while size >= 1.0 {
        out.push(size);
        size /= 2.0;
    }
    out
}

#[test]
fn thirty_two_gives_six_octaves() {
    assert_eq!(sizes_of(32.0), Some(vec![32.0, 16.0, 8.0, 4.0, 2.0, 1.0]));
}

#[test]
fn the_count_is_one_more_than_the_whole_binary_logarithm() {
    let cases: [(f64, usize); 12] = [
        (1.0, 1),
        (1.5, 1),
        (1.999_999, 1),
        (2.0, 2),
        (3.99, 2),
        (4.0, 3),
        (5.0, 3),
        (31.999, 5),
        (32.0, 6),
        (33.0, 6),
        (1_000_000.0, 20),
        (f64::MAX, 1024),
    ];
    for (initial, count) in cases {
        let sizes = sizes_of(initial).unwrap();
        assert_eq!(sizes.len(), count, "{initial}");
        // The rounded logarithm of the largest finite number is already 1024.
        if initial < f64::MAX {
            assert_eq!(sizes.len(), initial.log2().floor() as usize + 1, "{initial}");
        }
    }
}

#[test]
fn sizes_that_are_not_powers_of_two() {
    assert_eq!(sizes_of(5.0), Some(vec![5.0, 2.5, 1.25]));
    assert_eq!(sizes_of(1.75), Some(vec![1.75]));
    assert_eq!(sizes_of(12.0), Some(vec![12.0, 6.0, 3.0, 1.5]));
}

#[test]
fn the_schedule_is_what_repeated_halving_gives() {
    let mut initial = 0.001_f64;
    while initial < 1e12 {
        assert_eq!(sizes_of(initial).unwrap(), halved_while_at_least_one(initial), "{initial}");
        initial *= 1.37;
    }
    for initial in [f64::MAX, 1e300, 1.0, 1.0 + f64::EPSILON, 2.0 - f64::EPSILON] {
        assert_eq!(sizes_of(initial).unwrap(), halved_while_at_least_one(initial), "{initial}");
    }
}

#[test]
fn nothing_below_one() {
    for initial in [
        0.999_999_999,
        0.5,
        f64::MIN_POSITIVE,
        5e-324,
        0.0,
        -0.0,
        -0.5,
        -1.0,
        -32.0,
        f64::MIN,
        f64::NEG_INFINITY,
    ] {
        assert_eq!(sizes_of(initial), Some(vec![]), "{initial}");
    }
}

#[test]
fn nothing_for_a_nan() {
    assert_eq!(octave_sizes(f64::NAN.to_bits()), Some(vec![]));
    assert_eq!(octave_sizes((-f64::NAN).to_bits()), Some(vec![]));
    assert_eq!(octave_sizes(0x7FF0_0000_0000_0001), Some(vec![]));
}

#[test]
fn no_schedule_for_positive_infinity() {
    assert_eq!(octave_sizes(f64::INFINITY.to_bits()), None);
}
