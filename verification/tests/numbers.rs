use kaffee::number::Number;
use kaffee::number::Whole;

fn num(x: f64) -> Number {
    Number::from_bits(x.to_bits())
}

fn samples() -> Vec<f64> {
    vec![
        0.0,
        -0.0,
        1.0,
        -1.0,
        0.5,
        -0.5,
        1.5,
        2.0,
        3.0,
        1e-320,
        -1e-320,
        f64::MIN_POSITIVE,
        f64::MAX,
        f64::MIN,
        f64::INFINITY,
        f64::NEG_INFINITY,
        f64::NAN,
        -f64::NAN,
        9007199254740992.0,
        9007199254740993.0,
        4503599627370495.5,
        18446744073709551615.0,
        18446744073709549568.0,
        1e30,
        -1e30,
        123456789.0,
        0.1,
        1e308,
    ]
}

#[test]
fn bits_round_trip() {
    assert_eq!(Number::from_bits(0x4026_0000_0000_0000).to_bits(), 0x4026_0000_0000_0000);
    assert_eq!(num(11.0).to_bits(), 0x4026_0000_0000_0000);
}

#[test]
fn equality_is_that_of_the_machine() {
    for a in samples() {
        for b in samples() {
            assert_eq!(num(a).equals(&num(b)), a == b, "{} == {}", a, b);
        }
    }
}

#[test]
fn zeros_are_equal_and_nan_is_not() {
    assert!(num(0.0).equals(&num(-0.0)));
    assert!(!num(f64::NAN).equals(&num(f64::NAN)));
    assert!(num(f64::INFINITY).equals(&num(f64::INFINITY)));
    assert!(!num(f64::INFINITY).equals(&num(f64::NEG_INFINITY)));
}

#[test]
fn less_than_is_that_of_the_machine() {
    for a in samples() {
        for b in samples() {
            assert_eq!(num(a).less_than(&num(b)), a < b, "{} < {}", a, b);
        }
    }
}

#[test]
fn less_or_equal_is_that_of_the_machine() {
    for a in samples() {
        for b in samples() {
            assert_eq!(num(a).less_or_equal(&num(b)), a <= b, "{} <= {}", a, b);
        }
    }
}

#[test]
fn nan_is_recognised() {
    for a in samples() {
        assert_eq!(num(a).is_nan(), a.is_nan(), "{}", a);
    }
}

#[test]
fn whole_numbers_are_recognised() {
    for a in samples() {
        let expected = if a >= 0.0 && a.fract() == 0.0 && a.is_finite() {
            if a < 18446744073709551616.0 {
                Whole::Exact(a as u64)
            } else {
                Whole::Huge
            }
        } else if a == 0.0 {
            Whole::Exact(0)
        } else {
            Whole::NotWhole
        };
        assert_eq!(num(a).as_whole(), expected, "{}", a);
    }
}

#[test]
fn whole_of_chosen_values() {
    assert_eq!(num(0.0).as_whole(), Whole::Exact(0));
    assert_eq!(num(-0.0).as_whole(), Whole::Exact(0));
    assert_eq!(num(1.0).as_whole(), Whole::Exact(1));
    assert_eq!(num(2.0).as_whole(), Whole::Exact(2));
    assert_eq!(num(1e15).as_whole(), Whole::Exact(1_000_000_000_000_000));
    assert_eq!(num(9007199254740992.0).as_whole(), Whole::Exact(9007199254740992));
    assert_eq!(num(18446744073709549568.0).as_whole(), Whole::Exact(18446744073709549568));
    assert_eq!(num(18446744073709551616.0).as_whole(), Whole::Huge);
    assert_eq!(num(1e300).as_whole(), Whole::Huge);
    assert_eq!(num(0.5).as_whole(), Whole::NotWhole);
    assert_eq!(num(2.5).as_whole(), Whole::NotWhole);
    assert_eq!(num(-1.0).as_whole(), Whole::NotWhole);
    assert_eq!(num(f64::INFINITY).as_whole(), Whole::NotWhole);
    assert_eq!(num(f64::NAN).as_whole(), Whole::NotWhole);
    assert_eq!(num(5e-324).as_whole(), Whole::NotWhole);
}

#[test]
fn count_becomes_the_nearest_number() {
    let mut counts: Vec<u64> = vec![
        0,
        1,
        2,
        3,
        10,
        255,
        256,
        1_000_000,
        u32::MAX as u64,
        (1 << 52) - 1,
        1 << 52,
        (1 << 53) - 1,
        1 << 53,
        (1 << 53) + 1,
        (1 << 53) + 2,
        (1 << 53) + 3,
        (1 << 54) + 1,
        (1 << 54) + 2,
        (1 << 54) + 3,
        (1 << 54) + 6,
        (1 << 62) + (1 << 9),
        (1 << 62) + (1 << 9) + 1,
        (1 << 63) - 1,
        1 << 63,
        (1 << 63) + 1024,
        (1 << 63) + 1025,
        (1 << 63) + 3072,
        u64::MAX - 2048,
        u64::MAX - 1024,
        u64::MAX - 1023,
        u64::MAX - 1,
        u64::MAX,
    ];
    let mut x: u64 = 0x9e37_79b9_7f4a_7c15;
    for _ in 0..2000 {
        x ^= x << 13;
        x ^= x >> 7;
        x ^= x << 17;
        counts.push(x);
        counts.push(x >> 7);
        counts.push(x >> 11);
        counts.push(x >> 30);
    }
    for n in counts {
        assert_eq!(Number::from_count(n).to_bits(), (n as f64).to_bits(), "{}", n);
    }
}

#[test]
fn count_of_three_is_three() {
    assert_eq!(f64::from_bits(Number::from_count(3).to_bits()), 3.0);
}
