use defunct::number::{eq, lt, NAN};
use defunct::text::same_text;

const SAMPLES: [f64; 21] = [
    0.0,
    -0.0,
    1.0,
    -1.0,
    0.5,
    -0.5,
    3.14,
    -3.14,
    314.0,
    1e300,
    -1e300,
    5e-324,
    -5e-324,
    2.2250738585072014e-308,
    f64::MAX,
    f64::MIN,
    f64::EPSILON,
    f64::INFINITY,
    f64::NEG_INFINITY,
    f64::NAN,
    1.0000000000000002,
];

#[test]
fn lt_orders_as_the_numbers_do() {
    for a in SAMPLES {
        for b in SAMPLES {
            assert_eq!(lt(a.to_bits(), b.to_bits()), a < b, "{} < {}", a, b);
        }
    }
}

#[test]
fn eq_holds_as_for_the_numbers() {
    for a in SAMPLES {
        for b in SAMPLES {
            assert_eq!(eq(a.to_bits(), b.to_bits()), a == b, "{} == {}", a, b);
        }
    }
}

#[test]
fn every_kind_of_nan_is_unordered() {
    let nans: [u64; 5] = [
        NAN,
        0x7ff0_0000_0000_0001,
        0x7fff_ffff_ffff_ffff,
        0xfff8_0000_0000_0000,
        0xffff_ffff_ffff_ffff,
    ];
    for n in nans {
        assert!(f64::from_bits(n).is_nan());
        for x in SAMPLES {
            assert!(!lt(n, x.to_bits()));
            assert!(!lt(x.to_bits(), n));
            assert!(!eq(n, x.to_bits()));
        }
        assert!(!eq(n, n));
    }
}

#[test]
fn zeros_are_equal_and_neither_is_less() {
    let plus = 0.0f64.to_bits();
    let minus = (-0.0f64).to_bits();
    assert_ne!(plus, minus);
    assert!(eq(plus, minus));
    assert!(!lt(plus, minus));
    assert!(!lt(minus, plus));
}

#[test]
fn truth_is_not_a_number() {
    assert!(f64::from_bits(NAN).is_nan());
    assert_eq!(NAN, f64::NAN.to_bits());
}

#[test]
fn same_text_compares_characters() {
    assert!(same_text("", ""));
    assert!(same_text("define", "define"));
    assert!(!same_text("define", "define "));
    assert!(!same_text("define", "defind"));
    assert!(!same_text("a", "A"));
    assert!(same_text("λx→y", "λx→y"));
    assert!(!same_text("λx→y", "λx→z"));
    assert!(!same_text("é", "e"));
}
