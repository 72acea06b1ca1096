use runner::reading::Reading;
use std::cmp::Ordering;

fn reading(x: f64) -> Reading {
    Reading::from_bits(x.to_bits())
}

fn grid() -> Vec<f64> {
    vec![
        0.0,
        -0.0,
        1.0,
        -1.0,
        1.29,
        1.30,
        1.31,
        1.0 + 3.0 * 0.1,
        f64::MIN_POSITIVE,
        -f64::MIN_POSITIVE,
        5e-324,
        -5e-324,
        f64::MAX,
        f64::MIN,
        f64::INFINITY,
        f64::NEG_INFINITY,
        f64::NAN,
        -f64::NAN,
        f64::from_bits(0x7ff0_0000_0000_0001),
        f64::from_bits(0xfff0_0000_0000_0001),
        1e300,
        -1e300,
        123456.789,
        -123456.789,
    ]
}

#[test]
fn readings_keep_their_bits() {
    for x in grid() {
        assert_eq!(reading(x).to_bits(), x.to_bits());
    }
}

#[test]
fn readings_are_ordered_as_doubles_are() {
    for a in grid() {
        for b in grid() {
            let ra = reading(a);
            let rb = reading(b);
            assert_eq!(ra.partial_cmp(&rb), a.partial_cmp(&b), "{:?} against {:?}", a, b);
            assert_eq!(ra > rb, a > b, "{:?} > {:?}", a, b);
            assert_eq!(ra < rb, a < b, "{:?} < {:?}", a, b);
            assert_eq!(ra >= rb, a >= b, "{:?} >= {:?}", a, b);
            assert_eq!(ra <= rb, a <= b, "{:?} <= {:?}", a, b);
        }
    }
}

#[test]
fn readings_are_equal_as_doubles_are() {
    for a in grid() {
        for b in grid() {
            assert_eq!(reading(a) == reading(b), a == b, "{:?} == {:?}", a, b);
        }
    }
}

#[test]
fn nan_is_told_from_numbers() {
    for x in grid() {
        assert_eq!(reading(x).is_nan(), x.is_nan(), "{:?}", x);
    }
}

#[test]
fn the_two_zeros_are_equal_and_neither_is_greater() {
    let plus = reading(0.0);
    let minus = reading(-0.0);
    assert_ne!(plus.to_bits(), minus.to_bits());
    assert!(plus == minus);
    assert!(!(plus > minus));
    assert!(!(minus > plus));
    assert_eq!(plus.partial_cmp(&minus), Some(Ordering::Equal));
}

#[test]
fn ranks_rise_with_the_numbers() {
    let rising = [f64::NEG_INFINITY, -2.0, -1.0, -5e-324, 0.0, 5e-324, 1.0, 2.0, f64::INFINITY];
    for pair in rising.windows(2) {
        assert!(reading(pair[0]).ranked() < reading(pair[1]).ranked());
    }
    assert_eq!(reading(0.0).ranked(), reading(-0.0).ranked());
}
