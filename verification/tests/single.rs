use vrc_canvas::osc::pen_handle::{PenHandler, PenState, Shift};
use vrc_canvas::single::Single;

fn single(value: f32) -> Single {
    Single::from_bits(value.to_bits())
}

fn samples() -> Vec<f32> {
    vec![
        0.0,
        -0.0,
        1.0,
        -1.0,
        3.0,
        -2.0,
        5.0,
        0.1,
        -0.1,
        1000.0,
        -1000.0,
        16_777_216.0,
        f32::MIN_POSITIVE,
        -f32::MIN_POSITIVE,
        f32::from_bits(1),
        f32::from_bits(0x8000_0001),
        f32::from_bits(0x007f_ffff),
        f32::MAX,
        f32::MIN,
        f32::INFINITY,
        f32::NEG_INFINITY,
        f32::NAN,
        f32::from_bits(0xffc0_0000),
        f32::from_bits(0x7f80_0001),
        f32::from_bits(0xff80_0001),
    ]
}

#[test]
fn bits_are_kept() {
    for value in samples() {
        assert_eq!(single(value).to_bits(), value.to_bits());
        assert_eq!(single(value).bits, value.to_bits());
    }
    assert_eq!(Single::zero().to_bits(), 0);
    assert_eq!(Single::from_bits(0x447a_0000).to_bits(), 1000.0f32.to_bits());
}

#[test]
fn nan_is_told_as_the_hardware_tells_it() {
    for value in samples() {
        assert_eq!(single(value).is_nan(), value.is_nan(), "{value:?}");
    }
}

#[test]
fn order_is_the_order_of_the_hardware() {
    for a in samples() {
        for b in samples() {
            assert_eq!(single(a).lt(single(b)), a < b, "{a:?} < {b:?}");
            assert_eq!(single(a).gt(single(b)), a > b, "{a:?} > {b:?}");
        }
    }
}

#[test]
fn equality_is_the_equality_of_the_hardware() {
    for a in samples() {
        for b in samples() {
            assert_eq!(single(a) == single(b), a == b, "{a:?} == {b:?}");
        }
    }
}

#[test]
fn the_two_zeros_are_equal_and_nan_equals_nothing() {
    assert!(single(0.0) == single(-0.0));
    assert!(single(f32::NAN) != single(f32::NAN));
    assert!(!single(f32::NAN).lt(single(1.0)));
    assert!(!single(f32::NAN).gt(single(1.0)));
}

#[test]
fn positive_means_greater_than_zero() {
    for value in samples() {
        assert_eq!(single(value).is_positive(), value > 0.0, "{value:?}");
    }
    assert!(single(1000.0).is_positive());
    assert!(single(f32::INFINITY).is_positive());
    assert!(!single(0.0).is_positive());
    assert!(!single(-0.0).is_positive());
    assert!(!single(-3.5).is_positive());
    assert!(!single(f32::NAN).is_positive());
}

#[test]
fn a_shift_is_the_sign_of_the_difference() {
    for from in samples() {
        for to in samples() {
            let handler = PenHandler::new(PenState::Idle(single(from), single(from)), Some(single(1.0)))
                .unwrap()
                .new_handler(PenState::Idle(single(to), single(to)));
            let difference = to - from;
            let expected = if difference > 0.0 {
                Shift::Positive
            } else if difference < 0.0 {
                Shift::Negative
            } else {
                Shift::Still
            };
            assert_eq!(handler.calc_delta(), (expected, expected), "{from:?} -> {to:?}");
        }
    }
}
