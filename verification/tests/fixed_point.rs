use stable_fluids::fixed::{Fixed, ONE_RAW, WHOLE_MAX};
use stable_fluids::scalar::Scalar;

fn whole(n: i64) -> Fixed {
    Fixed::from_ratio(n, 1)
}

#[test]
fn ratio_of_whole_numbers_is_exact() {
    assert_eq!(ONE_RAW, 1i64 << 32);
    assert_eq!(Fixed::from_ratio(1, 1).raw, 1i64 << 32);
    assert_eq!(Fixed::from_ratio(1, 2).raw, 1i64 << 31);
    assert_eq!(Fixed::from_ratio(-3, 4).raw, -(3i64 << 30));
    assert_eq!(Fixed::from_ratio(7, -2).raw, -(7i64 << 31));
    assert_eq!(Fixed::from_ratio(-7, -2).raw, 7i64 << 31);
}

#[test]
fn ratio_rounds_toward_zero() {
    assert_eq!(Fixed::from_ratio(1, 3).raw, 1_431_655_765);
    assert_eq!(Fixed::from_ratio(-1, 3).raw, -1_431_655_765);
    assert_eq!(Fixed::from_ratio(1, -3).raw, -1_431_655_765);
    assert_eq!(Fixed::from_ratio(1, 5).raw, 858_993_459);
    assert_eq!(Fixed::from_ratio(1, 60).raw, 71_582_788);
}

#[test]
fn ratio_with_zero_denominator_is_zero() {
    assert_eq!(Fixed::from_ratio(5, 0), Fixed { raw: 0 });
    assert_eq!(Fixed::from_ratio(0, 0), Fixed { raw: 0 });
    assert_eq!(Fixed::from_ratio(i64::MIN, 0), Fixed { raw: 0 });
}

#[test]
fn ratio_saturates() {
    assert_eq!(Fixed::from_ratio(i64::MAX, 1).raw, i64::MAX);
    assert_eq!(Fixed::from_ratio(i64::MIN, 1).raw, i64::MIN);
    assert_eq!(Fixed::from_ratio(i64::MIN, -1).raw, i64::MAX);
    assert_eq!(Fixed::from_ratio(1i64 << 31, 1).raw, i64::MAX);
    assert_eq!(Fixed::from_ratio((1i64 << 31) - 1, 1).raw, ((1i64 << 31) - 1) << 32);
}

#[test]
fn zero_is_raw_zero() {
    assert_eq!(Fixed::zero(), Fixed { raw: 0 });
}

#[test]
fn count_is_exact_up_to_the_limit() {
    assert_eq!(Fixed::from_count(0).raw, 0);
    assert_eq!(Fixed::from_count(1).raw, ONE_RAW);
    assert_eq!(Fixed::from_count(500).raw, 500 * ONE_RAW);
    assert_eq!(WHOLE_MAX, 0x7fff_ffff);
    assert_eq!(Fixed::from_count(WHOLE_MAX).raw, 0x7fff_ffff * ONE_RAW);
    assert_eq!(Fixed::from_count(WHOLE_MAX).truncate(), WHOLE_MAX);
}

#[test]
fn count_beyond_the_limit_saturates() {
    assert_eq!(Fixed::from_count(WHOLE_MAX + 1).raw, i64::MAX);
    assert_eq!(Fixed::from_count(usize::MAX).raw, i64::MAX);
    assert_eq!(Fixed::from_count(WHOLE_MAX + 1).truncate(), WHOLE_MAX);
}

#[test]
fn sum_and_difference_are_exact() {
    assert_eq!(Fixed::from_ratio(1, 2).plus(Fixed::from_ratio(1, 4)), Fixed::from_ratio(3, 4));
    assert_eq!(Fixed::from_ratio(1, 2).minus(Fixed::from_ratio(3, 4)), Fixed::from_ratio(-1, 4));
    assert_eq!(whole(-5).plus(whole(5)), Fixed::zero());
}

#[test]
fn sum_and_difference_saturate() {
    let top = Fixed { raw: i64::MAX };
    let bottom = Fixed { raw: i64::MIN };
    assert_eq!(top.plus(Fixed { raw: 1 }), top);
    assert_eq!(bottom.minus(Fixed { raw: 1 }), bottom);
    assert_eq!(bottom.plus(bottom), bottom);
    assert_eq!(top.minus(bottom), top);
    assert_eq!(Fixed::zero().minus(bottom), top);
    assert_eq!(top.plus(bottom), Fixed { raw: -1 });
}

#[test]
fn product_is_exact_on_representable_values() {
    assert_eq!(Fixed::from_ratio(3, 2).times(Fixed::from_ratio(5, 2)), Fixed::from_ratio(15, 4));
    assert_eq!(whole(-3).times(Fixed::from_ratio(1, 2)), Fixed::from_ratio(-3, 2));
    assert_eq!(whole(-3).times(whole(-4)), whole(12));
}

#[test]
fn product_rounds_toward_zero() {
    let tiny = Fixed { raw: 1 };
    assert_eq!(tiny.times(Fixed::from_ratio(1, 2)), Fixed::zero());
    assert_eq!(Fixed { raw: -1 }.times(Fixed::from_ratio(1, 2)), Fixed::zero());
    assert_eq!(Fixed { raw: 3 }.times(Fixed::from_ratio(1, 2)), Fixed { raw: 1 });
    assert_eq!(Fixed { raw: -3 }.times(Fixed::from_ratio(1, 2)), Fixed { raw: -1 });
}

#[test]
fn product_saturates() {
    let top = Fixed { raw: i64::MAX };
    let bottom = Fixed { raw: i64::MIN };
    assert_eq!(top.times(top), top);
    assert_eq!(top.times(bottom), bottom);
    assert_eq!(bottom.times(bottom), top);
    assert_eq!(whole(1 << 16).times(whole(1 << 16)), top);
    assert_eq!(whole(1 << 16).times(whole(-(1 << 16))), bottom);
}

#[test]
fn quotient_is_exact_on_representable_values() {
    assert_eq!(whole(3).over(whole(2)), Fixed::from_ratio(3, 2));
    assert_eq!(whole(1).over(whole(4)), Fixed::from_ratio(1, 4));
    assert_eq!(Fixed::from_ratio(-15, 4).over(Fixed::from_ratio(5, 2)), Fixed::from_ratio(-3, 2));
}

#[test]
fn quotient_rounds_toward_zero() {
    assert_eq!(whole(1).over(whole(3)).raw, 1_431_655_765);
    assert_eq!(whole(-1).over(whole(3)).raw, -1_431_655_765);
    assert_eq!(whole(2).over(whole(3)).raw, 2_863_311_530);
}

#[test]
fn quotient_by_zero_is_zero() {
    assert_eq!(whole(7).over(Fixed::zero()), Fixed::zero());
    assert_eq!(whole(-7).over(Fixed::zero()), Fixed::zero());
    assert_eq!(Fixed::zero().over(Fixed::zero()), Fixed::zero());
}

#[test]
fn quotient_saturates() {
    let top = Fixed { raw: i64::MAX };
    let bottom = Fixed { raw: i64::MIN };
    assert_eq!(whole(1 << 20).over(Fixed { raw: 1 }), top);
    assert_eq!(whole(-(1 << 20)).over(Fixed { raw: 1 }), bottom);
    assert_eq!(bottom.over(whole(-1)), top);
}

#[test]
fn truncation_takes_the_integer_part() {
    assert_eq!(Fixed::from_ratio(79, 10).truncate(), 7);
    assert_eq!(whole(7).truncate(), 7);
    assert_eq!(Fixed { raw: 7 * ONE_RAW - 1 }.truncate(), 6);
    assert_eq!(Fixed::from_ratio(1, 2).truncate(), 0);
    assert_eq!(Fixed::zero().truncate(), 0);
    assert_eq!(Fixed { raw: i64::MAX }.truncate(), WHOLE_MAX);
}

#[test]
fn truncation_of_a_negative_number_is_zero() {
    assert_eq!(Fixed::from_ratio(-1, 2).truncate(), 0);
    assert_eq!(whole(-3).truncate(), 0);
    assert_eq!(Fixed { raw: -1 }.truncate(), 0);
    assert_eq!(Fixed { raw: i64::MIN }.truncate(), 0);
}

#[test]
fn zero_and_one_are_neutral() {
    let samples = [
        Fixed { raw: 0 },
        Fixed { raw: 1 },
        Fixed { raw: -1 },
        Fixed::from_ratio(1, 3),
        whole(-12),
        Fixed { raw: i64::MAX },
        Fixed { raw: i64::MIN },
    ];
    let zero = Fixed::zero();
    let one = Fixed::from_count(1);
    for x in samples {
        assert_eq!(x.plus(zero), x);
        assert_eq!(zero.plus(x), x);
        assert_eq!(x.minus(zero), x);
        assert_eq!(x.times(zero), zero);
        assert_eq!(zero.times(x), zero);
        assert_eq!(zero.over(x), zero);
        assert_eq!(x.over(one), x);
    }
}
