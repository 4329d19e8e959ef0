use drawdown_solver::Value;

fn units(value: &Value) -> i128 {
    let fits = (value.hi == 0 && value.lo < (1u128 << 127))
        || (value.hi == -1 && value.lo >= (1u128 << 127));
    assert!(fits, "{:?} does not fit 128 bits", value);
    value.lo as i128
}

#[test]
fn half_holds_the_amount_as_units() {
    assert_eq!(Value::half(0), Value { hi: 0, lo: 0, depth: 0 });
    assert_eq!(Value::half(501), Value { hi: 0, lo: 501, depth: 0 });
    assert_eq!(Value::half(-3), Value { hi: -1, lo: u128::MAX - 2, depth: 0 });
    assert_eq!(units(&Value::half(i64::MIN)), i64::MIN as i128);
    assert_eq!(units(&Value::half(i64::MAX)), i64::MAX as i128);
}

#[test]
fn zero_keeps_the_depth() {
    assert_eq!(Value::zero(7), Value { hi: 0, lo: 0, depth: 7 });
    assert!(Value::zero(7).is_zero());
    assert!(!Value::zero(7).is_negative());
}

#[test]
fn times300_multiplies_the_units() {
    assert_eq!(Value::half(7).times300(), Value { hi: 0, lo: 2100, depth: 1 });
    assert_eq!(units(&Value::half(-7).times300()), -2100);
    let wide = Value { hi: 0, lo: u128::MAX, depth: 3 }.times300();
    assert_eq!(wide, Value { hi: 299, lo: u128::MAX - 299, depth: 4 });
    let negative = Value { hi: -2, lo: 5, depth: 0 }.times300();
    assert_eq!(negative, Value { hi: -600, lo: 1500, depth: 1 });
}

#[test]
fn rescaled_multiplies_by_a_power_of_300() {
    assert_eq!(Value::half(150).rescaled(0), Value { hi: 0, lo: 150, depth: 0 });
    assert_eq!(
        Value::half(150).rescaled(10),
        Value { hi: 0, lo: 150 * 300u128.pow(10), depth: 10 }
    );
    assert_eq!(units(&Value::half(-2).rescaled(3)), -54_000_000);
    let top = Value::half(1).rescaled(20);
    assert_eq!(top.depth, 20);
    assert_eq!(top.hi, 102_467_384_147);
    assert_eq!(top.lo, 261_792_886_550_470_035_323_685_585_274_921_811_968);
}

#[test]
fn blend_weighs_a_win_by_100_and_a_loss_by_197() {
    let win = Value { hi: 0, lo: 1500, depth: 2 };
    let lose = Value { hi: 0, lo: 40, depth: 2 };
    assert_eq!(Value::blend(&win, &lose), Value { hi: 0, lo: 157_880, depth: 3 });
    let loss_only = Value::blend(&Value::zero(0), &Value::half(1));
    assert_eq!(loss_only, Value { hi: 0, lo: 197, depth: 1 });
    let win_only = Value::blend(&Value::half(1), &Value::zero(0));
    assert_eq!(win_only, Value { hi: 0, lo: 100, depth: 1 });
    let mixed = Value::blend(&Value::half(-10), &Value::half(3));
    assert_eq!(units(&mixed), -409);
    let wide = Value::blend(
        &Value { hi: 1, lo: u128::MAX, depth: 0 },
        &Value { hi: 2, lo: u128::MAX, depth: 0 },
    );
    assert_eq!(wide, Value { hi: 790, lo: u128::MAX - 296, depth: 1 });
}

#[test]
fn plus_carries_into_the_upper_half() {
    let a = Value { hi: 3, lo: u128::MAX, depth: 5 };
    let b = Value { hi: -1, lo: 2, depth: 5 };
    assert_eq!(a.plus(&b), Value { hi: 3, lo: 1, depth: 5 });
    assert_eq!(units(&Value::half(-5).plus(&Value::half(3))), -2);
    assert_eq!(units(&Value::half(-5).plus(&Value::half(8))), 3);
    assert_eq!(Value::half(4).plus(&Value::half(5)), Value { hi: 0, lo: 9, depth: 0 });
}

#[test]
fn exceeds_orders_by_units() {
    let small = Value::half(-1);
    let zero = Value::zero(0);
    let big = Value { hi: 1, lo: 0, depth: 0 };
    let bigger = Value { hi: 1, lo: 1, depth: 0 };
    assert!(zero.exceeds(&small));
    assert!(!small.exceeds(&zero));
    assert!(big.exceeds(&zero));
    assert!(bigger.exceeds(&big));
    assert!(!big.exceeds(&bigger));
    assert!(!big.exceeds(&big));
    assert!(small.is_negative());
    assert!(!small.is_zero());
    assert!(!big.is_negative());
}

#[test]
fn the_working_limit_is_two_to_the_200() {
    let top: i128 = 1 << 72;
    assert!(Value { hi: top, lo: 0, depth: 0 }.is_small());
    assert!(!Value { hi: top, lo: 1, depth: 0 }.is_small());
    assert!(Value { hi: top - 1, lo: u128::MAX, depth: 9 }.is_small());
    assert!(Value { hi: -top, lo: 0, depth: 0 }.is_small());
    assert!(Value { hi: -top, lo: u128::MAX, depth: 0 }.is_small());
    assert!(!Value { hi: -top - 1, lo: u128::MAX, depth: 0 }.is_small());
    assert!(Value::half(i64::MIN).is_small());
    assert!(!Value { hi: i128::MAX, lo: 0, depth: 0 }.is_small());
    assert!(!Value { hi: i128::MIN, lo: 0, depth: 0 }.is_small());
}

#[test]
fn abs_drops_the_sign() {
    assert_eq!(Value::half(-5).abs(), Value::half(5));
    assert_eq!(Value::half(5).abs(), Value::half(5));
    assert_eq!(Value::zero(4).abs(), Value::zero(4));
    assert_eq!(Value { hi: -1, lo: 0, depth: 2 }.abs(), Value { hi: 1, lo: 0, depth: 2 });
    assert_eq!(Value { hi: -3, lo: 1, depth: 2 }.abs(), Value { hi: 2, lo: u128::MAX, depth: 2 });
}

#[test]
fn hundredths_round_to_the_nearest() {
    assert_eq!(Value::half(1).to_hundredths(), Some(50));
    assert_eq!(Value::half(-1).to_hundredths(), Some(-50));
    assert_eq!(Value::half(501).to_hundredths(), Some(25050));
    assert_eq!(Value::zero(20).to_hundredths(), Some(0));
    assert_eq!(Value { hi: 0, lo: 150_000, depth: 1 }.to_hundredths(), Some(25000));
    assert_eq!(Value { hi: 0, lo: 4_045_500_000_000, depth: 4 }.to_hundredths(), Some(24972));
    assert_eq!(
        Value { hi: 0, lo: 587_464_650_000_000_000_000_000_000, depth: 10 }.to_hundredths(),
        Some(4974)
    );
    assert_eq!(Value::half(-800).rescaled(10).to_hundredths(), Some(-40000));
    assert_eq!(Value::half(199).rescaled(20).to_hundredths(), Some(9950));
}

#[test]
fn hundredths_round_a_half_away_from_zero() {
    assert_eq!(Value { hi: 0, lo: 2, depth: 1 }.to_hundredths(), Some(0));
    assert_eq!(Value { hi: 0, lo: 3, depth: 1 }.to_hundredths(), Some(1));
    assert_eq!(Value { hi: 0, lo: 8, depth: 1 }.to_hundredths(), Some(1));
    assert_eq!(Value { hi: 0, lo: 9, depth: 1 }.to_hundredths(), Some(2));
    assert_eq!(Value::half(-3).times300().to_hundredths(), Some(-150));
    assert_eq!(Value { hi: -1, lo: u128::MAX - 2, depth: 1 }.to_hundredths(), Some(-1));
    assert_eq!(Value { hi: -1, lo: u128::MAX - 1, depth: 1 }.to_hundredths(), Some(0));
}

#[test]
fn hundredths_that_do_not_fit_are_not_given() {
    let top: i128 = 1 << 72;
    assert_eq!(Value { hi: top, lo: 0, depth: 0 }.to_hundredths(), None);
    assert_eq!(Value { hi: -top, lo: 0, depth: 0 }.to_hundredths(), None);
    let most = Value { hi: 0, lo: (i128::MAX / 50) as u128, depth: 0 };
    assert_eq!(most.to_hundredths(), Some(i128::MAX / 50 * 50));
    let more = Value { hi: 0, lo: (i128::MAX / 50) as u128 + 1, depth: 0 };
    assert_eq!(more.to_hundredths(), None);
}
