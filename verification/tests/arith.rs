use regvm::arith::{divide, is_power_of_two, log2, negate, shl, shr};
use regvm::types::Operator;

#[test]
fn addition_subtraction_multiplication_wrap() {
    assert_eq!(Operator::Add.apply(2, 3), Some(5));
    assert_eq!(Operator::Add.apply(i32::MAX, 1), Some(i32::MIN));
    assert_eq!(Operator::Add.apply(i32::MIN, -1), Some(i32::MAX));
    assert_eq!(Operator::Sub.apply(2, 3), Some(-1));
    assert_eq!(Operator::Sub.apply(i32::MIN, 1), Some(i32::MAX));
    assert_eq!(Operator::Sub.apply(0, i32::MIN), Some(i32::MIN));
    assert_eq!(Operator::Mul.apply(-4, 6), Some(-24));
    assert_eq!(Operator::Mul.apply(i32::MAX, 2), Some(-2));
    assert_eq!(Operator::Mul.apply(i32::MIN, -1), Some(i32::MIN));
    assert_eq!(Operator::Mul.apply(123456789, 987654321), Some(123456789i32.wrapping_mul(987654321)));
}

#[test]
fn division_rounds_toward_zero() {
    assert_eq!(Operator::Div.apply(7, 2), Some(3));
    assert_eq!(Operator::Div.apply(-7, 2), Some(-3));
    assert_eq!(Operator::Div.apply(7, -2), Some(-3));
    assert_eq!(Operator::Div.apply(-7, -2), Some(3));
    assert_eq!(Operator::Div.apply(0, 5), Some(0));
    assert_eq!(Operator::Div.apply(1, 0), None);
    assert_eq!(Operator::Div.apply(0, 0), None);
    assert_eq!(Operator::Div.apply(i32::MIN, -1), Some(i32::MIN));
    assert_eq!(Operator::Div.apply(i32::MIN, 1), Some(i32::MIN));
    assert_eq!(Operator::Div.apply(i32::MIN, i32::MIN), Some(1));
    assert_eq!(Operator::Div.apply(i32::MAX, i32::MIN), Some(0));
    assert_eq!(divide(-9, 4), -2);
    for a in [-9i32, -8, -1, 0, 1, 8, 9, i32::MAX, i32::MIN + 1] {
        for b in [-3i32, -2, -1, 1, 2, 3, 1000, i32::MAX, i32::MIN] {
            assert_eq!(divide(a, b), a.wrapping_div(b));
        }
    }
}

#[test]
fn only_division_by_zero_has_no_value() {
    for op in [Operator::Add, Operator::Sub, Operator::Mul, Operator::Shl, Operator::Shr] {
        assert!(op.apply(1, 0).is_some());
        assert!(op.apply(i32::MIN, -1).is_some());
        assert!(op.apply(1, 32).is_some());
    }
}

#[test]
fn left_shift_loses_the_high_bits() {
    assert_eq!(shl(1, 0), 1);
    assert_eq!(shl(5, 3), 40);
    assert_eq!(shl(-5, 3), -40);
    assert_eq!(shl(1, 31), i32::MIN);
    assert_eq!(shl(3, 31), i32::MIN);
    assert_eq!(shl(2, 31), 0);
    assert_eq!(shl(0x4000_0001, 1), i32::MIN + 2);
    assert_eq!(Operator::Shl.apply(7, 4), Some(112));
}

#[test]
fn right_shift_is_logical() {
    assert_eq!(shr(40, 3), 5);
    assert_eq!(shr(41, 3), 5);
    assert_eq!(shr(1, 1), 0);
    assert_eq!(shr(-1, 0), -1);
    assert_eq!(shr(-1, 1), i32::MAX);
    assert_eq!(shr(-1, 28), 15);
    assert_eq!(shr(-1, 31), 1);
    assert_eq!(shr(i32::MIN, 31), 1);
    assert_eq!(shr(-8, 2), 0x3fff_fffe);
    assert_eq!(Operator::Shr.apply(-8, 2), Some(((-8i32) as u32 >> 2) as i32));
}

#[test]
fn shift_count_is_not_masked() {
    for a in [1i32, -1, 12345, i32::MIN, i32::MAX] {
        for count in [32i32, 33, 64, 1000, i32::MAX, -1, -31, -32, i32::MIN] {
            assert_eq!(shl(a, count), 0);
            assert_eq!(shr(a, count), 0);
        }
    }
}

#[test]
fn negation_wraps() {
    assert_eq!(negate(5), -5);
    assert_eq!(negate(-5), 5);
    assert_eq!(negate(0), 0);
    assert_eq!(negate(i32::MAX), i32::MIN + 1);
    assert_eq!(negate(i32::MIN), i32::MIN);
}

#[test]
fn powers_of_two() {
    for k in 0..31 {
        let n: i32 = 1 << k;
        assert!(is_power_of_two(n));
        assert_eq!(log2(n), k);
    }
    for n in [0i32, -1, -2, -4, i32::MIN, 3, 5, 6, 7, 9, 12, 1000, i32::MAX, 0x4000_0001] {
        assert!(!is_power_of_two(n), "{}", n);
    }
}

#[test]
fn logarithm_rounds_down() {
    assert_eq!(log2(1), 0);
    assert_eq!(log2(2), 1);
    assert_eq!(log2(3), 1);
    assert_eq!(log2(4), 2);
    assert_eq!(log2(1000), 9);
    assert_eq!(log2(1024), 10);
    assert_eq!(log2(i32::MAX), 30);
    for n in [1i32, 2, 3, 7, 8, 9, 1023, 1025, 65535, 65536, i32::MAX] {
        assert_eq!(log2(n) as u32, n.ilog2());
    }
}

#[test]
fn shifts_within_the_word_move_bits() {
    let words = [0i32, 1, -1, 2, -2, 5, 0x1234_5678, -0x1234_5678, i32::MAX, i32::MIN, 0x4000_0000];
    for a in words {
        for count in 0..32 {
            assert_eq!(shl(a, count), ((a as u32) << count) as i32, "{} << {}", a, count);
            assert_eq!(shr(a, count), ((a as u32) >> count) as i32, "{} >> {}", a, count);
        }
    }
}

#[test]
fn wrapping_operations_agree_with_the_word() {
    let words = [0i32, 1, -1, 7, -7, 65535, 65536, -65536, 0x1234_5678, i32::MAX, i32::MIN];
    for a in words {
        for b in words {
            assert_eq!(Operator::Add.apply(a, b), Some(a.wrapping_add(b)));
            assert_eq!(Operator::Sub.apply(a, b), Some(a.wrapping_sub(b)));
            assert_eq!(Operator::Mul.apply(a, b), Some(a.wrapping_mul(b)));
            if b != 0 {
                assert_eq!(Operator::Div.apply(a, b), Some(a.wrapping_div(b)));
            }
        }
        assert_eq!(negate(a), a.wrapping_neg());
    }
}
