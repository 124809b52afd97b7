use script_core::ast::{Literal, NumericType, Operator};
use script_core::error::{RuntimeError, ValueKind};
use script_core::value::InterpretValue;

fn i32v(v: i32) -> InterpretValue {
    InterpretValue::I32(v)
}

#[test]
fn add_wraps_around_at_the_width_of_the_kind() {
    let r = InterpretValue::I8(127).add(&InterpretValue::I8(1)).unwrap();
    assert!(matches!(r, InterpretValue::I8(-128)));
    let r = InterpretValue::U8(255).add(&InterpretValue::U8(1)).unwrap();
    assert!(matches!(r, InterpretValue::U8(0)));
    let r = InterpretValue::I64(i64::MAX).add(&InterpretValue::I64(1)).unwrap();
    assert!(matches!(r, InterpretValue::I64(i64::MIN)));
    let r = i32v(2).add(&i32v(3)).unwrap();
    assert!(matches!(r, InterpretValue::I32(5)));
}

#[test]
fn division_by_zero_is_a_failure() {
    let r = i32v(1).div(&i32v(0));
    assert!(matches!(r, Err(RuntimeError::DivisionByZero)));
    let r = i32v(1).rem(&i32v(0));
    assert!(matches!(r, Err(RuntimeError::DivisionByZero)));
}

#[test]
fn division_truncates_toward_zero() {
    assert!(matches!(i32v(-7).div(&i32v(2)), Ok(InterpretValue::I32(-3))));
    assert!(matches!(i32v(7).div(&i32v(-2)), Ok(InterpretValue::I32(-3))));
    assert!(matches!(i32v(-7).rem(&i32v(2)), Ok(InterpretValue::I32(-1))));
    assert!(matches!(i32v(7).rem(&i32v(-2)), Ok(InterpretValue::I32(1))));
    assert!(matches!(i32v(i32::MIN).div(&i32v(-1)), Ok(InterpretValue::I32(i32::MIN))));
    assert!(matches!(i32v(i32::MIN).rem(&i32v(-1)), Ok(InterpretValue::I32(0))));
}

#[test]
fn mismatched_kinds_fail_with_operator_and_kinds() {
    let r = i32v(1).add(&InterpretValue::I64(1));
    assert!(matches!(
        r,
        Err(RuntimeError::UnsupportedBinary {
            operator: Operator::Plus,
            left: ValueKind::I32,
            right: ValueKind::I64
        })
    ));
}

#[test]
fn canonical_text_of_values() {
    assert_eq!(i32v(-120).as_string(), "-120");
    assert_eq!(InterpretValue::U64(u64::MAX).as_string(), "18446744073709551615");
    assert_eq!(InterpretValue::I64(i64::MIN).as_string(), "-9223372036854775808");
    assert_eq!(InterpretValue::Boolean(true).as_string(), "true");
    assert_eq!(InterpretValue::Boolean(false).as_string(), "false");
    assert_eq!(InterpretValue::String("hi".to_string()).as_string(), "hi");
    assert_eq!(InterpretValue::Void.as_string(), "void");
    assert_eq!(i32v(0).as_string(), "0");
}

#[test]
fn literals_become_values() {
    let lit = Literal::Numeric("42".to_string(), NumericType::U8);
    assert!(matches!(InterpretValue::from_literal(&lit), Ok(InterpretValue::U8(42))));
    let lit = Literal::Numeric("-128".to_string(), NumericType::I8);
    assert!(matches!(InterpretValue::from_literal(&lit), Ok(InterpretValue::I8(-128))));
    let lit = Literal::Numeric("256".to_string(), NumericType::U8);
    assert!(matches!(
        InterpretValue::from_literal(&lit),
        Err(RuntimeError::InvalidLiteral { .. })
    ));
    let lit = Literal::Boolean("true".to_string());
    assert!(matches!(InterpretValue::from_literal(&lit), Ok(InterpretValue::Boolean(true))));
    let lit = Literal::Boolean("yes".to_string());
    assert!(matches!(InterpretValue::from_literal(&lit), Ok(InterpretValue::Boolean(false))));
}

#[test]
fn subtraction_and_multiplication_wrap_around() {
    assert!(matches!(
        InterpretValue::U8(0).sub(&InterpretValue::U8(1)),
        Ok(InterpretValue::U8(255))
    ));
    assert!(matches!(
        InterpretValue::I16(i16::MIN).sub(&InterpretValue::I16(1)),
        Ok(InterpretValue::I16(i16::MAX))
    ));
    assert!(matches!(
        InterpretValue::U8(16).mul(&InterpretValue::U8(17)),
        Ok(InterpretValue::U8(16))
    ));
    assert!(matches!(
        InterpretValue::I8(-128).mul(&InterpretValue::I8(-1)),
        Ok(InterpretValue::I8(-128))
    ));
    assert!(matches!(
        InterpretValue::I32(100000).mul(&InterpretValue::I32(100000)),
        Ok(InterpretValue::I32(1410065408))
    ));
    assert!(matches!(
        InterpretValue::USize(usize::MAX).add(&InterpretValue::USize(2)),
        Ok(InterpretValue::USize(1))
    ));
    assert!(matches!(
        InterpretValue::ISize(isize::MIN).div(&InterpretValue::ISize(-1)),
        Ok(InterpretValue::ISize(isize::MIN))
    ));
    assert!(matches!(
        InterpretValue::U64(7).div(&InterpretValue::U64(2)),
        Ok(InterpretValue::U64(3))
    ));
    assert!(matches!(
        InterpretValue::U64(7).rem(&InterpretValue::U64(2)),
        Ok(InterpretValue::U64(1))
    ));
}

#[test]
fn every_binary_operator_fails_on_mismatched_kinds() {
    let a = InterpretValue::I32(1);
    let b = InterpretValue::U32(1);
    let operators = [
        Operator::Plus,
        Operator::Minus,
        Operator::Multiply,
        Operator::Divide,
        Operator::Modulus,
        Operator::Equals,
        Operator::NotEquals,
        Operator::Greater,
        Operator::Less,
        Operator::GreaterEquals,
        Operator::LessEquals,
        Operator::LogicalAnd,
        Operator::LogicalOr,
        Operator::BitAnd,
        Operator::BitOr,
    ];
    for operator in operators {
        match InterpretValue::binary(operator, &a, &b) {
            Err(RuntimeError::UnsupportedBinary { operator: found, left, right }) => {
                assert_eq!(found, operator);
                assert_eq!(left, ValueKind::I32);
                assert_eq!(right, ValueKind::U32);
            }
            other => panic!("unexpected result {:?}", other),
        }
    }
}

#[test]
fn strings_join_and_compare() {
    let a = InterpretValue::String("ab".to_string());
    let b = InterpretValue::String("cd".to_string());
    assert!(matches!(a.add(&b), Ok(InterpretValue::String(ref s)) if s == "abcd"));
    assert!(matches!(a.eq(&b), Ok(InterpretValue::Boolean(false))));
    assert!(matches!(a.neq(&b), Ok(InterpretValue::Boolean(true))));
    assert!(matches!(a.eq(&a.clone()), Ok(InterpretValue::Boolean(true))));
    assert!(matches!(a.sub(&b), Err(RuntimeError::UnsupportedBinary { .. })));
    assert!(matches!(a.lt(&b), Err(RuntimeError::UnsupportedBinary { .. })));
    assert!(matches!(a.add(&i32v(1)), Err(RuntimeError::UnsupportedBinary { .. })));
}

#[test]
fn comparisons_yield_booleans() {
    assert!(matches!(i32v(1).eq(&i32v(1)), Ok(InterpretValue::Boolean(true))));
    assert!(matches!(i32v(1).neq(&i32v(1)), Ok(InterpretValue::Boolean(false))));
    assert!(matches!(i32v(1).lt(&i32v(2)), Ok(InterpretValue::Boolean(true))));
    assert!(matches!(i32v(1).gt(&i32v(2)), Ok(InterpretValue::Boolean(false))));
    assert!(matches!(i32v(2).gte(&i32v(2)), Ok(InterpretValue::Boolean(true))));
    assert!(matches!(i32v(3).lte(&i32v(2)), Ok(InterpretValue::Boolean(false))));
    assert!(matches!(
        InterpretValue::Boolean(true).eq(&InterpretValue::Boolean(false)),
        Ok(InterpretValue::Boolean(false))
    ));
    assert!(matches!(
        InterpretValue::Boolean(true).lt(&InterpretValue::Boolean(false)),
        Err(RuntimeError::UnsupportedBinary { .. })
    ));
    assert!(matches!(
        InterpretValue::Void.eq(&InterpretValue::Void),
        Err(RuntimeError::UnsupportedBinary {
            operator: Operator::Equals,
            left: ValueKind::Void,
            right: ValueKind::Void
        })
    ));
}

#[test]
fn logical_operators_take_booleans_only() {
    let t = InterpretValue::Boolean(true);
    let f = InterpretValue::Boolean(false);
    assert!(matches!(t.and(&f), Ok(InterpretValue::Boolean(false))));
    assert!(matches!(t.or(&f), Ok(InterpretValue::Boolean(true))));
    assert!(matches!(t.not(), Ok(InterpretValue::Boolean(false))));
    assert!(matches!(i32v(1).and(&i32v(1)), Err(RuntimeError::UnsupportedBinary { .. })));
    assert!(matches!(
        i32v(1).not(),
        Err(RuntimeError::UnsupportedUnary { operator: Operator::LogicalNot, operand: ValueKind::I32 })
    ));
}

#[test]
fn bitwise_operators_take_integers_only() {
    assert!(matches!(
        InterpretValue::U8(0b1100).bitand(&InterpretValue::U8(0b1010)),
        Ok(InterpretValue::U8(0b1000))
    ));
    assert!(matches!(
        InterpretValue::U8(0b1100).bitor(&InterpretValue::U8(0b1010)),
        Ok(InterpretValue::U8(0b1110))
    ));
    assert!(matches!(InterpretValue::U8(0).bitnot(), Ok(InterpretValue::U8(255))));
    assert!(matches!(i32v(0).bitnot(), Ok(InterpretValue::I32(-1))));
    assert!(matches!(
        InterpretValue::I8(-1).bitand(&InterpretValue::I8(5)),
        Ok(InterpretValue::I8(5))
    ));
    assert!(matches!(
        InterpretValue::Boolean(true).bitand(&InterpretValue::Boolean(true)),
        Err(RuntimeError::UnsupportedBinary { .. })
    ));
    assert!(matches!(
        InterpretValue::Boolean(true).bitnot(),
        Err(RuntimeError::UnsupportedUnary { .. })
    ));
}

#[test]
fn negation_is_for_signed_integers() {
    assert!(matches!(i32v(5).neg(), Ok(InterpretValue::I32(-5))));
    assert!(matches!(InterpretValue::I8(i8::MIN).neg(), Ok(InterpretValue::I8(i8::MIN))));
    assert!(matches!(
        InterpretValue::U8(5).neg(),
        Err(RuntimeError::UnsupportedUnary { operator: Operator::Minus, operand: ValueKind::U8 })
    ));
    assert!(matches!(
        InterpretValue::unary(Operator::Plus, &i32v(1)),
        Err(RuntimeError::UnknownUnaryOperator { operator: Operator::Plus })
    ));
    assert!(matches!(
        InterpretValue::binary(Operator::BitNot, &i32v(1), &i32v(1)),
        Err(RuntimeError::UnknownBinaryOperator { operator: Operator::BitNot })
    ));
}

#[test]
fn integers_of_values() {
    assert_eq!(InterpretValue::I8(-3).as_integer(), -3);
    assert_eq!(InterpretValue::U32(7).as_integer(), 7);
    assert_eq!(InterpretValue::Boolean(true).as_integer(), 0);
    assert_eq!(InterpretValue::String("12".to_string()).as_integer(), 0);
    assert_eq!(InterpretValue::Void.as_integer(), 0);
}

#[test]
fn floating_point_literals_are_rejected() {
    let lit = Literal::Numeric("1.5".to_string(), NumericType::F64);
    assert!(matches!(
        InterpretValue::from_literal(&lit),
        Err(RuntimeError::InvalidLiteral { ty: NumericType::F64, .. })
    ));
    let lit = Literal::Numeric("1".to_string(), NumericType::F32);
    assert!(InterpretValue::from_literal(&lit).is_err());
}

#[test]
fn kinds_of_values() {
    assert_eq!(i32v(1).kind(), ValueKind::I32);
    assert_eq!(InterpretValue::Void.kind(), ValueKind::Void);
    assert_eq!(InterpretValue::String(String::new()).kind(), ValueKind::String);
    assert_eq!(InterpretValue::kind_of(NumericType::USize), Some(ValueKind::USize));
    assert_eq!(InterpretValue::kind_of(NumericType::F32), None);
}
