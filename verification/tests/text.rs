use script_core::error::ValueKind;
use script_core::native_functions::{exit, print};
use script_core::text::{integer_to_string, kind_bounds, read_integer};
use script_core::value::InterpretValue;

#[test]
fn integers_are_written_in_decimal() {
    assert_eq!(integer_to_string(0), "0");
    assert_eq!(integer_to_string(7), "7");
    assert_eq!(integer_to_string(10), "10");
    assert_eq!(integer_to_string(-1), "-1");
    assert_eq!(integer_to_string(1234567890), "1234567890");
    assert_eq!(integer_to_string(i128::MAX), "170141183460469231731687303715884105727");
    assert_eq!(integer_to_string(i128::MIN), "-170141183460469231731687303715884105728");
}

#[test]
fn integers_are_read_from_decimal() {
    assert_eq!(read_integer("0", ValueKind::I32), Some(0));
    assert_eq!(read_integer("+5", ValueKind::U8), Some(5));
    assert_eq!(read_integer("-5", ValueKind::I8), Some(-5));
    assert_eq!(read_integer("-0", ValueKind::I8), Some(0));
    assert_eq!(read_integer("00012", ValueKind::U16), Some(12));
    assert_eq!(read_integer("127", ValueKind::I8), Some(127));
    assert_eq!(read_integer("-128", ValueKind::I8), Some(-128));
    assert_eq!(
        read_integer("18446744073709551615", ValueKind::U64),
        Some(18446744073709551615)
    );
    assert_eq!(
        read_integer("-9223372036854775808", ValueKind::I64),
        Some(-9223372036854775808)
    );
}

#[test]
fn malformed_or_oversized_text_is_no_integer() {
    assert_eq!(read_integer("", ValueKind::I32), None);
    assert_eq!(read_integer("-", ValueKind::I32), None);
    assert_eq!(read_integer("+", ValueKind::I32), None);
    assert_eq!(read_integer("-1", ValueKind::U32), None);
    assert_eq!(read_integer("-0", ValueKind::U32), None);
    assert_eq!(read_integer("1_000", ValueKind::I32), None);
    assert_eq!(read_integer("12a", ValueKind::I32), None);
    assert_eq!(read_integer(" 1", ValueKind::I32), None);
    assert_eq!(read_integer("1.5", ValueKind::I32), None);
    assert_eq!(read_integer("128", ValueKind::I8), None);
    assert_eq!(read_integer("-129", ValueKind::I8), None);
    assert_eq!(read_integer("256", ValueKind::U8), None);
    assert_eq!(read_integer("18446744073709551616", ValueKind::U64), None);
    assert_eq!(
        read_integer("9999999999999999999999999999999999999999999999", ValueKind::I64),
        None
    );
    assert_eq!(read_integer("++1", ValueKind::I32), None);
}

#[test]
fn bounds_of_the_kinds() {
    assert_eq!(kind_bounds(ValueKind::I8), (-128, 127));
    assert_eq!(kind_bounds(ValueKind::U16), (0, 65535));
    assert_eq!(kind_bounds(ValueKind::I64), (i64::MIN as i128, i64::MAX as i128));
    assert_eq!(kind_bounds(ValueKind::Boolean), (0, 0));
}

#[test]
fn print_computes_its_line() {
    assert_eq!(print(&vec![]), "");
    assert_eq!(print(&vec![InterpretValue::I32(5)]), "5");
    assert_eq!(print(&vec![InterpretValue::String("{}".to_string())]), "{}");
    assert_eq!(
        print(&vec![
            InterpretValue::String("{} and {}".to_string()),
            InterpretValue::I32(1),
            InterpretValue::String("two".to_string()),
        ]),
        "1 and two"
    );
    assert_eq!(
        print(&vec![
            InterpretValue::String("a{}b{}c{}".to_string()),
            InterpretValue::Boolean(true),
            InterpretValue::Void,
        ]),
        "atruebvoidc{}"
    );
    assert_eq!(
        print(&vec![
            InterpretValue::String("{}{}".to_string()),
            InterpretValue::String("{}".to_string()),
            InterpretValue::I32(1),
        ]),
        "{}1"
    );
    assert_eq!(
        print(&vec![InterpretValue::I32(1), InterpretValue::String("x".to_string())]),
        "1 x "
    );
    assert_eq!(
        print(&vec![InterpretValue::String("é{}ü".to_string()), InterpretValue::U8(3)]),
        "é3ü"
    );
}

#[test]
fn exit_computes_its_code() {
    assert_eq!(exit(&vec![]), 0);
    assert_eq!(exit(&vec![InterpretValue::I32(7)]), 7);
    assert_eq!(exit(&vec![InterpretValue::I64(-1)]), -1);
    assert_eq!(exit(&vec![InterpretValue::U64(4294967296 + 9)]), 9);
    assert_eq!(exit(&vec![InterpretValue::String("7".to_string())]), 0);
    assert_eq!(exit(&vec![InterpretValue::Boolean(true), InterpretValue::I32(7)]), 0);
}
