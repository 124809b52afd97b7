//! Decimal text: how integers are written out and read back.

use crate::error::ValueKind;
use vstd::prelude::*;
use vstd::string::*;

verus! {

/// The character of a decimal digit.
pub open spec fn digit_char(d: int) -> char {
    if d == 0 {
        '0'
    } else if d == 1 {
        '1'
    } else if d == 2 {
        '2'
    } else if d == 3 {
        '3'
    } else if d == 4 {
        '4'
    } else if d == 5 {
        '5'
    } else if d == 6 {
        '6'
    } else if d == 7 {
        '7'
    } else if d == 8 {
        '8'
    } else {
        '9'
    }
}

/// The digits of a natural number, most significant first, without leading
/// zeros; zero is the single digit `0`.
pub open spec fn decimal_digits(n: nat) -> Seq<char>
    decreases n,
{
    if n < 10 {
        seq![digit_char(n as int)]
    } else {
        decimal_digits(n / 10).push(digit_char((n % 10) as int))
    }
}

/// The decimal text of an integer: a minus sign before the digits of a
/// negative one.
pub open spec fn decimal_text(x: int) -> Seq<char> {
    if x < 0 {
        seq!['-'] + decimal_digits((-x) as nat)
    } else {
        decimal_digits(x as nat)
    }
}

/// Whether a character is a decimal digit.
pub open spec fn is_digit(c: char) -> bool {
    '0' <= c && c <= '9'
}

/// The number a decimal digit stands for.
pub open spec fn digit_value(c: char) -> int {
    c as int - '0' as int
}

/// Whether a text consists of decimal digits only.
pub open spec fn all_digits(s: Seq<char>) -> bool {
    forall|i: int| 0 <= i < s.len() ==> is_digit(#[trigger] s[i])
}

/// The number that a sequence of decimal digits stands for.
pub open spec fn digits_value(s: Seq<char>) -> int
    decreases s.len(),
{
    if s.len() == 0 {
        0
    } else {
        digits_value(s.drop_last()) * 10 + digit_value(s.last())
    }
}

/// Whether the text begins with a sign that the kind accepts: `+` for every
/// kind, `-` for the signed ones.
pub open spec fn has_sign(text: Seq<char>, kind: ValueKind) -> bool {
    text.len() > 0 && (text[0] == '+' || (text[0] == '-' && kind.is_signed()))
}

/// The integer that a text spells in a given integer kind: an optional sign,
/// then at least one digit, the whole within the kind; `None` for any other
/// text.
pub open spec fn parse_integer(text: Seq<char>, kind: ValueKind) -> Option<int> {
    let digits = if has_sign(text, kind) {
        text.subrange(1, text.len() as int)
    } else {
        text
    };
    let value = if has_sign(text, kind) && text[0] == '-' {
        -digits_value(digits)
    } else {
        digits_value(digits)
    };
    if digits.len() > 0 && all_digits(digits) && kind.holds(value) {
        Some(value)
    } else {
        None
    }
}

/// The text of one decimal digit.
fn digit_str(d: u8) -> (s: &'static str)
    requires
        d < 10,
    ensures
        s@ == seq![digit_char(d as int)],
{
    proof {
        reveal_strlit("0");
        reveal_strlit("1");
        reveal_strlit("2");
        reveal_strlit("3");
        reveal_strlit("4");
        reveal_strlit("5");
        reveal_strlit("6");
        reveal_strlit("7");
        reveal_strlit("8");
        reveal_strlit("9");
    }
    let s = if d == 0 {
        "0"
    } else if d == 1 {
        "1"
    } else if d == 2 {
        "2"
    } else if d == 3 {
        "3"
    } else if d == 4 {
        "4"
    } else if d == 5 {
        "5"
    } else if d == 6 {
        "6"
    } else if d == 7 {
        "7"
    } else if d == 8 {
        "8"
    } else {
        "9"
    };
    assert(s@ =~= seq![digit_char(d as int)]);
    s
}

/// Appends the digits of a natural number to a text.
fn push_digits(out: &mut String, n: u128)
    ensures
        final(out)@ == old(out)@ + decimal_digits(n as nat),
    decreases n,
{
    if n >= 10 {
        push_digits(out, n / 10);
    }
    let d: u8 = (n % 10) as u8;
    out.append(digit_str(d));
    assert(final(out)@ =~= old(out)@ + decimal_digits(n as nat));
}

/// The decimal text of an integer.
pub fn integer_to_string(x: i128) -> (s: String)
    ensures
        s@ == decimal_text(x as int),
{
    let mut out = String::new();
    if x < 0 {
        proof {
            reveal_strlit("-");
        }
        out.append("-");
        let m: u128 = if x == i128::MIN {
            0x8000_0000_0000_0000_0000_0000_0000_0000u128
        } else {
            (-x) as u128
        };
        push_digits(&mut out, m);
        assert(out@ =~= decimal_text(x as int));
    } else {
        push_digits(&mut out, x as u128);
        assert(out@ =~= decimal_text(x as int));
    }
    out
}

/// The least and the greatest integer of a kind.
pub fn kind_bounds(kind: ValueKind) -> (r: (i128, i128))
    ensures
        r.0 == kind.min(),
        r.1 == kind.max(),
{
    match kind {
        ValueKind::I8 => (i8::MIN as i128, i8::MAX as i128),
        ValueKind::I16 => (i16::MIN as i128, i16::MAX as i128),
        ValueKind::I32 => (i32::MIN as i128, i32::MAX as i128),
        ValueKind::I64 => (i64::MIN as i128, i64::MAX as i128),
        ValueKind::ISize => (isize::MIN as i128, isize::MAX as i128),
        ValueKind::U8 => (0, u8::MAX as i128),
        ValueKind::U16 => (0, u16::MAX as i128),
        ValueKind::U32 => (0, u32::MAX as i128),
        ValueKind::U64 => (0, u64::MAX as i128),
        ValueKind::USize => (0, usize::MAX as i128),
        _ => (0, 0),
    }
}

/// Whether a kind is a signed integer kind.
pub fn kind_is_signed(kind: ValueKind) -> (r: bool)
    ensures
        r == kind.is_signed(),
{
    match kind {
        ValueKind::I8 | ValueKind::I16 | ValueKind::I32 | ValueKind::I64 | ValueKind::ISize => true,
        _ => false,
    }
}

/// Reads an integer of the given kind from its decimal text.
pub fn read_integer(text: &str, kind: ValueKind) -> (r: Option<i128>)
    ensures
        match r {
            Some(v) => parse_integer(text@, kind) == Some(v as int),
            None => parse_integer(text@, kind) is None,
        },
{
    let n = text.unicode_len();
    if n == 0 {
        return None;
    }
    let first = text.get_char(0);
    let negative = first == '-' && kind_is_signed(kind);
    let start: usize = if negative || first == '+' {
        1
    } else {
        0
    };
    let ghost digits = text@.subrange(start as int, n as int);
    proof {
        assert(has_sign(text@, kind) == (start == 1));
        assert(text@.subrange(0, n as int) =~= text@);
    }
    if start == n {
        return None;
    }
    let mut acc: u128 = 0;
    let mut big = false;
    let mut i = start;
    while i < n
        invariant
            start <= i <= n,
            n == text@.len(),
            digits == text@.subrange(start as int, n as int),
            digits.len() == n - start,
            digits == (if has_sign(text@, kind) {
                text@.subrange(1, text@.len() as int)
            } else {
                text@
            }),
            all_digits(text@.subrange(start as int, i as int)),
            !big ==> acc == digits_value(text@.subrange(start as int, i as int)) && acc
                <= 0x1_0000_0000_0000_0000,
            big ==> digits_value(text@.subrange(start as int, i as int)) > 0x1_0000_0000_0000_0000,
        decreases n - i,
    {
        let c = text.get_char(i);
        let ghost before = text@.subrange(start as int, i as int);
        let ghost after = text@.subrange(start as int, i + 1);
        proof {
            assert(after.drop_last() =~= before);
            assert(after.last() == c);
        }
        if !(c >= '0' && c <= '9') {
            proof {
                assert(digits[i - start] == c);
            }
            return None;
        }
        let d: u128 = (c as u32 - '0' as u32) as u128;
        if !big {
            acc = acc * 10 + d;
            if acc > 0x1_0000_0000_0000_0000 {
                big = true;
            }
        }
        proof {
            assert forall|k: int| 0 <= k < after.len() implies is_digit(#[trigger] after[k]) by {
                if k < before.len() {
                    assert(after[k] == before[k]);
                }
            }
        }
        i = i + 1;
    }
    proof {
        assert(text@.subrange(start as int, i as int) =~= digits);
    }
    proof {
        assert(kind.max() <= u64::MAX && kind.min() >= i64::MIN);
    }
    if big {
        return None;
    }
    let value: i128 = if negative {
        -(acc as i128)
    } else {
        acc as i128
    };
    let (lo, hi) = kind_bounds(kind);
    if lo <= value && value <= hi {
        Some(value)
    } else {
        None
    }
}

} // verus!
