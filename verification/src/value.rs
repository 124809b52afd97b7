//! The runtime value model: a closed set of kinds, each with its operators.
//!
//! Every operator builds a new value. An operator applied to kinds it is not
//! defined on fails and reports the operator and the kinds it met.

use crate::arith::{
    law_wrap_is_congruent,
    lemma_euclid_by_magnitude,
    lemma_kind_shape,
    lemma_wrap_shift,
    magnitude,
    trunc_div,
    trunc_rem,
    wrap,
};
use crate::ast::{Literal, NumericType, Operator};
use crate::error::{RuntimeError, RuntimeErrorView, ValueKind};
use crate::text::{decimal_text, integer_to_string, parse_integer, read_integer};
use vstd::arithmetic::div_mod::{lemma_fundamental_div_mod, lemma_mod_bound};
use vstd::prelude::*;
use vstd::string::*;

verus! {

/// A runtime value.
#[derive(Debug)]
pub enum InterpretValue {
    I8(i8),
    I16(i16),
    I32(i32),
    I64(i64),
    ISize(isize),
    U8(u8),
    U16(u16),
    U32(u32),
    U64(u64),
    USize(usize),
    Boolean(bool),
    String(String),
    Void,
}

/// The mathematical value of an [`InterpretValue`]: an integer of some
/// integer kind, a truth value, a text, or nothing.
pub enum ValueView {
    Int { kind: ValueKind, value: int },
    Boolean(bool),
    Str(Seq<char>),
    Void,
}

impl ValueView {
    /// The kind of the value.
    pub open spec fn kind(self) -> ValueKind {
        match self {
            ValueView::Int { kind, .. } => kind,
            ValueView::Boolean(_) => ValueKind::Boolean,
            ValueView::Str(_) => ValueKind::String,
            ValueView::Void => ValueKind::Void,
        }
    }

    /// An integer value names an integer kind and lies within it.
    pub open spec fn wf(self) -> bool {
        match self {
            ValueView::Int { kind, value } => kind.is_integer() && kind.holds(value),
            _ => true,
        }
    }
}

impl View for InterpretValue {
    type V = ValueView;

    open spec fn view(&self) -> ValueView {
        match self {
            InterpretValue::I8(v) => ValueView::Int { kind: ValueKind::I8, value: *v as int },
            InterpretValue::I16(v) => ValueView::Int { kind: ValueKind::I16, value: *v as int },
            InterpretValue::I32(v) => ValueView::Int { kind: ValueKind::I32, value: *v as int },
            InterpretValue::I64(v) => ValueView::Int { kind: ValueKind::I64, value: *v as int },
            InterpretValue::ISize(v) => ValueView::Int { kind: ValueKind::ISize, value: *v as int },
            InterpretValue::U8(v) => ValueView::Int { kind: ValueKind::U8, value: *v as int },
            InterpretValue::U16(v) => ValueView::Int { kind: ValueKind::U16, value: *v as int },
            InterpretValue::U32(v) => ValueView::Int { kind: ValueKind::U32, value: *v as int },
            InterpretValue::U64(v) => ValueView::Int { kind: ValueKind::U64, value: *v as int },
            InterpretValue::USize(v) => ValueView::Int { kind: ValueKind::USize, value: *v as int },
            InterpretValue::Boolean(b) => ValueView::Boolean(*b),
            InterpretValue::String(s) => ValueView::Str(s@),
            InterpretValue::Void => ValueView::Void,
        }
    }
}

/// The mathematical values of a sequence of values.
pub open spec fn views(values: Seq<InterpretValue>) -> Seq<ValueView> {
    Seq::new(values.len(), |i: int| values[i]@)
}

/// What an operator yields: a value, or the reason why there is none.
pub type Outcome = Result<ValueView, RuntimeErrorView>;

/// The mathematical value of an operator's result.
pub open spec fn outcome(r: Result<InterpretValue, RuntimeError>) -> Outcome {
    match r {
        Ok(v) => Ok(v@),
        Err(e) => Err(e@),
    }
}

/// The failure of a binary operator on the kinds of `a` and `b`.
pub open spec fn unsupported_binary(operator: Operator, a: ValueView, b: ValueView) -> Outcome {
    Err(RuntimeErrorView::UnsupportedBinary { operator, left: a.kind(), right: b.kind() })
}

/// The failure of a unary operator on the kind of `a`.
pub open spec fn unsupported_unary(operator: Operator, a: ValueView) -> Outcome {
    Err(RuntimeErrorView::UnsupportedUnary { operator, operand: a.kind() })
}

/// Whether both values are integers of one and the same kind.
pub open spec fn same_integer_kind(a: ValueView, b: ValueView) -> bool {
    a is Int && b is Int && a->kind == b->kind
}

/// The bits that two integers of a kind have in common.
pub open spec fn bits_and(kind: ValueKind, x: int, y: int) -> int {
    match kind {
        ValueKind::I8 => ((x as i8) & (y as i8)) as int,
        ValueKind::I16 => ((x as i16) & (y as i16)) as int,
        ValueKind::I32 => ((x as i32) & (y as i32)) as int,
        ValueKind::I64 => ((x as i64) & (y as i64)) as int,
        ValueKind::ISize => ((x as isize) & (y as isize)) as int,
        ValueKind::U8 => ((x as u8) & (y as u8)) as int,
        ValueKind::U16 => ((x as u16) & (y as u16)) as int,
        ValueKind::U32 => ((x as u32) & (y as u32)) as int,
        ValueKind::U64 => ((x as u64) & (y as u64)) as int,
        ValueKind::USize => ((x as usize) & (y as usize)) as int,
        _ => 0,
    }
}

/// The bits that either of two integers of a kind has.
pub open spec fn bits_or(kind: ValueKind, x: int, y: int) -> int {
    match kind {
        ValueKind::I8 => ((x as i8) | (y as i8)) as int,
        ValueKind::I16 => ((x as i16) | (y as i16)) as int,
        ValueKind::I32 => ((x as i32) | (y as i32)) as int,
        ValueKind::I64 => ((x as i64) | (y as i64)) as int,
        ValueKind::ISize => ((x as isize) | (y as isize)) as int,
        ValueKind::U8 => ((x as u8) | (y as u8)) as int,
        ValueKind::U16 => ((x as u16) | (y as u16)) as int,
        ValueKind::U32 => ((x as u32) | (y as u32)) as int,
        ValueKind::U64 => ((x as u64) | (y as u64)) as int,
        ValueKind::USize => ((x as usize) | (y as usize)) as int,
        _ => 0,
    }
}

/// The integer of a kind whose bits are the opposite of those of `x`.
pub open spec fn bits_not(kind: ValueKind, x: int) -> int {
    match kind {
        ValueKind::I8 => (!(x as i8)) as int,
        ValueKind::I16 => (!(x as i16)) as int,
        ValueKind::I32 => (!(x as i32)) as int,
        ValueKind::I64 => (!(x as i64)) as int,
        ValueKind::ISize => (!(x as isize)) as int,
        ValueKind::U8 => (!(x as u8)) as int,
        ValueKind::U16 => (!(x as u16)) as int,
        ValueKind::U32 => (!(x as u32)) as int,
        ValueKind::U64 => (!(x as u64)) as int,
        ValueKind::USize => (!(x as usize)) as int,
        _ => 0,
    }
}

/// `a + b`: the wrapped sum of two integers of one kind, or two texts joined.
pub open spec fn spec_add(a: ValueView, b: ValueView) -> Outcome {
    if same_integer_kind(a, b) {
        Ok(ValueView::Int { kind: a->kind, value: wrap(a->kind, a->value + b->value) })
    } else if a is Str && b is Str {
        Ok(ValueView::Str(a->Str_0 + b->Str_0))
    } else {
        unsupported_binary(Operator::Plus, a, b)
    }
}

/// `a - b`: the wrapped difference of two integers of one kind.
pub open spec fn spec_sub(a: ValueView, b: ValueView) -> Outcome {
    if same_integer_kind(a, b) {
        Ok(ValueView::Int { kind: a->kind, value: wrap(a->kind, a->value - b->value) })
    } else {
        unsupported_binary(Operator::Minus, a, b)
    }
}

/// `a * b`: the wrapped product of two integers of one kind.
pub open spec fn spec_mul(a: ValueView, b: ValueView) -> Outcome {
    if same_integer_kind(a, b) {
        Ok(ValueView::Int { kind: a->kind, value: wrap(a->kind, a->value * b->value) })
    } else {
        unsupported_binary(Operator::Multiply, a, b)
    }
}

/// `a / b`: the quotient of two integers of one kind, rounded toward zero
/// and wrapped; a failure where `b` is zero.
pub open spec fn spec_div(a: ValueView, b: ValueView) -> Outcome {
    if same_integer_kind(a, b) {
        if b->value == 0 {
            Err(RuntimeErrorView::DivisionByZero)
        } else {
            Ok(
                ValueView::Int {
                    kind: a->kind,
                    value: wrap(a->kind, trunc_div(a->value, b->value)),
                },
            )
        }
    } else {
        unsupported_binary(Operator::Divide, a, b)
    }
}

/// `a % b`: the remainder of the truncating division of two integers of one
/// kind, which has the sign of `a`; a failure where `b` is zero.
pub open spec fn spec_rem(a: ValueView, b: ValueView) -> Outcome {
    if same_integer_kind(a, b) {
        if b->value == 0 {
            Err(RuntimeErrorView::DivisionByZero)
        } else {
            Ok(ValueView::Int { kind: a->kind, value: trunc_rem(a->value, b->value) })
        }
    } else {
        unsupported_binary(Operator::Modulus, a, b)
    }
}

/// Whether two values can be compared for equality: integers of one kind,
/// two truth values or two texts.
pub open spec fn equatable(a: ValueView, b: ValueView) -> bool {
    same_integer_kind(a, b) || (a is Boolean && b is Boolean) || (a is Str && b is Str)
}

/// `a == b`.
pub open spec fn spec_eq(a: ValueView, b: ValueView) -> Outcome {
    if equatable(a, b) {
        Ok(ValueView::Boolean(a == b))
    } else {
        unsupported_binary(Operator::Equals, a, b)
    }
}

/// `a != b`.
pub open spec fn spec_neq(a: ValueView, b: ValueView) -> Outcome {
    if equatable(a, b) {
        Ok(ValueView::Boolean(a != b))
    } else {
        unsupported_binary(Operator::NotEquals, a, b)
    }
}

/// `a > b`, on integers of one kind.
pub open spec fn spec_gt(a: ValueView, b: ValueView) -> Outcome {
    if same_integer_kind(a, b) {
        Ok(ValueView::Boolean(a->value > b->value))
    } else {
        unsupported_binary(Operator::Greater, a, b)
    }
}

/// `a < b`, on integers of one kind.
pub open spec fn spec_lt(a: ValueView, b: ValueView) -> Outcome {
    if same_integer_kind(a, b) {
        Ok(ValueView::Boolean(a->value < b->value))
    } else {
        unsupported_binary(Operator::Less, a, b)
    }
}

/// `a >= b`, on integers of one kind.
pub open spec fn spec_gte(a: ValueView, b: ValueView) -> Outcome {
    if same_integer_kind(a, b) {
        Ok(ValueView::Boolean(a->value >= b->value))
    } else {
        unsupported_binary(Operator::GreaterEquals, a, b)
    }
}

/// `a <= b`, on integers of one kind.
pub open spec fn spec_lte(a: ValueView, b: ValueView) -> Outcome {
    if same_integer_kind(a, b) {
        Ok(ValueView::Boolean(a->value <= b->value))
    } else {
        unsupported_binary(Operator::LessEquals, a, b)
    }
}

/// `a && b`, on truth values.
pub open spec fn spec_and(a: ValueView, b: ValueView) -> Outcome {
    if a is Boolean && b is Boolean {
        Ok(ValueView::Boolean(a->Boolean_0 && b->Boolean_0))
    } else {
        unsupported_binary(Operator::LogicalAnd, a, b)
    }
}

/// `a || b`, on truth values.
pub open spec fn spec_or(a: ValueView, b: ValueView) -> Outcome {
    if a is Boolean && b is Boolean {
        Ok(ValueView::Boolean(a->Boolean_0 || b->Boolean_0))
    } else {
        unsupported_binary(Operator::LogicalOr, a, b)
    }
}

/// `!a`, on a truth value.
pub open spec fn spec_not(a: ValueView) -> Outcome {
    if a is Boolean {
        Ok(ValueView::Boolean(!a->Boolean_0))
    } else {
        unsupported_unary(Operator::LogicalNot, a)
    }
}

/// `a & b`, on integers of one kind.
pub open spec fn spec_bitand(a: ValueView, b: ValueView) -> Outcome {
    if same_integer_kind(a, b) {
        Ok(ValueView::Int { kind: a->kind, value: bits_and(a->kind, a->value, b->value) })
    } else {
        unsupported_binary(Operator::BitAnd, a, b)
    }
}

/// `a | b`, on integers of one kind.
pub open spec fn spec_bitor(a: ValueView, b: ValueView) -> Outcome {
    if same_integer_kind(a, b) {
        Ok(ValueView::Int { kind: a->kind, value: bits_or(a->kind, a->value, b->value) })
    } else {
        unsupported_binary(Operator::BitOr, a, b)
    }
}

/// `~a`, on an integer.
pub open spec fn spec_bitnot(a: ValueView) -> Outcome {
    if a is Int {
        Ok(ValueView::Int { kind: a->kind, value: bits_not(a->kind, a->value) })
    } else {
        unsupported_unary(Operator::BitNot, a)
    }
}

/// `-a`: the wrapped negation of a signed integer.
pub open spec fn spec_neg(a: ValueView) -> Outcome {
    if a is Int && a->kind.is_signed() {
        Ok(ValueView::Int { kind: a->kind, value: wrap(a->kind, -a->value) })
    } else {
        unsupported_unary(Operator::Minus, a)
    }
}

/// What a binary operator yields on two values.
pub open spec fn spec_binary(operator: Operator, a: ValueView, b: ValueView) -> Outcome {
    match operator {
        Operator::Plus => spec_add(a, b),
        Operator::Minus => spec_sub(a, b),
        Operator::Multiply => spec_mul(a, b),
        Operator::Divide => spec_div(a, b),
        Operator::Modulus => spec_rem(a, b),
        Operator::Equals => spec_eq(a, b),
        Operator::NotEquals => spec_neq(a, b),
        Operator::Greater => spec_gt(a, b),
        Operator::Less => spec_lt(a, b),
        Operator::GreaterEquals => spec_gte(a, b),
        Operator::LessEquals => spec_lte(a, b),
        Operator::LogicalAnd => spec_and(a, b),
        Operator::LogicalOr => spec_or(a, b),
        Operator::BitAnd => spec_bitand(a, b),
        Operator::BitOr => spec_bitor(a, b),
        _ => Err(RuntimeErrorView::UnknownBinaryOperator { operator }),
    }
}

/// What a unary operator yields on a value.
pub open spec fn spec_unary(operator: Operator, a: ValueView) -> Outcome {
    match operator {
        Operator::Minus => spec_neg(a),
        Operator::LogicalNot => spec_not(a),
        Operator::BitNot => spec_bitnot(a),
        _ => Err(RuntimeErrorView::UnknownUnaryOperator { operator }),
    }
}

/// The integer kind that a numeric type names; the floating-point types
/// name none.
pub open spec fn integer_kind(ty: NumericType) -> Option<ValueKind> {
    match ty {
        NumericType::I8 => Some(ValueKind::I8),
        NumericType::I16 => Some(ValueKind::I16),
        NumericType::I32 => Some(ValueKind::I32),
        NumericType::I64 => Some(ValueKind::I64),
        NumericType::ISize => Some(ValueKind::ISize),
        NumericType::U8 => Some(ValueKind::U8),
        NumericType::U16 => Some(ValueKind::U16),
        NumericType::U32 => Some(ValueKind::U32),
        NumericType::U64 => Some(ValueKind::U64),
        NumericType::USize => Some(ValueKind::USize),
        NumericType::F32 => None,
        NumericType::F64 => None,
    }
}

/// The word that stands for truth in a boolean literal.
pub open spec fn true_word() -> Seq<char> {
    seq!['t', 'r', 'u', 'e']
}

/// The value that a literal stands for: the integer that a numeric literal
/// spells in its kind, the text of a string literal, and truth for the
/// boolean literal `true` alone.
pub open spec fn spec_from_literal(lit: Literal) -> Outcome {
    match lit {
        Literal::Numeric(text, ty) => match integer_kind(ty) {
            Some(kind) => match parse_integer(text@, kind) {
                Some(value) => Ok(ValueView::Int { kind, value }),
                None => Err(RuntimeErrorView::InvalidLiteral { text: text@, ty }),
            },
            None => Err(RuntimeErrorView::InvalidLiteral { text: text@, ty }),
        },
        Literal::String(text) => Ok(ValueView::Str(text@)),
        Literal::Boolean(word) => Ok(ValueView::Boolean(word@ == true_word())),
    }
}

/// The canonical text of a value: decimal digits for an integer, `true` or
/// `false` for a truth value, the text itself for a text, `void` for nothing.
pub open spec fn spec_as_string(v: ValueView) -> Seq<char> {
    match v {
        ValueView::Int { value, .. } => decimal_text(value),
        ValueView::Boolean(b) => if b {
            true_word()
        } else {
            seq!['f', 'a', 'l', 's', 'e']
        },
        ValueView::Str(s) => s,
        ValueView::Void => seq!['v', 'o', 'i', 'd'],
    }
}

/// An integer value cut to the width of the machine's signed word; zero for
/// every other value.
pub open spec fn spec_as_integer(v: ValueView) -> isize {
    match v {
        ValueView::Int { value, .. } => value as isize,
        _ => 0,
    }
}

/// An exact result that lies at most one range outside its kind wraps to
/// the integer one range nearer.
proof fn lemma_wrap_near(kind: ValueKind, x: int)
    requires
        kind.is_integer(),
        kind.min() - kind.range() <= x <= kind.max() + kind.range(),
    ensures
        wrap(kind, x) == (if x > kind.max() {
            x - kind.range()
        } else if x < kind.min() {
            x + kind.range()
        } else {
            x
        }),
{
    lemma_kind_shape(kind);
    if x > kind.max() {
        lemma_wrap_shift(kind, x, 1);
    } else if x < kind.min() {
        lemma_wrap_shift(kind, x, -1);
    } else {
        lemma_wrap_shift(kind, x, 0);
    }
}

/// The quotient that the machine computes for two integers of a kind is the
/// truncating quotient, and it lies within the kind unless the least
/// integer is divided by minus one, where it wraps to the least integer.
proof fn lemma_machine_div(kind: ValueKind, a: int, b: int)
    requires
        kind.is_integer(),
        kind.holds(a),
        kind.holds(b),
        b != 0,
    ensures
        trunc_div(a, b) == (if a >= 0 {
            a / b
        } else {
            -((-a) / b)
        }),
        a == kind.min() && b == -1 ==> wrap(kind, trunc_div(a, b)) == kind.min(),
        !(a == kind.min() && b == -1) ==> kind.holds(trunc_div(a, b)) && wrap(
            kind,
            trunc_div(a, b),
        ) == trunc_div(a, b),
{
    lemma_kind_shape(kind);
    crate::arith::law_trunc_div_rem(a, b);
    lemma_euclid_by_magnitude(magnitude(a), b);
    if a == kind.min() && b == -1 {
        assert(magnitude(a) / 1 == magnitude(a));
        lemma_wrap_shift(kind, -a, 1);
    } else {
        let q = trunc_div(a, b);
        if a == kind.min() && kind.is_signed() && b != 1 {
            let x = magnitude(a);
            let d = magnitude(b);
            lemma_fundamental_div_mod(x, d);
            lemma_mod_bound(x, d);
            assert(2 * (x / d) <= x) by (nonlinear_arith)
                requires
                    x == d * (x / d) + x % d,
                    0 <= x % d,
                    d >= 2,
                    x >= 0,
            ;
        }
        law_wrap_is_congruent(kind, q);
    }
}

/// The remainder that the machine computes for two integers of a kind is
/// the truncating remainder, and it lies within the kind.
proof fn lemma_machine_rem(kind: ValueKind, a: int, b: int)
    requires
        kind.is_integer(),
        kind.holds(a),
        kind.holds(b),
        b != 0,
    ensures
        trunc_rem(a, b) == (if a >= 0 {
            a % b
        } else {
            -((-a) % b)
        }),
        kind.holds(trunc_rem(a, b)),
{
    lemma_kind_shape(kind);
    crate::arith::law_trunc_div_rem(a, b);
    lemma_euclid_by_magnitude(magnitude(a), b);
}

impl InterpretValue {
    /// The kind of the value.
    pub fn kind(&self) -> (k: ValueKind)
        ensures
            k == self@.kind(),
            self@.wf(),
    {
        match self {
            InterpretValue::I8(_) => ValueKind::I8,
            InterpretValue::I16(_) => ValueKind::I16,
            InterpretValue::I32(_) => ValueKind::I32,
            InterpretValue::I64(_) => ValueKind::I64,
            InterpretValue::ISize(_) => ValueKind::ISize,
            InterpretValue::U8(_) => ValueKind::U8,
            InterpretValue::U16(_) => ValueKind::U16,
            InterpretValue::U32(_) => ValueKind::U32,
            InterpretValue::U64(_) => ValueKind::U64,
            InterpretValue::USize(_) => ValueKind::USize,
            InterpretValue::Boolean(_) => ValueKind::Boolean,
            InterpretValue::String(_) => ValueKind::String,
            InterpretValue::Void => ValueKind::Void,
        }
    }

    /// The integer kind that a numeric type names, if it names one.
    pub fn kind_of(ty: NumericType) -> (r: Option<ValueKind>)
        ensures
            r == integer_kind(ty),
            r matches Some(kind) ==> kind.is_integer(),
    {
        match ty {
            NumericType::I8 => Some(ValueKind::I8),
            NumericType::I16 => Some(ValueKind::I16),
            NumericType::I32 => Some(ValueKind::I32),
            NumericType::I64 => Some(ValueKind::I64),
            NumericType::ISize => Some(ValueKind::ISize),
            NumericType::U8 => Some(ValueKind::U8),
            NumericType::U16 => Some(ValueKind::U16),
            NumericType::U32 => Some(ValueKind::U32),
            NumericType::U64 => Some(ValueKind::U64),
            NumericType::USize => Some(ValueKind::USize),
            NumericType::F32 => None,
            NumericType::F64 => None,
        }
    }

    /// The value of an integer kind that holds the given integer.
    fn from_integer(kind: ValueKind, value: i128) -> (r: InterpretValue)
        requires
            kind.is_integer(),
            kind.holds(value as int),
        ensures
            r@ == (ValueView::Int { kind, value: value as int }),
    {
        match kind {
            ValueKind::I8 => InterpretValue::I8(value as i8),
            ValueKind::I16 => InterpretValue::I16(value as i16),
            ValueKind::I32 => InterpretValue::I32(value as i32),
            ValueKind::I64 => InterpretValue::I64(value as i64),
            ValueKind::ISize => InterpretValue::ISize(value as isize),
            ValueKind::U8 => InterpretValue::U8(value as u8),
            ValueKind::U16 => InterpretValue::U16(value as u16),
            ValueKind::U32 => InterpretValue::U32(value as u32),
            ValueKind::U64 => InterpretValue::U64(value as u64),
            ValueKind::USize => InterpretValue::USize(value as usize),
            _ => InterpretValue::Void,
        }
    }

    /// Builds the value that a literal stands for. A numeric literal whose
    /// text is not an integer of its declared kind is rejected.
    pub fn from_literal(lit: &Literal) -> (r: Result<InterpretValue, RuntimeError>)
        ensures
            outcome(r) == spec_from_literal(*lit),
    {
        match lit {
            Literal::Numeric(text, ty) => {
                match InterpretValue::kind_of(*ty) {
                    Some(kind) => match read_integer(text.as_str(), kind) {
                        Some(value) => Ok(InterpretValue::from_integer(kind, value)),
                        None => Err(RuntimeError::InvalidLiteral { text: text.clone(), ty: *ty }),
                    },
                    None => Err(RuntimeError::InvalidLiteral { text: text.clone(), ty: *ty }),
                }
            },
            Literal::String(text) => Ok(InterpretValue::String(text.clone())),
            Literal::Boolean(word) => {
                proof {
                    reveal_strlit("true");
                }
                let truth = "true".to_owned();
                assert(truth@ =~= true_word());
                Ok(InterpretValue::Boolean(*word == truth))
            },
        }
    }

    /// The canonical text of the value.
    pub fn as_string(&self) -> (s: String)
        ensures
            s@ == spec_as_string(self@),
    {
        proof {
            reveal_strlit("true");
            reveal_strlit("false");
            reveal_strlit("void");
        }
        match self {
            InterpretValue::I8(v) => integer_to_string(*v as i128),
            InterpretValue::I16(v) => integer_to_string(*v as i128),
            InterpretValue::I32(v) => integer_to_string(*v as i128),
            InterpretValue::I64(v) => integer_to_string(*v as i128),
            InterpretValue::ISize(v) => integer_to_string(*v as i128),
            InterpretValue::U8(v) => integer_to_string(*v as i128),
            InterpretValue::U16(v) => integer_to_string(*v as i128),
            InterpretValue::U32(v) => integer_to_string(*v as i128),
            InterpretValue::U64(v) => integer_to_string(*v as i128),
            InterpretValue::USize(v) => integer_to_string(*v as i128),
            InterpretValue::Boolean(b) => {
                let s = if *b {
                    "true".to_owned()
                } else {
                    "false".to_owned()
                };
                assert(s@ =~= spec_as_string(self@));
                s
            },
            InterpretValue::String(s) => s.clone(),
            InterpretValue::Void => {
                let s = "void".to_owned();
                assert(s@ =~= spec_as_string(self@));
                s
            },
        }
    }

    /// The value as a machine integer: an integer value cut to the width of
    /// the machine's signed word, zero for every other value.
    pub fn as_integer(&self) -> (r: isize)
        ensures
            r == spec_as_integer(self@),
    {
        match self {
            InterpretValue::I8(v) => #[verifier::truncate]
            (*v as isize),
            InterpretValue::I16(v) => #[verifier::truncate]
            (*v as isize),
            InterpretValue::I32(v) => #[verifier::truncate]
            (*v as isize),
            InterpretValue::I64(v) => #[verifier::truncate]
            (*v as isize),
            InterpretValue::ISize(v) => *v,
            InterpretValue::U8(v) => #[verifier::truncate]
            (*v as isize),
            InterpretValue::U16(v) => #[verifier::truncate]
            (*v as isize),
            InterpretValue::U32(v) => #[verifier::truncate]
            (*v as isize),
            InterpretValue::U64(v) => #[verifier::truncate]
            (*v as isize),
            InterpretValue::USize(v) => #[verifier::truncate]
            (*v as isize),
            _ => 0,
        }
    }

    fn binary_failure(&self, other: &InterpretValue, operator: Operator) -> (r: Result<
        InterpretValue,
        RuntimeError,
    >)
        ensures
            outcome(r) == unsupported_binary(operator, self@, other@),
    {
        Err(RuntimeError::UnsupportedBinary { operator, left: self.kind(), right: other.kind() })
    }

    fn unary_failure(&self, operator: Operator) -> (r: Result<InterpretValue, RuntimeError>)
        ensures
            outcome(r) == unsupported_unary(operator, self@),
    {
        Err(RuntimeError::UnsupportedUnary { operator, operand: self.kind() })
    }

    /// Adds two integers of one kind, wrapping around, or joins two texts.
    pub fn add(&self, other: &InterpretValue) -> (r: Result<InterpretValue, RuntimeError>)
        ensures
            outcome(r) == spec_add(self@, other@),
    {
        match (self, other) {
            (InterpretValue::I8(a), InterpretValue::I8(b)) => {
                proof {
                    lemma_wrap_near(ValueKind::I8, *a + *b);
                }
                Ok(InterpretValue::I8(a.wrapping_add(*b)))
            },
            (InterpretValue::I16(a), InterpretValue::I16(b)) => {
                proof {
                    lemma_wrap_near(ValueKind::I16, *a + *b);
                }
                Ok(InterpretValue::I16(a.wrapping_add(*b)))
            },
            (InterpretValue::I32(a), InterpretValue::I32(b)) => {
                proof {
                    lemma_wrap_near(ValueKind::I32, *a + *b);
                }
                Ok(InterpretValue::I32(a.wrapping_add(*b)))
            },
            (InterpretValue::I64(a), InterpretValue::I64(b)) => {
                proof {
                    lemma_wrap_near(ValueKind::I64, *a + *b);
                }
                Ok(InterpretValue::I64(a.wrapping_add(*b)))
            },
            (InterpretValue::ISize(a), InterpretValue::ISize(b)) => {
                proof {
                    lemma_wrap_near(ValueKind::ISize, *a + *b);
                }
                Ok(InterpretValue::ISize(a.wrapping_add(*b)))
            },
            (InterpretValue::U8(a), InterpretValue::U8(b)) => {
                proof {
                    lemma_wrap_near(ValueKind::U8, *a + *b);
                }
                Ok(InterpretValue::U8(a.wrapping_add(*b)))
            },
            (InterpretValue::U16(a), InterpretValue::U16(b)) => {
                proof {
                    lemma_wrap_near(ValueKind::U16, *a + *b);
                }
                Ok(InterpretValue::U16(a.wrapping_add(*b)))
            },
            (InterpretValue::U32(a), InterpretValue::U32(b)) => {
                proof {
                    lemma_wrap_near(ValueKind::U32, *a + *b);
                }
                Ok(InterpretValue::U32(a.wrapping_add(*b)))
            },
            (InterpretValue::U64(a), InterpretValue::U64(b)) => {
                proof {
                    lemma_wrap_near(ValueKind::U64, *a + *b);
                }
                Ok(InterpretValue::U64(a.wrapping_add(*b)))
            },
            (InterpretValue::USize(a), InterpretValue::USize(b)) => {
                proof {
                    lemma_wrap_near(ValueKind::USize, *a + *b);
                }
                Ok(InterpretValue::USize(a.wrapping_add(*b)))
            },
            (InterpretValue::String(a), InterpretValue::String(b)) => {
                Ok(InterpretValue::String(a.clone().concat(b.as_str())))
            },
            _ => self.binary_failure(other, Operator::Plus),
        }
    }

    /// Subtracts two integers of one kind, wrapping around.
    pub fn sub(&self, other: &InterpretValue) -> (r: Result<InterpretValue, RuntimeError>)
        ensures
            outcome(r) == spec_sub(self@, other@),
    {
        match (self, other) {
            (InterpretValue::I8(a), InterpretValue::I8(b)) => {
                proof {
                    lemma_wrap_near(ValueKind::I8, *a - *b);
                }
                Ok(InterpretValue::I8(a.wrapping_sub(*b)))
            },
            (InterpretValue::I16(a), InterpretValue::I16(b)) => {
                proof {
                    lemma_wrap_near(ValueKind::I16, *a - *b);
                }
                Ok(InterpretValue::I16(a.wrapping_sub(*b)))
            },
            (InterpretValue::I32(a), InterpretValue::I32(b)) => {
                proof {
                    lemma_wrap_near(ValueKind::I32, *a - *b);
                }
                Ok(InterpretValue::I32(a.wrapping_sub(*b)))
            },
            (InterpretValue::I64(a), InterpretValue::I64(b)) => {
                proof {
                    lemma_wrap_near(ValueKind::I64, *a - *b);
                }
                Ok(InterpretValue::I64(a.wrapping_sub(*b)))
            },
            (InterpretValue::ISize(a), InterpretValue::ISize(b)) => {
                proof {
                    lemma_wrap_near(ValueKind::ISize, *a - *b);
                }
                Ok(InterpretValue::ISize(a.wrapping_sub(*b)))
            },
            (InterpretValue::U8(a), InterpretValue::U8(b)) => {
                proof {
                    lemma_wrap_near(ValueKind::U8, *a - *b);
                }
                Ok(InterpretValue::U8(a.wrapping_sub(*b)))
            },
            (InterpretValue::U16(a), InterpretValue::U16(b)) => {
                proof {
                    lemma_wrap_near(ValueKind::U16, *a - *b);
                }
                Ok(InterpretValue::U16(a.wrapping_sub(*b)))
            },
            (InterpretValue::U32(a), InterpretValue::U32(b)) => {
                proof {
                    lemma_wrap_near(ValueKind::U32, *a - *b);
                }
                Ok(InterpretValue::U32(a.wrapping_sub(*b)))
            },
            (InterpretValue::U64(a), InterpretValue::U64(b)) => {
                proof {
                    lemma_wrap_near(ValueKind::U64, *a - *b);
                }
                Ok(InterpretValue::U64(a.wrapping_sub(*b)))
            },
            (InterpretValue::USize(a), InterpretValue::USize(b)) => {
                proof {
                    lemma_wrap_near(ValueKind::USize, *a - *b);
                }
                Ok(InterpretValue::USize(a.wrapping_sub(*b)))
            },
            _ => self.binary_failure(other, Operator::Minus),
        }
    }

    /// Multiplies two integers of one kind, wrapping around.
    pub fn mul(&self, other: &InterpretValue) -> (r: Result<InterpretValue, RuntimeError>)
        ensures
            outcome(r) == spec_mul(self@, other@),
    {
        match (self, other) {
            (InterpretValue::I8(a), InterpretValue::I8(b)) => {
                proof {
                    lemma_kind_shape(ValueKind::I8);
                    lemma_mod_bound(*a * *b, ValueKind::I8.range());
                }
                Ok(InterpretValue::I8(a.wrapping_mul(*b)))
            },
            (InterpretValue::I16(a), InterpretValue::I16(b)) => {
                proof {
                    lemma_kind_shape(ValueKind::I16);
                    lemma_mod_bound(*a * *b, ValueKind::I16.range());
                }
                Ok(InterpretValue::I16(a.wrapping_mul(*b)))
            },
            (InterpretValue::I32(a), InterpretValue::I32(b)) => {
                proof {
                    lemma_kind_shape(ValueKind::I32);
                    lemma_mod_bound(*a * *b, ValueKind::I32.range());
                }
                Ok(InterpretValue::I32(a.wrapping_mul(*b)))
            },
            (InterpretValue::I64(a), InterpretValue::I64(b)) => {
                proof {
                    lemma_kind_shape(ValueKind::I64);
                    lemma_mod_bound(*a * *b, ValueKind::I64.range());
                }
                Ok(InterpretValue::I64(a.wrapping_mul(*b)))
            },
            (InterpretValue::ISize(a), InterpretValue::ISize(b)) => {
                proof {
                    lemma_kind_shape(ValueKind::ISize);
                    lemma_mod_bound(*a * *b, ValueKind::ISize.range());
                }
                Ok(InterpretValue::ISize(a.wrapping_mul(*b)))
            },
            (InterpretValue::U8(a), InterpretValue::U8(b)) => {
                proof {
                    lemma_kind_shape(ValueKind::U8);
                    lemma_mod_bound(*a * *b, ValueKind::U8.range());
                }
                Ok(InterpretValue::U8(a.wrapping_mul(*b)))
            },
            (InterpretValue::U16(a), InterpretValue::U16(b)) => {
                proof {
                    lemma_kind_shape(ValueKind::U16);
                    lemma_mod_bound(*a * *b, ValueKind::U16.range());
                }
                Ok(InterpretValue::U16(a.wrapping_mul(*b)))
            },
            (InterpretValue::U32(a), InterpretValue::U32(b)) => {
                proof {
                    lemma_kind_shape(ValueKind::U32);
                    lemma_mod_bound(*a * *b, ValueKind::U32.range());
                }
                Ok(InterpretValue::U32(a.wrapping_mul(*b)))
            },
            (InterpretValue::U64(a), InterpretValue::U64(b)) => {
                proof {
                    lemma_kind_shape(ValueKind::U64);
                    lemma_mod_bound(*a * *b, ValueKind::U64.range());
                }
                Ok(InterpretValue::U64(a.wrapping_mul(*b)))
            },
            (InterpretValue::USize(a), InterpretValue::USize(b)) => {
                proof {
                    lemma_kind_shape(ValueKind::USize);
                    lemma_mod_bound(*a * *b, ValueKind::USize.range());
                }
                Ok(InterpretValue::USize(a.wrapping_mul(*b)))
            },
            _ => self.binary_failure(other, Operator::Multiply),
        }
    }

    /// Divides two integers of one kind, rounding toward zero; fails on a zero
    /// divisor.
    pub fn div(&self, other: &InterpretValue) -> (r: Result<InterpretValue, RuntimeError>)
        ensures
            outcome(r) == spec_div(self@, other@),
    {
        match (self, other) {
            (InterpretValue::I8(a), InterpretValue::I8(b)) => {
                proof {
                    if *b != 0 {
                        lemma_machine_div(ValueKind::I8, *a as int, *b as int);
                    }
                }
                if *b == 0 {
                    Err(RuntimeError::DivisionByZero)
                } else if *a == i8::MIN && *b == -1 {
                    Ok(InterpretValue::I8(i8::MIN))
                } else {
                    Ok(InterpretValue::I8(*a / *b))
                }
            },
            (InterpretValue::I16(a), InterpretValue::I16(b)) => {
                proof {
                    if *b != 0 {
                        lemma_machine_div(ValueKind::I16, *a as int, *b as int);
                    }
                }
                if *b == 0 {
                    Err(RuntimeError::DivisionByZero)
                } else if *a == i16::MIN && *b == -1 {
                    Ok(InterpretValue::I16(i16::MIN))
                } else {
                    Ok(InterpretValue::I16(*a / *b))
                }
            },
            (InterpretValue::I32(a), InterpretValue::I32(b)) => {
                proof {
                    if *b != 0 {
                        lemma_machine_div(ValueKind::I32, *a as int, *b as int);
                    }
                }
                if *b == 0 {
                    Err(RuntimeError::DivisionByZero)
                } else if *a == i32::MIN && *b == -1 {
                    Ok(InterpretValue::I32(i32::MIN))
                } else {
                    Ok(InterpretValue::I32(*a / *b))
                }
            },
            (InterpretValue::I64(a), InterpretValue::I64(b)) => {
                proof {
                    if *b != 0 {
                        lemma_machine_div(ValueKind::I64, *a as int, *b as int);
                    }
                }
                if *b == 0 {
                    Err(RuntimeError::DivisionByZero)
                } else if *a == i64::MIN && *b == -1 {
                    Ok(InterpretValue::I64(i64::MIN))
                } else {
                    Ok(InterpretValue::I64(*a / *b))
                }
            },
            (InterpretValue::ISize(a), InterpretValue::ISize(b)) => {
                proof {
                    if *b != 0 {
                        lemma_machine_div(ValueKind::ISize, *a as int, *b as int);
                    }
                }
                if *b == 0 {
                    Err(RuntimeError::DivisionByZero)
                } else if *a == isize::MIN && *b == -1 {
                    Ok(InterpretValue::ISize(isize::MIN))
                } else {
                    Ok(InterpretValue::ISize(*a / *b))
                }
            },
            (InterpretValue::U8(a), InterpretValue::U8(b)) => {
                proof {
                    if *b != 0 {
                        lemma_machine_div(ValueKind::U8, *a as int, *b as int);
                    }
                }
                if *b == 0 {
                    Err(RuntimeError::DivisionByZero)
                } else {
                    Ok(InterpretValue::U8(*a / *b))
                }
            },
            (InterpretValue::U16(a), InterpretValue::U16(b)) => {
                proof {
                    if *b != 0 {
                        lemma_machine_div(ValueKind::U16, *a as int, *b as int);
                    }
                }
                if *b == 0 {
                    Err(RuntimeError::DivisionByZero)
                } else {
                    Ok(InterpretValue::U16(*a / *b))
                }
            },
            (InterpretValue::U32(a), InterpretValue::U32(b)) => {
                proof {
                    if *b != 0 {
                        lemma_machine_div(ValueKind::U32, *a as int, *b as int);
                    }
                }
                if *b == 0 {
                    Err(RuntimeError::DivisionByZero)
                } else {
                    Ok(InterpretValue::U32(*a / *b))
                }
            },
            (InterpretValue::U64(a), InterpretValue::U64(b)) => {
                proof {
                    if *b != 0 {
                        lemma_machine_div(ValueKind::U64, *a as int, *b as int);
                    }
                }
                if *b == 0 {
                    Err(RuntimeError::DivisionByZero)
                } else {
                    Ok(InterpretValue::U64(*a / *b))
                }
            },
            (InterpretValue::USize(a), InterpretValue::USize(b)) => {
                proof {
                    if *b != 0 {
                        lemma_machine_div(ValueKind::USize, *a as int, *b as int);
                    }
                }
                if *b == 0 {
                    Err(RuntimeError::DivisionByZero)
                } else {
                    Ok(InterpretValue::USize(*a / *b))
                }
            },
            _ => self.binary_failure(other, Operator::Divide),
        }
    }

    /// The remainder of dividing two integers of one kind, with the sign of the
    /// dividend; fails on a zero divisor.
    pub fn rem(&self, other: &InterpretValue) -> (r: Result<InterpretValue, RuntimeError>)
        ensures
            outcome(r) == spec_rem(self@, other@),
    {
        match (self, other) {
            (InterpretValue::I8(a), InterpretValue::I8(b)) => {
                proof {
                    if *b != 0 {
                        lemma_machine_rem(ValueKind::I8, *a as int, *b as int);
                    }
                }
                if *b == 0 {
                    Err(RuntimeError::DivisionByZero)
                } else if *b == -1 {
                    Ok(InterpretValue::I8(0))
                } else {
                    Ok(InterpretValue::I8(*a % *b))
                }
            },
            (InterpretValue::I16(a), InterpretValue::I16(b)) => {
                proof {
                    if *b != 0 {
                        lemma_machine_rem(ValueKind::I16, *a as int, *b as int);
                    }
                }
                if *b == 0 {
                    Err(RuntimeError::DivisionByZero)
                } else if *b == -1 {
                    Ok(InterpretValue::I16(0))
                } else {
                    Ok(InterpretValue::I16(*a % *b))
                }
            },
            (InterpretValue::I32(a), InterpretValue::I32(b)) => {
                proof {
                    if *b != 0 {
                        lemma_machine_rem(ValueKind::I32, *a as int, *b as int);
                    }
                }
                if *b == 0 {
                    Err(RuntimeError::DivisionByZero)
                } else if *b == -1 {
                    Ok(InterpretValue::I32(0))
                } else {
                    Ok(InterpretValue::I32(*a % *b))
                }
            },
            (InterpretValue::I64(a), InterpretValue::I64(b)) => {
                proof {
                    if *b != 0 {
                        lemma_machine_rem(ValueKind::I64, *a as int, *b as int);
                    }
                }
                if *b == 0 {
                    Err(RuntimeError::DivisionByZero)
                } else if *b == -1 {
                    Ok(InterpretValue::I64(0))
                } else {
                    Ok(InterpretValue::I64(*a % *b))
                }
            },
            (InterpretValue::ISize(a), InterpretValue::ISize(b)) => {
                proof {
                    if *b != 0 {
                        lemma_machine_rem(ValueKind::ISize, *a as int, *b as int);
                    }
                }
                if *b == 0 {
                    Err(RuntimeError::DivisionByZero)
                } else if *b == -1 {
                    Ok(InterpretValue::ISize(0))
                } else {
                    Ok(InterpretValue::ISize(*a % *b))
                }
            },
            (InterpretValue::U8(a), InterpretValue::U8(b)) => {
                proof {
                    if *b != 0 {
                        lemma_machine_rem(ValueKind::U8, *a as int, *b as int);
                    }
                }
                if *b == 0 {
                    Err(RuntimeError::DivisionByZero)
                } else {
                    Ok(InterpretValue::U8(*a % *b))
                }
            },
            (InterpretValue::U16(a), InterpretValue::U16(b)) => {
                proof {
                    if *b != 0 {
                        lemma_machine_rem(ValueKind::U16, *a as int, *b as int);
                    }
                }
                if *b == 0 {
                    Err(RuntimeError::DivisionByZero)
                } else {
                    Ok(InterpretValue::U16(*a % *b))
                }
            },
            (InterpretValue::U32(a), InterpretValue::U32(b)) => {
                proof {
                    if *b != 0 {
                        lemma_machine_rem(ValueKind::U32, *a as int, *b as int);
                    }
                }
                if *b == 0 {
                    Err(RuntimeError::DivisionByZero)
                } else {
                    Ok(InterpretValue::U32(*a % *b))
                }
            },
            (InterpretValue::U64(a), InterpretValue::U64(b)) => {
                proof {
                    if *b != 0 {
                        lemma_machine_rem(ValueKind::U64, *a as int, *b as int);
                    }
                }
                if *b == 0 {
                    Err(RuntimeError::DivisionByZero)
                } else {
                    Ok(InterpretValue::U64(*a % *b))
                }
            },
            (InterpretValue::USize(a), InterpretValue::USize(b)) => {
                proof {
                    if *b != 0 {
                        lemma_machine_rem(ValueKind::USize, *a as int, *b as int);
                    }
                }
                if *b == 0 {
                    Err(RuntimeError::DivisionByZero)
                } else {
                    Ok(InterpretValue::USize(*a % *b))
                }
            },
            _ => self.binary_failure(other, Operator::Modulus),
        }
    }

    /// Whether two integers of one kind, two truth values or two texts are equal.
    pub fn eq(&self, other: &InterpretValue) -> (r: Result<InterpretValue, RuntimeError>)
        ensures
            outcome(r) == spec_eq(self@, other@),
    {
        match (self, other) {
            (InterpretValue::I8(a), InterpretValue::I8(b)) => {
                Ok(InterpretValue::Boolean(*a == *b))
            },
            (InterpretValue::I16(a), InterpretValue::I16(b)) => {
                Ok(InterpretValue::Boolean(*a == *b))
            },
            (InterpretValue::I32(a), InterpretValue::I32(b)) => {
                Ok(InterpretValue::Boolean(*a == *b))
            },
            (InterpretValue::I64(a), InterpretValue::I64(b)) => {
                Ok(InterpretValue::Boolean(*a == *b))
            },
            (InterpretValue::ISize(a), InterpretValue::ISize(b)) => {
                Ok(InterpretValue::Boolean(*a == *b))
            },
            (InterpretValue::U8(a), InterpretValue::U8(b)) => {
                Ok(InterpretValue::Boolean(*a == *b))
            },
            (InterpretValue::U16(a), InterpretValue::U16(b)) => {
                Ok(InterpretValue::Boolean(*a == *b))
            },
            (InterpretValue::U32(a), InterpretValue::U32(b)) => {
                Ok(InterpretValue::Boolean(*a == *b))
            },
            (InterpretValue::U64(a), InterpretValue::U64(b)) => {
                Ok(InterpretValue::Boolean(*a == *b))
            },
            (InterpretValue::USize(a), InterpretValue::USize(b)) => {
                Ok(InterpretValue::Boolean(*a == *b))
            },
            (InterpretValue::Boolean(a), InterpretValue::Boolean(b)) => {
                Ok(InterpretValue::Boolean(*a == *b))
            },
            (InterpretValue::String(a), InterpretValue::String(b)) => {
                Ok(InterpretValue::Boolean((*a == *b)))
            },
            _ => self.binary_failure(other, Operator::Equals),
        }
    }

    /// Whether two integers of one kind, two truth values or two texts differ.
    pub fn neq(&self, other: &InterpretValue) -> (r: Result<InterpretValue, RuntimeError>)
        ensures
            outcome(r) == spec_neq(self@, other@),
    {
        match (self, other) {
            (InterpretValue::I8(a), InterpretValue::I8(b)) => {
                Ok(InterpretValue::Boolean(*a != *b))
            },
            (InterpretValue::I16(a), InterpretValue::I16(b)) => {
                Ok(InterpretValue::Boolean(*a != *b))
            },
            (InterpretValue::I32(a), InterpretValue::I32(b)) => {
                Ok(InterpretValue::Boolean(*a != *b))
            },
            (InterpretValue::I64(a), InterpretValue::I64(b)) => {
                Ok(InterpretValue::Boolean(*a != *b))
            },
            (InterpretValue::ISize(a), InterpretValue::ISize(b)) => {
                Ok(InterpretValue::Boolean(*a != *b))
            },
            (InterpretValue::U8(a), InterpretValue::U8(b)) => {
                Ok(InterpretValue::Boolean(*a != *b))
            },
            (InterpretValue::U16(a), InterpretValue::U16(b)) => {
                Ok(InterpretValue::Boolean(*a != *b))
            },
            (InterpretValue::U32(a), InterpretValue::U32(b)) => {
                Ok(InterpretValue::Boolean(*a != *b))
            },
            (InterpretValue::U64(a), InterpretValue::U64(b)) => {
                Ok(InterpretValue::Boolean(*a != *b))
            },
            (InterpretValue::USize(a), InterpretValue::USize(b)) => {
                Ok(InterpretValue::Boolean(*a != *b))
            },
            (InterpretValue::Boolean(a), InterpretValue::Boolean(b)) => {
                Ok(InterpretValue::Boolean(*a != *b))
            },
            (InterpretValue::String(a), InterpretValue::String(b)) => {
                Ok(InterpretValue::Boolean(!(*a == *b)))
            },
            _ => self.binary_failure(other, Operator::NotEquals),
        }
    }

    /// Whether the first of two integers of one kind is the greater.
    pub fn gt(&self, other: &InterpretValue) -> (r: Result<InterpretValue, RuntimeError>)
        ensures
            outcome(r) == spec_gt(self@, other@),
    {
        match (self, other) {
            (InterpretValue::I8(a), InterpretValue::I8(b)) => {
                Ok(InterpretValue::Boolean(*a > *b))
            },
            (InterpretValue::I16(a), InterpretValue::I16(b)) => {
                Ok(InterpretValue::Boolean(*a > *b))
            },
            (InterpretValue::I32(a), InterpretValue::I32(b)) => {
                Ok(InterpretValue::Boolean(*a > *b))
            },
            (InterpretValue::I64(a), InterpretValue::I64(b)) => {
                Ok(InterpretValue::Boolean(*a > *b))
            },
            (InterpretValue::ISize(a), InterpretValue::ISize(b)) => {
                Ok(InterpretValue::Boolean(*a > *b))
            },
            (InterpretValue::U8(a), InterpretValue::U8(b)) => {
                Ok(InterpretValue::Boolean(*a > *b))
            },
            (InterpretValue::U16(a), InterpretValue::U16(b)) => {
                Ok(InterpretValue::Boolean(*a > *b))
            },
            (InterpretValue::U32(a), InterpretValue::U32(b)) => {
                Ok(InterpretValue::Boolean(*a > *b))
            },
            (InterpretValue::U64(a), InterpretValue::U64(b)) => {
                Ok(InterpretValue::Boolean(*a > *b))
            },
            (InterpretValue::USize(a), InterpretValue::USize(b)) => {
                Ok(InterpretValue::Boolean(*a > *b))
            },
            _ => self.binary_failure(other, Operator::Greater),
        }
    }

    /// Whether the first of two integers of one kind is the smaller.
    pub fn lt(&self, other: &InterpretValue) -> (r: Result<InterpretValue, RuntimeError>)
        ensures
            outcome(r) == spec_lt(self@, other@),
    {
        match (self, other) {
            (InterpretValue::I8(a), InterpretValue::I8(b)) => {
                Ok(InterpretValue::Boolean(*a < *b))
            },
            (InterpretValue::I16(a), InterpretValue::I16(b)) => {
                Ok(InterpretValue::Boolean(*a < *b))
            },
            (InterpretValue::I32(a), InterpretValue::I32(b)) => {
                Ok(InterpretValue::Boolean(*a < *b))
            },
            (InterpretValue::I64(a), InterpretValue::I64(b)) => {
                Ok(InterpretValue::Boolean(*a < *b))
            },
            (InterpretValue::ISize(a), InterpretValue::ISize(b)) => {
                Ok(InterpretValue::Boolean(*a < *b))
            },
            (InterpretValue::U8(a), InterpretValue::U8(b)) => {
                Ok(InterpretValue::Boolean(*a < *b))
            },
            (InterpretValue::U16(a), InterpretValue::U16(b)) => {
                Ok(InterpretValue::Boolean(*a < *b))
            },
            (InterpretValue::U32(a), InterpretValue::U32(b)) => {
                Ok(InterpretValue::Boolean(*a < *b))
            },
            (InterpretValue::U64(a), InterpretValue::U64(b)) => {
                Ok(InterpretValue::Boolean(*a < *b))
            },
            (InterpretValue::USize(a), InterpretValue::USize(b)) => {
                Ok(InterpretValue::Boolean(*a < *b))
            },
            _ => self.binary_failure(other, Operator::Less),
        }
    }

    /// Whether the first of two integers of one kind is not the smaller.
    pub fn gte(&self, other: &InterpretValue) -> (r: Result<InterpretValue, RuntimeError>)
        ensures
            outcome(r) == spec_gte(self@, other@),
    {
        match (self, other) {
            (InterpretValue::I8(a), InterpretValue::I8(b)) => {
                Ok(InterpretValue::Boolean(*a >= *b))
            },
            (InterpretValue::I16(a), InterpretValue::I16(b)) => {
                Ok(InterpretValue::Boolean(*a >= *b))
            },
            (InterpretValue::I32(a), InterpretValue::I32(b)) => {
                Ok(InterpretValue::Boolean(*a >= *b))
            },
            (InterpretValue::I64(a), InterpretValue::I64(b)) => {
                Ok(InterpretValue::Boolean(*a >= *b))
            },
            (InterpretValue::ISize(a), InterpretValue::ISize(b)) => {
                Ok(InterpretValue::Boolean(*a >= *b))
            },
            (InterpretValue::U8(a), InterpretValue::U8(b)) => {
                Ok(InterpretValue::Boolean(*a >= *b))
            },
            (InterpretValue::U16(a), InterpretValue::U16(b)) => {
                Ok(InterpretValue::Boolean(*a >= *b))
            },
            (InterpretValue::U32(a), InterpretValue::U32(b)) => {
                Ok(InterpretValue::Boolean(*a >= *b))
            },
            (InterpretValue::U64(a), InterpretValue::U64(b)) => {
                Ok(InterpretValue::Boolean(*a >= *b))
            },
            (InterpretValue::USize(a), InterpretValue::USize(b)) => {
                Ok(InterpretValue::Boolean(*a >= *b))
            },
            _ => self.binary_failure(other, Operator::GreaterEquals),
        }
    }

    /// Whether the first of two integers of one kind is not the greater.
    pub fn lte(&self, other: &InterpretValue) -> (r: Result<InterpretValue, RuntimeError>)
        ensures
            outcome(r) == spec_lte(self@, other@),
    {
        match (self, other) {
            (InterpretValue::I8(a), InterpretValue::I8(b)) => {
                Ok(InterpretValue::Boolean(*a <= *b))
            },
            (InterpretValue::I16(a), InterpretValue::I16(b)) => {
                Ok(InterpretValue::Boolean(*a <= *b))
            },
            (InterpretValue::I32(a), InterpretValue::I32(b)) => {
                Ok(InterpretValue::Boolean(*a <= *b))
            },
            (InterpretValue::I64(a), InterpretValue::I64(b)) => {
                Ok(InterpretValue::Boolean(*a <= *b))
            },
            (InterpretValue::ISize(a), InterpretValue::ISize(b)) => {
                Ok(InterpretValue::Boolean(*a <= *b))
            },
            (InterpretValue::U8(a), InterpretValue::U8(b)) => {
                Ok(InterpretValue::Boolean(*a <= *b))
            },
            (InterpretValue::U16(a), InterpretValue::U16(b)) => {
                Ok(InterpretValue::Boolean(*a <= *b))
            },
            (InterpretValue::U32(a), InterpretValue::U32(b)) => {
                Ok(InterpretValue::Boolean(*a <= *b))
            },
            (InterpretValue::U64(a), InterpretValue::U64(b)) => {
                Ok(InterpretValue::Boolean(*a <= *b))
            },
            (InterpretValue::USize(a), InterpretValue::USize(b)) => {
                Ok(InterpretValue::Boolean(*a <= *b))
            },
            _ => self.binary_failure(other, Operator::LessEquals),
        }
    }

    /// The conjunction of two truth values.
    pub fn and(&self, other: &InterpretValue) -> (r: Result<InterpretValue, RuntimeError>)
        ensures
            outcome(r) == spec_and(self@, other@),
    {
        match (self, other) {
            (InterpretValue::Boolean(a), InterpretValue::Boolean(b)) => {
                Ok(InterpretValue::Boolean(*a && *b))
            },
            _ => self.binary_failure(other, Operator::LogicalAnd),
        }
    }

    /// The disjunction of two truth values.
    pub fn or(&self, other: &InterpretValue) -> (r: Result<InterpretValue, RuntimeError>)
        ensures
            outcome(r) == spec_or(self@, other@),
    {
        match (self, other) {
            (InterpretValue::Boolean(a), InterpretValue::Boolean(b)) => {
                Ok(InterpretValue::Boolean(*a || *b))
            },
            _ => self.binary_failure(other, Operator::LogicalOr),
        }
    }

    /// The negation of a truth value.
    pub fn not(&self) -> (r: Result<InterpretValue, RuntimeError>)
        ensures
            outcome(r) == spec_not(self@),
    {
        match self {
            InterpretValue::Boolean(a) => Ok(InterpretValue::Boolean(!*a)),
            _ => self.unary_failure(Operator::LogicalNot),
        }
    }

    /// The bitwise conjunction of two integers of one kind.
    pub fn bitand(&self, other: &InterpretValue) -> (r: Result<InterpretValue, RuntimeError>)
        ensures
            outcome(r) == spec_bitand(self@, other@),
    {
        match (self, other) {
            (InterpretValue::I8(a), InterpretValue::I8(b)) => {
                Ok(InterpretValue::I8(*a & *b))
            },
            (InterpretValue::I16(a), InterpretValue::I16(b)) => {
                Ok(InterpretValue::I16(*a & *b))
            },
            (InterpretValue::I32(a), InterpretValue::I32(b)) => {
                Ok(InterpretValue::I32(*a & *b))
            },
            (InterpretValue::I64(a), InterpretValue::I64(b)) => {
                Ok(InterpretValue::I64(*a & *b))
            },
            (InterpretValue::ISize(a), InterpretValue::ISize(b)) => {
                Ok(InterpretValue::ISize(*a & *b))
            },
            (InterpretValue::U8(a), InterpretValue::U8(b)) => {
                Ok(InterpretValue::U8(*a & *b))
            },
            (InterpretValue::U16(a), InterpretValue::U16(b)) => {
                Ok(InterpretValue::U16(*a & *b))
            },
            (InterpretValue::U32(a), InterpretValue::U32(b)) => {
                Ok(InterpretValue::U32(*a & *b))
            },
            (InterpretValue::U64(a), InterpretValue::U64(b)) => {
                Ok(InterpretValue::U64(*a & *b))
            },
            (InterpretValue::USize(a), InterpretValue::USize(b)) => {
                Ok(InterpretValue::USize(*a & *b))
            },
            _ => self.binary_failure(other, Operator::BitAnd),
        }
    }

    /// The bitwise disjunction of two integers of one kind.
    pub fn bitor(&self, other: &InterpretValue) -> (r: Result<InterpretValue, RuntimeError>)
        ensures
            outcome(r) == spec_bitor(self@, other@),
    {
        match (self, other) {
            (InterpretValue::I8(a), InterpretValue::I8(b)) => {
                Ok(InterpretValue::I8(*a | *b))
            },
            (InterpretValue::I16(a), InterpretValue::I16(b)) => {
                Ok(InterpretValue::I16(*a | *b))
            },
            (InterpretValue::I32(a), InterpretValue::I32(b)) => {
                Ok(InterpretValue::I32(*a | *b))
            },
            (InterpretValue::I64(a), InterpretValue::I64(b)) => {
                Ok(InterpretValue::I64(*a | *b))
            },
            (InterpretValue::ISize(a), InterpretValue::ISize(b)) => {
                Ok(InterpretValue::ISize(*a | *b))
            },
            (InterpretValue::U8(a), InterpretValue::U8(b)) => {
                Ok(InterpretValue::U8(*a | *b))
            },
            (InterpretValue::U16(a), InterpretValue::U16(b)) => {
                Ok(InterpretValue::U16(*a | *b))
            },
            (InterpretValue::U32(a), InterpretValue::U32(b)) => {
                Ok(InterpretValue::U32(*a | *b))
            },
            (InterpretValue::U64(a), InterpretValue::U64(b)) => {
                Ok(InterpretValue::U64(*a | *b))
            },
            (InterpretValue::USize(a), InterpretValue::USize(b)) => {
                Ok(InterpretValue::USize(*a | *b))
            },
            _ => self.binary_failure(other, Operator::BitOr),
        }
    }

    /// The bitwise complement of an integer.
    pub fn bitnot(&self) -> (r: Result<InterpretValue, RuntimeError>)
        ensures
            outcome(r) == spec_bitnot(self@),
    {
        match self {
            InterpretValue::I8(a) => Ok(InterpretValue::I8(!*a)),
            InterpretValue::I16(a) => Ok(InterpretValue::I16(!*a)),
            InterpretValue::I32(a) => Ok(InterpretValue::I32(!*a)),
            InterpretValue::I64(a) => Ok(InterpretValue::I64(!*a)),
            InterpretValue::ISize(a) => Ok(InterpretValue::ISize(!*a)),
            InterpretValue::U8(a) => Ok(InterpretValue::U8(!*a)),
            InterpretValue::U16(a) => Ok(InterpretValue::U16(!*a)),
            InterpretValue::U32(a) => Ok(InterpretValue::U32(!*a)),
            InterpretValue::U64(a) => Ok(InterpretValue::U64(!*a)),
            InterpretValue::USize(a) => Ok(InterpretValue::USize(!*a)),
            _ => self.unary_failure(Operator::BitNot),
        }
    }

    /// The negation of a signed integer, wrapping around.
    pub fn neg(&self) -> (r: Result<InterpretValue, RuntimeError>)
        ensures
            outcome(r) == spec_neg(self@),
    {
        match self {
            InterpretValue::I8(a) => {
                proof {
                    lemma_wrap_near(ValueKind::I8, -(*a as int));
                }
                if *a == i8::MIN {
                    Ok(InterpretValue::I8(i8::MIN))
                } else {
                    Ok(InterpretValue::I8(-*a))
                }
            },
            InterpretValue::I16(a) => {
                proof {
                    lemma_wrap_near(ValueKind::I16, -(*a as int));
                }
                if *a == i16::MIN {
                    Ok(InterpretValue::I16(i16::MIN))
                } else {
                    Ok(InterpretValue::I16(-*a))
                }
            },
            InterpretValue::I32(a) => {
                proof {
                    lemma_wrap_near(ValueKind::I32, -(*a as int));
                }
                if *a == i32::MIN {
                    Ok(InterpretValue::I32(i32::MIN))
                } else {
                    Ok(InterpretValue::I32(-*a))
                }
            },
            InterpretValue::I64(a) => {
                proof {
                    lemma_wrap_near(ValueKind::I64, -(*a as int));
                }
                if *a == i64::MIN {
                    Ok(InterpretValue::I64(i64::MIN))
                } else {
                    Ok(InterpretValue::I64(-*a))
                }
            },
            InterpretValue::ISize(a) => {
                proof {
                    lemma_wrap_near(ValueKind::ISize, -(*a as int));
                }
                if *a == isize::MIN {
                    Ok(InterpretValue::ISize(isize::MIN))
                } else {
                    Ok(InterpretValue::ISize(-*a))
                }
            },
            _ => self.unary_failure(Operator::Minus),
        }
    }

    /// Applies a binary operator to two values.
    pub fn binary(operator: Operator, a: &InterpretValue, b: &InterpretValue) -> (r: Result<
        InterpretValue,
        RuntimeError,
    >)
        ensures
            outcome(r) == spec_binary(operator, a@, b@),
    {
        match operator {
            Operator::Plus => a.add(b),
            Operator::Minus => a.sub(b),
            Operator::Multiply => a.mul(b),
            Operator::Divide => a.div(b),
            Operator::Modulus => a.rem(b),
            Operator::Equals => a.eq(b),
            Operator::NotEquals => a.neq(b),
            Operator::Greater => a.gt(b),
            Operator::Less => a.lt(b),
            Operator::GreaterEquals => a.gte(b),
            Operator::LessEquals => a.lte(b),
            Operator::LogicalAnd => a.and(b),
            Operator::LogicalOr => a.or(b),
            Operator::BitAnd => a.bitand(b),
            Operator::BitOr => a.bitor(b),
            _ => Err(RuntimeError::UnknownBinaryOperator { operator }),
        }
    }

    /// Applies a unary operator to a value.
    pub fn unary(operator: Operator, a: &InterpretValue) -> (r: Result<
        InterpretValue,
        RuntimeError,
    >)
        ensures
            outcome(r) == spec_unary(operator, a@),
    {
        match operator {
            Operator::Minus => a.neg(),
            Operator::LogicalNot => a.not(),
            Operator::BitNot => a.bitnot(),
            _ => Err(RuntimeError::UnknownUnaryOperator { operator }),
        }
    }
}

impl Clone for InterpretValue {
    fn clone(&self) -> (r: InterpretValue)
        ensures
            r@ == self@,
    {
        match self {
            InterpretValue::I8(v) => InterpretValue::I8(*v),
            InterpretValue::I16(v) => InterpretValue::I16(*v),
            InterpretValue::I32(v) => InterpretValue::I32(*v),
            InterpretValue::I64(v) => InterpretValue::I64(*v),
            InterpretValue::ISize(v) => InterpretValue::ISize(*v),
            InterpretValue::U8(v) => InterpretValue::U8(*v),
            InterpretValue::U16(v) => InterpretValue::U16(*v),
            InterpretValue::U32(v) => InterpretValue::U32(*v),
            InterpretValue::U64(v) => InterpretValue::U64(*v),
            InterpretValue::USize(v) => InterpretValue::USize(*v),
            InterpretValue::Boolean(b) => InterpretValue::Boolean(*b),
            InterpretValue::String(s) => InterpretValue::String(s.clone()),
            InterpretValue::Void => InterpretValue::Void,
        }
    }
}

} // verus!
