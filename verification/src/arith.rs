//! Fixed-width integer arithmetic, stated over the mathematical integers.
//!
//! Every integer kind is an interval of `range` consecutive integers. The
//! operators compute over the integers and then fold the result back into
//! the interval; division and remainder truncate toward zero.

use crate::error::ValueKind;
use vstd::arithmetic::div_mod::{
    lemma_fundamental_div_mod,
    lemma_fundamental_div_mod_converse,
    lemma_mod_bound,
};
use vstd::arithmetic::power2::{lemma2_to64, lemma_pow2_unfold, pow2};
use vstd::prelude::*;

verus! {

impl ValueKind {
    /// The integer kinds, signed and unsigned.
    pub open spec fn is_integer(self) -> bool {
        !(self == ValueKind::Boolean || self == ValueKind::String || self == ValueKind::Void)
    }

    /// The signed integer kinds.
    pub open spec fn is_signed(self) -> bool {
        self == ValueKind::I8 || self == ValueKind::I16 || self == ValueKind::I32 || self
            == ValueKind::I64 || self == ValueKind::ISize
    }

    /// The least integer of an integer kind.
    pub open spec fn min(self) -> int {
        match self {
            ValueKind::I8 => i8::MIN as int,
            ValueKind::I16 => i16::MIN as int,
            ValueKind::I32 => i32::MIN as int,
            ValueKind::I64 => i64::MIN as int,
            ValueKind::ISize => isize::MIN as int,
            _ => 0,
        }
    }

    /// The greatest integer of an integer kind.
    pub open spec fn max(self) -> int {
        match self {
            ValueKind::I8 => i8::MAX as int,
            ValueKind::I16 => i16::MAX as int,
            ValueKind::I32 => i32::MAX as int,
            ValueKind::I64 => i64::MAX as int,
            ValueKind::ISize => isize::MAX as int,
            ValueKind::U8 => u8::MAX as int,
            ValueKind::U16 => u16::MAX as int,
            ValueKind::U32 => u32::MAX as int,
            ValueKind::U64 => u64::MAX as int,
            ValueKind::USize => usize::MAX as int,
            _ => 0,
        }
    }

    /// The width of an integer kind in bits.
    pub open spec fn bits(self) -> nat {
        match self {
            ValueKind::I8 | ValueKind::U8 => 8,
            ValueKind::I16 | ValueKind::U16 => 16,
            ValueKind::I32 | ValueKind::U32 => 32,
            ValueKind::I64 | ValueKind::U64 => 64,
            ValueKind::ISize | ValueKind::USize => usize::BITS as nat,
            _ => 0,
        }
    }

    /// How many integers an integer kind holds: two to the power of its width.
    pub open spec fn range(self) -> int {
        self.max() - self.min() + 1
    }

    /// Whether an integer lies within the kind.
    pub open spec fn holds(self, x: int) -> bool {
        self.min() <= x <= self.max()
    }
}

/// The integer of the kind that differs from `x` by a multiple of the kind's
/// range: what fixed-width arithmetic keeps of an exact result.
pub open spec fn wrap(kind: ValueKind, x: int) -> int {
    let m = x % kind.range();
    if m > kind.max() {
        m - kind.range()
    } else {
        m
    }
}

/// The magnitude of an integer.
pub open spec fn magnitude(x: int) -> int {
    if x < 0 {
        -x
    } else {
        x
    }
}

/// The quotient rounded toward zero.
pub open spec fn trunc_div(a: int, b: int) -> int {
    if (a < 0) == (b < 0) {
        magnitude(a) / magnitude(b)
    } else {
        -(magnitude(a) / magnitude(b))
    }
}

/// The remainder that goes with [`trunc_div`]: it has the sign of the dividend.
pub open spec fn trunc_rem(a: int, b: int) -> int {
    if a < 0 {
        -(magnitude(a) % magnitude(b))
    } else {
        magnitude(a) % magnitude(b)
    }
}

/// The range of every integer kind is positive, and the signed kinds are
/// centred: they hold as many negative integers as non-negative ones.
pub proof fn lemma_kind_shape(kind: ValueKind)
    requires
        kind.is_integer(),
    ensures
        kind.range() > 0,
        kind.min() <= 0 <= kind.max(),
        kind.is_signed() ==> kind.min() == -kind.max() - 1,
        !kind.is_signed() ==> kind.min() == 0,
{
}

/// An integer kind holds two to the power of its width integers: all that
/// are not negative for an unsigned kind, and half of each for a signed one.
pub proof fn law_kind_spans_its_width(kind: ValueKind)
    requires
        kind.is_integer(),
    ensures
        kind.range() == pow2(kind.bits()),
        kind.is_signed() ==> kind.min() == -pow2((kind.bits() - 1) as nat) && kind.max() == pow2(
            (kind.bits() - 1) as nat,
        ) - 1,
        !kind.is_signed() ==> kind.min() == 0 && kind.max() == pow2(kind.bits()) - 1,
{
    lemma2_to64();
    lemma_pow2_unfold(64);
}

/// Where `x` lies `k` ranges away from the kind's interval, wrapping brings
/// it back by exactly that much.
pub proof fn lemma_wrap_shift(kind: ValueKind, x: int, k: int)
    requires
        kind.is_integer(),
        kind.holds(x - k * kind.range()),
    ensures
        wrap(kind, x) == x - k * kind.range(),
{
    lemma_kind_shape(kind);
    let range = kind.range();
    let r = x - k * range;
    if r >= 0 {
        lemma_fundamental_div_mod_converse(x, range, k, r);
    } else {
        assert(x == (k - 1) * range + (r + range)) by (nonlinear_arith)
            requires
                r == x - k * range,
        ;
        lemma_fundamental_div_mod_converse(x, range, k - 1, r + range);
    }
}

/// Wrapping always lands inside the kind, a multiple of the range away.
pub proof fn law_wrap_is_congruent(kind: ValueKind, x: int)
    requires
        kind.is_integer(),
    ensures
        kind.holds(wrap(kind, x)),
        (x - wrap(kind, x)) % kind.range() == 0,
        kind.holds(x) ==> wrap(kind, x) == x,
{
    lemma_kind_shape(kind);
    let range = kind.range();
    lemma_fundamental_div_mod(x, range);
    lemma_mod_bound(x, range);
    let m = x % range;
    let q = x / range;
    if m > kind.max() {
        assert(x - (m - range) == (q + 1) * range) by (nonlinear_arith)
            requires
                x == range * q + m,
        ;
        lemma_fundamental_div_mod_converse(x - (m - range), range, q + 1, 0);
    } else {
        assert(x - m == q * range) by (nonlinear_arith)
            requires
                x == range * q + m,
        ;
        lemma_fundamental_div_mod_converse(x - m, range, q, 0);
    }
    if kind.holds(x) {
        lemma_wrap_shift(kind, x, 0);
    }
}

/// Truncating division and remainder split the dividend exactly; the
/// remainder is smaller in magnitude than the divisor and never has the
/// sign opposite to the dividend's.
pub proof fn law_trunc_div_rem(a: int, b: int)
    requires
        b != 0,
    ensures
        a == b * trunc_div(a, b) + trunc_rem(a, b),
        magnitude(trunc_rem(a, b)) < magnitude(b),
        a >= 0 ==> trunc_rem(a, b) >= 0,
        a <= 0 ==> trunc_rem(a, b) <= 0,
        magnitude(trunc_div(a, b)) <= magnitude(a),
{
    let x = magnitude(a);
    let d = magnitude(b);
    let q = x / d;
    let r = x % d;
    lemma_fundamental_div_mod(x, d);
    lemma_mod_bound(x, d);
    assert(0 <= q <= x) by (nonlinear_arith)
        requires
            x == d * q + r,
            0 <= r < d,
            x >= 0,
    ;
    assert(a == b * trunc_div(a, b) + trunc_rem(a, b)) by (nonlinear_arith)
        requires
            x == d * q + r,
            x == magnitude(a),
            d == magnitude(b),
            trunc_div(a, b) == (if (a < 0) == (b < 0) {
                q
            } else {
                -q
            }),
            trunc_rem(a, b) == (if a < 0 {
                -r
            } else {
                r
            }),
    ;
}

/// Euclidean division by a divisor of either sign, in terms of magnitudes.
pub proof fn lemma_euclid_by_magnitude(x: int, d: int)
    requires
        x >= 0,
        d != 0,
    ensures
        x / d == (if d < 0 {
            -(x / magnitude(d))
        } else {
            x / d
        }),
        x % d == x % magnitude(d),
{
    if d < 0 {
        let m = -d;
        lemma_fundamental_div_mod(x, m);
        lemma_mod_bound(x, m);
        let q = x / m;
        let r = x % m;
        lemma_fundamental_div_mod(x, d);
        let q2 = x / d;
        let r2 = x % d;
        assert(0 <= r2 < m) by (nonlinear_arith)
            requires
                d < 0,
                m == -d,
                r2 == x % d,
        ;
        assert(x == (-q2) * m + r2) by (nonlinear_arith)
            requires
                x == d * q2 + r2,
                m == -d,
        ;
        lemma_fundamental_div_mod_converse(x, m, -q2, r2);
    }
}

} // verus!
