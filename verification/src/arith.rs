//! What one operator does to two operands.

use vstd::prelude::*;
use crate::error::Error;
use crate::op::OpKind;

verus! {

/// The quotient of `a` by `b`, truncated toward zero. Meant for `b != 0`.
pub open spec fn quotient(a: int, b: int) -> int {
    if a >= 0 && b > 0 {
        a / b
    } else if a >= 0 {
        -(a / (-b))
    } else if b > 0 {
        -((-a) / b)
    } else {
        (-a) / (-b)
    }
}

/// The operand that holds `v`, or `Overflow` where `v` is outside the
/// operand range.
pub open spec fn operand(v: int) -> Result<i32, Error> {
    if i32::MIN <= v <= i32::MAX {
        Ok(v as i32)
    } else {
        Err(Error::Overflow)
    }
}

/// The result of `lhs OP rhs` for the operator kind `OP`: the exact integer
/// result where the kind is arithmetic, the divisor is not zero and the
/// result fits the operand range, and otherwise the error that says why not.
pub open spec fn applied(kind: OpKind, lhs: i32, rhs: i32) -> Result<i32, Error> {
    match kind {
        OpKind::Plus => operand(lhs + rhs),
        OpKind::Minus => operand(lhs - rhs),
        OpKind::Multiply => operand(lhs * rhs),
        OpKind::Divide => if rhs == 0 {
            Err(Error::DivisionByZero)
        } else {
            operand(quotient(lhs as int, rhs as int))
        },
        OpKind::OpenParen | OpKind::CloseParen => Err(Error::UnsupportedConstruct),
        OpKind::Unknown => Err(Error::UnknownOperator),
    }
}

/// Computes `lhs OP rhs`, with `lhs` the operand that stands to the left of
/// the operator in the source.
pub fn apply(kind: OpKind, lhs: i32, rhs: i32) -> (r: Result<i32, Error>)
    ensures
        r == applied(kind, lhs, rhs),
{
    match kind {
        OpKind::Unknown => Err(Error::UnknownOperator),
        OpKind::Plus => match lhs.checked_add(rhs) {
            Some(v) => Ok(v),
            None => Err(Error::Overflow),
        },
        OpKind::Minus => match lhs.checked_sub(rhs) {
            Some(v) => Ok(v),
            None => Err(Error::Overflow),
        },
        OpKind::Multiply => match lhs.checked_mul(rhs) {
            Some(v) => Ok(v),
            None => Err(Error::Overflow),
        },
        OpKind::Divide => {
            if rhs == 0 {
                Err(Error::DivisionByZero)
            } else {
                match lhs.checked_div(rhs) {
                    Some(v) => Ok(v),
                    None => Err(Error::Overflow),
                }
            }
        },
        OpKind::OpenParen | OpKind::CloseParen => Err(Error::UnsupportedConstruct),
    }
}

/// Division truncates toward zero: the quotient times the divisor is no
/// further from zero than the dividend, lies on the same side of zero, and
/// is less than one divisor away from it.
pub proof fn lemma_quotient_truncates(a: int, b: int)
    requires
        b != 0,
    ensures
        a >= 0 ==> 0 <= a - quotient(a, b) * b,
        a <= 0 ==> a - quotient(a, b) * b <= 0,
        b > 0 ==> -b < a - quotient(a, b) * b < b,
        b < 0 ==> b < a - quotient(a, b) * b < -b,
{
    let x = if a >= 0 { a } else { -a };
    let d = if b > 0 { b } else { -b };
    vstd::arithmetic::div_mod::lemma_fundamental_div_mod(x, d);
    vstd::arithmetic::div_mod::lemma_mod_bound(x, d);
    let q = x / d;
    assert(x == d * q + x % d);
    assert(quotient(a, b) == if (a >= 0) == (b > 0) { q } else { -q });
    assert(quotient(a, b) * b == if a >= 0 { d * q } else { -(d * q) }) by (nonlinear_arith)
        requires
            quotient(a, b) == if (a >= 0) == (b > 0) { q } else { -q },
            d == if b > 0 { b } else { -b },
    ;
}

/// Dividing by a divisor that is not zero gives the truncated quotient: in
/// the operand range there is one failure only, `i32::MIN / -1`.
pub proof fn lemma_division(lhs: i32, rhs: i32)
    requires
        rhs != 0,
    ensures
        !(lhs == i32::MIN && rhs == -1) ==> applied(OpKind::Divide, lhs, rhs) == Ok::<i32, Error>(
            quotient(lhs as int, rhs as int) as i32,
        ),
        lhs == i32::MIN && rhs == -1 ==> applied(OpKind::Divide, lhs, rhs) == Err::<i32, Error>(
            Error::Overflow,
        ),
{
    lemma_quotient_truncates(lhs as int, rhs as int);
    let q = quotient(lhs as int, rhs as int);
    if !(lhs == i32::MIN && rhs == -1) {
        assert(i32::MIN <= q <= i32::MAX) by (nonlinear_arith)
            requires
                i32::MIN <= lhs <= i32::MAX,
                i32::MIN <= rhs <= i32::MAX,
                rhs != 0,
                !(lhs == i32::MIN && rhs == -1),
                lhs >= 0 ==> 0 <= lhs - q * rhs,
                lhs <= 0 ==> lhs - q * rhs <= 0,
                rhs > 0 ==> -rhs < lhs - q * rhs < rhs,
                rhs < 0 ==> rhs < lhs - q * rhs < -rhs,
        ;
    } else {
        assert(q == 0x8000_0000int);
    }
}

} // verus!
