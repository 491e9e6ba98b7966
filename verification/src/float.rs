//! The floating-point arithmetic that evaluation relies on.
//!
//! This library computes with exact integers. What has to be computed in
//! binary64 it asks of a unit that the caller brings, and it passes such
//! values on as bit patterns without looking into them.
use vstd::prelude::*;
use crate::ast::{BinaryOp, UnaryOp};
use crate::number::{Number, ZERO};

verus! {

/// The functions of one floating-point argument.
#[derive(Clone, Copy, Debug, PartialEq, Eq, Structural)]
pub enum RealFn {
    Neg,
    Abs,
    /// One with the sign of the argument.
    Signum,
    Floor,
    Ceil,
    /// To the nearest integer, halves away from zero.
    Round,
    Trunc,
    Sqrt,
    Ln,
    /// The logarithm to the base two.
    Log2,
    Exp,
    Exp2,
    Sin,
    Cos,
    Tan,
    Sinh,
    Cosh,
    Tanh,
    Asin,
    Acos,
    Atan,
    Asinh,
    Acosh,
    Atanh,
    /// The gamma function.
    Gamma,
    /// The principal branch of the Lambert W function, for an argument not
    /// below -1/e.
    LambertW,
}

/// The functions of two floating-point arguments.
#[derive(Clone, Copy, Debug, PartialEq, Eq, Structural)]
pub enum RealOp {
    Add,
    Sub,
    Mul,
    Div,
    /// The remainder with the sign of the dividend.
    Rem,
    /// The first argument to the power of the second.
    Pow,
    /// The logarithm of the first argument to the base of the second.
    Log,
    /// The angle of the point whose ordinate is the first argument and whose
    /// abscissa is the second.
    Atan2,
}

/// How two floating-point values compare. `Unordered` where one is no number.
#[derive(Clone, Copy, Debug, PartialEq, Eq, Structural)]
pub enum Comparison {
    Less,
    Equal,
    Greater,
    Unordered,
}

/// A floating-point unit. Every value of type `u64` in its methods is the
/// bit pattern of a binary64 value.
///
/// The library states nothing about what a unit returns, and what it proves
/// holds for every unit. A unit has to return from every call on every
/// argument.
pub trait FloatUnit {
    /// The value nearest to an integer.
    fn from_int(&self, value: i64) -> u64;

    /// The integer nearest to zero from `x` on, or the nearest `i64` where
    /// that integer does not fit; zero where `x` is no number.
    fn to_int(&self, x: u64) -> i64;

    /// The value nearest to a decimal literal: digits, at most one point,
    /// digits.
    fn literal(&self, text: &str) -> u64;

    /// The value of a function of one argument.
    fn unary(&self, f: RealFn, x: u64) -> u64;

    /// The value of a function of two arguments.
    fn binary(&self, op: RealOp, a: u64, b: u64) -> u64;

    /// `base` to an integer power.
    fn powi(&self, base: u64, exponent: i32) -> u64;

    /// How `a` compares with `b`.
    fn compare(&self, a: u64, b: u64) -> Comparison;

    /// How often the logarithm to `base`, rounded down, can be taken of `n`
    /// until at most one is left.
    fn ilog(&self, n: u64, base: u64) -> i64;
}

/// Whether `r` is a value that the unit gives for the integer `value`.
pub open spec fn gives_from_int<U: FloatUnit>(unit: &U, value: i64, r: u64) -> bool {
    call_ensures(U::from_int, (unit, value), r)
}

/// Whether `r` is an integer that the unit gives for the value `x`.
pub open spec fn gives_to_int<U: FloatUnit>(unit: &U, x: u64, r: i64) -> bool {
    call_ensures(U::to_int, (unit, x), r)
}

/// Whether `r` is a value that the unit gives for `f` of `x`.
pub open spec fn gives_unary<U: FloatUnit>(unit: &U, f: RealFn, x: u64, r: u64) -> bool {
    call_ensures(U::unary, (unit, f, x), r)
}

/// Whether `r` is a value that the unit gives for `op` of `a` and `b`.
pub open spec fn gives_binary<U: FloatUnit>(unit: &U, op: RealOp, a: u64, b: u64, r: u64) -> bool {
    call_ensures(U::binary, (unit, op, a, b), r)
}

/// Whether `r` is an answer that the unit gives on how `a` compares with `b`.
pub open spec fn gives_compare<U: FloatUnit>(unit: &U, a: u64, b: u64, r: Comparison) -> bool {
    call_ensures(U::compare, (unit, a, b), r)
}

/// Whether `bits` is `x` as a floating-point value: the value itself where
/// it is one, what the unit makes of the integer where it is not.
pub open spec fn widened<U: FloatUnit>(unit: &U, x: Number, bits: u64) -> bool {
    match x {
        Number::Float(f) => bits == f,
        Number::Integer(v) => gives_from_int(unit, v, bits),
    }
}

/// The floating-point function that a unary operator is computed with. For
/// the factorial it is the gamma function, which is taken one after the
/// operand; every operator has one, also where the evaluators have a rule of
/// their own for it.
pub open spec fn real_fn_of(op: UnaryOp) -> RealFn {
    match op {
        UnaryOp::Negative => RealFn::Neg,
        UnaryOp::Abs => RealFn::Abs,
        UnaryOp::Floor => RealFn::Floor,
        UnaryOp::Ceil => RealFn::Ceil,
        UnaryOp::Round => RealFn::Round,
        UnaryOp::Truncate => RealFn::Trunc,
        UnaryOp::Sin => RealFn::Sin,
        UnaryOp::Cos => RealFn::Cos,
        UnaryOp::Tan => RealFn::Tan,
        UnaryOp::Sinh => RealFn::Sinh,
        UnaryOp::Cosh => RealFn::Cosh,
        UnaryOp::Tanh => RealFn::Tanh,
        UnaryOp::Arsinh => RealFn::Asinh,
        UnaryOp::Arcosh => RealFn::Acosh,
        UnaryOp::Artanh => RealFn::Atanh,
        UnaryOp::Asin => RealFn::Asin,
        UnaryOp::Acos => RealFn::Acos,
        UnaryOp::Atan => RealFn::Atan,
        UnaryOp::Sqrt => RealFn::Sqrt,
        UnaryOp::Ln => RealFn::Ln,
        UnaryOp::Exp => RealFn::Exp,
        UnaryOp::Exp2 => RealFn::Exp2,
        UnaryOp::LambertW => RealFn::LambertW,
        UnaryOp::Factorial => RealFn::Gamma,
        UnaryOp::Lb => RealFn::Log2,
        UnaryOp::Sign => RealFn::Signum,
    }
}

/// The floating-point operation that a binary operator is computed with:
/// its own for the arithmetic operators, the logarithm and the angle, and
/// the power for every other, of which the root is a power too.
pub open spec fn real_op_of(op: BinaryOp) -> RealOp {
    match op {
        BinaryOp::Add => RealOp::Add,
        BinaryOp::Subtract => RealOp::Sub,
        BinaryOp::Multiply => RealOp::Mul,
        BinaryOp::Divide => RealOp::Div,
        BinaryOp::Modulo => RealOp::Rem,
        BinaryOp::Atan2 => RealOp::Atan2,
        BinaryOp::Log => RealOp::Log,
        _ => RealOp::Pow,
    }
}

/// Whether `r` is what the unit makes of the integer `v` through `f`: the
/// integer as a floating-point value, `f` of that, and that cut off toward
/// zero.
pub open spec fn goes_through<U: FloatUnit>(unit: &U, f: RealFn, v: i64, r: i64) -> bool {
    exists|x: u64, y: u64|
        gives_from_int(unit, v, x) && #[trigger] gives_unary(unit, f, x, y) && gives_to_int(
            unit,
            y,
            r,
        )
}

/// Whether `r` is what the unit gives for the gamma function of `x` plus
/// one.
pub open spec fn is_gamma_of_successor<U: FloatUnit>(unit: &U, x: u64, r: u64) -> bool {
    exists|one: u64, next: u64|
        gives_from_int(unit, 1, one) && #[trigger] gives_binary(unit, RealOp::Add, x, one, next)
            && gives_unary(unit, RealFn::Gamma, next, r)
}

/// Whether a comparison with the greatest `i64` says that a value is not
/// above it.
pub open spec fn not_above(c: Comparison) -> bool {
    c is Less || c is Equal
}

/// Whether a comparison with the least `i64` says that a value is not below
/// it.
pub open spec fn not_below(c: Comparison) -> bool {
    c is Greater || c is Equal
}

/// Whether `r` is the number that a rounded value is. The unit compares the
/// value with the greatest and with the least `i64`; between the two, the
/// number is the integer that the unit makes of the value, and elsewhere it
/// is the value itself.
pub open spec fn is_retagged<U: FloatUnit>(unit: &U, rounded: u64, r: Number) -> bool {
    exists|greatest: u64, least: u64, high: Comparison, low: Comparison|
        gives_from_int(unit, i64::MAX, greatest) && gives_from_int(unit, i64::MIN, least)
            && #[trigger] gives_compare(unit, rounded, greatest, high) && #[trigger] gives_compare(
            unit,
            rounded,
            least,
            low,
        ) && if not_above(high) && not_below(low) {
            r is Integer && gives_to_int(unit, rounded, r->Integer_0)
        } else {
            r == Number::Float(rounded)
        }
}

/// Whether `sum` is what the unit gives for the numbers added up from the
/// left, starting from zero.
pub open spec fn sums_to<U: FloatUnit>(unit: &U, values: Seq<Number>, sum: u64) -> bool
    decreases values.len(),
{
    if values.len() == 0 {
        sum == ZERO
    } else {
        exists|before: u64, last: u64|
            sums_to(unit, values.drop_last(), before) && widened(unit, values.last(), last)
                && #[trigger] gives_binary(unit, RealOp::Add, before, last, sum)
    }
}

/// The count of a list as an `i64`; the greatest one for a longer list.
pub open spec fn counted(len: nat) -> i64 {
    if len <= i64::MAX {
        len as i64
    } else {
        i64::MAX
    }
}

/// Whether `r` is what the unit gives for the arithmetic mean: the sum from
/// the left, divided by the count.
pub open spec fn is_mean<U: FloatUnit>(unit: &U, values: Seq<Number>, r: u64) -> bool {
    exists|sum: u64, count: u64|
        sums_to(unit, values, sum) && gives_from_int(unit, counted(values.len()), count)
            && #[trigger] gives_binary(unit, RealOp::Div, sum, count, r)
}

} // verus!
