//! The evaluator of the number dialect: a fold over the tree of a formula.
//!
//! Integers are computed exactly, and a result stays an integer as long as
//! it is one that fits. Everything else is computed by the caller's
//! floating-point unit. What this module proves of a result is what can be
//! said of it whatever the unit does.
use vstd::prelude::*;
use crate::ast::{BinaryOp, Expr, Node, UnaryOp, VariadicOp};
use crate::float::{
    counted, gives_binary, gives_compare, gives_from_int, gives_to_int, gives_unary,
    is_gamma_of_successor, is_mean, is_retagged, not_above, not_below, real_fn_of, real_op_of,
    sums_to, widened, Comparison, FloatUnit, RealFn, RealOp,
};
use crate::number::{
    exact_gcd, exact_lcm, exact_power, exact_quotient, exact_remainder, factorial, int_abs,
    int_add, int_and, int_div, int_factorial, gcd, lcm, int_mul, int_neg, int_or,
    int_pow, int_rem, int_shl, int_shr, int_sign, int_sub, magnitude, narrowed, shiftable,
    sign_of, EvalError, Number, FACTORIAL_LIMIT, NAN, ZERO,
};

verus! {

/// What is known of the value of a formula without a floating-point unit.
pub enum Outcome {
    /// The integer that it is.
    Exact(i64),
    /// The error that evaluation ends with.
    Fails(EvalError),
    /// It is a `Float`, which the unit computes.
    Real,
    /// It is an `Integer`, which the unit decides on.
    Whole,
    /// It is a number; the unit decides of which kind.
    Sure,
    /// It depends on the unit whether it is a number or an error.
    Open,
}

/// Whether `r` is a result that `o` allows.
pub open spec fn describes(o: Outcome, r: Result<Number, EvalError>) -> bool {
    match o {
        Outcome::Exact(v) => r == Ok::<Number, EvalError>(Number::Integer(v)),
        Outcome::Fails(e) => r == Err::<Number, EvalError>(e),
        Outcome::Real => r is Ok && r->Ok_0 is Float,
        Outcome::Whole => r is Ok && r->Ok_0 is Integer,
        Outcome::Sure => r is Ok,
        Outcome::Open => true,
    }
}

/// What a number says of itself.
pub open spec fn known(x: Number) -> Outcome {
    match x {
        Number::Integer(v) => Outcome::Exact(v),
        Number::Float(_) => Outcome::Real,
    }
}

/// An integer that fits stays exact; one that does not is computed again in
/// floating point.
pub open spec fn promoted(v: Option<i64>) -> Outcome {
    match v {
        Some(v) => Outcome::Exact(v),
        None => Outcome::Real,
    }
}

/// Whether evaluation goes on after `o`: it is a number for certain.
pub open spec fn settled(o: Outcome) -> bool {
    o is Exact || o is Real || o is Whole || o is Sure
}

/// Whether a number with this outcome may be an `Integer`.
pub open spec fn may_be_integer(o: Outcome) -> bool {
    o is Exact || o is Whole || o is Sure
}

/// Whether a number with this outcome may be a `Float`.
pub open spec fn may_be_float(o: Outcome) -> bool {
    o is Real || o is Sure
}

/// What is known of a number that is one of several: its kind, where they
/// all have the same.
pub open spec fn blend(os: Seq<Outcome>) -> Outcome {
    if forall|i: int| 0 <= i < os.len() ==> !may_be_integer(#[trigger] os[i]) {
        Outcome::Real
    } else if forall|i: int| 0 <= i < os.len() ==> !may_be_float(#[trigger] os[i]) {
        Outcome::Whole
    } else {
        Outcome::Sure
    }
}

/// The operators that round to an integer.
pub open spec fn is_rounding(op: UnaryOp) -> bool {
    op is Floor || op is Ceil || op is Round || op is Truncate
}

/// The outcome of a unary operator on an operand that is a number.
pub open spec fn unary_value(op: UnaryOp, a: Outcome) -> Outcome
    recommends
        settled(a),
{
    match a {
        Outcome::Exact(v) => match op {
            UnaryOp::Negative => promoted(narrowed(-v)),
            UnaryOp::Abs => promoted(narrowed(magnitude(v as int))),
            UnaryOp::Floor | UnaryOp::Ceil | UnaryOp::Round | UnaryOp::Truncate => Outcome::Exact(
                v,
            ),
            UnaryOp::Sign => Outcome::Exact(sign_of(v as int) as i64),
            UnaryOp::Factorial => if v < 0 {
                Outcome::Fails(EvalError::FactorialUndefined)
            } else if v <= FACTORIAL_LIMIT {
                Outcome::Exact(factorial(v as nat) as i64)
            } else {
                Outcome::Real
            },
            UnaryOp::Sqrt => if v < 0 {
                Outcome::Fails(EvalError::NegativeSquareRoot)
            } else {
                Outcome::Real
            },
            UnaryOp::LambertW => if v < 0 {
                Outcome::Fails(EvalError::LambertWUndefined)
            } else {
                Outcome::Real
            },
            _ => Outcome::Real,
        },
        Outcome::Real => if is_rounding(op) {
            Outcome::Sure
        } else if op is Sign {
            Outcome::Whole
        } else if op is Sqrt || op is LambertW {
            Outcome::Open
        } else {
            Outcome::Real
        },
        Outcome::Whole | Outcome::Sure => if is_rounding(op) {
            a
        } else if op is Sign {
            Outcome::Whole
        } else if op is Negative || op is Abs {
            Outcome::Sure
        } else if op is Sqrt || op is LambertW || op is Factorial {
            Outcome::Open
        } else {
            Outcome::Real
        },
        _ => a,
    }
}

/// The outcome of a binary operator on operands that are numbers. A
/// floating-point operand makes the result one; two integers give an integer
/// where the result is one that fits.
pub open spec fn binary_value(op: BinaryOp, a: Outcome, b: Outcome) -> Outcome
    recommends
        settled(a),
        settled(b),
{
    if op is ILog {
        Outcome::Whole
    } else if op is Root || op is Log || op is Atan2 {
        Outcome::Real
    } else {
        match (a, b) {
            (Outcome::Exact(x), Outcome::Exact(y)) => match op {
                BinaryOp::Add => promoted(narrowed(x + y)),
                BinaryOp::Subtract => promoted(narrowed(x - y)),
                BinaryOp::Multiply => promoted(narrowed(x * y)),
                BinaryOp::Divide => promoted(exact_quotient(x as int, y as int)),
                BinaryOp::Modulo => promoted(exact_remainder(x as int, y as int)),
                BinaryOp::Pow => promoted(exact_power(x as int, y as int)),
                BinaryOp::And => Outcome::Exact(x & y),
                BinaryOp::Or => Outcome::Exact(x | y),
                BinaryOp::LeftShift => if shiftable(y as int) {
                    Outcome::Exact(x << y)
                } else {
                    Outcome::Real
                },
                BinaryOp::RightShift => if shiftable(y as int) {
                    Outcome::Exact(x >> y)
                } else {
                    Outcome::Real
                },
                _ => Outcome::Real,
            },
            _ => if a is Real || b is Real {
                Outcome::Real
            } else {
                Outcome::Sure
            },
        }
    }
}

/// The operators on the bits of integers. Among numbers they give an
/// integer where both operands are integers and `i64` has the result, and
/// no number elsewhere.
pub open spec fn is_bitwise(op: BinaryOp) -> bool {
    op is And || op is Or || op is LeftShift || op is RightShift
}

/// The integers of outcomes that are all exact.
pub open spec fn integers(os: Seq<Outcome>) -> Seq<int> {
    Seq::new(os.len(), |i: int| os[i]->Exact_0 as int)
}

/// Whether every outcome of a list is an integer that is known.
pub open spec fn all_exact(os: Seq<Outcome>) -> bool {
    forall|i: int| 0 <= i < os.len() ==> (#[trigger] os[i]) is Exact
}

/// The outcome of the greatest common divisor or the least common multiple
/// of two numbers: that of two integers where it fits, a floating-point
/// value elsewhere.
pub open spec fn divisor_value(op: VariadicOp, a: Outcome, b: Outcome) -> Outcome
    recommends
        op is Gcd || op is Lcm,
{
    match (a, b) {
        (Outcome::Exact(x), Outcome::Exact(y)) => promoted(
            if op is Gcd {
                exact_gcd(x as int, y as int)
            } else {
                exact_lcm(x as int, y as int)
            },
        ),
        _ => if a is Real || b is Real {
            Outcome::Real
        } else {
            Outcome::Sure
        },
    }
}

/// The outcome of `Gcd` or `Lcm` over a list, from the left; of one number
/// it is that number, of none it is zero.
pub open spec fn folded(op: VariadicOp, os: Seq<Outcome>) -> Outcome
    decreases os.len(),
{
    if os.len() == 0 {
        Outcome::Exact(0)
    } else if os.len() == 1 {
        os[0]
    } else {
        divisor_value(op, folded(op, os.drop_last()), os.last())
    }
}

/// The outcome of a reducer on operands that are numbers.
///
/// Of integers alone, `Min` and `Max` are the least and the greatest, and
/// `Med` of an odd count is the middle one in ascending order; in any case
/// they are one of the operands. Of nothing, every reducer but `Avg` is zero.
pub open spec fn variadic_value(op: VariadicOp, os: Seq<Outcome>) -> Outcome {
    match op {
        VariadicOp::Gcd | VariadicOp::Lcm => folded(op, os),
        VariadicOp::Avg => Outcome::Real,
        VariadicOp::Min => if os.len() == 0 {
            Outcome::Exact(0)
        } else if os.len() == 1 {
            os[0]
        } else if all_exact(os) {
            Outcome::Exact(integers(os).min() as i64)
        } else {
            blend(os)
        },
        VariadicOp::Max => if os.len() == 0 {
            Outcome::Exact(0)
        } else if os.len() == 1 {
            os[0]
        } else if all_exact(os) {
            Outcome::Exact(integers(os).max() as i64)
        } else {
            blend(os)
        },
        VariadicOp::Med => if os.len() == 0 {
            Outcome::Exact(0)
        } else if os.len() % 2 == 0 {
            Outcome::Real
        } else if all_exact(os) {
            Outcome::Exact(integers(os).sort()[os.len() as int / 2] as i64)
        } else {
            blend(os)
        },
    }
}

/// The first outcome from index `from` on that ends or clouds an evaluation
/// in order.
pub open spec fn trouble_from(os: Seq<Outcome>, from: int) -> Option<Outcome>
    decreases os.len() - from,
{
    if from < 0 || from >= os.len() {
        None
    } else if settled(os[from]) {
        trouble_from(os, from + 1)
    } else {
        Some(os[from])
    }
}

/// What is known of the value of `e`. Operands are evaluated in their
/// order, but for a root, whose second operand comes first; the first error
/// ends the evaluation.
pub open spec fn outcome(e: Expr) -> Outcome
    decreases e,
{
    match e {
        Expr::Num(n) => known(n),
        Expr::Decimal(_) => Outcome::Real,
        Expr::Unary(op, operand) => unary_value(op, outcome(*operand)),
        Expr::Binary(op, left, right) => {
            let l = outcome(*left);
            let r = outcome(*right);
            let order = if op is Root {
                seq![r, l]
            } else {
                seq![l, r]
            };
            match trouble_from(order, 0) {
                Some(t) => t,
                None => binary_value(op, l, r),
            }
        },
        Expr::Variadic(op, args) => {
            let os = outcomes(args);
            match trouble_from(os, 0) {
                Some(t) => t,
                None => variadic_value(op, os),
            }
        },
    }
}

/// What is known of the values of the operands of a reducer.
pub open spec fn outcomes(args: Seq<Expr>) -> Seq<Outcome>
    decreases args,
{
    Seq::new(
        args.len(),
        |i: int|
            if 0 <= i < args.len() {
                outcome(args[i])
            } else {
                Outcome::Open
            },
    )
}

/// A number as a floating-point value: its own where it is one, the unit's
/// conversion of the integer where it is not.
pub fn widen<U: FloatUnit>(x: Number, unit: &U) -> (bits: u64)
    ensures
        x is Float ==> bits == x->Float_0,
        widened(unit, x, bits),
{
    match x {
        Number::Float(f) => f,
        Number::Integer(v) => unit.from_int(v),
    }
}

/// A rounded floating-point value as a number: an integer where the unit
/// finds it between the least and the greatest `i64`, itself elsewhere.
pub fn retag<U: FloatUnit>(rounded: u64, unit: &U) -> (r: Number)
    ensures
        r is Integer || r == Number::Float(rounded),
        is_retagged(unit, rounded, r),
{
    let greatest = unit.from_int(i64::MAX);
    let high = unit.compare(rounded, greatest);
    let below = match high {
        Comparison::Less | Comparison::Equal => true,
        _ => false,
    };
    let least = unit.from_int(i64::MIN);
    let low = unit.compare(rounded, least);
    let above = match low {
        Comparison::Greater | Comparison::Equal => true,
        _ => false,
    };
    let r = if below && above {
        Number::Integer(unit.to_int(rounded))
    } else {
        Number::Float(rounded)
    };
    proof {
        assert(gives_compare(unit, rounded, greatest, high));
        assert(gives_compare(unit, rounded, least, low));
    }
    r
}

/// The floating-point function that an operator is computed with. For the
/// factorial it is the gamma function, which is taken one after the operand.
pub(crate) fn real_fn(op: UnaryOp) -> (f: RealFn)
    ensures
        f == real_fn_of(op),
{
    match op {
        UnaryOp::Negative => RealFn::Neg,
        UnaryOp::Abs => RealFn::Abs,
        UnaryOp::Floor => RealFn::Floor,
        UnaryOp::Ceil => RealFn::Ceil,
        UnaryOp::Round => RealFn::Round,
        UnaryOp::Truncate => RealFn::Trunc,
        UnaryOp::Sin => RealFn::Sin,
        UnaryOp::Cos => RealFn::Cos,
        UnaryOp::Tan => RealFn::Tan,
        UnaryOp::Sinh => RealFn::Sinh,
        UnaryOp::Cosh => RealFn::Cosh,
        UnaryOp::Tanh => RealFn::Tanh,
        UnaryOp::Arsinh => RealFn::Asinh,
        UnaryOp::Arcosh => RealFn::Acosh,
        UnaryOp::Artanh => RealFn::Atanh,
        UnaryOp::Asin => RealFn::Asin,
        UnaryOp::Acos => RealFn::Acos,
        UnaryOp::Atan => RealFn::Atan,
        UnaryOp::Sqrt => RealFn::Sqrt,
        UnaryOp::Ln => RealFn::Ln,
        UnaryOp::Exp => RealFn::Exp,
        UnaryOp::Exp2 => RealFn::Exp2,
        UnaryOp::LambertW => RealFn::LambertW,
        UnaryOp::Factorial => RealFn::Gamma,
        UnaryOp::Lb => RealFn::Log2,
        UnaryOp::Sign => RealFn::Signum,
    }
}

/// The one error that a unary operator can end with.
pub open spec fn failure_of(op: UnaryOp) -> Option<EvalError> {
    match op {
        UnaryOp::Factorial => Some(EvalError::FactorialUndefined),
        UnaryOp::Sqrt => Some(EvalError::NegativeSquareRoot),
        UnaryOp::LambertW => Some(EvalError::LambertWUndefined),
        _ => None,
    }
}

/// Applies a unary operator to a number. Whatever the unit does, the only
/// error is the operator's own, and a rounded number is an integer or a
/// floating-point value.
pub fn apply_unary<U: FloatUnit>(op: UnaryOp, x: Number, unit: &U) -> (r: Result<
    Number,
    EvalError,
>)
    ensures
        describes(unary_value(op, known(x)), r),
        r is Err ==> failure_of(op) == Some(r->Err_0),
        op is Sign ==> r is Ok && r->Ok_0 is Integer && -1 <= r->Ok_0->Integer_0 <= 1,
        x is Float && op is Factorial ==> r is Ok,
{
    match op {
        UnaryOp::Negative => match x {
            Number::Integer(v) => match int_neg(v) {
                Some(n) => Ok(Number::Integer(n)),
                None => Ok(Number::Float(unit.unary(RealFn::Neg, unit.from_int(v)))),
            },
            Number::Float(f) => Ok(Number::Float(unit.unary(RealFn::Neg, f))),
        },
        UnaryOp::Abs => match x {
            Number::Integer(v) => match int_abs(v) {
                Some(n) => Ok(Number::Integer(n)),
                None => Ok(Number::Float(unit.unary(RealFn::Abs, unit.from_int(v)))),
            },
            Number::Float(f) => Ok(Number::Float(unit.unary(RealFn::Abs, f))),
        },
        UnaryOp::Floor | UnaryOp::Ceil | UnaryOp::Round | UnaryOp::Truncate => match x {
            Number::Integer(_) => Ok(x),
            Number::Float(f) => Ok(retag(unit.unary(real_fn(op), f), unit)),
        },
        UnaryOp::Sign => match x {
            Number::Integer(v) => Ok(Number::Integer(int_sign(v))),
            Number::Float(f) => match unit.compare(f, ZERO) {
                Comparison::Greater => Ok(Number::Integer(1)),
                Comparison::Equal => Ok(Number::Integer(0)),
                _ => Ok(Number::Integer(-1)),
            },
        },
        UnaryOp::Factorial => match x {
            Number::Integer(v) => {
                if v < 0 {
                    Err(EvalError::FactorialUndefined)
                } else if v <= FACTORIAL_LIMIT {
                    Ok(Number::Integer(int_factorial(v)))
                } else {
                    Ok(Number::Float(gamma_of_successor(unit.from_int(v), unit)))
                }
            },
            Number::Float(f) => Ok(Number::Float(gamma_of_successor(f, unit))),
        },
        UnaryOp::Sqrt => match x {
            Number::Integer(v) => {
                if v < 0 {
                    Err(EvalError::NegativeSquareRoot)
                } else {
                    Ok(Number::Float(unit.unary(RealFn::Sqrt, unit.from_int(v))))
                }
            },
            Number::Float(f) => match unit.compare(f, ZERO) {
                Comparison::Less => Err(EvalError::NegativeSquareRoot),
                _ => Ok(Number::Float(unit.unary(RealFn::Sqrt, f))),
            },
        },
        UnaryOp::LambertW => match x {
            Number::Integer(v) => {
                if v < 0 {
                    Err(EvalError::LambertWUndefined)
                } else {
                    Ok(Number::Float(unit.unary(RealFn::LambertW, unit.from_int(v))))
                }
            },
            Number::Float(f) => {
                let least = unit.unary(RealFn::Neg, unit.unary(RealFn::Exp, unit.from_int(-1)));
                match unit.compare(f, least) {
                    Comparison::Less => Err(EvalError::LambertWUndefined),
                    _ => Ok(Number::Float(unit.unary(RealFn::LambertW, f))),
                }
            },
        },
        _ => Ok(Number::Float(unit.unary(real_fn(op), widen(x, unit)))),
    }
}

/// The gamma function one after `x`, which continues the factorial.
fn gamma_of_successor<U: FloatUnit>(x: u64, unit: &U) -> (r: u64)
    ensures
        is_gamma_of_successor(unit, x, r),
{
    let one = unit.from_int(1);
    let next = unit.binary(RealOp::Add, x, one);
    let r = unit.unary(real_fn(UnaryOp::Factorial), next);
    proof {
        assert(gives_binary(unit, RealOp::Add, x, one, next));
    }
    r
}

/// The floating-point operation of an arithmetic operator.
pub(crate) fn real_op(op: BinaryOp) -> (operation: RealOp)
    ensures
        operation == real_op_of(op),
{
    match op {
        BinaryOp::Add => RealOp::Add,
        BinaryOp::Subtract => RealOp::Sub,
        BinaryOp::Multiply => RealOp::Mul,
        BinaryOp::Divide => RealOp::Div,
        BinaryOp::Modulo => RealOp::Rem,
        BinaryOp::Atan2 => RealOp::Atan2,
        BinaryOp::Log => RealOp::Log,
        _ => RealOp::Pow,
    }
}

/// The exact result of an arithmetic operator on two integers, where there
/// is one that fits.
pub fn exact_binary(op: BinaryOp, a: i64, b: i64) -> (r: Option<i64>)
    ensures
        !(op is ILog) ==> promoted(r) == binary_value(op, Outcome::Exact(a), Outcome::Exact(b)),
{
    match op {
        BinaryOp::Add => int_add(a, b),
        BinaryOp::Subtract => int_sub(a, b),
        BinaryOp::Multiply => int_mul(a, b),
        BinaryOp::Divide => int_div(a, b),
        BinaryOp::Modulo => int_rem(a, b),
        BinaryOp::Pow => int_pow(a, b),
        BinaryOp::And => Some(int_and(a, b)),
        BinaryOp::Or => Some(int_or(a, b)),
        BinaryOp::LeftShift => int_shl(a, b),
        BinaryOp::RightShift => int_shr(a, b),
        _ => None,
    }
}

/// Applies a binary operator to two numbers.
pub fn apply_binary<U: FloatUnit>(op: BinaryOp, a: Number, b: Number, unit: &U) -> (r: Number)
    ensures
        describes(binary_value(op, known(a), known(b)), Ok(r)),
{
    match op {
        BinaryOp::And | BinaryOp::Or | BinaryOp::LeftShift | BinaryOp::RightShift => {
            match (a, b) {
                (Number::Integer(x), Number::Integer(y)) => match exact_binary(op, x, y) {
                    Some(v) => Number::Integer(v),
                    None => Number::Float(NAN),
                },
                _ => Number::Float(NAN),
            }
        },
        BinaryOp::ILog => Number::Integer(unit.ilog(widen(a, unit), widen(b, unit))),
        BinaryOp::Root => {
            let one = unit.from_int(1);
            let share = unit.binary(RealOp::Div, one, widen(a, unit));
            Number::Float(unit.binary(RealOp::Pow, widen(b, unit), share))
        },
        _ => {
            match (a, b) {
                (Number::Integer(x), Number::Integer(y)) => match exact_binary(op, x, y) {
                    Some(v) => Number::Integer(v),
                    None => {
                        let base = unit.from_int(x);
                        match op {
                            BinaryOp::Pow => {
                                if y < 0 && y >= -0x8000_0000 {
                                    Number::Float(unit.powi(base, y as i32))
                                } else {
                                    Number::Float(
                                        unit.binary(RealOp::Pow, base, unit.from_int(y)),
                                    )
                                }
                            },
                            _ => Number::Float(unit.binary(real_op(op), base, unit.from_int(y))),
                        }
                    },
                },
                _ => Number::Float(unit.binary(real_op(op), widen(a, unit), widen(b, unit))),
            }
        },
    }
}

/// The integers of numbers that are all integers.
pub open spec fn ints(values: Seq<Number>) -> Seq<int> {
    Seq::new(values.len(), |i: int| values[i]->Integer_0 as int)
}

/// Whether every number of a list is an integer.
pub open spec fn all_integer(values: Seq<Number>) -> bool {
    forall|i: int| 0 <= i < values.len() ==> (#[trigger] values[i]) is Integer
}

/// What a list of numbers says of itself.
pub open spec fn knowns(values: Seq<Number>) -> Seq<Outcome> {
    Seq::new(values.len(), |i: int| known(values[i]))
}

/// Whether no element is greater than one after it.
pub open spec fn ascending(s: Seq<int>) -> bool {
    forall|i: int, j: int| 0 <= i < j < s.len() ==> s[i] <= s[j]
}

/// An ascending sequence with the elements of `s` is `s` in order.
pub proof fn lemma_ascending_is_sort(sorted: Seq<int>, s: Seq<int>)
    requires
        ascending(sorted),
        sorted.to_multiset() == s.to_multiset(),
    ensures
        sorted == s.sort(),
{
    let leq = |x: int, y: int| x <= y;
    s.lemma_sort_ensures();
    assert(vstd::relations::sorted_by(sorted, leq)) by {
        assert forall|i: int, j: int| 0 <= i < j < sorted.len() implies #[trigger] leq(
            sorted[i],
            sorted[j],
        ) by {}
    }
    assert(vstd::relations::total_ordering(leq));
    vstd::seq_lib::lemma_sorted_unique(sorted, s.sort(), leq);
}

/// Whether `a` is greater than `b`: exactly for two integers, by the unit's
/// comparison otherwise.
pub fn exceeds<U: FloatUnit>(a: Number, b: Number, unit: &U) -> (r: bool)
    ensures
        a is Integer && b is Integer ==> r == (a->Integer_0 > b->Integer_0),
{
    match (a, b) {
        (Number::Integer(x), Number::Integer(y)) => x > y,
        _ => match unit.compare(widen(a, unit), widen(b, unit)) {
            Comparison::Greater => true,
            _ => false,
        },
    }
}

/// The numbers in ascending order; numbers that do not exceed one another
/// keep their order.
pub fn sort_numbers<U: FloatUnit>(values: &Vec<Number>, unit: &U) -> (sorted: Vec<Number>)
    ensures
        sorted.len() == values.len(),
        sorted@.to_multiset() == values@.to_multiset(),
        all_integer(values@) ==> all_integer(sorted@) && ints(sorted@) == ints(values@).sort(),
{
    let mut sorted: Vec<Number> = Vec::new();
    let mut i: usize = 0;
    proof {
        assert(ints(sorted@) =~= ints(values@.take(0)));
        assert(sorted@ =~= values@.take(0));
    }
    while i < values.len()
        invariant
            i <= values.len(),
            sorted.len() == i,
            sorted@.to_multiset() == values@.take(i as int).to_multiset(),
            all_integer(values@) ==> all_integer(sorted@) && ascending(ints(sorted@)) && ints(
                sorted@,
            ).to_multiset() == ints(values@.take(i as int)).to_multiset(),
        decreases values.len() - i,
    {
        let x = values[i];
        let mut pos: usize = sorted.len();
        while pos > 0 && exceeds(sorted[pos - 1], x, unit)
            invariant
                pos <= sorted.len(),
                sorted.len() == i,
                i < values.len(),
                x == values[i as int],
                all_integer(values@) ==> all_integer(sorted@) && forall|k: int|
                    pos <= k < sorted.len() ==> (#[trigger] sorted[k])->Integer_0
                        > x->Integer_0,
            decreases pos,
        {
            pos = pos - 1;
        }
        let ghost before = sorted@;
        sorted.insert(pos, x);
        proof {
            vstd::seq_lib::to_multiset_insert(before, pos as int, x);
            assert(values@.take(i + 1) =~= values@.take(i as int).push(x));
            vstd::seq_lib::to_multiset_build(values@.take(i as int), x);
            if all_integer(values@) {
                assert(x is Integer);
                let v = x->Integer_0 as int;
                assert(all_integer(sorted@)) by {
                    assert forall|k: int| 0 <= k < sorted.len() implies (
                    #[trigger] sorted[k]) is Integer by {
                        if k < pos {
                            assert(sorted[k] == before[k]);
                        } else if k > pos {
                            assert(sorted[k] == before[k - 1]);
                        }
                    }
                }
                assert(ints(sorted@) =~= ints(before).insert(pos as int, v));
                assert(ascending(ints(sorted@))) by {
                    assert forall|a: int, b: int| 0 <= a < b < sorted.len() implies ints(
                        sorted@,
                    )[a] <= ints(sorted@)[b] by {
                        let old_a = if a < pos {
                            a
                        } else {
                            a - 1
                        };
                        let old_b = if b < pos {
                            b
                        } else {
                            b - 1
                        };
                        if a != pos && b != pos {
                            assert(ints(before)[old_a] <= ints(before)[old_b]);
                        } else if a == pos {
                            assert(before[old_b]->Integer_0 > v);
                        } else {
                            if pos > 0 {
                                assert(ints(before)[old_a] <= ints(before)[pos - 1]);
                            }
                        }
                    }
                }
                vstd::seq_lib::to_multiset_insert(ints(before), pos as int, v);
                assert(values@.take(i + 1) =~= values@.take(i as int).push(x));
                assert(ints(values@.take(i + 1)) =~= ints(values@.take(i as int)).push(v));
                vstd::seq_lib::to_multiset_build(ints(values@.take(i as int)), v);
            }
        }
        i = i + 1;
    }
    proof {
        assert(values@.take(i as int) =~= values@);
        if all_integer(values@) {
            lemma_ascending_is_sort(ints(sorted@), ints(values@));
        }
    }
    sorted
}

/// The least or the greatest of at least one number: of two that do not
/// differ in the asked direction, the later one.
fn extreme<U: FloatUnit>(values: &Vec<Number>, greatest: bool, unit: &U) -> (r: Number)
    requires
        values.len() > 0,
    ensures
        values@.contains(r),
        all_integer(values@) ==> r is Integer && r->Integer_0 == (if greatest {
            ints(values@).max()
        } else {
            ints(values@).min()
        }),
{
    let mut result = values[0];
    let mut i: usize = 1;
    while i < values.len()
        invariant
            1 <= i <= values.len(),
            values@.contains(result),
            all_integer(values@) ==> result is Integer && (exists|j: int|
                0 <= j < i && values[j] == result) && (forall|k: int|
                0 <= k < i ==> if greatest {
                    (#[trigger] values[k])->Integer_0 <= result->Integer_0
                } else {
                    result->Integer_0 <= (#[trigger] values[k])->Integer_0
                }),
        decreases values.len() - i,
    {
        let next = values[i];
        let keep = if greatest {
            exceeds(result, next, unit)
        } else {
            exceeds(next, result, unit)
        };
        if !keep {
            result = next;
        }
        i = i + 1;
    }
    proof {
        if all_integer(values@) {
            let s = ints(values@);
            let j = choose|j: int| 0 <= j < values.len() && values[j] == result;
            assert(s[j] == result->Integer_0);
            s.max_ensures();
            s.min_ensures();
            if greatest {
                let m = s.max();
                assert(s.contains(m));
                let k = choose|k: int| 0 <= k < s.len() && s[k] == m;
                assert(values[k]->Integer_0 <= result->Integer_0);
            } else {
                let m = s.min();
                assert(s.contains(m));
                let k = choose|k: int| 0 <= k < s.len() && s[k] == m;
                assert(result->Integer_0 <= values[k]->Integer_0);
            }
        }
    }
    result
}

/// The greatest common divisor or the least common multiple of two numbers.
/// Of two integers it is an integer where it fits and is computed again in
/// floating point where it does not; of anything else it is no number.
pub fn common<U: FloatUnit>(op: VariadicOp, a: Number, b: Number, unit: &U) -> (r: Number)
    requires
        op is Gcd || op is Lcm,
    ensures
        known(r) == divisor_value(op, known(a), known(b)),
{
    match (a, b) {
        (Number::Integer(x), Number::Integer(y)) => {
            let exact = match op {
                VariadicOp::Gcd => gcd(x, y),
                _ => lcm(x, y),
            };
            match exact {
                Some(v) => Number::Integer(v),
                None => {
                    let divisor = match gcd(x, y) {
                        Some(g) => unit.from_int(g),
                        None => unit.unary(RealFn::Neg, unit.from_int(i64::MIN)),
                    };
                    match op {
                        VariadicOp::Gcd => Number::Float(divisor),
                        _ => {
                            let share = unit.binary(RealOp::Div, unit.from_int(x), divisor);
                            let multiple = unit.binary(RealOp::Mul, share, unit.from_int(y));
                            Number::Float(unit.unary(RealFn::Abs, multiple))
                        },
                    }
                },
            }
        },
        _ => Number::Float(NAN),
    }
}

/// `Gcd` or `Lcm` over at least one number, from the left.
fn fold_common<U: FloatUnit>(op: VariadicOp, values: &Vec<Number>, unit: &U) -> (r: Number)
    requires
        op is Gcd || op is Lcm,
        values.len() > 0,
    ensures
        known(r) == folded(op, knowns(values@)),
{
    let mut result = values[0];
    let mut i: usize = 1;
    proof {
        assert(knowns(values@.take(1)).len() == 1);
        assert(knowns(values@.take(1))[0] == known(values[0]));
    }
    while i < values.len()
        invariant
            1 <= i <= values.len(),
            op is Gcd || op is Lcm,
            known(result) == folded(op, knowns(values@.take(i as int))),
        decreases values.len() - i,
    {
        proof {
            let longer = knowns(values@.take(i + 1));
            assert(longer.drop_last() =~= knowns(values@.take(i as int)));
            assert(longer.last() == known(values[i as int]));
        }
        result = common(op, result, values[i], unit);
        i = i + 1;
    }
    proof {
        assert(values@.take(i as int) =~= values@);
    }
    result
}

/// The arithmetic mean, in floating point.
fn mean<U: FloatUnit>(values: &Vec<Number>, unit: &U) -> (r: u64)
    ensures
        is_mean(unit, values@, r),
{
    let mut sum = ZERO;
    let mut count: i64 = 0;
    let mut i: usize = 0;
    proof {
        assert(values@.take(0).len() == 0);
    }
    while i < values.len()
        invariant
            i <= values.len(),
            count == counted(i as nat),
            sums_to(unit, values@.take(i as int), sum),
        decreases values.len() - i,
    {
        let term = widen(values[i], unit);
        let longer = unit.binary(RealOp::Add, sum, term);
        proof {
            let taken = values@.take(i + 1);
            assert(taken.drop_last() =~= values@.take(i as int));
            assert(taken.last() == values[i as int]);
            assert(gives_binary(unit, RealOp::Add, sum, term, longer));
            assert(sums_to(unit, taken, longer));
        }
        sum = longer;
        if count < i64::MAX {
            count = count + 1;
        }
        i = i + 1;
    }
    let divisor = unit.from_int(count);
    let r = unit.binary(RealOp::Div, sum, divisor);
    proof {
        assert(values@.take(i as int) =~= values@);
        assert(gives_binary(unit, RealOp::Div, sum, divisor, r));
    }
    r
}

/// Applies a reducer to the numbers of its operands, in their order.
/// Whatever the unit does, the least, the greatest and the middle one of an
/// odd count are among the operands.
pub fn reduce<U: FloatUnit>(op: VariadicOp, values: &Vec<Number>, unit: &U) -> (r: Number)
    ensures
        describes(variadic_value(op, knowns(values@)), Ok(r)),
        (op is Min || op is Max) && values.len() > 0 ==> values@.contains(r),
        op is Med && values.len() % 2 == 1 ==> values@.contains(r),
{
    let len = values.len();
    proof {
        assert forall|x: Number| values@.contains(x) implies describes(
            blend(knowns(values@)),
            Ok(x),
        ) by {
            let j = choose|j: int| 0 <= j < values.len() && values@[j] == x;
            assert(knowns(values@)[j] == known(x));
        }
        if all_exact(knowns(values@)) {
            assert forall|i: int| 0 <= i < values.len() implies (#[trigger] values@[i]) is Integer by {
                assert(knowns(values@)[i] is Exact);
            }
            assert(integers(knowns(values@)) =~= ints(values@));
        }
    }
    match op {
        VariadicOp::Gcd | VariadicOp::Lcm => {
            if len == 0 {
                Number::Integer(0)
            } else {
                fold_common(op, values, unit)
            }
        },
        VariadicOp::Avg => Number::Float(mean(values, unit)),
        VariadicOp::Min => {
            if len == 0 {
                Number::Integer(0)
            } else if len == 1 {
                values[0]
            } else {
                extreme(values, false, unit)
            }
        },
        VariadicOp::Max => {
            if len == 0 {
                Number::Integer(0)
            } else if len == 1 {
                values[0]
            } else {
                extreme(values, true, unit)
            }
        },
        VariadicOp::Med => {
            if len == 0 {
                Number::Integer(0)
            } else {
                let sorted = sort_numbers(values, unit);
                let middle = len / 2;
                if len % 2 == 0 {
                    let sum = unit.binary(
                        RealOp::Add,
                        widen(sorted[middle], unit),
                        widen(sorted[middle - 1], unit),
                    );
                    Number::Float(unit.binary(RealOp::Div, sum, unit.from_int(2)))
                } else {
                    proof {
                        if all_integer(values@) {
                            assert(ints(sorted@)[middle as int] == sorted[middle as int]->Integer_0);
                        }
                        vstd::seq_lib::to_multiset_contains(sorted@, sorted[middle as int]);
                        vstd::seq_lib::to_multiset_contains(values@, sorted[middle as int]);
                        assert(sorted@.contains(sorted[middle as int]));
                    }
                    sorted[middle]
                }
            }
        },
    }
}

/// Whether everything that `a` allows of a number, `b` allows too.
pub open spec fn within(a: Outcome, b: Outcome) -> bool {
    match b {
        Outcome::Sure => settled(a),
        Outcome::Whole => a is Exact || a is Whole,
        Outcome::Real => a is Real,
        Outcome::Exact(_) => a == b,
        _ => false,
    }
}

/// What is known of `Gcd` or `Lcm` over a list allows what is known of it
/// over a list of which more is known.
pub proof fn lemma_folded_refines(op: VariadicOp, finer: Seq<Outcome>, coarser: Seq<Outcome>)
    requires
        finer.len() == coarser.len(),
        forall|k: int| 0 <= k < finer.len() ==> within(#[trigger] finer[k], coarser[k]),
    ensures
        within(folded(op, finer), folded(op, coarser)),
    decreases finer.len(),
{
    if finer.len() > 1 {
        let f = finer.drop_last();
        let c = coarser.drop_last();
        assert forall|k: int| 0 <= k < f.len() implies within(#[trigger] f[k], c[k]) by {
            assert(f[k] == finer[k]);
            assert(c[k] == coarser[k]);
        }
        lemma_folded_refines(op, f, c);
        assert(within(finer.last(), coarser.last()));
    } else if finer.len() == 1 {
        assert(within(finer[0], coarser[0]));
    }
}

/// What a reducer gives on numbers is what is known of it from anything
/// that was known of those numbers.
pub proof fn lemma_reducer_refines(op: VariadicOp, values: Seq<Number>, os: Seq<Outcome>, r: Number)
    requires
        os.len() == values.len(),
        forall|k: int|
            0 <= k < os.len() ==> settled(#[trigger] os[k]) && describes(os[k], Ok(values[k])),
        describes(variadic_value(op, knowns(values)), Ok(r)),
        (op is Min || op is Max) && values.len() > 0 ==> values.contains(r),
        op is Med && values.len() % 2 == 1 ==> values.contains(r),
    ensures
        describes(variadic_value(op, os), Ok(r)),
{
    let ks = knowns(values);
    assert forall|k: int| 0 <= k < ks.len() implies within(#[trigger] ks[k], os[k]) by {
        assert(settled(os[k]) && describes(os[k], Ok(values[k])));
    }
    match op {
        VariadicOp::Gcd | VariadicOp::Lcm => {
            lemma_folded_refines(op, ks, os);
        },
        VariadicOp::Avg => {},
        _ => {
            if os.len() > 0 && !(op is Med && os.len() % 2 == 0) {
                let j = choose|j: int| 0 <= j < values.len() && values[j] == r;
                assert(within(ks[j], os[j]));
                assert(describes(os[j], Ok(r)));
                if all_exact(os) {
                    assert(ks =~= os) by {
                        assert forall|k: int| 0 <= k < ks.len() implies ks[k] == os[k] by {
                            assert(within(ks[k], os[k]));
                        }
                    }
                }
            }
        },
    }
}

/// Evaluation in order meets trouble at the first operand that is no
/// number for certain.
pub proof fn lemma_trouble_pair(first: Outcome, second: Outcome)
    ensures
        trouble_from(seq![first, second], 0) == (if !settled(first) {
            Some(first)
        } else if !settled(second) {
            Some(second)
        } else {
            None
        }),
{
    let order = seq![first, second];
    assert(order[0] == first);
    assert(order[1] == second);
    assert(trouble_from(order, 2) is None);
    if settled(second) {
        assert(trouble_from(order, 1) == trouble_from(order, 2));
    }
}

/// The value of a formula.
pub fn eval<U: FloatUnit>(expr: Node, unit: &U) -> (r: Result<Number, EvalError>)
    ensures
        describes(outcome(expr@), r),
{
    evaluate(&expr, unit)
}

/// The value of a formula that stays with its owner, to be evaluated again.
pub fn evaluate<U: FloatUnit>(expr: &Node, unit: &U) -> (r: Result<Number, EvalError>)
    ensures
        describes(outcome(expr@), r),
    decreases expr,
{
    match expr {
        Node::Num(n) => Ok(*n),
        Node::Decimal(text) => Ok(Number::Float(unit.literal(text.as_str()))),
        Node::Unary(op, operand) => {
            match evaluate(operand, unit) {
                Ok(x) => apply_unary(*op, x, unit),
                Err(e) => Err(e),
            }
        },
        Node::Binary(op, left, right) => {
            proof {
                if *op is Root {
                    lemma_trouble_pair(outcome(right@), outcome(left@));
                } else {
                    lemma_trouble_pair(outcome(left@), outcome(right@));
                }
            }
            let (a, b) = match op {
                BinaryOp::Root => {
                    let x = match evaluate(right, unit) {
                        Ok(x) => x,
                        Err(e) => {
                            return Err(e);
                        },
                    };
                    let n = match evaluate(left, unit) {
                        Ok(n) => n,
                        Err(e) => {
                            return Err(e);
                        },
                    };
                    (n, x)
                },
                _ => {
                    let a = match evaluate(left, unit) {
                        Ok(a) => a,
                        Err(e) => {
                            return Err(e);
                        },
                    };
                    let b = match evaluate(right, unit) {
                        Ok(b) => b,
                        Err(e) => {
                            return Err(e);
                        },
                    };
                    (a, b)
                },
            };
            Ok(apply_binary(*op, a, b, unit))
        },
        Node::Variadic(op, args) => {
            let ghost os = outcomes(crate::ast::exprs(args@));
            let mut values: Vec<Number> = Vec::new();
            let ghost mut clouded = false;
            let mut i: usize = 0;
            proof {
                crate::ast::lemma_variadic_expr(*op, *args);
            }
            while i < args.len()
                invariant
                    i <= args.len(),
                    values.len() == i,
                    expr is Variadic,
                    expr->Variadic_1 == *args,
                    os == outcomes(crate::ast::exprs(args@)),
                    outcome(expr@) == (match trouble_from(os, 0) {
                        Some(t) => t,
                        None => variadic_value(*op, os),
                    }),
                    clouded ==> trouble_from(os, 0) == Some(Outcome::Open),
                    !clouded ==> trouble_from(os, 0) == trouble_from(os, i as int),
                    !clouded ==> forall|k: int|
                        0 <= k < i ==> settled(#[trigger] os[k]) && describes(
                            os[k],
                            Ok(values[k]),
                        ),
                decreases args.len() - i,
            {
                let arg = &args[i];
                proof {
                    assert(decreases_to!(expr => args[i as int]));
                    assert(os[i as int] == outcome(args[i as int]@));
                }
                match evaluate(arg, unit) {
                    Ok(x) => {
                        proof {
                            if !clouded && os[i as int] is Open {
                                clouded = true;
                            }
                        }
                        values.push(x);
                    },
                    Err(e) => {
                        return Err(e);
                    },
                }
                i = i + 1;
            }
            let r = reduce(*op, &values, unit);
            proof {
                if !clouded {
                    assert(trouble_from(os, i as int) is None);
                    lemma_reducer_refines(*op, values@, os, r);
                }
            }
            Ok(r)
        },
    }
}

} // verus!
