//! The evaluator of the integer dialect: a fold over the tree of a formula
//! in 64-bit integers.
//!
//! Every result is an `i64`. Where integer arithmetic has none, because it
//! does not fit or because a divisor is zero, evaluation ends with an error.
//! A function that has no integer rule is computed by the caller's
//! floating-point unit and cut off toward zero.
use vstd::prelude::*;
use crate::ast::{BinaryOp, Expr, Node, UnaryOp, VariadicOp};
use crate::eval::{ascending, lemma_ascending_is_sort, real_fn, real_op};
use crate::float::{gives_unary, goes_through, FloatUnit, RealFn, RealOp};
use crate::number::{
    exact_gcd, exact_lcm, exact_power, factorial, int_abs, int_add, int_and, int_factorial,
    gcd, lcm, int_mul, int_neg, int_or, int_pow, int_quotient, int_rem, int_shl,
    int_shr, int_sign, int_sub, magnitude, narrowed, shiftable, sign_of, truncated_quotient,
    truncated_rem, EvalError, Number, FACTORIAL_LIMIT,
};

verus! {

/// What is known of the integer value of a formula without a floating-point
/// unit.
pub enum IntegerOutcome {
    /// The integer that it is.
    Exact(i64),
    /// The error that evaluation ends with.
    Fails(EvalError),
    /// It is an integer, which the unit decides on.
    Sure,
    /// It depends on the unit whether it is an integer or an error.
    Open,
}

/// Whether `r` is a result that `o` allows.
pub open spec fn allows(o: IntegerOutcome, r: Result<i64, EvalError>) -> bool {
    match o {
        IntegerOutcome::Exact(v) => r == Ok::<i64, EvalError>(v),
        IntegerOutcome::Fails(e) => r == Err::<i64, EvalError>(e),
        IntegerOutcome::Sure => r is Ok,
        IntegerOutcome::Open => true,
    }
}

/// Whether evaluation goes on after `o`: it is an integer for certain.
pub open spec fn certain(o: IntegerOutcome) -> bool {
    o is Exact || o is Sure
}

/// An integer result that has to fit.
pub open spec fn checked(v: Option<i64>) -> IntegerOutcome {
    match v {
        Some(v) => IntegerOutcome::Exact(v),
        None => IntegerOutcome::Fails(EvalError::Overflow),
    }
}

/// The outcome of a unary operator on an integer.
pub open spec fn whole_unary(op: UnaryOp, v: i64) -> IntegerOutcome {
    match op {
        UnaryOp::Negative => checked(narrowed(-v)),
        UnaryOp::Abs => checked(narrowed(magnitude(v as int))),
        UnaryOp::Floor | UnaryOp::Ceil | UnaryOp::Round | UnaryOp::Truncate => IntegerOutcome::Exact(v),
        UnaryOp::Sign => IntegerOutcome::Exact(sign_of(v as int) as i64),
        UnaryOp::Factorial => if v < 0 {
            IntegerOutcome::Fails(EvalError::FactorialUndefined)
        } else if v <= FACTORIAL_LIMIT {
            IntegerOutcome::Exact(factorial(v as nat) as i64)
        } else {
            IntegerOutcome::Fails(EvalError::Overflow)
        },
        UnaryOp::Exp2 => if v < 0 {
            IntegerOutcome::Exact(0)
        } else if shiftable(v as int) {
            IntegerOutcome::Exact(1i64 << v)
        } else {
            IntegerOutcome::Fails(EvalError::Overflow)
        },
        UnaryOp::Sqrt => if v < 0 {
            IntegerOutcome::Fails(EvalError::NegativeSquareRoot)
        } else {
            IntegerOutcome::Sure
        },
        UnaryOp::LambertW => if v < 0 {
            IntegerOutcome::Fails(EvalError::LambertWUndefined)
        } else {
            IntegerOutcome::Sure
        },
        _ => IntegerOutcome::Sure,
    }
}

/// The outcome of a unary operator on an integer that the unit decided on:
/// an integer for certain where the operator has no error.
pub open spec fn unknown_unary(op: UnaryOp) -> IntegerOutcome {
    if op is Negative || op is Abs || op is Factorial || op is Exp2 || op is Sqrt
        || op is LambertW {
        IntegerOutcome::Open
    } else {
        IntegerOutcome::Sure
    }
}

/// The outcome of a binary operator on two integers of which the unit
/// decided on one at least.
pub open spec fn unknown_binary(op: BinaryOp) -> IntegerOutcome {
    if op is And || op is Or || op is ILog || op is Root || op is Log || op is Atan2 {
        IntegerOutcome::Sure
    } else {
        IntegerOutcome::Open
    }
}

/// The outcome of a reducer on `count` integers of which the unit decided on
/// one at least.
pub open spec fn unknown_variadic(op: VariadicOp, count: nat) -> IntegerOutcome {
    if op is Min || op is Max || (op is Med && count % 2 == 1) {
        IntegerOutcome::Sure
    } else {
        IntegerOutcome::Open
    }
}

/// The outcome of a binary operator on two integers. Division cuts off
/// toward zero, and the remainder has the sign of the dividend.
pub open spec fn whole_binary(op: BinaryOp, x: i64, y: i64) -> IntegerOutcome {
    match op {
        BinaryOp::And => IntegerOutcome::Exact(x & y),
        BinaryOp::Or => IntegerOutcome::Exact(x | y),
        BinaryOp::LeftShift => if shiftable(y as int) {
            IntegerOutcome::Exact(x << y)
        } else {
            IntegerOutcome::Fails(EvalError::Overflow)
        },
        BinaryOp::RightShift => if shiftable(y as int) {
            IntegerOutcome::Exact(x >> y)
        } else {
            IntegerOutcome::Fails(EvalError::Overflow)
        },
        BinaryOp::Add => checked(narrowed(x + y)),
        BinaryOp::Subtract => checked(narrowed(x - y)),
        BinaryOp::Multiply => checked(narrowed(x * y)),
        BinaryOp::Divide => if y == 0 {
            IntegerOutcome::Fails(EvalError::DivisionByZero)
        } else {
            checked(narrowed(truncated_quotient(x as int, y as int)))
        },
        BinaryOp::Modulo => if y == 0 {
            IntegerOutcome::Fails(EvalError::DivisionByZero)
        } else if x == i64::MIN && y == -1 {
            IntegerOutcome::Fails(EvalError::Overflow)
        } else {
            IntegerOutcome::Exact(truncated_rem(x as int, y as int) as i64)
        },
        BinaryOp::Pow => checked(exact_power(x as int, y as int)),
        _ => IntegerOutcome::Sure,
    }
}

/// The integers of a list.
pub open spec fn as_ints(values: Seq<i64>) -> Seq<int> {
    Seq::new(values.len(), |i: int| values[i] as int)
}

/// The sum of a list from the left, as long as every partial sum fits.
pub open spec fn checked_sum(values: Seq<i64>) -> Option<i64>
    decreases values.len(),
{
    if values.len() == 0 {
        Some(0)
    } else {
        match checked_sum(values.drop_last()) {
            Some(s) => narrowed(s + values.last()),
            None => None,
        }
    }
}

/// The greatest common divisor or the least common multiple of a list that
/// is not empty, from the left, as long as every step fits.
pub open spec fn checked_fold(op: VariadicOp, values: Seq<i64>) -> Option<i64>
    recommends
        values.len() > 0,
    decreases values.len(),
{
    if values.len() <= 1 {
        if values.len() == 1 {
            Some(values[0])
        } else {
            Some(0)
        }
    } else {
        match checked_fold(op, values.drop_last()) {
            Some(acc) => if op is Gcd {
                exact_gcd(acc as int, values.last() as int)
            } else {
                exact_lcm(acc as int, values.last() as int)
            },
            None => None,
        }
    }
}

/// The outcome of a reducer on integers. Of nothing every reducer is zero,
/// but the average, which divides by the count.
pub open spec fn whole_variadic(op: VariadicOp, values: Seq<i64>) -> IntegerOutcome {
    let n = values.len() as int;
    match op {
        VariadicOp::Min => if n == 0 {
            IntegerOutcome::Exact(0)
        } else {
            IntegerOutcome::Exact(as_ints(values).min() as i64)
        },
        VariadicOp::Max => if n == 0 {
            IntegerOutcome::Exact(0)
        } else {
            IntegerOutcome::Exact(as_ints(values).max() as i64)
        },
        VariadicOp::Avg => if n == 0 {
            IntegerOutcome::Fails(EvalError::DivisionByZero)
        } else {
            match checked_sum(values) {
                Some(s) => IntegerOutcome::Exact(truncated_quotient(s as int, n) as i64),
                None => IntegerOutcome::Fails(EvalError::Overflow),
            }
        },
        VariadicOp::Med => if n == 0 {
            IntegerOutcome::Exact(0)
        } else {
            let sorted = as_ints(values).sort();
            if n % 2 == 1 {
                IntegerOutcome::Exact(sorted[n / 2] as i64)
            } else {
                match narrowed(sorted[n / 2] + sorted[n / 2 - 1]) {
                    Some(t) => IntegerOutcome::Exact(truncated_quotient(t as int, 2) as i64),
                    None => IntegerOutcome::Fails(EvalError::Overflow),
                }
            }
        },
        VariadicOp::Gcd | VariadicOp::Lcm => if n == 0 {
            IntegerOutcome::Exact(0)
        } else {
            checked(checked_fold(op, values))
        },
    }
}

/// Whether every outcome of a list is an integer that is known.
pub open spec fn all_known(os: Seq<IntegerOutcome>) -> bool {
    forall|i: int| 0 <= i < os.len() ==> (#[trigger] os[i]) is Exact
}

/// The first outcome from index `from` on that is no integer for certain.
pub open spec fn first_trouble(os: Seq<IntegerOutcome>, from: int) -> Option<IntegerOutcome>
    decreases os.len() - from,
{
    if from < 0 || from >= os.len() {
        None
    } else if certain(os[from]) {
        first_trouble(os, from + 1)
    } else {
        Some(os[from])
    }
}

/// The integers of outcomes that are all exact.
pub open spec fn exact_values(os: Seq<IntegerOutcome>) -> Seq<i64> {
    Seq::new(os.len(), |i: int| os[i]->Exact_0)
}

/// What is known of the integer value of `e`. Operands are evaluated from
/// the left, and the first error ends the evaluation.
pub open spec fn whole_outcome(e: Expr) -> IntegerOutcome
    decreases e,
{
    match e {
        Expr::Num(Number::Integer(v)) => IntegerOutcome::Exact(v),
        Expr::Num(Number::Float(_)) => IntegerOutcome::Sure,
        Expr::Decimal(_) => IntegerOutcome::Sure,
        Expr::Unary(op, operand) => match whole_outcome(*operand) {
            IntegerOutcome::Exact(v) => whole_unary(op, v),
            IntegerOutcome::Sure => unknown_unary(op),
            trouble => trouble,
        },
        Expr::Binary(op, left, right) => {
            let l = whole_outcome(*left);
            let r = whole_outcome(*right);
            if !certain(l) {
                l
            } else if !certain(r) {
                r
            } else {
                match (l, r) {
                    (IntegerOutcome::Exact(x), IntegerOutcome::Exact(y)) => whole_binary(op, x, y),
                    _ => unknown_binary(op),
                }
            }
        },
        Expr::Variadic(op, args) => {
            let os = whole_outcomes(args);
            match first_trouble(os, 0) {
                Some(t) => t,
                None => if all_known(os) {
                    whole_variadic(op, exact_values(os))
                } else {
                    unknown_variadic(op, os.len())
                },
            }
        },
    }
}

/// What is known of the integer values of the operands of a reducer.
pub open spec fn whole_outcomes(args: Seq<Expr>) -> Seq<IntegerOutcome>
    decreases args,
{
    Seq::new(
        args.len(),
        |i: int|
            if 0 <= i < args.len() {
                whole_outcome(args[i])
            } else {
                IntegerOutcome::Open
            },
    )
}

/// The value of a floating-point function of an integer, cut off toward
/// zero.
fn through_unit<U: FloatUnit>(f: RealFn, v: i64, unit: &U) -> (r: i64)
    ensures
        goes_through(unit, f, v, r),
{
    let x = unit.from_int(v);
    let y = unit.unary(f, x);
    let r = unit.to_int(y);
    proof {
        assert(gives_unary(unit, f, x, y));
    }
    r
}

/// Applies a unary operator to an integer.
pub fn integer_unary<U: FloatUnit>(op: UnaryOp, v: i64, unit: &U) -> (r: Result<i64, EvalError>)
    ensures
        allows(whole_unary(op, v), r),
{
    match op {
        UnaryOp::Negative => match int_neg(v) {
            Some(n) => Ok(n),
            None => Err(EvalError::Overflow),
        },
        UnaryOp::Abs => match int_abs(v) {
            Some(n) => Ok(n),
            None => Err(EvalError::Overflow),
        },
        UnaryOp::Floor | UnaryOp::Ceil | UnaryOp::Round | UnaryOp::Truncate => Ok(v),
        UnaryOp::Sign => Ok(int_sign(v)),
        UnaryOp::Factorial => {
            if v < 0 {
                Err(EvalError::FactorialUndefined)
            } else if v <= FACTORIAL_LIMIT {
                Ok(int_factorial(v))
            } else {
                Err(EvalError::Overflow)
            }
        },
        UnaryOp::Exp2 => {
            if v < 0 {
                Ok(0)
            } else {
                match int_shl(1, v) {
                    Some(power) => Ok(power),
                    None => Err(EvalError::Overflow),
                }
            }
        },
        UnaryOp::Sqrt => {
            if v < 0 {
                Err(EvalError::NegativeSquareRoot)
            } else {
                Ok(through_unit(RealFn::Sqrt, v, unit))
            }
        },
        UnaryOp::LambertW => {
            if v < 0 {
                Err(EvalError::LambertWUndefined)
            } else {
                Ok(through_unit(RealFn::LambertW, v, unit))
            }
        },
        _ => Ok(through_unit(real_fn(op), v, unit)),
    }
}

/// Applies a binary operator to two integers.
pub fn integer_binary<U: FloatUnit>(op: BinaryOp, x: i64, y: i64, unit: &U) -> (r: Result<
    i64,
    EvalError,
>)
    ensures
        allows(whole_binary(op, x, y), r),
{
    let exact = match op {
        BinaryOp::And => Some(int_and(x, y)),
        BinaryOp::Or => Some(int_or(x, y)),
        BinaryOp::LeftShift => int_shl(x, y),
        BinaryOp::RightShift => int_shr(x, y),
        BinaryOp::Add => int_add(x, y),
        BinaryOp::Subtract => int_sub(x, y),
        BinaryOp::Multiply => int_mul(x, y),
        BinaryOp::Pow => int_pow(x, y),
        BinaryOp::Divide => {
            if y == 0 {
                return Err(EvalError::DivisionByZero);
            }
            int_quotient(x, y)
        },
        BinaryOp::Modulo => {
            if y == 0 {
                return Err(EvalError::DivisionByZero);
            }
            int_rem(x, y)
        },
        BinaryOp::ILog => {
            return Ok(unit.ilog(unit.from_int(x), unit.from_int(y)));
        },
        BinaryOp::Root => {
            let share = unit.binary(RealOp::Div, unit.from_int(1), unit.from_int(x));
            return Ok(unit.to_int(unit.binary(RealOp::Pow, unit.from_int(y), share)));
        },
        _ => {
            return Ok(unit.to_int(unit.binary(real_op(op), unit.from_int(x), unit.from_int(y))));
        },
    };
    proof {
        if op is Divide && y != 0 && !(x == i64::MIN && y == -1) {
            crate::number::lemma_truncated_quotient_fits(x as int, y as int);
        }
        if op is Divide && x == i64::MIN && y == -1 {
            assert(truncated_quotient(x as int, y as int) == 0x8000_0000_0000_0000) by {
                assert((-(x as int)) / 1 == -(x as int)) by (nonlinear_arith);
            }
        }
    }
    match exact {
        Some(v) => Ok(v),
        None => Err(EvalError::Overflow),
    }
}

/// The integers in ascending order.
pub fn sort_integers(values: &Vec<i64>) -> (sorted: Vec<i64>)
    ensures
        as_ints(sorted@) == as_ints(values@).sort(),
        sorted.len() == values.len(),
{
    let mut sorted: Vec<i64> = Vec::new();
    let mut i: usize = 0;
    proof {
        assert(as_ints(sorted@) =~= as_ints(values@.take(0)));
    }
    while i < values.len()
        invariant
            i <= values.len(),
            sorted.len() == i,
            ascending(as_ints(sorted@)),
            as_ints(sorted@).to_multiset() == as_ints(values@.take(i as int)).to_multiset(),
        decreases values.len() - i,
    {
        let x = values[i];
        let mut pos: usize = sorted.len();
        while pos > 0 && sorted[pos - 1] > x
            invariant
                pos <= sorted.len(),
                forall|k: int| pos <= k < sorted.len() ==> #[trigger] sorted[k] > x,
            decreases pos,
        {
            pos = pos - 1;
        }
        let ghost before = sorted@;
        sorted.insert(pos, x);
        proof {
            let v = x as int;
            assert(as_ints(sorted@) =~= as_ints(before).insert(pos as int, v));
            assert(ascending(as_ints(sorted@))) by {
                assert forall|a: int, b: int| 0 <= a < b < sorted.len() implies as_ints(
                    sorted@,
                )[a] <= as_ints(sorted@)[b] by {
                    let old_a = if a < pos {
                        a
                    } else {
                        a - 1
                    };
                    let old_b = if b < pos {
                        b
                    } else {
                        b - 1
                    };
                    if a != pos && b != pos {
                        assert(as_ints(before)[old_a] <= as_ints(before)[old_b]);
                    } else if a == pos {
                        assert(before[old_b] > x);
                    } else {
                        if pos > 0 {
                            assert(as_ints(before)[old_a] <= as_ints(before)[pos - 1]);
                        }
                    }
                }
            }
            vstd::seq_lib::to_multiset_insert(as_ints(before), pos as int, v);
            assert(values@.take(i + 1) =~= values@.take(i as int).push(x));
            assert(as_ints(values@.take(i + 1)) =~= as_ints(values@.take(i as int)).push(v));
            vstd::seq_lib::to_multiset_build(as_ints(values@.take(i as int)), v);
        }
        i = i + 1;
    }
    proof {
        assert(values@.take(i as int) =~= values@);
        lemma_ascending_is_sort(as_ints(sorted@), as_ints(values@));
    }
    sorted
}

/// The least or the greatest of at least one integer.
fn extreme_integer(values: &Vec<i64>, greatest: bool) -> (r: i64)
    requires
        values.len() > 0,
    ensures
        r == (if greatest {
            as_ints(values@).max()
        } else {
            as_ints(values@).min()
        }),
{
    let mut result = values[0];
    let mut i: usize = 1;
    while i < values.len()
        invariant
            1 <= i <= values.len(),
            exists|j: int| 0 <= j < i && values[j] == result,
            forall|k: int|
                0 <= k < i ==> if greatest {
                    (#[trigger] values[k]) <= result
                } else {
                    result <= (#[trigger] values[k])
                },
        decreases values.len() - i,
    {
        let next = values[i];
        if (greatest && next > result) || (!greatest && next < result) {
            result = next;
        }
        i = i + 1;
    }
    proof {
        let s = as_ints(values@);
        let j = choose|j: int| 0 <= j < values.len() && values[j] == result;
        assert(s[j] == result);
        s.max_ensures();
        s.min_ensures();
        if greatest {
            let m = s.max();
            assert(s.contains(m));
            let k = choose|k: int| 0 <= k < s.len() && s[k] == m;
            assert(values[k] <= result);
        } else {
            let m = s.min();
            assert(s.contains(m));
            let k = choose|k: int| 0 <= k < s.len() && s[k] == m;
            assert(result <= values[k]);
        }
    }
    result
}

/// The sum from the left, where every partial sum fits.
fn sum_integers(values: &Vec<i64>) -> (r: Option<i64>)
    ensures
        r == checked_sum(values@),
{
    let mut sum: Option<i64> = Some(0);
    let mut i: usize = 0;
    proof {
        assert(values@.take(0) =~= Seq::<i64>::empty());
    }
    while i < values.len()
        invariant
            i <= values.len(),
            sum == checked_sum(values@.take(i as int)),
        decreases values.len() - i,
    {
        proof {
            let longer = values@.take(i + 1);
            assert(longer.drop_last() =~= values@.take(i as int));
            assert(longer.last() == values[i as int]);
        }
        sum = match sum {
            Some(s) => int_add(s, values[i]),
            None => None,
        };
        i = i + 1;
    }
    proof {
        assert(values@.take(i as int) =~= values@);
    }
    sum
}

/// `Gcd` or `Lcm` over at least one integer, from the left.
fn fold_integers(op: VariadicOp, values: &Vec<i64>) -> (r: Option<i64>)
    requires
        op is Gcd || op is Lcm,
        values.len() > 0,
    ensures
        r == checked_fold(op, values@),
{
    let mut result: Option<i64> = Some(values[0]);
    let mut i: usize = 1;
    proof {
        assert(values@.take(1).len() == 1);
        assert(values@.take(1)[0] == values[0]);
    }
    while i < values.len()
        invariant
            1 <= i <= values.len(),
            op is Gcd || op is Lcm,
            result == checked_fold(op, values@.take(i as int)),
        decreases values.len() - i,
    {
        proof {
            let longer = values@.take(i + 1);
            assert(longer.drop_last() =~= values@.take(i as int));
            assert(longer.last() == values[i as int]);
        }
        result = match result {
            Some(acc) => match op {
                VariadicOp::Gcd => gcd(acc, values[i]),
                _ => lcm(acc, values[i]),
            },
            None => None,
        };
        i = i + 1;
    }
    proof {
        assert(values@.take(i as int) =~= values@);
    }
    result
}

/// A sum divided by a count, cut off toward zero.
fn quotient_by_count(sum: i64, count: usize) -> (r: i64)
    requires
        count > 0,
    ensures
        r == truncated_quotient(sum as int, count as int),
{
    let n = count as u64;
    if n <= 0x7fff_ffff_ffff_ffff {
        proof {
            crate::number::lemma_truncated_quotient_fits(sum as int, n as int);
        }
        match int_quotient(sum, n as i64) {
            Some(q) => q,
            None => 0,
        }
    } else if sum == i64::MIN && n == 0x8000_0000_0000_0000 {
        proof {
            assert(0x8000_0000_0000_0000int / 0x8000_0000_0000_0000int == 1) by (nonlinear_arith);
        }
        -1
    } else {
        proof {
            let m = magnitude(sum as int);
            assert(m / (n as int) == 0) by (nonlinear_arith)
                requires
                    0 <= m < n,
            ;
        }
        0
    }
}

/// Applies a reducer to the integers of its operands, in their order.
pub fn integer_reduce(op: VariadicOp, values: &Vec<i64>) -> (r: Result<i64, EvalError>)
    ensures
        allows(whole_variadic(op, values@), r),
{
    let len = values.len();
    match op {
        VariadicOp::Min => {
            if len == 0 {
                Ok(0)
            } else {
                Ok(extreme_integer(values, false))
            }
        },
        VariadicOp::Max => {
            if len == 0 {
                Ok(0)
            } else {
                Ok(extreme_integer(values, true))
            }
        },
        VariadicOp::Avg => {
            if len == 0 {
                return Err(EvalError::DivisionByZero);
            }
            match sum_integers(values) {
                Some(sum) => Ok(quotient_by_count(sum, len)),
                None => Err(EvalError::Overflow),
            }
        },
        VariadicOp::Med => {
            if len == 0 {
                Ok(0)
            } else {
                let sorted = sort_integers(values);
                let middle = len / 2;
                proof {
                    assert(as_ints(sorted@)[middle as int] == sorted[middle as int]);
                }
                if len % 2 == 1 {
                    Ok(sorted[middle])
                } else {
                    proof {
                        assert(as_ints(sorted@)[middle - 1] == sorted[middle - 1]);
                    }
                    match int_add(sorted[middle], sorted[middle - 1]) {
                        Some(total) => {
                            proof {
                                crate::number::lemma_truncated_quotient_fits(total as int, 2);
                            }
                            match int_quotient(total, 2) {
                                Some(mean) => Ok(mean),
                                None => Err(EvalError::Overflow),
                            }
                        },
                        None => Err(EvalError::Overflow),
                    }
                }
            }
        },
        VariadicOp::Gcd | VariadicOp::Lcm => {
            if len == 0 {
                Ok(0)
            } else {
                match fold_integers(op, values) {
                    Some(v) => Ok(v),
                    None => Err(EvalError::Overflow),
                }
            }
        },
    }
}

/// The integer value of a formula.
pub fn eval<U: FloatUnit>(expr: Node, unit: &U) -> (r: Result<i64, EvalError>)
    ensures
        allows(whole_outcome(expr@), r),
{
    evaluate(&expr, unit)
}

/// The integer value of a formula that stays with its owner.
pub fn evaluate<U: FloatUnit>(expr: &Node, unit: &U) -> (r: Result<i64, EvalError>)
    ensures
        allows(whole_outcome(expr@), r),
    decreases expr,
{
    match expr {
        Node::Num(n) => match n {
            Number::Integer(v) => Ok(*v),
            Number::Float(bits) => Ok(unit.to_int(*bits)),
        },
        Node::Decimal(text) => Ok(unit.to_int(unit.literal(text.as_str()))),
        Node::Unary(op, operand) => {
            match evaluate(operand, unit) {
                Ok(v) => integer_unary(*op, v, unit),
                Err(e) => Err(e),
            }
        },
        Node::Binary(op, left, right) => {
            let x = match evaluate(left, unit) {
                Ok(x) => x,
                Err(e) => {
                    return Err(e);
                },
            };
            let y = match evaluate(right, unit) {
                Ok(y) => y,
                Err(e) => {
                    return Err(e);
                },
            };
            integer_binary(*op, x, y, unit)
        },
        Node::Variadic(op, args) => {
            let ghost os = whole_outcomes(crate::ast::exprs(args@));
            let mut values: Vec<i64> = Vec::new();
            let ghost mut clouded = false;
            let mut i: usize = 0;
            proof {
                crate::ast::lemma_variadic_expr(*op, *args);
            }
            while i < args.len()
                invariant
                    i <= args.len(),
                    values.len() == i,
                    expr is Variadic,
                    expr->Variadic_1 == *args,
                    os == whole_outcomes(crate::ast::exprs(args@)),
                    whole_outcome(expr@) == (match first_trouble(os, 0) {
                        Some(t) => t,
                        None => if all_known(os) {
                            whole_variadic(*op, exact_values(os))
                        } else {
                            unknown_variadic(*op, os.len())
                        },
                    }),
                    clouded ==> first_trouble(os, 0) == Some(IntegerOutcome::Open),
                    !clouded ==> first_trouble(os, 0) == first_trouble(os, i as int),
                    !clouded ==> forall|k: int|
                        0 <= k < i ==> certain(#[trigger] os[k]) && allows(os[k], Ok(values[k])),
                decreases args.len() - i,
            {
                let arg = &args[i];
                proof {
                    assert(decreases_to!(expr => args[i as int]));
                    assert(os[i as int] == whole_outcome(args[i as int]@));
                }
                match evaluate(arg, unit) {
                    Ok(v) => {
                        proof {
                            if !clouded && os[i as int] is Open {
                                clouded = true;
                            }
                        }
                        values.push(v);
                    },
                    Err(e) => {
                        return Err(e);
                    },
                }
                i = i + 1;
            }
            proof {
                if !clouded {
                    assert(first_trouble(os, i as int) is None);
                    if all_known(os) {
                        assert(exact_values(os) =~= values@) by {
                            assert forall|k: int| 0 <= k < os.len() implies exact_values(os)[k]
                                == values[k] by {
                                assert(os[k] is Exact);
                            }
                        }
                    }
                }
            }
            integer_reduce(*op, &values)
        },
    }
}

} // verus!
