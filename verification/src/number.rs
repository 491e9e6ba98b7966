//! The value that a formula evaluates to, and the exact integer arithmetic
//! that decides when a result may stay an integer.
use vstd::prelude::*;
use vstd::arithmetic::power::pow;

verus! {

/// A number: an exact 64-bit integer, or a binary64 floating-point value.
///
/// A `Float` carries the IEEE-754 bit pattern of its value. Two numbers are
/// equal when their tags and payloads are; `Float` and `Integer` never are,
/// even where they denote the same quantity.
#[derive(Clone, Copy, Debug, PartialEq, Eq, Structural)]
pub enum Number {
    Float(u64),
    Integer(i64),
}

/// The domain violations that evaluation reports.
#[derive(Clone, Copy, Debug, PartialEq, Eq, Structural)]
pub enum EvalError {
    /// Square root of a negative value.
    NegativeSquareRoot,
    /// Factorial of a negative integer.
    FactorialUndefined,
    /// Lambert W of a value below -1/e.
    LambertWUndefined,
    /// An integer result that does not fit in an `i64`, among integers.
    Overflow,
    /// A division of integers by zero, among integers.
    DivisionByZero,
}

/// The bit pattern of the binary64 value nearest to pi.
pub const PI: u64 = 0x4009_21fb_5444_2d18;

/// The bit pattern of the binary64 value nearest to Euler's number.
pub const E: u64 = 0x4005_bf0a_8b14_5769;

/// The bit pattern of the factor that turns degrees into radians,
/// 0.017453292519943295.
pub const RADIANS_PER_DEGREE: u64 = 0x3f91_df46_a252_9d39;

/// The bit pattern of the factor that turns radians into degrees,
/// 57.2957795131.
pub const DEGREES_PER_RADIAN: u64 = 0x404c_a5dc_1a63_cbb0;

/// The bit pattern of positive zero.
pub const ZERO: u64 = 0;

/// The bit pattern of a value that is no number.
pub const NAN: u64 = 0x7ff8_0000_0000_0000;

impl vstd::std_specs::convert::FromSpecImpl<i64> for Number {
    open spec fn obeys_from_spec() -> bool {
        true
    }

    open spec fn from_spec(v: i64) -> Self {
        Number::Integer(v)
    }
}

impl From<i64> for Number {
    fn from(value: i64) -> (r: Self) {
        Number::Integer(value)
    }
}

/// Whether `v` is the value of some `i64`.
pub open spec fn fits(v: int) -> bool {
    i64::MIN <= v <= i64::MAX
}

/// `Some(v)` when `v` fits in an `i64`, `None` when it does not.
pub open spec fn narrowed(v: int) -> Option<i64> {
    if fits(v) {
        Some(v as i64)
    } else {
        None
    }
}

/// Remainder of the division that rounds toward zero: it has the sign of `a`.
pub open spec fn truncated_rem(a: int, b: int) -> int
    recommends
        b != 0,
{
    let m = if b < 0 {
        -b
    } else {
        b
    };
    if a >= 0 {
        a % m
    } else {
        -((-a) % m)
    }
}

/// The quotient `a / b` where it is an integer that fits, `None` elsewhere.
pub open spec fn exact_quotient(a: int, b: int) -> Option<i64> {
    if b != 0 && a % b == 0 {
        narrowed(a / b)
    } else {
        None
    }
}

/// The remainder of `a` by `b`, where `i64` has one.
pub open spec fn exact_remainder(a: int, b: int) -> Option<i64> {
    if b == 0 || (a == i64::MIN && b == -1) {
        None
    } else {
        Some(truncated_rem(a, b) as i64)
    }
}

/// `a` to the power `b`, for an exponent that `u32` holds and a result that fits.
pub open spec fn exact_power(a: int, b: int) -> Option<i64> {
    if 0 <= b <= u32::MAX {
        narrowed(pow(a, b as nat))
    } else {
        None
    }
}

/// The product of the numbers from one to `n`.
pub open spec fn factorial(n: nat) -> nat
    decreases n,
{
    if n == 0 {
        1
    } else {
        n * factorial((n - 1) as nat)
    }
}

/// The largest argument whose factorial fits in an `i64`.
pub const FACTORIAL_LIMIT: i64 = 20;

/// One, zero or minus one, with the sign of `a`.
pub open spec fn sign_of(a: int) -> int {
    if a > 0 {
        1
    } else if a == 0 {
        0
    } else {
        -1
    }
}

/// The absolute value.
pub open spec fn magnitude(a: int) -> int {
    if a < 0 {
        -a
    } else {
        a
    }
}

/// `i64::checked_pow` of the standard library, which is documented to
/// compute the power and to return `None` if overflow occurred: the result
/// is the power where that fits in an `i64`, and `None` where it does not.
pub assume_specification[ i64::checked_pow ](base: i64, exp: u32) -> (r: Option<i64>)
    ensures
        r == narrowed(pow(base as int, exp as nat)),
;

/// The sum, where it fits.
pub fn int_add(a: i64, b: i64) -> (r: Option<i64>)
    ensures
        r == narrowed(a + b),
{
    a.checked_add(b)
}

/// The difference, where it fits.
pub fn int_sub(a: i64, b: i64) -> (r: Option<i64>)
    ensures
        r == narrowed(a - b),
{
    a.checked_sub(b)
}

/// The product, where it fits.
pub fn int_mul(a: i64, b: i64) -> (r: Option<i64>)
    ensures
        r == narrowed(a * b),
{
    a.checked_mul(b)
}

/// Division that stays an integer only where nothing is lost.
pub fn int_div(a: i64, b: i64) -> (r: Option<i64>)
    ensures
        r == exact_quotient(a as int, b as int),
{
    match a.checked_rem_euclid(b) {
        Some(rest) => {
            if rest == 0 {
                let q = a.checked_div_euclid(b);
                proof {
                    lemma_quotient_fits(a as int, b as int);
                }
                q
            } else {
                None
            }
        },
        None => {
            proof {
                if b != 0 {
                    assert(a == i64::MIN && b == -1);
                    assert((a as int) / (b as int) == -(a as int)) by (nonlinear_arith)
                        requires
                            b == -1,
                    ;
                }
            }
            None
        },
    }
}

/// A quotient of two `i64` overflows only for `i64::MIN / -1`.
pub proof fn lemma_quotient_fits(a: int, b: int)
    requires
        fits(a),
        fits(b),
        b != 0,
        !(a == i64::MIN && b == -1),
    ensures
        fits(a / b),
{
    if b > 0 {
        assert(a / b <= i64::MAX && a / b >= i64::MIN) by (nonlinear_arith)
            requires
                b > 0,
                i64::MIN <= a <= i64::MAX,
        ;
    } else if b == -1 {
        assert(a / b == -a) by (nonlinear_arith)
            requires
                b == -1,
        ;
    } else {
        assert(a / b <= i64::MAX && a / b >= i64::MIN) by (nonlinear_arith)
            requires
                b < -1,
                i64::MIN <= a <= i64::MAX,
        ;
    }
}

/// The remainder with the sign of the dividend, where `i64` has one: not by
/// zero, and not of the least `i64` by minus one.
pub fn int_rem(a: i64, b: i64) -> (r: Option<i64>)
    ensures
        r == exact_remainder(a as int, b as int),
{
    let r = a.checked_rem(b);
    proof {
        if !(b == 0 || (a == i64::MIN && b == -1)) {
            lemma_truncated_rem_fits(a as int, b as int);
            let x = a as int;
            let d = b as int;
            assert(x * -1 == -x);
            assert(d * -1 == -d);
            if x == 0 {
                assert(0int % magnitude(d) == 0) by (nonlinear_arith)
                    requires
                        magnitude(d) > 0,
                ;
            }
        }
    }
    r
}

/// A remainder is smaller in magnitude than the divisor, so it fits.
pub proof fn lemma_truncated_rem_fits(a: int, b: int)
    requires
        fits(a),
        fits(b),
        b != 0,
    ensures
        fits(truncated_rem(a, b)),
        magnitude(truncated_rem(a, b)) < magnitude(b),
{
    let m = magnitude(b);
    if a >= 0 {
        assert(0 <= a % m < m) by (nonlinear_arith)
            requires
                m > 0,
        ;
    } else {
        assert(0 <= (-a) % m < m) by (nonlinear_arith)
            requires
                m > 0,
        ;
    }
}

/// The negation, where it fits: not of the least `i64`.
pub fn int_neg(a: i64) -> (r: Option<i64>)
    ensures
        r == narrowed(-a),
{
    if a == i64::MIN {
        None
    } else {
        Some(-a)
    }
}

/// The absolute value, where it fits: not of the least `i64`.
pub fn int_abs(a: i64) -> (r: Option<i64>)
    ensures
        r == narrowed(magnitude(a as int)),
{
    if a == i64::MIN {
        None
    } else if a < 0 {
        Some(-a)
    } else {
        Some(a)
    }
}

/// One, zero or minus one, with the sign of `a`.
pub fn int_sign(a: i64) -> (r: i64)
    ensures
        r == sign_of(a as int),
{
    if a > 0 {
        1
    } else if a == 0 {
        0
    } else {
        -1
    }
}

/// Exponentiation that stays an integer where the exponent is a `u32` and
/// the power fits.
pub fn int_pow(a: i64, b: i64) -> (r: Option<i64>)
    ensures
        r == exact_power(a as int, b as int),
{
    if b >= 0 && b <= 0xffff_ffff {
        a.checked_pow(b as u32)
    } else {
        None
    }
}

/// A factorial is the number times the factorial before it.
pub proof fn lemma_factorial_step(n: nat)
    requires
        n > 0,
    ensures
        factorial(n) == n * factorial((n - 1) as nat),
{
}

/// The factorials up to the limit, each of which fits in an `i64`.
pub proof fn lemma_factorial_table()
    ensures
        factorial(0) == 1,
        factorial(1) == 1,
        factorial(2) == 2,
        factorial(3) == 6,
        factorial(4) == 24,
        factorial(5) == 120,
        factorial(6) == 720,
        factorial(7) == 5040,
        factorial(8) == 40320,
        factorial(9) == 362880,
        factorial(10) == 3628800,
        factorial(11) == 39916800,
        factorial(12) == 479001600,
        factorial(13) == 6227020800,
        factorial(14) == 87178291200,
        factorial(15) == 1307674368000,
        factorial(16) == 20922789888000,
        factorial(17) == 355687428096000,
        factorial(18) == 6402373705728000,
        factorial(19) == 121645100408832000,
        factorial(20) == 2432902008176640000,
{
    lemma_factorial_step(1);
    lemma_factorial_step(2);
    lemma_factorial_step(3);
    lemma_factorial_step(4);
    lemma_factorial_step(5);
    lemma_factorial_step(6);
    lemma_factorial_step(7);
    lemma_factorial_step(8);
    lemma_factorial_step(9);
    lemma_factorial_step(10);
    lemma_factorial_step(11);
    lemma_factorial_step(12);
    lemma_factorial_step(13);
    lemma_factorial_step(14);
    lemma_factorial_step(15);
    lemma_factorial_step(16);
    lemma_factorial_step(17);
    lemma_factorial_step(18);
    lemma_factorial_step(19);
    lemma_factorial_step(20);
}

/// Below the limit a factorial is at most that of the limit.
pub proof fn lemma_factorial_bounded(n: nat)
    requires
        n <= 20,
    ensures
        factorial(n) <= 2432902008176640000,
{
    lemma_factorial_table();
}

/// The factorial of `n`, for `n` from 0 to `FACTORIAL_LIMIT`.
pub fn int_factorial(n: i64) -> (r: i64)
    requires
        0 <= n <= FACTORIAL_LIMIT,
    ensures
        r == factorial(n as nat),
{
    let mut product: i64 = 1;
    let mut i: i64 = 1;
    proof {
        lemma_factorial_table();
    }
    while i < n
        invariant
            1 <= i,
            i <= n || (n == 0 && i == 1),
            n <= 20,
            product == factorial(i as nat),
        decreases n - i,
    {
        proof {
            lemma_factorial_step((i + 1) as nat);
            lemma_factorial_bounded((i + 1) as nat);
            assert(product * (i + 1) == (i + 1) * factorial(i as nat)) by (nonlinear_arith)
                requires
                    product == factorial(i as nat),
            ;
        }
        i = i + 1;
        product = product * i;
    }
    proof {
        lemma_factorial_table();
    }
    product
}

/// The greatest common divisor of two natural numbers, by Euclid's
/// algorithm. That of zero and zero is zero.
pub open spec fn greatest_common_divisor(a: nat, b: nat) -> nat
    decreases b,
{
    if b == 0 {
        a
    } else {
        greatest_common_divisor(b, a % b)
    }
}

/// Whether `d` divides `n`: `n` is a multiple of `d`.
pub open spec fn divides(d: nat, n: nat) -> bool {
    exists|k: nat| n == #[trigger] (k * d)
}

/// A divisor of two numbers divides the remainder of one by the other.
pub proof fn lemma_divides_remainder(d: nat, a: nat, b: nat)
    requires
        b > 0,
        divides(d, a),
        divides(d, b),
    ensures
        divides(d, a % b),
{
    let ka = choose|k: nat| a == #[trigger] (k * d);
    let kb = choose|k: nat| b == #[trigger] (k * d);
    let q = a / b;
    let r = a % b;
    vstd::arithmetic::div_mod::lemma_fundamental_div_mod(a as int, b as int);
    assert(r == (ka - q * kb) * d) by (nonlinear_arith)
        requires
            a == ka * d,
            b == kb * d,
            a == b * q + r,
    ;
    if d == 0 {
        assert(r == 0 * d) by (nonlinear_arith)
            requires
                d == 0,
                r == (ka - q * kb) * d,
        ;
        assert(divides(d, r));
    } else {
        assert(ka - q * kb >= 0) by (nonlinear_arith)
            requires
                r == (ka - q * kb) * d,
                r >= 0,
                d > 0,
        ;
        let k = (ka - q * kb) as nat;
        assert(r == k * d);
        assert(divides(d, r));
    }
}

/// A divisor of a number and of a remainder by it divides the dividend.
pub proof fn lemma_divides_dividend(d: nat, a: nat, b: nat)
    requires
        b > 0,
        divides(d, b),
        divides(d, a % b),
    ensures
        divides(d, a),
{
    let kb = choose|k: nat| b == #[trigger] (k * d);
    let kr = choose|k: nat| a % b == #[trigger] (k * d);
    let q = a / b;
    vstd::arithmetic::div_mod::lemma_fundamental_div_mod(a as int, b as int);
    assert(q >= 0) by (nonlinear_arith)
        requires
            q == a as int / b as int,
            b > 0,
            a >= 0,
    ;
    let k = (kb * q + kr) as nat;
    assert(a == k * d) by (nonlinear_arith)
        requires
            b == kb * d,
            a % b == kr * d,
            a == b * q + a % b,
            k == kb * q + kr,
    ;
    assert(divides(d, a));
}

/// The greatest common divisor divides both numbers.
pub proof fn lemma_gcd_divides(a: nat, b: nat)
    ensures
        divides(greatest_common_divisor(a, b), a),
        divides(greatest_common_divisor(a, b), b),
    decreases b,
{
    if b == 0 {
        assert(a == 1 * a);
        assert(divides(a, a));
        assert(0 == 0 * a);
        assert(divides(a, 0));
    } else {
        lemma_gcd_divides(b, a % b);
        lemma_divides_dividend(greatest_common_divisor(a, b), a, b);
    }
}

/// Every common divisor of two numbers divides their greatest one.
pub proof fn lemma_gcd_greatest(d: nat, a: nat, b: nat)
    requires
        divides(d, a),
        divides(d, b),
    ensures
        divides(d, greatest_common_divisor(a, b)),
    decreases b,
{
    if b > 0 {
        lemma_divides_remainder(d, a, b);
        lemma_gcd_greatest(d, b, a % b);
    }
}

/// The least common multiple of two natural numbers; zero where one is zero.
pub open spec fn least_common_multiple(a: nat, b: nat) -> nat {
    if a == 0 || b == 0 {
        0
    } else {
        (a / greatest_common_divisor(a, b)) * b
    }
}

/// The greatest common divisor of two integers, where it fits: it does not
/// where it is two to the power of 63.
pub open spec fn exact_gcd(a: int, b: int) -> Option<i64> {
    narrowed(greatest_common_divisor(magnitude(a) as nat, magnitude(b) as nat) as int)
}

/// The least common multiple of two integers, where it fits.
pub open spec fn exact_lcm(a: int, b: int) -> Option<i64> {
    narrowed(least_common_multiple(magnitude(a) as nat, magnitude(b) as nat) as int)
}

/// The magnitude of an integer, which always fits in a `u64`.
pub fn int_magnitude(a: i64) -> (m: u64)
    ensures
        m == magnitude(a as int),
{
    if a == i64::MIN {
        0x8000_0000_0000_0000
    } else if a < 0 {
        (-a) as u64
    } else {
        a as u64
    }
}

/// Euclid's algorithm on magnitudes.
pub fn magnitude_gcd(a: u64, b: u64) -> (g: u64)
    ensures
        g == greatest_common_divisor(a as nat, b as nat),
{
    let mut x = a;
    let mut y = b;
    while y != 0
        invariant
            greatest_common_divisor(x as nat, y as nat) == greatest_common_divisor(a as nat, b as nat),
        decreases y,
    {
        let rest = x % y;
        x = y;
        y = rest;
    }
    x
}

/// An unsigned result as an integer, where it fits.
fn narrow(m: u64) -> (r: Option<i64>)
    ensures
        r == narrowed(m as int),
{
    if m <= 0x7fff_ffff_ffff_ffff {
        Some(m as i64)
    } else {
        None
    }
}

/// The greatest common divisor of two integers, where it fits.
pub fn gcd(a: i64, b: i64) -> (r: Option<i64>)
    ensures
        r == exact_gcd(a as int, b as int),
{
    narrow(magnitude_gcd(int_magnitude(a), int_magnitude(b)))
}

/// The greatest common divisor is at most the first number, unless that is
/// zero, and it is not zero unless both numbers are.
pub proof fn lemma_gcd_bounds(a: nat, b: nat)
    ensures
        a > 0 ==> 0 < greatest_common_divisor(a, b) <= a,
        b > 0 ==> 0 < greatest_common_divisor(a, b) <= b,
    decreases b,
{
    if b > 0 {
        lemma_gcd_bounds(b, a % b);
        assert(a % b < b) by (nonlinear_arith)
            requires
                b > 0,
        ;
        if a % b == 0 {
            assert(greatest_common_divisor(b, 0) == b);
            if a > 0 {
                assert(b <= a) by (nonlinear_arith)
                    requires
                        a % b == 0,
                        a > 0,
                        b > 0,
                ;
            }
        } else {
            assert(a % b <= a) by (nonlinear_arith)
                requires
                    b > 0,
                    a >= 0,
            ;
        }
    }
}

/// The least common multiple of two integers, where it fits.
pub fn lcm(a: i64, b: i64) -> (r: Option<i64>)
    ensures
        r == exact_lcm(a as int, b as int),
{
    if a == 0 || b == 0 {
        return Some(0);
    }
    let x = int_magnitude(a);
    let y = int_magnitude(b);
    let g = magnitude_gcd(x, y);
    proof {
        lemma_gcd_bounds(x as nat, y as nat);
    }
    let share = x / g;
    match share.checked_mul(y) {
        Some(m) => narrow(m),
        None => None,
    }
}

/// The quotient rounded toward zero.
pub open spec fn truncated_quotient(a: int, b: int) -> int
    recommends
        b != 0,
{
    if a >= 0 && b > 0 {
        a / b
    } else if a < 0 && b < 0 {
        (-a) / (-b)
    } else if a < 0 {
        -((-a) / b)
    } else {
        -(a / (-b))
    }
}

/// The quotient of two `i64` rounded toward zero, where there is one that
/// fits: not by zero, and not of the least `i64` by minus one.
pub open spec fn whole_quotient(a: int, b: int) -> Option<i64> {
    if b == 0 || (a == i64::MIN && b == -1) {
        None
    } else {
        Some(truncated_quotient(a, b) as i64)
    }
}

/// The quotient cut off toward zero, where `i64` has one.
pub fn int_quotient(a: i64, b: i64) -> (r: Option<i64>)
    ensures
        r == whole_quotient(a as int, b as int),
{
    let r = a.checked_div(b);
    proof {
        if !(b == 0 || (a == i64::MIN && b == -1)) {
            let x = a as int;
            let d = b as int;
            assert(x * -1 == -x);
            assert(d * -1 == -d);
            lemma_truncated_quotient_fits(x, d);
            if x == 0 {
                assert(0int / d == 0 && 0int / (-d) == 0) by (nonlinear_arith)
                    requires
                        d != 0,
                ;
            }
            if x > 0 && d < 0 {
                assert((x / (-d)) * -1 == -(x / (-d)));
            }
            if x < 0 && d > 0 {
                assert(((-x) / d) * -1 == -((-x) / d));
            }
        }
    }
    r
}

/// A quotient of two `i64` cut off toward zero fits, but for that of the
/// least `i64` by minus one.
pub proof fn lemma_truncated_quotient_fits(a: int, b: int)
    requires
        fits(a),
        fits(b),
        b != 0,
        !(a == i64::MIN && b == -1),
    ensures
        fits(truncated_quotient(a, b)),
{
    let x = magnitude(a);
    let d = magnitude(b);
    assert(0 <= x / d <= x) by (nonlinear_arith)
        requires
            x >= 0,
            d > 0,
    ;
    if a == i64::MIN {
        if d == 1 {
            assert(x / d == x) by (nonlinear_arith)
                requires
                    d == 1,
            ;
        } else {
            assert(x / d <= i64::MAX) by (nonlinear_arith)
                requires
                    x == 0x8000_0000_0000_0000,
                    d >= 2,
            ;
        }
    }
}

/// Whether a shift of an `i64` by `amount` bits is defined.
pub open spec fn shiftable(amount: int) -> bool {
    0 <= amount < 64
}

/// The bits that both integers have.
pub fn int_and(a: i64, b: i64) -> (r: i64)
    ensures
        r == a & b,
{
    a & b
}

/// The bits that either integer has.
pub fn int_or(a: i64, b: i64) -> (r: i64)
    ensures
        r == a | b,
{
    a | b
}

/// `a` with its bits moved up by `b`; what leaves the 64 bits is lost.
pub fn int_shl(a: i64, b: i64) -> (r: Option<i64>)
    ensures
        r == (if shiftable(b as int) {
            Some(a << b)
        } else {
            None
        }),
{
    if 0 <= b && b < 64 {
        Some(a << b)
    } else {
        None
    }
}

/// `a` with its bits moved down by `b`; the sign stays.
pub fn int_shr(a: i64, b: i64) -> (r: Option<i64>)
    ensures
        r == (if shiftable(b as int) {
            Some(a >> b)
        } else {
            None
        }),
{
    if 0 <= b && b < 64 {
        Some(a >> b)
    } else {
        None
    }
}

} // verus!
