use formula_eval::ast::{BinaryOp, Node, UnaryOp, VariadicOp};
use formula_eval::eval_i64;
use formula_eval::float::{Comparison, FloatUnit, RealFn, RealOp};
use formula_eval::integer::{eval, evaluate, integer_binary, integer_reduce, integer_unary, sort_integers};
use formula_eval::number::{int_and, int_or, int_quotient, int_shl, int_shr, EvalError, Number};
use formula_eval::parser::Parser;
use formula_eval::token::Token;
use formula_eval::tokenizer::Tokenizer;
use formula_eval::utils::{OperatorCategory, ParseError};

/// Binary64 arithmetic of the standard library.
pub struct StdFloat;

fn gamma(a: f64) -> f64 {
    let mut s = 2.4857408913875355e-5;
    if a < 0.5 {
        s += 1.0514237858172197 / (1.0 - a);
        s += -3.4568709722201625 / (2.0 - a);
        s += 4.512277094668948 / (3.0 - a);
        s += -2.9828522532357664 / (4.0 - a);
        s += 1.056397115771267 / (5.0 - a);
        s += -1.9542877319164587e-1 / (6.0 - a);
        s += 1.709705434044412e-2 / (7.0 - a);
        s += -5.719261174043057e-4 / (8.0 - a);
        s += 4.633994733599057e-6 / (9.0 - a);
        s += -2.7199490848860772e-9 / (10.0 - a);
        std::f64::consts::PI
            / ((std::f64::consts::PI * a).sin()
                * s
                * 1.8603827342052657
                * ((a - 10.400511) / std::f64::consts::E).powf(0.5 - a))
    } else {
        s += 1.0514237858172197 / a;
        s += -3.4568709722201625 / (a + 1.0);
        s += 4.512277094668948 / (a + 2.0);
        s += -2.9828522532357664 / (a + 3.0);
        s += 1.056397115771267 / (a + 4.0);
        s += -1.9542877319164587e-1 / (a + 5.0);
        s += 1.709705434044412e-2 / (a + 6.0);
        s += -5.719261174043057e-4 / (a + 7.0);
        s += 4.633994733599057e-6 / (a + 8.0);
        s += -2.7199490848860772e-9 / (a + 9.0);
        s * 1.8603827342052657 * ((a + 10.400511) / std::f64::consts::E).powf(a - 0.5)
    }
}

fn lambert_w(x: f64) -> f64 {
    let iterations = (4).max((x.log10() / 3.0).ceil() as i32);
    let mut w: f64 = 0.0;
    for _ in 0..iterations {
        let exp_w = w.exp();
        w -= (w * exp_w - x)
            / (exp_w * (w + 1.0) - (w + 2.0) * (w * exp_w - x) / (2.0 * w + 2.0));
    }
    w
}

impl FloatUnit for StdFloat {
    fn from_int(&self, value: i64) -> u64 {
        (value as f64).to_bits()
    }

    fn to_int(&self, x: u64) -> i64 {
        f64::from_bits(x) as i64
    }

    fn literal(&self, text: &str) -> u64 {
        text.parse::<f64>().unwrap_or(f64::NAN).to_bits()
    }

    fn unary(&self, f: RealFn, x: u64) -> u64 {
        let x = f64::from_bits(x);
        let y = match f {
            RealFn::Neg => -x,
            RealFn::Abs => x.abs(),
            RealFn::Signum => x.signum(),
            RealFn::Floor => x.floor(),
            RealFn::Ceil => x.ceil(),
            RealFn::Round => x.round(),
            RealFn::Trunc => x.trunc(),
            RealFn::Sqrt => x.sqrt(),
            RealFn::Ln => x.ln(),
            RealFn::Log2 => x.log(2.0),
            RealFn::Exp => x.exp(),
            RealFn::Exp2 => x.exp2(),
            RealFn::Sin => x.sin(),
            RealFn::Cos => x.cos(),
            RealFn::Tan => x.tan(),
            RealFn::Sinh => x.sinh(),
            RealFn::Cosh => x.cosh(),
            RealFn::Tanh => x.tanh(),
            RealFn::Asin => x.asin(),
            RealFn::Acos => x.acos(),
            RealFn::Atan => x.atan(),
            RealFn::Asinh => x.asinh(),
            RealFn::Acosh => x.acosh(),
            RealFn::Atanh => x.atanh(),
            RealFn::Gamma => gamma(x),
            RealFn::LambertW => lambert_w(x),
        };
        y.to_bits()
    }

    fn binary(&self, op: RealOp, a: u64, b: u64) -> u64 {
        let a = f64::from_bits(a);
        let b = f64::from_bits(b);
        let y = match op {
            RealOp::Add => a + b,
            RealOp::Sub => a - b,
            RealOp::Mul => a * b,
            RealOp::Div => a / b,
            RealOp::Rem => a % b,
            RealOp::Pow => a.powf(b),
            RealOp::Log => a.log(b),
            RealOp::Atan2 => a.atan2(b),
        };
        y.to_bits()
    }

    fn powi(&self, base: u64, exponent: i32) -> u64 {
        f64::from_bits(base).powi(exponent).to_bits()
    }

    fn compare(&self, a: u64, b: u64) -> Comparison {
        match f64::from_bits(a).partial_cmp(&f64::from_bits(b)) {
            Some(std::cmp::Ordering::Less) => Comparison::Less,
            Some(std::cmp::Ordering::Equal) => Comparison::Equal,
            Some(std::cmp::Ordering::Greater) => Comparison::Greater,
            None => Comparison::Unordered,
        }
    }

    fn ilog(&self, n: u64, base: u64) -> i64 {
        let mut n = f64::from_bits(n);
        let b = f64::from_bits(base);
        let mut x: i64 = 0;
        while n > 1.0 {
            let next = (n.log10() / b.log10()).floor();
            x += 1;
            if next >= n {
                break;
            }
            n = next;
        }
        x
    }
}


#[test]
fn integer_ast_test_expr1() {
    let ast = Parser::integer("1+2-3", None).unwrap().parse().unwrap();
    let value = eval(ast, &StdFloat).unwrap();
    assert_eq!(value, 0);
}

#[test]
fn integer_ast_test_expr2() {
    let ast = Parser::integer("3+2-1*5/4", None).unwrap().parse().unwrap();
    let value = eval(ast, &StdFloat).unwrap();
    assert_eq!(value, 4);
}

#[test]
fn integer_ast_test_expr3() {
    let ast = Parser::integer("5+(2*7-3!)*3", None).unwrap().parse().unwrap();
    let value = eval(ast, &StdFloat).unwrap();
    assert_eq!(value, 29);
}

#[test]
fn integer_ast_test_expr4() {
    let ast = Parser::integer("2*4%3/2", None).unwrap().parse().unwrap();
    let value = eval(ast, &StdFloat).unwrap();
    assert_eq!(value, 1);
}

#[test]
fn integer_ast_test_expr5() {
    let ast = Parser::integer("3*2^3*3", None).unwrap().parse().unwrap();
    let value = eval(ast, &StdFloat).unwrap();
    assert_eq!(value, 72);
}

#[test]
fn integer_ast_test_expr6() {
    let ast = Parser::integer("1<<2", None).unwrap().parse().unwrap();
    let value = eval(ast, &StdFloat).unwrap();
    assert_eq!(value, 4);
}

#[test]
fn integer_ast_test_expr7() {
    let ast = Parser::integer("root(2,35)", None).unwrap().parse().unwrap();
    let value = eval(ast, &StdFloat).unwrap();
    assert_eq!(value, 5);
}

#[test]
fn integer_ast_test_expr8() {
    let ast = Parser::integer("1|2|4", None).unwrap().parse().unwrap();
    let value = eval(ast, &StdFloat).unwrap();
    assert_eq!(value, 7);
}

#[test]
fn test_expr9() {
    let ast = Parser::integer("1&3", None).unwrap().parse().unwrap();
    let value = eval(ast, &StdFloat).unwrap();
    assert_eq!(value, 1);
}

#[test]
fn test_expr10() {
    let ast = Parser::integer("1+1&3|1", None).unwrap().parse().unwrap();
    let value = eval(ast, &StdFloat).unwrap();
    assert_eq!(value, 3);
}

#[test]
fn test_expr11() {
    let ast = Parser::integer("med(5,2,8,9,7)", None)
        .unwrap()
        .parse()
        .unwrap();
    let value = eval(ast, &StdFloat).unwrap();
    assert_eq!(value, 7);
}

#[test]
fn test_expr12() {
    let ast = Parser::integer("med(5,2,8,9)", None).unwrap().parse().unwrap();
    let value = eval(ast, &StdFloat).unwrap();
    assert_eq!(value, 6);
}

fn value(formula: &str) -> Result<i64, ParseError> {
    eval_i64(formula.to_string(), 0, &StdFloat)
}

fn whole(v: i64) -> Node {
    Node::Num(Number::Integer(v))
}

fn binary(op: BinaryOp, a: i64, b: i64) -> Result<i64, EvalError> {
    eval(Node::Binary(op, Box::new(whole(a)), Box::new(whole(b))), &StdFloat)
}

fn unary(op: UnaryOp, a: i64) -> Result<i64, EvalError> {
    eval(Node::Unary(op, Box::new(whole(a))), &StdFloat)
}

#[test]
fn integer_arithmetic() {
    assert_eq!(value("1+2").unwrap(), 3);
    assert_eq!(value("5-7").unwrap(), -2);
    assert_eq!(value("6*7").unwrap(), 42);
    assert_eq!(value("7/2").unwrap(), 3);
    assert_eq!(value("-7/2").unwrap(), -3);
    assert_eq!(binary(BinaryOp::Divide, 7, -2), Ok(-3));
    assert_eq!(binary(BinaryOp::Divide, -7, -2), Ok(3));
    assert_eq!(binary(BinaryOp::Divide, 0, 5), Ok(0));
    assert_eq!(value("7%3").unwrap(), 1);
    assert_eq!(binary(BinaryOp::Modulo, -7, 3), Ok(-1));
    assert_eq!(binary(BinaryOp::Modulo, 7, -3), Ok(1));
    assert_eq!(value("2^10").unwrap(), 1024);
    assert_eq!(value("2²").unwrap(), 4);
    assert_eq!(value("-5").unwrap(), -5);
    assert_eq!(value("abs(0-5)").unwrap(), 5);
    assert_eq!(value("sign(0-5)").unwrap(), -1);
    assert_eq!(value("sgn(0)").unwrap(), 0);
    assert_eq!(value("signum(9)").unwrap(), 1);
    assert_eq!(value("5!").unwrap(), 120);
    assert_eq!(value("20!").unwrap(), 2432902008176640000);
    assert_eq!(value("mod(7,3)").unwrap(), 1);
    assert_eq!(value("pow(3,4)").unwrap(), 81);
    assert_eq!(value("2(3)").unwrap(), 6);
    assert_eq!(value("(2)(3)").unwrap(), 6);
    assert_eq!(eval_i64("@*2".to_string(), 21, &StdFloat).unwrap(), 42);
    assert_eq!(value(" 1 + 2 ").unwrap(), 3);
}

#[test]
fn integer_errors() {
    assert_eq!(binary(BinaryOp::Add, i64::MAX, 1), Err(EvalError::Overflow));
    assert_eq!(binary(BinaryOp::Subtract, i64::MIN, 1), Err(EvalError::Overflow));
    assert_eq!(binary(BinaryOp::Multiply, i64::MAX, 2), Err(EvalError::Overflow));
    assert_eq!(binary(BinaryOp::Divide, 1, 0), Err(EvalError::DivisionByZero));
    assert_eq!(binary(BinaryOp::Divide, i64::MIN, -1), Err(EvalError::Overflow));
    assert_eq!(binary(BinaryOp::Divide, i64::MIN, 1), Ok(i64::MIN));
    assert_eq!(binary(BinaryOp::Modulo, 1, 0), Err(EvalError::DivisionByZero));
    assert_eq!(binary(BinaryOp::Modulo, i64::MIN, -1), Err(EvalError::Overflow));
    assert_eq!(binary(BinaryOp::Pow, 2, 63), Err(EvalError::Overflow));
    assert_eq!(binary(BinaryOp::Pow, 2, 62), Ok(1 << 62));
    assert_eq!(binary(BinaryOp::Pow, 2, -1), Err(EvalError::Overflow));
    assert_eq!(binary(BinaryOp::LeftShift, 1, 64), Err(EvalError::Overflow));
    assert_eq!(binary(BinaryOp::LeftShift, 1, -1), Err(EvalError::Overflow));
    assert_eq!(binary(BinaryOp::RightShift, 1, 64), Err(EvalError::Overflow));
    assert_eq!(unary(UnaryOp::Negative, i64::MIN), Err(EvalError::Overflow));
    assert_eq!(unary(UnaryOp::Abs, i64::MIN), Err(EvalError::Overflow));
    assert_eq!(unary(UnaryOp::Factorial, 21), Err(EvalError::Overflow));
    assert_eq!(unary(UnaryOp::Factorial, -1), Err(EvalError::FactorialUndefined));
    assert_eq!(unary(UnaryOp::Sqrt, -4), Err(EvalError::NegativeSquareRoot));
    assert_eq!(unary(UnaryOp::LambertW, -1), Err(EvalError::LambertWUndefined));
    assert_eq!(unary(UnaryOp::Exp2, 64), Err(EvalError::Overflow));
    assert!(matches!(value("1/0"), Err(ParseError::UnableToParse(_))));
    assert!(matches!(value("sqrt(0-4)"), Err(ParseError::UnableToParse(_))));
    assert!(matches!(value("1.5"), Err(ParseError::InvalidOperator(_))));
    assert!(matches!(value("sin(1)"), Err(ParseError::InvalidOperator(_))));
    assert!(matches!(value("pi"), Err(ParseError::InvalidOperator(_))));
    assert!(matches!(value("e"), Err(ParseError::InvalidOperator(_))));
    assert!(matches!(value("⌊1⌋"), Err(ParseError::InvalidOperator(_))));
    assert!(matches!(value("1<2"), Err(ParseError::InvalidOperator(_))));
    assert!(matches!(value("1>2"), Err(ParseError::InvalidOperator(_))));
    assert!(matches!(value("99999999999999999999"), Err(ParseError::InvalidOperator(_))));
    assert!(matches!(value("|2|"), Err(ParseError::UnableToParse(_))));
    assert!(matches!(value("min()"), Err(ParseError::UnableToParse(_))));
    assert!(matches!(value("gcd()"), Err(ParseError::UnableToParse(_))));
    assert_eq!(value("avg()").unwrap(), 0);
    assert_eq!(integer_reduce(VariadicOp::Avg, &vec![]), Err(EvalError::DivisionByZero));
    assert_eq!(
        integer_reduce(VariadicOp::Avg, &vec![i64::MAX, 1]),
        Err(EvalError::Overflow)
    );
    assert_eq!(
        integer_reduce(VariadicOp::Med, &vec![i64::MAX, i64::MAX]),
        Err(EvalError::Overflow)
    );
    assert_eq!(
        integer_reduce(VariadicOp::Lcm, &vec![i64::MAX, 2]),
        Err(EvalError::Overflow)
    );
    assert_eq!(
        integer_reduce(VariadicOp::Gcd, &vec![i64::MIN, 0]),
        Err(EvalError::Overflow)
    );
}

#[test]
fn integer_bits() {
    assert_eq!(value("6&3").unwrap(), 2);
    assert_eq!(value("6|3").unwrap(), 7);
    assert_eq!(value("1<<10").unwrap(), 1024);
    assert_eq!(value("1024>>3").unwrap(), 128);
    assert_eq!(binary(BinaryOp::RightShift, -8, 1), Ok(-4));
    assert_eq!(binary(BinaryOp::LeftShift, 1, 63), Ok(i64::MIN));
    assert_eq!(binary(BinaryOp::LeftShift, 3, 63), Ok(i64::MIN));
    assert_eq!(binary(BinaryOp::And, -1, 5), Ok(5));
    assert_eq!(binary(BinaryOp::Or, -8, 5), Ok(-3));
    assert_eq!(value("1|2&3").unwrap(), 3);
    assert_eq!(value("1<<2+1").unwrap(), 8);
    assert_eq!(value("exp2(10)").unwrap(), 1024);
    assert_eq!(unary(UnaryOp::Exp2, -3), Ok(0));
    assert_eq!(unary(UnaryOp::Exp2, 63), Ok(i64::MIN));
    assert_eq!(int_and(12, 10), 8);
    assert_eq!(int_or(12, 10), 14);
    assert_eq!(int_shl(1, 4), Some(16));
    assert_eq!(int_shl(1, 64), None);
    assert_eq!(int_shr(-16, 2), Some(-4));
    assert_eq!(int_shr(1, -1), None);
    assert_eq!(int_quotient(-7, 2), Some(-3));
    assert_eq!(int_quotient(7, 0), None);
    assert_eq!(int_quotient(i64::MIN, -1), None);
    assert_eq!(Token::Bar.get_oper_prec(), OperatorCategory::BitwiseOr);
    assert_eq!(Token::Ampersand.get_oper_prec(), OperatorCategory::BitwiseAnd);
    assert_eq!(Token::LeftShift.get_oper_prec(), OperatorCategory::Shift);
    assert_eq!(Token::RightShift.get_oper_prec(), OperatorCategory::Shift);
    assert!(OperatorCategory::DefaultZero.weaker_than(OperatorCategory::BitwiseOr));
    assert!(OperatorCategory::BitwiseOr.weaker_than(OperatorCategory::BitwiseAnd));
    assert!(OperatorCategory::BitwiseAnd.weaker_than(OperatorCategory::Shift));
    assert!(OperatorCategory::Shift.weaker_than(OperatorCategory::Additive));
    let mut tokenizer = Tokenizer::integer("<");
    assert_eq!(tokenizer.next(), None);
    assert_eq!(tokenizer.next().unwrap(), Token::Eof);
    let mut tokenizer = Tokenizer::integer("<>");
    assert_eq!(tokenizer.next(), None);
    assert_eq!(tokenizer.next(), None);
    assert_eq!(tokenizer.next().unwrap(), Token::Eof);
}

#[test]
fn integer_reducers() {
    assert_eq!(value("min(5,2,8)").unwrap(), 2);
    assert_eq!(value("max(5,2,8)").unwrap(), 8);
    assert_eq!(value("min(7)").unwrap(), 7);
    assert_eq!(value("avg(1,2,3,4)").unwrap(), 2);
    assert_eq!(value("avg(0-1,0-2)").unwrap(), -1);
    assert_eq!(value("med(5,2,8,9,7)").unwrap(), 7);
    assert_eq!(value("med(5,2,8,9)").unwrap(), 6);
    assert_eq!(value("median(3,1)").unwrap(), 2);
    assert_eq!(value("gcd(12,18)").unwrap(), 6);
    assert_eq!(value("gcd(12,18,8)").unwrap(), 2);
    assert_eq!(value("lcm(4,6)").unwrap(), 12);
    assert_eq!(value("lcm(4,6,10)").unwrap(), 60);
    assert_eq!(integer_reduce(VariadicOp::Min, &vec![]), Ok(0));
    assert_eq!(integer_reduce(VariadicOp::Max, &vec![]), Ok(0));
    assert_eq!(integer_reduce(VariadicOp::Med, &vec![]), Ok(0));
    assert_eq!(integer_reduce(VariadicOp::Gcd, &vec![]), Ok(0));
    assert_eq!(integer_reduce(VariadicOp::Min, &vec![i64::MAX, i64::MIN]), Ok(i64::MIN));
    assert_eq!(integer_reduce(VariadicOp::Max, &vec![i64::MIN, i64::MAX]), Ok(i64::MAX));
    assert_eq!(sort_integers(&vec![5, -2, 8, -2]), vec![-2, -2, 5, 8]);
    assert_eq!(sort_integers(&vec![]), Vec::<i64>::new());
}

#[test]
fn integer_functions_through_the_unit() {
    assert_eq!(value("sqrt(35)").unwrap(), 5);
    assert_eq!(value("sqrt(36)").unwrap(), 6);
    assert_eq!(value("root(3,27)").unwrap(), 3);
    assert_eq!(value("ln(3)").unwrap(), 1);
    assert_eq!(value("lb(9)").unwrap(), 3);
    assert_eq!(value("exp(2)").unwrap(), 7);
    assert_eq!(value("log(9,3)").unwrap(), 2);
    assert_eq!(integer_unary(UnaryOp::Sqrt, 17, &StdFloat), Ok(4));
    assert_eq!(integer_unary(UnaryOp::Floor, 17, &StdFloat), Ok(17));
    assert_eq!(integer_binary(BinaryOp::ILog, 1000, 10, &StdFloat), Ok(2));
    assert_eq!(integer_binary(BinaryOp::Atan2, 1, 0, &StdFloat), Ok(1));
    assert_eq!(eval(Node::Decimal("2.9".to_string()), &StdFloat), Ok(2));
    assert_eq!(eval(Node::Num(Number::Float((-2.9f64).to_bits())), &StdFloat), Ok(-2));
    let tree = Parser::integer("5+(2*7-3!)*3", None).unwrap().parse().unwrap();
    assert_eq!(evaluate(&tree, &StdFloat), evaluate(&tree, &StdFloat));
}
