use formula_eval::eval::eval;
use formula_eval::float::{Comparison, FloatUnit, RealFn, RealOp};
use formula_eval::number::Number;
use formula_eval::parser::Parser;

/// Binary64 arithmetic of the standard library.
pub struct StdFloat;

fn gamma(a: f64) -> f64 {
    let mut s = 2.4857408913875355e-5;
    if a < 0.5 {
        s += 1.0514237858172197 / (1.0 - a);
        s += -3.4568709722201625 / (2.0 - a);
        s += 4.512277094668948 / (3.0 - a);
        s += -2.9828522532357664 / (4.0 - a);
        s += 1.056397115771267 / (5.0 - a);
        s += -1.9542877319164587e-1 / (6.0 - a);
        s += 1.709705434044412e-2 / (7.0 - a);
        s += -5.719261174043057e-4 / (8.0 - a);
        s += 4.633994733599057e-6 / (9.0 - a);
        s += -2.7199490848860772e-9 / (10.0 - a);
        std::f64::consts::PI
            / ((std::f64::consts::PI * a).sin()
                * s
                * 1.8603827342052657
                * ((a - 10.400511) / std::f64::consts::E).powf(0.5 - a))
    } else {
        s += 1.0514237858172197 / a;
        s += -3.4568709722201625 / (a + 1.0);
        s += 4.512277094668948 / (a + 2.0);
        s += -2.9828522532357664 / (a + 3.0);
        s += 1.056397115771267 / (a + 4.0);
        s += -1.9542877319164587e-1 / (a + 5.0);
        s += 1.709705434044412e-2 / (a + 6.0);
        s += -5.719261174043057e-4 / (a + 7.0);
        s += 4.633994733599057e-6 / (a + 8.0);
        s += -2.7199490848860772e-9 / (a + 9.0);
        s * 1.8603827342052657 * ((a + 10.400511) / std::f64::consts::E).powf(a - 0.5)
    }
}

fn lambert_w(x: f64) -> f64 {
    let iterations = (4).max((x.log10() / 3.0).ceil() as i32);
    let mut w: f64 = 0.0;
    for _ in 0..iterations {
        let exp_w = w.exp();
        w -= (w * exp_w - x)
            / (exp_w * (w + 1.0) - (w + 2.0) * (w * exp_w - x) / (2.0 * w + 2.0));
    }
    w
}

impl FloatUnit for StdFloat {
    fn from_int(&self, value: i64) -> u64 {
        (value as f64).to_bits()
    }

    fn to_int(&self, x: u64) -> i64 {
        f64::from_bits(x) as i64
    }

    fn literal(&self, text: &str) -> u64 {
        text.parse::<f64>().unwrap_or(f64::NAN).to_bits()
    }

    fn unary(&self, f: RealFn, x: u64) -> u64 {
        let x = f64::from_bits(x);
        let y = match f {
            RealFn::Neg => -x,
            RealFn::Abs => x.abs(),
            RealFn::Signum => x.signum(),
            RealFn::Floor => x.floor(),
            RealFn::Ceil => x.ceil(),
            RealFn::Round => x.round(),
            RealFn::Trunc => x.trunc(),
            RealFn::Sqrt => x.sqrt(),
            RealFn::Ln => x.ln(),
            RealFn::Log2 => x.log(2.0),
            RealFn::Exp => x.exp(),
            RealFn::Exp2 => x.exp2(),
            RealFn::Sin => x.sin(),
            RealFn::Cos => x.cos(),
            RealFn::Tan => x.tan(),
            RealFn::Sinh => x.sinh(),
            RealFn::Cosh => x.cosh(),
            RealFn::Tanh => x.tanh(),
            RealFn::Asin => x.asin(),
            RealFn::Acos => x.acos(),
            RealFn::Atan => x.atan(),
            RealFn::Asinh => x.asinh(),
            RealFn::Acosh => x.acosh(),
            RealFn::Atanh => x.atanh(),
            RealFn::Gamma => gamma(x),
            RealFn::LambertW => lambert_w(x),
        };
        y.to_bits()
    }

    fn binary(&self, op: RealOp, a: u64, b: u64) -> u64 {
        let a = f64::from_bits(a);
        let b = f64::from_bits(b);
        let y = match op {
            RealOp::Add => a + b,
            RealOp::Sub => a - b,
            RealOp::Mul => a * b,
            RealOp::Div => a / b,
            RealOp::Rem => a % b,
            RealOp::Pow => a.powf(b),
            RealOp::Log => a.log(b),
            RealOp::Atan2 => a.atan2(b),
        };
        y.to_bits()
    }

    fn powi(&self, base: u64, exponent: i32) -> u64 {
        f64::from_bits(base).powi(exponent).to_bits()
    }

    fn compare(&self, a: u64, b: u64) -> Comparison {
        match f64::from_bits(a).partial_cmp(&f64::from_bits(b)) {
            Some(std::cmp::Ordering::Less) => Comparison::Less,
            Some(std::cmp::Ordering::Equal) => Comparison::Equal,
            Some(std::cmp::Ordering::Greater) => Comparison::Greater,
            None => Comparison::Unordered,
        }
    }

    fn ilog(&self, n: u64, base: u64) -> i64 {
        let mut n = f64::from_bits(n);
        let b = f64::from_bits(base);
        let mut x: i64 = 0;
        while n > 1.0 {
            let next = (n.log10() / b.log10()).floor();
            x += 1;
            if next >= n {
                break;
            }
            n = next;
        }
        x
    }
}

fn float(x: f64) -> Number {
    Number::Float(x.to_bits())
}


#[test]
fn test_div() {
    let ast = Parser::new("1/2", None).unwrap().parse().unwrap();
    let value = eval(ast, &StdFloat).unwrap();
    assert_eq!(value, float(0.5));
}

#[test]
fn ast_test_modulo() {
    let ast = Parser::new("1%2", None).unwrap().parse().unwrap();
    let value = eval(ast, &StdFloat).unwrap();
    assert_eq!(value, Number::Integer(1));
}

#[test]
fn test_modulo2() {
    let ast = Parser::new("2%2", None).unwrap().parse().unwrap();
    let value = eval(ast, &StdFloat).unwrap();
    assert_eq!(value, Number::Integer(0));
}

#[test]
fn test_modulo3() {
    let ast = Parser::new("3%2", None).unwrap().parse().unwrap();
    let value = eval(ast, &StdFloat).unwrap();
    assert_eq!(value, Number::Integer(1));
}

#[test]
fn ast_test_expr1() {
    let ast = Parser::new("1+2-3", None).unwrap().parse().unwrap();
    let value = eval(ast, &StdFloat).unwrap();
    assert_eq!(value, Number::Integer(0));
}

#[test]
fn ast_test_expr2() {
    let ast = Parser::new("3+2-1*5/4", None).unwrap().parse().unwrap();
    let value = eval(ast, &StdFloat).unwrap();
    assert_eq!(value, float(3.75));
}

#[test]
fn ast_test_expr3() {
    let ast = Parser::new("5+(2*7-3!)*3", None).unwrap().parse().unwrap();
    let value = eval(ast, &StdFloat).unwrap();
    assert_eq!(value, Number::Integer(29));
}

#[test]
fn ast_test_expr4() {
    let ast = Parser::new("2*4%3/2", None).unwrap().parse().unwrap();
    let value = eval(ast, &StdFloat).unwrap();
    assert_eq!(value, Number::Integer(1));
}

#[test]
fn ast_test_expr5() {
    let ast = Parser::new("3*2^3*3", None).unwrap().parse().unwrap();
    let value = eval(ast, &StdFloat).unwrap();
    assert_eq!(value, Number::Integer(72));
}

#[test]
fn ast_test_expr6() {
    let ast = Parser::new("2+3*atan2(3,7)", None)
        .unwrap()
        .parse()
        .unwrap();
    let value = eval(ast, &StdFloat).unwrap();
    assert_eq!(value, float(2.0 + 3.0 * (3.0 as f64).atan2(7.0)));
}

#[test]
fn ast_test_expr7() {
    let ast = Parser::new("med(5,2,8,9,7)", None)
        .unwrap()
        .parse()
        .unwrap();
    let value = eval(ast, &StdFloat).unwrap();
    assert_eq!(value, Number::Integer(7));
}

#[test]
fn ast_test_expr8() {
    let ast = Parser::new("med(5,2,8,9)", None).unwrap().parse().unwrap();
    let value = eval(ast, &StdFloat).unwrap();
    assert_eq!(value, float(6.5));
}
