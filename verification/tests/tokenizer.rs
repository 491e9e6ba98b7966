use formula_eval::number::Number;
use formula_eval::token::{NativeFunction, Token};
use formula_eval::tokenizer::Tokenizer;

#[test]
fn tokenizer_test_integer_number() {
    let mut tokenizer = Tokenizer::new("34");
    assert_eq!(tokenizer.next().unwrap(), Token::Num(Number::Integer(34)))
}

#[test]
fn tokenizer_test_superscript_number() {
    let mut tokenizer = Tokenizer::new("⁰¹²³⁴⁵⁶⁷⁸⁹");
    assert_eq!(
        tokenizer.next().unwrap(),
        Token::Superscript(Number::Integer(123456789))
    )
}

#[test]
fn tokenizer_test_decimal_number() {
    let mut tokenizer = Tokenizer::new("34.5");
    assert_eq!(tokenizer.next().unwrap(), Token::Decimal("34.5".to_string()))
}

#[test]
fn tokenizer_test_decimal_number_omit_zero() {
    let mut tokenizer = Tokenizer::new(".5");
    assert_eq!(tokenizer.next().unwrap(), Token::Decimal("0.5".to_string()))
}

#[test]
fn tokenizer_test_e_const() {
    let mut tokenizer = Tokenizer::new("e");
    assert_eq!(tokenizer.next().unwrap(), Token::E)
}

#[test]
fn tokenizer_test_pi_const() {
    let mut tokenizer = Tokenizer::new("π");
    assert_eq!(tokenizer.next().unwrap(), Token::Pi)
}

#[test]
fn tokenizer_test_pi_const2() {
    let mut tokenizer = Tokenizer::new("pi");
    assert_eq!(tokenizer.next().unwrap(), Token::Pi)
}

#[test]
fn tokenizer_test_left_parenthesis_operator() {
    let mut tokenizer = Tokenizer::new("(");
    assert_eq!(tokenizer.next().unwrap(), Token::LeftParen)
}

#[test]
fn tokenizer_test_right_parenthesis_operator() {
    let mut tokenizer = Tokenizer::new(")");
    assert_eq!(tokenizer.next().unwrap(), Token::RightParen)
}

#[test]
fn tokenizer_test_left_floor_operator() {
    let mut tokenizer = Tokenizer::new("⌊");
    assert_eq!(tokenizer.next().unwrap(), Token::LeftFloor)
}

#[test]
fn tokenizer_test_right_floor_operator() {
    let mut tokenizer = Tokenizer::new("⌋");
    assert_eq!(tokenizer.next().unwrap(), Token::RightFloor)
}

#[test]
fn tokenizer_test_left_ceil_operator() {
    let mut tokenizer = Tokenizer::new("⌈");
    assert_eq!(tokenizer.next().unwrap(), Token::LeftCeiling)
}

#[test]
fn tokenizer_test_right_ceil_operator() {
    let mut tokenizer = Tokenizer::new("⌉");
    assert_eq!(tokenizer.next().unwrap(), Token::RightCeiling)
}

#[test]
fn tokenizer_test_ans_operator() {
    let mut tokenizer = Tokenizer::new("@");
    assert_eq!(tokenizer.next().unwrap(), Token::Ans)
}

#[test]
fn tokenizer_test_comma_operator() {
    let mut tokenizer = Tokenizer::new(",");
    assert_eq!(tokenizer.next().unwrap(), Token::Comma)
}

#[test]
fn tokenizer_test_deg_to_rad_operator() {
    let mut tokenizer = Tokenizer::new("°");
    assert_eq!(tokenizer.next().unwrap(), Token::DegToRad)
}

#[test]
fn tokenizer_test_rad_to_deg_operator() {
    let mut tokenizer = Tokenizer::new("rad");
    assert_eq!(tokenizer.next().unwrap(), Token::RadToDeg)
}

#[test]
fn tokenizer_test_add_operator() {
    let mut tokenizer = Tokenizer::new("+");
    assert_eq!(tokenizer.next().unwrap(), Token::Add)
}

#[test]
fn tokenizer_test_subtract_operator() {
    let mut tokenizer = Tokenizer::new("-");
    assert_eq!(tokenizer.next().unwrap(), Token::Subtract)
}

#[test]
fn tokenizer_test_multiply_operator() {
    let mut tokenizer = Tokenizer::new("*");
    assert_eq!(tokenizer.next().unwrap(), Token::Multiply)
}

#[test]
fn tokenizer_test_divide_operator() {
    let mut tokenizer = Tokenizer::new("/");
    assert_eq!(tokenizer.next().unwrap(), Token::Divide)
}

#[test]
fn tokenizer_test_modulo_operator() {
    let mut tokenizer = Tokenizer::new("%");
    assert_eq!(tokenizer.next().unwrap(), Token::Modulo)
}

#[test]
fn tokenizer_test_caret_operator() {
    let mut tokenizer = Tokenizer::new("^");
    assert_eq!(tokenizer.next().unwrap(), Token::Caret)
}

#[test]
fn tokenizer_test_exclamation_mark_operator() {
    let mut tokenizer = Tokenizer::new("!");
    assert_eq!(tokenizer.next().unwrap(), Token::ExclamationMark)
}

#[test]
fn tokenizer_test_sin_function() {
    let mut tokenizer = Tokenizer::new("sin(3.14159)");
    assert_eq!(
        tokenizer.next().unwrap(),
        Token::ExplicitFunction(NativeFunction::Sin)
    )
}

#[test]
fn tokenizer_test_cos_function() {
    let mut tokenizer = Tokenizer::new("cos(3.14159)");
    assert_eq!(
        tokenizer.next().unwrap(),
        Token::ExplicitFunction(NativeFunction::Cos)
    )
}

#[test]
fn tokenizer_test_tan_function() {
    let mut tokenizer = Tokenizer::new("tan(.14159)");
    assert_eq!(
        tokenizer.next().unwrap(),
        Token::ExplicitFunction(NativeFunction::Tan)
    )
}

#[test]
fn tokenizer_test_sinh_function() {
    let mut tokenizer = Tokenizer::new("sinh(3.14159)");
    assert_eq!(
        tokenizer.next().unwrap(),
        Token::ExplicitFunction(NativeFunction::Sinh)
    )
}

#[test]
fn tokenizer_test_cosh_function() {
    let mut tokenizer = Tokenizer::new("cosh(3.14159)");
    assert_eq!(
        tokenizer.next().unwrap(),
        Token::ExplicitFunction(NativeFunction::Cosh)
    )
}

#[test]
fn tokenizer_test_tanh_function() {
    let mut tokenizer = Tokenizer::new("tanh(.14159)");
    assert_eq!(
        tokenizer.next().unwrap(),
        Token::ExplicitFunction(NativeFunction::Tanh)
    )
}

#[test]
fn tokenizer_test_asin_function() {
    let mut tokenizer = Tokenizer::new("asin(3.14159)");
    assert_eq!(
        tokenizer.next().unwrap(),
        Token::ExplicitFunction(NativeFunction::Asin)
    )
}

#[test]
fn tokenizer_test_acos_function() {
    let mut tokenizer = Tokenizer::new("acos(3.14159)");
    assert_eq!(
        tokenizer.next().unwrap(),
        Token::ExplicitFunction(NativeFunction::Acos)
    )
}

#[test]
fn tokenizer_test_atan_function() {
    let mut tokenizer = Tokenizer::new("atan(.14159)");
    assert_eq!(
        tokenizer.next().unwrap(),
        Token::ExplicitFunction(NativeFunction::Atan)
    )
}

#[test]
fn tokenizer_test_atan2_function() {
    let mut tokenizer = Tokenizer::new("atan2(.14159, 2.1415)");
    assert_eq!(
        tokenizer.next().unwrap(),
        Token::ExplicitFunction(NativeFunction::Atan2)
    )
}

#[test]
fn tokenizer_test_asinh_function() {
    let mut tokenizer = Tokenizer::new("asinh(3.14159)");
    assert_eq!(
        tokenizer.next().unwrap(),
        Token::ExplicitFunction(NativeFunction::Arsinh)
    )
}

#[test]
fn tokenizer_test_acosh_function() {
    let mut tokenizer = Tokenizer::new("acosh(3.14159)");
    assert_eq!(
        tokenizer.next().unwrap(),
        Token::ExplicitFunction(NativeFunction::Arcosh)
    )
}

#[test]
fn tokenizer_test_atanh_function() {
    let mut tokenizer = Tokenizer::new("atanh(.14159)");
    assert_eq!(
        tokenizer.next().unwrap(),
        Token::ExplicitFunction(NativeFunction::Artanh)
    )
}

#[test]
fn tokenizer_test_arsinh_function() {
    let mut tokenizer = Tokenizer::new("arsinh(3.14159)");
    assert_eq!(
        tokenizer.next().unwrap(),
        Token::ExplicitFunction(NativeFunction::Arsinh)
    )
}

#[test]
fn tokenizer_test_arcosh_function() {
    let mut tokenizer = Tokenizer::new("arcosh(3.14159)");
    assert_eq!(
        tokenizer.next().unwrap(),
        Token::ExplicitFunction(NativeFunction::Arcosh)
    )
}

#[test]
fn tokenizer_test_artanh_function() {
    let mut tokenizer = Tokenizer::new("artanh(.14159)");
    assert_eq!(
        tokenizer.next().unwrap(),
        Token::ExplicitFunction(NativeFunction::Artanh)
    )
}

#[test]
fn tokenizer_test_ln_function() {
    let mut tokenizer = Tokenizer::new("ln(.14159)");
    assert_eq!(
        tokenizer.next().unwrap(),
        Token::ExplicitFunction(NativeFunction::Ln)
    )
}

#[test]
fn tokenizer_test_lb_function() {
    let mut tokenizer = Tokenizer::new("lb(.14159)");
    assert_eq!(
        tokenizer.next().unwrap(),
        Token::ExplicitFunction(NativeFunction::Lb)
    )
}

#[test]
fn tokenizer_test_log_function() {
    let mut tokenizer = Tokenizer::new("log(.14159,2)");
    assert_eq!(
        tokenizer.next().unwrap(),
        Token::ExplicitFunction(NativeFunction::Log)
    )
}

#[test]
fn tokenizer_test_pow_function() {
    let mut tokenizer = Tokenizer::new("pow(.14159,2)");
    assert_eq!(
        tokenizer.next().unwrap(),
        Token::ExplicitFunction(NativeFunction::Pow)
    )
}

#[test]
fn tokenizer_test_root_function() {
    let mut tokenizer = Tokenizer::new("root(.14159,2)");
    assert_eq!(
        tokenizer.next().unwrap(),
        Token::ExplicitFunction(NativeFunction::Root)
    )
}

#[test]
fn tokenizer_test_mod_function() {
    let mut tokenizer = Tokenizer::new("mod(2.14159,2)");
    assert_eq!(
        tokenizer.next().unwrap(),
        Token::ExplicitFunction(NativeFunction::Mod)
    )
}

#[test]
fn tokenizer_test_sqrt_function() {
    let mut tokenizer = Tokenizer::new("sqrt(.14159)");
    assert_eq!(
        tokenizer.next().unwrap(),
        Token::ExplicitFunction(NativeFunction::Sqrt)
    )
}

#[test]
fn tokenizer_test_exp_function() {
    let mut tokenizer = Tokenizer::new("exp(.14159)");
    assert_eq!(
        tokenizer.next().unwrap(),
        Token::ExplicitFunction(NativeFunction::Exp)
    )
}

#[test]
fn tokenizer_test_exp2_function() {
    let mut tokenizer = Tokenizer::new("exp2(.14159)");
    assert_eq!(
        tokenizer.next().unwrap(),
        Token::ExplicitFunction(NativeFunction::Exp2)
    )
}

#[test]
fn tokenizer_test_ilog_function() {
    let mut tokenizer = Tokenizer::new("ilog(.14159,e)");
    assert_eq!(
        tokenizer.next().unwrap(),
        Token::ExplicitFunction(NativeFunction::ILog)
    )
}

#[test]
fn tokenizer_test_lambert_w_function() {
    let mut tokenizer = Tokenizer::new("w(.14159)");
    assert_eq!(
        tokenizer.next().unwrap(),
        Token::ExplicitFunction(NativeFunction::LambertW)
    )
}

#[test]
fn tokenizer_test_lambert_w_function2() {
    let mut tokenizer = Tokenizer::new("lambert_w(.14159)");
    assert_eq!(
        tokenizer.next().unwrap(),
        Token::ExplicitFunction(NativeFunction::LambertW)
    )
}

#[test]
fn tokenizer_test_abs_function() {
    let mut tokenizer = Tokenizer::new("abs(.14159)");
    assert_eq!(
        tokenizer.next().unwrap(),
        Token::ExplicitFunction(NativeFunction::Abs)
    )
}

#[test]
fn tokenizer_test_sign_function() {
    let mut tokenizer = Tokenizer::new("sign(.14159)");
    assert_eq!(
        tokenizer.next().unwrap(),
        Token::ExplicitFunction(NativeFunction::Sign)
    )
}

#[test]
fn tokenizer_test_sign2_function() {
    let mut tokenizer = Tokenizer::new("sgn(.14159)");
    assert_eq!(
        tokenizer.next().unwrap(),
        Token::ExplicitFunction(NativeFunction::Sign)
    )
}

#[test]
fn tokenizer_test_sign3_function() {
    let mut tokenizer = Tokenizer::new("signum(.14159)");
    assert_eq!(
        tokenizer.next().unwrap(),
        Token::ExplicitFunction(NativeFunction::Sign)
    )
}

#[test]
fn tokenizer_test_truncate_function() {
    let mut tokenizer = Tokenizer::new("truncate(.14159)");
    assert_eq!(
        tokenizer.next().unwrap(),
        Token::ExplicitFunction(NativeFunction::Truncate)
    )
}

#[test]
fn tokenizer_test_truncate_function2() {
    let mut tokenizer = Tokenizer::new("trunc(.14159)");
    assert_eq!(
        tokenizer.next().unwrap(),
        Token::ExplicitFunction(NativeFunction::Truncate)
    )
}

#[test]
fn tokenizer_test_floor_function() {
    let mut tokenizer = Tokenizer::new("floor(.14159)");
    assert_eq!(
        tokenizer.next().unwrap(),
        Token::ExplicitFunction(NativeFunction::Floor)
    )
}

#[test]
fn tokenizer_test_ceil_function() {
    let mut tokenizer = Tokenizer::new("ceil(.14159)");
    assert_eq!(
        tokenizer.next().unwrap(),
        Token::ExplicitFunction(NativeFunction::Ceil)
    )
}

#[test]
fn tokenizer_test_round_function() {
    let mut tokenizer = Tokenizer::new("round(.14159)");
    assert_eq!(
        tokenizer.next().unwrap(),
        Token::ExplicitFunction(NativeFunction::Round)
    )
}

#[test]
fn tokenizer_test_min_function() {
    let mut tokenizer = Tokenizer::new("min(.14159,2)");
    assert_eq!(
        tokenizer.next().unwrap(),
        Token::ExplicitFunction(NativeFunction::Min)
    )
}

#[test]
fn tokenizer_test_max_function() {
    let mut tokenizer = Tokenizer::new("max(.14159,2)");
    assert_eq!(
        tokenizer.next().unwrap(),
        Token::ExplicitFunction(NativeFunction::Max)
    )
}

#[test]
fn tokenizer_test_avg_function() {
    let mut tokenizer = Tokenizer::new("avg(10,20)");
    assert_eq!(
        tokenizer.next().unwrap(),
        Token::ExplicitFunction(NativeFunction::Avg)
    )
}

#[test]
fn tokenizer_test_median_function() {
    let mut tokenizer = Tokenizer::new("med(10,20)");
    assert_eq!(
        tokenizer.next().unwrap(),
        Token::ExplicitFunction(NativeFunction::Med)
    )
}

#[test]
fn tokenizer_test_median_function2() {
    let mut tokenizer = Tokenizer::new("median(10,20)");
    assert_eq!(
        tokenizer.next().unwrap(),
        Token::ExplicitFunction(NativeFunction::Med)
    )
}
