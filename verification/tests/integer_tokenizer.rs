use formula_eval::number::Number;
use formula_eval::token::{NativeFunction, Token};
use formula_eval::tokenizer::Tokenizer;

#[test]
fn integer_tokenizer_test_integer_number() {
    let mut tokenizer = Tokenizer::integer("34");
    assert_eq!(tokenizer.next().unwrap(), Token::Num(Number::Integer(34)))
}

#[test]
fn integer_tokenizer_test_superscript_number() {
    let mut tokenizer = Tokenizer::integer("⁰¹²³⁴⁵⁶⁷⁸⁹");
    assert_eq!(tokenizer.next().unwrap(), Token::Superscript(Number::Integer(123456789)))
}

#[test]
fn integer_tokenizer_test_left_parenthesis_operator() {
    let mut tokenizer = Tokenizer::integer("(");
    assert_eq!(tokenizer.next().unwrap(), Token::LeftParen)
}

#[test]
fn integer_tokenizer_test_right_parenthesis_operator() {
    let mut tokenizer = Tokenizer::integer(")");
    assert_eq!(tokenizer.next().unwrap(), Token::RightParen)
}

#[test]
fn test_left_shift_operator() {
    let mut tokenizer = Tokenizer::integer("<<");
    assert_eq!(tokenizer.next().unwrap(), Token::LeftShift)
}

#[test]
fn test_right_shift_operator() {
    let mut tokenizer = Tokenizer::integer(">>");
    assert_eq!(tokenizer.next().unwrap(), Token::RightShift)
}

#[test]
fn integer_tokenizer_test_ans_operator() {
    let mut tokenizer = Tokenizer::integer("@");
    assert_eq!(tokenizer.next().unwrap(), Token::Ans)
}

#[test]
fn integer_tokenizer_test_comma_operator() {
    let mut tokenizer = Tokenizer::integer(",");
    assert_eq!(tokenizer.next().unwrap(), Token::Comma)
}

#[test]
fn integer_tokenizer_test_add_operator() {
    let mut tokenizer = Tokenizer::integer("+");
    assert_eq!(tokenizer.next().unwrap(), Token::Add)
}

#[test]
fn integer_tokenizer_test_subtract_operator() {
    let mut tokenizer = Tokenizer::integer("-");
    assert_eq!(tokenizer.next().unwrap(), Token::Subtract)
}

#[test]
fn integer_tokenizer_test_multiply_operator() {
    let mut tokenizer = Tokenizer::integer("*");
    assert_eq!(tokenizer.next().unwrap(), Token::Multiply)
}

#[test]
fn integer_tokenizer_test_divide_operator() {
    let mut tokenizer = Tokenizer::integer("/");
    assert_eq!(tokenizer.next().unwrap(), Token::Divide)
}

#[test]
fn integer_tokenizer_test_modulo_operator() {
    let mut tokenizer = Tokenizer::integer("%");
    assert_eq!(tokenizer.next().unwrap(), Token::Modulo)
}

#[test]
fn integer_tokenizer_test_caret_operator() {
    let mut tokenizer = Tokenizer::integer("^");
    assert_eq!(tokenizer.next().unwrap(), Token::Caret)
}

#[test]
fn test_ampersand_operator() {
    let mut tokenizer = Tokenizer::integer("&");
    assert_eq!(tokenizer.next().unwrap(), Token::Ampersand)
}

#[test]
fn test_bar_operator() {
    let mut tokenizer = Tokenizer::integer("|");
    assert_eq!(tokenizer.next().unwrap(), Token::Bar)
}

#[test]
fn integer_tokenizer_test_exclamation_mark_operator() {
    let mut tokenizer = Tokenizer::integer("!");
    assert_eq!(tokenizer.next().unwrap(), Token::ExclamationMark)
}

#[test]
fn integer_tokenizer_test_ln_function() {
    let mut tokenizer = Tokenizer::integer("ln(10)");
    assert_eq!(
        tokenizer.next().unwrap(),
        Token::ExplicitFunction(NativeFunction::Ln)
    )
}

#[test]
fn integer_tokenizer_test_log_function() {
    let mut tokenizer = Tokenizer::integer("log(20,2)");
    assert_eq!(
        tokenizer.next().unwrap(),
        Token::ExplicitFunction(NativeFunction::Log)
    )
}

#[test]
fn integer_tokenizer_test_mod_function() {
    let mut tokenizer = Tokenizer::integer("mod(20,2)");
    assert_eq!(
        tokenizer.next().unwrap(),
        Token::ExplicitFunction(NativeFunction::Mod)
    )
}

#[test]
fn integer_tokenizer_test_pow_function() {
    let mut tokenizer = Tokenizer::integer("pow(20,2)");
    assert_eq!(
        tokenizer.next().unwrap(),
        Token::ExplicitFunction(NativeFunction::Pow)
    )
}

#[test]
fn integer_tokenizer_test_sqrt_function() {
    let mut tokenizer = Tokenizer::integer("sqrt(14159)");
    assert_eq!(
        tokenizer.next().unwrap(),
        Token::ExplicitFunction(NativeFunction::Sqrt)
    )
}

#[test]
fn integer_tokenizer_test_exp_function() {
    let mut tokenizer = Tokenizer::integer("exp(14159)");
    assert_eq!(
        tokenizer.next().unwrap(),
        Token::ExplicitFunction(NativeFunction::Exp)
    )
}

#[test]
fn integer_tokenizer_test_exp2_function() {
    let mut tokenizer = Tokenizer::integer("exp2(14159)");
    assert_eq!(
        tokenizer.next().unwrap(),
        Token::ExplicitFunction(NativeFunction::Exp2)
    )
}

#[test]
fn integer_tokenizer_test_abs_function() {
    let mut tokenizer = Tokenizer::integer("abs(14159)");
    assert_eq!(
        tokenizer.next().unwrap(),
        Token::ExplicitFunction(NativeFunction::Abs)
    )
}

#[test]
fn integer_tokenizer_test_sign_function() {
    let mut tokenizer = Tokenizer::integer("sign(14159)");
    assert_eq!(
        tokenizer.next().unwrap(),
        Token::ExplicitFunction(NativeFunction::Sign)
    )
}

#[test]
fn integer_tokenizer_test_sign2_function() {
    let mut tokenizer = Tokenizer::integer("sgn(14159)");
    assert_eq!(
        tokenizer.next().unwrap(),
        Token::ExplicitFunction(NativeFunction::Sign)
    )
}

#[test]
fn integer_tokenizer_test_sign3_function() {
    let mut tokenizer = Tokenizer::integer("signum(14159)");
    assert_eq!(
        tokenizer.next().unwrap(),
        Token::ExplicitFunction(NativeFunction::Sign)
    )
}

#[test]
fn integer_tokenizer_test_min_function() {
    let mut tokenizer = Tokenizer::integer("min(14159,2)");
    assert_eq!(
        tokenizer.next().unwrap(),
        Token::ExplicitFunction(NativeFunction::Min)
    )
}

#[test]
fn integer_tokenizer_test_max_function() {
    let mut tokenizer = Tokenizer::integer("max(14159,2)");
    assert_eq!(
        tokenizer.next().unwrap(),
        Token::ExplicitFunction(NativeFunction::Max)
    )
}

#[test]
fn integer_tokenizer_test_avg_function() {
    let mut tokenizer = Tokenizer::integer("avg(10,20)");
    assert_eq!(
        tokenizer.next().unwrap(),
        Token::ExplicitFunction(NativeFunction::Avg)
    )
}

#[test]
fn integer_tokenizer_test_median_function() {
    let mut tokenizer = Tokenizer::integer("med(10,20)");
    assert_eq!(
        tokenizer.next().unwrap(),
        Token::ExplicitFunction(NativeFunction::Med)
    )
}

#[test]
fn integer_tokenizer_test_median_function2() {
    let mut tokenizer = Tokenizer::integer("median(10,20)");
    assert_eq!(
        tokenizer.next().unwrap(),
        Token::ExplicitFunction(NativeFunction::Med)
    )
}

#[test]
fn test_gcd_function() {
    let mut tokenizer = Tokenizer::integer("gcd(10,20)");
    assert_eq!(
        tokenizer.next().unwrap(),
        Token::ExplicitFunction(NativeFunction::Gcd)
    )
}

#[test]
fn test_lcm_function() {
    let mut tokenizer = Tokenizer::integer("lcm(10,20)");
    assert_eq!(
        tokenizer.next().unwrap(),
        Token::ExplicitFunction(NativeFunction::Lcm)
    )
}
