//! Evaluation of arithmetic formulas written as text.
//!
//! A formula such as `3+2-1*5/4` or `med(5,2,8,9)` goes through three
//! stages: the tokenizer reads its characters, the parser builds a tree and
//! the evaluator folds the tree into a value.
//!
//! There are two dialects. In the number dialect a value is an exact integer
//! as long as it can be, and a floating-point value from then on. In the
//! integer dialect every value is a 64-bit integer, and the bitwise
//! operators take the place of what only floating-point values can be.
//!
//! The library itself computes with integers alone. Floating-point
//! arithmetic is the caller's: a `FloatUnit`, through which values pass as
//! bit patterns.
use vstd::prelude::*;

pub mod ast;
pub mod eval;
pub mod float;
pub mod integer;
pub mod laws;
pub mod number;
pub mod parser;
pub mod progress;
pub mod text;
pub mod token;
pub mod tokenizer;
pub mod utils;

pub use crate::number::Number;
pub use crate::utils::ParseError;

use crate::eval::{outcome, Outcome};
use crate::float::FloatUnit;
use crate::integer::{whole_outcome, IntegerOutcome};
use crate::parser::{parse_formula, parse_formula_in, Parser};
use crate::text::without_whitespace;
use crate::token::Dialect;
use crate::utils::ErrorKind;

verus! {

/// Whether `r` is what a formula with the text `text` comes to.
///
/// Where the formula does not parse, `r` is the error of that kind. Where
/// it does, `r` is what its tree evaluates to, a failed evaluation being an
/// `UnableToParse`.
pub open spec fn is_value_of(r: Result<Number, ParseError>, text: Seq<char>, placeholder: Number) -> bool {
    match parse_formula(without_whitespace(text), placeholder) {
        Err(kind) => r is Err && r->Err_0.kind() == kind,
        Ok(tree) => match outcome(tree) {
            Outcome::Exact(v) => r is Ok && r->Ok_0 == Number::Integer(v),
            Outcome::Fails(_) => r is Err && r->Err_0.kind() == ErrorKind::UnableToParse,
            Outcome::Real => r is Ok && r->Ok_0 is Float,
            Outcome::Whole => r is Ok && r->Ok_0 is Integer,
            Outcome::Sure => r is Ok,
            Outcome::Open => r is Err ==> r->Err_0.kind() == ErrorKind::UnableToParse,
        },
    }
}

/// Evaluates the formula in `expr`, with `placeholder` for `@`.
pub fn eval_number<U: FloatUnit>(expr: String, placeholder: Number, unit: &U) -> (r: Result<
    Number,
    ParseError,
>)
    ensures
        is_value_of(r, expr@, placeholder),
{
    let stripped = crate::text::strip_whitespace(expr.as_str());
    let mut math_parser = match Parser::new(stripped.as_str(), Some(placeholder)) {
        Ok(parser) => parser,
        Err(e) => {
            return Err(e);
        },
    };
    let ast = match math_parser.parse() {
        Ok(ast) => ast,
        Err(e) => {
            return Err(e);
        },
    };
    match crate::eval::eval(ast, unit) {
        Ok(value) => Ok(value),
        Err(e) => Err(ParseError::from_eval(e)),
    }
}

/// Whether `r` is what a formula of the integer dialect with the text
/// `text` comes to.
pub open spec fn is_integer_value_of(r: Result<i64, ParseError>, text: Seq<char>, placeholder: i64) -> bool {
    match parse_formula_in(
        Dialect::Integer,
        without_whitespace(text),
        Number::Integer(placeholder),
    ) {
        Err(kind) => r is Err && r->Err_0.kind() == kind,
        Ok(tree) => match whole_outcome(tree) {
            IntegerOutcome::Exact(v) => r is Ok && r->Ok_0 == v,
            IntegerOutcome::Fails(_) => r is Err && r->Err_0.kind() == ErrorKind::UnableToParse,
            IntegerOutcome::Sure => r is Ok,
            IntegerOutcome::Open => r is Err ==> r->Err_0.kind() == ErrorKind::UnableToParse,
        },
    }
}

/// Evaluates the formula of the integer dialect in `expr`, with
/// `placeholder` for `@`.
pub fn eval_i64<U: FloatUnit>(expr: String, placeholder: i64, unit: &U) -> (r: Result<
    i64,
    ParseError,
>)
    ensures
        is_integer_value_of(r, expr@, placeholder),
{
    let stripped = crate::text::strip_whitespace(expr.as_str());
    let mut math_parser = match Parser::integer(stripped.as_str(), Some(placeholder)) {
        Ok(parser) => parser,
        Err(e) => {
            return Err(e);
        },
    };
    let ast = match math_parser.parse() {
        Ok(ast) => ast,
        Err(e) => {
            return Err(e);
        },
    };
    match crate::integer::eval(ast, unit) {
        Ok(value) => Ok(value),
        Err(e) => Err(ParseError::from_eval(e)),
    }
}

} // verus!
