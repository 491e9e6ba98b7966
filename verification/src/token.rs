//! The lexical tokens of a formula.
use vstd::prelude::*;
use crate::number::Number;
use crate::utils::OperatorCategory;

verus! {

/// The two languages of formulas. They share most of their tokens; the
/// integer one has the bitwise operators in place of everything that only a
/// floating-point value can be: decimal literals, constants, units, the
/// rounding brackets and the transcendental functions but for a few.
#[derive(Clone, Copy, Debug, PartialEq, Eq, Structural)]
pub enum Dialect {
    /// Numbers that are integers as long as they can be.
    Number,
    /// 64-bit integers.
    Integer,
}

/// The functions that a formula may call by name.
#[derive(Clone, Copy, Debug, PartialEq, Eq, Structural)]
pub enum NativeFunction {
    Sin,
    Cos,
    Tan,
    Sinh,
    Cosh,
    Tanh,
    Asin,
    Acos,
    Atan,
    Atan2,
    Arcosh,
    Arsinh,
    Artanh,
    Ln,
    Lb,
    Log,
    ILog,
    Pow,
    Sqrt,
    Root,
    Exp,
    Exp2,
    LambertW,
    Abs,
    Sign,
    Truncate,
    Floor,
    Ceil,
    Round,
    Min,
    Max,
    Avg,
    Med,
    Mod,
    Gcd,
    Lcm,
}

/// How many arguments a function takes.
#[derive(Clone, Copy, Debug, PartialEq, Eq, Structural)]
pub enum Arity {
    One,
    Two,
    /// A comma-separated list of any length.
    Variadic,
}

impl NativeFunction {
    /// How many arguments the function takes.
    pub open spec fn spec_arity(self) -> Arity {
        match self {
            NativeFunction::Atan2
            | NativeFunction::Mod
            | NativeFunction::Pow
            | NativeFunction::Root
            | NativeFunction::Log
            | NativeFunction::ILog => Arity::Two,
            NativeFunction::Min
            | NativeFunction::Max
            | NativeFunction::Avg
            | NativeFunction::Med
            | NativeFunction::Gcd
            | NativeFunction::Lcm => Arity::Variadic,
            _ => Arity::One,
        }
    }

    /// How many arguments the function takes.
    #[verifier::when_used_as_spec(spec_arity)]
    pub fn arity(self) -> (r: Arity)
        ensures
            r == self.spec_arity(),
    {
        match self {
            NativeFunction::Atan2
            | NativeFunction::Mod
            | NativeFunction::Pow
            | NativeFunction::Root
            | NativeFunction::Log
            | NativeFunction::ILog => Arity::Two,
            NativeFunction::Min
            | NativeFunction::Max
            | NativeFunction::Avg
            | NativeFunction::Med
            | NativeFunction::Gcd
            | NativeFunction::Lcm => Arity::Variadic,
            _ => Arity::One,
        }
    }
}

/// A token as the tokenizer hands it out.
///
/// `Bar` is the bitwise operator of the integer dialect, `AbsoluteBar` the
/// delimiter of the number dialect. `Num` holds an integer literal that fits in an `i64`. Every other numeric
/// literal, one with a decimal point or with too many digits, is a `Decimal`
/// and keeps its text: digits, then at most one point, then digits.
#[derive(Debug, PartialEq)]
pub enum Token {
    Ampersand,
    Bar,
    LeftShift,
    RightShift,
    Add,
    Subtract,
    Multiply,
    Divide,
    Caret,
    ExclamationMark,
    Modulo,
    LeftParen,
    RightParen,
    LeftFloor,
    RightFloor,
    LeftCeiling,
    RightCeiling,
    /// A bar that opens or closes an absolute value.
    AbsoluteBar,
    E,
    Pi,
    Comma,
    DegToRad,
    RadToDeg,
    ExplicitFunction(NativeFunction),
    Superscript(Number),
    Num(Number),
    Decimal(String),
    Ans,
    Eof,
}

/// The mathematical value of a `Token`: the same variants, with the text of a
/// decimal literal as a sequence of characters.
pub enum Lexeme {
    Ampersand,
    Bar,
    LeftShift,
    RightShift,
    Add,
    Subtract,
    Multiply,
    Divide,
    Caret,
    ExclamationMark,
    Modulo,
    LeftParen,
    RightParen,
    LeftFloor,
    RightFloor,
    LeftCeiling,
    RightCeiling,
    /// A bar that opens or closes an absolute value.
    AbsoluteBar,
    E,
    Pi,
    Comma,
    DegToRad,
    RadToDeg,
    ExplicitFunction(NativeFunction),
    Superscript(Number),
    Num(Number),
    Decimal(Seq<char>),
    Ans,
    Eof,
}

impl Clone for Token {
    fn clone(&self) -> (copy: Self)
        ensures
            copy@ == self@,
    {
        self.duplicate()
    }
}

impl View for Token {
    type V = Lexeme;

    open spec fn view(&self) -> Lexeme {
        match self {
            Token::Ampersand => Lexeme::Ampersand,
            Token::Bar => Lexeme::Bar,
            Token::LeftShift => Lexeme::LeftShift,
            Token::RightShift => Lexeme::RightShift,
            Token::Add => Lexeme::Add,
            Token::Subtract => Lexeme::Subtract,
            Token::Multiply => Lexeme::Multiply,
            Token::Divide => Lexeme::Divide,
            Token::Caret => Lexeme::Caret,
            Token::ExclamationMark => Lexeme::ExclamationMark,
            Token::Modulo => Lexeme::Modulo,
            Token::LeftParen => Lexeme::LeftParen,
            Token::RightParen => Lexeme::RightParen,
            Token::LeftFloor => Lexeme::LeftFloor,
            Token::RightFloor => Lexeme::RightFloor,
            Token::LeftCeiling => Lexeme::LeftCeiling,
            Token::RightCeiling => Lexeme::RightCeiling,
            Token::AbsoluteBar => Lexeme::AbsoluteBar,
            Token::E => Lexeme::E,
            Token::Pi => Lexeme::Pi,
            Token::Comma => Lexeme::Comma,
            Token::DegToRad => Lexeme::DegToRad,
            Token::RadToDeg => Lexeme::RadToDeg,
            Token::ExplicitFunction(f) => Lexeme::ExplicitFunction(*f),
            Token::Superscript(n) => Lexeme::Superscript(*n),
            Token::Num(n) => Lexeme::Num(*n),
            Token::Decimal(text) => Lexeme::Decimal(text@),
            Token::Ans => Lexeme::Ans,
            Token::Eof => Lexeme::Eof,
        }
    }
}

/// The text that `format!` of the standard library writes for a token in
/// its `Debug` form: the name of the variant, with what it holds between
/// parentheses.
pub uninterp spec fn debug_form(token: Lexeme) -> Seq<char>;

impl Lexeme {
    /// The precedence class of a token that stands where an operator may.
    pub open spec fn oper_prec(self) -> OperatorCategory {
        match self {
            Lexeme::Bar => OperatorCategory::BitwiseOr,
            Lexeme::Ampersand => OperatorCategory::BitwiseAnd,
            Lexeme::LeftShift | Lexeme::RightShift => OperatorCategory::Shift,
            Lexeme::Add | Lexeme::Subtract => OperatorCategory::Additive,
            Lexeme::Multiply
            | Lexeme::Divide
            | Lexeme::Modulo
            | Lexeme::DegToRad
            | Lexeme::RadToDeg => OperatorCategory::Multiplicative,
            Lexeme::Caret | Lexeme::Superscript(_) => OperatorCategory::Power,
            Lexeme::ExclamationMark | Lexeme::ExplicitFunction(_) => OperatorCategory::Functional,
            _ => OperatorCategory::DefaultZero,
        }
    }
}

impl Token {
    /// The precedence class of the token where it stands for an operator;
    /// `DefaultZero` for a token that is none.
    pub fn get_oper_prec(&self) -> (prec: OperatorCategory)
        ensures
            prec == self@.oper_prec(),
    {
        match self {
            Token::Bar => OperatorCategory::BitwiseOr,
            Token::Ampersand => OperatorCategory::BitwiseAnd,
            Token::LeftShift | Token::RightShift => OperatorCategory::Shift,
            Token::Add | Token::Subtract => OperatorCategory::Additive,
            Token::Multiply
            | Token::Divide
            | Token::Modulo
            | Token::DegToRad
            | Token::RadToDeg => OperatorCategory::Multiplicative,
            Token::Caret | Token::Superscript(_) => OperatorCategory::Power,
            Token::ExclamationMark | Token::ExplicitFunction(_) => OperatorCategory::Functional,
            _ => OperatorCategory::DefaultZero,
        }
    }

    /// Whether two tokens are the same, literal for literal.
    pub fn equals(&self, other: &Token) -> (same: bool)
        ensures
            same == (self@ == other@),
    {
        match (self, other) {
            (Token::Ampersand, Token::Ampersand) => true,
            (Token::Bar, Token::Bar) => true,
            (Token::LeftShift, Token::LeftShift) => true,
            (Token::RightShift, Token::RightShift) => true,
            (Token::Add, Token::Add) => true,
            (Token::Subtract, Token::Subtract) => true,
            (Token::Multiply, Token::Multiply) => true,
            (Token::Divide, Token::Divide) => true,
            (Token::Caret, Token::Caret) => true,
            (Token::ExclamationMark, Token::ExclamationMark) => true,
            (Token::Modulo, Token::Modulo) => true,
            (Token::LeftParen, Token::LeftParen) => true,
            (Token::RightParen, Token::RightParen) => true,
            (Token::LeftFloor, Token::LeftFloor) => true,
            (Token::RightFloor, Token::RightFloor) => true,
            (Token::LeftCeiling, Token::LeftCeiling) => true,
            (Token::RightCeiling, Token::RightCeiling) => true,
            (Token::AbsoluteBar, Token::AbsoluteBar) => true,
            (Token::E, Token::E) => true,
            (Token::Pi, Token::Pi) => true,
            (Token::Comma, Token::Comma) => true,
            (Token::DegToRad, Token::DegToRad) => true,
            (Token::RadToDeg, Token::RadToDeg) => true,
            (Token::ExplicitFunction(f), Token::ExplicitFunction(g)) => *f == *g,
            (Token::Superscript(a), Token::Superscript(b)) => *a == *b,
            (Token::Num(a), Token::Num(b)) => *a == *b,
            (Token::Decimal(a), Token::Decimal(b)) => *a == *b,
            (Token::Ans, Token::Ans) => true,
            (Token::Eof, Token::Eof) => true,
            _ => false,
        }
    }

    /// A copy of the token.
    pub fn duplicate(&self) -> (copy: Token)
        ensures
            copy@ == self@,
    {
        match self {
            Token::Ampersand => Token::Ampersand,
            Token::Bar => Token::Bar,
            Token::LeftShift => Token::LeftShift,
            Token::RightShift => Token::RightShift,
            Token::Add => Token::Add,
            Token::Subtract => Token::Subtract,
            Token::Multiply => Token::Multiply,
            Token::Divide => Token::Divide,
            Token::Caret => Token::Caret,
            Token::ExclamationMark => Token::ExclamationMark,
            Token::Modulo => Token::Modulo,
            Token::LeftParen => Token::LeftParen,
            Token::RightParen => Token::RightParen,
            Token::LeftFloor => Token::LeftFloor,
            Token::RightFloor => Token::RightFloor,
            Token::LeftCeiling => Token::LeftCeiling,
            Token::RightCeiling => Token::RightCeiling,
            Token::AbsoluteBar => Token::AbsoluteBar,
            Token::E => Token::E,
            Token::Pi => Token::Pi,
            Token::Comma => Token::Comma,
            Token::DegToRad => Token::DegToRad,
            Token::RadToDeg => Token::RadToDeg,
            Token::ExplicitFunction(f) => Token::ExplicitFunction(*f),
            Token::Superscript(n) => Token::Superscript(*n),
            Token::Num(n) => Token::Num(*n),
            Token::Decimal(text) => Token::Decimal(text.clone()),
            Token::Ans => Token::Ans,
            Token::Eof => Token::Eof,
        }
    }
}

} // verus!
