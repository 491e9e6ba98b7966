//! The parser: precedence climbing over the tokens of a formula, with
//! multiplication implied between adjacent terms.
use vstd::prelude::*;
use vstd::string::StringExecFns;
use crate::ast::{exprs, lemma_variadic_expr, BinaryOp, Expr, Node, UnaryOp, VariadicOp};
use crate::number::{Number, DEGREES_PER_RADIAN, E, PI, RADIANS_PER_DEGREE, ZERO};
use crate::token::{debug_form, Arity, Dialect, Lexeme, NativeFunction, Token};
use crate::tokenizer::{lex_in, Tokenizer};
use crate::utils::{ErrorKind, OperatorCategory, ParseError};

verus! {

/// Where a parse stands: the token under consideration, the characters
/// after it and the dialect that they are read in.
pub struct Cursor {
    pub current: Lexeme,
    pub rest: Seq<char>,
    pub dialect: Dialect,
}

/// The outcome of parsing a part of the formula: what was recognised and
/// where the parse stands after it, or the kind of error that ended it.
pub enum Parsed<T> {
    Done(T, Cursor),
    Failed(ErrorKind),
}

/// What is left to read at a cursor. Every step of the grammar that moves
/// the cursor makes it smaller.
pub open spec fn measure(c: Cursor) -> nat {
    c.rest.len() + if c.current is Eof {
        0nat
    } else {
        1nat
    }
}

/// The cursor after the current token: on the next token of the input, and
/// on `Eof` where nothing is left. `None` where no token starts there. (A
/// token takes at least one character of those that are left:
/// `lemma_lex_in_consumes`.)
pub open spec fn advance(c: Cursor) -> Option<Cursor> {
    if c.rest.len() == 0 {
        Some(Cursor { current: Lexeme::Eof, rest: c.rest, dialect: c.dialect })
    } else {
        let l = lex_in(c.dialect, c.rest);
        match l.token {
            Some(t) => if 1 <= l.consumed <= c.rest.len() {
                Some(Cursor { current: t, rest: c.rest.skip(l.consumed as int), dialect: c.dialect })
            } else {
                None
            },
            None => None,
        }
    }
}

/// The zero that an average of nothing is: a floating-point one among
/// numbers, an integer among integers.
pub open spec fn zero_of(dialect: Dialect) -> Number {
    match dialect {
        Dialect::Number => Number::Float(ZERO),
        Dialect::Integer => Number::Integer(0),
    }
}

/// The cursor after the current token, which has to be `token`.
pub open spec fn expect(c: Cursor, token: Lexeme) -> Option<Cursor> {
    if c.current == token {
        advance(c)
    } else {
        None
    }
}

/// `r`, given that it did not move the cursor back from `c`. No result of
/// the grammar does (`lemma_checks_pass`), so this is `r` itself; it is
/// written where the grammar goes on after a part, to show that the
/// recursion ends. The same holds of the other comparisons of measures in
/// the grammar.
pub open spec fn within<T>(r: Parsed<T>, c: Cursor) -> Parsed<T> {
    match r {
        Parsed::Done(_, c1) => if measure(c1) <= measure(c) {
            r
        } else {
            Parsed::Failed(ErrorKind::UnableToParse)
        },
        Parsed::Failed(_) => r,
    }
}

/// The operator that a function of one argument is.
pub open spec fn unary_of(f: NativeFunction) -> UnaryOp
    recommends
        f.spec_arity() == Arity::One,
{
    match f {
        NativeFunction::Abs => UnaryOp::Abs,
        NativeFunction::Floor => UnaryOp::Floor,
        NativeFunction::Ceil => UnaryOp::Ceil,
        NativeFunction::Round => UnaryOp::Round,
        NativeFunction::Sin => UnaryOp::Sin,
        NativeFunction::Cos => UnaryOp::Cos,
        NativeFunction::Tan => UnaryOp::Tan,
        NativeFunction::Sinh => UnaryOp::Sinh,
        NativeFunction::Cosh => UnaryOp::Cosh,
        NativeFunction::Tanh => UnaryOp::Tanh,
        NativeFunction::Asin => UnaryOp::Asin,
        NativeFunction::Acos => UnaryOp::Acos,
        NativeFunction::Atan => UnaryOp::Atan,
        NativeFunction::Arsinh => UnaryOp::Arsinh,
        NativeFunction::Arcosh => UnaryOp::Arcosh,
        NativeFunction::Artanh => UnaryOp::Artanh,
        NativeFunction::Sqrt => UnaryOp::Sqrt,
        NativeFunction::Exp => UnaryOp::Exp,
        NativeFunction::Exp2 => UnaryOp::Exp2,
        NativeFunction::Ln => UnaryOp::Ln,
        NativeFunction::Lb => UnaryOp::Lb,
        NativeFunction::LambertW => UnaryOp::LambertW,
        NativeFunction::Sign => UnaryOp::Sign,
        _ => UnaryOp::Truncate,
    }
}

/// The operator that a function of two arguments is.
pub open spec fn binary_of(f: NativeFunction) -> BinaryOp
    recommends
        f.spec_arity() == Arity::Two,
{
    match f {
        NativeFunction::Atan2 => BinaryOp::Atan2,
        NativeFunction::Mod => BinaryOp::Modulo,
        NativeFunction::Pow => BinaryOp::Pow,
        NativeFunction::Root => BinaryOp::Root,
        NativeFunction::Log => BinaryOp::Log,
        _ => BinaryOp::ILog,
    }
}

/// The reducer that a function of a list is.
pub open spec fn variadic_of(f: NativeFunction) -> VariadicOp
    recommends
        f.spec_arity() == Arity::Variadic,
{
    match f {
        NativeFunction::Min => VariadicOp::Min,
        NativeFunction::Max => VariadicOp::Max,
        NativeFunction::Avg => VariadicOp::Avg,
        NativeFunction::Gcd => VariadicOp::Gcd,
        NativeFunction::Lcm => VariadicOp::Lcm,
        _ => VariadicOp::Med,
    }
}

/// Whether a term may start with this token, so that it multiplies the term
/// before it without an operator between them.
pub open spec fn starts_factor(t: Lexeme) -> bool {
    t is LeftParen || t is LeftCeiling || t is LeftFloor || t is ExplicitFunction || t is Num
        || t is Decimal
}

/// An expression whose operators all bind tighter than `prec`: a term, and
/// the operators and operands that follow it.
#[verifier::opaque]
pub open spec fn parse_expr(c: Cursor, prec: OperatorCategory, ph: Number) -> Parsed<Expr>
    decreases measure(c), 4nat,
{
    match within(parse_primary(c, ph), c) {
        Parsed::Done(left, c1) => climb(left, c1, prec, ph),
        Parsed::Failed(k) => Parsed::Failed(k),
    }
}

/// The operators after `left`, as long as they bind tighter than `prec`.
#[verifier::opaque]
pub open spec fn climb(left: Expr, c: Cursor, prec: OperatorCategory, ph: Number) -> Parsed<Expr>
    decreases measure(c), 1nat,
{
    if prec.rank() < c.current.oper_prec().rank() {
        match parse_infix(left, c, ph) {
            Parsed::Done(e, c1) => if measure(c1) < measure(c) {
                climb(e, c1, prec, ph)
            } else {
                Parsed::Failed(ErrorKind::UnableToParse)
            },
            Parsed::Failed(k) => Parsed::Failed(k),
        }
    } else {
        Parsed::Done(left, c)
    }
}

/// One operator applied to `left`: an infix operator with its right operand,
/// or a postfix operator.
#[verifier::opaque]
pub open spec fn parse_infix(left: Expr, c: Cursor, ph: Number) -> Parsed<Expr>
    decreases measure(c), 0nat,
{
    match c.current {
        Lexeme::Ampersand => right_operand(
            BinaryOp::And,
            OperatorCategory::BitwiseAnd,
            left,
            c,
            ph,
        ),
        Lexeme::Bar => right_operand(BinaryOp::Or, OperatorCategory::BitwiseOr, left, c, ph),
        Lexeme::LeftShift => right_operand(
            BinaryOp::LeftShift,
            OperatorCategory::Shift,
            left,
            c,
            ph,
        ),
        Lexeme::RightShift => right_operand(
            BinaryOp::RightShift,
            OperatorCategory::Shift,
            left,
            c,
            ph,
        ),
        Lexeme::Add => right_operand(BinaryOp::Add, OperatorCategory::Additive, left, c, ph),
        Lexeme::Subtract => right_operand(
            BinaryOp::Subtract,
            OperatorCategory::Additive,
            left,
            c,
            ph,
        ),
        Lexeme::Multiply => right_operand(
            BinaryOp::Multiply,
            OperatorCategory::Multiplicative,
            left,
            c,
            ph,
        ),
        Lexeme::Divide => right_operand(
            BinaryOp::Divide,
            OperatorCategory::Multiplicative,
            left,
            c,
            ph,
        ),
        Lexeme::Modulo => right_operand(
            BinaryOp::Modulo,
            OperatorCategory::Multiplicative,
            left,
            c,
            ph,
        ),
        Lexeme::Caret => right_operand(BinaryOp::Pow, OperatorCategory::Power, left, c, ph),
        Lexeme::ExclamationMark => match advance(c) {
            Some(c1) => implicit_multiply(Expr::Unary(UnaryOp::Factorial, Box::new(left)), c1, ph),
            None => Parsed::Failed(ErrorKind::InvalidOperator),
        },
        Lexeme::DegToRad => scaled(left, RADIANS_PER_DEGREE, c),
        Lexeme::RadToDeg => scaled(left, DEGREES_PER_RADIAN, c),
        Lexeme::Superscript(n) => match advance(c) {
            Some(c1) => Parsed::Done(
                Expr::Binary(BinaryOp::Pow, Box::new(left), Box::new(Expr::Num(n))),
                c1,
            ),
            None => Parsed::Failed(ErrorKind::InvalidOperator),
        },
        _ => Parsed::Failed(ErrorKind::InvalidOperator),
    }
}

/// `left`, the operator `op` and, after the operator's token, an operand
/// whose operators bind tighter than `prec`.
#[verifier::opaque]
pub open spec fn right_operand(
    op: BinaryOp,
    prec: OperatorCategory,
    left: Expr,
    c: Cursor,
    ph: Number,
) -> Parsed<Expr>
    recommends
        !(c.current is Eof),
    decreases measure(c), 0nat, 0nat,
    when !(c.current is Eof)
{
    match advance(c) {
        Some(c1) => match parse_expr(c1, prec, ph) {
            Parsed::Done(right, c2) => Parsed::Done(
                Expr::Binary(op, Box::new(left), Box::new(right)),
                c2,
            ),
            Parsed::Failed(k) => Parsed::Failed(k),
        },
        None => Parsed::Failed(ErrorKind::InvalidOperator),
    }
}

/// `left` times a unit's factor, after the unit's token.
pub open spec fn scaled(left: Expr, factor: u64, c: Cursor) -> Parsed<Expr> {
    match advance(c) {
        Some(c1) => Parsed::Done(
            Expr::Binary(
                BinaryOp::Multiply,
                Box::new(left),
                Box::new(Expr::Num(Number::Float(factor))),
            ),
            c1,
        ),
        None => Parsed::Failed(ErrorKind::InvalidOperator),
    }
}

/// `node`, times the term that follows it where one does without an operator.
#[verifier::opaque]
pub open spec fn implicit_multiply(node: Expr, c: Cursor, ph: Number) -> Parsed<Expr>
    decreases measure(c), 6nat,
{
    if starts_factor(c.current) {
        match parse_expr(c, OperatorCategory::Multiplicative, ph) {
            Parsed::Done(right, c1) => Parsed::Done(
                Expr::Binary(BinaryOp::Multiply, Box::new(node), Box::new(right)),
                c1,
            ),
            Parsed::Failed(k) => Parsed::Failed(k),
        }
    } else {
        Parsed::Done(node, c)
    }
}

/// A term: a literal, a constant, the placeholder, a signed term, a call or
/// a bracketed expression. Parentheses group; floor brackets, ceiling
/// brackets and bars apply their function to what they hold.
#[verifier::opaque]
pub open spec fn parse_primary(c: Cursor, ph: Number) -> Parsed<Expr>
    decreases measure(c), 3nat,
{
    match c.current {
        Lexeme::Ans => constant(Expr::Num(ph), c),
        Lexeme::Pi => constant(Expr::Num(Number::Float(PI)), c),
        Lexeme::E => constant(Expr::Num(Number::Float(E)), c),
        Lexeme::Num(n) => literal(Expr::Num(n), c, ph),
        Lexeme::Decimal(text) => literal(Expr::Decimal(text), c, ph),
        Lexeme::Subtract => signed(true, c, ph),
        Lexeme::Add => signed(false, c, ph),
        Lexeme::ExplicitFunction(f) => parse_call(f, c, ph),
        Lexeme::LeftParen => enclosed(Bracket::Parentheses, c, ph),
        Lexeme::LeftFloor => enclosed(Bracket::Floor, c, ph),
        Lexeme::LeftCeiling => enclosed(Bracket::Ceiling, c, ph),
        Lexeme::AbsoluteBar => enclosed(Bracket::Bars, c, ph),
        _ => Parsed::Failed(ErrorKind::UnableToParse),
    }
}

/// A literal, which is the current token, times the term that follows it
/// where one does.
#[verifier::opaque]
pub open spec fn literal(leaf: Expr, c: Cursor, ph: Number) -> Parsed<Expr>
    recommends
        !(c.current is Eof),
    decreases measure(c), 2nat,
    when !(c.current is Eof)
{
    match advance(c) {
        Some(c1) => implicit_multiply(leaf, c1, ph),
        None => Parsed::Failed(ErrorKind::InvalidOperator),
    }
}

/// After a sign, which is the current token, an operand whose operators
/// bind tighter than a sign does; negated after a minus.
#[verifier::opaque]
pub open spec fn signed(negate: bool, c: Cursor, ph: Number) -> Parsed<Expr>
    recommends
        !(c.current is Eof),
    decreases measure(c), 2nat,
    when !(c.current is Eof)
{
    match advance(c) {
        Some(c1) => match parse_expr(c1, OperatorCategory::Negative, ph) {
            Parsed::Done(e, c2) => Parsed::Done(
                if negate {
                    Expr::Unary(UnaryOp::Negative, Box::new(e))
                } else {
                    e
                },
                c2,
            ),
            Parsed::Failed(k) => Parsed::Failed(k),
        },
        None => Parsed::Failed(ErrorKind::InvalidOperator),
    }
}

/// A term that is one token and never multiplies what follows it.
pub open spec fn constant(e: Expr, c: Cursor) -> Parsed<Expr> {
    match advance(c) {
        Some(c1) => Parsed::Done(e, c1),
        None => Parsed::Failed(ErrorKind::InvalidOperator),
    }
}

/// The pairs of delimiters that hold an expression.
#[derive(Clone, Copy, Debug, PartialEq, Eq, Structural)]
pub enum Bracket {
    Parentheses,
    Floor,
    Ceiling,
    Bars,
}

impl Bracket {
    /// The token that closes the pair.
    pub open spec fn closing(self) -> Lexeme {
        match self {
            Bracket::Parentheses => Lexeme::RightParen,
            Bracket::Floor => Lexeme::RightFloor,
            Bracket::Ceiling => Lexeme::RightCeiling,
            Bracket::Bars => Lexeme::AbsoluteBar,
        }
    }

    /// What the pair makes of the expression that it holds: parentheses
    /// leave it as it is, the others apply their function.
    pub open spec fn wrapped(self, e: Expr) -> Expr {
        match self {
            Bracket::Parentheses => e,
            Bracket::Floor => Expr::Unary(UnaryOp::Floor, Box::new(e)),
            Bracket::Ceiling => Expr::Unary(UnaryOp::Ceil, Box::new(e)),
            Bracket::Bars => Expr::Unary(UnaryOp::Abs, Box::new(e)),
        }
    }

    fn close(self) -> (token: Token)
        ensures
            token@ == self.closing(),
    {
        match self {
            Bracket::Parentheses => Token::RightParen,
            Bracket::Floor => Token::RightFloor,
            Bracket::Ceiling => Token::RightCeiling,
            Bracket::Bars => Token::AbsoluteBar,
        }
    }

    fn wrap(self, node: Node) -> (wrapped: Node)
        ensures
            wrapped@ == self.wrapped(node@),
    {
        match self {
            Bracket::Parentheses => node,
            Bracket::Floor => Node::Unary(UnaryOp::Floor, Box::new(node)),
            Bracket::Ceiling => Node::Unary(UnaryOp::Ceil, Box::new(node)),
            Bracket::Bars => Node::Unary(UnaryOp::Abs, Box::new(node)),
        }
    }
}

/// An expression between an opening bracket, which is the current token, and
/// the bracket that closes the pair; then a term that it multiplies, if one
/// follows.
#[verifier::opaque]
pub open spec fn enclosed(pair: Bracket, c: Cursor, ph: Number) -> Parsed<Expr>
    recommends
        !(c.current is Eof),
    decreases measure(c), 2nat,
    when !(c.current is Eof)
{
    match advance(c) {
        Some(c1) => match within(parse_expr(c1, OperatorCategory::DefaultZero, ph), c1) {
            Parsed::Done(e, c2) => match expect(c2, pair.closing()) {
                Some(c3) => implicit_multiply(pair.wrapped(e), c3, ph),
                None => Parsed::Failed(ErrorKind::InvalidOperator),
            },
            Parsed::Failed(k) => Parsed::Failed(k),
        },
        None => Parsed::Failed(ErrorKind::InvalidOperator),
    }
}

/// A call of `f`, whose name is the current token: its arguments between
/// parentheses, as many as its arity asks for; then a term that the call
/// multiplies, if one follows. `avg()` is zero; another reducer needs an
/// argument.
#[verifier::opaque]
pub open spec fn parse_call(f: NativeFunction, c: Cursor, ph: Number) -> Parsed<Expr>
    recommends
        !(c.current is Eof),
    decreases measure(c), 2nat,
    when !(c.current is Eof)
{
    match f.spec_arity() {
        Arity::One => match arguments(1, c, ph) {
            Parsed::Done(args, c1) => if measure(c1) < measure(c) && args.len() == 1 {
                implicit_multiply(Expr::Unary(unary_of(f), Box::new(args[0])), c1, ph)
            } else {
                Parsed::Failed(ErrorKind::UnableToParse)
            },
            Parsed::Failed(k) => Parsed::Failed(k),
        },
        Arity::Two => match arguments(2, c, ph) {
            Parsed::Done(args, c1) => if measure(c1) < measure(c) && args.len() == 2 {
                implicit_multiply(
                    Expr::Binary(binary_of(f), Box::new(args[0]), Box::new(args[1])),
                    c1,
                    ph,
                )
            } else {
                Parsed::Failed(ErrorKind::UnableToParse)
            },
            Parsed::Failed(k) => Parsed::Failed(k),
        },
        Arity::Variadic => match argument_list(c, ph) {
            Parsed::Done(args, c1) => if measure(c1) < measure(c) {
                if args.len() > 0 {
                    implicit_multiply(Expr::Variadic(variadic_of(f), args), c1, ph)
                } else if f == NativeFunction::Avg {
                    implicit_multiply(Expr::Num(zero_of(c.dialect)), c1, ph)
                } else {
                    Parsed::Failed(ErrorKind::UnableToParse)
                }
            } else {
                Parsed::Failed(ErrorKind::UnableToParse)
            },
            Parsed::Failed(k) => Parsed::Failed(k),
        },
    }
}

/// Exactly `n` arguments, for `n` 1 or 2: after the current token an opening
/// parenthesis, the arguments with a comma between them, and a closing
/// parenthesis.
#[verifier::opaque]
pub open spec fn arguments(n: nat, c: Cursor, ph: Number) -> Parsed<Seq<Expr>>
    recommends
        !(c.current is Eof),
        1 <= n <= 2,
    decreases measure(c), 1nat,
    when !(c.current is Eof)
{
    match advance(c) {
        Some(c1) => match expect(c1, Lexeme::LeftParen) {
            Some(c2) => match within(parse_expr(c2, OperatorCategory::DefaultZero, ph), c2) {
                Parsed::Done(first, c3) => if n == 1 {
                    match expect(c3, Lexeme::RightParen) {
                        Some(c4) => Parsed::Done(seq![first], c4),
                        None => Parsed::Failed(ErrorKind::InvalidOperator),
                    }
                } else {
                    match expect(c3, Lexeme::Comma) {
                        Some(c4) => match within(
                            parse_expr(c4, OperatorCategory::DefaultZero, ph),
                            c4,
                        ) {
                            Parsed::Done(second, c5) => match expect(c5, Lexeme::RightParen) {
                                Some(c6) => Parsed::Done(seq![first, second], c6),
                                None => Parsed::Failed(ErrorKind::InvalidOperator),
                            },
                            Parsed::Failed(k) => Parsed::Failed(k),
                        },
                        None => Parsed::Failed(ErrorKind::InvalidOperator),
                    }
                },
                Parsed::Failed(k) => Parsed::Failed(k),
            },
            None => Parsed::Failed(ErrorKind::InvalidOperator),
        },
        None => Parsed::Failed(ErrorKind::InvalidOperator),
    }
}

/// Any number of arguments: after the current token an opening parenthesis,
/// then either a closing parenthesis at once or expressions with a comma
/// between them and a closing parenthesis after the last.
#[verifier::opaque]
pub open spec fn argument_list(c: Cursor, ph: Number) -> Parsed<Seq<Expr>>
    recommends
        !(c.current is Eof),
    decreases measure(c), 1nat,
    when !(c.current is Eof)
{
    match advance(c) {
        Some(c1) => match expect(c1, Lexeme::LeftParen) {
            Some(c2) => items(Seq::empty(), c2, ph),
            None => Parsed::Failed(ErrorKind::InvalidOperator),
        },
        None => Parsed::Failed(ErrorKind::InvalidOperator),
    }
}

/// The rest of an argument list, after the arguments `found`.
#[verifier::opaque]
pub open spec fn items(found: Seq<Expr>, c: Cursor, ph: Number) -> Parsed<Seq<Expr>>
    decreases measure(c), 5nat,
{
    if found.len() == 0 && c.current is RightParen {
        match advance(c) {
            Some(c1) => Parsed::Done(found, c1),
            None => Parsed::Failed(ErrorKind::InvalidOperator),
        }
    } else {
        match within(parse_expr(c, OperatorCategory::DefaultZero, ph), c) {
            Parsed::Done(e, c1) => if c1.current is Comma {
                match advance(c1) {
                    Some(c2) => items(found.push(e), c2, ph),
                    None => Parsed::Failed(ErrorKind::InvalidOperator),
                }
            } else if c1.current is RightParen {
                match advance(c1) {
                    Some(c2) => Parsed::Done(found.push(e), c2),
                    None => Parsed::Failed(ErrorKind::InvalidOperator),
                }
            } else {
                Parsed::Failed(ErrorKind::InvalidOperator)
            },
            Parsed::Failed(k) => Parsed::Failed(k),
        }
    }
}

/// The tree of a whole formula in a dialect, with `ph` for the placeholder.
/// What follows the expression at the top is not looked at.
pub open spec fn parse_formula_in(dialect: Dialect, text: Seq<char>, ph: Number) -> Result<
    Expr,
    ErrorKind,
> {
    let first = lex_in(dialect, text);
    match first.token {
        Some(t) => match parse_expr(
            Cursor { current: t, rest: text.skip(first.consumed as int), dialect: dialect },
            OperatorCategory::DefaultZero,
            ph,
        ) {
            Parsed::Done(e, _) => Ok(e),
            Parsed::Failed(k) => Err(k),
        },
        None => Err(ErrorKind::InvalidOperator),
    }
}

/// The tree of a whole formula of the number dialect.
pub open spec fn parse_formula(text: Seq<char>, ph: Number) -> Result<Expr, ErrorKind> {
    parse_formula_in(Dialect::Number, text, ph)
}

/// Whether an executable result is the outcome that the grammar gives.
pub open spec fn agrees(r: Result<Node, ParseError>, after: Cursor, expected: Parsed<Expr>) -> bool {
    match expected {
        Parsed::Done(e, c) => r is Ok && r->Ok_0@ == e && after == c,
        Parsed::Failed(k) => r is Err && r->Err_0.kind() == k,
    }
}

/// The same for a list of arguments.
pub open spec fn agrees_list(
    r: Result<Vec<Node>, ParseError>,
    after: Cursor,
    expected: Parsed<Seq<Expr>>,
) -> bool {
    match expected {
        Parsed::Done(es, c) => r is Ok && exprs(r->Ok_0@) == es && after == c,
        Parsed::Failed(k) => r is Err && r->Err_0.kind() == k,
    }
}

/// The trees of a list with one more node are those of the list and that of
/// the node.
pub proof fn lemma_exprs_push(nodes: Seq<Node>, node: Node)
    ensures
        exprs(nodes.push(node)) == exprs(nodes).push(node@),
{
    assert(exprs(nodes.push(node)) =~= exprs(nodes).push(node@));
}

fn unary_op(f: NativeFunction) -> (op: UnaryOp)
    ensures
        op == unary_of(f),
{
    match f {
        NativeFunction::Abs => UnaryOp::Abs,
        NativeFunction::Floor => UnaryOp::Floor,
        NativeFunction::Ceil => UnaryOp::Ceil,
        NativeFunction::Round => UnaryOp::Round,
        NativeFunction::Sin => UnaryOp::Sin,
        NativeFunction::Cos => UnaryOp::Cos,
        NativeFunction::Tan => UnaryOp::Tan,
        NativeFunction::Sinh => UnaryOp::Sinh,
        NativeFunction::Cosh => UnaryOp::Cosh,
        NativeFunction::Tanh => UnaryOp::Tanh,
        NativeFunction::Asin => UnaryOp::Asin,
        NativeFunction::Acos => UnaryOp::Acos,
        NativeFunction::Atan => UnaryOp::Atan,
        NativeFunction::Arsinh => UnaryOp::Arsinh,
        NativeFunction::Arcosh => UnaryOp::Arcosh,
        NativeFunction::Artanh => UnaryOp::Artanh,
        NativeFunction::Sqrt => UnaryOp::Sqrt,
        NativeFunction::Exp => UnaryOp::Exp,
        NativeFunction::Exp2 => UnaryOp::Exp2,
        NativeFunction::Ln => UnaryOp::Ln,
        NativeFunction::Lb => UnaryOp::Lb,
        NativeFunction::LambertW => UnaryOp::LambertW,
        NativeFunction::Sign => UnaryOp::Sign,
        _ => UnaryOp::Truncate,
    }
}

fn binary_op(f: NativeFunction) -> (op: BinaryOp)
    ensures
        op == binary_of(f),
{
    match f {
        NativeFunction::Atan2 => BinaryOp::Atan2,
        NativeFunction::Mod => BinaryOp::Modulo,
        NativeFunction::Pow => BinaryOp::Pow,
        NativeFunction::Root => BinaryOp::Root,
        NativeFunction::Log => BinaryOp::Log,
        _ => BinaryOp::ILog,
    }
}

fn variadic_op(f: NativeFunction) -> (op: VariadicOp)
    ensures
        op == variadic_of(f),
{
    match f {
        NativeFunction::Min => VariadicOp::Min,
        NativeFunction::Max => VariadicOp::Max,
        NativeFunction::Avg => VariadicOp::Avg,
        NativeFunction::Gcd => VariadicOp::Gcd,
        NativeFunction::Lcm => VariadicOp::Lcm,
        _ => VariadicOp::Med,
    }
}

/// The `Debug` form of a token, as `format!` of the standard library writes
/// it with the implementation that `derive` gives: a text that depends on
/// the token alone, which `debug_form` names.
#[verifier::external_body]
fn debug_text(token: &Token) -> (text: String)
    ensures
        text@ == debug_form(token@),
{
    format!("{:?}", token)
}

/// The message for a token found where `expected` had to stand.
fn describe_mismatch(expected: &Token, found: &Token) -> (message: String)
    ensures
        message@ == "Expected "@ + debug_form(expected@) + ", got "@ + debug_form(found@),
{
    String::from_str("Expected ").concat(debug_text(expected).as_str()).concat(", got ").concat(
        debug_text(found).as_str(),
    )
}

/// The message for a token found where an argument list had to go on or
/// end.
fn describe_separator(found: &Token) -> (message: String)
    ensures
        message@ == "Expected either "@ + debug_form(Lexeme::Comma) + " or "@ + debug_form(
            Lexeme::RightParen,
        ) + ", got "@ + debug_form(found@),
{
    String::from_str("Expected either ").concat(debug_text(&Token::Comma).as_str()).concat(
        " or ",
    ).concat(debug_text(&Token::RightParen).as_str()).concat(", got ").concat(
        debug_text(found).as_str(),
    )
}

/// The message for a token found where an operator had to stand.
fn describe_operator(found: &Token) -> (message: String)
    ensures
        message@ == "Please enter a valid operator "@ + debug_form(found@),
{
    String::from_str("Please enter a valid operator ").concat(debug_text(found).as_str())
}

/// The parser of one formula: the tokenizer, the token under consideration,
/// the one before it and the number that stands for the placeholder.
pub struct Parser {
    tokenizer: Tokenizer,
    current_token: Token,
    previous_token: Option<Token>,
    placeholder: Number,
}

impl Parser {
    /// Where the parse stands.
    pub closed spec fn cursor(&self) -> Cursor {
        Cursor {
            current: self.current_token@,
            rest: self.tokenizer.remaining(),
            dialect: self.tokenizer.language(),
        }
    }

    /// The number bound to the placeholder.
    pub closed spec fn bound(&self) -> Number {
        self.placeholder
    }

    /// A parser of the number dialect on the first token of `expr`. Without
    /// a placeholder the integer zero stands for it.
    pub fn new(expr: &str, placeholder: Option<Number>) -> (r: Result<Parser, ParseError>)
        ensures
            Parser::starts(r, Dialect::Number, expr@, placeholder),
    {
        Parser::start(Tokenizer::new(expr), placeholder)
    }

    /// A parser of the integer dialect on the first token of `expr`.
    /// Without a placeholder zero stands for it.
    pub fn integer(expr: &str, placeholder: Option<i64>) -> (r: Result<Parser, ParseError>)
        ensures
            Parser::starts(
                r,
                Dialect::Integer,
                expr@,
                match placeholder {
                    Some(p) => Some(Number::Integer(p)),
                    None => None,
                },
            ),
    {
        let bound = match placeholder {
            Some(p) => Some(Number::Integer(p)),
            None => None,
        };
        Parser::start(Tokenizer::integer(expr), bound)
    }

    /// Whether `r` is a parser at the start of `text`: on its first token,
    /// or the error that no token starts there.
    pub open spec fn starts(
        r: Result<Parser, ParseError>,
        dialect: Dialect,
        text: Seq<char>,
        placeholder: Option<Number>,
    ) -> bool {
        let first = lex_in(dialect, text);
        match first.token {
            Some(t) => r is Ok && r->Ok_0.cursor() == (Cursor {
                current: t,
                rest: text.skip(first.consumed as int),
                dialect: dialect,
            }) && r->Ok_0.bound() == (match placeholder {
                Some(p) => p,
                None => Number::Integer(0),
            }),
            None => r is Err && r->Err_0.kind() == ErrorKind::InvalidOperator && r->Err_0.detail()
                == "Invalid character"@,
        }
    }

    fn start(tokenizer: Tokenizer, placeholder: Option<Number>) -> (r: Result<Parser, ParseError>)
        ensures
            Parser::starts(r, tokenizer.language(), tokenizer.remaining(), placeholder),
    {
        let mut lexer = tokenizer;
        let cur_token = match lexer.next() {
            Some(token) => token,
            None => {
                return Err(ParseError::InvalidOperator("Invalid character".to_string()));
            },
        };
        Ok(
            Parser {
                tokenizer: lexer,
                current_token: cur_token,
                previous_token: None,
                placeholder: match placeholder {
                    Some(p) => p,
                    None => Number::Integer(0),
                },
            },
        )
    }

    /// Parses the formula from the current token on.
    pub fn parse(&mut self) -> (r: Result<Node, ParseError>)
        ensures
            agrees(
                r,
                final(self).cursor(),
                parse_expr(old(self).cursor(), OperatorCategory::DefaultZero, old(self).bound()),
            ),
            final(self).bound() == old(self).bound(),
    {
        proof {
            reveal_with_fuel(parse_expr, 1);
        }
        self.generate_ast(OperatorCategory::DefaultZero)
    }

    fn get_next_token(&mut self) -> (r: Result<(), ParseError>)
        ensures
            final(self).bound() == old(self).bound(),
            match advance(old(self).cursor()) {
                Some(c) => r is Ok && final(self).cursor() == c,
                None => r is Err && r->Err_0.kind() == ErrorKind::InvalidOperator,
            },
    {
        proof {
            let rest = self.tokenizer.remaining();
            crate::tokenizer::lemma_lex_in_consumes(self.tokenizer.language(), rest);
            if rest.len() == 0 {
                assert(rest.skip(0) =~= rest);
            }
        }
        let mut next_token = match self.tokenizer.next() {
            Some(token) => token,
            None => {
                return Err(ParseError::InvalidOperator("Invalid character".to_string()));
            },
        };
        core::mem::swap(&mut self.current_token, &mut next_token);
        self.previous_token = Some(next_token);
        Ok(())
    }

    fn check_paren(&mut self, expected: Token) -> (r: Result<(), ParseError>)
        ensures
            final(self).bound() == old(self).bound(),
            match expect(old(self).cursor(), expected@) {
                Some(c) => r is Ok && final(self).cursor() == c,
                None => r is Err && r->Err_0.kind() == ErrorKind::InvalidOperator,
            },
    {
        if expected.equals(&self.current_token) {
            self.get_next_token()
        } else {
            Err(ParseError::InvalidOperator(describe_mismatch(&expected, &self.current_token)))
        }
    }

    #[verifier::rlimit(50)]
    fn generate_ast(&mut self, oper_prec: OperatorCategory) -> (r: Result<Node, ParseError>)
        ensures
            agrees(
                r,
                final(self).cursor(),
                parse_expr(old(self).cursor(), oper_prec, old(self).bound()),
            ),
            final(self).bound() == old(self).bound(),
            r is Ok ==> measure(final(self).cursor()) <= measure(old(self).cursor()),
        decreases measure(old(self).cursor()), 4nat,
    {
        proof {
            reveal_with_fuel(parse_expr, 1);
            reveal_with_fuel(parse_primary, 1);
            reveal_with_fuel(climb, 1);
            reveal_with_fuel(parse_infix, 1);
        }
        let ghost start = self.cursor();
        let ghost ph = self.bound();
        let mut left_expr = match self.parse_number() {
            Ok(node) => node,
            Err(e) => {
                return Err(e);
            },
        };
        while oper_prec.weaker_than(self.current_token.get_oper_prec())
            invariant
                start == old(self).cursor(),
                ph == old(self).bound(),
                self.bound() == ph,
                measure(self.cursor()) <= measure(start),
                parse_expr(start, oper_prec, ph) == climb(left_expr@, self.cursor(), oper_prec, ph),
            decreases measure(self.cursor()),
        {
            proof {
                reveal_with_fuel(parse_expr, 1);
                reveal_with_fuel(parse_primary, 1);
                reveal_with_fuel(climb, 1);
                reveal_with_fuel(parse_infix, 1);
            }
            left_expr = match self.convert_token_to_node(left_expr) {
                Ok(node) => node,
                Err(e) => {
                    return Err(e);
                },
            };
        }
        Ok(left_expr)
    }

    #[verifier::rlimit(50)]
    fn function_static_arguments(&mut self, n: u8) -> (r: Result<Vec<Node>, ParseError>)
        requires
            !(old(self).cursor().current is Eof),
            1 <= n <= 2,
        ensures
            agrees_list(
                r,
                final(self).cursor(),
                arguments(n as nat, old(self).cursor(), old(self).bound()),
            ),
            final(self).bound() == old(self).bound(),
            r is Ok ==> r->Ok_0.len() == n && measure(final(self).cursor()) < measure(
                old(self).cursor(),
            ),
        decreases measure(old(self).cursor()), 1nat,
    {
        proof {
            reveal_with_fuel(arguments, 1);
            reveal_with_fuel(parse_expr, 1);
        }
        match self.get_next_token() {
            Ok(()) => {},
            Err(e) => {
                return Err(e);
            },
        }
        match self.check_paren(Token::LeftParen) {
            Ok(()) => {},
            Err(e) => {
                return Err(e);
            },
        }
        let mut args: Vec<Node> = Vec::new();
        let first = match self.generate_ast(OperatorCategory::DefaultZero) {
            Ok(node) => node,
            Err(e) => {
                return Err(e);
            },
        };
        let ghost first_expr = first@;
        args.push(first);
        if n == 2 {
            match self.check_paren(Token::Comma) {
                Ok(()) => {},
                Err(e) => {
                    return Err(e);
                },
            }
            let second = match self.generate_ast(OperatorCategory::DefaultZero) {
                Ok(node) => node,
                Err(e) => {
                    return Err(e);
                },
            };
            let ghost second_expr = second@;
            args.push(second);
            proof {
                assert(exprs(args@) =~= seq![first_expr, second_expr]);
            }
        } else {
            proof {
                assert(exprs(args@) =~= seq![first_expr]);
            }
        }
        match self.check_paren(Token::RightParen) {
            Ok(()) => {},
            Err(e) => {
                return Err(e);
            },
        }
        Ok(args)
    }

    fn function_arguments(&mut self) -> (r: Result<Vec<Node>, ParseError>)
        requires
            !(old(self).cursor().current is Eof),
        ensures
            agrees_list(
                r,
                final(self).cursor(),
                argument_list(old(self).cursor(), old(self).bound()),
            ),
            final(self).bound() == old(self).bound(),
            r is Ok ==> measure(final(self).cursor()) < measure(old(self).cursor()),
        decreases measure(old(self).cursor()), 1nat, 1nat,
    {
        proof {
            reveal_with_fuel(argument_list, 1);
        }
        self.find_item_list()
    }

    #[verifier::rlimit(50)]
    fn find_item_list(&mut self) -> (r: Result<Vec<Node>, ParseError>)
        requires
            !(old(self).cursor().current is Eof),
        ensures
            agrees_list(
                r,
                final(self).cursor(),
                argument_list(old(self).cursor(), old(self).bound()),
            ),
            final(self).bound() == old(self).bound(),
            r is Ok ==> measure(final(self).cursor()) < measure(old(self).cursor()),
        decreases measure(old(self).cursor()), 1nat, 0nat,
    {
        proof {
            reveal_with_fuel(argument_list, 1);
            reveal_with_fuel(items, 1);
            reveal_with_fuel(parse_expr, 1);
        }
        let ghost start = self.cursor();
        let ghost ph = self.bound();
        match self.get_next_token() {
            Ok(()) => {},
            Err(e) => {
                return Err(e);
            },
        }
        match self.check_paren(Token::LeftParen) {
            Ok(()) => {},
            Err(e) => {
                return Err(e);
            },
        }
        let mut args: Vec<Node> = Vec::new();
        let mut done = false;
        proof {
            assert(exprs(args@) =~= Seq::<Expr>::empty());
        }
        while !done
            invariant
                start == old(self).cursor(),
                ph == old(self).bound(),
                !(start.current is Eof),
                self.bound() == ph,
                measure(self.cursor()) < measure(start),
                !done ==> argument_list(start, ph) == items(exprs(args@), self.cursor(), ph),
                done ==> argument_list(start, ph) == Parsed::Done(exprs(args@), self.cursor()),
            decreases
                    measure(self.cursor()),
                    if done {
                        0nat
                    } else {
                        1nat
                    },
        {
            proof {
                reveal_with_fuel(argument_list, 1);
                reveal_with_fuel(items, 1);
                reveal_with_fuel(parse_expr, 1);
            }
            if args.len() == 0 && self.current_token.equals(&Token::RightParen) {
                match self.get_next_token() {
                    Ok(()) => {},
                    Err(e) => {
                        return Err(e);
                    },
                }
                done = true;
            } else {
                let arg_expr = match self.generate_ast(OperatorCategory::DefaultZero) {
                    Ok(node) => node,
                    Err(e) => {
                        return Err(e);
                    },
                };
                proof {
                    lemma_exprs_push(args@, arg_expr);
                }
                args.push(arg_expr);
                if self.current_token.equals(&Token::Comma) {
                    match self.get_next_token() {
                        Ok(()) => {},
                        Err(e) => {
                            return Err(e);
                        },
                    }
                } else if self.current_token.equals(&Token::RightParen) {
                    match self.get_next_token() {
                        Ok(()) => {},
                        Err(e) => {
                            return Err(e);
                        },
                    }
                    done = true;
                } else {
                    return Err(
                        ParseError::InvalidOperator(describe_separator(&self.current_token)),
                    );
                }
            }
        }
        Ok(args)
    }

    #[verifier::rlimit(50)]
    fn parse_number(&mut self) -> (r: Result<Node, ParseError>)
        ensures
            agrees(
                r,
                final(self).cursor(),
                parse_primary(old(self).cursor(), old(self).bound()),
            ),
            final(self).bound() == old(self).bound(),
            r is Ok ==> measure(final(self).cursor()) < measure(old(self).cursor()),
        decreases measure(old(self).cursor()), 3nat,
    {
        proof {
            reveal_with_fuel(parse_primary, 1);
            reveal_with_fuel(literal, 1);
            reveal_with_fuel(signed, 1);
            reveal_with_fuel(parse_call, 1);
            reveal_with_fuel(enclosed, 1);
        }
        let token = self.current_token.duplicate();
        match token {
            Token::Ans => {
                let node = Node::Num(self.placeholder);
                self.constant_term(node)
            },
            Token::Pi => self.constant_term(Node::Num(Number::Float(PI))),
            Token::E => self.constant_term(Node::Num(Number::Float(E))),
            Token::Num(i) => self.literal_term(Node::Num(i)),
            Token::Decimal(text) => self.literal_term(Node::Decimal(text)),
            Token::Subtract => self.signed_term(true),
            Token::Add => self.signed_term(false),
            Token::ExplicitFunction(current_function) => self.parse_function(current_function),
            Token::LeftParen => self.get_enclosed_elements_with_impl_mult(Bracket::Parentheses),
            Token::LeftFloor => self.get_enclosed_elements_with_impl_mult(Bracket::Floor),
            Token::LeftCeiling => self.get_enclosed_elements_with_impl_mult(Bracket::Ceiling),
            Token::AbsoluteBar => self.get_enclosed_elements_with_impl_mult(Bracket::Bars),
            _ => Err(
                ParseError::UnableToParse("Unknown parsing token for parsing number".to_string()),
            ),
        }
    }

    /// A term that is the current token alone.
    fn constant_term(&mut self, node: Node) -> (r: Result<Node, ParseError>)
        requires
            !(old(self).cursor().current is Eof),
        ensures
            agrees(r, final(self).cursor(), constant(node@, old(self).cursor())),
            final(self).bound() == old(self).bound(),
            r is Ok ==> measure(final(self).cursor()) < measure(old(self).cursor()),
    {
        match self.get_next_token() {
            Ok(()) => Ok(node),
            Err(e) => Err(e),
        }
    }

    /// A literal, which is the current token, and what it multiplies.
    fn literal_term(&mut self, leaf: Node) -> (r: Result<Node, ParseError>)
        requires
            !(old(self).cursor().current is Eof),
        ensures
            agrees(
                r,
                final(self).cursor(),
                literal(leaf@, old(self).cursor(), old(self).bound()),
            ),
            final(self).bound() == old(self).bound(),
            r is Ok ==> measure(final(self).cursor()) < measure(old(self).cursor()),
        decreases measure(old(self).cursor()), 2nat,
    {
        proof {
            reveal_with_fuel(literal, 1);
            reveal_with_fuel(implicit_multiply, 1);
        }
        match self.get_next_token() {
            Ok(()) => self.implicit_multiply(leaf),
            Err(e) => Err(e),
        }
    }

    /// The operand of a sign, which is the current token.
    fn signed_term(&mut self, negate: bool) -> (r: Result<Node, ParseError>)
        requires
            !(old(self).cursor().current is Eof),
        ensures
            agrees(
                r,
                final(self).cursor(),
                signed(negate, old(self).cursor(), old(self).bound()),
            ),
            final(self).bound() == old(self).bound(),
            r is Ok ==> measure(final(self).cursor()) < measure(old(self).cursor()),
        decreases measure(old(self).cursor()), 2nat,
    {
        proof {
            reveal_with_fuel(signed, 1);
            reveal_with_fuel(parse_expr, 1);
        }
        match self.get_next_token() {
            Ok(()) => {},
            Err(e) => {
                return Err(e);
            },
        }
        match self.generate_ast(OperatorCategory::Negative) {
            Ok(expr) => {
                if negate {
                    Ok(Node::Unary(UnaryOp::Negative, Box::new(expr)))
                } else {
                    Ok(expr)
                }
            },
            Err(e) => Err(e),
        }
    }

    /// The zero of the dialect.
    fn zero(&self) -> (zero: Number)
        ensures
            zero == zero_of(self.cursor().dialect),
    {
        match self.tokenizer.dialect() {
            Dialect::Number => Number::Float(ZERO),
            Dialect::Integer => Number::Integer(0),
        }
    }

    /// A call of `current_function`, whose name is the current token.
    #[verifier::rlimit(50)]
    fn parse_function(&mut self, current_function: NativeFunction) -> (r: Result<
        Node,
        ParseError,
    >)
        requires
            !(old(self).cursor().current is Eof),
        ensures
            agrees(
                r,
                final(self).cursor(),
                parse_call(current_function, old(self).cursor(), old(self).bound()),
            ),
            final(self).bound() == old(self).bound(),
            r is Ok ==> measure(final(self).cursor()) < measure(old(self).cursor()),
        decreases measure(old(self).cursor()), 2nat,
    {
        proof {
            reveal_with_fuel(parse_call, 1);
            reveal_with_fuel(arguments, 1);
            reveal_with_fuel(argument_list, 1);
            reveal_with_fuel(implicit_multiply, 1);
        }
        let zero = self.zero();
        let node = match current_function.arity() {
            Arity::One => {
                let mut args = match self.function_static_arguments(1) {
                    Ok(args) => args,
                    Err(e) => {
                        return Err(e);
                    },
                };
                let ghost found = args@;
                let operand = match args.pop() {
                    Some(node) => node,
                    None => {
                        return Err(ParseError::UnableToParse("Unable to parse".to_string()));
                    },
                };
                proof {
                    assert(exprs(found)[0] == operand@);
                }
                Node::Unary(unary_op(current_function), Box::new(operand))
            },
            Arity::Two => {
                let mut args = match self.function_static_arguments(2) {
                    Ok(args) => args,
                    Err(e) => {
                        return Err(e);
                    },
                };
                let ghost found = args@;
                let second = match args.pop() {
                    Some(node) => node,
                    None => {
                        return Err(ParseError::UnableToParse("Unable to parse".to_string()));
                    },
                };
                let first = match args.pop() {
                    Some(node) => node,
                    None => {
                        return Err(ParseError::UnableToParse("Unable to parse".to_string()));
                    },
                };
                proof {
                    assert(exprs(found)[0] == first@);
                    assert(exprs(found)[1] == second@);
                }
                Node::Binary(binary_op(current_function), Box::new(first), Box::new(second))
            },
            Arity::Variadic => {
                let args = match self.function_arguments() {
                    Ok(args) => args,
                    Err(e) => {
                        return Err(e);
                    },
                };
                if args.len() == 0 {
                    match current_function {
                        NativeFunction::Avg => Node::Num(zero),
                        NativeFunction::Min => {
                            return Err(
                                ParseError::UnableToParse(
                                    "There's no arguments in the min function".to_string(),
                                ),
                            );
                        },
                        NativeFunction::Max => {
                            return Err(
                                ParseError::UnableToParse(
                                    "There's no arguments in the max function".to_string(),
                                ),
                            );
                        },
                        NativeFunction::Gcd => {
                            return Err(
                                ParseError::UnableToParse(
                                    "There's no arguments in the gcd function".to_string(),
                                ),
                            );
                        },
                        NativeFunction::Lcm => {
                            return Err(
                                ParseError::UnableToParse(
                                    "There's no arguments in the lcm function".to_string(),
                                ),
                            );
                        },
                        _ => {
                            return Err(
                                ParseError::UnableToParse(
                                    "Cannot compute the median of no arguments".to_string(),
                                ),
                            );
                        },
                    }
                } else {
                    proof {
                        lemma_variadic_expr(variadic_of(current_function), args);
                    }
                    Node::Variadic(variadic_op(current_function), args)
                }
            },
        };
        self.implicit_multiply(node)
    }

    fn implicit_multiply(&mut self, node: Node) -> (r: Result<Node, ParseError>)
        ensures
            agrees(
                r,
                final(self).cursor(),
                implicit_multiply(node@, old(self).cursor(), old(self).bound()),
            ),
            final(self).bound() == old(self).bound(),
            r is Ok ==> measure(final(self).cursor()) <= measure(old(self).cursor()),
        decreases measure(old(self).cursor()), 6nat,
    {
        proof {
            reveal_with_fuel(implicit_multiply, 1);
            reveal_with_fuel(parse_expr, 1);
        }
        let starts = match &self.current_token {
            Token::LeftParen => true,
            Token::LeftCeiling => true,
            Token::LeftFloor => true,
            Token::ExplicitFunction(_) => true,
            Token::Num(_) => true,
            Token::Decimal(_) => true,
            _ => false,
        };
        if starts {
            match self.generate_ast(OperatorCategory::Multiplicative) {
                Ok(right) => Ok(Node::Binary(BinaryOp::Multiply, Box::new(node), Box::new(right))),
                Err(e) => Err(e),
            }
        } else {
            Ok(node)
        }
    }

    fn get_enclosed_elements_with_impl_mult(&mut self, pair: Bracket) -> (r: Result<
        Node,
        ParseError,
    >)
        requires
            !(old(self).cursor().current is Eof),
        ensures
            agrees(
                r,
                final(self).cursor(),
                enclosed(pair, old(self).cursor(), old(self).bound()),
            ),
            final(self).bound() == old(self).bound(),
            r is Ok ==> measure(final(self).cursor()) < measure(old(self).cursor()),
        decreases measure(old(self).cursor()), 2nat,
    {
        proof {
            reveal_with_fuel(enclosed, 1);
            reveal_with_fuel(parse_expr, 1);
            reveal_with_fuel(implicit_multiply, 1);
        }
        match self.get_next_token() {
            Ok(()) => {},
            Err(e) => {
                return Err(e);
            },
        }
        let expr = match self.generate_ast(OperatorCategory::DefaultZero) {
            Ok(node) => node,
            Err(e) => {
                return Err(e);
            },
        };
        match self.check_paren(pair.close()) {
            Ok(()) => {},
            Err(e) => {
                return Err(e);
            },
        }
        self.implicit_multiply(pair.wrap(expr))
    }

    /// The right operand of `op`, whose token is the current one, and the
    /// node of the two operands.
    fn binary_operation(&mut self, op: BinaryOp, prec: OperatorCategory, left_expr: Node) -> (r:
        Result<Node, ParseError>)
        requires
            !(old(self).cursor().current is Eof),
        ensures
            agrees(
                r,
                final(self).cursor(),
                right_operand(op, prec, left_expr@, old(self).cursor(), old(self).bound()),
            ),
            final(self).bound() == old(self).bound(),
            r is Ok ==> measure(final(self).cursor()) < measure(old(self).cursor()),
        decreases measure(old(self).cursor()), 0nat, 0nat,
    {
        proof {
            reveal_with_fuel(right_operand, 1);
            reveal_with_fuel(parse_expr, 1);
        }
        match self.get_next_token() {
            Ok(()) => {},
            Err(e) => {
                return Err(e);
            },
        }
        match self.generate_ast(prec) {
            Ok(right_expr) => Ok(Node::Binary(op, Box::new(left_expr), Box::new(right_expr))),
            Err(e) => Err(e),
        }
    }

    #[verifier::rlimit(50)]
    fn convert_token_to_node(&mut self, left_expr: Node) -> (r: Result<Node, ParseError>)
        ensures
            agrees(
                r,
                final(self).cursor(),
                parse_infix(left_expr@, old(self).cursor(), old(self).bound()),
            ),
            final(self).bound() == old(self).bound(),
            r is Ok ==> measure(final(self).cursor()) < measure(old(self).cursor()),
        decreases measure(old(self).cursor()), 0nat,
    {
        proof {
            reveal_with_fuel(parse_infix, 1);
            reveal_with_fuel(right_operand, 1);
            reveal_with_fuel(implicit_multiply, 1);
        }
        let token = self.current_token.duplicate();
        match token {
            Token::Ampersand => self.binary_operation(
                BinaryOp::And,
                OperatorCategory::BitwiseAnd,
                left_expr,
            ),
            Token::Bar => self.binary_operation(
                BinaryOp::Or,
                OperatorCategory::BitwiseOr,
                left_expr,
            ),
            Token::LeftShift => self.binary_operation(
                BinaryOp::LeftShift,
                OperatorCategory::Shift,
                left_expr,
            ),
            Token::RightShift => self.binary_operation(
                BinaryOp::RightShift,
                OperatorCategory::Shift,
                left_expr,
            ),
            Token::Add => self.binary_operation(
                BinaryOp::Add,
                OperatorCategory::Additive,
                left_expr,
            ),
            Token::Subtract => self.binary_operation(
                BinaryOp::Subtract,
                OperatorCategory::Additive,
                left_expr,
            ),
            Token::Multiply => self.binary_operation(
                BinaryOp::Multiply,
                OperatorCategory::Multiplicative,
                left_expr,
            ),
            Token::Divide => self.binary_operation(
                BinaryOp::Divide,
                OperatorCategory::Multiplicative,
                left_expr,
            ),
            Token::Modulo => self.binary_operation(
                BinaryOp::Modulo,
                OperatorCategory::Multiplicative,
                left_expr,
            ),
            Token::Caret => self.binary_operation(
                BinaryOp::Pow,
                OperatorCategory::Power,
                left_expr,
            ),
            Token::ExclamationMark => {
                match self.get_next_token() {
                    Ok(()) => self.implicit_multiply(
                        Node::Unary(UnaryOp::Factorial, Box::new(left_expr)),
                    ),
                    Err(e) => Err(e),
                }
            },
            Token::DegToRad => {
                match self.get_next_token() {
                    Ok(()) => {
                        let factor = Node::Num(Number::Float(RADIANS_PER_DEGREE));
                        assert(factor@ == Expr::Num(Number::Float(RADIANS_PER_DEGREE)));
                        Ok(Node::Binary(BinaryOp::Multiply, Box::new(left_expr), Box::new(factor)))
                    },
                    Err(e) => Err(e),
                }
            },
            Token::RadToDeg => {
                match self.get_next_token() {
                    Ok(()) => {
                        let factor = Node::Num(Number::Float(DEGREES_PER_RADIAN));
                        assert(factor@ == Expr::Num(Number::Float(DEGREES_PER_RADIAN)));
                        Ok(Node::Binary(BinaryOp::Multiply, Box::new(left_expr), Box::new(factor)))
                    },
                    Err(e) => Err(e),
                }
            },
            Token::Superscript(script) => {
                match self.get_next_token() {
                    Ok(()) => {
                        let exponent = Node::Num(script);
                        assert(exponent@ == Expr::Num(script));
                        Ok(Node::Binary(BinaryOp::Pow, Box::new(left_expr), Box::new(exponent)))
                    },
                    Err(e) => Err(e),
                }
            },
            _ => Err(ParseError::InvalidOperator(describe_operator(&self.current_token))),
        }
    }
}

} // verus!
