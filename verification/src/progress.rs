//! The grammar never moves the cursor back: every part that it recognises
//! takes at least one token. The checks that the grammar makes on the way,
//! to show that its recursion ends, therefore never fail.
use vstd::prelude::*;
use crate::ast::Expr;
use crate::number::Number;
use crate::parser::{
    advance, argument_list, arguments, climb, enclosed, implicit_multiply, items, literal,
    measure, parse_call, parse_expr, parse_infix, parse_primary, right_operand, signed, within,
    Bracket, Cursor, Parsed,
};
use crate::ast::BinaryOp;
use crate::token::{Arity, NativeFunction};
use crate::utils::OperatorCategory;

verus! {

/// A result that has taken at least one token from `c` on.
pub open spec fn advances<T>(r: Parsed<T>, c: Cursor) -> bool {
    r is Done ==> measure(r->Done_1) < measure(c)
}

/// A result that has not moved back from `c`.
pub open spec fn keeps<T>(r: Parsed<T>, c: Cursor) -> bool {
    r is Done ==> measure(r->Done_1) <= measure(c)
}

/// An expression takes at least one token.
pub proof fn lemma_expr_advances(c: Cursor, prec: OperatorCategory, ph: Number)
    ensures
        advances(parse_expr(c, prec, ph), c),
    decreases measure(c), 4nat,
{
    reveal_with_fuel(parse_expr, 1);
    reveal_with_fuel(parse_primary, 1);
    reveal_with_fuel(climb, 1);
    lemma_primary_advances(c, ph);
    match within(parse_primary(c, ph), c) {
        Parsed::Done(left, c1) => {
            lemma_climb_keeps(left, c1, prec, ph);
        },
        Parsed::Failed(_) => {},
    }
}

/// The operators after a term do not move back.
pub proof fn lemma_climb_keeps(left: Expr, c: Cursor, prec: OperatorCategory, ph: Number)
    ensures
        keeps(climb(left, c, prec, ph), c),
    decreases measure(c), 1nat,
{
    reveal_with_fuel(climb, 1);
    reveal_with_fuel(parse_infix, 1);
    if prec.rank() < c.current.oper_prec().rank() {
        lemma_infix_advances(left, c, ph);
        match parse_infix(left, c, ph) {
            Parsed::Done(e, c1) => {
                lemma_climb_keeps(e, c1, prec, ph);
            },
            Parsed::Failed(_) => {},
        }
    }
}

/// An operator with what belongs to it takes at least one token.
pub proof fn lemma_infix_advances(left: Expr, c: Cursor, ph: Number)
    ensures
        advances(parse_infix(left, c, ph), c),
    decreases measure(c), 0nat,
{
    reveal_with_fuel(parse_infix, 1);
    reveal_with_fuel(right_operand, 1);
    reveal_with_fuel(implicit_multiply, 1);
    if c.current is Add {
        lemma_right_operand_advances(BinaryOp::Add, OperatorCategory::Additive, left, c, ph);
    } else if c.current is Subtract {
        lemma_right_operand_advances(BinaryOp::Subtract, OperatorCategory::Additive, left, c, ph);
    } else if c.current is Multiply {
        lemma_right_operand_advances(
            BinaryOp::Multiply,
            OperatorCategory::Multiplicative,
            left,
            c,
            ph,
        );
    } else if c.current is Divide {
        lemma_right_operand_advances(
            BinaryOp::Divide,
            OperatorCategory::Multiplicative,
            left,
            c,
            ph,
        );
    } else if c.current is Modulo {
        lemma_right_operand_advances(
            BinaryOp::Modulo,
            OperatorCategory::Multiplicative,
            left,
            c,
            ph,
        );
    } else if c.current is Caret {
        lemma_right_operand_advances(BinaryOp::Pow, OperatorCategory::Power, left, c, ph);
    } else if c.current is Ampersand {
        lemma_right_operand_advances(BinaryOp::And, OperatorCategory::BitwiseAnd, left, c, ph);
    } else if c.current is Bar {
        lemma_right_operand_advances(BinaryOp::Or, OperatorCategory::BitwiseOr, left, c, ph);
    } else if c.current is LeftShift {
        lemma_right_operand_advances(BinaryOp::LeftShift, OperatorCategory::Shift, left, c, ph);
    } else if c.current is RightShift {
        lemma_right_operand_advances(BinaryOp::RightShift, OperatorCategory::Shift, left, c, ph);
    } else if c.current is ExclamationMark {
        match advance(c) {
            Some(c1) => {
                lemma_implicit_keeps(
                    Expr::Unary(crate::ast::UnaryOp::Factorial, Box::new(left)),
                    c1,
                    ph,
                );
            },
            None => {},
        }
    }
}

/// An operator and its right operand take at least two tokens.
pub proof fn lemma_right_operand_advances(
    op: BinaryOp,
    prec: OperatorCategory,
    left: Expr,
    c: Cursor,
    ph: Number,
)
    requires
        !(c.current is Eof),
    ensures
        advances(right_operand(op, prec, left, c, ph), c),
    decreases measure(c), 0nat, 0nat,
{
    reveal_with_fuel(right_operand, 1);
    reveal_with_fuel(parse_expr, 1);
    match advance(c) {
        Some(c1) => {
            lemma_expr_advances(c1, prec, ph);
        },
        None => {},
    }
}

/// A term with or without the term that it multiplies does not move back.
pub proof fn lemma_implicit_keeps(node: Expr, c: Cursor, ph: Number)
    ensures
        keeps(implicit_multiply(node, c, ph), c),
    decreases measure(c), 6nat,
{
    reveal_with_fuel(implicit_multiply, 1);
    reveal_with_fuel(parse_expr, 1);
    if crate::parser::starts_factor(c.current) {
        lemma_expr_advances(c, OperatorCategory::Multiplicative, ph);
    }
}

/// A term takes at least one token.
pub proof fn lemma_primary_advances(c: Cursor, ph: Number)
    ensures
        advances(parse_primary(c, ph), c),
    decreases measure(c), 3nat,
{
    reveal_with_fuel(parse_primary, 1);
    reveal_with_fuel(literal, 1);
    reveal_with_fuel(signed, 1);
    reveal_with_fuel(parse_call, 1);
    reveal_with_fuel(enclosed, 1);
    if c.current is Num {
        lemma_literal_advances(Expr::Num(c.current->Num_0), c, ph);
    } else if c.current is Decimal {
        lemma_literal_advances(Expr::Decimal(c.current->Decimal_0), c, ph);
    } else if c.current is Subtract {
        lemma_signed_advances(true, c, ph);
    } else if c.current is Add {
        lemma_signed_advances(false, c, ph);
    } else if c.current is ExplicitFunction {
        lemma_call_advances(c.current->ExplicitFunction_0, c, ph);
    } else if c.current is LeftParen {
        lemma_enclosed_advances(Bracket::Parentheses, c, ph);
    } else if c.current is LeftFloor {
        lemma_enclosed_advances(Bracket::Floor, c, ph);
    } else if c.current is LeftCeiling {
        lemma_enclosed_advances(Bracket::Ceiling, c, ph);
    } else if c.current is AbsoluteBar {
        lemma_enclosed_advances(Bracket::Bars, c, ph);
    }
}

/// A literal with what it multiplies takes at least one token.
pub proof fn lemma_literal_advances(leaf: Expr, c: Cursor, ph: Number)
    requires
        !(c.current is Eof),
    ensures
        advances(literal(leaf, c, ph), c),
    decreases measure(c), 2nat,
{
    reveal_with_fuel(literal, 1);
    reveal_with_fuel(implicit_multiply, 1);
    match advance(c) {
        Some(c1) => {
            lemma_implicit_keeps(leaf, c1, ph);
        },
        None => {},
    }
}

/// A sign and its operand take at least two tokens.
pub proof fn lemma_signed_advances(negate: bool, c: Cursor, ph: Number)
    requires
        !(c.current is Eof),
    ensures
        advances(signed(negate, c, ph), c),
    decreases measure(c), 2nat,
{
    reveal_with_fuel(signed, 1);
    reveal_with_fuel(parse_expr, 1);
    match advance(c) {
        Some(c1) => {
            lemma_expr_advances(c1, OperatorCategory::Negative, ph);
        },
        None => {},
    }
}

/// A pair of brackets with what it holds takes at least one token.
pub proof fn lemma_enclosed_advances(pair: Bracket, c: Cursor, ph: Number)
    requires
        !(c.current is Eof),
    ensures
        advances(enclosed(pair, c, ph), c),
    decreases measure(c), 2nat,
{
    reveal_with_fuel(enclosed, 1);
    reveal_with_fuel(parse_expr, 1);
    reveal_with_fuel(implicit_multiply, 1);
    match advance(c) {
        Some(c1) => {
            lemma_expr_advances(c1, OperatorCategory::DefaultZero, ph);
            match within(parse_expr(c1, OperatorCategory::DefaultZero, ph), c1) {
                Parsed::Done(e, c2) => {
                    match crate::parser::expect(c2, pair.closing()) {
                        Some(c3) => {
                            lemma_implicit_keeps(pair.wrapped(e), c3, ph);
                        },
                        None => {},
                    }
                },
                Parsed::Failed(_) => {},
            }
        },
        None => {},
    }
}

/// A call takes at least one token, and its arguments are as many as its
/// arity asks for.
pub proof fn lemma_call_advances(f: NativeFunction, c: Cursor, ph: Number)
    requires
        !(c.current is Eof),
    ensures
        advances(parse_call(f, c, ph), c),
    decreases measure(c), 2nat,
{
    reveal_with_fuel(parse_call, 1);
    reveal_with_fuel(arguments, 1);
    reveal_with_fuel(argument_list, 1);
    reveal_with_fuel(implicit_multiply, 1);
    match f.spec_arity() {
        Arity::One => {
            lemma_arguments_advance(1, c, ph);
            match arguments(1, c, ph) {
                Parsed::Done(args, c1) => {
                    lemma_implicit_keeps(
                        Expr::Unary(crate::parser::unary_of(f), Box::new(args[0])),
                        c1,
                        ph,
                    );
                },
                Parsed::Failed(_) => {},
            }
        },
        Arity::Two => {
            lemma_arguments_advance(2, c, ph);
            match arguments(2, c, ph) {
                Parsed::Done(args, c1) => {
                    lemma_implicit_keeps(
                        Expr::Binary(
                            crate::parser::binary_of(f),
                            Box::new(args[0]),
                            Box::new(args[1]),
                        ),
                        c1,
                        ph,
                    );
                },
                Parsed::Failed(_) => {},
            }
        },
        Arity::Variadic => {
            lemma_argument_list_advances(c, ph);
            match argument_list(c, ph) {
                Parsed::Done(args, c1) => {
                    lemma_implicit_keeps(
                        Expr::Variadic(crate::parser::variadic_of(f), args),
                        c1,
                        ph,
                    );
                    lemma_implicit_keeps(Expr::Num(crate::parser::zero_of(c.dialect)), c1, ph);
                },
                Parsed::Failed(_) => {},
            }
        },
    }
}

/// A list of one or two arguments takes tokens and holds that many trees.
pub proof fn lemma_arguments_advance(n: nat, c: Cursor, ph: Number)
    requires
        !(c.current is Eof),
        1 <= n <= 2,
    ensures
        advances(arguments(n, c, ph), c),
        arguments(n, c, ph) is Done ==> arguments(n, c, ph)->Done_0.len() == n,
    decreases measure(c), 1nat,
{
    reveal_with_fuel(arguments, 1);
    reveal_with_fuel(parse_expr, 1);
    match advance(c) {
        Some(c1) => {
            match crate::parser::expect(c1, crate::token::Lexeme::LeftParen) {
                Some(c2) => {
                    lemma_expr_advances(c2, OperatorCategory::DefaultZero, ph);
                    match within(parse_expr(c2, OperatorCategory::DefaultZero, ph), c2) {
                        Parsed::Done(_, c3) => {
                            if n != 1 {
                                match crate::parser::expect(c3, crate::token::Lexeme::Comma) {
                                    Some(c4) => {
                                        lemma_expr_advances(c4, OperatorCategory::DefaultZero, ph);
                                    },
                                    None => {},
                                }
                            }
                        },
                        Parsed::Failed(_) => {},
                    }
                },
                None => {},
            }
        },
        None => {},
    }
}

/// An argument list takes at least one token.
pub proof fn lemma_argument_list_advances(c: Cursor, ph: Number)
    requires
        !(c.current is Eof),
    ensures
        advances(argument_list(c, ph), c),
    decreases measure(c), 1nat,
{
    reveal_with_fuel(argument_list, 1);
    reveal_with_fuel(items, 1);
    match advance(c) {
        Some(c1) => {
            match crate::parser::expect(c1, crate::token::Lexeme::LeftParen) {
                Some(c2) => {
                    lemma_items_keep(Seq::empty(), c2, ph);
                },
                None => {},
            }
        },
        None => {},
    }
}

/// The rest of an argument list does not move back.
pub proof fn lemma_items_keep(found: Seq<Expr>, c: Cursor, ph: Number)
    ensures
        keeps(items(found, c, ph), c),
    decreases measure(c), 5nat,
{
    reveal_with_fuel(items, 1);
    reveal_with_fuel(parse_expr, 1);
    if found.len() == 0 && c.current is RightParen {
    } else {
        lemma_expr_advances(c, OperatorCategory::DefaultZero, ph);
        match within(parse_expr(c, OperatorCategory::DefaultZero, ph), c) {
            Parsed::Done(e, c1) => {
                if c1.current is Comma {
                    match advance(c1) {
                        Some(c2) => {
                            lemma_items_keep(found.push(e), c2, ph);
                        },
                        None => {},
                    }
                }
            },
            Parsed::Failed(_) => {},
        }
    }
}

/// The checks of the grammar on its own results never fail: each of them
/// gives back the result that it is made on.
pub proof fn lemma_checks_pass(c: Cursor, prec: OperatorCategory, ph: Number)
    ensures
        within(parse_primary(c, ph), c) == parse_primary(c, ph),
        within(parse_expr(c, prec, ph), c) == parse_expr(c, prec, ph),
{
    lemma_primary_advances(c, ph);
    lemma_expr_advances(c, prec, ph);
}

} // verus!
