//! What holds of every formula, stated over the grammar and the outcomes
//! that the parser and the evaluator are proved against.
use vstd::prelude::*;
use crate::ast::{BinaryOp, Expr};
use crate::eval::{describes, lemma_trouble_pair, outcome, Outcome};
use crate::number::{fits, EvalError, Number};
use crate::parser::{
    advance, climb, enclosed, implicit_multiply, literal, measure, parse_expr, parse_formula,
    parse_infix, parse_primary, right_operand, within, Cursor, Parsed,
};
use crate::token::{Dialect, Lexeme};
use crate::tokenizer::{
    decimal_value, digit_run, is_digit, lemma_digit_run_is, lex, lex_number, symbol,
};
use crate::utils::{superscript_value, OperatorCategory};

verus! {

/// The tree of an operator between two integers.
pub open spec fn of_integers(op: BinaryOp, a: i64, b: i64) -> Expr {
    Expr::Binary(
        op,
        Box::new(Expr::Num(Number::Integer(a))),
        Box::new(Expr::Num(Number::Integer(b))),
    )
}

/// The outcome of an operator between two integers is that of the operator
/// on their values: literals are numbers for certain.
pub proof fn lemma_outcome_of_integers(op: BinaryOp, a: i64, b: i64)
    ensures
        outcome(of_integers(op, a, b)) == crate::eval::binary_value(
            op,
            Outcome::Exact(a),
            Outcome::Exact(b),
        ),
{
    let l = Outcome::Exact(a);
    let r = Outcome::Exact(b);
    assert(outcome(Expr::Num(Number::Integer(a))) == l);
    assert(outcome(Expr::Num(Number::Integer(b))) == r);
    lemma_trouble_pair(l, r);
    lemma_trouble_pair(r, l);
}

/// A tree whose value does not depend on the floating-point unit evaluates
/// to the same result every time: any two results that the evaluator's
/// contract allows for it are equal.
pub proof fn lemma_evaluation_repeats(
    tree: Expr,
    first: Result<Number, EvalError>,
    second: Result<Number, EvalError>,
)
    requires
        outcome(tree) is Exact || outcome(tree) is Fails,
        describes(outcome(tree), first),
        describes(outcome(tree), second),
    ensures
        first == second,
{
}

/// In the integer dialect the same holds: a tree whose value does not
/// depend on the floating-point unit evaluates to the same result every
/// time.
pub proof fn lemma_integer_evaluation_repeats(
    tree: Expr,
    first: Result<i64, EvalError>,
    second: Result<i64, EvalError>,
)
    requires
        crate::integer::whole_outcome(tree) is Exact || crate::integer::whole_outcome(tree) is Fails,
        crate::integer::allows(crate::integer::whole_outcome(tree), first),
        crate::integer::allows(crate::integer::whole_outcome(tree), second),
    ensures
        first == second,
{
}

/// The sum, the difference and the product of two integers are the integers
/// that `i64` arithmetic gives, wherever that does not overflow.
pub proof fn lemma_promotion(a: i64, b: i64)
    ensures
        fits(a + b) ==> outcome(of_integers(BinaryOp::Add, a, b)) == Outcome::Exact((a + b) as i64),
        fits(a - b) ==> outcome(of_integers(BinaryOp::Subtract, a, b)) == Outcome::Exact(
            (a - b) as i64,
        ),
        fits(a * b) ==> outcome(of_integers(BinaryOp::Multiply, a, b)) == Outcome::Exact(
            (a * b) as i64,
        ),
{
    lemma_outcome_of_integers(BinaryOp::Add, a, b);
    lemma_outcome_of_integers(BinaryOp::Subtract, a, b);
    lemma_outcome_of_integers(BinaryOp::Multiply, a, b);
}

/// Where the sum, the difference or the product of two integers overflows,
/// the result is a floating-point value.
pub proof fn lemma_overflow_fallback(a: i64, b: i64)
    ensures
        !fits(a + b) ==> outcome(of_integers(BinaryOp::Add, a, b)) == Outcome::Real,
        !fits(a - b) ==> outcome(of_integers(BinaryOp::Subtract, a, b)) == Outcome::Real,
        !fits(a * b) ==> outcome(of_integers(BinaryOp::Multiply, a, b)) == Outcome::Real,
{
    lemma_outcome_of_integers(BinaryOp::Add, a, b);
    lemma_outcome_of_integers(BinaryOp::Subtract, a, b);
    lemma_outcome_of_integers(BinaryOp::Multiply, a, b);
}

/// In the integer dialect the sum, the difference and the product of two
/// integers are those of `i64` arithmetic wherever that does not overflow,
/// and the overflow error elsewhere; a quotient is cut off toward zero.
pub proof fn lemma_integer_arithmetic(a: i64, b: i64)
    ensures
        crate::integer::whole_outcome(of_integers(BinaryOp::Add, a, b)) == crate::integer::checked(
            crate::number::narrowed(a + b),
        ),
        crate::integer::whole_outcome(of_integers(BinaryOp::Subtract, a, b))
            == crate::integer::checked(crate::number::narrowed(a - b)),
        crate::integer::whole_outcome(of_integers(BinaryOp::Multiply, a, b))
            == crate::integer::checked(crate::number::narrowed(a * b)),
        b != 0 && !(a == i64::MIN && b == -1) ==> crate::integer::whole_outcome(
            of_integers(BinaryOp::Divide, a, b),
        ) == crate::integer::IntegerOutcome::Exact(
            crate::number::truncated_quotient(a as int, b as int) as i64,
        ),
{
    assert(crate::integer::whole_outcome(Expr::Num(Number::Integer(a)))
        == crate::integer::IntegerOutcome::Exact(a));
    assert(crate::integer::whole_outcome(Expr::Num(Number::Integer(b)))
        == crate::integer::IntegerOutcome::Exact(b));
    if b != 0 && !(a == i64::MIN && b == -1) {
        crate::number::lemma_truncated_quotient_fits(a as int, b as int);
    }
}

/// A quotient of two integers is an integer exactly where the division
/// leaves no remainder; elsewhere it is a floating-point value. The one
/// quotient that does not fit, `i64::MIN / -1`, is left out.
pub proof fn lemma_division_exactness(a: i64, b: i64)
    requires
        b != 0,
        !(a == i64::MIN && b == -1),
    ensures
        a as int % b as int == 0 ==> outcome(of_integers(BinaryOp::Divide, a, b))
            == Outcome::Exact((a as int / b as int) as i64),
        a as int % b as int != 0 ==> outcome(of_integers(BinaryOp::Divide, a, b)) == Outcome::Real,
{
    lemma_outcome_of_integers(BinaryOp::Divide, a, b);
    crate::number::lemma_quotient_fits(a as int, b as int);
}

/// A text that is one numeric literal from its first digit to its end.
pub open spec fn is_literal(t: Seq<char>) -> bool {
    t.len() > 0 && is_digit(t[0]) && lex(t).consumed == t.len()
}

/// The leaf that a numeric literal is in a tree.
pub open spec fn literal_leaf(t: Seq<char>) -> Expr {
    match lex(t).token {
        Some(Lexeme::Num(n)) => Expr::Num(n),
        Some(Lexeme::Decimal(text)) => Expr::Decimal(text),
        _ => Expr::Decimal(t),
    }
}

/// Whether `rest` may follow a literal without becoming part of it.
pub open spec fn ends_literal(rest: Seq<char>) -> bool {
    rest.len() == 0 || (!is_digit(rest[0]) && rest[0] != '.')
}

/// A digit starts a number and nothing else.
pub proof fn lemma_digit_starts_number(s: Seq<char>)
    requires
        s.len() > 0,
        is_digit(s[0]),
    ensures
        lex(s) == lex_number(s),
{
    reveal(lex);
    assert(symbol(s[0]) is None);
    assert(superscript_value(s[0]) is None);
}

/// The digits at the front of a text are not changed by what follows a
/// character that is no digit.
pub proof fn lemma_digit_run_append(t: Seq<char>, rest: Seq<char>)
    requires
        digit_run(t) < t.len() || rest.len() == 0 || !is_digit(rest[0]),
    ensures
        digit_run(t + rest) == digit_run(t),
{
    crate::tokenizer::lemma_digit_run_bound(t);
    let s = t + rest;
    let n = digit_run(t);
    assert forall|i: int| 0 <= i < n implies is_digit(#[trigger] s[i]) by {
        assert(s[i] == t[i]);
    }
    if n < t.len() {
        assert(s[n as int] == t[n as int]);
    } else if rest.len() > 0 {
        assert(s[n as int] == rest[0]);
    }
    lemma_digit_run_is(s, n);
}

/// A literal is read the same whatever follows it, as long as that is
/// neither a digit nor a point.
pub proof fn lemma_literal_then(t: Seq<char>, rest: Seq<char>)
    requires
        is_literal(t),
        ends_literal(rest),
    ensures
        lex(t + rest).token == lex(t).token,
        lex(t + rest).consumed == t.len(),
        (t + rest).skip(t.len() as int) == rest,
        lex(t).token == Some(Lexeme::Num(literal_leaf(t)->Num_0)) || lex(t).token == Some(
            Lexeme::Decimal(literal_leaf(t)->Decimal_0),
        ),
        literal_leaf(t) is Num || literal_leaf(t) is Decimal,
{
    let s = t + rest;
    assert(s[0] == t[0]);
    lemma_digit_starts_number(t);
    lemma_digit_starts_number(s);
    crate::tokenizer::lemma_digit_run_bound(t);
    let whole = digit_run(t);
    assert(s.skip(t.len() as int) =~= rest);
    if t.len() > whole && t[whole as int] == '.' {
        lemma_digit_run_append(t, rest);
        assert(s[whole as int] == '.');
        let tail = t.skip(whole as int + 1);
        crate::tokenizer::lemma_digit_run_bound(tail);
        assert(digit_run(tail) == tail.len());
        assert(s.skip(whole as int + 1) =~= tail + rest);
        lemma_digit_run_append(tail, rest);
        assert(s.subrange(0, t.len() as int) =~= t.subrange(0, t.len() as int));
    } else {
        assert(whole == t.len());
        lemma_digit_run_append(t, rest);
        if rest.len() > 0 {
            assert(s[whole as int] == rest[0]);
        }
        assert(s.subrange(0, whole as int) =~= t.subrange(0, whole as int));
    }
}

/// A text of digits alone is the integer that it writes where that fits in
/// an `i64`, and a decimal literal with the same text where it does not; a
/// formula that is such a text is that leaf. So an integer literal keeps its
/// tag unless its size forces it into floating point.
pub proof fn lemma_integer_literal(digits: Seq<char>, ph: Number)
    requires
        digits.len() > 0,
        forall|i: int| 0 <= i < digits.len() ==> is_digit(#[trigger] digits[i]),
    ensures
        is_literal(digits),
        fits(decimal_value(digits) as int) ==> parse_formula(digits, ph) == Ok::<Expr, crate::utils::ErrorKind>(
            Expr::Num(Number::Integer(decimal_value(digits) as i64)),
        ) && outcome(Expr::Num(Number::Integer(decimal_value(digits) as i64))) == Outcome::Exact(
            decimal_value(digits) as i64,
        ),
        !fits(decimal_value(digits) as int) ==> parse_formula(digits, ph) == Ok::<Expr, crate::utils::ErrorKind>(
            Expr::Decimal(digits),
        ),
{
    lemma_digit_starts_number(digits);
    lemma_digit_run_is(digits, digits.len());
    assert(digits.subrange(0, digits.len() as int) =~= digits);
    lemma_formula_of_literal(digits, ph);
}

/// A literal with a decimal point is a decimal literal, whose value is a
/// floating-point one.
pub proof fn lemma_decimal_literal(t: Seq<char>, ph: Number)
    requires
        is_literal(t),
        digit_run(t) < t.len(),
    ensures
        parse_formula(t, ph) == Ok::<Expr, crate::utils::ErrorKind>(Expr::Decimal(t)),
        outcome(Expr::Decimal(t)) == Outcome::Real,
{
    lemma_digit_starts_number(t);
    crate::tokenizer::lemma_digit_run_bound(t);
    let whole = digit_run(t);
    if t[whole as int] != '.' {
        assert(lex(t).consumed == whole);
    }
    assert(t.subrange(0, t.len() as int) =~= t);
    lemma_formula_of_literal(t, ph);
}

/// A formula that is one literal is the leaf of that literal.
pub proof fn lemma_formula_of_literal(t: Seq<char>, ph: Number)
    requires
        is_literal(t),
    ensures
        parse_formula(t, ph) == Ok::<Expr, crate::utils::ErrorKind>(literal_leaf(t)),
{
    reveal_with_fuel(parse_expr, 1);
    lemma_literal_then(t, Seq::empty());
    assert(t + Seq::<char>::empty() =~= t);
    let c = Cursor { current: lex(t).token->0, rest: crate::tokenizer::after_lex(t), dialect: Dialect::Number };
    assert(c.rest =~= Seq::<char>::empty());
    lemma_advance_at_end(c);
    lemma_literal_alone(c, literal_leaf(t), at_end(), OperatorCategory::DefaultZero, ph);
}

/// After the last token comes the end of the input.
pub proof fn lemma_advance_at_end(c: Cursor)
    requires
        c.rest.len() == 0,
        c.dialect == Dialect::Number,
    ensures
        advance(c) == Some(at_end()),
{
    assert(c.rest =~= Seq::<char>::empty());
}

/// The cursor at the end of the input.
pub open spec fn at_end() -> Cursor {
    Cursor { current: Lexeme::Eof, rest: Seq::empty(), dialect: Dialect::Number }
}

/// Whether the token at `c` is the literal of the leaf `leaf`.
pub open spec fn on_literal(c: Cursor, leaf: Expr) -> bool {
    match leaf {
        Expr::Num(n) => c.current == Lexeme::Num(n),
        Expr::Decimal(text) => c.current == Lexeme::Decimal(text),
        _ => false,
    }
}

/// A literal followed by a token that neither starts a term nor binds
/// tighter than `prec` is an expression by itself.
pub proof fn lemma_literal_alone(c: Cursor, leaf: Expr, next: Cursor, prec: OperatorCategory, ph: Number)
    requires
        on_literal(c, leaf),
        advance(c) == Some(next),
        !crate::parser::starts_factor(next.current),
        !(prec.rank() < next.current.oper_prec().rank()),
    ensures
        parse_primary(c, ph) == Parsed::Done(leaf, next),
        parse_expr(c, prec, ph) == Parsed::Done(leaf, next),
        measure(next) < measure(c),
{
    reveal_with_fuel(parse_expr, 1);
    reveal_with_fuel(parse_primary, 1);
    reveal_with_fuel(climb, 1);
    reveal_with_fuel(implicit_multiply, 1);
    reveal_with_fuel(literal, 1);
    assert(implicit_multiply(leaf, next, ph) == Parsed::Done(leaf, next));
    assert(parse_primary(c, ph) == Parsed::Done(leaf, next));
    assert(measure(next) < measure(c));
    assert(within(parse_primary(c, ph), c) == parse_primary(c, ph));
    assert(climb(leaf, next, prec, ph) == Parsed::Done(leaf, next));
}

/// A literal followed by a token that does not start a term is a term by
/// itself.
pub proof fn lemma_literal_term(c: Cursor, leaf: Expr, next: Cursor, ph: Number)
    requires
        on_literal(c, leaf),
        advance(c) == Some(next),
        !crate::parser::starts_factor(next.current),
    ensures
        parse_primary(c, ph) == Parsed::Done(leaf, next),
        within(parse_primary(c, ph), c) == Parsed::Done(leaf, next),
        measure(next) < measure(c),
{
    reveal_with_fuel(parse_primary, 1);
    reveal_with_fuel(implicit_multiply, 1);
    reveal_with_fuel(literal, 1);
    reveal_with_fuel(parse_expr, 1);
    assert(implicit_multiply(leaf, next, ph) == Parsed::Done(leaf, next));
    assert(parse_primary(c, ph) == Parsed::Done(leaf, next));
    assert(measure(next) < measure(c));
}

/// A character that is a token by itself is read as that token.
pub proof fn lemma_lex_symbol(s: Seq<char>)
    requires
        s.len() > 0,
        symbol(s[0]) is Some,
    ensures
        lex(s).token == symbol(s[0]),
        lex(s).consumed == 1,
{
    reveal(lex);
}

/// The cursor moves over a character that is a token by itself.
pub proof fn lemma_advance_symbol(c: Cursor, head: char, rest: Seq<char>)
    requires
        c.rest == seq![head] + rest,
        c.dialect == Dialect::Number,
        symbol(head) is Some,
    ensures
        advance(c) == Some(Cursor { current: symbol(head)->0, rest: rest, dialect: Dialect::Number }),
{
    lemma_lex_symbol(c.rest);
    assert(c.rest[0] == head);
    assert(c.rest.skip(1) =~= rest);
}

/// The cursor moves over a literal that something else follows.
pub proof fn lemma_advance_literal(c: Cursor, t: Seq<char>, rest: Seq<char>)
    requires
        c.rest == t + rest,
        c.dialect == Dialect::Number,
        is_literal(t),
        ends_literal(rest),
    ensures
        advance(c) == Some(Cursor { current: lex(t).token->0, rest: rest, dialect: Dialect::Number }),
        on_literal(Cursor { current: lex(t).token->0, rest: rest, dialect: Dialect::Number }, literal_leaf(t)),
{
    lemma_literal_then(t, rest);
}

/// A literal between parentheses, at the end of the input, is an expression
/// with the literal's leaf for its tree.
#[verifier::rlimit(50)]
pub proof fn lemma_group_of_literal(c: Cursor, t: Seq<char>, prec: OperatorCategory, ph: Number)
    requires
        c.current == Lexeme::LeftParen,
        c.rest == t + seq![')'],
        c.dialect == Dialect::Number,
        is_literal(t),
    ensures
        parse_expr(c, prec, ph) == Parsed::Done(literal_leaf(t), at_end()),
{
    reveal_with_fuel(parse_primary, 1);
    reveal_with_fuel(parse_expr, 1);
    reveal_with_fuel(climb, 1);
    reveal_with_fuel(implicit_multiply, 1);
    reveal_with_fuel(enclosed, 1);
    reveal_with_fuel(literal, 1);
    let leaf = literal_leaf(t);
    let close = seq![')'];
    assert(close[0] == ')');
    lemma_advance_literal(c, t, close);
    let inner = Cursor { current: lex(t).token->0, rest: close, dialect: Dialect::Number };
    let closing = Cursor { current: Lexeme::RightParen, rest: Seq::empty(), dialect: Dialect::Number };
    assert(close =~= seq![')'] + Seq::<char>::empty());
    lemma_advance_symbol(inner, ')', Seq::empty());
    lemma_literal_alone(inner, leaf, closing, OperatorCategory::DefaultZero, ph);
    lemma_advance_at_end(closing);
    assert(crate::parser::expect(closing, Lexeme::RightParen) == Some(at_end()));
    assert(implicit_multiply(leaf, at_end(), ph) == Parsed::Done(leaf, at_end()));
    assert(within(parse_expr(inner, OperatorCategory::DefaultZero, ph), inner) == Parsed::Done(
        leaf,
        closing,
    ));
    assert(enclosed(crate::parser::Bracket::Parentheses, c, ph) == Parsed::Done(
        leaf,
        at_end(),
    ));
    assert(parse_primary(c, ph) == Parsed::Done(leaf, at_end()));
    assert(climb(leaf, at_end(), prec, ph) == Parsed::Done(leaf, at_end()));
}

/// The product of the leaves of two literals.
pub open spec fn product_of(a: Seq<char>, b: Seq<char>) -> Expr {
    Expr::Binary(BinaryOp::Multiply, Box::new(literal_leaf(a)), Box::new(literal_leaf(b)))
}

/// Two literals with a multiplication sign between them are their product.
#[verifier::rlimit(50)]
pub proof fn lemma_explicit_product(a: Seq<char>, b: Seq<char>, ph: Number)
    requires
        is_literal(a),
        is_literal(b),
    ensures
        parse_formula(a + seq!['*'] + b, ph) == Ok::<Expr, crate::utils::ErrorKind>(product_of(a, b)),
{
    reveal_with_fuel(parse_expr, 1);
    reveal_with_fuel(parse_primary, 1);
    reveal_with_fuel(climb, 1);
    reveal_with_fuel(parse_infix, 1);
    reveal_with_fuel(right_operand, 1);
    let text = a + seq!['*'] + b;
    let tail = seq!['*'] + b;
    assert(tail[0] == '*');
    assert(text =~= a + tail);
    lemma_literal_then(a, tail);
    let start = Cursor { current: lex(a).token->0, rest: tail, dialect: Dialect::Number };
    let operator = Cursor { current: Lexeme::Multiply, rest: b, dialect: Dialect::Number };
    lemma_advance_symbol(start, '*', b);
    lemma_literal_term(start, literal_leaf(a), operator, ph);
    assert(b =~= b + Seq::<char>::empty());
    lemma_advance_literal(operator, b, Seq::empty());
    let operand = Cursor { current: lex(b).token->0, rest: Seq::empty(), dialect: Dialect::Number };
    lemma_advance_at_end(operand);
    lemma_literal_alone(operand, literal_leaf(b), at_end(), OperatorCategory::Multiplicative, ph);
    assert(crate::parser::right_operand(
        BinaryOp::Multiply,
        OperatorCategory::Multiplicative,
        literal_leaf(a),
        operator,
        ph,
    ) == Parsed::Done(product_of(a, b), at_end()));
    assert(crate::parser::parse_infix(literal_leaf(a), operator, ph) == Parsed::Done(
        product_of(a, b),
        at_end(),
    ));
    assert(climb(product_of(a, b), at_end(), OperatorCategory::DefaultZero, ph) == Parsed::Done(
        product_of(a, b),
        at_end(),
    ));
    assert(climb(literal_leaf(a), operator, OperatorCategory::DefaultZero, ph) == Parsed::Done(
        product_of(a, b),
        at_end(),
    ));
    assert(parse_expr(start, OperatorCategory::DefaultZero, ph) == Parsed::Done(
        product_of(a, b),
        at_end(),
    ));
}

/// A literal before a literal between parentheses multiplies it.
#[verifier::rlimit(50)]
pub proof fn lemma_juxtaposed_product(a: Seq<char>, b: Seq<char>, ph: Number)
    requires
        is_literal(a),
        is_literal(b),
    ensures
        parse_formula(a + seq!['('] + b + seq![')'], ph) == Ok::<Expr, crate::utils::ErrorKind>(
            product_of(a, b),
        ),
{
    reveal_with_fuel(parse_expr, 1);
    reveal_with_fuel(climb, 1);
    reveal_with_fuel(parse_primary, 1);
    reveal_with_fuel(literal, 1);
    reveal_with_fuel(implicit_multiply, 1);
    reveal_with_fuel(parse_infix, 1);
    let text = a + seq!['('] + b + seq![')'];
    let group = b + seq![')'];
    let tail = seq!['('] + group;
    assert(tail[0] == '(');
    assert(text =~= a + tail);
    lemma_literal_then(a, tail);
    let start = Cursor { current: lex(a).token->0, rest: tail, dialect: Dialect::Number };
    let open = Cursor { current: Lexeme::LeftParen, rest: group, dialect: Dialect::Number };
    lemma_advance_symbol(start, '(', group);
    lemma_product_with_group(literal_leaf(a), open, b, ph);
    assert(parse_primary(start, ph) == Parsed::Done(product_of(a, b), at_end()));
    assert(climb(product_of(a, b), at_end(), OperatorCategory::DefaultZero, ph) == Parsed::Done(
        product_of(a, b),
        at_end(),
    ));
}

/// A term before a literal between parentheses, which end the input,
/// multiplies that literal.
pub proof fn lemma_product_with_group(leaf: Expr, open: Cursor, b: Seq<char>, ph: Number)
    requires
        open.current == Lexeme::LeftParen,
        open.rest == b + seq![')'],
        open.dialect == Dialect::Number,
        is_literal(b),
    ensures
        implicit_multiply(leaf, open, ph) == Parsed::Done(
            Expr::Binary(BinaryOp::Multiply, Box::new(leaf), Box::new(literal_leaf(b))),
            at_end(),
        ),
{
    reveal_with_fuel(implicit_multiply, 1);
    reveal_with_fuel(parse_expr, 1);
    lemma_group_of_literal(open, b, OperatorCategory::Multiplicative, ph);
}

/// Two literals, each between parentheses, are their product.
#[verifier::rlimit(50)]
pub proof fn lemma_bracketed_product(a: Seq<char>, b: Seq<char>, ph: Number)
    requires
        is_literal(a),
        is_literal(b),
    ensures
        parse_formula(seq!['('] + a + seq![')', '('] + b + seq![')'], ph) == Ok::<
            Expr,
            crate::utils::ErrorKind,
        >(product_of(a, b)),
{
    reveal_with_fuel(parse_expr, 1);
    reveal_with_fuel(climb, 1);
    reveal_with_fuel(parse_primary, 1);
    reveal_with_fuel(enclosed, 1);
    reveal_with_fuel(implicit_multiply, 1);
    reveal_with_fuel(parse_infix, 1);
    let text = seq!['('] + a + seq![')', '('] + b + seq![')'];
    let group = b + seq![')'];
    let second = seq!['('] + group;
    let between = seq![')'] + second;
    let inside = a + between;
    assert(text =~= seq!['('] + inside);
    assert(text[0] == '(');
    lemma_lex_symbol(text);
    assert(text.skip(1) =~= inside);
    assert(between[0] == ')');
    let start = Cursor { current: Lexeme::LeftParen, rest: inside, dialect: Dialect::Number };
    assert(lex(text).token == Some(Lexeme::LeftParen));
    assert(crate::tokenizer::after_lex(text) == inside);
    lemma_advance_literal(start, a, between);
    let first = Cursor { current: lex(a).token->0, rest: between, dialect: Dialect::Number };
    let closing = Cursor { current: Lexeme::RightParen, rest: second, dialect: Dialect::Number };
    lemma_advance_symbol(first, ')', second);
    lemma_literal_alone(first, literal_leaf(a), closing, OperatorCategory::DefaultZero, ph);
    let open = Cursor { current: Lexeme::LeftParen, rest: group, dialect: Dialect::Number };
    lemma_advance_symbol(closing, '(', group);
    assert(crate::parser::expect(closing, Lexeme::RightParen) == Some(open));
    lemma_product_with_group(literal_leaf(a), open, b, ph);
    assert(within(parse_expr(first, OperatorCategory::DefaultZero, ph), first) == Parsed::Done(
        literal_leaf(a),
        closing,
    ));
    assert(enclosed(crate::parser::Bracket::Parentheses, start, ph) == Parsed::Done(
        product_of(a, b),
        at_end(),
    ));
    assert(parse_primary(start, ph) == Parsed::Done(product_of(a, b), at_end()));
    assert(climb(product_of(a, b), at_end(), OperatorCategory::DefaultZero, ph) == Parsed::Done(
        product_of(a, b),
        at_end(),
    ));
}

/// Multiplication may be written with a sign or without one: for any two
/// literals `a` and `b`, the formulas `a*b`, `a(b)` and `(a)(b)` have the
/// same tree, the product of the two, and with it the same value.
pub proof fn lemma_implicit_multiplication(a: Seq<char>, b: Seq<char>, ph: Number)
    requires
        is_literal(a),
        is_literal(b),
    ensures
        parse_formula(a + seq!['*'] + b, ph) == Ok::<Expr, crate::utils::ErrorKind>(product_of(a, b)),
        parse_formula(a + seq!['('] + b + seq![')'], ph) == parse_formula(a + seq!['*'] + b, ph),
        parse_formula(seq!['('] + a + seq![')', '('] + b + seq![')'], ph) == parse_formula(
            a + seq!['*'] + b,
            ph,
        ),
{
    lemma_explicit_product(a, b, ph);
    lemma_juxtaposed_product(a, b, ph);
    lemma_bracketed_product(a, b, ph);
}

} // verus!
