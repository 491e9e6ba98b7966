//! The tokenizer: from the characters of a formula to its tokens, one per
//! call, in the dialect that it was made for.
use vstd::prelude::*;
use vstd::string::{StrSliceExecFns, StringExecFns};
use crate::number::{narrowed, Number};
use crate::token::{Dialect, Lexeme, NativeFunction, Token};
use crate::utils::{
    deserialize_superscript_number, superscript_digits, superscript_head, superscript_run,
    superscript_value, lemma_superscript_run_bound,
};

verus! {

/// The ASCII digits.
pub open spec fn is_digit(c: char) -> bool {
    '0' <= c && c <= '9'
}

/// The number that an ASCII digit writes.
pub open spec fn digit_value(c: char) -> nat
    recommends
        is_digit(c),
{
    (c as u32 - '0' as u32) as nat
}

/// Number of ASCII digits at the front of `s`.
pub open spec fn digit_run(s: Seq<char>) -> nat
    decreases s.len(),
{
    if s.len() > 0 && is_digit(s[0]) {
        1 + digit_run(s.skip(1))
    } else {
        0
    }
}

/// The number that a sequence of ASCII digits writes in base ten.
pub open spec fn decimal_value(digits: Seq<char>) -> nat
    decreases digits.len(),
{
    if digits.len() == 0 {
        0
    } else {
        10 * decimal_value(digits.drop_last()) + digit_value(digits.last())
    }
}

/// `word` stands at the front of `s`.
pub open spec fn has_prefix(s: Seq<char>, word: Seq<char>) -> bool {
    word.len() <= s.len() && s.subrange(0, word.len() as int) == word
}

/// `name` stands at the front of `s` and an opening parenthesis follows it.
pub open spec fn calls(s: Seq<char>, name: Seq<char>) -> bool {
    has_prefix(s, name) && s.len() > name.len() && s[name.len() as int] == '('
}

/// The token that a single character is in the number dialect, if it is one
/// by itself.
pub open spec fn symbol(c: char) -> Option<Lexeme> {
    if c == '@' {
        Some(Lexeme::Ans)
    } else if c == '+' {
        Some(Lexeme::Add)
    } else if c == '-' {
        Some(Lexeme::Subtract)
    } else if c == '*' {
        Some(Lexeme::Multiply)
    } else if c == '/' {
        Some(Lexeme::Divide)
    } else if c == '^' {
        Some(Lexeme::Caret)
    } else if c == '(' {
        Some(Lexeme::LeftParen)
    } else if c == ')' {
        Some(Lexeme::RightParen)
    } else if c == '!' {
        Some(Lexeme::ExclamationMark)
    } else if c == ',' {
        Some(Lexeme::Comma)
    } else if c == '%' {
        Some(Lexeme::Modulo)
    } else if c == 'π' {
        Some(Lexeme::Pi)
    } else if c == '⌊' {
        Some(Lexeme::LeftFloor)
    } else if c == '⌋' {
        Some(Lexeme::RightFloor)
    } else if c == '⌈' {
        Some(Lexeme::LeftCeiling)
    } else if c == '⌉' {
        Some(Lexeme::RightCeiling)
    } else if c == '|' {
        Some(Lexeme::AbsoluteBar)
    } else if c == '°' {
        Some(Lexeme::DegToRad)
    } else {
        None
    }
}

/// The function of the number dialect whose name, followed by an opening
/// parenthesis, starts `s`, with the length of the name. The parenthesis is not part of the token.
/// No name followed by a parenthesis is the start of another, so at most one
/// of them matches.
pub open spec fn function_name(s: Seq<char>) -> Option<(NativeFunction, nat)> {
    if calls(s, "arsinh"@) {
        Some((NativeFunction::Arsinh, "arsinh"@.len()))
    } else if calls(s, "arcosh"@) {
        Some((NativeFunction::Arcosh, "arcosh"@.len()))
    } else if calls(s, "artanh"@) {
        Some((NativeFunction::Artanh, "artanh"@.len()))
    } else if calls(s, "atan2"@) {
        Some((NativeFunction::Atan2, "atan2"@.len()))
    } else if calls(s, "asinh"@) {
        Some((NativeFunction::Arsinh, "asinh"@.len()))
    } else if calls(s, "acosh"@) {
        Some((NativeFunction::Arcosh, "acosh"@.len()))
    } else if calls(s, "atanh"@) {
        Some((NativeFunction::Artanh, "atanh"@.len()))
    } else if calls(s, "asin"@) {
        Some((NativeFunction::Asin, "asin"@.len()))
    } else if calls(s, "acos"@) {
        Some((NativeFunction::Acos, "acos"@.len()))
    } else if calls(s, "atan"@) {
        Some((NativeFunction::Atan, "atan"@.len()))
    } else if calls(s, "abs"@) {
        Some((NativeFunction::Abs, "abs"@.len()))
    } else if calls(s, "avg"@) {
        Some((NativeFunction::Avg, "avg"@.len()))
    } else if calls(s, "ceil"@) {
        Some((NativeFunction::Ceil, "ceil"@.len()))
    } else if calls(s, "cosh"@) {
        Some((NativeFunction::Cosh, "cosh"@.len()))
    } else if calls(s, "cos"@) {
        Some((NativeFunction::Cos, "cos"@.len()))
    } else if calls(s, "floor"@) {
        Some((NativeFunction::Floor, "floor"@.len()))
    } else if calls(s, "gcd"@) {
        Some((NativeFunction::Gcd, "gcd"@.len()))
    } else if calls(s, "exp2"@) {
        Some((NativeFunction::Exp2, "exp2"@.len()))
    } else if calls(s, "exp"@) {
        Some((NativeFunction::Exp, "exp"@.len()))
    } else if calls(s, "ilog"@) {
        Some((NativeFunction::ILog, "ilog"@.len()))
    } else if calls(s, "lambert_w"@) {
        Some((NativeFunction::LambertW, "lambert_w"@.len()))
    } else if calls(s, "log"@) {
        Some((NativeFunction::Log, "log"@.len()))
    } else if calls(s, "lcm"@) {
        Some((NativeFunction::Lcm, "lcm"@.len()))
    } else if calls(s, "ln"@) {
        Some((NativeFunction::Ln, "ln"@.len()))
    } else if calls(s, "lb"@) {
        Some((NativeFunction::Lb, "lb"@.len()))
    } else if calls(s, "median"@) {
        Some((NativeFunction::Med, "median"@.len()))
    } else if calls(s, "min"@) {
        Some((NativeFunction::Min, "min"@.len()))
    } else if calls(s, "max"@) {
        Some((NativeFunction::Max, "max"@.len()))
    } else if calls(s, "mod"@) {
        Some((NativeFunction::Mod, "mod"@.len()))
    } else if calls(s, "med"@) {
        Some((NativeFunction::Med, "med"@.len()))
    } else if calls(s, "pow"@) {
        Some((NativeFunction::Pow, "pow"@.len()))
    } else if calls(s, "round"@) {
        Some((NativeFunction::Round, "round"@.len()))
    } else if calls(s, "root"@) {
        Some((NativeFunction::Root, "root"@.len()))
    } else if calls(s, "signum"@) {
        Some((NativeFunction::Sign, "signum"@.len()))
    } else if calls(s, "sinh"@) {
        Some((NativeFunction::Sinh, "sinh"@.len()))
    } else if calls(s, "sqrt"@) {
        Some((NativeFunction::Sqrt, "sqrt"@.len()))
    } else if calls(s, "sign"@) {
        Some((NativeFunction::Sign, "sign"@.len()))
    } else if calls(s, "sin"@) {
        Some((NativeFunction::Sin, "sin"@.len()))
    } else if calls(s, "sgn"@) {
        Some((NativeFunction::Sign, "sgn"@.len()))
    } else if calls(s, "truncate"@) {
        Some((NativeFunction::Truncate, "truncate"@.len()))
    } else if calls(s, "trunc"@) {
        Some((NativeFunction::Truncate, "trunc"@.len()))
    } else if calls(s, "tanh"@) {
        Some((NativeFunction::Tanh, "tanh"@.len()))
    } else if calls(s, "tan"@) {
        Some((NativeFunction::Tan, "tan"@.len()))
    } else if calls(s, "w"@) {
        Some((NativeFunction::LambertW, "w"@.len()))
    } else {
        None
    }
}

/// What the tokenizer makes of an input: the token at its front, `None` where
/// no token starts there, and the number of characters that it takes.
pub struct Lexed {
    pub token: Option<Lexeme>,
    pub consumed: nat,
}

/// A literal that starts with a point: the point and the digits after it,
/// written with a zero in front.
pub open spec fn lex_fraction(s: Seq<char>) -> Lexed
    recommends
        s.len() > 0,
        s[0] == '.',
{
    if s.len() > 1 && is_digit(s[1]) {
        let n = digit_run(s.skip(1));
        Lexed {
            token: Some(Lexeme::Decimal(seq!['0', '.'] + s.subrange(1, 1 + n as int))),
            consumed: 1 + n,
        }
    } else {
        Lexed { token: None, consumed: 1 }
    }
}

/// A literal that starts with a digit: digits, then at most one point with
/// the digits after it. Without a point it is an integer where its value
/// fits in an `i64`.
pub open spec fn lex_number(s: Seq<char>) -> Lexed
    recommends
        s.len() > 0,
        is_digit(s[0]),
{
    let whole = digit_run(s);
    if s.len() > whole && s[whole as int] == '.' {
        let len = whole + 1 + digit_run(s.skip(whole as int + 1));
        Lexed { token: Some(Lexeme::Decimal(s.subrange(0, len as int))), consumed: len }
    } else {
        let digits = s.subrange(0, whole as int);
        match narrowed(decimal_value(digits) as int) {
            Some(v) => Lexed { token: Some(Lexeme::Num(Number::Integer(v))), consumed: whole },
            None => Lexed { token: Some(Lexeme::Decimal(digits)), consumed: whole },
        }
    }
}

/// A run of superscript digits: the integer that they write, and no token
/// where that integer does not fit in an `i64`.
pub open spec fn lex_superscript(s: Seq<char>) -> Lexed {
    let n = superscript_run(s);
    match narrowed(decimal_value(superscript_digits(s, n)) as int) {
        Some(v) => Lexed { token: Some(Lexeme::Superscript(Number::Integer(v))), consumed: n },
        None => Lexed { token: None, consumed: n },
    }
}

/// A word: a function name before its parenthesis, or one of `pi`, `rad`, `e`.
pub open spec fn lex_word(s: Seq<char>) -> Lexed {
    match function_name(s) {
        Some((f, n)) => Lexed { token: Some(Lexeme::ExplicitFunction(f)), consumed: n },
        None => if has_prefix(s, "pi"@) {
            Lexed { token: Some(Lexeme::Pi), consumed: "pi"@.len() }
        } else if has_prefix(s, "rad"@) {
            Lexed { token: Some(Lexeme::RadToDeg), consumed: "rad"@.len() }
        } else if has_prefix(s, "e"@) {
            Lexed { token: Some(Lexeme::E), consumed: "e"@.len() }
        } else {
            Lexed { token: None, consumed: 1 }
        },
    }
}

/// The first token of `s` in the number dialect. At the end of the input it
/// is `Eof`, which takes nothing. A character that starts no token is taken
/// alone.
#[verifier::opaque]
pub open spec fn lex(s: Seq<char>) -> Lexed {
    if s.len() == 0 {
        Lexed { token: Some(Lexeme::Eof), consumed: 0 }
    } else if symbol(s[0]) is Some {
        Lexed { token: symbol(s[0]), consumed: 1 }
    } else if s[0] == '.' {
        lex_fraction(s)
    } else if superscript_value(s[0]) is Some {
        lex_superscript(s)
    } else if is_digit(s[0]) {
        lex_number(s)
    } else {
        lex_word(s)
    }
}

/// The token that a single character is in the integer dialect, if it is
/// one by itself.
pub open spec fn integer_symbol(c: char) -> Option<Lexeme> {
    if c == '@' {
        Some(Lexeme::Ans)
    } else if c == '+' {
        Some(Lexeme::Add)
    } else if c == '-' {
        Some(Lexeme::Subtract)
    } else if c == '*' {
        Some(Lexeme::Multiply)
    } else if c == '/' {
        Some(Lexeme::Divide)
    } else if c == '^' {
        Some(Lexeme::Caret)
    } else if c == '(' {
        Some(Lexeme::LeftParen)
    } else if c == ')' {
        Some(Lexeme::RightParen)
    } else if c == '!' {
        Some(Lexeme::ExclamationMark)
    } else if c == '&' {
        Some(Lexeme::Ampersand)
    } else if c == '|' {
        Some(Lexeme::Bar)
    } else if c == ',' {
        Some(Lexeme::Comma)
    } else if c == '%' {
        Some(Lexeme::Modulo)
    } else {
        None
    }
}

/// The function of the integer dialect whose name, followed by an opening
/// parenthesis, starts `s`, with the length of the name.
pub open spec fn integer_function_name(s: Seq<char>) -> Option<(NativeFunction, nat)> {
    if calls(s, "abs"@) {
        Some((NativeFunction::Abs, "abs"@.len()))
    } else if calls(s, "avg"@) {
        Some((NativeFunction::Avg, "avg"@.len()))
    } else if calls(s, "exp2"@) {
        Some((NativeFunction::Exp2, "exp2"@.len()))
    } else if calls(s, "exp"@) {
        Some((NativeFunction::Exp, "exp"@.len()))
    } else if calls(s, "gcd"@) {
        Some((NativeFunction::Gcd, "gcd"@.len()))
    } else if calls(s, "log"@) {
        Some((NativeFunction::Log, "log"@.len()))
    } else if calls(s, "lcm"@) {
        Some((NativeFunction::Lcm, "lcm"@.len()))
    } else if calls(s, "ln"@) {
        Some((NativeFunction::Ln, "ln"@.len()))
    } else if calls(s, "lb"@) {
        Some((NativeFunction::Lb, "lb"@.len()))
    } else if calls(s, "median"@) {
        Some((NativeFunction::Med, "median"@.len()))
    } else if calls(s, "min"@) {
        Some((NativeFunction::Min, "min"@.len()))
    } else if calls(s, "max"@) {
        Some((NativeFunction::Max, "max"@.len()))
    } else if calls(s, "mod"@) {
        Some((NativeFunction::Mod, "mod"@.len()))
    } else if calls(s, "med"@) {
        Some((NativeFunction::Med, "med"@.len()))
    } else if calls(s, "pow"@) {
        Some((NativeFunction::Pow, "pow"@.len()))
    } else if calls(s, "root"@) {
        Some((NativeFunction::Root, "root"@.len()))
    } else if calls(s, "signum"@) {
        Some((NativeFunction::Sign, "signum"@.len()))
    } else if calls(s, "sqrt"@) {
        Some((NativeFunction::Sqrt, "sqrt"@.len()))
    } else if calls(s, "sign"@) {
        Some((NativeFunction::Sign, "sign"@.len()))
    } else if calls(s, "sgn"@) {
        Some((NativeFunction::Sign, "sgn"@.len()))
    } else {
        None
    }
}

/// A shift operator: the same angle bracket twice.
pub open spec fn lex_shift(s: Seq<char>) -> Lexed
    recommends
        s.len() > 0,
        s[0] == '<' || s[0] == '>',
{
    if s.len() > 1 && s[1] == s[0] {
        Lexed {
            token: Some(
                if s[0] == '<' {
                    Lexeme::LeftShift
                } else {
                    Lexeme::RightShift
                },
            ),
            consumed: 2,
        }
    } else {
        Lexed { token: None, consumed: 1 }
    }
}

/// An integer literal: digits, which are no token where the integer that
/// they write does not fit in an `i64`.
pub open spec fn lex_whole(s: Seq<char>) -> Lexed
    recommends
        s.len() > 0,
        is_digit(s[0]),
{
    let whole = digit_run(s);
    match narrowed(decimal_value(s.subrange(0, whole as int)) as int) {
        Some(v) => Lexed { token: Some(Lexeme::Num(Number::Integer(v))), consumed: whole },
        None => Lexed { token: None, consumed: whole },
    }
}

/// The first token of `s` in the integer dialect, which has no decimal
/// point, no constant and no unit, and has the bitwise operators.
#[verifier::opaque]
pub open spec fn lex_integer(s: Seq<char>) -> Lexed {
    if s.len() == 0 {
        Lexed { token: Some(Lexeme::Eof), consumed: 0 }
    } else if integer_symbol(s[0]) is Some {
        Lexed { token: integer_symbol(s[0]), consumed: 1 }
    } else if s[0] == '<' || s[0] == '>' {
        lex_shift(s)
    } else if superscript_value(s[0]) is Some {
        lex_superscript(s)
    } else if is_digit(s[0]) {
        lex_whole(s)
    } else {
        match integer_function_name(s) {
            Some((f, n)) => Lexed { token: Some(Lexeme::ExplicitFunction(f)), consumed: n },
            None => Lexed { token: None, consumed: 1 },
        }
    }
}

/// The first token of `s` in a dialect.
pub open spec fn lex_in(dialect: Dialect, s: Seq<char>) -> Lexed {
    match dialect {
        Dialect::Number => lex(s),
        Dialect::Integer => lex_integer(s),
    }
}

/// What is left of `s` after its first token in the number dialect.
pub open spec fn after_lex(s: Seq<char>) -> Seq<char> {
    s.skip(lex(s).consumed as int)
}

/// The value of a token that may be missing.
pub open spec fn token_view(t: Option<Token>) -> Option<Lexeme> {
    match t {
        Some(t) => Some(t@),
        None => None,
    }
}

/// A run of digits lies within the text, holds digits only and ends before a
/// character that is none.
pub proof fn lemma_digit_run_bound(s: Seq<char>)
    ensures
        digit_run(s) <= s.len(),
        forall|i: int| 0 <= i < digit_run(s) ==> is_digit(#[trigger] s[i]),
        digit_run(s) < s.len() ==> !is_digit(s[digit_run(s) as int]),
    decreases s.len(),
{
    if s.len() > 0 && is_digit(s[0]) {
        let t = s.skip(1);
        lemma_digit_run_bound(t);
        assert forall|i: int| 0 <= i < digit_run(s) implies is_digit(#[trigger] s[i]) by {
            if i > 0 {
                assert(s[i] == t[i - 1]);
            }
        }
        if digit_run(s) < s.len() {
            assert(s[digit_run(s) as int] == t[digit_run(t) as int]);
        }
    }
}

/// A run is as long as the digits that were counted when a character that is
/// no digit, or the end, comes after them.
pub proof fn lemma_digit_run_is(s: Seq<char>, n: nat)
    requires
        n <= s.len(),
        forall|i: int| 0 <= i < n ==> is_digit(#[trigger] s[i]),
        n < s.len() ==> !is_digit(s[n as int]),
    ensures
        digit_run(s) == n,
    decreases n,
{
    if n > 0 {
        let t = s.skip(1);
        assert forall|i: int| 0 <= i < n - 1 implies is_digit(#[trigger] t[i]) by {
            assert(t[i] == s[i + 1]);
        }
        if n < s.len() {
            assert(t[n - 1] == s[n as int]);
        }
        lemma_digit_run_is(t, (n - 1) as nat);
    }
}

/// The value of a digit sequence does not shrink when a digit is appended.
pub proof fn lemma_decimal_value_push(digits: Seq<char>, d: char)
    ensures
        decimal_value(digits.push(d)) == 10 * decimal_value(digits) + digit_value(d),
        decimal_value(digits.push(d)) >= decimal_value(digits),
{
    assert(digits.push(d).drop_last() =~= digits);
}

/// The digits of a superscript run are ASCII digits, one for each character.
pub proof fn lemma_superscript_digits_are_digits(s: Seq<char>, n: nat)
    requires
        n <= superscript_run(s),
    ensures
        superscript_digits(s, n).len() == n,
        forall|i: int| 0 <= i < n ==> is_digit(#[trigger] superscript_digits(s, n)[i]),
    decreases n,
{
    if n > 0 {
        lemma_superscript_run_bound(s);
        let t = s.skip(1);
        lemma_superscript_digits_are_digits(t, (n - 1) as nat);
        let head = superscript_value(s[0])->0;
        let rest = superscript_digits(t, (n - 1) as nat);
        assert(superscript_digits(s, n) =~= seq![head] + rest);
        assert forall|i: int| 0 <= i < n implies is_digit(
            #[trigger] superscript_digits(s, n)[i],
        ) by {
            if i > 0 {
                assert(superscript_digits(s, n)[i] == rest[i - 1]);
            }
        }
    }
}

/// A function name is not empty, and its parenthesis lies within the input.
pub proof fn lemma_function_name_length(s: Seq<char>)
    ensures
        match function_name(s) {
            Some((_, n)) => 1 <= n < s.len(),
            None => true,
        },
{
    reveal_strlit("arsinh");
    reveal_strlit("arcosh");
    reveal_strlit("artanh");
    reveal_strlit("atan2");
    reveal_strlit("asinh");
    reveal_strlit("acosh");
    reveal_strlit("atanh");
    reveal_strlit("asin");
    reveal_strlit("acos");
    reveal_strlit("atan");
    reveal_strlit("abs");
    reveal_strlit("avg");
    reveal_strlit("ceil");
    reveal_strlit("cosh");
    reveal_strlit("cos");
    reveal_strlit("floor");
    reveal_strlit("gcd");
    reveal_strlit("lcm");
    reveal_strlit("exp2");
    reveal_strlit("exp");
    reveal_strlit("ilog");
    reveal_strlit("lambert_w");
    reveal_strlit("log");
    reveal_strlit("ln");
    reveal_strlit("lb");
    reveal_strlit("median");
    reveal_strlit("min");
    reveal_strlit("max");
    reveal_strlit("mod");
    reveal_strlit("med");
    reveal_strlit("pow");
    reveal_strlit("round");
    reveal_strlit("root");
    reveal_strlit("signum");
    reveal_strlit("sinh");
    reveal_strlit("sqrt");
    reveal_strlit("sign");
    reveal_strlit("sin");
    reveal_strlit("sgn");
    reveal_strlit("truncate");
    reveal_strlit("trunc");
    reveal_strlit("tanh");
    reveal_strlit("tan");
    reveal_strlit("w");
}

/// At the end of the input stands `Eof`, which takes nothing.
pub proof fn lemma_lex_at_end(s: Seq<char>)
    requires
        s.len() == 0,
    ensures
        lex(s).token == Some(Lexeme::Eof),
        lex(s).consumed == 0,
{
    reveal(lex);
}

/// A token takes at least one character, and no more than there are, unless
/// the input is at its end.
pub proof fn lemma_lex_consumes(s: Seq<char>)
    requires
        s.len() > 0,
    ensures
        1 <= lex(s).consumed <= s.len(),
{
    reveal(lex);
    if symbol(s[0]) is Some {
    } else if s[0] == '.' {
        lemma_digit_run_bound(s.skip(1));
    } else if superscript_value(s[0]) is Some {
        lemma_superscript_run_bound(s);
    } else if is_digit(s[0]) {
        lemma_digit_run_bound(s);
        let whole = digit_run(s);
        if s.len() > whole && s[whole as int] == '.' {
            lemma_digit_run_bound(s.skip(whole as int + 1));
        }
    } else {
        lemma_function_name_length(s);
        reveal_strlit("pi");
        reveal_strlit("rad");
        reveal_strlit("e");
    }
}

/// A function name of the integer dialect is not empty, and its
/// parenthesis lies within the input.
pub proof fn lemma_integer_function_name_length(s: Seq<char>)
    ensures
        match integer_function_name(s) {
            Some((_, n)) => 1 <= n < s.len(),
            None => true,
        },
{
    reveal_strlit("abs");
    reveal_strlit("avg");
    reveal_strlit("exp");
    reveal_strlit("exp2");
    reveal_strlit("gcd");
    reveal_strlit("lb");
    reveal_strlit("lcm");
    reveal_strlit("ln");
    reveal_strlit("log");
    reveal_strlit("max");
    reveal_strlit("med");
    reveal_strlit("median");
    reveal_strlit("min");
    reveal_strlit("mod");
    reveal_strlit("pow");
    reveal_strlit("root");
    reveal_strlit("sgn");
    reveal_strlit("sign");
    reveal_strlit("signum");
    reveal_strlit("sqrt");
}

/// In either dialect a token takes at least one character, and no more than
/// there are, unless the input is at its end, where `Eof` stands.
pub proof fn lemma_lex_in_consumes(dialect: Dialect, s: Seq<char>)
    ensures
        s.len() > 0 ==> 1 <= lex_in(dialect, s).consumed <= s.len(),
        s.len() == 0 ==> lex_in(dialect, s).token == Some(Lexeme::Eof) && lex_in(
            dialect,
            s,
        ).consumed == 0,
{
    match dialect {
        Dialect::Number => {
            if s.len() > 0 {
                lemma_lex_consumes(s);
            } else {
                lemma_lex_at_end(s);
            }
        },
        Dialect::Integer => {
            reveal(lex_integer);
            if s.len() > 0 {
                if integer_symbol(s[0]) is Some {
                } else if s[0] == '<' || s[0] == '>' {
                } else if superscript_value(s[0]) is Some {
                    lemma_superscript_run_bound(s);
                } else if is_digit(s[0]) {
                    lemma_digit_run_bound(s);
                } else {
                    lemma_integer_function_name_length(s);
                }
            }
        },
    }
}

/// The lazily read characters of a formula.
pub struct Tokenizer {
    expr: Vec<char>,
    pos: usize,
    dialect: Dialect,
}

impl Tokenizer {
    #[verifier::type_invariant]
    spec fn in_bounds(&self) -> bool {
        self.pos <= self.expr.len()
    }

    /// The characters that have not been read yet.
    pub closed spec fn remaining(&self) -> Seq<char> {
        self.expr@.skip(self.pos as int)
    }

    /// The dialect that the tokenizer reads.
    pub closed spec fn language(&self) -> Dialect {
        self.dialect
    }

    /// The dialect that the tokenizer reads.
    pub fn dialect(&self) -> (dialect: Dialect)
        ensures
            dialect == self.language(),
    {
        self.dialect
    }

    /// A tokenizer of the integer dialect at the start of `new_expr`.
    pub fn integer(new_expr: &str) -> (tokenizer: Self)
        ensures
            tokenizer.remaining() == new_expr@,
            tokenizer.language() == Dialect::Integer,
    {
        let expr = crate::text::characters(new_expr);
        proof {
            assert(expr@.skip(0) =~= expr@);
        }
        Tokenizer { expr, pos: 0, dialect: Dialect::Integer }
    }

    /// A tokenizer of the number dialect at the start of `new_expr`.
    pub fn new(new_expr: &str) -> (tokenizer: Self)
        ensures
            tokenizer.remaining() == new_expr@,
            tokenizer.language() == Dialect::Number,
    {
        let expr = crate::text::characters(new_expr);
        proof {
            assert(expr@.skip(0) =~= expr@);
        }
        Tokenizer { expr, pos: 0, dialect: Dialect::Number }
    }

    /// Whether `word` stands at the current position.
    fn at_word(&self, word: &str) -> (r: Option<usize>)
        ensures
            r == (if has_prefix(self.remaining(), word@) {
                Some(word@.len() as usize)
            } else {
                None
            }),
            r is Some ==> self.pos + word@.len() <= self.expr.len(),
    {
        proof {
            use_type_invariant(self);
        }
        let n = word.unicode_len();
        if n > self.expr.len() - self.pos {
            return None;
        }
        let ghost s = self.remaining();
        let mut i: usize = 0;
        while i < n
            invariant
                i <= n,
                n == word@.len(),
                self.pos + n <= self.expr.len(),
                s == self.remaining(),
                s.subrange(0, i as int) == word@.subrange(0, i as int),
            decreases n - i,
        {
            if self.expr[self.pos + i] != word.get_char(i) {
                proof {
                    assert(s[i as int] == self.expr@[self.pos + i]);
                    assert(s.subrange(0, n as int)[i as int] != word@[i as int]);
                }
                return None;
            }
            proof {
                assert(s[i as int] == self.expr@[self.pos + i]);
                assert(s.subrange(0, i + 1) =~= s.subrange(0, i as int).push(s[i as int]));
                assert(word@.subrange(0, i + 1) =~= word@.subrange(0, i as int).push(
                    word@[i as int],
                ));
            }
            i = i + 1;
        }
        proof {
            assert(word@.subrange(0, n as int) =~= word@);
        }
        Some(n)
    }

    /// Whether `name` and an opening parenthesis stand at the current position.
    fn at_call(&self, name: &str) -> (r: Option<usize>)
        ensures
            r == (if calls(self.remaining(), name@) {
                Some(name@.len() as usize)
            } else {
                None
            }),
            r is Some ==> self.pos + name@.len() < self.expr.len(),
    {
        proof {
            use_type_invariant(self);
        }
        match self.at_word(name) {
            Some(n) => {
                if self.pos + n < self.expr.len() && self.expr[self.pos + n] == '(' {
                    proof {
                        assert(self.remaining()[n as int] == self.expr@[self.pos + n]);
                    }
                    Some(n)
                } else {
                    proof {
                        if self.pos + n < self.expr.len() {
                            assert(self.remaining()[n as int] == self.expr@[self.pos + n]);
                        }
                    }
                    None
                }
            },
            None => None,
        }
    }

    fn named_function(&self) -> (r: Option<(NativeFunction, usize)>)
        ensures
            match r {
                Some((f, n)) => function_name(self.remaining()) == Some((f, n as nat))
                    && self.pos + n < self.expr.len(),
                None => function_name(self.remaining()) is None,
            },
    {
        if let Some(n) = self.at_call("arsinh") {
            Some((NativeFunction::Arsinh, n))
        } else if let Some(n) = self.at_call("arcosh") {
            Some((NativeFunction::Arcosh, n))
        } else if let Some(n) = self.at_call("artanh") {
            Some((NativeFunction::Artanh, n))
        } else if let Some(n) = self.at_call("atan2") {
            Some((NativeFunction::Atan2, n))
        } else if let Some(n) = self.at_call("asinh") {
            Some((NativeFunction::Arsinh, n))
        } else if let Some(n) = self.at_call("acosh") {
            Some((NativeFunction::Arcosh, n))
        } else if let Some(n) = self.at_call("atanh") {
            Some((NativeFunction::Artanh, n))
        } else if let Some(n) = self.at_call("asin") {
            Some((NativeFunction::Asin, n))
        } else if let Some(n) = self.at_call("acos") {
            Some((NativeFunction::Acos, n))
        } else if let Some(n) = self.at_call("atan") {
            Some((NativeFunction::Atan, n))
        } else if let Some(n) = self.at_call("abs") {
            Some((NativeFunction::Abs, n))
        } else if let Some(n) = self.at_call("avg") {
            Some((NativeFunction::Avg, n))
        } else if let Some(n) = self.at_call("ceil") {
            Some((NativeFunction::Ceil, n))
        } else if let Some(n) = self.at_call("cosh") {
            Some((NativeFunction::Cosh, n))
        } else if let Some(n) = self.at_call("cos") {
            Some((NativeFunction::Cos, n))
        } else if let Some(n) = self.at_call("floor") {
            Some((NativeFunction::Floor, n))
        } else if let Some(n) = self.at_call("gcd") {
            Some((NativeFunction::Gcd, n))
        } else if let Some(n) = self.at_call("exp2") {
            Some((NativeFunction::Exp2, n))
        } else if let Some(n) = self.at_call("exp") {
            Some((NativeFunction::Exp, n))
        } else if let Some(n) = self.at_call("ilog") {
            Some((NativeFunction::ILog, n))
        } else if let Some(n) = self.at_call("lambert_w") {
            Some((NativeFunction::LambertW, n))
        } else if let Some(n) = self.at_call("log") {
            Some((NativeFunction::Log, n))
        } else if let Some(n) = self.at_call("lcm") {
            Some((NativeFunction::Lcm, n))
        } else if let Some(n) = self.at_call("ln") {
            Some((NativeFunction::Ln, n))
        } else if let Some(n) = self.at_call("lb") {
            Some((NativeFunction::Lb, n))
        } else if let Some(n) = self.at_call("median") {
            Some((NativeFunction::Med, n))
        } else if let Some(n) = self.at_call("min") {
            Some((NativeFunction::Min, n))
        } else if let Some(n) = self.at_call("max") {
            Some((NativeFunction::Max, n))
        } else if let Some(n) = self.at_call("mod") {
            Some((NativeFunction::Mod, n))
        } else if let Some(n) = self.at_call("med") {
            Some((NativeFunction::Med, n))
        } else if let Some(n) = self.at_call("pow") {
            Some((NativeFunction::Pow, n))
        } else if let Some(n) = self.at_call("round") {
            Some((NativeFunction::Round, n))
        } else if let Some(n) = self.at_call("root") {
            Some((NativeFunction::Root, n))
        } else if let Some(n) = self.at_call("signum") {
            Some((NativeFunction::Sign, n))
        } else if let Some(n) = self.at_call("sinh") {
            Some((NativeFunction::Sinh, n))
        } else if let Some(n) = self.at_call("sqrt") {
            Some((NativeFunction::Sqrt, n))
        } else if let Some(n) = self.at_call("sign") {
            Some((NativeFunction::Sign, n))
        } else if let Some(n) = self.at_call("sin") {
            Some((NativeFunction::Sin, n))
        } else if let Some(n) = self.at_call("sgn") {
            Some((NativeFunction::Sign, n))
        } else if let Some(n) = self.at_call("truncate") {
            Some((NativeFunction::Truncate, n))
        } else if let Some(n) = self.at_call("trunc") {
            Some((NativeFunction::Truncate, n))
        } else if let Some(n) = self.at_call("tanh") {
            Some((NativeFunction::Tanh, n))
        } else if let Some(n) = self.at_call("tan") {
            Some((NativeFunction::Tan, n))
        } else if let Some(n) = self.at_call("w") {
            Some((NativeFunction::LambertW, n))
        } else {
            None
        }
    }

    fn integer_named_function(&self) -> (r: Option<(NativeFunction, usize)>)
        ensures
            match r {
                Some((f, n)) => integer_function_name(self.remaining()) == Some((f, n as nat))
                    && self.pos + n < self.expr.len(),
                None => integer_function_name(self.remaining()) is None,
            },
    {
        if let Some(n) = self.at_call("abs") {
            Some((NativeFunction::Abs, n))
        } else if let Some(n) = self.at_call("avg") {
            Some((NativeFunction::Avg, n))
        } else if let Some(n) = self.at_call("exp2") {
            Some((NativeFunction::Exp2, n))
        } else if let Some(n) = self.at_call("exp") {
            Some((NativeFunction::Exp, n))
        } else if let Some(n) = self.at_call("gcd") {
            Some((NativeFunction::Gcd, n))
        } else if let Some(n) = self.at_call("log") {
            Some((NativeFunction::Log, n))
        } else if let Some(n) = self.at_call("lcm") {
            Some((NativeFunction::Lcm, n))
        } else if let Some(n) = self.at_call("ln") {
            Some((NativeFunction::Ln, n))
        } else if let Some(n) = self.at_call("lb") {
            Some((NativeFunction::Lb, n))
        } else if let Some(n) = self.at_call("median") {
            Some((NativeFunction::Med, n))
        } else if let Some(n) = self.at_call("min") {
            Some((NativeFunction::Min, n))
        } else if let Some(n) = self.at_call("max") {
            Some((NativeFunction::Max, n))
        } else if let Some(n) = self.at_call("mod") {
            Some((NativeFunction::Mod, n))
        } else if let Some(n) = self.at_call("med") {
            Some((NativeFunction::Med, n))
        } else if let Some(n) = self.at_call("pow") {
            Some((NativeFunction::Pow, n))
        } else if let Some(n) = self.at_call("root") {
            Some((NativeFunction::Root, n))
        } else if let Some(n) = self.at_call("signum") {
            Some((NativeFunction::Sign, n))
        } else if let Some(n) = self.at_call("sqrt") {
            Some((NativeFunction::Sqrt, n))
        } else if let Some(n) = self.at_call("sign") {
            Some((NativeFunction::Sign, n))
        } else if let Some(n) = self.at_call("sgn") {
            Some((NativeFunction::Sign, n))
        } else {
            None
        }
    }

    /// Number of digits from index `from` on.
    fn count_digits(&self, from: usize) -> (n: usize)
        requires
            from <= self.expr.len(),
        ensures
            n == digit_run(self.expr@.skip(from as int)),
            from + n <= self.expr.len(),
    {
        let mut end: usize = from;
        while end < self.expr.len() && is_ascii_digit(self.expr[end])
            invariant
                from <= end <= self.expr.len(),
                forall|i: int| from <= i < end ==> is_digit(#[trigger] self.expr@[i]),
            decreases self.expr.len() - end,
        {
            end = end + 1;
        }
        proof {
            let s = self.expr@.skip(from as int);
            assert forall|i: int| 0 <= i < end - from implies is_digit(#[trigger] s[i]) by {
                assert(s[i] == self.expr@[from + i]);
            }
            if end - from < s.len() {
                assert(s[end - from] == self.expr@[end as int]);
            }
            lemma_digit_run_is(s, (end - from) as nat);
        }
        end - from
    }

    /// The characters from `from` up to `to`, as a string.
    fn text(&self, from: usize, to: usize) -> (text: String)
        requires
            from <= to <= self.expr.len(),
        ensures
            text@ == self.expr@.subrange(from as int, to as int),
    {
        let mut text = String::new();
        let mut i: usize = from;
        proof {
            assert(text@ =~= self.expr@.subrange(from as int, i as int));
        }
        while i < to
            invariant
                from <= i <= to <= self.expr.len(),
                text@ == self.expr@.subrange(from as int, i as int),
            decreases to - i,
        {
            text.push(self.expr[i]);
            i = i + 1;
            proof {
                assert(text@ =~= self.expr@.subrange(from as int, i as int));
            }
        }
        text
    }

    /// The value of the digits from `from` up to `to`, where it fits.
    fn value(&self, from: usize, to: usize) -> (v: Option<i64>)
        requires
            from <= to <= self.expr.len(),
            forall|i: int| from <= i < to ==> is_digit(#[trigger] self.expr@[i]),
        ensures
            v == narrowed(decimal_value(self.expr@.subrange(from as int, to as int)) as int),
    {
        let mut acc: Option<i64> = Some(0);
        let mut i: usize = from;
        proof {
            assert(self.expr@.subrange(from as int, i as int) =~= Seq::<char>::empty());
        }
        while i < to
            invariant
                from <= i <= to <= self.expr.len(),
                forall|k: int| from <= k < to ==> is_digit(#[trigger] self.expr@[k]),
                acc == narrowed(decimal_value(self.expr@.subrange(from as int, i as int)) as int),
            decreases to - i,
        {
            let c = self.expr[i];
            proof {
                let before = self.expr@.subrange(from as int, i as int);
                assert(self.expr@.subrange(from as int, i + 1) =~= before.push(c));
                lemma_decimal_value_push(before, c);
            }
            acc = push_digit(acc, c);
            i = i + 1;
        }
        acc
    }

    fn fraction(&mut self) -> (token: Option<Token>)
        requires
            old(self).remaining().len() > 0,
            old(self).remaining()[0] == '.',
        ensures
            token_view(token) == lex_fraction(old(self).remaining()).token,
            final(self).remaining() == old(self).remaining().skip(
                lex_fraction(old(self).remaining()).consumed as int,
            ),
            final(self).language() == old(self).language(),
    {
        proof {
            use_type_invariant(&*self);
        }
        let ghost s = self.remaining();
        let start = self.pos;
        proof {
            assert(s.len() == self.expr.len() - start);
            if s.len() > 1 {
                assert(s[1] == self.expr@[start + 1]);
            }
        }
        if start + 1 < self.expr.len() && is_ascii_digit(self.expr[start + 1]) {
            let n = self.count_digits(start + 1);
            let mut text = String::new();
            text.push('0');
            text.push('.');
            let digits = self.text(start + 1, start + 1 + n);
            text.append(digits.as_str());
            self.pos = start + 1 + n;
            proof {
                assert(s.skip(1) =~= self.expr@.skip(start + 1));
                assert(s.subrange(1, 1 + n) =~= self.expr@.subrange(start + 1, start + 1 + n));
                assert(text@ =~= seq!['0', '.'] + s.subrange(1, 1 + n));
                assert(self.expr@.skip(start + 1 + n) =~= s.skip(1 + n));
            }
            Some(Token::Decimal(text))
        } else {
            self.pos = start + 1;
            proof {
                assert(self.expr@.skip(start + 1) =~= s.skip(1));
            }
            None
        }
    }

    fn number(&mut self) -> (token: Option<Token>)
        requires
            old(self).remaining().len() > 0,
            is_digit(old(self).remaining()[0]),
        ensures
            token_view(token) == lex_number(old(self).remaining()).token,
            final(self).remaining() == old(self).remaining().skip(
                lex_number(old(self).remaining()).consumed as int,
            ),
            final(self).language() == old(self).language(),
    {
        proof {
            use_type_invariant(&*self);
        }
        let ghost s = self.remaining();
        let start = self.pos;
        let whole = self.count_digits(start);
        let end = start + whole;
        proof {
            lemma_digit_run_bound(s);
            assert(s.len() == self.expr.len() - start);
            if s.len() > whole {
                assert(s[whole as int] == self.expr@[end as int]);
            }
            assert forall|i: int| start <= i < end implies is_digit(#[trigger] self.expr@[i]) by {
                assert(self.expr@[i] == s[i - start]);
            }
            assert(s.subrange(0, whole as int) =~= self.expr@.subrange(start as int, end as int));
        }
        if end < self.expr.len() && self.expr[end] == '.' {
            let frac = self.count_digits(end + 1);
            let text = self.text(start, end + 1 + frac);
            self.pos = end + 1 + frac;
            proof {
                assert(s.skip(whole + 1) =~= self.expr@.skip(end + 1));
                assert(s.subrange(0, whole + 1 + frac) =~= self.expr@.subrange(
                    start as int,
                    end + 1 + frac,
                ));
                assert(self.expr@.skip(end + 1 + frac) =~= s.skip(whole + 1 + frac));
            }
            Some(Token::Decimal(text))
        } else {
            let value = self.value(start, end);
            let token = match value {
                Some(v) => Token::Num(Number::Integer(v)),
                None => Token::Decimal(self.text(start, end)),
            };
            self.pos = end;
            proof {
                assert(self.expr@.skip(end as int) =~= s.skip(whole as int));
            }
            Some(token)
        }
    }

    fn superscript(&mut self) -> (token: Option<Token>)
        requires
            old(self).remaining().len() > 0,
            superscript_value(old(self).remaining()[0]) is Some,
        ensures
            token_view(token) == lex_superscript(old(self).remaining()).token,
            final(self).remaining() == old(self).remaining().skip(
                lex_superscript(old(self).remaining()).consumed as int,
            ),
            final(self).language() == old(self).language(),
    {
        proof {
            use_type_invariant(&*self);
        }
        let ghost s = self.remaining();
        let start = self.pos;
        let current_char = self.expr[start];
        let mut next = start + 1;
        let number = deserialize_superscript_number(&current_char, &self.expr, &mut next);
        self.pos = next;
        proof {
            let run = superscript_run(s);
            assert(s[0] == current_char);
            assert(s.skip(1) =~= self.expr@.skip(start + 1));
            assert(run == 1 + superscript_run(s.skip(1)));
            assert(superscript_digits(s, run) =~= superscript_head(current_char)
                + superscript_digits(s.skip(1), (run - 1) as nat));
            lemma_superscript_digits_are_digits(s, run);
            assert(self.expr@.skip(next as int) =~= s.skip(run as int));
        }
        match digits_value(number.as_str()) {
            Some(v) => Some(Token::Superscript(Number::Integer(v))),
            None => None,
        }
    }

    fn word(&mut self) -> (token: Option<Token>)
        requires
            old(self).remaining().len() > 0,
        ensures
            token_view(token) == lex_word(old(self).remaining()).token,
            final(self).remaining() == old(self).remaining().skip(
                lex_word(old(self).remaining()).consumed as int,
            ),
            final(self).language() == old(self).language(),
    {
        proof {
            use_type_invariant(&*self);
        }
        let ghost s = self.remaining();
        let start = self.pos;
        assert(s.len() == self.expr.len() - start);
        let (token, n) = match self.named_function() {
            Some((f, n)) => (Some(Token::ExplicitFunction(f)), n),
            None => {
                if let Some(n) = self.at_word("pi") {
                    (Some(Token::Pi), n)
                } else if let Some(n) = self.at_word("rad") {
                    (Some(Token::RadToDeg), n)
                } else if let Some(n) = self.at_word("e") {
                    (Some(Token::E), n)
                } else {
                    (None, 1)
                }
            },
        };
        self.pos = start + n;
        proof {
            assert(self.expr@.skip(start + n) =~= s.skip(n as int));
        }
        token
    }

    fn shift(&mut self) -> (token: Option<Token>)
        requires
            old(self).remaining().len() > 0,
            old(self).remaining()[0] == '<' || old(self).remaining()[0] == '>',
        ensures
            token_view(token) == lex_shift(old(self).remaining()).token,
            final(self).remaining() == old(self).remaining().skip(
                lex_shift(old(self).remaining()).consumed as int,
            ),
            final(self).language() == old(self).language(),
    {
        proof {
            use_type_invariant(&*self);
        }
        let ghost s = self.remaining();
        let start = self.pos;
        let c = self.expr[start];
        proof {
            assert(s[0] == c);
            assert(s.len() == self.expr.len() - start);
            if s.len() > 1 {
                assert(s[1] == self.expr@[start + 1]);
            }
        }
        if start + 1 < self.expr.len() && self.expr[start + 1] == c {
            self.pos = start + 2;
            proof {
                assert(self.expr@.skip(start + 2) =~= s.skip(2));
            }
            if c == '<' {
                Some(Token::LeftShift)
            } else {
                Some(Token::RightShift)
            }
        } else {
            self.pos = start + 1;
            proof {
                assert(self.expr@.skip(start + 1) =~= s.skip(1));
            }
            None
        }
    }

    fn whole(&mut self) -> (token: Option<Token>)
        requires
            old(self).remaining().len() > 0,
            is_digit(old(self).remaining()[0]),
        ensures
            token_view(token) == lex_whole(old(self).remaining()).token,
            final(self).remaining() == old(self).remaining().skip(
                lex_whole(old(self).remaining()).consumed as int,
            ),
            final(self).language() == old(self).language(),
    {
        proof {
            use_type_invariant(&*self);
        }
        let ghost s = self.remaining();
        let start = self.pos;
        let whole = self.count_digits(start);
        let end = start + whole;
        proof {
            lemma_digit_run_bound(s);
            assert forall|i: int| start <= i < end implies is_digit(#[trigger] self.expr@[i]) by {
                assert(self.expr@[i] == s[i - start]);
            }
            assert(s.subrange(0, whole as int) =~= self.expr@.subrange(start as int, end as int));
        }
        let value = self.value(start, end);
        self.pos = end;
        proof {
            assert(self.expr@.skip(end as int) =~= s.skip(whole as int));
        }
        match value {
            Some(v) => Some(Token::Num(Number::Integer(v))),
            None => None,
        }
    }

    fn integer_word(&mut self) -> (token: Option<Token>)
        requires
            old(self).remaining().len() > 0,
        ensures
            token_view(token) == (match integer_function_name(old(self).remaining()) {
                Some((f, _)) => Some(Lexeme::ExplicitFunction(f)),
                None => None,
            }),
            final(self).remaining() == old(self).remaining().skip(
                match integer_function_name(old(self).remaining()) {
                    Some((_, n)) => n as int,
                    None => 1,
                },
            ),
            final(self).language() == old(self).language(),
    {
        proof {
            use_type_invariant(&*self);
        }
        let ghost s = self.remaining();
        let start = self.pos;
        assert(s.len() == self.expr.len() - start);
        let (token, n) = match self.integer_named_function() {
            Some((f, n)) => (Some(Token::ExplicitFunction(f)), n),
            None => (None, 1),
        };
        self.pos = start + n;
        proof {
            assert(self.expr@.skip(start + n) =~= s.skip(n as int));
        }
        token
    }

    /// Reads the next token of the integer dialect.
    fn next_integer(&mut self) -> (token: Option<Token>)
        ensures
            token_view(token) == lex_integer(old(self).remaining()).token,
            final(self).remaining() == old(self).remaining().skip(
                lex_integer(old(self).remaining()).consumed as int,
            ),
            final(self).language() == old(self).language(),
    {
        proof {
            use_type_invariant(&*self);
            reveal(lex_integer);
        }
        let ghost s = self.remaining();
        if self.pos >= self.expr.len() {
            proof {
                assert(s.skip(0) =~= s);
            }
            return Some(Token::Eof);
        }
        let c = self.expr[self.pos];
        assert(s[0] == c);
        match integer_symbol_token(c) {
            Some(t) => {
                self.pos = self.pos + 1;
                proof {
                    assert(self.expr@.skip(self.pos as int) =~= s.skip(1));
                }
                Some(t)
            },
            None => {
                if c == '<' || c == '>' {
                    self.shift()
                } else if superscript_digit(c) {
                    self.superscript()
                } else if is_ascii_digit(c) {
                    self.whole()
                } else {
                    self.integer_word()
                }
            },
        }
    }

    /// Reads the next token of the number dialect.
    fn next_number(&mut self) -> (token: Option<Token>)
        ensures
            token_view(token) == lex(old(self).remaining()).token,
            final(self).remaining() == after_lex(old(self).remaining()),
            final(self).language() == old(self).language(),
    {
        proof {
            use_type_invariant(&*self);
            reveal(lex);
        }
        let ghost s = self.remaining();
        if self.pos >= self.expr.len() {
            proof {
                assert(s.skip(0) =~= s);
            }
            return Some(Token::Eof);
        }
        let c = self.expr[self.pos];
        assert(s[0] == c);
        match symbol_token(c) {
            Some(t) => {
                self.pos = self.pos + 1;
                proof {
                    assert(self.expr@.skip(self.pos as int) =~= s.skip(1));
                }
                Some(t)
            },
            None => {
                if c == '.' {
                    self.fraction()
                } else if superscript_digit(c) {
                    self.superscript()
                } else if is_ascii_digit(c) {
                    self.number()
                } else {
                    self.word()
                }
            },
        }
    }

    /// Reads the next token. At the end of the input it is `Eof`, again and
    /// again. `None` says that no token starts at the current position.
    pub fn next(&mut self) -> (token: Option<Token>)
        ensures
            token_view(token) == lex_in(old(self).language(), old(self).remaining()).token,
            final(self).remaining() == old(self).remaining().skip(
                lex_in(old(self).language(), old(self).remaining()).consumed as int,
            ),
            final(self).language() == old(self).language(),
    {
        match self.dialect {
            Dialect::Number => self.next_number(),
            Dialect::Integer => self.next_integer(),
        }
    }
}

fn is_ascii_digit(c: char) -> (r: bool)
    ensures
        r == is_digit(c),
{
    '0' <= c && c <= '9'
}

fn superscript_digit(c: char) -> (r: bool)
    ensures
        r == (superscript_value(c) is Some),
{
    crate::utils::superscript_digit_to_digit(&c).is_some()
}

fn integer_symbol_token(c: char) -> (t: Option<Token>)
    ensures
        token_view(t) == integer_symbol(c),
{
    match c {
        '@' => Some(Token::Ans),
        '+' => Some(Token::Add),
        '-' => Some(Token::Subtract),
        '*' => Some(Token::Multiply),
        '/' => Some(Token::Divide),
        '^' => Some(Token::Caret),
        '(' => Some(Token::LeftParen),
        ')' => Some(Token::RightParen),
        '!' => Some(Token::ExclamationMark),
        '&' => Some(Token::Ampersand),
        '|' => Some(Token::Bar),
        ',' => Some(Token::Comma),
        '%' => Some(Token::Modulo),
        _ => None,
    }
}

fn symbol_token(c: char) -> (t: Option<Token>)
    ensures
        token_view(t) == symbol(c),
{
    match c {
        '@' => Some(Token::Ans),
        '+' => Some(Token::Add),
        '-' => Some(Token::Subtract),
        '*' => Some(Token::Multiply),
        '/' => Some(Token::Divide),
        '^' => Some(Token::Caret),
        '(' => Some(Token::LeftParen),
        ')' => Some(Token::RightParen),
        '!' => Some(Token::ExclamationMark),
        ',' => Some(Token::Comma),
        '%' => Some(Token::Modulo),
        'π' => Some(Token::Pi),
        '⌊' => Some(Token::LeftFloor),
        '⌋' => Some(Token::RightFloor),
        '⌈' => Some(Token::LeftCeiling),
        '⌉' => Some(Token::RightCeiling),
        '|' => Some(Token::AbsoluteBar),
        '°' => Some(Token::DegToRad),
        _ => None,
    }
}

/// Appends the digit `c` to the number `acc`, which is `None` once it has
/// left the range of `i64`.
fn push_digit(acc: Option<i64>, c: char) -> (r: Option<i64>)
    requires
        is_digit(c),
        acc is Some ==> acc->0 >= 0,
    ensures
        r is Some ==> r->0 >= 0,
        r == match acc {
            Some(a) => narrowed(10 * a + digit_value(c)),
            None => None,
        },
{
    let d: i64 = (c as u32 - '0' as u32) as i64;
    match acc {
        Some(a) => match a.checked_mul(10) {
            Some(t) => t.checked_add(d),
            None => None,
        },
        None => None,
    }
}

/// The value of a string of digits, where it fits in an `i64`.
fn digits_value(digits: &str) -> (v: Option<i64>)
    requires
        forall|i: int| 0 <= i < digits@.len() ==> is_digit(#[trigger] digits@[i]),
    ensures
        v == narrowed(decimal_value(digits@) as int),
{
    let len = digits.unicode_len();
    let mut acc: Option<i64> = Some(0);
    let mut i: usize = 0;
    proof {
        assert(digits@.subrange(0, 0) =~= Seq::<char>::empty());
    }
    while i < len
        invariant
            i <= len,
            len == digits@.len(),
            forall|k: int| 0 <= k < digits@.len() ==> is_digit(#[trigger] digits@[k]),
            acc is Some ==> acc->0 >= 0,
            acc == narrowed(decimal_value(digits@.subrange(0, i as int)) as int),
        decreases len - i,
    {
        let c = digits.get_char(i);
        proof {
            let before = digits@.subrange(0, i as int);
            assert(digits@.subrange(0, i + 1) =~= before.push(c));
            lemma_decimal_value_push(before, c);
        }
        acc = push_digit(acc, c);
        i = i + 1;
    }
    proof {
        assert(digits@.subrange(0, len as int) =~= digits@);
    }
    acc
}

} // verus!
