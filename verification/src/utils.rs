//! Shared vocabulary of the pipeline: the error type, the precedence classes
//! and the decoding of superscript digits.
use vstd::prelude::*;
use vstd::string::StringExecFns;

verus! {

/// Why a formula could not be turned into a number.
#[derive(Debug)]
pub enum ParseError {
    /// The formula is lexically fine but has no value: a primary was expected
    /// and not found, a reducer got no argument, or evaluation left the domain
    /// of a function.
    UnableToParse(String),
    /// A character that starts no token, or a token where another was expected.
    InvalidOperator(String),
}

/// The two kinds of `ParseError`, without their messages.
#[derive(Clone, Copy, Debug, PartialEq, Eq, Structural)]
pub enum ErrorKind {
    UnableToParse,
    InvalidOperator,
}

impl ParseError {
    /// The kind of the error.
    pub open spec fn kind(&self) -> ErrorKind {
        match self {
            ParseError::UnableToParse(_) => ErrorKind::UnableToParse,
            ParseError::InvalidOperator(_) => ErrorKind::InvalidOperator,
        }
    }

    /// The message carried by the error.
    pub open spec fn detail(&self) -> Seq<char> {
        match self {
            ParseError::UnableToParse(m) => m@,
            ParseError::InvalidOperator(m) => m@,
        }
    }

    /// The parse error that a failed evaluation is reported as.
    pub fn from_eval(error: crate::number::EvalError) -> (r: ParseError)
        ensures
            r.kind() == ErrorKind::UnableToParse,
            r.detail() == "Unable to parse"@,
    {
        ParseError::UnableToParse("Unable to parse".to_string())
    }

    /// The text shown to a user: a fixed prefix followed by the message.
    pub fn message(&self) -> (text: String)
        ensures
            text@ == "Error in evaluating "@ + self.detail(),
    {
        let head = String::from_str("Error in evaluating ");
        match self {
            ParseError::UnableToParse(m) => head.concat(m.as_str()),
            ParseError::InvalidOperator(m) => head.concat(m.as_str()),
        }
    }
}

/// Binding strength of an operator token, weakest first. The three classes
/// of the bitwise operators belong to the integer dialect.
#[derive(Clone, Copy, Debug, PartialEq, Eq, PartialOrd, Structural)]
pub enum OperatorCategory {
    DefaultZero,
    BitwiseOr,
    BitwiseAnd,
    Shift,
    Additive,
    Multiplicative,
    Power,
    Negative,
    Functional,
}

impl OperatorCategory {
    /// Position in the order of binding strength.
    pub open spec fn rank(self) -> nat {
        match self {
            OperatorCategory::DefaultZero => 0,
            OperatorCategory::BitwiseOr => 1,
            OperatorCategory::BitwiseAnd => 2,
            OperatorCategory::Shift => 3,
            OperatorCategory::Additive => 4,
            OperatorCategory::Multiplicative => 5,
            OperatorCategory::Power => 6,
            OperatorCategory::Negative => 7,
            OperatorCategory::Functional => 8,
        }
    }

    /// Position in the order of binding strength.
    pub fn level(self) -> (r: u8)
        ensures
            r == self.rank(),
    {
        match self {
            OperatorCategory::DefaultZero => 0,
            OperatorCategory::BitwiseOr => 1,
            OperatorCategory::BitwiseAnd => 2,
            OperatorCategory::Shift => 3,
            OperatorCategory::Additive => 4,
            OperatorCategory::Multiplicative => 5,
            OperatorCategory::Power => 6,
            OperatorCategory::Negative => 7,
            OperatorCategory::Functional => 8,
        }
    }

    /// `self < other` in the order of binding strength.
    pub fn weaker_than(self, other: OperatorCategory) -> (r: bool)
        ensures
            r == (self.rank() < other.rank()),
    {
        self.level() < other.level()
    }
}

/// The ASCII digit that a superscript digit stands for.
pub open spec fn superscript_value(c: char) -> Option<char> {
    if c == '⁰' {
        Some('0')
    } else if c == '¹' {
        Some('1')
    } else if c == '²' {
        Some('2')
    } else if c == '³' {
        Some('3')
    } else if c == '⁴' {
        Some('4')
    } else if c == '⁵' {
        Some('5')
    } else if c == '⁶' {
        Some('6')
    } else if c == '⁷' {
        Some('7')
    } else if c == '⁸' {
        Some('8')
    } else if c == '⁹' {
        Some('9')
    } else {
        None
    }
}

/// The ASCII digit that a superscript digit stands for; `None` for any
/// other character.
pub fn superscript_digit_to_digit(current_char: &char) -> (digit: Option<char>)
    ensures
        digit == superscript_value(*current_char),
{
    match *current_char {
        '⁰' => Some('0'),
        '¹' => Some('1'),
        '²' => Some('2'),
        '³' => Some('3'),
        '⁴' => Some('4'),
        '⁵' => Some('5'),
        '⁶' => Some('6'),
        '⁷' => Some('7'),
        '⁸' => Some('8'),
        '⁹' => Some('9'),
        _ => None,
    }
}

/// Number of superscript digits at the front of `s`.
pub open spec fn superscript_run(s: Seq<char>) -> nat
    decreases s.len(),
{
    if s.len() > 0 && superscript_value(s[0]) is Some {
        1 + superscript_run(s.skip(1))
    } else {
        0
    }
}

/// The ASCII digits that the first `n` characters of `s` stand for.
pub open spec fn superscript_digits(s: Seq<char>, n: nat) -> Seq<char>
    recommends
        n <= superscript_run(s),
    decreases n,
{
    if n == 0 || s.len() == 0 {
        Seq::empty()
    } else {
        match superscript_value(s[0]) {
            Some(d) => seq![d] + superscript_digits(s.skip(1), (n - 1) as nat),
            None => Seq::empty(),
        }
    }
}

/// What `current_char` contributes to a superscript number: its digit, or
/// nothing when it is no superscript digit.
pub open spec fn superscript_head(c: char) -> Seq<char> {
    match superscript_value(c) {
        Some(d) => seq![d],
        None => Seq::empty(),
    }
}

/// A run of superscript digits lies within the text.
pub proof fn lemma_superscript_run_bound(s: Seq<char>)
    ensures
        superscript_run(s) <= s.len(),
    decreases s.len(),
{
    if s.len() > 0 && superscript_value(s[0]) is Some {
        lemma_superscript_run_bound(s.skip(1));
    }
}

/// `String::push` of the standard library, which is documented to append
/// the given character to the end of the string: nothing else changes.
pub assume_specification[ String::push ](s: &mut String, c: char)
    ensures
        final(s)@ == old(s)@.push(c),
;

/// Decodes a run of superscript digits: `current_char` has been read already,
/// and the run goes on in `expr` from `*pos`. The digits come back as ASCII,
/// and `*pos` moves past the run.
pub fn deserialize_superscript_number(current_char: &char, expr: &Vec<char>, pos: &mut usize) -> (number:
    String)
    requires
        *old(pos) <= expr.len(),
    ensures
        *final(pos) == *old(pos) + superscript_run(expr@.skip(*old(pos) as int)),
        *final(pos) <= expr.len(),
        number@ == superscript_head(*current_char) + superscript_digits(
            expr@.skip(*old(pos) as int),
            superscript_run(expr@.skip(*old(pos) as int)),
        ),
{
    let mut number = String::new();
    if let Some(d) = superscript_digit_to_digit(current_char) {
        number.push(d);
    }
    let start: usize = *pos;
    let ghost tail = expr@.skip(start as int);
    proof {
        lemma_superscript_run_bound(tail);
        assert(number@ =~= superscript_head(*current_char));
    }
    while *pos < expr.len()
        invariant
            start == *old(pos),
            start <= *pos <= expr.len(),
            tail == expr@.skip(start as int),
            (*pos - start) as nat <= superscript_run(tail),
            superscript_run(tail) == (*pos - start) as nat + superscript_run(
                expr@.skip(*pos as int),
            ),
            number@ == superscript_head(*current_char) + superscript_digits(
                tail,
                (*pos - start) as nat,
            ),
        decreases expr.len() - *pos,
    {
        let ghost here = expr@.skip(*pos as int);
        proof {
            assert(here.len() > 0);
            assert(here[0] == expr@[*pos as int]);
            assert(here.skip(1) =~= expr@.skip(*pos + 1));
        }
        match superscript_digit_to_digit(&expr[*pos]) {
            Some(d) => {
                proof {
                    lemma_superscript_digits_push(tail, (*pos - start) as nat);
                    assert(tail[*pos - start] == expr@[*pos as int]);
                }
                number.push(d);
                *pos = *pos + 1;
            },
            None => {
                proof {
                    assert(superscript_run(here) == 0);
                }
                return number;
            },
        }
    }
    proof {
        assert(expr@.skip(*pos as int).len() == 0);
    }
    number
}

/// Taking one more digit of a run appends its value.
pub proof fn lemma_superscript_digits_push(s: Seq<char>, n: nat)
    requires
        n < s.len(),
        n < superscript_run(s) || (n == superscript_run(s) && superscript_value(s[n as int]) is Some),
        superscript_value(s[n as int]) is Some,
    ensures
        superscript_digits(s, n + 1) == superscript_digits(s, n).push(
            superscript_value(s[n as int])->0,
        ),
    decreases n,
{
    if n == 0 {
        assert(superscript_digits(s.skip(1), 0) =~= Seq::<char>::empty());
        assert(superscript_digits(s, 1) =~= seq![superscript_value(s[0])->0]);
        assert(superscript_digits(s, 0).push(superscript_value(s[0])->0) =~= seq![
            superscript_value(s[0])->0,
        ]);
    } else {
        // the first n characters are superscript digits
        lemma_superscript_run_prefix(s, n);
        assert(superscript_value(s[0]) is Some);
        let t = s.skip(1);
        assert(t[(n - 1) as int] == s[n as int]);
        lemma_superscript_run_prefix_rest(s, n);
        lemma_superscript_digits_push(t, (n - 1) as nat);
        assert(superscript_digits(s, n + 1) =~= seq![superscript_value(s[0])->0]
            + superscript_digits(t, n));
        assert(superscript_digits(s, n) =~= seq![superscript_value(s[0])->0] + superscript_digits(
            t,
            (n - 1) as nat,
        ));
    }
}

/// A run of at least one character starts with a superscript digit.
pub proof fn lemma_superscript_run_prefix(s: Seq<char>, n: nat)
    requires
        0 < n <= superscript_run(s),
    ensures
        s.len() > 0,
        superscript_value(s[0]) is Some,
{
}

/// Dropping the first character of a run shortens it by one.
pub proof fn lemma_superscript_run_prefix_rest(s: Seq<char>, n: nat)
    requires
        0 < n <= superscript_run(s),
    ensures
        superscript_run(s.skip(1)) == superscript_run(s) - 1,
{
}

} // verus!
