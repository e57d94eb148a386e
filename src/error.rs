//! The error families of the pipeline. Each carries the line (from 1) and
//! the column (from 0) where the failure was found.

use vstd::prelude::*;
use crate::text::{decimal, push_char, push_decimal, push_text};

verus! {

#[derive(Debug, Clone, Copy, PartialEq, Eq, Structural)]
pub enum LexerError {
    /// A character that starts no token.
    InvalidCharacter(char, usize, usize),
    /// A malformed or out-of-range numeric literal.
    InvalidNumber(usize, usize),
    /// A numeric literal directly followed by a letter or `_` (`2x`).
    InvalidIdentifierStart(usize, usize),
}

#[derive(Debug, Clone, Copy, PartialEq, Eq, Structural)]
pub enum ParserError {
    UnexpectedToken(usize, usize),
    MissingLParen(usize, usize),
    MissingRParen(usize, usize),
    MissingOperator(usize, usize),
}

#[derive(Debug, Clone, Copy, PartialEq, Eq, Structural)]
pub enum EvaluationError {
    UnsupportedBinaryOperator(usize, usize),
    UnsupportedUnaryOperator(usize, usize),
    DivisionByZero(usize, usize),
    IntegerOperatorWithFloatOperands(usize, usize),
    UnsupportedFunction(usize, usize),
    InvalidConstant(usize, usize),
    InvalidMantissa(usize, usize),
}

#[derive(Debug, Clone, Copy, PartialEq, Eq, Structural)]
pub enum RootFinderError {
    InvalidInterval,
    NoRootInInterval,
    MaxIterationsReached,
}

#[derive(Debug, Clone, Copy, PartialEq, Eq, Structural)]
pub enum PlottingError {
    FileCreationError,
    GenericError,
}

#[derive(Debug, Clone, Copy, PartialEq, Eq, Structural)]
pub enum CompilerError {
    Lex(LexerError),
    Parse(ParserError),
    Eval(EvaluationError),
    Root(RootFinderError),
    Plot(PlottingError),
}

/// `" at line L, column C."`
pub open spec fn position_text(line: usize, column: usize) -> Seq<char> {
    " at line "@ + decimal(line as nat) + ", column "@ + decimal(column as nat) + "."@
}

/// `head` followed by the position.
fn located(head: &str, line: usize, column: usize) -> (r: String)
    ensures
        r@ == head@ + position_text(line, column),
{
    let mut s = String::new();
    push_text(&mut s, head);
    push_text(&mut s, " at line ");
    push_decimal(&mut s, line as u64);
    push_text(&mut s, ", column ");
    push_decimal(&mut s, column as u64);
    push_text(&mut s, ".");
    assert(s@ =~= head@ + position_text(line, column));
    s
}

pub open spec fn lexer_message(e: LexerError) -> Seq<char> {
    match e {
        LexerError::InvalidCharacter(c, l, col) => "Syntax Error: Invalid character '"@ + seq![c]
            + "'"@ + position_text(l, col),
        LexerError::InvalidNumber(l, col) => "Syntax Error: Invalid number"@ + position_text(
            l,
            col,
        ),
        LexerError::InvalidIdentifierStart(l, col) =>
            "Syntax Error: Identifier cannot start with a number"@ + position_text(l, col),
    }
}

pub open spec fn parser_message(e: ParserError) -> Seq<char> {
    match e {
        ParserError::UnexpectedToken(l, c) => "Syntax Error: Unexpected token"@ + position_text(
            l,
            c,
        ),
        ParserError::MissingLParen(l, c) => "Syntax Error: Missing '('"@ + position_text(l, c),
        ParserError::MissingRParen(l, c) => "Syntax Error: Missing ')'"@ + position_text(l, c),
        ParserError::MissingOperator(l, c) => "Syntax Error: Missing operator"@ + position_text(
            l,
            c,
        ),
    }
}

pub open spec fn evaluation_message(e: EvaluationError) -> Seq<char> {
    match e {
        EvaluationError::UnsupportedBinaryOperator(l, c) =>
            "Runtime Error: Unsupported binary operator"@ + position_text(l, c),
        EvaluationError::UnsupportedUnaryOperator(l, c) =>
            "Runtime Error: Unsupported unary operator"@ + position_text(l, c),
        EvaluationError::DivisionByZero(l, c) => "Runtime Error: Division by zero"@
            + position_text(l, c),
        EvaluationError::IntegerOperatorWithFloatOperands(l, c) =>
            "Runtime Error: Integer operator used with float operands"@ + position_text(l, c),
        EvaluationError::UnsupportedFunction(l, c) => "Runtime Error: Unsupported function"@
            + position_text(l, c),
        EvaluationError::InvalidConstant(l, c) => "Runtime Error: Invalid constant"@
            + position_text(l, c),
        EvaluationError::InvalidMantissa(l, c) => "Runtime Error: Invalid mantissa"@
            + position_text(l, c),
    }
}

pub open spec fn root_finder_message(e: RootFinderError) -> Seq<char> {
    match e {
        RootFinderError::InvalidInterval =>
            "Invalid interval: The interval provided is not valid."@,
        RootFinderError::NoRootInInterval =>
            "No root in interval: The function does not have a root in the specified interval."@,
        RootFinderError::MaxIterationsReached =>
            "Maximum iterations reached: The root-finding algorithm did not converge within the maximum allowed iterations."@,
    }
}

pub open spec fn plotting_message(e: PlottingError) -> Seq<char> {
    match e {
        PlottingError::FileCreationError =>
            "File creation error: Failed to create or write to the specified file."@,
        PlottingError::GenericError =>
            "Generic plotting error: An unspecified error occurred during the plotting process."@,
    }
}

pub open spec fn compiler_message(e: CompilerError) -> Seq<char> {
    match e {
        CompilerError::Lex(e) => lexer_message(e),
        CompilerError::Parse(e) => parser_message(e),
        CompilerError::Eval(e) => evaluation_message(e),
        CompilerError::Root(e) => root_finder_message(e),
        CompilerError::Plot(e) => plotting_message(e),
    }
}

impl LexerError {
    /// The error as one line of text.
    pub fn message(&self) -> (r: String)
        ensures
            r@ == lexer_message(*self),
    {
        match *self {
            LexerError::InvalidCharacter(c, l, col) => {
                let mut s = String::new();
                push_text(&mut s, "Syntax Error: Invalid character '");
                push_char(&mut s, c);
                let rest = located("'", l, col);
                push_text(&mut s, rest.as_str());
                assert(s@ =~= lexer_message(*self));
                s
            },
            LexerError::InvalidNumber(l, col) => located("Syntax Error: Invalid number", l, col),
            LexerError::InvalidIdentifierStart(l, col) => located(
                "Syntax Error: Identifier cannot start with a number",
                l,
                col,
            ),
        }
    }
}

impl ParserError {
    /// The error as one line of text.
    pub fn message(&self) -> (r: String)
        ensures
            r@ == parser_message(*self),
    {
        match *self {
            ParserError::UnexpectedToken(l, c) => located("Syntax Error: Unexpected token", l, c),
            ParserError::MissingLParen(l, c) => located("Syntax Error: Missing '('", l, c),
            ParserError::MissingRParen(l, c) => located("Syntax Error: Missing ')'", l, c),
            ParserError::MissingOperator(l, c) => located("Syntax Error: Missing operator", l, c),
        }
    }
}

impl EvaluationError {
    /// The error as one line of text.
    pub fn message(&self) -> (r: String)
        ensures
            r@ == evaluation_message(*self),
    {
        match *self {
            EvaluationError::UnsupportedBinaryOperator(l, c) => located(
                "Runtime Error: Unsupported binary operator",
                l,
                c,
            ),
            EvaluationError::UnsupportedUnaryOperator(l, c) => located(
                "Runtime Error: Unsupported unary operator",
                l,
                c,
            ),
            EvaluationError::DivisionByZero(l, c) => located(
                "Runtime Error: Division by zero",
                l,
                c,
            ),
            EvaluationError::IntegerOperatorWithFloatOperands(l, c) => located(
                "Runtime Error: Integer operator used with float operands",
                l,
                c,
            ),
            EvaluationError::UnsupportedFunction(l, c) => located(
                "Runtime Error: Unsupported function",
                l,
                c,
            ),
            EvaluationError::InvalidConstant(l, c) => located(
                "Runtime Error: Invalid constant",
                l,
                c,
            ),
            EvaluationError::InvalidMantissa(l, c) => located(
                "Runtime Error: Invalid mantissa",
                l,
                c,
            ),
        }
    }
}

impl RootFinderError {
    /// The error as one line of text.
    pub fn message(&self) -> (r: String)
        ensures
            r@ == root_finder_message(*self),
    {
        let mut s = String::new();
        match *self {
            RootFinderError::InvalidInterval => push_text(
                &mut s,
                "Invalid interval: The interval provided is not valid.",
            ),
            RootFinderError::NoRootInInterval => push_text(
                &mut s,
                "No root in interval: The function does not have a root in the specified interval.",
            ),
            RootFinderError::MaxIterationsReached => push_text(
                &mut s,
                "Maximum iterations reached: The root-finding algorithm did not converge within the maximum allowed iterations.",
            ),
        }
        assert(s@ =~= root_finder_message(*self));
        s
    }
}

impl PlottingError {
    /// The error as one line of text.
    pub fn message(&self) -> (r: String)
        ensures
            r@ == plotting_message(*self),
    {
        let mut s = String::new();
        match *self {
            PlottingError::FileCreationError => push_text(
                &mut s,
                "File creation error: Failed to create or write to the specified file.",
            ),
            PlottingError::GenericError => push_text(
                &mut s,
                "Generic plotting error: An unspecified error occurred during the plotting process.",
            ),
        }
        assert(s@ =~= plotting_message(*self));
        s
    }
}

impl CompilerError {
    /// The error as one line of text.
    pub fn message(&self) -> (r: String)
        ensures
            r@ == compiler_message(*self),
    {
        match self {
            CompilerError::Lex(e) => e.message(),
            CompilerError::Parse(e) => e.message(),
            CompilerError::Eval(e) => e.message(),
            CompilerError::Root(e) => e.message(),
            CompilerError::Plot(e) => e.message(),
        }
    }
}

} // verus!
