//! Tokens produced by the tokenizer.

use vstd::prelude::*;
use crate::span::{SpanView, TextSpan};

verus! {

/// A numeric literal without an exponent: an integer, or a decimal fraction
/// kept as it was written (digits, one `.`, digits).
#[derive(Debug, PartialEq)]
pub enum Num {
    Integer(i64),
    Float(String),
}

#[derive(Debug, PartialEq)]
pub enum TokenKind {
    Number(Num),
    /// A literal in scientific notation (`1.3E+2`), kept as written.
    Mantissa(String),
    Identifier(String),
    Plus,
    Minus,
    Multiply,
    Divide,
    Div,
    Mod,
    Power,
    LeftParen,
    RightParen,
    Sin,
    Cos,
    Tan,
    Cotan,
    Arcsin,
    Arccos,
    Arctan,
    Arccotan,
    Ln,
    Log,
    Exp,
    Sqrt,
    Sqr,
    Euler,
    Pi,
    Eof,
}

/// The mathematical content of a `TokenKind`: texts become sequences.
pub enum Lexeme {
    Integer(i64),
    Float(Seq<char>),
    Mantissa(Seq<char>),
    Identifier(Seq<char>),
    Plus,
    Minus,
    Multiply,
    Divide,
    Div,
    Mod,
    Power,
    LeftParen,
    RightParen,
    Sin,
    Cos,
    Tan,
    Cotan,
    Arcsin,
    Arccos,
    Arctan,
    Arccotan,
    Ln,
    Log,
    Exp,
    Sqrt,
    Sqr,
    Euler,
    Pi,
    Eof,
}

impl View for TokenKind {
    type V = Lexeme;

    open spec fn view(&self) -> Lexeme {
        match self {
            TokenKind::Number(Num::Integer(i)) => Lexeme::Integer(*i),
            TokenKind::Number(Num::Float(t)) => Lexeme::Float(t@),
            TokenKind::Mantissa(t) => Lexeme::Mantissa(t@),
            TokenKind::Identifier(t) => Lexeme::Identifier(t@),
            TokenKind::Plus => Lexeme::Plus,
            TokenKind::Minus => Lexeme::Minus,
            TokenKind::Multiply => Lexeme::Multiply,
            TokenKind::Divide => Lexeme::Divide,
            TokenKind::Div => Lexeme::Div,
            TokenKind::Mod => Lexeme::Mod,
            TokenKind::Power => Lexeme::Power,
            TokenKind::LeftParen => Lexeme::LeftParen,
            TokenKind::RightParen => Lexeme::RightParen,
            TokenKind::Sin => Lexeme::Sin,
            TokenKind::Cos => Lexeme::Cos,
            TokenKind::Tan => Lexeme::Tan,
            TokenKind::Cotan => Lexeme::Cotan,
            TokenKind::Arcsin => Lexeme::Arcsin,
            TokenKind::Arccos => Lexeme::Arccos,
            TokenKind::Arctan => Lexeme::Arctan,
            TokenKind::Arccotan => Lexeme::Arccotan,
            TokenKind::Ln => Lexeme::Ln,
            TokenKind::Log => Lexeme::Log,
            TokenKind::Exp => Lexeme::Exp,
            TokenKind::Sqrt => Lexeme::Sqrt,
            TokenKind::Sqr => Lexeme::Sqr,
            TokenKind::Euler => Lexeme::Euler,
            TokenKind::Pi => Lexeme::Pi,
            TokenKind::Eof => Lexeme::Eof,
        }
    }
}

#[derive(Debug, PartialEq)]
pub struct Token {
    pub kind: TokenKind,
    pub span: TextSpan,
}

pub struct TokenView {
    pub kind: Lexeme,
    pub span: SpanView,
}

impl View for Token {
    type V = TokenView;

    open spec fn view(&self) -> TokenView {
        TokenView { kind: self.kind@, span: self.span@ }
    }
}

impl Token {
    pub fn new(kind: TokenKind, span: TextSpan) -> (r: Self)
        ensures
            r@ == (TokenView { kind: kind@, span: span@ }),
    {
        Token { kind, span }
    }
}

} // verus!
