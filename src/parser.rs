//! The recursive-descent parser.
//!
//! Grammar, by descending precedence:
//!
//! ```text
//! expression := term (('+' | '-') term)*
//! term       := exponent (('*' | '/' | 'div' | 'mod') exponent)*
//! exponent   := factor ('^' exponent)?
//! factor     := ('-' | '+') factor | NUMBER | MANTISSA | 'pi' | 'e'
//!             | FUNCTION '(' expression ')' | IDENTIFIER | '(' expression ')'
//! ```
//!
//! The spec functions below state the grammar over the token stream; the
//! parser's methods are proved to follow them exactly.

use vstd::prelude::*;
use crate::ast::{ASTNode, BinaryOperator, Constant, Function, Tree, UnaryOperator};
use crate::error::{CompilerError, LexerError, ParserError};
use crate::lexer::{lemma_stream_wf, stream, stream_wf, token_stream, Lexer};
use crate::span::SpanView;
use crate::token::{Lexeme, Num, Token, TokenKind, TokenView};

verus! {

/// What the parser reads: the tokens, and the error that ended them early,
/// if any.
pub struct TokenStream {
    pub tokens: Seq<TokenView>,
    pub failure: Option<LexerError>,
}

pub type ParseResult = Result<(Tree, int), CompilerError>;

/// The token at index `i`.
pub open spec fn cur(ts: TokenStream, i: int) -> TokenView {
    if 0 <= i < ts.tokens.len() {
        ts.tokens[i]
    } else {
        TokenView { kind: Lexeme::Eof, span: arbitrary() }
    }
}

/// The index after moving past the token at `i`. The end marker is never
/// passed; past the last token before a tokenizer error, that error comes.
pub open spec fn next(ts: TokenStream, i: int) -> Result<int, CompilerError> {
    if i + 1 < ts.tokens.len() {
        Ok(i + 1)
    } else if cur(ts, i).kind == Lexeme::Eof {
        Ok(i)
    } else {
        match ts.failure {
            Some(e) => Err(CompilerError::Lex(e)),
            None => Ok(i),
        }
    }
}

pub open spec fn unexpected(t: TokenView) -> CompilerError {
    CompilerError::Parse(ParserError::UnexpectedToken(t.span.line as usize, t.span.column as usize))
}

pub open spec fn missing_lparen(t: TokenView) -> CompilerError {
    CompilerError::Parse(ParserError::MissingLParen(t.span.line as usize, t.span.column as usize))
}

pub open spec fn missing_rparen(t: TokenView) -> CompilerError {
    CompilerError::Parse(ParserError::MissingRParen(t.span.line as usize, t.span.column as usize))
}

pub open spec fn missing_operator(t: TokenView) -> CompilerError {
    CompilerError::Parse(
        ParserError::MissingOperator(t.span.line as usize, t.span.column as usize),
    )
}

pub open spec fn function_of(k: Lexeme) -> Option<Function> {
    match k {
        Lexeme::Sin => Some(Function::Sin),
        Lexeme::Cos => Some(Function::Cos),
        Lexeme::Tan => Some(Function::Tan),
        Lexeme::Cotan => Some(Function::Cotan),
        Lexeme::Arcsin => Some(Function::Arcsin),
        Lexeme::Arccos => Some(Function::Arccos),
        Lexeme::Arctan => Some(Function::Arctan),
        Lexeme::Arccotan => Some(Function::Arccotan),
        Lexeme::Ln => Some(Function::Ln),
        Lexeme::Log => Some(Function::Log),
        Lexeme::Exp => Some(Function::Exp),
        Lexeme::Sqrt => Some(Function::Sqrt),
        Lexeme::Sqr => Some(Function::Sqr),
        _ => None,
    }
}

/// The operators of `term`.
pub open spec fn product_operator(k: Lexeme) -> Option<BinaryOperator> {
    match k {
        Lexeme::Multiply => Some(BinaryOperator::Multiply),
        Lexeme::Divide => Some(BinaryOperator::Divide),
        Lexeme::Div => Some(BinaryOperator::Div),
        Lexeme::Mod => Some(BinaryOperator::Mod),
        _ => None,
    }
}

/// The operators of `expression`.
pub open spec fn sum_operator(k: Lexeme) -> Option<BinaryOperator> {
    match k {
        Lexeme::Plus => Some(BinaryOperator::Add),
        Lexeme::Minus => Some(BinaryOperator::Subtract),
        _ => None,
    }
}

pub open spec fn is_number(k: Lexeme) -> bool {
    k is Integer || k is Float
}

/// The tokens that can begin a `factor`.
pub open spec fn starts_factor(k: Lexeme) -> bool {
    ||| k == Lexeme::Minus
    ||| k == Lexeme::Plus
    ||| is_number(k)
    ||| k is Mantissa
    ||| k == Lexeme::Pi
    ||| k == Lexeme::Euler
    ||| k is Identifier
    ||| k == Lexeme::LeftParen
    ||| function_of(k) is Some
}

/// `factor`, at index `i`: the tree and the index after it.
pub open spec fn factor(ts: TokenStream, i: int) -> ParseResult
    decreases ts.tokens.len() - i, 0nat,
{
    let t = cur(ts, i);
    if t.kind == Lexeme::RightParen {
        Err(missing_lparen(t))
    } else if !starts_factor(t.kind) {
        Err(unexpected(t))
    } else {
        match next(ts, i) {
            Err(e) => Err(e),
            Ok(j) => if !(i < j) {
                // never taken: moving past a token other than the end marker
                // always moves forward, and the parser's methods prove that
                // every successful parse does
                Err(unexpected(t))
            } else if t.kind == Lexeme::Minus || t.kind == Lexeme::Plus {
                match factor(ts, j) {
                    Err(e) => Err(e),
                    Ok((a, k)) => if t.kind == Lexeme::Minus {
                        Ok((Tree::Unary(UnaryOperator::Minus, Box::new(a), t.span), k))
                    } else {
                        Ok((a, k))
                    },
                }
            } else if is_number(t.kind) {
                if is_number(cur(ts, j).kind) {
                    Err(missing_operator(cur(ts, j)))
                } else {
                    match t.kind {
                        Lexeme::Integer(v) => Ok((Tree::Integer(v, t.span), j)),
                        Lexeme::Float(x) => Ok((Tree::Float(x, t.span), j)),
                        _ => Err(unexpected(t)),
                    }
                }
            } else if t.kind is Mantissa {
                Ok((Tree::Mantissa(t.kind->Mantissa_0, t.span), j))
            } else if t.kind == Lexeme::Pi {
                Ok((Tree::Constant(Constant::Pi, t.span), j))
            } else if t.kind == Lexeme::Euler {
                Ok((Tree::Constant(Constant::Euler, t.span), j))
            } else if t.kind is Identifier {
                Ok((Tree::Identifier(t.kind->Identifier_0, t.span), j))
            } else if t.kind == Lexeme::LeftParen {
                match expression(ts, j) {
                    Err(e) => Err(e),
                    Ok((a, k)) => if cur(ts, k).kind != Lexeme::RightParen {
                        Err(missing_rparen(cur(ts, k)))
                    } else {
                        match next(ts, k) {
                            Err(e) => Err(e),
                            Ok(m) => Ok((a, m)),
                        }
                    },
                }
            } else if function_of(t.kind) is Some {
                if cur(ts, j).kind != Lexeme::LeftParen {
                    Err(missing_lparen(cur(ts, j)))
                } else {
                    match next(ts, j) {
                        Err(e) => Err(e),
                        Ok(j2) => if !(j < j2) {
                            Err(unexpected(t))
                        } else {
                            match expression(ts, j2) {
                                Err(e) => Err(e),
                                Ok((a, k)) => if cur(ts, k).kind != Lexeme::RightParen {
                                    Err(missing_rparen(cur(ts, k)))
                                } else {
                                    match next(ts, k) {
                                        Err(e) => Err(e),
                                        Ok(m) => Ok(
                                            (
                                                Tree::Call(
                                                    function_of(t.kind)->0,
                                                    Box::new(a),
                                                    t.span,
                                                ),
                                                m,
                                            ),
                                        ),
                                    }
                                },
                            }
                        },
                    }
                }
            } else {
                Err(unexpected(t))
            },
        }
    }
}

/// `exponent`: a factor, then `^` and an exponent, grouping to the right.
pub open spec fn exponent(ts: TokenStream, i: int) -> ParseResult
    decreases ts.tokens.len() - i, 1nat,
{
    match factor(ts, i) {
        Err(e) => Err(e),
        Ok((a, j)) => if cur(ts, j).kind == Lexeme::Power {
            match next(ts, j) {
                Err(e) => Err(e),
                Ok(k) => if !(i < k) {
                    Err(unexpected(cur(ts, j)))
                } else {
                    match exponent(ts, k) {
                        Err(e) => Err(e),
                        Ok((b, m)) => Ok(
                            (
                                Tree::Binary(
                                    Box::new(a),
                                    BinaryOperator::Power,
                                    Box::new(b),
                                    cur(ts, j).span,
                                ),
                                m,
                            ),
                        ),
                    }
                },
            }
        } else {
            Ok((a, j))
        },
    }
}

/// The rest of a `term` at index `i`, with `acc` parsed so far; products
/// group to the left.
pub open spec fn term_rest(ts: TokenStream, i: int, acc: Tree) -> ParseResult
    decreases ts.tokens.len() - i, 2nat,
{
    let t = cur(ts, i);
    match product_operator(t.kind) {
        None => Ok((acc, i)),
        Some(op) => match next(ts, i) {
            Err(e) => Err(e),
            Ok(j) => if !(i < j) {
                Err(unexpected(t))
            } else {
                match exponent(ts, j) {
                    Err(e) => Err(e),
                    Ok((b, k)) => if !(i < k <= ts.tokens.len()) {
                        Err(unexpected(t))
                    } else {
                        term_rest(ts, k, Tree::Binary(Box::new(acc), op, Box::new(b), t.span))
                    },
                }
            },
        },
    }
}

pub open spec fn term(ts: TokenStream, i: int) -> ParseResult
    decreases ts.tokens.len() - i, 3nat,
{
    match exponent(ts, i) {
        Err(e) => Err(e),
        Ok((a, j)) => if !(i <= j <= ts.tokens.len()) {
            Err(unexpected(cur(ts, i)))
        } else {
            term_rest(ts, j, a)
        },
    }
}

/// The rest of an `expression` at index `i`, with `acc` parsed so far; sums
/// group to the left.
pub open spec fn expression_rest(ts: TokenStream, i: int, acc: Tree) -> ParseResult
    decreases ts.tokens.len() - i, 4nat,
{
    let t = cur(ts, i);
    match sum_operator(t.kind) {
        None => Ok((acc, i)),
        Some(op) => match next(ts, i) {
            Err(e) => Err(e),
            Ok(j) => if !(i < j) {
                Err(unexpected(t))
            } else {
                match term(ts, j) {
                    Err(e) => Err(e),
                    Ok((b, k)) => if !(i < k <= ts.tokens.len()) {
                        Err(unexpected(t))
                    } else {
                        expression_rest(
                            ts,
                            k,
                            Tree::Binary(Box::new(acc), op, Box::new(b), t.span),
                        )
                    },
                }
            },
        },
    }
}

pub open spec fn expression(ts: TokenStream, i: int) -> ParseResult
    decreases ts.tokens.len() - i, 5nat,
{
    match term(ts, i) {
        Err(e) => Err(e),
        Ok((a, j)) => if !(i <= j <= ts.tokens.len()) {
            Err(unexpected(cur(ts, i)))
        } else {
            expression_rest(ts, j, a)
        },
    }
}

/// The tokens of a text, as the parser reads them.
pub open spec fn tokens_of(s: Seq<char>) -> TokenStream {
    TokenStream { tokens: stream(s, 0).0, failure: stream(s, 0).1 }
}

/// The tree of a whole text: one expression and nothing after it. A `)`
/// left over has no `(`; any other token left over is unexpected.
pub open spec fn parse_text(s: Seq<char>) -> Result<Tree, CompilerError> {
    let ts = tokens_of(s);
    if ts.tokens.len() == 0 {
        Err(CompilerError::Lex(ts.failure->0))
    } else {
        match expression(ts, 0) {
            Err(e) => Err(e),
            Ok((a, j)) => if cur(ts, j).kind == Lexeme::Eof {
                Ok(a)
            } else if cur(ts, j).kind == Lexeme::RightParen {
                Err(missing_lparen(cur(ts, j)))
            } else {
                Err(unexpected(cur(ts, j)))
            },
        }
    }
}

/// The span a node carries.
pub open spec fn span_of(t: Tree) -> SpanView {
    match t {
        Tree::Integer(_, sp) => sp,
        Tree::Float(_, sp) => sp,
        Tree::Mantissa(_, sp) => sp,
        Tree::Constant(_, sp) => sp,
        Tree::Identifier(_, sp) => sp,
        Tree::Unary(_, _, sp) => sp,
        Tree::Binary(_, _, _, sp) => sp,
        Tree::Call(_, _, sp) => sp,
    }
}

/// `sp` is the span of one of the tokens `i..j`.
pub open spec fn token_span_in(ts: TokenStream, sp: SpanView, i: int, j: int) -> bool {
    exists|k: int| i <= k < j && 0 <= k < ts.tokens.len() && ts.tokens[k].span == sp
}

/// Every node of `t` carries the span of one of the tokens `i..j`.
pub open spec fn spans_within(t: Tree, ts: TokenStream, i: int, j: int) -> bool
    decreases t,
{
    &&& token_span_in(ts, span_of(t), i, j)
    &&& match t {
        Tree::Unary(_, a, _) => spans_within(*a, ts, i, j),
        Tree::Binary(l, _, r, _) => spans_within(*l, ts, i, j) && spans_within(*r, ts, i, j),
        Tree::Call(_, a, _) => spans_within(*a, ts, i, j),
        _ => true,
    }
}

proof fn lemma_spans_widen(t: Tree, ts: TokenStream, i: int, j: int, i2: int, j2: int)
    requires
        spans_within(t, ts, i, j),
        i2 <= i,
        j <= j2 || ts.tokens.len() <= j2,
    ensures
        spans_within(t, ts, i2, j2),
    decreases t,
{
    let k = choose|k: int| i <= k < j && 0 <= k < ts.tokens.len() && ts.tokens[k].span == span_of(t);
    assert(i2 <= k < j2 && 0 <= k < ts.tokens.len() && ts.tokens[k].span == span_of(t));
    match t {
        Tree::Unary(_, a, _) => lemma_spans_widen(*a, ts, i, j, i2, j2),
        Tree::Binary(l, _, r, _) => {
            lemma_spans_widen(*l, ts, i, j, i2, j2);
            lemma_spans_widen(*r, ts, i, j, i2, j2);
        },
        Tree::Call(_, a, _) => lemma_spans_widen(*a, ts, i, j, i2, j2),
        _ => {},
    }
}

proof fn lemma_next_forward(ts: TokenStream, i: int)
    ensures
        next(ts, i) matches Ok(j) ==> i <= j,
        cur(ts, i).kind != Lexeme::Eof ==> 0 <= i < ts.tokens.len(),
{
}

proof fn lemma_factor_spans(ts: TokenStream, i: int)
    ensures
        factor(ts, i) matches Ok((t, j)) ==> i < j && spans_within(t, ts, i, j),
    decreases ts.tokens.len() - i, 0nat,
{
    let t = cur(ts, i);
    lemma_next_forward(ts, i);
    if t.kind != Lexeme::RightParen && starts_factor(t.kind) {
        if let Ok(j) = next(ts, i) {
            if i < j {
                assert(token_span_in(ts, t.span, i, j + 1));
                if t.kind == Lexeme::Minus || t.kind == Lexeme::Plus {
                    lemma_factor_spans(ts, j);
                    if let Ok((a, k)) = factor(ts, j) {
                        lemma_spans_widen(a, ts, j, k, i, k);
                        assert(token_span_in(ts, t.span, i, k));
                    }
                } else if t.kind == Lexeme::LeftParen {
                    lemma_expression_spans(ts, j);
                    if let Ok((a, k)) = expression(ts, j) {
                        lemma_next_forward(ts, k);
                        if let Ok(m) = next(ts, k) {
                            lemma_spans_widen(a, ts, j, k, i, m);
                        }
                    }
                } else if function_of(t.kind) is Some {
                    lemma_next_forward(ts, j);
                    if let Ok(j2) = next(ts, j) {
                        if j < j2 {
                            lemma_expression_spans(ts, j2);
                            if let Ok((a, k)) = expression(ts, j2) {
                                lemma_next_forward(ts, k);
                                if let Ok(m) = next(ts, k) {
                                    lemma_spans_widen(a, ts, j2, k, i, m);
                                    assert(token_span_in(ts, t.span, i, m));
                                }
                            }
                        }
                    }
                }
            }
        }
    }
}

proof fn lemma_exponent_spans(ts: TokenStream, i: int)
    ensures
        exponent(ts, i) matches Ok((t, j)) ==> i < j && spans_within(t, ts, i, j),
    decreases ts.tokens.len() - i, 1nat,
{
    lemma_factor_spans(ts, i);
    if let Ok((a, j)) = factor(ts, i) {
        if cur(ts, j).kind == Lexeme::Power {
            lemma_next_forward(ts, j);
            if let Ok(k) = next(ts, j) {
                if i < k {
                    lemma_exponent_spans(ts, k);
                    if let Ok((b, m)) = exponent(ts, k) {
                        lemma_spans_widen(a, ts, i, j, i, m);
                        lemma_spans_widen(b, ts, k, m, i, m);
                        assert(token_span_in(ts, cur(ts, j).span, i, m));
                    }
                }
            }
        }
    }
}

proof fn lemma_term_rest_spans(ts: TokenStream, i: int, acc: Tree, i0: int)
    requires
        i0 <= i,
        spans_within(acc, ts, i0, i),
    ensures
        term_rest(ts, i, acc) matches Ok((t, j)) ==> i <= j && spans_within(t, ts, i0, j),
    decreases ts.tokens.len() - i, 2nat,
{
    let t = cur(ts, i);
    lemma_next_forward(ts, i);
    if let Some(op) = product_operator(t.kind) {
        if let Ok(j) = next(ts, i) {
            if i < j {
                lemma_exponent_spans(ts, j);
                if let Ok((b, k)) = exponent(ts, j) {
                    if i < k <= ts.tokens.len() {
                        let node = Tree::Binary(Box::new(acc), op, Box::new(b), t.span);
                        lemma_spans_widen(acc, ts, i0, i, i0, k);
                        lemma_spans_widen(b, ts, j, k, i0, k);
                        assert(token_span_in(ts, t.span, i0, k));
                        assert(spans_within(node, ts, i0, k));
                        lemma_term_rest_spans(ts, k, node, i0);
                    }
                }
            }
        }
    }
}

proof fn lemma_term_spans(ts: TokenStream, i: int)
    ensures
        term(ts, i) matches Ok((t, j)) ==> i < j && spans_within(t, ts, i, j),
    decreases ts.tokens.len() - i, 3nat,
{
    lemma_exponent_spans(ts, i);
    if let Ok((a, j)) = exponent(ts, i) {
        if i <= j <= ts.tokens.len() {
            lemma_term_rest_spans(ts, j, a, i);
        }
    }
}

proof fn lemma_expression_rest_spans(ts: TokenStream, i: int, acc: Tree, i0: int)
    requires
        i0 <= i,
        spans_within(acc, ts, i0, i),
    ensures
        expression_rest(ts, i, acc) matches Ok((t, j)) ==> i <= j && spans_within(t, ts, i0, j),
    decreases ts.tokens.len() - i, 4nat,
{
    let t = cur(ts, i);
    lemma_next_forward(ts, i);
    if let Some(op) = sum_operator(t.kind) {
        if let Ok(j) = next(ts, i) {
            if i < j {
                lemma_term_spans(ts, j);
                if let Ok((b, k)) = term(ts, j) {
                    if i < k <= ts.tokens.len() {
                        let node = Tree::Binary(Box::new(acc), op, Box::new(b), t.span);
                        lemma_spans_widen(acc, ts, i0, i, i0, k);
                        lemma_spans_widen(b, ts, j, k, i0, k);
                        assert(token_span_in(ts, t.span, i0, k));
                        assert(spans_within(node, ts, i0, k));
                        lemma_expression_rest_spans(ts, k, node, i0);
                    }
                }
            }
        }
    }
}

proof fn lemma_expression_spans(ts: TokenStream, i: int)
    ensures
        expression(ts, i) matches Ok((t, j)) ==> i < j && spans_within(t, ts, i, j),
    decreases ts.tokens.len() - i, 5nat,
{
    lemma_term_spans(ts, i);
    if let Ok((a, j)) = term(ts, i) {
        if i <= j <= ts.tokens.len() {
            lemma_expression_rest_spans(ts, j, a, i);
        }
    }
}

/// Every node of the tree of a text carries the span of one of the text's
/// tokens: the token that defines it.
pub proof fn lemma_tree_spans(s: Seq<char>)
    ensures
        parse_text(s) matches Ok(t) ==> spans_within(
            t,
            tokens_of(s),
            0,
            tokens_of(s).tokens.len() as int,
        ),
{
    let ts = tokens_of(s);
    lemma_expression_spans(ts, 0);
    if let Ok((a, j)) = expression(ts, 0) {
        if cur(ts, j).kind == Lexeme::Eof && ts.tokens.len() > 0 {
            lemma_spans_widen(a, ts, 0, j, 0, ts.tokens.len() as int);
        }
    }
}

pub struct Parser {
    tokens: Vec<Token>,
    failure: Option<LexerError>,
    index: usize,
}

impl Parser {
    pub closed spec fn stream(&self) -> TokenStream {
        TokenStream { tokens: self.tokens@.map_values(|t: Token| t@), failure: self.failure }
    }

    /// The index of the current token.
    pub closed spec fn position(&self) -> int {
        self.index as int
    }

    pub closed spec fn wf(&self) -> bool {
        &&& stream_wf(self.stream().tokens, self.failure)
        &&& self.index < self.tokens.len()
    }

    /// Reads the tokens of the lexer from its position on; fails with the
    /// tokenizer's error when not even a first token can be read.
    pub fn new(mut lexer: Lexer) -> (r: Result<Self, CompilerError>)
        requires
            lexer.wf(),
        ensures
            match r {
                Ok(p) => p.wf() && p.position() == 0 && p.stream() == (TokenStream {
                    tokens: stream(lexer.text(), lexer.position()).0,
                    failure: stream(lexer.text(), lexer.position()).1,
                }),
                Err(e) => stream(lexer.text(), lexer.position()).0.len() == 0 && e
                    == CompilerError::Lex(stream(lexer.text(), lexer.position()).1->0),
            },
    {
        proof {
            lexer.lemma_wf();
            lemma_stream_wf(lexer.text(), lexer.position());
        }
        let (tokens, failure) = token_stream(&mut lexer);
        if tokens.len() == 0 {
            match failure {
                Some(e) => {
                    return Err(CompilerError::Lex(e));
                },
                None => {
                    assert(false);
                    return Err(CompilerError::Lex(LexerError::InvalidNumber(0, 0)));
                },
            }
        }
        Ok(Parser { tokens, failure, index: 0 })
    }

    /// Starts again at the first token.
    pub fn reset(&mut self)
        requires
            old(self).wf(),
        ensures
            final(self).wf(),
            final(self).stream() == old(self).stream(),
            final(self).position() == 0,
    {
        self.index = 0;
    }

    /// Moves past the current token, as `next` says.
    pub fn advance(&mut self) -> (r: Result<(), CompilerError>)
        requires
            old(self).wf(),
        ensures
            final(self).wf(),
            final(self).stream() == old(self).stream(),
            match next(old(self).stream(), old(self).position()) {
                Ok(j) => r is Ok && final(self).position() == j,
                Err(e) => r == Err::<(), CompilerError>(e),
            },
    {
        if self.index + 1 < self.tokens.len() {
            self.index += 1;
            return Ok(());
        }
        if matches!(self.tokens[self.index].kind, TokenKind::Eof) {
            return Ok(());
        }
        match self.failure {
            Some(e) => Err(CompilerError::Lex(e)),
            None => Ok(()),
        }
    }

    fn current(&self) -> (r: &Token)
        requires
            self.wf(),
        ensures
            r@ == cur(self.stream(), self.position()),
    {
        &self.tokens[self.index]
    }

    /// The line and column of the current token.
    fn here(&self) -> (r: (usize, usize))
        requires
            self.wf(),
        ensures
            r.0 == cur(self.stream(), self.position()).span.line as usize,
            r.1 == cur(self.stream(), self.position()).span.column as usize,
    {
        let t = &self.tokens[self.index];
        (t.span.line, t.span.column)
    }
}

/// How a factor begins, read off its first token.
enum Start {
    Sign(bool),
    Number(Num),
    Mantissa(String),
    Constant(Constant),
    Identifier(String),
    Paren,
    Call(Function),
    RightParen,
    Other,
}

spec fn start_agrees(r: Start, k: Lexeme) -> bool {
    match r {
        Start::Sign(minus) => (minus && k == Lexeme::Minus) || (!minus && k == Lexeme::Plus),
        Start::Number(Num::Integer(v)) => k == Lexeme::Integer(v),
        Start::Number(Num::Float(x)) => k == Lexeme::Float(x@),
        Start::Mantissa(x) => k == Lexeme::Mantissa(x@),
        Start::Constant(c) => (c == Constant::Pi && k == Lexeme::Pi) || (c == Constant::Euler && k
            == Lexeme::Euler),
        Start::Identifier(x) => k == Lexeme::Identifier(x@),
        Start::Paren => k == Lexeme::LeftParen,
        Start::Call(f) => function_of(k) == Some(f),
        Start::RightParen => k == Lexeme::RightParen,
        Start::Other => !starts_factor(k) && k != Lexeme::RightParen,
    }
}

fn start_of(k: &TokenKind) -> (r: Start)
    ensures
        start_agrees(r, k@),
{
    match k {
        TokenKind::Minus => Start::Sign(true),
        TokenKind::Plus => Start::Sign(false),
        TokenKind::Number(Num::Integer(v)) => Start::Number(Num::Integer(*v)),
        TokenKind::Number(Num::Float(x)) => Start::Number(Num::Float(x.clone())),
        TokenKind::Mantissa(x) => Start::Mantissa(x.clone()),
        TokenKind::Pi => Start::Constant(Constant::Pi),
        TokenKind::Euler => Start::Constant(Constant::Euler),
        TokenKind::Identifier(x) => Start::Identifier(x.clone()),
        TokenKind::LeftParen => Start::Paren,
        TokenKind::RightParen => Start::RightParen,
        TokenKind::Sin => Start::Call(Function::Sin),
        TokenKind::Cos => Start::Call(Function::Cos),
        TokenKind::Tan => Start::Call(Function::Tan),
        TokenKind::Cotan => Start::Call(Function::Cotan),
        TokenKind::Arcsin => Start::Call(Function::Arcsin),
        TokenKind::Arccos => Start::Call(Function::Arccos),
        TokenKind::Arctan => Start::Call(Function::Arctan),
        TokenKind::Arccotan => Start::Call(Function::Arccotan),
        TokenKind::Ln => Start::Call(Function::Ln),
        TokenKind::Log => Start::Call(Function::Log),
        TokenKind::Exp => Start::Call(Function::Exp),
        TokenKind::Sqrt => Start::Call(Function::Sqrt),
        TokenKind::Sqr => Start::Call(Function::Sqr),
        _ => Start::Other,
    }
}

/// A parse result agrees with what the grammar gives.
pub open spec fn agrees(r: Result<ASTNode, CompilerError>, g: ParseResult, end: int) -> bool {
    match (r, g) {
        (Ok(n), Ok((t, j))) => n@ == t && end == j,
        (Err(e), Err(e2)) => e == e2,
        _ => false,
    }
}

impl Parser {
    fn is_number_here(&self) -> (r: bool)
        requires
            self.wf(),
        ensures
            r == is_number(cur(self.stream(), self.position()).kind),
    {
        matches!(self.tokens[self.index].kind, TokenKind::Number(_))
    }

    fn is_here(&self, k: &TokenKind) -> (r: bool)
        requires
            self.wf(),
            !(k@ is Integer || k@ is Float || k@ is Mantissa || k@ is Identifier),
        ensures
            r == (cur(self.stream(), self.position()).kind == k@),
    {
        let c = &self.tokens[self.index].kind;
        match k {
            TokenKind::Plus => matches!(c, TokenKind::Plus),
            TokenKind::Minus => matches!(c, TokenKind::Minus),
            TokenKind::Multiply => matches!(c, TokenKind::Multiply),
            TokenKind::Divide => matches!(c, TokenKind::Divide),
            TokenKind::Div => matches!(c, TokenKind::Div),
            TokenKind::Mod => matches!(c, TokenKind::Mod),
            TokenKind::Power => matches!(c, TokenKind::Power),
            TokenKind::LeftParen => matches!(c, TokenKind::LeftParen),
            TokenKind::RightParen => matches!(c, TokenKind::RightParen),
            TokenKind::Sin => matches!(c, TokenKind::Sin),
            TokenKind::Cos => matches!(c, TokenKind::Cos),
            TokenKind::Tan => matches!(c, TokenKind::Tan),
            TokenKind::Cotan => matches!(c, TokenKind::Cotan),
            TokenKind::Arcsin => matches!(c, TokenKind::Arcsin),
            TokenKind::Arccos => matches!(c, TokenKind::Arccos),
            TokenKind::Arctan => matches!(c, TokenKind::Arctan),
            TokenKind::Arccotan => matches!(c, TokenKind::Arccotan),
            TokenKind::Ln => matches!(c, TokenKind::Ln),
            TokenKind::Log => matches!(c, TokenKind::Log),
            TokenKind::Exp => matches!(c, TokenKind::Exp),
            TokenKind::Sqrt => matches!(c, TokenKind::Sqrt),
            TokenKind::Sqr => matches!(c, TokenKind::Sqr),
            TokenKind::Euler => matches!(c, TokenKind::Euler),
            TokenKind::Pi => matches!(c, TokenKind::Pi),
            TokenKind::Eof => matches!(c, TokenKind::Eof),
            _ => false,
        }
    }

    /// Parses a `factor` at the current token.
    pub fn parse_factor(&mut self) -> (r: Result<ASTNode, CompilerError>)
        requires
            old(self).wf(),
        ensures
            final(self).wf(),
            final(self).stream() == old(self).stream(),
            agrees(r, factor(old(self).stream(), old(self).position()), final(self).position()),
            r is Ok ==> old(self).position() < final(self).position(),
        decreases old(self).stream().tokens.len() - old(self).position(), 0nat,
    {
        let ghost ts = self.stream();
        let ghost i = self.position();
        let span = self.tokens[self.index].span.duplicate();
        let start = start_of(&self.tokens[self.index].kind);
        let (line, column) = self.here();
        match start {
            Start::RightParen => {
                return Err(CompilerError::Parse(ParserError::MissingLParen(line, column)));
            },
            Start::Other => {
                return Err(CompilerError::Parse(ParserError::UnexpectedToken(line, column)));
            },
            _ => {},
        }
        match self.advance() {
            Err(e) => {
                return Err(e);
            },
            Ok(()) => {},
        }
        assert(i < self.position());
        match start {
            Start::Sign(minus) => {
                let a = match self.parse_factor() {
                    Err(e) => {
                        return Err(e);
                    },
                    Ok(a) => a,
                };
                if minus {
                    Ok(ASTNode::UnaryOp(UnaryOperator::Minus, Box::new(a), span))
                } else {
                    Ok(a)
                }
            },
            Start::Number(n) => {
                if self.is_number_here() {
                    let (l, c) = self.here();
                    return Err(CompilerError::Parse(ParserError::MissingOperator(l, c)));
                }
                Ok(ASTNode::Number(n, span))
            },
            Start::Mantissa(x) => Ok(ASTNode::Mantissa(x, span)),
            Start::Constant(c) => Ok(ASTNode::Constant(c, span)),
            Start::Identifier(x) => Ok(ASTNode::Identifier(x, span)),
            Start::Paren => {
                let a = match self.parse_expression() {
                    Err(e) => {
                        return Err(e);
                    },
                    Ok(a) => a,
                };
                self.expect_right_paren(a)
            },
            Start::Call(f) => {
                if !self.is_here(&TokenKind::LeftParen) {
                    let (l, c) = self.here();
                    return Err(CompilerError::Parse(ParserError::MissingLParen(l, c)));
                }
                match self.advance() {
                    Err(e) => {
                        return Err(e);
                    },
                    Ok(()) => {},
                }
                let a = match self.parse_expression() {
                    Err(e) => {
                        return Err(e);
                    },
                    Ok(a) => a,
                };
                match self.expect_right_paren(a) {
                    Err(e) => Err(e),
                    Ok(a) => Ok(ASTNode::FunctionCall(f, Box::new(a), span)),
                }
            },
            _ => Err(CompilerError::Parse(ParserError::UnexpectedToken(line, column))),
        }
    }

    /// Checks for the `)` that closes `a`, and moves past it.
    fn expect_right_paren(&mut self, a: ASTNode) -> (r: Result<ASTNode, CompilerError>)
        requires
            old(self).wf(),
        ensures
            final(self).wf(),
            final(self).stream() == old(self).stream(),
            ({
                let ts = old(self).stream();
                let k = old(self).position();
                if cur(ts, k).kind != Lexeme::RightParen {
                    r == Err::<ASTNode, CompilerError>(missing_rparen(cur(ts, k)))
                } else {
                    match next(ts, k) {
                        Err(e) => r == Err::<ASTNode, CompilerError>(e),
                        Ok(m) => r matches Ok(b) && b@ == a@ && final(self).position() == m,
                    }
                }
            }),
    {
        if !self.is_here(&TokenKind::RightParen) {
            let (l, c) = self.here();
            return Err(CompilerError::Parse(ParserError::MissingRParen(l, c)));
        }
        match self.advance() {
            Err(e) => Err(e),
            Ok(()) => Ok(a),
        }
    }

    /// Parses an `exponent`: `^` groups to the right.
    fn parse_exponentiation(&mut self) -> (r: Result<ASTNode, CompilerError>)
        requires
            old(self).wf(),
        ensures
            final(self).wf(),
            final(self).stream() == old(self).stream(),
            agrees(r, exponent(old(self).stream(), old(self).position()), final(self).position()),
            r is Ok ==> old(self).position() < final(self).position(),
        decreases old(self).stream().tokens.len() - old(self).position(), 1nat,
    {
        let a = match self.parse_factor() {
            Err(e) => {
                return Err(e);
            },
            Ok(a) => a,
        };
        if !self.is_here(&TokenKind::Power) {
            return Ok(a);
        }
        let span = self.tokens[self.index].span.duplicate();
        match self.advance() {
            Err(e) => {
                return Err(e);
            },
            Ok(()) => {},
        }
        let b = match self.parse_exponentiation() {
            Err(e) => {
                return Err(e);
            },
            Ok(b) => b,
        };
        Ok(ASTNode::BinaryOp(Box::new(a), BinaryOperator::Power, Box::new(b), span))
    }

    /// Parses a `term`: products group to the left.
    pub fn parse_term(&mut self) -> (r: Result<ASTNode, CompilerError>)
        requires
            old(self).wf(),
        ensures
            final(self).wf(),
            final(self).stream() == old(self).stream(),
            agrees(r, term(old(self).stream(), old(self).position()), final(self).position()),
            r is Ok ==> old(self).position() < final(self).position(),
        decreases old(self).stream().tokens.len() - old(self).position(), 3nat,
    {
        let ghost ts = self.stream();
        let ghost i = self.position();
        let mut node = match self.parse_exponentiation() {
            Err(e) => {
                return Err(e);
            },
            Ok(a) => a,
        };
        loop
            invariant
                self.wf(),
                ts == old(self).stream(),
                i == old(self).position(),
                self.stream() == ts,
                i < self.position(),
                term(ts, i) == term_rest(ts, self.position(), node@),
            decreases ts.tokens.len() - self.position(),
        {
            let op = match &self.tokens[self.index].kind {
                TokenKind::Multiply => BinaryOperator::Multiply,
                TokenKind::Divide => BinaryOperator::Divide,
                TokenKind::Div => BinaryOperator::Div,
                TokenKind::Mod => BinaryOperator::Mod,
                _ => {
                    return Ok(node);
                },
            };
            let span = self.tokens[self.index].span.duplicate();
            match self.advance() {
                Err(e) => {
                    return Err(e);
                },
                Ok(()) => {},
            }
            let b = match self.parse_exponentiation() {
                Err(e) => {
                    return Err(e);
                },
                Ok(b) => b,
            };
            node = ASTNode::BinaryOp(Box::new(node), op, Box::new(b), span);
        }
    }

    /// Parses an `expression`: sums group to the left.
    pub fn parse_expression(&mut self) -> (r: Result<ASTNode, CompilerError>)
        requires
            old(self).wf(),
        ensures
            final(self).wf(),
            final(self).stream() == old(self).stream(),
            agrees(r, expression(old(self).stream(), old(self).position()), final(self).position()),
            r is Ok ==> old(self).position() < final(self).position(),
        decreases old(self).stream().tokens.len() - old(self).position(), 5nat,
    {
        let ghost ts = self.stream();
        let ghost i = self.position();
        let mut node = match self.parse_term() {
            Err(e) => {
                return Err(e);
            },
            Ok(a) => a,
        };
        loop
            invariant
                self.wf(),
                ts == old(self).stream(),
                i == old(self).position(),
                self.stream() == ts,
                i < self.position(),
                expression(ts, i) == expression_rest(ts, self.position(), node@),
            decreases ts.tokens.len() - self.position(),
        {
            let op = match &self.tokens[self.index].kind {
                TokenKind::Plus => BinaryOperator::Add,
                TokenKind::Minus => BinaryOperator::Subtract,
                _ => {
                    return Ok(node);
                },
            };
            let span = self.tokens[self.index].span.duplicate();
            match self.advance() {
                Err(e) => {
                    return Err(e);
                },
                Ok(()) => {},
            }
            let b = match self.parse_term() {
                Err(e) => {
                    return Err(e);
                },
                Ok(b) => b,
            };
            node = ASTNode::BinaryOp(Box::new(node), op, Box::new(b), span);
        }
    }
}

/// Reads a whole text as one expression.
pub fn lex_parse_input(input: &str) -> (r: Result<ASTNode, CompilerError>)
    requires
        input@.len() < usize::MAX,
    ensures
        match (r, parse_text(input@)) {
            (Ok(n), Ok(t)) => n@ == t,
            (Err(e), Err(e2)) => e == e2,
            _ => false,
        },
{
    let lexer = Lexer::new(input);
    let mut parser = match Parser::new(lexer) {
        Err(e) => {
            return Err(e);
        },
        Ok(p) => p,
    };
    let a = match parser.parse_expression() {
        Err(e) => {
            return Err(e);
        },
        Ok(a) => a,
    };
    if parser.is_here(&TokenKind::Eof) {
        Ok(a)
    } else if parser.is_here(&TokenKind::RightParen) {
        let (l, c) = parser.here();
        Err(CompilerError::Parse(ParserError::MissingLParen(l, c)))
    } else {
        let (l, c) = parser.here();
        Err(CompilerError::Parse(ParserError::UnexpectedToken(l, c)))
    }
}

} // verus!
