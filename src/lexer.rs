//! The tokenizer: turns source text into tokens with their spans.
//!
//! The token grammar is stated by the spec functions below, over the
//! characters of the source; `Lexer::get_next_token` is proved to return
//! exactly what `scan` describes.

use vstd::prelude::*;
use crate::error::{position_text, LexerError};
use crate::span::{SpanView, TextSpan};
use crate::text::{
    push_signed, push_text, signed_decimal, chars_of, ident_continue, ident_start, is_alphabetic_char, is_alphanumeric_char, is_digit,
    is_whitespace, lowercase, same_chars, string_of, to_lowercase, whitespace,
};
use crate::token::{Lexeme, Num, Token, TokenKind, TokenView};

verus! {

/// The line (from 1) of offset `p`: one more than the line breaks before it.
pub open spec fn line_at(s: Seq<char>, p: int) -> int
    decreases p,
{
    if p <= 0 {
        1
    } else if s[p - 1] == '\n' {
        line_at(s, p - 1) + 1
    } else {
        line_at(s, p - 1)
    }
}

/// The column (from 0) of offset `p`: the characters since the last line break.
pub open spec fn column_at(s: Seq<char>, p: int) -> int
    decreases p,
{
    if p <= 0 {
        0
    } else if s[p - 1] == '\n' {
        0
    } else {
        column_at(s, p - 1) + 1
    }
}

/// The end of the run of white space that starts at `p`.
pub open spec fn ws_end(s: Seq<char>, p: int) -> int
    decreases s.len() - p,
{
    if 0 <= p < s.len() && whitespace(s[p]) {
        ws_end(s, p + 1)
    } else {
        p
    }
}

/// The end of a `//` comment that starts at `p`: the next line break, which
/// stays, or the end of the text.
pub open spec fn line_comment_end(s: Seq<char>, p: int) -> int
    decreases s.len() - p,
{
    if 0 <= p < s.len() && s[p] != '\n' {
        line_comment_end(s, p + 1)
    } else {
        p
    }
}

/// The end of a `{ }` comment whose body starts at `p`: just past the first
/// `}`, or the end of the text. Block comments do not nest.
pub open spec fn block_comment_end(s: Seq<char>, p: int) -> int
    decreases s.len() - p,
{
    if 0 <= p < s.len() {
        if s[p] == '}' {
            p + 1
        } else {
            block_comment_end(s, p + 1)
        }
    } else {
        p
    }
}

pub open spec fn starts_line_comment(s: Seq<char>, q: int) -> bool {
    0 <= q && q + 1 < s.len() && s[q] == '/' && s[q + 1] == '/'
}

pub open spec fn starts_block_comment(s: Seq<char>, q: int) -> bool {
    0 <= q < s.len() && s[q] == '{'
}

/// Where the next token starts: white space and comments are skipped.
pub open spec fn skip_trivia(s: Seq<char>, p: int) -> int
    decreases s.len() - p,
    via skip_trivia_decreases
{
    let q = ws_end(s, p);
    if starts_line_comment(s, q) {
        skip_trivia(s, line_comment_end(s, q))
    } else if starts_block_comment(s, q) {
        skip_trivia(s, block_comment_end(s, q + 1))
    } else {
        q
    }
}

#[via_fn]
proof fn skip_trivia_decreases(s: Seq<char>, p: int) {
    let q = ws_end(s, p);
    lemma_ws_end(s, p);
    if starts_line_comment(s, q) {
        lemma_line_comment_end(s, q);
        lemma_line_comment_end(s, q + 1);
    } else if starts_block_comment(s, q) {
        lemma_block_comment_end(s, q + 1);
    }
}

pub proof fn lemma_ws_end(s: Seq<char>, p: int)
    ensures
        p <= ws_end(s, p),
        0 <= p <= s.len() ==> ws_end(s, p) <= s.len(),
    decreases s.len() - p,
{
    if 0 <= p < s.len() && whitespace(s[p]) {
        lemma_ws_end(s, p + 1);
    }
}

pub proof fn lemma_line_comment_end(s: Seq<char>, p: int)
    ensures
        p <= line_comment_end(s, p),
        0 <= p <= s.len() ==> line_comment_end(s, p) <= s.len(),
    decreases s.len() - p,
{
    if 0 <= p < s.len() && s[p] != '\n' {
        lemma_line_comment_end(s, p + 1);
    }
}

pub proof fn lemma_block_comment_end(s: Seq<char>, p: int)
    ensures
        p <= block_comment_end(s, p),
        0 <= p <= s.len() ==> block_comment_end(s, p) <= s.len(),
    decreases s.len() - p,
{
    if 0 <= p < s.len() && s[p] != '}' {
        lemma_block_comment_end(s, p + 1);
    }
}

pub proof fn lemma_skip_trivia(s: Seq<char>, p: int)
    requires
        0 <= p <= s.len(),
    ensures
        p <= skip_trivia(s, p) <= s.len(),
    decreases s.len() - p,
{
    let q = ws_end(s, p);
    lemma_ws_end(s, p);
    if starts_line_comment(s, q) {
        lemma_line_comment_end(s, q);
        lemma_line_comment_end(s, q + 1);
        lemma_skip_trivia(s, line_comment_end(s, q));
    } else if starts_block_comment(s, q) {
        lemma_block_comment_end(s, q + 1);
        lemma_skip_trivia(s, block_comment_end(s, q + 1));
    }
}

/// The end of the run of ASCII digits that starts at `p`.
pub open spec fn digits_end(s: Seq<char>, p: int) -> int
    decreases s.len() - p,
{
    if 0 <= p < s.len() && is_digit(s[p]) {
        digits_end(s, p + 1)
    } else {
        p
    }
}

/// The end of the run of identifier characters that starts at `p`.
pub open spec fn ident_end(s: Seq<char>, p: int) -> int
    decreases s.len() - p,
{
    if 0 <= p < s.len() && ident_continue(s[p]) {
        ident_end(s, p + 1)
    } else {
        p
    }
}

pub proof fn lemma_digits_end(s: Seq<char>, p: int)
    ensures
        p <= digits_end(s, p),
        0 <= p <= s.len() ==> digits_end(s, p) <= s.len(),
        forall|i: int| p <= i < digits_end(s, p) ==> is_digit(s[i]),
    decreases s.len() - p,
{
    if 0 <= p < s.len() && is_digit(s[p]) {
        lemma_digits_end(s, p + 1);
    }
}

pub proof fn lemma_ident_end(s: Seq<char>, p: int)
    ensures
        p <= ident_end(s, p),
        0 <= p <= s.len() ==> ident_end(s, p) <= s.len(),
    decreases s.len() - p,
{
    if 0 <= p < s.len() && ident_continue(s[p]) {
        lemma_ident_end(s, p + 1);
    }
}

/// The value of a string of decimal digits.
pub open spec fn digits_value(d: Seq<char>) -> nat
    decreases d.len(),
{
    if d.len() == 0 {
        0
    } else {
        digits_value(d.drop_last()) * 10 + (d.last() as nat - '0' as nat) as nat
    }
}

/// A longer run of digits never has a smaller value.
pub proof fn lemma_digits_value_grows(s: Seq<char>, q: int, j: int, k: int)
    requires
        0 <= q <= j <= k <= s.len(),
        forall|i: int| q <= i < k ==> is_digit(s[i]),
    ensures
        digits_value(s.subrange(q, j)) <= digits_value(s.subrange(q, k)),
    decreases k - j,
{
    if j < k {
        lemma_digits_value_grows(s, q, j, k - 1);
        assert(s.subrange(q, k).drop_last() =~= s.subrange(q, k - 1));
    }
}

/// The numeric literal that starts at `q` (a digit) and the offset just past
/// it: digits, optionally `.` and digits; with `E`, an optional sign and at
/// least one digit it is scientific notation, kept as text.
pub open spec fn number_at(s: Seq<char>, q: int) -> Result<(Lexeme, int), LexerError> {
    let i = digits_end(s, q);
    let has_dot = 0 <= i < s.len() && s[i] == '.';
    let k = if has_dot {
        digits_end(s, i + 1)
    } else {
        i
    };
    if 0 <= k < s.len() && s[k] == 'E' {
        let m = if k + 1 < s.len() && (s[k + 1] == '+' || s[k + 1] == '-') {
            k + 2
        } else {
            k + 1
        };
        let e = digits_end(s, m);
        if e == m {
            Err(LexerError::InvalidNumber(line_at(s, q) as usize, column_at(s, q) as usize))
        } else {
            Ok((Lexeme::Mantissa(s.subrange(q, e)), e))
        }
    } else if has_dot {
        Ok((Lexeme::Float(s.subrange(q, k)), k))
    } else if digits_value(s.subrange(q, k)) <= i64::MAX {
        Ok((Lexeme::Integer(digits_value(s.subrange(q, k)) as i64), k))
    } else {
        Err(LexerError::InvalidNumber(line_at(s, q) as usize, column_at(s, q) as usize))
    }
}

/// The keyword that a lower-cased word spells, if any.
pub open spec fn keyword(w: Seq<char>) -> Option<Lexeme> {
    if w == "sin"@ {
        Some(Lexeme::Sin)
    } else if w == "cos"@ {
        Some(Lexeme::Cos)
    } else if w == "tan"@ {
        Some(Lexeme::Tan)
    } else if w == "cotan"@ {
        Some(Lexeme::Cotan)
    } else if w == "arcsin"@ {
        Some(Lexeme::Arcsin)
    } else if w == "arccos"@ {
        Some(Lexeme::Arccos)
    } else if w == "arctan"@ {
        Some(Lexeme::Arctan)
    } else if w == "arccotan"@ {
        Some(Lexeme::Arccotan)
    } else if w == "ln"@ {
        Some(Lexeme::Ln)
    } else if w == "log"@ {
        Some(Lexeme::Log)
    } else if w == "exp"@ {
        Some(Lexeme::Exp)
    } else if w == "sqrt"@ {
        Some(Lexeme::Sqrt)
    } else if w == "sqr"@ {
        Some(Lexeme::Sqr)
    } else if w == "div"@ {
        Some(Lexeme::Div)
    } else if w == "mod"@ {
        Some(Lexeme::Mod)
    } else if w == "e"@ {
        Some(Lexeme::Euler)
    } else if w == "pi"@ {
        Some(Lexeme::Pi)
    } else {
        None
    }
}

/// A word is a keyword when its lower-case form is one; otherwise it is an
/// identifier, kept in its own case.
pub open spec fn word_lexeme(w: Seq<char>) -> Lexeme {
    match keyword(lowercase(w)) {
        Some(k) => k,
        None => Lexeme::Identifier(w),
    }
}

/// The single-character operators and parentheses.
pub open spec fn punctuation(c: char) -> Option<Lexeme> {
    if c == '+' {
        Some(Lexeme::Plus)
    } else if c == '-' {
        Some(Lexeme::Minus)
    } else if c == '*' {
        Some(Lexeme::Multiply)
    } else if c == '/' {
        Some(Lexeme::Divide)
    } else if c == '(' {
        Some(Lexeme::LeftParen)
    } else if c == ')' {
        Some(Lexeme::RightParen)
    } else if c == '^' {
        Some(Lexeme::Power)
    } else {
        None
    }
}

/// The next token after offset `p`: its kind, where it starts and where it
/// ends; or the error that stops the tokenizer there.
pub open spec fn scan(s: Seq<char>, p: int) -> Result<(Lexeme, int, int), LexerError> {
    let q = skip_trivia(s, p);
    if q >= s.len() {
        Ok((Lexeme::Eof, q, q))
    } else if is_digit(s[q]) {
        match number_at(s, q) {
            Err(e) => Err(e),
            Ok((k, e)) => if e < s.len() && ident_start(s[e]) {
                Err(
                    LexerError::InvalidIdentifierStart(
                        line_at(s, e) as usize,
                        column_at(s, e) as usize,
                    ),
                )
            } else {
                Ok((k, q, e))
            },
        }
    } else if ident_start(s[q]) {
        let e = ident_end(s, q + 1);
        Ok((word_lexeme(s.subrange(q, e)), q, e))
    } else {
        match punctuation(s[q]) {
            Some(k) => Ok((k, q, q + 1)),
            None => Err(
                LexerError::InvalidCharacter(
                    s[q],
                    line_at(s, q) as usize,
                    column_at(s, q) as usize,
                ),
            ),
        }
    }
}

/// The token of kind `k` over `s[start..end]`.
pub open spec fn token_view(s: Seq<char>, k: Lexeme, start: int, end: int) -> TokenView {
    TokenView {
        kind: k,
        span: SpanView {
            start,
            end,
            literal: s.subrange(start, end),
            line: line_at(s, start),
            column: column_at(s, start),
        },
    }
}

pub proof fn lemma_line_column_bound(s: Seq<char>, p: int)
    requires
        0 <= p,
    ensures
        1 <= line_at(s, p) <= p + 1,
        0 <= column_at(s, p) <= p,
    decreases p,
{
    if p > 0 {
        lemma_line_column_bound(s, p - 1);
    }
}

pub proof fn lemma_number_at(s: Seq<char>, q: int)
    requires
        0 <= q < s.len(),
        is_digit(s[q]),
    ensures
        number_at(s, q) matches Ok((k, e)) ==> q < e <= s.len() && k != Lexeme::Eof,
{
    lemma_digits_end(s, q);
    let i = digits_end(s, q);
    lemma_digits_end(s, i + 1);
    let k = if 0 <= i < s.len() && s[i] == '.' { digits_end(s, i + 1) } else { i };
    lemma_digits_end(s, k + 1);
    lemma_digits_end(s, k + 2);
}

/// Every token but the end marker is non-empty and lies in the text.
pub proof fn lemma_scan(s: Seq<char>, p: int)
    requires
        0 <= p <= s.len(),
    ensures
        scan(s, p) matches Ok((k, st, e)) ==> p <= st <= e <= s.len() && (k == Lexeme::Eof
            <==> st == e) && (k == Lexeme::Eof ==> e == s.len()),
{
    lemma_skip_trivia(s, p);
    let q = skip_trivia(s, p);
    if q < s.len() {
        if is_digit(s[q]) {
            lemma_number_at(s, q);
        } else if ident_start(s[q]) {
            lemma_ident_end(s, q + 1);
        }
    }
}

/// The tokenizer's state: the source characters and the current offset, with
/// the line and column of that offset.
pub struct Lexer {
    chars: Vec<char>,
    pos: usize,
    line: usize,
    column: usize,
}

impl Lexer {
    /// `0` to `9`.
    pub fn is_number_start(c: &char) -> (r: bool)
        ensures
            r == is_digit(*c),
    {
        '0' <= *c && *c <= '9'
    }

    /// A letter or `_`.
    pub fn is_identifier_start(c: &char) -> (r: bool)
        ensures
            r == ident_start(*c),
    {
        *c == '_' || is_alphabetic_char(*c)
    }

    /// A letter, a digit or `_`: `x2` is a valid name.
    pub fn is_identifier_continuation(c: &char) -> (r: bool)
        ensures
            r == ident_continue(*c),
    {
        *c == '_' || is_alphanumeric_char(*c)
    }

    /// An ASCII character: a candidate for punctuation.
    pub fn is_ascii_start(c: &char) -> (r: bool)
        ensures
            r == ((*c as u32) < 128),
    {
        (*c as u32) < 128
    }

    /// The source characters.
    pub closed spec fn text(&self) -> Seq<char> {
        self.chars@
    }

    /// The current offset.
    pub closed spec fn position(&self) -> int {
        self.pos as int
    }

    pub closed spec fn wf(&self) -> bool {
        &&& self.pos <= self.chars.len() < usize::MAX
        &&& self.line == line_at(self.chars@, self.pos as int)
        &&& self.column == column_at(self.chars@, self.pos as int)
    }

    pub proof fn lemma_wf(&self)
        requires
            self.wf(),
        ensures
            0 <= self.position() <= self.text().len() < usize::MAX,
    {
    }

    pub fn new(input: &str) -> (r: Self)
        requires
            input@.len() < usize::MAX,
        ensures
            r.wf(),
            r.text() == input@,
            r.position() == 0,
    {
        let chars = chars_of(input);
        Lexer { chars, pos: 0, line: 1, column: 0 }
    }

    /// Moves one character forward; at the end of the text it stays.
    pub fn advance(&mut self)
        requires
            old(self).wf(),
        ensures
            final(self).wf(),
            final(self).text() == old(self).text(),
            final(self).position() == if old(self).position() < old(self).text().len() {
                old(self).position() + 1
            } else {
                old(self).position()
            },
    {
        if self.pos >= self.chars.len() {
            return ;
        }
        let c = self.chars[self.pos];
        proof {
            lemma_line_column_bound(self.chars@, self.pos as int);
        }
        self.pos += 1;
        if c == '\n' {
            self.line += 1;
            self.column = 0;
        } else {
            self.column += 1;
        }
    }

    pub fn current_char(&self) -> (r: Option<char>)
        requires
            self.wf(),
        ensures
            r == if self.position() < self.text().len() {
                Some(self.text()[self.position()])
            } else {
                None::<char>
            },
    {
        if self.pos < self.chars.len() {
            Some(self.chars[self.pos])
        } else {
            None
        }
    }

    /// The character after the current one, if any.
    pub fn peek(&self) -> (r: Option<char>)
        requires
            self.wf(),
        ensures
            r == if self.position() + 1 < self.text().len() {
                Some(self.text()[self.position() + 1])
            } else {
                None::<char>
            },
    {
        if self.pos + 1 < self.chars.len() {
            Some(self.chars[self.pos + 1])
        } else {
            None
        }
    }

    /// Goes back to the start of the text, so that it can be read again.
    pub fn reset(&mut self)
        requires
            old(self).wf(),
        ensures
            final(self).wf(),
            final(self).text() == old(self).text(),
            final(self).position() == 0,
    {
        self.pos = 0;
        self.line = 1;
        self.column = 0;
    }

    pub fn skip_whitespace(&mut self)
        requires
            old(self).wf(),
        ensures
            final(self).wf(),
            final(self).text() == old(self).text(),
            final(self).position() == ws_end(old(self).text(), old(self).position()),
    {
        while self.pos < self.chars.len() && is_whitespace(self.chars[self.pos])
            invariant
                self.wf(),
                self.chars@ == old(self).chars@,
                ws_end(self.chars@, self.pos as int) == ws_end(
                    old(self).chars@,
                    old(self).pos as int,
                ),
            decreases self.chars.len() - self.pos,
        {
            self.advance();
        }
    }

    /// Skips a `//` comment, up to the line break.
    pub fn handle_line_comment(&mut self)
        requires
            old(self).wf(),
        ensures
            final(self).wf(),
            final(self).text() == old(self).text(),
            final(self).position() == line_comment_end(old(self).text(), old(self).position()),
    {
        while self.pos < self.chars.len() && self.chars[self.pos] != '\n'
            invariant
                self.wf(),
                self.chars@ == old(self).chars@,
                line_comment_end(self.chars@, self.pos as int) == line_comment_end(
                    old(self).chars@,
                    old(self).pos as int,
                ),
            decreases self.chars.len() - self.pos,
        {
            self.advance();
        }
    }

    /// Skips a `{ }` comment that starts at the current `{`.
    pub fn handle_block_comment(&mut self)
        requires
            old(self).wf(),
            old(self).position() < old(self).text().len(),
        ensures
            final(self).wf(),
            final(self).text() == old(self).text(),
            final(self).position() == block_comment_end(
                old(self).text(),
                old(self).position() + 1,
            ),
    {
        self.advance();
        while self.pos < self.chars.len() && self.chars[self.pos] != '}'
            invariant
                self.wf(),
                self.chars@ == old(self).chars@,
                block_comment_end(self.chars@, self.pos as int) == block_comment_end(
                    old(self).chars@,
                    old(self).pos + 1,
                ),
            decreases self.chars.len() - self.pos,
        {
            self.advance();
        }
        if self.pos < self.chars.len() {
            self.advance();
        }
    }

    /// Skips white space and comments.
    fn skip_trivia(&mut self)
        requires
            old(self).wf(),
        ensures
            final(self).wf(),
            final(self).text() == old(self).text(),
            final(self).position() == skip_trivia(old(self).text(), old(self).position()),
    {
        loop
            invariant
                self.wf(),
                self.chars@ == old(self).chars@,
                skip_trivia(self.chars@, self.pos as int) == skip_trivia(
                    old(self).chars@,
                    old(self).pos as int,
                ),
            decreases self.chars.len() - self.pos,
        {
            let ghost p = self.pos as int;
            self.skip_whitespace();
            proof {
                lemma_ws_end(self.chars@, p);
            }
            let c = self.current_char();
            if c == Some('/') && self.peek() == Some('/') {
                self.handle_line_comment();
                proof {
                    lemma_line_comment_end(self.chars@, ws_end(self.chars@, p) + 1);
                }
            } else if c == Some('{') {
                self.handle_block_comment();
                proof {
                    lemma_block_comment_end(self.chars@, ws_end(self.chars@, p) + 1);
                }
            } else {
                return ;
            }
        }
    }

    /// Reads a word: an identifier start followed by identifier characters.
    pub fn handle_identifier(&mut self) -> (r: String)
        requires
            old(self).wf(),
            old(self).position() < old(self).text().len(),
        ensures
            final(self).wf(),
            final(self).text() == old(self).text(),
            final(self).position() == ident_end(old(self).text(), old(self).position() + 1),
            r@ == old(self).text().subrange(old(self).position(), final(self).position()),
    {
        let start = self.pos;
        self.advance();
        while self.pos < self.chars.len() && Self::is_identifier_continuation(&self.chars[self.pos])
            invariant
                self.wf(),
                start < self.pos,
                self.chars@ == old(self).chars@,
                ident_end(self.chars@, self.pos as int) == ident_end(
                    old(self).chars@,
                    start + 1,
                ),
            decreases self.chars.len() - self.pos,
        {
            self.advance();
        }
        string_of(&self.chars, start, self.pos)
    }

    /// Advances over a run of ASCII digits.
    fn skip_digits(&mut self)
        requires
            old(self).wf(),
        ensures
            final(self).wf(),
            final(self).text() == old(self).text(),
            final(self).position() == digits_end(old(self).text(), old(self).position()),
    {
        while self.pos < self.chars.len() && Self::is_number_start(&self.chars[self.pos])
            invariant
                self.wf(),
                self.chars@ == old(self).chars@,
                digits_end(self.chars@, self.pos as int) == digits_end(
                    old(self).chars@,
                    old(self).pos as int,
                ),
            decreases self.chars.len() - self.pos,
        {
            self.advance();
        }
    }

    /// The value of the digits `chars[start..end]`, if it fits in an `i64`.
    fn integer_value(&self, start: usize, end: usize) -> (r: Option<i64>)
        requires
            self.wf(),
            start <= end <= self.text().len(),
            forall|i: int| start <= i < end ==> is_digit(self.text()[i]),
        ensures
            r == if digits_value(self.text().subrange(start as int, end as int)) <= i64::MAX {
                Some(digits_value(self.text().subrange(start as int, end as int)) as i64)
            } else {
                None::<i64>
            },
    {
        let ghost s = self.chars@;
        let mut acc: i64 = 0;
        let mut j: usize = start;
        while j < end
            invariant
                start <= j <= end <= s.len(),
                s == self.chars@,
                forall|i: int| start <= i < end ==> is_digit(s[i]),
                acc as int == digits_value(s.subrange(start as int, j as int)),
            decreases end - j,
        {
            let d = (self.chars[j] as u32 - '0' as u32) as i64;
            assert(s.subrange(start as int, j + 1).drop_last() =~= s.subrange(
                start as int,
                j as int,
            ));
            if acc > (i64::MAX - d) / 10 {
                proof {
                    lemma_digits_value_grows(s, start as int, j + 1, end as int);
                }
                return None;
            }
            acc = acc * 10 + d;
            j += 1;
        }
        Some(acc)
    }

    /// Reads a numeric literal that starts at the current digit.
    pub fn handle_number(&mut self) -> (r: Result<TokenKind, LexerError>)
        requires
            old(self).wf(),
            old(self).position() < old(self).text().len(),
            is_digit(old(self).text()[old(self).position()]),
        ensures
            final(self).wf(),
            final(self).text() == old(self).text(),
            match (r, number_at(old(self).text(), old(self).position())) {
                (Ok(k), Ok((k2, e))) => k@ == k2 && final(self).position() == e,
                (Err(e), Err(e2)) => e == e2,
                _ => false,
            },
    {
        let ghost s = self.chars@;
        let start = self.pos;
        let line = self.line;
        let column = self.column;
        proof {
            lemma_digits_end(s, start as int);
        }
        self.skip_digits();
        let mut has_dot = false;
        if self.pos < self.chars.len() && self.chars[self.pos] == '.' {
            has_dot = true;
            self.advance();
            proof {
                lemma_digits_end(s, self.pos as int);
            }
            self.skip_digits();
        }
        let k = self.pos;
        if self.pos < self.chars.len() && self.chars[self.pos] == 'E' {
            self.advance();
            if self.pos < self.chars.len() && (self.chars[self.pos] == '+' || self.chars[self.pos]
                == '-') {
                self.advance();
            }
            let m = self.pos;
            proof {
                lemma_digits_end(s, m as int);
            }
            self.skip_digits();
            if self.pos == m {
                return Err(LexerError::InvalidNumber(line, column));
            }
            return Ok(TokenKind::Mantissa(string_of(&self.chars, start, self.pos)));
        }
        if has_dot {
            return Ok(TokenKind::Number(Num::Float(string_of(&self.chars, start, k))));
        }
        match self.integer_value(start, k) {
            Some(v) => Ok(TokenKind::Number(Num::Integer(v))),
            None => Err(LexerError::InvalidNumber(line, column)),
        }
    }

    /// Reads an operator or a parenthesis.
    pub fn handle_punctuation(&mut self) -> (r: Result<TokenKind, LexerError>)
        requires
            old(self).wf(),
            old(self).position() < old(self).text().len(),
        ensures
            final(self).wf(),
            final(self).text() == old(self).text(),
            final(self).position() == old(self).position() + 1,
            match (r, punctuation(old(self).text()[old(self).position()])) {
                (Ok(k), Some(k2)) => k@ == k2,
                (Err(e), None) => e == LexerError::InvalidCharacter(
                    old(self).text()[old(self).position()],
                    line_at(old(self).text(), old(self).position()) as usize,
                    column_at(old(self).text(), old(self).position()) as usize,
                ),
                _ => false,
            },
    {
        let c = self.chars[self.pos];
        let line = self.line;
        let column = self.column;
        self.advance();
        if c == '+' {
            Ok(TokenKind::Plus)
        } else if c == '-' {
            Ok(TokenKind::Minus)
        } else if c == '*' {
            Ok(TokenKind::Multiply)
        } else if c == '/' {
            Ok(TokenKind::Divide)
        } else if c == '(' {
            Ok(TokenKind::LeftParen)
        } else if c == ')' {
            Ok(TokenKind::RightParen)
        } else if c == '^' {
            Ok(TokenKind::Power)
        } else {
            Err(LexerError::InvalidCharacter(c, line, column))
        }
    }

    /// The next token, or the error that stops the tokenizer; at the end of
    /// the text, the end marker (again on every later call).
    pub fn get_next_token(&mut self) -> (r: Result<Token, LexerError>)
        requires
            old(self).wf(),
        ensures
            final(self).wf(),
            final(self).text() == old(self).text(),
            match (r, scan(old(self).text(), old(self).position())) {
                (Ok(t), Ok((k, st, e))) => t@ == token_view(old(self).text(), k, st, e)
                    && final(self).position() == e,
                (Err(e), Err(e2)) => e == e2,
                _ => false,
            },
    {
        let ghost s = self.chars@;
        proof {
            lemma_skip_trivia(s, self.pos as int);
        }
        self.skip_trivia();
        let start = self.pos;
        let line = self.line;
        let column = self.column;
        if self.pos >= self.chars.len() {
            let span = TextSpan::new(start, start, String::new(), line, column);
            proof {
                assert(span.literal@ =~= s.subrange(start as int, start as int));
            }
            return Ok(Token::new(TokenKind::Eof, span));
        }
        let c = self.chars[self.pos];
        let kind = if Self::is_number_start(&c) {
            let kind = match self.handle_number() {
                Ok(k) => k,
                Err(e) => return Err(e),
            };
            proof {
                lemma_number_at(s, start as int);
            }
            if self.pos < self.chars.len() && Self::is_identifier_start(&self.chars[self.pos]) {
                return Err(LexerError::InvalidIdentifierStart(self.line, self.column));
            }
            kind
        } else if Self::is_identifier_start(&c) {
            let word = self.handle_identifier();
            proof {
                lemma_ident_end(s, start + 1);
            }
            keyword_kind(word)
        } else {
            match self.handle_punctuation() {
                Ok(k) => k,
                Err(e) => return Err(e),
            }
        };
        let literal = string_of(&self.chars, start, self.pos);
        let span = TextSpan::new(start, self.pos, literal, line, column);
        Ok(Token::new(kind, span))
    }

    /// All tokens up to the end marker, which is left out.
    pub fn lex_all(&mut self) -> (r: Result<Vec<Token>, LexerError>)
        requires
            old(self).wf(),
        ensures
            final(self).wf(),
            final(self).text() == old(self).text(),
            match (r, stream(old(self).text(), old(self).position())) {
                (Ok(v), (ts, None)) => v@.map_values(|t: Token| t@) == ts.drop_last(),
                (Err(e), (_, Some(e2))) => e == e2,
                _ => false,
            },
    {
        let mut tokens: Vec<Token> = Vec::new();
        loop
            invariant
                self.wf(),
                self.chars@ == old(self).chars@,
                ({
                    let (ts, f) = stream(self.text(), self.position());
                    let (ts0, f0) = stream(old(self).text(), old(self).position());
                    f == f0 && ts0 == tokens@.map_values(|t: Token| t@) + ts
                }),
            decreases self.chars.len() - self.pos,
        {
            let ghost p = self.pos as int;
            proof {
                lemma_scan(self.chars@, p);
            }
            match self.get_next_token() {
                Ok(t) => {
                    if matches!(t.kind, TokenKind::Eof) {
                        proof {
                            let ghost (ts, f) = stream(self.chars@, p);
                            assert(ts == seq![t@]);
                            assert(tokens@.map_values(|t: Token| t@) =~= (tokens@.map_values(
                                |t: Token| t@,
                            ) + ts).drop_last());
                        }
                        return Ok(tokens);
                    }
                    let ghost old_tokens = tokens@;
                    tokens.push(t);
                    proof {
                        assert(tokens@.map_values(|t: Token| t@) =~= old_tokens.map_values(
                            |t: Token| t@,
                        ).push(t@));
                        let ghost (ts, f) = stream(self.chars@, p);
                        let ghost (ts2, f2) = stream(self.chars@, self.pos as int);
                        assert(ts =~= seq![t@] + ts2);
                    }
                },
                Err(e) => {
                    return Err(e);
                },
            }
        }
    }
}


/// The tokens that the lexer hands out from its position on: up to and
/// including the end marker, or up to the first error, which comes with them.
pub fn token_stream(lexer: &mut Lexer) -> (r: (Vec<Token>, Option<LexerError>))
    requires
        old(lexer).wf(),
    ensures
        final(lexer).wf(),
        final(lexer).text() == old(lexer).text(),
        r.0@.map_values(|t: Token| t@) == stream(old(lexer).text(), old(lexer).position()).0,
        r.1 == stream(old(lexer).text(), old(lexer).position()).1,
{
    let mut tokens: Vec<Token> = Vec::new();
    loop
        invariant
            lexer.wf(),
            lexer.text() == old(lexer).text(),
            ({
                let (ts, f) = stream(lexer.text(), lexer.position());
                let (ts0, f0) = stream(old(lexer).text(), old(lexer).position());
                f == f0 && ts0 == tokens@.map_values(|t: Token| t@) + ts
            }),
        decreases lexer.text().len() - lexer.position(),
    {
        let ghost p = lexer.position();
        proof {
            lexer.lemma_wf();
            lemma_scan(lexer.text(), p);
        }
        match lexer.get_next_token() {
            Ok(t) => {
                let is_end = matches!(t.kind, TokenKind::Eof);
                let ghost old_tokens = tokens@;
                tokens.push(t);
                proof {
                    assert(tokens@.map_values(|t: Token| t@) =~= old_tokens.map_values(
                        |t: Token| t@,
                    ).push(t@));
                }
                if is_end {
                    proof {
                        let ghost (ts, f) = stream(lexer.text(), p);
                        assert(ts == seq![t@]);
                        assert(tokens@.map_values(|t: Token| t@) =~= old_tokens.map_values(
                            |t: Token| t@,
                        ) + ts);
                    }
                    return (tokens, None);
                }
                proof {
                    let ghost (ts, f) = stream(lexer.text(), p);
                    let ghost (ts2, f2) = stream(lexer.text(), lexer.position());
                    assert(ts =~= seq![t@] + ts2);
                }
            },
            Err(e) => {
                proof {
                    assert(tokens@.map_values(|t: Token| t@) =~= tokens@.map_values(
                        |t: Token| t@,
                    ) + Seq::<TokenView>::empty());
                }
                return (tokens, Some(e));
            },
        }
    }
}

/// The shape of every token stream: the end marker comes last and only
/// there, and it is missing exactly when an error stopped the tokenizer.
pub open spec fn stream_wf(ts: Seq<TokenView>, f: Option<LexerError>) -> bool {
    &&& forall|i: int| 0 <= i < ts.len() - 1 ==> ts[i].kind != Lexeme::Eof
    &&& f is None ==> ts.len() > 0 && ts.last().kind == Lexeme::Eof
    &&& f is Some ==> ts.len() == 0 || ts.last().kind != Lexeme::Eof
}

pub proof fn lemma_stream_wf(s: Seq<char>, p: int)
    requires
        0 <= p <= s.len(),
    ensures
        stream_wf(stream(s, p).0, stream(s, p).1),
    decreases s.len() - p,
{
    lemma_scan(s, p);
    match scan(s, p) {
        Err(e) => {},
        Ok((k, st, e)) => {
            if k != Lexeme::Eof {
                lemma_stream_wf(s, e);
                let (rest, f) = stream(s, e);
                let ts = seq![token_view(s, k, st, e)] + rest;
                assert forall|i: int| 0 <= i < ts.len() - 1 implies ts[i].kind != Lexeme::Eof by {
                    if i > 0 {
                        assert(ts[i] == rest[i - 1]);
                    }
                }
                if rest.len() > 0 {
                    assert(ts.last() == rest.last());
                }
            }
        },
    }
}

/// The tokens of a text come in source order without overlapping, each one
/// lies within the text, starts no earlier than `p`, and holds exactly the
/// characters between its offsets, on the line and column of its start.
pub proof fn lemma_stream_in_order(s: Seq<char>, p: int)
    requires
        0 <= p <= s.len(),
    ensures
        forall|i: int|
            0 <= i < stream(s, p).0.len() ==> {
                let t = #[trigger] stream(s, p).0[i];
                &&& p <= t.span.start <= t.span.end <= s.len()
                &&& t.span.literal == s.subrange(t.span.start, t.span.end)
                &&& t.span.line == line_at(s, t.span.start)
                &&& t.span.column == column_at(s, t.span.start)
            },
        forall|i: int|
            0 <= i < stream(s, p).0.len() - 1 ==> (#[trigger] stream(s, p).0[i]).span.end
                <= stream(s, p).0[i + 1].span.start,
    decreases s.len() - p,
{
    lemma_scan(s, p);
    match scan(s, p) {
        Err(e) => {},
        Ok((k, st, e)) => {
            if k != Lexeme::Eof {
                lemma_stream_in_order(s, e);
                let (rest, f) = stream(s, e);
                let ts = seq![token_view(s, k, st, e)] + rest;
                assert(stream(s, p).0 == ts);
                assert forall|i: int| 0 <= i < ts.len() implies {
                    let t = #[trigger] ts[i];
                    &&& p <= t.span.start <= t.span.end <= s.len()
                    &&& t.span.literal == s.subrange(t.span.start, t.span.end)
                    &&& t.span.line == line_at(s, t.span.start)
                    &&& t.span.column == column_at(s, t.span.start)
                } by {
                    if i > 0 {
                        assert(ts[i] == rest[i - 1]);
                    }
                }
                assert forall|i: int| 0 <= i < ts.len() - 1 implies (#[trigger] ts[i]).span.end
                    <= ts[i + 1].span.start by {
                    assert(ts[i + 1] == rest[i]);
                    if i > 0 {
                        assert(ts[i] == rest[i - 1]);
                    }
                }
            }
        },
    }
}

/// The token kind of a word: a keyword when its lower-case form is one,
/// otherwise an identifier in its own case.
fn keyword_kind(word: String) -> (r: TokenKind)
    ensures
        r@ == word_lexeme(word@),
{
    let lower = chars_of(to_lowercase(word.as_str()).as_str());
    if same_chars(&lower, &chars_of("sin")) {
        TokenKind::Sin
    } else if same_chars(&lower, &chars_of("cos")) {
        TokenKind::Cos
    } else if same_chars(&lower, &chars_of("tan")) {
        TokenKind::Tan
    } else if same_chars(&lower, &chars_of("cotan")) {
        TokenKind::Cotan
    } else if same_chars(&lower, &chars_of("arcsin")) {
        TokenKind::Arcsin
    } else if same_chars(&lower, &chars_of("arccos")) {
        TokenKind::Arccos
    } else if same_chars(&lower, &chars_of("arctan")) {
        TokenKind::Arctan
    } else if same_chars(&lower, &chars_of("arccotan")) {
        TokenKind::Arccotan
    } else if same_chars(&lower, &chars_of("ln")) {
        TokenKind::Ln
    } else if same_chars(&lower, &chars_of("log")) {
        TokenKind::Log
    } else if same_chars(&lower, &chars_of("exp")) {
        TokenKind::Exp
    } else if same_chars(&lower, &chars_of("sqrt")) {
        TokenKind::Sqrt
    } else if same_chars(&lower, &chars_of("sqr")) {
        TokenKind::Sqr
    } else if same_chars(&lower, &chars_of("div")) {
        TokenKind::Div
    } else if same_chars(&lower, &chars_of("mod")) {
        TokenKind::Mod
    } else if same_chars(&lower, &chars_of("e")) {
        TokenKind::Euler
    } else if same_chars(&lower, &chars_of("pi")) {
        TokenKind::Pi
    } else {
        TokenKind::Identifier(word)
    }
}

/// The tokens from offset `p` on, up to and including the end marker; or the
/// tokens before the first error, and that error.
pub open spec fn stream(s: Seq<char>, p: int) -> (Seq<TokenView>, Option<LexerError>)
    decreases s.len() - p,
    via stream_decreases
{
    if !(0 <= p <= s.len()) {
        (Seq::empty(), None)
    } else {
        match scan(s, p) {
        Err(e) => (Seq::empty(), Some(e)),
        Ok((k, st, e)) => if k == Lexeme::Eof {
            (seq![token_view(s, k, st, e)], None)
        } else {
            let (rest, f) = stream(s, e);
            (seq![token_view(s, k, st, e)] + rest, f)
        },
        }
    }
}

#[via_fn]
proof fn stream_decreases(s: Seq<char>, p: int) {
    if 0 <= p <= s.len() {
        lemma_scan(s, p);
    }
}

/// How a token kind is shown in a token listing.
pub open spec fn kind_text(k: Lexeme) -> Seq<char> {
    match k {
        Lexeme::Integer(v) => "Number("@ + signed_decimal(v as int) + ")"@,
        Lexeme::Float(x) => "Number("@ + x + ")"@,
        Lexeme::Mantissa(x) => x,
        Lexeme::Identifier(x) => "Identifier("@ + x + ")"@,
        _ => symbol_text(k),
    }
}

/// The fixed text of a token kind that carries no value.
pub open spec fn symbol_text(k: Lexeme) -> Seq<char> {
    match k {
        Lexeme::Plus => "+"@,
        Lexeme::Minus => "-"@,
        Lexeme::Multiply => "*"@,
        Lexeme::Divide => "/"@,
        Lexeme::Div => "div"@,
        Lexeme::Mod => "mod"@,
        Lexeme::Power => "^"@,
        Lexeme::LeftParen => "("@,
        Lexeme::RightParen => ")"@,
        Lexeme::Sin => "Sin"@,
        Lexeme::Cos => "Cos"@,
        Lexeme::Tan => "Tan"@,
        Lexeme::Cotan => "Cotan"@,
        Lexeme::Arcsin => "ArcSin"@,
        Lexeme::Arccos => "ArcCos"@,
        Lexeme::Arctan => "ArcTan"@,
        Lexeme::Arccotan => "ArcCotan"@,
        Lexeme::Ln => "Ln"@,
        Lexeme::Log => "Log"@,
        Lexeme::Exp => "Exp"@,
        Lexeme::Sqrt => "Sqrt"@,
        Lexeme::Sqr => "Sqr"@,
        Lexeme::Euler => "e"@,
        Lexeme::Pi => "π"@,
        _ => "End of Input"@,
    }
}

/// One line of a token listing.
pub open spec fn token_line(t: TokenView) -> Seq<char> {
    "Token: "@ + kind_text(t.kind) + position_text(t.span.line as usize, t.span.column as usize)
        + seq!['\n']
}

/// A token listing: one line per token.
pub open spec fn listing(ts: Seq<TokenView>) -> Seq<char>
    decreases ts.len(),
{
    if ts.len() == 0 {
        Seq::empty()
    } else {
        listing(ts.drop_last()) + token_line(ts.last())
    }
}

impl TokenKind {
    fn symbol(&self) -> (r: &'static str)
        ensures
            r@ == symbol_text(self@),
    {
        match self {
            TokenKind::Plus => "+",
            TokenKind::Minus => "-",
            TokenKind::Multiply => "*",
            TokenKind::Divide => "/",
            TokenKind::Div => "div",
            TokenKind::Mod => "mod",
            TokenKind::Power => "^",
            TokenKind::LeftParen => "(",
            TokenKind::RightParen => ")",
            TokenKind::Sin => "Sin",
            TokenKind::Cos => "Cos",
            TokenKind::Tan => "Tan",
            TokenKind::Cotan => "Cotan",
            TokenKind::Arcsin => "ArcSin",
            TokenKind::Arccos => "ArcCos",
            TokenKind::Arctan => "ArcTan",
            TokenKind::Arccotan => "ArcCotan",
            TokenKind::Ln => "Ln",
            TokenKind::Log => "Log",
            TokenKind::Exp => "Exp",
            TokenKind::Sqrt => "Sqrt",
            TokenKind::Sqr => "Sqr",
            TokenKind::Euler => "e",
            TokenKind::Pi => "π",
            _ => "End of Input",
        }
    }

    /// The kind as shown in a token listing.
    pub fn describe(&self) -> (r: String)
        ensures
            r@ == kind_text(self@),
    {
        let mut s = String::new();
        match self {
            TokenKind::Number(Num::Integer(v)) => {
                push_text(&mut s, "Number(");
                push_signed(&mut s, *v);
                push_text(&mut s, ")");
            },
            TokenKind::Number(Num::Float(x)) => {
                push_text(&mut s, "Number(");
                push_text(&mut s, x.as_str());
                push_text(&mut s, ")");
            },
            TokenKind::Mantissa(x) => push_text(&mut s, x.as_str()),
            TokenKind::Identifier(x) => {
                push_text(&mut s, "Identifier(");
                push_text(&mut s, x.as_str());
                push_text(&mut s, ")");
            },
            _ => push_text(&mut s, self.symbol()),
        }
        assert(s@ =~= kind_text(self@));
        s
    }
}

impl Lexer {
    /// Lists all tokens up to the end marker, one line each with its
    /// position.
    pub fn stringify(&mut self) -> (r: Result<String, LexerError>)
        requires
            old(self).wf(),
        ensures
            final(self).wf(),
            final(self).text() == old(self).text(),
            match (r, stream(old(self).text(), old(self).position())) {
                (Ok(s), (ts, None)) => s@ == listing(ts.drop_last()),
                (Err(e), (_, Some(e2))) => e == e2,
                _ => false,
            },
    {
        let tokens = match self.lex_all() {
            Err(e) => {
                return Err(e);
            },
            Ok(v) => v,
        };
        let ghost ts = tokens@.map_values(|t: Token| t@);
        let mut s = String::new();
        let mut k: usize = 0;
        while k < tokens.len()
            invariant
                k <= tokens.len(),
                ts == tokens@.map_values(|t: Token| t@),
                s@ == listing(ts.take(k as int)),
            decreases tokens.len() - k,
        {
            let t = &tokens[k];
            push_text(&mut s, "Token: ");
            let kind = t.kind.describe();
            push_text(&mut s, kind.as_str());
            let at = position_line(t.span.line, t.span.column);
            push_text(&mut s, at.as_str());
            assert(ts.take(k + 1).drop_last() =~= ts.take(k as int));
            assert(ts.take(k + 1).last() == t@);
            k += 1;
        }
        assert(ts.take(k as int) =~= ts);
        Ok(s)
    }
}

/// The position text of a listing line, with its line break.
fn position_line(line: usize, column: usize) -> (r: String)
    ensures
        r@ == position_text(line, column) + seq!['\n'],
{
    let mut s = String::new();
    push_text(&mut s, " at line ");
    crate::text::push_decimal(&mut s, line as u64);
    push_text(&mut s, ", column ");
    crate::text::push_decimal(&mut s, column as u64);
    push_text(&mut s, ".");
    crate::text::push_char(&mut s, '\n');
    assert(s@ =~= position_text(line, column) + seq!['\n']);
    s
}

} // verus!
