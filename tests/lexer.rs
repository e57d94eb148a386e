use arithmetic::error::LexerError;
use arithmetic::lexer::Lexer;
use arithmetic::token::{Num, TokenKind};

fn kinds(input: &str) -> Vec<TokenKind> {
    let mut lexer = Lexer::new(input);
    lexer.lex_all().unwrap().into_iter().map(|t| t.kind).collect()
}

fn lex_error(input: &str) -> LexerError {
    let mut lexer = Lexer::new(input);
    match lexer.lex_all() {
        Err(e) => e,
        Ok(tokens) => panic!("expected an error, got {:?}", tokens),
    }
}

#[test]
fn test_empty_input() {
    let input = "";
    let mut lexer = Lexer::new(input);
    let tokens = lexer.lex_all().unwrap();

    assert_eq!(tokens.len(), 0);
}

#[test]
fn test_single_number() {
    let input = "123";
    let mut lexer = Lexer::new(input);
    let tokens = lexer.lex_all().unwrap();

    assert_eq!(tokens.len(), 1);
    assert_eq!(tokens[0].kind, TokenKind::Number(Num::Integer(123)));
}

#[test]
fn test_basic_expression() {
    let input = "3 + 4";
    let mut lexer = Lexer::new(input);
    let tokens = lexer.lex_all().unwrap();

    assert_eq!(tokens.len(), 3);
    assert_eq!(tokens[0].kind, TokenKind::Number(Num::Integer(3)));
    assert_eq!(tokens[1].kind, TokenKind::Plus);
    assert_eq!(tokens[2].kind, TokenKind::Number(Num::Integer(4)));
}

#[test]
fn test_unexpected_character() {
    let input = "3 + @";
    let mut lexer = Lexer::new(input);
    let result = lexer.lex_all();

    assert!(result.is_err());
    match result {
        Err(LexerError::InvalidCharacter(c, line, column)) => {
            assert_eq!(c, '@');
            assert_eq!(line, 1);
            assert_eq!(column, 4);
        }
        _ => panic!("Expected InvalidCharacter error"),
    }
}

#[test]
fn end_marker_follows_the_last_token_and_repeats() {
    let mut lexer = Lexer::new("3 + 4");
    let mut seen = Vec::new();
    for _ in 0..5 {
        seen.push(lexer.get_next_token().unwrap().kind);
    }
    assert_eq!(
        seen,
        vec![
            TokenKind::Number(Num::Integer(3)),
            TokenKind::Plus,
            TokenKind::Number(Num::Integer(4)),
            TokenKind::Eof,
            TokenKind::Eof,
        ]
    );
}

#[test]
fn spans_give_offsets_text_line_and_column() {
    let mut lexer = Lexer::new("a\n  bc1 + 22");
    let a = lexer.get_next_token().unwrap();
    assert_eq!((a.span.start, a.span.end, a.span.line, a.span.column), (0, 1, 1, 0));
    assert_eq!(a.span.literal, "a");
    let b = lexer.get_next_token().unwrap();
    assert_eq!(b.kind, TokenKind::Identifier("bc1".to_string()));
    assert_eq!((b.span.start, b.span.end, b.span.line, b.span.column), (4, 7, 2, 2));
    assert_eq!(b.span.literal, "bc1");
    lexer.get_next_token().unwrap();
    let n = lexer.get_next_token().unwrap();
    assert_eq!(n.span.literal, "22");
    assert_eq!((n.span.line, n.span.column), (2, 8));
}

#[test]
fn comments_produce_no_tokens() {
    assert_eq!(
        kinds("1 // a comment\n+ { a block\n comment } 2 {unclosed"),
        vec![
            TokenKind::Number(Num::Integer(1)),
            TokenKind::Plus,
            TokenKind::Number(Num::Integer(2)),
        ]
    );
    assert_eq!(kinds("4 / 2"), vec![
        TokenKind::Number(Num::Integer(4)),
        TokenKind::Divide,
        TokenKind::Number(Num::Integer(2)),
    ]);
}

#[test]
fn white_space_of_every_kind_is_skipped() {
    assert_eq!(kinds("\t1\r\n*\u{00A0}2 "), vec![
        TokenKind::Number(Num::Integer(1)),
        TokenKind::Multiply,
        TokenKind::Number(Num::Integer(2)),
    ]);
}

#[test]
fn numbers_decimals_and_scientific_notation() {
    assert_eq!(kinds("3.5 7. 1.3E+2 2E5 4E-1"), vec![
        TokenKind::Number(Num::Float("3.5".to_string())),
        TokenKind::Number(Num::Float("7.".to_string())),
        TokenKind::Mantissa("1.3E+2".to_string()),
        TokenKind::Mantissa("2E5".to_string()),
        TokenKind::Mantissa("4E-1".to_string()),
    ]);
}

#[test]
fn largest_integer_literal_and_one_past_it() {
    assert_eq!(kinds("9223372036854775807"), vec![TokenKind::Number(Num::Integer(i64::MAX))]);
    assert_eq!(lex_error("1 + 9223372036854775808"), LexerError::InvalidNumber(1, 4));
}

#[test]
fn exponent_without_digits_is_an_invalid_number() {
    assert_eq!(lex_error("1.5E+"), LexerError::InvalidNumber(1, 0));
    assert_eq!(lex_error("  2E"), LexerError::InvalidNumber(1, 2));
}

#[test]
fn number_followed_by_a_letter_is_rejected() {
    assert_eq!(lex_error("2x"), LexerError::InvalidIdentifierStart(1, 1));
    assert_eq!(lex_error("1 + 3e"), LexerError::InvalidIdentifierStart(1, 5));
    assert_eq!(lex_error("2E3_"), LexerError::InvalidIdentifierStart(1, 3));
}

#[test]
fn keywords_are_case_folded_and_names_keep_their_case() {
    assert_eq!(
        kinds("SIN Cos tan cotan ARCSIN arccos arctan arccotan ln log exp sqrt sqr div MOD e PI"),
        vec![
            TokenKind::Sin,
            TokenKind::Cos,
            TokenKind::Tan,
            TokenKind::Cotan,
            TokenKind::Arcsin,
            TokenKind::Arccos,
            TokenKind::Arctan,
            TokenKind::Arccotan,
            TokenKind::Ln,
            TokenKind::Log,
            TokenKind::Exp,
            TokenKind::Sqrt,
            TokenKind::Sqr,
            TokenKind::Div,
            TokenKind::Mod,
            TokenKind::Euler,
            TokenKind::Pi,
        ]
    );
    assert_eq!(kinds("Xy sinh _a x2"), vec![
        TokenKind::Identifier("Xy".to_string()),
        TokenKind::Identifier("sinh".to_string()),
        TokenKind::Identifier("_a".to_string()),
        TokenKind::Identifier("x2".to_string()),
    ]);
}

#[test]
fn letters_beyond_ascii_make_identifiers() {
    assert_eq!(kinds("été + λ1"), vec![
        TokenKind::Identifier("été".to_string()),
        TokenKind::Plus,
        TokenKind::Identifier("λ1".to_string()),
    ]);
}

#[test]
fn unknown_characters_are_rejected_with_their_position() {
    assert_eq!(lex_error("1 +\n  %"), LexerError::InvalidCharacter('%', 2, 2));
    assert_eq!(lex_error("€"), LexerError::InvalidCharacter('€', 1, 0));
    assert_eq!(lex_error(". 5"), LexerError::InvalidCharacter('.', 1, 0));
}

#[test]
fn reset_reads_the_text_again() {
    let mut lexer = Lexer::new("1 + x");
    let first = lexer.lex_all().unwrap();
    assert_eq!(lexer.get_next_token().unwrap().kind, TokenKind::Eof);
    lexer.reset();
    let second = lexer.lex_all().unwrap();
    assert_eq!(first, second);
}

#[test]
fn position_helpers_track_the_current_character() {
    let mut lexer = Lexer::new("ab");
    assert_eq!(lexer.current_char(), Some('a'));
    assert_eq!(lexer.peek(), Some('b'));
    lexer.advance();
    assert_eq!(lexer.current_char(), Some('b'));
    assert_eq!(lexer.peek(), None);
    lexer.advance();
    lexer.advance();
    assert_eq!(lexer.current_char(), None);
}

#[test]
fn character_classes() {
    assert!(Lexer::is_number_start(&'7'));
    assert!(!Lexer::is_number_start(&'a'));
    assert!(Lexer::is_identifier_start(&'_'));
    assert!(Lexer::is_identifier_start(&'é'));
    assert!(!Lexer::is_identifier_start(&'3'));
    assert!(Lexer::is_identifier_continuation(&'3'));
    assert!(!Lexer::is_identifier_continuation(&'-'));
    assert!(Lexer::is_ascii_start(&'+'));
    assert!(!Lexer::is_ascii_start(&'π'));
}

#[test]
fn token_listing() {
    let mut lexer = Lexer::new("x1 + 2.5\n* Pi");
    assert_eq!(
        lexer.stringify().unwrap(),
        "Token: Identifier(x1) at line 1, column 0.\n\
         Token: + at line 1, column 3.\n\
         Token: Number(2.5) at line 1, column 5.\n\
         Token: * at line 2, column 0.\n\
         Token: π at line 2, column 2.\n"
    );
    let mut bad = Lexer::new("1 ?");
    assert_eq!(bad.stringify(), Err(LexerError::InvalidCharacter('?', 1, 2)));
}

#[test]
fn token_kind_descriptions() {
    assert_eq!(TokenKind::Number(Num::Integer(42)).describe(), "Number(42)");
    assert_eq!(TokenKind::Arccotan.describe(), "ArcCotan");
    assert_eq!(TokenKind::Eof.describe(), "End of Input");
    assert_eq!(TokenKind::Mantissa("1E3".to_string()).describe(), "1E3");
}
