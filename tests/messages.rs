use arithmetic::error::{
    CompilerError, EvaluationError, LexerError, ParserError, PlottingError, RootFinderError,
};
use arithmetic::naming::generate_random_4_digits;

#[test]
fn lexer_error_messages() {
    assert_eq!(
        LexerError::InvalidCharacter('@', 1, 4).message(),
        "Syntax Error: Invalid character '@' at line 1, column 4."
    );
    assert_eq!(
        LexerError::InvalidNumber(12, 0).message(),
        "Syntax Error: Invalid number at line 12, column 0."
    );
    assert_eq!(
        LexerError::InvalidIdentifierStart(3, 105).message(),
        "Syntax Error: Identifier cannot start with a number at line 3, column 105."
    );
}

#[test]
fn parser_error_messages() {
    assert_eq!(
        ParserError::MissingRParen(1, 6).message(),
        "Syntax Error: Missing ')' at line 1, column 6."
    );
    assert_eq!(
        CompilerError::Parse(ParserError::MissingOperator(2, 10)).message(),
        "Syntax Error: Missing operator at line 2, column 10."
    );
}

#[test]
fn evaluation_and_other_messages() {
    assert_eq!(
        EvaluationError::DivisionByZero(1, 1).message(),
        "Runtime Error: Division by zero at line 1, column 1."
    );
    assert_eq!(
        CompilerError::Eval(EvaluationError::IntegerOperatorWithFloatOperands(1, 4)).message(),
        "Runtime Error: Integer operator used with float operands at line 1, column 4."
    );
    assert_eq!(
        RootFinderError::InvalidInterval.message(),
        "Invalid interval: The interval provided is not valid."
    );
    assert_eq!(
        CompilerError::Plot(PlottingError::FileCreationError).message(),
        "File creation error: Failed to create or write to the specified file."
    );
}

#[test]
fn four_digit_names() {
    assert_eq!(generate_random_4_digits(0), 1000);
    assert_eq!(generate_random_4_digits(8999), 9999);
    assert_eq!(generate_random_4_digits(9000), 1000);
    assert_eq!(generate_random_4_digits(65535), 3535);
    assert_eq!(generate_random_4_digits(65536 + 7), 1007);
}
