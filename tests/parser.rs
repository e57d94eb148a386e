use arithmetic::ast::{ASTNode, BinaryOperator, Constant, Function, UnaryOperator};
use arithmetic::error::{CompilerError, LexerError, ParserError};
use arithmetic::lexer::Lexer;
use arithmetic::parser::{lex_parse_input, Parser};
use arithmetic::postfix::Instruction;
use arithmetic::token::Num;

fn postfix_of(input: &str) -> String {
    lex_parse_input(input).unwrap().postfix()
}

fn parse_error(input: &str) -> CompilerError {
    match lex_parse_input(input) {
        Err(e) => e,
        Ok(ast) => panic!("expected an error, got {:?}", ast),
    }
}

#[test]
fn exponent_groups_to_the_right() {
    match lex_parse_input("2^2^3").unwrap() {
        ASTNode::BinaryOp(left, BinaryOperator::Power, right, span) => {
            assert!(matches!(*left, ASTNode::Number(Num::Integer(2), _)));
            assert_eq!(span.column, 1);
            match *right {
                ASTNode::BinaryOp(a, BinaryOperator::Power, b, inner) => {
                    assert!(matches!(*a, ASTNode::Number(Num::Integer(2), _)));
                    assert!(matches!(*b, ASTNode::Number(Num::Integer(3), _)));
                    assert_eq!(inner.column, 3);
                }
                other => panic!("unexpected right operand {:?}", other),
            }
        }
        other => panic!("unexpected tree {:?}", other),
    }
    assert_eq!(postfix_of("2^2^3"), "2 2 3 ^ ^ ");
}

#[test]
fn sums_and_products_group_to_the_left() {
    assert_eq!(postfix_of("8 - 3 - 2"), "8 3 - 2 - ");
    assert_eq!(postfix_of("8 / 4 * 2 div 3 mod 5"), "8 4 / 2 * 3 div 5 mod ");
}

#[test]
fn precedence_of_the_levels() {
    assert_eq!(postfix_of("2 + 3 * 4 ^ 2"), "2 3 4 2 ^ * + ");
    assert_eq!(postfix_of("(2 + 3) * 4"), "2 3 + 4 * ");
    assert_eq!(postfix_of("-2 ^ 2"), "2 - 2 ^ ");
}

#[test]
fn unary_signs() {
    match lex_parse_input("-x").unwrap() {
        ASTNode::UnaryOp(UnaryOperator::Minus, a, span) => {
            assert!(matches!(*a, ASTNode::Identifier(ref n, _) if n == "x"));
            assert_eq!(span.column, 0);
        }
        other => panic!("unexpected tree {:?}", other),
    }
    assert!(matches!(lex_parse_input("+x").unwrap(), ASTNode::Identifier(ref n, _) if n == "x"));
    assert_eq!(postfix_of("--+3"), "3 - - ");
}

#[test]
fn leaves_of_every_kind() {
    assert!(matches!(lex_parse_input("pi").unwrap(), ASTNode::Constant(Constant::Pi, _)));
    assert!(matches!(lex_parse_input("E").unwrap(), ASTNode::Constant(Constant::Euler, _)));
    assert!(matches!(lex_parse_input("1.3E+2").unwrap(), ASTNode::Mantissa(ref t, _) if t == "1.3E+2"));
    assert!(matches!(lex_parse_input("3.5").unwrap(), ASTNode::Number(Num::Float(ref t), _) if t == "3.5"));
    assert!(matches!(lex_parse_input("Rate").unwrap(), ASTNode::Identifier(ref t, _) if t == "Rate"));
}

#[test]
fn function_calls_nest() {
    match lex_parse_input("sqrt(sqr(-5))").unwrap() {
        ASTNode::FunctionCall(Function::Sqrt, arg, _) => match *arg {
            ASTNode::FunctionCall(Function::Sqr, inner, _) => {
                assert!(matches!(*inner, ASTNode::UnaryOp(UnaryOperator::Minus, _, _)));
            }
            other => panic!("unexpected argument {:?}", other),
        },
        other => panic!("unexpected tree {:?}", other),
    }
    assert_eq!(postfix_of("sqrt(sqr(-5))"), "5 - sqr sqrt ");
    assert_eq!(postfix_of("Log(x) + ARCTAN(1)"), "x log 1 arctan + ");
}

#[test]
fn missing_operator_between_numbers() {
    assert_eq!(
        parse_error("2 3"),
        CompilerError::Parse(ParserError::MissingOperator(1, 2))
    );
    assert!(lex_parse_input("2 + 3").is_ok());
    assert_eq!(
        parse_error("1.5 2"),
        CompilerError::Parse(ParserError::MissingOperator(1, 4))
    );
}

#[test]
fn unmatched_parentheses() {
    assert_eq!(
        parse_error("(2 + 3"),
        CompilerError::Parse(ParserError::MissingRParen(1, 6))
    );
    assert_eq!(
        parse_error("2 + 3)"),
        CompilerError::Parse(ParserError::MissingLParen(1, 5))
    );
    assert_eq!(
        parse_error(")"),
        CompilerError::Parse(ParserError::MissingLParen(1, 0))
    );
}

#[test]
fn function_needs_its_parentheses() {
    assert_eq!(
        parse_error("sin 30"),
        CompilerError::Parse(ParserError::MissingLParen(1, 4))
    );
    assert_eq!(
        parse_error("cos(30"),
        CompilerError::Parse(ParserError::MissingRParen(1, 6))
    );
}

#[test]
fn unexpected_tokens() {
    assert_eq!(parse_error(""), CompilerError::Parse(ParserError::UnexpectedToken(1, 0)));
    assert_eq!(parse_error("* 3"), CompilerError::Parse(ParserError::UnexpectedToken(1, 0)));
    assert_eq!(parse_error("2 +"), CompilerError::Parse(ParserError::UnexpectedToken(1, 3)));
    assert_eq!(parse_error("2 x"), CompilerError::Parse(ParserError::UnexpectedToken(1, 2)));
}

#[test]
fn tokenizer_errors_surface_when_the_parser_reaches_them() {
    assert_eq!(
        parse_error("2 + @"),
        CompilerError::Lex(LexerError::InvalidCharacter('@', 1, 4))
    );
    assert_eq!(
        parse_error("2 3 @"),
        CompilerError::Parse(ParserError::MissingOperator(1, 2))
    );
    assert_eq!(
        parse_error("#"),
        CompilerError::Lex(LexerError::InvalidCharacter('#', 1, 0))
    );
}

#[test]
fn parser_methods_over_a_lexer() {
    let lexer = Lexer::new("1 + 2 * 3");
    let mut parser = Parser::new(lexer).unwrap();
    let whole = parser.parse_expression().unwrap();
    assert_eq!(whole.postfix(), "1 2 3 * + ");
    parser.reset();
    let first = parser.parse_term().unwrap();
    assert_eq!(first.postfix(), "1 ");
    parser.reset();
    assert!(matches!(parser.parse_factor().unwrap(), ASTNode::Number(Num::Integer(1), _)));
    assert!(Parser::new(Lexer::new("$")).is_err());
}

#[test]
fn postfix_of_scenario_expressions() {
    assert_eq!(postfix_of("3.5 mod 2"), "3.5 2 mod ");
    assert_eq!(postfix_of("7 div 2"), "7 2 div ");
    assert_eq!(postfix_of("1/0.5"), "1 0.5 / ");
    assert_eq!(postfix_of("x^2 - 4"), "x 2 ^ 4 - ");
    assert_eq!(postfix_of("e * pi"), "e π * ");
}

#[test]
fn post_order_program() {
    let ast = lex_parse_input("-(x + 1.5) * sin(2E1)").unwrap();
    let program = ast.program();
    assert_eq!(program.len(), 7);
    assert!(matches!(program[0], Instruction::Identifier(ref n, _) if n == "x"));
    assert!(matches!(program[1], Instruction::Float(ref t, _) if t == "1.5"));
    assert!(matches!(program[2], Instruction::Binary(BinaryOperator::Add, _)));
    assert!(matches!(program[3], Instruction::Unary(UnaryOperator::Minus, _)));
    assert!(matches!(program[4], Instruction::Mantissa(ref t, _) if t == "2E1"));
    assert!(matches!(program[5], Instruction::Call(Function::Sin, _)));
    match &program[6] {
        Instruction::Binary(BinaryOperator::Multiply, span) => assert_eq!(span.column, 11),
        other => panic!("unexpected step {:?}", other),
    }
}

#[test]
fn tree_outline() {
    let ast = lex_parse_input("1 + -sqr(2)").unwrap();
    assert_eq!(
        ast.stringify(String::new(), false),
        "└── +\n    ├── 1\n    └── -\n        └── sqr\n            └── 2\n"
    );
    let ast = lex_parse_input("(a - b) ^ c").unwrap();
    assert_eq!(
        ast.stringify(String::new(), false),
        "└── ^\n    ├── -\n    │   ├── a\n    │   └── b\n    └── c\n"
    );
}
