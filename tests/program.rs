use oxygen::error::{
    CmdlineError, Error, FileError, LexerError, ParserError, StatementError, TermError, TokenTypeError,
};
use oxygen::lexer::{tokenize, LexerState};
use oxygen::node::{Statement, Term};
use oxygen::parser::Parser;
use oxygen::token::{Keywords, Literals, Symbols, Token, TokenType, Types};

fn tokens_of(source: &str) -> Vec<Token> {
    let mut tokens: Vec<Token> = Vec::new();
    let mut state = LexerState::new();
    for line in source.split('\n') {
        assert!(tokenize(line, &mut tokens, &mut state).is_ok());
    }
    tokens
}

fn parse_source(source: &str) -> Result<Vec<Statement>, ParserError> {
    Parser::new(tokens_of(source)).parse()
}

fn ret(text: &str) -> Statement {
    Statement::Return { term: Term::LiteralInteger(text.to_string()) }
}

#[test]
fn main_program_tokenizes_to_nine_tokens() {
    let tokens = tokens_of("int main() {\n    return 0;\n}");
    assert_eq!(
        tokens,
        vec![
            Token::new(Types::Int, 1, 1),
            Token::new(TokenType::SomeName("main".to_string()), 1, 5),
            Token::new(Symbols::OpenParen, 1, 9),
            Token::new(Symbols::CloseParen, 1, 10),
            Token::new(Symbols::OpenCurly, 1, 12),
            Token::new(Keywords::Return, 2, 5),
            Token::new(Literals::Integer("0".to_string()), 2, 12),
            Token::new(Symbols::SemiColon, 2, 13),
            Token::new(Symbols::CloseCurly, 3, 1),
        ]
    );
}

#[test]
fn main_program_parses_to_one_function() {
    assert_eq!(
        parse_source("int main() {\n    return 0;\n}"),
        Ok(vec![Statement::FunctionDeclare {
            name: "main".to_string(),
            return_type: Types::Int,
            body: vec![ret("0")],
        }])
    );
}

#[test]
fn well_formed_program_returns_its_literal_text() {
    let prog = parse_source("int f() {\n  int g() { return 1; }\n  return 0042;\n}").unwrap();
    assert_eq!(prog.len(), 1);
    match &prog[0] {
        Statement::FunctionDeclare { name, return_type, body } => {
            assert_eq!(name, "f");
            assert_eq!(*return_type, Types::Int);
            assert_eq!(body.len(), 2);
            assert_eq!(
                body[0],
                Statement::FunctionDeclare {
                    name: "g".to_string(),
                    return_type: Types::Int,
                    body: vec![ret("1")],
                }
            );
            assert_eq!(body[1], ret("0042"));
        }
        other => panic!("not a function: {other:?}"),
    }
}

#[test]
fn each_symbol_alone_is_one_token_at_start() {
    let cases = [
        ("(", Symbols::OpenParen),
        (")", Symbols::CloseParen),
        ("{", Symbols::OpenCurly),
        ("}", Symbols::CloseCurly),
        (";", Symbols::SemiColon),
    ];
    for (text, symbol) in cases {
        assert_eq!(tokens_of(text), vec![Token::new(symbol, 1, 1)]);
    }
}

#[test]
fn identifiers_keep_their_text() {
    for text in ["_name", "n9me", "n_ame"] {
        assert_eq!(
            tokens_of(text),
            vec![Token::new(TokenType::SomeName(text.to_string()), 1, 1)]
        );
    }
}

#[test]
fn integer_literal_keeps_its_digits() {
    assert_eq!(
        tokens_of("99"),
        vec![Token::new(Literals::Integer("99".to_string()), 1, 1)]
    );
    assert_eq!(
        tokens_of("5"),
        vec![Token::new(Literals::Integer("5".to_string()), 1, 1)]
    );
}

#[test]
fn function_without_return_is_missing_return() {
    assert_eq!(
        parse_source("int main() { }"),
        Err(ParserError::Statement(StatementError::MissingReturn))
    );
    assert_eq!(
        parse_source("int main() { int g() { return 1; } }"),
        Err(ParserError::Statement(StatementError::MissingReturn))
    );
}

#[test]
fn program_starting_with_semicolon_is_unexpected_token() {
    assert_eq!(
        parse_source(";"),
        Err(ParserError::Statement(StatementError::UnexpectedToken {
            got: TokenType::Symbol(Symbols::SemiColon),
        }))
    );
    assert_eq!(
        parse_source("main() { return 0; }"),
        Err(ParserError::Statement(StatementError::UnexpectedToken {
            got: TokenType::SomeName("main".to_string()),
        }))
    );
}

#[test]
fn unexpected_token_inside_a_body() {
    assert_eq!(
        parse_source("int main() { 7 return 0; }"),
        Err(ParserError::Statement(StatementError::UnexpectedToken {
            got: TokenType::Literal(Literals::Integer("7".to_string())),
        }))
    );
}

#[test]
fn unterminated_body_expects_some_token() {
    assert_eq!(
        parse_source("int main() {\n return 0;"),
        Err(ParserError::Statement(StatementError::TokenType(
            TokenTypeError::ExpectedSomeGotNone
        )))
    );
}

#[test]
fn term_errors_rise_through_statements() {
    assert_eq!(
        parse_source("return ;"),
        Err(ParserError::Statement(StatementError::Term(TermError::TokenType(
            TokenTypeError::Expected {
                expected: TokenType::Literal(Literals::Integer("any".to_string())),
                got: TokenType::Symbol(Symbols::SemiColon),
            }
        ))))
    );
    assert_eq!(
        parse_source("return"),
        Err(ParserError::Statement(StatementError::Term(TermError::NoTerm)))
    );
}

#[test]
fn missing_semicolon_is_expected_got_none() {
    assert_eq!(
        parse_source("return 1"),
        Err(ParserError::Statement(StatementError::TokenType(
            TokenTypeError::ExpectedGotNone { expected: TokenType::Symbol(Symbols::SemiColon) }
        )))
    );
}

#[test]
fn header_errors_name_the_expected_token() {
    let tokens = vec![
        Token::new(Types::Int, 1, 1),
        Token::new(Keywords::Return, 1, 5),
    ];
    let mut parser = Parser::new(tokens);
    assert_eq!(
        oxygen::parser::parse_statement_function_declare(&mut parser),
        Err(StatementError::TokenType(TokenTypeError::Expected {
            expected: TokenType::SomeName("any".to_string()),
            got: TokenType::Keyword(Keywords::Return),
        }))
    );
    let mut parser = Parser::new(Vec::new());
    assert_eq!(
        oxygen::parser::parse_statement_function_declare(&mut parser),
        Err(StatementError::TokenType(TokenTypeError::ExpectedGotNone {
            expected: TokenType::Type(Types::Int),
        }))
    );
}

#[test]
fn several_top_level_statements_parse_in_order() {
    assert_eq!(
        parse_source("return 1; int a() { return 2; }\nreturn 3;"),
        Ok(vec![
            ret("1"),
            Statement::FunctionDeclare {
                name: "a".to_string(),
                return_type: Types::Int,
                body: vec![ret("2")],
            },
            ret("3"),
        ])
    );
}

#[test]
fn empty_program_parses_to_nothing() {
    assert_eq!(parse_source(""), Ok(Vec::new()));
}

#[test]
fn unknown_character_line_and_column_in_a_file() {
    let mut tokens: Vec<Token> = Vec::new();
    let mut state = LexerState::new();
    assert!(tokenize("int main() {", &mut tokens, &mut state).is_ok());
    let res = tokenize("  return ~0;", &mut tokens, &mut state);
    assert_eq!(
        res,
        Err(vec![LexerError::UnknownCharacter {
            the_char: '~',
            the_line: "  return ~0;".to_string(),
            line: 2,
            column: 10,
        }])
    );
    assert_eq!(tokens.len(), 5 + 3);
    assert!(tokens.iter().all(|t| !(t.line == 2 && t.column == 10)));
}

#[test]
fn errors_convert_into_the_general_error() {
    assert_eq!(
        Error::from(ParserError::Statement(StatementError::MissingReturn)),
        Error::Parser(ParserError::Statement(StatementError::MissingReturn))
    );
    assert_eq!(
        Error::from(FileError::UnableToOpen("a.o2".to_string())),
        Error::File(FileError::UnableToOpen("a.o2".to_string()))
    );
    assert_eq!(
        Error::from(CmdlineError::UnknownArgument("-x".to_string())),
        Error::Cmdline(CmdlineError::UnknownArgument("-x".to_string()))
    );
    let lexer_error = LexerError::UnknownCharacter {
        the_char: '$',
        the_line: "$".to_string(),
        line: 1,
        column: 1,
    };
    assert_eq!(
        Error::from(LexerError::UnknownCharacter {
            the_char: '$',
            the_line: "$".to_string(),
            line: 1,
            column: 1,
        }),
        Error::Lexer(lexer_error)
    );
    assert_eq!(
        StatementError::from(TermError::NoTerm),
        StatementError::Term(TermError::NoTerm)
    );
    assert_eq!(
        ParserError::from(TermError::NoTerm),
        ParserError::Term(TermError::NoTerm)
    );
}
