use oxygen::error::{StatementError, TokenTypeError};
use oxygen::node::{Statement, Term};
use oxygen::parser::{parse_statement, parse_statement_function_declare, parse_statement_return, Parser};
use oxygen::token::{Keywords, Literals, Symbols, Token, TokenType, Types};

#[test]
fn should_parse_function_declare() {
    let tokens: Vec<Token> = vec![
        Token::new(Types::Int, 1, 1),
        Token::new(TokenType::SomeName("main".to_string()), 1, 5),
        Token::new(Symbols::OpenParen, 1, 9),
        Token::new(Symbols::CloseParen, 1, 10),
        Token::new(Symbols::OpenCurly, 1, 12),
        Token::new(Keywords::Return, 2, 5),
        Token::new(Literals::Integer("0".to_string()), 2, 7),
        Token::new(Symbols::SemiColon, 2, 8),
        Token::new(Symbols::CloseCurly, 3, 1),
    ];
        let mut parser = Parser::new(tokens);

    let res = parse_statement(&mut parser);

    assert!(res.is_ok());
    assert_eq!(
        res.ok().unwrap(),
        Statement::FunctionDeclare {
            name: "main".to_string(),
            return_type: Types::Int,
            body: vec![Statement::Return {
                term: Term::LiteralInteger("0".to_string())
            }],
        }
    );
}

#[test]
fn should_parse_return() {
    let tokens: Vec<Token> = vec![
        Token::new(Keywords::Return, 2, 5),
        Token::new(Literals::Integer("0".to_string()), 2, 7),
        Token::new(Symbols::SemiColon, 2, 8),
    ];
        let mut parser = Parser::new(tokens);

    let res = parse_statement(&mut parser);

    assert!(res.is_ok());
    assert_eq!(
        res.ok().unwrap(),
        Statement::Return {
            term: Term::LiteralInteger("0".to_string())
        }
    );
}

#[test]
fn statement_should_parse() {
    let tokens: Vec<Token> = vec![
        Token::new(Types::Int, 1, 1),
        Token::new(TokenType::SomeName("main".to_string()), 1, 5),
        Token::new(Symbols::OpenParen, 1, 9),
        Token::new(Symbols::CloseParen, 1, 10),
        Token::new(Symbols::OpenCurly, 1, 12),
        Token::new(Keywords::Return, 2, 5),
        Token::new(Literals::Integer("0".to_string()), 2, 7),
        Token::new(Symbols::SemiColon, 2, 8),
        Token::new(Symbols::CloseCurly, 3, 1),
    ];
        let mut parser = Parser::new(tokens);

    let res = parse_statement_function_declare(&mut parser);

    assert!(res.is_ok());
    assert_eq!(
        res.ok().unwrap(),
        Statement::FunctionDeclare {
            name: "main".to_string(),
            return_type: Types::Int,
            body: vec![Statement::Return {
                term: Term::LiteralInteger("0".to_string())
            }],
        }
    );
}

#[test]
fn should_error_try_type_but_none() {
    let tokens: Vec<Token> = Vec::new();
        let mut parser = Parser::new(tokens);

    let res = parse_statement_function_declare(&mut parser);

    assert!(res.is_err_and(|e| matches!(
        e,
        StatementError::TokenType(TokenTypeError::ExpectedGotNone { .. })
    )))
}

#[test]
fn should_error_try_type_expected() {
    let tokens: Vec<Token> = vec![Token::new(Keywords::Return, 2, 5)];
        let mut parser = Parser::new(tokens);

    let res = parse_statement_function_declare(&mut parser);

    assert!(res.is_err_and(|e| matches!(
        e,
        StatementError::TokenType(TokenTypeError::Expected { .. })
    )))
}

#[test]
fn should_error_try_name_but_none() {
    let tokens: Vec<Token> = vec![Token::new(Types::Int, 1, 1)];
        let mut parser = Parser::new(tokens);

    let res = parse_statement_function_declare(&mut parser);

    assert!(res.is_err_and(|e| matches!(
        e,
        StatementError::TokenType(TokenTypeError::ExpectedGotNone { .. })
    )))
}

#[test]
fn should_error_try_name_expected() {
    let tokens: Vec<Token> = vec![
        Token::new(Types::Int, 1, 1),
        Token::new(Keywords::Return, 1, 1),
    ];
        let mut parser = Parser::new(tokens);

    let res = parse_statement_function_declare(&mut parser);

    assert!(res.is_err_and(|e| matches!(
        e,
        StatementError::TokenType(TokenTypeError::Expected { .. })
    )))
}

#[test]
fn should_error_try_open_paren_but_none() {
    let tokens: Vec<Token> = vec![
        Token::new(Types::Int, 1, 1),
        Token::new(TokenType::SomeName("main".to_string()), 1, 5),
    ];
        let mut parser = Parser::new(tokens);

    let res = parse_statement_function_declare(&mut parser);

    assert!(res.is_err_and(|e| matches!(
        e,
        StatementError::TokenType(TokenTypeError::ExpectedGotNone { .. })
    )))
}

#[test]
fn should_error_try_open_paren_expected() {
    let tokens: Vec<Token> = vec![
        Token::new(Types::Int, 1, 1),
        Token::new(TokenType::SomeName("main".to_string()), 1, 5),
        Token::new(Keywords::Return, 1, 1),
    ];
        let mut parser = Parser::new(tokens);

    let res = parse_statement_function_declare(&mut parser);

    assert!(res.is_err_and(|e| matches!(
        e,
        StatementError::TokenType(TokenTypeError::Expected { .. })
    )))
}

#[test]
fn should_error_try_close_paren_but_none() {
    let tokens: Vec<Token> = vec![
        Token::new(Types::Int, 1, 1),
        Token::new(TokenType::SomeName("main".to_string()), 1, 5),
        Token::new(Symbols::OpenParen, 1, 9),
    ];
        let mut parser = Parser::new(tokens);

    let res = parse_statement_function_declare(&mut parser);

    assert!(res.is_err_and(|e| matches!(
        e,
        StatementError::TokenType(TokenTypeError::ExpectedGotNone { .. })
    )))
}

#[test]
fn should_error_try_close_paren_expected() {
    let tokens: Vec<Token> = vec![
        Token::new(Types::Int, 1, 1),
        Token::new(TokenType::SomeName("main".to_string()), 1, 5),
        Token::new(Symbols::OpenParen, 1, 9),
        Token::new(Keywords::Return, 1, 1),
    ];
        let mut parser = Parser::new(tokens);

    let res = parse_statement_function_declare(&mut parser);

    assert!(res.is_err_and(|e| matches!(
        e,
        StatementError::TokenType(TokenTypeError::Expected { .. })
    )))
}

#[test]
fn should_error_try_open_curly_but_none() {
    let tokens: Vec<Token> = vec![
        Token::new(Types::Int, 1, 1),
        Token::new(TokenType::SomeName("main".to_string()), 1, 5),
        Token::new(Symbols::OpenParen, 1, 9),
        Token::new(Symbols::CloseParen, 1, 10),
    ];
        let mut parser = Parser::new(tokens);

    let res = parse_statement_function_declare(&mut parser);

    assert!(res.is_err_and(|e| matches!(
        e,
        StatementError::TokenType(TokenTypeError::ExpectedGotNone { .. })
    )))
}

#[test]
fn should_error_try_open_curly_expected() {
    let tokens: Vec<Token> = vec![
        Token::new(Types::Int, 1, 1),
        Token::new(TokenType::SomeName("main".to_string()), 1, 5),
        Token::new(Symbols::OpenParen, 1, 9),
        Token::new(Symbols::CloseParen, 1, 10),
        Token::new(Keywords::Return, 1, 1),
    ];
        let mut parser = Parser::new(tokens);

    let res = parse_statement_function_declare(&mut parser);

    assert!(res.is_err_and(|e| matches!(
        e,
        StatementError::TokenType(TokenTypeError::Expected { .. })
    )))
}

#[test]
fn should_error_missing_final_return() {
    let tokens: Vec<Token> = vec![
        Token::new(Types::Int, 1, 1),
        Token::new(TokenType::SomeName("main".to_string()), 1, 5),
        Token::new(Symbols::OpenParen, 1, 9),
        Token::new(Symbols::CloseParen, 1, 10),
        Token::new(Symbols::OpenCurly, 1, 12),
        Token::new(Symbols::CloseCurly, 3, 1),
    ];
        let mut parser = Parser::new(tokens);

    let res = parse_statement_function_declare(&mut parser);

    assert!(res.is_err_and(|e| matches!(e, StatementError::MissingReturn)));
}

#[test]
fn should_parse() {
    let tokens: Vec<Token> = vec![
        Token::new(Keywords::Return, 1, 5),
        Token::new(Literals::Integer("0".to_string()), 1, 7),
        Token::new(Symbols::SemiColon, 1, 8),
    ];
        let mut parser = Parser::new(tokens);

    let res = parse_statement_return(&mut parser);

    assert!(res.is_ok());
    assert_eq!(
        res.ok().unwrap(),
        Statement::Return {
            term: Term::LiteralInteger("0".to_string())
        }
    );
}

#[test]
fn should_error_try_return_but_none() {
    let tokens: Vec<Token> = Vec::new();
        let mut parser = Parser::new(tokens);

    let res = parse_statement_return(&mut parser);

    assert!(res.is_err());
}

#[test]
fn should_error_try_return_expected() {
    let tokens: Vec<Token> = vec![Token::new(Symbols::SemiColon, 0, 0)];
        let mut parser = Parser::new(tokens);

    let res = parse_statement_return(&mut parser);

    assert!(res.is_err());
}

#[test]
fn should_error_try_term_but_none() {
    let tokens: Vec<Token> = vec![Token::new(Keywords::Return, 1, 5)];
        let mut parser = Parser::new(tokens);

    let res = parse_statement_return(&mut parser);

    assert!(res.is_err());
}

#[test]
fn should_error_try_term_expected() {
    let tokens: Vec<Token> = vec![
        Token::new(Keywords::Return, 1, 5),
        Token::new(Symbols::OpenParen, 0, 0),
    ];
        let mut parser = Parser::new(tokens);

    let res = parse_statement_return(&mut parser);

    assert!(res.is_err());
}

#[test]
fn should_error_try_semi_colon_but_none() {
    let tokens: Vec<Token> = vec![
        Token::new(Keywords::Return, 1, 5),
        Token::new(Literals::Integer("0".to_string()), 1, 7),
    ];
        let mut parser = Parser::new(tokens);

    let res = parse_statement_return(&mut parser);

    assert!(res.is_err());
}

#[test]
fn should_error_try_semi_colon_expected() {
    let tokens: Vec<Token> = vec![
        Token::new(Keywords::Return, 1, 5),
        Token::new(Literals::Integer("0".to_string()), 1, 7),
        Token::new(Symbols::OpenParen, 1, 8),
    ];
        let mut parser = Parser::new(tokens);

    let res = parse_statement_return(&mut parser);

    assert!(res.is_err());
}
