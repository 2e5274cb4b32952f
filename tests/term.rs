use oxygen::error::{TermError, TokenTypeError};
use oxygen::node::Term;
use oxygen::parser::{parse_term, parse_term_literal_int, Parser};
use oxygen::token::{Literals, Symbols, Token};

#[test]
fn term_should_parse() {
    let tokens: Vec<Token> = vec![Token::new(Literals::Integer("0".to_string()), 1, 7)];
        let mut parser = Parser::new(tokens);

    let res = parse_term(&mut parser);

    assert!(res.is_ok());
}

#[test]
fn should_error() {
    let tokens: Vec<Token> = Vec::new();
        let mut parser = Parser::new(tokens);

    let res = parse_term(&mut parser);

    assert!(res.is_err());
    assert_eq!(res.err().unwrap(), TermError::NoTerm);
}

#[test]
fn term_literal_int_should_parse() {
    let tokens: Vec<Token> = vec![Token::new(Literals::Integer("0".to_string()), 1, 7)];
        let mut parser = Parser::new(tokens);

    let res = parse_term_literal_int(&mut parser);

    assert!(res.is_ok());
    assert_eq!(res.unwrap(), Term::LiteralInteger("0".to_string()));
}

#[test]
fn should_error_none() {
    let tokens: Vec<Token> = Vec::new();
        let mut parser = Parser::new(tokens);

    let res = parse_term_literal_int(&mut parser);

    assert!(res.is_err());
    assert_eq!(
        res.err().unwrap(),
        TokenTypeError::ExpectedSomeGotNone.into()
    )
}

#[test]
fn should_error_expected() {
    let tokens: Vec<Token> = vec![Token::new(Symbols::OpenParen, 0, 0)];
        let mut parser = Parser::new(tokens);

    let res = parse_term_literal_int(&mut parser);

    assert!(res.is_err());
    assert_eq!(
        res.err().unwrap(),
        TokenTypeError::Expected {
            expected: Literals::Integer("any".to_string()).into(),
            got: Symbols::OpenParen.into(),
        }
        .into()
    )
}
