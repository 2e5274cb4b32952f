use vstd::prelude::*;

use crate::token::{TokenKind, TokenType};

verus! {

/// An error found while scanning a line of source text.
#[derive(Debug, PartialEq, Eq)]
pub enum LexerError {
    /// A character that starts no token.
    UnknownCharacter {
        /// The character itself.
        the_char: char,
        /// The whole line on which it stands.
        the_line: String,
        /// The 1-based line number.
        line: usize,
        /// The 1-based column of the character.
        column: usize,
    },
}

/// The mathematical model of a [`LexerError`].
pub enum LexerErrorView {
    UnknownCharacter { the_char: char, the_line: Seq<char>, line: nat, column: nat },
}

impl View for LexerError {
    type V = LexerErrorView;

    open spec fn view(&self) -> LexerErrorView {
        match self {
            LexerError::UnknownCharacter { the_char, the_line, line, column } => {
                LexerErrorView::UnknownCharacter {
                    the_char: *the_char,
                    the_line: the_line@,
                    line: *line as nat,
                    column: *column as nat,
                }
            },
        }
    }
}

/// A token that does not fit where it stands.
#[derive(Debug, PartialEq, Eq)]
pub enum TokenTypeError {
    /// A token of one kind was wanted and one of another kind came.
    Expected { expected: TokenType, got: TokenType },
    /// A token of the given kind was wanted and the input had ended.
    ExpectedGotNone { expected: TokenType },
    /// Some token was wanted and the input had ended.
    ExpectedSomeGotNone,
}

/// An error in a term.
#[derive(Debug, PartialEq, Eq)]
pub enum TermError {
    /// A token that does not fit.
    TokenType(TokenTypeError),
    /// The input ended where a term was wanted.
    NoTerm,
}

/// An error in a statement.
#[derive(Debug, PartialEq, Eq)]
pub enum StatementError {
    /// An error in the statement's term.
    Term(TermError),
    /// A token that does not fit.
    TokenType(TokenTypeError),
    /// A function body that does not end in a `return` statement.
    MissingReturn,
    /// A token with which no statement can start.
    UnexpectedToken { got: TokenType },
}

/// An error that stops the parsing of a program.
#[derive(Debug, PartialEq, Eq)]
pub enum ParserError {
    /// An error in a statement.
    Statement(StatementError),
    /// An error in a term.
    Term(TermError),
}

/// A malformed command line.
#[derive(Debug, PartialEq, Eq)]
pub enum CmdlineError {
    /// An argument that is not understood.
    UnknownArgument(String),
}

/// A source file that could not be used.
#[derive(Debug, PartialEq, Eq)]
pub enum FileError {
    /// The file could not be opened.
    UnableToOpen(String),
    /// The file could not be read.
    UnableToRead(String),
}

/// Any error of the compiler front end.
#[derive(Debug, PartialEq, Eq)]
pub enum Error {
    /// A malformed command line.
    Cmdline(CmdlineError),
    /// An error found while scanning.
    Lexer(LexerError),
    /// An error found while parsing.
    Parser(ParserError),
    /// A source file that could not be used.
    File(FileError),
}

/// The mathematical model of a [`TokenTypeError`].
pub enum TokenTypeErrorView {
    Expected { expected: TokenKind, got: TokenKind },
    ExpectedGotNone { expected: TokenKind },
    ExpectedSomeGotNone,
}

/// The mathematical model of a [`TermError`].
pub enum TermErrorView {
    TokenType(TokenTypeErrorView),
    NoTerm,
}

/// The mathematical model of a [`StatementError`].
pub enum StatementErrorView {
    Term(TermErrorView),
    TokenType(TokenTypeErrorView),
    MissingReturn,
    UnexpectedToken { got: TokenKind },
}

/// The mathematical model of a [`ParserError`].
pub enum ParserErrorView {
    Statement(StatementErrorView),
    Term(TermErrorView),
}

impl View for TokenTypeError {
    type V = TokenTypeErrorView;

    open spec fn view(&self) -> TokenTypeErrorView {
        match self {
            TokenTypeError::Expected { expected, got } => TokenTypeErrorView::Expected {
                expected: expected@,
                got: got@,
            },
            TokenTypeError::ExpectedGotNone { expected } => TokenTypeErrorView::ExpectedGotNone {
                expected: expected@,
            },
            TokenTypeError::ExpectedSomeGotNone => TokenTypeErrorView::ExpectedSomeGotNone,
        }
    }
}

impl View for TermError {
    type V = TermErrorView;

    open spec fn view(&self) -> TermErrorView {
        match self {
            TermError::TokenType(e) => TermErrorView::TokenType(e@),
            TermError::NoTerm => TermErrorView::NoTerm,
        }
    }
}

impl View for StatementError {
    type V = StatementErrorView;

    open spec fn view(&self) -> StatementErrorView {
        match self {
            StatementError::Term(e) => StatementErrorView::Term(e@),
            StatementError::TokenType(e) => StatementErrorView::TokenType(e@),
            StatementError::MissingReturn => StatementErrorView::MissingReturn,
            StatementError::UnexpectedToken { got } => StatementErrorView::UnexpectedToken {
                got: got@,
            },
        }
    }
}

impl View for ParserError {
    type V = ParserErrorView;

    open spec fn view(&self) -> ParserErrorView {
        match self {
            ParserError::Statement(e) => ParserErrorView::Statement(e@),
            ParserError::Term(e) => ParserErrorView::Term(e@),
        }
    }
}

impl From<TokenTypeError> for TermError {
    fn from(e: TokenTypeError) -> (r: TermError)
        ensures
            r == TermError::TokenType(e),
    {
        TermError::TokenType(e)
    }
}

impl vstd::std_specs::convert::FromSpecImpl<TokenTypeError> for TermError {
    open spec fn obeys_from_spec() -> bool {
        true
    }

    open spec fn from_spec(e: TokenTypeError) -> TermError {
        TermError::TokenType(e)
    }
}

impl From<TokenTypeError> for StatementError {
    fn from(e: TokenTypeError) -> (r: StatementError)
        ensures
            r == StatementError::TokenType(e),
    {
        StatementError::TokenType(e)
    }
}

impl vstd::std_specs::convert::FromSpecImpl<TokenTypeError> for StatementError {
    open spec fn obeys_from_spec() -> bool {
        true
    }

    open spec fn from_spec(e: TokenTypeError) -> StatementError {
        StatementError::TokenType(e)
    }
}

impl From<TermError> for StatementError {
    fn from(e: TermError) -> (r: StatementError)
        ensures
            r == StatementError::Term(e),
    {
        StatementError::Term(e)
    }
}

impl vstd::std_specs::convert::FromSpecImpl<TermError> for StatementError {
    open spec fn obeys_from_spec() -> bool {
        true
    }

    open spec fn from_spec(e: TermError) -> StatementError {
        StatementError::Term(e)
    }
}

impl From<StatementError> for ParserError {
    fn from(e: StatementError) -> (r: ParserError)
        ensures
            r == ParserError::Statement(e),
    {
        ParserError::Statement(e)
    }
}

impl vstd::std_specs::convert::FromSpecImpl<StatementError> for ParserError {
    open spec fn obeys_from_spec() -> bool {
        true
    }

    open spec fn from_spec(e: StatementError) -> ParserError {
        ParserError::Statement(e)
    }
}

impl From<TermError> for ParserError {
    fn from(e: TermError) -> (r: ParserError)
        ensures
            r == ParserError::Term(e),
    {
        ParserError::Term(e)
    }
}

impl vstd::std_specs::convert::FromSpecImpl<TermError> for ParserError {
    open spec fn obeys_from_spec() -> bool {
        true
    }

    open spec fn from_spec(e: TermError) -> ParserError {
        ParserError::Term(e)
    }
}

impl From<CmdlineError> for Error {
    fn from(e: CmdlineError) -> (r: Error)
        ensures
            r == Error::Cmdline(e),
    {
        Error::Cmdline(e)
    }
}

impl vstd::std_specs::convert::FromSpecImpl<CmdlineError> for Error {
    open spec fn obeys_from_spec() -> bool {
        true
    }

    open spec fn from_spec(e: CmdlineError) -> Error {
        Error::Cmdline(e)
    }
}

impl From<LexerError> for Error {
    fn from(e: LexerError) -> (r: Error)
        ensures
            r == Error::Lexer(e),
    {
        Error::Lexer(e)
    }
}

impl vstd::std_specs::convert::FromSpecImpl<LexerError> for Error {
    open spec fn obeys_from_spec() -> bool {
        true
    }

    open spec fn from_spec(e: LexerError) -> Error {
        Error::Lexer(e)
    }
}

impl From<ParserError> for Error {
    fn from(e: ParserError) -> (r: Error)
        ensures
            r == Error::Parser(e),
    {
        Error::Parser(e)
    }
}

impl vstd::std_specs::convert::FromSpecImpl<ParserError> for Error {
    open spec fn obeys_from_spec() -> bool {
        true
    }

    open spec fn from_spec(e: ParserError) -> Error {
        Error::Parser(e)
    }
}

impl From<FileError> for Error {
    fn from(e: FileError) -> (r: Error)
        ensures
            r == Error::File(e),
    {
        Error::File(e)
    }
}

impl vstd::std_specs::convert::FromSpecImpl<FileError> for Error {
    open spec fn obeys_from_spec() -> bool {
        true
    }

    open spec fn from_spec(e: FileError) -> Error {
        Error::File(e)
    }
}

} // verus!
