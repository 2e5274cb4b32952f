use vstd::prelude::*;
use vstd::std_specs::convert::FromSpec;

verus! {

/// Something whose source text spans a known number of columns.
pub trait ColumnOffset {
    /// The number of columns that the source text of `self` spans.
    spec fn col_offset(&self) -> nat;

    /// Computes the number of columns that the source text of `self` spans.
    fn to_col_offset(&self) -> (r: usize)
        ensures
            r as nat == self.col_offset(),
    ;
}

/// A literal value.
#[derive(Debug, PartialEq, Eq)]
pub enum Literals {
    /// An integer literal, holding its digits exactly as written.
    Integer(String),
}

impl Clone for Literals {
    fn clone(&self) -> (r: Self)
        ensures
            r == *self,
    {
        match self {
            Literals::Integer(text) => Literals::Integer(text.clone()),
        }
    }
}

impl ColumnOffset for Literals {
    open spec fn col_offset(&self) -> nat {
        match self {
            Literals::Integer(text) => text@.len(),
        }
    }

    fn to_col_offset(&self) -> (r: usize) {
        match self {
            Literals::Integer(text) => text.as_str().unicode_len(),
        }
    }
}

/// A single-character symbol.
#[derive(Debug, Clone, Copy, PartialEq, Eq, Structural)]
pub enum Symbols {
    /// `(`
    OpenParen,
    /// `)`
    CloseParen,
    /// `{`
    OpenCurly,
    /// `}`
    CloseCurly,
    /// `;`
    SemiColon,
}

impl ColumnOffset for Symbols {
    open spec fn col_offset(&self) -> nat {
        1
    }

    fn to_col_offset(&self) -> (r: usize) {
        1
    }
}

/// A type name.
#[derive(Debug, Clone, Copy, PartialEq, Eq, Structural)]
pub enum Types {
    /// The type `int`.
    Int,
}

impl ColumnOffset for Types {
    open spec fn col_offset(&self) -> nat {
        match self {
            Types::Int => 3,
        }
    }

    fn to_col_offset(&self) -> (r: usize) {
        match self {
            Types::Int => 3,
        }
    }
}

/// A keyword of the language.
#[derive(Debug, Clone, Copy, PartialEq, Eq, Structural)]
pub enum Keywords {
    /// The keyword `return`.
    Return,
}

impl ColumnOffset for Keywords {
    open spec fn col_offset(&self) -> nat {
        match self {
            Keywords::Return => 6,
        }
    }

    fn to_col_offset(&self) -> (r: usize) {
        match self {
            Keywords::Return => 6,
        }
    }
}

/// The kind of a token, with the text it carries where it carries one.
#[derive(Debug, PartialEq, Eq)]
pub enum TokenType {
    /// A literal value.
    Literal(Literals),
    /// A single-character symbol.
    Symbol(Symbols),
    /// A keyword.
    Keyword(Keywords),
    /// A type name.
    Type(Types),
    /// An identifier, holding its text exactly as written.
    SomeName(String),
}

/// The mathematical model of a [`TokenType`]: texts are character sequences.
pub enum TokenKind {
    /// An integer literal and its digits.
    IntegerLiteral(Seq<char>),
    /// A single-character symbol.
    Symbol(Symbols),
    /// A keyword.
    Keyword(Keywords),
    /// A type name.
    Type(Types),
    /// An identifier and its text.
    Identifier(Seq<char>),
}

impl View for TokenType {
    type V = TokenKind;

    open spec fn view(&self) -> TokenKind {
        match self {
            TokenType::Literal(Literals::Integer(text)) => TokenKind::IntegerLiteral(text@),
            TokenType::Symbol(s) => TokenKind::Symbol(*s),
            TokenType::Keyword(k) => TokenKind::Keyword(*k),
            TokenType::Type(t) => TokenKind::Type(*t),
            TokenType::SomeName(name) => TokenKind::Identifier(name@),
        }
    }
}

impl Clone for TokenType {
    fn clone(&self) -> (r: Self)
        ensures
            r == *self,
    {
        match self {
            TokenType::Literal(l) => TokenType::Literal(l.clone()),
            TokenType::Symbol(s) => TokenType::Symbol(*s),
            TokenType::Keyword(k) => TokenType::Keyword(*k),
            TokenType::Type(t) => TokenType::Type(*t),
            TokenType::SomeName(name) => TokenType::SomeName(name.clone()),
        }
    }
}

impl ColumnOffset for TokenType {
    open spec fn col_offset(&self) -> nat {
        match self {
            TokenType::Literal(l) => l.col_offset(),
            TokenType::Symbol(s) => s.col_offset(),
            TokenType::Keyword(k) => k.col_offset(),
            TokenType::Type(t) => t.col_offset(),
            TokenType::SomeName(name) => name@.len(),
        }
    }

    fn to_col_offset(&self) -> (r: usize) {
        match self {
            TokenType::Literal(l) => l.to_col_offset(),
            TokenType::Symbol(s) => s.to_col_offset(),
            TokenType::Keyword(k) => k.to_col_offset(),
            TokenType::Type(t) => t.to_col_offset(),
            TokenType::SomeName(name) => name.as_str().unicode_len(),
        }
    }
}

impl From<Literals> for TokenType {
    fn from(value: Literals) -> (r: TokenType)
        ensures
            r == TokenType::Literal(value),
    {
        TokenType::Literal(value)
    }
}

impl vstd::std_specs::convert::FromSpecImpl<Literals> for TokenType {
    open spec fn obeys_from_spec() -> bool {
        true
    }

    open spec fn from_spec(v: Literals) -> TokenType {
        TokenType::Literal(v)
    }
}

impl From<Symbols> for TokenType {
    fn from(value: Symbols) -> (r: TokenType)
        ensures
            r == TokenType::Symbol(value),
    {
        TokenType::Symbol(value)
    }
}

impl vstd::std_specs::convert::FromSpecImpl<Symbols> for TokenType {
    open spec fn obeys_from_spec() -> bool {
        true
    }

    open spec fn from_spec(v: Symbols) -> TokenType {
        TokenType::Symbol(v)
    }
}

impl From<Types> for TokenType {
    fn from(value: Types) -> (r: TokenType)
        ensures
            r == TokenType::Type(value),
    {
        TokenType::Type(value)
    }
}

impl vstd::std_specs::convert::FromSpecImpl<Types> for TokenType {
    open spec fn obeys_from_spec() -> bool {
        true
    }

    open spec fn from_spec(v: Types) -> TokenType {
        TokenType::Type(v)
    }
}

impl From<Keywords> for TokenType {
    fn from(value: Keywords) -> (r: TokenType)
        ensures
            r == TokenType::Keyword(value),
    {
        TokenType::Keyword(value)
    }
}

impl vstd::std_specs::convert::FromSpecImpl<Keywords> for TokenType {
    open spec fn obeys_from_spec() -> bool {
        true
    }

    open spec fn from_spec(v: Keywords) -> TokenType {
        TokenType::Keyword(v)
    }
}

/// A token of a source file, with the 1-based line and column where it starts.
#[derive(Debug, PartialEq, Eq)]
pub struct Token {
    /// The kind of the token.
    pub token_type: TokenType,
    /// The line on which the token starts.
    pub line: usize,
    /// The column at which the token starts.
    pub column: usize,
}

/// The mathematical model of a [`Token`].
pub struct TokenView {
    pub kind: TokenKind,
    pub line: nat,
    pub column: nat,
}

impl View for Token {
    type V = TokenView;

    open spec fn view(&self) -> TokenView {
        TokenView { kind: self.token_type@, line: self.line as nat, column: self.column as nat }
    }
}

impl Clone for Token {
    fn clone(&self) -> (r: Self)
        ensures
            r == *self,
    {
        Token { token_type: self.token_type.clone(), line: self.line, column: self.column }
    }
}

impl Token {
    /// Creates a token of the given kind at the given line and column.
    pub fn new<T>(token_type: T, line: usize, column: usize) -> (r: Token)
        where
            TokenType: From<T>,
        requires
            <TokenType as FromSpec<T>>::obeys_from_spec(),
        ensures
            r.token_type == <TokenType as FromSpec<T>>::from_spec(token_type),
            r.line == line,
            r.column == column,
    {
        Token { token_type: TokenType::from(token_type), line, column }
    }
}

} // verus!
