use vstd::prelude::*;

use crate::error::{ParserError, ParserErrorView, StatementError, StatementErrorView, TermError, TermErrorView, TokenTypeError};
use crate::grammar::{
    identifier_at, kind_at, lemma_statement_progress, mismatch, parse_body_at, parse_function_at, parse_literal_int_at,
    parse_program_at, parse_return_at, parse_statement_at, parse_term_at, type_at,
};
use crate::node::{lemma_statement_views, statement_views, Statement, StatementView, Term, TermView};
use crate::token::{Keywords, Literals, Symbols, Token, TokenKind, TokenType, Types};

verus! {

/// A cursor over the tokens of a whole file.
#[derive(Debug, PartialEq, Eq)]
pub struct Parser {
    /// The tokens, in file order.
    pub tokens: Vec<Token>,
    /// The position of the next token to read.
    pub index: usize,
}

/// `r` is the result of a statement parser whose expected outcome is `expected`,
/// and `p` the parser after it.
pub open spec fn statement_outcome(
    r: Result<Statement, StatementError>,
    expected: Result<(StatementView, int), StatementErrorView>,
    p: &Parser,
) -> bool {
    match expected {
        Ok((s, next)) => r is Ok && r->Ok_0@ == s && p.index == next && p.wf(),
        Err(e) => r is Err && r->Err_0@ == e,
    }
}

/// `r` is the result of a term parser whose expected outcome is `expected`,
/// and `p` the parser after it.
pub open spec fn term_outcome(
    r: Result<Term, TermError>,
    expected: Result<(TermView, int), TermErrorView>,
    p: &Parser,
) -> bool {
    match expected {
        Ok((t, next)) => r is Ok && r->Ok_0@ == t && p.index == next && p.wf(),
        Err(e) => r is Err && r->Err_0@ == e,
    }
}

impl Parser {
    /// The kinds of the tokens, in order.
    pub open spec fn kinds(&self) -> Seq<TokenKind> {
        self.tokens@.map_values(|t: Token| t.token_type@)
    }

    /// The cursor stands within the tokens or just past them.
    pub open spec fn wf(&self) -> bool {
        &&& self.index <= self.tokens@.len()
        &&& self.tokens@.len() < usize::MAX
    }

    /// The token `offset` places after the cursor, if there is one.
    pub open spec fn token_at(&self, offset: int) -> Option<Token> {
        if 0 <= self.index + offset < self.tokens@.len() {
            Some(self.tokens@[self.index + offset])
        } else {
            None
        }
    }

    /// A parser at the start of `tokens`.
    pub fn new(tokens: Vec<Token>) -> (r: Parser)
        requires
            tokens@.len() < usize::MAX,
        ensures
            r.tokens@ == tokens@,
            r.index == 0,
            r.wf(),
    {
        Parser { tokens, index: 0 }
    }

    /// Parses statements until the tokens are used up: the program, or the first error.
    pub fn parse(&mut self) -> (r: Result<Vec<Statement>, ParserError>)
        requires
            old(self).wf(),
        ensures
            final(self).tokens@ == old(self).tokens@,
            match parse_program_at(old(self).kinds(), old(self).index as int) {
                Ok(prog) => r is Ok && statement_views(r->Ok_0@) == prog,
                Err(e) => r is Err && r->Err_0@ == e,
            },
    {
        let ghost ks = self.kinds();
        let ghost start = self.index as int;
        let mut prog: Vec<Statement> = Vec::new();
        while self.index < self.tokens.len()
            invariant
                self.wf(),
                self.kinds() == ks,
                ks == old(self).kinds(),
                start == old(self).index,
                self.tokens@ == old(self).tokens@,
                start <= self.index,
                parse_program_at(ks, start) == (match parse_program_at(ks, self.index as int) {
                    Ok(rest) => Ok(statement_views(prog@) + rest),
                    Err(e) => Err(e),
                }),
            decreases self.tokens@.len() - self.index,
        {
            let ghost before = prog@;
            let ghost at = self.index as int;
            proof {
                lemma_statement_progress(ks, at);
            }
            match parse_statement(self) {
                Ok(statement) => {
                    let ghost view = statement@;
                    prog.push(statement);
                    proof {
                        lemma_views_push(before, prog@.last());
                        assert(prog@ == before.push(prog@.last()));
                        if let Ok(rest) = parse_program_at(ks, self.index as int) {
                            assert(statement_views(before) + (seq![view] + rest) =~= statement_views(prog@) + rest);
                        }
                    }
                },
                Err(e) => {
                    assert(parse_statement_at(ks, at) is Err);
                    assert(parse_program_at(ks, at) == Err::<Seq<StatementView>, _>(ParserErrorView::Statement(e@)));
                    return Err(ParserError::Statement(e));
                },
            }
        }
        assert(statement_views(prog@) + Seq::<StatementView>::empty() =~= statement_views(prog@));
        Ok(prog)
    }

    /// The token `offset` places after the cursor, if there is one; the cursor stays.
    pub fn peek(&self, offset: usize) -> (r: Option<Token>)
        ensures
            r == self.token_at(offset as int),
    {
        if offset < self.tokens.len() && self.index < self.tokens.len() - offset {
            Some(self.tokens[self.index + offset].clone())
        } else {
            None
        }
    }

    /// The token at the cursor, if there is one; the cursor moves on by one either way.
    pub fn consume(&mut self) -> (r: Option<Token>)
        requires
            old(self).index < usize::MAX,
        ensures
            r == old(self).token_at(0),
            final(self).tokens == old(self).tokens,
            final(self).index == old(self).index + 1,
    {
        let t = self.peek(0);
        self.index = self.index + 1;
        t
    }
}

/// Appending a statement appends its view.
proof fn lemma_views_push(before: Seq<Statement>, s: Statement)
    ensures
        statement_views(before.push(s)) == statement_views(before).push(s@),
{
    assert(before.push(s).drop_last() =~= before);
}

/// Parses an integer literal at the cursor.
pub fn parse_term_literal_int(parser: &mut Parser) -> (r: Result<Term, TermError>)
    requires
        old(parser).wf(),
    ensures
        final(parser).tokens@ == old(parser).tokens@,
        term_outcome(r, parse_literal_int_at(old(parser).kinds(), old(parser).index as int), final(parser)),
{
    let ghost ks = parser.kinds();
    match parser.consume() {
        None => Err(TermError::TokenType(TokenTypeError::ExpectedSomeGotNone)),
        Some(t) => match t.token_type {
            TokenType::Literal(Literals::Integer(text)) => Ok(Term::LiteralInteger(text)),
            got => {
                proof {
                    reveal_strlit("any");
                }
                Err(
                    TermError::TokenType(
                        TokenTypeError::Expected {
                            expected: TokenType::Literal(Literals::Integer("any".to_owned())),
                            got,
                        },
                    ),
                )
            },
        },
    }
}

/// Parses a term at the cursor.
pub fn parse_term(parser: &mut Parser) -> (r: Result<Term, TermError>)
    requires
        old(parser).wf(),
    ensures
        final(parser).tokens@ == old(parser).tokens@,
        term_outcome(r, parse_term_at(old(parser).kinds(), old(parser).index as int), final(parser)),
{
    if parser.peek(0).is_none() {
        return Err(TermError::NoTerm);
    }
    parse_term_literal_int(parser)
}

/// Consumes the token at the cursor, which should be the symbol `symbol`.
fn expect_symbol(parser: &mut Parser, symbol: Symbols) -> (r: Result<(), TokenTypeError>)
    requires
        old(parser).index < usize::MAX,
    ensures
        final(parser).tokens@ == old(parser).tokens@,
        final(parser).index == old(parser).index + 1,
        r is Ok <==> kind_at(old(parser).kinds(), old(parser).index as int) == Some(
            TokenKind::Symbol(symbol),
        ),
        r is Err ==> r->Err_0@ == mismatch(
            old(parser).kinds(),
            old(parser).index as int,
            TokenKind::Symbol(symbol),
        ),
{
    match parser.consume() {
        None => Err(TokenTypeError::ExpectedGotNone { expected: TokenType::Symbol(symbol) }),
        Some(t) => match t.token_type {
            TokenType::Symbol(got) => {
                if got == symbol {
                    Ok(())
                } else {
                    Err(TokenTypeError::Expected { expected: TokenType::Symbol(symbol), got: TokenType::Symbol(got) })
                }
            },
            got => Err(TokenTypeError::Expected { expected: TokenType::Symbol(symbol), got }),
        },
    }
}

/// Parses `return <term>;` at the cursor.
pub fn parse_statement_return(parser: &mut Parser) -> (r: Result<Statement, StatementError>)
    requires
        old(parser).wf(),
    ensures
        final(parser).tokens@ == old(parser).tokens@,
        statement_outcome(r, parse_return_at(old(parser).kinds(), old(parser).index as int), final(parser)),
{
    let ghost ks = parser.kinds();
    match parser.consume() {
        None => {
            return Err(
                StatementError::TokenType(
                    TokenTypeError::ExpectedGotNone { expected: TokenType::Keyword(Keywords::Return) },
                ),
            );
        },
        Some(t) => match t.token_type {
            TokenType::Keyword(Keywords::Return) => {},
            got => {
                return Err(
                    StatementError::TokenType(
                        TokenTypeError::Expected { expected: TokenType::Keyword(Keywords::Return), got },
                    ),
                );
            },
        },
    }
    let term = match parse_term(parser) {
        Ok(term) => term,
        Err(e) => {
            return Err(StatementError::Term(e));
        },
    };
    match expect_symbol(parser, Symbols::SemiColon) {
        Ok(()) => Ok(Statement::Return { term }),
        Err(e) => Err(StatementError::TokenType(e)),
    }
}

/// Parses `int name() { ... }` at the cursor.
pub fn parse_statement_function_declare(parser: &mut Parser) -> (r: Result<Statement, StatementError>)
    requires
        old(parser).wf(),
    ensures
        final(parser).tokens@ == old(parser).tokens@,
        statement_outcome(r, parse_function_at(old(parser).kinds(), old(parser).index as int), final(parser)),
    decreases old(parser).tokens@.len() - old(parser).index, 1int,
{
    let ghost ks = parser.kinds();
    let ghost pos = parser.index as int;
    proof {
        reveal_with_fuel(parse_function_at, 2);
        reveal_with_fuel(parse_body_at, 2);
    }
    let return_type = match parser.consume() {
        None => {
            return Err(
                StatementError::TokenType(
                    TokenTypeError::ExpectedGotNone { expected: TokenType::Type(Types::Int) },
                ),
            );
        },
        Some(t) => match t.token_type {
            TokenType::Type(return_type) => return_type,
            got => {
                return Err(
                    StatementError::TokenType(
                        TokenTypeError::Expected { expected: TokenType::Type(Types::Int), got },
                    ),
                );
            },
        },
    };
    proof {
        reveal_strlit("any");
    }
    let name = match parser.consume() {
        None => {
            return Err(
                StatementError::TokenType(
                    TokenTypeError::ExpectedGotNone { expected: TokenType::SomeName("any".to_owned()) },
                ),
            );
        },
        Some(t) => match t.token_type {
            TokenType::SomeName(name) => name,
            got => {
                return Err(
                    StatementError::TokenType(
                        TokenTypeError::Expected { expected: TokenType::SomeName("any".to_owned()), got },
                    ),
                );
            },
        },
    };
    if let Err(e) = expect_symbol(parser, Symbols::OpenParen) {
        return Err(StatementError::TokenType(e));
    }
    if let Err(e) = expect_symbol(parser, Symbols::CloseParen) {
        return Err(StatementError::TokenType(e));
    }
    if let Err(e) = expect_symbol(parser, Symbols::OpenCurly) {
        return Err(StatementError::TokenType(e));
    }
    let mut body: Vec<Statement> = Vec::new();
    loop
        invariant
            parser.wf(),
            parser.kinds() == ks,
            parser.tokens@ == old(parser).tokens@,
            pos == old(parser).index,
            pos + 5 <= parser.index,
            type_at(ks, pos),
            identifier_at(ks, pos + 1),
            kind_at(ks, pos + 2) == Some(TokenKind::Symbol(Symbols::OpenParen)),
            kind_at(ks, pos + 3) == Some(TokenKind::Symbol(Symbols::CloseParen)),
            kind_at(ks, pos + 4) == Some(TokenKind::Symbol(Symbols::OpenCurly)),
            return_type == ks[pos]->Type_0,
            name@ == ks[pos + 1]->Identifier_0,
            parse_body_at(ks, pos + 5) == (match parse_body_at(ks, parser.index as int) {
                Ok((rest, close)) => Ok((statement_views(body@) + rest, close)),
                Err(e) => Err(e),
            }),
        ensures
            kind_at(ks, parser.index as int) == Some(TokenKind::Symbol(Symbols::CloseCurly)),
        decreases parser.tokens@.len() - parser.index,
    {
        match parser.peek(0) {
            None => {
                return Err(StatementError::TokenType(TokenTypeError::ExpectedSomeGotNone));
            },
            Some(t) => {
                if let TokenType::Symbol(Symbols::CloseCurly) = t.token_type {
                    break;
                }
            },
        }
        let ghost before = body@;
        proof {
            lemma_statement_progress(ks, parser.index as int);
        }
        match parse_statement(parser) {
            Ok(statement) => {
                let ghost view = statement@;
                body.push(statement);
                proof {
                    lemma_views_push(before, body@.last());
                    assert(body@ == before.push(body@.last()));
                    if let Ok((rest, close)) = parse_body_at(ks, parser.index as int) {
                        assert(statement_views(before) + (seq![view] + rest) =~= statement_views(body@) + rest);
                    }
                }
            },
            Err(e) => {
                return Err(e);
            },
        }
    }
    assert(statement_views(body@) + Seq::<StatementView>::empty() =~= statement_views(body@));
    proof {
        lemma_statement_views(body@);
    }
    let ends_in_return = body.len() > 0 && match &body[body.len() - 1] {
        Statement::Return { .. } => true,
        _ => false,
    };
    if !ends_in_return {
        return Err(StatementError::MissingReturn);
    }
    parser.consume();
    Ok(Statement::FunctionDeclare { name, return_type, body })
}

/// Parses one statement at the cursor, choosing the rule by looking ahead: a type name, an
/// identifier and `(` start a function declaration, `return` starts a return statement. A
/// token that starts neither is an error.
pub fn parse_statement(parser: &mut Parser) -> (r: Result<Statement, StatementError>)
    requires
        old(parser).wf(),
    ensures
        final(parser).tokens@ == old(parser).tokens@,
        statement_outcome(r, parse_statement_at(old(parser).kinds(), old(parser).index as int), final(parser)),
    decreases old(parser).tokens@.len() - old(parser).index, 2int,
{
    let first = parser.peek(0);
    let second = parser.peek(1);
    let third = parser.peek(2);
    let function_ahead = match (first, second, third) {
        (Some(a), Some(b), Some(c)) => match (a.token_type, b.token_type, c.token_type) {
            (TokenType::Type(_), TokenType::SomeName(_), TokenType::Symbol(Symbols::OpenParen)) => true,
            _ => false,
        },
        _ => false,
    };
    if function_ahead {
        return parse_statement_function_declare(parser);
    }
    match parser.peek(0) {
        None => Err(StatementError::TokenType(TokenTypeError::ExpectedSomeGotNone)),
        Some(t) => match t.token_type {
            TokenType::Keyword(Keywords::Return) => parse_statement_return(parser),
            got => Err(StatementError::UnexpectedToken { got }),
        },
    }
}

} // verus!
