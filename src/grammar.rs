use vstd::prelude::*;

use crate::lexer::{kinds_of, lemma_scan_spelled, scan, spelled, writable};
use crate::error::{ParserErrorView, StatementErrorView, TermErrorView, TokenTypeErrorView};
use crate::node::{StatementView, TermView};
use crate::token::{Keywords, Symbols, TokenKind, Types};

verus! {

/// The kind of the token at `pos`, if there is one.
pub open spec fn kind_at(ks: Seq<TokenKind>, pos: int) -> Option<TokenKind> {
    if 0 <= pos < ks.len() {
        Some(ks[pos])
    } else {
        None
    }
}

/// The error for the token at `pos` when one of kind `expected` was wanted there.
pub open spec fn mismatch(ks: Seq<TokenKind>, pos: int, expected: TokenKind) -> TokenTypeErrorView {
    if 0 <= pos < ks.len() {
        TokenTypeErrorView::Expected { expected, got: ks[pos] }
    } else {
        TokenTypeErrorView::ExpectedGotNone { expected }
    }
}

/// The token at `pos` is a type name.
pub open spec fn type_at(ks: Seq<TokenKind>, pos: int) -> bool {
    0 <= pos < ks.len() && ks[pos] is Type
}

/// The token at `pos` is an identifier.
pub open spec fn identifier_at(ks: Seq<TokenKind>, pos: int) -> bool {
    0 <= pos < ks.len() && ks[pos] is Identifier
}

/// What `expected` stands for when an identifier is wanted.
pub open spec fn any_identifier() -> TokenKind {
    TokenKind::Identifier("any"@)
}

/// What `expected` stands for when an integer literal is wanted.
pub open spec fn any_integer() -> TokenKind {
    TokenKind::IntegerLiteral("any"@)
}

/// The statement kind chosen by looking at most three tokens ahead of `pos`:
/// a function declaration starts with a type name, an identifier and `(`.
pub open spec fn starts_function(ks: Seq<TokenKind>, pos: int) -> bool {
    &&& type_at(ks, pos)
    &&& identifier_at(ks, pos + 1)
    &&& kind_at(ks, pos + 2) == Some(TokenKind::Symbol(Symbols::OpenParen))
}

/// Parsing an integer literal at `pos`: the term and the position after it.
pub open spec fn parse_literal_int_at(ks: Seq<TokenKind>, pos: int) -> Result<(TermView, int), TermErrorView> {
    if !(0 <= pos < ks.len()) {
        Err(TermErrorView::TokenType(TokenTypeErrorView::ExpectedSomeGotNone))
    } else if ks[pos] is IntegerLiteral {
        Ok((TermView::LiteralInteger(ks[pos]->IntegerLiteral_0), pos + 1))
    } else {
        Err(TermErrorView::TokenType(TokenTypeErrorView::Expected { expected: any_integer(), got: ks[pos] }))
    }
}

/// Parsing a term at `pos`: the term and the position after it.
pub open spec fn parse_term_at(ks: Seq<TokenKind>, pos: int) -> Result<(TermView, int), TermErrorView> {
    if !(0 <= pos < ks.len()) {
        Err(TermErrorView::NoTerm)
    } else {
        parse_literal_int_at(ks, pos)
    }
}

/// Parsing `return <term>;` at `pos`: the statement and the position after it.
pub open spec fn parse_return_at(ks: Seq<TokenKind>, pos: int) -> Result<(StatementView, int), StatementErrorView> {
    if kind_at(ks, pos) != Some(TokenKind::Keyword(Keywords::Return)) {
        Err(StatementErrorView::TokenType(mismatch(ks, pos, TokenKind::Keyword(Keywords::Return))))
    } else {
        match parse_term_at(ks, pos + 1) {
            Err(e) => Err(StatementErrorView::Term(e)),
            Ok((term, next)) => {
                if kind_at(ks, next) == Some(TokenKind::Symbol(Symbols::SemiColon)) {
                    Ok((StatementView::Return { term }, next + 1))
                } else {
                    Err(StatementErrorView::TokenType(mismatch(ks, next, TokenKind::Symbol(Symbols::SemiColon))))
                }
            },
        }
    }
}

/// Parsing `int name() { ... }` at `pos`: the statement and the position after it.
pub open spec fn parse_function_at(ks: Seq<TokenKind>, pos: int) -> Result<(StatementView, int), StatementErrorView>
    decreases ks.len() - pos, 1int,
{
    if !type_at(ks, pos) {
        Err(StatementErrorView::TokenType(mismatch(ks, pos, TokenKind::Type(Types::Int))))
    } else if !identifier_at(ks, pos + 1) {
        Err(StatementErrorView::TokenType(mismatch(ks, pos + 1, any_identifier())))
    } else if kind_at(ks, pos + 2) != Some(TokenKind::Symbol(Symbols::OpenParen)) {
        Err(StatementErrorView::TokenType(mismatch(ks, pos + 2, TokenKind::Symbol(Symbols::OpenParen))))
    } else if kind_at(ks, pos + 3) != Some(TokenKind::Symbol(Symbols::CloseParen)) {
        Err(StatementErrorView::TokenType(mismatch(ks, pos + 3, TokenKind::Symbol(Symbols::CloseParen))))
    } else if kind_at(ks, pos + 4) != Some(TokenKind::Symbol(Symbols::OpenCurly)) {
        Err(StatementErrorView::TokenType(mismatch(ks, pos + 4, TokenKind::Symbol(Symbols::OpenCurly))))
    } else {
        match parse_body_at(ks, pos + 5) {
            Err(e) => Err(e),
            Ok((body, close)) => {
                if body.len() > 0 && body.last() is Return {
                    Ok((
                        StatementView::FunctionDeclare {
                            name: ks[pos + 1]->Identifier_0,
                            return_type: ks[pos]->Type_0,
                            body,
                        },
                        close + 1,
                    ))
                } else {
                    Err(StatementErrorView::MissingReturn)
                }
            },
        }
    }
}

/// Parsing the statements of a function body from `pos` up to its `}`: the statements
/// and the position of the `}`.
pub open spec fn parse_body_at(ks: Seq<TokenKind>, pos: int) -> Result<(Seq<StatementView>, int), StatementErrorView>
    decreases ks.len() - pos, 3int,
{
    if !(0 <= pos < ks.len()) {
        Err(StatementErrorView::TokenType(TokenTypeErrorView::ExpectedSomeGotNone))
    } else if ks[pos] == TokenKind::Symbol(Symbols::CloseCurly) {
        Ok((Seq::empty(), pos))
    } else {
        match parse_statement_at(ks, pos) {
            Err(e) => Err(e),
            Ok((s, next)) => {
                // Never taken: a statement spans at least one token, within the input.
                if !(pos < next <= ks.len()) {
                    Err(StatementErrorView::TokenType(TokenTypeErrorView::ExpectedSomeGotNone))
                } else {
                    match parse_body_at(ks, next) {
                        Err(e) => Err(e),
                        Ok((rest, close)) => Ok((seq![s] + rest, close)),
                    }
                }
            },
        }
    }
}

/// Parsing one statement at `pos`: the statement and the position after it.
pub open spec fn parse_statement_at(ks: Seq<TokenKind>, pos: int) -> Result<(StatementView, int), StatementErrorView>
    decreases ks.len() - pos, 2int,
{
    if starts_function(ks, pos) {
        parse_function_at(ks, pos)
    } else if kind_at(ks, pos) == Some(TokenKind::Keyword(Keywords::Return)) {
        parse_return_at(ks, pos)
    } else if 0 <= pos < ks.len() {
        Err(StatementErrorView::UnexpectedToken { got: ks[pos] })
    } else {
        Err(StatementErrorView::TokenType(TokenTypeErrorView::ExpectedSomeGotNone))
    }
}

/// Parsing statements from `pos` to the end of the input: the program.
pub open spec fn parse_program_at(ks: Seq<TokenKind>, pos: int) -> Result<Seq<StatementView>, ParserErrorView>
    decreases ks.len() - pos,
{
    if !(0 <= pos < ks.len()) {
        Ok(Seq::empty())
    } else {
        match parse_statement_at(ks, pos) {
            Err(e) => Err(ParserErrorView::Statement(e)),
            Ok((s, next)) => {
                // Never taken: a statement spans at least one token, within the input.
                if !(pos < next <= ks.len()) {
                    Err(ParserErrorView::Statement(StatementErrorView::TokenType(TokenTypeErrorView::ExpectedSomeGotNone)))
                } else {
                    match parse_program_at(ks, next) {
                        Err(e) => Err(e),
                        Ok(rest) => Ok(seq![s] + rest),
                    }
                }
            },
        }
    }
}

/// A statement that parses spans at least one token and ends within the input.
pub proof fn lemma_statement_progress(ks: Seq<TokenKind>, pos: int)
    ensures
        parse_statement_at(ks, pos) matches Ok((_, next)) ==> pos < next <= ks.len(),
    decreases ks.len() - pos, 2int,
{
    if starts_function(ks, pos) {
        lemma_function_progress(ks, pos);
    }
}

/// A function declaration that parses spans at least one token and ends within the input.
pub proof fn lemma_function_progress(ks: Seq<TokenKind>, pos: int)
    ensures
        parse_function_at(ks, pos) matches Ok((_, next)) ==> pos < next <= ks.len(),
    decreases ks.len() - pos, 1int,
{
    if type_at(ks, pos) && identifier_at(ks, pos + 1) && kind_at(ks, pos + 2) == Some(
        TokenKind::Symbol(Symbols::OpenParen),
    ) && kind_at(ks, pos + 3) == Some(TokenKind::Symbol(Symbols::CloseParen)) && kind_at(ks, pos + 4)
        == Some(TokenKind::Symbol(Symbols::OpenCurly)) {
        lemma_body_progress(ks, pos + 5);
    }
}

/// A function body that parses ends at a `}` at or after where it starts.
pub proof fn lemma_body_progress(ks: Seq<TokenKind>, pos: int)
    ensures
        parse_body_at(ks, pos) matches Ok((_, close)) ==> pos <= close < ks.len() && ks[close]
            == TokenKind::Symbol(Symbols::CloseCurly),
    decreases ks.len() - pos, 3int,
{
    if 0 <= pos < ks.len() && ks[pos] != TokenKind::Symbol(Symbols::CloseCurly) {
        lemma_statement_progress(ks, pos);
        if let Ok((_, next)) = parse_statement_at(ks, pos) {
            if pos < next <= ks.len() {
                lemma_body_progress(ks, next);
            }
        }
    }
}

/// The tokens that spell the statement `s`.
pub open spec fn statement_tokens(s: StatementView) -> Seq<TokenKind>
    decreases s,
{
    match s {
        StatementView::FunctionDeclare { name, return_type, body } => seq![
            TokenKind::Type(return_type),
            TokenKind::Identifier(name),
            TokenKind::Symbol(Symbols::OpenParen),
            TokenKind::Symbol(Symbols::CloseParen),
            TokenKind::Symbol(Symbols::OpenCurly),
        ] + body_tokens(body) + seq![TokenKind::Symbol(Symbols::CloseCurly)],
        StatementView::Return { term: TermView::LiteralInteger(text) } => seq![
            TokenKind::Keyword(Keywords::Return),
            TokenKind::IntegerLiteral(text),
            TokenKind::Symbol(Symbols::SemiColon),
        ],
    }
}

/// The tokens that spell the statements `ss`, one after the other.
pub open spec fn body_tokens(ss: Seq<StatementView>) -> Seq<TokenKind>
    decreases ss,
{
    if ss.len() == 0 {
        Seq::empty()
    } else {
        statement_tokens(ss[0]) + body_tokens(ss.drop_first())
    }
}

/// Every function declaration in `s`, at any depth, has a body that ends in a `Return`.
pub open spec fn well_formed(s: StatementView) -> bool
    decreases s,
{
    match s {
        StatementView::FunctionDeclare { body, .. } => {
            &&& body.len() > 0
            &&& body.last() is Return
            &&& all_well_formed(body)
        },
        StatementView::Return { .. } => true,
    }
}

/// Every statement of `ss` is well formed.
pub open spec fn all_well_formed(ss: Seq<StatementView>) -> bool
    decreases ss,
{
    ss.len() > 0 ==> well_formed(ss[0]) && all_well_formed(ss.drop_first())
}

/// `ks` holds the tokens `part` from position `pos` on.
pub open spec fn holds_at(ks: Seq<TokenKind>, pos: int, part: Seq<TokenKind>) -> bool {
    &&& 0 <= pos
    &&& pos + part.len() <= ks.len()
    &&& ks.subrange(pos, pos + part.len()) == part
}

/// The tokens of a well-formed statement parse back into that statement, whatever follows them.
pub proof fn lemma_statement_round_trip(s: StatementView, ks: Seq<TokenKind>, pos: int)
    requires
        well_formed(s),
        holds_at(ks, pos, statement_tokens(s)),
    ensures
        parse_statement_at(ks, pos) == Ok::<_, StatementErrorView>((s, pos + statement_tokens(s).len())),
    decreases s,
{
    let toks = statement_tokens(s);
    assert(forall|k: int| 0 <= k < toks.len() ==> ks[pos + k] == #[trigger] toks[k]) by {
        assert forall|k: int| 0 <= k < toks.len() implies ks[pos + k] == #[trigger] toks[k] by {
            assert(ks.subrange(pos, pos + toks.len())[k] == ks[pos + k]);
        }
    }
    match s {
        StatementView::FunctionDeclare { name, return_type, body } => {
            let inner = body_tokens(body);
            assert(toks[0] == TokenKind::Type(return_type));
            assert(toks[1] == TokenKind::Identifier(name));
            assert(toks[2] == TokenKind::Symbol(Symbols::OpenParen));
            assert(toks[3] == TokenKind::Symbol(Symbols::CloseParen));
            assert(toks[4] == TokenKind::Symbol(Symbols::OpenCurly));
            assert(toks[5 + inner.len() as int] == TokenKind::Symbol(Symbols::CloseCurly));
            assert(ks.subrange(pos + 5, pos + 5 + inner.len()) =~= inner) by {
                assert forall|k: int| 0 <= k < inner.len() implies ks.subrange(
                    pos + 5,
                    pos + 5 + inner.len(),
                )[k] == inner[k] by {
                    assert(toks[5 + k] == inner[k]);
                }
            }
            lemma_body_round_trip(body, ks, pos + 5);
        },
        StatementView::Return { term: TermView::LiteralInteger(text) } => {
            assert(toks[0] == TokenKind::Keyword(Keywords::Return));
            assert(toks[1] == TokenKind::IntegerLiteral(text));
            assert(toks[2] == TokenKind::Symbol(Symbols::SemiColon));
        },
    }
}

/// The tokens of well-formed statements, followed by `}`, parse back into those statements
/// as a function body.
pub proof fn lemma_body_round_trip(ss: Seq<StatementView>, ks: Seq<TokenKind>, pos: int)
    requires
        all_well_formed(ss),
        holds_at(ks, pos, body_tokens(ss)),
        pos + body_tokens(ss).len() < ks.len(),
        ks[pos + body_tokens(ss).len()] == TokenKind::Symbol(Symbols::CloseCurly),
    ensures
        parse_body_at(ks, pos) == Ok::<_, StatementErrorView>((ss, pos + body_tokens(ss).len())),
    decreases ss,
{
    if ss.len() == 0 {
        assert(ss =~= Seq::<StatementView>::empty());
    } else {
        let first = statement_tokens(ss[0]);
        let rest = body_tokens(ss.drop_first());
        let all = body_tokens(ss);
        assert(all == first + rest);
        assert(ks.subrange(pos, pos + first.len()) =~= first) by {
            assert forall|k: int| 0 <= k < first.len() implies ks.subrange(pos, pos + first.len())[k]
                == first[k] by {
                assert(ks.subrange(pos, pos + all.len())[k] == all[k]);
            }
        }
        assert(ks.subrange(pos + first.len(), pos + first.len() + rest.len()) =~= rest) by {
            assert forall|k: int| 0 <= k < rest.len() implies ks.subrange(
                pos + first.len(),
                pos + first.len() + rest.len(),
            )[k] == rest[k] by {
                assert(ks.subrange(pos, pos + all.len())[first.len() + k] == all[first.len() + k]);
            }
        }
        lemma_statement_tokens_start(ss[0]);
        assert(ks[pos] == first[0]) by {
            assert(ks.subrange(pos, pos + first.len())[0] == first[0]);
        }
        lemma_statement_round_trip(ss[0], ks, pos);
        lemma_body_round_trip(ss.drop_first(), ks, pos + first.len());
        assert(seq![ss[0]] + ss.drop_first() =~= ss);
    }
}

/// A statement's tokens are not empty and do not start with `}`.
pub proof fn lemma_statement_tokens_start(s: StatementView)
    ensures
        statement_tokens(s).len() > 0,
        statement_tokens(s)[0] != TokenKind::Symbol(Symbols::CloseCurly),
{
}

/// The tokens of one well-formed function declaration parse into a program of exactly
/// that declaration.
pub proof fn lemma_program_tokens_parse(f: StatementView)
    requires
        f is FunctionDeclare,
        well_formed(f),
    ensures
        parse_program_at(statement_tokens(f), 0) == Ok::<_, ParserErrorView>(seq![f]),
{
    let ks = statement_tokens(f);
    assert(ks.subrange(0, ks.len() as int) =~= ks);
    lemma_statement_round_trip(f, ks, 0);
    assert(parse_program_at(ks, ks.len() as int) == Ok::<_, ParserErrorView>(Seq::<StatementView>::empty()));
    assert(seq![f] + Seq::<StatementView>::empty() =~= seq![f]);
}

/// A function declaration whose body does not end in a `return` statement fails with
/// `MissingReturn`, and gives no syntax tree.
pub proof fn law_missing_return(name: Seq<char>, return_type: Types, body: Seq<StatementView>)
    requires
        all_well_formed(body),
        !(body.len() > 0 && body.last() is Return),
    ensures
        parse_statement_at(
            statement_tokens(StatementView::FunctionDeclare { name, return_type, body }),
            0,
        ) == Err::<(StatementView, int), _>(StatementErrorView::MissingReturn),
{
    let f = StatementView::FunctionDeclare { name, return_type, body };
    let ks = statement_tokens(f);
    let inner = body_tokens(body);
    assert(ks[0] == TokenKind::Type(return_type));
    assert(ks[1] == TokenKind::Identifier(name));
    assert(ks[2] == TokenKind::Symbol(Symbols::OpenParen));
    assert(ks[3] == TokenKind::Symbol(Symbols::CloseParen));
    assert(ks[4] == TokenKind::Symbol(Symbols::OpenCurly));
    assert(ks[5 + inner.len() as int] == TokenKind::Symbol(Symbols::CloseCurly));
    assert(ks.subrange(5, 5 + inner.len() as int) =~= inner);
    lemma_body_round_trip(body, ks, 5);
}

/// A statement that starts with a token with which neither rule starts is an
/// `UnexpectedToken` error naming that token.
pub proof fn law_unexpected_token(ks: Seq<TokenKind>, pos: int)
    requires
        0 <= pos < ks.len(),
        !starts_function(ks, pos),
        ks[pos] != TokenKind::Keyword(Keywords::Return),
    ensures
        parse_statement_at(ks, pos) == Err::<(StatementView, int), _>(
            StatementErrorView::UnexpectedToken { got: ks[pos] },
        ),
        parse_program_at(ks, pos) == Err::<Seq<StatementView>, _>(
            ParserErrorView::Statement(StatementErrorView::UnexpectedToken { got: ks[pos] }),
        ),
{
}

/// Tokenizing then parsing a well-formed program gives it back. The program is one function
/// declaration whose body ends in a `return` of an integer literal, at any depth, written
/// out on one line with a space after each token; its names are words that are not keywords
/// and its literals are digits. Scanning that line finds no error, and its tokens parse into
/// a program of exactly that declaration, so the last statement of the body returns the
/// literal's text as written.
pub proof fn law_well_formed_program_parses(f: StatementView, line: nat, col: nat)
    requires
        f is FunctionDeclare,
        well_formed(f),
        forall|j: int| 0 <= j < statement_tokens(f).len() ==> writable(#[trigger] statement_tokens(f)[j]),
    ensures
        ({
            let scanned = scan(spelled(statement_tokens(f)), 0, line, col);
            &&& scanned.1.len() == 0
            &&& parse_program_at(kinds_of(scanned.0), 0) == Ok::<_, ParserErrorView>(seq![f])
        }),
{
    let text = spelled(statement_tokens(f));
    assert(text.subrange(0, text.len() as int) =~= text);
    lemma_scan_spelled(text, 0, statement_tokens(f), line, col);
    lemma_program_tokens_parse(f);
}

} // verus!
