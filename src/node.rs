use vstd::prelude::*;

use crate::token::Types;

verus! {

/// A statement of a program.
#[derive(Debug, PartialEq, Eq)]
pub enum Statement {
    /// A function with no parameters; its body ends in a `Return`.
    FunctionDeclare { name: String, return_type: Types, body: Vec<Statement> },
    /// `return <term>;`
    Return { term: Term },
}

/// An expression.
#[derive(Debug, PartialEq, Eq)]
pub enum Term {
    /// An integer literal, holding its digits exactly as written.
    LiteralInteger(String),
}

/// The mathematical model of a [`Term`].
pub enum TermView {
    LiteralInteger(Seq<char>),
}

/// The mathematical model of a [`Statement`].
pub enum StatementView {
    FunctionDeclare { name: Seq<char>, return_type: Types, body: Seq<StatementView> },
    Return { term: TermView },
}

impl View for Term {
    type V = TermView;

    open spec fn view(&self) -> TermView {
        match self {
            Term::LiteralInteger(text) => TermView::LiteralInteger(text@),
        }
    }
}

impl View for Statement {
    type V = StatementView;

    open spec fn view(&self) -> StatementView
        decreases self,
    {
        match self {
            Statement::FunctionDeclare { name, return_type, body } => {
                StatementView::FunctionDeclare {
                    name: name@,
                    return_type: *return_type,
                    body: statement_views(body@),
                }
            },
            Statement::Return { term } => StatementView::Return { term: term@ },
        }
    }
}

/// The views of a sequence of statements.
pub open spec fn statement_views(ss: Seq<Statement>) -> Seq<StatementView>
    decreases ss,
{
    if ss.len() == 0 {
        Seq::empty()
    } else {
        statement_views(ss.drop_last()).push(ss.last()@)
    }
}

/// The views of statements are the statements' views, one by one.
pub proof fn lemma_statement_views(ss: Seq<Statement>)
    ensures
        statement_views(ss).len() == ss.len(),
        forall|i: int| 0 <= i < ss.len() ==> #[trigger] statement_views(ss)[i] == ss[i]@,
    decreases ss.len(),
{
    if ss.len() > 0 {
        lemma_statement_views(ss.drop_last());
        assert(statement_views(ss) == statement_views(ss.drop_last()).push(ss.last()@));
    } else {
        assert(statement_views(ss) == Seq::<StatementView>::empty());
    }
}

} // verus!
