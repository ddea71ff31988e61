use crate::expr::{expr_view, Expr, ExprV};
use crate::token::{Token, TokenV};
use vstd::prelude::*;

verus! {

// A statement of the language.  A block owns an ordered sequence of
// child statements, executed in order.

#[derive(Debug, PartialEq)]
pub enum Stmt {
    Block { stmts: Vec<Stmt> },
    Variable { name: Token, initializer: Option<Box<Expr>> },
    Print { expr: Box<Expr> },
    Expr { expr: Box<Expr> },
}

/// The mathematical shape of a statement.
pub enum StmtV {
    Block { stmts: Seq<StmtV> },
    Variable { name: TokenV, initializer: Option<Box<ExprV>> },
    Print { expr: Box<ExprV> },
    Expr { expr: Box<ExprV> },
}

/// The mathematical shape of a statement tree.
pub open spec fn stmt_view(s: &Stmt) -> StmtV
    decreases s,
{
    match s {
        Stmt::Block { stmts } => StmtV::Block { stmts: stmts_view(stmts@) },
        Stmt::Variable { name, initializer } => StmtV::Variable {
            name: name@,
            initializer: match initializer {
                Some(e) => Some(Box::new(expr_view(&**e))),
                None => None,
            },
        },
        Stmt::Print { expr } => StmtV::Print { expr: Box::new(expr_view(&**expr)) },
        Stmt::Expr { expr } => StmtV::Expr { expr: Box::new(expr_view(&**expr)) },
    }
}

/// The mathematical shape of a run of statements.
pub open spec fn stmts_view(s: Seq<Stmt>) -> Seq<StmtV>
    decreases s,
{
    if s.len() == 0 {
        Seq::empty()
    } else {
        stmts_view(s.drop_last()).push(stmt_view(&s.last()))
    }
}

/// The view of a run of statements indexes to the view of each
/// statement.
pub proof fn lemma_stmts_view_index(s: Seq<Stmt>)
    ensures
        stmts_view(s).len() == s.len(),
        forall|i: int| 0 <= i < s.len() ==> stmts_view(s)[i] == stmt_view(&s[i]),
    decreases s.len(),
{
    if s.len() > 0 {
        lemma_stmts_view_index(s.drop_last());
    }
}

impl View for Stmt {
    type V = StmtV;

    open spec fn view(&self) -> StmtV {
        stmt_view(self)
    }
}

impl From<Expr> for Stmt {
    fn from(value: Expr) -> (r: Stmt) {
        Stmt::Expr { expr: Box::new(value) }
    }
}

impl vstd::std_specs::convert::FromSpecImpl<Expr> for Stmt {
    open spec fn obeys_from_spec() -> bool {
        true
    }

    open spec fn from_spec(value: Expr) -> Stmt {
        Stmt::Expr { expr: Box::new(value) }
    }
}

impl From<Stmt> for Expr {
    fn from(value: Stmt) -> (r: Expr) {
        match value {
            Stmt::Expr { expr } => *expr,
            _ => Expr::literal_nil(),
        }
    }
}

impl vstd::std_specs::convert::FromSpecImpl<Stmt> for Expr {
    open spec fn obeys_from_spec() -> bool {
        true
    }

    open spec fn from_spec(value: Stmt) -> Expr {
        match value {
            Stmt::Expr { expr } => *expr,
            _ => Expr::Literal { value: crate::value::Value::Nil },
        }
    }
}

} // verus!
