use crate::errors::InterpreterResult;
use crate::expr_printer::{contains_assign, print_spec, ExprPrinter};
use crate::token::{Token, TokenV};
use crate::value::{Value, ValueV};
use vstd::prelude::*;
use vstd::string::StringExecFns;

verus! {

// An expression of the language: a strict tree, each node owning its
// children.  Built by the parser, read by the interpreter and the
// printer.

#[derive(Debug, PartialEq)]
pub enum Expr {
    Assign { name: Token, value: Box<Expr> },
    Binary { left: Box<Expr>, operator: Token, right: Box<Expr> },
    Grouping { expression: Box<Expr> },
    Literal { value: Value },
    Unary { operator: Token, right: Box<Expr> },
    Variable { name: Token },
}

/// The mathematical shape of an expression.
pub enum ExprV {
    Assign { name: TokenV, value: Box<ExprV> },
    Binary { left: Box<ExprV>, operator: TokenV, right: Box<ExprV> },
    Grouping { expression: Box<ExprV> },
    Literal { value: ValueV },
    Unary { operator: TokenV, right: Box<ExprV> },
    Variable { name: TokenV },
}

/// The mathematical shape of an expression tree.
pub open spec fn expr_view(e: &Expr) -> ExprV
    decreases e,
{
    match e {
        Expr::Assign { name, value } => ExprV::Assign {
            name: name@,
            value: Box::new(expr_view(&**value)),
        },
        Expr::Binary { left, operator, right } => ExprV::Binary {
            left: Box::new(expr_view(&**left)),
            operator: operator@,
            right: Box::new(expr_view(&**right)),
        },
        Expr::Grouping { expression } => ExprV::Grouping {
            expression: Box::new(expr_view(&**expression)),
        },
        Expr::Literal { value } => ExprV::Literal { value: value@ },
        Expr::Unary { operator, right } => ExprV::Unary {
            operator: operator@,
            right: Box::new(expr_view(&**right)),
        },
        Expr::Variable { name } => ExprV::Variable { name: name@ },
    }
}

impl View for Expr {
    type V = ExprV;

    open spec fn view(&self) -> ExprV {
        expr_view(self)
    }
}

impl Expr {
    /// A literal holding the number with the given bit pattern.
    pub fn literal_num(n: u32) -> (r: Self)
        ensures
            r@ == (ExprV::Literal { value: ValueV::Num(n) }),
    {
        Self::Literal { value: Value::Number(n) }
    }

    /// A literal holding the given text.
    pub fn literal_string(s: &str) -> (r: Self)
        ensures
            r@ == (ExprV::Literal { value: ValueV::Str(s@) }),
    {
        Self::Literal { value: Value::Str(String::from_str(s)) }
    }

    /// A literal holding the given boolean.
    pub fn literal_bool(b: bool) -> (r: Self)
        ensures
            r@ == (ExprV::Literal { value: ValueV::Bool(b) }),
    {
        Self::Literal { value: Value::Bool(b) }
    }

    /// The nil literal.
    pub fn literal_nil() -> (r: Self)
        ensures
            r@ == (ExprV::Literal { value: ValueV::Nil }),
    {
        Self::Literal { value: Value::Nil }
    }

    /// Renders this expression in parenthesised prefix form.
    pub fn print(&self) -> (r: InterpreterResult<String>)
        requires
            !contains_assign(self@),
        ensures
            r matches Ok(s) && s@ == print_spec(self@),
    {
        ExprPrinter::default().build(self)?.print()
    }
}

} // verus!
