use crate::errors::{InterpreterError, InterpreterResult};
use crate::expr::{expr_view, Expr, ExprV};
use crate::token::{text_of, Token};
use crate::value::{display_of, Value};
use vstd::prelude::*;
use vstd::string::StringExecFns;

verus! {

// Serialises an expression into fully parenthesised prefix form:
// literals display as their value, a grouping as `(grouping <inner>)`,
// a unary node as `(<op> <operand>)`, a binary node as
// `(<op> <left> <right>)`, a variable as its name.  Assignment is out
// of this printer's scope.

/// Whether an expression holds an assignment anywhere in it.
pub open spec fn contains_assign(e: ExprV) -> bool
    decreases e,
{
    match e {
        ExprV::Assign { .. } => true,
        ExprV::Binary { left, right, .. } => contains_assign(*left) || contains_assign(*right),
        ExprV::Grouping { expression } => contains_assign(*expression),
        ExprV::Unary { right, .. } => contains_assign(*right),
        ExprV::Literal { .. } => false,
        ExprV::Variable { .. } => false,
    }
}

/// The prefix rendering of an expression that holds no assignment.
pub open spec fn print_spec(e: ExprV) -> Seq<char>
    decreases e,
{
    match e {
        ExprV::Literal { value } => display_of(value),
        ExprV::Grouping { expression } => "("@ + "grouping"@ + " "@ + print_spec(*expression)
            + ")"@,
        ExprV::Binary { left, operator, right } => "("@ + text_of(operator) + " "@ + print_spec(
            *left,
        ) + " "@ + print_spec(*right) + ")"@,
        ExprV::Unary { operator, right } => "("@ + text_of(operator) + " "@ + print_spec(*right)
            + ")"@,
        ExprV::Variable { name } => text_of(name),
        ExprV::Assign { .. } => Seq::empty(),
    }
}

pub struct ExprPrinter {
    s: String,
}

impl Default for ExprPrinter {
    fn default() -> (r: Self)
        ensures
            r@ == Seq::<char>::empty(),
    {
        let s = String::from_str("");
        proof {
            reveal_strlit("");
            assert(s@ =~= Seq::<char>::empty());
        }
        ExprPrinter { s }
    }
}

impl View for ExprPrinter {
    type V = Seq<char>;

    closed spec fn view(&self) -> Seq<char> {
        self.s@
    }
}

impl ExprPrinter {
    /// Appends the rendering of the given expression to what has been
    /// built so far.
    pub fn build(self, expr: &Expr) -> (r: InterpreterResult<Self>)
        requires
            !contains_assign(expr_view(expr)),
        ensures
            r matches Ok(p) && p@ == self@ + print_spec(expr_view(expr)),
        decreases expr,
    {
        match expr {
            Expr::Literal { value } => self.build_literal(value),
            Expr::Grouping { expression } => {
                let p = self.l_paren("grouping")?;
                let p = p.build(expression)?;
                let p = p.r_paren()?;
                proof {
                    assert(p@ =~= self@ + print_spec(expr_view(expr)));
                }
                Ok(p)
            },
            Expr::Binary { left, operator, right } => {
                let t = operator.text();
                let p = self.l_paren(t.as_str())?;
                let p = p.build(left)?;
                let p = p.space()?;
                let p = p.build(right)?;
                let p = p.r_paren()?;
                proof {
                    assert(p@ =~= self@ + print_spec(expr_view(expr)));
                }
                Ok(p)
            },
            Expr::Unary { operator, right } => {
                let t = operator.text();
                let p = self.l_paren(t.as_str())?;
                let p = p.build(right)?;
                let p = p.r_paren()?;
                proof {
                    assert(p@ =~= self@ + print_spec(expr_view(expr)));
                }
                Ok(p)
            },
            Expr::Variable { name } => self.build_variable(name),
            Expr::Assign { .. } => {
                proof {
                    assert(false);
                }
                Err(InterpreterError::Unknown)
            },
        }
    }

    /// Hands out the built text.
    pub fn print(self) -> (r: InterpreterResult<String>)
        ensures
            r matches Ok(s) && s@ == self@,
    {
        Ok(self.s)
    }

    fn build_literal(self, value: &Value) -> (r: InterpreterResult<Self>)
        ensures
            r matches Ok(p) && p@ == self@ + display_of(value@),
    {
        let mut s = self.s;
        let t = value.display_text();
        s.append(t.as_str());
        Ok(ExprPrinter { s })
    }

    fn build_variable(self, name: &Token) -> (r: InterpreterResult<Self>)
        ensures
            r matches Ok(p) && p@ == self@ + text_of(name@),
    {
        let mut s = self.s;
        let t = name.text();
        s.append(t.as_str());
        Ok(ExprPrinter { s })
    }

    fn l_paren(self, name: &str) -> (r: InterpreterResult<Self>)
        ensures
            r matches Ok(p) && p@ == self@ + "("@ + name@ + " "@,
    {
        let mut s = self.s;
        s.append("(");
        s.append(name);
        s.append(" ");
        Ok(ExprPrinter { s })
    }

    fn r_paren(self) -> (r: InterpreterResult<Self>)
        ensures
            r matches Ok(p) && p@ == self@ + ")"@,
    {
        let mut s = self.s;
        s.append(")");
        Ok(ExprPrinter { s })
    }

    fn space(self) -> (r: InterpreterResult<Self>)
        ensures
            r matches Ok(p) && p@ == self@ + " "@,
    {
        let mut s = self.s;
        s.append(" ");
        Ok(ExprPrinter { s })
    }
}

} // verus!
