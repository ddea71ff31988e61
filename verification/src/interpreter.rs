use crate::environment::{env_assign, env_define, env_get, EnvV, Environment};
use crate::errors::{with_type_line, with_undefined_line, ErrV, InterpreterError, InterpreterResult};
use crate::expr::{Expr, ExprV};
use crate::numeric::{add_bits, div_bits, le_bits, lt_bits, mul_bits, sub_bits};
use crate::stmt::{stmts_view, Stmt, StmtV};
use crate::token::{Token, TokenV};
use crate::value::{as_bool_v, as_num_v, as_string_v, display_of, val_eq, Value, ValueV};
use vstd::prelude::*;
use vstd::string::StringExecFns;

verus! {

// The tree-walking evaluator: statements and expressions are walked
// against the chain of scopes, producing a value, possibly printed
// lines, and mutations of the chain.  Type errors and undefined
// variables stop the walk at once; a block's scope is discarded on
// every exit path, successful or not.

/// The size of an expression tree, for termination measures.
pub open spec fn esize(e: ExprV) -> nat
    decreases e,
{
    match e {
        ExprV::Literal { .. } => 1,
        ExprV::Variable { .. } => 1,
        ExprV::Grouping { expression } => 1 + esize(*expression),
        ExprV::Unary { right, .. } => 1 + esize(*right),
        ExprV::Binary { left, right, .. } => 1 + esize(*left) + esize(*right),
        ExprV::Assign { value, .. } => 1 + esize(*value),
    }
}

/// The size of a statement tree, for termination measures.
pub open spec fn ssize(s: StmtV) -> nat
    decreases s,
{
    match s {
        StmtV::Expr { expr } => 1 + esize(*expr),
        StmtV::Print { expr } => 1 + esize(*expr),
        StmtV::Variable { initializer, .. } => 1 + (match initializer {
            Some(e) => esize(*e),
            None => 0,
        }),
        StmtV::Block { stmts } => 1 + sqsize(stmts),
    }
}

/// The summed size of a run of statements.
pub open spec fn sqsize(q: Seq<StmtV>) -> nat
    decreases q,
{
    if q.len() == 0 {
        0
    } else {
        ssize(q[0]) + sqsize(q.drop_first())
    }
}

/// Each statement of a run weighs no more than the whole run.
pub proof fn lemma_sqsize_index(q: Seq<StmtV>, i: int)
    requires
        0 <= i < q.len(),
    ensures
        ssize(q[i]) <= sqsize(q),
    decreases q.len(),
{
    if i > 0 {
        lemma_sqsize_index(q.drop_first(), i - 1);
    }
}

/// What evaluating an expression yields: its value or the error, and
/// the chain after any assignments that ran.
pub struct EvalRes {
    pub res: Result<ValueV, ErrV>,
    pub env: EnvV,
}

/// What executing a statement yields: its value or the error, the
/// chain after it, and the lines it printed.
pub struct ExecRes {
    pub res: Result<ValueV, ErrV>,
    pub env: EnvV,
    pub out: Seq<Seq<char>>,
}

/// Coerces both operands to numbers, or raises the first type error,
/// tagged with the operator's line.
pub open spec fn nums2(lv: ValueV, rv: ValueV, line: usize) -> Result<(u32, u32), ErrV> {
    match as_num_v(lv) {
        Err(e) => Err(with_type_line(e, line)),
        Ok(ln) => match as_num_v(rv) {
            Err(e) => Err(with_type_line(e, line)),
            Ok(rn) => Ok((ln, rn)),
        },
    }
}

/// The value a binary operator produces from its evaluated operands.
#[verifier::opaque]
pub open spec fn eval_binary_op(op: TokenV, lv: ValueV, rv: ValueV) -> Result<ValueV, ErrV> {
    match op {
        TokenV::Minus { line } => match nums2(lv, rv, line) {
            Ok((ln, rn)) => Ok(ValueV::Num(sub_bits(ln, rn))),
            Err(e) => Err(e),
        },
        TokenV::Slash { line } => match nums2(lv, rv, line) {
            Ok((ln, rn)) => Ok(ValueV::Num(div_bits(ln, rn))),
            Err(e) => Err(e),
        },
        TokenV::Star { line } => match nums2(lv, rv, line) {
            Ok((ln, rn)) => Ok(ValueV::Num(mul_bits(ln, rn))),
            Err(e) => Err(e),
        },
        TokenV::Plus { line } => match as_num_v(lv) {
            Ok(ln) => match as_num_v(rv) {
                Ok(rn) => Ok(ValueV::Num(add_bits(ln, rn))),
                Err(e) => Err(with_type_line(e, line)),
            },
            Err(_) => match as_string_v(lv) {
                Ok(ls) => match as_string_v(rv) {
                    Ok(rs) => Ok(ValueV::Str(ls + rs)),
                    Err(e) => Err(with_type_line(e, line)),
                },
                Err(e) => Err(with_type_line(e, line)),
            },
        },
        TokenV::Greater { line } => match nums2(lv, rv, line) {
            Ok((ln, rn)) => Ok(ValueV::Bool(lt_bits(rn, ln))),
            Err(e) => Err(e),
        },
        TokenV::Less { line } => match nums2(lv, rv, line) {
            Ok((ln, rn)) => Ok(ValueV::Bool(lt_bits(ln, rn))),
            Err(e) => Err(e),
        },
        TokenV::GreaterEqual { line } => match nums2(lv, rv, line) {
            Ok((ln, rn)) => Ok(ValueV::Bool(le_bits(rn, ln))),
            Err(e) => Err(e),
        },
        TokenV::LessEqual { line } => match nums2(lv, rv, line) {
            Ok((ln, rn)) => Ok(ValueV::Bool(le_bits(ln, rn))),
            Err(e) => Err(e),
        },
        TokenV::EqualEqual { .. } => Ok(ValueV::Bool(val_eq(lv, rv))),
        TokenV::BangEqual { .. } => Ok(ValueV::Bool(!val_eq(lv, rv))),
        t => Err(
            ErrV::SyntaxError {
                line: crate::parser::line_or(t, 0),
                message: "Invalid binary expression"@,
            },
        ),
    }
}

/// The value a unary operator produces from its evaluated operand.
#[verifier::opaque]
pub open spec fn eval_unary_op(op: TokenV, v: ValueV) -> Result<ValueV, ErrV> {
    match op {
        TokenV::Minus { line } => match as_num_v(v) {
            Ok(n) => Ok(ValueV::Num(n ^ 0x8000_0000)),
            Err(e) => Err(with_type_line(e, line)),
        },
        TokenV::Bang { line } => match as_bool_v(v) {
            Ok(b) => Ok(ValueV::Bool(!b)),
            Err(e) => Err(with_type_line(e, line)),
        },
        t => Err(
            ErrV::SyntaxError {
                line: crate::parser::line_or(t, 0),
                message: "Invalid unary expression"@,
            },
        ),
    }
}

/// Evaluates an expression against a chain of scopes.
pub open spec fn eval_expr(e: ExprV, env: EnvV) -> EvalRes
    decreases esize(e), 2int,
{
    match e {
        ExprV::Literal { value } => EvalRes { res: Ok(value), env },
        ExprV::Grouping { expression } => eval_expr(*expression, env),
        ExprV::Variable { name } => match name {
            TokenV::Identifier { literal, line, .. } => match env_get(env, literal) {
                Some(v) => EvalRes { res: Ok(v), env },
                None => EvalRes {
                    res: Err(ErrV::UndefinedVariable { name: literal, line: Some(line) }),
                    env,
                },
            },
            _ => EvalRes {
                res: Err(ErrV::SyntaxError { line: 0, message: "Invalid variable"@ }),
                env,
            },
        },
        ExprV::Assign { name, value } => match name {
            TokenV::Identifier { literal, line, .. } => {
                let r1 = eval_expr(*value, env);
                match r1.res {
                    Ok(v) => match env_assign(r1.env, literal, v) {
                        Ok(env2) => EvalRes { res: Ok(v), env: env2 },
                        Err(er) => EvalRes {
                            res: Err(with_undefined_line(er, line)),
                            env: r1.env,
                        },
                    },
                    Err(er) => r1,
                }
            },
            t => EvalRes {
                res: Err(
                    ErrV::SyntaxError {
                        line: crate::parser::line_or(t, 0),
                        message: "Invalid assignment"@,
                    },
                ),
                env,
            },
        },
        ExprV::Unary { operator, right } => {
            let r1 = eval_expr(*right, env);
            match r1.res {
                Ok(v) => EvalRes { res: eval_unary_op(operator, v), env: r1.env },
                Err(er) => r1,
            }
        },
        ExprV::Binary { left, operator, right } => {
            let r1 = eval_expr(*left, env);
            match r1.res {
                Ok(lv) => {
                    let r2 = eval_expr(*right, r1.env);
                    match r2.res {
                        Ok(rv) => EvalRes {
                            res: eval_binary_op(operator, lv, rv),
                            env: r2.env,
                        },
                        Err(er) => r2,
                    }
                },
                Err(er) => r1,
            }
        },
    }
}

/// Executes a statement against a chain of scopes.
pub open spec fn eval_stmt(s: StmtV, env: EnvV) -> ExecRes
    decreases ssize(s), 1int,
{
    match s {
        StmtV::Expr { expr } => {
            let r = eval_expr(*expr, env);
            ExecRes { res: r.res, env: r.env, out: Seq::empty() }
        },
        StmtV::Print { expr } => {
            let r = eval_expr(*expr, env);
            match r.res {
                Ok(v) => ExecRes {
                    res: Ok(ValueV::Nil),
                    env: r.env,
                    out: seq![display_of(v)],
                },
                Err(er) => ExecRes { res: Err(er), env: r.env, out: Seq::empty() },
            }
        },
        StmtV::Variable { name, initializer } => match name {
            TokenV::Identifier { literal, .. } => {
                let r = match initializer {
                    Some(e) => eval_expr(*e, env),
                    None => EvalRes { res: Ok(ValueV::Nil), env },
                };
                match r.res {
                    Ok(v) => ExecRes {
                        res: Ok(ValueV::Nil),
                        env: env_define(r.env, literal, v),
                        out: Seq::empty(),
                    },
                    Err(er) => ExecRes { res: Err(er), env: r.env, out: Seq::empty() },
                }
            },
            _ => ExecRes {
                res: Err(ErrV::SyntaxError { line: 0, message: "Invalid variable"@ }),
                env,
                out: Seq::empty(),
            },
        },
        StmtV::Block { stmts } => {
            let inner = eval_seq(stmts, env.push(Seq::empty()));
            ExecRes { res: match inner.res {
                Ok(_) => Ok(ValueV::Nil),
                Err(er) => Err(er),
            }, env: inner.env.drop_last(), out: inner.out }
        },
    }
}

/// Executes a run of statements in order, stopping at the first error.
pub open spec fn eval_seq(q: Seq<StmtV>, env: EnvV) -> ExecRes
    decreases sqsize(q), 2int, q.len(),
{
    if q.len() == 0 {
        ExecRes { res: Ok(ValueV::Nil), env, out: Seq::empty() }
    } else {
        let r1 = eval_stmt(q[0], env);
        match r1.res {
            Err(er) => ExecRes { res: Err(er), env: r1.env, out: r1.out },
            Ok(_) => {
                let r2 = eval_seq(q.drop_first(), r1.env);
                ExecRes { res: r2.res, env: r2.env, out: r1.out + r2.out }
            },
        }
    }
}

/// Assignment never changes how many scopes the chain holds.
pub proof fn lemma_env_assign_len(env: EnvV, name: Seq<char>, v: ValueV)
    ensures
        env_assign(env, name, v) matches Ok(e) ==> e.len() == env.len(),
    decreases env.len(),
{
    if env.len() > 0 {
        lemma_env_assign_len(env.drop_last(), name, v);
    }
}

/// Evaluating an expression never changes how many scopes the chain
/// holds.
pub proof fn lemma_eval_expr_len(e: ExprV, env: EnvV)
    ensures
        eval_expr(e, env).env.len() == env.len(),
    decreases esize(e), 2int,
{
    match e {
        ExprV::Grouping { expression } => {
            lemma_eval_expr_len(*expression, env);
        },
        ExprV::Assign { name, value } => {
            lemma_eval_expr_len(*value, env);
            match name {
                TokenV::Identifier { literal, .. } => {
                    let r1 = eval_expr(*value, env);
                    if r1.res is Ok {
                        lemma_env_assign_len(r1.env, literal, r1.res->Ok_0);
                    }
                },
                _ => {},
            }
        },
        ExprV::Unary { right, .. } => {
            lemma_eval_expr_len(*right, env);
        },
        ExprV::Binary { left, right, .. } => {
            lemma_eval_expr_len(*left, env);
            let r1 = eval_expr(*left, env);
            if r1.res is Ok {
                lemma_eval_expr_len(*right, r1.env);
            }
        },
        _ => {},
    }
}

/// Executing a statement never changes how many scopes the chain
/// holds: a block's fresh scope is discarded on every exit path.
pub proof fn lemma_eval_stmt_len(s: StmtV, env: EnvV)
    requires
        env.len() >= 1,
    ensures
        eval_stmt(s, env).env.len() == env.len(),
    decreases ssize(s), 1int,
{
    match s {
        StmtV::Expr { expr } => {
            lemma_eval_expr_len(*expr, env);
        },
        StmtV::Print { expr } => {
            lemma_eval_expr_len(*expr, env);
        },
        StmtV::Variable { name, initializer } => {
            match initializer {
                Some(e) => {
                    lemma_eval_expr_len(*e, env);
                },
                None => {},
            }
        },
        StmtV::Block { stmts } => {
            lemma_eval_seq_len(stmts, env.push(Seq::empty()));
        },
    }
}

/// Executing a run of statements never changes how many scopes the
/// chain holds.
pub proof fn lemma_eval_seq_len(q: Seq<StmtV>, env: EnvV)
    requires
        env.len() >= 1,
    ensures
        eval_seq(q, env).env.len() == env.len(),
    decreases sqsize(q), 2int, q.len(),
{
    if q.len() > 0 {
        lemma_eval_stmt_len(q[0], env);
        let r1 = eval_stmt(q[0], env);
        if r1.res is Ok {
            lemma_eval_seq_len(q.drop_first(), r1.env);
        }
    }
}


/// Every expression has positive size.
pub proof fn lemma_esize_pos(e: ExprV)
    ensures
        esize(e) >= 1,
{
}

/// Coerces a value to a number, tagging a failure with the line of
/// the operator that asked.
fn cast_num(v: &Value, line: &usize) -> (r: InterpreterResult<u32>)
    ensures
        match r {
            Ok(n) => as_num_v(v@) == Ok::<u32, ErrV>(n),
            Err(e) => as_num_v(v@) matches Err(e0) && e@ == with_type_line(e0, *line),
        },
{
    match v.as_num() {
        Ok(n) => Ok(n),
        Err(e) => Err(e.add_line_to_type_error(*line)),
    }
}

/// Coerces a value to text, tagging a failure with the line of the
/// operator that asked.
fn cast_string(v: &Value, line: &usize) -> (r: InterpreterResult<String>)
    ensures
        match r {
            Ok(s) => as_string_v(v@) == Ok::<Seq<char>, ErrV>(s@),
            Err(e) => as_string_v(v@) matches Err(e0) && e@ == with_type_line(e0, *line),
        },
{
    match v.as_string() {
        Ok(s) => Ok(s),
        Err(e) => Err(e.add_line_to_type_error(*line)),
    }
}

/// Coerces a value to a boolean, tagging a failure with the line of
/// the operator that asked.
fn cast_bool(v: &Value, line: &usize) -> (r: InterpreterResult<bool>)
    ensures
        match r {
            Ok(b) => as_bool_v(v@) == Ok::<bool, ErrV>(b),
            Err(e) => as_bool_v(v@) matches Err(e0) && e@ == with_type_line(e0, *line),
        },
{
    match v.as_bool() {
        Ok(b) => Ok(b),
        Err(e) => Err(e.add_line_to_type_error(*line)),
    }
}

pub struct Interpreter {
    env: Environment,
    out: Vec<String>,
}

impl Interpreter {
    /// The chain of scopes, as a mathematical value.
    pub closed spec fn envv(&self) -> EnvV {
        self.env@
    }

    /// The lines printed so far, oldest first.
    pub closed spec fn outv(&self) -> Seq<Seq<char>> {
        self.out@.map_values(|s: String| s@)
    }

    /// A well-formed interpreter holds at least the root scope.
    pub open spec fn wf(&self) -> bool {
        self.envv().len() >= 1
    }
}

impl Default for Interpreter {
    fn default() -> (r: Self)
        ensures
            r.wf(),
            r.envv() == seq![Seq::<(Seq<char>, ValueV)>::empty()],
            r.outv() == Seq::<Seq<char>>::empty(),
    {
        let out: Vec<String> = Vec::new();
        let r = Interpreter { env: Environment::root(), out };
        proof {
            assert(r.envv() =~= seq![Seq::<(Seq<char>, ValueV)>::empty()]);
            assert(r.outv() =~= Seq::<Seq<char>>::empty());
        }
        r
    }
}

impl Interpreter {
    /// Defines a name in the innermost scope.
    pub fn define(&mut self, name: String, value: Value)
        requires
            old(self).wf(),
        ensures
            final(self).wf(),
            final(self).envv() == env_define(old(self).envv(), name@, value@),
            final(self).outv() == old(self).outv(),
    {
        self.env.define(name, value);
    }

    /// The lines printed so far, oldest first; printing happens when
    /// the caller hands them on.
    pub fn output(&self) -> (r: &Vec<String>)
        ensures
            r@.map_values(|s: String| s@) == self.outv(),
    {
        &self.out
    }

    /// Looks a variable up, tagging a failure with the line of the
    /// reference.
    pub fn get_variable(&self, literal: &str, line: &usize) -> (r: InterpreterResult<Value>)
        ensures
            match r {
                Ok(v) => env_get(self.envv(), literal@) == Some(v@),
                Err(e) => env_get(self.envv(), literal@) is None && e@ == (ErrV::UndefinedVariable {
                    name: literal@,
                    line: Some(*line),
                }),
            },
    {
        match self.env.get(literal) {
            Ok(v) => Ok(v),
            Err(e) => Err(e.add_line_to_undefined_error(*line)),
        }
    }

    /// Evaluates a grouping: the inner expression's value, nothing
    /// more.
    #[verifier::rlimit(100)]
    fn interpret_grouping(&mut self, expr: &Expr) -> (r: InterpreterResult<Value>)
        requires
            old(self).wf(),
        ensures
            ({
                let er = eval_expr(expr@, old(self).envv());
                &&& final(self).envv() == er.env
                &&& final(self).outv() == old(self).outv()
                &&& final(self).wf()
                &&& match r {
                    Ok(v) => er.res == Ok::<ValueV, ErrV>(v@),
                    Err(e) => er.res == Err::<ValueV, ErrV>(e@),
                }
            }),
        decreases esize(expr@), 3int,
    {
        self.interpret_expr(expr)
    }

    /// Evaluates an assignment: the right-hand value is stored into
    /// the innermost scope that already binds the name; no binding is
    /// ever created.
    #[verifier::rlimit(100)]
    fn interpret_assign(&mut self, name: &Token, value: &Expr) -> (r: InterpreterResult<Value>)
        requires
            old(self).wf(),
        ensures
            ({
                let er = eval_expr(
                    ExprV::Assign { name: name@, value: Box::new(value@) },
                    old(self).envv(),
                );
                &&& final(self).envv() == er.env
                &&& final(self).outv() == old(self).outv()
                &&& final(self).wf()
                &&& match r {
                    Ok(v) => er.res == Ok::<ValueV, ErrV>(v@),
                    Err(e) => er.res == Err::<ValueV, ErrV>(e@),
                }
            }),
        decreases esize(value@), 3int,
    {
        match name {
            Token::Identifier { literal, line, .. } => {
                let v = match self.interpret_expr(value) {
                    Ok(v) => v,
                    Err(e) => {
                        return Err(e);
                    },
                };
                proof {
                    crate::environment::lemma_env_assign_err(self.envv(), literal@, v@);
                }
                match self.env.assign(literal.as_str(), v) {
                    Ok(v2) => Ok(v2),
                    Err(e) => Err(e.add_line_to_undefined_error(*line)),
                }
            },
            t => {
                let l = match t.get_line() {
                    Some(l) => l,
                    None => 0,
                };
                Err(
                    InterpreterError::SyntaxError {
                        line: l,
                        message: String::from_str("Invalid assignment"),
                    },
                )
            },
        }
    }

    /// Evaluates a unary operator: `-` negates a number, `!` negates
    /// a boolean; anything else is a type error on the operator's
    /// line.
    #[verifier::rlimit(100)]
    fn interpret_unary(&mut self, operator: &Token, right: &Expr) -> (r: InterpreterResult<Value>)
        requires
            old(self).wf(),
        ensures
            ({
                let er = eval_expr(
                    ExprV::Unary { operator: operator@, right: Box::new(right@) },
                    old(self).envv(),
                );
                &&& final(self).envv() == er.env
                &&& final(self).outv() == old(self).outv()
                &&& final(self).wf()
                &&& match r {
                    Ok(v) => er.res == Ok::<ValueV, ErrV>(v@),
                    Err(e) => er.res == Err::<ValueV, ErrV>(e@),
                }
            }),
        decreases esize(right@), 3int,
    {
        proof {
            reveal(eval_unary_op);
        }
        let v = match self.interpret_expr(right) {
            Ok(v) => v,
            Err(e) => {
                return Err(e);
            },
        };
        match operator {
            Token::Minus { line } => match cast_num(&v, line) {
                Ok(n) => Ok(Value::Number(crate::numeric::num_neg(n))),
                Err(e) => Err(e),
            },
            Token::Bang { line } => match cast_bool(&v, line) {
                Ok(b) => Ok(Value::Bool(!b)),
                Err(e) => Err(e),
            },
            t => {
                let l = match t.get_line() {
                    Some(l) => l,
                    None => 0,
                };
                Err(
                    InterpreterError::SyntaxError {
                        line: l,
                        message: String::from_str("Invalid unary expression"),
                    },
                )
            },
        }
    }

    /// Evaluates a binary operator.  Arithmetic and comparisons want
    /// numbers; `+` adds numbers when the left operand is one, else
    /// concatenates text; `==` and `!=` compare any two values and
    /// never fail.
    #[verifier::rlimit(100)]
    fn interpret_binary(&mut self, operator: &Token, left: &Expr, right: &Expr) -> (r:
        InterpreterResult<Value>)
        requires
            old(self).wf(),
        ensures
            ({
                let er = eval_expr(
                    ExprV::Binary {
                        left: Box::new(left@),
                        operator: operator@,
                        right: Box::new(right@),
                    },
                    old(self).envv(),
                );
                &&& final(self).envv() == er.env
                &&& final(self).outv() == old(self).outv()
                &&& final(self).wf()
                &&& match r {
                    Ok(v) => er.res == Ok::<ValueV, ErrV>(v@),
                    Err(e) => er.res == Err::<ValueV, ErrV>(e@),
                }
            }),
        decreases esize(left@) + esize(right@), 3int,
    {
        proof {
            reveal(eval_binary_op);
            lemma_esize_pos(left@);
            lemma_esize_pos(right@);
        }
        let lv = match self.interpret_expr(left) {
            Ok(v) => v,
            Err(e) => {
                return Err(e);
            },
        };
        let rv = match self.interpret_expr(right) {
            Ok(v) => v,
            Err(e) => {
                return Err(e);
            },
        };
        match operator {
            Token::Minus { line } => {
                let ln = match cast_num(&lv, line) {
                    Ok(n) => n,
                    Err(e) => {
                        return Err(e);
                    },
                };
                let rn = match cast_num(&rv, line) {
                    Ok(n) => n,
                    Err(e) => {
                        return Err(e);
                    },
                };
                Ok(Value::Number(crate::numeric::num_sub(ln, rn)))
            },
            Token::Slash { line } => {
                let ln = match cast_num(&lv, line) {
                    Ok(n) => n,
                    Err(e) => {
                        return Err(e);
                    },
                };
                let rn = match cast_num(&rv, line) {
                    Ok(n) => n,
                    Err(e) => {
                        return Err(e);
                    },
                };
                Ok(Value::Number(crate::numeric::num_div(ln, rn)))
            },
            Token::Star { line } => {
                let ln = match cast_num(&lv, line) {
                    Ok(n) => n,
                    Err(e) => {
                        return Err(e);
                    },
                };
                let rn = match cast_num(&rv, line) {
                    Ok(n) => n,
                    Err(e) => {
                        return Err(e);
                    },
                };
                Ok(Value::Number(crate::numeric::num_mul(ln, rn)))
            },
            Token::Plus { line } => {
                match cast_num(&lv, line) {
                    Ok(ln) => {
                        let rn = match cast_num(&rv, line) {
                            Ok(n) => n,
                            Err(e) => {
                                return Err(e);
                            },
                        };
                        Ok(Value::Number(crate::numeric::num_add(ln, rn)))
                    },
                    Err(_) => {
                        let ls = match cast_string(&lv, line) {
                            Ok(s) => s,
                            Err(e) => {
                                return Err(e);
                            },
                        };
                        let rs = match cast_string(&rv, line) {
                            Ok(s) => s,
                            Err(e) => {
                                return Err(e);
                            },
                        };
                        let mut s = ls;
                        s.append(rs.as_str());
                        Ok(Value::Str(s))
                    },
                }
            },
            Token::Greater { line } => {
                let ln = match cast_num(&lv, line) {
                    Ok(n) => n,
                    Err(e) => {
                        return Err(e);
                    },
                };
                let rn = match cast_num(&rv, line) {
                    Ok(n) => n,
                    Err(e) => {
                        return Err(e);
                    },
                };
                Ok(Value::Bool(crate::numeric::num_lt(rn, ln)))
            },
            Token::Less { line } => {
                let ln = match cast_num(&lv, line) {
                    Ok(n) => n,
                    Err(e) => {
                        return Err(e);
                    },
                };
                let rn = match cast_num(&rv, line) {
                    Ok(n) => n,
                    Err(e) => {
                        return Err(e);
                    },
                };
                Ok(Value::Bool(crate::numeric::num_lt(ln, rn)))
            },
            Token::GreaterEqual { line } => {
                let ln = match cast_num(&lv, line) {
                    Ok(n) => n,
                    Err(e) => {
                        return Err(e);
                    },
                };
                let rn = match cast_num(&rv, line) {
                    Ok(n) => n,
                    Err(e) => {
                        return Err(e);
                    },
                };
                Ok(Value::Bool(crate::numeric::num_le(rn, ln)))
            },
            Token::LessEqual { line } => {
                let ln = match cast_num(&lv, line) {
                    Ok(n) => n,
                    Err(e) => {
                        return Err(e);
                    },
                };
                let rn = match cast_num(&rv, line) {
                    Ok(n) => n,
                    Err(e) => {
                        return Err(e);
                    },
                };
                Ok(Value::Bool(crate::numeric::num_le(ln, rn)))
            },
            Token::EqualEqual { .. } => Ok(Value::Bool(lv.equals(&rv))),
            Token::BangEqual { .. } => Ok(Value::Bool(!lv.equals(&rv))),
            t => {
                let l = match t.get_line() {
                    Some(l) => l,
                    None => 0,
                };
                Err(
                    InterpreterError::SyntaxError {
                        line: l,
                        message: String::from_str("Invalid binary expression"),
                    },
                )
            },
        }
    }

    /// Evaluates an expression against the current chain of scopes.
    #[verifier::rlimit(100)]
    pub fn interpret_expr(&mut self, expr: &Expr) -> (r: InterpreterResult<Value>)
        requires
            old(self).wf(),
        ensures
            ({
                let er = eval_expr(expr@, old(self).envv());
                &&& final(self).envv() == er.env
                &&& final(self).outv() == old(self).outv()
                &&& final(self).wf()
                &&& match r {
                    Ok(v) => er.res == Ok::<ValueV, ErrV>(v@),
                    Err(e) => er.res == Err::<ValueV, ErrV>(e@),
                }
            }),
        decreases esize(expr@), 2int,
    {
        match expr {
            Expr::Literal { value } => Ok(value.dup()),
            Expr::Grouping { expression } => self.interpret_grouping(expression),
            Expr::Binary { left, operator, right } => self.interpret_binary(
                operator,
                left,
                right,
            ),
            Expr::Unary { operator, right } => self.interpret_unary(operator, right),
            Expr::Variable { name } => match name {
                Token::Identifier { literal, line, .. } => self.get_variable(
                    literal.as_str(),
                    line,
                ),
                _ => Err(
                    InterpreterError::SyntaxError {
                        line: 0,
                        message: String::from_str("Invalid variable"),
                    },
                ),
            },
            Expr::Assign { name, value } => self.interpret_assign(name, value),
        }
    }

    /// Executes a statement: an expression statement hands its value
    /// back, a print statement records the value's display text as an
    /// output line, a declaration defines its name in the innermost
    /// scope, and a block runs its statements in a fresh scope that is
    /// discarded on every exit path.
    #[verifier::rlimit(100)]
    #[verifier::loop_isolation(false)]
    pub fn interpret(&mut self, stmt: &Stmt) -> (r: InterpreterResult<Value>)
        requires
            old(self).wf(),
        ensures
            ({
                let er = eval_stmt(stmt@, old(self).envv());
                &&& final(self).envv() == er.env
                &&& final(self).outv() == old(self).outv() + er.out
                &&& final(self).wf()
                &&& match r {
                    Ok(v) => er.res == Ok::<ValueV, ErrV>(v@),
                    Err(e) => er.res == Err::<ValueV, ErrV>(e@),
                }
            }),
        decreases ssize(stmt@), 1int,
    {
        proof {
            assert(old(self).outv() + Seq::<Seq<char>>::empty() =~= old(self).outv());
        }
        match stmt {
            Stmt::Expr { expr } => self.interpret_expr(expr),
            Stmt::Print { expr } => {
                let val = match self.interpret_expr(expr) {
                    Ok(v) => v,
                    Err(e) => {
                        return Err(e);
                    },
                };
                let d = val.display_text();
                let ghost pre = self.out@;
                self.out.push(d);
                proof {
                    assert(self.outv() =~= pre.map_values(|s: String| s@).push(display_of(val@)));
                    assert(self.outv() =~= old(self).outv() + seq![display_of(val@)]);
                }
                Ok(Value::Nil)
            },
            Stmt::Variable { name, initializer } => match name {
                Token::Identifier { literal, .. } => {
                    let val = match initializer {
                        Some(init) => match self.interpret_expr(&**init) {
                            Ok(v) => v,
                            Err(e) => {
                                return Err(e);
                            },
                        },
                        None => Value::Nil,
                    };
                    self.env.define(literal.clone(), val);
                    Ok(Value::Nil)
                },
                _ => Err(
                    InterpreterError::SyntaxError {
                        line: 0,
                        message: String::from_str("Invalid variable"),
                    },
                ),
            },
            Stmt::Block { stmts } => {
                self.env.push_scope();
                let ghost env1 = self.envv();
                let ghost sv = stmts_view(stmts@);
                let ghost inner = eval_seq(sv, env1);
                let ghost mut done: Seq<Seq<char>> = Seq::empty();
                proof {
                    crate::stmt::lemma_stmts_view_index(stmts@);
                    assert(sv.skip(0) =~= sv);
                    assert(self.outv() =~= old(self).outv() + done);
                }
                let mut k: usize = 0;
                while k < stmts.len()
                    invariant
                        k <= stmts@.len(),
                        self.wf(),
                        self.envv().len() == env1.len(),
                        self.outv() == old(self).outv() + done,
                        ({
                            let rest = eval_seq(sv.skip(k as int), self.envv());
                            &&& inner.res == rest.res
                            &&& inner.env == rest.env
                            &&& inner.out == done + rest.out
                        }),
                    decreases stmts@.len() - k,
                {
                    let ghost envk = self.envv();
                    let ghost donek = done;
                    proof {
                        lemma_sqsize_index(sv, k as int);
                        assert(sv.skip(k as int)[0] == sv[k as int]);
                        assert(sv.skip(k as int).drop_first() =~= sv.skip(k + 1));
                    }
                    match self.interpret(&stmts[k]) {
                        Ok(_) => {
                            proof {
                                let er = eval_stmt(sv[k as int], envk);
                                lemma_eval_stmt_len(sv[k as int], envk);
                                done = donek + er.out;
                                assert((donek + er.out) + eval_seq(sv.skip(k + 1), self.envv()).out
                                    =~= donek + (er.out + eval_seq(sv.skip(k + 1), self.envv()).out));
                                assert((old(self).outv() + donek) + er.out =~= old(self).outv() + (
                                donek + er.out));
                            }
                            k = k + 1;
                        },
                        Err(e) => {
                            proof {
                                lemma_eval_seq_len(sv.skip(k as int), envk);
                            }
                            self.env.pop_scope();
                            proof {
                                assert(donek + Seq::<Seq<char>>::empty() =~= donek);
                            }
                            return Err(e);
                        },
                    }
                }
                proof {
                    assert(sv.skip(stmts@.len() as int) =~= Seq::<StmtV>::empty());
                    assert(done + Seq::<Seq<char>>::empty() =~= done);
                }
                self.env.pop_scope();
                Ok(Value::Nil)
            },
        }
    }
}

} // verus!

