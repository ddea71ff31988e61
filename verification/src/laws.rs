use crate::environment::{env_assign, env_define, env_get, scope_get, EnvV};
use crate::errors::ErrV;
use crate::expr::ExprV;
use crate::expr_printer::print_spec;
use crate::interpreter::{
    esize, eval_binary_op, eval_expr, eval_seq, eval_stmt, lemma_eval_expr_len,
    lemma_eval_stmt_len, sqsize, ssize, EvalRes,
};
use crate::numeric::add_bits;
use crate::parser::{
    clean, is_comp_op, is_eq_op, is_factor_op, is_term_op, p_comparison, p_comparison_rest,
    p_equality, p_equality_rest, p_expression, p_factor, p_factor_rest, p_parse, p_primary,
    p_term, p_term_rest, p_unary, tok_at,
};
use crate::scanner::{digits_end, number_end, string_scan};
use crate::stmt::StmtV;
use crate::token::{text_of, TokenV};
use crate::value::{display_of, ValueV};
use vstd::prelude::*;

verus! {

// The laws the pipeline obeys, stated over the specification functions
// that the executable code is proved to implement.

/// A literal token: a number, a string, `true`, `false` or `nil`.
pub open spec fn is_literal_token(t: TokenV) -> bool {
    t is Number || t is Str || t is True || t is False || t is Nil
}

/// One of the ten binary operators.
pub open spec fn is_binary_op(t: TokenV) -> bool {
    is_eq_op(t) || is_comp_op(t) || is_term_op(t) || is_factor_op(t)
}

/// The value a literal token denotes.
pub open spec fn lit_val(t: TokenV) -> ValueV {
    match t {
        TokenV::Number { literal, .. } => ValueV::Num(literal),
        TokenV::Str { literal, .. } => ValueV::Str(literal),
        TokenV::True { .. } => ValueV::Bool(true),
        TokenV::False { .. } => ValueV::Bool(false),
        _ => ValueV::Nil,
    }
}

/// A literal displays as its token text.
proof fn lemma_literal_display(t: TokenV)
    requires
        is_literal_token(t),
    ensures
        display_of(lit_val(t)) == text_of(t),
{
    reveal(text_of);
}

/// Round trip: a literal, a binary operator and a literal parse to
/// that operator's node with the literals as its operands, and
/// printing the node gives the parenthesised prefix form
/// `(op a b)`.
pub proof fn lemma_binary_round_trip(a: TokenV, op: TokenV, b: TokenV, line: usize)
    requires
        is_literal_token(a),
        is_binary_op(op),
        is_literal_token(b),
    ensures
        ({
            let ts = seq![a, op, b];
            let (r, p) = p_expression(ts, 0, line);
            &&& p == 3
            &&& r == Ok::<ExprV, ErrV>(
                ExprV::Binary {
                    left: Box::new(ExprV::Literal { value: lit_val(a) }),
                    operator: op,
                    right: Box::new(ExprV::Literal { value: lit_val(b) }),
                },
            )
            &&& print_spec(r->Ok_0) == "("@ + text_of(op) + " "@ + text_of(a) + " "@ + text_of(
                b,
            ) + ")"@
        }),
{
    let ts = seq![a, op, b];
    let la = ExprV::Literal { value: lit_val(a) };
    let lb = ExprV::Literal { value: lit_val(b) };
    let folded = ExprV::Binary { left: Box::new(la), operator: op, right: Box::new(lb) };
    assert(ts.len() == 3);
    assert(tok_at(ts, 0) == Some(a));
    assert(tok_at(ts, 1) == Some(op));
    assert(tok_at(ts, 2) == Some(b));
    assert(tok_at(ts, 3) is None);
    assert(p_primary(ts, 0, line) == (Ok::<ExprV, ErrV>(la), 1int));
    assert(p_unary(ts, 0, line) == (Ok::<ExprV, ErrV>(la), 1int));
    assert(p_primary(ts, 2, line) == (Ok::<ExprV, ErrV>(lb), 3int));
    assert(p_unary(ts, 2, line) == (Ok::<ExprV, ErrV>(lb), 3int));
    assert(p_factor(ts, 2, line) == (Ok::<ExprV, ErrV>(lb), 3int));
    assert(p_term(ts, 2, line) == (Ok::<ExprV, ErrV>(lb), 3int));
    assert(p_comparison(ts, 2, line) == (Ok::<ExprV, ErrV>(lb), 3int));
    if is_factor_op(op) {
        assert(p_factor_rest(ts, 1, la, line) == p_factor_rest(ts, 3, folded, line));
        assert(p_factor_rest(ts, 3, folded, line) == (Ok::<ExprV, ErrV>(folded), 3int));
        assert(p_factor(ts, 0, line) == (Ok::<ExprV, ErrV>(folded), 3int));
        assert(p_term_rest(ts, 3, folded, line) == (Ok::<ExprV, ErrV>(folded), 3int));
        assert(p_term(ts, 0, line) == (Ok::<ExprV, ErrV>(folded), 3int));
        assert(p_comparison_rest(ts, 3, folded, line) == (Ok::<ExprV, ErrV>(folded), 3int));
        assert(p_comparison(ts, 0, line) == (Ok::<ExprV, ErrV>(folded), 3int));
        assert(p_equality_rest(ts, 3, folded, line) == (Ok::<ExprV, ErrV>(folded), 3int));
        assert(p_equality(ts, 0, line) == (Ok::<ExprV, ErrV>(folded), 3int));
    } else if is_term_op(op) {
        assert(p_factor_rest(ts, 1, la, line) == (Ok::<ExprV, ErrV>(la), 1int));
        assert(p_factor(ts, 0, line) == (Ok::<ExprV, ErrV>(la), 1int));
        assert(p_term_rest(ts, 1, la, line) == p_term_rest(ts, 3, folded, line));
        assert(p_term_rest(ts, 3, folded, line) == (Ok::<ExprV, ErrV>(folded), 3int));
        assert(p_term(ts, 0, line) == (Ok::<ExprV, ErrV>(folded), 3int));
        assert(p_comparison_rest(ts, 3, folded, line) == (Ok::<ExprV, ErrV>(folded), 3int));
        assert(p_comparison(ts, 0, line) == (Ok::<ExprV, ErrV>(folded), 3int));
        assert(p_equality_rest(ts, 3, folded, line) == (Ok::<ExprV, ErrV>(folded), 3int));
        assert(p_equality(ts, 0, line) == (Ok::<ExprV, ErrV>(folded), 3int));
    } else if is_comp_op(op) {
        assert(p_factor_rest(ts, 1, la, line) == (Ok::<ExprV, ErrV>(la), 1int));
        assert(p_factor(ts, 0, line) == (Ok::<ExprV, ErrV>(la), 1int));
        assert(p_term_rest(ts, 1, la, line) == (Ok::<ExprV, ErrV>(la), 1int));
        assert(p_term(ts, 0, line) == (Ok::<ExprV, ErrV>(la), 1int));
        assert(p_comparison_rest(ts, 1, la, line) == p_comparison_rest(ts, 3, folded, line));
        assert(p_comparison_rest(ts, 3, folded, line) == (Ok::<ExprV, ErrV>(folded), 3int));
        assert(p_comparison(ts, 0, line) == (Ok::<ExprV, ErrV>(folded), 3int));
        assert(p_equality_rest(ts, 3, folded, line) == (Ok::<ExprV, ErrV>(folded), 3int));
        assert(p_equality(ts, 0, line) == (Ok::<ExprV, ErrV>(folded), 3int));
    } else {
        assert(p_factor_rest(ts, 1, la, line) == (Ok::<ExprV, ErrV>(la), 1int));
        assert(p_factor(ts, 0, line) == (Ok::<ExprV, ErrV>(la), 1int));
        assert(p_term_rest(ts, 1, la, line) == (Ok::<ExprV, ErrV>(la), 1int));
        assert(p_term(ts, 0, line) == (Ok::<ExprV, ErrV>(la), 1int));
        assert(p_comparison_rest(ts, 1, la, line) == (Ok::<ExprV, ErrV>(la), 1int));
        assert(p_comparison(ts, 0, line) == (Ok::<ExprV, ErrV>(la), 1int));
        assert(p_equality_rest(ts, 1, la, line) == p_equality_rest(ts, 3, folded, line));
        assert(p_equality_rest(ts, 3, folded, line) == (Ok::<ExprV, ErrV>(folded), 3int));
        assert(p_equality(ts, 0, line) == (Ok::<ExprV, ErrV>(folded), 3int));
    }
    assert(crate::parser::p_assign(ts, 0, line) == (Ok::<ExprV, ErrV>(folded), 3int));
    lemma_literal_display(a);
    lemma_literal_display(b);
    assert(print_spec(la) == text_of(a));
    assert(print_spec(lb) == text_of(b));
    assert(print_spec(folded) == "("@ + text_of(op) + " "@ + text_of(a) + " "@ + text_of(b)
        + ")"@);
}

/// Two token sequences that agree once comments and whitespace are
/// dropped parse to the very same outcome.
pub proof fn lemma_parse_ignores_non_semantic(ts1: Seq<TokenV>, ts2: Seq<TokenV>)
    requires
        clean(ts1) == clean(ts2),
    ensures
        p_parse(ts1) == p_parse(ts2),
{
}

/// An unbound name can be assigned in no scope.
proof fn lemma_env_assign_unbound(env: EnvV, name: Seq<char>, v: ValueV)
    requires
        env_get(env, name) is None,
    ensures
        env_assign(env, name, v) == Err::<EnvV, ErrV>(
            ErrV::UndefinedVariable { name, line: None },
        ),
    decreases env.len(),
{
    if env.len() > 0 {
        lemma_env_assign_unbound(env.drop_last(), name, v);
    }
}

/// A bound name can always be assigned.
proof fn lemma_env_assign_bound(env: EnvV, name: Seq<char>, v: ValueV)
    requires
        env_get(env, name) is Some,
    ensures
        env_assign(env, name, v) is Ok,
    decreases env.len(),
{
    if env.len() > 0 && scope_get_none(env, name) {
        lemma_env_assign_bound(env.drop_last(), name, v);
    }
}

/// Whether the innermost scope misses the name (helper for induction).
spec fn scope_get_none(env: EnvV, name: Seq<char>) -> bool {
    crate::environment::scope_get(env.last(), name) is None
}

/// Declaring a variable and then reading it gives exactly the value
/// its initializer evaluated to.
pub proof fn lemma_declared_variable_reads_back(
    lexeme: Seq<char>,
    lit: Seq<char>,
    line: usize,
    e: ExprV,
    env: EnvV,
)
    requires
        env.len() >= 1,
    ensures
        ({
            let name = TokenV::Identifier { lexeme, literal: lit, line };
            let r0 = eval_expr(e, env);
            let r1 = eval_stmt(
                StmtV::Variable { name, initializer: Some(Box::new(e)) },
                env,
            );
            r0.res matches Ok(v) ==> {
                &&& r1.res == Ok::<ValueV, ErrV>(ValueV::Nil)
                &&& eval_expr(ExprV::Variable { name }, r1.env).res == Ok::<ValueV, ErrV>(v)
            }
        }),
{
    lemma_eval_expr_len(e, env);
    let r0 = eval_expr(e, env);
    if r0.res is Ok {
        let v = r0.res->Ok_0;
        let env2 = env_define(r0.env, lit, v);
        assert(env2.last() == r0.env.last().push((lit, v)));
        assert(env_get(env2, lit) == Some(v));
    }
}

/// Assignment never defines: assigning to a name that no scope binds
/// fails as an undefined-variable error carrying the reference's line,
/// and changes nothing.
pub proof fn lemma_assignment_never_defines(
    lexeme: Seq<char>,
    lit: Seq<char>,
    line: usize,
    v: ValueV,
    env: EnvV,
)
    requires
        env_get(env, lit) is None,
    ensures
        ({
            let name = TokenV::Identifier { lexeme, literal: lit, line };
            let r = eval_expr(
                ExprV::Assign { name, value: Box::new(ExprV::Literal { value: v }) },
                env,
            );
            &&& r.res == Err::<ValueV, ErrV>(
                ErrV::UndefinedVariable { name: lit, line: Some(line) },
            )
            &&& r.env == env
        }),
{
    lemma_env_assign_unbound(env, lit, v);
    assert(eval_expr(ExprV::Literal { value: v }, env) == (EvalRes { res: Ok(v), env }));
}


/// Pushing a binding for one name onto a scope leaves every other
/// name's lookup in that scope unchanged.
proof fn lemma_scope_get_push(s: crate::environment::ScopeV, n: Seq<char>, v: ValueV, x: Seq<char>)
    requires
        n != x,
    ensures
        scope_get(s.push((n, v)), x) == scope_get(s, x),
{
    assert(s.push((n, v)).drop_last() =~= s);
}

/// A name resolves to nothing exactly when every scope misses it.
proof fn lemma_env_get_none_iff(env: EnvV, x: Seq<char>)
    ensures
        env_get(env, x) is None <==> (forall|j: int|
            0 <= j < env.len() ==> scope_get(env[j], x) is None),
    decreases env.len(),
{
    if env.len() > 0 {
        lemma_env_get_none_iff(env.drop_last(), x);
        assert(forall|j: int|
            0 <= j < env.len() - 1 ==> env.drop_last()[j] == env[j]);
    }
}

/// Assignment keeps a name absent from the outermost `m` scopes when
/// it was absent there: the assigned binding lands in a scope that
/// already held its name.
proof fn lemma_env_assign_absent(env: EnvV, n: Seq<char>, v: ValueV, x: Seq<char>, m: int)
    requires
        0 <= m <= env.len(),
        forall|j: int| 0 <= j < m ==> scope_get(#[trigger] env[j], x) is None,
    ensures
        env_assign(env, n, v) matches Ok(e) ==> e.len() == env.len() && (forall|j: int|
            0 <= j < m ==> scope_get(#[trigger] e[j], x) is None),
    decreases env.len(),
{
    if env.len() > 0 {
        if scope_get(env.last(), n) is Some {
            if m == env.len() {
                assert(scope_get(env[env.len() - 1], x) is None);
                lemma_scope_get_push(env.last(), n, v, x);
            }
        } else {
            let m2 = if m <= env.len() - 1 {
                m
            } else {
                env.len() - 1
            };
            assert(forall|j: int|
                0 <= j < m2 ==> env.drop_last()[j] == env[j]);
            lemma_env_assign_absent(env.drop_last(), n, v, x, m2);
        }
    }
}

/// Evaluating an expression keeps a name absent from the outermost `m`
/// scopes: expressions assign but never define.
proof fn lemma_eval_expr_absent(e: ExprV, env: EnvV, x: Seq<char>, m: int)
    requires
        0 <= m <= env.len(),
        forall|j: int| 0 <= j < m ==> scope_get(#[trigger] env[j], x) is None,
    ensures
        ({
            let r = eval_expr(e, env);
            &&& r.env.len() == env.len()
            &&& forall|j: int| 0 <= j < m ==> scope_get(#[trigger] r.env[j], x) is None
        }),
    decreases esize(e), 2int,
{
    lemma_eval_expr_len(e, env);
    match e {
        ExprV::Grouping { expression } => {
            lemma_eval_expr_absent(*expression, env, x, m);
        },
        ExprV::Assign { name, value } => {
            lemma_eval_expr_absent(*value, env, x, m);
            match name {
                TokenV::Identifier { literal, .. } => {
                    let r1 = eval_expr(*value, env);
                    if r1.res is Ok {
                        lemma_env_assign_absent(r1.env, literal, r1.res->Ok_0, x, m);
                    }
                },
                _ => {},
            }
        },
        ExprV::Unary { right, .. } => {
            lemma_eval_expr_absent(*right, env, x, m);
        },
        ExprV::Binary { left, right, .. } => {
            lemma_eval_expr_absent(*left, env, x, m);
            let r1 = eval_expr(*left, env);
            if r1.res is Ok {
                lemma_eval_expr_absent(*right, r1.env, x, m);
            }
        },
        _ => {},
    }
}

/// Executing a statement keeps a name absent from the outermost `m`
/// scopes, as long as at least one scope lies beyond them: a
/// declaration lands in the innermost scope, never in the first `m`.
proof fn lemma_eval_stmt_absent(s: StmtV, env: EnvV, x: Seq<char>, m: int)
    requires
        0 <= m < env.len(),
        forall|j: int| 0 <= j < m ==> scope_get(#[trigger] env[j], x) is None,
    ensures
        ({
            let r = eval_stmt(s, env);
            &&& r.env.len() == env.len()
            &&& forall|j: int| 0 <= j < m ==> scope_get(#[trigger] r.env[j], x) is None
        }),
    decreases ssize(s), 1int,
{
    lemma_eval_stmt_len(s, env);
    match s {
        StmtV::Expr { expr } => {
            lemma_eval_expr_absent(*expr, env, x, m);
        },
        StmtV::Print { expr } => {
            lemma_eval_expr_absent(*expr, env, x, m);
        },
        StmtV::Variable { name, initializer } => {
            match name {
                TokenV::Identifier { literal, .. } => {
                    let r = match initializer {
                        Some(e) => {
                            lemma_eval_expr_absent(*e, env, x, m);
                            eval_expr(*e, env)
                        },
                        None => EvalRes { res: Ok(ValueV::Nil), env },
                    };
                    if r.res is Ok {
                        let e2 = env_define(r.env, literal, r.res->Ok_0);
                        assert(forall|j: int| 0 <= j < m ==> e2[j] == r.env[j]);
                    }
                },
                _ => {},
            }
        },
        StmtV::Block { stmts } => {
            let env1 = env.push(Seq::empty());
            assert(forall|j: int| 0 <= j < m ==> env1[j] == env[j]);
            lemma_eval_seq_absent(stmts, env1, x, m);
            let inner = eval_seq(stmts, env1);
            assert(forall|j: int|
                0 <= j < m ==> inner.env.drop_last()[j] == inner.env[j]);
        },
    }
}

/// Executing a run of statements keeps a name absent from the
/// outermost `m` scopes.
proof fn lemma_eval_seq_absent(q: Seq<StmtV>, env: EnvV, x: Seq<char>, m: int)
    requires
        0 <= m < env.len(),
        forall|j: int| 0 <= j < m ==> scope_get(#[trigger] env[j], x) is None,
    ensures
        ({
            let r = eval_seq(q, env);
            &&& r.env.len() == env.len()
            &&& forall|j: int| 0 <= j < m ==> scope_get(#[trigger] r.env[j], x) is None
        }),
    decreases sqsize(q), 2int, q.len(),
{
    crate::interpreter::lemma_eval_seq_len(q, env);
    if q.len() > 0 {
        lemma_eval_stmt_absent(q[0], env, x, m);
        let r1 = eval_stmt(q[0], env);
        if r1.res is Ok {
            lemma_eval_seq_absent(q.drop_first(), r1.env, x, m);
        }
    }
}

/// A name that no scope binds before a block is bound by no scope
/// after it, whatever the block's statements did: declarations inside
/// the block land in its own scope, which is discarded on every exit
/// path, and assignment never creates a binding.
pub proof fn lemma_block_keeps_unbound(q: Seq<StmtV>, env: EnvV, x: Seq<char>)
    requires
        env.len() >= 1,
        env_get(env, x) is None,
    ensures
        env_get(eval_stmt(StmtV::Block { stmts: q }, env).env, x) is None,
{
    lemma_env_get_none_iff(env, x);
    let env1 = env.push(Seq::<(Seq<char>, ValueV)>::empty());
    let m = env.len() as int;
    assert(forall|j: int| 0 <= j < m ==> env1[j] == env[j]);
    lemma_eval_seq_absent(q, env1, x, m);
    let inner = eval_seq(q, env1);
    let renv = inner.env.drop_last();
    assert(forall|j: int| 0 <= j < m ==> renv[j] == inner.env[j]);
    lemma_env_get_none_iff(renv, x);
}


/// Whether an expression assigns to the given name anywhere in it.
pub open spec fn expr_assigns_to(e: ExprV, x: Seq<char>) -> bool
    decreases e,
{
    match e {
        ExprV::Assign { name, value } => (name matches TokenV::Identifier { literal, .. }
            && literal == x) || expr_assigns_to(*value, x),
        ExprV::Binary { left, right, .. } => expr_assigns_to(*left, x) || expr_assigns_to(
            *right,
            x,
        ),
        ExprV::Grouping { expression } => expr_assigns_to(*expression, x),
        ExprV::Unary { right, .. } => expr_assigns_to(*right, x),
        _ => false,
    }
}

/// Whether a statement assigns to the given name anywhere in it.
pub open spec fn stmt_assigns_to(s: StmtV, x: Seq<char>) -> bool
    decreases s,
{
    match s {
        StmtV::Expr { expr } => expr_assigns_to(*expr, x),
        StmtV::Print { expr } => expr_assigns_to(*expr, x),
        StmtV::Variable { initializer, .. } => initializer matches Some(e) && expr_assigns_to(
            *e,
            x,
        ),
        StmtV::Block { stmts } => stmts_assign_to(stmts, x),
    }
}

/// Whether any statement of a run assigns to the given name.
pub open spec fn stmts_assign_to(q: Seq<StmtV>, x: Seq<char>) -> bool
    decreases q,
{
    if q.len() == 0 {
        false
    } else {
        stmt_assigns_to(q[0], x) || stmts_assign_to(q.drop_first(), x)
    }
}

/// Assigning to one name leaves every other name's lookup unchanged
/// in each scope.
proof fn lemma_env_assign_other(env: EnvV, n: Seq<char>, v: ValueV, x: Seq<char>, m: int)
    requires
        n != x,
        0 <= m <= env.len(),
    ensures
        env_assign(env, n, v) matches Ok(e) ==> e.len() == env.len() && (forall|j: int|
            0 <= j < m ==> scope_get(#[trigger] e[j], x) == scope_get(env[j], x)),
    decreases env.len(),
{
    if env.len() > 0 {
        if scope_get(env.last(), n) is Some {
            if m == env.len() {
                lemma_scope_get_push(env.last(), n, v, x);
            }
        } else {
            let m2 = if m <= env.len() - 1 {
                m
            } else {
                env.len() - 1
            };
            assert(forall|j: int| 0 <= j < m2 ==> env.drop_last()[j] == env[j]);
            lemma_env_assign_other(env.drop_last(), n, v, x, m2);
        }
    }
}

/// Evaluating an expression that assigns nowhere to a name leaves that
/// name's lookup unchanged in the outermost `m` scopes.
proof fn lemma_eval_expr_no_assign(e: ExprV, env: EnvV, x: Seq<char>, m: int)
    requires
        !expr_assigns_to(e, x),
        0 <= m <= env.len(),
    ensures
        ({
            let r = eval_expr(e, env);
            &&& r.env.len() == env.len()
            &&& forall|j: int|
                0 <= j < m ==> scope_get(#[trigger] r.env[j], x) == scope_get(env[j], x)
        }),
    decreases esize(e), 2int,
{
    lemma_eval_expr_len(e, env);
    match e {
        ExprV::Grouping { expression } => {
            lemma_eval_expr_no_assign(*expression, env, x, m);
        },
        ExprV::Assign { name, value } => {
            lemma_eval_expr_no_assign(*value, env, x, m);
            match name {
                TokenV::Identifier { literal, .. } => {
                    let r1 = eval_expr(*value, env);
                    if r1.res is Ok {
                        lemma_env_assign_other(r1.env, literal, r1.res->Ok_0, x, m);
                    }
                },
                _ => {},
            }
        },
        ExprV::Unary { right, .. } => {
            lemma_eval_expr_no_assign(*right, env, x, m);
        },
        ExprV::Binary { left, right, .. } => {
            lemma_eval_expr_no_assign(*left, env, x, m);
            let r1 = eval_expr(*left, env);
            if r1.res is Ok {
                lemma_eval_expr_no_assign(*right, r1.env, x, m);
            }
        },
        _ => {},
    }
}

/// Executing a statement that assigns nowhere to a name leaves that
/// name's lookup unchanged in the outermost `m` scopes, as long as at
/// least one scope lies beyond them for declarations to land in.
proof fn lemma_eval_stmt_no_assign(s: StmtV, env: EnvV, x: Seq<char>, m: int)
    requires
        !stmt_assigns_to(s, x),
        0 <= m < env.len(),
    ensures
        ({
            let r = eval_stmt(s, env);
            &&& r.env.len() == env.len()
            &&& forall|j: int|
                0 <= j < m ==> scope_get(#[trigger] r.env[j], x) == scope_get(env[j], x)
        }),
    decreases ssize(s), 1int,
{
    lemma_eval_stmt_len(s, env);
    match s {
        StmtV::Expr { expr } => {
            lemma_eval_expr_no_assign(*expr, env, x, m);
        },
        StmtV::Print { expr } => {
            lemma_eval_expr_no_assign(*expr, env, x, m);
        },
        StmtV::Variable { name, initializer } => {
            match name {
                TokenV::Identifier { literal, .. } => {
                    let r = match initializer {
                        Some(e) => {
                            lemma_eval_expr_no_assign(*e, env, x, m);
                            eval_expr(*e, env)
                        },
                        None => EvalRes { res: Ok(ValueV::Nil), env },
                    };
                    if r.res is Ok {
                        let e2 = env_define(r.env, literal, r.res->Ok_0);
                        assert(forall|j: int| 0 <= j < m ==> e2[j] == r.env[j]);
                    }
                },
                _ => {},
            }
        },
        StmtV::Block { stmts } => {
            let env1 = env.push(Seq::empty());
            assert(forall|j: int| 0 <= j < m ==> env1[j] == env[j]);
            lemma_eval_seq_no_assign(stmts, env1, x, m);
            let inner = eval_seq(stmts, env1);
            assert(forall|j: int|
                0 <= j < m ==> inner.env.drop_last()[j] == inner.env[j]);
        },
    }
}

/// Executing a run of statements that assign nowhere to a name leaves
/// that name's lookup unchanged in the outermost `m` scopes.
proof fn lemma_eval_seq_no_assign(q: Seq<StmtV>, env: EnvV, x: Seq<char>, m: int)
    requires
        !stmts_assign_to(q, x),
        0 <= m < env.len(),
    ensures
        ({
            let r = eval_seq(q, env);
            &&& r.env.len() == env.len()
            &&& forall|j: int|
                0 <= j < m ==> scope_get(#[trigger] r.env[j], x) == scope_get(env[j], x)
        }),
    decreases sqsize(q), 2int, q.len(),
{
    crate::interpreter::lemma_eval_seq_len(q, env);
    if q.len() > 0 {
        lemma_eval_stmt_no_assign(q[0], env, x, m);
        let r1 = eval_stmt(q[0], env);
        if r1.res is Ok {
            lemma_eval_seq_no_assign(q.drop_first(), r1.env, x, m);
        }
    }
}

/// What a name resolves to is settled by what each scope holds for it.
proof fn lemma_env_get_by_scopes(env1: EnvV, env2: EnvV, x: Seq<char>)
    requires
        env1.len() == env2.len(),
        forall|j: int|
            0 <= j < env1.len() ==> scope_get(#[trigger] env1[j], x) == scope_get(env2[j], x),
    ensures
        env_get(env1, x) == env_get(env2, x),
    decreases env1.len(),
{
    if env1.len() > 0 {
        assert(forall|j: int|
            0 <= j < env1.len() - 1 ==> env1.drop_last()[j] == env1[j] && env2.drop_last()[j]
                == env2[j]);
        lemma_env_get_by_scopes(env1.drop_last(), env2.drop_last(), x);
    }
}

/// Shadowing is harmless: a block that assigns nowhere to a name — it
/// may freely declare that very name, shadowing the outer binding —
/// leaves what the name resolves to outside the block exactly as it
/// was.
pub proof fn lemma_block_preserves_outer(q: Seq<StmtV>, env: EnvV, x: Seq<char>)
    requires
        env.len() >= 1,
        !stmts_assign_to(q, x),
    ensures
        env_get(eval_stmt(StmtV::Block { stmts: q }, env).env, x) == env_get(env, x),
{
    let env1 = env.push(Seq::<(Seq<char>, ValueV)>::empty());
    let m = env.len() as int;
    assert(forall|j: int| 0 <= j < m ==> env1[j] == env[j]);
    lemma_eval_seq_no_assign(q, env1, x, m);
    let inner = eval_seq(q, env1);
    let renv = inner.env.drop_last();
    assert(forall|j: int| 0 <= j < m ==> renv[j] == inner.env[j]);
    lemma_env_get_by_scopes(renv, env, x);
}

/// A variable declared inside a block is gone once the block exits:
/// the chain of scopes is exactly what it was.
pub proof fn lemma_block_scope_discarded(
    lexeme: Seq<char>,
    lit: Seq<char>,
    line: usize,
    v: ValueV,
    env: EnvV,
)
    requires
        env.len() >= 1,
    ensures
        ({
            let name = TokenV::Identifier { lexeme, literal: lit, line };
            let st = StmtV::Block {
                stmts: seq![
                    StmtV::Variable {
                        name,
                        initializer: Some(Box::new(ExprV::Literal { value: v })),
                    },
                ],
            };
            let r = eval_stmt(st, env);
            &&& r.res == Ok::<ValueV, ErrV>(ValueV::Nil)
            &&& r.env == env
        }),
{
    let name = TokenV::Identifier { lexeme, literal: lit, line };
    let inner_stmt = StmtV::Variable { name, initializer: Some(Box::new(ExprV::Literal { value: v })) };
    let stmts = seq![inner_stmt];
    let env1 = env.push(Seq::<(Seq<char>, ValueV)>::empty());
    assert(eval_expr(ExprV::Literal { value: v }, env1) == (EvalRes { res: Ok(v), env: env1 }));
    let r1 = eval_stmt(inner_stmt, env1);
    assert(r1.res == Ok::<ValueV, ErrV>(ValueV::Nil) && r1.env == env_define(env1, lit, v));
    assert(stmts[0] == inner_stmt);
    assert(stmts.drop_first() =~= Seq::<StmtV>::empty());
    assert(eval_seq(Seq::<StmtV>::empty(), r1.env).env == r1.env);
    let r2 = eval_seq(stmts, env1);
    assert(r2.env == r1.env);
    assert(r2.res is Ok);
    assert(env_define(env1, lit, v).drop_last() =~= env);
}

/// Assigning to an outer name from inside a block mutates the outer
/// binding, exactly as assigning outside the block would.
pub proof fn lemma_block_assign_mutates_outer(
    lexeme: Seq<char>,
    lit: Seq<char>,
    line: usize,
    v: ValueV,
    env: EnvV,
)
    requires
        env.len() >= 1,
        env_get(env, lit) is Some,
    ensures
        ({
            let name = TokenV::Identifier { lexeme, literal: lit, line };
            let st = StmtV::Block {
                stmts: seq![
                    StmtV::Expr {
                        expr: Box::new(
                            ExprV::Assign {
                                name,
                                value: Box::new(ExprV::Literal { value: v }),
                            },
                        ),
                    },
                ],
            };
            let r = eval_stmt(st, env);
            &&& r.res == Ok::<ValueV, ErrV>(ValueV::Nil)
            &&& env_assign(env, lit, v) == Ok::<EnvV, ErrV>(r.env)
        }),
{
    let name = TokenV::Identifier { lexeme, literal: lit, line };
    let assign_expr = ExprV::Assign { name, value: Box::new(ExprV::Literal { value: v }) };
    let inner_stmt = StmtV::Expr { expr: Box::new(assign_expr) };
    let stmts = seq![inner_stmt];
    let env1 = env.push(Seq::<(Seq<char>, ValueV)>::empty());
    lemma_env_assign_bound(env, lit, v);
    assert(env1.drop_last() =~= env);
    let e0 = env_assign(env, lit, v)->Ok_0;
    assert(env_assign(env1, lit, v) == Ok::<EnvV, ErrV>(e0.push(env1.last())));
    assert(eval_expr(ExprV::Literal { value: v }, env1) == (EvalRes { res: Ok(v), env: env1 }));
    let ra = eval_expr(assign_expr, env1);
    assert(ra.res == Ok::<ValueV, ErrV>(v) && ra.env == e0.push(env1.last()));
    let r1 = eval_stmt(inner_stmt, env1);
    assert(r1.res == Ok::<ValueV, ErrV>(v) && r1.env == ra.env);
    assert(stmts[0] == inner_stmt);
    assert(stmts.drop_first() =~= Seq::<StmtV>::empty());
    assert(eval_seq(Seq::<StmtV>::empty(), r1.env).env == r1.env);
    let r2 = eval_seq(stmts, env1);
    assert(r2.env == r1.env && r2.res is Ok);
    assert(e0.push(env1.last()).drop_last() =~= e0);
}

/// `+` dispatches on its operands: two numbers add, two texts
/// concatenate, and a number minus text is a type error that expects a
/// number, saw a string, and carries the operator's line.
pub proof fn lemma_plus_dispatch(
    a: u32,
    b: u32,
    x: Seq<char>,
    y: Seq<char>,
    n: u32,
    s: Seq<char>,
    line: usize,
)
    ensures
        eval_binary_op(TokenV::Plus { line }, ValueV::Num(a), ValueV::Num(b)) == Ok::<
            ValueV,
            ErrV,
        >(ValueV::Num(add_bits(a, b))),
        eval_binary_op(TokenV::Plus { line }, ValueV::Str(x), ValueV::Str(y)) == Ok::<
            ValueV,
            ErrV,
        >(ValueV::Str(x + y)),
        eval_binary_op(TokenV::Minus { line }, ValueV::Num(n), ValueV::Str(s)) == Err::<
            ValueV,
            ErrV,
        >(ErrV::Type { expected_type: "number"@, actual_type: "string"@, line: Some(line) }),
{
    reveal(eval_binary_op);
}

/// Whether two values are of the same kind.
pub open spec fn same_kind(a: ValueV, b: ValueV) -> bool {
    match (a, b) {
        (ValueV::Str(_), ValueV::Str(_)) => true,
        (ValueV::Num(_), ValueV::Num(_)) => true,
        (ValueV::Bool(_), ValueV::Bool(_)) => true,
        (ValueV::Nil, ValueV::Nil) => true,
        _ => false,
    }
}

/// Equality never errors: comparing any two values yields a boolean,
/// and values of differing kinds are simply unequal.
pub proof fn lemma_equality_never_errors(a: ValueV, b: ValueV, line: usize)
    ensures
        eval_binary_op(TokenV::EqualEqual { line }, a, b) matches Ok(v) && v is Bool,
        !same_kind(a, b) ==> eval_binary_op(TokenV::EqualEqual { line }, a, b) == Ok::<
            ValueV,
            ErrV,
        >(ValueV::Bool(false)),
{
    reveal(eval_binary_op);
}

/// A string literal that reaches the end of the text without a closing
/// quote never scans to a token.
pub proof fn lemma_unterminated_string(cs: Seq<char>, j: int, line: usize, acc: Seq<char>)
    requires
        0 <= j <= cs.len(),
        forall|k: int| j <= k < cs.len() ==> cs[k] != '"',
    ensures
        string_scan(cs, j, line, acc).lit is None,
    decreases cs.len() - j,
{
    if j < cs.len() {
        if cs[j] == '\n' {
            lemma_unterminated_string(cs, j + 1, (line + 1) as usize, acc.push('\n'));
        } else {
            lemma_unterminated_string(cs, j + 1, line, acc.push(cs[j]));
        }
    }
}

/// A dot that no digit follows is not part of a number's lexeme.
pub proof fn lemma_trailing_dot_not_consumed(cs: Seq<char>, i: int)
    requires
        ({
            let d1 = digits_end(cs, i);
            d1 >= cs.len() || cs[d1] != '.' || d1 + 1 >= cs.len() || !crate::scanner::is_digit(
                cs[d1 + 1],
            )
        }),
    ensures
        number_end(cs, i) == digits_end(cs, i),
{
}

/// Arithmetic and comparisons on a number and a text always fail with
/// a type error that expects a number, saw a string, and carries the
/// operator's line — whichever side the text stands on.
pub proof fn lemma_arith_non_numeric(op: TokenV, n: u32, s: Seq<char>, w: ValueV, line: usize)
    requires
        is_comp_op(op) || op is Minus || op is Slash || op is Star,
        crate::token::line_of(op) == Some(line),
    ensures
        eval_binary_op(op, ValueV::Num(n), ValueV::Str(s)) == Err::<ValueV, ErrV>(
            ErrV::Type { expected_type: "number"@, actual_type: "string"@, line: Some(line) },
        ),
        eval_binary_op(op, ValueV::Str(s), w) == Err::<ValueV, ErrV>(
            ErrV::Type { expected_type: "number"@, actual_type: "string"@, line: Some(line) },
        ),
{
    reveal(eval_binary_op);
}

} // verus!
