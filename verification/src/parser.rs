use crate::errors::{err_views, ErrV, InterpreterError, InterpreterResult};
use crate::expr::{Expr, ExprV};
use crate::stmt::{Stmt, StmtV};
use crate::token::{line_of, text_of, token_views, Token, TokenV};
use vstd::prelude::*;
use vstd::string::StringExecFns;

verus! {

// The parser: recursive descent over the token sequence with the
// comments and whitespace filtered out, precedence climbing from
// assignment down to primaries, each binary level left-associative.
// On a syntax error the parser synchronises — skips ahead to just past
// a semicolon or to a token that starts a statement — and tries again,
// collecting every error from one pass; at most one final statement
// comes out.
//
// The specification functions mirror the grammar, each returning the
// parse of what begins at `pos` together with the position after it.
// The `<= pos` guards on recursive calls only serve termination: a
// successful parse always moves forward, which the executable parser's
// contracts state and prove.

/// The token at a position, where there is one.
pub open spec fn tok_at(ts: Seq<TokenV>, pos: int) -> Option<TokenV> {
    if 0 <= pos < ts.len() {
        Some(ts[pos])
    } else {
        None
    }
}

/// The line a token carries, or the fallback when it carries none.
pub open spec fn line_or(t: TokenV, line: usize) -> usize {
    match line_of(t) {
        Some(l) => l,
        None => line,
    }
}

/// Whether a token is non-semantic: carrying no meaning for the
/// grammar, it is filtered out before parsing.
pub open spec fn non_semantic(t: TokenV) -> bool {
    t is Comment || t is Whitespace
}

/// The token sequence with the non-semantic tokens removed.
pub open spec fn clean(ts: Seq<TokenV>) -> Seq<TokenV>
    decreases ts,
{
    if ts.len() == 0 {
        Seq::empty()
    } else if non_semantic(ts.last()) {
        clean(ts.drop_last())
    } else {
        clean(ts.drop_last()).push(ts.last())
    }
}

/// The primary rule: a literal, a grouping, or a variable reference.
pub open spec fn p_primary(ts: Seq<TokenV>, pos: int, line: usize) -> (Result<ExprV, ErrV>, int)
    decreases ts.len() - pos, 0int,
{
    match tok_at(ts, pos) {
        None => (Err(ErrV::Parse { line }), pos),
        Some(t) => match t {
            TokenV::True { .. } => (Ok(ExprV::Literal { value: crate::value::ValueV::Bool(true) }), pos + 1),
            TokenV::False { .. } => (
                Ok(ExprV::Literal { value: crate::value::ValueV::Bool(false) }),
                pos + 1,
            ),
            TokenV::Nil { .. } => (Ok(ExprV::Literal { value: crate::value::ValueV::Nil }), pos + 1),
            TokenV::Number { literal, .. } => (
                Ok(ExprV::Literal { value: crate::value::ValueV::Num(literal) }),
                pos + 1,
            ),
            TokenV::Str { literal, .. } => (
                Ok(ExprV::Literal { value: crate::value::ValueV::Str(literal) }),
                pos + 1,
            ),
            TokenV::LeftParen { line: pl } => {
                if pos + 1 <= pos {
                    (Err(ErrV::Parse { line: pl }), pos)
                } else {
                    p_grouping(ts, pos + 1, pl)
                }
            },
            TokenV::Identifier { .. } => (Ok(ExprV::Variable { name: t }), pos + 1),
            _ => (Err(ErrV::Parse { line: line_or(t, line) }), pos),
        },
    }
}

/// The inside of a grouping, the opening paren consumed: an
/// expression that a closing paren must follow; errors carry the
/// opening paren's line.
pub open spec fn p_grouping(ts: Seq<TokenV>, pos: int, pl: usize) -> (Result<ExprV, ErrV>, int)
    decreases ts.len() - pos, 13int,
{
    let (r, p2) = p_expression(ts, pos, pl);
    match r {
        Ok(e) => match tok_at(ts, p2) {
            Some(TokenV::RightParen { .. }) => (
                Ok(ExprV::Grouping { expression: Box::new(e) }),
                p2 + 1,
            ),
            _ => (Err(ErrV::Parse { line: pl }), p2),
        },
        Err(er) => (Err(er), p2),
    }
}

/// The unary rule: `!` or `-` applied to a unary, else a primary.
pub open spec fn p_unary(ts: Seq<TokenV>, pos: int, line: usize) -> (Result<ExprV, ErrV>, int)
    decreases ts.len() - pos, 1int,
{
    match tok_at(ts, pos) {
        Some(t) => {
            if (t is Bang || t is Minus) && pos + 1 > pos {
                let (r, p2) = p_unary(ts, pos + 1, line);
                match r {
                    Ok(e) => (Ok(ExprV::Unary { operator: t, right: Box::new(e) }), p2),
                    Err(er) => (Err(er), p2),
                }
            } else {
                p_primary(ts, pos, line)
            }
        },
        None => p_primary(ts, pos, line),
    }
}

/// Whether a token is one of the factor operators.
pub open spec fn is_factor_op(t: TokenV) -> bool {
    t is Slash || t is Star
}

/// Whether a token is one of the term operators.
pub open spec fn is_term_op(t: TokenV) -> bool {
    t is Minus || t is Plus
}

/// Whether a token is one of the comparison operators.
pub open spec fn is_comp_op(t: TokenV) -> bool {
    t is Greater || t is GreaterEqual || t is Less || t is LessEqual
}

/// Whether a token is one of the equality operators.
pub open spec fn is_eq_op(t: TokenV) -> bool {
    t is BangEqual || t is EqualEqual
}

/// Folds further factor operators onto a parsed left operand.
pub open spec fn p_factor_rest(ts: Seq<TokenV>, pos: int, left: ExprV, line: usize) -> (
    Result<ExprV, ErrV>,
    int,
)
    decreases ts.len() - pos, 3int,
{
    match tok_at(ts, pos) {
        Some(t) => {
            if is_factor_op(t) {
                let (r, p2) = p_unary(ts, pos + 1, line);
                match r {
                    Ok(right) => {
                        let folded = ExprV::Binary {
                            left: Box::new(left),
                            operator: t,
                            right: Box::new(right),
                        };
                        if p2 <= pos || p2 > ts.len() {
                            (Ok(folded), p2)
                        } else {
                            p_factor_rest(ts, p2, folded, line)
                        }
                    },
                    Err(er) => (Err(er), p2),
                }
            } else {
                (Ok(left), pos)
            }
        },
        None => (Ok(left), pos),
    }
}

/// The factor rule: unaries joined by `/` or `*`, left-associative.
pub open spec fn p_factor(ts: Seq<TokenV>, pos: int, line: usize) -> (Result<ExprV, ErrV>, int)
    decreases ts.len() - pos, 4int,
{
    let (r, p1) = p_unary(ts, pos, line);
    match r {
        Ok(e) => {
            if p1 <= pos || p1 > ts.len() {
                (Ok(e), p1)
            } else {
                p_factor_rest(ts, p1, e, line)
            }
        },
        Err(er) => (Err(er), p1),
    }
}

/// Folds further term operators onto a parsed left operand.
pub open spec fn p_term_rest(ts: Seq<TokenV>, pos: int, left: ExprV, line: usize) -> (
    Result<ExprV, ErrV>,
    int,
)
    decreases ts.len() - pos, 5int,
{
    match tok_at(ts, pos) {
        Some(t) => {
            if is_term_op(t) {
                let (r, p2) = p_factor(ts, pos + 1, line);
                match r {
                    Ok(right) => {
                        let folded = ExprV::Binary {
                            left: Box::new(left),
                            operator: t,
                            right: Box::new(right),
                        };
                        if p2 <= pos || p2 > ts.len() {
                            (Ok(folded), p2)
                        } else {
                            p_term_rest(ts, p2, folded, line)
                        }
                    },
                    Err(er) => (Err(er), p2),
                }
            } else {
                (Ok(left), pos)
            }
        },
        None => (Ok(left), pos),
    }
}

/// The term rule: factors joined by `-` or `+`, left-associative.
pub open spec fn p_term(ts: Seq<TokenV>, pos: int, line: usize) -> (Result<ExprV, ErrV>, int)
    decreases ts.len() - pos, 6int,
{
    let (r, p1) = p_factor(ts, pos, line);
    match r {
        Ok(e) => {
            if p1 <= pos || p1 > ts.len() {
                (Ok(e), p1)
            } else {
                p_term_rest(ts, p1, e, line)
            }
        },
        Err(er) => (Err(er), p1),
    }
}

/// Folds further comparison operators onto a parsed left operand.
pub open spec fn p_comparison_rest(ts: Seq<TokenV>, pos: int, left: ExprV, line: usize) -> (
    Result<ExprV, ErrV>,
    int,
)
    decreases ts.len() - pos, 7int,
{
    match tok_at(ts, pos) {
        Some(t) => {
            if is_comp_op(t) {
                let (r, p2) = p_term(ts, pos + 1, line);
                match r {
                    Ok(right) => {
                        let folded = ExprV::Binary {
                            left: Box::new(left),
                            operator: t,
                            right: Box::new(right),
                        };
                        if p2 <= pos || p2 > ts.len() {
                            (Ok(folded), p2)
                        } else {
                            p_comparison_rest(ts, p2, folded, line)
                        }
                    },
                    Err(er) => (Err(er), p2),
                }
            } else {
                (Ok(left), pos)
            }
        },
        None => (Ok(left), pos),
    }
}

/// The comparison rule: terms joined by `>` `>=` `<` `<=`.
pub open spec fn p_comparison(ts: Seq<TokenV>, pos: int, line: usize) -> (Result<ExprV, ErrV>, int)
    decreases ts.len() - pos, 8int,
{
    let (r, p1) = p_term(ts, pos, line);
    match r {
        Ok(e) => {
            if p1 <= pos || p1 > ts.len() {
                (Ok(e), p1)
            } else {
                p_comparison_rest(ts, p1, e, line)
            }
        },
        Err(er) => (Err(er), p1),
    }
}

/// Folds further equality operators onto a parsed left operand.
pub open spec fn p_equality_rest(ts: Seq<TokenV>, pos: int, left: ExprV, line: usize) -> (
    Result<ExprV, ErrV>,
    int,
)
    decreases ts.len() - pos, 9int,
{
    match tok_at(ts, pos) {
        Some(t) => {
            if is_eq_op(t) {
                let (r, p2) = p_comparison(ts, pos + 1, line);
                match r {
                    Ok(right) => {
                        let folded = ExprV::Binary {
                            left: Box::new(left),
                            operator: t,
                            right: Box::new(right),
                        };
                        if p2 <= pos || p2 > ts.len() {
                            (Ok(folded), p2)
                        } else {
                            p_equality_rest(ts, p2, folded, line)
                        }
                    },
                    Err(er) => (Err(er), p2),
                }
            } else {
                (Ok(left), pos)
            }
        },
        None => (Ok(left), pos),
    }
}

/// The equality rule: comparisons joined by `!=` or `==`.
pub open spec fn p_equality(ts: Seq<TokenV>, pos: int, line: usize) -> (Result<ExprV, ErrV>, int)
    decreases ts.len() - pos, 10int,
{
    let (r, p1) = p_comparison(ts, pos, line);
    match r {
        Ok(e) => {
            if p1 <= pos || p1 > ts.len() {
                (Ok(e), p1)
            } else {
                p_equality_rest(ts, p1, e, line)
            }
        },
        Err(er) => (Err(er), p1),
    }
}

/// After a parsed left-hand side and its `=` (the operator stands just
/// before `pos`): the right-hand side is parsed, and only a bare
/// variable on the left forms an assignment; any other left-hand shape
/// is an invalid assignment target.
pub open spec fn p_assign_tail(ts: Seq<TokenV>, pos: int, left: ExprV, line: usize) -> (
    Result<ExprV, ErrV>,
    int,
)
    decreases ts.len() - pos, 12int,
{
    let (rv, p2) = p_assign(ts, pos, line);
    match rv {
        Ok(v) => match left {
            ExprV::Variable { name } => (Ok(ExprV::Assign { name, value: Box::new(v) }), p2),
            _ => (
                Err(
                    ErrV::SyntaxError {
                        line,
                        message: "Invalid assignment target "@ + text_of(ts[pos - 1]),
                    },
                ),
                p2,
            ),
        },
        Err(er) => (Err(er), p2),
    }
}

/// The assignment rule: an equality, then possibly an `=` and a
/// right-hand side.
pub open spec fn p_assign(ts: Seq<TokenV>, pos: int, line: usize) -> (Result<ExprV, ErrV>, int)
    decreases ts.len() - pos, 11int,
{
    let (r, p1) = p_equality(ts, pos, line);
    match r {
        Ok(e) => {
            if tok_at(ts, p1) matches Some(t) && t is Equal {
                if p1 < pos || p1 >= ts.len() {
                    (Ok(e), p1)
                } else {
                    p_assign_tail(ts, p1 + 1, e, line)
                }
            } else {
                (Ok(e), p1)
            }
        },
        Err(er) => (Err(er), p1),
    }
}

/// The expression rule.
pub open spec fn p_expression(ts: Seq<TokenV>, pos: int, line: usize) -> (Result<ExprV, ErrV>, int)
    decreases ts.len() - pos, 12int,
{
    p_assign(ts, pos, line)
}

/// A variable declaration after its `var`: a name, an optional
/// initializer, a closing semicolon.
pub open spec fn p_variable(ts: Seq<TokenV>, pos: int, line: usize) -> (Result<StmtV, ErrV>, int)
    decreases ts.len() - pos, 13int,
{
    match tok_at(ts, pos) {
        Some(t) => {
            if t is Identifier {
                let after_name = pos + 1;
                if tok_at(ts, after_name) matches Some(e) && e is Equal {
                    let (r, p2) = p_expression(ts, after_name + 1, line);
                    match r {
                        Ok(init) => {
                            if tok_at(ts, p2) matches Some(sc) && sc is Semicolon {
                                (
                                    Ok(
                                        StmtV::Variable {
                                            name: t,
                                            initializer: Some(Box::new(init)),
                                        },
                                    ),
                                    p2 + 1,
                                )
                            } else {
                                (
                                    Err(
                                        ErrV::SyntaxError {
                                            line,
                                            message: "Expected semicolon"@,
                                        },
                                    ),
                                    p2,
                                )
                            }
                        },
                        Err(er) => (Err(er), p2),
                    }
                } else {
                    if tok_at(ts, after_name) matches Some(sc) && sc is Semicolon {
                        (Ok(StmtV::Variable { name: t, initializer: None }), after_name + 1)
                    } else {
                        (
                            Err(ErrV::SyntaxError { line, message: "Expected semicolon"@ }),
                            after_name,
                        )
                    }
                }
            } else {
                (Err(ErrV::SyntaxError { line, message: "Expected variable name"@ }), pos)
            }
        },
        None => (Err(ErrV::SyntaxError { line, message: "Expected variable name"@ }), pos),
    }
}

/// The inside of a block: declarations until the closing brace, which
/// is consumed.
pub open spec fn p_block(ts: Seq<TokenV>, pos: int, line: usize) -> (Result<Seq<StmtV>, ErrV>, int)
    decreases ts.len() - pos, 15int,
{
    if tok_at(ts, pos) matches Some(t) && t is RightBrace {
        (Ok(Seq::empty()), pos + 1)
    } else {
        let (r, p1) = p_declaration(ts, pos, line);
        match r {
            Ok(s) => {
                if p1 <= pos || p1 > ts.len() {
                    (Ok(seq![s]), p1)
                } else {
                    let (rest, p2) = p_block(ts, p1, line);
                    match rest {
                        Ok(ss) => (Ok(seq![s] + ss), p2),
                        Err(er) => (Err(er), p2),
                    }
                }
            },
            Err(er) => (Err(er), p1),
        }
    }
}

/// The statement rule: a print statement, a block (whose closing brace
/// this grammar requires a semicolon after), or an expression
/// statement.
pub open spec fn p_statement(ts: Seq<TokenV>, pos: int, line: usize) -> (Result<StmtV, ErrV>, int)
    decreases ts.len() - pos, 13int,
{
    if tok_at(ts, pos) matches Some(t) && t is Print {
        let (r, p1) = p_expression(ts, pos + 1, line);
        match r {
            Ok(e) => {
                if tok_at(ts, p1) matches Some(sc) && sc is Semicolon {
                    (Ok(StmtV::Print { expr: Box::new(e) }), p1 + 1)
                } else {
                    (Err(ErrV::SyntaxError { line, message: "Expected semicolon"@ }), p1)
                }
            },
            Err(er) => (Err(er), p1),
        }
    } else if tok_at(ts, pos) matches Some(t) && t is LeftBrace {
        let (r, p1) = p_block(ts, pos + 1, line);
        match r {
            Ok(ss) => {
                if tok_at(ts, p1) matches Some(sc) && sc is Semicolon {
                    (Ok(StmtV::Block { stmts: ss }), p1 + 1)
                } else {
                    (Err(ErrV::SyntaxError { line, message: "Expected semicolon"@ }), p1)
                }
            },
            Err(er) => (Err(er), p1),
        }
    } else {
        let (r, p1) = p_expression(ts, pos, line);
        match r {
            Ok(e) => {
                if tok_at(ts, p1) matches Some(sc) && sc is Semicolon {
                    (Ok(StmtV::Expr { expr: Box::new(e) }), p1 + 1)
                } else {
                    (Err(ErrV::SyntaxError { line, message: "Expected semicolon"@ }), p1)
                }
            },
            Err(er) => (Err(er), p1),
        }
    }
}

/// The declaration rule: a variable declaration or a statement.
pub open spec fn p_declaration(ts: Seq<TokenV>, pos: int, line: usize) -> (Result<StmtV, ErrV>, int)
    decreases ts.len() - pos, 14int,
{
    if tok_at(ts, pos) matches Some(t) && t is Var {
        if pos + 1 <= pos {
            (Err(ErrV::Parse { line }), pos)
        } else {
            p_variable(ts, pos + 1, line)
        }
    } else {
        p_statement(ts, pos, line)
    }
}

/// Whether a token can start a statement, for synchronisation.
pub open spec fn is_sync_start(t: TokenV) -> bool {
    t is Class || t is Fun || t is Var || t is For || t is If || t is While || t is Print
        || t is Return
}

/// Panic-mode recovery from just after `pos`: skips ahead until just
/// past a semicolon or to a token that starts a statement; reports
/// whether a place to resume was found, and where.
pub open spec fn p_sync_rest(ts: Seq<TokenV>, p: int) -> (bool, int)
    decreases ts.len() - p,
{
    if p < 0 || p >= ts.len() {
        (false, p)
    } else if ts[p - 1] is Semicolon {
        (true, p)
    } else if is_sync_start(ts[p]) {
        (true, p)
    } else {
        p_sync_rest(ts, p + 1)
    }
}

/// Panic-mode recovery: advances once, then searches.
pub open spec fn p_sync(ts: Seq<TokenV>, pos: int) -> (bool, int) {
    p_sync_rest(ts, pos + 1)
}

/// The top-level parse loop: tries a declaration, and on an error
/// records it and synchronises; it stops at the first success or when
/// no place to resume is left.
pub open spec fn p_parse_loop(ts: Seq<TokenV>, pos: int, errs: Seq<ErrV>) -> (
    Option<StmtV>,
    Seq<ErrV>,
)
    decreases ts.len() - pos,
{
    let (r, p1) = p_declaration(ts, pos, 0);
    match r {
        Ok(s) => (Some(s), errs),
        Err(e) => {
            let (found, p2) = p_sync(ts, p1);
            if !found {
                (None, errs.push(e))
            } else if p2 <= pos || p2 > ts.len() {
                (None, errs.push(e))
            } else {
                p_parse_loop(ts, p2, errs.push(e))
            }
        },
    }
}

/// What parsing a token sequence produces: at most one final
/// statement, plus the syntax errors collected across recoveries.
pub open spec fn p_parse(ts: Seq<TokenV>) -> (Option<StmtV>, Seq<ErrV>) {
    p_parse_loop(clean(ts), 0, Seq::empty())
}


/// Consumes an equality operator when one is next.
fn match_eq(tokens: &Vec<Token>, pos: &mut usize) -> (r: bool)
    requires
        *old(pos) <= tokens@.len(),
    ensures
        r == (*old(pos) < tokens@.len() && is_eq_op(token_views(tokens@)[*old(pos) as int])),
        r ==> *final(pos) == *old(pos) + 1,
        !r ==> *final(pos) == *old(pos),
{
    if *pos < tokens.len() {
        let t = &tokens[*pos];
        match t {
            Token::BangEqual { .. } => {
                *pos = *pos + 1;
                true
            },
            Token::EqualEqual { .. } => {
                *pos = *pos + 1;
                true
            },
            _ => false,
        }
    } else {
        false
    }
}

/// Consumes a comparison operator when one is next.
fn match_comp(tokens: &Vec<Token>, pos: &mut usize) -> (r: bool)
    requires
        *old(pos) <= tokens@.len(),
    ensures
        r == (*old(pos) < tokens@.len() && is_comp_op(token_views(tokens@)[*old(pos) as int])),
        r ==> *final(pos) == *old(pos) + 1,
        !r ==> *final(pos) == *old(pos),
{
    if *pos < tokens.len() {
        let t = &tokens[*pos];
        match t {
            Token::Greater { .. } => {
                *pos = *pos + 1;
                true
            },
            Token::GreaterEqual { .. } => {
                *pos = *pos + 1;
                true
            },
            Token::Less { .. } => {
                *pos = *pos + 1;
                true
            },
            Token::LessEqual { .. } => {
                *pos = *pos + 1;
                true
            },
            _ => false,
        }
    } else {
        false
    }
}

/// Consumes a term operator when one is next.
fn match_term(tokens: &Vec<Token>, pos: &mut usize) -> (r: bool)
    requires
        *old(pos) <= tokens@.len(),
    ensures
        r == (*old(pos) < tokens@.len() && is_term_op(token_views(tokens@)[*old(pos) as int])),
        r ==> *final(pos) == *old(pos) + 1,
        !r ==> *final(pos) == *old(pos),
{
    if *pos < tokens.len() {
        let t = &tokens[*pos];
        match t {
            Token::Minus { .. } => {
                *pos = *pos + 1;
                true
            },
            Token::Plus { .. } => {
                *pos = *pos + 1;
                true
            },
            _ => false,
        }
    } else {
        false
    }
}

/// Consumes a factor operator when one is next.
fn match_factor(tokens: &Vec<Token>, pos: &mut usize) -> (r: bool)
    requires
        *old(pos) <= tokens@.len(),
    ensures
        r == (*old(pos) < tokens@.len() && is_factor_op(token_views(tokens@)[*old(pos) as int])),
        r ==> *final(pos) == *old(pos) + 1,
        !r ==> *final(pos) == *old(pos),
{
    if *pos < tokens.len() {
        let t = &tokens[*pos];
        match t {
            Token::Slash { .. } => {
                *pos = *pos + 1;
                true
            },
            Token::Star { .. } => {
                *pos = *pos + 1;
                true
            },
            _ => false,
        }
    } else {
        false
    }
}

/// Consumes a unary operator when one is next.
fn match_unary(tokens: &Vec<Token>, pos: &mut usize) -> (r: bool)
    requires
        *old(pos) <= tokens@.len(),
    ensures
        r == (*old(pos) < tokens@.len() && ({
            let t = token_views(tokens@)[*old(pos) as int];
            t is Bang || t is Minus
        })),
        r ==> *final(pos) == *old(pos) + 1,
        !r ==> *final(pos) == *old(pos),
{
    if *pos < tokens.len() {
        let t = &tokens[*pos];
        match t {
            Token::Bang { .. } => {
                *pos = *pos + 1;
                true
            },
            Token::Minus { .. } => {
                *pos = *pos + 1;
                true
            },
            _ => false,
        }
    } else {
        false
    }
}

/// Consumes a `print` keyword when one is next.
fn match_print(tokens: &Vec<Token>, pos: &mut usize) -> (r: bool)
    requires
        *old(pos) <= tokens@.len(),
    ensures
        r == (*old(pos) < tokens@.len() && token_views(tokens@)[*old(pos) as int] is Print),
        r ==> *final(pos) == *old(pos) + 1,
        !r ==> *final(pos) == *old(pos),
{
    if *pos < tokens.len() {
        let t = &tokens[*pos];
        match t {
            Token::Print { .. } => {
                *pos = *pos + 1;
                true
            },
            _ => false,
        }
    } else {
        false
    }
}

/// Consumes a `var` keyword when one is next.
fn match_var(tokens: &Vec<Token>, pos: &mut usize) -> (r: bool)
    requires
        *old(pos) <= tokens@.len(),
    ensures
        r == (*old(pos) < tokens@.len() && token_views(tokens@)[*old(pos) as int] is Var),
        r ==> *final(pos) == *old(pos) + 1,
        !r ==> *final(pos) == *old(pos),
{
    if *pos < tokens.len() {
        let t = &tokens[*pos];
        match t {
            Token::Var { .. } => {
                *pos = *pos + 1;
                true
            },
            _ => false,
        }
    } else {
        false
    }
}

/// Consumes an `=` when one is next.
fn match_assign(tokens: &Vec<Token>, pos: &mut usize) -> (r: bool)
    requires
        *old(pos) <= tokens@.len(),
    ensures
        r == (*old(pos) < tokens@.len() && token_views(tokens@)[*old(pos) as int] is Equal),
        r ==> *final(pos) == *old(pos) + 1,
        !r ==> *final(pos) == *old(pos),
{
    if *pos < tokens.len() {
        let t = &tokens[*pos];
        match t {
            Token::Equal { .. } => {
                *pos = *pos + 1;
                true
            },
            _ => false,
        }
    } else {
        false
    }
}

/// Consumes a `{` when one is next.
fn match_block(tokens: &Vec<Token>, pos: &mut usize) -> (r: bool)
    requires
        *old(pos) <= tokens@.len(),
    ensures
        r == (*old(pos) < tokens@.len() && token_views(tokens@)[*old(pos) as int] is LeftBrace),
        r ==> *final(pos) == *old(pos) + 1,
        !r ==> *final(pos) == *old(pos),
{
    if *pos < tokens.len() {
        let t = &tokens[*pos];
        match t {
            Token::LeftBrace { .. } => {
                *pos = *pos + 1;
                true
            },
            _ => false,
        }
    } else {
        false
    }
}

/// Whether a `}` is next, without consuming it.
fn check_right_brace(tokens: &Vec<Token>, pos: &usize) -> (r: bool)
    requires
        *pos <= tokens@.len(),
    ensures
        r == (*pos < tokens@.len() && token_views(tokens@)[*pos as int] is RightBrace),
{
    if *pos < tokens.len() {
        let t = &tokens[*pos];
        match t {
            Token::RightBrace { .. } => true,
            _ => false,
        }
    } else {
        false
    }
}

/// The token just consumed.
fn previous<'a>(tokens: &'a Vec<Token>, pos: &usize, line: usize) -> (r: InterpreterResult<
    &'a Token,
>)
    requires
        1 <= *pos <= tokens@.len(),
    ensures
        r matches Ok(t) && t@ == token_views(tokens@)[*pos - 1],
{
    Ok(&tokens[*pos - 1])
}

/// Consumes the semicolon that must close a statement.
fn expect_semicolon(tokens: &Vec<Token>, pos: &mut usize, line: usize) -> (r: InterpreterResult<()>)
    requires
        *old(pos) <= tokens@.len(),
    ensures
        (*old(pos) < tokens@.len() && token_views(tokens@)[*old(pos) as int] is Semicolon) ==> (
        r is Ok && *final(pos) == *old(pos) + 1),
        !(*old(pos) < tokens@.len() && token_views(tokens@)[*old(pos) as int] is Semicolon) ==> (
        *final(pos) == *old(pos) && (r matches Err(e) && e@ == (ErrV::SyntaxError {
            line,
            message: "Expected semicolon"@,
        }))),
{
    if *pos < tokens.len() {
        let t = &tokens[*pos];
        match t {
            Token::Semicolon { .. } => {
                *pos = *pos + 1;
                return Ok(());
            },
            _ => {},
        }
    }
    Err(
        InterpreterError::SyntaxError { line, message: String::from_str("Expected semicolon") },
    )
}

/// Consumes the brace that must close a block.
fn expect_right_brace(tokens: &Vec<Token>, pos: &mut usize, line: usize) -> (r: InterpreterResult<
    (),
>)
    requires
        *old(pos) <= tokens@.len(),
    ensures
        (*old(pos) < tokens@.len() && token_views(tokens@)[*old(pos) as int] is RightBrace) ==> (
        r is Ok && *final(pos) == *old(pos) + 1),
        !(*old(pos) < tokens@.len() && token_views(tokens@)[*old(pos) as int] is RightBrace) ==> (
        *final(pos) == *old(pos) && (r matches Err(e) && e@ == (ErrV::SyntaxError {
            line,
            message: "Expected right brace"@,
        }))),
{
    if *pos < tokens.len() {
        let t = &tokens[*pos];
        match t {
            Token::RightBrace { .. } => {
                *pos = *pos + 1;
                return Ok(());
            },
            _ => {},
        }
    }
    Err(
        InterpreterError::SyntaxError { line, message: String::from_str("Expected right brace") },
    )
}

/// Consumes the identifier that names a variable.
fn identifier(tokens: &Vec<Token>, pos: &mut usize, line: usize) -> (r: InterpreterResult<Token>)
    requires
        *old(pos) <= tokens@.len(),
    ensures
        (*old(pos) < tokens@.len() && token_views(tokens@)[*old(pos) as int] is Identifier) ==> (
        *final(pos) == *old(pos) + 1 && (r matches Ok(t) && t@ == token_views(
            tokens@,
        )[*old(pos) as int])),
        !(*old(pos) < tokens@.len() && token_views(tokens@)[*old(pos) as int] is Identifier) ==> (
        *final(pos) == *old(pos) && (r matches Err(e) && e@ == (ErrV::SyntaxError {
            line,
            message: "Expected variable name"@,
        }))),
{
    if *pos < tokens.len() {
        let t = &tokens[*pos];
        match t {
            Token::Identifier { .. } => {
                let name = t.dup();
                *pos = *pos + 1;
                return Ok(name);
            },
            _ => {},
        }
    }
    Err(
        InterpreterError::SyntaxError {
            line,
            message: String::from_str("Expected variable name"),
        },
    )
}

/// The inside of a grouping, the opening paren consumed.
#[verifier::rlimit(100)]
fn grouping(tokens: &Vec<Token>, pos: &mut usize, pl: usize) -> (r: InterpreterResult<Expr>)
    requires
        *old(pos) <= tokens@.len(),
    ensures
        ({
            let (sr, sp) = p_grouping(token_views(tokens@), *old(pos) as int, pl);
            &&& *final(pos) == sp
            &&& match r {
                Ok(e) => sr == Ok::<ExprV, ErrV>(e@),
                Err(er) => sr == Err::<ExprV, ErrV>(er@),
            }
        }),
        *old(pos) <= *final(pos) <= tokens@.len(),
        r is Ok ==> *old(pos) < *final(pos),
    decreases tokens@.len() - *old(pos), 13int,
{
    match expression(tokens, pos, pl) {
        Ok(e) => {
            if *pos < tokens.len() {
                let nt = &tokens[*pos];
                match nt {
                    Token::RightParen { .. } => {
                        *pos = *pos + 1;
                        return Ok(Expr::Grouping { expression: Box::new(e) });
                    },
                    _ => {},
                }
            }
            Err(InterpreterError::Parse { line: pl })
        },
        Err(er) => Err(er),
    }
}

/// The primary rule.
#[verifier::rlimit(100)]
#[verifier::loop_isolation(false)]
pub fn primary(tokens: &Vec<Token>, pos: &mut usize, line: usize) -> (r: InterpreterResult<Expr>)
    requires
        *old(pos) <= tokens@.len(),
    ensures
        ({
            let (sr, sp) = p_primary(token_views(tokens@), *old(pos) as int, line);
            &&& *final(pos) == sp
            &&& match r {
                Ok(e) => sr == Ok::<ExprV, ErrV>(e@),
                Err(er) => sr == Err::<ExprV, ErrV>(er@),
            }
        }),
        *old(pos) <= *final(pos) <= tokens@.len(),
        r is Ok ==> *old(pos) < *final(pos),
    decreases tokens@.len() - *old(pos), 0int,
{
    if *pos >= tokens.len() {
        return Err(InterpreterError::Parse { line });
    }
    let t = &tokens[*pos];
    match t {
        Token::True { .. } => {
            *pos = *pos + 1;
            Ok(Expr::literal_bool(true))
        },
        Token::False { .. } => {
            *pos = *pos + 1;
            Ok(Expr::literal_bool(false))
        },
        Token::Nil { .. } => {
            *pos = *pos + 1;
            Ok(Expr::literal_nil())
        },
        Token::Number { literal, .. } => {
            let n = *literal;
            *pos = *pos + 1;
            Ok(Expr::literal_num(n))
        },
        Token::Str { literal, .. } => {
            let e = Expr::literal_string(literal.as_str());
            *pos = *pos + 1;
            Ok(e)
        },
        Token::LeftParen { line: pl } => {
            let pl = *pl;
            *pos = *pos + 1;
            grouping(tokens, pos, pl)
        },
        Token::Identifier { .. } => {
            let name = t.dup();
            *pos = *pos + 1;
            Ok(Expr::Variable { name })
        },
        _ => {
            let l = match t.get_line() {
                Some(l) => l,
                None => line,
            };
            Err(InterpreterError::Parse { line: l })
        },
    }
}

/// The unary rule.
#[verifier::loop_isolation(false)]
pub fn unary(tokens: &Vec<Token>, pos: &mut usize, line: usize) -> (r: InterpreterResult<Expr>)
    requires
        *old(pos) <= tokens@.len(),
    ensures
        ({
            let (sr, sp) = p_unary(token_views(tokens@), *old(pos) as int, line);
            &&& *final(pos) == sp
            &&& match r {
                Ok(e) => sr == Ok::<ExprV, ErrV>(e@),
                Err(er) => sr == Err::<ExprV, ErrV>(er@),
            }
        }),
        *old(pos) <= *final(pos) <= tokens@.len(),
        r is Ok ==> *old(pos) < *final(pos),
    decreases tokens@.len() - *old(pos), 1int,
{
    if match_unary(tokens, pos) {
        let operator = match previous(tokens, pos, line) {
            Ok(t) => t.dup(),
            Err(e) => {
                proof {
                    assert(false);
                }
                return Err(e);
            },
        };
        match unary(tokens, pos, line) {
            Ok(right) => Ok(Expr::Unary { operator, right: Box::new(right) }),
            Err(er) => Err(er),
        }
    } else {
        primary(tokens, pos, line)
    }
}

/// The factor rule.
#[verifier::rlimit(100)]
pub fn factor(tokens: &Vec<Token>, pos: &mut usize, line: usize) -> (r: InterpreterResult<Expr>)
    requires
        *old(pos) <= tokens@.len(),
    ensures
        ({
            let (sr, sp) = p_factor(token_views(tokens@), *old(pos) as int, line);
            &&& *final(pos) == sp
            &&& match r {
                Ok(e) => sr == Ok::<ExprV, ErrV>(e@),
                Err(er) => sr == Err::<ExprV, ErrV>(er@),
            }
        }),
        *old(pos) <= *final(pos) <= tokens@.len(),
        r is Ok ==> *old(pos) < *final(pos),
    decreases tokens@.len() - *old(pos), 4int,
{
    let ghost tv = token_views(tokens@);
    let ghost pos0 = *old(pos);
    let mut expr = match unary(tokens, pos, line) {
        Ok(e) => e,
        Err(er) => {
            return Err(er);
        },
    };
    loop
        invariant
            tv == token_views(tokens@),
            pos0 == *old(pos),
            pos0 < *pos <= tokens@.len(),
            p_factor(tv, pos0 as int, line) == p_factor_rest(tv, *pos as int, expr@, line),
        ensures
            pos0 < *pos <= tokens@.len(),
            p_factor(tv, pos0 as int, line) == (Ok::<ExprV, ErrV>(expr@), *pos as int),
        decreases tokens@.len() - *pos,
    {
        if !match_factor(tokens, pos) {
            break ;
        }
        let operator = match previous(tokens, pos, line) {
            Ok(t) => t.dup(),
            Err(e) => {
                proof {
                    assert(false);
                }
                return Err(e);
            },
        };
        match unary(tokens, pos, line) {
            Ok(right) => {
                expr = Expr::Binary {
                    left: Box::new(expr),
                    operator,
                    right: Box::new(right),
                };
            },
            Err(er) => {
                return Err(er);
            },
        }
    }
    Ok(expr)
}

/// The term rule.
#[verifier::rlimit(100)]
pub fn term(tokens: &Vec<Token>, pos: &mut usize, line: usize) -> (r: InterpreterResult<Expr>)
    requires
        *old(pos) <= tokens@.len(),
    ensures
        ({
            let (sr, sp) = p_term(token_views(tokens@), *old(pos) as int, line);
            &&& *final(pos) == sp
            &&& match r {
                Ok(e) => sr == Ok::<ExprV, ErrV>(e@),
                Err(er) => sr == Err::<ExprV, ErrV>(er@),
            }
        }),
        *old(pos) <= *final(pos) <= tokens@.len(),
        r is Ok ==> *old(pos) < *final(pos),
    decreases tokens@.len() - *old(pos), 6int,
{
    let ghost tv = token_views(tokens@);
    let ghost pos0 = *old(pos);
    let mut expr = match factor(tokens, pos, line) {
        Ok(e) => e,
        Err(er) => {
            return Err(er);
        },
    };
    loop
        invariant
            tv == token_views(tokens@),
            pos0 == *old(pos),
            pos0 < *pos <= tokens@.len(),
            p_term(tv, pos0 as int, line) == p_term_rest(tv, *pos as int, expr@, line),
        ensures
            pos0 < *pos <= tokens@.len(),
            p_term(tv, pos0 as int, line) == (Ok::<ExprV, ErrV>(expr@), *pos as int),
        decreases tokens@.len() - *pos,
    {
        if !match_term(tokens, pos) {
            break ;
        }
        let operator = match previous(tokens, pos, line) {
            Ok(t) => t.dup(),
            Err(e) => {
                proof {
                    assert(false);
                }
                return Err(e);
            },
        };
        match factor(tokens, pos, line) {
            Ok(right) => {
                expr = Expr::Binary {
                    left: Box::new(expr),
                    operator,
                    right: Box::new(right),
                };
            },
            Err(er) => {
                return Err(er);
            },
        }
    }
    Ok(expr)
}

/// The comparison rule.
#[verifier::rlimit(100)]
pub fn comparison(tokens: &Vec<Token>, pos: &mut usize, line: usize) -> (r: InterpreterResult<
    Expr,
>)
    requires
        *old(pos) <= tokens@.len(),
    ensures
        ({
            let (sr, sp) = p_comparison(token_views(tokens@), *old(pos) as int, line);
            &&& *final(pos) == sp
            &&& match r {
                Ok(e) => sr == Ok::<ExprV, ErrV>(e@),
                Err(er) => sr == Err::<ExprV, ErrV>(er@),
            }
        }),
        *old(pos) <= *final(pos) <= tokens@.len(),
        r is Ok ==> *old(pos) < *final(pos),
    decreases tokens@.len() - *old(pos), 8int,
{
    let ghost tv = token_views(tokens@);
    let ghost pos0 = *old(pos);
    let mut expr = match term(tokens, pos, line) {
        Ok(e) => e,
        Err(er) => {
            return Err(er);
        },
    };
    loop
        invariant
            tv == token_views(tokens@),
            pos0 == *old(pos),
            pos0 < *pos <= tokens@.len(),
            p_comparison(tv, pos0 as int, line) == p_comparison_rest(tv, *pos as int, expr@, line),
        ensures
            pos0 < *pos <= tokens@.len(),
            p_comparison(tv, pos0 as int, line) == (Ok::<ExprV, ErrV>(expr@), *pos as int),
        decreases tokens@.len() - *pos,
    {
        if !match_comp(tokens, pos) {
            break ;
        }
        let operator = match previous(tokens, pos, line) {
            Ok(t) => t.dup(),
            Err(e) => {
                proof {
                    assert(false);
                }
                return Err(e);
            },
        };
        match term(tokens, pos, line) {
            Ok(right) => {
                expr = Expr::Binary {
                    left: Box::new(expr),
                    operator,
                    right: Box::new(right),
                };
            },
            Err(er) => {
                return Err(er);
            },
        }
    }
    Ok(expr)
}

/// The equality rule.
#[verifier::rlimit(100)]
pub fn equality(tokens: &Vec<Token>, pos: &mut usize, line: usize) -> (r: InterpreterResult<Expr>)
    requires
        *old(pos) <= tokens@.len(),
    ensures
        ({
            let (sr, sp) = p_equality(token_views(tokens@), *old(pos) as int, line);
            &&& *final(pos) == sp
            &&& match r {
                Ok(e) => sr == Ok::<ExprV, ErrV>(e@),
                Err(er) => sr == Err::<ExprV, ErrV>(er@),
            }
        }),
        *old(pos) <= *final(pos) <= tokens@.len(),
        r is Ok ==> *old(pos) < *final(pos),
    decreases tokens@.len() - *old(pos), 10int,
{
    let ghost tv = token_views(tokens@);
    let ghost pos0 = *old(pos);
    let mut expr = match comparison(tokens, pos, line) {
        Ok(e) => e,
        Err(er) => {
            return Err(er);
        },
    };
    loop
        invariant
            tv == token_views(tokens@),
            pos0 == *old(pos),
            pos0 < *pos <= tokens@.len(),
            p_equality(tv, pos0 as int, line) == p_equality_rest(tv, *pos as int, expr@, line),
        ensures
            pos0 < *pos <= tokens@.len(),
            p_equality(tv, pos0 as int, line) == (Ok::<ExprV, ErrV>(expr@), *pos as int),
        decreases tokens@.len() - *pos,
    {
        if !match_eq(tokens, pos) {
            break ;
        }
        let operator = match previous(tokens, pos, line) {
            Ok(t) => t.dup(),
            Err(e) => {
                proof {
                    assert(false);
                }
                return Err(e);
            },
        };
        match comparison(tokens, pos, line) {
            Ok(right) => {
                expr = Expr::Binary {
                    left: Box::new(expr),
                    operator,
                    right: Box::new(right),
                };
            },
            Err(er) => {
                return Err(er);
            },
        }
    }
    Ok(expr)
}

/// The assignment rule.
#[verifier::spinoff_prover]
#[verifier::rlimit(100)]
#[verifier::loop_isolation(false)]
pub fn assign(tokens: &Vec<Token>, pos: &mut usize, line: usize) -> (r: InterpreterResult<Expr>)
    requires
        *old(pos) <= tokens@.len(),
    ensures
        ({
            let (sr, sp) = p_assign(token_views(tokens@), *old(pos) as int, line);
            &&& *final(pos) == sp
            &&& match r {
                Ok(e) => sr == Ok::<ExprV, ErrV>(e@),
                Err(er) => sr == Err::<ExprV, ErrV>(er@),
            }
        }),
        *old(pos) <= *final(pos) <= tokens@.len(),
        r is Ok ==> *old(pos) < *final(pos),
    decreases tokens@.len() - *old(pos), 11int,
{
    let expr = match equality(tokens, pos, line) {
        Ok(e) => e,
        Err(er) => {
            return Err(er);
        },
    };
    if match_assign(tokens, pos) {
        assign_rest(tokens, pos, line, expr)
    } else {
        Ok(expr)
    }
}

/// The right-hand side of an assignment, its `=` already consumed.
#[verifier::rlimit(100)]
fn assign_rest(tokens: &Vec<Token>, pos: &mut usize, line: usize, expr: Expr) -> (r:
    InterpreterResult<Expr>)
    requires
        1 <= *old(pos) <= tokens@.len(),
    ensures
        ({
            let (sr, sp) = p_assign_tail(token_views(tokens@), *old(pos) as int, expr@, line);
            &&& *final(pos) == sp
            &&& match r {
                Ok(e) => sr == Ok::<ExprV, ErrV>(e@),
                Err(er) => sr == Err::<ExprV, ErrV>(er@),
            }
        }),
        *old(pos) <= *final(pos) <= tokens@.len(),
    decreases tokens@.len() - *old(pos), 12int,
{
    let equals_text = match previous(tokens, pos, line) {
        Ok(t) => t.text(),
        Err(e) => {
            proof {
                assert(false);
            }
            return Err(e);
        },
    };
    let value = match assign(tokens, pos, line) {
        Ok(v) => v,
        Err(er) => {
            return Err(er);
        },
    };
    match expr {
        Expr::Variable { name } => Ok(Expr::Assign { name, value: Box::new(value) }),
        _ => {
            let mut m = String::from_str("Invalid assignment target ");
            m.append(equals_text.as_str());
            Err(InterpreterError::SyntaxError { line, message: m })
        },
    }
}


/// The expression rule.
#[verifier::loop_isolation(false)]
pub fn expression(tokens: &Vec<Token>, pos: &mut usize, line: usize) -> (r: InterpreterResult<
    Expr,
>)
    requires
        *old(pos) <= tokens@.len(),
    ensures
        ({
            let (sr, sp) = p_expression(token_views(tokens@), *old(pos) as int, line);
            &&& *final(pos) == sp
            &&& match r {
                Ok(e) => sr == Ok::<ExprV, ErrV>(e@),
                Err(er) => sr == Err::<ExprV, ErrV>(er@),
            }
        }),
        *old(pos) <= *final(pos) <= tokens@.len(),
        r is Ok ==> *old(pos) < *final(pos),
    decreases tokens@.len() - *old(pos), 12int,
{
    assign(tokens, pos, line)
}


/// A variable declaration, its `var` already consumed.
#[verifier::rlimit(100)]
pub fn variable(tokens: &Vec<Token>, pos: &mut usize, line: usize) -> (r: InterpreterResult<Stmt>)
    requires
        *old(pos) <= tokens@.len(),
    ensures
        ({
            let (sr, sp) = p_variable(token_views(tokens@), *old(pos) as int, line);
            &&& *final(pos) == sp
            &&& match r {
                Ok(s) => sr == Ok::<StmtV, ErrV>(s@),
                Err(er) => sr == Err::<StmtV, ErrV>(er@),
            }
        }),
        *old(pos) <= *final(pos) <= tokens@.len(),
        r is Ok ==> *old(pos) < *final(pos),
    decreases tokens@.len() - *old(pos), 13int,
{
    let name = match identifier(tokens, pos, line) {
        Ok(t) => t,
        Err(e) => {
            return Err(e);
        },
    };
    let initializer = if match_assign(tokens, pos) {
        match expression(tokens, pos, line) {
            Ok(e) => Some(Box::new(e)),
            Err(er) => {
                return Err(er);
            },
        }
    } else {
        None
    };
    match expect_semicolon(tokens, pos, line) {
        Ok(_) => Ok(Stmt::Variable { name, initializer }),
        Err(e) => Err(e),
    }
}

/// The inside of a block, its opening brace already consumed:
/// declarations until the closing brace, which is consumed too.
#[verifier::rlimit(100)]
pub fn block(tokens: &Vec<Token>, pos: &mut usize, line: usize) -> (r: InterpreterResult<
    Vec<Stmt>,
>)
    requires
        *old(pos) <= tokens@.len(),
    ensures
        ({
            let (sr, sp) = p_block(token_views(tokens@), *old(pos) as int, line);
            &&& *final(pos) == sp
            &&& match r {
                Ok(v) => sr == Ok::<Seq<StmtV>, ErrV>(crate::stmt::stmts_view(v@)),
                Err(er) => sr == Err::<Seq<StmtV>, ErrV>(er@),
            }
        }),
        *old(pos) <= *final(pos) <= tokens@.len(),
    decreases tokens@.len() - *old(pos), 15int,
{
    let ghost tv = token_views(tokens@);
    let ghost pos0 = *old(pos);
    let mut statements: Vec<Stmt> = Vec::new();
    proof {
        assert(crate::stmt::stmts_view(statements@) =~= Seq::<StmtV>::empty());
        let (rr, pp) = p_block(tv, *pos as int, line);
        if rr is Ok {
            assert(Seq::<StmtV>::empty() + rr->Ok_0 =~= rr->Ok_0);
        }
    }
    while !check_right_brace(tokens, pos)
        invariant_except_break
            tv == token_views(tokens@),
            pos0 == *old(pos),
            pos0 <= *pos <= tokens@.len(),
            ({
                let (rr, pp) = p_block(tv, *pos as int, line);
                p_block(tv, pos0 as int, line) == (match rr {
                    Ok(ss) => (
                        Ok::<Seq<StmtV>, ErrV>(crate::stmt::stmts_view(statements@) + ss),
                        pp,
                    ),
                    Err(e) => (Err::<Seq<StmtV>, ErrV>(e), pp),
                })
            }),
        ensures
            tv == token_views(tokens@),
            pos0 <= *pos < tokens@.len(),
            tv[*pos as int] is RightBrace,
            p_block(tv, pos0 as int, line) == (
                Ok::<Seq<StmtV>, ErrV>(crate::stmt::stmts_view(statements@)),
                *pos + 1,
            ),
        decreases tokens@.len() - *pos,
    {
        let ghost pre_stmts = statements@;
        match declaration(tokens, pos, line) {
            Ok(s) => {
                let ghost sv = s@;
                statements.push(s);
                proof {
                    assert(statements@.drop_last() =~= pre_stmts);
                    assert(crate::stmt::stmts_view(statements@) =~= crate::stmt::stmts_view(
                        pre_stmts,
                    ).push(sv));
                    let (rr, pp) = p_block(tv, *pos as int, line);
                    if rr is Ok {
                        assert(crate::stmt::stmts_view(pre_stmts).push(sv) + rr->Ok_0
                            =~= crate::stmt::stmts_view(pre_stmts) + (seq![sv] + rr->Ok_0));
                    }
                }
            },
            Err(e) => {
                return Err(e);
            },
        }
    }
    match expect_right_brace(tokens, pos, line) {
        Ok(_) => Ok(statements),
        Err(e) => {
            proof {
                assert(false);
            }
            Err(e)
        },
    }
}

/// The statement rule.
#[verifier::rlimit(100)]
pub fn statement(tokens: &Vec<Token>, pos: &mut usize, line: usize) -> (r: InterpreterResult<Stmt>)
    requires
        *old(pos) <= tokens@.len(),
    ensures
        ({
            let (sr, sp) = p_statement(token_views(tokens@), *old(pos) as int, line);
            &&& *final(pos) == sp
            &&& match r {
                Ok(s) => sr == Ok::<StmtV, ErrV>(s@),
                Err(er) => sr == Err::<StmtV, ErrV>(er@),
            }
        }),
        *old(pos) <= *final(pos) <= tokens@.len(),
        r is Ok ==> *old(pos) < *final(pos),
    decreases tokens@.len() - *old(pos), 13int,
{
    if match_print(tokens, pos) {
        let expr = match expression(tokens, pos, line) {
            Ok(e) => e,
            Err(er) => {
                return Err(er);
            },
        };
        match expect_semicolon(tokens, pos, line) {
            Ok(_) => Ok(Stmt::Print { expr: Box::new(expr) }),
            Err(e) => Err(e),
        }
    } else if match_block(tokens, pos) {
        let stmts = match block(tokens, pos, line) {
            Ok(v) => v,
            Err(er) => {
                return Err(er);
            },
        };
        match expect_semicolon(tokens, pos, line) {
            Ok(_) => Ok(Stmt::Block { stmts }),
            Err(e) => Err(e),
        }
    } else {
        let expr = match expression(tokens, pos, line) {
            Ok(e) => e,
            Err(er) => {
                return Err(er);
            },
        };
        match expect_semicolon(tokens, pos, line) {
            Ok(_) => Ok(Stmt::Expr { expr: Box::new(expr) }),
            Err(e) => Err(e),
        }
    }
}

/// The declaration rule.
#[verifier::rlimit(100)]
pub fn declaration(tokens: &Vec<Token>, pos: &mut usize, line: usize) -> (r: InterpreterResult<
    Stmt,
>)
    requires
        *old(pos) <= tokens@.len(),
    ensures
        ({
            let (sr, sp) = p_declaration(token_views(tokens@), *old(pos) as int, line);
            &&& *final(pos) == sp
            &&& match r {
                Ok(s) => sr == Ok::<StmtV, ErrV>(s@),
                Err(er) => sr == Err::<StmtV, ErrV>(er@),
            }
        }),
        *old(pos) <= *final(pos) <= tokens@.len(),
        r is Ok ==> *old(pos) < *final(pos),
    decreases tokens@.len() - *old(pos), 14int,
{
    if match_var(tokens, pos) {
        variable(tokens, pos, line)
    } else {
        statement(tokens, pos, line)
    }
}

/// Panic-mode recovery: skips ahead until just past a semicolon or to
/// a token that starts a statement; reports whether a place to resume
/// was found.
pub fn synchronize(tokens: &Vec<Token>, pos: &mut usize) -> (r: bool)
    requires
        *old(pos) <= tokens@.len() < usize::MAX,
    ensures
        ({
            let (found, p2) = p_sync(token_views(tokens@), *old(pos) as int);
            &&& r == found
            &&& *final(pos) == p2
        }),
        *old(pos) < *final(pos),
        r ==> *final(pos) < tokens@.len(),
{
    let ghost tv = token_views(tokens@);
    let ghost start = *old(pos) + 1;
    *pos = *pos + 1;
    while *pos < tokens.len()
        invariant
            tv == token_views(tokens@),
            start == *old(pos) + 1,
            1 <= start <= *pos,
            *pos <= tokens@.len() + 1,
            tokens@.len() < usize::MAX,
            p_sync_rest(tv, start as int) == p_sync_rest(tv, *pos as int),
        decreases tokens@.len() - *pos,
    {
        let prev = &tokens[*pos - 1];
        match prev {
            Token::Semicolon { .. } => {
                return true;
            },
            _ => {},
        }
        let t = &tokens[*pos];
        match t {
            Token::Class { .. } => {
                return true;
            },
            Token::Fun { .. } => {
                return true;
            },
            Token::Var { .. } => {
                return true;
            },
            Token::For { .. } => {
                return true;
            },
            Token::If { .. } => {
                return true;
            },
            Token::While { .. } => {
                return true;
            },
            Token::Print { .. } => {
                return true;
            },
            Token::Return { .. } => {
                return true;
            },
            _ => {
                *pos = *pos + 1;
            },
        }
    }
    false
}

/// The token sequence with the non-semantic tokens removed.
pub fn clean_tokens(tokens: Vec<Token>) -> (r: Vec<Token>)
    ensures
        token_views(r@) == clean(token_views(tokens@)),
        r@.len() <= tokens@.len(),
{
    let ghost tv = token_views(tokens@);
    let mut out: Vec<Token> = Vec::new();
    let mut k: usize = 0;
    proof {
        assert(tv.take(0) =~= Seq::<TokenV>::empty());
        assert(token_views(out@) =~= clean(tv.take(0)));
    }
    while k < tokens.len()
        invariant
            k <= tokens@.len(),
            tv == token_views(tokens@),
            out@.len() <= k,
            token_views(out@) == clean(tv.take(k as int)),
        decreases tokens@.len() - k,
    {
        proof {
            assert(tv.take(k + 1).drop_last() =~= tv.take(k as int));
            assert(tv.take(k + 1).last() == tv[k as int]);
        }
        let t = &tokens[k];
        match t {
            Token::Comment => {},
            Token::Whitespace => {},
            _ => {
                let ghost pre = out@;
                out.push(t.dup());
                proof {
                    assert(token_views(out@) =~= token_views(pre).push(tv[k as int]));
                }
            },
        }
        k = k + 1;
    }
    proof {
        assert(tv.take(tokens@.len() as int) =~= tv);
    }
    out
}

/// Parses a token sequence: comments and whitespace are dropped, the
/// grammar is tried, and on a syntax error the parser synchronises and
/// tries again, collecting every error; at most one final statement
/// comes out, and it is the first declaration that parsed whole.
pub fn parse(tokens: Vec<Token>) -> (r: (Option<Stmt>, Vec<InterpreterError>))
    requires
        tokens@.len() < usize::MAX,
    ensures
        ({
            let (so, es) = p_parse(token_views(tokens@));
            &&& match r.0 {
                Some(s) => so == Some(s@),
                None => so is None,
            }
            &&& err_views(r.1@) == es
        }),
{
    let ghost tv0 = token_views(tokens@);
    let cleaned = clean_tokens(tokens);
    let ghost ctv = token_views(cleaned@);
    let mut pos: usize = 0;
    let mut errors: Vec<InterpreterError> = Vec::new();
    let mut final_stmt: Option<Stmt> = None;
    proof {
        assert(err_views(errors@) =~= Seq::<ErrV>::empty());
    }
    loop
        invariant_except_break
            ctv == token_views(cleaned@),
            ctv == clean(tv0),
            pos <= cleaned@.len() < usize::MAX,
            final_stmt is None,
            p_parse_loop(ctv, 0, Seq::empty()) == p_parse_loop(ctv, pos as int, err_views(errors@)),
        ensures
            ({
                let (so, es) = p_parse_loop(ctv, 0, Seq::empty());
                &&& match final_stmt {
                    Some(s) => so == Some(s@),
                    None => so is None,
                }
                &&& es == err_views(errors@)
            }),
        decreases cleaned@.len() - pos,
    {
        let ghost pre_errs = errors@;
        match declaration(&cleaned, &mut pos, 0) {
            Ok(stmt) => {
                final_stmt = Some(stmt);
                break ;
            },
            Err(err) => {
                let ghost ev = err@;
                errors.push(err);
                proof {
                    assert(err_views(errors@) =~= err_views(pre_errs).push(ev));
                }
                if !synchronize(&cleaned, &mut pos) {
                    break ;
                }
            },
        }
    }
    (final_stmt, errors)
}

} // verus!


