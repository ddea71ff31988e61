use crafting_interpreters::errors::InterpreterResult;
use crafting_interpreters::expr::Expr;
use crafting_interpreters::token::Token;

#[test]
fn expr_print_literal() -> InterpreterResult<()> {
    let e = Expr::literal_string("hello");
    assert_eq!(e.print()?, String::from("hello"));
    let e = Expr::literal_num(3.0f32.to_bits());
    assert_eq!(e.print()?, String::from("3"));
    let e = Expr::literal_nil();
    assert_eq!(e.print()?, String::from("nil"));
    Ok(())
}

#[test]
fn expr_grouping() -> InterpreterResult<()> {
    let e = Expr::Grouping { expression: Box::new(Expr::literal_nil()) };
    assert_eq!(e.print()?, String::from("(grouping nil)"));
    Ok(())
}

#[test]
fn expr_binary() -> InterpreterResult<()> {
    let e = Expr::Binary {
        left: Box::new(Expr::literal_num(1.0f32.to_bits())),
        operator: Token::Plus { line: 0 },
        right: Box::new(Expr::literal_num(2.0f32.to_bits())),
    };
    assert_eq!(e.print()?, String::from("(+ 1 2)"));
    Ok(())
}

#[test]
fn expr_unary() -> InterpreterResult<()> {
    let e = Expr::Unary {
        operator: Token::Minus { line: 0 },
        right: Box::new(Expr::literal_num(1.0f32.to_bits())),
    };
    assert_eq!(e.print()?, String::from("(- 1)"));
    Ok(())
}
