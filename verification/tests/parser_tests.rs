use crafting_interpreters::errors::{InterpreterError, InterpreterResult};
use crafting_interpreters::expr::Expr;
use crafting_interpreters::parser::{
    assign, comparison, declaration, equality, factor, primary, term, unary,
};
use crafting_interpreters::stmt::Stmt;
use crafting_interpreters::token::Token;

#[test]
fn parser_primary() -> InterpreterResult<()> {
    let mut pos: usize = 0;
    let ts = vec![Token::True { line: 0 }];
    assert_eq!(primary(&ts, &mut pos, 0)?, Expr::literal_bool(true));
    let mut pos: usize = 0;
    let ts = vec![Token::False { line: 0 }];
    assert_eq!(primary(&ts, &mut pos, 0)?, Expr::literal_bool(false));
    let mut pos: usize = 0;
    let ts = vec![Token::Nil { line: 0 }];
    assert_eq!(primary(&ts, &mut pos, 0)?, Expr::literal_nil());
    let mut pos: usize = 0;
    let ts = vec![Token::Number {
        lexeme: String::from("3.0"),
        literal: 3.0f32.to_bits(),
        line: 0,
    }];
    assert_eq!(primary(&ts, &mut pos, 0)?, Expr::literal_num(3.0f32.to_bits()));
    let mut pos: usize = 0;
    let ts = vec![Token::Str {
        lexeme: String::from("hello"),
        literal: String::from("hello"),
        line: 0,
    }];
    assert_eq!(primary(&ts, &mut pos, 0)?, Expr::literal_string("hello"));
    Ok(())
}

#[test]
fn parser_primary_grouping() -> InterpreterResult<()> {
    let mut pos: usize = 0;
    let ts = vec![
        Token::LeftParen { line: 0 },
        Token::Number { lexeme: String::from("3.0"), literal: 3.0f32.to_bits(), line: 0 },
        Token::RightParen { line: 0 },
    ];
    let expected = Expr::Grouping {
        expression: Box::new(Expr::literal_num(3.0f32.to_bits())),
    };
    assert_eq!(primary(&ts, &mut pos, 0)?, expected);
    let mut pos: usize = 0;
    let ts = vec![
        Token::LeftParen { line: 0 },
        Token::Number { lexeme: String::from("3.0"), literal: 3.0f32.to_bits(), line: 0 },
        Token::Semicolon { line: 0 },
    ];
    let err = primary(&ts, &mut pos, 0).unwrap_err();
    assert!(matches!(err, InterpreterError::Parse { line: 0 }));
    Ok(())
}

#[test]
fn parser_unary() -> InterpreterResult<()> {
    let mut pos: usize = 0;
    let ts = vec![Token::Bang { line: 0 }, Token::False { line: 0 }];
    let expected = Expr::Unary {
        operator: Token::Bang { line: 0 },
        right: Box::new(Expr::literal_bool(false)),
    };
    assert_eq!(unary(&ts, &mut pos, 0)?, expected);
    let mut pos: usize = 0;
    let ts = vec![
        Token::Minus { line: 0 },
        Token::Number { lexeme: String::from("3.0"), literal: 3.0f32.to_bits(), line: 0 },
    ];
    let expected = Expr::Unary {
        operator: Token::Minus { line: 0 },
        right: Box::new(Expr::literal_num(3.0f32.to_bits())),
    };
    assert_eq!(unary(&ts, &mut pos, 0)?, expected);
    Ok(())
}

#[test]
fn parser_factor() -> InterpreterResult<()> {
    let mut pos: usize = 0;
    let ts = vec![
        Token::Number { lexeme: String::from("2.0"), literal: 2.0f32.to_bits(), line: 0 },
        Token::Slash { line: 0 },
        Token::Number { lexeme: String::from("3.0"), literal: 3.0f32.to_bits(), line: 0 },
    ];
    let expected = Expr::Binary {
        left: Box::new(Expr::literal_num(2.0f32.to_bits())),
        operator: Token::Slash { line: 0 },
        right: Box::new(Expr::literal_num(3.0f32.to_bits())),
    };
    assert_eq!(factor(&ts, &mut pos, 0)?, expected);
    let mut pos: usize = 0;
    let ts = vec![
        Token::Number { lexeme: String::from("2.0"), literal: 2.0f32.to_bits(), line: 0 },
        Token::Star { line: 0 },
        Token::Number { lexeme: String::from("3.0"), literal: 3.0f32.to_bits(), line: 0 },
    ];
    let expected = Expr::Binary {
        left: Box::new(Expr::literal_num(2.0f32.to_bits())),
        operator: Token::Star { line: 0 },
        right: Box::new(Expr::literal_num(3.0f32.to_bits())),
    };
    assert_eq!(factor(&ts, &mut pos, 0)?, expected);
    Ok(())
}

#[test]
fn parser_term() -> InterpreterResult<()> {
    let mut pos: usize = 0;
    let ts = vec![
        Token::Number { lexeme: String::from("3.0"), literal: 3.0f32.to_bits(), line: 0 },
        Token::Plus { line: 0 },
        Token::Number { lexeme: String::from("2.0"), literal: 2.0f32.to_bits(), line: 0 },
    ];
    let expected = Expr::Binary {
        left: Box::new(Expr::literal_num(3.0f32.to_bits())),
        operator: Token::Plus { line: 0 },
        right: Box::new(Expr::literal_num(2.0f32.to_bits())),
    };
    assert_eq!(term(&ts, &mut pos, 0)?, expected);
    let mut pos: usize = 0;
    let ts = vec![
        Token::Number { lexeme: String::from("3.0"), literal: 3.0f32.to_bits(), line: 0 },
        Token::Minus { line: 0 },
        Token::Number { lexeme: String::from("2.0"), literal: 2.0f32.to_bits(), line: 0 },
    ];
    let expected = Expr::Binary {
        left: Box::new(Expr::literal_num(3.0f32.to_bits())),
        operator: Token::Minus { line: 0 },
        right: Box::new(Expr::literal_num(2.0f32.to_bits())),
    };
    assert_eq!(term(&ts, &mut pos, 0)?, expected);
    Ok(())
}

#[test]
fn parser_comparison() -> InterpreterResult<()> {
    let mut pos: usize = 0;
    let ts = vec![
        Token::Number { lexeme: String::from("3.0"), literal: 3.0f32.to_bits(), line: 0 },
        Token::Minus { line: 0 },
        Token::Number { lexeme: String::from("2.0"), literal: 2.0f32.to_bits(), line: 0 },
        Token::LessEqual { line: 0 },
        Token::Number { lexeme: String::from("1.0"), literal: 1.0f32.to_bits(), line: 0 },
        Token::Plus { line: 0 },
        Token::Number { lexeme: String::from("4.0"), literal: 4.0f32.to_bits(), line: 0 },
    ];
    let expected = Expr::Binary {
        left: Box::new(Expr::Binary {
            left: Box::new(Expr::literal_num(3.0f32.to_bits())),
            operator: Token::Minus { line: 0 },
            right: Box::new(Expr::literal_num(2.0f32.to_bits())),
        }),
        operator: Token::LessEqual { line: 0 },
        right: Box::new(Expr::Binary {
            left: Box::new(Expr::literal_num(1.0f32.to_bits())),
            operator: Token::Plus { line: 0 },
            right: Box::new(Expr::literal_num(4.0f32.to_bits())),
        }),
    };
    assert_eq!(comparison(&ts, &mut pos, 0)?, expected);
    Ok(())
}

#[test]
fn parser_equality() -> InterpreterResult<()> {
    let mut pos: usize = 0;
    let ts = vec![
        Token::Str { lexeme: String::from("foo"), literal: String::from("foo"), line: 0 },
        Token::EqualEqual { line: 0 },
        Token::Str { lexeme: String::from("foo"), literal: String::from("foo"), line: 0 },
    ];
    let expected = Expr::Binary {
        left: Box::new(Expr::literal_string("foo")),
        operator: Token::EqualEqual { line: 0 },
        right: Box::new(Expr::literal_string("foo")),
    };
    assert_eq!(equality(&ts, &mut pos, 0)?, expected);
    Ok(())
}

#[test]
fn parser_variable_initializer() -> InterpreterResult<()> {
    let mut pos: usize = 0;
    let ts = vec![
        Token::Var { line: 0 },
        Token::Identifier { lexeme: String::from("foo"), literal: String::from("foo"), line: 0 },
        Token::Equal { line: 0 },
        Token::Number { lexeme: String::from("3.0"), literal: 3.0f32.to_bits(), line: 0 },
        Token::Semicolon { line: 0 },
    ];
    let expected = Stmt::Variable {
        name: Token::Identifier {
            lexeme: String::from("foo"),
            literal: String::from("foo"),
            line: 0,
        },
        initializer: Some(Box::new(Expr::literal_num(3.0f32.to_bits()))),
    };
    let actual = declaration(&ts, &mut pos, 0)?;
    println!("{:?}", actual);
    assert_eq!(actual, expected);
    Ok(())
}

#[test]
fn parser_variable_no_initializer() -> InterpreterResult<()> {
    let mut pos: usize = 0;
    let ts = vec![
        Token::Var { line: 0 },
        Token::Identifier { lexeme: String::from("foo"), literal: String::from("foo"), line: 0 },
        Token::Semicolon { line: 0 },
    ];
    let expected = Stmt::Variable {
        name: Token::Identifier {
            lexeme: String::from("foo"),
            literal: String::from("foo"),
            line: 0,
        },
        initializer: None,
    };
    assert_eq!(declaration(&ts, &mut pos, 0)?, expected);
    Ok(())
}

#[test]
fn parser_assign() -> InterpreterResult<()> {
    let mut pos = 0_usize;
    let ts = vec![
        Token::Identifier { lexeme: String::from("foo"), literal: String::from("foo"), line: 0 },
        Token::Equal { line: 0 },
        Token::Number { lexeme: String::from("3.0"), literal: 3.0f32.to_bits(), line: 0 },
    ];
    let expected = Expr::Assign {
        name: Token::Identifier {
            lexeme: String::from("foo"),
            literal: String::from("foo"),
            line: 0,
        },
        value: Box::new(Expr::literal_num(3.0f32.to_bits())),
    };
    assert_eq!(assign(&ts, &mut pos, 0)?, expected);
    Ok(())
}
