use crafting_interpreters::errors::{InterpreterError, InterpreterResult};
use crafting_interpreters::expr::Expr;
use crafting_interpreters::interpreter::Interpreter;
use crafting_interpreters::stmt::Stmt;
use crafting_interpreters::token::Token;
use crafting_interpreters::value::Value;

#[test]
fn interpreter_literal() -> InterpreterResult<()> {
    let mut interpreter = Interpreter::default();
    let e = Expr::literal_string("hello");
    assert_eq!(
        interpreter.interpret_expr(&e)?,
        Value::Str(String::from("hello"))
    );
    let e = Expr::literal_num(3.0f32.to_bits());
    assert_eq!(interpreter.interpret_expr(&e)?, Value::Number(3.0f32.to_bits()));
    let e = Expr::literal_bool(true);
    assert_eq!(interpreter.interpret_expr(&e)?, Value::Bool(true));
    let e = Expr::literal_nil();
    assert_eq!(interpreter.interpret_expr(&e)?, Value::Nil);
    Ok(())
}

#[test]
fn interpreter_grouping() -> InterpreterResult<()> {
    let mut interpreter = Interpreter::default();
    let e = Expr::Grouping {
        expression: Box::new(Expr::literal_num(3.0f32.to_bits())),
    };
    assert_eq!(interpreter.interpret_expr(&e)?, Value::Number(3.0f32.to_bits()));
    Ok(())
}

#[test]
fn interpreter_unary_ok() -> InterpreterResult<()> {
    let mut interpreter = Interpreter::default();
    let e = Expr::Unary {
        operator: Token::Minus { line: 1 },
        right: Box::new(Expr::literal_num(3.0f32.to_bits())),
    };
    assert_eq!(interpreter.interpret_expr(&e)?, Value::Number((-3.0f32).to_bits()));
    let e = Expr::Unary {
        operator: Token::Bang { line: 1 },
        right: Box::new(Expr::literal_bool(true)),
    };
    assert_eq!(interpreter.interpret_expr(&e)?, Value::Bool(false));
    Ok(())
}

#[test]
fn interpreter_unary_not_ok() {
    let mut interpreter = Interpreter::default();
    let e = Expr::Unary {
        operator: Token::Minus { line: 1 },
        right: Box::new(Expr::literal_string("foo")),
    };
    if let Err(InterpreterError::Type { line, expected_type, actual_type }) =
        interpreter.interpret_expr(&e)
    {
        assert_eq!(Some(1), line);
        assert_eq!(String::from("number"), expected_type);
        assert_eq!(String::from("string"), actual_type);
    } else {
        panic!("no error negating string")
    }
    let e = Expr::Unary {
        operator: Token::Bang { line: 1 },
        right: Box::new(Expr::literal_string("foo")),
    };
    if let Err(InterpreterError::Type { line, expected_type, actual_type }) =
        interpreter.interpret_expr(&e)
    {
        assert_eq!(Some(1), line);
        assert_eq!(String::from("boolean"), expected_type);
        assert_eq!(String::from("string"), actual_type);
    } else {
        panic!("no error notting string")
    }
}

#[test]
fn interpreter_binary_ok() -> InterpreterResult<()> {
    let mut interpreter = Interpreter::default();
    let e = Expr::Binary {
        operator: Token::Minus { line: 1 },
        left: Box::new(Expr::literal_num(3.0f32.to_bits())),
        right: Box::new(Expr::literal_num(2.0f32.to_bits())),
    };
    assert_eq!(interpreter.interpret_expr(&e)?, Value::Number(1.0f32.to_bits()));
    let e = Expr::Binary {
        operator: Token::Slash { line: 1 },
        left: Box::new(Expr::literal_num(4.0f32.to_bits())),
        right: Box::new(Expr::literal_num(2.0f32.to_bits())),
    };
    assert_eq!(interpreter.interpret_expr(&e)?, Value::Number(2.0f32.to_bits()));
    let e = Expr::Binary {
        operator: Token::Greater { line: 1 },
        left: Box::new(Expr::literal_num(2.0f32.to_bits())),
        right: Box::new(Expr::literal_num(1.0f32.to_bits())),
    };
    assert_eq!(interpreter.interpret_expr(&e)?, Value::Bool(true));
    let e = Expr::Binary {
        operator: Token::Less { line: 1 },
        left: Box::new(Expr::literal_num(2.0f32.to_bits())),
        right: Box::new(Expr::literal_num(1.0f32.to_bits())),
    };
    assert_eq!(interpreter.interpret_expr(&e)?, Value::Bool(false));
    let e = Expr::Binary {
        operator: Token::GreaterEqual { line: 1 },
        left: Box::new(Expr::literal_num(2.0f32.to_bits())),
        right: Box::new(Expr::literal_num(1.0f32.to_bits())),
    };
    assert_eq!(interpreter.interpret_expr(&e)?, Value::Bool(true));
    let e = Expr::Binary {
        operator: Token::LessEqual { line: 1 },
        left: Box::new(Expr::literal_num(2.0f32.to_bits())),
        right: Box::new(Expr::literal_num(1.0f32.to_bits())),
    };
    assert_eq!(interpreter.interpret_expr(&e)?, Value::Bool(false));
    Ok(())
}

#[test]
fn interpreter_binary_plus_ok() -> InterpreterResult<()> {
    let mut interpreter = Interpreter::default();
    let e = Expr::Binary {
        operator: Token::Plus { line: 1 },
        left: Box::new(Expr::literal_num(1.0f32.to_bits())),
        right: Box::new(Expr::literal_num(1.0f32.to_bits())),
    };
    assert_eq!(interpreter.interpret_expr(&e)?, Value::Number(2.0f32.to_bits()));
    let e = Expr::Binary {
        operator: Token::Plus { line: 1 },
        left: Box::new(Expr::literal_string("hello")),
        right: Box::new(Expr::literal_string(" there")),
    };
    assert_eq!(
        interpreter.interpret_expr(&e)?,
        Value::Str(String::from("hello there"))
    );
    Ok(())
}

#[test]
fn interpreter_binary_not_ok() {
    let mut interpreter = Interpreter::default();
    let ops = [
        (Token::Minus { line: 1 }, "no error subtracting string from number"),
        (Token::Slash { line: 1 }, "no error dividing number by string"),
        (Token::Star { line: 1 }, "no error multiplying number by string"),
        (Token::Greater { line: 1 }, "no error comparing number gt string"),
        (Token::Less { line: 1 }, "no error comparing number lt string"),
        (Token::GreaterEqual { line: 1 }, "no error comparing number gte string"),
        (Token::LessEqual { line: 1 }, "no error comparing number lte string"),
    ];
    for (op, msg) in ops {
        let e = Expr::Binary {
            operator: op,
            left: Box::new(Expr::literal_num(3.0f32.to_bits())),
            right: Box::new(Expr::literal_string("hello")),
        };
        if let Err(InterpreterError::Type { line, actual_type, expected_type }) =
            interpreter.interpret_expr(&e)
        {
            assert_eq!(Some(1), line);
            assert_eq!(String::from("number"), expected_type);
            assert_eq!(String::from("string"), actual_type);
        } else {
            panic!("{}", msg);
        }
    }
}

#[test]
fn interpreter_binary_eq_same_type() -> InterpreterResult<()> {
    let mut interpreter = Interpreter::default();
    let e = Expr::Binary {
        operator: Token::EqualEqual { line: 1 },
        left: Box::new(Expr::literal_num(1.0f32.to_bits())),
        right: Box::new(Expr::literal_num(1.0f32.to_bits())),
    };
    assert_eq!(interpreter.interpret_expr(&e)?, Value::Bool(true));
    let e = Expr::Binary {
        operator: Token::EqualEqual { line: 1 },
        left: Box::new(Expr::literal_num(1.0f32.to_bits())),
        right: Box::new(Expr::literal_num(2.0f32.to_bits())),
    };
    assert_eq!(interpreter.interpret_expr(&e)?, Value::Bool(false));
    let e = Expr::Binary {
        operator: Token::EqualEqual { line: 1 },
        left: Box::new(Expr::literal_string("hi")),
        right: Box::new(Expr::literal_string("hi")),
    };
    assert_eq!(interpreter.interpret_expr(&e)?, Value::Bool(true));
    let e = Expr::Binary {
        operator: Token::EqualEqual { line: 1 },
        left: Box::new(Expr::literal_string("hi")),
        right: Box::new(Expr::literal_string("bye")),
    };
    assert_eq!(interpreter.interpret_expr(&e)?, Value::Bool(false));
    let e = Expr::Binary {
        operator: Token::EqualEqual { line: 1 },
        left: Box::new(Expr::literal_bool(true)),
        right: Box::new(Expr::literal_bool(true)),
    };
    assert_eq!(interpreter.interpret_expr(&e)?, Value::Bool(true));
    let e = Expr::Binary {
        operator: Token::EqualEqual { line: 1 },
        left: Box::new(Expr::literal_bool(true)),
        right: Box::new(Expr::literal_bool(false)),
    };
    assert_eq!(interpreter.interpret_expr(&e)?, Value::Bool(false));
    let e = Expr::Binary {
        operator: Token::EqualEqual { line: 1 },
        left: Box::new(Expr::literal_nil()),
        right: Box::new(Expr::literal_nil()),
    };
    assert_eq!(interpreter.interpret_expr(&e)?, Value::Bool(true));
    Ok(())
}

#[test]
fn interpreter_binary_eq_different_types() -> InterpreterResult<()> {
    let mut interpreter = Interpreter::default();
    let e = Expr::Binary {
        operator: Token::EqualEqual { line: 1 },
        left: Box::new(Expr::literal_num(1.0f32.to_bits())),
        right: Box::new(Expr::literal_string("1.0")),
    };
    assert_eq!(interpreter.interpret_expr(&e)?, Value::Bool(false));
    let e = Expr::Binary {
        operator: Token::EqualEqual { line: 1 },
        left: Box::new(Expr::literal_string("true")),
        right: Box::new(Expr::literal_bool(true)),
    };
    assert_eq!(interpreter.interpret_expr(&e)?, Value::Bool(false));
    let e = Expr::Binary {
        operator: Token::EqualEqual { line: 1 },
        left: Box::new(Expr::literal_bool(false)),
        right: Box::new(Expr::literal_nil()),
    };
    assert_eq!(interpreter.interpret_expr(&e)?, Value::Bool(false));
    Ok(())
}

#[test]
fn interpreter_define_variable_initializer() -> InterpreterResult<()> {
    let mut interpreter = Interpreter::default();
    let s = Stmt::Variable {
        name: Token::Identifier {
            literal: String::from("foo"),
            lexeme: String::from("foo"),
            line: 0,
        },
        initializer: Some(Box::new(Expr::literal_num(3.0f32.to_bits()))),
    };
    interpreter.interpret(&s)?;
    assert_eq!(interpreter.get_variable("foo", &0)?, Value::Number(3.0f32.to_bits()));
    Ok(())
}

#[test]
fn interpreter_define_variable_no_initializer() -> InterpreterResult<()> {
    let mut interpreter = Interpreter::default();
    let s = Stmt::Variable {
        name: Token::Identifier {
            literal: String::from("foo"),
            lexeme: String::from("foo"),
            line: 0,
        },
        initializer: None,
    };
    interpreter.interpret(&s)?;
    assert_eq!(interpreter.get_variable("foo", &0)?, Value::Nil);
    Ok(())
}

#[test]
fn interpreter_assign_ok() -> InterpreterResult<()> {
    let mut interpreter = Interpreter::default();
    let s = Stmt::Expr {
        expr: Box::new(Expr::Assign {
            name: Token::Identifier {
                line: 0,
                literal: String::from("foo"),
                lexeme: String::from("foo"),
            },
            value: Box::new(Expr::literal_num(3.0f32.to_bits())),
        }),
    };
    interpreter.define(String::from("foo"), Value::Number(2.0f32.to_bits()));
    assert_eq!(interpreter.interpret(&s)?, Value::Number(3.0f32.to_bits()));
    assert_eq!(interpreter.get_variable("foo", &0)?, Value::Number(3.0f32.to_bits()));
    Ok(())
}

#[test]
fn interpreter_assign_err() {
    let mut interpreter = Interpreter::default();
    let s = Stmt::Expr {
        expr: Box::new(Expr::Assign {
            name: Token::Identifier {
                line: 0,
                literal: String::from("foo"),
                lexeme: String::from("foo"),
            },
            value: Box::new(Expr::literal_num(3.0f32.to_bits())),
        }),
    };
    assert!(matches!(
        interpreter.interpret(&s),
        Err(InterpreterError::UndefinedVariable { .. })
    ));
}

#[test]
fn interpreter_block_prints_inner_shadow() -> InterpreterResult<()> {
    let v_name = "foo";
    let mut interpreter = Interpreter::default();
    let s = Stmt::Block {
        stmts: vec![
            Stmt::Variable {
                name: Token::Identifier {
                    literal: String::from(v_name),
                    lexeme: String::from(v_name),
                    line: 0,
                },
                initializer: Some(Box::new(Expr::literal_num(2.0f32.to_bits()))),
            },
            Stmt::Print {
                expr: Box::new(Expr::Variable {
                    name: Token::Identifier {
                        literal: String::from(v_name),
                        lexeme: String::from(v_name),
                        line: 0,
                    },
                }),
            },
        ],
    };
    interpreter.define(String::from(v_name), Value::Number(3.0f32.to_bits()));
    interpreter.interpret(&s)?;
    assert_eq!(interpreter.output(), &vec![String::from("2")]);
    assert_eq!(interpreter.get_variable(v_name, &0)?, Value::Number(3.0f32.to_bits()));
    Ok(())
}
