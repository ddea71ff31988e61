use crafting_interpreters::errors::{InterpreterError, InterpreterResult};
use crafting_interpreters::Runner;
use crafting_interpreters::expr::Expr;
use crafting_interpreters::interpreter::Interpreter;
use crafting_interpreters::parser::{clean_tokens, expression, parse};
use crafting_interpreters::scanner::scan_tokens;
use crafting_interpreters::stmt::Stmt;
use crafting_interpreters::token::Token;
use crafting_interpreters::value::Value;

fn parse_expression(source: &str) -> InterpreterResult<Expr> {
    let tokens = scan_tokens(source.into())?;
    let cleaned = clean_tokens(tokens);
    let mut pos: usize = 0;
    expression(&cleaned, &mut pos, 0)
}

fn parse_statement(source: &str) -> Stmt {
    let tokens = scan_tokens(source.into()).unwrap();
    let (stmt, errs) = parse(tokens);
    match stmt {
        Some(s) => s,
        None => panic!("no statement parsed: {:?}", errs),
    }
}

#[test]
fn binary_operator_round_trips_through_print() -> InterpreterResult<()> {
    let cases = [
        ("1 + 2", "(+ 1 2)"),
        ("1 - 2", "(- 1 2)"),
        ("1 * 2", "(* 1 2)"),
        ("1 / 2", "(/ 1 2)"),
        ("1 > 2", "(> 1 2)"),
        ("1 >= 2", "(>= 1 2)"),
        ("1 < 2", "(< 1 2)"),
        ("1 <= 2", "(<= 1 2)"),
        ("1 == 2", "(== 1 2)"),
        ("1 != 2", "(!= 1 2)"),
    ];
    for (source, expected) in cases {
        let e = parse_expression(source)?;
        assert_eq!(e.print()?, String::from(expected));
    }
    Ok(())
}

#[test]
fn comments_and_whitespace_do_not_change_the_parse() -> InterpreterResult<()> {
    let with_noise = parse_expression("1  //c\n+2")?;
    let bare = parse_expression("1+2")?;
    assert_eq!(with_noise.print()?, bare.print()?);
    assert_eq!(bare.print()?, String::from("(+ 1 2)"));
    Ok(())
}

#[test]
fn declared_variable_reads_back_as_its_initializer() -> InterpreterResult<()> {
    let mut interpreter = Interpreter::default();
    interpreter.interpret(&parse_statement("var answer = 40 + 2;"))?;
    let direct = Interpreter::default().interpret_expr(&parse_expression("40 + 2")?)?;
    assert_eq!(interpreter.get_variable("answer", &0)?, direct);
    Ok(())
}

#[test]
fn assignment_never_defines() {
    let mut interpreter = Interpreter::default();
    let res = interpreter.interpret(&parse_statement("foo = 3;"));
    assert!(matches!(res, Err(InterpreterError::UndefinedVariable { .. })));
    assert!(matches!(
        interpreter.get_variable("foo", &0),
        Err(InterpreterError::UndefinedVariable { .. })
    ));
}

#[test]
fn block_isolation() -> InterpreterResult<()> {
    let mut interpreter = Interpreter::default();
    interpreter.interpret(&parse_statement("var a = 1;"))?;
    interpreter.interpret(&parse_statement("{ var a = 2; };"))?;
    assert_eq!(interpreter.get_variable("a", &0)?, Value::Number(1.0f32.to_bits()));
    interpreter.interpret(&parse_statement("var b = 1;"))?;
    interpreter.interpret(&parse_statement("{ b = 2; };"))?;
    assert_eq!(interpreter.get_variable("b", &0)?, Value::Number(2.0f32.to_bits()));
    let inner = interpreter.interpret(&parse_statement("{ var c = 3; };"))?;
    assert_eq!(inner, Value::Nil);
    assert!(matches!(
        interpreter.get_variable("c", &0),
        Err(InterpreterError::UndefinedVariable { .. })
    ));
    Ok(())
}

#[test]
fn plus_dispatch_through_the_pipeline() -> InterpreterResult<()> {
    let mut interpreter = Interpreter::default();
    assert_eq!(
        interpreter.interpret_expr(&parse_expression("1 + 1")?)?,
        Value::Number(2.0f32.to_bits())
    );
    assert_eq!(
        interpreter.interpret_expr(&parse_expression("\"hello\" + \" there\"")?)?,
        Value::Str(String::from("hello there"))
    );
    match interpreter.interpret_expr(&parse_expression("3 - \"hello\"")?) {
        Err(InterpreterError::Type { expected_type, actual_type, line }) => {
            assert_eq!(expected_type, String::from("number"));
            assert_eq!(actual_type, String::from("string"));
            assert_eq!(line, Some(1));
        }
        other => panic!("expected a type error, got {:?}", other),
    }
    Ok(())
}

#[test]
fn comparison_on_non_numeric_carries_operator_line() -> InterpreterResult<()> {
    let mut interpreter = Interpreter::default();
    match interpreter.interpret_expr(&parse_expression("3 >\n\"hello\"")?) {
        Err(InterpreterError::Type { expected_type, actual_type, line }) => {
            assert_eq!(expected_type, String::from("number"));
            assert_eq!(actual_type, String::from("string"));
            assert_eq!(line, Some(1));
        }
        other => panic!("expected a type error, got {:?}", other),
    }
    Ok(())
}

#[test]
fn equality_across_types_through_the_pipeline() -> InterpreterResult<()> {
    let mut interpreter = Interpreter::default();
    for source in ["1 == \"1.0\"", "false == nil", "true == \"true\""] {
        assert_eq!(
            interpreter.interpret_expr(&parse_expression(source)?)?,
            Value::Bool(false)
        );
    }
    Ok(())
}

#[test]
fn parse_collects_errors_and_recovers() {
    let tokens = scan_tokens("+; var foo = 3;".into()).unwrap();
    let (stmt, errs) = parse(tokens);
    assert!(stmt.is_some());
    assert_eq!(errs.len(), 1);
}

#[test]
fn invalid_assignment_target_is_a_syntax_error() {
    let tokens = scan_tokens("1 = 2;".into()).unwrap();
    let (stmt, errs) = parse(tokens);
    assert!(stmt.is_none());
    assert!(errs
        .iter()
        .any(|e| matches!(e, InterpreterError::SyntaxError { .. })));
}

#[test]
fn error_display_texts() {
    let e = InterpreterError::Type {
        expected_type: String::from("number"),
        actual_type: String::from("string"),
        line: Some(3),
    };
    assert_eq!(
        e.message_text(),
        String::from("Type error on line 3: expected number, got string")
    );
    let e = InterpreterError::Parse { line: 12 };
    assert_eq!(e.message_text(), String::from("Error parsing code on line 12"));
    let e = InterpreterError::Interpreter { line: 2, message: String::from("Unknown token #") };
    assert_eq!(e.message_text(), String::from("[2] Error: Unknown token #"));
}

#[test]
fn number_display_through_print_statement() -> InterpreterResult<()> {
    let mut interpreter = Interpreter::default();
    interpreter.interpret(&parse_statement("print 3 / 2;"))?;
    interpreter.interpret(&parse_statement("print 32.50;"))?;
    interpreter.interpret(&parse_statement("print 0.1;"))?;
    interpreter.interpret(&parse_statement("print 100000;"))?;
    interpreter.interpret(&parse_statement("print 2;"))?;
    assert_eq!(
        interpreter.output(),
        &vec![
            String::from("1.5"),
            String::from("32.5"),
            String::from("0.1"),
            String::from("100000"),
            String::from("2"),
        ]
    );
    Ok(())
}

#[test]
fn missing_closing_paren_is_tagged_with_open_line() {
    let tokens = scan_tokens("(1 + 2;".into()).unwrap();
    let (stmt, errs) = parse(tokens);
    assert!(stmt.is_none());
    assert!(errs
        .iter()
        .any(|e| matches!(e, InterpreterError::Parse { line: 1 })));
}

#[test]
fn runner_runs_units_and_reports_errors() {
    let mut runner = Runner::default();
    assert!(runner.run(String::from("var a = 1;")).is_ok());
    assert!(runner.run(String::from("print a + 1;")).is_ok());
    assert!(matches!(
        runner.run(String::from("b = 1;")),
        Err(InterpreterError::UndefinedVariable { .. })
    ));
    assert!(matches!(
        runner.run(String::from("\"unterminated")),
        Err(InterpreterError::Parse { line: 1 })
    ));
}
