use crafting_interpreters::errors::{InterpreterError, InterpreterResult};
use crafting_interpreters::scanner::scan_tokens;
use crafting_interpreters::token::Token;

fn st(s: &str) -> InterpreterResult<Vec<Token>> {
    scan_tokens(s.into())
}

#[test]
fn scanner_singletons() -> InterpreterResult<()> {
    assert_eq!(Token::LeftParen { line: 1 }, st("(")?[0]);
    assert_eq!(Token::RightParen { line: 1 }, st(")")?[0]);
    assert_eq!(Token::LeftBrace { line: 1 }, st("{")?[0]);
    assert_eq!(Token::RightBrace { line: 1 }, st("}")?[0]);
    assert_eq!(Token::Comma { line: 1 }, st(",")?[0]);
    assert_eq!(Token::Dot { line: 1 }, st(".")?[0]);
    assert_eq!(Token::Minus { line: 1 }, st("-")?[0]);
    assert_eq!(Token::Plus { line: 1 }, st("+")?[0]);
    assert_eq!(Token::Semicolon { line: 1 }, st(";")?[0]);
    assert_eq!(Token::Star { line: 1 }, st("*")?[0]);
    Ok(())
}

#[test]
fn scanner_bang() -> InterpreterResult<()> {
    assert_eq!(Token::BangEqual { line: 1 }, st("!=")?[0]);
    assert_eq!(Token::Bang { line: 1 }, st("!")?[0]);
    let res = st("!,")?;
    assert_eq!(Token::Bang { line: 1 }, res[0]);
    assert_eq!(Token::Comma { line: 1 }, res[1]);
    let res = st("!=,")?;
    assert_eq!(Token::BangEqual { line: 1 }, res[0]);
    assert_eq!(Token::Comma { line: 1 }, res[1]);
    Ok(())
}

#[test]
fn scanner_eq() -> InterpreterResult<()> {
    assert_eq!(Token::Equal { line: 1 }, st("=")?[0]);
    assert_eq!(Token::EqualEqual { line: 1 }, st("==")?[0]);
    let res = st("=,")?;
    assert_eq!(Token::Equal { line: 1 }, res[0]);
    assert_eq!(Token::Comma { line: 1 }, res[1]);
    let res = st("==,")?;
    assert_eq!(Token::EqualEqual { line: 1 }, res[0]);
    assert_eq!(Token::Comma { line: 1 }, res[1]);
    Ok(())
}

#[test]
fn scanner_lt() -> InterpreterResult<()> {
    assert_eq!(Token::Less { line: 1 }, st("<")?[0]);
    assert_eq!(Token::LessEqual { line: 1 }, st("<=")?[0]);
    let res = st("<,")?;
    assert_eq!(Token::Less { line: 1 }, res[0]);
    assert_eq!(Token::Comma { line: 1 }, res[1]);
    let res = st("<=,")?;
    assert_eq!(Token::LessEqual { line: 1 }, res[0]);
    assert_eq!(Token::Comma { line: 1 }, res[1]);
    Ok(())
}

#[test]
fn scanner_gt() -> InterpreterResult<()> {
    assert_eq!(Token::Greater { line: 1 }, st(">")?[0]);
    assert_eq!(Token::GreaterEqual { line: 1 }, st(">=")?[0]);
    let res = st(">,")?;
    assert_eq!(Token::Greater { line: 1 }, res[0]);
    assert_eq!(Token::Comma { line: 1 }, res[1]);
    let res = st(">=,")?;
    assert_eq!(Token::GreaterEqual { line: 1 }, res[0]);
    assert_eq!(Token::Comma { line: 1 }, res[1]);
    Ok(())
}

#[test]
fn scanner_slash() -> InterpreterResult<()> {
    assert_eq!(Token::Comment, st("// comment\n")?[0]);
    assert_eq!(Token::Slash { line: 1 }, st("/")?[0]);
    let res = st("/,")?;
    assert_eq!(Token::Slash { line: 1 }, res[0]);
    assert_eq!(Token::Comma { line: 1 }, res[1]);
    let res = st("// comment\n,")?;
    assert_eq!(Token::Comment, res[0]);
    assert_eq!(Token::Whitespace, res[1]);
    assert_eq!(Token::Comma { line: 2 }, res[2]);
    Ok(())
}

#[test]
fn scanner_string() -> InterpreterResult<()> {
    let res = st("\"foo\"")?;
    assert_eq!(
        Token::Str { lexeme: "foo".into(), literal: "foo".into(), line: 1 },
        res[0]
    );
    let res = st("\"foo\nbar\"")?;
    assert_eq!(
        Token::Str { lexeme: "foo\nbar".into(), literal: "foo\nbar".into(), line: 1 },
        res[0]
    );
    let res = st("\"foo,\",")?;
    assert_eq!(
        Token::Str { lexeme: "foo,".into(), literal: "foo,".into(), line: 1 },
        res[0]
    );
    assert_eq!(Token::Comma { line: 1 }, res[1]);
    Ok(())
}

#[test]
fn scanner_whitespace_dont_inc_line() -> InterpreterResult<()> {
    assert_eq!(Token::Whitespace, st(" ")?[0]);
    assert_eq!(Token::Whitespace, st("\t")?[0]);
    assert_eq!(Token::Whitespace, st("     \t\t\r   ")?[0]);
    Ok(())
}

#[test]
fn scanner_whitespace_inc_line() -> InterpreterResult<()> {
    let res = st("  ,\n,  ")?;
    assert_eq!(Token::Whitespace, res[0]);
    assert_eq!(Token::Comma { line: 1 }, res[1]);
    assert_eq!(Token::Whitespace, res[2]);
    assert_eq!(Token::Comma { line: 2 }, res[3]);
    assert_eq!(Token::Whitespace, res[4]);
    Ok(())
}

#[test]
fn scanner_number() -> InterpreterResult<()> {
    assert_eq!(
        Token::Number { lexeme: "32".into(), literal: 32.0f32.to_bits(), line: 1 },
        st("32")?[0]
    );
    assert_eq!(
        Token::Number { lexeme: "32.50".into(), literal: 32.5f32.to_bits(), line: 1 },
        st("32.50")?[0]
    );
    let res = st("32.50.3")?;
    assert_eq!(
        Token::Number { lexeme: "32.50".into(), literal: 32.5f32.to_bits(), line: 1 },
        res[0]
    );
    assert_eq!(Token::Dot { line: 1 }, res[1]);
    assert_eq!(
        Token::Number { lexeme: "3".into(), literal: 3.0f32.to_bits(), line: 1 },
        res[2]
    );
    let res = st("32.,")?;
    assert_eq!(
        Token::Number { lexeme: "32".into(), literal: 32.0f32.to_bits(), line: 1 },
        res[0]
    );
    assert_eq!(Token::Dot { line: 1 }, res[1]);
    assert_eq!(Token::Comma { line: 1 }, res[2]);
    Ok(())
}

#[test]
fn scanner_non_reserved_identifier() -> InterpreterResult<()> {
    assert_eq!(
        Token::Identifier { lexeme: "_foo".into(), literal: "_foo".into(), line: 1 },
        st("_foo")?[0]
    );
    let res = st("1foo")?;
    assert_eq!(
        Token::Number { lexeme: "1".into(), literal: 1.0f32.to_bits(), line: 1 },
        res[0]
    );
    assert_eq!(
        Token::Identifier { lexeme: "foo".into(), literal: "foo".into(), line: 1 },
        res[1]
    );
    assert_eq!(
        Token::Identifier { lexeme: "organ".into(), literal: "organ".into(), line: 1 },
        st("organ")?[0]
    );
    Ok(())
}

#[test]
fn scanner_reserved_identifier() -> InterpreterResult<()> {
    assert_eq!(Token::And { line: 1 }, st("and")?[0]);
    assert_eq!(Token::Class { line: 1 }, st("class")?[0]);
    assert_eq!(Token::Else { line: 1 }, st("else")?[0]);
    assert_eq!(Token::False { line: 1 }, st("false")?[0]);
    assert_eq!(Token::For { line: 1 }, st("for")?[0]);
    assert_eq!(Token::Fun { line: 1 }, st("fun")?[0]);
    assert_eq!(Token::If { line: 1 }, st("if")?[0]);
    assert_eq!(Token::Nil { line: 1 }, st("nil")?[0]);
    assert_eq!(Token::Or { line: 1 }, st("or")?[0]);
    assert_eq!(Token::Print { line: 1 }, st("print")?[0]);
    assert_eq!(Token::Return { line: 1 }, st("return")?[0]);
    assert_eq!(Token::Super { line: 1 }, st("super")?[0]);
    assert_eq!(Token::This { line: 1 }, st("this")?[0]);
    assert_eq!(Token::True { line: 1 }, st("true")?[0]);
    assert_eq!(Token::Var { line: 1 }, st("var")?[0]);
    assert_eq!(Token::While { line: 1 }, st("while")?[0]);
    Ok(())
}

#[test]
fn scanner_unterminated_string_is_lexical_error() {
    assert!(matches!(st("\"foo"), Err(InterpreterError::Parse { line: 1 })));
}

#[test]
fn scanner_unknown_character_is_lexical_error() {
    assert!(matches!(st("#"), Err(InterpreterError::Parse { line: 1 })));
}

#[test]
fn scanner_appends_eof_with_final_line() -> InterpreterResult<()> {
    let res = st("1\n2")?;
    assert_eq!(Token::Eof { line: 2 }, res[res.len() - 1]);
    Ok(())
}

#[test]
fn scanner_literal_close_to_float() -> InterpreterResult<()> {
    for s in ["0.1", "32.50", "123.456", "0.0001", "7"] {
        let res = st(s)?;
        match &res[0] {
            Token::Number { literal, .. } => {
                let parsed: f32 = s.parse().unwrap();
                let scanned = f32::from_bits(*literal);
                assert!((scanned - parsed).abs() <= 0.0001);
            }
            t => panic!("expected a number token, got {:?}", t),
        }
    }
    Ok(())
}
