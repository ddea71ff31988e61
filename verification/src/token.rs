use crate::numeric::fmt_bits;
use vstd::prelude::*;

verus! {

// One lexical unit.  Every semantically meaningful token carries the
// 1-based source line on which it began; `Comment` and `Whitespace`
// are non-semantic and carry none.  A number's literal is the bit
// pattern of the single-precision value its lexeme denotes.

#[derive(Debug, Clone, PartialEq)]
pub enum Token {
    // single-character tokens
    LeftParen { line: usize },
    RightParen { line: usize },
    LeftBrace { line: usize },
    RightBrace { line: usize },
    Comma { line: usize },
    Dot { line: usize },
    Minus { line: usize },
    Plus { line: usize },
    Semicolon { line: usize },
    Slash { line: usize },
    Star { line: usize },
    // one or two character tokens
    Bang { line: usize },
    BangEqual { line: usize },
    Equal { line: usize },
    EqualEqual { line: usize },
    Greater { line: usize },
    GreaterEqual { line: usize },
    Less { line: usize },
    LessEqual { line: usize },
    // literals
    Identifier { lexeme: String, literal: String, line: usize },
    Str { lexeme: String, literal: String, line: usize },
    Number { lexeme: String, literal: u32, line: usize },
    // keywords
    And { line: usize },
    Class { line: usize },
    Else { line: usize },
    False { line: usize },
    Fun { line: usize },
    For { line: usize },
    If { line: usize },
    Nil { line: usize },
    Or { line: usize },
    Print { line: usize },
    Return { line: usize },
    Super { line: usize },
    This { line: usize },
    True { line: usize },
    Var { line: usize },
    While { line: usize },
    Eof { line: usize },
    Comment,
    Whitespace,
}

/// The mathematical shape of a token: text fields abstracted to
/// character sequences.
pub enum TokenV {
    LeftParen { line: usize },
    RightParen { line: usize },
    LeftBrace { line: usize },
    RightBrace { line: usize },
    Comma { line: usize },
    Dot { line: usize },
    Minus { line: usize },
    Plus { line: usize },
    Semicolon { line: usize },
    Slash { line: usize },
    Star { line: usize },
    Bang { line: usize },
    BangEqual { line: usize },
    Equal { line: usize },
    EqualEqual { line: usize },
    Greater { line: usize },
    GreaterEqual { line: usize },
    Less { line: usize },
    LessEqual { line: usize },
    Identifier { lexeme: Seq<char>, literal: Seq<char>, line: usize },
    Str { lexeme: Seq<char>, literal: Seq<char>, line: usize },
    Number { lexeme: Seq<char>, literal: u32, line: usize },
    And { line: usize },
    Class { line: usize },
    Else { line: usize },
    False { line: usize },
    Fun { line: usize },
    For { line: usize },
    If { line: usize },
    Nil { line: usize },
    Or { line: usize },
    Print { line: usize },
    Return { line: usize },
    Super { line: usize },
    This { line: usize },
    True { line: usize },
    Var { line: usize },
    While { line: usize },
    Eof { line: usize },
    Comment,
    Whitespace,
}

impl View for Token {
    type V = TokenV;

    open spec fn view(&self) -> TokenV {
        match self {
            Token::LeftParen { line } => TokenV::LeftParen { line: *line },
            Token::RightParen { line } => TokenV::RightParen { line: *line },
            Token::LeftBrace { line } => TokenV::LeftBrace { line: *line },
            Token::RightBrace { line } => TokenV::RightBrace { line: *line },
            Token::Comma { line } => TokenV::Comma { line: *line },
            Token::Dot { line } => TokenV::Dot { line: *line },
            Token::Minus { line } => TokenV::Minus { line: *line },
            Token::Plus { line } => TokenV::Plus { line: *line },
            Token::Semicolon { line } => TokenV::Semicolon { line: *line },
            Token::Slash { line } => TokenV::Slash { line: *line },
            Token::Star { line } => TokenV::Star { line: *line },
            Token::Bang { line } => TokenV::Bang { line: *line },
            Token::BangEqual { line } => TokenV::BangEqual { line: *line },
            Token::Equal { line } => TokenV::Equal { line: *line },
            Token::EqualEqual { line } => TokenV::EqualEqual { line: *line },
            Token::Greater { line } => TokenV::Greater { line: *line },
            Token::GreaterEqual { line } => TokenV::GreaterEqual { line: *line },
            Token::Less { line } => TokenV::Less { line: *line },
            Token::LessEqual { line } => TokenV::LessEqual { line: *line },
            Token::Identifier { lexeme, literal, line } => TokenV::Identifier {
                lexeme: lexeme@,
                literal: literal@,
                line: *line,
            },
            Token::Str { lexeme, literal, line } => TokenV::Str {
                lexeme: lexeme@,
                literal: literal@,
                line: *line,
            },
            Token::Number { lexeme, literal, line } => TokenV::Number {
                lexeme: lexeme@,
                literal: *literal,
                line: *line,
            },
            Token::And { line } => TokenV::And { line: *line },
            Token::Class { line } => TokenV::Class { line: *line },
            Token::Else { line } => TokenV::Else { line: *line },
            Token::False { line } => TokenV::False { line: *line },
            Token::Fun { line } => TokenV::Fun { line: *line },
            Token::For { line } => TokenV::For { line: *line },
            Token::If { line } => TokenV::If { line: *line },
            Token::Nil { line } => TokenV::Nil { line: *line },
            Token::Or { line } => TokenV::Or { line: *line },
            Token::Print { line } => TokenV::Print { line: *line },
            Token::Return { line } => TokenV::Return { line: *line },
            Token::Super { line } => TokenV::Super { line: *line },
            Token::This { line } => TokenV::This { line: *line },
            Token::True { line } => TokenV::True { line: *line },
            Token::Var { line } => TokenV::Var { line: *line },
            Token::While { line } => TokenV::While { line: *line },
            Token::Eof { line } => TokenV::Eof { line: *line },
            Token::Comment => TokenV::Comment,
            Token::Whitespace => TokenV::Whitespace,
        }
    }
}

/// The views of a run of tokens.
pub open spec fn token_views(ts: Seq<Token>) -> Seq<TokenV> {
    ts.map_values(|t: Token| t@)
}

/// The source line a token carries; none for the non-semantic tokens.
pub open spec fn line_of(t: TokenV) -> Option<usize> {
    match t {
        TokenV::Comment => None,
        TokenV::Whitespace => None,
        TokenV::LeftParen { line } => Some(line),
        TokenV::RightParen { line } => Some(line),
        TokenV::LeftBrace { line } => Some(line),
        TokenV::RightBrace { line } => Some(line),
        TokenV::Comma { line } => Some(line),
        TokenV::Dot { line } => Some(line),
        TokenV::Minus { line } => Some(line),
        TokenV::Plus { line } => Some(line),
        TokenV::Semicolon { line } => Some(line),
        TokenV::Slash { line } => Some(line),
        TokenV::Star { line } => Some(line),
        TokenV::Bang { line } => Some(line),
        TokenV::BangEqual { line } => Some(line),
        TokenV::Equal { line } => Some(line),
        TokenV::EqualEqual { line } => Some(line),
        TokenV::Greater { line } => Some(line),
        TokenV::GreaterEqual { line } => Some(line),
        TokenV::Less { line } => Some(line),
        TokenV::LessEqual { line } => Some(line),
        TokenV::Identifier { line, .. } => Some(line),
        TokenV::Str { line, .. } => Some(line),
        TokenV::Number { line, .. } => Some(line),
        TokenV::And { line } => Some(line),
        TokenV::Class { line } => Some(line),
        TokenV::Else { line } => Some(line),
        TokenV::False { line } => Some(line),
        TokenV::Fun { line } => Some(line),
        TokenV::If { line } => Some(line),
        TokenV::Nil { line } => Some(line),
        TokenV::Or { line } => Some(line),
        TokenV::Print { line } => Some(line),
        TokenV::Return { line } => Some(line),
        TokenV::Super { line } => Some(line),
        TokenV::This { line } => Some(line),
        TokenV::True { line } => Some(line),
        TokenV::Var { line } => Some(line),
        TokenV::While { line } => Some(line),
        TokenV::Eof { line } => Some(line),
        TokenV::For { line } => Some(line),
    }
}

/// The text a token displays as: punctuation and keywords display as
/// themselves, identifiers and strings as their literal text, numbers
/// as the decimal rendering of their value, and the rest as nothing.
#[verifier::opaque]
pub open spec fn text_of(t: TokenV) -> Seq<char> {
    match t {
        TokenV::LeftParen { .. } => "("@,
        TokenV::RightParen { .. } => ")"@,
        TokenV::LeftBrace { .. } => "{"@,
        TokenV::RightBrace { .. } => "}"@,
        TokenV::Comma { .. } => ","@,
        TokenV::Dot { .. } => "."@,
        TokenV::Minus { .. } => "-"@,
        TokenV::Plus { .. } => "+"@,
        TokenV::Semicolon { .. } => ";"@,
        TokenV::Slash { .. } => "/"@,
        TokenV::Star { .. } => "*"@,
        TokenV::Bang { .. } => "!"@,
        TokenV::BangEqual { .. } => "!="@,
        TokenV::Equal { .. } => "="@,
        TokenV::EqualEqual { .. } => "=="@,
        TokenV::Greater { .. } => ">"@,
        TokenV::GreaterEqual { .. } => ">="@,
        TokenV::Less { .. } => "<"@,
        TokenV::LessEqual { .. } => "<="@,
        TokenV::Identifier { literal, .. } => literal,
        TokenV::Str { literal, .. } => literal,
        TokenV::Number { literal, .. } => fmt_bits(literal),
        TokenV::And { .. } => "and"@,
        TokenV::Class { .. } => "class"@,
        TokenV::Else { .. } => "else"@,
        TokenV::False { .. } => "false"@,
        TokenV::Fun { .. } => "fun"@,
        TokenV::For { .. } => "for"@,
        TokenV::If { .. } => "if"@,
        TokenV::Nil { .. } => "nil"@,
        TokenV::Or { .. } => "or"@,
        TokenV::Print { .. } => "print"@,
        TokenV::Return { .. } => "return"@,
        TokenV::Super { .. } => "super"@,
        TokenV::This { .. } => "this"@,
        TokenV::True { .. } => "true"@,
        TokenV::Var { .. } => "var"@,
        TokenV::While { .. } => "while"@,
        TokenV::Eof { .. } => ""@,
        TokenV::Comment => ""@,
        TokenV::Whitespace => ""@,
    }
}

impl Token {
    /// The source line this token carries, if any.
    pub fn get_line(&self) -> (r: Option<usize>)
        ensures
            r == line_of(self@),
    {
        match self {
            Token::Comment => None,
            Token::Whitespace => None,
            Token::LeftParen { line } => Some(*line),
            Token::RightParen { line } => Some(*line),
            Token::LeftBrace { line } => Some(*line),
            Token::RightBrace { line } => Some(*line),
            Token::Comma { line } => Some(*line),
            Token::Dot { line } => Some(*line),
            Token::Minus { line } => Some(*line),
            Token::Plus { line } => Some(*line),
            Token::Semicolon { line } => Some(*line),
            Token::Slash { line } => Some(*line),
            Token::Star { line } => Some(*line),
            Token::Bang { line } => Some(*line),
            Token::BangEqual { line } => Some(*line),
            Token::Equal { line } => Some(*line),
            Token::EqualEqual { line } => Some(*line),
            Token::Greater { line } => Some(*line),
            Token::GreaterEqual { line } => Some(*line),
            Token::Less { line } => Some(*line),
            Token::LessEqual { line } => Some(*line),
            Token::Identifier { line, .. } => Some(*line),
            Token::Str { line, .. } => Some(*line),
            Token::Number { line, .. } => Some(*line),
            Token::And { line } => Some(*line),
            Token::Class { line } => Some(*line),
            Token::Else { line } => Some(*line),
            Token::False { line } => Some(*line),
            Token::Fun { line } => Some(*line),
            Token::For { line } => Some(*line),
            Token::If { line } => Some(*line),
            Token::Nil { line } => Some(*line),
            Token::Or { line } => Some(*line),
            Token::Print { line } => Some(*line),
            Token::Return { line } => Some(*line),
            Token::Super { line } => Some(*line),
            Token::This { line } => Some(*line),
            Token::True { line } => Some(*line),
            Token::Var { line } => Some(*line),
            Token::While { line } => Some(*line),
            Token::Eof { line } => Some(*line),
        }
    }

    /// The text this token displays as.
    pub fn text(&self) -> (r: String)
        ensures
            r@ == text_of(self@),
    {
        proof {
            reveal(text_of);
        }
        match self {
            Token::LeftParen { .. } => String::from_str("("),
            Token::RightParen { .. } => String::from_str(")"),
            Token::LeftBrace { .. } => String::from_str("{"),
            Token::RightBrace { .. } => String::from_str("}"),
            Token::Comma { .. } => String::from_str(","),
            Token::Dot { .. } => String::from_str("."),
            Token::Minus { .. } => String::from_str("-"),
            Token::Plus { .. } => String::from_str("+"),
            Token::Semicolon { .. } => String::from_str(";"),
            Token::Slash { .. } => String::from_str("/"),
            Token::Star { .. } => String::from_str("*"),
            Token::Bang { .. } => String::from_str("!"),
            Token::BangEqual { .. } => String::from_str("!="),
            Token::Equal { .. } => String::from_str("="),
            Token::EqualEqual { .. } => String::from_str("=="),
            Token::Greater { .. } => String::from_str(">"),
            Token::GreaterEqual { .. } => String::from_str(">="),
            Token::Less { .. } => String::from_str("<"),
            Token::LessEqual { .. } => String::from_str("<="),
            Token::Identifier { literal, .. } => literal.clone(),
            Token::Str { literal, .. } => literal.clone(),
            Token::Number { literal, .. } => crate::numeric::num_to_string(*literal),
            Token::And { .. } => String::from_str("and"),
            Token::Class { .. } => String::from_str("class"),
            Token::Else { .. } => String::from_str("else"),
            Token::False { .. } => String::from_str("false"),
            Token::Fun { .. } => String::from_str("fun"),
            Token::For { .. } => String::from_str("for"),
            Token::If { .. } => String::from_str("if"),
            Token::Nil { .. } => String::from_str("nil"),
            Token::Or { .. } => String::from_str("or"),
            Token::Print { .. } => String::from_str("print"),
            Token::Return { .. } => String::from_str("return"),
            Token::Super { .. } => String::from_str("super"),
            Token::This { .. } => String::from_str("this"),
            Token::True { .. } => String::from_str("true"),
            Token::Var { .. } => String::from_str("var"),
            Token::While { .. } => String::from_str("while"),
            Token::Eof { .. } => String::from_str(""),
            Token::Comment => String::from_str(""),
            Token::Whitespace => String::from_str(""),
        }
    }

    /// An equal copy of this token.
    pub fn dup(&self) -> (r: Token)
        ensures
            r == self,
    {
        match self {
            Token::LeftParen { line } => Token::LeftParen { line: *line },
            Token::RightParen { line } => Token::RightParen { line: *line },
            Token::LeftBrace { line } => Token::LeftBrace { line: *line },
            Token::RightBrace { line } => Token::RightBrace { line: *line },
            Token::Comma { line } => Token::Comma { line: *line },
            Token::Dot { line } => Token::Dot { line: *line },
            Token::Minus { line } => Token::Minus { line: *line },
            Token::Plus { line } => Token::Plus { line: *line },
            Token::Semicolon { line } => Token::Semicolon { line: *line },
            Token::Slash { line } => Token::Slash { line: *line },
            Token::Star { line } => Token::Star { line: *line },
            Token::Bang { line } => Token::Bang { line: *line },
            Token::BangEqual { line } => Token::BangEqual { line: *line },
            Token::Equal { line } => Token::Equal { line: *line },
            Token::EqualEqual { line } => Token::EqualEqual { line: *line },
            Token::Greater { line } => Token::Greater { line: *line },
            Token::GreaterEqual { line } => Token::GreaterEqual { line: *line },
            Token::Less { line } => Token::Less { line: *line },
            Token::LessEqual { line } => Token::LessEqual { line: *line },
            Token::Identifier { lexeme, literal, line } => Token::Identifier {
                lexeme: lexeme.clone(),
                literal: literal.clone(),
                line: *line,
            },
            Token::Str { lexeme, literal, line } => Token::Str {
                lexeme: lexeme.clone(),
                literal: literal.clone(),
                line: *line,
            },
            Token::Number { lexeme, literal, line } => Token::Number {
                lexeme: lexeme.clone(),
                literal: *literal,
                line: *line,
            },
            Token::And { line } => Token::And { line: *line },
            Token::Class { line } => Token::Class { line: *line },
            Token::Else { line } => Token::Else { line: *line },
            Token::False { line } => Token::False { line: *line },
            Token::Fun { line } => Token::Fun { line: *line },
            Token::For { line } => Token::For { line: *line },
            Token::If { line } => Token::If { line: *line },
            Token::Nil { line } => Token::Nil { line: *line },
            Token::Or { line } => Token::Or { line: *line },
            Token::Print { line } => Token::Print { line: *line },
            Token::Return { line } => Token::Return { line: *line },
            Token::Super { line } => Token::Super { line: *line },
            Token::This { line } => Token::This { line: *line },
            Token::True { line } => Token::True { line: *line },
            Token::Var { line } => Token::Var { line: *line },
            Token::While { line } => Token::While { line: *line },
            Token::Eof { line } => Token::Eof { line: *line },
            Token::Comment => Token::Comment,
            Token::Whitespace => Token::Whitespace,
        }
    }
}

} // verus!
