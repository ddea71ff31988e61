use crate::errors::{err_views, ErrV, InterpreterError, InterpreterResult};
use crate::numeric::parse_bits;
use crate::text::push_char;
use crate::token::{token_views, Token, TokenV};
use vstd::prelude::*;
use vstd::string::{StrSliceExecFns, StringExecFns};

verus! {

// The scanner: consumes source text one character at a time, with one
// character of lookahead (plus one more for the dot of a number), and
// produces the token sequence together with every lexical error it
// recovered from.  The line counter is 1-based and grows at each
// newline.

/// A decimal digit.
pub open spec fn is_digit(c: char) -> bool {
    48 <= c as u32 && c as u32 <= 57
}

/// An ASCII letter.
pub open spec fn is_alpha(c: char) -> bool {
    (97 <= c as u32 && c as u32 <= 122) || (65 <= c as u32 && c as u32 <= 90)
}

/// An ASCII letter or digit.
pub open spec fn is_alnum(c: char) -> bool {
    is_alpha(c) || is_digit(c)
}

/// ASCII whitespace: space, tab, newline, form feed, carriage return.
pub open spec fn is_ws(c: char) -> bool {
    c as u32 == 32 || c as u32 == 9 || c as u32 == 10 || c as u32 == 12 || c as u32 == 13
}

/// The first position at or after `j` that is not inside the comment:
/// the next newline, or the end of the text.
pub open spec fn comment_end(cs: Seq<char>, j: int) -> int
    decreases cs.len() - j,
{
    if j < 0 || j >= cs.len() {
        cs.len() as int
    } else if cs[j] == '\n' {
        j
    } else {
        comment_end(cs, j + 1)
    }
}

/// The first position at or after `j` that holds no digit.
pub open spec fn digits_end(cs: Seq<char>, j: int) -> int
    decreases cs.len() - j,
{
    if j < 0 || j >= cs.len() {
        cs.len() as int
    } else if is_digit(cs[j]) {
        digits_end(cs, j + 1)
    } else {
        j
    }
}

/// The first position at or after `j` that holds no letter or digit.
pub open spec fn alnum_end(cs: Seq<char>, j: int) -> int
    decreases cs.len() - j,
{
    if j < 0 || j >= cs.len() {
        cs.len() as int
    } else if is_alnum(cs[j]) {
        alnum_end(cs, j + 1)
    } else {
        j
    }
}

/// Where a greedy run of whitespace starting at `j` ends, and the line
/// counter after it.
pub open spec fn ws_scan(cs: Seq<char>, j: int, line: usize) -> (int, usize)
    decreases cs.len() - j,
{
    if j < 0 || j >= cs.len() {
        (j, line)
    } else if cs[j] == '\n' {
        ws_scan(cs, j + 1, (line + 1) as usize)
    } else if is_ws(cs[j]) {
        ws_scan(cs, j + 1, line)
    } else {
        (j, line)
    }
}

/// The outcome of scanning a string literal's inside from `j`: the
/// enclosed text if a closing quote arrives, the position after what
/// was consumed, and the line counter after any embedded newlines.
pub struct StrScan {
    pub lit: Option<Seq<char>>,
    pub next: int,
    pub line: usize,
}

/// Scans the inside of a string literal.
pub open spec fn string_scan(cs: Seq<char>, j: int, line: usize, acc: Seq<char>) -> StrScan
    decreases cs.len() - j,
{
    if j < 0 || j >= cs.len() {
        StrScan { lit: None, next: cs.len() as int, line }
    } else if cs[j] == '"' {
        StrScan { lit: Some(acc), next: j + 1, line }
    } else if cs[j] == '\n' {
        string_scan(cs, j + 1, (line + 1) as usize, acc.push('\n'))
    } else {
        string_scan(cs, j + 1, line, acc.push(cs[j]))
    }
}

/// Where a number's lexeme starting at the digit at `i` ends: a run of
/// digits, then one dot taken only when a digit follows it, then the
/// digits after the dot.
pub open spec fn number_end(cs: Seq<char>, i: int) -> int {
    let d1 = digits_end(cs, i);
    if d1 < cs.len() && cs[d1] == '.' && d1 + 1 < cs.len() && is_digit(cs[d1 + 1]) {
        digits_end(cs, d1 + 1)
    } else {
        d1
    }
}

/// The token an identifier's text denotes: the matching keyword, or an
/// identifier carrying the text as both lexeme and literal.
#[verifier::opaque]
pub open spec fn keyword_token(text: Seq<char>, line: usize) -> TokenV {
    if text == "and"@ {
        TokenV::And { line }
    } else if text == "class"@ {
        TokenV::Class { line }
    } else if text == "else"@ {
        TokenV::Else { line }
    } else if text == "false"@ {
        TokenV::False { line }
    } else if text == "for"@ {
        TokenV::For { line }
    } else if text == "fun"@ {
        TokenV::Fun { line }
    } else if text == "if"@ {
        TokenV::If { line }
    } else if text == "nil"@ {
        TokenV::Nil { line }
    } else if text == "or"@ {
        TokenV::Or { line }
    } else if text == "print"@ {
        TokenV::Print { line }
    } else if text == "return"@ {
        TokenV::Return { line }
    } else if text == "super"@ {
        TokenV::Super { line }
    } else if text == "this"@ {
        TokenV::This { line }
    } else if text == "true"@ {
        TokenV::True { line }
    } else if text == "var"@ {
        TokenV::Var { line }
    } else if text == "while"@ {
        TokenV::While { line }
    } else {
        TokenV::Identifier { lexeme: text, literal: text, line }
    }
}

/// One scanning step: the token or lexical error that begins at `i`,
/// the position after it, and the line counter after it.
pub struct ScanStep {
    pub tok: Result<TokenV, ErrV>,
    pub next: int,
    pub line: usize,
}

/// Scans the single token that begins at position `i`.
#[verifier::opaque]
pub open spec fn scan_step(cs: Seq<char>, i: int, line: usize) -> ScanStep {
    let c = cs[i];
    if c == '(' {
        ScanStep { tok: Ok(TokenV::LeftParen { line }), next: i + 1, line }
    } else if c == ')' {
        ScanStep { tok: Ok(TokenV::RightParen { line }), next: i + 1, line }
    } else if c == '{' {
        ScanStep { tok: Ok(TokenV::LeftBrace { line }), next: i + 1, line }
    } else if c == '}' {
        ScanStep { tok: Ok(TokenV::RightBrace { line }), next: i + 1, line }
    } else if c == ',' {
        ScanStep { tok: Ok(TokenV::Comma { line }), next: i + 1, line }
    } else if c == '.' {
        ScanStep { tok: Ok(TokenV::Dot { line }), next: i + 1, line }
    } else if c == '-' {
        ScanStep { tok: Ok(TokenV::Minus { line }), next: i + 1, line }
    } else if c == '+' {
        ScanStep { tok: Ok(TokenV::Plus { line }), next: i + 1, line }
    } else if c == ';' {
        ScanStep { tok: Ok(TokenV::Semicolon { line }), next: i + 1, line }
    } else if c == '*' {
        ScanStep { tok: Ok(TokenV::Star { line }), next: i + 1, line }
    } else if c == '!' {
        if i + 1 < cs.len() && cs[i + 1] == '=' {
            ScanStep { tok: Ok(TokenV::BangEqual { line }), next: i + 2, line }
        } else {
            ScanStep { tok: Ok(TokenV::Bang { line }), next: i + 1, line }
        }
    } else if c == '=' {
        if i + 1 < cs.len() && cs[i + 1] == '=' {
            ScanStep { tok: Ok(TokenV::EqualEqual { line }), next: i + 2, line }
        } else {
            ScanStep { tok: Ok(TokenV::Equal { line }), next: i + 1, line }
        }
    } else if c == '<' {
        if i + 1 < cs.len() && cs[i + 1] == '=' {
            ScanStep { tok: Ok(TokenV::LessEqual { line }), next: i + 2, line }
        } else {
            ScanStep { tok: Ok(TokenV::Less { line }), next: i + 1, line }
        }
    } else if c == '>' {
        if i + 1 < cs.len() && cs[i + 1] == '=' {
            ScanStep { tok: Ok(TokenV::GreaterEqual { line }), next: i + 2, line }
        } else {
            ScanStep { tok: Ok(TokenV::Greater { line }), next: i + 1, line }
        }
    } else if c == '/' {
        if i + 1 < cs.len() && cs[i + 1] == '/' {
            ScanStep { tok: Ok(TokenV::Comment), next: comment_end(cs, i + 2), line }
        } else {
            ScanStep { tok: Ok(TokenV::Slash { line }), next: i + 1, line }
        }
    } else if c == '"' {
        let ss = string_scan(cs, i + 1, line, Seq::empty());
        match ss.lit {
            Some(l) => ScanStep {
                tok: Ok(TokenV::Str { lexeme: l, literal: l, line }),
                next: ss.next,
                line: ss.line,
            },
            None => ScanStep {
                tok: Err(ErrV::Interpreter { line: ss.line, message: "Unterminated string"@ }),
                next: ss.next,
                line: ss.line,
            },
        }
    } else if is_ws(c) {
        let first_line = if c == '\n' {
            (line + 1) as usize
        } else {
            line
        };
        let (j, l2) = ws_scan(cs, i + 1, first_line);
        ScanStep { tok: Ok(TokenV::Whitespace), next: j, line: l2 }
    } else if is_digit(c) {
        let end = number_end(cs, i);
        let lexeme = cs.subrange(i, end);
        match parse_bits(lexeme) {
            Some(b) => ScanStep {
                tok: Ok(TokenV::Number { lexeme, literal: b, line }),
                next: end,
                line,
            },
            None => ScanStep {
                tok: Err(
                    ErrV::Interpreter { line, message: "Invalid number: "@ + lexeme },
                ),
                next: end,
                line,
            },
        }
    } else if is_alpha(c) || c == '_' {
        let end = alnum_end(cs, i + 1);
        let text = cs.subrange(i, end);
        ScanStep { tok: Ok(keyword_token(text, line)), next: end, line }
    } else {
        ScanStep {
            tok: Err(ErrV::Interpreter { line, message: "Unknown token "@ + seq![c] }),
            next: i + 1,
            line,
        }
    }
}

/// Everything the scan of the text from position `i` on produces: the
/// tokens, the lexical errors, and the final line counter.
pub struct ScanV {
    pub toks: Seq<TokenV>,
    pub errs: Seq<ErrV>,
    pub line: usize,
}

/// Scans the whole text from position `i` on.  The guard on `next`
/// only serves termination; every step moves forward within bounds.
pub open spec fn scan_from(cs: Seq<char>, i: int, line: usize) -> ScanV
    decreases cs.len() - i,
{
    if i < 0 || i >= cs.len() {
        ScanV { toks: Seq::empty(), errs: Seq::empty(), line }
    } else {
        let st = scan_step(cs, i, line);
        if st.next <= i || st.next > cs.len() {
            ScanV { toks: Seq::empty(), errs: Seq::empty(), line }
        } else {
            let rest = scan_from(cs, st.next, st.line);
            match st.tok {
                Ok(t) => ScanV { toks: seq![t] + rest.toks, errs: rest.errs, line: rest.line },
                Err(e) => ScanV { toks: rest.toks, errs: seq![e] + rest.errs, line: rest.line },
            }
        }
    }
}

/// A scan never produces more tokens than there are characters left.
pub proof fn lemma_scan_from_len(cs: Seq<char>, i: int, line: usize)
    ensures
        0 <= i <= cs.len() ==> scan_from(cs, i, line).toks.len() <= cs.len() - i,
        i < 0 || i > cs.len() ==> scan_from(cs, i, line).toks.len() == 0,
    decreases cs.len() - i,
{
    if 0 <= i < cs.len() {
        let st = scan_step(cs, i, line);
        if i < st.next <= cs.len() {
            lemma_scan_from_len(cs, st.next, st.line);
        }
    }
}

fn is_digit_exec(c: char) -> (r: bool)
    ensures
        r == is_digit(c),
{
    let u = c as u32;
    48 <= u && u <= 57
}

fn is_alpha_exec(c: char) -> (r: bool)
    ensures
        r == is_alpha(c),
{
    let u = c as u32;
    (97 <= u && u <= 122) || (65 <= u && u <= 90)
}

fn is_alnum_exec(c: char) -> (r: bool)
    ensures
        r == is_alnum(c),
{
    is_alpha_exec(c) || is_digit_exec(c)
}

fn is_ws_exec(c: char) -> (r: bool)
    ensures
        r == is_ws(c),
{
    let u = c as u32;
    u == 32 || u == 9 || u == 10 || u == 12 || u == 13
}

/// Consumes the next character when it is the expected one.
fn match_c(st: &str, i: &mut usize, to_match: char) -> (r: bool)
    requires
        *old(i) <= st@.len(),
    ensures
        r == (*old(i) < st@.len() && st@[*old(i) as int] == to_match),
        r ==> *final(i) == *old(i) + 1,
        !r ==> *final(i) == *old(i),
{
    if *i < st.unicode_len() {
        let c = st.get_char(*i);
        if c == to_match {
            *i = *i + 1;
            true
        } else {
            false
        }
    } else {
        false
    }
}

/// After a first `/`: a line comment when a second `/` follows,
/// consumed through (not including) the next newline; else a slash.
fn match_slash(st: &str, i: &mut usize, line: usize) -> (r: InterpreterResult<Token>)
    requires
        *old(i) <= st@.len() < usize::MAX,
    ensures
        *old(i) < st@.len() && st@[*old(i) as int] == '/' ==> *final(i) == comment_end(
            st@,
            *old(i) + 1,
        ) && (r matches Ok(t) && t@ == TokenV::Comment),
        !(*old(i) < st@.len() && st@[*old(i) as int] == '/') ==> *final(i) == *old(i)
            && (r matches Ok(t) && t@ == (TokenV::Slash { line })),
        *old(i) <= *final(i) <= st@.len(),
{
    let n = st.unicode_len();
    if match_c(st, i, '/') {
        while *i < n && st.get_char(*i) != '\n'
            invariant
                *i <= n == st@.len(),
                *old(i) < *i,
                comment_end(st@, *old(i) + 1) == comment_end(st@, *i as int),
            decreases n - *i,
        {
            *i = *i + 1;
        }
        Ok(Token::Comment)
    } else {
        Ok(Token::Slash { line })
    }
}

/// Consumes a greedy run of whitespace whose first character has
/// already been consumed; every newline bumps the line counter.
fn whitespace(c: char, st: &str, i: &mut usize, line: &mut usize) -> (r: InterpreterResult<Token>)
    requires
        *old(i) <= st@.len() < usize::MAX,
        *old(line) <= *old(i),
    ensures
        ({
            let first = if c == '\n' {
                (*old(line) + 1) as usize
            } else {
                *old(line)
            };
            let (j, l2) = ws_scan(st@, *old(i) as int, first);
            &&& *final(i) == j
            &&& *final(line) == l2
            &&& r matches Ok(t) && t@ == TokenV::Whitespace
        }),
        *old(i) <= *final(i) <= st@.len(),
        *final(line) <= *final(i) + 1,
{
    let n = st.unicode_len();
    if c == '\n' {
        *line = *line + 1;
    }
    let ghost first = *line;
    while *i < n && is_ws_exec(st.get_char(*i))
        invariant
            *old(i) <= *i <= n == st@.len(),
            *line <= *i + 1,
            n < usize::MAX,
            ws_scan(st@, *old(i) as int, first) == ws_scan(st@, *i as int, *line),
        decreases n - *i,
    {
        let ch = st.get_char(*i);
        if ch == '\n' {
            *line = *line + 1;
        }
        *i = *i + 1;
    }
    Ok(Token::Whitespace)
}

/// Consumes the inside of a string literal, the opening quote already
/// consumed: everything up to the closing quote becomes both lexeme
/// and literal, the token carries the line the string began on,
/// embedded newlines bump the line counter, and an input that ends
/// first is an unterminated-string error.
fn string(st: &str, i: &mut usize, line: &mut usize) -> (r: InterpreterResult<Token>)
    requires
        *old(i) <= st@.len() < usize::MAX,
        *old(line) <= *old(i),
    ensures
        ({
            let ss = string_scan(st@, *old(i) as int, *old(line), Seq::empty());
            &&& *final(i) == ss.next
            &&& *final(line) == ss.line
            &&& match r {
                Ok(t) => ss.lit matches Some(l) && t@ == (TokenV::Str {
                    lexeme: l,
                    literal: l,
                    line: *old(line),
                }),
                Err(e) => ss.lit is None && e@ == (ErrV::Interpreter {
                    line: ss.line,
                    message: "Unterminated string"@,
                }),
            }
        }),
        *old(i) <= *final(i) <= st@.len(),
        *final(line) <= *final(i),
{
    let start_line = *line;
    let n = st.unicode_len();
    let mut s = String::from_str("");
    proof {
        reveal_strlit("");
        assert(s@ =~= Seq::<char>::empty());
    }
    while *i < n && st.get_char(*i) != '"'
        invariant
            *old(i) <= *i <= n == st@.len(),
            *line <= *i,
            n < usize::MAX,
            start_line == *old(line),
            string_scan(st@, *old(i) as int, *old(line), Seq::empty()) == string_scan(
                st@,
                *i as int,
                *line,
                s@,
            ),
        decreases n - *i,
    {
        let ch = st.get_char(*i);
        if ch == '\n' {
            push_char(&mut s, '\n');
            *line = *line + 1;
        } else {
            push_char(&mut s, ch);
        }
        *i = *i + 1;
    }
    if *i < n {
        *i = *i + 1;
        let lexeme = s.clone();
        return Ok(Token::Str { lexeme, literal: s, line: start_line });
    }
    Err(
        InterpreterError::Interpreter {
            line: *line,
            message: String::from_str("Unterminated string"),
        },
    )
}

/// Consumes the rest of a number whose first digit has already been
/// consumed: a run of digits, then one dot only when a digit follows
/// it, then the digits after the dot.  The lexeme goes to the numeric
/// parser; a refusal there surfaces as a lexical error.
#[verifier::loop_isolation(false)]
fn number(c: char, st: &str, i: &mut usize, line: usize) -> (r: InterpreterResult<Token>)
    requires
        1 <= *old(i) <= st@.len() < usize::MAX,
        st@[*old(i) - 1] == c,
        is_digit(c),
    ensures
        ({
            let start = *old(i) - 1;
            let end = number_end(st@, start);
            let lexeme = st@.subrange(start, end);
            &&& *final(i) == end
            &&& match r {
                Ok(t) => parse_bits(lexeme) matches Some(b) && t@ == (TokenV::Number {
                    lexeme,
                    literal: b,
                    line,
                }),
                Err(e) => parse_bits(lexeme) is None && e@ == (ErrV::Interpreter {
                    line,
                    message: "Invalid number: "@ + lexeme,
                }),
            }
        }),
        *old(i) <= *final(i) <= st@.len(),
{
    let ghost start = *old(i) - 1;
    let ghost cs = st@;
    let n = st.unicode_len();
    let mut s = String::from_str("");
    proof {
        reveal_strlit("");
    }
    push_char(&mut s, c);
    proof {
        assert(s@ =~= cs.subrange(start, *i as int));
        assert(digits_end(cs, start) == digits_end(cs, *old(i) as int));
    }
    while *i < n && is_digit_exec(st.get_char(*i))
        invariant
            *old(i) <= *i <= n == st@.len(),
            cs == st@,
            s@ == cs.subrange(start, *i as int),
            digits_end(cs, start) == digits_end(cs, *i as int),
        decreases n - *i,
    {
        let ch = st.get_char(*i);
        push_char(&mut s, ch);
        proof {
            assert(cs.subrange(start, *i + 1) =~= cs.subrange(start, *i as int).push(
                cs[*i as int],
            ));
        }
        *i = *i + 1;
    }
    let ghost d1 = digits_end(cs, start);
    proof {
        assert(*i == d1);
    }
    if *i < n {
        let dot = st.get_char(*i);
        if dot == '.' && *i + 1 < n {
            let nxt = st.get_char(*i + 1);
            if is_digit_exec(nxt) {
                push_char(&mut s, '.');
                proof {
                    assert(cs.subrange(start, *i + 1) =~= cs.subrange(start, *i as int).push(
                        cs[*i as int],
                    ));
                }
                *i = *i + 1;
                while *i < n && is_digit_exec(st.get_char(*i))
                    invariant
                        d1 + 1 <= *i <= n == st@.len(),
                        cs == st@,
                        s@ == cs.subrange(start, *i as int),
                        digits_end(cs, d1 + 1) == digits_end(cs, *i as int),
                    decreases n - *i,
                {
                    let ch = st.get_char(*i);
                    push_char(&mut s, ch);
                    proof {
                        assert(cs.subrange(start, *i + 1) =~= cs.subrange(
                            start,
                            *i as int,
                        ).push(cs[*i as int]));
                    }
                    *i = *i + 1;
                }
            }
        }
    }
    proof {
        assert(*i == number_end(cs, start));
    }
    match crate::numeric::num_parse(s.as_str()) {
        Some(b) => Ok(Token::Number { lexeme: s, literal: b, line }),
        None => {
            let mut m = String::from_str("Invalid number: ");
            m.append(s.as_str());
            Err(InterpreterError::Interpreter { line, message: m })
        },
    }
}

/// The token an identifier's text denotes.
fn ident_t(s: String, line: usize) -> (r: InterpreterResult<Token>)
    ensures
        r matches Ok(t) && t@ == keyword_token(s@, line),
{
    proof {
        reveal(keyword_token);
    }
    let res = if s == String::from_str("and") {
        Token::And { line }
    } else if s == String::from_str("class") {
        Token::Class { line }
    } else if s == String::from_str("else") {
        Token::Else { line }
    } else if s == String::from_str("false") {
        Token::False { line }
    } else if s == String::from_str("for") {
        Token::For { line }
    } else if s == String::from_str("fun") {
        Token::Fun { line }
    } else if s == String::from_str("if") {
        Token::If { line }
    } else if s == String::from_str("nil") {
        Token::Nil { line }
    } else if s == String::from_str("or") {
        Token::Or { line }
    } else if s == String::from_str("print") {
        Token::Print { line }
    } else if s == String::from_str("return") {
        Token::Return { line }
    } else if s == String::from_str("super") {
        Token::Super { line }
    } else if s == String::from_str("this") {
        Token::This { line }
    } else if s == String::from_str("true") {
        Token::True { line }
    } else if s == String::from_str("var") {
        Token::Var { line }
    } else if s == String::from_str("while") {
        Token::While { line }
    } else {
        let lexeme = s.clone();
        Token::Identifier { lexeme, literal: s, line }
    };
    Ok(res)
}

/// Consumes the rest of an identifier whose first character has
/// already been consumed: a run of letters and digits; the text is
/// then checked against the keyword table.
#[verifier::loop_isolation(false)]
fn identifier(c: char, st: &str, i: &mut usize, line: usize) -> (r: InterpreterResult<Token>)
    requires
        1 <= *old(i) <= st@.len() < usize::MAX,
        st@[*old(i) - 1] == c,
    ensures
        ({
            let start = *old(i) - 1;
            let end = alnum_end(st@, *old(i) as int);
            &&& *final(i) == end
            &&& r matches Ok(t) && t@ == keyword_token(st@.subrange(start, end), line)
        }),
        *old(i) <= *final(i) <= st@.len(),
{
    let ghost start = *old(i) - 1;
    let ghost cs = st@;
    let n = st.unicode_len();
    let mut s = String::from_str("");
    proof {
        reveal_strlit("");
    }
    push_char(&mut s, c);
    proof {
        assert(s@ =~= cs.subrange(start, *i as int));
    }
    while *i < n && is_alnum_exec(st.get_char(*i))
        invariant
            *old(i) <= *i <= n == st@.len(),
            cs == st@,
            s@ == cs.subrange(start, *i as int),
            alnum_end(cs, *old(i) as int) == alnum_end(cs, *i as int),
        decreases n - *i,
    {
        let ch = st.get_char(*i);
        push_char(&mut s, ch);
        proof {
            assert(cs.subrange(start, *i + 1) =~= cs.subrange(start, *i as int).push(
                cs[*i as int],
            ));
        }
        *i = *i + 1;
    }
    ident_t(s, line)
}

/// Scans the single token that begins at the cursor, or nothing at the
/// end of the text.
fn scan_token(st: &str, i: &mut usize, line: &mut usize) -> (r: Option<InterpreterResult<Token>>)
    requires
        *old(i) <= st@.len() < usize::MAX,
        *old(line) <= *old(i) + 1,
    ensures
        *old(i) == st@.len() ==> r is None && *final(i) == *old(i) && *final(line) == *old(line),
        *old(i) < st@.len() ==> ({
            let stp = scan_step(st@, *old(i) as int, *old(line));
            &&& *final(i) == stp.next
            &&& *old(i) < *final(i) <= st@.len()
            &&& *final(line) == stp.line
            &&& *final(line) <= *final(i) + 1
            &&& match r {
                Some(Ok(t)) => stp.tok == Ok::<TokenV, ErrV>(t@),
                Some(Err(e)) => stp.tok == Err::<TokenV, ErrV>(e@),
                None => false,
            }
        }),
{
    proof {
        reveal(scan_step);
    }
    let n = st.unicode_len();
    if *i == n {
        return None;
    }
    let c = st.get_char(*i);
    *i = *i + 1;
    let l = *line;
    if c == '(' {
        Some(Ok(Token::LeftParen { line: l }))
    } else if c == ')' {
        Some(Ok(Token::RightParen { line: l }))
    } else if c == '{' {
        Some(Ok(Token::LeftBrace { line: l }))
    } else if c == '}' {
        Some(Ok(Token::RightBrace { line: l }))
    } else if c == ',' {
        Some(Ok(Token::Comma { line: l }))
    } else if c == '.' {
        Some(Ok(Token::Dot { line: l }))
    } else if c == '-' {
        Some(Ok(Token::Minus { line: l }))
    } else if c == '+' {
        Some(Ok(Token::Plus { line: l }))
    } else if c == ';' {
        Some(Ok(Token::Semicolon { line: l }))
    } else if c == '*' {
        Some(Ok(Token::Star { line: l }))
    } else if c == '!' {
        if match_c(st, i, '=') {
            Some(Ok(Token::BangEqual { line: l }))
        } else {
            Some(Ok(Token::Bang { line: l }))
        }
    } else if c == '=' {
        if match_c(st, i, '=') {
            Some(Ok(Token::EqualEqual { line: l }))
        } else {
            Some(Ok(Token::Equal { line: l }))
        }
    } else if c == '<' {
        if match_c(st, i, '=') {
            Some(Ok(Token::LessEqual { line: l }))
        } else {
            Some(Ok(Token::Less { line: l }))
        }
    } else if c == '>' {
        if match_c(st, i, '=') {
            Some(Ok(Token::GreaterEqual { line: l }))
        } else {
            Some(Ok(Token::Greater { line: l }))
        }
    } else if c == '/' {
        Some(match_slash(st, i, l))
    } else if c == '"' {
        Some(string(st, i, line))
    } else if is_ws_exec(c) {
        Some(whitespace(c, st, i, line))
    } else if is_digit_exec(c) {
        Some(number(c, st, i, l))
    } else if is_alpha_exec(c) || c == '_' {
        Some(identifier(c, st, i, l))
    } else {
        let mut m = String::from_str("Unknown token ");
        push_char(&mut m, c);
        proof {
            assert(m@ =~= "Unknown token "@ + seq![c]);
        }
        Some(Err(InterpreterError::Interpreter { line: l, message: m }))
    }
}

/// Scans the whole text: the token sequence (a final end-of-input
/// token carrying the last line included) together with every lexical
/// error that was recovered from.
pub fn scan_source(st: &str) -> (r: (Vec<Token>, Vec<InterpreterError>))
    requires
        st@.len() < usize::MAX,
    ensures
        ({
            let sv = scan_from(st@, 0, 1);
            &&& token_views(r.0@) == sv.toks.push(TokenV::Eof { line: sv.line })
            &&& err_views(r.1@) == sv.errs
        }),
{
    let ghost sv = scan_from(st@, 0, 1);
    let mut tokens: Vec<Token> = Vec::new();
    let mut errors: Vec<InterpreterError> = Vec::new();
    let mut i: usize = 0;
    let mut line: usize = 1;
    let n = st.unicode_len();
    proof {
        assert(token_views(tokens@) =~= Seq::<TokenV>::empty());
        assert(err_views(errors@) =~= Seq::<ErrV>::empty());
        assert(sv.toks =~= token_views(tokens@) + scan_from(st@, i as int, line).toks);
        assert(sv.errs =~= err_views(errors@) + scan_from(st@, i as int, line).errs);
    }
    while i < n
        invariant
            i <= n == st@.len(),
            n < usize::MAX,
            line <= i + 1,
            sv == scan_from(st@, 0, 1),
            sv.toks == token_views(tokens@) + scan_from(st@, i as int, line).toks,
            sv.errs == err_views(errors@) + scan_from(st@, i as int, line).errs,
            sv.line == scan_from(st@, i as int, line).line,
        decreases n - i,
    {
        let ghost pre_i = i;
        let ghost pre_line = line;
        let ghost pre_tokens = tokens@;
        let ghost pre_errors = errors@;
        let res = scan_token(st, &mut i, &mut line);
        proof {
            assert(scan_from(st@, pre_i as int, pre_line).toks == (match scan_step(
                st@,
                pre_i as int,
                pre_line,
            ).tok {
                Ok(t) => seq![t] + scan_from(st@, i as int, line).toks,
                Err(_) => scan_from(st@, i as int, line).toks,
            }));
            assert(scan_from(st@, pre_i as int, pre_line).errs == (match scan_step(
                st@,
                pre_i as int,
                pre_line,
            ).tok {
                Ok(_) => scan_from(st@, i as int, line).errs,
                Err(e) => seq![e] + scan_from(st@, i as int, line).errs,
            }));
            assert(scan_from(st@, pre_i as int, pre_line).line == scan_from(
                st@,
                i as int,
                line,
            ).line);
        }
        match res {
            Some(Ok(t)) => {
                let ghost tv = t@;
                tokens.push(t);
                proof {
                    assert(token_views(tokens@) =~= token_views(pre_tokens).push(tv));
                    assert(token_views(pre_tokens).push(tv) + scan_from(st@, i as int, line).toks
                        =~= token_views(pre_tokens) + (seq![tv] + scan_from(
                        st@,
                        i as int,
                        line,
                    ).toks));
                }
            },
            Some(Err(e)) => {
                let ghost ev = e@;
                errors.push(e);
                proof {
                    assert(err_views(errors@) =~= err_views(pre_errors).push(ev));
                    assert(err_views(pre_errors).push(ev) + scan_from(st@, i as int, line).errs
                        =~= err_views(pre_errors) + (seq![ev] + scan_from(
                        st@,
                        i as int,
                        line,
                    ).errs));
                }
            },
            None => {
                proof {
                    assert(false);
                }
            },
        }
    }
    proof {
        assert(scan_from(st@, i as int, line).toks =~= Seq::<TokenV>::empty());
        assert(sv.toks =~= token_views(tokens@));
        assert(sv.errs =~= err_views(errors@));
        assert(sv.line == line);
    }
    let ghost pre_tokens = tokens@;
    tokens.push(Token::Eof { line });
    proof {
        assert(token_views(tokens@) =~= token_views(pre_tokens).push(TokenV::Eof { line }));
    }
    (tokens, errors)
}

/// Scans the whole text and hands the token sequence on only when no
/// lexical error occurred; otherwise every error is reported on
/// standard output and the scan as a whole fails with a parse error
/// tagged with the final line.
pub fn scan_tokens(s: String) -> (r: InterpreterResult<Vec<Token>>)
    requires
        s@.len() < usize::MAX,
    ensures
        ({
            let sv = scan_from(s@, 0, 1);
            match r {
                Ok(toks) => sv.errs.len() == 0 && token_views(toks@) == sv.toks.push(
                    TokenV::Eof { line: sv.line },
                ),
                Err(e) => sv.errs.len() > 0 && e@ == (ErrV::Parse { line: sv.line }),
            }
        }),
{
    let ghost sv = scan_from(s@, 0, 1);
    let (tokens, errors) = scan_source(s.as_str());
    if errors.len() == 0 {
        proof {
            assert(sv.errs.len() == err_views(errors@).len());
        }
        return Ok(tokens);
    }
    // report every lexical error, then fail the scan as a whole
    let mut k: usize = 0;
    while k < errors.len()
        invariant
            k <= errors.len(),
        decreases errors.len() - k,
    {
        let m = errors[k].message_text();
        crate::emit_line(m.as_str());
        k = k + 1;
    }
    proof {
        assert(sv.errs.len() == err_views(errors@).len());
        assert(token_views(tokens@).len() == tokens@.len());
        assert(token_views(tokens@)[tokens@.len() - 1] == tokens@[tokens@.len() - 1]@);
    }
    let lt_idx = tokens.len() - 1;
    match &tokens[lt_idx] {
        Token::Eof { line } => Err(InterpreterError::Parse { line: *line }),
        _ => {
            proof {
                assert(false);
            }
            Err(InterpreterError::Unknown)
        },
    }
}

} // verus!


