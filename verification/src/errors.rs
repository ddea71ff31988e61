use crate::text::{dec_rep, fmt_usize};
use vstd::prelude::*;
use vstd::string::StringExecFns;

verus! {

// The error taxonomy of the pipeline.  Lexical trouble is reported as
// `Interpreter` (with a message) or `Parse`; malformed grammar as
// `SyntaxError` or `Parse`; evaluation trouble as `Type` (carrying the
// expected and actual type names) or `UndefinedVariable`, each tagged
// with the line of the operator or reference that triggered it.

#[derive(Debug, PartialEq)]
pub enum InterpreterError {
    Interpreter { line: usize, message: String },
    Usage,
    Parse { line: usize },
    Type { expected_type: String, actual_type: String, line: Option<usize> },
    SyntaxError { line: usize, message: String },
    UndefinedVariable { name: String, line: Option<usize> },
    Unknown,
}

/// The mathematical shape of an error: text fields abstracted to
/// character sequences.
pub enum ErrV {
    Interpreter { line: usize, message: Seq<char> },
    Usage,
    Parse { line: usize },
    Type { expected_type: Seq<char>, actual_type: Seq<char>, line: Option<usize> },
    SyntaxError { line: usize, message: Seq<char> },
    UndefinedVariable { name: Seq<char>, line: Option<usize> },
    Unknown,
}

impl View for InterpreterError {
    type V = ErrV;

    open spec fn view(&self) -> ErrV {
        match self {
            InterpreterError::Interpreter { line, message } => ErrV::Interpreter {
                line: *line,
                message: message@,
            },
            InterpreterError::Usage => ErrV::Usage,
            InterpreterError::Parse { line } => ErrV::Parse { line: *line },
            InterpreterError::Type { expected_type, actual_type, line } => ErrV::Type {
                expected_type: expected_type@,
                actual_type: actual_type@,
                line: *line,
            },
            InterpreterError::SyntaxError { line, message } => ErrV::SyntaxError {
                line: *line,
                message: message@,
            },
            InterpreterError::UndefinedVariable { name, line } => ErrV::UndefinedVariable {
                name: name@,
                line: *line,
            },
            InterpreterError::Unknown => ErrV::Unknown,
        }
    }
}

/// The views of a run of errors.
pub open spec fn err_views(es: Seq<InterpreterError>) -> Seq<ErrV> {
    es.map_values(|e: InterpreterError| e@)
}

/// A type error that does not yet carry a line.
pub open spec fn type_err(expected: Seq<char>, actual: Seq<char>) -> ErrV {
    ErrV::Type { expected_type: expected, actual_type: actual, line: None }
}

/// A copy of an error with its line replaced, where it is a type error.
pub open spec fn with_type_line(e: ErrV, l: usize) -> ErrV {
    match e {
        ErrV::Type { expected_type, actual_type, .. } => ErrV::Type {
            expected_type,
            actual_type,
            line: Some(l),
        },
        _ => e,
    }
}

/// A copy of an error with its line replaced, where it names an
/// undefined variable.
pub open spec fn with_undefined_line(e: ErrV, l: usize) -> ErrV {
    match e {
        ErrV::UndefinedVariable { name, .. } => ErrV::UndefinedVariable { name, line: Some(l) },
        _ => e,
    }
}

/// The suffix that names a line, or nothing when no line is known.
pub open spec fn show_line_spec(line: Option<usize>) -> Seq<char> {
    match line {
        None => Seq::<char>::empty(),
        Some(l) => " on line "@ + dec_rep(l as nat),
    }
}

/// The suffix that names a line, or the empty text when no line is known.
pub fn show_line(line: &Option<usize>) -> (r: String)
    ensures
        r@ == show_line_spec(*line),
{
    match line {
        None => {
            let s = String::from_str("");
            proof {
                reveal_strlit("");
                assert(s@ =~= show_line_spec(*line));
            }
            s
        },
        Some(l) => {
            let mut s = String::from_str(" on line ");
            let d = fmt_usize(*l);
            s.append(d.as_str());
            s
        },
    }
}

/// The display text of an error.
pub open spec fn err_text(e: ErrV) -> Seq<char> {
    match e {
        ErrV::Interpreter { line, message } => "["@ + dec_rep(line as nat) + "] Error: "@
            + message,
        ErrV::Usage => "Usage: rlox [script]"@,
        ErrV::Parse { line } => "Error parsing code on line "@ + dec_rep(line as nat),
        ErrV::Type { expected_type, actual_type, line } => "Type error"@ + show_line_spec(line)
            + ": expected "@ + expected_type + ", got "@ + actual_type,
        ErrV::SyntaxError { line, .. } => "Syntax error on line "@ + dec_rep(line as nat),
        ErrV::UndefinedVariable { name, line } => "Undefined variable "@ + name + show_line_spec(
            line,
        ),
        ErrV::Unknown => "An unknown error has occurred"@,
    }
}

impl InterpreterError {
    /// A type error carrying the expected and actual type names.
    pub fn type_error(expected_type: String, actual_type: String) -> (r: Self)
        ensures
            r@ == type_err(expected_type@, actual_type@),
    {
        Self::Type { expected_type, actual_type, line: None }
    }

    /// Tags a type error with the line of the operator that raised it.
    pub fn add_line_to_type_error(self, new_line: usize) -> (r: Self)
        requires
            self is Type,
        ensures
            r@ == with_type_line(self@, new_line),
    {
        match self {
            Self::Type { line: _, expected_type, actual_type } => Self::Type {
                line: Some(new_line),
                expected_type,
                actual_type,
            },
            _ => Self::Unknown,
        }
    }

    /// An undefined-variable error that does not yet carry a line.
    pub fn undefined_variable_error(name: String) -> (r: Self)
        ensures
            r@ == (ErrV::UndefinedVariable { name: name@, line: None }),
    {
        Self::UndefinedVariable { name, line: None }
    }

    /// Tags an undefined-variable error with the line of the reference.
    pub fn add_line_to_undefined_error(self, new_line: usize) -> (r: Self)
        requires
            self is UndefinedVariable,
        ensures
            r@ == with_undefined_line(self@, new_line),
    {
        match self {
            Self::UndefinedVariable { line: _, name } => Self::UndefinedVariable {
                line: Some(new_line),
                name,
            },
            _ => Self::Unknown,
        }
    }

    /// The display text of this error.
    pub fn message_text(&self) -> (r: String)
        ensures
            r@ == err_text(self@),
    {
        match self {
            InterpreterError::Interpreter { line, message } => {
                let mut s = String::from_str("[");
                let d = fmt_usize(*line);
                s.append(d.as_str());
                s.append("] Error: ");
                s.append(message.as_str());
                proof {
                    assert(s@ =~= err_text(self@));
                }
                s
            },
            InterpreterError::Usage => String::from_str("Usage: rlox [script]"),
            InterpreterError::Parse { line } => {
                let mut s = String::from_str("Error parsing code on line ");
                let d = fmt_usize(*line);
                s.append(d.as_str());
                s
            },
            InterpreterError::Type { expected_type, actual_type, line } => {
                let mut s = String::from_str("Type error");
                let l = show_line(line);
                s.append(l.as_str());
                s.append(": expected ");
                s.append(expected_type.as_str());
                s.append(", got ");
                s.append(actual_type.as_str());
                proof {
                    assert(s@ =~= err_text(self@));
                }
                s
            },
            InterpreterError::SyntaxError { line, .. } => {
                let mut s = String::from_str("Syntax error on line ");
                let d = fmt_usize(*line);
                s.append(d.as_str());
                s
            },
            InterpreterError::UndefinedVariable { name, line } => {
                let mut s = String::from_str("Undefined variable ");
                s.append(name.as_str());
                let l = show_line(line);
                s.append(l.as_str());
                proof {
                    assert(s@ =~= err_text(self@));
                }
                s
            },
            InterpreterError::Unknown => String::from_str("An unknown error has occurred"),
        }
    }
}

pub type InterpreterResult<T> = Result<T, InterpreterError>;

} // verus!
