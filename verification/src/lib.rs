pub mod environment;
pub mod errors;
pub mod expr;
pub mod expr_printer;
pub mod interpreter;
pub mod laws;
pub mod numeric;
pub mod parser;
pub mod scanner;
pub mod stmt;
pub mod text;
pub mod token;
pub mod value;

use std::io::Write;
use vstd::prelude::*;

verus! {

/// Relies on std's writeln: writes the text and a newline to standard
/// output; a failure to write is ignored.
#[verifier::external_body]
pub(crate) fn emit_line(s: &str) {
    let _ = writeln!(std::io::stdout(), "{}", s);
}

// The pipeline driver: one unit of source text is scanned, parsed and
// interpreted against the running interpreter's state; whatever the
// program printed, the final expression's value, and any errors are
// written out line by line.

pub struct Runner {
    interpreter: crate::interpreter::Interpreter,
}

impl Runner {
    /// The chain of scopes, as a mathematical value.
    pub closed spec fn envv(&self) -> crate::environment::EnvV {
        self.interpreter.envv()
    }

    /// The lines the interpreter has printed so far, oldest first.
    pub closed spec fn outv(&self) -> Seq<Seq<char>> {
        self.interpreter.outv()
    }

    /// A well-formed runner holds at least the root scope.
    pub open spec fn wf(&self) -> bool {
        self.envv().len() >= 1
    }
}

impl Default for Runner {
    fn default() -> (r: Self)
        ensures
            r.wf(),
    {
        Runner { interpreter: Default::default() }
    }
}

impl Runner {
    /// Runs one unit of source text through the whole pipeline.  A
    /// scan with lexical errors fails as a parse error; a parse that
    /// produced no statement reports every syntax error and fails with
    /// the last one (or an unknown error where none was collected); a
    /// parsed statement is interpreted, its printed lines and its
    /// value are written out, and an evaluation error is handed back.
    #[verifier::spinoff_prover]
    #[verifier::rlimit(100)]
    pub fn run(&mut self, s: String) -> (r: crate::errors::InterpreterResult<()>)
        requires
            old(self).wf(),
            s@.len() + 1 < usize::MAX,
        ensures
            final(self).wf(),
            ({
                let sv = crate::scanner::scan_from(s@, 0, 1);
                if sv.errs.len() > 0 {
                    &&& final(self).envv() == old(self).envv()
                    &&& r matches Err(e) && e@ == (crate::errors::ErrV::Parse { line: sv.line })
                } else {
                    let toks = sv.toks.push(crate::token::TokenV::Eof { line: sv.line });
                    let (so, es) = crate::parser::p_parse(toks);
                    match so {
                        Some(st) => ({
                            let er = crate::interpreter::eval_stmt(st, old(self).envv());
                            &&& final(self).envv() == er.env
                            &&& final(self).outv() == old(self).outv() + er.out
                            &&& match r {
                                Ok(_) => er.res is Ok,
                                Err(e) => er.res == Err::<crate::value::ValueV, crate::errors::ErrV>(e@),
                            }
                        }),
                        None => ({
                            &&& final(self).envv() == old(self).envv()
                            &&& if es.len() > 0 {
                                r matches Err(e) && e@ == es.last()
                            } else {
                                r matches Err(e) && e@ == crate::errors::ErrV::Unknown
                            }
                        }),
                    }
                }
            }),
    {
        let ghost sv = crate::scanner::scan_from(s@, 0, 1);
        proof {
            crate::scanner::lemma_scan_from_len(s@, 0, 1);
        }
        let tokens = match crate::scanner::scan_tokens(s) {
            Ok(t) => t,
            Err(e) => {
                return Err(e);
            },
        };
        let (stmt_opt, mut errs) = crate::parser::parse(tokens);
        match stmt_opt {
            Some(st) => {
                let flush_from = self.interpreter.output().len();
                let res = self.interpreter.interpret(&st);
                let lines = self.interpreter.output();
                let mut k = flush_from;
                while k < lines.len()
                    invariant
                        k <= lines@.len(),
                    decreases lines@.len() - k,
                {
                    let line = &lines[k];
                    crate::emit_line(line.as_str());
                    k = k + 1;
                }
                match res {
                    Ok(v) => {
                        let d = v.display_text();
                        crate::emit_line(d.as_str());
                        Ok(())
                    },
                    Err(e) => Err(e),
                }
            },
            None => {
                let mut k: usize = 0;
                while k < errs.len()
                    invariant
                        k <= errs@.len(),
                    decreases errs@.len() - k,
                {
                    let m = errs[k].message_text();
                    crate::emit_line(m.as_str());
                    k = k + 1;
                }
                match errs.pop() {
                    Some(e) => Err(e),
                    None => Err(crate::errors::InterpreterError::Unknown),
                }
            },
        }
    }
}

} // verus!
