//! An interpreter session: source texts evaluated one after another in one
//! environment, with what each printed.
use vstd::prelude::*;
use crate::ast::{spec_join, strings_view};
use crate::eval::error::{spec_eval_error_text, EvalErrV};
use crate::eval::semantics::{spec_evaluate, spec_to_result};
use crate::eval::Error as EvalError;
use crate::lexer::{spec_lex, Lexer};
use crate::object::env::{spec_initial_env, Env, EnvV};
use crate::object::{obj_printable, spec_obj_text, ObjV, Object};
use crate::parser::error::{parse_errors_view, spec_parse_errors_text, ParseErrorV};
use crate::parser::spec::spec_parse;
use crate::parser::{ParseErrors, Parser};
use crate::text::{push_str, push_string};

verus! {

/// Why a source text gave no value: its parse errors, or the evaluation error.
pub enum Error {
    Parse(ParseErrors),
    Eval(EvalError),
}

/// The mathematical view of an interpreter error.
pub enum InterpErrV {
    Parse(Seq<ParseErrorV>),
    Eval(EvalErrV),
}

impl View for Error {
    type V = InterpErrV;

    open spec fn view(&self) -> InterpErrV {
        match self {
            Error::Parse(e) => InterpErrV::Parse(parse_errors_view(e.errors@)),
            Error::Eval(e) => InterpErrV::Eval(e@),
        }
    }
}

/// The message of an interpreter error: each parse error on a line of its
/// own, or the evaluation error's message.
pub open spec fn spec_interp_error_text(e: InterpErrV) -> Seq<char> {
    match e {
        InterpErrV::Parse(errs) => spec_parse_errors_text(errs),
        InterpErrV::Eval(err) => spec_eval_error_text(err),
    }
}

/// Lines joined by line breaks.
fn join_lines(lines: &Vec<String>) -> (r: String)
    ensures
        r@ == spec_join(strings_view(lines@), "\n"@),
{
    let ghost items = strings_view(lines@);
    let mut r = String::new();
    let mut i: usize = 0;
    while i < lines.len()
        invariant
            i <= lines.len(),
            items == strings_view(lines@),
            r@ == spec_join(items.take(i as int), "\n"@),
        decreases lines.len() - i,
    {
        if i > 0 {
            push_str(&mut r, "\n");
        }
        push_string(&mut r, &lines[i]);
        proof {
            assert(items.take(i + 1).drop_last() =~= items.take(i as int));
            if i == 0 {
                assert(r@ =~= spec_join(items.take(1), "\n"@));
            } else {
                assert(r@ =~= spec_join(items.take(i + 1), "\n"@));
            }
        }
        i = i + 1;
    }
    assert(items.take(lines.len() as int) =~= items);
    r
}

impl Error {
    /// The message of the error.
    pub fn display(&self) -> (r: String)
        ensures
            r@ == spec_interp_error_text(self@),
    {
        match self {
            Error::Parse(e) => e.display(),
            Error::Eval(e) => e.display(),
        }
    }
}

/// What evaluating one source text gave: the lines it printed, joined by line
/// breaks, and its value or error.
pub struct InterpreterResult {
    pub stdout: String,
    pub result: Result<Object, Error>,
}

/// What a result reads as in one line of text: the printed lines, `|`, and
/// then the value's printed form (as `Ok`) or the error's message (as `Err`).
pub open spec fn spec_delimited(out: Seq<char>, res: Result<ObjV, InterpErrV>) -> Result<
    Seq<char>,
    Seq<char>,
> {
    match res {
        Ok(o) => Ok(out + "|"@ + spec_obj_text(o)),
        Err(e) => Err(out + "|"@ + spec_interp_error_text(e)),
    }
}

impl InterpreterResult {
    /// The result as one text, for a front end that takes a single string:
    /// the printed lines, `|`, then the value (`Ok`) or the error (`Err`).
    pub fn delimited(&self) -> (r: Result<String, String>)
        requires
            self.result matches Ok(o) ==> obj_printable(o@),
        ensures
            match (r, &self.result) {
                (Ok(t), Ok(o)) => spec_delimited(self.stdout@, Ok(o@)) == Ok::<Seq<char>, Seq<char>>(t@),
                (Err(t), Err(e)) => spec_delimited(self.stdout@, Err(e@)) == Err::<Seq<char>, Seq<char>>(t@),
                _ => false,
            },
    {
        let mut t = self.stdout.clone();
        push_str(&mut t, "|");
        match &self.result {
            Ok(o) => {
                let v = o.display();
                push_string(&mut t, &v);
                Ok(t)
            },
            Err(e) => {
                let m = e.display();
                push_string(&mut t, &m);
                Err(t)
            },
        }
    }
}

/// What evaluating a source text in an environment gives: the environment
/// after it, with its printed lines taken out; those lines joined by line
/// breaks; and the value or error. `None` where parsing gets stuck or
/// evaluation halts.
pub open spec fn spec_interpret(input: Seq<char>, env: EnvV) -> Option<
    (EnvV, Seq<char>, Result<ObjV, InterpErrV>),
> {
    match spec_parse(spec_lex(input)) {
        None => None,
        Some(Err(errs)) => Some(
            (
                EnvV { frames: env.frames, stdout: Seq::empty() },
                spec_join(env.stdout, "\n"@),
                Err(InterpErrV::Parse(errs)),
            ),
        ),
        Some(Ok(stmts)) => {
            let (r, env1) = spec_evaluate(stmts, env);
            match spec_to_result(r) {
                None => None,
                Some(res) => Some(
                    (
                        EnvV { frames: env1.frames, stdout: Seq::empty() },
                        spec_join(env1.stdout, "\n"@),
                        match res {
                            Ok(o) => Ok(o),
                            Err(e) => Err(InterpErrV::Eval(e)),
                        },
                    ),
                ),
            }
        },
    }
}

/// An interpreter session: one environment that each evaluation continues.
pub struct Interpreter {
    env: Env,
}

impl View for Interpreter {
    type V = EnvV;

    closed spec fn view(&self) -> EnvV {
        self.env@
    }
}

impl Interpreter {
    pub closed spec fn wf(&self) -> bool {
        self.env.wf()
    }

    /// A session with a fresh environment.
    pub fn new() -> (r: Interpreter)
        ensures
            r.wf(),
            r@ == spec_initial_env(),
    {
        Interpreter { env: Env::new() }
    }

    /// Evaluates a source text in the session's environment (see
    /// `spec_interpret`); `None` where parsing gets stuck (the environment is
    /// left as it was) or evaluation halts (the environment is left as the
    /// evaluation left it, printed lines included).
    pub fn try_evaluate(&mut self, s: String) -> (r: Option<InterpreterResult>)
        requires
            old(self).wf(),
        ensures
            final(self).wf(),
            match spec_interpret(s@, old(self)@) {
                None => r is None && final(self)@ == match spec_parse(spec_lex(s@)) {
                    Some(Ok(stmts)) => spec_evaluate(stmts, old(self)@).1,
                    _ => old(self)@,
                },
                Some((env, out, res)) => final(self)@ == env && match r {
                    Some(ir) => ir.stdout@ == out && match ir.result {
                        Ok(o) => res == Ok::<ObjV, InterpErrV>(o@),
                        Err(e) => res == Err::<ObjV, InterpErrV>(e@),
                    },
                    None => false,
                },
            },
    {
        let parsed = Parser::new(Lexer::new(s.as_str())).try_parse();
        let result = match parsed {
            None => return None,
            Some(Err(e)) => Err(Error::Parse(e)),
            Some(Ok(program)) => {
                let mut env = Env::new();
                std::mem::swap(&mut env, &mut self.env);
                let (env, r) = program.try_evaluate(env);
                self.env = env;
                match r {
                    None => return None,
                    Some(Ok(o)) => Ok(o),
                    Some(Err(e)) => Err(Error::Eval(e)),
                }
            },
        };
        let ghost printed = self.env@.stdout;
        let lines = self.env.pop_stdout();
        assert(strings_view(lines@) =~= printed);
        let stdout = join_lines(&lines);
        Some(InterpreterResult { stdout, result })
    }

    /// Evaluates a source text on which neither parsing gets stuck nor
    /// evaluation halts (see `try_evaluate`).
    pub fn evaluate(&mut self, s: String) -> (r: InterpreterResult)
        requires
            old(self).wf(),
            spec_interpret(s@, old(self)@) is Some,
        ensures
            final(self).wf(),
            match spec_interpret(s@, old(self)@) {
                Some((env, out, res)) => final(self)@ == env && r.stdout@ == out && match r.result {
                    Ok(o) => res == Ok::<ObjV, InterpErrV>(o@),
                    Err(e) => res == Err::<ObjV, InterpErrV>(e@),
                },
                None => false,
            },
    {
        match self.try_evaluate(s) {
            Some(r) => r,
            None => InterpreterResult { stdout: String::new(), result: Ok(Object::Null) },
        }
    }
}

} // verus!
