//! Running Monkey programs on the stack machine: parse, compile, run.
pub mod machine;
pub mod agreement;

use vstd::prelude::*;
use vstd::std_specs::convert::FromSpecImpl;
use crate::compiler;
use crate::compiler::{compile, is_compilable, spec_compile, stmts_compilable};
use crate::lexer::{spec_lex, Lexer};
use crate::object::{copy_object, ObjV, Object};
use crate::parser::error::{parse_errors_view, ParseErrorV};
use crate::parser::spec::spec_parse;
use crate::parser::{ParseErrors, Parser};
use self::machine::{spec_run, Outcome, RunV, VmErrV};

verus! {

/// Why running a source text gave no value: the machine's error, the
/// compiler's, or the parse errors.
#[derive(Debug)]
pub enum Error {
    Internal(machine::Error),
    Compile(compiler::Error),
    Parse(ParseErrors),
}

/// The mathematical view of a run error.
pub enum VmRunErrV {
    Internal(VmErrV),
    Compile,
    Parse(Seq<ParseErrorV>),
}

impl View for Error {
    type V = VmRunErrV;

    open spec fn view(&self) -> VmRunErrV {
        match self {
            Error::Internal(e) => VmRunErrV::Internal(e@),
            Error::Compile(_) => VmRunErrV::Compile,
            Error::Parse(e) => VmRunErrV::Parse(parse_errors_view(e.errors@)),
        }
    }
}

impl From<ParseErrors> for Error {
    fn from(err: ParseErrors) -> (r: Error) {
        Error::Parse(err)
    }
}

impl FromSpecImpl<ParseErrors> for Error {
    open spec fn obeys_from_spec() -> bool {
        true
    }

    open spec fn from_spec(err: ParseErrors) -> Error {
        Error::Parse(err)
    }
}

impl From<compiler::Error> for Error {
    fn from(err: compiler::Error) -> (r: Error) {
        Error::Compile(err)
    }
}

impl FromSpecImpl<compiler::Error> for Error {
    open spec fn obeys_from_spec() -> bool {
        true
    }

    open spec fn from_spec(err: compiler::Error) -> Error {
        Error::Compile(err)
    }
}

impl From<machine::Error> for Error {
    fn from(err: machine::Error) -> (r: Error) {
        Error::Internal(err)
    }
}

impl FromSpecImpl<machine::Error> for Error {
    open spec fn obeys_from_spec() -> bool {
        true
    }

    open spec fn from_spec(err: machine::Error) -> Error {
        Error::Internal(err)
    }
}

/// What running a source text gives, with the machine's last popped value
/// before the run: the result (`None` where parsing gets stuck, the program
/// holds what the compiler does not handle, or the machine halts), and the
/// last popped value after the run. The result is the last value popped,
/// `null` where none ever was.
pub open spec fn spec_vm_run(input: Seq<char>, last: Option<ObjV>) -> (
    Option<Result<ObjV, VmRunErrV>>,
    Option<ObjV>,
) {
    match spec_parse(spec_lex(input)) {
        None => (None, last),
        Some(Err(errs)) => (Some(Err(VmRunErrV::Parse(errs))), last),
        Some(Ok(stmts)) => if !stmts_compilable(stmts) {
            (None, last)
        } else {
            match spec_compile(stmts) {
                Err(_) => (Some(Err(VmRunErrV::Compile)), last),
                Ok(code) => match spec_run(code, Seq::empty(), last) {
                    (RunV::Done(_), l) => (
                        Some(
                            Ok(
                                match l {
                                    Some(o) => o,
                                    None => ObjV::Null,
                                },
                            ),
                        ),
                        l,
                    ),
                    (RunV::Fail(e), l) => (Some(Err(VmRunErrV::Internal(e))), l),
                    (RunV::Halt, l) => (None, l),
                },
            }
        },
    }
}

/// A machine that runs source texts.
pub struct Vm {
    vm: machine::Vm,
}

impl View for Vm {
    type V = Option<ObjV>;

    /// The value the last `OpPop` found on top of the stack.
    closed spec fn view(&self) -> Option<ObjV> {
        self.vm@
    }
}

impl Vm {
    pub fn new() -> (vm: Vm)
        ensures
            vm@ is None,
    {
        Vm { vm: machine::Vm::new() }
    }

    /// The value the last `OpPop` found on top of the stack.
    pub fn last_popped(&self) -> (r: Option<&Object>)
        ensures
            match r {
                Some(o) => self@ == Some(o@),
                None => self@ is None,
            },
    {
        self.vm.last_popped()
    }

    /// Parses, compiles and runs a source text (see `spec_vm_run`).
    pub fn try_run(&mut self, input: &str) -> (r: Option<Result<Object, Error>>)
        ensures
            final(self)@ == spec_vm_run(input@, old(self)@).1,
            match (r, spec_vm_run(input@, old(self)@).0) {
                (None, None) => true,
                (Some(Ok(o)), Some(res)) => res == Ok::<ObjV, VmRunErrV>(o@),
                (Some(Err(e)), Some(res)) => res == Err::<ObjV, VmRunErrV>(e@),
                _ => false,
            },
    {
        let parser = Parser::new(Lexer::new(input));
        let program = match parser.try_parse() {
            None => return None,
            Some(Err(e)) => return Some(Err(Error::Parse(e))),
            Some(Ok(p)) => p,
        };
        if !is_compilable(&program) {
            return None;
        }
        let compiled = match compile(program) {
            Ok(c) => c,
            Err(e) => return Some(Err(Error::Compile(e))),
        };
        let stack: Vec<Object> = Vec::new();
        assert(crate::object::objs_view(stack@) =~= Seq::<ObjV>::empty());
        match self.vm.execute(stack, compiled) {
            Outcome::Finished(Ok(_)) => {
                let v = match self.vm.last_popped() {
                    Some(o) => copy_object(o),
                    None => Object::Null,
                };
                Some(Ok(v))
            },
            Outcome::Finished(Err(e)) => Some(Err(Error::Internal(e))),
            Outcome::Halted => None,
        }
    }

    /// Parses, compiles and runs a source text on which neither parsing gets
    /// stuck, nor the compiler meets what it does not handle, nor the machine
    /// halts (see `try_run`).
    pub fn run(&mut self, input: &str) -> (r: Result<Object, Error>)
        requires
            spec_vm_run(input@, old(self)@).0 is Some,
        ensures
            final(self)@ == spec_vm_run(input@, old(self)@).1,
            match (r, spec_vm_run(input@, old(self)@).0) {
                (Ok(o), Some(res)) => res == Ok::<ObjV, VmRunErrV>(o@),
                (Err(e), Some(res)) => res == Err::<ObjV, VmRunErrV>(e@),
                _ => false,
            },
    {
        match self.try_run(input) {
            Some(r) => r,
            None => Ok(Object::Null),
        }
    }
}

} // verus!
