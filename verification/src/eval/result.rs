//! What evaluation hands back: a value, or what cuts evaluation short.
use vstd::prelude::*;
use crate::object::{objs_view, ObjV, Object};
use super::error::Error;
use super::semantics::EvalV;

verus! {

/// What cuts evaluation short: a value that a `return` carries out, an error,
/// or an abort (see `EvalV::Halt`).
#[derive(Debug)]
pub enum ShortCircuit {
    ReturningObject(Object),
    RuntimeError(Error),
    Halted,
}

/// A value, or what cut evaluation short.
pub type EvalResult = Result<Object, ShortCircuit>;

/// The outcome that an evaluation result stands for.
pub open spec fn eval_view(r: EvalResult) -> EvalV {
    match r {
        Ok(o) => EvalV::Val(o@),
        Err(ShortCircuit::ReturningObject(o)) => EvalV::Ret(o@),
        Err(ShortCircuit::RuntimeError(e)) => EvalV::Fail(e@),
        Err(ShortCircuit::Halted) => EvalV::Halt,
    }
}

/// The values of several expressions, or what cut their evaluation short.
pub struct EvalMultiple(pub Result<Vec<Object>, ShortCircuit>);

/// The view of evaluated arguments.
pub open spec fn multiple_view(r: Result<Vec<Object>, ShortCircuit>) -> Result<Seq<ObjV>, EvalV> {
    match r {
        Ok(v) => Ok(objs_view(v@)),
        Err(s) => Err(eval_view(Err(s))),
    }
}

/// The result of a whole program from its evaluation result.
pub trait ToResult: Sized {
    spec fn halted(&self) -> bool;

    fn to_result(self) -> (r: Result<Object, Error>)
        requires
            !self.halted(),
    ;
}

impl ToResult for EvalResult {
    open spec fn halted(&self) -> bool {
        *self matches Err(ShortCircuit::Halted)
    }

    /// A value, including one that a `return` carries, is the result; an error
    /// is the error.
    fn to_result(self) -> (r: Result<Object, Error>)
        ensures
            match r {
                Ok(o) => eval_view(self) == EvalV::Val(o@) || eval_view(self) == EvalV::Ret(o@),
                Err(e) => eval_view(self) == EvalV::Fail(e@),
            },
    {
        match self {
            Ok(o) => Ok(o),
            Err(ShortCircuit::ReturningObject(o)) => Ok(o),
            Err(ShortCircuit::RuntimeError(e)) => Err(e),
            Err(ShortCircuit::Halted) => Ok(Object::Null),
        }
    }
}

} // verus!
