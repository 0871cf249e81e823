//! Errors met while evaluating a program, and their messages.
use vstd::prelude::*;
use vstd::std_specs::convert::FromSpecImpl;
use crate::ast::{exprs_view, strings_view, ExprV, Expression};
use crate::object;
use crate::object::{spec_obj_error_text, spec_type_str, ObjErrV, ObjV, Object};
use crate::text::{lit, push_decimal, push_str, push_string, spec_decimal};

verus! {

#[derive(Debug, PartialEq)]
pub enum Error {
    ObjectError(object::Error),
    TypeError { message: String },
    IdentifierNotFound { name: String },
    CallExpressionExpectedFunction { received: Object },
    CallExpressionWrongNumArgs { params: Vec<String>, arguments: Vec<Expression> },
}

/// The mathematical view of an evaluation error.
pub enum EvalErrV {
    ObjectError(ObjErrV),
    TypeError(Seq<char>),
    IdentifierNotFound(Seq<char>),
    CallExpressionExpectedFunction(ObjV),
    CallExpressionWrongNumArgs(Seq<Seq<char>>, Seq<ExprV>),
}

impl View for Error {
    type V = EvalErrV;

    open spec fn view(&self) -> EvalErrV {
        match self {
            Error::ObjectError(e) => EvalErrV::ObjectError(e@),
            Error::TypeError { message } => EvalErrV::TypeError(message@),
            Error::IdentifierNotFound { name } => EvalErrV::IdentifierNotFound(name@),
            Error::CallExpressionExpectedFunction { received } => EvalErrV::CallExpressionExpectedFunction(
                received@,
            ),
            Error::CallExpressionWrongNumArgs { params, arguments } => EvalErrV::CallExpressionWrongNumArgs(
                strings_view(params@),
                exprs_view(arguments@),
            ),
        }
    }
}

impl From<object::Error> for Error {
    fn from(err: object::Error) -> (r: Error) {
        Error::ObjectError(err)
    }
}

impl FromSpecImpl<object::Error> for Error {
    open spec fn obeys_from_spec() -> bool {
        true
    }

    open spec fn from_spec(err: object::Error) -> Error {
        Error::ObjectError(err)
    }
}

/// The message of an evaluation error.
pub open spec fn spec_eval_error_text(e: EvalErrV) -> Seq<char> {
    match e {
        EvalErrV::ObjectError(err) => spec_obj_error_text(err),
        EvalErrV::TypeError(message) => message,
        EvalErrV::IdentifierNotFound(name) => "NameError: name '"@ + name + "' is not defined"@,
        EvalErrV::CallExpressionExpectedFunction(received) => "TypeError: '"@ + spec_type_str(received)
            + "' object is not callable"@,
        EvalErrV::CallExpressionWrongNumArgs(params, arguments) => "TypeError: function takes "@
            + spec_decimal(params.len()) + " positional "@ + (if params.len() == 1 {
            "argument"@
        } else {
            "arguments"@
        }) + " but "@ + spec_decimal(arguments.len()) + " "@ + (if arguments.len() == 1 {
            "was"@
        } else {
            "were"@
        }) + " given"@,
    }
}

impl Error {
    /// The message of the error, e.g. `NameError: name 'x' is not defined`.
    pub fn display(&self) -> (r: String)
        ensures
            r@ == spec_eval_error_text(self@),
    {
        match self {
            Error::ObjectError(err) => err.display(),
            Error::TypeError { message } => message.clone(),
            Error::IdentifierNotFound { name } => {
                let mut r = lit("NameError: name '");
                push_string(&mut r, name);
                push_str(&mut r, "' is not defined");
                r
            },
            Error::CallExpressionExpectedFunction { received } => {
                let mut r = lit("TypeError: '");
                push_string(&mut r, &received.type_str());
                push_str(&mut r, "' object is not callable");
                r
            },
            Error::CallExpressionWrongNumArgs { params, arguments } => {
                let mut r = lit("TypeError: function takes ");
                push_decimal(&mut r, params.len() as u128);
                push_str(&mut r, " positional ");
                if params.len() == 1 {
                    push_str(&mut r, "argument");
                } else {
                    push_str(&mut r, "arguments");
                }
                push_str(&mut r, " but ");
                push_decimal(&mut r, arguments.len() as u128);
                push_str(&mut r, " ");
                if arguments.len() == 1 {
                    push_str(&mut r, "was");
                } else {
                    push_str(&mut r, "were");
                }
                push_str(&mut r, " given");
                proof {
                    crate::ast::lemma_exprs_view(arguments@);
                }
                assert(r@ =~= spec_eval_error_text(self@));
                r
            },
        }
    }
}

} // verus!
