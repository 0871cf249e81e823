//! The meaning of evaluation: a big-step semantics over the views of syntax
//! trees, values and environments.
use vstd::prelude::*;
use crate::ast::{spec_join, CallV, ExprV, StmtV};
use crate::object::env::{spec_assign, spec_extend, spec_lookup, spec_print, EnvV};
use crate::object::{
    fits_isize, obj_printable, spec_apply_operator, spec_apply_prefix_operator, spec_is_truthy,
    spec_obj_text, spec_operator_faults, spec_prefix_faults, spec_type_str, BuiltIn, ClosureV, ObjV,
};
use crate::text::spec_decimal;
use super::error::EvalErrV;

verus! {

/// The outcome of evaluating an expression, a statement or a block: a value;
/// a value that a `return` carries out of the blocks up to the end of the
/// function call (or of the program), where it becomes the call's value; an
/// error; or `Halt` where evaluation aborts (an arithmetic fault, calls nested
/// deeper than `max_call_depth`, a value with no printed form handed to
/// `print`).
pub enum EvalV {
    Val(ObjV),
    Ret(ObjV),
    Fail(EvalErrV),
    Halt,
}

/// How deeply function calls may nest: as deep as a `usize` counts.
pub const MAX_CALL_DEPTH: usize = usize::MAX;

/// How deeply function calls may nest.
pub open spec fn max_call_depth() -> nat {
    MAX_CALL_DEPTH as nat
}

/// The value of an integer literal, as Rust's `usize` to `isize` cast gives it.
pub open spec fn spec_int_of_literal(v: nat) -> int {
    if v <= isize::MAX {
        v as int
    } else {
        v - usize::MAX - 1
    }
}

/// An integer value, or `Halt` where it does not fit in an `isize`.
pub open spec fn int_value(n: int) -> EvalV {
    if fits_isize(n) {
        EvalV::Val(ObjV::Integer(n))
    } else {
        EvalV::Halt
    }
}

pub open spec fn type_error(message: Seq<char>) -> EvalV {
    EvalV::Fail(EvalErrV::TypeError(message))
}

/// The number of bytes that `str::len` gives for a string.
pub open spec fn spec_byte_len(s: Seq<char>) -> int {
    (vstd::utf8::encode_utf8(s).len() as usize) as int
}

/// `object of type '<type>' has no <what>`.
pub open spec fn no_such(o: ObjV, what: Seq<char>) -> Seq<char> {
    "object of type '"@ + spec_type_str(o) + "' has no "@ + what
}

/// `<name>() takes exactly <count> (<n> given)`.
pub open spec fn wrong_count(name: Seq<char>, count: Seq<char>, n: nat) -> Seq<char> {
    name + "() takes exactly "@ + count + " ("@ + spec_decimal(n) + " given)"@
}

/// The line that `print` writes: its arguments printed and joined by spaces.
pub open spec fn spec_print_line(vals: Seq<ObjV>) -> Seq<char> {
    spec_join(Seq::new(vals.len(), |i: int| spec_obj_text(vals[i])), " "@)
}

/// A built-in function applied to evaluated arguments.
pub open spec fn spec_apply_builtin(b: BuiltIn, args: Seq<ObjV>, env: EnvV) -> (EvalV, EnvV) {
    match b {
        BuiltIn::Len => (
            if args.len() == 1 {
                match args[0] {
                    ObjV::Str(s) => int_value(spec_byte_len(s)),
                    ObjV::List(vs) => int_value(vs.len() as int),
                    x => type_error(no_such(x, "len()"@)),
                }
            } else {
                type_error(wrong_count("len"@, "one argument"@, args.len()))
            },
            env,
        ),
        BuiltIn::Index => (
            if args.len() == 2 {
                match (args[0], args[1]) {
                    (ObjV::List(vs), ObjV::Integer(i)) => if i < 0 {
                        type_error("list indices must be positive"@)
                    } else if i < vs.len() {
                        EvalV::Val(vs[i])
                    } else {
                        EvalV::Val(ObjV::Null)
                    },
                    (ObjV::List(_), x) => type_error(
                        "list indices must be integers, not "@ + spec_type_str(x),
                    ),
                    (x, _) => type_error(no_such(x, "index"@)),
                }
            } else {
                type_error(wrong_count("index"@, "two arguments"@, args.len()))
            },
            env,
        ),
        BuiltIn::Push => (
            if args.len() == 2 {
                match args[0] {
                    ObjV::List(vs) => EvalV::Val(ObjV::List(vs.push(args[1]))),
                    x => type_error(no_such(x, "push"@)),
                }
            } else {
                type_error(wrong_count("push"@, "two arguments"@, args.len()))
            },
            env,
        ),
        BuiltIn::Rest => (
            if args.len() == 1 {
                match args[0] {
                    ObjV::List(vs) => if vs.len() >= 1 {
                        EvalV::Val(ObjV::List(vs.subrange(1, vs.len() as int)))
                    } else {
                        EvalV::Val(ObjV::Null)
                    },
                    x => type_error(no_such(x, "rest()"@)),
                }
            } else {
                type_error(wrong_count("rest"@, "one argument"@, args.len()))
            },
            env,
        ),
        BuiltIn::Print => if forall|i: int| 0 <= i < args.len() ==> obj_printable(#[trigger] args[i]) {
            (EvalV::Val(ObjV::Null), spec_print(env, spec_print_line(args)))
        } else {
            (EvalV::Halt, env)
        },
    }
}

/// Binds each parameter to its argument in frame `scope`, in order.
pub open spec fn spec_bind(env: EnvV, scope: nat, params: Seq<Seq<char>>, vals: Seq<ObjV>) -> EnvV
    decreases params.len(),
{
    if params.len() == 0 || vals.len() == 0 {
        env
    } else {
        spec_assign(
            spec_bind(env, scope, params.drop_last(), vals.drop_last()),
            scope,
            params.last(),
            vals.last(),
        )
    }
}

/// The value of a function literal created in frame `scope`.
pub open spec fn closure_at(params: Seq<Seq<char>>, body: Seq<StmtV>, scope: nat) -> ObjV {
    ObjV::Function(ClosureV { params, body, scope })
}

/// Evaluates an expression in frame `scope`, with `depth` more nested calls
/// allowed: the outcome and the environment after it.
pub open spec fn spec_eval_expr(e: ExprV, scope: nat, env: EnvV, depth: nat) -> (EvalV, EnvV)
    decreases depth, e, 0nat,
{
    match e {
        ExprV::Identifier(n) => match spec_lookup(env, scope, n) {
            Some(o) => (EvalV::Val(o), env),
            None => (EvalV::Fail(EvalErrV::IdentifierNotFound(n)), env),
        },
        ExprV::IntegerLiteral(v) => (EvalV::Val(ObjV::Integer(spec_int_of_literal(v))), env),
        ExprV::StringLiteral(s) => (EvalV::Val(ObjV::Str(s)), env),
        ExprV::ListLiteral(vs) => {
            let (r, env1) = spec_eval_args(vs, 0, scope, env, depth);
            match r {
                Ok(objs) => (EvalV::Val(ObjV::List(objs)), env1),
                Err(stop) => (stop, env1),
            }
        },
        ExprV::Boolean(b) => (EvalV::Val(ObjV::Boolean(b)), env),
        ExprV::Prefix { operator, right } => {
            let (r, env1) = spec_eval_expr(*right, scope, env, depth);
            match r {
                EvalV::Val(o) => if spec_prefix_faults(operator, o) {
                    (EvalV::Halt, env1)
                } else {
                    match spec_apply_prefix_operator(operator, o) {
                        Ok(v) => (EvalV::Val(v), env1),
                        Err(err) => (EvalV::Fail(EvalErrV::ObjectError(err)), env1),
                    }
                },
                other => (other, env1),
            }
        },
        ExprV::Infix { operator, left, right } => {
            let (r1, env1) = spec_eval_expr(*left, scope, env, depth);
            match r1 {
                EvalV::Val(l) => {
                    let (r2, env2) = spec_eval_expr(*right, scope, env1, depth);
                    match r2 {
                        EvalV::Val(r) => if spec_operator_faults(operator, l, r) {
                            (EvalV::Halt, env2)
                        } else {
                            match spec_apply_operator(operator, l, r) {
                                Ok(v) => (EvalV::Val(v), env2),
                                Err(err) => (EvalV::Fail(EvalErrV::ObjectError(err)), env2),
                            }
                        },
                        other => (other, env2),
                    }
                },
                other => (other, env1),
            }
        },
        ExprV::If { condition, consequence, alternative } => {
            let (r, env1) = spec_eval_expr(*condition, scope, env, depth);
            match r {
                EvalV::Val(c) => if spec_is_truthy(c) {
                    spec_eval_block(consequence, 0, scope, env1, depth)
                } else {
                    spec_eval_block(alternative, 0, scope, env1, depth)
                },
                other => (other, env1),
            }
        },
        ExprV::FunctionLiteral(f) => (EvalV::Val(closure_at(f.params, f.body, scope)), env),
        ExprV::Call { function, arguments } => {
            let callee = match function {
                CallV::Identifier(n) => match spec_lookup(env, scope, n) {
                    Some(o) => Ok(o),
                    None => Err(EvalErrV::IdentifierNotFound(n)),
                },
                CallV::Literal(f) => Ok(closure_at(f.params, f.body, scope)),
            };
            match callee {
                Err(err) => (EvalV::Fail(err), env),
                Ok(ObjV::Function(c)) => spec_call_closure(c, arguments, scope, env, depth),
                Ok(ObjV::BuiltIn(b)) => {
                    let (r, env1) = spec_eval_args(arguments, 0, scope, env, depth);
                    match r {
                        Ok(vals) => spec_apply_builtin(b, vals, env1),
                        Err(stop) => (stop, env1),
                    }
                },
                Ok(other) => (EvalV::Fail(EvalErrV::CallExpressionExpectedFunction(other)), env),
            }
        },
        ExprV::Index { left, index } => {
            let (r1, env1) = spec_eval_expr(*left, scope, env, depth);
            match r1 {
                EvalV::Val(l) => {
                    let (r2, env2) = spec_eval_expr(*index, scope, env1, depth);
                    match r2 {
                        EvalV::Val(i) => spec_apply_builtin(BuiltIn::Index, seq![l, i], env2),
                        other => (other, env2),
                    }
                },
                other => (other, env1),
            }
        },
    }
}

/// Evaluates the expressions from the `i`-th on, from left to right, up to the
/// first that does not give a value.
pub open spec fn spec_eval_args(es: Seq<ExprV>, i: nat, scope: nat, env: EnvV, depth: nat) -> (
    Result<Seq<ObjV>, EvalV>,
    EnvV,
)
    decreases depth, es, es.len() - i,
{
    if i >= es.len() {
        (Ok(Seq::empty()), env)
    } else {
        proof {
            assert(decreases_to!(es => es[i as int]));
        }
        let (r, env1) = spec_eval_expr(es[i as int], scope, env, depth);
        match r {
            EvalV::Val(o) => {
                let (rest, env2) = spec_eval_args(es, i + 1, scope, env1, depth);
                match rest {
                    Ok(os) => (Ok(seq![o] + os), env2),
                    Err(stop) => (Err(stop), env2),
                }
            },
            other => (Err(other), env1),
        }
    }
}

/// A value that a `return` carries ends at the call: it is the call's value.
pub open spec fn end_of_call(r: (EvalV, EnvV)) -> (EvalV, EnvV) {
    match r.0 {
        EvalV::Ret(v) => (EvalV::Val(v), r.1),
        _ => r,
    }
}

/// Calls a function value: checks the number of arguments, evaluates them in
/// frame `scope`, and evaluates the body in a new frame whose parent is the
/// frame the function was created in, with the parameters bound. A `return`
/// in the body ends the call with its value.
pub open spec fn spec_call_closure(c: ClosureV, args: Seq<ExprV>, scope: nat, env: EnvV, depth: nat) -> (
    EvalV,
    EnvV,
)
    decreases depth, args, args.len() + 1,
{
    if c.params.len() != args.len() {
        (EvalV::Fail(EvalErrV::CallExpressionWrongNumArgs(c.params, args)), env)
    } else {
        let (r, env1) = spec_eval_args(args, 0, scope, env, depth);
        match r {
            Err(stop) => (stop, env1),
            Ok(vals) => if depth == 0 || env1.frames.len() >= usize::MAX {
                (EvalV::Halt, env1)
            } else {
                let inner = env1.frames.len();
                let env2 = spec_bind(spec_extend(env1, c.scope), inner, c.params, vals);
                end_of_call(spec_eval_block(c.body, 0, inner, env2, (depth - 1) as nat))
            },
        }
    }
}

/// Evaluates the statements from the `i`-th on: the outcome of the last one,
/// or of the first that does not give a value; `null` for no statements.
pub open spec fn spec_eval_block(ss: Seq<StmtV>, i: nat, scope: nat, env: EnvV, depth: nat) -> (
    EvalV,
    EnvV,
)
    decreases depth, ss, ss.len() - i,
{
    if i >= ss.len() {
        (EvalV::Val(ObjV::Null), env)
    } else {
        proof {
            assert(decreases_to!(ss => ss[i as int]));
        }
        let (r, env1) = spec_eval_stmt(ss[i as int], scope, env, depth);
        match r {
            EvalV::Val(v) => if i + 1 < ss.len() {
                spec_eval_block(ss, i + 1, scope, env1, depth)
            } else {
                (EvalV::Val(v), env1)
            },
            other => (other, env1),
        }
    }
}

/// Evaluates a statement: `let` binds in frame `scope` and gives `null`;
/// `return` turns a value into a returning one.
pub open spec fn spec_eval_stmt(s: StmtV, scope: nat, env: EnvV, depth: nat) -> (EvalV, EnvV)
    decreases depth, s, 0nat,
{
    match s {
        StmtV::Let(name, e) => {
            let (r, env1) = spec_eval_expr(e, scope, env, depth);
            match r {
                EvalV::Val(o) => (EvalV::Val(ObjV::Null), spec_assign(env1, scope, name, o)),
                other => (other, env1),
            }
        },
        StmtV::Return(e) => {
            let (r, env1) = spec_eval_expr(e, scope, env, depth);
            match r {
                EvalV::Val(o) => (EvalV::Ret(o), env1),
                other => (other, env1),
            }
        },
        StmtV::Expression(e) => spec_eval_expr(e, scope, env, depth),
    }
}

/// The result of a program: its value (also where a `return` carries it), or
/// its error; `None` where evaluation halts.
pub open spec fn spec_to_result(r: EvalV) -> Option<Result<ObjV, EvalErrV>> {
    match r {
        EvalV::Val(o) => Some(Ok(o)),
        EvalV::Ret(o) => Some(Ok(o)),
        EvalV::Fail(e) => Some(Err(e)),
        EvalV::Halt => None,
    }
}

/// Evaluates a program's statements in the root frame of `env`.
pub open spec fn spec_evaluate(ss: Seq<StmtV>, env: EnvV) -> (EvalV, EnvV) {
    spec_eval_block(ss, 0, 0, env, max_call_depth())
}

} // verus!
