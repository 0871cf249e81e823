//! The evaluator: walks syntax trees in an environment, proved to compute what
//! `semantics` says.
use vstd::prelude::*;
use crate::ast;
use crate::ast::{
    ExprV, copy_exprs, copy_func, exprs_view, lemma_exprs_view, lemma_stmts_view, stmts_view, strings_view,
    CallFunctionExpression, Expression, Program, Statement,
};
use crate::object::env::{Env, EnvV};
use crate::object::{
    copy_object, lemma_objs_view, objs_view, operator_faults, prefix_faults, BuiltIn, ObjV, Object,
    Scope,
};
use super::builtins::apply_builtin;
use super::error::{Error, EvalErrV};
use super::result::{eval_view, multiple_view, EvalMultiple, EvalResult, ShortCircuit};
use super::semantics::{spec_bind, spec_call_closure, spec_eval_args, spec_eval_block, spec_eval_expr, spec_eval_stmt, spec_evaluate, spec_int_of_literal, spec_to_result, EvalV, MAX_CALL_DEPTH};

verus! {

/// The value of an integer literal, as Rust's `usize` to `isize` cast gives it.
fn int_of_literal(v: usize) -> (r: isize)
    ensures
        r as int == spec_int_of_literal(v as nat),
{
    if v <= isize::MAX as usize {
        v as isize
    } else {
        let d: usize = v - (isize::MAX as usize) - 1;
        assert(usize::MAX == 2 * isize::MAX + 1) by {
            vstd::layout::usize_size_pow2();
        }
        isize::MIN + (d as isize)
    }
}

/// Prepends values already computed to the outcome of evaluating the rest.
spec fn prepend(done: Seq<ObjV>, rest: (Result<Seq<ObjV>, EvalV>, EnvV)) -> (
    Result<Seq<ObjV>, EvalV>,
    EnvV,
) {
    match rest.0 {
        Ok(os) => (Ok(done + os), rest.1),
        Err(stop) => (Err(stop), rest.1),
    }
}

/// Where argument evaluation gives values, it gives one per expression.
proof fn lemma_eval_args_len(es: Seq<ExprV>, i: nat, scope: nat, env: EnvV, depth: nat)
    requires
        i <= es.len(),
    ensures
        spec_eval_args(es, i, scope, env, depth).0 matches Ok(os) ==> os.len() == es.len() - i,
    decreases es.len() - i,
{
    if i < es.len() {
        let (r, env1) = spec_eval_expr(es[i as int], scope, env, depth);
        if let EvalV::Val(o) = r {
            lemma_eval_args_len(es, i + 1, scope, env1, depth);
        }
    }
}


/// Evaluates expressions from left to right, up to the first that does not
/// give a value.
fn eval_args(es: &Vec<Expression>, scope: usize, env: &mut Env, depth: usize) -> (r: EvalMultiple)
    requires
        old(env).wf(),
    ensures
        final(env).wf(),
        (multiple_view(r.0), final(env)@) == spec_eval_args(
            exprs_view(es@),
            0,
            scope as nat,
            old(env)@,
            depth as nat,
        ),
    decreases depth, exprs_view(es@), es.len(),
{
    let ghost esv = exprs_view(es@);
    proof {
        lemma_exprs_view(es@);
    }
    let mut vals: Vec<Object> = Vec::new();
    let mut i: usize = 0;
    assert(objs_view(vals@) =~= Seq::<ObjV>::empty());
    while i < es.len()
        invariant
            i <= es.len(),
            env.wf(),
            esv == exprs_view(es@),
            esv.len() == es.len(),
            forall|j: int| 0 <= j < es.len() ==> #[trigger] esv[j] == es@[j]@,
            spec_eval_args(esv, 0, scope as nat, old(env)@, depth as nat) == prepend(
                objs_view(vals@),
                spec_eval_args(esv, i as nat, scope as nat, env@, depth as nat),
            ),
        decreases es.len() - i,
    {
        let ghost env_before = env@;
        proof {
            assert(decreases_to!(esv => esv[i as int]));
        }
        let r = eval_expr(&es[i], scope, env, depth);
        match r {
            Ok(o) => {
                let ghost done = objs_view(vals@);
                proof {
                    let rest = spec_eval_args(esv, (i + 1) as nat, scope as nat, env@, depth as nat);
                    assert(spec_eval_args(esv, i as nat, scope as nat, env_before, depth as nat)
                        == prepend(seq![o@], rest));
                    match rest.0 {
                        Ok(os) => {
                            assert(done + (seq![o@] + os) =~= done.push(o@) + os);
                        },
                        Err(_) => {},
                    }
                }
                let ghost old_vals = vals@;
                vals.push(o);
                proof {
                    assert(vals@.drop_last() =~= old_vals);
                    assert(objs_view(vals@) == done.push(o@));
                }
                i = i + 1;
            },
            Err(s) => {
                return EvalMultiple(Err(s));
            },
        }
    }
    assert(objs_view(vals@) + Seq::<ObjV>::empty() =~= objs_view(vals@));
    EvalMultiple(Ok(vals))
}

/// Evaluates statements: the outcome of the last one, or of the first that
/// does not give a value; `null` for none.
fn eval_block(ss: &Vec<Statement>, scope: usize, env: &mut Env, depth: usize) -> (r: EvalResult)
    requires
        old(env).wf(),
    ensures
        final(env).wf(),
        (eval_view(r), final(env)@) == spec_eval_block(
            stmts_view(ss@),
            0,
            scope as nat,
            old(env)@,
            depth as nat,
        ),
    decreases depth, stmts_view(ss@), ss.len(),
{
    let ghost ssv = stmts_view(ss@);
    proof {
        lemma_stmts_view(ss@);
    }
    if ss.len() == 0 {
        return Ok(Object::Null);
    }
    let mut i: usize = 0;
    loop
        invariant
            i < ss.len(),
            env.wf(),
            ssv == stmts_view(ss@),
            ssv.len() == ss.len(),
            forall|j: int| 0 <= j < ss.len() ==> #[trigger] ssv[j] == ss@[j]@,
            spec_eval_block(ssv, 0, scope as nat, old(env)@, depth as nat) == spec_eval_block(
                ssv,
                i as nat,
                scope as nat,
                env@,
                depth as nat,
            ),
        decreases ss.len() - i,
    {
        proof {
            assert(decreases_to!(ssv => ssv[i as int]));
        }
        let r = eval_stmt(&ss[i], scope, env, depth);
        match r {
            Ok(v) => {
                if i + 1 < ss.len() {
                    i = i + 1;
                } else {
                    return Ok(v);
                }
            },
            Err(s) => {
                return Err(s);
            },
        }
    }
}

/// Evaluates a statement.
fn eval_stmt(s: &Statement, scope: usize, env: &mut Env, depth: usize) -> (r: EvalResult)
    requires
        old(env).wf(),
    ensures
        final(env).wf(),
        (eval_view(r), final(env)@) == spec_eval_stmt(s@, scope as nat, old(env)@, depth as nat),
    decreases depth, s@, 1nat,
{
    match s {
        Statement::Let(name, e) => {
            proof {
                assert(decreases_to!(s@ => (s@)->Let_1));
            }
            match eval_expr(e, scope, env, depth) {
                Ok(o) => {
                    env.set(scope, name.clone(), o);
                    Ok(Object::Null)
                },
                Err(sc) => Err(sc),
            }
        },
        Statement::Return(e) => {
            proof {
                assert(decreases_to!(s@ => (s@)->Return_0));
            }
            match eval_expr(e, scope, env, depth) {
                Ok(o) => Err(ShortCircuit::ReturningObject(o)),
                Err(sc) => Err(sc),
            }
        },
        Statement::Expression(e) => {
            proof {
                assert(decreases_to!(s@ => (s@)->Expression_0));
            }
            eval_expr(e, scope, env, depth)
        },
    }
}

/// Calls a function value with the given argument expressions, evaluated in
/// frame `scope`.
fn call_closure(f: &crate::object::Function, args: &Vec<Expression>, scope: usize, env: &mut Env, depth: usize) -> (r:
    EvalResult)
    requires
        old(env).wf(),
    ensures
        final(env).wf(),
        (eval_view(r), final(env)@) == spec_call_closure(
            f@,
            exprs_view(args@),
            scope as nat,
            old(env)@,
            depth as nat,
        ),
    decreases depth, exprs_view(args@), args.len() + 1,
{
    proof {
        lemma_exprs_view(args@);
    }
    if f.params.len() != args.len() {
        return Err(
            ShortCircuit::RuntimeError(
                Error::CallExpressionWrongNumArgs {
                    params: ast::copy_strings(&f.params),
                    arguments: copy_exprs(args),
                },
            ),
        );
    }
    let vals = match eval_args(args, scope, env, depth).0 {
        Ok(vals) => vals,
        Err(s) => return Err(s),
    };
    let ghost env1 = env@;
    proof {
        lemma_eval_args_len(exprs_view(args@), 0, scope as nat, old(env)@, depth as nat);
        lemma_objs_view(vals@);
    }
    if depth == 0 || env.scopes() >= usize::MAX {
        return Err(ShortCircuit::Halted);
    }
    let inner = env.new_extending(f.env.0);
    let ghost env2 = env@;
    let ghost pv = strings_view(f.params@);
    let ghost vv = objs_view(vals@);
    let mut i: usize = 0;
    assert(pv.take(0) =~= Seq::<Seq<char>>::empty());
    while i < f.params.len()
        invariant
            i <= f.params.len(),
            f.params.len() == vals.len(),
            env.wf(),
            pv == strings_view(f.params@),
            vv == objs_view(vals@),
            vv.len() == vals.len(),
            forall|j: int| 0 <= j < vals.len() ==> #[trigger] vv[j] == vals@[j]@,
            env@ == spec_bind(env2, inner as nat, pv.take(i as int), vv.take(i as int)),
        decreases f.params.len() - i,
    {
        let ghost before = env@;
        env.set(inner, f.params[i].clone(), copy_object(&vals[i]));
        proof {
            assert(pv.take(i + 1).drop_last() =~= pv.take(i as int));
            assert(vv.take(i + 1).drop_last() =~= vv.take(i as int));
            assert(pv.take(i + 1).last() == f.params@[i as int]@);
            assert(vv.take(i + 1).last() == vals@[i as int]@);
        }
        i = i + 1;
    }
    proof {
        assert(pv.take(i as int) =~= pv);
        assert(vv.take(i as int) =~= vv);
    }
    match eval_block(&f.body, inner, env, depth - 1) {
        Err(ShortCircuit::ReturningObject(o)) => Ok(o),
        other => other,
    }
}

/// Evaluates an expression in frame `scope`, with `depth` more nested calls
/// allowed.
fn eval_expr(e: &Expression, scope: usize, env: &mut Env, depth: usize) -> (r: EvalResult)
    requires
        old(env).wf(),
    ensures
        final(env).wf(),
        (eval_view(r), final(env)@) == spec_eval_expr(e@, scope as nat, old(env)@, depth as nat),
    decreases depth, e@, 1nat,
{
    match e {
        Expression::Identifier(n) => match env.get(scope, n) {
            Some(o) => Ok(o),
            None => Err(ShortCircuit::RuntimeError(Error::IdentifierNotFound { name: n.clone() })),
        },
        Expression::IntegerLiteral(v) => Ok(Object::Integer(int_of_literal(*v))),
        Expression::StringLiteral(s) => Ok(Object::Str(s.clone())),
        Expression::ListLiteral(vs) => {
            proof {
                assert(decreases_to!(e@ => (e@)->ListLiteral_0));
            }
            match eval_args(vs, scope, env, depth).0 {
                Ok(objs) => Ok(Object::List(objs)),
                Err(s) => Err(s),
            }
        },
        Expression::Boolean(b) => Ok(Object::Boolean(*b)),
        Expression::Prefix { .. } => eval_prefix(e, scope, env, depth),
        Expression::Infix { .. } => eval_infix(e, scope, env, depth),
        Expression::If { .. } => eval_if(e, scope, env, depth),
        Expression::FunctionLiteral(f) => Ok(
            Object::Function(crate::object::Function::new(Scope(scope), copy_func(f))),
        ),
        Expression::Call { .. } => eval_call(e, scope, env, depth),
        Expression::Index { .. } => eval_index(e, scope, env, depth),
    }
}

fn eval_prefix(e: &Expression, scope: usize, env: &mut Env, depth: usize) -> (r: EvalResult)
    requires
        old(env).wf(),
        e is Prefix,
    ensures
        final(env).wf(),
        (eval_view(r), final(env)@) == spec_eval_expr(e@, scope as nat, old(env)@, depth as nat),
    decreases depth, e@, 0nat,
{
    match e {
        Expression::Prefix { operator, right } => {
            proof {
                assert(decreases_to!(e@ => (e@)->Prefix_right));
            }
            match eval_expr(right, scope, env, depth) {
                Ok(o) => {
                    if prefix_faults(*operator, &o) {
                        return Err(ShortCircuit::Halted);
                    }
                    match o.apply_prefix_operator(*operator) {
                        Ok(v) => Ok(v),
                        Err(err) => Err(ShortCircuit::RuntimeError(Error::ObjectError(err))),
                    }
                },
                Err(s) => Err(s),
            }
        },
        _ => Err(ShortCircuit::Halted),
    }
}

fn eval_infix(e: &Expression, scope: usize, env: &mut Env, depth: usize) -> (r: EvalResult)
    requires
        old(env).wf(),
        e is Infix,
    ensures
        final(env).wf(),
        (eval_view(r), final(env)@) == spec_eval_expr(e@, scope as nat, old(env)@, depth as nat),
    decreases depth, e@, 0nat,
{
    match e {
        Expression::Infix { operator, left, right } => {
            proof {
                assert(decreases_to!(e@ => (e@)->Infix_left));
                assert(decreases_to!(e@ => (e@)->Infix_right));
            }
            let l = match eval_expr(left, scope, env, depth) {
                Ok(l) => l,
                Err(s) => return Err(s),
            };
            let r = match eval_expr(right, scope, env, depth) {
                Ok(r) => r,
                Err(s) => return Err(s),
            };
            if operator_faults(*operator, &l, &r) {
                return Err(ShortCircuit::Halted);
            }
            match l.apply_operator(*operator, r) {
                Ok(v) => Ok(v),
                Err(err) => Err(ShortCircuit::RuntimeError(Error::ObjectError(err))),
            }
        },
        _ => Err(ShortCircuit::Halted),
    }
}

fn eval_if(e: &Expression, scope: usize, env: &mut Env, depth: usize) -> (r: EvalResult)
    requires
        old(env).wf(),
        e is If,
    ensures
        final(env).wf(),
        (eval_view(r), final(env)@) == spec_eval_expr(e@, scope as nat, old(env)@, depth as nat),
    decreases depth, e@, 0nat,
{
    match e {
        Expression::If { condition, consequence, alternative } => {
            proof {
                assert(decreases_to!(e@ => (e@)->If_condition));
            }
            let c = match eval_expr(condition, scope, env, depth) {
                Ok(c) => c,
                Err(s) => return Err(s),
            };
            proof {
                assert(decreases_to!(e@ => (e@)->If_consequence));
                assert(decreases_to!(e@ => (e@)->If_alternative));
            }
            if c.is_truthy() {
                eval_block(consequence, scope, env, depth)
            } else {
                eval_block(alternative, scope, env, depth)
            }
        },
        _ => Err(ShortCircuit::Halted),
    }
}

fn eval_call(e: &Expression, scope: usize, env: &mut Env, depth: usize) -> (r: EvalResult)
    requires
        old(env).wf(),
        e is Call,
    ensures
        final(env).wf(),
        (eval_view(r), final(env)@) == spec_eval_expr(e@, scope as nat, old(env)@, depth as nat),
    decreases depth, e@, 0nat,
{
    match e {
        Expression::Call { function, arguments } => {
            proof {
                assert(decreases_to!(e@ => (e@)->Call_arguments));
                reveal_with_fuel(crate::ast::expr_view, 2);
            }
            let callee = match function {
                CallFunctionExpression::Identifier(n) => match env.get(scope, n) {
                    Some(o) => Ok(o),
                    None => Err(Error::IdentifierNotFound { name: n.clone() }),
                },
                CallFunctionExpression::Literal(f) => Ok(
                    Object::Function(crate::object::Function::new(Scope(scope), copy_func(f))),
                ),
            };
            match callee {
                Err(err) => Err(ShortCircuit::RuntimeError(err)),
                Ok(Object::Function(f)) => call_closure(&f, arguments, scope, env, depth),
                Ok(Object::BuiltIn(b)) => match eval_args(arguments, scope, env, depth).0 {
                    Ok(vals) => apply_builtin(b, vals, env),
                    Err(s) => Err(s),
                },
                Ok(other) => Err(
                    ShortCircuit::RuntimeError(Error::CallExpressionExpectedFunction { received: other }),
                ),
            }
        },
        _ => Err(ShortCircuit::Halted),
    }
}

fn eval_index(e: &Expression, scope: usize, env: &mut Env, depth: usize) -> (r: EvalResult)
    requires
        old(env).wf(),
        e is Index,
    ensures
        final(env).wf(),
        (eval_view(r), final(env)@) == spec_eval_expr(e@, scope as nat, old(env)@, depth as nat),
    decreases depth, e@, 0nat,
{
    match e {
        Expression::Index { left, index } => {
            proof {
                assert(decreases_to!(e@ => (e@)->Index_left));
                assert(decreases_to!(e@ => (e@)->Index_index));
            }
            let l = match eval_expr(left, scope, env, depth) {
                Ok(l) => l,
                Err(s) => return Err(s),
            };
            let i = match eval_expr(index, scope, env, depth) {
                Ok(i) => i,
                Err(s) => return Err(s),
            };
            let args = vec![l, i];
            proof {
                lemma_objs_view(args@);
                assert(objs_view(args@) =~= seq![l@, i@]);
            }
            apply_builtin(BuiltIn::Index, args, env)
        },
        _ => Err(ShortCircuit::Halted),
    }
}

impl Program {
    /// Evaluates the program in the root frame of `env`: the environment after
    /// it, and its result (a value that a `return` carries is the result too),
    /// or `None` where evaluation aborts (see `EvalV::Halt`).
    pub fn try_evaluate(self, env: Env) -> (r: (Env, Option<Result<Object, Error>>))
        requires
            env.wf(),
        ensures
            r.0.wf(),
            r.0@ == spec_evaluate(self@, env@).1,
            match r.1 {
                None => spec_evaluate(self@, env@).0 is Halt,
                Some(Ok(o)) => spec_to_result(spec_evaluate(self@, env@).0) == Some(
                    Ok::<ObjV, EvalErrV>(o@),
                ),
                Some(Err(e)) => spec_to_result(spec_evaluate(self@, env@).0) == Some(
                    Err::<ObjV, EvalErrV>(e@),
                ),
            },
    {
        let mut env = env;
        let r = eval_block(&self.statements, 0, &mut env, MAX_CALL_DEPTH);
        let result = match r {
            Ok(o) => Some(Ok(o)),
            Err(ShortCircuit::ReturningObject(o)) => Some(Ok(o)),
            Err(ShortCircuit::RuntimeError(e)) => Some(Err(e)),
            Err(ShortCircuit::Halted) => None,
        };
        (env, result)
    }

    /// Evaluates the program in the root frame of `env`, which must not abort
    /// (see `try_evaluate`).
    pub fn evaluate(self, env: Env) -> (r: (Env, Result<Object, Error>))
        requires
            env.wf(),
            !(spec_evaluate(self@, env@).0 is Halt),
        ensures
            r.0.wf(),
            r.0@ == spec_evaluate(self@, env@).1,
            match r.1 {
                Ok(o) => spec_to_result(spec_evaluate(self@, env@).0) == Some(
                    Ok::<ObjV, EvalErrV>(o@),
                ),
                Err(e) => spec_to_result(spec_evaluate(self@, env@).0) == Some(
                    Err::<ObjV, EvalErrV>(e@),
                ),
            },
    {
        let (env, r) = self.try_evaluate(env);
        match r {
            Some(r) => (env, r),
            None => (env, Ok(Object::Null)),
        }
    }
}

} // verus!
