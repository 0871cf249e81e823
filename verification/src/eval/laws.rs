//! What evaluation keeps: printed lines are only ever added after those
//! already printed, frames are never removed, and a `let` binds what a later
//! lookup finds.
use vstd::prelude::*;
use crate::ast::{ExprV, StmtV};
use crate::object::env::{lemma_lookup_assigned, spec_assign, spec_extend, spec_lookup, EnvV};
use crate::object::{BuiltIn, ClosureV, ObjV};
use super::semantics::{
    spec_apply_builtin, spec_bind, spec_call_closure, spec_eval_args, spec_eval_block, spec_eval_expr,
    spec_eval_stmt, EvalV,
};

verus! {

/// `b` holds every line printed in `a`, in order and first, and at least its
/// frames.
pub open spec fn env_grows(a: EnvV, b: EnvV) -> bool {
    &&& a.stdout.len() <= b.stdout.len()
    &&& b.stdout.subrange(0, a.stdout.len() as int) == a.stdout
    &&& a.frames.len() <= b.frames.len()
}

proof fn lemma_grows_refl(a: EnvV)
    ensures
        env_grows(a, a),
{
    assert(a.stdout.subrange(0, a.stdout.len() as int) =~= a.stdout);
}

proof fn lemma_grows_trans(a: EnvV, b: EnvV, c: EnvV)
    requires
        env_grows(a, b),
        env_grows(b, c),
    ensures
        env_grows(a, c),
{
    assert(c.stdout.subrange(0, a.stdout.len() as int) =~= c.stdout.subrange(
        0,
        b.stdout.len() as int,
    ).subrange(0, a.stdout.len() as int));
}

proof fn lemma_assign_grows(env: EnvV, scope: nat, name: Seq<char>, v: ObjV)
    ensures
        env_grows(env, spec_assign(env, scope, name, v)),
{
    lemma_grows_refl(env);
}

proof fn lemma_bind_grows(env: EnvV, scope: nat, params: Seq<Seq<char>>, vals: Seq<ObjV>)
    ensures
        env_grows(env, spec_bind(env, scope, params, vals)),
    decreases params.len(),
{
    if params.len() == 0 || vals.len() == 0 {
        lemma_grows_refl(env);
    } else {
        let inner = spec_bind(env, scope, params.drop_last(), vals.drop_last());
        lemma_bind_grows(env, scope, params.drop_last(), vals.drop_last());
        lemma_assign_grows(inner, scope, params.last(), vals.last());
        lemma_grows_trans(env, inner, spec_bind(env, scope, params, vals));
    }
}

proof fn lemma_builtin_grows(b: BuiltIn, args: Seq<ObjV>, env: EnvV)
    ensures
        env_grows(env, spec_apply_builtin(b, args, env).1),
{
    lemma_grows_refl(env);
    let after = spec_apply_builtin(b, args, env).1;
    if after != env {
        assert(after.stdout.subrange(0, env.stdout.len() as int) =~= env.stdout);
    }
}

/// Evaluating an expression only adds printed lines after those printed
/// before, and never removes a frame.
pub proof fn lemma_eval_expr_grows(e: ExprV, scope: nat, env: EnvV, depth: nat)
    ensures
        env_grows(env, spec_eval_expr(e, scope, env, depth).1),
    decreases depth, e, 0nat,
{
    let out = spec_eval_expr(e, scope, env, depth).1;
    match e {
        ExprV::ListLiteral(vs) => {
            lemma_eval_args_grows(vs, 0, scope, env, depth);
        },
        ExprV::Prefix { operator, right } => {
            lemma_eval_expr_grows(*right, scope, env, depth);
        },
        ExprV::Infix { operator, left, right } => {
            let (r1, env1) = spec_eval_expr(*left, scope, env, depth);
            lemma_eval_expr_grows(*left, scope, env, depth);
            if r1 is Val {
                lemma_eval_expr_grows(*right, scope, env1, depth);
                lemma_grows_trans(env, env1, spec_eval_expr(*right, scope, env1, depth).1);
            }
        },
        ExprV::If { condition, consequence, alternative } => {
            let (r, env1) = spec_eval_expr(*condition, scope, env, depth);
            lemma_eval_expr_grows(*condition, scope, env, depth);
            if r is Val {
                lemma_eval_block_grows(consequence, 0, scope, env1, depth);
                lemma_eval_block_grows(alternative, 0, scope, env1, depth);
                lemma_grows_trans(env, env1, out);
            }
        },
        ExprV::Call { function, arguments } => {
            lemma_grows_refl(env);
            let callee = match function {
                crate::ast::CallV::Identifier(n) => match spec_lookup(env, scope, n) {
                    Some(o) => Ok(o),
                    None => Err(()),
                },
                crate::ast::CallV::Literal(f) => Ok(
                    ObjV::Function(ClosureV { params: f.params, body: f.body, scope }),
                ),
            };
            match callee {
                Ok(ObjV::Function(c)) => {
                    lemma_call_closure_grows(c, arguments, scope, env, depth);
                },
                Ok(ObjV::BuiltIn(b)) => {
                    let (r, env1) = spec_eval_args(arguments, 0, scope, env, depth);
                    lemma_eval_args_grows(arguments, 0, scope, env, depth);
                    if let Ok(vals) = r {
                        lemma_builtin_grows(b, vals, env1);
                        lemma_grows_trans(env, env1, out);
                    }
                },
                _ => {},
            }
        },
        ExprV::Index { left, index } => {
            let (r1, env1) = spec_eval_expr(*left, scope, env, depth);
            lemma_eval_expr_grows(*left, scope, env, depth);
            if let EvalV::Val(l) = r1 {
                let (r2, env2) = spec_eval_expr(*index, scope, env1, depth);
                lemma_eval_expr_grows(*index, scope, env1, depth);
                lemma_grows_trans(env, env1, env2);
                if let EvalV::Val(i) = r2 {
                    lemma_builtin_grows(BuiltIn::Index, seq![l, i], env2);
                    lemma_grows_trans(env, env2, out);
                }
            }
        },
        _ => {
            lemma_grows_refl(env);
        },
    }
}

/// Evaluating expressions only adds printed lines and never removes a frame.
pub proof fn lemma_eval_args_grows(es: Seq<ExprV>, i: nat, scope: nat, env: EnvV, depth: nat)
    ensures
        env_grows(env, spec_eval_args(es, i, scope, env, depth).1),
    decreases depth, es, es.len() - i,
{
    if i >= es.len() {
        lemma_grows_refl(env);
    } else {
        assert(decreases_to!(es => es[i as int]));
        let (r, env1) = spec_eval_expr(es[i as int], scope, env, depth);
        lemma_eval_expr_grows(es[i as int], scope, env, depth);
        if r is Val {
            lemma_eval_args_grows(es, i + 1, scope, env1, depth);
            lemma_grows_trans(env, env1, spec_eval_args(es, i + 1, scope, env1, depth).1);
        }
    }
}

/// Calling a function only adds printed lines and never removes a frame.
pub proof fn lemma_call_closure_grows(
    c: ClosureV,
    args: Seq<ExprV>,
    scope: nat,
    env: EnvV,
    depth: nat,
)
    ensures
        env_grows(env, spec_call_closure(c, args, scope, env, depth).1),
    decreases depth, args, args.len() + 1,
{
    if c.params.len() != args.len() {
        lemma_grows_refl(env);
    } else {
        let (r, env1) = spec_eval_args(args, 0, scope, env, depth);
        lemma_eval_args_grows(args, 0, scope, env, depth);
        if let Ok(vals) = r {
            if !(depth == 0 || env1.frames.len() >= usize::MAX) {
                let inner = env1.frames.len();
                let ext = spec_extend(env1, c.scope);
                let env2 = spec_bind(ext, inner, c.params, vals);
                assert(ext.stdout.subrange(0, env1.stdout.len() as int) =~= env1.stdout);
                lemma_bind_grows(ext, inner, c.params, vals);
                lemma_grows_trans(env1, ext, env2);
                lemma_eval_block_grows(c.body, 0, inner, env2, (depth - 1) as nat);
                lemma_grows_trans(env1, env2, spec_eval_block(c.body, 0, inner, env2, (depth - 1) as nat).1);
                lemma_grows_trans(env, env1, spec_call_closure(c, args, scope, env, depth).1);
            }
        }
    }
}

/// Evaluating statements only adds printed lines and never removes a frame.
pub proof fn lemma_eval_block_grows(ss: Seq<StmtV>, i: nat, scope: nat, env: EnvV, depth: nat)
    ensures
        env_grows(env, spec_eval_block(ss, i, scope, env, depth).1),
    decreases depth, ss, ss.len() - i,
{
    if i >= ss.len() {
        lemma_grows_refl(env);
    } else {
        assert(decreases_to!(ss => ss[i as int]));
        let (r, env1) = spec_eval_stmt(ss[i as int], scope, env, depth);
        lemma_eval_stmt_grows(ss[i as int], scope, env, depth);
        if r is Val && i + 1 < ss.len() {
            lemma_eval_block_grows(ss, i + 1, scope, env1, depth);
            lemma_grows_trans(env, env1, spec_eval_block(ss, i + 1, scope, env1, depth).1);
        }
    }
}

/// Evaluating a statement only adds printed lines and never removes a frame.
pub proof fn lemma_eval_stmt_grows(s: StmtV, scope: nat, env: EnvV, depth: nat)
    ensures
        env_grows(env, spec_eval_stmt(s, scope, env, depth).1),
    decreases depth, s, 0nat,
{
    match s {
        StmtV::Let(name, e) => {
            let (r, env1) = spec_eval_expr(e, scope, env, depth);
            lemma_eval_expr_grows(e, scope, env, depth);
            if let EvalV::Val(o) = r {
                lemma_assign_grows(env1, scope, name, o);
                lemma_grows_trans(env, env1, spec_assign(env1, scope, name, o));
            }
        },
        StmtV::Return(e) => {
            lemma_eval_expr_grows(e, scope, env, depth);
        },
        StmtV::Expression(e) => {
            lemma_eval_expr_grows(e, scope, env, depth);
        },
    }
}

/// After `let name = e` in an existing frame, where `e` gives a value, a
/// lookup of `name` from that frame finds that value.
pub proof fn lemma_let_binds(name: Seq<char>, e: ExprV, scope: nat, env: EnvV, depth: nat)
    requires
        scope < env.frames.len(),
        spec_eval_expr(e, scope, env, depth).0 is Val,
    ensures
        spec_eval_stmt(StmtV::Let(name, e), scope, env, depth).0 == EvalV::Val(ObjV::Null),
        spec_lookup(spec_eval_stmt(StmtV::Let(name, e), scope, env, depth).1, scope, name)
            == Some(spec_eval_expr(e, scope, env, depth).0->Val_0),
{
    let (r, env1) = spec_eval_expr(e, scope, env, depth);
    lemma_eval_expr_grows(e, scope, env, depth);
    lemma_lookup_assigned(env1, scope, name, r->Val_0);
}

/// A `return` in a function's body ends only that call. Once the arguments
/// have given their values, the call never carries a return out to its
/// caller, and where the body returns `v`, `v` is the value of the call.
pub proof fn lemma_return_ends_only_the_call(
    c: ClosureV,
    args: Seq<ExprV>,
    scope: nat,
    env: EnvV,
    depth: nat,
)
    requires
        c.params.len() == args.len(),
        spec_eval_args(args, 0, scope, env, depth).0 is Ok,
    ensures
        !(spec_call_closure(c, args, scope, env, depth).0 is Ret),
        ({
            let (r, env1) = spec_eval_args(args, 0, scope, env, depth);
            let inner = env1.frames.len();
            let body = spec_eval_block(
                c.body,
                0,
                inner,
                spec_bind(spec_extend(env1, c.scope), inner, c.params, r->Ok_0),
                (depth - 1) as nat,
            );
            (depth > 0 && inner < usize::MAX && body.0 is Ret) ==> spec_call_closure(
                c,
                args,
                scope,
                env,
                depth,
            ) == (EvalV::Val(body.0->Ret_0), body.1)
        }),
{
}

} // verus!
