//! The built-in functions `len`, `index`, `push`, `rest` and `print`.
use vstd::prelude::*;
use crate::ast::spec_join;
use crate::object::env::Env;
use crate::object::{copy_object, lemma_objs_view, obj_printable, objs_view, spec_obj_text, BuiltIn, Object};
use crate::text::{lit, push_decimal, push_str, push_string};
use super::error::Error;
use super::result::{eval_view, EvalResult, ShortCircuit};
use super::semantics::{int_value, no_such, spec_apply_builtin, spec_print_line, type_error, wrong_count};

verus! {

fn type_error_result(message: String) -> (r: EvalResult)
    ensures
        eval_view(r) == type_error(message@),
{
    Err(ShortCircuit::RuntimeError(Error::TypeError { message }))
}

/// `object of type '<type>' has no <what>`.
fn no_such_message(o: &Object, what: &str) -> (r: String)
    ensures
        r@ == no_such(o@, what@),
{
    let mut r = lit("object of type '");
    push_string(&mut r, &o.type_str());
    push_str(&mut r, "' has no ");
    push_str(&mut r, what);
    r
}

/// `<name>() takes exactly <count> (<n> given)`.
fn wrong_count_message(name: &str, count: &str, n: usize) -> (r: String)
    ensures
        r@ == wrong_count(name@, count@, n as nat),
{
    let mut r = lit(name);
    push_str(&mut r, "() takes exactly ");
    push_str(&mut r, count);
    push_str(&mut r, " (");
    push_decimal(&mut r, n as u128);
    push_str(&mut r, " given)");
    r
}

/// An integer value, or an abort where it does not fit in an `isize`.
fn int_result(n: usize) -> (r: EvalResult)
    ensures
        eval_view(r) == int_value(n as int),
{
    if n <= isize::MAX as usize {
        Ok(Object::Integer(n as isize))
    } else {
        Err(ShortCircuit::Halted)
    }
}

/// The line that `print` writes for printable values.
fn print_line(vals: &Vec<Object>) -> (r: String)
    requires
        forall|i: int| 0 <= i < vals.len() ==> obj_printable(#[trigger] objs_view(vals@)[i]),
    ensures
        r@ == spec_print_line(objs_view(vals@)),
{
    let ghost vs = objs_view(vals@);
    let ghost texts = Seq::new(vs.len(), |i: int| spec_obj_text(vs[i]));
    proof {
        lemma_objs_view(vals@);
    }
    let mut r = String::new();
    let mut i: usize = 0;
    while i < vals.len()
        invariant
            i <= vals.len(),
            vs == objs_view(vals@),
            vs.len() == vals.len(),
            forall|j: int| 0 <= j < vals.len() ==> #[trigger] vs[j] == vals@[j]@,
            forall|j: int| 0 <= j < vals.len() ==> obj_printable(#[trigger] vs[j]),
            texts == Seq::new(vs.len(), |j: int| spec_obj_text(vs[j])),
            r@ == spec_join(texts.take(i as int), " "@),
        decreases vals.len() - i,
    {
        if i > 0 {
            push_str(&mut r, " ");
        }
        assert(obj_printable(vs[i as int]));
        let text = vals[i].display();
        push_string(&mut r, &text);
        proof {
            assert(texts.take(i + 1).drop_last() =~= texts.take(i as int));
            assert(texts.take(i + 1).last() == text@);
            if i == 0 {
                assert(r@ =~= spec_join(texts.take(1), " "@));
            } else {
                assert(r@ =~= spec_join(texts.take(i + 1), " "@));
            }
        }
        i = i + 1;
    }
    assert(texts.take(vals.len() as int) =~= texts);
    r
}

/// Applies a built-in function to evaluated arguments.
pub fn apply_builtin(b: BuiltIn, args: Vec<Object>, env: &mut Env) -> (r: EvalResult)
    requires
        old(env).wf(),
    ensures
        final(env).wf(),
        (eval_view(r), final(env)@) == spec_apply_builtin(b, objs_view(args@), old(env)@),
{
    proof {
        lemma_objs_view(args@);
    }
    let n = args.len();
    match b {
        BuiltIn::Len => {
            if n != 1 {
                return type_error_result(wrong_count_message("len", "one argument", n));
            }
            match &args[0] {
                Object::Str(s) => int_result(s.as_str().len()),
                Object::List(vs) => {
                    proof {
                        lemma_objs_view(vs@);
                    }
                    int_result(vs.len())
                },
                x => type_error_result(no_such_message(x, "len()")),
            }
        },
        BuiltIn::Index => {
            if n != 2 {
                return type_error_result(wrong_count_message("index", "two arguments", n));
            }
            match (&args[0], &args[1]) {
                (Object::List(vs), Object::Integer(i)) => {
                    proof {
                        lemma_objs_view(vs@);
                    }
                    if *i < 0 {
                        type_error_result(lit("list indices must be positive"))
                    } else if (*i as usize) < vs.len() {
                        Ok(copy_object(&vs[*i as usize]))
                    } else {
                        Ok(Object::Null)
                    }
                },
                (Object::List(_), x) => {
                    let mut m = lit("list indices must be integers, not ");
                    push_string(&mut m, &x.type_str());
                    type_error_result(m)
                },
                (x, _) => type_error_result(no_such_message(x, "index")),
            }
        },
        BuiltIn::Push => {
            if n != 2 {
                return type_error_result(wrong_count_message("push", "two arguments", n));
            }
            match &args[0] {
                Object::List(vs) => {
                    let mut out = crate::object::copy_objects(vs);
                    let ghost before = out@;
                    out.push(copy_object(&args[1]));
                    proof {
                        assert(out@.drop_last() =~= before);
                        lemma_objs_view(vs@);
                    }
                    Ok(Object::List(out))
                },
                x => type_error_result(no_such_message(x, "push")),
            }
        },
        BuiltIn::Rest => {
            if n != 1 {
                return type_error_result(wrong_count_message("rest", "one argument", n));
            }
            match &args[0] {
                Object::List(vs) => {
                    proof {
                        lemma_objs_view(vs@);
                    }
                    if vs.len() >= 1 {
                        let mut out: Vec<Object> = Vec::new();
                        let mut k: usize = 1;
                        while k < vs.len()
                            invariant
                                1 <= k <= vs.len(),
                                objs_view(vs@).len() == vs.len(),
                                forall|j: int| 0 <= j < vs.len() ==> #[trigger] objs_view(vs@)[j] == vs@[j]@,
                                objs_view(out@) == objs_view(vs@).subrange(1, k as int),
                            decreases vs.len() - k,
                        {
                            let ghost before = out@;
                            out.push(copy_object(&vs[k]));
                            proof {
                                assert(out@.drop_last() =~= before);
                                assert(objs_view(out@) =~= objs_view(vs@).subrange(1, k + 1));
                            }
                            k = k + 1;
                        }
                        Ok(Object::List(out))
                    } else {
                        Ok(Object::Null)
                    }
                },
                x => type_error_result(no_such_message(x, "rest()")),
            }
        },
        BuiltIn::Print => {
            let mut k: usize = 0;
            while k < n
                invariant
                    k <= n,
                    n == args.len(),
                    objs_view(args@).len() == args.len(),
                    forall|j: int| 0 <= j < args.len() ==> #[trigger] objs_view(args@)[j] == args@[j]@,
                    forall|j: int| 0 <= j < k ==> obj_printable(#[trigger] objs_view(args@)[j]),
                    env@ == old(env)@,
                    env.wf(),
                    b == BuiltIn::Print,
                decreases n - k,
            {
                if !args[k].is_printable() {
                    assert(!obj_printable(objs_view(args@)[k as int]));
                    return Err(ShortCircuit::Halted);
                }
                k = k + 1;
            }
            let line = print_line(&args);
            env.write_stdout(line);
            Ok(Object::Null)
        },
    }
}

} // verus!
