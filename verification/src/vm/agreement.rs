//! The machine agrees with the evaluator: on programs of expression statements
//! over integer literals, booleans and infix operators, on which the evaluator
//! gives a value, the compiled program leaves that value as the last popped.
use vstd::prelude::*;
use crate::ast::{ExprV, Operator, StmtV};
use crate::bytecode::Instruction;
use crate::compiler::{
    expr_compilable, lemma_stmts_compilable_elems, stmt_compilable, stmts_compilable,
    spec_add_instruction, spec_assemble, spec_compile, spec_compile_expr, spec_compile_stmt,
    spec_compile_stmts, CInsV,
};
use crate::eval::semantics::{
    max_call_depth, spec_eval_block, spec_eval_expr, spec_eval_stmt, spec_evaluate,
    spec_int_of_literal,
};
use crate::object::env::EnvV;
use crate::object::ObjV;
use crate::interpreter::spec_interpret;
use crate::lexer::spec_lex;
use crate::object::env::spec_initial_env;
use crate::parser::spec::spec_parse;
use super::machine::{spec_run, spec_run_from};
use super::spec_vm_run;

verus! {

/// A literal read as the compiler stores it is the value the evaluator gives it.
proof fn lemma_literal_cast(u: usize)
    ensures
        (u as isize) as int == spec_int_of_literal(u as nat),
{
    if u > isize::MAX {
        vstd::layout::unsigned_int_max_values();
        vstd::layout::signed_int_min_max_values();
        vstd::arithmetic::power2::lemma2_to64();
        vstd::arithmetic::power2::lemma2_to64_rest();
        assert(usize::BITS == 32 || usize::BITS == 64);
        if usize::BITS == 64 {
            assert((u as isize) as int == u as int - 0x1_0000_0000_0000_0000) by (bit_vector)
                requires
                    usize::BITS == 64,
                    u as int > 0x7fff_ffff_ffff_ffff,
            ;
        } else {
            assert((u as isize) as int == u as int - 0x1_0000_0000) by (bit_vector)
                requires
                    usize::BITS == 32,
                    u as int > 0x7fff_ffff,
            ;
        }
    }
}

/// The instruction that assembly makes of a compile instruction, with the
/// constant pool it refers to.
pub open spec fn assembled(c: CInsV, i: Instruction, consts: Seq<ObjV>) -> bool {
    match c {
        CInsV::Constant(o) => i matches Instruction::OpConstant(j) && (j as int) < consts.len()
            && consts[j as int] == o,
        CInsV::Pop => i == Instruction::OpPop,
        CInsV::Add => i == Instruction::OpAdd,
        CInsV::Sub => i == Instruction::OpSub,
        CInsV::Mul => i == Instruction::OpMul,
        CInsV::Div => i == Instruction::OpDiv,
        CInsV::True => i == Instruction::OpTrue,
        CInsV::False => i == Instruction::OpFalse,
        CInsV::GreaterThan => i == Instruction::OpGreaterThan,
        CInsV::Equal => i == Instruction::OpEqual,
        CInsV::NotEqual => i == Instruction::OpNotEqual,
        CInsV::Neg => i == Instruction::OpNeg,
        CInsV::Not => i == Instruction::OpNot,
        CInsV::JumpNotTruthy(_) => i is OpJumpNotTruthy,
        CInsV::Jump(_) => i is OpJump,
        CInsV::Null => i == Instruction::OpNull,
    }
}

/// The instructions from `a` on are assembled from `c`.
pub open spec fn assembled_from(instrs: Seq<Instruction>, consts: Seq<ObjV>, a: int, c: Seq<CInsV>) -> bool {
    &&& 0 <= a
    &&& a + c.len() <= instrs.len()
    &&& forall|k: int| 0 <= k < c.len() ==> assembled(#[trigger] c[k], instrs[a + k], consts)
}

/// Assembly makes one instruction of each compile instruction, in order.
proof fn lemma_assemble_matches(s: Seq<CInsV>)
    ensures
        spec_assemble(s) matches Ok(st) ==> st.instructions.len() == s.len() && assembled_from(
            st.instructions,
            st.constants,
            0,
            s,
        ),
    decreases s.len(),
{
    if s.len() > 0 {
        lemma_assemble_matches(s.drop_last());
        if let Ok(prev) = spec_assemble(s.drop_last()) {
            if let Ok(st) = spec_add_instruction(prev, s.last()) {
                assert(st.instructions == prev.instructions.push(st.instructions.last()));
                assert forall|k: int| 0 <= k < s.len() implies assembled(
                    #[trigger] s[k],
                    st.instructions[0 + k],
                    st.constants,
                ) by {
                    if k < s.len() - 1 {
                        assert(s[k] == s.drop_last()[k]);
                        assert(st.instructions[k] == prev.instructions[k]);
                        assert(assembled(s.drop_last()[k], prev.instructions[0 + k], prev.constants));
                        if let CInsV::Constant(o) = s[k] {
                            if let Instruction::OpConstant(j) = prev.instructions[k] {
                                assert(st.constants[j as int] == prev.constants[j as int]);
                            }
                        }
                    }
                }
            }
        }
    }
}

/// Expressions that the machine runs as the evaluator evaluates them: integer
/// literals that fit in a `usize`, booleans, and infix operators over such.
/// (`-` and `!` leave their operand on the machine's stack under the result,
/// so an infix operator whose right operand holds one reads the wrong value.)
pub open spec fn straight_expr(e: ExprV) -> bool
    decreases e,
{
    match e {
        ExprV::IntegerLiteral(v) => v <= usize::MAX,
        ExprV::Boolean(_) => true,
        ExprV::Infix { left, right, .. } => straight_expr(*left) && straight_expr(*right),
        _ => false,
    }
}

proof fn lemma_straight_compiles(e: ExprV)
    requires
        straight_expr(e),
    ensures
        spec_compile_expr(e) is Ok,
    decreases e,
{
    match e {
        ExprV::Infix { left, right, .. } => {
            lemma_straight_compiles(*left);
            lemma_straight_compiles(*right);
        },
        _ => {},
    }
}

proof fn lemma_assembled_split(instrs: Seq<Instruction>, consts: Seq<ObjV>, a: int, x: Seq<CInsV>, y: Seq<CInsV>)
    requires
        assembled_from(instrs, consts, a, x + y),
    ensures
        assembled_from(instrs, consts, a, x),
        assembled_from(instrs, consts, a + x.len(), y),
{
    assert forall|k: int| 0 <= k < x.len() implies assembled(#[trigger] x[k], instrs[a + k], consts) by {
        assert((x + y)[k] == x[k]);
    }
    assert forall|k: int| 0 <= k < y.len() implies assembled(#[trigger] y[k], instrs[a + x.len() + k], consts) by {
        assert((x + y)[x.len() + k] == y[k]);
        assert(a + (x.len() + k) == a + x.len() + k);
    }
}

/// Running the instructions compiled from a straight expression pushes the
/// value that the evaluator gives it.
proof fn lemma_run_expr(
    e: ExprV,
    scope: nat,
    env: EnvV,
    depth: nat,
    instrs: Seq<Instruction>,
    consts: Seq<ObjV>,
    a: int,
    stack: Seq<ObjV>,
    last: Option<ObjV>,
)
    requires
        straight_expr(e),
        spec_compile_expr(e) matches Ok(c) && assembled_from(instrs, consts, a, c),
        spec_eval_expr(e, scope, env, depth).0 is Val,
    ensures
        spec_run_from(instrs, a, stack, consts, last) == spec_run_from(
            instrs,
            a + spec_compile_expr(e)->Ok_0.len(),
            stack.push(spec_eval_expr(e, scope, env, depth).0->Val_0),
            consts,
            last,
        ),
    decreases e,
{
    let c = spec_compile_expr(e)->Ok_0;
    match e {
        ExprV::IntegerLiteral(v) => {
            let u = v as usize;
            lemma_literal_cast(u);
            assert(assembled(c[0], instrs[a + 0], consts));
        },
        ExprV::Boolean(b) => {
            assert(assembled(c[0], instrs[a + 0], consts));
        },
        ExprV::Infix { operator, left, right } => {
            lemma_straight_compiles(*left);
            lemma_straight_compiles(*right);
            let cl = spec_compile_expr(*left)->Ok_0;
            let cr = spec_compile_expr(*right)->Ok_0;
            let (r1, env1) = spec_eval_expr(*left, scope, env, depth);
            let vl = r1->Val_0;
            let vr = spec_eval_expr(*right, scope, env1, depth).0->Val_0;
            let v = spec_eval_expr(e, scope, env, depth).0->Val_0;
            if operator == Operator::LessThan {
                assert(c == (cr + cl).push(CInsV::GreaterThan));
                assert(c =~= (cr + cl) + seq![CInsV::GreaterThan]);
                lemma_assembled_split(instrs, consts, a, cr + cl, seq![CInsV::GreaterThan]);
                lemma_assembled_split(instrs, consts, a, cr, cl);
                lemma_run_expr(*right, scope, env1, depth, instrs, consts, a, stack, last);
                lemma_run_expr(*left, scope, env, depth, instrs, consts, a + cr.len(), stack.push(vr), last);
                let m = a + cr.len() + cl.len();
                assert(assembled(seq![CInsV::GreaterThan][0], instrs[m + 0], consts));
                let st = stack.push(vr).push(vl);
                assert(st.drop_last().drop_last() =~= stack);
                assert(st.drop_last().last() == vr);
            } else {
                assert(c == (cl + cr).push(crate::compiler::spec_operator_ins(operator)));
                assert(c =~= (cl + cr) + seq![crate::compiler::spec_operator_ins(operator)]);
                lemma_assembled_split(instrs, consts, a, cl + cr, seq![crate::compiler::spec_operator_ins(operator)]);
                lemma_assembled_split(instrs, consts, a, cl, cr);
                lemma_run_expr(*left, scope, env, depth, instrs, consts, a, stack, last);
                lemma_run_expr(*right, scope, env1, depth, instrs, consts, a + cl.len(), stack.push(vl), last);
                let m = a + cl.len() + cr.len();
                assert(assembled(seq![crate::compiler::spec_operator_ins(operator)][0], instrs[m + 0], consts));
                let st = stack.push(vl).push(vr);
                assert(st.drop_last().drop_last() =~= stack);
                assert(st.drop_last().last() == vl);
            }
        },
        _ => {},
    }
}

/// Programs whose statements are all expression statements over straight
/// expressions.
pub open spec fn straight_stmts(ss: Seq<StmtV>) -> bool {
    forall|i: int| 0 <= i < ss.len() ==> (#[trigger] ss[i] matches StmtV::Expression(e) && straight_expr(e))
}

proof fn lemma_assembled_prefix(instrs: Seq<Instruction>, consts: Seq<ObjV>, a: int, x: Seq<CInsV>, n: int)
    requires
        assembled_from(instrs, consts, a, x),
        0 <= n <= x.len(),
    ensures
        assembled_from(instrs, consts, a, x.subrange(0, n)),
{
    assert forall|k: int| 0 <= k < n implies assembled(#[trigger] x.subrange(0, n)[k], instrs[a + k], consts) by {
        assert(x.subrange(0, n)[k] == x[k]);
    }
}

/// The code of the first `j` statements begins the code of them all.
proof fn lemma_compile_stmts_prefix(ss: Seq<StmtV>, j: int)
    requires
        0 <= j <= ss.len(),
        spec_compile_stmts(ss) is Ok,
    ensures
        spec_compile_stmts(ss.take(j)) is Ok,
        spec_compile_stmts(ss.take(j))->Ok_0.len() <= spec_compile_stmts(ss)->Ok_0.len(),
        spec_compile_stmts(ss)->Ok_0.subrange(0, spec_compile_stmts(ss.take(j))->Ok_0.len() as int)
            == spec_compile_stmts(ss.take(j))->Ok_0,
    decreases ss.len(),
{
    let cs = spec_compile_stmts(ss)->Ok_0;
    if j == ss.len() {
        assert(ss.take(j) =~= ss);
        assert(cs.subrange(0, cs.len() as int) =~= cs);
    } else {
        let d = ss.drop_last();
        assert(d.take(j) =~= ss.take(j));
        lemma_compile_stmts_prefix(d, j);
        let cd = spec_compile_stmts(d)->Ok_0;
        let p = spec_compile_stmts(ss.take(j))->Ok_0;
        assert(cs == cd + spec_compile_stmt(ss.last())->Ok_0);
        assert(cs.subrange(0, p.len() as int) =~= cd.subrange(0, p.len() as int));
    }
}

/// Running the code of the statements from the `i`-th on runs to the end,
/// and the last popped value is the value the evaluator gives them.
proof fn lemma_run_stmts(
    ss: Seq<StmtV>,
    i: int,
    scope: nat,
    env: EnvV,
    depth: nat,
    instrs: Seq<Instruction>,
    consts: Seq<ObjV>,
    stack: Seq<ObjV>,
    last: Option<ObjV>,
)
    requires
        straight_stmts(ss),
        0 <= i < ss.len(),
        spec_compile_stmts(ss) matches Ok(cs) && instrs.len() == cs.len() && assembled_from(
            instrs,
            consts,
            0,
            cs,
        ),
        spec_eval_block(ss, i as nat, scope, env, depth).0 is Val,
    ensures
        ({
            let (r, l) = spec_run_from(
                instrs,
                spec_compile_stmts(ss.take(i))->Ok_0.len() as int,
                stack,
                consts,
                last,
            );
            r is Done && l == Some(spec_eval_block(ss, i as nat, scope, env, depth).0->Val_0)
        }),
    decreases ss.len() - i,
{
    let cs = spec_compile_stmts(ss)->Ok_0;
    let e = ss[i]->Expression_0;
    assert(ss[i] matches StmtV::Expression(e) && straight_expr(e));
    lemma_straight_compiles(e);
    let ce = spec_compile_expr(e)->Ok_0;
    let code = spec_compile_stmt(ss[i])->Ok_0;
    assert(code == ce.push(CInsV::Pop));
    lemma_compile_stmts_prefix(ss, i);
    lemma_compile_stmts_prefix(ss, i + 1);
    let p = spec_compile_stmts(ss.take(i))->Ok_0;
    let q = spec_compile_stmts(ss.take(i + 1))->Ok_0;
    assert(ss.take(i + 1).drop_last() =~= ss.take(i));
    assert(ss.take(i + 1).last() == ss[i]);
    assert(q == p + code);
    lemma_assembled_prefix(instrs, consts, 0, cs, q.len() as int);
    assert(cs.subrange(0, q.len() as int) == p + code);
    lemma_assembled_split(instrs, consts, 0, p, code);
    assert(code =~= ce + seq![CInsV::Pop]);
    lemma_assembled_split(instrs, consts, p.len() as int, ce, seq![CInsV::Pop]);
    let (r, env1) = spec_eval_stmt(ss[i], scope, env, depth);
    assert(r is Val);
    let v = r->Val_0;
    lemma_run_expr(e, scope, env, depth, instrs, consts, p.len() as int, stack, last);
    let m: int = (p.len() + ce.len()) as int;
    assert(assembled(seq![CInsV::Pop][0], instrs[m + 0], consts));
    if i + 1 < ss.len() {
        lemma_run_stmts(ss, i + 1, scope, env1, depth, instrs, consts, stack.push(v), Some(v));
    } else {
        assert(q.len() == cs.len()) by {
            assert(ss.take(i + 1) =~= ss);
        }
    }
}

/// On a program of expression statements over integer literals (that fit in
/// a `usize`), booleans and infix operators, to which the evaluator gives a
/// value and which compiles, the machine runs the compiled program to the end
/// and its last popped value is that value.
pub proof fn lemma_machine_agrees_with_evaluator(ss: Seq<StmtV>, env: EnvV)
    requires
        straight_stmts(ss),
        ss.len() > 0,
        spec_evaluate(ss, env).0 is Val,
        spec_compile(ss) is Ok,
    ensures
        ({
            let (r, last) = spec_run(spec_compile(ss)->Ok_0, Seq::empty(), None);
            r is Done && last == Some(spec_evaluate(ss, env).0->Val_0)
        }),
{
    let cs = spec_compile_stmts(ss)->Ok_0;
    let st = spec_compile(ss)->Ok_0;
    lemma_assemble_matches(cs);
    assert(ss.take(0) =~= Seq::<StmtV>::empty());
    lemma_run_stmts(ss, 0, 0, env, max_call_depth(), st.instructions, st.constants, Seq::empty(), None);
}

proof fn lemma_straight_compilable_expr(e: ExprV)
    requires
        straight_expr(e),
    ensures
        expr_compilable(e),
    decreases e,
{
    match e {
        ExprV::Infix { left, right, .. } => {
            lemma_straight_compilable_expr(*left);
            lemma_straight_compilable_expr(*right);
        },
        _ => {},
    }
}

/// A straight expression never gives a value that a `return` carries.
proof fn lemma_straight_no_return(e: ExprV, scope: nat, env: EnvV, depth: nat)
    requires
        straight_expr(e),
    ensures
        !(spec_eval_expr(e, scope, env, depth).0 is Ret),
    decreases e,
{
    match e {
        ExprV::Infix { left, right, .. } => {
            let (r1, env1) = spec_eval_expr(*left, scope, env, depth);
            lemma_straight_no_return(*left, scope, env, depth);
            lemma_straight_no_return(*right, scope, env1, depth);
        },
        _ => {},
    }
}

proof fn lemma_straight_block_no_return(ss: Seq<StmtV>, i: nat, scope: nat, env: EnvV, depth: nat)
    requires
        straight_stmts(ss),
    ensures
        !(spec_eval_block(ss, i, scope, env, depth).0 is Ret),
    decreases ss.len() - i,
{
    if i < ss.len() {
        let e = ss[i as int]->Expression_0;
        assert(ss[i as int] matches StmtV::Expression(e) && straight_expr(e));
        lemma_straight_no_return(e, scope, env, depth);
        let (r, env1) = spec_eval_stmt(ss[i as int], scope, env, depth);
        if r is Val && i + 1 < ss.len() {
            lemma_straight_block_no_return(ss, i + 1, scope, env1, depth);
        }
    }
}

/// On a source text whose program is made of expression statements over
/// integer literals, booleans and infix operators, that compiles, and to which
/// a fresh interpreter gives a value: a fresh machine gives the same value.
pub proof fn lemma_vm_agrees_with_interpreter(input: Seq<char>)
    requires
        spec_parse(spec_lex(input)) matches Some(Ok(ss)) && straight_stmts(ss) && ss.len() > 0
            && spec_compile(ss) is Ok,
        spec_interpret(input, spec_initial_env()) matches Some((_, _, Ok(_))),
    ensures
        spec_vm_run(input, None).0 matches Some(Ok(v)) && spec_interpret(
            input,
            spec_initial_env(),
        ) matches Some((_, _, Ok(w))) && v == w,
{
    let ss = spec_parse(spec_lex(input))->Some_0->Ok_0;
    lemma_straight_block_no_return(ss, 0, 0, spec_initial_env(), max_call_depth());
    assert(stmts_compilable(ss)) by {
        assert forall|i: int| 0 <= i < ss.len() implies stmt_compilable(#[trigger] ss[i]) by {
            let e = ss[i]->Expression_0;
            assert(ss[i] matches StmtV::Expression(e) && straight_expr(e));
            lemma_straight_compilable_expr(e);
        }
        lemma_stmts_compilable_elems(ss);
    }
    lemma_machine_agrees_with_evaluator(ss, spec_initial_env());
}

} // verus!
