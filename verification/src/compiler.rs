//! Compilation of programs to bytecode instructions and a constant pool.
use vstd::prelude::*;
use crate::ast;
use crate::ast::{expr_view, lemma_stmts_view, stmt_view, stmts_view, ExprV, Operator, StmtV};
use crate::bytecode::{spec_encode, spec_encode_all, spec_size, Instruction};
use crate::object::{objs_view, lemma_objs_view, ObjV, Object};
use crate::text::lit;

verus! {

#[derive(Debug)]
pub enum CompileInstruction {
    Constant(Object),
    Pop,
    Add,
    Sub,
    Mul,
    Div,
    True,
    False,
    GreaterThan,
    Equal,
    NotEqual,
    Neg,
    Not,
    /// Jumps this many bytes forward, counted from the end of the jump, when the
    /// top of the stack is not truthy.
    JumpNotTruthy(u16),
    /// Jumps this many bytes forward, counted from the end of the jump.
    Jump(u16),
    Null,
}

/// Mathematical view of a compile instruction.
pub enum CInsV {
    Constant(ObjV),
    Pop,
    Add,
    Sub,
    Mul,
    Div,
    True,
    False,
    GreaterThan,
    Equal,
    NotEqual,
    Neg,
    Not,
    JumpNotTruthy(u16),
    Jump(u16),
    Null,
}

impl View for CompileInstruction {
    type V = CInsV;

    open spec fn view(&self) -> CInsV {
        match self {
            CompileInstruction::Constant(o) => CInsV::Constant(o@),
            CompileInstruction::Pop => CInsV::Pop,
            CompileInstruction::Add => CInsV::Add,
            CompileInstruction::Sub => CInsV::Sub,
            CompileInstruction::Mul => CInsV::Mul,
            CompileInstruction::Div => CInsV::Div,
            CompileInstruction::True => CInsV::True,
            CompileInstruction::False => CInsV::False,
            CompileInstruction::GreaterThan => CInsV::GreaterThan,
            CompileInstruction::Equal => CInsV::Equal,
            CompileInstruction::NotEqual => CInsV::NotEqual,
            CompileInstruction::Neg => CInsV::Neg,
            CompileInstruction::Not => CInsV::Not,
            CompileInstruction::JumpNotTruthy(v) => CInsV::JumpNotTruthy(*v),
            CompileInstruction::Jump(v) => CInsV::Jump(*v),
            CompileInstruction::Null => CInsV::Null,
        }
    }
}

pub open spec fn cins_view(v: Seq<CompileInstruction>) -> Seq<CInsV> {
    Seq::new(v.len(), |i: int| v[i]@)
}

#[derive(Debug, PartialEq)]
pub enum Error {
    Overflow,
}

impl Error {
    /// The message of the error: `Compiler error: Overflow`.
    pub fn display(&self) -> (r: String)
        ensures
            r@ == "Compiler error: Overflow"@,
    {
        lit("Compiler error: Overflow")
    }
}

/// The instruction that an operator compiles to. `<` compiles to `>`, with
/// its operands swapped.
pub open spec fn spec_operator_ins(op: Operator) -> CInsV {
    match op {
        Operator::Plus => CInsV::Add,
        Operator::Minus => CInsV::Sub,
        Operator::Multiply => CInsV::Mul,
        Operator::Divide => CInsV::Div,
        Operator::GreaterThan => CInsV::GreaterThan,
        Operator::LessThan => CInsV::GreaterThan,
        Operator::Equal => CInsV::Equal,
        Operator::NotEqual => CInsV::NotEqual,
        Operator::Not => CInsV::Not,
    }
}

/// The instruction a prefix operator compiles to: `-` negates.
pub open spec fn spec_prefix_ins(op: Operator) -> CInsV {
    match spec_operator_ins(op) {
        CInsV::Sub => CInsV::Neg,
        other => other,
    }
}

/// The size in bytes of the instruction a compile instruction becomes.
pub open spec fn spec_cins_size(c: CInsV) -> nat {
    match c {
        CInsV::Constant(_) | CInsV::JumpNotTruthy(_) | CInsV::Jump(_) => 3,
        _ => 1,
    }
}

/// The total size in bytes of compile instructions.
pub open spec fn spec_cins_len(s: Seq<CInsV>) -> nat
    decreases s.len(),
{
    if s.len() == 0 {
        0
    } else {
        spec_cins_len(s.drop_last()) + spec_cins_size(s.last())
    }
}

/// The expressions the compiler handles: integer and boolean literals, prefix
/// and infix operators, and `if` expressions whose branches are expression
/// statements, with a non-empty consequence.
pub open spec fn expr_compilable(e: ExprV) -> bool
    decreases e,
{
    match e {
        ExprV::IntegerLiteral(_) => true,
        ExprV::Boolean(_) => true,
        ExprV::Prefix { right, .. } => expr_compilable(*right),
        ExprV::Infix { left, right, .. } => expr_compilable(*left) && expr_compilable(*right),
        ExprV::If { condition, consequence, alternative } => expr_compilable(*condition)
            && consequence.len() > 0 && stmts_compilable(consequence) && stmts_compilable(
            alternative,
        ),
        _ => false,
    }
}

pub open spec fn stmt_compilable(s: StmtV) -> bool
    decreases s,
{
    match s {
        StmtV::Expression(e) => expr_compilable(e),
        _ => false,
    }
}

pub open spec fn stmts_compilable(ss: Seq<StmtV>) -> bool
    decreases ss,
{
    if ss.len() == 0 {
        true
    } else {
        stmts_compilable(ss.drop_last()) && stmt_compilable(ss.last())
    }
}

/// Compile instructions for a branch of an `if`: the statements' instructions
/// without the final `Pop`, so that the branch leaves its value on the stack;
/// `Null` for an empty branch.
pub open spec fn spec_branch(ss: Seq<StmtV>) -> Result<Seq<CInsV>, ()>
    decreases ss, 1nat,
{
    if ss.len() == 0 {
        Ok(seq![CInsV::Null])
    } else {
        match spec_compile_stmts(ss) {
            Ok(c) => Ok(c.drop_last()),
            Err(_) => Err(()),
        }
    }
}

/// The compile instructions of an expression; `Err` when a jump distance does
/// not fit in a `u16`.
pub open spec fn spec_compile_expr(e: ExprV) -> Result<Seq<CInsV>, ()>
    decreases e, 2nat,
{
    match e {
        ExprV::IntegerLiteral(v) => Ok(seq![CInsV::Constant(ObjV::Integer((v as isize) as int))]),
        ExprV::Boolean(b) => Ok(seq![if b { CInsV::True } else { CInsV::False }]),
        ExprV::Prefix { operator, right } => match spec_compile_expr(*right) {
            Ok(r) => Ok(r.push(spec_prefix_ins(operator))),
            Err(_) => Err(()),
        },
        ExprV::Infix { operator, left, right } => match (
            spec_compile_expr(*left),
            spec_compile_expr(*right),
        ) {
            (Ok(l), Ok(r)) => if operator == Operator::LessThan {
                Ok((r + l).push(CInsV::GreaterThan))
            } else {
                Ok((l + r).push(spec_operator_ins(operator)))
            },
            _ => Err(()),
        },
        ExprV::If { condition, consequence, alternative } => match (
            spec_compile_expr(*condition),
            spec_branch(consequence),
            spec_branch(alternative),
        ) {
            (Ok(c), Ok(t), Ok(f)) => if spec_cins_len(t) + 3 > u16::MAX || spec_cins_len(f)
                > u16::MAX {
                Err(())
            } else {
                Ok(
                    c + seq![CInsV::JumpNotTruthy((spec_cins_len(t) + 3) as u16)] + t + seq![
                        CInsV::Jump(spec_cins_len(f) as u16),
                    ] + f,
                )
            },
            _ => Err(()),
        },
        _ => Err(()),
    }
}

/// The compile instructions of an expression statement: the expression's, then `Pop`.
pub open spec fn spec_compile_stmt(s: StmtV) -> Result<Seq<CInsV>, ()>
    decreases s, 2nat,
{
    match s {
        StmtV::Expression(e) => match spec_compile_expr(e) {
            Ok(c) => Ok(c.push(CInsV::Pop)),
            Err(_) => Err(()),
        },
        _ => Err(()),
    }
}

/// The compile instructions of statements, in order.
pub open spec fn spec_compile_stmts(ss: Seq<StmtV>) -> Result<Seq<CInsV>, ()>
    decreases ss, 0nat,
{
    if ss.len() == 0 {
        Ok(Seq::empty())
    } else {
        match (spec_compile_stmts(ss.drop_last()), spec_compile_stmt(ss.last())) {
            (Ok(a), Ok(b)) => Ok(a + b),
            _ => Err(()),
        }
    }
}

/// The state of assembly: instructions so far, constants so far, and the byte
/// index of the next instruction.
pub struct AsmV {
    pub instructions: Seq<Instruction>,
    pub constants: Seq<ObjV>,
    pub index: nat,
}

/// Adds one compile instruction: a constant goes to the pool and becomes
/// `OpConstant` with its index; a relative jump becomes a jump to the absolute
/// byte address. `Err` when an index or address does not fit in a `u16`.
pub open spec fn spec_add_instruction(st: AsmV, c: CInsV) -> Result<AsmV, ()> {
    let ins: Result<Instruction, ()> = match c {
        CInsV::Constant(_) => if st.constants.len() > u16::MAX {
            Err(())
        } else {
            Ok(Instruction::OpConstant(st.constants.len() as u16))
        },
        CInsV::JumpNotTruthy(loc) => if st.index + 3 + loc > u16::MAX {
            Err(())
        } else {
            Ok(Instruction::OpJumpNotTruthy((st.index + 3 + loc) as u16))
        },
        CInsV::Jump(loc) => if st.index + 3 + loc > u16::MAX {
            Err(())
        } else {
            Ok(Instruction::OpJump((st.index + 3 + loc) as u16))
        },
        CInsV::Pop => Ok(Instruction::OpPop),
        CInsV::Add => Ok(Instruction::OpAdd),
        CInsV::Sub => Ok(Instruction::OpSub),
        CInsV::Mul => Ok(Instruction::OpMul),
        CInsV::Div => Ok(Instruction::OpDiv),
        CInsV::True => Ok(Instruction::OpTrue),
        CInsV::False => Ok(Instruction::OpFalse),
        CInsV::GreaterThan => Ok(Instruction::OpGreaterThan),
        CInsV::Equal => Ok(Instruction::OpEqual),
        CInsV::NotEqual => Ok(Instruction::OpNotEqual),
        CInsV::Neg => Ok(Instruction::OpNeg),
        CInsV::Not => Ok(Instruction::OpNot),
        CInsV::Null => Ok(Instruction::OpNull),
    };
    match ins {
        Err(_) => Err(()),
        Ok(i) => if st.index + spec_size(i) > u16::MAX {
            Err(())
        } else {
            Ok(
                AsmV {
                    instructions: st.instructions.push(i),
                    constants: match c {
                        CInsV::Constant(o) => st.constants.push(o),
                        _ => st.constants,
                    },
                    index: st.index + spec_size(i),
                },
            )
        },
    }
}

/// Assembles compile instructions in order, starting from an empty output.
pub open spec fn spec_assemble(s: Seq<CInsV>) -> Result<AsmV, ()>
    decreases s.len(),
{
    if s.len() == 0 {
        Ok(AsmV { instructions: Seq::empty(), constants: Seq::empty(), index: 0 })
    } else {
        match spec_assemble(s.drop_last()) {
            Ok(st) => spec_add_instruction(st, s.last()),
            Err(_) => Err(()),
        }
    }
}

/// The output of compiling a program.
pub open spec fn spec_compile(p: Seq<StmtV>) -> Result<AsmV, ()> {
    match spec_compile_stmts(p) {
        Ok(c) => spec_assemble(c),
        Err(_) => Err(()),
    }
}

#[derive(Debug)]
pub struct Output {
    pub instructions: Vec<Instruction>,
    pub constants: Vec<Object>,
    /// Byte index at which the next instruction goes.
    pub index: u16,
}

impl View for Output {
    type V = AsmV;

    open spec fn view(&self) -> AsmV {
        AsmV {
            instructions: self.instructions@,
            constants: objs_view(self.constants@),
            index: self.index as nat,
        }
    }
}

impl Output {
    fn new() -> (o: Output)
        ensures
            o@ == (AsmV { instructions: Seq::empty(), constants: Seq::empty(), index: 0 }),
    {
        let o = Output { instructions: Vec::new(), constants: Vec::new(), index: 0 };
        assert(objs_view(o.constants@) =~= Seq::<ObjV>::empty());
        o
    }

    fn add_instruction(self, ins: CompileInstruction) -> (r: Result<Output, Error>)
        ensures
            r matches Ok(o) ==> spec_add_instruction(self@, ins@) == Ok::<AsmV, ()>(o@),
            r is Err ==> spec_add_instruction(self@, ins@) is Err,
    {
        let mut instructions = self.instructions;
        let mut constants = self.constants;
        let index = self.index;
        proof {
            lemma_objs_view(constants@);
        }
        let is_constant = match &ins {
            CompileInstruction::Constant(_) => true,
            _ => false,
        };
        let bytecode_ins = match &ins {
            CompileInstruction::Constant(_) => {
                if constants.len() > 65535 {
                    return Err(Error::Overflow);
                }
                Instruction::OpConstant(constants.len() as u16)
            },
            CompileInstruction::JumpNotTruthy(location) => {
                if index as u32 + 3 + *location as u32 > 65535 {
                    return Err(Error::Overflow);
                }
                Instruction::OpJumpNotTruthy(index + 3 + *location)
            },
            CompileInstruction::Jump(location) => {
                if index as u32 + 3 + *location as u32 > 65535 {
                    return Err(Error::Overflow);
                }
                Instruction::OpJump(index + 3 + *location)
            },
            CompileInstruction::Pop => Instruction::OpPop,
            CompileInstruction::Add => Instruction::OpAdd,
            CompileInstruction::Sub => Instruction::OpSub,
            CompileInstruction::Mul => Instruction::OpMul,
            CompileInstruction::Div => Instruction::OpDiv,
            CompileInstruction::True => Instruction::OpTrue,
            CompileInstruction::False => Instruction::OpFalse,
            CompileInstruction::GreaterThan => Instruction::OpGreaterThan,
            CompileInstruction::Equal => Instruction::OpEqual,
            CompileInstruction::NotEqual => Instruction::OpNotEqual,
            CompileInstruction::Neg => Instruction::OpNeg,
            CompileInstruction::Not => Instruction::OpNot,
            CompileInstruction::Null => Instruction::OpNull,
        };
        let ins_size = bytecode_ins.size();
        if index as u32 + ins_size as u32 > 65535 {
            return Err(Error::Overflow);
        }
        let ghost old_constants = constants@;
        match ins {
            CompileInstruction::Constant(object) => {
                constants.push(object);
                proof {
                    lemma_objs_view(constants@);
                    assert(constants@.drop_last() =~= old_constants);
                    assert(objs_view(constants@) == objs_view(old_constants).push(obj_view_of(constants@.last())));
                }
            },
            _ => {},
        }
        instructions.push(bytecode_ins);
        let o = Output { instructions, constants, index: index + ins_size };
        Ok(o)
    }
}

spec fn obj_view_of(o: Object) -> ObjV {
    o@
}

/// The instruction an operator compiles to.
pub fn operator_instruction(operator: Operator) -> (c: CompileInstruction)
    ensures
        c@ == spec_operator_ins(operator),
{
    match operator {
        Operator::Plus => CompileInstruction::Add,
        Operator::Minus => CompileInstruction::Sub,
        Operator::Multiply => CompileInstruction::Mul,
        Operator::Divide => CompileInstruction::Div,
        Operator::GreaterThan => CompileInstruction::GreaterThan,
        Operator::LessThan => CompileInstruction::GreaterThan,
        Operator::Equal => CompileInstruction::Equal,
        Operator::NotEqual => CompileInstruction::NotEqual,
        Operator::Not => CompileInstruction::Not,
    }
}

proof fn lemma_cins_len_append(a: Seq<CInsV>, b: Seq<CInsV>)
    ensures
        spec_cins_len(a + b) == spec_cins_len(a) + spec_cins_len(b),
    decreases b.len(),
{
    if b.len() > 0 {
        lemma_cins_len_append(a, b.drop_last());
        assert((a + b).drop_last() =~= a + b.drop_last());
    } else {
        assert(a + b =~= a);
    }
}

/// The total size in bytes of compile instructions, if it fits in a `u16`.
fn instructions_len(v: &Vec<CompileInstruction>) -> (r: Option<u16>)
    ensures
        r matches Some(n) ==> n == spec_cins_len(cins_view(v@)),
        r is None ==> spec_cins_len(cins_view(v@)) > u16::MAX,
{
    let mut total: u16 = 0;
    let mut i: usize = 0;
    while i < v.len()
        invariant
            i <= v.len(),
            total == spec_cins_len(cins_view(v@).subrange(0, i as int)),
        decreases v.len() - i,
    {
        let size: u16 = match &v[i] {
            CompileInstruction::Constant(_) | CompileInstruction::JumpNotTruthy(_)
            | CompileInstruction::Jump(_) => 3,
            _ => 1,
        };
        proof {
            assert(cins_view(v@).subrange(0, i + 1).drop_last() =~= cins_view(v@).subrange(0, i as int));
        }
        if total as u32 + size as u32 > 65535 {
            proof {
                lemma_cins_len_append(cins_view(v@).subrange(0, i + 1), cins_view(v@).subrange(i + 1, v@.len() as int));
                assert(cins_view(v@).subrange(0, i + 1) + cins_view(v@).subrange(i + 1, v@.len() as int) =~= cins_view(v@));
            }
            return None;
        }
        total = total + size;
        i = i + 1;
    }
    assert(cins_view(v@).subrange(0, v@.len() as int) =~= cins_view(v@));
    Some(total)
}

fn append_cins(a: &mut Vec<CompileInstruction>, b: Vec<CompileInstruction>)
    ensures
        cins_view(final(a)@) == cins_view(old(a)@) + cins_view(b@),
{
    let ghost b0 = b@;
    let ghost a0 = a@;
    let mut b = b;
    a.append(&mut b);
    assert(a@ == a0 + b0);
    assert(cins_view(a@) =~= cins_view(a0) + cins_view(b0));
}

fn compile_branch(ss: &Vec<ast::Statement>) -> (r: Result<Vec<CompileInstruction>, Error>)
    requires
        stmts_compilable(stmts_view(ss@)),
    ensures
        r matches Ok(v) ==> spec_branch(stmts_view(ss@)) == Ok::<Seq<CInsV>, ()>(cins_view(v@)),
        r is Err ==> spec_branch(stmts_view(ss@)) is Err,
    decreases ss@, 1nat,
{
    proof {
        lemma_stmts_view(ss@);
    }
    if ss.len() == 0 {
        let mut v: Vec<CompileInstruction> = Vec::new();
        v.push(CompileInstruction::Null);
        assert(cins_view(v@) =~= seq![CInsV::Null]);
        return Ok(v);
    }
    let mut v = compile_stmts(ss)?;
    proof {
        lemma_compile_stmts_nonempty(stmts_view(ss@));
    }
    let ghost before = cins_view(v@);
    let _ = v.pop();
    assert(cins_view(v@) =~= before.drop_last());
    Ok(v)
}

proof fn lemma_compile_stmts_nonempty(ss: Seq<StmtV>)
    requires
        ss.len() > 0,
    ensures
        spec_compile_stmts(ss) matches Ok(c) ==> c.len() > 0,
{
    if let Ok(c) = spec_compile_stmts(ss) {
        let a = spec_compile_stmts(ss.drop_last());
        let b = spec_compile_stmt(ss.last());
        assert(a is Ok && b is Ok);
        assert(b.unwrap().len() > 0);
        assert(c == a.unwrap() + b.unwrap());
    }
}

/// Compiles statements, in order.
fn compile_stmts(ss: &Vec<ast::Statement>) -> (r: Result<Vec<CompileInstruction>, Error>)
    requires
        stmts_compilable(stmts_view(ss@)),
    ensures
        r matches Ok(v) ==> spec_compile_stmts(stmts_view(ss@)) == Ok::<Seq<CInsV>, ()>(cins_view(v@)),
        r is Err ==> spec_compile_stmts(stmts_view(ss@)) is Err,
    decreases ss@, 0nat,
{
    proof {
        lemma_stmts_view(ss@);
        lemma_stmts_compilable_elems(stmts_view(ss@));
    }
    let mut out: Vec<CompileInstruction> = Vec::new();
    let mut i: usize = 0;
    assert(cins_view(out@) =~= Seq::<CInsV>::empty());
    while i < ss.len()
        invariant
            i <= ss.len(),
            stmts_view(ss@).len() == ss@.len(),
            forall|j: int| 0 <= j < ss@.len() ==> #[trigger] stmts_view(ss@)[j] == stmt_view(ss@[j]),
            forall|j: int| 0 <= j < ss@.len() ==> stmt_compilable(#[trigger] stmts_view(ss@)[j]),
            spec_compile_stmts(stmts_view(ss@.subrange(0, i as int))) == Ok::<Seq<CInsV>, ()>(cins_view(out@)),
        decreases ss.len() - i,
    {
        proof {
            assert(decreases_to!(ss@ => ss@[i as int]));
            assert(stmts_view(ss@)[i as int] == stmt_view(ss@[i as int]));
            assert(stmt_compilable(stmts_view(ss@)[i as int]));
            lemma_stmts_view(ss@.subrange(0, i + 1));
            lemma_stmts_view(ss@.subrange(0, i as int));
            assert(stmts_view(ss@.subrange(0, i + 1)).drop_last() =~= stmts_view(ss@.subrange(0, i as int)));
            assert(stmts_view(ss@.subrange(0, i + 1)).last() == stmt_view(ss@[i as int]));
        }
        match compile_statement(&ss[i]) {
            Ok(c) => {
                let ghost prev = cins_view(out@);
                append_cins(&mut out, c);
                proof {
                    let post = stmts_view(ss@.subrange(0, i + 1));
                    assert(spec_compile_stmts(post) == Ok::<Seq<CInsV>, ()>(prev + cins_view(c@)));
                }
            },
            Err(e) => {
                proof {
                    let post = stmts_view(ss@.subrange(0, i + 1));
                    assert(spec_compile_stmts(post) is Err);
                    assert(stmts_view(ss@).subrange(0, i + 1) =~= post) by {
                        lemma_stmts_view(ss@.subrange(0, i + 1));
                    }
                    lemma_compile_stmts_err_prefix(stmts_view(ss@), i as int + 1);
                }
                return Err(e);
            },
        }
        i = i + 1;
    }
    assert(ss@.subrange(0, ss@.len() as int) =~= ss@);
    Ok(out)
}

proof fn lemma_compile_stmts_err_prefix(ss: Seq<StmtV>, k: int)
    requires
        0 <= k <= ss.len(),
        spec_compile_stmts(ss.subrange(0, k)) is Err,
    ensures
        spec_compile_stmts(ss) is Err,
    decreases ss.len() - k,
{
    if k < ss.len() {
        assert(ss.subrange(0, k + 1).drop_last() =~= ss.subrange(0, k));
        lemma_compile_stmts_err_prefix(ss, k + 1);
    } else {
        assert(ss.subrange(0, k) =~= ss);
    }
}

pub proof fn lemma_stmts_compilable_elems(ss: Seq<StmtV>)
    ensures
        stmts_compilable(ss) <==> forall|i: int| 0 <= i < ss.len() ==> stmt_compilable(#[trigger] ss[i]),
    decreases ss.len(),
{
    if ss.len() > 0 {
        lemma_stmts_compilable_elems(ss.drop_last());
        if stmts_compilable(ss) {
            assert forall|i: int| 0 <= i < ss.len() implies stmt_compilable(#[trigger] ss[i]) by {
                if i < ss.len() - 1 {
                    assert(ss[i] == ss.drop_last()[i]);
                }
            }
        }
        if forall|i: int| 0 <= i < ss.len() ==> stmt_compilable(#[trigger] ss[i]) {
            assert forall|i: int| 0 <= i < ss.drop_last().len() implies stmt_compilable(
                #[trigger] ss.drop_last()[i],
            ) by {
                assert(ss.drop_last()[i] == ss[i]);
            }
            assert(stmt_compilable(ss[ss.len() - 1]));
        }
    }
}

fn compile_statement(s: &ast::Statement) -> (r: Result<Vec<CompileInstruction>, Error>)
    requires
        stmt_compilable(s@),
    ensures
        r matches Ok(v) ==> spec_compile_stmt(s@) == Ok::<Seq<CInsV>, ()>(cins_view(v@)),
        r is Err ==> spec_compile_stmt(s@) is Err,
    decreases s, 2nat,
{
    match s {
        ast::Statement::Expression(e) => {
            let mut v = compile_expr(e)?;
            let ghost before = v@;
            v.push(CompileInstruction::Pop);
            assert(cins_view(v@) =~= cins_view(before).push(CInsV::Pop));
            Ok(v)
        },
        _ => {
            assert(false);
            Err(Error::Overflow)
        },
    }
}

/// The compile instructions of an expression (see `spec_compile_expr`): the
/// operands' code, then the operator's instruction; `a < b` compiles as
/// `b > a`; `Err` when a jump distance does not fit in a `u16`.
pub fn compile_expr(e: &ast::Expression) -> (r: Result<Vec<CompileInstruction>, Error>)
    requires
        expr_compilable(e@),
    ensures
        r matches Ok(v) ==> spec_compile_expr(e@) == Ok::<Seq<CInsV>, ()>(cins_view(v@)),
        r is Err ==> spec_compile_expr(e@) is Err,
    decreases e, 2nat,
{
    match e {
        ast::Expression::Prefix { operator, right } => {
            let mut v = compile_expr(right)?;
            let ghost before = v@;
            let mut result_operator = operator_instruction(*operator);
            if let CompileInstruction::Sub = result_operator {
                result_operator = CompileInstruction::Neg;
            }
            v.push(result_operator);
            assert(cins_view(v@) =~= cins_view(before).push(spec_prefix_ins(*operator)));
            Ok(v)
        },
        ast::Expression::Infix { operator, left, right } => {
            let mut l = compile_expr(left)?;
            let r = compile_expr(right)?;
            let mut v = if let Operator::LessThan = operator {
                let mut r2 = r;
                append_cins(&mut r2, l);
                r2
            } else {
                append_cins(&mut l, r);
                l
            };
            let ghost before = v@;
            v.push(operator_instruction(*operator));
            assert(cins_view(v@) =~= cins_view(before).push(spec_operator_ins(*operator)));
            Ok(v)
        },
        ast::Expression::IntegerLiteral(value) => {
            let object = Object::Integer(*value as isize);
            let mut v: Vec<CompileInstruction> = Vec::new();
            v.push(CompileInstruction::Constant(object));
            assert(cins_view(v@) =~= spec_compile_expr(e@).unwrap());
            Ok(v)
        },
        ast::Expression::Boolean(value) => {
            let mut v: Vec<CompileInstruction> = Vec::new();
            v.push(
                if *value {
                    CompileInstruction::True
                } else {
                    CompileInstruction::False
                },
            );
            assert(cins_view(v@) =~= spec_compile_expr(e@).unwrap());
            Ok(v)
        },
        ast::Expression::If { condition, consequence, alternative } => {
            proof {
                assert(decreases_to!(*e => (*e)->consequence));
                assert(decreases_to!(*e => (*e)->alternative));
            }
            let mut c = compile_expr(condition)?;
            let t = compile_branch(consequence)?;
            let f = compile_branch(alternative)?;
            let t_len = match instructions_len(&t) {
                Some(n) => n,
                None => return Err(Error::Overflow),
            };
            let f_len = match instructions_len(&f) {
                Some(n) => n,
                None => return Err(Error::Overflow),
            };
            if t_len > 65532 {
                return Err(Error::Overflow);
            }
            let ghost cv = cins_view(c@);
            let ghost tv = cins_view(t@);
            let ghost fv = cins_view(f@);
            c.push(CompileInstruction::JumpNotTruthy(t_len + 3));
            assert(cins_view(c@) =~= cv + seq![CInsV::JumpNotTruthy((t_len + 3) as u16)]);
            append_cins(&mut c, t);
            c.push(CompileInstruction::Jump(f_len));
            assert(cins_view(c@) =~= cv + seq![CInsV::JumpNotTruthy((t_len + 3) as u16)] + tv + seq![CInsV::Jump(f_len)]);
            append_cins(&mut c, f);
            proof {
                assert(e@ == ExprV::If {
                    condition: Box::new(expr_view(**condition)),
                    consequence: stmts_view(consequence@),
                    alternative: stmts_view(alternative@),
                });
                assert(spec_compile_expr(e@) == Ok::<Seq<CInsV>, ()>(
                    cv + seq![CInsV::JumpNotTruthy((spec_cins_len(tv) + 3) as u16)] + tv + seq![CInsV::Jump(spec_cins_len(fv) as u16)] + fv,
                ));
            }
            Ok(c)
        },
        _ => {
            assert(false);
            Err(Error::Overflow)
        },
    }
}

/// Compiles a program: each expression statement's instructions followed by
/// `OpPop`, with integer constants collected into the constant pool.
/// `Err(Overflow)` when a constant index, a jump address or the byte size of
/// the program does not fit in a `u16`.
pub fn compile(program: ast::Program) -> (r: Result<Output, Error>)
    requires
        stmts_compilable(program@),
    ensures
        r matches Ok(o) ==> spec_compile(program@) == Ok::<AsmV, ()>(o@),
        r is Err ==> spec_compile(program@) is Err,
{
    let cins = compile_stmts(&program.statements)?;
    let ghost all = cins_view(cins@);
    let mut output = Output::new();
    let mut rest = cins;
    let ghost mut k: int = 0;
    assert(all.subrange(0, 0) =~= Seq::<CInsV>::empty());
    assert(cins_view(rest@) =~= all.subrange(0, all.len() as int));
    while rest.len() > 0
        invariant
            spec_compile_stmts(program@) == Ok::<Seq<CInsV>, ()>(all),
            0 <= k <= all.len(),
            cins_view(rest@) == all.subrange(k, all.len() as int),
            spec_assemble(all.subrange(0, k)) == Ok::<AsmV, ()>(output@),
        decreases rest.len(),
    {
        let ghost old_rest = rest@;
        let ins = rest.remove(0);
        proof {
            assert(cins_view(old_rest)[0] == old_rest[0]@);
            assert(cins_view(old_rest)[0] == all.subrange(k, all.len() as int)[0]);
            assert(ins == old_rest[0]);
            assert(old_rest.len() > 0);
            assert(cins_view(old_rest).len() == old_rest.len());
            assert(all.subrange(k, all.len() as int).len() == all.len() - k);
            assert(k < all.len());
            assert(all.subrange(k, all.len() as int)[0] == all[k]);
            assert(ins@ == old_rest[0]@);
            assert(ins@ == all[k]);
            assert forall|j: int| 0 <= j < rest@.len() implies #[trigger] cins_view(rest@)[j] == all[k + 1 + j] by {
                assert(rest@[j] == old_rest[j + 1]);
                assert(cins_view(old_rest)[j + 1] == old_rest[j + 1]@);
                assert(cins_view(old_rest)[j + 1] == all.subrange(k, all.len() as int)[j + 1]);
            }
            assert(cins_view(rest@) =~= all.subrange(k + 1, all.len() as int));
            assert(all.subrange(0, k + 1).drop_last() =~= all.subrange(0, k));
            assert(all.subrange(0, k + 1).last() == all[k]);
        }
        let ghost st = output@;
        let ghost c = ins@;
        match output.add_instruction(ins) {
            Ok(o) => {
                output = o;
            },
            Err(e) => {
                proof {
                    assert(spec_add_instruction(st, c) is Err);
                    assert(spec_assemble(all.subrange(0, k + 1)) == spec_add_instruction(st, c));
                    lemma_assemble_err_prefix(all, k + 1);
                }
                return Err(e);
            },
        }
        proof {
            k = k + 1;
        }
    }
    assert(all.subrange(0, k) =~= all);
    Ok(output)
}

proof fn lemma_assemble_err_prefix(s: Seq<CInsV>, k: int)
    requires
        0 <= k <= s.len(),
        spec_assemble(s.subrange(0, k)) is Err,
    ensures
        spec_assemble(s) is Err,
    decreases s.len() - k,
{
    if k < s.len() {
        assert(s.subrange(0, k + 1).drop_last() =~= s.subrange(0, k));
        lemma_assemble_err_prefix(s, k + 1);
    } else {
        assert(s.subrange(0, k) =~= s);
    }
}

fn stmts_are_compilable(ss: &Vec<ast::Statement>) -> (b: bool)
    ensures
        b == stmts_compilable(stmts_view(ss@)),
    decreases ss@, 0nat,
{
    proof {
        lemma_stmts_view(ss@);
        lemma_stmts_compilable_elems(stmts_view(ss@));
    }
    let mut i: usize = 0;
    while i < ss.len()
        invariant
            i <= ss.len(),
            stmts_view(ss@).len() == ss.len(),
            forall|j: int| 0 <= j < ss.len() ==> #[trigger] stmts_view(ss@)[j] == stmt_view(ss@[j]),
            forall|j: int| 0 <= j < i ==> stmt_compilable(#[trigger] stmts_view(ss@)[j]),
        decreases ss.len() - i,
    {
        proof {
            assert(decreases_to!(ss@ => ss@[i as int]));
        }
        let ok = match &ss[i] {
            ast::Statement::Expression(e) => {
                proof {
                    assert(decreases_to!(ss@[i as int] => (ss@[i as int])->Expression_0));
                }
                expr_is_compilable(e)
            },
            _ => false,
        };
        if !ok {
            assert(!stmt_compilable(stmts_view(ss@)[i as int]));
            proof {
                lemma_stmts_compilable_elems(stmts_view(ss@));
            }
            return false;
        }
        i = i + 1;
    }
    true
}

/// Whether the compiler handles an expression.
pub fn expr_is_compilable(e: &ast::Expression) -> (b: bool)
    ensures
        b == expr_compilable(e@),
    decreases e, 2nat,
{
    match e {
        ast::Expression::IntegerLiteral(_) => true,
        ast::Expression::Boolean(_) => true,
        ast::Expression::Prefix { right, .. } => expr_is_compilable(right),
        ast::Expression::Infix { left, right, .. } => expr_is_compilable(left) && expr_is_compilable(
            right,
        ),
        ast::Expression::If { condition, consequence, alternative } => {
            proof {
                assert(decreases_to!(*e => (*e)->If_consequence));
                assert(decreases_to!(*e => (*e)->If_alternative));
                lemma_stmts_view(consequence@);
            }
            expr_is_compilable(condition) && consequence.len() > 0 && stmts_are_compilable(
                consequence,
            ) && stmts_are_compilable(alternative)
        },
        _ => false,
    }
}

/// Whether the compiler handles a program: only expression statements of
/// integer and boolean literals, operators, and `if` expressions with a
/// non-empty consequence.
pub fn is_compilable(program: &ast::Program) -> (b: bool)
    ensures
        b == stmts_compilable(program@),
{
    stmts_are_compilable(&program.statements)
}

/// Every constant an assembled instruction refers to is in the pool.
pub open spec fn constants_in_pool(st: AsmV) -> bool {
    forall|i: int|
        0 <= i < st.instructions.len() ==> (#[trigger] st.instructions[i] matches Instruction::OpConstant(
            c,
        ) ==> (c as int) < st.constants.len())
}

/// Assembly refers only to constants in its pool, and its byte index is the
/// length of its instructions' encoding.
pub proof fn lemma_assemble_well_formed(s: Seq<CInsV>)
    ensures
        spec_assemble(s) matches Ok(st) ==> constants_in_pool(st) && st.index
            == spec_encode_all(st.instructions).len(),
    decreases s.len(),
{
    if s.len() > 0 {
        lemma_assemble_well_formed(s.drop_last());
        if let Ok(prev) = spec_assemble(s.drop_last()) {
            if let Ok(st) = spec_add_instruction(prev, s.last()) {
                let i = st.instructions.last();
                assert(st.instructions == prev.instructions.push(i));
                assert forall|k: int| 0 <= k < st.instructions.len() implies (
                #[trigger] st.instructions[k] matches Instruction::OpConstant(c) ==> (c as int)
                    < st.constants.len()) by {
                    if k < prev.instructions.len() {
                        assert(st.instructions[k] == prev.instructions[k]);
                    }
                }
                lemma_encode_all_push(prev.instructions, i);
                lemma_encode_len(i);
            }
        }
    }
}

proof fn lemma_encode_len(i: Instruction)
    ensures
        spec_encode(i).len() == spec_size(i),
{
}

/// Encoding one more instruction appends its encoding.
pub proof fn lemma_encode_all_push(s: Seq<Instruction>, i: Instruction)
    ensures
        spec_encode_all(s.push(i)) == spec_encode_all(s) + spec_encode(i),
    decreases s.len(),
{
    if s.len() == 0 {
        assert(s.push(i).drop_first() =~= Seq::<Instruction>::empty());
        assert(spec_encode_all(Seq::<Instruction>::empty()) == Seq::<u8>::empty());
        assert(s.push(i)[0] == i);
        assert(spec_encode_all(s.push(i)) =~= spec_encode(i));
    } else {
        assert(s.push(i).drop_first() =~= s.drop_first().push(i));
        lemma_encode_all_push(s.drop_first(), i);
        assert(spec_encode_all(s.push(i)) =~= spec_encode_all(s) + spec_encode(i));
    }
}

/// The output of a successful compilation refers only to constants in its
/// pool, and its byte index is the length of its instructions' encoding.
pub proof fn lemma_compile_well_formed(p: Seq<StmtV>)
    ensures
        spec_compile(p) matches Ok(st) ==> constants_in_pool(st) && st.index == spec_encode_all(
            st.instructions,
        ).len(),
{
    if let Ok(c) = spec_compile_stmts(p) {
        lemma_assemble_well_formed(c);
    }
}

/// `a < b` compiles as `b > a` does: `b`'s code, then `a`'s code, then
/// `GreaterThan`.
pub proof fn lemma_less_than_compiles_as_swapped_greater_than(a: ExprV, b: ExprV)
    ensures
        spec_compile_expr(
            ExprV::Infix { operator: Operator::LessThan, left: Box::new(a), right: Box::new(b) },
        ) == spec_compile_expr(
            ExprV::Infix { operator: Operator::GreaterThan, left: Box::new(b), right: Box::new(a) },
        ),
        (spec_compile_expr(a) is Ok && spec_compile_expr(b) is Ok) ==> spec_compile_expr(
            ExprV::Infix { operator: Operator::LessThan, left: Box::new(a), right: Box::new(b) },
        ) == Ok::<Seq<CInsV>, ()>(
            (spec_compile_expr(b)->Ok_0 + spec_compile_expr(a)->Ok_0).push(CInsV::GreaterThan),
        ),
{
}

/// The compile instructions of each statement, in order.
pub open spec fn statement_codes(ss: Seq<StmtV>) -> Seq<Seq<CInsV>> {
    Seq::new(ss.len(), |i: int| spec_compile_stmt(ss[i])->Ok_0)
}

proof fn lemma_compile_stmts_concat(ss: Seq<StmtV>)
    requires
        forall|i: int| 0 <= i < ss.len() ==> (#[trigger] spec_compile_stmt(ss[i])) is Ok,
    ensures
        spec_compile_stmts(ss) == Ok::<Seq<CInsV>, ()>(statement_codes(ss).flatten_alt()),
    decreases ss.len(),
{
    if ss.len() > 0 {
        let d = ss.drop_last();
        assert forall|i: int| 0 <= i < d.len() implies (#[trigger] spec_compile_stmt(d[i])) is Ok by {
            assert(d[i] == ss[i]);
        }
        lemma_compile_stmts_concat(d);
        assert(statement_codes(d) =~= statement_codes(ss).drop_last());
        assert(spec_compile_stmt(ss[ss.len() - 1]) is Ok);
        assert(statement_codes(ss).last() == spec_compile_stmt(ss.last())->Ok_0);
    } else {
        assert(statement_codes(ss) =~= Seq::<Seq<CInsV>>::empty());
    }
}

proof fn lemma_cins_len_concat(x: Seq<CInsV>, y: Seq<CInsV>)
    ensures
        spec_cins_len(x + y) == spec_cins_len(x) + spec_cins_len(y),
    decreases y.len(),
{
    if y.len() == 0 {
        assert(x + y =~= x);
    } else {
        lemma_cins_len_concat(x, y.drop_last());
        assert((x + y).drop_last() =~= x + y.drop_last());
    }
}

/// The byte sizes of the statements' code, in order.
pub open spec fn statement_sizes(ss: Seq<StmtV>) -> Seq<int> {
    Seq::new(ss.len(), |i: int| spec_cins_len(spec_compile_stmt(ss[i])->Ok_0) as int)
}

proof fn lemma_flatten_size(c: Seq<Seq<CInsV>>)
    ensures
        spec_cins_len(c.flatten_alt()) == Seq::new(c.len(), |i: int| spec_cins_len(c[i]) as int).fold_left(
            0,
            |a: int, x: int| a + x,
        ),
    decreases c.len(),
{
    let sizes = Seq::new(c.len(), |i: int| spec_cins_len(c[i]) as int);
    if c.len() > 0 {
        lemma_flatten_size(c.drop_last());
        assert(Seq::new(c.drop_last().len(), |i: int| spec_cins_len(c.drop_last()[i]) as int)
            =~= sizes.drop_last());
        lemma_cins_len_concat(c.drop_last().flatten_alt(), c.last());
    } else {
        assert(sizes.len() == 0);
    }
}

/// A non-empty branch of an `if` keeps the code of every one of its
/// statements, in order: its code followed by one `Pop` is the concatenated
/// code of the statements, so only the final `Pop` is left out; and its size
/// in bytes is theirs less the one byte of that `Pop`.
pub proof fn lemma_branch_keeps_every_statement(ss: Seq<StmtV>)
    requires
        ss.len() > 0,
        forall|i: int| 0 <= i < ss.len() ==> (#[trigger] spec_compile_stmt(ss[i])) is Ok,
    ensures
        spec_branch(ss) matches Ok(b) && b.push(CInsV::Pop) == statement_codes(ss).flatten()
            && spec_cins_len(b) + 1 == statement_sizes(ss).fold_left(0, |a: int, x: int| a + x),
{
    lemma_compile_stmts_concat(ss);
    lemma_flatten_size(statement_codes(ss));
    assert(Seq::new(statement_codes(ss).len(), |i: int| spec_cins_len(statement_codes(ss)[i]) as int)
        =~= statement_sizes(ss));
    statement_codes(ss).lemma_flatten_and_flatten_alt_are_equivalent();
    let all = statement_codes(ss).flatten_alt();
    let last = statement_codes(ss).last();
    assert(spec_compile_stmt(ss[ss.len() - 1]) is Ok);
    assert(last == spec_compile_stmt(ss.last())->Ok_0);
    assert(last.len() > 0 && last.last() == CInsV::Pop);
    assert(all == statement_codes(ss).drop_last().flatten_alt() + last);
    assert(all.len() > 0 && all.last() == CInsV::Pop);
    let b = spec_branch(ss)->Ok_0;
    assert(b == all.drop_last());
    assert(b.push(CInsV::Pop) =~= all);
    assert(all.drop_last() == all.drop_last());
    assert(spec_cins_len(all) == spec_cins_len(all.drop_last()) + spec_cins_size(all.last()));
}

} // verus!
