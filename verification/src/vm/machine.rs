//! The stack machine that runs compiled instructions.
use vstd::prelude::*;
use crate::ast::Operator;
use crate::bytecode::Instruction;
use crate::compiler::Output;
use crate::object;
use crate::object::{copy_object, lemma_objs_view, objs_view, operator_faults, prefix_faults, spec_apply_operator, spec_apply_prefix_operator, spec_operator_faults, spec_prefix_faults, ObjErrV, ObjV, Object};
use crate::text::lit;

verus! {

pub type Stack = Vec<Object>;

#[derive(Debug, PartialEq)]
pub enum Error {
    StackOutOfRange,
    ObjectError(object::Error),
}

/// Mathematical view of a machine error.
pub enum VmErrV {
    StackOutOfRange,
    ObjectError(ObjErrV),
}

impl View for Error {
    type V = VmErrV;

    open spec fn view(&self) -> VmErrV {
        match self {
            Error::StackOutOfRange => VmErrV::StackOutOfRange,
            Error::ObjectError(e) => VmErrV::ObjectError(e@),
        }
    }
}

impl Error {
    /// The message of the error: `VM error: ` and the operator error's message,
    /// or `VM error: StackOutOfRange`.
    pub fn display(&self) -> (r: String)
        ensures
            r@ == spec_vm_error_text(self@),
    {
        match self {
            Error::ObjectError(e) => {
                let mut r = lit("VM error: ");
                crate::text::push_string(&mut r, &e.display());
                r
            },
            Error::StackOutOfRange => lit("VM error: StackOutOfRange"),
        }
    }
}

pub open spec fn spec_vm_error_text(e: VmErrV) -> Seq<char> {
    match e {
        VmErrV::ObjectError(o) => "VM error: "@ + object::spec_obj_error_text(o),
        VmErrV::StackOutOfRange => "VM error: StackOutOfRange"@,
    }
}

/// What one step of the machine gives: the new stack and last popped value,
/// an error, or a halt where the machine stops without an answer (an
/// instruction it does not run, or an arithmetic fault).
pub enum StepV {
    Next(Seq<ObjV>, Option<ObjV>),
    Fail(VmErrV),
    Halt,
}

/// The operator a binary instruction applies.
pub open spec fn spec_binary_operator(i: Instruction) -> Option<Operator> {
    match i {
        Instruction::OpAdd => Some(Operator::Plus),
        Instruction::OpSub => Some(Operator::Minus),
        Instruction::OpMul => Some(Operator::Multiply),
        Instruction::OpDiv => Some(Operator::Divide),
        Instruction::OpGreaterThan => Some(Operator::GreaterThan),
        Instruction::OpEqual => Some(Operator::Equal),
        Instruction::OpNotEqual => Some(Operator::NotEqual),
        _ => None,
    }
}

/// One instruction run on a stack. Binary operators pop the right then the
/// left operand and push the result; `OpNeg` and `OpNot` read the top of the
/// stack, leave it there and push the result on it; `OpPop` records the top
/// of the stack as the last popped value and leaves the stack as it is.
pub open spec fn spec_step(
    i: Instruction,
    stack: Seq<ObjV>,
    constants: Seq<ObjV>,
    last: Option<ObjV>,
) -> StepV {
    match i {
        Instruction::OpConstant(c) => if (c as int) < constants.len() {
            StepV::Next(stack.push(constants[c as int]), last)
        } else {
            StepV::Fail(VmErrV::StackOutOfRange)
        },
        Instruction::OpPop => if stack.len() == 0 {
            StepV::Fail(VmErrV::StackOutOfRange)
        } else {
            StepV::Next(stack, Some(stack.last()))
        },
        Instruction::OpTrue => StepV::Next(stack.push(ObjV::Boolean(true)), last),
        Instruction::OpFalse => StepV::Next(stack.push(ObjV::Boolean(false)), last),
        Instruction::OpNeg | Instruction::OpNot => {
            let op = if i == Instruction::OpNeg {
                Operator::Minus
            } else {
                Operator::Not
            };
            if stack.len() == 0 {
                StepV::Fail(VmErrV::StackOutOfRange)
            } else if spec_prefix_faults(op, stack.last()) {
                StepV::Halt
            } else {
                match spec_apply_prefix_operator(op, stack.last()) {
                    Ok(v) => StepV::Next(stack.push(v), last),
                    Err(e) => StepV::Fail(VmErrV::ObjectError(e)),
                }
            }
        },
        Instruction::OpJumpNotTruthy(_) | Instruction::OpJump(_) | Instruction::OpNull => StepV::Halt,
        _ => {
            let op = spec_binary_operator(i).unwrap();
            if stack.len() < 2 {
                StepV::Fail(VmErrV::StackOutOfRange)
            } else {
                let right = stack.last();
                let left = stack.drop_last().last();
                let rest = stack.drop_last().drop_last();
                if spec_operator_faults(op, left, right) {
                    StepV::Halt
                } else {
                    match spec_apply_operator(op, left, right) {
                        Ok(v) => StepV::Next(rest.push(v), last),
                        Err(e) => StepV::Fail(VmErrV::ObjectError(e)),
                    }
                }
            }
        },
    }
}

/// The outcome of running instructions: the final stack, an error, or a halt,
/// together with the last popped value.
pub enum RunV {
    Done(Seq<ObjV>),
    Fail(VmErrV),
    Halt,
}

/// Runs the instructions from index `k` on, stopping at the first error or halt.
pub open spec fn spec_run_from(
    instrs: Seq<Instruction>,
    k: int,
    stack: Seq<ObjV>,
    constants: Seq<ObjV>,
    last: Option<ObjV>,
) -> (RunV, Option<ObjV>)
    decreases instrs.len() - k,
{
    if k < 0 || k >= instrs.len() {
        (RunV::Done(stack), last)
    } else {
        match spec_step(instrs[k], stack, constants, last) {
            StepV::Next(s2, l2) => spec_run_from(instrs, k + 1, s2, constants, l2),
            StepV::Fail(e) => (RunV::Fail(e), last),
            StepV::Halt => (RunV::Halt, last),
        }
    }
}

/// Runs compiled output on a stack.
pub open spec fn spec_run(
    compiled: crate::compiler::AsmV,
    stack: Seq<ObjV>,
    last: Option<ObjV>,
) -> (RunV, Option<ObjV>) {
    spec_run_from(compiled.instructions, 0, stack, compiled.constants, last)
}

pub struct Vm {
    /// The value the last `OpPop` found on top of the stack.
    pub last_popped: Option<Object>,
}

impl View for Vm {
    type V = Option<ObjV>;

    open spec fn view(&self) -> Option<ObjV> {
        match self.last_popped {
            Some(o) => Some(o@),
            None => None,
        }
    }
}

/// The value at index `i`, or `StackOutOfRange`.
pub fn ith_object(stack: &Vec<Object>, i: usize) -> (r: Result<Object, Error>)
    ensures
        r matches Ok(o) ==> i < stack@.len() && o@ == stack@[i as int]@,
        r is Err ==> i >= stack@.len() && r == Err::<Object, Error>(Error::StackOutOfRange),
{
    if i < stack.len() {
        Ok(copy_object(&stack[i]))
    } else {
        Err(Error::StackOutOfRange)
    }
}

/// The value on top of the stack, or `StackOutOfRange` when it is empty.
pub fn top_object(stack: &Vec<Object>) -> (r: Result<Object, Error>)
    ensures
        r matches Ok(o) ==> stack@.len() > 0 && o@ == stack@.last()@,
        r is Err ==> stack@.len() == 0 && r == Err::<Object, Error>(Error::StackOutOfRange),
{
    if stack.len() == 0 {
        Err(Error::StackOutOfRange)
    } else {
        let len = stack.len() - 1;
        ith_object(stack, len)
    }
}

/// Pops the right then the left operand.
pub fn top_pair_object_option(stack: &mut Vec<Object>) -> (r: Option<(Object, Object)>)
    ensures
        old(stack)@.len() >= 2 ==> (r matches Some((l, rt)) && l == old(stack)@[old(stack)@.len() - 2]
            && rt == old(stack)@.last() && final(stack)@ == old(stack)@.drop_last().drop_last()),
        old(stack)@.len() < 2 ==> r is None,
{
    let right = match stack.pop() {
        Some(x) => x,
        None => return None,
    };
    let left = match stack.pop() {
        Some(x) => x,
        None => return None,
    };
    Some((left, right))
}

/// Pops the right then the left operand, or `StackOutOfRange`.
pub fn top_pair_object(stack: &mut Vec<Object>) -> (r: Result<(Object, Object), Error>)
    ensures
        old(stack)@.len() >= 2 ==> (r matches Ok((l, rt)) && l == old(stack)@[old(stack)@.len() - 2]
            && rt == old(stack)@.last() && final(stack)@ == old(stack)@.drop_last().drop_last()),
        old(stack)@.len() < 2 ==> r == Err::<(Object, Object), Error>(Error::StackOutOfRange),
{
    match top_pair_object_option(stack) {
        Some(p) => Ok(p),
        None => Err(Error::StackOutOfRange),
    }
}

/// The machine's outcome: a result, or a halt where it stops without one.
pub enum Outcome {
    Finished(Result<Stack, Error>),
    Halted,
}

fn binary_operator(i: Instruction) -> (r: Option<Operator>)
    ensures
        r == spec_binary_operator(i),
{
    match i {
        Instruction::OpAdd => Some(Operator::Plus),
        Instruction::OpSub => Some(Operator::Minus),
        Instruction::OpMul => Some(Operator::Multiply),
        Instruction::OpDiv => Some(Operator::Divide),
        Instruction::OpGreaterThan => Some(Operator::GreaterThan),
        Instruction::OpEqual => Some(Operator::Equal),
        Instruction::OpNotEqual => Some(Operator::NotEqual),
        _ => None,
    }
}

impl Vm {
    pub fn new() -> (vm: Vm)
        ensures
            vm.last_popped is None,
    {
        Vm { last_popped: None }
    }

    /// The value the last `OpPop` found on top of the stack.
    pub fn last_popped(&self) -> (r: Option<&Object>)
        ensures
            r matches Some(o) ==> self.last_popped == Some(*o),
            r is None ==> self.last_popped is None,
    {
        match &self.last_popped {
            Some(o) => Some(o),
            None => None,
        }
    }

    /// Runs one instruction.
    fn step(&mut self, instruction: Instruction, stack: Stack, constants: &Vec<Object>) -> (r: Outcome)
        ensures
            match spec_step(instruction, objs_view(stack@), objs_view(constants@), old(self)@) {
                StepV::Next(s2, l2) => r matches Outcome::Finished(Ok(st)) && objs_view(st@) == s2 && final(self)@ == l2,
                StepV::Fail(e) => r matches Outcome::Finished(Err(err)) && err@ == e && final(self)@ == old(self)@,
                StepV::Halt => r is Halted && final(self)@ == old(self)@,
            },
    {
        let mut stack = stack;
        proof {
            lemma_objs_view(stack@);
            lemma_objs_view(constants@);
        }
        let ghost sv = objs_view(stack@);
        match instruction {
            Instruction::OpConstant(i) => {
                match ith_object(constants, i as usize) {
                    Ok(constant) => {
                        stack.push(constant);
                        proof {
                            lemma_objs_view(stack@);
                            assert(objs_view(stack@) =~= sv.push(objs_view(constants@)[i as int]));
                        }
                        Outcome::Finished(Ok(stack))
                    },
                    Err(e) => Outcome::Finished(Err(e)),
                }
            },
            Instruction::OpPop => {
                match top_object(&stack) {
                    Ok(top) => {
                        self.last_popped = Some(top);
                        Outcome::Finished(Ok(stack))
                    },
                    Err(e) => Outcome::Finished(Err(e)),
                }
            },
            Instruction::OpTrue => {
                stack.push(Object::Boolean(true));
                proof {
                    lemma_objs_view(stack@);
                    assert(objs_view(stack@) =~= sv.push(ObjV::Boolean(true)));
                }
                Outcome::Finished(Ok(stack))
            },
            Instruction::OpFalse => {
                stack.push(Object::Boolean(false));
                proof {
                    lemma_objs_view(stack@);
                    assert(objs_view(stack@) =~= sv.push(ObjV::Boolean(false)));
                }
                Outcome::Finished(Ok(stack))
            },
            Instruction::OpNeg | Instruction::OpNot => {
                let op = if let Instruction::OpNeg = instruction {
                    Operator::Minus
                } else {
                    Operator::Not
                };
                match top_object(&stack) {
                    Ok(top) => {
                        if prefix_faults(op, &top) {
                            return Outcome::Halted;
                        }
                        match top.apply_prefix_operator(op) {
                            Ok(evaluated) => {
                                let ghost ev = evaluated@;
                                stack.push(evaluated);
                                proof {
                                    lemma_objs_view(stack@);
                                    assert(objs_view(stack@) =~= sv.push(ev));
                                }
                                Outcome::Finished(Ok(stack))
                            },
                            Err(e) => Outcome::Finished(Err(Error::ObjectError(e))),
                        }
                    },
                    Err(e) => Outcome::Finished(Err(e)),
                }
            },
            Instruction::OpJumpNotTruthy(_) | Instruction::OpJump(_) | Instruction::OpNull => {
                Outcome::Halted
            },
            _ => {
                let op = binary_operator(instruction).unwrap();
                let ghost before = stack@;
                match top_pair_object(&mut stack) {
                    Ok((left, right)) => {
                        proof {
                            lemma_objs_view(before);
                            lemma_objs_view(stack@);
                            assert(objs_view(stack@) =~= sv.drop_last().drop_last());
                            assert(sv.drop_last().last() == sv[sv.len() - 2]);
                        }
                        if operator_faults(op, &left, &right) {
                            return Outcome::Halted;
                        }
                        match left.apply_operator(op, right) {
                            Ok(evaluated) => {
                                let ghost ev = evaluated@;
                                let ghost rest = objs_view(stack@);
                                stack.push(evaluated);
                                proof {
                                    lemma_objs_view(stack@);
                                    assert(objs_view(stack@) =~= rest.push(ev));
                                }
                                Outcome::Finished(Ok(stack))
                            },
                            Err(e) => Outcome::Finished(Err(Error::ObjectError(e))),
                        }
                    },
                    Err(e) => Outcome::Finished(Err(e)),
                }
            },
        }
    }

    /// Runs the instructions in order on the stack, stopping at the first
    /// error or halt.
    #[verifier::loop_isolation(false)]
    pub fn execute(&mut self, stack: Stack, compiled: Output) -> (r: Outcome)
        ensures
            match spec_run(compiled@, objs_view(stack@), old(self)@) {
                (RunV::Done(s), l) => r matches Outcome::Finished(Ok(st)) && objs_view(st@) == s && final(self)@ == l,
                (RunV::Fail(e), l) => r matches Outcome::Finished(Err(err)) && err@ == e && final(self)@ == l,
                (RunV::Halt, l) => r is Halted && final(self)@ == l,
            },
    {
        let Output { constants, instructions, .. } = compiled;
        let ghost cv = objs_view(constants@);
        let ghost iv = instructions@;
        let ghost start = objs_view(stack@);
        let ghost last0 = self@;
        let mut stack = stack;
        let mut k: usize = 0;
        while k < instructions.len()
            invariant
                k <= instructions.len(),
                iv == instructions@,
                cv == objs_view(constants@),
                spec_run_from(iv, 0, start, cv, last0) == spec_run_from(iv, k as int, objs_view(stack@), cv, self@),
            decreases instructions.len() - k,
        {
            let ins = instructions[k];
            let ghost sv = objs_view(stack@);
            let ghost l = self@;
            match self.step(ins, stack, &constants) {
                Outcome::Finished(Ok(s2)) => {
                    stack = s2;
                },
                Outcome::Finished(Err(e)) => {
                    assert(spec_step(iv[k as int], sv, cv, l) == StepV::Fail(e@));
                    assert(spec_run_from(iv, k as int, sv, cv, l) == (RunV::Fail(e@), l));
                    return Outcome::Finished(Err(e));
                },
                Outcome::Halted => {
                    assert(spec_step(iv[k as int], sv, cv, l) is Halt);
                    assert(spec_run_from(iv, k as int, sv, cv, l) == (RunV::Halt, l));
                    return Outcome::Halted;
                },
            }
            k = k + 1;
        }
        Outcome::Finished(Ok(stack))
    }

    /// Runs the instructions in order on the stack and returns the final
    /// stack, or the first error.
    pub fn run(&mut self, stack: Stack, compiled: Output) -> (r: Result<Stack, Error>)
        requires
            !(spec_run(compiled@, objs_view(stack@), old(self)@).0 is Halt),
        ensures
            match spec_run(compiled@, objs_view(stack@), old(self)@) {
                (RunV::Done(s), l) => r matches Ok(st) && objs_view(st@) == s && final(self)@ == l,
                (RunV::Fail(e), l) => r matches Err(err) && err@ == e && final(self)@ == l,
                (RunV::Halt, _) => false,
            },
    {
        match self.execute(stack, compiled) {
            Outcome::Finished(r) => r,
            Outcome::Halted => {
                assert(false);
                Err(Error::StackOutOfRange)
            },
        }
    }
}

} // verus!
