//! Bytecode instructions, their definitions, and their encoding as bytes.
use vstd::prelude::*;
use crate::text::{lit, push_decimal, push_decimal_width4, push_str, spec_decimal, spec_decimal_width4};

verus! {

pub type OpCode = u8;

pub const OP_CONSTANT: OpCode = 1;

pub const OP_ADD: OpCode = 2;

pub const OP_POP: OpCode = 3;

pub const OP_SUB: OpCode = 4;

pub const OP_MUL: OpCode = 5;

pub const OP_DIV: OpCode = 6;

pub const OP_TRUE: OpCode = 7;

pub const OP_FALSE: OpCode = 8;

pub const OP_EQUAL: OpCode = 9;

pub const OP_NOT_EQUAL: OpCode = 10;

pub const OP_GREATER_THAN: OpCode = 11;

pub const OP_NEG: OpCode = 12;

pub const OP_NOT: OpCode = 13;

pub const OP_JUMP_NOT_TRUTHY: OpCode = 14;

pub const OP_JUMP: OpCode = 15;

pub const OP_NULL: OpCode = 16;

#[derive(PartialEq, Eq, Structural, Debug, Clone, Copy)]
pub enum Instruction {
    /// Pushes the constant at the given index.
    OpConstant(u16),
    OpPop,
    OpAdd,
    OpSub,
    OpMul,
    OpDiv,
    OpTrue,
    OpFalse,
    OpGreaterThan,
    OpEqual,
    OpNotEqual,
    OpNeg,
    OpNot,
    /// Jumps to the given byte address when the top of the stack is not truthy.
    OpJumpNotTruthy(u16),
    /// Jumps to the given byte address.
    OpJump(u16),
    OpNull,
}

/// What every instruction of one kind shares: its opcode, its name and its
/// size in bytes (the opcode and the operand).
pub struct Definition {
    pub code: OpCode,
    pub name: &'static str,
    pub size: usize,
}

/// The opcode of an instruction.
pub open spec fn spec_code(i: Instruction) -> u8 {
    match i {
        Instruction::OpConstant(_) => OP_CONSTANT,
        Instruction::OpPop => OP_POP,
        Instruction::OpAdd => OP_ADD,
        Instruction::OpSub => OP_SUB,
        Instruction::OpMul => OP_MUL,
        Instruction::OpDiv => OP_DIV,
        Instruction::OpTrue => OP_TRUE,
        Instruction::OpFalse => OP_FALSE,
        Instruction::OpGreaterThan => OP_GREATER_THAN,
        Instruction::OpEqual => OP_EQUAL,
        Instruction::OpNotEqual => OP_NOT_EQUAL,
        Instruction::OpNeg => OP_NEG,
        Instruction::OpNot => OP_NOT,
        Instruction::OpJumpNotTruthy(_) => OP_JUMP_NOT_TRUTHY,
        Instruction::OpJump(_) => OP_JUMP,
        Instruction::OpNull => OP_NULL,
    }
}

/// The name of an instruction.
pub open spec fn spec_name(i: Instruction) -> Seq<char> {
    match i {
        Instruction::OpConstant(_) => "OpConstant"@,
        Instruction::OpPop => "OpPop"@,
        Instruction::OpAdd => "OpAdd"@,
        Instruction::OpSub => "OpSub"@,
        Instruction::OpMul => "OpMul"@,
        Instruction::OpDiv => "OpDiv"@,
        Instruction::OpTrue => "OpTrue"@,
        Instruction::OpFalse => "OpFalse"@,
        Instruction::OpGreaterThan => "OpGreaterThan"@,
        Instruction::OpEqual => "OpEqual"@,
        Instruction::OpNotEqual => "OpNotEqual"@,
        Instruction::OpNeg => "OpNeg"@,
        Instruction::OpNot => "OpNot"@,
        Instruction::OpJumpNotTruthy(_) => "OpJumpNotTruthy"@,
        Instruction::OpJump(_) => "OpJump"@,
        Instruction::OpNull => "OpNull"@,
    }
}

/// The operand of an instruction, if it has one.
pub open spec fn spec_operand(i: Instruction) -> Option<u16> {
    match i {
        Instruction::OpConstant(v) => Some(v),
        Instruction::OpJumpNotTruthy(v) => Some(v),
        Instruction::OpJump(v) => Some(v),
        _ => None,
    }
}

/// The size of an instruction in bytes: one for the opcode, two more for a `u16` operand.
pub open spec fn spec_size(i: Instruction) -> nat {
    if spec_operand(i) is Some {
        3
    } else {
        1
    }
}

/// The encoding of an instruction: its opcode, then its operand in big-endian order.
pub open spec fn spec_encode(i: Instruction) -> Seq<u8> {
    match spec_operand(i) {
        Some(v) => seq![spec_code(i), (v / 256) as u8, (v % 256) as u8],
        None => seq![spec_code(i)],
    }
}

/// The concatenated encodings of a sequence of instructions.
pub open spec fn spec_encode_all(s: Seq<Instruction>) -> Seq<u8>
    decreases s.len(),
{
    if s.len() == 0 {
        Seq::empty()
    } else {
        spec_encode(s[0]) + spec_encode_all(s.drop_first())
    }
}

/// Decodes the instruction that starts at `pos`: `None` at the end of the bytes,
/// otherwise the instruction and the position after the bytes it read. Only
/// `OpConstant` (with its two-byte operand) and `OpAdd` decode; any other
/// opcode is an error that reads one byte, and an operand cut short is an
/// error that reads to the end.
pub open spec fn spec_decode_at(bytes: Seq<u8>, pos: int) -> Option<(Result<Instruction, ()>, int)> {
    if pos < 0 || pos >= bytes.len() {
        None
    } else {
        let code = bytes[pos];
        if code == OP_CONSTANT {
            if pos + 3 <= bytes.len() {
                let v = (bytes[pos + 1] * 256 + bytes[pos + 2]) as u16;
                Some((Ok(Instruction::OpConstant(v)), pos + 3))
            } else {
                Some((Err(()), bytes.len() as int))
            }
        } else if code == OP_ADD {
            Some((Ok(Instruction::OpAdd), pos + 1))
        } else {
            Some((Err(()), pos + 1))
        }
    }
}

/// The instructions that decoding reads back: `OpConstant` and `OpAdd`.
pub open spec fn spec_decodable(i: Instruction) -> bool {
    i is OpConstant || i is OpAdd
}

/// Decodes all instructions from `pos` on, failing at the first error.
pub open spec fn spec_decode_from(bytes: Seq<u8>, pos: int) -> Result<Seq<Instruction>, ()>
    decreases bytes.len() - pos,
{
    match spec_decode_at(bytes, pos) {
        None => Ok(Seq::empty()),
        Some((Err(_), _)) => Err(()),
        Some((Ok(i), next)) => if next <= pos {
            Err(())
        } else {
            match spec_decode_from(bytes, next) {
                Ok(rest) => Ok(seq![i] + rest),
                Err(_) => Err(()),
            }
        },
    }
}

/// The printed form of an instruction: its name, followed by the operand for `OpConstant`.
pub open spec fn spec_instruction_text(i: Instruction) -> Seq<char> {
    match i {
        Instruction::OpConstant(v) => "OpConstant "@ + spec_decimal(v as nat),
        _ => spec_name(i),
    }
}

/// Disassembly lines `{offset:04} {instruction}\n` for instructions starting at `offset`.
pub open spec fn spec_disassembly_lines(s: Seq<Instruction>, offset: nat) -> Seq<char>
    decreases s.len(),
{
    if s.len() == 0 {
        Seq::empty()
    } else {
        spec_decimal_width4(offset) + seq![' '] + spec_instruction_text(s[0]) + seq!['\n']
            + spec_disassembly_lines(s.drop_first(), offset + spec_size(s[0]))
    }
}

impl Definition {
    /// The definition of an instruction's kind.
    pub fn of(ins: &Instruction) -> (d: Definition)
        ensures
            d.code == spec_code(*ins),
            d.name@ == spec_name(*ins),
            d.size == spec_size(*ins),
    {
        match ins {
            Instruction::OpConstant(_) => Definition { name: "OpConstant", code: OP_CONSTANT, size: 3 },
            Instruction::OpPop => Definition { name: "OpPop", code: OP_POP, size: 1 },
            Instruction::OpTrue => Definition { name: "OpTrue", code: OP_TRUE, size: 1 },
            Instruction::OpFalse => Definition { name: "OpFalse", code: OP_FALSE, size: 1 },
            Instruction::OpAdd => Definition { name: "OpAdd", code: OP_ADD, size: 1 },
            Instruction::OpSub => Definition { name: "OpSub", code: OP_SUB, size: 1 },
            Instruction::OpMul => Definition { name: "OpMul", code: OP_MUL, size: 1 },
            Instruction::OpDiv => Definition { name: "OpDiv", code: OP_DIV, size: 1 },
            Instruction::OpGreaterThan => Definition {
                name: "OpGreaterThan",
                code: OP_GREATER_THAN,
                size: 1,
            },
            Instruction::OpEqual => Definition { name: "OpEqual", code: OP_EQUAL, size: 1 },
            Instruction::OpNotEqual => Definition {
                name: "OpNotEqual",
                code: OP_NOT_EQUAL,
                size: 1,
            },
            Instruction::OpNeg => Definition { name: "OpNeg", code: OP_NEG, size: 1 },
            Instruction::OpNot => Definition { name: "OpNot", code: OP_NOT, size: 1 },
            Instruction::OpJumpNotTruthy(_) => Definition {
                name: "OpJumpNotTruthy",
                code: OP_JUMP_NOT_TRUTHY,
                size: 3,
            },
            Instruction::OpJump(_) => Definition { name: "OpJump", code: OP_JUMP, size: 3 },
            Instruction::OpNull => Definition { name: "OpNull", code: OP_NULL, size: 1 },
        }
    }
}

impl Instruction {
    /// The size of the instruction in bytes.
    pub fn size(&self) -> (s: u16)
        ensures
            s == spec_size(*self),
    {
        let definition = Definition::of(self);
        definition.size as u16
    }

    /// The printed form: the name, and for `OpConstant` the constant's index,
    /// as in `OpConstant 1` or `OpAdd`.
    pub fn display(&self) -> (r: String)
        ensures
            r@ == spec_instruction_text(*self),
    {
        let definition = Definition::of(self);
        let mut r = lit(definition.name);
        match self {
            Instruction::OpConstant(pointer) => {
                push_str(&mut r, " ");
                push_decimal(&mut r, *pointer as u128);
                proof {
                    reveal_strlit(" ");
                    reveal_strlit("OpConstant");
                    reveal_strlit("OpConstant ");
                }
                assert(r@ =~= spec_instruction_text(*self));
            },
            _ => {},
        }
        r
    }
}

#[derive(Debug, PartialEq)]
pub struct Error {}

#[derive(Debug, PartialEq, Clone)]
pub struct Bytes(pub Vec<u8>);

impl Bytes {
    pub fn new(bytes: Vec<u8>) -> (r: Bytes)
        ensures
            r.0@ == bytes@,
    {
        Bytes(bytes)
    }

    pub fn empty() -> (r: Bytes)
        ensures
            r.0@ == Seq::<u8>::empty(),
    {
        Bytes(Vec::new())
    }

    /// The bytes of `self` followed by those of `other`.
    pub fn concat(self, other: Bytes) -> (r: Bytes)
        ensures
            r.0@ == self.0@ + other.0@,
    {
        let mut bytes = self.0;
        let mut o = other.0;
        bytes.append(&mut o);
        Bytes(bytes)
    }

    /// The concatenation of a list of byte strings, in order.
    pub fn sum(parts: Vec<Bytes>) -> (r: Bytes)
        ensures
            r.0@ == spec_concat_all(parts@),
    {
        let mut acc = Bytes::empty();
        let mut i: usize = 0;
        while i < parts.len()
            invariant
                i <= parts.len(),
                acc.0@ == spec_concat_all(parts@.subrange(0, i as int)),
            decreases parts.len() - i,
        {
            let part = Bytes(parts[i].0.clone());
            proof {
                assert(parts@.subrange(0, i + 1).drop_last() =~= parts@.subrange(0, i as int));
            }
            acc = acc.concat(part);
            i = i + 1;
        }
        assert(parts@.subrange(0, parts@.len() as int) =~= parts@);
        acc
    }

    /// The encoding of one instruction: its opcode, then its operand in
    /// big-endian order.
    pub fn from_instruction(instruction: Instruction) -> (r: Bytes)
        ensures
            r.0@ == spec_encode(instruction),
    {
        let definition = Definition::of(&instruction);
        let mut bytes: Vec<u8> = Vec::new();
        bytes.push(definition.code);
        match instruction {
            Instruction::OpConstant(v) | Instruction::OpJumpNotTruthy(v) | Instruction::OpJump(v) => {
                bytes.push((v / 256) as u8);
                bytes.push((v % 256) as u8);
            },
            _ => {},
        }
        assert(bytes@ =~= spec_encode(instruction));
        Bytes(bytes)
    }

    /// An iterator over the instructions encoded in the bytes.
    pub fn into_iter(self) -> (it: BytesIntoIter)
        ensures
            it.bytes@ == self.0@,
            it.pos == 0,
    {
        BytesIntoIter { bytes: self.0, pos: 0 }
    }

    /// Decodes all instructions, failing at the first unknown opcode or
    /// truncated operand.
    pub fn decode(&self) -> (r: Result<Vec<Instruction>, Error>)
        ensures
            r matches Ok(v) ==> spec_decode_from(self.0@, 0) == Ok::<Seq<Instruction>, ()>(v@),
            r is Err <==> spec_decode_from(self.0@, 0) is Err,
    {
        let mut it = BytesIntoIter { bytes: self.0.clone(), pos: 0 };
        let mut out: Vec<Instruction> = Vec::new();
        let ghost bytes = self.0@;
        loop
            invariant
                it.bytes@ == bytes,
                bytes == self.0@,
                it.pos <= bytes.len(),
                spec_decode_from(bytes, 0) matches Ok(all) ==> spec_decode_from(bytes, it.pos as int)
                    matches Ok(rest) && all == out@ + rest,
                spec_decode_from(bytes, 0) is Err ==> spec_decode_from(bytes, it.pos as int) is Err,
                spec_decode_from(bytes, it.pos as int) is Err ==> spec_decode_from(bytes, 0) is Err,
                spec_decode_from(bytes, it.pos as int) matches Ok(rest) ==> spec_decode_from(bytes, 0)
                    == Ok::<Seq<Instruction>, ()>(out@ + rest),
            decreases bytes.len() - it.pos,
        {
            let ghost p = it.pos as int;
            match it.next_instruction() {
                None => {
                    assert(out@ + Seq::<Instruction>::empty() =~= out@);
                    return Ok(out);
                },
                Some(Err(e)) => {
                    return Err(e);
                },
                Some(Ok(ins)) => {
                    proof {
                        if let Ok(rest) = spec_decode_from(bytes, it.pos as int) {
                            assert(out@.push(ins) + rest =~= out@ + (seq![ins] + rest));
                        }
                    }
                    out.push(ins);
                },
            }
        }
    }

    /// The disassembly: one line `{offset:04} {instruction}` per instruction,
    /// or `Error` when the bytes do not decode.
    pub fn display(&self) -> (r: String)
        ensures
            r@ == spec_bytes_text(self.0@),
    {
        match self.decode() {
            Ok(instructions) => {
                let mut s = String::new();
                let mut offset: u128 = 0;
                let mut i: usize = 0;
                let ghost all = instructions@;
                assert(all.subrange(0, all.len() as int) =~= all);
                assert(s@ + spec_disassembly_lines(all, 0) =~= spec_disassembly_lines(all, 0));
                while i < instructions.len()
                    invariant
                        all == instructions@,
                        i <= all.len(),
                        offset as nat == spec_offset(all, i as int),
                        offset <= 3 * i,
                        s@ + spec_disassembly_lines(all.subrange(i as int, all.len() as int), offset as nat)
                            == spec_disassembly_lines(all, 0),
                    decreases all.len() - i,
                {
                    let ghost before = s@;
                    let ins = instructions[i];
                    proof {
                        let rest = all.subrange(i as int, all.len() as int);
                        assert(rest[0] == ins);
                        assert(rest.drop_first() =~= all.subrange(i + 1, all.len() as int));
                    }
                    push_decimal_width4(&mut s, offset);
                    push_str(&mut s, " ");
                    let text = ins.display();
                    crate::text::push_string(&mut s, &text);
                    push_str(&mut s, "\n");
                    proof {
                        reveal_strlit(" ");
                        reveal_strlit("\n");
                        let rest = all.subrange(i as int, all.len() as int);
                        assert(s@ =~= before + spec_decimal_width4(offset as nat) + seq![' ']
                            + spec_instruction_text(ins) + seq!['\n']);
                        lemma_offset_step(all, i as int);
                    }
                    offset = offset + Definition::of(&ins).size as u128;
                    i = i + 1;
                }
                assert(all.subrange(all.len() as int, all.len() as int) =~= Seq::<Instruction>::empty());
                trim_last_newline(s)
            },
            Err(_) => lit("Error"),
        }
    }
}

/// The byte offset of the `i`-th instruction.
pub open spec fn spec_offset(s: Seq<Instruction>, i: int) -> nat
    decreases i,
{
    if i <= 0 {
        0
    } else {
        spec_offset(s, i - 1) + spec_size(s[i - 1])
    }
}

proof fn lemma_offset_step(s: Seq<Instruction>, i: int)
    requires
        0 <= i < s.len(),
    ensures
        spec_offset(s, i + 1) == spec_offset(s, i) + spec_size(s[i]),
{
}

/// The concatenation of byte strings.
pub open spec fn spec_concat_all(parts: Seq<Bytes>) -> Seq<u8>
    decreases parts.len(),
{
    if parts.len() == 0 {
        Seq::empty()
    } else {
        spec_concat_all(parts.drop_last()) + parts.last().0@
    }
}

/// Text without its final newline, if it ends with one.
pub open spec fn spec_trim_newline(s: Seq<char>) -> Seq<char> {
    if s.len() > 0 && s.last() == '\n' {
        s.drop_last()
    } else {
        s
    }
}

/// The disassembly of a byte string, as printed.
pub open spec fn spec_bytes_text(bytes: Seq<u8>) -> Seq<char> {
    match spec_decode_from(bytes, 0) {
        Ok(instructions) => spec_trim_newline(spec_disassembly_lines(instructions, 0)),
        Err(_) => "Error"@,
    }
}

fn trim_last_newline(s: String) -> (r: String)
    ensures
        r@ == spec_trim_newline(s@),
{
    let mut cs = crate::text::str_chars(s.as_str());
    let n = cs.len();
    if n > 0 && cs[n - 1] == '\n' {
        cs.truncate(n - 1);
        assert(cs@ =~= s@.drop_last());
        crate::text::string_from_chars(cs.as_slice())
    } else {
        s
    }
}

/// An iterator over the instructions encoded in a byte string.
pub struct BytesIntoIter {
    pub bytes: Vec<u8>,
    pub pos: usize,
}

impl BytesIntoIter {
    /// The next instruction and the bytes after it; `None` at the end. An
    /// unknown opcode reads one byte; an operand cut short reads to the end.
    pub fn next_instruction(&mut self) -> (r: Option<Result<Instruction, Error>>)
        requires
            old(self).pos <= old(self).bytes@.len(),
        ensures
            final(self).bytes@ == old(self).bytes@,
            final(self).pos <= final(self).bytes@.len(),
            match spec_decode_at(old(self).bytes@, old(self).pos as int) {
                None => r is None && final(self).pos == old(self).pos,
                Some((Ok(i), next)) => r == Some(Ok::<Instruction, Error>(i)) && final(self).pos == next,
                Some((Err(_), next)) => r matches Some(Err(_)) && final(self).pos == next,
            },
    {
        let n = self.bytes.len();
        if self.pos >= n {
            return None;
        }
        let code = self.bytes[self.pos];
        if code == OP_CONSTANT {
            if n - self.pos >= 3 {
                let hi = self.bytes[self.pos + 1];
                let lo = self.bytes[self.pos + 2];
                let v: u16 = (hi as u16) * 256 + (lo as u16);
                self.pos = self.pos + 3;
                Some(Ok(Instruction::OpConstant(v)))
            } else {
                self.pos = n;
                Some(Err(Error {}))
            }
        } else if code == OP_ADD {
            self.pos = self.pos + 1;
            Some(Ok(Instruction::OpAdd))
        } else {
            self.pos = self.pos + 1;
            Some(Err(Error {}))
        }
    }
}

// ---------------------------------------------------------------------------
// Laws of the encoding
// ---------------------------------------------------------------------------

/// Decoding the encoding of `OpConstant` or `OpAdd` gives back the
/// instruction and reads exactly its size.
pub proof fn lemma_decode_encode(i: Instruction, rest: Seq<u8>)
    requires
        spec_decodable(i),
    ensures
        spec_decode_at(spec_encode(i) + rest, 0) == Some((Ok::<Instruction, ()>(i), spec_size(i) as int)),
        spec_encode(i).len() == spec_size(i),
{
    let b = spec_encode(i) + rest;
    match spec_operand(i) {
        Some(v) => {
            assert(b[0] == spec_code(i));
            assert(b[1] == (v / 256) as u8);
            assert(b[2] == (v % 256) as u8);
            assert(((v / 256) as u8) * 256 + ((v % 256) as u8) == v);
        },
        None => {
            assert(b[0] == spec_code(i));
        },
    }
}

proof fn lemma_decode_shift(prefix: Seq<u8>, bytes: Seq<u8>, pos: int)
    requires
        0 <= pos,
    ensures
        spec_decode_from(prefix + bytes, prefix.len() + pos) == spec_decode_from(bytes, pos),
    decreases bytes.len() - pos,
{
    let all = prefix + bytes;
    let q = prefix.len() + pos;
    if pos < bytes.len() {
        assert(all[q] == bytes[pos]);
        if pos + 3 <= bytes.len() {
            assert(all[q + 1] == bytes[pos + 1]);
            assert(all[q + 2] == bytes[pos + 2]);
        }
        match spec_decode_at(bytes, pos) {
            Some((Ok(_), next)) => {
                if next > pos {
                    lemma_decode_shift(prefix, bytes, next);
                }
            },
            _ => {},
        }
    }
}

/// Decoding the encoding of a sequence of `OpConstant` and `OpAdd`
/// instructions gives back the sequence.
pub proof fn lemma_decode_encode_all(s: Seq<Instruction>)
    requires
        forall|k: int| 0 <= k < s.len() ==> spec_decodable(#[trigger] s[k]),
    ensures
        spec_decode_from(spec_encode_all(s), 0) == Ok::<Seq<Instruction>, ()>(s),
    decreases s.len(),
{
    let bytes = spec_encode_all(s);
    if s.len() > 0 {
        let i = s[0];
        let tail = spec_encode_all(s.drop_first());
        assert forall|k: int| 0 <= k < s.drop_first().len() implies spec_decodable(
            #[trigger] s.drop_first()[k],
        ) by {
            assert(s.drop_first()[k] == s[k + 1]);
        }
        lemma_decode_encode(i, tail);
        lemma_decode_encode_all(s.drop_first());
        lemma_decode_shift(spec_encode(i), tail, 0);
        assert(spec_encode(i) + tail == bytes);
        assert(spec_decode_at(bytes, 0) == Some((Ok::<Instruction, ()>(i), spec_size(i) as int)));
        assert(spec_decode_from(bytes, spec_encode(i).len() as int + 0) == spec_decode_from(tail, 0));
        assert(seq![i] + s.drop_first() =~= s);
    } else {
        assert(s =~= Seq::<Instruction>::empty());
    }
}

/// Decoding the encoding of any other instruction fails.
pub proof fn lemma_decode_other_fails(i: Instruction, rest: Seq<u8>)
    requires
        !spec_decodable(i),
    ensures
        spec_decode_at(spec_encode(i) + rest, 0) matches Some((Err(_), _)),
        spec_decode_from(spec_encode(i) + rest, 0) is Err,
{
    let b = spec_encode(i) + rest;
    assert(b[0] == spec_code(i));
}

/// One disassembly line: the offset padded to four digits, a space, the
/// instruction, and a line break.
pub open spec fn spec_disassembly_line(offset: nat, i: Instruction) -> Seq<char> {
    spec_decimal_width4(offset) + seq![' '] + spec_instruction_text(i) + seq!['\n']
}

proof fn lemma_encode_len(i: Instruction)
    ensures
        spec_encode(i).len() == spec_size(i),
{
}

/// In a disassembly each line shows where its instruction starts in the
/// bytes: the line of the `k`-th instruction comes after the lines of the
/// ones before it, and its offset is the length of their encoding (plus the
/// starting offset).
pub proof fn lemma_disassembly_offsets(s: Seq<Instruction>, start: nat, k: int)
    requires
        0 <= k < s.len(),
    ensures
        spec_disassembly_lines(s, start) == spec_disassembly_lines(s.take(k), start) + spec_disassembly_line(
            start + spec_encode_all(s.take(k)).len(),
            s[k],
        ) + spec_disassembly_lines(s.skip(k + 1), start + spec_encode_all(s.take(k + 1)).len()),
    decreases k,
{
    lemma_encode_len(s[0]);
    if k == 0 {
        assert(s.take(0) =~= Seq::<Instruction>::empty());
        assert(s.take(1) =~= seq![s[0]]);
        assert(s.skip(1) =~= s.drop_first());
        assert(seq![s[0]].drop_first() =~= Seq::<Instruction>::empty());
        assert(spec_encode_all(seq![s[0]]) =~= spec_encode(s[0]));
        assert(spec_disassembly_lines(s, start) =~= spec_disassembly_lines(s.take(0), start)
            + spec_disassembly_line(start, s[0]) + spec_disassembly_lines(s.drop_first(), start + spec_size(s[0])));
    } else {
        let d = s.drop_first();
        let o = start + spec_size(s[0]);
        lemma_disassembly_offsets(d, o, k - 1);
        assert(s.take(k)[0] == s[0]);
        assert(s.take(k).drop_first() =~= d.take(k - 1));
        assert(s.take(k + 1).drop_first() =~= d.take(k));
        assert(d.skip(k) =~= s.skip(k + 1));
        assert(d[k - 1] == s[k]);
        assert(spec_encode_all(s.take(k)) == spec_encode(s[0]) + spec_encode_all(d.take(k - 1)));
        assert(spec_encode_all(s.take(k + 1)) == spec_encode(s[0]) + spec_encode_all(d.take(k)));
        assert(spec_disassembly_lines(s.take(k), start) == spec_disassembly_line(start, s[0])
            + spec_disassembly_lines(d.take(k - 1), o));
        assert(spec_disassembly_lines(s, start) == spec_disassembly_line(start, s[0])
            + spec_disassembly_lines(d, o));
        assert(spec_disassembly_lines(s, start) =~= spec_disassembly_lines(s.take(k), start)
            + spec_disassembly_line(start + spec_encode_all(s.take(k)).len(), s[k])
            + spec_disassembly_lines(s.skip(k + 1), start + spec_encode_all(s.take(k + 1)).len()));
    }
}

} // verus!
