use monkey::bytecode::Instruction::{OpAdd, OpConstant, OpJump, OpJumpNotTruthy, OpNull, OpPop, OpTrue};
use monkey::bytecode::{Bytes, Definition, Instruction, OP_ADD, OP_CONSTANT, OP_JUMP, OP_NULL};

#[test]
fn test_instruction_to_bytes() {
    let tests = vec![
        (OpConstant(65535), Bytes::new(vec![OP_CONSTANT, 255, 255])),
        // Test big-endian.
        (OpConstant(65534), Bytes::new(vec![OP_CONSTANT, 255, 254])),
        (OpAdd, Bytes::new(vec![OP_ADD])),
    ];

    for (instruction, expected) in tests {
        let bytes = Bytes::from_instruction(instruction);

        assert_eq!(expected, bytes);
    }
}

#[test]
fn test_fmt_instruction() {
    let tests = vec![
        (OpConstant(1), "OpConstant 1"),
        (OpConstant(2), "OpConstant 2"),
        (OpConstant(65535), "OpConstant 65535"),
        (OpAdd, "OpAdd"),
    ];

    for (instruction, expected) in tests {
        assert_eq!(expected, instruction.display());
    }
}

#[test]
fn test_bytes_to_instruction() {
    let tests = vec![
        (Bytes::new(vec![OP_CONSTANT, 255, 255]), vec![OpConstant(65535)]),
        (Bytes::new(vec![OP_ADD]), vec![OpAdd]),
    ];

    for (bytes, expected_instructions) in tests {
        let results = bytes.decode();
        assert_eq!(expected_instructions, results.unwrap());
    }
}

#[test]
fn test_bytes_disassembled_display() {
    let tests = vec![(
        vec![
            Bytes::new(vec![OP_CONSTANT, 0, 1]),
            Bytes::new(vec![OP_CONSTANT, 0, 2]),
            Bytes::new(vec![OP_CONSTANT, 255, 255]),
            Bytes::new(vec![OP_ADD]),
        ],
        "0000 OpConstant 1
0003 OpConstant 2
0006 OpConstant 65535
0009 OpAdd",
    )];

    for (bytes, expected) in tests {
        let all_bytes: Bytes = Bytes::sum(bytes);
        assert_eq!(expected, all_bytes.display())
    }
}

#[test]
fn encoding_then_decoding_gives_the_instructions_back() {
    let instructions = vec![OpConstant(0), OpAdd, OpConstant(513), OpAdd, OpConstant(65535)];
    let mut parts = Vec::new();
    for i in &instructions {
        parts.push(Bytes::from_instruction(*i));
    }
    let bytes = Bytes::sum(parts);
    assert_eq!(11, bytes.0.len());
    assert_eq!(instructions, bytes.decode().unwrap());
}

#[test]
fn decoding_reads_only_constants_and_additions() {
    let mut parts = Vec::new();
    for i in &[OpTrue, OpJumpNotTruthy(10), OpJump(11), OpNull, OpPop] {
        let bytes = Bytes::from_instruction(*i);
        assert!(bytes.decode().is_err());
        assert_eq!("Error", bytes.display());
        parts.push(bytes);
    }
    parts.push(Bytes::from_instruction(OpAdd));
    assert!(Bytes::sum(parts).decode().is_err());
    let mut it = Bytes::new(vec![OP_NULL, OP_ADD]).into_iter();
    assert!(matches!(it.next_instruction(), Some(Err(_))));
    assert_eq!(Some(Ok(OpAdd)), it.next_instruction());
    assert_eq!(None, it.next_instruction());
}

#[test]
fn decoding_a_truncated_operand_fails() {
    assert!(Bytes::new(vec![OP_CONSTANT, 1]).decode().is_err());
    assert!(Bytes::new(vec![0]).decode().is_err());
    assert_eq!("Error", Bytes::new(vec![OP_JUMP, 0]).display());
}

#[test]
fn instruction_sizes_and_definitions() {
    assert_eq!(3, OpConstant(7).size());
    assert_eq!(1, OpAdd.size());
    let d = Definition::of(&OpJump(3));
    assert_eq!(OP_JUMP, d.code);
    assert_eq!(3, d.size);
    assert_eq!(OP_NULL, Definition::of(&OpNull).code);
    let empty = Bytes::empty();
    assert_eq!(Vec::<Instruction>::new(), empty.decode().unwrap());
}

#[test]
fn bytes_iterator_reads_instructions_in_order() {
    let mut it = Bytes::new(vec![OP_CONSTANT, 0, 5, OP_ADD]).into_iter();
    assert_eq!(Some(Ok(OpConstant(5))), it.next_instruction());
    assert_eq!(Some(Ok(OpAdd)), it.next_instruction());
    assert_eq!(None, it.next_instruction());
}
