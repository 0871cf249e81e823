use monkey::object::Object;
use monkey::vm::machine;
use monkey::vm::Vm;

#[test]
fn tests_test_integer_arithmetic() {
    let tests = vec![
        ("1", 1),
        ("2", 2),
        ("1 + 2", 3),
        ("1 - 2", -1),
        ("1 * 2", 2),
        ("4 / 2", 2),
        ("50 / 2 * 2 + 10 - 5", 55),
        ("5 + 5 + 5 + 5 - 10", 10),
        ("2 * 2 * 2 * 2 * 2", 32),
        ("5 * 2 + 10", 20),
        ("5 + 2 * 10", 25),
        ("5 * (2 + 10)", 60),
    ];

    for (inp, expected) in tests {
        let mut vm = Vm::new();
        let _ = vm.run(inp).unwrap();

        assert_eq!(&Object::from(expected as isize), vm.last_popped().unwrap());
    }
}

#[test]
fn test_boolean() {
    let tests = vec![
        ("true", true),
        ("false", false),
        ("1 < 2", true),
        ("1 > 2", false),
        ("1 < 1", false),
        ("1 > 1", false),
        ("1 == 1", true),
        ("1 != 1", false),
        ("1 == 2", false),
        ("1 != 2", true),
        ("true == true", true),
        ("false == false", true),
        ("true == false", false),
        ("true != false", true),
        ("false != true", true),
        ("(1 < 2) == true", true),
        ("(1 < 2) == false", false),
        ("(1 > 2) == true", false),
        ("(1 > 2) == false", true),
    ];

    for (inp, expected) in tests {
        let mut vm = Vm::new();
        let _ = vm.run(inp).unwrap();

        assert_eq!(&Object::from(expected), vm.last_popped().unwrap());
    }
}

#[test]
fn prefix_operators_leave_their_operand_on_the_stack() {
    let tests = vec![("-5", -5), ("1 + -2", 0), ("-1 + 2", 1), ("--3 * 2", 6)];
    for (inp, expected) in tests {
        let mut vm = Vm::new();
        let _ = vm.run(inp).unwrap();
        assert_eq!(&Object::from(expected as isize), vm.last_popped().unwrap());
    }
    let mut vm = Vm::new();
    let _ = vm.run("!true").unwrap();
    assert_eq!(&Object::from(false), vm.last_popped().unwrap());
    let program = monkey::parser::Parser::new(monkey::lexer::Lexer::new("-4"))
        .parse()
        .unwrap();
    let compiled = monkey::compiler::compile(program).unwrap();
    let mut machine = machine::Vm::new();
    assert_eq!(
        vec![Object::Integer(4), Object::Integer(-4)],
        machine.run(Vec::new(), compiled).unwrap()
    );
}

#[test]
fn vm_reports_type_mismatch_from_the_machine() {
    let mut vm = Vm::new();
    match vm.run("1 + true") {
        Err(monkey::vm::Error::Internal(machine::Error::ObjectError(e))) => {
            assert_eq!("TypeError: unsupported operand type(s) for +: 'int' and 'bool'", e.display());
        }
        other => panic!("unexpected {:?}", other),
    }
}

#[test]
fn vm_reports_parse_errors() {
    let mut vm = Vm::new();
    match vm.run("let = 1") {
        Err(monkey::vm::Error::Parse(errs)) => assert_eq!(1, errs.errors.len()),
        other => panic!("unexpected {:?}", other),
    }
}

#[test]
fn vm_refuses_what_the_compiler_does_not_handle() {
    let mut vm = Vm::new();
    assert!(vm.try_run("let a = 1; a").is_none());
    assert!(vm.try_run("if (true) { 1 }").is_none());
    assert!(vm.try_run("1 / 0").is_none());
}

#[test]
fn machine_runs_compiled_output() {
    let program = monkey::parser::Parser::new(monkey::lexer::Lexer::new("3 * 4"))
        .parse()
        .unwrap();
    let compiled = monkey::compiler::compile(program).unwrap();
    let mut vm = machine::Vm::new();
    let stack = vm.run(Vec::new(), compiled).unwrap();
    assert_eq!(vec![Object::Integer(12)], stack);
    assert_eq!(Some(&Object::Integer(12)), vm.last_popped());
}

#[test]
fn compiling_too_many_constants_is_reported() {
    let mut src = String::new();
    for _ in 0..65537 {
        src.push_str("1;");
    }
    let mut vm = Vm::new();
    match vm.run(&src) {
        Err(monkey::vm::Error::Compile(e)) => assert_eq!(monkey::compiler::Error::Overflow, e),
        other => panic!("unexpected {:?}", other.is_ok()),
    }
}

#[test]
fn machine_reports_a_missing_constant() {
    let compiled = monkey::compiler::Output {
        instructions: vec![monkey::bytecode::Instruction::OpConstant(5)],
        constants: vec![],
        index: 3,
    };
    let mut vm = machine::Vm::new();
    assert_eq!(Err(machine::Error::StackOutOfRange), vm.run(Vec::new(), compiled));
    let compiled = monkey::compiler::Output {
        instructions: vec![monkey::bytecode::Instruction::OpAdd],
        constants: vec![],
        index: 1,
    };
    assert_eq!(Err(machine::Error::StackOutOfRange), vm.run(Vec::new(), compiled));
    assert_eq!("VM error: StackOutOfRange", machine::Error::StackOutOfRange.display());
}
