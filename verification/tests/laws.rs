use monkey::bytecode::Instruction;
use monkey::ast::Statement;
use monkey::compiler::{compile, compile_expr};
use monkey::lexer::Lexer;
use monkey::object::env::Env;
use monkey::object::Object;
use monkey::parser::Parser;
use monkey::token::Token;
use monkey::vm::Vm;
use monkey::Interpreter;

#[test]
fn machine_and_interpreter_agree_on_straight_programs() {
    let cases = vec![
        "1 + 2 * 3",
        "10 / 3; 7 - 9",
        "1 < 2",
        "2 < 1 == false",
        "true != (3 > 4)",
        "(5 + 10 * 2 + 15 / 3) * 2 - 10",
        "-7 / 2 == 0 - 3",
    ];
    for inp in cases {
        let mut vm = Vm::new();
        let from_vm = vm.run(inp).unwrap();
        let mut interp = Interpreter::new();
        let from_interp = interp.evaluate(inp.to_string()).result.ok().unwrap();
        assert_eq!(from_interp, from_vm, "{}", inp);
    }
}

#[test]
fn compiled_constants_are_in_the_pool() {
    let program = Parser::new(Lexer::new("1 + 2; 3 * 4 - 5; if (true) { 6 } else { 7 }")).parse().unwrap();
    let out = compile(program).unwrap();
    for i in &out.instructions {
        if let Instruction::OpConstant(c) = i {
            assert!((*c as usize) < out.constants.len());
        }
    }
    assert_eq!(7, out.constants.len());
}

#[test]
fn a_let_binding_is_found_afterwards_and_printing_only_appends() {
    let mut env = Env::new();
    env.write_stdout("first".to_string());
    let program = Parser::new(Lexer::new("let x = 4; print(x); let y = x * 2; print(y); y")).parse().unwrap();
    let (mut env, r) = program.evaluate(env);
    assert_eq!(Object::Integer(8), r.unwrap());
    assert_eq!(Some(Object::Integer(4)), env.get(0, &"x".to_string()));
    assert_eq!(Some(Object::Integer(8)), env.get(0, &"y".to_string()));
    assert_eq!(vec!["first".to_string(), "4".to_string(), "8".to_string()], env.pop_stdout());
    assert_eq!(Vec::<String>::new(), env.pop_stdout());
}

#[test]
fn setting_a_name_rebinds_it_and_leaves_others() {
    let mut env = Env::new();
    env.set(0, "a".to_string(), Object::Integer(1));
    env.set(0, "b".to_string(), Object::Integer(2));
    env.set(0, "a".to_string(), Object::Integer(3));
    assert_eq!(Some(Object::Integer(3)), env.get(0, &"a".to_string()));
    assert_eq!(Some(Object::Integer(2)), env.get(0, &"b".to_string()));
    let inner = env.new_extending(0);
    assert_eq!(Some(Object::Integer(2)), env.get(inner, &"b".to_string()));
    env.set(inner, "b".to_string(), Object::Integer(9));
    assert_eq!(Some(Object::Integer(9)), env.get(inner, &"b".to_string()));
    assert_eq!(Some(Object::Integer(2)), env.get(0, &"b".to_string()));
    assert_eq!(None, env.get(0, &"c".to_string()));
    assert_eq!(None, env.get(99, &"b".to_string()));
}

#[test]
fn a_printed_token_lexes_back_to_itself() {
    let tokens = vec![
        Token::Assign,
        Token::Equal,
        Token::NotEqual,
        Token::Bang,
        Token::LessThan,
        Token::LBracket,
        Token::RBrace,
        Token::Function,
        Token::Let,
        Token::Return,
        Token::Else,
        Token::Int(0),
        Token::Int(42),
        Token::Int(18446744073709551615),
        Token::Str("".to_string()),
        Token::Str("hello world".to_string()),
    ];
    for t in tokens {
        let text = t.display();
        assert_eq!(vec![t], Lexer::new(&text).tokens());
    }
}

#[test]
fn less_than_compiles_as_the_swapped_greater_than() {
    let lt = compile(Parser::new(Lexer::new("1 < 2")).parse().unwrap()).unwrap();
    let gt = compile(Parser::new(Lexer::new("2 > 1")).parse().unwrap()).unwrap();
    assert_eq!(gt.instructions, lt.instructions);
    assert_eq!(gt.constants, lt.constants);
    assert_eq!(vec![Object::Integer(2), Object::Integer(1)], lt.constants);
}

fn compiled_expression(src: &str) -> String {
    let program = Parser::new(Lexer::new(src)).parse().unwrap();
    match &program.statements[0] {
        Statement::Expression(e) => format!("{:?}", compile_expr(e).unwrap()),
        _ => panic!("not an expression statement"),
    }
}

#[test]
fn less_than_expression_compiles_as_the_swapped_greater_than() {
    for (lt, gt) in [("1 < 2", "2 > 1"), ("(1 + 2) < 3 * 4", "3 * 4 > (1 + 2)"), ("-1 < !true", "!true > -1")] {
        assert_eq!(compiled_expression(gt), compiled_expression(lt));
    }
}
