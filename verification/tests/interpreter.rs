use monkey::eval::Error as EvalError;
use monkey::lexer::Lexer;
use monkey::object::env::Env;
use monkey::object::Object;
use monkey::parser::{ParseError, ParseErrorExpected, Parser};
use monkey::token::Token;
use monkey::{Error, Interpreter};

fn run(inp: &str) -> Option<Result<Object, EvalError>> {
    let program = Parser::new(Lexer::new(inp)).parse().expect("No parse errors");
    let (_, r) = program.try_evaluate(Env::new());
    r
}

#[test]
fn interpreter_keeps_bindings_between_evaluations() {
    let mut interp = Interpreter::new();
    let r = interp.evaluate("let a = 5; print(a, \"x\"); a".to_string());
    assert_eq!("5 x", r.stdout);
    assert_eq!(Object::Integer(5), r.result.ok().unwrap());
    let r = interp.evaluate("a * 2".to_string());
    assert_eq!("", r.stdout);
    assert_eq!(Object::Integer(10), r.result.ok().unwrap());
}

#[test]
fn interpreter_joins_printed_lines() {
    let mut interp = Interpreter::new();
    let r = interp.evaluate("print(1); print(2, 3); 7".to_string());
    assert_eq!("1\n2 3", r.stdout);
    assert_eq!(Object::Integer(7), r.result.ok().unwrap());
}

#[test]
fn interpreter_reports_parse_errors_one_per_line() {
    let mut interp = Interpreter::new();
    let r = interp.evaluate("let = 5; let y 10;".to_string());
    match r.result {
        Err(e) => assert_eq!(
            "ParseError: Expected identifier but received '='\nParseError: Expected assignment but received '10'",
            e.display()
        ),
        Ok(_) => panic!("expected parse errors"),
    }
}

#[test]
fn interpreter_reports_evaluation_errors() {
    let mut interp = Interpreter::new();
    let r = interp.evaluate("foo".to_string());
    match r.result {
        Err(Error::Eval(e)) => assert_eq!("NameError: name 'foo' is not defined", e.display()),
        _ => panic!("expected an evaluation error"),
    }
}

#[test]
fn evaluation_error_messages() {
    let e = EvalError::CallExpressionExpectedFunction { received: Object::Integer(1) };
    assert_eq!("TypeError: 'int' object is not callable", e.display());
    match run("let f = fn(x) { x }; f(1, 2)") {
        Some(Err(e)) => {
            assert_eq!(
                "TypeError: function takes 1 positional argument but 2 were given",
                e.display()
            );
        }
        other => panic!("unexpected {:?}", other),
    }
    match run("let f = fn(x, y) { x }; f(1)") {
        Some(Err(e)) => {
            assert_eq!(
                "TypeError: function takes 2 positional arguments but 1 was given",
                e.display()
            );
        }
        other => panic!("unexpected {:?}", other),
    }
    match run("5 + true") {
        Some(Err(e)) => assert_eq!(
            "TypeError: unsupported operand type(s) for +: 'int' and 'bool'",
            e.display()
        ),
        other => panic!("unexpected {:?}", other),
    }
    match run("-true") {
        Some(Err(e)) => assert_eq!("TypeError: unsupported operand type(s) for -: 'bool'", e.display()),
        other => panic!("unexpected {:?}", other),
    }
}

#[test]
fn calling_a_value_that_is_no_function_fails() {
    assert_eq!(
        Some(Err(EvalError::CallExpressionExpectedFunction { received: Object::Integer(1) })),
        run("let a = 1; a(2)")
    );
}

#[test]
fn a_return_ends_only_its_call() {
    assert_eq!(Some(Ok(Object::Integer(6))), run("let f = fn(x) { return x; }; let a = f(5); a + 1"));
    assert_eq!(Some(Ok(Object::Integer(11))), run("let f = fn(x) { return x; }; f(1) + 10;"));
    assert_eq!(
        Some(Ok(Object::Integer(3))),
        run("let f = fn(x) { if (x > 0) { return 1; } 2 }; f(1) + f(0)")
    );
}

#[test]
fn a_return_at_top_level_ends_the_program() {
    assert_eq!(Some(Ok(Object::Integer(4))), run("let f = fn(x) { x }; return f(4); 9"));
}

#[test]
fn recursion_within_the_call_depth_limit() {
    let r = run("let f = fn(n) { if (n == 0) { 0 } else { 1 + f(n - 1) } }; f(150)");
    assert_eq!(Some(Ok(Object::Integer(150))), r);
}

#[test]
fn arithmetic_faults_halt() {
    assert_eq!(None, run("1 / 0"));
    assert_eq!(None, run("9223372036854775807 + 1"));
    assert_eq!(Some(Ok(Object::Integer(-3))), run("-7 / 2"));
}

#[test]
fn printing_a_function_with_an_if_halts() {
    assert_eq!(None, run("print(fn(x) { if (x) { 1 } })"));
}

#[test]
fn builtins_count_arguments() {
    assert_eq!(
        Some(Err(EvalError::TypeError { message: "push() takes exactly two arguments (1 given)".to_string() })),
        run("push([])")
    );
    assert_eq!(
        Some(Err(EvalError::TypeError { message: "rest() takes exactly one argument (0 given)".to_string() })),
        run("rest()")
    );
    assert_eq!(
        Some(Err(EvalError::TypeError { message: "object of type 'int' has no push".to_string() })),
        run("push(1, 2)")
    );
    assert_eq!(
        Some(Err(EvalError::TypeError { message: "object of type 'string' has no rest()".to_string() })),
        run("rest(\"ab\")")
    );
    assert_eq!(Some(Ok(Object::Integer(3))), run("len(\"é!\")"));
}

#[test]
fn parsing_gets_stuck_on_a_call_of_a_literal_number() {
    let parser = Parser::new(Lexer::new("1(2)"));
    assert!(parser.try_parse().is_none());
    let parser = Parser::new(Lexer::new("1(2"));
    assert!(parser.try_parse().unwrap().is_err());
}

#[test]
fn parse_error_messages() {
    let e = ParseError { expected: ParseErrorExpected::ClosingParenthesis, received: None };
    assert_eq!("ParseError: Expected closing parenthesis but received nothing", e.display());
    let e = ParseError { expected: ParseErrorExpected::Identifier, received: Some(Token::Int(1)) };
    assert_eq!("ParseError: Expected identifier but received '1'", e.display());
}

#[test]
fn parser_recovers_after_an_error_at_the_next_semicolon() {
    let errs = Parser::new(Lexer::new("let x 1; let y = 2; let = 3;")).parse().unwrap_err();
    assert_eq!(2, errs.errors.len());
    let program = Parser::new(Lexer::new("let x = 1; x")).parse().unwrap();
    assert_eq!(2, program.statements.len());
}

#[test]
fn delimited_result_puts_printed_lines_before_a_bar() {
    let mut interp = Interpreter::new();
    let r = interp.evaluate("print(1); 2".to_string());
    assert_eq!(Ok("1|2".to_string()), r.delimited());
    let r = interp.evaluate("print(3); foo".to_string());
    assert_eq!(Err("3|NameError: name 'foo' is not defined".to_string()), r.delimited());
}
