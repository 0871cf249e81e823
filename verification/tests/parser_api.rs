use monkey::ast::{CallFunctionExpression, Expression, Function, Operator, Statement};
use monkey::lexer::Lexer;
use monkey::parser::{ParseError, ParseErrorExpected, Parser, Precedence};
use monkey::token::Token;

fn parser(inp: &str) -> Parser {
    Parser::new(Lexer::new(inp))
}

#[test]
fn next_expression_stops_at_weaker_operators() {
    let mut p = parser("1 * 2 + 3");
    let e = p.next_expression(Precedence::Sum).unwrap();
    assert_eq!("(1 * 2)", e.display());
    let mut p = parser("1 * 2 + 3");
    let e = p.next_expression(Precedence::Lowest).unwrap();
    assert_eq!("((1 * 2) + 3)", e.display());
    let mut p = parser("");
    assert_eq!(
        Err(ParseError { expected: ParseErrorExpected::Expression, received: None }),
        p.next_expression(Precedence::Lowest)
    );
}

#[test]
fn list_call_function_and_if_after_their_opening_token() {
    let mut p = parser("1, 2]");
    assert_eq!(
        Ok(Expression::ListLiteral(vec![Expression::IntegerLiteral(1), Expression::IntegerLiteral(2)])),
        p.parse_list_expression()
    );
    let mut p = parser("x)");
    assert_eq!(
        Ok(Expression::Call {
            function: CallFunctionExpression::Identifier("f".to_string()),
            arguments: vec![Expression::Identifier("x".to_string())],
        }),
        p.parse_call_expression(Expression::Identifier("f".to_string()))
    );
    let mut p = parser("(a) { a }");
    assert_eq!(
        Ok(Expression::FunctionLiteral(Function {
            params: vec!["a".to_string()],
            body: vec![Statement::Expression(Expression::Identifier("a".to_string()))],
        })),
        p.parse_function_expression()
    );
    let mut p = parser("(a) { 1 } else { 2 }");
    assert_eq!(
        Ok(Expression::If {
            condition: Box::new(Expression::Identifier("a".to_string())),
            consequence: vec![Statement::Expression(Expression::IntegerLiteral(1))],
            alternative: vec![Statement::Expression(Expression::IntegerLiteral(2))],
        }),
        p.parse_if_expression()
    );
    let mut p = parser("a { 1 }");
    assert_eq!(
        Err(ParseError {
            expected: ParseErrorExpected::ParenthesisForIfCondition,
            received: Some(Token::Identifier("a".to_string())),
        }),
        p.parse_if_expression()
    );
    let mut p = parser("(a; b) { 1 }");
    assert_eq!(
        Err(ParseError {
            expected: ParseErrorExpected::ParameterForFunction,
            received: Some(Token::Semicolon),
        }),
        p.parse_function_expression()
    );
}

#[test]
fn next_statement_reads_one_statement_at_a_time() {
    let mut p = parser("let a = 1; a + 2; let 3; b");
    assert_eq!(
        Some(Ok(Statement::Let("a".to_string(), Expression::IntegerLiteral(1)))),
        p.next_statement()
    );
    assert_eq!(
        Some(Ok(Statement::Expression(Expression::Infix {
            operator: Operator::Plus,
            left: Box::new(Expression::Identifier("a".to_string())),
            right: Box::new(Expression::IntegerLiteral(2)),
        }))),
        p.next_statement()
    );
    assert_eq!(
        Some(Err(ParseError {
            expected: ParseErrorExpected::Identifier,
            received: Some(Token::Int(3)),
        })),
        p.next_statement()
    );
    assert_eq!(
        Some(Ok(Statement::Expression(Expression::Identifier("b".to_string())))),
        p.next_statement()
    );
    assert_eq!(None, p.next_statement());
}

#[test]
fn precedence_ranks_grow_from_lowest_to_index() {
    assert_eq!(0, Precedence::Lowest.rank());
    assert_eq!(5, Precedence::Prefix.rank());
    assert_eq!(7, Precedence::Index.rank());
    assert_eq!(Precedence::Call, Precedence::of_token(&Token::LParen));
    assert_eq!(Precedence::Lowest, Precedence::of_token(&Token::Comma));
}

#[test]
fn each_kind_of_unfinished_input_is_reported() {
    let cases = vec![
        ("[1, 2", ParseErrorExpected::Expression, None),
        ("(1 + 2", ParseErrorExpected::ClosingParenthesis, None),
        ("fn x", ParseErrorExpected::ParenthesisForFunctionParams, Some(Token::Identifier("x".to_string()))),
        ("fn(x)", ParseErrorExpected::ParenthesisForFunctionBody, None),
        ("f(1", ParseErrorExpected::ClosingParenthesis, None),
    ];
    for (inp, expected, received) in cases {
        let errs = parser(inp).parse().unwrap_err();
        assert_eq!(vec![ParseError { expected, received }], errs.errors, "{}", inp);
    }
}

#[test]
fn parse_errors_print_one_per_line() {
    let errs = Parser::new(Lexer::new("let = 5; let y 10;")).parse().unwrap_err();
    assert_eq!(
        "ParseError: Expected identifier but received '='\nParseError: Expected assignment but received '10'",
        errs.display()
    );
}

#[test]
fn syntax_trees_clone_to_equal_trees() {
    let program = Parser::new(Lexer::new("let f = fn(x) { if (x < 1) { [x, -x][0] } else { f(x - 1) } }; f(3)"))
        .parse()
        .unwrap();
    for s in &program.statements {
        assert_eq!(s, &s.clone());
        if let Statement::Let(_, e) = s {
            assert_eq!(e, &e.clone());
            if let Expression::FunctionLiteral(f) = e {
                let g: Function = f.clone();
                assert_eq!(f, &g);
                let c = CallFunctionExpression::Literal(g);
                assert_eq!(c, c.clone());
            }
        }
    }
}
