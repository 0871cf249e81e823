use monkey::lexer::Lexer;
use monkey::token::Token;
use monkey::token::Token::{
    Assign, Asterisk, Bang, Comma, Else, Equal, False, Function, GreaterThan, Identifier, If,
    Illegal, Int, LBrace, LParen, LessThan, Let, Minus, NotEqual, Plus, RBrace, RParen, Return,
    Semicolon, Slash, Str, True,
};

fn test_lexer(expected: Vec<Token>, input: &str) {
    let lexer = Lexer::new(input);

    let received: Vec<Token> = lexer.tokens();

    assert_eq!(expected, received);
}

#[test]
fn test_next_token_symbols() {
    assert_eq!(2 + 2, 4);

    let input = "=+(){},;-!*/<>";

    let expected = vec![
        Assign,
        Plus,
        LParen,
        RParen,
        LBrace,
        RBrace,
        Comma,
        Semicolon,
        Minus,
        Bang,
        Asterisk,
        Slash,
        LessThan,
        GreaterThan,
    ];

    test_lexer(expected, input);
}

#[test]
fn test_next_token_keyword() {
    let input = "let";
    let expected = vec![Let];

    test_lexer(expected, input);
}

#[test]
fn test_next_token_identifier() {
    let input = "five";
    let expected = vec![Identifier("five".to_string())];

    test_lexer(expected, input);
}

#[test]
fn test_next_token_int() {
    let input = "123";
    let expected = vec![Int(123)];

    test_lexer(expected, input);
}

#[test]
fn test_next_token_int_invalid() {
    let input = "12a3";
    let expected = vec![Illegal("12a3".to_string())];

    test_lexer(expected, input);
}

#[test]
fn test_unknown_symbol() {
    let input = ".";
    let expected = vec![Illegal(".".to_string())];

    test_lexer(expected, input);
}

#[test]
fn test_next_token_simple() {
    assert_eq!(2 + 2, 4);

    let input = "let five = 5;
let ten = 10;

let add = fn(x, y) {
  x + y;
};

let result = add(five, ten);
";

    let expected = vec![
        Let,
        Identifier("five".to_string()),
        Assign,
        Int(5),
        Semicolon,
        Let,
        Identifier("ten".to_string()),
        Assign,
        Int(10),
        Semicolon,
        Let,
        Identifier("add".to_string()),
        Assign,
        Function,
        LParen,
        Identifier("x".to_string()),
        Comma,
        Identifier("y".to_string()),
        RParen,
        LBrace,
        Identifier("x".to_string()),
        Plus,
        Identifier("y".to_string()),
        Semicolon,
        RBrace,
        Semicolon,
        Let,
        Identifier("result".to_string()),
        Assign,
        Identifier("add".to_string()),
        LParen,
        Identifier("five".to_string()),
        Comma,
        Identifier("ten".to_string()),
        RParen,
        Semicolon,
    ];

    test_lexer(expected, input);
}

#[test]
fn test_next_token_extended() {
    assert_eq!(2 + 2, 4);

    let input = "!-/*5;
5 < 10 > 5;

if (5 < 10) {
        return true;
} else {
        return false;
}

10 == 10;
10 != 9;
\"foobar\";
\"foo space bar\";
";

    let expected = vec![
        Bang,
        Minus,
        Slash,
        Asterisk,
        Int(5),
        Semicolon,
        Int(5),
        LessThan,
        Int(10),
        GreaterThan,
        Int(5),
        Semicolon,
        If,
        LParen,
        Int(5),
        LessThan,
        Int(10),
        RParen,
        LBrace,
        Return,
        True,
        Semicolon,
        RBrace,
        Else,
        LBrace,
        Return,
        False,
        Semicolon,
        RBrace,
        Int(10),
        Equal,
        Int(10),
        Semicolon,
        Int(10),
        NotEqual,
        Int(9),
        Semicolon,
        Str("foobar".to_string()),
        Semicolon,
        Str("foo space bar".to_string()),
        Semicolon,
    ];

    test_lexer(expected, input);
}

#[test]
fn lexer_reads_brackets_and_tokens_one_by_one() {
    let mut lexer = Lexer::new("[1, x]");
    assert_eq!(Some(Token::LBracket), lexer.next_token());
    assert_eq!(Some(Int(1)), lexer.next_token());
    assert_eq!(Some(Comma), lexer.next_token());
    assert_eq!(Some(Identifier("x".to_string())), lexer.next_token());
    assert_eq!(Some(Token::RBracket), lexer.next_token());
    assert_eq!(None, lexer.next_token());
    assert_eq!(None, lexer.next_token());
}

#[test]
fn lexer_empty_and_blank_inputs_give_no_tokens() {
    test_lexer(vec![], "");
    test_lexer(vec![], "  \n\t ");
}

#[test]
fn tokenize_matches_lexer() {
    let input = "let a = [1, 2][0];";
    assert_eq!(monkey::lexer::tokenize(input), Lexer::new(input).tokens());
}
