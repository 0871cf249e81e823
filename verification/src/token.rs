//! Tokens of the Monkey language.
use vstd::prelude::*;
use crate::text::{chars_eq, decimal_string, lit, push_string, spec_decimal, str_chars, string_push};

verus! {

#[derive(PartialEq, Debug, Clone)]
pub enum Token {
    Illegal(String),
    Identifier(String),
    Int(usize),
    Assign,
    Plus,
    Comma,
    Semicolon,
    LParen,
    RParen,
    LBrace,
    RBrace,
    LBracket,
    RBracket,
    Minus,
    Bang,
    Asterisk,
    Slash,
    LessThan,
    GreaterThan,
    Equal,
    NotEqual,
    Function,
    Let,
    True,
    False,
    If,
    Else,
    Return,
    Str(String),
}

/// The mathematical value of a token: strings are sequences of characters.
pub enum TokenV {
    Illegal(Seq<char>),
    Identifier(Seq<char>),
    Int(nat),
    Assign,
    Plus,
    Comma,
    Semicolon,
    LParen,
    RParen,
    LBrace,
    RBrace,
    LBracket,
    RBracket,
    Minus,
    Bang,
    Asterisk,
    Slash,
    LessThan,
    GreaterThan,
    Equal,
    NotEqual,
    Function,
    Let,
    True,
    False,
    If,
    Else,
    Return,
    Str(Seq<char>),
}

impl View for Token {
    type V = TokenV;

    open spec fn view(&self) -> TokenV {
        match self {
            Token::Illegal(s) => TokenV::Illegal(s@),
            Token::Identifier(s) => TokenV::Identifier(s@),
            Token::Int(v) => TokenV::Int(*v as nat),
            Token::Assign => TokenV::Assign,
            Token::Plus => TokenV::Plus,
            Token::Comma => TokenV::Comma,
            Token::Semicolon => TokenV::Semicolon,
            Token::LParen => TokenV::LParen,
            Token::RParen => TokenV::RParen,
            Token::LBrace => TokenV::LBrace,
            Token::RBrace => TokenV::RBrace,
            Token::LBracket => TokenV::LBracket,
            Token::RBracket => TokenV::RBracket,
            Token::Minus => TokenV::Minus,
            Token::Bang => TokenV::Bang,
            Token::Asterisk => TokenV::Asterisk,
            Token::Slash => TokenV::Slash,
            Token::LessThan => TokenV::LessThan,
            Token::GreaterThan => TokenV::GreaterThan,
            Token::Equal => TokenV::Equal,
            Token::NotEqual => TokenV::NotEqual,
            Token::Function => TokenV::Function,
            Token::Let => TokenV::Let,
            Token::True => TokenV::True,
            Token::False => TokenV::False,
            Token::If => TokenV::If,
            Token::Else => TokenV::Else,
            Token::Return => TokenV::Return,
            Token::Str(s) => TokenV::Str(s@),
        }
    }
}

/// The token that a word of letters stands for: a keyword, or else an identifier.
pub open spec fn spec_word_token(w: Seq<char>) -> TokenV {
    if w == seq!['f', 'n'] {
        TokenV::Function
    } else if w == seq!['l', 'e', 't'] {
        TokenV::Let
    } else if w == seq!['t', 'r', 'u', 'e'] {
        TokenV::True
    } else if w == seq!['f', 'a', 'l', 's', 'e'] {
        TokenV::False
    } else if w == seq!['i', 'f'] {
        TokenV::If
    } else if w == seq!['e', 'l', 's', 'e'] {
        TokenV::Else
    } else if w == seq!['r', 'e', 't', 'u', 'r', 'n'] {
        TokenV::Return
    } else {
        TokenV::Identifier(w)
    }
}

/// The printed form of a token.
pub open spec fn spec_token_text(t: TokenV) -> Seq<char> {
    match t {
        TokenV::Illegal(s) => "illegal: "@ + s,
        TokenV::Identifier(s) => "identifier: "@ + s,
        TokenV::Int(v) => spec_decimal(v),
        TokenV::Str(s) => seq!['"'] + s + seq!['"'],
        TokenV::Assign => "="@,
        TokenV::Plus => "+"@,
        TokenV::Comma => ","@,
        TokenV::Semicolon => ";"@,
        TokenV::LParen => "("@,
        TokenV::RParen => ")"@,
        TokenV::LBrace => "{"@,
        TokenV::RBrace => "}"@,
        TokenV::LBracket => "["@,
        TokenV::RBracket => "]"@,
        TokenV::Minus => "-"@,
        TokenV::Bang => "!"@,
        TokenV::Asterisk => "*"@,
        TokenV::Slash => "/"@,
        TokenV::LessThan => "<"@,
        TokenV::GreaterThan => ">"@,
        TokenV::Equal => "=="@,
        TokenV::NotEqual => "!="@,
        TokenV::Function => "fn"@,
        TokenV::Let => "let"@,
        TokenV::True => "true"@,
        TokenV::False => "false"@,
        TokenV::If => "if"@,
        TokenV::Else => "else"@,
        TokenV::Return => "return"@,
    }
}

impl Token {
    /// The token for a word of letters: `fn`, `let`, `true`, `false`, `if`, `else`
    /// and `return` are keywords, any other word is an identifier.
    pub fn from_word(literal: String) -> (t: Token)
        ensures
            t@ == spec_word_token(literal@),
    {
        let cs = str_chars(literal.as_str());
        if chars_eq(cs.as_slice(), &['f', 'n']) {
            Token::Function
        } else if chars_eq(cs.as_slice(), &['l', 'e', 't']) {
            Token::Let
        } else if chars_eq(cs.as_slice(), &['t', 'r', 'u', 'e']) {
            Token::True
        } else if chars_eq(cs.as_slice(), &['f', 'a', 'l', 's', 'e']) {
            Token::False
        } else if chars_eq(cs.as_slice(), &['i', 'f']) {
            Token::If
        } else if chars_eq(cs.as_slice(), &['e', 'l', 's', 'e']) {
            Token::Else
        } else if chars_eq(cs.as_slice(), &['r', 'e', 't', 'u', 'r', 'n']) {
            Token::Return
        } else {
            Token::Identifier(literal)
        }
    }

    /// A copy of the token.
    pub fn duplicate(&self) -> (t: Token)
        ensures
            t@ == self@,
    {
        match self {
            Token::Illegal(s) => Token::Illegal(s.clone()),
            Token::Identifier(s) => Token::Identifier(s.clone()),
            Token::Int(v) => Token::Int(*v),
            Token::Assign => Token::Assign,
            Token::Plus => Token::Plus,
            Token::Comma => Token::Comma,
            Token::Semicolon => Token::Semicolon,
            Token::LParen => Token::LParen,
            Token::RParen => Token::RParen,
            Token::LBrace => Token::LBrace,
            Token::RBrace => Token::RBrace,
            Token::LBracket => Token::LBracket,
            Token::RBracket => Token::RBracket,
            Token::Minus => Token::Minus,
            Token::Bang => Token::Bang,
            Token::Asterisk => Token::Asterisk,
            Token::Slash => Token::Slash,
            Token::LessThan => Token::LessThan,
            Token::GreaterThan => Token::GreaterThan,
            Token::Equal => Token::Equal,
            Token::NotEqual => Token::NotEqual,
            Token::Function => Token::Function,
            Token::Let => Token::Let,
            Token::True => Token::True,
            Token::False => Token::False,
            Token::If => Token::If,
            Token::Else => Token::Else,
            Token::Return => Token::Return,
            Token::Str(s) => Token::Str(s.clone()),
        }
    }

    /// The printed form of the token, as in `illegal: @`, `identifier: x`, `42`,
    /// `"text"`, `==` or `return`.
    pub fn display(&self) -> (r: String)
        ensures
            r@ == spec_token_text(self@),
    {
        match self {
            Token::Illegal(s) => {
                let mut r = lit("illegal: ");
                push_string(&mut r, s);
                r
            },
            Token::Identifier(s) => {
                let mut r = lit("identifier: ");
                push_string(&mut r, s);
                r
            },
            Token::Int(v) => decimal_string(*v),
            Token::Str(s) => {
                let mut r = String::new();
                string_push(&mut r, '"');
                push_string(&mut r, s);
                string_push(&mut r, '"');
                assert(r@ =~= seq!['"'] + s@ + seq!['"']);
                r
            },
            Token::Assign => lit("="),
            Token::Plus => lit("+"),
            Token::Comma => lit(","),
            Token::Semicolon => lit(";"),
            Token::LParen => lit("("),
            Token::RParen => lit(")"),
            Token::LBrace => lit("{"),
            Token::RBrace => lit("}"),
            Token::LBracket => lit("["),
            Token::RBracket => lit("]"),
            Token::Minus => lit("-"),
            Token::Bang => lit("!"),
            Token::Asterisk => lit("*"),
            Token::Slash => lit("/"),
            Token::LessThan => lit("<"),
            Token::GreaterThan => lit(">"),
            Token::Equal => lit("=="),
            Token::NotEqual => lit("!="),
            Token::Function => lit("fn"),
            Token::Let => lit("let"),
            Token::True => lit("true"),
            Token::False => lit("false"),
            Token::If => lit("if"),
            Token::Else => lit("else"),
            Token::Return => lit("return"),
        }
    }
}

} // verus!
