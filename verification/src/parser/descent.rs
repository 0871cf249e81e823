//! The parser: recursive descent over the tokens of a lexer, proved to
//! compute what `spec` says.
use vstd::prelude::*;
use crate::ast::{
    exprs_view, stmts_view, strings_view, CallFunctionExpression, Expression, Function, Operator,
    Program, Statement,
};
use crate::lexer::{tokens_view, Lexer};
use crate::token::{Token, TokenV};
use super::error::{parse_errors_view, ParseError, ParseErrorExpected, ParseErrors};
use super::spec::{next_pos, peek, spec_block, spec_call, spec_call_args, spec_close, spec_expr, spec_function, spec_if, spec_index, spec_infix, spec_infix_operator, spec_infix_token, spec_list, spec_list_values, spec_params, spec_parse_at, spec_prefix, spec_program_from, spec_skip, spec_statement, spec_stmt, spec_stmt_raw, spec_token_precedence, ParseOutcome};

verus! {

/// How strongly an operator binds, from weakest to strongest.
#[derive(PartialEq, Eq, Structural, Debug, Copy, Clone)]
pub enum Precedence {
    Lowest,
    Equals,
    LessGreater,
    Sum,
    Product,
    Prefix,
    Call,
    Index,
}

/// The rank of a precedence: its place from weakest to strongest.
pub open spec fn spec_rank(p: Precedence) -> nat {
    match p {
        Precedence::Lowest => 0,
        Precedence::Equals => 1,
        Precedence::LessGreater => 2,
        Precedence::Sum => 3,
        Precedence::Product => 4,
        Precedence::Prefix => 5,
        Precedence::Call => 6,
        Precedence::Index => 7,
    }
}

impl Precedence {
    /// The rank of the precedence.
    pub fn rank(&self) -> (r: u8)
        ensures
            r == spec_rank(*self),
    {
        match self {
            Precedence::Lowest => 0,
            Precedence::Equals => 1,
            Precedence::LessGreater => 2,
            Precedence::Sum => 3,
            Precedence::Product => 4,
            Precedence::Prefix => 5,
            Precedence::Call => 6,
            Precedence::Index => 7,
        }
    }

    /// The precedence with which a token binds as an infix operator:
    /// `Lowest` for tokens that are none.
    pub fn of_token(t: &Token) -> (p: Precedence)
        ensures
            spec_rank(p) == spec_token_precedence(t@),
    {
        match t {
            Token::Equal | Token::NotEqual => Precedence::Equals,
            Token::LessThan | Token::GreaterThan => Precedence::LessGreater,
            Token::Plus | Token::Minus => Precedence::Sum,
            Token::Slash | Token::Asterisk => Precedence::Product,
            Token::LParen => Precedence::Call,
            Token::LBracket => Precedence::Index,
            _ => Precedence::Lowest,
        }
    }
}

/// The operator of an infix operator token, with the precedence it binds with.
fn infix_operator(t: &Token) -> (r: Option<(Operator, Precedence)>)
    ensures
        match r {
            Some((op, p)) => spec_infix_operator(t@) == Some(op) && spec_rank(p)
                == spec_token_precedence(t@),
            None => spec_infix_operator(t@) is None,
        },
{
    match t {
        Token::Plus => Some((Operator::Plus, Precedence::Sum)),
        Token::Minus => Some((Operator::Minus, Precedence::Sum)),
        Token::Slash => Some((Operator::Divide, Precedence::Product)),
        Token::Asterisk => Some((Operator::Multiply, Precedence::Product)),
        Token::Equal => Some((Operator::Equal, Precedence::Equals)),
        Token::NotEqual => Some((Operator::NotEqual, Precedence::Equals)),
        Token::LessThan => Some((Operator::LessThan, Precedence::LessGreater)),
        Token::GreaterThan => Some((Operator::GreaterThan, Precedence::LessGreater)),
        _ => None,
    }
}

/// What a parsing step gives: a value, an error, or `Stuck` where parsing
/// cannot go on.
enum Parsed<T> {
    Done(T),
    Failed(ParseError),
    Stuck,
}

/// A parsing step as an outcome of `spec`, with the position after it.
spec fn outcome<T, V>(r: Parsed<T>, pos: int, f: spec_fn(T) -> V) -> ParseOutcome<V> {
    match r {
        Parsed::Done(v) => ParseOutcome::Value(f(v), pos),
        Parsed::Failed(e) => ParseOutcome::Fail(e@, pos),
        Parsed::Stuck => ParseOutcome::Stuck,
    }
}

spec fn expr_outcome(r: Parsed<Expression>, pos: int) -> ParseOutcome<crate::ast::ExprV> {
    outcome(r, pos, |e: Expression| e@)
}

/// A missing closing token as an outcome of `spec`.
spec fn closing_outcome(r: Option<ParseError>, pos: int) -> ParseOutcome<int> {
    match r {
        None => ParseOutcome::Value(0, pos),
        Some(e) => ParseOutcome::Fail(e@, pos),
    }
}

spec fn closing_token(bracket: bool) -> TokenV {
    if bracket {
        TokenV::RBracket
    } else {
        TokenV::RParen
    }
}

spec fn closing_expected(bracket: bool) -> ParseErrorExpected {
    if bracket {
        ParseErrorExpected::ClosingBracket
    } else {
        ParseErrorExpected::ClosingParenthesis
    }
}

proof fn lemma_exprs_push(s: Seq<Expression>, e: Expression)
    ensures
        exprs_view(s.push(e)) == exprs_view(s).push(e@),
{
    assert(s.push(e).drop_last() =~= s);
}

proof fn lemma_stmts_push(s: Seq<Statement>, st: Statement)
    ensures
        stmts_view(s.push(st)) == stmts_view(s).push(st@),
{
    assert(s.push(st).drop_last() =~= s);
}

/// A parser over the tokens of a source text, with its reading position.
pub struct Parser {
    tokens: Vec<Token>,
    pos: usize,
}

impl Parser {
    /// The tokens being parsed.
    pub closed spec fn toks(&self) -> Seq<TokenV> {
        tokens_view(self.tokens@)
    }

    /// The position of the next token to read.
    pub closed spec fn position(&self) -> int {
        self.pos as int
    }

    /// The position lies within the tokens.
    pub closed spec fn wf(&self) -> bool {
        self.pos <= self.tokens.len()
    }

    /// `self` reads the same tokens as `before`, from no earlier position.
    closed spec fn follows(&self, before: Parser) -> bool {
        &&& self.tokens@ == before.tokens@
        &&& self.pos <= self.tokens.len()
        &&& before.pos <= self.pos
    }

    /// A parser over all the tokens that remain in the lexer.
    pub fn new(lexer: Lexer) -> (p: Parser)
        requires
            lexer.position() <= lexer.input().len(),
        ensures
            p.wf(),
            p.toks() == crate::lexer::spec_lex_from(lexer.input(), lexer.position()),
            p.position() == 0,
    {
        Parser { tokens: lexer.tokens(), pos: 0 }
    }

    proof fn lemma_len(&self)
        ensures
            self.toks().len() == self.tokens.len(),
            forall|i: int| 0 <= i < self.tokens.len() ==> #[trigger] self.toks()[i] == self.tokens@[i]@,
    {
    }

    fn peek_token(&self) -> (r: Option<&Token>)
        requires
            self.wf(),
        ensures
            match r {
                Some(t) => peek(self.toks(), self.pos as int) == Some(t@),
                None => peek(self.toks(), self.pos as int) is None,
            },
    {
        proof {
            self.lemma_len();
        }
        if self.pos < self.tokens.len() {
            Some(&self.tokens[self.pos])
        } else {
            None
        }
    }

    fn advance(&mut self) -> (r: Option<Token>)
        requires
            old(self).wf(),
        ensures
            final(self).follows(*old(self)),
            final(self).pos == next_pos(old(self).toks(), old(self).pos as int),
            match r {
                Some(t) => peek(old(self).toks(), old(self).pos as int) == Some(t@),
                None => peek(old(self).toks(), old(self).pos as int) is None,
            },
    {
        proof {
            self.lemma_len();
        }
        if self.pos < self.tokens.len() {
            let t = self.tokens[self.pos].duplicate();
            self.pos = self.pos + 1;
            Some(t)
        } else {
            None
        }
    }

    /// Reads the closing `)` (or `]`), or reports what came instead.
    fn close(&mut self, bracket: bool) -> (r: Option<ParseError>)
        requires
            old(self).wf(),
        ensures
            final(self).follows(*old(self)),
            closing_outcome(r, final(self).pos as int) == spec_close(
                old(self).toks(),
                0int,
                old(self).pos as int,
                closing_token(bracket),
                closing_expected(bracket),
            ),
    {
        let found = match self.peek_token() {
            Some(Token::RParen) => !bracket,
            Some(Token::RBracket) => bracket,
            _ => false,
        };
        if found {
            self.pos = self.pos + 1;
            None
        } else {
            let received = self.advance();
            let expected = if bracket {
                ParseErrorExpected::ClosingBracket
            } else {
                ParseErrorExpected::ClosingParenthesis
            };
            Some(ParseError { expected, received })
        }
    }

    /// Reads an optional `;`.
    fn semicolon(&mut self)
        requires
            old(self).wf(),
        ensures
            final(self).follows(*old(self)),
            final(self).pos == if peek(old(self).toks(), old(self).pos as int) == Some(
                TokenV::Semicolon,
            ) {
                old(self).pos + 1
            } else {
                old(self).pos as int
            },
    {
        let found = match self.peek_token() {
            Some(Token::Semicolon) => true,
            _ => false,
        };
        if found {
            self.pos = self.pos + 1;
        }
    }

    /// Skips the tokens up to and including the next `;`.
    fn skip(&mut self)
        requires
            old(self).wf(),
        ensures
            final(self).follows(*old(self)),
            final(self).pos == spec_skip(old(self).toks(), old(self).pos as int),
    {
        loop
            invariant
                self.follows(*old(self)),
                spec_skip(self.toks(), self.pos as int) == spec_skip(
                    old(self).toks(),
                    old(self).pos as int,
                ),
            decreases self.tokens.len() - self.pos,
        {
            match self.advance() {
                None => return,
                Some(Token::Semicolon) => return,
                Some(_) => {},
            }
        }
    }

    /// An expression whose operators bind more strongly than `prec`.
    fn expr(&mut self, prec: Precedence) -> (r: Parsed<Expression>)
        requires
            old(self).wf(),
        ensures
            final(self).follows(*old(self)),
            old(self).pos < old(self).tokens.len() ==> old(self).pos < final(self).pos,
            expr_outcome(r, final(self).pos as int) == spec_expr(
                old(self).toks(),
                old(self).pos as int,
                spec_rank(prec),
            ),
        decreases old(self).tokens.len() - old(self).pos, 5nat,
    {
        proof {
            self.lemma_len();
        }
        match self.advance() {
            None => Parsed::Failed(
                ParseError { expected: ParseErrorExpected::Expression, received: None },
            ),
            Some(t) => match self.prefix(t) {
                Parsed::Done(left) => self.infix(prec, left),
                Parsed::Failed(e) => Parsed::Failed(e),
                Parsed::Stuck => Parsed::Stuck,
            },
        }
    }

    /// The expression that starts with `t`, which was just read.
    fn prefix(&mut self, t: Token) -> (r: Parsed<Expression>)
        requires
            old(self).wf(),
        ensures
            final(self).follows(*old(self)),
            expr_outcome(r, final(self).pos as int) == spec_prefix(
                old(self).toks(),
                t@,
                old(self).pos as int,
            ),
        decreases old(self).tokens.len() - old(self).pos, 8nat,
    {
        proof {
            self.lemma_len();
        }
        match t {
            Token::Identifier(n) => Parsed::Done(Expression::Identifier(n)),
            Token::Int(v) => Parsed::Done(Expression::IntegerLiteral(v)),
            Token::Str(s) => Parsed::Done(Expression::StringLiteral(s)),
            Token::Bang => match self.expr(Precedence::Prefix) {
                Parsed::Done(r) => Parsed::Done(
                    Expression::Prefix { operator: Operator::Not, right: Box::new(r) },
                ),
                Parsed::Failed(e) => Parsed::Failed(e),
                Parsed::Stuck => Parsed::Stuck,
            },
            Token::Minus => match self.expr(Precedence::Prefix) {
                Parsed::Done(r) => Parsed::Done(
                    Expression::Prefix { operator: Operator::Minus, right: Box::new(r) },
                ),
                Parsed::Failed(e) => Parsed::Failed(e),
                Parsed::Stuck => Parsed::Stuck,
            },
            Token::True => Parsed::Done(Expression::Boolean(true)),
            Token::False => Parsed::Done(Expression::Boolean(false)),
            Token::LParen => match self.expr(Precedence::Lowest) {
                Parsed::Done(e) => match self.close(false) {
                    None => Parsed::Done(e),
                    Some(err) => Parsed::Failed(err),
                },
                Parsed::Failed(e) => Parsed::Failed(e),
                Parsed::Stuck => Parsed::Stuck,
            },
            Token::LBracket => self.list(),
            Token::If => self.if_expr(),
            Token::Function => self.function(),
            other => Parsed::Failed(
                ParseError {
                    expected: ParseErrorExpected::PrefixTokenOrExpression,
                    received: Some(other),
                },
            ),
        }
    }

    /// Extends `left` with the infix operators that bind more strongly than
    /// `prec`.
    #[verifier::loop_isolation(false)]
    fn infix(&mut self, prec: Precedence, left: Expression) -> (r: Parsed<Expression>)
        requires
            old(self).wf(),
        ensures
            final(self).follows(*old(self)),
            expr_outcome(r, final(self).pos as int) == spec_infix(
                old(self).toks(),
                spec_rank(prec),
                left@,
                old(self).pos as int,
            ),
        decreases old(self).tokens.len() - old(self).pos, 4nat,
    {
        let ghost left0 = left@;
        let mut left = left;
        loop
            invariant
                self.follows(*old(self)),
                spec_infix(self.toks(), spec_rank(prec), left@, self.pos as int) == spec_infix(
                    old(self).toks(),
                    spec_rank(prec),
                    left0,
                    old(self).pos as int,
                ),
            decreases self.tokens.len() - self.pos,
        {
            proof {
                self.lemma_len();
            }
            let stop = match self.peek_token() {
                None => true,
                Some(Token::Semicolon) => true,
                Some(t) => prec.rank() >= Precedence::of_token(t).rank(),
            };
            if stop {
                return Parsed::Done(left);
            }
            let t = match self.advance() {
                Some(t) => t,
                None => return Parsed::Done(left),
            };
            match self.infix_token(left, t) {
                Parsed::Done(e) => {
                    left = e;
                },
                Parsed::Failed(e) => return Parsed::Failed(e),
                Parsed::Stuck => return Parsed::Stuck,
            }
        }
    }

    /// What follows the infix token `t`, which was just read: the right
    /// operand, the arguments of a call, or an index.
    fn infix_token(&mut self, left: Expression, t: Token) -> (r: Parsed<Expression>)
        requires
            old(self).wf(),
        ensures
            final(self).follows(*old(self)),
            expr_outcome(r, final(self).pos as int) == spec_infix_token(
                old(self).toks(),
                left@,
                t@,
                old(self).pos as int,
            ),
        decreases old(self).tokens.len() - old(self).pos, 8nat,
    {
        match infix_operator(&t) {
            Some((operator, prec)) => match self.expr(prec) {
                Parsed::Done(right) => Parsed::Done(
                    Expression::Infix { operator, left: Box::new(left), right: Box::new(right) },
                ),
                Parsed::Failed(e) => Parsed::Failed(e),
                Parsed::Stuck => Parsed::Stuck,
            },
            None => match t {
                Token::LParen => self.call(left),
                Token::LBracket => self.index(left),
                other => Parsed::Failed(
                    ParseError { expected: ParseErrorExpected::Expression, received: Some(other) },
                ),
            },
        }
    }

    /// An index into `left`, after `[`: one expression and `]`.
    fn index(&mut self, left: Expression) -> (r: Parsed<Expression>)
        requires
            old(self).wf(),
        ensures
            final(self).follows(*old(self)),
            expr_outcome(r, final(self).pos as int) == spec_index(
                old(self).toks(),
                left@,
                old(self).pos as int,
            ),
        decreases old(self).tokens.len() - old(self).pos, 6nat,
    {
        match self.expr(Precedence::Lowest) {
            Parsed::Done(index) => {
                let found = match self.peek_token() {
                    Some(Token::RBracket) => true,
                    _ => false,
                };
                if found {
                    self.pos = self.pos + 1;
                    Parsed::Done(Expression::Index { left: Box::new(left), index: Box::new(index) })
                } else {
                    let received = self.advance();
                    Parsed::Failed(ParseError { expected: ParseErrorExpected::SingleIndex, received })
                }
            },
            Parsed::Failed(e) => Parsed::Failed(
                ParseError { expected: ParseErrorExpected::SingleIndex, received: e.received },
            ),
            Parsed::Stuck => Parsed::Stuck,
        }
    }

    /// A call of `function`, after `(`: the arguments and `)`. A callee that is
    /// neither a name nor a function literal is stuck.
    fn call(&mut self, function: Expression) -> (r: Parsed<Expression>)
        requires
            old(self).wf(),
        ensures
            final(self).follows(*old(self)),
            expr_outcome(r, final(self).pos as int) == spec_call(
                old(self).toks(),
                function@,
                old(self).pos as int,
            ),
        decreases old(self).tokens.len() - old(self).pos, 7nat,
    {
        proof {
            reveal_with_fuel(crate::ast::expr_view, 2);
        }
        match self.call_args() {
            Parsed::Done(arguments) => {
                let found = match self.peek_token() {
                    Some(Token::RParen) => true,
                    _ => false,
                };
                if found {
                    self.pos = self.pos + 1;
                    match function {
                        Expression::Identifier(n) => Parsed::Done(
                            Expression::Call {
                                function: CallFunctionExpression::Identifier(n),
                                arguments,
                            },
                        ),
                        Expression::FunctionLiteral(f) => Parsed::Done(
                            Expression::Call {
                                function: CallFunctionExpression::Literal(f),
                                arguments,
                            },
                        ),
                        _ => Parsed::Stuck,
                    }
                } else {
                    let received = self.advance();
                    Parsed::Failed(
                        ParseError { expected: ParseErrorExpected::ClosingParenthesis, received },
                    )
                }
            },
            Parsed::Failed(e) => Parsed::Failed(e),
            Parsed::Stuck => Parsed::Stuck,
        }
    }

    /// Call arguments up to (not including) `)`, separated by commas.
    fn call_args(&mut self) -> (r: Parsed<Vec<Expression>>)
        requires
            old(self).wf(),
        ensures
            final(self).follows(*old(self)),
            outcome(r, final(self).pos as int, |v: Vec<Expression>| exprs_view(v@))
                == spec_call_args(old(self).toks(), Seq::empty(), old(self).pos as int),
        decreases old(self).tokens.len() - old(self).pos, 6nat,
    {
        let mut args: Vec<Expression> = Vec::new();
        loop
            invariant
                self.follows(*old(self)),
                spec_call_args(self.toks(), exprs_view(args@), self.pos as int) == spec_call_args(
                    old(self).toks(),
                    Seq::empty(),
                    old(self).pos as int,
                ),
            decreases self.tokens.len() - self.pos,
        {
            proof {
                self.lemma_len();
            }
            let kind: u8 = match self.peek_token() {
                None => 0,
                Some(Token::RParen) => 1,
                Some(Token::Comma) => 2,
                Some(_) => 3,
            };
            if kind == 0 {
                return Parsed::Failed(
                    ParseError { expected: ParseErrorExpected::ClosingParenthesis, received: None },
                );
            } else if kind == 1 {
                return Parsed::Done(args);
            } else if kind == 2 {
                self.pos = self.pos + 1;
            } else {
                match self.expr(Precedence::Lowest) {
                    Parsed::Done(e) => {
                        proof {
                            lemma_exprs_push(args@, e);
                        }
                        args.push(e);
                    },
                    Parsed::Failed(e) => return Parsed::Failed(e),
                    Parsed::Stuck => return Parsed::Stuck,
                }
            }
        }
    }

    /// A list literal, after `[`: the elements and `]`.
    fn list(&mut self) -> (r: Parsed<Expression>)
        requires
            old(self).wf(),
        ensures
            final(self).follows(*old(self)),
            expr_outcome(r, final(self).pos as int) == spec_list(old(self).toks(), old(self).pos as int),
        decreases old(self).tokens.len() - old(self).pos, 7nat,
    {
        match self.list_values() {
            Parsed::Done(values) => match self.close(true) {
                None => Parsed::Done(Expression::ListLiteral(values)),
                Some(e) => Parsed::Failed(e),
            },
            Parsed::Failed(e) => Parsed::Failed(e),
            Parsed::Stuck => Parsed::Stuck,
        }
    }

    /// List elements up to (not including) `]`, separated by commas.
    fn list_values(&mut self) -> (r: Parsed<Vec<Expression>>)
        requires
            old(self).wf(),
        ensures
            final(self).follows(*old(self)),
            outcome(r, final(self).pos as int, |v: Vec<Expression>| exprs_view(v@))
                == spec_list_values(old(self).toks(), Seq::empty(), old(self).pos as int),
        decreases old(self).tokens.len() - old(self).pos, 6nat,
    {
        let mut values: Vec<Expression> = Vec::new();
        loop
            invariant
                self.follows(*old(self)),
                spec_list_values(self.toks(), exprs_view(values@), self.pos as int)
                    == spec_list_values(old(self).toks(), Seq::empty(), old(self).pos as int),
            decreases self.tokens.len() - self.pos,
        {
            proof {
                self.lemma_len();
            }
            let kind: u8 = match self.peek_token() {
                Some(Token::RBracket) => 1,
                Some(Token::Comma) => 2,
                _ => 3,
            };
            if kind == 1 {
                return Parsed::Done(values);
            } else if kind == 2 {
                self.pos = self.pos + 1;
            } else {
                match self.expr(Precedence::Lowest) {
                    Parsed::Done(e) => {
                        proof {
                            lemma_exprs_push(values@, e);
                        }
                        values.push(e);
                    },
                    Parsed::Failed(e) => return Parsed::Failed(e),
                    Parsed::Stuck => return Parsed::Stuck,
                }
            }
        }
    }

    /// A `{`-block: an error naming `missing` at the end of the tokens, or
    /// `wrong` with the token found in place of `{`.
    fn braced_block(&mut self, missing: ParseErrorExpected, wrong: ParseErrorExpected) -> (r:
        Parsed<Vec<Statement>>)
        requires
            old(self).wf(),
        ensures
            final(self).follows(*old(self)),
            outcome(r, final(self).pos as int, |v: Vec<Statement>| stmts_view(v@))
                == super::spec::spec_braced_block(old(self).toks(), old(self).pos as int, missing, wrong),
        decreases old(self).tokens.len() - old(self).pos, 11nat,
    {
        proof {
            self.lemma_len();
        }
        match self.advance() {
            None => Parsed::Failed(ParseError { expected: missing, received: None }),
            Some(Token::LBrace) => self.block(),
            Some(other) => Parsed::Failed(ParseError { expected: wrong, received: Some(other) }),
        }
    }

    /// An `if` expression, after `if`.
    fn if_expr(&mut self) -> (r: Parsed<Expression>)
        requires
            old(self).wf(),
        ensures
            final(self).follows(*old(self)),
            expr_outcome(r, final(self).pos as int) == spec_if(old(self).toks(), old(self).pos as int),
        decreases old(self).tokens.len() - old(self).pos, 7nat,
    {
        proof {
            self.lemma_len();
            reveal_with_fuel(crate::ast::expr_view, 2);
        }
        let cond = ParseErrorExpected::ParenthesisForIfCondition;
        match self.advance() {
            None => Parsed::Failed(ParseError { expected: cond, received: None }),
            Some(Token::LParen) => match self.expr(Precedence::Lowest) {
                Parsed::Done(condition) => match self.close(false) {
                    Some(e) => Parsed::Failed(e),
                    None => match self.braced_block(cond, cond) {
                        Parsed::Done(consequence) => {
                            let has_else = match self.peek_token() {
                                Some(Token::Else) => true,
                                _ => false,
                            };
                            if has_else {
                                self.pos = self.pos + 1;
                                match self.braced_block(cond, cond) {
                                    Parsed::Done(alternative) => Parsed::Done(
                                        Expression::If {
                                            condition: Box::new(condition),
                                            consequence,
                                            alternative,
                                        },
                                    ),
                                    Parsed::Failed(e) => Parsed::Failed(e),
                                    Parsed::Stuck => Parsed::Stuck,
                                }
                            } else {
                                Parsed::Done(
                                    Expression::If {
                                        condition: Box::new(condition),
                                        consequence,
                                        alternative: Vec::new(),
                                    },
                                )
                            }
                        },
                        Parsed::Failed(e) => Parsed::Failed(e),
                        Parsed::Stuck => Parsed::Stuck,
                    },
                },
                Parsed::Failed(e) => Parsed::Failed(e),
                Parsed::Stuck => Parsed::Stuck,
            },
            Some(other) => Parsed::Failed(ParseError { expected: cond, received: Some(other) }),
        }
    }

    /// Function parameters up to (not including) `)`: names separated by
    /// commas.
    fn params(&mut self) -> (r: Parsed<Vec<String>>)
        requires
            old(self).wf(),
        ensures
            final(self).follows(*old(self)),
            outcome(r, final(self).pos as int, |v: Vec<String>| strings_view(v@)) == spec_params(
                old(self).toks(),
                Seq::empty(),
                old(self).pos as int,
            ),
    {
        let mut names: Vec<String> = Vec::new();
        assert(strings_view(names@) =~= Seq::<Seq<char>>::empty());
        loop
            invariant
                self.follows(*old(self)),
                spec_params(self.toks(), strings_view(names@), self.pos as int) == spec_params(
                    old(self).toks(),
                    Seq::empty(),
                    old(self).pos as int,
                ),
            decreases self.tokens.len() - self.pos,
        {
            proof {
                self.lemma_len();
            }
            let at_close: u8 = match self.peek_token() {
                None => 0,
                Some(Token::RParen) => 1,
                Some(_) => 2,
            };
            if at_close == 0 {
                return Parsed::Failed(
                    ParseError { expected: ParseErrorExpected::ClosingParenthesis, received: None },
                );
            } else if at_close == 1 {
                return Parsed::Done(names);
            }
            match self.advance() {
                Some(Token::Comma) => {},
                Some(Token::Identifier(n)) => {
                    let ghost before = names@;
                    names.push(n);
                    assert(strings_view(names@) =~= strings_view(before).push(names@.last()@));
                },
                other => {
                    return Parsed::Failed(
                        ParseError {
                            expected: ParseErrorExpected::ParameterForFunction,
                            received: other,
                        },
                    );
                },
            }
        }
    }

    /// A function literal, after `fn`.
    fn function(&mut self) -> (r: Parsed<Expression>)
        requires
            old(self).wf(),
        ensures
            final(self).follows(*old(self)),
            expr_outcome(r, final(self).pos as int) == spec_function(
                old(self).toks(),
                old(self).pos as int,
            ),
        decreases old(self).tokens.len() - old(self).pos, 7nat,
    {
        proof {
            self.lemma_len();
            reveal_with_fuel(crate::ast::expr_view, 2);
        }
        match self.advance() {
            None => Parsed::Failed(
                ParseError {
                    expected: ParseErrorExpected::ParenthesisForFunctionParams,
                    received: None,
                },
            ),
            Some(Token::LParen) => match self.params() {
                Parsed::Done(params) => match self.close(false) {
                    Some(e) => Parsed::Failed(e),
                    None => match self.braced_block(
                        ParseErrorExpected::ParenthesisForFunctionBody,
                        ParseErrorExpected::ParenthesisForIfCondition,
                    ) {
                        Parsed::Done(body) => Parsed::Done(
                            Expression::FunctionLiteral(Function { params, body }),
                        ),
                        Parsed::Failed(e) => Parsed::Failed(e),
                        Parsed::Stuck => Parsed::Stuck,
                    },
                },
                Parsed::Failed(e) => Parsed::Failed(e),
                Parsed::Stuck => Parsed::Stuck,
            },
            Some(other) => Parsed::Failed(
                ParseError {
                    expected: ParseErrorExpected::ParenthesisForFunctionParams,
                    received: Some(other),
                },
            ),
        }
    }

    /// Statements up to a closing `}` (which is read) or the end of the tokens.
    fn block(&mut self) -> (r: Parsed<Vec<Statement>>)
        requires
            old(self).wf(),
        ensures
            final(self).follows(*old(self)),
            outcome(r, final(self).pos as int, |v: Vec<Statement>| stmts_view(v@)) == spec_block(
                old(self).toks(),
                Seq::empty(),
                old(self).pos as int,
            ),
        decreases old(self).tokens.len() - old(self).pos, 10nat,
    {
        let mut statements: Vec<Statement> = Vec::new();
        loop
            invariant
                self.follows(*old(self)),
                spec_block(self.toks(), stmts_view(statements@), self.pos as int) == spec_block(
                    old(self).toks(),
                    Seq::empty(),
                    old(self).pos as int,
                ),
            decreases self.tokens.len() - self.pos,
        {
            proof {
                self.lemma_len();
            }
            let kind: u8 = match self.peek_token() {
                None => 0,
                Some(Token::RBrace) => 1,
                Some(_) => 2,
            };
            if kind == 0 {
                return Parsed::Done(statements);
            } else if kind == 1 {
                self.pos = self.pos + 1;
                return Parsed::Done(statements);
            }
            match self.statement() {
                Parsed::Done(s) => {
                    proof {
                        lemma_stmts_push(statements@, s);
                    }
                    statements.push(s);
                },
                Parsed::Failed(e) => return Parsed::Failed(e),
                Parsed::Stuck => return Parsed::Stuck,
            }
        }
    }

    /// A statement; after an error the tokens up to the next `;` are skipped.
    fn statement(&mut self) -> (r: Parsed<Statement>)
        requires
            old(self).wf(),
            old(self).pos < old(self).tokens.len(),
        ensures
            final(self).follows(*old(self)),
            old(self).pos < final(self).pos,
            outcome(r, final(self).pos as int, |s: Statement| s@) == spec_stmt(
                old(self).toks(),
                old(self).pos as int,
            ),
        decreases old(self).tokens.len() - old(self).pos, 9nat,
    {
        proof {
            self.lemma_len();
        }
        match self.statement_raw() {
            Parsed::Failed(e) => {
                self.skip();
                Parsed::Failed(e)
            },
            other => other,
        }
    }

    /// The next statement of the program.
    fn program_statement(&mut self) -> (r: Parsed<Statement>)
        requires
            old(self).wf(),
            old(self).pos < old(self).tokens.len(),
        ensures
            final(self).follows(*old(self)),
            old(self).pos < final(self).pos,
            outcome(r, final(self).pos as int, |s: Statement| s@) == spec_statement(
                old(self).toks(),
                old(self).pos as int,
            ),
    {
        proof {
            reveal(spec_statement);
        }
        self.statement()
    }

    /// A statement without error recovery.
    fn statement_raw(&mut self) -> (r: Parsed<Statement>)
        requires
            old(self).wf(),
            old(self).pos < old(self).tokens.len(),
        ensures
            final(self).follows(*old(self)),
            old(self).pos < final(self).pos,
            outcome(r, final(self).pos as int, |s: Statement| s@) == spec_stmt_raw(
                old(self).toks(),
                old(self).pos as int,
            ),
        decreases old(self).tokens.len() - old(self).pos, 8nat,
    {
        proof {
            self.lemma_len();
        }
        let kind: u8 = match self.peek_token() {
            Some(Token::Let) => 0,
            Some(Token::Return) => 1,
            _ => 2,
        };
        if kind == 0 {
            self.pos = self.pos + 1;
            self.let_statement()
        } else if kind == 1 {
            self.pos = self.pos + 1;
            self.expression_statement(true)
        } else {
            self.expression_statement(false)
        }
    }

    /// A `return` statement after `return`, or an expression statement.
    fn expression_statement(&mut self, returning: bool) -> (r: Parsed<Statement>)
        requires
            old(self).wf(),
            returning ==> 0 < old(self).pos <= old(self).tokens.len() && old(self).toks()[old(self).pos - 1] == TokenV::Return,
            !returning ==> old(self).pos < old(self).tokens.len() && old(self).toks()[old(self).pos as int] != TokenV::Return && old(self).toks()[old(self).pos as int] != TokenV::Let,
        ensures
            final(self).follows(*old(self)),
            !returning ==> old(self).pos < final(self).pos,
            outcome(r, final(self).pos as int, |s: Statement| s@) == spec_stmt_raw(
                old(self).toks(),
                if returning { old(self).pos - 1 } else { old(self).pos as int },
            ),
        decreases old(self).tokens.len() - old(self).pos, 7nat,
    {
        let r = self.expr(Precedence::Lowest);
        self.semicolon();
        match r {
            Parsed::Done(e) => if returning {
                Parsed::Done(Statement::Return(e))
            } else {
                Parsed::Done(Statement::Expression(e))
            },
            Parsed::Failed(e) => Parsed::Failed(e),
            Parsed::Stuck => Parsed::Stuck,
        }
    }

    /// A `let` statement, after `let`.
    fn let_statement(&mut self) -> (r: Parsed<Statement>)
        requires
            old(self).wf(),
            0 < old(self).pos <= old(self).tokens.len(),
            old(self).toks()[old(self).pos - 1] == TokenV::Let,
        ensures
            final(self).follows(*old(self)),
            outcome(r, final(self).pos as int, |s: Statement| s@) == spec_stmt_raw(
                old(self).toks(),
                old(self).pos - 1,
            ),
        decreases old(self).tokens.len() - old(self).pos, 7nat,
    {
        proof {
            self.lemma_len();
        }
        match self.advance() {
            None => Parsed::Failed(
                ParseError { expected: ParseErrorExpected::Identifier, received: None },
            ),
            Some(Token::Identifier(name)) => match self.advance() {
                None => Parsed::Failed(
                    ParseError { expected: ParseErrorExpected::Assignment, received: None },
                ),
                Some(Token::Assign) => {
                    let r = self.expr(Precedence::Lowest);
                    self.semicolon();
                    match r {
                        Parsed::Done(e) => Parsed::Done(Statement::Let(name, e)),
                        Parsed::Failed(e) => Parsed::Failed(e),
                        Parsed::Stuck => Parsed::Stuck,
                    }
                },
                Some(other) => Parsed::Failed(
                    ParseError { expected: ParseErrorExpected::Assignment, received: Some(other) },
                ),
            },
            Some(other) => Parsed::Failed(
                ParseError { expected: ParseErrorExpected::Identifier, received: Some(other) },
            ),
        }
    }
}

/// One statement of a program, read at `p`, and the rest read after it.
proof fn lemma_program_step(toks: Seq<TokenV>, p: int, q: int)
    requires
        0 <= p < q <= toks.len(),
        !(spec_statement(toks, p) is Stuck),
        match spec_statement(toks, p) {
            ParseOutcome::Value(_, q1) => q1 == q,
            ParseOutcome::Fail(_, q1) => q1 == q,
            ParseOutcome::Stuck => false,
        },
    ensures
        ({
            let whole = spec_program_from(toks, p);
            let rest = spec_program_from(toks, q);
            &&& whole.stuck == rest.stuck
            &&& match spec_statement(toks, p) {
                ParseOutcome::Value(s, _) => whole.statements == seq![s] + rest.statements
                    && whole.errors == rest.errors,
                ParseOutcome::Fail(e, _) => whole.statements == rest.statements && whole.errors
                    == seq![e] + rest.errors,
                ParseOutcome::Stuck => true,
            }
        }),
{
    reveal(spec_program_from);
}

/// A program that gets stuck at a statement is stuck as a whole.
proof fn lemma_program_stuck(toks: Seq<TokenV>, p: int)
    requires
        0 <= p < toks.len(),
        spec_statement(toks, p) is Stuck,
    ensures
        spec_program_from(toks, p).stuck,
{
    reveal(spec_program_from);
}

/// Nothing is left to parse at the end of the tokens.
proof fn lemma_program_end(toks: Seq<TokenV>, p: int)
    requires
        p >= toks.len(),
    ensures
        spec_program_from(toks, p) == (super::spec::ProgramV {
            statements: Seq::empty(),
            errors: Seq::empty(),
            stuck: false,
        }),
{
    reveal(spec_program_from);
}

impl Parser {
    /// Parses the remaining tokens: the program, or every error met, where
    /// parsing goes on after an error from the token after the next `;`.
    /// `None` where parsing gets stuck on a call of something that is neither
    /// a name nor a function literal.
    pub fn try_parse(self) -> (r: Option<Result<Program, ParseErrors>>)
        requires
            self.wf(),
        ensures
            match r {
                None => spec_parse_at(self.toks(), self.position()) is None,
                Some(Ok(program)) => spec_parse_at(self.toks(), self.position()) == Some(
                    Ok::<Seq<crate::ast::StmtV>, Seq<super::error::ParseErrorV>>(program@),
                ),
                Some(Err(errors)) => spec_parse_at(self.toks(), self.position()) == Some(
                    Err::<Seq<crate::ast::StmtV>, Seq<super::error::ParseErrorV>>(
                        parse_errors_view(errors.errors@),
                    ),
                ),
            },
    {
        let ghost toks = self.toks();
        let ghost p0 = self.pos as int;
        let mut parser = self;
        let mut statements: Vec<Statement> = Vec::new();
        let mut errors: Vec<ParseError> = Vec::new();
        assert(parse_errors_view(errors@) =~= Seq::<super::error::ParseErrorV>::empty());
        while parser.pos < parser.tokens.len()
            invariant
                parser.wf(),
                parser.toks() == toks,
                toks == self.toks(),
                p0 == self.position(),
                p0 <= parser.pos,
                ({
                    let whole = spec_program_from(toks, p0);
                    let rest = spec_program_from(toks, parser.pos as int);
                    &&& whole.statements == stmts_view(statements@) + rest.statements
                    &&& whole.errors == parse_errors_view(errors@) + rest.errors
                    &&& whole.stuck == rest.stuck
                }),
            decreases parser.tokens.len() - parser.pos,
        {
            proof {
                parser.lemma_len();
            }
            let ghost p = parser.pos as int;
            let ghost before_s = statements@;
            let ghost before_e = errors@;
            let r = parser.program_statement();
            proof {
                if !(r is Stuck) {
                    lemma_program_step(toks, p, parser.pos as int);
                }
            }
            match r {
                Parsed::Done(s) => {
                    proof {
                        lemma_stmts_push(before_s, s);
                    }
                    statements.push(s);
                    proof {
                        let rest = spec_program_from(toks, parser.pos as int);
                        assert(stmts_view(statements@) + rest.statements =~= stmts_view(before_s) + (
                        seq![s@] + rest.statements));
                    }
                },
                Parsed::Failed(e) => {
                    errors.push(e);
                    proof {
                        let rest = spec_program_from(toks, parser.pos as int);
                        assert(parse_errors_view(errors@) =~= parse_errors_view(before_e).push(e@));
                        assert(parse_errors_view(errors@) + rest.errors =~= parse_errors_view(before_e) + (
                        seq![e@] + rest.errors));
                    }
                },
                Parsed::Stuck => {
                    proof {
                        lemma_program_stuck(toks, p);
                    }
                    return None;
                },
            }
        }
        proof {
            lemma_program_end(toks, parser.pos as int);
            let rest = spec_program_from(toks, parser.pos as int);
            assert(rest.statements =~= Seq::<crate::ast::StmtV>::empty());
            assert(rest.errors =~= Seq::<super::error::ParseErrorV>::empty());
            assert(stmts_view(statements@) + rest.statements =~= stmts_view(statements@));
            assert(parse_errors_view(errors@) + rest.errors =~= parse_errors_view(errors@));
        }
        if errors.len() > 0 {
            Some(Err(ParseErrors { errors }))
        } else {
            assert(parse_errors_view(errors@) =~= Seq::<super::error::ParseErrorV>::empty());
            Some(Ok(Program { statements }))
        }
    }
}

/// An expression parsed at a position, and where reading stopped: the value
/// or the error that `spec` gives there.
pub open spec fn expr_result_matches(
    r: Result<Expression, ParseError>,
    pos: int,
    s: ParseOutcome<crate::ast::ExprV>,
) -> bool {
    match r {
        Ok(e) => s == ParseOutcome::Value(e@, pos),
        Err(e) => s == ParseOutcome::<crate::ast::ExprV>::Fail(e@, pos),
    }
}

impl Parser {
    /// Parses the remaining tokens: the program, or every error met. Parsing
    /// must not get stuck on them (see `try_parse`).
    pub fn parse(self) -> (r: Result<Program, ParseErrors>)
        requires
            self.wf(),
            spec_parse_at(self.toks(), self.position()) is Some,
        ensures
            match r {
                Ok(program) => spec_parse_at(self.toks(), self.position()) == Some(
                    Ok::<Seq<crate::ast::StmtV>, Seq<super::error::ParseErrorV>>(program@),
                ),
                Err(errors) => spec_parse_at(self.toks(), self.position()) == Some(
                    Err::<Seq<crate::ast::StmtV>, Seq<super::error::ParseErrorV>>(
                        parse_errors_view(errors.errors@),
                    ),
                ),
            },
    {
        match self.try_parse() {
            Some(r) => r,
            None => Ok(Program { statements: Vec::new() }),
        }
    }

    /// Converts a parsing step that cannot be stuck.
    fn into_result(r: Parsed<Expression>) -> (out: Result<Expression, ParseError>)
        requires
            !(r is Stuck),
        ensures
            match r {
                Parsed::Done(e) => out == Ok::<Expression, ParseError>(e),
                Parsed::Failed(e) => out == Err::<Expression, ParseError>(e),
                Parsed::Stuck => false,
            },
    {
        match r {
            Parsed::Done(e) => Ok(e),
            Parsed::Failed(e) => Err(e),
            Parsed::Stuck => Err(ParseError { expected: ParseErrorExpected::Expression, received: None }),
        }
    }

    /// The next expression, whose operators bind more strongly than
    /// `precedence`.
    pub fn next_expression(&mut self, precedence: Precedence) -> (r: Result<Expression, ParseError>)
        requires
            old(self).wf(),
            !(spec_expr(old(self).toks(), old(self).position(), spec_rank(precedence)) is Stuck),
        ensures
            final(self).wf(),
            final(self).toks() == old(self).toks(),
            expr_result_matches(
                r,
                final(self).position(),
                spec_expr(old(self).toks(), old(self).position(), spec_rank(precedence)),
            ),
    {
        let r = self.expr(precedence);
        Self::into_result(r)
    }

    /// A list literal, after its `[`.
    pub fn parse_list_expression(&mut self) -> (r: Result<Expression, ParseError>)
        requires
            old(self).wf(),
            !(spec_list(old(self).toks(), old(self).position()) is Stuck),
        ensures
            final(self).wf(),
            final(self).toks() == old(self).toks(),
            expr_result_matches(
                r,
                final(self).position(),
                spec_list(old(self).toks(), old(self).position()),
            ),
    {
        let r = self.list();
        Self::into_result(r)
    }

    /// A call of `function`, after its `(`. The callee must be a name or a
    /// function literal where the arguments and `)` follow.
    pub fn parse_call_expression(&mut self, function: Expression) -> (r: Result<
        Expression,
        ParseError,
    >)
        requires
            old(self).wf(),
            !(spec_call(old(self).toks(), function@, old(self).position()) is Stuck),
        ensures
            final(self).wf(),
            final(self).toks() == old(self).toks(),
            expr_result_matches(
                r,
                final(self).position(),
                spec_call(old(self).toks(), function@, old(self).position()),
            ),
    {
        let r = self.call(function);
        Self::into_result(r)
    }

    /// A function literal, after its `fn`.
    pub fn parse_function_expression(&mut self) -> (r: Result<Expression, ParseError>)
        requires
            old(self).wf(),
            !(spec_function(old(self).toks(), old(self).position()) is Stuck),
        ensures
            final(self).wf(),
            final(self).toks() == old(self).toks(),
            expr_result_matches(
                r,
                final(self).position(),
                spec_function(old(self).toks(), old(self).position()),
            ),
    {
        let r = self.function();
        Self::into_result(r)
    }

    /// An `if` expression, after its `if`.
    pub fn parse_if_expression(&mut self) -> (r: Result<Expression, ParseError>)
        requires
            old(self).wf(),
            !(spec_if(old(self).toks(), old(self).position()) is Stuck),
        ensures
            final(self).wf(),
            final(self).toks() == old(self).toks(),
            expr_result_matches(
                r,
                final(self).position(),
                spec_if(old(self).toks(), old(self).position()),
            ),
    {
        let r = self.if_expr();
        Self::into_result(r)
    }
}

impl Parser {
    /// The next statement, or its error (after which the tokens up to the
    /// next `;` are skipped); `None` at the end of the tokens. Parsing the
    /// statement must not get stuck.
    pub fn next_statement(&mut self) -> (r: Option<Result<Statement, ParseError>>)
        requires
            old(self).wf(),
            old(self).position() < old(self).toks().len() ==> !(spec_statement(
                old(self).toks(),
                old(self).position(),
            ) is Stuck),
        ensures
            final(self).wf(),
            final(self).toks() == old(self).toks(),
            match r {
                None => old(self).position() >= old(self).toks().len() && final(self).position()
                    == old(self).position(),
                Some(Ok(st)) => spec_statement(old(self).toks(), old(self).position())
                    == ParseOutcome::Value(st@, final(self).position()),
                Some(Err(e)) => spec_statement(old(self).toks(), old(self).position())
                    == ParseOutcome::<crate::ast::StmtV>::Fail(e@, final(self).position()),
            },
    {
        proof {
            self.lemma_len();
        }
        if self.pos >= self.tokens.len() {
            return None;
        }
        match self.program_statement() {
            Parsed::Done(st) => Some(Ok(st)),
            Parsed::Failed(e) => Some(Err(e)),
            Parsed::Stuck => None,
        }
    }
}

} // verus!
