//! The meaning of parsing: a recursive-descent parser with operator
//! precedence, stated over token sequences and positions.
use vstd::prelude::*;
use crate::ast::{CallV, ExprV, FuncV, Operator, StmtV};
use crate::token::TokenV;
use super::error::{ParseErrorExpected, ParseErrorV};

verus! {

/// The outcome of parsing from a position: a value and the position after
/// it, an error and the position where reading stopped, or `Stuck` where
/// parsing cannot go on: a call whose callee is neither a name nor a function
/// literal. (The definitions also give `Stuck` where a step would not move
/// forward; they need that to be well founded, and the parser always moves
/// forward.)
pub enum ParseOutcome<T> {
    Value(T, int),
    Fail(ParseErrorV, int),
    Stuck,
}

/// Binding strength of operators, from weakest to strongest.
pub open spec fn spec_token_precedence(t: TokenV) -> nat {
    match t {
        TokenV::Equal | TokenV::NotEqual => 1,
        TokenV::LessThan | TokenV::GreaterThan => 2,
        TokenV::Plus | TokenV::Minus => 3,
        TokenV::Slash | TokenV::Asterisk => 4,
        TokenV::LParen => 6,
        TokenV::LBracket => 7,
        _ => 0,
    }
}

/// The precedence of prefix operators.
pub open spec fn prefix_precedence() -> nat {
    5
}

/// The operator of an infix operator token.
pub open spec fn spec_infix_operator(t: TokenV) -> Option<Operator> {
    match t {
        TokenV::Plus => Some(Operator::Plus),
        TokenV::Minus => Some(Operator::Minus),
        TokenV::Slash => Some(Operator::Divide),
        TokenV::Asterisk => Some(Operator::Multiply),
        TokenV::Equal => Some(Operator::Equal),
        TokenV::NotEqual => Some(Operator::NotEqual),
        TokenV::LessThan => Some(Operator::LessThan),
        TokenV::GreaterThan => Some(Operator::GreaterThan),
        _ => None,
    }
}

pub open spec fn peek(toks: Seq<TokenV>, p: int) -> Option<TokenV> {
    if 0 <= p < toks.len() {
        Some(toks[p])
    } else {
        None
    }
}

/// The position after reading one token (unchanged at the end).
pub open spec fn next_pos(toks: Seq<TokenV>, p: int) -> int {
    if 0 <= p < toks.len() {
        p + 1
    } else {
        p
    }
}

pub open spec fn perr(expected: ParseErrorExpected, received: Option<TokenV>) -> ParseErrorV {
    ParseErrorV { expected, received }
}

/// Whether parsing moved forward from `p` to `q` within the tokens.
pub open spec fn advanced(toks: Seq<TokenV>, p: int, q: int) -> bool {
    p < q <= toks.len()
}

/// After a closing token that must come at `q`: the value and the position
/// after the closing token, or an error naming the token found instead.
pub open spec fn spec_close<T>(
    toks: Seq<TokenV>,
    v: T,
    q: int,
    closing: TokenV,
    expected: ParseErrorExpected,
) -> ParseOutcome<T> {
    if peek(toks, q) == Some(closing) {
        ParseOutcome::Value(v, q + 1)
    } else {
        ParseOutcome::Fail(perr(expected, peek(toks, q)), next_pos(toks, q))
    }
}

/// An expression whose operators bind more strongly than `prec`.
pub open spec fn spec_expr(toks: Seq<TokenV>, p: int, prec: nat) -> ParseOutcome<ExprV>
    decreases toks.len() - p, 5nat,
{
    if p < 0 || p >= toks.len() {
        ParseOutcome::Fail(perr(ParseErrorExpected::Expression, None), p)
    } else {
        match spec_prefix(toks, toks[p], p + 1) {
            ParseOutcome::Value(left, q) => if advanced(toks, p, q) {
                spec_infix(toks, prec, left, q)
            } else {
                ParseOutcome::Stuck
            },
            ParseOutcome::Fail(e, q) => ParseOutcome::Fail(e, q),
            ParseOutcome::Stuck => ParseOutcome::Stuck,
        }
    }
}

/// Extends `left` with infix operators that bind more strongly than `prec`.
pub open spec fn spec_infix(toks: Seq<TokenV>, prec: nat, left: ExprV, p: int) -> ParseOutcome<ExprV>
    decreases toks.len() - p, 4nat,
{
    if p < 0 || p >= toks.len() {
        ParseOutcome::Value(left, p)
    } else {
        let t = toks[p];
        if t == TokenV::Semicolon || prec >= spec_token_precedence(t) {
            ParseOutcome::Value(left, p)
        } else {
            match spec_infix_token(toks, left, t, p + 1) {
                ParseOutcome::Value(e, q) => if advanced(toks, p, q) {
                    spec_infix(toks, prec, e, q)
                } else {
                    ParseOutcome::Stuck
                },
                ParseOutcome::Fail(e, q) => ParseOutcome::Fail(e, q),
                ParseOutcome::Stuck => ParseOutcome::Stuck,
            }
        }
    }
}

/// What follows the infix token `t`: the right operand, the arguments of a
/// call, or an index.
pub open spec fn spec_infix_token(toks: Seq<TokenV>, left: ExprV, t: TokenV, p: int) -> ParseOutcome<ExprV>
    decreases toks.len() - p, 8nat,
{
    if p < 0 || p > toks.len() {
        ParseOutcome::Stuck
    } else {
        match spec_infix_operator(t) {
            Some(op) => match spec_expr(toks, p, spec_token_precedence(t)) {
                ParseOutcome::Value(right, q) => ParseOutcome::Value(
                    ExprV::Infix { operator: op, left: Box::new(left), right: Box::new(right) },
                    q,
                ),
                ParseOutcome::Fail(e, q) => ParseOutcome::Fail(e, q),
                ParseOutcome::Stuck => ParseOutcome::Stuck,
            },
            None => if t == TokenV::LParen {
                spec_call(toks, left, p)
            } else if t == TokenV::LBracket {
                spec_index(toks, left, p)
            } else {
                ParseOutcome::Fail(perr(ParseErrorExpected::Expression, Some(t)), p)
            },
        }
    }
}

/// An index into `left`, after `[`: one expression and `]`.
pub open spec fn spec_index(toks: Seq<TokenV>, left: ExprV, p: int) -> ParseOutcome<ExprV>
    decreases toks.len() - p, 6nat,
{
    if p < 0 || p > toks.len() {
        ParseOutcome::Stuck
    } else {
        match spec_expr(toks, p, 0) {
            ParseOutcome::Value(index, q) => if peek(toks, q) == Some(TokenV::RBracket) {
                ParseOutcome::Value(ExprV::Index { left: Box::new(left), index: Box::new(index) }, q + 1)
            } else {
                ParseOutcome::Fail(perr(ParseErrorExpected::SingleIndex, peek(toks, q)), next_pos(toks, q))
            },
            ParseOutcome::Fail(e, q) => ParseOutcome::Fail(perr(ParseErrorExpected::SingleIndex, e.received), q),
            ParseOutcome::Stuck => ParseOutcome::Stuck,
        }
    }
}

/// A call of `function`, after `(`: the arguments and `)`. A callee other
/// than a name or a function literal is stuck.
pub open spec fn spec_call(toks: Seq<TokenV>, function: ExprV, p: int) -> ParseOutcome<ExprV>
    decreases toks.len() - p, 7nat,
{
    if p < 0 || p > toks.len() {
        ParseOutcome::Stuck
    } else {
        match spec_call_args(toks, Seq::empty(), p) {
            ParseOutcome::Value(args, q) => if peek(toks, q) == Some(TokenV::RParen) {
                match function {
                    ExprV::Identifier(n) => ParseOutcome::Value(
                        ExprV::Call { function: CallV::Identifier(n), arguments: args },
                        q + 1,
                    ),
                    ExprV::FunctionLiteral(f) => ParseOutcome::Value(
                        ExprV::Call { function: CallV::Literal(f), arguments: args },
                        q + 1,
                    ),
                    _ => ParseOutcome::Stuck,
                }
            } else {
                ParseOutcome::Fail(
                    perr(ParseErrorExpected::ClosingParenthesis, peek(toks, q)),
                    next_pos(toks, q),
                )
            },
            ParseOutcome::Fail(e, q) => ParseOutcome::Fail(e, q),
            ParseOutcome::Stuck => ParseOutcome::Stuck,
        }
    }
}

/// Call arguments up to (not including) `)`, separated by commas.
pub open spec fn spec_call_args(toks: Seq<TokenV>, prev: Seq<ExprV>, p: int) -> ParseOutcome<Seq<ExprV>>
    decreases toks.len() - p, 6nat,
{
    if p < 0 || p > toks.len() {
        ParseOutcome::Stuck
    } else if p == toks.len() {
        ParseOutcome::Fail(perr(ParseErrorExpected::ClosingParenthesis, None), p)
    } else if toks[p] == TokenV::RParen {
        ParseOutcome::Value(prev, p)
    } else if toks[p] == TokenV::Comma {
        spec_call_args(toks, prev, p + 1)
    } else {
        match spec_expr(toks, p, 0) {
            ParseOutcome::Value(e, q) => if advanced(toks, p, q) {
                spec_call_args(toks, prev.push(e), q)
            } else {
                ParseOutcome::Stuck
            },
            ParseOutcome::Fail(e, q) => ParseOutcome::Fail(e, q),
            ParseOutcome::Stuck => ParseOutcome::Stuck,
        }
    }
}

/// A list literal, after `[`: the elements and `]`.
pub open spec fn spec_list(toks: Seq<TokenV>, p: int) -> ParseOutcome<ExprV>
    decreases toks.len() - p, 7nat,
{
    if p < 0 || p > toks.len() {
        ParseOutcome::Stuck
    } else {
        match spec_list_values(toks, Seq::empty(), p) {
            ParseOutcome::Value(vs, q) => spec_close(
                toks,
                ExprV::ListLiteral(vs),
                q,
                TokenV::RBracket,
                ParseErrorExpected::ClosingBracket,
            ),
            ParseOutcome::Fail(e, q) => ParseOutcome::Fail(e, q),
            ParseOutcome::Stuck => ParseOutcome::Stuck,
        }
    }
}

/// List elements up to (not including) `]`, separated by commas.
pub open spec fn spec_list_values(toks: Seq<TokenV>, prev: Seq<ExprV>, p: int) -> ParseOutcome<Seq<ExprV>>
    decreases toks.len() - p, 6nat,
{
    if p < 0 || p > toks.len() {
        ParseOutcome::Stuck
    } else if p < toks.len() && toks[p] == TokenV::RBracket {
        ParseOutcome::Value(prev, p)
    } else if p < toks.len() && toks[p] == TokenV::Comma {
        spec_list_values(toks, prev, p + 1)
    } else {
        match spec_expr(toks, p, 0) {
            ParseOutcome::Value(e, q) => if advanced(toks, p, q) {
                spec_list_values(toks, prev.push(e), q)
            } else {
                ParseOutcome::Stuck
            },
            ParseOutcome::Fail(e, q) => ParseOutcome::Fail(e, q),
            ParseOutcome::Stuck => ParseOutcome::Stuck,
        }
    }
}

/// The expression that starts with token `t` (already read); `p` is the
/// position after `t`.
pub open spec fn spec_prefix(toks: Seq<TokenV>, t: TokenV, p: int) -> ParseOutcome<ExprV>
    decreases toks.len() - p, 8nat,
{
    if p < 0 || p > toks.len() {
        ParseOutcome::Stuck
    } else {
        match t {
            TokenV::Identifier(n) => ParseOutcome::Value(ExprV::Identifier(n), p),
            TokenV::Int(v) => ParseOutcome::Value(ExprV::IntegerLiteral(v), p),
            TokenV::Str(s) => ParseOutcome::Value(ExprV::StringLiteral(s), p),
            TokenV::Bang => match spec_expr(toks, p, prefix_precedence()) {
                ParseOutcome::Value(r, q) => ParseOutcome::Value(ExprV::Prefix { operator: Operator::Not, right: Box::new(r) }, q),
                ParseOutcome::Fail(e, q) => ParseOutcome::Fail(e, q),
                ParseOutcome::Stuck => ParseOutcome::Stuck,
            },
            TokenV::Minus => match spec_expr(toks, p, prefix_precedence()) {
                ParseOutcome::Value(r, q) => ParseOutcome::Value(ExprV::Prefix { operator: Operator::Minus, right: Box::new(r) }, q),
                ParseOutcome::Fail(e, q) => ParseOutcome::Fail(e, q),
                ParseOutcome::Stuck => ParseOutcome::Stuck,
            },
            TokenV::True => ParseOutcome::Value(ExprV::Boolean(true), p),
            TokenV::False => ParseOutcome::Value(ExprV::Boolean(false), p),
            TokenV::LParen => match spec_expr(toks, p, 0) {
                ParseOutcome::Value(e, q) => spec_close(toks, e, q, TokenV::RParen, ParseErrorExpected::ClosingParenthesis),
                ParseOutcome::Fail(e, q) => ParseOutcome::Fail(e, q),
                ParseOutcome::Stuck => ParseOutcome::Stuck,
            },
            TokenV::LBracket => spec_list(toks, p),
            TokenV::If => spec_if(toks, p),
            TokenV::Function => spec_function(toks, p),
            _ => ParseOutcome::Fail(perr(ParseErrorExpected::PrefixTokenOrExpression, Some(t)), p),
        }
    }
}

/// A `{`-block after reading token `t`: an error for anything but `{`.
pub open spec fn spec_braced_block(
    toks: Seq<TokenV>,
    p: int,
    missing: ParseErrorExpected,
    wrong: ParseErrorExpected,
) -> ParseOutcome<Seq<StmtV>>
    decreases toks.len() - p, 11nat,
{
    if p < 0 || p > toks.len() {
        ParseOutcome::Stuck
    } else if p == toks.len() {
        ParseOutcome::Fail(perr(missing, None), p)
    } else if toks[p] == TokenV::LBrace {
        spec_block(toks, Seq::empty(), p + 1)
    } else {
        ParseOutcome::Fail(perr(wrong, Some(toks[p])), p + 1)
    }
}

/// An `if` expression, after `if`: `(condition)`, a `{`-block, and an optional
/// `else` with a `{`-block.
pub open spec fn spec_if(toks: Seq<TokenV>, p: int) -> ParseOutcome<ExprV>
    decreases toks.len() - p, 7nat,
{
    if p < 0 || p > toks.len() {
        ParseOutcome::Stuck
    } else if p == toks.len() {
        ParseOutcome::Fail(perr(ParseErrorExpected::ParenthesisForIfCondition, None), p)
    } else if toks[p] != TokenV::LParen {
        ParseOutcome::Fail(perr(ParseErrorExpected::ParenthesisForIfCondition, Some(toks[p])), p + 1)
    } else {
        match spec_expr(toks, p + 1, 0) {
            ParseOutcome::Value(c, q) => match spec_close(toks, c, q, TokenV::RParen, ParseErrorExpected::ClosingParenthesis) {
                ParseOutcome::Value(c, q2) => if !advanced(toks, p, q2) {
                    ParseOutcome::Stuck
                } else {
                    match spec_braced_block(
                        toks,
                        q2,
                        ParseErrorExpected::ParenthesisForIfCondition,
                        ParseErrorExpected::ParenthesisForIfCondition,
                    ) {
                        ParseOutcome::Value(cons, q3) => if !advanced(toks, p, q3) {
                            ParseOutcome::Stuck
                        } else if q3 < toks.len() && toks[q3] == TokenV::Else {
                            match spec_braced_block(
                                toks,
                                q3 + 1,
                                ParseErrorExpected::ParenthesisForIfCondition,
                                ParseErrorExpected::ParenthesisForIfCondition,
                            ) {
                                ParseOutcome::Value(alt, q4) => ParseOutcome::Value(
                                    ExprV::If { condition: Box::new(c), consequence: cons, alternative: alt },
                                    q4,
                                ),
                                ParseOutcome::Fail(e, q4) => ParseOutcome::Fail(e, q4),
                                ParseOutcome::Stuck => ParseOutcome::Stuck,
                            }
                        } else {
                            ParseOutcome::Value(
                                ExprV::If { condition: Box::new(c), consequence: cons, alternative: Seq::empty() },
                                q3,
                            )
                        },
                        ParseOutcome::Fail(e, q3) => ParseOutcome::Fail(e, q3),
                        ParseOutcome::Stuck => ParseOutcome::Stuck,
                    }
                },
                ParseOutcome::Fail(e, q2) => ParseOutcome::Fail(e, q2),
                ParseOutcome::Stuck => ParseOutcome::Stuck,
            },
            ParseOutcome::Fail(e, q) => ParseOutcome::Fail(e, q),
            ParseOutcome::Stuck => ParseOutcome::Stuck,
        }
    }
}

/// Function parameters up to (not including) `)`: names separated by commas.
pub open spec fn spec_params(toks: Seq<TokenV>, prev: Seq<Seq<char>>, p: int) -> ParseOutcome<Seq<Seq<char>>>
    decreases toks.len() - p,
{
    if p < 0 || p >= toks.len() {
        ParseOutcome::Fail(perr(ParseErrorExpected::ClosingParenthesis, None), p)
    } else {
        match toks[p] {
            TokenV::RParen => ParseOutcome::Value(prev, p),
            TokenV::Comma => spec_params(toks, prev, p + 1),
            TokenV::Identifier(n) => spec_params(toks, prev.push(n), p + 1),
            t => ParseOutcome::Fail(perr(ParseErrorExpected::ParameterForFunction, Some(t)), p + 1),
        }
    }
}

/// A function literal, after `fn`: `(parameters)` and a `{`-block.
pub open spec fn spec_function(toks: Seq<TokenV>, p: int) -> ParseOutcome<ExprV>
    decreases toks.len() - p, 7nat,
{
    if p < 0 || p > toks.len() {
        ParseOutcome::Stuck
    } else if p == toks.len() {
        ParseOutcome::Fail(perr(ParseErrorExpected::ParenthesisForFunctionParams, None), p)
    } else if toks[p] != TokenV::LParen {
        ParseOutcome::Fail(perr(ParseErrorExpected::ParenthesisForFunctionParams, Some(toks[p])), p + 1)
    } else {
        match spec_params(toks, Seq::empty(), p + 1) {
            ParseOutcome::Value(ps, q) => match spec_close(toks, ps, q, TokenV::RParen, ParseErrorExpected::ClosingParenthesis) {
                ParseOutcome::Value(ps, q2) => if !advanced(toks, p, q2) {
                    ParseOutcome::Stuck
                } else {
                    match spec_braced_block(
                        toks,
                        q2,
                        ParseErrorExpected::ParenthesisForFunctionBody,
                        ParseErrorExpected::ParenthesisForIfCondition,
                    ) {
                        ParseOutcome::Value(body, q3) => ParseOutcome::Value(ExprV::FunctionLiteral(FuncV { params: ps, body }), q3),
                        ParseOutcome::Fail(e, q3) => ParseOutcome::Fail(e, q3),
                        ParseOutcome::Stuck => ParseOutcome::Stuck,
                    }
                },
                ParseOutcome::Fail(e, q2) => ParseOutcome::Fail(e, q2),
                ParseOutcome::Stuck => ParseOutcome::Stuck,
            },
            ParseOutcome::Fail(e, q) => ParseOutcome::Fail(e, q),
            ParseOutcome::Stuck => ParseOutcome::Stuck,
        }
    }
}

/// Statements up to a closing `}` (which is read) or the end of the tokens.
pub open spec fn spec_block(toks: Seq<TokenV>, prev: Seq<StmtV>, p: int) -> ParseOutcome<Seq<StmtV>>
    decreases toks.len() - p, 10nat,
{
    if p < 0 || p > toks.len() {
        ParseOutcome::Stuck
    } else if p == toks.len() {
        ParseOutcome::Value(prev, p)
    } else if toks[p] == TokenV::RBrace {
        ParseOutcome::Value(prev, p + 1)
    } else {
        match spec_stmt(toks, p) {
            ParseOutcome::Value(s, q) => if advanced(toks, p, q) {
                spec_block(toks, prev.push(s), q)
            } else {
                ParseOutcome::Stuck
            },
            ParseOutcome::Fail(e, q) => ParseOutcome::Fail(e, q),
            ParseOutcome::Stuck => ParseOutcome::Stuck,
        }
    }
}

/// The position after skipping tokens up to and including the next `;`.
pub open spec fn spec_skip(toks: Seq<TokenV>, p: int) -> int
    decreases toks.len() - p,
{
    if p < 0 || p >= toks.len() {
        p
    } else if toks[p] == TokenV::Semicolon {
        p + 1
    } else {
        spec_skip(toks, p + 1)
    }
}

/// Reads an optional `;` after a statement.
pub open spec fn spec_semicolon<T>(toks: Seq<TokenV>, r: ParseOutcome<T>) -> ParseOutcome<T> {
    match r {
        ParseOutcome::Value(v, q) => ParseOutcome::Value(v, if peek(toks, q) == Some(TokenV::Semicolon) { q + 1 } else { q }),
        ParseOutcome::Fail(e, q) => ParseOutcome::Fail(e, if peek(toks, q) == Some(TokenV::Semicolon) { q + 1 } else { q }),
        ParseOutcome::Stuck => ParseOutcome::Stuck,
    }
}

/// A statement without error recovery: `let name = expression`, `return
/// expression`, or an expression, each with an optional `;`.
pub open spec fn spec_stmt_raw(toks: Seq<TokenV>, p: int) -> ParseOutcome<StmtV>
    decreases toks.len() - p, 8nat,
{
    if p < 0 || p >= toks.len() {
        ParseOutcome::Stuck
    } else if toks[p] == TokenV::Let {
        let p1 = p + 1;
        if p1 >= toks.len() {
            ParseOutcome::Fail(perr(ParseErrorExpected::Identifier, None), p1)
        } else {
            match toks[p1] {
                TokenV::Identifier(name) => {
                    let p2 = p1 + 1;
                    if p2 >= toks.len() {
                        ParseOutcome::Fail(perr(ParseErrorExpected::Assignment, None), p2)
                    } else if toks[p2] != TokenV::Assign {
                        ParseOutcome::Fail(perr(ParseErrorExpected::Assignment, Some(toks[p2])), p2 + 1)
                    } else {
                        spec_semicolon(
                            toks,
                            match spec_expr(toks, p2 + 1, 0) {
                                ParseOutcome::Value(e, q) => ParseOutcome::Value(StmtV::Let(name, e), q),
                                ParseOutcome::Fail(e, q) => ParseOutcome::Fail(e, q),
                                ParseOutcome::Stuck => ParseOutcome::Stuck,
                            },
                        )
                    }
                },
                t => ParseOutcome::Fail(perr(ParseErrorExpected::Identifier, Some(t)), p1 + 1),
            }
        }
    } else if toks[p] == TokenV::Return {
        spec_semicolon(
            toks,
            match spec_expr(toks, p + 1, 0) {
                ParseOutcome::Value(e, q) => ParseOutcome::Value(StmtV::Return(e), q),
                ParseOutcome::Fail(e, q) => ParseOutcome::Fail(e, q),
                ParseOutcome::Stuck => ParseOutcome::Stuck,
            },
        )
    } else {
        spec_semicolon(
            toks,
            match spec_expr(toks, p, 0) {
                ParseOutcome::Value(e, q) => ParseOutcome::Value(StmtV::Expression(e), q),
                ParseOutcome::Fail(e, q) => ParseOutcome::Fail(e, q),
                ParseOutcome::Stuck => ParseOutcome::Stuck,
            },
        )
    }
}

/// A statement; after an error the tokens up to the next `;` are skipped, so
/// that parsing can go on with the next statement.
pub open spec fn spec_stmt(toks: Seq<TokenV>, p: int) -> ParseOutcome<StmtV>
    decreases toks.len() - p, 9nat,
{
    if p < 0 || p >= toks.len() {
        ParseOutcome::Stuck
    } else {
        match spec_stmt_raw(toks, p) {
            ParseOutcome::Fail(e, q) => ParseOutcome::Fail(e, spec_skip(toks, q)),
            other => other,
        }
    }
}

/// The statement at `p`, as the program reads it.
#[verifier::opaque]
pub open spec fn spec_statement(toks: Seq<TokenV>, p: int) -> ParseOutcome<StmtV> {
    spec_stmt(toks, p)
}

/// What parsing a whole token sequence from `p` gives: the statements parsed,
/// the errors met, and whether it got stuck.
pub struct ProgramV {
    pub statements: Seq<StmtV>,
    pub errors: Seq<ParseErrorV>,
    pub stuck: bool,
}

/// Parses statements from `p` to the end, going on after errors.
#[verifier::opaque]
pub open spec fn spec_program_from(toks: Seq<TokenV>, p: int) -> ProgramV
    decreases toks.len() - p,
{
    if p < 0 || p >= toks.len() {
        ProgramV { statements: Seq::empty(), errors: Seq::empty(), stuck: false }
    } else {
        match spec_statement(toks, p) {
            ParseOutcome::Value(s, q) => if advanced(toks, p, q) {
                let rest = spec_program_from(toks, q);
                ProgramV { statements: seq![s] + rest.statements, errors: rest.errors, stuck: rest.stuck }
            } else {
                ProgramV { statements: Seq::empty(), errors: Seq::empty(), stuck: true }
            },
            ParseOutcome::Fail(e, q) => if advanced(toks, p, q) {
                let rest = spec_program_from(toks, q);
                ProgramV { statements: rest.statements, errors: seq![e] + rest.errors, stuck: rest.stuck }
            } else {
                ProgramV { statements: Seq::empty(), errors: Seq::empty(), stuck: true }
            },
            ParseOutcome::Stuck => ProgramV { statements: Seq::empty(), errors: Seq::empty(), stuck: true },
        }
    }
}

/// The program that the tokens from `p` on parse to, or the errors met;
/// `None` when parsing gets stuck.
pub open spec fn spec_parse_at(toks: Seq<TokenV>, p: int) -> Option<Result<Seq<StmtV>, Seq<ParseErrorV>>> {
    let r = spec_program_from(toks, p);
    if r.stuck {
        None
    } else if r.errors.len() > 0 {
        Some(Err(r.errors))
    } else {
        Some(Ok(r.statements))
    }
}

/// The program a token sequence parses to, or the errors met; `None` when
/// parsing gets stuck.
pub open spec fn spec_parse(toks: Seq<TokenV>) -> Option<Result<Seq<StmtV>, Seq<ParseErrorV>>> {
    spec_parse_at(toks, 0)
}

/// A prefix operator binds more loosely than a call or an index: for `-` or
/// `!` followed by a name `a` and then a call `(...)` or an index `[...]`
/// that runs to the end of the tokens, the operator applies to the whole call
/// or index, as in `-a[i]` = `-(a[i])` and `!f(x)` = `!(f(x))`.
pub proof fn lemma_prefix_applies_to_call_and_index(
    toks: Seq<TokenV>,
    p: int,
    prec: nat,
    a: Seq<char>,
    operand: ExprV,
)
    requires
        0 <= p,
        p + 3 <= toks.len(),
        toks[p] == TokenV::Minus || toks[p] == TokenV::Bang,
        toks[p + 1] == TokenV::Identifier(a),
        toks[p + 2] == TokenV::LParen || toks[p + 2] == TokenV::LBracket,
        spec_infix_token(toks, ExprV::Identifier(a), toks[p + 2], p + 3) == ParseOutcome::Value(
            operand,
            toks.len() as int,
        ),
    ensures
        spec_expr(toks, p, prec) == ParseOutcome::Value(
            ExprV::Prefix {
                operator: if toks[p] == TokenV::Minus {
                    Operator::Minus
                } else {
                    Operator::Not
                },
                right: Box::new(operand),
            },
            toks.len() as int,
        ),
        toks[p + 2] == TokenV::LBracket ==> (operand is Index && operand->Index_left == Box::new(
            ExprV::Identifier(a),
        )),
        toks[p + 2] == TokenV::LParen ==> (operand is Call && operand->Call_function == CallV::Identifier(a)),
{
    let n = toks.len() as int;
    assert(spec_prefix(toks, toks[p + 1], p + 2) == ParseOutcome::Value(ExprV::Identifier(a), p + 2));
    assert(spec_infix(toks, prefix_precedence(), operand, n) == ParseOutcome::Value(operand, n));
    assert(spec_token_precedence(toks[p + 2]) > prefix_precedence());
    assert(spec_infix(toks, prefix_precedence(), ExprV::Identifier(a), p + 2) == ParseOutcome::Value(
        operand,
        n,
    ));
    assert(spec_expr(toks, p + 1, prefix_precedence()) == ParseOutcome::Value(operand, n));
    let op = if toks[p] == TokenV::Minus {
        Operator::Minus
    } else {
        Operator::Not
    };
    let e = ExprV::Prefix { operator: op, right: Box::new(operand) };
    assert(spec_prefix(toks, toks[p], p + 1) == ParseOutcome::Value(e, n));
    assert(spec_infix(toks, prec, e, n) == ParseOutcome::Value(e, n));
}

/// A prefix operator binds more tightly than any infix operator: for `-` or
/// `!` followed by a name `a` and then an infix operator and its right
/// operand running to the end of the tokens, the prefix operator applies to
/// `a` alone, as in `-a * b` = `(-a) * b` and `!a == b` = `(!a) == b`.
pub proof fn lemma_prefix_binds_tighter_than_infix(
    toks: Seq<TokenV>,
    p: int,
    a: Seq<char>,
    op: Operator,
    right: ExprV,
)
    requires
        0 <= p,
        p + 3 <= toks.len(),
        toks[p] == TokenV::Minus || toks[p] == TokenV::Bang,
        toks[p + 1] == TokenV::Identifier(a),
        spec_infix_operator(toks[p + 2]) == Some(op),
        spec_expr(toks, p + 3, spec_token_precedence(toks[p + 2])) == ParseOutcome::Value(
            right,
            toks.len() as int,
        ),
    ensures
        spec_expr(toks, p, 0) == ParseOutcome::Value(
            ExprV::Infix {
                operator: op,
                left: Box::new(
                    ExprV::Prefix {
                        operator: if toks[p] == TokenV::Minus {
                            Operator::Minus
                        } else {
                            Operator::Not
                        },
                        right: Box::new(ExprV::Identifier(a)),
                    },
                ),
                right: Box::new(right),
            },
            toks.len() as int,
        ),
{
    let n = toks.len() as int;
    let t = toks[p + 2];
    assert(spec_prefix(toks, toks[p + 1], p + 2) == ParseOutcome::Value(ExprV::Identifier(a), p + 2));
    assert(spec_token_precedence(t) <= prefix_precedence());
    assert(spec_infix(toks, prefix_precedence(), ExprV::Identifier(a), p + 2) == ParseOutcome::Value(
        ExprV::Identifier(a),
        p + 2,
    ));
    let pop = if toks[p] == TokenV::Minus {
        Operator::Minus
    } else {
        Operator::Not
    };
    let l = ExprV::Prefix { operator: pop, right: Box::new(ExprV::Identifier(a)) };
    assert(spec_prefix(toks, toks[p], p + 1) == ParseOutcome::Value(l, p + 2));
    let e = ExprV::Infix { operator: op, left: Box::new(l), right: Box::new(right) };
    assert(spec_infix_token(toks, l, t, p + 3) == ParseOutcome::Value(e, n));
    assert(spec_infix(toks, 0, e, n) == ParseOutcome::Value(e, n));
    assert(spec_token_precedence(t) > 0);
    assert(spec_infix(toks, 0, l, p + 2) == ParseOutcome::Value(e, n));
}

} // verus!
