//! Errors met while parsing, and their printed form.
use vstd::prelude::*;
use crate::ast::spec_join;
use crate::text::{lit, push_str, push_string, string_push};
use crate::token::{spec_token_text, Token, TokenV};

verus! {

/// What the parser expected where it failed.
#[derive(PartialEq, Eq, Structural, Debug, Copy, Clone)]
pub enum ParseErrorExpected {
    Identifier,
    Expression,
    Assignment,
    PrefixTokenOrExpression,
    ClosingParenthesis,
    ClosingBracket,
    ParenthesisForIfCondition,
    ParenthesisForFunctionParams,
    ParenthesisForFunctionBody,
    ParameterForFunction,
    SingleIndex,
}

/// A parse error: what was expected, and the token found instead (`None` at
/// the end of the input).
#[derive(PartialEq, Debug)]
pub struct ParseError {
    pub expected: ParseErrorExpected,
    pub received: Option<Token>,
}

/// The mathematical view of a parse error.
pub struct ParseErrorV {
    pub expected: ParseErrorExpected,
    pub received: Option<TokenV>,
}

impl View for ParseError {
    type V = ParseErrorV;

    open spec fn view(&self) -> ParseErrorV {
        ParseErrorV {
            expected: self.expected,
            received: match self.received {
                Some(t) => Some(t@),
                None => None,
            },
        }
    }
}

/// All parse errors of a program, in the order met.
#[derive(Debug)]
pub struct ParseErrors {
    pub errors: Vec<ParseError>,
}

pub open spec fn parse_errors_view(s: Seq<ParseError>) -> Seq<ParseErrorV> {
    Seq::new(s.len(), |i: int| s[i]@)
}

/// The message of a program's parse errors: each error's message on a line
/// of its own.
pub open spec fn spec_parse_errors_text(errs: Seq<ParseErrorV>) -> Seq<char> {
    spec_join(Seq::new(errs.len(), |i: int| spec_parse_error_text(errs[i])), "\n"@)
}

impl From<Vec<ParseError>> for ParseErrors {
    fn from(errs: Vec<ParseError>) -> (r: ParseErrors) {
        ParseErrors { errors: errs }
    }
}

impl vstd::std_specs::convert::FromSpecImpl<Vec<ParseError>> for ParseErrors {
    open spec fn obeys_from_spec() -> bool {
        true
    }

    open spec fn from_spec(v: Vec<ParseError>) -> ParseErrors {
        ParseErrors { errors: v }
    }
}

/// The words naming what was expected.
pub open spec fn spec_expected_text(e: ParseErrorExpected) -> Seq<char> {
    match e {
        ParseErrorExpected::Identifier => "identifier"@,
        ParseErrorExpected::Expression => "expression"@,
        ParseErrorExpected::Assignment => "assignment"@,
        ParseErrorExpected::PrefixTokenOrExpression => "prefix token or expression"@,
        ParseErrorExpected::ClosingParenthesis => "closing parenthesis"@,
        ParseErrorExpected::ClosingBracket => "closing bracket"@,
        ParseErrorExpected::ParenthesisForIfCondition => "parenthesis for if condition"@,
        ParseErrorExpected::ParenthesisForFunctionParams => "parenthesis for function parameters"@,
        ParseErrorExpected::ParenthesisForFunctionBody => "parenthesis for function body"@,
        ParseErrorExpected::ParameterForFunction => "parameter for function"@,
        ParseErrorExpected::SingleIndex => "list index must be a single integer"@,
    }
}

/// The printed form of a parse error:
/// `ParseError: Expected <what> but received '<token>'` (or `nothing`).
pub open spec fn spec_parse_error_text(e: ParseErrorV) -> Seq<char> {
    "ParseError: Expected "@ + spec_expected_text(e.expected) + " but received "@ + match e.received {
        Some(t) => seq!['\''] + spec_token_text(t) + seq!['\''],
        None => "nothing"@,
    }
}

impl ParseErrorExpected {
    /// The words naming what was expected.
    pub fn display(&self) -> (r: String)
        ensures
            r@ == spec_expected_text(*self),
    {
        match self {
            ParseErrorExpected::Identifier => lit("identifier"),
            ParseErrorExpected::Expression => lit("expression"),
            ParseErrorExpected::Assignment => lit("assignment"),
            ParseErrorExpected::PrefixTokenOrExpression => lit("prefix token or expression"),
            ParseErrorExpected::ClosingParenthesis => lit("closing parenthesis"),
            ParseErrorExpected::ClosingBracket => lit("closing bracket"),
            ParseErrorExpected::ParenthesisForIfCondition => lit("parenthesis for if condition"),
            ParseErrorExpected::ParenthesisForFunctionParams => lit(
                "parenthesis for function parameters",
            ),
            ParseErrorExpected::ParenthesisForFunctionBody => lit("parenthesis for function body"),
            ParseErrorExpected::ParameterForFunction => lit("parameter for function"),
            ParseErrorExpected::SingleIndex => lit("list index must be a single integer"),
        }
    }
}

impl ParseError {
    /// The printed form of the error.
    pub fn display(&self) -> (r: String)
        ensures
            r@ == spec_parse_error_text(self@),
    {
        let mut r = lit("ParseError: Expected ");
        let what = self.expected.display();
        push_string(&mut r, &what);
        push_str(&mut r, " but received ");
        match &self.received {
            Some(t) => {
                let ghost before = r@;
                let text = t.display();
                string_push(&mut r, '\'');
                push_string(&mut r, &text);
                string_push(&mut r, '\'');
                assert(r@ =~= before + (seq!['\''] + spec_token_text(t@) + seq!['\'']));
            },
            None => {
                push_str(&mut r, "nothing");
            },
        }
        r
    }
}

impl ParseErrors {
    /// The message of the errors, one line each.
    pub fn display(&self) -> (r: String)
        ensures
            r@ == spec_parse_errors_text(parse_errors_view(self.errors@)),
    {
        let ghost errs = parse_errors_view(self.errors@);
        let ghost texts = Seq::new(errs.len(), |i: int| spec_parse_error_text(errs[i]));
        let mut r = String::new();
        let mut i: usize = 0;
        while i < self.errors.len()
            invariant
                i <= self.errors.len(),
                errs == parse_errors_view(self.errors@),
                texts == Seq::new(errs.len(), |j: int| spec_parse_error_text(errs[j])),
                r@ == spec_join(texts.take(i as int), "\n"@),
            decreases self.errors.len() - i,
        {
            if i > 0 {
                push_str(&mut r, "\n");
            }
            let line = self.errors[i].display();
            push_string(&mut r, &line);
            proof {
                assert(texts.take(i + 1).drop_last() =~= texts.take(i as int));
                assert(texts.take(i + 1).last() == line@);
                if i == 0 {
                    assert(r@ =~= spec_join(texts.take(1), "\n"@));
                } else {
                    assert(r@ =~= spec_join(texts.take(i + 1), "\n"@));
                }
            }
            i = i + 1;
        }
        assert(texts.take(self.errors.len() as int) =~= texts);
        r
    }
}

} // verus!
