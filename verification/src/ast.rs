//! The syntax tree of Monkey programs, its mathematical view, its printed form,
//! copies and structural equality.
use vstd::prelude::*;
use crate::text::{push_decimal, push_str, push_string, spec_decimal, string_push};

verus! {

pub type Statements = Vec<Statement>;

#[derive(Debug)]
pub struct Program {
    pub statements: Statements,
}

#[derive(PartialEq, Debug)]
pub enum Expression {
    Identifier(String),
    IntegerLiteral(usize),
    StringLiteral(String),
    ListLiteral(Vec<Expression>),
    Prefix { operator: Operator, right: Box<Expression> },
    Infix { operator: Operator, left: Box<Expression>, right: Box<Expression> },
    Boolean(bool),
    If { condition: Box<Expression>, consequence: Statements, alternative: Statements },
    FunctionLiteral(Function),
    Call { function: CallFunctionExpression, arguments: Vec<Expression> },
    Index { left: Box<Expression>, index: Box<Expression> },
}

#[derive(PartialEq, Debug)]
pub enum Statement {
    Let(String, Expression),
    Return(Expression),
    Expression(Expression),
}

#[derive(PartialEq, Eq, Structural, Debug, Copy, Clone)]
pub enum Operator {
    Plus,
    Minus,
    Multiply,
    Divide,
    Not,
    LessThan,
    GreaterThan,
    Equal,
    NotEqual,
}

#[derive(PartialEq, Debug)]
pub struct Function {
    pub params: Vec<String>,
    pub body: Statements,
}

#[derive(PartialEq, Debug)]
pub enum CallFunctionExpression {
    Identifier(String),
    Literal(Function),
}

/// Mathematical view of an expression.
pub enum ExprV {
    Identifier(Seq<char>),
    IntegerLiteral(nat),
    StringLiteral(Seq<char>),
    ListLiteral(Seq<ExprV>),
    Prefix { operator: Operator, right: Box<ExprV> },
    Infix { operator: Operator, left: Box<ExprV>, right: Box<ExprV> },
    Boolean(bool),
    If { condition: Box<ExprV>, consequence: Seq<StmtV>, alternative: Seq<StmtV> },
    FunctionLiteral(FuncV),
    Call { function: CallV, arguments: Seq<ExprV> },
    Index { left: Box<ExprV>, index: Box<ExprV> },
}

/// Mathematical view of a statement.
pub enum StmtV {
    Let(Seq<char>, ExprV),
    Return(ExprV),
    Expression(ExprV),
}

/// Mathematical view of a function literal.
pub struct FuncV {
    pub params: Seq<Seq<char>>,
    pub body: Seq<StmtV>,
}

/// Mathematical view of the callee of a call expression.
pub enum CallV {
    Identifier(Seq<char>),
    Literal(FuncV),
}

pub open spec fn strings_view(s: Seq<String>) -> Seq<Seq<char>> {
    Seq::new(s.len(), |i: int| s[i]@)
}

pub open spec fn expr_view(e: Expression) -> ExprV
    decreases e,
{
    match e {
        Expression::Identifier(n) => ExprV::Identifier(n@),
        Expression::IntegerLiteral(v) => ExprV::IntegerLiteral(v as nat),
        Expression::StringLiteral(s) => ExprV::StringLiteral(s@),
        Expression::ListLiteral(vs) => ExprV::ListLiteral(exprs_view(vs@)),
        Expression::Prefix { operator, right } => ExprV::Prefix {
            operator,
            right: Box::new(expr_view(*right)),
        },
        Expression::Infix { operator, left, right } => ExprV::Infix {
            operator,
            left: Box::new(expr_view(*left)),
            right: Box::new(expr_view(*right)),
        },
        Expression::Boolean(b) => ExprV::Boolean(b),
        Expression::If { condition, consequence, alternative } => ExprV::If {
            condition: Box::new(expr_view(*condition)),
            consequence: stmts_view(consequence@),
            alternative: stmts_view(alternative@),
        },
        Expression::FunctionLiteral(f) => ExprV::FunctionLiteral(func_view(f)),
        Expression::Call { function, arguments } => ExprV::Call {
            function: callee_view(function),
            arguments: exprs_view(arguments@),
        },
        Expression::Index { left, index } => ExprV::Index {
            left: Box::new(expr_view(*left)),
            index: Box::new(expr_view(*index)),
        },
    }
}

pub open spec fn func_view(f: Function) -> FuncV
    decreases f,
{
    FuncV { params: strings_view(f.params@), body: stmts_view(f.body@) }
}

pub open spec fn callee_view(c: CallFunctionExpression) -> CallV
    decreases c,
{
    match c {
        CallFunctionExpression::Identifier(n) => CallV::Identifier(n@),
        CallFunctionExpression::Literal(f) => CallV::Literal(func_view(f)),
    }
}

pub open spec fn stmt_view(s: Statement) -> StmtV
    decreases s,
{
    match s {
        Statement::Let(n, e) => StmtV::Let(n@, expr_view(e)),
        Statement::Return(e) => StmtV::Return(expr_view(e)),
        Statement::Expression(e) => StmtV::Expression(expr_view(e)),
    }
}

pub open spec fn exprs_view(s: Seq<Expression>) -> Seq<ExprV>
    decreases s,
{
    if s.len() == 0 {
        Seq::empty()
    } else {
        exprs_view(s.drop_last()).push(expr_view(s.last()))
    }
}

pub open spec fn stmts_view(s: Seq<Statement>) -> Seq<StmtV>
    decreases s,
{
    if s.len() == 0 {
        Seq::empty()
    } else {
        stmts_view(s.drop_last()).push(stmt_view(s.last()))
    }
}

pub proof fn lemma_exprs_view(s: Seq<Expression>)
    ensures
        exprs_view(s).len() == s.len(),
        forall|i: int| 0 <= i < s.len() ==> #[trigger] exprs_view(s)[i] == expr_view(s[i]),
    decreases s.len(),
{
    if s.len() > 0 {
        lemma_exprs_view(s.drop_last());
        assert(exprs_view(s) == exprs_view(s.drop_last()).push(expr_view(s.last())));
        assert(exprs_view(s).len() == s.len());
    } else {
        assert(exprs_view(s).len() == 0);
    }
}

pub proof fn lemma_stmts_view(s: Seq<Statement>)
    ensures
        stmts_view(s).len() == s.len(),
        forall|i: int| 0 <= i < s.len() ==> #[trigger] stmts_view(s)[i] == stmt_view(s[i]),
    decreases s.len(),
{
    if s.len() > 0 {
        lemma_stmts_view(s.drop_last());
        assert(stmts_view(s) == stmts_view(s.drop_last()).push(stmt_view(s.last())));
        assert(stmts_view(s).len() == s.len());
    } else {
        assert(stmts_view(s).len() == 0);
    }
}

/// Two sequences of expressions whose elements have equal views have equal views.
pub proof fn lemma_exprs_view_ext(a: Seq<Expression>, b: Seq<Expression>)
    requires
        a.len() == b.len(),
        forall|i: int| 0 <= i < a.len() ==> expr_view(#[trigger] a[i]) == expr_view(b[i]),
    ensures
        exprs_view(a) == exprs_view(b),
{
    lemma_exprs_view(a);
    lemma_exprs_view(b);
    assert(exprs_view(a) =~= exprs_view(b));
}

pub proof fn lemma_stmts_view_ext(a: Seq<Statement>, b: Seq<Statement>)
    requires
        a.len() == b.len(),
        forall|i: int| 0 <= i < a.len() ==> stmt_view(#[trigger] a[i]) == stmt_view(b[i]),
    ensures
        stmts_view(a) == stmts_view(b),
{
    lemma_stmts_view(a);
    lemma_stmts_view(b);
    assert(stmts_view(a) =~= stmts_view(b));
}

impl View for Expression {
    type V = ExprV;

    open spec fn view(&self) -> ExprV {
        expr_view(*self)
    }
}

impl View for Statement {
    type V = StmtV;

    open spec fn view(&self) -> StmtV {
        stmt_view(*self)
    }
}

impl View for Function {
    type V = FuncV;

    open spec fn view(&self) -> FuncV {
        func_view(*self)
    }
}

impl View for CallFunctionExpression {
    type V = CallV;

    open spec fn view(&self) -> CallV {
        callee_view(*self)
    }
}

impl View for Program {
    type V = Seq<StmtV>;

    open spec fn view(&self) -> Seq<StmtV> {
        stmts_view(self.statements@)
    }
}

// ---------------------------------------------------------------------------
// Printed form
// ---------------------------------------------------------------------------

/// The symbol of an operator.
pub open spec fn spec_operator_text(op: Operator) -> Seq<char> {
    match op {
        Operator::Plus => "+"@,
        Operator::Minus => "-"@,
        Operator::Multiply => "*"@,
        Operator::Divide => "/"@,
        Operator::Not => "!"@,
        Operator::LessThan => "<"@,
        Operator::GreaterThan => ">"@,
        Operator::Equal => "=="@,
        Operator::NotEqual => "!="@,
    }
}

/// The texts of a sequence, joined by a separator.
pub open spec fn spec_join(items: Seq<Seq<char>>, sep: Seq<char>) -> Seq<char>
    decreases items.len(),
{
    if items.len() == 0 {
        Seq::empty()
    } else if items.len() == 1 {
        items[0]
    } else {
        spec_join(items.drop_last(), sep) + sep + items.last()
    }
}

/// An expression can be printed unless it holds an `if` expression, which has
/// no printed form.
pub open spec fn expr_printable(e: ExprV) -> bool
    decreases e,
{
    match e {
        ExprV::ListLiteral(vs) => exprs_printable(vs),
        ExprV::Prefix { right, .. } => expr_printable(*right),
        ExprV::Infix { left, right, .. } => expr_printable(*left) && expr_printable(*right),
        ExprV::If { .. } => false,
        ExprV::FunctionLiteral(f) => stmts_printable(f.body),
        ExprV::Call { function, arguments } => callee_printable(function) && exprs_printable(
            arguments,
        ),
        ExprV::Index { left, index } => expr_printable(*left) && expr_printable(*index),
        _ => true,
    }
}

pub open spec fn callee_printable(c: CallV) -> bool
    decreases c,
{
    match c {
        CallV::Identifier(_) => true,
        CallV::Literal(f) => stmts_printable(f.body),
    }
}

pub open spec fn exprs_printable(es: Seq<ExprV>) -> bool
    decreases es,
{
    if es.len() == 0 {
        true
    } else {
        exprs_printable(es.drop_last()) && expr_printable(es.last())
    }
}

pub open spec fn stmt_printable(s: StmtV) -> bool
    decreases s,
{
    match s {
        StmtV::Let(_, e) => expr_printable(e),
        StmtV::Return(e) => expr_printable(e),
        StmtV::Expression(e) => expr_printable(e),
    }
}

pub open spec fn stmts_printable(ss: Seq<StmtV>) -> bool
    decreases ss,
{
    if ss.len() == 0 {
        true
    } else {
        stmts_printable(ss.drop_last()) && stmt_printable(ss.last())
    }
}

/// The printed form of an expression, e.g. `((5 + 6) - 7)`.
pub open spec fn spec_expr_text(e: ExprV) -> Seq<char>
    decreases e,
{
    match e {
        ExprV::Identifier(n) => n,
        ExprV::IntegerLiteral(v) => spec_decimal(v),
        ExprV::StringLiteral(s) => seq!['"'] + s + seq!['"'],
        ExprV::ListLiteral(vs) => seq!['['] + spec_exprs_text(vs) + seq![']'],
        ExprV::Prefix { operator, right } => seq!['('] + spec_operator_text(operator)
            + spec_expr_text(*right) + seq![')'],
        ExprV::Infix { operator, left, right } => seq!['('] + spec_expr_text(*left) + seq![' ']
            + spec_operator_text(operator) + seq![' '] + spec_expr_text(*right) + seq![')'],
        ExprV::Boolean(b) => if b {
            "true"@
        } else {
            "false"@
        },
        ExprV::If { .. } => Seq::empty(),
        ExprV::FunctionLiteral(f) => spec_func_text(f),
        ExprV::Call { function, arguments } => spec_callee_text(function) + seq!['(']
            + spec_exprs_text(arguments) + seq![')'],
        ExprV::Index { left, index } => seq!['('] + spec_expr_text(*left) + seq!['[']
            + spec_expr_text(*index) + seq![']', ')'],
    }
}

/// A function literal printed as `fn(x, y) { s1, s2 }`.
pub open spec fn spec_func_text(f: FuncV) -> Seq<char>
    decreases f,
{
    "fn("@ + spec_join(f.params, ", "@) + ") { "@ + spec_stmts_text(f.body) + " }"@
}

pub open spec fn spec_callee_text(c: CallV) -> Seq<char>
    decreases c,
{
    match c {
        CallV::Identifier(n) => n,
        CallV::Literal(f) => spec_func_text(f),
    }
}

/// Expressions printed and joined by `, `.
pub open spec fn spec_exprs_text(es: Seq<ExprV>) -> Seq<char>
    decreases es,
{
    if es.len() == 0 {
        Seq::empty()
    } else if es.len() == 1 {
        spec_expr_text(es[0])
    } else {
        spec_exprs_text(es.drop_last()) + ", "@ + spec_expr_text(es.last())
    }
}

/// The printed form of a statement: `let x = e` for a binding, the expression otherwise.
pub open spec fn spec_stmt_text(s: StmtV) -> Seq<char>
    decreases s,
{
    match s {
        StmtV::Let(n, e) => "let "@ + n + " = "@ + spec_expr_text(e),
        StmtV::Return(e) => spec_expr_text(e),
        StmtV::Expression(e) => spec_expr_text(e),
    }
}

/// Statements printed and joined by `, `.
pub open spec fn spec_stmts_text(ss: Seq<StmtV>) -> Seq<char>
    decreases ss,
{
    if ss.len() == 0 {
        Seq::empty()
    } else if ss.len() == 1 {
        spec_stmt_text(ss[0])
    } else {
        spec_stmts_text(ss.drop_last()) + ", "@ + spec_stmt_text(ss.last())
    }
}

/// Joins strings with `, `.
pub fn format_vec(items: &Vec<String>) -> (r: String)
    ensures
        r@ == spec_join(strings_view(items@), ", "@),
{
    let mut r = String::new();
    let mut i: usize = 0;
    while i < items.len()
        invariant
            i <= items.len(),
            r@ == spec_join(strings_view(items@.subrange(0, i as int)), ", "@),
        decreases items.len() - i,
    {
        let ghost before = r@;
        if i > 0 {
            push_str(&mut r, ", ");
        }
        push_string(&mut r, &items[i]);
        proof {
            let pre = strings_view(items@.subrange(0, i as int));
            let post = strings_view(items@.subrange(0, i + 1));
            assert(post.drop_last() =~= pre);
            assert(post.last() == items@[i as int]@);
            if i == 0 {
                assert(post.len() == 1);
                assert(r@ =~= post[0]);
            } else {
                assert(r@ =~= spec_join(pre, ", "@) + ", "@ + post.last());
            }
        }
        i = i + 1;
    }
    assert(items@.subrange(0, items@.len() as int) =~= items@);
    r
}

fn push_operator(out: &mut String, op: Operator)
    ensures
        final(out)@ == old(out)@ + spec_operator_text(op),
{
    match op {
        Operator::Plus => push_str(out, "+"),
        Operator::Minus => push_str(out, "-"),
        Operator::Multiply => push_str(out, "*"),
        Operator::Divide => push_str(out, "/"),
        Operator::Not => push_str(out, "!"),
        Operator::LessThan => push_str(out, "<"),
        Operator::GreaterThan => push_str(out, ">"),
        Operator::Equal => push_str(out, "=="),
        Operator::NotEqual => push_str(out, "!="),
    }
}

impl Operator {
    /// The symbol of the operator, e.g. `+` or `!=`.
    pub fn display(&self) -> (r: String)
        ensures
            r@ == spec_operator_text(*self),
    {
        let mut r = String::new();
        push_operator(&mut r, *self);
        assert(r@ =~= spec_operator_text(*self));
        r
    }
}

#[verifier::loop_isolation(false)]
fn push_exprs(out: &mut String, es: &Vec<Expression>)
    requires
        exprs_printable(exprs_view(es@)),
    ensures
        final(out)@ == old(out)@ + spec_exprs_text(exprs_view(es@)),
    decreases es@, 0nat,
{
    let ghost start = out@;
    proof {
        lemma_exprs_view(es@);
    }
    let mut i: usize = 0;
    while i < es.len()
        invariant
            i <= es.len(),
            out@ == start + spec_exprs_text(exprs_view(es@.subrange(0, i as int))),
            exprs_printable(exprs_view(es@.subrange(0, i as int))) || true,
        decreases es.len() - i,
    {
        let ghost before = out@;
        if i > 0 {
            push_str(out, ", ");
        }
        proof {
            lemma_printable_elems(exprs_view(es@));
            assert(decreases_to!(es@ => es@[i as int]));
            assert(exprs_view(es@)[i as int] == expr_view(es@[i as int]));
        }
        push_expr(out, &es[i]);
        proof {
            let pre = es@.subrange(0, i as int);
            let post = es@.subrange(0, i + 1);
            assert(post.drop_last() =~= pre);
            assert(post.last() == es@[i as int]);
            lemma_exprs_view(pre);
            lemma_exprs_view(post);
            assert(exprs_view(post).drop_last() =~= exprs_view(pre));
            if i == 0 {
                assert(exprs_view(post)[0] == expr_view(es@[0]));
                assert(out@ =~= start + spec_exprs_text(exprs_view(post)));
            } else {
                assert(out@ =~= start + spec_exprs_text(exprs_view(post)));
            }
        }
        i = i + 1;
    }
    assert(es@.subrange(0, es@.len() as int) =~= es@);
}

pub proof fn lemma_printable_elems(es: Seq<ExprV>)
    ensures
        exprs_printable(es) <==> forall|i: int| 0 <= i < es.len() ==> expr_printable(#[trigger] es[i]),
    decreases es.len(),
{
    if es.len() > 0 {
        lemma_printable_elems(es.drop_last());
        if exprs_printable(es) {
            assert forall|i: int| 0 <= i < es.len() implies expr_printable(#[trigger] es[i]) by {
                if i < es.len() - 1 {
                    assert(es[i] == es.drop_last()[i]);
                }
            }
        }
        if forall|i: int| 0 <= i < es.len() ==> expr_printable(#[trigger] es[i]) {
            assert forall|i: int| 0 <= i < es.drop_last().len() implies expr_printable(
                #[trigger] es.drop_last()[i],
            ) by {
                assert(es.drop_last()[i] == es[i]);
            }
            assert(expr_printable(es[es.len() - 1]));
        }
    }
}

pub proof fn lemma_stmts_printable_elems(ss: Seq<StmtV>)
    ensures
        stmts_printable(ss) <==> forall|i: int| 0 <= i < ss.len() ==> stmt_printable(#[trigger] ss[i]),
    decreases ss.len(),
{
    if ss.len() > 0 {
        lemma_stmts_printable_elems(ss.drop_last());
        if stmts_printable(ss) {
            assert forall|i: int| 0 <= i < ss.len() implies stmt_printable(#[trigger] ss[i]) by {
                if i < ss.len() - 1 {
                    assert(ss[i] == ss.drop_last()[i]);
                }
            }
        }
        if forall|i: int| 0 <= i < ss.len() ==> stmt_printable(#[trigger] ss[i]) {
            assert forall|i: int| 0 <= i < ss.drop_last().len() implies stmt_printable(
                #[trigger] ss.drop_last()[i],
            ) by {
                assert(ss.drop_last()[i] == ss[i]);
            }
            assert(stmt_printable(ss[ss.len() - 1]));
        }
    }
}

#[verifier::loop_isolation(false)]
fn push_stmts(out: &mut String, ss: &Vec<Statement>)
    requires
        stmts_printable(stmts_view(ss@)),
    ensures
        final(out)@ == old(out)@ + spec_stmts_text(stmts_view(ss@)),
    decreases ss@, 0nat,
{
    let ghost start = out@;
    proof {
        lemma_stmts_view(ss@);
        lemma_stmts_printable_elems(stmts_view(ss@));
    }
    let mut i: usize = 0;
    while i < ss.len()
        invariant
            i <= ss.len(),
            out@ == start + spec_stmts_text(stmts_view(ss@.subrange(0, i as int))),
        decreases ss.len() - i,
    {
        if i > 0 {
            push_str(out, ", ");
        }
        proof {
            assert(decreases_to!(ss@ => ss@[i as int]));
            assert(stmts_view(ss@)[i as int] == stmt_view(ss@[i as int]));
        }
        push_stmt(out, &ss[i]);
        proof {
            let pre = ss@.subrange(0, i as int);
            let post = ss@.subrange(0, i + 1);
            assert(post.drop_last() =~= pre);
            assert(post.last() == ss@[i as int]);
            lemma_stmts_view(pre);
            lemma_stmts_view(post);
            assert(stmts_view(post).drop_last() =~= stmts_view(pre));
            if i == 0 {
                assert(stmts_view(post)[0] == stmt_view(ss@[0]));
            }
            assert(out@ =~= start + spec_stmts_text(stmts_view(post)));
        }
        i = i + 1;
    }
    assert(ss@.subrange(0, ss@.len() as int) =~= ss@);
}

fn push_func(out: &mut String, f: &Function)
    requires
        stmts_printable(f@.body),
    ensures
        final(out)@ == old(out)@ + spec_func_text(f@),
    decreases f, 2nat,
{
    let ghost start = out@;
    push_str(out, "fn(");
    let params = format_vec(&f.params);
    push_string(out, &params);
    push_str(out, ") { ");
    proof {
        assert(decreases_to!(*f => f.body));
    }
    push_stmts(out, &f.body);
    push_str(out, " }");
    assert(out@ =~= start + spec_func_text(f@));
}

fn push_stmt(out: &mut String, s: &Statement)
    requires
        stmt_printable(s@),
    ensures
        final(out)@ == old(out)@ + spec_stmt_text(s@),
    decreases s, 2nat,
{
    let ghost start = out@;
    match s {
        Statement::Let(n, e) => {
            push_str(out, "let ");
            push_string(out, n);
            push_str(out, " = ");
            push_expr(out, e);
        },
        Statement::Return(e) => push_expr(out, e),
        Statement::Expression(e) => push_expr(out, e),
    }
    assert(out@ =~= start + spec_stmt_text(s@));
}

fn push_expr(out: &mut String, e: &Expression)
    requires
        expr_printable(e@),
    ensures
        final(out)@ == old(out)@ + spec_expr_text(e@),
    decreases e, 2nat,
{
    let ghost start = out@;
    match e {
        Expression::Identifier(n) => push_string(out, n),
        Expression::IntegerLiteral(v) => push_decimal(out, *v as u128),
        Expression::StringLiteral(s) => {
            string_push(out, '"');
            push_string(out, s);
            string_push(out, '"');
        },
        Expression::ListLiteral(vs) => {
            string_push(out, '[');
            proof {
                assert(decreases_to!(*e => (*e)->ListLiteral_0));
            }
            push_exprs(out, vs);
            string_push(out, ']');
            assert(out@ =~= start + spec_expr_text(e@));
        },
        Expression::Prefix { operator, right } => {
            string_push(out, '(');
            push_operator(out, *operator);
            push_expr(out, right);
            string_push(out, ')');
            assert(out@ =~= start + spec_expr_text(e@));
        },
        Expression::Infix { operator, left, right } => {
            string_push(out, '(');
            push_expr(out, left);
            string_push(out, ' ');
            push_operator(out, *operator);
            string_push(out, ' ');
            push_expr(out, right);
            string_push(out, ')');
        },
        Expression::Boolean(b) => {
            if *b {
                push_str(out, "true");
            } else {
                push_str(out, "false");
            }
        },
        Expression::If { .. } => {
            assert(false);
        },
        Expression::FunctionLiteral(f) => push_func(out, f),
        Expression::Call { function, arguments } => {
            match function {
                CallFunctionExpression::Identifier(n) => {
                    push_string(out, n);
                    assert(out@ == start + spec_callee_text(callee_view(*function)));
                },
                CallFunctionExpression::Literal(f) => {
                    assert(e@ == ExprV::Call {
                        function: callee_view(*function),
                        arguments: exprs_view(arguments@),
                    });
                    assert(callee_printable(callee_view(*function)));
                    assert(callee_view(*function) == CallV::Literal(func_view(*f)));
                    push_func(out, f);
                    assert(out@ == start + spec_callee_text(callee_view(*function)));
                },
            }
            assert(e@ == ExprV::Call {
                function: callee_view(*function),
                arguments: exprs_view(arguments@),
            });
            string_push(out, '(');
            proof {
                assert(decreases_to!(*e => (*e)->arguments));
            }
            push_exprs(out, arguments);
            string_push(out, ')');
            assert(out@ =~= start + spec_expr_text(e@));
        },
        Expression::Index { left, index } => {
            string_push(out, '(');
            push_expr(out, left);
            string_push(out, '[');
            push_expr(out, index);
            string_push(out, ']');
            string_push(out, ')');
            assert(out@ =~= start + spec_expr_text(e@));
        },
    }
    assert(out@ =~= start + spec_expr_text(e@));
}

impl Expression {
    /// The printed form of the expression, e.g. `((5 + 6) - 7)` or `(["bar", 2][0])`.
    /// An `if` expression has no printed form.
    pub fn display(&self) -> (r: String)
        requires
            expr_printable(self@),
        ensures
            r@ == spec_expr_text(self@),
    {
        let mut r = String::new();
        push_expr(&mut r, self);
        assert(r@ =~= spec_expr_text(self@));
        r
    }
}

impl Statement {
    /// The printed form of the statement: `let x = e`, or the expression.
    pub fn display(&self) -> (r: String)
        requires
            stmt_printable(self@),
        ensures
            r@ == spec_stmt_text(self@),
    {
        let mut r = String::new();
        push_stmt(&mut r, self);
        assert(r@ =~= spec_stmt_text(self@));
        r
    }
}

impl Function {
    /// The printed form of the function literal, e.g. `fn(x, y) { (x + y), true }`.
    pub fn display(&self) -> (r: String)
        requires
            stmts_printable(self@.body),
        ensures
            r@ == spec_func_text(self@),
    {
        let mut r = String::new();
        push_func(&mut r, self);
        assert(r@ =~= spec_func_text(self@));
        r
    }
}

impl CallFunctionExpression {
    /// The printed form of the callee: its name, or the printed function literal.
    pub fn display(&self) -> (r: String)
        requires
            callee_printable(self@),
        ensures
            r@ == spec_callee_text(self@),
    {
        match self {
            CallFunctionExpression::Identifier(n) => n.clone(),
            CallFunctionExpression::Literal(f) => f.display(),
        }
    }
}


// ---------------------------------------------------------------------------
// Copies and structural equality
// ---------------------------------------------------------------------------

/// A copy of a list of names.
pub fn copy_strings(v: &Vec<String>) -> (r: Vec<String>)
    ensures
        strings_view(r@) == strings_view(v@),
{
    let mut r: Vec<String> = Vec::new();
    let mut i: usize = 0;
    while i < v.len()
        invariant
            i <= v.len(),
            r.len() == i,
            forall|j: int| 0 <= j < i ==> #[trigger] r@[j]@ == v@[j]@,
        decreases v.len() - i,
    {
        r.push(v[i].clone());
        i = i + 1;
    }
    assert(strings_view(r@) =~= strings_view(v@));
    r
}

/// Whether two lists of names are equal.
pub fn strings_equal(a: &Vec<String>, b: &Vec<String>) -> (r: bool)
    ensures
        r == (strings_view(a@) == strings_view(b@)),
{
    if a.len() != b.len() {
        assert(strings_view(a@).len() != strings_view(b@).len());
        return false;
    }
    let mut i: usize = 0;
    while i < a.len()
        invariant
            a.len() == b.len(),
            i <= a.len(),
            forall|j: int| 0 <= j < i ==> #[trigger] a@[j]@ == b@[j]@,
        decreases a.len() - i,
    {
        if a[i] != b[i] {
            assert(strings_view(a@)[i as int] != strings_view(b@)[i as int]);
            return false;
        }
        i = i + 1;
    }
    assert(strings_view(a@) =~= strings_view(b@));
    true
}

#[verifier::loop_isolation(false)]
pub fn copy_exprs(v: &Vec<Expression>) -> (r: Vec<Expression>)
    ensures
        exprs_view(r@) == exprs_view(v@),
    decreases v@, 0nat,
{
    let mut r: Vec<Expression> = Vec::new();
    let mut i: usize = 0;
    while i < v.len()
        invariant
            i <= v.len(),
            r.len() == i,
            forall|j: int| 0 <= j < i ==> expr_view(#[trigger] r@[j]) == expr_view(v@[j]),
        decreases v.len() - i,
    {
        proof {
            assert(decreases_to!(v@ => v@[i as int]));
        }
        let c = copy_expr(&v[i]);
        r.push(c);
        i = i + 1;
    }
    proof {
        lemma_exprs_view_ext(r@, v@);
    }
    r
}

#[verifier::loop_isolation(false)]
pub fn copy_stmts(v: &Vec<Statement>) -> (r: Vec<Statement>)
    ensures
        stmts_view(r@) == stmts_view(v@),
    decreases v@, 0nat,
{
    let mut r: Vec<Statement> = Vec::new();
    let mut i: usize = 0;
    while i < v.len()
        invariant
            i <= v.len(),
            r.len() == i,
            forall|j: int| 0 <= j < i ==> stmt_view(#[trigger] r@[j]) == stmt_view(v@[j]),
        decreases v.len() - i,
    {
        proof {
            assert(decreases_to!(v@ => v@[i as int]));
        }
        let c = copy_stmt(&v[i]);
        r.push(c);
        i = i + 1;
    }
    proof {
        lemma_stmts_view_ext(r@, v@);
    }
    r
}

pub fn copy_func(f: &Function) -> (r: Function)
    ensures
        r@ == f@,
    decreases f, 2nat,
{
    proof {
        assert(decreases_to!(*f => f.body));
    }
    Function { params: copy_strings(&f.params), body: copy_stmts(&f.body) }
}

pub fn copy_stmt(s: &Statement) -> (r: Statement)
    ensures
        r@ == s@,
    decreases s, 2nat,
{
    match s {
        Statement::Let(n, e) => Statement::Let(n.clone(), copy_expr(e)),
        Statement::Return(e) => Statement::Return(copy_expr(e)),
        Statement::Expression(e) => Statement::Expression(copy_expr(e)),
    }
}

pub fn copy_expr(e: &Expression) -> (r: Expression)
    ensures
        r@ == e@,
    decreases e, 2nat,
{
    match e {
        Expression::Identifier(n) => {
            let c = n.clone();
            assert(c@ == n@);
            Expression::Identifier(c)
        },
        Expression::IntegerLiteral(v) => Expression::IntegerLiteral(*v),
        Expression::StringLiteral(s) => {
            let c = s.clone();
            assert(c@ == s@);
            Expression::StringLiteral(c)
        },
        Expression::ListLiteral(vs) => {
            proof {
                assert(decreases_to!(*e => (*e)->ListLiteral_0));
            }
            let r = Expression::ListLiteral(copy_exprs(vs));
            assert(r@ == e@);
            r
        },
        Expression::Prefix { operator, right } => Expression::Prefix {
            operator: *operator,
            right: Box::new(copy_expr(right)),
        },
        Expression::Infix { operator, left, right } => Expression::Infix {
            operator: *operator,
            left: Box::new(copy_expr(left)),
            right: Box::new(copy_expr(right)),
        },
        Expression::Boolean(b) => Expression::Boolean(*b),
        Expression::If { condition, consequence, alternative } => {
            proof {
                assert(decreases_to!(*e => (*e)->consequence));
                assert(decreases_to!(*e => (*e)->alternative));
            }
            let r = Expression::If {
                condition: Box::new(copy_expr(condition)),
                consequence: copy_stmts(consequence),
                alternative: copy_stmts(alternative),
            };
            assert(r@ == e@);
            r
        },
        Expression::FunctionLiteral(f) => Expression::FunctionLiteral(copy_func(f)),
        Expression::Call { function, arguments } => {
            proof {
                assert(decreases_to!(*e => (*e)->arguments));
            }
            let callee = match function {
                CallFunctionExpression::Identifier(n) => CallFunctionExpression::Identifier(n.clone()),
                CallFunctionExpression::Literal(f) => CallFunctionExpression::Literal(copy_func(f)),
            };
            assert(callee@ == function@);
            let args = copy_exprs(arguments);
            let r = Expression::Call { function: callee, arguments: args };
            assert(r@ == e@);
            r
        },
        Expression::Index { left, index } => Expression::Index {
            left: Box::new(copy_expr(left)),
            index: Box::new(copy_expr(index)),
        },
    }
}

impl Clone for Expression {
    fn clone(&self) -> (r: Self)
        ensures
            r@ == self@,
    {
        copy_expr(self)
    }
}

impl Clone for Statement {
    fn clone(&self) -> (r: Self)
        ensures
            r@ == self@,
    {
        copy_stmt(self)
    }
}

impl Clone for Function {
    fn clone(&self) -> (r: Self)
        ensures
            r@ == self@,
    {
        copy_func(self)
    }
}

impl Clone for CallFunctionExpression {
    fn clone(&self) -> (r: Self)
        ensures
            r@ == self@,
    {
        match self {
            CallFunctionExpression::Identifier(n) => CallFunctionExpression::Identifier(n.clone()),
            CallFunctionExpression::Literal(f) => CallFunctionExpression::Literal(copy_func(f)),
        }
    }
}

impl Program {
    /// A copy of the program.
    pub fn duplicate(&self) -> (r: Program)
        ensures
            r@ == self@,
    {
        Program { statements: copy_stmts(&self.statements) }
    }
}

#[verifier::loop_isolation(false)]
pub fn exprs_equal(a: &Vec<Expression>, b: &Vec<Expression>) -> (r: bool)
    ensures
        r == (exprs_view(a@) == exprs_view(b@)),
    decreases a@, 0nat,
{
    proof {
        lemma_exprs_view(a@);
        lemma_exprs_view(b@);
    }
    if a.len() != b.len() {
        return false;
    }
    let mut i: usize = 0;
    while i < a.len()
        invariant
            i <= a.len(),
            forall|j: int| 0 <= j < i ==> expr_view(#[trigger] a@[j]) == expr_view(b@[j]),
        decreases a.len() - i,
    {
        proof {
            assert(decreases_to!(a@ => a@[i as int]));
        }
        if !expr_equal(&a[i], &b[i]) {
            assert(exprs_view(a@)[i as int] != exprs_view(b@)[i as int]);
            return false;
        }
        i = i + 1;
    }
    proof {
        lemma_exprs_view_ext(a@, b@);
    }
    true
}

#[verifier::loop_isolation(false)]
pub fn stmts_equal(a: &Vec<Statement>, b: &Vec<Statement>) -> (r: bool)
    ensures
        r == (stmts_view(a@) == stmts_view(b@)),
    decreases a@, 0nat,
{
    proof {
        lemma_stmts_view(a@);
        lemma_stmts_view(b@);
    }
    if a.len() != b.len() {
        return false;
    }
    let mut i: usize = 0;
    while i < a.len()
        invariant
            i <= a.len(),
            forall|j: int| 0 <= j < i ==> stmt_view(#[trigger] a@[j]) == stmt_view(b@[j]),
        decreases a.len() - i,
    {
        proof {
            assert(decreases_to!(a@ => a@[i as int]));
        }
        if !stmt_equal(&a[i], &b[i]) {
            assert(stmts_view(a@)[i as int] != stmts_view(b@)[i as int]);
            return false;
        }
        i = i + 1;
    }
    proof {
        lemma_stmts_view_ext(a@, b@);
    }
    true
}

pub fn func_equal(a: &Function, b: &Function) -> (r: bool)
    ensures
        r == (a@ == b@),
    decreases a, 2nat,
{
    proof {
        assert(decreases_to!(*a => a.body));
    }
    let p = strings_equal(&a.params, &b.params);
    if !p {
        return false;
    }
    stmts_equal(&a.body, &b.body)
}

pub fn stmt_equal(a: &Statement, b: &Statement) -> (r: bool)
    ensures
        r == (a@ == b@),
    decreases a, 2nat,
{
    match (a, b) {
        (Statement::Let(n1, e1), Statement::Let(n2, e2)) => *n1 == *n2 && expr_equal(e1, e2),
        (Statement::Return(e1), Statement::Return(e2)) => expr_equal(e1, e2),
        (Statement::Expression(e1), Statement::Expression(e2)) => expr_equal(e1, e2),
        _ => false,
    }
}

pub fn expr_equal(a: &Expression, b: &Expression) -> (r: bool)
    ensures
        r == (a@ == b@),
    decreases a, 2nat,
{
    match (a, b) {
        (Expression::Identifier(x), Expression::Identifier(y)) => *x == *y,
        (Expression::IntegerLiteral(x), Expression::IntegerLiteral(y)) => *x == *y,
        (Expression::StringLiteral(x), Expression::StringLiteral(y)) => *x == *y,
        (Expression::ListLiteral(x), Expression::ListLiteral(y)) => {
            proof {
                assert(decreases_to!(*a => (*a)->ListLiteral_0));
            }
            exprs_equal(x, y)
        },
        (
            Expression::Prefix { operator: o1, right: r1 },
            Expression::Prefix { operator: o2, right: r2 },
        ) => *o1 == *o2 && expr_equal(r1, r2),
        (
            Expression::Infix { operator: o1, left: l1, right: r1 },
            Expression::Infix { operator: o2, left: l2, right: r2 },
        ) => *o1 == *o2 && expr_equal(l1, l2) && expr_equal(r1, r2),
        (Expression::Boolean(x), Expression::Boolean(y)) => *x == *y,
        (
            Expression::If { condition: c1, consequence: s1, alternative: t1 },
            Expression::If { condition: c2, consequence: s2, alternative: t2 },
        ) => {
            proof {
                assert(decreases_to!(*a => (*a)->consequence));
                assert(decreases_to!(*a => (*a)->alternative));
            }
            expr_equal(c1, c2) && stmts_equal(s1, s2) && stmts_equal(t1, t2)
        },
        (Expression::FunctionLiteral(f1), Expression::FunctionLiteral(f2)) => func_equal(f1, f2),
        (
            Expression::Call { function: f1, arguments: a1 },
            Expression::Call { function: f2, arguments: a2 },
        ) => {
            proof {
                assert(decreases_to!(*a => (*a)->arguments));
            }
            let same_callee = match (f1, f2) {
                (CallFunctionExpression::Identifier(n1), CallFunctionExpression::Identifier(n2)) => *n1
                    == *n2,
                (CallFunctionExpression::Literal(g1), CallFunctionExpression::Literal(g2)) => func_equal(
                    g1,
                    g2,
                ),
                _ => false,
            };
            assert(same_callee == (callee_view(*f1) == callee_view(*f2)));
            same_callee && exprs_equal(a1, a2)
        },
        (
            Expression::Index { left: l1, index: i1 },
            Expression::Index { left: l2, index: i2 },
        ) => expr_equal(l1, l2) && expr_equal(i1, i2),
        _ => false,
    }
}


// ---------------------------------------------------------------------------
// Printability checks
// ---------------------------------------------------------------------------

#[verifier::loop_isolation(false)]
fn exprs_are_printable(es: &Vec<Expression>) -> (b: bool)
    ensures
        b == exprs_printable(exprs_view(es@)),
    decreases es@, 0nat,
{
    proof {
        lemma_exprs_view(es@);
        lemma_printable_elems(exprs_view(es@));
    }
    let mut i: usize = 0;
    while i < es.len()
        invariant
            i <= es.len(),
            forall|j: int| 0 <= j < i ==> expr_printable(#[trigger] exprs_view(es@)[j]),
        decreases es.len() - i,
    {
        proof {
            assert(decreases_to!(es@ => es@[i as int]));
        }
        if !expr_is_printable(&es[i]) {
            assert(!expr_printable(exprs_view(es@)[i as int]));
            return false;
        }
        i = i + 1;
    }
    true
}

#[verifier::loop_isolation(false)]
fn stmts_are_printable_rec(ss: &Vec<Statement>) -> (b: bool)
    ensures
        b == stmts_printable(stmts_view(ss@)),
    decreases ss@, 0nat,
{
    proof {
        lemma_stmts_view(ss@);
        lemma_stmts_printable_elems(stmts_view(ss@));
    }
    let mut i: usize = 0;
    while i < ss.len()
        invariant
            i <= ss.len(),
            forall|j: int| 0 <= j < i ==> stmt_printable(#[trigger] stmts_view(ss@)[j]),
        decreases ss.len() - i,
    {
        proof {
            assert(decreases_to!(ss@ => ss@[i as int]));
        }
        if !stmt_is_printable(&ss[i]) {
            assert(!stmt_printable(stmts_view(ss@)[i as int]));
            return false;
        }
        i = i + 1;
    }
    true
}

/// Whether a statement can be printed (it holds no `if` expression).
pub fn stmt_is_printable(s: &Statement) -> (b: bool)
    ensures
        b == stmt_printable(s@),
    decreases s, 2nat,
{
    match s {
        Statement::Let(_, e) => expr_is_printable(e),
        Statement::Return(e) => expr_is_printable(e),
        Statement::Expression(e) => expr_is_printable(e),
    }
}

/// Whether an expression can be printed (it holds no `if` expression).
pub fn expr_is_printable(e: &Expression) -> (b: bool)
    ensures
        b == expr_printable(e@),
    decreases e, 2nat,
{
    match e {
        Expression::ListLiteral(vs) => {
            proof {
                assert(decreases_to!(*e => (*e)->ListLiteral_0));
            }
            assert(e@ == ExprV::ListLiteral(exprs_view(vs@)));
            exprs_are_printable(vs)
        },
        Expression::Prefix { right, .. } => expr_is_printable(right),
        Expression::Infix { left, right, .. } => expr_is_printable(left) && expr_is_printable(right),
        Expression::If { .. } => false,
        Expression::FunctionLiteral(f) => {
            proof {
                assert(decreases_to!(*e => (*e)->FunctionLiteral_0));
                assert(decreases_to!(*f => f.body));
            }
            assert(e@ == ExprV::FunctionLiteral(func_view(*f)));
            stmts_are_printable_rec(&f.body)
        },
        Expression::Call { function, arguments } => {
            proof {
                assert(decreases_to!(*e => (*e)->arguments));
                assert(decreases_to!(*e => (*e)->function));
            }
            let c = match function {
                CallFunctionExpression::Identifier(_) => true,
                CallFunctionExpression::Literal(f) => {
                    proof {
                        assert(decreases_to!(*function => (*function)->Literal_0));
                        assert(decreases_to!(*f => f.body));
                    }
                    stmts_are_printable_rec(&f.body)
                },
            };
            assert(c == callee_printable(callee_view(*function)));
            assert(e@ == ExprV::Call { function: callee_view(*function), arguments: exprs_view(arguments@) });
            c && exprs_are_printable(arguments)
        },
        Expression::Index { left, index } => expr_is_printable(left) && expr_is_printable(index),
        _ => true,
    }
}

} // verus!
