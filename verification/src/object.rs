//! Runtime values of Monkey programs and the operators on them.
pub mod env;

use vstd::prelude::*;
use vstd::std_specs::convert::FromSpecImpl;
use crate::ast;
use crate::ast::{
    copy_stmts, copy_strings, lemma_stmts_printable_elems, lemma_stmts_view, spec_join,
    spec_operator_text, spec_stmt_text, stmt_printable, stmt_view, stmts_equal, stmts_printable, stmts_view,
    strings_equal, strings_view, Operator, Statement, Statements, StmtV,
};
use crate::lexer::{lemma_decimal_digits, spec_all_digits, spec_decimal_value, spec_is_digit};
use crate::text::{lit, push_int, push_str, push_string, spec_int_text, string_push};

verus! {

/// Names the scope (environment frame) in which a function was created.
#[derive(Clone, Copy, PartialEq, Eq, Structural, Debug)]
pub struct Scope(pub usize);

impl Scope {
    /// The outermost scope of an environment.
    pub fn root() -> (s: Scope)
        ensures
            s.0 == 0,
    {
        Scope(0)
    }
}

#[derive(PartialEq, Debug)]
pub enum Object {
    Null,
    Boolean(bool),
    Integer(isize),
    Str(String),
    Function(Function),
    BuiltIn(BuiltIn),
    List(Vec<Object>),
}

#[derive(PartialEq, Eq, Structural, Debug, Clone, Copy)]
pub enum BuiltIn {
    Len,
    Index,
    Push,
    Rest,
    Print,
}

/// A function value: its parameters, its body, and the scope it closes over.
#[derive(PartialEq, Debug)]
pub struct Function {
    pub params: Vec<String>,
    pub body: Statements,
    pub env: Scope,
}

pub const NULL: Object = Object::Null;

/// Mathematical view of a function value.
pub struct ClosureV {
    pub params: Seq<Seq<char>>,
    pub body: Seq<StmtV>,
    pub scope: nat,
}

/// Mathematical view of a value.
pub enum ObjV {
    Null,
    Boolean(bool),
    Integer(int),
    Str(Seq<char>),
    Function(ClosureV),
    BuiltIn(BuiltIn),
    List(Seq<ObjV>),
}

pub open spec fn closure_view(f: Function) -> ClosureV {
    ClosureV { params: strings_view(f.params@), body: stmts_view(f.body@), scope: f.env.0 as nat }
}

pub open spec fn obj_view(o: Object) -> ObjV
    decreases o,
{
    match o {
        Object::Null => ObjV::Null,
        Object::Boolean(b) => ObjV::Boolean(b),
        Object::Integer(i) => ObjV::Integer(i as int),
        Object::Str(s) => ObjV::Str(s@),
        Object::Function(f) => ObjV::Function(closure_view(f)),
        Object::BuiltIn(b) => ObjV::BuiltIn(b),
        Object::List(vs) => ObjV::List(objs_view(vs@)),
    }
}

pub open spec fn objs_view(s: Seq<Object>) -> Seq<ObjV>
    decreases s,
{
    if s.len() == 0 {
        Seq::empty()
    } else {
        objs_view(s.drop_last()).push(obj_view(s.last()))
    }
}

pub proof fn lemma_objs_view(s: Seq<Object>)
    ensures
        objs_view(s).len() == s.len(),
        forall|i: int| 0 <= i < s.len() ==> #[trigger] objs_view(s)[i] == obj_view(s[i]),
    decreases s.len(),
{
    if s.len() > 0 {
        lemma_objs_view(s.drop_last());
        assert(objs_view(s) == objs_view(s.drop_last()).push(obj_view(s.last())));
        assert(objs_view(s).len() == s.len());
    } else {
        assert(objs_view(s).len() == 0);
    }
}

pub proof fn lemma_objs_view_ext(a: Seq<Object>, b: Seq<ObjV>)
    requires
        a.len() == b.len(),
        forall|i: int| 0 <= i < a.len() ==> obj_view(#[trigger] a[i]) == b[i],
    ensures
        objs_view(a) == b,
{
    lemma_objs_view(a);
    assert(objs_view(a) =~= b);
}

impl View for Object {
    type V = ObjV;

    open spec fn view(&self) -> ObjV {
        obj_view(*self)
    }
}

impl View for Function {
    type V = ClosureV;

    open spec fn view(&self) -> ClosureV {
        closure_view(*self)
    }
}

impl Function {
    /// The function value of a function literal created in scope `env`.
    pub fn new(env: Scope, f: ast::Function) -> (r: Function)
        ensures
            r@ == (ClosureV { params: f@.params, body: f@.body, scope: env.0 as nat }),
    {
        Function { params: f.params, body: f.body, env }
    }
}

// ---------------------------------------------------------------------------
// Equality of values
// ---------------------------------------------------------------------------

/// A value with the scopes of its function values forgotten: two function values
/// are equal when their parameters and bodies are, wherever they were created.
pub open spec fn erase_scopes(o: ObjV) -> ObjV
    decreases o,
{
    match o {
        ObjV::Function(c) => ObjV::Function(ClosureV { params: c.params, body: c.body, scope: 0 }),
        ObjV::List(vs) => ObjV::List(erase_scopes_all(vs)),
        _ => o,
    }
}

pub open spec fn erase_scopes_all(s: Seq<ObjV>) -> Seq<ObjV>
    decreases s,
{
    if s.len() == 0 {
        Seq::empty()
    } else {
        erase_scopes_all(s.drop_last()).push(erase_scopes(s.last()))
    }
}

pub proof fn lemma_erase_all(s: Seq<ObjV>)
    ensures
        erase_scopes_all(s).len() == s.len(),
        forall|i: int| 0 <= i < s.len() ==> #[trigger] erase_scopes_all(s)[i] == erase_scopes(s[i]),
    decreases s.len(),
{
    if s.len() > 0 {
        lemma_erase_all(s.drop_last());
        assert(erase_scopes_all(s) == erase_scopes_all(s.drop_last()).push(erase_scopes(s.last())));
        assert(erase_scopes_all(s).len() == s.len());
    } else {
        assert(erase_scopes_all(s).len() == 0);
    }
}

/// The equality of Monkey values used by `==` and `!=`.
pub open spec fn obj_eq(a: ObjV, b: ObjV) -> bool {
    erase_scopes(a) == erase_scopes(b)
}

#[verifier::loop_isolation(false)]
fn objects_equal(a: &Vec<Object>, b: &Vec<Object>) -> (r: bool)
    ensures
        r == (erase_scopes_all(objs_view(a@)) == erase_scopes_all(objs_view(b@))),
    decreases a@, 0nat,
{
    proof {
        lemma_objs_view(a@);
        lemma_objs_view(b@);
        lemma_erase_all(objs_view(a@));
        lemma_erase_all(objs_view(b@));
    }
    if a.len() != b.len() {
        return false;
    }
    let mut i: usize = 0;
    while i < a.len()
        invariant
            i <= a.len(),
            forall|j: int|
                0 <= j < i ==> #[trigger] erase_scopes(obj_view(a@[j])) == erase_scopes(
                    obj_view(b@[j]),
                ),
        decreases a.len() - i,
    {
        proof {
            assert(decreases_to!(a@ => a@[i as int]));
        }
        if !object_equal(&a[i], &b[i]) {
            assert(erase_scopes_all(objs_view(a@))[i as int] != erase_scopes_all(objs_view(b@))[i as int]);
            return false;
        }
        i = i + 1;
    }
    assert(erase_scopes_all(objs_view(a@)) =~= erase_scopes_all(objs_view(b@))) by {
        assert forall|j: int| 0 <= j < a.len() implies erase_scopes_all(objs_view(a@))[j]
            == erase_scopes_all(objs_view(b@))[j] by {
            assert(erase_scopes(obj_view(a@[j])) == erase_scopes(obj_view(b@[j])));
        }
    }
    true
}

/// Whether two values are equal in the sense of Monkey's `==`.
pub fn object_equal(a: &Object, b: &Object) -> (r: bool)
    ensures
        r == obj_eq(a@, b@),
    decreases a, 2nat,
{
    match (a, b) {
        (Object::Null, Object::Null) => true,
        (Object::Boolean(x), Object::Boolean(y)) => *x == *y,
        (Object::Integer(x), Object::Integer(y)) => *x == *y,
        (Object::Str(x), Object::Str(y)) => *x == *y,
        (Object::Function(f), Object::Function(g)) => {
            let r = strings_equal(&f.params, &g.params) && stmts_equal(&f.body, &g.body);
            r
        },
        (Object::BuiltIn(x), Object::BuiltIn(y)) => *x == *y,
        (Object::List(x), Object::List(y)) => {
            proof {
                assert(decreases_to!(*a => (*a)->List_0));
            }
            let r = objects_equal(x, y);
            assert(erase_scopes(a@) == ObjV::List(erase_scopes_all(objs_view(x@))));
            assert(erase_scopes(b@) == ObjV::List(erase_scopes_all(objs_view(y@))));
            r
        },
        _ => false,
    }
}

// ---------------------------------------------------------------------------
// Copies
// ---------------------------------------------------------------------------

#[verifier::loop_isolation(false)]
pub fn copy_objects(v: &Vec<Object>) -> (r: Vec<Object>)
    ensures
        objs_view(r@) == objs_view(v@),
    decreases v@, 0nat,
{
    proof {
        lemma_objs_view(v@);
    }
    let mut r: Vec<Object> = Vec::new();
    let mut i: usize = 0;
    while i < v.len()
        invariant
            i <= v.len(),
            r.len() == i,
            forall|j: int| 0 <= j < i ==> obj_view(#[trigger] r@[j]) == obj_view(v@[j]),
        decreases v.len() - i,
    {
        proof {
            assert(decreases_to!(v@ => v@[i as int]));
        }
        let c = copy_object(&v[i]);
        r.push(c);
        i = i + 1;
    }
    proof {
        lemma_objs_view_ext(r@, objs_view(v@));
    }
    r
}

/// A copy of a function value.
pub fn copy_function(f: &Function) -> (r: Function)
    ensures
        r@ == f@,
{
    Function { params: copy_strings(&f.params), body: copy_stmts(&f.body), env: f.env }
}

/// A copy of a value.
pub fn copy_object(o: &Object) -> (r: Object)
    ensures
        r@ == o@,
    decreases o, 2nat,
{
    match o {
        Object::Null => Object::Null,
        Object::Boolean(b) => Object::Boolean(*b),
        Object::Integer(i) => Object::Integer(*i),
        Object::Str(s) => {
            let c = s.clone();
            assert(c@ == s@);
            Object::Str(c)
        },
        Object::Function(f) => Object::Function(copy_function(f)),
        Object::BuiltIn(b) => Object::BuiltIn(*b),
        Object::List(vs) => {
            proof {
                assert(decreases_to!(*o => (*o)->List_0));
            }
            let r = Object::List(copy_objects(vs));
            assert(r@ == o@);
            r
        },
    }
}

impl Clone for Object {
    fn clone(&self) -> (r: Self)
        ensures
            r@ == self@,
    {
        copy_object(self)
    }
}

impl Clone for Function {
    fn clone(&self) -> (r: Self)
        ensures
            r@ == self@,
    {
        copy_function(self)
    }
}

// ---------------------------------------------------------------------------
// Truthiness, type names and operators
// ---------------------------------------------------------------------------

/// `false` and `null` are falsy; every other value is truthy.
pub open spec fn spec_is_truthy(o: ObjV) -> bool {
    match o {
        ObjV::Boolean(false) | ObjV::Null => false,
        _ => true,
    }
}

/// The type name of a value as it appears in error messages.
pub open spec fn spec_type_str(o: ObjV) -> Seq<char> {
    match o {
        ObjV::Null => "null"@,
        ObjV::Boolean(_) => "bool"@,
        ObjV::Integer(_) => "int"@,
        ObjV::Function(_) => "function"@,
        ObjV::Str(_) => "string"@,
        ObjV::BuiltIn(_) => "BuiltIn"@,
        ObjV::List(_) => "List"@,
    }
}

pub open spec fn fits_isize(i: int) -> bool {
    isize::MIN <= i <= isize::MAX
}

/// The quotient of integer division rounded toward zero, as Rust's `/` computes it.
pub open spec fn trunc_div(a: int, b: int) -> int {
    let ma: int = if a < 0 {
        -a
    } else {
        a
    };
    let mb: int = if b < 0 {
        -b
    } else {
        b
    };
    if (a < 0) != (b < 0) {
        -(ma / mb)
    } else {
        ma / mb
    }
}

/// Mathematical view of an operator error.
pub enum ObjErrV {
    TypeMismatch { operator: Operator, left: ObjV, right: ObjV },
    UnknownOperation { operator: Operator, right: ObjV },
}

#[derive(Debug, PartialEq)]
pub enum Error {
    TypeMismatch { operator: Operator, left: Object, right: Object },
    UnknownOperation { operator: Operator, right: Object },
}

impl View for Error {
    type V = ObjErrV;

    open spec fn view(&self) -> ObjErrV {
        match self {
            Error::TypeMismatch { operator, left, right } => ObjErrV::TypeMismatch {
                operator: *operator,
                left: left@,
                right: right@,
            },
            Error::UnknownOperation { operator, right } => ObjErrV::UnknownOperation {
                operator: *operator,
                right: right@,
            },
        }
    }
}

/// Whether applying an infix operator to two values is an arithmetic fault
/// (an integer result out of range, or a division by zero), on which the
/// operation aborts.
pub open spec fn spec_operator_faults(op: Operator, l: ObjV, r: ObjV) -> bool {
    match (l, r) {
        (ObjV::Integer(a), ObjV::Integer(b)) => match op {
            Operator::Plus => !fits_isize(a + b),
            Operator::Minus => !fits_isize(a - b),
            Operator::Multiply => !fits_isize(a * b),
            Operator::Divide => b == 0 || !fits_isize(trunc_div(a, b)),
            _ => false,
        },
        _ => false,
    }
}

/// The result of an infix operator on two values.
pub open spec fn spec_apply_operator(op: Operator, l: ObjV, r: ObjV) -> Result<ObjV, ObjErrV> {
    match (op, l, r) {
        (Operator::Plus, ObjV::Integer(a), ObjV::Integer(b)) => Ok(ObjV::Integer(a + b)),
        (Operator::Minus, ObjV::Integer(a), ObjV::Integer(b)) => Ok(ObjV::Integer(a - b)),
        (Operator::Multiply, ObjV::Integer(a), ObjV::Integer(b)) => Ok(ObjV::Integer(a * b)),
        (Operator::Divide, ObjV::Integer(a), ObjV::Integer(b)) => Ok(ObjV::Integer(trunc_div(a, b))),
        (Operator::LessThan, ObjV::Integer(a), ObjV::Integer(b)) => Ok(ObjV::Boolean(a < b)),
        (Operator::GreaterThan, ObjV::Integer(a), ObjV::Integer(b)) => Ok(ObjV::Boolean(a > b)),
        (Operator::Plus, ObjV::Str(a), ObjV::Str(b)) => Ok(ObjV::Str(a + b)),
        (Operator::Equal, _, _) => Ok(ObjV::Boolean(obj_eq(l, r))),
        (Operator::NotEqual, _, _) => Ok(ObjV::Boolean(!obj_eq(l, r))),
        _ => Err(ObjErrV::TypeMismatch { operator: op, left: l, right: r }),
    }
}

/// Whether applying a prefix operator to a value is an arithmetic fault.
pub open spec fn spec_prefix_faults(op: Operator, r: ObjV) -> bool {
    match (op, r) {
        (Operator::Minus, ObjV::Integer(v)) => !fits_isize(-v),
        _ => false,
    }
}

/// The result of a prefix operator on a value.
pub open spec fn spec_apply_prefix_operator(op: Operator, r: ObjV) -> Result<ObjV, ObjErrV> {
    match (op, r) {
        (Operator::Not, ObjV::Boolean(b)) => Ok(ObjV::Boolean(!b)),
        (Operator::Not, ObjV::Integer(_)) => Ok(ObjV::Boolean(false)),
        (Operator::Minus, ObjV::Integer(v)) => Ok(ObjV::Integer(-v)),
        _ => Err(ObjErrV::UnknownOperation { operator: op, right: r }),
    }
}

fn divide(a: isize, b: isize) -> (q: isize)
    requires
        b != 0,
        fits_isize(trunc_div(a as int, b as int)),
    ensures
        q as int == trunc_div(a as int, b as int),
{
    let wa: i128 = a as i128;
    let wb: i128 = b as i128;
    let ma: i128 = if wa < 0 {
        -wa
    } else {
        wa
    };
    let mb: i128 = if wb < 0 {
        -wb
    } else {
        wb
    };
    let m: i128 = ma / mb;
    if (a < 0) != (b < 0) {
        (-m) as isize
    } else {
        m as isize
    }
}

proof fn lemma_trunc_div(a: int, b: int)
    requires
        b != 0,
        fits_isize(a),
        fits_isize(b),
    ensures
        fits_isize(trunc_div(a, b)) <==> !(a == isize::MIN && b == -1),
{
    let ma: int = if a < 0 {
        -a
    } else {
        a
    };
    let mb: int = if b < 0 {
        -b
    } else {
        b
    };
    assert(mb >= 1);
    assert(0 <= ma / mb <= ma) by (nonlinear_arith)
        requires
            ma >= 0,
            mb >= 1,
    ;
    if mb >= 2 {
        assert(ma / mb <= ma / 2) by (nonlinear_arith)
            requires
                ma >= 0,
                mb >= 2,
        ;
    }
    if mb == 1 {
        assert(ma / mb == ma) by (nonlinear_arith)
            requires
                mb == 1,
        ;
    }
}

/// Whether applying an infix operator to two values is an arithmetic fault.
pub fn operator_faults(op: Operator, l: &Object, r: &Object) -> (b: bool)
    ensures
        b == spec_operator_faults(op, l@, r@),
{
    match (l, r) {
        (Object::Integer(a), Object::Integer(b)) => match op {
            Operator::Plus => a.checked_add(*b).is_none(),
            Operator::Minus => a.checked_sub(*b).is_none(),
            Operator::Multiply => a.checked_mul(*b).is_none(),
            Operator::Divide => {
                proof {
                    if *b != 0 {
                        lemma_trunc_div(*a as int, *b as int);
                    }
                }
                *b == 0 || (*a == isize::MIN && *b == -1)
            },
            _ => false,
        },
        _ => false,
    }
}

/// Whether applying a prefix operator to a value is an arithmetic fault.
pub fn prefix_faults(op: Operator, r: &Object) -> (b: bool)
    ensures
        b == spec_prefix_faults(op, r@),
{
    match (op, r) {
        (Operator::Minus, Object::Integer(v)) => *v == isize::MIN,
        _ => false,
    }
}

impl Object {
    /// `false` and `null` are falsy; every other value is truthy.
    pub fn is_truthy(&self) -> (b: bool)
        ensures
            b == spec_is_truthy(self@),
    {
        match self {
            Object::Boolean(false) | Object::Null => false,
            _ => true,
        }
    }

    /// The type name of the value: `null`, `bool`, `int`, `function`, `string`,
    /// `BuiltIn` or `List`.
    pub fn type_str(&self) -> (s: String)
        ensures
            s@ == spec_type_str(self@),
    {
        match self {
            Object::Null => lit("null"),
            Object::Boolean(_) => lit("bool"),
            Object::Integer(_) => lit("int"),
            Object::Function(_) => lit("function"),
            Object::Str(_) => lit("string"),
            Object::BuiltIn(_) => lit("BuiltIn"),
            Object::List(_) => lit("List"),
        }
    }

    /// Applies an infix operator: integer arithmetic and comparison, string
    /// concatenation with `+`, and equality on any two values.
    pub fn apply_operator(self, operator: Operator, other: Object) -> (r: Result<Object, Error>)
        requires
            !spec_operator_faults(operator, self@, other@),
        ensures
            r matches Ok(o) ==> spec_apply_operator(operator, self@, other@) == Ok::<ObjV, ObjErrV>(o@),
            r matches Err(e) ==> spec_apply_operator(operator, self@, other@) == Err::<ObjV, ObjErrV>(e@),
    {
        match (operator, self, other) {
            (Operator::Plus, Object::Integer(l), Object::Integer(r)) => Ok(Object::Integer(l + r)),
            (Operator::Minus, Object::Integer(l), Object::Integer(r)) => Ok(Object::Integer(l - r)),
            (Operator::Multiply, Object::Integer(l), Object::Integer(r)) => Ok(Object::Integer(l * r)),
            (Operator::Divide, Object::Integer(l), Object::Integer(r)) => Ok(Object::Integer(divide(l, r))),
            (Operator::LessThan, Object::Integer(l), Object::Integer(r)) => Ok(Object::Boolean(l < r)),
            (Operator::GreaterThan, Object::Integer(l), Object::Integer(r)) => Ok(Object::Boolean(l > r)),
            (Operator::Plus, Object::Str(l), Object::Str(r)) => {
                let mut s = l;
                push_string(&mut s, &r);
                Ok(Object::Str(s))
            },
            (Operator::Equal, l, r) => Ok(Object::Boolean(object_equal(&l, &r))),
            (Operator::NotEqual, l, r) => Ok(Object::Boolean(!object_equal(&l, &r))),
            (operator, left, right) => Err(Error::TypeMismatch { operator, left, right }),
        }
    }

    /// Applies a prefix operator: `!` on booleans (and `false` for any integer),
    /// `-` on integers.
    pub fn apply_prefix_operator(self, operator: Operator) -> (r: Result<Object, Error>)
        requires
            !spec_prefix_faults(operator, self@),
        ensures
            r matches Ok(o) ==> spec_apply_prefix_operator(operator, self@) == Ok::<ObjV, ObjErrV>(o@),
            r matches Err(e) ==> spec_apply_prefix_operator(operator, self@) == Err::<ObjV, ObjErrV>(e@),
    {
        match (operator, self) {
            (Operator::Not, Object::Boolean(true)) => Ok(Object::Boolean(false)),
            (Operator::Not, Object::Boolean(false)) => Ok(Object::Boolean(true)),
            (Operator::Not, Object::Integer(_)) => Ok(Object::Boolean(false)),
            (Operator::Minus, Object::Integer(v)) => Ok(Object::Integer(-v)),
            (operator, right) => Err(Error::UnknownOperation { operator, right }),
        }
    }
}

impl From<bool> for Object {
    fn from(val: bool) -> (r: Object) {
        Object::Boolean(val)
    }
}

impl FromSpecImpl<bool> for Object {
    open spec fn obeys_from_spec() -> bool {
        true
    }

    open spec fn from_spec(v: bool) -> Object {
        Object::Boolean(v)
    }
}

impl From<isize> for Object {
    fn from(val: isize) -> (r: Object) {
        Object::Integer(val)
    }
}

impl FromSpecImpl<isize> for Object {
    open spec fn obeys_from_spec() -> bool {
        true
    }

    open spec fn from_spec(v: isize) -> Object {
        Object::Integer(v)
    }
}

impl From<&str> for Object {
    fn from(val: &str) -> (r: Object)
        ensures
            r@ == ObjV::Str(val@),
    {
        Object::Str(lit(val))
    }
}

/// A string value made from a text: some `String` holding that text. Two
/// `String`s with one text are not known to be equal in a specification, so
/// the `From` equation is not claimed; the conversion's own contract states
/// the value by its view.
impl FromSpecImpl<&str> for Object {
    open spec fn obeys_from_spec() -> bool {
        false
    }

    open spec fn from_spec(v: &str) -> Object {
        Object::Str(choose|s: String| s@ == v@)
    }
}

// ---------------------------------------------------------------------------
// Printed form
// ---------------------------------------------------------------------------

/// The printed name of a built-in function, e.g. `<built-in function len>`.
pub open spec fn spec_builtin_text(b: BuiltIn) -> Seq<char> {
    "<built-in function "@ + match b {
        BuiltIn::Len => "len"@,
        BuiltIn::Index => "index"@,
        BuiltIn::Push => "push"@,
        BuiltIn::Rest => "rest"@,
        BuiltIn::Print => "print"@,
    } + ">"@
}

/// The body lines of a printed function: each statement on its own line,
/// indented by four spaces and ended by `;`.
pub open spec fn spec_body_lines(ss: Seq<StmtV>) -> Seq<char>
    decreases ss.len(),
{
    if ss.len() == 0 {
        Seq::empty()
    } else {
        spec_body_lines(ss.drop_last()) + "    "@ + spec_stmt_text(ss.last()) + ";\n"@
    }
}

/// A function value printed as `fn(x, y) {` and its body lines, then `}`.
pub open spec fn spec_closure_text(c: ClosureV) -> Seq<char> {
    "fn("@ + spec_join(c.params, ", "@) + ") {\n"@ + spec_body_lines(c.body) + "}"@
}

/// Whether a value can be printed: function bodies hold no `if` expression.
pub open spec fn obj_printable(o: ObjV) -> bool
    decreases o,
{
    match o {
        ObjV::Function(c) => stmts_printable(c.body),
        ObjV::List(vs) => objs_printable(vs),
        _ => true,
    }
}

pub open spec fn objs_printable(s: Seq<ObjV>) -> bool
    decreases s,
{
    if s.len() == 0 {
        true
    } else {
        objs_printable(s.drop_last()) && obj_printable(s.last())
    }
}

/// The printed form of a value: `null`, `true`, `-5`, the raw characters of a
/// string, a function, `<built-in function len>`, or `[1, 2]`.
pub open spec fn spec_obj_text(o: ObjV) -> Seq<char>
    decreases o,
{
    match o {
        ObjV::Null => "null"@,
        ObjV::Boolean(b) => if b {
            "true"@
        } else {
            "false"@
        },
        ObjV::Integer(i) => spec_int_text(i),
        ObjV::Str(s) => s,
        ObjV::Function(c) => spec_closure_text(c),
        ObjV::BuiltIn(b) => spec_builtin_text(b),
        ObjV::List(vs) => seq!['['] + spec_objs_text(vs) + seq![']'],
    }
}

/// Values printed and joined by `, `.
pub open spec fn spec_objs_text(s: Seq<ObjV>) -> Seq<char>
    decreases s,
{
    if s.len() == 0 {
        Seq::empty()
    } else if s.len() == 1 {
        spec_obj_text(s[0])
    } else {
        spec_objs_text(s.drop_last()) + ", "@ + spec_obj_text(s.last())
    }
}

pub proof fn lemma_objs_printable_elems(s: Seq<ObjV>)
    ensures
        objs_printable(s) <==> forall|i: int| 0 <= i < s.len() ==> obj_printable(#[trigger] s[i]),
    decreases s.len(),
{
    if s.len() > 0 {
        lemma_objs_printable_elems(s.drop_last());
        if objs_printable(s) {
            assert forall|i: int| 0 <= i < s.len() implies obj_printable(#[trigger] s[i]) by {
                if i < s.len() - 1 {
                    assert(s[i] == s.drop_last()[i]);
                }
            }
        }
        if forall|i: int| 0 <= i < s.len() ==> obj_printable(#[trigger] s[i]) {
            assert forall|i: int| 0 <= i < s.drop_last().len() implies obj_printable(
                #[trigger] s.drop_last()[i],
            ) by {
                assert(s.drop_last()[i] == s[i]);
            }
            assert(obj_printable(s[s.len() - 1]));
        }
    }
}

fn push_builtin(out: &mut String, b: BuiltIn)
    ensures
        final(out)@ == old(out)@ + spec_builtin_text(b),
{
    let ghost start = out@;
    push_str(out, "<built-in function ");
    match b {
        BuiltIn::Len => push_str(out, "len"),
        BuiltIn::Index => push_str(out, "index"),
        BuiltIn::Push => push_str(out, "push"),
        BuiltIn::Rest => push_str(out, "rest"),
        BuiltIn::Print => push_str(out, "print"),
    }
    push_str(out, ">");
    assert(out@ =~= start + spec_builtin_text(b));
}

impl BuiltIn {
    /// The printed name of the built-in, e.g. `<built-in function len>`.
    pub fn display(&self) -> (r: String)
        ensures
            r@ == spec_builtin_text(*self),
    {
        let mut r = String::new();
        push_builtin(&mut r, *self);
        assert(r@ =~= spec_builtin_text(*self));
        r
    }
}

fn push_closure(out: &mut String, f: &Function)
    requires
        stmts_printable(f@.body),
    ensures
        final(out)@ == old(out)@ + spec_closure_text(f@),
{
    let ghost start = out@;
    push_str(out, "fn(");
    let params = ast::format_vec(&f.params);
    push_string(out, &params);
    push_str(out, ") {\n");
    let ghost mid = out@;
    proof {
        lemma_stmts_view(f.body@);
        lemma_stmts_printable_elems(stmts_view(f.body@));
    }
    let mut i: usize = 0;
    while i < f.body.len()
        invariant
            i <= f.body.len(),
            stmts_printable(f@.body),
            f@.body == stmts_view(f.body@),
            stmts_view(f.body@).len() == f.body@.len(),
            forall|j: int| 0 <= j < f.body@.len() ==> #[trigger] stmts_view(f.body@)[j] == stmt_view(f.body@[j]),
            forall|j: int| 0 <= j < f.body@.len() ==> stmt_printable(#[trigger] stmts_view(f.body@)[j]),
            out@ == mid + spec_body_lines(stmts_view(f.body@).subrange(0, i as int)),
        decreases f.body.len() - i,
    {
        push_str(out, "    ");
        assert(stmt_printable(stmts_view(f.body@)[i as int]));
        let line = f.body[i].display();
        push_string(out, &line);
        push_str(out, ";\n");
        proof {
            let pre = stmts_view(f.body@).subrange(0, i as int);
            let post = stmts_view(f.body@).subrange(0, i + 1);
            assert(post.drop_last() =~= pre);
            assert(post.last() == stmt_view(f.body@[i as int]));
            assert(out@ =~= mid + spec_body_lines(post));
        }
        i = i + 1;
    }
    assert(stmts_view(f.body@).subrange(0, f.body@.len() as int) =~= stmts_view(f.body@));
    push_str(out, "}");
    assert(out@ =~= start + spec_closure_text(f@));
}

#[verifier::loop_isolation(false)]
fn push_objects(out: &mut String, vs: &Vec<Object>)
    requires
        objs_printable(objs_view(vs@)),
    ensures
        final(out)@ == old(out)@ + spec_objs_text(objs_view(vs@)),
    decreases vs@, 0nat,
{
    let ghost start = out@;
    proof {
        lemma_objs_view(vs@);
        lemma_objs_printable_elems(objs_view(vs@));
    }
    let mut i: usize = 0;
    while i < vs.len()
        invariant
            i <= vs.len(),
            out@ == start + spec_objs_text(objs_view(vs@.subrange(0, i as int))),
        decreases vs.len() - i,
    {
        if i > 0 {
            push_str(out, ", ");
        }
        proof {
            assert(decreases_to!(vs@ => vs@[i as int]));
            assert(objs_view(vs@)[i as int] == obj_view(vs@[i as int]));
        }
        push_object(out, &vs[i]);
        proof {
            let pre = vs@.subrange(0, i as int);
            let post = vs@.subrange(0, i + 1);
            assert(post.drop_last() =~= pre);
            assert(post.last() == vs@[i as int]);
            lemma_objs_view(pre);
            lemma_objs_view(post);
            assert(objs_view(post).drop_last() =~= objs_view(pre));
            if i == 0 {
                assert(objs_view(post)[0] == obj_view(vs@[0]));
            }
            assert(out@ =~= start + spec_objs_text(objs_view(post)));
        }
        i = i + 1;
    }
    assert(vs@.subrange(0, vs@.len() as int) =~= vs@);
}

/// Appends the printed form of a value.
pub fn push_object(out: &mut String, o: &Object)
    requires
        obj_printable(o@),
    ensures
        final(out)@ == old(out)@ + spec_obj_text(o@),
    decreases o, 2nat,
{
    let ghost start = out@;
    match o {
        Object::Null => push_str(out, "null"),
        Object::Boolean(b) => {
            if *b {
                push_str(out, "true");
            } else {
                push_str(out, "false");
            }
        },
        Object::Integer(i) => push_int(out, *i),
        Object::Str(s) => push_string(out, s),
        Object::Function(f) => push_closure(out, f),
        Object::BuiltIn(b) => push_builtin(out, *b),
        Object::List(vs) => {
            string_push(out, '[');
            proof {
                assert(decreases_to!(*o => (*o)->List_0));
            }
            push_objects(out, vs);
            string_push(out, ']');
            assert(out@ =~= start + spec_obj_text(o@));
        },
    }
    assert(out@ =~= start + spec_obj_text(o@));
}

impl Object {
    /// The printed form of the value.
    pub fn display(&self) -> (r: String)
        requires
            obj_printable(self@),
        ensures
            r@ == spec_obj_text(self@),
    {
        let mut r = String::new();
        push_object(&mut r, self);
        assert(r@ =~= spec_obj_text(self@));
        r
    }

    /// Whether the value can be printed (no function body in it holds an `if`).
    #[verifier::loop_isolation(false)]
    pub fn is_printable(&self) -> (b: bool)
        ensures
            b == obj_printable(self@),
        decreases self, 2nat,
    {
        match self {
            Object::Function(f) => stmts_are_printable(&f.body),
            Object::List(vs) => {
                proof {
                    assert(decreases_to!(*self => (*self)->List_0));
                    lemma_objs_view(vs@);
                    lemma_objs_printable_elems(objs_view(vs@));
                }
                let mut i: usize = 0;
                while i < vs.len()
                    invariant
                        i <= vs.len(),
                        decreases_to!(*self => vs@),
                        objs_view(vs@).len() == vs@.len(),
                        forall|j: int| 0 <= j < vs@.len() ==> #[trigger] objs_view(vs@)[j] == obj_view(vs@[j]),
                        objs_printable(objs_view(vs@)) <==> forall|j: int| 0 <= j < vs@.len() ==> obj_printable(#[trigger] objs_view(vs@)[j]),
                        forall|j: int| 0 <= j < i ==> obj_printable(#[trigger] objs_view(vs@)[j]),
                    decreases vs.len() - i,
                {
                    proof {
                        assert(decreases_to!(vs@ => vs@[i as int]));
                    }
                    if !vs[i].is_printable() {
                        assert(!obj_printable(objs_view(vs@)[i as int]));
                        proof {
                            lemma_objs_printable_elems(objs_view(vs@));
                        }
                        assert(self@ == ObjV::List(objs_view(vs@)));
                        return false;
                    }
                    i = i + 1;
                }
                true
            },
            _ => true,
        }
    }
}

/// Whether statements can be printed (no `if` expression in them).
pub fn stmts_are_printable(ss: &Vec<Statement>) -> (b: bool)
    ensures
        b == stmts_printable(stmts_view(ss@)),
{
    proof {
        lemma_stmts_view(ss@);
        lemma_stmts_printable_elems(stmts_view(ss@));
    }
    let mut i: usize = 0;
    while i < ss.len()
        invariant
            i <= ss.len(),
            stmts_view(ss@).len() == ss@.len(),
            forall|j: int| 0 <= j < ss@.len() ==> #[trigger] stmts_view(ss@)[j] == stmt_view(ss@[j]),
            forall|j: int| 0 <= j < i ==> stmt_printable(#[trigger] stmts_view(ss@)[j]),
        decreases ss.len() - i,
    {
        if !ast::stmt_is_printable(&ss[i]) {
            assert(!stmt_printable(stmts_view(ss@)[i as int]));
            proof {
                lemma_stmts_printable_elems(stmts_view(ss@));
            }
            return false;
        }
        i = i + 1;
    }
    true
}

impl Error {
    /// The message of the error, e.g.
    /// `TypeError: unsupported operand type(s) for +: 'int' and 'bool'`.
    pub fn display(&self) -> (r: String)
        ensures
            r@ == spec_obj_error_text(self@),
    {
        let mut r = lit("TypeError: unsupported operand type(s) for ");
        match self {
            Error::TypeMismatch { operator, left, right } => {
                push_string(&mut r, &operator.display());
                push_str(&mut r, ": '");
                push_string(&mut r, &left.type_str());
                push_str(&mut r, "' and '");
                push_string(&mut r, &right.type_str());
                push_str(&mut r, "'");
            },
            Error::UnknownOperation { operator, right } => {
                push_string(&mut r, &operator.display());
                push_str(&mut r, ": '");
                push_string(&mut r, &right.type_str());
                push_str(&mut r, "'");
            },
        }
        assert(r@ =~= spec_obj_error_text(self@));
        r
    }
}

/// The message of an operator error.
pub open spec fn spec_obj_error_text(e: ObjErrV) -> Seq<char> {
    match e {
        ObjErrV::TypeMismatch { operator, left, right } => "TypeError: unsupported operand type(s) for "@
            + spec_operator_text(operator) + ": '"@ + spec_type_str(left) + "' and '"@
            + spec_type_str(right) + "'"@,
        ObjErrV::UnknownOperation { operator, right } => "TypeError: unsupported operand type(s) for "@
            + spec_operator_text(operator) + ": '"@ + spec_type_str(right) + "'"@,
    }
}

/// The printed form of an integer reads back as that integer: a negative
/// integer prints as `-` followed by the decimal digits of its magnitude, any
/// other integer as its decimal digits alone.
pub proof fn lemma_integer_text_reads_back(i: int)
    ensures
        ({
            let t = spec_obj_text(ObjV::Integer(i));
            &&& i < 0 ==> t.len() > 1 && t[0] == '-' && spec_all_digits(t.drop_first())
                && spec_decimal_value(t.drop_first()) == -i
            &&& i >= 0 ==> t.len() > 0 && spec_all_digits(t) && spec_decimal_value(t) == i
        }),
{
    let t = spec_obj_text(ObjV::Integer(i));
    if i < 0 {
        lemma_decimal_digits((-i) as nat);
        assert(t.drop_first() =~= crate::text::spec_decimal((-i) as nat));
    } else {
        lemma_decimal_digits(i as nat);
    }
}

/// Different integers print differently.
pub proof fn lemma_integer_text_injective(i: int, j: int)
    requires
        spec_obj_text(ObjV::Integer(i)) == spec_obj_text(ObjV::Integer(j)),
    ensures
        i == j,
{
    lemma_integer_text_reads_back(i);
    lemma_integer_text_reads_back(j);
    let t = spec_obj_text(ObjV::Integer(i));
    if i < 0 && j >= 0 {
        assert(spec_is_digit(t[0]));
    }
    if j < 0 && i >= 0 {
        assert(spec_is_digit(t[0]));
    }
}

/// `==` on two integers is their equality, and `!=` its negation.
pub proof fn lemma_integer_equality(a: int, b: int)
    ensures
        spec_apply_operator(Operator::Equal, ObjV::Integer(a), ObjV::Integer(b)) == Ok::<ObjV, ObjErrV>(
            ObjV::Boolean(a == b),
        ),
        spec_apply_operator(Operator::NotEqual, ObjV::Integer(a), ObjV::Integer(b)) == Ok::<
            ObjV,
            ObjErrV,
        >(ObjV::Boolean(a != b)),
{
}

/// `==` on two lists is true exactly when they have the same length and their
/// elements are pairwise `==`; `!=` is its negation.
pub proof fn lemma_list_equality(xs: Seq<ObjV>, ys: Seq<ObjV>)
    ensures
        ({
            let same = xs.len() == ys.len() && forall|i: int|
                0 <= i < xs.len() ==> spec_apply_operator(Operator::Equal, #[trigger] xs[i], ys[i])
                    == Ok::<ObjV, ObjErrV>(ObjV::Boolean(true));
            &&& spec_apply_operator(Operator::Equal, ObjV::List(xs), ObjV::List(ys)) == Ok::<ObjV, ObjErrV>(
                ObjV::Boolean(same),
            )
            &&& spec_apply_operator(Operator::NotEqual, ObjV::List(xs), ObjV::List(ys)) == Ok::<
                ObjV,
                ObjErrV,
            >(ObjV::Boolean(!same))
        }),
{
    lemma_erase_all(xs);
    lemma_erase_all(ys);
    let ex = erase_scopes_all(xs);
    let ey = erase_scopes_all(ys);
    let same = xs.len() == ys.len() && forall|i: int|
        0 <= i < xs.len() ==> spec_apply_operator(Operator::Equal, #[trigger] xs[i], ys[i])
            == Ok::<ObjV, ObjErrV>(ObjV::Boolean(true));
    assert(erase_scopes(ObjV::List(xs)) == ObjV::List(ex));
    assert(erase_scopes(ObjV::List(ys)) == ObjV::List(ey));
    if same {
        assert forall|i: int| 0 <= i < ex.len() implies ex[i] == ey[i] by {
            assert(spec_apply_operator(Operator::Equal, xs[i], ys[i]) == Ok::<ObjV, ObjErrV>(ObjV::Boolean(true)));
        }
        assert(ex =~= ey);
    }
    if ex == ey {
        assert forall|i: int| 0 <= i < xs.len() implies spec_apply_operator(
            Operator::Equal,
            #[trigger] xs[i],
            ys[i],
        ) == Ok::<ObjV, ObjErrV>(ObjV::Boolean(true)) by {
            assert(ex[i] == ey[i]);
        }
    }
}

/// `==` on two values that are neither lists nor functions is their equality.
pub proof fn lemma_plain_equality(a: ObjV, b: ObjV)
    requires
        !(a is List || a is Function),
        !(b is List || b is Function),
    ensures
        spec_apply_operator(Operator::Equal, a, b) == Ok::<ObjV, ObjErrV>(ObjV::Boolean(a == b)),
{
}

} // verus!
