//! Splitting Monkey source text into tokens.
use vstd::prelude::*;
use crate::text::{digit_char, spec_decimal, str_chars, string_from_chars};
use crate::token::{spec_token_text, spec_word_token, Token, TokenV};

verus! {

/// The result of `char::is_alphabetic` (the Unicode `Alphabetic` property).
pub uninterp spec fn spec_is_alphabetic(c: char) -> bool;

/// The result of `char::is_alphanumeric` (Unicode `Alphabetic` or `Numeric`).
pub uninterp spec fn spec_is_alphanumeric(c: char) -> bool;

pub open spec fn spec_is_ascii_letter(c: char) -> bool {
    ('a' <= c <= 'z') || ('A' <= c <= 'Z')
}

/// Whether `c` is alphabetic: among ASCII characters exactly the letters
/// `a`-`z` and `A`-`Z`; beyond ASCII, the Unicode `Alphabetic` property.
pub open spec fn spec_is_letter(c: char) -> bool {
    if c <= '\x7f' {
        spec_is_ascii_letter(c)
    } else {
        spec_is_alphabetic(c)
    }
}

/// Whether `c` is alphanumeric: among ASCII characters exactly the letters and
/// the digits `0`-`9`; beyond ASCII, Unicode `Alphabetic` or `Numeric`.
pub open spec fn spec_is_letter_or_digit(c: char) -> bool {
    if c <= '\x7f' {
        spec_is_ascii_letter(c) || ('0' <= c <= '9')
    } else {
        spec_is_alphanumeric(c)
    }
}

/// `char::is_alphabetic`: whether the character has the Unicode `Alphabetic`
/// property. Its result is named; the fact stated beside the name is the one
/// the Unicode tables give for ASCII: there the alphabetic characters are
/// exactly the letters `a`-`z` and `A`-`Z`.
#[verifier::external_body]
fn char_is_alphabetic(c: char) -> (b: bool)
    ensures
        b == spec_is_alphabetic(c),
        c <= '\x7f' ==> (b <==> spec_is_ascii_letter(c)),
{
    c.is_alphabetic()
}

/// `char::is_alphanumeric`: whether the character is alphabetic or numeric in
/// Unicode. Its result is named; the fact stated beside the name is the one
/// the Unicode tables give for ASCII: there the alphanumeric characters are
/// exactly the letters and the digits `0` to `9`.
#[verifier::external_body]
fn char_is_alphanumeric(c: char) -> (b: bool)
    ensures
        b == spec_is_alphanumeric(c),
        c <= '\x7f' ==> (b <==> (spec_is_ascii_letter(c) || ('0' <= c <= '9'))),
{
    c.is_alphanumeric()
}

pub open spec fn spec_is_whitespace(c: char) -> bool {
    c == ' ' || c == '\t' || c == '\n'
}

pub open spec fn spec_is_symbol(c: char) -> bool {
    c == '=' || c == '+' || c == '(' || c == ')' || c == '{' || c == '}' || c == ',' || c == ';'
        || c == '-' || c == '!' || c == '*' || c == '/' || c == '<' || c == '>' || c == '['
        || c == ']'
}

pub open spec fn spec_is_digit(c: char) -> bool {
    '0' <= c <= '9'
}

pub fn is_whitespace(c: char) -> (b: bool)
    ensures
        b == spec_is_whitespace(c),
{
    c == ' ' || c == '\t' || c == '\n'
}

pub fn is_symbol(c: char) -> (b: bool)
    ensures
        b == spec_is_symbol(c),
{
    c == '=' || c == '+' || c == '(' || c == ')' || c == '{' || c == '}' || c == ',' || c == ';'
        || c == '-' || c == '!' || c == '*' || c == '/' || c == '<' || c == '>' || c == '['
        || c == ']'
}

/// The value of a sequence of decimal digits.
pub open spec fn spec_decimal_value(s: Seq<char>) -> nat
    decreases s.len(),
{
    if s.len() == 0 {
        0
    } else {
        spec_decimal_value(s.drop_last()) * 10 + ((s.last() as int - 48) as nat)
    }
}

pub open spec fn spec_all_digits(s: Seq<char>) -> bool {
    forall|i: int| 0 <= i < s.len() ==> spec_is_digit(#[trigger] s[i])
}

/// A non-empty sequence of decimal digits whose value fits in a `usize`.
pub open spec fn spec_parse_decimal(s: Seq<char>) -> Option<nat> {
    if s.len() > 0 && spec_all_digits(s) && spec_decimal_value(s) <= usize::MAX {
        Some(spec_decimal_value(s))
    } else {
        None
    }
}

proof fn lemma_decimal_value_mono(s: Seq<char>, i: int)
    requires
        0 <= i <= s.len(),
        spec_all_digits(s),
    ensures
        spec_decimal_value(s.subrange(0, i)) <= spec_decimal_value(s),
    decreases s.len() - i,
{
    if i < s.len() {
        lemma_decimal_value_mono(s, i + 1);
        let t = s.subrange(0, i + 1);
        assert(t.drop_last() =~= s.subrange(0, i));
        assert(spec_is_digit(s[i]));
    } else {
        assert(s.subrange(0, i) =~= s);
    }
}

/// The `usize` that a sequence of decimal digits denotes; `None` when it is
/// empty, holds another character, or is too large.
pub fn parse_decimal(cs: &[char]) -> (r: Option<usize>)
    ensures
        r matches Some(v) ==> spec_parse_decimal(cs@) == Some(v as nat),
        r is None ==> spec_parse_decimal(cs@) is None,
{
    if cs.len() == 0 {
        return None;
    }
    let mut v: usize = 0;
    let mut i: usize = 0;
    let mut overflow = false;
    while i < cs.len()
        invariant
            i <= cs@.len(),
            spec_all_digits(cs@.subrange(0, i as int)),
            !overflow ==> v == spec_decimal_value(cs@.subrange(0, i as int)),
            overflow ==> spec_decimal_value(cs@.subrange(0, i as int)) > usize::MAX,
        decreases cs.len() - i,
    {
        let c = cs[i];
        if !('0' <= c && c <= '9') {
            proof {
                assert(!spec_is_digit(cs@[i as int]));
                assert(!spec_all_digits(cs@));
            }
            return None;
        }
        let d: usize = (c as u32 - 48) as usize;
        proof {
            let t = cs@.subrange(0, i + 1);
            assert(t.drop_last() =~= cs@.subrange(0, i as int));
            assert(t.last() == c);
        }
        if !overflow {
            if v > (usize::MAX - d) / 10 {
                overflow = true;
                assert(v * 10 + d > usize::MAX) by (nonlinear_arith)
                    requires
                        v > (usize::MAX - d) / 10,
                        d < 10,
                ;
            } else {
                assert(v * 10 + d <= usize::MAX) by (nonlinear_arith)
                    requires
                        v <= (usize::MAX - d) / 10,
                        d < 10,
                ;
                v = v * 10 + d;
            }
        } else {
            assert(spec_decimal_value(cs@.subrange(0, i + 1)) >= spec_decimal_value(cs@.subrange(0, i as int)));
        }
        proof {
            assert forall|j: int| 0 <= j < i + 1 implies spec_is_digit(#[trigger] cs@.subrange(0, i + 1)[j]) by {
                if j < i {
                    assert(cs@.subrange(0, i + 1)[j] == cs@.subrange(0, i as int)[j]);
                }
            }
        }
        i = i + 1;
    }
    assert(cs@.subrange(0, cs@.len() as int) =~= cs@);
    if overflow {
        None
    } else {
        Some(v)
    }
}

/// The position after the whitespace that starts at `p`.
pub open spec fn spec_skip_whitespace(s: Seq<char>, p: int) -> int
    decreases s.len() - p,
{
    if 0 <= p < s.len() && spec_is_whitespace(s[p]) {
        spec_skip_whitespace(s, p + 1)
    } else {
        p
    }
}

/// The end of the run of alphabetic characters that starts at `p`.
pub open spec fn spec_span_alphabetic(s: Seq<char>, p: int) -> int
    decreases s.len() - p,
{
    if 0 <= p < s.len() && spec_is_letter(s[p]) {
        spec_span_alphabetic(s, p + 1)
    } else {
        p
    }
}

/// The end of the run of alphanumeric characters that starts at `p`.
pub open spec fn spec_span_alphanumeric(s: Seq<char>, p: int) -> int
    decreases s.len() - p,
{
    if 0 <= p < s.len() && spec_is_letter_or_digit(s[p]) {
        spec_span_alphanumeric(s, p + 1)
    } else {
        p
    }
}

/// The end of the run of characters other than `"` that starts at `p`.
pub open spec fn spec_span_not_quote(s: Seq<char>, p: int) -> int
    decreases s.len() - p,
{
    if 0 <= p < s.len() && s[p] != '"' {
        spec_span_not_quote(s, p + 1)
    } else {
        p
    }
}

/// The symbol token at `p` (which holds a symbol character) and the position after it.
pub open spec fn spec_symbol_token(s: Seq<char>, p: int) -> (TokenV, int) {
    let c = s[p];
    let next_is_eq = p + 1 < s.len() && s[p + 1] == '=';
    if c == '=' {
        if next_is_eq {
            (TokenV::Equal, p + 2)
        } else {
            (TokenV::Assign, p + 1)
        }
    } else if c == '!' {
        if next_is_eq {
            (TokenV::NotEqual, p + 2)
        } else {
            (TokenV::Bang, p + 1)
        }
    } else {
        (
            if c == '+' {
                TokenV::Plus
            } else if c == '(' {
                TokenV::LParen
            } else if c == ')' {
                TokenV::RParen
            } else if c == '{' {
                TokenV::LBrace
            } else if c == '}' {
                TokenV::RBrace
            } else if c == ',' {
                TokenV::Comma
            } else if c == ';' {
                TokenV::Semicolon
            } else if c == '-' {
                TokenV::Minus
            } else if c == '*' {
                TokenV::Asterisk
            } else if c == '/' {
                TokenV::Slash
            } else if c == '<' {
                TokenV::LessThan
            } else if c == '>' {
                TokenV::GreaterThan
            } else if c == '[' {
                TokenV::LBracket
            } else if c == ']' {
                TokenV::RBracket
            } else {
                TokenV::Illegal(seq![c])
            },
            p + 1,
        )
    }
}

/// The next token after position `p`, skipping whitespace, and the position
/// after it; `None` when only whitespace is left.
///
/// A symbol (`==` and `!=` are two characters) gives its token; a run of
/// alphabetic characters gives a keyword or an identifier; a digit starts a
/// run of alphanumeric characters that is an integer if it is all digits and
/// fits in a `usize`, and is illegal otherwise; `"` starts a string that runs
/// to the next `"` (which is skipped) or to the end; any other character is
/// illegal on its own.
pub open spec fn spec_lex_token(s: Seq<char>, p: int) -> Option<(TokenV, int)> {
    let q = spec_skip_whitespace(s, p);
    if q < 0 || q >= s.len() {
        None
    } else {
        let c = s[q];
        if spec_is_symbol(c) {
            Some(spec_symbol_token(s, q))
        } else if spec_is_letter(c) {
            let e = spec_span_alphabetic(s, q);
            Some((spec_word_token(s.subrange(q, e)), e))
        } else if spec_is_digit(c) {
            let e = spec_span_alphanumeric(s, q);
            let lit = s.subrange(q, e);
            Some(
                (
                    match spec_parse_decimal(lit) {
                        Some(v) => TokenV::Int(v),
                        None => TokenV::Illegal(lit),
                    },
                    e,
                ),
            )
        } else if c == '"' {
            let e = spec_span_not_quote(s, q + 1);
            Some((TokenV::Str(s.subrange(q + 1, e)), if e < s.len() { e + 1 } else { e }))
        } else {
            Some((TokenV::Illegal(seq![c]), q + 1))
        }
    }
}

/// All tokens from position `p` on.
pub open spec fn spec_lex_from(s: Seq<char>, p: int) -> Seq<TokenV>
    decreases s.len() - p,
{
    match spec_lex_token(s, p) {
        None => Seq::empty(),
        Some((t, q)) => if p < q <= s.len() {
            seq![t] + spec_lex_from(s, q)
        } else {
            Seq::empty()
        },
    }
}

/// The tokens of a source text.
pub open spec fn spec_lex(s: Seq<char>) -> Seq<TokenV> {
    spec_lex_from(s, 0)
}

proof fn lemma_skip_whitespace(s: Seq<char>, p: int)
    requires
        0 <= p <= s.len(),
    ensures
        p <= spec_skip_whitespace(s, p) <= s.len(),
    decreases s.len() - p,
{
    if p < s.len() && spec_is_whitespace(s[p]) {
        lemma_skip_whitespace(s, p + 1);
    }
}

proof fn lemma_span_alphanumeric(s: Seq<char>, p: int)
    requires
        0 <= p <= s.len(),
    ensures
        p <= spec_span_alphanumeric(s, p) <= s.len(),
    decreases s.len() - p,
{
    if p < s.len() && spec_is_letter_or_digit(s[p]) {
        lemma_span_alphanumeric(s, p + 1);
    }
}

proof fn lemma_span_alphabetic(s: Seq<char>, p: int)
    requires
        0 <= p <= s.len(),
    ensures
        p <= spec_span_alphabetic(s, p) <= s.len(),
    decreases s.len() - p,
{
    if p < s.len() && spec_is_letter(s[p]) {
        lemma_span_alphabetic(s, p + 1);
    }
}

pub struct Lexer {
    chars: Vec<char>,
    pos: usize,
}

impl Lexer {
    /// The characters being read.
    pub closed spec fn input(&self) -> Seq<char> {
        self.chars@
    }

    /// The position of the next character to read.
    pub closed spec fn position(&self) -> int {
        self.pos as int
    }

    /// A lexer at the start of the input.
    pub fn new(input: &str) -> (l: Lexer)
        ensures
            l.input() == input@,
            l.position() == 0,
    {
        Lexer { chars: str_chars(input), pos: 0 }
    }

    fn skip_whitespace(&mut self)
        requires
            old(self).pos <= old(self).chars@.len(),
        ensures
            final(self).chars@ == old(self).chars@,
            final(self).pos == spec_skip_whitespace(old(self).chars@, old(self).pos as int),
            final(self).pos <= final(self).chars@.len(),
    {
        while self.pos < self.chars.len() && is_whitespace(self.chars[self.pos])
            invariant
                self.chars@ == old(self).chars@,
                self.pos <= self.chars@.len(),
                spec_skip_whitespace(self.chars@, self.pos as int) == spec_skip_whitespace(
                    old(self).chars@,
                    old(self).pos as int,
                ),
            decreases self.chars.len() - self.pos,
        {
            self.pos = self.pos + 1;
        }
    }

    fn next_symbol(&mut self) -> (t: Token)
        requires
            old(self).pos < old(self).chars@.len(),
            spec_is_symbol(old(self).chars@[old(self).pos as int]),
        ensures
            final(self).chars@ == old(self).chars@,
            (t@, final(self).pos as int) == spec_symbol_token(old(self).chars@, old(self).pos as int),
    {
        let c = self.chars[self.pos];
        let n = self.chars.len();
        assert(self.pos < n);
        self.pos = self.pos + 1;
        let next_is_eq = self.pos < self.chars.len() && self.chars[self.pos] == '=';
        if c == '=' {
            if next_is_eq {
                self.pos = self.pos + 1;
                Token::Equal
            } else {
                Token::Assign
            }
        } else if c == '!' {
            if next_is_eq {
                self.pos = self.pos + 1;
                Token::NotEqual
            } else {
                Token::Bang
            }
        } else if c == '+' {
            Token::Plus
        } else if c == '(' {
            Token::LParen
        } else if c == ')' {
            Token::RParen
        } else if c == '{' {
            Token::LBrace
        } else if c == '}' {
            Token::RBrace
        } else if c == ',' {
            Token::Comma
        } else if c == ';' {
            Token::Semicolon
        } else if c == '-' {
            Token::Minus
        } else if c == '*' {
            Token::Asterisk
        } else if c == '/' {
            Token::Slash
        } else if c == '<' {
            Token::LessThan
        } else if c == '>' {
            Token::GreaterThan
        } else if c == '[' {
            Token::LBracket
        } else {
            Token::RBracket
        }
    }

    fn span_alphabetic(&self, p: usize) -> (e: usize)
        requires
            p <= self.chars@.len(),
        ensures
            e == spec_span_alphabetic(self.chars@, p as int),
            p <= e <= self.chars@.len(),
    {
        let mut e = p;
        while e < self.chars.len() && char_is_alphabetic(self.chars[e])
            invariant
                p <= e <= self.chars@.len(),
                spec_span_alphabetic(self.chars@, e as int) == spec_span_alphabetic(self.chars@, p as int),
            decreases self.chars.len() - e,
        {
            e = e + 1;
        }
        e
    }

    fn span_alphanumeric(&self, p: usize) -> (e: usize)
        requires
            p <= self.chars@.len(),
        ensures
            e == spec_span_alphanumeric(self.chars@, p as int),
            p <= e <= self.chars@.len(),
    {
        let mut e = p;
        while e < self.chars.len() && char_is_alphanumeric(self.chars[e])
            invariant
                p <= e <= self.chars@.len(),
                spec_span_alphanumeric(self.chars@, e as int) == spec_span_alphanumeric(self.chars@, p as int),
            decreases self.chars.len() - e,
        {
            e = e + 1;
        }
        e
    }

    fn span_not_quote(&self, p: usize) -> (e: usize)
        requires
            p <= self.chars@.len(),
        ensures
            e == spec_span_not_quote(self.chars@, p as int),
            p <= e <= self.chars@.len(),
    {
        let mut e = p;
        while e < self.chars.len() && self.chars[e] != '"'
            invariant
                p <= e <= self.chars@.len(),
                spec_span_not_quote(self.chars@, e as int) == spec_span_not_quote(self.chars@, p as int),
            decreases self.chars.len() - e,
        {
            e = e + 1;
        }
        e
    }

    fn slice_string(&self, from: usize, to: usize) -> (r: String)
        requires
            from <= to <= self.chars@.len(),
        ensures
            r@ == self.chars@.subrange(from as int, to as int),
    {
        let mut cs: Vec<char> = Vec::new();
        let mut i = from;
        while i < to
            invariant
                from <= i <= to <= self.chars@.len(),
                cs@ == self.chars@.subrange(from as int, i as int),
            decreases to - i,
        {
            cs.push(self.chars[i]);
            i = i + 1;
        }
        string_from_chars(cs.as_slice())
    }

    /// The next token, skipping whitespace; `None` at the end of the input.
    pub fn next_token(&mut self) -> (r: Option<Token>)
        requires
            old(self).position() <= old(self).input().len(),
        ensures
            final(self).input() == old(self).input(),
            final(self).position() <= final(self).input().len(),
            match spec_lex_token(old(self).input(), old(self).position()) {
                None => r is None,
                Some((t, q)) => r matches Some(tok) && tok@ == t && final(self).position() == q
                    && old(self).position() < q,
            },
    {
        proof {
            lemma_skip_whitespace(self.chars@, self.pos as int);
        }
        self.skip_whitespace();
        if self.pos >= self.chars.len() {
            return None;
        }
        let q = self.pos;
        let c = self.chars[q];
        if is_symbol(c) {
            Some(self.next_symbol())
        } else if char_is_alphabetic(c) {
            let e = self.span_alphabetic(q);
            proof {
                lemma_span_alphabetic(self.chars@, q + 1);
            }
            let word = self.slice_string(q, e);
            self.pos = e;
            let t = Token::from_word(word);
            assert(spec_lex_token(old(self).input(), old(self).position()) == Some((t@, e as int)));
            Some(t)
        } else if '0' <= c && c <= '9' {
            let e = self.span_alphanumeric(q);
            proof {
                lemma_span_alphanumeric(self.chars@, q + 1);
            }
            assert(e > q);
            let mut cs: Vec<char> = Vec::new();
            let mut i = q;
            while i < e
                invariant
                    q <= i <= e <= self.chars@.len(),
                    cs@ == self.chars@.subrange(q as int, i as int),
                decreases e - i,
            {
                cs.push(self.chars[i]);
                i = i + 1;
            }
            self.pos = e;
            let t = match parse_decimal(cs.as_slice()) {
                Some(v) => Token::Int(v),
                None => Token::Illegal(string_from_chars(cs.as_slice())),
            };
            assert(spec_lex_token(old(self).input(), old(self).position()) == Some((t@, e as int)));
            Some(t)
        } else if c == '"' {
            let e = self.span_not_quote(q + 1);
            let literal = self.slice_string(q + 1, e);
            self.pos = if e < self.chars.len() {
                e + 1
            } else {
                e
            };
            let t = Token::Str(literal);
            assert(spec_lex_token(old(self).input(), old(self).position()) == Some((t@, self.pos as int)));
            Some(t)
        } else {
            self.pos = q + 1;
            let mut cs: Vec<char> = Vec::new();
            cs.push(c);
            assert(cs@ =~= seq![c]);
            let t = Token::Illegal(string_from_chars(cs.as_slice()));
            assert(spec_lex_token(old(self).input(), old(self).position()) == Some((t@, self.pos as int)));
            Some(t)
        }
    }

    /// All remaining tokens, in order.
    #[verifier::loop_isolation(false)]
    pub fn tokens(self) -> (v: Vec<Token>)
        requires
            self.position() <= self.input().len(),
        ensures
            tokens_view(v@) == spec_lex_from(self.input(), self.position()),
    {
        let mut lexer = self;
        let mut out: Vec<Token> = Vec::new();
        let ghost s = lexer.input();
        let ghost p0 = lexer.position();
        assert(tokens_view(out@) =~= Seq::<TokenV>::empty());
        loop
            invariant
                lexer.input() == s,
                lexer.position() <= s.len(),
                tokens_view(out@) + spec_lex_from(s, lexer.position()) == spec_lex_from(s, p0),
            decreases s.len() - lexer.position(),
        {
            let ghost p = lexer.position();
            match lexer.next_token() {
                None => {
                    assert(spec_lex_from(s, p) =~= Seq::<TokenV>::empty());
                    assert(tokens_view(out@) =~= tokens_view(out@) + spec_lex_from(s, p));
                    return out;
                },
                Some(t) => {
                    let ghost tv = t@;
                    let ghost prev = tokens_view(out@);
                    out.push(t);
                    proof {
                        assert(tokens_view(out@) =~= prev.push(tv));
                        assert(spec_lex_from(s, p) == seq![tv] + spec_lex_from(s, lexer.position()));
                        assert(tokens_view(out@) + spec_lex_from(s, lexer.position()) =~= prev + spec_lex_from(s, p));
                    }
                },
            }
        }
    }
}

pub open spec fn tokens_view(v: Seq<Token>) -> Seq<TokenV> {
    Seq::new(v.len(), |i: int| v[i]@)
}

/// The tokens of a source text.
pub fn tokenize(input: &str) -> (v: Vec<Token>)
    ensures
        tokens_view(v@) == spec_lex(input@),
{
    Lexer::new(input).tokens()
}

/// A token whose printed form is its own spelling in source text: any token
/// but an illegal one or an identifier (printed behind a label), with a string
/// free of `"`.
pub open spec fn spec_spelled_token(t: TokenV) -> bool {
    match t {
        TokenV::Illegal(_) => false,
        TokenV::Identifier(_) => false,
        TokenV::Int(v) => v <= usize::MAX,
        TokenV::Str(x) => !x.contains('"'),
        _ => true,
    }
}

proof fn lemma_lex_single(s: Seq<char>, t: TokenV)
    requires
        s.len() > 0,
        spec_lex_token(s, 0) == Some((t, s.len() as int)),
    ensures
        spec_lex(s) == seq![t],
{
    assert(spec_lex_token(s, s.len() as int) is None);
    assert(spec_lex_from(s, s.len() as int) =~= Seq::<TokenV>::empty());
    assert(spec_lex_from(s, 0) == seq![t] + spec_lex_from(s, s.len() as int));
    assert(seq![t] + Seq::<TokenV>::empty() =~= seq![t]);
}

proof fn lemma_span_letters(s: Seq<char>, p: int)
    requires
        0 <= p <= s.len(),
        forall|i: int| p <= i < s.len() ==> spec_is_ascii_letter(#[trigger] s[i]),
    ensures
        spec_span_alphabetic(s, p) == s.len(),
    decreases s.len() - p,
{
    if p < s.len() {
        lemma_span_letters(s, p + 1);
    }
}

proof fn lemma_span_digits(s: Seq<char>, p: int)
    requires
        0 <= p <= s.len(),
        forall|i: int| p <= i < s.len() ==> spec_is_digit(#[trigger] s[i]),
    ensures
        spec_span_alphanumeric(s, p) == s.len(),
    decreases s.len() - p,
{
    if p < s.len() {
        lemma_span_digits(s, p + 1);
    }
}

proof fn lemma_span_no_quote(s: Seq<char>, p: int, e: int)
    requires
        0 <= p <= e < s.len(),
        s[e] == '"',
        forall|i: int| p <= i < e ==> #[trigger] s[i] != '"',
    ensures
        spec_span_not_quote(s, p) == e,
    decreases e - p,
{
    if p < e {
        lemma_span_no_quote(s, p + 1, e);
    }
}

/// The decimal form of a natural number is a non-empty run of digits that
/// denotes it.
pub proof fn lemma_decimal_digits(n: nat)
    ensures
        spec_decimal(n).len() > 0,
        spec_all_digits(spec_decimal(n)),
        spec_decimal_value(spec_decimal(n)) == n,
    decreases n,
{
    if n < 10 {
        let s = spec_decimal(n);
        assert(s.drop_last() =~= Seq::<char>::empty());
        assert(digit_char(n) as int == 48 + n);
        assert(spec_decimal_value(s.drop_last()) == 0);
        assert(spec_decimal_value(s) == spec_decimal_value(s.drop_last()) * 10 + (s.last() as int - 48));
    } else {
        lemma_decimal_digits(n / 10);
        let s = spec_decimal(n);
        assert(s.drop_last() =~= spec_decimal(n / 10));
        assert(digit_char(n % 10) as int == 48 + n % 10);
        assert(s.last() == digit_char(n % 10));
        assert((n / 10) * 10 + n % 10 == n) by (nonlinear_arith);
        assert forall|i: int| 0 <= i < s.len() implies spec_is_digit(#[trigger] s[i]) by {
            if i < s.len() - 1 {
                assert(s[i] == spec_decimal(n / 10)[i]);
            }
        }
    }
}

proof fn lemma_lex_word(s: Seq<char>, t: TokenV)
    requires
        s.len() > 0,
        forall|i: int| 0 <= i < s.len() ==> spec_is_ascii_letter(#[trigger] s[i]),
        spec_word_token(s) == t,
    ensures
        spec_lex(s) == seq![t],
{
    lemma_span_letters(s, 0);
    assert(s.subrange(0, s.len() as int) =~= s);
    lemma_lex_single(s, t);
}

/// Printing a token and reading the printed text back gives the token again,
/// for every token whose printed form is its spelling: keywords, symbols,
/// integers, and strings without `"`.
pub proof fn lemma_lex_token_text(t: TokenV)
    requires
        spec_spelled_token(t),
    ensures
        spec_lex(spec_token_text(t)) == seq![t],
{
    let s = spec_token_text(t);
    match t {
        TokenV::Illegal(_) => {},
        TokenV::Identifier(_) => {},
        TokenV::Int(v) => {
            lemma_decimal_digits(v);
            lemma_span_digits(s, 0);
            assert(s.subrange(0, s.len() as int) =~= s);
            assert(spec_is_digit(s[0]));
            lemma_lex_single(s, t);
        },
        TokenV::Str(x) => {
            let e: int = x.len() as int + 1;
            assert(s[0] == '"');
            assert(s[e] == '"');
            assert forall|i: int| 1 <= i < e implies #[trigger] s[i] != '"' by {
                assert(s[i] == x[i - 1]);
            }
            lemma_span_no_quote(s, 1, e);
            assert(s.subrange(1, e) =~= x);
            lemma_lex_single(s, t);
        },
        TokenV::Assign => {
            reveal_strlit("=");
            lemma_lex_single(s, t);
        },
        TokenV::Plus => {
            reveal_strlit("+");
            lemma_lex_single(s, t);
        },
        TokenV::Comma => {
            reveal_strlit(",");
            lemma_lex_single(s, t);
        },
        TokenV::Semicolon => {
            reveal_strlit(";");
            lemma_lex_single(s, t);
        },
        TokenV::LParen => {
            reveal_strlit("(");
            lemma_lex_single(s, t);
        },
        TokenV::RParen => {
            reveal_strlit(")");
            lemma_lex_single(s, t);
        },
        TokenV::LBrace => {
            reveal_strlit("{");
            lemma_lex_single(s, t);
        },
        TokenV::RBrace => {
            reveal_strlit("}");
            lemma_lex_single(s, t);
        },
        TokenV::LBracket => {
            reveal_strlit("[");
            lemma_lex_single(s, t);
        },
        TokenV::RBracket => {
            reveal_strlit("]");
            lemma_lex_single(s, t);
        },
        TokenV::Minus => {
            reveal_strlit("-");
            lemma_lex_single(s, t);
        },
        TokenV::Bang => {
            reveal_strlit("!");
            lemma_lex_single(s, t);
        },
        TokenV::Asterisk => {
            reveal_strlit("*");
            lemma_lex_single(s, t);
        },
        TokenV::Slash => {
            reveal_strlit("/");
            lemma_lex_single(s, t);
        },
        TokenV::LessThan => {
            reveal_strlit("<");
            lemma_lex_single(s, t);
        },
        TokenV::GreaterThan => {
            reveal_strlit(">");
            lemma_lex_single(s, t);
        },
        TokenV::Equal => {
            reveal_strlit("==");
            lemma_lex_single(s, t);
        },
        TokenV::NotEqual => {
            reveal_strlit("!=");
            lemma_lex_single(s, t);
        },
        TokenV::Function => {
            reveal_strlit("fn");
            assert(s =~= seq!['f', 'n']);
            lemma_lex_word(s, t);
        },
        TokenV::Let => {
            reveal_strlit("let");
            assert(s =~= seq!['l', 'e', 't']);
            lemma_lex_word(s, t);
        },
        TokenV::True => {
            reveal_strlit("true");
            assert(s =~= seq!['t', 'r', 'u', 'e']);
            lemma_lex_word(s, t);
        },
        TokenV::False => {
            reveal_strlit("false");
            assert(s =~= seq!['f', 'a', 'l', 's', 'e']);
            lemma_lex_word(s, t);
        },
        TokenV::If => {
            reveal_strlit("if");
            assert(s =~= seq!['i', 'f']);
            lemma_lex_word(s, t);
        },
        TokenV::Else => {
            reveal_strlit("else");
            assert(s =~= seq!['e', 'l', 's', 'e']);
            lemma_lex_word(s, t);
        },
        TokenV::Return => {
            reveal_strlit("return");
            assert(s =~= seq!['r', 'e', 't', 'u', 'r', 'n']);
            lemma_lex_word(s, t);
        },
    }
}

} // verus!
