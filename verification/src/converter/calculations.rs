//! Excel-like table formulas: a lexer and a recursive-descent parser for
//! expressions such as `=qty * price` or `=sum(total)`, and their
//! translation into Typst code. A number is kept as the decimal text it was
//! written with (thousands commas removed), not as a binary float.
use vstd::prelude::*;
use crate::text::{
    ascii_alpha, ascii_alnum, ascii_digit, ascii_upper_seq, chars_of, decimal, digit_char,
    flat_map, fold_lower_seq, is_ascii_alnum, is_ascii_alpha, is_ascii_digit, is_white_space,
    lemma_flat_map_take, push_char, push_chars, push_decimal, push_str, seq_eq, to_ascii_upper,
    white_space,
};

verus! {

broadcast use vstd::string::group_string_axioms;

// ==========================================
// Abstract syntax
// ==========================================

#[derive(Clone, Copy, PartialEq, Eq, Structural)]
pub enum BinOp {
    Add,
    Sub,
    Mul,
    Div,
    Eq,
    Ne,
    Lt,
    Gt,
    Le,
    Ge,
    And,
    Or,
}

#[derive(Clone, Copy, PartialEq, Eq, Structural)]
pub enum UnaryOp {
    Neg,
    Not,
}

pub enum Expr {
    /// A decimal literal: ASCII digits with at most one `.`.
    Number(String),
    StringLit(String),
    Variable(String),
    BinaryOp(Box<Expr>, BinOp, Box<Expr>),
    UnaryOp(UnaryOp, Box<Expr>),
    FunctionCall(String, Vec<Expr>),
}

/// The meaning of an [`Expr`], with text as `Seq<char>`.
pub ghost enum SExpr {
    Number(Seq<char>),
    StringLit(Seq<char>),
    Variable(Seq<char>),
    BinaryOp(Box<SExpr>, BinOp, Box<SExpr>),
    UnaryOp(UnaryOp, Box<SExpr>),
    FunctionCall(Seq<char>, Seq<SExpr>),
}

pub open spec fn expr_view(e: Expr) -> SExpr
    decreases e,
{
    match e {
        Expr::Number(s) => SExpr::Number(s@),
        Expr::StringLit(s) => SExpr::StringLit(s@),
        Expr::Variable(s) => SExpr::Variable(s@),
        Expr::BinaryOp(l, op, r) => SExpr::BinaryOp(
            Box::new(expr_view(*l)),
            op,
            Box::new(expr_view(*r)),
        ),
        Expr::UnaryOp(op, x) => SExpr::UnaryOp(op, Box::new(expr_view(*x))),
        Expr::FunctionCall(n, args) => SExpr::FunctionCall(n@, exprs_view(args@)),
    }
}

pub open spec fn exprs_view(s: Seq<Expr>) -> Seq<SExpr>
    decreases s,
{
    if s.len() == 0 {
        Seq::empty()
    } else {
        seq![expr_view(s[0])] + exprs_view(s.drop_first())
    }
}

proof fn lemma_exprs_view_push(s: Seq<Expr>, e: Expr)
    ensures
        exprs_view(s.push(e)) == exprs_view(s).push(expr_view(e)),
    decreases s.len(),
{
    if s.len() == 0 {
        assert(s.push(e).drop_first() =~= Seq::<Expr>::empty());
        assert(exprs_view(Seq::<Expr>::empty()) == Seq::<SExpr>::empty());
        assert(exprs_view(s.push(e)) =~= seq![expr_view(e)] + Seq::<SExpr>::empty());
    } else {
        assert(s.push(e).drop_first() =~= s.drop_first().push(e));
        lemma_exprs_view_push(s.drop_first(), e);
        assert(exprs_view(s.push(e)) =~= exprs_view(s).push(expr_view(e)));
    }
}

// ==========================================
// Tokens
// ==========================================

pub enum Token {
    Number(String),
    StringLit(String),
    Ident(String),
    Plus,
    Minus,
    Star,
    Slash,
    Eq,
    Ne,
    Lt,
    Gt,
    Le,
    Ge,
    LParen,
    RParen,
    Comma,
    And,
    Or,
    Not,
    Eof,
}

pub ghost enum SToken {
    Number(Seq<char>),
    StringLit(Seq<char>),
    Ident(Seq<char>),
    Plus,
    Minus,
    Star,
    Slash,
    Eq,
    Ne,
    Lt,
    Gt,
    Le,
    Ge,
    LParen,
    RParen,
    Comma,
    And,
    Or,
    Not,
    Eof,
}

pub open spec fn token_view(t: Token) -> SToken {
    match t {
        Token::Number(s) => SToken::Number(s@),
        Token::StringLit(s) => SToken::StringLit(s@),
        Token::Ident(s) => SToken::Ident(s@),
        Token::Plus => SToken::Plus,
        Token::Minus => SToken::Minus,
        Token::Star => SToken::Star,
        Token::Slash => SToken::Slash,
        Token::Eq => SToken::Eq,
        Token::Ne => SToken::Ne,
        Token::Lt => SToken::Lt,
        Token::Gt => SToken::Gt,
        Token::Le => SToken::Le,
        Token::Ge => SToken::Ge,
        Token::LParen => SToken::LParen,
        Token::RParen => SToken::RParen,
        Token::Comma => SToken::Comma,
        Token::And => SToken::And,
        Token::Or => SToken::Or,
        Token::Not => SToken::Not,
        Token::Eof => SToken::Eof,
    }
}

pub open spec fn tokens_view(ts: Seq<Token>) -> Seq<SToken> {
    Seq::new(ts.len(), |i: int| token_view(ts[i]))
}

impl Token {
    fn duplicate(&self) -> (r: Token)
        ensures
            token_view(r) == token_view(*self),
    {
        match self {
            Token::Number(s) => Token::Number(s.clone()),
            Token::StringLit(s) => Token::StringLit(s.clone()),
            Token::Ident(s) => Token::Ident(s.clone()),
            Token::Plus => Token::Plus,
            Token::Minus => Token::Minus,
            Token::Star => Token::Star,
            Token::Slash => Token::Slash,
            Token::Eq => Token::Eq,
            Token::Ne => Token::Ne,
            Token::Lt => Token::Lt,
            Token::Gt => Token::Gt,
            Token::Le => Token::Le,
            Token::Ge => Token::Ge,
            Token::LParen => Token::LParen,
            Token::RParen => Token::RParen,
            Token::Comma => Token::Comma,
            Token::And => Token::And,
            Token::Or => Token::Or,
            Token::Not => Token::Not,
            Token::Eof => Token::Eof,
        }
    }

    fn is_eof(&self) -> (r: bool)
        ensures
            r == (token_view(*self) == SToken::Eof),
    {
        match self {
            Token::Eof => true,
            _ => false,
        }
    }
}

// ==========================================
// Lexer specification
// ==========================================

pub open spec fn is_number_char(c: char) -> bool {
    is_ascii_digit(c) || c == '.' || c == ','
}

pub open spec fn is_ident_char(c: char) -> bool {
    is_ascii_alnum(c) || c == '_'
}

/// The first position at or after `p` that is not white space.
pub open spec fn skip_ws(cs: Seq<char>, p: int) -> int
    decreases cs.len() - p,
{
    if 0 <= p < cs.len() && is_white_space(cs[p]) {
        skip_ws(cs, p + 1)
    } else {
        p
    }
}

/// The end of the run of number characters starting at `p`.
pub open spec fn scan_number(cs: Seq<char>, p: int) -> int
    decreases cs.len() - p,
{
    if 0 <= p < cs.len() && is_number_char(cs[p]) {
        scan_number(cs, p + 1)
    } else {
        p
    }
}

/// The end of the run of identifier characters starting at `p`.
pub open spec fn scan_ident(cs: Seq<char>, p: int) -> int
    decreases cs.len() - p,
{
    if 0 <= p < cs.len() && is_ident_char(cs[p]) {
        scan_ident(cs, p + 1)
    } else {
        p
    }
}

/// The position of the first `q` at or after `p`, or the end.
pub open spec fn scan_to(cs: Seq<char>, p: int, q: char) -> int
    decreases cs.len() - p,
{
    if 0 <= p < cs.len() && cs[p] != q {
        scan_to(cs, p + 1, q)
    } else {
        p
    }
}

pub open spec fn drop_commas(s: Seq<char>) -> Seq<char>
    decreases s.len(),
{
    if s.len() == 0 {
        s
    } else if s.last() == ',' {
        drop_commas(s.drop_last())
    } else {
        drop_commas(s.drop_last()).push(s.last())
    }
}

pub open spec fn count_dots(s: Seq<char>) -> nat
    decreases s.len(),
{
    if s.len() == 0 {
        0
    } else {
        count_dots(s.drop_last()) + if s.last() == '.' {
            1nat
        } else {
            0nat
        }
    }
}

pub open spec fn has_digit(s: Seq<char>) -> bool {
    exists|i: int| 0 <= i < s.len() && is_ascii_digit(#[trigger] s[i])
}

/// What a float parser accepts of digits and dots: at least one digit
/// and at most one dot.
pub open spec fn valid_number(s: Seq<char>) -> bool {
    has_digit(s) && count_dots(s) <= 1
}

/// A keyword, a boolean constant, or an identifier.
pub open spec fn word_token(id: Seq<char>) -> SToken {
    let u = ascii_upper_seq(id);
    if u == "AND"@ {
        SToken::And
    } else if u == "OR"@ {
        SToken::Or
    } else if u == "NOT"@ {
        SToken::Not
    } else if u == "TRUE"@ {
        SToken::Number("1"@)
    } else if u == "FALSE"@ {
        SToken::Number("0"@)
    } else {
        SToken::Ident(id)
    }
}

/// One step of the lexer from position `p`: the token (or error) and the
/// position after it.
pub open spec fn lex_one(cs: Seq<char>, p: int) -> (Result<SToken, Seq<char>>, int) {
    let q = skip_ws(cs, p);
    let n = cs.len();
    if q >= n {
        (Ok(SToken::Eof), q)
    } else {
        let c = cs[q];
        let next_is = |d: char| q + 1 < n && cs[q + 1] == d;
        if c == '+' {
            (Ok(SToken::Plus), q + 1)
        } else if c == '*' {
            (Ok(SToken::Star), q + 1)
        } else if c == '/' {
            (Ok(SToken::Slash), q + 1)
        } else if c == '(' {
            (Ok(SToken::LParen), q + 1)
        } else if c == ')' {
            (Ok(SToken::RParen), q + 1)
        } else if c == ',' {
            (Ok(SToken::Comma), q + 1)
        } else if c == '-' {
            (Ok(SToken::Minus), q + 1)
        } else if c == '=' {
            if next_is('=') {
                (Ok(SToken::Eq), q + 2)
            } else {
                (Err("Expected '=' after '='"@), q + 1)
            }
        } else if c == '<' {
            if next_is('=') {
                (Ok(SToken::Le), q + 2)
            } else if next_is('>') {
                (Ok(SToken::Ne), q + 2)
            } else {
                (Ok(SToken::Lt), q + 1)
            }
        } else if c == '>' {
            if next_is('=') {
                (Ok(SToken::Ge), q + 2)
            } else {
                (Ok(SToken::Gt), q + 1)
            }
        } else if c == '!' {
            if next_is('=') {
                (Ok(SToken::Ne), q + 2)
            } else {
                (Err("Expected '=' after '!'"@), q + 1)
            }
        } else if c == '"' || c == '\'' {
            let e = scan_to(cs, q + 1, c);
            (Ok(SToken::StringLit(cs.subrange(q + 1, e))), if e < n {
                e + 1
            } else {
                e
            })
        } else if is_ascii_digit(c) || c == '.' {
            let e = scan_number(cs, q);
            let lit = drop_commas(cs.subrange(q, e));
            if valid_number(lit) {
                (Ok(SToken::Number(lit)), e)
            } else {
                (Err("Invalid number"@), e)
            }
        } else if is_ascii_alpha(c) || c == '_' {
            let e = scan_ident(cs, q);
            (Ok(word_token(cs.subrange(q, e))), e)
        } else {
            (Err("Unexpected character: "@.push(c)), q)
        }
    }
}

/// The tokens of `cs` from position `p`, ending with `Eof`, or the first
/// error.
pub open spec fn lex_from(cs: Seq<char>, p: int) -> Result<Seq<SToken>, Seq<char>>
    decreases cs.len() - p,
{
    let (t, q) = lex_one(cs, p);
    match t {
        Err(e) => Err(e),
        Ok(tok) => if tok == SToken::Eof {
            Ok(seq![SToken::Eof])
        } else if p < q <= cs.len() {
            match lex_from(cs, q) {
                Ok(rest) => Ok(seq![tok] + rest),
                Err(e) => Err(e),
            }
        } else {
            Err(Seq::empty())
        },
    }
}

pub open spec fn lex(s: Seq<char>) -> Result<Seq<SToken>, Seq<char>> {
    lex_from(s, 0)
}

proof fn lemma_skip_ws(cs: Seq<char>, p: int)
    requires
        0 <= p <= cs.len(),
    ensures
        p <= skip_ws(cs, p) <= cs.len(),
        skip_ws(cs, p) < cs.len() ==> !is_white_space(cs[skip_ws(cs, p)]),
    decreases cs.len() - p,
{
    if p < cs.len() && is_white_space(cs[p]) {
        lemma_skip_ws(cs, p + 1);
    }
}

proof fn lemma_scan_number(cs: Seq<char>, p: int)
    requires
        0 <= p <= cs.len(),
    ensures
        p <= scan_number(cs, p) <= cs.len(),
        forall|i: int| p <= i < scan_number(cs, p) ==> is_number_char(#[trigger] cs[i]),
        scan_number(cs, p) < cs.len() ==> !is_number_char(cs[scan_number(cs, p)]),
    decreases cs.len() - p,
{
    if p < cs.len() && is_number_char(cs[p]) {
        lemma_scan_number(cs, p + 1);
    }
}

proof fn lemma_scan_ident(cs: Seq<char>, p: int)
    requires
        0 <= p <= cs.len(),
    ensures
        p <= scan_ident(cs, p) <= cs.len(),
        scan_ident(cs, p) < cs.len() ==> !is_ident_char(cs[scan_ident(cs, p)]),
    decreases cs.len() - p,
{
    if p < cs.len() && is_ident_char(cs[p]) {
        lemma_scan_ident(cs, p + 1);
    }
}

proof fn lemma_scan_to(cs: Seq<char>, p: int, q: char)
    requires
        0 <= p <= cs.len(),
    ensures
        p <= scan_to(cs, p, q) <= cs.len(),
        scan_to(cs, p, q) < cs.len() ==> cs[scan_to(cs, p, q)] == q,
    decreases cs.len() - p,
{
    if p < cs.len() && cs[p] != q {
        lemma_scan_to(cs, p + 1, q);
    }
}

/// A step of the lexer never moves backwards or past the end, and every
/// token but `Eof` consumes input.
proof fn lemma_lex_one_advances(cs: Seq<char>, p: int)
    requires
        0 <= p <= cs.len(),
    ensures
        p <= lex_one(cs, p).1 <= cs.len(),
        lex_one(cs, p).0 matches Ok(t) && t != SToken::Eof ==> p < lex_one(cs, p).1,
{
    lemma_skip_ws(cs, p);
    let q = skip_ws(cs, p);
    if q < cs.len() {
        lemma_scan_to(cs, q + 1, cs[q]);
        lemma_scan_number(cs, q);
        lemma_scan_ident(cs, q);
    }
}

// ==========================================
// Lexer
// ==========================================

struct Lexer {
    chars: Vec<char>,
    pos: usize,
}

impl Lexer {
    fn new(input: &str) -> (r: Lexer)
        ensures
            r.chars@ == input@,
            r.pos == 0,
    {
        Lexer { chars: chars_of(input), pos: 0 }
    }

    fn peek(&self) -> (r: Option<char>)
        ensures
            r == if self.pos < self.chars@.len() {
                Some(self.chars@[self.pos as int])
            } else {
                None::<char>
            },
    {
        if self.pos < self.chars.len() {
            Some(self.chars[self.pos])
        } else {
            None
        }
    }

    fn peek_is(&self, c: char) -> (r: bool)
        ensures
            r == (self.pos < self.chars@.len() && self.chars@[self.pos as int] == c),
    {
        self.pos < self.chars.len() && self.chars[self.pos] == c
    }

    fn advance(&mut self) -> (r: Option<char>)
        requires
            old(self).pos < old(self).chars@.len(),
        ensures
            r == Some(old(self).chars@[old(self).pos as int]),
            final(self).pos == old(self).pos + 1,
            final(self).chars == old(self).chars,
    {
        let c = self.peek();
        let n = self.chars.len();
        self.pos = self.pos + 1;
        c
    }

    fn skip_whitespace(&mut self)
        requires
            old(self).pos <= old(self).chars@.len(),
        ensures
            final(self).chars == old(self).chars,
            final(self).pos == skip_ws(old(self).chars@, old(self).pos as int),
    {
        while self.pos < self.chars.len()
            invariant
                self.chars == old(self).chars,
                old(self).pos <= self.pos <= self.chars@.len(),
                skip_ws(self.chars@, old(self).pos as int) == skip_ws(
                    self.chars@,
                    self.pos as int,
                ),
            decreases self.chars@.len() - self.pos,
        {
            if white_space(self.chars[self.pos]) {
                self.advance();
            } else {
                return;
            }
        }
    }

    /// Consumes characters while `number` (digits, `.`, `,`) or identifier
    /// characters continue, returning them.
    fn take_run(&mut self, number: bool) -> (r: Vec<char>)
        requires
            old(self).pos <= old(self).chars@.len(),
        ensures
            final(self).chars == old(self).chars,
            number ==> final(self).pos == scan_number(old(self).chars@, old(self).pos as int),
            !number ==> final(self).pos == scan_ident(old(self).chars@, old(self).pos as int),
            r@ == old(self).chars@.subrange(old(self).pos as int, final(self).pos as int),
    {
        let start = self.pos;
        let mut run: Vec<char> = Vec::new();
        while self.pos < self.chars.len()
            invariant
                self.chars == old(self).chars,
                start == old(self).pos,
                start <= self.pos <= self.chars@.len(),
                number ==> scan_number(self.chars@, start as int) == scan_number(
                    self.chars@,
                    self.pos as int,
                ),
                !number ==> scan_ident(self.chars@, start as int) == scan_ident(
                    self.chars@,
                    self.pos as int,
                ),
                run@ == self.chars@.subrange(start as int, self.pos as int),
            decreases self.chars@.len() - self.pos,
        {
            let c = self.chars[self.pos];
            let keep = if number {
                ascii_digit(c) || c == '.' || c == ','
            } else {
                ascii_alnum(c) || c == '_'
            };
            if !keep {
                return run;
            }
            run.push(c);
            self.advance();
            assert(run@ =~= self.chars@.subrange(start as int, self.pos as int));
        }
        run
    }

    fn next_token(&mut self) -> (r: Result<Token, String>)
        requires
            old(self).pos <= old(self).chars@.len(),
        ensures
            final(self).chars == old(self).chars,
            final(self).pos <= final(self).chars@.len(),
            lex_one(old(self).chars@, old(self).pos as int).0 == match r {
                Ok(t) => Ok::<SToken, Seq<char>>(token_view(t)),
                Err(e) => Err::<SToken, Seq<char>>(e@),
            },
            r is Ok ==> final(self).pos == lex_one(old(self).chars@, old(self).pos as int).1,
    {
        proof {
            lemma_lex_one_advances(self.chars@, self.pos as int);
            lemma_skip_ws(self.chars@, self.pos as int);
        }
        self.skip_whitespace();
        let ghost cs = self.chars@;
        let ghost q = self.pos as int;
        match self.peek() {
            None => Ok(Token::Eof),
            Some(c) => {
                if c == '+' {
                    self.advance();
                    Ok(Token::Plus)
                } else if c == '*' {
                    self.advance();
                    Ok(Token::Star)
                } else if c == '/' {
                    self.advance();
                    Ok(Token::Slash)
                } else if c == '(' {
                    self.advance();
                    Ok(Token::LParen)
                } else if c == ')' {
                    self.advance();
                    Ok(Token::RParen)
                } else if c == ',' {
                    self.advance();
                    Ok(Token::Comma)
                } else if c == '-' {
                    self.advance();
                    Ok(Token::Minus)
                } else if c == '=' {
                    self.advance();
                    if self.peek_is('=') {
                        self.advance();
                        Ok(Token::Eq)
                    } else {
                        Err(crate::text::string_from("Expected '=' after '='"))
                    }
                } else if c == '<' {
                    self.advance();
                    if self.peek_is('=') {
                        self.advance();
                        Ok(Token::Le)
                    } else if self.peek_is('>') {
                        self.advance();
                        Ok(Token::Ne)
                    } else {
                        Ok(Token::Lt)
                    }
                } else if c == '>' {
                    self.advance();
                    if self.peek_is('=') {
                        self.advance();
                        Ok(Token::Ge)
                    } else {
                        Ok(Token::Gt)
                    }
                } else if c == '!' {
                    self.advance();
                    if self.peek_is('=') {
                        self.advance();
                        Ok(Token::Ne)
                    } else {
                        Err(crate::text::string_from("Expected '=' after '!'"))
                    }
                } else if c == '"' || c == '\'' {
                    let quote = self.advance().unwrap();
                    let mut s = String::new();
                    let start = self.pos;
                    proof {
                        lemma_scan_to(cs, q + 1, c);
                    }
                    while self.pos < self.chars.len()
                        invariant
                            self.chars == old(self).chars,
                            self.chars@ == cs,
                            old(self).chars@ == cs,
                            q == skip_ws(cs, old(self).pos as int),
                            q < cs.len(),
                            cs[q] == c,
                            c == '"' || c == '\'',
                            quote == c,
                            start == q + 1,
                            start <= self.pos <= cs.len(),
                            scan_to(cs, start as int, c) == scan_to(cs, self.pos as int, c),
                            s@ == cs.subrange(start as int, self.pos as int),
                        decreases cs.len() - self.pos,
                    {
                        let nc = self.chars[self.pos];
                        if nc == quote {
                            let ghost e = self.pos as int;
                            proof {
                                assert(scan_to(cs, e, c) == e);
                                assert(lex_one(cs, old(self).pos as int) == (Ok::<SToken, Seq<char>>(
                                    SToken::StringLit(cs.subrange(start as int, e)),
                                ), e + 1));
                            }
                            self.advance();
                            return Ok(Token::StringLit(s));
                        }
                        push_char(&mut s, nc);
                        self.advance();
                        assert(s@ =~= cs.subrange(start as int, self.pos as int));
                    }
                    Ok(Token::StringLit(s))
                } else if ascii_digit(c) || c == '.' {
                    let start = self.pos;
                    let run = self.take_run(true);
                    proof {
                        lemma_scan_number(cs, q);
                    }
                    let lit = number_literal(&run);
                    proof {
                        assert(q == skip_ws(cs, old(self).pos as int));
                        assert(lex_one(cs, old(self).pos as int).0 == if valid_number(drop_commas(run@)) {
                            Ok::<SToken, Seq<char>>(SToken::Number(drop_commas(run@)))
                        } else {
                            Err::<SToken, Seq<char>>("Invalid number"@)
                        });
                    }
                    match lit {
                        Some(l) => Ok(Token::Number(l)),
                        None => Err(crate::text::string_from("Invalid number")),
                    }
                } else if ascii_alpha(c) || c == '_' {
                    let run = self.take_run(false);
                    proof {
                        assert(lex_one(cs, old(self).pos as int).0 == Ok::<SToken, Seq<char>>(word_token(run@)));
                    }
                    Ok(word_token_exec(&run))
                } else {
                    let mut msg = crate::text::string_from("Unexpected character: ");
                    push_char(&mut msg, c);
                    Err(msg)
                }
            },
        }
    }

    fn tokenize(&mut self) -> (r: Result<Vec<Token>, String>)
        requires
            old(self).pos == 0,
        ensures
            lex(old(self).chars@) == match r {
                Ok(ts) => Ok::<Seq<SToken>, Seq<char>>(tokens_view(ts@)),
                Err(e) => Err::<Seq<SToken>, Seq<char>>(e@),
            },
    {
        let ghost cs = self.chars@;
        let mut tokens: Vec<Token> = Vec::new();
        loop
            invariant
                self.chars@ == cs,
                old(self).chars@ == cs,
                self.pos <= cs.len(),
                lex(cs) == prepend(tokens_view(tokens@), lex_from(cs, self.pos as int)),
            decreases cs.len() - self.pos,
        {
            let ghost p = self.pos as int;
            proof {
                lemma_lex_one_advances(cs, p);
            }
            let t = self.next_token();
            match t {
                Err(e) => {
                    assert(lex_from(cs, p) == Err::<Seq<SToken>, Seq<char>>(e@));
                    return Err(e);
                },
                Ok(t) => {
                    if t.is_eof() {
                        let ghost before = tokens@;
                        assert(lex_from(cs, p) == Ok::<Seq<SToken>, Seq<char>>(seq![SToken::Eof]));
                        tokens.push(t);
                        assert(tokens_view(tokens@) =~= tokens_view(before) + seq![SToken::Eof]);
                        return Ok(tokens);
                    }
                    let ghost before = tokens@;
                    let ghost tv = token_view(t);
                    assert(lex_from(cs, p) == prepend(seq![tv], lex_from(cs, self.pos as int)));
                    tokens.push(t);
                    assert(tokens_view(tokens@) =~= tokens_view(before) + seq![tv]);
                    proof {
                        match lex_from(cs, self.pos as int) {
                            Ok(rest) => {
                                assert(tokens_view(before) + (seq![tv] + rest) =~= tokens_view(
                                    tokens@,
                                ) + rest);
                            },
                            Err(_) => {},
                        }
                    }
                },
            }
        }
    }
}

pub open spec fn prepend(
    before: Seq<SToken>,
    r: Result<Seq<SToken>, Seq<char>>,
) -> Result<Seq<SToken>, Seq<char>> {
    match r {
        Ok(rest) => Ok(before + rest),
        Err(e) => Err(e),
    }
}

/// The literal of a run of number characters: its commas removed, if what
/// is left is a valid number.
fn number_literal(run: &Vec<char>) -> (r: Option<String>)
    ensures
        match r {
            Some(l) => valid_number(drop_commas(run@)) && l@ == drop_commas(run@),
            None => !valid_number(drop_commas(run@)),
        },
{
    let mut lit = String::new();
    let mut dots: usize = 0;
    let mut digit = false;
    for i in 0..run.len()
        invariant
            lit@ == drop_commas(run@.take(i as int)),
            dots == count_dots(lit@),
            dots <= i,
            digit == has_digit(lit@),
    {
        let c = run[i];
        assert(run@.take(i + 1).drop_last() =~= run@.take(i as int));
        let ghost before = lit@;
        if c != ',' {
            push_char(&mut lit, c);
            assert(lit@.drop_last() =~= before);
            if c == '.' {
                dots = dots + 1;
            }
            if ascii_digit(c) {
                digit = true;
                assert(lit@[lit@.len() - 1] == c);
            }
            proof {
                if !is_ascii_digit(c) {
                    if has_digit(lit@) {
                        let k = choose|k: int| 0 <= k < lit@.len() && is_ascii_digit(#[trigger] lit@[k]);
                        if k < before.len() {
                            assert(before[k] == lit@[k]);
                        }
                    }
                }
                if has_digit(before) {
                    let k = choose|k: int| 0 <= k < before.len() && is_ascii_digit(#[trigger] before[k]);
                    assert(lit@[k] == before[k]);
                }
            }
        }
    }
    assert(run@.take(run@.len() as int) =~= run@);
    if digit && dots <= 1 {
        Some(lit)
    } else {
        None
    }
}

fn word_token_exec(id: &Vec<char>) -> (r: Token)
    ensures
        token_view(r) == word_token(id@),
{
    let mut up: Vec<char> = Vec::new();
    for i in 0..id.len()
        invariant
            up@ == ascii_upper_seq(id@.take(i as int)),
    {
        up.push(to_ascii_upper(id[i]));
        assert(up@ =~= ascii_upper_seq(id@.take(i + 1)));
    }
    assert(id@.take(id@.len() as int) =~= id@);
    let and_w = chars_of("AND");
    let or_w = chars_of("OR");
    let not_w = chars_of("NOT");
    let true_w = chars_of("TRUE");
    let false_w = chars_of("FALSE");
    if seq_eq(up.as_slice(), and_w.as_slice()) {
        Token::And
    } else if seq_eq(up.as_slice(), or_w.as_slice()) {
        Token::Or
    } else if seq_eq(up.as_slice(), not_w.as_slice()) {
        Token::Not
    } else if seq_eq(up.as_slice(), true_w.as_slice()) {
        Token::Number(crate::text::string_from("1"))
    } else if seq_eq(up.as_slice(), false_w.as_slice()) {
        Token::Number(crate::text::string_from("0"))
    } else {
        Token::Ident(crate::text::string_from_chars(id.as_slice()))
    }
}

} // verus!

verus! {

// ==========================================
// Printing numbers and tokens
// ==========================================

pub open spec fn int_part(lit: Seq<char>) -> Seq<char> {
    match crate::text::find(lit, seq!['.']) {
        Some(k) => lit.take(k),
        None => lit,
    }
}

pub open spec fn frac_part(lit: Seq<char>) -> Seq<char> {
    match crate::text::find(lit, seq!['.']) {
        Some(k) => lit.skip(k + 1),
        None => Seq::empty(),
    }
}

pub open spec fn strip_leading_zeros(s: Seq<char>) -> Seq<char>
    decreases s.len(),
{
    if s.len() > 0 && s[0] == '0' {
        strip_leading_zeros(s.drop_first())
    } else {
        s
    }
}

pub open spec fn strip_trailing_zeros(s: Seq<char>) -> Seq<char>
    decreases s.len(),
{
    if s.len() > 0 && s.last() == '0' {
        strip_trailing_zeros(s.drop_last())
    } else {
        s
    }
}

pub open spec fn whole_digits(lit: Seq<char>) -> Seq<char> {
    let w = strip_leading_zeros(int_part(lit));
    if w.len() == 0 {
        seq!['0']
    } else {
        w
    }
}

/// The shortest decimal text of the value of a literal: no leading zeros
/// before the point, no trailing zeros after it, and no point when there
/// is no fraction (`007` is `7`, `1.50` is `1.5`, `.5` is `0.5`).
pub open spec fn canonical_number(lit: Seq<char>) -> Seq<char> {
    let f = strip_trailing_zeros(frac_part(lit));
    if f.len() == 0 {
        whole_digits(lit)
    } else {
        whole_digits(lit) + seq!['.'] + f
    }
}

/// A number as it is shown inside a debug message: like
/// [`canonical_number`], with `.0` added to a whole number.
pub open spec fn debug_number(lit: Seq<char>) -> Seq<char> {
    let f = strip_trailing_zeros(frac_part(lit));
    if f.len() == 0 {
        whole_digits(lit) + ".0"@
    } else {
        canonical_number(lit)
    }
}

pub open spec fn hex_digit(d: nat) -> char {
    if d < 10 {
        digit_char(d)
    } else {
        ((87 + d) as u8) as char
    }
}

/// A character as a debug message quotes it inside a string.
pub open spec fn debug_char(c: char) -> Seq<char> {
    if c == '"' {
        "\\\""@
    } else if c == '\\' {
        "\\\\"@
    } else if c == '\n' {
        "\\n"@
    } else if c == '\r' {
        "\\r"@
    } else if c == '\t' {
        "\\t"@
    } else if c == '\0' {
        "\\0"@
    } else if (c as u32) < 32 || c as u32 == 127 {
        let v = (c as u32) as nat;
        if v < 16 {
            "\\u{"@ + seq![hex_digit(v)] + "}"@
        } else {
            "\\u{"@ + seq![hex_digit(v / 16), hex_digit(v % 16)] + "}"@
        }
    } else {
        seq![c]
    }
}

pub open spec fn debug_text(s: Seq<char>) -> Seq<char> {
    flat_map(s, |c: char| debug_char(c))
}

/// The name of a token, as the parser's error messages show it.
pub open spec fn debug_token(t: SToken) -> Seq<char> {
    match t {
        SToken::Number(n) => "Number("@ + debug_number(n) + ")"@,
        SToken::StringLit(s) => "StringLit(\""@ + debug_text(s) + "\")"@,
        SToken::Ident(s) => "Ident(\""@ + debug_text(s) + "\")"@,
        SToken::Plus => "Plus"@,
        SToken::Minus => "Minus"@,
        SToken::Star => "Star"@,
        SToken::Slash => "Slash"@,
        SToken::Eq => "Eq"@,
        SToken::Ne => "Ne"@,
        SToken::Lt => "Lt"@,
        SToken::Gt => "Gt"@,
        SToken::Le => "Le"@,
        SToken::Ge => "Ge"@,
        SToken::LParen => "LParen"@,
        SToken::RParen => "RParen"@,
        SToken::Comma => "Comma"@,
        SToken::And => "And"@,
        SToken::Or => "Or"@,
        SToken::Not => "Not"@,
        SToken::Eof => "Eof"@,
    }
}

fn index_of_dot(lit: &[char]) -> (r: Option<usize>)
    ensures
        match r {
            Some(k) => crate::text::find(lit@, seq!['.']) == Some(k as int) && k < lit@.len(),
            None => crate::text::find(lit@, seq!['.']) is None,
        },
{
    let dot: Vec<char> = vec!['.'];
    let r = crate::text::find_at(lit, dot.as_slice(), 0);
    proof {
        crate::text::lemma_find_from_bounds(lit@, seq!['.'], 0);
        assert(dot@ =~= seq!['.']);
    }
    r
}

fn push_whole_digits(out: &mut String, lit: &[char], end: usize)
    requires
        end <= lit@.len(),
        end == int_part(lit@).len(),
        int_part(lit@) == lit@.take(end as int),
    ensures
        final(out)@ == old(out)@ + whole_digits(lit@),
{
    let ghost w = lit@.take(end as int);
    let mut i: usize = 0;
    assert(w.skip(0) =~= w);
    while i < end && lit[i] == '0'
        invariant
            i <= end <= lit@.len(),
            w == lit@.take(end as int),
            strip_leading_zeros(w) == strip_leading_zeros(w.skip(i as int)),
        decreases end - i,
    {
        assert(w.skip(i as int).drop_first() =~= w.skip(i + 1));
        i = i + 1;
    }
    assert(strip_leading_zeros(w.skip(i as int)) == w.skip(i as int));
    if i == end {
        assert(w.skip(i as int).len() == 0);
        push_char(out, '0');
    } else {
        let ghost before = out@;
        for j in i..end
            invariant
                end <= lit@.len(),
                out@ == before + lit@.subrange(i as int, j as int),
        {
            push_char(out, lit[j]);
            assert(out@ =~= before + lit@.subrange(i as int, j + 1));
        }
        assert(w.skip(i as int) =~= lit@.subrange(i as int, end as int));
    }
}

/// Pushes the fraction of `lit` without trailing zeros; returns whether it
/// was empty.
fn push_fraction(out: &mut String, lit: &[char], start: usize, with_point: bool) -> (empty: bool)
    requires
        start <= lit@.len(),
        frac_part(lit@) == lit@.skip(start as int),
    ensures
        empty == (strip_trailing_zeros(frac_part(lit@)).len() == 0),
        empty ==> final(out)@ == old(out)@,
        !empty && with_point ==> final(out)@ == old(out)@ + seq!['.'] + strip_trailing_zeros(
            frac_part(lit@),
        ),
        !empty && !with_point ==> final(out)@ == old(out)@ + strip_trailing_zeros(frac_part(lit@)),
{
    let ghost f = lit@.skip(start as int);
    let mut end = lit.len();
    while end > start && lit[end - 1] == '0'
        invariant
            start <= end <= lit@.len(),
            f == lit@.skip(start as int),
            strip_trailing_zeros(f) == strip_trailing_zeros(lit@.subrange(start as int, end as int)),
        decreases end,
    {
        assert(lit@.subrange(start as int, end as int).drop_last() =~= lit@.subrange(
            start as int,
            end - 1,
        ));
        end = end - 1;
    }
    assert(f =~= lit@.subrange(start as int, lit@.len() as int)) by {
    }
    assert(strip_trailing_zeros(lit@.subrange(start as int, end as int)) == lit@.subrange(
        start as int,
        end as int,
    ));
    if end == start {
        return true;
    }
    let ghost before = out@;
    if with_point {
        push_char(out, '.');
    }
    let ghost mid = out@;
    for j in start..end
        invariant
            end <= lit@.len(),
            out@ == mid + lit@.subrange(start as int, j as int),
    {
        push_char(out, lit[j]);
        assert(out@ =~= mid + lit@.subrange(start as int, j + 1));
    }
    false
}

/// Pushes [`canonical_number`] (or, for a debug message, [`debug_number`])
/// of a literal.
fn push_number(out: &mut String, lit: &str, debug: bool)
    ensures
        !debug ==> final(out)@ == old(out)@ + canonical_number(lit@),
        debug ==> final(out)@ == old(out)@ + debug_number(lit@),
{
    let cs = chars_of(lit);
    let dot = index_of_dot(cs.as_slice());
    let ghost before = out@;
    match dot {
        Some(k) => {
            let n = cs.len();
            assert(k < n);
            push_whole_digits(out, cs.as_slice(), k);
            let ghost mid = out@;
            let empty = push_fraction(out, cs.as_slice(), k + 1, true);
            if empty && debug {
                push_str(out, ".0");
            }
            proof {
                if !empty {
                    assert(out@ =~= before + (whole_digits(lit@) + seq!['.'] + strip_trailing_zeros(
                        frac_part(lit@),
                    )));
                } else {
                    assert(out@ =~= before + (whole_digits(lit@) + if debug {
                        ".0"@
                    } else {
                        Seq::empty()
                    }));
                    assert(whole_digits(lit@) + Seq::<char>::empty() =~= whole_digits(lit@));
                }
            }
        },
        None => {
            assert(int_part(cs@) =~= cs@.take(cs@.len() as int));
            push_whole_digits(out, cs.as_slice(), cs.len());
            assert(frac_part(cs@) =~= Seq::<char>::empty());
            assert(strip_trailing_zeros(frac_part(cs@)) =~= Seq::<char>::empty());
            if debug {
                push_str(out, ".0");
            }
            proof {
                assert(out@ =~= before + (whole_digits(lit@) + if debug {
                    ".0"@
                } else {
                    Seq::empty()
                }));
                assert(whole_digits(lit@) + Seq::<char>::empty() =~= whole_digits(lit@));
            }
        },
    }
}

fn hex_digit_exec(d: u32) -> (c: char)
    requires
        d < 16,
    ensures
        c == hex_digit(d as nat),
{
    if d < 10 {
        (48u8 + d as u8) as char
    } else {
        (87u8 + d as u8) as char
    }
}

fn push_debug_text(out: &mut String, s: &str)
    ensures
        final(out)@ == old(out)@ + debug_text(s@),
{
    let cs = chars_of(s);
    let ghost start = out@;
    for i in 0..cs.len()
        invariant
            cs@ == s@,
            out@ == start + debug_text(cs@.take(i as int)),
    {
        proof {
            lemma_flat_map_take(cs@, i as int, |c: char| debug_char(c));
        }
        let c = cs[i];
        let ghost mid = out@;
        let v = c as u32;
        if c == '"' {
            push_str(out, "\\\"");
        } else if c == '\\' {
            push_str(out, "\\\\");
        } else if c == '\n' {
            push_str(out, "\\n");
        } else if c == '\r' {
            push_str(out, "\\r");
        } else if c == '\t' {
            push_str(out, "\\t");
        } else if c == '\0' {
            push_str(out, "\\0");
        } else if v < 32 || v == 127 {
            push_str(out, "\\u{");
            if v < 16 {
                push_char(out, hex_digit_exec(v));
                proof {
                    assert(out@ =~= mid + ("\\u{"@ + seq![hex_digit(v as nat)]));
                }
            } else {
                push_char(out, hex_digit_exec(v / 16));
                push_char(out, hex_digit_exec(v % 16));
                proof {
                    assert(out@ =~= mid + ("\\u{"@ + seq![
                        hex_digit((v as nat) / 16),
                        hex_digit((v as nat) % 16),
                    ]));
                }
            }
            let ghost m2 = out@;
            push_str(out, "}");
            proof {
                assert(out@ =~= mid + debug_char(c));
            }
        } else {
            push_char(out, c);
            proof {
                assert(out@ =~= mid + debug_char(c));
            }
        }
        assert(out@ =~= start + debug_text(cs@.take(i + 1)));
    }
    assert(cs@.take(cs@.len() as int) =~= cs@);
}

fn push_token_debug(out: &mut String, t: &Token)
    ensures
        final(out)@ == old(out)@ + debug_token(token_view(*t)),
{
    let ghost before = out@;
    match t {
        Token::Number(n) => {
            push_str(out, "Number(");
            push_number(out, n.as_str(), true);
            push_str(out, ")");
            assert(out@ =~= before + debug_token(token_view(*t)));
        },
        Token::StringLit(s) => {
            push_str(out, "StringLit(\"");
            push_debug_text(out, s.as_str());
            push_str(out, "\")");
            assert(out@ =~= before + debug_token(token_view(*t)));
        },
        Token::Ident(s) => {
            push_str(out, "Ident(\"");
            push_debug_text(out, s.as_str());
            push_str(out, "\")");
            assert(out@ =~= before + debug_token(token_view(*t)));
        },
        Token::Plus => push_str(out, "Plus"),
        Token::Minus => push_str(out, "Minus"),
        Token::Star => push_str(out, "Star"),
        Token::Slash => push_str(out, "Slash"),
        Token::Eq => push_str(out, "Eq"),
        Token::Ne => push_str(out, "Ne"),
        Token::Lt => push_str(out, "Lt"),
        Token::Gt => push_str(out, "Gt"),
        Token::Le => push_str(out, "Le"),
        Token::Ge => push_str(out, "Ge"),
        Token::LParen => push_str(out, "LParen"),
        Token::RParen => push_str(out, "RParen"),
        Token::Comma => push_str(out, "Comma"),
        Token::And => push_str(out, "And"),
        Token::Or => push_str(out, "Or"),
        Token::Not => push_str(out, "Not"),
        Token::Eof => push_str(out, "Eof"),
    }
}

} // verus!

verus! {

// ==========================================
// Parser specification
// ==========================================

pub open spec fn peek_at(ts: Seq<SToken>, p: int) -> SToken {
    if 0 <= p < ts.len() {
        ts[p]
    } else {
        SToken::Eof
    }
}

/// The message for a missing `)`.
pub open spec fn expect_msg(got: SToken) -> Seq<char> {
    "Expected "@ + debug_token(SToken::RParen) + ", got "@ + debug_token(got)
}

pub open spec fn mul_op(t: SToken) -> Option<BinOp> {
    match t {
        SToken::Star => Some(BinOp::Mul),
        SToken::Slash => Some(BinOp::Div),
        _ => None,
    }
}

pub open spec fn add_op(t: SToken) -> Option<BinOp> {
    match t {
        SToken::Plus => Some(BinOp::Add),
        SToken::Minus => Some(BinOp::Sub),
        _ => None,
    }
}

pub open spec fn compare_op(t: SToken) -> Option<BinOp> {
    match t {
        SToken::Eq => Some(BinOp::Eq),
        SToken::Ne => Some(BinOp::Ne),
        SToken::Lt => Some(BinOp::Lt),
        SToken::Gt => Some(BinOp::Gt),
        SToken::Le => Some(BinOp::Le),
        SToken::Ge => Some(BinOp::Ge),
        _ => None,
    }
}

pub open spec fn and_op(t: SToken) -> Option<BinOp> {
    match t {
        SToken::And => Some(BinOp::And),
        _ => None,
    }
}

pub open spec fn or_op(t: SToken) -> Option<BinOp> {
    match t {
        SToken::Or => Some(BinOp::Or),
        _ => None,
    }
}

/// A primary expression: a literal, a variable, a call, or a parenthesised
/// expression.
pub open spec fn parse_primary_at(ts: Seq<SToken>, p: int) -> Result<(SExpr, int), Seq<char>>
    decreases ts.len() - p, 0int,
{
    match peek_at(ts, p) {
        SToken::Number(n) => Ok((SExpr::Number(n), p + 1)),
        SToken::StringLit(s) => Ok((SExpr::StringLit(s), p + 1)),
        SToken::Ident(name) => if peek_at(ts, p + 1) == SToken::LParen {
            if peek_at(ts, p + 2) != SToken::RParen {
                match parse_args_at(ts, p + 2) {
                    Err(e) => Err(e),
                    Ok((args, q)) => if peek_at(ts, q) == SToken::RParen {
                        Ok((SExpr::FunctionCall(name, args), q + 1))
                    } else {
                        Err(expect_msg(peek_at(ts, q)))
                    },
                }
            } else {
                Ok((SExpr::FunctionCall(name, Seq::empty()), p + 3))
            }
        } else {
            Ok((SExpr::Variable(name), p + 1))
        },
        SToken::LParen => match parse_expr_at(ts, p + 1) {
            Err(e) => Err(e),
            Ok((e, q)) => if peek_at(ts, q) == SToken::RParen {
                Ok((e, q + 1))
            } else {
                Err(expect_msg(peek_at(ts, q)))
            },
        },
        t => Err("Unexpected token: "@ + debug_token(t)),
    }
}

/// Call arguments: expressions separated by commas.
pub open spec fn parse_args_at(ts: Seq<SToken>, p: int) -> Result<(Seq<SExpr>, int), Seq<char>>
    decreases ts.len() - p, 8int,
{
    match parse_expr_at(ts, p) {
        Err(e) => Err(e),
        Ok((e, q)) => if p < q <= ts.len() {
            args_tail(ts, q, seq![e])
        } else {
            Err(Seq::empty())
        },
    }
}

pub open spec fn args_tail(ts: Seq<SToken>, p: int, acc: Seq<SExpr>) -> Result<
    (Seq<SExpr>, int),
    Seq<char>,
>
    decreases ts.len() - p, 0int,
{
    if peek_at(ts, p) == SToken::Comma {
        match parse_expr_at(ts, p + 1) {
            Err(e) => Err(e),
            Ok((e, q)) => if p < q <= ts.len() {
                args_tail(ts, q, acc.push(e))
            } else {
                Err(Seq::empty())
            },
        }
    } else {
        Ok((acc, p))
    }
}

pub open spec fn parse_unary_at(ts: Seq<SToken>, p: int) -> Result<(SExpr, int), Seq<char>>
    decreases ts.len() - p, 1int,
{
    if peek_at(ts, p) == SToken::Minus {
        match parse_primary_at(ts, p + 1) {
            Err(e) => Err(e),
            Ok((e, q)) => Ok((SExpr::UnaryOp(UnaryOp::Neg, Box::new(e)), q)),
        }
    } else {
        parse_primary_at(ts, p)
    }
}

pub open spec fn mul_tail(ts: Seq<SToken>, p: int, left: SExpr) -> Result<(SExpr, int), Seq<char>>
    decreases ts.len() - p, 0int,
{
    match mul_op(peek_at(ts, p)) {
        None => Ok((left, p)),
        Some(op) => match parse_unary_at(ts, p + 1) {
            Err(e) => Err(e),
            Ok((r, q)) => if p < q <= ts.len() {
                mul_tail(ts, q, SExpr::BinaryOp(Box::new(left), op, Box::new(r)))
            } else {
                Err(Seq::empty())
            },
        },
    }
}

pub open spec fn parse_mul_div_at(ts: Seq<SToken>, p: int) -> Result<(SExpr, int), Seq<char>>
    decreases ts.len() - p, 2int,
{
    match parse_unary_at(ts, p) {
        Err(e) => Err(e),
        Ok((l, q)) => if p < q <= ts.len() {
            mul_tail(ts, q, l)
        } else {
            Err(Seq::empty())
        },
    }
}

pub open spec fn add_tail(ts: Seq<SToken>, p: int, left: SExpr) -> Result<(SExpr, int), Seq<char>>
    decreases ts.len() - p, 0int,
{
    match add_op(peek_at(ts, p)) {
        None => Ok((left, p)),
        Some(op) => match parse_mul_div_at(ts, p + 1) {
            Err(e) => Err(e),
            Ok((r, q)) => if p < q <= ts.len() {
                add_tail(ts, q, SExpr::BinaryOp(Box::new(left), op, Box::new(r)))
            } else {
                Err(Seq::empty())
            },
        },
    }
}

pub open spec fn parse_add_sub_at(ts: Seq<SToken>, p: int) -> Result<(SExpr, int), Seq<char>>
    decreases ts.len() - p, 3int,
{
    match parse_mul_div_at(ts, p) {
        Err(e) => Err(e),
        Ok((l, q)) => if p < q <= ts.len() {
            add_tail(ts, q, l)
        } else {
            Err(Seq::empty())
        },
    }
}

pub open spec fn compare_tail(ts: Seq<SToken>, p: int, left: SExpr) -> Result<(SExpr, int), Seq<char>>
    decreases ts.len() - p, 0int,
{
    match compare_op(peek_at(ts, p)) {
        None => Ok((left, p)),
        Some(op) => match parse_add_sub_at(ts, p + 1) {
            Err(e) => Err(e),
            Ok((r, q)) => if p < q <= ts.len() {
                compare_tail(ts, q, SExpr::BinaryOp(Box::new(left), op, Box::new(r)))
            } else {
                Err(Seq::empty())
            },
        },
    }
}

pub open spec fn parse_comparison_at(ts: Seq<SToken>, p: int) -> Result<(SExpr, int), Seq<char>>
    decreases ts.len() - p, 4int,
{
    match parse_add_sub_at(ts, p) {
        Err(e) => Err(e),
        Ok((l, q)) => if p < q <= ts.len() {
            compare_tail(ts, q, l)
        } else {
            Err(Seq::empty())
        },
    }
}

pub open spec fn parse_not_at(ts: Seq<SToken>, p: int) -> Result<(SExpr, int), Seq<char>>
    decreases ts.len() - p, 5int,
{
    if peek_at(ts, p) == SToken::Not {
        match parse_not_at(ts, p + 1) {
            Err(e) => Err(e),
            Ok((e, q)) => Ok((SExpr::UnaryOp(UnaryOp::Not, Box::new(e)), q)),
        }
    } else {
        parse_comparison_at(ts, p)
    }
}

pub open spec fn and_tail(ts: Seq<SToken>, p: int, left: SExpr) -> Result<(SExpr, int), Seq<char>>
    decreases ts.len() - p, 0int,
{
    match and_op(peek_at(ts, p)) {
        None => Ok((left, p)),
        Some(op) => match parse_not_at(ts, p + 1) {
            Err(e) => Err(e),
            Ok((r, q)) => if p < q <= ts.len() {
                and_tail(ts, q, SExpr::BinaryOp(Box::new(left), op, Box::new(r)))
            } else {
                Err(Seq::empty())
            },
        },
    }
}

pub open spec fn parse_and_at(ts: Seq<SToken>, p: int) -> Result<(SExpr, int), Seq<char>>
    decreases ts.len() - p, 6int,
{
    match parse_not_at(ts, p) {
        Err(e) => Err(e),
        Ok((l, q)) => if p < q <= ts.len() {
            and_tail(ts, q, l)
        } else {
            Err(Seq::empty())
        },
    }
}

pub open spec fn or_tail(ts: Seq<SToken>, p: int, left: SExpr) -> Result<(SExpr, int), Seq<char>>
    decreases ts.len() - p, 0int,
{
    match or_op(peek_at(ts, p)) {
        None => Ok((left, p)),
        Some(op) => match parse_and_at(ts, p + 1) {
            Err(e) => Err(e),
            Ok((r, q)) => if p < q <= ts.len() {
                or_tail(ts, q, SExpr::BinaryOp(Box::new(left), op, Box::new(r)))
            } else {
                Err(Seq::empty())
            },
        },
    }
}

/// A whole expression; `OR` binds loosest, then `AND`, `NOT`, comparisons,
/// `+ -`, `* /`, unary minus.
pub open spec fn parse_expr_at(ts: Seq<SToken>, p: int) -> Result<(SExpr, int), Seq<char>>
    decreases ts.len() - p, 7int,
{
    match parse_and_at(ts, p) {
        Err(e) => Err(e),
        Ok((l, q)) => if p < q <= ts.len() {
            or_tail(ts, q, l)
        } else {
            Err(Seq::empty())
        },
    }
}

} // verus!

verus! {

// ==========================================
// Parser
// ==========================================

pub open spec fn parse_agrees(spec_r: Result<(SExpr, int), Seq<char>>, r: Result<Expr, String>, pos: int) -> bool {
    match r {
        Ok(e) => spec_r == Ok::<(SExpr, int), Seq<char>>((expr_view(e), pos)),
        Err(m) => spec_r == Err::<(SExpr, int), Seq<char>>(m@),
    }
}

pub open spec fn args_agree(
    spec_r: Result<(Seq<SExpr>, int), Seq<char>>,
    r: Result<Vec<Expr>, String>,
    pos: int,
) -> bool {
    match r {
        Ok(a) => spec_r == Ok::<(Seq<SExpr>, int), Seq<char>>((exprs_view(a@), pos)),
        Err(m) => spec_r == Err::<(Seq<SExpr>, int), Seq<char>>(m@),
    }
}

struct Parser {
    tokens: Vec<Token>,
    pos: usize,
    /// What `peek` shows past the last token.
    eof: Token,
}

impl Parser {
    spec fn ts(&self) -> Seq<SToken> {
        tokens_view(self.tokens@)
    }

    spec fn ready(&self) -> bool {
        &&& self.pos <= self.tokens@.len()
        &&& token_view(self.eof) == SToken::Eof
    }

    spec fn same_input(&self, other: &Parser) -> bool {
        &&& self.tokens == other.tokens
        &&& self.eof == other.eof
    }

    fn new(tokens: Vec<Token>) -> (r: Parser)
        ensures
            r.tokens == tokens,
            r.pos == 0,
            r.ready(),
    {
        Parser { tokens, pos: 0, eof: Token::Eof }
    }

    fn peek(&self) -> (r: &Token)
        requires
            self.ready(),
        ensures
            token_view(*r) == peek_at(self.ts(), self.pos as int),
    {
        if self.pos < self.tokens.len() {
            &self.tokens[self.pos]
        } else {
            &self.eof
        }
    }

    fn advance(&mut self) -> (r: Token)
        requires
            old(self).ready(),
            old(self).pos < old(self).tokens@.len(),
        ensures
            final(self).same_input(old(self)),
            final(self).pos == old(self).pos + 1,
            final(self).ready(),
            token_view(r) == peek_at(old(self).ts(), old(self).pos as int),
    {
        let t = self.peek().duplicate();
        let n = self.tokens.len();
        self.pos = self.pos + 1;
        t
    }

    fn expect(&mut self, expected: Token) -> (r: Result<(), String>)
        requires
            old(self).ready(),
            token_view(expected) == SToken::RParen,
        ensures
            final(self).same_input(old(self)),
            final(self).ready(),
            peek_at(old(self).ts(), old(self).pos as int) == SToken::RParen ==> r is Ok
                && final(self).pos == old(self).pos + 1,
            peek_at(old(self).ts(), old(self).pos as int) != SToken::RParen ==> (r matches Err(m)
                && m@ == expect_msg(peek_at(old(self).ts(), old(self).pos as int))),
    {
        let is_r = match self.peek() {
            Token::RParen => true,
            _ => false,
        };
        if is_r {
            self.advance();
            Ok(())
        } else {
            let mut msg = crate::text::string_from("Expected ");
            push_token_debug(&mut msg, &expected);
            push_str(&mut msg, ", got ");
            push_token_debug(&mut msg, self.peek());
            proof {
                assert(msg@ =~= expect_msg(peek_at(self.ts(), self.pos as int)));
            }
            Err(msg)
        }
    }

    fn peek_op(&self, level: u8) -> (r: Option<BinOp>)
        requires
            self.ready(),
        ensures
            level == 0 ==> r == mul_op(peek_at(self.ts(), self.pos as int)),
            level == 1 ==> r == add_op(peek_at(self.ts(), self.pos as int)),
            level == 2 ==> r == compare_op(peek_at(self.ts(), self.pos as int)),
            level == 3 ==> r == and_op(peek_at(self.ts(), self.pos as int)),
            level >= 4 ==> r == or_op(peek_at(self.ts(), self.pos as int)),
    {
        let t = self.peek();
        if level == 0 {
            match t {
                Token::Star => Some(BinOp::Mul),
                Token::Slash => Some(BinOp::Div),
                _ => None,
            }
        } else if level == 1 {
            match t {
                Token::Plus => Some(BinOp::Add),
                Token::Minus => Some(BinOp::Sub),
                _ => None,
            }
        } else if level == 2 {
            match t {
                Token::Eq => Some(BinOp::Eq),
                Token::Ne => Some(BinOp::Ne),
                Token::Lt => Some(BinOp::Lt),
                Token::Gt => Some(BinOp::Gt),
                Token::Le => Some(BinOp::Le),
                Token::Ge => Some(BinOp::Ge),
                _ => None,
            }
        } else if level == 3 {
            match t {
                Token::And => Some(BinOp::And),
                _ => None,
            }
        } else {
            match t {
                Token::Or => Some(BinOp::Or),
                _ => None,
            }
        }
    }

    /// Entry point: `OR` has the lowest precedence.
    fn parse_expr(&mut self) -> (r: Result<Expr, String>)
        requires
            old(self).ready(),
        ensures
            final(self).same_input(old(self)),
            final(self).ready(),
            parse_agrees(parse_expr_at(old(self).ts(), old(self).pos as int), r, final(self).pos as int),
            r is Ok ==> old(self).pos < final(self).pos,
        decreases old(self).tokens@.len() - old(self).pos, 7int,
    {
        let ghost ts = self.ts();
        let ghost p0 = self.pos as int;
        let mut left = match self.parse_and() {
            Ok(l) => l,
            Err(e) => return Err(e),
        };
        assert(parse_and_at(ts, p0) == Ok::<(SExpr, int), Seq<char>>((expr_view(left), self.pos as int)));
        assert(p0 < self.pos <= ts.len());
        assert(parse_expr_at(ts, p0) == or_tail(ts, self.pos as int, expr_view(left)));
        loop
            invariant
                self.same_input(old(self)),
                self.ready(),
                ts == self.ts(),
                ts == old(self).ts(),
                p0 == old(self).pos,
                p0 < self.pos,
                parse_expr_at(ts, p0) == or_tail(ts, self.pos as int, expr_view(left)),
            decreases self.tokens@.len() - self.pos,
        {
            match self.peek_op(4) {
                None => return Ok(left),
                Some(op) => {
                    let ghost q = self.pos as int;
                    self.advance();
                    let right = match self.parse_and() {
                        Ok(r) => r,
                        Err(e) => return Err(e),
                    };
                    left = Expr::BinaryOp(Box::new(left), op, Box::new(right));
                    assert(q < self.pos);
                },
            }
        }
    }

    fn parse_and(&mut self) -> (r: Result<Expr, String>)
        requires
            old(self).ready(),
        ensures
            final(self).same_input(old(self)),
            final(self).ready(),
            parse_agrees(parse_and_at(old(self).ts(), old(self).pos as int), r, final(self).pos as int),
            r is Ok ==> old(self).pos < final(self).pos,
        decreases old(self).tokens@.len() - old(self).pos, 6int,
    {
        let ghost ts = self.ts();
        let ghost p0 = self.pos as int;
        let mut left = match self.parse_not() {
            Ok(l) => l,
            Err(e) => return Err(e),
        };
        loop
            invariant
                self.same_input(old(self)),
                self.ready(),
                ts == self.ts(),
                ts == old(self).ts(),
                p0 == old(self).pos,
                p0 < self.pos,
                parse_and_at(ts, p0) == and_tail(ts, self.pos as int, expr_view(left)),
            decreases self.tokens@.len() - self.pos,
        {
            match self.peek_op(3) {
                None => return Ok(left),
                Some(op) => {
                    self.advance();
                    let right = match self.parse_not() {
                        Ok(r) => r,
                        Err(e) => return Err(e),
                    };
                    left = Expr::BinaryOp(Box::new(left), op, Box::new(right));
                },
            }
        }
    }

    fn parse_not(&mut self) -> (r: Result<Expr, String>)
        requires
            old(self).ready(),
        ensures
            final(self).same_input(old(self)),
            final(self).ready(),
            parse_agrees(parse_not_at(old(self).ts(), old(self).pos as int), r, final(self).pos as int),
            r is Ok ==> old(self).pos < final(self).pos,
        decreases old(self).tokens@.len() - old(self).pos, 5int,
    {
        let is_not = match self.peek() {
            Token::Not => true,
            _ => false,
        };
        if is_not {
            self.advance();
            let e = match self.parse_not() {
                Ok(e) => e,
                Err(m) => return Err(m),
            };
            return Ok(Expr::UnaryOp(UnaryOp::Not, Box::new(e)));
        }
        self.parse_comparison()
    }

    fn parse_comparison(&mut self) -> (r: Result<Expr, String>)
        requires
            old(self).ready(),
        ensures
            final(self).same_input(old(self)),
            final(self).ready(),
            parse_agrees(
                parse_comparison_at(old(self).ts(), old(self).pos as int),
                r,
                final(self).pos as int,
            ),
            r is Ok ==> old(self).pos < final(self).pos,
        decreases old(self).tokens@.len() - old(self).pos, 4int,
    {
        let ghost ts = self.ts();
        let ghost p0 = self.pos as int;
        let mut left = match self.parse_add_sub() {
            Ok(l) => l,
            Err(e) => return Err(e),
        };
        loop
            invariant
                self.same_input(old(self)),
                self.ready(),
                ts == self.ts(),
                ts == old(self).ts(),
                p0 == old(self).pos,
                p0 < self.pos,
                parse_comparison_at(ts, p0) == compare_tail(ts, self.pos as int, expr_view(left)),
            decreases self.tokens@.len() - self.pos,
        {
            match self.peek_op(2) {
                None => return Ok(left),
                Some(op) => {
                    self.advance();
                    let right = match self.parse_add_sub() {
                        Ok(r) => r,
                        Err(e) => return Err(e),
                    };
                    left = Expr::BinaryOp(Box::new(left), op, Box::new(right));
                },
            }
        }
    }

    fn parse_add_sub(&mut self) -> (r: Result<Expr, String>)
        requires
            old(self).ready(),
        ensures
            final(self).same_input(old(self)),
            final(self).ready(),
            parse_agrees(parse_add_sub_at(old(self).ts(), old(self).pos as int), r, final(self).pos as int),
            r is Ok ==> old(self).pos < final(self).pos,
        decreases old(self).tokens@.len() - old(self).pos, 3int,
    {
        let ghost ts = self.ts();
        let ghost p0 = self.pos as int;
        let mut left = match self.parse_mul_div() {
            Ok(l) => l,
            Err(e) => return Err(e),
        };
        loop
            invariant
                self.same_input(old(self)),
                self.ready(),
                ts == self.ts(),
                ts == old(self).ts(),
                p0 == old(self).pos,
                p0 < self.pos,
                parse_add_sub_at(ts, p0) == add_tail(ts, self.pos as int, expr_view(left)),
            decreases self.tokens@.len() - self.pos,
        {
            match self.peek_op(1) {
                None => return Ok(left),
                Some(op) => {
                    self.advance();
                    let right = match self.parse_mul_div() {
                        Ok(r) => r,
                        Err(e) => return Err(e),
                    };
                    left = Expr::BinaryOp(Box::new(left), op, Box::new(right));
                },
            }
        }
    }

    fn parse_mul_div(&mut self) -> (r: Result<Expr, String>)
        requires
            old(self).ready(),
        ensures
            final(self).same_input(old(self)),
            final(self).ready(),
            parse_agrees(parse_mul_div_at(old(self).ts(), old(self).pos as int), r, final(self).pos as int),
            r is Ok ==> old(self).pos < final(self).pos,
        decreases old(self).tokens@.len() - old(self).pos, 2int,
    {
        let ghost ts = self.ts();
        let ghost p0 = self.pos as int;
        let mut left = match self.parse_unary() {
            Ok(l) => l,
            Err(e) => return Err(e),
        };
        loop
            invariant
                self.same_input(old(self)),
                self.ready(),
                ts == self.ts(),
                ts == old(self).ts(),
                p0 == old(self).pos,
                p0 < self.pos,
                parse_mul_div_at(ts, p0) == mul_tail(ts, self.pos as int, expr_view(left)),
            decreases self.tokens@.len() - self.pos,
        {
            match self.peek_op(0) {
                None => return Ok(left),
                Some(op) => {
                    self.advance();
                    let right = match self.parse_unary() {
                        Ok(r) => r,
                        Err(e) => return Err(e),
                    };
                    left = Expr::BinaryOp(Box::new(left), op, Box::new(right));
                },
            }
        }
    }

    fn parse_unary(&mut self) -> (r: Result<Expr, String>)
        requires
            old(self).ready(),
        ensures
            final(self).same_input(old(self)),
            final(self).ready(),
            parse_agrees(parse_unary_at(old(self).ts(), old(self).pos as int), r, final(self).pos as int),
            r is Ok ==> old(self).pos < final(self).pos,
        decreases old(self).tokens@.len() - old(self).pos, 1int,
    {
        let is_minus = match self.peek() {
            Token::Minus => true,
            _ => false,
        };
        if is_minus {
            self.advance();
            let e = match self.parse_primary() {
                Ok(e) => e,
                Err(m) => return Err(m),
            };
            return Ok(Expr::UnaryOp(UnaryOp::Neg, Box::new(e)));
        }
        self.parse_primary()
    }

    /// Call arguments, separated by commas, up to (not including) the `)`.
    fn parse_args(&mut self) -> (r: Result<Vec<Expr>, String>)
        requires
            old(self).ready(),
        ensures
            final(self).same_input(old(self)),
            final(self).ready(),
            args_agree(parse_args_at(old(self).ts(), old(self).pos as int), r, final(self).pos as int),
            r is Ok ==> old(self).pos < final(self).pos,
        decreases old(self).tokens@.len() - old(self).pos, 8int,
    {
        let ghost ts = self.ts();
        let ghost p0 = self.pos as int;
        let first = match self.parse_expr() {
            Ok(e) => e,
            Err(m) => return Err(m),
        };
        let mut args: Vec<Expr> = Vec::new();
        args.push(first);
        proof {
            assert(exprs_view(args@) =~= seq![expr_view(first)]) by {
                assert(args@.drop_first() =~= Seq::<Expr>::empty());
                assert(exprs_view(Seq::<Expr>::empty()) == Seq::<SExpr>::empty());
            }
        }
        loop
            invariant
                self.same_input(old(self)),
                self.ready(),
                ts == self.ts(),
                ts == old(self).ts(),
                p0 == old(self).pos,
                p0 < self.pos,
                parse_args_at(ts, p0) == args_tail(ts, self.pos as int, exprs_view(args@)),
            decreases self.tokens@.len() - self.pos,
        {
            let comma = match self.peek() {
                Token::Comma => true,
                _ => false,
            };
            if !comma {
                return Ok(args);
            }
            self.advance();
            let e = match self.parse_expr() {
                Ok(e) => e,
                Err(m) => return Err(m),
            };
            proof {
                lemma_exprs_view_push(args@, e);
            }
            args.push(e);
        }
    }

    #[verifier::rlimit(40)]
    fn parse_primary(&mut self) -> (r: Result<Expr, String>)
        requires
            old(self).ready(),
        ensures
            final(self).same_input(old(self)),
            final(self).ready(),
            parse_agrees(parse_primary_at(old(self).ts(), old(self).pos as int), r, final(self).pos as int),
            r is Ok ==> old(self).pos < final(self).pos,
        decreases old(self).tokens@.len() - old(self).pos, 0int,
    {
        let ghost ts = self.ts();
        let ghost p0 = self.pos as int;
        let kind: u8 = match self.peek() {
            Token::Number(_) => 0,
            Token::StringLit(_) => 1,
            Token::Ident(_) => 2,
            Token::LParen => 3,
            _ => 4,
        };
        if kind == 4 {
            let mut msg = crate::text::string_from("Unexpected token: ");
            push_token_debug(&mut msg, self.peek());
            return Err(msg);
        }
        let t = self.advance();
        match t {
            Token::Number(n) => Ok(Expr::Number(n)),
            Token::StringLit(s) => Ok(Expr::StringLit(s)),
            Token::Ident(name) => {
                let call = match self.peek() {
                    Token::LParen => true,
                    _ => false,
                };
                if !call {
                    return Ok(Expr::Variable(name));
                }
                self.advance();
                let empty = match self.peek() {
                    Token::RParen => true,
                    _ => false,
                };
                if empty {
                    self.advance();
                    let none: Vec<Expr> = Vec::new();
                    proof {
                        assert(exprs_view(none@) == Seq::<SExpr>::empty());
                    }
                    return Ok(Expr::FunctionCall(name, none));
                }
                let args = match self.parse_args() {
                    Ok(a) => a,
                    Err(m) => return Err(m),
                };
                match self.expect(Token::RParen) {
                    Ok(()) => Ok(Expr::FunctionCall(name, args)),
                    Err(m) => Err(m),
                }
            },
            _ => {
                let e = match self.parse_expr() {
                    Ok(e) => e,
                    Err(m) => return Err(m),
                };
                match self.expect(Token::RParen) {
                    Ok(()) => Ok(e),
                    Err(m) => Err(m),
                }
            },
        }
    }
}

} // verus!


verus! {

// ==========================================
// Typst transpiler
// ==========================================

pub struct TranspileContext {
    pub is_loop: bool,
    /// The loop's path into the data, e.g. `items` or `details.collaterals`.
    pub loop_path: String,
}

/// The escape of one character inside a Typst string literal.
pub open spec fn str_lit_char(c: char) -> Seq<char> {
    if c == '\\' {
        seq!['\\', '\\']
    } else if c == '"' {
        seq!['\\', '"']
    } else {
        seq![c]
    }
}

/// Text as a Typst string literal body: `\` and `"` escaped.
pub open spec fn str_lit_body(s: Seq<char>) -> Seq<char> {
    flat_map(s, |c: char| str_lit_char(c))
}

pub open spec fn op_text(op: BinOp) -> Seq<char> {
    match op {
        BinOp::Add => "+"@,
        BinOp::Sub => "-"@,
        BinOp::Mul => "*"@,
        BinOp::Div => "/"@,
        BinOp::Eq => "=="@,
        BinOp::Ne => "!="@,
        BinOp::Lt => "<"@,
        BinOp::Gt => ">"@,
        BinOp::Le => "<="@,
        BinOp::Ge => ">="@,
        BinOp::And => "and"@,
        BinOp::Or => "or"@,
    }
}

pub open spec fn is_aggregate_name(u: Seq<char>) -> bool {
    u == "SUM"@ || u == "AVG"@ || u == "MIN"@ || u == "MAX"@ || u == "COUNT"@
}

/// The Typst array of a loop field's numbers: `data.<path>.map(...)`.
pub open spec fn field_array(path: Seq<char>, field: Seq<char>) -> Seq<char> {
    "data."@ + path + ".map(i => num(safe-get(i, \""@ + field + "\")))"@
}

pub open spec fn aggregate_text(u: Seq<char>, arr: Seq<char>) -> Seq<char> {
    if u == "SUM"@ {
        arr + ".sum()"@
    } else if u == "AVG"@ {
        "{ let arr = "@ + arr + "; arr.sum() / arr.len() }"@
    } else if u == "MIN"@ {
        arr + ".min()"@
    } else if u == "MAX"@ {
        arr + ".max()"@
    } else {
        arr + ".len()"@
    }
}

/// The Typst code of an expression.
pub open spec fn emit(e: SExpr, is_loop: bool, path: Seq<char>) -> Seq<char>
    decreases e, 1int,
{
    match e {
        SExpr::Number(n) => canonical_number(n),
        SExpr::StringLit(s) => "\""@ + str_lit_body(s) + "\""@,
        SExpr::Variable(name) => if is_loop {
            "num(safe-get(item, \""@ + name + "\"))"@
        } else {
            "num(safe-get(data, \""@ + name + "\"))"@
        },
        SExpr::BinaryOp(l, op, r) => "("@ + emit(*l, is_loop, path) + " "@ + op_text(op) + " "@
            + emit(*r, is_loop, path) + ")"@,
        SExpr::UnaryOp(op, x) => match op {
            UnaryOp::Neg => "(-"@ + emit(*x, is_loop, path) + ")"@,
            UnaryOp::Not => "(not "@ + emit(*x, is_loop, path) + ")"@,
        },
        SExpr::FunctionCall(name, args) => {
            let u = ascii_upper_seq(name);
            if is_aggregate_name(u) {
                if args.len() > 0 && args[0] is Variable {
                    aggregate_text(u, field_array(path, args[0]->Variable_0))
                } else {
                    "0"@
                }
            } else if u == "IF"@ {
                if args.len() == 3 {
                    "if "@ + emit(args[0], is_loop, path) + " { "@ + emit(args[1], is_loop, path)
                        + " } else { "@ + emit(args[2], is_loop, path) + " }"@
                } else {
                    "0"@
                }
            } else if u == "CONCAT"@ {
                emit_concat(args, args.len() as int, is_loop, path)
            } else {
                "0"@
            }
        },
    }
}

/// `str(a)` for the first `n` arguments, joined with ` + `.
pub open spec fn emit_concat(args: Seq<SExpr>, n: int, is_loop: bool, path: Seq<char>) -> Seq<char>
    decreases args, n,
{
    if n <= 0 || n > args.len() {
        Seq::empty()
    } else {
        let part = "str("@ + emit(args[n - 1], is_loop, path) + ")"@;
        if n == 1 {
            part
        } else {
            emit_concat(args, n - 1, is_loop, path) + " + "@ + part
        }
    }
}

/// What a formula turns into: text that does not start with `=` is kept
/// as it is; otherwise the rest is lexed and parsed (tokens after a
/// complete expression are ignored) and the expression is emitted inside
/// `#{ ... }`; a lexer or parser error is returned as it is.
pub open spec fn transpile(formula: Seq<char>, is_loop: bool, path: Seq<char>) -> Result<
    Seq<char>,
    Seq<char>,
> {
    if formula.len() == 0 || formula[0] != '=' {
        Ok(formula)
    } else {
        match lex(formula.drop_first()) {
            Err(e) => Err(e),
            Ok(ts) => match parse_expr_at(ts, 0) {
                Err(e) => Err(e),
                Ok((e, _)) => Ok("#{ "@ + emit(e, is_loop, path) + " }"@),
            },
        }
    }
}

pub(crate) fn push_str_lit_body(out: &mut String, s: &str)
    ensures
        final(out)@ == old(out)@ + str_lit_body(s@),
{
    let cs = chars_of(s);
    let ghost start = out@;
    for i in 0..cs.len()
        invariant
            cs@ == s@,
            out@ == start + flat_map(cs@.take(i as int), |c: char| str_lit_char(c)),
    {
        proof {
            lemma_flat_map_take(cs@, i as int, |c: char| str_lit_char(c));
        }
        let c = cs[i];
        if c == '\\' || c == '"' {
            push_char(out, '\\');
        }
        push_char(out, c);
        assert(out@ =~= start + flat_map(cs@.take(i + 1), |c: char| str_lit_char(c)));
    }
    assert(cs@.take(cs@.len() as int) =~= cs@);
}

/// The binary operator a token stands for in the parser, if any.
pub open spec fn token_binop(t: SToken) -> Option<BinOp> {
    match mul_op(t) {
        Some(op) => Some(op),
        None => match add_op(t) {
            Some(op) => Some(op),
            None => match compare_op(t) {
                Some(op) => Some(op),
                None => match and_op(t) {
                    Some(op) => Some(op),
                    None => or_op(t),
                },
            },
        },
    }
}

/// Every binary operator is written in Typst as the very text that the
/// formula lexer reads as that operator: `-` for a subtraction, `+` for an
/// addition, `==` for equality, `and` for a conjunction, and so on. So a
/// formula's operators reach the Typst code unchanged.
pub proof fn law_operator_text_reads_back(op: BinOp)
    ensures
        lex(op_text(op)) matches Ok(ts) && ts.len() == 2 && ts[1] == SToken::Eof && token_binop(ts[0])
            == Some(op),
{
    let cs = op_text(op);
    match op {
        BinOp::Add => {
            reveal_strlit("+");
            assert(cs =~= seq!['+']);
        },
        BinOp::Sub => {
            reveal_strlit("-");
            assert(cs =~= seq!['-']);
        },
        BinOp::Mul => {
            reveal_strlit("*");
            assert(cs =~= seq!['*']);
        },
        BinOp::Div => {
            reveal_strlit("/");
            assert(cs =~= seq!['/']);
        },
        BinOp::Eq => {
            reveal_strlit("==");
            assert(cs =~= seq!['=', '=']);
        },
        BinOp::Ne => {
            reveal_strlit("!=");
            assert(cs =~= seq!['!', '=']);
        },
        BinOp::Lt => {
            reveal_strlit("<");
            assert(cs =~= seq!['<']);
        },
        BinOp::Gt => {
            reveal_strlit(">");
            assert(cs =~= seq!['>']);
        },
        BinOp::Le => {
            reveal_strlit("<=");
            assert(cs =~= seq!['<', '=']);
        },
        BinOp::Ge => {
            reveal_strlit(">=");
            assert(cs =~= seq!['>', '=']);
        },
        BinOp::And => {
            reveal_strlit("and");
            reveal_strlit("AND");
            assert(cs =~= seq!['a', 'n', 'd']);
            reveal_with_fuel(scan_ident, 4);
            assert(scan_ident(cs, 0) == 3);
            assert(cs.subrange(0, 3) =~= cs);
            assert(ascii_upper_seq(cs) =~= "AND"@);
        },
        BinOp::Or => {
            reveal_strlit("or");
            reveal_strlit("OR");
            reveal_strlit("AND");
            assert(cs =~= seq!['o', 'r']);
            reveal_with_fuel(scan_ident, 3);
            assert(scan_ident(cs, 0) == 2);
            assert(cs.subrange(0, 2) =~= cs);
            assert(ascii_upper_seq(cs) =~= "OR"@);
            assert(ascii_upper_seq(cs) != "AND"@);
        },
    }
    assert(skip_ws(cs, 0) == 0);
    assert(skip_ws(cs, cs.len() as int) == cs.len());
    let (t, q) = lex_one(cs, 0);
    assert(q == cs.len());
    assert(lex_one(cs, q).0 == Ok::<SToken, Seq<char>>(SToken::Eof));
    assert(lex_from(cs, q) == Ok::<Seq<SToken>, Seq<char>>(seq![SToken::Eof]));
    assert(t matches Ok(tok) && tok != SToken::Eof && token_binop(tok) == Some(op));
    assert(lex(cs) == Ok::<Seq<SToken>, Seq<char>>(seq![t->Ok_0] + seq![SToken::Eof]));
}

/// An operation's Typst code keeps its operands in order and puts between
/// them, in parentheses, the text the formula lexer reads as the
/// operator; a negation is `(-x)` and a logical not `(not x)`, written with
/// the texts the lexer reads as `-` and `not`.
pub proof fn law_emit_keeps_operands_and_operators(
    l: SExpr,
    op: BinOp,
    r: SExpr,
    x: SExpr,
    is_loop: bool,
    path: Seq<char>,
)
    ensures
        exists|w: Seq<char>|
            #![trigger lex(w)]
            lex(w) matches Ok(ts) && ts.len() == 2 && ts[1] == SToken::Eof && token_binop(ts[0])
                == Some(op) && emit(SExpr::BinaryOp(Box::new(l), op, Box::new(r)), is_loop, path)
                == seq!['('] + emit(l, is_loop, path) + seq![' '] + w + seq![' '] + emit(
                r,
                is_loop,
                path,
            ) + seq![')'],
        lex(seq!['-']) == Ok::<Seq<SToken>, Seq<char>>(seq![SToken::Minus, SToken::Eof]),
        emit(SExpr::UnaryOp(UnaryOp::Neg, Box::new(x)), is_loop, path) == seq!['(', '-'] + emit(
            x,
            is_loop,
            path,
        ) + seq![')'],
        lex(seq!['n', 'o', 't']) == Ok::<Seq<SToken>, Seq<char>>(seq![SToken::Not, SToken::Eof]),
        emit(SExpr::UnaryOp(UnaryOp::Not, Box::new(x)), is_loop, path) == seq!['(', 'n', 'o', 't', ' ']
            + emit(x, is_loop, path) + seq![')'],
{
    law_operator_text_reads_back(op);
    reveal_strlit("(");
    reveal_strlit(" ");
    reveal_strlit(")");
    reveal_strlit("(-");
    reveal_strlit("(not ");
    let w = op_text(op);
    assert(emit(SExpr::BinaryOp(Box::new(l), op, Box::new(r)), is_loop, path) =~= seq!['('] + emit(
        l,
        is_loop,
        path,
    ) + seq![' '] + w + seq![' '] + emit(r, is_loop, path) + seq![')']);
    assert(emit(SExpr::UnaryOp(UnaryOp::Neg, Box::new(x)), is_loop, path) =~= seq!['(', '-'] + emit(
        x,
        is_loop,
        path,
    ) + seq![')']);
    assert(emit(SExpr::UnaryOp(UnaryOp::Not, Box::new(x)), is_loop, path) =~= seq![
        '(',
        'n',
        'o',
        't',
        ' ',
    ] + emit(x, is_loop, path) + seq![')']);
    let minus = seq!['-'];
    assert(skip_ws(minus, 0) == 0);
    assert(skip_ws(minus, 1) == 1);
    assert(lex_from(minus, 1) == Ok::<Seq<SToken>, Seq<char>>(seq![SToken::Eof]));
    assert(seq![SToken::Minus] + seq![SToken::Eof] =~= seq![SToken::Minus, SToken::Eof]);
    assert(lex(minus) == Ok::<Seq<SToken>, Seq<char>>(seq![SToken::Minus] + seq![SToken::Eof]));
    let not = seq!['n', 'o', 't'];
    reveal_strlit("NOT");
    reveal_strlit("AND");
    reveal_strlit("OR");
    reveal_with_fuel(scan_ident, 4);
    assert(skip_ws(not, 0) == 0);
    assert(skip_ws(not, 3) == 3);
    assert(scan_ident(not, 0) == 3);
    assert(not.subrange(0, 3) =~= not);
    assert(ascii_upper_seq(not) =~= "NOT"@);
    assert(ascii_upper_seq(not)[0] == 'N' && ("AND"@)[0] == 'A');
    assert(ascii_upper_seq(not) != "AND"@);
    assert(ascii_upper_seq(not).len() == 3 && ("OR"@).len() == 2);
    assert(ascii_upper_seq(not) != "OR"@);
    assert(lex_from(not, 3) == Ok::<Seq<SToken>, Seq<char>>(seq![SToken::Eof]));
    assert(seq![SToken::Not] + seq![SToken::Eof] =~= seq![SToken::Not, SToken::Eof]);
    assert(lex(not) == Ok::<Seq<SToken>, Seq<char>>(seq![SToken::Not] + seq![SToken::Eof]));
}

fn op_str(op: BinOp) -> (r: &'static str)
    ensures
        r@ == op_text(op),
{
    let r = match op {
        BinOp::Add => "+",
        BinOp::Sub => "-",
        BinOp::Mul => "*",
        BinOp::Div => "/",
        BinOp::Eq => "==",
        BinOp::Ne => "!=",
        BinOp::Lt => "<",
        BinOp::Gt => ">",
        BinOp::Le => "<=",
        BinOp::Ge => ">=",
        BinOp::And => "and",
        BinOp::Or => "or",
    };
    proof {
        reveal_strlit("+");
        reveal_strlit("-");
        reveal_strlit("*");
        reveal_strlit("/");
        reveal_strlit("==");
        reveal_strlit("!=");
        reveal_strlit("<");
        reveal_strlit(">");
        reveal_strlit("<=");
        reveal_strlit(">=");
        reveal_strlit("and");
        reveal_strlit("or");
    }
    r
}

fn upper_name(name: &str) -> (r: Vec<char>)
    ensures
        r@ == ascii_upper_seq(name@),
{
    let cs = chars_of(name);
    let mut up: Vec<char> = Vec::new();
    for i in 0..cs.len()
        invariant
            cs@ == name@,
            up@ == ascii_upper_seq(cs@.take(i as int)),
    {
        up.push(to_ascii_upper(cs[i]));
        assert(up@ =~= ascii_upper_seq(cs@.take(i + 1)));
    }
    assert(cs@.take(cs@.len() as int) =~= cs@);
    up
}

fn word_is(u: &Vec<char>, w: &str) -> (r: bool)
    ensures
        r == (u@ == w@),
{
    let wc = chars_of(w);
    seq_eq(u.as_slice(), wc.as_slice())
}

/// Appends the Typst code of an expression.
fn emit_typst(out: &mut String, expr: &Expr, ctx: &TranspileContext)
    ensures
        final(out)@ == old(out)@ + emit(expr_view(*expr), ctx.is_loop, ctx.loop_path@),
    decreases expr,
{
    let ghost path = ctx.loop_path@;
    let ghost il = ctx.is_loop;
    let ghost start = out@;
    match expr {
        Expr::Number(n) => {
            push_number(out, n.as_str(), false);
        },
        Expr::StringLit(s) => {
            push_str(out, "\"");
            push_str_lit_body(out, s.as_str());
            push_str(out, "\"");
            assert(out@ =~= start + emit(expr_view(*expr), il, path));
        },
        Expr::Variable(name) => {
            if ctx.is_loop {
                push_str(out, "num(safe-get(item, \"");
            } else {
                push_str(out, "num(safe-get(data, \"");
            }
            push_str(out, name.as_str());
            push_str(out, "\"))");
            assert(out@ =~= start + emit(expr_view(*expr), il, path));
        },
        Expr::BinaryOp(l, op, r) => {
            push_str(out, "(");
            emit_typst(out, l, ctx);
            push_str(out, " ");
            push_str(out, op_str(*op));
            push_str(out, " ");
            emit_typst(out, r, ctx);
            push_str(out, ")");
            assert(out@ =~= start + emit(expr_view(*expr), il, path));
        },
        Expr::UnaryOp(op, x) => {
            match op {
                UnaryOp::Neg => push_str(out, "(-"),
                UnaryOp::Not => push_str(out, "(not "),
            }
            emit_typst(out, x, ctx);
            push_str(out, ")");
            assert(out@ =~= start + emit(expr_view(*expr), il, path));
        },
        Expr::FunctionCall(name, args) => {
            let u = upper_name(name.as_str());
            let ghost av = exprs_view(args@);
            proof {
                lemma_exprs_view_len(args@);
            }
            if word_is(&u, "SUM") || word_is(&u, "AVG") || word_is(&u, "MIN") || word_is(&u, "MAX")
                || word_is(&u, "COUNT") {
                let field: Option<&String> = if args.len() > 0 {
                    proof {
                        lemma_exprs_view_index(args@, 0);
                    }
                    match &args[0] {
                        Expr::Variable(f) => Some(f),
                        _ => None,
                    }
                } else {
                    None
                };
                match field {
                    Some(f) => {
                        push_aggregate(out, &u, f.as_str(), ctx.loop_path.as_str());
                        assert(out@ =~= start + emit(expr_view(*expr), il, path));
                    },
                    None => {
                        push_str(out, "0");
                        assert(out@ =~= start + emit(expr_view(*expr), il, path));
                    },
                }
            } else if word_is(&u, "IF") {
                if args.len() == 3 {
                    proof {
                        lemma_exprs_view_index(args@, 0);
                        lemma_exprs_view_index(args@, 1);
                        lemma_exprs_view_index(args@, 2);
                    }
                    push_str(out, "if ");
                    emit_typst(out, &args[0], ctx);
                    push_str(out, " { ");
                    emit_typst(out, &args[1], ctx);
                    push_str(out, " } else { ");
                    emit_typst(out, &args[2], ctx);
                    push_str(out, " }");
                    assert(out@ =~= start + emit(expr_view(*expr), il, path));
                } else {
                    push_str(out, "0");
                    assert(out@ =~= start + emit(expr_view(*expr), il, path));
                }
            } else if word_is(&u, "CONCAT") {
                emit_concat_exec(out, args, ctx);
                assert(out@ =~= start + emit(expr_view(*expr), il, path));
            } else {
                push_str(out, "0");
                assert(out@ =~= start + emit(expr_view(*expr), il, path));
            }
        },
    }
}

fn push_aggregate(out: &mut String, u: &Vec<char>, f: &str, path: &str)
    requires
        is_aggregate_name(u@),
    ensures
        final(out)@ == old(out)@ + aggregate_text(u@, field_array(path@, f@)),
{
    let ghost start = out@;
    let mut arr = String::new();
    push_str(&mut arr, "data.");
    push_str(&mut arr, path);
    push_str(&mut arr, ".map(i => num(safe-get(i, \"");
    push_str(&mut arr, f);
    push_str(&mut arr, "\")))");
    assert(arr@ =~= field_array(path@, f@));
    if word_is(u, "SUM") {
        push_str(out, arr.as_str());
        push_str(out, ".sum()");
        assert(out@ =~= start + aggregate_text(u@, arr@));
    } else if word_is(u, "AVG") {
        push_str(out, "{ let arr = ");
        push_str(out, arr.as_str());
        push_str(out, "; arr.sum() / arr.len() }");
        assert(out@ =~= start + aggregate_text(u@, arr@));
    } else if word_is(u, "MIN") {
        push_str(out, arr.as_str());
        push_str(out, ".min()");
        assert(out@ =~= start + aggregate_text(u@, arr@));
    } else if word_is(u, "MAX") {
        push_str(out, arr.as_str());
        push_str(out, ".max()");
        assert(out@ =~= start + aggregate_text(u@, arr@));
    } else {
        push_str(out, arr.as_str());
        push_str(out, ".len()");
        assert(out@ =~= start + aggregate_text(u@, arr@));
    }
}

/// Appends `str(a)` for every argument, joined with ` + `.
fn emit_concat_exec(out: &mut String, args: &Vec<Expr>, ctx: &TranspileContext)
    ensures
        final(out)@ == old(out)@ + emit_concat(
            exprs_view(args@),
            args@.len() as int,
            ctx.is_loop,
            ctx.loop_path@,
        ),
    decreases args,
{
    let ghost av = exprs_view(args@);
    let ghost start = out@;
    proof {
        lemma_exprs_view_len(args@);
    }
    for i in 0..args.len()
        invariant
            av == exprs_view(args@),
            av.len() == args@.len(),
            out@ == start + emit_concat(av, i as int, ctx.is_loop, ctx.loop_path@),
    {
        proof {
            lemma_exprs_view_index(args@, i as int);
        }
        if i > 0 {
            push_str(out, " + ");
        }
        push_str(out, "str(");
        emit_typst(out, &args[i], ctx);
        push_str(out, ")");
        assert(out@ =~= start + emit_concat(av, i + 1, ctx.is_loop, ctx.loop_path@));
    }
}

proof fn lemma_exprs_view_len(s: Seq<Expr>)
    ensures
        exprs_view(s).len() == s.len(),
    decreases s.len(),
{
    if s.len() > 0 {
        lemma_exprs_view_len(s.drop_first());
    }
}

proof fn lemma_exprs_view_index(s: Seq<Expr>, i: int)
    requires
        0 <= i < s.len(),
    ensures
        exprs_view(s)[i] == expr_view(s[i]),
    decreases s.len(),
{
    lemma_exprs_view_len(s);
    if i > 0 {
        lemma_exprs_view_index(s.drop_first(), i - 1);
    }
}

/// A formula parsed into its expression: the text after `=`, lexed and
/// parsed; tokens after a complete expression are ignored.
pub fn parse_formula(body: &str) -> (r: Result<Expr, String>)
    ensures
        match lex(body@) {
            Err(e) => r matches Err(m) && m@ == e,
            Ok(ts) => match r {
                Ok(e) => parse_expr_at(ts, 0) matches Ok((v, _)) && v == expr_view(e),
                Err(m) => parse_expr_at(ts, 0) == Err::<(SExpr, int), Seq<char>>(m@),
            },
        },
{
    let mut lexer = Lexer::new(body);
    let tokens = match lexer.tokenize() {
        Ok(t) => t,
        Err(e) => return Err(e),
    };
    let mut parser = Parser::new(tokens);
    parser.parse_expr()
}

/// Translates a formula into Typst code; see [`transpile`].
pub fn transpile_to_typst(formula: &str, ctx: &TranspileContext) -> (r: Result<String, String>)
    ensures
        match r {
            Ok(s) => transpile(formula@, ctx.is_loop, ctx.loop_path@) == Ok::<Seq<char>, Seq<char>>(s@),
            Err(e) => transpile(formula@, ctx.is_loop, ctx.loop_path@) == Err::<Seq<char>, Seq<char>>(e@),
        },
{
    let cs = chars_of(formula);
    if cs.len() == 0 || cs[0] != '=' {
        return Ok(crate::text::string_from(formula));
    }
    let rest = crate::text::chars_from(cs.as_slice(), 1);
    let body = crate::text::string_from_chars(rest.as_slice());
    proof {
        assert(body@ =~= formula@.drop_first());
    }
    let ast = parse_formula(body.as_str())?;
    let mut out = crate::text::string_from("#{ ");
    emit_typst(&mut out, &ast, ctx);
    push_str(&mut out, " }");
    Ok(out)
}

} // verus!

verus! {

// ==========================================
// Locale-aware number text
// ==========================================

pub struct LocaleConfig {
    pub thousands_sep: char,
    pub decimal_sep: char,
    /// True for Devanagari-script locales (Nepali, Hindi, ...), which group
    /// the integer part as 10,00,000: three digits, then pairs.
    pub devanagari_grouping: bool,
}

pub open spec fn locale_is(locale: Seq<char>, names: Seq<Seq<char>>) -> bool {
    exists|i: int| 0 <= i < names.len() && fold_lower_seq(locale) == #[trigger] names[i]
}

pub open spec fn south_asian_locales() -> Seq<Seq<char>> {
    seq!["ne-np"@, "en-np"@, "hi-in"@, "en-in"@, "mr-in"@]
}

pub open spec fn european_locales() -> Seq<Seq<char>> {
    seq!["de-de"@, "fr-fr"@, "es-es"@, "it-it"@, "pt-br"@]
}

pub open spec fn swiss_locales() -> Seq<Seq<char>> {
    seq!["fr-ch"@, "de-ch"@]
}

/// Separators of a locale, matched case-insensitively: South Asian
/// locales group in lakhs and crores, European ones swap `.` and `,`,
/// Swiss ones separate thousands with `'`, and anything else is US style.
pub open spec fn locale_spec(locale: Seq<char>) -> (char, char, bool) {
    if locale_is(locale, south_asian_locales()) {
        (',', '.', true)
    } else if locale_is(locale, european_locales()) {
        ('.', ',', false)
    } else if locale_is(locale, swiss_locales()) {
        ('\'', '.', false)
    } else {
        (',', '.', false)
    }
}

/// Every Nepali and Indian locale tag (`ne-NP`, `en-NP`, `hi-IN`, `en-IN`,
/// `mr-IN`, in any case) groups in lakhs and crores, with `,` between
/// groups and `.` before the decimals.
pub proof fn law_south_asian_locales_group_in_lakhs(locale: Seq<char>)
    requires
        fold_lower_seq(locale) == "ne-np"@ || fold_lower_seq(locale) == "en-np"@ || fold_lower_seq(
            locale,
        ) == "hi-in"@ || fold_lower_seq(locale) == "en-in"@ || fold_lower_seq(locale) == "mr-in"@,
    ensures
        locale_spec(locale) == (',', '.', true),
{
    let names = south_asian_locales();
    if fold_lower_seq(locale) == "ne-np"@ {
        assert(names[0] == "ne-np"@);
    } else if fold_lower_seq(locale) == "en-np"@ {
        assert(names[1] == "en-np"@);
    } else if fold_lower_seq(locale) == "hi-in"@ {
        assert(names[2] == "hi-in"@);
    } else if fold_lower_seq(locale) == "en-in"@ {
        assert(names[3] == "en-in"@);
    } else {
        assert(names[4] == "mr-in"@);
    }
    assert(locale_is(locale, names));
}

/// German, French, Spanish, Italian and Brazilian Portuguese (`de-DE`,
/// `fr-FR`, `es-ES`, `it-IT`, `pt-BR`, any case) separate thousands with
/// `.` and decimals with `,`; Swiss French and German (`fr-CH`, `de-CH`)
/// separate thousands with `'`.
pub proof fn law_european_and_swiss_separators(locale: Seq<char>)
    ensures
        (fold_lower_seq(locale) == "de-de"@ || fold_lower_seq(locale) == "fr-fr"@ || fold_lower_seq(
            locale,
        ) == "es-es"@ || fold_lower_seq(locale) == "it-it"@ || fold_lower_seq(locale) == "pt-br"@)
            ==> locale_spec(locale) == ('.', ',', false),
        (fold_lower_seq(locale) == "fr-ch"@ || fold_lower_seq(locale) == "de-ch"@) ==> locale_spec(
            locale,
        ) == ('\'', '.', false),
{
    reveal_strlit("de-de");
    reveal_strlit("fr-fr");
    reveal_strlit("es-es");
    reveal_strlit("it-it");
    reveal_strlit("pt-br");
    reveal_strlit("fr-ch");
    reveal_strlit("de-ch");
    reveal_strlit("ne-np");
    reveal_strlit("en-np");
    reveal_strlit("hi-in");
    reveal_strlit("en-in");
    reveal_strlit("mr-in");
    let l = fold_lower_seq(locale);
    let south = south_asian_locales();
    let europe = european_locales();
    let swiss = swiss_locales();
    if l.len() == 5 && (l[3] != 'n' || l[4] != 'p') && (l[3] != 'i' || l[4] != 'n') {
        assert forall|i: int| 0 <= i < south.len() implies #[trigger] south[i] != l by {
            if i == 0 {
                assert(south[i][3] == 'n' && south[i][4] == 'p');
            } else if i == 1 {
                assert(south[i][3] == 'n' && south[i][4] == 'p');
            } else if i == 2 {
                assert(south[i][3] == 'i' && south[i][4] == 'n');
            } else if i == 3 {
                assert(south[i][3] == 'i' && south[i][4] == 'n');
            } else {
                assert(south[i][3] == 'i' && south[i][4] == 'n');
            }
        }
    }
    if l == "de-de"@ || l == "fr-fr"@ || l == "es-es"@ || l == "it-it"@ || l == "pt-br"@ {
        assert(!locale_is(locale, south));
        if l == "de-de"@ {
            assert(europe[0] == l);
        } else if l == "fr-fr"@ {
            assert(europe[1] == l);
        } else if l == "es-es"@ {
            assert(europe[2] == l);
        } else if l == "it-it"@ {
            assert(europe[3] == l);
        } else {
            assert(europe[4] == l);
        }
    }
    if l == "fr-ch"@ || l == "de-ch"@ {
        assert(!locale_is(locale, south));
        assert forall|i: int| 0 <= i < europe.len() implies #[trigger] europe[i] != l by {
            assert(l[3] == 'c');
            if i == 0 {
                assert(europe[i][3] == 'd');
            } else if i == 1 {
                assert(europe[i][3] == 'f');
            } else if i == 2 {
                assert(europe[i][3] == 'e');
            } else if i == 3 {
                assert(europe[i][3] == 'i');
            } else {
                assert(europe[i][3] == 'b');
            }
        }
        assert(!locale_is(locale, europe));
        if l == "fr-ch"@ {
            assert(swiss[0] == l);
        } else {
            assert(swiss[1] == l);
        }
    }
}

fn locale_in(locale: &str, names: &[&str]) -> (r: bool)
    ensures
        r == exists|i: int| 0 <= i < names@.len() && fold_lower_seq(locale@) == #[trigger] names@[i]@,
{
    for i in 0..names.len()
        invariant
            forall|j: int| 0 <= j < i ==> fold_lower_seq(locale@) != #[trigger] names@[j]@,
    {
        if crate::text::folded_eq(locale, names[i]) {
            return true;
        }
    }
    false
}

pub fn get_locale_config(locale: &str) -> (r: LocaleConfig)
    ensures
        (r.thousands_sep, r.decimal_sep, r.devanagari_grouping) == locale_spec(locale@),
{
    let south = ["ne-np", "en-np", "hi-in", "en-in", "mr-in"];
    let europe = ["de-de", "fr-fr", "es-es", "it-it", "pt-br"];
    let swiss = ["fr-ch", "de-ch"];
    proof {
        assert(south@.map_values(|s: &str| s@) =~= south_asian_locales());
        assert(europe@.map_values(|s: &str| s@) =~= european_locales());
        assert(swiss@.map_values(|s: &str| s@) =~= swiss_locales());
    }
    let in_south = locale_in(locale, &south);
    let in_europe = locale_in(locale, &europe);
    let in_swiss = locale_in(locale, &swiss);
    proof {
        assert(in_south == locale_is(locale@, south_asian_locales())) by {
            if in_south {
                let i = choose|i: int| 0 <= i < south@.len() && fold_lower_seq(locale@) == #[trigger] south@[i]@;
                assert(south_asian_locales()[i] == south@[i]@);
            }
            if locale_is(locale@, south_asian_locales()) {
                let i = choose|i: int| 0 <= i < south_asian_locales().len() && fold_lower_seq(locale@) == #[trigger] south_asian_locales()[i];
                assert(south_asian_locales()[i] == south@[i]@);
            }
        }
        assert(in_europe == locale_is(locale@, european_locales())) by {
            if in_europe {
                let i = choose|i: int| 0 <= i < europe@.len() && fold_lower_seq(locale@) == #[trigger] europe@[i]@;
                assert(european_locales()[i] == europe@[i]@);
            }
            if locale_is(locale@, european_locales()) {
                let i = choose|i: int| 0 <= i < european_locales().len() && fold_lower_seq(locale@) == #[trigger] european_locales()[i];
                assert(european_locales()[i] == europe@[i]@);
            }
        }
        assert(in_swiss == locale_is(locale@, swiss_locales())) by {
            if in_swiss {
                let i = choose|i: int| 0 <= i < swiss@.len() && fold_lower_seq(locale@) == #[trigger] swiss@[i]@;
                assert(swiss_locales()[i] == swiss@[i]@);
            }
            if locale_is(locale@, swiss_locales()) {
                let i = choose|i: int| 0 <= i < swiss_locales().len() && fold_lower_seq(locale@) == #[trigger] swiss_locales()[i];
                assert(swiss_locales()[i] == swiss@[i]@);
            }
        }
    }
    if in_south {
        LocaleConfig { thousands_sep: ',', decimal_sep: '.', devanagari_grouping: true }
    } else if in_europe {
        LocaleConfig { thousands_sep: '.', decimal_sep: ',', devanagari_grouping: false }
    } else if in_swiss {
        LocaleConfig { thousands_sep: '\'', decimal_sep: '.', devanagari_grouping: false }
    } else {
        LocaleConfig { thousands_sep: ',', decimal_sep: '.', devanagari_grouping: false }
    }
}

} // verus!

verus! {

/// Digits grouped in threes from the right: `1234567` gives `1,234,567`.
pub open spec fn group3(s: Seq<char>, sep: char) -> Seq<char>
    decreases s.len(),
{
    if s.len() <= 3 {
        s
    } else {
        group3(s.take(s.len() - 3), sep) + seq![sep] + s.skip(s.len() - 3)
    }
}

/// Digits grouped in pairs from the right.
pub open spec fn group2(s: Seq<char>, sep: char) -> Seq<char>
    decreases s.len(),
{
    if s.len() <= 2 {
        s
    } else {
        group2(s.take(s.len() - 2), sep) + seq![sep] + s.skip(s.len() - 2)
    }
}

/// Lakh/crore grouping: the last three digits, then pairs:
/// `1234567` gives `12,34,567`.
pub open spec fn group_lakh(s: Seq<char>, sep: char) -> Seq<char> {
    if s.len() <= 3 {
        s
    } else {
        group2(s.take(s.len() - 3), sep) + seq![sep] + s.skip(s.len() - 3)
    }
}

/// The digits after the decimal point of a fixed-point text, when there
/// is a point and decimals were asked for.
pub open spec fn decimal_digits(fixed: Seq<char>, decimals: nat) -> Seq<char> {
    if crate::text::find(fixed, seq!['.']) is Some && decimals > 0 {
        int_part(frac_part(fixed))
    } else {
        Seq::empty()
    }
}

/// A number's text in a locale: `fixed` is the number's magnitude already
/// rounded and printed with `decimals` digits after a `.`; its integer
/// part is grouped with the locale's separator, its decimal point replaced
/// by the locale's, and `-` put in front when the number was negative.
pub open spec fn locale_number_text(
    fixed: Seq<char>,
    is_negative: bool,
    decimals: nat,
    locale: Seq<char>,
) -> Seq<char> {
    let (ts, ds, lakh) = locale_spec(locale);
    let ip = int_part(fixed);
    let grouped = if lakh {
        group_lakh(ip, ts)
    } else {
        group3(ip, ts)
    };
    let dp = decimal_digits(fixed, decimals);
    let body = if dp.len() == 0 || decimals == 0 {
        grouped
    } else {
        grouped + seq![ds] + dp
    };
    if is_negative {
        seq!['-'] + body
    } else {
        body
    }
}

fn push_group(out: &mut String, s: &[char], n: usize, size: usize, sep: char)
    requires
        n <= s@.len(),
        size == 2 || size == 3,
    ensures
        size == 3 ==> final(out)@ == old(out)@ + group3(s@.take(n as int), sep),
        size == 2 ==> final(out)@ == old(out)@ + group2(s@.take(n as int), sep),
    decreases n,
{
    let ghost t = s@.take(n as int);
    if n <= size {
        crate::text::push_range(out, s, 0, n);
        assert(s@.subrange(0, n as int) =~= t);
    } else {
        push_group(out, s, n - size, size, sep);
        let ghost mid = out@;
        push_char(out, sep);
        crate::text::push_range(out, s, n - size, n);
        assert(t.take(t.len() - size) =~= s@.take(n - size));
        assert(t.skip(t.len() - size) =~= s@.subrange(n - size, n as int));
        assert(out@ =~= mid + seq![sep] + t.skip(t.len() - size));
    }
}

fn push_grouped(out: &mut String, cs: &[char], int_end: usize, sep: char, lakh: bool)
    requires
        int_end <= cs@.len(),
    ensures
        final(out)@ == old(out)@ + if lakh {
            group_lakh(cs@.take(int_end as int), sep)
        } else {
            group3(cs@.take(int_end as int), sep)
        },
{
    let ghost start = out@;
    let ghost ip = cs@.take(int_end as int);
    if lakh && int_end > 3 {
        push_group(out, cs, int_end - 3, 2, sep);
        let ghost mid = out@;
        push_char(out, sep);
        crate::text::push_range(out, cs, int_end - 3, int_end);
        assert(ip.take(ip.len() - 3) =~= cs@.take(int_end - 3));
        assert(ip.skip(ip.len() - 3) =~= cs@.subrange(int_end - 3, int_end as int));
        assert(out@ =~= mid + seq![sep] + cs@.subrange(int_end - 3, int_end as int));
        assert(out@ =~= start + group_lakh(ip, sep));
    } else {
        push_group(out, cs, int_end, 3, sep);
    }
}

fn push_decimals(out: &mut String, cs: &[char], decimals: usize, ds: char)
    ensures
        final(out)@ == old(out)@ + if decimal_digits(cs@, decimals as nat).len() == 0 || decimals
            == 0 {
            Seq::<char>::empty()
        } else {
            seq![ds] + decimal_digits(cs@, decimals as nat)
        },
{
    let ghost start = out@;
    let dot = index_of_dot(cs);
    match dot {
        Some(k) => {
            if decimals > 0 {
                let n = cs.len();
                assert(k < n);
                let rest = crate::text::chars_from(cs, k + 1);
                let dot2 = index_of_dot(rest.as_slice());
                let end = match dot2 {
                    Some(j) => j,
                    None => rest.len(),
                };
                assert(frac_part(cs@) =~= rest@);
                assert(int_part(rest@) =~= rest@.take(end as int));
                if end > 0 {
                    push_char(out, ds);
                    crate::text::push_range(out, rest.as_slice(), 0, end);
                    assert(rest@.subrange(0, end as int) =~= rest@.take(end as int));
                    assert(out@ =~= start + (seq![ds] + decimal_digits(cs@, decimals as nat)));
                } else {
                    assert(out@ =~= start + Seq::<char>::empty());
                }
            } else {
                assert(out@ =~= start + Seq::<char>::empty());
            }
        },
        None => {
            assert(out@ =~= start + Seq::<char>::empty());
        },
    }
}

/// The locale text of a number; see [`locale_number_text`].
pub fn format_number_text(fixed: &str, is_negative: bool, decimals: usize, locale: &str) -> (r:
    String)
    requires
        locale_spec(locale@).2 ==> forall|i: int| 0 <= i < fixed@.len() ==> (fixed@[i] as u32) < 128,
    ensures
        r@ == locale_number_text(fixed@, is_negative, decimals as nat, locale@),
{
    let config = get_locale_config(locale);
    let cs = chars_of(fixed);
    let dot = index_of_dot(cs.as_slice());
    let int_end = match dot {
        Some(k) => k,
        None => cs.len(),
    };
    assert(int_part(fixed@) =~= cs@.take(int_end as int));
    let mut out = String::new();
    if is_negative {
        push_char(&mut out, '-');
    }
    let ghost start = out@;
    push_grouped(&mut out, cs.as_slice(), int_end, config.thousands_sep, config.devanagari_grouping);
    push_decimals(&mut out, cs.as_slice(), decimals, config.decimal_sep);
    proof {
        let dp = decimal_digits(fixed@, decimals as nat);
        if dp.len() == 0 || decimals == 0 {
            assert(out@ =~= start + if config.devanagari_grouping {
                group_lakh(int_part(fixed@), config.thousands_sep)
            } else {
                group3(int_part(fixed@), config.thousands_sep)
            });
        }
        assert(out@ =~= locale_number_text(fixed@, is_negative, decimals as nat, locale@));
    }
    out
}

} // verus!

verus! {

/// `s` with every `c` removed.
pub open spec fn without_char(s: Seq<char>, c: char) -> Seq<char> {
    s.filter(not_char(c))
}

pub open spec fn not_char(c: char) -> spec_fn(char) -> bool {
    |x: char| x != c
}

proof fn lemma_without_sep(a: Seq<char>, b: Seq<char>, sep: char)
    ensures
        without_char(a + seq![sep] + b, sep) == without_char(a, sep) + without_char(b, sep),
{
    let f = not_char(sep);
    Seq::filter_distributes_over_add(a + seq![sep], b, f);
    Seq::filter_distributes_over_add(a, seq![sep], f);
    assert(seq![sep].filter(f) =~= Seq::<char>::empty()) by {
        reveal_with_fuel(Seq::filter, 2);
        assert(seq![sep].drop_last() =~= Seq::<char>::empty());
    }
    assert(without_char(a, sep) + Seq::<char>::empty() =~= without_char(a, sep));
}

proof fn lemma_split_last(s: Seq<char>, n: int)
    requires
        0 <= n <= s.len(),
    ensures
        s.take(s.len() - n) + s.skip(s.len() - n) == s,
{
    assert(s.take(s.len() - n) + s.skip(s.len() - n) =~= s);
}

/// Grouping in threes only inserts separators: taking them out again gives
/// back what was grouped.
pub proof fn law_group3_keeps_digits(s: Seq<char>, sep: char)
    ensures
        without_char(group3(s, sep), sep) == without_char(s, sep),
    decreases s.len(),
{
    if s.len() > 3 {
        law_group3_keeps_digits(s.take(s.len() - 3), sep);
        lemma_without_sep(group3(s.take(s.len() - 3), sep), s.skip(s.len() - 3), sep);
        lemma_split_last(s, 3);
        Seq::filter_distributes_over_add(s.take(s.len() - 3), s.skip(s.len() - 3), not_char(sep));
    }
}

proof fn lemma_group2_keeps_digits(s: Seq<char>, sep: char)
    ensures
        without_char(group2(s, sep), sep) == without_char(s, sep),
    decreases s.len(),
{
    if s.len() > 2 {
        lemma_group2_keeps_digits(s.take(s.len() - 2), sep);
        lemma_without_sep(group2(s.take(s.len() - 2), sep), s.skip(s.len() - 2), sep);
        lemma_split_last(s, 2);
        Seq::filter_distributes_over_add(s.take(s.len() - 2), s.skip(s.len() - 2), not_char(sep));
    }
}

/// Lakh/crore grouping likewise only inserts separators.
pub proof fn law_group_lakh_keeps_digits(s: Seq<char>, sep: char)
    ensures
        without_char(group_lakh(s, sep), sep) == without_char(s, sep),
{
    if s.len() > 3 {
        lemma_group2_keeps_digits(s.take(s.len() - 3), sep);
        lemma_without_sep(group2(s.take(s.len() - 3), sep), s.skip(s.len() - 3), sep);
        lemma_split_last(s, 3);
        Seq::filter_distributes_over_add(s.take(s.len() - 3), s.skip(s.len() - 3), not_char(sep));
    }
}

/// No group is longer than three characters: between two separators, and
/// before the first and after the last, there are at most three.
pub proof fn law_group3_group_sizes(s: Seq<char>, sep: char)
    requires
        forall|i: int| 0 <= i < s.len() ==> s[i] != sep,
    ensures
        s.len() <= 3 ==> group3(s, sep) == s,
        s.len() > 3 ==> group3(s, sep).skip(group3(s, sep).len() - 4) == seq![sep] + s.skip(
            s.len() - 3,
        ),
{
    if s.len() > 3 {
        let g = group3(s, sep);
        let pre = group3(s.take(s.len() - 3), sep);
        assert(g.skip(g.len() - 4) =~= seq![sep] + s.skip(s.len() - 3));
        assert(pre.len() + 4 == g.len());
    }
}

} // verus!
