//! Constant expressions of const, enum and array-size declarations:
//! values, operators and a precedence-climbing parser over tokens.

use vstd::prelude::*;
use crate::text::{append_signed_decimal, bool_text, signed_decimal, str_eq};
use vstd::arithmetic::div_mod::{
    lemma_fundamental_div_mod, lemma_fundamental_div_mod_converse, lemma_mod_bound, lemma_mod_multiples_basic,
    lemma_small_mod,
};
use vstd::arithmetic::power2::pow2;
use vstd::bits::{lemma_u64_pow2_no_overflow, lemma_u64_shl_is_mul, lemma_u64_shr_is_div};

verus! {

/// A binary operator of constant expressions.
#[derive(Debug, Clone, Copy, PartialEq, Eq)]
pub enum Op {
    Add,
    Sub,
    Mul,
    Div,
    Mod,
    Shl,
    Shr,
    BitAnd,
    BitOr,
    BitXor,
    LAnd,
    LOr,
}

/// The value of a constant expression.
#[derive(Debug, PartialEq)]
pub enum ConstValue {
    Int(i64),
    Bool(bool),
    Str(String),
}

/// The class of a parse error.
#[derive(Debug, Clone, Copy, PartialEq, Eq)]
pub enum ErrorKind {
    InvalidSyntax,
}

/// An error at a token position.
#[derive(Debug)]
pub struct ParseError {
    pub kind: ErrorKind,
    /// Index of the token where the error was found.
    pub pos: usize,
    pub message: String,
}

impl ParseError {
    pub fn new(kind: ErrorKind, pos: usize, message: &str) -> (r: ParseError)
        ensures
            r.kind == kind,
            r.pos == pos,
            r.message@ == message@,
    {
        ParseError { kind, pos, message: message.to_owned() }
    }
}

/// Whether a value counts as true: a true boolean, a non-zero integer, a
/// non-empty string.
pub open spec fn truthy_spec(v: ConstValue) -> bool {
    match v {
        ConstValue::Bool(b) => b,
        ConstValue::Int(i) => i != 0,
        ConstValue::Str(s) => s@.len() != 0,
    }
}

/// Two's-complement negation (the negation of `i64::MIN` is itself).
pub open spec fn wrapping_neg_spec(i: i64) -> i64 {
    if i == i64::MIN { i64::MIN } else { (-i) as i64 }
}

/// Division truncated toward zero, on mathematical integers.
pub open spec fn trunc_div(a: int, b: int) -> int {
    if a >= 0 && b > 0 {
        a / b
    } else if a < 0 && b > 0 {
        -((-a) / b)
    } else if a >= 0 && b < 0 {
        -(a / (-b))
    } else {
        (-a) / (-b)
    }
}

/// Two's-complement division truncated toward zero (`i64::MIN / -1` wraps
/// to `i64::MIN`).
pub open spec fn wrapping_div_spec(a: i64, b: i64) -> i64 {
    if trunc_div(a as int, b as int) > i64::MAX { i64::MIN } else { trunc_div(a as int, b as int) as i64 }
}

/// The remainder of truncated division: the sign of the dividend.
pub open spec fn wrapping_rem_spec(a: i64, b: i64) -> i64 {
    let m = if b < 0 { -(b as int) } else { b as int };
    if a >= 0 { ((a as int) % m) as i64 } else { (-((-(a as int)) % m)) as i64 }
}

/// The result of a binary operator: a value, or the error message.
pub open spec fn binary_result(op: Op, lhs: ConstValue, rhs: ConstValue) -> Result<ConstValue, Seq<char>> {
    match op {
        Op::Add => match (lhs, rhs) {
            (ConstValue::Int(a), ConstValue::Int(b)) => Ok(ConstValue::Int(a.wrapping_add(b))),
            _ => Err("+ expects numbers"@),
        },
        Op::Sub => match (lhs, rhs) {
            (ConstValue::Int(a), ConstValue::Int(b)) => Ok(ConstValue::Int(a.wrapping_sub(b))),
            _ => Err("- expects numbers"@),
        },
        Op::Mul => match (lhs, rhs) {
            (ConstValue::Int(a), ConstValue::Int(b)) => Ok(ConstValue::Int(a.wrapping_mul(b))),
            _ => Err("* expects numbers"@),
        },
        Op::Div => match (lhs, rhs) {
            (ConstValue::Int(a), ConstValue::Int(b)) => if b == 0 {
                Err("Division by zero"@)
            } else {
                Ok(ConstValue::Int(wrapping_div_spec(a, b)))
            },
            _ => Err("/ expects numbers"@),
        },
        Op::Mod => match (lhs, rhs) {
            (ConstValue::Int(a), ConstValue::Int(b)) => if b == 0 {
                Err("Modulo by zero"@)
            } else {
                Ok(ConstValue::Int(wrapping_rem_spec(a, b)))
            },
            _ => Err("% expects integers"@),
        },
        Op::Shl => match (lhs, rhs) {
            (ConstValue::Int(a), ConstValue::Int(b)) => if 0 <= b < 64 {
                Ok(ConstValue::Int(a.wrapping_shl(b as u32)))
            } else {
                Err("Shift amount out of range (0..63)"@)
            },
            _ => Err("<< expects integers"@),
        },
        Op::Shr => match (lhs, rhs) {
            (ConstValue::Int(a), ConstValue::Int(b)) => if 0 <= b < 64 {
                Ok(ConstValue::Int(a.wrapping_shr(b as u32)))
            } else {
                Err("Shift amount out of range (0..63)"@)
            },
            _ => Err(">> expects integers"@),
        },
        Op::BitAnd => match (lhs, rhs) {
            (ConstValue::Int(a), ConstValue::Int(b)) => Ok(ConstValue::Int(a & b)),
            _ => Err("& expects integers"@),
        },
        Op::BitOr => match (lhs, rhs) {
            (ConstValue::Int(a), ConstValue::Int(b)) => Ok(ConstValue::Int(a | b)),
            _ => Err("| expects integers"@),
        },
        Op::BitXor => match (lhs, rhs) {
            (ConstValue::Int(a), ConstValue::Int(b)) => Ok(ConstValue::Int(a ^ b)),
            _ => Err("^ expects integers"@),
        },
        Op::LAnd => Ok(ConstValue::Bool(truthy_spec(lhs) && truthy_spec(rhs))),
        Op::LOr => Ok(ConstValue::Bool(truthy_spec(lhs) || truthy_spec(rhs))),
    }
}

/// The text of a value: the decimal integer, `true`/`false`, or the string.
pub open spec fn value_text(v: ConstValue) -> Seq<char> {
    match v {
        ConstValue::Int(i) => signed_decimal(i as int),
        ConstValue::Bool(b) => bool_text(b),
        ConstValue::Str(s) => s@,
    }
}

/// Two's-complement negation.
pub fn wrapping_neg(i: i64) -> (r: i64)
    ensures
        r == wrapping_neg_spec(i),
{
    if i == i64::MIN { i64::MIN } else { -i }
}

/// The magnitude of an integer.
fn magnitude(a: i64) -> (r: u64)
    ensures
        r as int == if a < 0 { -(a as int) } else { a as int },
{
    if a < 0 { (-(a as i128)) as u64 } else { a as u64 }
}

/// Two's-complement division truncated toward zero.
pub fn wrapping_div(a: i64, b: i64) -> (r: i64)
    requires
        b != 0,
    ensures
        r == wrapping_div_spec(a, b),
{
    let q: u64 = magnitude(a) / magnitude(b);
    let negative = (a < 0) != (b < 0);
    proof {
        let ma = if a < 0 { -(a as int) } else { a as int };
        let mb = if b < 0 { -(b as int) } else { b as int };
        assert(q as int == ma / mb);
        assert(ma / mb <= ma) by (nonlinear_arith)
            requires ma >= 0, mb >= 1;
    }
    let t: i128 = if negative { -(q as i128) } else { q as i128 };
    if t > 0x7fff_ffff_ffff_ffffi128 { i64::MIN } else { t as i64 }
}

/// The remainder of truncated division.
pub fn wrapping_rem(a: i64, b: i64) -> (r: i64)
    requires
        b != 0,
    ensures
        r == wrapping_rem_spec(a, b),
{
    let m: u64 = magnitude(a) % magnitude(b);
    proof {
        let mb = if b < 0 { -(b as int) } else { b as int };
        assert(m as int == (if a < 0 { -(a as int) } else { a as int }) % mb);
        assert(m < mb);
        assert(mb <= 0x8000_0000_0000_0000);
    }
    if a >= 0 { m as i64 } else { -(m as i128) as i64 }
}

impl ConstValue {
    /// A copy of this value.
    pub fn duplicate(&self) -> (r: ConstValue)
        ensures
            r == *self,
    {
        match self {
            ConstValue::Int(i) => ConstValue::Int(*i),
            ConstValue::Bool(b) => ConstValue::Bool(*b),
            ConstValue::Str(s) => ConstValue::Str(s.clone()),
        }
    }

    /// The text of the value.
    pub fn fmt(&self) -> (r: String)
        ensures
            r@ == value_text(*self),
    {
        match self {
            ConstValue::Int(i) => {
                let mut out = String::new();
                append_signed_decimal(&mut out, *i);
                assert(out@ =~= value_text(*self));
                out
            },
            ConstValue::Bool(b) => {
                let mut out = String::new();
                crate::text::append_bool(&mut out, *b);
                assert(out@ =~= value_text(*self));
                out
            },
            ConstValue::Str(s) => s.clone(),
        }
    }

    /// Whether the value counts as true.
    pub fn truthy(&self) -> (r: bool)
        ensures
            r == truthy_spec(*self),
    {
        match self {
            ConstValue::Bool(b) => *b,
            ConstValue::Int(i) => *i != 0,
            ConstValue::Str(s) => s.as_str().unicode_len() != 0,
        }
    }

    /// The integer a value stands for: an integer, or a boolean as 0 or 1.
    pub fn as_int(&self, pos: usize) -> (r: Result<i64, ParseError>)
        ensures
            match *self {
                ConstValue::Int(i) => r == Ok::<i64, ParseError>(i),
                ConstValue::Bool(b) => r == Ok::<i64, ParseError>(if b { 1 } else { 0 }),
                ConstValue::Str(_) => r matches Err(e) && e.kind == ErrorKind::InvalidSyntax && e.pos == pos
                    && e.message@ == "Expected integer"@,
            },
    {
        match self {
            ConstValue::Int(i) => Ok(*i),
            ConstValue::Bool(b) => Ok(if *b { 1 } else { 0 }),
            _ => Err(ParseError::new(ErrorKind::InvalidSyntax, pos, "Expected integer")),
        }
    }

    /// Unary minus: two's-complement negation of an integer.
    pub fn unary_neg(self, pos: usize) -> (r: Result<ConstValue, ParseError>)
        ensures
            match self {
                ConstValue::Int(i) => r == Ok::<ConstValue, ParseError>(ConstValue::Int(wrapping_neg_spec(i))),
                _ => r matches Err(e) && e.kind == ErrorKind::InvalidSyntax && e.pos == pos
                    && e.message@ == "Invalid unary -"@,
            },
    {
        match self {
            ConstValue::Int(i) => Ok(ConstValue::Int(wrapping_neg(i))),
            _ => Err(ParseError::new(ErrorKind::InvalidSyntax, pos, "Invalid unary -")),
        }
    }

    /// Logical not: the negation of the value's truth.
    pub fn unary_not(self) -> (r: ConstValue)
        ensures
            r == ConstValue::Bool(!truthy_spec(self)),
    {
        ConstValue::Bool(!self.truthy())
    }

    /// Applies a binary operator: integer arithmetic wraps; division and
    /// remainder by zero, shifts outside 0..64 and non-integer operands are
    /// errors at `pos`; `&&` and `||` combine truth values.
    pub fn apply_binary(self, op: &Op, rhs: ConstValue, pos: usize) -> (r: Result<ConstValue, ParseError>)
        ensures
            match binary_result(*op, self, rhs) {
                Ok(v) => r == Ok::<ConstValue, ParseError>(v),
                Err(m) => r matches Err(e) && e.kind == ErrorKind::InvalidSyntax && e.pos == pos && e.message@ == m,
            },
    {
        match op {
            Op::Add => match (self, rhs) {
                (ConstValue::Int(a), ConstValue::Int(b)) => Ok(ConstValue::Int(a.wrapping_add(b))),
                _ => Err(ParseError::new(ErrorKind::InvalidSyntax, pos, "+ expects numbers")),
            },
            Op::Sub => match (self, rhs) {
                (ConstValue::Int(a), ConstValue::Int(b)) => Ok(ConstValue::Int(a.wrapping_sub(b))),
                _ => Err(ParseError::new(ErrorKind::InvalidSyntax, pos, "- expects numbers")),
            },
            Op::Mul => match (self, rhs) {
                (ConstValue::Int(a), ConstValue::Int(b)) => Ok(ConstValue::Int(a.wrapping_mul(b))),
                _ => Err(ParseError::new(ErrorKind::InvalidSyntax, pos, "* expects numbers")),
            },
            Op::Div => match (self, rhs) {
                (ConstValue::Int(a), ConstValue::Int(b)) => {
                    if b == 0 {
                        Err(ParseError::new(ErrorKind::InvalidSyntax, pos, "Division by zero"))
                    } else {
                        Ok(ConstValue::Int(wrapping_div(a, b)))
                    }
                },
                _ => Err(ParseError::new(ErrorKind::InvalidSyntax, pos, "/ expects numbers")),
            },
            Op::Mod => match (self, rhs) {
                (ConstValue::Int(a), ConstValue::Int(b)) => {
                    if b == 0 {
                        Err(ParseError::new(ErrorKind::InvalidSyntax, pos, "Modulo by zero"))
                    } else {
                        Ok(ConstValue::Int(wrapping_rem(a, b)))
                    }
                },
                _ => Err(ParseError::new(ErrorKind::InvalidSyntax, pos, "% expects integers")),
            },
            Op::Shl => match (self, rhs) {
                (ConstValue::Int(a), ConstValue::Int(b)) => {
                    if 0 <= b && b < 64 {
                        Ok(ConstValue::Int(a.wrapping_shl(b as u32)))
                    } else {
                        Err(ParseError::new(ErrorKind::InvalidSyntax, pos, "Shift amount out of range (0..63)"))
                    }
                },
                _ => Err(ParseError::new(ErrorKind::InvalidSyntax, pos, "<< expects integers")),
            },
            Op::Shr => match (self, rhs) {
                (ConstValue::Int(a), ConstValue::Int(b)) => {
                    if 0 <= b && b < 64 {
                        Ok(ConstValue::Int(a.wrapping_shr(b as u32)))
                    } else {
                        Err(ParseError::new(ErrorKind::InvalidSyntax, pos, "Shift amount out of range (0..63)"))
                    }
                },
                _ => Err(ParseError::new(ErrorKind::InvalidSyntax, pos, ">> expects integers")),
            },
            Op::BitAnd => match (self, rhs) {
                (ConstValue::Int(a), ConstValue::Int(b)) => Ok(ConstValue::Int(a & b)),
                _ => Err(ParseError::new(ErrorKind::InvalidSyntax, pos, "& expects integers")),
            },
            Op::BitOr => match (self, rhs) {
                (ConstValue::Int(a), ConstValue::Int(b)) => Ok(ConstValue::Int(a | b)),
                _ => Err(ParseError::new(ErrorKind::InvalidSyntax, pos, "| expects integers")),
            },
            Op::BitXor => match (self, rhs) {
                (ConstValue::Int(a), ConstValue::Int(b)) => Ok(ConstValue::Int(a ^ b)),
                _ => Err(ParseError::new(ErrorKind::InvalidSyntax, pos, "^ expects integers")),
            },
            Op::LAnd => {
                let l = self.truthy();
                let r = rhs.truthy();
                Ok(ConstValue::Bool(l && r))
            },
            Op::LOr => {
                let l = self.truthy();
                let r = rhs.truthy();
                Ok(ConstValue::Bool(l || r))
            },
        }
    }
}

/// A token of a constant expression.
#[derive(Debug)]
pub enum TokenKind {
    DoublePipe,
    DoubleAmpersand,
    Pipe,
    Caret,
    Ampersand,
    ShiftLeft,
    ShiftRight,
    Plus,
    Minus,
    Star,
    Slash,
    Percent,
    Bang,
    LeftParen,
    RightParen,
    DoubleColon,
    Comma,
    Semicolon,
    IntegerLiteral(i64),
    StringLiteral(String),
    BoolLiteral(bool),
    Identifier(String),
    /// Past the last token.
    Eof,
}

/// A parser for constant expressions over a token list, with the constants
/// declared so far.
pub struct Parser {
    pub tokens: Vec<TokenKind>,
    /// Index of the current token.
    pub pos: usize,
    /// The constants in scope, by (possibly `::`-scoped) name; a later entry
    /// hides an earlier one with the same name.
    pub const_env: Vec<(String, ConstValue)>,
}

/// The token at `p`, or `Eof` past the end.
pub open spec fn tok(toks: Seq<TokenKind>, p: int) -> TokenKind {
    if 0 <= p < toks.len() { toks[p] } else { TokenKind::Eof }
}

/// The binary operator a token stands for, with its precedence: `||` 1,
/// `&&` 2, `|` 3, `^` 4, `&` 5, shifts 6, `+ -` 7, `* / %` 8. All
/// operators associate to the left.
pub open spec fn binop(t: TokenKind) -> Option<(Op, nat)> {
    match t {
        TokenKind::DoublePipe => Some((Op::LOr, 1)),
        TokenKind::DoubleAmpersand => Some((Op::LAnd, 2)),
        TokenKind::Pipe => Some((Op::BitOr, 3)),
        TokenKind::Caret => Some((Op::BitXor, 4)),
        TokenKind::Ampersand => Some((Op::BitAnd, 5)),
        TokenKind::ShiftLeft => Some((Op::Shl, 6)),
        TokenKind::ShiftRight => Some((Op::Shr, 6)),
        TokenKind::Plus => Some((Op::Add, 7)),
        TokenKind::Minus => Some((Op::Sub, 7)),
        TokenKind::Star => Some((Op::Mul, 8)),
        TokenKind::Slash => Some((Op::Div, 8)),
        TokenKind::Percent => Some((Op::Mod, 8)),
        _ => None,
    }
}

/// The value of the last constant called `name`.
pub open spec fn env_get(env: Seq<(String, ConstValue)>, name: Seq<char>) -> Option<ConstValue>
    decreases env.len(),
{
    if env.len() == 0 {
        None
    } else if env.last().0@ == name {
        Some(env.last().1)
    } else {
        env_get(env.drop_last(), name)
    }
}

/// What parsing gives: the value and the position after it, or the error's
/// position and message with the position the parser stopped at.
pub type ParseOutcome = Result<(ConstValue, int), (int, Seq<char>, int)>;

/// A (possibly `::`-scoped) identifier continuing at `p`, of which `id` has
/// been read: the full name and the position after it.
pub open spec fn scoped_ident(toks: Seq<TokenKind>, p: int, id: Seq<char>) -> Result<(Seq<char>, int), (int, Seq<char>)>
    decreases toks.len() - p,
{
    if 0 <= p < toks.len() && toks[p] is DoubleColon {
        match tok(toks, p + 1) {
            TokenKind::Identifier(n) => scoped_ident(toks, p + 2, id + "::"@ + n@),
            _ => Err((p + 1, "Expected identifier after '::'"@)),
        }
    } else {
        Ok((id, p))
    }
}

/// A unary expression at `p`: `-`, `+`, `!` applied to a unary expression,
/// a parenthesized expression, a literal, or a constant's name.
pub open spec fn parse_unary(toks: Seq<TokenKind>, env: Seq<(String, ConstValue)>, p: int) -> ParseOutcome
    decreases toks.len() - p, 0int,
{
    if p < 0 || p >= toks.len() {
        Err((p, "Expected expression"@, p))
    } else {
        match toks[p] {
            TokenKind::Minus => match parse_unary(toks, env, p + 1) {
                Err(e) => Err(e),
                Ok((v, q)) => match v {
                    ConstValue::Int(i) => Ok((ConstValue::Int(wrapping_neg_spec(i)), q)),
                    _ => Err((p + 1, "Invalid unary -"@, q)),
                },
            },
            TokenKind::Plus => parse_unary(toks, env, p + 1),
            TokenKind::Bang => match parse_unary(toks, env, p + 1) {
                Err(e) => Err(e),
                Ok((v, q)) => Ok((ConstValue::Bool(!truthy_spec(v)), q)),
            },
            TokenKind::LeftParen => match parse_expr(toks, env, p + 1, 0) {
                Err(e) => Err(e),
                Ok((v, q)) => if tok(toks, q) is RightParen {
                    Ok((v, q + 1))
                } else {
                    Err((q, "Expected ')' in expression"@, q))
                },
            },
            TokenKind::IntegerLiteral(n) => Ok((ConstValue::Int(n), p + 1)),
            TokenKind::StringLiteral(s) => Ok((ConstValue::Str(s), p + 1)),
            TokenKind::BoolLiteral(b) => Ok((ConstValue::Bool(b), p + 1)),
            TokenKind::Identifier(name) => match scoped_ident(toks, p + 1, name@) {
                Err((q, m)) => Err((q, m, q)),
                Ok((id, q)) => match env_get(env, id) {
                    Some(v) => Ok((v, q)),
                    None => Err((p, "Unknown identifier in const expression: "@ + id, q)),
                },
            },
            _ => Err((p, "Expected expression"@, p)),
        }
    }
}

/// An expression at `p` whose binary operators bind at least as tightly as
/// `min_prec`.
pub open spec fn parse_expr(toks: Seq<TokenKind>, env: Seq<(String, ConstValue)>, p: int, min_prec: nat) -> ParseOutcome
    decreases toks.len() - p, 2int,
{
    match parse_unary(toks, env, p) {
        Err(e) => Err(e),
        Ok((lhs, q)) => if p < q <= toks.len() {
            expr_tail(toks, env, lhs, q, min_prec)
        } else {
            Ok((lhs, q))
        },
    }
}

/// The rest of an expression after its left operand `lhs`, at `p`: while
/// the next operator binds at least as tightly as `min_prec`, its right
/// operand is an expression of operators binding tighter, and the two are
/// combined.
pub open spec fn expr_tail(toks: Seq<TokenKind>, env: Seq<(String, ConstValue)>, lhs: ConstValue, p: int, min_prec: nat) -> ParseOutcome
    decreases toks.len() - p, 1int,
{
    match binop(tok(toks, p)) {
        None => Ok((lhs, p)),
        Some((op, prec)) => if prec < min_prec || p < 0 || p >= toks.len() {
            Ok((lhs, p))
        } else {
            match parse_expr(toks, env, p + 1, prec + 1) {
                Err(e) => Err(e),
                Ok((rhs, q)) => match binary_result(op, lhs, rhs) {
                    Err(m) => Err((p, m, q)),
                    Ok(v) => if p < q <= toks.len() {
                        expr_tail(toks, env, v, q, min_prec)
                    } else {
                        Ok((v, q))
                    },
                },
            }
        },
    }
}

/// Whether a token has the variant of `kind` (payloads are not compared).
pub open spec fn same_variant(t: TokenKind, kind: TokenKind) -> bool {
    match (t, kind) {
        (TokenKind::DoublePipe, TokenKind::DoublePipe) => true,
        (TokenKind::DoubleAmpersand, TokenKind::DoubleAmpersand) => true,
        (TokenKind::Pipe, TokenKind::Pipe) => true,
        (TokenKind::Caret, TokenKind::Caret) => true,
        (TokenKind::Ampersand, TokenKind::Ampersand) => true,
        (TokenKind::ShiftLeft, TokenKind::ShiftLeft) => true,
        (TokenKind::ShiftRight, TokenKind::ShiftRight) => true,
        (TokenKind::Plus, TokenKind::Plus) => true,
        (TokenKind::Minus, TokenKind::Minus) => true,
        (TokenKind::Star, TokenKind::Star) => true,
        (TokenKind::Slash, TokenKind::Slash) => true,
        (TokenKind::Percent, TokenKind::Percent) => true,
        (TokenKind::Bang, TokenKind::Bang) => true,
        (TokenKind::LeftParen, TokenKind::LeftParen) => true,
        (TokenKind::RightParen, TokenKind::RightParen) => true,
        (TokenKind::DoubleColon, TokenKind::DoubleColon) => true,
        (TokenKind::Comma, TokenKind::Comma) => true,
        (TokenKind::Semicolon, TokenKind::Semicolon) => true,
        (TokenKind::IntegerLiteral(_), TokenKind::IntegerLiteral(_)) => true,
        (TokenKind::StringLiteral(_), TokenKind::StringLiteral(_)) => true,
        (TokenKind::BoolLiteral(_), TokenKind::BoolLiteral(_)) => true,
        (TokenKind::Identifier(_), TokenKind::Identifier(_)) => true,
        (TokenKind::Eof, TokenKind::Eof) => true,
        _ => false,
    }
}

impl TokenKind {
    /// A copy of this token.
    pub fn duplicate(&self) -> (r: TokenKind)
        ensures
            r == *self,
    {
        match self {
            TokenKind::DoublePipe => TokenKind::DoublePipe,
            TokenKind::DoubleAmpersand => TokenKind::DoubleAmpersand,
            TokenKind::Pipe => TokenKind::Pipe,
            TokenKind::Caret => TokenKind::Caret,
            TokenKind::Ampersand => TokenKind::Ampersand,
            TokenKind::ShiftLeft => TokenKind::ShiftLeft,
            TokenKind::ShiftRight => TokenKind::ShiftRight,
            TokenKind::Plus => TokenKind::Plus,
            TokenKind::Minus => TokenKind::Minus,
            TokenKind::Star => TokenKind::Star,
            TokenKind::Slash => TokenKind::Slash,
            TokenKind::Percent => TokenKind::Percent,
            TokenKind::Bang => TokenKind::Bang,
            TokenKind::LeftParen => TokenKind::LeftParen,
            TokenKind::RightParen => TokenKind::RightParen,
            TokenKind::DoubleColon => TokenKind::DoubleColon,
            TokenKind::Comma => TokenKind::Comma,
            TokenKind::Semicolon => TokenKind::Semicolon,
            TokenKind::IntegerLiteral(n) => TokenKind::IntegerLiteral(*n),
            TokenKind::StringLiteral(s) => TokenKind::StringLiteral(s.clone()),
            TokenKind::BoolLiteral(b) => TokenKind::BoolLiteral(*b),
            TokenKind::Identifier(s) => TokenKind::Identifier(s.clone()),
            TokenKind::Eof => TokenKind::Eof,
        }
    }

    /// Whether this token has the variant of `kind`.
    pub fn same_variant_as(&self, kind: &TokenKind) -> (r: bool)
        ensures
            r == same_variant(*self, *kind),
    {
        match (self, kind) {
            (TokenKind::DoublePipe, TokenKind::DoublePipe) => true,
            (TokenKind::DoubleAmpersand, TokenKind::DoubleAmpersand) => true,
            (TokenKind::Pipe, TokenKind::Pipe) => true,
            (TokenKind::Caret, TokenKind::Caret) => true,
            (TokenKind::Ampersand, TokenKind::Ampersand) => true,
            (TokenKind::ShiftLeft, TokenKind::ShiftLeft) => true,
            (TokenKind::ShiftRight, TokenKind::ShiftRight) => true,
            (TokenKind::Plus, TokenKind::Plus) => true,
            (TokenKind::Minus, TokenKind::Minus) => true,
            (TokenKind::Star, TokenKind::Star) => true,
            (TokenKind::Slash, TokenKind::Slash) => true,
            (TokenKind::Percent, TokenKind::Percent) => true,
            (TokenKind::Bang, TokenKind::Bang) => true,
            (TokenKind::LeftParen, TokenKind::LeftParen) => true,
            (TokenKind::RightParen, TokenKind::RightParen) => true,
            (TokenKind::DoubleColon, TokenKind::DoubleColon) => true,
            (TokenKind::Comma, TokenKind::Comma) => true,
            (TokenKind::Semicolon, TokenKind::Semicolon) => true,
            (TokenKind::IntegerLiteral(_), TokenKind::IntegerLiteral(_)) => true,
            (TokenKind::StringLiteral(_), TokenKind::StringLiteral(_)) => true,
            (TokenKind::BoolLiteral(_), TokenKind::BoolLiteral(_)) => true,
            (TokenKind::Identifier(_), TokenKind::Identifier(_)) => true,
            (TokenKind::Eof, TokenKind::Eof) => true,
            _ => false,
        }
    }
}

/// How a parse ended, against the outcome the spec gives.
pub open spec fn outcome_matches(o: ParseOutcome, r: Result<ConstValue, ParseError>, pos: usize) -> bool {
    match o {
        Ok((v, q)) => r == Ok::<ConstValue, ParseError>(v) && pos == q,
        Err((q, m, end)) => (r matches Err(e) && e.kind == ErrorKind::InvalidSyntax && e.pos == q && e.message@ == m)
            && pos == end,
    }
}

impl Parser {
    /// A parser at the first token, with no constants.
    pub fn new(tokens: Vec<TokenKind>) -> (r: Parser)
        ensures
            r.tokens == tokens,
            r.pos == 0,
            r.const_env@.len() == 0,
    {
        Parser { tokens, pos: 0, const_env: Vec::new() }
    }

    /// Declares a constant; it hides an earlier one with the same name.
    pub fn define(&mut self, name: &str, value: ConstValue)
        ensures
            final(self).tokens == old(self).tokens,
            final(self).pos == old(self).pos,
            final(self).const_env@.len() == old(self).const_env@.len() + 1,
            env_get(final(self).const_env@, name@) == Some(value),
            forall|n: Seq<char>| n != name@ ==> env_get(final(self).const_env@, n) == env_get(old(self).const_env@, n),
    {
        let ghost old_env = self.const_env@;
        self.const_env.push((name.to_owned(), value));
        assert(self.const_env@.drop_last() =~= old_env);
    }

    /// A copy of the current token (`Eof` past the end).
    pub fn peek(&self) -> (r: TokenKind)
        ensures
            r == tok(self.tokens@, self.pos as int),
    {
        if self.pos < self.tokens.len() {
            self.tokens[self.pos].duplicate()
        } else {
            TokenKind::Eof
        }
    }

    /// The position of the current token.
    pub fn current_position(&self) -> (r: usize)
        ensures
            r == self.pos,
    {
        self.pos
    }

    /// Moves past the current token (no move past the end).
    pub fn advance(&mut self)
        ensures
            final(self).tokens == old(self).tokens,
            final(self).const_env == old(self).const_env,
            final(self).pos == if old(self).pos < old(self).tokens@.len() { old(self).pos + 1 } else { old(self).pos as int },
    {
        if self.pos < self.tokens.len() {
            self.pos = self.pos + 1;
        }
    }

    /// Whether the current token has the variant of `kind`.
    pub fn check(&self, kind: &TokenKind) -> (r: bool)
        ensures
            r == same_variant(tok(self.tokens@, self.pos as int), *kind),
    {
        let t = self.peek();
        t.same_variant_as(kind)
    }

    /// Consumes a token of the variant of `kind`, or fails with `message` at
    /// the current position.
    pub fn expect(&mut self, kind: &TokenKind, message: &str) -> (r: Result<(), ParseError>)
        ensures
            final(self).tokens == old(self).tokens,
            final(self).const_env == old(self).const_env,
            same_variant(tok(old(self).tokens@, old(self).pos as int), *kind) ==> r is Ok
                && final(self).pos == if old(self).pos < old(self).tokens@.len() { old(self).pos + 1 } else { old(self).pos as int },
            !same_variant(tok(old(self).tokens@, old(self).pos as int), *kind) ==> (r matches Err(e)
                && e.kind == ErrorKind::InvalidSyntax && e.pos == old(self).pos && e.message@ == message@)
                && final(self).pos == old(self).pos,
    {
        if self.check(kind) {
            self.advance();
            Ok(())
        } else {
            Err(ParseError::new(ErrorKind::InvalidSyntax, self.current_position(), message))
        }
    }

    /// The value of the last constant called `name`.
    pub fn lookup(&self, name: &str) -> (r: Option<ConstValue>)
        ensures
            r == env_get(self.const_env@, name@),
    {
        let mut i: usize = self.const_env.len();
        assert(self.const_env@.take(i as int) =~= self.const_env@);
        while i > 0
            invariant
                i <= self.const_env@.len(),
                env_get(self.const_env@.take(i as int), name@) == env_get(self.const_env@, name@),
            decreases i,
        {
            let ghost pre = self.const_env@.take(i as int);
            assert(pre.drop_last() =~= self.const_env@.take(i - 1));
            assert(pre.last() == self.const_env@[i - 1]);
            if str_eq(self.const_env[i - 1].0.as_str(), name) {
                return Some(self.const_env[i - 1].1.duplicate());
            }
            i = i - 1;
        }
        None
    }

    /// Parses an expression whose operators bind at least as tightly as
    /// `min_prec` (precedence climbing; all operators associate left).
    pub fn parse_const_expression(&mut self, min_prec: u8) -> (r: Result<ConstValue, ParseError>)
        requires
            old(self).pos <= old(self).tokens@.len(),
        ensures
            final(self).tokens@ == old(self).tokens@,
            final(self).const_env@ == old(self).const_env@,
            final(self).pos <= final(self).tokens@.len(),
            r is Ok ==> final(self).pos > old(self).pos,
            outcome_matches(parse_expr(old(self).tokens@, old(self).const_env@, old(self).pos as int, min_prec as nat), r, final(self).pos),
        decreases old(self).tokens@.len() - old(self).pos, 2int,
    {
        let ghost toks = self.tokens@;
        let ghost env = self.const_env@;
        let ghost p0 = self.pos as int;
        let mut lhs = self.parse_const_unary()?;
        loop
            invariant
                toks == old(self).tokens@,
                env == old(self).const_env@,
                p0 == old(self).pos,
                self.tokens@ == toks,
                self.const_env@ == env,
                p0 < self.pos <= toks.len(),
                expr_tail(toks, env, lhs, self.pos as int, min_prec as nat) == parse_expr(toks, env, p0, min_prec as nat),
            ensures
                self.tokens@ == toks,
                self.const_env@ == env,
                p0 < self.pos <= toks.len(),
                expr_tail(toks, env, lhs, self.pos as int, min_prec as nat) == Ok::<(ConstValue, int), (int, Seq<char>, int)>((lhs, self.pos as int)),
                expr_tail(toks, env, lhs, self.pos as int, min_prec as nat) == parse_expr(toks, env, p0, min_prec as nat),
            decreases toks.len() - self.pos,
        {
            let t = self.peek();
            let (op, prec): (Op, u8) = match t {
                TokenKind::DoublePipe => (Op::LOr, 1),
                TokenKind::DoubleAmpersand => (Op::LAnd, 2),
                TokenKind::Pipe => (Op::BitOr, 3),
                TokenKind::Caret => (Op::BitXor, 4),
                TokenKind::Ampersand => (Op::BitAnd, 5),
                TokenKind::ShiftLeft => (Op::Shl, 6),
                TokenKind::ShiftRight => (Op::Shr, 6),
                TokenKind::Plus => (Op::Add, 7),
                TokenKind::Minus => (Op::Sub, 7),
                TokenKind::Star => (Op::Mul, 8),
                TokenKind::Slash => (Op::Div, 8),
                TokenKind::Percent => (Op::Mod, 8),
                _ => {
                    break;
                },
            };
            if prec < min_prec {
                break;
            }
            let op_pos = self.current_position();
            self.advance();
            let rhs = self.parse_const_expression(prec + 1)?;
            lhs = lhs.apply_binary(&op, rhs, op_pos)?;
        }
        Ok(lhs)
    }

    /// Parses a unary expression: `-`, `+` or `!` before a unary
    /// expression, a parenthesized expression, a literal, or a (possibly
    /// `::`-scoped) constant name.
    pub fn parse_const_unary(&mut self) -> (r: Result<ConstValue, ParseError>)
        requires
            old(self).pos <= old(self).tokens@.len(),
        ensures
            final(self).tokens@ == old(self).tokens@,
            final(self).const_env@ == old(self).const_env@,
            final(self).pos <= final(self).tokens@.len(),
            r is Ok ==> final(self).pos > old(self).pos,
            outcome_matches(parse_unary(old(self).tokens@, old(self).const_env@, old(self).pos as int), r, final(self).pos),
        decreases old(self).tokens@.len() - old(self).pos, 0int,
    {
        let t = self.peek();
        match t {
            TokenKind::Minus => {
                self.advance();
                let pos = self.current_position();
                let v = self.parse_const_unary()?;
                v.unary_neg(pos)
            },
            TokenKind::Plus => {
                self.advance();
                let v = self.parse_const_unary()?;
                Ok(v)
            },
            TokenKind::Bang => {
                self.advance();
                let v = self.parse_const_unary()?;
                Ok(v.unary_not())
            },
            TokenKind::LeftParen => {
                self.advance();
                let v = self.parse_const_expression(0)?;
                self.expect(&TokenKind::RightParen, "Expected ')' in expression")?;
                Ok(v)
            },
            TokenKind::IntegerLiteral(n) => {
                self.advance();
                Ok(ConstValue::Int(n))
            },
            TokenKind::StringLiteral(s) => {
                self.advance();
                Ok(ConstValue::Str(s))
            },
            TokenKind::BoolLiteral(b) => {
                self.advance();
                Ok(ConstValue::Bool(b))
            },
            TokenKind::Identifier(name) => {
                let ghost toks = self.tokens@;
                let ghost p = self.pos as int;
                let mut id = name;
                let pos = self.current_position();
                self.advance();
                while self.check(&TokenKind::DoubleColon)
                    invariant
                        toks == old(self).tokens@,
                        p == old(self).pos,
                        old(self).tokens@[p] == TokenKind::Identifier(name),
                        self.tokens@ == toks,
                        self.const_env@ == old(self).const_env@,
                        p < self.pos <= toks.len(),
                        scoped_ident(toks, self.pos as int, id@) == scoped_ident(toks, p + 1, name@),
                    decreases toks.len() - self.pos,
                {
                    self.advance();
                    let next = self.peek();
                    if let TokenKind::Identifier(n) = next {
                        id.append("::");
                        id.append(n.as_str());
                        self.advance();
                    } else {
                        return Err(ParseError::new(
                            ErrorKind::InvalidSyntax,
                            self.current_position(),
                            "Expected identifier after '::'",
                        ));
                    }
                }
                match self.lookup(id.as_str()) {
                    Some(v) => Ok(v),
                    None => {
                        let mut message = "Unknown identifier in const expression: ".to_owned();
                        message.append(id.as_str());
                        Err(ParseError::new(ErrorKind::InvalidSyntax, pos, message.as_str()))
                    },
                }
            },
            _ => Err(ParseError::new(ErrorKind::InvalidSyntax, self.current_position(), "Expected expression")),
        }
    }
}


/// `&&`, `||`, `+`, `*`, `&`, `|` and `^` do not depend on the order of
/// their operands (a type error is the same either way), and `&&` and `||`
/// always give a boolean.
pub proof fn law_commutative_operators(op: Op, a: ConstValue, b: ConstValue)
    requires
        op is LAnd || op is LOr || op is Add || op is Mul || op is BitAnd || op is BitOr || op is BitXor,
    ensures
        binary_result(op, a, b) == binary_result(op, b, a),
        (op is LAnd || op is LOr) ==> binary_result(op, a, b) matches Ok(ConstValue::Bool(_)),
{
    if let (ConstValue::Int(x), ConstValue::Int(y)) = (a, b) {
        assert(x & y == y & x) by (bit_vector);
        assert(x | y == y | x) by (bit_vector);
        assert(x ^ y == y ^ x) by (bit_vector);
        assert(x.wrapping_mul(y) == y.wrapping_mul(x)) by {
            assert(x as int * y as int == y as int * x as int) by (nonlinear_arith);
        }
    }
}

/// `!` gives a boolean that is true exactly when its operand is not true,
/// so `!!v` is true exactly when `v` is; `-` on an integer undone by a
/// second `-` gives the integer back.
pub proof fn law_double_negation(v: ConstValue, i: i64)
    ensures
        truthy_spec(ConstValue::Bool(!truthy_spec(v))) == !truthy_spec(v),
        truthy_spec(ConstValue::Bool(!truthy_spec(ConstValue::Bool(!truthy_spec(v))))) == truthy_spec(v),
        wrapping_neg_spec(wrapping_neg_spec(i)) == i,
{
}

/// Applies `op` at token `pos` to two operand outcomes: the first error met,
/// the operator's error reported at `pos` with the parser stopped at `end`,
/// or the operator's value.
pub open spec fn combine_at(
    pos: int,
    op: Op,
    lhs: Result<ConstValue, (int, Seq<char>, int)>,
    rhs: Result<ConstValue, (int, Seq<char>, int)>,
    end: int,
) -> Result<ConstValue, (int, Seq<char>, int)> {
    match lhs {
        Err(e) => Err(e),
        Ok(a) => match rhs {
            Err(e) => Err(e),
            Ok(b) => match binary_result(op, a, b) {
                Err(m) => Err((pos, m, end)),
                Ok(v) => Ok(v),
            },
        },
    }
}

/// For `a op1 b op2 c` over integer literals, the operator that binds
/// tighter is applied first, and of two that bind equally the left one is
/// (all binary operators associate to the left); the whole expression is
/// consumed, and an operator's error stops the parser after its right
/// operand.
pub proof fn law_precedence_and_left_associativity(
    env: Seq<(String, ConstValue)>,
    a: i64,
    op1: TokenKind,
    b: i64,
    op2: TokenKind,
    c: i64,
)
    requires
        binop(op1) is Some,
        binop(op2) is Some,
    ensures
        ({
            let toks = seq![TokenKind::IntegerLiteral(a), op1, TokenKind::IntegerLiteral(b), op2, TokenKind::IntegerLiteral(c)];
            let (o1, p1) = binop(op1).unwrap();
            let (o2, p2) = binop(op2).unwrap();
            let value = if p1 < p2 {
                combine_at(1, o1, Ok(ConstValue::Int(a)), combine_at(3, o2, Ok(ConstValue::Int(b)), Ok(ConstValue::Int(c)), 5), 5)
            } else {
                combine_at(3, o2, combine_at(1, o1, Ok(ConstValue::Int(a)), Ok(ConstValue::Int(b)), 3), Ok(ConstValue::Int(c)), 5)
            };
            parse_expr(toks, env, 0, 0) == match value {
                Ok(v) => Ok::<(ConstValue, int), (int, Seq<char>, int)>((v, 5)),
                Err(e) => Err(e),
            }
        }),
{
    let toks = seq![TokenKind::IntegerLiteral(a), op1, TokenKind::IntegerLiteral(b), op2, TokenKind::IntegerLiteral(c)];
    let (o1, p1) = binop(op1).unwrap();
    let (o2, p2) = binop(op2).unwrap();
    let va = ConstValue::Int(a);
    let vb = ConstValue::Int(b);
    let vc = ConstValue::Int(c);
    assert(tok(toks, 1) == op1);
    assert(tok(toks, 3) == op2);
    assert(tok(toks, 5) == TokenKind::Eof);
    assert(parse_unary(toks, env, 0) == Ok::<(ConstValue, int), (int, Seq<char>, int)>((va, 1)));
    assert(parse_unary(toks, env, 2) == Ok::<(ConstValue, int), (int, Seq<char>, int)>((vb, 3)));
    assert(parse_unary(toks, env, 4) == Ok::<(ConstValue, int), (int, Seq<char>, int)>((vc, 5)));
    assert(parse_expr(toks, env, 4, p2 + 1) == Ok::<(ConstValue, int), (int, Seq<char>, int)>((vc, 5))) by {
        assert(expr_tail(toks, env, vc, 5, p2 + 1) == Ok::<(ConstValue, int), (int, Seq<char>, int)>((vc, 5)));
    }
    if p2 < p1 + 1 {
        assert(expr_tail(toks, env, vb, 3, p1 + 1) == Ok::<(ConstValue, int), (int, Seq<char>, int)>((vb, 3)));
        assert(parse_expr(toks, env, 2, p1 + 1) == Ok::<(ConstValue, int), (int, Seq<char>, int)>((vb, 3)));
        match binary_result(o1, va, vb) {
            Err(m) => {},
            Ok(v) => {
                match binary_result(o2, v, vc) {
                    Err(m) => {},
                    Ok(w) => {
                        assert(expr_tail(toks, env, w, 5, 0) == Ok::<(ConstValue, int), (int, Seq<char>, int)>((w, 5)));
                    },
                }
                assert(expr_tail(toks, env, v, 3, 0) == match binary_result(o2, v, vc) {
                    Err(m) => Err::<(ConstValue, int), (int, Seq<char>, int)>((3, m, 5)),
                    Ok(w) => Ok((w, 5)),
                });
            },
        }
    } else {
        match binary_result(o2, vb, vc) {
            Err(m) => {
                assert(expr_tail(toks, env, vb, 3, p1 + 1) == Err::<(ConstValue, int), (int, Seq<char>, int)>((3, m, 5)));
            },
            Ok(w) => {
                assert(expr_tail(toks, env, w, 5, p1 + 1) == Ok::<(ConstValue, int), (int, Seq<char>, int)>((w, 5)));
                assert(expr_tail(toks, env, vb, 3, p1 + 1) == Ok::<(ConstValue, int), (int, Seq<char>, int)>((w, 5)));
                match binary_result(o1, va, w) {
                    Err(m) => {},
                    Ok(x) => {
                        assert(expr_tail(toks, env, x, 5, 0) == Ok::<(ConstValue, int), (int, Seq<char>, int)>((x, 5)));
                    },
                }
            },
        }
    }
}


/// The integer value an operator gives, or `None` when it gives an error or
/// a non-integer.
pub open spec fn int_result(op: Op, a: i64, b: i64) -> Option<i64> {
    match binary_result(op, ConstValue::Int(a), ConstValue::Int(b)) {
        Ok(ConstValue::Int(r)) => Some(r),
        _ => None,
    }
}

/// `+`, `-` and `*` on integers give the mathematical sum, difference and
/// product when it fits an `i64`, and otherwise the value congruent to it
/// modulo 2^64 (two's-complement wrapping).
pub proof fn law_wrapping_arithmetic(a: i64, b: i64)
    ensures
        int_result(Op::Add, a, b) matches Some(r) && (r - (a + b)) % 0x1_0000_0000_0000_0000int == 0,
        int_result(Op::Sub, a, b) matches Some(r) && (r - (a - b)) % 0x1_0000_0000_0000_0000int == 0,
        int_result(Op::Mul, a, b) matches Some(r) && (r - a * b) % 0x1_0000_0000_0000_0000int == 0,
        i64::MIN <= a + b <= i64::MAX ==> int_result(Op::Add, a, b) == Some((a + b) as i64),
        i64::MIN <= a - b <= i64::MAX ==> int_result(Op::Sub, a, b) == Some((a - b) as i64),
        i64::MIN <= a * b <= i64::MAX ==> int_result(Op::Mul, a, b) == Some((a * b) as i64),
{
    let range: int = 0x1_0000_0000_0000_0000int;
    let r = a.wrapping_add(b);
    if a + b > i64::MAX {
        assert(r - (a + b) == -range);
    } else if a + b < i64::MIN {
        assert(r - (a + b) == range);
    }
    let d = a.wrapping_sub(b);
    if a - b > i64::MAX {
        assert(d - (a - b) == -range);
    } else if a - b < i64::MIN {
        assert(d - (a - b) == range);
    }
    let p = a * b;
    let m = p % range;
    let q = p / range;
    lemma_fundamental_div_mod(p, range);
    lemma_mod_bound(p, range);
    let w = a.wrapping_mul(b);
    if m > i64::MAX {
        assert(w == m - range);
        assert(w - p == (-q - 1) * range) by (nonlinear_arith)
            requires
                w == m - range,
                p == range * q + m,
        ;
        lemma_mod_multiples_basic(-q - 1, range);
    } else {
        assert(w == m);
        assert(w - p == (-q) * range) by (nonlinear_arith)
            requires
                w == m,
                p == range * q + m,
        ;
        lemma_mod_multiples_basic(-q, range);
    }
    if i64::MIN <= p <= i64::MAX {
        if p >= 0 {
            lemma_small_mod(p as nat, range as nat);
        } else {
            lemma_fundamental_div_mod_converse(p, range, -1, p + range);
        }
    }
}

/// Integer division truncates toward zero and `%` is its remainder: for a
/// non-zero divisor, quotient times divisor plus remainder is the dividend,
/// the remainder is smaller than the divisor in size and has the sign of
/// the dividend (or is zero); `i64::MIN / -1` wraps to `i64::MIN` with
/// remainder 0. A zero divisor is an error.
pub proof fn law_division_and_remainder(a: i64, b: i64)
    ensures
        b == 0 ==> binary_result(Op::Div, ConstValue::Int(a), ConstValue::Int(b)) == Err::<ConstValue, Seq<char>>("Division by zero"@)
            && binary_result(Op::Mod, ConstValue::Int(a), ConstValue::Int(b)) == Err::<ConstValue, Seq<char>>("Modulo by zero"@),
        b != 0 && !(a == i64::MIN && b == -1) ==> ({
            &&& int_result(Op::Div, a, b) is Some
            &&& int_result(Op::Mod, a, b) is Some
            &&& int_result(Op::Div, a, b)->0 * b + int_result(Op::Mod, a, b)->0 == a
            &&& int_result(Op::Mod, a, b)->0 * int_result(Op::Mod, a, b)->0 < b * b
            &&& (int_result(Op::Mod, a, b)->0 == 0 || (int_result(Op::Mod, a, b)->0 < 0) == (a < 0))
        }),
        (a == i64::MIN && b == -1) ==> int_result(Op::Div, a, b) == Some(i64::MIN) && int_result(Op::Mod, a, b) == Some(0i64),
{
    if b != 0 {
        let ma: int = if a < 0 { -(a as int) } else { a as int };
        let mb: int = if b < 0 { -(b as int) } else { b as int };
        let q0 = ma / mb;
        let r0 = ma % mb;
        lemma_fundamental_div_mod(ma, mb);
        lemma_mod_bound(ma, mb);
        assert(ma == mb * q0 + r0);
        assert(0 <= r0 < mb);
        assert(q0 >= 0 && q0 <= ma) by (nonlinear_arith)
            requires
                ma >= 0,
                mb >= 1,
                q0 == ma / mb,
        ;
        let t = trunc_div(a as int, b as int);
        let rem = wrapping_rem_spec(a, b);
        assert(rem == (if a >= 0 { r0 } else { -r0 }));
        assert(t == (if (a < 0) == (b < 0) { q0 } else { -q0 }));
        assert(t * b + rem == a) by (nonlinear_arith)
            requires
                ma == mb * q0 + r0,
                ma == (if a < 0 { -(a as int) } else { a as int }),
                mb == (if b < 0 { -(b as int) } else { b as int }),
                t == (if (a < 0) == (b < 0) { q0 } else { -q0 }),
                rem == (if a >= 0 { r0 } else { -r0 }),
        ;
        assert(rem * rem < b * b) by (nonlinear_arith)
            requires
                0 <= r0 < mb,
                rem == r0 || rem == -r0,
                mb == b || mb == -b,
        ;
        if mb == 1 {
            assert(r0 == 0 && q0 == ma) by (nonlinear_arith)
                requires
                    mb == 1,
                    ma == mb * q0 + r0,
                    0 <= r0 < mb,
            ;
        } else {
            assert(q0 * 2 <= ma) by (nonlinear_arith)
                requires
                    ma == mb * q0 + r0,
                    mb >= 2,
                    q0 >= 0,
                    r0 >= 0,
            ;
        }
        assert(ma <= 0x8000_0000_0000_0000int);
    }
}

/// `&`, `|` and `^` are the bitwise operations: `a & b` and `a | b` add up
/// to `a + b`, `a ^ b` is their difference, `&` with 0 is 0, `|` and `^` with
/// 0 leave a value unchanged, `a ^ a` is 0, and on non-negative operands `&`
/// is at most either operand and `|` at least either.
pub proof fn law_bitwise_operators(a: i64, b: i64)
    ensures
        int_result(Op::BitAnd, a, b) is Some && int_result(Op::BitOr, a, b) is Some && int_result(Op::BitXor, a, b) is Some,
        int_result(Op::BitAnd, a, b)->0 + int_result(Op::BitOr, a, b)->0 == a + b,
        int_result(Op::BitXor, a, b)->0 == int_result(Op::BitOr, a, b)->0 - int_result(Op::BitAnd, a, b)->0,
        int_result(Op::BitAnd, a, 0) == Some(0i64),
        int_result(Op::BitOr, a, 0) == Some(a),
        int_result(Op::BitXor, a, 0) == Some(a),
        int_result(Op::BitXor, a, a) == Some(0i64),
        int_result(Op::BitAnd, a, a) == Some(a),
        0 <= a && 0 <= b ==> 0 <= int_result(Op::BitAnd, a, b)->0 <= a && int_result(Op::BitAnd, a, b)->0 <= b
            && int_result(Op::BitOr, a, b)->0 >= a && int_result(Op::BitOr, a, b)->0 >= b,
{
    assert((a & b) as int + (a | b) as int == a as int + b as int) by (bit_vector);
    assert((a ^ b) as int == (a | b) as int - (a & b) as int) by (bit_vector);
    assert(a & 0 == 0) by (bit_vector);
    assert(a | 0 == a) by (bit_vector);
    assert(a ^ 0 == a) by (bit_vector);
    assert(a ^ a == 0) by (bit_vector);
    assert(a & a == a) by (bit_vector);
    assert(0 <= a && 0 <= b ==> 0 <= a & b && a & b <= a && a & b <= b && a | b >= a && a | b >= b) by (bit_vector);
}

/// On a non-negative integer and a shift from 0 to 63, `>>` divides by
/// 2 to the shift (rounding down), and `<<` multiplies by it when the
/// product fits; a shift outside 0..63 is an error.
pub proof fn law_shifts(a: i64, b: i64)
    ensures
        0 <= a && 0 <= b < 64 ==> int_result(Op::Shr, a, b) == Some((a as nat / pow2(b as nat)) as i64),
        0 <= a && 0 <= b < 64 && a * pow2(b as nat) <= i64::MAX ==> int_result(Op::Shl, a, b) == Some((a * pow2(b as nat)) as i64),
        !(0 <= b < 64) ==> binary_result(Op::Shl, ConstValue::Int(a), ConstValue::Int(b)) == Err::<ConstValue, Seq<char>>("Shift amount out of range (0..63)"@)
            && binary_result(Op::Shr, ConstValue::Int(a), ConstValue::Int(b)) == Err::<ConstValue, Seq<char>>("Shift amount out of range (0..63)"@),
{
    if 0 <= a && 0 <= b < 64 {
        let x = a as u64;
        let s = b as u64;
        let k = b as u32;
        assert(k % 64 == k);
        assert((a >> k) == ((x >> s) as i64)) by (bit_vector)
            requires
                0 <= a,
                x == a as u64,
                s == k as u64,
                k < 64,
        ;
        lemma_u64_shr_is_div(x, s);
        lemma_u64_pow2_no_overflow(s as nat);
        if a * pow2(b as nat) <= i64::MAX {
            lemma_u64_shl_is_mul(x, s);
            assert((a << k) == ((x << s) as i64)) by (bit_vector)
                requires
                    0 <= a,
                    x == a as u64,
                    s == k as u64,
                    k < 64,
            ;
        }
    }
}

} // verus!
