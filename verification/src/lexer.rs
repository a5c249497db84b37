use vstd::prelude::*;
use crate::num::{
    Real, add_bits, mul_bits, div_bits, digit_bits, pow_ten, gt_bits, lt_bits, real_gt, real_lt,
    real_add, real_mul, real_div, real_digit, real_pow_ten, ZERO_BITS, ONE_BITS, NEG_ONE_BITS,
    TEN_BITS, TENTH_BITS,
};

verus! {

#[derive(Debug, Clone, Copy, PartialEq, Eq, Structural)]
pub enum MulDivOp {
    Mul,
    Div,
}

#[derive(Debug, Clone, Copy, PartialEq, Eq, Structural)]
pub enum AddSubOp {
    Plus,
    Minus,
}

#[derive(Debug, Clone, Copy, PartialEq, Eq, Structural)]
pub enum CompareOp {
    Less,
    Greater,
    LessEq,
    GreaterEq,
    Equal,
    NotEqual,
    ThreeWay,
}

impl CompareOp {
    /// The numeric result of a comparison: one for true, zero for false, and
    /// for the three-way form the sign of the difference.  Two values neither
    /// of which is less or greater than the other (equal values, or any NaN
    /// operand) take the "equal" arm.
    pub open spec fn on_spec(self, r1: Real, r2: Real) -> Real {
        if gt_bits(r1, r2) {
            match self {
                CompareOp::Greater | CompareOp::GreaterEq | CompareOp::NotEqual
                    | CompareOp::ThreeWay => ONE_BITS,
                CompareOp::Less | CompareOp::LessEq | CompareOp::Equal => ZERO_BITS,
            }
        } else if lt_bits(r1, r2) {
            match self {
                CompareOp::Less | CompareOp::LessEq | CompareOp::NotEqual => ONE_BITS,
                CompareOp::Greater | CompareOp::GreaterEq | CompareOp::Equal => ZERO_BITS,
                CompareOp::ThreeWay => NEG_ONE_BITS,
            }
        } else {
            match self {
                CompareOp::GreaterEq | CompareOp::LessEq | CompareOp::Equal => ONE_BITS,
                CompareOp::Greater | CompareOp::Less | CompareOp::NotEqual
                    | CompareOp::ThreeWay => ZERO_BITS,
            }
        }
    }

    pub(crate) fn on(self, r1: Real, r2: Real) -> (o: Real)
        ensures
            o == self.on_spec(r1, r2),
    {
        if real_gt(r1, r2) {
            match self {
                CompareOp::Greater | CompareOp::GreaterEq | CompareOp::NotEqual
                    | CompareOp::ThreeWay => ONE_BITS,
                CompareOp::Less | CompareOp::LessEq | CompareOp::Equal => ZERO_BITS,
            }
        } else if real_lt(r1, r2) {
            match self {
                CompareOp::Less | CompareOp::LessEq | CompareOp::NotEqual => ONE_BITS,
                CompareOp::Greater | CompareOp::GreaterEq | CompareOp::Equal => ZERO_BITS,
                CompareOp::ThreeWay => NEG_ONE_BITS,
            }
        } else {
            match self {
                CompareOp::GreaterEq | CompareOp::LessEq | CompareOp::Equal => ONE_BITS,
                CompareOp::Greater | CompareOp::Less | CompareOp::NotEqual
                    | CompareOp::ThreeWay => ZERO_BITS,
            }
        }
    }
}

/// An identifier is an uninterned byte sequence; equality is by content.
pub type Ident = Vec<u8>;

#[derive(Debug, Clone, PartialEq)]
pub enum Token {
    Ident(Ident),
    Num(Real),
    Assign,
    LParen,
    RParen,
    Bang,
    Caret,
    Md(MulDivOp),
    Pn(AddSubOp),
    Rel(CompareOp),
    Or,
    And,
    Question,
    Colon,
    Comma,
}

/// The mathematical shadow of a token: identifiers as sequences.
pub enum TokenV {
    Ident(Seq<u8>),
    Num(Real),
    Assign,
    LParen,
    RParen,
    Bang,
    Caret,
    Md(MulDivOp),
    Pn(AddSubOp),
    Rel(CompareOp),
    Or,
    And,
    Question,
    Colon,
    Comma,
}

pub open spec fn token_view(t: Token) -> TokenV {
    match t {
        Token::Ident(id) => TokenV::Ident(id@),
        Token::Num(r) => TokenV::Num(r),
        Token::Assign => TokenV::Assign,
        Token::LParen => TokenV::LParen,
        Token::RParen => TokenV::RParen,
        Token::Bang => TokenV::Bang,
        Token::Caret => TokenV::Caret,
        Token::Md(op) => TokenV::Md(op),
        Token::Pn(op) => TokenV::Pn(op),
        Token::Rel(op) => TokenV::Rel(op),
        Token::Or => TokenV::Or,
        Token::And => TokenV::And,
        Token::Question => TokenV::Question,
        Token::Colon => TokenV::Colon,
        Token::Comma => TokenV::Comma,
    }
}

/// What the lexer was scanning for when it failed.
#[derive(Debug, Clone, Copy, PartialEq, Eq, Structural)]
pub enum Expected {
    OrOperator,
    AndOperator,
    WrapToken,
    NumberExponent,
    ValidToken,
}

/// A lexical error: the column where scanning failed, what was being scanned
/// for, and the byte actually found (`None` at end of input).
#[derive(Debug, Clone, PartialEq)]
pub struct InvalidToken {
    pub column: usize,
    pub expect: Expected,
    pub found: Option<u8>,
}

/// One line's worth of tokens, each with its starting column, and whether the
/// statement is complete (false when the line ended in the `...` marker).
pub struct TokenStream {
    pub complete: bool,
    pub tokens: Vec<(usize, Token)>,
}

pub open spec fn is_space(c: u8) -> bool {
    c == 0x20 || c == 0x09 || c == 0x0A || c == 0x0C || c == 0x0D
}

pub open spec fn is_digit(c: u8) -> bool {
    0x30 <= c <= 0x39
}

pub open spec fn is_alpha(c: u8) -> bool {
    (0x41 <= c <= 0x5A) || (0x61 <= c <= 0x7A)
}

pub open spec fn is_ident_start(c: u8) -> bool {
    is_alpha(c) || c == 0x5F
}

pub open spec fn is_ident_char(c: u8) -> bool {
    is_ident_start(c) || is_digit(c)
}

/// The byte at a position, with the end of the sequence read as the NUL
/// sentinel that terminates every submitted line.
pub open spec fn char_at(line: Seq<u8>, p: int) -> u8 {
    if 0 <= p < line.len() {
        line[p]
    } else {
        0
    }
}

/// The byte reported by an error, `None` for the sentinel.
pub open spec fn found_at(line: Seq<u8>, p: int) -> Option<u8> {
    if char_at(line, p) == 0 {
        None
    } else {
        Some(char_at(line, p))
    }
}

/// There is a NUL sentinel at or after position p.
pub open spec fn has_nul_from(line: Seq<u8>, p: int) -> bool {
    exists|k: int| p <= k < line.len() && line[k] == 0
}

/// How many identifier characters stand at position p.
pub open spec fn ident_len(line: Seq<u8>, p: int) -> nat
    decreases line.len() - p,
{
    if p < 0 || p >= line.len() || !is_ident_char(line[p]) {
        0
    } else {
        1 + ident_len(line, p + 1)
    }
}

/// How many decimal digits stand at position p.
pub open spec fn digits_len(line: Seq<u8>, p: int) -> nat
    decreases line.len() - p,
{
    if p < 0 || p >= line.len() || !is_digit(line[p]) {
        0
    } else {
        1 + digits_len(line, p + 1)
    }
}

/// The integer part of a literal, accumulated digit by digit:
/// each step multiplies by ten and adds the digit.
pub open spec fn int_part(line: Seq<u8>, p: int, acc: Real) -> Real
    decreases line.len() - p,
{
    if p < 0 || p >= line.len() || !is_digit(line[p]) {
        acc
    } else {
        int_part(line, p + 1, add_bits(mul_bits(acc, TEN_BITS), digit_bits((line[p] - 0x30) as u8)))
    }
}

/// The fractional part: the place value shrinks by a factor of ten at each
/// digit and the weighted digits are summed.
pub open spec fn frac_part(line: Seq<u8>, p: int, acc: Real, div: Real) -> Real
    decreases line.len() - p,
{
    if p < 0 || p >= line.len() || !is_digit(line[p]) {
        acc
    } else {
        frac_part(
            line,
            p + 1,
            add_bits(acc, mul_bits(digit_bits((line[p] - 0x30) as u8), mul_bits(div, TENTH_BITS))),
            mul_bits(div, TENTH_BITS),
        )
    }
}

/// Cap on an accumulated scientific exponent; ten to any power at or beyond
/// it overflows or underflows every binary64 anyway.
pub const EXP_CAP: u64 = 100000;

/// The digits of a scientific exponent, accumulated with saturation at
/// EXP_CAP.
pub open spec fn exp_part(line: Seq<u8>, p: int, acc: u64) -> u64
    decreases line.len() - p,
{
    if p < 0 || p >= line.len() || !is_digit(line[p]) {
        acc
    } else {
        exp_part(
            line,
            p + 1,
            if acc < EXP_CAP {
                (acc * 10 + (line[p] - 0x30) as u64) as u64
            } else {
                acc
            },
        )
    }
}

/// The scale a scientific exponent applies: ten to the power, or its
/// reciprocal for a negative exponent.
pub open spec fn exp_scale(neg: bool, n: u64) -> Real {
    if neg {
        div_bits(ONE_BITS, pow_ten(n as nat))
    } else {
        pow_ten(n as nat)
    }
}

/// Scanning one numeric literal that starts at p: the position one past it
/// and its value, or the column of a malformed exponent.
pub open spec fn scan_number(line: Seq<u8>, p: int) -> Result<(int, Real), int> {
    let p1 = p + digits_len(line, p);
    let num0 = int_part(line, p, ZERO_BITS);
    let p2 = if char_at(line, p1) == 0x2E {
        p1 + 1 + digits_len(line, p1 + 1)
    } else {
        p1
    };
    let num1 = if char_at(line, p1) == 0x2E {
        add_bits(num0, frac_part(line, p1 + 1, ZERO_BITS, ONE_BITS))
    } else {
        num0
    };
    if char_at(line, p2) == 0x65 || char_at(line, p2) == 0x45 {
        let neg = char_at(line, p2 + 1) == 0x2D;
        let p3 = if char_at(line, p2 + 1) == 0x2D || char_at(line, p2 + 1) == 0x2B {
            p2 + 2
        } else {
            p2 + 1
        };
        if is_digit(char_at(line, p3)) {
            let n = exp_part(line, p3, 0);
            Ok((p3 + digits_len(line, p3), mul_bits(num1, exp_scale(neg, n))))
        } else {
            Err(p3)
        }
    } else {
        Ok((p2, num1))
    }
}

/// The outcome of scanning a line: the (column, token) pairs with the
/// completeness flag, or a lexical error.
pub enum LexOut {
    Toks(Seq<(int, TokenV)>, bool),
    Bad(int, Expected, Option<u8>),
}

/// The lexer, as a recursion over the line from position p with the tokens
/// already produced: whitespace is skipped, two-character operators are
/// matched greedily, a trailing `...` marks the statement incomplete, and the
/// NUL sentinel ends the scan.
pub proof fn lemma_ident_len_le(line: Seq<u8>, p: int)
    ensures
        ident_len(line, p) == 0 || p + ident_len(line, p) <= line.len(),
    decreases line.len() - p,
{
    if 0 <= p < line.len() && is_ident_char(line[p]) {
        lemma_ident_len_le(line, p + 1);
    }
}

pub proof fn lemma_digits_len_le(line: Seq<u8>, p: int)
    ensures
        digits_len(line, p) == 0 || p + digits_len(line, p) <= line.len(),
    decreases line.len() - p,
{
    if 0 <= p < line.len() && is_digit(line[p]) {
        lemma_digits_len_le(line, p + 1);
    }
}

pub open spec fn lex_from(line: Seq<u8>, p: int, acc: Seq<(int, TokenV)>) -> LexOut
    decreases line.len() - p,
    via lex_from_dec
{
    let c = char_at(line, p);
    if p >= line.len() || c == 0 {
        LexOut::Toks(acc, true)
    } else if is_space(c) {
        lex_from(line, p + 1, acc)
    } else if is_ident_start(c) {
        let end = p + 1 + ident_len(line, p + 1);
        lex_from(line, end, acc.push((p, TokenV::Ident(line.subrange(p, end)))))
    } else if is_digit(c) {
        match scan_number(line, p) {
            Ok((end, val)) => lex_from(line, end, acc.push((p, TokenV::Num(val)))),
            Err(col) => LexOut::Bad(col, Expected::NumberExponent, found_at(line, col)),
        }
    } else if c == 0x3D {  // '='
        if char_at(line, p + 1) == 0x3D {
            lex_from(line, p + 2, acc.push((p, TokenV::Rel(CompareOp::Equal))))
        } else {
            lex_from(line, p + 1, acc.push((p, TokenV::Assign)))
        }
    } else if c == 0x21 {  // '!'
        if char_at(line, p + 1) == 0x3D {
            lex_from(line, p + 2, acc.push((p, TokenV::Rel(CompareOp::NotEqual))))
        } else {
            lex_from(line, p + 1, acc.push((p, TokenV::Bang)))
        }
    } else if c == 0x3E {  // '>'
        if char_at(line, p + 1) == 0x3D {
            lex_from(line, p + 2, acc.push((p, TokenV::Rel(CompareOp::GreaterEq))))
        } else {
            lex_from(line, p + 1, acc.push((p, TokenV::Rel(CompareOp::Greater))))
        }
    } else if c == 0x3C {  // '<'
        if char_at(line, p + 1) == 0x3D {
            if char_at(line, p + 2) == 0x3E {
                lex_from(line, p + 3, acc.push((p, TokenV::Rel(CompareOp::ThreeWay))))
            } else {
                lex_from(line, p + 2, acc.push((p, TokenV::Rel(CompareOp::LessEq))))
            }
        } else {
            lex_from(line, p + 1, acc.push((p, TokenV::Rel(CompareOp::Less))))
        }
    } else if c == 0x7C {  // '|'
        if char_at(line, p + 1) == 0x7C {
            lex_from(line, p + 2, acc.push((p, TokenV::Or)))
        } else {
            LexOut::Bad(p + 1, Expected::OrOperator, found_at(line, p + 1))
        }
    } else if c == 0x26 {  // '&'
        if char_at(line, p + 1) == 0x26 {
            lex_from(line, p + 2, acc.push((p, TokenV::And)))
        } else {
            LexOut::Bad(p + 1, Expected::AndOperator, found_at(line, p + 1))
        }
    } else if c == 0x2E {  // '.'
        if char_at(line, p + 1) == 0x2E {
            if char_at(line, p + 2) == 0x2E {
                LexOut::Toks(acc, false)
            } else {
                LexOut::Bad(p + 2, Expected::WrapToken, found_at(line, p + 2))
            }
        } else {
            LexOut::Bad(p + 1, Expected::WrapToken, found_at(line, p + 1))
        }
    } else if c == 0x28 {  // '('
        lex_from(line, p + 1, acc.push((p, TokenV::LParen)))
    } else if c == 0x29 {  // ')'
        lex_from(line, p + 1, acc.push((p, TokenV::RParen)))
    } else if c == 0x5E {  // '^'
        lex_from(line, p + 1, acc.push((p, TokenV::Caret)))
    } else if c == 0x2A {  // '*'
        lex_from(line, p + 1, acc.push((p, TokenV::Md(MulDivOp::Mul))))
    } else if c == 0x2F {  // '/'
        lex_from(line, p + 1, acc.push((p, TokenV::Md(MulDivOp::Div))))
    } else if c == 0x2B {  // '+'
        lex_from(line, p + 1, acc.push((p, TokenV::Pn(AddSubOp::Plus))))
    } else if c == 0x2D {  // '-'
        lex_from(line, p + 1, acc.push((p, TokenV::Pn(AddSubOp::Minus))))
    } else if c == 0x3F {  // '?'
        lex_from(line, p + 1, acc.push((p, TokenV::Question)))
    } else if c == 0x3A {  // ':'
        lex_from(line, p + 1, acc.push((p, TokenV::Colon)))
    } else if c == 0x2C {  // ','
        lex_from(line, p + 1, acc.push((p, TokenV::Comma)))
    } else {
        LexOut::Bad(p, Expected::ValidToken, Some(c))
    }
}

#[via_fn]
proof fn lex_from_dec(line: Seq<u8>, p: int, acc: Seq<(int, TokenV)>) {
    lemma_ident_len_le(line, p + 1);
    lemma_digits_len_le(line, p);
    let p1 = p + digits_len(line, p);
    lemma_digits_len_le(line, p1 + 1);
    let p2b = p1 + 1 + digits_len(line, p1 + 1);
    lemma_digits_len_le(line, p1 + 1);
    lemma_digits_len_le(line, p1 + 2);
    lemma_digits_len_le(line, p2b + 1);
    lemma_digits_len_le(line, p2b + 2);
}

pub open spec fn lex_line(line: Seq<u8>) -> LexOut {
    lex_from(line, 0, Seq::empty())
}

pub open spec fn toks_view(v: Seq<(usize, Token)>) -> Seq<(int, TokenV)> {
    v.map_values(|p: (usize, Token)| (p.0 as int, token_view(p.1)))
}

proof fn lemma_toks_push(v: Seq<(usize, Token)>, c: usize, t: Token)
    ensures
        toks_view(v.push((c, t))) == toks_view(v).push((c as int, token_view(t))),
{
    assert(toks_view(v.push((c, t))) =~= toks_view(v).push((c as int, token_view(t))));
}

proof fn lemma_nul_step(line: Seq<u8>, p: int)
    requires
        has_nul_from(line, p),
        0 <= p < line.len(),
        line[p] != 0,
    ensures
        has_nul_from(line, p + 1),
{
    let k = choose|k: int| p <= k < line.len() && line[k] == 0;
    assert(p + 1 <= k < line.len() && line[k] == 0);
}

/// Reads the numeric literal that starts at `start`: digits, an optional
/// point with fractional digits, and an optional exponent.  The value is
/// accumulated digit by digit with binary64 steps, not by a general
/// string-to-number conversion, so a malformed exponent is a lexical error
/// at its own position.
#[verifier::loop_isolation(false)]
pub(crate) fn read_number(line: &[u8], start: usize) -> (r: Result<(usize, Real), InvalidToken>)
    requires
        has_nul_from(line@, start as int),
        is_digit(line@[start as int]),
    ensures
        match r {
            Ok(pr) => {
                &&& scan_number(line@, start as int) matches Ok(q)
                &&& q.0 == pr.0
                &&& q.1 == pr.1
                &&& start < pr.0 <= line@.len()
                &&& has_nul_from(line@, pr.0 as int)
            },
            Err(e) => {
                &&& scan_number(line@, start as int) matches Err(col)
                &&& e.column == col
                &&& e.expect == Expected::NumberExponent
                &&& e.found == found_at(line@, col)
            },
        },
{
    let ghost l = line@;
    let mut col: usize = start;
    let mut num: Real = ZERO_BITS;
    while col < line.len() && 0x30 <= line[col] && line[col] <= 0x39
        invariant
            start <= col <= l.len(),
            has_nul_from(l, col as int),
            digits_len(l, start as int) == (col - start) + digits_len(l, col as int),
            int_part(l, start as int, ZERO_BITS) == int_part(l, col as int, num),
        decreases l.len() - col,
    {
        proof {
            lemma_nul_step(l, col as int);
        }
        let d = line[col] - 0x30;
        num = real_add(real_mul(num, TEN_BITS), real_digit(d));
        col = col + 1;
    }
    assert(col < l.len());
    assert(digits_len(l, col as int) == 0);
    let ghost p1 = start + digits_len(l, start as int);
    assert(p1 == col);
    if line[col] == 0x2E {
        proof {
            lemma_nul_step(l, col as int);
        }
        col = col + 1;
        let mut num2: Real = ZERO_BITS;
        let mut div: Real = ONE_BITS;
        while col < line.len() && 0x30 <= line[col] && line[col] <= 0x39
            invariant
                p1 + 1 <= col <= l.len(),
                has_nul_from(l, col as int),
                digits_len(l, p1 + 1) == (col - (p1 + 1)) + digits_len(l, col as int),
                frac_part(l, p1 + 1, ZERO_BITS, ONE_BITS) == frac_part(l, col as int, num2, div),
            decreases l.len() - col,
        {
            proof {
                lemma_nul_step(l, col as int);
            }
            let d = line[col] - 0x30;
            div = real_mul(div, TENTH_BITS);
            num2 = real_add(num2, real_mul(real_digit(d), div));
            col = col + 1;
        }
        assert(col < l.len());
        assert(digits_len(l, col as int) == 0);
        num = real_add(num, num2);
    }
    let ghost p2 = col as int;
    if line[col] == 0x65 || line[col] == 0x45 {
        proof {
            lemma_nul_step(l, col as int);
        }
        col = col + 1;
        let mut neg: bool = false;
        if line[col] == 0x2D {
            neg = true;
            proof {
                lemma_nul_step(l, col as int);
            }
            col = col + 1;
        } else if line[col] == 0x2B {
            proof {
                lemma_nul_step(l, col as int);
            }
            col = col + 1;
        }
        let ghost p3 = col as int;
        if col < line.len() && 0x30 <= line[col] && line[col] <= 0x39 {
            let mut n: u64 = 0;
            while col < line.len() && 0x30 <= line[col] && line[col] <= 0x39
                invariant
                    p3 <= col <= l.len(),
                    has_nul_from(l, col as int),
                    digits_len(l, p3) == (col - p3) + digits_len(l, col as int),
                    exp_part(l, p3, 0) == exp_part(l, col as int, n),
                    n <= EXP_CAP * 10 + 9,
                decreases l.len() - col,
            {
                proof {
                    lemma_nul_step(l, col as int);
                }
                let d = line[col] - 0x30;
                if n < EXP_CAP {
                    n = n * 10 + d as u64;
                }
                col = col + 1;
            }
            assert(col < l.len());
            assert(digits_len(l, col as int) == 0);
            let mut scale = real_pow_ten(n);
            if neg {
                scale = real_div(ONE_BITS, scale);
            }
            num = real_mul(num, scale);
            Ok((col, num))
        } else {
            Err(InvalidToken {
                column: col,
                expect: Expected::NumberExponent,
                found: if line[col] == 0 {
                    None
                } else {
                    Some(line[col])
                },
            })
        }
    } else {
        Ok((col, num))
    }
}

/// Turns one NUL-terminated line into its stream of (column, token) pairs,
/// or fails with a lexical error.  A trailing `...` marks the statement as
/// incomplete and stops the scan.
#[verifier::loop_isolation(false)]
pub(crate) fn tokenize(line: &[u8]) -> (r: Result<TokenStream, InvalidToken>)
    requires
        has_nul_from(line@, 0),
    ensures
        match r {
            Ok(ts) => lex_line(line@) == LexOut::Toks(toks_view(ts.tokens@), ts.complete),
            Err(e) => lex_line(line@) == LexOut::Bad(e.column as int, e.expect, e.found),
        },
{
    let ghost l = line@;
    let mut tokens: Vec<(usize, Token)> = Vec::new();
    let mut col: usize = 0;
    proof {
        assert(toks_view(tokens@) =~= Seq::empty());
    }
    loop
        invariant
            col <= l.len(),
            has_nul_from(l, col as int),
            lex_line(l) == lex_from(l, col as int, toks_view(tokens@)),
        decreases l.len() - col,
    {
        assert(col < l.len());
        let c = line[col];
        if c == 0 {
            return Ok(TokenStream { complete: true, tokens });
        }
        proof {
            lemma_nul_step(l, col as int);
        }
        if c == 0x20 || c == 0x09 || c == 0x0A || c == 0x0C || c == 0x0D {
            col = col + 1;
        } else if (0x41 <= c && c <= 0x5A) || (0x61 <= c && c <= 0x7A) || c == 0x5F {
            let begin = col;
            let mut id: Vec<u8> = Vec::new();
            id.push(c);
            col = col + 1;
            while col < line.len() && ((0x41 <= line[col] && line[col] <= 0x5A) || (0x61
                <= line[col] && line[col] <= 0x7A) || line[col] == 0x5F || (0x30 <= line[col]
                && line[col] <= 0x39))
                invariant
                    begin < col <= l.len(),
                    has_nul_from(l, col as int),
                    ident_len(l, begin + 1) == (col - (begin + 1)) + ident_len(l, col as int),
                    id@ == l.subrange(begin as int, col as int),
                decreases l.len() - col,
            {
                proof {
                    lemma_nul_step(l, col as int);
                }
                id.push(line[col]);
                col = col + 1;
                assert(id@ =~= l.subrange(begin as int, col as int));
            }
            assert(col < l.len());
            assert(ident_len(l, col as int) == 0);
            proof {
                lemma_toks_push(tokens@, begin, Token::Ident(id));
            }
            tokens.push((begin, Token::Ident(id)));
        } else if 0x30 <= c && c <= 0x39 {
            match read_number(line, col) {
                Ok(pr) => {
                    proof {
                        lemma_toks_push(tokens@, col, Token::Num(pr.1));
                    }
                    tokens.push((col, Token::Num(pr.1)));
                    col = pr.0;
                },
                Err(e) => {
                    return Err(e);
                },
            }
        } else if c == 0x3D {
            if line[col + 1] == 0x3D {
                proof {
                    lemma_nul_step(l, col + 1);
                    lemma_toks_push(tokens@, col, Token::Rel(CompareOp::Equal));
                }
                tokens.push((col, Token::Rel(CompareOp::Equal)));
                col = col + 2;
            } else {
                proof {
                    lemma_toks_push(tokens@, col, Token::Assign);
                }
                tokens.push((col, Token::Assign));
                col = col + 1;
            }
        } else if c == 0x21 {
            if line[col + 1] == 0x3D {
                proof {
                    lemma_nul_step(l, col + 1);
                    lemma_toks_push(tokens@, col, Token::Rel(CompareOp::NotEqual));
                }
                tokens.push((col, Token::Rel(CompareOp::NotEqual)));
                col = col + 2;
            } else {
                proof {
                    lemma_toks_push(tokens@, col, Token::Bang);
                }
                tokens.push((col, Token::Bang));
                col = col + 1;
            }
        } else if c == 0x3E {
            if line[col + 1] == 0x3D {
                proof {
                    lemma_nul_step(l, col + 1);
                    lemma_toks_push(tokens@, col, Token::Rel(CompareOp::GreaterEq));
                }
                tokens.push((col, Token::Rel(CompareOp::GreaterEq)));
                col = col + 2;
            } else {
                proof {
                    lemma_toks_push(tokens@, col, Token::Rel(CompareOp::Greater));
                }
                tokens.push((col, Token::Rel(CompareOp::Greater)));
                col = col + 1;
            }
        } else if c == 0x3C {
            if line[col + 1] == 0x3D {
                proof {
                    lemma_nul_step(l, col + 1);
                }
                if line[col + 2] == 0x3E {
                    proof {
                        lemma_nul_step(l, col + 2);
                        lemma_toks_push(tokens@, col, Token::Rel(CompareOp::ThreeWay));
                    }
                    tokens.push((col, Token::Rel(CompareOp::ThreeWay)));
                    col = col + 3;
                } else {
                    proof {
                        lemma_toks_push(tokens@, col, Token::Rel(CompareOp::LessEq));
                    }
                    tokens.push((col, Token::Rel(CompareOp::LessEq)));
                    col = col + 2;
                }
            } else {
                proof {
                    lemma_toks_push(tokens@, col, Token::Rel(CompareOp::Less));
                }
                tokens.push((col, Token::Rel(CompareOp::Less)));
                col = col + 1;
            }
        } else if c == 0x7C {
            if line[col + 1] == 0x7C {
                proof {
                    lemma_nul_step(l, col + 1);
                    lemma_toks_push(tokens@, col, Token::Or);
                }
                tokens.push((col, Token::Or));
                col = col + 2;
            } else {
                return Err(InvalidToken {
                    column: col + 1,
                    expect: Expected::OrOperator,
                    found: if line[col + 1] == 0 {
                        None
                    } else {
                        Some(line[col + 1])
                    },
                });
            }
        } else if c == 0x26 {
            if line[col + 1] == 0x26 {
                proof {
                    lemma_nul_step(l, col + 1);
                    lemma_toks_push(tokens@, col, Token::And);
                }
                tokens.push((col, Token::And));
                col = col + 2;
            } else {
                return Err(InvalidToken {
                    column: col + 1,
                    expect: Expected::AndOperator,
                    found: if line[col + 1] == 0 {
                        None
                    } else {
                        Some(line[col + 1])
                    },
                });
            }
        } else if c == 0x2E {
            if line[col + 1] == 0x2E {
                proof {
                    lemma_nul_step(l, col + 1);
                }
                if line[col + 2] == 0x2E {
                    return Ok(TokenStream { complete: false, tokens });
                } else {
                    return Err(InvalidToken {
                        column: col + 2,
                        expect: Expected::WrapToken,
                        found: if line[col + 2] == 0 {
                            None
                        } else {
                            Some(line[col + 2])
                        },
                    });
                }
            } else {
                return Err(InvalidToken {
                    column: col + 1,
                    expect: Expected::WrapToken,
                    found: if line[col + 1] == 0 {
                        None
                    } else {
                        Some(line[col + 1])
                    },
                });
            }
        } else if c == 0x28 {
            proof {
                lemma_toks_push(tokens@, col, Token::LParen);
            }
            tokens.push((col, Token::LParen));
            col = col + 1;
        } else if c == 0x29 {
            proof {
                lemma_toks_push(tokens@, col, Token::RParen);
            }
            tokens.push((col, Token::RParen));
            col = col + 1;
        } else if c == 0x5E {
            proof {
                lemma_toks_push(tokens@, col, Token::Caret);
            }
            tokens.push((col, Token::Caret));
            col = col + 1;
        } else if c == 0x2A {
            proof {
                lemma_toks_push(tokens@, col, Token::Md(MulDivOp::Mul));
            }
            tokens.push((col, Token::Md(MulDivOp::Mul)));
            col = col + 1;
        } else if c == 0x2F {
            proof {
                lemma_toks_push(tokens@, col, Token::Md(MulDivOp::Div));
            }
            tokens.push((col, Token::Md(MulDivOp::Div)));
            col = col + 1;
        } else if c == 0x2B {
            proof {
                lemma_toks_push(tokens@, col, Token::Pn(AddSubOp::Plus));
            }
            tokens.push((col, Token::Pn(AddSubOp::Plus)));
            col = col + 1;
        } else if c == 0x2D {
            proof {
                lemma_toks_push(tokens@, col, Token::Pn(AddSubOp::Minus));
            }
            tokens.push((col, Token::Pn(AddSubOp::Minus)));
            col = col + 1;
        } else if c == 0x3F {
            proof {
                lemma_toks_push(tokens@, col, Token::Question);
            }
            tokens.push((col, Token::Question));
            col = col + 1;
        } else if c == 0x3A {
            proof {
                lemma_toks_push(tokens@, col, Token::Colon);
            }
            tokens.push((col, Token::Colon));
            col = col + 1;
        } else if c == 0x2C {
            proof {
                lemma_toks_push(tokens@, col, Token::Comma);
            }
            tokens.push((col, Token::Comma));
            col = col + 1;
        } else {
            return Err(InvalidToken { column: col, expect: Expected::ValidToken, found: Some(c) });
        }
    }
}

} // verus!
