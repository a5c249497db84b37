use vstd::prelude::*;
use crate::lexer::{AddSubOp, CompareOp, Ident, MulDivOp, Token, TokenV, token_view};
use crate::num::Real;

verus! {

/// The concrete syntax of one statement, one typed variant per grammar rule
/// family: an assignment `name = expr`, a function definition
/// `name: params = expr`, or a bare expression.
pub enum Ast {
    Assign(Ident, Box<AstExpr>),
    Define(Ident, Vec<Ident>, Box<AstExpr>),
    Bare(Box<AstExpr>),
}

/// The concrete syntax of an expression.
pub enum AstExpr {
    Not(Box<AstExpr>),
    Sign(AddSubOp, Box<AstExpr>),
    Pow(Box<AstExpr>, Box<AstExpr>),
    MulDiv(MulDivOp, Box<AstExpr>, Box<AstExpr>),
    AddSub(AddSubOp, Box<AstExpr>, Box<AstExpr>),
    Rel(CompareOp, Box<AstExpr>, Box<AstExpr>),
    Or(Box<AstExpr>, Box<AstExpr>),
    And(Box<AstExpr>, Box<AstExpr>),
    Ternary(Box<AstExpr>, Box<AstExpr>, Box<AstExpr>),
    Call(Ident, Vec<AstExpr>),
    Name(Ident),
    Lit(Real),
}

/// A symbol on the parse stack: a shifted token or a completed nonterminal
/// (expression, variable list, parameter list, statement).
pub enum Sym {
    Tok(Token),
    Expr(Box<AstExpr>),
    Vars(Vec<Ident>),
    Params(Vec<AstExpr>),
    Stmt(Ast),
}

// ---------------------------------------------------------------------------
// The mathematical model of the syntax and of the automaton.

/// The model of a statement, with sequences in place of vectors.
pub enum AstV {
    Assign(Seq<u8>, Box<AstExprV>),
    Define(Seq<u8>, Seq<Seq<u8>>, Box<AstExprV>),
    Bare(Box<AstExprV>),
}

pub enum AstExprV {
    Not(Box<AstExprV>),
    Sign(AddSubOp, Box<AstExprV>),
    Pow(Box<AstExprV>, Box<AstExprV>),
    MulDiv(MulDivOp, Box<AstExprV>, Box<AstExprV>),
    AddSub(AddSubOp, Box<AstExprV>, Box<AstExprV>),
    Rel(CompareOp, Box<AstExprV>, Box<AstExprV>),
    Or(Box<AstExprV>, Box<AstExprV>),
    And(Box<AstExprV>, Box<AstExprV>),
    Ternary(Box<AstExprV>, Box<AstExprV>, Box<AstExprV>),
    Call(Seq<u8>, Seq<AstExprV>),
    Name(Seq<u8>),
    Lit(Real),
}

pub open spec fn idents_view(s: Seq<Ident>) -> Seq<Seq<u8>> {
    s.map_values(|v: Ident| v@)
}

pub open spec fn ast_expr_view(e: AstExpr) -> AstExprV
    decreases e,
{
    match e {
        AstExpr::Not(e1) => AstExprV::Not(Box::new(ast_expr_view(*e1))),
        AstExpr::Sign(op, e1) => AstExprV::Sign(op, Box::new(ast_expr_view(*e1))),
        AstExpr::Pow(e1, e2) => AstExprV::Pow(
            Box::new(ast_expr_view(*e1)),
            Box::new(ast_expr_view(*e2)),
        ),
        AstExpr::MulDiv(op, e1, e2) => AstExprV::MulDiv(
            op,
            Box::new(ast_expr_view(*e1)),
            Box::new(ast_expr_view(*e2)),
        ),
        AstExpr::AddSub(op, e1, e2) => AstExprV::AddSub(
            op,
            Box::new(ast_expr_view(*e1)),
            Box::new(ast_expr_view(*e2)),
        ),
        AstExpr::Rel(op, e1, e2) => AstExprV::Rel(
            op,
            Box::new(ast_expr_view(*e1)),
            Box::new(ast_expr_view(*e2)),
        ),
        AstExpr::Or(e1, e2) => AstExprV::Or(
            Box::new(ast_expr_view(*e1)),
            Box::new(ast_expr_view(*e2)),
        ),
        AstExpr::And(e1, e2) => AstExprV::And(
            Box::new(ast_expr_view(*e1)),
            Box::new(ast_expr_view(*e2)),
        ),
        AstExpr::Ternary(c, e1, e2) => AstExprV::Ternary(
            Box::new(ast_expr_view(*c)),
            Box::new(ast_expr_view(*e1)),
            Box::new(ast_expr_view(*e2)),
        ),
        AstExpr::Call(name, args) => AstExprV::Call(name@, ast_expr_list_view(args@)),
        AstExpr::Name(x) => AstExprV::Name(x@),
        AstExpr::Lit(n) => AstExprV::Lit(n),
    }
}

pub open spec fn ast_expr_list_view(s: Seq<AstExpr>) -> Seq<AstExprV>
    decreases s,
{
    if s.len() == 0 {
        Seq::empty()
    } else {
        seq![ast_expr_view(s[0])] + ast_expr_list_view(s.drop_first())
    }
}

pub open spec fn ast_view(a: Ast) -> AstV {
    match a {
        Ast::Assign(n, e) => AstV::Assign(n@, Box::new(ast_expr_view(*e))),
        Ast::Define(n, vs, e) => AstV::Define(n@, idents_view(vs@), Box::new(ast_expr_view(*e))),
        Ast::Bare(e) => AstV::Bare(Box::new(ast_expr_view(*e))),
    }
}

/// The model of a parse-stack symbol.
pub enum SymV {
    Tok(TokenV),
    Expr(AstExprV),
    Vars(Seq<Seq<u8>>),
    Params(Seq<AstExprV>),
    Stmt(AstV),
}

pub open spec fn sym_view(s: Sym) -> SymV {
    match s {
        Sym::Tok(t) => SymV::Tok(token_view(t)),
        Sym::Expr(e) => SymV::Expr(ast_expr_view(*e)),
        Sym::Vars(v) => SymV::Vars(idents_view(v@)),
        Sym::Params(p) => SymV::Params(ast_expr_list_view(p@)),
        Sym::Stmt(a) => SymV::Stmt(ast_view(a)),
    }
}

pub open spec fn syms_view(s: Seq<Sym>) -> Seq<SymV> {
    s.map_values(|x: Sym| sym_view(x))
}

/// A coarse grammar rank of a stack symbol: tokens reduce to expressions,
/// expressions to lists, lists to statements, and never the other way
/// around.  The rank bounds the reduce cascades: a one-symbol reduction
/// always strictly lowers the rank of the stack's top.
pub open spec fn sym_rank(s: SymV) -> int {
    match s {
        SymV::Tok(_) => 3,
        SymV::Expr(_) => 2,
        SymV::Vars(_) => 1,
        SymV::Params(_) => 1,
        SymV::Stmt(_) => 0,
    }
}

/// A termination measure for a run of reductions: reducing two or more
/// symbols to one shrinks the stack, reducing one symbol to one lowers its
/// rank.
pub open spec fn syms_measure(s: Seq<SymV>) -> int {
    3 * s.len() + (if s.len() > 0 {
        sym_rank(s.last())
    } else {
        0
    })
}

/// The whole state of the automaton: the state stack, the current state,
/// and the stack of recognized symbols.
pub struct ParserV {
    pub stack: Seq<u16>,
    pub top: u16,
    pub syms: Seq<SymV>,
}

/// The automaton's starting state.
pub open spec fn init_parser() -> ParserV {
    ParserV { stack: Seq::empty(), top: 0, syms: Seq::empty() }
}

/// The class of a token: the column of the action table it selects.
pub open spec fn tok_class(t: TokenV) -> u16 {
    match t {
        TokenV::Ident(_) => 0,
        TokenV::Num(_) => 1,
        TokenV::Assign => 2,
        TokenV::LParen => 3,
        TokenV::RParen => 4,
        TokenV::Bang => 5,
        TokenV::Caret => 6,
        TokenV::Md(_) => 7,
        TokenV::Pn(_) => 8,
        TokenV::Rel(_) => 9,
        TokenV::Or => 10,
        TokenV::And => 11,
        TokenV::Question => 12,
        TokenV::Colon => 13,
        TokenV::Comma => 14,
    }
}

pub(crate) fn tok_id(t: &Token) -> (id: u16)
    ensures
        id < 15,
        id == tok_class(token_view(*t)),
{
    match t {
        Token::Ident(_) => 0,
        Token::Num(_) => 1,
        Token::Assign => 2,
        Token::LParen => 3,
        Token::RParen => 4,
        Token::Bang => 5,
        Token::Caret => 6,
        Token::Md(_) => 7,
        Token::Pn(_) => 8,
        Token::Rel(_) => 9,
        Token::Or => 10,
        Token::And => 11,
        Token::Question => 12,
        Token::Colon => 13,
        Token::Comma => 14,
    }
}

/// The action table as a mathematical function; this is the authoritative
/// encoding of the grammar, its precedence and its associativity: logical
/// not binds tightest, then the right-associative exponent (which reaches
/// inside a unary sign: -2^2 is -(2^2)), unary sign, multiplication,
/// addition, comparison, logical and, logical or, and the right-associative
/// ternary, loosest of all.
pub open spec fn action_spec(state: u16, tok: u16) -> int {
    if state == 0 {
        if tok == 0 {
            3
        } else if tok == 1 {
            4
        } else if tok == 3 {
            5
        } else if tok == 5 {
            6
        } else if tok == 8 {
            7
        } else {
            0
        }
    } else if state == 2 || state == 29 || state == 42 {
        if tok == 6 {
            8
        } else if tok == 7 {
            9
        } else if tok == 8 {
            10
        } else if tok == 9 {
            11
        } else if tok == 10 {
            12
        } else if tok == 11 {
            13
        } else if tok == 12 {
            14
        } else {
            0
        }
    } else if state == 3 {
        if tok == 2 {
            15
        } else if tok == 3 {
            16
        } else if tok == 6 || tok == 7 || tok == 8 || tok == 9 || tok == 10 || tok == 11 || tok == 12 {
            -18
        } else if tok == 13 {
            17
        } else {
            0
        }
    } else if state == 4 {
        if tok == 4 || tok == 6 || tok == 7 || tok == 8 || tok == 9 || tok == 10 || tok == 11 || tok == 12 || tok == 13 || tok == 14 {
            -19
        } else {
            0
        }
    } else if state == 5 || state == 6 || state == 7 || state == 8 || state == 9 || state == 10 || state == 11 || state == 12 || state == 13 || state == 14 || state == 15 || state == 16 || state == 35 || state == 37 || state == 38 {
        if tok == 0 {
            19
        } else if tok == 1 {
            4
        } else if tok == 3 {
            5
        } else if tok == 5 {
            6
        } else if tok == 8 {
            7
        } else {
            0
        }
    } else if state == 17 {
        if tok == 0 {
            33
        } else {
            0
        }
    } else if state == 18 {
        if tok == 4 {
            34
        } else if tok == 6 {
            8
        } else if tok == 7 {
            9
        } else if tok == 8 {
            10
        } else if tok == 9 {
            11
        } else if tok == 10 {
            12
        } else if tok == 11 {
            13
        } else if tok == 12 {
            14
        } else {
            0
        }
    } else if state == 19 {
        if tok == 3 {
            16
        } else if tok == 4 || tok == 6 || tok == 7 || tok == 8 || tok == 9 || tok == 10 || tok == 11 || tok == 12 || tok == 13 || tok == 14 {
            -18
        } else {
            0
        }
    } else if state == 20 {
        if tok == 4 || tok == 6 || tok == 7 || tok == 8 || tok == 9 || tok == 10 || tok == 11 || tok == 12 || tok == 13 || tok == 14 {
            -8
        } else {
            0
        }
    } else if state == 21 {
        if tok == 4 || tok == 7 || tok == 8 || tok == 9 || tok == 10 || tok == 11 || tok == 12 || tok == 13 || tok == 14 {
            -9
        } else if tok == 6 {
            8
        } else {
            0
        }
    } else if state == 22 {
        if tok == 4 || tok == 7 || tok == 8 || tok == 9 || tok == 10 || tok == 11 || tok == 12 || tok == 13 || tok == 14 {
            -10
        } else if tok == 6 {
            8
        } else {
            0
        }
    } else if state == 23 {
        if tok == 4 || tok == 7 || tok == 8 || tok == 9 || tok == 10 || tok == 11 || tok == 12 || tok == 13 || tok == 14 {
            -11
        } else if tok == 6 {
            8
        } else {
            0
        }
    } else if state == 24 {
        if tok == 4 || tok == 8 || tok == 9 || tok == 10 || tok == 11 || tok == 12 || tok == 13 || tok == 14 {
            -12
        } else if tok == 6 {
            8
        } else if tok == 7 {
            9
        } else {
            0
        }
    } else if state == 25 {
        if tok == 4 || tok == 9 || tok == 10 || tok == 11 || tok == 12 || tok == 13 || tok == 14 {
            -13
        } else if tok == 6 {
            8
        } else if tok == 7 {
            9
        } else if tok == 8 {
            10
        } else {
            0
        }
    } else if state == 26 {
        if tok == 4 || tok == 10 || tok == 12 || tok == 13 || tok == 14 {
            -14
        } else if tok == 6 {
            8
        } else if tok == 7 {
            9
        } else if tok == 8 {
            10
        } else if tok == 9 {
            11
        } else if tok == 11 {
            13
        } else {
            0
        }
    } else if state == 27 {
        if tok == 4 || tok == 10 || tok == 11 || tok == 12 || tok == 13 || tok == 14 {
            -15
        } else if tok == 6 {
            8
        } else if tok == 7 {
            9
        } else if tok == 8 {
            10
        } else if tok == 9 {
            11
        } else {
            0
        }
    } else if state == 28 {
        if tok == 6 {
            8
        } else if tok == 7 {
            9
        } else if tok == 8 {
            10
        } else if tok == 9 {
            11
        } else if tok == 10 {
            12
        } else if tok == 11 {
            13
        } else if tok == 12 {
            14
        } else if tok == 13 {
            35
        } else {
            0
        }
    } else if state == 30 {
        if tok == 4 || tok == 14 {
            -21
        } else if tok == 6 {
            8
        } else if tok == 7 {
            9
        } else if tok == 8 {
            10
        } else if tok == 9 {
            11
        } else if tok == 10 {
            12
        } else if tok == 11 {
            13
        } else if tok == 12 {
            14
        } else {
            0
        }
    } else if state == 31 {
        if tok == 4 {
            36
        } else if tok == 14 {
            37
        } else {
            0
        }
    } else if state == 32 {
        if tok == 2 {
            38
        } else if tok == 14 {
            39
        } else {
            0
        }
    } else if state == 33 {
        if tok == 2 || tok == 14 {
            -6
        } else {
            0
        }
    } else if state == 34 {
        if tok == 4 || tok == 6 || tok == 7 || tok == 8 || tok == 9 || tok == 10 || tok == 11 || tok == 12 || tok == 13 || tok == 14 {
            -7
        } else {
            0
        }
    } else if state == 36 {
        if tok == 4 || tok == 6 || tok == 7 || tok == 8 || tok == 9 || tok == 10 || tok == 11 || tok == 12 || tok == 13 || tok == 14 {
            -17
        } else {
            0
        }
    } else if state == 39 {
        if tok == 0 {
            43
        } else {
            0
        }
    } else if state == 40 {
        if tok == 4 || tok == 13 || tok == 14 {
            -16
        } else if tok == 6 {
            8
        } else if tok == 7 {
            9
        } else if tok == 8 {
            10
        } else if tok == 9 {
            11
        } else if tok == 10 {
            12
        } else if tok == 11 {
            13
        } else if tok == 12 {
            14
        } else {
            0
        }
    } else if state == 41 {
        if tok == 4 || tok == 14 {
            -20
        } else if tok == 6 {
            8
        } else if tok == 7 {
            9
        } else if tok == 8 {
            10
        } else if tok == 9 {
            11
        } else if tok == 10 {
            12
        } else if tok == 11 {
            13
        } else if tok == 12 {
            14
        } else {
            0
        }
    } else if state == 43 {
        if tok == 2 || tok == 14 {
            -5
        } else {
            0
        }
    } else {
        0
    }
}

/// The shift-reduce action table: for a state and a token class, a positive
/// entry shifts to that state, a negative entry reduces by that grammar
/// rule, and zero rejects the token.
pub(crate) fn action_of(state: u16, tok: u16) -> (act: i16)
    requires
        tok < 15,
    ensures
        -21 <= act <= 43,
        act as int == action_spec(state, tok),
{
    match state {
        0 => match tok {
            0 => 3,
            1 => 4,
            3 => 5,
            5 => 6,
            8 => 7,
            _ => 0,
        },
        2 | 29 | 42 => match tok {
            6 => 8,
            7 => 9,
            8 => 10,
            9 => 11,
            10 => 12,
            11 => 13,
            12 => 14,
            _ => 0,
        },
        3 => match tok {
            2 => 15,
            3 => 16,
            6 | 7 | 8 | 9 | 10 | 11 | 12 => -18,
            13 => 17,
            _ => 0,
        },
        4 => match tok {
            4 | 6 | 7 | 8 | 9 | 10 | 11 | 12 | 13 | 14 => -19,
            _ => 0,
        },
        5 | 6 | 7 | 8 | 9 | 10 | 11 | 12 | 13 | 14 | 15 | 16 | 35 | 37 | 38 => match tok {
            0 => 19,
            1 => 4,
            3 => 5,
            5 => 6,
            8 => 7,
            _ => 0,
        },
        17 => match tok {
            0 => 33,
            _ => 0,
        },
        18 => match tok {
            4 => 34,
            6 => 8,
            7 => 9,
            8 => 10,
            9 => 11,
            10 => 12,
            11 => 13,
            12 => 14,
            _ => 0,
        },
        19 => match tok {
            3 => 16,
            4 | 6 | 7 | 8 | 9 | 10 | 11 | 12 | 13 | 14 => -18,
            _ => 0,
        },
        20 => match tok {
            4 | 6 | 7 | 8 | 9 | 10 | 11 | 12 | 13 | 14 => -8,
            _ => 0,
        },
        21 => match tok {
            4 | 7 | 8 | 9 | 10 | 11 | 12 | 13 | 14 => -9,
            6 => 8,
            _ => 0,
        },
        22 => match tok {
            4 | 7 | 8 | 9 | 10 | 11 | 12 | 13 | 14 => -10,
            6 => 8,
            _ => 0,
        },
        23 => match tok {
            4 | 7 | 8 | 9 | 10 | 11 | 12 | 13 | 14 => -11,
            6 => 8,
            _ => 0,
        },
        24 => match tok {
            4 | 8 | 9 | 10 | 11 | 12 | 13 | 14 => -12,
            6 => 8,
            7 => 9,
            _ => 0,
        },
        25 => match tok {
            4 | 9 | 10 | 11 | 12 | 13 | 14 => -13,
            6 => 8,
            7 => 9,
            8 => 10,
            _ => 0,
        },
        26 => match tok {
            4 | 10 | 12 | 13 | 14 => -14,
            6 => 8,
            7 => 9,
            8 => 10,
            9 => 11,
            11 => 13,
            _ => 0,
        },
        27 => match tok {
            4 | 10 | 11 | 12 | 13 | 14 => -15,
            6 => 8,
            7 => 9,
            8 => 10,
            9 => 11,
            _ => 0,
        },
        28 => match tok {
            6 => 8,
            7 => 9,
            8 => 10,
            9 => 11,
            10 => 12,
            11 => 13,
            12 => 14,
            13 => 35,
            _ => 0,
        },
        30 => match tok {
            4 | 14 => -21,
            6 => 8,
            7 => 9,
            8 => 10,
            9 => 11,
            10 => 12,
            11 => 13,
            12 => 14,
            _ => 0,
        },
        31 => match tok {
            4 => 36,
            14 => 37,
            _ => 0,
        },
        32 => match tok {
            2 => 38,
            14 => 39,
            _ => 0,
        },
        33 => match tok {
            2 | 14 => -6,
            _ => 0,
        },
        34 => match tok {
            4 | 6 | 7 | 8 | 9 | 10 | 11 | 12 | 13 | 14 => -7,
            _ => 0,
        },
        36 => match tok {
            4 | 6 | 7 | 8 | 9 | 10 | 11 | 12 | 13 | 14 => -17,
            _ => 0,
        },
        39 => match tok {
            0 => 43,
            _ => 0,
        },
        40 => match tok {
            4 | 13 | 14 => -16,
            6 => 8,
            7 => 9,
            8 => 10,
            9 => 11,
            10 => 12,
            11 => 13,
            12 => 14,
            _ => 0,
        },
        41 => match tok {
            4 | 14 => -20,
            6 => 8,
            7 => 9,
            8 => 10,
            9 => 11,
            10 => 12,
            11 => 13,
            12 => 14,
            _ => 0,
        },
        43 => match tok {
            2 | 14 => -5,
            _ => 0,
        },
        _ => 0,
    }
}

/// How many symbols each grammar rule's reduction consumes.
pub open spec fn rule_len_spec(id: u16) -> int {
    if id == 6 || id == 18 || id == 19 || id == 21 {
        1
    } else if id == 8 || id == 9 {
        2
    } else if id == 17 {
        4
    } else if id == 4 || id == 16 {
        5
    } else {
        3
    }
}

pub(crate) fn rule_len(id: u16) -> (n: usize)
    ensures
        n as int == rule_len_spec(id),
        1 <= n <= 5,
{
    match id {
        6 | 18 | 19 | 21 => 1,
        8 | 9 => 2,
        17 => 4,
        4 | 16 => 5,
        _ => 3,
    }
}

/// The goto table: the state entered after a reduction, determined by the
/// rule and the state under the reduced symbols.  `None` marks a pair the
/// grammar never produces.
pub open spec fn goto_spec(under: u16, id: u16) -> Option<u16> {
    if 7 <= id && id < 20 {
        if 6 <= under && under < 17 {
            Some((under + 14) as u16)
        } else if under == 0 {
            Some(2u16)
        } else if under == 5 {
            Some(18u16)
        } else if under == 35 {
            Some(40u16)
        } else if under == 37 {
            Some(41u16)
        } else if under == 38 {
            Some(42u16)
        } else {
            None
        }
    } else if (id == 3 || id == 4) && under == 0 {
        Some(1u16)
    } else if (id == 5 || id == 6) && under == 17 {
        Some(32u16)
    } else if (id == 20 || id == 21) && under == 16 {
        Some(31u16)
    } else {
        None
    }
}

pub(crate) fn goto_of(under: u16, id: u16) -> (r: Option<u16>)
    ensures
        r == goto_spec(under, id),
{
    if 7 <= id && id < 20 {
        if 6 <= under && under < 17 {
            Some(under + 14)
        } else {
            match under {
                0 => Some(2),
                5 => Some(18),
                35 => Some(40),
                37 => Some(41),
                38 => Some(42),
                _ => None,
            }
        }
    } else {
        match (id, under) {
            (3, 0) => Some(1),
            (4, 0) => Some(1),
            (5, 17) => Some(32),
            (6, 17) => Some(32),
            (20, 16) => Some(31),
            (21, 16) => Some(31),
            _ => None,
        }
    }
}

/// The typed node one reduction builds from the top `rule_len` symbols, or
/// `None` when the stack does not hold what the rule expects.
pub open spec fn make_node(syms: Seq<SymV>, id: u16) -> Option<SymV> {
    let n = syms.len() as int;
    if id == 3 {
        match (syms[n - 3], syms[n - 1]) {
            (SymV::Tok(TokenV::Ident(nm)), SymV::Expr(ev)) => Some(
                SymV::Stmt(AstV::Assign(nm, Box::new(ev))),
            ),
            _ => None,
        }
    } else if id == 4 {
        match (syms[n - 5], syms[n - 3], syms[n - 1]) {
            (SymV::Tok(TokenV::Ident(nm)), SymV::Vars(vv), SymV::Expr(ev)) => Some(
                SymV::Stmt(AstV::Define(nm, vv, Box::new(ev))),
            ),
            _ => None,
        }
    } else if id == 5 {
        match (syms[n - 3], syms[n - 1]) {
            (SymV::Vars(vv), SymV::Tok(TokenV::Ident(xv))) => Some(SymV::Vars(vv.push(xv))),
            _ => None,
        }
    } else if id == 6 {
        match syms[n - 1] {
            SymV::Tok(TokenV::Ident(xv)) => Some(SymV::Vars(seq![xv])),
            _ => None,
        }
    } else if id == 7 {
        match syms[n - 2] {
            SymV::Expr(ev) => Some(SymV::Expr(ev)),
            _ => None,
        }
    } else if id == 8 {
        match syms[n - 1] {
            SymV::Expr(ev) => Some(SymV::Expr(AstExprV::Not(Box::new(ev)))),
            _ => None,
        }
    } else if id == 9 {
        match (syms[n - 2], syms[n - 1]) {
            (SymV::Tok(TokenV::Pn(op)), SymV::Expr(ev)) => Some(
                SymV::Expr(AstExprV::Sign(op, Box::new(ev))),
            ),
            _ => None,
        }
    } else if id == 10 {
        match (syms[n - 3], syms[n - 1]) {
            (SymV::Expr(e1), SymV::Expr(e2)) => Some(
                SymV::Expr(AstExprV::Pow(Box::new(e1), Box::new(e2))),
            ),
            _ => None,
        }
    } else if id == 11 {
        match (syms[n - 3], syms[n - 2], syms[n - 1]) {
            (SymV::Expr(e1), SymV::Tok(TokenV::Md(op)), SymV::Expr(e2)) => Some(
                SymV::Expr(AstExprV::MulDiv(op, Box::new(e1), Box::new(e2))),
            ),
            _ => None,
        }
    } else if id == 12 {
        match (syms[n - 3], syms[n - 2], syms[n - 1]) {
            (SymV::Expr(e1), SymV::Tok(TokenV::Pn(op)), SymV::Expr(e2)) => Some(
                SymV::Expr(AstExprV::AddSub(op, Box::new(e1), Box::new(e2))),
            ),
            _ => None,
        }
    } else if id == 13 {
        match (syms[n - 3], syms[n - 2], syms[n - 1]) {
            (SymV::Expr(e1), SymV::Tok(TokenV::Rel(op)), SymV::Expr(e2)) => Some(
                SymV::Expr(AstExprV::Rel(op, Box::new(e1), Box::new(e2))),
            ),
            _ => None,
        }
    } else if id == 14 {
        match (syms[n - 3], syms[n - 1]) {
            (SymV::Expr(e1), SymV::Expr(e2)) => Some(
                SymV::Expr(AstExprV::Or(Box::new(e1), Box::new(e2))),
            ),
            _ => None,
        }
    } else if id == 15 {
        match (syms[n - 3], syms[n - 1]) {
            (SymV::Expr(e1), SymV::Expr(e2)) => Some(
                SymV::Expr(AstExprV::And(Box::new(e1), Box::new(e2))),
            ),
            _ => None,
        }
    } else if id == 16 {
        match (syms[n - 5], syms[n - 3], syms[n - 1]) {
            (SymV::Expr(c), SymV::Expr(e1), SymV::Expr(e2)) => Some(
                SymV::Expr(AstExprV::Ternary(Box::new(c), Box::new(e1), Box::new(e2))),
            ),
            _ => None,
        }
    } else if id == 17 {
        match (syms[n - 4], syms[n - 2]) {
            (SymV::Tok(TokenV::Ident(nm)), SymV::Params(ps)) => Some(
                SymV::Expr(AstExprV::Call(nm, ps)),
            ),
            _ => None,
        }
    } else if id == 18 {
        match syms[n - 1] {
            SymV::Tok(TokenV::Ident(xv)) => Some(SymV::Expr(AstExprV::Name(xv))),
            _ => None,
        }
    } else if id == 19 {
        match syms[n - 1] {
            SymV::Tok(TokenV::Num(v)) => Some(SymV::Expr(AstExprV::Lit(v))),
            _ => None,
        }
    } else if id == 20 {
        match (syms[n - 3], syms[n - 1]) {
            (SymV::Params(ps), SymV::Expr(ev)) => Some(SymV::Params(ps.push(ev))),
            _ => None,
        }
    } else if id == 21 {
        match syms[n - 1] {
            SymV::Expr(ev) => Some(SymV::Params(seq![ev])),
            _ => None,
        }
    } else {
        None
    }
}

/// One reduction of the automaton: the state under the rule is uncovered,
/// the typed node replaces the rule's symbols, and the goto table names the
/// next state.  `None` is a reject.
pub open spec fn reduce_spec(p: ParserV, id: u16) -> Option<ParserV> {
    let len = rule_len_spec(id);
    let stack1 = p.stack.push(p.top);
    if stack1.len() < len || p.syms.len() < len {
        None
    } else {
        let stack2 = stack1.subrange(0, stack1.len() - len);
        match make_node(p.syms, id) {
            None => None,
            Some(node) => {
                let syms2 = p.syms.subrange(0, p.syms.len() - len).push(node);
                if stack2.len() == 0 {
                    None
                } else {
                    match goto_spec(stack2.last(), id) {
                        None => None,
                        Some(next) => Some(ParserV { stack: stack2, top: next, syms: syms2 }),
                    }
                }
            },
        }
    }
}

/// Every successful reduction lowers the symbol-stack measure, which bounds
/// the reduce cascades.
pub proof fn lemma_reduce_measure(p: ParserV, id: u16)
    ensures
        reduce_spec(p, id) matches Some(p2) ==> syms_measure(p2.syms) < syms_measure(p.syms),
{
    if reduce_spec(p, id) is Some {
        let len = rule_len_spec(id);
        let n = p.syms.len() as int;
        let node = make_node(p.syms, id)->0;
        let syms2 = p.syms.subrange(0, n - len).push(node);
        assert(syms2.last() == node);
        assert(sym_rank(node) <= 2);
        if len == 1 {
            assert(p.syms.last() == p.syms[n - 1]);
            if id == 6 || id == 18 || id == 19 {
                assert(sym_rank(p.syms[n - 1]) == 3);
            } else {
                assert(sym_rank(p.syms[n - 1]) == 2);
            }
        }
    }
}

/// Feeding one token: reduce as long as the table says to (the cascade),
/// then either shift the token or reject it.
pub open spec fn feed_spec(p: ParserV, t: TokenV) -> Option<ParserV>
    decreases syms_measure(p.syms),
    via feed_spec_dec
{
    let act = action_spec(p.top, tok_class(t));
    if act > 0 {
        Some(
            ParserV {
                stack: p.stack.push(p.top),
                top: act as u16,
                syms: p.syms.push(SymV::Tok(t)),
            },
        )
    } else if act == 0 {
        None
    } else {
        match reduce_spec(p, (-act) as u16) {
            None => None,
            Some(p2) => feed_spec(p2, t),
        }
    }
}

#[via_fn]
proof fn feed_spec_dec(p: ParserV, t: TokenV) {
    let act = action_spec(p.top, tok_class(t));
    if act < 0 {
        lemma_reduce_measure(p, (-act) as u16);
    }
}

/// Feeding a whole stream of (column, token) pairs: the state after all of
/// them, or the column of the first rejected token.
pub open spec fn feed_all(p: ParserV, toks: Seq<(int, TokenV)>) -> Result<ParserV, int>
    decreases toks.len(),
{
    if toks.len() == 0 {
        Ok(p)
    } else {
        match feed_spec(p, toks[0].1) {
            None => Err(toks[0].0),
            Some(p2) => feed_all(p2, toks.drop_first()),
        }
    }
}

/// The closing reduction the end of input calls for in each state, if any.
pub open spec fn accept_rid(top: u16) -> Option<u16> {
    if top == 3 || top == 19 {
        Some(18u16)
    } else if top == 4 {
        Some(19u16)
    } else if top == 20 {
        Some(8u16)
    } else if top == 21 {
        Some(9u16)
    } else if top == 22 {
        Some(10u16)
    } else if top == 23 {
        Some(11u16)
    } else if top == 24 {
        Some(12u16)
    } else if top == 25 {
        Some(13u16)
    } else if top == 26 {
        Some(14u16)
    } else if top == 27 {
        Some(15u16)
    } else if top == 29 {
        Some(3u16)
    } else if top == 30 {
        Some(21u16)
    } else if top == 34 {
        Some(7u16)
    } else if top == 36 {
        Some(17u16)
    } else if top == 40 {
        Some(16u16)
    } else if top == 42 {
        Some(4u16)
    } else {
        None
    }
}

/// Ending the statement: the closing reductions are applied until the
/// automaton accepts, and the single completed statement (or bare
/// expression) is the parse; `None` is a syntax error at end of input.
pub open spec fn accept_spec(p: ParserV) -> Option<AstV>
    decreases syms_measure(p.syms),
    via accept_spec_dec
{
    if p.top == 1 || p.top == 2 {
        if p.syms.len() != 1 {
            None
        } else {
            match p.syms.last() {
                SymV::Stmt(a) => Some(a),
                SymV::Expr(e) => Some(AstV::Bare(Box::new(e))),
                _ => None,
            }
        }
    } else {
        match accept_rid(p.top) {
            None => None,
            Some(rid) => match reduce_spec(p, rid) {
                None => None,
                Some(p2) => accept_spec(p2),
            },
        }
    }
}

#[via_fn]
proof fn accept_spec_dec(p: ParserV) {
    if !(p.top == 1 || p.top == 2) {
        match accept_rid(p.top) {
            Some(rid) => lemma_reduce_measure(p, rid),
            None => {},
        }
    }
}

proof fn lemma_syms_view_push(s: Seq<Sym>, x: Sym)
    ensures
        syms_view(s.push(x)) == syms_view(s).push(sym_view(x)),
{
    assert(syms_view(s.push(x)) =~= syms_view(s).push(sym_view(x)));
}

/// Builds the typed node for rules 3 to 9: pops the rule's symbols and
/// checks their kinds, exactly as `make_node` says.
#[verifier::rlimit(100)]
fn build_node_low(syms: &mut Vec<Sym>, id: u16) -> (r: Option<Sym>)
    requires
        3 <= id <= 9,
        old(syms)@.len() >= rule_len_spec(id),
    ensures
        match r {
            Some(nd) => {
                &&& make_node(syms_view(old(syms)@), id) == Some(sym_view(nd))
                &&& syms_view(final(syms)@) == syms_view(old(syms)@).subrange(
                    0,
                    old(syms)@.len() - rule_len_spec(id),
                )
            },
            None => make_node(syms_view(old(syms)@), id) is None,
        },
{
    let ghost p0 = syms_view(old(syms)@);
    let ghost n = p0.len() as int;
    let ghost lenm = rule_len_spec(id);
    let node: Sym = match id {
            3 => {
                let e = syms.pop().unwrap();
                let _assign = syms.pop().unwrap();
                let name = syms.pop().unwrap();
                let ghost ge = e;
                let ghost gname = name;
                match (name, e) {
                    (Sym::Tok(Token::Ident(name)), Sym::Expr(e)) => {
                        let nd = Sym::Stmt(Ast::Assign(name, e));
                        proof {
                            assert(p0[n - 1] == sym_view(ge));
                            assert(p0[n - 3] == sym_view(gname));
                            assert(make_node(p0, 3u16) == Some(sym_view(nd)));
                        }
                        nd
                    },
                    _ => {
                        proof {
                            assert(p0[n - 1] == sym_view(ge));
                            assert(p0[n - 3] == sym_view(gname));
                            assert(make_node(p0, 3u16) is None);
                        }
                        return None;
                    },
                }
            },
            4 => {
                let e = syms.pop().unwrap();
                let _assign = syms.pop().unwrap();
                let vars = syms.pop().unwrap();
                let _colon = syms.pop().unwrap();
                let name = syms.pop().unwrap();
                let ghost ge = e;
                let ghost gvars = vars;
                let ghost gname = name;
                match (name, vars, e) {
                    (Sym::Tok(Token::Ident(name)), Sym::Vars(vars), Sym::Expr(e)) => {
                        let nd = Sym::Stmt(Ast::Define(name, vars, e));
                        proof {
                            assert(p0[n - 1] == sym_view(ge));
                            assert(p0[n - 3] == sym_view(gvars));
                            assert(p0[n - 5] == sym_view(gname));
                            assert(make_node(p0, 4u16) == Some(sym_view(nd)));
                        }
                        nd
                    },
                    _ => {
                        proof {
                            assert(p0[n - 1] == sym_view(ge));
                            assert(p0[n - 3] == sym_view(gvars));
                            assert(p0[n - 5] == sym_view(gname));
                            assert(make_node(p0, 4u16) is None);
                        }
                        return None;
                    },
                }
            },
            5 => {
                let x = syms.pop().unwrap();
                let _comma = syms.pop().unwrap();
                let vars = syms.pop().unwrap();
                let ghost gx = x;
                let ghost gvars = vars;
                match (vars, x) {
                    (Sym::Vars(mut vars), Sym::Tok(Token::Ident(x))) => {
                        proof {
                            assert(idents_view(vars@.push(x)) =~= idents_view(vars@).push(x@));
                        }
                        vars.push(x);
                        let nd = Sym::Vars(vars);
                        proof {
                            assert(p0[n - 1] == sym_view(gx));
                            assert(p0[n - 3] == sym_view(gvars));
                            assert(make_node(p0, 5u16) == Some(sym_view(nd)));
                        }
                        nd
                    },
                    _ => {
                        proof {
                            assert(p0[n - 1] == sym_view(gx));
                            assert(p0[n - 3] == sym_view(gvars));
                            assert(make_node(p0, 5u16) is None);
                        }
                        return None;
                    },
                }
            },
            6 => {
                let x = syms.pop().unwrap();
                let ghost gx = x;
                match x {
                    Sym::Tok(Token::Ident(x)) => {
                        let ghost xv = x@;
                        let mut vars: Vec<Ident> = Vec::new();
                        vars.push(x);
                        let nd = Sym::Vars(vars);
                        proof {
                            assert(idents_view(vars@) =~= seq![xv]);
                            assert(p0[n - 1] == sym_view(gx));
                            assert(make_node(p0, 6u16) == Some(sym_view(nd)));
                        }
                        nd
                    },
                    _ => {
                        proof {
                            assert(p0[n - 1] == sym_view(gx));
                            assert(make_node(p0, 6u16) is None);
                        }
                        return None;
                    },
                }
            },
            7 => {
                let _rp = syms.pop().unwrap();
                let e = syms.pop().unwrap();
                let _lp = syms.pop().unwrap();
                let ghost ge = e;
                match e {
                    Sym::Expr(e) => {
                        let nd = Sym::Expr(e);
                        proof {
                            assert(p0[n - 2] == sym_view(ge));
                            assert(make_node(p0, 7u16) == Some(sym_view(nd)));
                        }
                        nd
                    },
                    _ => {
                        proof {
                            assert(p0[n - 2] == sym_view(ge));
                            assert(make_node(p0, 7u16) is None);
                        }
                        return None;
                    },
                }
            },
            8 => {
                let e = syms.pop().unwrap();
                let _bang = syms.pop().unwrap();
                let ghost ge = e;
                match e {
                    Sym::Expr(e) => {
                        let nd = Sym::Expr(Box::new(AstExpr::Not(e)));
                        proof {
                            assert(p0[n - 1] == sym_view(ge));
                            assert(make_node(p0, 8u16) == Some(sym_view(nd)));
                        }
                        nd
                    },
                    _ => {
                        proof {
                            assert(p0[n - 1] == sym_view(ge));
                            assert(make_node(p0, 8u16) is None);
                        }
                        return None;
                    },
                }
            },
            9 => {
                let e = syms.pop().unwrap();
                let pn = syms.pop().unwrap();
                let ghost ge = e;
                let ghost gpn = pn;
                match (pn, e) {
                    (Sym::Tok(Token::Pn(pn)), Sym::Expr(e)) => {
                        let nd = Sym::Expr(Box::new(AstExpr::Sign(pn, e)));
                        proof {
                            assert(p0[n - 1] == sym_view(ge));
                            assert(p0[n - 2] == sym_view(gpn));
                            assert(make_node(p0, 9u16) == Some(sym_view(nd)));
                        }
                        nd
                    },
                    _ => {
                        proof {
                            assert(p0[n - 1] == sym_view(ge));
                            assert(p0[n - 2] == sym_view(gpn));
                            assert(make_node(p0, 9u16) is None);
                        }
                        return None;
                    },
                }
            },
        _ => {
            return None;
        },
    };
    proof {
        assert(syms_view(syms@) =~= p0.subrange(0, n - lenm));
    }
    Some(node)
}

/// Builds the typed node for rules 10 to 16: pops the rule's symbols and
/// checks their kinds, exactly as `make_node` says.
#[verifier::rlimit(100)]
fn build_node_mid(syms: &mut Vec<Sym>, id: u16) -> (r: Option<Sym>)
    requires
        10 <= id <= 16,
        old(syms)@.len() >= rule_len_spec(id),
    ensures
        match r {
            Some(nd) => {
                &&& make_node(syms_view(old(syms)@), id) == Some(sym_view(nd))
                &&& syms_view(final(syms)@) == syms_view(old(syms)@).subrange(
                    0,
                    old(syms)@.len() - rule_len_spec(id),
                )
            },
            None => make_node(syms_view(old(syms)@), id) is None,
        },
{
    let ghost p0 = syms_view(old(syms)@);
    let ghost n = p0.len() as int;
    let ghost lenm = rule_len_spec(id);
    let node: Sym = match id {
            10 => {
                let e2 = syms.pop().unwrap();
                let _op = syms.pop().unwrap();
                let e1 = syms.pop().unwrap();
                let ghost ge2 = e2;
                let ghost ge1 = e1;
                match (e1, e2) {
                    (Sym::Expr(e1), Sym::Expr(e2)) => {
                        let nd = Sym::Expr(Box::new(AstExpr::Pow(e1, e2)));
                        proof {
                            assert(p0[n - 1] == sym_view(ge2));
                            assert(p0[n - 3] == sym_view(ge1));
                            assert(make_node(p0, 10u16) == Some(sym_view(nd)));
                        }
                        nd
                    },
                    _ => {
                        proof {
                            assert(p0[n - 1] == sym_view(ge2));
                            assert(p0[n - 3] == sym_view(ge1));
                            assert(make_node(p0, 10u16) is None);
                        }
                        return None;
                    },
                }
            },
            11 => {
                let e2 = syms.pop().unwrap();
                let op = syms.pop().unwrap();
                let e1 = syms.pop().unwrap();
                let ghost ge2 = e2;
                let ghost gop = op;
                let ghost ge1 = e1;
                match (op, e1, e2) {
                    (Sym::Tok(Token::Md(op)), Sym::Expr(e1), Sym::Expr(e2)) => {
                        let nd = Sym::Expr(Box::new(AstExpr::MulDiv(op, e1, e2)));
                        proof {
                            assert(p0[n - 1] == sym_view(ge2));
                            assert(p0[n - 2] == sym_view(gop));
                            assert(p0[n - 3] == sym_view(ge1));
                            assert(make_node(p0, 11u16) == Some(sym_view(nd)));
                        }
                        nd
                    },
                    _ => {
                        proof {
                            assert(p0[n - 1] == sym_view(ge2));
                            assert(p0[n - 2] == sym_view(gop));
                            assert(p0[n - 3] == sym_view(ge1));
                            assert(make_node(p0, 11u16) is None);
                        }
                        return None;
                    },
                }
            },
            12 => {
                let e2 = syms.pop().unwrap();
                let op = syms.pop().unwrap();
                let e1 = syms.pop().unwrap();
                let ghost ge2 = e2;
                let ghost gop = op;
                let ghost ge1 = e1;
                match (op, e1, e2) {
                    (Sym::Tok(Token::Pn(op)), Sym::Expr(e1), Sym::Expr(e2)) => {
                        let nd = Sym::Expr(Box::new(AstExpr::AddSub(op, e1, e2)));
                        proof {
                            assert(p0[n - 1] == sym_view(ge2));
                            assert(p0[n - 2] == sym_view(gop));
                            assert(p0[n - 3] == sym_view(ge1));
                            assert(make_node(p0, 12u16) == Some(sym_view(nd)));
                        }
                        nd
                    },
                    _ => {
                        proof {
                            assert(p0[n - 1] == sym_view(ge2));
                            assert(p0[n - 2] == sym_view(gop));
                            assert(p0[n - 3] == sym_view(ge1));
                            assert(make_node(p0, 12u16) is None);
                        }
                        return None;
                    },
                }
            },
            13 => {
                let e2 = syms.pop().unwrap();
                let op = syms.pop().unwrap();
                let e1 = syms.pop().unwrap();
                let ghost ge2 = e2;
                let ghost gop = op;
                let ghost ge1 = e1;
                match (op, e1, e2) {
                    (Sym::Tok(Token::Rel(op)), Sym::Expr(e1), Sym::Expr(e2)) => {
                        let nd = Sym::Expr(Box::new(AstExpr::Rel(op, e1, e2)));
                        proof {
                            assert(p0[n - 1] == sym_view(ge2));
                            assert(p0[n - 2] == sym_view(gop));
                            assert(p0[n - 3] == sym_view(ge1));
                            assert(make_node(p0, 13u16) == Some(sym_view(nd)));
                        }
                        nd
                    },
                    _ => {
                        proof {
                            assert(p0[n - 1] == sym_view(ge2));
                            assert(p0[n - 2] == sym_view(gop));
                            assert(p0[n - 3] == sym_view(ge1));
                            assert(make_node(p0, 13u16) is None);
                        }
                        return None;
                    },
                }
            },
            14 => {
                let e2 = syms.pop().unwrap();
                let _op = syms.pop().unwrap();
                let e1 = syms.pop().unwrap();
                let ghost ge2 = e2;
                let ghost ge1 = e1;
                match (e1, e2) {
                    (Sym::Expr(e1), Sym::Expr(e2)) => {
                        let nd = Sym::Expr(Box::new(AstExpr::Or(e1, e2)));
                        proof {
                            assert(p0[n - 1] == sym_view(ge2));
                            assert(p0[n - 3] == sym_view(ge1));
                            assert(make_node(p0, 14u16) == Some(sym_view(nd)));
                        }
                        nd
                    },
                    _ => {
                        proof {
                            assert(p0[n - 1] == sym_view(ge2));
                            assert(p0[n - 3] == sym_view(ge1));
                            assert(make_node(p0, 14u16) is None);
                        }
                        return None;
                    },
                }
            },
            15 => {
                let e2 = syms.pop().unwrap();
                let _op = syms.pop().unwrap();
                let e1 = syms.pop().unwrap();
                let ghost ge2 = e2;
                let ghost ge1 = e1;
                match (e1, e2) {
                    (Sym::Expr(e1), Sym::Expr(e2)) => {
                        let nd = Sym::Expr(Box::new(AstExpr::And(e1, e2)));
                        proof {
                            assert(p0[n - 1] == sym_view(ge2));
                            assert(p0[n - 3] == sym_view(ge1));
                            assert(make_node(p0, 15u16) == Some(sym_view(nd)));
                        }
                        nd
                    },
                    _ => {
                        proof {
                            assert(p0[n - 1] == sym_view(ge2));
                            assert(p0[n - 3] == sym_view(ge1));
                            assert(make_node(p0, 15u16) is None);
                        }
                        return None;
                    },
                }
            },
            16 => {
                let e2 = syms.pop().unwrap();
                let _colon = syms.pop().unwrap();
                let e1 = syms.pop().unwrap();
                let _q = syms.pop().unwrap();
                let c = syms.pop().unwrap();
                let ghost ge2 = e2;
                let ghost ge1 = e1;
                let ghost gc = c;
                match (c, e1, e2) {
                    (Sym::Expr(c), Sym::Expr(e1), Sym::Expr(e2)) => {
                        let nd = Sym::Expr(Box::new(AstExpr::Ternary(c, e1, e2)));
                        proof {
                            assert(p0[n - 1] == sym_view(ge2));
                            assert(p0[n - 3] == sym_view(ge1));
                            assert(p0[n - 5] == sym_view(gc));
                            assert(make_node(p0, 16u16) == Some(sym_view(nd)));
                        }
                        nd
                    },
                    _ => {
                        proof {
                            assert(p0[n - 1] == sym_view(ge2));
                            assert(p0[n - 3] == sym_view(ge1));
                            assert(p0[n - 5] == sym_view(gc));
                            assert(make_node(p0, 16u16) is None);
                        }
                        return None;
                    },
                }
            },
        _ => {
            return None;
        },
    };
    proof {
        assert(syms_view(syms@) =~= p0.subrange(0, n - lenm));
    }
    Some(node)
}

/// Builds the typed node for rules 17 to 21: pops the rule's symbols and
/// checks their kinds, exactly as `make_node` says.
#[verifier::rlimit(100)]
fn build_node_high(syms: &mut Vec<Sym>, id: u16) -> (r: Option<Sym>)
    requires
        17 <= id <= 21,
        old(syms)@.len() >= rule_len_spec(id),
    ensures
        match r {
            Some(nd) => {
                &&& make_node(syms_view(old(syms)@), id) == Some(sym_view(nd))
                &&& syms_view(final(syms)@) == syms_view(old(syms)@).subrange(
                    0,
                    old(syms)@.len() - rule_len_spec(id),
                )
            },
            None => make_node(syms_view(old(syms)@), id) is None,
        },
{
    let ghost p0 = syms_view(old(syms)@);
    let ghost n = p0.len() as int;
    let ghost lenm = rule_len_spec(id);
    let node: Sym = match id {
            17 => {
                let _rp = syms.pop().unwrap();
                let params = syms.pop().unwrap();
                let _lp = syms.pop().unwrap();
                let name = syms.pop().unwrap();
                let ghost gparams = params;
                let ghost gname = name;
                match (name, params) {
                    (Sym::Tok(Token::Ident(name)), Sym::Params(params)) => {
                        let nd = Sym::Expr(Box::new(AstExpr::Call(name, params)));
                        proof {
                            assert(p0[n - 2] == sym_view(gparams));
                            assert(p0[n - 4] == sym_view(gname));
                            assert(make_node(p0, 17u16) == Some(sym_view(nd)));
                        }
                        nd
                    },
                    _ => {
                        proof {
                            assert(p0[n - 2] == sym_view(gparams));
                            assert(p0[n - 4] == sym_view(gname));
                            assert(make_node(p0, 17u16) is None);
                        }
                        return None;
                    },
                }
            },
            18 => {
                let x = syms.pop().unwrap();
                let ghost gx = x;
                match x {
                    Sym::Tok(Token::Ident(x)) => {
                        let nd = Sym::Expr(Box::new(AstExpr::Name(x)));
                        proof {
                            assert(p0[n - 1] == sym_view(gx));
                            assert(make_node(p0, 18u16) == Some(sym_view(nd)));
                        }
                        nd
                    },
                    _ => {
                        proof {
                            assert(p0[n - 1] == sym_view(gx));
                            assert(make_node(p0, 18u16) is None);
                        }
                        return None;
                    },
                }
            },
            19 => {
                let x = syms.pop().unwrap();
                let ghost gx = x;
                match x {
                    Sym::Tok(Token::Num(v)) => {
                        let nd = Sym::Expr(Box::new(AstExpr::Lit(v)));
                        proof {
                            assert(p0[n - 1] == sym_view(gx));
                            assert(make_node(p0, 19u16) == Some(sym_view(nd)));
                        }
                        nd
                    },
                    _ => {
                        proof {
                            assert(p0[n - 1] == sym_view(gx));
                            assert(make_node(p0, 19u16) is None);
                        }
                        return None;
                    },
                }
            },
            20 => {
                let e = syms.pop().unwrap();
                let _comma = syms.pop().unwrap();
                let params = syms.pop().unwrap();
                let ghost ge = e;
                let ghost gparams = params;
                match (params, e) {
                    (Sym::Params(mut params), Sym::Expr(e)) => {
                        proof {
                            lemma_ast_list_view_push(params@, *e);
                        }
                        params.push(*e);
                        let nd = Sym::Params(params);
                        proof {
                            assert(p0[n - 1] == sym_view(ge));
                            assert(p0[n - 3] == sym_view(gparams));
                            assert(make_node(p0, 20u16) == Some(sym_view(nd)));
                        }
                        nd
                    },
                    _ => {
                        proof {
                            assert(p0[n - 1] == sym_view(ge));
                            assert(p0[n - 3] == sym_view(gparams));
                            assert(make_node(p0, 20u16) is None);
                        }
                        return None;
                    },
                }
            },
            21 => {
                let e = syms.pop().unwrap();
                let ghost ge = e;
                match e {
                    Sym::Expr(e) => {
                        let ghost ev = ast_expr_view(*e);
                        let mut params: Vec<AstExpr> = Vec::new();
                        params.push(*e);
                        let nd = Sym::Params(params);
                        proof {
                            reveal_with_fuel(ast_expr_list_view, 2);
                            assert(params@.drop_first() =~= Seq::<AstExpr>::empty());
                            assert(ast_expr_list_view(params@) =~= seq![ev]);
                            assert(p0[n - 1] == sym_view(ge));
                            assert(make_node(p0, 21u16) == Some(sym_view(nd)));
                        }
                        nd
                    },
                    _ => {
                        proof {
                            assert(p0[n - 1] == sym_view(ge));
                            assert(make_node(p0, 21u16) is None);
                        }
                        return None;
                    },
                }
            },
        _ => {
            return None;
        },
    };
    proof {
        assert(syms_view(syms@) =~= p0.subrange(0, n - lenm));
    }
    Some(node)
}

/// The shift-reduce automaton: the state stack, the current state, and the
/// stack of recognized symbols.  It persists across calls while a statement
/// spans several lines.
pub struct Parser {
    pub(crate) stack: Vec<u16>,
    pub(crate) top: u16,
    pub(crate) syms: Vec<Sym>,
}

impl Parser {
    /// The automaton's whole state as a mathematical value.
    pub closed spec fn model(&self) -> ParserV {
        ParserV { stack: self.stack@, top: self.top, syms: syms_view(self.syms@) }
    }

    pub(crate) fn new() -> (p: Parser)
        ensures
            p.model() == init_parser(),
    {
        let p = Parser { stack: Vec::new(), top: 0, syms: Vec::new() };
        proof {
            assert(syms_view(p.syms@) =~= Seq::<SymV>::empty());
            assert(p.model().stack =~= init_parser().stack);
        }
        p
    }

    /// One reduction, exactly as `reduce_spec` says: pops the rule's
    /// symbols, builds the typed node, and moves to the goto state; false
    /// rejects (the driver then reports a syntax error and the automaton is
    /// discarded).
    pub(crate) fn reduce(&mut self, id: u16) -> (ok: bool)
        ensures
            match reduce_spec(old(self).model(), id) {
                Some(p2) => ok && final(self).model() == p2,
                None => !ok,
            },
    {
        let ghost p = self.model();
        let ghost n = p.syms.len() as int;
        let ghost lenm = rule_len_spec(id);
        if id < 3 || id > 21 {
            proof {
                assert(make_node(p.syms, id) is None);
            }
            return false;
        }
        let len = rule_len(id);
        self.stack.push(self.top);
        if self.stack.len() < len || self.syms.len() < len {
            return false;
        }
        let new_len = self.stack.len() - len;
        self.stack.truncate(new_len);
        let built = if id <= 9 {
            build_node_low(&mut self.syms, id)
        } else if id <= 16 {
            build_node_mid(&mut self.syms, id)
        } else {
            build_node_high(&mut self.syms, id)
        };
        let node: Sym = match built {
            Some(nd) => nd,
            None => {
                return false;
            },
        };
        proof {
            lemma_syms_view_push(self.syms@, node);
        }
        self.syms.push(node);
        let under = match self.stack.last() {
            Some(k) => *k,
            None => {
                return false;
            },
        };
        match goto_of(under, id) {
            Some(next) => {
                self.top = next;
                true
            },
            None => false,
        }
    }

    /// Feeds one token, exactly as `feed_spec` says: reduces as long as the
    /// table says to, then either shifts the token and returns true, or
    /// returns false because no action applies and the token is a syntax
    /// error.
    #[verifier::loop_isolation(false)]
    pub(crate) fn action(&mut self, token: Token) -> (ok: bool)
        ensures
            match feed_spec(old(self).model(), token_view(token)) {
                Some(p2) => ok && final(self).model() == p2,
                None => !ok,
            },
    {
        let ghost orig = self.model();
        let ghost tv = token_view(token);
        let tid = tok_id(&token);
        loop
            invariant
                feed_spec(orig, tv) == feed_spec(self.model(), tv),
            decreases syms_measure(self.model().syms),
        {
            let act = action_of(self.top, tid);
            if act > 0 {
                self.stack.push(self.top);
                self.top = act as u16;
                proof {
                    lemma_syms_view_push(self.syms@, Sym::Tok(token));
                }
                self.syms.push(Sym::Tok(token));
                return true;
            } else if act < 0 {
                proof {
                    lemma_reduce_measure(self.model(), (-act) as u16);
                }
                if !self.reduce((-act) as u16) {
                    return false;
                }
            } else {
                return false;
            }
        }
    }

    /// Ends the statement, exactly as `accept_spec` says: applies the
    /// closing reductions the final state calls for and returns the
    /// completed statement, or `None` when the input stops in the middle of
    /// a construct.
    #[verifier::loop_isolation(false)]
    pub(crate) fn accept(self) -> (r: Option<Ast>)
        ensures
            match accept_spec(self.model()) {
                Some(av) => r matches Some(ast) && ast_view(ast) == av,
                None => r is None,
            },
    {
        let mut this = self;
        let ghost orig = this.model();
        loop
            invariant
                accept_spec(orig) == accept_spec(this.model()),
            decreases syms_measure(this.model().syms),
        {
            let reduce_id: u16 = match this.top {
                1 | 2 => {
                    if this.syms.len() != 1 {
                        return None;
                    }
                    let s = this.syms.pop().unwrap();
                    return match s {
                        Sym::Stmt(ast) => Some(ast),
                        Sym::Expr(e) => Some(Ast::Bare(e)),
                        _ => None,
                    };
                },
                3 | 19 => 18,
                4 => 19,
                20 => 8,
                21 => 9,
                22 => 10,
                23 => 11,
                24 => 12,
                25 => 13,
                26 => 14,
                27 => 15,
                29 => 3,
                30 => 21,
                34 => 7,
                36 => 17,
                40 => 16,
                42 => 4,
                _ => {
                    return None;
                },
            };
            proof {
                lemma_reduce_measure(this.model(), reduce_id);
            }
            if !this.reduce(reduce_id) {
                return None;
            }
        }
    }
}

proof fn lemma_ast_list_view_push(s: Seq<AstExpr>, e: AstExpr)
    ensures
        ast_expr_list_view(s.push(e)) == ast_expr_list_view(s).push(ast_expr_view(e)),
    decreases s,
{
    lemma_ast_list_view_index(s);
    lemma_ast_list_view_index(s.push(e));
    assert(ast_expr_list_view(s.push(e)) =~= ast_expr_list_view(s).push(ast_expr_view(e)));
}

proof fn lemma_ast_list_view_index(s: Seq<AstExpr>)
    ensures
        ast_expr_list_view(s).len() == s.len(),
        forall|i: int| 0 <= i < s.len() ==> ast_expr_list_view(s)[i] == ast_expr_view(s[i]),
    decreases s,
{
    if s.len() > 0 {
        lemma_ast_list_view_index(s.drop_first());
    }
}

} // verus!
