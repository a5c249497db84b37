use vstd::prelude::*;
use crate::lexer::{
    CompareOp, Expected, Ident, InvalidToken, has_nul_from, lex_line, LexOut, token_view,
    tokenize, toks_view, TokenV,
};
use crate::num::{
    Real, abs_bits, atan2_bits, acos_bits, asin_bits, atan_bits, bool_bits, cbrt_bits, ceil_bits,
    cos_bits, div_bits, floor_bits, ln_bits, log10_bits, mul_bits, add_bits, sub_bits, neg_bits,
    pow_bits, round_bits, sgn_bits, sin_bits, sqrt_bits, tan_bits, truthy, real_abs, real_acos,
    real_add, real_asin, real_atan, real_atan2, real_cbrt, real_ceil, real_cos, real_div,
    real_floor, real_ln, real_log10, real_mul, real_neg, real_pow, real_round, real_sgn, real_sin,
    real_sqrt, real_sub, real_tan, is_truthy, ZERO_BITS, ONE_BITS, E_BITS, PI_BITS,
};
use crate::parser::{
    accept_spec, ast_view, feed_all, init_parser, Ast, AstExpr, Parser, ParserV,
};
use crate::lexer::{AddSubOp, MulDivOp};

verus! {

/// A built-in operator of the function library.
#[derive(Debug, Clone, Copy, PartialEq, Eq, Structural)]
pub enum NativeOp {
    Abs,
    Floor,
    Ceil,
    Round,
    Sgn,
    Sqrt,
    Cbrt,
    Sin,
    Cos,
    Tan,
    Asin,
    Acos,
    Atan,
    Atan2,
    Ln,
    Log,
}

/// An expression value: either a number already resolved at translation
/// time, or a deferred symbolic expression.
pub enum Operand {
    Con(Real),
    Sym(Box<Expr>),
}

/// A symbolic expression node.  An invoke node carries the arena index of
/// its callee, or `None` for "the function currently being defined", the
/// self-recursion placeholder resolved at evaluation time; a param node
/// carries a zero-based parameter position.
pub enum Expr {
    Not(Box<Expr>),
    Neg(Box<Expr>),
    Power(Operand, Operand),
    Prod(Operand, Operand),
    Quot(Operand, Operand),
    Sum(Operand, Operand),
    Diff(Operand, Operand),
    Rel(CompareOp, Operand, Operand),
    LogOr(Operand, Operand),
    LogAnd(Operand, Operand),
    Cond(Box<Expr>, Operand, Operand),
    Invoke(Option<usize>, Vec<Operand>),
    Param(usize),
}

/// A function: its parameter count and either a native operator or a
/// translated user body.
pub enum FnImpl {
    Native(NativeOp),
    User(Operand),
}

pub struct FunctionDef {
    pub arity: usize,
    pub body: FnImpl,
}

// ---------------------------------------------------------------------------
// The mathematical model of expression values.

/// The model of an operand, with sequences in place of vectors.
pub enum OpV {
    Con(Real),
    Sym(Box<ExV>),
}

pub enum ExV {
    Not(Box<ExV>),
    Neg(Box<ExV>),
    Power(OpV, OpV),
    Prod(OpV, OpV),
    Quot(OpV, OpV),
    Sum(OpV, OpV),
    Diff(OpV, OpV),
    Rel(CompareOp, OpV, OpV),
    LogOr(OpV, OpV),
    LogAnd(OpV, OpV),
    Cond(Box<ExV>, OpV, OpV),
    Invoke(Option<int>, Seq<OpV>),
    Param(int),
}

pub enum FnImplV {
    Native(NativeOp),
    User(OpV),
}

pub struct FnV {
    pub arity: int,
    pub body: FnImplV,
}

pub open spec fn op_view(o: Operand) -> OpV
    decreases o,
{
    match o {
        Operand::Con(r) => OpV::Con(r),
        Operand::Sym(e) => OpV::Sym(Box::new(ex_view(*e))),
    }
}

pub open spec fn ops_view(s: Seq<Operand>) -> Seq<OpV>
    decreases s,
{
    if s.len() == 0 {
        Seq::empty()
    } else {
        seq![op_view(s[0])] + ops_view(s.drop_first())
    }
}

pub open spec fn ex_view(e: Expr) -> ExV
    decreases e,
{
    match e {
        Expr::Not(e1) => ExV::Not(Box::new(ex_view(*e1))),
        Expr::Neg(e1) => ExV::Neg(Box::new(ex_view(*e1))),
        Expr::Power(a, b) => ExV::Power(op_view(a), op_view(b)),
        Expr::Prod(a, b) => ExV::Prod(op_view(a), op_view(b)),
        Expr::Quot(a, b) => ExV::Quot(op_view(a), op_view(b)),
        Expr::Sum(a, b) => ExV::Sum(op_view(a), op_view(b)),
        Expr::Diff(a, b) => ExV::Diff(op_view(a), op_view(b)),
        Expr::Rel(op, a, b) => ExV::Rel(op, op_view(a), op_view(b)),
        Expr::LogOr(a, b) => ExV::LogOr(op_view(a), op_view(b)),
        Expr::LogAnd(a, b) => ExV::LogAnd(op_view(a), op_view(b)),
        Expr::Cond(c, a, b) => ExV::Cond(Box::new(ex_view(*c)), op_view(a), op_view(b)),
        Expr::Invoke(f, ops) => ExV::Invoke(
            match f {
                Some(i) => Some(i as int),
                None => None,
            },
            ops_view(ops@),
        ),
        Expr::Param(i) => ExV::Param(i as int),
    }
}

pub open spec fn fn_view(f: FunctionDef) -> FnV {
    FnV {
        arity: f.arity as int,
        body: match f.body {
            FnImpl::Native(op) => FnImplV::Native(op),
            FnImpl::User(o) => FnImplV::User(op_view(o)),
        },
    }
}

pub open spec fn arena_view(a: Seq<FunctionDef>) -> Seq<FnV> {
    a.map_values(|f: FunctionDef| fn_view(f))
}

proof fn lemma_ops_view_index(s: Seq<Operand>)
    ensures
        ops_view(s).len() == s.len(),
        forall|i: int| 0 <= i < s.len() ==> ops_view(s)[i] == op_view(s[i]),
    decreases s,
{
    if s.len() > 0 {
        lemma_ops_view_index(s.drop_first());
    }
}

// ---------------------------------------------------------------------------
// Well-formedness: every index an expression carries stays in range.

pub open spec fn native_arity(op: NativeOp) -> int {
    match op {
        NativeOp::Atan2 => 2,
        _ => 1,
    }
}

/// A well-formed operand inside a definition with `ar` parameters, where
/// callees must have been installed among the first `bound` arena entries.
pub open spec fn wf_opv(av: Seq<FnV>, bound: int, ar: int, o: OpV) -> bool
    decreases o,
{
    match o {
        OpV::Con(_) => true,
        OpV::Sym(e) => wf_exv(av, bound, ar, *e),
    }
}

pub open spec fn wf_exv(av: Seq<FnV>, bound: int, ar: int, e: ExV) -> bool
    decreases e,
{
    match e {
        ExV::Not(e1) => wf_exv(av, bound, ar, *e1),
        ExV::Neg(e1) => wf_exv(av, bound, ar, *e1),
        ExV::Power(a, b) => wf_opv(av, bound, ar, a) && wf_opv(av, bound, ar, b),
        ExV::Prod(a, b) => wf_opv(av, bound, ar, a) && wf_opv(av, bound, ar, b),
        ExV::Quot(a, b) => wf_opv(av, bound, ar, a) && wf_opv(av, bound, ar, b),
        ExV::Sum(a, b) => wf_opv(av, bound, ar, a) && wf_opv(av, bound, ar, b),
        ExV::Diff(a, b) => wf_opv(av, bound, ar, a) && wf_opv(av, bound, ar, b),
        ExV::Rel(_, a, b) => wf_opv(av, bound, ar, a) && wf_opv(av, bound, ar, b),
        ExV::LogOr(a, b) => wf_opv(av, bound, ar, a) && wf_opv(av, bound, ar, b),
        ExV::LogAnd(a, b) => wf_opv(av, bound, ar, a) && wf_opv(av, bound, ar, b),
        ExV::Cond(c, a, b) => wf_exv(av, bound, ar, *c) && wf_opv(av, bound, ar, a) && wf_opv(
            av,
            bound,
            ar,
            b,
        ),
        ExV::Invoke(f, ops) => (match f {
            Some(i) => 0 <= i < bound && i < av.len() && av[i].arity == ops.len(),
            None => ops.len() == ar,
        }) && wf_opsv(av, bound, ar, ops),
        ExV::Param(i) => 0 <= i < ar,
    }
}

pub open spec fn wf_opsv(av: Seq<FnV>, bound: int, ar: int, ops: Seq<OpV>) -> bool
    decreases ops,
{
    if ops.len() == 0 {
        true
    } else {
        wf_opv(av, bound, ar, ops[0]) && wf_opsv(av, bound, ar, ops.drop_first())
    }
}

pub open spec fn wf_fnv(av: Seq<FnV>, bound: int, f: FnV) -> bool {
    match f.body {
        FnImplV::Native(op) => f.arity == native_arity(op),
        FnImplV::User(o) => f.arity >= 0 && wf_opv(av, bound, f.arity, o),
    }
}

/// Every arena entry is well formed relative to the entries before it, so a
/// body only ever invokes functions that existed when it was defined.
pub open spec fn wf_arena(av: Seq<FnV>) -> bool {
    forall|i: int| 0 <= i < av.len() ==> wf_fnv(av, i, #[trigger] av[i])
}

/// Well-formedness only constrains indices from above, so it survives any
/// growth of the bound and of the arena.
pub proof fn lemma_wf_opv_mono(av: Seq<FnV>, av2: Seq<FnV>, bound: int, bound2: int, ar: int, o: OpV)
    requires
        wf_opv(av, bound, ar, o),
        bound <= bound2,
        av.len() <= av2.len(),
        bound <= av.len(),
        forall|i: int| 0 <= i < av.len() ==> av2[i] == av[i],
    ensures
        wf_opv(av2, bound2, ar, o),
    decreases o,
{
    match o {
        OpV::Con(_) => {},
        OpV::Sym(e) => lemma_wf_exv_mono(av, av2, bound, bound2, ar, *e),
    }
}

pub proof fn lemma_wf_exv_mono(av: Seq<FnV>, av2: Seq<FnV>, bound: int, bound2: int, ar: int, e: ExV)
    requires
        wf_exv(av, bound, ar, e),
        bound <= bound2,
        av.len() <= av2.len(),
        bound <= av.len(),
        forall|i: int| 0 <= i < av.len() ==> av2[i] == av[i],
    ensures
        wf_exv(av2, bound2, ar, e),
    decreases e,
{
    match e {
        ExV::Not(e1) => lemma_wf_exv_mono(av, av2, bound, bound2, ar, *e1),
        ExV::Neg(e1) => lemma_wf_exv_mono(av, av2, bound, bound2, ar, *e1),
        ExV::Power(a, b) | ExV::Prod(a, b) | ExV::Quot(a, b) | ExV::Sum(a, b) | ExV::Diff(a, b)
            | ExV::Rel(_, a, b) | ExV::LogOr(a, b) | ExV::LogAnd(a, b) => {
            lemma_wf_opv_mono(av, av2, bound, bound2, ar, a);
            lemma_wf_opv_mono(av, av2, bound, bound2, ar, b);
        },
        ExV::Cond(c, a, b) => {
            lemma_wf_exv_mono(av, av2, bound, bound2, ar, *c);
            lemma_wf_opv_mono(av, av2, bound, bound2, ar, a);
            lemma_wf_opv_mono(av, av2, bound, bound2, ar, b);
        },
        ExV::Invoke(_, ops) => lemma_wf_opsv_mono(av, av2, bound, bound2, ar, ops),
        ExV::Param(_) => {},
    }
}

pub proof fn lemma_wf_opsv_mono(
    av: Seq<FnV>,
    av2: Seq<FnV>,
    bound: int,
    bound2: int,
    ar: int,
    ops: Seq<OpV>,
)
    requires
        wf_opsv(av, bound, ar, ops),
        bound <= bound2,
        av.len() <= av2.len(),
        bound <= av.len(),
        forall|i: int| 0 <= i < av.len() ==> av2[i] == av[i],
    ensures
        wf_opsv(av2, bound2, ar, ops),
    decreases ops,
{
    if ops.len() > 0 {
        lemma_wf_opv_mono(av, av2, bound, bound2, ar, ops[0]);
        lemma_wf_opsv_mono(av, av2, bound, bound2, ar, ops.drop_first());
    }
}

// ---------------------------------------------------------------------------
// Evaluation semantics.

/// What a native operator computes from its argument list.  The two-argument
/// arc tangent takes the ordinate first: atan2(y, x).
pub open spec fn native_app(op: NativeOp, vals: Seq<Real>) -> Real {
    match op {
        NativeOp::Abs => abs_bits(vals[0]),
        NativeOp::Floor => floor_bits(vals[0]),
        NativeOp::Ceil => ceil_bits(vals[0]),
        NativeOp::Round => round_bits(vals[0]),
        NativeOp::Sgn => sgn_bits(vals[0]),
        NativeOp::Sqrt => sqrt_bits(vals[0]),
        NativeOp::Cbrt => cbrt_bits(vals[0]),
        NativeOp::Sin => sin_bits(vals[0]),
        NativeOp::Cos => cos_bits(vals[0]),
        NativeOp::Tan => tan_bits(vals[0]),
        NativeOp::Asin => asin_bits(vals[0]),
        NativeOp::Acos => acos_bits(vals[0]),
        NativeOp::Atan => atan_bits(vals[0]),
        NativeOp::Atan2 => atan2_bits(vals[0], vals[1]),
        NativeOp::Ln => ln_bits(vals[0]),
        NativeOp::Log => log10_bits(vals[0]),
    }
}

/// Evaluation of an operand against the argument list `args`, inside the
/// function `cur` (the target of self-recursive invokes).  Each call into a
/// user body costs one unit of fuel; `None` means the call budget ran out.
pub open spec fn eval_opv(av: Seq<FnV>, cur: FnV, args: Seq<Real>, o: OpV, fuel: nat) -> Option<
    Real,
>
    decreases fuel, o, 0int,
{
    match o {
        OpV::Con(r) => Some(r),
        OpV::Sym(e) => eval_exv(av, cur, args, *e, fuel),
    }
}

pub open spec fn eval_exv(av: Seq<FnV>, cur: FnV, args: Seq<Real>, e: ExV, fuel: nat) -> Option<
    Real,
>
    decreases fuel, e, 0int,
{
    match e {
        ExV::Not(e1) => match eval_exv(av, cur, args, *e1, fuel) {
            Some(v) => Some(bool_bits(!truthy(v))),
            None => None,
        },
        ExV::Neg(e1) => match eval_exv(av, cur, args, *e1, fuel) {
            Some(v) => Some(neg_bits(v)),
            None => None,
        },
        ExV::Power(a, b) => eval_bin(
            eval_opv(av, cur, args, a, fuel),
            eval_opv(av, cur, args, b, fuel),
            BinTag::Power,
        ),
        ExV::Prod(a, b) => eval_bin(
            eval_opv(av, cur, args, a, fuel),
            eval_opv(av, cur, args, b, fuel),
            BinTag::Prod,
        ),
        ExV::Quot(a, b) => eval_bin(
            eval_opv(av, cur, args, a, fuel),
            eval_opv(av, cur, args, b, fuel),
            BinTag::Quot,
        ),
        ExV::Sum(a, b) => eval_bin(
            eval_opv(av, cur, args, a, fuel),
            eval_opv(av, cur, args, b, fuel),
            BinTag::Sum,
        ),
        ExV::Diff(a, b) => eval_bin(
            eval_opv(av, cur, args, a, fuel),
            eval_opv(av, cur, args, b, fuel),
            BinTag::Diff,
        ),
        ExV::Rel(op, a, b) => match (eval_opv(av, cur, args, a, fuel), eval_opv(
            av,
            cur,
            args,
            b,
            fuel,
        )) {
            (Some(v1), Some(v2)) => Some(op.on_spec(v1, v2)),
            _ => None,
        },
        ExV::LogOr(a, b) => match (eval_opv(av, cur, args, a, fuel), eval_opv(
            av,
            cur,
            args,
            b,
            fuel,
        )) {
            (Some(v1), Some(v2)) => Some(bool_bits(truthy(v1) || truthy(v2))),
            _ => None,
        },
        ExV::LogAnd(a, b) => match (eval_opv(av, cur, args, a, fuel), eval_opv(
            av,
            cur,
            args,
            b,
            fuel,
        )) {
            (Some(v1), Some(v2)) => Some(bool_bits(truthy(v1) && truthy(v2))),
            _ => None,
        },
        ExV::Cond(c, a, b) => match eval_exv(av, cur, args, *c, fuel) {
            Some(v) => if truthy(v) {
                eval_opv(av, cur, args, a, fuel)
            } else {
                eval_opv(av, cur, args, b, fuel)
            },
            None => None,
        },
        ExV::Invoke(f, ops) => match eval_opsv(av, cur, args, ops, fuel) {
            Some(vals) => {
                let callee = match f {
                    Some(i) => av[i],
                    None => cur,
                };
                match callee.body {
                    FnImplV::Native(op) => Some(native_app(op, vals)),
                    FnImplV::User(b) => if fuel == 0 {
                        None
                    } else {
                        eval_opv(av, callee, vals, b, (fuel - 1) as nat)
                    },
                }
            },
            None => None,
        },
        ExV::Param(i) => Some(args[i]),
    }
}

/// The tag and meaning of a folded binary arithmetic node.
pub enum BinTag {
    Power,
    Prod,
    Quot,
    Sum,
    Diff,
}

pub open spec fn bin_app(t: BinTag, v1: Real, v2: Real) -> Real {
    match t {
        BinTag::Power => pow_bits(v1, v2),
        BinTag::Prod => mul_bits(v1, v2),
        BinTag::Quot => div_bits(v1, v2),
        BinTag::Sum => add_bits(v1, v2),
        BinTag::Diff => sub_bits(v1, v2),
    }
}

pub open spec fn eval_bin(r1: Option<Real>, r2: Option<Real>, t: BinTag) -> Option<Real> {
    match (r1, r2) {
        (Some(v1), Some(v2)) => Some(bin_app(t, v1, v2)),
        _ => None,
    }
}

pub open spec fn eval_opsv(av: Seq<FnV>, cur: FnV, args: Seq<Real>, ops: Seq<OpV>, fuel: nat)
    -> Option<Seq<Real>>
    decreases fuel, ops, 0int,
{
    if ops.len() == 0 {
        Some(Seq::empty())
    } else {
        match eval_opv(av, cur, args, ops[0], fuel) {
            Some(v) => match eval_opsv(av, cur, args, ops.drop_first(), fuel) {
                Some(rest) => Some(seq![v] + rest),
                None => None,
            },
            None => None,
        }
    }
}

/// Invoking a function on fully evaluated arguments.
pub open spec fn invoke_fnv(av: Seq<FnV>, f: FnV, vals: Seq<Real>, fuel: nat) -> Option<Real> {
    match f.body {
        FnImplV::Native(op) => Some(native_app(op, vals)),
        FnImplV::User(o) => eval_opv(av, f, vals, o, fuel),
    }
}

/// The evaluator's call budget: far more user-function calls than any
/// computation that terminates on a real machine could make.  A computation
/// that would exceed it yields zero bits; the engine itself never bounds
/// recursion otherwise.
pub const CALL_BUDGET: u64 = 0xFFFF_FFFF_FFFF_FFFF;

/// Invoking a function with the full budget, with the budget's exhaustion
/// pinned to the zero pattern.
pub open spec fn invoke_total(av: Seq<FnV>, f: FnV, vals: Seq<Real>) -> Real {
    match invoke_fnv(av, f, vals, CALL_BUDGET as nat) {
        Some(v) => v,
        None => ZERO_BITS,
    }
}

fn apply_native(op: NativeOp, vals: &Vec<Real>) -> (r: Real)
    requires
        vals@.len() == native_arity(op),
    ensures
        r == native_app(op, vals@),
{
    match op {
        NativeOp::Abs => real_abs(vals[0]),
        NativeOp::Floor => real_floor(vals[0]),
        NativeOp::Ceil => real_ceil(vals[0]),
        NativeOp::Round => real_round(vals[0]),
        NativeOp::Sgn => real_sgn(vals[0]),
        NativeOp::Sqrt => real_sqrt(vals[0]),
        NativeOp::Cbrt => real_cbrt(vals[0]),
        NativeOp::Sin => real_sin(vals[0]),
        NativeOp::Cos => real_cos(vals[0]),
        NativeOp::Tan => real_tan(vals[0]),
        NativeOp::Asin => real_asin(vals[0]),
        NativeOp::Acos => real_acos(vals[0]),
        NativeOp::Atan => real_atan(vals[0]),
        NativeOp::Atan2 => real_atan2(vals[0], vals[1]),
        NativeOp::Ln => real_ln(vals[0]),
        NativeOp::Log => real_log10(vals[0]),
    }
}

/// Evaluates one operand, walking the expression and substituting the
/// caller-supplied arguments for parameter references.
fn eval_operand(arena: &Vec<FunctionDef>, cur: &FunctionDef, args: &Vec<Real>, o: &Operand, fuel: u64)
    -> (r: Option<Real>)
    requires
        wf_arena(arena_view(arena@)),
        wf_fnv(arena_view(arena@), arena@.len() as int, fn_view(*cur)),
        cur.arity == args@.len(),
        wf_opv(arena_view(arena@), arena@.len() as int, args@.len() as int, op_view(*o)),
    ensures
        r == eval_opv(arena_view(arena@), fn_view(*cur), args@, op_view(*o), fuel as nat),
    decreases fuel, o,
{
    match o {
        Operand::Con(v) => Some(*v),
        Operand::Sym(e) => eval_expr(arena, cur, args, e, fuel),
    }
}

#[verifier::loop_isolation(false)]
fn eval_expr(arena: &Vec<FunctionDef>, cur: &FunctionDef, args: &Vec<Real>, e: &Expr, fuel: u64)
    -> (r: Option<Real>)
    requires
        wf_arena(arena_view(arena@)),
        wf_fnv(arena_view(arena@), arena@.len() as int, fn_view(*cur)),
        cur.arity == args@.len(),
        wf_exv(arena_view(arena@), arena@.len() as int, args@.len() as int, ex_view(*e)),
    ensures
        r == eval_exv(arena_view(arena@), fn_view(*cur), args@, ex_view(*e), fuel as nat),
    decreases fuel, e,
{
    match e {
        Expr::Not(e1) => match eval_expr(arena, cur, args, e1, fuel) {
            Some(v) => Some(if is_truthy(v) {
                ZERO_BITS
            } else {
                ONE_BITS
            }),
            None => None,
        },
        Expr::Neg(e1) => match eval_expr(arena, cur, args, e1, fuel) {
            Some(v) => Some(real_neg(v)),
            None => None,
        },
        Expr::Power(a, b) => match eval_operand(arena, cur, args, a, fuel) {
            Some(v1) => match eval_operand(arena, cur, args, b, fuel) {
                Some(v2) => Some(real_pow(v1, v2)),
                None => None,
            },
            None => None,
        },
        Expr::Prod(a, b) => match eval_operand(arena, cur, args, a, fuel) {
            Some(v1) => match eval_operand(arena, cur, args, b, fuel) {
                Some(v2) => Some(real_mul(v1, v2)),
                None => None,
            },
            None => None,
        },
        Expr::Quot(a, b) => match eval_operand(arena, cur, args, a, fuel) {
            Some(v1) => match eval_operand(arena, cur, args, b, fuel) {
                Some(v2) => Some(real_div(v1, v2)),
                None => None,
            },
            None => None,
        },
        Expr::Sum(a, b) => match eval_operand(arena, cur, args, a, fuel) {
            Some(v1) => match eval_operand(arena, cur, args, b, fuel) {
                Some(v2) => Some(real_add(v1, v2)),
                None => None,
            },
            None => None,
        },
        Expr::Diff(a, b) => match eval_operand(arena, cur, args, a, fuel) {
            Some(v1) => match eval_operand(arena, cur, args, b, fuel) {
                Some(v2) => Some(real_sub(v1, v2)),
                None => None,
            },
            None => None,
        },
        Expr::Rel(op, a, b) => match eval_operand(arena, cur, args, a, fuel) {
            Some(v1) => match eval_operand(arena, cur, args, b, fuel) {
                Some(v2) => Some(op.on(v1, v2)),
                None => None,
            },
            None => None,
        },
        Expr::LogOr(a, b) => match eval_operand(arena, cur, args, a, fuel) {
            Some(v1) => match eval_operand(arena, cur, args, b, fuel) {
                Some(v2) => Some(if is_truthy(v1) || is_truthy(v2) {
                    ONE_BITS
                } else {
                    ZERO_BITS
                }),
                None => None,
            },
            None => None,
        },
        Expr::LogAnd(a, b) => match eval_operand(arena, cur, args, a, fuel) {
            Some(v1) => match eval_operand(arena, cur, args, b, fuel) {
                Some(v2) => Some(if is_truthy(v1) && is_truthy(v2) {
                    ONE_BITS
                } else {
                    ZERO_BITS
                }),
                None => None,
            },
            None => None,
        },
        Expr::Cond(c, a, b) => match eval_expr(arena, cur, args, c, fuel) {
            Some(v) => if is_truthy(v) {
                eval_operand(arena, cur, args, a, fuel)
            } else {
                eval_operand(arena, cur, args, b, fuel)
            },
            None => None,
        },
        Expr::Invoke(fopt, ops) => {
            let ghost av = arena_view(arena@);
            let ghost curv = fn_view(*cur);
            let ghost vops = ops_view(ops@);
            proof {
                lemma_ops_view_index(ops@);
            }
            let mut vals: Vec<Real> = Vec::new();
            let mut i: usize = 0;
            proof {
                assert(vops.subrange(0, vops.len() as int) =~= vops);
                lemma_wf_opsv_index(av, arena@.len() as int, args@.len() as int, vops);
                match eval_opsv(av, curv, args@, vops, fuel as nat) {
                    Some(rest) => {
                        assert(vals@ + rest =~= rest);
                    },
                    None => {},
                }
            }
            while i < ops.len()
                invariant
                    i <= ops.len(),
                    vals@.len() == i,
                    eval_opsv(av, curv, args@, vops, fuel as nat) == (match eval_opsv(
                        av,
                        curv,
                        args@,
                        vops.subrange(i as int, vops.len() as int),
                        fuel as nat,
                    ) {
                        Some(rest) => Some(vals@ + rest),
                        None => None::<Seq<Real>>,
                    }),
                decreases ops.len() - i,
            {
                proof {
                    assert(decreases_to!(*e => e->Invoke_1));
                    assert(decreases_to!(e->Invoke_1 => e->Invoke_1@));
                    assert(decreases_to!(e->Invoke_1@ => e->Invoke_1@[i as int]));
                    assert(e->Invoke_1@[i as int] == ops@[i as int]);
                    let sub_i = vops.subrange(i as int, vops.len() as int);
                    assert(sub_i[0] == vops[i as int]);
                    assert(sub_i.drop_first() =~= vops.subrange(i + 1, vops.len() as int));
                }
                let r = eval_operand(arena, cur, args, &ops[i], fuel);
                match r {
                    Some(v) => {
                        proof {
                            match eval_opsv(
                                av,
                                curv,
                                args@,
                                vops.subrange(i + 1, vops.len() as int),
                                fuel as nat,
                            ) {
                                Some(rest) => {
                                    assert(vals@ + (seq![v] + rest) =~= vals@.push(v) + rest);
                                },
                                None => {},
                            }
                        }
                        vals.push(v);
                        i = i + 1;
                    },
                    None => {
                        return None;
                    },
                }
            }
            proof {
                assert(vops.subrange(i as int, vops.len() as int) =~= Seq::<OpV>::empty());
                assert(vals@ + Seq::<Real>::empty() =~= vals@);
            }
            match fopt {
                Some(idx) => {
                    let callee = &arena[*idx];
                    proof {
                        assert(av[*idx as int] == fn_view(arena@[*idx as int]));
                        lemma_wf_fnv_mono(av, *idx as int, av[*idx as int]);
                    }
                    match &callee.body {
                        FnImpl::Native(op) => Some(apply_native(*op, &vals)),
                        FnImpl::User(o) => {
                            if fuel == 0 {
                                None
                            } else {
                                eval_operand(arena, callee, &vals, o, fuel - 1)
                            }
                        },
                    }
                },
                None => {
                    match &cur.body {
                        FnImpl::Native(op) => Some(apply_native(*op, &vals)),
                        FnImpl::User(o) => {
                            if fuel == 0 {
                                None
                            } else {
                                eval_operand(arena, cur, &vals, o, fuel - 1)
                            }
                        },
                    }
                },
            }
        },
        Expr::Param(i) => Some(args[*i]),
    }
}

proof fn lemma_wf_opsv_index(av: Seq<FnV>, bound: int, ar: int, ops: Seq<OpV>)
    requires
        wf_opsv(av, bound, ar, ops),
    ensures
        forall|i: int| 0 <= i < ops.len() ==> wf_opv(av, bound, ar, #[trigger] ops[i]),
    decreases ops,
{
    if ops.len() > 0 {
        lemma_wf_opsv_index(av, bound, ar, ops.drop_first());
        assert forall|i: int| 0 <= i < ops.len() implies wf_opv(
            av,
            bound,
            ar,
            #[trigger] ops[i],
        ) by {
            if i > 0 {
                assert(ops[i] == ops.drop_first()[i - 1]);
            }
        }
    }
}

proof fn lemma_wf_fnv_mono(av: Seq<FnV>, bound: int, f: FnV)
    requires
        wf_fnv(av, bound, f),
        0 <= bound <= av.len(),
    ensures
        wf_fnv(av, av.len() as int, f),
{
    match f.body {
        FnImplV::Native(_) => {},
        FnImplV::User(o) => {
            lemma_wf_opv_mono(av, av, bound, av.len() as int, f.arity, o);
        },
    }
}

/// Invokes a function on fully evaluated arguments.
pub(crate) fn invoke(arena: &Vec<FunctionDef>, f: &FunctionDef, vals: &Vec<Real>, fuel: u64) -> (r:
    Option<Real>)
    requires
        wf_arena(arena_view(arena@)),
        wf_fnv(arena_view(arena@), arena@.len() as int, fn_view(*f)),
        vals@.len() == f.arity,
    ensures
        r == invoke_fnv(arena_view(arena@), fn_view(*f), vals@, fuel as nat),
{
    match &f.body {
        FnImpl::Native(op) => Some(apply_native(*op, vals)),
        FnImpl::User(o) => eval_operand(arena, f, vals, o, fuel),
    }
}

// ---------------------------------------------------------------------------
// The environment: named values and named functions.

/// A value binding: the name, whether it is a protected builtin, and the
/// value.
pub struct ValBinding {
    pub name: Ident,
    pub builtin: bool,
    pub val: Real,
}

/// A function binding: the name and the arena index of its current
/// definition.  Rebinding a name only repoints the index; earlier arena
/// entries are never changed, so captured call sites keep their callee.
pub struct FnBinding {
    pub name: Ident,
    pub idx: usize,
}

/// The value table as a map; the earliest binding of a name wins, matching
/// the front-to-back search of the lookup.
pub open spec fn vals_map(s: Seq<ValBinding>) -> Map<Seq<u8>, (bool, Real)>
    decreases s,
{
    if s.len() == 0 {
        Map::empty()
    } else {
        vals_map(s.drop_first()).insert(s[0].name@, (s[0].builtin, s[0].val))
    }
}

pub open spec fn fns_map(s: Seq<FnBinding>) -> Map<Seq<u8>, int>
    decreases s,
{
    if s.len() == 0 {
        Map::empty()
    } else {
        fns_map(s.drop_first()).insert(s[0].name@, s[0].idx as int)
    }
}

fn ident_eq(a: &Vec<u8>, b: &Vec<u8>) -> (r: bool)
    ensures
        r == (a@ == b@),
{
    if a.len() != b.len() {
        return false;
    }
    let mut i: usize = 0;
    while i < a.len()
        invariant
            i <= a.len(),
            a@.len() == b@.len(),
            forall|j: int| 0 <= j < i ==> a@[j] == b@[j],
        decreases a@.len() - i,
    {
        if a[i] != b[i] {
            return false;
        }
        i = i + 1;
    }
    proof {
        assert(a@ =~= b@);
    }
    true
}

fn clone_ident(a: &Vec<u8>) -> (r: Vec<u8>)
    ensures
        r@ == a@,
{
    let mut r: Vec<u8> = Vec::new();
    let mut i: usize = 0;
    while i < a.len()
        invariant
            i <= a.len(),
            r@ =~= a@.subrange(0, i as int),
        decreases a@.len() - i,
    {
        r.push(a[i]);
        i = i + 1;
    }
    proof {
        assert(r@ =~= a@);
    }
    r
}

#[verifier::loop_isolation(false)]
fn lookup_val(s: &Vec<ValBinding>, name: &Vec<u8>) -> (r: Option<(bool, Real)>)
    ensures
        match r {
            Some(bv) => vals_map(s@).contains_key(name@) && vals_map(s@)[name@] == bv,
            None => !vals_map(s@).contains_key(name@),
        },
{
    let ghost n = name@;
    let mut i: usize = 0;
    proof {
        assert(s@.subrange(0, s@.len() as int) =~= s@);
    }
    while i < s.len()
        invariant
            i <= s@.len(),
            vals_map(s@).contains_key(n) == vals_map(s@.subrange(i as int, s@.len() as int))
                .contains_key(n),
            vals_map(s@).contains_key(n) ==> vals_map(s@)[n] == vals_map(
                s@.subrange(i as int, s@.len() as int),
            )[n],
        decreases s@.len() - i,
    {
        proof {
            let sub_i = s@.subrange(i as int, s@.len() as int);
            assert(sub_i[0] == s@[i as int]);
            assert(sub_i.drop_first() =~= s@.subrange(i + 1, s@.len() as int));
        }
        if ident_eq(&s[i].name, name) {
            return Some((s[i].builtin, s[i].val));
        }
        i = i + 1;
    }
    proof {
        assert(s@.subrange(i as int, s@.len() as int) =~= Seq::<ValBinding>::empty());
    }
    None
}

#[verifier::loop_isolation(false)]
fn lookup_fn(s: &Vec<FnBinding>, name: &Vec<u8>) -> (r: Option<usize>)
    ensures
        match r {
            Some(idx) => fns_map(s@).contains_key(name@) && fns_map(s@)[name@] == idx as int,
            None => !fns_map(s@).contains_key(name@),
        },
{
    let ghost n = name@;
    let mut i: usize = 0;
    proof {
        assert(s@.subrange(0, s@.len() as int) =~= s@);
    }
    while i < s.len()
        invariant
            i <= s@.len(),
            fns_map(s@).contains_key(n) == fns_map(s@.subrange(i as int, s@.len() as int))
                .contains_key(n),
            fns_map(s@).contains_key(n) ==> fns_map(s@)[n] == fns_map(
                s@.subrange(i as int, s@.len() as int),
            )[n],
        decreases s@.len() - i,
    {
        proof {
            let sub_i = s@.subrange(i as int, s@.len() as int);
            assert(sub_i[0] == s@[i as int]);
            assert(sub_i.drop_first() =~= s@.subrange(i + 1, s@.len() as int));
        }
        if ident_eq(&s[i].name, name) {
            return Some(s[i].idx);
        }
        i = i + 1;
    }
    proof {
        assert(s@.subrange(i as int, s@.len() as int) =~= Seq::<FnBinding>::empty());
    }
    None
}

proof fn lemma_vals_map_update(s: Seq<ValBinding>, i: int, b: ValBinding)
    requires
        0 <= i < s.len(),
        forall|j: int| 0 <= j < i ==> s[j].name@ != b.name@,
        s[i].name@ == b.name@,
    ensures
        vals_map(s.update(i, b)) == vals_map(s).insert(b.name@, (b.builtin, b.val)),
    decreases s,
{
    let s2 = s.update(i, b);
    assert(s2.drop_first() =~= s.drop_first().update(i - 1, b) || i == 0);
    if i == 0 {
        assert(s2.drop_first() =~= s.drop_first());
        assert(vals_map(s2) =~~= vals_map(s).insert(b.name@, (b.builtin, b.val)));
    } else {
        assert(s2.drop_first() =~= s.drop_first().update(i - 1, b));
        lemma_vals_map_update(s.drop_first(), i - 1, b);
        assert(s2[0] == s[0]);
        assert(vals_map(s2) =~~= vals_map(s).insert(b.name@, (b.builtin, b.val)));
    }
}

proof fn lemma_vals_map_push(s: Seq<ValBinding>, b: ValBinding)
    requires
        forall|j: int| 0 <= j < s.len() ==> s[j].name@ != b.name@,
    ensures
        vals_map(s.push(b)) == vals_map(s).insert(b.name@, (b.builtin, b.val)),
    decreases s,
{
    if s.len() == 0 {
        assert(s.push(b).drop_first() =~= Seq::<ValBinding>::empty());
        assert(s.push(b)[0] == b);
        assert(s.push(b).len() == 1);
        assert(vals_map(s.push(b)) == vals_map(s.push(b).drop_first()).insert(
            s.push(b)[0].name@,
            (s.push(b)[0].builtin, s.push(b)[0].val),
        ));
        assert(vals_map(s.push(b).drop_first()) == vals_map(Seq::<ValBinding>::empty()));
        assert(vals_map(s) == Map::<Seq<u8>, (bool, Real)>::empty());
        assert(vals_map(s.push(b)) =~~= vals_map(s).insert(b.name@, (b.builtin, b.val)));
    } else {
        assert(s.push(b).drop_first() =~= s.drop_first().push(b));
        lemma_vals_map_push(s.drop_first(), b);
        assert(s.push(b)[0] == s[0]);
        assert(vals_map(s.push(b)) =~~= vals_map(s).insert(b.name@, (b.builtin, b.val)));
    }
}

proof fn lemma_fns_map_push(s: Seq<FnBinding>, b: FnBinding)
    requires
        forall|j: int| 0 <= j < s.len() ==> s[j].name@ != b.name@,
    ensures
        fns_map(s.push(b)) == fns_map(s).insert(b.name@, b.idx as int),
    decreases s,
{
    if s.len() == 0 {
        assert(s.push(b).drop_first() =~= Seq::<FnBinding>::empty());
        assert(s.push(b)[0] == b);
        assert(s.push(b).len() == 1);
        assert(fns_map(s.push(b)) == fns_map(s.push(b).drop_first()).insert(
            s.push(b)[0].name@,
            s.push(b)[0].idx as int,
        ));
        assert(fns_map(s.push(b).drop_first()) == fns_map(Seq::<FnBinding>::empty()));
        assert(fns_map(s) == Map::<Seq<u8>, int>::empty());
        assert(fns_map(s.push(b)) =~~= fns_map(s).insert(b.name@, b.idx as int));
    } else {
        assert(s.push(b).drop_first() =~= s.drop_first().push(b));
        lemma_fns_map_push(s.drop_first(), b);
        assert(s.push(b)[0] == s[0]);
        assert(fns_map(s.push(b)) =~~= fns_map(s).insert(b.name@, b.idx as int));
    }
}

proof fn lemma_fns_map_update(s: Seq<FnBinding>, i: int, b: FnBinding)
    requires
        0 <= i < s.len(),
        forall|j: int| 0 <= j < i ==> s[j].name@ != b.name@,
        s[i].name@ == b.name@,
    ensures
        fns_map(s.update(i, b)) == fns_map(s).insert(b.name@, b.idx as int),
    decreases s,
{
    let s2 = s.update(i, b);
    if i == 0 {
        assert(s2.drop_first() =~= s.drop_first());
        assert(fns_map(s2) =~~= fns_map(s).insert(b.name@, b.idx as int));
    } else {
        assert(s2.drop_first() =~= s.drop_first().update(i - 1, b));
        lemma_fns_map_update(s.drop_first(), i - 1, b);
        assert(s2[0] == s[0]);
        assert(fns_map(s2) =~~= fns_map(s).insert(b.name@, b.idx as int));
    }
}

/// Binds a name to a value, updating the earliest binding in place or
/// appending a fresh one.
#[verifier::loop_isolation(false)]
fn set_val(s: &mut Vec<ValBinding>, name: Ident, builtin: bool, val: Real)
    ensures
        vals_map(final(s)@) == vals_map(old(s)@).insert(name@, (builtin, val)),
        final(s)@.len() >= old(s)@.len(),
{
    let mut i: usize = 0;
    while i < s.len()
        invariant
            i <= s@.len(),
            s@ == old(s)@,
            forall|j: int| 0 <= j < i ==> (#[trigger] s@[j]).name@ != name@,
        decreases s@.len() - i,
    {
        if ident_eq(&s[i].name, &name) {
            let b = ValBinding { name, builtin, val };
            let ghost s0 = s@;
            proof {
                lemma_vals_map_update(s0, i as int, b);
            }
            s.remove(i);
            s.insert(i, b);
            proof {
                assert(s@ =~= s0.update(i as int, b));
            }
            return ;
        }
        i = i + 1;
    }
    let b = ValBinding { name, builtin, val };
    proof {
        lemma_vals_map_push(s@, b);
    }
    s.push(b);
}

/// Binds a name to a function index.
#[verifier::loop_isolation(false)]
fn set_fn(s: &mut Vec<FnBinding>, name: Ident, idx: usize)
    ensures
        fns_map(final(s)@) == fns_map(old(s)@).insert(name@, idx as int),
        forall|k: int|
            0 <= k < final(s)@.len() ==> (#[trigger] final(s)@[k]).idx == idx || (k < old(
                s,
            )@.len() && final(s)@[k].idx == old(s)@[k].idx),
{
    let mut i: usize = 0;
    while i < s.len()
        invariant
            i <= s@.len(),
            s@ == old(s)@,
            forall|j: int| 0 <= j < i ==> (#[trigger] s@[j]).name@ != name@,
        decreases s@.len() - i,
    {
        if ident_eq(&s[i].name, &name) {
            let b = FnBinding { name, idx };
            let ghost s0 = s@;
            proof {
                lemma_fns_map_update(s0, i as int, b);
            }
            s.remove(i);
            s.insert(i, b);
            proof {
                assert(s@ =~= s0.update(i as int, b));
            }
            return ;
        }
        i = i + 1;
    }
    let b = FnBinding { name, idx };
    proof {
        lemma_fns_map_push(s@, b);
    }
    s.push(b);
}

// ---------------------------------------------------------------------------
// Translation: from concrete syntax to expression values, folding constants.

/// An error reported to the submitter of a line.
#[derive(Debug, Clone, PartialEq)]
pub enum InputError {
    InvalidToken(InvalidToken),
    SyntaxError { column: usize },
    RepeatVariable { ident: Ident },
    UndefinedIdentifier { ident: Ident },
    BuiltinIdentifier { ident: Ident },
    InconsistentVariablesCount { ident: Ident },
}

/// The mathematical shadow of an error.
pub enum ErrV {
    Lex(int, Expected, Option<u8>),
    Syntax(int),
    Repeat(Seq<u8>),
    Undefined(Seq<u8>),
    Builtin(Seq<u8>),
    Arity(Seq<u8>),
}

pub open spec fn err_view(e: InputError) -> ErrV {
    match e {
        InputError::InvalidToken(t) => ErrV::Lex(t.column as int, t.expect, t.found),
        InputError::SyntaxError { column } => ErrV::Syntax(column as int),
        InputError::RepeatVariable { ident } => ErrV::Repeat(ident@),
        InputError::UndefinedIdentifier { ident } => ErrV::Undefined(ident@),
        InputError::BuiltinIdentifier { ident } => ErrV::Builtin(ident@),
        InputError::InconsistentVariablesCount { ident } => ErrV::Arity(ident@),
    }
}

/// The definition context: the name being defined and its ordered parameter
/// list, which resolves bare identifiers to parameter positions.
pub struct DefCtx {
    pub name: Ident,
    pub vars: Vec<Ident>,
}

pub open spec fn vars_view(s: Seq<Ident>) -> Seq<Seq<u8>> {
    s.map_values(|v: Ident| v@)
}

pub open spec fn ctx_view(c: Option<&DefCtx>) -> Option<(Seq<u8>, Seq<Seq<u8>>)> {
    match c {
        Some(d) => Some((d.name@, vars_view(d.vars@))),
        None => None,
    }
}

/// The position of a name in a parameter list, or a negative number.
pub open spec fn param_idx(vv: Seq<Seq<u8>>, n: Seq<u8>) -> int
    decreases vv,
{
    if vv.len() == 0 {
        -1
    } else if vv[0] == n {
        0
    } else if param_idx(vv.drop_first(), n) < 0 {
        -1
    } else {
        param_idx(vv.drop_first(), n) + 1
    }
}

proof fn lemma_param_idx(vv: Seq<Seq<u8>>, n: Seq<u8>, i: int)
    requires
        0 <= i <= vv.len(),
        forall|j: int| 0 <= j < i ==> vv[j] != n,
    ensures
        i < vv.len() && vv[i] == n ==> param_idx(vv, n) == i,
        i == vv.len() ==> param_idx(vv, n) == -1,
    decreases vv,
{
    if vv.len() > 0 {
        if i == 0 {
            if vv[0] != n {
            }
        } else {
            assert(vv[0] != n);
            assert forall|j: int| 0 <= j < i - 1 implies vv.drop_first()[j] != n by {
                assert(vv.drop_first()[j] == vv[j + 1]);
            }
            lemma_param_idx(vv.drop_first(), n, i - 1);
            if i < vv.len() {
                assert(vv.drop_first()[i - 1] == vv[i]);
            }
        }
    }
}

pub open spec fn all_con(ops: Seq<OpV>) -> bool {
    forall|i: int| 0 <= i < ops.len() ==> ops[i] is Con
}

pub open spec fn con_vals(ops: Seq<OpV>) -> Seq<Real> {
    Seq::new(ops.len(), |i: int| ops[i]->Con_0)
}

pub open spec fn make_binv(t: BinTag, o1: OpV, o2: OpV) -> ExV {
    match t {
        BinTag::Power => ExV::Power(o1, o2),
        BinTag::Prod => ExV::Prod(o1, o2),
        BinTag::Quot => ExV::Quot(o1, o2),
        BinTag::Sum => ExV::Sum(o1, o2),
        BinTag::Diff => ExV::Diff(o1, o2),
    }
}

/// Folding a binary arithmetic node: two constants compute now, anything
/// else becomes a symbolic node.
pub open spec fn fold_binv(t: BinTag, o1: OpV, o2: OpV) -> OpV {
    match (o1, o2) {
        (OpV::Con(c1), OpV::Con(c2)) => OpV::Con(bin_app(t, c1, c2)),
        _ => OpV::Sym(Box::new(make_binv(t, o1, o2))),
    }
}

/// Translation of one expression against the environment (the value map,
/// the function map and the arena) and the definition context.  Operands of
/// every operator are translated first; a node whose operands are all
/// constants is computed on the spot and never allocated.  The right operand
/// of a binary operator is translated before the left one.  A ternary whose
/// condition folds to a constant translates only the branch that is taken;
/// the other branch is discarded unexamined.
pub open spec fn xlate(
    vm: Map<Seq<u8>, (bool, Real)>,
    fm: Map<Seq<u8>, int>,
    av: Seq<FnV>,
    ctx: Option<(Seq<u8>, Seq<Seq<u8>>)>,
    a: AstExpr,
) -> Result<OpV, ErrV>
    decreases a,
{
    match a {
        AstExpr::Lit(n) => Ok(OpV::Con(n)),
        AstExpr::Name(x) => {
            let pi = match ctx {
                Some(c) => param_idx(c.1, x@),
                None => -1,
            };
            if pi >= 0 {
                Ok(OpV::Sym(Box::new(ExV::Param(pi))))
            } else if vm.contains_key(x@) {
                Ok(OpV::Con(vm[x@].1))
            } else {
                Err(ErrV::Undefined(x@))
            }
        },
        AstExpr::Not(e1) => match xlate(vm, fm, av, ctx, *e1) {
            Ok(OpV::Con(c)) => Ok(OpV::Con(bool_bits(!truthy(c)))),
            Ok(OpV::Sym(ex)) => Ok(OpV::Sym(Box::new(ExV::Not(ex)))),
            Err(e) => Err(e),
        },
        AstExpr::Sign(pn, e1) => match xlate(vm, fm, av, ctx, *e1) {
            Ok(OpV::Con(c)) => Ok(
                OpV::Con(
                    match pn {
                        AddSubOp::Plus => c,
                        AddSubOp::Minus => neg_bits(c),
                    },
                ),
            ),
            Ok(OpV::Sym(ex)) => Ok(
                match pn {
                    AddSubOp::Plus => OpV::Sym(ex),
                    AddSubOp::Minus => OpV::Sym(Box::new(ExV::Neg(ex))),
                },
            ),
            Err(e) => Err(e),
        },
        AstExpr::Pow(e1, e2) => match xlate(vm, fm, av, ctx, *e2) {
            Err(e) => Err(e),
            Ok(o2) => match xlate(vm, fm, av, ctx, *e1) {
                Err(e) => Err(e),
                Ok(o1) => Ok(fold_binv(BinTag::Power, o1, o2)),
            },
        },
        AstExpr::MulDiv(op, e1, e2) => match xlate(vm, fm, av, ctx, *e2) {
            Err(e) => Err(e),
            Ok(o2) => match xlate(vm, fm, av, ctx, *e1) {
                Err(e) => Err(e),
                Ok(o1) => Ok(
                    fold_binv(
                        match op {
                            MulDivOp::Mul => BinTag::Prod,
                            MulDivOp::Div => BinTag::Quot,
                        },
                        o1,
                        o2,
                    ),
                ),
            },
        },
        AstExpr::AddSub(op, e1, e2) => match xlate(vm, fm, av, ctx, *e2) {
            Err(e) => Err(e),
            Ok(o2) => match xlate(vm, fm, av, ctx, *e1) {
                Err(e) => Err(e),
                Ok(o1) => Ok(
                    fold_binv(
                        match op {
                            AddSubOp::Plus => BinTag::Sum,
                            AddSubOp::Minus => BinTag::Diff,
                        },
                        o1,
                        o2,
                    ),
                ),
            },
        },
        AstExpr::Rel(op, e1, e2) => match xlate(vm, fm, av, ctx, *e2) {
            Err(e) => Err(e),
            Ok(o2) => match xlate(vm, fm, av, ctx, *e1) {
                Err(e) => Err(e),
                Ok(o1) => Ok(
                    match (o1, o2) {
                        (OpV::Con(c1), OpV::Con(c2)) => OpV::Con(op.on_spec(c1, c2)),
                        (o1, o2) => OpV::Sym(Box::new(ExV::Rel(op, o1, o2))),
                    },
                ),
            },
        },
        AstExpr::Or(e1, e2) => match xlate(vm, fm, av, ctx, *e2) {
            Err(e) => Err(e),
            Ok(o2) => match xlate(vm, fm, av, ctx, *e1) {
                Err(e) => Err(e),
                Ok(o1) => Ok(
                    match (o1, o2) {
                        (OpV::Con(c1), OpV::Con(c2)) => OpV::Con(
                            bool_bits(truthy(c1) || truthy(c2)),
                        ),
                        (o1, o2) => OpV::Sym(Box::new(ExV::LogOr(o1, o2))),
                    },
                ),
            },
        },
        AstExpr::And(e1, e2) => match xlate(vm, fm, av, ctx, *e2) {
            Err(e) => Err(e),
            Ok(o2) => match xlate(vm, fm, av, ctx, *e1) {
                Err(e) => Err(e),
                Ok(o1) => Ok(
                    match (o1, o2) {
                        (OpV::Con(c1), OpV::Con(c2)) => OpV::Con(
                            bool_bits(truthy(c1) && truthy(c2)),
                        ),
                        (o1, o2) => OpV::Sym(Box::new(ExV::LogAnd(o1, o2))),
                    },
                ),
            },
        },
        AstExpr::Ternary(c, e1, e2) => match xlate(vm, fm, av, ctx, *c) {
            Err(e) => Err(e),
            Ok(OpV::Con(cv)) => if truthy(cv) {
                xlate(vm, fm, av, ctx, *e1)
            } else {
                xlate(vm, fm, av, ctx, *e2)
            },
            Ok(OpV::Sym(cx)) => match xlate(vm, fm, av, ctx, *e1) {
                Err(e) => Err(e),
                Ok(o1) => match xlate(vm, fm, av, ctx, *e2) {
                    Err(e) => Err(e),
                    Ok(o2) => Ok(OpV::Sym(Box::new(ExV::Cond(cx, o1, o2)))),
                },
            },
        },
        AstExpr::Call(name, args) => match xlate_args(vm, fm, av, ctx, args@) {
            Err(e) => Err(e),
            Ok(ops) => {
                let selfcall = match ctx {
                    Some(c) => c.0 == name@,
                    None => false,
                };
                let sar = match ctx {
                    Some(c) => c.1.len() as int,
                    None => 0,
                };
                if selfcall {
                    if ops.len() != sar {
                        Err(ErrV::Arity(name@))
                    } else {
                        Ok(OpV::Sym(Box::new(ExV::Invoke(None, ops))))
                    }
                } else if !fm.contains_key(name@) {
                    Err(ErrV::Undefined(name@))
                } else {
                    let idx = fm[name@];
                    if av[idx].arity != ops.len() {
                        Err(ErrV::Arity(name@))
                    } else if all_con(ops) {
                        Ok(OpV::Con(invoke_total(av, av[idx], con_vals(ops))))
                    } else {
                        Ok(OpV::Sym(Box::new(ExV::Invoke(Some(idx), ops))))
                    }
                }
            },
        },
    }
}

pub open spec fn xlate_args(
    vm: Map<Seq<u8>, (bool, Real)>,
    fm: Map<Seq<u8>, int>,
    av: Seq<FnV>,
    ctx: Option<(Seq<u8>, Seq<Seq<u8>>)>,
    s: Seq<AstExpr>,
) -> Result<Seq<OpV>, ErrV>
    decreases s,
{
    if s.len() == 0 {
        Ok(Seq::empty())
    } else {
        match xlate(vm, fm, av, ctx, s[0]) {
            Err(e) => Err(e),
            Ok(o) => match xlate_args(vm, fm, av, ctx, s.drop_first()) {
                Err(e) => Err(e),
                Ok(rest) => Ok(seq![o] + rest),
            },
        }
    }
}

/// The environment is sound: the arena is well formed and every function
/// binding points into it.
pub open spec fn env_ok(functions: Seq<FnBinding>, arena: Seq<FunctionDef>) -> bool {
    &&& wf_arena(arena_view(arena))
    &&& forall|n: Seq<u8>|
        fns_map(functions).contains_key(n) ==> 0 <= #[trigger] fns_map(functions)[n]
            < arena.len()
}

fn apply_bin(t: BinTag, v1: Real, v2: Real) -> (r: Real)
    ensures
        r == bin_app(t, v1, v2),
{
    match t {
        BinTag::Power => real_pow(v1, v2),
        BinTag::Prod => real_mul(v1, v2),
        BinTag::Quot => real_div(v1, v2),
        BinTag::Sum => real_add(v1, v2),
        BinTag::Diff => real_sub(v1, v2),
    }
}

proof fn lemma_ops_view_push(s: Seq<Operand>, o: Operand)
    ensures
        ops_view(s.push(o)) == ops_view(s).push(op_view(o)),
{
    lemma_ops_view_index(s);
    lemma_ops_view_index(s.push(o));
    assert(ops_view(s.push(o)) =~= ops_view(s).push(op_view(o)));
}

/// Translates one expression of the syntax tree into an expression value,
/// folding every operator whose operands are already constants; the
/// environment is read, never changed.
#[verifier::loop_isolation(false)]
#[verifier::rlimit(50)]
fn translate_expression(
    values: &Vec<ValBinding>,
    functions: &Vec<FnBinding>,
    arena: &Vec<FunctionDef>,
    ctx: Option<&DefCtx>,
    a: &AstExpr,
) -> (r: Result<Operand, InputError>)
    requires
        env_ok(functions@, arena@),
    ensures
        match r {
            Ok(op) => xlate(
                vals_map(values@),
                fns_map(functions@),
                arena_view(arena@),
                ctx_view(ctx),
                *a,
            ) == Ok::<OpV, ErrV>(op_view(op)),
            Err(e) => xlate(
                vals_map(values@),
                fns_map(functions@),
                arena_view(arena@),
                ctx_view(ctx),
                *a,
            ) == Err::<OpV, ErrV>(err_view(e)),
        },
    decreases a,
{
    match a {
        AstExpr::Lit(n) => Ok(Operand::Con(*n)),
        AstExpr::Name(x) => {
            match ctx {
                Some(d) => {
                    let mut j: usize = 0;
                    while j < d.vars.len()
                        invariant
                            j <= d.vars@.len(),
                            forall|k: int| 0 <= k < j ==> vars_view(d.vars@)[k] != x@,
                        decreases d.vars@.len() - j,
                    {
                        if ident_eq(&d.vars[j], x) {
                            proof {
                                lemma_param_idx(vars_view(d.vars@), x@, j as int);
                            }
                            return Ok(Operand::Sym(Box::new(Expr::Param(j))));
                        }
                        j = j + 1;
                    }
                    proof {
                        lemma_param_idx(vars_view(d.vars@), x@, d.vars@.len() as int);
                    }
                },
                None => {},
            }
            match lookup_val(values, x) {
                Some(bv) => Ok(Operand::Con(bv.1)),
                None => Err(InputError::UndefinedIdentifier { ident: clone_ident(x) }),
            }
        },
        AstExpr::Not(e1) => match translate_expression(values, functions, arena, ctx, e1) {
            Err(e) => Err(e),
            Ok(Operand::Con(c)) => Ok(
                Operand::Con(
                    if is_truthy(c) {
                        ZERO_BITS
                    } else {
                        ONE_BITS
                    },
                ),
            ),
            Ok(Operand::Sym(ex)) => Ok(Operand::Sym(Box::new(Expr::Not(ex)))),
        },
        AstExpr::Sign(pn, e1) => match translate_expression(values, functions, arena, ctx, e1) {
            Err(e) => Err(e),
            Ok(Operand::Con(c)) => Ok(
                Operand::Con(
                    match pn {
                        AddSubOp::Plus => c,
                        AddSubOp::Minus => real_neg(c),
                    },
                ),
            ),
            Ok(Operand::Sym(ex)) => Ok(
                match pn {
                    AddSubOp::Plus => Operand::Sym(ex),
                    AddSubOp::Minus => Operand::Sym(Box::new(Expr::Neg(ex))),
                },
            ),
        },
        AstExpr::Pow(e1, e2) => match translate_expression(values, functions, arena, ctx, e2) {
            Err(e) => Err(e),
            Ok(o2) => match translate_expression(values, functions, arena, ctx, e1) {
                Err(e) => Err(e),
                Ok(o1) => Ok(fold_bin(BinTag::Power, o1, o2)),
            },
        },
        AstExpr::MulDiv(op, e1, e2) => match translate_expression(values, functions, arena, ctx, e2) {
            Err(e) => Err(e),
            Ok(o2) => match translate_expression(values, functions, arena, ctx, e1) {
                Err(e) => Err(e),
                Ok(o1) => Ok(
                    fold_bin(
                        match op {
                            MulDivOp::Mul => BinTag::Prod,
                            MulDivOp::Div => BinTag::Quot,
                        },
                        o1,
                        o2,
                    ),
                ),
            },
        },
        AstExpr::AddSub(op, e1, e2) => match translate_expression(values, functions, arena, ctx, e2) {
            Err(e) => Err(e),
            Ok(o2) => match translate_expression(values, functions, arena, ctx, e1) {
                Err(e) => Err(e),
                Ok(o1) => Ok(
                    fold_bin(
                        match op {
                            AddSubOp::Plus => BinTag::Sum,
                            AddSubOp::Minus => BinTag::Diff,
                        },
                        o1,
                        o2,
                    ),
                ),
            },
        },
        AstExpr::Rel(op, e1, e2) => match translate_expression(values, functions, arena, ctx, e2) {
            Err(e) => Err(e),
            Ok(o2) => match translate_expression(values, functions, arena, ctx, e1) {
                Err(e) => Err(e),
                Ok(o1) => match (o1, o2) {
                    (Operand::Con(c1), Operand::Con(c2)) => Ok(Operand::Con(op.on(c1, c2))),
                    (o1, o2) => Ok(Operand::Sym(Box::new(Expr::Rel(*op, o1, o2)))),
                },
            },
        },
        AstExpr::Or(e1, e2) => match translate_expression(values, functions, arena, ctx, e2) {
            Err(e) => Err(e),
            Ok(o2) => match translate_expression(values, functions, arena, ctx, e1) {
                Err(e) => Err(e),
                Ok(o1) => match (o1, o2) {
                    (Operand::Con(c1), Operand::Con(c2)) => Ok(
                        Operand::Con(
                            if is_truthy(c1) || is_truthy(c2) {
                                ONE_BITS
                            } else {
                                ZERO_BITS
                            },
                        ),
                    ),
                    (o1, o2) => Ok(Operand::Sym(Box::new(Expr::LogOr(o1, o2)))),
                },
            },
        },
        AstExpr::And(e1, e2) => match translate_expression(values, functions, arena, ctx, e2) {
            Err(e) => Err(e),
            Ok(o2) => match translate_expression(values, functions, arena, ctx, e1) {
                Err(e) => Err(e),
                Ok(o1) => match (o1, o2) {
                    (Operand::Con(c1), Operand::Con(c2)) => Ok(
                        Operand::Con(
                            if is_truthy(c1) && is_truthy(c2) {
                                ONE_BITS
                            } else {
                                ZERO_BITS
                            },
                        ),
                    ),
                    (o1, o2) => Ok(Operand::Sym(Box::new(Expr::LogAnd(o1, o2)))),
                },
            },
        },
        AstExpr::Ternary(c, e1, e2) => match translate_expression(values, functions, arena, ctx, c) {
            Err(e) => Err(e),
            Ok(Operand::Con(cv)) => if is_truthy(cv) {
                translate_expression(values, functions, arena, ctx, e1)
            } else {
                translate_expression(values, functions, arena, ctx, e2)
            },
            Ok(Operand::Sym(cx)) => match translate_expression(values, functions, arena, ctx, e1) {
                Err(e) => Err(e),
                Ok(o1) => match translate_expression(values, functions, arena, ctx, e2) {
                    Err(e) => Err(e),
                    Ok(o2) => Ok(Operand::Sym(Box::new(Expr::Cond(cx, o1, o2)))),
                },
            },
        },
        AstExpr::Call(name, args) => {
            let ghost vm = vals_map(values@);
            let ghost fm = fns_map(functions@);
            let ghost av = arena_view(arena@);
            let ghost cxv = ctx_view(ctx);
            let ghost sargs = args@;
            let mut ops: Vec<Operand> = Vec::new();
            let mut i: usize = 0;
            proof {
                assert(sargs.subrange(0, sargs.len() as int) =~= sargs);
                match xlate_args(vm, fm, av, cxv, sargs) {
                    Ok(rest) => {
                        assert(ops_view(ops@) =~= Seq::<OpV>::empty());
                        assert(ops_view(ops@) + rest =~= rest);
                    },
                    Err(_) => {},
                }
            }
            while i < args.len()
                invariant
                    i <= sargs.len(),
                    ops@.len() == i,
                    xlate_args(vm, fm, av, cxv, sargs) == (match xlate_args(
                        vm,
                        fm,
                        av,
                        cxv,
                        sargs.subrange(i as int, sargs.len() as int),
                    ) {
                        Ok(rest) => Ok::<Seq<OpV>, ErrV>(ops_view(ops@) + rest),
                        Err(e) => Err::<Seq<OpV>, ErrV>(e),
                    }),
                decreases sargs.len() - i,
            {
                proof {
                    assert(decreases_to!(*a => a->Call_1));
                    assert(decreases_to!(a->Call_1 => a->Call_1@));
                    assert(decreases_to!(a->Call_1@ => a->Call_1@[i as int]));
                    assert(a->Call_1@[i as int] == sargs[i as int]);
                    let sub_i = sargs.subrange(i as int, sargs.len() as int);
                    assert(sub_i[0] == sargs[i as int]);
                    assert(sub_i.drop_first() =~= sargs.subrange(i + 1, sargs.len() as int));
                }
                match translate_expression(values, functions, arena, ctx, &args[i]) {
                    Ok(o) => {
                        proof {
                            lemma_ops_view_push(ops@, o);
                            match xlate_args(
                                vm,
                                fm,
                                av,
                                cxv,
                                sargs.subrange(i + 1, sargs.len() as int),
                            ) {
                                Ok(rest) => {
                                    assert(ops_view(ops@) + (seq![op_view(o)] + rest)
                                        =~= ops_view(ops@).push(op_view(o)) + rest);
                                },
                                Err(_) => {},
                            }
                        }
                        ops.push(o);
                        i = i + 1;
                    },
                    Err(e) => {
                        return Err(e);
                    },
                }
            }
            proof {
                assert(sargs.subrange(i as int, sargs.len() as int) =~= Seq::<AstExpr>::empty());
                assert(ops_view(ops@) + Seq::<OpV>::empty() =~= ops_view(ops@));
            }
            let ghost sops = ops_view(ops@);
            proof {
                lemma_ops_view_index(ops@);
            }
            if let Some(d) = ctx {
                if ident_eq(name, &d.name) {
                    if ops.len() != d.vars.len() {
                        return Err(
                            InputError::InconsistentVariablesCount { ident: clone_ident(name) },
                        );
                    }
                    return Ok(Operand::Sym(Box::new(Expr::Invoke(None, ops))));
                }
            }
            match lookup_fn(functions, name) {
                None => Err(InputError::UndefinedIdentifier { ident: clone_ident(name) }),
                Some(idx) => {
                    if arena[idx].arity != ops.len() {
                        return Err(
                            InputError::InconsistentVariablesCount { ident: clone_ident(name) },
                        );
                    }
                    let mut nums: Vec<Real> = Vec::new();
                    let mut k: usize = 0;
                    let mut allcon: bool = true;
                    while k < ops.len() && allcon
                        invariant
                            k <= ops@.len(),
                            allcon ==> nums@.len() == k,
                            allcon ==> forall|j: int|
                                0 <= j < k ==> (#[trigger] sops[j]) is Con && nums@[j] == sops[
                                j]->Con_0,
                            !allcon ==> !all_con(sops),
                        decreases ops@.len() - k + (if allcon {
                            1int
                        } else {
                            0int
                        }),
                    {
                        match &ops[k] {
                            Operand::Con(v) => {
                                nums.push(*v);
                                k = k + 1;
                            },
                            Operand::Sym(_) => {
                                proof {
                                    assert(sops[k as int] == op_view(ops@[k as int]));
                                    assert(!(sops[k as int] is Con));
                                }
                                allcon = false;
                            },
                        }
                    }
                    if allcon {
                        proof {
                            assert(all_con(sops));
                            assert(nums@ =~= con_vals(sops));
                            assert(av[idx as int] == fn_view(arena@[idx as int]));
                            lemma_wf_fnv_mono(av, idx as int, av[idx as int]);
                        }
                        match invoke(arena, &arena[idx], &nums, CALL_BUDGET) {
                            Some(v) => Ok(Operand::Con(v)),
                            None => Ok(Operand::Con(ZERO_BITS)),
                        }
                    } else {
                        Ok(Operand::Sym(Box::new(Expr::Invoke(Some(idx), ops))))
                    }
                },
            }
        },
    }
}

fn fold_bin(t: BinTag, o1: Operand, o2: Operand) -> (r: Operand)
    ensures
        op_view(r) == fold_binv(t, op_view(o1), op_view(o2)),
{
    let both_con = match (&o1, &o2) {
        (Operand::Con(_), Operand::Con(_)) => true,
        _ => false,
    };
    if both_con {
        let c1 = match &o1 {
            Operand::Con(c) => *c,
            _ => 0,
        };
        let c2 = match &o2 {
            Operand::Con(c) => *c,
            _ => 0,
        };
        Operand::Con(apply_bin(t, c1, c2))
    } else {
        Operand::Sym(
            Box::new(
                match t {
                    BinTag::Power => Expr::Power(o1, o2),
                    BinTag::Prod => Expr::Prod(o1, o2),
                    BinTag::Quot => Expr::Quot(o1, o2),
                    BinTag::Sum => Expr::Sum(o1, o2),
                    BinTag::Diff => Expr::Diff(o1, o2),
                },
            ),
        )
    }
}

// ---------------------------------------------------------------------------
// Statement translation.

/// What submitting one line can report.
#[derive(Debug, Clone, Copy, PartialEq, Eq, Structural)]
pub enum InputState {
    Empty,
    Incomplete,
    Assignment,
    Expression,
}

pub open spec fn out_view(r: Result<InputState, InputError>) -> Result<InputState, ErrV> {
    match r {
        Ok(s) => Ok(s),
        Err(e) => Err(err_view(e)),
    }
}

/// A name is protected when it is a builtin value or a native function.
pub open spec fn is_builtin_value_spec(vm: Map<Seq<u8>, (bool, Real)>, n: Seq<u8>) -> bool {
    vm.contains_key(n) && vm[n].0
}

pub open spec fn is_builtin_spec(
    vm: Map<Seq<u8>, (bool, Real)>,
    fm: Map<Seq<u8>, int>,
    av: Seq<FnV>,
    n: Seq<u8>,
) -> bool {
    is_builtin_value_spec(vm, n) || (fm.contains_key(n) && av[fm[n]].body is Native)
}

/// The first parameter name that is a protected value, scanning from
/// position i.
pub open spec fn first_builtin_var(
    vm: Map<Seq<u8>, (bool, Real)>,
    vv: Seq<Seq<u8>>,
    i: int,
) -> Option<Seq<u8>>
    decreases vv.len() - i,
{
    if i < 0 || i >= vv.len() {
        None
    } else if is_builtin_value_spec(vm, vv[i]) {
        Some(vv[i])
    } else {
        first_builtin_var(vm, vv, i + 1)
    }
}

/// The first parameter name that repeats an earlier one, scanning from
/// position i.
pub open spec fn find_dup(vv: Seq<Seq<u8>>, i: int) -> Option<Seq<u8>>
    decreases vv.len() - i,
{
    if i < 0 || i >= vv.len() {
        None
    } else if param_idx(vv.subrange(0, i), vv[i]) >= 0 {
        Some(vv[i])
    } else {
        find_dup(vv, i + 1)
    }
}

/// What one syntactically complete statement does to the environment: the
/// outcome reported, the new value map, function map and arena.  A failed
/// statement leaves every part of the environment untouched.
pub open spec fn stmt_effect(
    vm: Map<Seq<u8>, (bool, Real)>,
    fm: Map<Seq<u8>, int>,
    av: Seq<FnV>,
    ast: Ast,
    out: Result<InputState, ErrV>,
    vm2: Map<Seq<u8>, (bool, Real)>,
    fm2: Map<Seq<u8>, int>,
    av2: Seq<FnV>,
) -> bool {
    match ast {
        Ast::Assign(name, e) => {
            if is_builtin_value_spec(vm, name@) {
                out == Err::<InputState, ErrV>(ErrV::Builtin(name@)) && vm2 == vm && fm2 == fm
                    && av2 == av
            } else {
                match xlate(vm, fm, av, None, *e) {
                    Ok(op) => op is Con && out == Ok::<InputState, ErrV>(InputState::Assignment)
                        && vm2 == vm.insert(name@, (false, op->Con_0)) && fm2 == fm && av2 == av,
                    Err(ev) => out == Err::<InputState, ErrV>(ev) && vm2 == vm && fm2 == fm && av2
                        == av,
                }
            }
        },
        Ast::Define(name, vars, e) => {
            let vv = vars_view(vars@);
            if first_builtin_var(vm, vv, 0) is Some {
                out == Err::<InputState, ErrV>(ErrV::Builtin(first_builtin_var(vm, vv, 0)->0))
                    && vm2 == vm && fm2 == fm && av2 == av
            } else if find_dup(vv, 0) is Some {
                out == Err::<InputState, ErrV>(ErrV::Repeat(find_dup(vv, 0)->0)) && vm2 == vm
                    && fm2 == fm && av2 == av
            } else if is_builtin_spec(vm, fm, av, name@) {
                out == Err::<InputState, ErrV>(ErrV::Builtin(name@)) && vm2 == vm && fm2 == fm
                    && av2 == av
            } else {
                match xlate(vm, fm, av, Some((name@, vv)), *e) {
                    Ok(op) => out == Ok::<InputState, ErrV>(InputState::Assignment) && vm2 == vm
                        && fm2 == fm.insert(name@, av.len() as int) && av2 == av.push(
                        FnV { arity: vv.len() as int, body: FnImplV::User(op) },
                    ),
                    Err(ev) => out == Err::<InputState, ErrV>(ev) && vm2 == vm && fm2 == fm && av2
                        == av,
                }
            }
        },
        Ast::Bare(e) => match xlate(vm, fm, av, None, *e) {
            Ok(op) => op is Con && out == Ok::<InputState, ErrV>(InputState::Expression) && vm2
                == vm.insert(seq![0x5Fu8], (false, op->Con_0)) && fm2 == fm && av2 == av,
            Err(ev) => out == Err::<InputState, ErrV>(ev) && vm2 == vm && fm2 == fm && av2 == av,
        },
    }
}

proof fn lemma_param_idx_range(vv: Seq<Seq<u8>>, n: Seq<u8>)
    ensures
        param_idx(vv, n) < vv.len(),
        param_idx(vv, n) >= 0 ==> vv.len() > 0,
    decreases vv,
{
    if vv.len() > 0 && vv[0] != n {
        lemma_param_idx_range(vv.drop_first(), n);
    }
}

/// Translation without a definition context yields constants only: with no
/// parameters to refer to, everything folds.
proof fn lemma_xlate_con(
    vm: Map<Seq<u8>, (bool, Real)>,
    fm: Map<Seq<u8>, int>,
    av: Seq<FnV>,
    a: AstExpr,
)
    ensures
        xlate(vm, fm, av, None, a) matches Ok(op) ==> op is Con,
    decreases a,
{
    match a {
        AstExpr::Not(e1) => lemma_xlate_con(vm, fm, av, *e1),
        AstExpr::Sign(_, e1) => lemma_xlate_con(vm, fm, av, *e1),
        AstExpr::Pow(e1, e2) | AstExpr::MulDiv(_, e1, e2) | AstExpr::AddSub(_, e1, e2)
            | AstExpr::Rel(_, e1, e2) | AstExpr::Or(e1, e2) | AstExpr::And(e1, e2) => {
            lemma_xlate_con(vm, fm, av, *e1);
            lemma_xlate_con(vm, fm, av, *e2);
        },
        AstExpr::Ternary(c, e1, e2) => {
            lemma_xlate_con(vm, fm, av, *c);
            lemma_xlate_con(vm, fm, av, *e1);
            lemma_xlate_con(vm, fm, av, *e2);
        },
        AstExpr::Call(_, args) => {
            lemma_xlate_args_con(vm, fm, av, args@);
        },
        AstExpr::Name(_) => {},
        AstExpr::Lit(_) => {},
    }
}

proof fn lemma_xlate_args_con(
    vm: Map<Seq<u8>, (bool, Real)>,
    fm: Map<Seq<u8>, int>,
    av: Seq<FnV>,
    s: Seq<AstExpr>,
)
    ensures
        xlate_args(vm, fm, av, None, s) matches Ok(ops) ==> all_con(ops),
    decreases s,
{
    if s.len() > 0 {
        lemma_xlate_con(vm, fm, av, s[0]);
        lemma_xlate_args_con(vm, fm, av, s.drop_first());
        match xlate_args(vm, fm, av, None, s) {
            Ok(ops) => {
                match xlate(vm, fm, av, None, s[0]) {
                    Ok(o) => {
                        match xlate_args(vm, fm, av, None, s.drop_first()) {
                            Ok(rest) => {
                                assert(ops == seq![o] + rest);
                                assert forall|i: int| 0 <= i < ops.len() implies (
                                #[trigger] ops[i]) is Con by {
                                    if i == 0 {
                                        assert(ops[0] == o);
                                    } else {
                                        assert(ops[i] == rest[i - 1]);
                                    }
                                }
                            },
                            Err(_) => {},
                        }
                    },
                    Err(_) => {},
                }
            },
            Err(_) => {},
        }
    }
}

pub open spec fn ar_of(ctx: Option<(Seq<u8>, Seq<Seq<u8>>)>) -> int {
    match ctx {
        Some(c) => c.1.len() as int,
        None => 0,
    }
}

/// A translated expression is well formed: parameter references stay below
/// the context's arity and invoke nodes point at installed functions of
/// matching arity.
proof fn lemma_xlate_wf(
    vm: Map<Seq<u8>, (bool, Real)>,
    fm: Map<Seq<u8>, int>,
    av: Seq<FnV>,
    ctx: Option<(Seq<u8>, Seq<Seq<u8>>)>,
    a: AstExpr,
)
    requires
        forall|n: Seq<u8>| fm.contains_key(n) ==> 0 <= #[trigger] fm[n] < av.len(),
    ensures
        xlate(vm, fm, av, ctx, a) matches Ok(op) ==> wf_opv(av, av.len() as int, ar_of(ctx), op),
    decreases a,
{
    match a {
        AstExpr::Not(e1) => lemma_xlate_wf(vm, fm, av, ctx, *e1),
        AstExpr::Sign(_, e1) => lemma_xlate_wf(vm, fm, av, ctx, *e1),
        AstExpr::Pow(e1, e2) | AstExpr::MulDiv(_, e1, e2) | AstExpr::AddSub(_, e1, e2)
            | AstExpr::Rel(_, e1, e2) | AstExpr::Or(e1, e2) | AstExpr::And(e1, e2) => {
            lemma_xlate_wf(vm, fm, av, ctx, *e1);
            lemma_xlate_wf(vm, fm, av, ctx, *e2);
        },
        AstExpr::Ternary(c, e1, e2) => {
            lemma_xlate_wf(vm, fm, av, ctx, *c);
            lemma_xlate_wf(vm, fm, av, ctx, *e1);
            lemma_xlate_wf(vm, fm, av, ctx, *e2);
        },
        AstExpr::Name(x) => {
            match ctx {
                Some(c) => lemma_param_idx_range(c.1, x@),
                None => {},
            }
        },
        AstExpr::Lit(_) => {},
        AstExpr::Call(name, args) => {
            lemma_xlate_args_wf(vm, fm, av, ctx, args@);
        },
    }
}

proof fn lemma_xlate_args_wf(
    vm: Map<Seq<u8>, (bool, Real)>,
    fm: Map<Seq<u8>, int>,
    av: Seq<FnV>,
    ctx: Option<(Seq<u8>, Seq<Seq<u8>>)>,
    s: Seq<AstExpr>,
)
    requires
        forall|n: Seq<u8>| fm.contains_key(n) ==> 0 <= #[trigger] fm[n] < av.len(),
    ensures
        xlate_args(vm, fm, av, ctx, s) matches Ok(ops) ==> wf_opsv(
            av,
            av.len() as int,
            ar_of(ctx),
            ops,
        ),
    decreases s,
{
    if s.len() > 0 {
        lemma_xlate_wf(vm, fm, av, ctx, s[0]);
        lemma_xlate_args_wf(vm, fm, av, ctx, s.drop_first());
        match xlate_args(vm, fm, av, ctx, s) {
            Ok(ops) => {
                match xlate(vm, fm, av, ctx, s[0]) {
                    Ok(o) => {
                        match xlate_args(vm, fm, av, ctx, s.drop_first()) {
                            Ok(rest) => {
                                assert(ops == seq![o] + rest);
                                assert(ops[0] == o);
                                assert(ops.drop_first() =~= rest);
                            },
                            Err(_) => {},
                        }
                    },
                    Err(_) => {},
                }
            },
            Err(_) => {},
        }
    }
}

// ---------------------------------------------------------------------------
// The interpreter.

pub open spec fn underscore_name() -> Seq<u8> {
    seq![0x5Fu8]
}

pub open spec fn pi_name() -> Seq<u8> {
    seq![0x70u8, 0x69u8]
}

pub open spec fn e_name() -> Seq<u8> {
    seq![0x65u8]
}

fn ident1(a: u8) -> (r: Vec<u8>)
    ensures
        r@ == seq![a],
{
    let mut r: Vec<u8> = Vec::new();
    r.push(a);
    proof {
        assert(r@ =~= seq![a]);
    }
    r
}

fn ident2(a: u8, b: u8) -> (r: Vec<u8>)
    ensures
        r@ == seq![a, b],
{
    let mut r: Vec<u8> = Vec::new();
    r.push(a);
    r.push(b);
    proof {
        assert(r@ =~= seq![a, b]);
    }
    r
}

fn ident3(a: u8, b: u8, c: u8) -> (r: Vec<u8>)
    ensures
        r@ == seq![a, b, c],
{
    let mut r: Vec<u8> = Vec::new();
    r.push(a);
    r.push(b);
    r.push(c);
    proof {
        assert(r@ =~= seq![a, b, c]);
    }
    r
}

fn ident4(a: u8, b: u8, c: u8, d: u8) -> (r: Vec<u8>)
    ensures
        r@ == seq![a, b, c, d],
{
    let mut r: Vec<u8> = Vec::new();
    r.push(a);
    r.push(b);
    r.push(c);
    r.push(d);
    proof {
        assert(r@ =~= seq![a, b, c, d]);
    }
    r
}

fn ident5(a: u8, b: u8, c: u8, d: u8, e: u8) -> (r: Vec<u8>)
    ensures
        r@ == seq![a, b, c, d, e],
{
    let mut r: Vec<u8> = Vec::new();
    r.push(a);
    r.push(b);
    r.push(c);
    r.push(d);
    r.push(e);
    proof {
        assert(r@ =~= seq![a, b, c, d, e]);
    }
    r
}

/// The engine: the persistent environment of named values and functions,
/// and the parser state of a statement that spans several lines.
pub struct Interpreter {
    values: Vec<ValBinding>,
    functions: Vec<FnBinding>,
    arena: Vec<FunctionDef>,
    pending: Option<Parser>,
}

impl Interpreter {
    /// The value table: name to (protected, value).
    pub closed spec fn values_model(&self) -> Map<Seq<u8>, (bool, Real)> {
        vals_map(self.values@)
    }

    /// The function table: name to arena index.
    pub closed spec fn fns_model(&self) -> Map<Seq<u8>, int> {
        fns_map(self.functions@)
    }

    /// Every function ever installed, in order of installation; bindings
    /// point into it and old entries are never changed.
    pub closed spec fn arena_model(&self) -> Seq<FnV> {
        arena_view(self.arena@)
    }

    /// Whether an incomplete statement's parse is being held.
    pub closed spec fn has_pending(&self) -> bool {
        self.pending is Some
    }

    /// The retained parse of an incomplete statement: the automaton state
    /// after the tokens fed so far.
    pub closed spec fn pending_model(&self) -> Option<ParserV> {
        match self.pending {
            Some(p) => Some(p.model()),
            None => None,
        }
    }

    /// The environment is sound: well-formed arena, bindings in range, and
    /// the distinguished result name present.
    pub closed spec fn inv(&self) -> bool {
        &&& wf_arena(arena_view(self.arena@))
        &&& forall|n: Seq<u8>|
            fns_map(self.functions@).contains_key(n) ==> 0 <= #[trigger] fns_map(
                self.functions@,
            )[n] < self.arena@.len()
        &&& vals_map(self.values@).contains_key(underscore_name())
    }

    fn insert_builtin_value(&mut self, ident: Vec<u8>, value: Real)
        requires
            old(self).inv(),
        ensures
            final(self).inv(),
            final(self).values_model() == old(self).values_model().insert(
                ident@,
                (true, value),
            ),
            final(self).fns_model() == old(self).fns_model(),
            final(self).arena_model() == old(self).arena_model(),
            final(self).has_pending() == old(self).has_pending(),
    {
        set_val(&mut self.values, ident, true, value);
    }

    fn insert_builtin_fn(&mut self, ident: Vec<u8>, op: NativeOp)
        requires
            old(self).inv(),
        ensures
            final(self).inv(),
            final(self).fns_model() == old(self).fns_model().insert(
                ident@,
                old(self).arena_model().len() as int,
            ),
            final(self).arena_model() == old(self).arena_model().push(
                FnV { arity: native_arity(op), body: FnImplV::Native(op) },
            ),
            final(self).values_model() == old(self).values_model(),
            final(self).has_pending() == old(self).has_pending(),
    {
        let ghost av0 = arena_view(self.arena@);
        let arity: usize = match op {
            NativeOp::Atan2 => 2,
            _ => 1,
        };
        let idx = self.arena.len();
        self.arena.push(FunctionDef { arity, body: FnImpl::Native(op) });
        proof {
            let av2 = arena_view(self.arena@);
            assert(av2 =~= av0.push(FnV { arity: native_arity(op), body: FnImplV::Native(op) }));
            assert forall|i: int| 0 <= i < av2.len() implies wf_fnv(av2, i, #[trigger] av2[i]) by {
                if i < av0.len() {
                    assert(wf_fnv(av0, i, av0[i]));
                    match av0[i].body {
                        FnImplV::Native(_) => {},
                        FnImplV::User(o) => {
                            lemma_wf_opv_mono(av0, av2, i, i, av0[i].arity, o);
                        },
                    }
                }
            }
        }
        set_fn(&mut self.functions, ident, idx);
    }

    /// A fresh environment, holding the builtin constants and the builtin
    /// function library, all protected.
    pub fn new() -> (itp: Interpreter)
        ensures
            itp.inv(),
            !itp.has_pending(),
            itp.values_model() == Map::<Seq<u8>, (bool, Real)>::empty().insert(
                underscore_name(),
                (false, ZERO_BITS),
            ).insert(pi_name(), (true, PI_BITS)).insert(e_name(), (true, E_BITS)),
            itp.arena_model() == seq![
                FnV { arity: 1, body: FnImplV::Native(NativeOp::Abs) },
                FnV { arity: 1, body: FnImplV::Native(NativeOp::Floor) },
                FnV { arity: 1, body: FnImplV::Native(NativeOp::Ceil) },
                FnV { arity: 1, body: FnImplV::Native(NativeOp::Round) },
                FnV { arity: 1, body: FnImplV::Native(NativeOp::Sgn) },
                FnV { arity: 1, body: FnImplV::Native(NativeOp::Sqrt) },
                FnV { arity: 1, body: FnImplV::Native(NativeOp::Cbrt) },
                FnV { arity: 1, body: FnImplV::Native(NativeOp::Sin) },
                FnV { arity: 1, body: FnImplV::Native(NativeOp::Cos) },
                FnV { arity: 1, body: FnImplV::Native(NativeOp::Tan) },
                FnV { arity: 1, body: FnImplV::Native(NativeOp::Asin) },
                FnV { arity: 1, body: FnImplV::Native(NativeOp::Acos) },
                FnV { arity: 1, body: FnImplV::Native(NativeOp::Atan) },
                FnV { arity: 2, body: FnImplV::Native(NativeOp::Atan2) },
                FnV { arity: 1, body: FnImplV::Native(NativeOp::Ln) },
                FnV { arity: 1, body: FnImplV::Native(NativeOp::Log) },
            ],
            itp.fns_model() == Map::<Seq<u8>, int>::empty().insert(seq![0x61u8, 0x62u8, 0x73u8], 0)
                .insert(seq![0x66u8, 0x6Cu8, 0x6Fu8, 0x6Fu8, 0x72u8], 1).insert(
                seq![0x63u8, 0x65u8, 0x69u8, 0x6Cu8],
                2,
            ).insert(seq![0x72u8, 0x6Fu8, 0x75u8, 0x6Eu8, 0x64u8], 3).insert(
                seq![0x73u8, 0x67u8, 0x6Eu8],
                4,
            ).insert(seq![0x73u8, 0x71u8, 0x72u8, 0x74u8], 5).insert(
                seq![0x63u8, 0x62u8, 0x72u8, 0x74u8],
                6,
            ).insert(seq![0x73u8, 0x69u8, 0x6Eu8], 7).insert(seq![0x63u8, 0x6Fu8, 0x73u8], 8)
                .insert(seq![0x74u8, 0x61u8, 0x6Eu8], 9).insert(
                seq![0x61u8, 0x73u8, 0x69u8, 0x6Eu8],
                10,
            ).insert(seq![0x61u8, 0x63u8, 0x6Fu8, 0x73u8], 11).insert(
                seq![0x61u8, 0x74u8, 0x61u8, 0x6Eu8],
                12,
            ).insert(seq![0x61u8, 0x74u8, 0x61u8, 0x6Eu8, 0x32u8], 13).insert(
                seq![0x6Cu8, 0x6Eu8],
                14,
            ).insert(seq![0x6Cu8, 0x6Fu8, 0x67u8], 15),
    {
        let mut itp = Interpreter {
            values: Vec::new(),
            functions: Vec::new(),
            arena: Vec::new(),
            pending: None,
        };
        proof {
            assert(arena_view(itp.arena@) =~= Seq::<FnV>::empty());
            assert(vals_map(itp.values@) =~= Map::<Seq<u8>, (bool, Real)>::empty());
            assert(fns_map(itp.functions@) =~= Map::<Seq<u8>, int>::empty());
        }
        set_val(&mut itp.values, ident1(0x5F), false, ZERO_BITS);
        itp.insert_builtin_value(ident2(0x70, 0x69), PI_BITS);
        itp.insert_builtin_value(ident1(0x65), E_BITS);
        itp.insert_builtin_fn(ident3(0x61, 0x62, 0x73), NativeOp::Abs);
        itp.insert_builtin_fn(ident5(0x66, 0x6C, 0x6F, 0x6F, 0x72), NativeOp::Floor);
        itp.insert_builtin_fn(ident4(0x63, 0x65, 0x69, 0x6C), NativeOp::Ceil);
        itp.insert_builtin_fn(ident5(0x72, 0x6F, 0x75, 0x6E, 0x64), NativeOp::Round);
        itp.insert_builtin_fn(ident3(0x73, 0x67, 0x6E), NativeOp::Sgn);
        itp.insert_builtin_fn(ident4(0x73, 0x71, 0x72, 0x74), NativeOp::Sqrt);
        itp.insert_builtin_fn(ident4(0x63, 0x62, 0x72, 0x74), NativeOp::Cbrt);
        itp.insert_builtin_fn(ident3(0x73, 0x69, 0x6E), NativeOp::Sin);
        itp.insert_builtin_fn(ident3(0x63, 0x6F, 0x73), NativeOp::Cos);
        itp.insert_builtin_fn(ident3(0x74, 0x61, 0x6E), NativeOp::Tan);
        itp.insert_builtin_fn(ident4(0x61, 0x73, 0x69, 0x6E), NativeOp::Asin);
        itp.insert_builtin_fn(ident4(0x61, 0x63, 0x6F, 0x73), NativeOp::Acos);
        itp.insert_builtin_fn(ident4(0x61, 0x74, 0x61, 0x6E), NativeOp::Atan);
        itp.insert_builtin_fn(ident5(0x61, 0x74, 0x61, 0x6E, 0x32), NativeOp::Atan2);
        itp.insert_builtin_fn(ident2(0x6C, 0x6E), NativeOp::Ln);
        itp.insert_builtin_fn(ident3(0x6C, 0x6F, 0x67), NativeOp::Log);
        itp
    }

    /// The value of the distinguished result identifier: what the last
    /// bare expression computed.
    pub fn last_result(&self) -> (r: Real)
        requires
            self.inv(),
        ensures
            r == self.values_model()[underscore_name()].1,
    {
        let u = ident1(0x5F);
        match lookup_val(&self.values, &u) {
            Some(bv) => bv.1,
            None => unreached(),
        }
    }

    fn is_builtin_value(&self, ident: &Vec<u8>) -> (r: bool)
        ensures
            r == is_builtin_value_spec(self.values_model(), ident@),
    {
        match lookup_val(&self.values, ident) {
            Some(bv) => bv.0,
            None => false,
        }
    }

    fn is_builtin(&self, ident: &Vec<u8>) -> (r: bool)
        requires
            self.inv(),
        ensures
            r == is_builtin_spec(self.values_model(), self.fns_model(), self.arena_model(), ident@),
    {
        if self.is_builtin_value(ident) {
            return true;
        }
        match lookup_fn(&self.functions, ident) {
            Some(idx) => match &self.arena[idx].body {
                FnImpl::Native(_) => true,
                FnImpl::User(_) => false,
            },
            None => false,
        }
    }

    /// Checks a definition's parameter list: no parameter may shadow a
    /// protected value.
    #[verifier::loop_isolation(false)]
    fn translate_variable_list(&self, vars: &Vec<Ident>) -> (r: Result<(), InputError>)
        ensures
            match r {
                Ok(_) => first_builtin_var(self.values_model(), vars_view(vars@), 0) is None,
                Err(e) => {
                    &&& first_builtin_var(self.values_model(), vars_view(vars@), 0) matches Some(
                        n,
                    )
                    &&& err_view(e) == ErrV::Builtin(
                        first_builtin_var(self.values_model(), vars_view(vars@), 0)->0,
                    )
                },
            },
    {
        let ghost vm = self.values_model();
        let ghost vv = vars_view(vars@);
        let mut i: usize = 0;
        while i < vars.len()
            invariant
                i <= vv.len(),
                first_builtin_var(vm, vv, 0) == first_builtin_var(vm, vv, i as int),
            decreases vv.len() - i,
        {
            if self.is_builtin_value(&vars[i]) {
                return Err(InputError::BuiltinIdentifier { ident: clone_ident(&vars[i]) });
            }
            i = i + 1;
        }
        Ok(())
    }

    /// Executes one syntactically complete statement against the
    /// environment.
    #[verifier::loop_isolation(false)]
    fn translate_ast(&mut self, ast: Ast) -> (r: Result<InputState, InputError>)
        requires
            old(self).inv(),
        ensures
            final(self).inv(),
            final(self).has_pending() == old(self).has_pending(),
            stmt_effect(
                old(self).values_model(),
                old(self).fns_model(),
                old(self).arena_model(),
                ast,
                out_view(r),
                final(self).values_model(),
                final(self).fns_model(),
                final(self).arena_model(),
            ),
    {
        let ghost vm = vals_map(self.values@);
        let ghost fm = fns_map(self.functions@);
        let ghost av = arena_view(self.arena@);
        match ast {
            Ast::Assign(name, e) => {
                if self.is_builtin_value(&name) {
                    return Err(InputError::BuiltinIdentifier { ident: name });
                }
                match translate_expression(&self.values, &self.functions, &self.arena, None, &*e) {
                    Err(err) => Err(err),
                    Ok(op) => {
                        proof {
                            lemma_xlate_con(vm, fm, av, *e);
                        }
                        match op {
                            Operand::Con(v) => {
                                set_val(&mut self.values, name, false, v);
                                Ok(InputState::Assignment)
                            },
                            Operand::Sym(_) => unreached(),
                        }
                    },
                }
            },
            Ast::Bare(e) => {
                match translate_expression(&self.values, &self.functions, &self.arena, None, &*e) {
                    Err(err) => Err(err),
                    Ok(op) => {
                        proof {
                            lemma_xlate_con(vm, fm, av, *e);
                        }
                        match op {
                            Operand::Con(v) => {
                                set_val(&mut self.values, ident1(0x5F), false, v);
                                Ok(InputState::Expression)
                            },
                            Operand::Sym(_) => unreached(),
                        }
                    },
                }
            },
            Ast::Define(name, vars, e) => {
                let ghost vv = vars_view(vars@);
                match self.translate_variable_list(&vars) {
                    Err(err) => {
                        return Err(err);
                    },
                    Ok(_) => {},
                }
                let mut di: usize = 1;
                while di < vars.len()
                    invariant
                        1 <= di <= vv.len() || (vv.len() == 0 && di == 1),
                        find_dup(vv, 0) == find_dup(vv, di as int),
                    decreases vv.len() - di,
                {
                    let mut j: usize = 0;
                    while j < di
                        invariant
                            j <= di,
                            forall|k: int| 0 <= k < j ==> vv.subrange(0, di as int)[k] != vv[
                                di as int],
                        decreases di - j,
                    {
                        if ident_eq(&vars[j], &vars[di]) {
                            proof {
                                assert(vv.subrange(0, di as int)[j as int] == vv[di as int]);
                                lemma_param_idx(vv.subrange(0, di as int), vv[di as int], j as int);
                            }
                            return Err(
                                InputError::RepeatVariable { ident: clone_ident(&vars[di]) },
                            );
                        }
                        j = j + 1;
                    }
                    proof {
                        lemma_param_idx(vv.subrange(0, di as int), vv[di as int], di as int);
                    }
                    di = di + 1;
                }
                if self.is_builtin(&name) {
                    return Err(InputError::BuiltinIdentifier { ident: name });
                }
                let ctx = DefCtx { name, vars };
                match translate_expression(
                    &self.values,
                    &self.functions,
                    &self.arena,
                    Some(&ctx),
                    &*e,
                ) {
                    Err(err) => Err(err),
                    Ok(op) => {
                        proof {
                            lemma_xlate_wf(vm, fm, av, Some((ctx.name@, vv)), *e);
                        }
                        let idx = self.arena.len();
                        let ghost av0 = arena_view(self.arena@);
                        let arity = ctx.vars.len();
                        self.arena.push(FunctionDef { arity, body: FnImpl::User(op) });
                        proof {
                            let av2 = arena_view(self.arena@);
                            assert(av2 =~= av0.push(
                                FnV { arity: vv.len() as int, body: FnImplV::User(op_view(op)) },
                            ));
                            assert forall|i: int| 0 <= i < av2.len() implies wf_fnv(
                                av2,
                                i,
                                #[trigger] av2[i],
                            ) by {
                                if i < av0.len() {
                                    assert(wf_fnv(av0, i, av0[i]));
                                    match av0[i].body {
                                        FnImplV::Native(_) => {},
                                        FnImplV::User(o) => {
                                            lemma_wf_opv_mono(av0, av2, i, i, av0[i].arity, o);
                                        },
                                    }
                                } else {
                                    lemma_wf_opv_mono(
                                        av0,
                                        av2,
                                        av0.len() as int,
                                        av0.len() as int,
                                        vv.len() as int,
                                        op_view(op),
                                    );
                                }
                            }
                        }
                        set_fn(&mut self.functions, ctx.name, idx);
                        Ok(InputState::Assignment)
                    },
                }
            },
        }
    }

    /// Submits one NUL-terminated line.  The line is tokenized; the tokens
    /// feed the automaton, newly created or held over from an incomplete
    /// statement; a complete statement is executed against the environment.
    /// Any error discards a pending multi-line parse, and a failed
    /// statement leaves the environment untouched.
    #[verifier::loop_isolation(false)]
    /// Submits one NUL-terminated line.  The contract follows the whole
    /// pipeline: the line is tokenized by the spec lexer; an empty token
    /// stream with nothing pending reports Empty; the tokens feed the spec
    /// automaton, continuing any retained parse, and the first rejected
    /// token is a syntax error at its column; an incomplete line retains
    /// exactly the automaton state reached so far; a complete line's parse
    /// is executed as `stmt_effect` says, or is a syntax error at end of
    /// line.  Any error discards a pending parse, and a failed statement
    /// leaves the environment untouched.
    #[verifier::loop_isolation(false)]
    pub fn input(&mut self, line: &[u8]) -> (r: Result<InputState, InputError>)
        requires
            old(self).inv(),
            has_nul_from(line@, 0),
        ensures
            final(self).inv(),
            match lex_line(line@) {
                LexOut::Bad(c, x, f) => {
                    &&& r == Err::<InputState, InputError>(
                        InputError::InvalidToken(
                            InvalidToken { column: c as usize, expect: x, found: f },
                        ),
                    )
                    &&& final(self).values_model() == old(self).values_model()
                    &&& final(self).fns_model() == old(self).fns_model()
                    &&& final(self).arena_model() == old(self).arena_model()
                    &&& !final(self).has_pending()
                },
                LexOut::Toks(toks, complete) => {
                    let p0 = match old(self).pending_model() {
                        Some(pv) => pv,
                        None => init_parser(),
                    };
                    if toks.len() == 0 && old(self).pending_model() is None {
                        &&& r == Ok::<InputState, InputError>(InputState::Empty)
                        &&& final(self).values_model() == old(self).values_model()
                        &&& final(self).fns_model() == old(self).fns_model()
                        &&& final(self).arena_model() == old(self).arena_model()
                        &&& !final(self).has_pending()
                    } else {
                        match feed_all(p0, toks) {
                            Err(col) => {
                                &&& r == Err::<InputState, InputError>(
                                    InputError::SyntaxError { column: col as usize },
                                )
                                &&& final(self).values_model() == old(self).values_model()
                                &&& final(self).fns_model() == old(self).fns_model()
                                &&& final(self).arena_model() == old(self).arena_model()
                                &&& !final(self).has_pending()
                            },
                            Ok(p1) => {
                                if !complete {
                                    &&& r == Ok::<InputState, InputError>(InputState::Incomplete)
                                    &&& final(self).values_model() == old(self).values_model()
                                    &&& final(self).fns_model() == old(self).fns_model()
                                    &&& final(self).arena_model() == old(self).arena_model()
                                    &&& final(self).pending_model() == Some(p1)
                                } else {
                                    match accept_spec(p1) {
                                        None => {
                                            &&& r == Err::<InputState, InputError>(
                                                InputError::SyntaxError {
                                                    column: line@.len() as usize,
                                                },
                                            )
                                            &&& final(self).values_model() == old(
                                                self,
                                            ).values_model()
                                            &&& final(self).fns_model() == old(self).fns_model()
                                            &&& final(self).arena_model() == old(
                                                self,
                                            ).arena_model()
                                            &&& !final(self).has_pending()
                                        },
                                        Some(av) => {
                                            &&& exists|ast: Ast|
                                                ast_view(ast) == av && stmt_effect(
                                                    old(self).values_model(),
                                                    old(self).fns_model(),
                                                    old(self).arena_model(),
                                                    ast,
                                                    out_view(r),
                                                    final(self).values_model(),
                                                    final(self).fns_model(),
                                                    final(self).arena_model(),
                                                )
                                            &&& !final(self).has_pending()
                                        },
                                    }
                                }
                            },
                        }
                    }
                },
            },
    {
        let ghost oldpend = old(self).pending_model();
        let ts = match tokenize(line) {
            Ok(ts) => ts,
            Err(e) => {
                self.pending = None;
                return Err(InputError::InvalidToken(e));
            },
        };
        let ghost whole = toks_view(ts.tokens@);
        let mut parser = match self.pending.take() {
            Some(p) => p,
            None => {
                if ts.tokens.len() == 0 {
                    return Ok(InputState::Empty);
                }
                Parser::new()
            },
        };
        let ghost p0v = parser.model();
        proof {
            assert(p0v == (match oldpend {
                Some(pv) => pv,
                None => init_parser(),
            }));
        }
        let mut toks = ts.tokens;
        while toks.len() > 0
            invariant
                feed_all(p0v, whole) == feed_all(parser.model(), toks_view(toks@)),
            decreases toks@.len(),
        {
            let ghost before = toks@;
            let ghost tv0 = toks_view(before);
            let pair = toks.remove(0);
            proof {
                assert(tv0[0] == (before[0].0 as int, token_view(before[0].1)));
                assert forall|i: int| 0 <= i < toks@.len() implies toks_view(toks@)[i]
                    == #[trigger] tv0.drop_first()[i] by {
                    assert(toks@[i] == before[i + 1]);
                }
                assert(toks_view(toks@) =~= tv0.drop_first());
            }
            if !parser.action(pair.1) {
                return Err(InputError::SyntaxError { column: pair.0 });
            }
        }
        proof {
            assert(toks_view(toks@) =~= Seq::<(int, TokenV)>::empty());
        }
        if ts.complete {
            match parser.accept() {
                Some(ast) => {
                    let ghost gast = ast;
                    let ghost av = accept_spec(parser.model())->0;
                    let res = self.translate_ast(ast);
                    proof {
                        assert(ast_view(gast) == av && stmt_effect(
                            old(self).values_model(),
                            old(self).fns_model(),
                            old(self).arena_model(),
                            gast,
                            out_view(res),
                            self.values_model(),
                            self.fns_model(),
                            self.arena_model(),
                        ));
                    }
                    res
                },
                None => Err(InputError::SyntaxError { column: line.len() }),
            }
        } else {
            self.pending = Some(parser);
            Ok(InputState::Incomplete)
        }
    }
}

// ---------------------------------------------------------------------------
// Laws.

proof fn lemma_eval_opsv_len(av: Seq<FnV>, cur: FnV, args: Seq<Real>, ops: Seq<OpV>, fuel: nat)
    ensures
        eval_opsv(av, cur, args, ops, fuel) matches Some(vals) ==> vals.len() == ops.len(),
    decreases ops,
{
    if ops.len() > 0 {
        lemma_eval_opsv_len(av, cur, args, ops.drop_first(), fuel);
    }
}

proof fn lemma_eval_frame_op(
    av: Seq<FnV>,
    av2: Seq<FnV>,
    cur: FnV,
    args: Seq<Real>,
    o: OpV,
    fuel: nat,
)
    requires
        wf_arena(av),
        av.len() <= av2.len(),
        forall|j: int| 0 <= j < av.len() ==> av2[j] == av[j],
        wf_fnv(av, av.len() as int, cur),
        cur.arity == args.len(),
        wf_opv(av, av.len() as int, args.len() as int, o),
    ensures
        eval_opv(av2, cur, args, o, fuel) == eval_opv(av, cur, args, o, fuel),
    decreases fuel, o, 0int,
{
    match o {
        OpV::Con(_) => {},
        OpV::Sym(e) => lemma_eval_frame_ex(av, av2, cur, args, *e, fuel),
    }
}

proof fn lemma_eval_frame_ex(
    av: Seq<FnV>,
    av2: Seq<FnV>,
    cur: FnV,
    args: Seq<Real>,
    e: ExV,
    fuel: nat,
)
    requires
        wf_arena(av),
        av.len() <= av2.len(),
        forall|j: int| 0 <= j < av.len() ==> av2[j] == av[j],
        wf_fnv(av, av.len() as int, cur),
        cur.arity == args.len(),
        wf_exv(av, av.len() as int, args.len() as int, e),
    ensures
        eval_exv(av2, cur, args, e, fuel) == eval_exv(av, cur, args, e, fuel),
    decreases fuel, e, 0int,
{
    match e {
        ExV::Not(e1) => lemma_eval_frame_ex(av, av2, cur, args, *e1, fuel),
        ExV::Neg(e1) => lemma_eval_frame_ex(av, av2, cur, args, *e1, fuel),
        ExV::Power(a, b) | ExV::Prod(a, b) | ExV::Quot(a, b) | ExV::Sum(a, b) | ExV::Diff(a, b)
            | ExV::Rel(_, a, b) | ExV::LogOr(a, b) | ExV::LogAnd(a, b) => {
            lemma_eval_frame_op(av, av2, cur, args, a, fuel);
            lemma_eval_frame_op(av, av2, cur, args, b, fuel);
        },
        ExV::Cond(c, a, b) => {
            lemma_eval_frame_ex(av, av2, cur, args, *c, fuel);
            lemma_eval_frame_op(av, av2, cur, args, a, fuel);
            lemma_eval_frame_op(av, av2, cur, args, b, fuel);
        },
        ExV::Invoke(f, ops) => {
            lemma_eval_frame_ops(av, av2, cur, args, ops, fuel);
            lemma_eval_opsv_len(av, cur, args, ops, fuel);
            match eval_opsv(av, cur, args, ops, fuel) {
                Some(vals) => {
                    let callee = match f {
                        Some(i) => av[i],
                        None => cur,
                    };
                    match f {
                        Some(i) => {
                            assert(av2[i] == av[i]);
                            assert(wf_fnv(av, i, av[i]));
                            lemma_wf_fnv_mono(av, i, av[i]);
                        },
                        None => {},
                    }
                    match callee.body {
                        FnImplV::Native(_) => {},
                        FnImplV::User(b) => {
                            if fuel > 0 {
                                lemma_eval_frame_op(
                                    av,
                                    av2,
                                    callee,
                                    vals,
                                    b,
                                    (fuel - 1) as nat,
                                );
                            }
                        },
                    }
                },
                None => {},
            }
        },
        ExV::Param(_) => {},
    }
}

proof fn lemma_eval_frame_ops(
    av: Seq<FnV>,
    av2: Seq<FnV>,
    cur: FnV,
    args: Seq<Real>,
    ops: Seq<OpV>,
    fuel: nat,
)
    requires
        wf_arena(av),
        av.len() <= av2.len(),
        forall|j: int| 0 <= j < av.len() ==> av2[j] == av[j],
        wf_fnv(av, av.len() as int, cur),
        cur.arity == args.len(),
        wf_opsv(av, av.len() as int, args.len() as int, ops),
    ensures
        eval_opsv(av2, cur, args, ops, fuel) == eval_opsv(av, cur, args, ops, fuel),
    decreases fuel, ops, 0int,
{
    if ops.len() > 0 {
        lemma_eval_frame_op(av, av2, cur, args, ops[0], fuel);
        lemma_eval_frame_ops(av, av2, cur, args, ops.drop_first(), fuel);
    }
}

/// Redefinition safety: rebinding a name never touches the arena entries
/// that already exist, and what an installed function computes depends only
/// on the arena up to its own position.  So after any number of further
/// statements (each of which at most appends one arena entry, as
/// stmt_effect shows), a call site that captured an earlier definition
/// still computes exactly what it did when it was captured.
pub proof fn lemma_redefinition_safety(
    av: Seq<FnV>,
    av2: Seq<FnV>,
    i: int,
    vals: Seq<Real>,
    fuel: nat,
)
    requires
        wf_arena(av),
        av.len() <= av2.len(),
        forall|j: int| 0 <= j < av.len() ==> av2[j] == av[j],
        0 <= i < av.len(),
        av[i].arity == vals.len(),
    ensures
        invoke_fnv(av2, av[i], vals, fuel) == invoke_fnv(av, av[i], vals, fuel),
{
    assert(wf_fnv(av, i, av[i]));
    lemma_wf_fnv_mono(av, i, av[i]);
    match av[i].body {
        FnImplV::Native(_) => {},
        FnImplV::User(o) => {
            lemma_eval_frame_op(av, av2, av[i], vals, o, fuel);
        },
    }
}

/// A successful bare expression touches nothing in the environment but the
/// distinguished result identifier: the functions, the arena and every
/// other value binding are exactly what they were.
pub proof fn lemma_expression_env_preserved(
    vm: Map<Seq<u8>, (bool, Real)>,
    fm: Map<Seq<u8>, int>,
    av: Seq<FnV>,
    ast: Ast,
    vm2: Map<Seq<u8>, (bool, Real)>,
    fm2: Map<Seq<u8>, int>,
    av2: Seq<FnV>,
)
    requires
        stmt_effect(vm, fm, av, ast, Ok(InputState::Expression), vm2, fm2, av2),
    ensures
        fm2 == fm,
        av2 == av,
        forall|n: Seq<u8>|
            n != underscore_name() ==> (vm2.contains_key(n) == vm.contains_key(n) && (
            vm.contains_key(n) ==> #[trigger] vm2[n] == vm[n])),
{
    match ast {
        Ast::Assign(_, _) => {},
        Ast::Define(_, _, _) => {},
        Ast::Bare(_) => {},
    }
}

/// Ternary dead-branch pruning: when the condition folds to a constant, the
/// whole ternary translates exactly as the branch that is taken; the other
/// branch is never examined, so even an error inside it cannot surface.
pub proof fn lemma_ternary_pruning(
    vm: Map<Seq<u8>, (bool, Real)>,
    fm: Map<Seq<u8>, int>,
    av: Seq<FnV>,
    ctx: Option<(Seq<u8>, Seq<Seq<u8>>)>,
    c: AstExpr,
    e1: AstExpr,
    e2: AstExpr,
    cv: Real,
)
    requires
        xlate(vm, fm, av, ctx, c) == Ok::<OpV, ErrV>(OpV::Con(cv)),
    ensures
        truthy(cv) ==> xlate(
            vm,
            fm,
            av,
            ctx,
            AstExpr::Ternary(Box::new(c), Box::new(e1), Box::new(e2)),
        ) == xlate(vm, fm, av, ctx, e1),
        !truthy(cv) ==> xlate(
            vm,
            fm,
            av,
            ctx,
            AstExpr::Ternary(Box::new(c), Box::new(e1), Box::new(e2)),
        ) == xlate(vm, fm, av, ctx, e2),
{
}

/// Arity mismatch: a call of a bound function whose argument count differs
/// from the callee's declared parameter count fails, naming the callee;
/// this covers self-recursive calls through the definition context too.
pub proof fn lemma_arity_mismatch(
    vm: Map<Seq<u8>, (bool, Real)>,
    fm: Map<Seq<u8>, int>,
    av: Seq<FnV>,
    ctx: Option<(Seq<u8>, Seq<Seq<u8>>)>,
    name: Ident,
    args: Vec<AstExpr>,
    ops: Seq<OpV>,
)
    requires
        xlate_args(vm, fm, av, ctx, args@) == Ok::<Seq<OpV>, ErrV>(ops),
    ensures
        (match ctx {
            Some(cx) => cx.0 == name@ && ops.len() != cx.1.len(),
            None => false,
        }) ==> xlate(vm, fm, av, ctx, AstExpr::Call(name, args)) == Err::<OpV, ErrV>(
            ErrV::Arity(name@),
        ),
        ((match ctx {
            Some(cx) => cx.0 != name@,
            None => true,
        }) && fm.contains_key(name@) && av[fm[name@]].arity != ops.len()) ==> xlate(
            vm,
            fm,
            av,
            ctx,
            AstExpr::Call(name, args),
        ) == Err::<OpV, ErrV>(ErrV::Arity(name@)),
{
}

/// Whether an expression mentions a name, as a bare identifier or as a
/// callee.
pub open spec fn mentions(a: AstExpr, n: Seq<u8>) -> bool
    decreases a,
{
    match a {
        AstExpr::Lit(_) => false,
        AstExpr::Name(x) => x@ == n,
        AstExpr::Not(e1) => mentions(*e1, n),
        AstExpr::Sign(_, e1) => mentions(*e1, n),
        AstExpr::Pow(e1, e2) => mentions(*e1, n) || mentions(*e2, n),
        AstExpr::MulDiv(_, e1, e2) => mentions(*e1, n) || mentions(*e2, n),
        AstExpr::AddSub(_, e1, e2) => mentions(*e1, n) || mentions(*e2, n),
        AstExpr::Rel(_, e1, e2) => mentions(*e1, n) || mentions(*e2, n),
        AstExpr::Or(e1, e2) => mentions(*e1, n) || mentions(*e2, n),
        AstExpr::And(e1, e2) => mentions(*e1, n) || mentions(*e2, n),
        AstExpr::Ternary(c, e1, e2) => mentions(*c, n) || mentions(*e1, n) || mentions(*e2, n),
        AstExpr::Call(name, args) => name@ == n || mentions_args(args@, n),
    }
}

pub open spec fn mentions_args(s: Seq<AstExpr>, n: Seq<u8>) -> bool
    decreases s,
{
    if s.len() == 0 {
        false
    } else {
        mentions(s[0], n) || mentions_args(s.drop_first(), n)
    }
}

proof fn lemma_xlate_frame(
    vm: Map<Seq<u8>, (bool, Real)>,
    vm2: Map<Seq<u8>, (bool, Real)>,
    fm: Map<Seq<u8>, int>,
    av: Seq<FnV>,
    ctx: Option<(Seq<u8>, Seq<Seq<u8>>)>,
    u: Seq<u8>,
    a: AstExpr,
)
    requires
        vm2 == vm.insert(u, (false, vm2[u].1)),
        !mentions(a, u),
    ensures
        xlate(vm2, fm, av, ctx, a) == xlate(vm, fm, av, ctx, a),
    decreases a,
{
    match a {
        AstExpr::Lit(_) => {},
        AstExpr::Name(x) => {
            assert(x@ != u);
        },
        AstExpr::Not(e1) => lemma_xlate_frame(vm, vm2, fm, av, ctx, u, *e1),
        AstExpr::Sign(_, e1) => lemma_xlate_frame(vm, vm2, fm, av, ctx, u, *e1),
        AstExpr::Pow(e1, e2) | AstExpr::MulDiv(_, e1, e2) | AstExpr::AddSub(_, e1, e2)
            | AstExpr::Rel(_, e1, e2) | AstExpr::Or(e1, e2) | AstExpr::And(e1, e2) => {
            lemma_xlate_frame(vm, vm2, fm, av, ctx, u, *e1);
            lemma_xlate_frame(vm, vm2, fm, av, ctx, u, *e2);
        },
        AstExpr::Ternary(c, e1, e2) => {
            lemma_xlate_frame(vm, vm2, fm, av, ctx, u, *c);
            lemma_xlate_frame(vm, vm2, fm, av, ctx, u, *e1);
            lemma_xlate_frame(vm, vm2, fm, av, ctx, u, *e2);
        },
        AstExpr::Call(_, args) => {
            lemma_xlate_frame_args(vm, vm2, fm, av, ctx, u, args@);
        },
    }
}

proof fn lemma_xlate_frame_args(
    vm: Map<Seq<u8>, (bool, Real)>,
    vm2: Map<Seq<u8>, (bool, Real)>,
    fm: Map<Seq<u8>, int>,
    av: Seq<FnV>,
    ctx: Option<(Seq<u8>, Seq<Seq<u8>>)>,
    u: Seq<u8>,
    s: Seq<AstExpr>,
)
    requires
        vm2 == vm.insert(u, (false, vm2[u].1)),
        !mentions_args(s, u),
    ensures
        xlate_args(vm2, fm, av, ctx, s) == xlate_args(vm, fm, av, ctx, s),
    decreases s,
{
    if s.len() > 0 {
        lemma_xlate_frame(vm, vm2, fm, av, ctx, u, s[0]);
        lemma_xlate_frame_args(vm, vm2, fm, av, ctx, u, s.drop_first());
    }
}

/// Idempotent constant evaluation: a side-effect-free bare expression that
/// does not read the distinguished result identifier translates to the same
/// constant when submitted again right after, and the second submission
/// leaves the environment exactly as the first left it.  (An expression
/// that reads the result identifier itself is excluded: storing the first
/// result changes what it reads.)
pub proof fn lemma_idempotent_expression(
    vm: Map<Seq<u8>, (bool, Real)>,
    fm: Map<Seq<u8>, int>,
    av: Seq<FnV>,
    e: AstExpr,
    op: OpV,
)
    requires
        xlate(vm, fm, av, None, e) == Ok::<OpV, ErrV>(op),
        !mentions(e, underscore_name()),
    ensures
        xlate(
            vm.insert(underscore_name(), (false, op->Con_0)),
            fm,
            av,
            None,
            e,
        ) == Ok::<OpV, ErrV>(op),
        vm.insert(underscore_name(), (false, op->Con_0)).insert(
            underscore_name(),
            (false, op->Con_0),
        ) == vm.insert(underscore_name(), (false, op->Con_0)),
{
    let vm2 = vm.insert(underscore_name(), (false, op->Con_0));
    assert(vm2 == vm.insert(underscore_name(), (false, vm2[underscore_name()].1)));
    lemma_xlate_frame(vm, vm2, fm, av, None, underscore_name(), e);
    assert(vm2.insert(underscore_name(), (false, op->Con_0)) =~~= vm2);
}

} // verus!
