use vstd::prelude::*;

verus! {

/// A numeric value of the language: an IEEE-754 binary64 value, carried as
/// its 64-bit pattern so that the engine's whole state is plain data.  The
/// arithmetic on the values is done by `libm` on the same patterns; the sign,
/// magnitude and truthiness operations are pure bit manipulation and are
/// implemented and verified here.
///
/// IEEE-754 and Rust pin the bits of every non-NaN result of an arithmetic
/// operation exactly, but the pattern of a NaN result is the machine's
/// choice.  So each trusted operation promises only its non-NaN value and
/// the NaN-ness of its result, and the verified layer above it replaces any
/// NaN with the one canonical quiet pattern: every value the engine stores
/// or returns is then a function of the submitted lines alone, on every
/// machine.
pub type Real = u64;

/// The sign bit of a binary64 pattern; also the pattern of negative zero.
pub const SIGN_BIT: u64 = 0x8000_0000_0000_0000;
/// Everything but the sign bit.
pub const MAG_MASK: u64 = 0x7FFF_FFFF_FFFF_FFFF;
/// Exponent field all ones, mantissa zero: the magnitude of an infinity.
/// A pattern whose magnitude exceeds this is a NaN.
pub const INF_MAG: u64 = 0x7FF0_0000_0000_0000;
/// The canonical quiet NaN: the one pattern the engine lets stand for every
/// NaN an operation produces.
pub const NAN_BITS: u64 = 0x7FF8_0000_0000_0000;
pub const ZERO_BITS: u64 = 0;
pub const ONE_BITS: u64 = 0x3FF0_0000_0000_0000;
pub const NEG_ONE_BITS: u64 = 0xBFF0_0000_0000_0000;
pub const TEN_BITS: u64 = 0x4024_0000_0000_0000;
/// The binary64 nearest to one tenth.
pub const TENTH_BITS: u64 = 0x3FB9_9999_9999_999A;
/// The binary64 nearest to the circle constant.
pub const PI_BITS: u64 = 0x4009_21FB_5444_2D18;
/// The binary64 nearest to the base of the natural logarithm.
pub const E_BITS: u64 = 0x4005_BF0A_8B14_5769;

/// A value is true in a condition exactly when it does not compare equal to
/// zero: every pattern but the two zeros, NaNs included.
pub open spec fn truthy(r: Real) -> bool {
    (r & MAG_MASK) != 0
}

pub open spec fn bool_bits(b: bool) -> Real {
    if b {
        ONE_BITS
    } else {
        ZERO_BITS
    }
}

/// Negation of a binary64 value flips exactly the sign bit.
pub open spec fn neg_bits(r: Real) -> Real {
    r ^ SIGN_BIT
}

/// The absolute value of a binary64 value clears exactly the sign bit.
pub open spec fn abs_bits(r: Real) -> Real {
    r & MAG_MASK
}

pub open spec fn is_nan_bits(r: Real) -> bool {
    (r & MAG_MASK) > INF_MAG
}

/// A pattern with any NaN replaced by the canonical quiet NaN.
pub open spec fn canon_bits(r: Real) -> Real {
    if is_nan_bits(r) {
        NAN_BITS
    } else {
        r
    }
}

/// The sign function: a NaN stays a NaN (the canonical one), anything else
/// becomes one with the sign copied.
pub open spec fn sgn_bits(r: Real) -> Real {
    if is_nan_bits(r) {
        NAN_BITS
    } else if r & SIGN_BIT != 0 {
        NEG_ONE_BITS
    } else {
        ONE_BITS
    }
}

pub(crate) fn is_truthy(r: Real) -> (b: bool)
    ensures
        b == truthy(r),
{
    (r & MAG_MASK) != 0
}

pub(crate) fn real_canon(r: Real) -> (o: Real)
    ensures
        o == canon_bits(r),
{
    if (r & MAG_MASK) > INF_MAG {
        NAN_BITS
    } else {
        r
    }
}

pub(crate) fn real_neg(r: Real) -> (o: Real)
    ensures
        o == neg_bits(r),
{
    r ^ SIGN_BIT
}

pub(crate) fn real_abs(r: Real) -> (o: Real)
    ensures
        o == abs_bits(r),
{
    r & MAG_MASK
}

pub(crate) fn real_sgn(r: Real) -> (o: Real)
    ensures
        o == sgn_bits(r),
{
    if (r & MAG_MASK) > INF_MAG {
        NAN_BITS
    } else if r & SIGN_BIT != 0 {
        NEG_ONE_BITS
    } else {
        ONE_BITS
    }
}

/// The pattern of the small integers zero to nine, used when a numeric
/// literal is accumulated digit by digit.
pub open spec fn digit_bits(d: u8) -> Real {
    if d == 0 {
        0
    } else if d == 1 {
        0x3FF0_0000_0000_0000
    } else if d == 2 {
        0x4000_0000_0000_0000
    } else if d == 3 {
        0x4008_0000_0000_0000
    } else if d == 4 {
        0x4010_0000_0000_0000
    } else if d == 5 {
        0x4014_0000_0000_0000
    } else if d == 6 {
        0x4018_0000_0000_0000
    } else if d == 7 {
        0x401C_0000_0000_0000
    } else if d == 8 {
        0x4020_0000_0000_0000
    } else {
        0x4022_0000_0000_0000
    }
}

pub(crate) fn real_digit(d: u8) -> (o: Real)
    requires
        d < 10,
    ensures
        o == digit_bits(d),
{
    match d {
        0 => 0,
        1 => 0x3FF0_0000_0000_0000,
        2 => 0x4000_0000_0000_0000,
        3 => 0x4008_0000_0000_0000,
        4 => 0x4010_0000_0000_0000,
        5 => 0x4014_0000_0000_0000,
        6 => 0x4018_0000_0000_0000,
        7 => 0x401C_0000_0000_0000,
        8 => 0x4020_0000_0000_0000,
        _ => 0x4022_0000_0000_0000,
    }
}

// ---------------------------------------------------------------------------
// Trusted operations.  Each `ieee_*` wrapper relies on the named outside
// function; the two fma calls in some bodies only move the patterns into
// numeric form (fma(x, 1, -0) == x for every non-NaN x, and maps a NaN to a
// NaN).  A wrapper whose result can be a fresh NaN promises only the
// non-NaN value and the NaN-ness of the named result, since which NaN
// pattern an operation produces is the machine's choice; the public
// `*_bits` functions and their verified `real_*` companions then pin the
// result completely by canonicalizing the NaN.

pub uninterp spec fn ieee_add_bits(a: Real, b: Real) -> Real;

/// Relies on the host's binary64 addition of the two values, whose every non-NaN result bit is pinned by
/// IEEE-754 and Rust; a NaN result's pattern is not, so only its NaN-ness
/// is stated.
#[verifier::external_body]
fn ieee_add(a: Real, b: Real) -> (r: Real)
    ensures
        !is_nan_bits(ieee_add_bits(a, b)) ==> r == ieee_add_bits(a, b),
        is_nan_bits(r) == is_nan_bits(ieee_add_bits(a, b)),
{
    let x = libm::fma(bytemuck::cast(a), bytemuck::cast(ONE_BITS), bytemuck::cast(SIGN_BIT));
    let y = libm::fma(bytemuck::cast(b), bytemuck::cast(ONE_BITS), bytemuck::cast(SIGN_BIT));
    bytemuck::cast(x + y)
}

/// The operation's result with any NaN carried as the canonical pattern.
pub open spec fn add_bits(a: Real, b: Real) -> Real {
    canon_bits(ieee_add_bits(a, b))
}

pub(crate) fn real_add(a: Real, b: Real) -> (r: Real)
    ensures
        r == add_bits(a, b),
{
    real_canon(ieee_add(a, b))
}

pub uninterp spec fn ieee_sub_bits(a: Real, b: Real) -> Real;

/// Relies on the host's binary64 subtraction, whose every non-NaN result bit is pinned by
/// IEEE-754 and Rust; a NaN result's pattern is not, so only its NaN-ness
/// is stated.
#[verifier::external_body]
fn ieee_sub(a: Real, b: Real) -> (r: Real)
    ensures
        !is_nan_bits(ieee_sub_bits(a, b)) ==> r == ieee_sub_bits(a, b),
        is_nan_bits(r) == is_nan_bits(ieee_sub_bits(a, b)),
{
    let x = libm::fma(bytemuck::cast(a), bytemuck::cast(ONE_BITS), bytemuck::cast(SIGN_BIT));
    let y = libm::fma(bytemuck::cast(b), bytemuck::cast(ONE_BITS), bytemuck::cast(SIGN_BIT));
    bytemuck::cast(x - y)
}

/// The operation's result with any NaN carried as the canonical pattern.
pub open spec fn sub_bits(a: Real, b: Real) -> Real {
    canon_bits(ieee_sub_bits(a, b))
}

pub(crate) fn real_sub(a: Real, b: Real) -> (r: Real)
    ensures
        r == sub_bits(a, b),
{
    real_canon(ieee_sub(a, b))
}

pub uninterp spec fn ieee_mul_bits(a: Real, b: Real) -> Real;

/// Relies on the host's binary64 multiplication, whose every non-NaN result bit is pinned by
/// IEEE-754 and Rust; a NaN result's pattern is not, so only its NaN-ness
/// is stated.
#[verifier::external_body]
fn ieee_mul(a: Real, b: Real) -> (r: Real)
    ensures
        !is_nan_bits(ieee_mul_bits(a, b)) ==> r == ieee_mul_bits(a, b),
        is_nan_bits(r) == is_nan_bits(ieee_mul_bits(a, b)),
{
    let x = libm::fma(bytemuck::cast(a), bytemuck::cast(ONE_BITS), bytemuck::cast(SIGN_BIT));
    let y = libm::fma(bytemuck::cast(b), bytemuck::cast(ONE_BITS), bytemuck::cast(SIGN_BIT));
    bytemuck::cast(x * y)
}

/// The operation's result with any NaN carried as the canonical pattern.
pub open spec fn mul_bits(a: Real, b: Real) -> Real {
    canon_bits(ieee_mul_bits(a, b))
}

pub(crate) fn real_mul(a: Real, b: Real) -> (r: Real)
    ensures
        r == mul_bits(a, b),
{
    real_canon(ieee_mul(a, b))
}

pub uninterp spec fn ieee_div_bits(a: Real, b: Real) -> Real;

/// Relies on the host's binary64 division (division by zero yields the usual infinity or NaN, not trapped), whose every non-NaN result bit is pinned by
/// IEEE-754 and Rust; a NaN result's pattern is not, so only its NaN-ness
/// is stated.
#[verifier::external_body]
fn ieee_div(a: Real, b: Real) -> (r: Real)
    ensures
        !is_nan_bits(ieee_div_bits(a, b)) ==> r == ieee_div_bits(a, b),
        is_nan_bits(r) == is_nan_bits(ieee_div_bits(a, b)),
{
    let x = libm::fma(bytemuck::cast(a), bytemuck::cast(ONE_BITS), bytemuck::cast(SIGN_BIT));
    let y = libm::fma(bytemuck::cast(b), bytemuck::cast(ONE_BITS), bytemuck::cast(SIGN_BIT));
    bytemuck::cast(x / y)
}

/// The operation's result with any NaN carried as the canonical pattern.
pub open spec fn div_bits(a: Real, b: Real) -> Real {
    canon_bits(ieee_div_bits(a, b))
}

pub(crate) fn real_div(a: Real, b: Real) -> (r: Real)
    ensures
        r == div_bits(a, b),
{
    real_canon(ieee_div(a, b))
}

pub uninterp spec fn ieee_pow_bits(a: Real, b: Real) -> Real;

/// Relies on libm::pow, whose every non-NaN result bit is pinned by
/// IEEE-754 and Rust; a NaN result's pattern is not, so only its NaN-ness
/// is stated.
#[verifier::external_body]
fn ieee_pow(a: Real, b: Real) -> (r: Real)
    ensures
        !is_nan_bits(ieee_pow_bits(a, b)) ==> r == ieee_pow_bits(a, b),
        is_nan_bits(r) == is_nan_bits(ieee_pow_bits(a, b)),
{
    bytemuck::cast(libm::pow(bytemuck::cast(a), bytemuck::cast(b)))
}

/// The operation's result with any NaN carried as the canonical pattern.
pub open spec fn pow_bits(a: Real, b: Real) -> Real {
    canon_bits(ieee_pow_bits(a, b))
}

pub(crate) fn real_pow(a: Real, b: Real) -> (r: Real)
    ensures
        r == pow_bits(a, b),
{
    real_canon(ieee_pow(a, b))
}

pub uninterp spec fn lt_bits(a: Real, b: Real) -> bool;

pub uninterp spec fn gt_bits(a: Real, b: Real) -> bool;

/// Relies on libm::fma as above and the host's binary64 less-than, a
/// function of the two patterns alone: the laundering keeps every non-NaN
/// value exactly and maps a NaN to a NaN, and any NaN compares false.
#[verifier::external_body]
pub(crate) fn real_lt(a: Real, b: Real) -> (r: bool)
    ensures
        r == lt_bits(a, b),
{
    let x = libm::fma(bytemuck::cast(a), bytemuck::cast(ONE_BITS), bytemuck::cast(SIGN_BIT));
    let y = libm::fma(bytemuck::cast(b), bytemuck::cast(ONE_BITS), bytemuck::cast(SIGN_BIT));
    x < y
}

/// Relies on libm::fma as above and the host's binary64 greater-than, a
/// function of the two patterns alone (false whenever either operand is a
/// NaN).
#[verifier::external_body]
pub(crate) fn real_gt(a: Real, b: Real) -> (r: bool)
    ensures
        r == gt_bits(a, b),
{
    let x = libm::fma(bytemuck::cast(a), bytemuck::cast(ONE_BITS), bytemuck::cast(SIGN_BIT));
    let y = libm::fma(bytemuck::cast(b), bytemuck::cast(ONE_BITS), bytemuck::cast(SIGN_BIT));
    x > y
}

pub uninterp spec fn floor_bits(a: Real) -> Real;

/// Relies on libm::floor, a function of the pattern alone: it computes by
/// pinned binary64 steps and hands a NaN input back bit-exactly, so the
/// whole result is pinned.
#[verifier::external_body]
pub(crate) fn real_floor(a: Real) -> (r: Real)
    ensures
        r == floor_bits(a),
{
    bytemuck::cast(libm::floor(bytemuck::cast(a)))
}

pub uninterp spec fn ceil_bits(a: Real) -> Real;

/// Relies on libm::ceil, a function of the pattern alone: it computes by
/// pinned binary64 steps and hands a NaN input back bit-exactly, so the
/// whole result is pinned.
#[verifier::external_body]
pub(crate) fn real_ceil(a: Real) -> (r: Real)
    ensures
        r == ceil_bits(a),
{
    bytemuck::cast(libm::ceil(bytemuck::cast(a)))
}

pub uninterp spec fn atan_bits(a: Real) -> Real;

/// Relies on libm::atan, a function of the pattern alone: it computes by
/// pinned binary64 steps and hands a NaN input back bit-exactly, so the
/// whole result is pinned.
#[verifier::external_body]
pub(crate) fn real_atan(a: Real) -> (r: Real)
    ensures
        r == atan_bits(a),
{
    bytemuck::cast(libm::atan(bytemuck::cast(a)))
}

pub uninterp spec fn ieee_round_bits(a: Real) -> Real;

/// Relies on libm::round (half away from zero), whose every non-NaN result bit is pinned by
/// IEEE-754 and Rust; a NaN result's pattern is not, so only its NaN-ness
/// is stated.
#[verifier::external_body]
fn ieee_round(a: Real) -> (r: Real)
    ensures
        !is_nan_bits(ieee_round_bits(a)) ==> r == ieee_round_bits(a),
        is_nan_bits(r) == is_nan_bits(ieee_round_bits(a)),
{
    bytemuck::cast(libm::round(bytemuck::cast(a)))
}

/// The operation's result with any NaN carried as the canonical pattern.
pub open spec fn round_bits(a: Real) -> Real {
    canon_bits(ieee_round_bits(a))
}

pub(crate) fn real_round(a: Real) -> (r: Real)
    ensures
        r == round_bits(a),
{
    real_canon(ieee_round(a))
}

pub uninterp spec fn ieee_sqrt_bits(a: Real) -> Real;

/// Relies on libm::sqrt, whose every non-NaN result bit is pinned by
/// IEEE-754 and Rust; a NaN result's pattern is not, so only its NaN-ness
/// is stated.
#[verifier::external_body]
fn ieee_sqrt(a: Real) -> (r: Real)
    ensures
        !is_nan_bits(ieee_sqrt_bits(a)) ==> r == ieee_sqrt_bits(a),
        is_nan_bits(r) == is_nan_bits(ieee_sqrt_bits(a)),
{
    bytemuck::cast(libm::sqrt(bytemuck::cast(a)))
}

/// The operation's result with any NaN carried as the canonical pattern.
pub open spec fn sqrt_bits(a: Real) -> Real {
    canon_bits(ieee_sqrt_bits(a))
}

pub(crate) fn real_sqrt(a: Real) -> (r: Real)
    ensures
        r == sqrt_bits(a),
{
    real_canon(ieee_sqrt(a))
}

pub uninterp spec fn ieee_cbrt_bits(a: Real) -> Real;

/// Relies on libm::cbrt, whose every non-NaN result bit is pinned by
/// IEEE-754 and Rust; a NaN result's pattern is not, so only its NaN-ness
/// is stated.
#[verifier::external_body]
fn ieee_cbrt(a: Real) -> (r: Real)
    ensures
        !is_nan_bits(ieee_cbrt_bits(a)) ==> r == ieee_cbrt_bits(a),
        is_nan_bits(r) == is_nan_bits(ieee_cbrt_bits(a)),
{
    bytemuck::cast(libm::cbrt(bytemuck::cast(a)))
}

/// The operation's result with any NaN carried as the canonical pattern.
pub open spec fn cbrt_bits(a: Real) -> Real {
    canon_bits(ieee_cbrt_bits(a))
}

pub(crate) fn real_cbrt(a: Real) -> (r: Real)
    ensures
        r == cbrt_bits(a),
{
    real_canon(ieee_cbrt(a))
}

pub uninterp spec fn ieee_sin_bits(a: Real) -> Real;

/// Relies on libm::sin, whose every non-NaN result bit is pinned by
/// IEEE-754 and Rust; a NaN result's pattern is not, so only its NaN-ness
/// is stated.
#[verifier::external_body]
fn ieee_sin(a: Real) -> (r: Real)
    ensures
        !is_nan_bits(ieee_sin_bits(a)) ==> r == ieee_sin_bits(a),
        is_nan_bits(r) == is_nan_bits(ieee_sin_bits(a)),
{
    bytemuck::cast(libm::sin(bytemuck::cast(a)))
}

/// The operation's result with any NaN carried as the canonical pattern.
pub open spec fn sin_bits(a: Real) -> Real {
    canon_bits(ieee_sin_bits(a))
}

pub(crate) fn real_sin(a: Real) -> (r: Real)
    ensures
        r == sin_bits(a),
{
    real_canon(ieee_sin(a))
}

pub uninterp spec fn ieee_cos_bits(a: Real) -> Real;

/// Relies on libm::cos, whose every non-NaN result bit is pinned by
/// IEEE-754 and Rust; a NaN result's pattern is not, so only its NaN-ness
/// is stated.
#[verifier::external_body]
fn ieee_cos(a: Real) -> (r: Real)
    ensures
        !is_nan_bits(ieee_cos_bits(a)) ==> r == ieee_cos_bits(a),
        is_nan_bits(r) == is_nan_bits(ieee_cos_bits(a)),
{
    bytemuck::cast(libm::cos(bytemuck::cast(a)))
}

/// The operation's result with any NaN carried as the canonical pattern.
pub open spec fn cos_bits(a: Real) -> Real {
    canon_bits(ieee_cos_bits(a))
}

pub(crate) fn real_cos(a: Real) -> (r: Real)
    ensures
        r == cos_bits(a),
{
    real_canon(ieee_cos(a))
}

pub uninterp spec fn ieee_tan_bits(a: Real) -> Real;

/// Relies on libm::tan, whose every non-NaN result bit is pinned by
/// IEEE-754 and Rust; a NaN result's pattern is not, so only its NaN-ness
/// is stated.
#[verifier::external_body]
fn ieee_tan(a: Real) -> (r: Real)
    ensures
        !is_nan_bits(ieee_tan_bits(a)) ==> r == ieee_tan_bits(a),
        is_nan_bits(r) == is_nan_bits(ieee_tan_bits(a)),
{
    bytemuck::cast(libm::tan(bytemuck::cast(a)))
}

/// The operation's result with any NaN carried as the canonical pattern.
pub open spec fn tan_bits(a: Real) -> Real {
    canon_bits(ieee_tan_bits(a))
}

pub(crate) fn real_tan(a: Real) -> (r: Real)
    ensures
        r == tan_bits(a),
{
    real_canon(ieee_tan(a))
}

pub uninterp spec fn ieee_asin_bits(a: Real) -> Real;

/// Relies on libm::asin, whose every non-NaN result bit is pinned by
/// IEEE-754 and Rust; a NaN result's pattern is not, so only its NaN-ness
/// is stated.
#[verifier::external_body]
fn ieee_asin(a: Real) -> (r: Real)
    ensures
        !is_nan_bits(ieee_asin_bits(a)) ==> r == ieee_asin_bits(a),
        is_nan_bits(r) == is_nan_bits(ieee_asin_bits(a)),
{
    bytemuck::cast(libm::asin(bytemuck::cast(a)))
}

/// The operation's result with any NaN carried as the canonical pattern.
pub open spec fn asin_bits(a: Real) -> Real {
    canon_bits(ieee_asin_bits(a))
}

pub(crate) fn real_asin(a: Real) -> (r: Real)
    ensures
        r == asin_bits(a),
{
    real_canon(ieee_asin(a))
}

pub uninterp spec fn ieee_acos_bits(a: Real) -> Real;

/// Relies on libm::acos, whose every non-NaN result bit is pinned by
/// IEEE-754 and Rust; a NaN result's pattern is not, so only its NaN-ness
/// is stated.
#[verifier::external_body]
fn ieee_acos(a: Real) -> (r: Real)
    ensures
        !is_nan_bits(ieee_acos_bits(a)) ==> r == ieee_acos_bits(a),
        is_nan_bits(r) == is_nan_bits(ieee_acos_bits(a)),
{
    bytemuck::cast(libm::acos(bytemuck::cast(a)))
}

/// The operation's result with any NaN carried as the canonical pattern.
pub open spec fn acos_bits(a: Real) -> Real {
    canon_bits(ieee_acos_bits(a))
}

pub(crate) fn real_acos(a: Real) -> (r: Real)
    ensures
        r == acos_bits(a),
{
    real_canon(ieee_acos(a))
}

pub uninterp spec fn ieee_ln_bits(a: Real) -> Real;

/// Relies on libm::log, the natural logarithm, whose every non-NaN result bit is pinned by
/// IEEE-754 and Rust; a NaN result's pattern is not, so only its NaN-ness
/// is stated.
#[verifier::external_body]
fn ieee_ln(a: Real) -> (r: Real)
    ensures
        !is_nan_bits(ieee_ln_bits(a)) ==> r == ieee_ln_bits(a),
        is_nan_bits(r) == is_nan_bits(ieee_ln_bits(a)),
{
    bytemuck::cast(libm::log(bytemuck::cast(a)))
}

/// The operation's result with any NaN carried as the canonical pattern.
pub open spec fn ln_bits(a: Real) -> Real {
    canon_bits(ieee_ln_bits(a))
}

pub(crate) fn real_ln(a: Real) -> (r: Real)
    ensures
        r == ln_bits(a),
{
    real_canon(ieee_ln(a))
}

pub uninterp spec fn ieee_log10_bits(a: Real) -> Real;

/// Relies on libm::log10, whose every non-NaN result bit is pinned by
/// IEEE-754 and Rust; a NaN result's pattern is not, so only its NaN-ness
/// is stated.
#[verifier::external_body]
fn ieee_log10(a: Real) -> (r: Real)
    ensures
        !is_nan_bits(ieee_log10_bits(a)) ==> r == ieee_log10_bits(a),
        is_nan_bits(r) == is_nan_bits(ieee_log10_bits(a)),
{
    bytemuck::cast(libm::log10(bytemuck::cast(a)))
}

/// The operation's result with any NaN carried as the canonical pattern.
pub open spec fn log10_bits(a: Real) -> Real {
    canon_bits(ieee_log10_bits(a))
}

pub(crate) fn real_log10(a: Real) -> (r: Real)
    ensures
        r == log10_bits(a),
{
    real_canon(ieee_log10(a))
}

pub uninterp spec fn ieee_atan2_bits(y: Real, x: Real) -> Real;

/// Relies on libm::atan2(y, x), the ordinate first, whose every non-NaN
/// result bit is pinned by IEEE-754 and Rust; a NaN result's pattern is
/// not, so only its NaN-ness is stated.
#[verifier::external_body]
fn ieee_atan2(y: Real, x: Real) -> (r: Real)
    ensures
        !is_nan_bits(ieee_atan2_bits(y, x)) ==> r == ieee_atan2_bits(y, x),
        is_nan_bits(r) == is_nan_bits(ieee_atan2_bits(y, x)),
{
    bytemuck::cast(libm::atan2(bytemuck::cast(y), bytemuck::cast(x)))
}

/// The operation's result with any NaN carried as the canonical pattern.
pub open spec fn atan2_bits(y: Real, x: Real) -> Real {
    canon_bits(ieee_atan2_bits(y, x))
}

pub(crate) fn real_atan2(y: Real, x: Real) -> (r: Real)
    ensures
        r == atan2_bits(y, x),
{
    real_canon(ieee_atan2(y, x))
}

/// Ten raised to a small natural power, as the chain of binary64
/// multiplications that accumulating a scientific-notation exponent performs.
pub open spec fn pow_ten(n: nat) -> Real
    decreases n,
{
    if n == 0 {
        ONE_BITS
    } else {
        mul_bits(pow_ten((n - 1) as nat), TEN_BITS)
    }
}

pub(crate) fn real_pow_ten(n: u64) -> (r: Real)
    ensures
        r == pow_ten(n as nat),
{
    let mut acc: Real = ONE_BITS;
    let mut i: u64 = 0;
    while i < n
        invariant
            i <= n,
            acc == pow_ten(i as nat),
        decreases n - i,
    {
        acc = real_mul(acc, TEN_BITS);
        i = i + 1;
    }
    acc
}

} // verus!
