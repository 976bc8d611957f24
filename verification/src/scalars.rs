use vstd::prelude::*;

verus! {

/// The four ways of adding two bytes when the sum may not fit.
pub struct AddOutcomes {
    /// `None` exactly when the sum does not fit.
    pub checked: Option<u8>,
    /// The sum modulo 256.
    pub wrapping: u8,
    /// The sum clamped at `u8::MAX`.
    pub saturating: u8,
    /// The wrapped sum and whether it wrapped.
    pub overflowing: (u8, bool),
}

/// Whether `x + y` overflows a byte.
pub open spec fn add_overflows(x: u8, y: u8) -> bool {
    x + y > u8::MAX
}

pub open spec fn spec_checked_add(x: u8, y: u8) -> Option<u8> {
    if add_overflows(x, y) { None } else { Some((x + y) as u8) }
}

pub open spec fn spec_wrapping_add(x: u8, y: u8) -> u8 {
    ((x + y) % 256) as u8
}

pub open spec fn spec_saturating_add(x: u8, y: u8) -> u8 {
    if add_overflows(x, y) { u8::MAX } else { (x + y) as u8 }
}

pub open spec fn spec_overflowing_add(x: u8, y: u8) -> (u8, bool) {
    (spec_wrapping_add(x, y), add_overflows(x, y))
}

/// Adds `x` and `y` in the checked, wrapping, saturating and overflowing modes.
pub fn add_outcomes(x: u8, y: u8) -> (r: AddOutcomes)
    ensures
        r.checked == spec_checked_add(x, y),
        r.wrapping == spec_wrapping_add(x, y),
        r.saturating == spec_saturating_add(x, y),
        r.overflowing == spec_overflowing_add(x, y),
{
    let checked: Option<u8> = x.checked_add(y);
    let wrapping: u8 = x.wrapping_add(y);
    let saturating: u8 = x.saturating_add(y);
    let overflowing: (u8, bool) = (wrapping, checked.is_none());
    AddOutcomes { checked, wrapping, saturating, overflowing }
}


/// Adds two bytes whose sum is known to fit; the plain `+` of the language.
pub fn add_exact(x: u8, y: u8) -> (r: u8)
    requires
        x + y <= u8::MAX,
    ensures
        r == x + y,
{
    x + y
}

/// Quotient of integer division rounded toward zero, as Rust's `/` computes it.
pub open spec fn trunc_div(a: int, b: int) -> int {
    if a >= 0 && b > 0 {
        a / b
    } else if a < 0 && b < 0 {
        (-a) / (-b)
    } else if a < 0 {
        -((-a) / b)
    } else {
        -(a / (-b))
    }
}

/// Integer division: the quotient truncated toward zero.
pub fn int_div(a: i32, b: i32) -> (q: i32)
    requires
        b != 0,
        !(a == i32::MIN && b == -1),
    ensures
        q == trunc_div(a as int, b as int),
{
    proof {
        if a >= 0 && b < 0 {
            lemma_div_by_negative(a as int, b as int);
        } else if a < 0 && b < 0 {
            lemma_div_by_negative(-(a as int), b as int);
            lemma_quotient_bounds(-(a as int), -(b as int));
        }
    }
    a / b
}

/// Dividing by a negative number negates the quotient by its absolute value.
proof fn lemma_div_by_negative(a: int, b: int)
    requires
        a >= 0,
        b < 0,
    ensures
        a / b == -(a / (-b)),
{
    let q: int = a / (-b);
    let r: int = a % (-b);
    assert(a == b * (-q) + r && 0 <= r < -b) by (nonlinear_arith)
        requires b < 0, q == a / (-b), r == a % (-b);
    assert(a / b == -q) by (nonlinear_arith)
        requires a == b * (-q) + r, 0 <= r < -b;
}

/// The quotient of a natural number by a positive one is no larger than it,
/// and at most half of it when the divisor exceeds one.
proof fn lemma_quotient_bounds(x: int, d: int)
    requires
        x >= 0,
        d >= 1,
    ensures
        0 <= x / d <= x,
        d >= 2 ==> 2 * (x / d) <= x,
{
    assert(0 <= x / d <= x && (d >= 2 ==> 2 * (x / d) <= x)) by (nonlinear_arith)
        requires x >= 0, d >= 1;
}


/// The four addition modes tell one story: the checked sum is missing exactly
/// when the overflowing flag is raised, the overflowing value is the wrapped
/// sum, saturation yields the checked sum or `u8::MAX`, the wrapped sum differs
/// from the true sum by 256 exactly when the sum overflows, and without
/// overflow every mode gives the true sum.
pub proof fn lemma_add_modes_agree(x: u8, y: u8)
    ensures
        spec_checked_add(x, y) is None <==> spec_overflowing_add(x, y).1,
        spec_overflowing_add(x, y).0 == spec_wrapping_add(x, y),
        spec_saturating_add(x, y) == (match spec_checked_add(x, y) {
            Some(v) => v,
            None => u8::MAX,
        }),
        spec_wrapping_add(x, y) + (if spec_overflowing_add(x, y).1 { 256int } else { 0int })
            == x + y,
        !add_overflows(x, y) ==> {
            &&& spec_checked_add(x, y) == Some((x + y) as u8)
            &&& spec_wrapping_add(x, y) == x + y
            &&& spec_saturating_add(x, y) == x + y
        },
{
}

/// Integer division truncates toward zero: the remainder `a - q * b` is
/// smaller than the divisor in absolute value and is zero or has the sign of
/// the dividend, so `|q * b| <= |a|`; negating the dividend negates the
/// quotient.
pub proof fn lemma_div_truncates_toward_zero(a: int, b: int)
    requires
        b != 0,
    ensures
        ({
            let q: int = trunc_div(a, b);
            let r: int = a - q * b;
            &&& (if r >= 0 { r } else { -r }) < (if b >= 0 { b } else { -b })
            &&& a >= 0 ==> 0 <= r
            &&& a <= 0 ==> r <= 0
        }),
        trunc_div(-a, b) == -trunc_div(a, b),
{
    let q: int = trunc_div(a, b);
    if a >= 0 && b > 0 {
        assert(0 <= a - (a / b) * b < b) by (nonlinear_arith)
            requires a >= 0, b > 0;
    } else if a < 0 && b < 0 {
        assert(0 <= (-a) - ((-a) / (-b)) * (-b) < -b) by (nonlinear_arith)
            requires -a > 0, -b > 0;
        assert(a - q * b == -((-a) - ((-a) / (-b)) * (-b))) by (nonlinear_arith)
            requires q == (-a) / (-b);
    } else if a < 0 {
        assert(0 <= (-a) - ((-a) / b) * b < b) by (nonlinear_arith)
            requires -a > 0, b > 0;
        assert(a - q * b == -((-a) - ((-a) / b) * b)) by (nonlinear_arith)
            requires q == -((-a) / b);
    } else {
        assert(0 <= a - (a / (-b)) * (-b) < -b) by (nonlinear_arith)
            requires a >= 0, -b > 0;
        assert(a - q * b == a - (a / (-b)) * (-b)) by (nonlinear_arith)
            requires q == -(a / (-b));
    }
}


/// One value of each of the common integer types.
pub struct IntegerSamples {
    /// A literal with no annotation: the default integer type.
    pub default_int: i32,
    /// The largest byte.
    pub byte_max: u8,
    /// A literal too large for `i32`.
    pub wide: i64,
    /// A length, as lengths and indices are measured.
    pub len: usize,
}

/// The sample integers: `5`, `255`, `9_000_000_000` and the length `3`.
pub fn integer_samples() -> (r: IntegerSamples)
    ensures
        r.default_int == 5,
        r.byte_max == 255,
        r.byte_max == u8::MAX,
        r.wide == 9_000_000_000,
        r.wide > i32::MAX,
        r.len == 3,
{
    IntegerSamples { default_int: 5, byte_max: 255, wide: 9_000_000_000, len: 3 }
}

/// Sizes in bytes of the scalar types, as `std::mem::size_of` reports them.
pub struct ScalarSizes {
    pub u8_bytes: usize,
    pub u16_bytes: usize,
    pub i32_bytes: usize,
    pub i64_bytes: usize,
    pub bool_bytes: usize,
    pub char_bytes: usize,
    pub usize_bytes: usize,
}

/// The sizes of `u8`, `u16`, `i32`, `i64`, `bool`, `char` and `usize`:
/// a type named by a bit count takes that many bits over eight bytes, `bool`
/// one byte, `char` four, and `usize` as many bytes as the pointer width.
pub fn scalar_sizes() -> (r: ScalarSizes)
    ensures
        r.u8_bytes == 1,
        r.u16_bytes == 2,
        r.i32_bytes == 4,
        r.i64_bytes == 8,
        r.bool_bytes == 1,
        r.char_bytes == 4,
        r.usize_bytes * 8 == usize::BITS,
{
    broadcast use vstd::layout::layout_of_primitives;
    ScalarSizes {
        u8_bytes: std::mem::size_of::<u8>(),
        u16_bytes: std::mem::size_of::<u16>(),
        i32_bytes: std::mem::size_of::<i32>(),
        i64_bytes: std::mem::size_of::<i64>(),
        bool_bytes: std::mem::size_of::<bool>(),
        char_bytes: std::mem::size_of::<char>(),
        usize_bytes: std::mem::size_of::<usize>(),
    }
}

} // verus!
