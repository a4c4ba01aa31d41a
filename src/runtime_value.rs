use vstd::prelude::*;
use vstd::arithmetic::power2::{
    lemma2_to64, lemma2_to64_rest, lemma_pow2_adds, lemma_pow2_pos, lemma_pow2_strictly_increases,
    lemma_pow2_unfold, pow2,
};

verus! {

/// The bit that carries the sign of an IEEE-754 binary64 value.
pub const FLOAT_SIGN_BIT: u64 = 0x8000_0000_0000_0000;

/// Static type tags, also used to name the type of a runtime value in errors.
#[derive(Debug, Clone, Copy, PartialEq, Eq, Structural)]
pub enum Type {
    Integer,
    Float,
    Bool,
    String,
    Nil,
}

/// A value on the machine's stack.
///
/// A float is held as its IEEE-754 binary64 bit pattern; a string is an index
/// into the machine's string table.
#[derive(Debug, Clone, Copy, PartialEq, Eq, Structural)]
pub enum RuntimeValue {
    IntegerLiteral(i32),
    FloatLiteral(u64),
    BooleanLiteral(bool),
    StringLiteral(usize),
    NilLiteral,
}

impl RuntimeValue {
    pub open spec fn spec_is_number(self) -> bool {
        self is IntegerLiteral || self is FloatLiteral
    }

    pub open spec fn spec_type(self) -> Type {
        match self {
            RuntimeValue::IntegerLiteral(_) => Type::Integer,
            RuntimeValue::FloatLiteral(_) => Type::Float,
            RuntimeValue::BooleanLiteral(_) => Type::Bool,
            RuntimeValue::StringLiteral(_) => Type::String,
            RuntimeValue::NilLiteral => Type::Nil,
        }
    }

    /// `false` and nil are falsy; every other value is truthy.
    pub open spec fn spec_is_truthy(self) -> bool {
        !(self == RuntimeValue::BooleanLiteral(false) || self is NilLiteral)
    }

    pub fn is_number(&self) -> (r: bool)
        ensures
            r == self.spec_is_number(),
    {
        match self {
            RuntimeValue::IntegerLiteral(_) | RuntimeValue::FloatLiteral(_) => true,
            _ => false,
        }
    }

    pub fn is_float(&self) -> (r: bool)
        ensures
            r == (*self is FloatLiteral),
    {
        match self {
            RuntimeValue::FloatLiteral(_) => true,
            _ => false,
        }
    }

    pub fn is_int(&self) -> (r: bool)
        ensures
            r == (*self is IntegerLiteral),
    {
        match self {
            RuntimeValue::IntegerLiteral(_) => true,
            _ => false,
        }
    }

    pub fn as_int(&self) -> (r: Option<i32>)
        ensures
            r == (match *self {
                RuntimeValue::IntegerLiteral(n) => Some(n),
                _ => None,
            }),
    {
        match self {
            RuntimeValue::IntegerLiteral(n) => Some(*n),
            _ => None,
        }
    }

    /// The bit pattern of a float value.
    pub fn as_float(&self) -> (r: Option<u64>)
        ensures
            r == (match *self {
                RuntimeValue::FloatLiteral(b) => Some(b),
                _ => None,
            }),
    {
        match self {
            RuntimeValue::FloatLiteral(b) => Some(*b),
            _ => None,
        }
    }

    pub fn get_type(&self) -> (r: Type)
        ensures
            r == self.spec_type(),
    {
        match self {
            RuntimeValue::IntegerLiteral(_) => Type::Integer,
            RuntimeValue::FloatLiteral(_) => Type::Float,
            RuntimeValue::BooleanLiteral(_) => Type::Bool,
            RuntimeValue::StringLiteral(_) => Type::String,
            RuntimeValue::NilLiteral => Type::Nil,
        }
    }

    pub fn is_truthy(&self) -> (r: bool)
        ensures
            r == self.spec_is_truthy(),
    {
        match self {
            RuntimeValue::BooleanLiteral(b) => *b,
            RuntimeValue::NilLiteral => false,
            _ => true,
        }
    }
}

/// IEEE-754 negation only flips the sign bit.
pub open spec fn spec_negate_float_bits(bits: u64) -> u64 {
    bits ^ FLOAT_SIGN_BIT
}

pub fn negate_float_bits(bits: u64) -> (r: u64)
    ensures
        r == spec_negate_float_bits(bits),
{
    bits ^ FLOAT_SIGN_BIT
}

/// The biased exponent field of a binary64 value.
pub open spec fn float_exponent(bits: u64) -> u64 {
    (bits >> 52u64) & 0x7ff
}

/// The fraction field of a binary64 value.
pub open spec fn float_fraction(bits: u64) -> u64 {
    bits & 0x000f_ffff_ffff_ffff
}

pub open spec fn float_negative(bits: u64) -> bool {
    bits >> 63u64 == 1
}

pub open spec fn float_is_nan(bits: u64) -> bool {
    float_exponent(bits) == 0x7ff && float_fraction(bits) != 0
}

pub open spec fn float_is_zero(bits: u64) -> bool {
    float_exponent(bits) == 0 && float_fraction(bits) == 0
}

/// The magnitude of a finite binary64 value with these exponent and fraction
/// fields, times 2^1075, which is an integer: `2 * fraction` for a
/// subnormal, `(2^52 + fraction) * 2^exponent` otherwise.
pub open spec fn scaled_magnitude(exponent: int, fraction: int) -> int {
    if exponent == 0 {
        2 * fraction
    } else {
        (fraction + pow2(52)) * pow2(exponent as nat)
    }
}

pub open spec fn float_scaled_magnitude(bits: u64) -> int {
    scaled_magnitude(float_exponent(bits) as int, float_fraction(bits) as int)
}

/// Whether `bits` is a finite binary64 value equal to the integer `n`.
pub open spec fn float_equals_int(bits: u64, n: int) -> bool {
    &&& float_exponent(bits) != 0x7ff
    &&& float_scaled_magnitude(bits) == (if n < 0 { -n } else { n }) * pow2(1075)
    &&& n != 0 ==> float_negative(bits) == (n < 0)
}

/// Equality of two numbers once integers are widened to binary64.
pub open spec fn number_equal(l: RuntimeValue, r: RuntimeValue) -> bool {
    match (l, r) {
        (RuntimeValue::IntegerLiteral(a), RuntimeValue::IntegerLiteral(b)) => a == b,
        (RuntimeValue::FloatLiteral(a), RuntimeValue::FloatLiteral(b)) => float_eq(a, b),
        (RuntimeValue::IntegerLiteral(a), RuntimeValue::FloatLiteral(b)) => float_equals_int(
            b,
            a as int,
        ),
        (RuntimeValue::FloatLiteral(a), RuntimeValue::IntegerLiteral(b)) => float_equals_int(
            a,
            b as int,
        ),
        _ => false,
    }
}

/// IEEE-754 equality: NaN equals nothing, the two zeros are equal, and any
/// other value has exactly one encoding.
pub open spec fn float_eq(a: u64, b: u64) -> bool {
    !float_is_nan(a) && !float_is_nan(b) && (a == b || (float_is_zero(a) && float_is_zero(b)))
}

pub fn float_equal(a: u64, b: u64) -> (r: bool)
    ensures
        r == float_eq(a, b),
{
    let a_nan = (a >> 52u64) & 0x7ff == 0x7ff && a & 0x000f_ffff_ffff_ffff != 0;
    let b_nan = (b >> 52u64) & 0x7ff == 0x7ff && b & 0x000f_ffff_ffff_ffff != 0;
    let a_zero = (a >> 52u64) & 0x7ff == 0 && a & 0x000f_ffff_ffff_ffff == 0;
    let b_zero = (b >> 52u64) & 0x7ff == 0 && b & 0x000f_ffff_ffff_ffff == 0;
    !a_nan && !b_nan && (a == b || (a_zero && b_zero))
}

/// `2^e`.
fn power_of_two(e: u64) -> (r: u64)
    requires
        e <= 53,
    ensures
        r == pow2(e as nat),
{
    proof {
        lemma2_to64();
        lemma2_to64_rest();
    }
    let mut r: u64 = 1;
    let mut i: u64 = 0;
    while i < e
        invariant
            i <= e <= 53,
            r == pow2(i as nat),
            pow2(53) == 0x20000000000000,
        decreases e - i,
    {
        proof {
            lemma_pow2_unfold((i + 1) as nat);
            if i < 53 {
                lemma_pow2_strictly_increases(i as nat, 53);
            }
        }
        r = r * 2;
        i = i + 1;
    }
    r
}

/// Whether the float with bits `bits` equals the integer `n` once `n` is
/// widened to binary64, which holds every `i32` exactly.
pub fn float_equals_integer(bits: u64, n: i32) -> (r: bool)
    ensures
        r == float_equals_int(bits, n as int),
{
    let e = (bits >> 52u64) & 0x7ff;
    let f = bits & 0x000f_ffff_ffff_ffff;
    assert(f < 0x10000000000000) by (bit_vector)
        requires
            f == bits & 0x000f_ffff_ffff_ffff,
    ;
    assert(e <= 0x7ff) by (bit_vector)
        requires
            e == (bits >> 52u64) & 0x7ff,
    ;
    proof {
        lemma2_to64();
        lemma2_to64_rest();
        lemma_pow2_pos(e as nat);
        lemma_pow2_pos(1075);
    }
    let ghost m: int = if n < 0 { -n } else { n as int };
    assert(float_exponent(bits) == e && float_fraction(bits) == f);
    if e == 0x7ff {
        return false;
    }
    if n == 0 {
        if e != 0 {
            assert((f + pow2(52)) * pow2(e as nat) > 0) by (nonlinear_arith)
                requires
                    pow2(52) > 0,
                    pow2(e as nat) > 0,
            ;
        }
        assert(m == 0);
        assert(m * pow2(1075) == 0) by (nonlinear_arith)
            requires
                m == 0,
        ;
        return e == 0 && f == 0;
    }
    assert(m >= 1);
    assert(m * pow2(1075) >= pow2(1075)) by (nonlinear_arith)
        requires
            m >= 1,
            pow2(1075) > 0,
    ;
    if (bits >> 63u64 == 1) != (n < 0) {
        return false;
    }
    if e == 0 {
        proof {
            lemma_pow2_strictly_increases(54, 1075);
            lemma_pow2_unfold(54);
        }
        return false;
    }
    if e >= 1075 {
        proof {
            if e > 1075 {
                lemma_pow2_strictly_increases(1075, e as nat);
            }
            assert(m < pow2(52));
            assert((f + pow2(52)) * pow2(e as nat) > m * pow2(1075)) by (nonlinear_arith)
                requires
                    f >= 0,
                    m < pow2(52),
                    pow2(e as nat) >= pow2(1075),
                    pow2(1075) > 0,
            ;
        }
        return false;
    }
    let d = 1075 - e;
    proof {
        lemma_pow2_adds(e as nat, d as nat);
        assert(e + d == 1075);
    }
    if d > 52 {
        proof {
            if d > 53 {
                lemma_pow2_strictly_increases(53, d as nat);
            }
            assert(f + pow2(52) < pow2(53));
            assert(m * pow2(d as nat) > f + pow2(52)) by (nonlinear_arith)
                requires
                    m >= 1,
                    pow2(d as nat) >= pow2(53),
                    f + pow2(52) < pow2(53),
            ;
            assert((f + pow2(52)) * pow2(e as nat) != m * pow2(1075)) by (nonlinear_arith)
                requires
                    m * pow2(d as nat) > f + pow2(52),
                    pow2(1075) == pow2(e as nat) * pow2(d as nat),
                    pow2(e as nat) > 0,
            ;
        }
        return false;
    }
    let magnitude: u64 = if n < 0 {
        (0 - n as i64) as u64
    } else {
        n as u64
    };
    let significand: u64 = f + 0x10000000000000;
    let p = power_of_two(d);
    assert(magnitude as int * p as int <= 0x1_0000_0000 * 0x10000000000000) by (nonlinear_arith)
        requires
            magnitude <= 0x1_0000_0000,
            p <= 0x10000000000000,
    ;
    let r = significand as u128 == magnitude as u128 * p as u128;
    proof {
        if d < 52 {
            lemma_pow2_strictly_increases(d as nat, 52);
        }
        let x = pow2(e as nat);
        let y = pow2(d as nat);
        assert(((f + pow2(52)) * x == m * (x * y)) <==> (f + pow2(52) == m * y)) by (nonlinear_arith)
            requires
                x > 0,
        ;
    }
    r
}

/// How two numbers are ordered by value; `Unordered` where either is NaN.
#[derive(Debug, Clone, Copy, PartialEq, Eq, Structural)]
pub enum NumberOrdering {
    Less,
    Equal,
    Greater,
    Unordered,
}

pub open spec fn cmp_int(x: int, y: int) -> NumberOrdering {
    if x < y {
        NumberOrdering::Less
    } else if x == y {
        NumberOrdering::Equal
    } else {
        NumberOrdering::Greater
    }
}

/// The magnitude of a float times 2^1075, with the infinities at 2^2100.
pub open spec fn float_magnitude_rank(b: u64) -> int {
    if float_exponent(b) == 0x7ff {
        pow2(2100) as int
    } else {
        float_scaled_magnitude(b)
    }
}

/// Where a number stands on the line, times 2^1075: an integer or a finite
/// float by its value, and the infinities at -2^2100 and 2^2100, beyond every
/// finite binary64 value.
pub open spec fn number_rank(v: RuntimeValue) -> int {
    match v {
        RuntimeValue::IntegerLiteral(n) => n * pow2(1075),
        RuntimeValue::FloatLiteral(b) => if float_negative(b) {
            -float_magnitude_rank(b)
        } else {
            float_magnitude_rank(b)
        },
        _ => 0,
    }
}

pub open spec fn number_is_nan(v: RuntimeValue) -> bool {
    match v {
        RuntimeValue::FloatLiteral(b) => float_is_nan(b),
        _ => false,
    }
}

/// The order of two numbers once integers are widened to binary64.
pub open spec fn spec_number_order(l: RuntimeValue, r: RuntimeValue) -> NumberOrdering {
    if number_is_nan(l) || number_is_nan(r) {
        NumberOrdering::Unordered
    } else {
        cmp_int(number_rank(l), number_rank(r))
    }
}

/// Every finite binary64 magnitude lies below 2^2099.
proof fn lemma_finite_magnitude_bound(e: int, f: int)
    requires
        0 <= e < 0x7ff,
        0 <= f < pow2(52),
    ensures
        0 <= scaled_magnitude(e, f) < pow2(2099),
        scaled_magnitude(e, f) == 0 <==> (e == 0 && f == 0),
        e >= 1 ==> scaled_magnitude(e, f) >= pow2(52) * pow2(e as nat),
        scaled_magnitude(e, f) < pow2(53) * pow2(e as nat),
{
    lemma2_to64();
    lemma2_to64_rest();
    lemma_pow2_pos(e as nat);
    lemma_pow2_adds(53, e as nat);
    if e < 2046 {
        lemma_pow2_strictly_increases((53 + e) as nat, 2099);
    }
    assert(scaled_magnitude(e, f) < pow2(53) * pow2(e as nat)) by (nonlinear_arith)
        requires
            scaled_magnitude(e, f) == if e == 0 {
                2 * f
            } else {
                (f + pow2(52)) * pow2(e as nat)
            },
            f < pow2(52),
            pow2(53) == 2 * pow2(52),
            pow2(e as nat) >= 1,
            e == 0 ==> pow2(e as nat) == 1,
    ;
    if e >= 1 {
        assert((f + pow2(52)) * pow2(e as nat) >= pow2(52) * pow2(e as nat)) by (nonlinear_arith)
            requires
                f >= 0,
                pow2(e as nat) >= 1,
        ;
        assert(pow2(52) * pow2(e as nat) > 0) by (nonlinear_arith)
            requires
                pow2(52) > 0,
                pow2(e as nat) > 0,
        ;
    }
}

/// Magnitudes grow with the exponent and fraction fields read as one number.
proof fn lemma_magnitude_order(ex: int, fx: int, ey: int, fy: int)
    requires
        0 <= ex < 0x7ff,
        0 <= ey < 0x7ff,
        0 <= fx < pow2(52),
        0 <= fy < pow2(52),
        ex < ey || (ex == ey && fx < fy),
    ensures
        scaled_magnitude(ex, fx) < scaled_magnitude(ey, fy),
{
    lemma_finite_magnitude_bound(ex, fx);
    lemma_finite_magnitude_bound(ey, fy);
    lemma_pow2_pos(ex as nat);
    if ex == ey {
        if ex != 0 {
            assert((fx + pow2(52)) * pow2(ex as nat) < (fy + pow2(52)) * pow2(ex as nat))
                by (nonlinear_arith)
                requires
                    fx < fy,
                    pow2(ex as nat) > 0,
            ;
        }
    } else {
        lemma_pow2_unfold((ex + 1) as nat);
        lemma2_to64_rest();
        if ex + 1 < ey {
            lemma_pow2_strictly_increases((ex + 1) as nat, ey as nat);
        }
        assert(pow2(53) * pow2(ex as nat) == pow2(52) * pow2((ex + 1) as nat)) by (nonlinear_arith)
            requires
                pow2(53) == 2 * pow2(52),
                pow2((ex + 1) as nat) == 2 * pow2(ex as nat),
        ;
        assert(pow2(52) * pow2((ex + 1) as nat) <= pow2(52) * pow2(ey as nat)) by (nonlinear_arith)
            requires
                pow2((ex + 1) as nat) <= pow2(ey as nat),
                pow2(52) > 0,
        ;
    }
}

/// Compares `m * 2^1075` with the magnitude of a finite float.
fn compare_magnitude(m: u64, e: u64, f: u64) -> (r: NumberOrdering)
    requires
        m <= 0x8000_0000,
        e < 0x7ff,
        f < 0x10000000000000,
    ensures
        r == cmp_int(m * pow2(1075), scaled_magnitude(e as int, f as int)),
{
    proof {
        lemma2_to64();
        lemma2_to64_rest();
        lemma_pow2_pos(e as nat);
        lemma_pow2_pos(1075);
        lemma_finite_magnitude_bound(e as int, f as int);
    }
    let ghost big = m * pow2(1075);
    let ghost mag = scaled_magnitude(e as int, f as int);
    if m == 0 {
        assert(big == 0) by (nonlinear_arith)
            requires
                big == m * pow2(1075),
                m == 0,
        ;
        return if e == 0 && f == 0 {
            NumberOrdering::Equal
        } else {
            NumberOrdering::Less
        };
    }
    assert(big >= pow2(1075)) by (nonlinear_arith)
        requires
            big == m * pow2(1075),
            m >= 1,
            pow2(1075) > 0,
    ;
    if e == 0 {
        proof {
            lemma_pow2_strictly_increases(53, 1075);
        }
        return NumberOrdering::Greater;
    }
    let significand: u64 = f + 0x10000000000000;
    if e >= 1075 {
        let g = e - 1075;
        proof {
            lemma_pow2_adds(1075, g as nat);
            assert(mag == significand * (pow2(1075) * pow2(g as nat)));
        }
        if g >= 11 {
            proof {
                if g > 11 {
                    lemma_pow2_strictly_increases(11, g as nat);
                }
                assert(significand * pow2(g as nat) > m) by (nonlinear_arith)
                    requires
                        significand >= 0x10000000000000,
                        pow2(g as nat) >= 2048,
                        m <= 0x8000_0000,
                ;
                assert(mag > big) by (nonlinear_arith)
                    requires
                        mag == significand * (pow2(1075) * pow2(g as nat)),
                        big == m * pow2(1075),
                        significand * pow2(g as nat) > m,
                        pow2(1075) > 0,
                ;
            }
            return NumberOrdering::Less;
        }
        let p = power_of_two(g);
        proof {
            if g < 10 {
                lemma_pow2_strictly_increases(g as nat, 10);
            }
        }
        assert(significand * p < 0x40000000000000 * 1024) by (nonlinear_arith)
            requires
                significand < 0x20000000000000,
                p <= 1024,
        ;
        let scaled: u64 = significand * p;
        proof {
            let x = pow2(1075);
            assert((m < scaled <==> m * x < scaled * x) && (m == scaled <==> m * x == scaled * x))
                by (nonlinear_arith)
                requires
                    x > 0,
            ;
            assert(mag == scaled * x) by (nonlinear_arith)
                requires
                    mag == significand * (x * pow2(g as nat)),
                    scaled == significand * pow2(g as nat),
            ;
        }
        return if m < scaled {
            NumberOrdering::Less
        } else if m == scaled {
            NumberOrdering::Equal
        } else {
            NumberOrdering::Greater
        };
    }
    let d = 1075 - e;
    proof {
        lemma_pow2_adds(e as nat, d as nat);
        assert(big == m * (pow2(e as nat) * pow2(d as nat)));
    }
    if d >= 54 {
        proof {
            if d > 54 {
                lemma_pow2_strictly_increases(54, d as nat);
            }
            assert(m * pow2(d as nat) > significand) by (nonlinear_arith)
                requires
                    m >= 1,
                    pow2(d as nat) >= 0x40000000000000,
                    significand < 0x20000000000000,
            ;
            assert(big > mag) by (nonlinear_arith)
                requires
                    big == m * (pow2(e as nat) * pow2(d as nat)),
                    mag == significand * pow2(e as nat),
                    m * pow2(d as nat) > significand,
                    pow2(e as nat) > 0,
            ;
        }
        return NumberOrdering::Greater;
    }
    let p = power_of_two(d);
    proof {
        if d < 53 {
            lemma_pow2_strictly_increases(d as nat, 53);
        }
    }
    assert(m as int * p as int <= 0x8000_0000 * 0x20000000000000) by (nonlinear_arith)
        requires
            m <= 0x8000_0000,
            p <= 0x20000000000000,
    ;
    let lhs: u128 = m as u128 * p as u128;
    let rhs: u128 = significand as u128;
    proof {
        let x = pow2(e as nat);
        assert((lhs < rhs <==> lhs * x < rhs * x) && (lhs == rhs <==> lhs * x == rhs * x))
            by (nonlinear_arith)
            requires
                x > 0,
        ;
        assert(big == lhs * x) by (nonlinear_arith)
            requires
                big == m * (x * pow2(d as nat)),
                lhs == m * pow2(d as nat),
        ;
    }
    if lhs < rhs {
        NumberOrdering::Less
    } else if lhs == rhs {
        NumberOrdering::Equal
    } else {
        NumberOrdering::Greater
    }
}

proof fn lemma_field_bounds(x: u64)
    ensures
        float_exponent(x) <= 0x7ff,
        float_fraction(x) < 0x10000000000000,
        float_negative(x) <==> x >> 63u64 != 0,
{
    assert((x >> 52u64) & 0x7ff <= 0x7ff) by (bit_vector);
    assert(x & 0x000f_ffff_ffff_ffff < 0x10000000000000) by (bit_vector);
    assert((x >> 63u64 == 1) <==> (x >> 63u64 != 0)) by (bit_vector);
}

/// The bits below the sign, read as one number, order the magnitudes of
/// floats that are not NaN.
proof fn lemma_magnitude_key(a: u64, b: u64)
    requires
        !float_is_nan(a),
        !float_is_nan(b),
    ensures
        a & 0x7fff_ffff_ffff_ffff < b & 0x7fff_ffff_ffff_ffff ==> float_magnitude_rank(a)
            < float_magnitude_rank(b),
        a & 0x7fff_ffff_ffff_ffff == b & 0x7fff_ffff_ffff_ffff ==> float_magnitude_rank(a)
            == float_magnitude_rank(b),
        (a & 0x7fff_ffff_ffff_ffff == 0) <==> float_magnitude_rank(a) == 0,
        float_magnitude_rank(a) >= 0,
{
    lemma_field_bounds(a);
    lemma_field_bounds(b);
    lemma2_to64_rest();
    let (ea, fa, eb, fb) = (float_exponent(a), float_fraction(a), float_exponent(b), float_fraction(b));
    assert((a & 0x7fff_ffff_ffff_ffff == 0) <==> ((a >> 52u64) & 0x7ff == 0 && a
        & 0x000f_ffff_ffff_ffff == 0)) by (bit_vector);
    assert(a & 0x7fff_ffff_ffff_ffff == b & 0x7fff_ffff_ffff_ffff ==> ((a >> 52u64) & 0x7ff == (b
        >> 52u64) & 0x7ff && a & 0x000f_ffff_ffff_ffff == b & 0x000f_ffff_ffff_ffff))
        by (bit_vector);
    assert(a & 0x7fff_ffff_ffff_ffff < b & 0x7fff_ffff_ffff_ffff ==> ((a >> 52u64) & 0x7ff < (b
        >> 52u64) & 0x7ff || ((a >> 52u64) & 0x7ff == (b >> 52u64) & 0x7ff && a
        & 0x000f_ffff_ffff_ffff < b & 0x000f_ffff_ffff_ffff))) by (bit_vector);
    lemma_pow2_strictly_increases(2099, 2100);
    if ea < 0x7ff {
        lemma_finite_magnitude_bound(ea as int, fa as int);
    } else {
        lemma_pow2_pos(2100);
    }
    if eb < 0x7ff {
        lemma_finite_magnitude_bound(eb as int, fb as int);
    }
    if ea < 0x7ff && eb < 0x7ff && (ea < eb || (ea == eb && fa < fb)) {
        lemma_magnitude_order(ea as int, fa as int, eb as int, fb as int);
    }
}

/// Orders an integer, widened to binary64, against a float.
pub fn order_integer_float(n: i32, bits: u64) -> (r: NumberOrdering)
    ensures
        r == spec_number_order(RuntimeValue::IntegerLiteral(n), RuntimeValue::FloatLiteral(bits)),
{
    proof {
        lemma_field_bounds(bits);
        lemma2_to64();
        lemma2_to64_rest();
        lemma_pow2_pos(1075);
    }
    let e = (bits >> 52u64) & 0x7ff;
    let f = bits & 0x000f_ffff_ffff_ffff;
    let negative = bits >> 63u64 != 0;
    if e == 0x7ff && f != 0 {
        return NumberOrdering::Unordered;
    }
    let ghost rn = n * pow2(1075);
    let ghost x = pow2(1075);
    if e == 0x7ff {
        proof {
            lemma_pow2_adds(32, 1075);
            lemma_pow2_strictly_increases(1107, 2100);
            assert(-(pow2(32) * x) < rn < pow2(32) * x) by (nonlinear_arith)
                requires
                    rn == n * x,
                    x > 0,
                    -0x1_0000_0000 < n < 0x1_0000_0000,
                    pow2(32) == 0x1_0000_0000,
            ;
        }
        return if negative {
            NumberOrdering::Greater
        } else {
            NumberOrdering::Less
        };
    }
    let m: u64 = if n < 0 {
        (0 - n as i64) as u64
    } else {
        n as u64
    };
    let mc = compare_magnitude(m, e, f);
    let ghost mag = float_scaled_magnitude(bits);
    proof {
        lemma_finite_magnitude_bound(e as int, f as int);
        if n < 0 {
            assert(rn == -(m * x)) by (nonlinear_arith)
                requires
                    rn == n * x,
                    m == -n,
            ;
        }
        assert(m * x >= 0) by (nonlinear_arith)
            requires
                m >= 0,
                x > 0,
        ;
        assert(m * x == 0 <==> m == 0) by (nonlinear_arith)
            requires
                m >= 0,
                x > 0,
        ;
    }
    if n >= 0 && !negative {
        mc
    } else if n < 0 && negative {
        match mc {
            NumberOrdering::Less => NumberOrdering::Greater,
            NumberOrdering::Greater => NumberOrdering::Less,
            other => other,
        }
    } else if n >= 0 {
        if n == 0 && e == 0 && f == 0 {
            NumberOrdering::Equal
        } else {
            NumberOrdering::Greater
        }
    } else {
        NumberOrdering::Less
    }
}

/// Orders two floats by value, as IEEE-754 does.
pub fn order_floats(a: u64, b: u64) -> (r: NumberOrdering)
    ensures
        r == spec_number_order(RuntimeValue::FloatLiteral(a), RuntimeValue::FloatLiteral(b)),
{
    let a_nan = (a >> 52u64) & 0x7ff == 0x7ff && a & 0x000f_ffff_ffff_ffff != 0;
    let b_nan = (b >> 52u64) & 0x7ff == 0x7ff && b & 0x000f_ffff_ffff_ffff != 0;
    if a_nan || b_nan {
        return NumberOrdering::Unordered;
    }
    proof {
        lemma_magnitude_key(a, b);
        lemma_magnitude_key(b, a);
        lemma_field_bounds(a);
        lemma_field_bounds(b);
    }
    let ka = a & 0x7fff_ffff_ffff_ffff;
    let kb = b & 0x7fff_ffff_ffff_ffff;
    let a_negative = a >> 63u64 != 0;
    let b_negative = b >> 63u64 != 0;
    if ka == 0 && kb == 0 {
        return NumberOrdering::Equal;
    }
    if !a_negative && b_negative {
        return NumberOrdering::Greater;
    }
    if a_negative && !b_negative {
        return NumberOrdering::Less;
    }
    let by_magnitude = if ka < kb {
        NumberOrdering::Less
    } else if ka == kb {
        NumberOrdering::Equal
    } else {
        NumberOrdering::Greater
    };
    if a_negative {
        match by_magnitude {
            NumberOrdering::Less => NumberOrdering::Greater,
            NumberOrdering::Greater => NumberOrdering::Less,
            other => other,
        }
    } else {
        by_magnitude
    }
}

/// Orders two numbers by value once integers are widened to binary64.
pub fn order_numbers(left: RuntimeValue, right: RuntimeValue) -> (r: NumberOrdering)
    requires
        left.spec_is_number(),
        right.spec_is_number(),
    ensures
        r == spec_number_order(left, right),
{
    match (left, right) {
        (RuntimeValue::IntegerLiteral(a), RuntimeValue::IntegerLiteral(b)) => {
            proof {
                lemma_pow2_pos(1075);
                let x = pow2(1075);
                assert((a < b <==> a * x < b * x) && (a == b <==> a * x == b * x))
                    by (nonlinear_arith)
                    requires
                        x > 0,
                ;
            }
            if a < b {
                NumberOrdering::Less
            } else if a == b {
                NumberOrdering::Equal
            } else {
                NumberOrdering::Greater
            }
        },
        (RuntimeValue::IntegerLiteral(a), RuntimeValue::FloatLiteral(b)) => order_integer_float(a, b),
        (RuntimeValue::FloatLiteral(a), RuntimeValue::IntegerLiteral(b)) => {
            match order_integer_float(b, a) {
                NumberOrdering::Less => NumberOrdering::Greater,
                NumberOrdering::Greater => NumberOrdering::Less,
                other => other,
            }
        },
        (RuntimeValue::FloatLiteral(a), RuntimeValue::FloatLiteral(b)) => order_floats(a, b),
        _ => NumberOrdering::Unordered,
    }
}

/// For numbers, the equality rule and the order agree: two numbers are
/// equal exactly when they are ordered as equal.
pub proof fn lemma_equality_agrees_with_order(l: RuntimeValue, r: RuntimeValue)
    requires
        l.spec_is_number(),
        r.spec_is_number(),
    ensures
        number_equal(l, r) == (spec_number_order(l, r) == NumberOrdering::Equal),
{
    lemma2_to64();
    lemma2_to64_rest();
    lemma_pow2_pos(1075);
    let x = pow2(1075);
    match (l, r) {
        (RuntimeValue::IntegerLiteral(a), RuntimeValue::IntegerLiteral(b)) => {
            assert((a == b) <==> (a * x == b * x)) by (nonlinear_arith)
                requires
                    x > 0,
            ;
        },
        (RuntimeValue::FloatLiteral(a), RuntimeValue::FloatLiteral(b)) => {
            if !float_is_nan(a) && !float_is_nan(b) {
                lemma_magnitude_key(a, b);
                lemma_magnitude_key(b, a);
                lemma_field_bounds(a);
                lemma_field_bounds(b);
                assert((a == b) <==> (a & 0x7fff_ffff_ffff_ffff == b & 0x7fff_ffff_ffff_ffff && a
                    >> 63u64 == b >> 63u64)) by (bit_vector);
                assert(float_is_zero(a) <==> a & 0x7fff_ffff_ffff_ffff == 0) by {
                    assert(((a >> 52u64) & 0x7ff == 0 && a & 0x000f_ffff_ffff_ffff == 0) <==> a
                        & 0x7fff_ffff_ffff_ffff == 0) by (bit_vector);
                }
                assert(float_is_zero(b) <==> b & 0x7fff_ffff_ffff_ffff == 0) by {
                    assert(((b >> 52u64) & 0x7ff == 0 && b & 0x000f_ffff_ffff_ffff == 0) <==> b
                        & 0x7fff_ffff_ffff_ffff == 0) by (bit_vector);
                }
                assert((a >> 63u64 == 1) <==> (a >> 63u64 != 0)) by (bit_vector);
                assert((b >> 63u64 == 1) <==> (b >> 63u64 != 0)) by (bit_vector);
                assert((a >> 63u64 == 0 || a >> 63u64 == 1)) by (bit_vector);
                assert((b >> 63u64 == 0 || b >> 63u64 == 1)) by (bit_vector);
            }
        },
        (RuntimeValue::IntegerLiteral(n), RuntimeValue::FloatLiteral(b)) => {
            lemma_int_float_equality(n, b);
        },
        (RuntimeValue::FloatLiteral(b), RuntimeValue::IntegerLiteral(n)) => {
            lemma_int_float_equality(n, b);
        },
        _ => {},
    }
}

proof fn lemma_int_float_equality(n: i32, b: u64)
    ensures
        float_equals_int(b, n as int) == (!float_is_nan(b) && n * pow2(1075) == number_rank(
            RuntimeValue::FloatLiteral(b),
        )),
{
    lemma2_to64();
    lemma2_to64_rest();
    lemma_pow2_pos(1075);
    lemma_field_bounds(b);
    let x = pow2(1075);
    let m: int = if n < 0 { -n } else { n as int };
    assert((b >> 63u64 == 0 || b >> 63u64 == 1)) by (bit_vector);
    if float_exponent(b) == 0x7ff {
        lemma_pow2_adds(32, 1075);
        lemma_pow2_strictly_increases(1107, 2100);
        assert(-(pow2(32) * x) < n * x < pow2(32) * x) by (nonlinear_arith)
            requires
                x > 0,
                -0x1_0000_0000 < n < 0x1_0000_0000,
                pow2(32) == 0x1_0000_0000,
        ;
    } else {
        let mag = float_scaled_magnitude(b);
        lemma_finite_magnitude_bound(float_exponent(b) as int, float_fraction(b) as int);
        assert(n < 0 ==> n * x == -(m * x)) by (nonlinear_arith)
            requires
                m == if n < 0 {
                    -n
                } else {
                    n as int
                },
        ;
        assert(n >= 0 ==> n * x == m * x);
        assert(m * x >= 0 && (m * x == 0 <==> m == 0) && (n * x == 0 <==> n == 0))
            by (nonlinear_arith)
            requires
                m >= 0,
                x > 0,
                m == 0 <==> n == 0,
        ;
    }
}

} // verus!
