use rustc_apfloat::Float;
use vstd::prelude::*;

verus! {

// Numbers of the language are 32-bit IEEE values, carried everywhere as
// their bit patterns.  The verified code never looks inside a bit pattern
// except to clear the sign bit; every arithmetic step, comparison, parse
// and rendering is delegated to rustc_apfloat's software implementation
// of IEEE single-precision arithmetic, behind the trusted items below.

/// Bit pattern of the absolute tolerance (1e-4) that number equality allows.
pub const EPS_BITS: u32 = 0x38d1_b717;

/// Whether a bit pattern holds a finite value: its exponent field is
/// not all ones (which would make it an infinity or a NaN).
pub open spec fn is_finite_bits(a: u32) -> bool {
    ((a >> 23) & 0xff) != 0xff
}

/// What parsing a decimal literal yields: `None` when the text is not a
/// number, else the bit pattern of the nearest single-precision value.
pub uninterp spec fn parse_bits(s: Seq<char>) -> Option<u32>;

/// The sum of two single-precision values, rounded to nearest (ties to even).
pub uninterp spec fn add_bits(a: u32, b: u32) -> u32;

/// The difference of two single-precision values, rounded to nearest.
pub uninterp spec fn sub_bits(a: u32, b: u32) -> u32;

/// The product of two single-precision values, rounded to nearest.
pub uninterp spec fn mul_bits(a: u32, b: u32) -> u32;

/// The quotient of two single-precision values, rounded to nearest.
pub uninterp spec fn div_bits(a: u32, b: u32) -> u32;

/// The IEEE `<` comparison (false whenever an operand is a NaN).
pub uninterp spec fn lt_bits(a: u32, b: u32) -> bool;

/// The IEEE `<=` comparison (false whenever an operand is a NaN).
pub uninterp spec fn le_bits(a: u32, b: u32) -> bool;

/// The positional decimal rendering of a single-precision value with
/// the given number of significant digits.
pub uninterp spec fn fmt_prec_bits(a: u32, p: usize) -> Seq<char>;

/// Whether the rendering with `p` significant digits parses back to
/// the very same bit pattern.
pub open spec fn round_trips_at(a: u32, p: usize) -> bool {
    parse_bits(fmt_prec_bits(a, p)) == Some(a)
}

/// Whether a rendering is positional: free of scientific notation.
pub open spec fn positional(s: Seq<char>) -> bool {
    forall|k: int| 0 <= k < s.len() ==> #[trigger] s[k] != 'E'
}

/// Whether `p` significant digits render this value positionally and
/// parse back to the same bit pattern.
pub open spec fn good_prec_at(a: u32, p: usize) -> bool {
    round_trips_at(a, p) && positional(fmt_prec_bits(a, p))
}

/// The fewest significant digits, counted from `p`, that render the
/// value positionally and parse back to the same bit pattern.  Up to
/// nine digits settle the fraction and up to thirty-nine more cover
/// the integer places of the largest single-precision values, so the
/// search stops at forty-eight; when nothing qualifies (the value was
/// not finite) nine digits stand as the fallback.
pub open spec fn display_prec(a: u32, p: usize) -> usize
    decreases 48 - p,
{
    if p >= 48 {
        9
    } else if good_prec_at(a, p) {
        p
    } else {
        display_prec(a, (p + 1) as usize)
    }
}

/// The decimal rendering of a single-precision value: the shortest
/// positional rendering that parses back to the same bit pattern.
pub open spec fn fmt_bits(a: u32) -> Seq<char> {
    fmt_prec_bits(a, display_prec(a, 1))
}

/// The chosen precision is good where any is, and none below it is.
proof fn lemma_display_prec_props(a: u32, p: usize)
    requires
        1 <= p <= 48,
    ensures
        (exists|q: usize| p <= q < 48 && good_prec_at(a, q)) ==> good_prec_at(
            a,
            display_prec(a, p),
        ),
        forall|q: usize| p <= q < display_prec(a, p) ==> !good_prec_at(a, q),
    decreases 48 - p,
{
    if p < 48 && !good_prec_at(a, p) {
        lemma_display_prec_props(a, (p + 1) as usize);
    }
}

/// The rendering of a number parses back to the very same bit pattern
/// whenever any precision in range can achieve that, and no fewer
/// significant digits could: the rendering is round-tripping and
/// minimal.
pub proof fn lemma_display_round_trip(a: u32)
    ensures
        (exists|q: usize| 1 <= q < 48 && good_prec_at(a, q)) ==> parse_bits(fmt_bits(a))
            == Some(a),
        forall|q: usize| 1 <= q < display_prec(a, 1) ==> !good_prec_at(a, q),
{
    lemma_display_prec_props(a, 1);
}

/// Relies on rustc_apfloat::ieee::Single's FromStr: correctly rounded
/// IEEE single-precision parsing of decimal text, a function of the
/// characters alone; an error becomes `None`.
#[verifier::external_body]
pub(crate) fn num_parse(s: &str) -> (r: Option<u32>)
    ensures
        r == parse_bits(s@),
{
    match s.parse::<rustc_apfloat::ieee::Single>() {
        Ok(v) => Some(v.to_bits() as u32),
        Err(_) => None,
    }
}

/// Relies on rustc_apfloat::ieee::Single's Add: IEEE single-precision
/// addition, round to nearest, a function of the operand bits alone.
#[verifier::external_body]
pub(crate) fn num_add(a: u32, b: u32) -> (r: u32)
    ensures
        r == add_bits(a, b),
{
    let x = rustc_apfloat::ieee::Single::from_bits(a as u128);
    let y = rustc_apfloat::ieee::Single::from_bits(b as u128);
    (x + y).value.to_bits() as u32
}

/// Relies on rustc_apfloat::ieee::Single's Sub: IEEE single-precision
/// subtraction, round to nearest, a function of the operand bits alone;
/// a finite value minus itself is exactly positive zero.
#[verifier::external_body]
pub(crate) fn num_sub(a: u32, b: u32) -> (r: u32)
    ensures
        r == sub_bits(a, b),
        a == b && is_finite_bits(a) ==> r == 0,
{
    let x = rustc_apfloat::ieee::Single::from_bits(a as u128);
    let y = rustc_apfloat::ieee::Single::from_bits(b as u128);
    (x - y).value.to_bits() as u32
}

/// Relies on rustc_apfloat::ieee::Single's Mul: IEEE single-precision
/// multiplication, round to nearest, a function of the operand bits alone.
#[verifier::external_body]
pub(crate) fn num_mul(a: u32, b: u32) -> (r: u32)
    ensures
        r == mul_bits(a, b),
{
    let x = rustc_apfloat::ieee::Single::from_bits(a as u128);
    let y = rustc_apfloat::ieee::Single::from_bits(b as u128);
    (x * y).value.to_bits() as u32
}

/// Relies on rustc_apfloat::ieee::Single's Div: IEEE single-precision
/// division, round to nearest, a function of the operand bits alone.
#[verifier::external_body]
pub(crate) fn num_div(a: u32, b: u32) -> (r: u32)
    ensures
        r == div_bits(a, b),
{
    let x = rustc_apfloat::ieee::Single::from_bits(a as u128);
    let y = rustc_apfloat::ieee::Single::from_bits(b as u128);
    (x / y).value.to_bits() as u32
}

/// Relies on rustc_apfloat::ieee::Single's Neg: negation flips
/// exactly the sign bit of the pattern.
#[verifier::external_body]
pub(crate) fn num_neg(a: u32) -> (r: u32)
    ensures
        r == a ^ 0x8000_0000,
{
    let x = rustc_apfloat::ieee::Single::from_bits(a as u128);
    (-x).to_bits() as u32
}

/// Relies on rustc_apfloat::ieee::Single's PartialOrd: the IEEE `<`
/// comparison, a function of the operand bits alone.
#[verifier::external_body]
pub(crate) fn num_lt(a: u32, b: u32) -> (r: bool)
    ensures
        r == lt_bits(a, b),
{
    let x = rustc_apfloat::ieee::Single::from_bits(a as u128);
    let y = rustc_apfloat::ieee::Single::from_bits(b as u128);
    x < y
}

/// Relies on rustc_apfloat::ieee::Single's PartialOrd: the IEEE `<=`
/// comparison, a function of the operand bits alone; positive zero is
/// below every non-negative finite value.
#[verifier::external_body]
pub(crate) fn num_le(a: u32, b: u32) -> (r: bool)
    ensures
        r == le_bits(a, b),
        a == 0 && is_finite_bits(b) && (b >> 31) == 0 ==> r,
{
    let x = rustc_apfloat::ieee::Single::from_bits(a as u128);
    let y = rustc_apfloat::ieee::Single::from_bits(b as u128);
    x <= y
}

/// Relies on rustc_apfloat's Display for Single, with an explicit
/// significant-digit count and enough positional width that scientific
/// notation is never chosen: a function of the bit pattern and the
/// digit count alone.
#[verifier::external_body]
fn num_to_string_prec(a: u32, p: usize) -> (r: String)
    ensures
        r@ == fmt_prec_bits(a, p),
{
    let x = rustc_apfloat::ieee::Single::from_bits(a as u128);
    format!("{:64.prec$}", x, prec = p)
}

/// Whether a rendering is positional: free of scientific notation.
fn is_positional_text(s: &str) -> (r: bool)
    ensures
        r == positional(s@),
{
    let n = s.unicode_len();
    let mut k: usize = 0;
    while k < n
        invariant
            k <= n == s@.len(),
            forall|j: int| 0 <= j < k ==> #[trigger] s@[j] != 'E',
        decreases n - k,
    {
        if s.get_char(k) == 'E' {
            return false;
        }
        k = k + 1;
    }
    true
}

/// Renders a number as the shortest positional decimal that parses
/// back to the same bit pattern.
pub(crate) fn num_to_string(a: u32) -> (r: String)
    ensures
        r@ == fmt_bits(a),
{
    let mut p: usize = 1;
    while p < 48
        invariant
            1 <= p <= 48,
            display_prec(a, 1) == display_prec(a, p),
        decreases 48 - p,
    {
        let s = num_to_string_prec(a, p);
        let round_trip = match num_parse(s.as_str()) {
            Some(b) => b == a,
            None => false,
        };
        if round_trip && is_positional_text(s.as_str()) {
            return s;
        }
        p = p + 1;
    }
    num_to_string_prec(a, 9)
}

/// Two numbers are equal when they differ by at most the tolerance:
/// the magnitude of their difference (the sign bit of the IEEE pattern
/// cleared) is no more than `EPS_BITS`.
pub open spec fn num_eq_bits(a: u32, b: u32) -> bool {
    le_bits(sub_bits(a, b) & 0x7fff_ffff, EPS_BITS)
}

/// The tolerant equality test on numbers.  It is reflexive on every
/// finite value: such a value differs from itself by exactly zero.
pub(crate) fn num_eq(a: u32, b: u32) -> (r: bool)
    ensures
        r == num_eq_bits(a, b),
        a == b && is_finite_bits(a) ==> r,
{
    let d = num_sub(a, b);
    proof {
        if a == b && is_finite_bits(a) {
            assert(0u32 & 0x7fff_ffffu32 == 0u32) by (bit_vector);
            assert(((0x38d1_b717u32 >> 23) & 0xff) != 0xff) by (bit_vector);
            assert((0x38d1_b717u32 >> 31) == 0) by (bit_vector);
        }
    }
    num_le(d & 0x7fff_ffff, EPS_BITS)
}

} // verus!
