//! Fixed-point decimal numbers with a 96-bit mantissa, as `rust_decimal` holds them.
use vstd::prelude::*;

verus! {

/// Largest scale (number of digits after the point) of a decimal.
pub const MAX_SCALE: u32 = 28;

/// Largest magnitude of a mantissa: 2^96 - 1.
pub const MAX_MANTISSA: i128 = 79228162514264337593543950335;

/// Whether a (mantissa, scale) pair is one that a decimal can hold.
pub open spec fn parts_in_range(p: (int, nat)) -> bool {
    &&& -(MAX_MANTISSA as int) <= p.0 <= MAX_MANTISSA as int
    &&& p.1 <= MAX_SCALE as nat
}

/// The (mantissa, scale) pair that `rust_decimal` gives for the sum of two decimals,
/// or `None` where the sum overflows.
pub uninterp spec fn decimal_sum(a: (int, nat), b: (int, nat)) -> Option<(int, nat)>;

/// The (mantissa, scale) pair that `rust_decimal` gives for the product of two decimals,
/// or `None` where the product overflows.
pub uninterp spec fn decimal_product(a: (int, nat), b: (int, nat)) -> Option<(int, nat)>;

/// The (mantissa, scale) pair that `rust_decimal` parses from a string, or `None` where
/// the string is no decimal.
pub uninterp spec fn decimal_parse(s: Seq<char>) -> Option<(int, nat)>;

/// The view of a pair of machine integers as a (mantissa, scale) pair.
pub open spec fn parts_view(p: (i128, u32)) -> (int, nat) {
    (p.0 as int, p.1 as nat)
}

/// The view of an optional pair of machine integers.
pub open spec fn opt_parts_view(p: Option<(i128, u32)>) -> Option<(int, nat)> {
    match p {
        Some(q) => Some(parts_view(q)),
        None => None,
    }
}

/// Ten to the power `n`.
pub open spec fn pow10(n: nat) -> int
    decreases n,
{
    if n == 0 {
        1
    } else {
        10 * pow10((n - 1) as nat)
    }
}

/// Whether two (mantissa, scale) pairs write the same number.
pub open spec fn same_value(a: (int, nat), b: (int, nat)) -> bool {
    a.0 * pow10(b.1) == b.0 * pow10(a.1)
}

/// Whether a pair of a magnitude and a scale has no trailing zero left to drop.
pub open spec fn is_normal(p: (int, nat)) -> bool {
    p.1 == 0 || p.0 % 10 != 0
}

/// The magnitude of an integer.
pub open spec fn magnitude(m: int) -> int {
    if m < 0 {
        -m
    } else {
        m
    }
}

/// Powers of ten are above zero.
proof fn lemma_pow10_positive(n: nat)
    ensures
        pow10(n) > 0,
    decreases n,
{
    if n > 0 {
        lemma_pow10_positive((n - 1) as nat);
    }
}

/// `10^(x + y) == 10^x * 10^y`.
proof fn lemma_pow10_add(x: nat, y: nat)
    ensures
        pow10(x + y) == pow10(x) * pow10(y),
    decreases x,
{
    if x > 0 {
        lemma_pow10_add((x - 1) as nat, y);
        assert(pow10(x + y) == 10 * pow10((x - 1 + y) as nat));
        assert(10 * (pow10((x - 1) as nat) * pow10(y)) == (10 * pow10((x - 1) as nat)) * pow10(y))
            by (nonlinear_arith);
    }
}

/// Two normal pairs of magnitudes that write the same number are the same pair.
proof fn lemma_normal_unique(a: (int, nat), b: (int, nat))
    requires
        a.0 >= 0,
        b.0 >= 0,
        is_normal(a),
        is_normal(b),
        same_value(a, b),
    ensures
        a == b,
{
    lemma_pow10_positive(a.1);
    lemma_pow10_positive(b.1);
    if a.0 == 0 || b.0 == 0 {
        assert(a.0 == 0 && b.0 == 0) by (nonlinear_arith)
            requires
                a.0 * pow10(b.1) == b.0 * pow10(a.1),
                pow10(a.1) > 0,
                pow10(b.1) > 0,
                a.0 == 0 || b.0 == 0,
        ;
    } else if a.1 < b.1 {
        let d = (b.1 - a.1) as nat;
        lemma_pow10_add(d, a.1);
        lemma_pow10_positive(d);
        assert(a.0 * pow10(d) == b.0) by (nonlinear_arith)
            requires
                a.0 * (pow10(d) * pow10(a.1)) == b.0 * pow10(a.1),
                pow10(a.1) > 0,
        ;
        assert(pow10(d) == 10 * pow10((d - 1) as nat));
        let q = a.0 * pow10((d - 1) as nat);
        assert(b.0 == 10 * q) by (nonlinear_arith)
            requires
                b.0 == a.0 * (10 * pow10((d - 1) as nat)),
                q == a.0 * pow10((d - 1) as nat),
        ;
        assert(b.0 % 10 == 0);
    } else if b.1 < a.1 {
        let d = (a.1 - b.1) as nat;
        lemma_pow10_add(d, b.1);
        lemma_pow10_positive(d);
        assert(b.0 * pow10(d) == a.0) by (nonlinear_arith)
            requires
                b.0 * (pow10(d) * pow10(b.1)) == a.0 * pow10(b.1),
                pow10(b.1) > 0,
        ;
        assert(pow10(d) == 10 * pow10((d - 1) as nat));
        let q = b.0 * pow10((d - 1) as nat);
        assert(a.0 == 10 * q) by (nonlinear_arith)
            requires
                a.0 == b.0 * (10 * pow10((d - 1) as nat)),
                q == b.0 * pow10((d - 1) as nat),
        ;
        assert(a.0 % 10 == 0);
    } else {
        assert(a.0 == b.0) by (nonlinear_arith)
            requires
                a.0 * pow10(b.1) == b.0 * pow10(a.1),
                a.1 == b.1,
                pow10(a.1) > 0,
        ;
    }
}

/// Writing the same number is transitive.
proof fn lemma_same_value_transitive(a: (int, nat), b: (int, nat), c: (int, nat))
    requires
        same_value(a, b),
        same_value(b, c),
    ensures
        same_value(a, c),
{
    lemma_pow10_positive(b.1);
    let (pa, pb, pc) = (pow10(a.1), pow10(b.1), pow10(c.1));
    assert(a.0 * pc == c.0 * pa) by (nonlinear_arith)
        requires
            a.0 * pb == b.0 * pa,
            b.0 * pc == c.0 * pb,
            pb > 0,
    ;
}

/// Two numbers are the same when their signs and magnitudes are.
proof fn lemma_same_value_by_magnitude(a: (int, nat), b: (int, nat))
    ensures
        same_value(a, b) <==> ((a.0 < 0) == (b.0 < 0) && same_value(
            (magnitude(a.0), a.1),
            (magnitude(b.0), b.1),
        )),
{
    lemma_pow10_positive(a.1);
    lemma_pow10_positive(b.1);
    let (pa, pb) = (pow10(a.1), pow10(b.1));
    assert(same_value(a, b) <==> ((a.0 < 0) == (b.0 < 0) && magnitude(a.0) * pb == magnitude(b.0)
        * pa)) by (nonlinear_arith)
        requires
            pa > 0,
            pb > 0,
            same_value(a, b) <==> a.0 * pb == b.0 * pa,
            magnitude(a.0) == if a.0 < 0 {
                -a.0
            } else {
                a.0
            },
            magnitude(b.0) == if b.0 < 0 {
                -b.0
            } else {
                b.0
            },
    ;
}

/// The magnitude of a mantissa and a scale, with trailing zeros dropped.
fn normal_form(m: i128, s: u32) -> (r: (u128, u32))
    requires
        parts_in_range((m as int, s as nat)),
    ensures
        is_normal((r.0 as int, r.1 as nat)),
        same_value((magnitude(m as int), s as nat), (r.0 as int, r.1 as nat)),
{
    let mut a: u128 = if m < 0 {
        (-m) as u128
    } else {
        m as u128
    };
    let mut k: u32 = s;
    proof {
        assert(pow10(0nat) == 1);
        assert((s - k) as nat == 0nat);
        assert(a as int == magnitude(m as int));
    }
    while k > 0 && a % 10 == 0
        invariant
            k <= s,
            a as int * pow10((s - k) as nat) == magnitude(m as int),
        decreases k,
    {
        let ghost a0 = a as int;
        let ghost d = (s - k) as nat;
        a = a / 10;
        k = k - 1;
        proof {
            assert(a0 == a as int * 10);
            assert(pow10(d + 1) == 10 * pow10(d));
            assert(a as int * pow10(d + 1) == a0 * pow10(d)) by (nonlinear_arith)
                requires
                    a0 == a as int * 10,
                    pow10(d + 1) == 10 * pow10(d),
            ;
            assert((s - k) as nat == d + 1);
        }
    }
    proof {
        let d = (s - k) as nat;
        lemma_pow10_add(d, k as nat);
        assert(magnitude(m as int) * pow10(k as nat) == a as int * pow10(s as nat)) by (nonlinear_arith)
            requires
                a as int * pow10(d) == magnitude(m as int),
                pow10(s as nat) == pow10(d) * pow10(k as nat),
        ;
    }
    (a, k)
}

impl PartialEq for Decimal {
    fn eq(&self, other: &Decimal) -> (r: bool)
        ensures
            r == same_value(self@, other@),
    {
        proof {
            use_type_invariant(self);
            use_type_invariant(other);
        }
        let (a1, k1) = normal_form(self.mantissa, self.scale);
        let (a2, k2) = normal_form(other.mantissa, other.scale);
        let r = (self.mantissa < 0) == (other.mantissa < 0) && a1 == a2 && k1 == k2;
        proof {
            let x = (magnitude(self@.0), self@.1);
            let y = (magnitude(other@.0), other@.1);
            let nx = (a1 as int, k1 as nat);
            let ny = (a2 as int, k2 as nat);
            lemma_same_value_by_magnitude(self@, other@);
            if same_value(x, y) {
                lemma_pow10_positive(x.1);
                lemma_pow10_positive(nx.1);
                assert(same_value(nx, x)) by (nonlinear_arith)
                    requires
                        same_value(x, nx),
                ;
                lemma_same_value_transitive(nx, x, y);
                lemma_same_value_transitive(nx, y, ny);
                lemma_normal_unique(nx, ny);
            }
            if nx == ny {
                assert(same_value(ny, y) ==> same_value(y, ny));
                assert(same_value(ny, y)) by (nonlinear_arith)
                    requires
                        same_value(y, ny),
                ;
                lemma_same_value_transitive(x, nx, y);
            }
        }
        r
    }
}

impl vstd::std_specs::cmp::PartialEqSpecImpl for Decimal {
    open spec fn obeys_eq_spec() -> bool {
        true
    }

    open spec fn eq_spec(&self, other: &Decimal) -> bool {
        same_value(self@, other@)
    }
}

/// A decimal number: `mantissa / 10^scale`. Two decimals are equal when they are the
/// same number, whatever their scales (`1.0 == 1.00`).
#[derive(Clone, Copy, Debug, Eq)]
pub struct Decimal {
    mantissa: i128,
    scale: u32,
}

impl View for Decimal {
    type V = (int, nat);

    closed spec fn view(&self) -> (int, nat) {
        (self.mantissa as int, self.scale as nat)
    }
}

impl Decimal {
    /// Every decimal holds a mantissa of at most 96 bits and a scale of at most 28.
    #[verifier::type_invariant]
    pub open spec fn in_range(self) -> bool {
        parts_in_range(self@)
    }

    /// The decimal `num / 10^scale`.
    pub fn new(num: i64, scale: u32) -> (r: Decimal)
        requires
            scale <= MAX_SCALE,
        ensures
            r@ == (num as int, scale as nat),
    {
        Decimal { mantissa: num as i128, scale }
    }

    /// The decimal `num / 10^scale`, or `None` where the mantissa or the scale is out of range.
    pub fn try_from_i128_with_scale(num: i128, scale: u32) -> (r: Option<Decimal>)
        ensures
            parts_in_range((num as int, scale as nat)) <==> r is Some,
            r matches Some(d) ==> d@ == (num as int, scale as nat),
    {
        if scale <= MAX_SCALE && -MAX_MANTISSA <= num && num <= MAX_MANTISSA {
            Some(Decimal { mantissa: num, scale })
        } else {
            None
        }
    }

    /// The integer 0.
    pub fn zero() -> (r: Decimal)
        ensures
            r@ == (0int, 0nat),
    {
        Decimal { mantissa: 0, scale: 0 }
    }

    /// The largest decimal, 79228162514264337593543950335.
    pub fn max_value() -> (r: Decimal)
        ensures
            r@ == (MAX_MANTISSA as int, 0nat),
    {
        Decimal { mantissa: MAX_MANTISSA, scale: 0 }
    }

    /// The mantissa: the decimal is `mantissa() / 10^scale()`.
    pub fn mantissa(&self) -> (r: i128)
        ensures
            r as int == self@.0,
    {
        self.mantissa
    }

    /// The number of digits after the point.
    pub fn scale(&self) -> (r: u32)
        ensures
            r as nat == self@.1,
    {
        self.scale
    }

    /// Whether the decimal is above zero.
    pub fn is_positive(&self) -> (r: bool)
        ensures
            r == (self@.0 > 0),
    {
        self.mantissa > 0
    }

    /// Whether the decimal is below zero.
    pub fn is_negative(&self) -> (r: bool)
        ensures
            r == (self@.0 < 0),
    {
        self.mantissa < 0
    }

    /// The sum, or `None` where it overflows.
    pub fn checked_add(&self, other: &Decimal) -> (r: Option<Decimal>)
        ensures
            opt_view(r) == decimal_sum(self@, other@),
    {
        proof {
            use_type_invariant(self);
            use_type_invariant(other);
        }
        match add_parts((self.mantissa, self.scale), (other.mantissa, other.scale)) {
            Some(p) => Some(Decimal { mantissa: p.0, scale: p.1 }),
            None => None,
        }
    }

    /// The product, or `None` where it overflows.
    pub fn checked_mul(&self, other: &Decimal) -> (r: Option<Decimal>)
        ensures
            opt_view(r) == decimal_product(self@, other@),
    {
        proof {
            use_type_invariant(self);
            use_type_invariant(other);
        }
        match mul_parts((self.mantissa, self.scale), (other.mantissa, other.scale)) {
            Some(p) => Some(Decimal { mantissa: p.0, scale: p.1 }),
            None => None,
        }
    }

    /// The decimal written in `s` (such as `"300.64"` or `"-1"`), or `None` where `s`
    /// is no decimal.
    pub fn parse(s: &str) -> (r: Option<Decimal>)
        ensures
            opt_view(r) == decimal_parse(s@),
    {
        match parse_parts(s) {
            Some(p) => Some(Decimal { mantissa: p.0, scale: p.1 }),
            None => None,
        }
    }
}

/// The view of an optional decimal.
pub open spec fn opt_view(d: Option<Decimal>) -> Option<(int, nat)> {
    match d {
        Some(x) => Some(x@),
        None => None,
    }
}

/// Relies on `rust_decimal::Decimal::checked_add`, which returns `None` only on overflow,
/// and on `Decimal::mantissa` and `Decimal::scale`, which stay within 96 bits and 28.
#[verifier::external_body]
fn add_parts(a: (i128, u32), b: (i128, u32)) -> (r: Option<(i128, u32)>)
    requires
        parts_in_range(parts_view(a)),
        parts_in_range(parts_view(b)),
    ensures
        opt_parts_view(r) == decimal_sum(parts_view(a), parts_view(b)),
        r matches Some(p) ==> parts_in_range(parts_view(p)),
{
    let x = rust_decimal::Decimal::from_i128_with_scale(a.0, a.1);
    let y = rust_decimal::Decimal::from_i128_with_scale(b.0, b.1);
    x.checked_add(y).map(|d| (d.mantissa(), d.scale()))
}

/// Relies on `rust_decimal::Decimal::checked_mul`, which returns `None` only on overflow,
/// and on `Decimal::mantissa` and `Decimal::scale`, which stay within 96 bits and 28.
#[verifier::external_body]
fn mul_parts(a: (i128, u32), b: (i128, u32)) -> (r: Option<(i128, u32)>)
    requires
        parts_in_range(parts_view(a)),
        parts_in_range(parts_view(b)),
    ensures
        opt_parts_view(r) == decimal_product(parts_view(a), parts_view(b)),
        r matches Some(p) ==> parts_in_range(parts_view(p)),
{
    let x = rust_decimal::Decimal::from_i128_with_scale(a.0, a.1);
    let y = rust_decimal::Decimal::from_i128_with_scale(b.0, b.1);
    x.checked_mul(y).map(|d| (d.mantissa(), d.scale()))
}

/// Relies on `<rust_decimal::Decimal as FromStr>::from_str`, which returns an error on
/// strings that are no decimal, and on `Decimal::mantissa` and `Decimal::scale`.
#[verifier::external_body]
fn parse_parts(s: &str) -> (r: Option<(i128, u32)>)
    ensures
        opt_parts_view(r) == decimal_parse(s@),
        r matches Some(p) ==> parts_in_range(parts_view(p)),
{
    match <rust_decimal::Decimal as std::str::FromStr>::from_str(s) {
        Ok(d) => Some((d.mantissa(), d.scale())),
        Err(_) => None,
    }
}

} // verus!
