//! Fixed-point numbers with eighteen decimal places.
//!
//! A [`Fixed`] holds its value as a count of attos (units of 10^-18) in an
//! `i128`. Sums, products, quotients and floors are computed by scrypto's
//! `Decimal`; a result that does not fit in an `i128` count of attos is
//! reported as absent, even where the wider `Decimal` could hold it.

use vstd::prelude::*;
use scrypto::math::{CheckedAdd, CheckedDiv, CheckedMul, CheckedSub, Decimal, I192};

verus! {

/// Attos in one whole unit.
pub const SCALE: i128 = 1_000_000_000_000_000_000;

/// Whether `v` attos can be held.
pub open spec fn in_range(v: int) -> bool {
    i128::MIN <= v <= i128::MAX
}

/// `v` where it can be held.
pub open spec fn bounded(v: int) -> Option<int> {
    if in_range(v) {
        Some(v)
    } else {
        None
    }
}

/// The quotient of `a` by `b`, rounded toward zero. Meant for `b != 0`.
pub open spec fn trunc_div(a: int, b: int) -> int {
    if b > 0 {
        if a >= 0 {
            a / b
        } else {
            -((-a) / b)
        }
    } else {
        if a >= 0 {
            -(a / (-b))
        } else {
            (-a) / (-b)
        }
    }
}

/// Attos of the product of two numbers given in attos.
pub open spec fn mul_attos(a: int, b: int) -> int {
    trunc_div(a * b, SCALE as int)
}

/// Attos of the quotient of two numbers given in attos. Meant for `b != 0`.
pub open spec fn div_attos(a: int, b: int) -> int {
    trunc_div(a * SCALE, b)
}

/// Attos of the largest whole number that is at most `a` attos.
pub open spec fn floor_attos(a: int) -> int {
    (a / (SCALE as int)) * SCALE
}

/// The product where it can be held.
pub open spec fn mul_checked(a: int, b: int) -> Option<int> {
    bounded(mul_attos(a, b))
}

/// The quotient where the divisor is not zero and it can be held.
pub open spec fn div_checked(a: int, b: int) -> Option<int> {
    if b == 0 {
        None
    } else {
        bounded(div_attos(a, b))
    }
}

/// `base` raised to the power `n` by repeated multiplication, each product
/// rounded toward zero; absent as soon as one product cannot be held.
pub open spec fn pow_checked(base: int, n: nat) -> Option<int>
    decreases n,
{
    if n == 0 {
        Some(SCALE as int)
    } else {
        match pow_checked(base, (n - 1) as nat) {
            Some(p) => mul_checked(p, base),
            None => None,
        }
    }
}

/// Calls `Decimal::checked_add` of scrypto on the two counts of attos. The
/// contract claims: the exact sum, absent where it does not fit in an `i128`.
#[verifier::external_body]
fn decimal_checked_add(a: i128, b: i128) -> (r: Option<i128>)
    ensures
        r == (if in_range(a + b) {
            Some((a + b) as i128)
        } else {
            None
        }),
{
    let x = Decimal::from_attos(I192::from(a));
    let y = Decimal::from_attos(I192::from(b));
    match x.checked_add(y) {
        Some(d) => i128::try_from(d.attos()).ok(),
        None => None,
    }
}

/// Calls `Decimal::checked_sub` of scrypto on the two counts of attos. The
/// contract claims: the exact difference, absent where it does not fit in an
/// `i128`.
#[verifier::external_body]
fn decimal_checked_sub(a: i128, b: i128) -> (r: Option<i128>)
    ensures
        r == (if in_range(a - b) {
            Some((a - b) as i128)
        } else {
            None
        }),
{
    let x = Decimal::from_attos(I192::from(a));
    let y = Decimal::from_attos(I192::from(b));
    match x.checked_sub(y) {
        Some(d) => i128::try_from(d.attos()).ok(),
        None => None,
    }
}

/// Calls `Decimal::checked_mul` of scrypto on the two counts of attos. The
/// contract claims: the product of the two counts, divided by 10^18 and
/// rounded toward zero, absent where that does not fit in an `i128`.
#[verifier::external_body]
fn decimal_checked_mul(a: i128, b: i128) -> (r: Option<i128>)
    ensures
        r == (if in_range(mul_attos(a as int, b as int)) {
            Some(mul_attos(a as int, b as int) as i128)
        } else {
            None
        }),
{
    let x = Decimal::from_attos(I192::from(a));
    let y = Decimal::from_attos(I192::from(b));
    match x.checked_mul(y) {
        Some(d) => i128::try_from(d.attos()).ok(),
        None => None,
    }
}

/// Calls `Decimal::checked_div` of scrypto on the two counts of attos. The
/// contract claims: the first count times 10^18, divided by the second and
/// rounded toward zero; absent where the second is zero or the quotient does
/// not fit in an `i128`.
#[verifier::external_body]
fn decimal_checked_div(a: i128, b: i128) -> (r: Option<i128>)
    ensures
        r == (if b != 0 && in_range(div_attos(a as int, b as int)) {
            Some(div_attos(a as int, b as int) as i128)
        } else {
            None
        }),
{
    let x = Decimal::from_attos(I192::from(a));
    let y = Decimal::from_attos(I192::from(b));
    match x.checked_div(y) {
        Some(d) => i128::try_from(d.attos()).ok(),
        None => None,
    }
}

/// Calls `Decimal::checked_floor` of scrypto on the count of attos. The
/// contract claims: the largest multiple of 10^18 that is at most the count,
/// absent where it does not fit in an `i128`.
#[verifier::external_body]
fn decimal_checked_floor(a: i128) -> (r: Option<i128>)
    ensures
        r == (if in_range(floor_attos(a as int)) {
            Some(floor_attos(a as int) as i128)
        } else {
            None
        }),
{
    let x = Decimal::from_attos(I192::from(a));
    match x.checked_floor() {
        Some(d) => i128::try_from(d.attos()).ok(),
        None => None,
    }
}

/// A number with eighteen decimal places, held as a count of attos.
#[derive(Clone, Copy, Debug, PartialEq, Eq, Structural)]
pub struct Fixed {
    pub attos: i128,
}

impl View for Fixed {
    type V = int;

    /// The count of attos.
    open spec fn view(&self) -> int {
        self.attos as int
    }
}

impl Fixed {
    /// The number with `v` attos. Meant for `in_range(v)`.
    pub open spec fn of(v: int) -> Fixed {
        Fixed { attos: v as i128 }
    }

    /// The number with `v` attos where that can be held.
    pub open spec fn of_checked(v: Option<int>) -> Option<Fixed> {
        match v {
            Some(x) => Some(Fixed::of(x)),
            None => None,
        }
    }

    pub fn from_attos(attos: i128) -> (r: Fixed)
        ensures
            r@ == attos,
    {
        Fixed { attos }
    }

    pub fn zero() -> (r: Fixed)
        ensures
            r@ == 0,
    {
        Fixed { attos: 0 }
    }

    pub fn one() -> (r: Fixed)
        ensures
            r@ == SCALE,
    {
        Fixed { attos: SCALE }
    }

    /// The whole number `n`.
    pub fn from_int(n: u64) -> (r: Fixed)
        ensures
            r@ == n * SCALE,
    {
        let wide: i128 = n as i128;
        assert(wide * SCALE <= 0xffff_ffff_ffff_ffff * SCALE) by (nonlinear_arith)
            requires
                0 <= wide <= 0xffff_ffff_ffff_ffff,
                SCALE > 0,
        ;
        assert(0 <= wide * SCALE) by (nonlinear_arith)
            requires
                0 <= wide,
                SCALE > 0,
        ;
        Fixed { attos: wide * SCALE }
    }

    pub fn attos(&self) -> (r: i128)
        ensures
            r == self@,
    {
        self.attos
    }

    pub fn is_zero(&self) -> (r: bool)
        ensures
            r == (self@ == 0),
    {
        self.attos == 0
    }

    pub fn is_positive(&self) -> (r: bool)
        ensures
            r == (self@ > 0),
    {
        self.attos > 0
    }

    pub fn is_negative(&self) -> (r: bool)
        ensures
            r == (self@ < 0),
    {
        self.attos < 0
    }

    pub fn lt(&self, other: &Fixed) -> (r: bool)
        ensures
            r == (self@ < other@),
    {
        self.attos < other.attos
    }

    pub fn le(&self, other: &Fixed) -> (r: bool)
        ensures
            r == (self@ <= other@),
    {
        self.attos <= other.attos
    }

    /// The sum, absent where it cannot be held.
    pub fn checked_add(self, other: Fixed) -> (r: Option<Fixed>)
        ensures
            r == Fixed::of_checked(bounded(self@ + other@)),
    {
        match decimal_checked_add(self.attos, other.attos) {
            Some(v) => Some(Fixed { attos: v }),
            None => None,
        }
    }

    /// The difference, absent where it cannot be held.
    pub fn checked_sub(self, other: Fixed) -> (r: Option<Fixed>)
        ensures
            r == Fixed::of_checked(bounded(self@ - other@)),
    {
        match decimal_checked_sub(self.attos, other.attos) {
            Some(v) => Some(Fixed { attos: v }),
            None => None,
        }
    }

    /// The product rounded toward zero, absent where it cannot be held.
    pub fn checked_mul(self, other: Fixed) -> (r: Option<Fixed>)
        ensures
            r == Fixed::of_checked(mul_checked(self@, other@)),
    {
        match decimal_checked_mul(self.attos, other.attos) {
            Some(v) => Some(Fixed { attos: v }),
            None => None,
        }
    }

    /// The quotient rounded toward zero, absent where the divisor is zero or
    /// the quotient cannot be held.
    pub fn checked_div(self, other: Fixed) -> (r: Option<Fixed>)
        ensures
            r == Fixed::of_checked(div_checked(self@, other@)),
    {
        match decimal_checked_div(self.attos, other.attos) {
            Some(v) => Some(Fixed { attos: v }),
            None => None,
        }
    }

    /// The largest whole number that is at most this one, absent where it
    /// cannot be held.
    pub fn checked_floor(self) -> (r: Option<Fixed>)
        ensures
            r == Fixed::of_checked(bounded(floor_attos(self@))),
    {
        match decimal_checked_floor(self.attos) {
            Some(v) => Some(Fixed { attos: v }),
            None => None,
        }
    }
}

/// Once a power cannot be held, no higher power can.
pub proof fn lemma_pow_absent_stays(base: int, k: nat, n: nat)
    requires
        k <= n,
        pow_checked(base, k) is None,
    ensures
        pow_checked(base, n) is None,
    decreases n,
{
    if k < n {
        lemma_pow_absent_stays(base, k, (n - 1) as nat);
    }
}

/// `base` raised to the power `n`, each product rounded toward zero; absent
/// where a product on the way cannot be held.
pub fn expo(base: Fixed, n: u8) -> (r: Option<Fixed>)
    ensures
        r == Fixed::of_checked(pow_checked(base@, n as nat)),
{
    let mut acc = Fixed::one();
    let mut i: u8 = 0;
    while i < n
        invariant
            i <= n,
            pow_checked(base@, i as nat) == Some(acc@),
        decreases n - i,
    {
        match acc.checked_mul(base) {
            Some(next) => {
                acc = next;
            },
            None => {
                proof {
                    lemma_pow_absent_stays(base@, (i + 1) as nat, n as nat);
                }
                return None;
            },
        }
        i = i + 1;
    }
    Some(acc)
}

/// A product of two numbers that are not negative is not negative.
pub proof fn lemma_mul_nonnegative(a: int, b: int)
    requires
        a >= 0,
        b >= 0,
    ensures
        mul_attos(a, b) >= 0,
{
    assert(a * b >= 0) by (nonlinear_arith)
        requires
            a >= 0,
            b >= 0,
    ;
}

/// Among numbers that are not negative, a product does not shrink as either
/// factor grows.
pub proof fn lemma_mul_monotone(a: int, b: int, c: int, d: int)
    requires
        0 <= a <= c,
        0 <= b <= d,
    ensures
        0 <= mul_attos(a, b) <= mul_attos(c, d),
{
    assert(0 <= a * b <= c * d) by (nonlinear_arith)
        requires
            0 <= a <= c,
            0 <= b <= d,
    ;
    vstd::arithmetic::div_mod::lemma_div_is_ordered(a * b, c * d, SCALE as int);
}

/// Multiplying by one changes nothing.
pub proof fn lemma_mul_one(a: int)
    ensures
        mul_attos(a, SCALE as int) == a,
{
    let s: int = SCALE as int;
    if a >= 0 {
        assert((a * s) / s == a) by (nonlinear_arith)
            requires
                s > 0,
        ;
        assert(a * s >= 0) by (nonlinear_arith)
            requires
                a >= 0,
                s > 0,
        ;
    } else {
        assert(((-a) * s) / s == -a) by (nonlinear_arith)
            requires
                s > 0,
        ;
        assert(a * s < 0) by (nonlinear_arith)
            requires
                a < 0,
                s > 0,
        ;
        assert(-(a * s) == (-a) * s) by (nonlinear_arith);
    }
}

/// A quotient of a number that is not negative by a positive one is not
/// negative.
pub proof fn lemma_div_nonnegative(a: int, b: int)
    requires
        a >= 0,
        b > 0,
    ensures
        div_attos(a, b) >= 0,
{
    assert(a * SCALE >= 0) by (nonlinear_arith)
        requires
            a >= 0,
            SCALE > 0,
    ;
    vstd::arithmetic::div_mod::lemma_div_pos_is_pos(a * SCALE, b);
}

/// A power of a base that is not negative is not negative.
pub proof fn lemma_pow_nonnegative(base: int, n: nat)
    requires
        base >= 0,
    ensures
        pow_checked(base, n) matches Some(p) ==> p >= 0,
    decreases n,
{
    if n > 0 {
        lemma_pow_nonnegative(base, (n - 1) as nat);
        match pow_checked(base, (n - 1) as nat) {
            Some(p) => {
                lemma_mul_nonnegative(p, base);
            },
            None => {},
        }
    }
}

} // verus!
