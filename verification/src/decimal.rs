//! Fixed-point amounts.
//!
//! Every amount in the protocol is a scrypto `Decimal`, a signed fixed-point
//! number with eighteen decimal places. The library holds such an amount as
//! its count of attos (units of 10^-18) in an `i128`; multiplication and
//! division are done by scrypto's `Decimal` itself.
//!
//! `i128` is the widest integer that verified code can compute with, so an
//! amount is bounded by `i128::MAX` attos (about 1.7 * 10^20 whole tokens),
//! where `Decimal` itself reaches further. Every operation whose result would
//! pass that bound is refused with `ProtocolError::Overflow`.

use vstd::prelude::*;
use scrypto::math::{CheckedDiv, CheckedMul, Decimal, I192};

verus! {

/// The number of attos in one whole unit (`Decimal::ONE`).
pub const ONE: i128 = 1_000_000_000_000_000_000;

/// Integer division rounding toward zero, as the machine integers that back
/// `Decimal` divide.
pub open spec fn trunc_div(n: int, d: int) -> int {
    let q = (if n < 0 { -n } else { n }) / (if d < 0 { -d } else { d });
    if (n < 0) == (d < 0) { q } else { -q }
}

/// Whether a value fits the `i128` that holds an amount.
pub open spec fn fits(x: int) -> bool {
    i128::MIN <= x <= i128::MAX
}

/// The exact fixed-point product of two amounts given in attos.
pub open spec fn mul_attos(a: int, b: int) -> int {
    trunc_div(a * b, ONE as int)
}

/// The exact fixed-point quotient of two amounts given in attos.
pub open spec fn div_attos(a: int, b: int) -> int {
    trunc_div(a * ONE, b)
}

/// The product of two amounts, where it fits.
pub open spec fn mul_opt(a: i128, b: i128) -> Option<i128> {
    if fits(mul_attos(a as int, b as int)) {
        Some(mul_attos(a as int, b as int) as i128)
    } else {
        None
    }
}

/// The quotient of two amounts, where the divisor is not zero and the
/// quotient fits.
pub open spec fn div_opt(a: i128, b: i128) -> Option<i128> {
    if b != 0 && fits(div_attos(a as int, b as int)) {
        Some(div_attos(a as int, b as int) as i128)
    } else {
        None
    }
}

/// The sum of two amounts, where it fits.
pub open spec fn add_opt(a: i128, b: i128) -> Option<i128> {
    if fits(a + b) { Some((a + b) as i128) } else { None }
}

/// The difference of two amounts, where it fits.
pub open spec fn sub_opt(a: i128, b: i128) -> Option<i128> {
    if fits(a - b) { Some((a - b) as i128) } else { None }
}

/// `Decimal::checked_mul`: the product `a * b / 10^18` of the two values,
/// rounded toward zero, or `None` when it does not fit. The result is handed
/// back in attos, and `None` also where it does not fit an `i128`.
#[verifier::external_body]
pub(crate) fn dec_mul(a: i128, b: i128) -> (r: Option<i128>)
    ensures
        r == mul_opt(a, b),
{
    let x = Decimal::from_attos(I192::from(a));
    let y = Decimal::from_attos(I192::from(b));
    match x.checked_mul(y) {
        Some(d) => i128::try_from(d.attos()).ok(),
        None => None,
    }
}

/// `Decimal::checked_div`: the quotient `a * 10^18 / b`, rounded toward
/// zero, or `None` when `b` is zero or the result does not fit. The result is
/// handed back in attos, and `None` also where it does not fit an `i128`.
#[verifier::external_body]
pub(crate) fn dec_div(a: i128, b: i128) -> (r: Option<i128>)
    ensures
        r == div_opt(a, b),
{
    let x = Decimal::from_attos(I192::from(a));
    let y = Decimal::from_attos(I192::from(b));
    match x.checked_div(y) {
        Some(d) => i128::try_from(d.attos()).ok(),
        None => None,
    }
}

} // verus!
