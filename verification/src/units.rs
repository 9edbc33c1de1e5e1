//! Fixed-point units shared by the whole library.
//!
//! Prices, price distances and P&L in points are integers in hundredths of an
//! index point: `2150025` is the price 21500.25 and `150` is a distance of 1.5
//! points. Dollar amounts are integers in cents. A point value (dollars per
//! point and contract) is a whole number of dollars, so that P&L in hundredths
//! of a point times the point value is P&L in cents.

use vstd::prelude::*;

verus! {

/// A price, or a distance between prices, in hundredths of an index point.
pub type Price = i64;

/// Fixed-point units per index point.
pub const UNITS_PER_POINT: i64 = 100;

/// Division that rounds toward zero, as Rust's `/` on signed integers does.
pub open spec fn trunc_div(a: int, b: int) -> int {
    if a >= 0 {
        a / b
    } else {
        -((-a) / b)
    }
}

/// Whether a mathematical integer can be held by an `i64`.
pub open spec fn fits_i64(x: int) -> bool {
    i64::MIN <= x <= i64::MAX
}

/// Whether a mathematical integer can be held by an `i32`.
pub open spec fn fits_i32(x: int) -> bool {
    i32::MIN <= x <= i32::MAX
}

/// Absolute value.
pub open spec fn abs(x: int) -> int {
    if x < 0 {
        -x
    } else {
        x
    }
}

/// An average price kept exactly, as the fraction `num / den` of hundredths of a point.
#[derive(Debug, Clone, Copy, PartialEq, Eq, Structural)]
pub struct AvgPrice {
    pub num: i128,
    pub den: i128,
}

/// Whether a mathematical integer can be held by an `i128`.
pub open spec fn fits_i128(x: int) -> bool {
    i128::MIN <= x <= i128::MAX
}

/// The average of a quantity `held` at the average `avg` (where there is one) and a
/// further `quantity` at `price`, as numerator and denominator: the old average times
/// the quantity held (nothing without an average) plus the price times the new
/// quantity, over the two quantities together. Where the old fraction's denominator is
/// the quantity held, the old average times that quantity is its numerator.
pub open spec fn weighted_average(avg: Option<AvgPrice>, held: int, price: Price, quantity: int) -> (int, int) {
    match avg {
        None => (price * quantity, held + quantity),
        Some(a) => if a.den == held {
            (a.num + price * quantity, held + quantity)
        } else {
            (a.num * held + price * quantity * a.den, a.den * (held + quantity))
        },
    }
}

/// Whether the terms of `weighted_average` fit in `i128`.
pub open spec fn weighted_average_fits(avg: Option<AvgPrice>, held: int, price: Price, quantity: int) -> bool {
    match avg {
        Some(a) => {
            &&& fits_i128(a.num + price * quantity)
            &&& fits_i128(a.num * held)
            &&& fits_i128(price * quantity * a.den)
            &&& fits_i128(a.num * held + price * quantity * a.den)
            &&& fits_i128(a.den * (held + quantity))
        },
        None => true,
    }
}

/// The exact weighted average (see `weighted_average`), for quantities that fit `i32`.
pub fn weighted_average_of(avg: Option<AvgPrice>, held: i32, price: Price, quantity: i32) -> (r: AvgPrice)
    requires
        weighted_average_fits(avg, held as int, price, quantity as int),
    ensures
        (r.num as int, r.den as int) == weighted_average(avg, held as int, price, quantity as int),
{
    proof {
        crate::execution::order::lemma_mul_bounded(price as int, quantity as int, 0x8000_0000_0000_0000, 0x8000_0000);
    }
    let added: i128 = price as i128 * quantity as i128;
    let h: i128 = held as i128;
    match avg {
        None => AvgPrice { num: added, den: h + quantity as i128 },
        Some(a) => if a.den == h {
            AvgPrice { num: a.num + added, den: h + quantity as i128 }
        } else {
            AvgPrice { num: a.num * h + added * a.den, den: a.den * (h + quantity as i128) }
        },
    }
}

/// An exact ratio `num / den`.
#[derive(Debug, Clone, Copy, PartialEq, Eq, Structural)]
pub struct Fraction {
    pub num: i64,
    pub den: i64,
}

/// Absolute distance between two prices, computed without overflow.
pub fn price_distance(a: Price, b: Price) -> (r: i128)
    ensures
        r == abs(a - b),
{
    let d = a as i128 - b as i128;
    if d < 0 {
        -d
    } else {
        d
    }
}

} // verus!
