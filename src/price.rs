//! Fixed-point price codec.
//!
//! A display price is the triple `[major, minor, sub_minor]` (whole currency,
//! hundredths, thousandths). Its amount is the single integer
//! `major * 1000 + minor * 10 + sub_minor`, counted in thousandths.

use vstd::prelude::*;

verus! {

/// Amount, in thousandths, of the display triple `(major, minor, sub_minor)`.
pub open spec fn amount_of(major: int, minor: int, sub_minor: int) -> int {
    major * 1000 + minor * 10 + sub_minor
}

/// Display triple of an amount: whole units, hundredths, thousandths.
pub open spec fn display_of(amount: int) -> (int, int, int) {
    (amount / 1000, (amount / 10) % 100, amount % 10)
}

/// A display triple whose digits are in range: `minor < 100`, `sub_minor < 10`.
pub open spec fn valid_display(price: [u8; 3]) -> bool {
    price[1] <= 99 && price[2] <= 9
}

/// The amount of a display triple.
pub open spec fn amount_of_display(price: [u8; 3]) -> int {
    amount_of(price[0] as int, price[1] as int, price[2] as int)
}

/// Amounts whose display components each fit in a byte.
pub open spec fn displayable(amount: int) -> bool {
    0 <= amount < 256000
}

/// An amount that has no display triple of bytes: negative, or with a whole
/// part above 255.
#[derive(Debug, Clone, Copy, PartialEq, Eq)]
pub struct RangeError {
    pub amount: i32,
}

/// Display triple of `price`, or `RangeError` when a component does not fit
/// in a byte.
pub fn convert_price(price: i32) -> (r: Result<[u8; 3], RangeError>)
    ensures
        r is Ok <==> displayable(price as int),
        r matches Ok(p) ==> (p[0] as int, p[1] as int, p[2] as int) == display_of(price as int),
        r matches Err(e) ==> e.amount == price,
{
    if price < 0 || price >= 256000 {
        return Err(RangeError { amount: price });
    }
    let major = price / 1000;
    let minor = (price / 10) % 100;
    let sub_minor = price % 10;
    Ok([major as u8, minor as u8, sub_minor as u8])
}

/// Amount of a display triple with in-range digits.
pub fn to_amount(price: [u8; 3]) -> (r: i32)
    requires
        valid_display(price),
    ensures
        r == amount_of_display(price),
{
    let major = price[0] as i32;
    let minor = price[1] as i32;
    let sub_minor = price[2] as i32;
    major * 1000 + minor * 10 + sub_minor
}

/// Decoding the amount of a display triple with in-range digits gives the
/// triple back, and that amount can always be decoded.
pub proof fn lemma_display_round_trip(price: [u8; 3])
    requires
        valid_display(price),
    ensures
        displayable(amount_of_display(price)),
        display_of(amount_of_display(price)) == (price[0] as int, price[1] as int, price[2] as int),
{
    let a = amount_of_display(price);
    let (x, y, z) = (price[0] as int, price[1] as int, price[2] as int);
    assert(a / 1000 == x && a % 1000 == y * 10 + z) by (nonlinear_arith)
        requires a == x * 1000 + y * 10 + z, 0 <= y <= 99, 0 <= z <= 9, 0 <= x;
    assert((a / 10) % 100 == y && a % 10 == z) by (nonlinear_arith)
        requires a == x * 1000 + y * 10 + z, 0 <= y <= 99, 0 <= z <= 9, 0 <= x;
}

} // verus!
