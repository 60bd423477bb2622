//! The control digit of a national identification number.
//!
//! The first nine digits are weighted from ten down to two and summed. The
//! tenth digit, the control digit, carries the sum's remainder modulo eleven:
//! the remainder itself where it is below two, and eleven minus the remainder
//! otherwise. A sum of zero is never accepted.

use vstd::prelude::*;
use crate::text::values_of;

verus! {

/// How many digits a national identification number has.
pub const ID_LENGTH: usize = 10;

/// The modulus of the control digit.
pub const MODULUS: u32 = 11;

/// The weight of the digit at `index`, counted from zero: ten for the first
/// digit, one less for each that follows.
pub open spec fn weight(index: int) -> int {
    10 - index
}

/// The sum of the first `count` digits of `digits`, each multiplied by its
/// weight.
pub open spec fn weighted_prefix(digits: Seq<nat>, count: nat) -> nat
    recommends
        count <= digits.len(),
        count <= 10,
    decreases count,
{
    if count == 0 {
        0
    } else {
        weighted_prefix(digits, (count - 1) as nat) + (digits[count - 1] * weight(
            count - 1,
        )) as nat
    }
}

/// The weighted sum of the nine digits in front of the control digit.
pub open spec fn weighted_sum(digits: Seq<nat>) -> nat
    recommends
        digits.len() >= 9,
{
    weighted_prefix(digits, 9)
}

/// Whether `control` is the control digit that belongs to the weighted sum
/// `sum`.
pub open spec fn control_matches(sum: nat, control: nat) -> bool {
    let r = sum % 11;
    (r < 2 && control == r) || (r >= 2 && control + r == 11)
}

/// Whether `digits` are the ten digits of a national identification number:
/// there are ten of them, the weighted sum of the first nine is not zero, and
/// the tenth is the control digit of that sum.
pub open spec fn accepts(digits: Seq<nat>) -> bool {
    &&& digits.len() == 10
    &&& weighted_sum(digits) != 0
    &&& control_matches(weighted_sum(digits), digits[9])
}

/// The weighted sum written out term by term.
pub proof fn lemma_weighted_sum_terms(d: Seq<nat>)
    ensures
        weighted_sum(d) == 10 * d[0] + 9 * d[1] + 8 * d[2] + 7 * d[3] + 6 * d[4] + 5 * d[5] + 4
            * d[6] + 3 * d[7] + 2 * d[8],
{
    reveal_with_fuel(weighted_prefix, 10);
}

/// The weighted sum of the first nine of `digits`.
pub fn weighted_sum_of(digits: &[u8]) -> (sum: u32)
    requires
        digits@.len() >= 9,
    ensures
        sum as nat == weighted_sum(values_of(digits@)),
{
    let mut sum: u32 = 0;
    let mut i: usize = 0;
    while i < 9
        invariant
            i <= 9 <= digits@.len(),
            sum as nat == weighted_prefix(values_of(digits@), i as nat),
            sum <= 2550 * i,
        decreases 9 - i,
    {
        let w: u32 = 10 - i as u32;
        let d: u32 = digits[i] as u32;
        assert(d * w <= 2550) by (nonlinear_arith)
            requires
                d <= 255,
                w <= 10,
        ;
        sum = sum + d * w;
        i += 1;
    }
    sum
}

/// Tells whether `control` is the control digit of the weighted sum `sum`.
pub fn control_digit_matches(sum: u32, control: u8) -> (ok: bool)
    ensures
        ok == control_matches(sum as nat, control as nat),
{
    let r: u32 = sum % MODULUS;
    let c: u32 = control as u32;
    (r < 2 && r == c) || (r >= 2 && r + c == MODULUS)
}

/// Tells whether `digits` are the ten digits of a national identification
/// number.
pub fn passes_checksum(digits: &[u8]) -> (ok: bool)
    ensures
        ok == accepts(values_of(digits@)),
{
    if digits.len() != ID_LENGTH {
        return false;
    }
    let sum: u32 = weighted_sum_of(digits);
    if sum == 0 {
        return false;
    }
    control_digit_matches(sum, digits[9])
}

} // verus!
