//! What holds of validation as a whole, stated over the spec functions that
//! the contracts of the library use.

use vstd::prelude::*;
use vstd::std_specs::cmp::{PartialEqSpec, PartialOrdSpec};
use core::cmp::Ordering;
use crate::checksum::{accepts, control_matches, lemma_weighted_sum_terms, weighted_sum};
use crate::error::NationalIdError;
use crate::id::{outcome_view, NationalId};
use crate::order::{
    lemma_precedes_is_numeric, lemma_precedes_total, lemma_precedes_transitive, precedes,
};
use crate::text::{
    all_digits, all_whitespace, decimal_value, digit_value, digits_of, is_digit,
    lemma_digits_of_len, lemma_trimmed_ignores_surrounding, trimmed, zero_padded,
};
use crate::validator::{
    canonical_form, is_canonical, is_valid, lemma_canonical_form_fixed,
    lemma_canonical_is_fixed, validated,
};

verus! {

/// The weighted sum is zero exactly where each of the nine digits in front of
/// the control digit is zero.
pub proof fn law_zero_sum(digits: Seq<nat>)
    ensures
        weighted_sum(digits) == 0 <==> (forall|i: int| 0 <= i < 9 ==> #[trigger] digits[i] == 0),
{
    let d = digits;
    lemma_weighted_sum_terms(d);
    if weighted_sum(d) == 0 || (forall|i: int| 0 <= i < 9 ==> #[trigger] d[i] == 0) {
        assert(d[0] == 0 && d[1] == 0 && d[2] == 0 && d[3] == 0 && d[4] == 0 && d[5] == 0 && d[6]
            == 0 && d[7] == 0 && d[8] == 0);
    }
}

/// Every weighted sum has one control digit: the remainder of the sum modulo
/// eleven where that is below two, and eleven minus the remainder otherwise.
/// It is a single decimal digit.
pub proof fn law_control_digit(sum: nat, control: nat)
    ensures
        control_matches(sum, control) <==> control as int == (if sum % 11 < 2 {
            sum as int % 11
        } else {
            11 - sum as int % 11
        }),
        control_matches(sum, control) ==> control <= 9,
{
}

/// Ten zeros are not accepted, though zero is the control digit of the
/// remainder zero.
pub proof fn law_all_zeros_refused(digits: Seq<nat>)
    requires
        digits.len() == 10,
        forall|i: int| 0 <= i < 10 ==> #[trigger] digits[i] == 0,
    ensures
        control_matches(0, digits[9]),
        !accepts(digits),
{
    law_zero_sum(digits);
}

/// A text is valid exactly where, once trimmed, it has at most ten
/// characters, all of them decimal digits, and the digits of its padded form
/// are accepted. Every other text is refused.
pub proof fn law_validity(input: Seq<char>)
    ensures
        is_valid(input) <==> {
            &&& trimmed(input).len() <= 10
            &&& all_digits(trimmed(input))
            &&& accepts(digits_of(canonical_form(input)))
        },
        validated(input) is Ok <==> is_valid(input),
        validated(input) is Ok ==> validated(input)->Ok_0 == zero_padded(trimmed(input), 10),
{
    let t = trimmed(input);
    let c = canonical_form(input);
    if t.len() <= 10 {
        let k = 10 - t.len();
        if all_digits(c) {
            assert forall|i: int| 0 <= i < t.len() implies is_digit(#[trigger] t[i]) by {
                assert(t[i] == c[i + k]);
            }
        }
        if all_digits(t) {
            assert forall|i: int| 0 <= i < c.len() implies is_digit(#[trigger] c[i]) by {
                if i >= k {
                    assert(c[i] == t[i - k]);
                }
            }
        }
    }
}

/// A text of more than ten characters, once trimmed, is not valid.
pub proof fn law_long_text_refused(input: Seq<char>)
    requires
        trimmed(input).len() > 10,
    ensures
        !is_valid(input),
        validated(input) == Err::<Seq<char>, NationalIdError>(NationalIdError),
{
}

/// A text with a character that is neither a decimal digit nor surrounding
/// whitespace is not valid.
pub proof fn law_other_characters_refused(input: Seq<char>, i: int)
    requires
        0 <= i < trimmed(input).len(),
        !is_digit(trimmed(input)[i]),
    ensures
        !is_valid(input),
        validated(input) == Err::<Seq<char>, NationalIdError>(NationalIdError),
{
    law_validity(input);
}

/// A text is a canonical form exactly where it validates to itself.
pub proof fn law_canonical_shape(form: Seq<char>)
    ensures
        is_canonical(form) <==> validated(form) == Ok::<Seq<char>, NationalIdError>(form),
{
    if is_canonical(form) {
        lemma_canonical_is_fixed(form);
    }
}

/// What validation returns for a valid text has length ten, holds only
/// decimal digits, has a weighted sum other than zero over its first nine
/// digits, and has the control digit of that sum as its tenth.
pub proof fn law_construction_implies_validity(input: Seq<char>)
    requires
        is_valid(input),
    ensures
        validated(input) is Ok,
        is_canonical(validated(input)->Ok_0),
        validated(input)->Ok_0.len() == 10,
        all_digits(validated(input)->Ok_0),
        forall|i: int|
            0 <= i < 10 ==> #[trigger] digits_of(validated(input)->Ok_0)[i] == digit_value(
                validated(input)->Ok_0[i],
            ),
        weighted_sum(digits_of(validated(input)->Ok_0)) != 0,
        control_matches(
            weighted_sum(digits_of(validated(input)->Ok_0)),
            digits_of(validated(input)->Ok_0)[9],
        ),
{
    lemma_digits_of_len(canonical_form(input));
}

/// A canonical form has length ten and holds only decimal digits, each read
/// in its own place; the weighted sum of the first nine is not zero, and the
/// tenth is the control digit of that sum.
pub proof fn law_canonical_digits(form: Seq<char>)
    requires
        is_canonical(form),
    ensures
        form.len() == 10,
        all_digits(form),
        digits_of(form).len() == 10,
        forall|i: int| 0 <= i < 10 ==> #[trigger] digits_of(form)[i] == digit_value(form[i]),
        forall|i: int| 0 <= i < 10 ==> #[trigger] digits_of(form)[i] <= 9,
        weighted_sum(digits_of(form)) != 0,
        control_matches(weighted_sum(digits_of(form)), digits_of(form)[9]),
{
    lemma_digits_of_len(form);
}

/// Validating the canonical form of a valid text gives that canonical form
/// again.
pub proof fn law_revalidation(input: Seq<char>)
    requires
        is_valid(input),
    ensures
        validated(validated(input)->Ok_0) == validated(input),
{
    lemma_canonical_form_fixed(input);
}

/// A text and its trimmed, zero-padded form are valid together, and with the
/// same canonical form.
pub proof fn law_padding(input: Seq<char>)
    ensures
        validated(zero_padded(trimmed(input), 10)) == validated(input),
{
    lemma_canonical_form_fixed(input);
}

/// Whitespace around a text changes nothing of its validation.
pub proof fn law_trim(before: Seq<char>, input: Seq<char>, after: Seq<char>)
    requires
        all_whitespace(before),
        all_whitespace(after),
    ensures
        validated(before + input + after) == validated(input),
{
    lemma_trimmed_ignores_surrounding(before, input, after);
}

/// Validation is a function of the characters of the text: whatever two calls
/// on texts of the same characters return, they return the same outcome.
pub proof fn law_deterministic(
    first: &str,
    second: &str,
    first_outcome: Result<NationalId, NationalIdError>,
    second_outcome: Result<NationalId, NationalIdError>,
)
    requires
        first@ == second@,
        call_ensures(<NationalId as TryFrom<&str>>::try_from, (first,), first_outcome),
        call_ensures(<NationalId as TryFrom<&str>>::try_from, (second,), second_outcome),
    ensures
        outcome_view(first_outcome) == outcome_view(second_outcome),
        outcome_view(first_outcome) == validated(first@),
{
}

/// Every number equals itself, and two numbers are equal exactly where their
/// canonical forms are; so equality is symmetric and transitive too.
pub proof fn law_equality(a: NationalId, b: NationalId, c: NationalId)
    ensures
        a.eq_spec(&a),
        a.eq_spec(&b) <==> a@ == b@,
        a.eq_spec(&b) <==> b.eq_spec(&a),
        a.eq_spec(&b) && b.eq_spec(&c) ==> a.eq_spec(&c),
{
}

/// Any two numbers are ordered, as their canonical forms are: equal exactly
/// where the forms are the same, one less exactly where the other is greater,
/// and less in a chain is less.
pub proof fn law_order(a: NationalId, b: NationalId, c: NationalId)
    ensures
        a.partial_cmp_spec(&b) is Some,
        a.partial_cmp_spec(&b) == Some(Ordering::Equal) <==> a@ == b@,
        a.partial_cmp_spec(&b) == Some(Ordering::Equal) <==> a.eq_spec(&b),
        a.partial_cmp_spec(&b) == Some(Ordering::Less) <==> precedes(a@, b@),
        a.partial_cmp_spec(&b) == Some(Ordering::Less) <==> b.partial_cmp_spec(&a) == Some(
            Ordering::Greater,
        ),
        a.partial_cmp_spec(&b) == Some(Ordering::Less) && b.partial_cmp_spec(&c) == Some(
            Ordering::Less,
        ) ==> a.partial_cmp_spec(&c) == Some(Ordering::Less),
{
    lemma_precedes_total(a@, b@);
    lemma_precedes_total(a@, c@);
    if precedes(a@, b@) && precedes(b@, c@) {
        lemma_precedes_transitive(a@, b@, c@);
    }
}

/// The order of numbers is the order of the numbers that their canonical
/// forms write.
pub proof fn law_order_is_numeric(a: NationalId, b: NationalId)
    requires
        is_canonical(a@),
        is_canonical(b@),
    ensures
        precedes(a@, b@) <==> decimal_value(a@) < decimal_value(b@),
        a.partial_cmp_spec(&b) == Some(Ordering::Less) <==> decimal_value(a@) < decimal_value(b@),
        a.partial_cmp_spec(&b) == Some(Ordering::Equal) <==> decimal_value(a@) == decimal_value(
            b@,
        ),
        a.partial_cmp_spec(&b) == Some(Ordering::Greater) <==> decimal_value(a@) > decimal_value(
            b@,
        ),
{
    lemma_precedes_is_numeric(a@, b@);
    lemma_precedes_total(a@, b@);
}

} // verus!
