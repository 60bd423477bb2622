//! The validator: from a text to the canonical form of the national
//! identification number that it holds, or to a failure.
//!
//! The text is trimmed and padded with zeros in front to ten characters. The
//! result must be ten decimal digits, of which the tenth is the control digit
//! of the first nine; it is then the canonical form. Any character that is
//! neither a decimal digit nor surrounding whitespace, and any text of more
//! than ten characters once trimmed, makes the text invalid.

use vstd::prelude::*;
use crate::checksum::{accepts, passes_checksum, ID_LENGTH};
use crate::error::NationalIdError;
use crate::text::{
    all_digits, digits_of, extract_digits, is_whitespace, lemma_digits_of_len,
    lemma_trimmed_ends, lemma_trimmed_fixed, pad_zeros, trim, trimmed, zero_padded,
};

verus! {

/// The text that is checked and, on success, kept: `input` trimmed and padded
/// with zeros to ten characters.
pub open spec fn canonical_form(input: Seq<char>) -> Seq<char> {
    zero_padded(trimmed(input), 10)
}

/// Whether `s` is the canonical form of a national identification number:
/// ten decimal digits, of which the first nine have a weighted sum other than
/// zero and the tenth is the control digit of that sum.
pub open spec fn is_canonical(s: Seq<char>) -> bool {
    &&& s.len() == 10
    &&& all_digits(s)
    &&& accepts(digits_of(s))
}

/// Whether `input` holds a valid national identification number: trimmed and
/// padded, it is ten decimal digits that pass the check.
pub open spec fn is_valid(input: Seq<char>) -> bool {
    &&& canonical_form(input).len() == 10
    &&& all_digits(canonical_form(input))
    &&& accepts(digits_of(canonical_form(input)))
}

/// The outcome of validating `input`: its canonical form where it is valid,
/// and the failure otherwise.
pub open spec fn validated(input: Seq<char>) -> Result<Seq<char>, NationalIdError> {
    if is_valid(input) {
        Ok(canonical_form(input))
    } else {
        Err(NationalIdError)
    }
}

/// A trimmed and padded text neither begins nor ends with whitespace, and
/// trimming and padding it once more changes nothing.
pub proof fn lemma_canonical_form_fixed(input: Seq<char>)
    ensures
        canonical_form(input).len() >= 10,
        !is_whitespace(canonical_form(input).first()),
        !is_whitespace(canonical_form(input).last()),
        trimmed(canonical_form(input)) == canonical_form(input),
        canonical_form(canonical_form(input)) == canonical_form(input),
{
    let t = trimmed(input);
    let c = canonical_form(input);
    lemma_trimmed_ends(input);
    if t.len() < 10 {
        assert(c.first() == '0');
        if t.len() > 0 {
            assert(c.last() == t.last());
        } else {
            assert(c.last() == '0');
        }
    }
    lemma_trimmed_fixed(c);
}

/// A canonical form is left as it is by trimming and padding, so it is valid,
/// with itself as its canonical form.
pub proof fn lemma_canonical_is_fixed(form: Seq<char>)
    requires
        is_canonical(form),
    ensures
        canonical_form(form) == form,
        is_valid(form),
{
    assert(!is_whitespace(form[0]));
    assert(!is_whitespace(form[9]));
    lemma_trimmed_fixed(form);
}

/// Validates `value` and returns its canonical form.
pub fn validate(value: &str) -> (outcome: Result<String, NationalIdError>)
    ensures
        outcome is Ok <==> is_valid(value@),
        outcome is Ok ==> outcome->Ok_0@ == canonical_form(value@),
        outcome is Ok ==> is_canonical(outcome->Ok_0@),
{
    let padded = pad_zeros(trim(value), ID_LENGTH);
    if padded.as_str().unicode_len() != ID_LENGTH {
        return Err(NationalIdError);
    }
    let digits = extract_digits(padded.as_str());
    proof {
        lemma_digits_of_len(padded@);
    }
    if passes_checksum(digits.as_slice()) {
        Ok(padded)
    } else {
        Err(NationalIdError)
    }
}

} // verus!
