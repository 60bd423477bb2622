//! The national identification number as a type of its own.
//!
//! A `NationalId` is made by the validator and by nothing else, and it is
//! never changed afterwards: whoever holds one holds a canonical form, ten
//! decimal digits that pass the check.

use vstd::prelude::*;
use core::cmp::Ordering;
use crate::error::NationalIdError;
use crate::order::{precedes, text_precedes};
use crate::text::all_digits;
use crate::validator::{canonical_form, is_canonical, is_valid, validate, validated};

verus! {

/// A validated national identification number, held in its canonical form:
/// ten decimal digits, the tenth being the control digit of the first nine.
#[derive(Debug)]
pub struct NationalId(String);

impl View for NationalId {
    type V = Seq<char>;

    /// The canonical form.
    closed spec fn view(&self) -> Seq<char> {
        self.0@
    }
}

impl NationalId {
    #[verifier::type_invariant]
    spec fn holds_canonical_form(self) -> bool {
        is_canonical(self.0@)
    }

    /// The canonical form, which every value of this type holds: ten decimal
    /// digits that pass the check.
    pub fn as_str(&self) -> (form: &str)
        ensures
            form@ == self@,
            form@.len() == 10,
            all_digits(form@),
            is_canonical(form@),
    {
        proof {
            use_type_invariant(self);
        }
        self.0.as_str()
    }
}

/// An outcome of validation with the number replaced by its canonical form.
pub open spec fn outcome_view(outcome: Result<NationalId, NationalIdError>) -> Result<
    Seq<char>,
    NationalIdError,
> {
    match outcome {
        Ok(id) => Ok(id@),
        Err(e) => Err(e),
    }
}

impl TryFrom<&str> for NationalId {
    type Error = NationalIdError;

    /// Validates `value`. A valid text gives the number in its canonical form,
    /// any other the failure.
    fn try_from(value: &str) -> (outcome: Result<NationalId, NationalIdError>)
        ensures
            outcome_view(outcome) == validated(value@),
            outcome is Ok <==> is_valid(value@),
            outcome is Ok ==> outcome->Ok_0@ == canonical_form(value@),
            outcome is Ok ==> is_canonical(outcome->Ok_0@),
            outcome is Ok ==> outcome->Ok_0@.len() == 10 && all_digits(outcome->Ok_0@),
    {
        match validate(value) {
            Ok(form) => Ok(NationalId(form)),
            Err(e) => Err(e),
        }
    }
}

impl vstd::std_specs::convert::TryFromSpecImpl<&str> for NationalId {
    /// The outcome is promised through the views of the text and of the
    /// number, in the `ensures` of `try_from`: two strings of the same
    /// characters are not one value to the verifier, so no spec function can
    /// name the number itself.
    open spec fn obeys_try_from_spec() -> bool {
        false
    }

    open spec fn try_from_spec(value: &str) -> Result<NationalId, NationalIdError> {
        if is_valid(value@) {
            Ok(choose|id: NationalId| id@ == canonical_form(value@))
        } else {
            Err(NationalIdError)
        }
    }
}

impl core::ops::Deref for NationalId {
    type Target = String;

    /// The canonical form: ten decimal digits that pass the check.
    fn deref(&self) -> (form: &String)
        ensures
            form@ == self@,
            form@.len() == 10,
            all_digits(form@),
            is_canonical(form@),
    {
        proof {
            use_type_invariant(self);
        }
        &self.0
    }
}

impl PartialEq for NationalId {
    /// Two numbers are equal where their canonical forms are.
    fn eq(&self, other: &NationalId) -> (equal: bool) {
        self.0 == other.0
    }
}

impl vstd::std_specs::cmp::PartialEqSpecImpl for NationalId {
    open spec fn obeys_eq_spec() -> bool {
        true
    }

    open spec fn eq_spec(&self, other: &NationalId) -> bool {
        self@ == other@
    }
}

impl PartialOrd for NationalId {
    /// Numbers are ordered as their canonical forms are, character by
    /// character.
    fn partial_cmp(&self, other: &NationalId) -> (order: Option<Ordering>) {
        if self.0 == other.0 {
            Some(Ordering::Equal)
        } else if text_precedes(self.0.as_str(), other.0.as_str()) {
            Some(Ordering::Less)
        } else {
            Some(Ordering::Greater)
        }
    }
}

impl vstd::std_specs::cmp::PartialOrdSpecImpl for NationalId {
    open spec fn obeys_partial_cmp_spec() -> bool {
        true
    }

    open spec fn partial_cmp_spec(&self, other: &NationalId) -> Option<Ordering> {
        if self@ == other@ {
            Some(Ordering::Equal)
        } else if precedes(self@, other@) {
            Some(Ordering::Less)
        } else {
            Some(Ordering::Greater)
        }
    }
}

} // verus!
