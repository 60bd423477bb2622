//! Validation and canonical formatting of Iranian national identification
//! numbers.
//!
//! A number is read from text: surrounding whitespace is removed, the rest is
//! padded with zeros in front to ten characters, and the ten decimal digits
//! of the result are checked against their control digit. A [`NationalId`]
//! can only be obtained through that check, and holds the padded text.
//!
//! - [`text`]: whitespace, digits, trimming and padding of character
//!   sequences;
//! - [`checksum`]: the weighted sum and the control digit;
//! - [`validator`]: the validation of a text, and what a canonical form is;
//! - [`id`]: the type `NationalId`, its equality and its order;
//! - [`order`]: the lexicographic order of texts;
//! - [`error`]: the failure;
//! - [`laws`]: what holds of validation as a whole.

pub mod checksum;
pub mod error;
pub mod id;
pub mod laws;
pub mod order;
pub mod text;
pub mod validator;

pub use crate::error::NationalIdError;
pub use crate::id::NationalId;
