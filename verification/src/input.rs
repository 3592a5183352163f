//! Numbers entered as text: the entry buffer of a request form, and the rule
//! by which an entry reaches the options.

use crate::options::SAGeneratorOptions;
use crate::text::{parse_i32, read_i32};
use vstd::prelude::*;

verus! {

/// The texts of the three entry fields of a request form, as typed. A text
/// reaches the options only once it has been found to write a number.
#[derive(Debug)]
pub struct SAProblemInputBuffer {
    pub num_of_problems: String,
    pub floor: String,
    pub ceiling: String,
}

/// What an entered text was found to be.
#[derive(Copy, Clone, Debug, PartialEq, Eq, Structural)]
pub enum SAValidity {
    ValidNumber(i32),
    InvalidNumber,
}

/// An entry field of a request form.
#[derive(Copy, Clone, Debug, PartialEq, Eq, Structural)]
pub enum SAField {
    NumOfProblems,
    Floor,
    Ceiling,
}

/// What a text is found to be: the number it writes as an `i32`, or invalid.
pub open spec fn spec_validity(text: Seq<char>) -> SAValidity {
    match parse_i32(text) {
        Some(n) => SAValidity::ValidNumber(n),
        None => SAValidity::InvalidNumber,
    }
}

/// The options after `validity` was found for `field`: a valid number
/// replaces the value of the field, and an invalid entry changes nothing.
pub open spec fn spec_entered(
    options: SAGeneratorOptions,
    field: SAField,
    validity: SAValidity,
) -> SAGeneratorOptions {
    match validity {
        SAValidity::ValidNumber(n) => match field {
            SAField::NumOfProblems => SAGeneratorOptions { problems_num: n, ..options },
            SAField::Floor => SAGeneratorOptions { problems_floor: n, ..options },
            SAField::Ceiling => SAGeneratorOptions { problems_ceiling: n, ..options },
        },
        SAValidity::InvalidNumber => options,
    }
}

/// Tests whether `input` writes a number: an optional sign followed by
/// decimal digits only, with a value that an `i32` holds.
pub fn check_input_num(input: &str) -> (validity: SAValidity)
    ensures
        validity == spec_validity(input@),
{
    match read_i32(input) {
        Some(n) => SAValidity::ValidNumber(n),
        None => SAValidity::InvalidNumber,
    }
}

impl SAProblemInputBuffer {
    /// The text of `field`.
    pub open spec fn spec_text(self, field: SAField) -> Seq<char> {
        match field {
            SAField::NumOfProblems => self.num_of_problems@,
            SAField::Floor => self.floor@,
            SAField::Ceiling => self.ceiling@,
        }
    }

    pub fn new() -> (buffer: Self)
        ensures
            buffer.num_of_problems@ == Seq::<char>::empty(),
            buffer.floor@ == Seq::<char>::empty(),
            buffer.ceiling@ == Seq::<char>::empty(),
    {
        SAProblemInputBuffer {
            num_of_problems: String::new(),
            floor: String::new(),
            ceiling: String::new(),
        }
    }

    /// Enters the text of `field` into `options`. Where the text writes a
    /// number, the number becomes the value of the field; otherwise the
    /// options keep the value they had. The result says which it was.
    pub fn commit(&self, field: SAField, options: &mut SAGeneratorOptions) -> (validity: SAValidity)
        ensures
            validity == spec_validity(self.spec_text(field)),
            *final(options) == spec_entered(*old(options), field, validity),
    {
        let validity = match field {
            SAField::NumOfProblems => check_input_num(self.num_of_problems.as_str()),
            SAField::Floor => check_input_num(self.floor.as_str()),
            SAField::Ceiling => check_input_num(self.ceiling.as_str()),
        };
        match validity {
            SAValidity::ValidNumber(n) => match field {
                SAField::NumOfProblems => {
                    options.problems_num = n;
                },
                SAField::Floor => {
                    options.problems_floor = n;
                },
                SAField::Ceiling => {
                    options.problems_ceiling = n;
                },
            },
            SAValidity::InvalidNumber => {},
        }
        validity
    }
}

impl Default for SAProblemInputBuffer {
    fn default() -> (buffer: Self)
        ensures
            buffer.num_of_problems@ == Seq::<char>::empty(),
            buffer.floor@ == Seq::<char>::empty(),
            buffer.ceiling@ == Seq::<char>::empty(),
    {
        Self::new()
    }
}

} // verus!
