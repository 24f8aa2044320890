use vstd::prelude::*;

verus! {

/// Why raw input does not make a valid identifier.
#[derive(Debug, Clone, Copy, PartialEq, Eq)]
pub enum NumberValidationError {
    /// The normalised input does not hold exactly ten characters.
    InvalidLength,
    /// A character or value that should be a decimal digit is not one.
    ParsingError,
    /// The check digit does not match, or no check digit exists for the payload.
    InvalidChecksum,
}

} // verus!
