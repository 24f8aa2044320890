use vstd::prelude::*;

verus! {

/// The raw parts of an identifier: nine significant digits and a check digit.
#[derive(Debug, Clone, Copy, PartialEq, Eq)]
pub struct Number {
    pub digits: [u32; 9],
    pub checksum: u32,
}

} // verus!
