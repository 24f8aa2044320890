use vstd::prelude::*;

use crate::base::algorithm::raw_checksum;

verus! {

/// Raw modulo-11 checksum of a fixed array of nine digits.
pub fn generate_modulo_11_checksum(predicate: [u32; 9]) -> (r: u32)
    ensures
        r == raw_checksum(predicate@),
        1 <= r <= 11,
{
    crate::base::algorithm::generate_modulo_11_checksum(predicate.as_slice())
}

} // verus!
