use vstd::prelude::*;

use crate::base::algorithm::{modulo_11, parse_spec};
use crate::nhs::{format_spec, lemma_round_trip, Number};

verus! {

/// Identifiers handled as text.
pub struct NhsNumber;

impl NhsNumber {
    /// Generates `count` identifiers (one when `count` is `None`) as text
    /// without separators; each is valid and parses back to what it shows.
    pub fn generate(count: Option<usize>) -> (r: Vec<String>)
        ensures
            r@.len() == match count {
                Some(n) => n,
                None => 1,
            },
            forall|i: int|
                0 <= i < r@.len() ==> {
                    &&& parse_spec(#[trigger] r@[i]@) is Ok
                    &&& format_spec(parse_spec(r@[i]@)->Ok_0) == r@[i]@
                },
    {
        let numbers = Number::generate(count);
        let mut result: Vec<String> = Vec::new();
        let mut k: usize = 0;
        while k < numbers.len()
            invariant
                0 <= k <= numbers@.len(),
                result@.len() == k,
                forall|i: int|
                    0 <= i < numbers@.len() ==> crate::base::algorithm::is_identifier(
                        #[trigger] numbers@[i]@,
                    ),
                forall|i: int|
                    0 <= i < k ==> {
                        &&& parse_spec(#[trigger] result@[i]@) is Ok
                        &&& format_spec(parse_spec(result@[i]@)->Ok_0) == result@[i]@
                    },
            decreases numbers@.len() - k,
        {
            let text = numbers[k].format();
            proof {
                lemma_round_trip(numbers@[k as int]@);
            }
            result.push(text);
            k = k + 1;
        }
        result
    }

    /// Whether the text is a valid identifier, separators allowed.
    pub fn validate(input: String) -> (r: bool)
        ensures
            r == parse_spec(input@) is Ok,
    {
        modulo_11(input.as_str())
    }
}

} // verus!
