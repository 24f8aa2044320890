use vstd::prelude::*;

use crate::errors::NumberValidationError;

verus! {

/// Number of significant (non-check) digits of an identifier.
pub const PAYLOAD_LEN: usize = 9;

/// Weighted sum of the first `n` digits of `d`: the digit at position `i`
/// (counted from the left, from 0) carries the weight `10 - i`.
pub open spec fn weighted_prefix(d: Seq<u32>, n: int) -> int
    decreases n,
{
    if n <= 0 {
        0
    } else {
        weighted_prefix(d, n - 1) + d[n - 1] as int * (11 - n)
    }
}

/// Weighted sum of the nine significant digits, with weights 10, 9, ..., 2.
pub open spec fn weighted_sum(d: Seq<u32>) -> int {
    weighted_prefix(d, 9)
}

/// The raw modulo-11 checksum of nine digits: `11 - (sum mod 11)`, in [1, 11].
pub open spec fn raw_checksum(d: Seq<u32>) -> int {
    11 - weighted_sum(d) % 11
}

proof fn lemma_weighted_prefix_bounds(d: Seq<u32>, n: int)
    requires
        0 <= n <= 10,
    ensures
        0 <= weighted_prefix(d, n) <= n * 10 * 0xffff_ffff,
    decreases n,
{
    if n > 0 {
        lemma_weighted_prefix_bounds(d, n - 1);
        assert(d[n - 1] as int * (11 - n) <= 0xffff_ffff * 10) by (nonlinear_arith)
            requires
                0 <= d[n - 1] <= 0xffff_ffff,
                1 <= n <= 10,
        ;
        assert(0 <= d[n - 1] as int * (11 - n)) by (nonlinear_arith)
            requires
                0 <= d[n - 1],
                1 <= n <= 10,
        ;
    }
}

pub(crate) proof fn lemma_raw_checksum_range(d: Seq<u32>)
    ensures
        1 <= raw_checksum(d) <= 11,
{
    lemma_weighted_prefix_bounds(d, 9);
}

/// Computes the raw modulo-11 checksum of exactly nine digits.
///
/// The result is `11 - (sum mod 11)` and lies in [1, 11]; callers map 11 to
/// the check digit 0 and treat 10 as "no check digit exists".
pub fn generate_modulo_11_checksum(predicate: &[u32]) -> (r: u32)
    requires
        predicate@.len() == PAYLOAD_LEN,
    ensures
        r == raw_checksum(predicate@),
        1 <= r <= 11,
{
    let mut sum: u64 = 0;
    let mut i: usize = 0;
    while i < PAYLOAD_LEN
        invariant
            predicate@.len() == PAYLOAD_LEN,
            0 <= i <= PAYLOAD_LEN,
            sum == weighted_prefix(predicate@, i as int),
        decreases PAYLOAD_LEN - i,
    {
        proof {
            lemma_weighted_prefix_bounds(predicate@, i as int + 1);
            lemma_weighted_prefix_bounds(predicate@, i as int);
        }
        let weight: u64 = (10 - i) as u64;
        sum = sum + predicate[i] as u64 * weight;
        i = i + 1;
    }
    (11 - sum % 11) as u32
}


/// The check digit of nine digits: the raw checksum with 11 mapped to 0.
/// Meaningful only where the raw checksum is not 10.
pub open spec fn check_digit(d: Seq<u32>) -> int {
    if raw_checksum(d) == 11 {
        0
    } else {
        raw_checksum(d)
    }
}

/// Every value of `v` is a decimal digit.
pub open spec fn all_digits(v: Seq<u32>) -> bool {
    forall|i: int| 0 <= i < v.len() ==> v[i] <= 9
}

/// Outcome of checking ten values against the modulo-11 rules: the values
/// themselves when they make a valid identifier. A payload value above 9 is a
/// parsing error; the tenth value only has to equal the check digit, so any
/// other value there, however large, fails the checksum.
pub open spec fn validate_spec(v: Seq<u32>) -> Result<Seq<u32>, NumberValidationError> {
    if !all_digits(v.take(9)) {
        Err(NumberValidationError::ParsingError)
    } else if raw_checksum(v.take(9)) == 10 {
        Err(NumberValidationError::InvalidChecksum)
    } else if v[9] != check_digit(v.take(9)) {
        Err(NumberValidationError::InvalidChecksum)
    } else {
        Ok(v)
    }
}

/// Ten values that make a valid identifier.
pub open spec fn is_identifier(v: Seq<u32>) -> bool {
    v.len() == 10 && validate_spec(v) is Ok
}

/// Characters dropped from text input before validation: blanks and hyphens.
pub open spec fn is_separator(c: char) -> bool {
    c == ' ' || c == '-' || c == '\t' || c == '\n' || c == '\r'
}

/// The input with every separator removed, the other characters kept in order.
pub open spec fn cleaned(s: Seq<char>) -> Seq<char>
    decreases s.len(),
{
    if s.len() == 0 {
        s
    } else if is_separator(s.last()) {
        cleaned(s.drop_last())
    } else {
        cleaned(s.drop_last()).push(s.last())
    }
}

pub open spec fn is_digit_char(c: char) -> bool {
    '0' <= c && c <= '9'
}

pub open spec fn char_value(c: char) -> u32 {
    (c as u32 - '0' as u32) as u32
}

/// Outcome of parsing text into the ten values of an identifier.
pub open spec fn parse_spec(s: Seq<char>) -> Result<Seq<u32>, NumberValidationError> {
    let c = cleaned(s);
    if c.len() != 10 {
        Err(NumberValidationError::InvalidLength)
    } else if !(forall|i: int| 0 <= i < 10 ==> is_digit_char(#[trigger] c[i])) {
        Err(NumberValidationError::ParsingError)
    } else {
        validate_spec(c.map_values(|ch: char| char_value(ch)))
    }
}

/// Relies on String::push: appends one character at the end.
#[verifier::external_body]
pub(crate) fn push_char(s: &mut String, c: char)
    ensures
        final(s)@ == old(s)@.push(c),
{
    s.push(c)
}

/// Removes the separators (spaces, tabs, line breaks and hyphens) from the
/// input.
pub fn clean_input(input: &str) -> (r: String)
    ensures
        r@ == cleaned(input@),
{
    let len = input.unicode_len();
    let mut out = String::new();
    let mut i: usize = 0;
    while i < len
        invariant
            len == input@.len(),
            0 <= i <= len,
            out@ == cleaned(input@.take(i as int)),
        decreases len - i,
    {
        let c = input.get_char(i);
        proof {
            assert(input@.take(i as int + 1).drop_last() =~= input@.take(i as int));
        }
        if !(c == ' ' || c == '-' || c == '\t' || c == '\n' || c == '\r') {
            push_char(&mut out, c);
        }
        i = i + 1;
    }
    proof {
        assert(input@.take(len as int) =~= input@);
    }
    out
}

/// Whether the text is a valid identifier, separators allowed.
pub fn modulo_11(predicate: &str) -> (r: bool)
    ensures
        r == parse_spec(predicate@) is Ok,
{
    crate::nhs::Number::parse(predicate).is_ok()
}

} // verus!
