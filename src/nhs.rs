use vstd::prelude::*;

use crate::algorithm::generate_modulo_11_checksum;
use crate::base::algorithm::{
    all_digits, char_value, check_digit, clean_input, cleaned, is_digit_char, is_identifier, is_separator,
    parse_spec, push_char, raw_checksum, validate_spec, weighted_prefix,
};
use crate::errors::NumberValidationError;
use crate::number;

verus! {

/// Random draws of nine digits spent on one identifier before the last drawn
/// payload is repaired instead of drawn again. A draw is rejected with
/// probability about 1/11, so the repair is practically never reached; it
/// keeps generation bounded.
pub const MAX_DRAWS: u32 = 64;

#[verifier::external_type_specification]
#[verifier::external_body]
pub struct ExThreadRng(rand::rngs::ThreadRng);

/// Relies on rand::thread_rng: a handle on the lazily seeded thread-local
/// generator (not suitable for secrets; identifiers made here are test data).
pub assume_specification[ rand::thread_rng ]() -> rand::rngs::ThreadRng;

/// Relies on rand::Rng::gen_range over an inclusive range of u32: the value
/// lies in the range; it panics only on an empty range.
#[verifier::external_body]
fn gen_in(rng: &mut rand::rngs::ThreadRng, low: u32, high: u32) -> (r: u32)
    requires
        low <= high,
    ensures
        low <= r <= high,
{
    rand::Rng::gen_range(rng, low..=high)
}

/// The character of a decimal digit.
pub open spec fn digit_char(d: u32) -> char {
    seq!['0', '1', '2', '3', '4', '5', '6', '7', '8', '9'][d as int]
}

/// The text of an identifier: its ten digits, without separators.
pub open spec fn format_spec(v: Seq<u32>) -> Seq<char> {
    v.map_values(|d: u32| digit_char(d))
}

/// Outcome of building an identifier from its nine significant digits: the
/// ten values, check digit appended, when a check digit exists.
pub open spec fn payload_spec(d: Seq<u32>) -> Result<Seq<u32>, NumberValidationError> {
    if !all_digits(d) {
        Err(NumberValidationError::ParsingError)
    } else if raw_checksum(d) == 10 {
        Err(NumberValidationError::InvalidChecksum)
    } else {
        Ok(d.push(check_digit(d) as u32))
    }
}

/// Outcome of ten values given as a sequence of any length.
pub open spec fn values_spec(v: Seq<u32>) -> Result<Seq<u32>, NumberValidationError> {
    if v.len() != 10 {
        Err(NumberValidationError::InvalidLength)
    } else {
        validate_spec(v)
    }
}

/// A valid identifier: nine significant digits and their check digit.
/// Values exist only through validated construction or generation.
#[derive(Debug, Clone, Copy, PartialEq, Eq)]
pub struct Number(number::Number);

impl View for Number {
    type V = Seq<u32>;

    /// The ten digits, check digit last.
    closed spec fn view(&self) -> Seq<u32> {
        self.0.digits@.push(self.0.checksum)
    }
}

/// The ten values held by a construction's result, or its error.
pub open spec fn outcome(r: Result<Number, NumberValidationError>) -> Result<
    Seq<u32>,
    NumberValidationError,
> {
    match r {
        Ok(n) => Ok(n@),
        Err(e) => Err(e),
    }
}

proof fn lemma_check_digit_range(d: Seq<u32>)
    requires
        d.len() == 9,
        raw_checksum(d) != 10,
    ensures
        0 <= check_digit(d) <= 9,
{
    crate::base::algorithm::lemma_raw_checksum_range(d);
}

/// The ten values of a valid identifier are all decimal digits.
pub proof fn lemma_identifier_digits(v: Seq<u32>)
    requires
        is_identifier(v),
    ensures
        all_digits(v),
{
    lemma_check_digit_range(v.take(9));
    assert forall|i: int| 0 <= i < v.len() implies v[i] <= 9 by {
        if i < 9 {
            assert(v.take(9)[i] == v[i]);
        }
    }
}

proof fn lemma_payload_identifier(d: Seq<u32>)
    requires
        d.len() == 9,
        all_digits(d),
        raw_checksum(d) != 10,
    ensures
        is_identifier(d.push(check_digit(d) as u32)),
{
    lemma_check_digit_range(d);
    let v = d.push(check_digit(d) as u32);
    assert(v.take(9) =~= d);
}

/// Weighted prefixes agree on sequences that agree on that prefix.
proof fn lemma_prefix_agree(a: Seq<u32>, b: Seq<u32>, n: int)
    requires
        0 <= n <= a.len(),
        n <= b.len(),
        forall|i: int| 0 <= i < n ==> a[i] == b[i],
    ensures
        weighted_prefix(a, n) == weighted_prefix(b, n),
    decreases n,
{
    if n > 0 {
        lemma_prefix_agree(a, b, n - 1);
    }
}

/// The ten values of each drawn payload that has a check digit, in the
/// order drawn.
pub open spec fn accepted(draws: Seq<[u32; 9]>) -> Seq<Seq<u32>>
    decreases draws.len(),
{
    if draws.len() == 0 {
        Seq::empty()
    } else {
        let before = accepted(draws.drop_last());
        match payload_spec(draws.last()@) {
            Ok(v) => before.push(v),
            Err(_) => before,
        }
    }
}

/// Changing only the last digit to the next one (modulo 10) leaves no payload
/// without a check digit: its weight 2 is invertible modulo 11.
proof fn lemma_repair(d: Seq<u32>, e: Seq<u32>)
    requires
        d.len() == 9,
        e.len() == 9,
        d[8] <= 9,
        forall|i: int| 0 <= i < 8 ==> d[i] == e[i],
        e[8] == (d[8] + 1) % 10,
        raw_checksum(d) == 10,
    ensures
        raw_checksum(e) != 10,
{
    lemma_prefix_agree(d, e, 8);
    let p = weighted_prefix(d, 8);
    assert(weighted_prefix(d, 9) == p + d[8] as int * 2);
    assert(weighted_prefix(e, 9) == p + e[8] as int * 2);
}

proof fn lemma_cleaned_keeps(s: Seq<char>)
    requires
        forall|i: int| 0 <= i < s.len() ==> !is_separator(#[trigger] s[i]),
    ensures
        cleaned(s) == s,
    decreases s.len(),
{
    if s.len() > 0 {
        lemma_cleaned_keeps(s.drop_last());
        assert(s.drop_last().push(s.last()) =~= s);
    }
}

/// Formatting then parsing gives back every valid identifier: the text has
/// no separators, ten digit characters, and reads back as the same values.
pub proof fn lemma_round_trip(v: Seq<u32>)
    requires
        is_identifier(v),
    ensures
        parse_spec(format_spec(v)) == Ok::<Seq<u32>, NumberValidationError>(v),
{
    let t = format_spec(v);
    lemma_identifier_digits(v);
    assert forall|i: int| 0 <= i < t.len() implies !is_separator(#[trigger] t[i])
        && is_digit_char(t[i]) && char_value(t[i]) == v[i] by {
        assert(v[i] <= 9);
    }
    lemma_cleaned_keeps(t);
    assert(t.map_values(|ch: char| char_value(ch)) =~= v);
}

/// No valid identifier has a payload whose raw checksum is 10.
pub proof fn lemma_no_raw_ten(v: Seq<u32>)
    requires
        is_identifier(v),
    ensures
        raw_checksum(v.take(9)) != 10,
        v[9] == check_digit(v.take(9)),
{
}

/// Every generated identifier formats to text that is valid.
pub proof fn lemma_generated_valid(r: Seq<Number>)
    requires
        forall|i: int| 0 <= i < r.len() ==> is_identifier(#[trigger] r[i]@),
    ensures
        forall|i: int| 0 <= i < r.len() ==> parse_spec(#[trigger] format_spec(r[i]@)) is Ok,
{
    assert forall|i: int| 0 <= i < r.len() implies parse_spec(
        #[trigger] format_spec(r[i]@),
    ) is Ok by {
        lemma_round_trip(r[i]@);
    }
}

impl Number {
    #[verifier::type_invariant]
    spec fn inv(self) -> bool {
        is_identifier(self@)
    }

    /// Builds an identifier from its nine significant digits, computing the
    /// check digit; fails where a value is no digit or no check digit exists.
    pub fn from_payload(digits: [u32; 9]) -> (r: Result<Number, NumberValidationError>)
        ensures
            outcome(r) == payload_spec(digits@),
    {
        let mut i: usize = 0;
        while i < 9
            invariant
                0 <= i <= 9,
                forall|j: int| 0 <= j < i ==> digits@[j] <= 9,
            decreases 9 - i,
        {
            if digits[i] > 9 {
                return Err(NumberValidationError::ParsingError);
            }
            i = i + 1;
        }
        let raw = generate_modulo_11_checksum(digits);
        if raw == 10 {
            return Err(NumberValidationError::InvalidChecksum);
        }
        let checksum: u32 = if raw == 11 {
            0
        } else {
            raw
        };
        proof {
            lemma_payload_identifier(digits@);
        }
        let n = Number(number::Number { digits, checksum });
        proof {
            assert(n@ =~= digits@.push(check_digit(digits@) as u32));
        }
        Ok(n)
    }

    /// Builds an identifier from ten values, the check digit last.
    pub fn from_digits(value: [u32; 10]) -> (r: Result<Number, NumberValidationError>)
        ensures
            outcome(r) == validate_spec(value@),
    {
        let payload: [u32; 9] = [
            value[0],
            value[1],
            value[2],
            value[3],
            value[4],
            value[5],
            value[6],
            value[7],
            value[8],
        ];
        proof {
            assert(payload@ =~= value@.take(9));
        }
        match Number::from_payload(payload) {
            Err(e) => Err(e),
            Ok(n) => {
                assert(n.0.checksum == n@[9]);
                if n.0.checksum != value[9] {
                    Err(NumberValidationError::InvalidChecksum)
                } else {
                    proof {
                        assert(n@ =~= value@);
                    }
                    Ok(n)
                }
            },
        }
    }

    /// Builds an identifier from a sequence of values, which must hold ten.
    pub fn from_vec(value: Vec<u32>) -> (r: Result<Number, NumberValidationError>)
        ensures
            outcome(r) == values_spec(value@),
    {
        if value.len() != 10 {
            return Err(NumberValidationError::InvalidLength);
        }
        let digits: [u32; 10] = [
            value[0],
            value[1],
            value[2],
            value[3],
            value[4],
            value[5],
            value[6],
            value[7],
            value[8],
            value[9],
        ];
        proof {
            assert(digits@ =~= value@);
        }
        Number::from_digits(digits)
    }

    /// Parses text: separators (spaces, hyphens) are dropped, ten decimal
    /// digits must remain, and the last must be the check digit of the others.
    pub fn parse(input: &str) -> (r: Result<Number, NumberValidationError>)
        ensures
            outcome(r) == parse_spec(input@),
    {
        let text = clean_input(input);
        let chars = text.as_str();
        let len = chars.unicode_len();
        if len != 10 {
            return Err(NumberValidationError::InvalidLength);
        }
        let ghost c = cleaned(input@);
        let mut values: [u32; 10] = [0; 10];
        let mut i: usize = 0;
        while i < 10
            invariant
                chars@ == c,
                c == cleaned(input@),
                c.len() == 10,
                0 <= i <= 10,
                forall|j: int| 0 <= j < i ==> is_digit_char(#[trigger] c[j]),
                forall|j: int| 0 <= j < i ==> values@[j] == char_value(#[trigger] c[j]),
            decreases 10 - i,
        {
            let ch = chars.get_char(i);
            if !('0' <= ch && ch <= '9') {
                assert(!is_digit_char(c[i as int]));
                assert(!(forall|j: int| 0 <= j < 10 ==> is_digit_char(#[trigger] c[j])));
                return Err(NumberValidationError::ParsingError);
            }
            values[i] = (ch as u32) - ('0' as u32);
            i = i + 1;
        }
        proof {
            assert(values@ =~= c.map_values(|ch: char| char_value(ch)));
        }
        Number::from_digits(values)
    }

    /// Whether the text is a valid identifier.
    pub fn is_valid(input: &str) -> (r: bool)
        ensures
            r == parse_spec(input@) is Ok,
    {
        Number::parse(input).is_ok()
    }

    /// The nine significant digits.
    pub fn digits(&self) -> (r: [u32; 9])
        ensures
            r@ == self@.take(9),
            is_identifier(self@),
    {
        proof {
            use_type_invariant(self);
            assert(self@.take(9) =~= self.0.digits@);
        }
        self.0.digits
    }

    /// The check digit.
    pub fn checksum(&self) -> (r: u32)
        ensures
            r == self@[9],
            is_identifier(self@),
    {
        proof {
            use_type_invariant(self);
        }
        self.0.checksum
    }

    /// The ten digits as text, without separators.
    pub fn format(&self) -> (r: String)
        ensures
            r@ == format_spec(self@),
            is_identifier(self@),
    {
        proof {
            use_type_invariant(self);
            lemma_identifier_digits(self@);
        }
        let mut out = String::new();
        let mut i: usize = 0;
        while i < 10
            invariant
                0 <= i <= 10,
                self@.len() == 10,
                all_digits(self@),
                out@ == format_spec(self@.take(i as int)),
            decreases 10 - i,
        {
            let d = if i < 9 {
                self.0.digits[i]
            } else {
                self.0.checksum
            };
            assert(d == self@[i as int]);
            push_char(&mut out, digit_to_char(d));
            proof {
                assert(format_spec(self@.take(i as int + 1)) =~= format_spec(
                    self@.take(i as int),
                ).push(digit_char(d)));
            }
            i = i + 1;
        }
        proof {
            assert(self@.take(10) =~= self@);
        }
        out
    }

    /// The identifiers made from a sequence of drawn payloads: the payloads
    /// that have a check digit, in the order drawn, at most `count` of them.
    pub fn from_draws(draws: &Vec<[u32; 9]>, count: usize) -> (r: Vec<Number>)
        ensures
            r@.len() == if accepted(draws@).len() < count {
                accepted(draws@).len()
            } else {
                count as nat
            },
            forall|k: int| 0 <= k < r@.len() ==> #[trigger] r@[k]@ == accepted(draws@)[k],
            forall|k: int| 0 <= k < r@.len() ==> is_identifier(#[trigger] r@[k]@),
    {
        let mut result: Vec<Number> = Vec::new();
        let mut i: usize = 0;
        while i < draws.len()
            invariant
                0 <= i <= draws@.len(),
                result@.len() == if accepted(draws@.take(i as int)).len() < count {
                    accepted(draws@.take(i as int)).len()
                } else {
                    count as nat
                },
                forall|k: int|
                    0 <= k < result@.len() ==> #[trigger] result@[k]@ == accepted(
                        draws@.take(i as int),
                    )[k],
                forall|k: int| 0 <= k < result@.len() ==> is_identifier(#[trigger] result@[k]@),
            decreases draws@.len() - i,
        {
            proof {
                assert(draws@.take(i as int + 1).drop_last() =~= draws@.take(i as int));
            }
            let candidate = Number::from_payload(draws[i]);
            match candidate {
                Ok(n) => {
                    proof {
                        lemma_payload_identifier(draws@[i as int]@);
                    }
                    if result.len() < count {
                        result.push(n);
                    }
                },
                Err(_) => {},
            }
            i = i + 1;
        }
        proof {
            assert(draws@.take(draws@.len() as int) =~= draws@);
        }
        result
    }

    /// Generates `count` fresh identifiers (one when `count` is `None`) from
    /// uniformly drawn digits, rejecting draws that have no check digit.
    /// Each round draws as many payloads as identifiers are still missing.
    /// After `MAX_DRAWS` rounds, a slot still empty is filled by
    /// `draw_identifier`, which bounds the work.
    /// The generator is not fit for secrets: the identifiers are test data.
    pub fn generate(count: Option<usize>) -> (r: Vec<Number>)
        ensures
            r@.len() == match count {
                Some(n) => n,
                None => 1,
            },
            forall|i: int| 0 <= i < r@.len() ==> is_identifier(#[trigger] r@[i]@),
    {
        let count = match count {
            Some(n) => n,
            None => 1,
        };
        let mut rng = rand::thread_rng();
        let mut result: Vec<Number> = Vec::new();
        let mut round: u32 = 0;
        while round < MAX_DRAWS && result.len() < count
            invariant
                result@.len() <= count,
                round <= MAX_DRAWS,
                forall|i: int| 0 <= i < result@.len() ==> is_identifier(#[trigger] result@[i]@),
            decreases MAX_DRAWS - round,
        {
            let missing = count - result.len();
            let mut draws: Vec<[u32; 9]> = Vec::new();
            let mut j: usize = 0;
            while j < missing
                invariant
                    j <= missing,
                decreases missing - j,
            {
                draws.push(draw_payload(&mut rng));
                j = j + 1;
            }
            let fresh = Number::from_draws(&draws, missing);
            let ghost start = result@.len();
            let mut k: usize = 0;
            while k < fresh.len()
                invariant
                    0 <= k <= fresh@.len(),
                    fresh@.len() <= missing,
                    start + missing == count,
                    result@.len() == start + k,
                    forall|i: int| 0 <= i < fresh@.len() ==> is_identifier(#[trigger] fresh@[i]@),
                    forall|i: int|
                        0 <= i < result@.len() ==> is_identifier(#[trigger] result@[i]@),
                decreases fresh@.len() - k,
            {
                result.push(fresh[k]);
                k = k + 1;
            }
            round = round + 1;
        }
        while result.len() < count
            invariant
                result@.len() <= count,
                forall|i: int| 0 <= i < result@.len() ==> is_identifier(#[trigger] result@[i]@),
            decreases count - result@.len(),
        {
            let n = draw_identifier(&mut rng);
            result.push(n);
        }
        result
    }
}

/// The character of a decimal digit.
fn digit_to_char(d: u32) -> (c: char)
    requires
        d <= 9,
    ensures
        c == digit_char(d),
{
    if d == 0 {
        '0'
    } else if d == 1 {
        '1'
    } else if d == 2 {
        '2'
    } else if d == 3 {
        '3'
    } else if d == 4 {
        '4'
    } else if d == 5 {
        '5'
    } else if d == 6 {
        '6'
    } else if d == 7 {
        '7'
    } else if d == 8 {
        '8'
    } else {
        '9'
    }
}

/// Nine digits drawn independently and uniformly from 0..=9.
fn draw_payload(rng: &mut rand::rngs::ThreadRng) -> (r: [u32; 9])
    ensures
        all_digits(r@),
{
    let mut digits: [u32; 9] = [0; 9];
    let mut i: usize = 0;
    while i < 9
        invariant
            0 <= i <= 9,
            all_digits(digits@),
        decreases 9 - i,
    {
        digits[i] = gen_in(rng, 0, 9);
        i = i + 1;
    }
    digits
}

/// One identifier: payloads are drawn until one has a check digit, at most
/// `MAX_DRAWS` times; the last rejected payload is then repaired by moving its
/// last digit to the next value.
fn draw_identifier(rng: &mut rand::rngs::ThreadRng) -> (n: Number)
    ensures
        is_identifier(n@),
{
    let mut payload = draw_payload(rng);
    let mut attempt: u32 = 1;
    loop
        invariant
            all_digits(payload@),
            1 <= attempt <= MAX_DRAWS,
        ensures
            all_digits(payload@),
            raw_checksum(payload@) == 10,
        decreases MAX_DRAWS - attempt,
    {
        match Number::from_payload(payload) {
            Ok(n) => {
                proof {
                    lemma_payload_identifier(payload@);
                }
                return n;
            },
            Err(_) => {},
        }
        assert(raw_checksum(payload@) == 10);
        if attempt == MAX_DRAWS {
            break;
        }
        payload = draw_payload(rng);
        attempt = attempt + 1;
    }
    let ghost rejected = payload@;
    payload[8] = (payload[8] + 1) % 10;
    proof {
        lemma_repair(rejected, payload@);
        lemma_payload_identifier(payload@);
    }
    let r = Number::from_payload(payload);
    r.unwrap()
}

} // verus!

verus! {

/// The identifier whose ten values are those of an outcome, or its error.
pub open spec fn number_of(x: Result<Seq<u32>, NumberValidationError>) -> Result<
    Number,
    NumberValidationError,
> {
    match x {
        Ok(v) => Ok(choose|n: Number| #[trigger] n@ == v),
        Err(e) => Err(e),
    }
}

/// Two identifiers with the same ten values are equal.
pub proof fn lemma_view_injective(n: Number, m: Number)
    requires
        n@ == m@,
    ensures
        n == m,
{
    broadcast use vstd::array::group_array_axioms;

    assert(n@ == n.0.digits@.push(n.0.checksum));
    assert(m@ == m.0.digits@.push(m.0.checksum));
    assert(n.0.digits@.len() == 9 && m.0.digits@.len() == 9);
    assert(n@[9] == m@[9]);
    assert(n@.take(9) =~= n.0.digits@);
    assert(m@.take(9) =~= m.0.digits@);
    assert forall|i: int| 0 <= i < 9 implies n.0.digits[i] == m.0.digits[i] by {
        assert(n.0.digits@[i] == m.0.digits@[i]);
    }
    assert(n.0.digits =~= m.0.digits);
    assert(n.0.digits == m.0.digits);
    assert(n.0.checksum == n@[9] && m.0.checksum == m@[9]);
    assert(n.0 == m.0);
}

/// A construction's result is the identifier named by its outcome.
proof fn lemma_number_of_outcome(r: Result<Number, NumberValidationError>)
    ensures
        r == number_of(outcome(r)),
{
    if let Ok(x) = r {
        let v = x@;
        assert(outcome(r) == Ok::<Seq<u32>, NumberValidationError>(v));
        assert(exists|n: Number| #[trigger] n@ == v) by {
            assert(x@ == v);
        }
        let c = choose|n: Number| #[trigger] n@ == v;
        lemma_view_injective(c, x);
        assert(number_of(outcome(r)) == Ok::<Number, NumberValidationError>(c));
    }
}

impl vstd::std_specs::convert::TryFromSpecImpl<[u32; 10]> for Number {
    open spec fn obeys_try_from_spec() -> bool {
        true
    }

    open spec fn try_from_spec(v: [u32; 10]) -> Result<Number, NumberValidationError> {
        number_of(validate_spec(v@))
    }
}

impl TryFrom<[u32; 10]> for Number {
    type Error = NumberValidationError;

    fn try_from(value: [u32; 10]) -> (r: Result<Number, NumberValidationError>)
        ensures
            outcome(r) == validate_spec(value@),
    {
        let r = Number::from_digits(value);
        proof {
            lemma_number_of_outcome(r);
        }
        r
    }
}

impl vstd::std_specs::convert::TryFromSpecImpl<Vec<u32>> for Number {
    open spec fn obeys_try_from_spec() -> bool {
        true
    }

    open spec fn try_from_spec(v: Vec<u32>) -> Result<Number, NumberValidationError> {
        number_of(values_spec(v@))
    }
}

impl TryFrom<Vec<u32>> for Number {
    type Error = NumberValidationError;

    fn try_from(value: Vec<u32>) -> (r: Result<Number, NumberValidationError>)
        ensures
            outcome(r) == values_spec(value@),
    {
        let r = Number::from_vec(value);
        proof {
            lemma_number_of_outcome(r);
        }
        r
    }
}

impl vstd::std_specs::convert::TryFromSpecImpl<String> for Number {
    open spec fn obeys_try_from_spec() -> bool {
        true
    }

    open spec fn try_from_spec(v: String) -> Result<Number, NumberValidationError> {
        number_of(parse_spec(v@))
    }
}

impl TryFrom<String> for Number {
    type Error = NumberValidationError;

    fn try_from(value: String) -> (r: Result<Number, NumberValidationError>)
        ensures
            outcome(r) == parse_spec(value@),
    {
        let r = Number::parse(value.as_str());
        proof {
            lemma_number_of_outcome(r);
        }
        r
    }
}

} // verus!
