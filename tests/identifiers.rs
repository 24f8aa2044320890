use nhs_number::base::algorithm::{clean_input, generate_modulo_11_checksum, modulo_11};
use nhs_number::base::common::NhsNumber;
use nhs_number::errors::NumberValidationError;
use nhs_number::nhs::Number;

#[test]
fn validate_nhs_numbers() {
    assert!(NhsNumber::validate(String::from("9434765919")));
    assert!(NhsNumber::validate(String::from("341 728 4996")));
    assert!(!NhsNumber::validate(String::from("12312")));
}

#[test]
fn common_test_generate_nhs_numbers() {
    let nhs_numbers = NhsNumber::generate(Some(1000));
    assert_eq!(nhs_numbers.len(), 1000);

    for number in nhs_numbers {
        assert!(NhsNumber::validate(number));
    }
}

#[test]
fn create_nhs_number_from_array() {
    assert!(Number::try_from([3, 4, 1, 7, 2, 8, 4, 9, 9, 6]).is_ok());
}

#[test]
fn create_nhs_number_from_string() {
    assert!(Number::try_from(String::from("357 593 9551")).is_ok());
}

#[test]
fn create_nhs_number_from_vec() {
    assert!(Number::try_from(vec![3, 4, 1, 7, 2, 8, 4, 9, 9, 6]).is_ok());
}

#[test]
fn nhs_test_generate_nhs_numbers() {
    let nhs_numbers = Number::generate(Some(1_000));
    assert_eq!(nhs_numbers.len(), 1_000);

    for number in nhs_numbers {
        let mut test_case: [u32; 10] = [0; 10];
        test_case[..9].copy_from_slice(&number.digits());
        test_case[9] = number.checksum();

        assert!(Number::try_from(test_case).is_ok());
    }
}

#[test]
fn test_display_for_number() {
    let display_string = Number::try_from("298 876 0845".to_string()).unwrap();

    assert_eq!(display_string.format(), "2988760845".to_string());
}

#[test]
fn checksum_of_known_payloads() {
    assert_eq!(generate_modulo_11_checksum(&[9, 4, 3, 4, 7, 6, 5, 9, 1]), 9);
    assert_eq!(generate_modulo_11_checksum(&[0; 9]), 11);
    assert_eq!(generate_modulo_11_checksum(&[0, 0, 0, 0, 0, 0, 0, 0, 6]), 10);
    assert_eq!(nhs_number::algorithm::generate_modulo_11_checksum([2, 7, 0, 6, 0, 3, 1, 8, 6]), 7);
}

#[test]
fn checksum_is_deterministic() {
    let payload = [3, 4, 1, 7, 2, 8, 4, 9, 9];
    let first = generate_modulo_11_checksum(&payload);
    for _ in 0..10 {
        assert_eq!(generate_modulo_11_checksum(&payload), first);
    }
    assert_eq!(first, 6);
}

#[test]
fn known_vectors_are_valid() {
    assert!(Number::is_valid("9434765919"));
    assert!(Number::is_valid("2706031867"));
    assert!(modulo_11("2706031867"));
    let n = Number::parse("298 876 0845").unwrap();
    assert_eq!(n.format(), "2988760845");
}

#[test]
fn separators_are_tolerated() {
    let spaced = Number::parse("341 728 4996").unwrap();
    let plain = Number::parse("3417284996").unwrap();
    assert_eq!(spaced, plain);
    let hyphens = Number::parse("341-728-4996").unwrap();
    assert_eq!(hyphens, plain);
    assert_eq!(clean_input("341 728-4996"), "3417284996");
    let tabbed = Number::parse("341\t728\t4996\n").unwrap();
    assert_eq!(tabbed, plain);
}

#[test]
fn short_input_is_rejected_for_length() {
    assert_eq!(Number::parse("12312"), Err(NumberValidationError::InvalidLength));
    assert_eq!(Number::parse(""), Err(NumberValidationError::InvalidLength));
    assert_eq!(Number::parse("94347659190"), Err(NumberValidationError::InvalidLength));
    assert!(!modulo_11("12312"));
}

#[test]
fn non_digit_is_a_parsing_error() {
    assert_eq!(Number::parse("943476591a"), Err(NumberValidationError::ParsingError));
    assert_eq!(
        Number::try_from([9, 4, 3, 4, 7, 6, 5, 12, 1, 9]),
        Err(NumberValidationError::ParsingError)
    );
    assert_eq!(
        Number::try_from([9, 4, 3, 4, 7, 6, 5, 9, 1, 10]),
        Err(NumberValidationError::InvalidChecksum)
    );
    assert!(!Number::is_valid("9434x65919"));
}

#[test]
fn wrong_check_digit_is_rejected() {
    assert_eq!(Number::parse("9434765918"), Err(NumberValidationError::InvalidChecksum));
    assert_eq!(
        Number::try_from([9, 4, 3, 4, 7, 6, 5, 9, 1, 8]),
        Err(NumberValidationError::InvalidChecksum)
    );
}

#[test]
fn raw_ten_is_never_valid() {
    for check in 0..10u32 {
        let mut values = [0u32; 10];
        values[8] = 6;
        values[9] = check;
        assert_eq!(Number::try_from(values), Err(NumberValidationError::InvalidChecksum));
    }
    assert_eq!(
        Number::try_from([0, 0, 0, 0, 0, 0, 0, 0, 6, 10]),
        Err(NumberValidationError::InvalidChecksum)
    );
    assert_eq!(
        Number::try_from([0, 0, 0, 0, 0, 0, 0, 0, 6, u32::MAX]),
        Err(NumberValidationError::InvalidChecksum)
    );
    assert_eq!(
        Number::from_payload([0, 0, 0, 0, 0, 0, 0, 0, 6]),
        Err(NumberValidationError::InvalidChecksum)
    );
}

#[test]
fn raw_eleven_maps_to_zero() {
    let n = Number::parse("0000000000").unwrap();
    assert_eq!(n.checksum(), 0);
    let m = Number::from_payload([0; 9]).unwrap();
    assert_eq!(m.checksum(), 0);
    assert_eq!(m.format(), "0000000000");
}

#[test]
fn payload_gets_its_check_digit() {
    let n = Number::from_payload([9, 4, 3, 4, 7, 6, 5, 9, 1]).unwrap();
    assert_eq!(n.checksum(), 9);
    assert_eq!(n.digits(), [9, 4, 3, 4, 7, 6, 5, 9, 1]);
    assert_eq!(
        Number::from_payload([9, 4, 3, 4, 7, 6, 5, 9, 12]),
        Err(NumberValidationError::ParsingError)
    );
}

#[test]
fn vec_of_wrong_length_is_rejected() {
    assert_eq!(
        Number::try_from(vec![3, 4, 1, 7, 2, 8, 4, 9, 9]),
        Err(NumberValidationError::InvalidLength)
    );
}

#[test]
fn generated_identifiers_round_trip() {
    for n in Number::generate(Some(200)) {
        let text = n.format();
        assert_eq!(text.len(), 10);
        assert!(Number::is_valid(&text));
        assert_eq!(Number::parse(&text).unwrap(), n);
        assert!(n.digits().iter().all(|d| *d <= 9));
    }
}

#[test]
fn generation_cardinality() {
    assert_eq!(Number::generate(Some(0)).len(), 0);
    assert_eq!(Number::generate(None).len(), 1);
    assert_eq!(Number::generate(Some(10)).len(), 10);
    assert_eq!(NhsNumber::generate(None).len(), 1);
    assert_eq!(NhsNumber::generate(Some(0)).len(), 0);
}

#[test]
fn draws_without_check_digit_are_skipped_in_order() {
    let draws: Vec<[u32; 9]> = vec![
        [0, 0, 0, 0, 0, 0, 0, 0, 6],
        [9, 4, 3, 4, 7, 6, 5, 9, 1],
        [0, 0, 0, 0, 0, 0, 0, 0, 6],
        [3, 4, 1, 7, 2, 8, 4, 9, 9],
        [2, 7, 0, 6, 0, 3, 1, 8, 6],
    ];
    let all = Number::from_draws(&draws, 10);
    assert_eq!(all.len(), 3);
    assert_eq!(all[0].format(), "9434765919");
    assert_eq!(all[1].format(), "3417284996");
    assert_eq!(all[2].format(), "2706031867");

    let two = Number::from_draws(&draws, 2);
    assert_eq!(two.len(), 2);
    assert_eq!(two[1].format(), "3417284996");

    assert_eq!(Number::from_draws(&draws, 0).len(), 0);
    assert_eq!(Number::from_draws(&Vec::new(), 4).len(), 0);
}

#[test]
fn draw_with_raw_eleven_gets_check_digit_zero() {
    let draws: Vec<[u32; 9]> = vec![[0; 9], [1, 0, 0, 0, 0, 0, 0, 0, 0]];
    let out = Number::from_draws(&draws, 5);
    assert_eq!(out.len(), 2);
    assert_eq!(out[0].checksum(), 0);
    assert_eq!(out[1].format(), "1000000001");
}
