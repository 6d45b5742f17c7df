use pluto::damm::{add_to_str, check_digit, parse_damm_id, validate, validate_ascii};
use pluto::models::damm_of_id;

#[test]
fn check_digit_of_known_number() {
    assert_eq!(check_digit(&[5, 7, 2]), 4);
    assert_eq!(check_digit(&[5, 7, 2, 4]), 0);
    assert_eq!(check_digit(&[]), 0);
}

#[test]
fn add_to_str_appends_check_digit() {
    assert_eq!(add_to_str(String::from("572")), "5724");
    assert_eq!(add_to_str(String::from("")), "0");
}

#[test]
fn validate_accepts_and_strips() {
    assert_eq!(validate("5724"), Some(vec![5, 7, 2]));
    assert_eq!(validate("5723"), None);
    assert_eq!(validate("57a4"), None);
    assert_eq!(validate(""), Some(vec![]));
}

#[test]
fn validate_ascii_keeps_ascii() {
    assert_eq!(validate_ascii("5724"), Some(b"572".to_vec()));
    assert_eq!(validate_ascii("5725"), None);
    assert_eq!(validate_ascii("x"), None);
}

#[test]
fn parse_damm_id_reads_number() {
    assert_eq!(parse_damm_id("5724"), Some(572));
    assert_eq!(parse_damm_id("5723"), None);
    // Only the check digit: no number before it.
    assert_eq!(parse_damm_id("0"), None);
    let big = add_to_str(String::from("99999999999999999999"));
    assert_eq!(parse_damm_id(&big), None);
    let max = add_to_str(i64::MAX.to_string());
    assert_eq!(parse_damm_id(&max), Some(i64::MAX));
}

#[test]
fn damm_of_row_id() {
    assert_eq!(damm_of_id(572), "5724");
    assert_eq!(damm_of_id(0), "00");
    assert_eq!(parse_damm_id(&damm_of_id(123456)), Some(123456));
}
