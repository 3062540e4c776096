use vedirect::SerialNumber;

#[test]
fn test_new() {
    let sn = SerialNumber::new(b"HQ", 20, 49, b"A1B2C");
    assert_eq!(String::from_utf8(sn.to_text()).unwrap(), "HQ2049A1B2C");
}

#[test]
fn new_folds_to_upper_case() {
    let sn = SerialNumber::new(b"hq", 13, 28, b"y6tf6");
    assert_eq!(String::from_utf8(sn.to_text()).unwrap(), "HQ1328Y6TF6");
}

#[test]
fn single_digit_year_and_week() {
    let sn = SerialNumber::new(b"HQ", 5, 7, b"A1B2C");
    assert_eq!(String::from_utf8(sn.to_text()).unwrap(), "HQ57A1B2C");
}

#[test]
fn test_from_str_valid() {
    let sn = SerialNumber::parse(b"HQ2049A1B2C").unwrap();
    assert_eq!(String::from_utf8(sn.to_text()).unwrap(), "HQ2049A1B2C");
}

#[test]
fn parse_rejects_bad_datestamp() {
    assert!(SerialNumber::parse(b"HQXY49A1B2C").is_err());
    assert!(SerialNumber::parse(b"HQ2049").is_err());
}
