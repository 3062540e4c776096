use vedirect::AlarmReason;
use vedirect::ChargeState;
use vedirect::DeviceMode;
use vedirect::OffReason;
use vedirect::VictronProductId;
use vedirect::TrackerOperationMode;
use vedirect::VEError;
use vedirect::constants::convert_product_id;
use vedirect::data::convert_off_reason;
use vedirect::data::convert_tracker_mode;
use vedirect::fields::FieldMap;
use vedirect::utils::convert_bool;
use vedirect::utils::convert_load;
use vedirect::utils::convert_percentage;
use vedirect::utils::convert_string;
use vedirect::utils::convert_ttg;
use vedirect::utils::convert_u16;
use vedirect::utils::convert_u32;
use vedirect::utils::convert_watt;
use vedirect::utils::get_field_string;

fn one(label: &[u8], value: &[u8]) -> FieldMap {
    let mut f = FieldMap::new();
    f.insert(label.to_vec(), value.to_vec());
    f
}

#[test]
fn test_convert_percentage() {
    let hm = one(b"P", b"031");
    assert_eq!(convert_percentage(&hm, b"P").unwrap().map(|x| x as f32 / 10.0), Some(3.1_f32));
}

#[test]
fn test_convert_percentage2() {
    let hm = one(b"P", b"---");
    assert_eq!(convert_percentage(&hm, b"P").unwrap(), None);
}

#[test]
fn test_get_field_string_some() {
    assert_eq!(get_field_string("ABC", Some(&3.14.to_string())), "\r\nABC\t3.14");
}

#[test]
fn test_get_field_string_none() {
    assert_eq!(get_field_string("ABC", None), "");
}

#[test]
fn test_get_or_field_0x00000001() {
    assert_eq!(
        convert_off_reason(&one(b"OR", b"0x00000001"), b"OR").unwrap(),
        OffReason::NoInputPower
    );
}

#[test]
fn test_get_or_field_0x00000100() {
    assert_eq!(
        convert_off_reason(&one(b"OR", b"0x00000100"), b"OR").unwrap(),
        OffReason::AnalysingInputVoltage
    );
}

#[test]
fn test_get_mppt_field_1() {
    assert_eq!(
        convert_tracker_mode(&one(b"MPPT", b"1"), b"MPPT").unwrap(),
        TrackerOperationMode::VoltageOrCurrentLimited
    );
}

#[test]
fn convert_watt_parses_signed_values() {
    assert_eq!(convert_watt(&one(b"P", b"-28"), b"P").unwrap(), -28);
    assert_eq!(convert_watt(&one(b"P", b"2147483647"), b"P").unwrap(), 2147483647);
    assert_eq!(convert_watt(&one(b"P", b"-2147483648"), b"P").unwrap(), -2147483648);
}

#[test]
fn convert_watt_rejects_overflow() {
    match convert_watt(&one(b"P", b"2147483648"), b"P") {
        Err(VEError::Parse(_)) => (),
        other => panic!("expected a parse error, got {:?}", other),
    }
}

#[test]
fn convert_watt_missing_label() {
    match convert_watt(&FieldMap::new(), b"P") {
        Err(VEError::MissingField(l)) => assert_eq!(l, b"P".to_vec()),
        other => panic!("expected a missing field, got {:?}", other),
    }
}

#[test]
fn convert_u32_and_u16_bounds() {
    assert_eq!(convert_u32(&one(b"N", b"4294967295"), b"N").unwrap(), 4294967295);
    assert!(convert_u32(&one(b"N", b"4294967296"), b"N").is_err());
    assert_eq!(convert_u16(&one(b"N", b"65535"), b"N").unwrap(), 65535);
    assert!(convert_u16(&one(b"N", b"65536"), b"N").is_err());
    assert!(convert_u32(&one(b"N", b"-1"), b"N").is_err());
}

#[test]
fn convert_ttg_accepts_infinite() {
    assert_eq!(convert_ttg(&one(b"TTG", b"-1"), b"TTG").unwrap(), -1);
}

#[test]
fn convert_string_returns_raw_bytes() {
    assert_eq!(convert_string(&one(b"SER#", b"HQ2132QY2KR"), b"SER#").unwrap(), b"HQ2132QY2KR".to_vec());
}

#[test]
fn convert_bool_on_off_only() {
    assert_eq!(convert_bool(&one(b"LOAD", b"ON"), b"LOAD").unwrap(), true);
    assert_eq!(convert_bool(&one(b"LOAD", b"OFF"), b"LOAD").unwrap(), false);
    match convert_bool(&one(b"LOAD", b"On"), b"LOAD") {
        Err(VEError::OnOffExpected(v)) => assert_eq!(v, b"On".to_vec()),
        other => panic!("expected an on/off error, got {:?}", other),
    }
}

#[test]
fn convert_load_is_optional() {
    assert_eq!(convert_load(&FieldMap::new(), b"LOAD").unwrap(), None);
    assert_eq!(convert_load(&one(b"LOAD", b"ON"), b"LOAD").unwrap(), Some(true));
    assert_eq!(convert_load(&one(b"LOAD", b"OFF"), b"LOAD").unwrap(), Some(false));
}

#[test]
fn product_tables_and_names() {
    assert_eq!(VictronProductId::from_code(0xA042), Some(VictronProductId::BlueSolar_MPPT_75_15));
    assert_eq!(VictronProductId::from_code(0x1234), None);
    assert_eq!(vedirect::get_name(VictronProductId::BlueSolar_MPPT_75_15), "BlueSolar MPPT 75/15");
    assert_eq!(vedirect::get_name(VictronProductId::BMV700), "BMV-700");
    assert_eq!(AlarmReason::from_code(256), Some(AlarmReason::Overload));
    assert_eq!(AlarmReason::from_code(3), None);
    assert_eq!(ChargeState::from_code(5), Some(ChargeState::Float));
    assert_eq!(DeviceMode::from_code(5), Some(DeviceMode::VE_REG_MODE_ECO));
}

#[test]
fn convert_product_id_reads_hex() {
    assert_eq!(
        convert_product_id(&one(b"PID", b"0xA051"), b"PID").unwrap(),
        VictronProductId::SmartSolar_MPPT_150_100
    );
    assert_eq!(
        convert_product_id(&one(b"PID", b"0x203"), b"PID").unwrap(),
        VictronProductId::BMV700
    );
    match convert_product_id(&one(b"PID", b"0x1234"), b"PID") {
        Err(VEError::Parse(_)) => (),
        other => panic!("expected a parse error, got {:?}", other),
    }
    match convert_product_id(&one(b"PID", b"0xZZ"), b"PID") {
        Err(VEError::Parse(_)) => (),
        other => panic!("expected a parse error, got {:?}", other),
    }
}
