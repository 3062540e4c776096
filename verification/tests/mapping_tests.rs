use vedirect::Bmv700;
use vedirect::Events;
use vedirect::MPPT;
use vedirect::OffReason;
use vedirect::Parser;
use vedirect::TrackerOperationMode;
use vedirect::VEDirectData;
use vedirect::VEError;
use vedirect::fields::FieldMap;

struct CheckerBmv700;

impl Events<Bmv700> for CheckerBmv700 {
    fn on_complete_block(&mut self, data: Bmv700) {
        assert_eq!(data.power, 123);
        assert_eq!(data.consumed, Some(b"53".to_vec()));
        assert_eq!(data.soc.map(|x| x as f32 / 10.0), Some(45.2));
        assert_eq!(data.ttg, 60);
        assert_eq!(data.voltage as f32 / 10.0, 23.2);
    }

    fn on_parse_error(&mut self, _error: VEError, _parse_buf: &Vec<u8>) {
        assert!(false);
    }
}

#[test]
fn test_mapping() {
    let input = "\r\nP\t123\r\nCE\t53\r\nSOC\t452\r\nTTG\t60\r\nRelay\tOFF\r\nAlarm\tOFF\r\nV\t232\r\nChecksum\t12";
    let checker = CheckerBmv700 {};
    let mut parser = Parser::new(checker);
    parser.feed(input.as_bytes()).unwrap();
}

struct CheckerMPPT;

impl Events<MPPT> for CheckerMPPT {
    fn on_complete_block(&mut self, data: MPPT) {
        assert_eq!(data.channel1_voltage as f32 / 1000.0, 12.54);
        assert_eq!(data.battery_current as f32 / 1000.0, 0.04);
        assert_eq!(data.panel_voltage as f32 / 1000.0, 18.54);
        assert_eq!(data.panel_power, 5);
        assert_eq!(data.load_current as f32 / 1000.0, 0.3);
        assert_eq!(data.load_output_state, true);
        assert_eq!(data.yield_total, 144);
        assert_eq!(data.yield_today, 1);
        assert_eq!(data.yield_yesterday, 4);
        assert_eq!(data.max_power_today, 6);
        assert_eq!(data.max_power_yesterday, 14);
        assert_eq!(data.day_sequence, 16);
        assert_eq!(data.firmware, 159);
        assert_eq!(data.tracker_mode, TrackerOperationMode::MPPTrackerActive);
    }

    fn on_parse_error(&mut self, _error: VEError, _parse_buf: &Vec<u8>) {
        assert!(false);
    }
}

#[test]
fn test_mapping_mppt() {
    let input = "\r\nPID\t0xA053\r\nFW\t159\r\nSER#\tHQ2132QY2KR\r\nV\t12540\r\nI\t40\r\nVPV\t18540\r\nPPV\t5\r\nCS\t3\r\nMPPT\t2\r\nOR\t0x00000000\r\nERR\t0\r\nLOAD\tON\r\nIL\t300\r\nH19\t144\r\nH20\t1\r\nH21\t6\r\nH22\t4\r\nH23\t14\r\nHSDS\t16\r\nChecksum\t?";
    let checker = CheckerMPPT {};
    let mut parser = Parser::new(checker);
    parser.feed(input.as_bytes()).unwrap();
}

fn mppt_fields() -> FieldMap {
    let mut f = FieldMap::new();
    f.insert(b"PID".to_vec(), b"0xA053".to_vec());
    f.insert(b"FW".to_vec(), b"159".to_vec());
    f.insert(b"SER#".to_vec(), b"HQ2132QY2KR".to_vec());
    f.insert(b"V".to_vec(), b"12540".to_vec());
    f.insert(b"I".to_vec(), b"40".to_vec());
    f.insert(b"VPV".to_vec(), b"18540".to_vec());
    f.insert(b"PPV".to_vec(), b"5".to_vec());
    f.insert(b"CS".to_vec(), b"3".to_vec());
    f.insert(b"MPPT".to_vec(), b"2".to_vec());
    f.insert(b"OR".to_vec(), b"0x00000001".to_vec());
    f.insert(b"ERR".to_vec(), b"0".to_vec());
    f.insert(b"LOAD".to_vec(), b"ON".to_vec());
    f.insert(b"IL".to_vec(), b"300".to_vec());
    f.insert(b"H19".to_vec(), b"144".to_vec());
    f.insert(b"H20".to_vec(), b"1".to_vec());
    f.insert(b"H21".to_vec(), b"6".to_vec());
    f.insert(b"H22".to_vec(), b"4".to_vec());
    f.insert(b"H23".to_vec(), b"14".to_vec());
    f.insert(b"HSDS".to_vec(), b"16".to_vec());
    f
}

#[test]
fn mppt_fill_reads_every_field() {
    let f = mppt_fields();
    let r = MPPT::fill(&f).unwrap();
    assert_eq!(r.product_id, b"0xA053".to_vec());
    assert_eq!(r.serial_number, b"HQ2132QY2KR".to_vec());
    assert_eq!(r.off_reason, OffReason::NoInputPower);
    assert_eq!(r.relay_state, None);
    assert_eq!(r.channel1_voltage, 12540);
    assert_eq!(r.battery_current, 40);
    assert_eq!(r.error_code, vedirect::ErrorCode::NoError);
    assert_eq!(r.state_of_operation, vedirect::StateOfOperation::Bulk);
}

#[test]
fn mppt_fill_missing_field() {
    let mut f = FieldMap::new();
    f.insert(b"V".to_vec(), b"12540".to_vec());
    match MPPT::fill(&f) {
        Err(VEError::MissingField(l)) => assert_eq!(l, b"VPV".to_vec()),
        other => panic!("expected a missing field, got {:?}", other),
    }
}

#[test]
fn mppt_fill_relay_present() {
    let mut f = mppt_fields();
    f.insert(b"Relay".to_vec(), b"ON".to_vec());
    let r = MPPT::fill(&f).unwrap();
    assert_eq!(r.relay_state, Some(true));
}

#[test]
fn mppt_fill_bad_switch() {
    let mut f = mppt_fields();
    f.insert(b"LOAD".to_vec(), b"MAYBE".to_vec());
    match MPPT::fill(&f) {
        Err(VEError::OnOffExpected(v)) => assert_eq!(v, b"MAYBE".to_vec()),
        other => panic!("expected an on/off error, got {:?}", other),
    }
}

#[test]
fn mppt_fill_unknown_off_reason() {
    let mut f = mppt_fields();
    f.insert(b"OR".to_vec(), b"0x00000300".to_vec());
    match MPPT::fill(&f) {
        Err(VEError::UnknownCode(v)) => assert_eq!(v, b"0x00000300".to_vec()),
        other => panic!("expected an unknown code, got {:?}", other),
    }
}

#[test]
fn bmv700_fill_unsynchronised_soc() {
    let mut f = FieldMap::new();
    f.insert(b"V".to_vec(), b"232".to_vec());
    f.insert(b"P".to_vec(), b"123".to_vec());
    f.insert(b"CE".to_vec(), b"---".to_vec());
    f.insert(b"SOC".to_vec(), b"---".to_vec());
    f.insert(b"TTG".to_vec(), b"-1".to_vec());
    let r = Bmv700::fill(&f).unwrap();
    assert_eq!(r.soc, None);
    assert_eq!(r.ttg, -1);
    assert_eq!(r.consumed, Some(b"---".to_vec()));
}

#[test]
fn bmv700_fill_bad_number() {
    let mut f = FieldMap::new();
    f.insert(b"V".to_vec(), b"23x2".to_vec());
    match Bmv700::fill(&f) {
        Err(VEError::Parse(_)) => (),
        other => panic!("expected a parse error, got {:?}", other),
    }
}

#[test]
fn last_value_wins_within_a_block() {
    let mut f = FieldMap::new();
    f.insert(b"V".to_vec(), b"1".to_vec());
    f.insert(b"V".to_vec(), b"2".to_vec());
    assert_eq!(f.get(b"V"), Some(&b"2".to_vec()));
    assert_eq!(f.get(b"W"), None);
    assert!(f.contains(b"V"));
}
