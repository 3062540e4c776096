use vedirect::Bmv700;
use vedirect::Events;
use vedirect::MPPT;
use vedirect::Parser;
use vedirect::TrackerOperationMode;
use vedirect::VEError;

struct CollectorBmv700 {
    data: Vec<Bmv700>,
}

impl Events<Bmv700> for CollectorBmv700 {
    fn on_complete_block(&mut self, block: Bmv700) {
        self.data.push(block);
        println!("Block complete");
    }

    fn on_parse_error(&mut self, _error: VEError, _parse_buf: &Vec<u8>) {
        println!("parse error");
    }
}

#[test]
fn test_partial_stream() {
    let data = "\r\nH18\t2415\r\nChecksum\t\u{4}\r\nPID\t0xA381\r\nV\t12282\r\nVS\t29\r\nI\t-2288\r\nP\t-28\r\nCE\t-74900\r\nSOC\t916\r\nTTG\t10350\r\nAlarm\tOFF\r\nRelay\tOFF\r\nAR\t0\r\nBMV\t712 Smart\r\nFW\t0403\r\nChecksum\t~\r\nH1\t-76138\r\nH2\t-76138\r\nH3\t0\r\nH4\t0\r\nH5\t0\r\nH6\t-1876218\r\nH7\t12171\r\nH8\t20418\r\nH9\t1199744\r\nH10\t0\r\nH11\t0\r\nH12\t0\r\nH15\t20\r\nH16\t21033\r\nH17\t2404\r\nH18\t2415\r\nChecksum\t\u{3}\r\nPID\t0xA381\r\n".as_bytes();
    let collector = CollectorBmv700 { data: vec![] };

    let mut parser = Parser::new(collector);
    parser.feed(data).unwrap();

    // Should have some data remaining
    assert!(parser.buffered_len() > 0);
    assert_eq!(parser.buffered_len(), 2);
    // Got one block valid data
    assert_eq!(parser.listener.data.len(), 1);
}

struct CollectorMPPT {
    data: Vec<MPPT>,
}

impl Events<MPPT> for CollectorMPPT {
    fn on_complete_block(&mut self, block: MPPT) {
        self.data.push(block);
    }

    fn on_parse_error(&mut self, _error: VEError, _parse_buf: &Vec<u8>) {
        println!("parse error");
    }
}

fn assert_mppt_first(fields: &MPPT) {
    assert_eq!(fields.channel1_voltage as f32 / 1000.0, 12.54);
    assert_eq!(fields.battery_current as f32 / 1000.0, 0.04);
    assert_eq!(fields.panel_voltage as f32 / 1000.0, 18.54);
    assert_eq!(fields.panel_power, 5);
    assert_eq!(fields.load_current as f32 / 1000.0, 0.3);
    assert_eq!(fields.load_output_state, true);
    assert_eq!(fields.yield_total, 144);
    assert_eq!(fields.yield_today, 1);
    assert_eq!(fields.yield_yesterday, 4);
    assert_eq!(fields.max_power_today, 6);
    assert_eq!(fields.max_power_yesterday, 14);
    assert_eq!(fields.day_sequence, 16);
    assert_eq!(fields.firmware, 159);
    assert_eq!(fields.tracker_mode, TrackerOperationMode::MPPTrackerActive);
}

fn assert_mppt_second(fields: &MPPT) {
    assert_eq!(fields.channel1_voltage as f32 / 1000.0, 12.54);
    assert_eq!(fields.battery_current as f32 / 1000.0, 0.11);
    assert_eq!(fields.panel_voltage as f32 / 1000.0, 17.66);
    assert_eq!(fields.panel_power, 5);
    assert_eq!(fields.load_current as f32 / 1000.0, 0.3);
    assert_eq!(fields.load_output_state, true);
    assert_eq!(fields.yield_total, 144);
    assert_eq!(fields.yield_today, 1);
    assert_eq!(fields.yield_yesterday, 4);
    assert_eq!(fields.max_power_today, 6);
    assert_eq!(fields.max_power_yesterday, 14);
    assert_eq!(fields.day_sequence, 16);
    assert_eq!(fields.firmware, 159);
    assert_eq!(fields.tracker_mode, TrackerOperationMode::MPPTrackerActive);
}

#[test]
fn test_mppt_stream() {
    let data = "\r\nPID\t0xA053\r\nFW\t159\r\nSER#\tHQ2132QY2KR\r\nV\t12540\r\nI\t40\r\nVPV\t18540\r\nPPV\t5\r\nCS\t3\r\nMPPT\t2\r\nOR\t0x00000000\r\nERR\t0\r\nLOAD\tON\r\nIL\t300\r\nH19\t144\r\nH20\t1\r\nH21\t6\r\nH22\t4\r\nH23\t14\r\nHSDS\t16\r\nChecksum\t?".as_bytes();

    let collector = CollectorMPPT { data: vec![] };
    let mut parser = Parser::new(collector);
    parser.feed(data).unwrap();
    assert_eq!(parser.listener.data.len(), 1);
    let fields = &parser.listener.data[0];
    assert_mppt_first(fields);
}

#[test]
fn test_mppt_stream_partial() {
    let datas = vec![
        "\r\nPID\t0xA053\r\nFW\t159\r\nSER#\tHQ2132QY",
        "2KR\r\nV\t12540\r\nI\t40\r\nVPV\t18540\r\nPPV\t5\r\nCS\t3\r\nMPPT\t2\r\nO",
        "R\t0x00000000\r\nERR\t0\r\nLOAD\tON\r\nIL\t300\r\nH19\t144\r\nH20\t1\r\nH21\t6\r\nH22\t4\r\nH23\t14\r\nHS",
        "DS\t16\r\nChecksum\t?",
        "\r\nPID\t0xA053\r\nFW\t159\r\nSER#\tHQ2132QY2KR\r\nV\t12",
        "540\r\nI\t110\r\nVPV\t17660\r\nPPV\t5\r\nCS\t3\r\nMPPT\t2\r\nOR\t0x00000000\r\nERR",
        "\t0\r\nLOAD\tON\r\nIL\t300\r\nH19\t144\r\nH20\t1\r\nH21\t6\r\nH22\t4\r\nH23\t14\r\nHSDS\t16\r\nChecksum\t?",
    ];

    let collector = CollectorMPPT { data: vec![] };
    let mut parser = Parser::new(collector);
    for data in datas {
        parser.feed(data.as_bytes()).unwrap();
    }
    assert_eq!(parser.listener.data.len(), 2);
    assert_mppt_first(&parser.listener.data[0]);
    assert_mppt_second(&parser.listener.data[1]);
}

#[test]
fn test_incomplete_block_reset() {
    let datas = vec![
        "2540\r\nI\t40\r\nVPV\t18540\r\nPPV\t5\r\nCS\t3\r\nMPPT\t2\r\nO",
        "R\t0x00000000\r\nERR\t0\r\nLOAD\tON\r\nIL\t300\r\nH19\t144\r\nH20\t1\r\nH21\t6\r\nH22\t4\r\nH23\t14\r\nHS",
        "DS\t16\r\nChecksum\t?",
        "\r\nPID\t0xA053\r\nFW\t159\r\nSER#\tHQ2132QY2KR\r\nV\t12",
        "540\r\nI\t110\r\nVPV\t17660\r\nPPV\t5\r\nCS\t3\r\nMPPT\t2\r\nOR\t0x00000000\r\nERR",
        "\t0\r\nLOAD\tON\r\nIL\t300\r\nH19\t144\r\nH20\t1\r\nH21\t6\r\nH22\t4\r\nH23\t14\r\nHSDS\t16\r\nChecksum\t?",
    ];

    let collector = CollectorMPPT { data: vec![] };
    let mut parser = Parser::new(collector);
    for data in datas {
        parser.feed(data.as_bytes()).unwrap();
    }
    assert_eq!(parser.listener.data.len(), 1);
    assert_mppt_second(&parser.listener.data[0]);
}

#[test]
fn test_mppt_stream_hex_messages() {
    let datas = vec![
        "\r\nPID\t0xA053\r\nFW\t159\r\nSER#\tHQ2132QY",
        "2KR\r\nV\t12540\r\nI\t40\r\nVPV\t18540\r\nPPV\t5\r\nCS\t3\r\nMPPT\t2\r\nO",
        "R\t0x00000000\r\nERR\t0\r\nLOAD\tON\r\nIL\t300\r\nH19\t144\r\nH20\t1\r\nH21\t6\r\nH22\t4\r\nH23\t14\r\nHS",
        "DS\t16\r\nChecksum\t?",
        ":A4F1000010000000000AD000000AD000000E508AE05139D04",
        "FFFFFFFFFFFFFFFFFFFFFFFFFF4A\n",
        ":A5010000002000000040000002405C60400000000002E01000000000E0000000A00BA071300D7\n",
        "\r\nPID\t0xA053\r\nFW\t159\r\nSER#\tHQ2132QY2KR\r\nV\t12",
        "540\r\nI\t110\r\nVPV\t17660\r\nPPV\t5\r\nCS\t3\r\nMPPT\t2\r\nOR\t0x00000000\r\nERR",
        "\t0\r\nLOAD\tON\r\nIL\t300\r\nH19\t144\r\nH20\t1\r\nH21\t6\r\nH22\t4\r\nH23\t14\r\nHSDS\t16\r\nChecksum\t?",
    ];

    let collector = CollectorMPPT { data: vec![] };
    let mut parser = Parser::new(collector);
    for data in datas {
        parser.feed(data.as_bytes()).unwrap();
    }
    assert_eq!(parser.listener.data.len(), 2);
    assert_mppt_first(&parser.listener.data[0]);
    assert_mppt_second(&parser.listener.data[1]);
}

#[test]
fn byte_by_byte_equals_bulk() {
    let data = "\r\nPID\t0xA053\r\nFW\t159\r\nSER#\tHQ2132QY2KR\r\nV\t12540\r\nI\t40\r\nVPV\t18540\r\nPPV\t5\r\nCS\t3\r\nMPPT\t2\r\nOR\t0x00000000\r\nERR\t0\r\nLOAD\tON\r\nIL\t300\r\nH19\t144\r\nH20\t1\r\nH21\t6\r\nH22\t4\r\nH23\t14\r\nHSDS\t16\r\nChecksum\t?".as_bytes();

    let mut bulk = Parser::new(CollectorMPPT { data: vec![] });
    bulk.feed(data).unwrap();

    let mut trickle = Parser::new(CollectorMPPT { data: vec![] });
    for b in data {
        let _ = trickle.feed(&[*b]);
    }

    assert_eq!(bulk.listener.data.len(), 1);
    assert_eq!(trickle.listener.data.len(), 1);
    assert_eq!(bulk.listener.data[0], trickle.listener.data[0]);
    assert_eq!(bulk.buffered_len(), trickle.buffered_len());
}

struct CountingCollector {
    records: usize,
    checksum_errors: usize,
    parse_errors: usize,
    missing: usize,
}

impl Events<MPPT> for CountingCollector {
    fn on_complete_block(&mut self, _block: MPPT) {
        self.records += 1;
    }

    fn on_missing_field(&mut self, _label: Vec<u8>) {
        self.missing += 1;
    }

    fn on_checksum_error(&mut self, _checksum: u8) {
        self.checksum_errors += 1;
    }

    fn on_parse_error(&mut self, _error: VEError, _parse_buf: &Vec<u8>) {
        self.parse_errors += 1;
    }
}

fn counting() -> CountingCollector {
    CountingCollector { records: 0, checksum_errors: 0, parse_errors: 0, missing: 0 }
}

fn valid_mppt_frame() -> Vec<u8> {
    let payload = "\r\nPID\t0xA053\r\nFW\t159\r\nSER#\tHQ2132QY2KR\r\nV\t12540\r\nI\t40\r\nVPV\t18540\r\nPPV\t5\r\nCS\t3\r\nMPPT\t2\r\nOR\t0x00000000\r\nERR\t0\r\nLOAD\tON\r\nIL\t300\r\nH19\t144\r\nH20\t1\r\nH21\t6\r\nH22\t4\r\nH23\t14\r\nHSDS\t16\r\nChecksum\t".as_bytes();
    vedirect::checksum::append(payload, vedirect::checksum::compute(payload))
}

#[test]
fn valid_checksum_accepted() {
    let frame = valid_mppt_frame();
    let mut parser = Parser::new(counting());
    parser.feed(&frame).unwrap();
    assert_eq!(parser.listener.records, 1);
    assert_eq!(parser.listener.checksum_errors, 0);
    assert_eq!(parser.listener.parse_errors, 0);
    assert_eq!(parser.buffered_len(), 0);
}

#[test]
fn flipped_checksum_flagged() {
    let mut frame = valid_mppt_frame();
    let last = frame.len() - 1;
    frame[last] = frame[last].wrapping_add(1);
    let mut parser = Parser::new(counting());
    parser.feed(&frame).unwrap();
    assert_eq!(parser.listener.checksum_errors, 1);
}

#[test]
fn malformed_line_then_clean_frame() {
    let mut parser = Parser::new(counting());
    // A line with a carriage return before any tab is malformed and
    // forces a resynchronization.
    parser.feed("\r\nBADLINE\r\nmore".as_bytes()).unwrap();
    assert_eq!(parser.listener.parse_errors, 1);
    assert_eq!(parser.buffered_len(), 0);
    let frame = valid_mppt_frame();
    parser.feed(&frame).unwrap();
    assert_eq!(parser.listener.records, 1);
    assert_eq!(parser.listener.checksum_errors, 0);
}

#[test]
fn binary_runs_between_frames_produce_nothing() {
    let frame = valid_mppt_frame();
    let mut parser = Parser::new(counting());
    parser.feed(&frame).unwrap();
    parser.feed(":A0102F\n".as_bytes()).unwrap();
    parser.feed(":AFF".as_bytes()).unwrap();
    parser.feed("\n".as_bytes()).unwrap();
    assert_eq!(parser.listener.records, 1);
    parser.feed(&frame).unwrap();
    assert_eq!(parser.listener.records, 2);
    assert_eq!(parser.listener.parse_errors, 0);
    assert_eq!(parser.listener.checksum_errors, 0);
    assert_eq!(parser.listener.missing, 0);
}

struct TwoFields {
    field1: Vec<u8>,
    field2: Vec<u8>,
}

impl vedirect::VEDirectData for TwoFields {
    fn fill(fields: &vedirect::FieldMap) -> Result<Self, VEError> {
        let field1 = match fields.get(b"field1") {
            Some(v) => v.clone(),
            None => return Err(VEError::MissingField(b"field1".to_vec())),
        };
        let field2 = match fields.get(b"field2") {
            Some(v) => v.clone(),
            None => return Err(VEError::MissingField(b"field2".to_vec())),
        };
        Ok(TwoFields { field1, field2 })
    }
}

struct TwoFieldsCollector {
    data: Vec<TwoFields>,
}

impl Events<TwoFields> for TwoFieldsCollector {
    fn on_complete_block(&mut self, block: TwoFields) {
        self.data.push(block);
    }
}

#[test]
fn two_field_frame_produces_one_block() {
    let payload = "\r\nfield1\tvalue1\r\nfield2\tvalue2\r\nChecksum\t".as_bytes();
    let frame = vedirect::checksum::append(payload, vedirect::checksum::compute(payload));
    let mut parser = Parser::new(TwoFieldsCollector { data: vec![] });
    parser.feed(&frame).unwrap();
    assert_eq!(parser.listener.data.len(), 1);
    assert_eq!(parser.listener.data[0].field1, b"value1".to_vec());
    assert_eq!(parser.listener.data[0].field2, b"value2".to_vec());
}

#[test]
fn three_frames_in_odd_chunks() {
    let frame = valid_mppt_frame();
    let mut stream: Vec<u8> = Vec::new();
    stream.extend_from_slice(&frame);
    stream.extend_from_slice(&frame);
    stream.extend_from_slice(&frame);
    // A trailing partial frame must stay buffered, neither emitted nor
    // discarded.
    stream.extend_from_slice("\r\nPID\t0xA053\r\nFW\t1".as_bytes());

    let mut parser = Parser::new(counting());
    let mut fed: usize = 0;
    let mut size: usize = 1;
    while fed < stream.len() {
        let end = usize::min(fed + size, stream.len());
        parser.feed(&stream[fed..end]).unwrap();
        fed = end;
        size = size % 7 + 1;
    }
    assert_eq!(parser.listener.records, 3);
    assert_eq!(parser.listener.checksum_errors, 0);
    assert_eq!(parser.listener.parse_errors, 0);
    // The completed PID field was consumed; the unfinished FW line waits.
    assert_eq!(parser.buffered_len(), "\r\nFW\t1".len());
}

#[test]
fn punctuated_label_parses_as_one_field() {
    let (field, next) = vedirect::parser::parse_field("\r\nSER#\tHQ2132QY2KR\r".as_bytes(), 0)
        .unwrap();
    assert_eq!(field.label, b"SER#".to_vec());
    assert_eq!(field.value, b"HQ2132QY2KR".to_vec());
    assert_eq!(next, 18);
}

#[test]
fn feed_without_alignment_needs_more_data() {
    let mut parser = Parser::new(CollectorMPPT { data: vec![] });
    let r = parser.feed("no frame start here".as_bytes());
    assert!(matches!(r, Err(VEError::NeedMoreData)));
}

#[test]
fn test_parse_field() {
    let data = "\r\nPID\t0xA053\r\nFW\t159\r\nChecksum\t?".as_bytes();

    let (field, read_pos) = vedirect::parser::parse_field(data, 0).unwrap();
    assert_eq!(field.label, b"PID".to_vec());
    assert_eq!(field.value, "0xA053".as_bytes());
    assert_eq!(read_pos, 12);

    let (field, read_pos) = vedirect::parser::parse_field(data, 12).unwrap();
    assert_eq!(field.label, b"FW".to_vec());
    assert_eq!(field.value, "159".as_bytes());
    assert_eq!(read_pos, 20);

    assert_eq!(
        vedirect::parser::parse_field(data, 19).err().unwrap().describe(),
        "error parsing data: Illegal field start".to_string()
    );

    let (field, read_pos) = vedirect::parser::parse_field(data, 20).unwrap();
    assert_eq!(field.label, b"Checksum".to_vec());
    assert_eq!(read_pos, 32);

    let data = "\r\nFW\t159".as_bytes();
    assert_eq!(
        vedirect::parser::parse_field(data, 0).err().unwrap().describe(),
        "Need more data to parse successfully".to_string()
    );
}
