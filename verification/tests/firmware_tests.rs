use vedirect::FirmwareVersion;
use vedirect::VersionType;
use vedirect::firmware_version::Version;
use vedirect::firmware_version::encode_version;

fn release(major: u64, minor: u64, patch: u64) -> Version {
    Version { major, minor, patch, pre: vec![], build: vec![] }
}

fn pre_release(major: u64, minor: u64, patch: u64, pre: &[u8]) -> Version {
    Version { major, minor, patch, pre: pre.to_vec(), build: vec![] }
}

#[test]
fn test_fw_150() {
    let fwv = FirmwareVersion::parse(b"150").unwrap();

    assert_eq!(fwv.version_type, VersionType::FW);
    assert_eq!(fwv.version, release(1, 50, 0));
}

#[test]
fn test_fw_c208() {
    let fwv = FirmwareVersion::parse(b"C208").unwrap();

    assert_eq!(fwv.version_type, VersionType::FW);
    assert_eq!(fwv.version, pre_release(2, 8, 0, b"C"));
}

#[test]
fn test_fw_0208ff() {
    let fwv = FirmwareVersion::parse(b"0208FF").unwrap();

    assert_eq!(fwv.version_type, VersionType::FWE);
    assert_eq!(fwv.version, release(2, 8, 0));
}

#[test]
fn test_fw_208ff() {
    let fwv = FirmwareVersion::parse(b"208FF").unwrap();

    assert_eq!(fwv.version_type, VersionType::FWE);
    assert_eq!(fwv.version, release(2, 8, 0));
}

#[test]
fn test_fw_020801() {
    let fwv = FirmwareVersion::parse(b"020801").unwrap();

    assert_eq!(fwv.version_type, VersionType::FWE);
    assert_eq!(fwv.version, pre_release(2, 8, 0, b"beta-01"));
}

#[test]
fn fw_junk_is_rejected() {
    assert!(FirmwareVersion::parse(b"junk").is_err());
}

#[test]
fn test_1() {
    assert_eq!(
        String::from_utf8(encode_version(&pre_release(1, 2, 3, b"a"), &VersionType::FW)).unwrap(),
        "a102"
    )
}

#[test]
fn test_2() {
    assert_eq!(
        String::from_utf8(encode_version(&release(1, 2, 3), &VersionType::FW)).unwrap(),
        "102"
    )
}

#[test]
fn test_3() {
    assert_eq!(
        String::from_utf8(encode_version(&release(1, 50, 0), &VersionType::FW)).unwrap(),
        "150"
    )
}

#[test]
fn test_4() {
    assert_eq!(
        String::from_utf8(encode_version(&pre_release(2, 8, 0, b"beta1"), &VersionType::FWE))
            .unwrap(),
        "020801"
    )
}

#[test]
fn test_5() {
    assert_eq!(
        String::from_utf8(encode_version(&release(2, 38, 0), &VersionType::FWE)).unwrap(),
        "0238FF"
    )
}
