//! Typed device records and the conversions that build them from a
//! block's field map.
//!
//! Values are kept as the device sends them: integers in the wire's
//! units (millivolts, milliamperes, tenths of a percent, hundredths of
//! a kilowatt hour), raw bytes for identifiers.  Scaling to display
//! units is presentation, not data.

use vstd::prelude::*;

use crate::VEError;
use crate::fields::FieldMap;
use crate::fields::bytes_eq;
use crate::text::dec_val;
use crate::text::is_unsigned_dec;
use crate::text::parse_dec_bounded;
use crate::utils::FieldIssue;
use crate::utils::bool_field_issue;
use crate::utils::bool_field_val;
use crate::utils::convert_bool;
use crate::utils::convert_percentage;
use crate::utils::convert_string;
use crate::utils::convert_ttg;
use crate::utils::convert_u16;
use crate::utils::convert_watt;
use crate::utils::dashes;
use crate::utils::int_field_issue;
use crate::utils::int_field_val;
use crate::utils::reports;
use crate::utils::str_field_issue;
use crate::utils::u16_field_issue;
use crate::utils::uint_field_val;

verus! {

/// Why a charger's output is off; the `OR` field's hexadecimal codes.
#[derive(Debug, PartialEq, Eq, Structural, Clone, Copy)]
pub enum OffReason {
    NoReason,
    NoInputPower,
    SwitchedOffPowerSwitch,
    SwitchedOffDMR,
    RemoteInput,
    ProtectionActive,
    Paygo,
    BMS,
    EngineShutdownDetection,
    AnalysingInputVoltage,
}

/// The `MPPT` field: what the maximum-power-point tracker is doing.
#[derive(Debug, PartialEq, Eq, Structural, Clone, Copy)]
pub enum TrackerOperationMode {
    Off,
    VoltageOrCurrentLimited,
    MPPTrackerActive,
}

/// The `ERR` field's error codes.
#[derive(Debug, PartialEq, Eq, Structural, Clone, Copy)]
pub enum ErrorCode {
    NoError,
    BatteryVoltageTooHigh,
    ChargerTemperatureTooHigh,
    ChargerOverCurrent,
    ChargerCurrentReversed,
    BulkTimeLimitExceeded,
    CurrentSensorIssue,
    TerminalsOverheatd,
    ConverterIssue,
    InputVoltageTooHigh,
    InputCurrentTooHigh,
    InputShutdownBatVoltage,
    InputShutdownCurrentFlow,
    LostComWithDevices,
    SynchronisedChargingIssue,
    BMSConnectionLost,
    NetworkMisconfigured,
    FactoryCalibrationDataLost,
    InvalidFirmware,
    UserSettingsInvalid,
}

/// The `CS` field: the converter's state of operation.
#[derive(Debug, PartialEq, Eq, Structural, Clone, Copy)]
pub enum StateOfOperation {
    Off,
    LowPower,
    Fault,
    Bulk,
    Absorption,
    Float,
    Storage,
    Equalize,
    Inverting,
    PowerSupply,
    StartingUp,
    RepeatedAbsorption,
    AutoEqualize,
    BatterySafe,
    ExternalControl,
}

/// The `ERR` code table; an unknown code falls back to `NoError`, as a
/// live charger may report codes newer than this table.
pub open spec fn error_code_of(n: int) -> ErrorCode {
    if n == 2 {
        ErrorCode::BatteryVoltageTooHigh
    } else if n == 17 {
        ErrorCode::ChargerTemperatureTooHigh
    } else if n == 18 {
        ErrorCode::ChargerOverCurrent
    } else if n == 19 {
        ErrorCode::ChargerCurrentReversed
    } else if n == 20 {
        ErrorCode::BulkTimeLimitExceeded
    } else if n == 21 {
        ErrorCode::CurrentSensorIssue
    } else if n == 26 {
        ErrorCode::TerminalsOverheatd
    } else if n == 28 {
        ErrorCode::ConverterIssue
    } else if n == 33 {
        ErrorCode::InputVoltageTooHigh
    } else if n == 34 {
        ErrorCode::InputCurrentTooHigh
    } else if n == 38 {
        ErrorCode::InputShutdownBatVoltage
    } else if n == 39 {
        ErrorCode::InputShutdownCurrentFlow
    } else if n == 65 {
        ErrorCode::LostComWithDevices
    } else if n == 66 {
        ErrorCode::SynchronisedChargingIssue
    } else if n == 67 {
        ErrorCode::BMSConnectionLost
    } else if n == 68 {
        ErrorCode::NetworkMisconfigured
    } else if n == 116 {
        ErrorCode::FactoryCalibrationDataLost
    } else if n == 117 {
        ErrorCode::InvalidFirmware
    } else if n == 119 {
        ErrorCode::UserSettingsInvalid
    } else {
        ErrorCode::NoError
    }
}

/// The `CS` code table; an unknown code falls back to `Off`.
pub open spec fn state_of_operation_of(n: int) -> StateOfOperation {
    if n == 1 {
        StateOfOperation::LowPower
    } else if n == 2 {
        StateOfOperation::Fault
    } else if n == 3 {
        StateOfOperation::Bulk
    } else if n == 4 {
        StateOfOperation::Absorption
    } else if n == 5 {
        StateOfOperation::Float
    } else if n == 6 {
        StateOfOperation::Storage
    } else if n == 7 {
        StateOfOperation::Equalize
    } else if n == 9 {
        StateOfOperation::Inverting
    } else if n == 11 {
        StateOfOperation::PowerSupply
    } else if n == 245 {
        StateOfOperation::StartingUp
    } else if n == 246 {
        StateOfOperation::RepeatedAbsorption
    } else if n == 247 {
        StateOfOperation::AutoEqualize
    } else if n == 248 {
        StateOfOperation::BatterySafe
    } else if n == 252 {
        StateOfOperation::ExternalControl
    } else {
        StateOfOperation::Off
    }
}

/// The `MPPT` code table; an unknown code falls back to `Off`.
pub open spec fn tracker_mode_of(n: int) -> TrackerOperationMode {
    if n == 1 {
        TrackerOperationMode::VoltageOrCurrentLimited
    } else if n == 2 {
        TrackerOperationMode::MPPTrackerActive
    } else {
        TrackerOperationMode::Off
    }
}

/// One `OR` literal: `0x00000` and three final hexadecimal digits.
pub open spec fn or_lit(a: u8, b: u8, c: u8) -> Seq<u8> {
    seq![48u8, 120u8, 48u8, 48u8, 48u8, 48u8, 48u8, a, b, c]
}

/// The `OR` table: the ten documented codes, and nothing else.
pub open spec fn off_reason_of(v: Seq<u8>) -> Option<OffReason> {
    if v == or_lit(48, 48, 48) {
        Some(OffReason::NoReason)
    } else if v == or_lit(48, 48, 49) {
        Some(OffReason::NoInputPower)
    } else if v == or_lit(48, 48, 50) {
        Some(OffReason::SwitchedOffPowerSwitch)
    } else if v == or_lit(48, 48, 52) {
        Some(OffReason::SwitchedOffDMR)
    } else if v == or_lit(48, 48, 56) {
        Some(OffReason::RemoteInput)
    } else if v == or_lit(48, 49, 48) {
        Some(OffReason::ProtectionActive)
    } else if v == or_lit(48, 50, 48) {
        Some(OffReason::Paygo)
    } else if v == or_lit(48, 52, 48) {
        Some(OffReason::BMS)
    } else if v == or_lit(48, 56, 48) {
        Some(OffReason::EngineShutdownDetection)
    } else if v == or_lit(49, 48, 48) {
        Some(OffReason::AnalysingInputVoltage)
    } else {
        None
    }
}

/// The failure, if any, of reading `l` as a code up to `u64::MAX`.
pub open spec fn code_field_issue(f: Map<Seq<u8>, Seq<u8>>, l: Seq<u8>) -> Option<FieldIssue> {
    if !f.contains_key(l) {
        Some(FieldIssue::Missing(l))
    } else if !(is_unsigned_dec(f[l]) && dec_val(f[l]) <= u64::MAX) {
        Some(FieldIssue::BadValue(l))
    } else {
        None
    }
}

/// The failure, if any, of reading `l` as an `OR` code.
pub open spec fn or_field_issue(f: Map<Seq<u8>, Seq<u8>>, l: Seq<u8>) -> Option<FieldIssue> {
    if !f.contains_key(l) {
        Some(FieldIssue::Missing(l))
    } else if off_reason_of(f[l]) is None {
        Some(FieldIssue::UnknownCode(f[l]))
    } else {
        None
    }
}

/// The failure, if any, of reading the optional relay switch.
pub open spec fn relay_field_issue(f: Map<Seq<u8>, Seq<u8>>, l: Seq<u8>) -> Option<FieldIssue> {
    if !f.contains_key(l) {
        None
    } else {
        bool_field_issue(f, l)
    }
}

/// Looks a code up in the `ERR` table.
fn error_code_from(n: u64) -> (r: ErrorCode)
    ensures
        r == error_code_of(n as int),
{
    if n == 2 {
        ErrorCode::BatteryVoltageTooHigh
    } else if n == 17 {
        ErrorCode::ChargerTemperatureTooHigh
    } else if n == 18 {
        ErrorCode::ChargerOverCurrent
    } else if n == 19 {
        ErrorCode::ChargerCurrentReversed
    } else if n == 20 {
        ErrorCode::BulkTimeLimitExceeded
    } else if n == 21 {
        ErrorCode::CurrentSensorIssue
    } else if n == 26 {
        ErrorCode::TerminalsOverheatd
    } else if n == 28 {
        ErrorCode::ConverterIssue
    } else if n == 33 {
        ErrorCode::InputVoltageTooHigh
    } else if n == 34 {
        ErrorCode::InputCurrentTooHigh
    } else if n == 38 {
        ErrorCode::InputShutdownBatVoltage
    } else if n == 39 {
        ErrorCode::InputShutdownCurrentFlow
    } else if n == 65 {
        ErrorCode::LostComWithDevices
    } else if n == 66 {
        ErrorCode::SynchronisedChargingIssue
    } else if n == 67 {
        ErrorCode::BMSConnectionLost
    } else if n == 68 {
        ErrorCode::NetworkMisconfigured
    } else if n == 116 {
        ErrorCode::FactoryCalibrationDataLost
    } else if n == 117 {
        ErrorCode::InvalidFirmware
    } else if n == 119 {
        ErrorCode::UserSettingsInvalid
    } else {
        ErrorCode::NoError
    }
}

/// Looks a code up in the `CS` table.
fn state_of_operation_from(n: u64) -> (r: StateOfOperation)
    ensures
        r == state_of_operation_of(n as int),
{
    if n == 1 {
        StateOfOperation::LowPower
    } else if n == 2 {
        StateOfOperation::Fault
    } else if n == 3 {
        StateOfOperation::Bulk
    } else if n == 4 {
        StateOfOperation::Absorption
    } else if n == 5 {
        StateOfOperation::Float
    } else if n == 6 {
        StateOfOperation::Storage
    } else if n == 7 {
        StateOfOperation::Equalize
    } else if n == 9 {
        StateOfOperation::Inverting
    } else if n == 11 {
        StateOfOperation::PowerSupply
    } else if n == 245 {
        StateOfOperation::StartingUp
    } else if n == 246 {
        StateOfOperation::RepeatedAbsorption
    } else if n == 247 {
        StateOfOperation::AutoEqualize
    } else if n == 248 {
        StateOfOperation::BatterySafe
    } else if n == 252 {
        StateOfOperation::ExternalControl
    } else {
        StateOfOperation::Off
    }
}

/// Reads `label` as an `ERR` code; unknown codes read as `NoError`.
pub fn convert_error_code(fields: &FieldMap, label: &[u8]) -> (r: Result<ErrorCode, VEError>)
    ensures
        match r {
            Ok(v) => code_field_issue(fields@, label@) is None && v == error_code_of(
                uint_field_val(fields@, label@),
            ),
            Err(e) => code_field_issue(fields@, label@) matches Some(k) && reports(e, k),
        },
{
    match fields.get(label) {
        None => Err(VEError::MissingField(vstd::slice::slice_to_vec(label))),
        Some(v) => match parse_dec_bounded(v.as_slice(), 18446744073709551615) {
            Some(n) => Ok(error_code_from(n)),
            None => Err(VEError::Parse("value is not a decimal integer in range".to_owned())),
        },
    }
}

/// Reads `label` as a `CS` code; unknown codes read as `Off`.
pub fn convert_state_of_operation(fields: &FieldMap, label: &[u8]) -> (r: Result<
    StateOfOperation,
    VEError,
>)
    ensures
        match r {
            Ok(v) => code_field_issue(fields@, label@) is None && v == state_of_operation_of(
                uint_field_val(fields@, label@),
            ),
            Err(e) => code_field_issue(fields@, label@) matches Some(k) && reports(e, k),
        },
{
    match fields.get(label) {
        None => Err(VEError::MissingField(vstd::slice::slice_to_vec(label))),
        Some(v) => match parse_dec_bounded(v.as_slice(), 18446744073709551615) {
            Some(n) => Ok(state_of_operation_from(n)),
            None => Err(VEError::Parse("value is not a decimal integer in range".to_owned())),
        },
    }
}

/// Reads `label` as an `MPPT` code; unknown codes read as `Off`.
pub fn convert_tracker_mode(fields: &FieldMap, label: &[u8]) -> (r: Result<
    TrackerOperationMode,
    VEError,
>)
    ensures
        match r {
            Ok(v) => code_field_issue(fields@, label@) is None && v == tracker_mode_of(
                uint_field_val(fields@, label@),
            ),
            Err(e) => code_field_issue(fields@, label@) matches Some(k) && reports(e, k),
        },
{
    match fields.get(label) {
        None => Err(VEError::MissingField(vstd::slice::slice_to_vec(label))),
        Some(v) => match parse_dec_bounded(v.as_slice(), 18446744073709551615) {
            Some(n) => {
                if n == 1 {
                    Ok(TrackerOperationMode::VoltageOrCurrentLimited)
                } else if n == 2 {
                    Ok(TrackerOperationMode::MPPTrackerActive)
                } else {
                    Ok(TrackerOperationMode::Off)
                }
            },
            None => Err(VEError::Parse("value is not a decimal integer in range".to_owned())),
        },
    }
}

/// Reads `label` as an `OR` code; a code outside the table is an
/// `UnknownCode` error.
pub fn convert_off_reason(fields: &FieldMap, label: &[u8]) -> (r: Result<OffReason, VEError>)
    ensures
        match r {
            Ok(v) => fields@.contains_key(label@) && off_reason_of(fields@[label@]) == Some(v),
            Err(e) => or_field_issue(fields@, label@) matches Some(k) && reports(e, k),
        },
{
    match fields.get(label) {
        None => Err(VEError::MissingField(vstd::slice::slice_to_vec(label))),
        Some(v) => {
            let lits: [[u8; 10]; 10] = [
                [48, 120, 48, 48, 48, 48, 48, 48, 48, 48],
                [48, 120, 48, 48, 48, 48, 48, 48, 48, 49],
                [48, 120, 48, 48, 48, 48, 48, 48, 48, 50],
                [48, 120, 48, 48, 48, 48, 48, 48, 48, 52],
                [48, 120, 48, 48, 48, 48, 48, 48, 48, 56],
                [48, 120, 48, 48, 48, 48, 48, 48, 49, 48],
                [48, 120, 48, 48, 48, 48, 48, 48, 50, 48],
                [48, 120, 48, 48, 48, 48, 48, 48, 52, 48],
                [48, 120, 48, 48, 48, 48, 48, 48, 56, 48],
                [48, 120, 48, 48, 48, 48, 48, 49, 48, 48],
            ];
            proof {
                assert(lits@[0]@ =~= or_lit(48, 48, 48));
                assert(lits@[1]@ =~= or_lit(48, 48, 49));
                assert(lits@[2]@ =~= or_lit(48, 48, 50));
                assert(lits@[3]@ =~= or_lit(48, 48, 52));
                assert(lits@[4]@ =~= or_lit(48, 48, 56));
                assert(lits@[5]@ =~= or_lit(48, 49, 48));
                assert(lits@[6]@ =~= or_lit(48, 50, 48));
                assert(lits@[7]@ =~= or_lit(48, 52, 48));
                assert(lits@[8]@ =~= or_lit(48, 56, 48));
                assert(lits@[9]@ =~= or_lit(49, 48, 48));
            }
            if bytes_eq(v.as_slice(), vstd::array::array_index_get(&lits, 0).as_slice()) {
                Ok(OffReason::NoReason)
            } else if bytes_eq(v.as_slice(), vstd::array::array_index_get(&lits, 1).as_slice()) {
                Ok(OffReason::NoInputPower)
            } else if bytes_eq(v.as_slice(), vstd::array::array_index_get(&lits, 2).as_slice()) {
                Ok(OffReason::SwitchedOffPowerSwitch)
            } else if bytes_eq(v.as_slice(), vstd::array::array_index_get(&lits, 3).as_slice()) {
                Ok(OffReason::SwitchedOffDMR)
            } else if bytes_eq(v.as_slice(), vstd::array::array_index_get(&lits, 4).as_slice()) {
                Ok(OffReason::RemoteInput)
            } else if bytes_eq(v.as_slice(), vstd::array::array_index_get(&lits, 5).as_slice()) {
                Ok(OffReason::ProtectionActive)
            } else if bytes_eq(v.as_slice(), vstd::array::array_index_get(&lits, 6).as_slice()) {
                Ok(OffReason::Paygo)
            } else if bytes_eq(v.as_slice(), vstd::array::array_index_get(&lits, 7).as_slice()) {
                Ok(OffReason::BMS)
            } else if bytes_eq(v.as_slice(), vstd::array::array_index_get(&lits, 8).as_slice()) {
                Ok(OffReason::EngineShutdownDetection)
            } else if bytes_eq(v.as_slice(), vstd::array::array_index_get(&lits, 9).as_slice()) {
                Ok(OffReason::AnalysingInputVoltage)
            } else {
                Err(VEError::UnknownCode(vstd::slice::slice_to_vec(v.as_slice())))
            }
        },
    }
}

pub open spec fn label_v() -> Seq<u8> {
    seq![86u8]
}

pub open spec fn label_p() -> Seq<u8> {
    seq![80u8]
}

pub open spec fn label_ce() -> Seq<u8> {
    seq![67u8, 69u8]
}

pub open spec fn label_soc() -> Seq<u8> {
    seq![83u8, 79u8, 67u8]
}

pub open spec fn label_ttg() -> Seq<u8> {
    seq![84u8, 84u8, 71u8]
}

pub open spec fn label_vpv() -> Seq<u8> {
    seq![86u8, 80u8, 86u8]
}

pub open spec fn label_ppv() -> Seq<u8> {
    seq![80u8, 80u8, 86u8]
}

pub open spec fn label_i() -> Seq<u8> {
    seq![73u8]
}

pub open spec fn label_il() -> Seq<u8> {
    seq![73u8, 76u8]
}

pub open spec fn label_load() -> Seq<u8> {
    seq![76u8, 79u8, 65u8, 68u8]
}

pub open spec fn label_relay() -> Seq<u8> {
    seq![82u8, 101u8, 108u8, 97u8, 121u8]
}

pub open spec fn label_or() -> Seq<u8> {
    seq![79u8, 82u8]
}

pub open spec fn label_h19() -> Seq<u8> {
    seq![72u8, 49u8, 57u8]
}

pub open spec fn label_h20() -> Seq<u8> {
    seq![72u8, 50u8, 48u8]
}

pub open spec fn label_h21() -> Seq<u8> {
    seq![72u8, 50u8, 49u8]
}

pub open spec fn label_h22() -> Seq<u8> {
    seq![72u8, 50u8, 50u8]
}

pub open spec fn label_h23() -> Seq<u8> {
    seq![72u8, 50u8, 51u8]
}

pub open spec fn label_err() -> Seq<u8> {
    seq![69u8, 82u8, 82u8]
}

pub open spec fn label_cs() -> Seq<u8> {
    seq![67u8, 83u8]
}

pub open spec fn label_fw() -> Seq<u8> {
    seq![70u8, 87u8]
}

pub open spec fn label_pid() -> Seq<u8> {
    seq![80u8, 73u8, 68u8]
}

pub open spec fn label_ser() -> Seq<u8> {
    seq![83u8, 69u8, 82u8, 35u8]
}

pub open spec fn label_hsds() -> Seq<u8> {
    seq![72u8, 83u8, 68u8, 83u8]
}

pub open spec fn label_mppt() -> Seq<u8> {
    seq![77u8, 80u8, 80u8, 84u8]
}

/// A typed record that a block's field map can be converted into.
pub trait VEDirectData: Sized {
    /// Builds the record from one block's fields, or says which
    /// required label was absent or which value failed to convert.
    fn fill(fields: &FieldMap) -> Result<Self, VEError>;
}

/// Data for the BMV 700 battery monitor series.
#[derive(Debug, PartialEq)]
pub struct Bmv700 {
    /// Main (channel 1) battery voltage, labelled `V`, in tenths of a
    /// volt as sent.
    pub voltage: i32,
    /// Instantaneous power, labelled `P`, in watts.
    pub power: i32,
    /// Consumed charge, labelled `CE`, as raw bytes (in milliampere
    /// hours, or `---` while the monitor is not synchronised).
    pub consumed: Option<Vec<u8>>,
    /// State of charge, labelled `SOC`, in tenths of a percent; absent
    /// while the monitor is not synchronised (`---`).
    pub soc: Option<i32>,
    /// Time to go, labelled `TTG`, in minutes; `-1` when not
    /// discharging.
    pub ttg: i32,
}

/// The first failure, in lookup order, of building a [`Bmv700`].
pub open spec fn bmv700_issue(f: Map<Seq<u8>, Seq<u8>>) -> Option<FieldIssue> {
    if int_field_issue(f, label_v()) is Some {
        int_field_issue(f, label_v())
    } else if int_field_issue(f, label_p()) is Some {
        int_field_issue(f, label_p())
    } else if str_field_issue(f, label_ce()) is Some {
        str_field_issue(f, label_ce())
    } else if crate::utils::pct_field_issue(f, label_soc()) is Some {
        crate::utils::pct_field_issue(f, label_soc())
    } else if int_field_issue(f, label_ttg()) is Some {
        int_field_issue(f, label_ttg())
    } else {
        None
    }
}

impl Bmv700 {
    /// Builds the record from one block's fields; fails on the first
    /// field, in lookup order, that is absent or malformed.
    pub fn from_fields(fields: &FieldMap) -> (r: Result<Bmv700, VEError>)
        ensures
            match r {
                Ok(b) => bmv700_issue(fields@) is None && b.voltage as int == int_field_val(
                    fields@,
                    label_v(),
                ) && b.power as int == int_field_val(fields@, label_p()) && (b.consumed matches Some(
                    c,
                ) && c@ == fields@[label_ce()]) && ((b.soc is None) == (fields@[label_soc()]
                    == dashes())) && (b.soc matches Some(x) ==> x as int == int_field_val(
                    fields@,
                    label_soc(),
                )) && b.ttg as int == int_field_val(fields@, label_ttg()),
                Err(e) => bmv700_issue(fields@) matches Some(k) && reports(e, k),
            },
    {
        let l_v: [u8; 1] = [86];
        let l_p: [u8; 1] = [80];
        let l_ce: [u8; 2] = [67, 69];
        let l_soc: [u8; 3] = [83, 79, 67];
        let l_ttg: [u8; 3] = [84, 84, 71];
        proof {
            assert(l_v@ =~= label_v());
            assert(l_p@ =~= label_p());
            assert(l_ce@ =~= label_ce());
            assert(l_soc@ =~= label_soc());
            assert(l_ttg@ =~= label_ttg());
        }
        let voltage = convert_watt(fields, l_v.as_slice())?;
        let power = convert_watt(fields, l_p.as_slice())?;
        let consumed = convert_string(fields, l_ce.as_slice())?;
        let soc = convert_percentage(fields, l_soc.as_slice())?;
        let ttg = convert_ttg(fields, l_ttg.as_slice())?;
        Ok(Bmv700 { voltage, power, consumed: Some(consumed), soc, ttg })
    }
}

impl VEDirectData for Bmv700 {
    fn fill(fields: &FieldMap) -> Result<Bmv700, VEError> {
        Bmv700::from_fields(fields)
    }
}

/// Data for the MPPT solar charge controllers.
#[derive(Debug, PartialEq)]
pub struct MPPT {
    /// Main battery voltage, labelled `V`, in millivolts.
    pub channel1_voltage: i32,
    /// Panel voltage, labelled `VPV`, in millivolts.
    pub panel_voltage: i32,
    /// Panel power, labelled `PPV`, in watts.
    pub panel_power: i32,
    /// Battery current, labelled `I`, in milliamperes.
    pub battery_current: i32,
    /// Load current, labelled `IL`, in milliamperes.
    pub load_current: i32,
    /// Whether the load output is on, labelled `LOAD`.
    pub load_output_state: bool,
    /// Whether the relay is on, labelled `Relay`; absent on models
    /// without one.
    pub relay_state: Option<bool>,
    /// Why the output is off, labelled `OR`.
    pub off_reason: OffReason,
    /// Total yield, labelled `H19`, in hundredths of a kilowatt hour.
    pub yield_total: i32,
    /// Yield today, labelled `H20`, in hundredths of a kilowatt hour.
    pub yield_today: i32,
    /// Maximum power today, labelled `H21`, in watts.
    pub max_power_today: i32,
    /// Yield yesterday, labelled `H22`, in hundredths of a kilowatt
    /// hour.
    pub yield_yesterday: i32,
    /// Maximum power yesterday, labelled `H23`, in watts.
    pub max_power_yesterday: i32,
    /// The error code, labelled `ERR`.
    pub error_code: ErrorCode,
    /// The state of operation, labelled `CS`.
    pub state_of_operation: StateOfOperation,
    /// The firmware version as reported, labelled `FW`.
    pub firmware: u16,
    /// The product identifier, labelled `PID`, as raw bytes.
    pub product_id: Vec<u8>,
    /// The serial number, labelled `SER#`, as raw bytes.
    pub serial_number: Vec<u8>,
    /// The day sequence number, labelled `HSDS`.
    pub day_sequence: u16,
    /// What the tracker is doing, labelled `MPPT`.
    pub tracker_mode: TrackerOperationMode,
}

/// The first failure, in lookup order, of building an [`MPPT`].
pub open spec fn mppt_issue(f: Map<Seq<u8>, Seq<u8>>) -> Option<FieldIssue> {
    if int_field_issue(f, label_v()) is Some {
        int_field_issue(f, label_v())
    } else if int_field_issue(f, label_vpv()) is Some {
        int_field_issue(f, label_vpv())
    } else if int_field_issue(f, label_ppv()) is Some {
        int_field_issue(f, label_ppv())
    } else if int_field_issue(f, label_i()) is Some {
        int_field_issue(f, label_i())
    } else if int_field_issue(f, label_il()) is Some {
        int_field_issue(f, label_il())
    } else if bool_field_issue(f, label_load()) is Some {
        bool_field_issue(f, label_load())
    } else if relay_field_issue(f, label_relay()) is Some {
        relay_field_issue(f, label_relay())
    } else if or_field_issue(f, label_or()) is Some {
        or_field_issue(f, label_or())
    } else if int_field_issue(f, label_h19()) is Some {
        int_field_issue(f, label_h19())
    } else if int_field_issue(f, label_h20()) is Some {
        int_field_issue(f, label_h20())
    } else if int_field_issue(f, label_h21()) is Some {
        int_field_issue(f, label_h21())
    } else if int_field_issue(f, label_h22()) is Some {
        int_field_issue(f, label_h22())
    } else if int_field_issue(f, label_h23()) is Some {
        int_field_issue(f, label_h23())
    } else if code_field_issue(f, label_err()) is Some {
        code_field_issue(f, label_err())
    } else if code_field_issue(f, label_cs()) is Some {
        code_field_issue(f, label_cs())
    } else if u16_field_issue(f, label_fw()) is Some {
        u16_field_issue(f, label_fw())
    } else if str_field_issue(f, label_pid()) is Some {
        str_field_issue(f, label_pid())
    } else if str_field_issue(f, label_ser()) is Some {
        str_field_issue(f, label_ser())
    } else if u16_field_issue(f, label_hsds()) is Some {
        u16_field_issue(f, label_hsds())
    } else if code_field_issue(f, label_mppt()) is Some {
        code_field_issue(f, label_mppt())
    } else {
        None
    }
}

impl MPPT {
    /// Builds the record from one block's fields; fails on the first
    /// field, in lookup order, that is absent or malformed.
    pub fn from_fields(fields: &FieldMap) -> (r: Result<MPPT, VEError>)
        ensures
            match r {
                Ok(b) => mppt_issue(fields@) is None && b.channel1_voltage as int == int_field_val(
                    fields@,
                    label_v(),
                ) && b.panel_voltage as int == int_field_val(fields@, label_vpv())
                    && b.panel_power as int == int_field_val(fields@, label_ppv())
                    && b.battery_current as int == int_field_val(fields@, label_i())
                    && b.load_current as int == int_field_val(fields@, label_il())
                    && b.load_output_state == bool_field_val(fields@, label_load()) && (
                match b.relay_state {
                    Some(x) => fields@.contains_key(label_relay()) && x == bool_field_val(
                        fields@,
                        label_relay(),
                    ),
                    None => !fields@.contains_key(label_relay()),
                }) && off_reason_of(fields@[label_or()]) == Some(b.off_reason)
                    && b.yield_total as int == int_field_val(fields@, label_h19())
                    && b.yield_today as int == int_field_val(fields@, label_h20())
                    && b.max_power_today as int == int_field_val(fields@, label_h21())
                    && b.yield_yesterday as int == int_field_val(fields@, label_h22())
                    && b.max_power_yesterday as int == int_field_val(fields@, label_h23())
                    && b.error_code == error_code_of(uint_field_val(fields@, label_err()))
                    && b.state_of_operation == state_of_operation_of(
                    uint_field_val(fields@, label_cs()),
                ) && b.firmware as int == uint_field_val(fields@, label_fw()) && b.product_id@
                    == fields@[label_pid()] && b.serial_number@ == fields@[label_ser()]
                    && b.day_sequence as int == uint_field_val(fields@, label_hsds())
                    && b.tracker_mode == tracker_mode_of(uint_field_val(fields@, label_mppt())),
                Err(e) => mppt_issue(fields@) matches Some(k) && reports(e, k),
            },
    {
        let l_v: [u8; 1] = [86];
        let l_vpv: [u8; 3] = [86, 80, 86];
        let l_ppv: [u8; 3] = [80, 80, 86];
        let l_i: [u8; 1] = [73];
        let l_il: [u8; 2] = [73, 76];
        let l_load: [u8; 4] = [76, 79, 65, 68];
        let l_relay: [u8; 5] = [82, 101, 108, 97, 121];
        let l_or: [u8; 2] = [79, 82];
        let l_h19: [u8; 3] = [72, 49, 57];
        let l_h20: [u8; 3] = [72, 50, 48];
        let l_h21: [u8; 3] = [72, 50, 49];
        let l_h22: [u8; 3] = [72, 50, 50];
        let l_h23: [u8; 3] = [72, 50, 51];
        let l_err: [u8; 3] = [69, 82, 82];
        let l_cs: [u8; 2] = [67, 83];
        let l_fw: [u8; 2] = [70, 87];
        let l_pid: [u8; 3] = [80, 73, 68];
        let l_ser: [u8; 4] = [83, 69, 82, 35];
        let l_hsds: [u8; 4] = [72, 83, 68, 83];
        let l_mppt: [u8; 4] = [77, 80, 80, 84];
        proof {
            assert(l_v@ =~= label_v());
            assert(l_vpv@ =~= label_vpv());
            assert(l_ppv@ =~= label_ppv());
            assert(l_i@ =~= label_i());
            assert(l_il@ =~= label_il());
            assert(l_load@ =~= label_load());
            assert(l_relay@ =~= label_relay());
            assert(l_or@ =~= label_or());
            assert(l_h19@ =~= label_h19());
            assert(l_h20@ =~= label_h20());
            assert(l_h21@ =~= label_h21());
            assert(l_h22@ =~= label_h22());
            assert(l_h23@ =~= label_h23());
            assert(l_err@ =~= label_err());
            assert(l_cs@ =~= label_cs());
            assert(l_fw@ =~= label_fw());
            assert(l_pid@ =~= label_pid());
            assert(l_ser@ =~= label_ser());
            assert(l_hsds@ =~= label_hsds());
            assert(l_mppt@ =~= label_mppt());
        }
        let channel1_voltage = convert_watt(fields, l_v.as_slice())?;
        let panel_voltage = convert_watt(fields, l_vpv.as_slice())?;
        let panel_power = convert_watt(fields, l_ppv.as_slice())?;
        let battery_current = convert_watt(fields, l_i.as_slice())?;
        let load_current = convert_watt(fields, l_il.as_slice())?;
        let load_output_state = convert_bool(fields, l_load.as_slice())?;
        let relay_state = if fields.contains(l_relay.as_slice()) {
            Some(convert_bool(fields, l_relay.as_slice())?)
        } else {
            None
        };
        let off_reason = convert_off_reason(fields, l_or.as_slice())?;
        let yield_total = convert_watt(fields, l_h19.as_slice())?;
        let yield_today = convert_watt(fields, l_h20.as_slice())?;
        let max_power_today = convert_watt(fields, l_h21.as_slice())?;
        let yield_yesterday = convert_watt(fields, l_h22.as_slice())?;
        let max_power_yesterday = convert_watt(fields, l_h23.as_slice())?;
        let error_code = convert_error_code(fields, l_err.as_slice())?;
        let state_of_operation = convert_state_of_operation(fields, l_cs.as_slice())?;
        let firmware = convert_u16(fields, l_fw.as_slice())?;
        let product_id = convert_string(fields, l_pid.as_slice())?;
        let serial_number = convert_string(fields, l_ser.as_slice())?;
        let day_sequence = convert_u16(fields, l_hsds.as_slice())?;
        let tracker_mode = convert_tracker_mode(fields, l_mppt.as_slice())?;
        Ok(
            MPPT {
                channel1_voltage,
                panel_voltage,
                panel_power,
                battery_current,
                load_current,
                load_output_state,
                relay_state,
                off_reason,
                yield_total,
                yield_today,
                max_power_today,
                yield_yesterday,
                max_power_yesterday,
                error_code,
                state_of_operation,
                firmware,
                product_id,
                serial_number,
                day_sequence,
                tracker_mode,
            },
        )
    }
}

impl VEDirectData for MPPT {
    fn fill(fields: &FieldMap) -> Result<MPPT, VEError> {
        MPPT::from_fields(fields)
    }
}

} // verus!
