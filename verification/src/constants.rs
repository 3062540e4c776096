//! Product identities and device-state code tables.

use vstd::prelude::*;

use crate::VEError;
use crate::fields::FieldMap;
use crate::text::hex_val;
use crate::text::is_hex_num;
use crate::text::parse_hex_u32;
use crate::text::strip_0x;

verus! {

/// The `AR` field's alarm reasons (bit values on the wire).
#[derive(Debug, PartialEq, Eq, Structural, Clone, Copy)]
pub enum AlarmReason {
    LowVoltage,
    HighVoltage,
    LowSOC,
    LowStarterVoltage,
    HighStarterVoltage,
    LowTemperature,
    HighTemperature,
    MidVoltage,
    Overload,
    DCRipple,
    LowVACout,
    HighVACout,
}

/// The alarm-reason bit table.
pub open spec fn alarm_reason_of(n: int) -> Option<AlarmReason> {
    if n == 1 {
        Some(AlarmReason::LowVoltage)
    } else if n == 2 {
        Some(AlarmReason::HighVoltage)
    } else if n == 4 {
        Some(AlarmReason::LowSOC)
    } else if n == 8 {
        Some(AlarmReason::LowStarterVoltage)
    } else if n == 16 {
        Some(AlarmReason::HighStarterVoltage)
    } else if n == 32 {
        Some(AlarmReason::LowTemperature)
    } else if n == 64 {
        Some(AlarmReason::HighTemperature)
    } else if n == 128 {
        Some(AlarmReason::MidVoltage)
    } else if n == 256 {
        Some(AlarmReason::Overload)
    } else if n == 512 {
        Some(AlarmReason::DCRipple)
    } else if n == 1024 {
        Some(AlarmReason::LowVACout)
    } else if n == 2048 {
        Some(AlarmReason::HighVACout)
    } else {
        None
    }
}

impl AlarmReason {
    /// Looks an alarm-reason bit up.
    pub fn from_code(n: u32) -> (r: Option<AlarmReason>)
        ensures
            r == alarm_reason_of(n as int),
    {
        if n == 1 {
            Some(AlarmReason::LowVoltage)
        } else if n == 2 {
            Some(AlarmReason::HighVoltage)
        } else if n == 4 {
            Some(AlarmReason::LowSOC)
        } else if n == 8 {
            Some(AlarmReason::LowStarterVoltage)
        } else if n == 16 {
            Some(AlarmReason::HighStarterVoltage)
        } else if n == 32 {
            Some(AlarmReason::LowTemperature)
        } else if n == 64 {
            Some(AlarmReason::HighTemperature)
        } else if n == 128 {
            Some(AlarmReason::MidVoltage)
        } else if n == 256 {
            Some(AlarmReason::Overload)
        } else if n == 512 {
            Some(AlarmReason::DCRipple)
        } else if n == 1024 {
            Some(AlarmReason::LowVACout)
        } else if n == 2048 {
            Some(AlarmReason::HighVACout)
        } else {
            None
        }
    }
}

/// The `MODE` register's device modes.
#[allow(non_camel_case_types)]
#[derive(Debug, PartialEq, Eq, Structural, Clone, Copy)]
pub enum DeviceMode {
    VE_REG_MODE_INVERTER,
    VE_REG_MODE_OFF,
    VE_REG_MODE_ECO,
}

/// The device-mode code table.
pub open spec fn device_mode_of(n: int) -> Option<DeviceMode> {
    if n == 2 {
        Some(DeviceMode::VE_REG_MODE_INVERTER)
    } else if n == 4 {
        Some(DeviceMode::VE_REG_MODE_OFF)
    } else if n == 5 {
        Some(DeviceMode::VE_REG_MODE_ECO)
    } else {
        None
    }
}

impl DeviceMode {
    /// Looks a device-mode code up.
    pub fn from_code(n: u32) -> (r: Option<DeviceMode>)
        ensures
            r == device_mode_of(n as int),
    {
        if n == 2 {
            Some(DeviceMode::VE_REG_MODE_INVERTER)
        } else if n == 4 {
            Some(DeviceMode::VE_REG_MODE_OFF)
        } else if n == 5 {
            Some(DeviceMode::VE_REG_MODE_ECO)
        } else {
            None
        }
    }
}

/// The charger's state, as the `CS` field reports it on chargers.
#[derive(Debug, PartialEq, Eq, Structural, Clone, Copy)]
pub enum ChargeState {
    Off,
    LowPower,
    Fault,
    Bulk,
    Absorption,
    Float,
    Inverting,
}

/// The charge-state code table.
pub open spec fn charge_state_of(n: int) -> Option<ChargeState> {
    if n == 0 {
        Some(ChargeState::Off)
    } else if n == 1 {
        Some(ChargeState::LowPower)
    } else if n == 2 {
        Some(ChargeState::Fault)
    } else if n == 3 {
        Some(ChargeState::Bulk)
    } else if n == 4 {
        Some(ChargeState::Absorption)
    } else if n == 5 {
        Some(ChargeState::Float)
    } else if n == 9 {
        Some(ChargeState::Inverting)
    } else {
        None
    }
}

impl ChargeState {
    /// Looks a charge-state code up.
    pub fn from_code(n: u32) -> (r: Option<ChargeState>)
        ensures
            r == charge_state_of(n as int),
    {
        if n == 0 {
            Some(ChargeState::Off)
        } else if n == 1 {
            Some(ChargeState::LowPower)
        } else if n == 2 {
            Some(ChargeState::Fault)
        } else if n == 3 {
            Some(ChargeState::Bulk)
        } else if n == 4 {
            Some(ChargeState::Absorption)
        } else if n == 5 {
            Some(ChargeState::Float)
        } else if n == 9 {
            Some(ChargeState::Inverting)
        } else {
            None
        }
    }
}

/// The product identifiers reported through the `PID` field.
#[allow(non_camel_case_types)]
#[derive(Debug, PartialEq, Eq, Structural, Clone, Copy)]
pub enum VictronProductId {
    BMV700,
    BMV702,
    BMV700H,
    BlueSolar_MPPT_75_10,
    BlueSolar_MPPT_150_100,
    BlueSolar_MPPT_70_15,
    BlueSolar_MPPT_75_15,
    BlueSolar_MPPT_100_15,
    BlueSolar_MPPT_100_30_rev1,
    BlueSolar_MPPT_100_30_rev2,
    BlueSolar_MPPT_150_35_rev1,
    BlueSolar_MPPT_150_35_rev2,
    BlueSolar_MPPT_150_45,
    BlueSolar_MPPT_150_60,
    BlueSolar_MPPT_150_70,
    BlueSolar_MPPT_150_85,
    BlueSolar_MPPT_75_50,
    BlueSolar_MPPT_100_50_rev1,
    BlueSolar_MPPT_100_50_rev2,
    SmartSolar_MPPT_150_100,
    SmartSolar_MPPT_250_100,
    Phoenix_Inverter_12V_250VA_230V,
    Phoenix_Inverter_24V_250VA_230V,
    Phoenix_Inverter_48V_250VA_230V,
    Phoenix_Inverter_12V_375VA_230V,
    Phoenix_Inverter_24V_375VA_230V,
    Phoenix_Inverter_48V_375VA_230V,
    Phoenix_Inverter_12V_500VA_230V,
    Phoenix_Inverter_24V_500VA_230V,
    Phoenix_Inverter_48V_500VA_230V,
}

/// The product-identifier code table.
pub open spec fn product_id_of(n: int) -> Option<VictronProductId> {
    if n == 0x203 {
        Some(VictronProductId::BMV700)
    } else if n == 0x204 {
        Some(VictronProductId::BMV702)
    } else if n == 0x205 {
        Some(VictronProductId::BMV700H)
    } else if n == 0xA04C {
        Some(VictronProductId::BlueSolar_MPPT_75_10)
    } else if n == 0xA047 {
        Some(VictronProductId::BlueSolar_MPPT_150_100)
    } else if n == 0x300 {
        Some(VictronProductId::BlueSolar_MPPT_70_15)
    } else if n == 0xA042 {
        Some(VictronProductId::BlueSolar_MPPT_75_15)
    } else if n == 0xA043 {
        Some(VictronProductId::BlueSolar_MPPT_100_15)
    } else if n == 0xA044 {
        Some(VictronProductId::BlueSolar_MPPT_100_30_rev1)
    } else if n == 0xA04A {
        Some(VictronProductId::BlueSolar_MPPT_100_30_rev2)
    } else if n == 0xA041 {
        Some(VictronProductId::BlueSolar_MPPT_150_35_rev1)
    } else if n == 0xA04B {
        Some(VictronProductId::BlueSolar_MPPT_150_35_rev2)
    } else if n == 0xA04D {
        Some(VictronProductId::BlueSolar_MPPT_150_45)
    } else if n == 0xA04E {
        Some(VictronProductId::BlueSolar_MPPT_150_60)
    } else if n == 0xA046 {
        Some(VictronProductId::BlueSolar_MPPT_150_70)
    } else if n == 0xA04F {
        Some(VictronProductId::BlueSolar_MPPT_150_85)
    } else if n == 0xA040 {
        Some(VictronProductId::BlueSolar_MPPT_75_50)
    } else if n == 0xA045 {
        Some(VictronProductId::BlueSolar_MPPT_100_50_rev1)
    } else if n == 0xA049 {
        Some(VictronProductId::BlueSolar_MPPT_100_50_rev2)
    } else if n == 0xA051 {
        Some(VictronProductId::SmartSolar_MPPT_150_100)
    } else if n == 0xA050 {
        Some(VictronProductId::SmartSolar_MPPT_250_100)
    } else if n == 0xA201 {
        Some(VictronProductId::Phoenix_Inverter_12V_250VA_230V)
    } else if n == 0xA202 {
        Some(VictronProductId::Phoenix_Inverter_24V_250VA_230V)
    } else if n == 0xA204 {
        Some(VictronProductId::Phoenix_Inverter_48V_250VA_230V)
    } else if n == 0xA211 {
        Some(VictronProductId::Phoenix_Inverter_12V_375VA_230V)
    } else if n == 0xA212 {
        Some(VictronProductId::Phoenix_Inverter_24V_375VA_230V)
    } else if n == 0xA214 {
        Some(VictronProductId::Phoenix_Inverter_48V_375VA_230V)
    } else if n == 0xA221 {
        Some(VictronProductId::Phoenix_Inverter_12V_500VA_230V)
    } else if n == 0xA222 {
        Some(VictronProductId::Phoenix_Inverter_24V_500VA_230V)
    } else if n == 0xA224 {
        Some(VictronProductId::Phoenix_Inverter_48V_500VA_230V)
    } else {
        None
    }
}

impl VictronProductId {
    /// Looks a product-identifier code up.
    pub fn from_code(n: u32) -> (r: Option<VictronProductId>)
        ensures
            r == product_id_of(n as int),
    {
        if n == 0x203 {
            Some(VictronProductId::BMV700)
        } else if n == 0x204 {
            Some(VictronProductId::BMV702)
        } else if n == 0x205 {
            Some(VictronProductId::BMV700H)
        } else if n == 0xA04C {
            Some(VictronProductId::BlueSolar_MPPT_75_10)
        } else if n == 0xA047 {
            Some(VictronProductId::BlueSolar_MPPT_150_100)
        } else if n == 0x300 {
            Some(VictronProductId::BlueSolar_MPPT_70_15)
        } else if n == 0xA042 {
            Some(VictronProductId::BlueSolar_MPPT_75_15)
        } else if n == 0xA043 {
            Some(VictronProductId::BlueSolar_MPPT_100_15)
        } else if n == 0xA044 {
            Some(VictronProductId::BlueSolar_MPPT_100_30_rev1)
        } else if n == 0xA04A {
            Some(VictronProductId::BlueSolar_MPPT_100_30_rev2)
        } else if n == 0xA041 {
            Some(VictronProductId::BlueSolar_MPPT_150_35_rev1)
        } else if n == 0xA04B {
            Some(VictronProductId::BlueSolar_MPPT_150_35_rev2)
        } else if n == 0xA04D {
            Some(VictronProductId::BlueSolar_MPPT_150_45)
        } else if n == 0xA04E {
            Some(VictronProductId::BlueSolar_MPPT_150_60)
        } else if n == 0xA046 {
            Some(VictronProductId::BlueSolar_MPPT_150_70)
        } else if n == 0xA04F {
            Some(VictronProductId::BlueSolar_MPPT_150_85)
        } else if n == 0xA040 {
            Some(VictronProductId::BlueSolar_MPPT_75_50)
        } else if n == 0xA045 {
            Some(VictronProductId::BlueSolar_MPPT_100_50_rev1)
        } else if n == 0xA049 {
            Some(VictronProductId::BlueSolar_MPPT_100_50_rev2)
        } else if n == 0xA051 {
            Some(VictronProductId::SmartSolar_MPPT_150_100)
        } else if n == 0xA050 {
            Some(VictronProductId::SmartSolar_MPPT_250_100)
        } else if n == 0xA201 {
            Some(VictronProductId::Phoenix_Inverter_12V_250VA_230V)
        } else if n == 0xA202 {
            Some(VictronProductId::Phoenix_Inverter_24V_250VA_230V)
        } else if n == 0xA204 {
            Some(VictronProductId::Phoenix_Inverter_48V_250VA_230V)
        } else if n == 0xA211 {
            Some(VictronProductId::Phoenix_Inverter_12V_375VA_230V)
        } else if n == 0xA212 {
            Some(VictronProductId::Phoenix_Inverter_24V_375VA_230V)
        } else if n == 0xA214 {
            Some(VictronProductId::Phoenix_Inverter_48V_375VA_230V)
        } else if n == 0xA221 {
            Some(VictronProductId::Phoenix_Inverter_12V_500VA_230V)
        } else if n == 0xA222 {
            Some(VictronProductId::Phoenix_Inverter_24V_500VA_230V)
        } else if n == 0xA224 {
            Some(VictronProductId::Phoenix_Inverter_48V_500VA_230V)
        } else {
            None
        }
    }
}

/// The failure, if any, of reading `l` as a product identifier in
/// hexadecimal (a leading `0x` is dropped).
pub open spec fn pid_field_issue(f: Map<Seq<u8>, Seq<u8>>, l: Seq<u8>) -> Option<
    crate::utils::FieldIssue,
> {
    if !f.contains_key(l) {
        Some(crate::utils::FieldIssue::Missing(l))
    } else if !(is_hex_num(strip_0x(f[l])) && hex_val(strip_0x(f[l])) <= u32::MAX
        && product_id_of(hex_val(strip_0x(f[l]))) is Some) {
        Some(crate::utils::FieldIssue::BadValue(l))
    } else {
        None
    }
}

/// Reads `label` as a hexadecimal product identifier, such as
/// `0xA042`, and looks it up in the product table.
pub fn convert_product_id(fields: &FieldMap, label: &[u8]) -> (r: Result<
    VictronProductId,
    VEError,
>)
    ensures
        match r {
            Ok(v) => pid_field_issue(fields@, label@) is None && Some(v) == product_id_of(
                hex_val(strip_0x(fields@[label@])),
            ),
            Err(e) => pid_field_issue(fields@, label@) matches Some(k) && crate::utils::reports(
                e,
                k,
            ),
        },
{
    match fields.get(label) {
        None => Err(VEError::MissingField(vstd::slice::slice_to_vec(label))),
        Some(v) => {
            let digits = crate::text::drop_0x(v.as_slice());
            match parse_hex_u32(digits) {
                Some(n) => match VictronProductId::from_code(n) {
                    Some(pid) => Ok(pid),
                    None => Err(
                        VEError::Parse("the code names no known product".to_owned()),
                    ),
                },
                None => Err(
                    VEError::Parse("value is not a hexadecimal number in range".to_owned()),
                ),
            }
        },
    }
}

/// The device name behind a product identifier.
pub open spec fn name_of(pid: VictronProductId) -> Seq<char> {
    match pid {
        VictronProductId::BMV700 => "BMV-700"@,
        VictronProductId::BMV702 => "BMV-702"@,
        VictronProductId::BMV700H => "BMV-700H"@,
        VictronProductId::BlueSolar_MPPT_75_10 => "BlueSolar MPPT 75/10"@,
        VictronProductId::BlueSolar_MPPT_150_100 => "BlueSolar MPPT 150/100"@,
        VictronProductId::BlueSolar_MPPT_70_15 => "BlueSolar MPPT 70/15"@,
        VictronProductId::BlueSolar_MPPT_75_15 => "BlueSolar MPPT 75/15"@,
        VictronProductId::BlueSolar_MPPT_100_15 => "BlueSolar MPPT 100/15"@,
        VictronProductId::BlueSolar_MPPT_100_30_rev1 => "BlueSolar MPPT 100/30 rev1"@,
        VictronProductId::BlueSolar_MPPT_100_30_rev2 => "BlueSolar MPPT 100/30 rev2"@,
        VictronProductId::BlueSolar_MPPT_150_35_rev1 => "BlueSolar MPPT 150/35 rev1"@,
        VictronProductId::BlueSolar_MPPT_150_35_rev2 => "BlueSolar MPPT 150/35 rev2"@,
        VictronProductId::BlueSolar_MPPT_150_45 => "BlueSolar MPPT 150/45"@,
        VictronProductId::BlueSolar_MPPT_150_60 => "BlueSolar MPPT 150/60"@,
        VictronProductId::BlueSolar_MPPT_150_70 => "BlueSolar MPPT 150/70"@,
        VictronProductId::BlueSolar_MPPT_150_85 => "BlueSolar MPPT 150/85"@,
        VictronProductId::BlueSolar_MPPT_75_50 => "BlueSolar MPPT 75/50"@,
        VictronProductId::BlueSolar_MPPT_100_50_rev1 => "BlueSolar MPPT 100/50 rev1"@,
        VictronProductId::BlueSolar_MPPT_100_50_rev2 => "BlueSolar MPPT 100/50 rev2"@,
        VictronProductId::SmartSolar_MPPT_150_100 => "SmartSolar MPPT 150/100"@,
        VictronProductId::SmartSolar_MPPT_250_100 => "SmartSolar MPPT 250/100"@,
        VictronProductId::Phoenix_Inverter_12V_250VA_230V => "Phoenix Inverter 12V 250VA 230V"@,
        VictronProductId::Phoenix_Inverter_24V_250VA_230V => "Phoenix Inverter 24V 250VA 230V"@,
        VictronProductId::Phoenix_Inverter_48V_250VA_230V => "Phoenix Inverter 48V 250VA 230V"@,
        VictronProductId::Phoenix_Inverter_12V_375VA_230V => "Phoenix Inverter 12V 375VA 230V"@,
        VictronProductId::Phoenix_Inverter_24V_375VA_230V => "Phoenix Inverter 24V 375VA 230V"@,
        VictronProductId::Phoenix_Inverter_48V_375VA_230V => "Phoenix Inverter 48V 375VA 230V"@,
        VictronProductId::Phoenix_Inverter_12V_500VA_230V => "Phoenix Inverter 12V 500VA 230V"@,
        VictronProductId::Phoenix_Inverter_24V_500VA_230V => "Phoenix Inverter 24V 500VA 230V"@,
        VictronProductId::Phoenix_Inverter_48V_500VA_230V => "Phoenix Inverter 48V 500VA 230V"@,
    }
}

/// Returns the name of the device behind a product identifier.
pub fn get_name(pid: VictronProductId) -> (r: String)
    ensures
        r@ == name_of(pid),
{
    match pid {
        VictronProductId::BMV700 => "BMV-700".to_owned(),
        VictronProductId::BMV702 => "BMV-702".to_owned(),
        VictronProductId::BMV700H => "BMV-700H".to_owned(),
        VictronProductId::BlueSolar_MPPT_75_10 => "BlueSolar MPPT 75/10".to_owned(),
        VictronProductId::BlueSolar_MPPT_150_100 => "BlueSolar MPPT 150/100".to_owned(),
        VictronProductId::BlueSolar_MPPT_70_15 => "BlueSolar MPPT 70/15".to_owned(),
        VictronProductId::BlueSolar_MPPT_75_15 => "BlueSolar MPPT 75/15".to_owned(),
        VictronProductId::BlueSolar_MPPT_100_15 => "BlueSolar MPPT 100/15".to_owned(),
        VictronProductId::BlueSolar_MPPT_100_30_rev1 => "BlueSolar MPPT 100/30 rev1".to_owned(),
        VictronProductId::BlueSolar_MPPT_100_30_rev2 => "BlueSolar MPPT 100/30 rev2".to_owned(),
        VictronProductId::BlueSolar_MPPT_150_35_rev1 => "BlueSolar MPPT 150/35 rev1".to_owned(),
        VictronProductId::BlueSolar_MPPT_150_35_rev2 => "BlueSolar MPPT 150/35 rev2".to_owned(),
        VictronProductId::BlueSolar_MPPT_150_45 => "BlueSolar MPPT 150/45".to_owned(),
        VictronProductId::BlueSolar_MPPT_150_60 => "BlueSolar MPPT 150/60".to_owned(),
        VictronProductId::BlueSolar_MPPT_150_70 => "BlueSolar MPPT 150/70".to_owned(),
        VictronProductId::BlueSolar_MPPT_150_85 => "BlueSolar MPPT 150/85".to_owned(),
        VictronProductId::BlueSolar_MPPT_75_50 => "BlueSolar MPPT 75/50".to_owned(),
        VictronProductId::BlueSolar_MPPT_100_50_rev1 => "BlueSolar MPPT 100/50 rev1".to_owned(),
        VictronProductId::BlueSolar_MPPT_100_50_rev2 => "BlueSolar MPPT 100/50 rev2".to_owned(),
        VictronProductId::SmartSolar_MPPT_150_100 => "SmartSolar MPPT 150/100".to_owned(),
        VictronProductId::SmartSolar_MPPT_250_100 => "SmartSolar MPPT 250/100".to_owned(),
        VictronProductId::Phoenix_Inverter_12V_250VA_230V => "Phoenix Inverter 12V 250VA 230V".to_owned(),
        VictronProductId::Phoenix_Inverter_24V_250VA_230V => "Phoenix Inverter 24V 250VA 230V".to_owned(),
        VictronProductId::Phoenix_Inverter_48V_250VA_230V => "Phoenix Inverter 48V 250VA 230V".to_owned(),
        VictronProductId::Phoenix_Inverter_12V_375VA_230V => "Phoenix Inverter 12V 375VA 230V".to_owned(),
        VictronProductId::Phoenix_Inverter_24V_375VA_230V => "Phoenix Inverter 24V 375VA 230V".to_owned(),
        VictronProductId::Phoenix_Inverter_48V_375VA_230V => "Phoenix Inverter 48V 375VA 230V".to_owned(),
        VictronProductId::Phoenix_Inverter_12V_500VA_230V => "Phoenix Inverter 12V 500VA 230V".to_owned(),
        VictronProductId::Phoenix_Inverter_24V_500VA_230V => "Phoenix Inverter 24V 500VA 230V".to_owned(),
        VictronProductId::Phoenix_Inverter_48V_500VA_230V => "Phoenix Inverter 48V 500VA 230V".to_owned(),
    }
}

} // verus!
