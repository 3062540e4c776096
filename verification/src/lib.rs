//! Parser for the Victron Energy "VE.Direct" text protocol.
//!
//! The protocol is a line-oriented frame format: each frame is a run of
//! `\r\n`-led label/value lines closed by a `Checksum` line whose single
//! byte makes the whole frame sum to zero modulo 256.  The crate offers a
//! checksum engine, an incremental frame parser and a streaming assembler
//! that turns arbitrarily chunked input into validated, typed records.

use vstd::prelude::*;

pub mod checksum;
pub mod constants;
pub mod data;
pub mod fields;
pub mod firmware_version;
pub mod laws;
pub mod parser;
pub mod serial_number;
pub mod text;
pub mod utils;

pub use constants::AlarmReason;
pub use constants::ChargeState;
pub use constants::DeviceMode;
pub use constants::VictronProductId;
pub use constants::get_name;
pub use data::Bmv700;
pub use data::ErrorCode;
pub use data::MPPT;
pub use data::OffReason;
pub use data::StateOfOperation;
pub use data::TrackerOperationMode;
pub use data::VEDirectData;
pub use fields::FieldMap;
pub use firmware_version::FirmwareVersion;
pub use firmware_version::VersionType;
pub use parser::Events;
pub use parser::Parser;
pub use parser::VEField;
pub use serial_number::SerialNumber;

verus! {

/// Errors surfaced by the parser and the field converters.
#[derive(Debug)]
pub enum VEError {
    /// General parsing errors; carries a short description.
    Parse(String),
    /// A non-fatal outcome: the parser was fed a chunk that stops in the
    /// middle of a line and needs more bytes to continue.
    NeedMoreData,
    /// A structurally complete frame whose bytes do not sum to zero.
    ChecksumError,
    /// A required field (identified by its raw label) was absent.
    MissingField(Vec<u8>),
    /// A field that must read `ON` or `OFF` held something else.
    OnOffExpected(Vec<u8>),
    /// A coded field held a code outside the known range.
    UnknownCode(Vec<u8>),
}

impl VEError {
    /// A short description of the error, one line per variant.
    pub fn describe(&self) -> (r: String)
        ensures
            match self {
                VEError::Parse(m) => r@ == "error parsing data: "@ + m@,
                VEError::NeedMoreData => r@ == "Need more data to parse successfully"@,
                VEError::ChecksumError => r@ == "checksum did not match received data"@,
                VEError::MissingField(_) => r@ == "missing field from received data"@,
                VEError::OnOffExpected(_) => r@ == "ON or OFF value expected"@,
                VEError::UnknownCode(_) => r@ == "Unknown enum code"@,
            },
    {
        match self {
            VEError::Parse(m) => {
                let mut r = String::from_str("error parsing data: ");
                r.append(m.as_str());
                r
            },
            VEError::NeedMoreData => "Need more data to parse successfully".to_owned(),
            VEError::ChecksumError => "checksum did not match received data".to_owned(),
            VEError::MissingField(_) => "missing field from received data".to_owned(),
            VEError::OnOffExpected(_) => "ON or OFF value expected".to_owned(),
            VEError::UnknownCode(_) => "Unknown enum code".to_owned(),
        }
    }
}

} // verus!
