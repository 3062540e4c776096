//! Field converters: from a block's raw label/value map to typed
//! values.
//!
//! Each converter states exactly when it succeeds, which value it
//! returns, and which error reports which failing field.  The spec
//! functions describe the failure, if any, of one field lookup; the
//! record builders in `data` chain them in lookup order.

use vstd::prelude::*;

use crate::VEError;
use crate::fields::FieldMap;
use crate::fields::bytes_eq;
use crate::text::dec_val;
use crate::text::is_signed_dec;
use crate::text::is_unsigned_dec;
use crate::text::parse_i32;
use crate::text::parse_u16;
use crate::text::parse_u32;
use crate::text::signed_dec_val;

verus! {

/// What ails one field of a block.
pub enum FieldIssue {
    /// The label is absent.
    Missing(Seq<u8>),
    /// The label's value does not parse as the expected numeral.
    BadValue(Seq<u8>),
    /// The label's value is neither `ON` nor `OFF`.
    NotOnOff(Seq<u8>),
    /// The label's value is not one of the known codes.
    UnknownCode(Seq<u8>),
}

/// Whether an error value reports the given issue.
pub open spec fn reports(e: VEError, k: FieldIssue) -> bool {
    match k {
        FieldIssue::Missing(l) => e matches VEError::MissingField(lv) && lv@ == l,
        FieldIssue::BadValue(_) => e matches VEError::Parse(_),
        FieldIssue::NotOnOff(v) => e matches VEError::OnOffExpected(b) && b@ == v,
        FieldIssue::UnknownCode(v) => e matches VEError::UnknownCode(b) && b@ == v,
    }
}

/// The value bytes `ON`.
pub open spec fn on_bytes() -> Seq<u8> {
    seq![79u8, 78u8]
}

/// The value bytes `OFF`.
pub open spec fn off_bytes() -> Seq<u8> {
    seq![79u8, 70u8, 70u8]
}

/// The placeholder `---` a monitor sends while unsynchronised.
pub open spec fn dashes() -> Seq<u8> {
    seq![45u8, 45u8, 45u8]
}

/// The failure, if any, of reading `l` as a signed 32-bit numeral.
pub open spec fn int_field_issue(f: Map<Seq<u8>, Seq<u8>>, l: Seq<u8>) -> Option<FieldIssue> {
    if !f.contains_key(l) {
        Some(FieldIssue::Missing(l))
    } else if !(is_signed_dec(f[l]) && i32::MIN <= signed_dec_val(f[l]) <= i32::MAX) {
        Some(FieldIssue::BadValue(l))
    } else {
        None
    }
}

/// The signed value under `l`.
pub open spec fn int_field_val(f: Map<Seq<u8>, Seq<u8>>, l: Seq<u8>) -> int {
    signed_dec_val(f[l])
}

/// The failure, if any, of reading `l` as an unsigned 32-bit numeral.
pub open spec fn u32_field_issue(f: Map<Seq<u8>, Seq<u8>>, l: Seq<u8>) -> Option<FieldIssue> {
    if !f.contains_key(l) {
        Some(FieldIssue::Missing(l))
    } else if !(is_unsigned_dec(f[l]) && dec_val(f[l]) <= u32::MAX) {
        Some(FieldIssue::BadValue(l))
    } else {
        None
    }
}

/// The failure, if any, of reading `l` as an unsigned 16-bit numeral.
pub open spec fn u16_field_issue(f: Map<Seq<u8>, Seq<u8>>, l: Seq<u8>) -> Option<FieldIssue> {
    if !f.contains_key(l) {
        Some(FieldIssue::Missing(l))
    } else if !(is_unsigned_dec(f[l]) && dec_val(f[l]) <= u16::MAX) {
        Some(FieldIssue::BadValue(l))
    } else {
        None
    }
}

/// The unsigned value under `l`.
pub open spec fn uint_field_val(f: Map<Seq<u8>, Seq<u8>>, l: Seq<u8>) -> int {
    dec_val(f[l])
}

/// The failure, if any, of reading `l` as raw bytes.
pub open spec fn str_field_issue(f: Map<Seq<u8>, Seq<u8>>, l: Seq<u8>) -> Option<FieldIssue> {
    if !f.contains_key(l) {
        Some(FieldIssue::Missing(l))
    } else {
        None
    }
}

/// The failure, if any, of reading `l` as an `ON`/`OFF` switch.
pub open spec fn bool_field_issue(f: Map<Seq<u8>, Seq<u8>>, l: Seq<u8>) -> Option<FieldIssue> {
    if !f.contains_key(l) {
        Some(FieldIssue::Missing(l))
    } else if f[l] != on_bytes() && f[l] != off_bytes() {
        Some(FieldIssue::NotOnOff(f[l]))
    } else {
        None
    }
}

/// The switch value under `l`.
pub open spec fn bool_field_val(f: Map<Seq<u8>, Seq<u8>>, l: Seq<u8>) -> bool {
    f[l] == on_bytes()
}

/// The failure, if any, of reading `l` as a percentage: `---` is a
/// value in its own right (the monitor is not synchronised).
pub open spec fn pct_field_issue(f: Map<Seq<u8>, Seq<u8>>, l: Seq<u8>) -> Option<FieldIssue> {
    if !f.contains_key(l) {
        Some(FieldIssue::Missing(l))
    } else if f[l] == dashes() {
        None
    } else if !(is_signed_dec(f[l]) && i32::MIN <= signed_dec_val(f[l]) <= i32::MAX) {
        Some(FieldIssue::BadValue(l))
    } else {
        None
    }
}

/// `ON` occurs somewhere in the bytes.
pub open spec fn contains_on(v: Seq<u8>) -> bool {
    exists|i: int| 0 <= i && i + 2 <= v.len() && #[trigger] v[i] == 79 && v[i + 1] == 78
}

/// Scans for the bytes `ON`.
fn find_on(v: &[u8]) -> (r: bool)
    ensures
        r == contains_on(v@),
{
    let n = v.len();
    if n < 2 {
        return false;
    }
    let mut i: usize = 0;
    while i + 1 < n
        invariant
            i + 1 <= n,
            n == v@.len(),
            forall|j: int| 0 <= j < i ==> !(#[trigger] v@[j] == 79 && v@[j + 1] == 78),
        decreases n - i,
    {
        if *vstd::slice::slice_index_get(v, i) == 79 && *vstd::slice::slice_index_get(v, i + 1)
            == 78 {
            return true;
        }
        i = i + 1;
    }
    false
}

/// Reads `label` as a signed watt (or any signed 32-bit) value.
pub fn convert_watt(fields: &FieldMap, label: &[u8]) -> (r: Result<i32, VEError>)
    ensures
        match r {
            Ok(v) => int_field_issue(fields@, label@) is None && v as int == int_field_val(
                fields@,
                label@,
            ),
            Err(e) => int_field_issue(fields@, label@) matches Some(k) && reports(e, k),
        },
{
    match fields.get(label) {
        None => Err(VEError::MissingField(vstd::slice::slice_to_vec(label))),
        Some(v) => match parse_i32(v.as_slice()) {
            Some(n) => Ok(n),
            None => Err(VEError::Parse("value is not a decimal integer in range".to_owned())),
        },
    }
}

/// Reads `label` as a time-to-go in minutes (`-1` meaning infinite).
pub fn convert_ttg(fields: &FieldMap, label: &[u8]) -> (r: Result<i32, VEError>)
    ensures
        match r {
            Ok(v) => int_field_issue(fields@, label@) is None && v as int == int_field_val(
                fields@,
                label@,
            ),
            Err(e) => int_field_issue(fields@, label@) matches Some(k) && reports(e, k),
        },
{
    convert_watt(fields, label)
}

/// Reads `label` as an unsigned 32-bit numeral.
pub fn convert_u32(fields: &FieldMap, label: &[u8]) -> (r: Result<u32, VEError>)
    ensures
        match r {
            Ok(v) => u32_field_issue(fields@, label@) is None && v as int == uint_field_val(
                fields@,
                label@,
            ),
            Err(e) => u32_field_issue(fields@, label@) matches Some(k) && reports(e, k),
        },
{
    match fields.get(label) {
        None => Err(VEError::MissingField(vstd::slice::slice_to_vec(label))),
        Some(v) => match parse_u32(v.as_slice()) {
            Some(n) => Ok(n),
            None => Err(VEError::Parse("value is not a decimal integer in range".to_owned())),
        },
    }
}

/// Reads `label` as an unsigned 16-bit numeral.
pub fn convert_u16(fields: &FieldMap, label: &[u8]) -> (r: Result<u16, VEError>)
    ensures
        match r {
            Ok(v) => u16_field_issue(fields@, label@) is None && v as int == uint_field_val(
                fields@,
                label@,
            ),
            Err(e) => u16_field_issue(fields@, label@) matches Some(k) && reports(e, k),
        },
{
    match fields.get(label) {
        None => Err(VEError::MissingField(vstd::slice::slice_to_vec(label))),
        Some(v) => match parse_u16(v.as_slice()) {
            Some(n) => Ok(n),
            None => Err(VEError::Parse("value is not a decimal integer in range".to_owned())),
        },
    }
}

/// Reads `label` as its raw bytes.
pub fn convert_string(fields: &FieldMap, label: &[u8]) -> (r: Result<Vec<u8>, VEError>)
    ensures
        match r {
            Ok(v) => str_field_issue(fields@, label@) is None && v@ == fields@[label@],
            Err(e) => str_field_issue(fields@, label@) matches Some(k) && reports(e, k),
        },
{
    match fields.get(label) {
        None => Err(VEError::MissingField(vstd::slice::slice_to_vec(label))),
        Some(v) => Ok(vstd::slice::slice_to_vec(v.as_slice())),
    }
}

/// Reads `label` as an `ON`/`OFF` switch.
pub fn convert_bool(fields: &FieldMap, label: &[u8]) -> (r: Result<bool, VEError>)
    ensures
        match r {
            Ok(v) => bool_field_issue(fields@, label@) is None && v == bool_field_val(
                fields@,
                label@,
            ),
            Err(e) => bool_field_issue(fields@, label@) matches Some(k) && reports(e, k),
        },
{
    match fields.get(label) {
        None => Err(VEError::MissingField(vstd::slice::slice_to_vec(label))),
        Some(v) => {
            let on: [u8; 2] = [79, 78];
            let off: [u8; 3] = [79, 70, 70];
            proof {
                assert(on@ =~= on_bytes());
                assert(off@ =~= off_bytes());
            }
            if bytes_eq(v.as_slice(), on.as_slice()) {
                Ok(true)
            } else if bytes_eq(v.as_slice(), off.as_slice()) {
                Ok(false)
            } else {
                Err(VEError::OnOffExpected(vstd::slice::slice_to_vec(v.as_slice())))
            }
        },
    }
}

/// Reads the optional load switch: a model without a load output (or
/// an older firmware) simply omits the field, which is not an error.
/// A present value counts as on when it holds the bytes `ON`.
pub fn convert_load(fields: &FieldMap, label: &[u8]) -> (r: Result<Option<bool>, VEError>)
    ensures
        match r {
            Ok(Some(b)) => fields@.contains_key(label@) && b == contains_on(fields@[label@]),
            Ok(None) => !fields@.contains_key(label@),
            Err(_) => false,
        },
{
    match fields.get(label) {
        None => Ok(None),
        Some(v) => Ok(Some(find_on(v.as_slice()))),
    }
}

/// Reads `label` as a percentage in tenths; `---` (an unsynchronised
/// monitor) reads as no value.
pub fn convert_percentage(fields: &FieldMap, label: &[u8]) -> (r: Result<Option<i32>, VEError>)
    ensures
        match r {
            Ok(v) => pct_field_issue(fields@, label@) is None && (match v {
                Some(x) => fields@[label@] != dashes() && x as int == int_field_val(
                    fields@,
                    label@,
                ),
                None => fields@[label@] == dashes(),
            }),
            Err(e) => pct_field_issue(fields@, label@) matches Some(k) && reports(e, k),
        },
{
    match fields.get(label) {
        None => Err(VEError::MissingField(vstd::slice::slice_to_vec(label))),
        Some(v) => {
            let dash: [u8; 3] = [45, 45, 45];
            proof {
                assert(dash@ =~= dashes());
            }
            if bytes_eq(v.as_slice(), dash.as_slice()) {
                Ok(None)
            } else {
                match parse_i32(v.as_slice()) {
                    Some(n) => Ok(Some(n)),
                    None => Err(
                        VEError::Parse("value is not a decimal integer in range".to_owned()),
                    ),
                }
            }
        },
    }
}

/// Renders one field as a protocol line, `\r\n`, the label, a tab and
/// the value; no value renders as nothing at all.
pub fn get_field_string(label: &str, value: Option<&str>) -> (r: String)
    ensures
        match value {
            Some(v) => r@ == "\r\n"@ + label@ + "\t"@ + v@,
            None => r@ == Seq::<char>::empty(),
        },
{
    match value {
        Some(v) => {
            let mut r = String::from_str("\r\n");
            r.append(label);
            r.append("\t");
            r.append(v);
            r
        },
        None => {
            let r = String::new();
            r
        },
    }
}

} // verus!
