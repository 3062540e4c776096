//! Firmware versions, as the `FW` and `FWE` fields report them.
//!
//! `FW` codes a version in three or four characters: an optional
//! release-candidate letter `A`-`F`, one major digit, two minor digits
//! (`150` is 1.50, `C208` is candidate C of 2.08).  `FWE` codes it in
//! five or six: one or two major digits, two minor digits, and two
//! final hexadecimal characters — `FF` for an official release,
//! anything else a beta number (`020801` is 2.08 beta 01).
//!
//! Decoding scans for the first position where the pattern fits,
//! preferring the longer reading, and decodes what it finds there; the
//! characters around the fit are ignored.

use vstd::prelude::*;

use crate::VEError;
use crate::text::dec_digits;
use crate::text::dec_val;
use crate::text::is_digit;
use crate::text::is_unsigned_dec;
use crate::text::parse_dec_bounded;

verus! {

/// Which field the version came from.
#[derive(Debug, PartialEq, Eq, Structural, Clone, Copy)]
pub enum VersionType {
    /// Coded in three or four characters: an optional candidate letter,
    /// one major digit, two minor digits.
    FW,
    /// Coded in five or six characters: one or two major digits, two
    /// minor digits, two pre-release characters.
    FWE,
}

/// A decoded version: major, minor and patch numbers and a pre-release
/// tag (empty for an official release).
#[derive(Debug, PartialEq, Clone)]
pub struct Version {
    pub major: u64,
    pub minor: u64,
    pub patch: u64,
    /// The pre-release tag, such as `C` or `beta-01`; empty means an
    /// official release.
    pub pre: Vec<u8>,
    /// Build metadata; the wire format never carries any.
    pub build: Vec<u8>,
}

/// A version together with the field form it was read from.
#[derive(Debug, PartialEq, Clone)]
pub struct FirmwareVersion {
    pub version: Version,
    pub version_type: VersionType,
}

/// An upper-case hexadecimal character.
pub open spec fn is_hex_upper(b: u8) -> bool {
    is_digit(b) || (65 <= b <= 70)
}

/// An `FW` reading with a candidate letter fits at `i`.
pub open spec fn fw_pre_hit(s: Seq<u8>, i: int) -> bool {
    &&& i + 4 <= s.len()
    &&& 65 <= s[i] <= 70
    &&& is_digit(s[i + 1])
    &&& is_digit(s[i + 2])
    &&& is_digit(s[i + 3])
}

/// An `FW` reading without a candidate letter fits at `i`.
pub open spec fn fw_plain_hit(s: Seq<u8>, i: int) -> bool {
    &&& i + 3 <= s.len()
    &&& is_digit(s[i])
    &&& is_digit(s[i + 1])
    &&& is_digit(s[i + 2])
}

/// The first position where an `FW` reading fits, or the length.
pub open spec fn fw_find(s: Seq<u8>, i: int) -> int
    decreases s.len() - i when 0 <= i <= s.len()
{
    if i >= s.len() {
        s.len() as int
    } else if fw_pre_hit(s, i) || fw_plain_hit(s, i) {
        i
    } else {
        fw_find(s, i + 1)
    }
}

/// A two-digit reading starting at `i`.
pub open spec fn two_digits(s: Seq<u8>, i: int) -> int {
    10 * (s[i] - 48) + (s[i + 1] - 48)
}

/// An `FWE` reading with two major digits fits at `i`.
pub open spec fn fwe_hit2(s: Seq<u8>, i: int) -> bool {
    &&& i + 6 <= s.len()
    &&& is_digit(s[i])
    &&& is_digit(s[i + 1])
    &&& is_digit(s[i + 2])
    &&& is_digit(s[i + 3])
    &&& is_hex_upper(s[i + 4])
    &&& is_hex_upper(s[i + 5])
}

/// An `FWE` reading with one major digit fits at `i`.
pub open spec fn fwe_hit1(s: Seq<u8>, i: int) -> bool {
    &&& i + 5 <= s.len()
    &&& is_digit(s[i])
    &&& is_digit(s[i + 1])
    &&& is_digit(s[i + 2])
    &&& is_hex_upper(s[i + 3])
    &&& is_hex_upper(s[i + 4])
}

/// The first position where an `FWE` reading fits, or the length.
pub open spec fn fwe_find(s: Seq<u8>, i: int) -> int
    decreases s.len() - i when 0 <= i <= s.len()
{
    if i >= s.len() {
        s.len() as int
    } else if fwe_hit2(s, i) || fwe_hit1(s, i) {
        i
    } else {
        fwe_find(s, i + 1)
    }
}

/// The bytes `beta-`.
pub open spec fn beta_dash() -> Seq<u8> {
    seq![98u8, 101u8, 116u8, 97u8, 45u8]
}

/// The pre-release tag behind two `FWE` characters: `FF` means an
/// official release, anything else a beta number.
pub open spec fn fwe_pre(chars: Seq<u8>) -> Seq<u8> {
    if chars == seq![70u8, 70u8] {
        Seq::empty()
    } else {
        beta_dash() + chars
    }
}

impl FirmwareVersion {
    /// Decodes an `FW` (three or four characters) or `FWE` (five or
    /// six) version field.
    pub fn parse(s: &[u8]) -> (r: Result<FirmwareVersion, VEError>)
        requires
            3 <= s@.len() <= 6,
        ensures
            match r {
                Ok(fv) => {
                    &&& fv.version.patch == 0
                    &&& fv.version.build@ == Seq::<u8>::empty()
                    &&& if s@.len() <= 4 {
                        let i = fw_find(s@, 0);
                        &&& fv.version_type == VersionType::FW
                        &&& i < s@.len()
                        &&& if fw_pre_hit(s@, i) {
                            &&& fv.version.pre@ == seq![s@[i]]
                            &&& fv.version.major as int == s@[i + 1] - 48
                            &&& fv.version.minor as int == two_digits(s@, i + 2)
                        } else {
                            &&& fv.version.pre@ == Seq::<u8>::empty()
                            &&& fv.version.major as int == s@[i] - 48
                            &&& fv.version.minor as int == two_digits(s@, i + 1)
                        }
                    } else {
                        let i = fwe_find(s@, 0);
                        &&& fv.version_type == VersionType::FWE
                        &&& i < s@.len()
                        &&& if fwe_hit2(s@, i) {
                            &&& fv.version.major as int == two_digits(s@, i)
                            &&& fv.version.minor as int == two_digits(s@, i + 2)
                            &&& fv.version.pre@ == fwe_pre(s@.subrange(i + 4, i + 6))
                        } else {
                            &&& fv.version.major as int == s@[i] - 48
                            &&& fv.version.minor as int == two_digits(s@, i + 1)
                            &&& fv.version.pre@ == fwe_pre(s@.subrange(i + 3, i + 5))
                        }
                    }
                },
                Err(e) => {
                    &&& e matches VEError::Parse(_)
                    &&& if s@.len() <= 4 {
                        fw_find(s@, 0) == s@.len()
                    } else {
                        fwe_find(s@, 0) == s@.len()
                    }
                },
            },
    {
        let n = s.len();
        if n <= 4 {
            let mut i: usize = 0;
            while i < n
                invariant
                    0 <= i <= n,
                    n <= 4,
                    n == s@.len(),
                    fw_find(s@, 0) == fw_find(s@, i as int),
                decreases n - i,
            {
                if n >= 4 && i <= n - 4 {
                    let b0 = *vstd::slice::slice_index_get(s, i);
                    let b1 = *vstd::slice::slice_index_get(s, i + 1);
                    let b2 = *vstd::slice::slice_index_get(s, i + 2);
                    let b3 = *vstd::slice::slice_index_get(s, i + 3);
                    if 65 <= b0 && b0 <= 70 && 48 <= b1 && b1 <= 57 && 48 <= b2 && b2 <= 57 && 48
                        <= b3 && b3 <= 57 {
                        let mut pre: Vec<u8> = Vec::new();
                        pre.push(b0);
                        proof {
                            assert(pre@ =~= seq![s@[i as int]]);
                            assert(fw_pre_hit(s@, i as int));
                            assert(fw_find(s@, i as int) == i as int);
                            assert(s@.len() <= 4);
                        }
                        return Ok(
                            FirmwareVersion {
                                version: Version {
                                    major: (b1 - 48) as u64,
                                    minor: (10 * (b2 - 48) + (b3 - 48)) as u64,
                                    patch: 0,
                                    pre,
                                    build: Vec::new(),
                                },
                                version_type: VersionType::FW,
                            },
                        );
                    }
                }
                if n >= 3 && i <= n - 3 {
                    let b0 = *vstd::slice::slice_index_get(s, i);
                    let b1 = *vstd::slice::slice_index_get(s, i + 1);
                    let b2 = *vstd::slice::slice_index_get(s, i + 2);
                    if 48 <= b0 && b0 <= 57 && 48 <= b1 && b1 <= 57 && 48 <= b2 && b2 <= 57 {
                        proof {
                            assert(fw_plain_hit(s@, i as int));
                            assert(fw_find(s@, i as int) == i as int);
                            assert(s@.len() <= 4);
                        }
                        return Ok(
                            FirmwareVersion {
                                version: Version {
                                    major: (b0 - 48) as u64,
                                    minor: (10 * (b1 - 48) + (b2 - 48)) as u64,
                                    patch: 0,
                                    pre: Vec::new(),
                                    build: Vec::new(),
                                },
                                version_type: VersionType::FW,
                            },
                        );
                    }
                }
                i = i + 1;
            }
            Err(VEError::Parse("the version field fits no known coding".to_owned()))
        } else {
            let mut i: usize = 0;
            while i < n
                invariant
                    0 <= i <= n,
                    4 < n <= 6,
                    n == s@.len(),
                    fwe_find(s@, 0) == fwe_find(s@, i as int),
                decreases n - i,
            {
                if n >= 6 && i <= n - 6 {
                    let b0 = *vstd::slice::slice_index_get(s, i);
                    let b1 = *vstd::slice::slice_index_get(s, i + 1);
                    let b2 = *vstd::slice::slice_index_get(s, i + 2);
                    let b3 = *vstd::slice::slice_index_get(s, i + 3);
                    let h0 = *vstd::slice::slice_index_get(s, i + 4);
                    let h1 = *vstd::slice::slice_index_get(s, i + 5);
                    if 48 <= b0 && b0 <= 57 && 48 <= b1 && b1 <= 57 && 48 <= b2 && b2 <= 57 && 48
                        <= b3 && b3 <= 57 && (48 <= h0 && h0 <= 57 || 65 <= h0 && h0 <= 70) && (48
                        <= h1 && h1 <= 57 || 65 <= h1 && h1 <= 70) {
                        let pre = fwe_pre_bytes(h0, h1);
                        proof {
                            assert(s@.subrange(i + 4, i + 6) =~= seq![s@[i + 4], s@[i + 5]]);
                            assert(fwe_hit2(s@, i as int));
                            assert(fwe_find(s@, i as int) == i as int);
                        }
                        return Ok(
                            FirmwareVersion {
                                version: Version {
                                    major: (10 * (b0 - 48) + (b1 - 48)) as u64,
                                    minor: (10 * (b2 - 48) + (b3 - 48)) as u64,
                                    patch: 0,
                                    pre,
                                    build: Vec::new(),
                                },
                                version_type: VersionType::FWE,
                            },
                        );
                    }
                }
                if n >= 5 && i <= n - 5 {
                    let b0 = *vstd::slice::slice_index_get(s, i);
                    let b1 = *vstd::slice::slice_index_get(s, i + 1);
                    let b2 = *vstd::slice::slice_index_get(s, i + 2);
                    let h0 = *vstd::slice::slice_index_get(s, i + 3);
                    let h1 = *vstd::slice::slice_index_get(s, i + 4);
                    if 48 <= b0 && b0 <= 57 && 48 <= b1 && b1 <= 57 && 48 <= b2 && b2 <= 57 && (48
                        <= h0 && h0 <= 57 || 65 <= h0 && h0 <= 70) && (48 <= h1 && h1 <= 57 || 65
                        <= h1 && h1 <= 70) {
                        let pre = fwe_pre_bytes(h0, h1);
                        proof {
                            assert(s@.subrange(i + 3, i + 5) =~= seq![s@[i + 3], s@[i + 4]]);
                            assert(fwe_hit1(s@, i as int));
                            assert(!fwe_hit2(s@, i as int));
                            assert(fwe_find(s@, i as int) == i as int);
                        }
                        return Ok(
                            FirmwareVersion {
                                version: Version {
                                    major: (b0 - 48) as u64,
                                    minor: (10 * (b1 - 48) + (b2 - 48)) as u64,
                                    patch: 0,
                                    pre,
                                    build: Vec::new(),
                                },
                                version_type: VersionType::FWE,
                            },
                        );
                    }
                }
                i = i + 1;
            }
            Err(VEError::Parse("the version field fits no known coding".to_owned()))
        }
    }
}

/// The bytes `beta`.
pub open spec fn beta_word() -> Seq<u8> {
    seq![98u8, 101u8, 116u8, 97u8]
}

/// The tag with every occurrence of `beta` removed, scanning left to
/// right.
pub open spec fn strip_beta(s: Seq<u8>) -> Seq<u8>
    decreases s.len(),
{
    if s.len() >= 4 && s.subrange(0, 4) == beta_word() {
        strip_beta(s.skip(4))
    } else if s.len() == 0 {
        Seq::empty()
    } else {
        seq![s[0]] + strip_beta(s.skip(1))
    }
}

/// Removes every occurrence of `beta`, scanning left to right.
fn strip_beta_bytes(s: &[u8]) -> (r: Vec<u8>)
    ensures
        r@ == strip_beta(s@),
{
    let n = s.len();
    let mut out: Vec<u8> = Vec::new();
    let mut i: usize = 0;
    proof {
        assert(s@.skip(0) =~= s@);
        assert(out@ + strip_beta(s@) =~= strip_beta(s@));
    }
    while i < n
        invariant
            i <= n,
            n == s@.len(),
            strip_beta(s@) == out@ + strip_beta(s@.skip(i as int)),
        decreases n - i,
    {
        let ghost cur = s@.skip(i as int);
        if n - i >= 4 && *vstd::slice::slice_index_get(s, i) == 98 && *vstd::slice::slice_index_get(
            s,
            i + 1,
        ) == 101 && *vstd::slice::slice_index_get(s, i + 2) == 116
            && *vstd::slice::slice_index_get(s, i + 3) == 97 {
            proof {
                assert(cur.subrange(0, 4) =~= beta_word());
                assert(cur.skip(4) =~= s@.skip(i + 4));
            }
            i = i + 4;
        } else {
            proof {
                if cur.len() >= 4 && cur.subrange(0, 4) == beta_word() {
                    assert(cur[0] == 98 && cur[1] == 101 && cur[2] == 116 && cur[3] == 97);
                }
                assert(cur.skip(1) =~= s@.skip(i + 1));
            }
            out.push(*vstd::slice::slice_index_get(s, i));
            proof {
                assert(out@ + strip_beta(s@.skip(i + 1)) =~= strip_beta(s@));
            }
            i = i + 1;
        }
    }
    proof {
        assert(strip_beta(s@.skip(n as int)) =~= Seq::<u8>::empty());
        assert(out@ =~= strip_beta(s@));
    }
    out
}

/// Whether a pre-release tag fits the `FWE` form: empty, or, with every
/// `beta` removed, a decimal number.
pub open spec fn fwe_encodable(pre: Seq<u8>) -> bool {
    pre.len() == 0 || (is_unsigned_dec(strip_beta(pre)) && dec_val(strip_beta(pre)) <= u32::MAX)
}

/// The `FW` encoding: the pre-release tag, the major digits, the minor
/// digits padded to two.
pub open spec fn fw_encoding(major: int, minor: int, pre: Seq<u8>) -> Seq<u8> {
    pre + dec_digits(major) + crate::text::dec_digits_pad2(minor)
}

/// The `FWE` encoding: major and minor padded to two digits, then `FF`
/// for a release or the beta number padded to two digits.
pub open spec fn fwe_encoding(major: int, minor: int, pre: Seq<u8>) -> Seq<u8> {
    crate::text::dec_digits_pad2(major) + crate::text::dec_digits_pad2(minor) + (if pre.len()
        == 0 {
        seq![70u8, 70u8]
    } else {
        crate::text::dec_digits_pad2(dec_val(strip_beta(pre)))
    })
}

/// Encodes a version back into its field form.  An `FWE` pre-release
/// tag must fit that form: empty, or a beta number once `beta` is
/// stripped.
pub fn encode_version(version: &Version, version_type: &VersionType) -> (r: Vec<u8>)
    requires
        (version_type is FWE) ==> fwe_encodable(version.pre@),
    ensures
        r@ == match version_type {
            VersionType::FW => fw_encoding(
                version.major as int,
                version.minor as int,
                version.pre@,
            ),
            VersionType::FWE => fwe_encoding(
                version.major as int,
                version.minor as int,
                version.pre@,
            ),
        },
{
    match version_type {
        VersionType::FW => {
            let mut r = vstd::slice::slice_to_vec(version.pre.as_slice());
            crate::text::push_u64_dec(&mut r, version.major);
            crate::text::push_u64_dec_pad2(&mut r, version.minor);
            proof {
                assert(r@ =~= fw_encoding(version.major as int, version.minor as int, version.pre@));
            }
            r
        },
        VersionType::FWE => {
            let mut r: Vec<u8> = Vec::new();
            crate::text::push_u64_dec_pad2(&mut r, version.major);
            crate::text::push_u64_dec_pad2(&mut r, version.minor);
            if version.pre.len() == 0 {
                r.push(70);
                r.push(70);
            } else {
                let stripped = strip_beta_bytes(version.pre.as_slice());
                let num = match parse_dec_bounded(stripped.as_slice(), 4294967295) {
                    Some(v) => v,
                    None => 0,
                };
                crate::text::push_u64_dec_pad2(&mut r, num);
            }
            proof {
                assert(r@ =~= fwe_encoding(
                    version.major as int,
                    version.minor as int,
                    version.pre@,
                ));
            }
            r
        },
    }
}

impl FirmwareVersion {
    /// Encodes the version back into the field form it was read from.
    pub fn to_encoded_version(&self) -> (r: Vec<u8>)
        requires
            (self.version_type is FWE) ==> fwe_encodable(self.version.pre@),
        ensures
            r@ == match self.version_type {
                VersionType::FW => fw_encoding(
                    self.version.major as int,
                    self.version.minor as int,
                    self.version.pre@,
                ),
                VersionType::FWE => fwe_encoding(
                    self.version.major as int,
                    self.version.minor as int,
                    self.version.pre@,
                ),
            },
    {
        encode_version(&self.version, &self.version_type)
    }
}

/// Builds the pre-release tag behind two `FWE` characters.
fn fwe_pre_bytes(h0: u8, h1: u8) -> (r: Vec<u8>)
    ensures
        r@ == fwe_pre(seq![h0, h1]),
{
    if h0 == 70 && h1 == 70 {
        proof {
            assert(seq![h0, h1] =~= seq![70u8, 70u8]);
        }
        Vec::new()
    } else {
        let mut r: Vec<u8> = Vec::new();
        r.push(98);
        r.push(101);
        r.push(116);
        r.push(97);
        r.push(45);
        r.push(h0);
        r.push(h1);
        proof {
            assert(seq![h0, h1] != seq![70u8, 70u8]);
            assert(r@ =~= beta_dash() + seq![h0, h1]);
        }
        r
    }
}

} // verus!
