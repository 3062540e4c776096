//! Device serial numbers.
//!
//! The notation is `LLYYWWSSSSS`: a two-letter location code, the
//! production year and week, and the unique five-character part.
//! Example: `HQ1328Y6TF6`.

use vstd::prelude::*;

use crate::VEError;
use crate::text::dec_digits;
use crate::text::dec_val;
use crate::text::is_unsigned_dec;
use crate::text::parse_dec_bounded;

verus! {

/// An ASCII letter folded to upper case.
pub open spec fn upper(b: u8) -> u8 {
    if 97 <= b <= 122 {
        (b - 32) as u8
    } else {
        b
    }
}

/// A byte string folded to upper case.
pub open spec fn upper_seq(s: Seq<u8>) -> Seq<u8> {
    Seq::new(s.len(), |i: int| upper(s[i]))
}

/// Folds a byte string to upper case.
fn to_upper(s: &[u8]) -> (r: Vec<u8>)
    ensures
        r@ == upper_seq(s@),
{
    let n = s.len();
    let mut r: Vec<u8> = Vec::new();
    let mut i: usize = 0;
    while i < n
        invariant
            i <= n,
            n == s@.len(),
            r@.len() == i,
            forall|j: int| 0 <= j < i ==> r@[j] == upper(s@[j]),
        decreases n - i,
    {
        let b = *vstd::slice::slice_index_get(s, i);
        if 97 <= b && b <= 122 {
            r.push(b - 32);
        } else {
            r.push(b);
        }
        i = i + 1;
    }
    proof {
        assert(r@ =~= upper_seq(s@));
    }
    r
}

/// Two decimal digits denote at most ninety-nine.
proof fn lemma_two_digits_fit(s: Seq<u8>)
    requires
        s.len() == 2,
    ensures
        is_unsigned_dec(s) ==> dec_val(s) <= 99,
{
    if is_unsigned_dec(s) {
        assert(s.drop_last() =~= seq![s[0]]);
        assert(seq![s[0]].drop_last() =~= Seq::<u8>::empty());
        assert(seq![s[0]].last() == s[0]);
        assert(dec_val(Seq::<u8>::empty()) == 0);
        assert(dec_val(seq![s[0]]) == dec_val(seq![s[0]].drop_last()) * 10 + (seq![s[0]].last()
            - 48));
    }
}

/// The serial number of a device.
#[derive(Debug, Clone, PartialEq)]
pub struct SerialNumber {
    /// The location code, two upper-case letters.
    pub location: Vec<u8>,
    /// The production year.
    pub year: u8,
    /// The production week.
    pub week: u8,
    /// The unique part, five upper-case characters.
    pub id: Vec<u8>,
}

impl SerialNumber {
    /// Builds a serial number from its parts, folding the location and
    /// the unique part to upper case.  The location must be exactly two
    /// bytes and the unique part exactly five.
    pub fn new(location: &[u8], year: u8, week: u8, id: &[u8]) -> (r: SerialNumber)
        requires
            location@.len() == 2,
            id@.len() == 5,
        ensures
            r.location@ == upper_seq(location@),
            r.year == year,
            r.week == week,
            r.id@ == upper_seq(id@),
    {
        SerialNumber { location: to_upper(location), year, week, id: to_upper(id) }
    }

    /// Reads a serial number in the `LLYYWWSSSSS` notation: the first
    /// eleven bytes are used, the year and week as two decimal digits
    /// each, the location and unique part folded to upper case.
    pub fn parse(s: &[u8]) -> (r: Result<SerialNumber, VEError>)
        ensures
            match r {
                Ok(sn) => s@.len() >= 11 && is_unsigned_dec(s@.subrange(2, 4)) && is_unsigned_dec(
                    s@.subrange(4, 6),
                ) && sn.location@ == upper_seq(s@.subrange(0, 2)) && sn.year as int == dec_val(
                    s@.subrange(2, 4),
                ) && sn.week as int == dec_val(s@.subrange(4, 6)) && sn.id@ == upper_seq(
                    s@.subrange(6, 11),
                ),
                Err(e) => (e matches VEError::Parse(_)) && (s@.len() < 11 || !is_unsigned_dec(
                    s@.subrange(2, 4),
                ) || !is_unsigned_dec(s@.subrange(4, 6))),
            },
    {
        if s.len() < 11 {
            return Err(VEError::Parse("serial number is shorter than eleven bytes".to_owned()));
        }
        let year_part = vstd::slice::slice_subrange(s, 2, 4);
        let week_part = vstd::slice::slice_subrange(s, 4, 6);
        let year = match parse_dec_bounded(year_part, 255) {
            Some(v) => v as u8,
            None => {
                proof {
                    lemma_two_digits_fit(s@.subrange(2, 4));
                }
                return Err(VEError::Parse("serial number year is not decimal".to_owned()));
            },
        };
        let week = match parse_dec_bounded(week_part, 255) {
            Some(v) => v as u8,
            None => {
                proof {
                    lemma_two_digits_fit(s@.subrange(4, 6));
                }
                return Err(VEError::Parse("serial number week is not decimal".to_owned()));
            },
        };
        let location = to_upper(vstd::slice::slice_subrange(s, 0, 2));
        let id = to_upper(vstd::slice::slice_subrange(s, 6, 11));
        Ok(SerialNumber { location, year, week, id })
    }

    /// Renders the serial number in the `LLYYWWSSSSS` notation, year
    /// and week in decimal.
    pub fn to_text(&self) -> (r: Vec<u8>)
        ensures
            r@ == self.location@ + dec_digits(self.year as int) + dec_digits(self.week as int)
                + self.id@,
    {
        let mut r = vstd::slice::slice_to_vec(self.location.as_slice());
        crate::text::push_u8_dec(&mut r, self.year);
        crate::text::push_u8_dec(&mut r, self.week);
        let mut i: usize = 0;
        let n = self.id.len();
        let ghost mid = r@;
        while i < n
            invariant
                i <= n,
                n == self.id@.len(),
                r@ == mid + self.id@.take(i as int),
            decreases n - i,
        {
            r.push(self.id[i]);
            proof {
                assert(mid + self.id@.take(i + 1) =~= (mid + self.id@.take(i as int)).push(
                    self.id@[i as int],
                ));
            }
            i = i + 1;
        }
        proof {
            assert(mid + self.id@.take(n as int) =~= mid + self.id@);
            assert(mid =~= self.location@ + dec_digits(self.year as int) + dec_digits(
                self.week as int,
            ));
        }
        r
    }
}

} // verus!
