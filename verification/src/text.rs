//! Decimal text: parsing field values into integers and rendering
//! integers back into digits.
//!
//! Values on the wire are ASCII decimal numerals, optionally signed.
//! The spec functions here say what a numeral denotes; the executable
//! parsers are proved to accept exactly the numerals whose value fits
//! the requested range.

use vstd::prelude::*;

verus! {

/// An ASCII decimal digit.
pub open spec fn is_digit(b: u8) -> bool {
    48 <= b <= 57
}

/// A non-empty run of decimal digits.
pub open spec fn is_unsigned_dec(s: Seq<u8>) -> bool {
    s.len() >= 1 && forall|j: int| 0 <= j < s.len() ==> is_digit(#[trigger] s[j])
}

/// The number a digit run denotes.
pub open spec fn dec_val(s: Seq<u8>) -> int
    decreases s.len(),
{
    if s.len() == 0 {
        0
    } else {
        dec_val(s.drop_last()) * 10 + (s.last() - 48)
    }
}

/// A decimal numeral with an optional leading minus sign.
pub open spec fn is_signed_dec(s: Seq<u8>) -> bool {
    if s.len() >= 1 && s[0] == 45 {
        is_unsigned_dec(s.skip(1))
    } else {
        is_unsigned_dec(s)
    }
}

/// The signed value a numeral denotes.
pub open spec fn signed_dec_val(s: Seq<u8>) -> int {
    if s.len() >= 1 && s[0] == 45 {
        -dec_val(s.skip(1))
    } else {
        dec_val(s)
    }
}

pub proof fn lemma_dec_val_nonneg(s: Seq<u8>)
    requires
        forall|j: int| 0 <= j < s.len() ==> is_digit(#[trigger] s[j]),
    ensures
        dec_val(s) >= 0,
    decreases s.len(),
{
    if s.len() > 0 {
        lemma_dec_val_nonneg(s.drop_last());
    }
}

/// One more digit multiplies the value by ten and adds the digit.
pub proof fn lemma_dec_val_extend(s: Seq<u8>, i: int)
    requires
        0 <= i < s.len(),
    ensures
        dec_val(s.take(i + 1)) == dec_val(s.take(i)) * 10 + (s[i] - 48),
{
    assert(s.take(i + 1).drop_last() =~= s.take(i));
    assert(s.take(i + 1).last() == s[i]);
}

/// A digit run's value is no less than any of its prefixes' values.
pub proof fn lemma_dec_val_grows(s: Seq<u8>, i: int)
    requires
        forall|j: int| 0 <= j < s.len() ==> is_digit(#[trigger] s[j]),
        0 <= i <= s.len(),
    ensures
        dec_val(s) >= dec_val(s.take(i)),
    decreases s.len() - i,
{
    if i < s.len() {
        lemma_dec_val_nonneg(s.take(i));
        lemma_dec_val_extend(s, i);
        lemma_dec_val_grows(s, i + 1);
    } else {
        assert(s.take(i) =~= s);
    }
}

/// Parses a digit run whose value is at most `bound`; rejects exactly
/// the inputs that are not such a run.
pub fn parse_dec_bounded(s: &[u8], bound: u64) -> (r: Option<u64>)
    ensures
        (r is Some) == (is_unsigned_dec(s@) && dec_val(s@) <= bound),
        r matches Some(v) ==> v as int == dec_val(s@),
{
    let n = s.len();
    if n == 0 {
        return None;
    }
    let mut acc: u128 = 0;
    let mut i: usize = 0;
    proof {
        assert(s@.take(0int) =~= Seq::<u8>::empty());
    }
    while i < n
        invariant
            0 <= i <= n,
            n == s@.len(),
            forall|j: int| 0 <= j < i ==> is_digit(#[trigger] s@[j]),
            acc as int == dec_val(s@.take(i as int)),
            acc <= bound as u128,
        decreases n - i,
    {
        let b = *vstd::slice::slice_index_get(s, i);
        if b < 48 || b > 57 {
            return None;
        }
        proof {
            lemma_dec_val_extend(s@, i as int);
        }
        acc = acc * 10 + ((b - 48) as u128);
        if acc > bound as u128 {
            proof {
                if is_unsigned_dec(s@) {
                    lemma_dec_val_grows(s@, i + 1);
                }
            }
            return None;
        }
        i = i + 1;
    }
    proof {
        assert(s@.take(n as int) =~= s@);
    }
    Some(acc as u64)
}

/// Parses an unsigned 32-bit decimal numeral.
pub fn parse_u32(s: &[u8]) -> (r: Option<u32>)
    ensures
        (r is Some) == (is_unsigned_dec(s@) && dec_val(s@) <= u32::MAX),
        r matches Some(v) ==> v as int == dec_val(s@),
{
    match parse_dec_bounded(s, 4294967295) {
        Some(v) => Some(v as u32),
        None => None,
    }
}

/// Parses an unsigned 16-bit decimal numeral.
pub fn parse_u16(s: &[u8]) -> (r: Option<u16>)
    ensures
        (r is Some) == (is_unsigned_dec(s@) && dec_val(s@) <= u16::MAX),
        r matches Some(v) ==> v as int == dec_val(s@),
{
    match parse_dec_bounded(s, 65535) {
        Some(v) => Some(v as u16),
        None => None,
    }
}

/// Parses a signed 32-bit decimal numeral: digits with an optional
/// leading minus sign.
pub fn parse_i32(s: &[u8]) -> (r: Option<i32>)
    ensures
        (r is Some) == (is_signed_dec(s@) && i32::MIN <= signed_dec_val(s@) <= i32::MAX),
        r matches Some(v) ==> v as int == signed_dec_val(s@),
{
    let n = s.len();
    if n >= 1 && *vstd::slice::slice_index_get(s, 0) == 45 {
        let rest = vstd::slice::slice_subrange(s, 1, n);
        proof {
            assert(rest@ =~= s@.skip(1));
        }
        match parse_dec_bounded(rest, 2147483648) {
            Some(v) => Some((-(v as i64)) as i32),
            None => None,
        }
    } else {
        match parse_dec_bounded(s, 2147483647) {
            Some(v) => Some(v as i32),
            None => None,
        }
    }
}

/// An ASCII hexadecimal digit, either case.
pub open spec fn is_hex_digit(b: u8) -> bool {
    is_digit(b) || (65 <= b <= 70) || (97 <= b <= 102)
}

/// The value of one hexadecimal digit.
pub open spec fn hex_digit_val(b: u8) -> int {
    if is_digit(b) {
        b - 48
    } else if 65 <= b <= 70 {
        b - 55
    } else {
        b - 87
    }
}

/// A non-empty run of hexadecimal digits.
pub open spec fn is_hex_num(s: Seq<u8>) -> bool {
    s.len() >= 1 && forall|j: int| 0 <= j < s.len() ==> is_hex_digit(#[trigger] s[j])
}

/// The number a hexadecimal digit run denotes.
pub open spec fn hex_val(s: Seq<u8>) -> int
    decreases s.len(),
{
    if s.len() == 0 {
        0
    } else {
        hex_val(s.drop_last()) * 16 + hex_digit_val(s.last())
    }
}

pub proof fn lemma_hex_val_nonneg(s: Seq<u8>)
    requires
        forall|j: int| 0 <= j < s.len() ==> is_hex_digit(#[trigger] s[j]),
    ensures
        hex_val(s) >= 0,
    decreases s.len(),
{
    if s.len() > 0 {
        lemma_hex_val_nonneg(s.drop_last());
    }
}

proof fn lemma_hex_val_extend(s: Seq<u8>, i: int)
    requires
        0 <= i < s.len(),
    ensures
        hex_val(s.take(i + 1)) == hex_val(s.take(i)) * 16 + hex_digit_val(s[i]),
{
    assert(s.take(i + 1).drop_last() =~= s.take(i));
    assert(s.take(i + 1).last() == s[i]);
}

proof fn lemma_hex_val_grows(s: Seq<u8>, i: int)
    requires
        forall|j: int| 0 <= j < s.len() ==> is_hex_digit(#[trigger] s[j]),
        0 <= i <= s.len(),
    ensures
        hex_val(s) >= hex_val(s.take(i)),
    decreases s.len() - i,
{
    if i < s.len() {
        lemma_hex_val_nonneg(s.take(i));
        lemma_hex_val_extend(s, i);
        lemma_hex_val_grows(s, i + 1);
    } else {
        assert(s.take(i) =~= s);
    }
}

/// Parses a hexadecimal digit run as an unsigned 32-bit number;
/// rejects exactly the inputs that are not such a run or overflow.
pub fn parse_hex_u32(s: &[u8]) -> (r: Option<u32>)
    ensures
        (r is Some) == (is_hex_num(s@) && hex_val(s@) <= u32::MAX),
        r matches Some(v) ==> v as int == hex_val(s@),
{
    let n = s.len();
    if n == 0 {
        return None;
    }
    let mut acc: u64 = 0;
    let mut i: usize = 0;
    proof {
        assert(s@.take(0int) =~= Seq::<u8>::empty());
    }
    while i < n
        invariant
            0 <= i <= n,
            n == s@.len(),
            forall|j: int| 0 <= j < i ==> is_hex_digit(#[trigger] s@[j]),
            acc as int == hex_val(s@.take(i as int)),
            acc <= u32::MAX,
        decreases n - i,
    {
        let b = *vstd::slice::slice_index_get(s, i);
        let d: u64 = if 48 <= b && b <= 57 {
            (b - 48) as u64
        } else if 65 <= b && b <= 70 {
            (b - 55) as u64
        } else if 97 <= b && b <= 102 {
            (b - 87) as u64
        } else {
            return None;
        };
        proof {
            lemma_hex_val_extend(s@, i as int);
        }
        acc = acc * 16 + d;
        if acc > 4294967295 {
            proof {
                if is_hex_num(s@) {
                    lemma_hex_val_grows(s@, i + 1);
                }
            }
            return None;
        }
        i = i + 1;
    }
    proof {
        assert(s@.take(n as int) =~= s@);
    }
    Some(acc as u32)
}

/// The bytes with every leading `0x` removed.
pub open spec fn strip_0x(s: Seq<u8>) -> Seq<u8>
    decreases s.len(),
{
    if s.len() >= 2 && s[0] == 48 && s[1] == 120 {
        strip_0x(s.skip(2))
    } else {
        s
    }
}

/// Drops every leading `0x` from a byte string.
pub fn drop_0x(s: &[u8]) -> (r: &[u8])
    ensures
        r@ == strip_0x(s@),
{
    let n = s.len();
    let mut i: usize = 0;
    proof {
        assert(s@.skip(0) =~= s@);
    }
    while i < n && i + 1 < n && *vstd::slice::slice_index_get(s, i) == 48 && *vstd::slice::slice_index_get(
        s,
        i + 1,
    ) == 120
        invariant
            i <= n,
            n == s@.len(),
            strip_0x(s@) == strip_0x(s@.skip(i as int)),
        decreases n - i,
    {
        proof {
            assert(s@.skip(i as int).skip(2) =~= s@.skip(i + 2));
        }
        i = i + 2;
    }
    proof {
        assert(s@.skip(i as int) =~= s@.subrange(i as int, n as int));
    }
    vstd::slice::slice_subrange(s, i, n)
}

/// The canonical decimal digits of a non-negative number, no leading
/// zeros.
pub open spec fn dec_digits(n: int) -> Seq<u8>
    decreases n,
{
    if n < 10 {
        seq![(48 + if n >= 0 { n } else { 0 }) as u8]
    } else {
        dec_digits(n / 10).push((48 + n % 10) as u8)
    }
}

/// Appends a number's value in decimal to `out`.
pub fn push_u64_dec(out: &mut Vec<u8>, v: u64)
    ensures
        final(out)@ == old(out)@ + dec_digits(v as int),
    decreases v,
{
    if v < 10 {
        out.push(48 + v as u8);
        proof {
            assert(dec_digits(v as int) =~= seq![(48 + v as int) as u8]);
            assert(final(out)@ =~= old(out)@ + dec_digits(v as int));
        }
    } else {
        push_u64_dec(out, v / 10);
        out.push(48 + (v % 10) as u8);
        proof {
            assert((v / 10) as int == v as int / 10);
            assert(dec_digits(v as int) =~= dec_digits(v as int / 10).push(
                (48 + v as int % 10) as u8,
            ));
            assert(final(out)@ =~= old(out)@ + dec_digits(v as int));
        }
    }
}

/// The decimal digits padded with a zero to at least two characters.
pub open spec fn dec_digits_pad2(n: int) -> Seq<u8> {
    if n < 10 {
        seq![48u8] + dec_digits(n)
    } else {
        dec_digits(n)
    }
}

/// Appends a number's value in decimal, zero-padded to at least two
/// characters.
pub fn push_u64_dec_pad2(out: &mut Vec<u8>, v: u64)
    ensures
        final(out)@ == old(out)@ + dec_digits_pad2(v as int),
{
    if v < 10 {
        out.push(48);
        push_u64_dec(out, v);
        proof {
            assert(old(out)@ + dec_digits_pad2(v as int) =~= (old(out)@.push(48u8)) + dec_digits(
                v as int,
            ));
        }
    } else {
        push_u64_dec(out, v);
    }
}

/// Appends a byte's value in decimal to `out`.
pub fn push_u8_dec(out: &mut Vec<u8>, v: u8)
    ensures
        final(out)@ == old(out)@ + dec_digits(v as int),
{
    if v >= 100 {
        out.push(48 + v / 100);
        out.push(48 + (v / 10) % 10);
        out.push(48 + v % 10);
        proof {
            assert(v / 10 < 100 && v / 10 >= 10);
            assert(v / 10 / 10 == v / 100) by (nonlinear_arith);
            assert((v / 10) % 10 == (v as int / 10) % 10);
            assert(dec_digits((v / 100) as int) =~= seq![(48 + (v / 100) as int) as u8]);
            assert(dec_digits((v / 10) as int) =~= dec_digits((v / 100) as int).push(
                (48 + ((v / 10) % 10) as int) as u8,
            ));
            assert(dec_digits(v as int) =~= dec_digits((v / 10) as int).push(
                (48 + (v % 10) as int) as u8,
            ));
            assert(final(out)@ =~= old(out)@ + dec_digits(v as int));
        }
    } else if v >= 10 {
        out.push(48 + v / 10);
        out.push(48 + v % 10);
        proof {
            assert(dec_digits((v / 10) as int) =~= seq![(48 + (v / 10) as int) as u8]);
            assert(dec_digits(v as int) =~= dec_digits((v / 10) as int).push(
                (48 + (v % 10) as int) as u8,
            ));
            assert(final(out)@ =~= old(out)@ + dec_digits(v as int));
        }
    } else {
        out.push(48 + v);
        proof {
            assert(dec_digits(v as int) =~= seq![(48 + v as int) as u8]);
            assert(final(out)@ =~= old(out)@ + dec_digits(v as int));
        }
    }
}

} // verus!
