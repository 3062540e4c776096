//! The checksum engine: the modulo-256 sum over a byte range.
//!
//! A frame is valid when every byte from its leading `\r\n` through the
//! checksum byte itself sums to zero modulo 256.  `compute` produces the
//! byte that closes a payload, `verify` checks a closed frame, and
//! `append` attaches a checksum byte to a payload.

use vstd::prelude::*;

verus! {

/// The arithmetic sum of a byte sequence, as an unbounded integer.
pub open spec fn byte_sum(s: Seq<u8>) -> int
    decreases s.len(),
{
    if s.len() == 0 {
        0
    } else {
        byte_sum(s.drop_last()) + s.last()
    }
}

/// The byte that closes a payload: added to the payload's sum it gives
/// zero modulo 256.
pub open spec fn checksum_of(s: Seq<u8>) -> int {
    (256 - byte_sum(s) % 256) % 256
}

pub proof fn lemma_byte_sum_nonneg(s: Seq<u8>)
    ensures
        0 <= byte_sum(s),
    decreases s.len(),
{
    if s.len() > 0 {
        lemma_byte_sum_nonneg(s.drop_last());
    }
}

/// Summing is additive over concatenation: the sum of a stream does not
/// depend on how it was split into chunks.
pub proof fn lemma_byte_sum_concat(a: Seq<u8>, b: Seq<u8>)
    ensures
        byte_sum(a + b) == byte_sum(a) + byte_sum(b),
    decreases b.len(),
{
    if b.len() == 0 {
        assert(a + b =~= a);
    } else {
        lemma_byte_sum_concat(a, b.drop_last());
        assert((a + b).drop_last() =~= a + b.drop_last());
        assert((a + b).last() == b.last());
    }
}

/// One more byte extends the sum by that byte's value.
pub proof fn lemma_byte_sum_push(s: Seq<u8>, b: u8)
    ensures
        byte_sum(s.push(b)) == byte_sum(s) + b,
{
    assert(s.push(b).drop_last() =~= s);
    assert(s.push(b).last() == b);
}

/// The checksum of a stream depends only on its bytes, never on how
/// they were grouped into chunks: computed from the two parts' sums it
/// equals the checksum of the concatenation.
pub proof fn lemma_checksum_chunked(a: Seq<u8>, b: Seq<u8>)
    ensures
        checksum_of(a + b) == (256 - (byte_sum(a) + byte_sum(b)) % 256) % 256,
{
    lemma_byte_sum_concat(a, b);
}

/// The checksum round trip: a payload closed by its own computed
/// checksum byte always verifies.
pub proof fn lemma_checksum_round_trip(b: Seq<u8>)
    ensures
        0 <= checksum_of(b) < 256,
        byte_sum(b.push(checksum_of(b) as u8)) % 256 == 0,
{
    lemma_byte_sum_nonneg(b);
    lemma_byte_sum_push(b, checksum_of(b) as u8);
}

/// There is exactly one byte that closes a given payload: any other
/// byte in its place fails verification.
pub proof fn lemma_checksum_unique(b: Seq<u8>, c: u8)
    ensures
        byte_sum(b.push(c)) % 256 == 0 <==> c as int == checksum_of(b),
{
    lemma_byte_sum_nonneg(b);
    lemma_byte_sum_push(b, c);
}

/// Returns the byte that makes `bytes` followed by it sum to zero
/// modulo 256.
pub fn compute(bytes: &[u8]) -> (r: u8)
    ensures
        r as int == checksum_of(bytes@),
        (byte_sum(bytes@) + r) % 256 == 0,
{
    let s = sum_mod_256(bytes);
    proof {
        lemma_byte_sum_nonneg(bytes@);
    }
    if s == 0 {
        0
    } else {
        255 - s + 1
    }
}

/// Returns true iff `bytes` (a frame span including its checksum byte)
/// sums to zero modulo 256.
pub fn verify(bytes: &[u8]) -> (r: bool)
    ensures
        r == (byte_sum(bytes@) % 256 == 0),
{
    let s = sum_mod_256(bytes);
    s == 0
}

/// Concatenates a payload with its single checksum byte.
pub fn append(payload: &[u8], checksum_byte: u8) -> (r: Vec<u8>)
    ensures
        r@ == payload@.push(checksum_byte),
{
    let mut r = vstd::slice::slice_to_vec(payload);
    r.push(checksum_byte);
    r
}

/// The byte sum of a slice, reduced modulo 256.
fn sum_mod_256(bytes: &[u8]) -> (r: u8)
    ensures
        r as int == byte_sum(bytes@) % 256,
{
    let mut acc: u8 = 0;
    let mut i: usize = 0;
    let n = bytes.len();
    proof {
        assert(bytes@.take(0int) =~= Seq::<u8>::empty());
    }
    while i < n
        invariant
            i <= n,
            n == bytes@.len(),
            acc as int == byte_sum(bytes@.take(i as int)) % 256,
        decreases n - i,
    {
        let b = *vstd::slice::slice_index_get(bytes, i);
        proof {
            assert(bytes@.take(i + 1).drop_last() =~= bytes@.take(i as int));
            assert(bytes@.take(i + 1).last() == bytes@[i as int]);
            lemma_byte_sum_nonneg(bytes@.take(i as int));
            vstd::arithmetic::div_mod::lemma_add_mod_noop(
                byte_sum(bytes@.take(i as int)),
                b as int,
                256,
            );
        }
        acc = ((acc as u16 + b as u16) % 256) as u8;
        i = i + 1;
    }
    proof {
        assert(bytes@.take(n as int) =~= bytes@);
    }
    acc
}

} // verus!
