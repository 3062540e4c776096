//! The frame grammar and the streaming assembler.
//!
//! A frame is a run of field lines closed by a checksum line:
//!
//! - field line: `\r\n`, a label (one or more bytes, none of them tab,
//!   carriage return or line feed, and not the reserved word
//!   `Checksum`), a tab, then a value (any bytes up to the next
//!   carriage return);
//! - checksum line: `\r\n`, the literal label `Checksum`, a tab, then
//!   exactly one byte — the checksum — with no trailing separator.
//!
//! Interleaved binary-mode runs (a colon followed by an upper-case `A`,
//! through the next line feed) are skipped.  The assembler owns a parse
//! buffer fed in arbitrary chunks, recognizes one unit at a time, and
//! reports completed blocks to a listener; its whole behaviour is
//! specified by the [`process`] state machine over the buffered bytes.

use core::marker::PhantomData;
use vstd::prelude::*;

use crate::VEError;
use crate::checksum::byte_sum;
use crate::data::VEDirectData;
use crate::fields::FieldMap;

verus! {

pub const CR: u8 = 13;

pub const LF: u8 = 10;

pub const TAB: u8 = 9;

pub const COLON: u8 = 58;

pub const UPPER_A: u8 = 65;

/// The reserved label that closes a block.
pub open spec fn checksum_label() -> Seq<u8> {
    seq![67u8, 104u8, 101u8, 99u8, 107u8, 115u8, 117u8, 109u8]
}

/// Compares a label against the reserved word `Checksum`.
fn is_checksum_label(b: &[u8]) -> (r: bool)
    ensures
        r == (b@ == checksum_label()),
{
    if b.len() != 8 {
        proof {
            assert(b@ != checksum_label());
        }
        return false;
    }
    let r = *vstd::slice::slice_index_get(b, 0) == 67 && *vstd::slice::slice_index_get(b, 1)
        == 104 && *vstd::slice::slice_index_get(b, 2) == 101 && *vstd::slice::slice_index_get(b, 3)
        == 99 && *vstd::slice::slice_index_get(b, 4) == 107 && *vstd::slice::slice_index_get(b, 5)
        == 115 && *vstd::slice::slice_index_get(b, 6) == 117 && *vstd::slice::slice_index_get(b, 7)
        == 109;
    proof {
        if r {
            assert(b@ =~= checksum_label());
        } else {
            if b@ == checksum_label() {
                assert(b@[0] == 67 && b@[1] == 104 && b@[2] == 101 && b@[3] == 99 && b@[4] == 107
                    && b@[5] == 115 && b@[6] == 117 && b@[7] == 109);
            }
        }
    }
    r
}

/// True when the byte is one of the stop bytes selected by the flags:
/// tab, carriage return, line feed.
pub open spec fn stop_matches(b: u8, t: bool, c: bool, l: bool) -> bool {
    (t && b == TAB) || (c && b == CR) || (l && b == LF)
}

/// The first position at or after `i` holding a selected stop byte, or
/// the sequence's length when there is none.
pub open spec fn find_stop(s: Seq<u8>, i: int, t: bool, c: bool, l: bool) -> int
    decreases s.len() - i when 0 <= i <= s.len()
{
    if i >= s.len() {
        s.len() as int
    } else if stop_matches(s[i], t, c, l) {
        i
    } else {
        find_stop(s, i + 1, t, c, l)
    }
}

pub proof fn lemma_find_stop(s: Seq<u8>, i: int, t: bool, c: bool, l: bool)
    requires
        0 <= i <= s.len(),
    ensures
        i <= find_stop(s, i, t, c, l) <= s.len(),
        find_stop(s, i, t, c, l) < s.len() ==> stop_matches(s[find_stop(s, i, t, c, l)], t, c, l),
        forall|j: int| i <= j < find_stop(s, i, t, c, l) ==> !stop_matches(#[trigger] s[j], t, c, l),
    decreases s.len() - i,
{
    if i < s.len() && !stop_matches(s[i], t, c, l) {
        lemma_find_stop(s, i + 1, t, c, l);
    }
}

/// A position holding a stop byte, with none between the start and it,
/// is the position found.
pub proof fn lemma_find_stop_is(s: Seq<u8>, i: int, k: int, t: bool, c: bool, l: bool)
    requires
        0 <= i <= k < s.len(),
        stop_matches(s[k], t, c, l),
        forall|j: int| i <= j < k ==> !stop_matches(#[trigger] s[j], t, c, l),
    ensures
        find_stop(s, i, t, c, l) == k,
    decreases k - i,
{
    if i < k {
        lemma_find_stop_is(s, i + 1, k, t, c, l);
    }
}

/// A search that found a stop byte gives the same answer after more
/// bytes are appended.
pub proof fn lemma_find_stop_append(s: Seq<u8>, x: Seq<u8>, i: int, t: bool, c: bool, l: bool)
    requires
        0 <= i <= s.len(),
        find_stop(s, i, t, c, l) < s.len(),
    ensures
        find_stop(s + x, i, t, c, l) == find_stop(s, i, t, c, l),
    decreases s.len() - i,
{
    assert((s + x)[i] == s[i]);
    if !stop_matches(s[i], t, c, l) {
        lemma_find_stop(s, i + 1, t, c, l);
        lemma_find_stop_append(s, x, i + 1, t, c, l);
    }
}

/// A search is unmoved by dropping a prefix before its start.
pub proof fn lemma_find_stop_skip(s: Seq<u8>, d: int, i: int, t: bool, c: bool, l: bool)
    requires
        0 <= d <= i <= s.len(),
    ensures
        find_stop(s.skip(d), i - d, t, c, l) == find_stop(s, i, t, c, l) - d,
    decreases s.len() - i,
{
    if i < s.len() {
        assert(s.skip(d)[i - d] == s[i]);
        if !stop_matches(s[i], t, c, l) {
            lemma_find_stop_skip(s, d, i + 1, t, c, l);
        }
    }
}

/// Finds the first selected stop byte at or after `from`.
fn find_stop_from(data: &[u8], from: usize, t: bool, c: bool, l: bool) -> (r: usize)
    requires
        from <= data@.len(),
    ensures
        r == find_stop(data@, from as int, t, c, l),
{
    let n = data.len();
    let mut i: usize = from;
    while i < n
        invariant
            from <= i <= n,
            n == data@.len(),
            find_stop(data@, from as int, t, c, l) == find_stop(data@, i as int, t, c, l),
        decreases n - i,
    {
        let b = *vstd::slice::slice_index_get(data, i);
        if (t && b == TAB) || (c && b == CR) || (l && b == LF) {
            return i;
        }
        i = i + 1;
    }
    i
}

/// What the grammar recognizes at the head of a byte sequence.
pub enum Step {
    /// The bytes end before a whole unit is present.
    NeedMore,
    /// The bytes at the head cannot form a line.
    Malformed,
    /// A field line; `next` is the position of the carriage return that
    /// opens the following line.
    Field { label: Seq<u8>, value: Seq<u8>, next: int },
    /// A checksum line closing a block; `next` is the position just
    /// past the checksum byte.
    Block { checksum: u8, next: int },
}

/// Recognizes one line at the head of `s`.
pub open spec fn step_of(s: Seq<u8>) -> Step {
    if s.len() < 2 {
        Step::NeedMore
    } else if s[0] != CR || s[1] != LF {
        Step::Malformed
    } else {
        let t = find_stop(s, 2, true, true, true);
        if t == s.len() {
            Step::NeedMore
        } else if s[t] != TAB {
            Step::Malformed
        } else if t == 2 {
            Step::Malformed
        } else {
            let label = s.subrange(2, t);
            if label == checksum_label() {
                if t + 1 >= s.len() {
                    Step::NeedMore
                } else {
                    Step::Block { checksum: s[t + 1], next: t + 2 }
                }
            } else {
                let e = find_stop(s, t + 1, false, true, false);
                if e == s.len() {
                    Step::NeedMore
                } else {
                    Step::Field { label, value: s.subrange(t + 1, e), next: e }
                }
            }
        }
    }
}

/// A consuming step stays the same after more bytes are appended: what
/// has been recognized is never unrecognized.
pub proof fn lemma_step_append(s: Seq<u8>, x: Seq<u8>)
    requires
        !(step_of(s) is NeedMore),
    ensures
        step_of(s + x) == step_of(s),
{
    if s.len() >= 2 {
        assert((s + x)[0] == s[0] && (s + x)[1] == s[1]);
        if s[0] == CR && s[1] == LF {
            lemma_find_stop(s, 2, true, true, true);
            let t = find_stop(s, 2, true, true, true);
            if t < s.len() {
                lemma_find_stop_append(s, x, 2, true, true, true);
                assert((s + x)[t] == s[t]);
                if s[t] == TAB && t != 2 {
                    assert((s + x).subrange(2, t) =~= s.subrange(2, t));
                    if s.subrange(2, t) == checksum_label() {
                        if t + 1 < s.len() {
                            assert((s + x)[t + 1] == s[t + 1]);
                        }
                    } else {
                        let e = find_stop(s, t + 1, false, true, false);
                        lemma_find_stop(s, t + 1, false, true, false);
                        if e < s.len() {
                            lemma_find_stop_append(s, x, t + 1, false, true, false);
                            assert((s + x).subrange(t + 1, e) =~= s.subrange(t + 1, e));
                        }
                    }
                }
            }
        }
    }
}

/// One parsed field: a raw label and a raw value.
#[derive(Debug)]
pub struct VEField {
    pub label: Vec<u8>,
    pub value: Vec<u8>,
}

/// Copies `data[from..to]` into a fresh vector.
fn bytes_of_range(data: &[u8], from: usize, to: usize) -> (r: Vec<u8>)
    requires
        from <= to <= data@.len(),
    ensures
        r@ == data@.subrange(from as int, to as int),
{
    vstd::slice::slice_to_vec(vstd::slice::slice_subrange(data, from, to))
}

/// Recognizes the line that starts at `read_pos`, per [`step_of`] on
/// the bytes from that position on.
///
/// On a field or checksum line the returned position is `read_pos` plus
/// the step's `next`; an incomplete line gives `NeedMoreData` and a
/// malformed one a `Parse` error.
pub fn parse_field(data: &[u8], read_pos: usize) -> (r: Result<(VEField, usize), VEError>)
    requires
        read_pos <= data@.len(),
    ensures
        match step_of(data@.skip(read_pos as int)) {
            Step::NeedMore => r matches Err(VEError::NeedMoreData),
            Step::Malformed => r matches Err(VEError::Parse(_)),
            Step::Field { label, value, next } => r matches Ok((f, n)) && f.label@ == label
                && f.value@ == value && n == read_pos + next,
            Step::Block { checksum, next } => r matches Ok((f, n)) && f.label@ == checksum_label()
                && f.value@ == seq![checksum] && n == read_pos + next,
        },
{
    let ghost s = data@.skip(read_pos as int);
    let n = data.len();
    if read_pos >= n || read_pos + 1 >= n {
        return Err(VEError::NeedMoreData);
    }
    assert(s.len() >= 2 && s[0] == data@[read_pos as int] && s[1] == data@[read_pos + 1]);
    if *vstd::slice::slice_index_get(data, read_pos) != CR || *vstd::slice::slice_index_get(
        data,
        read_pos + 1,
    ) != LF {
        return Err(VEError::Parse("Illegal field start".to_owned()));
    }
    let t = find_stop_from(data, read_pos + 2, true, true, true);
    proof {
        lemma_find_stop_skip(data@, read_pos as int, read_pos + 2, true, true, true);
        lemma_find_stop(data@, read_pos + 2, true, true, true);
    }
    if t == n {
        return Err(VEError::NeedMoreData);
    }
    if *vstd::slice::slice_index_get(data, t) != TAB {
        return Err(VEError::Parse("field line without a tab separator".to_owned()));
    }
    if t == read_pos + 2 {
        return Err(VEError::Parse("empty field label".to_owned()));
    }
    let label = bytes_of_range(data, read_pos + 2, t);
    proof {
        assert(label@ =~= s.subrange(2, t - read_pos));
    }
    if is_checksum_label(label.as_slice()) {
        if t + 1 >= n {
            return Err(VEError::NeedMoreData);
        }
        let c = *vstd::slice::slice_index_get(data, t + 1);
        let mut value: Vec<u8> = Vec::new();
        value.push(c);
        proof {
            assert(value@ =~= seq![s[t + 1 - read_pos]]);
        }
        Ok((VEField { label, value }, t + 2))
    } else {
        let e = find_stop_from(data, t + 1, false, true, false);
        proof {
            lemma_find_stop_skip(data@, read_pos as int, t + 1, false, true, false);
            lemma_find_stop(data@, t + 1, false, true, false);
        }
        if e == n {
            return Err(VEError::NeedMoreData);
        }
        let value = bytes_of_range(data, t + 1, e);
        proof {
            assert(value@ =~= s.subrange(t + 1 - read_pos, e - read_pos));
        }
        Ok((VEField { label, value }, e))
    }
}

/// The lower bound every consuming step obeys: it always moves forward.
pub proof fn lemma_step_bounds(s: Seq<u8>)
    ensures
        step_of(s) matches Step::Field { next, .. } ==> 4 <= next < s.len(),
        step_of(s) matches Step::Block { next, .. } ==> 5 <= next <= s.len(),
{
    if s.len() >= 2 && s[0] == CR && s[1] == LF {
        lemma_find_stop(s, 2, true, true, true);
        let t = find_stop(s, 2, true, true, true);
        if 2 < t < s.len() {
            lemma_find_stop(s, t + 1, false, true, false);
        }
    }
}

/// One completed block: its field map, its checksum byte, and whether
/// the frame span summed to zero.
pub struct BlockView {
    pub fields: Map<Seq<u8>, Seq<u8>>,
    pub checksum: u8,
    pub sum_ok: bool,
}

/// The outcome of running the assembler over buffered bytes: the blocks
/// completed, the unconsumed remainder, the fields and running sum of
/// the block in progress, and whether a malformed line forced a reset
/// (with the unconsumed bytes at the failure as diagnostics).
pub struct ProcOut {
    pub blocks: Seq<BlockView>,
    pub rest: Seq<u8>,
    pub fields: Map<Seq<u8>, Seq<u8>>,
    pub sum: int,
    pub reset: bool,
    pub diag: Seq<u8>,
}

/// The assembler's state machine over a byte buffer.
///
/// `f` holds the fields of the block in progress and `m` the sum,
/// modulo 256, of the block's bytes consumed so far.  Binary-mode runs
/// are skipped through their line feed; a field line is recorded; a
/// checksum line closes the block, whose span sums to zero exactly when
/// `m` plus the sum of the line's own bytes does; a malformed line
/// resets everything; an incomplete line stops, keeping the remainder.
pub open spec fn process(s: Seq<u8>, f: Map<Seq<u8>, Seq<u8>>, m: int) -> ProcOut
    decreases s.len() via process_decreases
{
    if s.len() >= 2 && s[0] == COLON && s[1] == UPPER_A {
        let i = find_stop(s, 0, false, false, true);
        if i == s.len() {
            ProcOut { blocks: Seq::empty(), rest: s, fields: f, sum: m, reset: false, diag: Seq::empty() }
        } else {
            process(s.skip(i + 1), f, m)
        }
    } else {
        match step_of(s) {
            Step::NeedMore => ProcOut {
                blocks: Seq::empty(),
                rest: s,
                fields: f,
                sum: m,
                reset: false,
                diag: Seq::empty(),
            },
            Step::Malformed => ProcOut {
                blocks: Seq::empty(),
                rest: Seq::empty(),
                fields: Map::empty(),
                sum: 0,
                reset: true,
                diag: s,
            },
            Step::Field { label, value, next } => process(
                s.skip(next),
                f.insert(label, value),
                (m + byte_sum(s.take(next))) % 256,
            ),
            Step::Block { checksum, next } => {
                let ok = (m + byte_sum(s.take(next))) % 256 == 0;
                let rec = process(s.skip(next), Map::empty(), 0);
                ProcOut {
                    blocks: seq![BlockView { fields: f, checksum, sum_ok: ok }] + rec.blocks,
                    rest: rec.rest,
                    fields: rec.fields,
                    sum: rec.sum,
                    reset: rec.reset,
                    diag: rec.diag,
                }
            },
        }
    }
}

#[via_fn]
proof fn process_decreases(s: Seq<u8>, f: Map<Seq<u8>, Seq<u8>>, m: int) {
    if s.len() >= 2 && s[0] == COLON && s[1] == UPPER_A {
        lemma_find_stop(s, 0, false, false, true);
    } else {
        lemma_step_bounds(s);
    }
}

/// One completed block as the scanner hands it out.
pub struct RawBlock {
    pub fields: FieldMap,
    pub checksum: u8,
    pub sum_ok: bool,
}

impl View for RawBlock {
    type V = BlockView;

    open spec fn view(&self) -> BlockView {
        BlockView { fields: self.fields@, checksum: self.checksum, sum_ok: self.sum_ok }
    }
}

/// Extends a running modulo-256 sum by the bytes of `data[from..to]`.
fn add_range_mod(data: &[u8], from: usize, to: usize, acc: u8) -> (r: u8)
    requires
        from <= to <= data@.len(),
    ensures
        r as int == (acc + byte_sum(data@.subrange(from as int, to as int))) % 256,
{
    let mut r: u8 = acc;
    let mut j: usize = from;
    proof {
        assert(data@.subrange(from as int, from as int) =~= Seq::<u8>::empty());
    }
    while j < to
        invariant
            from <= j <= to <= data@.len(),
            r as int == (acc + byte_sum(data@.subrange(from as int, j as int))) % 256,
        decreases to - j,
    {
        let b = *vstd::slice::slice_index_get(data, j);
        proof {
            assert(data@.subrange(from as int, j + 1).drop_last() =~= data@.subrange(
                from as int,
                j as int,
            ));
            assert(data@.subrange(from as int, j + 1).last() == data@[j as int]);
            crate::checksum::lemma_byte_sum_nonneg(data@.subrange(from as int, j as int));
            vstd::arithmetic::div_mod::lemma_add_mod_noop(
                acc + byte_sum(data@.subrange(from as int, j as int)),
                b as int,
                256,
            );
        }
        r = ((r as u16 + b as u16) % 256) as u8;
        j = j + 1;
    }
    r
}

/// Runs the assembler over the buffered bytes, implementing [`process`]
/// exactly: returns the completed blocks and, after a malformed line,
/// the error with the unconsumed bytes at the failure; leaves the
/// unconsumed remainder, the fields in progress and the running sum
/// behind.
fn scan(buf: &mut Vec<u8>, fields: &mut FieldMap, sum: &mut u8) -> (out: (
    Vec<RawBlock>,
    Option<(VEError, Vec<u8>)>,
))
    ensures
        out.0@.map_values(|b: RawBlock| b@) == process(old(buf)@, old(fields)@, *old(sum) as int).blocks,
        final(buf)@ == process(old(buf)@, old(fields)@, *old(sum) as int).rest,
        final(fields)@ == process(old(buf)@, old(fields)@, *old(sum) as int).fields,
        *final(sum) as int == process(old(buf)@, old(fields)@, *old(sum) as int).sum,
        (out.1 is Some) == process(old(buf)@, old(fields)@, *old(sum) as int).reset,
        out.1 matches Some((e, d)) ==> (e matches VEError::Parse(_)) && d@ == process(
            old(buf)@,
            old(fields)@,
            *old(sum) as int,
        ).diag,
{
    let ghost p0 = process(old(buf)@, old(fields)@, *old(sum) as int);
    let mut blocks: Vec<RawBlock> = Vec::new();
    let mut cp: usize = 0;
    proof {
        assert(buf@.skip(0) =~= buf@);
        assert(blocks@.map_values(|b: RawBlock| b@) =~= Seq::<BlockView>::empty());
    }
    loop
        invariant
            cp <= buf@.len(),
            buf@ == old(buf)@,
            p0 == process(old(buf)@, old(fields)@, *old(sum) as int),
            p0.blocks == blocks@.map_values(|b: RawBlock| b@) + process(
                buf@.skip(cp as int),
                fields@,
                *sum as int,
            ).blocks,
            p0.rest == process(buf@.skip(cp as int), fields@, *sum as int).rest,
            p0.fields == process(buf@.skip(cp as int), fields@, *sum as int).fields,
            p0.sum == process(buf@.skip(cp as int), fields@, *sum as int).sum,
            p0.reset == process(buf@.skip(cp as int), fields@, *sum as int).reset,
            p0.diag == process(buf@.skip(cp as int), fields@, *sum as int).diag,
        decreases buf@.len() - cp,
    {
        let ghost s_cur = buf@.skip(cp as int);
        let ghost q = process(s_cur, fields@, *sum as int);
        let n = buf.len();
        if cp < n && cp + 1 < n && buf[cp] == COLON && buf[cp + 1] == UPPER_A {
            proof {
                assert(s_cur[0] == COLON && s_cur[1] == UPPER_A);
                lemma_find_stop_skip(buf@, cp as int, cp as int, false, false, true);
                lemma_find_stop(buf@, cp as int, false, false, true);
            }
            let i = find_stop_from(buf.as_slice(), cp, false, false, true);
            if i == n {
                let tail = buf.split_off(cp);
                *buf = tail;
                proof {
                    assert(blocks@.map_values(|b: RawBlock| b@) + q.blocks =~= blocks@.map_values(
                        |b: RawBlock| b@,
                    ));
                }
                return (blocks, None);
            } else {
                proof {
                    assert(s_cur.skip(i + 1 - cp) =~= buf@.skip(i + 1));
                }
                cp = i + 1;
            }
        } else {
            proof {
                assert(s_cur.len() >= 2 ==> (s_cur[0] == buf@[cp as int] && s_cur[1] == buf@[cp
                    + 1]));
                lemma_step_bounds(s_cur);
            }
            match parse_field(buf.as_slice(), cp) {
                Err(VEError::NeedMoreData) => {
                    let tail = buf.split_off(cp);
                    *buf = tail;
                    proof {
                        assert(blocks@.map_values(|b: RawBlock| b@) + q.blocks
                            =~= blocks@.map_values(|b: RawBlock| b@));
                    }
                    return (blocks, None);
                },
                Err(e) => {
                    let diag = bytes_of_range(buf.as_slice(), cp, n);
                    proof {
                        assert(diag@ =~= s_cur);
                    }
                    buf.clear();
                    fields.clear();
                    *sum = 0;
                    proof {
                        assert(blocks@.map_values(|b: RawBlock| b@) + q.blocks
                            =~= blocks@.map_values(|b: RawBlock| b@));
                        assert(buf@ =~= Seq::<u8>::empty());
                    }
                    return (blocks, Some((e, diag)));
                },
                Ok((field, next)) => {
                    let ghost rel = next - cp;
                    proof {
                        assert(s_cur.take(rel) =~= buf@.subrange(cp as int, next as int));
                    }
                    *sum = add_range_mod(buf.as_slice(), cp, next, *sum);
                    if is_checksum_label(field.label.as_slice()) {
                        let sum_ok = *sum == 0;
                        let c = field.value[0];
                        let mut done = FieldMap::new();
                        core::mem::swap(fields, &mut done);
                        let ghost old_blocks = blocks@;
                        blocks.push(RawBlock { fields: done, checksum: c, sum_ok });
                        *sum = 0;
                        proof {
                            assert(s_cur.skip(rel) =~= buf@.skip(cp + rel));
                            let bv = BlockView { fields: done@, checksum: c, sum_ok };
                            assert(blocks@.map_values(|b: RawBlock| b@) =~= old_blocks.map_values(
                                |b: RawBlock| b@,
                            ).push(bv));
                            assert(old_blocks.map_values(|b: RawBlock| b@) + (seq![bv] + process(
                                s_cur.skip(rel),
                                Map::empty(),
                                0,
                            ).blocks) =~= blocks@.map_values(|b: RawBlock| b@) + process(
                                s_cur.skip(rel),
                                Map::empty(),
                                0,
                            ).blocks);
                        }
                        cp = next;
                    } else {
                        proof {
                            assert(s_cur.skip(rel) =~= buf@.skip(cp + rel));
                        }
                        fields.insert(field.label, field.value);
                        cp = next;
                    }
                },
            }
        }
    }
}

/// The consumer of the assembler's outcomes.  Every method has an empty
/// default body; a consumer overrides the ones it cares about.
pub trait Events<D: VEDirectData> {
    /// A block was completed and converted.
    fn on_complete_block(&mut self, _block: D) {
    }

    /// A completed block lacked a required field.
    fn on_missing_field(&mut self, _label: Vec<u8>) {
    }

    /// A completed block's conversion failed.
    fn on_mapping_error(&mut self, _error: VEError) {
    }

    /// A completed block's frame span did not sum to zero; the block is
    /// still converted, but must not be taken as valid data.
    fn on_checksum_error(&mut self, _checksum: u8) {
    }

    /// A malformed line forced a reset; the unconsumed bytes at the
    /// failure are passed for diagnostics and then discarded.
    fn on_parse_error(&mut self, _error: VEError, _parse_buf: &Vec<u8>) {
    }
}

/// Where a feed call starts the state machine: the buffered bytes plus
/// the new chunk, the chunk first cut at its first carriage return when
/// the stream is not aligned yet.  `None` when alignment is still
/// impossible.
pub open spec fn feed_start(aligning: bool, buffered: Seq<u8>, d: Seq<u8>) -> Option<Seq<u8>> {
    if aligning {
        let i = find_stop(d, 0, false, true, false);
        if i == d.len() {
            None
        } else {
            Some(buffered + d.skip(i))
        }
    } else {
        Some(buffered + d)
    }
}

/// The streaming assembler: owns the parse buffer and the block in
/// progress, and drives a listener with every outcome.
pub struct Parser<D: VEDirectData, E: Events<D>> {
    first_parse: bool,
    parse_buf: Vec<u8>,
    fields: FieldMap,
    block_sum: u8,
    /// The consumer of completed blocks and errors.
    pub listener: E,
    device: PhantomData<D>,
}

impl<D: VEDirectData, E: Events<D>> Parser<D, E> {
    /// The bytes fed but not yet consumed into completed or discarded
    /// blocks.
    pub closed spec fn buffered(&self) -> Seq<u8> {
        self.parse_buf@
    }

    /// The fields of the block in progress.
    pub closed spec fn fields_in_progress(&self) -> Map<Seq<u8>, Seq<u8>> {
        self.fields@
    }

    /// True until the first carriage return has been seen (and after a
    /// reset): leading bytes before it are discarded.
    pub closed spec fn awaiting_alignment(&self) -> bool {
        self.first_parse
    }

    /// The modulo-256 sum of the in-progress block's consumed bytes.
    pub closed spec fn running_sum(&self) -> int {
        self.block_sum as int
    }

    /// The listener, as a spec-level value.
    pub closed spec fn consumer(&self) -> E {
        self.listener
    }

    /// Creates an assembler that reports to `listener`.
    pub fn new(listener: E) -> (r: Parser<D, E>)
        ensures
            r.buffered() == Seq::<u8>::empty(),
            r.fields_in_progress() == Map::<Seq<u8>, Seq<u8>>::empty(),
            r.awaiting_alignment(),
            r.running_sum() == 0,
            r.consumer() == listener,
    {
        Parser {
            first_parse: true,
            parse_buf: Vec::new(),
            fields: FieldMap::new(),
            block_sum: 0,
            listener,
            device: PhantomData,
        }
    }

    /// The number of bytes currently buffered.
    pub fn buffered_len(&self) -> (n: usize)
        ensures
            n == self.buffered().len(),
    {
        self.parse_buf.len()
    }

    /// Feeds one chunk.  The buffered bytes plus the chunk are run
    /// through [`process`]; the listener hears, in order, each completed
    /// block (its checksum verdict first, then its conversion outcome)
    /// and at most one trailing parse error.  Returns `NeedMoreData`
    /// only while alignment is impossible, consuming nothing.
    pub fn feed(&mut self, data: &[u8]) -> (r: Result<(), VEError>)
        ensures
            match feed_start(old(self).awaiting_alignment(), old(self).buffered(), data@) {
                Option::None => r matches Err(VEError::NeedMoreData)
                    && final(self).awaiting_alignment() && final(self).buffered() == old(
                    self,
                ).buffered() && final(self).fields_in_progress() == old(self).fields_in_progress()
                    && final(self).running_sum() == old(self).running_sum() && final(self).consumer()
                    == old(self).consumer(),
                Option::Some(start) => r is Ok && final(self).buffered() == process(
                    start,
                    old(self).fields_in_progress(),
                    old(self).running_sum(),
                ).rest && final(self).fields_in_progress() == process(
                    start,
                    old(self).fields_in_progress(),
                    old(self).running_sum(),
                ).fields && final(self).running_sum() == process(
                    start,
                    old(self).fields_in_progress(),
                    old(self).running_sum(),
                ).sum && final(self).awaiting_alignment() == process(
                    start,
                    old(self).fields_in_progress(),
                    old(self).running_sum(),
                ).reset,
            },
    {
        if self.first_parse {
            let pos = find_stop_from(data, 0, false, true, false);
            proof {
                lemma_find_stop(data@, 0, false, true, false);
            }
            if pos == data.len() {
                return Err(VEError::NeedMoreData);
            }
            let rest = vstd::slice::slice_subrange(data, pos, data.len());
            proof {
                assert(rest@ =~= data@.skip(pos as int));
            }
            self.parse_buf.extend_from_slice(rest);
            self.first_parse = false;
        } else {
            self.parse_buf.extend_from_slice(data);
        }
        let ghost start = self.parse_buf@;
        let ghost q = process(start, self.fields@, self.block_sum as int);
        let (blocks, perr) = scan(&mut self.parse_buf, &mut self.fields, &mut self.block_sum);
        if perr.is_some() {
            self.first_parse = true;
        }
        let n = blocks.len();
        let mut i: usize = 0;
        while i < n
            invariant
                i <= n,
                n == blocks@.len(),
                self.parse_buf@ == q.rest,
                self.fields@ == q.fields,
                self.block_sum as int == q.sum,
                self.first_parse == q.reset,
            decreases n - i,
        {
            let b = &blocks[i];
            if !b.sum_ok {
                self.listener.on_checksum_error(b.checksum);
            }
            match D::fill(&b.fields) {
                Ok(mapped) => self.listener.on_complete_block(mapped),
                Err(VEError::MissingField(label)) => self.listener.on_missing_field(label),
                Err(e) => self.listener.on_mapping_error(e),
            }
            i = i + 1;
        }
        match perr {
            Some((e, diag)) => self.listener.on_parse_error(e, &diag),
            None => (),
        }
        proof {
            assert(feed_start(old(self).awaiting_alignment(), old(self).buffered(), data@)
                == Some(start));
        }
        Ok(())
    }
}

} // verus!
