//! The laws the assembler obeys, proved over its state machine.
//!
//! [`process`](crate::parser::process) is the whole behaviour of a feed
//! call (see `Parser::feed`'s contract), so each law here is a statement
//! about the assembler itself: how chunking, whole frames, corrupted
//! checksums, binary-mode runs and resynchronization play out.

use vstd::prelude::*;

use crate::checksum::byte_sum;
use crate::checksum::lemma_byte_sum_concat;
use crate::parser::BlockView;
use crate::parser::COLON;
use crate::parser::CR;
use crate::parser::LF;
use crate::parser::ProcOut;
use crate::parser::Step;
use crate::parser::TAB;
use crate::parser::UPPER_A;
use crate::parser::checksum_label;
use crate::parser::feed_start;
use crate::parser::find_stop;
use crate::parser::lemma_find_stop;
use crate::parser::lemma_find_stop_append;
use crate::parser::lemma_find_stop_is;
use crate::parser::lemma_step_append;
use crate::parser::lemma_step_bounds;
use crate::parser::process;
use crate::parser::step_of;

verus! {

/// Chunking is immaterial: as long as no malformed line forces a reset,
/// processing a buffer and then the next chunk gives exactly the blocks
/// and state that processing their concatenation at once gives.  Feeding
/// a stream byte by byte therefore completes the same blocks, in the
/// same order, as feeding it whole.
pub proof fn lemma_process_chunking(s: Seq<u8>, x: Seq<u8>, f: Map<Seq<u8>, Seq<u8>>, m: int)
    requires
        !process(s, f, m).reset,
    ensures
        ({
            let p = process(s, f, m);
            let pc = process(p.rest + x, p.fields, p.sum);
            let whole = process(s + x, f, m);
            whole.blocks == p.blocks + pc.blocks && whole.rest == pc.rest && whole.fields
                == pc.fields && whole.sum == pc.sum && whole.reset == pc.reset && whole.diag
                == pc.diag
        }),
    decreases s.len(),
{
    let p = process(s, f, m);
    let pc = process(p.rest + x, p.fields, p.sum);
    let whole = process(s + x, f, m);
    if s.len() >= 2 && s[0] == COLON && s[1] == UPPER_A {
        assert((s + x)[0] == s[0] && (s + x)[1] == s[1]);
        let i = find_stop(s, 0, false, false, true);
        lemma_find_stop(s, 0, false, false, true);
        if i == s.len() {
            assert(p.rest + x =~= s + x);
            assert(p.blocks + pc.blocks =~= pc.blocks);
        } else {
            lemma_find_stop_append(s, x, 0, false, false, true);
            assert((s + x).skip(i + 1) =~= s.skip(i + 1) + x);
            lemma_process_chunking(s.skip(i + 1), x, f, m);
        }
    } else if step_of(s) is NeedMore {
        assert(p.rest + x =~= s + x);
        assert(p.blocks + pc.blocks =~= pc.blocks);
    } else {
        assert(s.len() >= 2 && (s + x)[0] == s[0] && (s + x)[1] == s[1]);
        lemma_step_append(s, x);
        lemma_step_bounds(s);
        match step_of(s) {
            Step::Field { label, value, next } => {
                assert((s + x).take(next) =~= s.take(next));
                assert((s + x).skip(next) =~= s.skip(next) + x);
                lemma_process_chunking(
                    s.skip(next),
                    x,
                    f.insert(label, value),
                    (m + byte_sum(s.take(next))) % 256,
                );
            },
            Step::Block { checksum, next } => {
                assert((s + x).take(next) =~= s.take(next));
                assert((s + x).skip(next) =~= s.skip(next) + x);
                lemma_process_chunking(s.skip(next), x, Map::empty(), 0);
                let ok = (m + byte_sum(s.take(next))) % 256 == 0;
                let bv = BlockView { fields: f, checksum, sum_ok: ok };
                let rec = process(s.skip(next), Map::empty(), 0);
                let recw = process((s + x).skip(next), Map::empty(), 0);
                assert(recw.blocks == rec.blocks + pc.blocks);
                assert(seq![bv] + (rec.blocks + pc.blocks) =~= (seq![bv] + rec.blocks)
                    + pc.blocks);
            },
            _ => {
            },
        }
    }
}

/// A reset never goes away: a buffer whose processing hits a malformed
/// line still hits it after more bytes are appended.
pub proof fn lemma_reset_monotone(s: Seq<u8>, x: Seq<u8>, f: Map<Seq<u8>, Seq<u8>>, m: int)
    requires
        process(s, f, m).reset,
    ensures
        process(s + x, f, m).reset,
    decreases s.len(),
{
    if s.len() >= 2 && s[0] == COLON && s[1] == UPPER_A {
        assert((s + x)[0] == s[0] && (s + x)[1] == s[1]);
        let i = find_stop(s, 0, false, false, true);
        lemma_find_stop(s, 0, false, false, true);
        if i < s.len() {
            lemma_find_stop_append(s, x, 0, false, false, true);
            assert((s + x).skip(i + 1) =~= s.skip(i + 1) + x);
            lemma_reset_monotone(s.skip(i + 1), x, f, m);
        }
    } else if step_of(s) is NeedMore {
    } else {
        assert(s.len() >= 2 && (s + x)[0] == s[0] && (s + x)[1] == s[1]);
        lemma_step_append(s, x);
        lemma_step_bounds(s);
        match step_of(s) {
            Step::Field { label, value, next } => {
                assert((s + x).take(next) =~= s.take(next));
                assert((s + x).skip(next) =~= s.skip(next) + x);
                lemma_reset_monotone(
                    s.skip(next),
                    x,
                    f.insert(label, value),
                    (m + byte_sum(s.take(next))) % 256,
                );
            },
            Step::Block { checksum, next } => {
                assert((s + x).take(next) =~= s.take(next));
                assert((s + x).skip(next) =~= s.skip(next) + x);
                lemma_reset_monotone(s.skip(next), x, Map::empty(), 0);
            },
            _ => {
            },
        }
    }
}

/// A buffer the assembler has stopped on: running the state machine
/// over it consumes nothing and changes nothing.  The retained
/// remainder of any feed call is such a buffer.
pub open spec fn quiescent(buf: Seq<u8>, f: Map<Seq<u8>, Seq<u8>>, m: int) -> bool {
    let p = process(buf, f, m);
    p.blocks == Seq::<BlockView>::empty() && p.rest == buf && p.fields == f && p.sum == m
        && !p.reset
}

/// What processing leaves behind is quiescent: feeding nothing more
/// changes nothing.
pub proof fn lemma_process_rest_quiescent(s: Seq<u8>, f: Map<Seq<u8>, Seq<u8>>, m: int)
    requires
        !process(s, f, m).reset,
    ensures
        quiescent(process(s, f, m).rest, process(s, f, m).fields, process(s, f, m).sum),
    decreases s.len(),
{
    if s.len() >= 2 && s[0] == COLON && s[1] == UPPER_A {
        let i = find_stop(s, 0, false, false, true);
        lemma_find_stop(s, 0, false, false, true);
        if i < s.len() {
            lemma_process_rest_quiescent(s.skip(i + 1), f, m);
        }
    } else {
        lemma_step_bounds(s);
        match step_of(s) {
            Step::Field { label, value, next } => {
                lemma_process_rest_quiescent(
                    s.skip(next),
                    f.insert(label, value),
                    (m + byte_sum(s.take(next))) % 256,
                );
            },
            Step::Block { checksum, next } => {
                lemma_process_rest_quiescent(s.skip(next), Map::empty(), 0);
            },
            _ => {
            },
        }
    }
}

/// The state machine folded over a list of chunks, each appended to the
/// remainder the previous one left.
pub open spec fn process_chunks(
    chunks: Seq<Seq<u8>>,
    buf: Seq<u8>,
    f: Map<Seq<u8>, Seq<u8>>,
    m: int,
) -> ProcOut
    decreases chunks.len(),
{
    if chunks.len() == 0 {
        ProcOut {
            blocks: Seq::empty(),
            rest: buf,
            fields: f,
            sum: m,
            reset: false,
            diag: Seq::empty(),
        }
    } else {
        let p = process(buf + chunks.first(), f, m);
        let rec = process_chunks(chunks.drop_first(), p.rest, p.fields, p.sum);
        ProcOut {
            blocks: p.blocks + rec.blocks,
            rest: rec.rest,
            fields: rec.fields,
            sum: rec.sum,
            reset: p.reset || rec.reset,
            diag: Seq::empty(),
        }
    }
}

/// Delivery in arbitrary chunks equals delivery at once: feeding a
/// stream as any list of chunks — down to one byte at a time — to an
/// assembler stopped on `buf` completes exactly the blocks, in the
/// same order, that feeding the whole stream in one call completes,
/// and leaves the same state, as long as no malformed line forces a
/// reset.
pub proof fn lemma_any_chunking(
    chunks: Seq<Seq<u8>>,
    buf: Seq<u8>,
    f: Map<Seq<u8>, Seq<u8>>,
    m: int,
)
    requires
        quiescent(buf, f, m),
        !process(buf + chunks.flatten(), f, m).reset,
    ensures
        ({
            let w = process(buf + chunks.flatten(), f, m);
            let c = process_chunks(chunks, buf, f, m);
            c.blocks == w.blocks && c.rest == w.rest && c.fields == w.fields && c.sum == w.sum
                && !c.reset
        }),
    decreases chunks.len(),
{
    if chunks.len() == 0 {
        assert(chunks.flatten() =~= Seq::<u8>::empty());
        assert(buf + chunks.flatten() =~= buf);
    } else {
        assert(chunks.flatten() == chunks.first() + chunks.drop_first().flatten());
        assert(buf + chunks.flatten() =~= (buf + chunks.first())
            + chunks.drop_first().flatten());
        let p = process(buf + chunks.first(), f, m);
        if p.reset {
            lemma_reset_monotone(buf + chunks.first(), chunks.drop_first().flatten(), f, m);
        }
        lemma_process_chunking(buf + chunks.first(), chunks.drop_first().flatten(), f, m);
        lemma_process_rest_quiescent(buf + chunks.first(), f, m);
        lemma_any_chunking(chunks.drop_first(), p.rest, p.fields, p.sum);
    }
}

/// Two feed calls equal one: an aligned assembler fed `a` and then `b`
/// completes exactly the blocks, and reaches exactly the state, of one
/// fed `a + b` — as long as no malformed line intervenes.  This is
/// [`lemma_process_chunking`] in the exact shape of `Parser::feed`'s
/// contract, whose starting buffer is the retained remainder plus the
/// new chunk.
pub proof fn lemma_feed_chunks_compose(
    buffered: Seq<u8>,
    f: Map<Seq<u8>, Seq<u8>>,
    m: int,
    a: Seq<u8>,
    b: Seq<u8>,
)
    requires
        !process(buffered + a, f, m).reset,
    ensures
        ({
            let p = process(buffered + a, f, m);
            let pc = process(p.rest + b, p.fields, p.sum);
            let whole = process(buffered + (a + b), f, m);
            whole.blocks == p.blocks + pc.blocks && whole.rest == pc.rest && whole.fields
                == pc.fields && whole.sum == pc.sum && whole.reset == pc.reset
        }),
{
    assert(buffered + (a + b) =~= (buffered + a) + b);
    lemma_process_chunking(buffered + a, b, f, m);
}

/// A whole frame: field lines, then a checksum line whose checksum byte
/// is the last byte.
pub open spec fn is_frame(s: Seq<u8>) -> bool
    decreases s.len() via is_frame_decreases
{
    match step_of(s) {
        Step::Block { next, .. } => next == s.len(),
        Step::Field { next, .. } => is_frame(s.skip(next)),
        _ => false,
    }
}

#[via_fn]
proof fn is_frame_decreases(s: Seq<u8>) {
    lemma_step_bounds(s);
}

/// The field map a frame's lines build on top of `acc`.
pub open spec fn frame_map(s: Seq<u8>, acc: Map<Seq<u8>, Seq<u8>>) -> Map<Seq<u8>, Seq<u8>>
    decreases s.len() via frame_map_decreases
{
    match step_of(s) {
        Step::Field { label, value, next } => frame_map(s.skip(next), acc.insert(label, value)),
        _ => acc,
    }
}

#[via_fn]
proof fn frame_map_decreases(s: Seq<u8>, acc: Map<Seq<u8>, Seq<u8>>) {
    lemma_step_bounds(s);
}

/// The checksum byte of a frame's closing line.
pub open spec fn frame_checksum(s: Seq<u8>) -> u8
    decreases s.len() via frame_checksum_decreases
{
    match step_of(s) {
        Step::Field { next, .. } => frame_checksum(s.skip(next)),
        Step::Block { checksum, .. } => checksum,
        _ => 0,
    }
}

#[via_fn]
proof fn frame_checksum_decreases(s: Seq<u8>) {
    lemma_step_bounds(s);
}

/// A whole frame completes exactly one block: its fields are the
/// frame's field map over the fields already in progress, and the block
/// is accepted exactly when the running sum plus the frame's bytes
/// reach zero modulo 256.  Nothing of the frame is left buffered.
pub proof fn lemma_complete_frame(s: Seq<u8>, f: Map<Seq<u8>, Seq<u8>>, m: int)
    requires
        is_frame(s),
    ensures
        process(s, f, m).blocks == seq![
            (BlockView {
                fields: frame_map(s, f),
                checksum: frame_checksum(s),
                sum_ok: (m + byte_sum(s)) % 256 == 0,
            }),
        ],
        process(s, f, m).rest == Seq::<u8>::empty(),
        process(s, f, m).fields == Map::<Seq<u8>, Seq<u8>>::empty(),
        process(s, f, m).sum == 0,
        !process(s, f, m).reset,
    decreases s.len(),
{
    lemma_step_bounds(s);
    match step_of(s) {
        Step::Field { label, value, next } => {
            let a = byte_sum(s.take(next));
            let b = byte_sum(s.skip(next));
            assert(s.take(next) + s.skip(next) =~= s);
            lemma_byte_sum_concat(s.take(next), s.skip(next));
            crate::checksum::lemma_byte_sum_nonneg(s.take(next));
            vstd::arithmetic::div_mod::lemma_add_mod_noop(m + a, b, 256);
            vstd::arithmetic::div_mod::lemma_mod_twice(m + a, 256);
            crate::checksum::lemma_byte_sum_nonneg(s.skip(next));
            vstd::arithmetic::div_mod::lemma_mod_twice(b, 256);
            vstd::arithmetic::div_mod::lemma_add_mod_noop((m + a) % 256, b, 256);
            lemma_complete_frame(s.skip(next), f.insert(label, value), (m + a) % 256);
        },
        Step::Block { checksum, next } => {
            assert(s.take(next) =~= s);
            assert(s.skip(next) =~= Seq::<u8>::empty());
            let bv = BlockView {
                fields: f,
                checksum,
                sum_ok: (m + byte_sum(s)) % 256 == 0,
            };
            assert(seq![bv] + process(s.skip(next), Map::empty(), 0).blocks =~= seq![bv]);
        },
        _ => {
        },
    }
}

/// Back-to-back frames come out one block each, in stream order: a
/// whole frame at the head contributes exactly its own block, and the
/// rest of the stream is processed from a fresh block state.  Applied
/// repeatedly: a buffer of consecutive frames, however it was chunked,
/// completes exactly one block per frame, and a trailing partial frame
/// stays buffered.
pub proof fn lemma_back_to_back_frames(s: Seq<u8>, t: Seq<u8>, f: Map<Seq<u8>, Seq<u8>>, m: int)
    requires
        is_frame(s),
    ensures
        process(s + t, f, m).blocks == seq![
            (BlockView {
                fields: frame_map(s, f),
                checksum: frame_checksum(s),
                sum_ok: (m + byte_sum(s)) % 256 == 0,
            }),
        ] + process(t, Map::empty(), 0).blocks,
        process(s + t, f, m).rest == process(t, Map::empty(), 0).rest,
        process(s + t, f, m).fields == process(t, Map::empty(), 0).fields,
        process(s + t, f, m).sum == process(t, Map::empty(), 0).sum,
        process(s + t, f, m).reset == process(t, Map::empty(), 0).reset,
{
    lemma_complete_frame(s, f, m);
    lemma_process_chunking(s, t, f, m);
    assert(Seq::<u8>::empty() + t =~= t);
}

/// A frame whose span does not sum to zero is flagged: the one block it
/// completes carries a false checksum verdict, so it is never handed
/// out as valid data.
pub proof fn lemma_corrupt_frame_flagged(s: Seq<u8>)
    requires
        is_frame(s),
        byte_sum(s) % 256 != 0,
    ensures
        process(s, Map::empty(), 0).blocks.len() == 1,
        !process(s, Map::empty(), 0).blocks[0].sum_ok,
{
    lemma_complete_frame(s, Map::empty(), 0);
}

/// Replacing a frame's checksum byte — its last byte — leaves a frame
/// with the same fields, the new byte as its checksum, and a span sum
/// shifted by exactly the byte difference.
pub proof fn lemma_frame_checksum_flip(p: Seq<u8>, c1: u8, c2: u8, f: Map<Seq<u8>, Seq<u8>>)
    requires
        is_frame(p.push(c1)),
    ensures
        is_frame(p.push(c2)),
        frame_map(p.push(c2), f) == frame_map(p.push(c1), f),
        frame_checksum(p.push(c2)) == c2,
        byte_sum(p.push(c2)) == byte_sum(p) + c2,
    decreases p.len(),
{
    let s1 = p.push(c1);
    let s2 = p.push(c2);
    let len = s1.len() as int;
    crate::checksum::lemma_byte_sum_push(p, c2);
    lemma_step_bounds(s1);
    assert(forall|j: int| 0 <= j < len - 1 ==> s1[j] == #[trigger] s2[j]);
    match step_of(s1) {
        Step::Block { checksum, next } => {
            let t = find_stop(s1, 2, true, true, true);
            lemma_find_stop(s1, 2, true, true, true);
            assert(t == next - 2 && t < len - 1);
            lemma_find_stop_is(s2, 2, t, true, true, true);
            assert(s2.subrange(2, t) =~= s1.subrange(2, t));
            assert(step_of(s2) == (Step::Block { checksum: c2, next }));
        },
        Step::Field { label, value, next } => {
            let t = find_stop(s1, 2, true, true, true);
            lemma_find_stop(s1, 2, true, true, true);
            let e = find_stop(s1, t + 1, false, true, false);
            lemma_find_stop(s1, t + 1, false, true, false);
            assert(e == next);
            if e == len - 1 {
                assert(s1.skip(next).len() < 2);
                assert(!is_frame(s1.skip(next)));
            }
            assert(e < len - 1);
            lemma_find_stop_is(s2, 2, t, true, true, true);
            lemma_find_stop_is(s2, t + 1, e, false, true, false);
            assert(s2.subrange(2, t) =~= s1.subrange(2, t));
            assert(s2.subrange(t + 1, e) =~= s1.subrange(t + 1, e));
            assert(step_of(s2) == (Step::Field { label, value, next }));
            assert(s1.skip(next) =~= p.skip(next).push(c1));
            assert(s2.skip(next) =~= p.skip(next).push(c2));
            lemma_frame_checksum_flip(p.skip(next), c1, c2, f.insert(label, value));
        },
        _ => {
        },
    }
}

/// A frame whose checksum byte was flipped to any wrong value is
/// flagged: the corrupted frame still completes one block, with the
/// same fields, but its checksum verdict is false — it is never passed
/// off as valid.
pub proof fn lemma_flipped_checksum_flagged(p: Seq<u8>, good: u8, bad: u8)
    requires
        is_frame(p.push(good)),
        byte_sum(p.push(good)) % 256 == 0,
        bad != good,
    ensures
        is_frame(p.push(bad)),
        process(p.push(bad), Map::empty(), 0).blocks.len() == 1,
        process(p.push(bad), Map::empty(), 0).blocks[0].fields == frame_map(
            p.push(good),
            Map::<Seq<u8>, Seq<u8>>::empty(),
        ),
        !process(p.push(bad), Map::empty(), 0).blocks[0].sum_ok,
{
    lemma_frame_checksum_flip(p, good, bad, Map::empty());
    crate::checksum::lemma_checksum_unique(p, good);
    crate::checksum::lemma_checksum_unique(p, bad);
    lemma_complete_frame(p.push(bad), Map::empty(), 0);
}

/// A binary-mode run — a colon and an upper-case `A`, through its line
/// feed — is skipped whole: the stream behaves exactly as if the run
/// were not there.  No block and no error comes out of it.
pub proof fn lemma_binary_run_skipped(h: Seq<u8>, rest: Seq<u8>, f: Map<Seq<u8>, Seq<u8>>, m: int)
    requires
        h.len() >= 2,
        h[0] == COLON,
        h[1] == UPPER_A,
        h.last() == LF,
        forall|j: int| 0 <= j < h.len() - 1 ==> h[j] != LF,
    ensures
        process(h + rest, f, m) == process(rest, f, m),
{
    let s = h + rest;
    assert(s[0] == COLON && s[1] == UPPER_A);
    let k = h.len() - 1;
    assert(s[k] == LF);
    assert(forall|j: int| 0 <= j < k ==> s[j] == h[j] && #[trigger] s[j] != LF);
    lemma_find_stop_is(s, 0, k, false, false, true);
    assert(s.skip(k + 1) =~= rest);
}

/// After a reset the assembler realigns itself: from the awaiting
/// state with an empty buffer, a fed frame is consumed whole from its
/// leading carriage return and completes exactly one block.
pub proof fn lemma_resynchronization(s: Seq<u8>)
    requires
        is_frame(s),
    ensures
        feed_start(true, Seq::<u8>::empty(), s) == Some(s),
        process(s, Map::empty(), 0).blocks.len() == 1,
        process(s, Map::empty(), 0).blocks[0].fields == frame_map(
            s,
            Map::<Seq<u8>, Seq<u8>>::empty(),
        ),
        process(s, Map::empty(), 0).rest == Seq::<u8>::empty(),
        !process(s, Map::empty(), 0).reset,
{
    assert(s[0] == CR);
    lemma_find_stop_is(s, 0, 0, false, true, false);
    assert(Seq::<u8>::empty() + s =~= s);
    lemma_complete_frame(s, Map::empty(), 0);
}

/// Any label is accepted as long as it avoids the three delimiter bytes
/// and is not the reserved word `Checksum`: punctuation and digits in a
/// label never break a field line.
pub proof fn lemma_any_label_accepted(label: Seq<u8>, value: Seq<u8>, rest: Seq<u8>)
    requires
        label.len() >= 1,
        forall|j: int|
            0 <= j < label.len() ==> #[trigger] label[j] != TAB && label[j] != CR && label[j]
                != LF,
        label != checksum_label(),
        forall|j: int| 0 <= j < value.len() ==> #[trigger] value[j] != CR,
        rest.len() >= 1,
        rest[0] == CR,
    ensures
        ({
            let s = seq![CR, LF] + label + seq![TAB] + value + rest;
            step_of(s) == (Step::Field {
                label,
                value,
                next: 3 + label.len() as int + value.len() as int,
            })
        }),
{
    let s = seq![CR, LF] + label + seq![TAB] + value + rest;
    let t = 2 + label.len() as int;
    let e = t + 1 + value.len() as int;
    assert(s[0] == CR && s[1] == LF);
    assert(s[t] == TAB);
    assert(forall|j: int| 2 <= j < t ==> s[j] == label[j - 2]);
    assert(forall|j: int| t + 1 <= j < e ==> s[j] == value[j - t - 1]);
    assert(s[e] == rest[0]);
    lemma_find_stop_is(s, 2, t, true, true, true);
    lemma_find_stop_is(s, t + 1, e, false, true, false);
    assert(s.subrange(2, t) =~= label);
    assert(s.subrange(t + 1, e) =~= value);
}

} // verus!
