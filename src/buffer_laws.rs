use vstd::prelude::*;
use crate::envelope::UniversalData;
use crate::error::UMSBBError;
use crate::segment::{bytes_of, lemma_bytes_of_drop_first};
use crate::buffer::{
    BufferView, MAX_MESSAGE_SIZE, pending_of, lemma_best_upto, lemma_read_scan,
    lemma_pending_update, lemma_pending_all_full,
};

verus! {

proof fn lemma_pending_nonneg(segs: Seq<Seq<UniversalData>>)
    ensures
        pending_of(segs) >= 0,
    decreases segs.len(),
{
    if segs.len() > 0 {
        lemma_pending_nonneg(segs.drop_last());
    }
}

/// Every segment holds at most the buffer's pending count.
proof fn lemma_pending_ge(segs: Seq<Seq<UniversalData>>, i: int)
    requires
        0 <= i < segs.len(),
    ensures
        pending_of(segs) >= segs[i].len(),
{
    lemma_pending_update(segs, i, Seq::empty());
    lemma_pending_nonneg(segs.update(i, Seq::empty()));
}

/// When some segment has room, the write finds one.
proof fn lemma_best_upto_found(v: BufferView, k: int, n: int, j: int)
    requires
        0 <= j < k <= v.segments.len(),
        v.seg_fits(j, n),
    ensures
        v.best_upto(k, n) >= 0,
    decreases k,
{
    if j < k - 1 {
        lemma_best_upto_found(v, k - 1, n, j);
    }
    lemma_best_upto(v, k - 1, n);
}

/// When some segment holds data, the read finds one.
proof fn lemma_read_scan_found(v: BufferView, k: int, j: int)
    requires
        0 <= k <= j < v.segments.len(),
        v.segments[(v.cursor + j) % (v.segments.len() as int)].len() > 0,
    ensures
        v.read_scan(k) >= 0,
    decreases j - k,
{
    if k < j {
        lemma_read_scan_found(v, k + 1, j);
    }
}

/// Each segment is reached by the scan from the cursor.
proof fn lemma_read_reaches(v: BufferView, t: int)
    requires
        0 <= v.cursor < v.segments.len(),
        0 <= t < v.segments.len(),
        v.segments[t].len() > 0,
    ensures
        v.read_slot() >= 0,
{
    let m = v.segments.len() as int;
    let c = v.cursor;
    let j = if t >= c {
        t - c
    } else {
        t + m - c
    };
    if t >= c {
        assert((c + j) % m == t) by (nonlinear_arith)
            requires
                c + j == t,
                0 <= t < m,
        ;
    } else {
        assert((c + j) % m == t) by (nonlinear_arith)
            requires
                c + j == t + m,
                0 <= t < m,
        ;
    }
    lemma_read_scan_found(v, 0, j);
}

/// A payload written into an empty buffer is what the next read returns,
/// byte for byte, and the buffer is empty again afterwards. This needs a
/// payload of 1 to 64KB bytes that fits in one segment.
pub proof fn lemma_round_trip(v: BufferView, e: UniversalData)
    requires
        v.wf(),
        !v.destroyed,
        v.pending() == 0,
        0 < e.data@.len() <= MAX_MESSAGE_SIZE,
        e.data@.len() <= v.capacity_bytes,
        v.capacity_items > 0,
    ensures
        v.write_outcome(e.data@.len() as int) == Ok::<(), UMSBBError>(()),
        v.after_write(e).read_outcome() == Ok::<Option<UniversalData>, UMSBBError>(Some(e)),
        v.after_write(e).after_read().pending() == 0,
{
    let n = e.data@.len() as int;
    assert forall|i: int| 0 <= i < v.segments.len() implies #[trigger] v.segments[i].len()
        == 0 by {
        lemma_pending_ge(v.segments, i);
    }
    assert(v.segments[0].len() == 0);
    assert(bytes_of(v.segments[0]) == 0);
    lemma_best_upto_found(v, v.segments.len() as int, n, 0);
    let t = v.write_target(n);
    lemma_best_upto(v, v.segments.len() as int, n);
    let w = v.after_write(e);
    assert(w.segments[t] =~= seq![e]);
    assert forall|i: int| 0 <= i < w.segments.len() && i != t implies #[trigger] w.segments[i].len()
        == 0 by {
        assert(w.segments[i] == v.segments[i]);
    }
    lemma_read_reaches(w, t);
    lemma_read_scan(w, 0);
    let s = w.read_slot();
    assert(s == t);
    let x = w.after_read();
    lemma_pending_update(v.segments, t, seq![e]);
    lemma_pending_update(w.segments, t, w.segments[t].drop_first());
    assert(x.segments == w.segments.update(t, w.segments[t].drop_first()));
}

/// A buffer that holds as many envelopes as it can refuses a further write
/// with `BufferFull`.
pub proof fn lemma_full_buffer_refuses(v: BufferView, n: int)
    requires
        v.wf(),
        !v.destroyed,
        0 <= n <= MAX_MESSAGE_SIZE,
        v.pending() == v.message_capacity(),
    ensures
        v.write_outcome(n) == Err::<(), UMSBBError>(UMSBBError::BufferFull),
{
    assert forall|i: int| 0 <= i < v.segments.len() implies #[trigger] v.segments[i].len()
        <= v.capacity_items by {}
    lemma_pending_all_full(v.segments, v.capacity_items as int);
    lemma_best_upto(v, v.segments.len() as int, n);
}

/// After a read that returned an envelope, a write of at most that many
/// bytes succeeds: the read gave back room.
pub proof fn lemma_read_frees_room(v: BufferView, m: int)
    requires
        v.wf(),
        0 <= m <= MAX_MESSAGE_SIZE,
        v.read_outcome() matches Ok(Some(e)) && m <= e.data@.len(),
    ensures
        v.after_read().write_outcome(m) == Ok::<(), UMSBBError>(()),
{
    let s = v.read_slot();
    lemma_read_scan(v, 0);
    let e = v.segments[s][0];
    let w = v.after_read();
    lemma_bytes_of_drop_first(v.segments[s]);
    assert(v.segments[s].drop_first() =~= v.segments[s].subrange(1, v.segments[s].len() as int));
    assert(w.segments[s] == v.segments[s].drop_first());
    assert(bytes_of(v.segments[s]) <= v.capacity_bytes);
    assert(w.seg_fits(s, m));
    lemma_best_upto_found(w, w.segments.len() as int, m, s);
}

/// Within one segment, envelopes leave in the order they came: a write only
/// appends at the back of one segment, and a read only takes the front of
/// one segment, the envelope that it returns.
pub proof fn lemma_fifo_per_segment(v: BufferView, e: UniversalData, j: int)
    requires
        v.wf(),
        0 <= j < v.segments.len(),
    ensures
        v.after_write(e).segments.len() == v.segments.len(),
        v.after_write(e).segments[j] == v.segments[j] || v.after_write(e).segments[j]
            == v.segments[j].push(e),
        v.after_read().segments.len() == v.segments.len(),
        v.after_read().segments[j] == v.segments[j] || (v.after_read().segments[j]
            == v.segments[j].drop_first() && v.read_outcome() == Ok::<
            Option<UniversalData>,
            UMSBBError,
        >(Some(v.segments[j][0]))),
{
    lemma_best_upto(v, v.segments.len() as int, e.data@.len() as int);
    lemma_read_scan(v, 0);
}

/// Once a buffer is destroyed every operation fails with `InvalidHandle`
/// and changes nothing.
pub proof fn lemma_destroyed_refuses(v: BufferView, e: UniversalData)
    ensures
        ({
            let d = v.after_destroy();
            &&& d.write_outcome(e.data@.len() as int) == Err::<(), UMSBBError>(
                UMSBBError::InvalidHandle,
            )
            &&& d.after_write(e) == d
            &&& d.read_outcome() == Err::<Option<UniversalData>, UMSBBError>(
                UMSBBError::InvalidHandle,
            )
            &&& d.after_read() == d
            &&& d.stats_outcome() is Err
            &&& d.destroy_outcome() == Err::<usize, UMSBBError>(UMSBBError::InvalidHandle)
        }),
{
}

} // verus!
