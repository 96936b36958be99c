use vstd::prelude::*;
use crate::envelope::UniversalData;
use crate::error::{UMSBBError, UMSBBResult};
use crate::segment::{Segment, bytes_of};

verus! {

/// Largest payload that one message may carry (64KB).
pub const MAX_MESSAGE_SIZE: usize = 65536;

/// Hard ceiling on the number of segments in one buffer.
pub const MAX_SEGMENTS: u32 = 64;

/// Maximum number of envelopes that one segment holds, beside its byte limit.
pub const SEGMENT_ITEM_CAPACITY: usize = 1024;

/// Lower end of the target range of a segment's capacity when the count is chosen automatically.
pub const MIN_SEGMENT_BYTES: usize = 65536;

/// Upper end of the target range of a segment's capacity when the count is chosen automatically.
pub const MAX_SEGMENT_BYTES: usize = 1048576;

/// Point-in-time statistics of a buffer.
#[derive(Debug, Clone, Copy, PartialEq, Eq, Structural)]
pub struct BufferStats {
    pub total_messages: u64,
    pub total_bytes: u64,
    pub pending_messages: u32,
    pub active_segments: u32,
}

/// Number of envelopes held over all segments.
pub open spec fn pending_of(segs: Seq<Seq<UniversalData>>) -> int
    decreases segs.len(),
{
    if segs.len() == 0 {
        0
    } else {
        pending_of(segs.drop_last()) + segs.last().len()
    }
}

pub proof fn lemma_pending_bounds(segs: Seq<Seq<UniversalData>>, cap: int)
    requires
        forall|i: int| 0 <= i < segs.len() ==> #[trigger] segs[i].len() <= cap,
    ensures
        0 <= pending_of(segs) <= segs.len() * cap,
    decreases segs.len(),
{
    if segs.len() > 0 {
        let t = segs.drop_last();
        assert forall|i: int| 0 <= i < t.len() implies #[trigger] t[i].len() <= cap by {
            assert(t[i] == segs[i]);
        }
        lemma_pending_bounds(t, cap);
        assert(segs[segs.len() - 1].len() <= cap);
        assert(pending_of(segs) == pending_of(t) + segs.last().len());
        assert(segs.len() * cap == t.len() * cap + cap) by (nonlinear_arith)
            requires segs.len() == t.len() + 1;
    } else {
        assert(segs.len() * cap == 0) by (nonlinear_arith)
            requires segs.len() == 0;
    }
}

/// Replacing one segment changes the total by the difference of their lengths.
pub proof fn lemma_pending_update(segs: Seq<Seq<UniversalData>>, i: int, s: Seq<UniversalData>)
    requires
        0 <= i < segs.len(),
    ensures
        pending_of(segs.update(i, s)) == pending_of(segs) - segs[i].len() + s.len(),
    decreases segs.len(),
{
    let u = segs.update(i, s);
    if i == segs.len() - 1 {
        assert(u.drop_last() =~= segs.drop_last());
    } else {
        lemma_pending_update(segs.drop_last(), i, s);
        assert(u.drop_last() =~= segs.drop_last().update(i, s));
    }
}

pub proof fn lemma_pending_all_full(segs: Seq<Seq<UniversalData>>, cap: int)
    requires
        forall|i: int| 0 <= i < segs.len() ==> #[trigger] segs[i].len() <= cap,
        pending_of(segs) == segs.len() * cap,
    ensures
        forall|i: int| 0 <= i < segs.len() ==> #[trigger] segs[i].len() == cap,
    decreases segs.len(),
{
    if segs.len() > 0 {
        let t = segs.drop_last();
        assert forall|i: int| 0 <= i < t.len() implies #[trigger] t[i].len() <= cap by {
            assert(t[i] == segs[i]);
        }
        lemma_pending_bounds(t, cap);
        assert(segs.len() * cap == t.len() * cap + cap) by (nonlinear_arith)
            requires segs.len() == t.len() + 1;
        lemma_pending_all_full(t, cap);
        assert forall|i: int| 0 <= i < segs.len() implies #[trigger] segs[i].len() == cap by {
            if i < t.len() {
                assert(t[i] == segs[i]);
            }
        }
    }
}

/// The number of segments chosen for a buffer of `total` bytes when none is
/// declared: enough segments that none exceeds 1MB, one per available worker
/// as long as each keeps at least 64KB, within 1 and the segment ceiling.
pub open spec fn auto_segment_count_spec(total: int, parallelism: int) -> int {
    let by_size = (total + MAX_SEGMENT_BYTES - 1) / MAX_SEGMENT_BYTES as int;
    let by_workers = if parallelism < total / MIN_SEGMENT_BYTES as int {
        parallelism
    } else {
        total / MIN_SEGMENT_BYTES as int
    };
    let n = if by_size < by_workers {
        by_workers
    } else {
        by_size
    };
    if n < 1 {
        1
    } else if n > MAX_SEGMENTS {
        MAX_SEGMENTS as int
    } else {
        n
    }
}

/// The abstract state of a segmented buffer.
pub ghost struct BufferView {
    /// The queue of each segment, front first.
    pub segments: Seq<Seq<UniversalData>>,
    /// Byte capacity of every segment.
    pub capacity_bytes: nat,
    /// Item capacity of every segment.
    pub capacity_items: nat,
    /// Segment where the next read starts looking.
    pub cursor: int,
    pub total_messages: nat,
    pub total_bytes: nat,
    pub destroyed: bool,
}

pub open spec fn saturating_u64(x: int) -> nat {
    if x > u64::MAX {
        u64::MAX as nat
    } else if x < 0 {
        0
    } else {
        x as nat
    }
}

impl BufferView {
    /// Number of envelopes waiting to be read.
    pub open spec fn pending(self) -> int {
        pending_of(self.segments)
    }

    /// Segment `i` can take an envelope of `n` bytes.
    pub open spec fn seg_fits(self, i: int, n: int) -> bool {
        &&& bytes_of(self.segments[i]) + n <= self.capacity_bytes
        &&& self.segments[i].len() < self.capacity_items
    }

    /// Among the first `k` segments, the first of least item count that can
    /// take `n` bytes; -1 when none can.
    pub open spec fn best_upto(self, k: int, n: int) -> int
        decreases k,
    {
        if k <= 0 {
            -1
        } else {
            let b = self.best_upto(k - 1, n);
            if self.seg_fits(k - 1, n) && (b < 0 || self.segments[k - 1].len()
                < self.segments[b].len()) {
                k - 1
            } else {
                b
            }
        }
    }

    /// The segment that a write of `n` bytes goes to (least loaded first), or -1.
    pub open spec fn write_target(self, n: int) -> int {
        self.best_upto(self.segments.len() as int, n)
    }

    pub open spec fn write_outcome(self, n: int) -> UMSBBResult<()> {
        if self.destroyed {
            Err(UMSBBError::InvalidHandle)
        } else if n > MAX_MESSAGE_SIZE {
            Err(UMSBBError::InvalidParams)
        } else if self.write_target(n) < 0 {
            Err(UMSBBError::BufferFull)
        } else {
            Ok(())
        }
    }

    /// The state after writing `e`; unchanged when the write fails.
    pub open spec fn after_write(self, e: UniversalData) -> BufferView {
        let n = e.data@.len() as int;
        if self.write_outcome(n) is Ok {
            let t = self.write_target(n);
            BufferView {
                segments: self.segments.update(t, self.segments[t].push(e)),
                total_messages: saturating_u64(self.total_messages + 1int),
                total_bytes: saturating_u64(self.total_bytes as int + n),
                ..self
            }
        } else {
            self
        }
    }

    /// Looking from the cursor round the ring, the first non-empty segment
    /// from the `k`-th on; -1 when there is none.
    pub open spec fn read_scan(self, k: int) -> int
        decreases self.segments.len() - k,
    {
        if k >= self.segments.len() || k < 0 {
            -1
        } else {
            let i = (self.cursor + k) % (self.segments.len() as int);
            if self.segments[i].len() > 0 {
                i
            } else {
                self.read_scan(k + 1)
            }
        }
    }

    /// The segment that the next read takes from, or -1 when all are empty.
    pub open spec fn read_slot(self) -> int {
        self.read_scan(0)
    }

    pub open spec fn read_outcome(self) -> UMSBBResult<Option<UniversalData>> {
        if self.destroyed {
            Err(UMSBBError::InvalidHandle)
        } else if self.read_slot() < 0 {
            Ok(None)
        } else {
            Ok(Some(self.segments[self.read_slot()][0]))
        }
    }

    /// The state after a read: the front of the chosen segment is gone and
    /// the cursor moves past that segment.
    pub open spec fn after_read(self) -> BufferView {
        if self.destroyed || self.read_slot() < 0 {
            self
        } else {
            let s = self.read_slot();
            BufferView {
                segments: self.segments.update(s, self.segments[s].drop_first()),
                cursor: (s + 1) % (self.segments.len() as int),
                ..self
            }
        }
    }

    pub open spec fn destroy_outcome(self) -> UMSBBResult<usize> {
        if self.destroyed {
            Err(UMSBBError::InvalidHandle)
        } else {
            Ok(self.pending() as usize)
        }
    }

    /// After a destroy no segment remains and the buffer refuses all work.
    pub open spec fn after_destroy(self) -> BufferView {
        BufferView { segments: Seq::empty(), destroyed: true, ..self }
    }

    pub open spec fn stats_outcome(self) -> UMSBBResult<BufferStats> {
        if self.destroyed {
            Err(UMSBBError::InvalidHandle)
        } else {
            Ok(self.stats())
        }
    }

    /// Number of envelopes that the buffer can hold at most.
    pub open spec fn message_capacity(self) -> int {
        (self.segments.len() * self.capacity_items) as int
    }

    pub open spec fn stats(self) -> BufferStats {
        BufferStats {
            total_messages: self.total_messages as u64,
            total_bytes: self.total_bytes as u64,
            pending_messages: self.pending() as u32,
            active_segments: self.segments.len() as u32,
        }
    }

    /// The view of a live buffer: segments, limits, counters and cursor agree.
    pub open spec fn wf(self) -> bool {
        &&& self.destroyed ==> self.segments.len() == 0
        &&& !self.destroyed ==> 1 <= self.segments.len() <= MAX_SEGMENTS
        &&& !self.destroyed ==> 0 <= self.cursor < self.segments.len()
        &&& self.capacity_items <= SEGMENT_ITEM_CAPACITY
        &&& self.total_messages <= u64::MAX
        &&& self.total_bytes <= u64::MAX
        &&& forall|i: int|
            0 <= i < self.segments.len() ==> {
                &&& bytes_of(#[trigger] self.segments[i]) <= self.capacity_bytes
                &&& self.segments[i].len() <= self.capacity_items
            }
    }
}

/// The chosen write segment is a real one, and it has room.
pub proof fn lemma_best_upto(v: BufferView, k: int, n: int)
    requires
        0 <= k <= v.segments.len(),
    ensures
        -1 <= v.best_upto(k, n) < k,
        v.best_upto(k, n) >= 0 ==> v.seg_fits(v.best_upto(k, n), n),
    decreases k,
{
    if k > 0 {
        lemma_best_upto(v, k - 1, n);
    }
}

/// The chosen read segment is a real one, and it is not empty.
pub proof fn lemma_read_scan(v: BufferView, k: int)
    requires
        0 <= v.cursor,
        0 <= k,
    ensures
        -1 <= v.read_scan(k) < v.segments.len(),
        v.read_scan(k) >= 0 ==> v.segments[v.read_scan(k)].len() > 0,
    decreases v.segments.len() - k,
{
    if k < v.segments.len() {
        lemma_read_scan(v, k + 1);
    }
}

/// A fixed set of bounded FIFO segments with aggregate counters.
pub struct SegmentedBuffer {
    segments: Vec<Segment>,
    capacity_bytes: usize,
    capacity_items: usize,
    read_cursor: usize,
    pending: usize,
    total_messages: u64,
    total_bytes: u64,
    destroyed: bool,
}

impl View for SegmentedBuffer {
    type V = BufferView;

    closed spec fn view(&self) -> BufferView {
        BufferView {
            segments: self.segments@.map_values(|s: Segment| s@.items),
            capacity_bytes: self.capacity_bytes as nat,
            capacity_items: self.capacity_items as nat,
            cursor: self.read_cursor as int,
            total_messages: self.total_messages as nat,
            total_bytes: self.total_bytes as nat,
            destroyed: self.destroyed,
        }
    }
}

/// Chooses the number of segments for a buffer of `total` bytes when the caller
/// declares none.
pub fn auto_segment_count(total: usize, parallelism: u32) -> (r: u32)
    ensures
        r == auto_segment_count_spec(total as int, parallelism as int),
        1 <= r <= MAX_SEGMENTS,
{
    let by_size: usize = total / MAX_SEGMENT_BYTES + if total % MAX_SEGMENT_BYTES == 0 {
        0usize
    } else {
        1usize
    };
    let fit: usize = total / MIN_SEGMENT_BYTES;
    let by_workers: usize = if (parallelism as usize) < fit {
        parallelism as usize
    } else {
        fit
    };
    let n: usize = if by_size < by_workers {
        by_workers
    } else {
        by_size
    };
    if n < 1 {
        1
    } else if n > MAX_SEGMENTS as usize {
        MAX_SEGMENTS
    } else {
        n as u32
    }
}

impl SegmentedBuffer {
    /// The view is well formed and the concrete state agrees with it.
    pub open spec fn wf(&self) -> bool {
        &&& self@.wf()
        &&& self.inv()
    }

    /// Each segment is well formed with the common limits, and the pending
    /// counter is the sum of the segment lengths.
    pub closed spec fn inv(&self) -> bool {
        &&& forall|i: int|
            0 <= i < self.segments@.len() ==> {
                &&& (#[trigger] self.segments@[i]).wf()
                &&& self.segments@[i]@.capacity_bytes == self.capacity_bytes
                &&& self.segments@[i]@.capacity_items == self.capacity_items
            }
        &&& self.pending as int == self@.pending()
    }

    proof fn lemma_wf_view(&self)
        requires
            self.wf(),
        ensures
            self@.segments.len() == self.segments@.len(),
            forall|i: int|
                0 <= i < self.segments@.len() ==> #[trigger] self@.segments[i]
                    == self.segments@[i]@.items,
            0 <= self@.pending() <= self@.segments.len() * self@.capacity_items,
            self@.pending() <= MAX_SEGMENTS * SEGMENT_ITEM_CAPACITY,
    {
        let v = self@;
        assert forall|i: int| 0 <= i < v.segments.len() implies #[trigger] v.segments[i].len()
            <= v.capacity_items by {}
        lemma_pending_bounds(v.segments, v.capacity_items as int);
        assert(v.segments.len() * v.capacity_items <= MAX_SEGMENTS * SEGMENT_ITEM_CAPACITY)
            by (nonlinear_arith)
            requires
                v.segments.len() <= MAX_SEGMENTS,
                v.capacity_items <= SEGMENT_ITEM_CAPACITY,
        ;
    }

    /// Creates a buffer. With `segment_count` > 0 each of that many segments
    /// holds `buffer_size` bytes; with 0 the count is chosen by
    /// `auto_segment_count` and `buffer_size` is shared out among the segments.
    pub fn new(buffer_size: usize, segment_count: u32, parallelism: u32) -> (r: UMSBBResult<
        SegmentedBuffer,
    >)
        ensures
            (buffer_size == 0 || segment_count > MAX_SEGMENTS) <==> r is Err,
            r is Err ==> r == Err::<SegmentedBuffer, UMSBBError>(UMSBBError::InvalidParams),
            r matches Ok(b) ==> {
                let count = if segment_count == 0 {
                    auto_segment_count_spec(buffer_size as int, parallelism as int)
                } else {
                    segment_count as int
                };
                &&& b.wf()
                &&& b@.segments.len() == count
                &&& forall|i: int| 0 <= i < count ==> #[trigger] b@.segments[i].len() == 0
                &&& b@.capacity_bytes == if segment_count == 0 {
                    buffer_size as int / count
                } else {
                    buffer_size as int
                }
                &&& b@.capacity_items == SEGMENT_ITEM_CAPACITY
                &&& b@.cursor == 0
                &&& b@.total_messages == 0
                &&& b@.total_bytes == 0
                &&& !b@.destroyed
            },
    {
        if buffer_size == 0 || segment_count > MAX_SEGMENTS {
            return Err(UMSBBError::InvalidParams);
        }
        let count: u32 = if segment_count == 0 {
            auto_segment_count(buffer_size, parallelism)
        } else {
            segment_count
        };
        let per_segment: usize = if segment_count == 0 {
            buffer_size / (count as usize)
        } else {
            buffer_size
        };
        let mut segments: Vec<Segment> = Vec::new();
        let mut i: u32 = 0;
        while i < count
            invariant
                i <= count,
                segments@.len() == i,
                forall|j: int|
                    0 <= j < i ==> {
                        &&& (#[trigger] segments@[j]).wf()
                        &&& segments@[j]@.items.len() == 0
                        &&& segments@[j]@.capacity_bytes == per_segment
                        &&& segments@[j]@.capacity_items == SEGMENT_ITEM_CAPACITY
                    },
            decreases count - i,
        {
            segments.push(Segment::new(per_segment, SEGMENT_ITEM_CAPACITY));
            i = i + 1;
        }
        let b = SegmentedBuffer {
            segments,
            capacity_bytes: per_segment,
            capacity_items: SEGMENT_ITEM_CAPACITY,
            read_cursor: 0,
            pending: 0,
            total_messages: 0,
            total_bytes: 0,
            destroyed: false,
        };
        proof {
            let v = b@;
            assert forall|j: int| 0 <= j < v.segments.len() implies #[trigger] v.segments[j]
                =~= Seq::<UniversalData>::empty() by {
                assert(v.segments[j] == b.segments@[j]@.items);
            }
            assert(v.segments =~= Seq::new(count as nat, |j: int| Seq::<UniversalData>::empty()));
            lemma_pending_empty(v.segments);
        }
        Ok(b)
    }

    /// The first segment of least item count that can take `n` bytes.
    fn pick_write_segment(&self, n: usize) -> (r: Option<usize>)
        requires
            self.wf(),
        ensures
            r is None ==> self@.write_target(n as int) < 0,
            r matches Some(t) ==> t == self@.write_target(n as int) && t < self.segments@.len()
                && self.segments@[t as int]@.fits(n as int),
    {
        proof {
            self.lemma_wf_view();
            lemma_best_upto(self@, self@.segments.len() as int, n as int);
        }
        let ghost v = self@;
        let mut best: Option<usize> = None;
        let mut best_len: usize = 0;
        let mut i: usize = 0;
        while i < self.segments.len()
            invariant
                self.wf(),
                v == self@,
                v.segments.len() == self.segments@.len(),
                forall|j: int|
                    0 <= j < self.segments@.len() ==> #[trigger] v.segments[j]
                        == self.segments@[j]@.items,
                i <= self.segments@.len(),
                best is None ==> v.best_upto(i as int, n as int) == -1,
                best matches Some(b) ==> b == v.best_upto(i as int, n as int) && b < i
                    && best_len == v.segments[b as int].len(),
            decreases self.segments@.len() - i,
        {
            let seg = &self.segments[i];
            let len = seg.len();
            if seg.fits(n) && (best.is_none() || len < best_len) {
                best = Some(i);
                best_len = len;
            }
            i = i + 1;
        }
        best
    }

    /// Writes an envelope into the least loaded segment that has room for it.
    pub fn write(&mut self, e: UniversalData) -> (r: UMSBBResult<()>)
        requires
            old(self).wf(),
        ensures
            final(self).wf(),
            r == old(self)@.write_outcome(e.data@.len() as int),
            final(self)@ == old(self)@.after_write(e),
    {
        if self.destroyed {
            return Err(UMSBBError::InvalidHandle);
        }
        let n = e.data.len();
        if n > MAX_MESSAGE_SIZE {
            return Err(UMSBBError::InvalidParams);
        }
        match self.pick_write_segment(n) {
            None => Err(UMSBBError::BufferFull),
            Some(t) => {
                proof {
                    self.lemma_wf_view();
                }
                let ghost v = self@;
                let ghost e_g = e;
                self.segments[t].push(e);
                self.pending = self.pending + 1;
                self.total_messages = self.total_messages.saturating_add(1);
                self.total_bytes = self.total_bytes.saturating_add(n as u64);
                proof {
                    let w = v.after_write(e_g);
                    assert(self@.segments =~= w.segments);
                    lemma_pending_update(v.segments, t as int, v.segments[t as int].push(e_g));
                    assert forall|i: int| 0 <= i < self.segments@.len() implies {
                        &&& (#[trigger] self.segments@[i]).wf()
                        &&& self.segments@[i]@.capacity_bytes == self.capacity_bytes
                        &&& self.segments@[i]@.capacity_items == self.capacity_items
                    } by {
                        if i != t {
                            assert(self.segments@[i] == old(self).segments@[i]);
                        }
                    }
                    assert forall|i: int| 0 <= i < self@.segments.len() implies {
                        &&& bytes_of(#[trigger] self@.segments[i]) <= self@.capacity_bytes
                        &&& self@.segments[i].len() <= self@.capacity_items
                    } by {
                        assert(self@.segments[i] == self.segments@[i]@.items);
                    }
                }
                Ok(())
            },
        }
    }

    /// Scans round the ring from the cursor for the first non-empty segment.
    fn find_read_slot(&self) -> (r: Option<usize>)
        requires
            self.wf(),
            !self@.destroyed,
        ensures
            r is None ==> self@.read_slot() < 0,
            r matches Some(s) ==> s == self@.read_slot() && s < self.segments@.len()
                && self@.segments[s as int].len() > 0,
    {
        proof {
            self.lemma_wf_view();
            lemma_read_scan(self@, 0);
        }
        let ghost v = self@;
        let n = self.segments.len();
        let mut k: usize = 0;
        while k < n
            invariant
                self.wf(),
                v == self@,
                n == self.segments@.len(),
                v.segments.len() == n,
                0 <= v.cursor < n,
                self.read_cursor == v.cursor,
                forall|j: int| 0 <= j < n ==> #[trigger] v.segments[j] == self.segments@[j]@.items,
                k <= n,
                v.read_scan(0) == v.read_scan(k as int),
            decreases n - k,
        {
            let i: usize = if self.read_cursor + k >= n {
                self.read_cursor + k - n
            } else {
                self.read_cursor + k
            };
            proof {
                let c = v.cursor;
                let m = n as int;
                if c + k >= m {
                    assert((c + k) % m == c + k - m) by (nonlinear_arith)
                        requires
                            m <= c + k < 2 * m,
                    ;
                } else {
                    assert((c + k) % m == c + k) by (nonlinear_arith)
                        requires
                            0 <= c + k < m,
                    ;
                }
            }
            assert(i as int == (v.cursor + k) % (n as int));
            if !self.segments[i].is_empty() {
                return Some(i);
            }
            k = k + 1;
        }
        None
    }

    /// Takes the front envelope of the next non-empty segment after the cursor.
    pub fn read(&mut self) -> (r: UMSBBResult<Option<UniversalData>>)
        requires
            old(self).wf(),
        ensures
            final(self).wf(),
            r == old(self)@.read_outcome(),
            final(self)@ == old(self)@.after_read(),
    {
        if self.destroyed {
            return Err(UMSBBError::InvalidHandle);
        }
        match self.find_read_slot() {
            None => Ok(None),
            Some(s) => {
                proof {
                    self.lemma_wf_view();
                }
                let ghost v = self@;
                proof {
                    let u = v.segments.update(s as int, v.segments[s as int].drop_first());
                    lemma_pending_update(v.segments, s as int, v.segments[s as int].drop_first());
                    assert forall|i: int| 0 <= i < u.len() implies #[trigger] u[i].len()
                        <= v.capacity_items by {
                        if i != s {
                            assert(u[i] == v.segments[i]);
                        }
                    }
                    lemma_pending_bounds(u, v.capacity_items as int);
                }
                let item = self.segments[s].pop();
                self.pending = self.pending - 1;
                self.read_cursor = if s + 1 == self.segments.len() {
                    0
                } else {
                    s + 1
                };
                proof {
                    let m = v.segments.len() as int;
                    if s + 1 == m {
                        assert((s + 1) % m == 0) by (nonlinear_arith)
                            requires
                                s + 1 == m,
                                m > 0,
                        ;
                    } else {
                        assert((s + 1) % m == s + 1) by (nonlinear_arith)
                            requires
                                0 <= s + 1 < m,
                        ;
                    }
                    let w = v.after_read();
                    assert(v.segments[s as int].drop_first() =~= v.segments[s as int].subrange(
                        1,
                        v.segments[s as int].len() as int,
                    ));
                    assert(self@.segments =~= w.segments);
                    lemma_pending_update(v.segments, s as int, v.segments[s as int].drop_first());
                    assert forall|i: int| 0 <= i < self.segments@.len() implies {
                        &&& (#[trigger] self.segments@[i]).wf()
                        &&& self.segments@[i]@.capacity_bytes == self.capacity_bytes
                        &&& self.segments@[i]@.capacity_items == self.capacity_items
                    } by {
                        if i != s {
                            assert(self.segments@[i] == old(self).segments@[i]);
                        }
                    }
                    assert forall|i: int| 0 <= i < self@.segments.len() implies {
                        &&& bytes_of(#[trigger] self@.segments[i]) <= self@.capacity_bytes
                        &&& self@.segments[i].len() <= self@.capacity_items
                    } by {
                        assert(self@.segments[i] == self.segments@[i]@.items);
                    }
                }
                Ok(item)
            },
        }
    }

    /// Releases every segment. Reports how many envelopes were still waiting
    /// and so are lost; a second call fails with `InvalidHandle`.
    pub fn destroy(&mut self) -> (r: UMSBBResult<usize>)
        requires
            old(self).wf(),
        ensures
            final(self).wf(),
            r == old(self)@.destroy_outcome(),
            old(self)@.destroyed ==> final(self)@ == old(self)@,
            !old(self)@.destroyed ==> final(self)@ == old(self)@.after_destroy(),
    {
        if self.destroyed {
            return Err(UMSBBError::InvalidHandle);
        }
        let lost = self.pending;
        self.segments = Vec::new();
        self.pending = 0;
        self.destroyed = true;
        proof {
            assert(self@.segments =~= Seq::<Seq<UniversalData>>::empty());
        }
        Ok(lost)
    }

    /// A snapshot of the counters; `InvalidHandle` after a destroy.
    pub fn stats(&self) -> (r: UMSBBResult<BufferStats>)
        requires
            self.wf(),
        ensures
            r == self@.stats_outcome(),
    {
        if self.destroyed {
            return Err(UMSBBError::InvalidHandle);
        }
        proof {
            self.lemma_wf_view();
            assert(self@.segments.len() * self@.capacity_items <= MAX_SEGMENTS
                * SEGMENT_ITEM_CAPACITY) by (nonlinear_arith)
                requires
                    self@.segments.len() <= MAX_SEGMENTS,
                    self@.capacity_items <= SEGMENT_ITEM_CAPACITY,
            ;
        }
        Ok(
            BufferStats {
                total_messages: self.total_messages,
                total_bytes: self.total_bytes,
                pending_messages: self.pending as u32,
                active_segments: self.segments.len() as u32,
            },
        )
    }

    pub fn total_messages(&self) -> (r: u64)
        ensures
            r == self@.total_messages,
    {
        self.total_messages
    }

    pub fn total_bytes(&self) -> (r: u64)
        ensures
            r == self@.total_bytes,
    {
        self.total_bytes
    }

    /// The pending count fits the statistics' counter.
    pub proof fn lemma_pending_fits(&self)
        requires
            self.wf(),
        ensures
            0 <= self@.pending() <= u32::MAX,
    {
        self.lemma_wf_view();
    }

    /// Number of envelopes waiting to be read (0 after a destroy).
    pub fn pending_count(&self) -> (r: usize)
        requires
            self.wf(),
        ensures
            r == self@.pending(),
    {
        self.pending
    }

    /// How many envelopes the buffer can hold at most.
    pub fn message_capacity(&self) -> (r: u64)
        requires
            self.wf(),
        ensures
            r == self@.message_capacity(),
    {
        proof {
            self.lemma_wf_view();
            assert(self@.segments.len() * self@.capacity_items <= MAX_SEGMENTS
                * SEGMENT_ITEM_CAPACITY) by (nonlinear_arith)
                requires
                    self@.segments.len() <= MAX_SEGMENTS,
                    self@.capacity_items <= SEGMENT_ITEM_CAPACITY,
            ;
        }
        (self.segments.len() as u64) * (self.capacity_items as u64)
    }
}

/// A buffer whose segments are all empty holds nothing.
pub proof fn lemma_empty_pending(v: BufferView)
    requires
        forall|i: int| 0 <= i < v.segments.len() ==> #[trigger] v.segments[i].len() == 0,
    ensures
        v.pending() == 0,
{
    lemma_pending_empty(v.segments);
}

proof fn lemma_pending_empty(segs: Seq<Seq<UniversalData>>)
    requires
        forall|i: int| 0 <= i < segs.len() ==> #[trigger] segs[i].len() == 0,
    ensures
        pending_of(segs) == 0,
    decreases segs.len(),
{
    if segs.len() > 0 {
        let t = segs.drop_last();
        assert forall|i: int| 0 <= i < t.len() implies #[trigger] t[i].len() == 0 by {
            assert(t[i] == segs[i]);
        }
        lemma_pending_empty(t);
    }
}

} // verus!
