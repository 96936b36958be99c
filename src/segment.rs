use vstd::prelude::*;
use std::collections::VecDeque;
use crate::envelope::UniversalData;

verus! {

/// Total number of payload bytes held by a sequence of envelopes.
pub open spec fn bytes_of(s: Seq<UniversalData>) -> int
    decreases s.len(),
{
    if s.len() == 0 {
        0
    } else {
        bytes_of(s.drop_last()) + s.last().data@.len()
    }
}

/// Removing the first envelope removes exactly its bytes.
pub proof fn lemma_bytes_of_drop_first(s: Seq<UniversalData>)
    requires
        s.len() > 0,
    ensures
        bytes_of(s) == s[0].data@.len() + bytes_of(s.subrange(1, s.len() as int)),
    decreases s.len(),
{
    if s.len() > 1 {
        let t = s.drop_last();
        let u = s.subrange(1, s.len() as int);
        lemma_bytes_of_drop_first(t);
        assert(u.drop_last() =~= t.subrange(1, t.len() as int));
        assert(u.last() == s.last());
        assert(t[0] == s[0]);
        assert(bytes_of(u) == bytes_of(u.drop_last()) + u.last().data@.len());
    } else {
        let u = s.subrange(1, s.len() as int);
        assert(u.len() == 0);
        assert(bytes_of(u) == 0);
        assert(bytes_of(s.drop_last()) == 0);
        assert(s.last() == s[0]);
    }
}

/// Byte counts are never negative.
pub proof fn lemma_bytes_of_nonneg(s: Seq<UniversalData>)
    ensures
        bytes_of(s) >= 0,
    decreases s.len(),
{
    if s.len() > 0 {
        lemma_bytes_of_nonneg(s.drop_last());
    }
}

/// What a segment holds: its queue of envelopes and its two limits.
pub ghost struct SegmentView {
    pub items: Seq<UniversalData>,
    pub capacity_bytes: nat,
    pub capacity_items: nat,
}

impl SegmentView {
    pub open spec fn bytes_used(self) -> int {
        bytes_of(self.items)
    }

    /// Both limits hold.
    pub open spec fn within_limits(self) -> bool {
        &&& self.bytes_used() <= self.capacity_bytes
        &&& self.items.len() <= self.capacity_items
    }

    /// An envelope of `n` bytes can be appended without breaking a limit.
    pub open spec fn fits(self, n: int) -> bool {
        &&& self.bytes_used() + n <= self.capacity_bytes
        &&& self.items.len() < self.capacity_items
    }
}

/// A bounded FIFO queue of envelopes with a byte capacity and an item capacity.
pub struct Segment {
    items: VecDeque<UniversalData>,
    bytes_used: usize,
    capacity_bytes: usize,
    capacity_items: usize,
}

impl View for Segment {
    type V = SegmentView;

    closed spec fn view(&self) -> SegmentView {
        SegmentView {
            items: self.items@,
            capacity_bytes: self.capacity_bytes as nat,
            capacity_items: self.capacity_items as nat,
        }
    }
}

impl Segment {
    /// The byte counter agrees with the contents.
    pub closed spec fn counters_agree(&self) -> bool {
        self.bytes_used as int == bytes_of(self.items@)
    }

    /// The segment's counters agree with its contents and both limits hold.
    pub open spec fn wf(&self) -> bool {
        &&& self.counters_agree()
        &&& self@.within_limits()
    }

    pub fn new(capacity_bytes: usize, capacity_items: usize) -> (r: Self)
        ensures
            r.wf(),
            r@.items.len() == 0,
            r@.capacity_bytes == capacity_bytes,
            r@.capacity_items == capacity_items,
    {
        Segment { items: VecDeque::new(), bytes_used: 0, capacity_bytes, capacity_items }
    }

    pub fn len(&self) -> (r: usize)
        ensures
            r == self@.items.len(),
    {
        self.items.len()
    }

    pub fn is_empty(&self) -> (r: bool)
        ensures
            r == (self@.items.len() == 0),
    {
        self.items.len() == 0
    }

    pub fn bytes_used(&self) -> (r: usize)
        requires
            self.wf(),
        ensures
            r == self@.bytes_used(),
    {
        self.bytes_used
    }

    /// Whether an envelope of `n` bytes can be appended.
    pub fn fits(&self, n: usize) -> (r: bool)
        requires
            self.wf(),
        ensures
            r == self@.fits(n as int),
    {
        n <= self.capacity_bytes - self.bytes_used && self.items.len() < self.capacity_items
    }

    /// Appends an envelope at the back of the queue.
    pub fn push(&mut self, e: UniversalData)
        requires
            old(self).wf(),
            old(self)@.fits(e.data@.len() as int),
        ensures
            final(self).wf(),
            final(self)@ == (SegmentView { items: old(self)@.items.push(e), ..old(self)@ }),
    {
        let n = e.data.len();
        proof {
            assert(self.items@.push(e).drop_last() =~= self.items@);
        }
        self.items.push_back(e);
        self.bytes_used = self.bytes_used + n;
    }

    /// Takes the envelope at the front of the queue, if any.
    pub fn pop(&mut self) -> (r: Option<UniversalData>)
        requires
            old(self).wf(),
        ensures
            final(self).wf(),
            old(self)@.items.len() == 0 ==> r is None && final(self)@ == old(self)@,
            old(self)@.items.len() > 0 ==> r == Some(old(self)@.items[0]) && final(self)@ == (
            SegmentView {
                items: old(self)@.items.subrange(1, old(self)@.items.len() as int),
                ..old(self)@
            }),
    {
        let r = self.items.pop_front();
        match r {
            Some(e) => {
                proof {
                    lemma_bytes_of_drop_first(old(self).items@);
                    lemma_bytes_of_nonneg(self.items@);
                }
                self.bytes_used = self.bytes_used - e.data.len();
                Some(e)
            },
            None => None,
        }
    }
}

} // verus!
