use vstd::prelude::*;

verus! {

/// How many workers to start: the count asked for, else the controller's target.
pub fn worker_count(requested: Option<u32>, optimal: u32) -> (r: u32)
    ensures
        r == match requested {
            Some(n) => n,
            None => optimal,
        },
{
    match requested {
        Some(n) => n,
        None => optimal,
    }
}

/// The lifecycle of a pool of workers: how many of each kind run, and
/// whether shutdown has been signalled.
pub struct WorkerPool {
    producers: u64,
    consumers: u64,
    shutdown: bool,
}

pub ghost struct PoolView {
    pub producers: nat,
    pub consumers: nat,
    pub shutdown: bool,
}

impl View for WorkerPool {
    type V = PoolView;

    closed spec fn view(&self) -> PoolView {
        PoolView {
            producers: self.producers as nat,
            consumers: self.consumers as nat,
            shutdown: self.shutdown,
        }
    }
}

impl WorkerPool {
    pub fn new() -> (r: Self)
        ensures
            r@ == (PoolView { producers: 0, consumers: 0, shutdown: false }),
    {
        WorkerPool { producers: 0, consumers: 0, shutdown: false }
    }

    /// Records `count` producers to start and returns how many to spawn:
    /// none once shutdown has been signalled.
    pub fn start_producers(&mut self, count: u32) -> (r: u32)
        ensures
            old(self)@.shutdown ==> r == 0 && final(self)@ == old(self)@,
            !old(self)@.shutdown ==> r == count && final(self)@ == (PoolView {
                producers: saturating_count(old(self)@.producers + count as nat),
                ..old(self)@
            }),
    {
        if self.shutdown {
            return 0;
        }
        self.producers = self.producers.saturating_add(count as u64);
        count
    }

    /// Records `count` consumers to start and returns how many to spawn:
    /// none once shutdown has been signalled.
    pub fn start_consumers(&mut self, count: u32) -> (r: u32)
        ensures
            old(self)@.shutdown ==> r == 0 && final(self)@ == old(self)@,
            !old(self)@.shutdown ==> r == count && final(self)@ == (PoolView {
                consumers: saturating_count(old(self)@.consumers + count as nat),
                ..old(self)@
            }),
    {
        if self.shutdown {
            return 0;
        }
        self.consumers = self.consumers.saturating_add(count as u64);
        count
    }

    /// Signals shutdown and hands back how many producers and consumers must
    /// be joined. A second call finds none left and changes nothing.
    pub fn stop(&mut self) -> (r: (u64, u64))
        ensures
            r.0 == old(self)@.producers,
            r.1 == old(self)@.consumers,
            final(self)@ == (PoolView { producers: 0, consumers: 0, shutdown: true }),
    {
        let r = (self.producers, self.consumers);
        self.producers = 0;
        self.consumers = 0;
        self.shutdown = true;
        r
    }

    pub fn is_shutdown(&self) -> (r: bool)
        ensures
            r == self@.shutdown,
    {
        self.shutdown
    }

    pub fn running_producers(&self) -> (r: u64)
        ensures
            r == self@.producers,
    {
        self.producers
    }

    pub fn running_consumers(&self) -> (r: u64)
        ensures
            r == self@.consumers,
    {
        self.consumers
    }
}

pub open spec fn saturating_count(x: nat) -> nat {
    if x > u64::MAX {
        u64::MAX as nat
    } else {
        x
    }
}

} // verus!
