use vstd::prelude::*;
use crate::error::UMSBBError;

verus! {

/// Consecutive low-load evaluations needed before the worker counts shrink.
pub const LOW_LOAD_EVALUATIONS: u32 = 3;

/// Bounds and policy of the auto-scaling controller.
#[derive(Debug, Clone, Copy, PartialEq, Eq, Structural)]
pub struct ScalingConfig {
    pub min_producers: u32,
    pub max_producers: u32,
    pub min_consumers: u32,
    pub max_consumers: u32,
    pub scale_threshold_percent: u32,
    pub scale_cooldown_ms: u32,
    pub gpu_preferred: bool,
    pub auto_balance_load: bool,
}

impl ScalingConfig {
    /// All bounds are positive, each minimum is at most its maximum, and the
    /// threshold is a percentage.
    pub open spec fn valid(self) -> bool {
        &&& 0 < self.min_producers <= self.max_producers
        &&& 0 < self.min_consumers <= self.max_consumers
        &&& self.scale_threshold_percent <= 100
    }

    pub fn is_valid(&self) -> (r: bool)
        ensures
            r == self.valid(),
    {
        0 < self.min_producers && self.min_producers <= self.max_producers && 0
            < self.min_consumers && self.min_consumers <= self.max_consumers
            && self.scale_threshold_percent <= 100
    }

    /// The bus's standard policy: 1 to 16 producers, 1 to 8 consumers, scale
    /// up at 75% load, one second of cooldown.
    pub fn standard(gpu_preferred: bool) -> (r: Self)
        ensures
            r.valid(),
            r == (ScalingConfig {
                min_producers: 1,
                max_producers: 16,
                min_consumers: 1,
                max_consumers: 8,
                scale_threshold_percent: 75,
                scale_cooldown_ms: 1000,
                gpu_preferred,
                auto_balance_load: true,
            }),
    {
        ScalingConfig {
            min_producers: 1,
            max_producers: 16,
            min_consumers: 1,
            max_consumers: 8,
            scale_threshold_percent: 75,
            scale_cooldown_ms: 1000,
            gpu_preferred,
            auto_balance_load: true,
        }
    }
}

/// One observation handed to the controller.
#[derive(Debug, Clone, Copy, PartialEq, Eq, Structural)]
pub struct LoadSample {
    /// Messages waiting in the buffer.
    pub pending_messages: u64,
    /// Messages the buffer can hold.
    pub capacity_messages: u64,
    /// A monotonic clock reading, in milliseconds.
    pub now_ms: u64,
    /// Whether acceleration hardware is available.
    pub gpu_available: bool,
}

/// What an evaluation did.
#[derive(Debug, Clone, Copy, PartialEq, Eq, Structural)]
pub enum ScaleDecision {
    /// New worker counts were applied; the cooldown starts now.
    Applied,
    /// The cooldown has not elapsed; the evaluation was ignored.
    Deferred,
    /// The counts stay as they are.
    Held,
}

/// The controller's state: its policy, the current targets, when a decision
/// was last applied, and how many low-load evaluations came in a row.
pub ghost struct ControllerView {
    pub config: ScalingConfig,
    pub producers: int,
    pub consumers: int,
    pub last_applied: Option<int>,
    pub low_streak: int,
}

pub open spec fn min_int(a: int, b: int) -> int {
    if a < b {
        a
    } else {
        b
    }
}

pub open spec fn max_int(a: int, b: int) -> int {
    if a < b {
        b
    } else {
        a
    }
}

impl ControllerView {
    pub open spec fn wf(self) -> bool {
        &&& self.config.valid()
        &&& self.config.min_producers <= self.producers <= self.config.max_producers
        &&& self.config.min_consumers <= self.consumers <= self.config.max_consumers
        &&& 0 <= self.low_streak < LOW_LOAD_EVALUATIONS
        &&& self.last_applied matches Some(t) ==> 0 <= t <= u64::MAX
    }

    /// A decision was applied less than the cooldown before `now`.
    pub open spec fn in_cooldown(self, now: int) -> bool {
        self.last_applied matches Some(t) && now < t + self.config.scale_cooldown_ms
    }

    /// Load at or above the threshold.
    pub open spec fn high_load(self, s: LoadSample) -> bool {
        s.capacity_messages > 0 && s.pending_messages * 100 >= self.config.scale_threshold_percent
            * s.capacity_messages
    }

    /// Load below half the threshold, or nothing to hold.
    pub open spec fn low_load(self, s: LoadSample) -> bool {
        s.capacity_messages == 0 || s.pending_messages * 200
            < self.config.scale_threshold_percent * s.capacity_messages
    }

    /// Workers added per scale-up: one when batch work can go to the GPU, else two.
    pub open spec fn growth_step(self, s: LoadSample) -> int {
        if self.config.gpu_preferred && s.gpu_available {
            1
        } else {
            2
        }
    }

    /// The state after one evaluation, and what it did.
    pub open spec fn step(self, s: LoadSample) -> (ControllerView, ScaleDecision) {
        let now = s.now_ms as int;
        if self.in_cooldown(now) {
            (self, ScaleDecision::Deferred)
        } else if self.high_load(s) {
            let p = min_int(self.producers + self.growth_step(s), self.config.max_producers as int);
            let c = min_int(self.consumers + self.growth_step(s), self.config.max_consumers as int);
            if p != self.producers || c != self.consumers {
                (
                    ControllerView {
                        producers: p,
                        consumers: c,
                        last_applied: Some(now),
                        low_streak: 0,
                        ..self
                    },
                    ScaleDecision::Applied,
                )
            } else {
                (ControllerView { low_streak: 0, ..self }, ScaleDecision::Held)
            }
        } else if self.low_load(s) {
            if self.low_streak + 1 < LOW_LOAD_EVALUATIONS {
                (ControllerView { low_streak: self.low_streak + 1, ..self }, ScaleDecision::Held)
            } else {
                let p = max_int(self.producers - 1, self.config.min_producers as int);
                let c = max_int(self.consumers - 1, self.config.min_consumers as int);
                if p != self.producers || c != self.consumers {
                    (
                        ControllerView {
                            producers: p,
                            consumers: c,
                            last_applied: Some(now),
                            low_streak: 0,
                            ..self
                        },
                        ScaleDecision::Applied,
                    )
                } else {
                    (ControllerView { low_streak: 0, ..self }, ScaleDecision::Held)
                }
            }
        } else {
            (ControllerView { low_streak: 0, ..self }, ScaleDecision::Held)
        }
    }

    /// The state after evaluating each sample in turn.
    pub open spec fn run(self, samples: Seq<LoadSample>) -> ControllerView
        decreases samples.len(),
    {
        if samples.len() == 0 {
            self
        } else {
            self.run(samples.drop_last()).step(samples.last()).0
        }
    }
}

/// Decides how many producers and consumers should be active.
pub struct ScalingController {
    config: ScalingConfig,
    producers: u32,
    consumers: u32,
    last_applied_ms: Option<u64>,
    low_streak: u32,
}

impl View for ScalingController {
    type V = ControllerView;

    closed spec fn view(&self) -> ControllerView {
        ControllerView {
            config: self.config,
            producers: self.producers as int,
            consumers: self.consumers as int,
            last_applied: match self.last_applied_ms {
                Some(t) => Some(t as int),
                None => None,
            },
            low_streak: self.low_streak as int,
        }
    }
}

impl ScalingController {
    /// Starts a controller at the minimum counts; an invalid configuration
    /// is refused with `InvalidParams`.
    pub fn new(config: ScalingConfig) -> (r: Result<Self, UMSBBError>)
        ensures
            config.valid() <==> r is Ok,
            r is Err ==> r == Err::<Self, UMSBBError>(UMSBBError::InvalidParams),
            r matches Ok(c) ==> c@ == (ControllerView {
                config,
                producers: config.min_producers as int,
                consumers: config.min_consumers as int,
                last_applied: None,
                low_streak: 0,
            }) && c@.wf(),
    {
        if !config.is_valid() {
            return Err(UMSBBError::InvalidParams);
        }
        Ok(
            ScalingController {
                config,
                producers: config.min_producers,
                consumers: config.min_consumers,
                last_applied_ms: None,
                low_streak: 0,
            },
        )
    }

    pub fn config(&self) -> (r: ScalingConfig)
        ensures
            r == self@.config,
    {
        self.config
    }

    /// The last computed producer target (the minimum before any scaling).
    pub fn optimal_producer_count(&self) -> (r: u32)
        ensures
            r == self@.producers,
    {
        self.producers
    }

    /// The last computed consumer target (the minimum before any scaling).
    pub fn optimal_consumer_count(&self) -> (r: u32)
        ensures
            r == self@.consumers,
    {
        self.consumers
    }

    fn is_in_cooldown(&self, now: u64) -> (r: bool)
        requires
            self@.wf(),
        ensures
            r == self@.in_cooldown(now as int),
    {
        match self.last_applied_ms {
            Some(t) => (now as u128) < (t as u128) + (self.config.scale_cooldown_ms as u128),
            None => false,
        }
    }

    /// Evaluates one load sample: during the cooldown nothing changes; at or
    /// above the threshold both counts grow; after a run of low-load
    /// evaluations both shrink by one; counts stay within the bounds.
    pub fn evaluate(&mut self, s: LoadSample) -> (r: ScaleDecision)
        requires
            old(self)@.wf(),
        ensures
            final(self)@.wf(),
            (final(self)@, r) == old(self)@.step(s),
    {
        if self.is_in_cooldown(s.now_ms) {
            return ScaleDecision::Deferred;
        }
        let pending = s.pending_messages as u128;
        let capacity = s.capacity_messages as u128;
        let threshold = self.config.scale_threshold_percent as u128;
        proof {
            assert(threshold * capacity <= 100 * 0xffff_ffff_ffff_ffffu128) by (nonlinear_arith)
                requires
                    threshold <= 100,
                    capacity <= 0xffff_ffff_ffff_ffffu128,
            ;
        }
        let high = capacity > 0 && pending * 100 >= threshold * capacity;
        let low = capacity == 0 || pending * 200 < threshold * capacity;
        if high {
            let step: u32 = if self.config.gpu_preferred && s.gpu_available {
                1
            } else {
                2
            };
            let p: u32 = if self.producers as u64 + step as u64 > self.config.max_producers as u64 {
                self.config.max_producers
            } else {
                self.producers + step
            };
            let c: u32 = if self.consumers as u64 + step as u64 > self.config.max_consumers as u64 {
                self.config.max_consumers
            } else {
                self.consumers + step
            };
            self.low_streak = 0;
            if p != self.producers || c != self.consumers {
                self.producers = p;
                self.consumers = c;
                self.last_applied_ms = Some(s.now_ms);
                ScaleDecision::Applied
            } else {
                ScaleDecision::Held
            }
        } else if low {
            if self.low_streak + 1 < LOW_LOAD_EVALUATIONS {
                self.low_streak = self.low_streak + 1;
                ScaleDecision::Held
            } else {
                let p: u32 = if self.producers - 1 < self.config.min_producers {
                    self.config.min_producers
                } else {
                    self.producers - 1
                };
                let c: u32 = if self.consumers - 1 < self.config.min_consumers {
                    self.config.min_consumers
                } else {
                    self.consumers - 1
                };
                self.low_streak = 0;
                if p != self.producers || c != self.consumers {
                    self.producers = p;
                    self.consumers = c;
                    self.last_applied_ms = Some(s.now_ms);
                    ScaleDecision::Applied
                } else {
                    ScaleDecision::Held
                }
            }
        } else {
            self.low_streak = 0;
            ScaleDecision::Held
        }
    }
}

/// Whatever the samples, the targets never leave the configured bounds.
pub proof fn lemma_targets_within_bounds(v: ControllerView, samples: Seq<LoadSample>)
    requires
        v.wf(),
    ensures
        v.run(samples).wf(),
        v.config.min_producers <= v.run(samples).producers <= v.config.max_producers,
        v.config.min_consumers <= v.run(samples).consumers <= v.config.max_consumers,
        v.run(samples).config == v.config,
    decreases samples.len(),
{
    if samples.len() > 0 {
        lemma_targets_within_bounds(v, samples.drop_last());
    }
}

/// A decision is applied only once the cooldown since the previous one has
/// elapsed; an evaluation within the cooldown, triggered or periodic,
/// changes nothing and does not restart the cooldown.
pub proof fn lemma_cooldown_respected(v: ControllerView, s: LoadSample)
    requires
        v.wf(),
    ensures
        v.step(s).1 == ScaleDecision::Applied ==> {
            &&& v.last_applied matches Some(t) ==> s.now_ms >= t + v.config.scale_cooldown_ms
            &&& v.step(s).0.last_applied == Some(s.now_ms as int)
        },
        v.step(s).1 != ScaleDecision::Applied ==> {
            &&& v.step(s).0.last_applied == v.last_applied
            &&& v.step(s).0.producers == v.producers
            &&& v.step(s).0.consumers == v.consumers
        },
        v.in_cooldown(s.now_ms as int) ==> v.step(s) == (v, ScaleDecision::Deferred),
{
}

} // verus!
