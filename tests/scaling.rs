use umsbb::error::UMSBBError;
use umsbb::scaling::{LoadSample, ScaleDecision, ScalingConfig, ScalingController};

fn sample(pending: u64, capacity: u64, now_ms: u64) -> LoadSample {
    LoadSample { pending_messages: pending, capacity_messages: capacity, now_ms, gpu_available: false }
}

#[test]
fn scaling_rises_to_bounds_and_settles_back() {
    let config = ScalingConfig::standard(false);
    assert_eq!(config.min_producers, 1);
    assert_eq!(config.max_producers, 16);
    let mut c = ScalingController::new(config).unwrap();
    assert_eq!(c.optimal_producer_count(), 1);
    assert_eq!(c.optimal_consumer_count(), 1);
    let mut now = 0u64;
    for _ in 0..40 {
        c.evaluate(sample(900, 1000, now));
        assert!(c.optimal_producer_count() <= 16);
        assert!(c.optimal_consumer_count() <= 8);
        now += 1000;
    }
    assert_eq!(c.optimal_producer_count(), 16);
    assert_eq!(c.optimal_consumer_count(), 8);
    for _ in 0..200 {
        c.evaluate(sample(0, 1000, now));
        assert!(c.optimal_producer_count() >= 1);
        assert!(c.optimal_consumer_count() >= 1);
        now += 1000;
    }
    assert_eq!(c.optimal_producer_count(), 1);
    assert_eq!(c.optimal_consumer_count(), 1);
}

#[test]
fn growth_steps_and_threshold() {
    let mut c = ScalingController::new(ScalingConfig::standard(false)).unwrap();
    assert_eq!(c.evaluate(sample(749, 1000, 0)), ScaleDecision::Held);
    assert_eq!(c.optimal_producer_count(), 1);
    assert_eq!(c.evaluate(sample(750, 1000, 0)), ScaleDecision::Applied);
    assert_eq!(c.optimal_producer_count(), 3);
    assert_eq!(c.optimal_consumer_count(), 3);

    let mut g = ScalingController::new(ScalingConfig::standard(true)).unwrap();
    let busy = LoadSample { pending_messages: 10, capacity_messages: 10, now_ms: 0, gpu_available: true };
    assert_eq!(g.evaluate(busy), ScaleDecision::Applied);
    assert_eq!(g.optimal_producer_count(), 2);
}

#[test]
fn triggers_during_cooldown_are_deferred() {
    let mut c = ScalingController::new(ScalingConfig::standard(false)).unwrap();
    assert_eq!(c.evaluate(sample(1000, 1000, 5000)), ScaleDecision::Applied);
    for t in 5000..6000u64 {
        assert_eq!(c.evaluate(sample(1000, 1000, t)), ScaleDecision::Deferred);
        assert_eq!(c.optimal_producer_count(), 3);
    }
    assert_eq!(c.evaluate(sample(1000, 1000, 6000)), ScaleDecision::Applied);
    assert_eq!(c.optimal_producer_count(), 5);
}

#[test]
fn shrinking_needs_sustained_low_load() {
    let mut c = ScalingController::new(ScalingConfig::standard(false)).unwrap();
    c.evaluate(sample(1000, 1000, 0));
    assert_eq!(c.optimal_producer_count(), 3);
    assert_eq!(c.evaluate(sample(0, 1000, 2000)), ScaleDecision::Held);
    assert_eq!(c.evaluate(sample(0, 1000, 3000)), ScaleDecision::Held);
    // a moderate sample breaks the run of low-load evaluations
    assert_eq!(c.evaluate(sample(500, 1000, 4000)), ScaleDecision::Held);
    assert_eq!(c.evaluate(sample(0, 1000, 5000)), ScaleDecision::Held);
    assert_eq!(c.evaluate(sample(0, 1000, 6000)), ScaleDecision::Held);
    assert_eq!(c.evaluate(sample(0, 1000, 7000)), ScaleDecision::Applied);
    assert_eq!(c.optimal_producer_count(), 2);
    assert_eq!(c.optimal_consumer_count(), 2);
}

#[test]
fn invalid_configurations_are_refused() {
    let good = ScalingConfig::standard(false);
    assert!(good.is_valid());
    let mut bad = good;
    bad.min_producers = 17;
    assert_eq!(ScalingController::new(bad).err(), Some(UMSBBError::InvalidParams));
    let mut bad = good;
    bad.scale_threshold_percent = 101;
    assert_eq!(ScalingController::new(bad).err(), Some(UMSBBError::InvalidParams));
    let mut bad = good;
    bad.min_consumers = 0;
    assert!(!bad.is_valid());
    assert!(ScalingController::new(bad).is_err());
}
