use umsbb::bus::DirectUniversalBus;
use umsbb::gpu::{GpuCapabilities, GpuInfo};
use umsbb::pool::{worker_count, WorkerPool};
use umsbb::scaling::ScaleDecision;

#[test]
fn test_direct_bus_creation() {
    let bus = DirectUniversalBus::new(1024 * 1024, 4, false, false, GpuCapabilities::none(), 1);
    assert!(bus.is_ok());
}

#[test]
fn test_send_receive() {
    let mut bus =
        DirectUniversalBus::new(1024 * 1024, 4, false, false, GpuCapabilities::none(), 1).unwrap();

    // Send test data
    assert!(bus.send("Hello Rust!".as_bytes(), 1).is_ok());
    assert!(bus.send(&[1, 2, 3, 4], 2).is_ok());

    // Receive data
    if let Some(data) = bus.receive() {
        println!("Received: {:?}", String::from_utf8_lossy(&data));
    }
}

#[test]
fn test_gpu_info() {
    let bus = DirectUniversalBus::new(1024 * 1024, 4, true, false, GpuCapabilities::none(), 1).unwrap();
    let gpu_info = bus.get_gpu_info();
    println!("GPU Info: {:?}", gpu_info);
}

#[test]
fn bus_round_trip_and_status() {
    let mut bus =
        DirectUniversalBus::new(1024 * 1024, 0, false, true, GpuCapabilities::none(), 2).unwrap();
    assert_eq!(bus.stats().active_segments, 2);
    bus.send(b"first", 1).unwrap();
    bus.send(b"second", 2).unwrap();
    assert_eq!(bus.receive(), Some(b"first".to_vec()));
    assert_eq!(bus.receive(), Some(b"second".to_vec()));
    assert_eq!(bus.receive(), None);
    let status = bus.get_scaling_status();
    assert_eq!(status.optimal_producers, 1);
    assert_eq!(status.optimal_consumers, 1);
    assert!(!status.gpu_info.available);
}

#[test]
fn bus_rejects_bad_parameters() {
    assert!(DirectUniversalBus::new(0, 4, false, false, GpuCapabilities::none(), 1).is_err());
    assert!(DirectUniversalBus::new(1024, 65, false, false, GpuCapabilities::none(), 1).is_err());
}

#[test]
fn bus_scales_with_load() {
    let mut bus = DirectUniversalBus::new(1024 * 1024, 1, false, true, GpuCapabilities::none(), 1).unwrap();
    for _ in 0..800 {
        bus.send(b"x", 0).unwrap();
    }
    assert_eq!(bus.trigger_scale_evaluation(0), ScaleDecision::Applied);
    assert_eq!(bus.get_scaling_status().optimal_producers, 3);
    assert_eq!(bus.trigger_scale_evaluation(10), ScaleDecision::Deferred);

    let mut off = DirectUniversalBus::new(1024 * 1024, 1, false, false, GpuCapabilities::none(), 1).unwrap();
    for _ in 0..800 {
        off.send(b"x", 0).unwrap();
    }
    assert_eq!(off.trigger_scale_evaluation(0), ScaleDecision::Held);
    assert_eq!(off.get_scaling_status().optimal_producers, 1);
}

#[test]
fn gpu_snapshot_is_reported() {
    let caps = GpuCapabilities {
        has_cuda: true,
        has_opencl: false,
        has_compute: true,
        has_memory_pool: true,
        memory_size: 8 << 30,
        compute_capability: 86,
        max_threads: 1024,
    };
    assert!(caps.available());
    assert!(!GpuCapabilities::none().available());
    let info = GpuInfo::from_capabilities(&caps);
    assert!(info.available);
    assert_eq!(info.memory_size, 8 << 30);
    assert_eq!(info.compute_capability, 86);
    let bus = DirectUniversalBus::new(1024, 1, true, false, caps, 1).unwrap();
    assert!(bus.gpu_enabled());
    let bus = DirectUniversalBus::new(1024, 1, false, false, caps, 1).unwrap();
    assert!(!bus.gpu_enabled());
}

#[test]
fn pool_counts_and_stops_once() {
    assert_eq!(worker_count(Some(3), 7), 3);
    assert_eq!(worker_count(None, 7), 7);
    let mut pool = WorkerPool::new();
    assert_eq!(pool.start_producers(2), 2);
    assert_eq!(pool.start_consumers(3), 3);
    assert_eq!(pool.running_producers(), 2);
    assert_eq!(pool.stop(), (2, 3));
    assert!(pool.is_shutdown());
    assert_eq!(pool.stop(), (0, 0));
    assert_eq!(pool.start_producers(4), 0);
}
