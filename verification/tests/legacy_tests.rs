use pwrzv::calculator::{PowerReserveCalculator, PowerReserveLevel, SigmoidConfig};
use pwrzv::metrics::default::DefaultMetricsCollector;
use pwrzv::metrics::linux::LinuxMetricsCollector;
use pwrzv::metrics::macos::MacOSMetricsCollector;
use pwrzv::metrics::SystemMetrics;
use pwrzv::sigmoid::SigmoidFn;

fn metrics(
    cpu_usage: i64,
    cpu_iowait: i64,
    mem_available: i64,
    swap_usage: i64,
    disk_usage: i64,
    net_usage: i64,
    fd_usage: i64,
) -> SystemMetrics {
    SystemMetrics {
        cpu_usage,
        cpu_iowait,
        mem_available,
        swap_usage,
        disk_usage,
        net_usage,
        fd_usage,
    }
}

#[test]
fn test_power_reserve_calculator_new() {
    let calculator = PowerReserveCalculator::new();
    assert_eq!(calculator.config.cpu_threshold, 900_000);
}

#[test]
fn test_sigmoid_function() {
    // Test sigmoid function basic behavior
    let f = |x: i64| {
        SigmoidFn {
            midpoint: 500_000,
            steepness: 10_000_000,
        }
        .evaluate(x)
    };
    let result1 = f(0);
    let result2 = f(500_000);
    let result3 = f(1_000_000);

    assert!(result1 < result2);
    assert!(result2 < result3);
    assert!(result1 >= 1 && result1 <= 999_999);
    assert!(result3 >= 1 && result3 <= 999_999);
}

#[test]
fn test_calculate_power_reserve_with_good_metrics() {
    let calculator = PowerReserveCalculator::new();
    // Create very low usage metrics that should result in high score
    let m = metrics(
        50_000,  // Very low CPU usage (5%)
        10_000,  // Very low I/O wait (1%)
        950_000, // High memory available (95%)
        0,       // No swap usage
        20_000,  // Very low disk usage (2%)
        10_000,  // Very low network usage (1%)
        50_000,  // Very low FD usage (5%)
    );

    match calculator.calculate_power_reserve(&m) {
        Ok(score) => {
            // With all very low usage, we should get a good score
            assert!(score >= 3, "Expected score >= 3, got {score}");
        }
        Err(e) => {
            panic!("calculation should succeed: {e:?}");
        }
    }
}

#[test]
fn test_calculate_power_reserve_with_bad_metrics() {
    let calculator = PowerReserveCalculator::new();
    // Create high usage metrics that should result in low score
    let m = metrics(
        980_000, // Very high CPU usage (98%)
        700_000, // Very high I/O wait (70%)
        10_000,  // Very low memory available (1%)
        900_000, // High swap usage (90%)
        990_000, // Very high disk usage (99%)
        980_000, // Very high network usage (98%)
        950_000, // Very high FD usage (95%)
    );

    match calculator.calculate_power_reserve(&m) {
        Ok(score) => {
            // With all very high usage, we should get a low score
            assert!(score <= 2, "Expected score <= 2, got {score}");
        }
        Err(e) => {
            panic!("calculation should succeed: {e:?}");
        }
    }
}

#[test]
fn test_identify_bottleneck() {
    let calculator = PowerReserveCalculator::new();

    // On a lightly loaded record a maximal-pressure signal still exists:
    // here the I/O-wait signal, whose default midpoint is the lowest.
    let metrics_light_load = metrics(100_000, 10_000, 900_000, 0, 50_000, 10_000, 50_000);

    let bottleneck = calculator.identify_bottleneck(&metrics_light_load);
    assert_eq!(bottleneck, "I/O Wait");

    let metrics_cpu_bottleneck = metrics(950_000, 10_000, 900_000, 0, 50_000, 10_000, 50_000);

    let bottleneck = calculator.identify_bottleneck(&metrics_cpu_bottleneck);
    assert!(bottleneck.contains("CPU"));
    assert_eq!(bottleneck, "CPU");
}

#[test]
fn test_identify_bottleneck_joins_tied_names() {
    let calculator = PowerReserveCalculator::new();
    // CPU and file descriptors share threshold and steepness; at the same
    // raw value their pressures tie exactly, and both are named in
    // component order.
    let m = metrics(950_000, 10_000, 900_000, 0, 50_000, 10_000, 950_000);
    let bottleneck = calculator.identify_bottleneck(&m);
    assert_eq!(bottleneck, "CPU, File Descriptors");
}

#[test]
fn test_invalid_metrics() {
    let calculator = PowerReserveCalculator::new();
    let invalid_metrics = metrics(
        -100_000, // Invalid value (-10%)
        10_000,
        900_000,
        0,
        50_000,
        10_000,
        50_000,
    );

    let result = calculator.calculate_power_reserve(&invalid_metrics);
    assert!(result.is_err());
}

#[test]
fn test_calculate_detailed_score() {
    let calculator = PowerReserveCalculator::new();
    let m = metrics(50_000, 10_000, 950_000, 0, 20_000, 10_000, 50_000);
    let d = calculator.calculate_detailed_score(&m).unwrap();
    assert_eq!(d.final_score, 5);
    assert_eq!(d.level, PowerReserveLevel::Abundant);
    // Even at rest the worst signal is named: I/O wait, whose default
    // midpoint sits lowest.
    assert_eq!(d.bottleneck, "I/O Wait");
    assert_eq!(d.component_scores.cpu, 5);
    assert_eq!(d.component_scores.swap, 5);
}

#[test]
fn test_power_reserve_level_buckets() {
    assert_eq!(PowerReserveLevel::from_score(5), PowerReserveLevel::Abundant);
    assert_eq!(PowerReserveLevel::from_score(4), PowerReserveLevel::High);
    assert_eq!(PowerReserveLevel::from_score(3), PowerReserveLevel::Medium);
    assert_eq!(PowerReserveLevel::from_score(2), PowerReserveLevel::Low);
    assert_eq!(PowerReserveLevel::from_score(1), PowerReserveLevel::Critical);
    assert_eq!(PowerReserveLevel::from_score(0), PowerReserveLevel::Critical);
}

#[test]
fn test_with_config_roundtrip() {
    let mut config = SigmoidConfig::default();
    config.cpu_threshold = 800_000;
    let mut calculator = PowerReserveCalculator::with_config(config);
    assert_eq!(calculator.get_config().cpu_threshold, 800_000);

    let mut other = SigmoidConfig::default();
    other.fd_steepness = 12_000_000;
    calculator.set_config(other);
    assert_eq!(calculator.get_config().fd_steepness, 12_000_000);
}

#[test]
fn test_system_metrics_default() {
    let m = SystemMetrics::default();
    assert_eq!(m.cpu_usage, 0);
    assert_eq!(m.mem_available, 1_000_000);
    assert!(m.validate());
}

#[test]
fn mod_test_system_metrics_default() {
    let m = SystemMetrics::new();
    assert_eq!(m.cpu_usage, 0);
    assert_eq!(m.mem_available, 1_000_000);
    assert!(m.validate());
}

#[test]
fn test_system_metrics_validation() {
    let mut m = SystemMetrics::default();
    assert!(m.validate());

    m.cpu_usage = -10_000;
    assert!(!m.validate());

    m.cpu_usage = 1_010_000;
    assert!(!m.validate());

    m.cpu_usage = 500_000;
    assert!(m.validate());
}

#[test]
fn mod_test_system_metrics_validation() {
    let mut m = SystemMetrics::new();
    assert!(m.validate());

    m.fd_usage = -1;
    assert!(!m.validate());

    m.fd_usage = 1_000_001;
    assert!(!m.validate());

    m.fd_usage = 0;
    assert!(m.validate());
}

#[test]
fn test_default_collector_creation() {
    let collector = DefaultMetricsCollector;
    // Just verify we can create the collector
    assert_eq!(std::mem::size_of_val(&collector), 0); // Zero-sized type
}

#[test]
fn test_linux_collector_creation() {
    let collector = LinuxMetricsCollector;
    // Just verify we can create the collector
    assert_eq!(std::mem::size_of_val(&collector), 0); // Zero-sized type
}

#[test]
fn test_macos_collector_creation() {
    let collector = MacOSMetricsCollector;
    // Just verify we can create the collector
    assert_eq!(std::mem::size_of_val(&collector), 0); // Zero-sized type
}

#[test]
fn test_all_methods_return_errors() {
    let collector = DefaultMetricsCollector;

    // All methods should return errors
    assert!(collector.collect_cpu_stats().is_err());
    assert!(collector.collect_memory_stats().is_err());
    assert!(collector.collect_disk_stats().is_err());
    assert!(collector.collect_network_stats().is_err());
    assert!(collector.collect_fd_stats().is_err());
}

#[test]
fn test_error_messages() {
    let collector = DefaultMetricsCollector;

    // Test that error messages are informative
    if let Err(e) = collector.collect_cpu_stats() {
        assert!(e.message().contains("not supported"));
    }

    if let Err(e) = collector.collect_memory_stats() {
        assert!(e.message().contains("not supported"));
    }
}

#[test]
fn test_trait_methods_error_handling() {
    let collector = DefaultMetricsCollector;

    assert!(collector.collect_cpu_stats().is_err());
    assert!(collector.collect_memory_stats().is_err());
    assert!(collector.collect_disk_stats().is_err());
    assert!(collector.collect_network_stats().is_err());
    assert!(collector.collect_fd_stats().is_err());
}

#[test]
fn test_collect_from_sources() {
    let m = SystemMetrics::collect_from_sources(
        Some("cpu  100 100 100 600 100\n"),
        Some("MemTotal: 1000 kB\nMemAvailable: 250 kB\nSwapTotal: 100 kB\nSwapFree: 75 kB\n"),
        None,
        None,
        Some("100 0 1000\n"),
    );
    // busy = (1000 - 600) / 1000 over the five counters
    assert_eq!(m.cpu_usage, 400_000);
    assert_eq!(m.cpu_iowait, 100_000);
    assert_eq!(m.mem_available, 250_000);
    assert_eq!(m.swap_usage, 250_000);
    // Unread sources keep their defaults
    assert_eq!(m.disk_usage, 0);
    assert_eq!(m.net_usage, 0);
    assert_eq!(m.fd_usage, 100_000);
    assert!(m.validate());
}
