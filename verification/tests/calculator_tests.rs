use pwrzv::linux::calculator::{LinuxProvider, LinuxSigmoidSet};
use pwrzv::linux::metrics::LinuxSystemMetrics;
use pwrzv::macos::calculator::{MacProvider, MacSigmoidSet};
use pwrzv::macos::metrics::MacSystemMetrics;

fn linux_metrics(
    cpu: Option<u64>,
    iowait: Option<u64>,
    load: Option<u64>,
    mem: Option<u64>,
    mempress: Option<u64>,
    disk: Option<u64>,
    net: Option<u64>,
    fd: Option<u64>,
    proc_ratio: Option<u64>,
) -> LinuxSystemMetrics {
    LinuxSystemMetrics {
        cpu_usage_ratio: cpu,
        cpu_io_wait_ratio: iowait,
        cpu_load_ratio: load,
        memory_usage_ratio: mem,
        memory_pressure_ratio: mempress,
        disk_io_utilization: disk,
        network_dropped_packets_ratio: net,
        fd_usage_ratio: fd,
        process_count_ratio: proc_ratio,
    }
}

#[test]
fn test_calculate_with_full_metrics() {
    let metrics = linux_metrics(
        Some(500_000),
        Some(100_000),
        Some(800_000),
        Some(700_000),
        Some(200_000),
        Some(600_000),
        Some(10_000),
        Some(300_000),
        Some(400_000),
    );

    let cfg = LinuxSigmoidSet::default_set();
    let result = LinuxProvider::calculate(&metrics, &cfg);
    assert!(result.is_ok());

    let (level, details) = result.unwrap();

    // Should have entries for all metrics
    assert!(!details.is_empty());

    // All scores should be in valid range [1.0, 5.0]
    for (_, score) in &details {
        assert!(
            *score >= 1_000_000 && *score <= 5_000_000,
            "Score {score} should be in range [1.0, 5.0]"
        );
    }

    // Level should be valid
    assert!(level >= 1_000_000 && level <= 5_000_000);
}

#[test]
fn test_calculate_with_no_metrics() {
    let metrics = linux_metrics(None, None, None, None, None, None, None, None, None);

    let cfg = LinuxSigmoidSet::default_set();
    let result = LinuxProvider::calculate(&metrics, &cfg);
    assert!(result.is_ok());

    let (level, details) = result.unwrap();

    assert_eq!(
        level, 3_000_000,
        "Should default to 3.0 level when no metrics available"
    );
    assert!(details.is_empty(), "Should have no detailed scores");
}

#[test]
fn test_calculate_with_partial_metrics() {
    let metrics = linux_metrics(
        Some(300_000),
        None,
        Some(500_000),
        None,
        Some(100_000),
        None,
        None,
        None,
        None,
    );

    let cfg = LinuxSigmoidSet::default_set();
    let result = LinuxProvider::calculate(&metrics, &cfg);
    assert!(result.is_ok());

    let (level, details) = result.unwrap();

    // Should have exactly 3 entries (for the 3 non-None metrics)
    assert_eq!(details.len(), 3);

    // All scores should be in valid range
    for (_, score) in &details {
        assert!(
            *score >= 1_000_000 && *score <= 5_000_000,
            "Score {score} should be in range [1.0, 5.0]"
        );
    }

    // Level should be the minimum of the calculated scores
    assert!(level >= 1_000_000 && level <= 5_000_000);
    let min = details.iter().map(|(_, s)| *s).min().unwrap();
    assert_eq!(level, min);
}

#[test]
fn test_calculate_extreme_values() {
    // Test with high load (should result in low scores)
    let metrics = linux_metrics(
        Some(950_000),
        Some(800_000),
        Some(3_000_000),
        Some(980_000),
        Some(900_000),
        Some(990_000),
        Some(100_000),
        Some(950_000),
        Some(900_000),
    );

    let cfg = LinuxSigmoidSet::default_set();
    let result = LinuxProvider::calculate(&metrics, &cfg);
    assert!(result.is_ok());

    let (level, details) = result.unwrap();

    // Since we take MIN score (worst metric), high load should result in low power reserve
    assert!(
        level <= 2_000_000,
        "High load should result in low power reserve (taking minimum score)"
    );

    // Most scores should be low (<=2.0)
    let low_scores = details.iter().filter(|(_, score)| *score <= 2_000_000).count();
    assert!(
        low_scores > 0,
        "Should have some low scores with high system load"
    );
}

#[test]
fn test_calculate_low_values() {
    // Test with low system stress (should result in high scores)
    let metrics = linux_metrics(
        Some(50_000),
        Some(10_000),
        Some(100_000),
        Some(100_000),
        Some(10_000),
        Some(50_000),
        Some(1_000),
        Some(100_000),
        Some(100_000),
    );

    let cfg = LinuxSigmoidSet::default_set();
    let result = LinuxProvider::calculate(&metrics, &cfg);
    assert!(result.is_ok());

    let (level, details) = result.unwrap();

    // Should result in high overall level due to low system stress
    assert!(level >= 4_000_000, "Low load should result in high power reserve");

    // Most scores should be high (>=4.0)
    let high_scores = details.iter().filter(|(_, score)| *score >= 4_000_000).count();
    assert!(
        high_scores > 0,
        "Should have some high scores with low system load"
    );
}

fn mac_metrics(
    cpu: Option<u64>,
    load: Option<u64>,
    mem: Option<u64>,
    comp: Option<u64>,
    net: Option<u64>,
    fd: Option<u64>,
    proc_ratio: Option<u64>,
) -> MacSystemMetrics {
    MacSystemMetrics {
        cpu_usage_ratio: cpu,
        cpu_load_ratio: load,
        memory_usage_ratio: mem,
        memory_compressed_ratio: comp,
        network_dropped_packets_ratio: net,
        fd_usage_ratio: fd,
        process_count_ratio: proc_ratio,
    }
}

#[test]
fn calculator_test_calculate_with_full_metrics() {
    let metrics = mac_metrics(
        Some(500_000),
        Some(800_000),
        Some(700_000),
        Some(300_000),
        Some(1_000),
        Some(500_000),
        Some(600_000),
    );

    let cfg = MacSigmoidSet::default_set();
    let result = MacProvider::calculate(&metrics, &cfg);
    assert!(
        result.is_ok(),
        "Calculation should succeed with full metrics"
    );

    let (level, details) = result.unwrap();

    // Should have details for all provided metrics
    assert_eq!(details.len(), 7, "Should have 7 metric details");

    // All scores should be in valid range [0, 5]
    for (_, score) in &details {
        assert!(
            *score <= 5_000_000,
            "Score {score} should be in range [0, 5]"
        );
    }

    // Level should be valid
    assert!(level <= 5_000_000);
}

#[test]
fn calculator_test_calculate_with_no_metrics() {
    let metrics = mac_metrics(None, None, None, None, None, None, None);

    let cfg = MacSigmoidSet::default_set();
    let result = MacProvider::calculate(&metrics, &cfg);
    assert!(
        result.is_ok(),
        "Calculation should succeed even with no metrics"
    );

    let (level, details) = result.unwrap();
    assert_eq!(level, 3_000_000, "Should default to medium level");
    assert!(details.is_empty(), "Should have no detailed scores");
}

#[test]
fn calculator_test_calculate_with_partial_metrics() {
    let metrics = mac_metrics(
        Some(300_000),
        None,
        Some(600_000),
        Some(200_000),
        None,
        None,
        None,
    );

    let cfg = MacSigmoidSet::default_set();
    let result = MacProvider::calculate(&metrics, &cfg);
    assert!(
        result.is_ok(),
        "Calculation should succeed with partial metrics"
    );

    let (_, details) = result.unwrap();

    // Should have details only for provided metrics
    assert_eq!(details.len(), 3, "Should have 3 metric details");

    // Check that we have the expected metrics
    let has_cpu = details.iter().any(|(k, _)| k.contains("CPU Usage"));
    let has_memory_usage = details.iter().any(|(k, _)| k.contains("Memory Usage"));
    let has_memory_compressed = details.iter().any(|(k, _)| k.contains("Memory Compressed"));
    let has_cpu_load = details.iter().any(|(k, _)| k.contains("CPU Load"));

    assert!(has_cpu, "Should have CPU usage metric");
    assert!(has_memory_usage, "Should have memory usage metric");
    assert!(
        has_memory_compressed,
        "Should have memory compressed metric"
    );
    assert!(!has_cpu_load, "Should not have CPU load metric");
}

#[test]
fn calculator_test_calculate_extreme_values() {
    // Test with high load (should result in low scores)
    let metrics = mac_metrics(
        Some(950_000),
        Some(2_000_000),
        Some(980_000),
        Some(900_000),
        Some(100_000),
        Some(950_000),
        Some(900_000),
    );

    let cfg = MacSigmoidSet::default_set();
    let result = MacProvider::calculate(&metrics, &cfg);
    assert!(result.is_ok());

    let (level, details) = result.unwrap();

    // Since we take MIN score (worst metric), high load should result in low power reserve
    assert!(
        level <= 2_500_000,
        "High load should result in low power reserve (taking minimum score), got: {level}"
    );

    // Most scores should be low (<=2.5)
    let low_scores = details.iter().filter(|(_, score)| *score <= 2_500_000).count();
    assert!(
        low_scores > 0,
        "Should have some low scores with high system load"
    );
}

#[test]
fn calculator_test_calculate_low_values() {
    // Test with low system load (should result in high scores)
    let low_load_metrics = mac_metrics(
        Some(100_000),
        Some(300_000),
        Some(400_000),
        Some(100_000),
        Some(0),
        Some(200_000),
        Some(300_000),
    );

    let cfg = MacSigmoidSet::default_set();
    let result = MacProvider::calculate(&low_load_metrics, &cfg);
    assert!(result.is_ok(), "Should handle low system load");

    let (level, details) = result.unwrap();

    // Should result in high overall level due to low system stress
    assert!(
        level >= 4_000_000 && level <= 5_000_000,
        "Low load should result in high power reserve"
    );

    // Most scores should be high (4 or 5)
    let high_scores = details.iter().filter(|(_, score)| *score >= 4_000_000).count();
    assert!(
        high_scores > 0,
        "Should have some high scores with low system load"
    );
}

#[test]
fn test_reduction_takes_worst_not_average() {
    // Two signals: one under heavy pressure, one nearly idle.  The overall
    // level must equal the worse signal's score, far below any average.
    let metrics = linux_metrics(
        Some(920_000), // high pressure
        None,
        None,
        None,
        Some(10_000), // nearly no pressure
        None,
        None,
        None,
        None,
    );
    let cfg = LinuxSigmoidSet::default_set();
    let (level, details) = LinuxProvider::calculate(&metrics, &cfg).unwrap();
    assert_eq!(details.len(), 2);
    let cpu_score = details
        .iter()
        .find(|(k, _)| k.contains("CPU Usage"))
        .unwrap()
        .1;
    let press_score = details
        .iter()
        .find(|(k, _)| k.contains("Memory Pressure"))
        .unwrap()
        .1;
    assert!(cpu_score < press_score);
    assert_eq!(level, cpu_score, "the bottleneck's score is the level");
    let average = (cpu_score + press_score) / 2;
    assert!(level < average, "the level is no average");
}

#[test]
fn test_reduction_is_deterministic() {
    // The same snapshot under the same shapes twice: bit-identical results.
    let metrics = linux_metrics(
        Some(500_000),
        Some(100_000),
        Some(800_000),
        Some(700_000),
        Some(200_000),
        Some(600_000),
        Some(10_000),
        Some(300_000),
        Some(400_000),
    );
    let cfg = LinuxSigmoidSet::default_set();
    let first = LinuxProvider::calculate(&metrics, &cfg).unwrap();
    let second = LinuxProvider::calculate(&metrics, &cfg).unwrap();
    assert_eq!(first.0, second.0);
    assert_eq!(first.1, second.1);
}

#[test]
fn test_scenario_light_load_reads_abundant() {
    // Raw metrics {cpu 0.05, memory 0.10, disk 0.02}, all others absent:
    // overall pressure low, reserve in the abundant range.
    let metrics = linux_metrics(
        Some(50_000),
        None,
        None,
        Some(100_000),
        None,
        Some(20_000),
        None,
        None,
        None,
    );
    let cfg = LinuxSigmoidSet::default_set();
    let (level, details) = LinuxProvider::calculate(&metrics, &cfg).unwrap();
    assert_eq!(details.len(), 3);
    assert!(level >= 4_000_000, "reserve should be abundant, got {level}");
    // The worst pressure is 1 - level/5, at most 0.3
    let worst_pressure = 1_000_000 - level / 5;
    assert!(worst_pressure <= 300_000);
}

#[test]
fn test_scenario_heavy_load_reads_critical() {
    // Raw metrics {cpu 0.98, memory 0.95, disk 0.99, dropped packets 0.05}:
    // overall pressure high, reserve in the critical range.  With the
    // default shapes the dropped-packet signal is the worst of the four.
    let metrics = linux_metrics(
        Some(980_000),
        None,
        None,
        Some(950_000),
        None,
        Some(990_000),
        Some(50_000),
        None,
        None,
    );
    let cfg = LinuxSigmoidSet::default_set();
    let (level, details) = LinuxProvider::calculate(&metrics, &cfg).unwrap();
    assert_eq!(details.len(), 4);
    assert!(level <= 1_500_000, "reserve should be critical, got {level}");
    let worst_pressure = 1_000_000 - level / 5;
    assert!(worst_pressure >= 800_000);
    let net_score = details
        .iter()
        .find(|(k, _)| k.contains("Network Dropped Packets"))
        .unwrap()
        .1;
    assert_eq!(level, net_score);
}
