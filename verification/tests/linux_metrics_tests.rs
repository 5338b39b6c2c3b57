use pwrzv::linux::metrics::{
    calculate_instant_dropped_packets_ratio, cpu_ratios_from_samples, cpu_ratios_from_stat,
    estimate_disk_utilization, fd_ratio_from_files, get_disk_util_from_iostat, parse_cpu_cores,
    parse_cpu_stat, parse_disk_stats, parse_load_average, parse_memory_pressure,
    parse_memory_usage, parse_network_stats, process_ratio_from_ps, LinuxSystemMetrics,
    NetworkStats,
};

#[test]
fn test_parse_cpu_stat() {
    let content = "cpu  123456 789 234567 890123 45678 901 234 0 0 0\n";
    let result = parse_cpu_stat(content);
    assert!(result.is_some());

    let stat = result.unwrap();
    assert_eq!(stat.user, 123456);
    assert_eq!(stat.nice, 789);
    assert_eq!(stat.system, 234567);
    assert_eq!(stat.idle, 890123);
    assert_eq!(stat.iowait, 45678);

    let total = stat.total();
    assert_eq!(total, 123456 + 789 + 234567 + 890123 + 45678 + 901 + 234);
}

#[test]
fn test_parse_load_average() {
    let content = "1.23 2.34 3.45 1/234 5678\n";
    let result = parse_load_average(content);
    assert_eq!(result, Some(1_230_000));

    // Test invalid format
    let invalid_content = "invalid format\n";
    let result = parse_load_average(invalid_content);
    assert_eq!(result, None);
}

#[test]
fn test_parse_cpu_cores() {
    let content = "processor\t: 0\nprocessor\t: 1\nprocessor\t: 2\nprocessor\t: 3\n";
    let result = parse_cpu_cores(content);
    assert_eq!(result, Some(4));

    // Test empty content
    let empty_content = "";
    let result = parse_cpu_cores(empty_content);
    assert_eq!(result, None);
}

#[test]
fn test_parse_memory_usage() {
    let content = "MemTotal:       16384000 kB\nMemAvailable:   8192000 kB\n";
    let result = parse_memory_usage(content);
    assert!(result.is_some());

    let usage = result.unwrap();
    // Expected: (16384000 - 8192000) / 16384000 = 0.5
    assert_eq!(usage, 500_000);
}

#[test]
fn test_parse_memory_pressure() {
    let content = "some avg10=12.34 avg60=23.45 avg300=34.56 total=123456789\n";
    let result = parse_memory_pressure(content);
    assert!(result.is_some());

    let pressure = result.unwrap();
    // Expected: 12.34 / 100.0 = 0.1234
    assert_eq!(pressure, 123_400);
}

#[test]
fn test_cpu_ratios_from_stat() {
    // total = 100 + 100 + 100 + 600 + 100 = 1100 (plus irq and softirq: 1200)
    let content = "cpu  100 100 100 600 100 100 100\n";
    let (busy, wait) = cpu_ratios_from_stat(content);
    // total of all seven counters is 1200; busy = (1200 - 600) / 1200 = 0.5
    assert_eq!(busy, Some(500_000));
    // iowait = 100 / 1200
    assert_eq!(wait, Some(83_333));

    assert_eq!(cpu_ratios_from_stat(""), (None, None));
    assert_eq!(cpu_ratios_from_stat("cpu 0 0 0 0 0 0 0\n"), (None, None));
}

#[test]
fn test_cpu_ratios_from_samples() {
    let first = parse_cpu_stat("cpu  100 100 100 600 100 100 100\n").unwrap();
    let second = parse_cpu_stat("cpu  200 150 150 700 150 150 150\n").unwrap();
    // The window advanced by 450 ticks, 100 of them idle and 50 in I/O wait
    let (busy, wait) = cpu_ratios_from_samples(&first, &second);
    assert_eq!(busy, Some(777_777));
    assert_eq!(wait, Some(111_111));

    // A window in which the counters did not advance has no denominator
    assert_eq!(cpu_ratios_from_samples(&first, &first), (None, None));
}

#[test]
fn test_parse_network_stats_skips_loopback_and_short_rows() {
    let content = "Inter-|   Receive\n face |bytes    packets errs drop\n\
                   lo: 100 10 0 0 0 0 0 0 100 10 0 0 0 0 0 0\n\
                   eth0: 1000 100 0 2 0 0 0 0 2000 300 0 3 0 0 0 0\nshort line\n";
    let stats = parse_network_stats(content).unwrap();
    assert_eq!(stats.len(), 1);
    assert_eq!(
        stats[0],
        NetworkStats {
            rx_bytes: 1000,
            rx_packets: 100,
            rx_dropped: 2,
            tx_bytes: 2000,
            tx_packets: 300,
            tx_dropped: 3,
        }
    );

    // Nothing but headers: no interfaces
    assert!(parse_network_stats("a\nb\n").is_none());
}

#[test]
fn test_dropped_packets_ratio() {
    let stats = vec![
        NetworkStats {
            rx_bytes: 0,
            rx_packets: 100,
            rx_dropped: 2,
            tx_bytes: 0,
            tx_packets: 300,
            tx_dropped: 3,
        },
        // An idle interface must not contribute
        NetworkStats {
            rx_bytes: 0,
            rx_packets: 0,
            rx_dropped: 7,
            tx_bytes: 0,
            tx_packets: 0,
            tx_dropped: 7,
        },
    ];
    // 5 dropped out of 400 packets
    assert_eq!(calculate_instant_dropped_packets_ratio(&stats), Some(12_500));

    // All interfaces idle: no reading rather than a misleading zero
    let idle = vec![NetworkStats {
        rx_bytes: 0,
        rx_packets: 0,
        rx_dropped: 0,
        tx_bytes: 0,
        tx_packets: 0,
        tx_dropped: 0,
    }];
    assert_eq!(calculate_instant_dropped_packets_ratio(&idle), None);
}

#[test]
fn test_disk_stats_and_estimate() {
    let content = "   8  0 sda 100 0 500000 0 0 0 300000 0 0 0 0 0 0 0\n\
                      8  1 sda1 1 0 9 0 0 0 9 0 0 0 0 0 0 0\n\
                      7  0 loop0 1 0 9 0 0 0 9 0 0 0 0 0 0 0\n";
    let stats = parse_disk_stats(content).unwrap();
    // Partitions (trailing digit) and loop devices are skipped
    assert_eq!(stats.len(), 1);
    assert_eq!(stats[0].sectors_read, 500_000);
    assert_eq!(stats[0].sectors_written, 300_000);

    // 800_000 sector units read as 0.8 utilization
    assert_eq!(estimate_disk_utilization(&stats), Some(800_000));

    let empty: Vec<pwrzv::linux::metrics::DiskStat> = Vec::new();
    assert_eq!(estimate_disk_utilization(&empty), None);
}

#[test]
fn test_disk_util_from_iostat() {
    let content = "Linux 6.1 (host)\n\n\
                   Device r/s w/s rkB/s wkB/s rrqm/s wrqm/s %rrqm %wrqm r_await w_await aqu-sz rareq-sz wareq-sz %util\n\
                   sda 1 1 1 1 1 1 1 1 1 1 1 1 1 42.50\n\
                   sdb 1 1 1 1 1 1 1 1 1 1 1 1 1 3.40\n";
    // The highest utilization wins: 42.5% reads as 0.425
    assert_eq!(get_disk_util_from_iostat(content), 425_000);

    // No device rows: zero utilization, still a reading
    assert_eq!(get_disk_util_from_iostat("avg-cpu stuff\n"), 0);

    // With two reports the last one wins: the first averages since boot,
    // the second covers the sampling window
    let two_reports = "Device a b c d e f g h i j k l m\n\
                       sda 1 1 1 1 1 1 1 1 1 1 1 1 90.00\n\
                       Device a b c d e f g h i j k l m\n\
                       sda 1 1 1 1 1 1 1 1 1 1 1 1 12.00\n";
    assert_eq!(get_disk_util_from_iostat(two_reports), 120_000);
}

#[test]
fn test_fd_ratio_from_files() {
    assert_eq!(fd_ratio_from_files("1000 0 100000\n", "100000\n"), Some(10_000));
    assert_eq!(fd_ratio_from_files("1000 0 100000\n", "0\n"), None);
    assert_eq!(fd_ratio_from_files("", "100000\n"), None);
    assert_eq!(fd_ratio_from_files("abc 0 1\n", "100000\n"), None);
}

#[test]
fn test_process_ratio_from_ps() {
    // Header plus 4096 processes reads as exactly 1.0
    let mut s = String::from("HEADER\n");
    for _ in 0..4096 {
        s.push_str("p\n");
    }
    assert_eq!(process_ratio_from_ps(&s), 1_000_000);
    // Header only: no processes
    assert_eq!(process_ratio_from_ps("HEADER\n"), 0);
}

fn sample_sources() -> [&'static str; 12] {
    [
        "cpu  100 100 100 600 100 100 100\n",                            // first stat sample
        "cpu  200 150 150 700 150 150 150\n",                            // second stat sample
        "1.00 0.50 0.30 1/234 5678\n",                                   // loadavg
        "processor\t: 0\nprocessor\t: 1\n",                              // cpuinfo
        "MemTotal: 1000 kB\nMemAvailable: 250 kB\n",                     // meminfo
        "some avg10=10.00 avg60=5.00 avg300=1.00 total=1\n",             // pressure
        "Device a b c d e f g h i j k l m\nsda 1 1 1 1 1 1 1 1 1 1 1 1 12.00\n", // iostat
        "   8  0 sda 100 0 500000 0 0 0 300000 0 0 0 0 0 0 0\n",        // diskstats
        "h1\nh2\neth0: 1000 100 0 2 0 0 0 0 2000 300 0 3 0 0 0 0\n",    // netdev
        "100 0 1000\n",                                                  // file-nr
        "1000\n",                                                        // file-max
        "HEADER\np1\np2\n",                                              // ps
    ]
}

#[test]
fn test_collect_system_metrics_all_present() {
    let s = sample_sources();
    let m = LinuxSystemMetrics::collect_system_metrics(
        Some(s[0]),
        Some(s[1]),
        Some(s[2]),
        Some(s[3]),
        Some(s[4]),
        Some(s[5]),
        Some(s[6]),
        Some(s[7]),
        Some(s[8]),
        Some(s[9]),
        Some(s[10]),
        Some(s[11]),
    );
    // CPU shares come from the sampled window, not the since-boot counters
    assert_eq!(m.cpu_usage_ratio, Some(777_777));
    assert_eq!(m.cpu_io_wait_ratio, Some(111_111));
    assert_eq!(m.cpu_load_ratio, Some(500_000));
    assert_eq!(m.memory_usage_ratio, Some(750_000));
    assert_eq!(m.memory_pressure_ratio, Some(100_000));
    assert_eq!(m.disk_io_utilization, Some(120_000));
    assert_eq!(m.network_dropped_packets_ratio, Some(12_500));
    assert_eq!(m.fd_usage_ratio, Some(100_000));
    assert_eq!(m.process_count_ratio, Some(488));
}

#[test]
fn test_collect_one_absent_source_degrades_one_slot() {
    let s = sample_sources();
    // The memory-pressure source never answers: exactly that slot is absent
    let m = LinuxSystemMetrics::collect_system_metrics(
        Some(s[0]),
        Some(s[1]),
        Some(s[2]),
        Some(s[3]),
        Some(s[4]),
        None,
        Some(s[6]),
        Some(s[7]),
        Some(s[8]),
        Some(s[9]),
        Some(s[10]),
        Some(s[11]),
    );
    assert_eq!(m.memory_pressure_ratio, None);
    assert!(m.cpu_usage_ratio.is_some());
    assert!(m.cpu_io_wait_ratio.is_some());
    assert!(m.cpu_load_ratio.is_some());
    assert!(m.memory_usage_ratio.is_some());
    assert!(m.disk_io_utilization.is_some());
    assert!(m.network_dropped_packets_ratio.is_some());
    assert!(m.fd_usage_ratio.is_some());
    assert!(m.process_count_ratio.is_some());
}

#[test]
fn test_collect_single_sample_leaves_rate_slots_absent() {
    let s = sample_sources();
    // With only one `/proc/stat` sample the rate signals have no window to
    // measure over; the other slots are untouched
    let m = LinuxSystemMetrics::collect_system_metrics(
        Some(s[0]),
        None,
        Some(s[2]),
        Some(s[3]),
        Some(s[4]),
        Some(s[5]),
        Some(s[6]),
        Some(s[7]),
        Some(s[8]),
        Some(s[9]),
        Some(s[10]),
        Some(s[11]),
    );
    assert_eq!(m.cpu_usage_ratio, None);
    assert_eq!(m.cpu_io_wait_ratio, None);
    assert!(m.cpu_load_ratio.is_some());
    assert!(m.memory_usage_ratio.is_some());
}
