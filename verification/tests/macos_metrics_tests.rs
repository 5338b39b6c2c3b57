use pwrzv::macos::metrics::{
    get_system_resource_metrics_consolidated, memory_metrics_from_vm_stat,
    network_dropped_from_netstat, parse_sysctl_load_and_cores, parse_sysctl_value,
    parse_top_cpu_usage, parse_vm_stat_number, MacSystemMetrics,
};

#[test]
fn test_parse_vm_stat_number() {
    // Test valid vm_stat line formats
    assert_eq!(
        parse_vm_stat_number("Pages active:                      123456.").unwrap(),
        123456
    );
    assert_eq!(
        parse_vm_stat_number("Pages free:                        789012.").unwrap(),
        789012
    );
    assert_eq!(
        parse_vm_stat_number("Pages wired down:                  456789.").unwrap(),
        456789
    );

    // Test number without trailing dot
    assert_eq!(
        parse_vm_stat_number("Pages speculative:                 987654").unwrap(),
        987654
    );

    // Test with extra whitespace
    assert_eq!(
        parse_vm_stat_number("  Pages compressed:    12345.  ").unwrap(),
        12345
    );

    // Test error cases - these should return Err, not fallback values
    assert!(parse_vm_stat_number("").is_err());
    assert!(parse_vm_stat_number("   ").is_err());
    assert!(parse_vm_stat_number("Pages active:").is_err());
    assert!(parse_vm_stat_number("Pages active: invalid").is_err());
    assert!(parse_vm_stat_number("Pages active: -123").is_err()); // Negative numbers

    // Test edge cases
    assert_eq!(
        parse_vm_stat_number("Pages zero:                        0.").unwrap(),
        0
    );
    assert_eq!(
        parse_vm_stat_number("Pages large:                       18446744073709551615.").unwrap(),
        18446744073709551615u64
    ); // Max u64
}

#[test]
fn test_memory_metrics_from_vm_stat() {
    let output = "Mach Virtual Memory Statistics: (page size of 16384 bytes)\n\
                  Pages free:                100.\n\
                  Pages active:              300.\n\
                  Pages inactive:            200.\n\
                  Pages speculative:          50.\n\
                  Pages throttled:             0.\n\
                  Pages wired down:          150.\n\
                  Pages purgeable:           200.\n\
                  Pages stored in compressor: 500.\n";
    let (usage, compressed) = memory_metrics_from_vm_stat(output).unwrap();
    // total = 100+300+200+50+0+150+200 = 1000; used = 300+150 = 450
    assert_eq!(usage, Some(450_000));
    assert_eq!(compressed, Some(500_000));

    // A counter line whose number does not parse is an error
    assert!(memory_metrics_from_vm_stat("Pages active: junk\n").is_err());

    // No counters at all: nothing measurable, but no error
    assert_eq!(memory_metrics_from_vm_stat("nothing here\n").unwrap(), (None, None));
}

#[test]
fn test_network_dropped_from_netstat() {
    let output = "Name  Mtu   Network  Address  Ipkts Ierrs Ibytes Opkts Oerrs Obytes\n\
                  lo0   16384 loop     loop     500   9     1      500   9     1\n\
                  gif0* 1280  link     link     100   1     1      100   1     1\n\
                  en0   1500  link     aa:bb    300   2     1      100   3     1\n";
    // Only en0 counts: 5 errors over 400 packets
    assert_eq!(network_dropped_from_netstat(output), Some(12_500));

    // No interface with traffic: no reading
    assert_eq!(network_dropped_from_netstat("Name a b c d e f g h i\n"), None);
}

#[test]
fn test_parse_top_cpu_usage() {
    let output = "Processes: 300 total\n\
                  CPU usage: 12.25% user, 5.50% sys, 82.25% idle\n";
    // (12.25 + 5.50) / 100 = 0.1775
    assert_eq!(parse_top_cpu_usage(output), Some(177_500));

    // No CPU usage line: no reading
    assert_eq!(parse_top_cpu_usage("Processes: 300 total\n"), None);
}

#[test]
fn test_parse_sysctl_value() {
    assert_eq!(parse_sysctl_value("kern.maxfiles: 245760"), Some(245760));
    assert_eq!(parse_sysctl_value("kern.maxfiles: junk"), None);
    assert_eq!(parse_sysctl_value("no colon here"), None);
    // Beyond the kernel's 32-bit word
    assert_eq!(parse_sysctl_value("kern.maxfiles: 5000000000"), None);
}

#[test]
fn test_parse_sysctl_load_and_cores() {
    let output = "vm.loadavg: { 2.00 1.50 1.00 }\nhw.ncpu: 8\n";
    // load 2.0 quartered to 0.5, restored to 2.0, over 8 cores: 0.25
    assert_eq!(parse_sysctl_load_and_cores(output), Some(250_000));

    // Missing core count: no reading
    assert_eq!(
        parse_sysctl_load_and_cores("vm.loadavg: { 2.00 1.50 1.00 }\n"),
        None
    );
    // Malformed braces: no reading
    assert_eq!(
        parse_sysctl_load_and_cores("vm.loadavg: } 2.00 {\nhw.ncpu: 8\n"),
        None
    );
}

#[test]
fn test_system_resource_metrics() {
    let ps = "PID TT\n1 a\n2 b\n3 c\n";
    let maxproc = "kern.maxproc: 4000";
    let maxfiles = "kern.maxfiles: 1000";
    let lsof = "COMMAND PID\nf1 1\nf2 1\n";
    let (fd, procs) = get_system_resource_metrics_consolidated(
        Some(ps),
        Some(maxproc),
        Some(maxfiles),
        Some(lsof),
    );
    // 2 descriptors over 1000; 3 processes over 4000
    assert_eq!(fd, Some(2_000));
    assert_eq!(procs, Some(750));

    // Without the process listing, neither slot can be read
    assert_eq!(
        get_system_resource_metrics_consolidated(None, Some(maxproc), Some(maxfiles), Some(lsof)),
        (None, None)
    );
}

#[test]
fn test_mac_collect_system_metrics() {
    let m = MacSystemMetrics::collect_system_metrics(
        Some("CPU usage: 10.00% user, 10.00% sys, 80.00% idle\n"),
        Some("vm.loadavg: { 2.00 1.50 1.00 }\nhw.ncpu: 8\n"),
        Some("Pages free: 100.\nPages active: 300.\nPages inactive: 200.\nPages speculative: 50.\nPages throttled: 0.\nPages wired down: 150.\nPages purgeable: 200.\nPages stored in compressor: 500.\n"),
        None,
        Some("PID\n1\n2\n3\n"),
        Some("kern.maxproc: 4000"),
        None,
        None,
    );
    assert_eq!(m.cpu_usage_ratio, Some(200_000));
    assert_eq!(m.cpu_load_ratio, Some(250_000));
    assert_eq!(m.memory_usage_ratio, Some(450_000));
    assert_eq!(m.memory_compressed_ratio, Some(500_000));
    assert_eq!(m.network_dropped_packets_ratio, None);
    assert_eq!(m.fd_usage_ratio, None);
    assert_eq!(m.process_count_ratio, Some(750));
}
