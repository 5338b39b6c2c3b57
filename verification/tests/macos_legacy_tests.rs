use pwrzv::metrics::macos::{
    parse_memory_value, read_cpu_stats_from_top, read_disk_stats_from_iostat,
    read_fd_stats_from_sysctl, read_memory_stats, read_network_stats_from_netstat,
    read_swap_usage_from_text,
};

#[test]
fn test_read_memory_stats() {
    let vm_stat = "Mach Virtual Memory Statistics:\n\
                   Pages free:                    100.\n\
                   Pages inactive:                200.\n\
                   Pages speculative:              50.\n\
                   Pages wired down:              150.\n\
                   Pages active:                  300.\n\
                   Pages occupied by compressor:  200.\n";
    let swap = "total=100.00M used=25.00M free=75.00M";
    let (avail, swap_usage) = read_memory_stats(vm_stat, Some(swap)).unwrap();
    // available = (100 + 200 + 50) / 1000
    assert_eq!(avail, 350_000);
    assert_eq!(swap_usage, 250_000);

    // With no counters everything reads available, and a missing swap
    // reading counts as none
    assert_eq!(read_memory_stats("", None).unwrap(), (1_000_000, 0));
}

#[test]
fn test_parse_memory_value() {
    assert_eq!(parse_memory_value("1024.00M").unwrap(), 1_024_000_000);
    assert_eq!(parse_memory_value("512.50G").unwrap(), 512_500_000);
    assert_eq!(parse_memory_value("0.00K").unwrap(), 0);

    // Test error case
    assert!(parse_memory_value("invalid").is_err());
}

#[test]
fn test_read_cpu_stats_from_top() {
    let output = "Processes: 10\nCPU usage: 12.5% user, 25.0% sys, 62.5% idle\n";
    let (usage, iowait) = read_cpu_stats_from_top(output).unwrap();
    // (12.5 + 25.0) percent of the whole
    assert_eq!(usage, 375_000);
    assert_eq!(iowait, 0);

    // Heavy usage approximates I/O wait as a quarter of the share past 80%
    let busy = "CPU usage: 50.0% user, 40.0% sys, 10.0% idle\n";
    let (usage, iowait) = read_cpu_stats_from_top(busy).unwrap();
    assert_eq!(usage, 900_000);
    assert_eq!(iowait, 25_000);

    // No CPU line falls back to an idle reading
    assert_eq!(read_cpu_stats_from_top("nothing\n").unwrap(), (0, 0));
}

#[test]
fn test_read_swap_usage_from_text() {
    assert_eq!(
        read_swap_usage_from_text("total=1024.00M used=512.00M free=512.00M").unwrap(),
        500_000
    );
    // No positive total: no swap pressure
    assert_eq!(read_swap_usage_from_text("free=512.00M").unwrap(), 0);
    // A size that does not parse is an error
    assert!(read_swap_usage_from_text("total=abc").is_err());
}

#[test]
fn test_read_disk_stats_from_iostat() {
    let output = "          disk0\n  KB/t  tps  MB/s\ndisk0 6.00 10 50.00\n";
    assert_eq!(read_disk_stats_from_iostat(output).unwrap(), 500_000);

    // Too short to hold a device section
    assert_eq!(read_disk_stats_from_iostat("one\ntwo\n").unwrap(), 0);
}

#[test]
fn test_read_network_stats_from_netstat() {
    let output = "Name Mtu Network Address Ipkts Ierrs Ibytes\nen0 1500 link addr 10 0 1000000000 20\n";
    // A gigabyte against the nominal gigabit second reads as 8%
    assert_eq!(read_network_stats_from_netstat(output).unwrap(), 80_000);
}

#[test]
fn test_read_fd_stats_from_sysctl() {
    assert_eq!(read_fd_stats_from_sysctl("245760\n", "1000\n").unwrap(), 4_069);
    assert_eq!(read_fd_stats_from_sysctl("0\n", "1000\n").unwrap(), 0);
    assert!(read_fd_stats_from_sysctl("junk\n", "1000\n").is_err());
}
