//! Parsing Linux system text into normalized signal ratios.
//!
//! Each function takes the text of one `/proc` file or command output and
//! computes one or more fixed-point ratios (`1_000_000` stands for `1.0`).
//! Reading the files is the caller's business; everything here is a pure
//! function of the text, and a missing or malformed source always turns
//! into an absent value, never a failure.

use vstd::prelude::*;
use crate::ratio::{ratio_capped, ratio_capped_wide, spec_min_int, spec_ratio_micro};
use crate::text::{
    chars_of, lines_of, parse_micro_chars, parse_u64_chars, spec_lines, spec_parse_micro,
    spec_parse_u64, spec_starts_with, spec_strip_trailing, spec_tokens, starts_with_lit,
    spec_contains, spec_digit,
    strip_trailing, subvec, tokens_of, eq_lit, lemma_deep_view_chars, spec_sat_add_u64,
    sat_add_u64,
};

verus! {

/// Counter totals for one network interface, from one `/proc/net/dev` row.
#[derive(Debug, Clone, PartialEq, Eq, Structural)]
pub struct NetworkStats {
    pub rx_bytes: u64,
    pub tx_bytes: u64,
    pub rx_packets: u64,
    pub tx_packets: u64,
    pub rx_dropped: u64,
    pub tx_dropped: u64,
}

/// Sector totals for one disk, from one `/proc/diskstats` row.
#[derive(Debug, Clone, PartialEq, Eq, Structural)]
pub struct DiskStat {
    pub sectors_read: u64,
    pub sectors_written: u64,
}

/// The cumulative CPU time counters of the first `/proc/stat` line.
#[derive(Debug, Clone, PartialEq, Eq, Structural)]
pub struct CpuStat {
    pub user: u64,
    pub nice: u64,
    pub system: u64,
    pub idle: u64,
    pub iowait: u64,
    pub irq: u64,
    pub softirq: u64,
}

impl CpuStat {
    /// The sum of all seven counters.
    pub open spec fn spec_total(self) -> int {
        self.user + self.nice + self.system + self.idle + self.iowait + self.irq + self.softirq
    }

    /// Total CPU time across all states.
    pub fn total(&self) -> (r: u128)
        ensures
            r as int == self.spec_total(),
    {
        self.user as u128 + self.nice as u128 + self.system as u128 + self.idle as u128
            + self.iowait as u128 + self.irq as u128 + self.softirq as u128
    }
}

/// One snapshot of every Linux signal, each slot either a fixed-point ratio
/// or absent.
#[derive(Debug, Clone, PartialEq, Eq)]
pub struct LinuxSystemMetrics {
    /// CPU busy share: `(total - idle) / total`, in `[0, 1]`.
    pub cpu_usage_ratio: Option<u64>,
    /// CPU I/O-wait share: `iowait / total`, in `[0, 1]`.
    pub cpu_io_wait_ratio: Option<u64>,
    /// One-minute load average per core, capped at `10.0`.
    pub cpu_load_ratio: Option<u64>,
    /// Used memory share: `(total - available) / total`, in `[0, 1]`.
    pub memory_usage_ratio: Option<u64>,
    /// PSI memory pressure (ten-second average over one hundred), in `[0, 1]`.
    pub memory_pressure_ratio: Option<u64>,
    /// Disk utilization estimate, in `[0, 1]`.
    pub disk_io_utilization: Option<u64>,
    /// Dropped share of all packets on interfaces with traffic, in `[0, 1]`.
    pub network_dropped_packets_ratio: Option<u64>,
    /// Open file descriptors over the system limit, in `[0, 1]`.
    pub fd_usage_ratio: Option<u64>,
    /// Process count over a typical limit, capped at `10.0`.
    pub process_count_ratio: Option<u64>,
}

impl LinuxSystemMetrics {
    /// Every present slot lies in its declared domain: plain ratios within
    /// `[0, 1]`, load-style ratios within `[0, 10]`.
    pub open spec fn wf(self) -> bool {
        &&& self.cpu_usage_ratio matches Some(v) ==> v <= 1_000_000
        &&& self.cpu_io_wait_ratio matches Some(v) ==> v <= 1_000_000
        &&& self.cpu_load_ratio matches Some(v) ==> v <= 10_000_000
        &&& self.memory_usage_ratio matches Some(v) ==> v <= 1_000_000
        &&& self.memory_pressure_ratio matches Some(v) ==> v <= 1_000_000
        &&& self.disk_io_utilization matches Some(v) ==> v <= 1_000_000
        &&& self.network_dropped_packets_ratio matches Some(v) ==> v <= 1_000_000
        &&& self.fd_usage_ratio matches Some(v) ==> v <= 1_000_000
        &&& self.process_count_ratio matches Some(v) ==> v <= 10_000_000
    }
}

/// The CPU counters parsed from `/proc/stat` text: fields one to seven of
/// its first line, all required to be numbers.
pub open spec fn spec_parse_cpu_stat(s: Seq<char>) -> Option<CpuStat> {
    let ls = spec_lines(s);
    if ls.len() == 0 {
        None
    } else {
        let t = spec_tokens(ls[0]);
        if t.len() < 8 {
            None
        } else if spec_parse_u64(t[1]) is None || spec_parse_u64(t[2]) is None || spec_parse_u64(
            t[3],
        ) is None || spec_parse_u64(t[4]) is None || spec_parse_u64(t[5]) is None
            || spec_parse_u64(t[6]) is None || spec_parse_u64(t[7]) is None {
            None
        } else {
            Some(
                CpuStat {
                    user: spec_parse_u64(t[1])->0,
                    nice: spec_parse_u64(t[2])->0,
                    system: spec_parse_u64(t[3])->0,
                    idle: spec_parse_u64(t[4])->0,
                    iowait: spec_parse_u64(t[5])->0,
                    irq: spec_parse_u64(t[6])->0,
                    softirq: spec_parse_u64(t[7])->0,
                },
            )
        }
    }
}

/// Parse the first line of `/proc/stat`, matching `spec_parse_cpu_stat`.
pub fn parse_cpu_stat(content: &str) -> (r: Option<CpuStat>)
    ensures
        r == spec_parse_cpu_stat(content@),
{
    let v = chars_of(content);
    let lines = lines_of(&v);
    proof {
        lemma_deep_view_chars(&lines);
    }
    if lines.len() == 0 {
        return None;
    }
    let toks = tokens_of(&lines[0]);
    proof {
        lemma_deep_view_chars(&toks);
    }
    if toks.len() < 8 {
        return None;
    }
    let user = parse_u64_chars(&toks[1]);
    let nice = parse_u64_chars(&toks[2]);
    let system = parse_u64_chars(&toks[3]);
    let idle = parse_u64_chars(&toks[4]);
    let iowait = parse_u64_chars(&toks[5]);
    let irq = parse_u64_chars(&toks[6]);
    let softirq = parse_u64_chars(&toks[7]);
    match (user, nice, system, idle, iowait, irq, softirq) {
        (Some(user), Some(nice), Some(system), Some(idle), Some(iowait), Some(irq), Some(
            softirq,
        )) => Some(CpuStat { user, nice, system, idle, iowait, irq, softirq }),
        _ => None,
    }
}

/// The busy and I/O-wait shares of one `/proc/stat` reading: both absent
/// unless the counters parse and their total is positive.  A single
/// reading averages over the whole uptime, since the counters grow from
/// boot; a collection cycle uses the difference of two readings instead
/// (`spec_cpu_delta`).
pub open spec fn spec_cpu_ratios(s: Seq<char>) -> (Option<u64>, Option<u64>) {
    match spec_parse_cpu_stat(s) {
        None => (None, None),
        Some(st) => {
            let total = st.spec_total();
            if total > 0 {
                (
                    Some(spec_min_int(spec_ratio_micro(total - st.idle, total), 1_000_000) as u64),
                    Some(spec_min_int(spec_ratio_micro(st.iowait as int, total), 1_000_000) as u64),
                )
            } else {
                (None, None)
            }
        },
    }
}

/// CPU busy and I/O-wait shares from `/proc/stat` text, matching
/// `spec_cpu_ratios`; both results are at most `1.0`.
pub fn cpu_ratios_from_stat(content: &str) -> (r: (Option<u64>, Option<u64>))
    ensures
        r == spec_cpu_ratios(content@),
        r.0 matches Some(v) ==> v <= 1_000_000,
        r.1 matches Some(v) ==> v <= 1_000_000,
{
    match parse_cpu_stat(content) {
        None => (None, None),
        Some(st) => {
            let total: u128 = st.total();
            if total > 0 {
                let busy = ratio_capped_wide(total - st.idle as u128, total, 1_000_000);
                let wait = ratio_capped_wide(st.iowait as u128, total, 1_000_000);
                (Some(busy), Some(wait))
            } else {
                (None, None)
            }
        },
    }
}

/// The busy and I/O-wait shares over the window between two `/proc/stat`
/// samples: counter differences over the difference of totals, clamped
/// into `[0, 1]`; both absent when the totals did not advance — a
/// zero-length window has no denominator.
pub open spec fn spec_cpu_delta(first: CpuStat, second: CpuStat) -> (Option<u64>, Option<u64>) {
    let dt = second.spec_total() - first.spec_total();
    if dt <= 0 {
        (None, None)
    } else {
        let di = second.idle - first.idle;
        let busy = if di < 0 {
            dt
        } else if di > dt {
            0int
        } else {
            dt - di
        };
        let wait = if second.iowait < first.iowait {
            0int
        } else {
            second.iowait - first.iowait
        };
        (
            Some(spec_min_int(spec_ratio_micro(busy, dt), 1_000_000) as u64),
            Some(spec_min_int(spec_ratio_micro(wait, dt), 1_000_000) as u64),
        )
    }
}

/// CPU busy and I/O-wait shares from two counter samples taken a sampling
/// interval apart, matching `spec_cpu_delta`; both results are at most
/// `1.0`.
pub fn cpu_ratios_from_samples(first: &CpuStat, second: &CpuStat) -> (r: (
    Option<u64>,
    Option<u64>,
))
    ensures
        r == spec_cpu_delta(*first, *second),
        r.0 matches Some(v) ==> v <= 1_000_000,
        r.1 matches Some(v) ==> v <= 1_000_000,
{
    let t1: u128 = first.total();
    let t2: u128 = second.total();
    if t2 <= t1 {
        return (None, None);
    }
    let dt: u128 = t2 - t1;
    let busy: u128 = if second.idle < first.idle {
        dt
    } else {
        let di: u128 = (second.idle - first.idle) as u128;
        if di > dt {
            0
        } else {
            dt - di
        }
    };
    let wait: u128 = if second.iowait < first.iowait {
        0
    } else {
        (second.iowait - first.iowait) as u128
    };
    let b = ratio_capped_wide(busy, dt, 1_000_000);
    let w = ratio_capped_wide(wait, dt, 1_000_000);
    (Some(b), Some(w))
}

/// The windowed CPU shares of two `/proc/stat` texts: the delta of their
/// parsed counters, absent unless both parse.
pub open spec fn spec_cpu_delta_ratios(first: Seq<char>, second: Seq<char>) -> (
    Option<u64>,
    Option<u64>,
) {
    match (spec_parse_cpu_stat(first), spec_parse_cpu_stat(second)) {
        (Some(a), Some(b)) => spec_cpu_delta(a, b),
        _ => (None, None),
    }
}

/// The one-minute load average read from `/proc/loadavg` text: the first
/// whitespace-separated field as a fixed-point number.
pub open spec fn spec_parse_load_average(s: Seq<char>) -> Option<i64> {
    let t = spec_tokens(s);
    if t.len() == 0 {
        None
    } else {
        spec_parse_micro(t[0])
    }
}

/// Parse the one-minute load average, matching `spec_parse_load_average`.
pub fn parse_load_average(content: &str) -> (r: Option<i64>)
    ensures
        r == spec_parse_load_average(content@),
{
    let v = chars_of(content);
    let toks = tokens_of(&v);
    proof {
        lemma_deep_view_chars(&toks);
    }
    if toks.len() == 0 {
        return None;
    }
    parse_micro_chars(&toks[0])
}

/// How many lines of `/proc/cpuinfo` text declare a processor.
pub open spec fn spec_count_processor(ls: Seq<Seq<char>>) -> int
    decreases ls.len(),
{
    if ls.len() == 0 {
        0int
    } else {
        spec_count_processor(ls.skip(1)) + if spec_starts_with(ls[0], "processor"@) {
            1int
        } else {
            0int
        }
    }
}

/// The core count from `/proc/cpuinfo` text: the number of `processor`
/// lines, absent when there are none.
pub open spec fn spec_parse_cpu_cores(s: Seq<char>) -> Option<int> {
    let c = spec_count_processor(spec_lines(s));
    if c > 0 {
        Some(c)
    } else {
        None
    }
}

/// Count processor lines, matching `spec_parse_cpu_cores`.
#[verifier::loop_isolation(false)]
pub fn parse_cpu_cores(content: &str) -> (r: Option<usize>)
    ensures
        r matches Some(c) ==> Some(c as int) == spec_parse_cpu_cores(content@),
        r is None <==> spec_parse_cpu_cores(content@) is None,
{
    let v = chars_of(content);
    let lines = lines_of(&v);
    proof {
        lemma_deep_view_chars(&lines);
    }
    let ghost ls = spec_lines(v@);
    let n = lines.len();
    let mut count: usize = 0;
    let mut i: usize = 0;
    proof {
        assert(ls.skip(0) =~= ls);
    }
    while i < n
        invariant
            i <= n,
            count <= i,
            count as int + spec_count_processor(ls.skip(i as int)) == spec_count_processor(ls),
        decreases n - i,
    {
        proof {
            assert(ls.skip(i as int)[0] == ls[i as int]);
            assert(ls.skip(i as int).skip(1) =~= ls.skip(i + 1));
        }
        if starts_with_lit(&lines[i], "processor") {
            count = count + 1;
        }
        i = i + 1;
    }
    proof {
        assert(ls.skip(n as int).len() == 0);
    }
    if count > 0 {
        Some(count)
    } else {
        None
    }
}

/// The value field of one `/proc/meminfo` line: its second token as a
/// number.
pub open spec fn spec_meminfo_value(line: Seq<char>) -> Option<u64> {
    let t = spec_tokens(line);
    if t.len() < 2 {
        None
    } else {
        spec_parse_u64(t[1])
    }
}

/// Parse the value field of one `/proc/meminfo` line, matching
/// `spec_meminfo_value`.
pub fn parse_meminfo_value(line: &str) -> (r: Result<u64, ()>)
    ensures
        r matches Ok(v) ==> spec_meminfo_value(line@) == Some(v),
        r is Err <==> spec_meminfo_value(line@) is None,
{
    let v = chars_of(line);
    let toks = tokens_of(&v);
    proof {
        lemma_deep_view_chars(&toks);
    }
    if toks.len() < 2 {
        return Err(());
    }
    match parse_u64_chars(&toks[1]) {
        Some(value) => Ok(value),
        None => Err(()),
    }
}

/// Walk `/proc/meminfo` lines front to back, keeping the last parsed
/// `MemTotal:` and `MemAvailable:` values; a matching line that fails to
/// parse aborts the walk.
pub open spec fn spec_mem_scan(ls: Seq<Seq<char>>, total: u64, avail: u64) -> Option<(u64, u64)>
    decreases ls.len(),
{
    if ls.len() == 0 {
        Some((total, avail))
    } else if spec_starts_with(ls[0], "MemTotal:"@) {
        match spec_meminfo_value(ls[0]) {
            None => None,
            Some(v) => spec_mem_scan(ls.skip(1), v, avail),
        }
    } else if spec_starts_with(ls[0], "MemAvailable:"@) {
        match spec_meminfo_value(ls[0]) {
            None => None,
            Some(v) => spec_mem_scan(ls.skip(1), total, v),
        }
    } else {
        spec_mem_scan(ls.skip(1), total, avail)
    }
}

/// The used-memory share from `/proc/meminfo` text: absent when the walk
/// aborts or no positive total was seen; zero when available exceeds total.
pub open spec fn spec_parse_memory_usage(s: Seq<char>) -> Option<u64> {
    match spec_mem_scan(spec_lines(s), 0, 0) {
        None => None,
        Some((total, avail)) => if total > 0 {
            if avail < total {
                Some(
                    spec_min_int(
                        spec_ratio_micro(total - avail, total as int),
                        1_000_000,
                    ) as u64,
                )
            } else {
                Some(0u64)
            }
        } else {
            None
        },
    }
}

/// The used-memory share from `/proc/meminfo` text, matching
/// `spec_parse_memory_usage`; the result is at most `1.0`.
#[verifier::loop_isolation(false)]
pub fn parse_memory_usage(content: &str) -> (r: Option<u64>)
    ensures
        r == spec_parse_memory_usage(content@),
        r matches Some(v) ==> v <= 1_000_000,
{
    let v = chars_of(content);
    let lines = lines_of(&v);
    proof {
        lemma_deep_view_chars(&lines);
    }
    let ghost ls = spec_lines(v@);
    let n = lines.len();
    let mut total: u64 = 0;
    let mut avail: u64 = 0;
    let mut i: usize = 0;
    proof {
        assert(ls.skip(0) =~= ls);
    }
    while i < n
        invariant
            i <= n,
            spec_mem_scan(ls, 0, 0) == spec_mem_scan(ls.skip(i as int), total, avail),
        decreases n - i,
    {
        proof {
            assert(ls.skip(i as int)[0] == ls[i as int]);
            assert(ls.skip(i as int).skip(1) =~= ls.skip(i + 1));
        }
        if starts_with_lit(&lines[i], "MemTotal:") {
            match parse_meminfo_value_of(&lines[i]) {
                Ok(value) => {
                    total = value;
                },
                Err(()) => {
                    return None;
                },
            }
        } else if starts_with_lit(&lines[i], "MemAvailable:") {
            match parse_meminfo_value_of(&lines[i]) {
                Ok(value) => {
                    avail = value;
                },
                Err(()) => {
                    return None;
                },
            }
        }
        i = i + 1;
    }
    proof {
        assert(ls.skip(n as int).len() == 0);
    }
    if total > 0 {
        if avail < total {
            Some(ratio_capped(total - avail, total, 1_000_000))
        } else {
            Some(0)
        }
    } else {
        None
    }
}

/// `parse_meminfo_value` on an already-scanned line.
fn parse_meminfo_value_of(line: &Vec<char>) -> (r: Result<u64, ()>)
    ensures
        r matches Ok(v) ==> spec_meminfo_value(line@) == Some(v),
        r is Err <==> spec_meminfo_value(line@) is None,
{
    let toks = tokens_of(line);
    proof {
        lemma_deep_view_chars(&toks);
    }
    if toks.len() < 2 {
        return Err(());
    }
    match parse_u64_chars(&toks[1]) {
        Some(value) => Ok(value),
        None => Err(()),
    }
}

/// The PSI memory-pressure share taken from the first `some avg10=` line of
/// `/proc/pressure/memory` text: the number after the marker over one
/// hundred, clamped into `[0, 1]`; absent when no such line parses.
pub open spec fn spec_parse_memory_pressure(ls: Seq<Seq<char>>) -> Option<u64>
    decreases ls.len(),
{
    if ls.len() == 0 {
        None
    } else if spec_starts_with(ls[0], "some avg10="@) {
        let t = spec_tokens(ls[0].skip(11));
        if t.len() == 0 {
            None
        } else {
            match spec_parse_micro(t[0]) {
                None => None,
                Some(m) => if m < 0 {
                    Some(0u64)
                } else {
                    Some(spec_min_int(m as int / 100, 1_000_000) as u64)
                },
            }
        }
    } else {
        spec_parse_memory_pressure(ls.skip(1))
    }
}

/// The PSI memory-pressure share, matching `spec_parse_memory_pressure`;
/// the result is at most `1.0`.
#[verifier::loop_isolation(false)]
pub fn parse_memory_pressure(content: &str) -> (r: Option<u64>)
    ensures
        r == spec_parse_memory_pressure(spec_lines(content@)),
        r matches Some(v) ==> v <= 1_000_000,
{
    let v = chars_of(content);
    let lines = lines_of(&v);
    proof {
        lemma_deep_view_chars(&lines);
    }
    let ghost ls = spec_lines(v@);
    let n = lines.len();
    let mut i: usize = 0;
    proof {
        assert(ls.skip(0) =~= ls);
    }
    while i < n
        invariant
            i <= n,
            spec_parse_memory_pressure(ls) == spec_parse_memory_pressure(ls.skip(i as int)),
        decreases n - i,
    {
        proof {
            assert(ls.skip(i as int)[0] == ls[i as int]);
            assert(ls.skip(i as int).skip(1) =~= ls.skip(i + 1));
        }
        if starts_with_lit(&lines[i], "some avg10=") {
            let line = &lines[i];
            proof {
                reveal_strlit("some avg10=");
            }
            let rest = subvec(line, 11, line.len());
            proof {
                assert(rest@ =~= ls[i as int].skip(11));
            }
            let toks = tokens_of(&rest);
            proof {
                lemma_deep_view_chars(&toks);
            }
            if toks.len() == 0 {
                return None;
            }
            match parse_micro_chars(&toks[0]) {
                None => {
                    return None;
                },
                Some(m) => {
                    if m < 0 {
                        return Some(0);
                    }
                    let scaled: i64 = m / 100;
                    if scaled > 1_000_000 {
                        return Some(1_000_000);
                    }
                    return Some(scaled as u64);
                },
            }
        }
        i = i + 1;
    }
    proof {
        assert(ls.skip(n as int).len() == 0);
    }
    None
}


/// A token's number, or zero when it is not one — the lenient reading the
/// counter columns get.
pub open spec fn spec_u64_or_zero(t: Seq<char>) -> u64 {
    match spec_parse_u64(t) {
        Some(v) => v,
        None => 0u64,
    }
}

/// The counters of one `/proc/net/dev` row.
pub open spec fn spec_net_entry(t: Seq<Seq<char>>) -> NetworkStats
    recommends
        t.len() >= 17,
{
    NetworkStats {
        rx_bytes: spec_u64_or_zero(t[1]),
        rx_packets: spec_u64_or_zero(t[2]),
        rx_dropped: spec_u64_or_zero(t[4]),
        tx_bytes: spec_u64_or_zero(t[9]),
        tx_packets: spec_u64_or_zero(t[10]),
        tx_dropped: spec_u64_or_zero(t[12]),
    }
}

/// Walk `/proc/net/dev` rows: keep each full row that is not the loopback
/// interface, in order.
pub open spec fn spec_net_scan(ls: Seq<Seq<char>>) -> Seq<NetworkStats>
    decreases ls.len(),
{
    if ls.len() == 0 {
        Seq::empty()
    } else {
        let t = spec_tokens(ls[0]);
        let rest = spec_net_scan(ls.skip(1));
        if t.len() < 17 {
            rest
        } else if spec_strip_trailing(t[0], ':') == "lo"@ {
            rest
        } else {
            seq![spec_net_entry(t)] + rest
        }
    }
}

/// The interface rows of `/proc/net/dev` text: everything after the two
/// header lines, absent when no interface row remains.
pub open spec fn spec_parse_network_stats(s: Seq<char>) -> Option<Seq<NetworkStats>> {
    let ls = spec_lines(s);
    let body = if ls.len() >= 2 {
        ls.skip(2)
    } else {
        Seq::empty()
    };
    let es = spec_net_scan(body);
    if es.len() == 0 {
        None
    } else {
        Some(es)
    }
}

/// Parse `/proc/net/dev` text, matching `spec_parse_network_stats`.
#[verifier::loop_isolation(false)]
pub fn parse_network_stats(content: &str) -> (r: Option<Vec<NetworkStats>>)
    ensures
        r matches Some(es) ==> spec_parse_network_stats(content@) == Some(es@),
        r is None <==> spec_parse_network_stats(content@) is None,
{
    let v = chars_of(content);
    let lines = lines_of(&v);
    proof {
        lemma_deep_view_chars(&lines);
    }
    let ghost ls = spec_lines(v@);
    let n = lines.len();
    if n < 2 {
        return None;
    }
    let ghost body = ls.skip(2);
    let mut acc: Vec<NetworkStats> = Vec::new();
    let mut i: usize = 2;
    proof {
        assert(acc@ + spec_net_scan(body) =~= spec_net_scan(body));
    }
    while i < n
        invariant
            2 <= i <= n,
            spec_net_scan(body) == acc@ + spec_net_scan(ls.skip(i as int)),
        decreases n - i,
    {
        proof {
            assert(ls.skip(i as int)[0] == ls[i as int]);
            assert(ls.skip(i as int).skip(1) =~= ls.skip(i + 1));
        }
        let toks = tokens_of(&lines[i]);
        proof {
            lemma_deep_view_chars(&toks);
        }
        if toks.len() >= 17 {
            let iface = strip_trailing(&toks[0], ':');
            if !eq_lit(&iface, "lo") {
                let entry = NetworkStats {
                    rx_bytes: u64_or_zero(&toks[1]),
                    rx_packets: u64_or_zero(&toks[2]),
                    rx_dropped: u64_or_zero(&toks[4]),
                    tx_bytes: u64_or_zero(&toks[9]),
                    tx_packets: u64_or_zero(&toks[10]),
                    tx_dropped: u64_or_zero(&toks[12]),
                };
                let ghost prev = acc@;
                acc.push(entry);
                proof {
                    assert(prev + (seq![entry] + spec_net_scan(ls.skip(i + 1))) =~= acc@
                        + spec_net_scan(ls.skip(i + 1)));
                }
            }
        }
        i = i + 1;
    }
    proof {
        assert(ls.skip(n as int).len() == 0);
        assert(acc@ + spec_net_scan(ls.skip(n as int)) =~= acc@);
    }
    if acc.len() == 0 {
        None
    } else {
        Some(acc)
    }
}

/// `spec_u64_or_zero` on a scanned token.
fn u64_or_zero(t: &Vec<char>) -> (r: u64)
    ensures
        r == spec_u64_or_zero(t@),
{
    match parse_u64_chars(t) {
        Some(v) => v,
        None => 0,
    }
}

/// Walk the interface rows, summing packet and dropped counters over the
/// interfaces that saw traffic; the sums saturate at the machine word.
pub open spec fn spec_net_totals(ss: Seq<NetworkStats>, packets: int, dropped: int) -> (int, int)
    decreases ss.len(),
{
    if ss.len() == 0 {
        (packets, dropped)
    } else {
        let st = ss[0];
        let pk = spec_sat_add_u64(st.rx_packets as int, st.tx_packets as int);
        if pk > 0 {
            spec_net_totals(
                ss.skip(1),
                spec_sat_add_u64(packets, pk),
                spec_sat_add_u64(dropped, spec_sat_add_u64(st.rx_dropped as int, st.tx_dropped as int)),
            )
        } else {
            spec_net_totals(ss.skip(1), packets, dropped)
        }
    }
}

/// The dropped-packet share across interfaces with traffic: absent when no
/// interface saw traffic.
pub open spec fn spec_dropped_ratio(ss: Seq<NetworkStats>) -> Option<u64> {
    let t = spec_net_totals(ss, 0, 0);
    if t.0 == 0 {
        None
    } else {
        Some(spec_min_int(spec_ratio_micro(t.1, t.0), 1_000_000) as u64)
    }
}

/// The dropped-packet share of the scanned interfaces, matching
/// `spec_dropped_ratio`; the result is at most `1.0`.
#[verifier::loop_isolation(false)]
pub fn calculate_instant_dropped_packets_ratio(stats: &Vec<NetworkStats>) -> (r: Option<u64>)
    ensures
        r == spec_dropped_ratio(stats@),
        r matches Some(v) ==> v <= 1_000_000,
{
    let n = stats.len();
    let mut packets: u64 = 0;
    let mut dropped: u64 = 0;
    let mut i: usize = 0;
    proof {
        assert(stats@.skip(0) =~= stats@);
    }
    while i < n
        invariant
            i <= n,
            spec_net_totals(stats@, 0, 0) == spec_net_totals(
                stats@.skip(i as int),
                packets as int,
                dropped as int,
            ),
        decreases n - i,
    {
        proof {
            assert(stats@.skip(i as int)[0] == stats@[i as int]);
            assert(stats@.skip(i as int).skip(1) =~= stats@.skip(i + 1));
        }
        let st = &stats[i];
        let pk = sat_add_u64(st.rx_packets, st.tx_packets);
        if pk > 0 {
            packets = sat_add_u64(packets, pk);
            dropped = sat_add_u64(dropped, sat_add_u64(st.rx_dropped, st.tx_dropped));
        }
        i = i + 1;
    }
    proof {
        assert(stats@.skip(n as int).len() == 0);
    }
    if packets == 0 {
        None
    } else {
        Some(ratio_capped(dropped, packets, 1_000_000))
    }
}

/// Walk `/proc/diskstats` rows: keep each full row for a whole disk — the
/// device name neither a loop device nor ending in a digit (a partition).
pub open spec fn spec_disk_scan(ls: Seq<Seq<char>>) -> Seq<DiskStat>
    decreases ls.len(),
{
    if ls.len() == 0 {
        Seq::empty()
    } else {
        let t = spec_tokens(ls[0]);
        let rest = spec_disk_scan(ls.skip(1));
        if t.len() < 14 {
            rest
        } else if spec_starts_with(t[2], "loop"@) || (t[2].len() > 0 && spec_digit(t[2].last())) {
            rest
        } else {
            seq![DiskStat { sectors_read: spec_u64_or_zero(t[5]), sectors_written: spec_u64_or_zero(t[9]) }]
                + rest
        }
    }
}

/// The whole-disk rows of `/proc/diskstats` text, absent when none remain.
pub open spec fn spec_parse_disk_stats(s: Seq<char>) -> Option<Seq<DiskStat>> {
    let es = spec_disk_scan(spec_lines(s));
    if es.len() == 0 {
        None
    } else {
        Some(es)
    }
}

/// Parse `/proc/diskstats` text, matching `spec_parse_disk_stats`.
#[verifier::loop_isolation(false)]
pub fn parse_disk_stats(content: &str) -> (r: Option<Vec<DiskStat>>)
    ensures
        r matches Some(es) ==> spec_parse_disk_stats(content@) == Some(es@),
        r is None <==> spec_parse_disk_stats(content@) is None,
{
    let v = chars_of(content);
    let lines = lines_of(&v);
    proof {
        lemma_deep_view_chars(&lines);
    }
    let ghost ls = spec_lines(v@);
    let n = lines.len();
    let mut acc: Vec<DiskStat> = Vec::new();
    let mut i: usize = 0;
    proof {
        assert(ls.skip(0) =~= ls);
        assert(acc@ + spec_disk_scan(ls) =~= spec_disk_scan(ls));
    }
    while i < n
        invariant
            i <= n,
            spec_disk_scan(ls) == acc@ + spec_disk_scan(ls.skip(i as int)),
        decreases n - i,
    {
        proof {
            assert(ls.skip(i as int)[0] == ls[i as int]);
            assert(ls.skip(i as int).skip(1) =~= ls.skip(i + 1));
        }
        let toks = tokens_of(&lines[i]);
        proof {
            lemma_deep_view_chars(&toks);
        }
        if toks.len() >= 14 {
            let device = &toks[2];
            let mut skip_row = starts_with_lit(device, "loop");
            if device.len() > 0 {
                let last = device[device.len() - 1];
                match crate::text::digit_of(last) {
                    Some(_) => {
                        skip_row = true;
                    },
                    None => {
                    },
                }
            }
            proof {
                if device@.len() > 0 {
                    assert(device@.last() == device@[device@.len() - 1]);
                }
            }
            if !skip_row {
                let entry = DiskStat {
                    sectors_read: u64_or_zero(&toks[5]),
                    sectors_written: u64_or_zero(&toks[9]),
                };
                let ghost prev = acc@;
                acc.push(entry);
                proof {
                    assert(prev + (seq![entry] + spec_disk_scan(ls.skip(i + 1))) =~= acc@
                        + spec_disk_scan(ls.skip(i + 1)));
                }
            }
        }
        i = i + 1;
    }
    proof {
        assert(ls.skip(n as int).len() == 0);
        assert(acc@ + spec_disk_scan(ls.skip(n as int)) =~= acc@);
    }
    if acc.len() == 0 {
        None
    } else {
        Some(acc)
    }
}

/// One disk's utilization estimate: its sector total read as millionths,
/// capped at `1.0`.
pub open spec fn spec_disk_util_one(d: DiskStat) -> int {
    spec_min_int(spec_sat_add_u64(d.sectors_read as int, d.sectors_written as int), 1_000_000)
}

/// Walk the disk rows, summing the per-disk utilization estimates.
pub open spec fn spec_disk_util_sum(ss: Seq<DiskStat>, sum: int) -> int
    decreases ss.len(),
{
    if ss.len() == 0 {
        sum
    } else {
        spec_disk_util_sum(ss.skip(1), sum + spec_disk_util_one(ss[0]))
    }
}

/// The average utilization estimate across the disks, absent when there are
/// none.
pub open spec fn spec_estimate_disk_utilization(ss: Seq<DiskStat>) -> Option<u64> {
    if ss.len() == 0 {
        None
    } else {
        Some((spec_disk_util_sum(ss, 0) / ss.len() as int) as u64)
    }
}

/// Average the per-disk utilization estimates, matching
/// `spec_estimate_disk_utilization`; the result is at most `1.0`.
#[verifier::loop_isolation(false)]
pub fn estimate_disk_utilization(disk_stats: &Vec<DiskStat>) -> (r: Option<u64>)
    ensures
        r == spec_estimate_disk_utilization(disk_stats@),
        r matches Some(v) ==> v <= 1_000_000,
{
    let n = disk_stats.len();
    if n == 0 {
        return None;
    }
    let mut sum: u128 = 0;
    let mut i: usize = 0;
    proof {
        assert(disk_stats@.skip(0) =~= disk_stats@);
    }
    while i < n
        invariant
            i <= n,
            sum as int <= i as int * 1_000_000,
            spec_disk_util_sum(disk_stats@, 0) == spec_disk_util_sum(
                disk_stats@.skip(i as int),
                sum as int,
            ),
        decreases n - i,
    {
        proof {
            assert(disk_stats@.skip(i as int)[0] == disk_stats@[i as int]);
            assert(disk_stats@.skip(i as int).skip(1) =~= disk_stats@.skip(i + 1));
            vstd::arithmetic::mul::lemma_mul_inequality(i as int, i as int + 1, 1_000_000);
        }
        let st = &disk_stats[i];
        let total = sat_add_u64(st.sectors_read, st.sectors_written);
        let util: u64 = if total > 1_000_000 {
            1_000_000
        } else {
            total
        };
        sum = sum + util as u128;
        i = i + 1;
    }
    proof {
        assert(disk_stats@.skip(n as int).len() == 0);
        vstd::arithmetic::div_mod::lemma_div_is_ordered(
            sum as int,
            n as int * 1_000_000,
            n as int,
        );
        vstd::arithmetic::div_mod::lemma_div_multiples_vanish(1_000_000, n as int);
        assert(n as int * 1_000_000 == (n as int) * 1_000_000);
        vstd::arithmetic::div_mod::lemma_div_pos_is_pos(sum as int, n as int);
        assert((n as int * 1_000_000) / n as int == 1_000_000) by {
            vstd::arithmetic::mul::lemma_mul_is_commutative(n as int, 1_000_000);
        };
    }
    Some((sum / n as u128) as u64)
}

/// Walk `iostat -x` output, keeping the highest device utilization of the
/// last report: a `Device` header opens a report, so a fresh header
/// discards earlier readings — with two reports a sampling interval
/// apart, the windowed second one wins over the since-boot first.  A
/// device row is any line, outside the headers, of at least fourteen
/// columns; its last column is a percentage.
pub open spec fn spec_iostat_scan(ls: Seq<Seq<char>>, mx: int) -> int
    decreases ls.len(),
{
    if ls.len() == 0 {
        mx
    } else {
        let line = ls[0];
        let rest = ls.skip(1);
        if spec_contains(line, "Device"@) {
            spec_iostat_scan(rest, 0)
        } else if crate::text::spec_trim(line).len() == 0 || spec_contains(line, "avg-cpu"@) {
            spec_iostat_scan(rest, mx)
        } else {
            let t = spec_tokens(line);
            if t.len() >= 14 {
                match spec_parse_micro(t[t.len() - 1]) {
                    Some(p) => {
                        let u = if p < 0 {
                            0int
                        } else {
                            spec_min_int(p as int / 100, 1_000_000)
                        };
                        spec_iostat_scan(rest, if u > mx {
                            u
                        } else {
                            mx
                        })
                    },
                    None => spec_iostat_scan(rest, mx),
                }
            } else {
                spec_iostat_scan(rest, mx)
            }
        }
    }
}

/// The highest device utilization of the last report in `iostat -x`
/// output, matching `spec_iostat_scan` from zero; at most `1.0`, and zero
/// when no device row parses.
#[verifier::loop_isolation(false)]
pub fn get_disk_util_from_iostat(output: &str) -> (r: u64)
    ensures
        r as int == spec_iostat_scan(spec_lines(output@), 0),
        r <= 1_000_000,
{
    let v = chars_of(output);
    let lines = lines_of(&v);
    proof {
        lemma_deep_view_chars(&lines);
    }
    let ghost ls = spec_lines(v@);
    let n = lines.len();
    let mut mx: u64 = 0;
    let mut i: usize = 0;
    proof {
        assert(ls.skip(0) =~= ls);
    }
    while i < n
        invariant
            i <= n,
            mx <= 1_000_000,
            spec_iostat_scan(ls, 0) == spec_iostat_scan(ls.skip(i as int), mx as int),
        decreases n - i,
    {
        proof {
            assert(ls.skip(i as int)[0] == ls[i as int]);
            assert(ls.skip(i as int).skip(1) =~= ls.skip(i + 1));
        }
        let line = &lines[i];
        let trimmed = crate::text::trim_of(line);
        if crate::text::contains_lit(line, "Device") {
            mx = 0;
        } else if !(trimmed.len() == 0 || crate::text::contains_lit(line, "avg-cpu")) {
            let toks = tokens_of(line);
            proof {
                lemma_deep_view_chars(&toks);
            }
            if toks.len() >= 14 {
                match parse_micro_chars(&toks[toks.len() - 1]) {
                    Some(p) => {
                        let u: u64 = if p < 0 {
                            0
                        } else {
                            let scaled: i64 = p / 100;
                            if scaled > 1_000_000 {
                                1_000_000
                            } else {
                                scaled as u64
                            }
                        };
                        if u > mx {
                            mx = u;
                        }
                    },
                    None => {
                    },
                }
            }
        }
        i = i + 1;
    }
    proof {
        assert(ls.skip(n as int).len() == 0);
    }
    mx
}

/// The file-descriptor usage share from `/proc/sys/fs/file-nr` and
/// `/proc/sys/fs/file-max` text: open descriptors (first field of the
/// former) over the limit (the latter, trimmed), capped at `1.0`; absent
/// unless both parse and the limit is positive.
pub open spec fn spec_fd_ratio(file_nr: Seq<char>, file_max: Seq<char>) -> Option<u64> {
    let t = spec_tokens(file_nr);
    let open_fds = if t.len() == 0 {
        None
    } else {
        spec_parse_u64(t[0])
    };
    let max_fds = spec_parse_u64(crate::text::spec_trim(file_max));
    if open_fds is Some && max_fds is Some && max_fds->0 > 0 {
        Some(spec_min_int(spec_ratio_micro(open_fds->0 as int, max_fds->0 as int), 1_000_000) as u64)
    } else {
        None
    }
}

/// The file-descriptor usage share, matching `spec_fd_ratio`; at most
/// `1.0`.
pub fn fd_ratio_from_files(file_nr: &str, file_max: &str) -> (r: Option<u64>)
    ensures
        r == spec_fd_ratio(file_nr@, file_max@),
        r matches Some(v) ==> v <= 1_000_000,
{
    let v = chars_of(file_nr);
    let toks = tokens_of(&v);
    proof {
        lemma_deep_view_chars(&toks);
    }
    let open_fds: Option<u64> = if toks.len() == 0 {
        None
    } else {
        parse_u64_chars(&toks[0])
    };
    let w = chars_of(file_max);
    let trimmed = crate::text::trim_of(&w);
    let max_fds = parse_u64_chars(&trimmed);
    match (open_fds, max_fds) {
        (Some(open_fds), Some(max_fds)) => {
            if max_fds > 0 {
                Some(ratio_capped(open_fds, max_fds, 1_000_000))
            } else {
                None
            }
        },
        _ => None,
    }
}

/// The process-count share from `ps aux` output: the line count less the
/// header, over a typical limit of `4096`, capped at `10.0`.
pub open spec fn spec_process_ratio(s: Seq<char>) -> int {
    let count = spec_lines(s).len() as int;
    let procs = if count > 0 {
        count - 1
    } else {
        0int
    };
    spec_min_int((procs * 1_000_000) / 4096, 10_000_000)
}

/// The process-count share of `ps aux` output, matching
/// `spec_process_ratio`; at most `10.0`.
pub fn process_ratio_from_ps(output: &str) -> (r: u64)
    ensures
        r as int == spec_process_ratio(output@),
        r <= 10_000_000,
{
    let v = chars_of(output);
    let lines = lines_of(&v);
    proof {
        lemma_deep_view_chars(&lines);
    }
    let count = lines.len();
    let procs: usize = if count > 0 {
        count - 1
    } else {
        0
    };
    let q: u128 = (procs as u128) * 1_000_000 / 4096;
    if q > 10_000_000 {
        10_000_000
    } else {
        q as u64
    }
}


/// View of an optional source text.
pub open spec fn spec_text_of(o: Option<&str>) -> Option<Seq<char>> {
    match o {
        Some(t) => Some(t@),
        None => None,
    }
}

/// The CPU slots computed from the CPU sources: busy and I/O-wait shares
/// from the window between two `/proc/stat` samples (absent unless both
/// samples are there — rate signals cannot be read from one), and the
/// per-core load from `/proc/loadavg` with `/proc/cpuinfo`.
pub open spec fn spec_cpu_slots(
    stat_first: Option<Seq<char>>,
    stat_second: Option<Seq<char>>,
    loadavg: Option<Seq<char>>,
    cpuinfo: Option<Seq<char>>,
) -> (Option<u64>, Option<u64>, Option<u64>) {
    let busy_wait = match (stat_first, stat_second) {
        (Some(a), Some(b)) => spec_cpu_delta_ratios(a, b),
        _ => (None, None),
    };
    let load = match (loadavg, cpuinfo) {
        (Some(la), Some(ci)) => spec_load_slot(la, ci),
        _ => None,
    };
    (busy_wait.0, busy_wait.1, load)
}

/// The per-core load slot: the one-minute load average, clamped below at
/// zero, divided by the core count and capped at `10.0`.
pub open spec fn spec_load_slot(loadavg: Seq<char>, cpuinfo: Seq<char>) -> Option<u64> {
    match (spec_parse_load_average(loadavg), spec_parse_cpu_cores(cpuinfo)) {
        (Some(lm), Some(cores)) => {
            let nonneg = if lm < 0 {
                0int
            } else {
                lm as int
            };
            Some(spec_min_int(nonneg / cores, 10_000_000) as u64)
        },
        _ => None,
    }
}

/// CPU busy, I/O-wait and per-core load from the CPU sources, matching
/// `spec_cpu_slots`.
pub fn get_cpu_metrics_consolidated(
    stat_first: Option<&str>,
    stat_second: Option<&str>,
    loadavg: Option<&str>,
    cpuinfo: Option<&str>,
) -> (r: (Option<u64>, Option<u64>, Option<u64>))
    ensures
        r == spec_cpu_slots(
            spec_text_of(stat_first),
            spec_text_of(stat_second),
            spec_text_of(loadavg),
            spec_text_of(cpuinfo),
        ),
        r.0 matches Some(v) ==> v <= 1_000_000,
        r.1 matches Some(v) ==> v <= 1_000_000,
        r.2 matches Some(v) ==> v <= 10_000_000,
{
    let (busy, wait) = match (stat_first, stat_second) {
        (Some(a), Some(b)) => {
            match (parse_cpu_stat(a), parse_cpu_stat(b)) {
                (Some(s1), Some(s2)) => cpu_ratios_from_samples(&s1, &s2),
                _ => (None, None),
            }
        },
        _ => (None, None),
    };
    let load: Option<u64> = match (loadavg, cpuinfo) {
        (Some(la), Some(ci)) => {
            match (parse_load_average(la), parse_cpu_cores(ci)) {
                (Some(lm), Some(cores)) => {
                    let nonneg: u64 = if lm < 0 {
                        0
                    } else {
                        lm as u64
                    };
                    let q = nonneg / (cores as u64);
                    if q > 10_000_000 {
                        Some(10_000_000)
                    } else {
                        Some(q)
                    }
                },
                _ => None,
            }
        },
        _ => None,
    };
    (busy, wait, load)
}

/// The memory slots: used share from `/proc/meminfo`, pressure share from
/// `/proc/pressure/memory`.
pub open spec fn spec_memory_slots(
    meminfo: Option<Seq<char>>,
    pressure: Option<Seq<char>>,
) -> (Option<u64>, Option<u64>) {
    let usage = match meminfo {
        Some(t) => spec_parse_memory_usage(t),
        None => None,
    };
    let pres = match pressure {
        Some(t) => spec_parse_memory_pressure(spec_lines(t)),
        None => None,
    };
    (usage, pres)
}

/// Memory usage and pressure from their sources, matching
/// `spec_memory_slots`.
pub fn get_memory_metrics_consolidated(meminfo: Option<&str>, pressure: Option<&str>) -> (r: (
    Option<u64>,
    Option<u64>,
))
    ensures
        r == spec_memory_slots(spec_text_of(meminfo), spec_text_of(pressure)),
        r.0 matches Some(v) ==> v <= 1_000_000,
        r.1 matches Some(v) ==> v <= 1_000_000,
{
    let usage = match meminfo {
        Some(t) => parse_memory_usage(t),
        None => None,
    };
    let pres = match pressure {
        Some(t) => parse_memory_pressure(t),
        None => None,
    };
    (usage, pres)
}

/// The network slot: the dropped-packet share of the interface rows.
pub open spec fn spec_network_slot(netdev: Option<Seq<char>>) -> Option<u64> {
    match netdev {
        Some(t) => match spec_parse_network_stats(t) {
            Some(es) => spec_dropped_ratio(es),
            None => None,
        },
        None => None,
    }
}

/// The dropped-packet share from `/proc/net/dev` text, matching
/// `spec_network_slot`.
pub fn get_network_metrics_consolidated(netdev: Option<&str>) -> (r: Option<u64>)
    ensures
        r == spec_network_slot(spec_text_of(netdev)),
        r matches Some(v) ==> v <= 1_000_000,
{
    match netdev {
        Some(t) => match parse_network_stats(t) {
            Some(stats) => calculate_instant_dropped_packets_ratio(&stats),
            None => None,
        },
        None => None,
    }
}

/// The disk slot: `iostat -x` when that command answered, else the
/// `/proc/diskstats` estimate.
pub open spec fn spec_disk_slot(
    iostat: Option<Seq<char>>,
    diskstats: Option<Seq<char>>,
) -> Option<u64> {
    match iostat {
        Some(t) => Some(spec_iostat_scan(spec_lines(t), 0) as u64),
        None => match diskstats {
            Some(t) => match spec_parse_disk_stats(t) {
                Some(es) => spec_estimate_disk_utilization(es),
                None => None,
            },
            None => None,
        },
    }
}

/// Disk utilization from `iostat` or `/proc/diskstats`, matching
/// `spec_disk_slot`.
pub fn get_disk_io_utilization_instant(iostat: Option<&str>, diskstats: Option<&str>) -> (r:
    Option<u64>)
    ensures
        r == spec_disk_slot(spec_text_of(iostat), spec_text_of(diskstats)),
        r matches Some(v) ==> v <= 1_000_000,
{
    match iostat {
        Some(t) => Some(get_disk_util_from_iostat(t)),
        None => match diskstats {
            Some(t) => match parse_disk_stats(t) {
                Some(stats) => estimate_disk_utilization(&stats),
                None => None,
            },
            None => None,
        },
    }
}

/// The file-descriptor slot, needing both limit files.
pub open spec fn spec_fd_slot(
    file_nr: Option<Seq<char>>,
    file_max: Option<Seq<char>>,
) -> Option<u64> {
    match (file_nr, file_max) {
        (Some(a), Some(b)) => spec_fd_ratio(a, b),
        _ => None,
    }
}

/// File-descriptor usage from its two sources, matching `spec_fd_slot`.
pub fn get_fd_usage(file_nr: Option<&str>, file_max: Option<&str>) -> (r: Option<u64>)
    ensures
        r == spec_fd_slot(spec_text_of(file_nr), spec_text_of(file_max)),
        r matches Some(v) ==> v <= 1_000_000,
{
    match (file_nr, file_max) {
        (Some(a), Some(b)) => fd_ratio_from_files(a, b),
        _ => None,
    }
}

/// The process-count slot.
pub open spec fn spec_process_slot(ps: Option<Seq<char>>) -> Option<u64> {
    match ps {
        Some(t) => Some(spec_process_ratio(t) as u64),
        None => None,
    }
}

/// Process-count share from `ps aux` output, matching `spec_process_slot`.
pub fn get_process_count(ps: Option<&str>) -> (r: Option<u64>)
    ensures
        r == spec_process_slot(spec_text_of(ps)),
        r matches Some(v) ==> v <= 10_000_000,
{
    match ps {
        Some(t) => Some(process_ratio_from_ps(t)),
        None => None,
    }
}

/// The whole snapshot as a function of the eleven source texts: each slot
/// depends only on its own sources, so one absent or malformed source
/// degrades exactly its own slots and no other.
pub open spec fn spec_collect(
    stat_first: Option<Seq<char>>,
    stat_second: Option<Seq<char>>,
    loadavg: Option<Seq<char>>,
    cpuinfo: Option<Seq<char>>,
    meminfo: Option<Seq<char>>,
    pressure: Option<Seq<char>>,
    iostat: Option<Seq<char>>,
    diskstats: Option<Seq<char>>,
    netdev: Option<Seq<char>>,
    file_nr: Option<Seq<char>>,
    file_max: Option<Seq<char>>,
    ps: Option<Seq<char>>,
) -> LinuxSystemMetrics {
    let cpu = spec_cpu_slots(stat_first, stat_second, loadavg, cpuinfo);
    let mem = spec_memory_slots(meminfo, pressure);
    LinuxSystemMetrics {
        cpu_usage_ratio: cpu.0,
        cpu_io_wait_ratio: cpu.1,
        cpu_load_ratio: cpu.2,
        memory_usage_ratio: mem.0,
        memory_pressure_ratio: mem.1,
        disk_io_utilization: spec_disk_slot(iostat, diskstats),
        network_dropped_packets_ratio: spec_network_slot(netdev),
        fd_usage_ratio: spec_fd_slot(file_nr, file_max),
        process_count_ratio: spec_process_slot(ps),
    }
}

impl LinuxSystemMetrics {
    /// Assemble a snapshot from the source texts the caller managed to
    /// read — for the CPU rate signals, two `/proc/stat` samples taken a
    /// sampling interval apart.  Each slot is computed independently and
    /// absent sources degrade only their own slots; the result satisfies
    /// the snapshot's domain invariant.
    pub fn collect_system_metrics(
        stat_first: Option<&str>,
        stat_second: Option<&str>,
        loadavg: Option<&str>,
        cpuinfo: Option<&str>,
        meminfo: Option<&str>,
        pressure: Option<&str>,
        iostat: Option<&str>,
        diskstats: Option<&str>,
        netdev: Option<&str>,
        file_nr: Option<&str>,
        file_max: Option<&str>,
        ps: Option<&str>,
    ) -> (r: LinuxSystemMetrics)
        ensures
            r == spec_collect(
                spec_text_of(stat_first),
                spec_text_of(stat_second),
                spec_text_of(loadavg),
                spec_text_of(cpuinfo),
                spec_text_of(meminfo),
                spec_text_of(pressure),
                spec_text_of(iostat),
                spec_text_of(diskstats),
                spec_text_of(netdev),
                spec_text_of(file_nr),
                spec_text_of(file_max),
                spec_text_of(ps),
            ),
            r.wf(),
    {
        let (cpu_usage_ratio, cpu_io_wait_ratio, cpu_load_ratio) = get_cpu_metrics_consolidated(
            stat_first,
            stat_second,
            loadavg,
            cpuinfo,
        );
        let (memory_usage_ratio, memory_pressure_ratio) = get_memory_metrics_consolidated(
            meminfo,
            pressure,
        );
        let disk_io_utilization = get_disk_io_utilization_instant(iostat, diskstats);
        let network_dropped_packets_ratio = get_network_metrics_consolidated(netdev);
        let fd_usage_ratio = get_fd_usage(file_nr, file_max);
        let process_count_ratio = get_process_count(ps);
        LinuxSystemMetrics {
            cpu_usage_ratio,
            cpu_io_wait_ratio,
            cpu_load_ratio,
            memory_usage_ratio,
            memory_pressure_ratio,
            disk_io_utilization,
            network_dropped_packets_ratio,
            fd_usage_ratio,
            process_count_ratio,
        }
    }
}

/// Losing one source never disturbs another signal's slot: a snapshot
/// assembled without the memory-pressure source, for instance, differs from
/// one assembled with it in that slot alone.  Stated here for every pair of
/// source assignments that agree outside one source.
pub proof fn lemma_absent_source_is_isolated(
    stat_first: Option<Seq<char>>,
    stat_second: Option<Seq<char>>,
    loadavg: Option<Seq<char>>,
    cpuinfo: Option<Seq<char>>,
    meminfo: Option<Seq<char>>,
    pressure: Option<Seq<char>>,
    iostat: Option<Seq<char>>,
    diskstats: Option<Seq<char>>,
    netdev: Option<Seq<char>>,
    file_nr: Option<Seq<char>>,
    file_max: Option<Seq<char>>,
    ps: Option<Seq<char>>,
)
    ensures
        spec_collect(
            stat_first,
            stat_second,
            loadavg,
            cpuinfo,
            meminfo,
            None,
            iostat,
            diskstats,
            netdev,
            file_nr,
            file_max,
            ps,
        ) == (LinuxSystemMetrics {
            memory_pressure_ratio: None,
            ..spec_collect(
                stat_first,
                stat_second,
                loadavg,
                cpuinfo,
                meminfo,
                pressure,
                iostat,
                diskstats,
                netdev,
                file_nr,
                file_max,
                ps,
            )
        }),
        spec_collect(
            stat_first,
            stat_second,
            loadavg,
            cpuinfo,
            meminfo,
            pressure,
            iostat,
            diskstats,
            None,
            file_nr,
            file_max,
            ps,
        ) == (LinuxSystemMetrics {
            network_dropped_packets_ratio: None,
            ..spec_collect(
                stat_first,
                stat_second,
                loadavg,
                cpuinfo,
                meminfo,
                pressure,
                iostat,
                diskstats,
                netdev,
                file_nr,
                file_max,
                ps,
            )
        }),
        spec_collect(
            stat_first,
            stat_second,
            loadavg,
            cpuinfo,
            meminfo,
            pressure,
            iostat,
            diskstats,
            netdev,
            file_nr,
            file_max,
            None,
        ) == (LinuxSystemMetrics {
            process_count_ratio: None,
            ..spec_collect(
                stat_first,
                stat_second,
                loadavg,
                cpuinfo,
                meminfo,
                pressure,
                iostat,
                diskstats,
                netdev,
                file_nr,
                file_max,
                ps,
            )
        }),
{
}

} // verus!
