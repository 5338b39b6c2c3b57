//! The percentage-based system metrics record and its Linux text readers.
//!
//! This is the ordinal presentation of the same signals: seven percentages
//! in `[0, 100]`, held in fixed point (`1_000_000` stands for `100%`, i.e.
//! for the ratio `1.0`).  The readers parse the `/proc` texts that feed the
//! record; platform-specific collectors live in the submodules.

use vstd::prelude::*;
use crate::error::{PwrzvError, PwrzvResult};
use crate::ratio::{ratio_capped_wide, spec_min_int, spec_ratio_micro};
use crate::text::{
    chars_of, contains_lit, eq_lit, lemma_deep_view_chars, lines_of, parse_u64_chars, sat_add_u64,
    spec_contains, spec_lines, spec_parse_u64, spec_sat_add_u64, spec_starts_with, spec_tokens,
    starts_with_lit, tokens_of,
};

pub mod default;
pub mod linux;
pub mod macos;

verus! {

/// Seven resource percentages, each in `[0, 100]` and held in fixed point.
#[derive(Debug, Clone, PartialEq, Eq, Structural)]
pub struct SystemMetrics {
    /// Total CPU utilization.
    pub cpu_usage: i64,
    /// CPU I/O-wait share.
    pub cpu_iowait: i64,
    /// Available memory share.
    pub mem_available: i64,
    /// Swap usage share.
    pub swap_usage: i64,
    /// Disk utilization.
    pub disk_usage: i64,
    /// Network utilization.
    pub net_usage: i64,
    /// File-descriptor usage share.
    pub fd_usage: i64,
}

impl Default for SystemMetrics {
    /// An idle machine: nothing used, all memory available.
    fn default() -> (r: Self)
        ensures
            r == SystemMetrics::spec_default(),
    {
        SystemMetrics {
            cpu_usage: 0,
            cpu_iowait: 0,
            mem_available: 1_000_000,
            swap_usage: 0,
            disk_usage: 0,
            net_usage: 0,
            fd_usage: 0,
        }
    }
}

impl SystemMetrics {
    /// The default record.
    pub open spec fn spec_default() -> Self {
        SystemMetrics {
            cpu_usage: 0,
            cpu_iowait: 0,
            mem_available: 1_000_000,
            swap_usage: 0,
            disk_usage: 0,
            net_usage: 0,
            fd_usage: 0,
        }
    }

    /// Every field is a percentage within `[0, 100]`.
    pub open spec fn spec_valid(self) -> bool {
        &&& 0 <= self.cpu_usage <= 1_000_000
        &&& 0 <= self.cpu_iowait <= 1_000_000
        &&& 0 <= self.mem_available <= 1_000_000
        &&& 0 <= self.swap_usage <= 1_000_000
        &&& 0 <= self.disk_usage <= 1_000_000
        &&& 0 <= self.net_usage <= 1_000_000
        &&& 0 <= self.fd_usage <= 1_000_000
    }

    /// Create the default record.
    pub fn new() -> (r: Self)
        ensures
            r == SystemMetrics::spec_default(),
    {
        Self::default()
    }

    /// Whether every field lies in its domain.
    pub fn validate(&self) -> (r: bool)
        ensures
            r == self.spec_valid(),
    {
        0 <= self.cpu_usage && self.cpu_usage <= 1_000_000 && 0 <= self.cpu_iowait
            && self.cpu_iowait <= 1_000_000 && 0 <= self.mem_available && self.mem_available
            <= 1_000_000 && 0 <= self.swap_usage && self.swap_usage <= 1_000_000 && 0
            <= self.disk_usage && self.disk_usage <= 1_000_000 && 0 <= self.net_usage
            && self.net_usage <= 1_000_000 && 0 <= self.fd_usage && self.fd_usage <= 1_000_000
    }

    /// Assemble a record from whichever `/proc` texts the caller could
    /// read: each reader that succeeds overwrites its fields of the default
    /// record, and a reader's failure leaves the defaults standing.
    pub fn collect_from_sources(
        stat: Option<&str>,
        meminfo: Option<&str>,
        diskstats: Option<&str>,
        netdev: Option<&str>,
        file_nr: Option<&str>,
    ) -> (r: SystemMetrics)
        ensures
            r == spec_collect_legacy(
                spec_opt_text(stat),
                spec_opt_text(meminfo),
                spec_opt_text(diskstats),
                spec_opt_text(netdev),
                spec_opt_text(file_nr),
            ),
            r.spec_valid(),
    {
        let mut m = SystemMetrics::new();
        match stat {
            Some(t) => match read_cpu_stats(t) {
                Ok((cpu_usage, cpu_iowait)) => {
                    m.cpu_usage = cpu_usage;
                    m.cpu_iowait = cpu_iowait;
                },
                Err(_) => {},
            },
            None => {},
        }
        match meminfo {
            Some(t) => match read_memory_stats(t) {
                Ok((mem_available, swap_usage)) => {
                    m.mem_available = mem_available;
                    m.swap_usage = swap_usage;
                },
                Err(_) => {},
            },
            None => {},
        }
        match diskstats {
            Some(t) => match read_disk_stats(t) {
                Ok(disk_usage) => {
                    m.disk_usage = disk_usage;
                },
                Err(_) => {},
            },
            None => {},
        }
        match netdev {
            Some(t) => match read_network_stats(t) {
                Ok(net_usage) => {
                    m.net_usage = net_usage;
                },
                Err(_) => {},
            },
            None => {},
        }
        match file_nr {
            Some(t) => match read_fd_stats(t) {
                Ok(fd_usage) => {
                    m.fd_usage = fd_usage;
                },
                Err(_) => {},
            },
            None => {},
        }
        m
    }
}

/// View of an optional source text.
pub open spec fn spec_opt_text(o: Option<&str>) -> Option<Seq<char>> {
    match o {
        Some(t) => Some(t@),
        None => None,
    }
}

/// The record assembled from the optional source texts.
pub open spec fn spec_collect_legacy(
    stat: Option<Seq<char>>,
    meminfo: Option<Seq<char>>,
    diskstats: Option<Seq<char>>,
    netdev: Option<Seq<char>>,
    file_nr: Option<Seq<char>>,
) -> SystemMetrics {
    let d = SystemMetrics::spec_default();
    let cpu = match stat {
        Some(t) => spec_read_cpu_stats(t),
        None => None,
    };
    let mem = match meminfo {
        Some(t) => Some(spec_read_memory_stats(t)),
        None => None,
    };
    let disk = match diskstats {
        Some(t) => Some(spec_read_disk_stats(t)),
        None => None,
    };
    let net = match netdev {
        Some(t) => Some(spec_read_network_stats(t)),
        None => None,
    };
    let fd = match file_nr {
        Some(t) => spec_read_fd_stats(t),
        None => None,
    };
    SystemMetrics {
        cpu_usage: match cpu {
            Some(c) => c.0,
            None => d.cpu_usage,
        },
        cpu_iowait: match cpu {
            Some(c) => c.1,
            None => d.cpu_iowait,
        },
        mem_available: match mem {
            Some(v) => v.0,
            None => d.mem_available,
        },
        swap_usage: match mem {
            Some(v) => v.1,
            None => d.swap_usage,
        },
        disk_usage: match disk {
            Some(v) => v,
            None => d.disk_usage,
        },
        net_usage: match net {
            Some(v) => v,
            None => d.net_usage,
        },
        fd_usage: match fd {
            Some(v) => v,
            None => d.fd_usage,
        },
    }
}

/// The CPU percentages read from `/proc/stat` text: `None` when the first
/// line is missing, mislabelled, short, or holds a field that is no
/// number; otherwise busy and I/O-wait shares over the five classic
/// counters, zero when those counters sum to zero.
pub open spec fn spec_read_cpu_stats(s: Seq<char>) -> Option<(i64, i64)> {
    let ls = spec_lines(s);
    if ls.len() == 0 {
        None
    } else if !spec_starts_with(ls[0], "cpu "@) {
        None
    } else {
        let t = spec_tokens(ls[0]);
        if t.len() < 6 {
            None
        } else if spec_parse_u64(t[1]) is None || spec_parse_u64(t[2]) is None || spec_parse_u64(
            t[3],
        ) is None || spec_parse_u64(t[4]) is None || spec_parse_u64(t[5]) is None {
            None
        } else {
            let user = spec_parse_u64(t[1])->0 as int;
            let nice = spec_parse_u64(t[2])->0 as int;
            let system = spec_parse_u64(t[3])->0 as int;
            let idle = spec_parse_u64(t[4])->0 as int;
            let iowait = spec_parse_u64(t[5])->0 as int;
            let total = user + nice + system + idle + iowait;
            if total == 0 {
                Some((0i64, 0i64))
            } else {
                Some(
                    (
                        spec_min_int(spec_ratio_micro(total - idle, total), 1_000_000) as i64,
                        spec_min_int(spec_ratio_micro(iowait, total), 1_000_000) as i64,
                    ),
                )
            }
        }
    }
}

/// Read CPU busy and I/O-wait percentages from `/proc/stat` text, matching
/// `spec_read_cpu_stats`; a failure is a parse or access error.
pub fn read_cpu_stats(content: &str) -> (r: PwrzvResult<(i64, i64)>)
    ensures
        r matches Ok(v) ==> spec_read_cpu_stats(content@) == Some(v),
        r is Err <==> spec_read_cpu_stats(content@) is None,
        r matches Ok(v) ==> 0 <= v.0 <= 1_000_000 && 0 <= v.1 <= 1_000_000,
{
    let v = chars_of(content);
    let lines = lines_of(&v);
    proof {
        lemma_deep_view_chars(&lines);
    }
    if lines.len() == 0 {
        return Err(PwrzvError::parse_error("No CPU stats line found"));
    }
    if !starts_with_lit(&lines[0], "cpu ") {
        return Err(PwrzvError::parse_error("Invalid CPU stats format"));
    }
    let toks = tokens_of(&lines[0]);
    proof {
        lemma_deep_view_chars(&toks);
    }
    if toks.len() < 6 {
        return Err(PwrzvError::parse_error("Incomplete CPU stats"));
    }
    let user = parse_u64_chars(&toks[1]);
    let nice = parse_u64_chars(&toks[2]);
    let system = parse_u64_chars(&toks[3]);
    let idle = parse_u64_chars(&toks[4]);
    let iowait = parse_u64_chars(&toks[5]);
    match (user, nice, system, idle, iowait) {
        (Some(user), Some(nice), Some(system), Some(idle), Some(iowait)) => {
            let total: u128 = user as u128 + nice as u128 + system as u128 + idle as u128
                + iowait as u128;
            if total == 0 {
                Ok((0, 0))
            } else {
                let busy = ratio_capped_wide(total - idle as u128, total, 1_000_000);
                let wait = ratio_capped_wide(iowait as u128, total, 1_000_000);
                Ok((busy as i64, wait as i64))
            }
        },
        _ => Err(PwrzvError::parse_error("Invalid CPU field")),
    }
}

/// Walk `/proc/meminfo` lines, keeping the last value of each of the four
/// keys, an unparseable value field counting as zero.  The key is the
/// line's first token, matched exactly.
pub open spec fn spec_legacy_mem_scan(
    ls: Seq<Seq<char>>,
    mt: u64,
    ma: u64,
    st: u64,
    sf: u64,
) -> (u64, u64, u64, u64)
    decreases ls.len(),
{
    if ls.len() == 0 {
        (mt, ma, st, sf)
    } else {
        let t = spec_tokens(ls[0]);
        let rest = ls.skip(1);
        if t.len() < 2 {
            spec_legacy_mem_scan(rest, mt, ma, st, sf)
        } else {
            let v = match spec_parse_u64(t[1]) {
                Some(x) => x,
                None => 0u64,
            };
            if t[0] == "MemTotal:"@ {
                spec_legacy_mem_scan(rest, v, ma, st, sf)
            } else if t[0] == "MemAvailable:"@ {
                spec_legacy_mem_scan(rest, mt, v, st, sf)
            } else if t[0] == "SwapTotal:"@ {
                spec_legacy_mem_scan(rest, mt, ma, v, sf)
            } else if t[0] == "SwapFree:"@ {
                spec_legacy_mem_scan(rest, mt, ma, st, v)
            } else {
                spec_legacy_mem_scan(rest, mt, ma, st, sf)
            }
        }
    }
}

/// The memory percentages from `/proc/meminfo` text: available share (all
/// of it when no total was seen) and swap usage share (none when no swap
/// total was seen), both capped at `100%`.
pub open spec fn spec_read_memory_stats(s: Seq<char>) -> (i64, i64) {
    let t = spec_legacy_mem_scan(spec_lines(s), 0, 0, 0, 0);
    let avail = if t.0 > 0 {
        spec_min_int(spec_ratio_micro(t.1 as int, t.0 as int), 1_000_000) as i64
    } else {
        1_000_000i64
    };
    let swap = if t.2 > 0 {
        if t.3 < t.2 {
            spec_min_int(spec_ratio_micro(t.2 - t.3, t.2 as int), 1_000_000) as i64
        } else {
            0i64
        }
    } else {
        0i64
    };
    (avail, swap)
}

/// Read available-memory and swap-usage percentages from `/proc/meminfo`
/// text, matching `spec_read_memory_stats`.
#[verifier::loop_isolation(false)]
pub fn read_memory_stats(content: &str) -> (r: PwrzvResult<(i64, i64)>)
    ensures
        r matches Ok(v) && v == spec_read_memory_stats(content@),
        r matches Ok(v) ==> 0 <= v.0 <= 1_000_000 && 0 <= v.1 <= 1_000_000,
{
    let v = chars_of(content);
    let lines = lines_of(&v);
    proof {
        lemma_deep_view_chars(&lines);
    }
    let ghost ls = spec_lines(v@);
    let n = lines.len();
    let mut mt: u64 = 0;
    let mut ma: u64 = 0;
    let mut st: u64 = 0;
    let mut sf: u64 = 0;
    let mut i: usize = 0;
    proof {
        assert(ls.skip(0) =~= ls);
    }
    while i < n
        invariant
            i <= n,
            spec_legacy_mem_scan(ls, 0, 0, 0, 0) == spec_legacy_mem_scan(
                ls.skip(i as int),
                mt,
                ma,
                st,
                sf,
            ),
        decreases n - i,
    {
        proof {
            assert(ls.skip(i as int)[0] == ls[i as int]);
            assert(ls.skip(i as int).skip(1) =~= ls.skip(i + 1));
        }
        let toks = tokens_of(&lines[i]);
        proof {
            lemma_deep_view_chars(&toks);
        }
        if toks.len() >= 2 {
            let value: u64 = match parse_u64_chars(&toks[1]) {
                Some(x) => x,
                None => 0,
            };
            if eq_lit(&toks[0], "MemTotal:") {
                mt = value;
            } else if eq_lit(&toks[0], "MemAvailable:") {
                ma = value;
            } else if eq_lit(&toks[0], "SwapTotal:") {
                st = value;
            } else if eq_lit(&toks[0], "SwapFree:") {
                sf = value;
            }
        }
        i = i + 1;
    }
    proof {
        assert(ls.skip(n as int).len() == 0);
    }
    let avail: i64 = if mt > 0 {
        ratio_capped_wide(ma as u128, mt as u128, 1_000_000) as i64
    } else {
        1_000_000
    };
    let swap: i64 = if st > 0 {
        if sf < st {
            ratio_capped_wide((st - sf) as u128, st as u128, 1_000_000) as i64
        } else {
            0
        }
    } else {
        0
    };
    Ok((avail, swap))
}

/// Walk `/proc/diskstats` rows for real disks — names starting `sd`,
/// `nvme` or `hd` — summing the I/O-time column (saturating) and counting
/// the rows whose column parses.
pub open spec fn spec_disk_time_scan(ls: Seq<Seq<char>>, total: int, count: int) -> (int, int)
    decreases ls.len(),
{
    if ls.len() == 0 {
        (total, count)
    } else {
        let t = spec_tokens(ls[0]);
        let rest = ls.skip(1);
        if t.len() < 14 {
            spec_disk_time_scan(rest, total, count)
        } else if spec_starts_with(t[2], "sd"@) || spec_starts_with(t[2], "nvme"@)
            || spec_starts_with(t[2], "hd"@) {
            match spec_parse_u64(t[13]) {
                Some(v) => spec_disk_time_scan(
                    rest,
                    spec_sat_add_u64(total, v as int),
                    count + 1,
                ),
                None => spec_disk_time_scan(rest, total, count),
            }
        } else {
            spec_disk_time_scan(rest, total, count)
        }
    }
}

/// The disk utilization percentage from `/proc/diskstats` text: the mean
/// per-disk I/O time read as milliseconds per second, capped at `100%`;
/// zero with no disks.
pub open spec fn spec_read_disk_stats(s: Seq<char>) -> i64 {
    let t = spec_disk_time_scan(spec_lines(s), 0, 0);
    if t.1 == 0 {
        0i64
    } else {
        let avg = t.0 / t.1;
        if avg >= 1_000 {
            1_000_000i64
        } else {
            (avg * 1_000) as i64
        }
    }
}

/// Read the disk utilization percentage from `/proc/diskstats` text,
/// matching `spec_read_disk_stats`.
#[verifier::loop_isolation(false)]
pub fn read_disk_stats(content: &str) -> (r: PwrzvResult<i64>)
    ensures
        r matches Ok(v) && v == spec_read_disk_stats(content@),
        r matches Ok(v) ==> 0 <= v <= 1_000_000,
{
    let v = chars_of(content);
    let lines = lines_of(&v);
    proof {
        lemma_deep_view_chars(&lines);
    }
    let ghost ls = spec_lines(v@);
    let n = lines.len();
    let mut total: u64 = 0;
    let mut count: usize = 0;
    let mut i: usize = 0;
    proof {
        assert(ls.skip(0) =~= ls);
    }
    while i < n
        invariant
            i <= n,
            count <= i,
            spec_disk_time_scan(ls, 0, 0) == spec_disk_time_scan(
                ls.skip(i as int),
                total as int,
                count as int,
            ),
        decreases n - i,
    {
        proof {
            assert(ls.skip(i as int)[0] == ls[i as int]);
            assert(ls.skip(i as int).skip(1) =~= ls.skip(i + 1));
        }
        let toks = tokens_of(&lines[i]);
        proof {
            lemma_deep_view_chars(&toks);
        }
        if toks.len() >= 14 {
            if starts_with_lit(&toks[2], "sd") || starts_with_lit(&toks[2], "nvme")
                || starts_with_lit(&toks[2], "hd") {
                match parse_u64_chars(&toks[13]) {
                    Some(io_time) => {
                        total = sat_add_u64(total, io_time);
                        count = count + 1;
                    },
                    None => {},
                }
            }
        }
        i = i + 1;
    }
    proof {
        assert(ls.skip(n as int).len() == 0);
    }
    if count == 0 {
        return Ok(0);
    }
    let avg: u64 = total / (count as u64);
    if avg >= 1_000 {
        Ok(1_000_000)
    } else {
        Ok((avg * 1_000) as i64)
    }
}

/// Walk `/proc/net/dev` lines for real interfaces — loopback skipped,
/// names containing `eth`, `enp`, `ens` or `wlan` — summing received and
/// sent bytes (saturating) where both counters parse.
pub open spec fn spec_net_bytes_scan(ls: Seq<Seq<char>>, total: int) -> int
    decreases ls.len(),
{
    if ls.len() == 0 {
        total
    } else {
        let line = ls[0];
        let rest = ls.skip(1);
        if spec_contains(line, "lo:"@) {
            spec_net_bytes_scan(rest, total)
        } else if spec_contains(line, "eth"@) || spec_contains(line, "enp"@) || spec_contains(
            line,
            "ens"@,
        ) || spec_contains(line, "wlan"@) {
            let t = spec_tokens(line);
            if t.len() >= 10 {
                match (spec_parse_u64(t[1]), spec_parse_u64(t[9])) {
                    (Some(rx), Some(tx)) => spec_net_bytes_scan(
                        rest,
                        spec_sat_add_u64(total, spec_sat_add_u64(rx as int, tx as int)),
                    ),
                    _ => spec_net_bytes_scan(rest, total),
                }
            } else {
                spec_net_bytes_scan(rest, total)
            }
        } else {
            spec_net_bytes_scan(rest, total)
        }
    }
}

/// The network utilization percentage from `/proc/net/dev` text: total
/// bytes against a nominal gigabit second, capped at `100%`.
pub open spec fn spec_read_network_stats(s: Seq<char>) -> i64 {
    let total = spec_net_bytes_scan(spec_lines(s), 0);
    spec_min_int(total / 12_500, 1_000_000) as i64
}

/// Read the network utilization percentage from `/proc/net/dev` text,
/// matching `spec_read_network_stats`.
#[verifier::loop_isolation(false)]
pub fn read_network_stats(content: &str) -> (r: PwrzvResult<i64>)
    ensures
        r matches Ok(v) && v == spec_read_network_stats(content@),
        r matches Ok(v) ==> 0 <= v <= 1_000_000,
{
    let v = chars_of(content);
    let lines = lines_of(&v);
    proof {
        lemma_deep_view_chars(&lines);
    }
    let ghost ls = spec_lines(v@);
    let n = lines.len();
    let mut total: u64 = 0;
    let mut i: usize = 0;
    proof {
        assert(ls.skip(0) =~= ls);
    }
    while i < n
        invariant
            i <= n,
            spec_net_bytes_scan(ls, 0) == spec_net_bytes_scan(ls.skip(i as int), total as int),
        decreases n - i,
    {
        proof {
            assert(ls.skip(i as int)[0] == ls[i as int]);
            assert(ls.skip(i as int).skip(1) =~= ls.skip(i + 1));
        }
        let line = &lines[i];
        if !contains_lit(line, "lo:") {
            if contains_lit(line, "eth") || contains_lit(line, "enp") || contains_lit(line, "ens")
                || contains_lit(line, "wlan") {
                let toks = tokens_of(line);
                proof {
                    lemma_deep_view_chars(&toks);
                }
                if toks.len() >= 10 {
                    match (parse_u64_chars(&toks[1]), parse_u64_chars(&toks[9])) {
                        (Some(rx), Some(tx)) => {
                            total = sat_add_u64(total, sat_add_u64(rx, tx));
                        },
                        _ => {},
                    }
                }
            }
        }
        i = i + 1;
    }
    proof {
        assert(ls.skip(n as int).len() == 0);
    }
    let scaled: u64 = total / 12_500;
    if scaled > 1_000_000 {
        Ok(1_000_000)
    } else {
        Ok(scaled as i64)
    }
}

/// The file-descriptor usage percentage from `/proc/sys/fs/file-nr` text:
/// the first field over the third, capped at `100%`; `None` when the line
/// is missing or short or a field is no number, and a limit of zero reads
/// as no usage.
pub open spec fn spec_read_fd_stats(s: Seq<char>) -> Option<i64> {
    let ls = spec_lines(s);
    if ls.len() == 0 {
        None
    } else {
        let t = spec_tokens(ls[0]);
        if t.len() < 3 {
            None
        } else {
            match (spec_parse_u64(t[0]), spec_parse_u64(t[2])) {
                (Some(used), Some(mx)) => if mx == 0 {
                    Some(0i64)
                } else {
                    Some(spec_min_int(spec_ratio_micro(used as int, mx as int), 1_000_000) as i64)
                },
                _ => None,
            }
        }
    }
}

/// Read the file-descriptor usage percentage from `/proc/sys/fs/file-nr`
/// text, matching `spec_read_fd_stats`.
pub fn read_fd_stats(content: &str) -> (r: PwrzvResult<i64>)
    ensures
        r matches Ok(v) ==> spec_read_fd_stats(content@) == Some(v),
        r is Err <==> spec_read_fd_stats(content@) is None,
        r matches Ok(v) ==> 0 <= v <= 1_000_000,
{
    let v = chars_of(content);
    let lines = lines_of(&v);
    proof {
        lemma_deep_view_chars(&lines);
    }
    if lines.len() == 0 {
        return Err(PwrzvError::parse_error("No file descriptor stats found"));
    }
    let toks = tokens_of(&lines[0]);
    proof {
        lemma_deep_view_chars(&toks);
    }
    if toks.len() < 3 {
        return Err(PwrzvError::parse_error("Invalid file descriptor stats format"));
    }
    match (parse_u64_chars(&toks[0]), parse_u64_chars(&toks[2])) {
        (Some(used), Some(mx)) => {
            if mx == 0 {
                Ok(0)
            } else {
                Ok(ratio_capped_wide(used as u128, mx as u128, 1_000_000) as i64)
            }
        },
        _ => Err(PwrzvError::parse_error("Invalid file descriptor count")),
    }
}

} // verus!
