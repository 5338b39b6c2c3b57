//! Parsing macOS command output into normalized signal ratios.
//!
//! Each function takes the text printed by one system command and computes
//! fixed-point ratios (`1_000_000` stands for `1.0`).  Running the commands
//! is the caller's business; everything here is a pure function of the
//! text, and missing or malformed output degrades to an absent value.

use vstd::prelude::*;
use crate::error::{PwrzvError, PwrzvResult};
use crate::ratio::{ratio_capped_wide, spec_min_int, spec_ratio_micro};
use crate::text::{
    chars_of, contains_lit, eq_lit, find_char_from, lemma_deep_view_chars, lines_of,
    parse_micro_chars, parse_u64_chars, sat_add_u64, spec_contains, spec_find_char, spec_lines,
    spec_parse_micro, spec_parse_u64, spec_sat_add_u64, spec_split_char, spec_starts_with,
    spec_strip_trailing, spec_tokens, spec_trim, split_char, starts_with_lit, strip_trailing,
    subvec, tokens_of, trim_of,
};

verus! {

/// One snapshot of every macOS signal, each slot either a fixed-point ratio
/// or absent.
#[derive(Debug, Clone, PartialEq, Eq)]
pub struct MacSystemMetrics {
    /// CPU busy share (user plus system), in `[0, 1]`.
    pub cpu_usage_ratio: Option<u64>,
    /// One-minute load average per core, capped at `2.0`.
    pub cpu_load_ratio: Option<u64>,
    /// Active and wired pages over all pages, in `[0, 1]`.
    pub memory_usage_ratio: Option<u64>,
    /// Compressor pages over all pages, in `[0, 1]`.
    pub memory_compressed_ratio: Option<u64>,
    /// Dropped share of all packets on interfaces with traffic, in `[0, 1]`.
    pub network_dropped_packets_ratio: Option<u64>,
    /// Open file descriptors over the system limit, in `[0, 1]`.
    pub fd_usage_ratio: Option<u64>,
    /// Process count over the system limit, capped at `2.0`.
    pub process_count_ratio: Option<u64>,
}

impl MacSystemMetrics {
    /// Every present slot lies in its declared domain.
    pub open spec fn wf(self) -> bool {
        &&& self.cpu_usage_ratio matches Some(v) ==> v <= 1_000_000
        &&& self.cpu_load_ratio matches Some(v) ==> v <= 2_000_000
        &&& self.memory_usage_ratio matches Some(v) ==> v <= 1_000_000
        &&& self.memory_compressed_ratio matches Some(v) ==> v <= 1_000_000
        &&& self.network_dropped_packets_ratio matches Some(v) ==> v <= 1_000_000
        &&& self.fd_usage_ratio matches Some(v) ==> v <= 1_000_000
        &&& self.process_count_ratio matches Some(v) ==> v <= 2_000_000
    }
}

/// The number of one `vm_stat` line: its last token with trailing dots
/// removed, read as a number.
pub open spec fn spec_vm_stat_number(line: Seq<char>) -> Option<u64> {
    let t = spec_tokens(line);
    if t.len() == 0 {
        None
    } else {
        spec_parse_u64(spec_strip_trailing(t[t.len() - 1], '.'))
    }
}

/// Parse the number of one `vm_stat` line, matching `spec_vm_stat_number`;
/// a line without one is a parse error.
pub fn parse_vm_stat_number(line: &str) -> (r: PwrzvResult<u64>)
    ensures
        r matches Ok(v) ==> spec_vm_stat_number(line@) == Some(v),
        r is Err <==> spec_vm_stat_number(line@) is None,
        r matches Err(e) ==> e matches PwrzvError::ParseError { .. },
{
    let v = chars_of(line);
    match vm_stat_number_of(&v) {
        Some(value) => Ok(value),
        None => Err(PwrzvError::parse_error("vm_stat line holds no number")),
    }
}

/// `spec_vm_stat_number` on an already-scanned line.
fn vm_stat_number_of(line: &Vec<char>) -> (r: Option<u64>)
    ensures
        r == spec_vm_stat_number(line@),
{
    let toks = tokens_of(line);
    proof {
        lemma_deep_view_chars(&toks);
    }
    if toks.len() == 0 {
        return None;
    }
    let last = strip_trailing(&toks[toks.len() - 1], '.');
    parse_u64_chars(&last)
}

/// The page counters collected from `vm_stat` output, walked front to back
/// with the last value of each counter kept; a counter line whose number
/// does not parse aborts the walk.  The eight slots are active, inactive,
/// speculative, throttled, wired, purgeable, free and compressor pages.
pub open spec fn spec_vm_scan(
    ls: Seq<Seq<char>>,
    a: u64,
    ina: u64,
    sp: u64,
    th: u64,
    wr: u64,
    pu: u64,
    fr: u64,
    co: u64,
) -> Option<(u64, u64, u64, u64, u64, u64, u64, u64)>
    decreases ls.len(),
{
    if ls.len() == 0 {
        Some((a, ina, sp, th, wr, pu, fr, co))
    } else {
        let line = ls[0];
        let rest = ls.skip(1);
        if spec_contains(line, "Pages active:"@) {
            match spec_vm_stat_number(line) {
                None => None,
                Some(v) => spec_vm_scan(rest, v, ina, sp, th, wr, pu, fr, co),
            }
        } else if spec_contains(line, "Pages inactive:"@) {
            match spec_vm_stat_number(line) {
                None => None,
                Some(v) => spec_vm_scan(rest, a, v, sp, th, wr, pu, fr, co),
            }
        } else if spec_contains(line, "Pages speculative:"@) {
            match spec_vm_stat_number(line) {
                None => None,
                Some(v) => spec_vm_scan(rest, a, ina, v, th, wr, pu, fr, co),
            }
        } else if spec_contains(line, "Pages throttled:"@) {
            match spec_vm_stat_number(line) {
                None => None,
                Some(v) => spec_vm_scan(rest, a, ina, sp, v, wr, pu, fr, co),
            }
        } else if spec_contains(line, "Pages wired down:"@) {
            match spec_vm_stat_number(line) {
                None => None,
                Some(v) => spec_vm_scan(rest, a, ina, sp, th, v, pu, fr, co),
            }
        } else if spec_contains(line, "Pages purgeable:"@) {
            match spec_vm_stat_number(line) {
                None => None,
                Some(v) => spec_vm_scan(rest, a, ina, sp, th, wr, v, fr, co),
            }
        } else if spec_contains(line, "Pages free:"@) {
            match spec_vm_stat_number(line) {
                None => None,
                Some(v) => spec_vm_scan(rest, a, ina, sp, th, wr, pu, v, co),
            }
        } else if spec_contains(line, "Pages stored in compressor:"@) {
            match spec_vm_stat_number(line) {
                None => None,
                Some(v) => spec_vm_scan(rest, a, ina, sp, th, wr, pu, fr, v),
            }
        } else {
            spec_vm_scan(rest, a, ina, sp, th, wr, pu, fr, co)
        }
    }
}

/// The memory slots from the scanned page counters: used pages are the
/// active and wired ones, and both ratios are over the sum of all page
/// classes; both absent when that sum is zero.
pub open spec fn spec_memory_from_vm(s: Seq<char>) -> Option<(Option<u64>, Option<u64>)> {
    match spec_vm_scan(spec_lines(s), 0, 0, 0, 0, 0, 0, 0, 0) {
        None => None,
        Some((a, ina, sp, th, wr, pu, fr, co)) => {
            let total = a + ina + sp + th + wr + pu + fr;
            let used = a + wr;
            if total > 0 {
                Some(
                    (
                        Some(spec_min_int(spec_ratio_micro(used as int, total), 1_000_000) as u64),
                        Some(spec_min_int(spec_ratio_micro(co as int, total), 1_000_000) as u64),
                    ),
                )
            } else {
                Some((None, None))
            }
        },
    }
}

/// Memory usage and compression shares from `vm_stat` output, matching
/// `spec_memory_from_vm`; an unparseable counter line is a parse error.
#[verifier::loop_isolation(false)]
pub fn memory_metrics_from_vm_stat(output: &str) -> (r: PwrzvResult<(Option<u64>, Option<u64>)>)
    ensures
        r matches Ok(slots) ==> spec_memory_from_vm(output@) == Some(slots),
        r is Err <==> spec_memory_from_vm(output@) is None,
        r matches Err(e) ==> e matches PwrzvError::ParseError { .. },
        r matches Ok(slots) ==> (slots.0 matches Some(v) ==> v <= 1_000_000) && (
        slots.1 matches Some(w) ==> w <= 1_000_000),
{
    let v = chars_of(output);
    let lines = lines_of(&v);
    proof {
        lemma_deep_view_chars(&lines);
    }
    let ghost ls = spec_lines(v@);
    let n = lines.len();
    let mut a: u64 = 0;
    let mut ina: u64 = 0;
    let mut sp: u64 = 0;
    let mut th: u64 = 0;
    let mut wr: u64 = 0;
    let mut pu: u64 = 0;
    let mut fr: u64 = 0;
    let mut co: u64 = 0;
    let mut i: usize = 0;
    proof {
        assert(ls.skip(0) =~= ls);
    }
    while i < n
        invariant
            i <= n,
            spec_vm_scan(ls, 0, 0, 0, 0, 0, 0, 0, 0) == spec_vm_scan(
                ls.skip(i as int),
                a,
                ina,
                sp,
                th,
                wr,
                pu,
                fr,
                co,
            ),
        decreases n - i,
    {
        proof {
            assert(ls.skip(i as int)[0] == ls[i as int]);
            assert(ls.skip(i as int).skip(1) =~= ls.skip(i + 1));
        }
        let line = &lines[i];
        if contains_lit(line, "Pages active:") {
            match vm_stat_number_of(line) {
                Some(value) => {
                    a = value;
                },
                None => {
                    return Err(PwrzvError::parse_error("vm_stat line holds no number"));
                },
            }
        } else if contains_lit(line, "Pages inactive:") {
            match vm_stat_number_of(line) {
                Some(value) => {
                    ina = value;
                },
                None => {
                    return Err(PwrzvError::parse_error("vm_stat line holds no number"));
                },
            }
        } else if contains_lit(line, "Pages speculative:") {
            match vm_stat_number_of(line) {
                Some(value) => {
                    sp = value;
                },
                None => {
                    return Err(PwrzvError::parse_error("vm_stat line holds no number"));
                },
            }
        } else if contains_lit(line, "Pages throttled:") {
            match vm_stat_number_of(line) {
                Some(value) => {
                    th = value;
                },
                None => {
                    return Err(PwrzvError::parse_error("vm_stat line holds no number"));
                },
            }
        } else if contains_lit(line, "Pages wired down:") {
            match vm_stat_number_of(line) {
                Some(value) => {
                    wr = value;
                },
                None => {
                    return Err(PwrzvError::parse_error("vm_stat line holds no number"));
                },
            }
        } else if contains_lit(line, "Pages purgeable:") {
            match vm_stat_number_of(line) {
                Some(value) => {
                    pu = value;
                },
                None => {
                    return Err(PwrzvError::parse_error("vm_stat line holds no number"));
                },
            }
        } else if contains_lit(line, "Pages free:") {
            match vm_stat_number_of(line) {
                Some(value) => {
                    fr = value;
                },
                None => {
                    return Err(PwrzvError::parse_error("vm_stat line holds no number"));
                },
            }
        } else if contains_lit(line, "Pages stored in compressor:") {
            match vm_stat_number_of(line) {
                Some(value) => {
                    co = value;
                },
                None => {
                    return Err(PwrzvError::parse_error("vm_stat line holds no number"));
                },
            }
        }
        i = i + 1;
    }
    proof {
        assert(ls.skip(n as int).len() == 0);
    }
    let total: u128 = a as u128 + ina as u128 + sp as u128 + th as u128 + wr as u128 + pu as u128
        + fr as u128;
    let used: u128 = a as u128 + wr as u128;
    if total > 0 {
        let usage = ratio_capped_wide(used, total, 1_000_000);
        let compressed = ratio_capped_wide(co as u128, total, 1_000_000);
        Ok((Some(usage), Some(compressed)))
    } else {
        Ok((None, None))
    }
}

/// Walk `netstat -i -b` rows, summing packet and error counters over the
/// active non-loopback interfaces; the sums saturate at the machine word.
/// A row counts when it has at least ten columns, is not the header, not
/// the loopback interface, and not an inactive interface (a name ending in
/// an asterisk).
pub open spec fn spec_netstat_scan(ls: Seq<Seq<char>>, packets: int, dropped: int) -> (int, int)
    decreases ls.len(),
{
    if ls.len() == 0 {
        (packets, dropped)
    } else {
        let t = spec_tokens(ls[0]);
        let rest = ls.skip(1);
        if t.len() >= 10 && !spec_starts_with(t[0], "Name"@) && t[0] != "lo0"@ && !(t[0].len() > 0
            && t[0].last() == '*') {
            let pin = spec_u64_or_zero_mac(t[4]);
            let pout = spec_u64_or_zero_mac(t[7]);
            if pin > 0 || pout > 0 {
                let ein = spec_u64_or_zero_mac(t[5]);
                let eout = spec_u64_or_zero_mac(t[8]);
                spec_netstat_scan(
                    rest,
                    spec_sat_add_u64(packets, spec_sat_add_u64(pin as int, pout as int)),
                    spec_sat_add_u64(dropped, spec_sat_add_u64(ein as int, eout as int)),
                )
            } else {
                spec_netstat_scan(rest, packets, dropped)
            }
        } else {
            spec_netstat_scan(rest, packets, dropped)
        }
    }
}

/// A token's number, or zero when it is not one.
pub open spec fn spec_u64_or_zero_mac(t: Seq<char>) -> u64 {
    match spec_parse_u64(t) {
        Some(v) => v,
        None => 0u64,
    }
}

/// The dropped-packet share of `netstat -i -b` output: errors over packets
/// across interfaces with traffic, capped at `1.0`; absent when no traffic
/// was seen.
pub open spec fn spec_netstat_dropped(s: Seq<char>) -> Option<u64> {
    let t = spec_netstat_scan(spec_lines(s), 0, 0);
    if t.0 > 0 {
        Some(spec_min_int(spec_ratio_micro(t.1, t.0), 1_000_000) as u64)
    } else {
        None
    }
}

/// The dropped-packet share of `netstat` output, matching
/// `spec_netstat_dropped`; at most `1.0`.
#[verifier::loop_isolation(false)]
pub fn network_dropped_from_netstat(output: &str) -> (r: Option<u64>)
    ensures
        r == spec_netstat_dropped(output@),
        r matches Some(v) ==> v <= 1_000_000,
{
    let v = chars_of(output);
    let lines = lines_of(&v);
    proof {
        lemma_deep_view_chars(&lines);
    }
    let ghost ls = spec_lines(v@);
    let n = lines.len();
    let mut packets: u64 = 0;
    let mut dropped: u64 = 0;
    let mut i: usize = 0;
    proof {
        assert(ls.skip(0) =~= ls);
    }
    while i < n
        invariant
            i <= n,
            spec_netstat_scan(ls, 0, 0) == spec_netstat_scan(
                ls.skip(i as int),
                packets as int,
                dropped as int,
            ),
        decreases n - i,
    {
        proof {
            assert(ls.skip(i as int)[0] == ls[i as int]);
            assert(ls.skip(i as int).skip(1) =~= ls.skip(i + 1));
        }
        let toks = tokens_of(&lines[i]);
        proof {
            lemma_deep_view_chars(&toks);
        }
        if toks.len() >= 10 && !starts_with_lit(&toks[0], "Name") && !eq_lit(&toks[0], "lo0") {
            let name = &toks[0];
            let inactive = name.len() > 0 && name[name.len() - 1] == '*';
            proof {
                if name@.len() > 0 {
                    assert(name@.last() == name@[name@.len() - 1]);
                }
            }
            if !inactive {
                let pin = u64_or_zero_mac(&toks[4]);
                let pout = u64_or_zero_mac(&toks[7]);
                if pin > 0 || pout > 0 {
                    let ein = u64_or_zero_mac(&toks[5]);
                    let eout = u64_or_zero_mac(&toks[8]);
                    packets = sat_add_u64(packets, sat_add_u64(pin, pout));
                    dropped = sat_add_u64(dropped, sat_add_u64(ein, eout));
                }
            }
        }
        i = i + 1;
    }
    proof {
        assert(ls.skip(n as int).len() == 0);
    }
    if packets > 0 {
        Some(ratio_capped_wide(dropped as u128, packets as u128, 1_000_000))
    } else {
        None
    }
}

/// `spec_u64_or_zero_mac` on a scanned token.
fn u64_or_zero_mac(t: &Vec<char>) -> (r: u64)
    ensures
        r == spec_u64_or_zero_mac(t@),
{
    match parse_u64_chars(t) {
        Some(v) => v,
        None => 0,
    }
}

/// The value of a `sysctl key: value` line: the text after the first
/// colon, trimmed, read as a number that fits the kernel's 32-bit word.
pub open spec fn spec_sysctl_value(s: Seq<char>) -> Option<u64> {
    let k = spec_find_char(s, ':');
    if k == s.len() {
        None
    } else {
        match spec_parse_u64(spec_trim(s.skip(k + 1))) {
            Some(v) => if v <= u32::MAX as u64 {
                Some(v)
            } else {
                None
            },
            None => None,
        }
    }
}

/// Parse a `sysctl` value, matching `spec_sysctl_value`.
pub fn parse_sysctl_value(s: &str) -> (r: Option<u64>)
    ensures
        r == spec_sysctl_value(s@),
{
    let v = chars_of(s);
    sysctl_value_of(&v)
}

/// `spec_sysctl_value` on an already-scanned line.
fn sysctl_value_of(v: &Vec<char>) -> (r: Option<u64>)
    ensures
        r == spec_sysctl_value(v@),
{
    let n = v.len();
    let k = find_char_from(v, ':', 0);
    proof {
        assert(v@.skip(0) =~= v@);
    }
    if k == n {
        return None;
    }
    let after = subvec(v, k + 1, n);
    proof {
        assert(after@ =~= v@.skip(k as int + 1));
    }
    let trimmed = trim_of(&after);
    match parse_u64_chars(&trimmed) {
        Some(value) => {
            if value <= 0xffff_ffff {
                Some(value)
            } else {
                None
            }
        },
        None => None,
    }
}

/// The file-descriptor and process-count slots from the four resource
/// sources.  Both need the process listing; the descriptor share also needs
/// the descriptor limit and the `lsof` listing, the process share also
/// needs the process limit.  A zero limit saturates the share at its cap:
/// the resource reads as fully used when no capacity was reported.
pub open spec fn spec_resource_slots(
    ps: Option<Seq<char>>,
    maxproc: Option<Seq<char>>,
    maxfiles: Option<Seq<char>>,
    lsof: Option<Seq<char>>,
) -> (Option<u64>, Option<u64>) {
    match ps {
        None => (None, None),
        Some(ps_text) => {
            let count = spec_lines(ps_text).len() as int;
            let procs = if count > 0 {
                count - 1
            } else {
                0int
            };
            let fd = match (maxfiles, lsof) {
                (Some(mf), Some(lf)) => match spec_sysctl_value(mf) {
                    Some(limit) => {
                        let lcount = spec_lines(lf).len() as int;
                        let actual = if lcount > 0 {
                            lcount - 1
                        } else {
                            0int
                        };
                        if limit == 0 {
                            Some(1_000_000u64)
                        } else {
                            Some(
                                spec_min_int(
                                    spec_ratio_micro(actual, limit as int),
                                    1_000_000,
                                ) as u64,
                            )
                        }
                    },
                    None => None,
                },
                _ => None,
            };
            let pr = match maxproc {
                Some(mp) => match spec_sysctl_value(mp) {
                    Some(limit) => if limit == 0 {
                        Some(2_000_000u64)
                    } else {
                        Some(spec_min_int(spec_ratio_micro(procs, limit as int), 2_000_000) as u64)
                    },
                    None => None,
                },
                None => None,
            };
            (fd, pr)
        },
    }
}

/// File-descriptor and process-count shares from their four sources,
/// matching `spec_resource_slots`.
pub fn get_system_resource_metrics_consolidated(
    ps: Option<&str>,
    maxproc: Option<&str>,
    maxfiles: Option<&str>,
    lsof: Option<&str>,
) -> (r: (Option<u64>, Option<u64>))
    ensures
        r == spec_resource_slots(
            spec_mac_text_of(ps),
            spec_mac_text_of(maxproc),
            spec_mac_text_of(maxfiles),
            spec_mac_text_of(lsof),
        ),
        r.0 matches Some(v) ==> v <= 1_000_000,
        r.1 matches Some(v) ==> v <= 2_000_000,
{
    match ps {
        None => (None, None),
        Some(ps_text) => {
            let procs = line_count_less_header(ps_text);
            let fd: Option<u64> = match (maxfiles, lsof) {
                (Some(mf), Some(lf)) => {
                    match parse_sysctl_value(mf) {
                        Some(limit) => {
                            let actual = line_count_less_header(lf);
                            if limit == 0 {
                                Some(1_000_000)
                            } else {
                                Some(ratio_capped_wide(actual as u128, limit as u128, 1_000_000))
                            }
                        },
                        None => None,
                    }
                },
                _ => None,
            };
            let pr: Option<u64> = match maxproc {
                Some(mp) => {
                    match parse_sysctl_value(mp) {
                        Some(limit) => {
                            if limit == 0 {
                                Some(2_000_000)
                            } else {
                                Some(ratio_capped_wide(procs as u128, limit as u128, 2_000_000))
                            }
                        },
                        None => None,
                    }
                },
                None => None,
            };
            (fd, pr)
        },
    }
}

/// View of an optional source text.
pub open spec fn spec_mac_text_of(o: Option<&str>) -> Option<Seq<char>> {
    match o {
        Some(t) => Some(t@),
        None => None,
    }
}

/// The line count of a listing less its header line.
fn line_count_less_header(s: &str) -> (r: usize)
    ensures
        r as int == if spec_lines(s@).len() > 0 {
            spec_lines(s@).len() - 1
        } else {
            0int
        },
{
    let v = chars_of(s);
    let lines = lines_of(&v);
    proof {
        lemma_deep_view_chars(&lines);
    }
    if lines.len() > 0 {
        lines.len() - 1
    } else {
        0
    }
}


/// One pass over the comma-separated pieces of the `CPU usage:` line of
/// `top` output, collecting the user and system percentages.  In each
/// trimmed piece naming `% user` or `% sys`, the last token before the
/// first percent sign is read as a number, an unreadable one counting as
/// zero.
pub open spec fn spec_top_scan(parts: Seq<Seq<char>>, user: i64, sys: i64) -> (i64, i64)
    decreases parts.len(),
{
    if parts.len() == 0 {
        (user, sys)
    } else {
        let p = spec_trim(parts[0]);
        let rest = parts.skip(1);
        if spec_contains(p, "% user"@) {
            spec_top_scan(rest, spec_pct_of(p, user), sys)
        } else if spec_contains(p, "% sys"@) {
            spec_top_scan(rest, user, spec_pct_of(p, sys))
        } else {
            spec_top_scan(rest, user, sys)
        }
    }
}

/// The percentage read from one piece: the last token before the first
/// percent sign, keeping the previous value when there is no token and
/// zero when the token is not a number.
pub open spec fn spec_pct_of(p: Seq<char>, prev: i64) -> i64 {
    let pre = p.take(spec_find_char(p, '%'));
    let tk = spec_tokens(pre);
    if tk.len() == 0 {
        prev
    } else {
        match spec_parse_micro(tk[tk.len() - 1]) {
            Some(v) => v,
            None => 0i64,
        }
    }
}

/// The CPU busy share of one `CPU usage:` line: user plus system
/// percentages over one hundred, clamped into `[0, 1]`.
pub open spec fn spec_top_cpu_of_line(line: Seq<char>) -> u64 {
    let t = spec_top_scan(spec_split_char(line, ','), 0, 0);
    let total = t.0 as int + t.1 as int;
    if total < 0 {
        0u64
    } else {
        spec_min_int(total / 100, 1_000_000) as u64
    }
}

/// The CPU busy share of `top` output: taken from the first line naming
/// `CPU usage:`, absent when no line does.
pub open spec fn spec_parse_top_cpu(ls: Seq<Seq<char>>) -> Option<u64>
    decreases ls.len(),
{
    if ls.len() == 0 {
        None
    } else if spec_contains(ls[0], "CPU usage:"@) {
        Some(spec_top_cpu_of_line(ls[0]))
    } else {
        spec_parse_top_cpu(ls.skip(1))
    }
}

/// The CPU busy share of `top` output, matching `spec_parse_top_cpu`; at
/// most `1.0`.
#[verifier::loop_isolation(false)]
pub fn parse_top_cpu_usage(output: &str) -> (r: Option<u64>)
    ensures
        r == spec_parse_top_cpu(spec_lines(output@)),
        r matches Some(v) ==> v <= 1_000_000,
{
    let v = chars_of(output);
    let lines = lines_of(&v);
    proof {
        lemma_deep_view_chars(&lines);
    }
    let ghost ls = spec_lines(v@);
    let n = lines.len();
    let mut i: usize = 0;
    proof {
        assert(ls.skip(0) =~= ls);
    }
    while i < n
        invariant
            i <= n,
            spec_parse_top_cpu(ls) == spec_parse_top_cpu(ls.skip(i as int)),
        decreases n - i,
    {
        proof {
            assert(ls.skip(i as int)[0] == ls[i as int]);
            assert(ls.skip(i as int).skip(1) =~= ls.skip(i + 1));
        }
        if contains_lit(&lines[i], "CPU usage:") {
            let parts = split_char(&lines[i], ',');
            proof {
                lemma_deep_view_chars(&parts);
            }
            let ghost pv = spec_split_char(ls[i as int], ',');
            let m = parts.len();
            let mut user: i64 = 0;
            let mut sys: i64 = 0;
            let mut j: usize = 0;
            proof {
                assert(pv.skip(0) =~= pv);
            }
            while j < m
                invariant
                    j <= m,
                    spec_top_scan(pv, 0, 0) == spec_top_scan(pv.skip(j as int), user, sys),
                decreases m - j,
            {
                proof {
                    assert(pv.skip(j as int)[0] == pv[j as int]);
                    assert(pv.skip(j as int).skip(1) =~= pv.skip(j + 1));
                }
                let piece = trim_of(&parts[j]);
                if contains_lit(&piece, "% user") {
                    user = pct_of(&piece, user);
                } else if contains_lit(&piece, "% sys") {
                    sys = pct_of(&piece, sys);
                }
                j = j + 1;
            }
            proof {
                assert(pv.skip(m as int).len() == 0);
            }
            let total: i128 = user as i128 + sys as i128;
            if total < 0 {
                return Some(0);
            }
            let scaled: i128 = total / 100;
            if scaled > 1_000_000 {
                return Some(1_000_000);
            }
            return Some(scaled as u64);
        }
        i = i + 1;
    }
    proof {
        assert(ls.skip(n as int).len() == 0);
    }
    None
}

/// `spec_pct_of` on a scanned piece.
pub fn pct_of(p: &Vec<char>, prev: i64) -> (r: i64)
    ensures
        r == spec_pct_of(p@, prev),
{
    let k = find_char_from(p, '%', 0);
    proof {
        assert(p@.skip(0) =~= p@);
    }
    let pre = subvec(p, 0, k);
    proof {
        assert(pre@ =~= p@.take(spec_find_char(p@, '%')));
    }
    let tk = tokens_of(&pre);
    proof {
        lemma_deep_view_chars(&tk);
    }
    if tk.len() == 0 {
        return prev;
    }
    match parse_micro_chars(&tk[tk.len() - 1]) {
        Some(v) => v,
        None => 0,
    }
}

/// The load piece of a `vm.loadavg: { 1.23 2.34 3.45 }` line: the first
/// number between the braces, clamped below at zero, quartered and capped
/// at `2.0`; absent when the braces or the number are missing or out of
/// order.
pub open spec fn spec_mac_load_avg(line: Seq<char>) -> Option<u64> {
    let k1 = spec_find_char(line, '{');
    let k2 = spec_find_char(line, '}');
    if k1 == line.len() || k2 == line.len() || k2 < k1 + 1 {
        None
    } else {
        let tk = spec_tokens(line.subrange(k1 + 1, k2));
        if tk.len() == 0 {
            None
        } else {
            match spec_parse_micro(tk[0]) {
                Some(v) => {
                    let nonneg = if v < 0 {
                        0int
                    } else {
                        v as int
                    };
                    Some(spec_min_int(nonneg / 4, 2_000_000) as u64)
                },
                None => None,
            }
        }
    }
}

/// Parse the quartered one-minute load, matching `spec_mac_load_avg`.
pub fn parse_load_average(line: &str) -> (r: Option<u64>)
    ensures
        r == spec_mac_load_avg(line@),
        r matches Some(v) ==> v <= 2_000_000,
{
    let v = chars_of(line);
    mac_load_avg_of(&v)
}

/// `spec_mac_load_avg` on an already-scanned line.
fn mac_load_avg_of(v: &Vec<char>) -> (r: Option<u64>)
    ensures
        r == spec_mac_load_avg(v@),
        r matches Some(x) ==> x <= 2_000_000,
{
    let n = v.len();
    let k1 = find_char_from(v, '{', 0);
    let k2 = find_char_from(v, '}', 0);
    proof {
        assert(v@.skip(0) =~= v@);
    }
    if k1 == n || k2 == n || k2 < k1 + 1 {
        return None;
    }
    let inner = subvec(v, k1 + 1, k2);
    let tk = tokens_of(&inner);
    proof {
        lemma_deep_view_chars(&tk);
    }
    if tk.len() == 0 {
        return None;
    }
    match parse_micro_chars(&tk[0]) {
        Some(value) => {
            let nonneg: u64 = if value < 0 {
                0
            } else {
                value as u64
            };
            let q = nonneg / 4;
            if q > 2_000_000 {
                Some(2_000_000)
            } else {
                Some(q)
            }
        },
        None => None,
    }
}

/// The core count of a `hw.ncpu: 8` line: the number after the colon.
pub open spec fn spec_core_count(line: Seq<char>) -> Option<u64> {
    spec_sysctl_value(line)
}

/// Parse the core count, matching `spec_core_count`.
pub fn parse_cpu_core_count(line: &str) -> (r: Option<u64>)
    ensures
        r == spec_core_count(line@),
{
    parse_sysctl_value(line)
}

/// Walk `sysctl vm.loadavg hw.ncpu` output, keeping the last load and core
/// readings: a trimmed line starting with `vm.loadavg:` sets the load, one
/// starting with `hw.ncpu:` sets the core count.
pub open spec fn spec_sysctl_scan(
    ls: Seq<Seq<char>>,
    load: Option<u64>,
    cores: Option<u64>,
) -> (Option<u64>, Option<u64>)
    decreases ls.len(),
{
    if ls.len() == 0 {
        (load, cores)
    } else {
        let t = spec_trim(ls[0]);
        let rest = ls.skip(1);
        if spec_starts_with(t, "vm.loadavg:"@) {
            spec_sysctl_scan(rest, spec_mac_load_avg(t), cores)
        } else if spec_starts_with(t, "hw.ncpu:"@) {
            spec_sysctl_scan(rest, load, spec_core_count(t))
        } else {
            spec_sysctl_scan(rest, load, cores)
        }
    }
}

/// The per-core load from `sysctl` output: the quartered load restored to
/// full scale and divided by the core count, capped at `2.0`; a zero core
/// reading saturates at the cap; absent unless both readings are present.
pub open spec fn spec_sysctl_load_ratio(s: Seq<char>) -> Option<u64> {
    let t = spec_sysctl_scan(spec_lines(s), None, None);
    match (t.0, t.1) {
        (Some(load), Some(cores)) => {
            let actual = load as int * 4;
            if cores == 0 {
                Some(2_000_000u64)
            } else {
                Some(spec_min_int(actual / cores as int, 2_000_000) as u64)
            }
        },
        _ => None,
    }
}

/// The per-core load from `sysctl` output, matching
/// `spec_sysctl_load_ratio`; at most `2.0`.
#[verifier::loop_isolation(false)]
pub fn parse_sysctl_load_and_cores(output: &str) -> (r: Option<u64>)
    ensures
        r == spec_sysctl_load_ratio(output@),
        r matches Some(v) ==> v <= 2_000_000,
{
    let v = chars_of(output);
    let lines = lines_of(&v);
    proof {
        lemma_deep_view_chars(&lines);
    }
    let ghost ls = spec_lines(v@);
    let n = lines.len();
    let mut load: Option<u64> = None;
    let mut cores: Option<u64> = None;
    let mut i: usize = 0;
    proof {
        assert(ls.skip(0) =~= ls);
    }
    while i < n
        invariant
            i <= n,
            spec_sysctl_scan(ls, None, None) == spec_sysctl_scan(ls.skip(i as int), load, cores),
            load matches Some(x) ==> x <= 2_000_000,
        decreases n - i,
    {
        proof {
            assert(ls.skip(i as int)[0] == ls[i as int]);
            assert(ls.skip(i as int).skip(1) =~= ls.skip(i + 1));
        }
        let t = trim_of(&lines[i]);
        if starts_with_lit(&t, "vm.loadavg:") {
            load = mac_load_avg_of(&t);
        } else if starts_with_lit(&t, "hw.ncpu:") {
            cores = sysctl_value_of(&t);
        }
        i = i + 1;
    }
    proof {
        assert(ls.skip(n as int).len() == 0);
    }
    match (load, cores) {
        (Some(load), Some(cores)) => {
            if cores == 0 {
                Some(2_000_000)
            } else {
                let actual: u64 = load * 4;
                let q = actual / cores;
                if q > 2_000_000 {
                    Some(2_000_000)
                } else {
                    Some(q)
                }
            }
        },
        _ => None,
    }
}

/// The CPU slots from `top` and `sysctl` output.
pub open spec fn spec_mac_cpu_slots(
    top: Option<Seq<char>>,
    sysctl: Option<Seq<char>>,
) -> (Option<u64>, Option<u64>) {
    let usage = match top {
        Some(t) => spec_parse_top_cpu(spec_lines(t)),
        None => None,
    };
    let load = match sysctl {
        Some(t) => spec_sysctl_load_ratio(t),
        None => None,
    };
    (usage, load)
}

/// CPU busy share and per-core load from `top` and `sysctl` output,
/// matching `spec_mac_cpu_slots`.
pub fn get_cpu_metrics_consolidated(top: Option<&str>, sysctl: Option<&str>) -> (r: (
    Option<u64>,
    Option<u64>,
))
    ensures
        r == spec_mac_cpu_slots(spec_mac_text_of(top), spec_mac_text_of(sysctl)),
        r.0 matches Some(v) ==> v <= 1_000_000,
        r.1 matches Some(v) ==> v <= 2_000_000,
{
    let usage = match top {
        Some(t) => parse_top_cpu_usage(t),
        None => None,
    };
    let load = match sysctl {
        Some(t) => parse_sysctl_load_and_cores(t),
        None => None,
    };
    (usage, load)
}

/// The memory slots, lenient about a failing `vm_stat` parse: a parse
/// error degrades both slots to absent.
pub open spec fn spec_mac_memory_slots(vm_stat: Option<Seq<char>>) -> (Option<u64>, Option<u64>) {
    match vm_stat {
        Some(t) => match spec_memory_from_vm(t) {
            Some(slots) => slots,
            None => (None, None),
        },
        None => (None, None),
    }
}

/// Memory usage and compression from `vm_stat` output, matching
/// `spec_mac_memory_slots`.
pub fn get_memory_metrics_consolidated(vm_stat: Option<&str>) -> (r: (Option<u64>, Option<u64>))
    ensures
        r == spec_mac_memory_slots(spec_mac_text_of(vm_stat)),
        r.0 matches Some(v) ==> v <= 1_000_000,
        r.1 matches Some(v) ==> v <= 1_000_000,
{
    match vm_stat {
        Some(t) => match memory_metrics_from_vm_stat(t) {
            Ok(slots) => slots,
            Err(_) => (None, None),
        },
        None => (None, None),
    }
}

/// The network slot.
pub open spec fn spec_mac_network_slot(netstat: Option<Seq<char>>) -> Option<u64> {
    match netstat {
        Some(t) => spec_netstat_dropped(t),
        None => None,
    }
}

/// The dropped-packet share from `netstat` output, matching
/// `spec_mac_network_slot`.
pub fn get_network_metrics_consolidated(netstat: Option<&str>) -> (r: Option<u64>)
    ensures
        r == spec_mac_network_slot(spec_mac_text_of(netstat)),
        r matches Some(v) ==> v <= 1_000_000,
{
    match netstat {
        Some(t) => network_dropped_from_netstat(t),
        None => None,
    }
}

/// The whole macOS snapshot as a function of the source texts, each slot
/// depending only on its own sources.
pub open spec fn spec_mac_collect(
    top: Option<Seq<char>>,
    sysctl: Option<Seq<char>>,
    vm_stat: Option<Seq<char>>,
    netstat: Option<Seq<char>>,
    ps: Option<Seq<char>>,
    maxproc: Option<Seq<char>>,
    maxfiles: Option<Seq<char>>,
    lsof: Option<Seq<char>>,
) -> MacSystemMetrics {
    let cpu = spec_mac_cpu_slots(top, sysctl);
    let mem = spec_mac_memory_slots(vm_stat);
    let res = spec_resource_slots(ps, maxproc, maxfiles, lsof);
    MacSystemMetrics {
        cpu_usage_ratio: cpu.0,
        cpu_load_ratio: cpu.1,
        memory_usage_ratio: mem.0,
        memory_compressed_ratio: mem.1,
        network_dropped_packets_ratio: spec_mac_network_slot(netstat),
        fd_usage_ratio: res.0,
        process_count_ratio: res.1,
    }
}

impl MacSystemMetrics {
    /// Assemble a snapshot from the command output the caller managed to
    /// gather; absent sources degrade only their own slots, and the result
    /// satisfies the snapshot's domain invariant.
    pub fn collect_system_metrics(
        top: Option<&str>,
        sysctl: Option<&str>,
        vm_stat: Option<&str>,
        netstat: Option<&str>,
        ps: Option<&str>,
        maxproc: Option<&str>,
        maxfiles: Option<&str>,
        lsof: Option<&str>,
    ) -> (r: MacSystemMetrics)
        ensures
            r == spec_mac_collect(
                spec_mac_text_of(top),
                spec_mac_text_of(sysctl),
                spec_mac_text_of(vm_stat),
                spec_mac_text_of(netstat),
                spec_mac_text_of(ps),
                spec_mac_text_of(maxproc),
                spec_mac_text_of(maxfiles),
                spec_mac_text_of(lsof),
            ),
            r.wf(),
    {
        let (cpu_usage_ratio, cpu_load_ratio) = get_cpu_metrics_consolidated(top, sysctl);
        let (memory_usage_ratio, memory_compressed_ratio) = get_memory_metrics_consolidated(
            vm_stat,
        );
        let network_dropped_packets_ratio = get_network_metrics_consolidated(netstat);
        let (fd_usage_ratio, process_count_ratio) = get_system_resource_metrics_consolidated(
            ps,
            maxproc,
            maxfiles,
            lsof,
        );
        MacSystemMetrics {
            cpu_usage_ratio,
            cpu_load_ratio,
            memory_usage_ratio,
            memory_compressed_ratio,
            network_dropped_packets_ratio,
            fd_usage_ratio,
            process_count_ratio,
        }
    }
}

} // verus!
