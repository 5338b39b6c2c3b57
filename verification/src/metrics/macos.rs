//! The macOS collector for the percentage-based record.
//!
//! These readers parse the older command formats this variant relies on:
//! `top` for CPU, `vm_stat` with `sysctl vm.swapusage` for memory,
//! `iostat -d` for disks, `netstat -I` for the network, and the two
//! descriptor counters of `sysctl`.

use vstd::prelude::*;
use crate::error::{PwrzvError, PwrzvResult};
use crate::macos::metrics::{pct_of, spec_pct_of};
use crate::ratio::{spec_min_int, spec_ratio_micro};
use crate::text::{
    chars_of, contains_lit, eq_lit, find_char_from, lemma_deep_view_chars, lines_of,
    parse_micro_chars, parse_u64_chars, sat_add_u64, spec_contains, spec_find_char, spec_lines,
    spec_parse_micro, spec_parse_u64, spec_sat_add_u64,
    spec_split_char, spec_starts_with, spec_strip_trailing, spec_tokens, spec_trim, split_char,
    starts_with_lit, strip_trailing, subvec, tokens_of, trim_of,
};

verus! {

/// macOS collector over command output.
#[derive(Debug, Clone, Copy, PartialEq, Eq, Structural)]
pub struct MacOSMetricsCollector;

/// An ASCII letter.
pub open spec fn spec_is_alpha(c: char) -> bool {
    (97 <= c as u32 <= 122) || (65 <= c as u32 <= 90)
}

/// `s` with trailing ASCII letters removed — the unit suffix of a memory
/// size.
pub open spec fn spec_strip_alpha_end(s: Seq<char>) -> Seq<char>
    decreases s.len(),
{
    if s.len() > 0 && spec_is_alpha(s.last()) {
        spec_strip_alpha_end(s.drop_last())
    } else {
        s
    }
}

/// The number of a memory size such as `1024.00M`: the text without its
/// unit suffix, read as a fixed-point number.
pub open spec fn spec_parse_memory_value(s: Seq<char>) -> Option<i64> {
    spec_parse_micro(spec_strip_alpha_end(s))
}

/// Parse a suffixed memory size, matching `spec_parse_memory_value`.
pub fn parse_memory_value(value_str: &str) -> (r: PwrzvResult<i64>)
    ensures
        r matches Ok(v) ==> spec_parse_memory_value(value_str@) == Some(v),
        r is Err <==> spec_parse_memory_value(value_str@) is None,
        r matches Err(e) ==> e matches PwrzvError::ParseError { .. },
{
    let v = chars_of(value_str);
    match memory_value_of(&v) {
        Some(value) => Ok(value),
        None => Err(PwrzvError::parse_error("Invalid memory value")),
    }
}

/// ASCII-letter test, matching `spec_is_alpha`.
fn is_alpha_char(c: char) -> (r: bool)
    ensures
        r == spec_is_alpha(c),
{
    let u = c as u32;
    (97 <= u && u <= 122) || (65 <= u && u <= 90)
}

/// `spec_parse_memory_value` on a scanned token.
fn memory_value_of(v: &Vec<char>) -> (r: Option<i64>)
    ensures
        r == spec_parse_memory_value(v@),
{
    let n = v.len();
    let mut b: usize = n;
    proof {
        assert(v@.take(n as int) =~= v@);
    }
    while b > 0 && is_alpha_char(v[b - 1])
        invariant
            b <= n,
            n == v@.len(),
            spec_strip_alpha_end(v@) == spec_strip_alpha_end(v@.take(b as int)),
        decreases b,
    {
        proof {
            assert(v@.take(b as int).last() == v@[b - 1]);
            assert(v@.take(b as int).drop_last() =~= v@.take(b - 1));
        }
        b = b - 1;
    }
    proof {
        let t = v@.take(b as int);
        if b > 0 {
            assert(t.last() == v@[b - 1]);
        }
        assert(spec_strip_alpha_end(t) == t);
    }
    let stripped = subvec(v, 0, b);
    parse_micro_chars(&stripped)
}

/// Walk the whitespace-separated pieces of `sysctl vm.swapusage` output,
/// keeping the last `total=` and `used=` sizes; a piece whose size does
/// not parse aborts the walk.
pub open spec fn spec_swap_scan(ts: Seq<Seq<char>>, total: i64, used: i64) -> Option<(i64, i64)>
    decreases ts.len(),
{
    if ts.len() == 0 {
        Some((total, used))
    } else {
        let t = ts[0];
        let rest = ts.skip(1);
        if spec_starts_with(t, "total="@) {
            match spec_parse_memory_value(t.skip(6)) {
                Some(v) => spec_swap_scan(rest, v, used),
                None => None,
            }
        } else if spec_starts_with(t, "used="@) {
            match spec_parse_memory_value(t.skip(5)) {
                Some(v) => spec_swap_scan(rest, total, v),
                None => None,
            }
        } else {
            spec_swap_scan(rest, total, used)
        }
    }
}

/// The swap-usage percentage of `sysctl vm.swapusage` output: used over
/// total, clamped into `[0, 100%]`; zero without a positive total.
pub open spec fn spec_read_swap_usage(s: Seq<char>) -> Option<i64> {
    match spec_swap_scan(spec_tokens(s), 0, 0) {
        None => None,
        Some((total, used)) => if total <= 0 {
            Some(0i64)
        } else {
            let u = if used < 0 {
                0int
            } else {
                used as int
            };
            Some(spec_min_int(spec_ratio_micro(u, total as int), 1_000_000) as i64)
        },
    }
}

/// Read the swap-usage percentage, matching `spec_read_swap_usage`.
#[verifier::loop_isolation(false)]
pub fn read_swap_usage_from_text(output: &str) -> (r: PwrzvResult<i64>)
    ensures
        r matches Ok(v) ==> spec_read_swap_usage(output@) == Some(v),
        r is Err <==> spec_read_swap_usage(output@) is None,
        r matches Ok(v) ==> 0 <= v <= 1_000_000,
{
    let v = chars_of(output);
    let toks = tokens_of(&v);
    proof {
        lemma_deep_view_chars(&toks);
    }
    let ghost ts = spec_tokens(v@);
    let n = toks.len();
    let mut total: i64 = 0;
    let mut used: i64 = 0;
    let mut i: usize = 0;
    proof {
        assert(ts.skip(0) =~= ts);
    }
    while i < n
        invariant
            i <= n,
            spec_swap_scan(ts, 0, 0) == spec_swap_scan(ts.skip(i as int), total, used),
        decreases n - i,
    {
        proof {
            assert(ts.skip(i as int)[0] == ts[i as int]);
            assert(ts.skip(i as int).skip(1) =~= ts.skip(i + 1));
        }
        let t = &toks[i];
        if starts_with_lit(t, "total=") {
            proof {
                reveal_strlit("total=");
            }
            let rest = subvec(t, 6, t.len());
            proof {
                assert(rest@ =~= ts[i as int].skip(6));
            }
            match memory_value_of(&rest) {
                Some(value) => {
                    total = value;
                },
                None => {
                    return Err(PwrzvError::parse_error("Invalid memory value"));
                },
            }
        } else if starts_with_lit(t, "used=") {
            proof {
                reveal_strlit("used=");
            }
            let rest = subvec(t, 5, t.len());
            proof {
                assert(rest@ =~= ts[i as int].skip(5));
            }
            match memory_value_of(&rest) {
                Some(value) => {
                    used = value;
                },
                None => {
                    return Err(PwrzvError::parse_error("Invalid memory value"));
                },
            }
        }
        i = i + 1;
    }
    proof {
        assert(ts.skip(n as int).len() == 0);
    }
    if total <= 0 {
        return Ok(0);
    }
    let u: i64 = if used < 0 {
        0
    } else {
        used
    };
    let q: u128 = (u as u128) * 1_000_000 / (total as u128);
    if q > 1_000_000 {
        Ok(1_000_000)
    } else {
        Ok(q as i64)
    }
}

/// One pass over the comma-separated pieces of the `CPU usage:` line,
/// collecting the user and system percentages; pieces are matched by the
/// bare words `user` and `sys`.
pub open spec fn spec_legacy_top_scan(parts: Seq<Seq<char>>, user: i64, sys: i64) -> (i64, i64)
    decreases parts.len(),
{
    if parts.len() == 0 {
        (user, sys)
    } else {
        let p = spec_trim(parts[0]);
        let rest = parts.skip(1);
        if spec_contains(p, "user"@) {
            spec_legacy_top_scan(rest, spec_pct_of(p, user), sys)
        } else if spec_contains(p, "sys"@) {
            spec_legacy_top_scan(rest, user, spec_pct_of(p, sys))
        } else {
            spec_legacy_top_scan(rest, user, sys)
        }
    }
}

/// The CPU percentages of one `CPU usage:` line: user plus system capped
/// at `100%` and clamped below at zero, with I/O wait approximated as a
/// quarter of the usage beyond eighty percent.
pub open spec fn spec_legacy_top_cpu(line: Seq<char>) -> (i64, i64) {
    let t = spec_legacy_top_scan(spec_split_char(line, ','), 0, 0);
    let sum = t.0 as int + t.1 as int;
    let usage = if sum < 0 {
        0int
    } else {
        spec_min_int(sum / 100, 1_000_000)
    };
    let iowait = if usage > 800_000 {
        (usage - 800_000) / 4
    } else {
        0int
    };
    (usage as i64, iowait as i64)
}

/// The CPU percentages from `top` output: from the first line starting
/// `CPU usage:`, or an idle reading when no line does.
pub open spec fn spec_read_top_cpu(ls: Seq<Seq<char>>) -> (i64, i64)
    decreases ls.len(),
{
    if ls.len() == 0 {
        (0i64, 0i64)
    } else if spec_starts_with(ls[0], "CPU usage:"@) {
        spec_legacy_top_cpu(ls[0])
    } else {
        spec_read_top_cpu(ls.skip(1))
    }
}

/// Read the CPU percentages from `top` output, matching
/// `spec_read_top_cpu`.
#[verifier::loop_isolation(false)]
pub fn read_cpu_stats_from_top(output: &str) -> (r: PwrzvResult<(i64, i64)>)
    ensures
        r matches Ok(v) && v == spec_read_top_cpu(spec_lines(output@)),
        r matches Ok(v) ==> 0 <= v.0 <= 1_000_000 && 0 <= v.1 <= 1_000_000,
{
    let v = chars_of(output);
    let lines = lines_of(&v);
    proof {
        lemma_deep_view_chars(&lines);
    }
    let ghost ls = spec_lines(v@);
    let n = lines.len();
    let mut i: usize = 0;
    proof {
        assert(ls.skip(0) =~= ls);
    }
    while i < n
        invariant
            i <= n,
            spec_read_top_cpu(ls) == spec_read_top_cpu(ls.skip(i as int)),
        decreases n - i,
    {
        proof {
            assert(ls.skip(i as int)[0] == ls[i as int]);
            assert(ls.skip(i as int).skip(1) =~= ls.skip(i + 1));
        }
        if starts_with_lit(&lines[i], "CPU usage:") {
            let parts = split_char(&lines[i], ',');
            proof {
                lemma_deep_view_chars(&parts);
            }
            let ghost pv = spec_split_char(ls[i as int], ',');
            let m = parts.len();
            let mut user: i64 = 0;
            let mut sys: i64 = 0;
            let mut j: usize = 0;
            proof {
                assert(pv.skip(0) =~= pv);
            }
            while j < m
                invariant
                    j <= m,
                    spec_legacy_top_scan(pv, 0, 0) == spec_legacy_top_scan(
                        pv.skip(j as int),
                        user,
                        sys,
                    ),
                decreases m - j,
            {
                proof {
                    assert(pv.skip(j as int)[0] == pv[j as int]);
                    assert(pv.skip(j as int).skip(1) =~= pv.skip(j + 1));
                }
                let piece = trim_of(&parts[j]);
                if contains_lit(&piece, "user") {
                    user = pct_of(&piece, user);
                } else if contains_lit(&piece, "sys") {
                    sys = pct_of(&piece, sys);
                }
                j = j + 1;
            }
            proof {
                assert(pv.skip(m as int).len() == 0);
            }
            let sum: i128 = user as i128 + sys as i128;
            let usage: i64 = if sum < 0 {
                0
            } else {
                let q: i128 = sum / 100;
                if q > 1_000_000 {
                    1_000_000
                } else {
                    q as i64
                }
            };
            let iowait: i64 = if usage > 800_000 {
                (usage - 800_000) / 4
            } else {
                0
            };
            return Ok((usage, iowait));
        }
        i = i + 1;
    }
    proof {
        assert(ls.skip(n as int).len() == 0);
    }
    Ok((0, 0))
}

/// Walk `iostat -d` output past its two header lines, summing the
/// utilization column of `disk` rows (each clamped into `[0, 100%]`) and
/// counting them.
pub open spec fn spec_iostat_d_scan(ls: Seq<Seq<char>>, total: int, count: int) -> (int, int)
    decreases ls.len(),
{
    if ls.len() == 0 {
        (total, count)
    } else {
        let t = spec_tokens(ls[0]);
        let rest = ls.skip(1);
        if t.len() >= 3 && spec_starts_with(t[0], "disk"@) {
            match spec_parse_micro(spec_strip_trailing(t[t.len() - 1], '%')) {
                Some(p) => {
                    let c = if p < 0 {
                        0int
                    } else if p > 100_000_000 {
                        100_000_000int
                    } else {
                        p as int
                    };
                    spec_iostat_d_scan(rest, total + c, count + 1)
                },
                None => spec_iostat_d_scan(rest, total, count),
            }
        } else {
            spec_iostat_d_scan(rest, total, count)
        }
    }
}

/// The disk percentage from `iostat -d` output: the mean clamped
/// utilization of the `disk` rows after the two header lines; zero with
/// fewer than three lines or no such row.
pub open spec fn spec_read_iostat_disk(s: Seq<char>) -> i64 {
    let ls = spec_lines(s);
    if ls.len() < 3 {
        0i64
    } else {
        let t = spec_iostat_d_scan(ls.skip(2), 0, 0);
        if t.1 == 0 {
            0i64
        } else {
            ((t.0 / t.1) / 100) as i64
        }
    }
}

/// Read the disk percentage from `iostat -d` output, matching
/// `spec_read_iostat_disk`.
#[verifier::loop_isolation(false)]
pub fn read_disk_stats_from_iostat(output: &str) -> (r: PwrzvResult<i64>)
    ensures
        r matches Ok(v) && v == spec_read_iostat_disk(output@),
        r matches Ok(v) ==> 0 <= v <= 1_000_000,
{
    let v = chars_of(output);
    let lines = lines_of(&v);
    proof {
        lemma_deep_view_chars(&lines);
    }
    let ghost ls = spec_lines(v@);
    let n = lines.len();
    if n < 3 {
        return Ok(0);
    }
    let mut total: u128 = 0;
    let mut count: usize = 0;
    let mut i: usize = 2;
    proof {
        assert(ls.skip(2) =~= ls.skip(2));
    }
    while i < n
        invariant
            2 <= i <= n,
            count <= i,
            total <= count as u128 * 100_000_000,
            spec_iostat_d_scan(ls.skip(2), 0, 0) == spec_iostat_d_scan(
                ls.skip(i as int),
                total as int,
                count as int,
            ),
        decreases n - i,
    {
        proof {
            assert(ls.skip(i as int)[0] == ls[i as int]);
            assert(ls.skip(i as int).skip(1) =~= ls.skip(i + 1));
            vstd::arithmetic::mul::lemma_mul_inequality(
                count as int,
                count as int + 1,
                100_000_000,
            );
        }
        let toks = tokens_of(&lines[i]);
        proof {
            lemma_deep_view_chars(&toks);
        }
        if toks.len() >= 3 && starts_with_lit(&toks[0], "disk") {
            let last = strip_trailing(&toks[toks.len() - 1], '%');
            match parse_micro_chars(&last) {
                Some(p) => {
                    let c: u64 = if p < 0 {
                        0
                    } else if p > 100_000_000 {
                        100_000_000
                    } else {
                        p as u64
                    };
                    total = total + c as u128;
                    count = count + 1;
                },
                None => {},
            }
        }
        i = i + 1;
    }
    proof {
        assert(ls.skip(n as int).len() == 0);
        if count > 0 {
            vstd::arithmetic::div_mod::lemma_div_is_ordered(
                total as int,
                count as int * 100_000_000,
                count as int,
            );
            vstd::arithmetic::div_mod::lemma_div_multiples_vanish(100_000_000, count as int);
            vstd::arithmetic::mul::lemma_mul_is_commutative(count as int, 100_000_000);
            vstd::arithmetic::div_mod::lemma_div_pos_is_pos(total as int, count as int);
        }
    }
    if count == 0 {
        return Ok(0);
    }
    let avg: u128 = total / count as u128;
    Ok((avg / 100) as i64)
}

/// Walk `netstat -I` output past its header line, summing received and
/// sent byte columns (saturating) where the received column parses and
/// the sent column, when there is one, parses too.
pub open spec fn spec_netstat_bytes_scan(ls: Seq<Seq<char>>, total: int) -> int
    decreases ls.len(),
{
    if ls.len() == 0 {
        total
    } else {
        let t = spec_tokens(ls[0]);
        let rest = ls.skip(1);
        if t.len() >= 7 {
            let ob = if t.len() > 9 {
                spec_parse_u64(t[9])
            } else {
                Some(0u64)
            };
            match (spec_parse_u64(t[6]), ob) {
                (Some(ib), Some(o)) => spec_netstat_bytes_scan(
                    rest,
                    spec_sat_add_u64(total, spec_sat_add_u64(ib as int, o as int)),
                ),
                _ => spec_netstat_bytes_scan(rest, total),
            }
        } else {
            spec_netstat_bytes_scan(rest, total)
        }
    }
}

/// The network percentage from `netstat -I` output: total bytes against a
/// nominal gigabit second, capped at `100%`.
pub open spec fn spec_read_netstat_bytes(s: Seq<char>) -> i64 {
    let ls = spec_lines(s);
    let body = if ls.len() >= 1 {
        ls.skip(1)
    } else {
        ls
    };
    spec_min_int(spec_netstat_bytes_scan(body, 0) / 12_500, 1_000_000) as i64
}

/// Read the network percentage from `netstat -I` output, matching
/// `spec_read_netstat_bytes`.
#[verifier::loop_isolation(false)]
pub fn read_network_stats_from_netstat(output: &str) -> (r: PwrzvResult<i64>)
    ensures
        r matches Ok(v) && v == spec_read_netstat_bytes(output@),
        r matches Ok(v) ==> 0 <= v <= 1_000_000,
{
    let v = chars_of(output);
    let lines = lines_of(&v);
    proof {
        lemma_deep_view_chars(&lines);
    }
    let ghost ls = spec_lines(v@);
    let n = lines.len();
    let mut total: u64 = 0;
    let mut i: usize = if n >= 1 {
        1
    } else {
        0
    };
    let ghost body = if ls.len() >= 1 {
        ls.skip(1)
    } else {
        ls
    };
    proof {
        assert(ls.skip(i as int) =~= body);
    }
    while i < n
        invariant
            i <= n,
            spec_netstat_bytes_scan(body, 0) == spec_netstat_bytes_scan(
                ls.skip(i as int),
                total as int,
            ),
        decreases n - i,
    {
        proof {
            assert(ls.skip(i as int)[0] == ls[i as int]);
            assert(ls.skip(i as int).skip(1) =~= ls.skip(i + 1));
        }
        let toks = tokens_of(&lines[i]);
        proof {
            lemma_deep_view_chars(&toks);
        }
        if toks.len() >= 7 {
            let ib = parse_u64_chars(&toks[6]);
            let ob: Option<u64> = if toks.len() > 9 {
                parse_u64_chars(&toks[9])
            } else {
                Some(0)
            };
            match (ib, ob) {
                (Some(ib), Some(ob)) => {
                    total = sat_add_u64(total, sat_add_u64(ib, ob));
                },
                _ => {},
            }
        }
        i = i + 1;
    }
    proof {
        assert(ls.skip(n as int).len() == 0);
    }
    let scaled: u64 = total / 12_500;
    if scaled > 1_000_000 {
        Ok(1_000_000)
    } else {
        Ok(scaled as i64)
    }
}

/// The file-descriptor percentage from the two `sysctl` counters: open
/// files over the per-process limit, clamped into `[0, 100%]`; zero
/// without a positive limit.
pub open spec fn spec_read_sysctl_fd(maxfiles: Seq<char>, openfiles: Seq<char>) -> Option<i64> {
    match (
        spec_parse_micro(spec_trim(maxfiles)),
        spec_parse_micro(spec_trim(openfiles)),
    ) {
        (Some(mx), Some(used)) => if mx <= 0 {
            Some(0i64)
        } else {
            let u = if used < 0 {
                0int
            } else {
                used as int
            };
            Some(spec_min_int(spec_ratio_micro(u, mx as int), 1_000_000) as i64)
        },
        _ => None,
    }
}

/// Read the file-descriptor percentage from the two `sysctl` counters,
/// matching `spec_read_sysctl_fd`.
pub fn read_fd_stats_from_sysctl(maxfiles: &str, openfiles: &str) -> (r: PwrzvResult<i64>)
    ensures
        r matches Ok(v) ==> spec_read_sysctl_fd(maxfiles@, openfiles@) == Some(v),
        r is Err <==> spec_read_sysctl_fd(maxfiles@, openfiles@) is None,
        r matches Ok(v) ==> 0 <= v <= 1_000_000,
{
    let mv = chars_of(maxfiles);
    let mt = trim_of(&mv);
    let mx = parse_micro_chars(&mt);
    let uv = chars_of(openfiles);
    let ut = trim_of(&uv);
    let used = parse_micro_chars(&ut);
    match (mx, used) {
        (Some(mx), Some(used)) => {
            if mx <= 0 {
                return Ok(0);
            }
            let u: i64 = if used < 0 {
                0
            } else {
                used
            };
            let q: u128 = (u as u128) * 1_000_000 / (mx as u128);
            if q > 1_000_000 {
                Ok(1_000_000)
            } else {
                Ok(q as i64)
            }
        },
        _ => Err(PwrzvError::parse_error("Invalid file descriptor counter")),
    }
}


/// One `vm_stat` counter line split at its first colon: the trimmed key
/// and the value with surrounding whitespace and trailing dots removed,
/// read as a number; nothing when there is no colon or no number.
pub open spec fn spec_vm_line(line: Seq<char>) -> Option<(Seq<char>, u64)> {
    let k = spec_find_char(line, ':');
    if k == line.len() {
        None
    } else {
        let key = spec_trim(line.take(k));
        let value = spec_strip_trailing(spec_trim(line.skip(k + 1)), '.');
        match spec_parse_u64(value) {
            Some(v) => Some((key, v)),
            None => None,
        }
    }
}

/// Walk `vm_stat` lines, keeping the last value of each of the six page
/// counters this reader uses; a line that does not parse is skipped.
pub open spec fn spec_legacy_vm_scan(
    ls: Seq<Seq<char>>,
    fr: u64,
    ina: u64,
    sp: u64,
    wr: u64,
    a: u64,
    co: u64,
) -> (u64, u64, u64, u64, u64, u64)
    decreases ls.len(),
{
    if ls.len() == 0 {
        (fr, ina, sp, wr, a, co)
    } else {
        let rest = ls.skip(1);
        match spec_vm_line(ls[0]) {
            None => spec_legacy_vm_scan(rest, fr, ina, sp, wr, a, co),
            Some((key, v)) => {
                if key == "Pages free"@ {
                    spec_legacy_vm_scan(rest, v, ina, sp, wr, a, co)
                } else if key == "Pages inactive"@ {
                    spec_legacy_vm_scan(rest, fr, v, sp, wr, a, co)
                } else if key == "Pages speculative"@ {
                    spec_legacy_vm_scan(rest, fr, ina, v, wr, a, co)
                } else if key == "Pages wired down"@ {
                    spec_legacy_vm_scan(rest, fr, ina, sp, v, a, co)
                } else if key == "Pages active"@ {
                    spec_legacy_vm_scan(rest, fr, ina, sp, wr, v, co)
                } else if key == "Pages occupied by compressor"@ {
                    spec_legacy_vm_scan(rest, fr, ina, sp, wr, a, v)
                } else {
                    spec_legacy_vm_scan(rest, fr, ina, sp, wr, a, co)
                }
            },
        }
    }
}

/// The available-memory percentage of `vm_stat` output: the reclaimable
/// pages — free, inactive and speculative — over all six counted classes,
/// capped at `100%`; everything reads available when no page was counted.
pub open spec fn spec_read_legacy_memory(s: Seq<char>) -> i64 {
    let t = spec_legacy_vm_scan(spec_lines(s), 0, 0, 0, 0, 0, 0);
    let total = t.0 + t.1 + t.2 + t.3 + t.4 + t.5;
    let avail = t.0 + t.1 + t.2;
    if total == 0 {
        1_000_000i64
    } else {
        spec_min_int(spec_ratio_micro(avail as int, total as int), 1_000_000) as i64
    }
}

/// Read the available-memory and swap-usage percentages from `vm_stat`
/// output and the optional `sysctl vm.swapusage` output: the memory share
/// matches `spec_read_legacy_memory`, and a missing or failing swap
/// reading counts as no swap usage.
#[verifier::loop_isolation(false)]
pub fn read_memory_stats(vm_stat: &str, swap: Option<&str>) -> (r: PwrzvResult<(i64, i64)>)
    ensures
        r matches Ok(v) && v.0 == spec_read_legacy_memory(vm_stat@),
        r matches Ok(v) ==> 0 <= v.0 <= 1_000_000 && 0 <= v.1 <= 1_000_000,
        r matches Ok(v) ==> v.1 as int == (match swap {
            Some(t) => match spec_read_swap_usage(t@) {
                Some(sw) => sw as int,
                None => 0int,
            },
            None => 0int,
        }),
{
    let v = chars_of(vm_stat);
    let lines = lines_of(&v);
    proof {
        lemma_deep_view_chars(&lines);
    }
    let ghost ls = spec_lines(v@);
    let n = lines.len();
    let mut fr: u64 = 0;
    let mut ina: u64 = 0;
    let mut sp: u64 = 0;
    let mut wr: u64 = 0;
    let mut a: u64 = 0;
    let mut co: u64 = 0;
    let mut i: usize = 0;
    proof {
        assert(ls.skip(0) =~= ls);
    }
    while i < n
        invariant
            i <= n,
            spec_legacy_vm_scan(ls, 0, 0, 0, 0, 0, 0) == spec_legacy_vm_scan(
                ls.skip(i as int),
                fr,
                ina,
                sp,
                wr,
                a,
                co,
            ),
        decreases n - i,
    {
        proof {
            assert(ls.skip(i as int)[0] == ls[i as int]);
            assert(ls.skip(i as int).skip(1) =~= ls.skip(i + 1));
        }
        match vm_line_of(&lines[i]) {
            None => {},
            Some((key, value)) => {
                if eq_lit(&key, "Pages free") {
                    fr = value;
                } else if eq_lit(&key, "Pages inactive") {
                    ina = value;
                } else if eq_lit(&key, "Pages speculative") {
                    sp = value;
                } else if eq_lit(&key, "Pages wired down") {
                    wr = value;
                } else if eq_lit(&key, "Pages active") {
                    a = value;
                } else if eq_lit(&key, "Pages occupied by compressor") {
                    co = value;
                }
            },
        }
        i = i + 1;
    }
    proof {
        assert(ls.skip(n as int).len() == 0);
    }
    let total: u128 = fr as u128 + ina as u128 + sp as u128 + wr as u128 + a as u128 + co as u128;
    let avail: u128 = fr as u128 + ina as u128 + sp as u128;
    let mem_available: i64 = if total == 0 {
        1_000_000
    } else {
        let q: u128 = avail * 1_000_000 / total;
        if q > 1_000_000 {
            1_000_000
        } else {
            q as i64
        }
    };
    let swap_usage: i64 = match swap {
        Some(t) => match read_swap_usage_from_text(t) {
            Ok(value) => value,
            Err(_) => 0,
        },
        None => 0,
    };
    Ok((mem_available, swap_usage))
}

/// `spec_vm_line` on a scanned line.
fn vm_line_of(line: &Vec<char>) -> (r: Option<(Vec<char>, u64)>)
    ensures
        r matches Some(kv) ==> spec_vm_line(line@) == Some((kv.0@, kv.1)),
        r is None <==> spec_vm_line(line@) is None,
{
    let n = line.len();
    let k = find_char_from(line, ':', 0);
    proof {
        assert(line@.skip(0) =~= line@);
    }
    if k == n {
        return None;
    }
    let before = subvec(line, 0, k);
    proof {
        assert(before@ =~= line@.take(k as int));
    }
    let key = trim_of(&before);
    let after = subvec(line, k + 1, n);
    proof {
        assert(after@ =~= line@.skip(k as int + 1));
    }
    let trimmed = trim_of(&after);
    let value = strip_trailing(&trimmed, '.');
    match parse_u64_chars(&value) {
        Some(v) => Some((key, v)),
        None => None,
    }
}

} // verus!
