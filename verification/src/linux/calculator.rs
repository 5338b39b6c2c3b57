//! Reducing a Linux snapshot to a power reserve level.
//!
//! Every present signal is pushed through its sigmoid shape and put on the
//! five-point scale; the lowest score — the most stressed resource — is the
//! overall level.  With nothing measured, the level falls back to the
//! neutral mid-scale value.

use vstd::prelude::*;
use crate::linux::metrics::LinuxSystemMetrics;
use crate::scale::{
    details_match, five_point_scale_with_decimal, lemma_details_extend, lemma_min_entry_is_min,
    min_score, push_signal, spec_min_entry, spec_opt_entries, NEUTRAL_LEVEL,
};
use crate::sigmoid::{get_sigmoid_config, SigmoidFn};
use crate::error::PwrzvResult;

verus! {

/// CPU usage shape: midpoint `0.65`, steepness `8`.
pub fn get_cpu_usage_config(midpoint_override: Option<&str>, steepness_override: Option<&str>) -> (r:
    SigmoidFn)
    ensures
        r.wf(),
        (midpoint_override is None && steepness_override is None) ==> r == (SigmoidFn {
            midpoint: 650_000i64,
            steepness: 8_000_000i64,
        }),
{
    get_sigmoid_config(650_000, 8_000_000, midpoint_override, steepness_override)
}

/// CPU I/O-wait shape: midpoint `0.20`, steepness `20`.
pub fn get_cpu_iowait_config(midpoint_override: Option<&str>, steepness_override: Option<&str>) -> (
    r: SigmoidFn)
    ensures
        r.wf(),
        (midpoint_override is None && steepness_override is None) ==> r == (SigmoidFn {
            midpoint: 200_000i64,
            steepness: 20_000_000i64,
        }),
{
    get_sigmoid_config(200_000, 20_000_000, midpoint_override, steepness_override)
}

/// CPU load shape: midpoint `1.2`, steepness `5`.
pub fn get_cpu_load_config(midpoint_override: Option<&str>, steepness_override: Option<&str>) -> (r:
    SigmoidFn)
    ensures
        r.wf(),
        (midpoint_override is None && steepness_override is None) ==> r == (SigmoidFn {
            midpoint: 1_200_000i64,
            steepness: 5_000_000i64,
        }),
{
    get_sigmoid_config(1_200_000, 5_000_000, midpoint_override, steepness_override)
}

/// Memory usage shape: midpoint `0.85`, steepness `18`.
pub fn get_memory_usage_config(midpoint_override: Option<&str>, steepness_override: Option<&str>) -> (
    r: SigmoidFn)
    ensures
        r.wf(),
        (midpoint_override is None && steepness_override is None) ==> r == (SigmoidFn {
            midpoint: 850_000i64,
            steepness: 18_000_000i64,
        }),
{
    get_sigmoid_config(850_000, 18_000_000, midpoint_override, steepness_override)
}

/// Memory pressure shape: midpoint `0.30`, steepness `12`.
pub fn get_memory_pressure_config(
    midpoint_override: Option<&str>,
    steepness_override: Option<&str>,
) -> (r: SigmoidFn)
    ensures
        r.wf(),
        (midpoint_override is None && steepness_override is None) ==> r == (SigmoidFn {
            midpoint: 300_000i64,
            steepness: 12_000_000i64,
        }),
{
    get_sigmoid_config(300_000, 12_000_000, midpoint_override, steepness_override)
}

/// Disk utilization shape: midpoint `0.70`, steepness `10`.
pub fn get_disk_io_config(midpoint_override: Option<&str>, steepness_override: Option<&str>) -> (r:
    SigmoidFn)
    ensures
        r.wf(),
        (midpoint_override is None && steepness_override is None) ==> r == (SigmoidFn {
            midpoint: 700_000i64,
            steepness: 10_000_000i64,
        }),
{
    get_sigmoid_config(700_000, 10_000_000, midpoint_override, steepness_override)
}

/// Dropped-packet shape: midpoint `0.02`, steepness `100` — pressure rises
/// sharply at very low absolute loss.
pub fn get_network_dropped_config(
    midpoint_override: Option<&str>,
    steepness_override: Option<&str>,
) -> (r: SigmoidFn)
    ensures
        r.wf(),
        (midpoint_override is None && steepness_override is None) ==> r == (SigmoidFn {
            midpoint: 20_000i64,
            steepness: 100_000_000i64,
        }),
{
    get_sigmoid_config(20_000, 100_000_000, midpoint_override, steepness_override)
}

/// File-descriptor shape: midpoint `0.90`, steepness `25`.
pub fn get_fd_config(midpoint_override: Option<&str>, steepness_override: Option<&str>) -> (r:
    SigmoidFn)
    ensures
        r.wf(),
        (midpoint_override is None && steepness_override is None) ==> r == (SigmoidFn {
            midpoint: 900_000i64,
            steepness: 25_000_000i64,
        }),
{
    get_sigmoid_config(900_000, 25_000_000, midpoint_override, steepness_override)
}

/// Process-count shape: midpoint `0.80`, steepness `12`.
pub fn get_process_config(midpoint_override: Option<&str>, steepness_override: Option<&str>) -> (r:
    SigmoidFn)
    ensures
        r.wf(),
        (midpoint_override is None && steepness_override is None) ==> r == (SigmoidFn {
            midpoint: 800_000i64,
            steepness: 12_000_000i64,
        }),
{
    get_sigmoid_config(800_000, 12_000_000, midpoint_override, steepness_override)
}

/// The sigmoid shape of every Linux signal.
#[derive(Debug, Clone, Copy, PartialEq, Eq, Structural)]
pub struct LinuxSigmoidSet {
    pub cpu_usage: SigmoidFn,
    pub cpu_io_wait: SigmoidFn,
    pub cpu_load: SigmoidFn,
    pub memory_usage: SigmoidFn,
    pub memory_pressure: SigmoidFn,
    pub disk_io: SigmoidFn,
    pub network_dropped: SigmoidFn,
    pub fd: SigmoidFn,
    pub process: SigmoidFn,
}

impl LinuxSigmoidSet {
    /// Every shape within the arithmetic's caps.
    pub open spec fn wf(self) -> bool {
        &&& self.cpu_usage.wf()
        &&& self.cpu_io_wait.wf()
        &&& self.cpu_load.wf()
        &&& self.memory_usage.wf()
        &&& self.memory_pressure.wf()
        &&& self.disk_io.wf()
        &&& self.network_dropped.wf()
        &&& self.fd.wf()
        &&& self.process.wf()
    }

    /// The documented default shapes, with no overrides applied.
    pub fn default_set() -> (r: Self)
        ensures
            r.wf(),
            r == (LinuxSigmoidSet {
                cpu_usage: SigmoidFn { midpoint: 650_000i64, steepness: 8_000_000i64 },
                cpu_io_wait: SigmoidFn { midpoint: 200_000i64, steepness: 20_000_000i64 },
                cpu_load: SigmoidFn { midpoint: 1_200_000i64, steepness: 5_000_000i64 },
                memory_usage: SigmoidFn { midpoint: 850_000i64, steepness: 18_000_000i64 },
                memory_pressure: SigmoidFn { midpoint: 300_000i64, steepness: 12_000_000i64 },
                disk_io: SigmoidFn { midpoint: 700_000i64, steepness: 10_000_000i64 },
                network_dropped: SigmoidFn { midpoint: 20_000i64, steepness: 100_000_000i64 },
                fd: SigmoidFn { midpoint: 900_000i64, steepness: 25_000_000i64 },
                process: SigmoidFn { midpoint: 800_000i64, steepness: 12_000_000i64 },
            }),
    {
        LinuxSigmoidSet {
            cpu_usage: get_cpu_usage_config(None, None),
            cpu_io_wait: get_cpu_iowait_config(None, None),
            cpu_load: get_cpu_load_config(None, None),
            memory_usage: get_memory_usage_config(None, None),
            memory_pressure: get_memory_pressure_config(None, None),
            disk_io: get_disk_io_config(None, None),
            network_dropped: get_network_dropped_config(None, None),
            fd: get_fd_config(None, None),
            process: get_process_config(None, None),
        }
    }
}

/// The labelled scores of a snapshot's present signals, in the fixed walk
/// order.
pub open spec fn spec_linux_details(m: LinuxSystemMetrics, cfg: LinuxSigmoidSet) -> Seq<
    (Seq<char>, int),
> {
    spec_opt_entries(m.cpu_usage_ratio, cfg.cpu_usage, "CPU Usage"@) + spec_opt_entries(
        m.cpu_io_wait_ratio,
        cfg.cpu_io_wait,
        "CPU IO Wait"@,
    ) + spec_opt_entries(m.cpu_load_ratio, cfg.cpu_load, "CPU Load"@) + spec_opt_entries(
        m.memory_usage_ratio,
        cfg.memory_usage,
        "Memory Usage"@,
    ) + spec_opt_entries(m.memory_pressure_ratio, cfg.memory_pressure, "Memory Pressure"@)
        + spec_opt_entries(m.disk_io_utilization, cfg.disk_io, "Disk IO Utilization"@)
        + spec_opt_entries(
        m.network_dropped_packets_ratio,
        cfg.network_dropped,
        "Network Dropped Packets"@,
    ) + spec_opt_entries(m.fd_usage_ratio, cfg.fd, "File Descriptors"@) + spec_opt_entries(
        m.process_count_ratio,
        cfg.process,
        "Process Count"@,
    )
}

/// The overall level of a snapshot: the lowest labelled score, or the
/// neutral mid-scale level when every signal is absent.
pub open spec fn spec_linux_level(m: LinuxSystemMetrics, cfg: LinuxSigmoidSet) -> int {
    let d = spec_linux_details(m, cfg);
    if d.len() == 0 {
        NEUTRAL_LEVEL as int
    } else {
        spec_min_entry(d)
    }
}

/// The Linux power reserve provider.
#[derive(Debug, Clone, Copy, PartialEq, Eq, Structural)]
pub struct LinuxProvider;

impl LinuxProvider {
    /// Reduce a snapshot under the given shapes: the result is the overall
    /// level together with one labelled score per present signal.  The
    /// level is exactly the lowest score — the bottleneck decides — and the
    /// neutral level with an empty detail list when nothing was measured.
    pub fn calculate(metrics: &LinuxSystemMetrics, cfg: &LinuxSigmoidSet) -> (r: PwrzvResult<
        (u64, Vec<(String, u64)>),
    >)
        requires
            metrics.wf(),
            cfg.wf(),
        ensures
            r matches Ok(out) && out.0 as int == spec_linux_level(*metrics, *cfg) && details_match(
                out.1@,
                spec_linux_details(*metrics, *cfg),
            ),
    {
        let ghost target = spec_linux_details(*metrics, *cfg);
        let mut details: Vec<(String, u64)> = Vec::new();
        let ghost mut p = Seq::<(Seq<char>, int)>::empty();

        let ghost d0 = details@;
        push_signal(&mut details, metrics.cpu_usage_ratio, cfg.cpu_usage, "CPU Usage");
        proof {
            let e = spec_opt_entries(metrics.cpu_usage_ratio, cfg.cpu_usage, "CPU Usage"@);
            lemma_details_extend(d0, details@, p, e);
            p = p + e;
        }
        let ghost d1 = details@;
        push_signal(&mut details, metrics.cpu_io_wait_ratio, cfg.cpu_io_wait, "CPU IO Wait");
        proof {
            let e = spec_opt_entries(metrics.cpu_io_wait_ratio, cfg.cpu_io_wait, "CPU IO Wait"@);
            lemma_details_extend(d1, details@, p, e);
            p = p + e;
        }
        let ghost d2 = details@;
        push_signal(&mut details, metrics.cpu_load_ratio, cfg.cpu_load, "CPU Load");
        proof {
            let e = spec_opt_entries(metrics.cpu_load_ratio, cfg.cpu_load, "CPU Load"@);
            lemma_details_extend(d2, details@, p, e);
            p = p + e;
        }
        let ghost d3 = details@;
        push_signal(&mut details, metrics.memory_usage_ratio, cfg.memory_usage, "Memory Usage");
        proof {
            let e = spec_opt_entries(metrics.memory_usage_ratio, cfg.memory_usage, "Memory Usage"@);
            lemma_details_extend(d3, details@, p, e);
            p = p + e;
        }
        let ghost d4 = details@;
        push_signal(
            &mut details,
            metrics.memory_pressure_ratio,
            cfg.memory_pressure,
            "Memory Pressure",
        );
        proof {
            let e = spec_opt_entries(
                metrics.memory_pressure_ratio,
                cfg.memory_pressure,
                "Memory Pressure"@,
            );
            lemma_details_extend(d4, details@, p, e);
            p = p + e;
        }
        let ghost d5 = details@;
        push_signal(&mut details, metrics.disk_io_utilization, cfg.disk_io, "Disk IO Utilization");
        proof {
            let e = spec_opt_entries(
                metrics.disk_io_utilization,
                cfg.disk_io,
                "Disk IO Utilization"@,
            );
            lemma_details_extend(d5, details@, p, e);
            p = p + e;
        }
        let ghost d6 = details@;
        push_signal(
            &mut details,
            metrics.network_dropped_packets_ratio,
            cfg.network_dropped,
            "Network Dropped Packets",
        );
        proof {
            let e = spec_opt_entries(
                metrics.network_dropped_packets_ratio,
                cfg.network_dropped,
                "Network Dropped Packets"@,
            );
            lemma_details_extend(d6, details@, p, e);
            p = p + e;
        }
        let ghost d7 = details@;
        push_signal(&mut details, metrics.fd_usage_ratio, cfg.fd, "File Descriptors");
        proof {
            let e = spec_opt_entries(metrics.fd_usage_ratio, cfg.fd, "File Descriptors"@);
            lemma_details_extend(d7, details@, p, e);
            p = p + e;
        }
        let ghost d8 = details@;
        push_signal(&mut details, metrics.process_count_ratio, cfg.process, "Process Count");
        proof {
            let e = spec_opt_entries(metrics.process_count_ratio, cfg.process, "Process Count"@);
            lemma_details_extend(d8, details@, p, e);
            p = p + e;
        }
        proof {
            assert(p =~= target);
        }
        match min_score(&details) {
            Some(level) => {
                proof {
                    lemma_min_entry_is_min(target);
                    let i = choose|i: int|
                        0 <= i < details@.len() && (#[trigger] details@[i]).1 == level;
                    assert(target[i].1 == level as int);
                    let j = choose|j: int|
                        0 <= j < target.len() && (#[trigger] target[j]).1 == spec_min_entry(target);
                    assert(details@[j].1 as int == spec_min_entry(target));
                    assert(level as int == spec_min_entry(target));
                }
                Ok((level, details))
            },
            None => {
                Ok((NEUTRAL_LEVEL, details))
            },
        }
    }
}

/// The reduction is a pure function of its inputs: the same snapshot under
/// the same shapes always yields the same level and the same labelled
/// scores, with no hidden state to drift between calls.
pub proof fn lemma_calculate_pure(
    m1: LinuxSystemMetrics,
    c1: LinuxSigmoidSet,
    m2: LinuxSystemMetrics,
    c2: LinuxSigmoidSet,
)
    requires
        m1 == m2,
        c1 == c2,
    ensures
        spec_linux_level(m1, c1) == spec_linux_level(m2, c2),
        spec_linux_details(m1, c1) == spec_linux_details(m2, c2),
{
}

/// The level never beats any individual signal: it sits at or below every
/// present signal's score, and it is some present signal's score — the
/// bottleneck's, never an average.
pub proof fn lemma_level_is_worst_signal(m: LinuxSystemMetrics, cfg: LinuxSigmoidSet)
    requires
        spec_linux_details(m, cfg).len() > 0,
    ensures
        forall|i: int|
            0 <= i < spec_linux_details(m, cfg).len() ==> spec_linux_level(m, cfg) <= (
            #[trigger] spec_linux_details(m, cfg)[i]).1,
        exists|i: int|
            0 <= i < spec_linux_details(m, cfg).len() && spec_linux_level(m, cfg) == (
            #[trigger] spec_linux_details(m, cfg)[i]).1,
{
    lemma_min_entry_is_min(spec_linux_details(m, cfg));
}

/// An empty snapshot reduces to the neutral mid-scale level with an empty
/// detail list, never to an error.
pub proof fn lemma_empty_snapshot_is_neutral(m: LinuxSystemMetrics, cfg: LinuxSigmoidSet)
    requires
        m.cpu_usage_ratio is None,
        m.cpu_io_wait_ratio is None,
        m.cpu_load_ratio is None,
        m.memory_usage_ratio is None,
        m.memory_pressure_ratio is None,
        m.disk_io_utilization is None,
        m.network_dropped_packets_ratio is None,
        m.fd_usage_ratio is None,
        m.process_count_ratio is None,
    ensures
        spec_linux_details(m, cfg).len() == 0,
        spec_linux_level(m, cfg) == NEUTRAL_LEVEL as int,
{
}

} // verus!
