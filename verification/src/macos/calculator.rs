//! Reducing a macOS snapshot to a power reserve level.
//!
//! The mirror of the Linux reduction: each present signal is scored on the
//! five-point scale through its sigmoid shape, and the lowest score is the
//! overall level, falling back to the neutral mid-scale value when nothing
//! was measured.

use vstd::prelude::*;
use crate::macos::metrics::MacSystemMetrics;
use crate::scale::{
    details_match, lemma_details_extend, lemma_min_entry_is_min, min_score, push_signal,
    spec_min_entry, spec_opt_entries, NEUTRAL_LEVEL,
};
use crate::sigmoid::{get_sigmoid_config, SigmoidFn};
use crate::error::PwrzvResult;

verus! {

/// CPU usage shape: midpoint `0.60`, steepness `8`.
pub fn get_cpu_usage_config(midpoint_override: Option<&str>, steepness_override: Option<&str>) -> (
    r: SigmoidFn)
    ensures
        r.wf(),
        (midpoint_override is None && steepness_override is None) ==> r == (SigmoidFn {
            midpoint: 600_000i64,
            steepness: 8_000_000i64,
        }),
{
    get_sigmoid_config(600_000, 8_000_000, midpoint_override, steepness_override)
}

/// CPU load shape: midpoint `1.2`, steepness `5`.
pub fn get_cpu_load_config(midpoint_override: Option<&str>, steepness_override: Option<&str>) -> (r:
    SigmoidFn)
    ensures
        r.wf(),
        (midpoint_override is None && steepness_override is None) ==> r == (SigmoidFn {
            midpoint: 1_200_000i64,
            steepness: 5_000_000i64,
        }),
{
    get_sigmoid_config(1_200_000, 5_000_000, midpoint_override, steepness_override)
}

/// Memory usage shape: midpoint `0.85`, steepness `20`.
pub fn get_memory_usage_config(midpoint_override: Option<&str>, steepness_override: Option<&str>) -> (
    r: SigmoidFn)
    ensures
        r.wf(),
        (midpoint_override is None && steepness_override is None) ==> r == (SigmoidFn {
            midpoint: 850_000i64,
            steepness: 20_000_000i64,
        }),
{
    get_sigmoid_config(850_000, 20_000_000, midpoint_override, steepness_override)
}

/// Memory compression shape: midpoint `0.60`, steepness `15`.
pub fn get_memory_compressed_config(
    midpoint_override: Option<&str>,
    steepness_override: Option<&str>,
) -> (r: SigmoidFn)
    ensures
        r.wf(),
        (midpoint_override is None && steepness_override is None) ==> r == (SigmoidFn {
            midpoint: 600_000i64,
            steepness: 15_000_000i64,
        }),
{
    get_sigmoid_config(600_000, 15_000_000, midpoint_override, steepness_override)
}

/// Dropped-packet shape: midpoint `0.02`, steepness `100`.
pub fn get_network_dropped_config(
    midpoint_override: Option<&str>,
    steepness_override: Option<&str>,
) -> (r: SigmoidFn)
    ensures
        r.wf(),
        (midpoint_override is None && steepness_override is None) ==> r == (SigmoidFn {
            midpoint: 20_000i64,
            steepness: 100_000_000i64,
        }),
{
    get_sigmoid_config(20_000, 100_000_000, midpoint_override, steepness_override)
}

/// File-descriptor shape: midpoint `0.90`, steepness `30`.
pub fn get_fd_config(midpoint_override: Option<&str>, steepness_override: Option<&str>) -> (r:
    SigmoidFn)
    ensures
        r.wf(),
        (midpoint_override is None && steepness_override is None) ==> r == (SigmoidFn {
            midpoint: 900_000i64,
            steepness: 30_000_000i64,
        }),
{
    get_sigmoid_config(900_000, 30_000_000, midpoint_override, steepness_override)
}

/// Process-count shape: midpoint `0.80`, steepness `12`.
pub fn get_process_config(midpoint_override: Option<&str>, steepness_override: Option<&str>) -> (r:
    SigmoidFn)
    ensures
        r.wf(),
        (midpoint_override is None && steepness_override is None) ==> r == (SigmoidFn {
            midpoint: 800_000i64,
            steepness: 12_000_000i64,
        }),
{
    get_sigmoid_config(800_000, 12_000_000, midpoint_override, steepness_override)
}

/// The sigmoid shape of every macOS signal.
#[derive(Debug, Clone, Copy, PartialEq, Eq, Structural)]
pub struct MacSigmoidSet {
    pub cpu_usage: SigmoidFn,
    pub cpu_load: SigmoidFn,
    pub memory_usage: SigmoidFn,
    pub memory_compressed: SigmoidFn,
    pub network_dropped: SigmoidFn,
    pub fd: SigmoidFn,
    pub process: SigmoidFn,
}

impl MacSigmoidSet {
    /// Every shape within the arithmetic's caps.
    pub open spec fn wf(self) -> bool {
        &&& self.cpu_usage.wf()
        &&& self.cpu_load.wf()
        &&& self.memory_usage.wf()
        &&& self.memory_compressed.wf()
        &&& self.network_dropped.wf()
        &&& self.fd.wf()
        &&& self.process.wf()
    }

    /// The documented default shapes, with no overrides applied.
    pub fn default_set() -> (r: Self)
        ensures
            r.wf(),
            r == (MacSigmoidSet {
                cpu_usage: SigmoidFn { midpoint: 600_000i64, steepness: 8_000_000i64 },
                cpu_load: SigmoidFn { midpoint: 1_200_000i64, steepness: 5_000_000i64 },
                memory_usage: SigmoidFn { midpoint: 850_000i64, steepness: 20_000_000i64 },
                memory_compressed: SigmoidFn { midpoint: 600_000i64, steepness: 15_000_000i64 },
                network_dropped: SigmoidFn { midpoint: 20_000i64, steepness: 100_000_000i64 },
                fd: SigmoidFn { midpoint: 900_000i64, steepness: 30_000_000i64 },
                process: SigmoidFn { midpoint: 800_000i64, steepness: 12_000_000i64 },
            }),
    {
        MacSigmoidSet {
            cpu_usage: get_cpu_usage_config(None, None),
            cpu_load: get_cpu_load_config(None, None),
            memory_usage: get_memory_usage_config(None, None),
            memory_compressed: get_memory_compressed_config(None, None),
            network_dropped: get_network_dropped_config(None, None),
            fd: get_fd_config(None, None),
            process: get_process_config(None, None),
        }
    }
}

/// The labelled scores of a snapshot's present signals, in the fixed walk
/// order.
pub open spec fn spec_mac_details(m: MacSystemMetrics, cfg: MacSigmoidSet) -> Seq<
    (Seq<char>, int),
> {
    spec_opt_entries(m.cpu_usage_ratio, cfg.cpu_usage, "CPU Usage"@) + spec_opt_entries(
        m.cpu_load_ratio,
        cfg.cpu_load,
        "CPU Load"@,
    ) + spec_opt_entries(m.memory_usage_ratio, cfg.memory_usage, "Memory Usage"@)
        + spec_opt_entries(
        m.memory_compressed_ratio,
        cfg.memory_compressed,
        "Memory Compressed"@,
    ) + spec_opt_entries(
        m.network_dropped_packets_ratio,
        cfg.network_dropped,
        "Network Dropped"@,
    ) + spec_opt_entries(m.fd_usage_ratio, cfg.fd, "File Descriptors"@) + spec_opt_entries(
        m.process_count_ratio,
        cfg.process,
        "Process Count"@,
    )
}

/// The overall level of a snapshot: the lowest labelled score, or the
/// neutral mid-scale level when every signal is absent.
pub open spec fn spec_mac_level(m: MacSystemMetrics, cfg: MacSigmoidSet) -> int {
    let d = spec_mac_details(m, cfg);
    if d.len() == 0 {
        NEUTRAL_LEVEL as int
    } else {
        spec_min_entry(d)
    }
}

/// The macOS power reserve provider.
#[derive(Debug, Clone, Copy, PartialEq, Eq, Structural)]
pub struct MacProvider;

impl MacProvider {
    /// Reduce a snapshot under the given shapes: the overall level together
    /// with one labelled score per present signal, the level exactly the
    /// lowest score, and the neutral level with an empty detail list when
    /// nothing was measured.
    pub fn calculate(metrics: &MacSystemMetrics, cfg: &MacSigmoidSet) -> (r: PwrzvResult<
        (u64, Vec<(String, u64)>),
    >)
        requires
            metrics.wf(),
            cfg.wf(),
        ensures
            r matches Ok(out) && out.0 as int == spec_mac_level(*metrics, *cfg) && details_match(
                out.1@,
                spec_mac_details(*metrics, *cfg),
            ),
    {
        let ghost target = spec_mac_details(*metrics, *cfg);
        let mut details: Vec<(String, u64)> = Vec::new();
        let ghost mut p = Seq::<(Seq<char>, int)>::empty();

        let ghost d0 = details@;
        push_signal(&mut details, metrics.cpu_usage_ratio, cfg.cpu_usage, "CPU Usage");
        proof {
            let e = spec_opt_entries(metrics.cpu_usage_ratio, cfg.cpu_usage, "CPU Usage"@);
            lemma_details_extend(d0, details@, p, e);
            p = p + e;
        }
        let ghost d1 = details@;
        push_signal(&mut details, metrics.cpu_load_ratio, cfg.cpu_load, "CPU Load");
        proof {
            let e = spec_opt_entries(metrics.cpu_load_ratio, cfg.cpu_load, "CPU Load"@);
            lemma_details_extend(d1, details@, p, e);
            p = p + e;
        }
        let ghost d2 = details@;
        push_signal(&mut details, metrics.memory_usage_ratio, cfg.memory_usage, "Memory Usage");
        proof {
            let e = spec_opt_entries(metrics.memory_usage_ratio, cfg.memory_usage, "Memory Usage"@);
            lemma_details_extend(d2, details@, p, e);
            p = p + e;
        }
        let ghost d3 = details@;
        push_signal(
            &mut details,
            metrics.memory_compressed_ratio,
            cfg.memory_compressed,
            "Memory Compressed",
        );
        proof {
            let e = spec_opt_entries(
                metrics.memory_compressed_ratio,
                cfg.memory_compressed,
                "Memory Compressed"@,
            );
            lemma_details_extend(d3, details@, p, e);
            p = p + e;
        }
        let ghost d4 = details@;
        push_signal(
            &mut details,
            metrics.network_dropped_packets_ratio,
            cfg.network_dropped,
            "Network Dropped",
        );
        proof {
            let e = spec_opt_entries(
                metrics.network_dropped_packets_ratio,
                cfg.network_dropped,
                "Network Dropped"@,
            );
            lemma_details_extend(d4, details@, p, e);
            p = p + e;
        }
        let ghost d5 = details@;
        push_signal(&mut details, metrics.fd_usage_ratio, cfg.fd, "File Descriptors");
        proof {
            let e = spec_opt_entries(metrics.fd_usage_ratio, cfg.fd, "File Descriptors"@);
            lemma_details_extend(d5, details@, p, e);
            p = p + e;
        }
        let ghost d6 = details@;
        push_signal(&mut details, metrics.process_count_ratio, cfg.process, "Process Count");
        proof {
            let e = spec_opt_entries(metrics.process_count_ratio, cfg.process, "Process Count"@);
            lemma_details_extend(d6, details@, p, e);
            p = p + e;
        }
        proof {
            assert(p =~= target);
        }
        match min_score(&details) {
            Some(level) => {
                proof {
                    lemma_min_entry_is_min(target);
                    let i = choose|i: int|
                        0 <= i < details@.len() && (#[trigger] details@[i]).1 == level;
                    assert(target[i].1 == level as int);
                    let j = choose|j: int|
                        0 <= j < target.len() && (#[trigger] target[j]).1 == spec_min_entry(target);
                    assert(details@[j].1 as int == spec_min_entry(target));
                    assert(level as int == spec_min_entry(target));
                }
                Ok((level, details))
            },
            None => {
                Ok((NEUTRAL_LEVEL, details))
            },
        }
    }
}

/// The level never beats any individual signal: it sits at or below every
/// present signal's score, and it is some present signal's score — the
/// bottleneck's, never an average.
pub proof fn lemma_level_is_worst_signal(m: MacSystemMetrics, cfg: MacSigmoidSet)
    requires
        spec_mac_details(m, cfg).len() > 0,
    ensures
        forall|i: int|
            0 <= i < spec_mac_details(m, cfg).len() ==> spec_mac_level(m, cfg) <= (
            #[trigger] spec_mac_details(m, cfg)[i]).1,
        exists|i: int|
            0 <= i < spec_mac_details(m, cfg).len() && spec_mac_level(m, cfg) == (
            #[trigger] spec_mac_details(m, cfg)[i]).1,
{
    lemma_min_entry_is_min(spec_mac_details(m, cfg));
}

/// An empty snapshot reduces to the neutral mid-scale level with an empty
/// detail list, never to an error.
pub proof fn lemma_empty_snapshot_is_neutral(m: MacSystemMetrics, cfg: MacSigmoidSet)
    requires
        m.cpu_usage_ratio is None,
        m.cpu_load_ratio is None,
        m.memory_usage_ratio is None,
        m.memory_compressed_ratio is None,
        m.network_dropped_packets_ratio is None,
        m.fd_usage_ratio is None,
        m.process_count_ratio is None,
    ensures
        spec_mac_details(m, cfg).len() == 0,
        spec_mac_level(m, cfg) == NEUTRAL_LEVEL as int,
{
}

/// The macOS reduction is as pure as the Linux one: identical snapshots
/// under identical shapes give identical levels and identical labelled
/// scores.
pub proof fn lemma_calculate_pure(
    m1: MacSystemMetrics,
    c1: MacSigmoidSet,
    m2: MacSystemMetrics,
    c2: MacSigmoidSet,
)
    requires
        m1 == m2,
        c1 == c2,
    ensures
        spec_mac_level(m1, c1) == spec_mac_level(m2, c2),
        spec_mac_details(m1, c1) == spec_mac_details(m2, c2),
{
}

} // verus!
