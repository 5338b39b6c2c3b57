//! The ordinal power reserve calculator.
//!
//! This is the bucketed presentation of the reduction: the seven
//! percentage signals of a `SystemMetrics` record are pushed through
//! per-signal sigmoid shapes, the worst pressure decides, and the result
//! is a whole score from zero to five with per-component scores and the
//! names of the maximal-pressure signals as the bottleneck.

use vstd::prelude::*;
use vstd::string::*;
use crate::error::{PwrzvError, PwrzvResult};
use crate::metrics::SystemMetrics;
use crate::sigmoid::{spec_pressure, SigmoidFn, PARAM_CAP};

verus! {

/// The ordinal reserve bucket a score falls in.
#[derive(Debug, Clone, Copy, PartialEq, Eq, Structural)]
pub enum PowerReserveLevel {
    /// Poor performance: nothing to spare.
    Critical,
    /// Degraded performance.
    Low,
    /// Normal performance.
    Medium,
    /// Good performance.
    High,
    /// Excellent performance: plenty to spare.
    Abundant,
}

impl PowerReserveLevel {
    /// The bucket of a whole score.
    pub open spec fn spec_from_score(score: u8) -> Self {
        if score >= 5 {
            PowerReserveLevel::Abundant
        } else if score == 4 {
            PowerReserveLevel::High
        } else if score == 3 {
            PowerReserveLevel::Medium
        } else if score == 2 {
            PowerReserveLevel::Low
        } else {
            PowerReserveLevel::Critical
        }
    }

    /// Bucket a whole score, matching `spec_from_score`.
    pub fn from_score(score: u8) -> (r: Self)
        ensures
            r == Self::spec_from_score(score),
    {
        if score >= 5 {
            PowerReserveLevel::Abundant
        } else if score == 4 {
            PowerReserveLevel::High
        } else if score == 3 {
            PowerReserveLevel::Medium
        } else if score == 2 {
            PowerReserveLevel::Low
        } else {
            PowerReserveLevel::Critical
        }
    }
}

/// The sigmoid shape of each of the seven percentage signals, midpoints
/// and steepnesses in fixed point.
#[derive(Debug, Clone, Copy, PartialEq, Eq, Structural)]
pub struct SigmoidConfig {
    pub cpu_threshold: i64,
    pub cpu_steepness: i64,
    pub iowait_threshold: i64,
    pub iowait_steepness: i64,
    pub memory_threshold: i64,
    pub memory_steepness: i64,
    pub swap_threshold: i64,
    pub swap_steepness: i64,
    pub disk_threshold: i64,
    pub disk_steepness: i64,
    pub network_threshold: i64,
    pub network_steepness: i64,
    pub fd_threshold: i64,
    pub fd_steepness: i64,
}

impl SigmoidConfig {
    /// Every parameter within the arithmetic's caps.
    pub open spec fn wf(self) -> bool {
        &&& -(PARAM_CAP as int) <= self.cpu_threshold as int <= PARAM_CAP as int
        &&& -(PARAM_CAP as int) <= self.cpu_steepness as int <= PARAM_CAP as int
        &&& -(PARAM_CAP as int) <= self.iowait_threshold as int <= PARAM_CAP as int
        &&& -(PARAM_CAP as int) <= self.iowait_steepness as int <= PARAM_CAP as int
        &&& -(PARAM_CAP as int) <= self.memory_threshold as int <= PARAM_CAP as int
        &&& -(PARAM_CAP as int) <= self.memory_steepness as int <= PARAM_CAP as int
        &&& -(PARAM_CAP as int) <= self.swap_threshold as int <= PARAM_CAP as int
        &&& -(PARAM_CAP as int) <= self.swap_steepness as int <= PARAM_CAP as int
        &&& -(PARAM_CAP as int) <= self.disk_threshold as int <= PARAM_CAP as int
        &&& -(PARAM_CAP as int) <= self.disk_steepness as int <= PARAM_CAP as int
        &&& -(PARAM_CAP as int) <= self.network_threshold as int <= PARAM_CAP as int
        &&& -(PARAM_CAP as int) <= self.network_steepness as int <= PARAM_CAP as int
        &&& -(PARAM_CAP as int) <= self.fd_threshold as int <= PARAM_CAP as int
        &&& -(PARAM_CAP as int) <= self.fd_steepness as int <= PARAM_CAP as int
    }

    /// The documented default shapes.
    pub open spec fn spec_default() -> Self {
        SigmoidConfig {
            cpu_threshold: 900_000,
            cpu_steepness: 10_000_000,
            iowait_threshold: 500_000,
            iowait_steepness: 10_000_000,
            memory_threshold: 950_000,
            memory_steepness: 10_000_000,
            swap_threshold: 500_000,
            swap_steepness: 10_000_000,
            disk_threshold: 950_000,
            disk_steepness: 10_000_000,
            network_threshold: 900_000,
            network_steepness: 10_000_000,
            fd_threshold: 900_000,
            fd_steepness: 10_000_000,
        }
    }
}

impl Default for SigmoidConfig {
    fn default() -> (r: Self)
        ensures
            r == SigmoidConfig::spec_default(),
            r.wf(),
    {
        SigmoidConfig {
            cpu_threshold: 900_000,
            cpu_steepness: 10_000_000,
            iowait_threshold: 500_000,
            iowait_steepness: 10_000_000,
            memory_threshold: 950_000,
            memory_steepness: 10_000_000,
            swap_threshold: 500_000,
            swap_steepness: 10_000_000,
            disk_threshold: 950_000,
            disk_steepness: 10_000_000,
            network_threshold: 900_000,
            network_steepness: 10_000_000,
            fd_threshold: 900_000,
            fd_steepness: 10_000_000,
        }
    }
}

/// Per-component whole scores, zero to five each.
#[derive(Debug, Clone, PartialEq, Eq, Structural)]
pub struct ComponentScores {
    pub cpu: u8,
    pub iowait: u8,
    pub memory: u8,
    pub swap: u8,
    pub disk: u8,
    pub network: u8,
    pub file_descriptor: u8,
}

/// The full ordinal result: the overall score, its bucket, the component
/// scores and a bottleneck description.
#[derive(Debug, Clone, PartialEq, Eq)]
pub struct DetailedScore {
    /// Overall score, zero to five.
    pub final_score: u8,
    /// The bucket the overall score falls in.
    pub level: PowerReserveLevel,
    /// Whole scores per component.
    pub component_scores: ComponentScores,
    /// The maximal-pressure signals, named and joined.
    pub bottleneck: String,
}

/// The seven signal pressures of a valid record under a configuration, in
/// component order; memory pressure grows as availability falls.
pub open spec fn spec_component_pressures(m: SystemMetrics, c: SigmoidConfig) -> Seq<int> {
    seq![
        spec_pressure(c.cpu_threshold as int, c.cpu_steepness as int, m.cpu_usage as int),
        spec_pressure(c.iowait_threshold as int, c.iowait_steepness as int, m.cpu_iowait as int),
        spec_pressure(
            c.memory_threshold as int,
            c.memory_steepness as int,
            1_000_000 - m.mem_available as int,
        ),
        spec_pressure(c.swap_threshold as int, c.swap_steepness as int, m.swap_usage as int),
        spec_pressure(c.disk_threshold as int, c.disk_steepness as int, m.disk_usage as int),
        spec_pressure(c.network_threshold as int, c.network_steepness as int, m.net_usage as int),
        spec_pressure(c.fd_threshold as int, c.fd_steepness as int, m.fd_usage as int),
    ]
}

/// The worst pressure among the seven.
pub open spec fn spec_max_pressure(m: SystemMetrics, c: SigmoidConfig) -> int {
    let p = spec_component_pressures(m, c);
    let m1 = if p[1] > p[0] { p[1] } else { p[0] };
    let m2 = if p[2] > m1 { p[2] } else { m1 };
    let m3 = if p[3] > m2 { p[3] } else { m2 };
    let m4 = if p[4] > m3 { p[4] } else { m3 };
    let m5 = if p[5] > m4 { p[5] } else { m4 };
    if p[6] > m5 { p[6] } else { m5 }
}

/// A pressure rounded onto the whole zero-to-five reserve scale.
pub open spec fn spec_round_five(p: int) -> int {
    (5 * (1_000_000 - p) + 500_000) / 1_000_000
}

/// The whole overall score of a valid record: the worst component decides.
pub open spec fn spec_power_reserve(m: SystemMetrics, c: SigmoidConfig) -> int {
    spec_round_five(spec_max_pressure(m, c))
}

/// One name, present under its condition.
pub open spec fn spec_opt_name(cond: bool, name: Seq<char>) -> Seq<Seq<char>> {
    if cond {
        seq![name]
    } else {
        Seq::empty()
    }
}

/// The bottleneck names of a record under a configuration: the signals
/// whose pressure is tied for the maximum, listed in the fixed component
/// order — the deterministic, documented tie-break.
pub open spec fn spec_bottleneck_names(m: SystemMetrics, c: SigmoidConfig) -> Seq<Seq<char>> {
    let p = spec_component_pressures(m, c);
    let w = spec_max_pressure(m, c);
    spec_opt_name(p[0] == w, "CPU"@) + spec_opt_name(p[1] == w, "I/O Wait"@) + spec_opt_name(
        p[2] == w,
        "Memory"@,
    ) + spec_opt_name(p[3] == w, "Swap"@) + spec_opt_name(p[4] == w, "Disk I/O"@) + spec_opt_name(
        p[5] == w,
        "Network I/O"@,
    ) + spec_opt_name(p[6] == w, "File Descriptors"@)
}

/// Names joined with a comma and a space.
pub open spec fn spec_join(parts: Seq<Seq<char>>) -> Seq<char>
    decreases parts.len(),
{
    if parts.len() == 0 {
        Seq::empty()
    } else if parts.len() == 1 {
        parts[0]
    } else {
        spec_join(parts.drop_last()) + ", "@ + parts.last()
    }
}

/// The bottleneck description: the maximal-pressure signal names joined
/// with a comma and a space.  This record always carries all seven
/// signals, so the set is never empty (`lemma_bottleneck_attained`); an
/// empty description could only stand for a record with no signals at
/// all.
pub open spec fn spec_bottleneck(m: SystemMetrics, c: SigmoidConfig) -> Seq<char> {
    spec_join(spec_bottleneck_names(m, c))
}

/// The bottleneck set of a record is never empty: the worst pressure is
/// attained by some signal, and every signal of this record is present.
pub proof fn lemma_bottleneck_attained(m: SystemMetrics, c: SigmoidConfig)
    ensures
        spec_bottleneck_names(m, c).len() >= 1,
{
    let p = spec_component_pressures(m, c);
    let w = spec_max_pressure(m, c);
    assert(w == p[0] || w == p[1] || w == p[2] || w == p[3] || w == p[4] || w == p[5]
        || w == p[6]);
}

/// The built name list matches its specification entry for entry.
pub open spec fn names_match(v: Seq<String>, s: Seq<Seq<char>>) -> bool {
    &&& v.len() == s.len()
    &&& forall|i: int| 0 <= i < v.len() ==> (#[trigger] v[i])@ == s[i]
}

/// Appending one optional name keeps the list matched.
proof fn lemma_names_extend(
    dv: Seq<String>,
    nv: Seq<String>,
    p: Seq<Seq<char>>,
    e: Seq<Seq<char>>,
)
    requires
        names_match(dv, p),
        e.len() == 0 ==> nv == dv,
        e.len() == 1 ==> nv.len() == dv.len() + 1 && (forall|i: int|
            0 <= i < dv.len() ==> nv[i] == dv[i]) && nv.last()@ == e[0],
        e.len() <= 1,
    ensures
        names_match(nv, p + e),
{
    if e.len() == 0 {
        assert(p + e =~= p);
    } else {
        assert forall|i: int| 0 <= i < nv.len() implies (#[trigger] nv[i])@ == (p + e)[i] by {
            if i < dv.len() {
                assert(nv[i] == dv[i]);
                assert((p + e)[i] == p[i]);
            } else {
                assert(nv[i] == nv.last());
                assert((p + e)[i] == e[0]);
            }
        }
    }
}

/// Append a name when its condition holds.
fn push_name(names: &mut Vec<String>, cond: bool, name: &str)
    ensures
        !cond ==> final(names)@ == old(names)@,
        cond ==> final(names)@.len() == old(names)@.len() + 1 && (forall|i: int|
            0 <= i < old(names)@.len() ==> final(names)@[i] == old(names)@[i])
            && final(names)@.last()@ == name@,
{
    if cond {
        names.push(String::from_str(name));
    }
}

/// Join names with a comma and a space, matching `spec_join` of the
/// matched specification list.
#[verifier::loop_isolation(false)]
fn join_names(names: &Vec<String>, Ghost(target): Ghost<Seq<Seq<char>>>) -> (r: String)
    requires
        names_match(names@, target),
    ensures
        r@ == spec_join(target),
{
    let n = names.len();
    let mut acc = String::new();
    let mut i: usize = 0;
    proof {
        assert(target.take(0) =~= Seq::<Seq<char>>::empty());
    }
    while i < n
        invariant
            i <= n,
            acc@ == spec_join(target.take(i as int)),
        decreases n - i,
    {
        proof {
            let t = target.take(i + 1);
            assert(t.drop_last() =~= target.take(i as int));
            assert(t.last() == target[i as int]);
        }
        if i > 0 {
            acc.append(", ");
        }
        acc.append(names[i].as_str());
        proof {
            if i == 0 {
                assert(acc@ =~= target[0]);
                assert(spec_join(target.take(1)) == target.take(1)[0]);
            }
        }
        i = i + 1;
    }
    proof {
        assert(target.take(n as int) =~= target);
    }
    acc
}

/// The ordinal power reserve calculator, carrying its sigmoid shapes.
#[derive(Debug, Clone, Copy, PartialEq, Eq, Structural)]
pub struct PowerReserveCalculator {
    /// The sigmoid shapes in force.
    pub config: SigmoidConfig,
}

impl Default for PowerReserveCalculator {
    fn default() -> (r: Self)
        ensures
            r.config == SigmoidConfig::spec_default(),
    {
        Self::new()
    }
}

impl PowerReserveCalculator {
    /// A calculator with the default shapes.
    pub fn new() -> (r: Self)
        ensures
            r.config == SigmoidConfig::spec_default(),
    {
        PowerReserveCalculator { config: SigmoidConfig::default() }
    }

    /// A calculator with caller-supplied shapes.
    pub fn with_config(config: SigmoidConfig) -> (r: Self)
        requires
            config.wf(),
        ensures
            r.config == config,
    {
        PowerReserveCalculator { config }
    }

    /// The configuration in force.
    pub fn get_config(&self) -> (r: &SigmoidConfig)
        ensures
            r == self.config,
    {
        &self.config
    }

    /// Replace the configuration.
    pub fn set_config(&mut self, config: SigmoidConfig)
        requires
            config.wf(),
        ensures
            final(self).config == config,
    {
        self.config = config;
    }

    /// The calculator's shapes are in range.
    pub open spec fn wf(self) -> bool {
        self.config.wf()
    }

    /// The configuration, for contracts.
    pub open spec fn spec_config(self) -> SigmoidConfig {
        self.config
    }

    /// The seven component pressures of a valid record, in component
    /// order.
    fn component_pressures(&self, m: &SystemMetrics) -> (r: Vec<u64>)
        requires
            self.wf(),
            m.spec_valid(),
        ensures
            r@.len() == 7,
            forall|i: int|
                0 <= i < 7 ==> (#[trigger] r@[i]) as int == spec_component_pressures(
                    *m,
                    self.config,
                )[i],
            forall|i: int| 0 <= i < 7 ==> 1 <= #[trigger] r@[i] <= 999_999,
    {
        let c = &self.config;
        let p0 = SigmoidFn { midpoint: c.cpu_threshold, steepness: c.cpu_steepness }.evaluate(
            m.cpu_usage,
        );
        let p1 = SigmoidFn { midpoint: c.iowait_threshold, steepness: c.iowait_steepness }.evaluate(
            m.cpu_iowait,
        );
        let p2 = SigmoidFn { midpoint: c.memory_threshold, steepness: c.memory_steepness }.evaluate(
            1_000_000 - m.mem_available,
        );
        let p3 = SigmoidFn { midpoint: c.swap_threshold, steepness: c.swap_steepness }.evaluate(
            m.swap_usage,
        );
        let p4 = SigmoidFn { midpoint: c.disk_threshold, steepness: c.disk_steepness }.evaluate(
            m.disk_usage,
        );
        let p5 = SigmoidFn { midpoint: c.network_threshold, steepness: c.network_steepness
        }.evaluate(m.net_usage);
        let p6 = SigmoidFn { midpoint: c.fd_threshold, steepness: c.fd_steepness }.evaluate(
            m.fd_usage,
        );
        let mut r: Vec<u64> = Vec::new();
        r.push(p0);
        r.push(p1);
        r.push(p2);
        r.push(p3);
        r.push(p4);
        r.push(p5);
        r.push(p6);
        proof {
            assert(r@ =~= seq![p0, p1, p2, p3, p4, p5, p6]);
        }
        r
    }

    /// The whole overall score of a record: an invalid record is a
    /// calculation error; otherwise the worst component pressure, rounded
    /// onto the zero-to-five scale.
    pub fn calculate_power_reserve(&self, metrics: &SystemMetrics) -> (r: PwrzvResult<u8>)
        requires
            self.wf(),
        ensures
            r is Ok <==> metrics.spec_valid(),
            r matches Ok(score) ==> score as int == spec_power_reserve(*metrics, self.spec_config())
                && score <= 5,
            r matches Err(e) ==> e matches PwrzvError::CalculationError { .. },
    {
        if !metrics.validate() {
            return Err(PwrzvError::calculation_error("Invalid metrics data"));
        }
        let p = self.component_pressures(metrics);
        let mut worst: u64 = p[0];
        if p[1] > worst {
            worst = p[1];
        }
        if p[2] > worst {
            worst = p[2];
        }
        if p[3] > worst {
            worst = p[3];
        }
        if p[4] > worst {
            worst = p[4];
        }
        if p[5] > worst {
            worst = p[5];
        }
        if p[6] > worst {
            worst = p[6];
        }
        let score: u64 = (5 * (1_000_000 - worst) + 500_000) / 1_000_000;
        Ok(score as u8)
    }

    /// The full ordinal result of a record: the overall score with its
    /// bucket, one whole score per component, and the threshold-based
    /// bottleneck description.
    pub fn calculate_detailed_score(&self, metrics: &SystemMetrics) -> (r: PwrzvResult<
        DetailedScore,
    >)
        requires
            self.wf(),
        ensures
            r is Ok <==> metrics.spec_valid(),
            r matches Ok(d) ==> {
                let ps = spec_component_pressures(*metrics, self.spec_config());
                &&& d.final_score as int == spec_power_reserve(*metrics, self.spec_config())
                &&& d.level == PowerReserveLevel::spec_from_score(d.final_score)
                &&& d.component_scores.cpu as int == spec_round_five(ps[0])
                &&& d.component_scores.iowait as int == spec_round_five(ps[1])
                &&& d.component_scores.memory as int == spec_round_five(ps[2])
                &&& d.component_scores.swap as int == spec_round_five(ps[3])
                &&& d.component_scores.disk as int == spec_round_five(ps[4])
                &&& d.component_scores.network as int == spec_round_five(ps[5])
                &&& d.component_scores.file_descriptor as int == spec_round_five(ps[6])
                &&& d.bottleneck@ == spec_bottleneck(*metrics, self.spec_config())
            },
            r matches Err(e) ==> e matches PwrzvError::CalculationError { .. },
    {
        if !metrics.validate() {
            return Err(PwrzvError::calculation_error("Invalid metrics data"));
        }
        let p = self.component_pressures(metrics);
        let mut worst: u64 = p[0];
        if p[1] > worst {
            worst = p[1];
        }
        if p[2] > worst {
            worst = p[2];
        }
        if p[3] > worst {
            worst = p[3];
        }
        if p[4] > worst {
            worst = p[4];
        }
        if p[5] > worst {
            worst = p[5];
        }
        if p[6] > worst {
            worst = p[6];
        }
        let final_score: u8 = ((5 * (1_000_000 - worst) + 500_000) / 1_000_000) as u8;
        let component_scores = ComponentScores {
            cpu: round_five(p[0]),
            iowait: round_five(p[1]),
            memory: round_five(p[2]),
            swap: round_five(p[3]),
            disk: round_five(p[4]),
            network: round_five(p[5]),
            file_descriptor: round_five(p[6]),
        };
        let bottleneck = self.identify_bottleneck(metrics);
        Ok(
            DetailedScore {
                final_score,
                level: PowerReserveLevel::from_score(final_score),
                component_scores,
                bottleneck,
            },
        )
    }

    /// The bottleneck description of a valid record: the names of the
    /// signals whose pressure is tied for the maximum, joined with a comma
    /// and a space, in the fixed component order.
    pub fn identify_bottleneck(&self, metrics: &SystemMetrics) -> (r: String)
        requires
            self.wf(),
            metrics.spec_valid(),
        ensures
            r@ == spec_bottleneck(*metrics, self.spec_config()),
    {
        let ghost target = spec_bottleneck_names(*metrics, self.config);
        let p = self.component_pressures(metrics);
        let mut worst: u64 = p[0];
        if p[1] > worst {
            worst = p[1];
        }
        if p[2] > worst {
            worst = p[2];
        }
        if p[3] > worst {
            worst = p[3];
        }
        if p[4] > worst {
            worst = p[4];
        }
        if p[5] > worst {
            worst = p[5];
        }
        if p[6] > worst {
            worst = p[6];
        }
        proof {
            assert(worst as int == spec_max_pressure(*metrics, self.config));
        }
        let mut names: Vec<String> = Vec::new();
        let ghost mut acc = Seq::<Seq<char>>::empty();

        let ghost d0 = names@;
        push_name(&mut names, p[0] == worst, "CPU");
        proof {
            let e = spec_opt_name(
                spec_component_pressures(*metrics, self.config)[0] == spec_max_pressure(
                    *metrics,
                    self.config,
                ),
                "CPU"@,
            );
            lemma_names_extend(d0, names@, acc, e);
            acc = acc + e;
        }
        let ghost d1 = names@;
        push_name(&mut names, p[1] == worst, "I/O Wait");
        proof {
            let e = spec_opt_name(
                spec_component_pressures(*metrics, self.config)[1] == spec_max_pressure(
                    *metrics,
                    self.config,
                ),
                "I/O Wait"@,
            );
            lemma_names_extend(d1, names@, acc, e);
            acc = acc + e;
        }
        let ghost d2 = names@;
        push_name(&mut names, p[2] == worst, "Memory");
        proof {
            let e = spec_opt_name(
                spec_component_pressures(*metrics, self.config)[2] == spec_max_pressure(
                    *metrics,
                    self.config,
                ),
                "Memory"@,
            );
            lemma_names_extend(d2, names@, acc, e);
            acc = acc + e;
        }
        let ghost d3 = names@;
        push_name(&mut names, p[3] == worst, "Swap");
        proof {
            let e = spec_opt_name(
                spec_component_pressures(*metrics, self.config)[3] == spec_max_pressure(
                    *metrics,
                    self.config,
                ),
                "Swap"@,
            );
            lemma_names_extend(d3, names@, acc, e);
            acc = acc + e;
        }
        let ghost d4 = names@;
        push_name(&mut names, p[4] == worst, "Disk I/O");
        proof {
            let e = spec_opt_name(
                spec_component_pressures(*metrics, self.config)[4] == spec_max_pressure(
                    *metrics,
                    self.config,
                ),
                "Disk I/O"@,
            );
            lemma_names_extend(d4, names@, acc, e);
            acc = acc + e;
        }
        let ghost d5 = names@;
        push_name(&mut names, p[5] == worst, "Network I/O");
        proof {
            let e = spec_opt_name(
                spec_component_pressures(*metrics, self.config)[5] == spec_max_pressure(
                    *metrics,
                    self.config,
                ),
                "Network I/O"@,
            );
            lemma_names_extend(d5, names@, acc, e);
            acc = acc + e;
        }
        let ghost d6 = names@;
        push_name(&mut names, p[6] == worst, "File Descriptors");
        proof {
            let e = spec_opt_name(
                spec_component_pressures(*metrics, self.config)[6] == spec_max_pressure(
                    *metrics,
                    self.config,
                ),
                "File Descriptors"@,
            );
            lemma_names_extend(d6, names@, acc, e);
            acc = acc + e;
        }
        proof {
            assert(acc =~= target);
        }
        join_names(&names, Ghost(target))
    }
}

/// One pressure rounded onto the whole scale, matching `spec_round_five`.
fn round_five(p: u64) -> (r: u8)
    requires
        p <= 1_000_000,
    ensures
        r as int == spec_round_five(p as int),
        r <= 5,
{
    ((5 * (1_000_000 - p) + 500_000) / 1_000_000) as u8
}

/// The worst component pressure bounds the overall score from above: no
/// individual signal's rounded score is beaten by the overall one, so the
/// reduction never reads better than its most stressed component.
pub proof fn lemma_overall_never_beats_component(m: SystemMetrics, c: SigmoidConfig, i: int)
    requires
        0 <= i < 7,
    ensures
        spec_power_reserve(m, c) <= spec_round_five(spec_component_pressures(m, c)[i]),
{
    let p = spec_component_pressures(m, c);
    let w = spec_max_pressure(m, c);
    assert(p[i] <= w);
    vstd::arithmetic::div_mod::lemma_div_is_ordered(
        5 * (1_000_000 - w) + 500_000,
        5 * (1_000_000 - p[i]) + 500_000,
        1_000_000,
    );
}

} // verus!
