//! The five-point reserve scale, and the shared machinery that turns a
//! snapshot's signals into labelled scores.
//!
//! A pressure in `(0, 1)` becomes a reserve score on the `0`–`5` scale by
//! `5 * (1 - pressure)`, kept to four decimal places.  A provider walks its
//! signals in a fixed order, scores each present one, and the lowest score —
//! the most stressed resource — is the overall power reserve level.

use vstd::prelude::*;
use vstd::string::*;
use crate::sigmoid::{spec_pressure, SigmoidFn};

verus! {

/// The neutral level returned when not one signal could be measured:
/// mid-scale, `3.0`.
pub const NEUTRAL_LEVEL: u64 = 3_000_000;

/// A pressure turned into a reserve score: `5 * (1 - p)` in fixed point,
/// rounded to four decimal places (the nearest multiple of one hundred).
pub open spec fn spec_five_point(p: int) -> int
    recommends
        0 <= p <= 1_000_000,
{
    ((5 * (1_000_000 - p) + 50) / 100) * 100
}

/// Convert a pressure to the five-point scale, matching `spec_five_point`.
pub fn five_point_scale_with_decimal(score: u64) -> (r: u64)
    requires
        score <= 1_000_000,
    ensures
        r as int == spec_five_point(score as int),
        r <= 5_000_000,
{
    let base: u64 = 5 * (1_000_000 - score);
    ((base + 50) / 100) * 100
}

/// The reserve score of one raw signal value under one sigmoid shape.
pub open spec fn spec_score(x: u64, f: SigmoidFn) -> int {
    spec_five_point(spec_pressure(f.midpoint as int, f.steepness as int, x as int))
}

/// The labelled score an optional signal contributes: one entry when the
/// signal is present, none when it is absent.
pub open spec fn spec_opt_entries(v: Option<u64>, f: SigmoidFn, label: Seq<char>) -> Seq<
    (Seq<char>, int),
> {
    match v {
        Some(x) => seq![(label, spec_score(x, f))],
        None => Seq::empty(),
    }
}

/// The built detail list matches its specification entry for entry.
pub open spec fn details_match(d: Seq<(String, u64)>, s: Seq<(Seq<char>, int)>) -> bool {
    &&& d.len() == s.len()
    &&& forall|i: int|
        0 <= i < d.len() ==> (#[trigger] d[i]).0@ == s[i].0 && d[i].1 as int == s[i].1
}

/// Appending one optional entry keeps the detail list matched.
pub proof fn lemma_details_extend(
    dv: Seq<(String, u64)>,
    nv: Seq<(String, u64)>,
    p: Seq<(Seq<char>, int)>,
    e: Seq<(Seq<char>, int)>,
)
    requires
        details_match(dv, p),
        e.len() == 0 ==> nv == dv,
        e.len() == 1 ==> nv.len() == dv.len() + 1 && (forall|i: int|
            0 <= i < dv.len() ==> nv[i] == dv[i]) && nv.last().0@ == e[0].0 && nv.last().1 as int
            == e[0].1,
        e.len() <= 1,
    ensures
        details_match(nv, p + e),
{
    if e.len() == 0 {
        assert(p + e =~= p);
    } else {
        assert forall|i: int| 0 <= i < nv.len() implies (#[trigger] nv[i]).0@ == (p + e)[i].0
            && nv[i].1 as int == (p + e)[i].1 by {
            if i < dv.len() {
                assert(nv[i] == dv[i]);
                assert((p + e)[i] == p[i]);
            } else {
                assert(nv[i] == nv.last());
                assert((p + e)[i] == e[0]);
            }
        }
    }
}

/// The lowest score among the entries.
pub open spec fn spec_min_entry(s: Seq<(Seq<char>, int)>) -> int
    recommends
        s.len() > 0,
    decreases s.len(),
{
    if s.len() <= 1 {
        s[0].1
    } else {
        let rest = spec_min_entry(s.drop_last());
        if s.last().1 < rest {
            s.last().1
        } else {
            rest
        }
    }
}

/// `spec_min_entry` is attained and is a lower bound.
pub proof fn lemma_min_entry_is_min(s: Seq<(Seq<char>, int)>)
    requires
        s.len() > 0,
    ensures
        exists|i: int| 0 <= i < s.len() && (#[trigger] s[i]).1 == spec_min_entry(s),
        forall|i: int| 0 <= i < s.len() ==> spec_min_entry(s) <= (#[trigger] s[i]).1,
    decreases s.len(),
{
    if s.len() > 1 {
        lemma_min_entry_is_min(s.drop_last());
        let m = spec_min_entry(s);
        if s.last().1 < spec_min_entry(s.drop_last()) {
            assert(s[s.len() - 1].1 == m);
        } else {
            assert(m == spec_min_entry(s.drop_last()));
            let j = choose|j: int|
                0 <= j < s.drop_last().len() && (#[trigger] s.drop_last()[j]).1 == spec_min_entry(
                    s.drop_last(),
                );
            assert(s.drop_last()[j] == s[j]);
            assert(s[j].1 == m);
        }
        assert forall|i: int| 0 <= i < s.len() implies m <= (#[trigger] s[i]).1 by {
            if i < s.len() - 1 {
                assert(s.drop_last()[i] == s[i]);
            }
        }
    } else {
        assert(s[0].1 == spec_min_entry(s));
    }
}

/// Score one optional signal and append its labelled entry.
pub fn push_signal(details: &mut Vec<(String, u64)>, v: Option<u64>, f: SigmoidFn, label: &str)
    requires
        f.wf(),
        v matches Some(x) ==> x <= 10_000_000,
    ensures
        v is None ==> final(details)@ == old(details)@,
        v matches Some(x) ==> final(details)@.len() == old(details)@.len() + 1 && (forall|i: int|
            0 <= i < old(details)@.len() ==> final(details)@[i] == old(details)@[i])
            && final(details)@.last().0@ == label@
            && final(details)@.last().1 as int == spec_score(x, f),
{
    match v {
        Some(x) => {
            let pressure = f.evaluate(x as i64);
            let score = five_point_scale_with_decimal(pressure);
            details.push((String::from_str(label), score));
        },
        None => {},
    }
}

/// The lowest score in the detail list: the bottleneck's score, absent only
/// for an empty list.
#[verifier::loop_isolation(false)]
pub fn min_score(details: &Vec<(String, u64)>) -> (r: Option<u64>)
    ensures
        details@.len() == 0 <==> r is None,
        r matches Some(m) ==> (exists|i: int| 0 <= i < details@.len() && (#[trigger] details@[i]).1 == m)
            && (forall|i: int| 0 <= i < details@.len() ==> m <= (#[trigger] details@[i]).1),
{
    if details.len() == 0 {
        return None;
    }
    let mut m: u64 = details[0].1;
    let mut i: usize = 1;
    while i < details.len()
        invariant
            1 <= i <= details@.len(),
            exists|j: int| 0 <= j < i && (#[trigger] details@[j]).1 == m,
            forall|j: int| 0 <= j < i ==> m <= (#[trigger] details@[j]).1,
        decreases details@.len() - i,
    {
        if details[i].1 < m {
            m = details[i].1;
        }
        i = i + 1;
    }
    Some(m)
}

} // verus!
