use vstd::prelude::*;
use crate::staleness::{Mean, StalenessReport};

verus! {

/// Upper bounds on the staleness statistics; `None` enforces nothing.
#[derive(Debug, Clone, Copy, PartialEq, Eq, Structural)]
pub struct Thresholds {
    pub max_avg_days: Option<u32>,
    pub max_single_days: Option<u32>,
}

/// A limit that a report goes beyond.
#[derive(Debug)]
pub enum ViolatedLimit {
    /// The mean days late is above the limit.
    Average { mean: Mean, limit: u32 },
    /// One package is more days late than the limit.
    Single { name: String, days_late: i64, limit: u32 },
}

/// The outcome of holding a report to its thresholds.
#[derive(Debug)]
pub enum Verdict {
    /// Within every limit; `no_data` where a limit is set but no package
    /// counted, so there was nothing to hold to it.
    Pass { no_data: bool },
    Fail(Vec<ViolatedLimit>),
}

/// The mean is above `limit`.
pub open spec fn mean_exceeds(m: Mean, limit: u32) -> bool {
    m.total > (limit as int) * (m.count as int)
}

pub open spec fn average_violations(avg: Option<Mean>, limit: Option<u32>) -> Seq<ViolatedLimit> {
    match (avg, limit) {
        (Some(m), Some(l)) => if mean_exceeds(m, l) {
            seq![ViolatedLimit::Average { mean: m, limit: l }]
        } else {
            Seq::empty()
        },
        _ => Seq::empty(),
    }
}

/// One violation for each package above `limit`, in report order.
pub open spec fn single_violations(entries: Seq<(String, i64)>, limit: u32) -> Seq<ViolatedLimit>
    decreases entries.len(),
{
    if entries.len() == 0 {
        Seq::empty()
    } else {
        let prev = single_violations(entries.drop_last(), limit);
        let e = entries.last();
        if e.1 > limit {
            prev.push(ViolatedLimit::Single { name: e.0, days_late: e.1, limit })
        } else {
            prev
        }
    }
}

pub open spec fn violations(r: StalenessReport, t: Thresholds) -> Seq<ViolatedLimit> {
    average_violations(r.average_days_late, t.max_avg_days) + match t.max_single_days {
        Some(l) => single_violations(r.per_package@, l),
        None => Seq::empty(),
    }
}

/// A limit is set but the statistics it bounds are undefined.
pub open spec fn lacks_data(r: StalenessReport, t: Thresholds) -> bool {
    (t.max_avg_days is Some || t.max_single_days is Some) && r.average_days_late is None
}

/// Holds a report to the thresholds: it fails with every violated limit
/// where there is one, and passes otherwise, noting where a limit was set
/// but there was no data to hold to it.
pub fn evaluate(report: &StalenessReport, thresholds: &Thresholds) -> (r: Verdict)
    ensures
        violations(*report, *thresholds).len() == 0 ==> r == (Verdict::Pass {
            no_data: lacks_data(*report, *thresholds),
        }),
        violations(*report, *thresholds).len() > 0 ==> (r is Fail && r->Fail_0@ == violations(
            *report,
            *thresholds,
        )),
{
    let mut found: Vec<ViolatedLimit> = Vec::new();
    match (report.average_days_late, thresholds.max_avg_days) {
        (Some(m), Some(l)) => {
            assert((l as int) * (m.count as int) < 0x1_0000_0000_0000_0000_0000_0000) by (nonlinear_arith)
                requires
                    l < 0x1_0000_0000,
                    m.count < 0x1_0000_0000_0000_0000,
            ;
            if m.total > l as i128 * m.count as i128 {
                found.push(ViolatedLimit::Average { mean: m, limit: l });
            }
        },
        _ => {},
    }
    assert(found@ =~= average_violations(report.average_days_late, thresholds.max_avg_days));
    let ghost avg = found@;
    match thresholds.max_single_days {
        Some(l) => {
            let entries = &report.per_package;
            let mut i: usize = 0;
            while i < entries.len()
                invariant
                    i <= entries@.len(),
                    found@ == avg + single_violations(entries@.subrange(0, i as int), l),
                decreases entries.len() - i,
            {
                assert(entries@.subrange(0, i + 1).drop_last() =~= entries@.subrange(0, i as int));
                if entries[i].1 > l as i64 {
                    found.push(
                        ViolatedLimit::Single { name: entries[i].0.clone(), days_late: entries[i].1, limit: l },
                    );
                    assert(found@ =~= avg + single_violations(entries@.subrange(0, i + 1), l));
                }
                i = i + 1;
            }
            assert(entries@.subrange(0, i as int) =~= entries@);
        },
        None => {
            assert(found@ =~= avg + Seq::empty());
        },
    }
    if found.len() == 0 {
        let no_data = (thresholds.max_avg_days.is_some() || thresholds.max_single_days.is_some())
            && report.average_days_late.is_none();
        Verdict::Pass { no_data }
    } else {
        Verdict::Fail(found)
    }
}

/// With no package counted, the statistics are undefined and no threshold,
/// however set, makes the report fail.
pub proof fn lemma_no_data_passes(report: StalenessReport, thresholds: Thresholds)
    requires
        report.per_package@.len() == 0,
        report.average_days_late is None,
    ensures
        violations(report, thresholds).len() == 0,
{
    match thresholds.max_single_days {
        Some(l) => {
            assert(single_violations(report.per_package@, l) =~= Seq::empty());
        },
        None => {},
    }
}

} // verus!
