use vstd::prelude::*;
use crate::package::{Date, Package};
use crate::registry::ErrorKind;
use crate::text::clone_strings;

verus! {

/// A failed resolution, tagged with what was declared.
#[derive(Debug)]
pub struct PackageError {
    pub name: String,
    pub version: String,
    pub kind: ErrorKind,
}

/// The mean of `total` over `count` values.
#[derive(Debug, Clone, Copy, PartialEq, Eq, Structural)]
pub struct Mean {
    pub total: i128,
    pub count: u64,
}

/// The staleness of a set of resolved dependencies.
#[derive(Debug)]
pub struct StalenessReport {
    /// Name and days late of each resolved package that is not excluded.
    pub per_package: Vec<(String, i64)>,
    /// Undefined (`None`) where no package counts.
    pub average_days_late: Option<Mean>,
    /// Undefined (`None`) where no package counts.
    pub max_days_late: Option<i64>,
    pub excluded: Vec<String>,
    pub failed: Vec<PackageError>,
}

pub open spec fn days_late(p: Package, reference: Date) -> int {
    reference.days_from_ce - p.release_date.days_from_ce
}

pub open spec fn names_view(v: Seq<String>) -> Seq<Seq<char>> {
    v.map_values(|s: String| s@)
}

/// Name and days late of each successful outcome whose name is not excluded,
/// in order.
pub open spec fn counted(
    outs: Seq<Result<Package, PackageError>>,
    excluded: Seq<Seq<char>>,
    reference: Date,
) -> Seq<(Seq<char>, int)>
    decreases outs.len(),
{
    if outs.len() == 0 {
        Seq::empty()
    } else {
        let prev = counted(outs.drop_last(), excluded, reference);
        match outs.last() {
            Ok(p) => if excluded.contains(p.name@) {
                prev
            } else {
                prev.push((p.name@, days_late(p, reference)))
            },
            Err(_) => prev,
        }
    }
}

/// The failed outcomes, in order.
pub open spec fn failures(outs: Seq<Result<Package, PackageError>>) -> Seq<PackageError>
    decreases outs.len(),
{
    if outs.len() == 0 {
        Seq::empty()
    } else {
        let prev = failures(outs.drop_last());
        match outs.last() {
            Ok(_) => prev,
            Err(e) => prev.push(e),
        }
    }
}

pub open spec fn sum_days(s: Seq<(Seq<char>, int)>) -> int
    decreases s.len(),
{
    if s.len() == 0 {
        0
    } else {
        sum_days(s.drop_last()) + s.last().1
    }
}

pub open spec fn max_days(s: Seq<(Seq<char>, int)>) -> Option<int>
    decreases s.len(),
{
    if s.len() == 0 {
        None
    } else {
        match max_days(s.drop_last()) {
            None => Some(s.last().1),
            Some(m) => Some(if s.last().1 > m {
                s.last().1
            } else {
                m
            }),
        }
    }
}

pub open spec fn entries_view(v: Seq<(String, i64)>) -> Seq<(Seq<char>, int)> {
    v.map_values(|e: (String, i64)| (e.0@, e.1 as int))
}

pub open spec fn mean_of(s: Seq<(Seq<char>, int)>) -> Option<(int, int)> {
    if s.len() == 0 {
        None
    } else {
        Some((sum_days(s), s.len() as int))
    }
}

pub open spec fn mean_view(m: Option<Mean>) -> Option<(int, int)> {
    match m {
        Some(m) => Some((m.total as int, m.count as int)),
        None => None,
    }
}

pub open spec fn max_view(m: Option<i64>) -> Option<int> {
    match m {
        Some(x) => Some(x as int),
        None => None,
    }
}

fn is_excluded(excluded: &Vec<String>, name: &String) -> (r: bool)
    ensures
        r == names_view(excluded@).contains(name@),
{
    let mut i: usize = 0;
    while i < excluded.len()
        invariant
            i <= excluded@.len(),
            forall|k: int| 0 <= k < i ==> excluded@[k]@ != name@,
        decreases excluded.len() - i,
    {
        if excluded[i] == *name {
            assert(names_view(excluded@)[i as int] == name@);
            return true;
        }
        i = i + 1;
    }
    assert(!names_view(excluded@).contains(name@)) by {
        if names_view(excluded@).contains(name@) {
            let k = choose|k: int| 0 <= k < names_view(excluded@).len() && names_view(excluded@)[k] == name@;
            assert(excluded@[k]@ == name@);
        }
    }
    false
}

/// Folds resolution outcomes into a report: each resolved package not named
/// in `excluded` counts with `reference - release_date` days (negative where
/// the release is later than `reference`), failures are listed, and the mean
/// and the maximum are taken over the counted packages only.
pub fn aggregate(
    outcomes: &Vec<Result<Package, PackageError>>,
    excluded: &Vec<String>,
    reference: Date,
) -> (r: StalenessReport)
    ensures
        entries_view(r.per_package@) == counted(outcomes@, names_view(excluded@), reference),
        mean_view(r.average_days_late) == mean_of(
            counted(outcomes@, names_view(excluded@), reference),
        ),
        max_view(r.max_days_late) == max_days(counted(outcomes@, names_view(excluded@), reference)),
        names_view(r.excluded@) == names_view(excluded@),
        r.failed@ == failures(outcomes@),
{
    let ghost ex = names_view(excluded@);
    let mut per_package: Vec<(String, i64)> = Vec::new();
    let mut failed: Vec<PackageError> = Vec::new();
    let mut total: i128 = 0;
    let mut max: Option<i64> = None;
    let mut i: usize = 0;
    while i < outcomes.len()
        invariant
            i <= outcomes@.len(),
            ex == names_view(excluded@),
            entries_view(per_package@) == counted(outcomes@.subrange(0, i as int), ex, reference),
            failed@ == failures(outcomes@.subrange(0, i as int)),
            total as int == sum_days(entries_view(per_package@)),
            -(per_package@.len() as int) * 0x1_0000_0000 <= total <= (per_package@.len() as int)
                * 0x1_0000_0000,
            per_package@.len() <= i,
            max_view(max) == max_days(entries_view(per_package@)),
        decreases outcomes.len() - i,
    {
        let ghost prev = outcomes@.subrange(0, i as int);
        let ghost prev_entries = per_package@;
        assert(outcomes@.subrange(0, i + 1).drop_last() =~= prev);
        match &outcomes[i] {
            Ok(p) => {
                if !is_excluded(excluded, &p.name) {
                    let d: i64 = reference.days_from_ce as i64 - p.release_date.days_from_ce as i64;
                    per_package.push((p.name.clone(), d));
                    assert(entries_view(per_package@) =~= entries_view(prev_entries).push(
                        (p.name@, d as int),
                    ));
                    assert(entries_view(per_package@).drop_last() =~= entries_view(prev_entries));
                    total = total + d as i128;
                    max = match max {
                        None => Some(d),
                        Some(m) => Some(if d > m {
                            d
                        } else {
                            m
                        }),
                    };
                }
            },
            Err(e) => {
                failed.push(PackageError { name: e.name.clone(), version: e.version.clone(), kind: e.kind });
            },
        }
        i = i + 1;
    }
    assert(outcomes@.subrange(0, i as int) =~= outcomes@);
    let average_days_late = if per_package.len() == 0 {
        None
    } else {
        Some(Mean { total, count: per_package.len() as u64 })
    };
    let kept = clone_strings(excluded);
    StalenessReport { per_package, average_days_late, max_days_late: max, excluded: kept, failed }
}

/// Outcomes do not affect one another: whatever the other outcomes are
/// (failures of any kind included), a resolved package that is not excluded
/// counts with its own days late, and a failed one is listed among the
/// failures.
pub proof fn lemma_outcomes_isolated(
    outs: Seq<Result<Package, PackageError>>,
    excluded: Seq<Seq<char>>,
    reference: Date,
    i: int,
)
    requires
        0 <= i < outs.len(),
    ensures
        outs[i] is Ok && !excluded.contains(outs[i]->Ok_0.name@) ==> counted(
            outs,
            excluded,
            reference,
        ).contains((outs[i]->Ok_0.name@, days_late(outs[i]->Ok_0, reference))),
        outs[i] is Err ==> failures(outs).contains(outs[i]->Err_0),
    decreases outs.len(),
{
    let prev = outs.drop_last();
    if i < outs.len() - 1 {
        lemma_outcomes_isolated(prev, excluded, reference, i);
        assert(prev[i] == outs[i]);
        let c = counted(prev, excluded, reference);
        let f = failures(prev);
        if outs[i] is Ok && !excluded.contains(outs[i]->Ok_0.name@) {
            let x = (outs[i]->Ok_0.name@, days_late(outs[i]->Ok_0, reference));
            let k = choose|k: int| 0 <= k < c.len() && c[k] == x;
            match outs.last() {
                Ok(p) => if !excluded.contains(p.name@) {
                    assert(c.push((p.name@, days_late(p, reference)))[k] == x);
                },
                Err(_) => {},
            }
        }
        if outs[i] is Err {
            let k = choose|k: int| 0 <= k < f.len() && f[k] == outs[i]->Err_0;
            match outs.last() {
                Ok(_) => {},
                Err(e) => {
                    assert(f.push(e)[k] == outs[i]->Err_0);
                },
            }
        }
    } else {
        let c = counted(prev, excluded, reference);
        let f = failures(prev);
        match outs.last() {
            Ok(p) => if !excluded.contains(p.name@) {
                assert(c.push((p.name@, days_late(p, reference)))[c.len() as int] == (
                p.name@,
                days_late(p, reference),
                ));
            },
            Err(e) => {
                assert(f.push(e)[f.len() as int] == e);
            },
        }
    }
}

pub open spec fn max_opt(x: Option<int>, y: Option<int>) -> Option<int> {
    match (x, y) {
        (Some(a), Some(b)) => Some(if b > a {
            b
        } else {
            a
        }),
        (Some(a), None) => Some(a),
        (None, _) => y,
    }
}

proof fn lemma_counted_append(
    a: Seq<Result<Package, PackageError>>,
    b: Seq<Result<Package, PackageError>>,
    excluded: Seq<Seq<char>>,
    reference: Date,
)
    ensures
        counted(a + b, excluded, reference) == counted(a, excluded, reference) + counted(
            b,
            excluded,
            reference,
        ),
    decreases b.len(),
{
    if b.len() == 0 {
        assert(a + b =~= a);
        assert(counted(a, excluded, reference) + Seq::empty() =~= counted(a, excluded, reference));
    } else {
        assert((a + b).drop_last() =~= a + b.drop_last());
        lemma_counted_append(a, b.drop_last(), excluded, reference);
        let ca = counted(a, excluded, reference);
        let cb = counted(b.drop_last(), excluded, reference);
        match b.last() {
            Ok(p) => if !excluded.contains(p.name@) {
                assert((ca + cb).push((p.name@, days_late(p, reference))) =~= ca + cb.push(
                    (p.name@, days_late(p, reference)),
                ));
            },
            Err(_) => {},
        }
    }
}

proof fn lemma_stats_append(x: Seq<(Seq<char>, int)>, y: Seq<(Seq<char>, int)>)
    ensures
        sum_days(x + y) == sum_days(x) + sum_days(y),
        max_days(x + y) == max_opt(max_days(x), max_days(y)),
    decreases y.len(),
{
    if y.len() == 0 {
        assert(x + y =~= x);
    } else {
        assert((x + y).drop_last() =~= x + y.drop_last());
        lemma_stats_append(x, y.drop_last());
    }
}

/// The statistics of a report do not depend on the order in which the
/// outcomes arrive: two lists holding the same outcomes give the same
/// counted packages' total, number and maximum.
pub proof fn lemma_order_independent(
    a: Seq<Result<Package, PackageError>>,
    b: Seq<Result<Package, PackageError>>,
    excluded: Seq<Seq<char>>,
    reference: Date,
)
    requires
        a.to_multiset() == b.to_multiset(),
    ensures
        sum_days(counted(a, excluded, reference)) == sum_days(counted(b, excluded, reference)),
        counted(a, excluded, reference).len() == counted(b, excluded, reference).len(),
        max_days(counted(a, excluded, reference)) == max_days(counted(b, excluded, reference)),
    decreases a.len(),
{
    broadcast use vstd::seq_lib::group_to_multiset_ensures;

    if a.len() == 0 {
        assert(a.to_multiset().len() == a.len());
        assert(b.to_multiset().len() == b.len());
        assert(b.len() == 0);
        assert(a =~= b);
    } else {
        let x = a.last();
        let a1 = a.drop_last();
        assert(a1.push(x) =~= a);
        assert(b.to_multiset().count(x) > 0);
        let j = choose|j: int| 0 <= j < b.len() && b[j] == x;
        let b1 = b.subrange(0, j);
        let b3 = b.subrange(j + 1, b.len() as int);
        let b2 = b.remove(j);
        assert(b2 =~= b1 + b3);
        assert(b =~= b1 + seq![x] + b3);
        assert(a1.to_multiset() =~= a.to_multiset().remove(x));
        assert(b2.to_multiset() =~= b.to_multiset().remove(b[j]));
        lemma_order_independent(a1, b2, excluded, reference);
        let one = seq![x];
        assert(a =~= a1 + one);
        lemma_counted_append(a1, one, excluded, reference);
        lemma_counted_append(b1, one, excluded, reference);
        lemma_counted_append(b1 + one, b3, excluded, reference);
        lemma_counted_append(b1, b3, excluded, reference);
        let c1 = counted(b1, excluded, reference);
        let cx = counted(one, excluded, reference);
        let c3 = counted(b3, excluded, reference);
        let ca1 = counted(a1, excluded, reference);
        lemma_stats_append(ca1, cx);
        lemma_stats_append(c1 + cx, c3);
        lemma_stats_append(c1, cx);
        lemma_stats_append(c1, c3);
    }
}

} // verus!
