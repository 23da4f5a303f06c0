use vstd::prelude::*;
use crate::text::to_chars;

verus! {

/// A calendar day, as the number of days from the first day of the Common Era
/// (0001-01-01 is day 1).
#[derive(Debug, Clone, Copy, PartialEq, Eq, Structural)]
pub struct Date {
    pub days_from_ce: i32,
}

impl Date {
    pub fn from_days_from_ce(days_from_ce: i32) -> (r: Date)
        ensures
            r.days_from_ce == days_from_ce,
    {
        Date { days_from_ce }
    }
}

/// A resolved dependency: what was declared and the day that version was
/// published.
#[derive(Debug, Clone)]
pub struct Package {
    pub name: String,
    pub version: String,
    pub release_date: Date,
}

/// `p` occurs in `s` as a contiguous run of characters.
pub open spec fn has_sub(s: Seq<char>, p: Seq<char>) -> bool {
    exists|i: int| 0 <= i && i + p.len() <= s.len() && #[trigger] s.subrange(i, i + p.len()) == p
}

/// A version marked as a pre-release: it holds `alpha`, `beta`, `rc` or `dev`.
pub open spec fn is_prerelease_version(v: Seq<char>) -> bool {
    has_sub(v, "alpha"@) || has_sub(v, "beta"@) || has_sub(v, "rc"@) || has_sub(v, "dev"@)
}

fn contains_chars(s: &Vec<char>, p: &Vec<char>) -> (r: bool)
    ensures
        r == has_sub(s@, p@),
{
    let n = s.len();
    let m = p.len();
    if m > n {
        return false;
    }
    let mut i: usize = 0;
    while i <= n - m
        invariant
            m <= n,
            i <= n - m + 1,
            n == s@.len(),
            m == p@.len(),
            forall|k: int| 0 <= k < i ==> #[trigger] s@.subrange(k, k + m) != p@,
        decreases n - i,
    {
        let mut j: usize = 0;
        while j < m && s[i + j] == p[j]
            invariant
                i + m <= n,
                j <= m,
                n == s@.len(),
                m == p@.len(),
                forall|t: int| 0 <= t < j ==> s@[i + t] == p@[t],
            decreases m - j,
        {
            j = j + 1;
        }
        if j == m {
            assert(s@.subrange(i as int, i + m) =~= p@);
            return true;
        }
        assert(s@.subrange(i as int, i + m)[j as int] != p@[j as int]);
        i = i + 1;
    }
    assert forall|k: int| 0 <= k && k + p@.len() <= s@.len() implies #[trigger] s@.subrange(
        k,
        k + p@.len(),
    ) != p@ by {
        assert(k < i);
    }
    false
}

impl Package {
    pub fn new(name: String, version: String, release_date: Date) -> (r: Package)
        ensures
            r.name == name,
            r.version == version,
            r.release_date == release_date,
    {
        Package { name, version, release_date }
    }

    pub fn name(&self) -> (r: &str)
        ensures
            r@ == self.name@,
    {
        self.name.as_str()
    }

    /// Whether the version is marked as a pre-release.
    pub fn is_prerealese(&self) -> (r: bool)
        ensures
            r == is_prerelease_version(self.version@),
    {
        let v = to_chars(self.version.as_str());
        contains_chars(&v, &to_chars("alpha")) || contains_chars(&v, &to_chars("beta"))
            || contains_chars(&v, &to_chars("rc")) || contains_chars(&v, &to_chars("dev"))
    }
}

} // verus!
