use vstd::prelude::*;
use chrono::Datelike;
use crate::package::Date;

verus! {

/// Attempts made for one package before a transient failure is final.
pub const MAX_ATTEMPTS: u32 = 3;

/// The pause after the n-th failed attempt is n times this many milliseconds.
pub const BACKOFF_STEP_MS: u64 = 200;

/// Connect timeout for registry requests, in seconds.
pub const CONNECT_TIMEOUT_SECS: u64 = 10;

/// The most registry requests in flight at once.
pub const MAX_CONCURRENT_REQUESTS: usize = 16;

/// Whole-request timeout for registry requests, in seconds.
pub const REQUEST_TIMEOUT_SECS: u64 = 30;

/// An upload instant: seconds and nanoseconds since the Unix epoch, and the
/// calendar day (counted from the Common Era) of the timestamp as written.
#[derive(Debug, Clone, Copy, PartialEq, Eq, Structural)]
pub struct UploadTime {
    pub seconds: i64,
    pub nanos: u32,
    pub day: i32,
}

/// A network-level failure of one attempt.
#[derive(Debug, Clone, Copy, PartialEq, Eq, Structural)]
pub enum TransientKind {
    Connect,
    Timeout,
    Decode,
}

/// Why one package could not be resolved.
#[derive(Debug, Clone, Copy, PartialEq, Eq, Structural)]
pub enum ErrorKind {
    /// The registry's answer has no key for the declared version.
    VersionNotFound,
    /// The declared version's key is there, but with no upload record.
    NoUploadRecords,
    /// The registry answered with a non-success status.
    RegistryHttpError(u16),
    /// Every attempt failed at the network level; the last failure is kept.
    RegistryUnavailable(TransientKind),
    /// An upload timestamp is in neither accepted format.
    InvalidReleaseTimestamp,
}

/// One version's entry in the registry's answer: its upload timestamps.
#[derive(Debug)]
pub struct Release {
    pub version: String,
    pub upload_times: Vec<String>,
}

/// What one attempt against the registry gave.
#[derive(Debug)]
pub enum FetchEvent {
    Transient(TransientKind),
    HttpStatus(u16),
    Body(Vec<Release>),
}

/// What to do after an attempt.
#[derive(Debug, Clone, Copy, PartialEq, Eq)]
pub enum Step {
    Retry { delay_ms: u64 },
    Finish(Result<Date, ErrorKind>),
}

/// What chrono's RFC 3339 parser makes of a text.
pub uninterp spec fn rfc3339_instant(s: Seq<char>) -> Option<(i64, u32, i32)>;

/// What chrono's naive date-time parser makes of a text under a format.
pub uninterp spec fn naive_instant(s: Seq<char>, fmt: Seq<char>) -> Option<(i64, u32, i32)>;

/// Relies on chrono's `DateTime::parse_from_rfc3339`: `None` where the text
/// is not RFC 3339, else the instant's Unix seconds and sub-second
/// nanoseconds, and the day number of its date at its own offset.
#[verifier::external_body]
fn parse_rfc3339(s: &str) -> (r: Option<(i64, u32, i32)>)
    ensures
        r == rfc3339_instant(s@),
{
    match chrono::DateTime::parse_from_rfc3339(s) {
        Ok(t) => Some((t.timestamp(), t.timestamp_subsec_nanos(), t.date_naive().num_days_from_ce())),
        Err(_) => None,
    }
}

/// Relies on chrono's `NaiveDateTime::parse_from_str`: `None` where the text
/// does not match the format, else the instant read as UTC, as Unix seconds
/// and sub-second nanoseconds, and the day number of its date.
#[verifier::external_body]
fn parse_naive(s: &str, fmt: &str) -> (r: Option<(i64, u32, i32)>)
    ensures
        r == naive_instant(s@, fmt@),
{
    match chrono::NaiveDateTime::parse_from_str(s, fmt) {
        Ok(t) => Some((t.and_utc().timestamp(), t.and_utc().timestamp_subsec_nanos(), t.date().num_days_from_ce())),
        Err(_) => None,
    }
}

/// The fallback timestamp format: a date and a time without an offset.
pub open spec fn naive_format() -> Seq<char> {
    "%Y-%m-%dT%H:%M:%S"@
}

pub open spec fn to_upload(t: Option<(i64, u32, i32)>) -> Option<UploadTime> {
    match t {
        Some((seconds, nanos, day)) => Some(UploadTime { seconds, nanos, day }),
        None => None,
    }
}

/// An upload timestamp read as RFC 3339 first and as a naive date-time second.
pub open spec fn upload_of(s: Seq<char>) -> Option<UploadTime> {
    match rfc3339_instant(s) {
        Some(t) => to_upload(Some(t)),
        None => to_upload(naive_instant(s, naive_format())),
    }
}

/// Reads one upload timestamp: RFC 3339 first, then the naive format.
pub fn parse_upload_time(s: &str) -> (r: Option<UploadTime>)
    ensures
        r == upload_of(s@),
{
    match parse_rfc3339(s) {
        Some((seconds, nanos, day)) => Some(UploadTime { seconds, nanos, day }),
        None => match parse_naive(s, "%Y-%m-%dT%H:%M:%S") {
            Some((seconds, nanos, day)) => Some(UploadTime { seconds, nanos, day }),
            None => None,
        },
    }
}

/// `a` is a strictly later instant than `b`.
pub open spec fn later(a: UploadTime, b: UploadTime) -> bool {
    a.seconds > b.seconds || (a.seconds == b.seconds && a.nanos > b.nanos)
}

/// The latest of the uploads, the earliest listed among equals.
pub open spec fn latest_of(s: Seq<UploadTime>) -> Option<UploadTime>
    decreases s.len(),
{
    if s.len() == 0 {
        None
    } else {
        match latest_of(s.drop_last()) {
            None => Some(s.last()),
            Some(m) => if later(s.last(), m) {
                Some(s.last())
            } else {
                Some(m)
            },
        }
    }
}

pub open spec fn all_parsed(s: Seq<Option<UploadTime>>) -> bool {
    forall|i: int| 0 <= i < s.len() ==> (#[trigger] s[i]) is Some
}

pub open spec fn unwrap_all(s: Seq<Option<UploadTime>>) -> Seq<UploadTime> {
    s.map_values(|o: Option<UploadTime>| o->0)
}

/// The release day given a version's parsed upload timestamps: a timestamp
/// that could not be read fails the whole version, an empty list of uploads
/// is an error of its own, else the day of the latest upload.
pub open spec fn day_from_uploads(s: Seq<Option<UploadTime>>) -> Result<Date, ErrorKind> {
    if !all_parsed(s) {
        Err(ErrorKind::InvalidReleaseTimestamp)
    } else if s.len() == 0 {
        Err(ErrorKind::NoUploadRecords)
    } else {
        Ok(Date { days_from_ce: latest_of(unwrap_all(s))->0.day })
    }
}

proof fn lemma_latest_some(s: Seq<UploadTime>)
    ensures
        s.len() > 0 <==> latest_of(s) is Some,
    decreases s.len(),
{
    if s.len() > 0 {
        lemma_latest_some(s.drop_last());
    }
}

/// The release day of a version from its parsed upload timestamps.
pub fn release_day_from_uploads(uploads: &Vec<Option<UploadTime>>) -> (r: Result<Date, ErrorKind>)
    ensures
        r == day_from_uploads(uploads@),
{
    let n = uploads.len();
    let mut best: Option<UploadTime> = None;
    let mut i: usize = 0;
    while i < n
        invariant
            n == uploads@.len(),
            i <= n,
            all_parsed(uploads@.subrange(0, i as int)),
            best == latest_of(unwrap_all(uploads@.subrange(0, i as int))),
        decreases n - i,
    {
        let ghost prev = uploads@.subrange(0, i as int);
        match uploads[i] {
            None => {
                assert(!all_parsed(uploads@));
                return Err(ErrorKind::InvalidReleaseTimestamp);
            },
            Some(t) => {
                assert(unwrap_all(uploads@.subrange(0, i + 1)).drop_last() =~= unwrap_all(prev));
                best = match best {
                    None => Some(t),
                    Some(m) => if t.seconds > m.seconds || (t.seconds == m.seconds && t.nanos > m.nanos) {
                        Some(t)
                    } else {
                        Some(m)
                    },
                };
                assert(all_parsed(uploads@.subrange(0, i + 1))) by {
                    assert forall|k: int| 0 <= k < i + 1 implies (#[trigger] uploads@.subrange(0, i + 1)[k]) is Some by {
                        if k < i {
                            assert(uploads@.subrange(0, i + 1)[k] == prev[k]);
                        }
                    }
                }
            },
        }
        i = i + 1;
    }
    assert(uploads@.subrange(0, n as int) =~= uploads@);
    match best {
        None => {
            proof { lemma_latest_some(unwrap_all(uploads@)); }
            Err(ErrorKind::NoUploadRecords)
        },
        Some(m) => {
            proof { lemma_latest_some(unwrap_all(uploads@)); }
            Ok(Date { days_from_ce: m.day })
        },
    }
}

/// A registry answer as plain values: each version key with its upload
/// timestamp texts.
pub open spec fn releases_view(rs: Seq<Release>) -> Seq<(Seq<char>, Seq<Seq<char>>)> {
    rs.map_values(|r: Release| (r.version@, r.upload_times@.map_values(|t: String| t@)))
}

/// The first index at or after `k` whose version key is `v` (exact string
/// equality), or -1.
pub open spec fn release_index(rs: Seq<(Seq<char>, Seq<Seq<char>>)>, v: Seq<char>, k: int) -> int
    decreases rs.len() - k,
{
    if k < 0 || k >= rs.len() {
        -1
    } else if rs[k].0 == v {
        k
    } else {
        release_index(rs, v, k + 1)
    }
}

/// The release day of version `v` in a registry answer.
pub open spec fn release_outcome(rs: Seq<(Seq<char>, Seq<Seq<char>>)>, v: Seq<char>) -> Result<
    Date,
    ErrorKind,
> {
    let i = release_index(rs, v, 0);
    if i < 0 {
        Err(ErrorKind::VersionNotFound)
    } else {
        day_from_uploads(rs[i].1.map_values(|t: Seq<char>| upload_of(t)))
    }
}

/// Resolving the same version twice against the same registry answer gives
/// the same release day.
pub proof fn lemma_resolution_idempotent(
    first: Seq<(Seq<char>, Seq<Seq<char>>)>,
    second: Seq<(Seq<char>, Seq<Seq<char>>)>,
    v: Seq<char>,
)
    requires
        first == second,
    ensures
        release_outcome(first, v) == release_outcome(second, v),
{
}

/// A registry answer lists each version key once, as a map does.
pub open spec fn unique_versions(rs: Seq<(Seq<char>, Seq<Seq<char>>)>) -> bool {
    forall|i: int, j: int| 0 <= i < j < rs.len() ==> rs[i].0 != rs[j].0
}

proof fn lemma_release_index_finds(rs: Seq<(Seq<char>, Seq<Seq<char>>)>, v: Seq<char>, k: int, j: int)
    requires
        0 <= k <= j < rs.len(),
        rs[j].0 == v,
    ensures
        k <= release_index(rs, v, k) <= j,
        rs[release_index(rs, v, k)].0 == v,
    decreases j - k,
{
    if rs[k].0 != v {
        lemma_release_index_finds(rs, v, k + 1, j);
    }
}

/// In an answer whose version keys are unique, the entry that resolution
/// reads is the one entry with the declared key, wherever it stands.
pub proof fn lemma_unique_key_entry(rs: Seq<(Seq<char>, Seq<Seq<char>>)>, v: Seq<char>, j: int)
    requires
        unique_versions(rs),
        0 <= j < rs.len(),
        rs[j].0 == v,
    ensures
        release_index(rs, v, 0) == j,
        release_outcome(rs, v) == day_from_uploads(rs[j].1.map_values(|t: Seq<char>| upload_of(t))),
{
    lemma_release_index_finds(rs, v, 0, j);
}

/// The release day of `version` in a registry answer: the first entry whose
/// key is `version` is read (in an answer with unique keys, the only one; see
/// `lemma_unique_key_entry`).
pub fn release_date_in(releases: &Vec<Release>, version: &str) -> (r: Result<Date, ErrorKind>)
    ensures
        r == release_outcome(releases_view(releases@), version@),
{
    let ghost rv = releases_view(releases@);
    let wanted = version.to_owned();
    let mut i: usize = 0;
    while i < releases.len()
        invariant
            i <= releases@.len(),
            rv == releases_view(releases@),
            wanted@ == version@,
            release_index(rv, version@, 0) == release_index(rv, version@, i as int),
        decreases releases.len() - i,
    {
        let rel = &releases[i];
        if rel.version == wanted {
            let times = &rel.upload_times;
            let ghost tv = rv[i as int].1;
            assert(tv =~= times@.map_values(|t: String| t@));
            let mut parsed: Vec<Option<UploadTime>> = Vec::new();
            let mut j: usize = 0;
            while j < times.len()
                invariant
                    j <= times@.len(),
                    tv == times@.map_values(|t: String| t@),
                    parsed@ =~= tv.subrange(0, j as int).map_values(|t: Seq<char>| upload_of(t)),
                decreases times.len() - j,
            {
                parsed.push(parse_upload_time(times[j].as_str()));
                j = j + 1;
            }
            assert(tv.subrange(0, j as int) =~= tv);
            return release_day_from_uploads(&parsed);
        }
        i = i + 1;
    }
    Err(ErrorKind::VersionNotFound)
}

/// The decision after attempt number `attempt` has given `event`.
pub open spec fn step_of(attempt: u32, version: Seq<char>, event: FetchEvent) -> Step {
    match event {
        FetchEvent::Transient(k) => if attempt < MAX_ATTEMPTS {
            Step::Retry { delay_ms: (attempt * BACKOFF_STEP_MS) as u64 }
        } else {
            Step::Finish(Err(ErrorKind::RegistryUnavailable(k)))
        },
        FetchEvent::HttpStatus(code) => Step::Finish(Err(ErrorKind::RegistryHttpError(code))),
        FetchEvent::Body(rels) => Step::Finish(release_outcome(releases_view(rels@), version)),
    }
}

/// Decides what follows attempt number `attempt` (counted from 1) for
/// `version`: a network-level failure is retried after a pause that grows
/// with the attempt number until the attempts run out, a non-success status
/// fails at once, and an answer is searched for the version.
pub fn next_step(attempt: u32, version: &str, event: &FetchEvent) -> (r: Step)
    requires
        1 <= attempt <= MAX_ATTEMPTS,
    ensures
        r == step_of(attempt, version@, *event),
{
    match event {
        FetchEvent::Transient(k) => {
            if attempt < MAX_ATTEMPTS {
                Step::Retry { delay_ms: attempt as u64 * BACKOFF_STEP_MS }
            } else {
                Step::Finish(Err(ErrorKind::RegistryUnavailable(*k)))
            }
        },
        FetchEvent::HttpStatus(code) => Step::Finish(Err(ErrorKind::RegistryHttpError(*code))),
        FetchEvent::Body(rels) => Step::Finish(release_date_in(rels, version)),
    }
}

/// A registry that times out twice and then answers: the first two attempts
/// are retried after 200 ms and 400 ms, and the third gives the answer's
/// release day.
pub proof fn lemma_retry_then_success(version: Seq<char>, answer: FetchEvent)
    requires
        answer is Body,
    ensures
        step_of(1, version, FetchEvent::Transient(TransientKind::Timeout)) == (Step::Retry {
            delay_ms: 200,
        }),
        step_of(2, version, FetchEvent::Transient(TransientKind::Timeout)) == (Step::Retry {
            delay_ms: 400,
        }),
        step_of(3, version, answer) == Step::Finish(
            release_outcome(releases_view(answer->Body_0@), version),
        ),
{
}

} // verus!
