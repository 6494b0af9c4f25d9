//! Stored snapshots of past runs: which snapshot an offset selects, how a
//! snapshot's directory is named, and how a state is written in a record.
use vstd::prelude::*;
use vstd::set_lib::{lemma_int_range, lemma_map_size, lemma_subset_equality, set_int_range};

use crate::parsing::{opt_view, Status, ThreadSlug};

verus! {

/// Why no snapshot could be selected.
#[derive(Clone, Copy, Debug, PartialEq, Eq, Structural)]
pub enum CacheError {
    /// The offset asked for is negative.
    NegativeOffset,
    /// No snapshot is stored.
    NoSnapshots,
    /// Fewer snapshots are stored than the offset needs.
    OutOfRange,
}

/// Snapshot `j` comes before snapshot `i` in newest-first order: it was
/// created later, or at the same time and listed later.
pub open spec fn newer(t: Seq<u128>, j: int, i: int) -> bool {
    t[j] > t[i] || (t[j] == t[i] && j > i)
}

/// How many of the first `m` snapshots come before snapshot `i`.
pub open spec fn newer_count(t: Seq<u128>, i: int, m: int) -> nat
    decreases m,
{
    if m <= 0 {
        0
    } else {
        newer_count(t, i, m - 1) + if newer(t, m - 1, i) {
            1nat
        } else {
            0nat
        }
    }
}

/// The position of snapshot `i` in newest-first order (0 for the newest).
pub open spec fn rank(t: Seq<u128>, i: int) -> nat {
    newer_count(t, i, t.len() as int)
}

proof fn lemma_count_bound(t: Seq<u128>, i: int, m: int)
    requires
        0 <= m <= t.len(),
        0 <= i < t.len(),
    ensures
        newer_count(t, i, m) + (if i < m {
            1nat
        } else {
            0nat
        }) <= m,
    decreases m,
{
    if m > 0 {
        lemma_count_bound(t, i, m - 1);
    }
}

proof fn lemma_count_order(t: Seq<u128>, i: int, k: int, m: int)
    requires
        0 <= m <= t.len(),
        0 <= i < t.len(),
        0 <= k < t.len(),
        newer(t, k, i),
    ensures
        newer_count(t, i, m) >= newer_count(t, k, m) + (if k < m {
            1nat
        } else {
            0nat
        }),
    decreases m,
{
    if m > 0 {
        lemma_count_order(t, i, k, m - 1);
    }
}

/// Distinct snapshots have distinct ranks, each below the number of snapshots.
pub proof fn lemma_rank_injective(t: Seq<u128>, i: int, k: int)
    requires
        0 <= i < t.len(),
        0 <= k < t.len(),
        i != k,
    ensures
        rank(t, i) != rank(t, k),
        rank(t, i) < t.len(),
{
    lemma_count_bound(t, i, t.len() as int);
    if newer(t, k, i) {
        lemma_count_order(t, i, k, t.len() as int);
    } else {
        lemma_count_order(t, k, i, t.len() as int);
    }
}

/// Every position below the number of snapshots is the rank of one of them.
pub proof fn lemma_rank_onto(t: Seq<u128>, r: int)
    requires
        0 <= r < t.len(),
    ensures
        exists|i: int| 0 <= i < t.len() && rank(t, i) == r,
{
    let n = t.len() as int;
    let dom = set_int_range(0, n);
    let f = |i: int| rank(t, i) as int;
    lemma_int_range(0, n);
    assert forall|a: int, b: int| dom.contains(a) && dom.contains(b) && #[trigger] f(a) == #[trigger] f(
        b,
    ) implies a == b by {
        if a != b {
            lemma_rank_injective(t, a, b);
        }
    }
    let img = dom.map(f);
    lemma_map_size(dom, img, f);
    assert forall|x: int| img.contains(x) implies dom.contains(x) by {
        let a = choose|a: int| dom.contains(a) && f(a) == x;
        lemma_count_bound(t, a, n);
    }
    lemma_subset_equality(img, dom);
    assert(dom.contains(r));
    assert(img.contains(r));
    let a = choose|a: int| dom.contains(a) && f(a) == r;
    assert(0 <= a < n && rank(t, a) == r);
}

/// The offset asked for: 0 when none is given.
pub open spec fn requested(offset: Option<i64>) -> int {
    match offset {
        Some(o) => o as int,
        None => 0,
    }
}

/// Selects the snapshot at `offset` (0 for the newest, the default) among
/// snapshots with creation times `created`, in newest-first order; of two
/// created at once, the one listed later counts as newer.
pub fn select_snapshot(offset: Option<i64>, created: &Vec<u128>) -> (r: Result<usize, CacheError>)
    ensures
        r == Err::<usize, CacheError>(CacheError::NegativeOffset) <==> requested(offset) < 0,
        r == Err::<usize, CacheError>(CacheError::NoSnapshots) <==> requested(offset) >= 0
            && created.len() == 0,
        r == Err::<usize, CacheError>(CacheError::OutOfRange) <==> 0 < created.len() <= requested(
            offset,
        ),
        r is Ok <==> 0 <= requested(offset) < created.len(),
        r matches Ok(i) ==> i < created.len() && rank(created@, i as int) == requested(offset),
{
    let k: i64 = match offset {
        Some(o) => o,
        None => 0,
    };
    if k < 0 {
        return Err(CacheError::NegativeOffset);
    }
    let n = created.len();
    if n == 0 {
        return Err(CacheError::NoSnapshots);
    }
    if k as u64 >= n as u64 {
        return Err(CacheError::OutOfRange);
    }
    let mut i: usize = 0;
    while i < n
        invariant
            n == created.len(),
            k as int == requested(offset),
            0 <= k < n,
            i <= n,
            forall|j: int| 0 <= j < i ==> rank(created@, j) != k,
        decreases n - i,
    {
        let mut c: usize = 0;
        let mut j: usize = 0;
        while j < n
            invariant
                n == created.len(),
                i < n,
                j <= n,
                c == newer_count(created@, i as int, j as int),
                c <= j,
            decreases n - j,
        {
            if created[j] > created[i] || (created[j] == created[i] && j > i) {
                c = c + 1;
            }
            j = j + 1;
        }
        if c as u64 == k as u64 {
            return Ok(i);
        }
        i = i + 1;
    }
    proof {
        lemma_rank_onto(created@, k as int);
    }
    Err(CacheError::OutOfRange)
}

/// The creation time of a snapshot's name: the UTC date-time of `secs`
/// seconds after the Unix epoch, written `YYYY-MM-DD HH-MM-SS`.
pub uninterp spec fn utc_stamp(secs: int) -> Seq<char>;

/// Relies on chrono: `DateTime::from_timestamp(secs, 0)` gives the UTC
/// date-time, or `None` outside the years -262143..=262142 that `NaiveDate`
/// covers; `format("%Y-%m-%d %H-%M-%S")` writes it.
#[verifier::external_body]
fn format_utc_stamp(secs: i64) -> (r: Option<String>)
    ensures
        r matches Some(s) ==> s@ == utc_stamp(secs as int),
        0 <= secs <= 253402300799 ==> r is Some,
{
    chrono::DateTime::from_timestamp(secs, 0).map(|d| d.format("%Y-%m-%d %H-%M-%S").to_string())
}

/// The last second of the year 9999.
pub const LAST_STAMP: i64 = 253402300799;

/// The directory name of a snapshot taken at `timestamp` (Unix seconds), if
/// the date can be written.
pub fn snapshot_dir_name(timestamp: i64) -> (r: Option<String>)
    ensures
        r matches Some(s) ==> s@ == utc_stamp(timestamp as int),
        0 <= timestamp <= LAST_STAMP ==> r is Some,
{
    format_utc_stamp(timestamp)
}

/// The name of the record file inside a snapshot's directory.
pub const RECORD_FILE: &'static str = "results.json";

/// The tag that writes state `s` in a record.
pub open spec fn status_tag(s: Status) -> Seq<char> {
    match s {
        Status::InDevelopment => "InDevelopment"@,
        Status::Completed => "Completed"@,
        Status::Abandoned => "Abandoned"@,
        Status::OnHold => "OnHold"@,
    }
}

/// The state that tag `t` writes, if any.
pub open spec fn tag_status(t: Seq<char>) -> Option<Status> {
    if t == "InDevelopment"@ {
        Some(Status::InDevelopment)
    } else if t == "Completed"@ {
        Some(Status::Completed)
    } else if t == "Abandoned"@ {
        Some(Status::Abandoned)
    } else if t == "OnHold"@ {
        Some(Status::OnHold)
    } else {
        None
    }
}

impl Status {
    /// The tag that writes this state in a record.
    pub fn tag(&self) -> (r: &'static str)
        ensures
            r@ == status_tag(*self),
    {
        match self {
            Status::InDevelopment => "InDevelopment",
            Status::Completed => "Completed",
            Status::Abandoned => "Abandoned",
            Status::OnHold => "OnHold",
        }
    }

    /// The state that `tag` writes; `None` for a tag that writes none.
    pub fn from_tag(tag: &str) -> (r: Option<Status>)
        ensures
            r == tag_status(tag@),
    {
        let t = String::from_str(tag);
        if t == String::from_str("InDevelopment") {
            Some(Status::InDevelopment)
        } else if t == String::from_str("Completed") {
            Some(Status::Completed)
        } else if t == String::from_str("Abandoned") {
            Some(Status::Abandoned)
        } else if t == String::from_str("OnHold") {
            Some(Status::OnHold)
        } else {
            None
        }
    }
}

/// Reading back the tag of a state gives that state: records keep states.
pub proof fn lemma_status_tag_round_trip(s: Status)
    ensures
        tag_status(status_tag(s)) == Some(s),
{
    reveal_strlit("InDevelopment");
    reveal_strlit("Completed");
    reveal_strlit("Abandoned");
    reveal_strlit("OnHold");
    assert("Completed"@[0] != "InDevelopment"@[0]);
    assert("Abandoned"@[0] != "InDevelopment"@[0]);
    assert("Abandoned"@[0] != "Completed"@[0]);
    assert("OnHold"@.len() != "InDevelopment"@.len());
    assert("OnHold"@.len() != "Completed"@.len());
    assert("OnHold"@.len() != "Abandoned"@.len());
}


/// One outcome as the record file holds it: the state as its tag.
pub struct ThreadRecord {
    pub id: String,
    pub title: String,
    pub status: String,
    pub error: Option<String>,
}

/// `rec` writes the outcome `t`.
pub open spec fn records(rec: ThreadRecord, t: ThreadSlug) -> bool {
    &&& rec.id@ == t.id@
    &&& rec.title@ == t.title@
    &&& rec.status@ == status_tag(t.status)
    &&& opt_view(rec.error) == opt_view(t.error)
}

/// `t` is read from `rec`, whose tag writes a state.
pub open spec fn restores(t: ThreadSlug, rec: ThreadRecord) -> bool {
    &&& rec.id@ == t.id@
    &&& rec.title@ == t.title@
    &&& tag_status(rec.status@) == Some(t.status)
    &&& opt_view(rec.error) == opt_view(t.error)
}

fn clone_opt(s: &Option<String>) -> (r: Option<String>)
    ensures
        opt_view(r) == opt_view(*s),
{
    match s {
        Some(t) => Some(t.clone()),
        None => None,
    }
}

/// The record of outcome `t`.
pub fn to_record(t: &ThreadSlug) -> (r: ThreadRecord)
    ensures
        records(r, *t),
{
    ThreadRecord {
        id: t.id.clone(),
        title: t.title.clone(),
        status: String::from_str(t.status.tag()),
        error: clone_opt(&t.error),
    }
}

/// The outcome that `rec` holds; `None` if its tag writes no state.
pub fn from_record(rec: &ThreadRecord) -> (r: Option<ThreadSlug>)
    ensures
        match r {
            Some(t) => restores(t, *rec),
            None => tag_status(rec.status@) is None,
        },
{
    match Status::from_tag(rec.status.as_str()) {
        Some(status) => Some(
            ThreadSlug {
                id: rec.id.clone(),
                title: rec.title.clone(),
                status,
                error: clone_opt(&rec.error),
            },
        ),
        None => None,
    }
}

/// Writing an outcome as a record and reading it back gives the same outcome,
/// field for field.
pub proof fn lemma_record_round_trip(t: ThreadSlug, rec: ThreadRecord)
    requires
        records(rec, t),
    ensures
        tag_status(rec.status@) == Some(t.status),
        forall|back: ThreadSlug|
            restores(back, rec) ==> {
                &&& back.id@ == t.id@
                &&& back.title@ == t.title@
                &&& back.status == t.status
                &&& opt_view(back.error) == opt_view(t.error)
            },
{
    lemma_status_tag_round_trip(t.status);
}

} // verus!
