//! The summary of a batch of outcomes: how many threads are still in
//! development, the threads of each other state, and the failed lookups.
use vstd::prelude::*;

use crate::parsing::{Status, ThreadSlug};

verus! {

/// The threads of one state, as positions in the batch.
pub struct Section {
    pub status: Status,
    pub members: Vec<usize>,
}

impl View for Section {
    type V = (Status, Seq<usize>);

    open spec fn view(&self) -> (Status, Seq<usize>) {
        (self.status, self.members@)
    }
}

/// The summary of a batch. Positions refer to the batch, which the summary
/// leaves as it was.
pub struct Report {
    /// Lookups that succeeded with the state `InDevelopment`.
    pub in_development: usize,
    /// The size of the batch.
    pub total: usize,
    /// One section per state among `Completed`, `Abandoned`, `OnHold`, in that
    /// order, for each state that some thread has.
    pub sections: Vec<Section>,
    /// The failed lookups.
    pub errors: Vec<usize>,
}

pub struct ReportView {
    pub in_development: nat,
    pub total: nat,
    pub sections: Seq<(Status, Seq<usize>)>,
    pub errors: Seq<usize>,
}

impl View for Report {
    type V = ReportView;

    open spec fn view(&self) -> ReportView {
        ReportView {
            in_development: self.in_development as nat,
            total: self.total as nat,
            sections: self.sections@.map_values(|s: Section| s@),
            errors: self.errors@,
        }
    }
}

/// An outcome that counts as still in development: no error, default state.
pub open spec fn still_in_development(t: ThreadSlug) -> bool {
    t.status == Status::InDevelopment && t.error is None
}

/// How many of the first `n` outcomes are still in development.
pub open spec fn count_in_development(b: Seq<ThreadSlug>, n: int) -> nat
    decreases n,
{
    if n <= 0 || n > b.len() {
        0
    } else {
        count_in_development(b, n - 1) + if still_in_development(b[n - 1]) {
            1nat
        } else {
            0nat
        }
    }
}

/// The positions among the first `n` whose state is `s`, in order.
pub open spec fn with_status(b: Seq<ThreadSlug>, s: Status, n: int) -> Seq<usize>
    decreases n,
{
    if n <= 0 || n > b.len() {
        seq![]
    } else if b[n - 1].status == s {
        with_status(b, s, n - 1).push((n - 1) as usize)
    } else {
        with_status(b, s, n - 1)
    }
}

/// The positions among the first `n` whose lookup failed, in order.
pub open spec fn with_error(b: Seq<ThreadSlug>, n: int) -> Seq<usize>
    decreases n,
{
    if n <= 0 || n > b.len() {
        seq![]
    } else if b[n - 1].error is Some {
        with_error(b, n - 1).push((n - 1) as usize)
    } else {
        with_error(b, n - 1)
    }
}

/// The section of state `s`, if some thread has it.
pub open spec fn section(b: Seq<ThreadSlug>, s: Status) -> Seq<(Status, Seq<usize>)> {
    let m = with_status(b, s, b.len() as int);
    if m.len() > 0 {
        seq![(s, m)]
    } else {
        seq![]
    }
}

/// The summary of batch `b`.
pub open spec fn report_of(b: Seq<ThreadSlug>) -> ReportView {
    ReportView {
        in_development: count_in_development(b, b.len() as int),
        total: b.len(),
        sections: section(b, Status::Completed) + section(b, Status::Abandoned) + section(
            b,
            Status::OnHold,
        ),
        errors: with_error(b, b.len() as int),
    }
}

proof fn lemma_count_bound(b: Seq<ThreadSlug>, n: int)
    requires
        0 <= n <= b.len(),
    ensures
        count_in_development(b, n) <= n,
    decreases n,
{
    if n > 0 {
        lemma_count_bound(b, n - 1);
    }
}

fn positions_with_status(b: &Vec<ThreadSlug>, s: Status) -> (r: Vec<usize>)
    ensures
        r@ == with_status(b@, s, b.len() as int),
{
    let mut r: Vec<usize> = Vec::new();
    let mut i: usize = 0;
    while i < b.len()
        invariant
            i <= b.len(),
            r@ == with_status(b@, s, i as int),
        decreases b.len() - i,
    {
        if b[i].status == s {
            r.push(i);
        }
        i = i + 1;
    }
    r
}

fn push_section(sections: &mut Vec<Section>, b: &Vec<ThreadSlug>, s: Status)
    ensures
        final(sections)@.map_values(|x: Section| x@) == old(sections)@.map_values(
            |x: Section| x@,
        ) + section(b@, s),
{
    let members = positions_with_status(b, s);
    let ghost before = sections@.map_values(|x: Section| x@);
    if members.len() > 0 {
        let ghost m = members@;
        sections.push(Section { status: s, members });
        assert(sections@.map_values(|x: Section| x@) =~= before + seq![(s, m)]);
    } else {
        assert(sections@.map_values(|x: Section| x@) =~= before + seq![]);
    }
}

/// Groups a batch for display.
pub fn group_results(results: &Vec<ThreadSlug>) -> (r: Report)
    ensures
        r@ == report_of(results@),
{
    let mut in_development: usize = 0;
    let mut errors: Vec<usize> = Vec::new();
    let mut i: usize = 0;
    while i < results.len()
        invariant
            i <= results.len(),
            in_development == count_in_development(results@, i as int),
            errors@ == with_error(results@, i as int),
        decreases results.len() - i,
    {
        proof {
            lemma_count_bound(results@, i as int);
        }
        let t = &results[i];
        if t.status == Status::InDevelopment && t.error.is_none() {
            in_development = in_development + 1;
        }
        if t.error.is_some() {
            errors.push(i);
        }
        i = i + 1;
    }
    let mut sections: Vec<Section> = Vec::new();
    assert(sections@.map_values(|x: Section| x@) =~= seq![]);
    push_section(&mut sections, results, Status::Completed);
    push_section(&mut sections, results, Status::Abandoned);
    push_section(&mut sections, results, Status::OnHold);
    let r = Report { in_development, total: results.len(), sections, errors };
    assert(r@.sections =~= report_of(results@).sections);
    r
}

/// Two summaries of one batch are the same: the summary depends on the
/// batch's value alone.
pub proof fn lemma_report_repeatable(b: Seq<ThreadSlug>, r1: ReportView, r2: ReportView)
    requires
        r1 == report_of(b),
        r2 == report_of(b),
    ensures
        r1 == r2,
{
}

impl Status {
    /// The heading of the section of this state.
    pub fn heading(&self) -> (r: &'static str)
        ensures
            r@ == match self {
                Status::InDevelopment => "In development"@,
                Status::Completed => "Completed"@,
                Status::Abandoned => "Abandoned"@,
                Status::OnHold => "On hold"@,
            },
    {
        match self {
            Status::InDevelopment => "In development",
            Status::Completed => "Completed",
            Status::Abandoned => "Abandoned",
            Status::OnHold => "On hold",
        }
    }
}

} // verus!
