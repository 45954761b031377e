//! The decisions of a sweep over revisions and benchmarks.
//!
//! The caller owns the working copy and the subprocesses. It asks this module
//! which revisions to visit, which (revision, benchmark) pairs still need work
//! given what the result cache already holds, and, for one pair, which command
//! to run next given how the previous one exited.

use vstd::prelude::*;

verus! {

/// How many revisions a sweep visits out of `n` listed, under an optional cap.
pub open spec fn visit_count(n: nat, limit: Option<usize>) -> nat {
    match limit {
        Some(m) => if (m as nat) < n { m as nat } else { n },
        None => n,
    }
}

/// The revisions to visit: the listed ones, newest first, cut to `limit`.
pub fn revisions_to_visit(revisions: Vec<String>, limit: Option<usize>) -> (r: Vec<String>)
    ensures
        r@ == revisions@.take(visit_count(revisions@.len(), limit) as int),
{
    let mut revisions = revisions;
    match limit {
        Some(m) => {
            if m < revisions.len() {
                revisions.truncate(m);
            }
        },
        None => {},
    }
    revisions
}

/// The benchmarks of one revision that still need work: the indices of the
/// uncached entries of `row`, in increasing order.
pub open spec fn pending_of(row: Seq<bool>) -> Seq<usize>
    decreases row.len(),
{
    if row.len() == 0 {
        seq![]
    } else {
        let rest = pending_of(row.drop_last());
        if row.last() {
            rest
        } else {
            rest.push((row.len() - 1) as usize)
        }
    }
}

/// How many entries of `row` are already cached.
pub open spec fn cached_count(row: Seq<bool>) -> nat
    decreases row.len(),
{
    if row.len() == 0 {
        0
    } else {
        cached_count(row.drop_last()) + if row.last() { 1nat } else { 0nat }
    }
}

/// For each visited revision (a row of `cached`, one entry per benchmark,
/// `true` where a result file exists), the benchmarks that must be run.
pub fn pending_jobs(cached: &Vec<Vec<bool>>) -> (r: Vec<Vec<usize>>)
    ensures
        r@.len() == cached@.len(),
        forall|i: int| 0 <= i < r@.len() ==> #[trigger] r@[i]@ == pending_of(cached@[i]@),
{
    let mut out: Vec<Vec<usize>> = Vec::new();
    let mut i: usize = 0;
    while i < cached.len()
        invariant
            i <= cached@.len(),
            out@.len() == i,
            forall|j: int| 0 <= j < i ==> #[trigger] out@[j]@ == pending_of(cached@[j]@),
        decreases cached@.len() - i,
    {
        out.push(pending_in_row(&cached[i]));
        i = i + 1;
    }
    out
}

/// The uncached benchmark indices of one revision's row.
pub fn pending_in_row(row: &Vec<bool>) -> (r: Vec<usize>)
    ensures
        r@ == pending_of(row@),
{
    let mut out: Vec<usize> = Vec::new();
    let mut b: usize = 0;
    while b < row.len()
        invariant
            b <= row@.len(),
            out@ == pending_of(row@.take(b as int)),
        decreases row@.len() - b,
    {
        assert(row@.take(b + 1).drop_last() =~= row@.take(b as int));
        if !row[b] {
            out.push(b);
        }
        b = b + 1;
    }
    assert(row@.take(row@.len() as int) =~= row@);
    out
}

/// Membership in the pending list is exactly "not cached", and the pending
/// and cached entries together account for the whole row.
pub proof fn lemma_pending_exact(row: Seq<bool>)
    requires
        row.len() <= usize::MAX,
    ensures
        forall|b: usize| #[trigger] pending_of(row).contains(b) <==> (b < row.len() && !row[b as int]),
        pending_of(row).len() + cached_count(row) == row.len(),
        forall|k: int| 0 <= k < pending_of(row).len() ==> pending_of(row)[k] < row.len(),
    decreases row.len(),
{
    if row.len() > 0 {
        let init = row.drop_last();
        lemma_pending_exact(init);
        let p = pending_of(row);
        let q = pending_of(init);
        let last = (row.len() - 1) as usize;
        if row.last() {
            assert(p == q);
        } else {
            assert(p == q.push(last));
        }
        assert forall|b: usize| #[trigger] p.contains(b) <==> (b < row.len() && !row[b as int]) by {
            if b < init.len() {
                assert(init[b as int] == row[b as int]);
            }
            if p.contains(b) {
                let k = choose|k: int| 0 <= k < p.len() && p[k] == b;
                if k < q.len() {
                    assert(p[k] == q[k]);
                    assert(q.contains(b));
                } else {
                    assert(!row.last() && b == last);
                }
            }
            if b < row.len() && !row[b as int] {
                if b < init.len() {
                    assert(q.contains(b));
                    let k = choose|k: int| 0 <= k < q.len() && q[k] == b;
                    assert(p[k] == b);
                } else {
                    assert(p[p.len() - 1] == b);
                }
            }
        }
    }
}

/// The cache after a complete sweep: every pair that was pending now has a
/// record, success or failure, and nothing else changed.
pub open spec fn after_sweep(cached: Seq<Seq<bool>>) -> Seq<Seq<bool>> {
    Seq::new(
        cached.len(),
        |i: int| Seq::new(cached[i].len(), |b: int| cached[i][b] || pending_of(cached[i]).contains(b as usize)),
    )
}

/// A second sweep over an unchanged configuration and history has nothing to
/// do: no preparation or measurement is run for any revision.
pub proof fn lemma_sweep_idempotent(cached: Seq<Seq<bool>>)
    requires
        forall|i: int| 0 <= i < cached.len() ==> #[trigger] cached[i].len() <= usize::MAX,
    ensures
        after_sweep(cached).len() == cached.len(),
        forall|i: int| 0 <= i < cached.len() ==> #[trigger] pending_of(after_sweep(cached)[i]) == Seq::<usize>::empty(),
{
    assert forall|i: int| 0 <= i < cached.len() implies #[trigger] pending_of(after_sweep(cached)[i]) == Seq::<usize>::empty() by {
        let row = after_sweep(cached)[i];
        lemma_pending_exact(cached[i]);
        lemma_pending_exact(row);
        if pending_of(row).len() > 0 {
            let b = pending_of(row)[0];
            assert(pending_of(row).contains(b));
            assert(row[b as int]);
        }
    }
}

/// Resuming an interrupted sweep: the pairs already cached are never run
/// again, every uncached pair is run, and a revision with `n` of `m` pairs
/// cached has exactly `m - n` left.
pub proof fn lemma_sweep_resumes(row: Seq<bool>)
    requires
        row.len() <= usize::MAX,
    ensures
        forall|b: usize| b < row.len() && row[b as int] ==> !(#[trigger] pending_of(row).contains(b)),
        forall|b: usize| b < row.len() && !row[b as int] ==> #[trigger] pending_of(row).contains(b),
        pending_of(row).len() == row.len() - cached_count(row),
{
    lemma_pending_exact(row);
}

/// What the caller reports about the work last handed out for one pair.
pub enum JobEvent {
    /// The pair was found uncached; nothing has run yet.
    Begin,
    /// Preparation command `index` exited, successfully or not.
    PrepareExited { index: usize, success: bool },
    /// The benchmark backend exited, successfully or not.
    MeasureExited { success: bool },
    /// A failure record was written.
    FailureRecorded,
}

/// What the caller must do next for one pair.
#[derive(PartialEq, Eq, Structural, Debug, Clone, Copy)]
pub enum JobAction {
    /// Run preparation command `index` in the working copy.
    Prepare { index: usize },
    /// Run the benchmark backend, which writes a success record.
    Measure,
    /// Write a failure record carrying the revision's message and date.
    RecordFailure,
    /// The pair is done.
    Finished,
}

/// The decision table for one (revision, benchmark) pair with `n_prepare`
/// preparation commands.
pub open spec fn next_job_action_spec(n_prepare: nat, event: JobEvent) -> JobAction {
    match event {
        JobEvent::Begin => if n_prepare == 0 { JobAction::Measure } else { JobAction::Prepare { index: 0 } },
        JobEvent::PrepareExited { index, success } => if !success {
            JobAction::RecordFailure
        } else if index + 1 < n_prepare {
            JobAction::Prepare { index: (index + 1) as usize }
        } else {
            JobAction::Measure
        },
        JobEvent::MeasureExited { success } => if success { JobAction::Finished } else { JobAction::RecordFailure },
        JobEvent::FailureRecorded => JobAction::Finished,
    }
}

/// Decides the next step for one pair: preparation commands run in order, a
/// failing one turns the attempt into a failure record, and the benchmark is
/// measured only after all of them succeeded.
pub fn next_job_action(n_prepare: usize, event: JobEvent) -> (r: JobAction)
    requires
        event matches JobEvent::PrepareExited { index, .. } ==> index < n_prepare,
    ensures
        r == next_job_action_spec(n_prepare as nat, event),
{
    match event {
        JobEvent::Begin => if n_prepare == 0 {
            JobAction::Measure
        } else {
            JobAction::Prepare { index: 0 }
        },
        JobEvent::PrepareExited { index, success } => if !success {
            JobAction::RecordFailure
        } else if index + 1 < n_prepare {
            JobAction::Prepare { index: index + 1 }
        } else {
            JobAction::Measure
        },
        JobEvent::MeasureExited { success } => if success {
            JobAction::Finished
        } else {
            JobAction::RecordFailure
        },
        JobEvent::FailureRecorded => JobAction::Finished,
    }
}

/// A preparation step that always fails yields a failure record for the pair
/// and never reaches the benchmark backend; the pair then finishes, so the
/// sweep goes on to the next pair and revision.
pub proof fn lemma_failing_prepare_records_failure(n_prepare: nat)
    requires
        n_prepare > 0,
    ensures
        next_job_action_spec(n_prepare, JobEvent::Begin) == (JobAction::Prepare { index: 0 }),
        forall|i: usize| i < n_prepare ==> next_job_action_spec(
            n_prepare,
            JobEvent::PrepareExited { index: i, success: false },
        ) == JobAction::RecordFailure,
        next_job_action_spec(n_prepare, JobEvent::FailureRecorded) == JobAction::Finished,
{
}

/// Follows the decision table through the preparation commands from `index`
/// on, when command `k` exits with `prepare_ok(k)`: the first action that is
/// not another preparation command.
pub open spec fn follow_prepare(n_prepare: nat, prepare_ok: spec_fn(nat) -> bool, index: usize) -> JobAction
    decreases n_prepare - index,
{
    match next_job_action_spec(n_prepare, JobEvent::PrepareExited { index, success: prepare_ok(index as nat) }) {
        JobAction::Prepare { index: j } => if index < j && j < n_prepare {
            follow_prepare(n_prepare, prepare_ok, j)
        } else {
            JobAction::Prepare { index: j }
        },
        other => other,
    }
}

/// Once preparation starts, the attempt reaches the benchmark backend exactly
/// when every preparation command succeeds, and otherwise ends in a failure
/// record; so a preparation step that always fails gives a failure record for
/// every pair it is run for.
pub proof fn lemma_prepare_outcome(n_prepare: nat, prepare_ok: spec_fn(nat) -> bool, index: usize)
    requires
        index < n_prepare <= usize::MAX,
    ensures
        follow_prepare(n_prepare, prepare_ok, index) == JobAction::Measure
            || follow_prepare(n_prepare, prepare_ok, index) == JobAction::RecordFailure,
        follow_prepare(n_prepare, prepare_ok, index) == JobAction::Measure <==> (forall|k: nat|
            index <= k < n_prepare ==> #[trigger] prepare_ok(k)),
    decreases n_prepare - index,
{
    if prepare_ok(index as nat) && index + 1 < n_prepare {
        let j = (index + 1) as usize;
        lemma_prepare_outcome(n_prepare, prepare_ok, j);
        if follow_prepare(n_prepare, prepare_ok, index) == JobAction::Measure {
            assert forall|k: nat| index <= k < n_prepare implies #[trigger] prepare_ok(k) by {
                if k > index {
                    assert(j <= k);
                }
            }
        }
    }
}

/// The benchmark is measured only right after the last preparation command
/// succeeded, or at once when there is none.
pub proof fn lemma_measure_only_after_prepare(n_prepare: nat, event: JobEvent)
    ensures
        next_job_action_spec(n_prepare, event) == JobAction::Measure ==> match event {
            JobEvent::Begin => n_prepare == 0,
            JobEvent::PrepareExited { index, success } => success && index + 1 >= n_prepare,
            _ => false,
        },
{
}

} // verus!
