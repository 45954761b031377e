//! Flattening cached results into plot rows.
//!
//! The caller walks the cache directory, reads each result file and fetches
//! the revision's message and date. Sample timings stay with the caller: a row
//! refers to a sample by its position in the entry's `times` list.

use vstd::prelude::*;

verus! {

/// One entry of a result file: its command, and the number of timing samples
/// for a success or `None` for a failure.
pub struct ResultEntry {
    pub command: String,
    pub samples: Option<usize>,
}

/// A result file, joined with its revision's metadata.
pub struct CachedResult {
    pub revision: String,
    pub message: String,
    pub date: String,
    pub entries: Vec<ResultEntry>,
}

/// One point of the plot: `sample` is the index of a timing in its entry, or
/// `None` for a failure.
pub struct PlotRow {
    pub git_sha: String,
    pub git_msg: String,
    pub git_date: String,
    pub command: String,
    pub sample: Option<usize>,
}

pub type EntryView = (Seq<char>, Option<usize>);

pub type ResultView = (Seq<char>, Seq<char>, Seq<char>, Seq<EntryView>);

pub type RowView = (Seq<char>, Seq<char>, Seq<char>, Seq<char>, Option<usize>);

impl View for ResultEntry {
    type V = EntryView;

    open spec fn view(&self) -> EntryView {
        (self.command@, self.samples)
    }
}

impl View for CachedResult {
    type V = ResultView;

    open spec fn view(&self) -> ResultView {
        (self.revision@, self.message@, self.date@, self.entries@.map_values(|e: ResultEntry| e@))
    }
}

impl View for PlotRow {
    type V = RowView;

    open spec fn view(&self) -> RowView {
        (self.git_sha@, self.git_msg@, self.git_date@, self.command@, self.sample)
    }
}

/// The rows of one entry: one per sample of a success, one without a sample
/// for a failure.
pub open spec fn entry_rows(f: ResultView, e: EntryView) -> Seq<RowView> {
    match e.1 {
        Some(n) => Seq::new(n as nat, |k: int| (f.0, f.1, f.2, e.0, Some(k as usize))),
        None => seq![(f.0, f.1, f.2, e.0, None)],
    }
}

/// The rows of the first `n` entries of a file, in order.
pub open spec fn file_rows(f: ResultView, n: nat) -> Seq<RowView>
    decreases n,
{
    if n == 0 || n > f.3.len() {
        seq![]
    } else {
        file_rows(f, (n - 1) as nat) + entry_rows(f, f.3[n - 1])
    }
}

/// The rows of all files, in order.
pub open spec fn all_rows(files: Seq<ResultView>) -> Seq<RowView>
    decreases files.len(),
{
    if files.len() == 0 {
        seq![]
    } else {
        all_rows(files.drop_last()) + file_rows(files.last(), files.last().3.len())
    }
}

/// The views of a list of rows.
pub open spec fn views(rows: Seq<PlotRow>) -> Seq<RowView> {
    rows.map_values(|r: PlotRow| r@)
}

/// The views of a list of cached results.
pub open spec fn result_views(files: Seq<CachedResult>) -> Seq<ResultView> {
    files.map_values(|f: CachedResult| f@)
}

fn push_entry_rows(out: &mut Vec<PlotRow>, f: &CachedResult, e: &ResultEntry)
    ensures
        views(final(out)@) == views(old(out)@) + entry_rows(f@, e@),
{
    let ghost start = views(out@);
    match e.samples {
        Some(n) => {
            let mut k: usize = 0;
            while k < n
                invariant
                    k <= n,
                    e.samples == Some(n),
                    views(out@) =~= start + entry_rows(f@, e@).take(k as int),
                decreases n - k,
            {
                let row = PlotRow {
                    git_sha: f.revision.clone(),
                    git_msg: f.message.clone(),
                    git_date: f.date.clone(),
                    command: e.command.clone(),
                    sample: Some(k),
                };
                let ghost prev = out@;
                out.push(row);
                assert(views(out@) =~= views(prev).push(row@));
                assert(row@ == entry_rows(f@, e@)[k as int]);
                k = k + 1;
                assert(entry_rows(f@, e@).take(k as int) =~= entry_rows(f@, e@).take(k - 1).push(
                    entry_rows(f@, e@)[k - 1],
                ));
            }
            assert(entry_rows(f@, e@).take(n as int) =~= entry_rows(f@, e@));
        },
        None => {
            out.push(
                PlotRow {
                    git_sha: f.revision.clone(),
                    git_msg: f.message.clone(),
                    git_date: f.date.clone(),
                    command: e.command.clone(),
                    sample: None,
                },
            );
            assert(views(out@) =~= start + entry_rows(f@, e@));
        },
    }
}

/// Flattens the cached results into plot rows: each success entry gives one
/// row per sample, each failure entry one row without a sample, in the order
/// of the files and of their entries.
pub fn aggregate(files: &Vec<CachedResult>) -> (r: Vec<PlotRow>)
    ensures
        views(r@) == all_rows(result_views(files@)),
{
    let mut out: Vec<PlotRow> = Vec::new();
    let mut i: usize = 0;
    while i < files.len()
        invariant
            i <= files@.len(),
            views(out@) == all_rows(result_views(files@).take(i as int)),
        decreases files@.len() - i,
    {
        let f = &files[i];
        let ghost before = views(out@);
        let mut j: usize = 0;
        while j < f.entries.len()
            invariant
                j <= f.entries@.len(),
                f == files@[i as int],
                views(out@) == before + file_rows(f@, j as nat),
            decreases f.entries@.len() - j,
        {
            push_entry_rows(&mut out, f, &f.entries[j]);
            j = j + 1;
            assert(views(out@) =~= before + file_rows(f@, j as nat));
        }
        i = i + 1;
        proof {
            let vs = result_views(files@).take(i as int);
            assert(vs.drop_last() =~= result_views(files@).take(i - 1));
            assert(vs.last() == f@);
            assert(views(out@) =~= all_rows(vs));
        }
    }
    assert(result_views(files@).take(files@.len() as int) =~= result_views(files@));
    out
}

/// The number of timing samples over all success entries.
pub open spec fn sample_total(files: Seq<ResultView>) -> nat
    decreases files.len(),
{
    if files.len() == 0 {
        0
    } else {
        sample_total(files.drop_last()) + entry_samples(files.last().3)
    }
}

/// The number of timing samples over the success entries of one file.
pub open spec fn entry_samples(entries: Seq<EntryView>) -> nat
    decreases entries.len(),
{
    if entries.len() == 0 {
        0
    } else {
        entry_samples(entries.drop_last()) + match entries.last().1 {
            Some(n) => n as nat,
            None => 0nat,
        }
    }
}

/// The number of failure entries over all files.
pub open spec fn failure_total(files: Seq<ResultView>) -> nat
    decreases files.len(),
{
    if files.len() == 0 {
        0
    } else {
        failure_total(files.drop_last()) + entry_failures(files.last().3)
    }
}

/// The number of failure entries of one file.
pub open spec fn entry_failures(entries: Seq<EntryView>) -> nat
    decreases entries.len(),
{
    if entries.len() == 0 {
        0
    } else {
        entry_failures(entries.drop_last()) + if entries.last().1 is None { 1nat } else { 0nat }
    }
}

proof fn lemma_file_row_count(f: ResultView, n: nat)
    requires
        n <= f.3.len(),
    ensures
        file_rows(f, n).len() == entry_samples(f.3.take(n as int)) + entry_failures(f.3.take(n as int)),
    decreases n,
{
    if n > 0 {
        lemma_file_row_count(f, (n - 1) as nat);
        assert(f.3.take(n as int).drop_last() =~= f.3.take(n - 1));
    }
}

/// A cache holding success records with sample counts s1..sk and F failure
/// records aggregates to exactly s1 + ... + sk + F rows.
pub proof fn lemma_aggregation_complete(files: Seq<ResultView>)
    ensures
        all_rows(files).len() == sample_total(files) + failure_total(files),
    decreases files.len(),
{
    if files.len() > 0 {
        lemma_aggregation_complete(files.drop_last());
        let f = files.last();
        lemma_file_row_count(f, f.3.len());
        assert(f.3.take(f.3.len() as int) =~= f.3);
    }
}

} // verus!
