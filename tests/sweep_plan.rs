use fineregr::config::{split_command, Benchmarker};
use fineregr::git::{
    checkout_command, commit_date_command, commit_message_command, measure_command,
    rev_list_command, revisions_from_output, sync_commands,
};
use fineregr::sweep::{next_job_action, pending_in_row, pending_jobs, revisions_to_visit, JobAction, JobEvent};

fn strings(v: &[&str]) -> Vec<String> {
    v.iter().map(|s| s.to_string()).collect()
}

#[test]
fn cap_limits_visited_revisions() {
    let revs = strings(&["c", "b", "a"]);
    assert_eq!(revisions_to_visit(revs.clone(), Some(2)), strings(&["c", "b"]));
    assert_eq!(revisions_to_visit(revs.clone(), Some(5)), revs);
    assert_eq!(revisions_to_visit(revs.clone(), None), revs);
    assert_eq!(revisions_to_visit(revs, Some(0)), Vec::<String>::new());
}

#[test]
fn config_cap_is_applied() {
    let cfg = Benchmarker {
        repository: "https://example.org/repo.git".to_string(),
        prepare: strings(&["cargo  build\t--release"]),
        benchmarks: strings(&["sleep 0.1"]),
        repo_dir: "/tmp/repo".to_string(),
        num_commits: Some(3),
    };
    let revs = strings(&["e", "d", "c", "b", "a"]);
    assert_eq!(cfg.revisions_to_visit(revs), strings(&["e", "d", "c"]));
    assert_eq!(cfg.prepare_argv(0), strings(&["cargo", "build", "--release"]));
}

#[test]
fn fresh_sweep_of_three_revisions_runs_every_pair() {
    // one benchmark, three revisions, empty cache
    let cached = vec![vec![false], vec![false], vec![false]];
    let jobs = pending_jobs(&cached);
    assert_eq!(jobs, vec![vec![0usize], vec![0], vec![0]]);
    // after the sweep every pair has a record: the next sweep runs nothing
    let after = vec![vec![true], vec![true], vec![true]];
    let again = pending_jobs(&after);
    assert_eq!(again.len(), 3);
    assert!(again.iter().all(|r| r.is_empty()));
}

#[test]
fn resumed_sweep_runs_only_uncached_pairs() {
    let cached = vec![vec![true, true], vec![true, false], vec![false, false]];
    let jobs = pending_jobs(&cached);
    assert_eq!(jobs, vec![vec![], vec![1usize], vec![0, 1]]);
    let total: usize = jobs.iter().map(|r| r.len()).sum();
    assert_eq!(total, 6 - 3);
    assert_eq!(pending_in_row(&vec![false, true, false]), vec![0usize, 2]);
}

#[test]
fn job_runs_prepare_in_order_then_measures() {
    assert_eq!(next_job_action(2, JobEvent::Begin), JobAction::Prepare { index: 0 });
    assert_eq!(
        next_job_action(2, JobEvent::PrepareExited { index: 0, success: true }),
        JobAction::Prepare { index: 1 }
    );
    assert_eq!(
        next_job_action(2, JobEvent::PrepareExited { index: 1, success: true }),
        JobAction::Measure
    );
    assert_eq!(next_job_action(2, JobEvent::MeasureExited { success: true }), JobAction::Finished);
    assert_eq!(next_job_action(0, JobEvent::Begin), JobAction::Measure);
}

#[test]
fn failing_prepare_records_failure_without_measuring() {
    assert_eq!(
        next_job_action(3, JobEvent::PrepareExited { index: 0, success: false }),
        JobAction::RecordFailure
    );
    assert_eq!(
        next_job_action(3, JobEvent::PrepareExited { index: 2, success: false }),
        JobAction::RecordFailure
    );
    assert_eq!(next_job_action(3, JobEvent::FailureRecorded), JobAction::Finished);
}

#[test]
fn failing_measurement_records_failure() {
    assert_eq!(
        next_job_action(0, JobEvent::MeasureExited { success: false }),
        JobAction::RecordFailure
    );
}

#[test]
fn rev_list_output_is_split_into_lines() {
    assert_eq!(revisions_from_output("c3\nb2\r\na1\n"), strings(&["c3", "b2", "a1"]));
    assert_eq!(revisions_from_output("c3\nb2"), strings(&["c3", "b2"]));
    assert_eq!(revisions_from_output(""), Vec::<String>::new());
    assert_eq!(revisions_from_output("a\n\nb"), strings(&["a", "", "b"]));
}

#[test]
fn prepare_command_split_at_whitespace() {
    assert_eq!(split_command("  make -j 4 "), strings(&["make", "-j", "4"]));
    assert_eq!(split_command(""), Vec::<String>::new());
    assert_eq!(split_command("a\u{a0}b"), strings(&["a", "b"]));
}

#[test]
fn sync_clones_or_pulls() {
    assert_eq!(
        sync_commands("https://example.org/r.git", "/tmp/r", false),
        vec![strings(&["git", "clone", "https://example.org/r.git", "/tmp/r"])]
    );
    assert_eq!(
        sync_commands("https://example.org/r.git", "/tmp/r", true),
        vec![strings(&["git", "checkout", "main"]), strings(&["git", "pull"])]
    );
}

#[test]
fn git_and_backend_commands() {
    assert_eq!(checkout_command("abc"), strings(&["git", "checkout", "abc"]));
    assert_eq!(rev_list_command(), strings(&["git", "rev-list", "main"]));
    assert_eq!(commit_date_command("abc"), strings(&["git", "log", "--format=%ci", "-n", "1", "abc"]));
    assert_eq!(commit_message_command("abc"), strings(&["git", "log", "--format=%B", "-n", "1", "abc"]));
    assert_eq!(
        measure_command("out/x/abc.json", "sleep 0.1"),
        strings(&["hyperfine", "--export-json", "out/x/abc.json", "--warmup", "1", "sleep 0.1"])
    );
}
