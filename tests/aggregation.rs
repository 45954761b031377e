use fineregr::aggregate::{aggregate, CachedResult, ResultEntry};

fn file(rev: &str, entries: Vec<ResultEntry>) -> CachedResult {
    CachedResult {
        revision: rev.to_string(),
        message: format!("message of {}", rev),
        date: "2021-05-01 10:00:00 +0200".to_string(),
        entries,
    }
}

fn entry(command: &str, samples: Option<usize>) -> ResultEntry {
    ResultEntry { command: command.to_string(), samples }
}

#[test]
fn aggregation_counts_samples_and_failures() {
    let files = vec![
        file("a", vec![entry("sleep 0.1", Some(3))]),
        file("b", vec![entry("sleep 0.1", Some(2))]),
        file("c", vec![entry("sleep 0.1", None)]),
    ];
    let rows = aggregate(&files);
    assert_eq!(rows.len(), 3 + 2 + 1);
    assert_eq!(rows[0].git_sha, "a");
    assert_eq!(rows[0].sample, Some(0));
    assert_eq!(rows[2].sample, Some(2));
    assert_eq!(rows[3].git_sha, "b");
    assert_eq!(rows[5].git_sha, "c");
    assert_eq!(rows[5].sample, None);
    assert_eq!(rows[5].git_msg, "message of c");
    assert_eq!(rows[5].command, "sleep 0.1");
}

#[test]
fn aggregation_of_empty_cache_is_empty() {
    assert!(aggregate(&vec![]).is_empty());
    assert!(aggregate(&vec![file("a", vec![])]).is_empty());
}

#[test]
fn aggregation_is_repeatable() {
    let files = vec![file("a", vec![entry("x", Some(2)), entry("y", None)])];
    let first = aggregate(&files);
    let second = aggregate(&files);
    assert_eq!(first.len(), 3);
    assert_eq!(first.len(), second.len());
    for (p, q) in first.iter().zip(second.iter()) {
        assert_eq!(p.git_sha, q.git_sha);
        assert_eq!(p.command, q.command);
        assert_eq!(p.sample, q.sample);
    }
}
