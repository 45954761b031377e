use fineregr::key::{bench_id, result_file_name, revision_of_file_name, to_hex};
use fineregr::record::{failure_record, frame_failure_record};

#[test]
fn bench_id_is_hex_sha256_of_command() {
    assert_eq!(
        bench_id("sleep 0.1"),
        "95fe334b94febdf2c903f983c8929e8c22bc5830a02c5c1e21d6e69cb12d29a6"
    );
    assert_eq!(
        bench_id(""),
        "e3b0c44298fc1c149afbf4c8996fb92427ae41e4649b934ca495991b7852b855"
    );
}

#[test]
fn bench_id_same_command_same_id() {
    let a = String::from("cargo bench --quiet");
    let b = String::from("cargo bench --quiet");
    assert_eq!(bench_id(&a), bench_id(&b));
    assert_eq!(bench_id(&a).len(), 64);
}

#[test]
fn bench_id_different_commands_differ() {
    assert_ne!(bench_id("sleep 0.1"), bench_id("sleep 0.2"));
    assert_ne!(bench_id("sleep 0.1"), bench_id("sleep 0.1 "));
}

#[test]
fn hex_renders_each_byte_as_two_lowercase_digits() {
    assert_eq!(to_hex(&[0x00, 0xab, 0x10, 0xff]), "00ab10ff");
    assert_eq!(to_hex(&[]), "");
}

#[test]
fn result_file_name_appends_json() {
    assert_eq!(result_file_name("4f2a9c"), "4f2a9c.json");
}

#[test]
fn revision_recovered_from_result_file_name() {
    assert_eq!(revision_of_file_name("4f2a9c.json"), Some("4f2a9c".to_string()));
    assert_eq!(revision_of_file_name(&result_file_name("abc")), Some("abc".to_string()));
    assert_eq!(revision_of_file_name("4f2a9c.txt"), None);
    assert_eq!(revision_of_file_name(".json"), None);
    assert_eq!(revision_of_file_name("index.html"), None);
}

#[test]
fn failure_record_has_the_persisted_shape() {
    let r = failure_record("sleep 0.1", "abc123", "Fix \"quoted\" bug\n", "2021-05-01 10:00:00 +0200");
    assert_eq!(
        r,
        "{\"results\":[{\"command\":\"sleep 0.1\",\"git_sha\":\"abc123\",\"git_msg\":\"Fix \\\"quoted\\\" bug\\n\",\"git_date\":\"2021-05-01 10:00:00 +0200\"}]}"
    );
}

#[test]
fn failure_record_framing_of_quoted_fields() {
    assert_eq!(
        frame_failure_record("\"c\"", "\"s\"", "\"m\"", "\"d\""),
        "{\"results\":[{\"command\":\"c\",\"git_sha\":\"s\",\"git_msg\":\"m\",\"git_date\":\"d\"}]}"
    );
}
