//! The persisted failure record. A success record is written by the benchmark
//! backend itself as `{"results":[{"command":..,"times":[..]}]}`; when the
//! preparation or the measurement fails, the sweep writes
//! `{"results":[{"command":..,"git_sha":..,"git_msg":..,"git_date":..}]}`.

use vstd::prelude::*;

verus! {

/// A string rendered as a JSON string literal, quotes and escapes included,
/// as `serde_json` writes it.
pub uninterp spec fn json_string_of(s: Seq<char>) -> Seq<char>;

/// Relies on `serde_json::Value::String` and its `Display` impl: the compact
/// JSON text of a string value, which begins and ends with a double quote.
#[verifier::external_body]
fn json_string(s: &str) -> (r: String)
    ensures
        r@ == json_string_of(s@),
        r@.len() >= 2,
        r@[0] == '"',
        r@.last() == '"',
{
    serde_json::Value::String(s.to_owned()).to_string()
}

/// A failure record around four fields already rendered as JSON strings.
pub open spec fn framed_failure_of(
    command: Seq<char>,
    revision: Seq<char>,
    message: Seq<char>,
    date: Seq<char>,
) -> Seq<char> {
    "{\"results\":[{\"command\":"@ + command + ",\"git_sha\":"@ + revision + ",\"git_msg\":"@ + message
        + ",\"git_date\":"@ + date + "}]}"@
}

/// The text of a failure record.
pub open spec fn failure_record_of(
    command: Seq<char>,
    revision: Seq<char>,
    message: Seq<char>,
    date: Seq<char>,
) -> Seq<char> {
    framed_failure_of(
        json_string_of(command),
        json_string_of(revision),
        json_string_of(message),
        json_string_of(date),
    )
}

/// Frames a failure record from its four fields, each already a JSON string
/// literal.
pub fn frame_failure_record(command: &str, revision: &str, message: &str, date: &str) -> (r: String)
    ensures
        r@ == framed_failure_of(command@, revision@, message@, date@),
{
    let out = String::from_str("{\"results\":[{\"command\":");
    let out = out.concat(command);
    let out = out.concat(",\"git_sha\":");
    let out = out.concat(revision);
    let out = out.concat(",\"git_msg\":");
    let out = out.concat(message);
    let out = out.concat(",\"git_date\":");
    let out = out.concat(date);
    out.concat("}]}")
}

/// The JSON text of the failure record for `command` at `revision`, carrying
/// the revision's log message and date.
pub fn failure_record(command: &str, revision: &str, message: &str, date: &str) -> (r: String)
    ensures
        r@ == failure_record_of(command@, revision@, message@, date@),
{
    frame_failure_record(
        json_string(command).as_str(),
        json_string(revision).as_str(),
        json_string(message).as_str(),
        json_string(date).as_str(),
    )
}

} // verus!
