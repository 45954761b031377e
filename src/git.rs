//! The version-control and benchmark commands that a sweep runs, as argument
//! lists, and the reading of their output. The caller spawns them in the
//! working copy.

use vstd::prelude::*;

verus! {

/// The text views of a list of strings.
pub open spec fn texts(v: Seq<String>) -> Seq<Seq<char>> {
    v.map_values(|s: String| s@)
}

fn text(s: &str) -> (r: String)
    ensures
        r@ == s@,
{
    String::from_str(s)
}

/// The commands that bring the working copy up to date with the main line:
/// switch to `main` and pull when the directory exists, clone it otherwise.
pub open spec fn sync_commands_of(repository: Seq<char>, repo_dir: Seq<char>, exists: bool) -> Seq<
    Seq<Seq<char>>,
> {
    if exists {
        seq![seq!["git"@, "checkout"@, "main"@], seq!["git"@, "pull"@]]
    } else {
        seq![seq!["git"@, "clone"@, repository, repo_dir]]
    }
}

/// The commands, in order, that clone the repository or pull its latest changes.
pub fn sync_commands(repository: &str, repo_dir: &str, exists: bool) -> (r: Vec<Vec<String>>)
    ensures
        r@.map_values(|c: Vec<String>| texts(c@)) == sync_commands_of(repository@, repo_dir@, exists),
{
    let mut out: Vec<Vec<String>> = Vec::new();
    if exists {
        let a = vec![text("git"), text("checkout"), text("main")];
        let b = vec![text("git"), text("pull")];
        assert(texts(a@) =~= seq!["git"@, "checkout"@, "main"@]);
        assert(texts(b@) =~= seq!["git"@, "pull"@]);
        out.push(a);
        out.push(b);
    } else {
        let a = vec![text("git"), text("clone"), String::from_str(repository), String::from_str(repo_dir)];
        assert(texts(a@) =~= seq!["git"@, "clone"@, repository@, repo_dir@]);
        out.push(a);
    }
    assert(out@.map_values(|c: Vec<String>| texts(c@)) =~= sync_commands_of(repository@, repo_dir@, exists));
    out
}

/// `git checkout <revision>`.
pub fn checkout_command(revision: &str) -> (r: Vec<String>)
    ensures
        texts(r@) == seq!["git"@, "checkout"@, revision@],
{
    let r = vec![text("git"), text("checkout"), String::from_str(revision)];
    assert(texts(r@) =~= seq!["git"@, "checkout"@, revision@]);
    r
}

/// `git rev-list main`: the main line's revisions, newest first.
pub fn rev_list_command() -> (r: Vec<String>)
    ensures
        texts(r@) == seq!["git"@, "rev-list"@, "main"@],
{
    let r = vec![text("git"), text("rev-list"), text("main")];
    assert(texts(r@) =~= seq!["git"@, "rev-list"@, "main"@]);
    r
}

/// `git log --format=%ci -n 1 <revision>`: the revision's committer date.
pub fn commit_date_command(revision: &str) -> (r: Vec<String>)
    ensures
        texts(r@) == seq!["git"@, "log"@, "--format=%ci"@, "-n"@, "1"@, revision@],
{
    let r = vec![text("git"), text("log"), text("--format=%ci"), text("-n"), text("1"), String::from_str(revision)];
    assert(texts(r@) =~= seq!["git"@, "log"@, "--format=%ci"@, "-n"@, "1"@, revision@]);
    r
}

/// `git log --format=%B -n 1 <revision>`: the revision's log message.
pub fn commit_message_command(revision: &str) -> (r: Vec<String>)
    ensures
        texts(r@) == seq!["git"@, "log"@, "--format=%B"@, "-n"@, "1"@, revision@],
{
    let r = vec![text("git"), text("log"), text("--format=%B"), text("-n"), text("1"), String::from_str(revision)];
    assert(texts(r@) =~= seq!["git"@, "log"@, "--format=%B"@, "-n"@, "1"@, revision@]);
    r
}

/// `hyperfine --export-json <result file> --warmup 1 <benchmark>`: measures
/// the benchmark after one warm-up run and writes the success record.
pub fn measure_command(result_file: &str, benchmark: &str) -> (r: Vec<String>)
    ensures
        texts(r@) == seq!["hyperfine"@, "--export-json"@, result_file@, "--warmup"@, "1"@, benchmark@],
{
    let r = vec![
        text("hyperfine"),
        text("--export-json"),
        String::from_str(result_file),
        text("--warmup"),
        text("1"),
        String::from_str(benchmark),
    ];
    assert(texts(r@) =~= seq!["hyperfine"@, "--export-json"@, result_file@, "--warmup"@, "1"@, benchmark@]);
    r
}

/// Splitting the first `i` characters of `s` at newlines: the finished lines
/// (a `\r` before the newline removed) and the text of the unfinished one.
pub open spec fn split_lines_upto(s: Seq<char>, i: nat) -> (Seq<Seq<char>>, Seq<char>)
    decreases i,
{
    if i == 0 || i > s.len() {
        (seq![], seq![])
    } else {
        let (done, cur) = split_lines_upto(s, (i - 1) as nat);
        if s[i - 1] == '\n' {
            (done.push(strip_cr(cur)), seq![])
        } else {
            (done, cur.push(s[i - 1]))
        }
    }
}

/// A line without the carriage return that ended it, if any.
pub open spec fn strip_cr(line: Seq<char>) -> Seq<char> {
    if line.len() > 0 && line.last() == '\r' {
        line.drop_last()
    } else {
        line
    }
}

/// The lines of `s`: split at `\n` or `\r\n`, the final line ending optional.
pub open spec fn lines_of(s: Seq<char>) -> Seq<Seq<char>> {
    let (done, cur) = split_lines_upto(s, s.len());
    if cur.len() == 0 {
        done
    } else {
        done.push(cur)
    }
}

/// The revision ids listed by `git rev-list`, one per line, in order.
pub fn revisions_from_output(output: &str) -> (r: Vec<String>)
    ensures
        texts(r@) == lines_of(output@),
{
    let n = output.unicode_len();
    let mut out: Vec<String> = Vec::new();
    let mut start: usize = 0;
    let mut i: usize = 0;
    while i < n
        invariant
            n == output@.len(),
            start <= i <= n,
            split_lines_upto(output@, i as nat) == (texts(out@), output@.subrange(start as int, i as int)),
        decreases n - i,
    {
        let c = output.get_char(i);
        if c == '\n' {
            let line = output.substring_char(start, i);
            let ghost prev = out@;
            if i > start && line.get_char(i - start - 1) == '\r' {
                out.push(output.substring_char(start, i - 1).to_owned());
                assert(output@.subrange(start as int, i - 1) =~= strip_cr(line@));
            } else {
                out.push(line.to_owned());
            }
            assert(texts(out@) =~= texts(prev).push(strip_cr(line@)));
            start = i + 1;
        } else {
            assert(output@.subrange(start as int, i + 1) =~= output@.subrange(start as int, i as int).push(c));
        }
        i = i + 1;
        assert(output@.subrange(start as int, i as int) =~= split_lines_upto(output@, i as nat).1);
    }
    if start < n {
        let ghost prev = out@;
        out.push(output.substring_char(start, n).to_owned());
        assert(texts(out@) =~= texts(prev).push(output@.subrange(start as int, n as int)));
    }
    out
}

} // verus!
