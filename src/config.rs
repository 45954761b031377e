//! The sweep's configuration and the reading of preparation commands.

use vstd::prelude::*;
use crate::git::texts;
use crate::sweep::{revisions_to_visit, visit_count};

verus! {

/// What a sweep runs: the repository, the preparation commands run before
/// every measurement, the benchmark commands, the working copy's directory and
/// an optional cap on the number of revisions.
pub struct Benchmarker {
    pub repository: String,
    pub prepare: Vec<String>,
    pub benchmarks: Vec<String>,
    pub repo_dir: String,
    pub num_commits: Option<usize>,
}

/// Whether a character has the Unicode `White_Space` property.
pub uninterp spec fn white_space(c: char) -> bool;

/// Relies on `char::is_whitespace`: the Unicode `White_Space` property, which
/// space, tab, line feed and carriage return have.
#[verifier::external_body]
fn is_white_space(c: char) -> (r: bool)
    ensures
        r == white_space(c),
        c == ' ' || c == '\t' || c == '\n' || c == '\r' ==> r,
{
    c.is_whitespace()
}

/// Splitting the first `i` characters of `s` into words: the finished words
/// and the text of the word in progress.
pub open spec fn words_upto(s: Seq<char>, i: nat) -> (Seq<Seq<char>>, Seq<char>)
    decreases i,
{
    if i == 0 || i > s.len() {
        (seq![], seq![])
    } else {
        let (done, cur) = words_upto(s, (i - 1) as nat);
        if white_space(s[i - 1]) {
            if cur.len() > 0 {
                (done.push(cur), seq![])
            } else {
                (done, seq![])
            }
        } else {
            (done, cur.push(s[i - 1]))
        }
    }
}

/// The maximal runs of non-whitespace characters of `s`, in order.
pub open spec fn words_of(s: Seq<char>) -> Seq<Seq<char>> {
    let (done, cur) = words_upto(s, s.len());
    if cur.len() > 0 {
        done.push(cur)
    } else {
        done
    }
}

/// Splits a preparation command at whitespace into a program and its arguments.
pub fn split_command(command: &str) -> (r: Vec<String>)
    ensures
        texts(r@) == words_of(command@),
{
    let n = command.unicode_len();
    let mut out: Vec<String> = Vec::new();
    let mut start: usize = 0;
    let mut i: usize = 0;
    while i < n
        invariant
            n == command@.len(),
            start <= i <= n,
            words_upto(command@, i as nat) == (texts(out@), command@.subrange(start as int, i as int)),
        decreases n - i,
    {
        let c = command.get_char(i);
        if is_white_space(c) {
            if start < i {
                let ghost prev = out@;
                out.push(command.substring_char(start, i).to_owned());
                assert(texts(out@) =~= texts(prev).push(command@.subrange(start as int, i as int)));
            }
            start = i + 1;
        } else {
            assert(command@.subrange(start as int, i + 1) =~= command@.subrange(start as int, i as int).push(c));
        }
        i = i + 1;
        assert(command@.subrange(start as int, i as int) =~= words_upto(command@, i as nat).1);
    }
    if start < n {
        let ghost prev = out@;
        out.push(command.substring_char(start, n).to_owned());
        assert(texts(out@) =~= texts(prev).push(command@.subrange(start as int, n as int)));
    }
    out
}

impl Benchmarker {
    /// The program and arguments of preparation command `index`.
    pub fn prepare_argv(&self, index: usize) -> (r: Vec<String>)
        requires
            index < self.prepare@.len(),
        ensures
            texts(r@) == words_of(self.prepare@[index as int]@),
    {
        split_command(self.prepare[index].as_str())
    }

    /// The revisions this configuration visits out of those listed, newest
    /// first, cut to `num_commits` when it is set.
    pub fn revisions_to_visit(&self, revisions: Vec<String>) -> (r: Vec<String>)
        ensures
            r@ == revisions@.take(visit_count(revisions@.len(), self.num_commits) as int),
    {
        revisions_to_visit(revisions, self.num_commits)
    }
}

} // verus!
