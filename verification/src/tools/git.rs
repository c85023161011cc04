//! Git commands the tools run, and how their failures read. Running git
//! belongs to the application.
use vstd::prelude::*;

use crate::errors::DarbError;
use crate::text::{chars_of, concat, join_strings, join_with, owned, string_of, string_views, trim, trim_chars, CharClass};
use crate::tools::shell::{from_utf8_lossy, lossy_text};

verus! {

/// Arguments of the status query: porcelain format with the branch line.
pub fn status_args() -> (r: Vec<String>)
    ensures
        string_views(r@) == seq!["status"@, "--porcelain=v1"@, "--branch"@],
{
    let r = vec![owned("status"), owned("--porcelain=v1"), owned("--branch")];
    proof {
        assert(string_views(r@) =~= seq!["status"@, "--porcelain=v1"@, "--branch"@]);
    }
    r
}

/// Arguments of the diff query: the whole tree, or one target after `--`.
pub fn diff_args(target: &str) -> (r: Vec<String>)
    ensures
        string_views(r@) == (if target@.len() == 0 {
            seq!["diff"@]
        } else {
            seq!["diff"@, "--"@, target@]
        }),
{
    if chars_of(target).len() == 0 {
        let r = vec![owned("diff")];
        proof {
            assert(string_views(r@) =~= seq!["diff"@]);
        }
        r
    } else {
        let r = vec![owned("diff"), owned("--"), owned(target)];
        proof {
            assert(string_views(r@) =~= seq!["diff"@, "--"@, target@]);
        }
        r
    }
}

/// A git command that exited with failure: the arguments run and what
/// git wrote to its error stream, trimmed.
pub fn git_failure(args: &[String], stderr: &[u8]) -> (e: DarbError)
    ensures
        e is Git,
        e.detail_view() == "git "@ + join_with(string_views(args@), " "@) + " failed: "@ + trim(
            lossy_text(stderr@),
        ),
{
    let joined = join_strings(args, " ");
    let text = from_utf8_lossy(stderr);
    let v = chars_of(text.as_str());
    let trimmed = string_of(&trim_chars(&v, CharClass::Whitespace));
    let m = concat("git ", joined.as_str());
    let m = concat(m.as_str(), " failed: ");
    let m = concat(m.as_str(), trimmed.as_str());
    DarbError::Git(m)
}

} // verus!
