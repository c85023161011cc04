//! How panel lines are read for display: the kind of a diff line, of a
//! git status line and of a terminal line, the edit cursor's place in a
//! line, and the first line shown of the file panel.
use vstd::prelude::*;

use crate::text::{chars_of, contains_chars, starts_with_chars, string_of};

verus! {

/// What a line of a diff is.
#[derive(Debug, Clone, Copy, PartialEq, Eq, Structural)]
pub enum DiffLine {
    /// `+++` or `---`: the files compared.
    FileHeader,
    Added,
    Removed,
    /// `@@`: a hunk header.
    Hunk,
    /// `diff --git`: the command line of a file's diff.
    Command,
    Context,
}

/// The kind of a diff line, by its prefix.
pub open spec fn diff_kind_of(raw: Seq<char>) -> DiffLine {
    if "+++"@.is_prefix_of(raw) || "---"@.is_prefix_of(raw) {
        DiffLine::FileHeader
    } else if "+"@.is_prefix_of(raw) {
        DiffLine::Added
    } else if "-"@.is_prefix_of(raw) {
        DiffLine::Removed
    } else if "@@"@.is_prefix_of(raw) {
        DiffLine::Hunk
    } else if "diff --git"@.is_prefix_of(raw) {
        DiffLine::Command
    } else {
        DiffLine::Context
    }
}

fn starts(raw: &Vec<char>, prefix: &str) -> (b: bool)
    ensures
        b == prefix@.is_prefix_of(raw@),
{
    starts_with_chars(raw, &chars_of(prefix))
}

/// The kind of a diff line.
pub fn diff_kind(raw: &str) -> (k: DiffLine)
    ensures
        k == diff_kind_of(raw@),
{
    let v = chars_of(raw);
    if starts(&v, "+++") || starts(&v, "---") {
        DiffLine::FileHeader
    } else if starts(&v, "+") {
        DiffLine::Added
    } else if starts(&v, "-") {
        DiffLine::Removed
    } else if starts(&v, "@@") {
        DiffLine::Hunk
    } else if starts(&v, "diff --git") {
        DiffLine::Command
    } else {
        DiffLine::Context
    }
}

/// What a line of `git status --porcelain --branch` is.
#[derive(Debug, Clone, Copy, PartialEq, Eq, Structural)]
pub enum GitLine {
    /// `##`: the branch line.
    Branch,
    /// `??`: a file git does not track.
    Untracked,
    Deleted,
    Added,
    /// Anything else: a modified, renamed or otherwise changed file.
    Changed,
}

/// The kind of a status line: by its prefix, a deletion also by a `D`
/// standing alone in the middle.
pub open spec fn git_kind_of(raw: Seq<char>) -> GitLine {
    if "##"@.is_prefix_of(raw) {
        GitLine::Branch
    } else if "??"@.is_prefix_of(raw) {
        GitLine::Untracked
    } else if "D"@.is_prefix_of(raw) || crate::text::contains(raw, " D "@) {
        GitLine::Deleted
    } else if "A"@.is_prefix_of(raw) {
        GitLine::Added
    } else {
        GitLine::Changed
    }
}

/// The kind of a git status line.
pub fn git_kind(raw: &str) -> (k: GitLine)
    ensures
        k == git_kind_of(raw@),
{
    let v = chars_of(raw);
    if starts(&v, "##") {
        GitLine::Branch
    } else if starts(&v, "??") {
        GitLine::Untracked
    } else if starts(&v, "D") || contains_chars(&v, &chars_of(" D ")) {
        GitLine::Deleted
    } else if starts(&v, "A") {
        GitLine::Added
    } else {
        GitLine::Changed
    }
}

/// Whether a terminal panel line echoes a command (`$ ` in front).
pub fn is_command_echo(raw: &str) -> (b: bool)
    ensures
        b == "$ "@.is_prefix_of(raw@),
{
    starts(&chars_of(raw), "$ ")
}

/// A line with the cursor mark `▍` inserted before the character at
/// `col`, or at the end when `col` is past it.
pub open spec fn with_cursor(line: Seq<char>, col: nat) -> Seq<char> {
    let at = if col < line.len() { col as int } else { line.len() as int };
    line.take(at) + seq!['▍'] + line.skip(at)
}

/// The line with the edit cursor shown.
pub fn cursor_marked(line: &str, col: usize) -> (r: String)
    ensures
        r@ == with_cursor(line@, col as nat),
{
    let v = chars_of(line);
    let at = if col < v.len() {
        col
    } else {
        v.len()
    };
    let mut out: Vec<char> = Vec::new();
    let mut i: usize = 0;
    while i < at
        invariant
            i <= at <= v@.len(),
            out@ == v@.take(i as int),
        decreases at - i,
    {
        out.push(v[i]);
        proof {
            assert(v@.take(i + 1) == v@.take(i as int).push(v@[i as int]));
        }
        i = i + 1;
    }
    out.push('▍');
    while i < v.len()
        invariant
            at <= i <= v@.len(),
            out@ == v@.take(at as int) + seq!['▍'] + v@.subrange(at as int, i as int),
        decreases v.len() - i,
    {
        out.push(v[i]);
        proof {
            assert(v@.subrange(at as int, i + 1) == v@.subrange(at as int, i as int).push(v@[i as int]));
        }
        i = i + 1;
    }
    proof {
        assert(v@.subrange(at as int, v@.len() as int) == v@.skip(at as int));
    }
    string_of(&out)
}

/// First line shown of the file panel: while editing, the cursor's line
/// a third of the way down (from the top when the panel shows nothing);
/// otherwise the scroll position.
pub open spec fn first_shown(editing: bool, row: nat, scroll: nat, visible: nat) -> nat {
    if !editing {
        scroll
    } else if visible == 0 {
        0
    } else if row >= visible / 3 {
        (row - visible / 3) as nat
    } else {
        0
    }
}

/// First line shown of the file panel.
pub fn top_line(editing: bool, row: usize, scroll: u16, visible: usize) -> (r: usize)
    ensures
        r == first_shown(editing, row as nat, scroll as nat, visible as nat),
{
    if !editing {
        return scroll as usize;
    }
    if visible == 0 {
        return 0;
    }
    let above = visible / 3;
    if row >= above {
        row - above
    } else {
        0
    }
}

} // verus!
