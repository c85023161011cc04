use darb::tui::panels::{
    cursor_marked, diff_kind, git_kind, is_command_echo, top_line, DiffLine, GitLine,
};

#[test]
fn diff_lines_are_read_by_prefix() {
    assert_eq!(diff_kind("+++ b/a.txt"), DiffLine::FileHeader);
    assert_eq!(diff_kind("--- a/a.txt"), DiffLine::FileHeader);
    assert_eq!(diff_kind("+new"), DiffLine::Added);
    assert_eq!(diff_kind("-old"), DiffLine::Removed);
    assert_eq!(diff_kind("@@ -1 +1 @@"), DiffLine::Hunk);
    assert_eq!(diff_kind("diff --git a/a b/a"), DiffLine::Command);
    assert_eq!(diff_kind(" same"), DiffLine::Context);
}

#[test]
fn git_status_lines_are_read_by_prefix() {
    assert_eq!(git_kind("## main"), GitLine::Branch);
    assert_eq!(git_kind("?? new.txt"), GitLine::Untracked);
    assert_eq!(git_kind("D  gone.txt"), GitLine::Deleted);
    assert_eq!(git_kind("R  a -> b"), GitLine::Changed);
    assert_eq!(git_kind("M  x D y"), GitLine::Deleted);
    assert_eq!(git_kind("A  added.txt"), GitLine::Added);
    assert_eq!(git_kind(" M a.txt"), GitLine::Changed);
}

#[test]
fn command_echoes_start_with_a_prompt() {
    assert!(is_command_echo("$ cargo test"));
    assert!(!is_command_echo("ok"));
}

#[test]
fn the_cursor_is_marked_by_characters() {
    assert_eq!(cursor_marked("héllo", 1), "h▍éllo");
    assert_eq!(cursor_marked("ab", 9), "ab▍");
    assert_eq!(cursor_marked("", 0), "▍");
}

#[test]
fn the_edit_cursor_stays_a_third_down() {
    assert_eq!(top_line(false, 40, 7, 30), 7);
    assert_eq!(top_line(true, 40, 7, 30), 30);
    assert_eq!(top_line(true, 3, 7, 30), 0);
    assert_eq!(top_line(true, 3, 7, 0), 0);
}
