use darb::errors::DarbError;
use darb::memory::{check_decision, check_memory, check_message, check_text, check_tool_call, ProjectPaths, MAX_TEXT_CHARS};

#[test]
fn roles_and_empty_texts_are_checked() {
    assert!(check_message("user", "hi").is_ok());
    assert!(check_message("agent", "hi").is_ok());
    let err = check_message("robot", "hi").unwrap_err();
    assert_eq!(
        err,
        DarbError::Storage("invalid message role 'robot': expected one of [\"user\", \"agent\", \"system\"]".to_string())
    );
    assert_eq!(
        check_message("system", "  ").unwrap_err(),
        DarbError::Storage("cannot record an empty message".to_string())
    );
    assert!(check_tool_call(" ").is_err());
    assert!(check_decision("").is_err());
    assert!(check_memory(" ", "v").is_err());
    assert!(check_memory("stack", "rust").is_ok());
}

#[test]
fn oversized_texts_are_refused() {
    let big = "x".repeat(MAX_TEXT_CHARS + 1);
    assert_eq!(
        check_text(&big, "message").unwrap_err(),
        DarbError::Storage("message exceeds the 262144-char memory limit".to_string())
    );
    assert!(check_text("x", "message").is_ok());
}

#[test]
fn project_layout_lives_under_dot_darb() {
    let paths = ProjectPaths::new("/proj");
    assert_eq!(paths.darb_dir, "/proj/.darb");
    assert_eq!(paths.config_path, "/proj/.darb/config.toml");
    assert_eq!(paths.memory_path, "/proj/.darb/memory.db");
    assert_eq!(paths.sessions_dir, "/proj/.darb/sessions");
}
