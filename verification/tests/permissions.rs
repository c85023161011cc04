use darb::config::{PermissionDecision, PermissionsConfig};
use darb::permissions::{
    AskReason, Denial, DenyReason, PermissionManager, PermissionOutcome, ToolRequest,
};

fn default_manager() -> PermissionManager {
    PermissionManager::new(PermissionsConfig::default())
}

fn shell_allowed() -> PermissionsConfig {
    PermissionsConfig {
        shell: PermissionDecision::Allow,
        ..PermissionsConfig::default()
    }
}

#[test]
fn safe_tools_are_allowed_by_default() {
    let mut manager = default_manager();
    for tool in [
        "read_file",
        "list_directory",
        "search",
        "git_status",
        "git_diff",
    ] {
        let outcome = manager.check(&ToolRequest::new(tool, "src/main.rs"));
        assert_eq!(outcome, PermissionOutcome::Allowed, "{tool}");
    }
}

#[test]
fn edit_tools_ask_by_default() {
    let mut manager = default_manager();
    let outcome = manager.check(&ToolRequest::new("edit_file", "src/main.rs"));
    assert_eq!(
        outcome,
        PermissionOutcome::AskUser(AskReason::PolicyRequiresConfirmation)
    );
}

#[test]
fn plain_shell_asks_by_default() {
    let mut manager = default_manager();
    let outcome = manager.check(&ToolRequest::new("shell", "cargo test"));
    assert_eq!(
        outcome,
        PermissionOutcome::AskUser(AskReason::PolicyRequiresConfirmation)
    );
}

#[test]
fn sudo_is_denied_even_when_shell_allowed() {
    let mut manager = PermissionManager::new(shell_allowed());
    let outcome = manager.check(&ToolRequest::new("shell", "sudo apt update"));
    assert_eq!(
        outcome,
        PermissionOutcome::Denied(Denial {
            tool: "shell".to_string(),
            target: "sudo apt update".to_string(),
            reason: DenyReason::SudoBlocked,
        })
    );
}

#[test]
fn destructive_command_escalates_allow_to_ask() {
    let mut manager = PermissionManager::new(shell_allowed());
    let outcome = manager.check(&ToolRequest::new("shell", "rm -rf /tmp/build"));
    assert_eq!(outcome, PermissionOutcome::AskUser(AskReason::DangerousCommand));
}

#[test]
fn chained_destructive_command_is_caught() {
    let mut manager = PermissionManager::new(shell_allowed());
    let outcome = manager.check(&ToolRequest::new("shell", "git status; rm -rf /tmp/x"));
    assert_eq!(outcome, PermissionOutcome::AskUser(AskReason::DangerousCommand));
}

#[test]
fn git_push_via_shell_needs_confirmation_despite_allow() {
    let mut manager = PermissionManager::new(shell_allowed());
    let outcome = manager.check(&ToolRequest::new("shell", "git push origin main"));
    assert_eq!(
        outcome,
        PermissionOutcome::AskUser(AskReason::GitPushRequiresConfirmation)
    );
}

#[test]
fn git_push_tool_is_denied_by_default() {
    let mut manager = default_manager();
    let outcome = manager.check(&ToolRequest::new("git_push", "origin main"));
    assert_eq!(
        outcome,
        PermissionOutcome::Denied(Denial {
            tool: "git_push".to_string(),
            target: "origin main".to_string(),
            reason: DenyReason::ForbiddenByPolicy,
        })
    );
}

#[test]
fn unknown_tool_fails_closed() {
    let mut manager = default_manager();
    let outcome = manager.check(&ToolRequest::new("format_disk", "/dev/sda"));
    assert_eq!(
        outcome,
        PermissionOutcome::Denied(Denial {
            tool: "format_disk".to_string(),
            target: "/dev/sda".to_string(),
            reason: DenyReason::UnknownTool,
        })
    );
}

#[test]
fn explicit_allow_policy_is_honored() {
    let mut manager = PermissionManager::new(PermissionsConfig {
        edit: PermissionDecision::Allow,
        shell: PermissionDecision::Allow,
        ..PermissionsConfig::default()
    });
    assert!(manager.check(&ToolRequest::new("edit_file", "a.rs")).is_allowed());
    assert!(manager.check(&ToolRequest::new("shell", "cargo check")).is_allowed());
}

#[test]
fn grant_turns_one_ask_into_allow_then_expires() {
    let mut manager = default_manager();
    let request = ToolRequest::new("edit_file", "a.rs");
    assert_eq!(
        manager.check(&request),
        PermissionOutcome::AskUser(AskReason::PolicyRequiresConfirmation)
    );
    manager.grant_once("edit_file", "a.rs");
    assert!(manager.check(&request).is_allowed());
    assert_eq!(
        manager.check(&request),
        PermissionOutcome::AskUser(AskReason::PolicyRequiresConfirmation)
    );
}

#[test]
fn grant_never_overrides_denials() {
    let mut manager = default_manager();
    manager.grant_once("git_push", "origin main");
    manager.grant_once("shell", "sudo apt update");
    manager.grant_once("format_disk", "/dev/sda");
    assert!(matches!(
        manager.check(&ToolRequest::new("git_push", "origin main")),
        PermissionOutcome::Denied(_)
    ));
    assert!(matches!(
        manager.check(&ToolRequest::new("shell", "sudo apt update")),
        PermissionOutcome::Denied(_)
    ));
    assert!(matches!(
        manager.check(&ToolRequest::new("format_disk", "/dev/sda")),
        PermissionOutcome::Denied(_)
    ));
}

#[test]
fn grant_for_another_target_does_not_allow() {
    let mut manager = default_manager();
    manager.grant_once("edit_file", "b.rs");
    assert_eq!(
        manager.check(&ToolRequest::new("edit_file", "a.rs")),
        PermissionOutcome::AskUser(AskReason::PolicyRequiresConfirmation)
    );
    assert!(manager.check(&ToolRequest::new("edit_file", "b.rs")).is_allowed());
}

#[test]
fn uppercase_and_quoted_sudo_are_caught() {
    let mut manager = PermissionManager::new(shell_allowed());
    assert!(matches!(
        manager.check(&ToolRequest::new("run_command", "echo x && \"SUDO\" rm a")),
        PermissionOutcome::Denied(Denial { reason: DenyReason::SudoBlocked, .. })
    ));
}

#[test]
fn uppercase_destructive_and_format_token_escalate() {
    let mut manager = PermissionManager::new(shell_allowed());
    assert_eq!(
        manager.check(&ToolRequest::new("shell", "DROP DATABASE prod")),
        PermissionOutcome::AskUser(AskReason::DangerousCommand)
    );
    assert_eq!(
        manager.check(&ToolRequest::new("shell", "format c:")),
        PermissionOutcome::AskUser(AskReason::DangerousCommand)
    );
    assert_eq!(
        manager.check(&ToolRequest::new("shell", "ls && GIT push")),
        PermissionOutcome::AskUser(AskReason::GitPushRequiresConfirmation)
    );
}

#[test]
fn deny_policy_on_shell_stays_denied_for_risky_commands() {
    let mut manager = PermissionManager::new(PermissionsConfig {
        shell: PermissionDecision::Deny,
        ..PermissionsConfig::default()
    });
    assert!(matches!(
        manager.check(&ToolRequest::new("shell", "rm -rf x")),
        PermissionOutcome::Denied(Denial { reason: DenyReason::ForbiddenByPolicy, .. })
    ));
}

#[test]
fn delete_tools_ask_by_default_and_arguments_do_not_matter() {
    let mut manager = default_manager();
    let request = ToolRequest::new("delete_file", "a.rs").with_arg("force", "yes");
    assert_eq!(
        manager.check(&request),
        PermissionOutcome::AskUser(AskReason::PolicyRequiresConfirmation)
    );
    assert_eq!(request.arguments.get("force").map(String::as_str), Some("yes"));
}
