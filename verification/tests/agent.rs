use darb::agent::planner::Plan;
use darb::agent::reviewer::{review, ReviewVerdict};
use darb::agent::state::{is_legal_transition, is_terminal};
use darb::agent::tool_calling::extract_tool_calls;
use darb::events::AgentState;
use darb::tools::registry::ToolResult;

#[test]
fn single_plan_tracks_progress() {
    let mut plan = Plan::single("fix login");
    assert_eq!(plan.pending_count(), 1);
    plan.mark_next_done();
    assert_eq!(plan.pending_count(), 0);
}

#[test]
fn all_success_passes() {
    assert_eq!(
        review(&[ToolResult::ok("a".to_string())]),
        ReviewVerdict::Pass
    );
    assert_eq!(review(&[]), ReviewVerdict::Pass);
}

#[test]
fn any_failure_fails_with_reasons() {
    let verdict = review(&[
        ToolResult::ok("a".to_string()),
        ToolResult::fail("boom".to_string()),
    ]);
    match verdict {
        ReviewVerdict::Fail(reasons) => {
            assert_eq!(reasons.len(), 1);
            assert!(reasons[0].contains("boom"));
        }
        ReviewVerdict::Pass => panic!("must fail"),
    }
}

#[test]
fn extracts_fenced_json_call() {
    let text = "Let me read it.\n```json\n{\"tool\": \"read_file\", \"target\": \"a.txt\"}\n```\n";
    let calls = extract_tool_calls(text);
    assert_eq!(calls.len(), 1);
    assert_eq!(calls[0].tool, "read_file");
    assert_eq!(calls[0].target, "a.txt");
}

#[test]
fn extracts_arguments_and_multiple_calls() {
    let text = "```json\n{\"tool\": \"edit_file\", \"target\": \"a.txt\", \"arguments\": {\"old\": \"x\", \"new\": \"y\"}}\n```\n```json\n{\"tool\": \"search\", \"target\": \"needle\"}\n```\n";
    let calls = extract_tool_calls(text);
    assert_eq!(calls.len(), 2);
    assert_eq!(calls[0].arguments.get("old").map(String::as_str), Some("x"));
    assert_eq!(calls[1].tool, "search");
}

#[test]
fn skips_malformed_blocks() {
    let text = "```json\nnot json\n```\n```json\n{\"target\": \"x\"}\n```\nplain text\n";
    assert!(extract_tool_calls(text).is_empty());
    assert!(extract_tool_calls("no fences here").is_empty());
}

#[test]
fn terminal_states() {
    assert!(is_terminal(&AgentState::Completed));
    assert!(is_terminal(&AgentState::Failed));
    assert!(is_terminal(&AgentState::Cancelled));
    assert!(!is_terminal(&AgentState::Executing));
}

#[test]
fn happy_path_is_legal() {
    let path = [
        (AgentState::Idle, AgentState::Analyzing),
        (AgentState::Analyzing, AgentState::Planning),
        (AgentState::Planning, AgentState::WaitingProvider),
        (AgentState::WaitingProvider, AgentState::Executing),
        (AgentState::Executing, AgentState::Reviewing),
        (AgentState::Reviewing, AgentState::Completed),
    ];
    for (from, to) in path {
        assert!(is_legal_transition(&from, &to), "{from:?} -> {to:?}");
    }
}

#[test]
fn skips_are_illegal() {
    assert!(!is_legal_transition(&AgentState::Idle, &AgentState::Executing));
    assert!(!is_legal_transition(&AgentState::Planning, &AgentState::Reviewing));
}
