use darb::agent::run_loop::{AgentRun, Awaiting, BuiltContext, Next};
use darb::config::AgentConfig;
use darb::events::{AgentState, DarbEvent};
use darb::tools::registry::ToolResult;

fn limits() -> AgentConfig {
    AgentConfig { max_iterations: 3, max_tool_calls: 5, max_retries: 1, timeout_seconds: 30 }
}

fn no_context() -> BuiltContext {
    BuiltContext { map: String::new(), files: String::new(), history_chars: 10_000 }
}

fn changes(events: &[DarbEvent]) -> Vec<(AgentState, AgentState)> {
    events
        .iter()
        .filter_map(|e| match e {
            DarbEvent::AgentStateChanged { from, to } => Some((*from, *to)),
            _ => None,
        })
        .collect()
}

#[test]
fn answer_without_tools_completes() {
    let mut run = AgentRun::start("say hi", limits(), false, no_context());
    let prompt = match run.iterate(false) {
        Next::AskProvider { prompt } => prompt,
        _ => panic!("expected a provider request"),
    };
    assert!(prompt.starts_with("Task: say hi\nPlan: say hi (0/1 steps done)\n"), "{prompt}");
    assert!(prompt.ends_with("edit_file, shell."));
    match run.responded("hello".to_string(), false) {
        Next::Finished(result) => {
            assert_eq!(result.outcome, AgentState::Completed);
            assert_eq!(result.summary, "hello");
            assert_eq!(result.iterations, 1);
        }
        _ => panic!("expected completion"),
    }
    let events = run.take_events();
    assert!(matches!(events[0], DarbEvent::AgentStarted { .. }));
    assert_eq!(
        changes(&events),
        vec![
            (AgentState::Idle, AgentState::Analyzing),
            (AgentState::Analyzing, AgentState::Planning),
            (AgentState::Planning, AgentState::WaitingProvider),
            (AgentState::WaitingProvider, AgentState::Completed),
        ]
    );
    assert!(matches!(events.last(), Some(DarbEvent::AgentFinished { .. })));
    assert_eq!(run.awaiting, Awaiting::Done);
}

#[test]
fn tool_calls_run_then_review_then_iterate() {
    let mut run = AgentRun::start("read a", limits(), false, no_context());
    run.iterate(false);
    let reply = "```json\n{\"tool\": \"read_file\", \"target\": \"a.txt\"}\n```\n".to_string();
    let request = match run.responded(reply, false) {
        Next::RunTool(request) => request,
        _ => panic!("expected a tool run"),
    };
    assert_eq!((request.tool.as_str(), request.target.as_str()), ("read_file", "a.txt"));
    let result = ToolResult::ok("contents".to_string());
    assert!(matches!(run.tool_done(result), Next::Continue));
    assert_eq!(run.stats.tool_calls, 1);
    assert_eq!(run.history, vec!["tool: ok contents".to_string()]);
    match run.iterate(false) {
        Next::AskProvider { prompt } => {
            assert!(prompt.contains("Previous tool results:\n- tool: ok contents\n"), "{prompt}")
        }
        _ => panic!("expected a second request"),
    }
}

#[test]
fn failed_reviews_give_up_after_retries() {
    let mut run = AgentRun::start("edit", limits(), false, no_context());
    let reply = "```json\n{\"tool\": \"edit_file\", \"target\": \"a.txt\"}\n```\n".to_string();
    for round in 0..2 {
        run.iterate(false);
        let next = run.responded(reply.clone(), false);
        assert!(matches!(next, Next::RunTool(_)));
        match run.tool_done(ToolResult::fail("boom".to_string())) {
            Next::Continue => assert_eq!(round, 0),
            Next::Finished(result) => {
                assert_eq!(round, 1);
                assert_eq!(result.outcome, AgentState::Failed);
                assert_eq!(result.warnings, vec!["gave up after 2 failed reviews".to_string()]);
            }
            _ => panic!("unexpected step"),
        }
    }
    assert!(run.history.iter().any(|line| line.starts_with("review failed: unknown tool failed: boom")));
}

#[test]
fn iteration_budget_fails_the_run() {
    let tight = AgentConfig { max_iterations: 1, ..limits() };
    let mut run = AgentRun::start("loop", tight, false, no_context());
    run.iterate(false);
    let reply = "```json\n{\"tool\": \"read_file\", \"target\": \"a\"}\n```\n".to_string();
    run.responded(reply, false);
    assert!(matches!(run.tool_done(ToolResult::ok("x".to_string())), Next::Continue));
    match run.iterate(false) {
        Next::Finished(result) => {
            assert_eq!(result.outcome, AgentState::Failed);
            assert_eq!(result.warnings, vec!["stopped after 1 iterations (limit 1)".to_string()]);
        }
        _ => panic!("budget must stop the run"),
    }
}

#[test]
fn cancellation_and_provider_failures() {
    let mut run = AgentRun::start("x", limits(), false, no_context());
    match run.iterate(true) {
        Next::Finished(result) => {
            assert_eq!(result.outcome, AgentState::Cancelled);
            assert_eq!(result.summary, "cancelled by user");
        }
        _ => panic!("cancel must finish"),
    }
    let mut run = AgentRun::start("x", limits(), false, no_context());
    run.iterate(false);
    assert!(matches!(run.provider_failed("offline"), Next::Continue));
    run.iterate(false);
    match run.provider_failed("offline") {
        Next::Finished(result) => {
            assert_eq!(result.outcome, AgentState::Failed);
            assert_eq!(result.warnings.len(), 2);
            assert_eq!(result.warnings[0], "provider request failed: offline");
        }
        _ => panic!("second failure exceeds the retries"),
    }
}

#[test]
fn questions_pause_for_the_user_when_interactive() {
    let mut run = AgentRun::start("edit", limits(), true, no_context());
    run.iterate(false);
    let reply = "```json\n{\"tool\": \"edit_file\", \"target\": \"a.txt\"}\n```\n".to_string();
    let request = match run.responded(reply, false) {
        Next::RunTool(request) => request,
        _ => panic!("expected a tool run"),
    };
    let ask = ToolResult::permission_required(darb::permissions::AskReason::PolicyRequiresConfirmation, &request);
    match run.tool_done(ask) {
        Next::Confirm(request) => assert_eq!(request.tool, "edit_file"),
        _ => panic!("expected a confirmation"),
    }
    assert_eq!(run.state, AgentState::WaitingPermission);
    run.take_events();
    let next = run.confirmed(None);
    assert!(matches!(next, Next::Continue));
    let events = run.take_events();
    assert_eq!(
        events[0],
        DarbEvent::AgentStateChanged { from: AgentState::WaitingPermission, to: AgentState::Executing }
    );
    assert!(matches!(events[1], DarbEvent::PermissionResolved { allowed: false, .. }));
    assert!(run.history[0].contains("DeniedByUser"));
}

#[test]
fn timeout_reports_a_fresh_failure() {
    let mut run = AgentRun::start("slow", limits(), false, no_context());
    run.iterate(false);
    let result = run.timed_out();
    assert_eq!(result.outcome, AgentState::Failed);
    assert_eq!(result.summary, "agent timed out");
    assert_eq!(result.warnings, vec!["exceeded the 30s timeout".to_string()]);
}

#[test]
fn successful_edits_count_their_file_once() {
    let mut run = AgentRun::start("edit twice", limits(), false, no_context());
    run.iterate(false);
    let block = "```json\n{\"tool\": \"edit_file\", \"target\": \"a.txt\"}\n```\n";
    let reply = format!("{block}{block}```json\n{{\"tool\": \"edit_file\", \"target\": \"b.txt\"}}\n```\n");
    assert!(matches!(run.responded(reply, false), Next::RunTool(_)));
    assert!(matches!(run.tool_done(ToolResult::ok("edited".to_string())), Next::RunTool(_)));
    assert!(matches!(run.tool_done(ToolResult::ok("edited".to_string())), Next::RunTool(_)));
    assert!(matches!(run.tool_done(ToolResult::fail("no".to_string())), Next::Continue));
    assert_eq!(run.stats.changed_files, vec!["a.txt".to_string()]);
    assert_eq!(run.stats.failures, 1);
    assert!(run.history.last().is_some_and(|line| line.starts_with("review failed: ")));
    let events = run.take_events();
    let completed = events.iter().filter(|e| matches!(e, DarbEvent::ToolCompleted { .. })).count();
    assert_eq!(completed, 3);
}
