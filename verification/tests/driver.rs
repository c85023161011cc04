use darb::errors::DarbError;
use darb::events::{AgentState, DarbEvent};
use darb::i18n::{I18n, Locale};
use darb::permissions::ToolRequest;
use darb::providers::{accept_answer, ProviderResponse, StreamCollector, TokenUsage};
use darb::textmap::TextMap;
use darb::tools::registry::ToolResult;
use darb::tui::app::{App, Focus, KeyOutcome, MessageRole, Tab};
use darb::tui::driver::{
    context_lines, language_notice, listing_entries, parent_dir, parse_role, shown_text,
    state_label, terminal_report, toggle_locale, LoopState, Start, Step, Waiting, Work,
};
use darb::tui::palette::Command;

fn en() -> I18n {
    I18n::new(Locale::En).expect("locales must parse")
}

fn result(success: bool, output: &str, error: Option<&str>) -> ToolResult {
    ToolResult {
        success,
        output: output.to_string(),
        error: error.map(|e| e.to_string()),
        metadata: TextMap::new(),
        duration_ms: 0,
    }
}

#[test]
fn listing_lines_become_entries() {
    let entries = listing_entries("src/\n\nCargo.toml\nnested//\n");
    assert_eq!(entries.len(), 3);
    assert_eq!(entries[0].name, "src");
    assert!(entries[0].is_dir);
    assert_eq!(entries[1].name, "Cargo.toml");
    assert!(!entries[1].is_dir);
    assert_eq!(entries[2].name, "nested");
    assert!(entries[2].is_dir);
}

#[test]
fn parent_of_nested_and_top_level_dirs() {
    assert_eq!(parent_dir("crates/core/src"), "crates/core");
    assert_eq!(parent_dir("crates"), "");
    assert_eq!(parent_dir(""), "");
}

#[test]
fn stored_roles_parse_and_unknown_ones_do_not() {
    assert_eq!(parse_role("user"), Some(MessageRole::User));
    assert_eq!(parse_role("agent"), Some(MessageRole::Agent));
    assert_eq!(parse_role("system"), Some(MessageRole::System));
    assert_eq!(parse_role("tool"), None);
}

#[test]
fn state_labels_are_lower_case_names() {
    assert_eq!(state_label(AgentState::Completed), "completed");
    assert_eq!(state_label(AgentState::WaitingProvider), "waitingprovider");
}

#[test]
fn terminal_report_echoes_output_error_and_exit_code() {
    let i18n = en();
    let mut failed = result(false, "line one\nline two\n\n", Some("exit status 2"));
    failed.metadata.insert("exit_code".to_string(), "2".to_string());
    let lines = terminal_report("make", &failed, &i18n);
    assert_eq!(lines[0], "$ make");
    assert_eq!(lines[1], "line one");
    assert_eq!(lines[2], "line two");
    assert_eq!(lines[3], "✗ exit status 2");
    assert_eq!(lines.len(), 5);
    assert!(lines[4].contains('2'));
    let quiet = terminal_report("true", &result(true, "  \n", None), &i18n);
    assert_eq!(quiet, vec!["$ true".to_string()]);
}

#[test]
fn context_panel_has_four_lines_with_the_numbers() {
    let i18n = en();
    let lines = context_lines(&i18n, 12, "openai/gpt", "balanced", 3);
    assert_eq!(lines.len(), 4);
    assert!(lines[0].contains("12"));
    assert!(lines[1].contains("openai/gpt"));
    assert!(lines[2].contains("balanced"));
    assert!(lines[3].contains('3'));
}

#[test]
fn panels_show_output_or_error() {
    assert_eq!(shown_text(&result(true, "## main", None)), "## main");
    assert_eq!(shown_text(&result(false, "", Some("not a repository"))), "not a repository");
    assert_eq!(shown_text(&result(false, "ignored", None)), "");
}

#[test]
fn language_toggles_and_is_announced() {
    assert_eq!(toggle_locale(Locale::Pt), Locale::En);
    assert_eq!(toggle_locale(Locale::En), Locale::Pt);
    assert_eq!(language_notice(Locale::En), "🌐 en");
}

#[test]
fn events_drive_the_loop_state() {
    let mut state = LoopState::new();
    let f = state.on_event(&DarbEvent::AgentStarted { task: "t".to_string() }, AgentState::Idle);
    assert!(state.busy && state.tool_count == 0 && !f.refresh);
    state.on_event(
        &DarbEvent::ToolRequested { tool: "read_file".to_string(), target: "a.rs".to_string() },
        AgentState::Executing,
    );
    let f = state.on_event(
        &DarbEvent::ToolCompleted { tool: "read_file".to_string(), success: true },
        AgentState::Executing,
    );
    assert_eq!(state.tool_count, 1);
    assert_eq!(f.tool_call, Some(("read_file".to_string(), "a.rs".to_string(), true)));
    let f = state.on_event(
        &DarbEvent::AgentFinished { summary: "done".to_string() },
        AgentState::Completed,
    );
    assert!(!state.busy);
    assert!(f.refresh);
    assert_eq!(f.finished, Some(("done".to_string(), "completed".to_string())));
}

#[test]
fn completion_without_a_request_records_nothing() {
    let mut state = LoopState::new();
    let f = state.on_event(
        &DarbEvent::ToolCompleted { tool: "shell".to_string(), success: false },
        AgentState::Executing,
    );
    assert_eq!(f.tool_call, None);
    assert_eq!(state.tool_count, 1);
}

#[test]
fn submitted_tasks_start_once_and_wait_otherwise() {
    let i18n = en();
    let mut state = LoopState::new();
    let step = state.decide(KeyOutcome::Submitted("fix".to_string()), true, None, &i18n);
    assert!(matches!(step, Step::Submit { start: Start::Run, .. }));
    assert!(state.busy);
    let step = state.decide(KeyOutcome::Submitted("again".to_string()), true, None, &i18n);
    assert!(matches!(step, Step::Submit { start: Start::Busy, .. }));
    let mut offline = LoopState::new();
    let step = offline.decide(KeyOutcome::Submitted("fix".to_string()), false, None, &i18n);
    assert!(matches!(step, Step::Submit { start: Start::Offline, .. }));
    assert!(!offline.busy);
}

#[test]
fn permission_answers_go_to_whoever_waits() {
    let i18n = en();
    let mut state = LoopState::new();
    assert!(matches!(
        state.decide(KeyOutcome::PermissionAnswer(true), true, None, &i18n),
        Step::Nothing
    ));
    assert!(matches!(
        state.decide(KeyOutcome::PermissionAnswer(false), true, Some(Waiting::Agent), &i18n),
        Step::Answer(false)
    ));
    let request = ToolRequest::new("shell", "rm -rf /tmp/x");
    let approved = state.decide(
        KeyOutcome::PermissionAnswer(true),
        true,
        Some(Waiting::Terminal(request)),
        &i18n,
    );
    assert!(matches!(approved, Step::RunApproved(ref r) if r.target == "rm -rf /tmp/x"));
    let refused = state.decide(
        KeyOutcome::PermissionAnswer(false),
        true,
        Some(Waiting::Terminal(ToolRequest::new("shell", "rm -rf /tmp/x"))),
        &i18n,
    );
    match refused {
        Step::Refused(line) => assert!(line.contains("rm -rf /tmp/x")),
        _ => panic!("expected a refusal"),
    }
    assert!(matches!(state.decide(KeyOutcome::CancelRequested, false, None, &i18n), Step::Nothing));
    assert!(matches!(state.decide(KeyOutcome::CancelRequested, true, None, &i18n), Step::Cancel));
    assert!(matches!(state.decide(KeyOutcome::Quit, true, None, &i18n), Step::Quit));
}

#[test]
fn palette_commands_change_the_view_and_leave_the_rest() {
    let mut app = App::new();
    assert_eq!(app.perform(Command::RefreshGit), Work::RefreshGit);
    assert_eq!(app.tab, Tab::Git);
    assert_eq!(app.focus, Focus::Workspace);
    assert_eq!(app.perform(Command::ShowDiff), Work::RefreshDiff);
    assert_eq!(app.tab, Tab::Changes);
    let visible = app.explorer_visible;
    assert_eq!(app.perform(Command::ToggleExplorer), Work::Done);
    assert_eq!(app.explorer_visible, !visible);
    assert_eq!(app.perform(Command::Quit), Work::Quit);
    assert_eq!(app.perform(Command::ToggleLanguage), Work::ToggleLanguage);
}

#[test]
fn opened_files_show_in_the_files_tab_and_failures_in_the_chat() {
    let i18n = en();
    let mut app = App::new();
    app.show_opened("a.txt".to_string(), &result(true, "hello", None), &i18n);
    assert_eq!(app.tab, Tab::Files);
    assert_eq!(app.file_preview.as_ref().map(|p| p.text.as_str()), Some("hello"));
    let before = app.messages.len();
    app.show_opened("b.txt".to_string(), &result(false, "", Some("missing")), &i18n);
    assert_eq!(app.messages.len(), before + 1);
    assert!(app.messages[before].text.starts_with("⚠ "));
    assert!(app.messages[before].text.contains("b.txt"));
}

#[test]
fn listings_fill_the_explorer_only_on_success() {
    let mut app = App::new();
    assert!(!app.show_listing(&result(false, "x/\n", Some("denied"))));
    assert!(app.files.is_empty());
    assert!(app.show_listing(&result(true, "x/\ny.rs\n", None)));
    assert_eq!(app.files.len(), 2);
    assert!(app.files[0].is_dir);
}

#[test]
fn blank_answers_are_provider_errors() {
    let usage = TokenUsage { prompt_tokens: 1, completion_tokens: 2 };
    let ok = accept_answer(ProviderResponse { text: "hi".to_string(), usage });
    assert_eq!(ok.map(|r| r.text), Ok("hi".to_string()));
    let blank = accept_answer(ProviderResponse { text: " \n".to_string(), usage });
    assert!(matches!(blank, Err(DarbError::Provider(ref m)) if m == "provider returned an empty response"));
}

#[test]
fn streams_collect_text_and_keep_partial_answers() {
    let mut c = StreamCollector::new();
    c.on_delta("Hel");
    c.on_delta("lo");
    c.on_done(TokenUsage { prompt_tokens: 3, completion_tokens: 2 });
    let (response, interrupted) = c.on_end().expect("content");
    assert_eq!(response.text, "Hello");
    assert_eq!(response.usage.completion_tokens, 2);
    assert!(!interrupted);

    let mut partial = StreamCollector::new();
    partial.on_delta("part");
    let (response, interrupted) =
        partial.on_error(DarbError::Network("reset".to_string())).expect("partial");
    assert_eq!(response.text, "part");
    assert!(interrupted);

    let empty = StreamCollector::new();
    assert!(matches!(
        empty.on_error(DarbError::Network("reset".to_string())),
        Err(DarbError::Network(_))
    ));
    assert!(matches!(StreamCollector::new().on_end(), Err(DarbError::Provider(_))));
}

#[test]
fn receive_failures_name_the_channel() {
    let e = darb::events::receive_error("channel lagged by 3");
    assert_eq!(e, DarbError::Internal("event bus receive failed: channel lagged by 3".to_string()));
}
