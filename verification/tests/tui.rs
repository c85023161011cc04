use darb::events::{AgentState, DarbEvent};
use darb::i18n::{I18n, Locale};
use darb::tui::app::{
    status_key, tab_label_width, task_at_row, AgentMode, App, ChatMessage, FileEntry, Focus,
    KeyOutcome, MessageRole, Tab, TaskItem, TaskState,
};
use darb::tui::keybindings::{action_for, Action, KeyCode, KeyPress};
use darb::tui::palette::{commands, Command, Palette};

fn pt() -> I18n {
    I18n::new(Locale::Pt).expect("locales must parse")
}

fn key(code: KeyCode) -> KeyPress {
    KeyPress { code, control: false, modified: false }
}

fn ctrl(c: char) -> KeyPress {
    KeyPress { code: KeyCode::Char(c), control: true, modified: true }
}

#[test]
fn events_fold_into_state() {
    let i18n = pt();
    let mut app = App::new();
    app.apply_event(&DarbEvent::AgentStarted { task: "fix login".to_string() }, &i18n);
    assert_eq!(app.agent_state, AgentState::Analyzing);
    app.apply_event(
        &DarbEvent::AgentStateChanged { from: AgentState::Analyzing, to: AgentState::Executing },
        &i18n,
    );
    assert_eq!(app.agent_state, AgentState::Executing);
    app.apply_event(&DarbEvent::AgentFinished { summary: "done".to_string() }, &i18n);
    assert!(matches!(
        app.messages.last(),
        Some(ChatMessage { role: MessageRole::Agent, .. })
    ));
    app.apply_event(&DarbEvent::ErrorOccurred { message: "boom".to_string() }, &i18n);
    assert!(app.messages.iter().any(|m| m.text.contains("boom")));
}

#[test]
fn tool_events_build_the_task_list() {
    let i18n = pt();
    let mut app = App::new();
    app.apply_event(&DarbEvent::AgentStarted { task: "fix login".to_string() }, &i18n);
    app.apply_event(
        &DarbEvent::ToolRequested { tool: "read_file".to_string(), target: "a.rs".to_string() },
        &i18n,
    );
    assert_eq!(app.tasks.len(), 1);
    assert_eq!(app.tasks[0].state, TaskState::Pending);
    assert_eq!(app.tasks[0].tool, "read_file");
    assert_eq!(app.tasks[0].target, "a.rs");
    assert!(!app.tasks[0].expanded);
    app.apply_event(
        &DarbEvent::ToolCompleted { tool: "read_file".to_string(), success: true },
        &i18n,
    );
    assert_eq!(app.tasks[0].state, TaskState::Done);
    app.apply_event(
        &DarbEvent::ToolRequested { tool: "edit_file".to_string(), target: "a.rs".to_string() },
        &i18n,
    );
    app.apply_event(
        &DarbEvent::ToolCompleted { tool: "edit_file".to_string(), success: false },
        &i18n,
    );
    assert_eq!(app.tasks[1].state, TaskState::Failed);
}

#[test]
fn event_messages_are_translated() {
    let i18n = pt();
    let mut app = App::new();
    app.apply_event(
        &DarbEvent::ToolCompleted { tool: "shell".to_string(), success: false },
        &i18n,
    );
    assert_eq!(app.messages[0].text, "✗ shell falhou");
    app.apply_event(&DarbEvent::ContextReady { files: 12 }, &i18n);
    assert_eq!(app.context_lines, vec!["Ficheiros: 12".to_string()]);
    app.apply_event(&DarbEvent::ProviderDelta { text: "par".to_string() }, &i18n);
    app.apply_event(&DarbEvent::ProviderDelta { text: "tial".to_string() }, &i18n);
    assert_eq!(app.streaming, "partial");
}

#[test]
fn permission_dialog_blocks_input_until_answered() {
    let i18n = pt();
    let mut app = App::new();
    app.apply_event(
        &DarbEvent::PermissionRequested {
            tool: "shell".to_string(),
            target: "rm -rf /tmp/x".to_string(),
        },
        &i18n,
    );
    assert!(app.permission.is_some());
    assert_eq!(app.handle_key(key(KeyCode::Char('x')), &i18n), KeyOutcome::Ignored);
    assert!(app.input.is_empty());
    assert_eq!(
        app.handle_key(key(KeyCode::Char('a')), &i18n),
        KeyOutcome::PermissionAnswer(true)
    );
    assert!(app.permission.is_none());
}

#[test]
fn escape_denies_a_pending_question() {
    let i18n = pt();
    let mut app = App::new();
    app.ask_permission("shell", "echo hi");
    assert_eq!(app.handle_key(key(KeyCode::Esc), &i18n), KeyOutcome::PermissionAnswer(false));
    assert!(app.permission.is_none());
}

#[test]
fn typing_submit_and_scroll() {
    let i18n = pt();
    let mut app = App::new();
    for c in "hi".chars() {
        assert_eq!(app.handle_key(key(KeyCode::Char(c)), &i18n), KeyOutcome::Ignored);
    }
    assert_eq!(app.input, "hi");
    assert_eq!(
        app.handle_key(key(KeyCode::Enter), &i18n),
        KeyOutcome::Submitted("hi".to_string())
    );
    assert!(app.input.is_empty());
    assert_eq!(
        app.handle_key(key(KeyCode::Enter), &i18n),
        KeyOutcome::Ignored,
        "empty line submits nothing"
    );
    app.handle_key(key(KeyCode::Up), &i18n);
    assert_eq!(app.scroll, 1);
    app.handle_key(key(KeyCode::Down), &i18n);
    assert_eq!(app.scroll, 0);
    app.handle_key(key(KeyCode::Backspace), &i18n);
    assert!(app.input.is_empty());
}

#[test]
fn ctrl_k_opens_palette_and_enter_runs_a_command() {
    let i18n = pt();
    let mut app = App::new();
    assert_eq!(app.handle_key(ctrl('k'), &i18n), KeyOutcome::Ignored);
    assert!(app.palette.is_some());
    for c in "diff".chars() {
        app.handle_key(key(KeyCode::Char(c)), &i18n);
    }
    assert_eq!(app.input, "", "palette keystrokes never reach the line");
    assert_eq!(
        app.handle_key(key(KeyCode::Enter), &i18n),
        KeyOutcome::Command(Command::ShowDiff)
    );
    assert!(app.palette.is_none());
}

#[test]
fn escaping_the_palette_keeps_the_session() {
    let i18n = pt();
    let mut app = App::new();
    app.handle_key(ctrl('k'), &i18n);
    assert_eq!(app.handle_key(key(KeyCode::Esc), &i18n), KeyOutcome::Ignored);
    assert!(app.palette.is_none());
    assert_eq!(app.handle_key(key(KeyCode::Esc), &i18n), KeyOutcome::Quit);
}

#[test]
fn ctrl_letters_switch_tabs() {
    let i18n = pt();
    let mut app = App::new();
    app.handle_key(ctrl('p'), &i18n);
    assert_eq!(app.tab, Tab::Files);
    assert_eq!(app.focus, Focus::Workspace);
    app.handle_key(ctrl('g'), &i18n);
    assert_eq!(app.tab, Tab::Git);
    app.handle_key(ctrl('t'), &i18n);
    assert_eq!(app.tab, Tab::Terminal);
}

#[test]
fn focus_cycles_through_the_three_regions() {
    let i18n = pt();
    let mut app = App::new();
    app.handle_key(key(KeyCode::Tab), &i18n);
    assert_eq!(app.focus, Focus::Explorer);
    app.handle_key(key(KeyCode::Tab), &i18n);
    assert_eq!(app.focus, Focus::Workspace);
    app.handle_key(key(KeyCode::Tab), &i18n);
    assert_eq!(app.focus, Focus::Input);
}

#[test]
fn explorer_navigates_and_opens_entries() {
    let i18n = pt();
    let mut app = App::new();
    app.set_current_dir("crates".to_string());
    app.set_files(vec![
        FileEntry { name: "core".to_string(), is_dir: true },
        FileEntry { name: "lib.rs".to_string(), is_dir: false },
    ]);
    app.handle_key(key(KeyCode::Tab), &i18n);
    assert_eq!(app.focus, Focus::Explorer);
    assert_eq!(app.handle_key(key(KeyCode::Enter), &i18n), KeyOutcome::GoUp);
    app.handle_key(key(KeyCode::Down), &i18n);
    assert_eq!(
        app.handle_key(key(KeyCode::Enter), &i18n),
        KeyOutcome::OpenEntry { path: "crates/core".to_string(), is_dir: true }
    );
    app.handle_key(key(KeyCode::Down), &i18n);
    assert_eq!(
        app.handle_key(key(KeyCode::Enter), &i18n),
        KeyOutcome::OpenEntry { path: "crates/lib.rs".to_string(), is_dir: false }
    );
    app.handle_key(key(KeyCode::Down), &i18n);
    assert_eq!(app.explorer_index, 2);
}

#[test]
fn terminal_tab_runs_the_typed_command() {
    let i18n = pt();
    let mut app = App::new();
    app.handle_key(ctrl('t'), &i18n);
    for c in "cargo test".chars() {
        app.handle_key(key(KeyCode::Char(c)), &i18n);
    }
    assert_eq!(
        app.handle_key(key(KeyCode::Enter), &i18n),
        KeyOutcome::TerminalCommand("cargo test".to_string())
    );
}

#[test]
fn status_keys_resolve_in_default_locale() {
    let i18n = pt();
    for state in [
        AgentState::Idle,
        AgentState::Analyzing,
        AgentState::Planning,
        AgentState::WaitingProvider,
        AgentState::WaitingPermission,
        AgentState::Executing,
        AgentState::Reviewing,
        AgentState::Retrying,
        AgentState::Completed,
        AgentState::Failed,
        AgentState::Cancelled,
    ] {
        let key = status_key(&state);
        let text = i18n.text(key);
        assert!(!text.is_empty() && text != key, "{state:?}");
    }
}

#[test]
fn every_tab_has_a_translated_label() {
    let i18n = pt();
    for tab in Tab::all() {
        assert_ne!(i18n.text(tab.title_key()), tab.title_key());
    }
}

#[test]
fn tab_label_width_counts_characters() {
    let i18n = pt();
    assert_eq!(tab_label_width(Tab::Changes, &i18n), "Alterações".chars().count() as u16);
}

#[test]
fn ctrl_j_and_l_toggle_panels() {
    let i18n = pt();
    let mut app = App::new();
    assert!(app.bottom_open && app.context_visible);
    app.handle_key(ctrl('j'), &i18n);
    assert!(!app.bottom_open);
    app.handle_key(ctrl('j'), &i18n);
    assert!(app.bottom_open);
    app.handle_key(ctrl('l'), &i18n);
    assert!(!app.context_visible);
    app.handle_key(ctrl('l'), &i18n);
    assert!(app.context_visible);
}

#[test]
fn ctrl_o_cycles_through_all_modes_and_wraps() {
    let i18n = pt();
    let mut app = App::new();
    assert_eq!(app.agent_mode, AgentMode::Auto);
    let mut seen = vec![app.agent_mode.name()];
    for _ in 0..6 {
        app.handle_key(ctrl('o'), &i18n);
        seen.push(app.agent_mode.name());
    }
    assert_eq!(seen, ["AUTO", "PLAN", "CODE", "DEBUG", "REVIEW", "EXPLAIN", "AUTO"]);
}

#[test]
fn tasks_cursor_moves_and_enter_toggles_expansion() {
    let i18n = pt();
    let mut app = App::new();
    app.apply_event(&DarbEvent::AgentStarted { task: "fix login".to_string() }, &i18n);
    for target in ["a.rs", "b.rs"] {
        app.apply_event(
            &DarbEvent::ToolRequested { tool: "read_file".to_string(), target: target.to_string() },
            &i18n,
        );
    }
    app.set_tab(Tab::Tasks);
    app.handle_key(key(KeyCode::Tab), &i18n);
    app.handle_key(key(KeyCode::Tab), &i18n);
    assert_eq!(app.focus, Focus::Workspace);
    app.handle_key(key(KeyCode::Down), &i18n);
    assert_eq!(app.tasks_index, 1);
    app.handle_key(key(KeyCode::Down), &i18n);
    assert_eq!(app.tasks_index, 1, "cursor stops at the last step");
    app.handle_key(key(KeyCode::Up), &i18n);
    assert_eq!(app.tasks_index, 0);
    assert_eq!(app.handle_key(key(KeyCode::Enter), &i18n), KeyOutcome::Ignored);
    assert!(app.tasks[0].expanded);
    assert!(!app.tasks[1].expanded);
}

#[test]
fn task_at_row_counts_expanded_detail_lines() {
    let tasks = vec![
        TaskItem {
            tool: "read_file".to_string(),
            target: "a.rs".to_string(),
            state: TaskState::Done,
            expanded: false,
        },
        TaskItem {
            tool: "edit_file".to_string(),
            target: "b.rs".to_string(),
            state: TaskState::Pending,
            expanded: true,
        },
    ];
    assert_eq!(task_at_row(&tasks, 0), Some(0));
    assert_eq!(task_at_row(&tasks, 1), Some(1));
    assert_eq!(task_at_row(&tasks, 2), Some(1), "detail line maps to its step");
    assert_eq!(task_at_row(&tasks, 3), None);
    assert_eq!(task_at_row(&[], 0), None);
}

fn open_for_edit(app: &mut App, i18n: &I18n) {
    app.set_file_preview("a.txt".to_string(), "ab\ncd\n".to_string());
    app.set_tab(Tab::Files);
    app.handle_key(ctrl('e'), i18n);
    assert!(app.editing, "Ctrl+E enters edit mode on an open file");
}

#[test]
fn edit_mode_needs_an_open_file() {
    let i18n = pt();
    let mut app = App::new();
    app.handle_key(ctrl('e'), &i18n);
    assert!(!app.editing, "no preview open");
    app.set_tab(Tab::Files);
    app.handle_key(ctrl('e'), &i18n);
    assert!(!app.editing, "Files tab but still no preview");
    app.set_file_preview("a.txt".to_string(), "x".to_string());
    app.handle_key(ctrl('e'), &i18n);
    assert!(app.editing);
    app.handle_key(ctrl('e'), &i18n);
    assert!(!app.editing, "toggles back off, buffer kept");
    assert!(app.file_preview.is_some());
}

#[test]
fn typing_and_save_preserve_the_trailing_newline() {
    let i18n = pt();
    let mut app = App::new();
    open_for_edit(&mut app, &i18n);
    app.handle_key(key(KeyCode::Char('X')), &i18n);
    assert!(app.edit_dirty);
    let (path, original, content) = app.take_save().expect("dirty buffer saves");
    assert_eq!(path, "a.txt");
    assert_eq!(original, "ab\ncd\n");
    assert_eq!(content, "Xab\ncd\n");
    match app.handle_key(ctrl('s'), &i18n) {
        KeyOutcome::SaveFile { path, original, content } => {
            assert_eq!(path, "a.txt");
            assert_eq!(original, "ab\ncd\n");
            assert_eq!(content, "Xab\ncd\n");
        }
        other => panic!("expected SaveFile, got {other:?}"),
    }
}

#[test]
fn clean_buffer_saves_nothing() {
    let i18n = pt();
    let mut app = App::new();
    open_for_edit(&mut app, &i18n);
    assert!(app.take_save().is_none());
    assert_eq!(app.handle_key(ctrl('s'), &i18n), KeyOutcome::Ignored);
}

#[test]
fn backspace_at_line_start_joins_lines() {
    let i18n = pt();
    let mut app = App::new();
    open_for_edit(&mut app, &i18n);
    app.handle_key(key(KeyCode::Down), &i18n);
    app.handle_key(key(KeyCode::Backspace), &i18n);
    assert_eq!(app.edit_lines, vec!["abcd".to_string()]);
    assert_eq!((app.edit_row, app.edit_col), (0, 2));
    app.handle_key(key(KeyCode::Enter), &i18n);
    assert_eq!(app.edit_lines, vec!["ab".to_string(), "cd".to_string()]);
    assert_eq!((app.edit_row, app.edit_col), (1, 0));
}

#[test]
fn arrows_wrap_across_lines_and_clamp() {
    let i18n = pt();
    let mut app = App::new();
    open_for_edit(&mut app, &i18n);
    app.handle_key(key(KeyCode::Left), &i18n);
    assert_eq!((app.edit_row, app.edit_col), (0, 0));
    app.handle_key(key(KeyCode::Right), &i18n);
    app.handle_key(key(KeyCode::Right), &i18n);
    app.handle_key(key(KeyCode::Right), &i18n);
    assert_eq!((app.edit_row, app.edit_col), (1, 0));
    app.handle_key(key(KeyCode::Up), &i18n);
    assert_eq!((app.edit_row, app.edit_col), (0, 0));
    app.handle_key(key(KeyCode::Down), &i18n);
    app.handle_key(key(KeyCode::Down), &i18n);
    assert_eq!((app.edit_row, app.edit_col), (1, 0));
}

#[test]
fn esc_exits_edit_mode_without_saving() {
    let i18n = pt();
    let mut app = App::new();
    open_for_edit(&mut app, &i18n);
    app.handle_key(key(KeyCode::Char('Z')), &i18n);
    assert_eq!(app.handle_key(key(KeyCode::Esc), &i18n), KeyOutcome::Ignored);
    assert!(!app.editing);
    assert!(app.edit_dirty, "buffer kept for the next edit session");
    assert!(app.input.is_empty(), "keystrokes never reached the command line");
}

#[test]
fn cursor_math_is_char_based_not_byte_based() {
    let i18n = pt();
    let mut app = App::new();
    app.set_file_preview("u.txt".to_string(), "héllo\n".to_string());
    app.set_tab(Tab::Files);
    app.handle_key(ctrl('e'), &i18n);
    app.handle_key(key(KeyCode::Right), &i18n);
    app.handle_key(key(KeyCode::Char('X')), &i18n);
    assert_eq!(app.edit_lines[0], "hXéllo");
    assert_eq!((app.edit_row, app.edit_col), (0, 2));
}

#[test]
fn confirm_saved_refreshes_the_snapshot() {
    let i18n = pt();
    let mut app = App::new();
    open_for_edit(&mut app, &i18n);
    app.handle_key(key(KeyCode::Char('X')), &i18n);
    let (_, _, content) = app.take_save().expect("save");
    app.confirm_saved(content);
    assert!(!app.edit_dirty);
    assert!(app.editing, "editor stays open after save");
    assert!(app.take_save().is_none());
}

#[test]
fn tab_key_types_two_spaces_while_editing() {
    let i18n = pt();
    let mut app = App::new();
    open_for_edit(&mut app, &i18n);
    app.handle_key(key(KeyCode::Tab), &i18n);
    assert_eq!(app.edit_lines[0], "  ab");
    assert_eq!(app.edit_col, 2);
}

#[test]
fn maps_special_keys() {
    let plain = |code| KeyPress { code, control: false, modified: false };
    let control = |code| KeyPress { code, control: true, modified: true };
    assert_eq!(action_for(plain(KeyCode::Esc)), Action::Quit);
    assert_eq!(action_for(plain(KeyCode::Enter)), Action::Submit);
    assert_eq!(action_for(plain(KeyCode::Tab)), Action::FocusNext);
    assert_eq!(action_for(plain(KeyCode::Up)), Action::ScrollUp);
    assert_eq!(action_for(control(KeyCode::Char('c'))), Action::CancelRequested);
    assert_eq!(action_for(control(KeyCode::Char('b'))), Action::ToggleExplorer);
    assert_eq!(action_for(control(KeyCode::Char('k'))), Action::CommandPalette);
}

#[test]
fn mod_ctrl_j_and_l_toggle_panels() {
    assert_eq!(action_for(ctrl('j')), Action::ToggleTerminal);
    assert_eq!(action_for(ctrl('l')), Action::ToggleContext);
}

#[test]
fn ctrl_letters_open_tabs() {
    assert_eq!(action_for(ctrl('p')), Action::ShowTab(Tab::Files));
    assert_eq!(action_for(ctrl('g')), Action::ShowTab(Tab::Git));
    assert_eq!(action_for(ctrl('l')), Action::ToggleContext);
    assert_eq!(action_for(ctrl('o')), Action::CycleMode);
    assert_eq!(action_for(ctrl('e')), Action::ToggleEdit);
}

#[test]
fn plain_characters_are_input_not_actions() {
    assert_eq!(action_for(key(KeyCode::Char('q'))), Action::Ignore);
    assert_eq!(action_for(key(KeyCode::Backspace)), Action::Ignore);
}

#[test]
fn empty_query_lists_every_command() {
    let i18n = pt();
    let palette = Palette::new();
    assert_eq!(palette.filtered(&i18n).len(), commands().len());
    assert_eq!(palette.selected(&i18n), Some(Command::OpenTab(Tab::Chat)));
}

#[test]
fn query_filters_on_the_translated_label() {
    let i18n = pt();
    let mut palette = Palette::new();
    for c in "diff".chars() {
        palette.push_char(c);
    }
    let matches = palette.filtered(&i18n);
    assert_eq!(matches.len(), 1, "{matches:?}");
    assert_eq!(palette.selected(&i18n), Some(Command::ShowDiff));
}

#[test]
fn selection_wraps_and_clamps_on_empty_results() {
    let i18n = pt();
    let mut palette = Palette::new();
    palette.move_selection(-1, &i18n);
    assert_eq!(palette.index, commands().len() - 1);
    for c in "zzzz".chars() {
        palette.push_char(c);
    }
    assert!(palette.filtered(&i18n).is_empty());
    assert_eq!(palette.selected(&i18n), None);
    palette.move_selection(3, &i18n);
    assert_eq!(palette.index, 0);
    palette.pop_char();
    assert_eq!(palette.query, "zzz");
}

#[test]
fn every_catalog_key_is_translated() {
    let i18n = pt();
    for (_, key) in commands() {
        let label = i18n.text(key);
        assert_ne!(label, key, "{key}");
    }
}

#[test]
fn crlf_text_edited_back_saves_byte_for_byte() {
    let mut app = App::new();
    let text = "one\r\ntwo\r\n\r\n".to_string();
    app.set_file_preview("w.txt".to_string(), text.clone());
    app.set_tab(Tab::Files);
    app.toggle_edit();
    assert_eq!(app.edit_lines, vec!["one\r".to_string(), "two\r".to_string(), "\r".to_string()]);
    app.edit_insert('z');
    app.edit_backspace();
    assert_eq!(app.take_save(), Some(("w.txt".to_string(), text.clone(), text)));
}

#[test]
fn insert_past_the_line_end_clamps_the_column() {
    let mut app = App::new();
    app.set_file_preview("a.txt".to_string(), "ab\n".to_string());
    app.set_tab(Tab::Files);
    app.toggle_edit();
    app.edit_col = 9;
    app.edit_insert('c');
    assert_eq!(app.edit_lines, vec!["abc".to_string()]);
    assert_eq!(app.edit_col, 3);
    app.edit_col = 7;
    app.edit_backspace();
    assert_eq!(app.edit_lines, vec!["abc".to_string()]);
    assert_eq!(app.edit_col, 6);
    app.edit_newline();
    assert_eq!(app.edit_lines, vec!["abc".to_string(), String::new()]);
    assert_eq!((app.edit_row, app.edit_col), (1, 0));
}
