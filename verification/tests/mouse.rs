use darb::events::DarbEvent;
use darb::i18n::{I18n, Locale};
use darb::tui::app::{tab_label_width, App, FileEntry, Focus, KeyOutcome, Tab, TaskState};
use darb::tui::layout::{
    centered_rect, shell_layout, Rect, ShellLayout, TERMINAL_CLOSED_HEIGHT, TERMINAL_OPEN_HEIGHT,
};
use darb::tui::mouse::{click_outcome, Click, MouseInput, MouseRegion};
use darb::tui::palette::{popup_rect, Command, Palette};

const SEPARATOR_WIDTH: u16 = 3;

fn pt() -> I18n {
    I18n::new(Locale::Pt).expect("locales must parse")
}

fn shell_of(app: &App, area: Rect) -> ShellLayout {
    shell_layout(area, app.explorer_visible, app.context_visible, app.bottom_open)
}

#[test]
fn splits_full_shell() {
    let area = Rect::new(0, 0, 100, 30);
    let layout = shell_layout(area, true, true, true);
    assert_eq!(layout.header.height, 3);
    assert_eq!(layout.tabs.height, 1);
    assert_eq!(layout.statusbar.height, 1);
    assert_eq!(layout.footer.height, 3);
    assert_eq!(layout.terminal.height, TERMINAL_OPEN_HEIGHT);
    assert_eq!(layout.explorer.x, 0);
    assert_eq!(layout.explorer.width + layout.workspace.width + layout.context.width, 100);
    assert_eq!(layout.terminal.x, layout.workspace.x);
    assert_eq!(layout.terminal.width, layout.workspace.width);
    assert_eq!(layout.workspace.height + layout.terminal.height, layout.explorer.height);
    assert_eq!(
        layout.tabs.y,
        layout.workspace.y + layout.workspace.height + layout.terminal.height
    );
    assert_eq!(layout.statusbar.y, layout.tabs.y + layout.tabs.height);
    assert_eq!(layout.footer.y, layout.statusbar.y + layout.statusbar.height);
    assert_eq!(layout.footer.y + layout.footer.height, 30);
}

#[test]
fn closed_terminal_keeps_a_one_line_strip() {
    let area = Rect::new(0, 0, 100, 30);
    let layout = shell_layout(area, true, true, false);
    assert_eq!(layout.terminal.height, TERMINAL_CLOSED_HEIGHT);
    assert_eq!(layout.terminal.x, layout.workspace.x);
    assert_eq!(layout.terminal.width, layout.workspace.width);
}

#[test]
fn hidden_panels_give_full_width() {
    let area = Rect::new(0, 0, 100, 30);
    let both_hidden = shell_layout(area, false, false, true);
    assert_eq!(both_hidden.explorer.width, 0);
    assert_eq!(both_hidden.context.width, 0);
    assert_eq!(both_hidden.workspace.width, 100);
    let no_explorer = shell_layout(area, false, true, true);
    assert_eq!(no_explorer.explorer.width, 0);
    assert_eq!(no_explorer.workspace.width + no_explorer.context.width, 100);
    let no_context = shell_layout(area, true, false, true);
    assert_eq!(no_context.context.width, 0);
    assert_eq!(no_context.explorer.width + no_context.workspace.width, 100);
}

#[test]
fn dialog_is_centered_and_clamped() {
    let area = Rect::new(0, 0, 100, 30);
    let popup = centered_rect(area, 60, 10);
    assert_eq!(popup, Rect::new(20, 10, 60, 10));
    assert_eq!(centered_rect(area, 200, 100), area);
}

#[test]
fn rect_new_keeps_edges_in_range() {
    let r = Rect::new(65530, 10, 100, 5);
    assert_eq!(r.width, 5);
    assert_eq!(r.height, 5);
    assert!(r.holds(65534, 12));
    assert!(!r.holds(65535, 12));
    assert!(!Rect::zero().holds(0, 0));
}

#[test]
fn popup_has_at_least_six_rows_and_64_columns() {
    let area = Rect::new(0, 0, 110, 34);
    assert_eq!(popup_rect(area, 13), Rect::new(23, 8, 64, 18));
    assert_eq!(popup_rect(area, 0), Rect::new(23, 14, 64, 6));
    let small = Rect::new(0, 0, 40, 4);
    assert_eq!(popup_rect(small, 13), Rect::new(0, 0, 40, 4));
}

#[test]
fn tab_label_widths_match_the_drawn_tab_bar() {
    let i18n = pt();
    let expected: u16 =
        Tab::all().iter().map(|tab| i18n.text(tab.title_key()).chars().count() as u16).sum();
    let mapped: u16 = Tab::all().iter().map(|tab| tab_label_width(*tab, &i18n)).sum();
    assert_eq!(mapped, expected);
    assert!(mapped > 0);
}

#[test]
fn click_on_each_tab_selects_it() {
    let i18n = pt();
    let area = Rect::new(0, 0, 110, 34);
    let mut app = App::new();
    let layout = shell_of(&app, area);
    let mut cursor = layout.tabs.x;
    for tab in Tab::all() {
        let click = Click { x: cursor, y: layout.tabs.y };
        let outcome = click_outcome(&mut app, click, area, &i18n);
        assert!(matches!(outcome, KeyOutcome::Ignored));
        assert_eq!(app.tab, tab, "clicked at x={}", click.x);
        assert_eq!(app.focus, Focus::Workspace);
        cursor += tab_label_width(tab, &i18n) + SEPARATOR_WIDTH;
    }
}

#[test]
fn click_on_separator_selects_nothing() {
    let i18n = pt();
    let area = Rect::new(0, 0, 110, 34);
    let mut app = App::new();
    let layout = shell_of(&app, area);
    let first_width = tab_label_width(Tab::Chat, &i18n);
    let click = Click { x: layout.tabs.x + first_width + 1, y: layout.tabs.y };
    let before = app.tab;
    assert!(matches!(click_outcome(&mut app, click, area, &i18n), KeyOutcome::Ignored));
    assert_eq!(app.tab, before);
}

#[test]
fn click_on_explorer_entry_opens_it() {
    let i18n = pt();
    let area = Rect::new(0, 0, 110, 34);
    let mut app = App::new();
    app.set_current_dir("crates".to_string());
    app.set_files(vec![
        FileEntry { name: "core".to_string(), is_dir: true },
        FileEntry { name: "lib.rs".to_string(), is_dir: false },
    ]);
    let layout = shell_of(&app, area);
    let click = Click { x: layout.explorer.x + 2, y: layout.explorer.y + 2 };
    let outcome = click_outcome(&mut app, click, area, &i18n);
    assert_eq!(app.focus, Focus::Explorer);
    assert_eq!(app.explorer_index, 1);
    assert_eq!(outcome, KeyOutcome::OpenEntry { path: "crates/core".to_string(), is_dir: true });
}

#[test]
fn click_below_last_entry_does_not_open() {
    let i18n = pt();
    let area = Rect::new(0, 0, 110, 34);
    let mut app = App::new();
    app.set_files(vec![FileEntry { name: "a.txt".to_string(), is_dir: false }]);
    let layout = shell_of(&app, area);
    let click = Click { x: layout.explorer.x + 1, y: layout.explorer.y + 3 };
    let outcome = click_outcome(&mut app, click, area, &i18n);
    assert!(matches!(outcome, KeyOutcome::Ignored));
    assert_eq!(app.explorer_index, 0, "selection must not move past the list");
}

#[test]
fn click_footer_focuses_input_click_workspace_focuses_workspace() {
    let i18n = pt();
    let area = Rect::new(0, 0, 110, 34);
    let mut app = App::new();
    let layout = shell_of(&app, area);
    assert!(matches!(
        click_outcome(
            &mut app,
            Click { x: layout.footer.x + 2, y: layout.footer.y + 1 },
            area,
            &i18n
        ),
        KeyOutcome::Ignored
    ));
    assert_eq!(app.focus, Focus::Input);
    assert!(matches!(
        click_outcome(
            &mut app,
            Click { x: layout.workspace.x + 2, y: layout.workspace.y + 1 },
            area,
            &i18n
        ),
        KeyOutcome::Ignored
    ));
    assert_eq!(app.focus, Focus::Workspace);
}

#[test]
fn header_and_context_clicks_do_not_steal_focus() {
    let i18n = pt();
    let area = Rect::new(0, 0, 110, 34);
    let mut app = App::new();
    app.focus = Focus::Input;
    let layout = shell_of(&app, area);
    let _ = click_outcome(
        &mut app,
        Click { x: layout.header.x + 3, y: layout.header.y + 1 },
        area,
        &i18n,
    );
    assert_eq!(app.focus, Focus::Input);
    let _ = click_outcome(
        &mut app,
        Click { x: layout.context.x + 2, y: layout.context.y + 1 },
        area,
        &i18n,
    );
    assert_eq!(app.focus, Focus::Input);
}

#[test]
fn region_detection_respects_hidden_explorer() {
    let area = Rect::new(0, 0, 110, 34);
    let mut app = App::new();
    app.explorer_visible = false;
    let click = Click { x: 2, y: 10 };
    assert_eq!(click.region(&app, area), MouseRegion::Workspace);
}

#[test]
fn region_detection_respects_hidden_context() {
    let area = Rect::new(0, 0, 110, 34);
    let mut app = App::new();
    app.context_visible = false;
    let click = Click { x: 105, y: 10 };
    assert_eq!(click.region(&app, area), MouseRegion::Workspace);
}

#[test]
fn click_on_terminal_focuses_workspace() {
    let i18n = pt();
    let area = Rect::new(0, 0, 110, 34);
    let mut app = App::new();
    app.focus = Focus::Input;
    let layout = shell_of(&app, area);
    let outcome = click_outcome(
        &mut app,
        Click { x: layout.terminal.x + 2, y: layout.terminal.y + 1 },
        area,
        &i18n,
    );
    assert!(matches!(outcome, KeyOutcome::Ignored));
    assert_eq!(app.focus, Focus::Workspace);
}

#[test]
fn statusbar_click_is_detected_and_ignored() {
    let i18n = pt();
    let area = Rect::new(0, 0, 110, 34);
    let mut app = App::new();
    app.focus = Focus::Explorer;
    let layout = shell_of(&app, area);
    let click = Click { x: layout.statusbar.x + 2, y: layout.statusbar.y };
    assert_eq!(click.region(&app, area), MouseRegion::StatusBar);
    let _ = click_outcome(&mut app, click, area, &i18n);
    assert_eq!(app.focus, Focus::Explorer);
}

#[test]
fn click_on_task_row_moves_cursor_and_expands() {
    let i18n = pt();
    let area = Rect::new(0, 0, 110, 34);
    let mut app = App::new();
    app.apply_event(&DarbEvent::AgentStarted { task: "fix login".to_string() }, &i18n);
    for target in ["a.rs", "b.rs"] {
        app.apply_event(
            &DarbEvent::ToolRequested { tool: "read_file".to_string(), target: target.to_string() },
            &i18n,
        );
    }
    app.set_tab(Tab::Tasks);
    let layout = shell_of(&app, area);
    let outcome = click_outcome(
        &mut app,
        Click { x: layout.workspace.x + 2, y: layout.workspace.y + 2 },
        area,
        &i18n,
    );
    assert!(matches!(outcome, KeyOutcome::Ignored));
    assert_eq!(app.focus, Focus::Workspace);
    assert_eq!(app.tasks_index, 1);
    assert!(app.tasks[1].expanded);
    assert!(!app.tasks[0].expanded);
    assert!(matches!(app.tasks[1].state, TaskState::Pending));
}

#[test]
fn task_row_is_none_outside_the_tasks_tab() {
    let area = Rect::new(0, 0, 110, 34);
    let app = App::new();
    assert_eq!(app.tab, Tab::Chat);
    let layout = shell_of(&app, area);
    let click = Click { x: layout.workspace.x + 2, y: layout.workspace.y + 1 };
    assert_eq!(click.task_row(&app, area), None);
}

#[test]
fn explorer_row_counts_from_below_the_title() {
    let area = Rect::new(0, 0, 110, 34);
    let app = App::new();
    let layout = shell_of(&app, area);
    let on_title = Click { x: layout.explorer.x + 1, y: layout.explorer.y };
    assert_eq!(on_title.explorer_row(&app, area), None);
    let first = Click { x: layout.explorer.x + 1, y: layout.explorer.y + 1 };
    assert_eq!(first.explorer_row(&app, area), Some(0));
    let outside = Click { x: layout.workspace.x + 1, y: layout.workspace.y + 1 };
    assert_eq!(outside.explorer_row(&app, area), None);
}

#[test]
fn palette_click_runs_the_listed_command() {
    let i18n = pt();
    let area = Rect::new(0, 0, 110, 34);
    let mut app = App::new();
    app.palette = Some(Palette::new());
    let count = Palette::new().filtered(&i18n).len();
    let popup = popup_rect(area, count);
    let outcome = app.handle_mouse(
        MouseInput::LeftUp { column: popup.x + 2, row: popup.y + 3 },
        area,
        &i18n,
    );
    assert_eq!(outcome, KeyOutcome::Command(Command::OpenTab(Tab::Chat)));
    assert!(app.palette.is_none());
}

#[test]
fn palette_click_on_the_query_row_does_nothing() {
    let i18n = pt();
    let area = Rect::new(0, 0, 110, 34);
    let mut app = App::new();
    app.palette = Some(Palette::new());
    let count = Palette::new().filtered(&i18n).len();
    let popup = popup_rect(area, count);
    let outcome = app.handle_mouse(
        MouseInput::LeftUp { column: popup.x + 2, row: popup.y + 1 },
        area,
        &i18n,
    );
    assert_eq!(outcome, KeyOutcome::Ignored);
    assert!(app.palette.is_some());
}

#[test]
fn palette_click_outside_closes_it() {
    let i18n = pt();
    let area = Rect::new(0, 0, 110, 34);
    let mut app = App::new();
    app.palette = Some(Palette::new());
    let outcome = app.handle_mouse(MouseInput::LeftUp { column: 0, row: 0 }, area, &i18n);
    assert_eq!(outcome, KeyOutcome::Ignored);
    assert!(app.palette.is_none());
}

#[test]
fn clicks_never_answer_a_permission_question() {
    let i18n = pt();
    let area = Rect::new(0, 0, 110, 34);
    let mut app = App::new();
    app.ask_permission("shell", "rm -rf /tmp/x");
    let layout = shell_of(&app, area);
    let outcome = app.handle_mouse(
        MouseInput::LeftUp { column: layout.footer.x + 2, row: layout.footer.y + 1 },
        area,
        &i18n,
    );
    assert_eq!(outcome, KeyOutcome::Ignored);
    assert!(app.permission.is_some());
    assert_eq!(app.focus, App::new().focus);
}

#[test]
fn wheel_moves_the_explorer_highlight() {
    let i18n = pt();
    let area = Rect::new(0, 0, 110, 34);
    let mut app = App::new();
    app.set_files(vec![
        FileEntry { name: "a".to_string(), is_dir: false },
        FileEntry { name: "b".to_string(), is_dir: false },
    ]);
    app.focus = Focus::Explorer;
    assert_eq!(app.handle_mouse(MouseInput::ScrollDown, area, &i18n), KeyOutcome::Ignored);
    assert_eq!(app.explorer_index, 1);
    app.handle_mouse(MouseInput::ScrollDown, area, &i18n);
    assert_eq!(app.explorer_index, 1);
    app.handle_mouse(MouseInput::ScrollUp, area, &i18n);
    assert_eq!(app.explorer_index, 0);
    assert_eq!(app.handle_mouse(MouseInput::Other, area, &i18n), KeyOutcome::Ignored);
    assert_eq!(app.explorer_index, 0);
}

#[test]
fn shell_regions_come_in_order_inside_the_area() {
    let area = Rect::new(2, 1, 100, 30);
    let l = shell_layout(area, true, true, true);
    assert!(l.header.y >= area.y);
    assert!(l.header.y + l.header.height <= l.workspace.y);
    assert!(l.workspace.y + l.workspace.height <= l.terminal.y);
    assert!(l.terminal.y + l.terminal.height <= l.tabs.y);
    assert!(l.tabs.y + l.tabs.height <= l.statusbar.y);
    assert!(l.statusbar.y + l.statusbar.height <= l.footer.y);
    assert!(l.footer.y + l.footer.height <= area.y + area.height);
    assert!(l.explorer.x >= area.x);
    assert!(l.explorer.x + l.explorer.width <= l.workspace.x);
    assert!(l.workspace.x + l.workspace.width <= l.context.x);
    assert!(l.context.x + l.context.width <= area.x + area.width);
}
