//! Key presses and what they mean: the pure key-to-action mapping, and
//! how the model answers a key.
use vstd::prelude::*;

use crate::i18n::I18n;
use crate::text::{chars_of, concat, string_of, trim_chars, CharClass};
use crate::tui::app::{next_focus, next_mode, App, Focus, KeyOutcome, Tab};
use crate::tui::palette::{Command, Palette};

verus! {

/// The key of a key press.
#[derive(Debug, Clone, Copy, PartialEq, Eq, Structural)]
pub enum KeyCode {
    Char(char),
    Enter,
    Esc,
    Tab,
    Backspace,
    Up,
    Down,
    Left,
    Right,
    /// Any other key.
    Other,
}

/// A key press: the key, whether Ctrl was held, and whether any modifier
/// at all was held.
#[derive(Debug, Clone, Copy, PartialEq, Eq, Structural)]
pub struct KeyPress {
    pub code: KeyCode,
    pub control: bool,
    pub modified: bool,
}

/// What a key press means.
#[derive(Debug, Clone, Copy, PartialEq, Eq, Structural)]
pub enum Action {
    Quit,
    Submit,
    CancelRequested,
    FocusNext,
    ScrollUp,
    ScrollDown,
    ToggleExplorer,
    ToggleTerminal,
    ToggleContext,
    ToggleEdit,
    CycleMode,
    CommandPalette,
    ShowTab(Tab),
    PermissionAllow,
    PermissionDeny,
    Ignore,
}

/// Whether `c` is the letter `lower` in either case.
pub open spec fn is_letter(c: char, lower: char, upper: char) -> bool {
    c == lower || c == upper
}

/// The meaning of a key press: Ctrl combinations first, then unmodified
/// special keys; characters are text, not actions (only `a`/`d` carry a
/// meaning, to answer a permission question).
pub open spec fn action_spec(key: KeyPress) -> Action {
    if key.control {
        match key.code {
            KeyCode::Char(c) => if is_letter(c, 'c', 'C') {
                Action::CancelRequested
            } else if is_letter(c, 'b', 'B') {
                Action::ToggleExplorer
            } else if is_letter(c, 'k', 'K') {
                Action::CommandPalette
            } else if is_letter(c, 'j', 'J') {
                Action::ToggleTerminal
            } else if is_letter(c, 'l', 'L') {
                Action::ToggleContext
            } else if is_letter(c, 'o', 'O') {
                Action::CycleMode
            } else if is_letter(c, 'e', 'E') {
                Action::ToggleEdit
            } else if is_letter(c, 'p', 'P') {
                Action::ShowTab(Tab::Files)
            } else if is_letter(c, 'g', 'G') {
                Action::ShowTab(Tab::Git)
            } else if is_letter(c, 't', 'T') {
                Action::ShowTab(Tab::Terminal)
            } else {
                Action::Ignore
            },
            _ => Action::Ignore,
        }
    } else if key.modified {
        Action::Ignore
    } else {
        match key.code {
            KeyCode::Esc => Action::Quit,
            KeyCode::Enter => Action::Submit,
            KeyCode::Tab => Action::FocusNext,
            KeyCode::Up => Action::ScrollUp,
            KeyCode::Down => Action::ScrollDown,
            KeyCode::Char(c) => if is_letter(c, 'a', 'A') {
                Action::PermissionAllow
            } else if is_letter(c, 'd', 'D') {
                Action::PermissionDeny
            } else {
                Action::Ignore
            },
            _ => Action::Ignore,
        }
    }
}

/// Map a key press to its action.
pub fn action_for(key: KeyPress) -> (a: Action)
    ensures
        a == action_spec(key),
{
    if key.control {
        return match key.code {
            KeyCode::Char(c) => if c == 'c' || c == 'C' {
                Action::CancelRequested
            } else if c == 'b' || c == 'B' {
                Action::ToggleExplorer
            } else if c == 'k' || c == 'K' {
                Action::CommandPalette
            } else if c == 'j' || c == 'J' {
                Action::ToggleTerminal
            } else if c == 'l' || c == 'L' {
                Action::ToggleContext
            } else if c == 'o' || c == 'O' {
                Action::CycleMode
            } else if c == 'e' || c == 'E' {
                Action::ToggleEdit
            } else if c == 'p' || c == 'P' {
                Action::ShowTab(Tab::Files)
            } else if c == 'g' || c == 'G' {
                Action::ShowTab(Tab::Git)
            } else if c == 't' || c == 'T' {
                Action::ShowTab(Tab::Terminal)
            } else {
                Action::Ignore
            },
            _ => Action::Ignore,
        };
    }
    if key.modified {
        return Action::Ignore;
    }
    match key.code {
        KeyCode::Esc => Action::Quit,
        KeyCode::Enter => Action::Submit,
        KeyCode::Tab => Action::FocusNext,
        KeyCode::Up => Action::ScrollUp,
        KeyCode::Down => Action::ScrollDown,
        KeyCode::Char(c) => if c == 'a' || c == 'A' {
            Action::PermissionAllow
        } else if c == 'd' || c == 'D' {
            Action::PermissionDeny
        } else {
            Action::Ignore
        },
        _ => Action::Ignore,
    }
}

/// Only Ctrl+C cancels; Esc is the one unmodified key that quits, and a
/// plain character never quits or cancels.
pub proof fn law_plain_characters_never_quit_or_cancel(c: char)
    ensures
        action_spec(KeyPress { code: KeyCode::Char(c), control: false, modified: false })
            != Action::Quit,
        action_spec(KeyPress { code: KeyCode::Char(c), control: false, modified: false })
            != Action::CancelRequested,
        action_spec(KeyPress { code: KeyCode::Esc, control: false, modified: false }) == Action::Quit,
{
}

/// `dir/name` (or `name` at the project root).
pub open spec fn joined_path(dir: Seq<char>, name: Seq<char>) -> Seq<char> {
    if dir.len() == 0 {
        name
    } else {
        dir + seq!['/'] + name
    }
}

impl App {
    /// The tasks list drives Up/Down/Enter: the workspace has the focus
    /// on the Tasks tab and there are steps.
    pub open spec fn tasks_focused_spec(&self) -> bool {
        self.focus == Focus::Workspace && self.tab == Tab::Tasks && self.tasks@.len() > 0
    }

    /// Effect of Up: the explorer highlight or the tasks cursor moves up,
    /// otherwise the panel scrolls back by one.
    pub open spec fn up_move(old: App, new: App) -> bool {
        if old.focus == Focus::Explorer {
            new == (App { explorer_index: if old.explorer_index > 0 { (old.explorer_index - 1) as usize } else { 0 }, ..old })
        } else if old.tasks_focused_spec() {
            new == (App { tasks_index: if old.tasks_index > 0 { (old.tasks_index - 1) as usize } else { 0 }, ..old })
        } else {
            new == (App { scroll: if old.scroll < u16::MAX { (old.scroll + 1) as u16 } else { u16::MAX }, ..old })
        }
    }

    /// Effect of Down: the explorer highlight or the tasks cursor moves
    /// down, stopping on the last row, otherwise the panel scrolls forward.
    pub open spec fn down_move(old: App, new: App) -> bool {
        if old.focus == Focus::Explorer {
            let last: int = if old.rows_spec() > 0 { old.rows_spec() - 1 } else { 0 };
            new == (App { explorer_index: if old.explorer_index + 1 <= last { (old.explorer_index + 1) as usize } else { last as usize }, ..old })
        } else if old.tasks_focused_spec() {
            let last: int = old.tasks@.len() - 1;
            new == (App { tasks_index: if old.tasks_index + 1 <= last { (old.tasks_index + 1) as usize } else { last as usize }, ..old })
        } else {
            new == (App { scroll: if old.scroll > 0 { (old.scroll - 1) as u16 } else { 0 }, ..old })
        }
    }

    pub(crate) fn move_up(&mut self)
        ensures
            Self::up_move(*old(self), *final(self)),
    {
        if self.focus == Focus::Explorer {
            if self.explorer_index > 0 {
                self.explorer_index = self.explorer_index - 1;
            }
        } else if self.tasks_focused() {
            if self.tasks_index > 0 {
                self.tasks_index = self.tasks_index - 1;
            }
        } else if self.scroll < u16::MAX {
            self.scroll = self.scroll + 1;
        }
    }

    pub(crate) fn move_down(&mut self)
        ensures
            Self::down_move(*old(self), *final(self)),
    {
        if self.focus == Focus::Explorer {
            let rows: u128 = self.files.len() as u128 + if self.has_parent_entry() {
                1
            } else {
                0
            };
            let last: u128 = if rows > 0 {
                rows - 1
            } else {
                0
            };
            if (self.explorer_index as u128) < last {
                self.explorer_index = self.explorer_index + 1;
            } else {
                self.explorer_index = last as usize;
            }
        } else if self.tasks_focused() {
            let last = self.tasks.len() - 1;
            if self.tasks_index < last {
                self.tasks_index = self.tasks_index + 1;
            } else {
                self.tasks_index = last;
            }
        } else if self.scroll > 0 {
            self.scroll = self.scroll - 1;
        }
    }

    fn tasks_focused(&self) -> (b: bool)
        ensures
            b == self.tasks_focused_spec(),
    {
        self.focus == Focus::Workspace && self.tab == Tab::Tasks && self.tasks.len() > 0
    }

    /// Effect of toggling the step under the tasks cursor: the cursor is
    /// clamped to the last step and that step's detail row flips.
    pub open spec fn task_toggled(old: App, new: App) -> bool {
        if old.tasks@.len() == 0 {
            new == old
        } else {
            let i: int = if old.tasks_index < old.tasks@.len() { old.tasks_index as int } else { old.tasks@.len() - 1 };
            let t = old.tasks@[i];
            &&& new == (App { tasks_index: i as usize, tasks: new.tasks, ..old })
            &&& new.tasks@ == old.tasks@.update(i, crate::tui::app::TaskItem { expanded: !t.expanded, ..t })
        }
    }

    /// Expand or fold the step under the tasks cursor.
    pub fn toggle_task(&mut self) -> (r: KeyOutcome)
        ensures
            r == KeyOutcome::Ignored,
            Self::task_toggled(*old(self), *final(self)),
    {
        if self.tasks.len() == 0 {
            return KeyOutcome::Ignored;
        }
        if self.tasks_index >= self.tasks.len() {
            self.tasks_index = self.tasks.len() - 1;
        }
        let i = self.tasks_index;
        let t = &self.tasks[i];
        let flipped = crate::tui::app::TaskItem {
            tool: t.tool.clone(),
            target: t.target.clone(),
            state: t.state,
            expanded: !t.expanded,
        };
        self.tasks.set(i, flipped);
        KeyOutcome::Ignored
    }

    /// Outcome of opening explorer row `row`: `..` goes up, an entry opens
    /// with its project-relative path, a row past the end does nothing.
    pub open spec fn explorer_outcome(&self, row: int, out: KeyOutcome) -> bool {
        let parent = self.current_dir@.len() > 0;
        if parent && row == 0 {
            out == KeyOutcome::GoUp
        } else {
            let index = if parent { row - 1 } else { row };
            if 0 <= index < self.files@.len() {
                out matches KeyOutcome::OpenEntry { path, is_dir } && path@ == joined_path(
                    self.current_dir@,
                    self.files@[index].name@,
                ) && is_dir == self.files@[index].is_dir
            } else {
                out == KeyOutcome::Ignored
            }
        }
    }

    /// Open explorer row `row` (same indexing as the highlight).
    pub fn enter_explorer_at(&self, row: usize) -> (r: KeyOutcome)
        ensures
            self.explorer_outcome(row as int, r),
    {
        let parent = self.has_parent_entry();
        if parent && row == 0 {
            return KeyOutcome::GoUp;
        }
        let index = if parent {
            row - 1
        } else {
            row
        };
        if index < self.files.len() {
            let entry = &self.files[index];
            let path = if parent {
                let dir = concat(self.current_dir.as_str(), "/");
                proof {
                    reveal_strlit("/");
                }
                concat(dir.as_str(), entry.name.as_str())
            } else {
                entry.name.clone()
            };
            proof {
                reveal_strlit("/");
                assert(path@ =~= joined_path(self.current_dir@, self.files@[index as int].name@));
            }
            KeyOutcome::OpenEntry { path, is_dir: entry.is_dir }
        } else {
            KeyOutcome::Ignored
        }
    }

    /// Effect of Enter outside overlays: open the highlighted explorer
    /// row, toggle the step under the tasks cursor, or take the command
    /// line (a blank line is dropped) as a terminal command on the
    /// Terminal tab and as a chat message elsewhere.
    pub open spec fn submit_effect(old: App, new: App, out: KeyOutcome) -> bool {
        if old.focus == Focus::Explorer {
            new == old && old.explorer_outcome(old.explorer_index as int, out)
        } else if old.focus == Focus::Workspace && old.tab == Tab::Tasks {
            out == KeyOutcome::Ignored && Self::task_toggled(old, new)
        } else {
            &&& new == (App { input: new.input, ..old })
            &&& new.input@.len() == 0
            &&& if crate::text::trim(old.input@).len() == 0 {
                out == KeyOutcome::Ignored
            } else if old.focus == Focus::Workspace && old.tab == Tab::Terminal {
                out == KeyOutcome::TerminalCommand(old.input)
            } else {
                out == KeyOutcome::Submitted(old.input)
            }
        }
    }

    fn submit(&mut self) -> (r: KeyOutcome)
        ensures
            Self::submit_effect(*old(self), *final(self), r),
    {
        if self.focus == Focus::Explorer {
            return self.enter_explorer_at(self.explorer_index);
        }
        if self.focus == Focus::Workspace && self.tab == Tab::Tasks {
            return self.toggle_task();
        }
        let line = self.input.clone();
        self.input = String::new();
        let v = chars_of(line.as_str());
        let t = trim_chars(&v, CharClass::Whitespace);
        if t.len() == 0 {
            KeyOutcome::Ignored
        } else if self.focus == Focus::Workspace && self.tab == Tab::Terminal {
            KeyOutcome::TerminalCommand(line)
        } else {
            KeyOutcome::Submitted(line)
        }
    }

    /// Effect of typing outside overlays: a character goes to the command
    /// line, Backspace erases its last character, other keys do nothing.
    pub open spec fn typed(old: App, new: App, key: KeyPress) -> bool {
        match key.code {
            KeyCode::Char(c) => new == (App { input: new.input, ..old }) && new.input@ == old.input@.push(c),
            KeyCode::Backspace => new == (App { input: new.input, ..old }) && new.input@ == (if old.input@.len() > 0 {
                old.input@.drop_last()
            } else {
                old.input@
            }),
            _ => new == old,
        }
    }

    fn type_key(&mut self, key: KeyPress)
        ensures
            Self::typed(*old(self), *final(self), key),
    {
        match key.code {
            KeyCode::Char(c) => crate::text::push_char(&mut self.input, c),
            KeyCode::Backspace => {
                let v = chars_of(self.input.as_str());
                if v.len() > 0 {
                    let kept = crate::text::slice_to_vec(&v, 0, v.len() - 1);
                    self.input = string_of(&kept);
                }
            },
            _ => {},
        }
    }

    /// Effect of a key on the permission question: `a` allows, `d` or Esc
    /// deny (an unanswered question must not run anything), other keys
    /// are swallowed.
    pub open spec fn permission_effect(old: App, new: App, key: KeyPress, out: KeyOutcome) -> bool {
        match key.code {
            KeyCode::Char(c) => if is_letter(c, 'a', 'A') {
                new == (App { permission: None, ..old }) && out == KeyOutcome::PermissionAnswer(true)
            } else if is_letter(c, 'd', 'D') {
                new == (App { permission: None, ..old }) && out == KeyOutcome::PermissionAnswer(false)
            } else {
                new == old && out == KeyOutcome::Ignored
            },
            KeyCode::Esc => new == (App { permission: None, ..old }) && out == KeyOutcome::PermissionAnswer(false),
            _ => new == old && out == KeyOutcome::Ignored,
        }
    }

    fn handle_permission_key(&mut self, key: KeyPress) -> (r: KeyOutcome)
        ensures
            Self::permission_effect(*old(self), *final(self), key, r),
    {
        match key.code {
            KeyCode::Char(c) => if c == 'a' || c == 'A' {
                self.permission = None;
                KeyOutcome::PermissionAnswer(true)
            } else if c == 'd' || c == 'D' {
                self.permission = None;
                KeyOutcome::PermissionAnswer(false)
            } else {
                KeyOutcome::Ignored
            },
            KeyCode::Esc => {
                self.permission = None;
                KeyOutcome::PermissionAnswer(false)
            },
            _ => KeyOutcome::Ignored,
        }
    }

    /// Effect of a key on the open palette: Esc closes it, Enter closes it
    /// and runs the highlighted command, Up/Down move the highlight,
    /// Backspace and characters edit the query.
    pub open spec fn palette_effect(old: App, new: App, key: KeyPress, out: KeyOutcome, i18n: I18n) -> bool {
        let p = old.palette->Some_0;
        match key.code {
            KeyCode::Esc => new == (App { palette: None, ..old }) && out == KeyOutcome::Ignored,
            KeyCode::Enter => new == (App { palette: None, ..old }) && out == (match p.selected_spec(i18n) {
                Some(c) => KeyOutcome::Command(c),
                None => KeyOutcome::Ignored,
            }),
            KeyCode::Up | KeyCode::Down => {
                let d: int = if key.code == KeyCode::Up { -1 } else { 1 };
                let n = p.shown(i18n).len();
                &&& out == KeyOutcome::Ignored
                &&& new == (App { palette: new.palette, ..old })
                &&& new.palette matches Some(q) && q.query == p.query && q.index == (if n == 0 { 0 } else { (p.index + d) % (n as int) })
            },
            KeyCode::Backspace => {
                &&& out == KeyOutcome::Ignored
                &&& new == (App { palette: new.palette, ..old })
                &&& new.palette matches Some(q) && q.index == 0 && q.query@ == (if p.query@.len() > 0 { p.query@.drop_last() } else { p.query@ })
            },
            KeyCode::Char(c) => {
                &&& out == KeyOutcome::Ignored
                &&& new == (App { palette: new.palette, ..old })
                &&& new.palette matches Some(q) && q.index == 0 && q.query@ == p.query@.push(c)
            },
            _ => new == old && out == KeyOutcome::Ignored,
        }
    }

    fn handle_palette_key(&mut self, key: KeyPress, i18n: &I18n) -> (r: KeyOutcome)
        requires
            old(self).palette matches Some(p) && p.index < i32::MAX,
        ensures
            Self::palette_effect(*old(self), *final(self), key, r, *i18n),
    {
        let mut p = match &self.palette {
            Some(p) => Palette { query: p.query.clone(), index: p.index },
            None => {
                return KeyOutcome::Ignored;
            },
        };
        match key.code {
            KeyCode::Esc => {
                self.palette = None;
                KeyOutcome::Ignored
            },
            KeyCode::Enter => {
                let selected = p.selected(i18n);
                self.palette = None;
                match selected {
                    Some(command) => KeyOutcome::Command(command),
                    None => KeyOutcome::Ignored,
                }
            },
            KeyCode::Up => {
                p.move_selection(-1, i18n);
                self.palette = Some(p);
                KeyOutcome::Ignored
            },
            KeyCode::Down => {
                p.move_selection(1, i18n);
                self.palette = Some(p);
                KeyOutcome::Ignored
            },
            KeyCode::Backspace => {
                p.pop_char();
                self.palette = Some(p);
                KeyOutcome::Ignored
            },
            KeyCode::Char(c) => {
                p.push_char(c);
                self.palette = Some(p);
                KeyOutcome::Ignored
            },
            _ => KeyOutcome::Ignored,
        }
    }

    /// Effect of a key while the edit buffer owns the keyboard. Ctrl+S
    /// asks for the save (if there is one), Ctrl+E and Esc leave edit
    /// mode, Ctrl+C cancels; unmodified keys edit the buffer or move the
    /// cursor (Tab types two spaces); everything else is swallowed.
    pub open spec fn edit_key_effect(old: App, new: App, key: KeyPress, out: KeyOutcome) -> bool {
        if key.control {
            match key.code {
                KeyCode::Char(c) => if is_letter(c, 's', 'S') {
                    new == old && (if old.editing && old.edit_dirty && old.file_preview is Some {
                        out matches KeyOutcome::SaveFile { path, original, content } && path
                            == old.file_preview->Some_0.path && original == old.edit_origin
                            && content@ == old.saved_text()
                    } else {
                        out == KeyOutcome::Ignored
                    })
                } else if is_letter(c, 'e', 'E') {
                    new == (App { editing: false, ..old }) && out == KeyOutcome::Ignored
                } else if is_letter(c, 'c', 'C') {
                    new == old && out == KeyOutcome::CancelRequested
                } else {
                    new == old && out == KeyOutcome::Ignored
                },
                _ => new == old && out == KeyOutcome::Ignored,
            }
        } else if key.modified {
            new == old && out == KeyOutcome::Ignored
        } else {
            &&& out == KeyOutcome::Ignored
            &&& match key.code {
                KeyCode::Esc => new == (App { editing: false, ..old }),
                KeyCode::Enter => Self::newline_effect(old, new),
                KeyCode::Backspace => Self::backspace_effect(old, new),
                KeyCode::Left => Self::left_effect(old, new),
                KeyCode::Right => Self::right_effect(old, new),
                KeyCode::Up => Self::up_effect(old, new),
                KeyCode::Down => Self::down_effect(old, new),
                KeyCode::Char(c) => Self::insert_effect(old, new, c),
                KeyCode::Tab => exists|mid: App| Self::insert_effect(old, mid, ' ') && #[trigger] Self::insert_effect(mid, new, ' '),
                _ => new == old,
            }
        }
    }

    fn handle_edit_key(&mut self, key: KeyPress) -> (r: KeyOutcome)
        requires
            old(self).edit_wf(),
        ensures
            Self::edit_key_effect(*old(self), *final(self), key, r),
            final(self).edit_wf(),
    {
        if key.control {
            return match key.code {
                KeyCode::Char(c) => if c == 's' || c == 'S' {
                    match self.take_save() {
                        Some((path, original, content)) => KeyOutcome::SaveFile { path, original, content },
                        None => KeyOutcome::Ignored,
                    }
                } else if c == 'e' || c == 'E' {
                    self.editing = false;
                    KeyOutcome::Ignored
                } else if c == 'c' || c == 'C' {
                    KeyOutcome::CancelRequested
                } else {
                    KeyOutcome::Ignored
                },
                _ => KeyOutcome::Ignored,
            };
        }
        if key.modified {
            return KeyOutcome::Ignored;
        }
        match key.code {
            KeyCode::Esc => {
                self.editing = false;
            },
            KeyCode::Enter => self.edit_newline(),
            KeyCode::Backspace => self.edit_backspace(),
            KeyCode::Left => self.edit_left(),
            KeyCode::Right => self.edit_right(),
            KeyCode::Up => self.edit_up(),
            KeyCode::Down => self.edit_down(),
            KeyCode::Char(c) => self.edit_insert(c),
            KeyCode::Tab => {
                self.edit_insert(' ');
                let ghost mid = *self;
                self.edit_insert(' ');
                proof {
                    assert(Self::insert_effect(mid, *self, ' '));
                }
            },
            _ => {},
        }
        KeyOutcome::Ignored
    }

    /// Effect of a key outside overlays and edit mode, by its action.
    pub open spec fn action_effect(old: App, new: App, key: KeyPress, out: KeyOutcome) -> bool {
        match action_spec(key) {
            Action::Quit => new == old && out == KeyOutcome::Quit,
            Action::CancelRequested => new == old && out == KeyOutcome::CancelRequested,
            Action::CommandPalette => {
                &&& out == KeyOutcome::Ignored
                &&& new == (App { palette: new.palette, ..old })
                &&& new.palette matches Some(p) && p.query@.len() == 0 && p.index == 0
            },
            Action::ToggleExplorer => out == KeyOutcome::Ignored && new == (App { explorer_visible: !old.explorer_visible, ..old }),
            Action::ToggleTerminal => out == KeyOutcome::Ignored && new == (App { bottom_open: !old.bottom_open, ..old }),
            Action::ToggleContext => out == KeyOutcome::Ignored && new == (App { context_visible: !old.context_visible, ..old }),
            Action::CycleMode => out == KeyOutcome::Ignored && new == (App { agent_mode: next_mode(old.agent_mode), ..old }),
            Action::ToggleEdit => out == KeyOutcome::Ignored && new == (App {
                editing: if old.editing { false } else { old.tab == Tab::Files && old.file_preview is Some },
                ..old
            }),
            Action::ShowTab(t) => out == KeyOutcome::Ignored && new == (App { tab: t, scroll: 0, focus: Focus::Workspace, ..old }),
            Action::FocusNext => out == KeyOutcome::Ignored && new == (App { focus: next_focus(old.focus), ..old }),
            Action::ScrollUp => out == KeyOutcome::Ignored && Self::up_move(old, new),
            Action::ScrollDown => out == KeyOutcome::Ignored && Self::down_move(old, new),
            Action::Submit => Self::submit_effect(old, new, out),
            Action::PermissionAllow | Action::PermissionDeny | Action::Ignore => out == KeyOutcome::Ignored && Self::typed(old, new, key),
        }
    }

    /// Effect of a key: the palette gets it first, then the permission
    /// question, then the edit buffer, then the key's action.
    pub open spec fn key_effect(old: App, new: App, key: KeyPress, out: KeyOutcome, i18n: I18n) -> bool {
        if old.palette is Some {
            Self::palette_effect(old, new, key, out, i18n)
        } else if old.permission is Some {
            Self::permission_effect(old, new, key, out)
        } else if old.editing {
            Self::edit_key_effect(old, new, key, out)
        } else {
            Self::action_effect(old, new, key, out)
        }
    }

    /// Handle one key press.
    pub fn handle_key(&mut self, key: KeyPress, i18n: &I18n) -> (r: KeyOutcome)
        requires
            old(self).edit_wf(),
            old(self).palette matches Some(p) ==> p.index < i32::MAX,
        ensures
            Self::key_effect(*old(self), *final(self), key, r, *i18n),
            final(self).edit_wf(),
    {
        if self.palette.is_some() {
            return self.handle_palette_key(key, i18n);
        }
        if self.permission.is_some() {
            return self.handle_permission_key(key);
        }
        if self.editing {
            return self.handle_edit_key(key);
        }
        match action_for(key) {
            Action::Quit => KeyOutcome::Quit,
            Action::CancelRequested => KeyOutcome::CancelRequested,
            Action::CommandPalette => {
                self.palette = Some(Palette::new());
                KeyOutcome::Ignored
            },
            Action::ToggleExplorer => {
                self.toggle_explorer();
                KeyOutcome::Ignored
            },
            Action::ToggleTerminal => {
                self.bottom_open = !self.bottom_open;
                KeyOutcome::Ignored
            },
            Action::ToggleContext => {
                self.context_visible = !self.context_visible;
                KeyOutcome::Ignored
            },
            Action::CycleMode => {
                self.agent_mode = self.agent_mode.next();
                KeyOutcome::Ignored
            },
            Action::ToggleEdit => {
                self.toggle_edit();
                KeyOutcome::Ignored
            },
            Action::ShowTab(tab) => {
                self.set_tab(tab);
                self.focus = Focus::Workspace;
                KeyOutcome::Ignored
            },
            Action::FocusNext => {
                self.focus = self.focus.next();
                KeyOutcome::Ignored
            },
            Action::ScrollUp => {
                self.move_up();
                KeyOutcome::Ignored
            },
            Action::ScrollDown => {
                self.move_down();
                KeyOutcome::Ignored
            },
            Action::Submit => self.submit(),
            Action::PermissionAllow | Action::PermissionDeny | Action::Ignore => {
                self.type_key(key);
                KeyOutcome::Ignored
            },
        }
    }
}

} // verus!
