//! Mouse hit-testing: a click position turned into the same outcome a key
//! would produce. The mapping decides which intent a click means; the
//! application performs it, exactly as for keys.
use vstd::prelude::*;

use crate::i18n::I18n;
use crate::tui::app::{
    rows_before, tab_key, tab_label_width, task_at_row, App, Focus, KeyOutcome, Tab,
    TAB_SEPARATOR_WIDTH,
};
use crate::tui::layout::{is_shell, shell_layout, shell_order, Rect, ShellLayout};
use crate::tui::palette::{catalog, lemma_matching_len, normalized, popup_rect, popup_spec};

verus! {

/// Where the user clicked, in terminal cells.
#[derive(Debug, Clone, Copy, PartialEq, Eq, Structural)]
pub struct Click {
    pub x: u16,
    pub y: u16,
}

/// The shell region a click falls in.
#[derive(Debug, Clone, Copy, PartialEq, Eq, Structural)]
pub enum MouseRegion {
    Explorer,
    Workspace,
    Terminal,
    Context,
    TabBar,
    StatusBar,
    Footer,
    Header,
}

/// A mouse event, as far as the interface reads it.
#[derive(Debug, Clone, Copy, PartialEq, Eq, Structural)]
pub enum MouseInput {
    /// The left button released at a cell.
    LeftUp { column: u16, row: u16 },
    ScrollUp,
    ScrollDown,
    /// Drags, moves and other buttons.
    Other,
}

/// The region under (`x`, `y`): bars first, then the panels; a cell in
/// none of them counts as the header.
pub open spec fn region_at(l: ShellLayout, x: int, y: int) -> MouseRegion {
    if l.header.contains(x, y) {
        MouseRegion::Header
    } else if l.tabs.contains(x, y) {
        MouseRegion::TabBar
    } else if l.statusbar.contains(x, y) {
        MouseRegion::StatusBar
    } else if l.footer.contains(x, y) {
        MouseRegion::Footer
    } else if l.explorer.contains(x, y) {
        MouseRegion::Explorer
    } else if l.terminal.contains(x, y) {
        MouseRegion::Terminal
    } else if l.workspace.contains(x, y) {
        MouseRegion::Workspace
    } else if l.context.contains(x, y) {
        MouseRegion::Context
    } else {
        MouseRegion::Header
    }
}

/// The tabs in tab-bar order.
pub open spec fn tab_order() -> Seq<Tab> {
    seq![Tab::Chat, Tab::Files, Tab::Changes, Tab::Terminal, Tab::Git, Tab::Tasks]
}

/// Drawn width of a tab's label.
pub open spec fn label_width(i18n: I18n, t: Tab) -> int {
    (i18n.resolve(tab_key(t)).len() as u16) as int
}

/// The tab whose label covers column `x`, looking from tab `k` on, whose
/// label starts at column `cursor`; labels are separated by three columns.
pub open spec fn tab_from(i18n: I18n, x: int, cursor: int, k: int) -> Option<Tab>
    decreases 6 - k,
{
    if k < 0 || k >= 6 {
        None
    } else {
        let w = label_width(i18n, tab_order()[k]);
        if cursor <= x < cursor + w {
            Some(tab_order()[k])
        } else {
            tab_from(i18n, x, cursor + w + 3, k + 1)
        }
    }
}

/// The tab under (`x`, `y`) on the tab bar, if any.
pub open spec fn tab_under(l: ShellLayout, i18n: I18n, x: int, y: int) -> Option<Tab> {
    if l.tabs.contains(x, y) {
        tab_from(i18n, x, l.tabs.x as int, 0)
    } else {
        None
    }
}

/// Row under (`x`, `y`) inside a bordered panel: row 0 is the first line
/// below the title.
pub open spec fn inner_row(r: Rect, x: int, y: int) -> Option<int> {
    if r.contains(x, y) && y >= r.y + 1 {
        Some(y - (r.y + 1))
    } else {
        None
    }
}

/// Whether `r` is the step under visual row `row` of the tasks list.
pub open spec fn task_hit(ts: Seq<crate::tui::app::TaskItem>, row: int, r: Option<usize>) -> bool {
    match r {
        Some(i) => i < ts.len() && rows_before(ts, i as int) <= row < rows_before(ts, i + 1),
        None => rows_before(ts, ts.len() as int) <= row,
    }
}

proof fn lemma_rows_before_grow(ts: Seq<crate::tui::app::TaskItem>, a: int, b: int)
    requires
        0 <= a <= b,
    ensures
        rows_before(ts, a) <= rows_before(ts, b),
    decreases b - a,
{
    if a < b {
        lemma_rows_before_grow(ts, a, b - 1);
        if b > ts.len() && b - 1 > ts.len() {
            assert(rows_before(ts, b - 1) == rows_before(ts, ts.len() as int));
        }
    }
}

/// Effect of a left click on the shell (no dialog open): the tab bar
/// selects a tab; the explorer highlights and opens a row; the workspace
/// takes the focus and, on the Tasks tab, moves to and folds the step
/// under the click; the terminal takes the workspace focus; the footer
/// the input focus; the header, status bar and context panel do nothing.
pub open spec fn click_effect(old: App, new: App, click: Click, l: ShellLayout, i18n: I18n, out: KeyOutcome) -> bool {
    let x = click.x as int;
    let y = click.y as int;
    match region_at(l, x, y) {
        MouseRegion::TabBar => match tab_under(l, i18n, x, y) {
            Some(t) => new == (App { tab: t, scroll: 0, focus: Focus::Workspace, ..old }) && out
                == KeyOutcome::Ignored,
            None => new == old && out == KeyOutcome::Ignored,
        },
        MouseRegion::Explorer => match inner_row(l.explorer, x, y) {
            Some(row) => if row >= old.rows_spec() {
                new == old && out == KeyOutcome::Ignored
            } else {
                new == (App { focus: Focus::Explorer, explorer_index: row as usize, ..old })
                    && old.explorer_outcome(row, out)
            },
            None => new == old && out == KeyOutcome::Ignored,
        },
        MouseRegion::Workspace => {
            let focused = App { focus: Focus::Workspace, ..old };
            match inner_row(l.workspace, x, y) {
                Some(row) => if old.tab == Tab::Tasks && row < rows_before(
                    old.tasks@,
                    old.tasks@.len() as int,
                ) {
                    &&& task_hit(old.tasks@, row, Some(new.tasks_index))
                    &&& App::task_toggled(App { tasks_index: new.tasks_index, ..focused }, new)
                    &&& out == KeyOutcome::Ignored
                } else {
                    new == focused && out == KeyOutcome::Ignored
                },
                None => new == focused && out == KeyOutcome::Ignored,
            }
        },
        MouseRegion::Terminal => new == (App { focus: Focus::Workspace, ..old }) && out
            == KeyOutcome::Ignored,
        MouseRegion::Footer => new == (App { focus: Focus::Input, ..old }) && out
            == KeyOutcome::Ignored,
        _ => new == old && out == KeyOutcome::Ignored,
    }
}

/// `l` is a layout the app can be drawn in on `area`: the one drawing
/// uses, with its regions in order inside the area.
pub open spec fn app_shell(app: App, area: Rect, l: ShellLayout) -> bool {
    &&& is_shell(area, app.explorer_visible, app.context_visible, app.bottom_open, l)
    &&& shell_order(area, app.explorer_visible, app.context_visible, l)
}

impl Click {
    /// The region this click falls in.
    pub fn region_in(&self, layout: &ShellLayout) -> (r: MouseRegion)
        ensures
            r == region_at(*layout, self.x as int, self.y as int),
    {
        if layout.header.holds(self.x, self.y) {
            MouseRegion::Header
        } else if layout.tabs.holds(self.x, self.y) {
            MouseRegion::TabBar
        } else if layout.statusbar.holds(self.x, self.y) {
            MouseRegion::StatusBar
        } else if layout.footer.holds(self.x, self.y) {
            MouseRegion::Footer
        } else if layout.explorer.holds(self.x, self.y) {
            MouseRegion::Explorer
        } else if layout.terminal.holds(self.x, self.y) {
            MouseRegion::Terminal
        } else if layout.workspace.holds(self.x, self.y) {
            MouseRegion::Workspace
        } else if layout.context.holds(self.x, self.y) {
            MouseRegion::Context
        } else {
            MouseRegion::Header
        }
    }

    /// The region this click falls in, on the layout the app is drawn in.
    pub fn region(&self, app: &App, area: Rect) -> (r: MouseRegion)
        ensures
            exists|l: ShellLayout| #[trigger] app_shell(*app, area, l) && r == region_at(l, self.x as int, self.y as int),
    {
        let layout = shell_layout(area, app.explorer_visible, app.context_visible, app.bottom_open);
    proof {
        assert(app_shell(*app, area, layout));
    }
        proof {
            assert(app_shell(*app, area, layout));
        }
        self.region_in(&layout)
    }

    /// The tab whose label is under the click; none on a separator or
    /// past the last label.
    pub fn tab_at_in(&self, layout: &ShellLayout, i18n: &I18n) -> (r: Option<Tab>)
        ensures
            r == tab_under(*layout, *i18n, self.x as int, self.y as int),
    {
        if !layout.tabs.holds(self.x, self.y) {
            return None;
        }
        let tabs = Tab::all();
        let x = self.x as u64;
        let mut cursor: u64 = layout.tabs.x as u64;
        let mut k: usize = 0;
        while k < 6
            invariant
                k <= 6,
                tabs@ == tab_order(),
                x == self.x,
                cursor <= 65535 + k * 65538,
                layout.tabs.contains(self.x as int, self.y as int),
                tab_from(*i18n, x as int, layout.tabs.x as int, 0) == tab_from(
                    *i18n,
                    x as int,
                    cursor as int,
                    k as int,
                ),
            decreases 6 - k,
        {
            let tab = tabs[k];
            let w = tab_label_width(tab, i18n) as u64;
            if x >= cursor && x < cursor + w {
                return Some(tab);
            }
            cursor = cursor + w + TAB_SEPARATOR_WIDTH as u64;
            k = k + 1;
        }
        None
    }

    /// The tab under the click, on the layout the app is drawn in.
    pub fn tab_at(&self, app: &App, area: Rect, i18n: &I18n) -> (r: Option<Tab>)
        ensures
            exists|l: ShellLayout| #[trigger] app_shell(*app, area, l) && r == tab_under(l, *i18n, self.x as int, self.y as int),
    {
        let layout = shell_layout(area, app.explorer_visible, app.context_visible, app.bottom_open);
    proof {
        assert(app_shell(*app, area, layout));
    }
        proof {
            assert(app_shell(*app, area, layout));
        }
        self.tab_at_in(&layout, i18n)
    }

    /// Row of the list under the click inside a bordered panel.
    fn row_in(&self, r: &Rect) -> (out: Option<usize>)
        ensures
            match inner_row(*r, self.x as int, self.y as int) {
                Some(row) => out == Some(row as usize),
                None => out is None,
            },
    {
        if !r.holds(self.x, self.y) {
            return None;
        }
        let top: u32 = r.y as u32 + 1;
        if (self.y as u32) < top {
            return None;
        }
        Some((self.y as u32 - top) as usize)
    }

    /// Tasks-list step under the click; none outside the list or on
    /// another tab. Detail lines count as their step.
    pub fn task_row_in(&self, app: &App, layout: &ShellLayout) -> (r: Option<usize>)
        ensures
            app.tab != Tab::Tasks ==> r is None,
            app.tab == Tab::Tasks ==> match inner_row(layout.workspace, self.x as int, self.y as int) {
                Some(row) => task_hit(app.tasks@, row, r),
                None => r is None,
            },
    {
        if app.tab != Tab::Tasks {
            return None;
        }
        match self.row_in(&layout.workspace) {
            Some(row) => task_at_row(app.tasks.as_slice(), row),
            None => None,
        }
    }

    /// Tasks-list step under the click, on the layout the app is drawn in.
    pub fn task_row(&self, app: &App, area: Rect) -> (r: Option<usize>)
        ensures
            app.tab != Tab::Tasks ==> r is None,
            app.tab == Tab::Tasks ==> exists|l: ShellLayout| #[trigger] app_shell(*app, area, l) && match inner_row(l.workspace, self.x as int, self.y as int) {
                Some(row) => task_hit(app.tasks@, row, r),
                None => r is None,
            },
    {
        let layout = shell_layout(area, app.explorer_visible, app.context_visible, app.bottom_open);
    proof {
        assert(app_shell(*app, area, layout));
    }
        proof {
            assert(app_shell(*app, area, layout));
        }
        self.task_row_in(app, &layout)
    }

    /// Explorer row under the click (the `..` row counts); none outside
    /// the list.
    pub fn explorer_row_in(&self, layout: &ShellLayout) -> (r: Option<usize>)
        ensures
            match inner_row(layout.explorer, self.x as int, self.y as int) {
                Some(row) => r == Some(row as usize),
                None => r is None,
            },
    {
        self.row_in(&layout.explorer)
    }

    /// Explorer row under the click, on the layout the app is drawn in.
    pub fn explorer_row(&self, app: &App, area: Rect) -> (r: Option<usize>)
        ensures
            exists|l: ShellLayout| #[trigger] app_shell(*app, area, l) && match inner_row(l.explorer, self.x as int, self.y as int) {
                Some(row) => r == Some(row as usize),
                None => r is None,
            },
    {
        let layout = shell_layout(area, app.explorer_visible, app.context_visible, app.bottom_open);
    proof {
        assert(app_shell(*app, area, layout));
    }
        proof {
            assert(app_shell(*app, area, layout));
        }
        self.explorer_row_in(&layout)
    }
}

/// Answer a left click on the shell laid out as `layout` (no dialog open).
pub fn click_outcome_in(app: &mut App, click: Click, layout: &ShellLayout, i18n: &I18n) -> (r: KeyOutcome)
    ensures
        click_effect(*old(app), *final(app), click, *layout, *i18n, r),
{
    match click.region_in(layout) {
        MouseRegion::TabBar => {
            match click.tab_at_in(layout, i18n) {
                Some(tab) => {
                    app.set_tab(tab);
                    app.focus = Focus::Workspace;
                    KeyOutcome::Ignored
                },
                None => KeyOutcome::Ignored,
            }
        },
        MouseRegion::Explorer => {
            let row = match click.explorer_row_in(layout) {
                Some(row) => row,
                None => {
                    return KeyOutcome::Ignored;
                },
            };
            let rows: u128 = app.files.len() as u128 + if app.has_parent_entry() {
                1
            } else {
                0
            };
            if row as u128 >= rows {
                return KeyOutcome::Ignored;
            }
            let ghost before = *app;
            app.focus = Focus::Explorer;
            app.explorer_index = row;
            proof {
                assert(app.files == before.files && app.current_dir == before.current_dir);
            }
            app.enter_explorer_at(row)
        },
        MouseRegion::Workspace => {
            app.focus = Focus::Workspace;
            if app.tab == Tab::Tasks {
                if let Some(index) = click.task_row_in(app, layout) {
                    proof {
                        lemma_rows_before_grow(app.tasks@, index + 1, app.tasks@.len() as int);
                    }
                    app.tasks_index = index;
                    return app.toggle_task();
                }
            }
            KeyOutcome::Ignored
        },
        MouseRegion::Terminal => {
            app.focus = Focus::Workspace;
            KeyOutcome::Ignored
        },
        MouseRegion::Footer => {
            app.focus = Focus::Input;
            KeyOutcome::Ignored
        },
        _ => KeyOutcome::Ignored,
    }
}

/// Answer a left click on the shell drawn in `area` (no dialog open).
pub fn click_outcome(app: &mut App, click: Click, area: Rect, i18n: &I18n) -> (r: KeyOutcome)
    ensures
        exists|l: ShellLayout| #[trigger] app_shell(*old(app), area, l) && click_effect(*old(app), *final(app), click, l, *i18n, r),
{
    let layout = shell_layout(area, app.explorer_visible, app.context_visible, app.bottom_open);
    proof {
        assert(app_shell(*app, area, layout));
    }
    click_outcome_in(app, click, &layout, i18n)
}

impl App {
    /// Effect of a click while the palette is open: outside the popup the
    /// palette closes; on a listed command (three rows below the popup's
    /// top edge) it closes and runs that command; elsewhere inside nothing
    /// happens.
    pub open spec fn palette_click_effect(old: App, new: App, click: Click, area: Rect, i18n: I18n, out: KeyOutcome) -> bool {
        let m = match old.palette {
            Some(p) => p.shown(i18n),
            None => Seq::empty(),
        };
        let popup = popup_spec(area, m.len() as int);
        let x = click.x as int;
        let y = click.y as int;
        if !popup.contains(x, y) {
            new == (App { palette: None, ..old }) && out == KeyOutcome::Ignored
        } else if y >= popup.y + 3 && y - popup.y - 3 < m.len() {
            new == (App { palette: None, ..old }) && out == KeyOutcome::Command(
                m[y - popup.y - 3].0,
            )
        } else {
            new == old && out == KeyOutcome::Ignored
        }
    }

    fn palette_click(&mut self, click: Click, area: Rect, i18n: &I18n) -> (r: KeyOutcome)
        requires
            area.wf(),
        ensures
            App::palette_click_effect(*old(self), *final(self), click, area, *i18n, r),
    {
        let matches = match &self.palette {
            Some(p) => p.filtered(i18n),
            None => Vec::new(),
        };
        proof {
            if self.palette is Some {
                let p = self.palette->Some_0;
                lemma_matching_len(catalog(), *i18n, normalized(p.query@));
                assert(matches@.len() == p.shown(*i18n).len());
            }
        }
        let popup = popup_rect(area, matches.len());
        if !popup.holds(click.x, click.y) {
            self.palette = None;
            return KeyOutcome::Ignored;
        }
        let top: u32 = popup.y as u32 + 3;
        if (click.y as u32) >= top && ((click.y as u32 - top) as usize) < matches.len() {
            let row = (click.y as u32 - top) as usize;
            let command = matches[row].0;
            proof {
                assert(crate::tui::palette::entry_views(matches@)[row as int].0 == command);
            }
            self.palette = None;
            KeyOutcome::Command(command)
        } else {
            KeyOutcome::Ignored
        }
    }

    /// Answer a mouse event on the shell drawn in `area`. A left click
    /// goes to the palette when it is open; while a permission question
    /// is open no click answers it; otherwise the click is mapped on the
    /// shell. The wheel moves like Up and Down.
    pub fn handle_mouse(&mut self, input: MouseInput, area: Rect, i18n: &I18n) -> (r: KeyOutcome)
        requires
            area.wf(),
        ensures
            match input {
                MouseInput::LeftUp { column, row } => {
                    let click = Click { x: column, y: row };
                    if old(self).palette is Some {
                        App::palette_click_effect(*old(self), *final(self), click, area, *i18n, r)
                    } else if old(self).permission is Some {
                        *final(self) == *old(self) && r == KeyOutcome::Ignored
                    } else {
                        exists|l: ShellLayout| #[trigger] app_shell(*old(self), area, l) && click_effect(*old(self), *final(self), click, l, *i18n, r)
                    }
                },
                MouseInput::ScrollUp => App::up_move(*old(self), *final(self)) && r == KeyOutcome::Ignored,
                MouseInput::ScrollDown => App::down_move(*old(self), *final(self)) && r
                    == KeyOutcome::Ignored,
                MouseInput::Other => *final(self) == *old(self) && r == KeyOutcome::Ignored,
            },
    {
        match input {
            MouseInput::LeftUp { column, row } => {
                let click = Click { x: column, y: row };
                if self.palette.is_some() {
                    return self.palette_click(click, area, i18n);
                }
                if self.permission.is_some() {
                    return KeyOutcome::Ignored;
                }
                click_outcome(self, click, area, i18n)
            },
            MouseInput::ScrollUp => {
                self.move_up();
                KeyOutcome::Ignored
            },
            MouseInput::ScrollDown => {
                self.move_down();
                KeyOutcome::Ignored
            },
            MouseInput::Other => KeyOutcome::Ignored,
        }
    }
}

} // verus!
