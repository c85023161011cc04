//! Shell geometry: header, body, tab bar, status bar and footer; the three
//! body columns; and the terminal strip under the workspace. A function of
//! the terminal area and of which panels are shown, nothing else.
use vstd::prelude::*;

use ratatui::layout as rl;

verus! {

/// Height of the bottom terminal while open: title and a few lines.
pub const TERMINAL_OPEN_HEIGHT: u16 = 8;

/// Height of the collapsed terminal strip.
pub const TERMINAL_CLOSED_HEIGHT: u16 = 1;

/// A rectangle of terminal cells.
#[derive(Debug, Clone, Copy, PartialEq, Eq, Structural)]
pub struct Rect {
    pub x: u16,
    pub y: u16,
    pub width: u16,
    pub height: u16,
}

impl View for Rect {
    type V = (u16, u16, u16, u16);

    open spec fn view(&self) -> (u16, u16, u16, u16) {
        (self.x, self.y, self.width, self.height)
    }
}

/// `a` capped at `b`.
pub open spec fn cap(a: u16, b: int) -> u16 {
    if a > b {
        b as u16
    } else {
        a
    }
}

impl Rect {
    /// The rectangle that `new` builds: width and height cut so that the
    /// right and bottom edges stay within 16 bits.
    pub open spec fn new_spec(x: u16, y: u16, width: u16, height: u16) -> Rect {
        Rect { x, y, width: cap(width, u16::MAX - x), height: cap(height, u16::MAX - y) }
    }

    /// Right and bottom edges fit in 16 bits.
    pub open spec fn wf(self) -> bool {
        self.x + self.width <= u16::MAX && self.y + self.height <= u16::MAX
    }

    /// Whether the cell at (`x`, `y`) lies inside a non-empty rectangle.
    pub open spec fn contains(self, x: int, y: int) -> bool {
        &&& self.width > 0
        &&& self.height > 0
        &&& self.x <= x < self.x + self.width
        &&& self.y <= y < self.y + self.height
    }

    /// A rectangle, its size cut to keep its edges within 16 bits.
    pub fn new(x: u16, y: u16, width: u16, height: u16) -> (r: Rect)
        ensures
            r == Rect::new_spec(x, y, width, height),
            r.wf(),
    {
        let max_width = u16::MAX - x;
        let max_height = u16::MAX - y;
        let width = if width > max_width {
            max_width
        } else {
            width
        };
        let height = if height > max_height {
            max_height
        } else {
            height
        };
        Rect { x, y, width, height }
    }

    /// The rectangle with exactly these coordinates.
    pub fn at(x: u16, y: u16, width: u16, height: u16) -> (r: Rect)
        ensures
            r == (Rect { x, y, width, height }),
    {
        Rect { x, y, width, height }
    }

    /// The empty rectangle at the origin.
    pub fn zero() -> (r: Rect)
        ensures
            r == (Rect { x: 0, y: 0, width: 0, height: 0 }),
    {
        Rect { x: 0, y: 0, width: 0, height: 0 }
    }

    /// Whether the cell at (`x`, `y`) lies inside.
    pub fn holds(&self, x: u16, y: u16) -> (b: bool)
        ensures
            b == self.contains(x as int, y as int),
    {
        let right: u32 = self.x as u32 + self.width as u32;
        let bottom: u32 = self.y as u32 + self.height as u32;
        self.width > 0 && self.height > 0 && x >= self.x && (x as u32) < right && y >= self.y
            && (y as u32) < bottom
    }
}

/// How a stretch is sized when an area is split.
#[derive(Debug, Clone, Copy, PartialEq, Eq, Structural)]
pub enum Constraint {
    Length(u16),
    Min(u16),
    Percentage(u16),
    Fill(u16),
}

impl View for Constraint {
    type V = (u8, u16);

    /// A kind number and the constraint's value.
    open spec fn view(&self) -> (u8, u16) {
        match *self {
            Constraint::Length(n) => (0, n),
            Constraint::Min(n) => (1, n),
            Constraint::Percentage(n) => (2, n),
            Constraint::Fill(n) => (3, n),
        }
    }
}

/// The direction an area is split in.
#[derive(Debug, Clone, Copy, PartialEq, Eq, Structural)]
pub enum Direction {
    Horizontal,
    Vertical,
}

/// The far edge of a stretch starting at `start` of `size` cells, cut at
/// the last coordinate as ratatui's `right`/`bottom` do.
pub open spec fn far_edge(start: u16, size: u16) -> int {
    if start + size <= u16::MAX {
        start + size
    } else {
        u16::MAX as int
    }
}

/// Where a rectangle starts along a direction.
pub open spec fn start_along(r: Rect, direction: Direction) -> int {
    if direction == Direction::Vertical {
        r.y as int
    } else {
        r.x as int
    }
}

/// Where a rectangle ends along a direction.
pub open spec fn end_along(r: Rect, direction: Direction) -> int {
    if direction == Direction::Vertical {
        r.y + r.height
    } else {
        r.x + r.width
    }
}

/// What a split gives: one piece per constraint; top-to-bottom pieces
/// keep the area's column and width, left-to-right pieces its row and
/// height; along the split each piece lies inside the area, and the
/// pieces come in order without overlapping: a piece ends at or before
/// any later piece starts.
pub open spec fn split_shape(area: Rect, direction: Direction, cs: Seq<Constraint>, r: Seq<Rect>) -> bool {
    &&& r.len() == cs.len()
    &&& forall|i: int|
        0 <= i < r.len() ==> {
            &&& if direction == Direction::Vertical {
                (#[trigger] r[i]).x == area.x && r[i].width == area.width
            } else {
                r[i].y == area.y && r[i].height == area.height
            }
            &&& start_along(area, direction) <= start_along(r[i], direction)
            &&& end_along(r[i], direction) <= far_edge(
                if direction == Direction::Vertical { area.y } else { area.x },
                if direction == Direction::Vertical { area.height } else { area.width },
            )
        }
    &&& forall|i: int, j: int|
        0 <= i < j < r.len() ==> end_along(#[trigger] r[i], direction) <= start_along(#[trigger] r[j], direction)
}

/// `ratatui::layout::Layout::split`, with no margin, no spacing and the
/// default flex: the area cut into one piece per constraint, in order.
/// The contract states what holds of every solution the source can give:
/// one piece per constraint; a vertical split keeps the area's column and
/// width, a horizontal one its row and height; every piece's start and
/// end are held inside the area by required solver constraints, with the
/// start at or before the end; and the gaps between pieces are held at
/// zero with a strength above every sizing constraint, so pieces follow
/// each other without overlapping (rounding to cells is monotone). How
/// long each piece is, is left to the solver, which walks hash maps
/// seeded per process when it picks among equally good solutions; so
/// neither the lengths nor that equal arguments give equal pieces are
/// stated. The source panics only if the solver refuses a constraint it
/// built itself, and only its own area constraints are required.
#[verifier::external_body]
fn split(area: Rect, direction: Direction, cs: &Vec<Constraint>) -> (r: Vec<Rect>)
    ensures
        split_shape(area, direction, cs@, r@),
{
    let list = cs.iter().map(|c| match *c {
        Constraint::Length(n) => rl::Constraint::Length(n),
        Constraint::Min(n) => rl::Constraint::Min(n),
        Constraint::Percentage(n) => rl::Constraint::Percentage(n),
        Constraint::Fill(n) => rl::Constraint::Fill(n),
    });
    let whole = rl::Rect { x: area.x, y: area.y, width: area.width, height: area.height };
    rl::Layout::default().direction(match direction {
        Direction::Horizontal => rl::Direction::Horizontal,
        Direction::Vertical => rl::Direction::Vertical,
    }).constraints(list).split(whole).iter().map(|p| Rect::at(p.x, p.y, p.width, p.height)).collect()
}

/// Regions of the shell. Hidden panels are empty rectangles.
#[derive(Debug, Clone, Copy, PartialEq, Eq, Structural)]
pub struct ShellLayout {
    pub header: Rect,
    pub explorer: Rect,
    pub workspace: Rect,
    /// Bottom terminal inside the center column; one row when closed.
    pub terminal: Rect,
    pub context: Rect,
    /// One-line tab bar under the body.
    pub tabs: Rect,
    /// One-line status bar.
    pub statusbar: Rect,
    pub footer: Rect,
}

/// The empty rectangle at the origin.
pub open spec fn no_rect() -> Rect {
    Rect { x: 0, y: 0, width: 0, height: 0 }
}

/// Rows of the shell: header, body, tab bar, status bar, footer.
pub open spec fn row_constraints() -> Seq<Constraint> {
    seq![
        Constraint::Length(3),
        Constraint::Min(1),
        Constraint::Length(1),
        Constraint::Length(1),
        Constraint::Length(3),
    ]
}

/// Body columns: the explorer (a fifth) when shown, the center, the
/// context panel (a quarter) when shown.
pub open spec fn column_constraints(explorer_visible: bool, context_visible: bool) -> Seq<Constraint> {
    (if explorer_visible {
        seq![Constraint::Percentage(20)]
    } else {
        Seq::empty()
    }) + seq![Constraint::Fill(1)] + (if context_visible {
        seq![Constraint::Percentage(25)]
    } else {
        Seq::empty()
    })
}

/// Height of the terminal strip.
pub open spec fn terminal_height(bottom_open: bool) -> u16 {
    if bottom_open {
        TERMINAL_OPEN_HEIGHT
    } else {
        TERMINAL_CLOSED_HEIGHT
    }
}

/// Center column: workspace above, terminal strip below.
pub open spec fn center_constraints(bottom_open: bool) -> Seq<Constraint> {
    seq![Constraint::Fill(1), Constraint::Length(terminal_height(bottom_open))]
}

/// Explorer, center and context out of the body columns.
pub open spec fn columns_of(cols: Seq<Rect>, explorer_visible: bool, context_visible: bool) -> (Rect, Rect, Rect) {
    if explorer_visible && context_visible {
        (cols[0], cols[1], cols[2])
    } else if explorer_visible {
        (cols[0], cols[1], no_rect())
    } else if context_visible {
        (no_rect(), cols[0], cols[1])
    } else {
        (no_rect(), cols[0], no_rect())
    }
}

/// The shell put together from the row split, the column split and the
/// center split.
pub open spec fn assembled(
    rows: Seq<Rect>,
    cols: Seq<Rect>,
    center_rows: Seq<Rect>,
    explorer_visible: bool,
    context_visible: bool,
) -> ShellLayout {
    let c = columns_of(cols, explorer_visible, context_visible);
    ShellLayout {
        header: rows[0],
        explorer: c.0,
        workspace: center_rows[0],
        terminal: center_rows[1],
        context: c.2,
        tabs: rows[2],
        statusbar: rows[3],
        footer: rows[4],
    }
}

/// `l` is a shell of `area`: put together from a split of the area into
/// the rows, a split of the body row into the columns and a split of the
/// center column into workspace and terminal.
pub open spec fn is_shell(area: Rect, explorer_visible: bool, context_visible: bool, bottom_open: bool, l: ShellLayout) -> bool {
    exists|rows: Seq<Rect>, cols: Seq<Rect>, center_rows: Seq<Rect>|
        {
            &&& split_shape(area, Direction::Vertical, row_constraints(), rows)
            &&& split_shape(rows[1], Direction::Horizontal, column_constraints(explorer_visible, context_visible), cols)
            &&& split_shape(
                columns_of(cols, explorer_visible, context_visible).1,
                Direction::Vertical,
                center_constraints(bottom_open),
                center_rows,
            )
            &&& l == #[trigger] assembled(rows, cols, center_rows, explorer_visible, context_visible)
        }
}

/// Constraints of the body columns.
pub fn body_constraints(explorer_visible: bool, context_visible: bool) -> (r: Vec<Constraint>)
    ensures
        r@ == column_constraints(explorer_visible, context_visible),
{
    let mut r: Vec<Constraint> = Vec::new();
    if explorer_visible {
        r.push(Constraint::Percentage(20));
    }
    r.push(Constraint::Fill(1));
    if context_visible {
        r.push(Constraint::Percentage(25));
    }
    proof {
        assert(r@ =~= column_constraints(explorer_visible, context_visible));
    }
    r
}

/// Explorer, center and context out of the body columns.
pub fn pick_columns(cols: &Vec<Rect>, explorer_visible: bool, context_visible: bool) -> (r: (Rect, Rect, Rect))
    requires
        cols@.len() == column_constraints(explorer_visible, context_visible).len(),
    ensures
        r == columns_of(cols@, explorer_visible, context_visible),
{
    if explorer_visible && context_visible {
        (cols[0], cols[1], cols[2])
    } else if explorer_visible {
        (cols[0], cols[1], Rect::zero())
    } else if context_visible {
        (Rect::zero(), cols[0], cols[1])
    } else {
        (Rect::zero(), cols[0], Rect::zero())
    }
}

/// The shell from its three splits.
pub fn assemble_shell(
    rows: &Vec<Rect>,
    cols: &Vec<Rect>,
    center_rows: &Vec<Rect>,
    explorer_visible: bool,
    context_visible: bool,
) -> (l: ShellLayout)
    requires
        rows@.len() == 5,
        cols@.len() == column_constraints(explorer_visible, context_visible).len(),
        center_rows@.len() == 2,
    ensures
        l == assembled(rows@, cols@, center_rows@, explorer_visible, context_visible),
{
    let (explorer, _center, context) = pick_columns(cols, explorer_visible, context_visible);
    ShellLayout {
        header: rows[0],
        explorer,
        workspace: center_rows[0],
        terminal: center_rows[1],
        context,
        tabs: rows[2],
        statusbar: rows[3],
        footer: rows[4],
    }
}

/// `r` lies inside `area`.
pub open spec fn inside(r: Rect, area: Rect) -> bool {
    &&& area.x <= r.x && r.x + r.width <= area.x + area.width
    &&& area.y <= r.y && r.y + r.height <= area.y + area.height
}

/// The order of a shell's regions: top to bottom the header, the body
/// (explorer, workspace over terminal, context), the tab bar, the status
/// bar and the footer; left to right the explorer, the center column and
/// the context panel; every shown region inside the area.
pub open spec fn shell_order(area: Rect, explorer_visible: bool, context_visible: bool, l: ShellLayout) -> bool {
    &&& l.header.y + l.header.height <= l.workspace.y
    &&& l.workspace.y + l.workspace.height <= l.terminal.y
    &&& l.terminal.y + l.terminal.height <= l.tabs.y
    &&& l.tabs.y + l.tabs.height <= l.statusbar.y
    &&& l.statusbar.y + l.statusbar.height <= l.footer.y
    &&& explorer_visible ==> {
        &&& l.explorer.x + l.explorer.width <= l.workspace.x
        &&& l.header.y + l.header.height <= l.explorer.y
        &&& l.explorer.y + l.explorer.height <= l.tabs.y
        &&& inside(l.explorer, area)
    }
    &&& context_visible ==> {
        &&& l.workspace.x + l.workspace.width <= l.context.x
        &&& l.header.y + l.header.height <= l.context.y
        &&& l.context.y + l.context.height <= l.tabs.y
        &&& inside(l.context, area)
    }
    &&& inside(l.header, area) && inside(l.workspace, area) && inside(l.terminal, area)
    &&& inside(l.tabs, area) && inside(l.statusbar, area) && inside(l.footer, area)
}

/// Every shell of an area keeps its regions in order.
proof fn lemma_shell_order(
    area: Rect,
    explorer_visible: bool,
    context_visible: bool,
    bottom_open: bool,
    rows: Seq<Rect>,
    cols: Seq<Rect>,
    center_rows: Seq<Rect>,
)
    requires
        split_shape(area, Direction::Vertical, row_constraints(), rows),
        split_shape(rows[1], Direction::Horizontal, column_constraints(explorer_visible, context_visible), cols),
        split_shape(
            columns_of(cols, explorer_visible, context_visible).1,
            Direction::Vertical,
            center_constraints(bottom_open),
            center_rows,
        ),
    ensures
        shell_order(area, explorer_visible, context_visible, assembled(rows, cols, center_rows, explorer_visible, context_visible)),
{
    let v = Direction::Vertical;
    let h = Direction::Horizontal;
    let l = assembled(rows, cols, center_rows, explorer_visible, context_visible);
    let center = columns_of(cols, explorer_visible, context_visible).1;
    assert(rows.len() == 5);
    let (r0, r1, r2, r3, r4) = (rows[0], rows[1], rows[2], rows[3], rows[4]);
    assert(end_along(r0, v) <= start_along(r1, v));
    assert(end_along(r1, v) <= start_along(r2, v));
    assert(end_along(r2, v) <= start_along(r3, v));
    assert(end_along(r3, v) <= start_along(r4, v));
    assert(start_along(area, v) <= start_along(r0, v) && end_along(r4, v) <= far_edge(area.y, area.height));
    assert(start_along(area, v) <= start_along(r1, v) && end_along(r1, v) <= far_edge(area.y, area.height));
    assert(start_along(area, v) <= start_along(r2, v) && end_along(r2, v) <= far_edge(area.y, area.height));
    assert(start_along(area, v) <= start_along(r3, v) && end_along(r3, v) <= far_edge(area.y, area.height));
    assert(end_along(r0, v) <= far_edge(area.y, area.height));
    assert(r0.x == area.x && r1.x == area.x && r2.x == area.x && r3.x == area.x && r4.x == area.x);
    assert(r0.width == area.width && r1.width == area.width && r2.width == area.width && r3.width == area.width
        && r4.width == area.width);
    let n = cols.len();
    assert forall|i: int| 0 <= i < n implies inside(#[trigger] cols[i], area) && cols[i].y == r1.y
        && cols[i].height == r1.height by {
        assert(start_along(r1, h) <= start_along(cols[i], h));
        assert(end_along(cols[i], h) <= far_edge(r1.x, r1.width));
    }
    if explorer_visible {
        assert(end_along(cols[0], h) <= start_along(cols[1], h));
    }
    if context_visible {
        assert(end_along(cols[n - 2], h) <= start_along(cols[n - 1], h));
    }
    assert(inside(center, area));
    assert(center_rows.len() == 2);
    let (w, t) = (center_rows[0], center_rows[1]);
    assert(end_along(w, v) <= start_along(t, v));
    assert(start_along(center, v) <= start_along(w, v) && end_along(w, v) <= far_edge(center.y, center.height));
    assert(start_along(center, v) <= start_along(t, v) && end_along(t, v) <= far_edge(center.y, center.height));
    assert(w.x == center.x && t.x == center.x && w.width == center.width && t.width == center.width);
    assert(far_edge(center.y, center.height) == r1.y + r1.height);
}

/// Split `area` into the shell regions. Hidden panels are empty; the
/// header, body rows and bars span the whole width of the area; the
/// terminal strip sits under the workspace, in its column and as wide;
/// the regions come in order and lie inside the area.
pub fn shell_layout(area: Rect, explorer_visible: bool, context_visible: bool, bottom_open: bool) -> (l: ShellLayout)
    ensures
        is_shell(area, explorer_visible, context_visible, bottom_open, l),
        shell_order(area, explorer_visible, context_visible, l),
        !explorer_visible ==> l.explorer == no_rect(),
        !context_visible ==> l.context == no_rect(),
        l.header.x == area.x && l.header.width == area.width,
        l.tabs.x == area.x && l.tabs.width == area.width,
        l.statusbar.x == area.x && l.statusbar.width == area.width,
        l.footer.x == area.x && l.footer.width == area.width,
        l.terminal.x == l.workspace.x && l.terminal.width == l.workspace.width,
{
    let row_cs = vec![
        Constraint::Length(3),
        Constraint::Min(1),
        Constraint::Length(1),
        Constraint::Length(1),
        Constraint::Length(3),
    ];
    proof {
        assert(row_cs@ =~= row_constraints());
    }
    let rows = split(area, Direction::Vertical, &row_cs);
    let col_cs = body_constraints(explorer_visible, context_visible);
    let cols = split(rows[1], Direction::Horizontal, &col_cs);
    let (_explorer, center, _context) = pick_columns(&cols, explorer_visible, context_visible);
    let height = if bottom_open {
        TERMINAL_OPEN_HEIGHT
    } else {
        TERMINAL_CLOSED_HEIGHT
    };
    let center_cs = vec![Constraint::Fill(1), Constraint::Length(height)];
    proof {
        assert(center_cs@ =~= center_constraints(bottom_open));
    }
    let center_rows = split(center, Direction::Vertical, &center_cs);
    proof {
        assert(rows@[0].x == area.x && rows@[2].x == area.x && rows@[3].x == area.x && rows@[4].x == area.x);
        assert(center_rows@[0].x == center.x && center_rows@[1].x == center.x);
    }
    let l = assemble_shell(&rows, &cols, &center_rows, explorer_visible, context_visible);
    proof {
        assert(l == assembled(rows@, cols@, center_rows@, explorer_visible, context_visible));
        lemma_shell_order(area, explorer_visible, context_visible, bottom_open, rows@, cols@, center_rows@);
    }
    l
}

/// The centered rectangle of at most `width` by `height` cells.
pub open spec fn centered_spec(area: Rect, width: u16, height: u16) -> Rect {
    let w = if width < area.width { width } else { area.width };
    let h = if height < area.height { height } else { area.height };
    Rect::new_spec(
        (area.x + (area.width - w) / 2) as u16,
        (area.y + (area.height - h) / 2) as u16,
        w,
        h,
    )
}

/// A rectangle centered in `area`, clamped to it: for dialogs.
pub fn centered_rect(area: Rect, width: u16, height: u16) -> (r: Rect)
    requires
        area.wf(),
    ensures
        r == centered_spec(area, width, height),
        r.wf(),
{
    let width = if width < area.width {
        width
    } else {
        area.width
    };
    let height = if height < area.height {
        height
    } else {
        area.height
    };
    let x = area.x + (area.width - width) / 2;
    let y = area.y + (area.height - height) / 2;
    Rect::new(x, y, width, height)
}

} // verus!
