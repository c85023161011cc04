//! The presentation model: display data folded from domain events, and
//! the outcomes of key presses for the application to perform.
use vstd::prelude::*;

use crate::events::{AgentState, DarbEvent};
use crate::i18n::I18n;
use crate::text::{chars_of, concat, decimal_string, lines, owned};
use crate::tui::palette::{Command, Palette};

verus! {

/// One file row in the explorer.
#[derive(Debug, Clone, PartialEq, Eq)]
pub struct FileEntry {
    pub name: String,
    pub is_dir: bool,
}

/// Author of a chat message.
#[derive(Debug, Clone, Copy, PartialEq, Eq, Structural)]
pub enum MessageRole {
    User,
    Agent,
    System,
}

/// One chat message.
#[derive(Debug, Clone)]
pub struct ChatMessage {
    pub role: MessageRole,
    pub text: String,
}

/// Pending permission question shown modally.
#[derive(Debug, Clone, PartialEq, Eq)]
pub struct PermissionPrompt {
    pub tool: String,
    pub target: String,
}

/// Content of the file opened in the explorer.
#[derive(Debug, Clone, PartialEq, Eq)]
pub struct FilePreview {
    pub path: String,
    pub text: String,
}

/// Progress of one agent step in the tasks panel.
#[derive(Debug, Clone, Copy, PartialEq, Eq, Structural)]
pub enum TaskState {
    Pending,
    Done,
    Failed,
}

/// One agent step; an expanded step shows a detail row under its header.
#[derive(Debug, Clone, PartialEq, Eq)]
pub struct TaskItem {
    pub tool: String,
    pub target: String,
    pub state: TaskState,
    pub expanded: bool,
}

/// Visual rows a step occupies.
pub open spec fn task_rows(t: TaskItem) -> nat {
    if t.expanded {
        2
    } else {
        1
    }
}

/// Visual rows of the first `n` steps.
pub open spec fn rows_before(ts: Seq<TaskItem>, n: int) -> nat
    decreases n,
{
    if n <= 0 || ts.len() == 0 {
        0
    } else if n > ts.len() {
        rows_before(ts, ts.len() as int)
    } else {
        rows_before(ts, n - 1) + task_rows(ts[n - 1])
    }
}

/// Step index under visual `row` (0-based over the list rows), or `None`
/// past the end.
pub fn task_at_row(tasks: &[TaskItem], row: usize) -> (r: Option<usize>)
    ensures
        match r {
            Some(i) => i < tasks@.len() && rows_before(tasks@, i as int) <= row < rows_before(
                tasks@,
                i + 1,
            ),
            None => rows_before(tasks@, tasks@.len() as int) <= row,
        },
{
    let mut cursor: usize = 0;
    let mut i: usize = 0;
    while i < tasks.len()
        invariant
            i <= tasks@.len(),
            cursor == rows_before(tasks@, i as int),
            cursor <= row,
        decreases tasks.len() - i,
    {
        let rows: usize = if tasks[i].expanded {
            2
        } else {
            1
        };
        if row - cursor < rows {
            return Some(i);
        }
        cursor = cursor + rows;
        i = i + 1;
    }
    None
}

/// Agent operating mode shown in the chat title.
#[derive(Debug, Clone, Copy, PartialEq, Eq, Structural)]
pub enum AgentMode {
    Auto,
    Plan,
    Code,
    Debug,
    Review,
    Explain,
}

impl Default for AgentMode {
    /// `Auto`.
    fn default() -> (m: Self)
        ensures
            m == AgentMode::Auto,
    {
        AgentMode::Auto
    }
}

/// Display name of a mode.
pub open spec fn mode_name(m: AgentMode) -> Seq<char> {
    match m {
        AgentMode::Auto => "AUTO"@,
        AgentMode::Plan => "PLAN"@,
        AgentMode::Code => "CODE"@,
        AgentMode::Debug => "DEBUG"@,
        AgentMode::Review => "REVIEW"@,
        AgentMode::Explain => "EXPLAIN"@,
    }
}

/// The mode after `m` in the cycle.
pub open spec fn next_mode(m: AgentMode) -> AgentMode {
    match m {
        AgentMode::Auto => AgentMode::Plan,
        AgentMode::Plan => AgentMode::Code,
        AgentMode::Code => AgentMode::Debug,
        AgentMode::Debug => AgentMode::Review,
        AgentMode::Review => AgentMode::Explain,
        AgentMode::Explain => AgentMode::Auto,
    }
}

impl AgentMode {
    /// Every mode, in cycle order.
    pub fn all() -> (r: [AgentMode; 6])
        ensures
            r@ == seq![
                AgentMode::Auto,
                AgentMode::Plan,
                AgentMode::Code,
                AgentMode::Debug,
                AgentMode::Review,
                AgentMode::Explain,
            ],
    {
        let r = [
            AgentMode::Auto,
            AgentMode::Plan,
            AgentMode::Code,
            AgentMode::Debug,
            AgentMode::Review,
            AgentMode::Explain,
        ];
        proof {
            assert(r@ =~= seq![
                AgentMode::Auto,
                AgentMode::Plan,
                AgentMode::Code,
                AgentMode::Debug,
                AgentMode::Review,
                AgentMode::Explain,
            ]);
        }
        r
    }

    /// Display name (language-neutral).
    pub fn name(self) -> (r: &'static str)
        ensures
            r@ == mode_name(self),
    {
        match self {
            AgentMode::Auto => "AUTO",
            AgentMode::Plan => "PLAN",
            AgentMode::Code => "CODE",
            AgentMode::Debug => "DEBUG",
            AgentMode::Review => "REVIEW",
            AgentMode::Explain => "EXPLAIN",
        }
    }

    /// The next mode in the cycle, wrapping after the last.
    pub fn next(self) -> (r: Self)
        ensures
            r == next_mode(self),
    {
        match self {
            AgentMode::Auto => AgentMode::Plan,
            AgentMode::Plan => AgentMode::Code,
            AgentMode::Code => AgentMode::Debug,
            AgentMode::Debug => AgentMode::Review,
            AgentMode::Review => AgentMode::Explain,
            AgentMode::Explain => AgentMode::Auto,
        }
    }
}

/// Cycling six times through the modes comes back to the start, and the
/// six modes met on the way are all different (so every mode is met).
pub proof fn law_mode_cycle_visits_all_and_wraps(m: AgentMode)
    ensures
        mode_after(m, 6) == m,
        forall|i: nat, j: nat|
            i < j < 6 ==> #[trigger] mode_after(m, i) != #[trigger] mode_after(m, j),
{
    reveal_with_fuel(mode_after, 7);
}

/// The mode `n` steps after `m`.
pub open spec fn mode_after(m: AgentMode, n: nat) -> AgentMode
    decreases n,
{
    if n == 0 {
        m
    } else {
        next_mode(mode_after(m, (n - 1) as nat))
    }
}

/// Region that receives scroll and Enter keys.
#[derive(Debug, Clone, Copy, PartialEq, Eq, Structural)]
pub enum Focus {
    Input,
    Explorer,
    Workspace,
}

impl Default for Focus {
    /// The command line.
    fn default() -> (f: Self)
        ensures
            f == Focus::Input,
    {
        Focus::Input
    }
}

/// The region after `f` in the focus cycle.
pub open spec fn next_focus(f: Focus) -> Focus {
    match f {
        Focus::Input => Focus::Explorer,
        Focus::Explorer => Focus::Workspace,
        Focus::Workspace => Focus::Input,
    }
}

impl Focus {
    /// The next region, wrapping after the workspace.
    pub fn next(self) -> (r: Self)
        ensures
            r == next_focus(self),
    {
        match self {
            Focus::Input => Focus::Explorer,
            Focus::Explorer => Focus::Workspace,
            Focus::Workspace => Focus::Input,
        }
    }
}

/// Workspace tabs.
#[derive(Debug, Clone, Copy, PartialEq, Eq, Structural)]
pub enum Tab {
    Chat,
    Files,
    Changes,
    Terminal,
    Git,
    Tasks,
}

impl Default for Tab {
    /// The chat.
    fn default() -> (t: Self)
        ensures
            t == Tab::Chat,
    {
        Tab::Chat
    }
}

/// Label key of a tab (also the panel title).
pub open spec fn tab_key(t: Tab) -> Seq<char> {
    match t {
        Tab::Chat => "panel.chat"@,
        Tab::Files => "panel.files"@,
        Tab::Changes => "panel.changes"@,
        Tab::Terminal => "panel.terminal"@,
        Tab::Git => "panel.git"@,
        Tab::Tasks => "panel.tasks"@,
    }
}

impl Tab {
    /// Every tab, in tab-bar order.
    pub fn all() -> (r: [Tab; 6])
        ensures
            r@ == seq![Tab::Chat, Tab::Files, Tab::Changes, Tab::Terminal, Tab::Git, Tab::Tasks],
    {
        let r = [Tab::Chat, Tab::Files, Tab::Changes, Tab::Terminal, Tab::Git, Tab::Tasks];
        proof {
            assert(r@ =~= seq![Tab::Chat, Tab::Files, Tab::Changes, Tab::Terminal, Tab::Git, Tab::Tasks]);
        }
        r
    }

    /// Label key of the tab.
    pub fn title_key(self) -> (r: &'static str)
        ensures
            r@ == tab_key(self),
    {
        match self {
            Tab::Chat => "panel.chat",
            Tab::Files => "panel.files",
            Tab::Changes => "panel.changes",
            Tab::Terminal => "panel.terminal",
            Tab::Git => "panel.git",
            Tab::Tasks => "panel.tasks",
        }
    }
}

/// Width in characters of a tab's translated label, as the tab bar draws
/// it (cut to 16 bits).
pub fn tab_label_width(tab: Tab, i18n: &I18n) -> (w: u16)
    ensures
        w == (i18n.resolve(tab_key(tab)).len() as u16),
{
    chars_of(i18n.text(tab.title_key())).len() as u16
}

/// Width of the separator drawn between tabs.
pub const TAB_SEPARATOR_WIDTH: u16 = 3;

/// Label key of an agent state.
pub open spec fn state_key(s: AgentState) -> Seq<char> {
    match s {
        AgentState::Idle => "app.ready"@,
        AgentState::Analyzing => "agent.thinking"@,
        AgentState::Planning => "agent.planning"@,
        AgentState::WaitingProvider => "agent.waiting"@,
        AgentState::WaitingPermission => "permissions.ask"@,
        AgentState::Executing => "agent.executing"@,
        AgentState::Reviewing => "agent.reviewing"@,
        AgentState::Retrying => "agent.retrying"@,
        AgentState::Completed => "agent.completed"@,
        AgentState::Failed => "agent.failed"@,
        AgentState::Cancelled => "agent.cancelled"@,
    }
}

/// Label key for an agent state.
pub fn status_key(state: &AgentState) -> (r: &'static str)
    ensures
        r@ == state_key(*state),
{
    match state {
        AgentState::Idle => "app.ready",
        AgentState::Analyzing => "agent.thinking",
        AgentState::Planning => "agent.planning",
        AgentState::WaitingProvider => "agent.waiting",
        AgentState::WaitingPermission => "permissions.ask",
        AgentState::Executing => "agent.executing",
        AgentState::Reviewing => "agent.reviewing",
        AgentState::Retrying => "agent.retrying",
        AgentState::Completed => "agent.completed",
        AgentState::Failed => "agent.failed",
        AgentState::Cancelled => "agent.cancelled",
    }
}

/// What a key press asks the application to do.
#[derive(Debug, Clone, PartialEq, Eq)]
pub enum KeyOutcome {
    Quit,
    Submitted(String),
    CancelRequested,
    PermissionAnswer(bool),
    /// A palette command the application performs.
    Command(Command),
    /// Explorer: open this project-relative entry.
    OpenEntry { path: String, is_dir: bool },
    /// Explorer: go to the parent directory.
    GoUp,
    /// Terminal tab: run this line (through permissions).
    TerminalCommand(String),
    /// Files tab: save the edit buffer (`original` is the snapshot taken
    /// when the file was opened, `content` the buffer).
    SaveFile { path: String, original: String, content: String },
    Ignored,
}


/// The presentation model of the whole interface.
pub struct App {
    pub agent_state: AgentState,
    /// Operating mode shown in the chat title.
    pub agent_mode: AgentMode,
    pub messages: Vec<ChatMessage>,
    /// In-progress streamed answer, replaced by the final message.
    pub streaming: String,
    pub files: Vec<FileEntry>,
    pub context_lines: Vec<String>,
    pub input: String,
    /// Scroll offset of the focused panel, counted from the bottom.
    pub scroll: u16,
    pub explorer_visible: bool,
    pub context_visible: bool,
    pub permission: Option<PermissionPrompt>,
    pub focus: Focus,
    pub tab: Tab,
    /// Directory currently listed, relative to the project root.
    pub current_dir: String,
    pub explorer_index: usize,
    pub file_preview: Option<FilePreview>,
    /// Edit mode of the Files tab: the preview becomes a buffer.
    pub editing: bool,
    pub edit_lines: Vec<String>,
    /// Cursor, in characters.
    pub edit_row: usize,
    pub edit_col: usize,
    /// Snapshot of the file when it was opened: what a save replaces.
    pub edit_origin: String,
    pub edit_trailing_newline: bool,
    pub edit_dirty: bool,
    pub diff_lines: Vec<String>,
    pub git_lines: Vec<String>,
    pub terminal_lines: Vec<String>,
    pub tasks: Vec<TaskItem>,
    /// Cursor over the tasks list.
    pub tasks_index: usize,
    /// Bottom terminal panel; closed it collapses to a one-line strip.
    pub bottom_open: bool,
    /// The command palette, while open.
    pub palette: Option<Palette>,
}

/// `new` is `old` with one more message, of that role and text, at the
/// end.
pub open spec fn appended(old: Seq<ChatMessage>, new: Seq<ChatMessage>, role: MessageRole, text: Seq<char>) -> bool {
    &&& new.len() == old.len() + 1
    &&& new.take(old.len() as int) == old
    &&& new.last().role == role
    &&& new.last().text@ == text
}

/// Index of the last pending step, if any.
pub open spec fn last_pending(ts: Seq<TaskItem>) -> Option<int>
    decreases ts.len(),
{
    if ts.len() == 0 {
        None
    } else if ts.last().state == TaskState::Pending {
        Some(ts.len() - 1)
    } else {
        last_pending(ts.drop_last())
    }
}

/// The steps after the last pending one is marked done or failed.
pub open spec fn finished(ts: Seq<TaskItem>, success: bool) -> Seq<TaskItem> {
    match last_pending(ts) {
        Some(i) => ts.update(i, TaskItem {
            state: if success { TaskState::Done } else { TaskState::Failed },
            ..ts[i]
        }),
        None => ts,
    }
}

/// Interface text of a key (for the model's language tables).
pub open spec fn tr(i18n: I18n, key: Seq<char>) -> Seq<char> {
    i18n.resolve(key)
}

/// Interface text of a key with its placeholders filled.
pub open spec fn trf(i18n: I18n, key: Seq<char>, args: Seq<(Seq<char>, Seq<char>)>) -> Seq<char> {
    crate::i18n::fill(i18n.resolve(key), args)
}

/// How one event changes the model: `new` is `old` with the event folded
/// in.
pub open spec fn applied(old: App, new: App, i18n: I18n, e: DarbEvent) -> bool {
    match e {
        DarbEvent::AgentStarted { task } => {
            &&& new == (App { agent_state: AgentState::Analyzing, tasks: new.tasks, messages: new.messages, scroll: 0, ..old })
            &&& new.tasks@.len() == 0
            &&& appended(old.messages@, new.messages@, MessageRole::System, "◈ "@ + task@)
        },
        DarbEvent::AgentStateChanged { to, .. } => new == (App { agent_state: to, ..old }),
        DarbEvent::ToolRequested { tool, target } => {
            &&& new == (App { tasks: new.tasks, messages: new.messages, scroll: 0, ..old })
            &&& appended(old.messages@, new.messages@, MessageRole::System, "◉ "@ + trf(i18n, "agent.tool_requested"@, seq![("tool"@, tool@), ("target"@, target@)]))
            &&& new.tasks@.len() == old.tasks@.len() + 1
            &&& new.tasks@.take(old.tasks@.len() as int) == old.tasks@
            &&& new.tasks@.last().tool@ == tool@
            &&& new.tasks@.last().target@ == target@
            &&& new.tasks@.last().state == TaskState::Pending
            &&& !new.tasks@.last().expanded
        },
        DarbEvent::ToolCompleted { tool, success } => {
            &&& new.tasks@ == finished(old.tasks@, success)
            &&& if success {
                new == (App { tasks: new.tasks, ..old })
            } else {
                &&& new == (App { tasks: new.tasks, messages: new.messages, scroll: 0, ..old })
                &&& appended(old.messages@, new.messages@, MessageRole::System, "✗ "@ + trf(i18n, "agent.tool_failed"@, seq![("tool"@, tool@)]))
            }
        },
        DarbEvent::PermissionRequested { tool, target } => {
            &&& new == (App { permission: new.permission, ..old })
            &&& new.permission matches Some(p) && p.tool@ == tool@ && p.target@ == target@
        },
        DarbEvent::PermissionResolved { allowed, .. } => {
            &&& new.permission is None
            &&& if allowed {
                new == (App { permission: None, ..old })
            } else {
                &&& new == (App { permission: None, messages: new.messages, scroll: 0, ..old })
                &&& appended(old.messages@, new.messages@, MessageRole::System, "⌀ "@ + tr(i18n, "agent.denied_by_user"@))
            }
        },
        DarbEvent::ContextReady { files } => {
            &&& new == (App { context_lines: new.context_lines, ..old })
            &&& new.context_lines@.len() == 1
            &&& new.context_lines@[0]@ == trf(i18n, "context.files"@, seq![("count"@, crate::text::decimal(files as nat))])
        },
        DarbEvent::AgentFinished { summary } => {
            &&& new == (App { streaming: new.streaming, messages: new.messages, scroll: 0, ..old })
            &&& new.streaming@.len() == 0
            &&& appended(old.messages@, new.messages@, MessageRole::Agent, summary@)
        },
        DarbEvent::ProviderDelta { text } => {
            &&& new == (App { streaming: new.streaming, scroll: 0, ..old })
            &&& new.streaming@ == old.streaming@ + text@
        },
        DarbEvent::ErrorOccurred { message } => {
            &&& new == (App { messages: new.messages, scroll: 0, ..old })
            &&& appended(old.messages@, new.messages@, MessageRole::System, "⚠ "@ + trf(i18n, "agent.error"@, seq![("message"@, message@)]))
        },
        DarbEvent::ConfigReloaded => {
            &&& new == (App { messages: new.messages, scroll: 0, ..old })
            &&& appended(old.messages@, new.messages@, MessageRole::System, "✓ "@ + tr(i18n, "app.config_reloaded"@))
        },
        DarbEvent::ContextRequested { .. } => new == old,
        DarbEvent::ReviewRequested { .. } => new == old,
    }
}

impl App {
    /// The state of a new interface: idle, empty, explorer, context panel
    /// and bottom terminal shown, focus on the command line, chat tab.
    pub open spec fn fresh(&self) -> bool {
        &&& self.agent_state == AgentState::Idle
        &&& self.agent_mode == AgentMode::Auto
        &&& self.messages@.len() == 0
        &&& self.streaming@.len() == 0
        &&& self.files@.len() == 0
        &&& self.context_lines@.len() == 0
        &&& self.input@.len() == 0
        &&& self.scroll == 0
        &&& self.explorer_visible
        &&& self.context_visible
        &&& self.permission is None
        &&& self.focus == Focus::Input
        &&& self.tab == Tab::Chat
        &&& self.current_dir@.len() == 0
        &&& self.explorer_index == 0
        &&& self.file_preview is None
        &&& !self.editing
        &&& self.edit_lines@.len() == 0
        &&& self.edit_row == 0
        &&& self.edit_col == 0
        &&& self.edit_origin@.len() == 0
        &&& !self.edit_trailing_newline
        &&& !self.edit_dirty
        &&& self.diff_lines@.len() == 0
        &&& self.git_lines@.len() == 0
        &&& self.terminal_lines@.len() == 0
        &&& self.tasks@.len() == 0
        &&& self.tasks_index == 0
        &&& self.bottom_open
        &&& self.palette is None
    }

    /// A new interface.
    pub fn new() -> (app: Self)
        ensures
            app.fresh(),
            app.edit_wf(),
    {
        App {
            agent_state: AgentState::Idle,
            agent_mode: AgentMode::Auto,
            messages: Vec::new(),
            streaming: String::new(),
            files: Vec::new(),
            context_lines: Vec::new(),
            input: String::new(),
            scroll: 0,
            explorer_visible: true,
            context_visible: true,
            permission: None,
            focus: Focus::Input,
            tab: Tab::Chat,
            current_dir: String::new(),
            explorer_index: 0,
            file_preview: None,
            editing: false,
            edit_lines: Vec::new(),
            edit_row: 0,
            edit_col: 0,
            edit_origin: String::new(),
            edit_trailing_newline: false,
            edit_dirty: false,
            diff_lines: Vec::new(),
            git_lines: Vec::new(),
            terminal_lines: Vec::new(),
            tasks: Vec::new(),
            tasks_index: 0,
            bottom_open: true,
            palette: None,
        }
    }

    /// Add a message at the end of the chat and scroll to it.
    pub fn push(&mut self, role: MessageRole, text: String)
        ensures
            *final(self) == (App { messages: final(self).messages, scroll: 0, ..*old(self) }),
            appended(old(self).messages@, final(self).messages@, role, text@),
    {
        let ghost t = text@;
        self.messages.push(ChatMessage { role, text });
        self.scroll = 0;
        proof {
            assert(self.messages@.take(old(self).messages@.len() as int) == old(self).messages@);
        }
    }

    fn finish_last_task(&mut self, success: bool)
        ensures
            *final(self) == (App { tasks: final(self).tasks, ..*old(self) }),
            final(self).tasks@ == finished(old(self).tasks@, success),
    {
        let mut i = self.tasks.len();
        proof {
            assert(self.tasks@.take(i as int) == self.tasks@);
        }
        while i > 0
            invariant
                i <= self.tasks@.len(),
                *self == *old(self),
                last_pending(self.tasks@) == last_pending(self.tasks@.take(i as int)),
            decreases i,
        {
            proof {
                assert(self.tasks@.take(i as int).drop_last() == self.tasks@.take(i - 1));
            }
            if self.tasks[i - 1].state == TaskState::Pending {
                let t = &self.tasks[i - 1];
                let task = TaskItem {
                    tool: t.tool.clone(),
                    target: t.target.clone(),
                    state: if success {
                        TaskState::Done
                    } else {
                        TaskState::Failed
                    },
                    expanded: t.expanded,
                };
                self.tasks.set(i - 1, task);
                return;
            }
            i = i - 1;
        }
        proof {
            assert(self.tasks@.take(0) == Seq::<TaskItem>::empty());
        }
    }

    /// Fold one domain event into display state.
    pub fn apply_event(&mut self, event: &DarbEvent, i18n: &I18n)
        ensures
            applied(*old(self), *final(self), *i18n, *event),
    {
        match event {
            DarbEvent::AgentStarted { task } => self.on_started(task),
            DarbEvent::AgentStateChanged { to, .. } => {
                self.agent_state = *to;
            },
            DarbEvent::ToolRequested { tool, target } => self.on_tool_requested(tool, target, i18n),
            DarbEvent::ToolCompleted { tool, success } => self.on_tool_completed(tool, *success, i18n),
            DarbEvent::PermissionRequested { tool, target } => {
                self.ask_permission(tool.as_str(), target.as_str());
            },
            DarbEvent::PermissionResolved { tool, allowed } => self.on_permission_resolved(tool, *allowed, i18n),
            DarbEvent::ContextReady { files } => self.on_context_ready(*files, i18n),
            DarbEvent::AgentFinished { summary } => self.on_finished(summary),
            DarbEvent::ProviderDelta { text } => {
                self.streaming.append(text.as_str());
                self.scroll = 0;
            },
            DarbEvent::ErrorOccurred { message } => self.on_error(message, i18n),
            DarbEvent::ConfigReloaded => self.on_config_reloaded(i18n),
            DarbEvent::ContextRequested { .. } => {},
            DarbEvent::ReviewRequested { .. } => {},
        }
    }

    fn on_started(&mut self, task: &String)
        ensures
            applied(*old(self), *final(self), vstd::pervasive::arbitrary::<I18n>(), DarbEvent::AgentStarted { task: *task }),
    {
        self.agent_state = AgentState::Analyzing;
        self.tasks.clear();
        let text = concat("◈ ", task.as_str());
        self.push(MessageRole::System, text);
    }

    fn on_tool_requested(&mut self, tool: &String, target: &String, i18n: &I18n)
        ensures
            applied(*old(self), *final(self), *i18n, DarbEvent::ToolRequested { tool: *tool, target: *target }),
    {
        let args: Vec<(&str, &str)> = vec![("tool", tool.as_str()), ("target", target.as_str())];
        proof {
            assert(crate::i18n::arg_views(args@) =~= seq![("tool"@, tool@), ("target"@, target@)]);
        }
        let label = i18n.format("agent.tool_requested", args.as_slice());
        let text = concat("◉ ", label.as_str());
        self.push(MessageRole::System, text);
        let ghost before = self.tasks@;
        self.tasks.push(
            TaskItem { tool: tool.clone(), target: target.clone(), state: TaskState::Pending, expanded: false },
        );
        proof {
            assert(self.tasks@.take(before.len() as int) == before);
        }
    }

    fn on_tool_completed(&mut self, tool: &String, success: bool, i18n: &I18n)
        ensures
            applied(*old(self), *final(self), *i18n, DarbEvent::ToolCompleted { tool: *tool, success }),
    {
        if !success {
            let args: Vec<(&str, &str)> = vec![("tool", tool.as_str())];
            proof {
                assert(crate::i18n::arg_views(args@) =~= seq![("tool"@, tool@)]);
            }
            let label = i18n.format("agent.tool_failed", args.as_slice());
            let text = concat("✗ ", label.as_str());
            self.push(MessageRole::System, text);
        }
        self.finish_last_task(success);
    }

    fn on_permission_resolved(&mut self, tool: &String, allowed: bool, i18n: &I18n)
        ensures
            applied(*old(self), *final(self), *i18n, DarbEvent::PermissionResolved { tool: *tool, allowed }),
    {
        self.permission = None;
        if !allowed {
            let text = concat("⌀ ", i18n.text("agent.denied_by_user"));
            self.push(MessageRole::System, text);
        }
    }

    fn on_context_ready(&mut self, files: usize, i18n: &I18n)
        ensures
            applied(*old(self), *final(self), *i18n, DarbEvent::ContextReady { files }),
    {
        let count = decimal_string(files as u64);
        let args: Vec<(&str, &str)> = vec![("count", count.as_str())];
        proof {
            assert(crate::i18n::arg_views(args@) =~= seq![("count"@, crate::text::decimal(files as nat))]);
        }
        let line = i18n.format("context.files", args.as_slice());
        self.context_lines = vec![line];
    }

    fn on_finished(&mut self, summary: &String)
        ensures
            applied(*old(self), *final(self), vstd::pervasive::arbitrary::<I18n>(), DarbEvent::AgentFinished { summary: *summary }),
    {
        self.streaming = String::new();
        self.push(MessageRole::Agent, summary.clone());
    }

    fn on_error(&mut self, message: &String, i18n: &I18n)
        ensures
            applied(*old(self), *final(self), *i18n, DarbEvent::ErrorOccurred { message: *message }),
    {
        let args: Vec<(&str, &str)> = vec![("message", message.as_str())];
        proof {
            assert(crate::i18n::arg_views(args@) =~= seq![("message"@, message@)]);
        }
        let label = i18n.format("agent.error", args.as_slice());
        let text = concat("⚠ ", label.as_str());
        self.push(MessageRole::System, text);
    }

    fn on_config_reloaded(&mut self, i18n: &I18n)
        ensures
            applied(*old(self), *final(self), *i18n, DarbEvent::ConfigReloaded),
    {
        let text = concat("✓ ", i18n.text("app.config_reloaded"));
        self.push(MessageRole::System, text);
    }

    /// Drop the conversation and the streamed answer.
    pub fn clear_messages(&mut self)
        ensures
            *final(self) == (App { messages: final(self).messages, streaming: final(self).streaming, scroll: 0, ..*old(self) }),
            final(self).messages@.len() == 0,
            final(self).streaming@.len() == 0,
    {
        self.messages.clear();
        self.streaming = String::new();
        self.scroll = 0;
    }

    /// Explorer rows: the entries, plus a `..` row below the root.
    pub open spec fn rows_spec(&self) -> nat {
        self.files@.len() + if self.current_dir@.len() > 0 { 1nat } else { 0nat }
    }

    /// The highlight clamped to the last row (or the first when empty).
    pub open spec fn clamped_index(&self, index: usize) -> usize {
        if self.rows_spec() == 0 {
            0
        } else if index < self.rows_spec() {
            index
        } else {
            (self.rows_spec() - 1) as usize
        }
    }

    /// Replace the explorer entries, keeping the highlight on a row.
    pub fn set_files(&mut self, files: Vec<FileEntry>)
        ensures
            *final(self) == (App { files: files, explorer_index: final(self).explorer_index, ..*old(self) }),
            final(self).explorer_index == final(self).clamped_index(old(self).explorer_index),
    {
        self.files = files;
        self.clamp_explorer();
    }

    /// List another directory, highlighting its first row.
    pub fn set_current_dir(&mut self, dir: String)
        ensures
            *final(self) == (App { current_dir: dir, explorer_index: 0, ..*old(self) }),
    {
        self.current_dir = dir;
        self.explorer_index = 0;
        self.clamp_explorer();
    }

    /// Replace the context panel lines.
    pub fn set_context(&mut self, lines: Vec<String>)
        ensures
            *final(self) == (App { context_lines: lines, ..*old(self) }),
    {
        self.context_lines = lines;
    }

    /// Show a diff, one row per line.
    pub fn set_diff(&mut self, text: &str)
        ensures
            *final(self) == (App { diff_lines: final(self).diff_lines, scroll: 0, ..*old(self) }),
            crate::text::string_views(final(self).diff_lines@) == crate::text::lines_of(text@),
    {
        self.diff_lines = lines(text);
        self.scroll = 0;
    }

    /// Show a git status, one row per line.
    pub fn set_git(&mut self, text: &str)
        ensures
            *final(self) == (App { git_lines: final(self).git_lines, scroll: 0, ..*old(self) }),
            crate::text::string_views(final(self).git_lines@) == crate::text::lines_of(text@),
    {
        self.git_lines = lines(text);
        self.scroll = 0;
    }

    /// Append captured command output to the terminal panel.
    pub fn push_terminal(&mut self, line: String)
        ensures
            *final(self) == (App { terminal_lines: final(self).terminal_lines, scroll: 0, ..*old(self) }),
            final(self).terminal_lines@ == old(self).terminal_lines@.push(line),
    {
        self.terminal_lines.push(line);
        self.scroll = 0;
    }

    /// Show a tab.
    pub fn set_tab(&mut self, tab: Tab)
        ensures
            *final(self) == (App { tab: tab, scroll: 0, ..*old(self) }),
    {
        self.tab = tab;
        self.scroll = 0;
    }

    /// Ask the user for a permission (a modal question).
    pub fn ask_permission(&mut self, tool: &str, target: &str)
        ensures
            *final(self) == (App { permission: final(self).permission, ..*old(self) }),
            final(self).permission matches Some(p) && p.tool@ == tool@ && p.target@ == target@,
    {
        self.permission = Some(PermissionPrompt { tool: owned(tool), target: owned(target) });
    }

    /// Show or hide the explorer.
    pub fn toggle_explorer(&mut self)
        ensures
            *final(self) == (App { explorer_visible: !old(self).explorer_visible, ..*old(self) }),
    {
        self.explorer_visible = !self.explorer_visible;
    }

    /// Leave edit mode, or enter it when a file is open on the Files tab.
    pub fn toggle_edit(&mut self)
        ensures
            *final(self) == (App {
                editing: if old(self).editing {
                    false
                } else {
                    old(self).tab == Tab::Files && old(self).file_preview is Some
                },
                ..*old(self)
            }),
    {
        if self.editing {
            self.editing = false;
        } else if self.tab == Tab::Files && self.file_preview.is_some() {
            self.editing = true;
        }
    }

    /// Whether the workspace (the active tab) has the focus.
    pub fn workspace_focused(&self) -> (b: bool)
        ensures
            b == (self.focus == Focus::Workspace),
    {
        self.focus == Focus::Workspace
    }

    /// Whether the explorer shows a `..` row (below the project root).
    pub fn has_parent_entry(&self) -> (b: bool)
        ensures
            b == (self.current_dir@.len() > 0),
    {
        chars_of(self.current_dir.as_str()).len() > 0
    }

    /// Number of explorer rows, the `..` row included.
    pub fn explorer_rows(&self) -> (n: usize)
        requires
            self.files@.len() < usize::MAX,
        ensures
            n == self.rows_spec(),
    {
        self.files.len() + if self.has_parent_entry() {
            1
        } else {
            0
        }
    }

    fn clamp_explorer(&mut self)
        ensures
            *final(self) == (App { explorer_index: old(self).clamped_index(old(self).explorer_index), ..*old(self) }),
    {
        let rows = self.files.len() as u128 + if self.has_parent_entry() {
            1
        } else {
            0
        };
        if rows == 0 {
            self.explorer_index = 0;
        } else if (self.explorer_index as u128) >= rows {
            self.explorer_index = (rows - 1) as usize;
        }
    }
}

} // verus!
