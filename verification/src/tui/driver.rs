//! The interactive loop's decisions: what an agent event or a key outcome
//! asks of the application, and how tool results fill the panels. The
//! application performs the work (terminal, disk, provider) and hands the
//! results back here.
use vstd::prelude::*;

use crate::events::{AgentState, DarbEvent};
use crate::i18n::{arg_views, fill, I18n, Locale};
use crate::permissions::ToolRequest;
use crate::text::{
    chars_of, concat, decimal, decimal_string, lines, lines_of, owned, str_eq, string_of,
    trim_end_by, trim_end_chars, CharClass,
};
use crate::tools::registry::ToolResult;
use crate::tui::app::{App, FileEntry, Focus, KeyOutcome, MessageRole, Tab, TaskItem, TaskState};
use crate::tui::palette::Command;

verus! {

/// The non-empty lines, in order.
pub open spec fn nonempty(ls: Seq<Seq<char>>) -> Seq<Seq<char>>
    decreases ls.len(),
{
    if ls.len() == 0 {
        Seq::empty()
    } else if ls.last().len() == 0 {
        nonempty(ls.drop_last())
    } else {
        nonempty(ls.drop_last()).push(ls.last())
    }
}

/// Whether `e` is the explorer entry of a listing line: a trailing `/`
/// marks a directory, and the name is the line without trailing `/`s.
pub open spec fn entry_of_line(e: FileEntry, line: Seq<char>) -> bool {
    &&& e.name@ == trim_end_by(line, CharClass::Slash)
    &&& e.is_dir == (line.len() > 0 && line.last() == '/')
}

/// Explorer entries out of a directory listing: one per non-empty line.
pub fn listing_entries(output: &str) -> (r: Vec<FileEntry>)
    ensures
        r@.len() == nonempty(lines_of(output@)).len(),
        forall|i: int| 0 <= i < r@.len() ==> entry_of_line(#[trigger] r@[i], nonempty(lines_of(output@))[i]),
{
    let ls = lines(output);
    let ghost all = lines_of(output@);
    let mut r: Vec<FileEntry> = Vec::new();
    let mut i: usize = 0;
    while i < ls.len()
        invariant
            i <= ls@.len(),
            crate::text::string_views(ls@) == all,
            r@.len() == nonempty(all.take(i as int)).len(),
            forall|j: int| 0 <= j < r@.len() ==> entry_of_line(#[trigger] r@[j], nonempty(all.take(i as int))[j]),
        decreases ls.len() - i,
    {
        proof {
            let t = all.take(i + 1);
            assert(t.drop_last() == all.take(i as int));
            assert(t.last() == ls@[i as int]@);
        }
        let v = chars_of(ls[i].as_str());
        if v.len() > 0 {
            let is_dir = v[v.len() - 1] == '/';
            let name = string_of(&trim_end_chars(&v, CharClass::Slash));
            r.push(FileEntry { name, is_dir });
        }
        i = i + 1;
    }
    proof {
        assert(all.take(all.len() as int) == all);
    }
    r
}

/// Position of the last `/`, if any.
pub open spec fn last_slash(s: Seq<char>) -> Option<int>
    decreases s.len(),
{
    if s.len() == 0 {
        None
    } else if s.last() == '/' {
        Some(s.len() - 1)
    } else {
        last_slash(s.drop_last())
    }
}

/// The directory above `dir`: what comes before its last `/`, or the
/// project root when it has none.
pub open spec fn parent_of(dir: Seq<char>) -> Seq<char> {
    match last_slash(dir) {
        Some(i) => dir.take(i),
        None => Seq::empty(),
    }
}

/// The directory above `dir` (the explorer's `..`).
pub fn parent_dir(dir: &str) -> (r: String)
    ensures
        r@ == parent_of(dir@),
{
    let v = chars_of(dir);
    let mut k: usize = v.len();
    proof {
        assert(v@.take(v@.len() as int) == v@);
    }
    while k > 0
        invariant
            k <= v@.len(),
            v@ == dir@,
            last_slash(v@) == last_slash(v@.take(k as int)),
        decreases k,
    {
        proof {
            assert(v@.take(k as int).drop_last() == v@.take(k - 1));
        }
        if v[k - 1] == '/' {
            let head = crate::text::slice_to_vec(&v, 0, k - 1);
            proof {
                assert(last_slash(v@.take(k as int)) == Some(k - 1));
                assert(head@ == v@.take(k - 1));
            }
            return string_of(&head);
        }
        k = k - 1;
    }
    proof {
        assert(v@.take(0) =~= Seq::<char>::empty());
    }
    String::new()
}

/// The role a stored message was recorded under.
pub open spec fn role_of(role: Seq<char>) -> Option<MessageRole> {
    if role == "user"@ {
        Some(MessageRole::User)
    } else if role == "agent"@ {
        Some(MessageRole::Agent)
    } else if role == "system"@ {
        Some(MessageRole::System)
    } else {
        None
    }
}

/// The role a stored message was recorded under; none for an unknown
/// name.
pub fn parse_role(role: &str) -> (r: Option<MessageRole>)
    ensures
        r == role_of(role@),
{
    if str_eq(role, "user") {
        Some(MessageRole::User)
    } else if str_eq(role, "agent") {
        Some(MessageRole::Agent)
    } else if str_eq(role, "system") {
        Some(MessageRole::System)
    } else {
        None
    }
}

/// The lower-case name of an agent state, as a run's outcome is stored.
pub open spec fn state_label_spec(s: AgentState) -> Seq<char> {
    match s {
        AgentState::Idle => "idle"@,
        AgentState::Analyzing => "analyzing"@,
        AgentState::Planning => "planning"@,
        AgentState::WaitingProvider => "waitingprovider"@,
        AgentState::WaitingPermission => "waitingpermission"@,
        AgentState::Executing => "executing"@,
        AgentState::Reviewing => "reviewing"@,
        AgentState::Retrying => "retrying"@,
        AgentState::Completed => "completed"@,
        AgentState::Failed => "failed"@,
        AgentState::Cancelled => "cancelled"@,
    }
}

/// The lower-case name of an agent state.
pub fn state_label(s: AgentState) -> (r: &'static str)
    ensures
        r@ == state_label_spec(s),
{
    match s {
        AgentState::Idle => "idle",
        AgentState::Analyzing => "analyzing",
        AgentState::Planning => "planning",
        AgentState::WaitingProvider => "waitingprovider",
        AgentState::WaitingPermission => "waitingpermission",
        AgentState::Executing => "executing",
        AgentState::Reviewing => "reviewing",
        AgentState::Retrying => "retrying",
        AgentState::Completed => "completed",
        AgentState::Failed => "failed",
        AgentState::Cancelled => "cancelled",
    }
}

/// The lines a terminal command leaves in the terminal panel: the command
/// echoed after `$ `, its output without trailing whitespace line by
/// line, the error after `✗ ` when it failed, and its exit code.
pub open spec fn report_lines(
    target: Seq<char>,
    output: Seq<char>,
    success: bool,
    error: Option<String>,
    exit_code: Option<Seq<char>>,
    i18n: I18n,
) -> Seq<Seq<char>> {
    let out = trim_end_by(output, CharClass::Whitespace);
    seq!["$ "@ + target] + (if out.len() == 0 {
        Seq::empty()
    } else {
        lines_of(out)
    }) + (if !success && error is Some {
        seq!["✗ "@ + error->Some_0@]
    } else {
        Seq::empty()
    }) + match exit_code {
        Some(code) => seq![fill(i18n.resolve("terminal.exit_code"@), seq![("code"@, code)])],
        None => Seq::empty(),
    }
}

fn push_all(out: &mut Vec<String>, more: Vec<String>)
    ensures
        final(out)@ == old(out)@ + more@,
{
    let ghost start = out@;
    let mut i: usize = 0;
    while i < more.len()
        invariant
            i <= more@.len(),
            out@ == start + more@.take(i as int),
        decreases more.len() - i,
    {
        out.push(more[i].clone());
        proof {
            assert(more@.take(i + 1) == more@.take(i as int).push(more@[i as int]));
        }
        i = i + 1;
    }
    proof {
        assert(more@.take(more@.len() as int) == more@);
    }
}

/// The terminal panel lines for a command and its result.
pub fn terminal_report(target: &str, result: &ToolResult, i18n: &I18n) -> (r: Vec<String>)
    ensures
        crate::text::string_views(r@) == report_lines(
            target@,
            result.output@,
            result.success,
            result.error,
            if result.metadata@.contains_key("exit_code"@) {
                Some(result.metadata@["exit_code"@])
            } else {
                None
            },
            *i18n,
        ),
{
    proof {
        reveal_strlit("$ ");
        reveal_strlit("✗ ");
        reveal_strlit("exit_code");
        reveal_strlit("code");
        reveal_strlit("terminal.exit_code");
    }
    let ghost code_view: Option<Seq<char>> = if result.metadata@.contains_key("exit_code"@) {
        Some(result.metadata@["exit_code"@])
    } else {
        None
    };
    let ghost out_view = trim_end_by(result.output@, CharClass::Whitespace);
    let mut r: Vec<String> = Vec::new();
    r.push(concat("$ ", target));
    let ghost mut g: Seq<Seq<char>> = seq!["$ "@ + target@];
    proof {
        assert(crate::text::string_views(r@) =~= g);
    }
    let v = chars_of(result.output.as_str());
    let out = trim_end_chars(&v, CharClass::Whitespace);
    if out.len() > 0 {
        let text = string_of(&out);
        let ls = lines(text.as_str());
        let ghost before = r@;
        push_all(&mut r, ls);
        proof {
            assert(crate::text::string_views(r@) =~= crate::text::string_views(before) + crate::text::string_views(ls@));
            g = g + lines_of(out_view);
        }
    }
    proof {
        assert(crate::text::string_views(r@) =~= seq!["$ "@ + target@] + (if out_view.len() == 0 {
            Seq::<Seq<char>>::empty()
        } else {
            lines_of(out_view)
        }));
        g = crate::text::string_views(r@);
    }
    if !result.success {
        match &result.error {
            Some(e) => {
                r.push(concat("✗ ", e.as_str()));
            },
            None => {},
        }
    }
    proof {
        assert(crate::text::string_views(r@) =~= g + (if !result.success && result.error is Some {
            seq!["✗ "@ + result.error->Some_0@]
        } else {
            Seq::<Seq<char>>::empty()
        }));
        g = crate::text::string_views(r@);
    }
    match result.metadata.get("exit_code") {
        Some(code) => {
            let args = [("code", code.as_str())];
            let line = i18n.format("terminal.exit_code", &args);
            proof {
                assert(arg_views(args@) =~= seq![("code"@, code@)]);
            }
            r.push(line);
        },
        None => {},
    }
    proof {
        assert(crate::text::string_views(r@) =~= g + match code_view {
            Some(c) => seq![fill(i18n.resolve("terminal.exit_code"@), seq![("code"@, c)])],
            None => Seq::<Seq<char>>::empty(),
        });
    }
    r
}

/// The context panel: entries listed, model, profile and tool calls of
/// the current run.
pub fn context_lines(i18n: &I18n, entries: usize, model: &str, profile: &str, tools: u32) -> (r: Vec<String>)
    ensures
        crate::text::string_views(r@) == seq![
            fill(i18n.resolve("context.entries"@), seq![("count"@, decimal(entries as nat))]),
            fill(i18n.resolve("context.model"@), seq![("model"@, model@)]),
            fill(i18n.resolve("app.profile"@), seq![("name"@, profile@)]),
            fill(i18n.resolve("app.tools"@), seq![("count"@, decimal(tools as nat))]),
        ],
{
    let count = decimal_string(entries as u64);
    let calls = decimal_string(tools as u64);
    let a1 = [("count", count.as_str())];
    let a2 = [("model", model)];
    let a3 = [("name", profile)];
    let a4 = [("count", calls.as_str())];
    proof {
        assert(arg_views(a1@) =~= seq![("count"@, decimal(entries as nat))]);
        assert(arg_views(a2@) =~= seq![("model"@, model@)]);
        assert(arg_views(a3@) =~= seq![("name"@, profile@)]);
        assert(arg_views(a4@) =~= seq![("count"@, decimal(tools as nat))]);
    }
    let r = vec![
        i18n.format("context.entries", &a1),
        i18n.format("context.model", &a2),
        i18n.format("app.profile", &a3),
        i18n.format("app.tools", &a4),
    ];
    proof {
        assert(crate::text::string_views(r@) =~= seq![
            fill(i18n.resolve("context.entries"@), seq![("count"@, decimal(entries as nat))]),
            fill(i18n.resolve("context.model"@), seq![("model"@, model@)]),
            fill(i18n.resolve("app.profile"@), seq![("name"@, profile@)]),
            fill(i18n.resolve("app.tools"@), seq![("count"@, decimal(tools as nat))]),
        ]);
    }
    r
}

/// What a panel shows for a tool result: its output, or its error when
/// it failed (nothing when there is none).
pub open spec fn shown_spec(result: ToolResult) -> Seq<char> {
    if result.success {
        result.output@
    } else {
        match result.error {
            Some(e) => e@,
            None => Seq::empty(),
        }
    }
}

/// What a panel shows for a tool result.
pub fn shown_text(result: &ToolResult) -> (r: String)
    ensures
        r@ == shown_spec(*result),
{
    if result.success {
        result.output.clone()
    } else {
        match &result.error {
            Some(e) => e.clone(),
            None => String::new(),
        }
    }
}

/// The other interface language.
pub open spec fn toggled(l: Locale) -> Locale {
    match l {
        Locale::Pt => Locale::En,
        Locale::En => Locale::Pt,
    }
}

/// The other interface language.
pub fn toggle_locale(l: Locale) -> (r: Locale)
    ensures
        r == toggled(l),
{
    match l {
        Locale::Pt => Locale::En,
        Locale::En => Locale::Pt,
    }
}

/// The chat notice of a language change: a globe and the language code,
/// readable in either language.
pub fn language_notice(l: Locale) -> (r: String)
    ensures
        r@ == "🌐 "@ + crate::i18n::locale_code(l),
{
    proof {
        reveal_strlit("🌐 ");
    }
    concat("🌐 ", l.as_str())
}

/// What the interactive loop keeps between agent events.
pub struct LoopState {
    /// An agent run is in progress.
    pub busy: bool,
    /// Tool calls finished in the current run.
    pub tool_count: u32,
    /// The last tool requested: its name and target.
    pub last_request: Option<(String, String)>,
}

/// Memory writes and refreshes an agent event asks for.
pub struct FollowUp {
    /// Record a tool call: tool, target, success.
    pub tool_call: Option<(String, String, bool)>,
    /// Record a finished run: its summary and the name of its outcome.
    pub finished: Option<(String, String)>,
    /// Refresh the file and git panels (the run may have edited files).
    pub refresh: bool,
}

/// A confirmation waiting for the user's answer.
pub enum Waiting {
    /// The agent asked, and waits for the answer.
    Agent,
    /// A command typed in the terminal panel.
    Terminal(ToolRequest),
}

/// How a submitted task is taken.
#[derive(Debug, Clone, Copy, PartialEq, Eq, Structural)]
pub enum Start {
    /// The agent starts on it.
    Run,
    /// A run is in progress: the user is told to wait.
    Busy,
    /// No provider is available: the user is told so.
    Offline,
}

/// What the application does for a key outcome.
pub enum Step {
    Quit,
    /// Ask the running agent to stop, and say so.
    Cancel,
    /// Show and record the task, then start it or say why not.
    Submit { task: String, start: Start },
    /// Answer the agent's question.
    Answer(bool),
    /// Grant the terminal command once and run it again.
    RunApproved(ToolRequest),
    /// Tell the terminal panel that the command was refused.
    Refused(String),
    /// Perform a palette command.
    Perform(Command),
    /// Open an explorer entry.
    Open { path: String, is_dir: bool },
    /// Go to the parent directory.
    GoUp,
    /// Run a terminal-panel command through the permissions.
    Terminal(String),
    /// Write the edit buffer back.
    Save { path: String, original: String, content: String },
    Nothing,
}

impl LoopState {
    /// Idle, nothing counted, nothing requested.
    pub fn new() -> (s: Self)
        ensures
            !s.busy,
            s.tool_count == 0,
            s.last_request is None,
    {
        LoopState { busy: false, tool_count: 0, last_request: None }
    }

    /// Fold one agent event, seen while the interface shows `current` as
    /// the agent's state. A start marks the loop busy and resets the count;
    /// a request is remembered; a completion is counted and recorded with
    /// the last requested target; the end of a run frees the loop, is
    /// recorded with the name of `current`, and refreshes the panels.
    pub fn on_event(&mut self, event: &DarbEvent, current: AgentState) -> (f: FollowUp)
        requires
            event is ToolCompleted ==> old(self).tool_count < u32::MAX,
        ensures
            match *event {
                DarbEvent::AgentStarted { .. } => {
                    &&& final(self).busy && final(self).tool_count == 0
                    &&& final(self).last_request == old(self).last_request
                    &&& f.tool_call is None && f.finished is None && !f.refresh
                },
                DarbEvent::ToolRequested { tool, target } => {
                    &&& final(self).busy == old(self).busy && final(self).tool_count == old(self).tool_count
                    &&& final(self).last_request == Some((tool, target))
                    &&& f.tool_call is None && f.finished is None && !f.refresh
                },
                DarbEvent::ToolCompleted { tool, success } => {
                    &&& final(self).busy == old(self).busy
                    &&& final(self).tool_count == old(self).tool_count + 1
                    &&& final(self).last_request == old(self).last_request
                    &&& f.tool_call == match old(self).last_request {
                        Some(req) => Some((tool, req.1, success)),
                        None => None,
                    }
                    &&& f.finished is None && !f.refresh
                },
                DarbEvent::AgentFinished { summary } => {
                    &&& !final(self).busy && final(self).tool_count == old(self).tool_count
                    &&& final(self).last_request == old(self).last_request
                    &&& f.tool_call is None && f.refresh
                    &&& f.finished matches Some(rec) && rec.0 == summary && rec.1@ == state_label_spec(current)
                },
                _ => {
                    &&& final(self).busy == old(self).busy && final(self).tool_count == old(self).tool_count
                    &&& final(self).last_request == old(self).last_request
                    &&& f.tool_call is None && f.finished is None && !f.refresh
                },
            },
    {
        let none = FollowUp { tool_call: None, finished: None, refresh: false };
        match event {
            DarbEvent::AgentStarted { .. } => {
                self.busy = true;
                self.tool_count = 0;
                none
            },
            DarbEvent::ToolRequested { tool, target } => {
                self.last_request = Some((tool.clone(), target.clone()));
                none
            },
            DarbEvent::ToolCompleted { tool, success } => {
                self.tool_count = self.tool_count + 1;
                let call = match &self.last_request {
                    Some(req) => Some((tool.clone(), req.1.clone(), *success)),
                    None => None,
                };
                FollowUp { tool_call: call, finished: None, refresh: false }
            },
            DarbEvent::AgentFinished { summary } => {
                self.busy = false;
                FollowUp {
                    tool_call: None,
                    finished: Some((summary.clone(), owned(state_label(current)))),
                    refresh: true,
                }
            },
            _ => none,
        }
    }

    /// What a key outcome asks for. A submitted task starts a run only
    /// when an agent exists and none is running (the loop is then busy);
    /// a permission answer goes to whoever is waiting for it: the agent,
    /// or a terminal command that runs again on approval.
    pub fn decide(&mut self, outcome: KeyOutcome, has_agent: bool, waiting: Option<Waiting>, i18n: &I18n) -> (s: Step)
        ensures
            final(self).tool_count == old(self).tool_count,
            final(self).last_request == old(self).last_request,
            final(self).busy == (old(self).busy || (outcome is Submitted && has_agent)),
            match outcome {
                KeyOutcome::Quit => s is Quit,
                KeyOutcome::CancelRequested => if has_agent { s is Cancel } else { s is Nothing },
                KeyOutcome::Submitted(task) => s matches Step::Submit { task: t, start } && t == task && start == (
                if !has_agent {
                    Start::Offline
                } else if old(self).busy {
                    Start::Busy
                } else {
                    Start::Run
                }),
                KeyOutcome::PermissionAnswer(allowed) => match waiting {
                    None => s is Nothing,
                    Some(Waiting::Agent) => s == Step::Answer(allowed),
                    Some(Waiting::Terminal(req)) => if allowed {
                        s == Step::RunApproved(req)
                    } else {
                        s matches Step::Refused(line) && line@ == fill(
                            i18n.resolve("permissions.denied"@),
                            seq![("tool"@, req.tool@), ("target"@, req.target@)],
                        )
                    },
                },
                KeyOutcome::Command(c) => s == Step::Perform(c),
                KeyOutcome::OpenEntry { path, is_dir } => s == Step::Open { path, is_dir },
                KeyOutcome::GoUp => s is GoUp,
                KeyOutcome::TerminalCommand(line) => s == Step::Terminal(line),
                KeyOutcome::SaveFile { path, original, content } => s == Step::Save { path, original, content },
                KeyOutcome::Ignored => s is Nothing,
            },
    {
        match outcome {
            KeyOutcome::Quit => Step::Quit,
            KeyOutcome::CancelRequested => if has_agent {
                Step::Cancel
            } else {
                Step::Nothing
            },
            KeyOutcome::Submitted(task) => {
                let start = if !has_agent {
                    Start::Offline
                } else if self.busy {
                    Start::Busy
                } else {
                    Start::Run
                };
                if has_agent {
                    self.busy = true;
                }
                Step::Submit { task, start }
            },
            KeyOutcome::PermissionAnswer(allowed) => match waiting {
                None => Step::Nothing,
                Some(Waiting::Agent) => Step::Answer(allowed),
                Some(Waiting::Terminal(req)) => if allowed {
                    Step::RunApproved(req)
                } else {
                    let args = [("tool", req.tool.as_str()), ("target", req.target.as_str())];
                    proof {
                        assert(arg_views(args@) =~= seq![("tool"@, req.tool@), ("target"@, req.target@)]);
                    }
                    Step::Refused(i18n.format("permissions.denied", &args))
                },
            },
            KeyOutcome::Command(c) => Step::Perform(c),
            KeyOutcome::OpenEntry { path, is_dir } => Step::Open { path, is_dir },
            KeyOutcome::GoUp => Step::GoUp,
            KeyOutcome::TerminalCommand(line) => Step::Terminal(line),
            KeyOutcome::SaveFile { path, original, content } => Step::Save { path, original, content },
            KeyOutcome::Ignored => Step::Nothing,
        }
    }
}

/// Work a palette command leaves to the application.
#[derive(Debug, Clone, Copy, PartialEq, Eq, Structural)]
pub enum Work {
    Done,
    Quit,
    RefreshFiles,
    RefreshGit,
    RefreshDiff,
    ToggleLanguage,
}

impl App {
    /// Apply a palette command to the interface and say what is left to
    /// do: the Git and Changes commands also show their tab, opening a tab
    /// gives the workspace the focus, a new chat clears the messages.
    pub fn perform(&mut self, command: Command) -> (w: Work)
        ensures
            match command {
                Command::Quit => w == Work::Quit && *final(self) == *old(self),
                Command::ToggleExplorer => w == Work::Done && *final(self) == (App {
                    explorer_visible: !old(self).explorer_visible,
                    ..*old(self)
                }),
                Command::RefreshFiles => w == Work::RefreshFiles && *final(self) == *old(self),
                Command::RefreshGit => w == Work::RefreshGit && *final(self) == (App {
                    tab: Tab::Git,
                    scroll: 0,
                    focus: Focus::Workspace,
                    ..*old(self)
                }),
                Command::ShowDiff => w == Work::RefreshDiff && *final(self) == (App {
                    tab: Tab::Changes,
                    scroll: 0,
                    focus: Focus::Workspace,
                    ..*old(self)
                }),
                Command::NewChat => w == Work::Done && *final(self) == (App {
                    messages: final(self).messages,
                    streaming: final(self).streaming,
                    scroll: 0,
                    ..*old(self)
                }) && final(self).messages@.len() == 0 && final(self).streaming@.len() == 0,
                Command::OpenTab(t) => w == Work::Done && *final(self) == (App {
                    tab: t,
                    scroll: 0,
                    focus: Focus::Workspace,
                    ..*old(self)
                }),
                Command::ToggleLanguage => w == Work::ToggleLanguage && *final(self) == *old(self),
            },
    {
        match command {
            Command::Quit => Work::Quit,
            Command::ToggleExplorer => {
                self.toggle_explorer();
                Work::Done
            },
            Command::RefreshFiles => Work::RefreshFiles,
            Command::RefreshGit => {
                self.set_tab(Tab::Git);
                self.focus = Focus::Workspace;
                Work::RefreshGit
            },
            Command::ShowDiff => {
                self.set_tab(Tab::Changes);
                self.focus = Focus::Workspace;
                Work::RefreshDiff
            },
            Command::NewChat => {
                self.clear_messages();
                Work::Done
            },
            Command::OpenTab(t) => {
                self.set_tab(t);
                self.focus = Focus::Workspace;
                Work::Done
            },
            Command::ToggleLanguage => Work::ToggleLanguage,
        }
    }

    /// Show a directory listing in the explorer; a failed listing leaves
    /// the explorer as it was. Says whether anything changed.
    pub fn show_listing(&mut self, result: &ToolResult) -> (changed: bool)
        ensures
            changed == result.success,
            !result.success ==> *final(self) == *old(self),
            result.success ==> *final(self) == (App {
                files: final(self).files,
                explorer_index: final(self).clamped_index(old(self).explorer_index),
                ..*old(self)
            }),
            result.success ==> final(self).files@.len() == nonempty(lines_of(result.output@)).len(),
            result.success ==> forall|i: int|
                0 <= i < final(self).files@.len() ==> entry_of_line(
                    #[trigger] final(self).files@[i],
                    nonempty(lines_of(result.output@))[i],
                ),
    {
        if !result.success {
            return false;
        }
        let files = listing_entries(result.output.as_str());
        self.set_files(files);
        true
    }

    /// Show an opened file: on success its text in the Files tab, with
    /// the focus on the workspace; otherwise a warning in the chat naming
    /// the path and the reason.
    pub fn show_opened(&mut self, path: String, result: &ToolResult, i18n: &I18n)
        ensures
            result.success ==> {
                &&& *final(self) == (App {
                    edit_origin: result.output,
                    edit_trailing_newline: crate::tui::edit::ends_with_newline(result.output@),
                    edit_lines: final(self).edit_lines,
                    edit_row: 0,
                    edit_col: 0,
                    edit_dirty: false,
                    editing: false,
                    file_preview: Some(crate::tui::app::FilePreview { path, text: result.output }),
                    scroll: 0,
                    tab: Tab::Files,
                    focus: Focus::Workspace,
                    ..*old(self)
                })
                &&& final(self).buffer() == crate::tui::edit::loaded_lines(result.output@)
                &&& final(self).edit_wf()
            },
            !result.success ==> {
                &&& *final(self) == (App { messages: final(self).messages, scroll: 0, ..*old(self) })
                &&& crate::tui::app::appended(
                    old(self).messages@,
                    final(self).messages@,
                    MessageRole::System,
                    "⚠ "@ + fill(
                        i18n.resolve("file.open_error"@),
                        seq![("path"@, path@), ("reason"@, if result.error is Some {
                            result.error->Some_0@
                        } else {
                            Seq::empty()
                        })],
                    ),
                )
            },
    {
        if result.success {
            self.set_file_preview(path, result.output.clone());
            self.set_tab(Tab::Files);
            self.focus = Focus::Workspace;
        } else {
            let reason = match &result.error {
                Some(e) => e.clone(),
                None => String::new(),
            };
            let args = [("path", path.as_str()), ("reason", reason.as_str())];
            proof {
                assert(arg_views(args@) =~= seq![("path"@, path@), ("reason"@, reason@)]);
                reveal_strlit("⚠ ");
            }
            let text = i18n.format("file.open_error", &args);
            let line = concat("⚠ ", text.as_str());
            proof {
                let want: Seq<char> = if result.error is Some {
                    result.error->Some_0@
                } else {
                    Seq::empty()
                };
                assert(reason@ == want);
                assert(line@ == "⚠ "@ + fill(
                    i18n.resolve("file.open_error"@),
                    seq![("path"@, path@), ("reason"@, want)],
                ));
            }
            self.push(MessageRole::System, line);
        }
    }
}

/// Number of steps in state `s`.
pub open spec fn count_in(ts: Seq<TaskItem>, s: TaskState) -> nat
    decreases ts.len(),
{
    if ts.len() == 0 {
        0
    } else {
        count_in(ts.drop_last(), s) + if ts.last().state == s {
            1nat
        } else {
            0nat
        }
    }
}

proof fn lemma_count_in_bound(ts: Seq<TaskItem>, s: TaskState)
    ensures
        count_in(ts, s) <= ts.len(),
    decreases ts.len(),
{
    if ts.len() > 0 {
        lemma_count_in_bound(ts.drop_last(), s);
    }
}

impl App {
    /// Steps done, pending and failed, for the status bar.
    pub fn task_counts(&self) -> (r: (usize, usize, usize))
        ensures
            r.0 == count_in(self.tasks@, TaskState::Done),
            r.1 == count_in(self.tasks@, TaskState::Pending),
            r.2 == count_in(self.tasks@, TaskState::Failed),
    {
        let mut done: usize = 0;
        let mut pending: usize = 0;
        let mut failed: usize = 0;
        let mut i: usize = 0;
        while i < self.tasks.len()
            invariant
                i <= self.tasks@.len(),
                done == count_in(self.tasks@.take(i as int), TaskState::Done),
                pending == count_in(self.tasks@.take(i as int), TaskState::Pending),
                failed == count_in(self.tasks@.take(i as int), TaskState::Failed),
            decreases self.tasks.len() - i,
        {
            proof {
                let t = self.tasks@.take(i + 1);
                assert(t.drop_last() == self.tasks@.take(i as int));
                lemma_count_in_bound(self.tasks@.take(i as int), TaskState::Done);
                lemma_count_in_bound(self.tasks@.take(i as int), TaskState::Pending);
                lemma_count_in_bound(self.tasks@.take(i as int), TaskState::Failed);
            }
            match self.tasks[i].state {
                TaskState::Done => done = done + 1,
                TaskState::Pending => pending = pending + 1,
                TaskState::Failed => failed = failed + 1,
            }
            i = i + 1;
        }
        proof {
            assert(self.tasks@.take(self.tasks@.len() as int) == self.tasks@);
        }
        (done, pending, failed)
    }
}

} // verus!
