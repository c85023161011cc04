//! The agent loop as a state machine: task → provider → tools → review →
//! done, bounded by the configured budgets.
//!
//! Every decision of the loop lives here; the application drives it. It
//! asks the provider when told [`Next::AskProvider`], runs a tool on
//! [`Next::RunTool`], asks the user on [`Next::Confirm`], calls
//! [`AgentRun::iterate`] again on [`Next::Continue`], and emits the
//! events collected in [`AgentRun::events`] in order.
use vstd::prelude::*;

use crate::agent::planner::Plan;
use crate::agent::reviewer::{review, ReviewVerdict};
use crate::agent::tool_calling::{extract_tool_calls, ToolCallSpec};
use crate::config::AgentConfig;
use crate::context::compression::{truncate_middle, truncate_middle_spec, MARKER};
use crate::context::project_map::{tree_text, ProjectMap};
use crate::context::selector::SelectedFile;
use crate::events::{AgentState, DarbEvent};
use crate::permissions::{Denial, DenyReason, ToolRequest};
use crate::text::{chars_of, concat, decimal_string, join_strings, owned, string_of};
use crate::tools::registry::ToolResult;

verus! {

/// Result lines longer than this (in characters) are cut before they go
/// back into the prompt.
pub const MAX_RESULT_CHARS: usize = 4000;

/// Prompt context built once per run; empty when the agent runs without
/// project context.
pub struct BuiltContext {
    pub map: String,
    pub files: String,
    /// Character budget of the history part of the prompt.
    pub history_chars: usize,
}

/// Note added to a map that the walk caps cut short.
pub open spec fn partial_note() -> Seq<char> {
    "\n(note: map is partial — walk caps hit)"@
}

/// The map part of the prompt: the tree cut to its share of characters
/// (a tenth of the token budget, four characters a token, at least 64),
/// with a note when the map is partial.
pub open spec fn map_part(map: ProjectMap, budget: u32) -> Seq<char> {
    let share = (budget / 10 * 4) as nat;
    let cut = truncate_middle_spec(tree_text(map.files@), if share < 64 { 64 } else { share }, MARKER@);
    if map.truncated {
        cut + partial_note()
    } else {
        cut
    }
}

/// One selected file as the prompt shows it.
pub open spec fn file_block(f: SelectedFile) -> Seq<char> {
    "--- "@ + f.path@ + " ("@ + crate::text::decimal(f.tokens as nat) + " tokens) ---\n"@ + f.content@ + "\n"@
}

/// The files part of the prompt: every selected file, in order.
pub open spec fn files_part(fs: Seq<SelectedFile>) -> Seq<char>
    decreases fs.len(),
{
    if fs.len() == 0 {
        Seq::empty()
    } else {
        files_part(fs.drop_last()) + file_block(fs.last())
    }
}

impl BuiltContext {
    /// No project context: empty parts, unbounded history.
    pub fn none() -> (c: Self)
        ensures
            c.map@.len() == 0,
            c.files@.len() == 0,
            c.history_chars == usize::MAX,
    {
        BuiltContext { map: String::new(), files: String::new(), history_chars: usize::MAX }
    }

    /// The context of a run from its map and the files selected: the map
    /// part, the files part, and three tenths of the token budget as
    /// history characters (four a token).
    pub fn assemble(map: &ProjectMap, budget: u32, selected: &[SelectedFile]) -> (c: Self)
        requires
            budget <= u32::MAX / 6,
        ensures
            c.map@ == map_part(*map, budget),
            c.files@ == files_part(selected@),
            c.history_chars == (budget * 3 / 10 * 4) as usize,
    {
        let share = (budget / 10 * 4) as usize;
        let rendered = map.render();
        let mut map_text = truncate_middle(rendered.as_str(), if share < 64 {
            64
        } else {
            share
        });
        if map.truncated {
            map_text = concat(map_text.as_str(), "\n(note: map is partial — walk caps hit)");
        }
        let mut files_text = String::new();
        let mut i: usize = 0;
        while i < selected.len()
            invariant
                i <= selected@.len(),
                files_text@ == files_part(selected@.take(i as int)),
            decreases selected.len() - i,
        {
            let f = &selected[i];
            let block = concat("--- ", f.path.as_str());
            let block = concat(block.as_str(), " (");
            let block = concat(block.as_str(), decimal_string(f.tokens as u64).as_str());
            let block = concat(block.as_str(), " tokens) ---\n");
            let block = concat(block.as_str(), f.content.as_str());
            let block = concat(block.as_str(), "\n");
            proof {
                let t = selected@.take(i + 1);
                assert(t.drop_last() == selected@.take(i as int));
                assert(t.last() == *f);
            }
            files_text = concat(files_text.as_str(), block.as_str());
            i = i + 1;
        }
        proof {
            assert(selected@.take(selected@.len() as int) == selected@);
        }
        let history = (budget * 3 / 10 * 4) as usize;
        BuiltContext { map: map_text, files: files_text, history_chars: history }
    }
}

/// Token budget of the files part: six tenths of the whole.
pub fn files_budget(budget: u32) -> (r: u32)
    requires
        budget <= u32::MAX / 6,
    ensures
        r == budget * 6 / 10,
{
    budget * 6 / 10
}

/// Counters carried through one run.
pub struct RunStats {
    pub iterations: u32,
    pub tool_calls: u32,
    /// Consecutive failures (failed provider requests or reviews).
    pub failures: u32,
    pub changed_files: Vec<String>,
    pub warnings: Vec<String>,
    /// Text of the last provider answer.
    pub last_text: String,
}

/// Outcome of one finished task.
pub struct FinalResult {
    /// Always terminal: Completed, Failed or Cancelled.
    pub outcome: AgentState,
    pub summary: String,
    pub iterations: u32,
    pub tool_calls: u32,
    pub changed_files: Vec<String>,
    pub warnings: Vec<String>,
}

/// What the application does next for the run.
pub enum Next {
    /// Ask the provider with this prompt, then report the answer
    /// ([`AgentRun::responded`]) or the failure ([`AgentRun::provider_failed`]).
    AskProvider { prompt: String },
    /// Run this request through the tool registry, then report the result
    /// ([`AgentRun::tool_done`]).
    RunTool(ToolRequest),
    /// Ask the user to confirm this request; on approval grant it once and
    /// run it again, then report ([`AgentRun::confirmed`]).
    Confirm(ToolRequest),
    /// Start the next iteration ([`AgentRun::iterate`]).
    Continue,
    /// The run is over.
    Finished(FinalResult),
}

/// A state change the loop may emit: a legal transition, or the retry
/// that follows a failed provider request.
pub open spec fn allowed_change(from: AgentState, to: AgentState) -> bool {
    crate::agent::state::legal(from, to) || (from == AgentState::WaitingProvider && to == AgentState::Retrying)
}

/// Every state change among `events` is an allowed one.
pub open spec fn changes_allowed(events: Seq<DarbEvent>) -> bool {
    forall|i: int|
        0 <= i < events.len() ==> (#[trigger] events[i] matches DarbEvent::AgentStateChanged { from, to }
            ==> allowed_change(from, to))
}

/// Text of a result in the history: the tool, `ok` and the (cut) output,
/// or `FAILED` and the error.
pub open spec fn summary_of(r: ToolResult) -> Seq<char> {
    let tool = if r.metadata@.contains_key("tool"@) {
        r.metadata@["tool"@]
    } else {
        "tool"@
    };
    let detail = if r.success {
        cut(r.output@)
    } else {
        match r.error {
            Some(e) => e@,
            None => Seq::empty(),
        }
    };
    tool + ": "@ + (if r.success { "ok"@ } else { "FAILED"@ }) + " "@ + detail
}

/// A text cut to [`MAX_RESULT_CHARS`] characters, marked when cut.
pub open spec fn cut(t: Seq<char>) -> Seq<char> {
    if t.len() <= MAX_RESULT_CHARS {
        t
    } else {
        t.take(MAX_RESULT_CHARS as int) + "…[truncated]"@
    }
}

fn truncate(text: &str) -> (r: String)
    ensures
        r@ == cut(text@),
{
    let v = chars_of(text);
    if v.len() <= MAX_RESULT_CHARS {
        return owned(text);
    }
    let kept = crate::text::slice_to_vec(&v, 0, MAX_RESULT_CHARS);
    let s = string_of(&kept);
    concat(s.as_str(), "…[truncated]")
}

/// History line for one tool result.
pub fn summarize_result(result: &ToolResult) -> (r: String)
    ensures
        r@ == summary_of(*result),
{
    let tool = match result.metadata.get("tool") {
        Some(t) => owned(t.as_str()),
        None => owned("tool"),
    };
    let status = if result.success {
        "ok"
    } else {
        "FAILED"
    };
    let detail = if result.success {
        truncate(result.output.as_str())
    } else {
        match &result.error {
            Some(e) => e.clone(),
            None => String::new(),
        }
    };
    let a = concat(tool.as_str(), ": ");
    let b = concat(a.as_str(), status);
    let c = concat(b.as_str(), " ");
    concat(c.as_str(), detail.as_str())
}

/// Whether a result is a permission question (metadata `permission` is
/// `ask`).
pub open spec fn asks_permission(r: ToolResult) -> bool {
    r.metadata@.contains_key("permission"@) && r.metadata@["permission"@] == "ask"@
}

/// Whether a result asks for the user's confirmation.
pub fn is_permission_ask(result: &ToolResult) -> (b: bool)
    ensures
        b == asks_permission(*result),
{
    match result.metadata.get("permission") {
        Some(v) => {
            let ask = "ask";
            crate::text::str_eq(v.as_str(), ask)
        },
        None => false,
    }
}

/// Closing instruction of every prompt.
pub open spec fn instructions() -> Seq<char> {
    "Respond with a short summary, or emit tool calls as fenced json blocks ({\"tool\": \"...\", \"target\": \"...\", \"arguments\": {...}}). Available tools: read_file, list_directory, search, git_status, git_diff, edit_file, shell."@
}

/// First lines of a prompt: the task and the plan's progress.
pub open spec fn prompt_head(task: Seq<char>, goal: Seq<char>, done: nat, total: nat) -> Seq<char> {
    "Task: "@ + task + "\nPlan: "@ + goal + " ("@ + crate::text::decimal(done) + "/"@
        + crate::text::decimal(total) + " steps done)\n"@
}

/// A titled prompt section, absent when its body is empty.
pub open spec fn section(title: Seq<char>, body: Seq<char>) -> Seq<char> {
    if body.len() > 0 {
        title + body + "\n"@
    } else {
        Seq::empty()
    }
}

/// The previous tool results, joined and cut to the history budget;
/// absent when there are none.
pub open spec fn history_part(history: Seq<Seq<char>>, history_chars: nat) -> Seq<char> {
    if history.len() > 0 {
        "Previous tool results:\n- "@ + crate::context::compression::truncate_middle_spec(
            crate::text::join_with(history, "\n- "@),
            history_chars,
            crate::context::compression::MARKER@,
        ) + "\n"@
    } else {
        Seq::empty()
    }
}

/// The prompt of one iteration: task and plan progress, the project map
/// and relevant files when there are any, the previous tool results cut
/// to the history budget, then the instructions.
pub open spec fn prompt_text(
    task: Seq<char>,
    goal: Seq<char>,
    done: nat,
    total: nat,
    map: Seq<char>,
    files: Seq<char>,
    history: Seq<Seq<char>>,
    history_chars: nat,
) -> Seq<char> {
    prompt_head(task, goal, done, total) + section("Project map:\n"@, map) + section(
        "Relevant files:\n"@,
        files,
    ) + history_part(history, history_chars) + instructions()
}

fn head_string(task: &str, goal: &str, done: usize, total: usize) -> (r: String)
    ensures
        r@ == prompt_head(task@, goal@, done as nat, total as nat),
{
    let mut p = concat("Task: ", task);
    p.append("\nPlan: ");
    p.append(goal);
    p.append(" (");
    p.append(decimal_string(done as u64).as_str());
    p.append("/");
    p.append(decimal_string(total as u64).as_str());
    p.append(" steps done)\n");
    p
}

fn section_string(title: &str, body: &str) -> (r: String)
    ensures
        r@ == section(title@, body@),
{
    if chars_of(body).len() > 0 {
        let mut p = concat(title, body);
        p.append("\n");
        p
    } else {
        String::new()
    }
}

fn history_string(history: &[String], history_chars: usize) -> (r: String)
    ensures
        r@ == history_part(crate::text::string_views(history@), history_chars as nat),
{
    if history.len() > 0 {
        let joined = join_strings(history, "\n- ");
        let mut p = concat("Previous tool results:\n- ", truncate_middle(joined.as_str(), history_chars).as_str());
        p.append("\n");
        p
    } else {
        String::new()
    }
}

/// The prompt for one iteration.
pub fn build_prompt(task: &str, plan: &Plan, history: &[String], context: &BuiltContext) -> (r: String)
    ensures
        r@ == prompt_text(
            task@,
            plan.goal@,
            (plan.steps@.len() - crate::agent::planner::pending(plan.steps@)) as nat,
            plan.steps@.len(),
            context.map@,
            context.files@,
            crate::text::string_views(history@),
            context.history_chars as nat,
        ),
{
    let total = plan.steps.len();
    let pending = plan.pending_count();
    proof {
        crate::agent::planner::lemma_pending_bounded(plan.steps@);
    }
    let done = total - pending;
    let mut p = head_string(task, plan.goal.as_str(), done, total);
    p.append(section_string("Project map:\n", context.map.as_str()).as_str());
    p.append(section_string("Relevant files:\n", context.files.as_str()).as_str());
    p.append(history_string(history, context.history_chars).as_str());
    p.append(
        "Respond with a short summary, or emit tool calls as fenced json blocks ({\"tool\": \"...\", \"target\": \"...\", \"arguments\": {...}}). Available tools: read_file, list_directory, search, git_status, git_diff, edit_file, shell.",
    );
    p
}

/// What the run waits for.
#[derive(Debug, Clone, Copy, PartialEq, Eq, Structural)]
pub enum Awaiting {
    /// The start of the next iteration.
    Iteration,
    /// The provider's answer.
    Provider,
    /// The result of the current call.
    Tool,
    /// The user's answer on the current call.
    Confirmation,
    /// Nothing: the run is over.
    Done,
}

/// One run of the agent: where the loop stands, what it has counted, and
/// the events it has to report.
pub struct AgentRun {
    pub task: String,
    pub plan: Plan,
    pub context: BuiltContext,
    pub limits: AgentConfig,
    /// Whether the user can be asked to confirm a request (otherwise a
    /// question fails like any refusal).
    pub interactive: bool,
    pub state: AgentState,
    pub awaiting: Awaiting,
    pub stats: RunStats,
    /// History lines shown to the provider.
    pub history: Vec<String>,
    /// Calls of the current answer, and the next one to run.
    pub calls: Vec<ToolCallSpec>,
    pub next_call: usize,
    /// Results of the current answer's calls.
    pub batch: Vec<ToolResult>,
    /// Events to emit, in order.
    pub events: Vec<DarbEvent>,
}

impl AgentRun {
    /// The run's invariant: the counters stay inside the budgets, the call
    /// cursor inside the calls, and every state change reported so far is
    /// an allowed one.
    pub open spec fn wf(&self) -> bool {
        &&& self.stats.iterations <= self.limits.max_iterations
        &&& self.stats.tool_calls <= self.limits.max_tool_calls
        &&& self.stats.failures <= self.limits.max_retries
        &&& self.next_call <= self.calls@.len()
        &&& changes_allowed(self.events@)
        &&& match self.awaiting {
            Awaiting::Iteration => self.state == AgentState::Planning || self.state == AgentState::Retrying,
            Awaiting::Provider => self.state == AgentState::WaitingProvider,
            Awaiting::Tool => self.state == AgentState::Executing && self.next_call < self.calls@.len()
                && self.stats.tool_calls < self.limits.max_tool_calls,
            Awaiting::Confirmation => self.state == AgentState::WaitingPermission && self.next_call
                < self.calls@.len() && self.stats.tool_calls < self.limits.max_tool_calls,
            Awaiting::Done => crate::agent::state::terminal(self.state),
        }
    }

    /// The budget part of the invariant.
    pub open spec fn wf_counters(&self) -> bool {
        &&& self.stats.iterations <= self.limits.max_iterations
        &&& self.stats.tool_calls <= self.limits.max_tool_calls
        &&& self.stats.failures <= self.limits.max_retries
        &&& self.next_call <= self.calls@.len()
        &&& changes_allowed(self.events@)
    }

    /// `new` reports what `old` reported, then `more`.
    pub open spec fn reported(old: AgentRun, new: AgentRun, more: Seq<DarbEvent>) -> bool {
        new.events@ == old.events@ + more
    }

    /// Start a run: report the start and go through analysis to planning.
    pub fn start(task: &str, limits: AgentConfig, interactive: bool, context: BuiltContext) -> (r: Self)
        ensures
            r.wf(),
            r.task@ == task@,
            r.limits == limits,
            r.interactive == interactive,
            r.state == AgentState::Planning,
            r.awaiting == Awaiting::Iteration,
            r.stats.iterations == 0 && r.stats.tool_calls == 0 && r.stats.failures == 0,
            r.stats.warnings@.len() == 0 && r.stats.changed_files@.len() == 0,
            r.history@.len() == 0,
            r.events@.len() == 3,
            r.events@[0] matches DarbEvent::AgentStarted { task: t } && t@ == task@,
            r.events@[1] == (DarbEvent::AgentStateChanged { from: AgentState::Idle, to: AgentState::Analyzing }),
            r.events@[2] == (DarbEvent::AgentStateChanged { from: AgentState::Analyzing, to: AgentState::Planning }),
    {
        let mut events: Vec<DarbEvent> = Vec::new();
        events.push(DarbEvent::AgentStarted { task: owned(task) });
        let mut run = AgentRun {
            task: owned(task),
            plan: Plan::single(task),
            context,
            limits,
            interactive,
            state: AgentState::Idle,
            awaiting: Awaiting::Iteration,
            stats: RunStats {
                iterations: 0,
                tool_calls: 0,
                failures: 0,
                changed_files: Vec::new(),
                warnings: Vec::new(),
                last_text: String::new(),
            },
            history: Vec::new(),
            calls: Vec::new(),
            next_call: 0,
            batch: Vec::new(),
            events,
        };
        run.transition(AgentState::Analyzing);
        run.transition(AgentState::Planning);
        run
    }

    /// Hand the collected events over for emission.
    pub fn take_events(&mut self) -> (r: Vec<DarbEvent>)
        ensures
            r@ == old(self).events@,
            final(self).events@.len() == 0,
            *final(self) == (AgentRun { events: final(self).events, ..*old(self) }),
    {
        let mut out: Vec<DarbEvent> = Vec::new();
        std::mem::swap(&mut out, &mut self.events);
        out
    }

    fn transition(&mut self, to: AgentState)
        requires
            changes_allowed(old(self).events@),
            allowed_change(old(self).state, to),
        ensures
            changes_allowed(final(self).events@),
            *final(self) == (AgentRun { state: to, events: final(self).events, ..*old(self) }),
            Self::reported(*old(self), *final(self), seq![DarbEvent::AgentStateChanged { from: old(self).state, to }]),
    {
        let from = self.state;
        self.events.push(DarbEvent::AgentStateChanged { from, to });
        self.state = to;
        proof {
            assert(self.events@ =~= old(self).events@ + seq![DarbEvent::AgentStateChanged { from: old(self).state, to }]);
            assert forall|i: int| 0 <= i < self.events@.len() implies (#[trigger] self.events@[i] matches DarbEvent::AgentStateChanged { from, to }
                ==> allowed_change(from, to)) by {
                if i < old(self).events@.len() {
                    assert(self.events@[i] == old(self).events@[i]);
                }
            }
        }
    }

    fn add_warning(&mut self, w: String)
        ensures
            final(self).stats.warnings@ == old(self).stats.warnings@.push(w),
            final(self).stats.iterations == old(self).stats.iterations,
            final(self).stats.tool_calls == old(self).stats.tool_calls,
            final(self).stats.failures == old(self).stats.failures,
            final(self).stats.changed_files == old(self).stats.changed_files,
            final(self).stats.last_text == old(self).stats.last_text,
            *final(self) == (AgentRun { stats: final(self).stats, ..*old(self) }),
    {
        self.stats.warnings.push(w);
    }

    /// End the run in `outcome`: report the change and the summary, and
    /// hand the counters over.
    fn finish(&mut self, outcome: AgentState, summary: String) -> (r: FinalResult)
        requires
            old(self).wf_counters(),
            crate::agent::state::terminal(outcome),
            allowed_change(old(self).state, outcome),
        ensures
            final(self).wf(),
            final(self).state == outcome,
            final(self).awaiting == Awaiting::Done,
            final(self).stats.iterations == old(self).stats.iterations,
            final(self).stats.tool_calls == old(self).stats.tool_calls,
            final(self).stats.failures == old(self).stats.failures,
            final(self).stats.last_text == old(self).stats.last_text,
            final(self).calls == old(self).calls,
            final(self).next_call == old(self).next_call,
            final(self).history == old(self).history,
            final(self).batch == old(self).batch,
            final(self).limits == old(self).limits,
            r.outcome == outcome,
            r.summary == summary,
            r.iterations == old(self).stats.iterations,
            r.tool_calls == old(self).stats.tool_calls,
            r.changed_files == old(self).stats.changed_files,
            r.warnings == old(self).stats.warnings,
            Self::reported(*old(self), *final(self), seq![
                DarbEvent::AgentStateChanged { from: old(self).state, to: outcome },
                DarbEvent::AgentFinished { summary },
            ]),
    {
        self.transition(outcome);
        self.awaiting = Awaiting::Done;
        self.events.push(DarbEvent::AgentFinished { summary: summary.clone() });
        let mut changed: Vec<String> = Vec::new();
        std::mem::swap(&mut changed, &mut self.stats.changed_files);
        let mut warnings: Vec<String> = Vec::new();
        std::mem::swap(&mut warnings, &mut self.stats.warnings);
        proof {
            assert(self.events@ =~= old(self).events@ + seq![
                DarbEvent::AgentStateChanged { from: old(self).state, to: outcome },
                DarbEvent::AgentFinished { summary },
            ]);
            assert forall|i: int| 0 <= i < self.events@.len() implies (#[trigger] self.events@[i] matches DarbEvent::AgentStateChanged { from, to }
                ==> allowed_change(from, to)) by {
                if i < self.events@.len() - 1 {
                    assert(self.events@[i] == self.events@.drop_last()[i]);
                }
            }
        }
        FinalResult {
            outcome,
            summary,
            iterations: self.stats.iterations,
            tool_calls: self.stats.tool_calls,
            changed_files: changed,
            warnings,
        }
    }
}

/// Warning after the iteration budget ran out.
pub open spec fn iteration_limit_text(n: nat, max: nat) -> Seq<char> {
    "stopped after "@ + crate::text::decimal(n) + " iterations (limit "@ + crate::text::decimal(max) + ")"@
}

/// Warning after the tool-call budget ran out.
pub open spec fn tool_limit_text(n: nat, max: nat) -> Seq<char> {
    "stopped after "@ + crate::text::decimal(n) + " tool calls (limit "@ + crate::text::decimal(max) + ")"@
}

/// Warning after too many failed reviews in a row.
pub open spec fn gave_up_text(n: nat) -> Seq<char> {
    "gave up after "@ + crate::text::decimal(n) + " failed reviews"@
}

fn count_text(a: &str, n: u64, b: &str, m: u64, c: &str) -> (r: String)
    ensures
        r@ == a@ + crate::text::decimal(n as nat) + b@ + crate::text::decimal(m as nat) + c@,
{
    let mut s = concat(a, decimal_string(n).as_str());
    s.append(b);
    s.append(decimal_string(m).as_str());
    s.append(c);
    s
}

/// Whether `s` is among the strings of `v`.
fn listed(v: &Vec<String>, s: &str) -> (b: bool)
    ensures
        b == crate::text::string_views(v@).contains(s@),
{
    let mut i: usize = 0;
    while i < v.len()
        invariant
            i <= v@.len(),
            forall|j: int| 0 <= j < i ==> v@[j]@ != s@,
        decreases v.len() - i,
    {
        if crate::text::str_eq(v[i].as_str(), s) {
            proof {
                assert(crate::text::string_views(v@)[i as int] == s@);
            }
            return true;
        }
        i = i + 1;
    }
    proof {
        if crate::text::string_views(v@).contains(s@) {
            let j = choose|j: int| 0 <= j < v@.len() && crate::text::string_views(v@)[j] == s@;
            assert(v@[j]@ == s@);
        }
    }
    false
}

fn request_of(call: &ToolCallSpec) -> (r: ToolRequest)
    ensures
        r.tool == call.tool,
        r.target == call.target,
        r.arguments@ == call.arguments@,
{
    ToolRequest { tool: call.tool.clone(), target: call.target.clone(), arguments: call.arguments.duplicate() }
}

impl AgentRun {
    /// Begin the next iteration: a cancelled run ends as cancelled, a run
    /// out of iterations fails with a warning (keeping the last answer as
    /// summary), otherwise the provider is asked with the iteration's
    /// prompt.
    pub fn iterate(&mut self, cancelled: bool) -> (r: Next)
        requires
            old(self).wf(),
            old(self).awaiting == Awaiting::Iteration,
        ensures
            r matches Next::Finished(f) ==> crate::agent::state::terminal(f.outcome),
            final(self).wf(),
            cancelled ==> (r matches Next::Finished(f) && f.outcome == AgentState::Cancelled
                && f.summary@ == "cancelled by user"@ && Self::reported(*old(self), *final(self), seq![
                    DarbEvent::AgentStateChanged { from: old(self).state, to: AgentState::Cancelled },
                    DarbEvent::AgentFinished { summary: f.summary },
                ])),
            !cancelled && old(self).stats.iterations >= old(self).limits.max_iterations ==> (r matches Next::Finished(f)
                && f.outcome == AgentState::Failed && f.summary == old(self).stats.last_text
                && f.warnings@.len() == old(self).stats.warnings@.len() + 1
                && f.warnings@.last()@ == iteration_limit_text(
                    old(self).stats.iterations as nat,
                    old(self).limits.max_iterations as nat,
                )),
            !cancelled && old(self).stats.iterations < old(self).limits.max_iterations ==> {
                &&& r matches Next::AskProvider { prompt } && prompt@ == prompt_text(
                    old(self).task@,
                    old(self).plan.goal@,
                    (old(self).plan.steps@.len() - crate::agent::planner::pending(old(self).plan.steps@)) as nat,
                    old(self).plan.steps@.len(),
                    old(self).context.map@,
                    old(self).context.files@,
                    crate::text::string_views(old(self).history@),
                    old(self).context.history_chars as nat,
                )
                &&& final(self).stats.iterations == old(self).stats.iterations + 1
                &&& final(self).awaiting == Awaiting::Provider
                &&& Self::reported(*old(self), *final(self), seq![
                    DarbEvent::AgentStateChanged { from: old(self).state, to: AgentState::WaitingProvider },
                ])
            },
    {
        if cancelled {
            let summary = owned("cancelled by user");
            return Next::Finished(self.finish(AgentState::Cancelled, summary));
        }
        if self.stats.iterations >= self.limits.max_iterations {
            let w = count_text(
                "stopped after ",
                self.stats.iterations as u64,
                " iterations (limit ",
                self.limits.max_iterations as u64,
                ")",
            );
            self.add_warning(w);
            let summary = self.stats.last_text.clone();
            return Next::Finished(self.finish(AgentState::Failed, summary));
        }
        self.stats.iterations = self.stats.iterations + 1;
        self.transition(AgentState::WaitingProvider);
        self.awaiting = Awaiting::Provider;
        let prompt = build_prompt(self.task.as_str(), &self.plan, self.history.as_slice(), &self.context);
        Next::AskProvider { prompt }
    }

    /// The provider request failed: count the failure and warn; past the
    /// retry budget the run fails, otherwise it retries.
    pub fn provider_failed(&mut self, message: &str) -> (r: Next)
        requires
            old(self).wf(),
            old(self).awaiting == Awaiting::Provider,
        ensures
            r matches Next::Finished(f) ==> crate::agent::state::terminal(f.outcome),
            final(self).wf(),
            final(self).stats.failures == (if old(self).stats.failures + 1 > old(self).limits.max_retries {
                old(self).stats.failures
            } else {
                (old(self).stats.failures + 1) as u32
            }),
            old(self).stats.failures + 1 > old(self).limits.max_retries ==> (r matches Next::Finished(f)
                && f.outcome == AgentState::Failed && f.summary == old(self).stats.last_text
                && f.warnings@.len() == old(self).stats.warnings@.len() + 1
                && f.warnings@.last()@ == "provider request failed: "@ + message@),
            old(self).stats.failures + 1 <= old(self).limits.max_retries ==> {
                &&& r is Continue
                &&& final(self).awaiting == Awaiting::Iteration
                &&& final(self).stats.warnings@.len() == old(self).stats.warnings@.len() + 1
                &&& final(self).stats.warnings@.last()@ == "provider request failed: "@ + message@
                &&& Self::reported(*old(self), *final(self), seq![
                    DarbEvent::AgentStateChanged { from: AgentState::WaitingProvider, to: AgentState::Retrying },
                ])
            },
    {
        let w = concat("provider request failed: ", message);
        self.add_warning(w);
        if self.stats.failures >= self.limits.max_retries {
            let summary = self.stats.last_text.clone();
            return Next::Finished(self.finish(AgentState::Failed, summary));
        }
        self.stats.failures = self.stats.failures + 1;
        self.transition(AgentState::Retrying);
        self.awaiting = Awaiting::Iteration;
        Next::Continue
    }
}

/// The changed files after a result of the current call: a successful
/// edit adds its target, once.
pub open spec fn changed_after(run: AgentRun, result: ToolResult) -> Seq<Seq<char>> {
    let call = run.calls@[run.next_call as int];
    let before = crate::text::string_views(run.stats.changed_files@);
    if result.success && call.tool@ == "edit_file"@ && !before.contains(call.target@) {
        before.push(call.target@)
    } else {
        before
    }
}

/// Going on after a call, with `history` and `changed` as they stand:
/// the next call of the batch runs (reported as requested) unless the
/// tool-call budget is spent, which fails the run with a warning and the
/// last answer as summary.
pub open spec fn next_call_step(
    old: AgentRun,
    new: AgentRun,
    next: int,
    calls_done: nat,
    history: Seq<Seq<char>>,
    changed: Seq<Seq<char>>,
    r: Next,
) -> bool {
    if calls_done >= old.limits.max_tool_calls {
        r matches Next::Finished(f) && f.outcome == AgentState::Failed && f.summary == old.stats.last_text
            && f.warnings@.last()@ == tool_limit_text(calls_done, old.limits.max_tool_calls as nat)
            && crate::text::string_views(f.changed_files@) == changed
    } else {
        &&& r matches Next::RunTool(req) && req.tool == old.calls@[next].tool && req.target == old.calls@[next].target
        &&& new.events@.last() == (DarbEvent::ToolRequested {
            tool: old.calls@[next].tool,
            target: old.calls@[next].target,
        })
        &&& new.state == AgentState::Executing
        &&& crate::text::string_views(new.history@) == history
        &&& crate::text::string_views(new.stats.changed_files@) == changed
    }
}

/// Judging a batch once its last call ran, with `history` and `changed`
/// as they stand: a clean batch resets the failure count and the loop
/// goes on; a failing one adds `review failed: ` and the reasons to the
/// history, then gives up past the retry budget (warning `gave up after N
/// failed reviews`, last answer as summary) or counts one more failure
/// and goes on.
pub open spec fn reviewed(
    old: AgentRun,
    new: AgentRun,
    batch: Seq<ToolResult>,
    history: Seq<Seq<char>>,
    changed: Seq<Seq<char>>,
    r: Next,
) -> bool {
    let reasons = crate::agent::reviewer::failure_reasons(batch);
    if reasons.len() == 0 {
        &&& r is Continue
        &&& new.stats.failures == 0
        &&& new.state == AgentState::Retrying
        &&& crate::text::string_views(new.history@) == history
        &&& crate::text::string_views(new.stats.changed_files@) == changed
    } else {
        &&& crate::text::string_views(new.history@) == history.push(
            "review failed: "@ + crate::text::join_with(reasons, "; "@),
        )
        &&& if old.stats.failures >= old.limits.max_retries {
            r matches Next::Finished(f) && f.outcome == AgentState::Failed && f.summary == old.stats.last_text
                && f.warnings@.last()@ == gave_up_text((old.stats.failures + 1) as nat)
                && crate::text::string_views(f.changed_files@) == changed
        } else {
            &&& r is Continue
            &&& new.stats.failures == old.stats.failures + 1
            &&& new.state == AgentState::Retrying
            &&& crate::text::string_views(new.stats.changed_files@) == changed
        }
    }
}

/// Accounting for a result of the current call (the call's completion
/// reported at event `at`): the call is counted, its summary joins the
/// history and the result the batch, a successful edit counts its file
/// as changed; then the next call runs or, after the last one, the batch
/// is reviewed.
pub open spec fn after_call(old: AgentRun, new: AgentRun, result: ToolResult, at: int, r: Next) -> bool {
    let history = crate::text::string_views(old.history@).push(summary_of(result));
    let changed = changed_after(old, result);
    &&& new.stats.tool_calls == old.stats.tool_calls + 1
    &&& new.events@.len() > at
    &&& new.events@[at] matches DarbEvent::ToolCompleted { tool, success } && tool@
        == crate::agent::reviewer::result_tool(result) && success == result.success
    &&& if old.next_call + 1 < old.calls@.len() {
        next_call_step(old, new, old.next_call + 1, (old.stats.tool_calls + 1) as nat, history, changed, r)
    } else {
        reviewed(old, new, old.batch@.push(result), history, changed, r)
    }
}

/// The result a refused confirmation stands for: the call denied by the
/// user.
pub open spec fn user_denial(res: ToolResult, call: ToolCallSpec) -> bool {
    &&& !res.success
    &&& res.output@ == Seq::<char>::empty()
    &&& res.error matches Some(e) && e@ == crate::tools::registry::about_text(
        "denied: "@,
        call.tool@,
        call.target@,
        " ("@ + crate::tools::registry::deny_reason_text(DenyReason::DeniedByUser) + ")"@,
    )
    &&& res.metadata@ == Map::<Seq<char>, Seq<char>>::empty().insert("permission"@, "denied"@).insert(
        "deny_reason"@,
        crate::tools::registry::deny_reason_text(DenyReason::DeniedByUser),
    ).insert("tool"@, call.tool@).insert("target"@, call.target@)
}

impl AgentRun {
    /// The provider answered: keep the text (warning when the stream broke
    /// and the partial answer is used). An answer without tool calls
    /// completes the run with the answer as summary; otherwise the calls
    /// run in order.
    pub fn responded(&mut self, text: String, interrupted: bool) -> (r: Next)
        requires
            old(self).wf(),
            old(self).awaiting == Awaiting::Provider,
        ensures
            r matches Next::Finished(f) ==> crate::agent::state::terminal(f.outcome),
            final(self).wf(),
            final(self).stats.last_text == text,
            crate::agent::tool_calling::calls_from(text@, 0).len() == 0 ==> (r matches Next::Finished(f)
                && f.outcome == AgentState::Completed && f.summary == text
                && crate::text::string_views(f.warnings@) == crate::text::string_views(old(self).stats.warnings@) + (if interrupted {
                    seq!["stream interrupted — used the partial response"@]
                } else {
                    Seq::empty()
                })),
            crate::agent::tool_calling::calls_from(text@, 0).len() > 0 ==> {
                &&& final(self).calls@.map_values(|c: ToolCallSpec| c.call_view())
                    == crate::agent::tool_calling::calls_from(text@, 0)
                &&& !(r is Continue) && !(r is AskProvider) && !(r is Confirm)
                &&& final(self).limits == old(self).limits
                &&& next_call_step(
                    *final(self),
                    *final(self),
                    0,
                    old(self).stats.tool_calls as nat,
                    crate::text::string_views(old(self).history@),
                    crate::text::string_views(old(self).stats.changed_files@),
                    r,
                )
            },
    {
        if interrupted {
            let w = owned("stream interrupted — used the partial response");
            self.add_warning(w);
        }
        self.stats.last_text = text.clone();
        let calls = extract_tool_calls(text.as_str());
        proof {
            if interrupted {
                assert(crate::text::string_views(self.stats.warnings@) =~= crate::text::string_views(old(self).stats.warnings@) + seq!["stream interrupted — used the partial response"@]);
            } else {
                assert(crate::text::string_views(self.stats.warnings@) =~= crate::text::string_views(old(self).stats.warnings@) + Seq::empty());
            }
        }
        if calls.len() == 0 {
            proof {
                assert(calls@.map_values(|c: ToolCallSpec| c.call_view()).len() == 0);
            }
            return Next::Finished(self.finish(AgentState::Completed, text));
        }
        self.transition(AgentState::Executing);
        self.calls = calls;
        self.next_call = 0;
        self.batch = Vec::new();
        self.awaiting = Awaiting::Iteration;
        let ghost mid = *self;
        let r = self.advance();
        proof {
            assert(mid.calls == self.calls && mid.limits == self.limits);
            assert(mid.stats.last_text == self.stats.last_text);
        }
        r
    }

    /// Run the next call of the answer, or review the batch when all have
    /// run: the run fails when the tool-call budget is spent; a passing
    /// review resets the failure count, a failing one counts and records
    /// the reasons, and past the retry budget fails the run.
    fn advance(&mut self) -> (r: Next)
        requires
            old(self).wf_counters(),
            old(self).state == AgentState::Executing,
        ensures
            r matches Next::Finished(f) ==> crate::agent::state::terminal(f.outcome),
            final(self).wf(),
            old(self).events@.is_prefix_of(final(self).events@),
            final(self).events@.len() > old(self).events@.len(),
            final(self).stats.last_text == old(self).stats.last_text,
            final(self).stats.tool_calls == old(self).stats.tool_calls,
            final(self).calls == old(self).calls,
            final(self).limits == old(self).limits,
            old(self).next_call < old(self).calls@.len() ==> !(r is Continue),
            !(r is AskProvider) && !(r is Confirm),
            r is RunTool ==> final(self).awaiting == Awaiting::Tool,
            r is Continue ==> final(self).awaiting == Awaiting::Iteration,
            r matches Next::RunTool(req) ==> req.tool == old(self).calls@[old(self).next_call as int].tool
                && req.target == old(self).calls@[old(self).next_call as int].target,
            final(self).next_call == old(self).next_call,
            old(self).next_call < old(self).calls@.len() ==> next_call_step(
                *old(self),
                *final(self),
                old(self).next_call as int,
                old(self).stats.tool_calls as nat,
                crate::text::string_views(old(self).history@),
                crate::text::string_views(old(self).stats.changed_files@),
                r,
            ),
            old(self).next_call == old(self).calls@.len() ==> reviewed(
                *old(self),
                *final(self),
                old(self).batch@,
                crate::text::string_views(old(self).history@),
                crate::text::string_views(old(self).stats.changed_files@),
                r,
            ),
    {
        if self.next_call < self.calls.len() {
            if self.stats.tool_calls >= self.limits.max_tool_calls {
                let w = count_text(
                    "stopped after ",
                    self.stats.tool_calls as u64,
                    " tool calls (limit ",
                    self.limits.max_tool_calls as u64,
                    ")",
                );
                self.add_warning(w);
                let summary = self.stats.last_text.clone();
                return Next::Finished(self.finish(AgentState::Failed, summary));
            }
            let request = request_of(&self.calls[self.next_call]);
            self.events.push(
                DarbEvent::ToolRequested { tool: request.tool.clone(), target: request.target.clone() },
            );
            self.awaiting = Awaiting::Tool;
            proof {
                assert forall|i: int| 0 <= i < self.events@.len() implies (#[trigger] self.events@[i] matches DarbEvent::AgentStateChanged { from, to }
                    ==> allowed_change(from, to)) by {
                    if i < self.events@.len() - 1 {
                        assert(self.events@[i] == old(self).events@[i]);
                    }
                }
            }
            return Next::RunTool(request);
        }
        self.transition(AgentState::Reviewing);
        match review(self.batch.as_slice()) {
            ReviewVerdict::Pass => {
                self.stats.failures = 0;
                self.transition(AgentState::Retrying);
                self.awaiting = Awaiting::Iteration;
                Next::Continue
            },
            ReviewVerdict::Fail(reasons) => {
                let joined = join_strings(reasons.as_slice(), "; ");
                let line = concat("review failed: ", joined.as_str());
                let ghost before = self.history@;
                proof {
                    assert(crate::text::string_views(reasons@) =~= reasons@.map_values(|s: String| s@));
                    assert(line@ == "review failed: "@ + crate::text::join_with(
                        crate::agent::reviewer::failure_reasons(self.batch@),
                        "; "@,
                    ));
                }
                self.history.push(line);
                proof {
                    assert(crate::text::string_views(self.history@) =~= crate::text::string_views(before).push(line@));
                }
                if self.stats.failures >= self.limits.max_retries {
                    let n: u64 = self.stats.failures as u64 + 1;
                    let w = concat(concat("gave up after ", decimal_string(n).as_str()).as_str(), " failed reviews");
                    self.add_warning(w);
                    let summary = self.stats.last_text.clone();
                    return Next::Finished(self.finish(AgentState::Failed, summary));
                }
                self.stats.failures = self.stats.failures + 1;
                self.transition(AgentState::Retrying);
                self.awaiting = Awaiting::Iteration;
                Next::Continue
            },
        }
    }

    /// Account for one executed call: count it, report its completion,
    /// remember a successful edit's file, add its history line, then go
    /// on with the next call.
    fn record(&mut self, result: ToolResult) -> (r: Next)
        requires
            old(self).wf_counters(),
            old(self).state == AgentState::Executing,
            old(self).next_call < old(self).calls@.len(),
            old(self).stats.tool_calls < old(self).limits.max_tool_calls,
        ensures
            r matches Next::Finished(f) ==> crate::agent::state::terminal(f.outcome),
            final(self).wf(),
            old(self).events@.is_prefix_of(final(self).events@),
            final(self).events@.len() > old(self).events@.len(),
            final(self).stats.last_text == old(self).stats.last_text,
            final(self).stats.tool_calls == old(self).stats.tool_calls + 1,
            !(r is AskProvider) && !(r is Confirm),
            r is RunTool ==> final(self).awaiting == Awaiting::Tool,
            r is Continue ==> final(self).awaiting == Awaiting::Iteration,
            after_call(*old(self), *final(self), result, old(self).events@.len() as int, r),
    {
        let call_tool = self.calls[self.next_call].tool.clone();
        let call_target = self.calls[self.next_call].target.clone();
        self.stats.tool_calls = self.stats.tool_calls + 1;
        let tool = match result.metadata.get("tool") {
            Some(t) => t.clone(),
            None => owned("unknown tool"),
        };
        proof {
            reveal_strlit("tool");
            reveal_strlit("unknown tool");
            assert(tool@ == crate::agent::reviewer::result_tool(result));
        }
        self.events.push(DarbEvent::ToolCompleted { tool, success: result.success });
        let ghost changed0 = crate::text::string_views(self.stats.changed_files@);
        if result.success && crate::text::str_eq(call_tool.as_str(), "edit_file") {
            if !listed(&self.stats.changed_files, call_target.as_str()) {
                self.stats.changed_files.push(call_target);
                proof {
                    assert(crate::text::string_views(self.stats.changed_files@) =~= changed0.push(call_target@));
                }
            }
        }
        proof {
            reveal_strlit("edit_file");
            assert(crate::text::string_views(self.stats.changed_files@) == changed_after(*old(self), result));
        }
        let ghost history0 = self.history@;
        self.history.push(summarize_result(&result));
        proof {
            assert(crate::text::string_views(self.history@) =~= crate::text::string_views(history0).push(
                summary_of(result),
            ));
        }
        self.batch.push(result);
        let n = self.calls.len();
        proof {
            assert(self.next_call < n);
        }
        self.next_call = self.next_call + 1;
        proof {
            assert forall|i: int| 0 <= i < self.events@.len() implies (#[trigger] self.events@[i] matches DarbEvent::AgentStateChanged { from, to }
                ==> allowed_change(from, to)) by {
                if i < self.events@.len() - 1 {
                    assert(self.events@[i] == old(self).events@[i]);
                }
            }
        }
        let ghost mid = *self;
        let r = self.advance();
        proof {
            assert(mid.events@.is_prefix_of(self.events@));
            assert(self.events@[old(self).events@.len() as int] == mid.events@[old(self).events@.len() as int]);
        }
        r
    }

    /// The current call ran. A permission question, when the user can be
    /// asked, pauses the run for a confirmation; any other result is
    /// accounted for.
    pub fn tool_done(&mut self, result: ToolResult) -> (r: Next)
        requires
            old(self).wf(),
            old(self).awaiting == Awaiting::Tool,
        ensures
            r matches Next::Finished(f) ==> crate::agent::state::terminal(f.outcome),
            final(self).wf(),
            asks_permission(result) && old(self).interactive ==> {
                &&& r matches Next::Confirm(req) && req.tool == old(self).calls@[old(self).next_call as int].tool
                    && req.target == old(self).calls@[old(self).next_call as int].target
                &&& final(self).awaiting == Awaiting::Confirmation
                &&& final(self).state == AgentState::WaitingPermission
            },
            !(asks_permission(result) && old(self).interactive) ==> {
                &&& final(self).stats.tool_calls == old(self).stats.tool_calls + 1
                &&& !(r is AskProvider) && !(r is Confirm)
                &&& after_call(*old(self), *final(self), result, old(self).events@.len() as int, r)
            },
    {
        if is_permission_ask(&result) && self.interactive {
            let request = request_of(&self.calls[self.next_call]);
            self.events.push(
                DarbEvent::PermissionRequested { tool: request.tool.clone(), target: request.target.clone() },
            );
            proof {
                assert forall|i: int| 0 <= i < self.events@.len() implies (#[trigger] self.events@[i] matches DarbEvent::AgentStateChanged { from, to }
                    ==> allowed_change(from, to)) by {
                    if i < self.events@.len() - 1 {
                        assert(self.events@[i] == old(self).events@[i]);
                    }
                }
            }
            self.transition(AgentState::WaitingPermission);
            self.awaiting = Awaiting::Confirmation;
            return Next::Confirm(request);
        }
        self.record(result)
    }

    /// The user answered the confirmation: with the result of the approved
    /// call run again, or `None` when refused, which becomes a denial by
    /// the user.
    pub fn confirmed(&mut self, result: Option<ToolResult>) -> (r: Next)
        requires
            old(self).wf(),
            old(self).awaiting == Awaiting::Confirmation,
        ensures
            r matches Next::Finished(f) ==> crate::agent::state::terminal(f.outcome),
            final(self).wf(),
            final(self).stats.tool_calls == old(self).stats.tool_calls + 1,
            !(r is AskProvider) && !(r is Confirm),
            final(self).events@.len() >= old(self).events@.len() + 3,
            final(self).events@[old(self).events@.len() as int] == (DarbEvent::AgentStateChanged {
                from: AgentState::WaitingPermission,
                to: AgentState::Executing,
            }),
            final(self).events@[old(self).events@.len() as int + 1] matches DarbEvent::PermissionResolved { tool, allowed }
                && tool == old(self).calls@[old(self).next_call as int].tool && allowed == (result is Some),
            result matches Some(res) ==> after_call(*old(self), *final(self), res, old(self).events@.len() + 2int, r),
            result is None ==> exists|res: ToolResult|
                user_denial(res, old(self).calls@[old(self).next_call as int]) && #[trigger] after_call(
                    *old(self),
                    *final(self),
                    res,
                    old(self).events@.len() + 2int,
                    r,
                ),
    {
        self.transition(AgentState::Executing);
        let tool = self.calls[self.next_call].tool.clone();
        let target = self.calls[self.next_call].target.clone();
        let allowed = result.is_some();
        self.events.push(DarbEvent::PermissionResolved { tool: tool.clone(), allowed });
        proof {
            assert forall|i: int| 0 <= i < self.events@.len() implies (#[trigger] self.events@[i] matches DarbEvent::AgentStateChanged { from, to }
                ==> allowed_change(from, to)) by {
                if i < self.events@.len() - 1 {
                    assert(self.events@[i] == self.events@.drop_last()[i]);
                }
            }
        }
        let ghost mid = self.events@;
        let res = match result {
            Some(res) => res,
            None => ToolResult::denied(&Denial { tool, target, reason: DenyReason::DeniedByUser }),
        };
        let ghost recorded = res;
        let ghost before = *self;
        let r = self.record(res);
        proof {
            assert(after_call(before, *self, recorded, old(self).events@.len() + 2int, r));
            assert(after_call(*old(self), *self, recorded, old(self).events@.len() + 2int, r));
            assert(mid.len() == old(self).events@.len() + 2);
            assert(self.events@[old(self).events@.len() as int] == mid[old(self).events@.len() as int]);
            assert(self.events@[old(self).events@.len() as int + 1] == mid[old(self).events@.len() as int + 1]);
        }
        r
    }

    /// The run went over its time budget while waiting: it fails with a
    /// timeout warning and counts reset, as if stopped waiting for the
    /// provider.
    pub fn timed_out(&mut self) -> (r: FinalResult)
        requires
            old(self).wf(),
        ensures
            r.outcome == AgentState::Failed,
            r.summary@ == "agent timed out"@,
            r.iterations == 0 && r.tool_calls == 0,
            r.changed_files@.len() == 0,
            r.warnings@.len() == 1,
            r.warnings@[0]@ == "exceeded the "@ + crate::text::decimal(old(self).limits.timeout_seconds as nat)
                + "s timeout"@,
            Self::reported(*old(self), *final(self), seq![
                DarbEvent::AgentStateChanged { from: AgentState::WaitingProvider, to: AgentState::Failed },
                DarbEvent::AgentFinished { summary: r.summary },
            ]),
    {
        self.stats = RunStats {
            iterations: 0,
            tool_calls: 0,
            failures: 0,
            changed_files: Vec::new(),
            warnings: Vec::new(),
            last_text: String::new(),
        };
        let w = concat(
            concat("exceeded the ", decimal_string(self.limits.timeout_seconds).as_str()).as_str(),
            "s timeout",
        );
        self.add_warning(w);
        self.state = AgentState::WaitingProvider;
        proof {
            assert(self.stats.warnings@.len() == 1);
        }
        self.finish(AgentState::Failed, owned("agent timed out"))
    }
}

/// A run that keeps its invariant stays inside its budgets, has only
/// made allowed state changes (legal transitions, plus the retry after a
/// failed provider request), and is over only in a terminal state.
pub proof fn law_run_stays_in_budget_with_allowed_changes(run: AgentRun)
    requires
        run.wf(),
    ensures
        run.stats.iterations <= run.limits.max_iterations,
        run.stats.tool_calls <= run.limits.max_tool_calls,
        run.stats.failures <= run.limits.max_retries,
        forall|i: int|
            0 <= i < run.events@.len() ==> (#[trigger] run.events@[i] matches DarbEvent::AgentStateChanged { from, to }
                ==> allowed_change(from, to)),
        run.awaiting == Awaiting::Done ==> crate::agent::state::terminal(run.state),
{
}

} // verus!
