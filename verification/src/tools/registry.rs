//! Tool registry: request → permission check → tool → structured result.
//!
//! No tool runs without passing the permission manager first; refusals
//! and questions come back as results, never as panics.
use vstd::prelude::*;

use crate::errors::DarbError;
use crate::permissions::{AskReason, Denial, DenyReason, PermissionManager, PermissionOutcome, ToolRequest};
use crate::text::{chars_of, concat, decimal_string, join_strings, owned, trim_chars, CharClass};
use crate::textmap::TextMap;
use crate::tools::filesystem::DirEntry;
use crate::tools::search::SearchOutput;
use crate::tools::shell::ShellOutput;

verus! {

/// Structured tool result.
#[derive(Debug, Clone)]
pub struct ToolResult {
    pub success: bool,
    pub output: String,
    pub error: Option<String>,
    pub metadata: TextMap,
    pub duration_ms: u64,
}

/// Name of an ask reason, as it is recorded in result metadata.
pub open spec fn ask_reason_text(r: AskReason) -> Seq<char> {
    match r {
        AskReason::PolicyRequiresConfirmation => "PolicyRequiresConfirmation"@,
        AskReason::DangerousCommand => "DangerousCommand"@,
        AskReason::GitPushRequiresConfirmation => "GitPushRequiresConfirmation"@,
    }
}

/// Name of a deny reason, as it is recorded in result metadata.
pub open spec fn deny_reason_text(r: DenyReason) -> Seq<char> {
    match r {
        DenyReason::ForbiddenByPolicy => "ForbiddenByPolicy"@,
        DenyReason::SudoBlocked => "SudoBlocked"@,
        DenyReason::UnknownTool => "UnknownTool"@,
        DenyReason::DeniedByUser => "DeniedByUser"@,
    }
}

/// Executable name of an ask reason.
pub fn ask_reason_name(r: AskReason) -> (s: &'static str)
    ensures
        s@ == ask_reason_text(r),
{
    match r {
        AskReason::PolicyRequiresConfirmation => "PolicyRequiresConfirmation",
        AskReason::DangerousCommand => "DangerousCommand",
        AskReason::GitPushRequiresConfirmation => "GitPushRequiresConfirmation",
    }
}

/// Executable name of a deny reason.
pub fn deny_reason_name(r: DenyReason) -> (s: &'static str)
    ensures
        s@ == deny_reason_text(r),
{
    match r {
        DenyReason::ForbiddenByPolicy => "ForbiddenByPolicy",
        DenyReason::SudoBlocked => "SudoBlocked",
        DenyReason::UnknownTool => "UnknownTool",
        DenyReason::DeniedByUser => "DeniedByUser",
    }
}

/// `"<a>'<tool>' on '<target>'<b>"`, the shape of permission messages.
pub open spec fn about_text(a: Seq<char>, tool: Seq<char>, target: Seq<char>, b: Seq<char>) -> Seq<char> {
    a + "'"@ + tool + "' on '"@ + target + "'"@ + b
}

fn about_string(a: &str, tool: &str, target: &str, b: &str) -> (r: String)
    ensures
        r@ == about_text(a@, tool@, target@, b@),
{
    let mut r = owned(a);
    r.append("'");
    r.append(tool);
    r.append("' on '");
    r.append(target);
    r.append("'");
    r.append(b);
    r
}

/// The answer to a request that needs confirmation: a failure with no
/// output, the message naming tool and target, and metadata recording the
/// question, its reason, the tool and the target.
pub open spec fn is_permission_required(r: ToolResult, reason: AskReason, tool: Seq<char>, target: Seq<char>) -> bool {
    &&& !r.success
    &&& r.output@ == Seq::<char>::empty()
    &&& r.error matches Some(e) && e@ == about_text("permission required: "@, tool, target, Seq::<char>::empty())
    &&& r.metadata@ == Map::<Seq<char>, Seq<char>>::empty().insert("permission"@, "ask"@).insert(
        "ask_reason"@,
        ask_reason_text(reason),
    ).insert("tool"@, tool).insert("target"@, target)
    &&& r.duration_ms == 0
}

/// The answer to a refused request: a failure with no output, the message
/// naming tool, target and reason, and metadata recording the refusal, its
/// reason, the tool and the target.
pub open spec fn is_denied(r: ToolResult, tool: Seq<char>, target: Seq<char>, reason: DenyReason) -> bool {
    &&& !r.success
    &&& r.output@ == Seq::<char>::empty()
    &&& r.error matches Some(e) && e@ == about_text(
        "denied: "@,
        tool,
        target,
        " ("@ + deny_reason_text(reason) + ")"@,
    )
    &&& r.metadata@ == Map::<Seq<char>, Seq<char>>::empty().insert("permission"@, "denied"@).insert(
        "deny_reason"@,
        deny_reason_text(reason),
    ).insert("tool"@, tool).insert("target"@, target)
    &&& r.duration_ms == 0
}

impl ToolResult {
    /// A successful result carrying `output`.
    pub fn ok(output: String) -> (r: Self)
        ensures
            r.success,
            r.output@ == output@,
            r.error is None,
            r.metadata@ == Map::<Seq<char>, Seq<char>>::empty(),
            r.duration_ms == 0,
    {
        ToolResult { success: true, output, error: None, metadata: TextMap::new(), duration_ms: 0 }
    }

    /// A failed result carrying `error`.
    pub fn fail(error: String) -> (r: Self)
        ensures
            !r.success,
            r.output@ == Seq::<char>::empty(),
            r.error matches Some(e) && e@ == error@,
            r.metadata@ == Map::<Seq<char>, Seq<char>>::empty(),
            r.duration_ms == 0,
    {
        ToolResult {
            success: false,
            output: String::new(),
            error: Some(error),
            metadata: TextMap::new(),
            duration_ms: 0,
        }
    }

    /// The same result with one more metadata entry.
    pub fn with_meta(self, key: &str, value: String) -> (r: Self)
        ensures
            r.success == self.success,
            r.output == self.output,
            r.error == self.error,
            r.duration_ms == self.duration_ms,
            r.metadata@ == self.metadata@.insert(key@, value@),
    {
        let mut r = self;
        r.metadata.insert(owned(key), value);
        r
    }

    /// The request needs user confirmation first.
    pub fn permission_required(reason: AskReason, request: &ToolRequest) -> (r: Self)
        ensures
            is_permission_required(r, reason, request.tool@, request.target@),
    {
        let msg = about_string("permission required: ", request.tool.as_str(), request.target.as_str(), "");
        proof {
            reveal_strlit("");
            assert(""@ == Seq::<char>::empty());
        }
        ToolResult::fail(msg).with_meta("permission", owned("ask")).with_meta(
            "ask_reason",
            owned(ask_reason_name(reason)),
        ).with_meta("tool", request.tool.clone()).with_meta("target", request.target.clone())
    }

    /// The request was refused.
    pub fn denied(denial: &Denial) -> (r: Self)
        ensures
            is_denied(r, denial.tool@, denial.target@, denial.reason),
    {
        let tail = concat(" (", deny_reason_name(denial.reason));
        let tail = concat(tail.as_str(), ")");
        let msg = about_string("denied: ", denial.tool.as_str(), denial.target.as_str(), tail.as_str());
        ToolResult::fail(msg).with_meta("permission", owned("denied")).with_meta(
            "deny_reason",
            owned(deny_reason_name(denial.reason)),
        ).with_meta("tool", denial.tool.clone()).with_meta("target", denial.target.clone())
    }
}

/// The tools the registry can run.
#[derive(Debug, Clone, Copy, PartialEq, Eq, Structural)]
pub enum ToolKind {
    ReadFile,
    ListDirectory,
    Search,
    GitStatus,
    GitDiff,
    EditFile,
    Shell,
    /// A name no tool answers to.
    Unknown,
}

/// The tool a name selects (`shell`, `run_shell` and `run_command` are
/// one tool).
pub open spec fn kind_of(name: Seq<char>) -> ToolKind {
    if name == "read_file"@ {
        ToolKind::ReadFile
    } else if name == "list_directory"@ {
        ToolKind::ListDirectory
    } else if name == "search"@ {
        ToolKind::Search
    } else if name == "git_status"@ {
        ToolKind::GitStatus
    } else if name == "git_diff"@ {
        ToolKind::GitDiff
    } else if name == "edit_file"@ {
        ToolKind::EditFile
    } else if name == "shell"@ || name == "run_shell"@ || name == "run_command"@ {
        ToolKind::Shell
    } else {
        ToolKind::Unknown
    }
}

/// The tool a name selects.
pub fn tool_kind(name: &str) -> (k: ToolKind)
    ensures
        k == kind_of(name@),
{
    if crate::text::str_eq(name, "read_file") {
        ToolKind::ReadFile
    } else if crate::text::str_eq(name, "list_directory") {
        ToolKind::ListDirectory
    } else if crate::text::str_eq(name, "search") {
        ToolKind::Search
    } else if crate::text::str_eq(name, "git_status") {
        ToolKind::GitStatus
    } else if crate::text::str_eq(name, "git_diff") {
        ToolKind::GitDiff
    } else if crate::text::str_eq(name, "edit_file") {
        ToolKind::EditFile
    } else if crate::text::str_eq(name, "shell") || crate::text::str_eq(name, "run_shell")
        || crate::text::str_eq(name, "run_command") {
        ToolKind::Shell
    } else {
        ToolKind::Unknown
    }
}

/// What a dispatch decides: refuse with this result, or run this tool.
pub enum Dispatch {
    Refused(ToolResult),
    Run(ToolKind),
}

/// The answer to a request with verdict `v`: an allowed request runs the
/// tool its name selects; a question is answered with a
/// permission-required result, a refusal with a denied result.
pub open spec fn gated(v: crate::permissions::Verdict, r: Dispatch, tool: Seq<char>, target: Seq<char>) -> bool {
    match v {
        crate::permissions::Verdict::Allow => r == Dispatch::Run(kind_of(tool)),
        crate::permissions::Verdict::Ask(reason) => r matches Dispatch::Refused(res) && is_permission_required(
            res,
            reason,
            tool,
            target,
        ),
        crate::permissions::Verdict::Deny(reason) => r matches Dispatch::Refused(res) && is_denied(
            res,
            tool,
            target,
            reason,
        ),
    }
}

/// Law: permission is checked before dispatch. A tool runs exactly when
/// the request is allowed; otherwise no tool runs, and the answer is a
/// failed result that records the permission outcome, its reason, the
/// tool and the target. (What a run answers is built by the run-result
/// builders, none of which records a `permission` entry.)
pub proof fn law_dispatch_runs_only_allowed_requests(
    v: crate::permissions::Verdict,
    r: Dispatch,
    tool: Seq<char>,
    target: Seq<char>,
)
    requires
        gated(v, r, tool, target),
    ensures
        r is Run <==> v == crate::permissions::Verdict::Allow,
        r is Run ==> r == Dispatch::Run(kind_of(tool)),
        r matches Dispatch::Refused(res) ==> {
            &&& !res.success
            &&& res.output@.len() == 0
            &&& res.duration_ms == 0
            &&& res.metadata@.contains_key("permission"@)
            &&& res.metadata@.contains_key("tool"@) && res.metadata@["tool"@] == tool
            &&& res.metadata@.contains_key("target"@) && res.metadata@["target"@] == target
        },
{
    reveal_strlit("tool");
    reveal_strlit("target");
    assert("tool"@.len() != "target"@.len());
}

/// The permission gate in front of the tools, for one project root.
pub struct ToolRegistry {
    pub permissions: PermissionManager,
    pub root: String,
}

impl ToolRegistry {
    /// A registry for `root` behind the given permission manager.
    pub fn new(permissions: PermissionManager, root: &str) -> (r: Self)
        ensures
            r.root@ == root@,
            r.permissions == permissions,
    {
        ToolRegistry { permissions, root: owned(root) }
    }

    /// The project root.
    pub fn root(&self) -> (r: &str)
        ensures
            r@ == self.root@,
    {
        self.root.as_str()
    }

    /// Record the user's one-time approval of a request.
    pub fn grant_once(&mut self, tool: &str, target: &str)
        ensures
            final(self).root == old(self).root,
            final(self).permissions.policy() == old(self).permissions.policy(),
            final(self).permissions.grants() == old(self).permissions.grants().insert((tool@, target@)),
    {
        self.permissions.grant_once(tool, target);
    }

    /// Decide a request: no tool runs without passing the permission
    /// check. A question becomes a permission-required result, a refusal a
    /// denied result; an allowed request runs the tool its name selects.
    pub fn dispatch(&mut self, request: &ToolRequest) -> (r: Dispatch)
        ensures
            final(self).root == old(self).root,
            final(self).permissions.policy() == old(self).permissions.policy(),
            ({
                let (v, g) = crate::permissions::check_spec(
                    old(self).permissions.policy(),
                    old(self).permissions.grants(),
                    request.tool@,
                    request.target@,
                );
                &&& final(self).permissions.grants() == g
                &&& gated(v, r, request.tool@, request.target@)
            }),
    {
        let outcome = self.permissions.check(request);
        match outcome {
            PermissionOutcome::Allowed => Dispatch::Run(tool_kind(request.tool.as_str())),
            PermissionOutcome::AskUser(reason) => Dispatch::Refused(ToolResult::permission_required(reason, request)),
            PermissionOutcome::Denied(denial) => Dispatch::Refused(ToolResult::denied(&denial)),
        }
    }

    /// The `old` and `new` arguments of an edit request.
    pub fn edit_args(request: &ToolRequest) -> (r: Result<(String, String), DarbError>)
        ensures
            match r {
                Ok((o, n)) => request.arguments@.contains_key("old"@) && request.arguments@.contains_key("new"@)
                    && o@ == request.arguments@["old"@] && n@ == request.arguments@["new"@],
                Err(e) => !(request.arguments@.contains_key("old"@) && request.arguments@.contains_key("new"@))
                    && e is Tool && e.detail_view() == "edit_file needs 'old' and 'new' arguments"@,
            },
    {
        match (request.arguments.get("old"), request.arguments.get("new")) {
            (Some(o), Some(n)) => Ok((o.clone(), n.clone())),
            _ => Err(DarbError::Tool(owned("edit_file needs 'old' and 'new' arguments"))),
        }
    }
}

/// None of the keys a tool's own result records is `permission`.
proof fn lemma_result_keys_are_not_permission()
    ensures
        "tool"@ != "permission"@,
        "entry_count"@ != "permission"@,
        "match_count"@ != "permission"@,
        "truncated"@ != "permission"@,
        "bytes_written"@ != "permission"@,
        "exit_code"@ != "permission"@,
{
    reveal_strlit("permission");
    reveal_strlit("tool");
    reveal_strlit("entry_count");
    reveal_strlit("match_count");
    reveal_strlit("truncated");
    reveal_strlit("bytes_written");
    reveal_strlit("exit_code");
    assert("permission"@.len() != "tool"@.len());
    assert("permission"@.len() != "entry_count"@.len());
    assert("permission"@.len() != "match_count"@.len());
    assert("permission"@[0] != "truncated"@[0]);
    assert("permission"@.len() != "bytes_written"@.len());
    assert("permission"@.len() != "exit_code"@.len());
}

/// Result of reading a file.
pub fn read_result(content: String) -> (r: ToolResult)
    ensures
        r.success && r.output@ == content@ && r.error is None,
        r.metadata@ == Map::<Seq<char>, Seq<char>>::empty().insert("tool"@, "read_file"@),
        !r.metadata@.contains_key("permission"@),
{
    proof {
        lemma_result_keys_are_not_permission();
    }
    ToolResult::ok(content).with_meta("tool", owned("read_file"))
}

/// A listed entry as shown: directories end with `/`.
pub open spec fn entry_line(e: DirEntry) -> Seq<char> {
    if e.is_dir {
        e.name@ + "/"@
    } else {
        e.name@
    }
}

/// Result of listing a directory: one entry per line, with the count.
pub fn list_result(entries: &[DirEntry]) -> (r: ToolResult)
    ensures
        r.success && r.error is None,
        r.output@ == crate::text::join_with(entries@.map_values(|e: DirEntry| entry_line(e)), "\n"@),
        r.metadata@ == Map::<Seq<char>, Seq<char>>::empty().insert("tool"@, "list_directory"@).insert(
            "entry_count"@,
            crate::text::decimal(entries@.len()),
        ),
        !r.metadata@.contains_key("permission"@),
{
    proof {
        lemma_result_keys_are_not_permission();
    }
    let mut lines: Vec<String> = Vec::new();
    let mut i: usize = 0;
    while i < entries.len()
        invariant
            i <= entries@.len(),
            crate::text::string_views(lines@) == entries@.take(i as int).map_values(|e: DirEntry| entry_line(e)),
        decreases entries.len() - i,
    {
        let e = &entries[i];
        let line = if e.is_dir {
            concat(e.name.as_str(), "/")
        } else {
            e.name.clone()
        };
        proof {
            assert(entries@.take(i + 1) == entries@.take(i as int).push(entries@[i as int]));
            assert(crate::text::string_views(lines@.push(line)) == crate::text::string_views(lines@).push(line@));
        }
        lines.push(line);
        i = i + 1;
    }
    proof {
        assert(entries@.take(entries@.len() as int) == entries@);
    }
    let out = join_strings(lines.as_slice(), "\n");
    ToolResult::ok(out).with_meta("tool", owned("list_directory")).with_meta(
        "entry_count",
        decimal_string(entries.len() as u64),
    )
}

/// `"true"` or `"false"`.
pub open spec fn bool_text(b: bool) -> Seq<char> {
    if b {
        "true"@
    } else {
        "false"@
    }
}

fn bool_string(b: bool) -> (r: String)
    ensures
        r@ == bool_text(b),
{
    if b {
        owned("true")
    } else {
        owned("false")
    }
}

/// A match as shown: `file:line:text`.
pub open spec fn match_line(m: crate::tools::search::SearchMatch) -> Seq<char> {
    m.file@ + ":"@ + crate::text::decimal(m.line as nat) + ":"@ + m.text@
}

/// Result of a search: one match per line, with the count and whether
/// the cap cut it.
pub fn search_result(out: &SearchOutput) -> (r: ToolResult)
    ensures
        r.success && r.error is None,
        r.output@ == crate::text::join_with(out.matches@.map_values(|m: crate::tools::search::SearchMatch| match_line(m)), "\n"@),
        r.metadata@ == Map::<Seq<char>, Seq<char>>::empty().insert("tool"@, "search"@).insert(
            "match_count"@,
            crate::text::decimal(out.matches@.len()),
        ).insert("truncated"@, bool_text(out.truncated)),
        !r.metadata@.contains_key("permission"@),
{
    proof {
        lemma_result_keys_are_not_permission();
    }
    let mut lines: Vec<String> = Vec::new();
    let mut i: usize = 0;
    while i < out.matches.len()
        invariant
            i <= out.matches@.len(),
            crate::text::string_views(lines@) == out.matches@.take(i as int).map_values(|m: crate::tools::search::SearchMatch| match_line(m)),
        decreases out.matches.len() - i,
    {
        let m = &out.matches[i];
        let a = concat(m.file.as_str(), ":");
        let b = concat(a.as_str(), decimal_string(m.line as u64).as_str());
        let c = concat(b.as_str(), ":");
        let line = concat(c.as_str(), m.text.as_str());
        proof {
            assert(out.matches@.take(i + 1) == out.matches@.take(i as int).push(out.matches@[i as int]));
            assert(crate::text::string_views(lines@.push(line)) == crate::text::string_views(lines@).push(line@));
        }
        lines.push(line);
        i = i + 1;
    }
    proof {
        assert(out.matches@.take(out.matches@.len() as int) == out.matches@);
    }
    let text = join_strings(lines.as_slice(), "\n");
    ToolResult::ok(text).with_meta("tool", owned("search")).with_meta(
        "match_count",
        decimal_string(out.matches.len() as u64),
    ).with_meta("truncated", bool_string(out.truncated))
}

/// Result of a git command, under the tool's name.
pub fn git_result(tool: &str, output: String) -> (r: ToolResult)
    ensures
        r.success && r.output@ == output@ && r.error is None,
        r.metadata@ == Map::<Seq<char>, Seq<char>>::empty().insert("tool"@, tool@),
        !r.metadata@.contains_key("permission"@),
{
    proof {
        lemma_result_keys_are_not_permission();
    }
    ToolResult::ok(output).with_meta("tool", owned(tool))
}

/// Result of an edit: what was written and how many bytes.
pub fn edit_result(target: &str, bytes: u64) -> (r: ToolResult)
    ensures
        r.success && r.error is None,
        r.output@ == "edited '"@ + target@ + "' ("@ + crate::text::decimal(bytes as nat) + " bytes)"@,
        r.metadata@ == Map::<Seq<char>, Seq<char>>::empty().insert("tool"@, "edit_file"@).insert(
            "bytes_written"@,
            crate::text::decimal(bytes as nat),
        ),
        !r.metadata@.contains_key("permission"@),
{
    proof {
        lemma_result_keys_are_not_permission();
    }
    let a = concat("edited '", target);
    let b = concat(a.as_str(), "' (");
    let c = concat(b.as_str(), decimal_string(bytes).as_str());
    let msg = concat(c.as_str(), " bytes)");
    ToolResult::ok(msg).with_meta("tool", owned("edit_file")).with_meta("bytes_written", decimal_string(bytes))
}

/// Decimal text of a signed number.
pub open spec fn signed_decimal(n: int) -> Seq<char> {
    if n < 0 {
        seq!['-'] + crate::text::decimal((-n) as nat)
    } else {
        crate::text::decimal(n as nat)
    }
}

fn signed_string(n: i32) -> (r: String)
    ensures
        r@ == signed_decimal(n as int),
{
    if n < 0 {
        let m: u64 = (0 - (n as i64)) as u64;
        let d = decimal_string(m);
        let mut s = String::new();
        crate::text::push_char(&mut s, '-');
        s.append(d.as_str());
        s
    } else {
        decimal_string(n as u64)
    }
}

/// Result of a shell command: success is a zero exit status; a failure
/// carries the status and the trimmed error stream.
pub fn shell_result(out: &ShellOutput) -> (r: ToolResult)
    ensures
        r.success == (out.exit_code == 0),
        r.output == out.stdout,
        r.duration_ms == 0,
        out.exit_code == 0 ==> r.error is None,
        out.exit_code != 0 ==> (r.error matches Some(e) && e@ == "exit "@ + signed_decimal(out.exit_code as int)
            + ": "@ + crate::text::trim(out.stderr@)),
        r.metadata@ == Map::<Seq<char>, Seq<char>>::empty().insert("tool"@, "shell"@).insert(
            "exit_code"@,
            signed_decimal(out.exit_code as int),
        ).insert("truncated"@, bool_text(out.truncated)),
        !r.metadata@.contains_key("permission"@),
{
    proof {
        lemma_result_keys_are_not_permission();
    }
    let ok = out.succeeded();
    let error = if ok {
        None
    } else {
        let a = concat("exit ", signed_string(out.exit_code).as_str());
        let b = concat(a.as_str(), ": ");
        let v = chars_of(out.stderr.as_str());
        let t = crate::text::string_of(&trim_chars(&v, CharClass::Whitespace));
        Some(concat(b.as_str(), t.as_str()))
    };
    let r = ToolResult { success: ok, output: out.stdout.clone(), error, metadata: TextMap::new(), duration_ms: 0 };
    r.with_meta("tool", owned("shell")).with_meta("exit_code", signed_string(out.exit_code)).with_meta(
        "truncated",
        bool_string(out.truncated),
    )
}

/// Result for a tool name no tool answers to.
pub fn unknown_tool_result(name: &str) -> (r: ToolResult)
    ensures
        !r.success,
        r.error matches Some(e) && e@ == "tool '"@ + name@ + "' is not implemented yet"@,
        r.metadata@ == Map::<Seq<char>, Seq<char>>::empty(),
        !r.metadata@.contains_key("permission"@),
{
    proof {
        lemma_result_keys_are_not_permission();
    }
    let a = concat("tool '", name);
    ToolResult::fail(concat(a.as_str(), "' is not implemented yet"))
}

/// Result of a tool that failed: the error's message.
pub fn error_result(e: &DarbError) -> (r: ToolResult)
    ensures
        !r.success,
        r.error matches Some(m) && m@ == crate::errors::error_prefix(*e) + e.detail_view(),
        r.metadata@ == Map::<Seq<char>, Seq<char>>::empty(),
        !r.metadata@.contains_key("permission"@),
{
    proof {
        lemma_result_keys_are_not_permission();
    }
    ToolResult::fail(e.message())
}

} // verus!
